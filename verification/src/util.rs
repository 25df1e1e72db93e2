//! Small shared helpers: string comparison and the textual form of a
//! 128-bit project identifier (UUID).
use vstd::prelude::*;
use vstd::string::StrSliceExecFns;

verus! {

/// Relies on `str::eq` (via `==` on `&str`): string slices compare equal
/// exactly when their characters are equal.
#[verifier::external_body]
pub fn str_eq(a: &str, b: &str) -> (r: bool)
    ensures
        r == (a@ == b@),
{
    a == b
}

/// `p` is a prefix of `s`.
pub open spec fn has_prefix(s: Seq<char>, p: Seq<char>) -> bool {
    s.len() >= p.len() && s.subrange(0, p.len() as int) == p
}

/// Decides whether `p` is a prefix of `s`.
#[verifier::loop_isolation(false)]
pub fn str_has_prefix(s: &str, p: &str) -> (r: bool)
    ensures
        r == has_prefix(s@, p@),
{
    let sn = s.unicode_len();
    let pn = p.unicode_len();
    if sn < pn {
        return false;
    }
    let mut i: usize = 0;
    while i < pn
        invariant
            i <= pn,
            pn <= sn,
            forall|k: int| 0 <= k < i as int ==> s@[k] == p@[k],
        decreases pn - i,
    {
        if s.get_char(i) != p.get_char(i) {
            return false;
        }
        i = i + 1;
    }
    proof {
        assert(s@.subrange(0, p@.len() as int) =~= p@);
    }
    true
}

/// The character for one hexadecimal digit (lower case).
pub open spec fn hex_digit(d: u128) -> char {
    if d == 0 {
        '0'
    } else if d == 1 {
        '1'
    } else if d == 2 {
        '2'
    } else if d == 3 {
        '3'
    } else if d == 4 {
        '4'
    } else if d == 5 {
        '5'
    } else if d == 6 {
        '6'
    } else if d == 7 {
        '7'
    } else if d == 8 {
        '8'
    } else if d == 9 {
        '9'
    } else if d == 10 {
        'a'
    } else if d == 11 {
        'b'
    } else if d == 12 {
        'c'
    } else if d == 13 {
        'd'
    } else if d == 14 {
        'e'
    } else {
        'f'
    }
}

/// The `i`-th character (0-based, from the left) of the 32-digit hexadecimal
/// expansion of `u`.
pub open spec fn hex_char_at(u: u128, i: int) -> char {
    hex_digit((u >> ((31 - i) * 4) as u128) & 0xf)
}

/// The canonical hyphenated form of a UUID held as a `u128`:
/// 8-4-4-4-12 lower-case hexadecimal digits.
pub open spec fn uuid_seq(u: u128) -> Seq<char> {
    Seq::new(36, |i: int| uuid_char(u, i))
}

/// Character `i` of the hyphenated UUID form: a hyphen at positions
/// 8, 13, 18 and 23, a hex digit everywhere else.
pub open spec fn uuid_char(u: u128, i: int) -> char {
    if i == 8 || i == 13 || i == 18 || i == 23 {
        '-'
    } else if i < 8 {
        hex_char_at(u, i)
    } else if i < 13 {
        hex_char_at(u, i - 1)
    } else if i < 18 {
        hex_char_at(u, i - 2)
    } else if i < 23 {
        hex_char_at(u, i - 3)
    } else {
        hex_char_at(u, i - 4)
    }
}

fn hex_digit_exec(d: u128) -> (c: char)
    requires
        d < 16,
    ensures
        c == hex_digit(d),
{
    if d == 0 {
        '0'
    } else if d == 1 {
        '1'
    } else if d == 2 {
        '2'
    } else if d == 3 {
        '3'
    } else if d == 4 {
        '4'
    } else if d == 5 {
        '5'
    } else if d == 6 {
        '6'
    } else if d == 7 {
        '7'
    } else if d == 8 {
        '8'
    } else if d == 9 {
        '9'
    } else if d == 10 {
        'a'
    } else if d == 11 {
        'b'
    } else if d == 12 {
        'c'
    } else if d == 13 {
        'd'
    } else if d == 14 {
        'e'
    } else {
        'f'
    }
}

/// Renders a 128-bit identifier in the canonical hyphenated UUID form.
pub fn uuid_to_string(u: u128) -> (r: String)
    ensures
        r@ == uuid_seq(u),
{
    let mut chars: Vec<char> = Vec::new();
    let mut i: usize = 0;
    while i < 36
        invariant
            i <= 36,
            chars@.len() == i as int,
            forall|k: int| 0 <= k < i as int ==> chars@[k] == uuid_char(u, k),
        decreases 36 - i,
    {
        let c: char = if i == 8 || i == 13 || i == 18 || i == 23 {
            '-'
        } else {
            let hi: usize = if i < 8 {
                i
            } else if i < 13 {
                i - 1
            } else if i < 18 {
                i - 2
            } else if i < 23 {
                i - 3
            } else {
                i - 4
            };
            let shift: u128 = ((31 - hi) * 4) as u128;
            let d: u128 = (u >> shift) & 0xf;
            proof {
                assert((u >> shift) & 0xf < 16) by (bit_vector);
            }
            hex_digit_exec(d)
        };
        chars.push(c);
        i = i + 1;
    }
    let r = chars_to_string(&chars);
    proof {
        assert(r@ =~= uuid_seq(u));
    }
    r
}

/// Relies on `String::from_iter` over `core::str::Chars`: collecting a vector
/// of characters yields the string with exactly those characters.
#[verifier::external_body]
pub fn chars_to_string(chars: &Vec<char>) -> (r: String)
    ensures
        r@ == chars@,
{
    chars.iter().collect()
}

/// What follows the last occurrence of `sep`; the whole sequence when
/// `sep` does not occur.
pub open spec fn after_last_sep(s: Seq<char>, sep: char) -> Seq<char>
    decreases s.len(),
{
    if s.len() == 0 {
        s
    } else if s.last() == sep {
        Seq::empty()
    } else {
        after_last_sep(s.drop_last(), sep).push(s.last())
    }
}

/// The positions of `sep` in `s`, in ascending order.
pub open spec fn sep_positions(s: Seq<char>, sep: char) -> Seq<int>
    decreases s.len(),
{
    if s.len() == 0 {
        Seq::empty()
    } else if s.last() == sep {
        sep_positions(s.drop_last(), sep).push(s.len() - 1)
    } else {
        sep_positions(s.drop_last(), sep)
    }
}

/// Every listed separator position is in range and the list ascends.
pub proof fn lemma_sep_positions(s: Seq<char>, sep: char)
    ensures
        forall|k: int|
            0 <= k < sep_positions(s, sep).len() ==> 0 <= #[trigger] sep_positions(s, sep)[k]
                < s.len(),
        forall|k: int, k2: int|
            0 <= k < k2 < sep_positions(s, sep).len() ==> sep_positions(s, sep)[k]
                < sep_positions(s, sep)[k2],
    decreases s.len(),
{
    if s.len() > 0 {
        lemma_sep_positions(s.drop_last(), sep);
        let ps = sep_positions(s, sep);
        let pd = sep_positions(s.drop_last(), sep);
        if s.last() == sep {
            assert forall|k: int| 0 <= k < ps.len() implies 0 <= #[trigger] ps[k] < s.len() by {
                if k < pd.len() {
                    assert(ps[k] == pd[k]);
                }
            }
            assert forall|k: int, k2: int| 0 <= k < k2 < ps.len() implies ps[k] < ps[k2] by {
                if k2 < pd.len() {
                    assert(ps[k] == pd[k] && ps[k2] == pd[k2]);
                } else {
                    assert(ps[k] == pd[k] && ps[k2] == s.len() - 1);
                }
            }
        } else {
            assert(ps == pd);
            assert forall|k: int| 0 <= k < ps.len() implies 0 <= #[trigger] ps[k] < s.len() by {
                assert(ps[k] == pd[k]);
            }
        }
    }
}

/// Collects the positions of `sep` in `s`.
#[verifier::loop_isolation(false)]
pub fn find_sep_positions(s: &str, sep: char) -> (r: Vec<usize>)
    ensures
        r@.len() == sep_positions(s@, sep).len(),
        forall|k: int|
            0 <= k < r@.len() ==> #[trigger] r@[k] as int == sep_positions(s@, sep)[k],
{
    let n = s.unicode_len();
    let mut out: Vec<usize> = Vec::new();
    let mut i: usize = 0;
    while i < n
        invariant
            i <= n,
            n == s@.len(),
            out@.len() == sep_positions(s@.subrange(0, i as int), sep).len(),
            forall|k: int|
                0 <= k < out@.len() ==> #[trigger] out@[k] as int == sep_positions(
                    s@.subrange(0, i as int),
                    sep,
                )[k],
        decreases n - i,
    {
        let c = s.get_char(i);
        proof {
            assert(s@.subrange(0, i as int + 1).drop_last() =~= s@.subrange(0, i as int));
            assert(s@.subrange(0, i as int + 1).last() == s@[i as int]);
        }
        if c == sep {
            out.push(i);
        }
        i = i + 1;
    }
    proof {
        assert(s@.subrange(0, n as int) =~= s@);
    }
    out
}

/// The suffix of `s` after its last `sep`, as the slice's own text shows.
#[verifier::loop_isolation(false)]
pub fn suffix_after_last(s: &str, sep: char) -> (r: String)
    ensures
        r@ == after_last_sep(s@, sep),
{
    let n = s.unicode_len();
    let mut st: usize = 0;
    let mut i: usize = 0;
    while i < n
        invariant
            i <= n,
            st <= i,
            n == s@.len(),
            after_last_sep(s@.subrange(0, i as int), sep) =~= s@.subrange(st as int, i as int),
        decreases n - i,
    {
        let c = s.get_char(i);
        proof {
            assert(s@.subrange(0, i as int + 1).drop_last() =~= s@.subrange(0, i as int));
            assert(s@.subrange(0, i as int + 1).last() == s@[i as int]);
        }
        if c == sep {
            st = i + 1;
            proof {
                assert(after_last_sep(s@.subrange(0, i as int + 1), sep) =~= s@.subrange(
                    st as int,
                    i as int + 1,
                ));
            }
        } else {
            proof {
                assert(after_last_sep(s@.subrange(0, i as int + 1), sep) =~= s@.subrange(
                    st as int,
                    i as int + 1,
                ));
            }
        }
        i = i + 1;
    }
    proof {
        assert(s@.subrange(0, n as int) =~= s@);
    }
    let r = s.substring_char(st, n);
    proof {
        assert(r@ == after_last_sep(s@, sep));
    }
    r.to_string()
}

/// The Unicode uppercase mapping of one character: a short sequence of
/// characters that depends on the character alone.
pub uninterp spec fn upper_of(c: char) -> Seq<char>;

/// Relies on `char::to_uppercase` (collected into a string): the Unicode
/// uppercase mapping of the character, at least one character long.
#[verifier::external_body]
pub fn char_upper(c: char) -> (r: String)
    ensures
        r@ == upper_of(c),
        r@.len() >= 1,
{
    c.to_uppercase().collect()
}

/// Uppercases the first character of a string, keeping the rest.
pub fn capitalize(s: &str) -> (r: String)
    ensures
        s@.len() == 0 ==> r@ == Seq::<char>::empty(),
        s@.len() > 0 ==> r@ == upper_of(s@[0]) + s@.subrange(1, s@.len() as int),
{
    let n = s.unicode_len();
    if n == 0 {
        return String::new();
    }
    let mut out = char_upper(s.get_char(0));
    let rest = s.substring_char(1, n);
    out.append(rest);
    out
}

} // verus!
