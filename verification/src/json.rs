//! JSON value model: the external form that every data type encodes to and
//! decodes from. An executable tree (`JsonVal`) with a mathematical view
//! (`JsonV`) over sequences of characters.
use vstd::prelude::*;

verus! {

broadcast use vstd::std_specs::vec::axiom_vec_decreases_to_view, vstd::seq::axiom_seq_index_decreases;

/// Executable JSON tree. Objects keep their fields in order, so an encoding
/// is a single well-defined tree rather than an unordered map.
#[derive(Debug)]
pub enum JsonVal {
    Null,
    Bool(bool),
    Int(i64),
    Str(String),
    Arr(Vec<JsonVal>),
    Obj(Vec<(String, JsonVal)>),
}

/// Mathematical JSON tree: the view of `JsonVal`.
#[verifier::ext_equal]
pub enum JsonV {
    Null,
    Bool(bool),
    Int(i64),
    Str(Seq<char>),
    Arr(Seq<JsonV>),
    Obj(Seq<(Seq<char>, JsonV)>),
}

impl JsonVal {
    /// The mathematical tree that this node denotes.
    pub open spec fn jv(self) -> JsonV
        decreases self,
    {
        match self {
            JsonVal::Null => JsonV::Null,
            JsonVal::Bool(b) => JsonV::Bool(b),
            JsonVal::Int(i) => JsonV::Int(i),
            JsonVal::Str(s) => JsonV::Str(s@),
            JsonVal::Arr(v) => JsonV::Arr(
                Seq::new(
                    v@.len(),
                    |i: int|
                        if 0 <= i < v@.len() {
                            v@[i].jv()
                        } else {
                            JsonV::Null
                        },
                ),
            ),
            JsonVal::Obj(v) => JsonV::Obj(
                Seq::new(
                    v@.len(),
                    |i: int|
                        if 0 <= i < v@.len() {
                            (v@[i].0@, v@[i].1.jv())
                        } else {
                            (Seq::empty(), JsonV::Null)
                        },
                ),
            ),
        }
    }
}

impl View for JsonVal {
    type V = JsonV;

    open spec fn view(&self) -> JsonV {
        self.jv()
    }
}

/// The entry views of an object node's fields, in order.
pub open spec fn entries_of(s: Seq<(String, JsonVal)>) -> Seq<(Seq<char>, JsonV)> {
    Seq::new(
        s.len(),
        |i: int|
            if 0 <= i < s.len() {
                (s[i].0@, s[i].1.jv())
            } else {
                (Seq::empty(), JsonV::Null)
            },
    )
}

/// The element views of an array node's elements, in order.
pub open spec fn elts_of(s: Seq<JsonVal>) -> Seq<JsonV> {
    Seq::new(
        s.len(),
        |i: int|
            if 0 <= i < s.len() {
                s[i].jv()
            } else {
                JsonV::Null
            },
    )
}

/// An object node's view carries exactly the views of its entries.
pub broadcast proof fn lemma_view_obj_entries(v: Vec<(String, JsonVal)>)
    ensures
        (#[trigger] JsonVal::Obj(v)@)->Obj_0 == entries_of(v@),
{
    assert((JsonVal::Obj(v)@)->Obj_0 =~= entries_of(v@));
}

/// An array node's view carries exactly the views of its elements.
pub broadcast proof fn lemma_view_arr_elts(v: Vec<JsonVal>)
    ensures
        (#[trigger] JsonVal::Arr(v)@)->Arr_0 == elts_of(v@),
{
    assert((JsonVal::Arr(v)@)->Arr_0 =~= elts_of(v@));
}

/// The view of an object node has one entry per field, in order.
pub broadcast proof fn lemma_view_obj_len(v: Vec<(String, JsonVal)>)
    ensures
        (#[trigger] JsonVal::Obj(v)@)->Obj_0.len() == v@.len(),
{
}

/// Each entry of an object node's view is the view of the entry.
pub broadcast proof fn lemma_view_obj_index(v: Vec<(String, JsonVal)>, i: int)
    requires
        0 <= i < v@.len(),
    ensures
        #[trigger] (JsonVal::Obj(v)@->Obj_0[i]) == (v@[i].0@, v@[i].1@),
{
}

/// The view of an array node has one element per element, in order.
pub broadcast proof fn lemma_view_arr_len(v: Vec<JsonVal>)
    ensures
        (#[trigger] JsonVal::Arr(v)@)->Arr_0.len() == v@.len(),
{
}

/// Each element of an array node's view is the view of the element.
pub broadcast proof fn lemma_view_arr_index(v: Vec<JsonVal>, i: int)
    requires
        0 <= i < v@.len(),
    ensures
        #[trigger] (JsonVal::Arr(v)@->Arr_0[i]) == v@[i]@,
{
}

pub broadcast group group_json_view_lemmas {
    lemma_view_obj_len,
    lemma_view_obj_index,
    lemma_view_arr_len,
    lemma_view_arr_index,
    lemma_view_obj_entries,
    lemma_view_arr_elts,
}

} // verus!
