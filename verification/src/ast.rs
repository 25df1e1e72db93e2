//! The native data model: entities, attributes, schema, policies,
//! templates, links, and authorization requests/responses.
use vstd::prelude::*;

verus! {

/// An entity identifier: a non-empty type name and an id, written `type::id`.
#[derive(Debug, PartialEq, Eq)]
pub struct EntityUid {
    pub ty: String,
    pub id: String,
}

impl Clone for EntityUid {
    fn clone(&self) -> (r: Self)
        ensures
            r == *self,
    {
        EntityUid { ty: self.ty.clone(), id: self.id.clone() }
    }
}

/// A valid entity identifier has a non-empty type name and a non-empty
/// id.
pub open spec fn euid_wf(u: EntityUid) -> bool {
    u.ty@.len() > 0 && u.id@.len() > 0
}

impl EntityUid {
    pub fn new(ty: String, id: String) -> (r: Self)
        requires
            ty@.len() > 0,
            id@.len() > 0,
        ensures
            r.ty == ty,
            r.id == id,
            euid_wf(r),
    {
        EntityUid { ty, id }
    }

    pub fn entity_type(&self) -> (r: &str)
        ensures
            r@ == self.ty@,
    {
        self.ty.as_str()
    }

    pub fn id(&self) -> (r: &str)
        ensures
            r@ == self.id@,
    {
        self.id.as_str()
    }

    /// The pair of character sequences that identifies this entity.
    pub open spec fn key(self) -> (Seq<char>, Seq<char>) {
        (self.ty@, self.id@)
    }

    /// The serialized `type::id` form.
    pub open spec fn full_seq(self) -> Seq<char> {
        self.ty@ + "::"@ + self.id@
    }
}

/// An extension-function call: function name plus a single string argument.
#[derive(Debug, PartialEq, Eq)]
pub struct ExtensionFn {
    pub func: String,
    pub arg: String,
}

/// An entity reference in its escaped (`{"__entity": ...}`) form.
#[derive(Debug, PartialEq, Eq)]
pub struct EntityUidEscape {
    pub entity: EntityUid,
}

/// An extension call in its escaped (`{"__extn": ...}`) form.
#[derive(Debug, PartialEq, Eq)]
pub struct ExtensionFnEscape {
    pub extn: ExtensionFn,
}

/// A recursive attribute value. The bare and escaped entity and extension
/// forms are distinct variants so that an encoding round trip preserves
/// which form was used.
#[derive(Debug)]
pub enum EntityAttr {
    String(String),
    Number(i64),
    Boolean(bool),
    SetOf(Vec<EntityAttr>),
    Record(Vec<(String, EntityAttr)>),
    EntityUid(EntityUid),
    Function(ExtensionFn),
    EntityUidEscape(EntityUidEscape),
    FunctionEscape(ExtensionFnEscape),
}

/// An entity: identity, attributes, parent group references, and tags.
/// Equality of entities in a store is by `uid` alone.
#[derive(Debug)]
pub struct Entity {
    pub uid: EntityUid,
    pub attrs: Vec<(String, EntityAttr)>,
    pub parents: Vec<EntityUid>,
    pub tags: Vec<(String, EntityAttr)>,
}

impl Entity {
    pub fn new(uid: EntityUid, attrs: Vec<(String, EntityAttr)>, parents: Vec<EntityUid>) -> (r:
        Self)
        ensures
            r.uid == uid,
            r.attrs == attrs,
            r.parents == parents,
            r.tags@ == Seq::<(String, EntityAttr)>::empty(),
    {
        Entity { uid, attrs, parents, tags: Vec::new() }
    }

    pub fn new_no_attrs(uid: EntityUid, parents: Vec<EntityUid>) -> (r: Self)
        ensures
            r.uid == uid,
            r.attrs@ == Seq::<(String, EntityAttr)>::empty(),
            r.parents == parents,
            r.tags@ == Seq::<(String, EntityAttr)>::empty(),
    {
        Entity { uid, attrs: Vec::new(), parents, tags: Vec::new() }
    }

    pub fn new_with_tags(
        uid: EntityUid,
        attrs: Vec<(String, EntityAttr)>,
        parents: Vec<EntityUid>,
        tags: Vec<(String, EntityAttr)>,
    ) -> (r: Self)
        ensures
            r.uid == uid,
            r.attrs == attrs,
            r.parents == parents,
            r.tags == tags,
    {
        Entity { uid, attrs, parents, tags }
    }

    pub fn uid(&self) -> (r: &EntityUid)
        ensures
            *r == self.uid,
    {
        &self.uid
    }

    pub fn parents(&self) -> (r: &Vec<EntityUid>)
        ensures
            *r == self.parents,
    {
        &self.parents
    }

    pub fn attrs(&self) -> (r: &Vec<(String, EntityAttr)>)
        ensures
            *r == self.attrs,
    {
        &self.attrs
    }

    pub fn tags(&self) -> (r: &Vec<(String, EntityAttr)>)
        ensures
            *r == self.tags,
    {
        &self.tags
    }

    pub open spec fn spec_uid(self) -> EntityUid {
        self.uid
    }

    pub open spec fn spec_attrs(self) -> Seq<(String, EntityAttr)> {
        self.attrs@
    }

    pub open spec fn spec_parents(self) -> Seq<EntityUid> {
        self.parents@
    }

    pub open spec fn spec_tags(self) -> Seq<(String, EntityAttr)> {
        self.tags@
    }
}

impl PartialEq for Entity {
    /// Entities compare by identity alone: equal exactly when their
    /// type names and ids agree.
    fn eq(&self, other: &Entity) -> (r: bool) {
        self.uid.ty == other.uid.ty && self.uid.id == other.uid.id
    }
}

impl vstd::std_specs::cmp::PartialEqSpecImpl for Entity {
    open spec fn obeys_eq_spec() -> bool {
        true
    }

    open spec fn eq_spec(&self, other: &Entity) -> bool {
        self.uid.ty@ == other.uid.ty@ && self.uid.id@ == other.uid.id@
    }
}

/// An opaque policy identifier.
#[derive(Debug, PartialEq, Eq)]
pub struct PolicyId(pub String);

impl PolicyId {
    pub fn as_str(&self) -> (r: &str)
        ensures
            r@ == self.0@,
    {
        self.0.as_str()
    }
}

impl From<String> for PolicyId {
    fn from(value: String) -> (r: Self) {
        PolicyId(value)
    }
}

impl vstd::std_specs::convert::FromSpecImpl<String> for PolicyId {
    open spec fn obeys_from_spec() -> bool {
        true
    }

    open spec fn from_spec(t: String) -> Self {
        PolicyId(t)
    }
}

/// A slot in a template: `?principal` or `?resource`.
#[derive(Debug, PartialEq, Eq, Hash, Clone, Copy)]
pub enum SlotId {
    Principal,
    Resource,
}

/// A concrete entity or an open slot, as used in an `in` clause.
#[derive(Debug, PartialEq, Eq)]
pub struct EntityOrSlot {
    pub entity: Option<EntityUid>,
    pub slot: Option<SlotId>,
}

#[derive(Debug, PartialEq, Eq, Clone, Copy)]
pub enum PrincipalOperator {
    All,
    Eq,
    In,
    Is,
}

#[derive(Debug, PartialEq, Eq, Clone, Copy)]
pub enum ResourceOperator {
    All,
    Eq,
    In,
    Is,
}

#[derive(Debug, PartialEq, Eq, Clone, Copy)]
pub enum ActionOperator {
    All,
    Eq,
    In,
}

/// The principal constraint of a policy or template.
#[derive(Debug, PartialEq, Eq)]
pub struct PrincipalOp {
    pub op: PrincipalOperator,
    pub entity: Option<EntityUid>,
    pub slot: Option<SlotId>,
    pub entity_type: Option<String>,
    pub in_clause: Option<EntityOrSlot>,
}

/// The resource constraint of a policy or template.
#[derive(Debug, PartialEq, Eq)]
pub struct ResourceOp {
    pub op: ResourceOperator,
    pub entity: Option<EntityUid>,
    pub slot: Option<SlotId>,
    pub entity_type: Option<String>,
    pub in_clause: Option<EntityOrSlot>,
}

/// The action constraint of a policy or template.
#[derive(Debug, PartialEq, Eq)]
pub struct ActionOp {
    pub op: ActionOperator,
    pub entity: Option<EntityUid>,
    pub entities: Option<Vec<EntityUid>>,
}

#[derive(Debug, PartialEq, Eq, Clone, Copy)]
pub enum VarValue {
    Principal,
    Action,
    Resource,
    Context,
}

/// A literal value inside a condition expression.
#[derive(Debug)]
pub enum ValueExpr {
    String(String),
    Number(i64),
    Boolean(bool),
    SetOf(SetExpr),
    Record(RecordExpr),
    EntityUid(EntityUid),
    Function(ExtensionFn),
}

/// An explicit `Set` literal of expressions.
#[derive(Debug)]
pub struct SetExpr {
    pub set: Vec<JsonExpr>,
}

/// An explicit `Record` literal of expressions.
#[derive(Debug)]
pub struct RecordExpr {
    pub record: Vec<(String, JsonExpr)>,
}

/// A `left has attr` or `left.attr` expression.
#[derive(Debug)]
pub struct HasExpr {
    pub left: JsonExpr,
    pub attr: String,
}

/// A binary operator application.
#[derive(Debug)]
pub struct BinaryExpr {
    pub left: JsonExpr,
    pub right: JsonExpr,
}

/// A unary negation or logical-not argument.
#[derive(Debug)]
pub struct NegExpr {
    pub arg: JsonExpr,
}

/// A `left is entity_type [in uid]` expression.
#[derive(Debug)]
pub struct IsExpr {
    pub left: JsonExpr,
    pub entity_type: String,
    pub in_entity: Option<EntityUid>,
}

/// A `left like pattern` expression.
#[derive(Debug)]
pub struct LikeExpr {
    pub left: JsonExpr,
    pub pattern: String,
}

/// An `if-then-else` expression.
#[derive(Debug)]
pub struct IfThenElseExpr {
    pub cond: JsonExpr,
    pub thn: JsonExpr,
    pub els: JsonExpr,
}

/// The Cedar JSON expression tree used in policy conditions.
#[derive(Debug)]
pub enum JsonExpr {
    Value(ValueExpr),
    Var(VarValue),
    Slot(SlotId),
    Bang(Box<NegExpr>),
    Neg(Box<NegExpr>),
    Eq(Box<BinaryExpr>),
    Neq(Box<BinaryExpr>),
    In(Box<BinaryExpr>),
    Lt(Box<BinaryExpr>),
    Lte(Box<BinaryExpr>),
    Gt(Box<BinaryExpr>),
    Gte(Box<BinaryExpr>),
    And(Box<BinaryExpr>),
    Or(Box<BinaryExpr>),
    Plus(Box<BinaryExpr>),
    Minus(Box<BinaryExpr>),
    Mul(Box<BinaryExpr>),
    Contains(Box<BinaryExpr>),
    ContainsAll(Box<BinaryExpr>),
    ContainsAny(Box<BinaryExpr>),
    HasTag(Box<BinaryExpr>),
    GetTag(Box<BinaryExpr>),
    Dot(Box<HasExpr>),
    Has(Box<HasExpr>),
    Is(Box<IsExpr>),
    Like(Box<LikeExpr>),
    IfThenElse(Box<IfThenElseExpr>),
    SetOf(Vec<JsonExpr>),
    Record(Vec<(String, JsonExpr)>),
    Decimal(Vec<JsonExpr>),
    Ip(Vec<JsonExpr>),
    IsInRange(Vec<JsonExpr>),
}

#[derive(Debug, PartialEq, Eq, Clone, Copy)]
pub enum ConditionKind {
    When,
    Unless,
}

/// A `when` or `unless` clause of a policy.
#[derive(Debug)]
pub struct Condition {
    pub kind: ConditionKind,
    pub body: JsonExpr,
}

#[derive(Debug, PartialEq, Eq, Clone, Copy)]
pub enum PolicyEffect {
    Permit,
    Forbid,
}

/// A static policy.
#[derive(Debug)]
pub struct Policy {
    pub effect: PolicyEffect,
    pub principal: PrincipalOp,
    pub action: ActionOp,
    pub resource: ResourceOp,
    pub conditions: Vec<Condition>,
    pub annotations: Vec<(String, Option<String>)>,
}

/// A policy template: shaped like a policy, but its principal and resource
/// may reference the slots `?principal` and `?resource`.
#[derive(Debug)]
pub struct Template {
    pub effect: PolicyEffect,
    pub principal: PrincipalOp,
    pub action: ActionOp,
    pub resource: ResourceOp,
    pub conditions: Vec<Condition>,
    pub annotations: Vec<(String, Option<String>)>,
}

/// A slot binding value: a bare or escaped entity reference.
#[derive(Debug, PartialEq, Eq)]
pub enum EntityValue {
    EntityUid(EntityUid),
    EntityEscape(EntityUidEscape),
}

/// The materialization of a template: binds its slots to concrete entities.
#[derive(Debug, PartialEq, Eq)]
pub struct TemplateLink {
    pub template_id: PolicyId,
    pub new_id: PolicyId,
    pub values: Vec<(SlotId, EntityValue)>,
}

impl TemplateLink {
    pub fn new(template_id: PolicyId, new_id: PolicyId, values: Vec<(SlotId, EntityValue)>) -> (r:
        Self)
        ensures
            r.template_id == template_id,
            r.new_id == new_id,
            r.values == values,
    {
        TemplateLink { template_id, new_id, values }
    }
}

/// A project's full policy set: static policies, templates, and links.
#[derive(Debug)]
pub struct PolicySet {
    pub static_policies: Vec<(PolicyId, Policy)>,
    pub templates: Vec<(PolicyId, Template)>,
    pub template_links: Vec<TemplateLink>,
}

/// The context record of an authorization request.
#[derive(Debug)]
pub struct Context(pub Vec<(String, EntityAttr)>);

#[derive(Debug, PartialEq, Eq, Clone, Copy)]
pub enum Decision {
    Allow,
    Deny,
}

/// An authorization answer: the decision, the policies that determined it,
/// and any evaluation errors.
#[derive(Debug, PartialEq, Eq)]
pub struct Response {
    pub decision: Decision,
    pub reason: Vec<String>,
    pub errors: Vec<String>,
}

impl Response {
    /// Assembles an answer from the decision flag, the deciding policy
    /// ids, and the evaluation errors.
    pub fn assemble(allow: bool, reason: Vec<String>, errors: Vec<String>) -> (r: Response)
        ensures
            r.decision == if allow {
                Decision::Allow
            } else {
                Decision::Deny
            },
            r.reason == reason,
            r.errors == errors,
    {
        Response {
            decision: if allow {
                Decision::Allow
            } else {
                Decision::Deny
            },
            reason,
            errors,
        }
    }
}

/// One authorization question: who does what to which resource, with an
/// optional context record.
#[derive(Debug)]
pub struct Request {
    pub principal: EntityUid,
    pub action: EntityUid,
    pub resource: EntityUid,
    pub context: Option<Context>,
}

} // verus!
