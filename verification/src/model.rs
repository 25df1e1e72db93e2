//! Shared service types: paging, queries, identity-source configuration,
//! server configuration, the management actions, and the project record.
use vstd::prelude::*;
use vstd::string::StringExecFns;

use crate::ast::{Entity, EntityAttr, EntityUid, EntityValue, PolicyId, SlotId, TemplateLink};
use crate::util::{uuid_seq, uuid_to_string};

verus! {

/// One page of a listing plus the cursor for the next page.
#[derive(Debug)]
pub struct PageList<T> {
    pub items: Vec<T>,
    pub last_key: Option<String>,
}

impl<T> PageList<T> {
    pub fn new(items: Vec<T>, last_key: Option<String>) -> (r: Self)
        ensures
            r.items == items,
            r.last_key == last_key,
    {
        PageList { items, last_key }
    }
}

/// One page of a keyed listing plus the cursor for the next page.
#[derive(Debug)]
pub struct PageHash<K, V> {
    pub items: Vec<(K, V)>,
    pub last_key: Option<String>,
}

impl<K, V> PageHash<K, V> {
    pub fn new(items: Vec<(K, V)>, last_key: Option<String>) -> (r: Self)
        ensures
            r.items == items,
            r.last_key == last_key,
    {
        PageHash { items, last_key }
    }
}

#[derive(Debug, PartialEq, Eq, Clone, Copy)]
pub enum SortOrder {
    Asc,
    Desc,
}

#[derive(Debug, PartialEq, Eq)]
pub struct Sort {
    pub field: String,
    pub order: SortOrder,
}

/// A recursive find-query selector.
#[derive(Debug)]
pub enum Selector {
    And(Vec<Selector>),
    Or(Vec<Selector>),
    Eq(Box<Selector>),
    Neq(Box<Selector>),
    Gt(Box<Selector>),
    Gte(Box<Selector>),
    Lt(Box<Selector>),
    Lte(Box<Selector>),
    Exists(bool),
    In(Vec<Selector>),
    Nin(Vec<Selector>),
    Record(Vec<(String, Selector)>),
    String(String),
    Number(i64),
    Boolean(bool),
}

/// A listing query: optional selector, sort, projection, cursor, limits,
/// and an index hint.
#[derive(Debug)]
pub struct Query {
    pub selector: Option<Selector>,
    pub sort: Vec<Sort>,
    pub fields: Vec<String>,
    pub start_key: Option<String>,
    pub limit: u32,
    pub skip: u32,
    pub index: Option<String>,
}

impl Query {
    pub fn new() -> (r: Self)
        ensures
            r.selector is None,
            r.sort@ == Seq::<Sort>::empty(),
            r.fields@ == Seq::<String>::empty(),
            r.start_key is None,
            r.limit == 0u32,
            r.skip == 0u32,
            r.index is None,
    {
        Query {
            selector: None,
            sort: Vec::new(),
            fields: Vec::new(),
            start_key: None,
            limit: 0,
            skip: 0,
            index: None,
        }
    }
}

// ------------------------------------------------------- identity sources
#[derive(Debug)]
pub struct CognitoGroupConfiguration {
    pub group_entity_type: String,
}

#[derive(Debug)]
pub struct CognitoUserPoolConfiguration {
    pub user_pool_arn: String,
    pub client_ids: Vec<String>,
    pub group_configuration: CognitoGroupConfiguration,
}

/// The region segment of a user-pool ARN: the text between its third
/// and fourth colons (to the end when there is no fourth).
pub open spec fn arn_region(s: Seq<char>) -> Seq<char> {
    let ps = crate::util::sep_positions(s, ':');
    s.subrange(
        ps[2] + 1,
        if ps.len() > 3 {
            ps[3]
        } else {
            s.len() as int
        },
    )
}

impl CognitoUserPoolConfiguration {
    /// The JWKS URL of the pool, assembled from the ARN's region and the
    /// pool id after the last slash.
    pub fn url_keys(&self) -> (r: String)
        requires
            crate::util::sep_positions(self.user_pool_arn@, ':').len() >= 3,
        ensures
            r@ == "https://cognito-idp."@ + arn_region(self.user_pool_arn@)
                + ".amazonaws.com/"@ + crate::util::after_last_sep(self.user_pool_arn@, '/')
                + "/.well-known/jwks.json"@,
    {
        let arn = self.user_pool_arn.as_str();
        let n = arn.unicode_len();
        let ps = crate::util::find_sep_positions(arn, ':');
        proof {
            crate::util::lemma_sep_positions(self.user_pool_arn@, ':');
            assert(ps@[2] < n);
        }
        let from = ps[2] + 1;
        let to = if ps.len() > 3 {
            ps[3]
        } else {
            n
        };
        let region = arn.substring_char(from, to);
        let pool = crate::util::suffix_after_last(arn, '/');
        let mut out = String::from_str("https://cognito-idp.");
        out.append(region);
        out.append(".amazonaws.com/");
        out.append(pool.as_str());
        out.append("/.well-known/jwks.json");
        out
    }

    /// The pool id: the ARN text after its last slash.
    pub fn prefix(&self) -> (r: String)
        ensures
            r@ == crate::util::after_last_sep(self.user_pool_arn@, '/'),
    {
        crate::util::suffix_after_last(self.user_pool_arn.as_str(), '/')
    }
}

#[derive(Debug)]
pub struct OpenIdConnectAccessTokenConfiguration {
    pub audiences: Vec<String>,
    pub principal_id_claim: Option<String>,
}

#[derive(Debug)]
pub struct OpenIdConnectIdentityTokenConfiguration {
    pub client_ids: Vec<String>,
    pub principal_id_claim: Option<String>,
}

#[derive(Debug)]
pub enum OpenIdConnectTokenSelection {
    AccessTokenOnly(OpenIdConnectAccessTokenConfiguration),
    IdentityTokenOnly(OpenIdConnectIdentityTokenConfiguration),
}

#[derive(Debug)]
pub struct OpenIdConnectGroupConfiguration {
    pub group_claim: String,
    pub group_entity_type: String,
}

#[derive(Debug)]
pub struct OpenIdConnectConfiguration {
    pub issuer: String,
    pub token_selection: OpenIdConnectTokenSelection,
    pub entity_id_prefix: Option<String>,
    pub group_configuration: Option<OpenIdConnectGroupConfiguration>,
}

/// The two identity-source kinds: a Cognito user pool or generic OIDC.
#[derive(Debug)]
pub enum Configuration {
    CognitoUserPoolConfiguration(CognitoUserPoolConfiguration),
    OpenIdConnectConfiguration(OpenIdConnectConfiguration),
}

/// How principals are derived from bearer tokens for one project.
#[derive(Debug)]
pub struct IdentitySource {
    pub principal_entity_type: String,
    pub configuration: Configuration,
}

// ----------------------------------------------------------- configuration
#[derive(Debug)]
pub struct DynamoDBConfig {
    pub endpoint_url: Option<String>,
    pub region: Option<String>,
    pub table_name: String,
}

#[derive(Debug)]
pub struct CouchDbConfig {
    pub uri: String,
    pub username: String,
    pub password: String,
    pub db_name: String,
}

#[derive(Debug)]
pub enum DbConfig {
    DynamoDbConfig(DynamoDBConfig),
    CouchDbConfig(CouchDbConfig),
}

#[derive(Debug)]
pub struct ValKeyCacheConfig {
    pub urls: Vec<String>,
    pub cluster: bool,
    pub root_key: Option<String>,
    pub client_cert: Option<String>,
    pub client_key: Option<String>,
}

#[derive(Debug)]
pub struct DashMapCacheConfig {}

#[derive(Debug)]
pub enum CacheConfig {
    ValKeyConfig(ValKeyCacheConfig),
    DashMapConfig(DashMapCacheConfig),
}

#[derive(Debug)]
pub struct ValKeyPubSubConfig {
    pub urls: Vec<String>,
    pub channel_name: String,
    pub cluster: bool,
    pub root_key: Option<String>,
    pub client_cert: Option<String>,
    pub client_key: Option<String>,
}

#[derive(Debug)]
pub struct DummyPubSubConfig {}

#[derive(Debug)]
pub enum PubSubConfig {
    ValKeyConfig(ValKeyPubSubConfig),
    DummyConfig(DummyPubSubConfig),
}

#[derive(Debug)]
pub struct ServerConfig {
    pub host: String,
    pub port: u16,
    pub api_key: String,
    pub public_key: Option<String>,
    pub private_key: Option<String>,
    pub chains_key: Option<String>,
}

#[derive(Debug)]
pub struct CedrusConfig {
    pub server: ServerConfig,
    pub db: DbConfig,
    pub cache: CacheConfig,
    pub pubsub: PubSubConfig,
    pub identity_source: IdentitySource,
}

/// The single-node event transport: publishing is a no-op and nothing is
/// ever received.
#[derive(Debug)]
pub struct DummyPubSub;

impl DummyPubSub {
    pub fn new() -> (r: Self) {
        DummyPubSub
    }

    /// Publishing on the single-node transport does nothing and always
    /// succeeds.
    pub fn publish(&self, msg: &crate::engine::Event) -> (r: Result<(), PubSubError>)
        ensures
            r is Ok,
    {
        let _ = msg;
        Ok(())
    }
}

#[derive(Debug, PartialEq, Eq, Clone, Copy)]
pub enum PubSubError {
    Connection,
    NotFound,
}

// ------------------------------------------------------------ the actions
/// The management-API actions, each an action entity of the
/// administrative meta-project.
#[derive(Debug, PartialEq, Eq, Clone, Copy)]
pub enum CedrusActions {
    GetProjects,
    PostProject,
    GetProject,
    PutProject,
    DeleteProject,
    GetProjectIdentitySource,
    PutProjectIdentitySource,
    DeleteProjectIdentitySource,
    GetProjectSchema,
    PutProjectSchema,
    DeleteProjectSchema,
    PostProjectEntities,
    GetProjectEntities,
    DeleteProjectEntities,
    PostProjectPolicies,
    GetProjectPolicies,
    DeleteProjectPolicies,
    PostProjectTemplates,
    GetProjectTemplates,
    DeleteProjectTemplates,
    PostProjectTemplateLinks,
    GetProjectTemplateLinks,
    DeleteProjectTemplateLinks,
    PostProjectIsAuthorized,
}

/// The action-entity id for each management action. The identity-source
/// routes are gated by the schema actions, as the service has always
/// done.
pub open spec fn action_id(a: CedrusActions) -> Seq<char> {
    match a {
        CedrusActions::GetProjects => "getProjects"@,
        CedrusActions::PostProject => "postProject"@,
        CedrusActions::GetProject => "getProject"@,
        CedrusActions::PutProject => "putProject"@,
        CedrusActions::DeleteProject => "deleteProject"@,
        CedrusActions::GetProjectIdentitySource => "getProjectSchema"@,
        CedrusActions::PutProjectIdentitySource => "putProjectSchema"@,
        CedrusActions::DeleteProjectIdentitySource => "deleteProjectSchema"@,
        CedrusActions::GetProjectSchema => "getProjectSchema"@,
        CedrusActions::PutProjectSchema => "putProjectSchema"@,
        CedrusActions::DeleteProjectSchema => "deleteProjectSchema"@,
        CedrusActions::PostProjectEntities => "postProjectEntities"@,
        CedrusActions::GetProjectEntities => "getProjectEntities"@,
        CedrusActions::DeleteProjectEntities => "deleteProjectEntities"@,
        CedrusActions::PostProjectPolicies => "postProjectPolicies"@,
        CedrusActions::GetProjectPolicies => "getProjectPolicies"@,
        CedrusActions::DeleteProjectPolicies => "deleteProjectPolicies"@,
        CedrusActions::PostProjectTemplates => "postProjectTemplates"@,
        CedrusActions::GetProjectTemplates => "getProjectTemplates"@,
        CedrusActions::DeleteProjectTemplates => "deleteProjectTemplates"@,
        CedrusActions::PostProjectTemplateLinks => "postProjectTemplateLinks"@,
        CedrusActions::GetProjectTemplateLinks => "getProjectTemplateLinks"@,
        CedrusActions::DeleteProjectTemplateLinks => "deleteProjectTemplateLinks"@,
        CedrusActions::PostProjectIsAuthorized => "postProjectIsAuthorized"@,
    }
}

impl CedrusActions {
    /// The action entity `Cedrus::Action::<id>` that this management
    /// action is authorized against.
    pub fn value(&self) -> (r: EntityUid)
        ensures
            r.ty@ == "Cedrus::Action"@,
            r.id@ == action_id(*self),
    {
        proof {
            reveal_strlit("Cedrus::Action");
            assert("Cedrus::Action"@.len() == 14);
            reveal_strlit("deleteProject");
            assert("deleteProject"@.len() == 13);
            reveal_strlit("deleteProjectEntities");
            assert("deleteProjectEntities"@.len() == 21);
            reveal_strlit("deleteProjectPolicies");
            assert("deleteProjectPolicies"@.len() == 21);
            reveal_strlit("deleteProjectSchema");
            assert("deleteProjectSchema"@.len() == 19);
            reveal_strlit("deleteProjectTemplateLinks");
            assert("deleteProjectTemplateLinks"@.len() == 26);
            reveal_strlit("deleteProjectTemplates");
            assert("deleteProjectTemplates"@.len() == 22);
            reveal_strlit("getProject");
            assert("getProject"@.len() == 10);
            reveal_strlit("getProjectEntities");
            assert("getProjectEntities"@.len() == 18);
            reveal_strlit("getProjectPolicies");
            assert("getProjectPolicies"@.len() == 18);
            reveal_strlit("getProjectSchema");
            assert("getProjectSchema"@.len() == 16);
            reveal_strlit("getProjectTemplateLinks");
            assert("getProjectTemplateLinks"@.len() == 23);
            reveal_strlit("getProjectTemplates");
            assert("getProjectTemplates"@.len() == 19);
            reveal_strlit("getProjects");
            assert("getProjects"@.len() == 11);
            reveal_strlit("postProject");
            assert("postProject"@.len() == 11);
            reveal_strlit("postProjectEntities");
            assert("postProjectEntities"@.len() == 19);
            reveal_strlit("postProjectIsAuthorized");
            assert("postProjectIsAuthorized"@.len() == 23);
            reveal_strlit("postProjectPolicies");
            assert("postProjectPolicies"@.len() == 19);
            reveal_strlit("postProjectTemplateLinks");
            assert("postProjectTemplateLinks"@.len() == 24);
            reveal_strlit("postProjectTemplates");
            assert("postProjectTemplates"@.len() == 20);
            reveal_strlit("putProject");
            assert("putProject"@.len() == 10);
            reveal_strlit("putProjectSchema");
            assert("putProjectSchema"@.len() == 16);
        }
        let ty = String::from_str("Cedrus::Action");
        let id = match self {
            CedrusActions::GetProjects => String::from_str("getProjects"),
            CedrusActions::PostProject => String::from_str("postProject"),
            CedrusActions::GetProject => String::from_str("getProject"),
            CedrusActions::PutProject => String::from_str("putProject"),
            CedrusActions::DeleteProject => String::from_str("deleteProject"),
            CedrusActions::GetProjectIdentitySource => String::from_str("getProjectSchema"),
            CedrusActions::PutProjectIdentitySource => String::from_str("putProjectSchema"),
            CedrusActions::DeleteProjectIdentitySource => String::from_str("deleteProjectSchema"),
            CedrusActions::GetProjectSchema => String::from_str("getProjectSchema"),
            CedrusActions::PutProjectSchema => String::from_str("putProjectSchema"),
            CedrusActions::DeleteProjectSchema => String::from_str("deleteProjectSchema"),
            CedrusActions::PostProjectEntities => String::from_str("postProjectEntities"),
            CedrusActions::GetProjectEntities => String::from_str("getProjectEntities"),
            CedrusActions::DeleteProjectEntities => String::from_str("deleteProjectEntities"),
            CedrusActions::PostProjectPolicies => String::from_str("postProjectPolicies"),
            CedrusActions::GetProjectPolicies => String::from_str("getProjectPolicies"),
            CedrusActions::DeleteProjectPolicies => String::from_str("deleteProjectPolicies"),
            CedrusActions::PostProjectTemplates => String::from_str("postProjectTemplates"),
            CedrusActions::GetProjectTemplates => String::from_str("getProjectTemplates"),
            CedrusActions::DeleteProjectTemplates => String::from_str("deleteProjectTemplates"),
            CedrusActions::PostProjectTemplateLinks => String::from_str(
                "postProjectTemplateLinks",
            ),
            CedrusActions::GetProjectTemplateLinks => String::from_str("getProjectTemplateLinks"),
            CedrusActions::DeleteProjectTemplateLinks => String::from_str(
                "deleteProjectTemplateLinks",
            ),
            CedrusActions::PostProjectIsAuthorized => String::from_str("postProjectIsAuthorized"),
        };
        EntityUid::new(ty, id)
    }
}

// --------------------------------------------------------------- projects
/// A tenant: its identity, owner, API key, role grants, and timestamps
/// (milliseconds since the epoch). The `updated_at` stamp doubles as the
/// optimistic-concurrency tag.
#[derive(Debug)]
pub struct Project {
    pub id: u128,
    pub name: String,
    pub api_key: String,
    pub owner: EntityUid,
    pub roles: Vec<(String, Vec<String>)>,
    pub created_at: i64,
    pub updated_at: i64,
}

impl Project {
    pub fn new(id: u128, name: String, owner: EntityUid, now_ms: i64) -> (r: Self)
        ensures
            r.id == id,
            r.name == name,
            r.owner == owner,
            r.api_key@ == Seq::<char>::empty(),
            r.roles@ == Seq::<(String, Vec<String>)>::empty(),
            r.created_at == now_ms,
            r.updated_at == now_ms,
    {
        Project {
            id,
            name,
            api_key: String::new(),
            owner,
            roles: Vec::new(),
            created_at: now_ms,
            updated_at: now_ms,
        }
    }

    /// The entity uid `Cedrus::Project::<uuid>` that stands for a project
    /// in the administrative meta-project.
    pub fn entity_uid(id: u128) -> (r: EntityUid)
        ensures
            r.ty@ == "Cedrus::Project"@,
            r.id@ == uuid_seq(id),
    {
        proof {
            reveal_strlit("Cedrus::Project");
            assert("Cedrus::Project"@.len() == 15);
        }
        EntityUid::new(String::from_str("Cedrus::Project"), uuid_to_string(id))
    }

    /// The project-as-entity written into the meta-project: its owner as
    /// an attribute and its name as a tag.
    pub fn entity(&self) -> (r: Entity)
        ensures
            r.uid.ty@ == "Cedrus::Project"@,
            r.uid.id@ == uuid_seq(self.id),
            r.attrs@.len() == 1,
            r.attrs@[0].0@ == "owner"@,
            r.attrs@[0].1 matches EntityAttr::EntityUid(u) && u == self.owner,
            r.parents@ == Seq::<EntityUid>::empty(),
            r.tags@.len() == 1,
            r.tags@[0].0@ == "name"@,
            r.tags@[0].1 matches EntityAttr::String(n) && n@ == self.name@,
    {
        let uid = Project::entity_uid(self.id);
        let mut attrs: Vec<(String, EntityAttr)> = Vec::new();
        attrs.push((String::from_str("owner"), EntityAttr::EntityUid(self.owner.clone())));
        let mut tags: Vec<(String, EntityAttr)> = Vec::new();
        tags.push((String::from_str("name"), EntityAttr::String(self.name.clone())));
        Entity::new_with_tags(uid, attrs, Vec::new(), tags)
    }

    /// The admin-role template link written into the meta-project: it
    /// binds the owner to the project entity under the id
    /// `<uuid>_ProjectAdminRole`.
    pub fn template_links(&self) -> (r: Vec<TemplateLink>)
        ensures
            r@.len() == 1,
            r@[0].template_id.0@ == "ProjectAdminRole"@,
            r@[0].new_id.0@ == uuid_seq(self.id) + "_ProjectAdminRole"@,
            r@[0].values@.len() == 2,
            r@[0].values@[0].0 == SlotId::Principal,
            r@[0].values@[0].1 matches EntityValue::EntityUid(u) && u == self.owner,
            r@[0].values@[1].0 == SlotId::Resource,
            r@[0].values@[1].1 matches EntityValue::EntityUid(u) && u.ty@ == "Cedrus::Project"@
                && u.id@ == uuid_seq(self.id),
    {
        let template_id = PolicyId(String::from_str("ProjectAdminRole"));
        let mut new_id_str = uuid_to_string(self.id);
        new_id_str.append("_ProjectAdminRole");
        let new_id = PolicyId(new_id_str);
        let mut values: Vec<(SlotId, EntityValue)> = Vec::new();
        values.push((SlotId::Principal, EntityValue::EntityUid(self.owner.clone())));
        values.push((SlotId::Resource, EntityValue::EntityUid(Project::entity_uid(self.id))));
        let link = TemplateLink::new(template_id, new_id, values);
        let mut out: Vec<TemplateLink> = Vec::new();
        out.push(link);
        out
    }
}

} // verus!
