//! MCP server configuration and the bookkeeping around the connections:
//! which servers get a client, which are connected, where identity comes
//! from, and what every tool call carries.

pub mod notifications;
pub mod types;

use vstd::prelude::*;

use crate::auth::session::{headers_of, lookup, usable, AuthSession, Headers};
use crate::json::{has_member, is_json, json_has_member, json_nested_str_member, json_str_member, json_valid, nested_str_member, str_member};
use crate::mcp::types::{
    first_text, first_text_block, views, ArgView, ContentItem, ManagedFieldsPolicy, ServerId,
    ServerRegistry, ServerView, ToolCallRequest, ToolResult,
};
use crate::text::{append, encode_utf8_spec, owned, str_eq};

verus! {

/// Identity resolved from `entity_info` on the identity-provider server.
#[derive(Debug)]
pub struct IdentityInfo {
    pub account_id: String,
    pub display_name: String,
    pub entity_type: String,
}

/// Connection bookkeeping for all configured servers. The clients
/// themselves live outside the library, one per credentialed server.
#[derive(Debug)]
pub struct ManagerState {
    registry: ServerRegistry,
    managed_fields: ManagedFieldsPolicy,
    /// Credentialed servers, in registry order, with their headers.
    credentialed: Vec<(ServerId, Headers)>,
    /// Registered servers without a usable credential; never connected.
    unauthorized: Vec<ServerId>,
    /// Servers currently connected.
    connected: Vec<ServerId>,
}

/// The registered servers with a usable credential, in order.
pub open spec fn usable_servers(session: AuthSession, servers: Seq<ServerView>) -> Seq<ServerView>
    decreases servers.len(),
{
    if servers.len() == 0 {
        Seq::empty()
    } else {
        let rest = usable_servers(session, servers.drop_last());
        let s = servers.last();
        if usable(lookup(session.credentials@, s.key), s) {
            rest.push(s)
        } else {
            rest
        }
    }
}

/// The registered servers without a usable credential, in order.
pub open spec fn unusable_servers(session: AuthSession, servers: Seq<ServerView>) -> Seq<ServerView>
    decreases servers.len(),
{
    if servers.len() == 0 {
        Seq::empty()
    } else {
        let rest = unusable_servers(session, servers.drop_last());
        let s = servers.last();
        if !usable(lookup(session.credentials@, s.key), s) {
            rest.push(s)
        } else {
            rest
        }
    }
}

/// The message for a tool call routed to a server without a client.
pub open spec fn not_available_message(label: Seq<char>) -> Seq<char> {
    "server "@ + label + " is not available"@
}

/// The message when the identity provider is not connected.
pub open spec fn not_connected_message(label: Seq<char>) -> Seq<char> {
    "identity-provider server "@ + label + " is not connected"@
}

impl ManagerState {
    pub closed spec fn registry_view(&self) -> Seq<ServerView> {
        self.registry@
    }

    pub closed spec fn managed_view(&self) -> Map<Seq<char>, ArgView> {
        self.managed_fields@
    }

    /// Credentialed servers, in order.
    pub closed spec fn credentialed_view(&self) -> Seq<ServerView> {
        self.credentialed@.map_values(|e: (ServerId, Headers)| e.0@)
    }

    /// The headers of each credentialed server, in the same order.
    pub closed spec fn headers_view(&self) -> Seq<Seq<(Seq<char>, Seq<char>)>> {
        self.credentialed@.map_values(|e: (ServerId, Headers)| e.1@)
    }

    pub closed spec fn unauthorized_view(&self) -> Seq<ServerView> {
        self.unauthorized@.map_values(|s: ServerId| s@)
    }

    /// Keys of the connected servers.
    pub closed spec fn connected_keys(&self) -> Seq<Seq<char>> {
        self.connected@.map_values(|s: ServerId| s@.key)
    }

    /// Splits the registry into servers that get a client (a usable
    /// credential; their headers from the session) and servers that are
    /// unauthorized and never connected. Managed fields start from the
    /// session's account id.
    pub fn new(session: &AuthSession, registry: &ServerRegistry) -> (r: Self)
        ensures
            r.registry_view() == registry@,
            r.credentialed_view() == usable_servers(*session, registry@),
            r.unauthorized_view() == unusable_servers(*session, registry@),
            r.headers_view().len() == r.credentialed_view().len(),
            forall|i: int| 0 <= i < r.credentialed_view().len() ==> #[trigger] r.headers_view()[i] == headers_of(
                lookup(session.credentials@, r.credentialed_view()[i].key),
                r.credentialed_view()[i],
            ),
            r.managed_view() == Map::<Seq<char>, ArgView>::empty().insert("account_id"@, ArgView::Str(session.account_id@)),
            r.connected_keys().len() == 0,
    {
        let mut credentialed: Vec<(ServerId, Headers)> = Vec::new();
        let mut unauthorized: Vec<ServerId> = Vec::new();
        for server in it: registry.iter()
            invariant
                it.seq().len() == registry@.len(),
                forall|j: int| 0 <= j < registry@.len() ==> (#[trigger] it.seq()[j])@ == registry@[j],
                credentialed@.map_values(|e: (ServerId, Headers)| e.0@) == usable_servers(*session, registry@.take(it.index())),
                unauthorized@.map_values(|s: ServerId| s@) == unusable_servers(*session, registry@.take(it.index())),
                credentialed@.len() == credentialed@.map_values(|e: (ServerId, Headers)| e.0@).len(),
                forall|i: int| 0 <= i < credentialed@.len() ==> #[trigger] credentialed@[i].1@ == headers_of(
                    lookup(session.credentials@, credentialed@[i].0@.key),
                    credentialed@[i].0@,
                ),
        {
            let ghost idx = it.index();
            proof {
                assert(registry@.take(idx + 1).drop_last() =~= registry@.take(idx));
                assert(registry@.take(idx + 1).last() == server@);
            }
            if !session.has_usable_credential(server) {
                let ghost before = unauthorized@.map_values(|s: ServerId| s@);
                unauthorized.push(server.clone());
                assert(unauthorized@.map_values(|s: ServerId| s@) =~= before.push(server@));
            } else {
                let ghost before = credentialed@.map_values(|e: (ServerId, Headers)| e.0@);
                let h = session.headers_for(server);
                credentialed.push((server.clone(), h));
                assert(credentialed@.map_values(|e: (ServerId, Headers)| e.0@) =~= before.push(server@));
            }
        }
        assert(registry@.take(registry@.len() as int) =~= registry@);
        let managed_fields = ManagedFieldsPolicy::new(session.account_id.as_str());
        let r = ManagerState {
            registry: registry.clone(),
            managed_fields,
            credentialed,
            unauthorized,
            connected: Vec::new(),
        };
        assert(r.connected_keys() =~= Seq::<Seq<char>>::empty());
        assert forall|i: int| 0 <= i < r.credentialed_view().len() implies #[trigger] r.headers_view()[i] == headers_of(
            lookup(session.credentials@, r.credentialed_view()[i].key),
            r.credentialed_view()[i],
        ) by {
            assert(r.headers_view()[i] == r.credentialed@[i].1@);
        }
        r
    }
}


/// A server key occurs in a list of server views.
pub open spec fn has_key(servers: Seq<ServerView>, key: Seq<char>) -> bool {
    exists|i: int| 0 <= i < servers.len() && servers[i].key == key
}

/// The registered servers that are connected, in registry order.
pub open spec fn connected_in_order(servers: Seq<ServerView>, connected: Seq<Seq<char>>) -> Seq<ServerView> {
    servers.filter(|s: ServerView| connected.contains(s.key))
}

/// The first identity provider of a list of servers, if any.
pub open spec fn first_identity_provider(servers: Seq<ServerView>) -> Option<ServerView> {
    if exists|i: int| 0 <= i < servers.len() && servers[i].is_identity_provider && forall|j: int|
        0 <= j < i ==> !servers[j].is_identity_provider {
        let i = choose|i: int|
            0 <= i < servers.len() && servers[i].is_identity_provider && forall|j: int|
                0 <= j < i ==> !servers[j].is_identity_provider;
        Some(servers[i])
    } else {
        None
    }
}

/// Where identity is to be asked for, or why it cannot be.
pub open spec fn bootstrap_target(servers: Seq<ServerView>, connected: Seq<Seq<char>>) -> Result<ServerView, Seq<char>> {
    match first_identity_provider(servers) {
        None => Err("no identity-provider server configured"@),
        Some(p) => if connected.contains(p.key) {
            Ok(p)
        } else {
            Err(not_connected_message(p.label))
        },
    }
}

/// A member of the identity object of an `entity_info` document: the object
/// under `entityInfoOutput` when the document has that member, else the
/// document itself.
pub open spec fn info_member(doc: Seq<u8>, key: Seq<char>) -> Option<Seq<char>> {
    if json_has_member(doc, "entityInfoOutput"@) {
        json_nested_str_member(doc, "entityInfoOutput"@, key)
    } else {
        json_str_member(doc, key)
    }
}

/// The identity an `entity_info` result carries (account id, display name,
/// entity type), or why it carries none.
pub open spec fn entity_info_of(content: Seq<ContentItem>) -> Result<(Seq<char>, Seq<char>, Seq<char>), Seq<char>> {
    match first_text(content) {
        None => Err("entity_info returned no text content"@),
        Some(t) => {
            let doc = encode_utf8_spec(t);
            if !json_valid(doc) {
                Err("entity_info returned invalid JSON"@)
            } else {
                match info_member(doc, "accountId"@) {
                    None => Err("missing accountId in entity_info response"@),
                    Some(a) => Ok(
                        (
                            a,
                            match info_member(doc, "entityName"@) {
                                Some(n) => n,
                                None => "Unknown"@,
                            },
                            match info_member(doc, "entityType"@) {
                                Some(e) => e,
                                None => "unknown"@,
                            },
                        ),
                    ),
                }
            }
        },
    }
}

/// A member of the identity object, as `info_member` describes it.
fn read_info_member(doc: &[u8], key: &str) -> (r: Option<String>)
    ensures
        match info_member(doc@, key@) {
            Some(v) => r matches Some(x) && x@ == v,
            None => r is None,
        },
{
    if has_member(doc, "entityInfoOutput") {
        nested_str_member(doc, "entityInfoOutput", key)
    } else {
        str_member(doc, key)
    }
}

/// The identity from what was read of an `entity_info` document: whether
/// its text is JSON, and its `accountId`, `entityName` and `entityType`
/// members. The account id is required; the name and type default to
/// "Unknown" and "unknown".
pub fn identity_from_members(
    parsed: bool,
    account_id: Option<String>,
    entity_name: Option<String>,
    entity_type: Option<String>,
) -> (r: Result<IdentityInfo, String>)
    ensures
        !parsed ==> (r matches Err(m) && m@ == "entity_info returned invalid JSON"@),
        parsed ==> match account_id {
            None => r matches Err(m) && m@ == "missing accountId in entity_info response"@,
            Some(a) => r matches Ok(info) && info.account_id@ == a@ && info.display_name@ == (match entity_name {
                Some(n) => n@,
                None => "Unknown"@,
            }) && info.entity_type@ == (match entity_type {
                Some(t) => t@,
                None => "unknown"@,
            }),
        },
{
    if !parsed {
        return Err(owned("entity_info returned invalid JSON"));
    }
    let account_id = match account_id {
        Some(a) => a,
        None => {
            return Err(owned("missing accountId in entity_info response"));
        },
    };
    let display_name = match entity_name {
        Some(n) => n,
        None => owned("Unknown"),
    };
    let entity_type = match entity_type {
        Some(t) => t,
        None => owned("unknown"),
    };
    Ok(IdentityInfo { account_id, display_name, entity_type })
}

/// Reads the identity out of the result of an `entity_info` call.
pub fn parse_entity_info(result: &ToolResult) -> (r: Result<IdentityInfo, String>)
    ensures
        match entity_info_of(result.content@) {
            Ok((a, n, e)) => r matches Ok(info) && info.account_id@ == a && info.display_name@ == n
                && info.entity_type@ == e,
            Err(m) => r matches Err(x) && x@ == m,
        },
{
    let text = match first_text_block(&result.content) {
        Some(t) => t,
        None => {
            return Err(owned("entity_info returned no text content"));
        },
    };
    let doc = text.as_str().as_bytes();
    let parsed = is_json(doc);
    let account_id = read_info_member(doc, "accountId");
    let entity_name = read_info_member(doc, "entityName");
    let entity_type = read_info_member(doc, "entityType");
    identity_from_members(parsed, account_id, entity_name, entity_type)
}

impl ManagerState {
    /// The registry the state was built from.
    pub fn registry(&self) -> (r: &ServerRegistry)
        ensures
            r@ == self.registry_view(),
    {
        &self.registry
    }

    /// The registered servers without a usable credential, in order.
    pub fn unauthorized(&self) -> (r: &Vec<ServerId>)
        ensures
            r@.map_values(|s: ServerId| s@) == self.unauthorized_view(),
    {
        &self.unauthorized
    }

    /// The servers that get a client, in registry order, with their headers.
    pub fn credentialed(&self) -> (r: &Vec<(ServerId, Headers)>)
        ensures
            r@.map_values(|e: (ServerId, Headers)| e.0@) == self.credentialed_view(),
            r@.map_values(|e: (ServerId, Headers)| e.1@) == self.headers_view(),
    {
        &self.credentialed
    }

    /// The headers kept for a server, if it holds a credential.
    pub fn headers_for(&self, server: &ServerId) -> (r: Option<&Headers>)
        ensures
            has_key(self.credentialed_view(), server@.key) <==> r is Some,
            r matches Some(h) ==> exists|i: int|
                0 <= i < self.credentialed_view().len() && self.credentialed_view()[i].key == server@.key
                    && self.headers_view()[i] == h@,
    {
        let mut i: usize = 0;
        while i < self.credentialed.len()
            invariant
                i <= self.credentialed.len(),
                forall|j: int| 0 <= j < i ==> self.credentialed@[j].0@.key != server@.key,
            decreases self.credentialed.len() - i,
        {
            if str_eq(self.credentialed[i].0.key(), server.key()) {
                assert(self.credentialed_view()[i as int] == self.credentialed@[i as int].0@);
                assert(self.headers_view()[i as int] == self.credentialed@[i as int].1@);
                return Some(&self.credentialed[i].1);
            }
            i = i + 1;
        }
        assert forall|j: int| 0 <= j < self.credentialed_view().len() implies self.credentialed_view()[j].key
            != server@.key by {
            assert(self.credentialed_view()[j] == self.credentialed@[j].0@);
        }
        None
    }

    /// Whether a server is connected.
    pub fn is_connected(&self, server: &ServerId) -> (r: bool)
        ensures
            r == self.connected_keys().contains(server@.key),
    {
        let mut i: usize = 0;
        while i < self.connected.len()
            invariant
                i <= self.connected.len(),
                forall|j: int| 0 <= j < i ==> self.connected@[j]@.key != server@.key,
            decreases self.connected.len() - i,
        {
            if str_eq(self.connected[i].key(), server.key()) {
                assert(self.connected_keys()[i as int] == server@.key);
                return true;
            }
            i = i + 1;
        }
        assert forall|j: int| 0 <= j < self.connected_keys().len() implies self.connected_keys()[j]
            != server@.key by {
            assert(self.connected_keys()[j] == self.connected@[j]@.key);
        }
        false
    }

    /// Starts a round of connecting: nothing is connected any more.
    pub fn begin_connect(&mut self)
        ensures
            final(self).connected_keys().len() == 0,
            final(self).registry_view() == old(self).registry_view(),
            final(self).managed_view() == old(self).managed_view(),
            final(self).credentialed_view() == old(self).credentialed_view(),
            final(self).headers_view() == old(self).headers_view(),
            final(self).unauthorized_view() == old(self).unauthorized_view(),
    {
        self.connected = Vec::new();
        assert(self.connected_keys() =~= Seq::<Seq<char>>::empty());
    }

    /// Records that a server connected.
    pub fn mark_connected(&mut self, server: &ServerId)
        ensures
            final(self).connected_keys().contains(server@.key),
            forall|k: Seq<char>| #[trigger] final(self).connected_keys().contains(k) <==> (old(
                self,
            ).connected_keys().contains(k) || k == server@.key),
            final(self).registry_view() == old(self).registry_view(),
            final(self).managed_view() == old(self).managed_view(),
            final(self).credentialed_view() == old(self).credentialed_view(),
            final(self).headers_view() == old(self).headers_view(),
            final(self).unauthorized_view() == old(self).unauthorized_view(),
    {
        if !self.is_connected(server) {
            let ghost before = self.connected_keys();
            self.connected.push(server.clone());
            assert(self.connected_keys() =~= before.push(server@.key));
            assert(self.connected_keys()[before.len() as int] == server@.key);
            assert forall|k: Seq<char>| #[trigger] self.connected_keys().contains(k) <==> (before.contains(k)
                || k == server@.key) by {
                if self.connected_keys().contains(k) {
                    let i = choose|i: int| 0 <= i < self.connected_keys().len() && self.connected_keys()[i] == k;
                    if i < before.len() {
                        assert(before[i] == k);
                    }
                }
                if before.contains(k) {
                    let i = choose|i: int| 0 <= i < before.len() && before[i] == k;
                    assert(self.connected_keys()[i] == k);
                }
            }
        }
    }

    /// The outcome of a round of connecting: an error when no server connected.
    pub fn finish_connect(&self) -> (r: Result<(), String>)
        ensures
            r is Ok <==> self.connected_keys().len() > 0,
            r matches Err(m) ==> m@ == "no MCP servers connected"@,
    {
        if self.connected.len() == 0 {
            Err(owned("no MCP servers connected"))
        } else {
            Ok(())
        }
    }

    /// The connected servers, in registry order: the ones whose tools are
    /// listed.
    pub fn connected_servers(&self) -> (r: Vec<ServerId>)
        ensures
            views(r@) == connected_in_order(self.registry_view(), self.connected_keys()),
    {
        let mut out: Vec<ServerId> = Vec::new();
        let ghost all = self.registry_view();
        let ghost keys = self.connected_keys();
        for server in it: self.registry.iter()
            invariant
                it.seq().len() == all.len(),
                forall|j: int| 0 <= j < all.len() ==> (#[trigger] it.seq()[j])@ == all[j],
                all == self.registry_view(),
                keys == self.connected_keys(),
                views(out@) == connected_in_order(all.take(it.index()), keys),
        {
            let ghost idx = it.index();
            proof {
                assert(all.take(idx + 1).drop_last() =~= all.take(idx));
                assert(all.take(idx + 1).last() == server@);
                reveal_with_fuel(vstd::seq::Seq::filter, 1);
            }
            if self.is_connected(server) {
                let ghost before = out@;
                out.push(server.clone());
                assert(views(out@) =~= views(before).push(server@));
            }
        }
        assert(all.take(all.len() as int) =~= all);
        out
    }

    /// The identity provider to ask for identity: the first one registered,
    /// which must be connected.
    pub fn bootstrap_provider(&self) -> (r: Result<ServerId, String>)
        ensures
            match bootstrap_target(self.registry_view(), self.connected_keys()) {
                Ok(p) => r matches Ok(s) && s@ == p,
                Err(m) => r matches Err(x) && x@ == m,
            },
    {
        match self.registry.identity_provider() {
            None => Err(owned("no identity-provider server configured")),
            Some(p) => {
                proof {
                    let i = choose|i: int| {
                        &&& 0 <= i < self.registry@.len()
                        &&& self.registry@[i] == p@
                        &&& p@.is_identity_provider
                        &&& forall|j: int| 0 <= j < i ==> !self.registry@[j].is_identity_provider
                    };
                    let k = choose|k: int|
                        0 <= k < self.registry@.len() && self.registry@[k].is_identity_provider
                            && forall|j: int| 0 <= j < k ==> !self.registry@[j].is_identity_provider;
                    assert(k == i) by {
                        if k < i {
                        } else if k > i {
                        }
                    }
                }
                if self.is_connected(p) {
                    Ok(p.clone())
                } else {
                    let mut m = owned("identity-provider server ");
                    append(&mut m, p.label());
                    append(&mut m, " is not connected");
                    Err(m)
                }
            },
        }
    }

    /// Takes the account id of a resolved identity as the managed field.
    pub fn apply_identity(&mut self, info: &IdentityInfo)
        ensures
            final(self).managed_view() == Map::<Seq<char>, ArgView>::empty().insert(
                "account_id"@,
                ArgView::Str(info.account_id@),
            ),
            final(self).registry_view() == old(self).registry_view(),
            final(self).credentialed_view() == old(self).credentialed_view(),
            final(self).headers_view() == old(self).headers_view(),
            final(self).unauthorized_view() == old(self).unauthorized_view(),
            final(self).connected_keys() == old(self).connected_keys(),
    {
        self.managed_fields = ManagedFieldsPolicy::new(info.account_id.as_str());
    }

    /// Readies a tool call for dispatch: the managed fields are written over
    /// the arguments, and the call must go to a server that has a client.
    pub fn prepare_call(&self, request: ToolCallRequest) -> (r: Result<ToolCallRequest, String>)
        ensures
            has_key(self.credentialed_view(), request.server@.key) ==> (r matches Ok(out) && out.server@
                == request.server@ && out.tool_name@ == request.tool_name@ && out.arguments@
                == request.arguments@.union_prefer_right(self.managed_view())),
            !has_key(self.credentialed_view(), request.server@.key) ==> (r matches Err(m) && m@
                == not_available_message(request.server@.label)),
    {
        let mut request = request;
        self.managed_fields.inject(&mut request.arguments);
        if self.headers_for(&request.server).is_none() {
            let mut m = owned("server ");
            append(&mut m, request.server.label());
            append(&mut m, " is not available");
            return Err(m);
        }
        Ok(request)
    }
}


/// Fail-closed connection: every server that gets a client holds a usable
/// credential and is sent non-empty headers; every other registered server
/// is set aside as unauthorized; together they are the whole registry.
pub proof fn lemma_fail_closed(session: AuthSession, servers: Seq<ServerView>)
    ensures
        forall|i: int|
            0 <= i < usable_servers(session, servers).len() ==> usable(
                lookup(session.credentials@, #[trigger] usable_servers(session, servers)[i].key),
                usable_servers(session, servers)[i],
            ) && headers_of(
                lookup(session.credentials@, usable_servers(session, servers)[i].key),
                usable_servers(session, servers)[i],
            ).len() > 0,
        forall|i: int|
            0 <= i < unusable_servers(session, servers).len() ==> !usable(
                lookup(session.credentials@, #[trigger] unusable_servers(session, servers)[i].key),
                unusable_servers(session, servers)[i],
            ),
        usable_servers(session, servers).len() + unusable_servers(session, servers).len() == servers.len(),
    decreases servers.len(),
{
    if servers.len() > 0 {
        lemma_fail_closed(session, servers.drop_last());
        let s = servers.last();
        crate::auth::session::lemma_headers_fail_closed(lookup(session.credentials@, s.key), s);
        let u0 = usable_servers(session, servers.drop_last());
        let n0 = unusable_servers(session, servers.drop_last());
        assert forall|i: int| 0 <= i < usable_servers(session, servers).len() implies usable(
            lookup(session.credentials@, #[trigger] usable_servers(session, servers)[i].key),
            usable_servers(session, servers)[i],
        ) && headers_of(
            lookup(session.credentials@, usable_servers(session, servers)[i].key),
            usable_servers(session, servers)[i],
        ).len() > 0 by {
            let v = usable_servers(session, servers)[i];
            if i < u0.len() {
                assert(v == u0[i]);
            }
            crate::auth::session::lemma_headers_fail_closed(lookup(session.credentials@, v.key), v);
        }
        assert forall|i: int| 0 <= i < unusable_servers(session, servers).len() implies !usable(
            lookup(session.credentials@, #[trigger] unusable_servers(session, servers)[i].key),
            unusable_servers(session, servers)[i],
        ) by {
            if i < n0.len() {
                assert(unusable_servers(session, servers)[i] == n0[i]);
            }
        }
    }
}

} // verus!
