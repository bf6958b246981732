//! Server registry: the catalog of known MCP servers, `KEY=URL` registration
//! specs, and the handles that identify a server by its key.

use vstd::prelude::*;
use vstd::std_specs::cmp::PartialEqSpecImpl;
use vstd::std_specs::iter::IteratorSpec;

use crate::text::{
    append, ascii_upper, chars_of, is_first_index, lacks, owned, push_char, str_eq,
    string_from_range, to_ascii_upper,
};

verus! {

/// Static configuration for one MCP server.
#[derive(Debug)]
pub struct ServerConfig {
    /// Stable key used for identity and equality (e.g. "user", "agent").
    pub key: String,
    /// Human-readable label (e.g. "User", "Agent").
    pub label: String,
    /// Short prefix badge for the tool list (e.g. "U", "A").
    pub prefix: String,
    /// MCP endpoint URL, which is also the OAuth audience of the server.
    pub url: String,
    /// Whether the identity bootstrap runs against this server.
    pub is_identity_provider: bool,
    /// OAuth scope requested for this audience.
    pub scope: String,
}

/// The mathematical content of a server configuration.
pub struct ServerView {
    pub key: Seq<char>,
    pub label: Seq<char>,
    pub prefix: Seq<char>,
    pub url: Seq<char>,
    pub is_identity_provider: bool,
    pub scope: Seq<char>,
}

impl View for ServerConfig {
    type V = ServerView;

    open spec fn view(&self) -> ServerView {
        ServerView {
            key: self.key@,
            label: self.label@,
            prefix: self.prefix@,
            url: self.url@,
            is_identity_provider: self.is_identity_provider,
            scope: self.scope@,
        }
    }
}

/// Handle to a configured server. Two handles are equal when their keys are.
#[derive(Debug)]
pub struct ServerId {
    config: ServerConfig,
}

impl View for ServerId {
    type V = ServerView;

    closed spec fn view(&self) -> ServerView {
        self.config@
    }
}

impl Clone for ServerId {
    fn clone(&self) -> (r: Self)
        ensures
            r@ == self@,
    {
        ServerId {
            config: ServerConfig {
                key: self.config.key.clone(),
                label: self.config.label.clone(),
                prefix: self.config.prefix.clone(),
                url: self.config.url.clone(),
                is_identity_provider: self.config.is_identity_provider,
                scope: self.config.scope.clone(),
            },
        }
    }
}

impl PartialEq for ServerId {
    fn eq(&self, other: &Self) -> (r: bool) {
        str_eq(self.config.key.as_str(), other.config.key.as_str())
    }
}

impl PartialEqSpecImpl for ServerId {
    open spec fn obeys_eq_spec() -> bool {
        true
    }

    open spec fn eq_spec(&self, other: &ServerId) -> bool {
        self@.key == other@.key
    }
}

impl Eq for ServerId {}

impl core::hash::Hash for ServerId {
    /// Hashes the key alone (`str::hash`), matching equality by key.
    #[verifier::external_body]
    fn hash<H: core::hash::Hasher>(&self, state: &mut H) {
        self.config.key.hash(state);
    }
}

impl ServerId {
    pub fn new(config: ServerConfig) -> (r: Self)
        ensures
            r@ == config@,
    {
        ServerId { config }
    }

    pub fn key(&self) -> (r: &str)
        ensures
            r@ == self@.key,
    {
        self.config.key.as_str()
    }

    pub fn label(&self) -> (r: &str)
        ensures
            r@ == self@.label,
    {
        self.config.label.as_str()
    }

    pub fn prefix(&self) -> (r: &str)
        ensures
            r@ == self@.prefix,
    {
        self.config.prefix.as_str()
    }

    pub fn url(&self) -> (r: &str)
        ensures
            r@ == self@.url,
    {
        self.config.url.as_str()
    }

    pub fn is_identity_provider(&self) -> (r: bool)
        ensures
            r == self@.is_identity_provider,
    {
        self.config.is_identity_provider
    }

    /// OAuth scope to request for this server's audience.
    pub fn scope(&self) -> (r: &str)
        ensures
            r@ == self@.scope,
    {
        self.config.scope.as_str()
    }

    /// Builds a handle from a key and URL, taking the label, prefix, identity
    /// role and scope from the catalog, or deriving them for unknown keys.
    pub fn from_key_url(key: &str, url: &str) -> (r: Self)
        ensures
            r@ == server_for(key@, url@),
    {
        let (label, prefix, is_identity_provider) = known_server_meta(key);
        let scope = owned(known_scope(key));
        ServerId::new(
            ServerConfig {
                key: owned(key),
                label,
                prefix,
                url: owned(url),
                is_identity_provider,
                scope,
            },
        )
    }
}

// ---------------------------------------------------------------------------
// Catalog of known servers
// ---------------------------------------------------------------------------

/// One catalog row: key, label, prefix, default URL, identity role, scope.
pub open spec fn catalog_row(
    key: &str,
    label: &str,
    prefix: &str,
    url: &str,
    idp: bool,
    scope: &str,
) -> ServerView {
    ServerView {
        key: key@,
        label: label@,
        prefix: prefix@,
        url: url@,
        is_identity_provider: idp,
        scope: scope@,
    }
}

/// The known-server catalog entry for `key`, with its default URL.
pub open spec fn catalog_entry(key: Seq<char>) -> Option<ServerView> {
    if key == "user"@ {
        Some(catalog_row("user", "User", "U", "https://gt.aussierobots.com.au/mcp", true, "mcp:read mcp:write"))
    } else if key == "agent"@ {
        Some(catalog_row("agent", "Agent", "A", "https://agent.aussierobots.com.au/mcp", false, "mcp:read mcp:write"))
    } else if key == "pf"@ {
        Some(catalog_row("pf", "Particle Filter", "P", "https://pf.aussierobots.com.au/mcp", false, "mcp:read mcp:write"))
    } else if key == "sv-track"@ {
        Some(catalog_row("sv-track", "SV Track", "T", "https://st.aussierobots.com.au/mcp", false, "mcp:read"))
    } else if key == "space-data"@ {
        Some(catalog_row("space-data", "Space Data", "D", "https://sd.aussierobots.com.au/mcp", false, "mcp:read"))
    } else {
        None
    }
}

/// Each catalog key has its own entry and its own default URL: the entry
/// found for a key carries that key, and two different keys never share a
/// default URL.
pub proof fn lemma_catalog_urls_distinct(k1: Seq<char>, k2: Seq<char>)
    requires
        catalog_entry(k1) is Some,
        catalog_entry(k2) is Some,
        k1 != k2,
    ensures
        catalog_entry(k1)->0.key == k1,
        catalog_entry(k1)->0.url != catalog_entry(k2)->0.url,
{
    reveal_strlit("user");
    reveal_strlit("agent");
    reveal_strlit("pf");
    reveal_strlit("sv-track");
    reveal_strlit("space-data");
    reveal_strlit("https://gt.aussierobots.com.au/mcp");
    reveal_strlit("https://agent.aussierobots.com.au/mcp");
    reveal_strlit("https://pf.aussierobots.com.au/mcp");
    reveal_strlit("https://st.aussierobots.com.au/mcp");
    reveal_strlit("https://sd.aussierobots.com.au/mcp");
    let u1 = catalog_entry(k1)->0.url;
    let u2 = catalog_entry(k2)->0.url;
    assert(u1[8] != u2[8] || u1[9] != u2[9]);
}

/// The default URLs of the known servers, as the fleet documents them:
/// `user` at gt, `agent` at agent, `pf` at pf, `sv-track` at st and
/// `space-data` at sd (all under aussierobots.com.au, path `/mcp`); no other
/// key has one.
pub proof fn lemma_catalog_default_urls(key: Seq<char>)
    ensures
        catalog_entry(key) is Some <==> (key == "user"@ || key == "agent"@ || key == "pf"@ || key
            == "sv-track"@ || key == "space-data"@),
        key == "user"@ ==> catalog_entry(key)->0.url == "https://gt.aussierobots.com.au/mcp"@,
        key == "agent"@ ==> catalog_entry(key)->0.url == "https://agent.aussierobots.com.au/mcp"@,
        key == "pf"@ ==> catalog_entry(key)->0.url == "https://pf.aussierobots.com.au/mcp"@,
        key == "sv-track"@ ==> catalog_entry(key)->0.url == "https://st.aussierobots.com.au/mcp"@,
        key == "space-data"@ ==> catalog_entry(key)->0.url == "https://sd.aussierobots.com.au/mcp"@,
{
    reveal_strlit("user");
    reveal_strlit("agent");
    reveal_strlit("pf");
    reveal_strlit("sv-track");
    reveal_strlit("space-data");
    assert("user"@.len() == 4);
    assert("agent"@.len() == 5);
    assert("pf"@.len() == 2);
    assert("sv-track"@.len() == 8);
    assert("space-data"@.len() == 10);
}

/// Label of a server: from the catalog, else the key itself.
pub open spec fn label_for(key: Seq<char>) -> Seq<char> {
    match catalog_entry(key) {
        Some(e) => e.label,
        None => key,
    }
}

/// Prefix badge of a server: from the catalog, else the key's first character
/// upper-cased (ASCII), or "?" for an empty key.
pub open spec fn prefix_for(key: Seq<char>) -> Seq<char> {
    match catalog_entry(key) {
        Some(e) => e.prefix,
        None => if key.len() > 0 {
            seq![ascii_upper(key[0])]
        } else {
            "?"@
        },
    }
}

/// Identity-provider role: from the catalog, else false.
pub open spec fn idp_for(key: Seq<char>) -> bool {
    match catalog_entry(key) {
        Some(e) => e.is_identity_provider,
        None => false,
    }
}

/// OAuth scope: from the catalog, else read-only.
pub open spec fn scope_for(key: Seq<char>) -> Seq<char> {
    match catalog_entry(key) {
        Some(e) => e.scope,
        None => "mcp:read"@,
    }
}

/// The server configuration built from a key and a URL.
pub open spec fn server_for(key: Seq<char>, url: Seq<char>) -> ServerView {
    ServerView {
        key: key,
        label: label_for(key),
        prefix: prefix_for(key),
        url: url,
        is_identity_provider: idp_for(key),
        scope: scope_for(key),
    }
}

/// Index of `key` in the catalog (0 to 4), if it is a known key.
fn catalog_index(key: &str) -> (r: Option<usize>)
    ensures
        r == (if key@ == "user"@ {
            Some(0usize)
        } else if key@ == "agent"@ {
            Some(1usize)
        } else if key@ == "pf"@ {
            Some(2usize)
        } else if key@ == "sv-track"@ {
            Some(3usize)
        } else if key@ == "space-data"@ {
            Some(4usize)
        } else {
            None
        }),
{
    if str_eq(key, "user") {
        Some(0)
    } else if str_eq(key, "agent") {
        Some(1)
    } else if str_eq(key, "pf") {
        Some(2)
    } else if str_eq(key, "sv-track") {
        Some(3)
    } else if str_eq(key, "space-data") {
        Some(4)
    } else {
        None
    }
}

/// Display metadata and identity role for a key: label, prefix, identity role.
pub fn known_server_meta(key: &str) -> (r: (String, String, bool))
    ensures
        r.0@ == label_for(key@),
        r.1@ == prefix_for(key@),
        r.2 == idp_for(key@),
{
    match catalog_index(key) {
        Some(0) => (owned("User"), owned("U"), true),
        Some(1) => (owned("Agent"), owned("A"), false),
        Some(2) => (owned("Particle Filter"), owned("P"), false),
        Some(3) => (owned("SV Track"), owned("T"), false),
        Some(_) => (owned("Space Data"), owned("D"), false),
        None => {
            let chars = chars_of(key);
            let mut prefix = String::new();
            if chars.len() > 0 {
                push_char(&mut prefix, to_ascii_upper(chars[0]));
                assert(prefix@ =~= seq![ascii_upper(key@[0])]);
            } else {
                prefix = owned("?");
            }
            (owned(key), prefix, false)
        },
    }
}

/// Default endpoint URL for a known server key, if any.
pub fn known_default_url(key: &str) -> (r: Option<&'static str>)
    ensures
        r is None <==> catalog_entry(key@) is None,
        r matches Some(u) ==> u@ == catalog_entry(key@)->0.url,
{
    match catalog_index(key) {
        Some(0) => Some("https://gt.aussierobots.com.au/mcp"),
        Some(1) => Some("https://agent.aussierobots.com.au/mcp"),
        Some(2) => Some("https://pf.aussierobots.com.au/mcp"),
        Some(3) => Some("https://st.aussierobots.com.au/mcp"),
        Some(_) => Some("https://sd.aussierobots.com.au/mcp"),
        None => None,
    }
}

/// OAuth scope to request for a server key; read-only for unknown keys.
pub fn known_scope(key: &str) -> (r: &'static str)
    ensures
        r@ == scope_for(key@),
{
    match catalog_index(key) {
        Some(0) | Some(1) | Some(2) => "mcp:read mcp:write",
        Some(_) => "mcp:read",
        None => "mcp:read",
    }
}

// ---------------------------------------------------------------------------
// Registry
// ---------------------------------------------------------------------------

/// Ordered list of configured servers.
#[derive(Debug)]
pub struct ServerRegistry {
    servers: Vec<ServerId>,
}

/// Views of a list of server handles.
pub open spec fn views(servers: Seq<ServerId>) -> Seq<ServerView> {
    servers.map_values(|s: ServerId| s@)
}

/// No two servers share a key.
pub open spec fn keys_unique(servers: Seq<ServerView>) -> bool {
    forall|i: int, j: int|
        0 <= i < servers.len() && 0 <= j < servers.len() && i != j ==> servers[i].key
            != servers[j].key
}

/// `i` is the first position whose server has `key`.
pub open spec fn is_first_key(servers: Seq<ServerView>, key: Seq<char>, i: int) -> bool {
    &&& 0 <= i < servers.len()
    &&& servers[i].key == key
    &&& forall|j: int| 0 <= j < i ==> servers[j].key != key
}

/// Replaces the first server with the same key, or appends.
pub open spec fn upsert(servers: Seq<ServerView>, server: ServerView) -> Seq<ServerView> {
    if exists|i: int| is_first_key(servers, server.key, i) {
        let i = choose|i: int| is_first_key(servers, server.key, i);
        servers.update(i, server)
    } else {
        servers.push(server)
    }
}

/// Error text for a `KEY=URL` spec with an empty side.
pub open spec fn empty_part_message(spec: Seq<char>) -> Seq<char> {
    "--server KEY and URL must both be non-empty: '"@ + spec + "'"@
}

/// Error text for a bare key that the catalog does not know.
pub open spec fn unknown_key_message(spec: Seq<char>) -> Seq<char> {
    "--server '"@ + spec + "' has no known default URL; use KEY=URL"@
}

/// Meaning of one registration spec: `KEY=URL` (split at the first `=`,
/// both sides non-empty), or a bare catalog key resolved to its default URL.
pub open spec fn parse_server_spec(spec: Seq<char>) -> Result<(Seq<char>, Seq<char>), Seq<char>> {
    if exists|i: int| is_first_index(spec, '=', i) {
        let i = choose|i: int| is_first_index(spec, '=', i);
        let key = spec.subrange(0, i);
        let url = spec.subrange(i + 1, spec.len() as int);
        if key.len() == 0 || url.len() == 0 {
            Err(empty_part_message(spec))
        } else {
            Ok((key, url))
        }
    } else {
        match catalog_entry(spec) {
            Some(e) => Ok((spec, e.url)),
            None => Err(unknown_key_message(spec)),
        }
    }
}

/// Applies registration specs in order; the first malformed one is the error.
pub open spec fn apply_specs(servers: Seq<ServerView>, specs: Seq<Seq<char>>) -> Result<
    Seq<ServerView>,
    Seq<char>,
>
    decreases specs.len(),
{
    if specs.len() == 0 {
        Ok(servers)
    } else {
        match parse_server_spec(specs[0]) {
            Err(m) => Err(m),
            Ok((key, url)) => apply_specs(upsert(servers, server_for(key, url)), specs.drop_first()),
        }
    }
}

/// The registry built from the User and Agent URLs plus the extra specs.
pub open spec fn registry_from_specs(user_url: Seq<char>, agent_url: Seq<char>, specs: Seq<Seq<char>>) -> Result<
    Seq<ServerView>,
    Seq<char>,
> {
    apply_specs(seq![server_for("user"@, user_url), server_for("agent"@, agent_url)], specs)
}

impl View for ServerRegistry {
    type V = Seq<ServerView>;

    closed spec fn view(&self) -> Seq<ServerView> {
        views(self.servers@)
    }
}

impl Clone for ServerRegistry {
    fn clone(&self) -> (r: Self)
        ensures
            r@ == self@,
    {
        let mut servers: Vec<ServerId> = Vec::new();
        let mut i: usize = 0;
        while i < self.servers.len()
            invariant
                i <= self.servers.len(),
                views(servers@) == views(self.servers@.take(i as int)),
            decreases self.servers.len() - i,
        {
            let ghost before = servers@;
            let c = self.servers[i].clone();
            servers.push(c);
            assert(servers@ == before.push(c));
            assert(self.servers@.take(i + 1) =~= self.servers@.take(i as int).push(self.servers@[i as int]));
            assert(views(servers@) =~= views(self.servers@.take(i + 1))) by {
                assert(views(before.push(c)) =~= views(before).push(c@));
                assert(views(self.servers@.take(i as int).push(self.servers@[i as int])) =~= views(
                    self.servers@.take(i as int),
                ).push(self.servers@[i as int]@));
            }
            i = i + 1;
        }
        assert(self.servers@.take(i as int) =~= self.servers@);
        ServerRegistry { servers }
    }
}

/// Position of the first server with `key`, if any.
fn position_of_key(servers: &Vec<ServerId>, key: &str) -> (r: Option<usize>)
    ensures
        r matches Some(i) ==> is_first_key(views(servers@), key@, i as int),
        r is None ==> forall|j: int| 0 <= j < servers@.len() ==> servers@[j]@.key != key@,
{
    let mut i: usize = 0;
    while i < servers.len()
        invariant
            i <= servers.len(),
            forall|j: int| 0 <= j < i ==> servers@[j]@.key != key@,
        decreases servers.len() - i,
    {
        if str_eq(servers[i].key(), key) {
            return Some(i);
        }
        i = i + 1;
    }
    None
}

/// The split of a registration spec, or its error text.
fn split_server_spec(spec: &String) -> (r: Result<(String, String), String>)
    ensures
        match parse_server_spec(spec@) {
            Ok((k, u)) => r matches Ok((rk, ru)) && rk@ == k && ru@ == u,
            Err(m) => r matches Err(rm) && rm@ == m,
        },
{
    let chars = chars_of(spec.as_str());
    match crate::text::find_char(&chars, '=') {
        Some(i) => {
            assert forall|j: int| is_first_index(spec@, '=', j) implies j == i by {
                if j < i {
                } else if j > i {
                }
            }
            let key = string_from_range(&chars, 0, i);
            let url = string_from_range(&chars, i + 1, chars.len());
            if i == 0 || i + 1 == chars.len() {
                let mut m = owned("--server KEY and URL must both be non-empty: '");
                append(&mut m, spec.as_str());
                append(&mut m, "'");
                Err(m)
            } else {
                Ok((key, url))
            }
        },
        None => {
            match known_default_url(spec.as_str()) {
                Some(u) => Ok((spec.clone(), owned(u))),
                None => {
                    let mut m = owned("--server '");
                    append(&mut m, spec.as_str());
                    append(&mut m, "' has no known default URL; use KEY=URL");
                    Err(m)
                },
            }
        },
    }
}

impl ServerRegistry {
    /// A registry holding exactly `servers`, in order.
    pub fn new(servers: Vec<ServerId>) -> (r: Self)
        ensures
            r@ == views(servers@),
    {
        ServerRegistry { servers }
    }

    /// The default User and Agent servers plus any extra servers given as
    /// `KEY=URL` or bare catalog keys; a spec whose key is already registered
    /// replaces that server in place.
    pub fn from_specs(user_url: &str, agent_url: &str, extra: &[String]) -> (r: Result<Self, String>)
        ensures
            match registry_from_specs(user_url@, agent_url@, extra@.map_values(|s: String| s@)) {
                Ok(servers) => r matches Ok(reg) && reg@ == servers,
                Err(m) => r matches Err(rm) && rm@ == m,
            },
            r matches Ok(reg) ==> {
                &&& reg@.len() >= 2
                &&& reg@[0].key == "user"@
                &&& reg@[1].key == "agent"@
            },
    {
        let ghost specs = extra@.map_values(|s: String| s@);
        let mut servers: Vec<ServerId> = Vec::new();
        servers.push(ServerId::from_key_url("user", user_url));
        servers.push(ServerId::from_key_url("agent", agent_url));
        assert(views(servers@) =~= seq![server_for("user"@, user_url@), server_for("agent"@, agent_url@)]);
        assert(specs.skip(0) =~= specs);
        let mut k: usize = 0;
        while k < extra.len()
            invariant
                k <= extra.len(),
                specs == extra@.map_values(|s: String| s@),
                registry_from_specs(user_url@, agent_url@, specs) == apply_specs(views(servers@), specs.skip(k as int)),
                views(servers@).len() >= 2,
                views(servers@)[0].key == "user"@,
                views(servers@)[1].key == "agent"@,
            decreases extra.len() - k,
        {
            let ghost rest = specs.skip(k as int);
            assert(rest[0] == extra@[k as int]@);
            assert(rest.drop_first() =~= specs.skip(k + 1));
            match split_server_spec(&extra[k]) {
                Err(m) => {
                    assert(apply_specs(views(servers@), rest) == Err::<Seq<ServerView>, Seq<char>>(m@));
                    return Err(m);
                },
                Ok((key, url)) => {
                    let id = ServerId::from_key_url(key.as_str(), url.as_str());
                    let ghost before = views(servers@);
                    assert(apply_specs(before, rest) == apply_specs(upsert(before, server_for(key@, url@)), specs.skip(k + 1)));
                    match position_of_key(&servers, key.as_str()) {
                        Some(i) => {
                            servers.set(i, id);
                            proof {
                                assert(is_first_key(before, key@, i as int));
                                assert forall|j: int| is_first_key(before, key@, j) implies j == i by {
                                    if j < i {
                                    } else if j > i {
                                    }
                                }
                                let sv = server_for(key@, url@);
                                assert(is_first_key(before, sv.key, i as int));
                                let c = choose|j: int| is_first_key(before, sv.key, j);
                                assert(is_first_key(before, key@, c));
                                assert(c == i);
                                assert(views(servers@) =~= before.update(i as int, sv));
                            }
                        },
                        None => {
                            servers.push(id);
                            proof {
                                assert(!exists|j: int| is_first_key(before, key@, j));
                                assert(views(servers@) =~= before.push(server_for(key@, url@)));
                                assert(views(servers@) == upsert(before, server_for(key@, url@)));
                            }
                        },
                    }
                },
            }
            k = k + 1;
        }
        assert(specs.skip(extra.len() as int) =~= Seq::<Seq<char>>::empty());
        Ok(ServerRegistry { servers })
    }

    /// The servers in registration order.
    pub fn iter(&self) -> (it: core::slice::Iter<'_, ServerId>)
        ensures
            IteratorSpec::remaining(&it).len() == self@.len(),
            IteratorSpec::decrease(&it) is Some,
            IteratorSpec::initial_value_relation(&it, &it),
            forall|i: int| 0 <= i < self@.len() ==> (#[trigger] IteratorSpec::remaining(&it)[i])@ == self@[i],
    {
        self.servers.iter()
    }

    /// The first registered server, if any.
    pub fn first(&self) -> (r: Option<&ServerId>)
        ensures
            self@.len() == 0 ==> r is None,
            self@.len() > 0 ==> (r matches Some(s) && s@ == self@[0]),
    {
        if self.servers.len() == 0 {
            None
        } else {
            Some(&self.servers[0])
        }
    }

    /// The first server that resolves account identity, if any.
    pub fn identity_provider(&self) -> (r: Option<&ServerId>)
        ensures
            r matches Some(s) ==> exists|i: int| {
                &&& 0 <= i < self@.len()
                &&& self@[i] == s@
                &&& s@.is_identity_provider
                &&& forall|j: int| 0 <= j < i ==> !self@[j].is_identity_provider
            },
            r is None ==> forall|j: int| 0 <= j < self@.len() ==> !self@[j].is_identity_provider,
    {
        let mut i: usize = 0;
        while i < self.servers.len()
            invariant
                i <= self.servers.len(),
                forall|j: int| 0 <= j < i ==> !self@[j].is_identity_provider,
            decreases self.servers.len() - i,
        {
            if self.servers[i].is_identity_provider() {
                assert(self@[i as int] == self.servers@[i as int]@);
                return Some(&self.servers[i]);
            }
            i = i + 1;
        }
        None
    }
}

// ---------------------------------------------------------------------------
// Registry laws
// ---------------------------------------------------------------------------

/// Every server built from a key is an identity provider exactly when its key
/// is "user".
pub open spec fn idp_matches_user(servers: Seq<ServerView>) -> bool {
    forall|j: int| 0 <= j < servers.len() ==> servers[j].is_identity_provider == (servers[j].key == "user"@)
}

proof fn lemma_upsert(servers: Seq<ServerView>, sv: ServerView)
    requires
        keys_unique(servers),
        idp_matches_user(servers),
        sv.is_identity_provider == (sv.key == "user"@),
    ensures
        keys_unique(upsert(servers, sv)),
        idp_matches_user(upsert(servers, sv)),
        upsert(servers, sv).len() >= servers.len(),
        forall|j: int| 0 <= j < servers.len() ==> upsert(servers, sv)[j].key == servers[j].key,
{
    if exists|i: int| is_first_key(servers, sv.key, i) {
        let i = choose|i: int| is_first_key(servers, sv.key, i);
        let r = servers.update(i, sv);
        assert forall|a: int, b: int| 0 <= a < r.len() && 0 <= b < r.len() && a != b implies r[a].key
            != r[b].key by {
            assert(r[a].key == servers[a].key);
            assert(r[b].key == servers[b].key);
        }
    } else {
        let r = servers.push(sv);
        assert forall|a: int, b: int| 0 <= a < r.len() && 0 <= b < r.len() && a != b implies r[a].key
            != r[b].key by {
            if a == servers.len() {
                assert(!is_first_key(servers, sv.key, b));
            } else if b == servers.len() {
                assert(!is_first_key(servers, sv.key, a));
            }
        }
    }
}

proof fn lemma_apply_specs(servers: Seq<ServerView>, specs: Seq<Seq<char>>)
    requires
        keys_unique(servers),
        idp_matches_user(servers),
        apply_specs(servers, specs) is Ok,
    ensures
        keys_unique(apply_specs(servers, specs)->Ok_0),
        idp_matches_user(apply_specs(servers, specs)->Ok_0),
        apply_specs(servers, specs)->Ok_0.len() >= servers.len(),
        forall|j: int| 0 <= j < servers.len() ==> apply_specs(servers, specs)->Ok_0[j].key == servers[j].key,
    decreases specs.len(),
{
    if specs.len() > 0 {
        let (key, url) = parse_server_spec(specs[0])->Ok_0;
        let sv = server_for(key, url);
        lemma_upsert(servers, sv);
        lemma_apply_specs(upsert(servers, sv), specs.drop_first());
    }
}

/// A registry built from specs holds every key at most once, keeps the User
/// server first and the Agent server second, and its one identity provider
/// is the User server.
pub proof fn lemma_registry_from_specs_well_formed(
    user_url: Seq<char>,
    agent_url: Seq<char>,
    specs: Seq<Seq<char>>,
)
    requires
        registry_from_specs(user_url, agent_url, specs) is Ok,
    ensures
        ({
            let r = registry_from_specs(user_url, agent_url, specs)->Ok_0;
            &&& keys_unique(r)
            &&& r.len() >= 2
            &&& r[0].key == "user"@
            &&& r[1].key == "agent"@
            &&& forall|j: int| 0 <= j < r.len() ==> (r[j].is_identity_provider <==> j == 0)
        }),
{
    reveal_strlit("user");
    reveal_strlit("agent");
    let base = seq![server_for("user"@, user_url), server_for("agent"@, agent_url)];
    assert(base[0].key != base[1].key);
    lemma_apply_specs(base, specs);
    let r = registry_from_specs(user_url, agent_url, specs)->Ok_0;
    assert forall|j: int| 0 <= j < r.len() implies (r[j].is_identity_provider <==> j == 0) by {
        if j != 0 {
            assert(r[j].key != r[0].key);
        }
    }
}

// ---------------------------------------------------------------------------
// Tools
// ---------------------------------------------------------------------------

/// The JSON Schema type of one tool input property.
#[derive(Debug)]
pub enum SchemaKind {
    /// A string, optionally restricted to listed values.
    String { enum_values: Option<Vec<String>> },
    Number,
    Integer,
    Boolean,
    Array,
    Object,
}

/// One property of a tool's input schema.
#[derive(Debug)]
pub struct PropertySchema {
    pub name: String,
    pub kind: SchemaKind,
    pub description: Option<String>,
}

/// A tool's input schema: its properties and the names it requires.
#[derive(Debug)]
pub struct InputSchema {
    pub properties: Option<Vec<PropertySchema>>,
    pub required: Option<Vec<String>>,
}

/// Whether a tool supports task-augmented execution.
#[derive(Debug, Clone, Copy, PartialEq, Eq, Structural)]
pub enum TaskSupport {
    Required,
    Optional,
    Forbidden,
}

/// The parts of an MCP tool definition that the client reads.
#[derive(Debug)]
pub struct ToolInfo {
    pub name: String,
    /// Annotation title, if the tool has one.
    pub title: Option<String>,
    pub description: Option<String>,
    pub input_schema: InputSchema,
    pub task_support: Option<TaskSupport>,
    pub read_only_hint: Option<bool>,
    pub destructive_hint: Option<bool>,
    pub idempotent_hint: Option<bool>,
    pub open_world_hint: Option<bool>,
}

/// A tool definition together with the server that offers it.
#[derive(Debug)]
pub struct ToolEntry {
    pub server: ServerId,
    pub tool: ToolInfo,
}

/// The name shown for a tool: its annotation title if present, otherwise its
/// name.
pub open spec fn display_name_of(tool: ToolInfo) -> Seq<char> {
    match tool.title {
        Some(t) => t@,
        None => tool.name@,
    }
}

/// The task badge shown for a tool.
pub open spec fn task_badge_of(tool: ToolInfo) -> Seq<char> {
    match tool.task_support {
        Some(TaskSupport::Required) => "[T!]"@,
        Some(TaskSupport::Optional) => "[T?]"@,
        _ => ""@,
    }
}

impl ToolEntry {
    /// Human-readable name: annotation title if present, otherwise the name.
    pub fn display_name(&self) -> (r: &str)
        ensures
            r@ == display_name_of(self.tool),
    {
        match &self.tool.title {
            Some(t) => t.as_str(),
            None => self.tool.name.as_str(),
        }
    }

    /// Task support badge: "[T!]" when required, "[T?]" when optional.
    pub fn task_badge(&self) -> (r: &'static str)
        ensures
            r@ == task_badge_of(self.tool),
    {
        match self.tool.task_support {
            Some(TaskSupport::Required) => "[T!]",
            Some(TaskSupport::Optional) => "[T?]",
            _ => "",
        }
    }
}

/// Capabilities detected from a connected server.
#[derive(Debug, Clone, Copy, Default)]
pub struct ServerCaps {
    pub tools_list_changed: bool,
    pub tasks_tool_call: bool,
    pub tasks_cancel: bool,
    pub tasks_list: bool,
}

// ---------------------------------------------------------------------------
// Tool-call arguments
// ---------------------------------------------------------------------------

/// One argument value of a tool call.
#[derive(Debug)]
pub enum ArgValue {
    /// A JSON string.
    Str(String),
    /// A JSON integer.
    Int(i64),
    /// Text typed into a number field: sent as a JSON number when it reads as
    /// a finite floating-point number, otherwise as this string.
    NumberText(String),
    /// A JSON boolean.
    Bool(bool),
    /// A JSON array of strings.
    StrArray(Vec<String>),
    /// A JSON value given as its (valid) JSON text.
    Json(String),
}

/// The mathematical content of an argument value.
pub enum ArgView {
    Str(Seq<char>),
    Int(int),
    NumberText(Seq<char>),
    Bool(bool),
    StrArray(Seq<Seq<char>>),
    Json(Seq<char>),
}

impl View for ArgValue {
    type V = ArgView;

    open spec fn view(&self) -> ArgView {
        match self {
            ArgValue::Str(s) => ArgView::Str(s@),
            ArgValue::Int(n) => ArgView::Int(*n as int),
            ArgValue::NumberText(s) => ArgView::NumberText(s@),
            ArgValue::Bool(b) => ArgView::Bool(*b),
            ArgValue::StrArray(v) => ArgView::StrArray(v@.map_values(|s: String| s@)),
            ArgValue::Json(s) => ArgView::Json(s@),
        }
    }
}

impl Clone for ArgValue {
    fn clone(&self) -> (r: Self)
        ensures
            r@ == self@,
    {
        match self {
            ArgValue::Str(s) => ArgValue::Str(s.clone()),
            ArgValue::Int(n) => ArgValue::Int(*n),
            ArgValue::NumberText(s) => ArgValue::NumberText(s.clone()),
            ArgValue::Bool(b) => ArgValue::Bool(*b),
            ArgValue::StrArray(v) => {
                let mut r: Vec<String> = Vec::new();
                let mut i: usize = 0;
                while i < v.len()
                    invariant
                        i <= v.len(),
                        r@.len() == i,
                        forall|j: int| 0 <= j < i ==> r@[j]@ == v@[j]@,
                    decreases v.len() - i,
                {
                    r.push(v[i].clone());
                    i = i + 1;
                }
                assert(r@.map_values(|s: String| s@) =~= v@.map_values(|s: String| s@));
                ArgValue::StrArray(r)
            },
            ArgValue::Json(s) => ArgValue::Json(s.clone()),
        }
    }
}

/// The arguments of a tool call: a JSON object, each name at most once.
#[derive(Debug)]
pub struct ToolArgs {
    entries: Vec<(String, ArgValue)>,
}

/// The map a list of named values denotes; a later entry for a name wins.
pub open spec fn entries_map(entries: Seq<(Seq<char>, ArgView)>) -> Map<Seq<char>, ArgView>
    decreases entries.len(),
{
    if entries.len() == 0 {
        Map::empty()
    } else {
        entries_map(entries.drop_last()).insert(entries.last().0, entries.last().1)
    }
}

/// No name occurs twice.
pub open spec fn names_unique(entries: Seq<(Seq<char>, ArgView)>) -> bool {
    forall|i: int, j: int|
        0 <= i < entries.len() && 0 <= j < entries.len() && i != j ==> entries[i].0 != entries[j].0
}

proof fn lemma_entries_map_contains(entries: Seq<(Seq<char>, ArgView)>, k: Seq<char>)
    requires
        names_unique(entries),
    ensures
        entries_map(entries).contains_key(k) <==> exists|i: int| 0 <= i < entries.len() && entries[i].0 == k,
        forall|i: int| 0 <= i < entries.len() && entries[i].0 == k ==> entries_map(entries)[k] == entries[i].1,
    decreases entries.len(),
{
    if entries.len() > 0 {
        let init = entries.drop_last();
        assert(names_unique(init));
        lemma_entries_map_contains(init, k);
        if exists|i: int| 0 <= i < init.len() && init[i].0 == k {
            assert(entries_map(init).contains_key(k));
        }
        assert forall|i: int| 0 <= i < entries.len() && entries[i].0 == k implies entries_map(entries)[k]
            == entries[i].1 by {
            if i < entries.len() - 1 {
                assert(entries[i] == init[i]);
            }
        }
        if k == entries.last().0 {
            assert(entries[entries.len() - 1].0 == k);
        }
        if exists|i: int| 0 <= i < entries.len() && entries[i].0 == k {
            let i = choose|i: int| 0 <= i < entries.len() && entries[i].0 == k;
            if i < entries.len() - 1 {
                assert(init[i].0 == k);
            }
        }
        if entries_map(entries).contains_key(k) && k != entries.last().0 {
            let i = choose|i: int| 0 <= i < init.len() && init[i].0 == k;
            assert(entries[i] == init[i]);
        }
    }
}

proof fn lemma_entries_map_update(entries: Seq<(Seq<char>, ArgView)>, i: int, v: ArgView)
    requires
        names_unique(entries),
        0 <= i < entries.len(),
    ensures
        entries_map(entries.update(i, (entries[i].0, v))) == entries_map(entries).insert(entries[i].0, v),
    decreases entries.len(),
{
    let u = entries.update(i, (entries[i].0, v));
    let init = entries.drop_last();
    if i == entries.len() - 1 {
        assert(u.drop_last() =~= init);
        assert(entries_map(u) =~= entries_map(entries).insert(entries[i].0, v));
    } else {
        assert(u.drop_last() =~= init.update(i, (entries[i].0, v)));
        assert(names_unique(init));
        lemma_entries_map_update(init, i, v);
        assert(entries.last().0 != entries[i].0);
        assert(entries_map(u) =~= entries_map(entries).insert(entries[i].0, v));
    }
}

/// Views of a list of named argument values.
pub open spec fn arg_entry_views(es: Seq<(String, ArgValue)>) -> Seq<(Seq<char>, ArgView)> {
    es.map_values(|e: (String, ArgValue)| (e.0@, e.1@))
}

impl View for ToolArgs {
    type V = Map<Seq<char>, ArgView>;

    closed spec fn view(&self) -> Map<Seq<char>, ArgView> {
        entries_map(arg_entry_views(self.entries@))
    }
}

impl ToolArgs {
    closed spec fn entry_views(&self) -> Seq<(Seq<char>, ArgView)> {
        arg_entry_views(self.entries@)
    }

    #[verifier::type_invariant]
    closed spec fn wf(&self) -> bool {
        names_unique(self.entry_views())
    }

    /// An empty object.
    pub fn new() -> (r: Self)
        ensures
            r@ == Map::<Seq<char>, ArgView>::empty(),
    {
        let r = ToolArgs { entries: Vec::new() };
        assert(r.entry_views() =~= Seq::<(Seq<char>, ArgView)>::empty());
        r
    }

    /// Position of `name`, if present.
    fn position(&self, name: &str) -> (r: Option<usize>)
        requires
            self.wf(),
        ensures
            r matches Some(i) ==> i < self.entries@.len() && self.entry_views()[i as int].0 == name@,
            r is None ==> !self@.contains_key(name@),
    {
        let mut i: usize = 0;
        while i < self.entries.len()
            invariant
                i <= self.entries.len(),
                forall|j: int| 0 <= j < i ==> self.entry_views()[j].0 != name@,
            decreases self.entries.len() - i,
        {
            if str_eq(self.entries[i].0.as_str(), name) {
                return Some(i);
            }
            i = i + 1;
        }
        proof {
            lemma_entries_map_contains(self.entry_views(), name@);
        }
        None
    }

    /// Sets `name` to `value`, replacing any earlier value.
    pub fn insert(&mut self, name: String, value: ArgValue)
        ensures
            final(self)@ == old(self)@.insert(name@, value@),
    {
        proof {
            use_type_invariant(&*self);
        }
        let ghost before = self.entry_views();
        let pos = self.position(name.as_str());
        let mut entries: Vec<(String, ArgValue)> = Vec::new();
        std::mem::swap(&mut entries, &mut self.entries);
        assert(arg_entry_views(entries@) == before);
        match pos {
            Some(i) => {
                let key = entries[i].0.clone();
                entries.set(i, (key, value));
                proof {
                    assert(arg_entry_views(entries@) =~= before.update(i as int, (before[i as int].0, value@)));
                    lemma_entries_map_update(before, i as int, value@);
                    assert forall|a: int, b: int|
                        0 <= a < arg_entry_views(entries@).len() && 0 <= b < arg_entry_views(entries@).len() && a != b
                        implies #[trigger] arg_entry_views(entries@)[a].0 != #[trigger] arg_entry_views(entries@)[b].0 by {
                        assert(arg_entry_views(entries@)[a].0 == before[a].0);
                        assert(arg_entry_views(entries@)[b].0 == before[b].0);
                    }
                }
            },
            None => {
                let ghost nv = name@;
                let ghost vv = value@;
                entries.push((name, value));
                proof {
                    assert(arg_entry_views(entries@) =~= before.push((nv, vv)));
                    assert(arg_entry_views(entries@).drop_last() =~= before);
                    lemma_entries_map_contains(before, nv);
                    assert forall|a: int, b: int|
                        0 <= a < arg_entry_views(entries@).len() && 0 <= b < arg_entry_views(entries@).len() && a != b
                        implies #[trigger] arg_entry_views(entries@)[a].0 != #[trigger] arg_entry_views(entries@)[b].0 by {
                        if a < before.len() && b < before.len() {
                            assert(arg_entry_views(entries@)[a] == before[a]);
                            assert(arg_entry_views(entries@)[b] == before[b]);
                        } else if a < before.len() {
                            assert(arg_entry_views(entries@)[a] == before[a]);
                        } else {
                            assert(arg_entry_views(entries@)[b] == before[b]);
                        }
                    }
                }
            },
        }
        self.entries = entries;
    }

    /// The value of `name`, if present.
    pub fn get(&self, name: &str) -> (r: Option<&ArgValue>)
        ensures
            r is Some <==> self@.contains_key(name@),
            r matches Some(v) ==> self@[name@] == v@,
    {
        proof {
            use_type_invariant(self);
        }
        match self.position(name) {
            Some(i) => {
                proof {
                    lemma_entries_map_contains(self.entry_views(), name@);
                }
                Some(&self.entries[i].1)
            },
            None => None,
        }
    }

    /// The name/value pairs, each name once.
    pub fn entries(&self) -> (r: &Vec<(String, ArgValue)>)
        ensures
            forall|k: Seq<char>| self@.contains_key(k) <==> exists|i: int| 0 <= i < r@.len() && r@[i].0@ == k,
            forall|i: int| 0 <= i < r@.len() ==> self@[r@[i].0@] == r@[i].1@,
            forall|i: int, j: int| 0 <= i < r@.len() && 0 <= j < r@.len() && i != j ==> r@[i].0@ != r@[j].0@,
    {
        proof {
            use_type_invariant(self);
            assert forall|k: Seq<char>| self@.contains_key(k) <==> exists|i: int| 0 <= i < self.entries@.len() && self.entries@[i].0@ == k by {
                lemma_entries_map_contains(self.entry_views(), k);
                if exists|i: int| 0 <= i < self.entries@.len() && self.entries@[i].0@ == k {
                    let i = choose|i: int| 0 <= i < self.entries@.len() && self.entries@[i].0@ == k;
                    assert(self.entry_views()[i].0 == k);
                }
            }
            assert forall|i: int| 0 <= i < self.entries@.len() implies self@[self.entries@[i].0@] == self.entries@[i].1@ by {
                assert(self.entry_views()[i] == (self.entries@[i].0@, self.entries@[i].1@));
                lemma_entries_map_contains(self.entry_views(), self.entries@[i].0@);
            }
            assert forall|i: int, j: int| 0 <= i < self.entries@.len() && 0 <= j < self.entries@.len() && i != j implies self.entries@[i].0@ != self.entries@[j].0@ by {
                assert(self.entry_views()[i].0 == self.entries@[i].0@);
                assert(self.entry_views()[j].0 == self.entries@[j].0@);
            }
        }
        &self.entries
    }
}

/// Request to call a tool, with arguments ready for dispatch.
#[derive(Debug)]
pub struct ToolCallRequest {
    pub server: ServerId,
    pub tool_name: String,
    pub arguments: ToolArgs,
}

/// Policy for fields the client injects into every tool call (the account
/// id), so that the user cannot forge them.
#[derive(Debug)]
pub struct ManagedFieldsPolicy {
    fields: ToolArgs,
}

impl View for ManagedFieldsPolicy {
    type V = Map<Seq<char>, ArgView>;

    closed spec fn view(&self) -> Map<Seq<char>, ArgView> {
        self.fields@
    }
}

impl ManagedFieldsPolicy {
    /// A policy that injects `account_id`.
    pub fn new(account_id: &str) -> (r: Self)
        ensures
            r@ == Map::<Seq<char>, ArgView>::empty().insert("account_id"@, ArgView::Str(account_id@)),
    {
        let mut fields = ToolArgs::new();
        fields.insert(owned("account_id"), ArgValue::Str(owned(account_id)));
        ManagedFieldsPolicy { fields }
    }

    /// Writes the managed fields into `args`, overriding any value the
    /// caller supplied for them.
    pub fn inject(&self, args: &mut ToolArgs)
        ensures
            final(args)@ == old(args)@.union_prefer_right(self@),
    {
        let entries = self.fields.entries();
        let mut i: usize = 0;
        while i < entries.len()
            invariant
                i <= entries.len(),
                forall|k: Seq<char>| self@.contains_key(k) <==> exists|j: int| 0 <= j < entries@.len() && entries@[j].0@ == k,
                forall|j: int| 0 <= j < entries@.len() ==> self@[entries@[j].0@] == entries@[j].1@,
                forall|a: int, b: int| 0 <= a < entries@.len() && 0 <= b < entries@.len() && a != b ==> entries@[a].0@ != entries@[b].0@,
                forall|k: Seq<char>|
                    #[trigger] args@.contains_key(k) <==> (old(args)@.contains_key(k) || exists|j: int| 0 <= j < i && entries@[j].0@ == k),
                forall|k: Seq<char>|
                    #[trigger] args@.contains_key(k) ==> args@[k] == (if exists|j: int| 0 <= j < i && entries@[j].0@ == k {
                        self@[k]
                    } else {
                        old(args)@[k]
                    }),
            decreases entries.len() - i,
        {
            let ghost before = args@;
            let ghost key = entries@[i as int].0@;
            args.insert(entries[i].0.clone(), entries[i].1.clone());
            proof {
                assert forall|k: Seq<char>| #[trigger] args@.contains_key(k) implies args@[k] == (if exists|j: int| 0 <= j < i + 1 && entries@[j].0@ == k {
                    self@[k]
                } else {
                    old(args)@[k]
                }) by {
                    if k == key {
                        assert(entries@[i as int].0@ == k);
                    } else if exists|j: int| 0 <= j < i + 1 && entries@[j].0@ == k {
                        let j = choose|j: int| 0 <= j < i + 1 && entries@[j].0@ == k;
                        assert(j < i);
                    }
                }
                assert forall|k: Seq<char>| #[trigger] args@.contains_key(k) <==> (old(args)@.contains_key(k) || exists|j: int| 0 <= j < i + 1 && entries@[j].0@ == k) by {
                    if k == key {
                        assert(entries@[i as int].0@ == k);
                    } else if exists|j: int| 0 <= j < i + 1 && entries@[j].0@ == k {
                        let j = choose|j: int| 0 <= j < i + 1 && entries@[j].0@ == k;
                        assert(j < i);
                    }
                }
            }
            i = i + 1;
        }
        assert(args@ =~= old(args)@.union_prefer_right(self@));
    }
}

// ---------------------------------------------------------------------------
// Tasks
// ---------------------------------------------------------------------------

/// The state of a long-running task on a server.
#[derive(Debug, Clone, Copy, PartialEq, Eq, Structural)]
pub enum TaskStatus {
    Working,
    InputRequired,
    Completed,
    Failed,
    Cancelled,
}

/// What the client knows of a server-side task.
#[derive(Debug)]
pub struct TaskInfo {
    pub task_id: String,
    pub status: TaskStatus,
    pub status_message: Option<String>,
}

/// Tracks an in-flight task for the UI. Progress figures are carried as the
/// bit patterns of the `f64` values the server reported (`f64::to_bits`).
#[derive(Debug)]
pub struct ActiveTask {
    pub server: ServerId,
    pub task: TaskInfo,
    pub tool_name: String,
    pub progress: Option<u64>,
    pub total: Option<u64>,
    pub message: Option<String>,
}

// ---------------------------------------------------------------------------
// Tool results
// ---------------------------------------------------------------------------

/// One content block of a tool result, as plain values.
#[derive(Debug)]
pub enum ContentItem {
    Text(String),
    Image { mime_type: String, data_len: usize },
    Audio { mime_type: String, data_len: usize },
    ResourceLink { uri: String, name: String },
    TextResource { uri: String, text: String },
    BlobResource { uri: String, blob_len: usize },
    ToolUse { id: String, name: String },
    ToolResult { tool_use_id: String, is_error: Option<bool>, content: Vec<ContentItem> },
}

/// The result of a tool call, as plain values.
#[derive(Debug)]
pub struct ToolResult {
    pub content: Vec<ContentItem>,
    pub is_error: Option<bool>,
    /// Structured content, as its JSON text.
    pub structured_content: Option<String>,
}

/// The first text block among `content`, if any.
pub open spec fn first_text(content: Seq<ContentItem>) -> Option<Seq<char>>
    decreases content.len(),
{
    if content.len() == 0 {
        None
    } else if let ContentItem::Text(t) = content[0] {
        Some(t@)
    } else {
        first_text(content.drop_first())
    }
}

/// The text of the first text block, if any.
pub fn first_text_block(content: &Vec<ContentItem>) -> (r: Option<&String>)
    ensures
        r is Some <==> first_text(content@) is Some,
        r matches Some(t) ==> first_text(content@) == Some(t@),
{
    let mut i: usize = 0;
    assert(content@.skip(0) =~= content@);
    while i < content.len()
        invariant
            i <= content.len(),
            first_text(content@) == first_text(content@.skip(i as int)),
        decreases content.len() - i,
    {
        assert(content@.skip(i as int)[0] == content@[i as int]);
        if let ContentItem::Text(t) = &content[i] {
            return Some(t);
        }
        assert(content@.skip(i as int).drop_first() =~= content@.skip(i + 1));
        i = i + 1;
    }
    None
}

} // verus!
