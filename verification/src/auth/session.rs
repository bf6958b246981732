//! Per-server credentials and the HTTP headers they produce.

use vstd::prelude::*;

use crate::mcp::types::{ServerId, ServerView};
use crate::text::{append, owned, str_eq};

verus! {

/// A credential held for one server.
#[derive(Debug)]
pub enum ServerCredentials {
    OAuth {
        access_token: String,
        refresh_token: String,
        expires_at: i64,
        /// Audience the token was minted for; asserted against the target
        /// server before the token is attached.
        audience: String,
    },
    ApiKey { key: String },
}

impl Clone for ServerCredentials {
    fn clone(&self) -> (r: Self)
        ensures
            r == *self,
    {
        match self {
            ServerCredentials::OAuth { access_token, refresh_token, expires_at, audience } => {
                ServerCredentials::OAuth {
                    access_token: access_token.clone(),
                    refresh_token: refresh_token.clone(),
                    expires_at: *expires_at,
                    audience: audience.clone(),
                }
            },
            ServerCredentials::ApiKey { key } => ServerCredentials::ApiKey { key: key.clone() },
        }
    }
}

/// Credentials keyed by server; a server is found again by its key.
#[derive(Debug)]
pub struct CredentialMap {
    entries: Vec<(ServerId, ServerCredentials)>,
}

/// The credential stored for `key` in a list of entries: the first match.
pub open spec fn lookup(entries: Seq<(ServerView, ServerCredentials)>, key: Seq<char>) -> Option<
    ServerCredentials,
>
    decreases entries.len(),
{
    if entries.len() == 0 {
        None
    } else if entries[0].0.key == key {
        Some(entries[0].1)
    } else {
        lookup(entries.drop_first(), key)
    }
}

impl View for CredentialMap {
    type V = Seq<(ServerView, ServerCredentials)>;

    closed spec fn view(&self) -> Seq<(ServerView, ServerCredentials)> {
        self.entries@.map_values(|e: (ServerId, ServerCredentials)| (e.0@, e.1))
    }
}

proof fn lemma_lookup_skip(entries: Seq<(ServerView, ServerCredentials)>, key: Seq<char>, i: int)
    requires
        0 <= i < entries.len(),
        entries[i].0.key != key,
    ensures
        lookup(entries.skip(i), key) == lookup(entries.skip(i + 1), key),
{
    assert(entries.skip(i).drop_first() =~= entries.skip(i + 1));
}

proof fn lemma_lookup_push(entries: Seq<(ServerView, ServerCredentials)>, e: (ServerView, ServerCredentials), key: Seq<char>)
    ensures
        lookup(entries.push(e), key) == (if lookup(entries, key) is Some {
            lookup(entries, key)
        } else if e.0.key == key {
            Some(e.1)
        } else {
            None
        }),
    decreases entries.len(),
{
    if entries.len() > 0 {
        assert(entries.push(e).drop_first() =~= entries.drop_first().push(e));
        lemma_lookup_push(entries.drop_first(), e, key);
    } else {
        assert(entries.push(e).drop_first() =~= Seq::<(ServerView, ServerCredentials)>::empty());
        assert(lookup(Seq::<(ServerView, ServerCredentials)>::empty(), key) is None);
    }
}

proof fn lemma_lookup_update(
    entries: Seq<(ServerView, ServerCredentials)>,
    i: int,
    c: ServerCredentials,
    key: Seq<char>,
)
    requires
        0 <= i < entries.len(),
        forall|j: int| 0 <= j < i ==> entries[j].0.key != entries[i].0.key,
    ensures
        lookup(entries.update(i, (entries[i].0, c)), key) == (if key == entries[i].0.key {
            Some(c)
        } else {
            lookup(entries, key)
        }),
    decreases entries.len(),
{
    let u = entries.update(i, (entries[i].0, c));
    if i == 0 {
        assert(u.drop_first() =~= entries.drop_first());
    } else {
        assert(u.drop_first() =~= entries.drop_first().update(i - 1, (entries[i].0, c)));
        lemma_lookup_update(entries.drop_first(), i - 1, c, key);
    }
}

impl CredentialMap {
    pub fn new() -> (r: Self)
        ensures
            r@.len() == 0,
    {
        CredentialMap { entries: Vec::new() }
    }

    /// Position of the entry for `key`, if any.
    fn position(&self, key: &str) -> (r: Option<usize>)
        ensures
            r matches Some(i) ==> i < self@.len() && self@[i as int].0.key == key@ && forall|j: int|
                0 <= j < i ==> self@[j].0.key != key@,
            r matches Some(i) ==> lookup(self@, key@) == Some(self@[i as int].1),
            r is None ==> lookup(self@, key@) is None,
    {
        let mut i: usize = 0;
        assert(self@.skip(0) =~= self@);
        while i < self.entries.len()
            invariant
                i <= self.entries.len(),
                self@.len() == self.entries.len(),
                forall|j: int| 0 <= j < i ==> self@[j].0.key != key@,
                lookup(self@, key@) == lookup(self@.skip(i as int), key@),
            decreases self.entries.len() - i,
        {
            assert(self@[i as int].0 == self.entries@[i as int].0@);
            if str_eq(self.entries[i].0.key(), key) {
                return Some(i);
            }
            proof {
                lemma_lookup_skip(self@, key@, i as int);
            }
            i = i + 1;
        }
        None
    }

    /// Stores `creds` for `server`; an existing entry for the same key keeps
    /// the handle it was first stored with and takes the new credential.
    pub fn insert(&mut self, server: ServerId, creds: ServerCredentials)
        ensures
            forall|k: Seq<char>| #[trigger] lookup(final(self)@, k) == (if k == server@.key {
                Some(creds)
            } else {
                lookup(old(self)@, k)
            }),
    {
        match self.position(server.key()) {
            Some(i) => {
                let ghost before = self@;
                let handle = self.entries[i].0.clone();
                self.entries.set(i, (handle, creds));
                proof {
                    assert(self@ =~= before.update(i as int, (before[i as int].0, creds)));
                    assert forall|k: Seq<char>| #[trigger] lookup(self@, k) == (if k == server@.key {
                        Some(creds)
                    } else {
                        lookup(before, k)
                    }) by {
                        lemma_lookup_update(before, i as int, creds, k);
                    }
                }
            },
            None => {
                let ghost before = self@;
                let ghost key = server@.key;
                self.entries.push((server, creds));
                proof {
                    assert(self@ =~= before.push((server@, creds)));
                    assert forall|k: Seq<char>| #[trigger] lookup(self@, k) == (if k == key {
                        Some(creds)
                    } else {
                        lookup(before, k)
                    }) by {
                        lemma_lookup_push(before, (server@, creds), k);
                    }
                }
            },
        }
    }

    /// The credential stored for `server`'s key.
    pub fn get(&self, server: &ServerId) -> (r: Option<&ServerCredentials>)
        ensures
            r is Some <==> lookup(self@, server@.key) is Some,
            r matches Some(c) ==> lookup(self@, server@.key) == Some(*c),
    {
        match self.position(server.key()) {
            Some(i) => {
                assert(self@[i as int].1 == self.entries@[i as int].1);
                Some(&self.entries[i].1)
            },
            None => None,
        }
    }

    /// Whether a credential is stored for `server`'s key.
    pub fn contains_key(&self, server: &ServerId) -> (r: bool)
        ensures
            r == lookup(self@, server@.key) is Some,
    {
        self.position(server.key()).is_some()
    }
}

/// HTTP headers for one server's transport, as name/value pairs.
#[derive(Debug)]
pub struct Headers {
    entries: Vec<(String, String)>,
}

impl View for Headers {
    type V = Seq<(Seq<char>, Seq<char>)>;

    closed spec fn view(&self) -> Seq<(Seq<char>, Seq<char>)> {
        self.entries@.map_values(|e: (String, String)| (e.0@, e.1@))
    }
}

impl Headers {
    /// Number of headers.
    pub fn len(&self) -> (r: usize)
        ensures
            r == self@.len(),
    {
        self.entries.len()
    }

    /// Whether there are no headers.
    pub fn is_empty(&self) -> (r: bool)
        ensures
            r == (self@.len() == 0),
    {
        self.entries.len() == 0
    }

    /// The value of the first header named `name`.
    pub fn get(&self, name: &str) -> (r: Option<&String>)
        ensures
            r matches Some(v) ==> exists|i: int| 0 <= i < self@.len() && self@[i] == (name@, v@),
            r is None ==> forall|i: int| 0 <= i < self@.len() ==> self@[i].0 != name@,
    {
        let mut i: usize = 0;
        while i < self.entries.len()
            invariant
                i <= self.entries.len(),
                forall|j: int| 0 <= j < i ==> self@[j].0 != name@,
            decreases self.entries.len() - i,
        {
            if str_eq(self.entries[i].0.as_str(), name) {
                assert(self@[i as int] == (name@, self.entries@[i as int].1@));
                return Some(&self.entries[i].1);
            }
            i = i + 1;
        }
        None
    }

    /// The name/value pairs, in order.
    pub fn pairs(&self) -> (r: &Vec<(String, String)>)
        ensures
            r@.map_values(|e: (String, String)| (e.0@, e.1@)) == self@,
    {
        &self.entries
    }
}

/// The authenticated identity and the credential held for each server.
#[derive(Debug)]
pub struct AuthSession {
    pub account_id: String,
    pub display_name: String,
    pub entity_type: String,
    pub credentials: CredentialMap,
}

/// A credential is usable for a server when it is an API key, or an OAuth
/// token minted for that server's URL.
pub open spec fn usable(creds: Option<ServerCredentials>, server: ServerView) -> bool {
    match creds {
        Some(ServerCredentials::OAuth { audience, .. }) => audience@ == server.url,
        Some(ServerCredentials::ApiKey { .. }) => true,
        None => false,
    }
}

/// The headers a credential yields for a server: a bearer token only when
/// the token's audience is the server's URL, the API key header for a key,
/// nothing otherwise.
pub open spec fn headers_of(creds: Option<ServerCredentials>, server: ServerView) -> Seq<(Seq<char>, Seq<char>)> {
    match creds {
        Some(ServerCredentials::OAuth { access_token, audience, .. }) => if audience@ == server.url {
            seq![("Authorization"@, "Bearer "@ + access_token@)]
        } else {
            Seq::empty()
        },
        Some(ServerCredentials::ApiKey { key }) => seq![("X-API-Key"@, key@)],
        None => Seq::empty(),
    }
}

impl AuthSession {
    /// Whether the session holds a credential that is usable for `server`.
    pub fn has_usable_credential(&self, server: &ServerId) -> (r: bool)
        ensures
            r == usable(lookup(self.credentials@, server@.key), server@),
    {
        match self.credentials.get(server) {
            Some(ServerCredentials::OAuth { audience, .. }) => str_eq(audience.as_str(), server.url()),
            Some(ServerCredentials::ApiKey { .. }) => true,
            None => false,
        }
    }

    /// The HTTP headers for `server`'s transport. A token minted for another
    /// audience is withheld.
    pub fn headers_for(&self, server: &ServerId) -> (r: Headers)
        ensures
            r@ == headers_of(lookup(self.credentials@, server@.key), server@),
    {
        let mut entries: Vec<(String, String)> = Vec::new();
        match self.credentials.get(server) {
            Some(ServerCredentials::OAuth { access_token, audience, .. }) => {
                if str_eq(audience.as_str(), server.url()) {
                    let mut value = owned("Bearer ");
                    append(&mut value, access_token.as_str());
                    entries.push((owned("Authorization"), value));
                }
            },
            Some(ServerCredentials::ApiKey { key }) => {
                entries.push((owned("X-API-Key"), key.clone()));
            },
            None => {},
        }
        let r = Headers { entries };
        assert(r@ =~= headers_of(lookup(self.credentials@, server@.key), server@));
        r
    }
}

/// Fail-closed credential use: a server gets headers exactly when its
/// credential is usable, and a bearer token is only ever attached to the
/// server whose URL is the token's audience.
pub proof fn lemma_headers_fail_closed(creds: Option<ServerCredentials>, server: ServerView)
    ensures
        usable(creds, server) <==> headers_of(creds, server).len() > 0,
        forall|i: int|
            0 <= i < headers_of(creds, server).len() && headers_of(creds, server)[i].0
                == "Authorization"@ ==> (creds matches Some(
                ServerCredentials::OAuth { audience, .. },
            ) && audience@ == server.url),
{
    reveal_strlit("Authorization");
    reveal_strlit("X-API-Key");
    assert("X-API-Key"@.len() != "Authorization"@.len());
    if let Some(ServerCredentials::ApiKey { key }) = creds {
        assert(headers_of(creds, server) == seq![("X-API-Key"@, key@)]);
    }
}

} // verus!
