//! API-key authentication: the same key is presented to every server.

use vstd::prelude::*;

use crate::auth::session::{lookup, AuthSession, CredentialMap, ServerCredentials};
use crate::mcp::types::ServerRegistry;
use crate::text::owned;

verus! {

/// `creds` holds the key `api_key` for exactly the servers whose key is among
/// the first `n` registered servers.
pub open spec fn holds_key_for_prefix(
    creds: Seq<(crate::mcp::types::ServerView, ServerCredentials)>,
    servers: Seq<crate::mcp::types::ServerView>,
    n: int,
    api_key: Seq<char>,
) -> bool {
    &&& forall|i: int|
        0 <= i < n ==> (lookup(creds, #[trigger] servers[i].key) matches Some(
            ServerCredentials::ApiKey { key },
        ) && key@ == api_key)
    &&& forall|k: Seq<char>|
        #[trigger] lookup(creds, k) is Some ==> exists|i: int| 0 <= i < n && servers[i].key == k
}

/// Builds a session that presents `api_key` to every configured server.
/// Identity is resolved later, once a server is connected.
pub fn authenticate(api_key: &str, registry: &ServerRegistry) -> (r: AuthSession)
    ensures
        r.account_id@.len() == 0,
        r.display_name@.len() == 0,
        r.entity_type@.len() == 0,
        holds_key_for_prefix(r.credentials@, registry@, registry@.len() as int, api_key@),
{
    let mut credentials = CredentialMap::new();
    for server in it: registry.iter()
        invariant
            it.seq().len() == registry@.len(),
            forall|j: int| 0 <= j < registry@.len() ==> (#[trigger] it.seq()[j])@ == registry@[j],
            holds_key_for_prefix(credentials@, registry@, it.index(), api_key@),
    {
        let ghost before = credentials@;
        let ghost idx = it.index();
        assert(server@ == registry@[idx]);
        credentials.insert(server.clone(), ServerCredentials::ApiKey { key: owned(api_key) });
        proof {
            assert forall|i: int|
                0 <= i < idx + 1 implies (lookup(credentials@, #[trigger] registry@[i].key) matches Some(
                ServerCredentials::ApiKey { key },
            ) && key@ == api_key@) by {
                if registry@[i].key != registry@[idx].key {
                    assert(lookup(credentials@, registry@[i].key) == lookup(before, registry@[i].key));
                }
            }
            assert forall|k: Seq<char>|
                #[trigger] lookup(credentials@, k) is Some implies exists|i: int|
                0 <= i < idx + 1 && registry@[i].key == k by {
                if k != registry@[idx].key {
                    assert(lookup(credentials@, k) == lookup(before, k));
                }
            }
        }
    }
    AuthSession {
        account_id: String::new(),
        display_name: String::new(),
        entity_type: String::new(),
        credentials,
    }
}

} // verus!
