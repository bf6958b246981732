//! The persisted OAuth state: the cached DCR client id and one refresh
//! token per audience. Reading and writing the file happen outside the
//! library.

use vstd::prelude::*;

use crate::text::str_eq;

verus! {

/// A refresh token stored for one audience.
#[derive(Debug)]
pub struct StoredToken {
    pub refresh_token: String,
    pub expires_at: i64,
    pub account_id: String,
}

impl Clone for StoredToken {
    fn clone(&self) -> (r: Self)
        ensures
            r == *self,
    {
        StoredToken {
            refresh_token: self.refresh_token.clone(),
            expires_at: self.expires_at,
            account_id: self.account_id.clone(),
        }
    }
}

/// Stored tokens keyed by audience, each audience at most once.
#[derive(Debug)]
pub struct TokenMap {
    entries: Vec<(String, StoredToken)>,
}

/// The token stored for `audience`: the first entry for it.
pub open spec fn token_lookup(entries: Seq<(Seq<char>, StoredToken)>, audience: Seq<char>) -> Option<StoredToken>
    decreases entries.len(),
{
    if entries.len() == 0 {
        None
    } else if entries[0].0 == audience {
        Some(entries[0].1)
    } else {
        token_lookup(entries.drop_first(), audience)
    }
}

proof fn lemma_token_lookup_push(entries: Seq<(Seq<char>, StoredToken)>, e: (Seq<char>, StoredToken), k: Seq<char>)
    ensures
        token_lookup(entries.push(e), k) == (if token_lookup(entries, k) is Some {
            token_lookup(entries, k)
        } else if e.0 == k {
            Some(e.1)
        } else {
            None
        }),
    decreases entries.len(),
{
    if entries.len() > 0 {
        assert(entries.push(e).drop_first() =~= entries.drop_first().push(e));
        lemma_token_lookup_push(entries.drop_first(), e, k);
    } else {
        assert(entries.push(e).drop_first() =~= Seq::<(Seq<char>, StoredToken)>::empty());
        assert(token_lookup(Seq::<(Seq<char>, StoredToken)>::empty(), k) is None);
    }
}

proof fn lemma_token_lookup_update(entries: Seq<(Seq<char>, StoredToken)>, i: int, t: StoredToken, k: Seq<char>)
    requires
        0 <= i < entries.len(),
        forall|j: int| 0 <= j < i ==> entries[j].0 != entries[i].0,
    ensures
        token_lookup(entries.update(i, (entries[i].0, t)), k) == (if k == entries[i].0 {
            Some(t)
        } else {
            token_lookup(entries, k)
        }),
    decreases entries.len(),
{
    let u = entries.update(i, (entries[i].0, t));
    if i == 0 {
        assert(u.drop_first() =~= entries.drop_first());
    } else {
        assert(u.drop_first() =~= entries.drop_first().update(i - 1, (entries[i].0, t)));
        lemma_token_lookup_update(entries.drop_first(), i - 1, t, k);
    }
}

impl View for TokenMap {
    type V = Seq<(Seq<char>, StoredToken)>;

    closed spec fn view(&self) -> Seq<(Seq<char>, StoredToken)> {
        self.entries@.map_values(|e: (String, StoredToken)| (e.0@, e.1))
    }
}

impl TokenMap {
    pub fn new() -> (r: Self)
        ensures
            r@.len() == 0,
    {
        TokenMap { entries: Vec::new() }
    }

    fn position(&self, audience: &str) -> (r: Option<usize>)
        ensures
            r matches Some(i) ==> i < self@.len() && self@[i as int].0 == audience@ && forall|j: int|
                0 <= j < i ==> self@[j].0 != audience@,
            r matches Some(i) ==> token_lookup(self@, audience@) == Some(self@[i as int].1),
            r is None ==> token_lookup(self@, audience@) is None,
    {
        let mut i: usize = 0;
        assert(self@.skip(0) =~= self@);
        while i < self.entries.len()
            invariant
                i <= self.entries.len(),
                self@.len() == self.entries.len(),
                forall|j: int| 0 <= j < i ==> self@[j].0 != audience@,
                token_lookup(self@, audience@) == token_lookup(self@.skip(i as int), audience@),
            decreases self.entries.len() - i,
        {
            if str_eq(self.entries[i].0.as_str(), audience) {
                return Some(i);
            }
            assert(self@.skip(i as int).drop_first() =~= self@.skip(i + 1));
            i = i + 1;
        }
        None
    }

    /// The token stored for `audience`.
    pub fn get(&self, audience: &str) -> (r: Option<&StoredToken>)
        ensures
            r is Some <==> token_lookup(self@, audience@) is Some,
            r matches Some(t) ==> token_lookup(self@, audience@) == Some(*t),
    {
        match self.position(audience) {
            Some(i) => {
                assert(self@[i as int].1 == self.entries@[i as int].1);
                Some(&self.entries[i].1)
            },
            None => None,
        }
    }

    /// Stores `token` for `audience`, replacing an earlier one.
    pub fn insert(&mut self, audience: String, token: StoredToken)
        ensures
            forall|k: Seq<char>| #[trigger] token_lookup(final(self)@, k) == (if k == audience@ {
                Some(token)
            } else {
                token_lookup(old(self)@, k)
            }),
    {
        let ghost before = self@;
        match self.position(audience.as_str()) {
            Some(i) => {
                let key = self.entries[i].0.clone();
                self.entries.set(i, (key, token));
                proof {
                    assert(self@ =~= before.update(i as int, (before[i as int].0, token)));
                    assert forall|k: Seq<char>| #[trigger] token_lookup(self@, k) == (if k == audience@ {
                        Some(token)
                    } else {
                        token_lookup(before, k)
                    }) by {
                        lemma_token_lookup_update(before, i as int, token, k);
                    }
                }
            },
            None => {
                let ghost a = audience@;
                self.entries.push((audience, token));
                proof {
                    assert(self@ =~= before.push((a, token)));
                    assert forall|k: Seq<char>| #[trigger] token_lookup(self@, k) == (if k == a {
                        Some(token)
                    } else {
                        token_lookup(before, k)
                    }) by {
                        lemma_token_lookup_push(before, (a, token), k);
                    }
                }
            },
        }
    }

    /// The audience/token pairs, in order.
    pub fn pairs(&self) -> (r: &Vec<(String, StoredToken)>)
        ensures
            r@.map_values(|e: (String, StoredToken)| (e.0@, e.1)) == self@,
    {
        &self.entries
    }
}

/// The cached DCR client id and the audience-keyed refresh tokens.
#[derive(Debug)]
pub struct TokenStore {
    pub dcr_client_id: Option<String>,
    pub tokens: TokenMap,
}

impl TokenStore {
    /// An empty store, as used when the file is missing or unreadable.
    pub fn empty() -> (r: Self)
        ensures
            r.dcr_client_id is None,
            r.tokens@.len() == 0,
    {
        TokenStore { dcr_client_id: None, tokens: TokenMap::new() }
    }
}

} // verus!
