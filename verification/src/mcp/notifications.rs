//! Server notifications: which ones the client acts on, and the coalescing
//! of progress reports between two redraws.

use vstd::prelude::*;

use crate::app::Action;
use crate::json::{json_str_member, str_member};
use crate::mcp::types::ServerId;
use crate::text::{append, decimal_digits, owned, push_decimal, str_eq};

verus! {

/// A progress report read from a notification's parameters. The figures are
/// the bit patterns of the reported `f64` values.
#[derive(Debug)]
pub struct ProgressReport {
    pub progress_token: String,
    pub progress: u64,
    pub total: Option<u64>,
    pub message: Option<String>,
}

/// What a notification asks of the client.
#[derive(Debug, Clone, Copy, PartialEq, Eq, Structural)]
pub enum NotificationKind {
    /// The server's tool list changed: list the tools again.
    ToolsListChanged,
    /// Progress of a running call.
    Progress,
    /// A method the client does not handle.
    Other,
    /// No `method` string: not a notification the client can read.
    NoMethod,
}

/// The kind of a notification with the given `method` member.
pub open spec fn kind_of_method(method: Option<Seq<char>>) -> NotificationKind {
    match method {
        None => NotificationKind::NoMethod,
        Some(m) => if m == "notifications/tools/list_changed"@ {
            NotificationKind::ToolsListChanged
        } else if m == "notifications/progress"@ {
            NotificationKind::Progress
        } else {
            NotificationKind::Other
        },
    }
}

/// The kind of the JSON notification `doc`, by its `method` member.
pub fn notification_kind(doc: &[u8]) -> (r: NotificationKind)
    ensures
        r == kind_of_method(json_str_member(doc@, "method"@)),
{
    kind_for_method(&str_member(doc, "method"))
}

/// The kind of a notification whose `method` member is `method`.
pub fn kind_for_method(method: &Option<String>) -> (r: NotificationKind)
    ensures
        r == kind_of_method(
            match method {
                Some(m) => Some(m@),
                None => None,
            },
        ),
{
    match method {
        None => NotificationKind::NoMethod,
        Some(m) => {
            if str_eq(m.as_str(), "notifications/tools/list_changed") {
                NotificationKind::ToolsListChanged
            } else if str_eq(m.as_str(), "notifications/progress") {
                NotificationKind::Progress
            } else {
                NotificationKind::Other
            }
        },
    }
}

/// The action a notification of kind `kind` from `server` turns into: a
/// tool-list refresh, or a progress update when its parameters were read.
pub fn notification_action(server: ServerId, kind: NotificationKind, report: Option<ProgressReport>) -> (r: Option<Action>)
    ensures
        match kind {
            NotificationKind::ToolsListChanged => r matches Some(Action::McpToolsRefreshed(s)) && s == server,
            NotificationKind::Progress => match report {
                Some(p) => r == Some(
                    Action::McpProgress {
                        server: server,
                        progress_token: p.progress_token,
                        progress: p.progress,
                        total: p.total,
                        message: p.message,
                    },
                ),
                None => r is None,
            },
            _ => r is None,
        },
{
    match kind {
        NotificationKind::ToolsListChanged => Some(Action::McpToolsRefreshed(server)),
        NotificationKind::Progress => match report {
            Some(p) => Some(
                Action::McpProgress {
                    server,
                    progress_token: p.progress_token,
                    progress: p.progress,
                    total: p.total,
                    message: p.message,
                },
            ),
            None => None,
        },
        _ => None,
    }
}

// ---------------------------------------------------------------------------
// Coalescing
// ---------------------------------------------------------------------------

/// Buffered actions, one per key: a progress report is keyed by its server
/// and token, so a later report replaces an earlier one; any other action
/// gets a key of its own.
#[derive(Debug)]
pub struct NotificationCoalescer {
    buffer: Vec<((String, String), Action)>,
}

/// The key an action is buffered under when `len` actions are buffered.
pub open spec fn coalesce_key(action: Action, len: nat) -> (Seq<char>, Seq<char>) {
    match action {
        Action::McpProgress { server, progress_token, .. } => (server@.key, progress_token@),
        _ => ("user"@, "__other_"@ + decimal_digits(len)),
    }
}

/// No key occurs twice.
pub open spec fn keys_distinct(entries: Seq<((Seq<char>, Seq<char>), Action)>) -> bool {
    forall|i: int, j: int| 0 <= i < entries.len() && 0 <= j < entries.len() && i != j ==> entries[i].0 != entries[j].0
}

/// The buffer after `action` is pushed: it replaces the entry with the same
/// key in place, or is appended.
pub open spec fn pushed(entries: Seq<((Seq<char>, Seq<char>), Action)>, action: Action) -> Seq<
    ((Seq<char>, Seq<char>), Action),
> {
    let k = coalesce_key(action, entries.len());
    if exists|i: int| 0 <= i < entries.len() && entries[i].0 == k {
        let i = choose|i: int| 0 <= i < entries.len() && entries[i].0 == k;
        entries.update(i, (k, action))
    } else {
        entries.push((k, action))
    }
}

impl View for NotificationCoalescer {
    type V = Seq<((Seq<char>, Seq<char>), Action)>;

    closed spec fn view(&self) -> Seq<((Seq<char>, Seq<char>), Action)> {
        self.buffer@.map_values(|e: ((String, String), Action)| ((e.0.0@, e.0.1@), e.1))
    }
}

impl NotificationCoalescer {
    #[verifier::type_invariant]
    closed spec fn inv(&self) -> bool {
        keys_distinct(self@)
    }

    /// An empty buffer.
    pub fn new() -> (r: Self)
        ensures
            r@.len() == 0,
    {
        let r = NotificationCoalescer { buffer: Vec::new() };
        assert(r@ =~= Seq::<((Seq<char>, Seq<char>), Action)>::empty());
        r
    }

    /// The key `action` is buffered under.
    fn key_for(&self, action: &Action) -> (r: (String, String))
        ensures
            (r.0@, r.1@) == coalesce_key(*action, self@.len()),
    {
        match action {
            Action::McpProgress { server, progress_token, .. } => (owned(server.key()), progress_token.clone()),
            _ => {
                let mut t = owned("__other_");
                push_decimal(&mut t, self.buffer.len());
                (owned("user"), t)
            },
        }
    }

    /// Buffers an action; a progress report replaces the buffered report
    /// with the same server and token.
    pub fn push(&mut self, action: Action)
        ensures
            final(self)@ == pushed(old(self)@, action),
    {
        proof {
            use_type_invariant(&*self);
            lemma_pushed_keys_distinct(self@, action);
        }
        let key = self.key_for(&action);
        let ghost k = (key.0@, key.1@);
        let ghost before = self@;
        let mut buf: Vec<((String, String), Action)> = Vec::new();
        std::mem::swap(&mut buf, &mut self.buffer);
        let mut i: usize = 0;
        while i < buf.len()
            invariant
                i <= buf.len(),
                buf@.map_values(|e: ((String, String), Action)| ((e.0.0@, e.0.1@), e.1)) == before,
                keys_distinct(before),
                k == coalesce_key(action, before.len()),
                k == (key.0@, key.1@),
                before == old(self)@,
                forall|j: int| 0 <= j < i ==> before[j].0 != k,
            decreases buf.len() - i,
        {
            assert(before[i as int].0 == (buf@[i as int].0.0@, buf@[i as int].0.1@));
            let same_server = str_eq(buf[i].0.0.as_str(), key.0.as_str());
            let same_token = str_eq(buf[i].0.1.as_str(), key.1.as_str());
            if same_server && same_token {
                proof {
                    assert(buf@[i as int].0.0@ == k.0);
                    assert(buf@[i as int].0.1@ == k.1);
                    assert(before[i as int].0 == k);
                    let c = choose|j: int| 0 <= j < before.len() && before[j].0 == k;
                    assert(c == i);
                    assert(pushed(before, action) == before.update(i as int, (k, action)));
                }
                buf.set(i, (key, action));
                assert(buf@.map_values(|e: ((String, String), Action)| ((e.0.0@, e.0.1@), e.1)) =~= before.update(
                    i as int,
                    (k, action),
                ));
                self.buffer = buf;
                return;
            }
            i = i + 1;
        }
        buf.push((key, action));
        assert(buf@.map_values(|e: ((String, String), Action)| ((e.0.0@, e.0.1@), e.1)) =~= before.push((k, action)));
        self.buffer = buf;
    }

    /// Takes every buffered action, in buffer order, leaving the buffer empty.
    pub fn drain(&mut self) -> (r: Vec<Action>)
        ensures
            r@ == old(self)@.map_values(|e: ((Seq<char>, Seq<char>), Action)| e.1),
            final(self)@.len() == 0,
    {
        let mut taken: Vec<((String, String), Action)> = Vec::new();
        std::mem::swap(&mut taken, &mut self.buffer);
        assert(self@ =~= Seq::<((Seq<char>, Seq<char>), Action)>::empty());
        let ghost all = taken@;
        let mut out: Vec<Action> = Vec::new();
        while taken.len() > 0
            invariant
                out@ + taken@.map_values(|e: ((String, String), Action)| e.1) == all.map_values(
                    |e: ((String, String), Action)| e.1,
                ),
            decreases taken.len(),
        {
            let ghost before = taken@;
            let e = taken.remove(0);
            let ghost prev = out@;
            out.push(e.1);
            proof {
                assert(before.map_values(|e: ((String, String), Action)| e.1) =~= seq![e.1]
                    + taken@.map_values(|e: ((String, String), Action)| e.1));
                assert(out@ + taken@.map_values(|e: ((String, String), Action)| e.1) =~= prev
                    + before.map_values(|e: ((String, String), Action)| e.1));
            }
        }
        assert(out@ =~= all.map_values(|e: ((String, String), Action)| e.1));
        assert(old(self)@ =~= all.map_values(|e: ((String, String), Action)| ((e.0.0@, e.0.1@), e.1)));
        assert(out@ =~= old(self)@.map_values(|e: ((Seq<char>, Seq<char>), Action)| e.1));
        out
    }
}

impl Default for NotificationCoalescer {
    fn default() -> (r: Self)
        ensures
            r@.len() == 0,
    {
        Self::new()
    }
}

/// Pushing keeps the keys distinct.
pub proof fn lemma_pushed_keys_distinct(entries: Seq<((Seq<char>, Seq<char>), Action)>, action: Action)
    requires
        keys_distinct(entries),
    ensures
        keys_distinct(pushed(entries, action)),
        exists|i: int|
            0 <= i < pushed(entries, action).len() && pushed(entries, action)[i] == (
                coalesce_key(action, entries.len()),
                action,
            ),
{
    let k = coalesce_key(action, entries.len());
    if exists|i: int| 0 <= i < entries.len() && entries[i].0 == k {
        let i = choose|i: int| 0 <= i < entries.len() && entries[i].0 == k;
        assert(pushed(entries, action)[i] == (k, action));
    } else {
        assert(pushed(entries, action)[entries.len() as int] == (k, action));
    }
}

/// Only the latest progress report per server and token is kept: a second
/// report with the same server and token replaces the first in place.
pub proof fn lemma_latest_progress_wins(
    entries: Seq<((Seq<char>, Seq<char>), Action)>,
    first: Action,
    second: Action,
)
    requires
        keys_distinct(entries),
        first is McpProgress,
        second is McpProgress,
        coalesce_key(first, 0) == coalesce_key(second, 0),
    ensures
        pushed(pushed(entries, first), second).len() == pushed(entries, first).len(),
        keys_distinct(pushed(pushed(entries, first), second)),
        forall|i: int|
            0 <= i < pushed(pushed(entries, first), second).len() && pushed(pushed(entries, first), second)[i].0
                == coalesce_key(second, 0) ==> pushed(pushed(entries, first), second)[i].1 == second,
        exists|i: int|
            0 <= i < pushed(pushed(entries, first), second).len() && pushed(pushed(entries, first), second)[i]
                == (coalesce_key(second, 0), second),
{
    let e1 = pushed(entries, first);
    lemma_pushed_keys_distinct(entries, first);
    lemma_pushed_keys_distinct(e1, second);
    let k = coalesce_key(second, e1.len());
    assert(k == coalesce_key(first, entries.len()));
    let w = choose|i: int| 0 <= i < e1.len() && e1[i] == (coalesce_key(first, entries.len()), first);
    assert(e1[w].0 == k);
    let c = choose|i: int| 0 <= i < e1.len() && e1[i].0 == k;
    let e2 = pushed(e1, second);
    assert(e2 == e1.update(c, (k, second)));
}

} // verus!
