//! The application state machine: what each key and each event does to the
//! state of the terminal client.

use vstd::prelude::*;

use crate::auth::session::AuthSession;
use crate::mcp::types::{
    display_name_of, ActiveTask, InputSchema, ServerCaps, ServerId, ToolArgs, ToolCallRequest,
    ToolEntry, ToolResult,
};
use crate::text::{contains_seq, lowercase_of, owned, pop_char, push_char, append, str_contains, str_eq, to_lowercase};
use crate::ui::result_view::{other_tab, saturating_add_u16, saturating_sub_u16, ResultState, ResultTab};
use crate::ui::tool_form::{
    assemble_args, assembled, built_form, edited, field_for, is_permutation, lists, missing_names,
    next_selection, prev_selection, required_names, toggled, visible_indices, FormField, FormState,
};

verus! {

/// Connection state of one server, as the status bar shows it.
#[derive(Debug, Clone, Copy, PartialEq, Eq, Structural)]
pub enum ConnectionState {
    Disconnected,
    Connecting,
    Connected,
    Error,
}

/// What typed characters are taken as.
#[derive(Debug, Clone, Copy, PartialEq, Eq, Structural)]
pub enum InputMode {
    Normal,
    Filter,
    FormEdit,
    Login,
}

/// The pane that has the focus.
#[derive(Debug, Clone, Copy, PartialEq, Eq, Structural)]
pub enum PanelFocus {
    ToolList,
    Detail,
    Form,
    Result,
}

// ---------------------------------------------------------------------------
// Connection states by server key
// ---------------------------------------------------------------------------

/// The connection state recorded for each server key.
#[derive(Debug)]
pub struct ServerStates {
    entries: Vec<(String, ConnectionState)>,
}

/// The state recorded for `key`: the first entry with that key.
pub open spec fn state_lookup(entries: Seq<(Seq<char>, ConnectionState)>, key: Seq<char>) -> Option<
    ConnectionState,
>
    decreases entries.len(),
{
    if entries.len() == 0 {
        None
    } else if entries[0].0 == key {
        Some(entries[0].1)
    } else {
        state_lookup(entries.drop_first(), key)
    }
}

impl View for ServerStates {
    type V = Seq<(Seq<char>, ConnectionState)>;

    closed spec fn view(&self) -> Seq<(Seq<char>, ConnectionState)> {
        self.entries@.map_values(|e: (String, ConnectionState)| (e.0@, e.1))
    }
}

/// `new` records `state` for `key` and agrees with `old` on every other key.
pub open spec fn state_set(
    old: Seq<(Seq<char>, ConnectionState)>,
    new: Seq<(Seq<char>, ConnectionState)>,
    key: Seq<char>,
    state: ConnectionState,
) -> bool {
    forall|k: Seq<char>| #[trigger] state_lookup(new, k) == (if k == key {
        Some(state)
    } else {
        state_lookup(old, k)
    })
}

proof fn lemma_state_lookup_skip(entries: Seq<(Seq<char>, ConnectionState)>, key: Seq<char>, i: int)
    requires
        0 <= i < entries.len(),
        entries[i].0 != key,
    ensures
        state_lookup(entries.skip(i), key) == state_lookup(entries.skip(i + 1), key),
{
    assert(entries.skip(i).drop_first() =~= entries.skip(i + 1));
}

proof fn lemma_state_lookup_push(
    entries: Seq<(Seq<char>, ConnectionState)>,
    e: (Seq<char>, ConnectionState),
    key: Seq<char>,
)
    ensures
        state_lookup(entries.push(e), key) == (if state_lookup(entries, key) is Some {
            state_lookup(entries, key)
        } else if e.0 == key {
            Some(e.1)
        } else {
            None
        }),
    decreases entries.len(),
{
    if entries.len() > 0 {
        assert(entries.push(e).drop_first() =~= entries.drop_first().push(e));
        lemma_state_lookup_push(entries.drop_first(), e, key);
    } else {
        assert(entries.push(e).drop_first() =~= Seq::<(Seq<char>, ConnectionState)>::empty());
        assert(state_lookup(Seq::<(Seq<char>, ConnectionState)>::empty(), key) is None);
    }
}

proof fn lemma_state_lookup_update(
    entries: Seq<(Seq<char>, ConnectionState)>,
    i: int,
    st: ConnectionState,
    key: Seq<char>,
)
    requires
        0 <= i < entries.len(),
        forall|j: int| 0 <= j < i ==> entries[j].0 != entries[i].0,
    ensures
        state_lookup(entries.update(i, (entries[i].0, st)), key) == (if key == entries[i].0 {
            Some(st)
        } else {
            state_lookup(entries, key)
        }),
    decreases entries.len(),
{
    let u = entries.update(i, (entries[i].0, st));
    if i == 0 {
        assert(u.drop_first() =~= entries.drop_first());
    } else {
        assert(u.drop_first() =~= entries.drop_first().update(i - 1, (entries[i].0, st)));
        lemma_state_lookup_update(entries.drop_first(), i - 1, st, key);
    }
}

impl ServerStates {
    /// No server has a recorded state.
    pub fn new() -> (r: Self)
        ensures
            forall|k: Seq<char>| #[trigger] state_lookup(r@, k) is None,
    {
        let r = ServerStates { entries: Vec::new() };
        assert(r@ =~= Seq::<(Seq<char>, ConnectionState)>::empty());
        r
    }

    fn position(&self, key: &str) -> (r: Option<usize>)
        ensures
            r matches Some(i) ==> i < self@.len() && self@[i as int].0 == key@ && forall|j: int|
                0 <= j < i ==> self@[j].0 != key@,
            r matches Some(i) ==> state_lookup(self@, key@) == Some(self@[i as int].1),
            r is None ==> state_lookup(self@, key@) is None,
    {
        let mut i: usize = 0;
        assert(self@.skip(0) =~= self@);
        while i < self.entries.len()
            invariant
                i <= self.entries.len(),
                self@.len() == self.entries.len(),
                forall|j: int| 0 <= j < i ==> self@[j].0 != key@,
                state_lookup(self@, key@) == state_lookup(self@.skip(i as int), key@),
            decreases self.entries.len() - i,
        {
            assert(self@[i as int].0 == self.entries@[i as int].0@);
            if str_eq(self.entries[i].0.as_str(), key) {
                return Some(i);
            }
            proof {
                lemma_state_lookup_skip(self@, key@, i as int);
            }
            i = i + 1;
        }
        None
    }

    /// Records `state` for `key`.
    pub fn set(&mut self, key: &str, state: ConnectionState)
        ensures
            state_set(old(self)@, final(self)@, key@, state),
    {
        match self.position(key) {
            Some(i) => {
                let ghost before = self@;
                let k = self.entries[i].0.clone();
                self.entries.set(i, (k, state));
                proof {
                    assert(self@ =~= before.update(i as int, (before[i as int].0, state)));
                    assert forall|k: Seq<char>| #[trigger] state_lookup(self@, k) == (if k == key@ {
                        Some(state)
                    } else {
                        state_lookup(before, k)
                    }) by {
                        lemma_state_lookup_update(before, i as int, state, k);
                    }
                }
            },
            None => {
                let ghost before = self@;
                self.entries.push((owned(key), state));
                proof {
                    assert(self@ =~= before.push((key@, state)));
                    assert forall|k: Seq<char>| #[trigger] state_lookup(self@, k) == (if k == key@ {
                        Some(state)
                    } else {
                        state_lookup(before, k)
                    }) by {
                        lemma_state_lookup_push(before, (key@, state), k);
                    }
                }
            },
        }
    }

    /// The state recorded for `key`.
    pub fn get(&self, key: &str) -> (r: Option<ConnectionState>)
        ensures
            r == state_lookup(self@, key@),
    {
        match self.position(key) {
            Some(i) => {
                assert(self@[i as int].1 == self.entries@[i as int].1);
                Some(self.entries[i].1)
            },
            None => None,
        }
    }
}

// ---------------------------------------------------------------------------
// Application state
// ---------------------------------------------------------------------------

/// The whole state of the terminal client.
#[derive(Debug)]
pub struct App {
    pub should_quit: bool,
    pub input_mode: InputMode,
    pub auth_session: Option<AuthSession>,
    pub server_state: ServerStates,
    pub server_caps: Vec<(ServerId, ServerCaps)>,
    /// Every tool of every connected server.
    pub tools: Vec<ToolEntry>,
    /// The highlighted row of the (filtered) tool list.
    pub selected: Option<usize>,
    pub filter_text: String,
    /// Positions in `tools` of the tools the filter lets through, in order.
    pub filtered_indices: Vec<usize>,
    pub focus: PanelFocus,
    /// The parameter form, while one is open.
    pub form_state: Option<FormState>,
    pub result_state: Option<ResultState>,
    pub active_task: Option<ActiveTask>,
    /// Set when the user asks for the selected tool to run.
    pub execute_requested: bool,
    /// Set when the user asks for the servers to be reconnected.
    pub reconnect_requested: bool,
    /// Set when the user asks to log out (the client then quits).
    pub logout_requested: bool,
}

/// A tool passes the filter `query` (already lower-cased) when the query is
/// empty or occurs in the lower-cased name or display name.
pub open spec fn passes_filter(name_lower: Seq<char>, display_lower: Seq<char>, query: Seq<char>) -> bool {
    query.len() == 0 || contains_seq(name_lower, query) || contains_seq(display_lower, query)
}

/// An entry passes the filter text `filter`: every entry passes an empty
/// filter; otherwise the lower-cased filter must occur in the lower-cased
/// name or display name.
pub open spec fn entry_matches(e: ToolEntry, filter: Seq<char>) -> bool {
    filter.len() == 0 || passes_filter(
        lowercase_of(e.tool.name@),
        lowercase_of(display_name_of(e.tool)),
        lowercase_of(filter),
    )
}

/// The positions of the entries that pass the filter text, in order.
pub open spec fn matching_indices(tools: Seq<ToolEntry>, query: Seq<char>) -> Seq<usize>
    decreases tools.len(),
{
    if tools.len() == 0 {
        Seq::empty()
    } else {
        let rest = matching_indices(tools.drop_last(), query);
        if entry_matches(tools.last(), query) {
            rest.push((tools.len() - 1) as usize)
        } else {
            rest
        }
    }
}

/// The selection kept after the list changed to `n` rows: none for an empty
/// list, the last row when the old one is past the end, the first row when
/// nothing was selected.
pub open spec fn clamped(sel: Option<usize>, n: int) -> Option<usize> {
    if n == 0 {
        None
    } else {
        match sel {
            Some(s) => if s >= n {
                Some((n - 1) as usize)
            } else {
                Some(s)
            },
            None => Some(0usize),
        }
    }
}

/// The row below, wrapping to the top.
pub open spec fn next_row(sel: Option<usize>, n: int) -> usize {
    match sel {
        Some(i) => if i + 1 < n {
            (i + 1) as usize
        } else {
            0usize
        },
        None => 0usize,
    }
}

/// The row above, wrapping to the bottom.
pub open spec fn prev_row(sel: Option<usize>, n: int) -> usize {
    match sel {
        Some(i) => if i == 0 {
            (n - 1) as usize
        } else {
            (i - 1) as usize
        },
        None => 0usize,
    }
}

/// `new` is `old` with the filter text `text` applied: the filtered list
/// recomputed and the selection clamped to it.
pub open spec fn refiltered(old: App, new: App, text: Seq<char>) -> bool {
    &&& new.filter_text@ == text
    &&& new.filtered_indices@ == matching_indices(old.tools@, text)
    &&& new.selected == clamped(old.selected, new.filtered_indices@.len() as int)
    &&& new == (App {
        filter_text: new.filter_text,
        filtered_indices: new.filtered_indices,
        selected: new.selected,
        ..old
    })
}

/// `a` with the form, the result and the task cleared.
pub open spec fn right_panel_cleared(a: App) -> App {
    App { form_state: None, result_state: None, active_task: None, ..a }
}

/// `new` is `old` with row `row` selected; the right panel is cleared when
/// the selection changed.
pub open spec fn moved_to(old: App, new: App, row: usize) -> bool {
    if old.selected == Some(row) {
        new == old
    } else {
        new == right_panel_cleared(App { selected: Some(row), ..old })
    }
}

/// The position in `tools` of the selected tool, if a tool is selected.
pub open spec fn selected_index(a: App) -> Option<int> {
    match a.selected {
        Some(s) => if s < a.filtered_indices@.len() && a.filtered_indices@[s as int] < a.tools@.len() {
            Some(a.filtered_indices@[s as int] as int)
        } else {
            None
        },
        None => None,
    }
}

/// The list and its selection agree with the tools and the filter text.
pub open spec fn list_consistent(a: App) -> bool {
    &&& a.filtered_indices@ == matching_indices(a.tools@, a.filter_text@)
    &&& match a.selected {
        Some(s) => s < a.filtered_indices@.len(),
        None => a.filtered_indices@.len() == 0,
    }
}

/// Refiltering keeps the selection as close to where it was as the new list
/// allows: no row when nothing matches; otherwise the same row when it still
/// exists, the last row when it now lies beyond the end, and the first row
/// when nothing was selected.
pub proof fn lemma_refilter_selection_nearest(old: App, new: App, text: Seq<char>)
    requires
        refiltered(old, new, text),
    ensures
        new.filtered_indices@.len() == 0 ==> new.selected is None,
        new.filtered_indices@.len() > 0 ==> (new.selected matches Some(t) && t < new.filtered_indices@.len()
            && match old.selected {
            Some(s) => t as int == vstd::math::min(s as int, new.filtered_indices@.len() - 1),
            None => t == 0,
        }),
{
}

/// Every position `matching_indices` gives is a position of `tools`, in
/// increasing order.
pub proof fn lemma_matching_indices_ordered(tools: Seq<ToolEntry>, query: Seq<char>)
    requires
        tools.len() <= usize::MAX,
    ensures
        matching_indices(tools, query).len() <= tools.len(),
        forall|k: int|
            0 <= k < matching_indices(tools, query).len() ==> #[trigger] matching_indices(tools, query)[k]
                < tools.len(),
        forall|k: int, l: int|
            0 <= k < l < matching_indices(tools, query).len() ==> matching_indices(tools, query)[k]
                < matching_indices(tools, query)[l],
    decreases tools.len(),
{
    if tools.len() > 0 {
        lemma_matching_indices_ordered(tools.drop_last(), query);
        let rest = matching_indices(tools.drop_last(), query);
        if entry_matches(tools.last(), query) {
            let m = rest.push((tools.len() - 1) as usize);
            assert(m[rest.len() as int] == tools.len() - 1);
            assert forall|k: int, l: int| 0 <= k < l < m.len() implies m[k] < m[l] by {
                if l == rest.len() {
                    assert(m[k] == rest[k]);
                } else {
                    assert(m[k] == rest[k] && m[l] == rest[l]);
                }
            }
            assert forall|k: int| 0 <= k < m.len() implies #[trigger] m[k] < tools.len() by {
                if k < rest.len() {
                    assert(m[k] == rest[k]);
                }
            }
        }
    }
}

/// A tool appears in the filtered list exactly when it passes the filter.
pub proof fn lemma_matching_indices_complete(tools: Seq<ToolEntry>, query: Seq<char>, i: int)
    requires
        0 <= i < tools.len(),
        tools.len() <= usize::MAX,
    ensures
        matching_indices(tools, query).contains(i as usize) <==> entry_matches(tools[i], query),
    decreases tools.len(),
{
    lemma_matching_indices_ordered(tools.drop_last(), query);
    let rest = matching_indices(tools.drop_last(), query);
    if i < tools.len() - 1 {
        lemma_matching_indices_complete(tools.drop_last(), query, i);
        if entry_matches(tools.last(), query) {
            let m = rest.push((tools.len() - 1) as usize);
            if m.contains(i as usize) {
                let k = choose|k: int| 0 <= k < m.len() && m[k] == i as usize;
                if k == rest.len() {
                } else {
                    assert(rest[k] == i as usize);
                }
            }
            if rest.contains(i as usize) {
                let k = choose|k: int| 0 <= k < rest.len() && rest[k] == i as usize;
                assert(m[k] == i as usize);
            }
        }
    } else {
        assert(!rest.contains(i as usize)) by {
            if rest.contains(i as usize) {
                let k = choose|k: int| 0 <= k < rest.len() && rest[k] == i as usize;
                assert(rest[k] < tools.drop_last().len());
            }
        }
        if entry_matches(tools.last(), query) {
            assert(rest.push((tools.len() - 1) as usize)[rest.len() as int] == i as usize);
        }
    }
}

/// With an empty filter every tool is listed, in order.
pub proof fn lemma_empty_filter_lists_all(tools: Seq<ToolEntry>)
    requires
        tools.len() <= usize::MAX,
    ensures
        matching_indices(tools, Seq::empty()).len() == tools.len(),
        forall|k: int| 0 <= k < tools.len() ==> #[trigger] matching_indices(tools, Seq::empty())[k] == k,
    decreases tools.len(),
{
    if tools.len() > 0 {
        lemma_empty_filter_lists_all(tools.drop_last());
    }
}

/// Whether an entry passes the filter `query` (already lower-cased).
pub fn tool_passes_filter(name_lower: &str, display_lower: &str, query: &str) -> (r: bool)
    ensures
        r == passes_filter(name_lower@, display_lower@, query@),
{
    query.is_empty() || str_contains(name_lower, query) || str_contains(display_lower, query)
}

impl App {
    /// The state at start-up: nothing loaded, nobody signed in, the tool
    /// list focused.
    pub fn new() -> (r: Self)
        ensures
            !r.should_quit,
            r.input_mode == InputMode::Normal,
            r.auth_session is None,
            forall|k: Seq<char>| #[trigger] state_lookup(r.server_state@, k) is None,
            r.server_caps@.len() == 0,
            r.tools@.len() == 0,
            r.selected is None,
            r.filter_text@.len() == 0,
            r.filtered_indices@.len() == 0,
            r.focus == PanelFocus::ToolList,
            r.form_state is None,
            r.result_state is None,
            r.active_task is None,
            !r.execute_requested,
            !r.reconnect_requested,
            !r.logout_requested,
            list_consistent(r),
    {
        let r = App {
            should_quit: false,
            input_mode: InputMode::Normal,
            auth_session: None,
            server_state: ServerStates::new(),
            server_caps: Vec::new(),
            tools: Vec::new(),
            selected: None,
            filter_text: String::new(),
            filtered_indices: Vec::new(),
            focus: PanelFocus::ToolList,
            form_state: None,
            result_state: None,
            active_task: None,
            execute_requested: false,
            reconnect_requested: false,
            logout_requested: false,
        };
        assert(r.filtered_indices@ =~= matching_indices(r.tools@, r.filter_text@));
        r
    }

    /// Rebuilds the filtered list from the filter text and clamps the
    /// selection to it.
    pub fn apply_filter(&mut self)
        ensures
            refiltered(*old(self), *final(self), old(self).filter_text@),
    {
        let show_all = self.filter_text.as_str().is_empty();
        let query = to_lowercase(self.filter_text.as_str());
        let mut indices: Vec<usize> = Vec::new();
        let mut i: usize = 0;
        while i < self.tools.len()
            invariant
                i <= self.tools.len(),
                show_all == (self.filter_text@.len() == 0),
                query@ == lowercase_of(self.filter_text@),
                indices@ == matching_indices(self.tools@.take(i as int), self.filter_text@),
            decreases self.tools.len() - i,
        {
            let ghost t = self.tools@.take(i + 1);
            assert(t.drop_last() =~= self.tools@.take(i as int));
            assert(t.last() == self.tools@[i as int]);
            let entry = &self.tools[i];
            let name_lower = to_lowercase(entry.tool.name.as_str());
            let display_lower = to_lowercase(entry.display_name());
            if show_all || tool_passes_filter(name_lower.as_str(), display_lower.as_str(), query.as_str()) {
                indices.push(i);
            }
            i = i + 1;
        }
        assert(self.tools@.take(self.tools@.len() as int) =~= self.tools@);
        self.filtered_indices = indices;
        let n = self.filtered_indices.len();
        if n == 0 {
            self.selected = None;
        } else {
            match self.selected {
                Some(s) => {
                    if s >= n {
                        self.selected = Some(n - 1);
                    }
                },
                None => {
                    self.selected = Some(0);
                },
            }
        }
    }

    /// Replaces the tool list and rebuilds the filtered list.
    pub fn set_tools(&mut self, tools: Vec<ToolEntry>)
        ensures
            final(self).tools == tools,
            refiltered(App { tools: tools, ..*old(self) }, *final(self), old(self).filter_text@),
    {
        self.tools = tools;
        self.apply_filter();
    }

    /// Number of tools the filter lets through.
    pub fn visible_tool_count(&self) -> (r: usize)
        ensures
            r == self.filtered_indices@.len(),
    {
        self.filtered_indices.len()
    }

    /// The selected tool, if a row is selected.
    pub fn selected_tool(&self) -> (r: Option<&ToolEntry>)
        ensures
            match selected_index(*self) {
                Some(i) => r matches Some(e) && *e == self.tools@[i],
                None => r is None,
            },
    {
        match self.selected {
            Some(s) => {
                if s < self.filtered_indices.len() {
                    let idx = self.filtered_indices[s];
                    if idx < self.tools.len() {
                        return Some(&self.tools[idx]);
                    }
                }
                None
            },
            None => None,
        }
    }

    /// Clears the form, the result and the task.
    fn clear_right_panel(&mut self)
        ensures
            *final(self) == right_panel_cleared(*old(self)),
    {
        self.form_state = None;
        self.result_state = None;
        self.active_task = None;
    }

    /// Moves the selection down the filtered list, wrapping to the top.
    fn select_next(&mut self)
        ensures
            old(self).filtered_indices@.len() == 0 ==> *final(self) == *old(self),
            old(self).filtered_indices@.len() > 0 ==> moved_to(
                *old(self),
                *final(self),
                next_row(old(self).selected, old(self).filtered_indices@.len() as int),
            ),
    {
        let n = self.filtered_indices.len();
        if n == 0 {
            return;
        }
        let next = match self.selected {
            Some(i) => if i < n - 1 {
                i + 1
            } else {
                0
            },
            None => 0,
        };
        let changed = match self.selected {
            Some(i) => i != next,
            None => true,
        };
        self.selected = Some(next);
        if changed {
            self.clear_right_panel();
        }
    }

    /// Moves the selection up the filtered list, wrapping to the bottom.
    fn select_prev(&mut self)
        ensures
            old(self).filtered_indices@.len() == 0 ==> *final(self) == *old(self),
            old(self).filtered_indices@.len() > 0 ==> moved_to(
                *old(self),
                *final(self),
                prev_row(old(self).selected, old(self).filtered_indices@.len() as int),
            ),
    {
        let n = self.filtered_indices.len();
        if n == 0 {
            return;
        }
        let prev = match self.selected {
            Some(i) => if i == 0 {
                n - 1
            } else {
                i - 1
            },
            None => 0,
        };
        let changed = match self.selected {
            Some(i) => i != prev,
            None => true,
        };
        self.selected = Some(prev);
        if changed {
            self.clear_right_panel();
        }
    }
}


// ---------------------------------------------------------------------------
// Actions
// ---------------------------------------------------------------------------

/// Everything that can happen to the client: keys, server events, results.
/// Progress figures are the bit patterns of the reported `f64` values.
#[derive(Debug)]
pub enum Action {
    Tick,
    Render,
    Quit,
    AuthStart,
    AuthSuccess(AuthSession),
    AuthFailure(String),
    McpConnecting(ServerId),
    McpConnected(ServerId),
    McpDisconnected(ServerId),
    McpError(ServerId, String),
    McpUnauthorized(ServerId),
    McpToolsRefreshed(ServerId),
    McpProgress {
        server: ServerId,
        progress_token: String,
        progress: u64,
        total: Option<u64>,
        message: Option<String>,
    },
    McpToolResult(ToolResult),
    McpTaskCreated(ActiveTask),
    McpTaskUpdate(ActiveTask),
    ToolSelected(usize),
    ToolExecute,
    ToolCancel,
    FormFieldNext,
    FormFieldPrev,
    FormFieldEdit,
    FormFieldToggle,
    FormEnumNext,
    FormEnumPrev,
    FormInputChar(char),
    FormInputBackspace,
    FormSubmit,
    FormCancel,
    FocusNext,
    FocusPrev,
    ScrollUp,
    ScrollDown,
    FilterStart,
    FilterClear,
    FilterChar(char),
    FilterBackspace,
    Enter,
    Escape,
    ResultNextTab,
    PasteText(String),
    Reconnect,
    ToolsLoaded(Vec<ToolEntry>),
}

/// The pane Tab moves to.
pub open spec fn focus_after_next(f: PanelFocus, has_form: bool, has_result: bool) -> PanelFocus {
    match f {
        PanelFocus::ToolList => PanelFocus::Detail,
        PanelFocus::Detail => if has_form {
            PanelFocus::Form
        } else if has_result {
            PanelFocus::Result
        } else {
            PanelFocus::ToolList
        },
        PanelFocus::Form => if has_result {
            PanelFocus::Result
        } else {
            PanelFocus::ToolList
        },
        PanelFocus::Result => PanelFocus::ToolList,
    }
}

/// The pane Shift-Tab moves to.
pub open spec fn focus_after_prev(f: PanelFocus, has_form: bool, has_result: bool) -> PanelFocus {
    match f {
        PanelFocus::ToolList => if has_result {
            PanelFocus::Result
        } else if has_form {
            PanelFocus::Form
        } else {
            PanelFocus::Detail
        },
        PanelFocus::Detail => PanelFocus::ToolList,
        PanelFocus::Form => PanelFocus::Detail,
        PanelFocus::Result => if has_form {
            PanelFocus::Form
        } else {
            PanelFocus::Detail
        },
    }
}

/// `new` is `old` with `key` recorded as being in `state`.
pub open spec fn server_marked(old: App, new: App, key: Seq<char>, state: ConnectionState) -> bool {
    &&& state_set(old.server_state@, new.server_state@, key, state)
    &&& new == (App { server_state: new.server_state, ..old })
}

/// `new` is `old` with the open form edited by `f` (see `edited`); nothing
/// happens without a form.
pub open spec fn form_edited(old: App, new: App, f: spec_fn(FormField) -> Option<Seq<char>>) -> bool {
    match old.form_state {
        Some(fs) => {
            &&& new.form_state matches Some(g) && edited(fs, g, f)
            &&& new == (App { form_state: new.form_state, ..old })
        },
        None => new == old,
    }
}

/// A boolean field's value after a toggle; other fields keep theirs.
pub open spec fn toggle_edit() -> spec_fn(FormField) -> Option<Seq<char>> {
    |f: FormField|
        if f.field_type is Boolean {
            Some(toggled(f.value@))
        } else {
            None
        }
}

/// A field's value with one character appended.
pub open spec fn push_edit(c: char) -> spec_fn(FormField) -> Option<Seq<char>> {
    |f: FormField| Some(f.value@.push(c))
}

/// A field's value with its last character removed.
pub open spec fn pop_edit() -> spec_fn(FormField) -> Option<Seq<char>> {
    |f: FormField|
        if f.value@.len() > 0 {
            Some(f.value@.drop_last())
        } else {
            Some(f.value@)
        }
}

/// A field's value with a string appended.
pub open spec fn append_edit(text: Seq<char>) -> spec_fn(FormField) -> Option<Seq<char>> {
    |f: FormField| Some(f.value@ + text)
}

/// Progress reported for the active task replaces the previous figures.
pub open spec fn progressed(old: App, new: App, progress: u64, total: Option<u64>, message: Option<String>) -> bool {
    match old.active_task {
        Some(t) => new == (App {
            active_task: Some(ActiveTask { progress: Some(progress), total: total, message: message, ..t }),
            ..old
        }),
        None => new == old,
    }
}

/// A tool result replaces the result pane (keeping the tool name it showed),
/// ends the active task and takes the focus.
pub open spec fn result_shown(old: App, new: App, result: ToolResult) -> bool {
    new == (App {
        result_state: Some(
            ResultState {
                result: Some(result),
                scroll_offset: 0,
                error_display: None,
                active_tab: crate::ui::result_view::ResultTab::Structured,
                tool_name: match old.result_state {
                    Some(rs) => rs.tool_name,
                    None => None,
                },
            },
        ),
        active_task: None,
        focus: PanelFocus::Result,
        ..old
    })
}

/// Down (or `j`): the next tool, the result scrolled, or the next field,
/// by the focused pane.
pub open spec fn scrolled_down(old: App, new: App) -> bool {
    match old.focus {
        PanelFocus::ToolList => if old.filtered_indices@.len() == 0 {
            new == old
        } else {
            moved_to(old, new, next_row(old.selected, old.filtered_indices@.len() as int))
        },
        PanelFocus::Result => match old.result_state {
            Some(rs) => new == (App {
                result_state: Some(ResultState { scroll_offset: saturating_add_u16(rs.scroll_offset, 1), ..rs }),
                ..old
            }),
            None => new == old,
        },
        PanelFocus::Form => match old.form_state {
            Some(f) => new == (App {
                form_state: Some(
                    FormState {
                        selected_field: next_selection(
                            f.selected_field as int,
                            visible_indices(f.fields@).len() as int,
                        ) as usize,
                        ..f
                    },
                ),
                ..old
            }),
            None => new == old,
        },
        PanelFocus::Detail => new == old,
    }
}

/// Up (or `k`): the previous tool, the result scrolled back, or the
/// previous field, by the focused pane.
pub open spec fn scrolled_up(old: App, new: App) -> bool {
    match old.focus {
        PanelFocus::ToolList => if old.filtered_indices@.len() == 0 {
            new == old
        } else {
            moved_to(old, new, prev_row(old.selected, old.filtered_indices@.len() as int))
        },
        PanelFocus::Result => match old.result_state {
            Some(rs) => new == (App {
                result_state: Some(ResultState { scroll_offset: saturating_sub_u16(rs.scroll_offset, 1), ..rs }),
                ..old
            }),
            None => new == old,
        },
        PanelFocus::Form => match old.form_state {
            Some(f) => new == (App {
                form_state: Some(
                    FormState {
                        selected_field: prev_selection(
                            f.selected_field as int,
                            visible_indices(f.fields@).len() as int,
                        ) as usize,
                        ..f
                    },
                ),
                ..old
            }),
            None => new == old,
        },
        PanelFocus::Detail => new == old,
    }
}

/// The result pane switches tab.
pub open spec fn tab_switched(old: App, new: App) -> bool {
    match old.result_state {
        Some(rs) => new == (App {
            result_state: Some(ResultState { active_tab: other_tab(rs.active_tab), scroll_offset: 0, ..rs }),
            ..old
        }),
        None => new == old,
    }
}

/// The result pane shows `tab` (see `ResultState::show_tab`).
pub open spec fn tab_shown(old: App, new: App, tab: ResultTab) -> bool {
    match old.result_state {
        Some(rs) => if rs.active_tab == tab {
            new == old
        } else {
            new == (App { result_state: Some(ResultState { active_tab: tab, scroll_offset: 0, ..rs }), ..old })
        },
        None => new == old,
    }
}

/// A character typed in normal mode, taken as a command.
pub open spec fn command_key(old: App, new: App, c: char) -> bool {
    if c == 'q' {
        new == (App { should_quit: true, ..old })
    } else if c == 'j' {
        scrolled_down(old, new)
    } else if c == 'k' {
        scrolled_up(old, new)
    } else if c == '/' {
        new == (App { input_mode: InputMode::Filter, focus: PanelFocus::ToolList, ..old })
    } else if c == ' ' {
        if old.focus == PanelFocus::Form {
            form_edited(old, new, toggle_edit())
        } else {
            new == old
        }
    } else if c == '1' {
        tab_shown(old, new, ResultTab::Structured)
    } else if c == '2' {
        tab_shown(old, new, ResultTab::Raw)
    } else if c == 'e' {
        if old.focus == PanelFocus::Form {
            new == (App { execute_requested: true, ..old })
        } else {
            new == old
        }
    } else if c == 'r' {
        new == (App { reconnect_requested: true, ..old })
    } else if c == 'L' {
        new == (App { logout_requested: true, should_quit: true, ..old })
    } else {
        new == old
    }
}

/// A typed character: filter text, field text or a command, by mode.
pub open spec fn char_handled(old: App, new: App, c: char) -> bool {
    match old.input_mode {
        InputMode::Filter => refiltered(old, new, old.filter_text@.push(c)),
        InputMode::FormEdit => form_edited(old, new, push_edit(c)),
        InputMode::Normal => command_key(old, new, c),
        InputMode::Login => new == old,
    }
}

/// Backspace: deletes from the filter text or the edited field.
pub open spec fn backspaced(old: App, new: App) -> bool {
    match old.input_mode {
        InputMode::Filter => refiltered(
            old,
            new,
            if old.filter_text@.len() > 0 {
                old.filter_text@.drop_last()
            } else {
                old.filter_text@
            },
        ),
        InputMode::FormEdit => form_edited(old, new, pop_edit()),
        _ => new == old,
    }
}

/// Pasted text goes to the filter or the edited field.
pub open spec fn pasted(old: App, new: App, text: Seq<char>) -> bool {
    match old.input_mode {
        InputMode::Filter => refiltered(old, new, old.filter_text@ + text),
        InputMode::FormEdit => form_edited(old, new, append_edit(text)),
        _ => new == old,
    }
}

/// The session injects `account_id`, so those names are hidden from forms.
pub open spec fn managed_list(m: Seq<String>, signed_in: bool) -> bool {
    if signed_in {
        m.len() == 1 && m[0]@ == "account_id"@
    } else {
        m.len() == 0
    }
}

/// A tool needs input when it has a required property that the session
/// does not fill in.
pub open spec fn needs_input(schema: InputSchema, signed_in: bool) -> bool {
    schema.properties matches Some(props) && exists|i: int|
        0 <= i < props@.len() && lists(required_names(schema), props@[i].name@) && !(signed_in
            && props@[i].name@ == "account_id"@)
}

/// `g` is the form the client opens for `e`.
pub open spec fn form_for_entry(g: FormState, e: ToolEntry, signed_in: bool) -> bool {
    exists|m: Seq<String>| managed_list(m, signed_in) && built_form(g, e.tool.name@, e.tool.input_schema, m)
}

/// Enter on the tool list or the detail pane: opens the form when the tool
/// needs input, otherwise asks for the tool to run.
pub open spec fn opened_or_requested(old: App, new: App) -> bool {
    match selected_index(old) {
        Some(i) => if needs_input(old.tools@[i].tool.input_schema, old.auth_session is Some) {
            &&& new.form_state matches Some(g) && form_for_entry(g, old.tools@[i], old.auth_session is Some)
            &&& new == (App { form_state: new.form_state, focus: PanelFocus::Form, ..old })
        } else {
            new == (App { execute_requested: true, ..old })
        },
        None => new == (App { execute_requested: true, ..old }),
    }
}

/// Leaving field editing: the field is no longer edited, the mode is normal.
pub open spec fn editing_stopped(old: App, new: App) -> bool {
    match old.form_state {
        Some(f) => new == (App {
            form_state: Some(FormState { editing: false, ..f }),
            input_mode: InputMode::Normal,
            ..old
        }),
        None => new == (App { input_mode: InputMode::Normal, ..old }),
    }
}

/// Enter, by mode and focus.
pub open spec fn entered(old: App, new: App) -> bool {
    match old.input_mode {
        InputMode::Filter => new == (App { input_mode: InputMode::Normal, ..old }),
        InputMode::FormEdit => editing_stopped(old, new),
        InputMode::Normal => match old.focus {
            PanelFocus::ToolList | PanelFocus::Detail => opened_or_requested(old, new),
            PanelFocus::Form => match old.form_state {
                Some(f) => if !f.editing && visible_indices(f.fields@).len() > 0 {
                    new == (App {
                        form_state: Some(FormState { editing: true, ..f }),
                        input_mode: InputMode::FormEdit,
                        ..old
                    })
                } else {
                    new == old
                },
                None => new == old,
            },
            PanelFocus::Result => new == old,
        },
        InputMode::Login => new == old,
    }
}

/// Escape, by mode and focus: clears the filter, stops editing, or closes
/// the focused pane.
pub open spec fn escaped(old: App, new: App) -> bool {
    match old.input_mode {
        InputMode::Filter => refiltered(App { input_mode: InputMode::Normal, ..old }, new, Seq::empty()),
        InputMode::FormEdit => editing_stopped(old, new),
        InputMode::Normal => match old.focus {
            PanelFocus::Result => new == (App {
                result_state: None,
                focus: if old.form_state is Some {
                    PanelFocus::Form
                } else {
                    PanelFocus::Detail
                },
                ..old
            }),
            PanelFocus::Form => new == (App { form_state: None, focus: PanelFocus::Detail, ..old }),
            PanelFocus::Detail => new == (App { focus: PanelFocus::ToolList, ..old }),
            PanelFocus::ToolList => new == old,
        },
        InputMode::Login => new == old,
    }
}

/// What an action does to the state.
pub open spec fn stepped(old: App, action: Action, new: App) -> bool {
    match action {
        Action::Quit => new == (App { should_quit: true, ..old }),
        Action::AuthSuccess(session) => new == (App {
            auth_session: Some(session),
            input_mode: InputMode::Normal,
            ..old
        }),
        Action::McpConnecting(server) => server_marked(old, new, server@.key, ConnectionState::Connecting),
        Action::McpConnected(server) => server_marked(old, new, server@.key, ConnectionState::Connected),
        Action::McpDisconnected(server) => server_marked(old, new, server@.key, ConnectionState::Disconnected),
        Action::McpError(server, _) => server_marked(old, new, server@.key, ConnectionState::Error),
        Action::McpProgress { progress, total, message, .. } => progressed(old, new, progress, total, message),
        Action::McpToolResult(result) => result_shown(old, new, result),
        Action::FormFieldToggle => form_edited(old, new, toggle_edit()),
        Action::FormInputChar(c) => form_edited(old, new, push_edit(c)),
        Action::FormInputBackspace => form_edited(old, new, pop_edit()),
        Action::ScrollUp => scrolled_up(old, new),
        Action::ScrollDown => scrolled_down(old, new),
        Action::FocusNext => new == (App {
            focus: focus_after_next(old.focus, old.form_state is Some, old.result_state is Some),
            ..old
        }),
        Action::FocusPrev => new == (App {
            focus: focus_after_prev(old.focus, old.form_state is Some, old.result_state is Some),
            ..old
        }),
        Action::FilterStart => new == (App { input_mode: InputMode::Filter, focus: PanelFocus::ToolList, ..old }),
        Action::FilterChar(c) => char_handled(old, new, c),
        Action::FilterBackspace => backspaced(old, new),
        Action::PasteText(text) => pasted(old, new, text@),
        Action::Enter => entered(old, new),
        Action::Escape => escaped(old, new),
        Action::ResultNextTab => tab_switched(old, new),
        Action::ToolsLoaded(tools) => new.tools == tools && refiltered(
            App { tools: tools, ..old },
            new,
            old.filter_text@,
        ),
        _ => new == old,
    }
}


/// Whether a schema has a required property that the session does not fill
/// in.
pub fn tool_needs_input(schema: &InputSchema, signed_in: bool) -> (r: bool)
    ensures
        r == needs_input(*schema, signed_in),
{
    match &schema.properties {
        None => false,
        Some(props) => {
            let mut i: usize = 0;
            while i < props.len()
                invariant
                    i <= props@.len(),
                    schema.properties == Some(*props),
                    forall|j: int|
                        0 <= j < i ==> !(lists(required_names(*schema), props@[j].name@) && !(signed_in
                            && props@[j].name@ == "account_id"@)),
                decreases props.len() - i,
            {
                let name = props[i].name.as_str();
                let required = match &schema.required {
                    Some(req) => name_listed(req, name),
                    None => false,
                };
                let managed = signed_in && str_eq(name, "account_id");
                if required && !managed {
                    return true;
                }
                i = i + 1;
            }
            false
        },
    }
}

/// Whether `names` lists `name`.
fn name_listed(names: &Vec<String>, name: &str) -> (r: bool)
    ensures
        r == lists(names@, name@),
{
    let mut i: usize = 0;
    while i < names.len()
        invariant
            i <= names@.len(),
            forall|j: int| 0 <= j < i ==> names@[j]@ != name@,
        decreases names.len() - i,
    {
        if str_eq(names[i].as_str(), name) {
            return true;
        }
        i = i + 1;
    }
    false
}

impl App {
    /// Names hidden from forms because the session injects them.
    fn managed_fields(&self) -> (r: Vec<String>)
        ensures
            managed_list(r@, self.auth_session is Some),
    {
        let mut v: Vec<String> = Vec::new();
        if self.auth_session.is_some() {
            v.push(owned("account_id"));
        }
        v
    }

    /// Whether the selected tool has required fields the user must fill in.
    pub fn selected_tool_needs_input(&self) -> (r: bool)
        ensures
            r == match selected_index(*self) {
                Some(i) => needs_input(self.tools@[i].tool.input_schema, self.auth_session is Some),
                None => false,
            },
    {
        match self.selected_tool() {
            Some(entry) => tool_needs_input(&entry.tool.input_schema, self.auth_session.is_some()),
            None => false,
        }
    }

    /// Opens the form for the selected tool; false when no tool is selected.
    pub fn open_form_for_selected(&mut self) -> (r: bool)
        ensures
            r == selected_index(*old(self)) is Some,
            match selected_index(*old(self)) {
                Some(i) => {
                    &&& final(self).form_state matches Some(g) && form_for_entry(
                        g,
                        old(self).tools@[i],
                        old(self).auth_session is Some,
                    )
                    &&& *final(self) == (App {
                        form_state: final(self).form_state,
                        focus: PanelFocus::Form,
                        ..*old(self)
                    })
                },
                None => *final(self) == *old(self),
            },
    {
        let managed = self.managed_fields();
        let form = match self.selected_tool() {
            Some(entry) => FormState::new(entry.tool.name.as_str(), &entry.tool.input_schema, managed.as_slice()),
            None => {
                return false;
            },
        };
        self.form_state = Some(form);
        self.focus = PanelFocus::Form;
        true
    }

    /// The name shown for the signed-in identity.
    pub fn identity_display(&self) -> (r: String)
        ensures
            r@ == match self.auth_session {
                Some(s) => s.display_name@,
                None => "(not authenticated)"@,
            },
    {
        match &self.auth_session {
            Some(s) => s.display_name.clone(),
            None => owned("(not authenticated)"),
        }
    }

    fn mark_server(&mut self, server: &ServerId, state: ConnectionState)
        ensures
            server_marked(*old(self), *final(self), server@.key, state),
    {
        self.server_state.set(server.key(), state);
    }

    fn toggle_form(&mut self)
        ensures
            form_edited(*old(self), *final(self), toggle_edit()),
    {
        match &mut self.form_state {
            Some(form) => form.toggle_boolean(),
            None => {},
        }
    }

    fn form_push(&mut self, c: char)
        ensures
            form_edited(*old(self), *final(self), push_edit(c)),
    {
        match &mut self.form_state {
            Some(form) => form.push_char(c),
            None => {},
        }
    }

    fn form_pop(&mut self)
        ensures
            form_edited(*old(self), *final(self), pop_edit()),
    {
        match &mut self.form_state {
            Some(form) => form.pop_char(),
            None => {},
        }
    }

    fn form_append(&mut self, text: &str)
        ensures
            form_edited(*old(self), *final(self), append_edit(text@)),
    {
        match &mut self.form_state {
            Some(form) => form.push_str(text),
            None => {},
        }
    }

    fn show_result_tab(&mut self, tab: ResultTab)
        ensures
            tab_shown(*old(self), *final(self), tab),
    {
        match &mut self.result_state {
            Some(rs) => rs.show_tab(tab),
            None => {},
        }
    }

    fn next_result_tab(&mut self)
        ensures
            tab_switched(*old(self), *final(self)),
    {
        match &mut self.result_state {
            Some(rs) => rs.next_tab(),
            None => {},
        }
    }

    fn scroll_down(&mut self)
        ensures
            scrolled_down(*old(self), *final(self)),
    {
        match self.focus {
            PanelFocus::ToolList => self.select_next(),
            PanelFocus::Result => match &mut self.result_state {
                Some(rs) => rs.scroll_down(1),
                None => {},
            },
            PanelFocus::Form => match &mut self.form_state {
                Some(form) => form.select_next(),
                None => {},
            },
            PanelFocus::Detail => {},
        }
    }

    fn scroll_up(&mut self)
        ensures
            scrolled_up(*old(self), *final(self)),
    {
        match self.focus {
            PanelFocus::ToolList => self.select_prev(),
            PanelFocus::Result => match &mut self.result_state {
                Some(rs) => rs.scroll_up(1),
                None => {},
            },
            PanelFocus::Form => match &mut self.form_state {
                Some(form) => form.select_prev(),
                None => {},
            },
            PanelFocus::Detail => {},
        }
    }

    /// Routes a typed character by mode and focus.
    fn handle_char(&mut self, c: char)
        ensures
            char_handled(*old(self), *final(self), c),
    {
        match self.input_mode {
            InputMode::Filter => {
                push_char(&mut self.filter_text, c);
                self.apply_filter();
            },
            InputMode::FormEdit => self.form_push(c),
            InputMode::Normal => {
                if c == 'q' {
                    self.should_quit = true;
                } else if c == 'j' {
                    self.scroll_down();
                } else if c == 'k' {
                    self.scroll_up();
                } else if c == '/' {
                    self.input_mode = InputMode::Filter;
                    self.focus = PanelFocus::ToolList;
                } else if c == ' ' {
                    if self.focus == PanelFocus::Form {
                        self.toggle_form();
                    }
                } else if c == '1' {
                    self.show_result_tab(ResultTab::Structured);
                } else if c == '2' {
                    self.show_result_tab(ResultTab::Raw);
                } else if c == 'e' {
                    if self.focus == PanelFocus::Form {
                        self.execute_requested = true;
                    }
                } else if c == 'r' {
                    self.reconnect_requested = true;
                } else if c == 'L' {
                    self.logout_requested = true;
                    self.should_quit = true;
                }
            },
            InputMode::Login => {},
        }
    }
}


impl App {
    fn stop_editing(&mut self)
        ensures
            editing_stopped(*old(self), *final(self)),
    {
        match &mut self.form_state {
            Some(form) => {
                form.editing = false;
            },
            None => {},
        }
        self.input_mode = InputMode::Normal;
    }

    fn backspace(&mut self)
        ensures
            backspaced(*old(self), *final(self)),
    {
        match self.input_mode {
            InputMode::Filter => {
                pop_char(&mut self.filter_text);
                self.apply_filter();
            },
            InputMode::FormEdit => self.form_pop(),
            _ => {},
        }
    }

    fn paste(&mut self, text: &str)
        ensures
            pasted(*old(self), *final(self), text@),
    {
        match self.input_mode {
            InputMode::Filter => {
                append(&mut self.filter_text, text);
                self.apply_filter();
            },
            InputMode::FormEdit => self.form_append(text),
            _ => {},
        }
    }

    fn enter(&mut self)
        ensures
            entered(*old(self), *final(self)),
    {
        match self.input_mode {
            InputMode::Filter => {
                self.input_mode = InputMode::Normal;
            },
            InputMode::FormEdit => self.stop_editing(),
            InputMode::Normal => match self.focus {
                PanelFocus::ToolList | PanelFocus::Detail => {
                    if self.selected_tool_needs_input() {
                        self.open_form_for_selected();
                    } else {
                        self.execute_requested = true;
                    }
                },
                PanelFocus::Form => {
                    let start = match &self.form_state {
                        Some(form) => !form.editing && form.visible_count() > 0,
                        None => false,
                    };
                    if start {
                        match &mut self.form_state {
                            Some(form) => {
                                form.editing = true;
                            },
                            None => {},
                        }
                        self.input_mode = InputMode::FormEdit;
                    }
                },
                PanelFocus::Result => {},
            },
            InputMode::Login => {},
        }
    }

    fn escape(&mut self)
        ensures
            escaped(*old(self), *final(self)),
    {
        match self.input_mode {
            InputMode::Filter => {
                self.filter_text = String::new();
                self.apply_filter();
                self.input_mode = InputMode::Normal;
            },
            InputMode::FormEdit => self.stop_editing(),
            InputMode::Normal => match self.focus {
                PanelFocus::Result => {
                    self.result_state = None;
                    self.focus = if self.form_state.is_some() {
                        PanelFocus::Form
                    } else {
                        PanelFocus::Detail
                    };
                },
                PanelFocus::Form => {
                    self.form_state = None;
                    self.focus = PanelFocus::Detail;
                },
                PanelFocus::Detail => {
                    self.focus = PanelFocus::ToolList;
                },
                PanelFocus::ToolList => {},
            },
            InputMode::Login => {},
        }
    }

    /// Applies one action to the state.
    pub fn update(&mut self, action: Action)
        ensures
            stepped(*old(self), action, *final(self)),
            list_consistent(*old(self)) ==> list_consistent(*final(self)),
    {
        match action {
            Action::Quit => {
                self.should_quit = true;
            },
            Action::AuthSuccess(session) => {
                self.auth_session = Some(session);
                self.input_mode = InputMode::Normal;
            },
            Action::McpConnecting(server) => self.mark_server(&server, ConnectionState::Connecting),
            Action::McpConnected(server) => self.mark_server(&server, ConnectionState::Connected),
            Action::McpDisconnected(server) => self.mark_server(&server, ConnectionState::Disconnected),
            Action::McpError(server, _) => self.mark_server(&server, ConnectionState::Error),
            Action::McpProgress { progress, total, message, .. } => {
                match &mut self.active_task {
                    Some(task) => {
                        task.progress = Some(progress);
                        task.total = total;
                        task.message = message;
                    },
                    None => {},
                }
            },
            Action::McpToolResult(result) => {
                let tool_name = match &mut self.result_state {
                    Some(rs) => {
                        let mut t: Option<String> = None;
                        std::mem::swap(&mut t, &mut rs.tool_name);
                        t
                    },
                    None => None,
                };
                let mut rs = ResultState::with_result(result);
                rs.tool_name = tool_name;
                self.result_state = Some(rs);
                self.active_task = None;
                self.focus = PanelFocus::Result;
            },
            Action::FormFieldToggle => self.toggle_form(),
            Action::FormInputChar(c) => self.form_push(c),
            Action::FormInputBackspace => self.form_pop(),
            Action::ScrollUp => self.scroll_up(),
            Action::ScrollDown => self.scroll_down(),
            Action::FocusNext => {
                self.focus = match self.focus {
                    PanelFocus::ToolList => PanelFocus::Detail,
                    PanelFocus::Detail => {
                        if self.form_state.is_some() {
                            PanelFocus::Form
                        } else if self.result_state.is_some() {
                            PanelFocus::Result
                        } else {
                            PanelFocus::ToolList
                        }
                    },
                    PanelFocus::Form => {
                        if self.result_state.is_some() {
                            PanelFocus::Result
                        } else {
                            PanelFocus::ToolList
                        }
                    },
                    PanelFocus::Result => PanelFocus::ToolList,
                };
            },
            Action::FocusPrev => {
                self.focus = match self.focus {
                    PanelFocus::ToolList => {
                        if self.result_state.is_some() {
                            PanelFocus::Result
                        } else if self.form_state.is_some() {
                            PanelFocus::Form
                        } else {
                            PanelFocus::Detail
                        }
                    },
                    PanelFocus::Detail => PanelFocus::ToolList,
                    PanelFocus::Form => PanelFocus::Detail,
                    PanelFocus::Result => {
                        if self.form_state.is_some() {
                            PanelFocus::Form
                        } else {
                            PanelFocus::Detail
                        }
                    },
                };
            },
            Action::FilterStart => {
                self.input_mode = InputMode::Filter;
                self.focus = PanelFocus::ToolList;
            },
            Action::FilterChar(c) => self.handle_char(c),
            Action::FilterBackspace => self.backspace(),
            Action::PasteText(text) => self.paste(text.as_str()),
            Action::Enter => self.enter(),
            Action::Escape => self.escape(),
            Action::ResultNextTab => self.next_result_tab(),
            Action::ToolsLoaded(tools) => self.set_tools(tools),
            _ => {},
        }
    }
}


// ---------------------------------------------------------------------------
// Laws
// ---------------------------------------------------------------------------

/// The focus sits on a pane that exists: the form pane only while a form is
/// open, the result pane only while a result is shown.
pub open spec fn focus_consistent(f: PanelFocus, has_form: bool, has_result: bool) -> bool {
    (f == PanelFocus::Form ==> has_form) && (f == PanelFocus::Result ==> has_result)
}

/// Tab and Shift-Tab never move the focus to a pane that is not there, and
/// each undoes the other.
pub proof fn lemma_focus_cycle(f: PanelFocus, has_form: bool, has_result: bool)
    requires
        focus_consistent(f, has_form, has_result),
    ensures
        focus_consistent(focus_after_next(f, has_form, has_result), has_form, has_result),
        focus_consistent(focus_after_prev(f, has_form, has_result), has_form, has_result),
        focus_after_prev(focus_after_next(f, has_form, has_result), has_form, has_result) == f,
        focus_after_next(focus_after_prev(f, has_form, has_result), has_form, has_result) == f,
{
}

/// Whatever action comes, the filtered list keeps listing exactly the tools
/// that pass the filter, and the selection stays on one of its rows (none
/// only when the list is empty).
pub proof fn lemma_step_keeps_list_consistent(old: App, action: Action, new: App)
    requires
        list_consistent(old),
        stepped(old, action, new),
    ensures
        list_consistent(new),
{
}


// ---------------------------------------------------------------------------
// Running a tool
// ---------------------------------------------------------------------------

/// The tool a requested run goes to: with a form open, the selected tool
/// once no required field is empty; without one, the selected tool.
pub open spec fn run_target(a: App) -> Option<int> {
    match a.form_state {
        Some(f) => if missing_names(f.fields@).len() > 0 {
            None
        } else {
            selected_index(a)
        },
        None => selected_index(a),
    }
}

/// `req` is the call for tool `i` of `a`: to its server, named by the form
/// (or the tool), with the form's arguments (or none).
pub open spec fn request_for(a: App, i: int, req: ToolCallRequest) -> bool {
    &&& req.server@ == a.tools@[i].server@
    &&& match a.form_state {
        Some(f) => req.tool_name@ == f.tool_name@ && req.arguments@ == assembled(f.fields@),
        None => req.tool_name@ == a.tools@[i].tool.name@ && req.arguments@ == Map::<
            Seq<char>,
            crate::mcp::types::ArgView,
        >::empty(),
    }
}

/// While a call runs: the form closes, an empty result pane named after the
/// tool takes the focus, and no task is active.
pub open spec fn run_started(old: App, new: App, tool_name: Seq<char>) -> bool {
    &&& new.result_state matches Some(rs) && (rs.result is None && rs.scroll_offset == 0
        && rs.error_display is None && rs.active_tab == crate::ui::result_view::ResultTab::Structured
        && (rs.tool_name matches Some(n) && n@ == tool_name))
    &&& new == (App {
        execute_requested: false,
        form_state: None,
        result_state: new.result_state,
        active_task: None,
        input_mode: InputMode::Normal,
        focus: PanelFocus::Result,
        ..old
    })
}

impl App {
    /// Takes a pending run request: the call to dispatch, if the run can
    /// start, with the state switched to waiting for its result.
    pub fn take_execution(&mut self) -> (r: Option<ToolCallRequest>)
        ensures
            !old(self).execute_requested ==> r is None && *final(self) == *old(self),
            old(self).execute_requested ==> match run_target(*old(self)) {
                Some(i) => r matches Some(req) && request_for(*old(self), i, req) && run_started(
                    *old(self),
                    *final(self),
                    req.tool_name@,
                ),
                None => r is None && *final(self) == (App { execute_requested: false, ..*old(self) }),
            },
    {
        if !self.execute_requested {
            return None;
        }
        self.execute_requested = false;
        let request = match &self.form_state {
            Some(form) => {
                if !form.is_ready() {
                    None
                } else {
                    match self.selected_tool() {
                        Some(entry) => Some(
                            ToolCallRequest {
                                server: entry.server.clone(),
                                tool_name: form.tool_name.clone(),
                                arguments: assemble_args(form.fields.as_slice()),
                            },
                        ),
                        None => None,
                    }
                }
            },
            None => match self.selected_tool() {
                Some(entry) => Some(
                    ToolCallRequest {
                        server: entry.server.clone(),
                        tool_name: entry.tool.name.clone(),
                        arguments: ToolArgs::new(),
                    },
                ),
                None => None,
            },
        };
        match request {
            Some(req) => {
                let mut rs = ResultState::new();
                rs.tool_name = Some(req.tool_name.clone());
                self.form_state = None;
                self.result_state = Some(rs);
                self.active_task = None;
                self.input_mode = InputMode::Normal;
                self.focus = PanelFocus::Result;
                Some(req)
            },
            None => None,
        }
    }
}

/// A run never starts while a visible required field of the open form is
/// empty: the request is dropped and the form stays.
pub proof fn lemma_no_run_with_missing_fields(a: App)
    requires
        a.form_state matches Some(f) && missing_names(f.fields@).len() > 0,
    ensures
        run_target(a) is None,
{
}

/// The result shown when a tool call fails before the server answers:
/// `Error: ` and the reason, flagged as an error.
pub fn call_error_result(reason: &str) -> (r: ToolResult)
    ensures
        r.is_error == Some(true),
        r.structured_content is None,
        r.content@.len() == 1,
        r.content@[0] matches crate::mcp::types::ContentItem::Text(t) && t@ == "Error: "@ + reason@,
{
    let mut text = owned("Error: ");
    append(&mut text, reason);
    let mut content = Vec::new();
    content.push(crate::mcp::types::ContentItem::Text(text));
    ToolResult { content, is_error: Some(true), structured_content: None }
}


/// Each of `0..n` occurs in a permutation of `0..n`.
proof fn lemma_permutation_onto(perm: Seq<int>, n: int, k: int)
    requires
        is_permutation(perm, n),
        0 <= k < n,
    ensures
        exists|i: int| 0 <= i < n && perm[i] == k,
{
    broadcast use vstd::seq_lib::seq_to_set_is_finite;

    let s = perm.to_set();
    assert(perm.no_duplicates());
    perm.unique_seq_to_set();
    vstd::set_lib::lemma_int_range(0, n);
    assert(s.subset_of(vstd::set_lib::set_int_range(0, n))) by {
        assert forall|x: int| s.contains(x) implies vstd::set_lib::set_int_range(0, n).contains(x) by {
            let i = choose|i: int| 0 <= i < perm.len() && perm[i] == x;
        }
    }
    vstd::set_lib::lemma_subset_equality(s, vstd::set_lib::set_int_range(0, n));
    assert(vstd::set_lib::set_int_range(0, n).contains(k));
    assert(s.contains(k));
}

/// Enter opens the form exactly when the form it would open has a visible
/// required field: deciding from the schema agrees with building the form.
pub proof fn lemma_needs_input_iff_form_requires_input(g: FormState, e: ToolEntry, signed_in: bool)
    requires
        form_for_entry(g, e, signed_in),
    ensures
        needs_input(e.tool.input_schema, signed_in) <==> exists|i: int|
            0 <= i < g.fields@.len() && !g.fields@[i].managed && g.fields@[i].required,
{
    let m = choose|m: Seq<String>| managed_list(m, signed_in) && built_form(g, e.tool.name@, e.tool.input_schema, m);
    let schema = e.tool.input_schema;
    assert forall|name: Seq<char>| lists(m, name) <==> (signed_in && name == "account_id"@) by {
        if lists(m, name) {
            let i = choose|i: int| 0 <= i < m.len() && m[i]@ == name;
        }
        if signed_in && name == "account_id"@ {
            assert(m[0]@ == name);
        }
    }
    if let Some(props) = schema.properties {
        let perm = choose|perm: Seq<int>| {
            &&& is_permutation(perm, props@.len() as int)
            &&& forall|i: int|
                0 <= i < g.fields@.len() ==> field_for(
                    #[trigger] g.fields@[i],
                    props@[perm[i]],
                    required_names(schema),
                    m,
                )
        };
        if needs_input(schema, signed_in) {
            let j = choose|j: int|
                0 <= j < props@.len() && lists(required_names(schema), props@[j].name@) && !(signed_in
                    && props@[j].name@ == "account_id"@);
            lemma_permutation_onto(perm, props@.len() as int, j);
            let i = choose|i: int| 0 <= i < props@.len() && perm[i] == j;
            assert(field_for(g.fields@[i], props@[j], required_names(schema), m));
        }
        if exists|i: int| 0 <= i < g.fields@.len() && !g.fields@[i].managed && g.fields@[i].required {
            let i = choose|i: int| 0 <= i < g.fields@.len() && !g.fields@[i].managed && g.fields@[i].required;
            assert(field_for(g.fields@[i], props@[perm[i]], required_names(schema), m));
            assert(0 <= perm[i] < props@.len());
        }
    }
}

} // verus!
