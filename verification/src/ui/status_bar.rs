//! The texts of the status bar and the footer.

use vstd::prelude::*;

use crate::app::{state_lookup, App, ConnectionState, InputMode, PanelFocus};
use crate::mcp::types::ServerId;
use crate::text::{append, decimal_digits, owned, push_decimal};

verus! {

/// The key hints for a mode and focus.
pub open spec fn hints_for(mode: InputMode, focus: PanelFocus) -> Seq<char> {
    match mode {
        InputMode::Filter => "Type to filter | Enter: accept | Esc: clear"@,
        InputMode::FormEdit => "Type to edit | Enter: done | Esc: cancel"@,
        InputMode::Login => "Authenticating..."@,
        InputMode::Normal => match focus {
            PanelFocus::ToolList => "j/k: navigate | Enter: open | /: filter | Tab: next pane | q: quit"@,
            PanelFocus::Detail => "Enter: edit params | e: execute | Tab: next pane | Esc: back | q: quit"@,
            PanelFocus::Form => "j/k: navigate | Enter: edit field | Space: toggle | e: execute | Esc: back"@,
            PanelFocus::Result => "j/k: scroll | 1/2: switch tab | Esc: close | Tab: next pane | q: quit"@,
        },
    }
}

/// The footer's key hints for the current mode and focus.
pub fn key_hints(app: &App) -> (r: String)
    ensures
        r@ == hints_for(app.input_mode, app.focus),
{
    let s = match app.input_mode {
        InputMode::Filter => "Type to filter | Enter: accept | Esc: clear",
        InputMode::FormEdit => "Type to edit | Enter: done | Esc: cancel",
        InputMode::Login => "Authenticating...",
        InputMode::Normal => match app.focus {
            PanelFocus::ToolList => "j/k: navigate | Enter: open | /: filter | Tab: next pane | q: quit",
            PanelFocus::Detail => "Enter: edit params | e: execute | Tab: next pane | Esc: back | q: quit",
            PanelFocus::Form => "j/k: navigate | Enter: edit field | Space: toggle | e: execute | Esc: back",
            PanelFocus::Result => "j/k: scroll | 1/2: switch tab | Esc: close | Tab: next pane | q: quit",
        },
    };
    owned(s)
}

/// The badge of a connection state; unknown and disconnected look alike.
pub open spec fn status_label(state: Option<ConnectionState>) -> Seq<char> {
    match state {
        Some(ConnectionState::Connected) => "ok"@,
        Some(ConnectionState::Connecting) => ".."@,
        Some(ConnectionState::Error) => "err"@,
        _ => "--"@,
    }
}

/// The connection badge shown for a server.
pub fn server_status_label(app: &App, server: &ServerId) -> (r: &'static str)
    ensures
        r@ == status_label(state_lookup(app.server_state@, server@.key)),
{
    match app.server_state.get(server.key()) {
        Some(ConnectionState::Connected) => "ok",
        Some(ConnectionState::Connecting) => "..",
        Some(ConnectionState::Error) => "err",
        _ => "--",
    }
}

/// The mode badge; normal mode has none.
pub open spec fn mode_badge_of(mode: InputMode) -> Seq<char> {
    match mode {
        InputMode::Normal => ""@,
        InputMode::Filter => " FILTER "@,
        InputMode::FormEdit => " EDIT "@,
        InputMode::Login => " LOGIN "@,
    }
}

/// The badge for the input mode.
pub fn mode_badge(mode: InputMode) -> (r: &'static str)
    ensures
        r@ == mode_badge_of(mode),
{
    match mode {
        InputMode::Normal => "",
        InputMode::Filter => " FILTER ",
        InputMode::FormEdit => " EDIT ",
        InputMode::Login => " LOGIN ",
    }
}

/// "N tools", for the number of tools the filter lets through.
pub fn tool_count_label(app: &App) -> (r: String)
    ensures
        r@ == decimal_digits(app.filtered_indices@.len() as nat) + " tools"@,
{
    let mut s = String::new();
    push_decimal(&mut s, app.visible_tool_count());
    append(&mut s, " tools");
    s
}

} // verus!
