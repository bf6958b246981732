//! State of the result pane: the result or error shown, the active tab and
//! the scroll position, and the captions of content blocks.

use vstd::prelude::*;

use crate::mcp::types::{ContentItem, ToolResult};
use crate::text::{append, decimal_digits, owned, push_decimal};

verus! {

/// Which tab is active in the result view.
#[derive(Debug, Clone, Copy, PartialEq, Eq, Structural)]
pub enum ResultTab {
    /// Friendly key-value rendering.
    Structured,
    /// Raw JSON / content blocks.
    Raw,
}

/// Scroll state and content of the result view.
#[derive(Debug)]
pub struct ResultState {
    pub result: Option<ToolResult>,
    pub scroll_offset: u16,
    pub error_display: Option<String>,
    pub active_tab: ResultTab,
    pub tool_name: Option<String>,
}

/// `a - b`, or zero when `b` is larger.
pub open spec fn saturating_sub_u16(a: u16, b: u16) -> u16 {
    if a >= b {
        (a - b) as u16
    } else {
        0
    }
}

/// `a + b`, or `u16::MAX` when the sum does not fit.
pub open spec fn saturating_add_u16(a: u16, b: u16) -> u16 {
    if a + b <= u16::MAX {
        (a + b) as u16
    } else {
        u16::MAX
    }
}

/// The other tab.
pub open spec fn other_tab(t: ResultTab) -> ResultTab {
    match t {
        ResultTab::Structured => ResultTab::Raw,
        ResultTab::Raw => ResultTab::Structured,
    }
}

/// The pane shows an error: the result says so, or an error message replaced it.
pub open spec fn shows_error_spec(state: ResultState) -> bool {
    (state.result matches Some(r) && r.is_error == Some(true)) || state.error_display is Some
}

/// The pane's title: the tool name (or "Result"), marked when it shows an error.
pub open spec fn title_of(state: ResultState) -> Seq<char> {
    let label = match state.tool_name {
        Some(n) => n@,
        None => "Result"@,
    };
    if shows_error_spec(state) {
        label + " (error)"@
    } else {
        label
    }
}

impl ResultState {
    /// An empty pane: no result, no error, first tab, top of the content.
    pub fn new() -> (r: Self)
        ensures
            r.result is None,
            r.scroll_offset == 0,
            r.error_display is None,
            r.active_tab == ResultTab::Structured,
            r.tool_name is None,
    {
        ResultState {
            result: None,
            scroll_offset: 0,
            error_display: None,
            active_tab: ResultTab::Structured,
            tool_name: None,
        }
    }

    /// A pane showing `result`.
    pub fn with_result(result: ToolResult) -> (r: Self)
        ensures
            r.result == Some(result),
            r.scroll_offset == 0,
            r.error_display is None,
            r.active_tab == ResultTab::Structured,
            r.tool_name is None,
    {
        ResultState {
            result: Some(result),
            scroll_offset: 0,
            error_display: None,
            active_tab: ResultTab::Structured,
            tool_name: None,
        }
    }

    /// A pane showing an error message.
    pub fn with_error(message: String) -> (r: Self)
        ensures
            r.result is None,
            r.scroll_offset == 0,
            r.error_display == Some(message),
            r.active_tab == ResultTab::Structured,
            r.tool_name is None,
    {
        ResultState {
            result: None,
            scroll_offset: 0,
            error_display: Some(message),
            active_tab: ResultTab::Structured,
            tool_name: None,
        }
    }

    /// Scrolls up by `lines`, stopping at the top.
    pub fn scroll_up(&mut self, lines: u16)
        ensures
            *final(self) == (ResultState {
                scroll_offset: saturating_sub_u16(old(self).scroll_offset, lines),
                ..*old(self)
            }),
    {
        self.scroll_offset = if self.scroll_offset >= lines {
            self.scroll_offset - lines
        } else {
            0
        };
    }

    /// Scrolls down by `lines`, stopping at `u16::MAX`.
    pub fn scroll_down(&mut self, lines: u16)
        ensures
            *final(self) == (ResultState {
                scroll_offset: saturating_add_u16(old(self).scroll_offset, lines),
                ..*old(self)
            }),
    {
        self.scroll_offset = if self.scroll_offset <= u16::MAX - lines {
            self.scroll_offset + lines
        } else {
            u16::MAX
        };
    }

    /// Switches to the other tab and back to the top.
    pub fn next_tab(&mut self)
        ensures
            *final(self) == (ResultState {
                active_tab: other_tab(old(self).active_tab),
                scroll_offset: 0,
                ..*old(self)
            }),
    {
        self.active_tab = match self.active_tab {
            ResultTab::Structured => ResultTab::Raw,
            ResultTab::Raw => ResultTab::Structured,
        };
        self.scroll_offset = 0;
    }

    /// Shows `tab`: switching to it goes back to the top; the tab already
    /// shown stays as it is.
    pub fn show_tab(&mut self, tab: ResultTab)
        ensures
            old(self).active_tab == tab ==> *final(self) == *old(self),
            old(self).active_tab != tab ==> *final(self) == (ResultState {
                active_tab: tab,
                scroll_offset: 0,
                ..*old(self)
            }),
    {
        if self.active_tab != tab {
            self.active_tab = tab;
            self.scroll_offset = 0;
        }
    }

    /// Whether the pane holds something to show (a result or an error).
    pub fn has_content(&self) -> (r: bool)
        ensures
            r == (self.result is Some || self.error_display is Some),
    {
        self.result.is_some() || self.error_display.is_some()
    }

    /// Whether the pane shows an error.
    pub fn shows_error(&self) -> (r: bool)
        ensures
            r == shows_error_spec(*self),
    {
        let flagged = match &self.result {
            Some(r) => match r.is_error {
                Some(b) => b,
                None => false,
            },
            None => false,
        };
        flagged || self.error_display.is_some()
    }

    /// The pane's title.
    pub fn title(&self) -> (r: String)
        ensures
            r@ == title_of(*self),
    {
        let mut t = match &self.tool_name {
            Some(n) => n.clone(),
            None => owned("Result"),
        };
        if self.shows_error() {
            append(&mut t, " (error)");
        }
        t
    }
}

/// The caption line of a content block; text blocks have none, their text
/// is shown as it is.
pub open spec fn content_caption(item: ContentItem) -> Option<Seq<char>> {
    match item {
        ContentItem::Text(_) => None,
        ContentItem::Image { mime_type, data_len } => Some(
            "[Image: "@ + mime_type@ + ", "@ + decimal_digits(data_len as nat) + " bytes]"@,
        ),
        ContentItem::Audio { mime_type, data_len } => Some(
            "[Audio: "@ + mime_type@ + ", "@ + decimal_digits(data_len as nat) + " bytes]"@,
        ),
        ContentItem::ResourceLink { uri, name } => Some(
            "-> "@ + uri@ + if name@.len() == 0 {
                Seq::empty()
            } else {
                " ("@ + name@ + ")"@
            },
        ),
        ContentItem::TextResource { uri, .. } => Some("[Resource: "@ + uri@ + "]"@),
        ContentItem::BlobResource { uri, blob_len } => Some(
            "[Blob: "@ + uri@ + ", "@ + decimal_digits(blob_len as nat) + " bytes]"@,
        ),
        ContentItem::ToolUse { id, name } => Some("[ToolUse: "@ + name@ + " ("@ + id@ + ")]"@),
        ContentItem::ToolResult { tool_use_id, is_error, .. } => Some(
            "[ToolResult: "@ + tool_use_id@ + if is_error == Some(true) {
                " (error)"@
            } else {
                Seq::empty()
            } + "]"@,
        ),
    }
}

/// The caption of a content block.
pub fn content_caption_of(item: &ContentItem) -> (r: Option<String>)
    ensures
        match content_caption(*item) {
            Some(c) => r matches Some(s) && s@ == c,
            None => r is None,
        },
{
    match item {
        ContentItem::Text(_) => None,
        ContentItem::Image { mime_type, data_len } => {
            let mut s = owned("[Image: ");
            append(&mut s, mime_type.as_str());
            append(&mut s, ", ");
            push_decimal(&mut s, *data_len);
            append(&mut s, " bytes]");
            Some(s)
        },
        ContentItem::Audio { mime_type, data_len } => {
            let mut s = owned("[Audio: ");
            append(&mut s, mime_type.as_str());
            append(&mut s, ", ");
            push_decimal(&mut s, *data_len);
            append(&mut s, " bytes]");
            Some(s)
        },
        ContentItem::ResourceLink { uri, name } => {
            let mut s = owned("-> ");
            append(&mut s, uri.as_str());
            if !name.as_str().is_empty() {
                append(&mut s, " (");
                append(&mut s, name.as_str());
                append(&mut s, ")");
            }
            Some(s)
        },
        ContentItem::TextResource { uri, .. } => {
            let mut s = owned("[Resource: ");
            append(&mut s, uri.as_str());
            append(&mut s, "]");
            Some(s)
        },
        ContentItem::BlobResource { uri, blob_len } => {
            let mut s = owned("[Blob: ");
            append(&mut s, uri.as_str());
            append(&mut s, ", ");
            push_decimal(&mut s, *blob_len);
            append(&mut s, " bytes]");
            Some(s)
        },
        ContentItem::ToolUse { id, name } => {
            let mut s = owned("[ToolUse: ");
            append(&mut s, name.as_str());
            append(&mut s, " (");
            append(&mut s, id.as_str());
            append(&mut s, ")]");
            Some(s)
        },
        ContentItem::ToolResult { tool_use_id, is_error, .. } => {
            let mut s = owned("[ToolResult: ");
            append(&mut s, tool_use_id.as_str());
            let flagged = match is_error {
                Some(b) => *b,
                None => false,
            };
            if flagged {
                append(&mut s, " (error)");
            }
            append(&mut s, "]");
            Some(s)
        },
    }
}

} // verus!
