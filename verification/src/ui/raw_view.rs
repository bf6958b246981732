//! The raw tab of the result pane: the error message alone, or the
//! structured content pretty-printed under a separator followed by every
//! content block with its caption, line by line.

use vstd::prelude::*;

use crate::json::{json_pretty_of, pretty_json};
use crate::mcp::types::ContentItem;
use crate::text::{chars_of, owned, split_chars, split_seq, string_from_chars, string_from_range};
use crate::ui::result_view::{content_caption, content_caption_of, ResultState};

verus! {

/// How a line of the raw tab is drawn.
#[derive(Debug, Clone, Copy, PartialEq, Eq, Structural)]
pub enum LineTone {
    /// Ordinary text.
    Plain,
    /// An error: the error message, or the body of an error result.
    Error,
    /// The separator above the structured content.
    Separator,
    /// The caption of a resource link or text resource.
    ResourceCaption,
    /// The caption of a tool use or tool result.
    ToolCaption,
    /// The caption of an image, audio or blob block.
    MediaCaption,
}

/// One line of the raw tab.
#[derive(Debug)]
pub struct ShownLine {
    pub text: String,
    pub tone: LineTone,
}

/// Lines as text and tone.
pub open spec fn shown(lines: Seq<ShownLine>) -> Seq<(Seq<char>, LineTone)> {
    lines.map_values(|l: ShownLine| (l.text@, l.tone))
}

/// `line` without one carriage return at its end.
pub open spec fn without_cr(line: Seq<char>) -> Seq<char> {
    if line.len() > 0 && line.last() == '\r' {
        line.drop_last()
    } else {
        line
    }
}

/// The lines of `s` (`str::lines`): the pieces between newlines, where a
/// final newline ends the last line instead of starting an empty one, and
/// a carriage return just before a newline belongs to the line ending.
pub open spec fn text_lines(s: Seq<char>) -> Seq<Seq<char>> {
    let pieces = split_seq(s, '\n');
    let kept = if s.len() == 0 || s.last() == '\n' {
        pieces.drop_last()
    } else {
        pieces
    };
    Seq::new(
        kept.len(),
        |k: int|
            if k + 1 < pieces.len() {
                without_cr(kept[k])
            } else {
                kept[k]
            },
    )
}

/// Each line with the same tone.
pub open spec fn toned(lines: Seq<Seq<char>>, tone: LineTone) -> Seq<(Seq<char>, LineTone)> {
    lines.map_values(|l: Seq<char>| (l, tone))
}

/// A text shown pretty-printed when it is JSON, as it is otherwise.
pub open spec fn pretty_or_same(text: Seq<char>) -> Seq<char> {
    match json_pretty_of(text) {
        Some(p) => p,
        None => text,
    }
}

/// The tone of a block's caption.
pub open spec fn caption_tone(item: ContentItem) -> LineTone {
    match item {
        ContentItem::ResourceLink { .. } | ContentItem::TextResource { .. } => LineTone::ResourceCaption,
        ContentItem::ToolUse { .. } | ContentItem::ToolResult { .. } => LineTone::ToolCaption,
        _ => LineTone::MediaCaption,
    }
}

/// The lines of one content block drawn in `tone`: its caption, then a
/// text's lines (pretty-printed when it is JSON), a text resource's lines,
/// or a tool result's blocks (in the error tone when it reports an error).
pub open spec fn block_lines(item: ContentItem, tone: LineTone) -> Seq<(Seq<char>, LineTone)>
    decreases item,
{
    let caption = match content_caption(item) {
        Some(c) => seq![(c, caption_tone(item))],
        None => Seq::empty(),
    };
    caption + match item {
        ContentItem::Text(t) => toned(text_lines(pretty_or_same(t@)), tone),
        ContentItem::TextResource { text, .. } => toned(text_lines(text@), tone),
        ContentItem::ToolResult { is_error, content, .. } => nested_lines(
            content@,
            if is_error == Some(true) {
                LineTone::Error
            } else {
                tone
            },
        ),
        _ => Seq::empty(),
    }
}

/// The lines of the blocks inside a tool result, one after the other.
pub open spec fn nested_lines(items: Seq<ContentItem>, tone: LineTone) -> Seq<(Seq<char>, LineTone)>
    decreases items,
{
    if items.len() == 0 {
        Seq::empty()
    } else {
        nested_lines(items.drop_last(), tone) + block_lines(items.last(), tone)
    }
}

/// The lines of a result's blocks, an empty line between two blocks.
pub open spec fn blocks_lines(items: Seq<ContentItem>, tone: LineTone) -> Seq<(Seq<char>, LineTone)>
    decreases items.len(),
{
    if items.len() == 0 {
        Seq::empty()
    } else {
        blocks_lines(items.drop_last(), tone) + (if items.len() > 1 {
            seq![(Seq::empty(), LineTone::Plain)]
        } else {
            Seq::empty()
        }) + block_lines(items.last(), tone)
    }
}

/// The separator above the structured content.
pub const STRUCTURED_SEPARATOR: &'static str = "── structured ──";

/// The line shown for a result with nothing to show.
pub const EMPTY_RESULT: &'static str = "(empty result)";

/// The raw tab: an error message alone; nothing without a result; else the
/// structured content (separator, pretty-printed lines, an empty line) and
/// the blocks, in the error tone when the result reports an error, or
/// `(empty result)` when that gives no line.
pub open spec fn raw_view(state: ResultState) -> Seq<(Seq<char>, LineTone)> {
    match state.error_display {
        Some(e) => seq![(e@, LineTone::Error)],
        None => match state.result {
            None => Seq::empty(),
            Some(r) => {
                let body = if r.is_error == Some(true) {
                    LineTone::Error
                } else {
                    LineTone::Plain
                };
                let structured = match r.structured_content {
                    Some(s) => seq![(STRUCTURED_SEPARATOR@, LineTone::Separator)] + toned(
                        text_lines(pretty_or_same(s@)),
                        body,
                    ) + seq![(Seq::empty(), LineTone::Plain)],
                    None => Seq::empty(),
                };
                let lines = structured + blocks_lines(r.content@, body);
                if lines.len() == 0 {
                    seq![(EMPTY_RESULT@, LineTone::Plain)]
                } else {
                    lines
                }
            },
        },
    }
}

/// The lines of a text (`str::lines`).
pub fn text_lines_of(s: &str) -> (r: Vec<String>)
    ensures
        r@.map_values(|l: String| l@) == text_lines(s@),
{
    let chars = chars_of(s);
    let pieces = split_chars(&chars, '\n');
    let ghost pv = pieces@.map_values(|p: Vec<char>| p@);
    assert(pv.len() >= 1);
    let n = pieces.len();
    let ended = chars.len() == 0 || chars[chars.len() - 1] == '\n';
    let keep = if ended {
        n - 1
    } else {
        n
    };
    let ghost kept = if ended {
        pv.drop_last()
    } else {
        pv
    };
    let mut r: Vec<String> = Vec::new();
    let mut k: usize = 0;
    while k < keep
        invariant
            n == pieces.len(),
            pv == pieces@.map_values(|p: Vec<char>| p@),
            pv.len() >= 1,
            kept.len() == keep,
            keep <= n,
            forall|j: int| 0 <= j < keep ==> kept[j] == pv[j],
            k <= keep,
            r@.map_values(|l: String| l@) == text_lines(s@).take(k as int),
            text_lines(s@).len() == keep,
            forall|j: int|
                0 <= j < keep ==> #[trigger] text_lines(s@)[j] == (if j + 1 < n {
                    without_cr(kept[j])
                } else {
                    kept[j]
                }),
        decreases keep - k,
    {
        let piece = &pieces[k];
        assert(piece@ == pv[k as int]);
        let line = if k + 1 < n && piece.len() > 0 && piece[piece.len() - 1] == '\r' {
            string_from_range(piece, 0, piece.len() - 1)
        } else {
            string_from_chars(piece)
        };
        assert(line@ == text_lines(s@)[k as int]) by {
            if k + 1 < n && piece.len() > 0 && piece@.last() == '\r' {
                assert(piece@.subrange(0, piece@.len() - 1) =~= piece@.drop_last());
            }
        }
        let ghost before = r@;
        r.push(line);
        assert(r@.map_values(|l: String| l@) =~= before.map_values(|l: String| l@).push(line@));
        assert(text_lines(s@).take(k + 1) =~= text_lines(s@).take(k as int).push(text_lines(s@)[k as int]));
        k = k + 1;
    }
    assert(text_lines(s@).take(keep as int) =~= text_lines(s@));
    r
}

/// Appends one line.
fn push_line(out: &mut Vec<ShownLine>, text: String, tone: LineTone)
    ensures
        shown(final(out)@) == shown(old(out)@).push((text@, tone)),
{
    let ghost before = out@;
    out.push(ShownLine { text, tone });
    assert(shown(out@) =~= shown(before).push((text@, tone)));
}

/// Appends the lines of `text`, each in `tone`.
fn push_text(out: &mut Vec<ShownLine>, text: &str, tone: LineTone)
    ensures
        shown(final(out)@) == shown(old(out)@) + toned(text_lines(text@), tone),
{
    let lines = text_lines_of(text);
    let ghost lv = lines@.map_values(|l: String| l@);
    let ghost start = shown(out@);
    let mut i: usize = 0;
    while i < lines.len()
        invariant
            i <= lines.len(),
            lv == lines@.map_values(|l: String| l@),
            lv == text_lines(text@),
            shown(out@) == start + toned(lv.take(i as int), tone),
        decreases lines.len() - i,
    {
        push_line(out, lines[i].clone(), tone);
        assert(toned(lv.take(i + 1), tone) =~= toned(lv.take(i as int), tone).push((lv[i as int], tone)));
        i = i + 1;
    }
    assert(lv.take(lines.len() as int) =~= lv);
}

/// Appends the lines of one content block drawn in `tone`.
fn push_block(out: &mut Vec<ShownLine>, item: &ContentItem, tone: LineTone)
    ensures
        shown(final(out)@) == shown(old(out)@) + block_lines(*item, tone),
    decreases item,
{
    let ghost start = shown(out@);
    let caption_tone = match item {
        ContentItem::ResourceLink { .. } | ContentItem::TextResource { .. } => LineTone::ResourceCaption,
        ContentItem::ToolUse { .. } | ContentItem::ToolResult { .. } => LineTone::ToolCaption,
        _ => LineTone::MediaCaption,
    };
    let ghost caption = match content_caption(*item) {
        Some(c) => seq![(c, caption_tone)],
        None => Seq::<(Seq<char>, LineTone)>::empty(),
    };
    match content_caption_of(item) {
        Some(c) => push_line(out, c, caption_tone),
        None => {
            assert(shown(out@) =~= start + caption);
        },
    }
    assert(shown(out@) == start + caption);
    let ghost mid = shown(out@);
    match item {
        ContentItem::Text(t) => {
            let shown_text = match pretty_json(t.as_str()) {
                Some(p) => p,
                None => t.clone(),
            };
            push_text(out, shown_text.as_str(), tone);
        },
        ContentItem::TextResource { text, .. } => {
            push_text(out, text.as_str(), tone);
        },
        ContentItem::ToolResult { is_error, content, .. } => {
            let inner = if *is_error == Some(true) {
                LineTone::Error
            } else {
                tone
            };
            push_nested(out, content, inner);
        },
        _ => {
            assert(shown(out@) =~= mid + Seq::<(Seq<char>, LineTone)>::empty());
        },
    }
    assert(shown(out@) =~= start + block_lines(*item, tone));
}

/// Appends the lines of the blocks inside a tool result.
fn push_nested(out: &mut Vec<ShownLine>, items: &Vec<ContentItem>, tone: LineTone)
    ensures
        shown(final(out)@) == shown(old(out)@) + nested_lines(items@, tone),
    decreases items,
{
    let ghost start = shown(out@);
    let mut i: usize = 0;
    assert(nested_lines(items@.take(0), tone) =~= Seq::<(Seq<char>, LineTone)>::empty());
    assert(shown(out@) =~= start + nested_lines(items@.take(0), tone));
    while i < items.len()
        invariant
            i <= items@.len(),
            shown(out@) == start + nested_lines(items@.take(i as int), tone),
        decreases items@.len() - i,
    {
        proof {
            assert(items@.take(i + 1).drop_last() =~= items@.take(i as int));
            assert(decreases_to!(items => items@));
        }
        push_block(out, &items[i], tone);
        assert(shown(out@) =~= start + nested_lines(items@.take(i + 1), tone));
        i = i + 1;
    }
    assert(items@.take(items@.len() as int) =~= items@);
}

/// The lines of one content block drawn in `tone`.
pub fn block_lines_of(item: &ContentItem, tone: LineTone) -> (r: Vec<ShownLine>)
    ensures
        shown(r@) == block_lines(*item, tone),
{
    let mut out: Vec<ShownLine> = Vec::new();
    push_block(&mut out, item, tone);
    assert(shown(out@) =~= block_lines(*item, tone));
    out
}

/// The lines of the raw tab.
pub fn raw_lines(state: &ResultState) -> (r: Vec<ShownLine>)
    ensures
        shown(r@) == raw_view(*state),
{
    let mut out: Vec<ShownLine> = Vec::new();
    if let Some(e) = &state.error_display {
        push_line(&mut out, e.clone(), LineTone::Error);
        assert(shown(out@) =~= raw_view(*state));
        return out;
    }
    let result = match &state.result {
        Some(r) => r,
        None => {
            assert(shown(out@) =~= raw_view(*state));
            return out;
        },
    };
    let body = if result.is_error == Some(true) {
        LineTone::Error
    } else {
        LineTone::Plain
    };
    assert(shown(out@) =~= Seq::<(Seq<char>, LineTone)>::empty());
    if let Some(s) = &result.structured_content {
        push_line(&mut out, owned(STRUCTURED_SEPARATOR), LineTone::Separator);
        let shown_text = match pretty_json(s.as_str()) {
            Some(p) => p,
            None => s.clone(),
        };
        push_text(&mut out, shown_text.as_str(), body);
        push_line(&mut out, String::new(), LineTone::Plain);
    }
    let ghost structured = shown(out@);
    let mut i: usize = 0;
    assert(shown(out@) =~= structured + blocks_lines(result.content@.take(0), body));
    while i < result.content.len()
        invariant
            i <= result.content@.len(),
            shown(out@) == structured + blocks_lines(result.content@.take(i as int), body),
        decreases result.content@.len() - i,
    {
        assert(result.content@.take(i + 1).drop_last() =~= result.content@.take(i as int));
        if i > 0 {
            push_line(&mut out, String::new(), LineTone::Plain);
        }
        push_block(&mut out, &result.content[i], body);
        assert(shown(out@) =~= structured + blocks_lines(result.content@.take(i + 1), body));
        i = i + 1;
    }
    assert(result.content@.take(result.content@.len() as int) =~= result.content@);
    if out.len() == 0 {
        push_line(&mut out, owned(EMPTY_RESULT), LineTone::Plain);
    }
    assert(shown(out@) =~= raw_view(*state));
    out
}

} // verus!
