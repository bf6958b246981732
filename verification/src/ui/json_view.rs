//! The friendly rendering of JSON results: keys as headings, nested values
//! indented, array items separated, scalars coloured by kind.

use vstd::prelude::*;

use crate::text::{append, owned};

verus! {

/// A JSON value, as the result pane reads it.
#[derive(Debug)]
pub enum JsonTree {
    Null,
    Bool(bool),
    /// A number, as its JSON text.
    Number(String),
    Str(String),
    Array(Vec<JsonTree>),
    /// Members in document order.
    Object(Vec<(String, JsonTree)>),
}

/// How a piece of a line is drawn.
#[derive(Debug, Clone, Copy, PartialEq, Eq, Structural)]
pub enum Tone {
    /// Indentation.
    Plain,
    /// A key that heads a nested value.
    Heading,
    /// A key before a scalar, an item count, a separator.
    Dim,
    /// A string value.
    Text,
    /// A number.
    Number,
    /// `true`.
    True,
    /// `false`.
    False,
    /// `null`.
    Null,
}

/// A piece of a line.
#[derive(Debug)]
pub struct Piece {
    pub text: String,
    pub tone: Tone,
}

/// A line as pieces of text and their tones.
pub type LineView = Seq<(Seq<char>, Tone)>;

/// The view of a line.
pub open spec fn line_view(line: Vec<Piece>) -> LineView {
    line@.map_values(|p: Piece| (p.text@, p.tone))
}

/// The view of lines.
pub open spec fn lines_view(lines: Seq<Vec<Piece>>) -> Seq<LineView> {
    lines.map_values(|l: Vec<Piece>| line_view(l))
}

/// A scalar as one piece.
pub open spec fn scalar_piece(v: JsonTree) -> (Seq<char>, Tone) {
    match v {
        JsonTree::Str(s) => (s@, Tone::Text),
        JsonTree::Number(n) => (n@, Tone::Number),
        JsonTree::Bool(b) => if b {
            ("true"@, Tone::True)
        } else {
            ("false"@, Tone::False)
        },
        _ => ("null"@, Tone::Null),
    }
}

/// The lines of a value at an indentation: an object by its members, an
/// array by its items separated by `indent───` lines, a scalar on one line.
pub open spec fn friendly(v: JsonTree, indent: Seq<char>) -> Seq<LineView>
    decreases v,
{
    match v {
        JsonTree::Object(members) => members_lines(members@, indent),
        JsonTree::Array(items) => items_lines(items@, indent, indent + "───"@),
        _ => seq![seq![(indent, Tone::Plain), scalar_piece(v)]],
    }
}

/// The lines of object members, in order.
pub open spec fn members_lines(members: Seq<(String, JsonTree)>, indent: Seq<char>) -> Seq<LineView>
    decreases members,
{
    if members.len() == 0 {
        Seq::empty()
    } else {
        members_lines(members.drop_last(), indent) + member_lines(members.last(), indent)
    }
}

/// The lines of one member: a nested object under its key as a heading; a
/// nested array under its key and item count, items one level deeper and
/// separated by `indent  ───` lines; a scalar after its dimmed key.
pub open spec fn member_lines(member: (String, JsonTree), indent: Seq<char>) -> Seq<LineView>
    decreases member,
{
    let (key, val) = member;
    match val {
        JsonTree::Object(_) => seq![seq![(indent, Tone::Plain), (key@, Tone::Heading)]] + friendly(
            val,
            indent + "  "@,
        ),
        JsonTree::Array(items) => seq![
            seq![
                (indent, Tone::Plain),
                (key@ + "  "@, Tone::Heading),
                ("("@ + crate::text::decimal_digits(items@.len()) + " items)"@, Tone::Dim),
            ],
        ] + items_lines(items@, indent + "  "@, indent + "  ───"@),
        _ => seq![seq![(indent, Tone::Plain), (key@ + "  "@, Tone::Dim), scalar_piece(val)]],
    }
}

/// The lines of array items at an indentation, a `sep` line between two
/// items.
pub open spec fn items_lines(items: Seq<JsonTree>, indent: Seq<char>, sep: Seq<char>) -> Seq<LineView>
    decreases items,
{
    if items.len() == 0 {
        Seq::empty()
    } else {
        items_lines(items.drop_last(), indent, sep) + (if items.len() > 1 {
            seq![seq![(sep, Tone::Dim)]]
        } else {
            Seq::empty()
        }) + friendly(items.last(), indent)
    }
}


fn piece(text: String, tone: Tone) -> (r: Piece)
    ensures
        r.text == text,
        r.tone == tone,
{
    Piece { text, tone }
}

fn scalar_piece_of(v: &JsonTree) -> (r: Piece)
    ensures
        (r.text@, r.tone) == scalar_piece(*v),
{
    match v {
        JsonTree::Str(s) => piece(s.clone(), Tone::Text),
        JsonTree::Number(n) => piece(n.clone(), Tone::Number),
        JsonTree::Bool(b) => if *b {
            piece(owned("true"), Tone::True)
        } else {
            piece(owned("false"), Tone::False)
        },
        _ => piece(owned("null"), Tone::Null),
    }
}

fn indented(indent: &str, tail: &str) -> (r: String)
    ensures
        r@ == indent@ + tail@,
{
    let mut s = owned(indent);
    append(&mut s, tail);
    s
}

/// Appends `more` to `out`.
fn append_lines(out: &mut Vec<Vec<Piece>>, more: Vec<Vec<Piece>>)
    ensures
        lines_view(final(out)@) == lines_view(old(out)@) + lines_view(more@),
{
    let mut more = more;
    let ghost a = out@;
    let ghost b = more@;
    out.append(&mut more);
    assert(lines_view(out@) =~= lines_view(a) + lines_view(b));
}

/// The friendly lines of a JSON value at an indentation.
pub fn friendly_lines(v: &JsonTree, indent: &str) -> (r: Vec<Vec<Piece>>)
    ensures
        lines_view(r@) == friendly(*v, indent@),
    decreases v,
{
    match v {
        JsonTree::Object(members) => members_lines_of(members, indent),
        JsonTree::Array(items) => {
            let sep = indented(indent, "───");
            items_lines_of(items, indent, &sep)
        },
        _ => {
            let mut line: Vec<Piece> = Vec::new();
            line.push(piece(owned(indent), Tone::Plain));
            line.push(scalar_piece_of(v));
            let mut out: Vec<Vec<Piece>> = Vec::new();
            out.push(line);
            assert(lines_view(out@) =~~= friendly(*v, indent@));
            out
        },
    }
}

fn members_lines_of(members: &Vec<(String, JsonTree)>, indent: &str) -> (r: Vec<Vec<Piece>>)
    ensures
        lines_view(r@) == members_lines(members@, indent@),
    decreases members,
{
    let mut out: Vec<Vec<Piece>> = Vec::new();
    let mut i: usize = 0;
    while i < members.len()
        invariant
            i <= members@.len(),
            lines_view(out@) == members_lines(members@.take(i as int), indent@),
        decreases members@.len() - i,
    {
        proof {
            assert(members@.take(i + 1).drop_last() =~= members@.take(i as int));
            assert(decreases_to!(members => members@));
        }
        let more = member_lines_of(&members[i], indent);
        append_lines(&mut out, more);
        i = i + 1;
    }
    assert(members@.take(members@.len() as int) =~= members@);
    out
}

fn member_lines_of(member: &(String, JsonTree), indent: &str) -> (r: Vec<Vec<Piece>>)
    ensures
        lines_view(r@) == member_lines(*member, indent@),
    decreases member,
{
    let key = &member.0;
    let val = &member.1;
    let deeper = indented(indent, "  ");
    let mut head: Vec<Piece> = Vec::new();
    head.push(piece(owned(indent), Tone::Plain));
    match val {
        JsonTree::Object(_) => {
            head.push(piece(key.clone(), Tone::Heading));
            let mut out: Vec<Vec<Piece>> = Vec::new();
            out.push(head);
            let rest = friendly_lines(val, deeper.as_str());
            let ghost h = out@;
            assert(lines_view(h) =~~= seq![seq![(indent@, Tone::Plain), (key@, Tone::Heading)]]);
            append_lines(&mut out, rest);
            out
        },
        JsonTree::Array(items) => {
            head.push(piece(indented(key.as_str(), "  "), Tone::Heading));
            let mut count = owned("(");
            crate::text::push_decimal(&mut count, items.len());
            append(&mut count, " items)");
            head.push(piece(count, Tone::Dim));
            let mut out: Vec<Vec<Piece>> = Vec::new();
            out.push(head);
            let sep = indented(indent, "  ───");
            let rest = items_lines_of(items, deeper.as_str(), &sep);
            let ghost h = out@;
            assert(lines_view(h) =~~= seq![
                seq![
                    (indent@, Tone::Plain),
                    (key@ + "  "@, Tone::Heading),
                    ("("@ + crate::text::decimal_digits(items@.len()) + " items)"@, Tone::Dim),
                ],
            ]);
            append_lines(&mut out, rest);
            out
        },
        _ => {
            head.push(piece(indented(key.as_str(), "  "), Tone::Dim));
            head.push(scalar_piece_of(val));
            let mut out: Vec<Vec<Piece>> = Vec::new();
            out.push(head);
            assert(lines_view(out@) =~~= member_lines(*member, indent@));
            out
        },
    }
}

fn items_lines_of(items: &Vec<JsonTree>, indent: &str, sep: &str) -> (r: Vec<Vec<Piece>>)
    ensures
        lines_view(r@) == items_lines(items@, indent@, sep@),
    decreases items,
{
    let mut out: Vec<Vec<Piece>> = Vec::new();
    let mut i: usize = 0;
    while i < items.len()
        invariant
            i <= items@.len(),
            lines_view(out@) == items_lines(items@.take(i as int), indent@, sep@),
        decreases items@.len() - i,
    {
        proof {
            assert(items@.take(i + 1).drop_last() =~= items@.take(i as int));
            assert(decreases_to!(items => items@));
        }
        if i > 0 {
            let mut line: Vec<Piece> = Vec::new();
            line.push(piece(owned(sep), Tone::Dim));
            let mut one: Vec<Vec<Piece>> = Vec::new();
            one.push(line);
            assert(lines_view(one@) =~~= seq![seq![(sep@, Tone::Dim)]]);
            append_lines(&mut out, one);
        }
        let more = friendly_lines(&items[i], indent);
        append_lines(&mut out, more);
        i = i + 1;
    }
    assert(items@.take(items@.len() as int) =~= items@);
    out
}

} // verus!
