//! The texts of the tool list and the tool detail pane.

use vstd::prelude::*;

use crate::app::App;
use crate::mcp::types::{PropertySchema, SchemaKind, ToolInfo};
use crate::text::{append, chars_of, decimal_digits, owned, push_decimal, str_eq};
use crate::ui::tool_form::{lemma_lex_total, lex_le, lex_le_exec, lists};

verus! {

/// The tool list's title: the number of tools, or "shown/total" while a
/// filter is typed.
pub open spec fn list_title(filter: Seq<char>, shown: nat, total: nat) -> Seq<char> {
    if filter.len() == 0 {
        "Tools ("@ + decimal_digits(total) + ")"@
    } else {
        "Tools ("@ + decimal_digits(shown) + "/"@ + decimal_digits(total) + ")"@
    }
}

/// The title of the tool list.
pub fn tool_list_title(app: &App) -> (r: String)
    ensures
        r@ == list_title(app.filter_text@, app.filtered_indices@.len(), app.tools@.len()),
{
    let mut s = owned("Tools (");
    if app.filter_text.as_str().is_empty() {
        push_decimal(&mut s, app.tools.len());
    } else {
        push_decimal(&mut s, app.filtered_indices.len());
        append(&mut s, "/");
        push_decimal(&mut s, app.tools.len());
    }
    append(&mut s, ")");
    s
}

/// The detail pane's wording of a task badge.
pub open spec fn badge_text(badge: Seq<char>) -> Seq<char> {
    if badge == "[T!]"@ {
        "Task: required"@
    } else if badge == "[T?]"@ {
        "Task: optional"@
    } else {
        badge
    }
}

/// The detail pane's wording of a task badge.
pub fn badge_label(badge: &str) -> (r: &str)
    ensures
        r@ == badge_text(badge@),
{
    if str_eq(badge, "[T!]") {
        "Task: required"
    } else if str_eq(badge, "[T?]") {
        "Task: optional"
    } else {
        badge
    }
}

/// `parts` joined with `sep`.
pub open spec fn joined_by(parts: Seq<Seq<char>>, sep: Seq<char>) -> Seq<char>
    decreases parts.len(),
{
    if parts.len() == 0 {
        Seq::empty()
    } else if parts.len() == 1 {
        parts[0]
    } else {
        joined_by(parts.drop_last(), sep) + sep + parts.last()
    }
}

/// `parts` with `word` appended when `flag` is `Some(true)`.
pub open spec fn with_hint(parts: Seq<Seq<char>>, flag: Option<bool>, word: Seq<char>) -> Seq<Seq<char>> {
    if flag == Some(true) {
        parts.push(word)
    } else {
        parts
    }
}

/// The behaviour hints a tool's annotations set, in a fixed order.
pub open spec fn hint_words(tool: ToolInfo) -> Seq<Seq<char>> {
    with_hint(
        with_hint(
            with_hint(with_hint(Seq::empty(), tool.read_only_hint, "read-only"@), tool.destructive_hint, "destructive"@),
            tool.idempotent_hint,
            "idempotent"@,
        ),
        tool.open_world_hint,
        "open-world"@,
    )
}

fn add_hint(out: &mut String, count: &mut usize, flag: Option<bool>, word: &str, Ghost(parts): Ghost<Seq<Seq<char>>>)
    requires
        old(out)@ == joined_by(parts, " | "@),
        *old(count) == parts.len(),
        parts.len() < 4,
    ensures
        final(out)@ == joined_by(with_hint(parts, flag, word@), " | "@),
        *final(count) == with_hint(parts, flag, word@).len(),
{
    let set = match flag {
        Some(b) => b,
        None => false,
    };
    if set {
        if *count > 0 {
            append(out, " | ");
        }
        append(out, word);
        *count = *count + 1;
        proof {
            let p = parts.push(word@);
            assert(p.drop_last() =~= parts);
            if parts.len() == 0 {
                assert(p =~= seq![word@]);
            }
        }
    }
}

/// The annotation hints of a tool, joined with " | " (empty when none is
/// set).
pub fn annotation_hints(tool: &ToolInfo) -> (r: String)
    ensures
        r@ == joined_by(hint_words(*tool), " | "@),
{
    let mut out = String::new();
    let mut count: usize = 0;
    let ghost p0 = Seq::<Seq<char>>::empty();
    let ghost p1 = with_hint(p0, tool.read_only_hint, "read-only"@);
    let ghost p2 = with_hint(p1, tool.destructive_hint, "destructive"@);
    let ghost p3 = with_hint(p2, tool.idempotent_hint, "idempotent"@);
    add_hint(&mut out, &mut count, tool.read_only_hint, "read-only", Ghost(p0));
    add_hint(&mut out, &mut count, tool.destructive_hint, "destructive", Ghost(p1));
    add_hint(&mut out, &mut count, tool.idempotent_hint, "idempotent", Ghost(p2));
    add_hint(&mut out, &mut count, tool.open_world_hint, "open-world", Ghost(p3));
    out
}

/// The type name shown for a schema kind.
pub open spec fn kind_name(kind: SchemaKind) -> Seq<char> {
    match kind {
        SchemaKind::String { .. } => "string"@,
        SchemaKind::Number => "number"@,
        SchemaKind::Integer => "integer"@,
        SchemaKind::Boolean => "boolean"@,
        SchemaKind::Array => "array"@,
        SchemaKind::Object => "object"@,
    }
}

/// The type name shown for a property.
pub fn schema_type_name(kind: &SchemaKind) -> (r: &'static str)
    ensures
        r@ == kind_name(*kind),
{
    match kind {
        SchemaKind::String { .. } => "string",
        SchemaKind::Number => "number",
        SchemaKind::Integer => "integer",
        SchemaKind::Boolean => "boolean",
        SchemaKind::Array => "array",
        SchemaKind::Object => "object",
    }
}

/// The line of a parameter: its name, a star when required, its type, and
/// a note when the session supplies it.
pub open spec fn parameter_text(p: PropertySchema, required: bool) -> Seq<char> {
    "  "@ + p.name@ + (if required {
        "*"@
    } else {
        Seq::empty()
    }) + " : "@ + kind_name(p.kind) + if p.name@ == "account_id"@ {
        "  (from session)"@
    } else {
        Seq::empty()
    }
}

/// The detail pane's line for one parameter; `required` names the schema's
/// required properties.
pub fn parameter_label(p: &PropertySchema, required: &Option<Vec<String>>) -> (r: String)
    ensures
        r@ == parameter_text(
            *p,
            match required {
                Some(names) => lists(names@, p.name@),
                None => false,
            },
        ),
{
    let is_required = match required {
        Some(names) => {
            let mut found = false;
            let mut i: usize = 0;
            while i < names.len()
                invariant
                    i <= names@.len(),
                    found == exists|j: int| 0 <= j < i && names@[j]@ == p.name@,
                decreases names.len() - i,
            {
                if str_eq(names[i].as_str(), p.name.as_str()) {
                    found = true;
                }
                i = i + 1;
            }
            found
        },
        None => false,
    };
    let mut s = owned("  ");
    append(&mut s, p.name.as_str());
    if is_required {
        append(&mut s, "*");
    }
    append(&mut s, " : ");
    append(&mut s, schema_type_name(&p.kind));
    if str_eq(p.name.as_str(), "account_id") {
        append(&mut s, "  (from session)");
    }
    s
}

/// `order` lists each position of `props` once, by property name.
pub open spec fn sorted_by_name(props: Seq<PropertySchema>, order: Seq<usize>) -> bool {
    &&& order.len() == props.len()
    &&& forall|k: int| 0 <= k < order.len() ==> #[trigger] order[k] < props.len()
    &&& forall|k: int, l: int| 0 <= k < l < order.len() ==> order[k] != order[l]
    &&& forall|k: int| 0 <= k < order.len() - 1 ==> lex_le(#[trigger] props[order[k] as int].name@, props[order[k + 1] as int].name@)
}

/// The positions of the properties in the order the detail pane lists them:
/// by name.
pub fn parameter_order(props: &Vec<PropertySchema>) -> (r: Vec<usize>)
    ensures
        sorted_by_name(props@, r@),
{
    let mut names: Vec<Vec<char>> = Vec::new();
    let mut i: usize = 0;
    while i < props.len()
        invariant
            i <= props.len(),
            names@.len() == i,
            forall|k: int| 0 <= k < i ==> (#[trigger] names@[k])@ == props@[k].name@,
        decreases props.len() - i,
    {
        names.push(chars_of(props[i].name.as_str()));
        i = i + 1;
    }
    let mut order: Vec<usize> = Vec::new();
    let mut i: usize = 0;
    while i < props.len()
        invariant
            i <= props.len(),
            names@.len() == props@.len(),
            forall|k: int| 0 <= k < props@.len() ==> (#[trigger] names@[k])@ == props@[k].name@,
            order@.len() == i,
            forall|k: int| 0 <= k < order@.len() ==> #[trigger] order@[k] < i,
            forall|k: int, l: int| 0 <= k < l < order@.len() ==> order@[k] != order@[l],
            forall|k: int|
                0 <= k < order@.len() - 1 ==> lex_le(#[trigger] props@[order@[k] as int].name@, props@[order@[k + 1] as int].name@),
        decreases props.len() - i,
    {
        let mut p: usize = 0;
        while p < order.len() && lex_le_exec(&names[order[p]], &names[i])
            invariant
                p <= order@.len(),
                i < props@.len(),
                names@.len() == props@.len(),
                forall|k: int| 0 <= k < props@.len() ==> (#[trigger] names@[k])@ == props@[k].name@,
                forall|k: int| 0 <= k < order@.len() ==> #[trigger] order@[k] < i,
                forall|k: int| 0 <= k < p ==> lex_le(#[trigger] props@[order@[k] as int].name@, props@[i as int].name@),
            decreases order@.len() - p,
        {
            p = p + 1;
        }
        proof {
            if p < order@.len() {
                assert(!lex_le(props@[order@[p as int] as int].name@, props@[i as int].name@));
                lemma_lex_total(props@[order@[p as int] as int].name@, props@[i as int].name@);
            }
        }
        let ghost before = order@;
        order.insert(p, i);
        proof {
            assert(order@ == before.insert(p as int, i));
            assert forall|k: int| 0 <= k < order@.len() implies #[trigger] order@[k] < i + 1 by {
                if k < p {
                    assert(order@[k] == before[k]);
                } else if k > p {
                    assert(order@[k] == before[k - 1]);
                }
            }
            assert forall|k: int, l: int| 0 <= k < l < order@.len() implies order@[k] != order@[l] by {
                if k < p && l < p {
                    assert(order@[k] == before[k] && order@[l] == before[l]);
                } else if k < p && l == p {
                    assert(order@[k] == before[k]);
                } else if k < p && l > p {
                    assert(order@[k] == before[k] && order@[l] == before[l - 1]);
                } else if k == p {
                    assert(order@[l] == before[l - 1]);
                } else {
                    assert(order@[k] == before[k - 1] && order@[l] == before[l - 1]);
                }
            }
            assert forall|k: int| 0 <= k < order@.len() - 1 implies lex_le(
                #[trigger] props@[order@[k] as int].name@,
                props@[order@[k + 1] as int].name@,
            ) by {
                if k + 1 < p {
                    assert(order@[k] == before[k] && order@[k + 1] == before[k + 1]);
                } else if k + 1 == p {
                    assert(order@[k] == before[k]);
                } else if k == p {
                    assert(order@[k + 1] == before[k]);
                } else {
                    assert(order@[k] == before[k - 1] && order@[k + 1] == before[k]);
                }
            }
        }
        i = i + 1;
    }
    order
}

} // verus!
