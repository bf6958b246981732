//! The `call` command: parameters from `key=value` flags, the tool lookup,
//! and the JSON output taken from a tool result.

use vstd::prelude::*;

use crate::json::{is_json, json_kind, json_kind_of, json_valid, JsonKind};
use crate::mcp::types::{
    first_text, first_text_block, ArgValue, ArgView, ToolArgs, ToolEntry, ToolResult,
};
use crate::text::{append, chars_of, encode_utf8_spec, find_char, is_first_index, owned, str_eq, string_from_range};

verus! {

/// The key and value of a `key=value` flag, split at the first `=`.
pub open spec fn param_pair(p: Seq<char>) -> Option<(Seq<char>, Seq<char>)> {
    if exists|i: int| is_first_index(p, '=', i) {
        let i = choose|i: int| is_first_index(p, '=', i);
        Some((p.take(i), p.skip(i + 1)))
    } else {
        None
    }
}

/// Whether a value of this kind is sent as JSON: numbers, booleans and
/// objects are; anything else is sent as a string.
pub open spec fn sent_as_json(kind: JsonKind) -> bool {
    kind == JsonKind::Number || kind == JsonKind::Bool || kind == JsonKind::Object
}

/// A flag's value: JSON when it is a JSON number, boolean or object,
/// otherwise a string.
pub open spec fn param_value(v: Seq<char>) -> ArgView {
    if sent_as_json(json_kind_of(encode_utf8_spec(v))) {
        ArgView::Json(v)
    } else {
        ArgView::Str(v)
    }
}

/// Error text for a flag without `=`.
pub open spec fn invalid_param_message(p: Seq<char>) -> Seq<char> {
    "invalid param '"@ + p + "': expected key=value"@
}

/// The arguments the flags denote, added to `acc` in order (a later flag
/// for the same key wins); the first flag without `=` is the error.
pub open spec fn parsed_params(acc: Map<Seq<char>, ArgView>, params: Seq<Seq<char>>) -> Result<
    Map<Seq<char>, ArgView>,
    Seq<char>,
>
    decreases params.len(),
{
    if params.len() == 0 {
        Ok(acc)
    } else {
        match param_pair(params[0]) {
            None => Err(invalid_param_message(params[0])),
            Some((k, v)) => parsed_params(acc.insert(k, param_value(v)), params.drop_first()),
        }
    }
}

/// A flag's value, given the kind of JSON value its text is: sent as JSON
/// for a number, a boolean or an object, otherwise as a string.
pub fn param_arg(value: String, kind: JsonKind) -> (r: ArgValue)
    ensures
        sent_as_json(kind) ==> r == ArgValue::Json(value),
        !sent_as_json(kind) ==> r == ArgValue::Str(value),
{
    match kind {
        JsonKind::Number | JsonKind::Bool | JsonKind::Object => ArgValue::Json(value),
        _ => ArgValue::Str(value),
    }
}

/// Parses `key=value` flags into tool arguments. A value is sent as JSON
/// when it is a JSON number, boolean or object; anything else (including
/// `null`, arrays and quoted strings) is sent as a string.
pub fn parse_params(params: &[String]) -> (r: Result<ToolArgs, String>)
    ensures
        match parsed_params(Map::empty(), params@.map_values(|s: String| s@)) {
            Ok(m) => r matches Ok(args) && args@ == m,
            Err(msg) => r matches Err(e) && e@ == msg,
        },
{
    let ghost ps = params@.map_values(|s: String| s@);
    let mut args = ToolArgs::new();
    let mut i: usize = 0;
    assert(ps.skip(0) =~= ps);
    while i < params.len()
        invariant
            i <= params@.len(),
            ps == params@.map_values(|s: String| s@),
            parsed_params(Map::empty(), ps) == parsed_params(args@, ps.skip(i as int)),
        decreases params@.len() - i,
    {
        let param = &params[i];
        let ghost rest = ps.skip(i as int);
        assert(rest[0] == param@);
        assert(rest.drop_first() =~= ps.skip(i + 1));
        let chars = chars_of(param.as_str());
        match find_char(&chars, '=') {
            None => {
                let mut m = owned("invalid param '");
                append(&mut m, param.as_str());
                append(&mut m, "': expected key=value");
                return Err(m);
            },
            Some(eq) => {
                proof {
                    let c = choose|j: int| is_first_index(param@, '=', j);
                    assert(c == eq) by {
                        if c < eq {
                        } else if c > eq {
                        }
                    }
                    assert(param@.take(eq as int) =~= chars@.subrange(0, eq as int));
                    assert(param@.skip(eq + 1) =~= chars@.subrange(eq + 1, chars@.len() as int));
                }
                let key = string_from_range(&chars, 0, eq);
                let value = string_from_range(&chars, eq + 1, chars.len());
                let kind = json_kind(value.as_str().as_bytes());
                args.insert(key, param_arg(value, kind));
            },
        }
        i = i + 1;
    }
    assert(ps.skip(params@.len() as int) =~= Seq::<Seq<char>>::empty());
    Ok(args)
}

/// The JSON printed for a tool result.
#[derive(Debug)]
pub enum JsonOutput {
    /// A JSON value, as its text.
    Json(String),
    /// A string value.
    Text(String),
    /// JSON `null`.
    Null,
}

/// Output priority: structured content, else the first text block (as JSON
/// when it parses, else as a string), else null.
pub open spec fn output_of(result: ToolResult) -> (Option<bool>, Seq<char>) {
    match result.structured_content {
        Some(s) => (Some(true), s@),
        None => match first_text(result.content@) {
            Some(t) => if json_valid(encode_utf8_spec(t)) {
                (Some(true), t)
            } else {
                (Some(false), t)
            },
            None => (None, Seq::empty()),
        },
    }
}

/// The output for a text block: the text as JSON when `is_json` says it
/// parses as JSON, otherwise as a string.
pub fn text_output(text: String, is_json: bool) -> (r: JsonOutput)
    ensures
        is_json ==> r == JsonOutput::Json(text),
        !is_json ==> r == JsonOutput::Text(text),
{
    if is_json {
        JsonOutput::Json(text)
    } else {
        JsonOutput::Text(text)
    }
}

/// The JSON output of a tool result: structured content first, then the
/// first text block parsed as JSON, then that text as a string, else null.
pub fn extract_json(result: &ToolResult) -> (r: JsonOutput)
    ensures
        match output_of(*result) {
            (Some(true), t) => r matches JsonOutput::Json(s) && s@ == t,
            (Some(false), t) => r matches JsonOutput::Text(s) && s@ == t,
            (None, _) => r is Null,
        },
{
    if let Some(structured) = &result.structured_content {
        return JsonOutput::Json(structured.clone());
    }
    match first_text_block(&result.content) {
        Some(text) => text_output(text.clone(), is_json(text.as_str().as_bytes())),
        None => JsonOutput::Null,
    }
}

/// The names joined with ", ".
pub open spec fn joined(names: Seq<Seq<char>>) -> Seq<char>
    decreases names.len(),
{
    if names.len() == 0 {
        Seq::empty()
    } else if names.len() == 1 {
        names[0]
    } else {
        joined(names.drop_last()) + ", "@ + names.last()
    }
}

/// Error text for a tool name that no server offers.
pub open spec fn tool_not_found_message(name: Seq<char>, available: Seq<Seq<char>>) -> Seq<char> {
    "tool '"@ + name + "' not found. Available tools: "@ + joined(available)
}

/// Names of the listed tools.
pub open spec fn tool_names(tools: Seq<ToolEntry>) -> Seq<Seq<char>> {
    tools.map_values(|t: ToolEntry| t.tool.name@)
}

/// Finds the first tool named `name`, or explains which tools exist.
pub fn find_tool(tools: &Vec<ToolEntry>, name: &str) -> (r: Result<usize, String>)
    ensures
        r matches Ok(i) ==> i < tools@.len() && tools@[i as int].tool.name@ == name@ && forall|j: int|
            0 <= j < i ==> tools@[j].tool.name@ != name@,
        r matches Err(m) ==> m@ == tool_not_found_message(name@, tool_names(tools@)) && forall|j: int|
            0 <= j < tools@.len() ==> tools@[j].tool.name@ != name@,
{
    let mut i: usize = 0;
    while i < tools.len()
        invariant
            i <= tools.len(),
            forall|j: int| 0 <= j < i ==> tools@[j].tool.name@ != name@,
        decreases tools.len() - i,
    {
        if str_eq(tools[i].tool.name.as_str(), name) {
            return Ok(i);
        }
        i = i + 1;
    }
    let mut m = owned("tool '");
    append(&mut m, name);
    append(&mut m, "' not found. Available tools: ");
    let mut k: usize = 0;
    let ghost prefix = m@;
    while k < tools.len()
        invariant
            k <= tools.len(),
            m@ == prefix + joined(tool_names(tools@).take(k as int)),
        decreases tools.len() - k,
    {
        let ghost names = tool_names(tools@);
        assert(names.take(k + 1).drop_last() =~= names.take(k as int));
        assert(names.take(k + 1).last() == tools@[k as int].tool.name@);
        if k > 0 {
            append(&mut m, ", ");
        }
        append(&mut m, tools[k].tool.name.as_str());
        proof {
            if k == 0 {
                assert(names.take(1) =~= seq![tools@[0].tool.name@]);
            }
            assert(m@ =~= prefix + joined(names.take(k + 1)));
        }
        k = k + 1;
    }
    assert(tool_names(tools@).take(tools.len() as int) =~= tool_names(tools@));
    Err(m)
}

/// The error reported for a tool result flagged as an error: the first text
/// block, or "unknown error".
pub open spec fn tool_error_message(result: ToolResult) -> Option<Seq<char>> {
    if result.is_error == Some(true) {
        Some(
            "tool returned error: "@ + match first_text(result.content@) {
                Some(t) => t,
                None => "unknown error"@,
            },
        )
    } else {
        None
    }
}

/// The error a tool result reports, if it is flagged as an error.
pub fn tool_error(result: &ToolResult) -> (r: Option<String>)
    ensures
        r matches Some(m) ==> tool_error_message(*result) == Some(m@),
        r is None ==> tool_error_message(*result) is None,
{
    if result.is_error == Some(true) {
        let mut m = owned("tool returned error: ");
        match first_text_block(&result.content) {
            Some(t) => append(&mut m, t.as_str()),
            None => append(&mut m, "unknown error"),
        }
        Some(m)
    } else {
        None
    }
}

} // verus!
