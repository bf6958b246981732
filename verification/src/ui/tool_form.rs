//! Parameter form for one tool call: fields built from the tool's input
//! schema, selection among the visible fields, and in-place editing.

use vstd::prelude::*;

use crate::mcp::types::{ArgValue, ArgView, InputSchema, PropertySchema, SchemaKind, ToolArgs};
use crate::text::{
    append, chars_of, owned, parse_i64, parse_i64_chars, pop_char, push_char, split_chars, split_seq, str_eq,
    string_from_chars, trim, trim_chars,
};

verus! {

/// The type of a form field, derived from the JSON Schema property type.
#[derive(Debug)]
pub enum FieldType {
    /// Free-text string input.
    Text,
    /// Integer numeric input.
    Integer,
    /// Floating-point numeric input.
    Number,
    /// Boolean toggle.
    Boolean,
    /// String with a fixed set of allowed values.
    Enum(Vec<String>),
    /// Array of strings entered as comma-separated values.
    Array,
}

/// A single field in the tool parameter form.
#[derive(Debug)]
pub struct FormField {
    /// The JSON property name.
    pub name: String,
    /// The kind of input control.
    pub field_type: FieldType,
    /// The current text value.
    pub value: String,
    /// Whether the schema requires this field.
    pub required: bool,
    /// Optional description from the schema.
    pub description: Option<String>,
    /// Injected from the session (e.g. account_id) and hidden from the form.
    pub managed: bool,
}

/// Form-level state for a single tool invocation.
#[derive(Debug)]
pub struct FormState {
    /// Name of the tool being invoked.
    pub tool_name: String,
    /// Fields parsed from the tool schema.
    pub fields: Vec<FormField>,
    /// Index of the selected field among the visible fields.
    pub selected_field: usize,
    /// Whether the selected field's value is being edited.
    pub editing: bool,
}

// ---------------------------------------------------------------------------
// Specifications
// ---------------------------------------------------------------------------

/// Positions of the visible (non-managed) fields, in order.
pub open spec fn visible_indices(fields: Seq<FormField>) -> Seq<int>
    decreases fields.len(),
{
    if fields.len() == 0 {
        Seq::empty()
    } else {
        let rest = visible_indices(fields.drop_last());
        if !fields.last().managed {
            rest.push(fields.len() - 1)
        } else {
            rest
        }
    }
}

/// Names of the visible required fields whose value is empty, in order.
pub open spec fn missing_names(fields: Seq<FormField>) -> Seq<Seq<char>>
    decreases fields.len(),
{
    if fields.len() == 0 {
        Seq::empty()
    } else {
        let rest = missing_names(fields.drop_last());
        let f = fields.last();
        if !f.managed && f.required && f.value@.len() == 0 {
            rest.push(f.name@)
        } else {
            rest
        }
    }
}

/// Position (in `fields`) of the selected visible field, if the selection
/// points at one.
pub open spec fn selected_position(fields: Seq<FormField>, selected: int) -> Option<int> {
    if 0 <= selected < visible_indices(fields).len() {
        Some(visible_indices(fields)[selected])
    } else {
        None
    }
}

/// Next selection among `count` visible fields (wrapping).
pub open spec fn next_selection(selected: int, count: int) -> int {
    if count > 0 {
        (selected + 1) % count
    } else {
        selected
    }
}

/// Previous selection among `count` visible fields (wrapping).
pub open spec fn prev_selection(selected: int, count: int) -> int {
    if count > 0 {
        (selected + count - 1) % count
    } else {
        selected
    }
}

/// A boolean field's value after a toggle.
pub open spec fn toggled(value: Seq<char>) -> Seq<char> {
    if value == "true"@ {
        "false"@
    } else {
        "true"@
    }
}

/// `i` is the first position of `v` in `values`.
pub open spec fn is_first_value(values: Seq<String>, v: Seq<char>, i: int) -> bool {
    &&& 0 <= i < values.len()
    &&& values[i]@ == v
    &&& forall|j: int| 0 <= j < i ==> values[j]@ != v
}

/// An enum field's value after cycling forward: the value after the current
/// one (wrapping), or the first value when the current one is not listed.
pub open spec fn cycled_forward(values: Seq<String>, v: Seq<char>) -> Seq<char> {
    if exists|i: int| is_first_value(values, v, i) {
        let i = choose|i: int| is_first_value(values, v, i);
        values[(i + 1) % values.len() as int]@
    } else if values.len() > 0 {
        values[0]@
    } else {
        v
    }
}

/// An enum field's value after cycling backward: the value before the
/// current one (wrapping), or the last value when the current one is not
/// listed.
pub open spec fn cycled_backward(values: Seq<String>, v: Seq<char>) -> Seq<char> {
    if exists|i: int| is_first_value(values, v, i) {
        let i = choose|i: int| is_first_value(values, v, i);
        values[(i + values.len() - 1) % values.len() as int]@
    } else if values.len() > 0 {
        values[values.len() - 1]@
    } else {
        v
    }
}

/// The value cycling forward gives an enum field; none for other fields.
pub open spec fn enum_forward(f: FormField) -> Option<Seq<char>> {
    match f.field_type {
        FieldType::Enum(values) => Some(cycled_forward(values@, f.value@)),
        _ => None,
    }
}

/// The value cycling backward gives an enum field; none for other fields.
pub open spec fn enum_backward(f: FormField) -> Option<Seq<char>> {
    match f.field_type {
        FieldType::Enum(values) => Some(cycled_backward(values@, f.value@)),
        _ => None,
    }
}

/// `new` equals `old` except that the value of the field at `pos` became
/// `value`.
pub open spec fn value_replaced(old: Seq<FormField>, new: Seq<FormField>, pos: int, value: Seq<char>) -> bool {
    &&& new.len() == old.len()
    &&& forall|j: int| 0 <= j < old.len() && j != pos ==> new[j] == old[j]
    &&& new[pos].name == old[pos].name
    &&& new[pos].field_type == old[pos].field_type
    &&& new[pos].required == old[pos].required
    &&& new[pos].description == old[pos].description
    &&& new[pos].managed == old[pos].managed
    &&& new[pos].value@ == value
}

/// The effect of an edit on the selected visible field: when the selection
/// points at a field and `f` gives it a new value, only that value changes;
/// otherwise nothing changes.
pub open spec fn edited(old: FormState, new: FormState, f: spec_fn(FormField) -> Option<Seq<char>>) -> bool {
    &&& new.tool_name == old.tool_name
    &&& new.selected_field == old.selected_field
    &&& new.editing == old.editing
    &&& match selected_position(old.fields@, old.selected_field as int) {
        Some(pos) => match f(old.fields@[pos]) {
            Some(v) => value_replaced(old.fields@, new.fields@, pos, v),
            None => new.fields@ == old.fields@,
        },
        None => new.fields@ == old.fields@,
    }
}

proof fn lemma_visible_indices_bounds(fields: Seq<FormField>)
    ensures
        visible_indices(fields).len() <= fields.len(),
        forall|k: int|
            0 <= k < visible_indices(fields).len() ==> 0 <= #[trigger] visible_indices(fields)[k] < fields.len()
                && !fields[visible_indices(fields)[k]].managed,
    decreases fields.len(),
{
    if fields.len() > 0 {
        lemma_visible_indices_bounds(fields.drop_last());
    }
}

proof fn lemma_visible_indices_same_flags(a: Seq<FormField>, b: Seq<FormField>)
    requires
        a.len() == b.len(),
        forall|j: int| 0 <= j < a.len() ==> a[j].managed == b[j].managed,
    ensures
        visible_indices(a) == visible_indices(b),
    decreases a.len(),
{
    if a.len() > 0 {
        lemma_visible_indices_same_flags(a.drop_last(), b.drop_last());
    }
}

proof fn lemma_take_drop_last(fields: Seq<FormField>, i: int)
    requires
        0 <= i < fields.len(),
    ensures
        fields.take(i + 1).drop_last() == fields.take(i),
        fields.take(i + 1).last() == fields[i],
{
    assert(fields.take(i + 1).drop_last() =~= fields.take(i));
}

// ---------------------------------------------------------------------------
// FormState
// ---------------------------------------------------------------------------

impl FormState {
    /// The visible (non-managed) fields with their positions.
    pub fn visible_fields(&self) -> (r: Vec<(usize, &FormField)>)
        ensures
            r@.len() == visible_indices(self.fields@).len(),
            forall|k: int|
                0 <= k < r@.len() ==> (#[trigger] r@[k]).0 as int == visible_indices(self.fields@)[k]
                    && *r@[k].1 == self.fields@[r@[k].0 as int],
    {
        let mut r: Vec<(usize, &FormField)> = Vec::new();
        let mut i: usize = 0;
        while i < self.fields.len()
            invariant
                i <= self.fields.len(),
                r@.len() == visible_indices(self.fields@.take(i as int)).len(),
                forall|k: int|
                    0 <= k < r@.len() ==> (#[trigger] r@[k]).0 as int == visible_indices(
                        self.fields@.take(i as int),
                    )[k] && *r@[k].1 == self.fields@[r@[k].0 as int],
            decreases self.fields.len() - i,
        {
            proof {
                lemma_take_drop_last(self.fields@, i as int);
            }
            if !self.fields[i].managed {
                r.push((i, &self.fields[i]));
            }
            i = i + 1;
        }
        assert(self.fields@.take(self.fields.len() as int) =~= self.fields@);
        r
    }

    /// Number of visible fields.
    pub fn visible_count(&self) -> (r: usize)
        ensures
            r == visible_indices(self.fields@).len(),
    {
        let mut n: usize = 0;
        let mut i: usize = 0;
        while i < self.fields.len()
            invariant
                i <= self.fields.len(),
                n == visible_indices(self.fields@.take(i as int)).len(),
                n <= i,
            decreases self.fields.len() - i,
        {
            proof {
                lemma_take_drop_last(self.fields@, i as int);
            }
            if !self.fields[i].managed {
                n = n + 1;
            }
            i = i + 1;
        }
        assert(self.fields@.take(self.fields.len() as int) =~= self.fields@);
        n
    }

    /// Whether the tool has visible required fields (needs user input).
    pub fn has_required_input(&self) -> (r: bool)
        ensures
            r == exists|i: int|
                0 <= i < self.fields@.len() && !self.fields@[i].managed && self.fields@[i].required,
    {
        let mut i: usize = 0;
        while i < self.fields.len()
            invariant
                i <= self.fields.len(),
                forall|j: int| 0 <= j < i ==> !(!self.fields@[j].managed && self.fields@[j].required),
            decreases self.fields.len() - i,
        {
            if !self.fields[i].managed && self.fields[i].required {
                return true;
            }
            i = i + 1;
        }
        false
    }

    /// Names of visible required fields that are still empty.
    pub fn missing_required(&self) -> (r: Vec<&str>)
        ensures
            r@.map_values(|s: &str| s@) == missing_names(self.fields@),
    {
        let mut r: Vec<&str> = Vec::new();
        let mut i: usize = 0;
        while i < self.fields.len()
            invariant
                i <= self.fields.len(),
                r@.map_values(|s: &str| s@) == missing_names(self.fields@.take(i as int)),
            decreases self.fields.len() - i,
        {
            proof {
                lemma_take_drop_last(self.fields@, i as int);
            }
            let f = &self.fields[i];
            if !f.managed && f.required && f.value.as_str().is_empty() {
                r.push(f.name.as_str());
            }
            proof {
                assert(r@.map_values(|s: &str| s@) =~= missing_names(self.fields@.take(i + 1)));
            }
            i = i + 1;
        }
        assert(self.fields@.take(self.fields.len() as int) =~= self.fields@);
        r
    }

    /// Whether the form can be submitted (no visible required field is empty).
    pub fn is_ready(&self) -> (r: bool)
        ensures
            r == (missing_names(self.fields@).len() == 0),
    {
        let missing = self.missing_required();
        assert(missing@.map_values(|s: &str| s@).len() == missing@.len());
        missing.len() == 0
    }

    /// Moves the selection to the next visible field, wrapping around.
    pub fn select_next(&mut self)
        ensures
            *final(self) == (FormState {
                selected_field: next_selection(
                    old(self).selected_field as int,
                    visible_indices(old(self).fields@).len() as int,
                ) as usize,
                ..*old(self)
            }),
    {
        let count = self.visible_count();
        let sel = self.selected_field;
        if count > 0 {
            let s = sel % count;
            self.selected_field = if s + 1 == count {
                0
            } else {
                s + 1
            };
            let next = self.selected_field;
            assert((sel + 1) % (count as int) == next as int)
                by (nonlinear_arith)
                requires
                    count > 0,
                    s == sel % count,
                    next == (if s + 1 == count {
                        0
                    } else {
                        s + 1
                    }),
            ;
        }
    }

    /// Moves the selection to the previous visible field, wrapping around.
    pub fn select_prev(&mut self)
        ensures
            *final(self) == (FormState {
                selected_field: prev_selection(
                    old(self).selected_field as int,
                    visible_indices(old(self).fields@).len() as int,
                ) as usize,
                ..*old(self)
            }),
    {
        let count = self.visible_count();
        let sel = self.selected_field;
        if count > 0 {
            let s = sel % count;
            self.selected_field = if s == 0 {
                count - 1
            } else {
                s - 1
            };
            let prev = self.selected_field;
            assert((sel + count - 1) % (count as int) == prev as int)
                by (nonlinear_arith)
                requires
                    count > 0,
                    s == sel % count,
                    prev == (if s == 0 {
                        count - 1
                    } else {
                        s - 1
                    }),
            ;
        }
    }

    /// Position in `fields` of the selected visible field, if any.
    fn selected_index(&self) -> (r: Option<usize>)
        ensures
            r matches Some(p) ==> selected_position(self.fields@, self.selected_field as int) == Some(
                p as int,
            ),
            r is None ==> selected_position(self.fields@, self.selected_field as int) is None,
            r matches Some(p) ==> p < self.fields@.len(),
    {
        let visible = self.visible_fields();
        proof {
            lemma_visible_indices_bounds(self.fields@);
        }
        if self.selected_field < visible.len() {
            Some(visible[self.selected_field].0)
        } else {
            None
        }
    }

    /// The selected visible field, if the selection points at one.
    pub fn selected_field_mut(&mut self) -> (r: Option<&mut FormField>)
        ensures
            r is Some <==> selected_position(old(self).fields@, old(self).selected_field as int) is Some,
            r matches Some(f) ==> ({
                let pos = selected_position(old(self).fields@, old(self).selected_field as int)->0;
                &&& 0 <= pos < old(self).fields@.len()
                &&& *f == old(self).fields@[pos]
                &&& final(self).fields@ == old(self).fields@.update(pos, *final(f))
            }),
            r is None ==> final(self).fields@ == old(self).fields@,
            final(self).tool_name == old(self).tool_name,
            final(self).selected_field == old(self).selected_field,
            final(self).editing == old(self).editing,
    {
        proof {
            lemma_visible_indices_bounds(self.fields@);
        }
        match self.selected_index() {
            Some(p) => Some(&mut self.fields[p]),
            None => None,
        }
    }

    /// Toggles the selected field when it is a boolean.
    pub fn toggle_boolean(&mut self)
        ensures
            edited(
                *old(self),
                *final(self),
                |f: FormField|
                    if f.field_type is Boolean {
                        Some(toggled(f.value@))
                    } else {
                        None
                    },
            ),
    {
        if let Some(field) = self.selected_field_mut() {
            let is_bool = match field.field_type {
                FieldType::Boolean => true,
                _ => false,
            };
            if is_bool {
                let v = if str_eq(field.value.as_str(), "true") {
                    owned("false")
                } else {
                    owned("true")
                };
                field.value = v;
            }
        }
        proof {
            if old(self).fields@[selected_position(old(self).fields@, old(self).selected_field as int)->0].field_type !is Boolean {
                assert(self.fields@ =~= old(self).fields@);
            }
        }
    }

    /// Cycles the selected field forward through its enum values.
    pub fn cycle_enum_forward(&mut self)
        ensures
            edited(*old(self), *final(self), |f: FormField| enum_forward(f)),
    {
        if let Some(field) = self.selected_field_mut() {
            let next = match &field.field_type {
                FieldType::Enum(values) => Some(next_enum_value(values, &field.value)),
                _ => None,
            };
            if let Some(v) = next {
                field.value = v;
            }
        }
        proof {
            if old(self).fields@[selected_position(old(self).fields@, old(self).selected_field as int)->0].field_type !is Enum {
                assert(self.fields@ =~= old(self).fields@);
            }
        }
    }

    /// Cycles the selected field backward through its enum values.
    pub fn cycle_enum_backward(&mut self)
        ensures
            edited(*old(self), *final(self), |f: FormField| enum_backward(f)),
    {
        if let Some(field) = self.selected_field_mut() {
            let prev = match &field.field_type {
                FieldType::Enum(values) => Some(prev_enum_value(values, &field.value)),
                _ => None,
            };
            if let Some(v) = prev {
                field.value = v;
            }
        }
        proof {
            if old(self).fields@[selected_position(old(self).fields@, old(self).selected_field as int)->0].field_type !is Enum {
                assert(self.fields@ =~= old(self).fields@);
            }
        }
    }

    /// Appends a character to the selected field's value.
    pub fn push_char(&mut self, ch: char)
        ensures
            edited(*old(self), *final(self), |f: FormField| Some(f.value@.push(ch))),
    {
        if let Some(field) = self.selected_field_mut() {
            push_char(&mut field.value, ch);
        }
    }

    /// Appends a string to the selected field's value.
    pub fn push_str(&mut self, text: &str)
        ensures
            edited(*old(self), *final(self), |f: FormField| Some(f.value@ + text@)),
    {
        if let Some(field) = self.selected_field_mut() {
            append(&mut field.value, text);
        }
    }

    /// Deletes the last character of the selected field's value.
    pub fn pop_char(&mut self)
        ensures
            edited(
                *old(self),
                *final(self),
                |f: FormField|
                    if f.value@.len() > 0 {
                        Some(f.value@.drop_last())
                    } else {
                        Some(f.value@)
                    },
            ),
    {
        if let Some(field) = self.selected_field_mut() {
            pop_char(&mut field.value);
        }
    }
}

/// Position of the first value equal to `v`.
fn position_of(values: &Vec<String>, v: &String) -> (r: Option<usize>)
    ensures
        r matches Some(i) ==> is_first_value(values@, v@, i as int),
        r is None ==> !exists|i: int| is_first_value(values@, v@, i),
{
    let mut i: usize = 0;
    while i < values.len()
        invariant
            i <= values.len(),
            forall|j: int| 0 <= j < i ==> values@[j]@ != v@,
        decreases values.len() - i,
    {
        if str_eq(values[i].as_str(), v.as_str()) {
            return Some(i);
        }
        i = i + 1;
    }
    None
}

/// The enum value after `v`.
fn next_enum_value(values: &Vec<String>, v: &String) -> (r: String)
    ensures
        r@ == cycled_forward(values@, v@),
{
    match position_of(values, v) {
        Some(i) => {
            proof {
                let c = choose|j: int| is_first_value(values@, v@, j);
                assert(c == i) by {
                    if c < i {
                    } else if c > i {
                    }
                }
            }
            let n = values.len();
            assert(i < n);
            let j = if i + 1 == values.len() {
                0
            } else {
                i + 1
            };
            assert(j as int == (i + 1) % (values.len() as int)) by (nonlinear_arith)
                requires
                    i < values.len(),
                    j == (if i + 1 == values.len() {
                        0
                    } else {
                        i + 1
                    }),
            ;
            values[j].clone()
        },
        None => {
            if values.len() > 0 {
                values[0].clone()
            } else {
                v.clone()
            }
        },
    }
}

/// The enum value before `v`.
fn prev_enum_value(values: &Vec<String>, v: &String) -> (r: String)
    ensures
        r@ == cycled_backward(values@, v@),
{
    match position_of(values, v) {
        Some(i) => {
            proof {
                let c = choose|j: int| is_first_value(values@, v@, j);
                assert(c == i) by {
                    if c < i {
                    } else if c > i {
                    }
                }
            }
            let n = values.len();
            let j = if i == 0 {
                n - 1
            } else {
                i - 1
            };
            assert(j as int == (i + n - 1) % (n as int)) by (nonlinear_arith)
                requires
                    i < n,
                    j == (if i == 0 {
                        n - 1
                    } else {
                        i - 1
                    }),
            ;
            values[j].clone()
        },
        None => {
            if values.len() > 0 {
                values[values.len() - 1].clone()
            } else {
                v.clone()
            }
        },
    }
}

// ---------------------------------------------------------------------------
// Form laws
// ---------------------------------------------------------------------------

/// Moving the selection down and then up returns to the same field.
pub proof fn lemma_select_next_then_prev(selected: int, count: int)
    requires
        0 <= selected < count,
    ensures
        prev_selection(next_selection(selected, count), count) == selected,
{
    assert(prev_selection(next_selection(selected, count), count) == selected) by (nonlinear_arith)
        requires
            0 <= selected < count,
            next_selection(selected, count) == (selected + 1) % count,
            prev_selection(next_selection(selected, count), count) == ((selected + 1) % count + count - 1)
                % count,
    ;
}

/// Toggling a boolean field twice restores its value.
pub proof fn lemma_toggle_twice(value: Seq<char>)
    requires
        value == "true"@ || value == "false"@,
    ensures
        toggled(toggled(value)) == value,
{
    reveal_strlit("true");
    reveal_strlit("false");
}

/// Cycling an enum field forward and then backward restores its value, when
/// the enum lists distinct values and the current value is one of them.
pub proof fn lemma_cycle_forward_then_backward(values: Seq<String>, v: Seq<char>, i: int)
    requires
        0 <= i < values.len(),
        values[i]@ == v,
        forall|a: int, b: int| 0 <= a < values.len() && 0 <= b < values.len() && a != b ==> values[a]@ != values[b]@,
    ensures
        cycled_backward(values, cycled_forward(values, v)) == v,
{
    let n = values.len() as int;
    assert(is_first_value(values, v, i));
    let c = choose|j: int| is_first_value(values, v, j);
    assert(c == i);
    let k = (i + 1) % n;
    assert(0 <= k < n) by (nonlinear_arith)
        requires
            n > 0,
            k == (i + 1) % n,
    ;
    let w = values[k]@;
    assert(is_first_value(values, w, k));
    let c2 = choose|j: int| is_first_value(values, w, j);
    assert(c2 == k);
    assert((k + n - 1) % n == i) by (nonlinear_arith)
        requires
            0 <= i < n,
            k == (i + 1) % n,
    ;
}

/// Cycling an enum field backward and then forward restores its value, when
/// the enum lists distinct values and the current value is one of them.
pub proof fn lemma_cycle_backward_then_forward(values: Seq<String>, v: Seq<char>, i: int)
    requires
        0 <= i < values.len(),
        values[i]@ == v,
        forall|a: int, b: int| 0 <= a < values.len() && 0 <= b < values.len() && a != b ==> values[a]@ != values[b]@,
    ensures
        cycled_forward(values, cycled_backward(values, v)) == v,
{
    let n = values.len() as int;
    assert(is_first_value(values, v, i));
    let c = choose|j: int| is_first_value(values, v, j);
    assert(c == i);
    let k = (i + n - 1) % n;
    assert(0 <= k < n) by (nonlinear_arith)
        requires
            0 <= i < n,
            k == (i + n - 1) % n,
    ;
    let w = values[k]@;
    assert(is_first_value(values, w, k));
    let c2 = choose|j: int| is_first_value(values, w, j);
    assert(c2 == k);
    assert((k + 1) % n == i) by (nonlinear_arith)
        requires
            0 <= i < n,
            k == (i + n - 1) % n,
    ;
}

/// Cycling the selected enum field of a form one way and then the other
/// gives the field back its value and leaves the rest of the form as it
/// was, when the enum lists distinct values and the value is one of them.
pub proof fn lemma_form_cycle_round_trip(s0: FormState, s1: FormState, s2: FormState, forward_first: bool)
    requires
        selected_position(s0.fields@, s0.selected_field as int) matches Some(pos) && (
        s0.fields@[pos].field_type matches FieldType::Enum(values) && (exists|i: int|
            0 <= i < values@.len() && #[trigger] values@[i]@ == s0.fields@[pos].value@)
            && forall|a: int, b: int|
            0 <= a < values@.len() && 0 <= b < values@.len() && a != b ==> values@[a]@ != values@[b]@),
        forward_first ==> edited(s0, s1, |f: FormField| enum_forward(f)) && edited(
            s1,
            s2,
            |f: FormField| enum_backward(f),
        ),
        !forward_first ==> edited(s0, s1, |f: FormField| enum_backward(f)) && edited(
            s1,
            s2,
            |f: FormField| enum_forward(f),
        ),
    ensures
        s2.tool_name == s0.tool_name,
        s2.selected_field == s0.selected_field,
        s2.editing == s0.editing,
        selected_position(s0.fields@, s0.selected_field as int) matches Some(pos) && value_replaced(
            s0.fields@,
            s2.fields@,
            pos,
            s0.fields@[pos].value@,
        ),
{
    let pos = selected_position(s0.fields@, s0.selected_field as int)->0;
    let values = s0.fields@[pos].field_type->Enum_0;
    let v = s0.fields@[pos].value@;
    let i = choose|i: int| 0 <= i < values@.len() && #[trigger] values@[i]@ == v;
    lemma_visible_indices_bounds(s0.fields@);
    let w = if forward_first {
        cycled_forward(values@, v)
    } else {
        cycled_backward(values@, v)
    };
    assert(value_replaced(s0.fields@, s1.fields@, pos, w));
    lemma_visible_indices_same_flags(s0.fields@, s1.fields@);
    assert(selected_position(s1.fields@, s1.selected_field as int) == Some(pos));
    assert(s1.fields@[pos].field_type == s0.fields@[pos].field_type);
    if forward_first {
        lemma_cycle_forward_then_backward(values@, v, i);
        assert(enum_backward(s1.fields@[pos]) == Some(v));
    } else {
        lemma_cycle_backward_then_forward(values@, v, i);
        assert(enum_forward(s1.fields@[pos]) == Some(v));
    }
    assert(value_replaced(s1.fields@, s2.fields@, pos, v));
}

/// A number field is sent as a JSON number, never as a string: when an
/// included field (required, or with a value) of type number is the last
/// field carrying its name, the assembled argument of that name is the
/// number its text denotes.
pub proof fn lemma_number_fields_sent_as_numbers(fields: Seq<FormField>, i: int)
    requires
        0 <= i < fields.len(),
        fields[i].field_type is Number,
        fields[i].required || fields[i].value@.len() > 0,
        forall|j: int| i < j < fields.len() ==> fields[j].name@ != fields[i].name@,
    ensures
        assembled(fields).contains_key(fields[i].name@),
        assembled(fields)[fields[i].name@] == ArgView::NumberText(fields[i].value@),
    decreases fields.len(),
{
    if i < fields.len() - 1 {
        lemma_number_fields_sent_as_numbers(fields.drop_last(), i);
        assert(fields.drop_last()[i] == fields[i]);
    }
}

/// Typing a character and deleting it again restores the value.
pub proof fn lemma_push_then_pop(value: Seq<char>, ch: char)
    ensures
        value.push(ch).drop_last() == value,
{
    assert(value.push(ch).drop_last() =~= value);
}

// ---------------------------------------------------------------------------
// Schema parsing
// ---------------------------------------------------------------------------

/// Lexicographic order on characters (the order of `String`'s `Ord`).
pub open spec fn lex_le(a: Seq<char>, b: Seq<char>) -> bool {
    ||| (a.len() <= b.len() && a == b.take(a.len() as int))
    ||| exists|i: int| 0 <= i < a.len() && i < b.len() && a.take(i) == b.take(i) && a[i] < b[i]
}

/// Form order: required fields first, then by name.
pub open spec fn field_le(a: FormField, b: FormField) -> bool {
    (a.required && !b.required) || (a.required == b.required && lex_le(a.name@, b.name@))
}

/// Consecutive fields are in form order.
pub open spec fn sorted_fields(fields: Seq<FormField>) -> bool {
    forall|i: int| 0 <= i < fields.len() - 1 ==> field_le(#[trigger] fields[i], fields[i + 1])
}

/// `perm` lists each of `0..n` exactly once.
pub open spec fn is_permutation(perm: Seq<int>, n: int) -> bool {
    &&& perm.len() == n
    &&& forall|i: int| 0 <= i < n ==> 0 <= #[trigger] perm[i] < n
    &&& forall|i: int, j: int| 0 <= i < n && 0 <= j < n && i != j ==> perm[i] != perm[j]
}

/// The view of an optional string.
pub open spec fn opt_view(o: Option<String>) -> Option<Seq<char>> {
    match o {
        Some(s) => Some(s@),
        None => None,
    }
}

/// Whether `names` lists `name`.
pub open spec fn lists(names: Seq<String>, name: Seq<char>) -> bool {
    exists|i: int| 0 <= i < names.len() && names[i]@ == name
}

/// The required names of a schema (none when the list is absent).
pub open spec fn required_names(schema: InputSchema) -> Seq<String> {
    match schema.required {
        Some(r) => r@,
        None => Seq::empty(),
    }
}

/// The control a schema type is edited with.
pub open spec fn field_type_for(ft: FieldType, kind: SchemaKind) -> bool {
    match kind {
        SchemaKind::String { enum_values: Some(values) } => ft matches FieldType::Enum(v) && v@ == values@,
        SchemaKind::String { enum_values: None } => ft is Text,
        SchemaKind::Integer => ft is Integer,
        SchemaKind::Number => ft is Number,
        SchemaKind::Boolean => ft is Boolean,
        SchemaKind::Array => ft is Array,
        SchemaKind::Object => ft is Text,
    }
}

/// The initial value of a field: the first enum value, "false" for booleans,
/// empty otherwise.
pub open spec fn default_value(kind: SchemaKind) -> Seq<char> {
    match kind {
        SchemaKind::String { enum_values: Some(values) } => if values@.len() > 0 {
            values@[0]@
        } else {
            Seq::empty()
        },
        SchemaKind::Boolean => "false"@,
        _ => Seq::empty(),
    }
}

/// `f` is the form field for property `p`.
pub open spec fn field_for(f: FormField, p: PropertySchema, required: Seq<String>, managed: Seq<String>) -> bool {
    &&& f.name@ == p.name@
    &&& field_type_for(f.field_type, p.kind)
    &&& f.value@ == default_value(p.kind)
    &&& f.required == lists(required, p.name@)
    &&& f.managed == lists(managed, p.name@)
    &&& opt_view(f.description) == opt_view(p.description)
}

pub(crate) proof fn lemma_lex_total(a: Seq<char>, b: Seq<char>)
    ensures
        lex_le(a, b) || lex_le(b, a),
{
    let m = if a.len() <= b.len() {
        a.len() as int
    } else {
        b.len() as int
    };
    if forall|i: int| 0 <= i < m ==> a[i] == b[i] {
        if a.len() <= b.len() {
            assert(a =~= b.take(a.len() as int));
        } else {
            assert(b =~= a.take(b.len() as int));
        }
    } else {
        let k = choose|i: int| 0 <= i < m && a[i] != b[i];
        assert(exists|i: int| 0 <= i < m && a[i] != b[i]);
        // the first difference
        let first = choose|i: int| 0 <= i < m && a[i] != b[i] && forall|j: int| 0 <= j < i ==> a[j] == b[j];
        assert(exists|i: int| 0 <= i < m && a[i] != b[i] && forall|j: int| 0 <= j < i ==> a[j] == b[j]) by {
            lemma_first_difference(a, b, m, k);
        }
        assert(a.take(first) =~= b.take(first));
        if a[first] < b[first] {
            assert(lex_le(a, b));
        } else {
            assert(lex_le(b, a));
        }
    }
}

proof fn lemma_first_difference(a: Seq<char>, b: Seq<char>, m: int, k: int)
    requires
        0 <= k < m,
        m <= a.len(),
        m <= b.len(),
        a[k] != b[k],
    ensures
        exists|i: int| 0 <= i < m && a[i] != b[i] && forall|j: int| 0 <= j < i ==> a[j] == b[j],
    decreases k,
{
    if forall|j: int| 0 <= j < k ==> a[j] == b[j] {
    } else {
        let k2 = choose|j: int| 0 <= j < k && a[j] != b[j];
        lemma_first_difference(a, b, m, k2);
    }
}

/// Lexicographic comparison of two character sequences.
pub(crate) fn lex_le_exec(a: &Vec<char>, b: &Vec<char>) -> (r: bool)
    ensures
        r == lex_le(a@, b@),
{
    let mut i: usize = 0;
    while i < a.len() && i < b.len()
        invariant
            i <= a.len(),
            i <= b.len(),
            forall|j: int| 0 <= j < i ==> a@[j] == b@[j],
        decreases a.len() - i,
    {
        if a[i] != b[i] {
            let r = a[i] < b[i];
            proof {
                assert(a@.take(i as int) =~= b@.take(i as int));
                if r {
                    assert(lex_le(a@, b@));
                } else {
                    assert forall|k: int|
                        !(0 <= k < a@.len() && k < b@.len() && a@.take(k) == b@.take(k) && a@[k] < b@[k]) by {
                        if 0 <= k < a@.len() && k < b@.len() && a@.take(k) == b@.take(k) {
                            if k < i {
                            } else if k > i {
                                assert(a@.take(k)[i as int] == b@.take(k)[i as int]);
                            }
                        }
                    }
                    if a@.len() <= b@.len() && a@ == b@.take(a@.len() as int) {
                        assert(a@[i as int] == b@.take(a@.len() as int)[i as int]);
                    }
                }
            }
            return r;
        }
        i = i + 1;
    }
    let r = a.len() <= b.len();
    proof {
        if r {
            assert(a@ =~= b@.take(a@.len() as int));
        } else {
            assert forall|k: int|
                !(0 <= k < a@.len() && k < b@.len() && a@.take(k) == b@.take(k) && a@[k] < b@[k]) by {}
        }
    }
    r
}

/// Whether `a` comes no later than `b` in form order.
fn field_le_exec(a: &FormField, b: &FormField) -> (r: bool)
    ensures
        r == field_le(*a, *b),
{
    if a.required && !b.required {
        true
    } else if a.required == b.required {
        let an = chars_of(a.name.as_str());
        let bn = chars_of(b.name.as_str());
        lex_le_exec(&an, &bn)
    } else {
        false
    }
}

/// Whether `names` lists `name`.
fn lists_exec(names: &Vec<String>, name: &str) -> (r: bool)
    ensures
        r == lists(names@, name@),
{
    let mut i: usize = 0;
    while i < names.len()
        invariant
            i <= names.len(),
            forall|j: int| 0 <= j < i ==> names@[j]@ != name@,
        decreases names.len() - i,
    {
        if str_eq(names[i].as_str(), name) {
            return true;
        }
        i = i + 1;
    }
    false
}

/// Whether a slice of names lists `name`.
fn slice_lists(names: &[String], name: &str) -> (r: bool)
    ensures
        r == lists(names@, name@),
{
    let mut i: usize = 0;
    while i < names.len()
        invariant
            i <= names@.len(),
            forall|j: int| 0 <= j < i ==> names@[j]@ != name@,
        decreases names@.len() - i,
    {
        if str_eq(names[i].as_str(), name) {
            return true;
        }
        i = i + 1;
    }
    false
}

/// A copy of a list of strings.
fn clone_strings(v: &Vec<String>) -> (r: Vec<String>)
    ensures
        r@ =~= v@,
{
    let mut r: Vec<String> = Vec::new();
    let mut i: usize = 0;
    while i < v.len()
        invariant
            i <= v.len(),
            r@ =~= v@.take(i as int),
        decreases v.len() - i,
    {
        r.push(v[i].clone());
        i = i + 1;
    }
    r
}

/// A copy of an optional string.
fn clone_opt(o: &Option<String>) -> (r: Option<String>)
    ensures
        opt_view(r) == opt_view(*o),
{
    match o {
        Some(s) => Some(s.clone()),
        None => None,
    }
}

/// Field type, description and default value for one schema property.
fn parse_json_schema(p: &PropertySchema) -> (r: (FieldType, Option<String>, Option<String>))
    ensures
        field_type_for(r.0, p.kind),
        opt_view(r.1) == opt_view(p.description),
        (match r.2 {
            Some(v) => v@,
            None => Seq::empty(),
        }) == default_value(p.kind),
{
    let description = clone_opt(&p.description);
    match &p.kind {
        SchemaKind::String { enum_values } => match enum_values {
            Some(values) => {
                let default = if values.len() > 0 {
                    Some(values[0].clone())
                } else {
                    None
                };
                (FieldType::Enum(clone_strings(values)), description, default)
            },
            None => (FieldType::Text, description, None),
        },
        SchemaKind::Integer => (FieldType::Integer, description, None),
        SchemaKind::Number => (FieldType::Number, description, None),
        SchemaKind::Boolean => (FieldType::Boolean, description, Some(owned("false"))),
        SchemaKind::Array => (FieldType::Array, description, None),
        SchemaKind::Object => (FieldType::Text, description, None),
    }
}

/// Builds the form fields for a schema: one per property, required fields
/// first, then by name; fields listed in `managed_fields` are marked managed.
pub fn build_form_fields(schema: &InputSchema, managed_fields: &[String]) -> (r: Vec<FormField>)
    ensures
        schema.properties is None ==> r@.len() == 0,
        schema.properties matches Some(props) ==> {
            &&& r@.len() == props@.len()
            &&& sorted_fields(r@)
            &&& exists|perm: Seq<int>| {
                &&& is_permutation(perm, props@.len() as int)
                &&& forall|i: int|
                    0 <= i < r@.len() ==> field_for(
                        #[trigger] r@[i],
                        props@[perm[i]],
                        required_names(*schema),
                        managed_fields@,
                    )
            }
        },
{
    let props = match &schema.properties {
        Some(props) => props,
        None => return Vec::new(),
    };
    let empty: Vec<String> = Vec::new();
    let required: &Vec<String> = match &schema.required {
        Some(r) => r,
        None => &empty,
    };
    assert(required@ == required_names(*schema));
    let mut fields: Vec<FormField> = Vec::new();
    let ghost mut perm: Seq<int> = Seq::empty();
    let mut k: usize = 0;
    while k < props.len()
        invariant
            k <= props.len(),
            required@ == required_names(*schema),
            schema.properties == Some(*props),
            fields@.len() == k,
            sorted_fields(fields@),
            is_permutation(perm, k as int),
            forall|i: int|
                0 <= i < fields@.len() ==> field_for(
                    #[trigger] fields@[i],
                    props@[perm[i]],
                    required@,
                    managed_fields@,
                ),
        decreases props.len() - k,
    {
        let p = &props[k];
        let (field_type, description, default_value) = parse_json_schema(p);
        let is_required = lists_exec(required, p.name.as_str());
        let is_managed = slice_lists(managed_fields, p.name.as_str());
        let value = match default_value {
            Some(v) => v,
            None => String::new(),
        };
        let field = FormField {
            name: p.name.clone(),
            field_type,
            value,
            required: is_required,
            description,
            managed: is_managed,
        };
        assert(field_for(field, props@[k as int], required@, managed_fields@));
        // Insert after every field that does not come later than the new one.
        let mut j = fields.len();
        while j > 0 && !field_le_exec(&fields[j - 1], &field)
            invariant
                j <= fields@.len(),
                forall|t: int| j <= t < fields@.len() ==> !field_le(#[trigger] fields@[t], field),
            decreases j,
        {
            j = j - 1;
        }
        let ghost before = fields@;
        fields.insert(j, field);
        proof {
            let new_perm = perm.insert(j as int, k as int);
            assert forall|i: int| 0 <= i < fields@.len() - 1 implies field_le(#[trigger] fields@[i], fields@[i + 1]) by {
                if i + 1 < j {
                    assert(field_le(before[i], before[i + 1]));
                } else if i + 1 == j {
                } else if i == j {
                    lemma_lex_total(field.name@, before[j as int].name@);
                    assert(!field_le(before[j as int], field));
                } else {
                    assert(field_le(before[i - 1], before[i]));
                }
            }
            assert forall|a: int, b: int| 0 <= a < k + 1 && 0 <= b < k + 1 && a != b implies new_perm[a] != new_perm[b] by {
                if a < j && b < j {
                } else if a < j && b == j {
                } else if a < j && b > j {
                    assert(new_perm[b] == perm[b - 1]);
                } else if a == j && b < j {
                } else if a == j {
                    assert(new_perm[b] == perm[b - 1]);
                } else if b < j {
                    assert(new_perm[a] == perm[a - 1]);
                } else if b == j {
                    assert(new_perm[a] == perm[a - 1]);
                } else {
                    assert(new_perm[a] == perm[a - 1]);
                    assert(new_perm[b] == perm[b - 1]);
                }
            }
            assert forall|i: int| 0 <= i < k + 1 implies 0 <= #[trigger] new_perm[i] < k + 1 by {
                if i < j {
                } else if i > j {
                    assert(new_perm[i] == perm[i - 1]);
                }
            }
            assert forall|i: int|
                0 <= i < fields@.len() implies field_for(
                #[trigger] fields@[i],
                props@[new_perm[i]],
                required@,
                managed_fields@,
            ) by {
                if i < j {
                } else if i > j {
                    assert(fields@[i] == before[i - 1]);
                    assert(new_perm[i] == perm[i - 1]);
                }
            }
            perm = new_perm;
        }
        k = k + 1;
    }
    assert(forall|i: int|
        0 <= i < fields@.len() ==> field_for(
            #[trigger] fields@[i],
            props@[perm[i]],
            required_names(*schema),
            managed_fields@,
        ));
    fields
}

/// `form` is a fresh form for `tool_name` over `schema`: one field per
/// property (required first, then by name), the names in `managed` hidden,
/// the first field selected and nothing being edited.
pub open spec fn built_form(form: FormState, tool_name: Seq<char>, schema: InputSchema, managed: Seq<String>) -> bool {
    &&& form.tool_name@ == tool_name
    &&& form.selected_field == 0
    &&& !form.editing
    &&& schema.properties is None ==> form.fields@.len() == 0
    &&& schema.properties matches Some(props) ==> {
        &&& form.fields@.len() == props@.len()
        &&& sorted_fields(form.fields@)
        &&& exists|perm: Seq<int>| {
            &&& is_permutation(perm, props@.len() as int)
            &&& forall|i: int|
                0 <= i < form.fields@.len() ==> field_for(
                    #[trigger] form.fields@[i],
                    props@[perm[i]],
                    required_names(schema),
                    managed,
                )
        }
    }
}

impl FormState {
    /// A form for `tool_name` with fields from `schema`; the names in
    /// `managed_fields` are hidden and injected on submit.
    pub fn new(tool_name: &str, schema: &InputSchema, managed_fields: &[String]) -> (r: Self)
        ensures
            built_form(r, tool_name@, *schema, managed_fields@),
    {
        let fields = build_form_fields(schema, managed_fields);
        FormState { tool_name: owned(tool_name), fields, selected_field: 0, editing: false }
    }
}

// ---------------------------------------------------------------------------
// Value assembly
// ---------------------------------------------------------------------------

/// The non-empty trimmed pieces, in order.
pub open spec fn nonempty_trimmed(pieces: Seq<Seq<char>>) -> Seq<Seq<char>>
    decreases pieces.len(),
{
    if pieces.len() == 0 {
        Seq::empty()
    } else {
        let rest = nonempty_trimmed(pieces.drop_last());
        let t = trim(pieces.last());
        if t.len() > 0 {
            rest.push(t)
        } else {
            rest
        }
    }
}

/// The items of an array field: comma-separated, trimmed, empty ones dropped.
pub open spec fn array_items(value: Seq<char>) -> Seq<Seq<char>> {
    nonempty_trimmed(split_seq(value, ','))
}

/// The argument a field's text converts to.
pub open spec fn converted(f: FormField) -> ArgView {
    match f.field_type {
        FieldType::Text => ArgView::Str(f.value@),
        FieldType::Enum(_) => ArgView::Str(f.value@),
        FieldType::Integer => match parse_i64(f.value@) {
            Some(n) => ArgView::Int(n),
            None => ArgView::Str(f.value@),
        },
        FieldType::Number => ArgView::NumberText(f.value@),
        FieldType::Boolean => ArgView::Bool(f.value@ == "true"@),
        FieldType::Array => ArgView::StrArray(array_items(f.value@)),
    }
}

/// Whether a field is sent: required fields always, optional ones when
/// their value is non-empty.
pub open spec fn included(f: FormField) -> bool {
    f.required || f.value@.len() > 0
}

/// The arguments the fields assemble to; a later field with the same name
/// wins.
pub open spec fn assembled(fields: Seq<FormField>) -> Map<Seq<char>, ArgView>
    decreases fields.len(),
{
    if fields.len() == 0 {
        Map::empty()
    } else {
        let m = assembled(fields.drop_last());
        let f = fields.last();
        if included(f) {
            m.insert(f.name@, converted(f))
        } else {
            m
        }
    }
}

/// The items of an array field's text.
fn array_items_exec(value: &String) -> (r: Vec<String>)
    ensures
        r@.map_values(|s: String| s@) == array_items(value@),
{
    let chars = chars_of(value.as_str());
    let pieces = split_chars(&chars, ',');
    let mut r: Vec<String> = Vec::new();
    let mut i: usize = 0;
    while i < pieces.len()
        invariant
            i <= pieces.len(),
            pieces@.map_values(|p: Vec<char>| p@) == split_seq(value@, ','),
            r@.map_values(|s: String| s@) == nonempty_trimmed(pieces@.map_values(|p: Vec<char>| p@).take(i as int)),
        decreases pieces.len() - i,
    {
        let ghost ps = pieces@.map_values(|p: Vec<char>| p@);
        assert(ps.take(i + 1).drop_last() =~= ps.take(i as int));
        assert(ps.take(i + 1).last() == pieces@[i as int]@);
        let t = trim_chars(&pieces[i]);
        if t.len() > 0 {
            let ghost before = r@;
            r.push(string_from_chars(&t));
            assert(r@.map_values(|s: String| s@) =~= before.map_values(|s: String| s@).push(t@));
        }
        i = i + 1;
    }
    assert(pieces@.map_values(|p: Vec<char>| p@).take(pieces.len() as int) =~= pieces@.map_values(|p: Vec<char>| p@));
    r
}

/// The argument value of one field.
fn convert_field(f: &FormField) -> (r: ArgValue)
    ensures
        r@ == converted(*f),
{
    match &f.field_type {
        FieldType::Text => ArgValue::Str(f.value.clone()),
        FieldType::Enum(_) => ArgValue::Str(f.value.clone()),
        FieldType::Integer => {
            let chars = chars_of(f.value.as_str());
            match parse_i64_chars(&chars) {
                Some(n) => ArgValue::Int(n),
                None => ArgValue::Str(f.value.clone()),
            }
        },
        FieldType::Number => ArgValue::NumberText(f.value.clone()),
        FieldType::Boolean => ArgValue::Bool(str_eq(f.value.as_str(), "true")),
        FieldType::Array => ArgValue::StrArray(array_items_exec(&f.value)),
    }
}

/// Assembles the fields into tool-call arguments: required fields always,
/// optional fields only when non-empty, each converted by its type.
pub fn assemble_args(fields: &[FormField]) -> (r: ToolArgs)
    ensures
        r@ == assembled(fields@),
{
    let mut args = ToolArgs::new();
    let mut i: usize = 0;
    while i < fields.len()
        invariant
            i <= fields@.len(),
            args@ == assembled(fields@.take(i as int)),
        decreases fields@.len() - i,
    {
        let f = &fields[i];
        assert(fields@.take(i + 1).drop_last() =~= fields@.take(i as int));
        assert(fields@.take(i + 1).last() == fields@[i as int]);
        if f.required || !f.value.as_str().is_empty() {
            args.insert(f.name.clone(), convert_field(f));
        }
        i = i + 1;
    }
    assert(fields@.take(fields@.len() as int) =~= fields@);
    args
}


// ---------------------------------------------------------------------------
// Display
// ---------------------------------------------------------------------------

/// How a field's value is shown: a boolean as `[true]`/`[false]`, an enum
/// value between angle brackets (blank when the value is not one of the
/// choices), any other value in square brackets with a cursor while the
/// selected field is edited.
pub open spec fn value_text(f: FormField, selected: bool, editing: bool) -> Seq<char> {
    match f.field_type {
        FieldType::Boolean => if f.value@ == "true"@ {
            "[true]"@
        } else {
            "[false]"@
        },
        FieldType::Enum(values) => if lists(values@, f.value@) {
            "< "@ + f.value@ + " >"@
        } else {
            "< >"@
        },
        _ => "["@ + (if f.value@.len() == 0 && !editing {
            Seq::empty()
        } else {
            f.value@ + if selected && editing {
                "_"@
            } else {
                Seq::empty()
            }
        }) + "]"@,
    }
}

/// The text shown for a field's value.
pub fn field_value_display(field: &FormField, selected: bool, editing: bool) -> (r: String)
    ensures
        r@ == value_text(*field, selected, editing),
{
    match &field.field_type {
        FieldType::Boolean => {
            if str_eq(field.value.as_str(), "true") {
                owned("[true]")
            } else {
                owned("[false]")
            }
        },
        FieldType::Enum(values) => {
            if lists_exec(values, field.value.as_str()) {
                let mut s = owned("< ");
                append(&mut s, field.value.as_str());
                append(&mut s, " >");
                s
            } else {
                owned("< >")
            }
        },
        _ => {
            let mut s = owned("[");
            if !(field.value.as_str().is_empty() && !editing) {
                append(&mut s, field.value.as_str());
                if selected && editing {
                    append(&mut s, "_");
                }
            }
            append(&mut s, "]");
            s
        },
    }
}

/// The key hints under the form.
pub open spec fn footer_text(editing: bool, visible: nat) -> Seq<char> {
    if editing {
        "[Enter] Done  [Esc] Cancel edit"@
    } else if visible == 0 {
        "[e] Execute  [Esc] Back"@
    } else {
        "[e] Execute  [Enter] Edit field  [j/k] Navigate  [Space] Toggle  [Esc] Back"@
    }
}

impl FormState {
    /// The key hints shown under the form.
    pub fn footer(&self) -> (r: &'static str)
        ensures
            r@ == footer_text(self.editing, visible_indices(self.fields@).len()),
    {
        if self.editing {
            "[Enter] Done  [Esc] Cancel edit"
        } else if self.visible_count() == 0 {
            "[e] Execute  [Esc] Back"
        } else {
            "[e] Execute  [Enter] Edit field  [j/k] Navigate  [Space] Toggle  [Esc] Back"
        }
    }
}

} // verus!
