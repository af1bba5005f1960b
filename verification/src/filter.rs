//! Filter operators, [`Filter`] clauses, [`FieldCondition`], and [`ExtraFilter`].
//!
//! When two filters share the same `left` key, the screener merges their
//! values and may promote the operator to [`FilterOperator::InRange`].
use vstd::prelude::*;
use crate::json::{
    JsonV, JsonValue, entries_view, json_clone, jvs, lemma_array_view, lemma_object_view,
};
use crate::text::{own, str_eq};

verus! {

/// Comparison operators sent as `"operation"` in `TradingView` filter objects.
#[derive(Debug, Clone, Copy, PartialEq, Eq, Hash, Structural)]
pub enum FilterOperator {
    /// Wire: `"less"`
    Below,
    /// Wire: `"eless"`
    BelowOrEqual,
    /// Wire: `"greater"`
    Above,
    /// Wire: `"egreater"`
    AboveOrEqual,
    /// Wire: `"crosses"`
    Crosses,
    /// Wire: `"crosses_above"`
    CrossesUp,
    /// Wire: `"crosses_below"`
    CrossesDown,
    /// Wire: `"in_range"`
    InRange,
    /// Wire: `"not_in_range"`
    NotInRange,
    /// Wire: `"equal"`
    Equal,
    /// Wire: `"nequal"`
    NotEqual,
    /// Wire: `"match"`
    Match,
}

/// The wire `operation` string of an operator.
pub open spec fn op_str(op: FilterOperator) -> Seq<char> {
    match op {
        FilterOperator::Below => "less"@,
        FilterOperator::BelowOrEqual => "eless"@,
        FilterOperator::Above => "greater"@,
        FilterOperator::AboveOrEqual => "egreater"@,
        FilterOperator::Crosses => "crosses"@,
        FilterOperator::CrossesUp => "crosses_above"@,
        FilterOperator::CrossesDown => "crosses_below"@,
        FilterOperator::InRange => "in_range"@,
        FilterOperator::NotInRange => "not_in_range"@,
        FilterOperator::Equal => "equal"@,
        FilterOperator::NotEqual => "nequal"@,
        FilterOperator::Match => "match"@,
    }
}

/// What a comparison operator says of a value `x` against the bound `y`:
/// `less` is `x < y`, `eless` `x <= y`, `greater` `x > y`, `egreater`
/// `x >= y`, `equal` `x == y`, `nequal` `x != y`; `None` for the other
/// operators, which are not single comparisons.
pub open spec fn op_holds(op: FilterOperator, x: int, y: int) -> Option<bool> {
    match op {
        FilterOperator::Below => Some(x < y),
        FilterOperator::BelowOrEqual => Some(x <= y),
        FilterOperator::Above => Some(x > y),
        FilterOperator::AboveOrEqual => Some(x >= y),
        FilterOperator::Equal => Some(x == y),
        FilterOperator::NotEqual => Some(x != y),
        _ => None,
    }
}

/// The operator whose wire string is `s`, if any.
pub open spec fn op_from_wire(s: Seq<char>) -> Option<FilterOperator> {
    if s == "less"@ {
        Some(FilterOperator::Below)
    } else if s == "eless"@ {
        Some(FilterOperator::BelowOrEqual)
    } else if s == "greater"@ {
        Some(FilterOperator::Above)
    } else if s == "egreater"@ {
        Some(FilterOperator::AboveOrEqual)
    } else if s == "crosses"@ {
        Some(FilterOperator::Crosses)
    } else if s == "crosses_above"@ {
        Some(FilterOperator::CrossesUp)
    } else if s == "crosses_below"@ {
        Some(FilterOperator::CrossesDown)
    } else if s == "in_range"@ {
        Some(FilterOperator::InRange)
    } else if s == "not_in_range"@ {
        Some(FilterOperator::NotInRange)
    } else if s == "equal"@ {
        Some(FilterOperator::Equal)
    } else if s == "nequal"@ {
        Some(FilterOperator::NotEqual)
    } else if s == "match"@ {
        Some(FilterOperator::Match)
    } else {
        None
    }
}

impl FilterOperator {
    /// `TradingView` scanner JSON `operation` string for this variant.
    pub fn as_str(self) -> (r: &'static str)
        ensures
            r@ == op_str(self),
    {
        match self {
            FilterOperator::Below => "less",
            FilterOperator::BelowOrEqual => "eless",
            FilterOperator::Above => "greater",
            FilterOperator::AboveOrEqual => "egreater",
            FilterOperator::Crosses => "crosses",
            FilterOperator::CrossesUp => "crosses_above",
            FilterOperator::CrossesDown => "crosses_below",
            FilterOperator::InRange => "in_range",
            FilterOperator::NotInRange => "not_in_range",
            FilterOperator::Equal => "equal",
            FilterOperator::NotEqual => "nequal",
            FilterOperator::Match => "match",
        }
    }

    /// The wire string as an owned `String` (what `Display` prints).
    pub fn to_wire(self) -> (r: String)
        ensures
            r@ == op_str(self),
    {
        own(self.as_str())
    }

    /// Parses a wire `operation` string (e.g. `"less"` → [`FilterOperator::Below`]).
    pub fn from_wire(s: &str) -> (r: Option<FilterOperator>)
        ensures
            r == op_from_wire(s@),
    {
        if str_eq(s, "less") {
            Some(FilterOperator::Below)
        } else if str_eq(s, "eless") {
            Some(FilterOperator::BelowOrEqual)
        } else if str_eq(s, "greater") {
            Some(FilterOperator::Above)
        } else if str_eq(s, "egreater") {
            Some(FilterOperator::AboveOrEqual)
        } else if str_eq(s, "crosses") {
            Some(FilterOperator::Crosses)
        } else if str_eq(s, "crosses_above") {
            Some(FilterOperator::CrossesUp)
        } else if str_eq(s, "crosses_below") {
            Some(FilterOperator::CrossesDown)
        } else if str_eq(s, "in_range") {
            Some(FilterOperator::InRange)
        } else if str_eq(s, "not_in_range") {
            Some(FilterOperator::NotInRange)
        } else if str_eq(s, "equal") {
            Some(FilterOperator::Equal)
        } else if str_eq(s, "nequal") {
            Some(FilterOperator::NotEqual)
        } else if str_eq(s, "match") {
            Some(FilterOperator::Match)
        } else {
            None
        }
    }
}

/// Parsing the wire string of an operator gives the operator back, and a
/// string parses only when it is the wire string of the operator it gives.
pub proof fn lemma_op_wire_roundtrip(op: FilterOperator, s: Seq<char>)
    ensures
        op_from_wire(op_str(op)) == Some(op),
        op_from_wire(s) matches Some(o) ==> s == op_str(o),
{
    reveal_strlit("less");
    reveal_strlit("eless");
    reveal_strlit("greater");
    reveal_strlit("egreater");
    reveal_strlit("crosses");
    reveal_strlit("crosses_above");
    reveal_strlit("crosses_below");
    reveal_strlit("in_range");
    reveal_strlit("not_in_range");
    reveal_strlit("equal");
    reveal_strlit("nequal");
    reveal_strlit("match");
    assert("less"@.len() == 4);
    assert("eless"@.len() == 5);
    assert("greater"@.len() == 7);
    assert("egreater"@.len() == 8);
    assert("crosses"@.len() == 7);
    assert("crosses_above"@.len() == 13);
    assert("crosses_below"@.len() == 13);
    assert("in_range"@.len() == 8);
    assert("not_in_range"@.len() == 12);
    assert("equal"@.len() == 5);
    assert("nequal"@.len() == 6);
    assert("match"@.len() == 5);
    assert("greater"@[0] != "crosses"@[0]);
    assert("greater"@ != "crosses"@);
    assert("egreater"@[0] != "in_range"@[0]);
    assert("egreater"@ != "in_range"@);
    assert("crosses_above"@[8] != "crosses_below"@[8]);
    assert("crosses_above"@ != "crosses_below"@);
    assert("eless"@[1] != "equal"@[1]);
    assert("eless"@ != "equal"@);
    assert("eless"@[0] != "match"@[0]);
    assert("eless"@ != "match"@);
    assert("equal"@[0] != "match"@[0]);
    assert("equal"@ != "match"@);
}

impl core::str::FromStr for FilterOperator {
    type Err = String;

    fn from_str(s: &str) -> (r: Result<FilterOperator, String>)
        ensures
            match op_from_wire(s@) {
                Some(op) => r == Ok::<FilterOperator, String>(op),
                None => r matches Err(m) && m@ == "unknown filter operation: "@ + s@,
            },
    {
        match FilterOperator::from_wire(s) {
            Some(op) => Ok(op),
            None => {
                let mut m = own("unknown filter operation: ");
                m.append(s);
                Err(m)
            },
        }
    }
}

/// Non-field filter targets.
#[derive(Debug, Clone, Copy, PartialEq, Eq, Hash, Structural)]
pub enum ExtraFilter {
    /// Wire left key `"active_symbol"`.
    CurrentTradingDay,
    /// Wire left key `"name,description"`.
    Search,
    /// Wire left key `"is_primary"`.
    Primary,
}

/// The payload `left` key of an extra filter.
pub open spec fn extra_str(e: ExtraFilter) -> Seq<char> {
    match e {
        ExtraFilter::CurrentTradingDay => "active_symbol"@,
        ExtraFilter::Search => "name,description"@,
        ExtraFilter::Primary => "is_primary"@,
    }
}

impl ExtraFilter {
    /// Payload `left` key for this extra filter.
    pub fn field_name(self) -> (r: &'static str)
        ensures
            r@ == extra_str(self),
    {
        match self {
            ExtraFilter::CurrentTradingDay => "active_symbol",
            ExtraFilter::Search => "name,description",
            ExtraFilter::Primary => "is_primary",
        }
    }
}

/// The mathematical value of a [`Filter`].
pub struct FilterV {
    pub left: Seq<char>,
    pub operation: FilterOperator,
    pub values: Seq<JsonV>,
}

/// One scanner filter clause (`left` / `operation` / `right`).
#[derive(Debug)]
pub struct Filter {
    /// Column key on the left side of the comparison.
    pub left: String,
    /// Operator applied to `left` vs `values`.
    pub operation: FilterOperator,
    /// Right-hand side value(s); field-to-field compares use column name strings.
    pub values: Vec<JsonValue>,
}

impl View for Filter {
    type V = FilterV;

    open spec fn view(&self) -> FilterV {
        FilterV { left: self.left@, operation: self.operation, values: jvs(self.values@) }
    }
}

/// The `right` member of a filter object: `null`, the one value, or an array.
pub open spec fn right_spec(values: Seq<JsonV>) -> JsonV {
    if values.len() == 0 {
        JsonV::Null
    } else if values.len() == 1 {
        values[0]
    } else {
        JsonV::Array(values)
    }
}

/// The `{ "left", "operation", "right" }` object of a filter.
pub open spec fn filter_json(f: FilterV) -> JsonV {
    JsonV::Object(
        seq![
            ("left"@, JsonV::Str(f.left)),
            ("operation"@, JsonV::Str(op_str(f.operation))),
            ("right"@, right_spec(f.values)),
        ],
    )
}

/// Deep copy of a list of JSON values.
pub fn clone_values(v: &Vec<JsonValue>) -> (r: Vec<JsonValue>)
    ensures
        jvs(r@) == jvs(v@),
{
    let mut r: Vec<JsonValue> = Vec::new();
    let mut i: usize = 0;
    while i < v.len()
        invariant
            i <= v.len(),
            jvs(r@) == jvs(v@).take(i as int),
        decreases v.len() - i,
    {
        let c = json_clone(&v[i]);
        let ghost prev = r@;
        r.push(c);
        assert(jvs(r@) =~= jvs(prev).push(c@));
        i = i + 1;
        assert(jvs(r@) =~= jvs(v@).take(i as int));
    }
    assert(jvs(v@).take(v@.len() as int) =~= jvs(v@));
    r
}

impl Clone for Filter {
    fn clone(&self) -> (r: Self)
        ensures
            r@ == self@,
    {
        Filter {
            left: self.left.clone(),
            operation: self.operation,
            values: clone_values(&self.values),
        }
    }
}

impl Filter {
    /// Builds a filter from one or many right-hand values.
    pub fn new(left: String, operation: FilterOperator, values: Vec<JsonValue>) -> (r: Filter)
        ensures
            r@ == (FilterV { left: left@, operation, values: jvs(values@) }),
    {
        Filter { left, operation, values }
    }

    /// Builds a filter on an [`ExtraFilter`] left key.
    pub fn on_extra(extra: ExtraFilter, operation: FilterOperator, values: Vec<JsonValue>) -> (r:
        Filter)
        ensures
            r@ == (FilterV { left: extra_str(extra), operation, values: jvs(values@) }),
    {
        Filter::new(own(extra.field_name()), operation, values)
    }

    /// Serializes to one `{ "left", "operation", "right" }` object for the scan payload.
    pub fn to_json(&self) -> (r: JsonValue)
        ensures
            r@ == filter_json(self@),
    {
        let right = if self.values.len() == 0 {
            JsonValue::Null
        } else if self.values.len() == 1 {
            json_clone(&self.values[0])
        } else {
            let a = clone_values(&self.values);
            proof {
                lemma_array_view(a);
            }
            JsonValue::Array(a)
        };
        let mut o: Vec<(String, JsonValue)> = Vec::new();
        let ghost rv = right@;
        o.push((own("left"), JsonValue::Str(self.left.clone())));
        o.push((own("operation"), JsonValue::Str(own(self.operation.as_str()))));
        o.push((own("right"), right));
        proof {
            lemma_object_view(o);
            assert(entries_view(o@) =~= seq![
                ("left"@, JsonV::Str(self.left@)),
                ("operation"@, JsonV::Str(op_str(self.operation))),
                ("right"@, rv),
            ]);
        }
        JsonValue::Object(o)
    }
}

/// A single comparison before it is merged into the screener filter list.
#[derive(Debug)]
pub struct FieldCondition {
    /// Left column key (field name).
    pub left: String,
    /// Comparison operator.
    pub operation: FilterOperator,
    /// Right-hand JSON value.
    pub value: JsonValue,
}

impl FieldCondition {
    /// Creates a condition on `left` with the given operator and right-hand value.
    pub fn new(left: String, operation: FilterOperator, value: JsonValue) -> (r: FieldCondition)
        ensures
            r.left == left,
            r.operation == operation,
            r.value == value,
    {
        FieldCondition { left, operation, value }
    }

    /// Converts this condition into a [`Filter`] with one right-hand value.
    pub fn into_filter(self) -> (r: Filter)
        ensures
            r@ == (FilterV { left: self.left@, operation: self.operation, values: seq![self.value@] }),
    {
        let ghost vv = self.value@;
        let mut values: Vec<JsonValue> = Vec::new();
        values.push(self.value);
        assert(jvs(values@) =~= seq![vv]);
        Filter::new(self.left, self.operation, values)
    }
}

} // verus!
