//! The validation engine: runs the compiled checks of every field, recurses
//! into nested records of fields without rules, and gathers every failure in
//! traversal order, without stopping at the first.
use vstd::prelude::*;
use crate::pattern::{regex_matches, regex_search, regex_valid};
use crate::schema::{
    Bound, Check, CheckSpec, CompiledField, CompiledRecord, Comparison, Schema, opt_view, record_of,
};
use crate::rules::{kind_max, kind_min};
use crate::shape::{FieldShape, ScalarKind, int_max, int_min};
use crate::text::concat2;
use crate::value::{Val, Value};

verus! {

/// Predicates that records name in `fn=` rules, supplied by the schema's
/// author and run on the record that holds the field.
pub trait CustomRules {
    /// Runs predicate `function` of record type `ty` on a record: `Ok` when it
    /// holds, else the reason.
    fn call(&self, ty: &str, function: &str, record: &Value) -> Result<(), String>;
}

/// A schema without `fn=` rules needs no predicates: every one holds.
pub struct NoCustomRules;

impl CustomRules for NoCustomRules {
    fn call(&self, ty: &str, function: &str, record: &Value) -> Result<(), String> {
        Ok(())
    }
}

/// What the predicates report. A call is known by its site: the positions of
/// fields and items that lead from the validated record to the field, then
/// the position of the rule on that field. The outcome of a call, given the
/// record type, the predicate name and the record it ran on, is `None` when
/// the predicate holds, else its reason.
pub type Outcomes = spec_fn(Seq<int>, Seq<char>, Seq<char>, Val) -> Option<Seq<char>>;

/// Predicates that always hold.
pub open spec fn all_hold() -> Outcomes {
    |site: Seq<int>, ty: Seq<char>, function: Seq<char>, record: Val| None::<Seq<char>>
}

/// The calls made to predicates, by site: record type, predicate name, record
/// and outcome.
pub type Calls = Map<Seq<int>, (Seq<char>, Seq<char>, Val, Option<Seq<char>>)>;

/// The outcomes agree with every call made.
pub open spec fn agrees(o: Outcomes, calls: Calls) -> bool {
    forall|site: Seq<int>|
        #[trigger] calls.dom().contains(site) ==> o(site, calls[site].0, calls[site].1, calls[site].2)
            == calls[site].3
}

/// `site` is `path` or lies below it.
pub open spec fn at_or_under(path: Seq<int>, site: Seq<int>) -> bool {
    site.len() >= path.len() && site.take(path.len() as int) == path
}

/// `Field '<name>'`, the start of every message.
pub open spec fn field_tag(f: Seq<char>) -> Seq<char> {
    "Field '"@ + f + "'"@
}

pub open spec fn required_msg(f: Seq<char>) -> Seq<char> {
    field_tag(f) + " is required"@
}

pub open spec fn comparison_text(op: Comparison) -> Seq<char> {
    match op {
        Comparison::Ge => ">="@,
        Comparison::Gt => ">"@,
        Comparison::Le => "<="@,
        Comparison::Lt => "<"@,
    }
}

pub open spec fn compare_msg(f: Seq<char>, op: Comparison, t: Seq<char>) -> Seq<char> {
    field_tag(f) + " must be "@ + comparison_text(op) + " "@ + t + "."@
}

pub open spec fn multiple_msg(f: Seq<char>, t: Seq<char>) -> Seq<char> {
    field_tag(f) + " must be a multiple of "@ + t + "."@
}

pub open spec fn bound_text(b: Bound) -> Seq<char> {
    match b {
        Bound::Min => ">="@,
        Bound::Max => "<="@,
    }
}

pub open spec fn length_msg(f: Seq<char>, b: Bound, t: Seq<char>) -> Seq<char> {
    field_tag(f) + " length must be "@ + bound_text(b) + " "@ + t + "."@
}

pub open spec fn pattern_msg(f: Seq<char>, p: Seq<char>) -> Seq<char> {
    field_tag(f) + " does not match the required pattern: '"@ + p + "'."@
}

pub open spec fn bad_pattern_msg(f: Seq<char>, p: Seq<char>) -> Seq<char> {
    field_tag(f) + " has an invalid pattern: '"@ + p + "'."@
}

pub open spec fn custom_msg(f: Seq<char>, function: Seq<char>, e: Seq<char>) -> Seq<char> {
    field_tag(f) + " failed custom validation '"@ + function + "': "@ + e
}

/// Messages joined by line breaks.
pub open spec fn join_lines(es: Seq<Seq<char>>) -> Seq<char>
    decreases es.len(),
{
    if es.len() == 0 {
        Seq::empty()
    } else if es.len() == 1 {
        es[0]
    } else {
        join_lines(es.drop_last()) + "\n"@ + es.last()
    }
}

pub open spec fn nested_msg(f: Seq<char>, errs: Seq<Seq<char>>) -> Seq<char> {
    field_tag(f) + " failed validation '"@ + join_lines(errs) + "'"@
}

pub open spec fn abs(x: int) -> int {
    if x < 0 {
        -x
    } else {
        x
    }
}

/// `x` is a multiple of `d` (only zero is a multiple of zero).
pub open spec fn multiple_of(x: int, d: int) -> bool {
    if d == 0 {
        x == 0
    } else {
        abs(x) % abs(d) == 0
    }
}

/// Whether `x` fails the comparison with bound `t`.
pub open spec fn violates(op: Comparison, x: int, t: int) -> bool {
    match op {
        Comparison::Ge => x < t,
        Comparison::Gt => x <= t,
        Comparison::Le => x > t,
        Comparison::Lt => x >= t,
    }
}

/// The value a check reads: what an optional field holds, if anything, or
/// the field's value itself.
pub open spec fn target(is_option: bool, v: Val) -> Option<Val> {
    if is_option {
        match v {
            Val::Present(x) => Some(*x),
            _ => None,
        }
    } else {
        Some(v)
    }
}

/// The number of bytes that UTF-8 takes for a character.
pub open spec fn utf8_width(c: char) -> int {
    if (c as u32) < 0x80 {
        1
    } else if (c as u32) < 0x800 {
        2
    } else if (c as u32) < 0x10000 {
        3
    } else {
        4
    }
}

/// The length of a string in UTF-8 bytes, as `String::len` counts it.
pub open spec fn utf8_len(s: Seq<char>) -> int
    decreases s.len(),
{
    if s.len() == 0 {
        0
    } else {
        utf8_len(s.drop_last()) + utf8_width(s.last())
    }
}

/// Length of a string in UTF-8 bytes, or number of items of a sequence or map.
pub open spec fn length_of(v: Val) -> Option<int> {
    match v {
        Val::Text(s) => Some(utf8_len(s)),
        Val::List(es) => Some(es.len() as int),
        Val::Dict(es) => Some(es.len() as int),
        _ => None,
    }
}

/// The message, if any, of one check on a field `f` holding `v`, in a record
/// `owner` of type `ty`. A check on an optional field reads only a present
/// value; one on a value it cannot read reports nothing.
pub open spec fn check_error(
    f: Seq<char>,
    is_option: bool,
    c: CheckSpec,
    v: Val,
    owner: Val,
    ty: Seq<char>,
    h: Outcomes,
    site: Seq<int>,
) -> Option<Seq<char>> {
    match c {
        CheckSpec::Required => if v is Absent {
            Some(required_msg(f))
        } else {
            None
        },
        CheckSpec::Compare(op, t, text) => match target(is_option, v) {
            Some(Val::Int(x)) => if violates(op, x, t) {
                Some(compare_msg(f, op, text))
            } else {
                None
            },
            _ => None,
        },
        CheckSpec::MultipleOf(d, text) => match target(is_option, v) {
            Some(Val::Int(x)) => if !multiple_of(x, d) {
                Some(multiple_msg(f, text))
            } else {
                None
            },
            _ => None,
        },
        CheckSpec::Length(b, lim, text) => match target(is_option, v) {
            Some(t) => match length_of(t) {
                Some(n) => if (b == Bound::Min && n < lim) || (b == Bound::Max && n > lim) {
                    Some(length_msg(f, b, text))
                } else {
                    None
                },
                None => None,
            },
            None => None,
        },
        CheckSpec::Pattern(p) => match target(is_option, v) {
            Some(Val::Text(s)) => if !regex_valid(p) {
                Some(bad_pattern_msg(f, p))
            } else if !regex_matches(p, s) {
                Some(pattern_msg(f, p))
            } else {
                None
            },
            _ => None,
        },
        CheckSpec::Custom(function) => match h(site, ty, function, owner) {
            Some(e) => Some(custom_msg(f, function, e)),
            None => None,
        },
    }
}

pub open spec fn opt_seq(o: Option<Seq<char>>) -> Seq<Seq<char>> {
    match o {
        Some(m) => seq![m],
        None => Seq::empty(),
    }
}

/// The messages of a nested record's failures under field `f`: one message
/// naming the field, or none when the record passed.
pub open spec fn wrap(f: Seq<char>, errs: Seq<Seq<char>>) -> Seq<Seq<char>> {
    if errs.len() == 0 {
        Seq::empty()
    } else {
        seq![nested_msg(f, errs)]
    }
}

/// The failures of each field of a record value `v` of compiled type `rec`,
/// field by field in declaration order.
pub open spec fn field_parts(
    s: Schema,
    rec: CompiledRecord,
    v: Val,
    ty: Seq<char>,
    h: Outcomes,
    path: Seq<int>,
) -> Seq<Seq<Seq<char>>>
    decreases v, 0int, 0int,
{
    match v {
        Val::Record(vals) => Seq::new(
            if vals.len() < rec.fields@.len() {
                vals.len()
            } else {
                rec.fields@.len()
            },
            |j: int|
                if 0 <= j < vals.len() && j < rec.fields@.len() {
                    field_errors(s, rec.fields@[j], vals[j], v, ty, h, path.push(j))
                } else {
                    Seq::empty()
                },
        ),
        _ => Seq::empty(),
    }
}

/// The failures of a record value of type `ty`, field by field in
/// declaration order.
pub open spec fn record_errors(s: Schema, ty: Seq<char>, v: Val, h: Outcomes, path: Seq<int>) -> Seq<
    Seq<char>,
>
    decreases v, 0int, 1int,
{
    match record_of(s, ty) {
        Some(rec) => field_parts(s, rec, v, ty, h, path).flatten(),
        None => Seq::empty(),
    }
}

/// Whether a value has the form of a shape: an integer in the range of its
/// type, a boolean, a string; an opaque value for a float; any value for an
/// opaque shape; absent, or present with a value of the inner shape; a list,
/// or a map, whose items have the inner shape; and for a nested type a
/// record, an enumeration variant or an opaque value.
pub open spec fn fits(shape: FieldShape, v: Val) -> bool
    decreases shape,
{
    match shape {
        FieldShape::Scalar(ScalarKind::Int(k)) => match v {
            Val::Int(x) => int_min(k) <= x && x <= int_max(k),
            _ => false,
        },
        FieldShape::Scalar(ScalarKind::Bool) => v is Bool,
        FieldShape::Scalar(ScalarKind::Text) => v is Text,
        FieldShape::Scalar(ScalarKind::Float) => v is Opaque,
        FieldShape::Scalar(ScalarKind::Opaque) => true,
        FieldShape::Optional(inner) => match v {
            Val::Absent => true,
            Val::Present(x) => fits(*inner, *x),
            _ => false,
        },
        FieldShape::Sequence(inner) => match v {
            Val::List(es) => forall|i: int| 0 <= i < es.len() ==> fits(*inner, #[trigger] es[i]),
            _ => false,
        },
        FieldShape::AssociativeMap(inner) => match v {
            Val::Dict(es) => forall|i: int|
                0 <= i < es.len() ==> fits(*inner, (#[trigger] es[i]).1),
            _ => false,
        },
        FieldShape::Nested(_) => v is Record || v is Variant || v is Opaque,
    }
}

/// The message for a field whose value does not fit its type.
pub open spec fn type_msg(f: Seq<char>) -> Seq<char> {
    field_tag(f) + " does not hold a value of its type."@
}

/// The failures of one field: a single message when its value does not fit
/// its type; else its checks in declaration order when it has any; otherwise,
/// unless it is the metadata field, those of the nested records it holds.
pub open spec fn field_errors(
    s: Schema,
    f: CompiledField,
    v: Val,
    owner: Val,
    ty: Seq<char>,
    h: Outcomes,
    site: Seq<int>,
) -> Seq<Seq<char>>
    decreases v, 2int, 0int,
{
    if !fits(f.shape, v) {
        seq![type_msg(f.name@)]
    } else if f.checks@.len() > 0 {
        check_parts(f, v, owner, ty, h, site).flatten()
    } else if f.skip {
        Seq::empty()
    } else {
        match f.shape {
            FieldShape::Optional(inner) => match v {
                Val::Present(x) => within_errors(s, f.name@, *inner, *x, h, site),
                _ => Seq::empty(),
            },
            _ => within_errors(s, f.name@, f.shape, v, h, site),
        }
    }
}

/// The failures of the records a value of the given shape holds: a nested
/// record, or each record of a sequence or a map, each reported under field
/// `f`.
pub open spec fn within_errors(
    s: Schema,
    f: Seq<char>,
    shape: FieldShape,
    v: Val,
    h: Outcomes,
    site: Seq<int>,
) -> Seq<Seq<char>>
    decreases v, 1int, 0int,
{
    match shape {
        FieldShape::Nested(n) => wrap(f, record_errors(s, n@, v, h, site)),
        FieldShape::Sequence(inner) => match (*inner, v) {
            (FieldShape::Nested(n), Val::List(_)) => item_parts(s, f, n@, v, h, site).flatten(),
            _ => Seq::empty(),
        },
        FieldShape::AssociativeMap(inner) => match (*inner, v) {
            (FieldShape::Nested(n), Val::Dict(_)) => item_parts(s, f, n@, v, h, site).flatten(),
            _ => Seq::empty(),
        },
        _ => Seq::empty(),
    }
}

/// The failures of each record of type `ty` that a sequence or map value
/// holds, each reported under field `f`.
pub open spec fn item_parts(
    s: Schema,
    f: Seq<char>,
    ty: Seq<char>,
    v: Val,
    h: Outcomes,
    site: Seq<int>,
) -> Seq<Seq<Seq<char>>>
    decreases v, 0int, 2int,
{
    match v {
        Val::List(es) => Seq::new(
            es.len(),
            |i: int|
                if 0 <= i < es.len() {
                    wrap(f, record_errors(s, ty, es[i], h, site.push(i)))
                } else {
                    Seq::empty()
                },
        ),
        Val::Dict(es) => Seq::new(
            es.len(),
            |i: int|
                if 0 <= i < es.len() {
                    wrap(f, record_errors(s, ty, es[i].1, h, site.push(i)))
                } else {
                    Seq::empty()
                },
        ),
        _ => Seq::empty(),
    }
}

/// Whether a field has a `fn=` rule.
pub open spec fn field_has_custom(f: CompiledField) -> bool {
    exists|k: int| 0 <= k < f.checks@.len() && (#[trigger] f.checks@[k].model()) is Custom
}

/// Whether some field of the schema has a `fn=` rule.
pub open spec fn uses_custom(s: Schema) -> bool {
    exists|i: int, j: int|
        0 <= i < s.records@.len() && 0 <= j < s.records@[i].fields@.len() && field_has_custom(
            #[trigger] s.records@[i].fields@[j],
        )
}

/// The views of a list of strings.
pub open spec fn views(v: Seq<String>) -> Seq<Seq<char>> {
    v.map_values(|s: String| s@)
}

fn cat(a: String, b: &str) -> (r: String)
    ensures
        r@ == a@ + b@,
{
    let mut a = a;
    a.append(b);
    a
}

fn tag_string(f: &str) -> (r: String)
    ensures
        r@ == field_tag(f@),
{
    cat(concat2("Field '", f), "'")
}

fn comparison_str(op: Comparison) -> (r: &'static str)
    ensures
        r@ == comparison_text(op),
{
    match op {
        Comparison::Ge => ">=",
        Comparison::Gt => ">",
        Comparison::Le => "<=",
        Comparison::Lt => "<",
    }
}

fn bound_str(b: Bound) -> (r: &'static str)
    ensures
        r@ == bound_text(b),
{
    match b {
        Bound::Min => ">=",
        Bound::Max => "<=",
    }
}

/// The message of a pattern check on a present string, given what the
/// regular expression engine reported: `None` for a pattern it refused, or
/// whether the pattern matched.
pub fn pattern_error(field: &str, pattern: &str, matched: Option<bool>) -> (r: Option<String>)
    ensures
        match matched {
            None => r matches Some(m) && m@ == bad_pattern_msg(field@, pattern@),
            Some(true) => r is None,
            Some(false) => r matches Some(m) && m@ == pattern_msg(field@, pattern@),
        },
{
    match matched {
        None => Some(
            cat(cat(cat(tag_string(field), " has an invalid pattern: '"), pattern), "'."),
        ),
        Some(true) => None,
        Some(false) => Some(
            cat(
                cat(cat(tag_string(field), " does not match the required pattern: '"), pattern),
                "'.",
            ),
        ),
    }
}

fn abs_u128(x: i128) -> (r: u128)
    ensures
        r as int == abs(x as int),
{
    if x >= 0 {
        x as u128
    } else {
        ((-(x + 1)) as u128) + 1
    }
}

/// Whether `x` is a multiple of `d` (see `multiple_of`).
pub fn is_multiple(x: i128, d: i128) -> (r: bool)
    ensures
        r == multiple_of(x as int, d as int),
{
    if d == 0 {
        x == 0
    } else {
        abs_u128(x) % abs_u128(d) == 0
    }
}

/// Whether `x` fails comparison `op` with bound `t` (see `violates`).
pub fn is_violation(op: Comparison, x: i128, t: i128) -> (r: bool)
    ensures
        r == violates(op, x as int, t as int),
{
    match op {
        Comparison::Ge => x < t,
        Comparison::Gt => x <= t,
        Comparison::Le => x > t,
        Comparison::Lt => x >= t,
    }
}

fn target_of(is_option: bool, v: &Value) -> (r: Option<&Value>)
    ensures
        match target(is_option, v.model()) {
            Some(t) => r matches Some(x) && x.model() == t,
            None => r is None,
        },
{
    if is_option {
        match v {
            Value::Present(x) => Some(&**x),
            _ => None,
        }
    } else {
        Some(v)
    }
}

/// Whether a value has the form of a shape (see `fits`).
pub fn value_fits(shape: &FieldShape, v: &Value) -> (r: bool)
    ensures
        r == fits(*shape, v.model()),
    decreases shape,
{
    match shape {
        FieldShape::Scalar(ScalarKind::Int(k)) => match v {
            Value::Int(x) => kind_min(*k) <= *x && *x <= kind_max(*k),
            _ => false,
        },
        FieldShape::Scalar(ScalarKind::Bool) => match v {
            Value::Bool(_) => true,
            _ => false,
        },
        FieldShape::Scalar(ScalarKind::Text) => match v {
            Value::Text(_) => true,
            _ => false,
        },
        FieldShape::Scalar(ScalarKind::Float) => match v {
            Value::Opaque => true,
            _ => false,
        },
        FieldShape::Scalar(ScalarKind::Opaque) => true,
        FieldShape::Optional(inner) => match v {
            Value::Absent => true,
            Value::Present(x) => value_fits(inner, x),
            _ => false,
        },
        FieldShape::Sequence(inner) => match v {
            Value::List(es) => {
                let n = es.len();
                let mut i: usize = 0;
                while i < n
                    invariant
                        n == es@.len(),
                        0 <= i <= n,
                        *v == Value::List(*es),
                        *shape == FieldShape::Sequence(*inner),
                        forall|j: int| 0 <= j < i ==> fits(**inner, #[trigger] v.model()->List_0[j]),
                    decreases n - i,
                {
                    assert(decreases_to!(*shape => shape->Sequence_0));
                    if !value_fits(inner, &es[i]) {
                        assert(!fits(**inner, v.model()->List_0[i as int]));
                        return false;
                    }
                    i += 1;
                }
                true
            },
            _ => false,
        },
        FieldShape::AssociativeMap(inner) => match v {
            Value::Dict(es) => {
                let n = es.len();
                let mut i: usize = 0;
                while i < n
                    invariant
                        n == es@.len(),
                        0 <= i <= n,
                        *v == Value::Dict(*es),
                        *shape == FieldShape::AssociativeMap(*inner),
                        forall|j: int|
                            0 <= j < i ==> fits(**inner, (#[trigger] v.model()->Dict_0[j]).1),
                    decreases n - i,
                {
                    assert(decreases_to!(*shape => shape->AssociativeMap_0));
                    if !value_fits(inner, &es[i].1) {
                        assert(!fits(**inner, v.model()->Dict_0[i as int].1));
                        return false;
                    }
                    i += 1;
                }
                true
            },
            _ => false,
        },
        FieldShape::Nested(_) => match v {
            Value::Record(_) | Value::Variant(_) | Value::Opaque => true,
            _ => false,
        },
    }
}

/// The length of a string in UTF-8 bytes (see `utf8_len`).
pub fn utf8_length(s: &str) -> (r: u128)
    ensures
        r as int == utf8_len(s@),
        r <= 4 * (usize::MAX as u128),
{
    let n = s.unicode_len();
    let mut total: u128 = 0;
    let mut i: usize = 0;
    assert(s@.take(0) =~= Seq::<char>::empty());
    while i < n
        invariant
            n == s@.len(),
            0 <= i <= n,
            total as int == utf8_len(s@.take(i as int)),
            total <= 4 * i,
        decreases n - i,
    {
        let c = s.get_char(i);
        let w: u128 = if (c as u32) < 0x80 {
            1
        } else if (c as u32) < 0x800 {
            2
        } else if (c as u32) < 0x10000 {
            3
        } else {
            4
        };
        assert(s@.take(i as int + 1).drop_last() =~= s@.take(i as int));
        total = total + w;
        i += 1;
    }
    assert(s@.take(n as int) =~= s@);
    assert(total <= 4 * (usize::MAX as u128));
    total
}

fn length_value(v: &Value) -> (r: Option<u128>)
    ensures
        match length_of(v.model()) {
            Some(n) => r matches Some(x) && x as int == n,
            None => r is None,
        },
        r matches Some(x) ==> x <= 4 * (usize::MAX as u128),
{
    match v {
        Value::Text(s) => {
            Some(utf8_length(s.as_str()))
        },
        Value::List(es) => Some(es.len() as u128),
        Value::Dict(es) => Some(es.len() as u128),
        _ => None,
    }
}

/// The message of a `fn=` rule on field `f`, given what predicate
/// `function` reported.
pub fn custom_error(f: &str, function: &str, result: Result<(), String>) -> (r: Option<String>)
    ensures
        match result {
            Ok(()) => r is None,
            Err(e) => r matches Some(m) && m@ == custom_msg(f@, function@, e@),
        },
{
    match result {
        Ok(()) => None,
        Err(e) => Some(
            cat(
                cat(cat(cat(tag_string(f), " failed custom validation '"), function), "': "),
                e.as_str(),
            ),
        ),
    }
}

/// Runs one check on field `f` holding `v` in record `owner` of type `ty`
/// (see `check_error`).
fn run_check<H: CustomRules>(
    f: &str,
    is_option: bool,
    c: &Check,
    v: &Value,
    owner: &Value,
    ty: &str,
    h: &H,
    Ghost(site): Ghost<Seq<int>>,
) -> (r: (Option<String>, Ghost<Calls>))
    ensures
        forall|k: Seq<int>| #[trigger] r.1@.dom().contains(k) ==> k == site,
        forall|o: Outcomes|
            agrees(o, r.1@) ==> opt_view(r.0) == check_error(
                f@,
                is_option,
                c.model(),
                v.model(),
                owner.model(),
                ty@,
                o,
                site,
            ),
{
    let none: Ghost<Calls> = Ghost(Map::empty());
    let m = match c {
        Check::Required => match v {
            Value::Absent => Some(cat(tag_string(f), " is required")),
            _ => None,
        },
        Check::Compare { op, threshold, text } => match target_of(is_option, v) {
            Some(Value::Int(x)) => {
                if is_violation(*op, *x, *threshold) {
                    let m = cat(
                        cat(
                            cat(cat(cat(tag_string(f), " must be "), comparison_str(*op)), " "),
                            text.as_str(),
                        ),
                        ".",
                    );
                    Some(m)
                } else {
                    None
                }
            },
            _ => None,
        },
        Check::MultipleOf { divisor, text } => match target_of(is_option, v) {
            Some(Value::Int(x)) => {
                if !is_multiple(*x, *divisor) {
                    Some(cat(cat(cat(tag_string(f), " must be a multiple of "), text.as_str()), "."))
                } else {
                    None
                }
            },
            _ => None,
        },
        Check::Length { bound, limit, text } => match target_of(is_option, v) {
            Some(t) => match length_value(t) {
                Some(n) => {
                    let n = n as i128;
                    let fails = match bound {
                        Bound::Min => n < *limit,
                        Bound::Max => n > *limit,
                    };
                    if fails {
                        let m = cat(
                            cat(
                                cat(cat(cat(tag_string(f), " length must be "), bound_str(*bound)), " "),
                                text.as_str(),
                            ),
                            ".",
                        );
                        Some(m)
                    } else {
                        None
                    }
                },
                None => None,
            },
            None => None,
        },
        Check::Pattern { regex } => match target_of(is_option, v) {
            Some(Value::Text(s)) => pattern_error(
                f,
                regex.as_str(),
                regex_search(regex.as_str(), s.as_str()),
            ),
            _ => None,
        },
        Check::Custom { function } => {
            let res = h.call(ty, function.as_str(), owner);
            let ghost outcome = match &res {
                Ok(()) => None,
                Err(e) => Some(e@),
            };
            let ghost calls: Calls = map![site => (ty@, function@, owner.model(), outcome)];
            let m = custom_error(f, function.as_str(), res);
            proof {
                assert(calls.dom().contains(site));
            }
            return (m, Ghost(calls));
        },
    };
    (m, none)
}

proof fn lemma_views_append(a: Seq<String>, b: Seq<String>)
    ensures
        views(a + b) == views(a) + views(b),
{
    assert(views(a + b) =~= views(a) + views(b));
}

proof fn lemma_flatten_step(parts: Seq<Seq<Seq<char>>>, j: int)
    requires
        0 <= j < parts.len(),
    ensures
        parts.take(j + 1).flatten() == parts.take(j).flatten() + parts[j],
{
    assert(parts.take(j + 1) =~= parts.take(j).push(parts[j]));
    parts.take(j).lemma_flatten_push(parts[j]);
}

proof fn lemma_item_decreases(v: Value, items: Vec<Value>, i: int)
    requires
        0 <= i < items@.len(),
        v == Value::Record(items) || v == Value::List(items),
    ensures
        decreases_to!(v => items@[i]),
{
    vstd::std_specs::vec::axiom_vec_index_decreases(items, i);
    assert(decreases_to!(items => items@[i]));
    if v == Value::Record(items) {
        assert(decreases_to!(v => v->Record_0));
    } else {
        assert(decreases_to!(v => v->List_0));
    }
}

proof fn lemma_entry_decreases(v: Value, items: Vec<(String, Value)>, i: int)
    requires
        0 <= i < items@.len(),
        v == Value::Dict(items),
    ensures
        decreases_to!(v => items@[i].1),
{
    vstd::std_specs::vec::axiom_vec_index_decreases(items, i);
    assert(decreases_to!(items => items@[i]));
    assert(decreases_to!(items@[i] => items@[i].1));
    assert(decreases_to!(v => v->Dict_0));
}

/// Messages joined by line breaks (see `join_lines`).
fn join_messages(es: &Vec<String>) -> (r: String)
    ensures
        r@ == join_lines(views(es@)),
{
    let n = es.len();
    if n == 0 {
        return String::new();
    }
    let mut acc = es[0].clone();
    assert(views(es@).take(1) =~= seq![es@[0]@]);
    let mut i: usize = 1;
    while i < n
        invariant
            n == es@.len(),
            1 <= i <= n,
            acc@ == join_lines(views(es@).take(i as int)),
        decreases n - i,
    {
        assert(views(es@).take(i as int + 1).drop_last() =~= views(es@).take(i as int));
        acc = cat(cat(acc, "\n"), es[i].as_str());
        i += 1;
    }
    assert(views(es@).take(n as int) =~= views(es@));
    acc
}

fn wrap_messages(f: &str, errs: Vec<String>) -> (r: Vec<String>)
    ensures
        views(r@) == wrap(f@, views(errs@)),
{
    if errs.len() == 0 {
        assert(views(errs@).len() == 0);
        return Vec::new();
    }
    let m = cat(cat(cat(tag_string(f), " failed validation '"), join_messages(&errs).as_str()), "'");
    let mut r = Vec::new();
    r.push(m);
    assert(views(r@) =~= wrap(f@, views(errs@)));
    r
}

/// Joining the calls made under field or item `j` of `path` to those made
/// under earlier ones keeps both sets of calls as they were.
proof fn lemma_join_calls(path: Seq<int>, j: int, acc: Calls, cm: Calls)
    requires
        forall|k: Seq<int>|
            #[trigger] acc.dom().contains(k) ==> at_or_under(path, k) && k.len() > path.len()
                && k[path.len() as int] < j,
        forall|k: Seq<int>| #[trigger] cm.dom().contains(k) ==> at_or_under(path.push(j), k),
    ensures
        forall|k: Seq<int>|
            #[trigger] acc.union_prefer_right(cm).dom().contains(k) ==> at_or_under(path, k)
                && k.len() > path.len() && k[path.len() as int] < j + 1,
        forall|o: Outcomes|
            agrees(o, acc.union_prefer_right(cm)) ==> agrees(o, acc) && agrees(o, cm),
{
    let u = acc.union_prefer_right(cm);
    let n = path.len() as int;
    assert forall|k: Seq<int>| #[trigger] cm.dom().contains(k) implies at_or_under(path, k)
        && k.len() > n && k[n] == j by {
        assert(k.take(n + 1) == path.push(j));
        assert(k.take(n + 1)[n] == k[n]);
        assert(k.take(n) =~= k.take(n + 1).take(n));
        assert(path.push(j).take(n) =~= path);
    }
    assert forall|o: Outcomes| agrees(o, u) implies agrees(o, acc) && agrees(o, cm) by {
        assert forall|k: Seq<int>| #[trigger] acc.dom().contains(k) implies o(
            k,
            acc[k].0,
            acc[k].1,
            acc[k].2,
        ) == acc[k].3 by {
            assert(!cm.dom().contains(k));
            assert(u.dom().contains(k));
        }
        assert forall|k: Seq<int>| #[trigger] cm.dom().contains(k) implies o(
            k,
            cm[k].0,
            cm[k].1,
            cm[k].2,
        ) == cm[k].3 by {
            assert(u.dom().contains(k));
        }
    }
}

fn record_errors_exec<H: CustomRules>(
    s: &Schema,
    ty: &str,
    v: &Value,
    h: &H,
    Ghost(path): Ghost<Seq<int>>,
) -> (r: (Vec<String>, Ghost<Calls>))
    ensures
        forall|k: Seq<int>| #[trigger] r.1@.dom().contains(k) ==> at_or_under(path, k),
        forall|o: Outcomes|
            agrees(o, r.1@) ==> views(r.0@) == record_errors(*s, ty@, v.model(), o, path),
    decreases v, 0int,
{
    let ghost mut calls: Calls = Map::empty();
    let rec = match s.find_record(ty) {
        None => {
            return (Vec::new(), Ghost(calls));
        },
        Some(rec) => rec,
    };
    match v {
        Value::Record(vals) => {
            let nf = rec.fields.len();
            let n = if vals.len() < nf {
                vals.len()
            } else {
                nf
            };
            let mut out: Vec<String> = Vec::new();
            let mut j: usize = 0;
            while j < n
                invariant
                    n <= vals@.len(),
                    n <= nf,
                    *v == Value::Record(*vals),
                    record_of(*s, ty@) == Some(*rec),
                    nf == rec.fields@.len(),
                    0 <= j <= n,
                    forall|k: Seq<int>|
                        #[trigger] calls.dom().contains(k) ==> at_or_under(path, k) && k.len()
                            > path.len() && k[path.len() as int] < j,
                    forall|o: Outcomes|
                        agrees(o, calls) ==> views(out@) == field_parts(
                            *s,
                            *rec,
                            v.model(),
                            ty@,
                            o,
                            path,
                        ).take(j as int).flatten(),
                decreases n - j,
            {
                proof {
                    lemma_item_decreases(*v, *vals, j as int);
                }
                let (mut es, Ghost(cm)) = field_errors_exec(
                    s,
                    &rec.fields[j],
                    &vals[j],
                    v,
                    ty,
                    h,
                    Ghost(path.push(j as int)),
                );
                proof {
                    lemma_join_calls(path, j as int, calls, cm);
                    assert forall|o: Outcomes| agrees(o, calls.union_prefer_right(cm)) implies views(
                        out@ + es@,
                    ) == field_parts(*s, *rec, v.model(), ty@, o, path).take(j + 1).flatten() by {
                        let parts = field_parts(*s, *rec, v.model(), ty@, o, path);
                        assert(agrees(o, calls) && agrees(o, cm));
                        assert(v.model()->Record_0[j as int] == vals@[j as int].model());
                        assert(parts[j as int] == field_errors(
                            *s,
                            rec.fields@[j as int],
                            vals@[j as int].model(),
                            v.model(),
                            ty@,
                            o,
                            path.push(j as int),
                        ));
                        lemma_views_append(out@, es@);
                        lemma_flatten_step(parts, j as int);
                    }
                    calls = calls.union_prefer_right(cm);
                }
                out.append(&mut es);
                j += 1;
            }
            proof {
                assert forall|o: Outcomes| agrees(o, calls) implies views(out@) == record_errors(
                    *s,
                    ty@,
                    v.model(),
                    o,
                    path,
                ) by {
                    let parts = field_parts(*s, *rec, v.model(), ty@, o, path);
                    assert(parts.take(n as int) =~= parts);
                }
            }
            (out, Ghost(calls))
        },
        _ => (Vec::new(), Ghost(calls)),
    }
}

fn field_errors_exec<H: CustomRules>(
    s: &Schema,
    f: &CompiledField,
    v: &Value,
    owner: &Value,
    ty: &str,
    h: &H,
    Ghost(site): Ghost<Seq<int>>,
) -> (r: (Vec<String>, Ghost<Calls>))
    ensures
        forall|k: Seq<int>| #[trigger] r.1@.dom().contains(k) ==> at_or_under(site, k),
        forall|o: Outcomes|
            agrees(o, r.1@) ==> views(r.0@) == field_errors(
                *s,
                *f,
                v.model(),
                owner.model(),
                ty@,
                o,
                site,
            ),
    decreases v, 2int,
{
    let ghost mut calls: Calls = Map::empty();
    if !value_fits(&f.shape, v) {
        let m = cat(tag_string(f.name.as_str()), " does not hold a value of its type.");
        let mut out: Vec<String> = Vec::new();
        out.push(m);
        assert(views(out@) =~= seq![type_msg(f.name@)]);
        return (out, Ghost(calls));
    }
    let nc = f.checks.len();
    if nc > 0 {
        let is_option = match &f.shape {
            FieldShape::Optional(_) => true,
            _ => false,
        };
        let mut out: Vec<String> = Vec::new();
        let mut k: usize = 0;
        while k < nc
            invariant
                nc == f.checks@.len(),
                0 <= k <= nc,
                is_option == f.shape is Optional,
                forall|key: Seq<int>|
                    #[trigger] calls.dom().contains(key) ==> at_or_under(site, key) && key.len()
                        > site.len() && key[site.len() as int] < k,
                forall|o: Outcomes|
                    agrees(o, calls) ==> views(out@) == check_parts(
                        *f,
                        v.model(),
                        owner.model(),
                        ty@,
                        o,
                        site,
                    ).take(k as int).flatten(),
            decreases nc - k,
        {
            let (m, Ghost(cm)) = run_check(
                f.name.as_str(),
                is_option,
                &f.checks[k],
                v,
                owner,
                ty,
                h,
                Ghost(site.push(k as int)),
            );
            let ghost before = out@;
            let ghost mv = opt_view(m);
            match m {
                Some(m) => {
                    out.push(m);
                    assert(views(out@) =~= views(before) + opt_seq(mv));
                },
                None => {
                    assert(views(out@) =~= views(before) + opt_seq(mv));
                },
            }
            proof {
                assert forall|key: Seq<int>| #[trigger] cm.dom().contains(key) implies at_or_under(
                    site.push(k as int),
                    key,
                ) by {
                    assert(key == site.push(k as int));
                    assert(key.take(key.len() as int) =~= key);
                }
                lemma_join_calls(site, k as int, calls, cm);
                assert forall|o: Outcomes| agrees(o, calls.union_prefer_right(cm)) implies views(
                    out@,
                ) == check_parts(*f, v.model(), owner.model(), ty@, o, site).take(k + 1).flatten() by {
                    let parts = check_parts(*f, v.model(), owner.model(), ty@, o, site);
                    assert(agrees(o, calls) && agrees(o, cm));
                    assert(parts[k as int] == opt_seq(mv));
                    lemma_flatten_step(parts, k as int);
                }
                calls = calls.union_prefer_right(cm);
            }
            k += 1;
        }
        proof {
            assert forall|o: Outcomes| agrees(o, calls) implies views(out@) == field_errors(
                *s,
                *f,
                v.model(),
                owner.model(),
                ty@,
                o,
                site,
            ) by {
                let parts = check_parts(*f, v.model(), owner.model(), ty@, o, site);
                assert(parts.take(nc as int) =~= parts);
            }
        }
        return (out, Ghost(calls));
    }
    if f.skip {
        return (Vec::new(), Ghost(calls));
    }
    match &f.shape {
        FieldShape::Optional(inner) => match v {
            Value::Present(x) => within_errors_exec(s, f.name.as_str(), inner, x, h, Ghost(site)),
            _ => (Vec::new(), Ghost(calls)),
        },
        _ => within_errors_exec(s, f.name.as_str(), &f.shape, v, h, Ghost(site)),
    }
}

fn within_errors_exec<H: CustomRules>(
    s: &Schema,
    f: &str,
    shape: &FieldShape,
    v: &Value,
    h: &H,
    Ghost(site): Ghost<Seq<int>>,
) -> (r: (Vec<String>, Ghost<Calls>))
    ensures
        forall|k: Seq<int>| #[trigger] r.1@.dom().contains(k) ==> at_or_under(site, k),
        forall|o: Outcomes|
            agrees(o, r.1@) ==> views(r.0@) == within_errors(*s, f@, *shape, v.model(), o, site),
    decreases v, 1int,
{
    let ghost mut calls: Calls = Map::empty();
    let n = match shape {
        FieldShape::Nested(n) => {
            let (errs, Ghost(cm)) = record_errors_exec(s, n.as_str(), v, h, Ghost(site));
            let r = wrap_messages(f, errs);
            return (r, Ghost(cm));
        },
        FieldShape::Sequence(inner) => match (&**inner, v) {
            (FieldShape::Nested(n), Value::List(_)) => n,
            _ => {
                return (Vec::new(), Ghost(calls));
            },
        },
        FieldShape::AssociativeMap(inner) => match (&**inner, v) {
            (FieldShape::Nested(n), Value::Dict(_)) => n,
            _ => {
                return (Vec::new(), Ghost(calls));
            },
        },
        _ => {
            return (Vec::new(), Ghost(calls));
        },
    };
    let len = match v {
        Value::List(es) => es.len(),
        Value::Dict(es) => es.len(),
        _ => 0,
    };
    let mut out: Vec<String> = Vec::new();
    let mut i: usize = 0;
    while i < len
        invariant
            v.model() is List || v.model() is Dict,
            within_errors(*s, f@, *shape, v.model(), all_hold(), site) == item_parts(
                *s,
                f@,
                n@,
                v.model(),
                all_hold(),
                site,
            ).flatten(),
            forall|o: Outcomes|
                within_errors(*s, f@, *shape, v.model(), o, site) == #[trigger] item_parts(
                    *s,
                    f@,
                    n@,
                    v.model(),
                    o,
                    site,
                ).flatten(),
            len == item_parts(*s, f@, n@, v.model(), all_hold(), site).len(),
            forall|o: Outcomes| #[trigger] item_parts(*s, f@, n@, v.model(), o, site).len() == len,
            0 <= i <= len,
            forall|k: Seq<int>|
                #[trigger] calls.dom().contains(k) ==> at_or_under(site, k) && k.len() > site.len()
                    && k[site.len() as int] < i,
            forall|o: Outcomes|
                agrees(o, calls) ==> views(out@) == item_parts(
                    *s,
                    f@,
                    n@,
                    v.model(),
                    o,
                    site,
                ).take(i as int).flatten(),
        decreases len - i,
    {
        let ghost item_m = match v.model() {
            Val::List(es) => es[i as int],
            Val::Dict(es) => es[i as int].1,
            _ => Val::Absent,
        };
        let (errs, Ghost(cm)) = match v {
            Value::List(es) => {
                proof {
                    lemma_item_decreases(*v, *es, i as int);
                }
                let r = record_errors_exec(s, n.as_str(), &es[i], h, Ghost(site.push(i as int)));
                assert(es@[i as int].model() == item_m);
                r
            },
            Value::Dict(es) => {
                proof {
                    lemma_entry_decreases(*v, *es, i as int);
                }
                let r = record_errors_exec(s, n.as_str(), &es[i].1, h, Ghost(site.push(i as int)));
                assert(es@[i as int].1.model() == item_m);
                r
            },
            _ => (Vec::new(), Ghost(Map::empty())),
        };
        let mut w = wrap_messages(f, errs);
        proof {
            lemma_join_calls(site, i as int, calls, cm);
            assert forall|o: Outcomes| agrees(o, calls.union_prefer_right(cm)) implies views(
                out@ + w@,
            ) == item_parts(*s, f@, n@, v.model(), o, site).take(i + 1).flatten() by {
                let parts = item_parts(*s, f@, n@, v.model(), o, site);
                assert(agrees(o, calls) && agrees(o, cm));
                assert(parts[i as int] == wrap(f@, record_errors(*s, n@, item_m, o, site.push(i as int))));
                lemma_views_append(out@, w@);
                lemma_flatten_step(parts, i as int);
            }
            calls = calls.union_prefer_right(cm);
        }
        out.append(&mut w);
        i += 1;
    }
    proof {
        assert forall|o: Outcomes| agrees(o, calls) implies views(out@) == within_errors(
            *s,
            f@,
            *shape,
            v.model(),
            o,
            site,
        ) by {
            let parts = item_parts(*s, f@, n@, v.model(), o, site);
            assert(parts.take(len as int) =~= parts);
        }
    }
    (out, Ghost(calls))
}

/// `r` is the verdict on a record value of type `ty` when the predicates
/// report `o`: `Ok` exactly when there is no failure, else every failure in
/// traversal order.
pub open spec fn validation_result(
    s: Schema,
    ty: Seq<char>,
    v: Val,
    o: Outcomes,
    r: Result<(), Vec<String>>,
) -> bool {
    let errs = record_errors(s, ty, v, o, Seq::empty());
    &&& r is Ok == (errs.len() == 0)
    &&& r matches Err(es) ==> views(es@) == errs
}

/// Validation is pure: on the same schema, record type and record, and with
/// the predicates reporting the same, two runs give the same verdict and the
/// same messages.
pub proof fn lemma_validation_deterministic(
    s: Schema,
    ty: Seq<char>,
    v: Val,
    o: Outcomes,
    r1: Result<(), Vec<String>>,
    r2: Result<(), Vec<String>>,
)
    requires
        validation_result(s, ty, v, o, r1),
        validation_result(s, ty, v, o, r2),
    ensures
        r1 is Ok == r2 is Ok,
        r1 matches Err(a) ==> (r2 matches Err(b) && views(a@) == views(b@)),
{
}

/// Validates a record value of type `record_type`: every check of every
/// field runs, and the result lists every failure in traversal order; it is
/// `Ok` exactly when there is none. The `fn=` rules report what `hooks`
/// returned for them (see `custom_error`); a schema without such rules gives
/// exactly the failures of `record_errors` with every predicate holding.
pub fn validate<H: CustomRules>(schema: &Schema, record_type: &str, record: &Value, hooks: &H) -> (r:
    Result<(), Vec<String>>)
    ensures
        exists|o: Outcomes| validation_result(*schema, record_type@, record.model(), o, r),
        !uses_custom(*schema) ==> validation_result(
            *schema,
            record_type@,
            record.model(),
            all_hold(),
            r,
        ),
{
    let (errs, Ghost(calls)) = record_errors_exec(
        schema,
        record_type,
        record,
        hooks,
        Ghost(Seq::empty()),
    );
    let ghost o: Outcomes = |site: Seq<int>, t: Seq<char>, f: Seq<char>, rec: Val|
        if calls.dom().contains(site) {
            calls[site].3
        } else {
            None
        };
    proof {
        assert(agrees(o, calls));
        if !uses_custom(*schema) {
            lemma_record_unused(*schema, record_type@, record.model(), o, all_hold(), Seq::empty());
        }
    }
    let r = if errs.len() == 0 {
        Ok(())
    } else {
        Err(errs)
    };
    assert(validation_result(*schema, record_type@, record.model(), o, r));
    r
}

proof fn lemma_record_unused(s: Schema, ty: Seq<char>, v: Val, o1: Outcomes, o2: Outcomes, path: Seq<int>)
    requires
        !uses_custom(s),
    ensures
        record_errors(s, ty, v, o1, path) == record_errors(s, ty, v, o2, path),
    decreases v, 0int, 1int,
{
    if let Some(rec) = record_of(s, ty) {
        if let Val::Record(vals) = v {
            let i = choose|i: int| crate::schema::first_record(s, ty, i);
            let p1 = field_parts(s, rec, v, ty, o1, path);
            let p2 = field_parts(s, rec, v, ty, o2, path);
            assert forall|j: int| 0 <= j < p1.len() implies p1[j] == p2[j] by {
                assert(!field_has_custom(s.records@[i].fields@[j]));
                lemma_field_unused(s, rec.fields@[j], vals[j], v, ty, o1, o2, path.push(j));
            }
            assert(p1 =~= p2);
        }
    }
}

proof fn lemma_field_unused(
    s: Schema,
    f: CompiledField,
    v: Val,
    owner: Val,
    ty: Seq<char>,
    o1: Outcomes,
    o2: Outcomes,
    site: Seq<int>,
)
    requires
        !uses_custom(s),
        !field_has_custom(f),
    ensures
        field_errors(s, f, v, owner, ty, o1, site) == field_errors(s, f, v, owner, ty, o2, site),
    decreases v, 2int, 0int,
{
    if f.checks@.len() > 0 {
        let p1 = check_parts(f, v, owner, ty, o1, site);
        let p2 = check_parts(f, v, owner, ty, o2, site);
        assert forall|k: int| 0 <= k < p1.len() implies p1[k] == p2[k] by {
            assert(!(f.checks@[k].model() is Custom));
        }
        assert(p1 =~= p2);
    } else if !f.skip {
        match f.shape {
            FieldShape::Optional(inner) => {
                if let Val::Present(x) = v {
                    lemma_within_unused(s, f.name@, *inner, *x, o1, o2, site);
                }
            },
            _ => {
                lemma_within_unused(s, f.name@, f.shape, v, o1, o2, site);
            },
        }
    }
}

proof fn lemma_within_unused(
    s: Schema,
    f: Seq<char>,
    shape: FieldShape,
    v: Val,
    o1: Outcomes,
    o2: Outcomes,
    site: Seq<int>,
)
    requires
        !uses_custom(s),
    ensures
        within_errors(s, f, shape, v, o1, site) == within_errors(s, f, shape, v, o2, site),
    decreases v, 1int, 0int,
{
    match shape {
        FieldShape::Nested(n) => {
            lemma_record_unused(s, n@, v, o1, o2, site);
        },
        FieldShape::Sequence(inner) => {
            if let (FieldShape::Nested(n), Val::List(es)) = (*inner, v) {
                let p1 = item_parts(s, f, n@, v, o1, site);
                let p2 = item_parts(s, f, n@, v, o2, site);
                assert forall|i: int| 0 <= i < p1.len() implies p1[i] == p2[i] by {
                    lemma_record_unused(s, n@, es[i], o1, o2, site.push(i));
                }
                assert(p1 =~= p2);
            }
        },
        FieldShape::AssociativeMap(inner) => {
            if let (FieldShape::Nested(n), Val::Dict(es)) = (*inner, v) {
                let p1 = item_parts(s, f, n@, v, o1, site);
                let p2 = item_parts(s, f, n@, v, o2, site);
                assert forall|i: int| 0 <= i < p1.len() implies p1[i] == p2[i] by {
                    lemma_record_unused(s, n@, es[i].1, o1, o2, site.push(i));
                }
                assert(p1 =~= p2);
            }
        },
        _ => {},
    }
}

/// The messages of the checks of a field, in order.
pub open spec fn check_parts(
    f: CompiledField,
    v: Val,
    owner: Val,
    ty: Seq<char>,
    h: Outcomes,
    site: Seq<int>,
) -> Seq<Seq<Seq<char>>> {
    Seq::new(
        f.checks@.len(),
        |k: int|
            opt_seq(
                check_error(
                    f.name@,
                    f.shape is Optional,
                    f.checks@[k].model(),
                    v,
                    owner,
                    ty,
                    h,
                    site.push(k),
                ),
            ),
    )
}

proof fn lemma_flatten_empty(parts: Seq<Seq<Seq<char>>>)
    requires
        forall|i: int| 0 <= i < parts.len() ==> (#[trigger] parts[i]).len() == 0,
    ensures
        parts.flatten() =~= Seq::<Seq<char>>::empty(),
    decreases parts.len(),
{
    if parts.len() > 0 {
        lemma_flatten_empty(parts.drop_first());
    }
}

proof fn lemma_flatten_member(parts: Seq<Seq<Seq<char>>>, m: Seq<char>)
    requires
        parts.flatten().contains(m),
    ensures
        exists|i: int| 0 <= i < parts.len() && (#[trigger] parts[i]).contains(m),
    decreases parts.len(),
{
    if parts.len() > 0 {
        let rest = parts.drop_first();
        assert(parts.flatten() == parts[0] + rest.flatten());
        if !parts[0].contains(m) {
            let j = choose|j: int| 0 <= j < parts.flatten().len() && parts.flatten()[j] == m;
            assert(rest.flatten()[j - parts[0].len()] == m);
            lemma_flatten_member(rest, m);
            let i = choose|i: int| 0 <= i < rest.len() && (#[trigger] rest[i]).contains(m);
            assert(parts[i + 1] == rest[i]);
        }
    }
}

/// Every message other than that of `required` differs from it right after
/// the quoted field name.
proof fn lemma_not_required_msg(
    f: Seq<char>,
    c: CheckSpec,
    v: Val,
    owner: Val,
    ty: Seq<char>,
    h: Outcomes,
    site: Seq<int>,
)
    requires
        !(c is Required),
        !(c is Custom),
    ensures
        check_error(f, true, c, v, owner, ty, h, site) != Some(required_msg(f)),
{
    reveal_strlit("Field '");
    reveal_strlit("'");
    reveal_strlit(" is required");
    reveal_strlit(" must be ");
    reveal_strlit(" must be a multiple of ");
    reveal_strlit(" length must be ");
    reveal_strlit(" does not match the required pattern: '");
    reveal_strlit(" has an invalid pattern: '");
    let p = field_tag(f).len() as int + 1;
    assert(required_msg(f)[p] == 'i');
    match check_error(f, true, c, v, owner, ty, h, site) {
        Some(m) => {
            assert(m[p] != 'i');
        },
        None => {},
    }
}

/// A `required` rule on an optional field reports an absent field with
/// exactly one message, which names the field, and reports nothing once the
/// field holds a value (here with every other rule on the field one that reads
/// only a present value: no `fn=` rule).
pub proof fn lemma_required_field(
    s: Schema,
    f: CompiledField,
    owner: Val,
    ty: Seq<char>,
    h: Outcomes,
    site: Seq<int>,
    x: Val,
    k: int,
)
    requires
        f.shape is Optional,
        0 <= k < f.checks@.len(),
        f.checks@[k].model() is Required,
        fits(f.shape, Val::Present(Box::new(x))),
        forall|j: int|
            0 <= j < f.checks@.len() && j != k ==> !(#[trigger] f.checks@[j].model() is Required)
                && !(f.checks@[j].model() is Custom),
    ensures
        field_errors(s, f, Val::Absent, owner, ty, h, site) == seq![required_msg(f.name@)],
        !field_errors(s, f, Val::Present(Box::new(x)), owner, ty, h, site).contains(
            required_msg(f.name@),
        ),
{
    let absent = check_parts(f, Val::Absent, owner, ty, h, site);
    let a = absent.take(k);
    let b = absent.skip(k + 1);
    assert forall|i: int| 0 <= i < a.len() implies (#[trigger] a[i]).len() == 0 by {
        assert(a[i] == absent[i]);
    }
    assert forall|i: int| 0 <= i < b.len() implies (#[trigger] b[i]).len() == 0 by {
        assert(b[i] == absent[i + k + 1]);
    }
    lemma_flatten_empty(a);
    lemma_flatten_empty(b);
    assert(absent =~= a + seq![absent[k]] + b);
    vstd::seq_lib::lemma_flatten_concat(a + seq![absent[k]], b);
    vstd::seq_lib::lemma_flatten_concat(a, seq![absent[k]]);
    seq![absent[k]].lemma_flatten_one_element();
    assert(absent[k] =~= seq![required_msg(f.name@)]);
    assert(absent.flatten() =~= seq![required_msg(f.name@)]);
    let present = check_parts(f, Val::Present(Box::new(x)), owner, ty, h, site);
    if present.flatten().contains(required_msg(f.name@)) {
        lemma_flatten_member(present, required_msg(f.name@));
        let i = choose|i: int|
            0 <= i < present.len() && (#[trigger] present[i]).contains(required_msg(f.name@));
        if i != k {
            lemma_not_required_msg(
                f.name@,
                f.checks@[i].model(),
                Val::Present(Box::new(x)),
                owner,
                ty,
                h,
                site.push(i),
            );
        }
        assert(present[i].len() <= 1);
        assert(present[i][0] == required_msg(f.name@));
    }
}

/// A lower and an upper length bound with the lower not above the upper
/// never both fail on one value: two length messages on one field come only
/// from different values.
pub proof fn lemma_length_bounds_exclusive(
    f: Seq<char>,
    is_option: bool,
    m: int,
    m_text: Seq<char>,
    big: int,
    big_text: Seq<char>,
    v: Val,
    owner: Val,
    ty: Seq<char>,
    h: Outcomes,
    site1: Seq<int>,
    site2: Seq<int>,
)
    requires
        m <= big,
    ensures
        !(check_error(f, is_option, CheckSpec::Length(Bound::Min, m, m_text), v, owner, ty, h, site1)
            is Some && check_error(
            f,
            is_option,
            CheckSpec::Length(Bound::Max, big, big_text),
            v,
            owner,
            ty,
            h,
            site2,
        ) is Some),
{
}

} // verus!
