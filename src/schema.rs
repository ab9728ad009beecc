//! Schema declarations and their compilation: every rule on every field is
//! looked up in the registry, checked against the field's shape and has its
//! operand read, and every default is read into the field's type, before any
//! record is defaulted or validated.
use vstd::prelude::*;
use crate::pattern::{regex_search, regex_valid};
use crate::rules::{
    Handler, Registry, TypeTag, ValidationRule, accepts, int_for_kind, lookup_spec,
    parse_int_for_kind, tag_of, unwrapped,
};
use crate::shape::{FieldShape, IntKind, ScalarKind, TypeSig, infer_shape, same_shape, shape_of};
use crate::text::{starts_with, str_eq};
use crate::value::{Val, Value};

verus! {

/// One declared field: its name, its type, the text of its default if it
/// declares one, and its rules in declaration order.
pub struct FieldDecl {
    pub name: String,
    pub ty: TypeSig,
    pub default: Option<String>,
    pub rules: Vec<ValidationRule>,
}

/// One declared record type.
pub struct RecordDecl {
    pub name: String,
    pub fields: Vec<FieldDecl>,
}

/// The order of a numeric comparison; `Ge` and `Le` include the bound.
#[derive(Clone, Copy, Debug, PartialEq, Eq, Structural)]
pub enum Comparison {
    Ge,
    Gt,
    Le,
    Lt,
}

/// Lower (`min...`) or upper (`max...`) bound on a length.
#[derive(Clone, Copy, Debug, PartialEq, Eq, Structural)]
pub enum Bound {
    Min,
    Max,
}

/// A rule with its operand read, ready to run.
#[derive(Debug)]
pub enum Check {
    Required,
    /// The value against a bound; `text` is the bound as declared.
    Compare { op: Comparison, threshold: i128, text: String },
    /// The value must be a multiple of a non-zero divisor.
    MultipleOf { divisor: i128, text: String },
    /// The length of a string, or the number of items of a sequence or map.
    Length { bound: Bound, limit: i128, text: String },
    /// A regular expression that must match somewhere in the string.
    Pattern { regex: String },
    /// A named predicate on the owning record.
    Custom { function: String },
}

/// The model of a `Check`.
pub enum CheckSpec {
    Required,
    Compare(Comparison, int, Seq<char>),
    MultipleOf(int, Seq<char>),
    Length(Bound, int, Seq<char>),
    Pattern(Seq<char>),
    Custom(Seq<char>),
}

impl Check {
    pub open spec fn model(&self) -> CheckSpec {
        match self {
            Check::Required => CheckSpec::Required,
            Check::Compare { op, threshold, text } => CheckSpec::Compare(
                *op,
                *threshold as int,
                text@,
            ),
            Check::MultipleOf { divisor, text } => CheckSpec::MultipleOf(*divisor as int, text@),
            Check::Length { bound, limit, text } => CheckSpec::Length(*bound, *limit as int, text@),
            Check::Pattern { regex } => CheckSpec::Pattern(regex@),
            Check::Custom { function } => CheckSpec::Custom(function@),
        }
    }
}

/// A scalar default value.
#[derive(Debug)]
pub enum Literal {
    Int(i128),
    Bool(bool),
    Text(String),
    Variant(String),
}

impl Literal {
    pub open spec fn model(&self) -> Val {
        match self {
            Literal::Int(i) => Val::Int(*i as int),
            Literal::Bool(b) => Val::Bool(*b),
            Literal::Text(s) => Val::Text(s@),
            Literal::Variant(s) => Val::Variant(s@),
        }
    }

    /// The literal as a field value.
    pub fn to_value(&self) -> (r: Value)
        ensures
            r.model() == self.model(),
    {
        match self {
            Literal::Int(i) => Value::Int(*i),
            Literal::Bool(b) => Value::Bool(*b),
            Literal::Text(s) => Value::Text(s.clone()),
            Literal::Variant(s) => Value::Variant(s.clone()),
        }
    }
}

/// What defaulting does with a field.
#[derive(Debug)]
pub enum DefaultAction {
    /// No default declared: recurse into nested records.
    Recurse,
    /// Declared as `none`: leave the field alone.
    Keep,
    /// Fill an absent optional field with this value.
    Fill(Literal),
}

/// The model of a `DefaultAction`.
pub enum DefaultSpec {
    Recurse,
    Keep,
    Fill(Val),
}

impl DefaultAction {
    pub open spec fn model(&self) -> DefaultSpec {
        match self {
            DefaultAction::Recurse => DefaultSpec::Recurse,
            DefaultAction::Keep => DefaultSpec::Keep,
            DefaultAction::Fill(l) => DefaultSpec::Fill(l.model()),
        }
    }
}

/// A field ready for the engines.
#[derive(Debug)]
pub struct CompiledField {
    pub name: String,
    pub shape: FieldShape,
    pub default: DefaultAction,
    pub checks: Vec<Check>,
    /// The identity and metadata field, which neither engine enters.
    pub skip: bool,
}

/// A record type ready for the engines.
#[derive(Debug)]
pub struct CompiledRecord {
    pub name: String,
    pub fields: Vec<CompiledField>,
}

/// A checked schema: every record type with its fields ready for the engines.
#[derive(Debug)]
pub struct Schema {
    pub records: Vec<CompiledRecord>,
}

/// What can be wrong with a schema.
#[derive(Clone, Copy, Debug, PartialEq, Eq, Structural)]
pub enum SchemaErrorKind {
    /// The same operator twice on one field.
    DuplicateRule,
    /// An operator the registry does not know, or that its handler does not.
    UnknownRule,
    /// A rule on a field whose shape it does not apply to.
    UnsupportedRule,
    /// A rule without the operand it needs.
    MissingOperand,
    /// An operand that does not read as a value of the field's type.
    InvalidOperand,
    /// `mo` with zero.
    ZeroModulus,
    /// A pattern that is no regular expression.
    InvalidPattern,
    /// A default that does not read as a value of the field's type.
    InvalidDefault,
    /// A numeric operand or a default on a floating-point field, which this
    /// library does not read.
    FloatOperand,
}

/// A schema error, with the record, field and operator (empty for defaults)
/// where it was found.
#[derive(Debug)]
pub struct SchemaError {
    pub kind: SchemaErrorKind,
    pub record: String,
    pub field: String,
    pub operator: String,
}

pub open spec fn comparison_of(op: Seq<char>) -> Option<Comparison> {
    if op == "ge"@ {
        Some(Comparison::Ge)
    } else if op == "gt"@ {
        Some(Comparison::Gt)
    } else if op == "le"@ {
        Some(Comparison::Le)
    } else if op == "lt"@ {
        Some(Comparison::Lt)
    } else {
        None
    }
}

pub open spec fn bound_of(op: Seq<char>) -> Option<Bound> {
    if op == "minLength"@ || op == "minItems"@ {
        Some(Bound::Min)
    } else if op == "maxLength"@ || op == "maxItems"@ {
        Some(Bound::Max)
    } else {
        None
    }
}

/// A numeric rule's operand, read into the type of the field it is on.
pub open spec fn numeric_outcome(op: Seq<char>, t: Seq<char>, shape: FieldShape) -> Result<
    CheckSpec,
    SchemaErrorKind,
> {
    match tag_of(unwrapped(shape)) {
        TypeTag::Int(k) => match int_for_kind(t, k) {
            None => Err(SchemaErrorKind::InvalidOperand),
            Some(x) => if op == "mo"@ {
                if x == 0 {
                    Err(SchemaErrorKind::ZeroModulus)
                } else {
                    Ok(CheckSpec::MultipleOf(x, t))
                }
            } else {
                Ok(CheckSpec::Compare(comparison_of(op)->0, x, t))
            },
        },
        TypeTag::Float => Err(SchemaErrorKind::FloatOperand),
        _ => Err(SchemaErrorKind::UnsupportedRule),
    }
}

/// What one rule on a field of the given shape compiles to, or the error.
pub open spec fn rule_outcome(reg: Registry, shape: FieldShape, rule: ValidationRule) -> Result<
    CheckSpec,
    SchemaErrorKind,
> {
    let op = rule.operator@;
    match lookup_spec(reg, op) {
        None => Err(SchemaErrorKind::UnknownRule),
        Some(info) => if !accepts(info, shape) {
            Err(SchemaErrorKind::UnsupportedRule)
        } else {
            match info.handler {
                Handler::Required => Ok(CheckSpec::Required),
                Handler::Numeric => if comparison_of(op) is None && op != "mo"@ {
                    Err(SchemaErrorKind::UnknownRule)
                } else {
                    match rule.value {
                        None => Err(SchemaErrorKind::MissingOperand),
                        Some(v) => numeric_outcome(op, v@, shape),
                    }
                },
                Handler::Length => match bound_of(op) {
                    None => Err(SchemaErrorKind::UnknownRule),
                    Some(b) => match rule.value {
                        None => Err(SchemaErrorKind::MissingOperand),
                        Some(v) => match int_for_kind(v@, IntKind::U64) {
                            None => Err(SchemaErrorKind::InvalidOperand),
                            Some(x) => Ok(CheckSpec::Length(b, x, v@)),
                        },
                    },
                },
                Handler::Pattern => match rule.value {
                    None => Err(SchemaErrorKind::MissingOperand),
                    Some(v) => if regex_valid(v@) {
                        Ok(CheckSpec::Pattern(v@))
                    } else {
                        Err(SchemaErrorKind::InvalidPattern)
                    },
                },
                Handler::Custom => match rule.value {
                    None => Err(SchemaErrorKind::MissingOperand),
                    Some(v) => Ok(CheckSpec::Custom(v@)),
                },
            }
        },
    }
}

/// `j` is the first rule whose operator an earlier rule already has.
pub open spec fn first_repeat(rules: Seq<ValidationRule>, j: int) -> bool {
    &&& 0 <= j < rules.len()
    &&& exists|i: int| 0 <= i < j && rules[i].operator@ == rules[j].operator@
    &&& forall|k: int, i: int|
        0 <= i < k < j ==> rules[i].operator@ != rules[k].operator@
}

/// The rules of a field, compiled in order: the checks, or the first error
/// with its operator.
pub open spec fn checks_outcome(
    reg: Registry,
    shape: FieldShape,
    rules: Seq<ValidationRule>,
    n: int,
) -> Result<Seq<CheckSpec>, (SchemaErrorKind, Seq<char>)>
    decreases n,
{
    if n <= 0 {
        Ok(Seq::empty())
    } else {
        match checks_outcome(reg, shape, rules, n - 1) {
            Err(e) => Err(e),
            Ok(cs) => match rule_outcome(reg, shape, rules[n - 1]) {
                Ok(c) => Ok(cs.push(c)),
                Err(k) => Err((k, rules[n - 1].operator@)),
            },
        }
    }
}

/// All rules of a field: a repeated operator is refused first, then each
/// rule is compiled in order.
pub open spec fn rules_outcome(reg: Registry, shape: FieldShape, rules: Seq<ValidationRule>) -> Result<
    Seq<CheckSpec>,
    (SchemaErrorKind, Seq<char>),
> {
    if exists|j: int| first_repeat(rules, j) {
        let j = choose|j: int| first_repeat(rules, j);
        Err((SchemaErrorKind::DuplicateRule, rules[j].operator@))
    } else {
        checks_outcome(reg, shape, rules, rules.len() as int)
    }
}

/// What a declared default compiles to. Only optional fields take a default;
/// on other fields it is not used. An integer, boolean or string default is
/// read into the inner type; on a nested type (an enumeration or a record)
/// the text is `enum=V` (the variant `V`) or `none` (leave the field alone);
/// on any other inner type (a container, an opaque value) only `none`.
pub open spec fn default_outcome(shape: FieldShape, d: Option<Seq<char>>) -> Result<
    DefaultSpec,
    SchemaErrorKind,
> {
    match d {
        None => Ok(DefaultSpec::Recurse),
        Some(t) => match shape {
            FieldShape::Optional(inner) => match *inner {
                FieldShape::Scalar(ScalarKind::Int(k)) => match int_for_kind(t, k) {
                    Some(x) => Ok(DefaultSpec::Fill(Val::Int(x))),
                    None => Err(SchemaErrorKind::InvalidDefault),
                },
                FieldShape::Scalar(ScalarKind::Float) => Err(SchemaErrorKind::FloatOperand),
                FieldShape::Scalar(ScalarKind::Bool) => if t == "true"@ {
                    Ok(DefaultSpec::Fill(Val::Bool(true)))
                } else if t == "false"@ {
                    Ok(DefaultSpec::Fill(Val::Bool(false)))
                } else {
                    Err(SchemaErrorKind::InvalidDefault)
                },
                FieldShape::Scalar(ScalarKind::Text) => Ok(DefaultSpec::Fill(Val::Text(t))),
                FieldShape::Nested(_) => if t.len() > 5 && t.take(5) == "enum="@ {
                    Ok(DefaultSpec::Fill(Val::Variant(t.skip(5))))
                } else if t == "none"@ {
                    Ok(DefaultSpec::Keep)
                } else {
                    Err(SchemaErrorKind::InvalidDefault)
                },
                _ => if t == "none"@ {
                    Ok(DefaultSpec::Keep)
                } else {
                    Err(SchemaErrorKind::InvalidDefault)
                },
            },
            _ => Ok(DefaultSpec::Recurse),
        },
    }
}

/// The text of a field's default, if it declares one.
pub open spec fn default_text(f: FieldDecl) -> Option<Seq<char>> {
    match f.default {
        Some(s) => Some(s@),
        None => None,
    }
}

/// The error of a declared field, if it has one: its rules first, then its
/// default.
pub open spec fn field_error(reg: Registry, f: FieldDecl) -> Option<(SchemaErrorKind, Seq<char>)> {
    let shape = shape_of(f.ty);
    match rules_outcome(reg, shape, f.rules@) {
        Err(e) => Some(e),
        Ok(_) => match default_outcome(shape, default_text(f)) {
            Err(k) => Some((k, Seq::empty())),
            Ok(_) => None,
        },
    }
}

/// The kind of a field's error.
pub open spec fn field_error_kind(reg: Registry, f: FieldDecl) -> SchemaErrorKind {
    match field_error(reg, f) {
        Some(e) => e.0,
        None => SchemaErrorKind::UnknownRule,
    }
}

/// The operator of a field's error; empty for an error in its default.
pub open spec fn field_error_operator(reg: Registry, f: FieldDecl) -> Seq<char> {
    match field_error(reg, f) {
        Some(e) => e.1,
        None => Seq::empty(),
    }
}

/// `j` is the first field of the record with an error.
pub open spec fn first_bad_field(reg: Registry, fields: Seq<FieldDecl>, j: int) -> bool {
    &&& 0 <= j < fields.len()
    &&& field_error(reg, fields[j]) is Some
    &&& forall|k: int| 0 <= k < j ==> field_error(reg, fields[k]) is None
}

/// Whether some field of a declared record has an error.
pub open spec fn record_bad(reg: Registry, d: RecordDecl) -> bool {
    exists|j: int| first_bad_field(reg, d.fields@, j)
}

/// `i` is the first record with a field in error.
pub open spec fn first_bad_record(reg: Registry, decls: Seq<RecordDecl>, i: int) -> bool {
    &&& 0 <= i < decls.len()
    &&& record_bad(reg, decls[i])
    &&& forall|k: int| 0 <= k < i ==> !record_bad(reg, #[trigger] decls[k])
}

/// A compiled field is what its declaration compiles to.
pub open spec fn compiled_from(reg: Registry, d: FieldDecl, c: CompiledField) -> bool {
    let shape = shape_of(d.ty);
    &&& c.name@ == d.name@
    &&& same_shape(c.shape, shape)
    &&& c.skip == (d.name@ == "metadata"@)
    &&& rules_outcome(reg, shape, d.rules@) matches Ok(cs) && c.checks@.len() == cs.len() && (
    forall|k: int| 0 <= k < cs.len() ==> #[trigger] c.checks@[k].model() == cs[k])
    &&& default_outcome(shape, default_text(d)) == Ok::<DefaultSpec, SchemaErrorKind>(
        c.default.model(),
    )
}

/// A compiled record is what its declaration compiles to, field by field.
pub open spec fn record_from(reg: Registry, d: RecordDecl, r: CompiledRecord) -> bool {
    &&& r.name@ == d.name@
    &&& r.fields@.len() == d.fields@.len()
    &&& forall|j: int|
        0 <= j < r.fields@.len() ==> compiled_from(reg, d.fields@[j], #[trigger] r.fields@[j])
}

/// A compiled schema is what the declarations compile to, record by record.
pub open spec fn schema_from(reg: Registry, decls: Seq<RecordDecl>, s: Schema) -> bool {
    &&& s.records@.len() == decls.len()
    &&& forall|i: int| 0 <= i < decls.len() ==> record_from(reg, decls[i], #[trigger] s.records@[i])
}

/// Whether every field of every declared record compiles.
pub open spec fn decls_ok(reg: Registry, decls: Seq<RecordDecl>) -> bool {
    forall|i: int, j: int|
        0 <= i < decls.len() && 0 <= j < decls[i].fields@.len() ==> field_error(
            reg,
            #[trigger] decls[i].fields@[j],
        ) is None
}

/// A check is well-formed: its divisor is not zero and its pattern is a
/// regular expression.
pub open spec fn check_ok(c: CheckSpec) -> bool {
    &&& c matches CheckSpec::MultipleOf(d, _) ==> d != 0
    &&& c matches CheckSpec::Pattern(p) ==> regex_valid(p)
}

/// The schema invariant the engines rely on.
pub open spec fn schema_wf(s: Schema) -> bool {
    forall|i: int, j: int, k: int|
        0 <= i < s.records@.len() && 0 <= j < s.records@[i].fields@.len() && 0 <= k
            < s.records@[i].fields@[j].checks@.len() ==> check_ok(
            #[trigger] s.records@[i].fields@[j].checks@[k].model(),
        )
}

/// The view of an optional string.
pub open spec fn opt_view(d: Option<String>) -> Option<Seq<char>> {
    match d {
        Some(s) => Some(s@),
        None => None,
    }
}

/// Two shapes that agree structurally compile every rule and default alike.
proof fn lemma_same_shape_outcomes(a: FieldShape, b: FieldShape)
    requires
        same_shape(a, b),
    ensures
        tag_of(unwrapped(a)) == tag_of(unwrapped(b)),
        (a is Optional) == (b is Optional),
        forall|reg: Registry, r: ValidationRule| rule_outcome(reg, a, r) == rule_outcome(reg, b, r),
        forall|d: Option<Seq<char>>| default_outcome(a, d) == default_outcome(b, d),
        forall|reg: Registry, rs: Seq<ValidationRule>, n: int|
            checks_outcome(reg, a, rs, n) == checks_outcome(reg, b, rs, n),
{
    reveal_with_fuel(same_shape, 2);
    assert(tag_of(unwrapped(a)) == tag_of(unwrapped(b)));
    assert forall|d: Option<Seq<char>>| default_outcome(a, d) == default_outcome(b, d) by {}
    assert forall|reg: Registry, r: ValidationRule| rule_outcome(reg, a, r) == rule_outcome(
        reg,
        b,
        r,
    ) by {
        let op = r.operator@;
        if let Some(info) = lookup_spec(reg, op) {
            assert(accepts(info, a) == accepts(info, b));
        }
    }
    assert forall|reg: Registry, rs: Seq<ValidationRule>, n: int|
        checks_outcome(reg, a, rs, n) == checks_outcome(reg, b, rs, n) by {
        lemma_checks_outcome_same(reg, a, b, rs, n);
    }
}

proof fn lemma_checks_outcome_same(
    reg: Registry,
    a: FieldShape,
    b: FieldShape,
    rs: Seq<ValidationRule>,
    n: int,
)
    requires
        forall|reg: Registry, r: ValidationRule| rule_outcome(reg, a, r) == rule_outcome(reg, b, r),
    ensures
        checks_outcome(reg, a, rs, n) == checks_outcome(reg, b, rs, n),
    decreases n,
{
    if n > 0 {
        lemma_checks_outcome_same(reg, a, b, rs, n - 1);
    }
}

fn comparison(op: &str) -> (r: Option<Comparison>)
    ensures
        r == comparison_of(op@),
{
    if str_eq(op, "ge") {
        Some(Comparison::Ge)
    } else if str_eq(op, "gt") {
        Some(Comparison::Gt)
    } else if str_eq(op, "le") {
        Some(Comparison::Le)
    } else if str_eq(op, "lt") {
        Some(Comparison::Lt)
    } else {
        None
    }
}

fn bound(op: &str) -> (r: Option<Bound>)
    ensures
        r == bound_of(op@),
{
    if str_eq(op, "minLength") || str_eq(op, "minItems") {
        Some(Bound::Min)
    } else if str_eq(op, "maxLength") || str_eq(op, "maxItems") {
        Some(Bound::Max)
    } else {
        None
    }
}

/// Compiles one rule for a field of the given shape (see `rule_outcome`).
pub fn compile_rule(reg: &Registry, shape: &FieldShape, rule: &ValidationRule) -> (r: Result<
    Check,
    SchemaErrorKind,
>)
    ensures
        match rule_outcome(*reg, *shape, *rule) {
            Ok(c) => r matches Ok(x) && x.model() == c,
            Err(k) => r matches Err(e) && e == k,
        },
{
    let op = rule.operator.as_str();
    let info = match reg.lookup(op) {
        None => {
            return Err(SchemaErrorKind::UnknownRule);
        },
        Some(i) => i,
    };
    if !info.accepts_shape(shape) {
        return Err(SchemaErrorKind::UnsupportedRule);
    }
    match info.handler {
        Handler::Required => Ok(Check::Required),
        Handler::Numeric => {
            let cmp = comparison(op);
            let is_mo = str_eq(op, "mo");
            if cmp.is_none() && !is_mo {
                return Err(SchemaErrorKind::UnknownRule);
            }
            let v = match &rule.value {
                None => {
                    return Err(SchemaErrorKind::MissingOperand);
                },
                Some(v) => v,
            };
            let tag = match shape {
                FieldShape::Optional(inner) => crate::rules::type_tag(inner),
                _ => crate::rules::type_tag(shape),
            };
            match tag {
                TypeTag::Int(k) => match parse_int_for_kind(v.as_str(), k) {
                    None => Err(SchemaErrorKind::InvalidOperand),
                    Some(x) => {
                        if is_mo {
                            if x == 0 {
                                Err(SchemaErrorKind::ZeroModulus)
                            } else {
                                Ok(Check::MultipleOf { divisor: x, text: v.clone() })
                            }
                        } else {
                            match cmp {
                                Some(c) => Ok(Check::Compare { op: c, threshold: x, text: v.clone() }),
                                None => Err(SchemaErrorKind::UnknownRule),
                            }
                        }
                    },
                },
                TypeTag::Float => Err(SchemaErrorKind::FloatOperand),
                _ => Err(SchemaErrorKind::UnsupportedRule),
            }
        },
        Handler::Length => {
            let b = match bound(op) {
                None => {
                    return Err(SchemaErrorKind::UnknownRule);
                },
                Some(b) => b,
            };
            match &rule.value {
                None => Err(SchemaErrorKind::MissingOperand),
                Some(v) => match parse_int_for_kind(v.as_str(), IntKind::U64) {
                    None => Err(SchemaErrorKind::InvalidOperand),
                    Some(x) => Ok(Check::Length { bound: b, limit: x, text: v.clone() }),
                },
            }
        },
        Handler::Pattern => match &rule.value {
            None => Err(SchemaErrorKind::MissingOperand),
            Some(v) => {
                let empty = String::new();
                if regex_search(v.as_str(), empty.as_str()).is_some() {
                    Ok(Check::Pattern { regex: v.clone() })
                } else {
                    Err(SchemaErrorKind::InvalidPattern)
                }
            },
        },
        Handler::Custom => match &rule.value {
            None => Err(SchemaErrorKind::MissingOperand),
            Some(v) => Ok(Check::Custom { function: v.clone() }),
        },
    }
}

/// The first rule whose operator an earlier rule already has.
fn find_repeat(rules: &Vec<ValidationRule>) -> (r: Option<usize>)
    ensures
        r matches Some(j) ==> first_repeat(rules@, j as int),
        r is None ==> !exists|j: int| first_repeat(rules@, j),
{
    let n = rules.len();
    let mut j: usize = 0;
    while j < n
        invariant
            n == rules@.len(),
            0 <= j <= n,
            forall|k: int, i: int|
                0 <= i < k < j ==> rules@[i].operator@ != rules@[k].operator@,
        decreases n - j,
    {
        let mut i: usize = 0;
        while i < j
            invariant
                n == rules@.len(),
                0 <= i <= j < n,
                forall|k: int, i2: int|
                    0 <= i2 < k < j ==> rules@[i2].operator@ != rules@[k].operator@,
                forall|i2: int| 0 <= i2 < i ==> rules@[i2].operator@ != rules@[j as int].operator@,
            decreases j - i,
        {
            if str_eq(rules[i].operator.as_str(), rules[j].operator.as_str()) {
                assert(first_repeat(rules@, j as int));
                return Some(j);
            }
            i += 1;
        }
        j += 1;
    }
    proof {
        assert forall|j2: int| !first_repeat(rules@, j2) by {
            if 0 <= j2 < n && exists|i: int| 0 <= i < j2 && rules@[i].operator@ == rules@[j2].operator@ {
                let i = choose|i: int| 0 <= i < j2 && rules@[i].operator@ == rules@[j2].operator@;
                assert(rules@[i].operator@ != rules@[j2].operator@);
            }
        }
    }
    None
}

/// Compiles the rules of a field (see `rules_outcome`).
pub fn compile_rules(reg: &Registry, shape: &FieldShape, rules: &Vec<ValidationRule>) -> (r: Result<
    Vec<Check>,
    (SchemaErrorKind, String),
>)
    ensures
        match rules_outcome(*reg, *shape, rules@) {
            Ok(cs) => r matches Ok(x) && x@.len() == cs.len() && forall|k: int|
                0 <= k < cs.len() ==> #[trigger] x@[k].model() == cs[k],
            Err(e) => r matches Err(x) && x.0 == e.0 && x.1@ == e.1,
        },
{
    match find_repeat(rules) {
        Some(j) => {
            proof {
                let c = choose|j2: int| first_repeat(rules@, j2);
                assert(c == j as int) by {
                    if c < j as int {
                        let i = choose|i: int| 0 <= i < c && rules@[i].operator@ == rules@[c].operator@;
                        assert(rules@[i].operator@ != rules@[c].operator@);
                    } else if c > j as int {
                        let i = choose|i: int|
                            0 <= i < j as int && rules@[i].operator@ == rules@[j as int].operator@;
                        assert(rules@[i].operator@ != rules@[j as int].operator@);
                    }
                }
            }
            return Err((SchemaErrorKind::DuplicateRule, rules[j].operator.clone()));
        },
        None => {},
    }
    let n = rules.len();
    let mut checks: Vec<Check> = Vec::new();
    let mut i: usize = 0;
    while i < n
        invariant
            n == rules@.len(),
            0 <= i <= n,
            !exists|j: int| first_repeat(rules@, j),
            checks_outcome(*reg, *shape, rules@, i as int) matches Ok(cs) && checks@.len() == cs.len()
                && forall|k: int| 0 <= k < cs.len() ==> #[trigger] checks@[k].model() == cs[k],
        decreases n - i,
    {
        match compile_rule(reg, shape, &rules[i]) {
            Ok(c) => {
                checks.push(c);
                proof {
                    let cs = checks_outcome(*reg, *shape, rules@, i as int)->Ok_0;
                    let c2 = rule_outcome(*reg, *shape, rules@[i as int])->Ok_0;
                    assert(checks_outcome(*reg, *shape, rules@, i as int + 1) == Ok::<
                        Seq<CheckSpec>,
                        (SchemaErrorKind, Seq<char>),
                    >(cs.push(c2)));
                    assert forall|k: int| 0 <= k < cs.len() + 1 implies #[trigger] checks@[k].model()
                        == cs.push(c2)[k] by {}
                }
            },
            Err(k) => {
                assert(checks_outcome(*reg, *shape, rules@, i as int + 1) == Err::<
                    Seq<CheckSpec>,
                    (SchemaErrorKind, Seq<char>),
                >((k, rules@[i as int].operator@)));
                proof {
                    lemma_checks_outcome_err_stays(*reg, *shape, rules@, i as int + 1, n as int);
                }
                return Err((k, rules[i].operator.clone()));
            },
        }
        i += 1;
    }
    Ok(checks)
}

proof fn lemma_checks_outcome_err_stays(
    reg: Registry,
    shape: FieldShape,
    rules: Seq<ValidationRule>,
    i: int,
    n: int,
)
    requires
        0 <= i <= n,
        checks_outcome(reg, shape, rules, i) is Err,
    ensures
        checks_outcome(reg, shape, rules, n) == checks_outcome(reg, shape, rules, i),
    decreases n - i,
{
    if i < n {
        lemma_checks_outcome_err_stays(reg, shape, rules, i, n - 1);
    }
}

/// Compiles the default of a field (see `default_outcome`).
pub fn compile_default(shape: &FieldShape, d: &Option<String>) -> (r: Result<
    DefaultAction,
    SchemaErrorKind,
>)
    ensures
        match default_outcome(*shape, opt_view(*d)) {
            Ok(a) => r matches Ok(x) && x.model() == a,
            Err(k) => r matches Err(e) && e == k,
        },
{
    let t = match d {
        None => {
            return Ok(DefaultAction::Recurse);
        },
        Some(t) => t,
    };
    let inner = match shape {
        FieldShape::Optional(inner) => inner,
        _ => {
            return Ok(DefaultAction::Recurse);
        },
    };
    match &**inner {
        FieldShape::Scalar(ScalarKind::Int(k)) => match parse_int_for_kind(t.as_str(), *k) {
            Some(x) => Ok(DefaultAction::Fill(Literal::Int(x))),
            None => Err(SchemaErrorKind::InvalidDefault),
        },
        FieldShape::Scalar(ScalarKind::Float) => Err(SchemaErrorKind::FloatOperand),
        FieldShape::Scalar(ScalarKind::Bool) => {
            if str_eq(t.as_str(), "true") {
                Ok(DefaultAction::Fill(Literal::Bool(true)))
            } else if str_eq(t.as_str(), "false") {
                Ok(DefaultAction::Fill(Literal::Bool(false)))
            } else {
                Err(SchemaErrorKind::InvalidDefault)
            }
        },
        FieldShape::Scalar(ScalarKind::Text) => Ok(DefaultAction::Fill(Literal::Text(t.clone()))),
        FieldShape::Nested(_) => {
            proof {
                reveal_strlit("enum=");
            }
            let n = t.unicode_len();
            if n > 5 && starts_with(t.as_str(), "enum=") {
                let v = t.as_str().substring_char(5, n);
                assert(v@ =~= t@.skip(5));
                Ok(DefaultAction::Fill(Literal::Variant(v.to_owned())))
            } else if str_eq(t.as_str(), "none") {
                Ok(DefaultAction::Keep)
            } else {
                Err(SchemaErrorKind::InvalidDefault)
            }
        },
        _ => {
            if str_eq(t.as_str(), "none") {
                Ok(DefaultAction::Keep)
            } else {
                Err(SchemaErrorKind::InvalidDefault)
            }
        },
    }
}

proof fn lemma_checks_ok(reg: Registry, shape: FieldShape, rules: Seq<ValidationRule>, n: int)
    requires
        checks_outcome(reg, shape, rules, n) is Ok,
    ensures
        forall|k: int|
            0 <= k < checks_outcome(reg, shape, rules, n)->Ok_0.len() ==> check_ok(
                #[trigger] checks_outcome(reg, shape, rules, n)->Ok_0[k],
            ),
    decreases n,
{
    if n > 0 {
        lemma_checks_ok(reg, shape, rules, n - 1);
    }
}

/// Compiles one declared field (see `field_error` and `compiled_from`).
pub fn compile_field(reg: &Registry, d: &FieldDecl) -> (r: Result<
    CompiledField,
    (SchemaErrorKind, String),
>)
    ensures
        match field_error(*reg, *d) {
            None => r matches Ok(c) && compiled_from(*reg, *d, c) && forall|k: int|
                0 <= k < c.checks@.len() ==> check_ok(#[trigger] c.checks@[k].model()),
            Some(e) => r matches Err(x) && x.0 == e.0 && x.1@ == e.1,
        },
{
    let shape = infer_shape(&d.ty);
    proof {
        lemma_same_shape_outcomes(shape, shape_of(d.ty));
        assert(rules_outcome(*reg, shape, d.rules@) == rules_outcome(*reg, shape_of(d.ty), d.rules@));
        assert(opt_view(d.default) == default_text(*d));
    }
    let checks = match compile_rules(reg, &shape, &d.rules) {
        Err(e) => {
            return Err(e);
        },
        Ok(c) => c,
    };
    let default = match compile_default(&shape, &d.default) {
        Err(k) => {
            return Err((k, String::new()));
        },
        Ok(a) => a,
    };
    let skip = str_eq(d.name.as_str(), "metadata");
    proof {
        reveal_strlit("metadata");
        let rs = d.rules@;
        if !exists|j: int| first_repeat(rs, j) {
            lemma_checks_ok(*reg, shape_of(d.ty), rs, rs.len() as int);
        }
    }
    let c = CompiledField { name: d.name.clone(), shape, default, checks, skip };
    assert(compiled_from(*reg, *d, c));
    Ok(c)
}

/// Compiles one declared record: its first field in error, or all fields.
fn compile_record(reg: &Registry, d: &RecordDecl) -> (r: Result<CompiledRecord, SchemaError>)
    ensures
        r is Ok == !record_bad(*reg, *d),
        r matches Ok(c) ==> record_from(*reg, *d, c) && forall|j: int, k: int|
            0 <= j < c.fields@.len() && 0 <= k < c.fields@[j].checks@.len() ==> check_ok(
                #[trigger] c.fields@[j].checks@[k].model(),
            ),
        r matches Err(e) ==> exists|j: int|
            first_bad_field(*reg, d.fields@, j) && e.kind == field_error_kind(*reg, d.fields@[j])
                && e.operator@ == field_error_operator(*reg, d.fields@[j]) && e.field@
                == d.fields@[j].name@ && e.record@ == d.name@,
{
    let n = d.fields.len();
    let mut fields: Vec<CompiledField> = Vec::new();
    let mut j: usize = 0;
    while j < n
        invariant
            n == d.fields@.len(),
            0 <= j <= n,
            fields@.len() == j,
            forall|k: int| 0 <= k < j ==> field_error(*reg, #[trigger] d.fields@[k]) is None,
            forall|k: int|
                0 <= k < j ==> compiled_from(*reg, d.fields@[k], #[trigger] fields@[k]),
            forall|k: int, m: int|
                0 <= k < j && 0 <= m < fields@[k].checks@.len() ==> check_ok(
                    #[trigger] fields@[k].checks@[m].model(),
                ),
        decreases n - j,
    {
        match compile_field(reg, &d.fields[j]) {
            Ok(c) => {
                fields.push(c);
            },
            Err((kind, operator)) => {
                assert(first_bad_field(*reg, d.fields@, j as int));
                return Err(
                    SchemaError {
                        kind,
                        record: d.name.clone(),
                        field: d.fields[j].name.clone(),
                        operator,
                    },
                );
            },
        }
        j += 1;
    }
    proof {
        assert forall|k: int| !first_bad_field(*reg, d.fields@, k) by {}
    }
    Ok(CompiledRecord { name: d.name.clone(), fields })
}

impl Schema {
    /// Compiles record declarations against a registry. Succeeds exactly when
    /// every field of every record compiles; otherwise reports the first field
    /// in error, in declaration order, with its first error.
    pub fn compile(decls: &Vec<RecordDecl>, reg: &Registry) -> (r: Result<Schema, SchemaError>)
        ensures
            r is Ok == decls_ok(*reg, decls@),
            r matches Ok(s) ==> schema_from(*reg, decls@, s) && schema_wf(s),
            r matches Err(e) ==> exists|i: int, j: int|
                first_bad_record(*reg, decls@, i) && first_bad_field(*reg, decls@[i].fields@, j)
                    && e.kind == field_error_kind(*reg, decls@[i].fields@[j]) && e.operator@
                    == field_error_operator(*reg, decls@[i].fields@[j]) && e.field@
                    == decls@[i].fields@[j].name@ && e.record@ == decls@[i].name@,
    {
        let n = decls.len();
        let mut records: Vec<CompiledRecord> = Vec::new();
        let mut i: usize = 0;
        while i < n
            invariant
                n == decls@.len(),
                0 <= i <= n,
                records@.len() == i,
                forall|k: int| 0 <= k < i ==> !record_bad(*reg, #[trigger] decls@[k]),
                forall|k: int| 0 <= k < i ==> record_from(*reg, decls@[k], #[trigger] records@[k]),
                forall|k: int, j: int, m: int|
                    0 <= k < i && 0 <= j < records@[k].fields@.len() && 0 <= m
                        < records@[k].fields@[j].checks@.len() ==> check_ok(
                        #[trigger] records@[k].fields@[j].checks@[m].model(),
                    ),
            decreases n - i,
        {
            match compile_record(reg, &decls[i]) {
                Ok(c) => {
                    records.push(c);
                },
                Err(e) => {
                    proof {
                        assert(first_bad_record(*reg, decls@, i as int));
                        let j = choose|j: int|
                            first_bad_field(*reg, decls@[i as int].fields@, j) && e.kind == field_error_kind(*reg, decls@[i as int].fields@[j],
                            ) && e.operator@ == field_error_operator(*reg, decls@[i as int].fields@[j])
                                && e.field@ == decls@[i as int].fields@[j].name@ && e.record@
                                == decls@[i as int].name@;
                        assert(!decls_ok(*reg, decls@)) by {
                            assert(field_error(*reg, decls@[i as int].fields@[j]) is Some);
                        }
                    }
                    return Err(e);
                },
            }
            i += 1;
        }
        proof {
            assert forall|k: int, j: int|
                0 <= k < decls@.len() && 0 <= j < decls@[k].fields@.len() implies field_error(
                *reg,
                #[trigger] decls@[k].fields@[j],
            ) is None by {
                if field_error(*reg, decls@[k].fields@[j]) is Some {
                    lemma_first_bad_exists(*reg, decls@[k].fields@, j);
                }
            }
        }
        Ok(Schema { records })
    }
}

proof fn lemma_first_bad_exists(reg: Registry, fields: Seq<FieldDecl>, j: int)
    requires
        0 <= j < fields.len(),
        field_error(reg, fields[j]) is Some,
    ensures
        exists|k: int| first_bad_field(reg, fields, k),
    decreases j,
{
    if forall|k: int| 0 <= k < j ==> field_error(reg, fields[k]) is None {
        assert(first_bad_field(reg, fields, j));
    } else {
        let k = choose|k: int| 0 <= k < j && field_error(reg, fields[k]) is Some;
        lemma_first_bad_exists(reg, fields, k);
    }
}

/// `i` is the first compiled record named `ty`.
pub open spec fn first_record(s: Schema, ty: Seq<char>, i: int) -> bool {
    &&& 0 <= i < s.records@.len()
    &&& s.records@[i].name@ == ty
    &&& forall|j: int| 0 <= j < i ==> s.records@[j].name@ != ty
}

/// The compiled record type named `ty`: the first one of that name.
pub open spec fn record_of(s: Schema, ty: Seq<char>) -> Option<CompiledRecord> {
    if exists|i: int| first_record(s, ty, i) {
        Some(s.records@[choose|i: int| first_record(s, ty, i)])
    } else {
        None
    }
}

impl Schema {
    /// The compiled record type of a name (see `record_of`).
    pub fn find_record(&self, ty: &str) -> (r: Option<&CompiledRecord>)
        ensures
            r is Some == record_of(*self, ty@) is Some,
            r matches Some(x) ==> *x == record_of(*self, ty@)->0,
    {
        let n = self.records.len();
        let mut i: usize = 0;
        while i < n
            invariant
                n == self.records@.len(),
                0 <= i <= n,
                forall|j: int| 0 <= j < i ==> self.records@[j].name@ != ty@,
            decreases n - i,
        {
            if str_eq(self.records[i].name.as_str(), ty) {
                proof {
                    assert(first_record(*self, ty@, i as int));
                    let k = choose|k: int| first_record(*self, ty@, k);
                    assert(k == i as int) by {
                        if k < i as int {
                            assert(self.records@[k].name@ != ty@);
                        } else if k > i as int {
                            assert(self.records@[i as int].name@ != ty@);
                        }
                    }
                }
                return Some(&self.records[i]);
            }
            i += 1;
        }
        assert(!exists|k: int| first_record(*self, ty@, k));
        None
    }
}

} // verus!
