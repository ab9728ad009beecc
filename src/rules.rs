//! The rule registry: which validation operators exist, which field shapes each
//! accepts, and how their operands are read.
use vstd::prelude::*;
use crate::shape::{FieldShape, IntKind, ScalarKind, int_max, int_min, is_signed};
use crate::text::{split_all, split_char, split_once, split_once_char, str_eq, trim, trim_str};

verus! {

/// One validation rule as declared on a field: an operator with an optional
/// operand (`ge` with `10`, `required` with none).
#[derive(Clone, Debug, PartialEq)]
pub struct ValidationRule {
    pub operator: String,
    pub value: Option<String>,
}

impl ValidationRule {
    /// A rule with an operand.
    pub fn with_value(operator: &str, value: &str) -> (r: ValidationRule)
        ensures
            r.operator@ == operator@,
            r.value matches Some(v) && v@ == value@,
    {
        ValidationRule { operator: operator.to_owned(), value: Some(value.to_owned()) }
    }

    /// A rule without an operand.
    pub fn bare(operator: &str) -> (r: ValidationRule)
        ensures
            r.operator@ == operator@,
            r.value is None,
    {
        ValidationRule { operator: operator.to_owned(), value: None }
    }
}

/// The operator and operand that one piece of a rule list declares: the text
/// before the first `=`, and all the text after it (which may hold further
/// `=`), both without surrounding white space.
pub open spec fn rule_text_of(piece: Seq<char>) -> (Seq<char>, Option<Seq<char>>) {
    match split_once(piece, '=') {
        Some((op, rest)) => (trim(op), Some(trim(rest))),
        None => (trim(piece), None),
    }
}

/// Reads one rule from its text (see `rule_text_of`).
pub fn parse_rule(piece: &str) -> (r: ValidationRule)
    ensures
        (r.operator@, match r.value {
            Some(v) => Some(v@),
            None => None,
        }) == rule_text_of(piece@),
{
    match split_once_char(piece, '=') {
        Some((op, rest)) => ValidationRule {
            operator: trim_str(op).to_owned(),
            value: Some(trim_str(rest).to_owned()),
        },
        None => ValidationRule { operator: trim_str(piece).to_owned(), value: None },
    }
}

/// Reads a comma-separated rule list such as `required, minLength=3`: one
/// rule per piece, in order (see `rule_text_of`). Every `,` separates rules,
/// so a pattern that holds a comma (`a{1,3}`) cannot be written in a list:
/// build that rule with `ValidationRule::with_value`.
pub fn parse_rule_list(text: &str) -> (r: Vec<ValidationRule>)
    ensures
        r@.len() == split_all(text@, ',').len(),
        forall|i: int|
            0 <= i < r@.len() ==> ((#[trigger] r@[i]).operator@, match r@[i].value {
                Some(v) => Some(v@),
                None => None,
            }) == rule_text_of(split_all(text@, ',')[i]),
{
    let pieces = split_char(text, ',');
    let ghost views = pieces@.map_values(|p: &str| p@);
    let n = pieces.len();
    let mut out: Vec<ValidationRule> = Vec::new();
    let mut i: usize = 0;
    while i < n
        invariant
            n == pieces@.len(),
            views == pieces@.map_values(|p: &str| p@),
            views == split_all(text@, ','),
            0 <= i <= n,
            out@.len() == i,
            forall|k: int|
                0 <= k < i ==> ((#[trigger] out@[k]).operator@, match out@[k].value {
                    Some(v) => Some(v@),
                    None => None,
                }) == rule_text_of(views[k]),
        decreases n - i,
    {
        let r = parse_rule(pieces[i]);
        out.push(r);
        i += 1;
    }
    out
}

/// The family of check that a rule performs.
#[derive(Clone, Copy, Debug, PartialEq, Eq, Structural)]
pub enum Handler {
    /// The optional field must be present.
    Required,
    /// `ge`, `gt`, `le`, `lt` and `mo` on numbers.
    Numeric,
    /// `minLength`, `maxLength`, `minItems` and `maxItems`.
    Length,
    /// A regular expression that a string must match.
    Pattern,
    /// A named predicate on the owning record.
    Custom,
}

/// The class of a field's type as the registry tells them apart.
#[derive(Clone, Copy, Debug, PartialEq, Eq, Structural)]
pub enum TypeTag {
    Int(IntKind),
    Float,
    Bool,
    Text,
    Opaque,
    Optional,
    Sequence,
    AssociativeMap,
    Nested,
}

/// The class of a shape.
pub open spec fn tag_of(s: FieldShape) -> TypeTag {
    match s {
        FieldShape::Scalar(ScalarKind::Int(k)) => TypeTag::Int(k),
        FieldShape::Scalar(ScalarKind::Float) => TypeTag::Float,
        FieldShape::Scalar(ScalarKind::Bool) => TypeTag::Bool,
        FieldShape::Scalar(ScalarKind::Text) => TypeTag::Text,
        FieldShape::Scalar(ScalarKind::Opaque) => TypeTag::Opaque,
        FieldShape::Optional(_) => TypeTag::Optional,
        FieldShape::Sequence(_) => TypeTag::Sequence,
        FieldShape::AssociativeMap(_) => TypeTag::AssociativeMap,
        FieldShape::Nested(_) => TypeTag::Nested,
    }
}

pub fn type_tag(s: &FieldShape) -> (r: TypeTag)
    ensures
        r == tag_of(*s),
{
    match s {
        FieldShape::Scalar(ScalarKind::Int(k)) => TypeTag::Int(*k),
        FieldShape::Scalar(ScalarKind::Float) => TypeTag::Float,
        FieldShape::Scalar(ScalarKind::Bool) => TypeTag::Bool,
        FieldShape::Scalar(ScalarKind::Text) => TypeTag::Text,
        FieldShape::Scalar(ScalarKind::Opaque) => TypeTag::Opaque,
        FieldShape::Optional(_) => TypeTag::Optional,
        FieldShape::Sequence(_) => TypeTag::Sequence,
        FieldShape::AssociativeMap(_) => TypeTag::AssociativeMap,
        FieldShape::Nested(_) => TypeTag::Nested,
    }
}

/// A shape with one level of `Optional` taken off, if it has one.
pub open spec fn unwrapped(s: FieldShape) -> FieldShape {
    match s {
        FieldShape::Optional(inner) => *inner,
        _ => s,
    }
}

/// Registry metadata of one operator.
pub struct RuleInfo {
    pub handler: Handler,
    /// Classes of the (unwrapped) field type the rule applies to.
    pub supported_types: Vec<TypeTag>,
    /// The rule applies to optional fields only, whatever they hold.
    pub option_only: bool,
    /// The rule applies to a field of any type.
    pub any_type: bool,
}

/// Whether a rule with this metadata may be attached to a field of this
/// shape. `Optional` is taken off one level before the class is compared.
pub open spec fn accepts(info: RuleInfo, shape: FieldShape) -> bool {
    if info.any_type {
        true
    } else if info.option_only {
        shape is Optional
    } else {
        info.supported_types@.contains(tag_of(unwrapped(shape)))
    }
}

impl RuleInfo {
    /// Whether this rule may be attached to a field of the given shape.
    pub fn accepts_shape(&self, shape: &FieldShape) -> (r: bool)
        ensures
            r == accepts(*self, *shape),
    {
        if self.any_type {
            return true;
        }
        let is_option = match shape {
            FieldShape::Optional(_) => true,
            _ => false,
        };
        if self.option_only {
            return is_option;
        }
        let tag = match shape {
            FieldShape::Optional(inner) => type_tag(inner),
            _ => type_tag(shape),
        };
        let n = self.supported_types.len();
        let mut i: usize = 0;
        while i < n
            invariant
                n == self.supported_types@.len(),
                0 <= i <= n,
                tag == tag_of(unwrapped(*shape)),
                !self.any_type,
                !self.option_only,
                forall|j: int| 0 <= j < i ==> self.supported_types@[j] != tag,
            decreases n - i,
        {
            if self.supported_types[i] == tag {
                assert(self.supported_types@[i as int] == tag);
                return true;
            }
            i += 1;
        }
        false
    }
}

/// A table of operators and their metadata.
pub struct Registry {
    pub entries: Vec<(String, RuleInfo)>,
}

/// `i` is the first entry of the registry for operator `op`.
pub open spec fn first_entry(reg: Registry, op: Seq<char>, i: int) -> bool {
    &&& 0 <= i < reg.entries@.len()
    &&& reg.entries@[i].0@ == op
    &&& forall|j: int| 0 <= j < i ==> reg.entries@[j].0@ != op
}

/// The metadata the registry holds for an operator: its first entry.
pub open spec fn lookup_spec(reg: Registry, op: Seq<char>) -> Option<RuleInfo> {
    if exists|i: int| first_entry(reg, op, i) {
        Some(reg.entries@[choose|i: int| first_entry(reg, op, i)].1)
    } else {
        None
    }
}

/// One row of the standard table: operator, handler, supported classes,
/// option-only, any-type.
pub open spec fn row_is(
    e: (String, RuleInfo),
    op: Seq<char>,
    h: Handler,
    tags: Seq<TypeTag>,
    option_only: bool,
    any_type: bool,
) -> bool {
    &&& e.0@ == op
    &&& e.1.handler == h
    &&& e.1.supported_types@ == tags
    &&& e.1.option_only == option_only
    &&& e.1.any_type == any_type
}

pub open spec fn numeric_tags() -> Seq<TypeTag> {
    seq![
        TypeTag::Int(IntKind::I32),
        TypeTag::Int(IntKind::U32),
        TypeTag::Int(IntKind::I64),
        TypeTag::Int(IntKind::U64),
        TypeTag::Float,
    ]
}

/// No two entries of the registry name the same operator, so each lookup
/// has one answer.
pub open spec fn operators_distinct(reg: Registry) -> bool {
    forall|i: int, j: int|
        0 <= i < j < reg.entries@.len() ==> (#[trigger] reg.entries@[i]).0@ != (
        #[trigger] reg.entries@[j]).0@
}

/// The standard table, row by row.
pub open spec fn is_standard(reg: Registry) -> bool {
    let e = reg.entries@;
    &&& e.len() == 12
    &&& row_is(e[0], "required"@, Handler::Required, seq![], true, false)
    &&& row_is(e[1], "mo"@, Handler::Numeric, numeric_tags(), false, false)
    &&& row_is(e[2], "ge"@, Handler::Numeric, numeric_tags(), false, false)
    &&& row_is(e[3], "gt"@, Handler::Numeric, numeric_tags(), false, false)
    &&& row_is(e[4], "le"@, Handler::Numeric, numeric_tags(), false, false)
    &&& row_is(e[5], "lt"@, Handler::Numeric, numeric_tags(), false, false)
    &&& row_is(e[6], "maxLength"@, Handler::Length, seq![TypeTag::Text], false, false)
    &&& row_is(e[7], "minLength"@, Handler::Length, seq![TypeTag::Text], false, false)
    &&& row_is(e[8], "pattern"@, Handler::Pattern, seq![TypeTag::Text], false, false)
    &&& row_is(
        e[9],
        "maxItems"@,
        Handler::Length,
        seq![TypeTag::Sequence, TypeTag::AssociativeMap],
        false,
        false,
    )
    &&& row_is(
        e[10],
        "minItems"@,
        Handler::Length,
        seq![TypeTag::Sequence, TypeTag::AssociativeMap],
        false,
        false,
    )
    &&& row_is(e[11], "fn"@, Handler::Custom, seq![], false, true)
}

fn numeric_types() -> (r: Vec<TypeTag>)
    ensures
        r@ == numeric_tags(),
{
    let mut v = Vec::new();
    v.push(TypeTag::Int(IntKind::I32));
    v.push(TypeTag::Int(IntKind::U32));
    v.push(TypeTag::Int(IntKind::I64));
    v.push(TypeTag::Int(IntKind::U64));
    v.push(TypeTag::Float);
    assert(v@ =~= numeric_tags());
    v
}

fn info(handler: Handler, supported_types: Vec<TypeTag>, option_only: bool, any_type: bool) -> (r:
    RuleInfo)
    ensures
        r.handler == handler,
        r.supported_types == supported_types,
        r.option_only == option_only,
        r.any_type == any_type,
{
    RuleInfo { handler, supported_types, option_only, any_type }
}

impl Registry {
    /// The registry of all operators this library knows: `required`; `mo`,
    /// `ge`, `gt`, `le`, `lt` on i32, u32, i64, u64 and floats; `maxLength`,
    /// `minLength` and `pattern` on strings; `maxItems` and `minItems` on
    /// sequences and maps; `fn` on any field.
    pub fn standard() -> (r: Registry)
        ensures
            is_standard(r),
            operators_distinct(r),
    {
        let mut e: Vec<(String, RuleInfo)> = Vec::new();
        e.push(("required".to_owned(), info(Handler::Required, Vec::new(), true, false)));
        e.push(("mo".to_owned(), info(Handler::Numeric, numeric_types(), false, false)));
        e.push(("ge".to_owned(), info(Handler::Numeric, numeric_types(), false, false)));
        e.push(("gt".to_owned(), info(Handler::Numeric, numeric_types(), false, false)));
        e.push(("le".to_owned(), info(Handler::Numeric, numeric_types(), false, false)));
        e.push(("lt".to_owned(), info(Handler::Numeric, numeric_types(), false, false)));
        let mut text = Vec::new();
        text.push(TypeTag::Text);
        e.push(("maxLength".to_owned(), info(Handler::Length, text, false, false)));
        let mut text = Vec::new();
        text.push(TypeTag::Text);
        e.push(("minLength".to_owned(), info(Handler::Length, text, false, false)));
        let mut text = Vec::new();
        text.push(TypeTag::Text);
        e.push(("pattern".to_owned(), info(Handler::Pattern, text, false, false)));
        let mut items = Vec::new();
        items.push(TypeTag::Sequence);
        items.push(TypeTag::AssociativeMap);
        e.push(("maxItems".to_owned(), info(Handler::Length, items, false, false)));
        let mut items = Vec::new();
        items.push(TypeTag::Sequence);
        items.push(TypeTag::AssociativeMap);
        e.push(("minItems".to_owned(), info(Handler::Length, items, false, false)));
        e.push(("fn".to_owned(), info(Handler::Custom, Vec::new(), false, true)));
        let r = Registry { entries: e };
        assert(r.entries@[0].1.supported_types@ =~= seq![]);
        assert(r.entries@[6].1.supported_types@ =~= seq![TypeTag::Text]);
        assert(r.entries@[7].1.supported_types@ =~= seq![TypeTag::Text]);
        assert(r.entries@[8].1.supported_types@ =~= seq![TypeTag::Text]);
        assert(r.entries@[9].1.supported_types@ =~= seq![
            TypeTag::Sequence,
            TypeTag::AssociativeMap,
        ]);
        assert(r.entries@[10].1.supported_types@ =~= seq![
            TypeTag::Sequence,
            TypeTag::AssociativeMap,
        ]);
        assert(r.entries@[11].1.supported_types@ =~= seq![]);
        proof {
            reveal_strlit("required");
            reveal_strlit("mo");
            reveal_strlit("ge");
            reveal_strlit("gt");
            reveal_strlit("le");
            reveal_strlit("lt");
            reveal_strlit("maxLength");
            reveal_strlit("minLength");
            reveal_strlit("pattern");
            reveal_strlit("maxItems");
            reveal_strlit("minItems");
            reveal_strlit("fn");
            let names = seq![
                "required"@,
                "mo"@,
                "ge"@,
                "gt"@,
                "le"@,
                "lt"@,
                "maxLength"@,
                "minLength"@,
                "pattern"@,
                "maxItems"@,
                "minItems"@,
                "fn"@,
            ];
            assert forall|i: int, j: int| 0 <= i < j < 12 implies names[i] != names[j] by {
                if names[i].len() == names[j].len() {
                    assert(names[i][0] != names[j][0] || names[i][1] != names[j][1]
                        || names[i][2] != names[j][2]);
                }
            }
            assert forall|i: int| 0 <= i < 12 implies r.entries@[i].0@ == names[i] by {}
        }
        r
    }

    /// The metadata of an operator, if the registry has it.
    pub fn lookup(&self, op: &str) -> (r: Option<&RuleInfo>)
        ensures
            r is Some == lookup_spec(*self, op@) is Some,
            r matches Some(x) ==> *x == lookup_spec(*self, op@)->0,
    {
        let n = self.entries.len();
        let mut i: usize = 0;
        while i < n
            invariant
                n == self.entries@.len(),
                0 <= i <= n,
                forall|j: int| 0 <= j < i ==> self.entries@[j].0@ != op@,
            decreases n - i,
        {
            if str_eq(self.entries[i].0.as_str(), op) {
                proof {
                    assert(first_entry(*self, op@, i as int));
                    let k = choose|k: int| first_entry(*self, op@, k);
                    assert(k == i as int) by {
                        if k < i as int {
                            assert(self.entries@[k].0@ != op@);
                        } else if k > i as int {
                            assert(self.entries@[i as int].0@ != op@);
                        }
                    }
                }
                return Some(&self.entries[i].1);
            }
            i += 1;
        }
        assert(!exists|k: int| first_entry(*self, op@, k));
        None
    }
}

pub open spec fn is_digit(c: char) -> bool {
    '0' <= c && c <= '9'
}

/// A non-empty run of decimal digits.
pub open spec fn all_digits(s: Seq<char>) -> bool {
    s.len() > 0 && forall|i: int| 0 <= i < s.len() ==> is_digit(s[i])
}

/// The number that a run of decimal digits writes.
pub open spec fn digits_value(s: Seq<char>) -> int
    decreases s.len(),
{
    if s.len() == 0 {
        0
    } else {
        digits_value(s.drop_last()) * 10 + (s.last() as int - '0' as int)
    }
}

/// An integer literal: decimal digits after an optional `+`, or after `-`
/// where negative numbers are allowed, as the standard integer parsers read
/// them.
pub open spec fn int_literal(s: Seq<char>, signed: bool) -> Option<int> {
    if s.len() > 0 && s[0] == '+' && all_digits(s.drop_first()) {
        Some(digits_value(s.drop_first()))
    } else if signed && s.len() > 0 && s[0] == '-' && all_digits(s.drop_first()) {
        Some(-digits_value(s.drop_first()))
    } else if all_digits(s) {
        Some(digits_value(s))
    } else {
        None
    }
}

/// The value of an integer literal read into an integer type: none where the
/// text is no literal of that type's sign or the number is out of its range.
pub open spec fn int_for_kind(s: Seq<char>, k: IntKind) -> Option<int> {
    match int_literal(s, is_signed(k)) {
        Some(v) => if int_min(k) <= v && v <= int_max(k) {
            Some(v)
        } else {
            None
        },
        None => None,
    }
}

const DIGITS_LIMIT: i128 = 0x1_0000_0000_0000_0000;

/// Reads a run of decimal digits, as far as `DIGITS_LIMIT`.
fn read_digits(t: &str) -> (r: Option<i128>)
    ensures
        r matches Some(v) ==> all_digits(t@) && v == digits_value(t@) && 0 <= v <= DIGITS_LIMIT,
        r is None ==> !all_digits(t@) || digits_value(t@) > DIGITS_LIMIT,
{
    let n = t.unicode_len();
    if n == 0 {
        return None;
    }
    let mut acc: i128 = 0;
    let mut big = false;
    let mut i: usize = 0;
    assert(t@.take(0) =~= Seq::<char>::empty());
    while i < n
        invariant
            n == t@.len(),
            0 <= i <= n,
            forall|j: int| 0 <= j < i ==> is_digit(t@[j]),
            !big ==> acc == digits_value(t@.take(i as int)) && 0 <= acc <= DIGITS_LIMIT,
            big ==> digits_value(t@.take(i as int)) > DIGITS_LIMIT,
        decreases n - i,
    {
        let c = t.get_char(i);
        if !('0' <= c && c <= '9') {
            assert(!is_digit(t@[i as int]));
            return None;
        }
        let d = (c as u32 - '0' as u32) as i128;
        assert(t@.take(i as int + 1).drop_last() =~= t@.take(i as int));
        proof {
            assert(digits_value(t@.take(i as int + 1)) == digits_value(t@.take(i as int)) * 10 + d);
            assert(digits_value(t@.take(i as int)) >= 0) by {
                lemma_digits_nonneg(t@.take(i as int));
            }
        }
        if !big {
            let next = acc * 10 + d;
            if next > DIGITS_LIMIT {
                big = true;
            } else {
                acc = next;
            }
        }
        i += 1;
    }
    assert(t@.take(n as int) =~= t@);
    if big {
        None
    } else {
        Some(acc)
    }
}

proof fn lemma_digits_nonneg(s: Seq<char>)
    requires
        forall|i: int| 0 <= i < s.len() ==> is_digit(s[i]),
    ensures
        digits_value(s) >= 0,
    decreases s.len(),
{
    if s.len() > 0 {
        lemma_digits_nonneg(s.drop_last());
    }
}

pub(crate) fn kind_min(k: IntKind) -> (r: i128)
    ensures
        r == int_min(k),
{
    match k {
        IntKind::I8 => -0x80,
        IntKind::I16 => -0x8000,
        IntKind::I32 => -0x8000_0000,
        IntKind::I64 => -0x8000_0000_0000_0000,
        _ => 0,
    }
}

pub(crate) fn kind_max(k: IntKind) -> (r: i128)
    ensures
        r == int_max(k),
{
    match k {
        IntKind::I8 => 0x7f,
        IntKind::I16 => 0x7fff,
        IntKind::I32 => 0x7fff_ffff,
        IntKind::I64 => 0x7fff_ffff_ffff_ffff,
        IntKind::U8 => 0xff,
        IntKind::U16 => 0xffff,
        IntKind::U32 => 0xffff_ffff,
        IntKind::U64 => 0xffff_ffff_ffff_ffff,
    }
}

/// Reads an integer literal into an integer type (see `int_for_kind`).
pub fn parse_int_for_kind(s: &str, k: IntKind) -> (r: Option<i128>)
    ensures
        r is Some == int_for_kind(s@, k) is Some,
        r matches Some(v) ==> v == int_for_kind(s@, k)->0,
{
    let signed = match k {
        IntKind::I8 | IntKind::I16 | IntKind::I32 | IntKind::I64 => true,
        _ => false,
    };
    let n = s.unicode_len();
    let (negative, digits) = if n > 0 && s.get_char(0) == '+' {
        (false, s.substring_char(1, n))
    } else if signed && n > 0 && s.get_char(0) == '-' {
        (true, s.substring_char(1, n))
    } else {
        (false, s)
    };
    proof {
        if n > 0 {
            assert(s@.drop_first() =~= s@.subrange(1, n as int));
        }
        if n > 0 && s@[0] == '+' {
            assert(!all_digits(s@));
        }
        if n > 0 && s@[0] == '-' {
            assert(!all_digits(s@));
        }
    }
    match read_digits(digits) {
        Some(v) => {
            let v = if negative {
                -v
            } else {
                v
            };
            if kind_min(k) <= v && v <= kind_max(k) {
                Some(v)
            } else {
                None
            }
        },
        None => None,
    }
}

} // verus!
