use choreo_schema::rules::{parse_rule_list, Handler, Registry, ValidationRule};
use choreo_schema::schema::{FieldDecl, RecordDecl, Schema, SchemaError, SchemaErrorKind};
use choreo_schema::shape::{
    infer_shape, is_boolean, is_float, is_integer, is_nested_type, is_string, FieldShape, IntKind,
    ScalarKind, TypeSig,
};

fn ty(name: &str) -> TypeSig {
    TypeSig::named(name)
}

fn opt(inner: TypeSig) -> TypeSig {
    TypeSig::generic("Option", vec![inner])
}

fn compile_field(t: TypeSig, default: Option<&str>, rules: Vec<ValidationRule>) -> Result<Schema, SchemaError> {
    let decls = vec![RecordDecl {
        name: "R".to_string(),
        fields: vec![FieldDecl {
            name: "x".to_string(),
            ty: t,
            default: default.map(|d| d.to_string()),
            rules,
        }],
    }];
    Schema::compile(&decls, &Registry::standard())
}

fn kind_of(t: TypeSig, default: Option<&str>, rules: Vec<ValidationRule>) -> SchemaErrorKind {
    compile_field(t, default, rules).unwrap_err().kind
}

#[test]
fn duplicate_operator_is_refused() {
    let e = compile_field(
        ty("u32"),
        None,
        vec![ValidationRule::with_value("ge", "1"), ValidationRule::with_value("ge", "2")],
    )
    .unwrap_err();
    assert_eq!(e.kind, SchemaErrorKind::DuplicateRule);
    assert_eq!(e.operator, "ge");
    assert_eq!(e.record, "R");
    assert_eq!(e.field, "x");
}

#[test]
fn unknown_operator_is_refused() {
    assert_eq!(kind_of(ty("u32"), None, vec![ValidationRule::bare("foo")]), SchemaErrorKind::UnknownRule);
}

#[test]
fn incompatible_rules_are_refused() {
    assert_eq!(
        kind_of(ty("u32"), None, vec![ValidationRule::bare("required")]),
        SchemaErrorKind::UnsupportedRule
    );
    assert_eq!(
        kind_of(ty("String"), None, vec![ValidationRule::with_value("maxItems", "1")]),
        SchemaErrorKind::UnsupportedRule
    );
    assert_eq!(
        kind_of(ty("i8"), None, vec![ValidationRule::with_value("ge", "1")]),
        SchemaErrorKind::UnsupportedRule
    );
}

#[test]
fn missing_operand_is_refused() {
    assert_eq!(kind_of(ty("u32"), None, vec![ValidationRule::bare("ge")]), SchemaErrorKind::MissingOperand);
    assert_eq!(
        kind_of(ty("String"), None, vec![ValidationRule::bare("pattern")]),
        SchemaErrorKind::MissingOperand
    );
    assert_eq!(kind_of(ty("u32"), None, vec![ValidationRule::bare("fn")]), SchemaErrorKind::MissingOperand);
}

#[test]
fn operand_must_fit_the_field_type() {
    assert_eq!(
        kind_of(ty("u32"), None, vec![ValidationRule::with_value("ge", "abc")]),
        SchemaErrorKind::InvalidOperand
    );
    assert_eq!(
        kind_of(ty("u32"), None, vec![ValidationRule::with_value("ge", "-1")]),
        SchemaErrorKind::InvalidOperand
    );
    assert_eq!(
        kind_of(ty("u32"), None, vec![ValidationRule::with_value("le", "4294967296")]),
        SchemaErrorKind::InvalidOperand
    );
    assert!(compile_field(ty("u32"), None, vec![ValidationRule::with_value("le", "4294967295")]).is_ok());
    assert!(compile_field(ty("i64"), None, vec![ValidationRule::with_value("ge", "-9223372036854775808")]).is_ok());
    assert!(compile_field(ty("u64"), None, vec![ValidationRule::with_value("ge", "+7")]).is_ok());
}

#[test]
fn zero_modulus_is_refused() {
    assert_eq!(kind_of(ty("u32"), None, vec![ValidationRule::with_value("mo", "0")]), SchemaErrorKind::ZeroModulus);
}

#[test]
fn invalid_pattern_is_refused() {
    assert_eq!(
        kind_of(ty("String"), None, vec![ValidationRule::with_value("pattern", "(")]),
        SchemaErrorKind::InvalidPattern
    );
}

#[test]
fn float_operands_are_refused() {
    assert_eq!(kind_of(ty("f64"), None, vec![ValidationRule::with_value("ge", "1")]), SchemaErrorKind::FloatOperand);
    assert_eq!(kind_of(opt(ty("f32")), Some("1.5"), vec![]), SchemaErrorKind::FloatOperand);
}

#[test]
fn defaults_must_fit_the_field_type() {
    assert_eq!(kind_of(opt(ty("u32")), Some("abc"), vec![]), SchemaErrorKind::InvalidDefault);
    assert_eq!(kind_of(opt(ty("u8")), Some("256"), vec![]), SchemaErrorKind::InvalidDefault);
    assert_eq!(kind_of(opt(ty("bool")), Some("yes"), vec![]), SchemaErrorKind::InvalidDefault);
    assert_eq!(kind_of(opt(ty("Status")), Some("Active"), vec![]), SchemaErrorKind::InvalidDefault);
    assert!(compile_field(opt(ty("Status")), Some("enum=Active"), vec![]).is_ok());
    assert!(compile_field(opt(ty("Status")), Some("none"), vec![]).is_ok());
    assert_eq!(
        kind_of(opt(TypeSig::generic("Vec", vec![ty("Status")])), Some("enum=Active"), vec![]),
        SchemaErrorKind::InvalidDefault
    );
    assert_eq!(kind_of(opt(opt(ty("Status"))), Some("enum=Active"), vec![]), SchemaErrorKind::InvalidDefault);
    assert!(compile_field(opt(opt(ty("Status"))), Some("none"), vec![]).is_ok());
    assert!(compile_field(opt(ty("String")), Some("none"), vec![]).is_ok());
    assert!(compile_field(ty("u32"), Some("abc"), vec![]).is_ok());
}

#[test]
fn first_bad_field_is_reported() {
    let decls = vec![
        RecordDecl {
            name: "A".to_string(),
            fields: vec![FieldDecl { name: "ok".to_string(), ty: ty("u32"), default: None, rules: vec![] }],
        },
        RecordDecl {
            name: "B".to_string(),
            fields: vec![
                FieldDecl { name: "fine".to_string(), ty: ty("u32"), default: None, rules: vec![] },
                FieldDecl {
                    name: "bad".to_string(),
                    ty: ty("u32"),
                    default: None,
                    rules: vec![ValidationRule::bare("nope")],
                },
                FieldDecl {
                    name: "worse".to_string(),
                    ty: ty("u32"),
                    default: None,
                    rules: vec![ValidationRule::bare("required")],
                },
            ],
        },
    ];
    let e = Schema::compile(&decls, &Registry::standard()).unwrap_err();
    assert_eq!(e.record, "B");
    assert_eq!(e.field, "bad");
    assert_eq!(e.operator, "nope");
    assert_eq!(e.kind, SchemaErrorKind::UnknownRule);
}

#[test]
fn registry_lookup() {
    let r = Registry::standard();
    assert_eq!(r.entries.len(), 12);
    assert_eq!(r.lookup("ge").unwrap().handler, Handler::Numeric);
    assert!(r.lookup("required").unwrap().option_only);
    assert!(r.lookup("fn").unwrap().any_type);
    assert_eq!(r.lookup("minItems").unwrap().handler, Handler::Length);
    assert!(r.lookup("unknown").is_none());
}

#[test]
fn shape_inference() {
    let t = opt(TypeSig::generic("Vec", vec![ty("Item")]));
    match infer_shape(&t) {
        FieldShape::Optional(inner) => match *inner {
            FieldShape::Sequence(item) => assert!(matches!(*item, FieldShape::Nested(ref n) if n == "Item")),
            other => panic!("unexpected {:?}", other),
        },
        other => panic!("unexpected {:?}", other),
    }
    let m = TypeSig::generic("BTreeMap", vec![ty("String"), ty("u16")]);
    match infer_shape(&m) {
        FieldShape::AssociativeMap(v) => {
            assert!(matches!(*v, FieldShape::Scalar(ScalarKind::Int(IntKind::U16))))
        }
        other => panic!("unexpected {:?}", other),
    }
    assert!(matches!(infer_shape(&ty("f32")), FieldShape::Scalar(ScalarKind::Float)));
    assert!(matches!(infer_shape(&ty("Vec")), FieldShape::Scalar(ScalarKind::Opaque)));
    assert!(matches!(infer_shape(&ty("DateTime")), FieldShape::Nested(_)));
}

#[test]
fn type_name_predicates() {
    assert!(is_integer("i16"));
    assert!(!is_integer("f32"));
    assert!(is_float("f64"));
    assert!(is_string("String"));
    assert!(!is_string("str"));
    assert!(is_boolean("bool"));
    assert!(is_nested_type("Condition"));
    assert!(!is_nested_type("HashMap"));
    assert!(!is_nested_type("u64"));
}

#[test]
fn rule_list_text() {
    let rules = parse_rule_list("required, minLength=3 , pattern= ^a=b$ ");
    assert_eq!(
        rules,
        vec![
            ValidationRule::bare("required"),
            ValidationRule::with_value("minLength", "3"),
            ValidationRule::with_value("pattern", "^a=b$"),
        ]
    );
    assert_eq!(parse_rule_list("").len(), 1);
    assert_eq!(parse_rule_list("pattern=a{1,3}").len(), 2);
}
