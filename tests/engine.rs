use choreo_schema::defaults::apply_defaults;
use choreo_schema::rules::{Registry, ValidationRule};
use choreo_schema::schema::{FieldDecl, RecordDecl, Schema, SchemaError, SchemaErrorKind};
use choreo_schema::shape::TypeSig;
use choreo_schema::validate::{validate, CustomRules, NoCustomRules};
use choreo_schema::value::Value;

fn ty(name: &str) -> TypeSig {
    TypeSig::named(name)
}

fn opt(inner: TypeSig) -> TypeSig {
    TypeSig::generic("Option", vec![inner])
}

fn vec_of(inner: TypeSig) -> TypeSig {
    TypeSig::generic("Vec", vec![inner])
}

fn field(name: &str, t: TypeSig, default: Option<&str>, rules: Vec<ValidationRule>) -> FieldDecl {
    FieldDecl {
        name: name.to_string(),
        ty: t,
        default: default.map(|d| d.to_string()),
        rules,
    }
}

fn record(name: &str, fields: Vec<FieldDecl>) -> RecordDecl {
    RecordDecl { name: name.to_string(), fields }
}

fn compile(decls: Vec<RecordDecl>) -> Result<Schema, SchemaError> {
    Schema::compile(&decls, &Registry::standard())
}

fn one_field_schema(t: TypeSig, rules: Vec<ValidationRule>) -> Schema {
    compile(vec![record("R", vec![field("x", t, None, rules)])]).unwrap()
}

fn check(schema: &Schema, v: Value) -> Result<(), Vec<String>> {
    validate(schema, "R", &Value::Record(vec![v]), &NoCustomRules)
}

fn text(s: &str) -> Value {
    Value::Text(s.to_string())
}

#[test]
fn ge_rule_on_integer_field() {
    let s = one_field_schema(ty("u32"), vec![ValidationRule::with_value("ge", "10")]);
    assert!(check(&s, Value::Int(10)).is_ok());
    assert!(check(&s, Value::Int(11)).is_ok());
    assert_eq!(
        check(&s, Value::Int(9)),
        Err(vec!["Field 'x' must be >= 10.".to_string()])
    );
}

#[test]
fn ge_rule_on_string_field_is_a_schema_error() {
    let e = compile(vec![record(
        "R",
        vec![field("x", ty("String"), None, vec![ValidationRule::with_value("ge", "10")])],
    )])
    .unwrap_err();
    assert_eq!(e.kind, SchemaErrorKind::UnsupportedRule);
    assert_eq!(e.field, "x");
    assert_eq!(e.operator, "ge");
}

#[test]
fn min_and_max_length() {
    let s = one_field_schema(
        ty("String"),
        vec![
            ValidationRule::with_value("minLength", "3"),
            ValidationRule::with_value("maxLength", "3"),
        ],
    );
    assert!(check(&s, text("abc")).is_ok());
    assert_eq!(
        check(&s, text("ab")),
        Err(vec!["Field 'x' length must be >= 3.".to_string()])
    );
    assert_eq!(
        check(&s, text("abcd")),
        Err(vec!["Field 'x' length must be <= 3.".to_string()])
    );
}

#[test]
fn max_items_on_sequence() {
    let s = one_field_schema(vec_of(ty("u32")), vec![ValidationRule::with_value("maxItems", "1")]);
    assert!(check(&s, Value::List(vec![])).is_ok());
    assert!(check(&s, Value::List(vec![Value::Int(1)])).is_ok());
    assert_eq!(
        check(&s, Value::List(vec![Value::Int(1), Value::Int(2)])),
        Err(vec!["Field 'x' length must be <= 1.".to_string()])
    );
}

#[test]
fn default_then_validate_reports_the_default() {
    let s = compile(vec![record(
        "DummySpec",
        vec![field(
            "val",
            opt(ty("u32")),
            Some("20"),
            vec![ValidationRule::with_value("le", "10")],
        )],
    )])
    .unwrap();
    let mut r = Value::Record(vec![Value::Absent]);
    apply_defaults(&s, "DummySpec", &mut r);
    match &r {
        Value::Record(vals) => match &vals[0] {
            Value::Present(b) => assert!(matches!(**b, Value::Int(20))),
            other => panic!("unexpected {:?}", other),
        },
        other => panic!("unexpected {:?}", other),
    }
    let res = validate(&s, "DummySpec", &r, &NoCustomRules);
    assert_eq!(res, Err(vec!["Field 'val' must be <= 10.".to_string()]));
}

struct NameCheck;

impl CustomRules for NameCheck {
    fn call(&self, _ty: &str, function: &str, record: &Value) -> Result<(), String> {
        if function != "validate_name" {
            return Err(format!("no predicate {}", function));
        }
        if let Value::Record(vals) = record {
            if let Value::Present(b) = &vals[0] {
                if let Value::Text(n) = &**b {
                    if n.len() < 3 {
                        return Err(format!("Name '{}' is too short.", n));
                    }
                }
            }
        }
        Ok(())
    }
}

#[test]
fn custom_predicate_message_names_field_and_rule() {
    let s = compile(vec![record(
        "R",
        vec![field(
            "name",
            opt(ty("String")),
            None,
            vec![ValidationRule::with_value("fn", "validate_name")],
        )],
    )])
    .unwrap();
    let r = Value::Record(vec![Value::Present(Box::new(text("ab")))]);
    assert_eq!(
        validate(&s, "R", &r, &NameCheck),
        Err(vec![
            "Field 'name' failed custom validation 'validate_name': Name 'ab' is too short."
                .to_string()
        ])
    );
}

fn dbg(v: &Value) -> String {
    format!("{:?}", v)
}

fn nested_schema() -> Schema {
    compile(vec![
        record(
            "Parent",
            vec![
                field("metadata", ty("Child"), None, vec![]),
                field("child", ty("Child"), None, vec![]),
                field("maybe", opt(ty("Child")), None, vec![]),
                field("items", vec_of(ty("Child")), None, vec![]),
                field(
                    "by_name",
                    TypeSig::generic("HashMap", vec![ty("String"), ty("Child")]),
                    None,
                    vec![],
                ),
            ],
        ),
        record(
            "Child",
            vec![field(
                "n",
                opt(ty("u32")),
                Some("5"),
                vec![ValidationRule::with_value("le", "3")],
            )],
        ),
    ])
    .unwrap()
}

fn child(v: Value) -> Value {
    Value::Record(vec![v])
}

fn some_int(i: i128) -> Value {
    Value::Present(Box::new(Value::Int(i)))
}

#[test]
fn nested_records_are_defaulted_everywhere_but_metadata() {
    let s = nested_schema();
    let mut r = Value::Record(vec![
        child(Value::Absent),
        child(Value::Absent),
        Value::Present(Box::new(child(Value::Absent))),
        Value::List(vec![child(Value::Absent), child(some_int(1))]),
        Value::Dict(vec![("a".to_string(), child(Value::Absent))]),
    ]);
    apply_defaults(&s, "Parent", &mut r);
    let five = child(some_int(5));
    match &r {
        Value::Record(f) => {
            assert_eq!(dbg(&f[0]), dbg(&child(Value::Absent)));
            assert_eq!(dbg(&f[1]), dbg(&five));
            assert_eq!(dbg(&f[2]), dbg(&Value::Present(Box::new(child(some_int(5))))));
            assert_eq!(dbg(&f[3]), dbg(&Value::List(vec![child(some_int(5)), child(some_int(1))])));
            assert_eq!(dbg(&f[4]), dbg(&Value::Dict(vec![("a".to_string(), child(some_int(5)))])));
        }
        other => panic!("unexpected {:?}", other),
    }
}

#[test]
fn defaulting_twice_equals_once() {
    let s = nested_schema();
    let build = || {
        Value::Record(vec![
            child(Value::Absent),
            child(Value::Absent),
            Value::Absent,
            Value::List(vec![child(Value::Absent)]),
            Value::Dict(vec![]),
        ])
    };
    let mut once = build();
    apply_defaults(&s, "Parent", &mut once);
    let mut twice = build();
    apply_defaults(&s, "Parent", &mut twice);
    apply_defaults(&s, "Parent", &mut twice);
    assert_eq!(dbg(&once), dbg(&twice));
}

#[test]
fn nested_failures_name_the_parent_field() {
    let s = nested_schema();
    let r = Value::Record(vec![
        child(some_int(9)),
        child(some_int(4)),
        Value::Present(Box::new(child(some_int(2)))),
        Value::List(vec![child(some_int(1)), child(some_int(7))]),
        Value::Dict(vec![("a".to_string(), child(some_int(8)))]),
    ]);
    assert_eq!(
        validate(&s, "Parent", &r, &NoCustomRules),
        Err(vec![
            "Field 'child' failed validation 'Field 'n' must be <= 3.'".to_string(),
            "Field 'items' failed validation 'Field 'n' must be <= 3.'".to_string(),
            "Field 'by_name' failed validation 'Field 'n' must be <= 3.'".to_string(),
        ])
    );
}

#[test]
fn validation_does_not_stop_at_the_first_failure() {
    let s = compile(vec![record(
        "R",
        vec![
            field("a", ty("i32"), None, vec![ValidationRule::with_value("gt", "0")]),
            field(
                "b",
                opt(ty("String")),
                None,
                vec![ValidationRule::bare("required"), ValidationRule::with_value("minLength", "2")],
            ),
            field("c", ty("i64"), None, vec![ValidationRule::with_value("lt", "-5")]),
        ],
    )])
    .unwrap();
    let r = Value::Record(vec![Value::Int(0), Value::Absent, Value::Int(-5)]);
    assert_eq!(
        validate(&s, "R", &r, &NoCustomRules),
        Err(vec![
            "Field 'a' must be > 0.".to_string(),
            "Field 'b' is required".to_string(),
            "Field 'c' must be < -5.".to_string(),
        ])
    );
    let r = Value::Record(vec![Value::Int(1), Value::Present(Box::new(text("ok"))), Value::Int(-6)]);
    assert!(validate(&s, "R", &r, &NoCustomRules).is_ok());
}

#[test]
fn validating_twice_gives_the_same_result() {
    let s = nested_schema();
    let r = Value::Record(vec![
        child(some_int(9)),
        child(some_int(9)),
        Value::Absent,
        Value::List(vec![]),
        Value::Dict(vec![]),
    ]);
    let first = validate(&s, "Parent", &r, &NoCustomRules);
    let second = validate(&s, "Parent", &r, &NoCustomRules);
    assert_eq!(first, second);
    assert_eq!(first.unwrap_err().len(), 1);
}

#[test]
fn required_reports_absence_once() {
    let s = compile(vec![record(
        "R",
        vec![field(
            "name",
            opt(ty("String")),
            None,
            vec![ValidationRule::bare("required"), ValidationRule::with_value("maxLength", "2")],
        )],
    )])
    .unwrap();
    assert_eq!(check(&s, Value::Absent), Err(vec!["Field 'name' is required".to_string()]));
    assert!(check(&s, Value::Present(Box::new(text("ab")))).is_ok());
    assert_eq!(
        check(&s, Value::Present(Box::new(text("abc")))),
        Err(vec!["Field 'name' length must be <= 2.".to_string()])
    );
}

#[test]
fn multiple_of() {
    let s = one_field_schema(opt(ty("u32")), vec![ValidationRule::with_value("mo", "20")]);
    assert!(check(&s, some_int(40)).is_ok());
    assert!(check(&s, some_int(0)).is_ok());
    assert!(check(&s, Value::Absent).is_ok());
    assert_eq!(check(&s, some_int(30)), Err(vec!["Field 'x' must be a multiple of 20.".to_string()]));
    let s = one_field_schema(ty("i32"), vec![ValidationRule::with_value("mo", "-3")]);
    assert!(check(&s, Value::Int(-9)).is_ok());
    assert!(check(&s, Value::Int(10)).is_err());
}

#[test]
fn pattern_matches_anywhere() {
    let s = one_field_schema(ty("String"), vec![ValidationRule::with_value("pattern", "^[a-z]+$")]);
    assert!(check(&s, text("abc")).is_ok());
    assert_eq!(
        check(&s, text("Abc")),
        Err(vec!["Field 'x' does not match the required pattern: '^[a-z]+$'.".to_string()])
    );
    let s = one_field_schema(ty("String"), vec![ValidationRule::with_value("pattern", "b")]);
    assert!(check(&s, text("abc")).is_ok());
}

#[test]
fn items_rules_on_maps() {
    let s = one_field_schema(
        TypeSig::generic("BTreeMap", vec![ty("String"), ty("u32")]),
        vec![ValidationRule::with_value("minItems", "2")],
    );
    assert_eq!(
        check(&s, Value::Dict(vec![("a".to_string(), Value::Int(1))])),
        Err(vec!["Field 'x' length must be >= 2.".to_string()])
    );
    assert!(check(
        &s,
        Value::Dict(vec![("a".to_string(), Value::Int(1)), ("b".to_string(), Value::Int(2))])
    )
    .is_ok());
}

#[test]
fn scalar_defaults() {
    let s = compile(vec![record(
        "R",
        vec![
            field("flag", opt(ty("bool")), Some("true"), vec![]),
            field("name", opt(ty("String")), Some("mieke"), vec![]),
            field("state", opt(ty("Status")), Some("enum=Active"), vec![]),
            field("when", opt(ty("DateTime")), Some("none"), vec![]),
            field("count", opt(ty("i16")), Some("-3"), vec![]),
            field("kept", opt(ty("u8")), Some("1"), vec![]),
        ],
    )])
    .unwrap();
    let mut r = Value::Record(vec![
        Value::Absent,
        Value::Absent,
        Value::Absent,
        Value::Absent,
        Value::Absent,
        some_int(7),
    ]);
    apply_defaults(&s, "R", &mut r);
    let want = Value::Record(vec![
        Value::Present(Box::new(Value::Bool(true))),
        Value::Present(Box::new(text("mieke"))),
        Value::Present(Box::new(Value::Variant("Active".to_string()))),
        Value::Absent,
        some_int(-3),
        some_int(7),
    ]);
    assert_eq!(dbg(&r), dbg(&want));
}

#[test]
fn schema_without_defaults_leaves_records_alone() {
    let s = one_field_schema(opt(ty("u32")), vec![]);
    let mut r = Value::Record(vec![Value::Absent]);
    apply_defaults(&s, "R", &mut r);
    assert_eq!(dbg(&r), dbg(&Value::Record(vec![Value::Absent])));
}

#[test]
fn values_of_the_wrong_type_are_reported() {
    let s = one_field_schema(ty("u32"), vec![ValidationRule::with_value("ge", "10")]);
    let msg = Err(vec!["Field 'x' does not hold a value of its type.".to_string()]);
    assert_eq!(check(&s, text("12")), msg);
    assert_eq!(check(&s, Value::Int(-1)), msg);
    assert_eq!(check(&s, Value::Int(4294967296)), msg);
    assert!(check(&s, Value::Int(4294967295)).is_ok());
    let s = one_field_schema(opt(vec_of(ty("u8"))), vec![]);
    assert!(check(&s, Value::Present(Box::new(Value::List(vec![Value::Int(255)])))).is_ok());
    assert_eq!(
        check(&s, Value::Present(Box::new(Value::List(vec![Value::Int(256)])))),
        Err(vec!["Field 'x' does not hold a value of its type.".to_string()])
    );
}

#[test]
fn string_length_counts_utf8_bytes() {
    let s = one_field_schema(ty("String"), vec![ValidationRule::with_value("maxLength", "3")]);
    assert!(check(&s, text("abc")).is_ok());
    assert_eq!(
        check(&s, text("éé")),
        Err(vec!["Field 'x' length must be <= 3.".to_string()])
    );
    assert!(check(&s, text("é")).is_ok());
}

#[test]
fn pattern_with_equals_sign_is_kept_whole() {
    let rules = choreo_schema::rules::parse_rule_list("pattern=^a=b$");
    let s = one_field_schema(ty("String"), rules);
    assert!(check(&s, text("a=b")).is_ok());
    assert!(check(&s, text("abc")).is_err());
}
