use choreo_schema::gvk::{
    api_version_from_group_version, to_plural, GroupVersion, GroupVersionKind,
    GroupVersionResource, ObjectReference, OwnerReference, TypeMeta,
};
use choreo_schema::resource::{object_meta_record, ResourceAttrs, ResourceDef, ResourceError};
use choreo_schema::value::Value;

#[test]
fn api_version_with_group() {
    let g = GroupVersionKind::gvk("example.com", "v1", "Dummy");
    assert_eq!(g.api_version(), "example.com/v1");
}

#[test]
fn api_version_without_group() {
    let g = GroupVersionKind::gvk("", "v1", "Pod");
    assert_eq!(g.api_version(), "v1");
}

#[test]
fn owner_reference_without_group_reads_back_empty_group() {
    let o = OwnerReference {
        api_version: "v1".to_string(),
        kind: "Pod".to_string(),
        ..Default::default()
    };
    let g = GroupVersionKind::from_owner_reference(o);
    assert_eq!(g.group, "");
    assert_eq!(g.version, "v1");
    assert_eq!(g.kind, "Pod");
}

#[test]
fn owner_reference_round_trip() {
    let g = GroupVersionKind::gvk("example.com", "v1alpha1", "Dummy");
    let o = OwnerReference {
        api_version: g.api_version(),
        kind: g.kind.clone(),
        ..Default::default()
    };
    assert_eq!(GroupVersionKind::from_owner_reference(o), g);
}

#[test]
fn object_reference_splits_at_first_slash() {
    let r = ObjectReference {
        api_version: Some("a/b/c".to_string()),
        kind: None,
        ..Default::default()
    };
    let g = GroupVersionKind::from_object_reference(r);
    assert_eq!(g.group, "a");
    assert_eq!(g.version, "b/c");
    assert_eq!(g.kind, "");
}

#[test]
fn object_reference_missing_parts_are_empty() {
    let g = GroupVersionKind::from_object_reference(ObjectReference::default());
    assert_eq!(g, GroupVersionKind::gvk("", "", ""));
}

#[test]
fn group_version_parse() {
    let gv: GroupVersion = "apps/v1".parse().unwrap();
    assert_eq!(gv, GroupVersion::gv("apps", "v1"));
    assert_eq!(gv.api_version(), "apps/v1");
    let e = GroupVersion::parse("v1").unwrap_err();
    assert_eq!(e.0, "v1");
    assert_eq!(e.message(), "failed to parse group version: v1");
}

#[test]
fn gvk_from_type_meta() {
    let tm = TypeMeta { api_version: "example.com/v1".to_string(), kind: "Dummy".to_string() };
    let g = GroupVersionKind::from_type_meta(&tm).unwrap();
    assert_eq!(g, GroupVersionKind::gvk("example.com", "v1", "Dummy"));
    let tm = TypeMeta { api_version: "v1".to_string(), kind: "Pod".to_string() };
    assert!(GroupVersionKind::from_type_meta(&tm).is_err());
}

#[test]
fn group_version_with_kind() {
    let g = GroupVersion::gv("apps", "v1").with_kind("Deployment");
    assert_eq!(g, GroupVersionKind::gvk("apps", "v1", "Deployment"));
}

#[test]
fn gvr_keeps_api_version() {
    let r = GroupVersionResource::gvr("apps", "v1", "deployments");
    assert_eq!(r.api_version(), "apps/v1");
    assert_eq!(r.resource, "deployments");
    assert_eq!(GroupVersionResource::gvr("", "v1", "pods").api_version(), "v1");
}

#[test]
fn api_version_helper() {
    assert_eq!(api_version_from_group_version("example.com", "v1"), "example.com/v1");
    assert_eq!(api_version_from_group_version("", "v1"), "v1");
}

#[test]
fn plurals() {
    assert_eq!(to_plural("dummy"), "dummies");
    assert_eq!(to_plural("day"), "days");
    assert_eq!(to_plural("fox"), "foxes");
    assert_eq!(to_plural("bus"), "buses");
    assert_eq!(to_plural("match"), "matches");
    assert_eq!(to_plural("wish"), "wishes");
    assert_eq!(to_plural("pod"), "pods");
    assert_eq!(to_plural("y"), "ys");
    assert_eq!(to_plural(""), "s");
}

fn dummy_attrs() -> ResourceAttrs {
    ResourceAttrs {
        group: "example.com".to_string(),
        version: "v1alpha1".to_string(),
        kind: "Dummy".to_string(),
        status_name: "DummyStatus".to_string(),
        ..Default::default()
    }
}

#[test]
fn resource_definition_infers_plural_and_root() {
    let d = ResourceDef::define("DummySpec", dummy_attrs()).unwrap();
    assert_eq!(d.plural, "dummies");
    assert_eq!(d.root, "Dummy");
    assert_eq!(d.api_version(), "example.com/v1alpha1");
    assert_eq!(d.gvk(), GroupVersionKind::gvk("example.com", "v1alpha1", "Dummy"));
    let root = d.root_record();
    assert_eq!(root.name, "Dummy");
    assert_eq!(root.fields[0].name, "metadata");
    assert_eq!(root.fields[1].ty.name, "DummySpec");
    assert_eq!(root.fields[2].ty.args[0].name, "DummyStatus");
}

#[test]
fn resource_definition_refuses_root_named_like_spec() {
    let e = ResourceDef::define("Dummy", dummy_attrs()).unwrap_err();
    assert_eq!(e, ResourceError::RootNameTaken);
}

#[test]
fn resource_definition_explicit_names() {
    let mut a = dummy_attrs();
    a.singular = Some("dummy".to_string());
    a.plural = Some("dummyz".to_string());
    a.root = Some("DummyRoot".to_string());
    let d = ResourceDef::define("Dummy", a).unwrap();
    assert_eq!(d.plural, "dummyz");
    assert_eq!(d.root, "DummyRoot");
}

#[test]
fn new_object_names_itself() {
    let mut a = dummy_attrs();
    a.labels = vec![("app".to_string(), "demo".to_string())];
    let d = ResourceDef::define("DummySpec", a).unwrap();
    let o = d.new_object("wim", Value::Record(vec![Value::Absent]));
    match o {
        Value::Record(f) => {
            assert_eq!(f.len(), 3);
            assert!(matches!(f[2], Value::Absent));
            match &f[0] {
                Value::Record(m) => {
                    match &m[0] {
                        Value::Present(n) => assert!(matches!(&**n, Value::Text(t) if t == "wim")),
                        other => panic!("unexpected {:?}", other),
                    }
                    assert!(matches!(m[1], Value::Absent));
                    assert!(matches!(&m[2], Value::Present(_)));
                }
                other => panic!("unexpected {:?}", other),
            }
        }
        other => panic!("unexpected {:?}", other),
    }
    assert_eq!(object_meta_record().fields.len(), 3);
}
