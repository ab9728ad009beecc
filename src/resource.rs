//! Resource definitions: the identity a resource type declares, its plural
//! name, and the root record type that holds its metadata, spec and status.
use vstd::prelude::*;
use crate::gvk::{GroupVersionKind, api_version_from_group_version, api_version_of, plural_of, to_plural};
use crate::schema::{FieldDecl, RecordDecl};
use crate::shape::TypeSig;
use crate::text::str_eq;
use crate::value::{Val, Value};

verus! {

/// A character in lower case, for ASCII letters; any other is unchanged.
pub open spec fn ascii_lower_char(c: char) -> char {
    if 'A' <= c && c <= 'Z' {
        ((c as u32) + 32) as char
    } else {
        c
    }
}

/// A string with its ASCII letters in lower case.
pub open spec fn ascii_lower(s: Seq<char>) -> Seq<char> {
    s.map_values(|c: char| ascii_lower_char(c))
}

/// Relies on `str::to_ascii_lowercase`: ASCII letters 'A' to 'Z' become 'a' to
/// 'z', every other character is unchanged.
#[verifier::external_body]
fn to_ascii_lower(s: &str) -> (r: String)
    ensures
        r@ == ascii_lower(s@),
{
    s.to_ascii_lowercase()
}

/// What a resource type declares about itself.
#[derive(Clone, Debug, Default)]
pub struct ResourceAttrs {
    pub group: String,
    pub version: String,
    pub kind: String,
    /// The record type of the status.
    pub status_name: String,
    /// The name of the root record type; the kind when not given.
    pub root: Option<String>,
    /// The lower-case plural of the kind; inferred when not given.
    pub plural: Option<String>,
    /// The singular name; the lower-cased kind when not given.
    pub singular: Option<String>,
    /// Annotations that every new object starts with.
    pub annotations: Vec<(String, String)>,
    /// Labels that every new object starts with.
    pub labels: Vec<(String, String)>,
}

/// A resource type: its identity and the record types it is made of.
#[derive(Clone, Debug)]
pub struct ResourceDef {
    pub group: String,
    pub version: String,
    pub kind: String,
    pub plural: String,
    /// The root record type, with fields `metadata`, `spec` and `status`.
    pub root: String,
    pub spec_type: String,
    pub status_type: String,
    pub annotations: Vec<(String, String)>,
    pub labels: Vec<(String, String)>,
}

/// Why a resource definition is refused.
#[derive(Clone, Copy, Debug, PartialEq, Eq, Structural)]
pub enum ResourceError {
    /// The root record type would have the name of the spec record type.
    RootNameTaken,
}

pub open spec fn opt_or(o: Option<String>, d: Seq<char>) -> Seq<char> {
    match o {
        Some(s) => s@,
        None => d,
    }
}

/// The name of the root record type.
pub open spec fn root_name(a: ResourceAttrs) -> Seq<char> {
    opt_or(a.root, a.kind@)
}

/// The plural name: as declared, or the plural of the singular name, which is
/// the lower-cased kind unless declared.
pub open spec fn plural_name(a: ResourceAttrs) -> Seq<char> {
    opt_or(a.plural, plural_of(opt_or(a.singular, ascii_lower(a.kind@))))
}

fn or_else(o: &Option<String>, d: String) -> (r: String)
    ensures
        r@ == opt_or(*o, d@),
{
    match o {
        Some(s) => s.clone(),
        None => d,
    }
}

impl ResourceDef {
    /// Defines a resource type whose spec is the record type `spec_type`. The
    /// root record type must not take the spec's name.
    pub fn define(spec_type: &str, attrs: ResourceAttrs) -> (r: Result<ResourceDef, ResourceError>)
        ensures
            r is Err == (root_name(attrs) == spec_type@),
            r matches Ok(d) ==> {
                &&& d.group@ == attrs.group@
                &&& d.version@ == attrs.version@
                &&& d.kind@ == attrs.kind@
                &&& d.plural@ == plural_name(attrs)
                &&& d.root@ == root_name(attrs)
                &&& d.spec_type@ == spec_type@
                &&& d.status_type@ == attrs.status_name@
                &&& d.annotations == attrs.annotations
                &&& d.labels == attrs.labels
            },
    {
        let root = or_else(&attrs.root, attrs.kind.clone());
        if str_eq(root.as_str(), spec_type) {
            return Err(ResourceError::RootNameTaken);
        }
        let singular = or_else(&attrs.singular, to_ascii_lower(attrs.kind.as_str()));
        let plural = match &attrs.plural {
            Some(p) => p.clone(),
            None => to_plural(singular.as_str()),
        };
        Ok(
            ResourceDef {
                group: attrs.group,
                version: attrs.version,
                kind: attrs.kind,
                plural,
                root,
                spec_type: spec_type.to_owned(),
                status_type: attrs.status_name,
                annotations: attrs.annotations,
                labels: attrs.labels,
            },
        )
    }

    /// The identity of the resource type.
    pub fn gvk(&self) -> (r: GroupVersionKind)
        ensures
            r.group@ == self.group@,
            r.version@ == self.version@,
            r.kind@ == self.kind@,
    {
        GroupVersionKind::gvk(self.group.as_str(), self.version.as_str(), self.kind.as_str())
    }

    /// The apiVersion of the resource type.
    pub fn api_version(&self) -> (r: String)
        ensures
            r@ == api_version_of(self.group@, self.version@),
    {
        api_version_from_group_version(self.group.as_str(), self.version.as_str())
    }

    /// The declaration of the root record type: `metadata` (an `ObjectMeta`),
    /// `spec`, and an optional `status`, without defaults or rules.
    pub fn root_record(&self) -> (r: RecordDecl)
        ensures
            r.name@ == self.root@,
            r.fields@.len() == 3,
            r.fields@[0].name@ == "metadata"@ && r.fields@[0].ty.name@ == "ObjectMeta"@,
            r.fields@[1].name@ == "spec"@ && r.fields@[1].ty.name@ == self.spec_type@,
            r.fields@[2].name@ == "status"@ && r.fields@[2].ty.name@ == "Option"@
                && r.fields@[2].ty.args@.len() == 1 && r.fields@[2].ty.args@[0].name@
                == self.status_type@,
            forall|i: int|
                0 <= i < 3 ==> (#[trigger] r.fields@[i]).default is None
                    && r.fields@[i].rules@.len() == 0,
    {
        let mut fields: Vec<FieldDecl> = Vec::new();
        fields.push(plain_field("metadata", TypeSig::named("ObjectMeta")));
        fields.push(plain_field("spec", TypeSig::named(self.spec_type.as_str())));
        let mut args = Vec::new();
        args.push(TypeSig::named(self.status_type.as_str()));
        fields.push(plain_field("status", TypeSig::generic("Option", args)));
        RecordDecl { name: self.root.clone(), fields }
    }

    /// A new object of this type: metadata naming it and carrying the
    /// declared annotations and labels (absent when none are declared), the
    /// given spec, and no status.
    pub fn new_object(&self, name: &str, spec: Value) -> (r: Value)
        ensures
            r.model() == Val::Record(
                seq![
                    Val::Record(
                        seq![
                            Val::Present(Box::new(Val::Text(name@))),
                            pairs_model(self.annotations@),
                            pairs_model(self.labels@),
                        ],
                    ),
                    spec.model(),
                    Val::Absent,
                ],
            ),
    {
        let ghost spec_model = spec.model();
        let t = Value::Text(name.to_owned());
        assert(t.model() == Val::Text(name@));
        let n = Value::Present(Box::new(t));
        assert(n.model() == Val::Present(Box::new(Val::Text(name@))));
        let a = pairs_value(&self.annotations);
        let l = pairs_value(&self.labels);
        let mut meta: Vec<Value> = Vec::new();
        meta.push(n);
        meta.push(a);
        meta.push(l);
        let m = Value::Record(meta);
        assert(m.model()->Record_0[0] == Val::Present(Box::new(Val::Text(name@))));
        assert(m.model()->Record_0[1] == pairs_model(self.annotations@));
        let ghost meta_model = Val::Record(
            seq![
                Val::Present(Box::new(Val::Text(name@))),
                pairs_model(self.annotations@),
                pairs_model(self.labels@),
            ],
        );
        assert(m.model()->Record_0 =~= meta_model->Record_0);
        let mut fields: Vec<Value> = Vec::new();
        fields.push(m);
        fields.push(spec);
        fields.push(Value::Absent);
        let r = Value::Record(fields);
        assert(r.model()->Record_0 =~= seq![meta_model, spec_model, Val::Absent]);
        r
    }
}

/// The declaration of the metadata record type that `new_object` fills in:
/// an optional name, annotations and labels.
pub fn object_meta_record() -> (r: RecordDecl)
    ensures
        r.name@ == "ObjectMeta"@,
        r.fields@.len() == 3,
        r.fields@[0].name@ == "name"@,
        r.fields@[1].name@ == "annotations"@,
        r.fields@[2].name@ == "labels"@,
{
    let mut fields: Vec<FieldDecl> = Vec::new();
    let mut a = Vec::new();
    a.push(TypeSig::named("String"));
    fields.push(plain_field("name", TypeSig::generic("Option", a)));
    fields.push(plain_field("annotations", string_map_option()));
    fields.push(plain_field("labels", string_map_option()));
    RecordDecl { name: "ObjectMeta".to_owned(), fields }
}

fn string_map_option() -> (r: TypeSig)
    ensures
        r.name@ == "Option"@,
{
    let mut kv = Vec::new();
    kv.push(TypeSig::named("String"));
    kv.push(TypeSig::named("String"));
    let mut a = Vec::new();
    a.push(TypeSig::generic("BTreeMap", kv));
    TypeSig::generic("Option", a)
}

fn plain_field(name: &str, ty: TypeSig) -> (r: FieldDecl)
    ensures
        r.name@ == name@,
        r.ty == ty,
        r.default is None,
        r.rules@.len() == 0,
{
    FieldDecl { name: name.to_owned(), ty, default: None, rules: Vec::new() }
}

/// Key-value pairs as an optional map of strings: absent when there are none.
pub open spec fn pairs_model(pairs: Seq<(String, String)>) -> Val {
    if pairs.len() == 0 {
        Val::Absent
    } else {
        Val::Present(
            Box::new(
                Val::Dict(
                    Seq::new(pairs.len(), |i: int| (pairs[i].0@, Val::Text(pairs[i].1@))),
                ),
            ),
        )
    }
}

fn pairs_value(pairs: &Vec<(String, String)>) -> (r: Value)
    ensures
        r.model() == pairs_model(pairs@),
{
    let n = pairs.len();
    if n == 0 {
        return Value::Absent;
    }
    let mut es: Vec<(String, Value)> = Vec::new();
    let mut i: usize = 0;
    while i < n
        invariant
            n == pairs@.len(),
            0 <= i <= n,
            es@.len() == i,
            forall|k: int|
                0 <= k < i ==> (#[trigger] es@[k]).0@ == pairs@[k].0@ && es@[k].1.model()
                    == Val::Text(pairs@[k].1@),
        decreases n - i,
    {
        es.push((pairs[i].0.clone(), Value::Text(pairs[i].1.clone())));
        i += 1;
    }
    let d = Value::Dict(es);
    let ghost want = Seq::new(pairs@.len(), |i: int| (pairs@[i].0@, Val::Text(pairs@[i].1@)));
    assert forall|k: int| 0 <= k < n implies d.model()->Dict_0[k] == want[k] by {
        assert(es@[k].0@ == pairs@[k].0@);
    }
    assert(d.model()->Dict_0 =~= want);
    assert(d.model() == Val::Dict(want));
    Value::Present(Box::new(d))
}

} // verus!
