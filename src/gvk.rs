//! Group/Version/Kind addressing of resources and the plain identity records
//! that carry it.
use vstd::prelude::*;
use crate::text::{concat2, concat3, split_once, split_once_char};

verus! {

/// The apiVersion string of a group and a version: `group/version`, or the
/// version alone when the group is empty.
pub open spec fn api_version_of(group: Seq<char>, version: Seq<char>) -> Seq<char> {
    if group.len() == 0 {
        version
    } else {
        group + seq!['/'] + version
    }
}

/// Group and version read back from an apiVersion string: split at the first
/// `/`, or an empty group and the whole string when it holds none.
pub open spec fn group_version_of(api_version: Seq<char>) -> (Seq<char>, Seq<char>) {
    match split_once(api_version, '/') {
        Some(p) => p,
        None => (Seq::empty(), api_version),
    }
}

/// Reading back what `api_version_of` wrote gives the group and version again
/// whenever the group is not empty and holds no `/`. An empty group comes back
/// empty only while the version holds no `/`: the empty group is not written
/// out, so that information is not kept.
pub proof fn lemma_api_version_round_trip(group: Seq<char>, version: Seq<char>)
    requires
        forall|i: int| 0 <= i < group.len() ==> group[i] != '/',
        group.len() == 0 ==> forall|i: int| 0 <= i < version.len() ==> version[i] != '/',
    ensures
        group_version_of(api_version_of(group, version)) == (group, version),
{
    let s = api_version_of(group, version);
    if group.len() == 0 {
        assert(!exists|i: int| crate::text::first_at(s, '/', i));
    } else {
        let n = group.len() as int;
        assert(crate::text::first_at(s, '/', n));
        let k = choose|k: int| crate::text::first_at(s, '/', k);
        assert(k == n) by {
            if k < n {
                assert(s[k] == group[k]);
            } else if k > n {
                assert(s[n] != '/');
            }
        }
        assert(s.take(n) =~= group);
        assert(s.skip(n + 1) =~= version);
    }
}

/// Builds the apiVersion string from a group and a version.
pub fn api_version_from_group_version(group: &str, version: &str) -> (r: String)
    ensures
        r@ == api_version_of(group@, version@),
{
    if group.unicode_len() == 0 {
        return version.to_owned();
    }
    let r = concat3(group, "/", version);
    proof {
        reveal_strlit("/");
    }
    r
}

/// Reads group and version back from an apiVersion string (see
/// `group_version_of`).
pub fn split_api_version(api_version: &str) -> (r: (String, String))
    ensures
        (r.0@, r.1@) == group_version_of(api_version@),
{
    match split_once_char(api_version, '/') {
        Some((g, v)) => (g.to_owned(), v.to_owned()),
        None => {
            let e = String::new();
            (e, api_version.to_owned())
        },
    }
}

/// A group version string that does not have the form `group/version`.
#[derive(Debug)]
pub struct ParseGroupVersionError(pub String);

impl ParseGroupVersionError {
    /// The error as text.
    pub fn message(&self) -> (r: String)
        ensures
            r@ == "failed to parse group version: "@ + self.0@,
    {
        concat2("failed to parse group version: ", self.0.as_str())
    }
}

/// Type information carried by every object.
#[derive(Clone, Debug, Default, PartialEq, Eq, Hash)]
pub struct TypeMeta {
    /// The version of the API
    pub api_version: String,
    /// The name of the API
    pub kind: String,
}

/// A reference from one object to the object that owns it.
#[derive(Clone, Debug, Default, PartialEq)]
pub struct OwnerReference {
    pub api_version: String,
    pub kind: String,
    pub name: String,
    pub uid: String,
    pub controller: Option<bool>,
    pub block_owner_deletion: Option<bool>,
}

/// A reference to another object, each part optional.
#[derive(Clone, Debug, Default, PartialEq)]
pub struct ObjectReference {
    /// API version of the referent.
    pub api_version: Option<String>,
    /// Kind of the referent.
    pub kind: Option<String>,
    /// Name of the referent.
    pub name: Option<String>,
    /// UID of the referent.
    pub uid: Option<String>,
}

/// A typed, labelled relation to another object.
#[derive(Clone, Debug, Default, PartialEq)]
pub struct RelationReference {
    pub object_reference: ObjectReference,
    pub type_: Option<String>,
    pub labels: Option<Vec<(String, String)>>,
}

/// Core information about an API Resource.
#[derive(Clone, Debug, PartialEq, Eq, PartialOrd, Ord, Hash)]
pub struct GroupVersionKind {
    /// API group
    pub group: String,
    /// Version
    pub version: String,
    /// Kind
    pub kind: String,
}

impl GroupVersionKind {
    /// Construct from explicit group, version, and kind
    pub fn gvk(group_: &str, version_: &str, kind_: &str) -> (r: Self)
        ensures
            r.group@ == group_@,
            r.version@ == version_@,
            r.kind@ == kind_@,
    {
        let version = version_.to_owned();
        let group = group_.to_owned();
        let kind = kind_.to_owned();
        GroupVersionKind { group, version, kind }
    }

    /// Generate the apiVersion string used in a kind's yaml
    pub fn api_version(&self) -> (r: String)
        ensures
            r@ == api_version_of(self.group@, self.version@),
    {
        api_version_from_group_version(self.group.as_str(), self.version.as_str())
    }

    /// The identity named by a type header, whose apiVersion must read
    /// `group/version`.
    pub fn from_type_meta(tm: &TypeMeta) -> (r: Result<Self, ParseGroupVersionError>)
        ensures
            r is Ok == (split_once(tm.api_version@, '/') is Some),
            r matches Ok(g) ==> (g.group@, g.version@) == split_once(tm.api_version@, '/')->0
                && g.kind@ == tm.kind@,
            r matches Err(e) ==> e.0@ == tm.api_version@,
    {
        match GroupVersion::parse(tm.api_version.as_str()) {
            Ok(gv) => Ok(gv.with_kind(tm.kind.as_str())),
            Err(e) => Err(e),
        }
    }

    /// The identity an owner reference points at.
    pub fn from_owner_reference(value: OwnerReference) -> (r: Self)
        ensures
            (r.group@, r.version@) == group_version_of(value.api_version@),
            r.kind@ == value.kind@,
    {
        let (group, version) = split_api_version(value.api_version.as_str());
        GroupVersionKind { group, version, kind: value.kind }
    }

    /// The identity an object reference points at; a missing part reads as
    /// empty.
    pub fn from_object_reference(value: ObjectReference) -> (r: Self)
        ensures
            (r.group@, r.version@) == group_version_of(
                match value.api_version {
                    Some(a) => a@,
                    None => Seq::empty(),
                },
            ),
            r.kind@ == match value.kind {
                Some(k) => k@,
                None => Seq::<char>::empty(),
            },
    {
        let api_version = match value.api_version {
            Some(a) => a,
            None => String::new(),
        };
        let (group, version) = split_api_version(api_version.as_str());
        let kind = match value.kind {
            Some(k) => k,
            None => String::new(),
        };
        GroupVersionKind { group, version, kind }
    }
}

/// Core information about a family of API Resources
#[derive(Clone, Debug, PartialEq, Eq, PartialOrd, Ord, Hash)]
pub struct GroupVersion {
    /// API group
    pub group: String,
    /// Version
    pub version: String,
}

impl GroupVersion {
    /// Construct from explicit group and version
    pub fn gv(group_: &str, version_: &str) -> (r: Self)
        ensures
            r.group@ == group_@,
            r.version@ == version_@,
    {
        let version = version_.to_owned();
        let group = group_.to_owned();
        GroupVersion { group, version }
    }

    /// Upgrade a GroupVersion to a GroupVersionKind
    pub fn with_kind(self, kind: &str) -> (r: GroupVersionKind)
        ensures
            r.group == self.group,
            r.version == self.version,
            r.kind@ == kind@,
    {
        GroupVersionKind { group: self.group, version: self.version, kind: kind.to_owned() }
    }

    /// Reads `group/version`, split at the first `/`; a string without one
    /// is refused.
    pub fn parse(gv: &str) -> (r: Result<Self, ParseGroupVersionError>)
        ensures
            r is Ok == (split_once(gv@, '/') is Some),
            r matches Ok(g) ==> (g.group@, g.version@) == split_once(gv@, '/')->0,
            r matches Err(e) ==> e.0@ == gv@,
    {
        match split_once_char(gv, '/') {
            Some((g, v)) => Ok(GroupVersion { group: g.to_owned(), version: v.to_owned() }),
            None => Err(ParseGroupVersionError(gv.to_owned())),
        }
    }

    /// Generate the apiVersion string used in a kind's yaml
    pub fn api_version(&self) -> (r: String)
        ensures
            r@ == api_version_of(self.group@, self.version@),
    {
        api_version_from_group_version(self.group.as_str(), self.version.as_str())
    }
}

impl std::str::FromStr for GroupVersion {
    type Err = ParseGroupVersionError;

    fn from_str(gv: &str) -> Result<Self, Self::Err> {
        GroupVersion::parse(gv)
    }
}

/// Represents a type-erased object resource.
#[derive(Clone, Debug, PartialEq, Eq, PartialOrd, Ord, Hash)]
pub struct GroupVersionResource {
    /// API group
    pub group: String,
    /// Version
    pub version: String,
    /// Resource
    pub resource: String,
    /// Concatenation of group and version, as `api_version_of` writes it
    pub api_version: String,
}

impl GroupVersionResource {
    /// Set the api group, version, and the plural resource name.
    pub fn gvr(group_: &str, version_: &str, resource_: &str) -> (r: Self)
        ensures
            r.group@ == group_@,
            r.version@ == version_@,
            r.resource@ == resource_@,
            r.api_version@ == api_version_of(group_@, version_@),
    {
        let version = version_.to_owned();
        let group = group_.to_owned();
        let resource = resource_.to_owned();
        let api_version = api_version_from_group_version(group_, version_);
        GroupVersionResource { group, version, resource, api_version }
    }

    /// The apiVersion string of this resource's group and version.
    pub fn api_version(&self) -> (r: String)
        ensures
            r@ == self.api_version@,
    {
        self.api_version.clone()
    }
}

/// A vowel, for the plural rule on a final `y`.
pub open spec fn is_vowel(c: char) -> bool {
    c == 'a' || c == 'e' || c == 'i' || c == 'o' || c == 'u'
}

/// The plural of a lower-case kind name: `-es` after s, x, z, ch and sh;
/// `-ies` in place of a final `y` that follows a consonant; `-s` otherwise.
pub open spec fn plural_of(w: Seq<char>) -> Seq<char> {
    let n = w.len();
    if n >= 1 && (w[n - 1] == 's' || w[n - 1] == 'x' || w[n - 1] == 'z') {
        w + seq!['e', 's']
    } else if n >= 2 && w[n - 1] == 'h' && (w[n - 2] == 'c' || w[n - 2] == 's') {
        w + seq!['e', 's']
    } else if n >= 2 && w[n - 1] == 'y' && !is_vowel(w[n - 2]) {
        w.drop_last() + seq!['i', 'e', 's']
    } else {
        w + seq!['s']
    }
}

/// Simple pluralizer; irregular plurals must be given explicitly.
pub fn to_plural(word: &str) -> (r: String)
    ensures
        r@ == plural_of(word@),
{
    proof {
        reveal_strlit("es");
        reveal_strlit("ies");
        reveal_strlit("s");
    }
    let n = word.unicode_len();
    if n >= 1 {
        let last = word.get_char(n - 1);
        if last == 's' || last == 'x' || last == 'z' {
            return concat2(word, "es");
        }
        if n >= 2 {
            let prev = word.get_char(n - 2);
            if last == 'h' && (prev == 'c' || prev == 's') {
                return concat2(word, "es");
            }
            if last == 'y' && !(prev == 'a' || prev == 'e' || prev == 'i' || prev == 'o'
                || prev == 'u') {
                let stem = word.substring_char(0, n - 1);
                let r = concat2(stem, "ies");
                assert(stem@ =~= word@.drop_last());
                return r;
            }
        }
    }
    concat2(word, "s")
}

} // verus!
