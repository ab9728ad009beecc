//! Field shapes: the structural class of a declared field type, inferred from
//! its type signature.
use vstd::prelude::*;
use crate::text::str_eq;

verus! {

/// A declared type: a name with its generic arguments, such as
/// `Option<Vec<Item>>`.
#[derive(Debug)]
pub struct TypeSig {
    pub name: String,
    pub args: Vec<TypeSig>,
}

impl TypeSig {
    /// A type without generic arguments.
    pub fn named(name: &str) -> (r: TypeSig)
        ensures
            r.name@ == name@,
            r.args@.len() == 0,
    {
        TypeSig { name: name.to_owned(), args: Vec::new() }
    }

    /// A generic type applied to its arguments.
    pub fn generic(name: &str, args: Vec<TypeSig>) -> (r: TypeSig)
        ensures
            r.name@ == name@,
            r.args == args,
    {
        TypeSig { name: name.to_owned(), args }
    }
}

/// Integer types, by sign and width.
#[derive(Clone, Copy, Debug, PartialEq, Eq, Structural)]
pub enum IntKind {
    I8,
    I16,
    I32,
    I64,
    U8,
    U16,
    U32,
    U64,
}

/// Smallest value of an integer type.
pub open spec fn int_min(k: IntKind) -> int {
    match k {
        IntKind::I8 => -0x80,
        IntKind::I16 => -0x8000,
        IntKind::I32 => -0x8000_0000,
        IntKind::I64 => -0x8000_0000_0000_0000,
        _ => 0,
    }
}

/// Largest value of an integer type.
pub open spec fn int_max(k: IntKind) -> int {
    match k {
        IntKind::I8 => 0x7f,
        IntKind::I16 => 0x7fff,
        IntKind::I32 => 0x7fff_ffff,
        IntKind::I64 => 0x7fff_ffff_ffff_ffff,
        IntKind::U8 => 0xff,
        IntKind::U16 => 0xffff,
        IntKind::U32 => 0xffff_ffff,
        IntKind::U64 => 0xffff_ffff_ffff_ffff,
    }
}

pub open spec fn is_signed(k: IntKind) -> bool {
    k == IntKind::I8 || k == IntKind::I16 || k == IntKind::I32 || k == IntKind::I64
}

/// The kinds of scalar a field can hold.
#[derive(Clone, Copy, Debug, PartialEq, Eq, Structural)]
pub enum ScalarKind {
    Int(IntKind),
    Float,
    Bool,
    Text,
    /// Any other value without structure of its own.
    Opaque,
}

/// The structural class of a field.
#[derive(Debug)]
pub enum FieldShape {
    Scalar(ScalarKind),
    Optional(Box<FieldShape>),
    Sequence(Box<FieldShape>),
    /// An associative map with string keys; only the value shape matters.
    AssociativeMap(Box<FieldShape>),
    /// A record type with defaulting and validation of its own, by name.
    Nested(String),
}

/// The scalar kind that a type name stands for, if it is one of the built-in
/// scalar types.
pub open spec fn scalar_of(name: Seq<char>) -> Option<ScalarKind> {
    if name == "i8"@ {
        Some(ScalarKind::Int(IntKind::I8))
    } else if name == "i16"@ {
        Some(ScalarKind::Int(IntKind::I16))
    } else if name == "i32"@ {
        Some(ScalarKind::Int(IntKind::I32))
    } else if name == "i64"@ {
        Some(ScalarKind::Int(IntKind::I64))
    } else if name == "u8"@ {
        Some(ScalarKind::Int(IntKind::U8))
    } else if name == "u16"@ {
        Some(ScalarKind::Int(IntKind::U16))
    } else if name == "u32"@ {
        Some(ScalarKind::Int(IntKind::U32))
    } else if name == "u64"@ {
        Some(ScalarKind::Int(IntKind::U64))
    } else if name == "f32"@ || name == "f64"@ {
        Some(ScalarKind::Float)
    } else if name == "bool"@ {
        Some(ScalarKind::Bool)
    } else if name == "String"@ {
        Some(ScalarKind::Text)
    } else {
        None
    }
}

/// Names of the generic wrappers that shape inference unwraps.
pub open spec fn is_wrapper_name(name: Seq<char>) -> bool {
    name == "Option"@ || name == "Vec"@ || name == "HashMap"@ || name == "BTreeMap"@
}

/// Whether a type name stands for a record with behaviour of its own: any name
/// that is neither a built-in scalar nor one of the wrappers.
pub open spec fn names_record(name: Seq<char>) -> bool {
    scalar_of(name) is None && !is_wrapper_name(name)
}

/// The shape of a declared type. `Option<T>`, `Vec<T>` and the maps with a key
/// and a value type wrap the shape of their (value) argument; built-in scalar
/// names are scalars; a wrapper without the arguments it needs is opaque; any
/// other name is a nested record.
pub open spec fn shape_of(t: TypeSig) -> FieldShape
    decreases t,
{
    let n = t.name@;
    let a = t.args@;
    if n == "Option"@ {
        if a.len() >= 1 {
            FieldShape::Optional(Box::new(shape_of(a[0])))
        } else {
            FieldShape::Scalar(ScalarKind::Opaque)
        }
    } else if n == "Vec"@ {
        if a.len() >= 1 {
            FieldShape::Sequence(Box::new(shape_of(a[0])))
        } else {
            FieldShape::Scalar(ScalarKind::Opaque)
        }
    } else if n == "HashMap"@ || n == "BTreeMap"@ {
        if a.len() >= 2 {
            FieldShape::AssociativeMap(Box::new(shape_of(a[1])))
        } else {
            FieldShape::Scalar(ScalarKind::Opaque)
        }
    } else {
        match scalar_of(n) {
            Some(k) => FieldShape::Scalar(k),
            None => FieldShape::Nested(t.name),
        }
    }
}

/// Structural equality of shapes, up to the views of record names.
pub open spec fn same_shape(a: FieldShape, b: FieldShape) -> bool
    decreases a,
{
    match (a, b) {
        (FieldShape::Scalar(x), FieldShape::Scalar(y)) => x == y,
        (FieldShape::Optional(x), FieldShape::Optional(y)) => same_shape(*x, *y),
        (FieldShape::Sequence(x), FieldShape::Sequence(y)) => same_shape(*x, *y),
        (FieldShape::AssociativeMap(x), FieldShape::AssociativeMap(y)) => same_shape(*x, *y),
        (FieldShape::Nested(x), FieldShape::Nested(y)) => x@ == y@,
        _ => false,
    }
}

/// Whether a type name is one of the integer types.
pub fn is_integer(typ: &str) -> (r: bool)
    ensures
        r == (scalar_of(typ@) matches Some(ScalarKind::Int(_))),
{
    int_kind_of(typ).is_some()
}

/// Whether a type name is one of the float types.
pub fn is_float(typ: &str) -> (r: bool)
    ensures
        r == (typ@ == "f32"@ || typ@ == "f64"@),
{
    str_eq(typ, "f32") || str_eq(typ, "f64")
}

/// Whether a type name is the string type.
pub fn is_string(typ: &str) -> (r: bool)
    ensures
        r == (typ@ == "String"@),
{
    str_eq(typ, "String")
}

/// Whether a type name is the boolean type.
pub fn is_boolean(typ: &str) -> (r: bool)
    ensures
        r == (typ@ == "bool"@),
{
    str_eq(typ, "bool")
}

fn int_kind_of(typ: &str) -> (r: Option<IntKind>)
    ensures
        r matches Some(k) ==> scalar_of(typ@) == Some(ScalarKind::Int(k)),
        r is None ==> !(scalar_of(typ@) matches Some(ScalarKind::Int(_))),
{
    if str_eq(typ, "i8") {
        Some(IntKind::I8)
    } else if str_eq(typ, "i16") {
        Some(IntKind::I16)
    } else if str_eq(typ, "i32") {
        Some(IntKind::I32)
    } else if str_eq(typ, "i64") {
        Some(IntKind::I64)
    } else if str_eq(typ, "u8") {
        Some(IntKind::U8)
    } else if str_eq(typ, "u16") {
        Some(IntKind::U16)
    } else if str_eq(typ, "u32") {
        Some(IntKind::U32)
    } else if str_eq(typ, "u64") {
        Some(IntKind::U64)
    } else {
        None
    }
}

/// The scalar kind a type name stands for, if any.
pub fn scalar_kind(typ: &str) -> (r: Option<ScalarKind>)
    ensures
        r == scalar_of(typ@),
{
    match int_kind_of(typ) {
        Some(k) => Some(ScalarKind::Int(k)),
        None => {
            if is_float(typ) {
                Some(ScalarKind::Float)
            } else if is_boolean(typ) {
                Some(ScalarKind::Bool)
            } else if is_string(typ) {
                Some(ScalarKind::Text)
            } else {
                None
            }
        },
    }
}

/// Whether a type name stands for a nested record (see `names_record`).
pub fn is_nested_type(typ: &str) -> (r: bool)
    ensures
        r == names_record(typ@),
{
    scalar_kind(typ).is_none() && !str_eq(typ, "Option") && !str_eq(typ, "Vec") && !str_eq(
        typ,
        "HashMap",
    ) && !str_eq(typ, "BTreeMap")
}

/// Infers the shape of a declared type; total, and the same for the same
/// signature.
pub fn infer_shape(t: &TypeSig) -> (r: FieldShape)
    ensures
        same_shape(r, shape_of(*t)),
    decreases t,
{
    let n = t.name.as_str();
    let nargs = t.args.len();
    if str_eq(n, "Option") {
        if nargs >= 1 {
            proof {
                vstd::std_specs::vec::axiom_vec_index_decreases(t.args, 0);
            }
            FieldShape::Optional(Box::new(infer_shape(&t.args[0])))
        } else {
            FieldShape::Scalar(ScalarKind::Opaque)
        }
    } else if str_eq(n, "Vec") {
        if nargs >= 1 {
            proof {
                vstd::std_specs::vec::axiom_vec_index_decreases(t.args, 0);
            }
            FieldShape::Sequence(Box::new(infer_shape(&t.args[0])))
        } else {
            FieldShape::Scalar(ScalarKind::Opaque)
        }
    } else if str_eq(n, "HashMap") || str_eq(n, "BTreeMap") {
        if nargs >= 2 {
            proof {
                vstd::std_specs::vec::axiom_vec_index_decreases(t.args, 1);
            }
            FieldShape::AssociativeMap(Box::new(infer_shape(&t.args[1])))
        } else {
            FieldShape::Scalar(ScalarKind::Opaque)
        }
    } else {
        match scalar_kind(n) {
            Some(k) => FieldShape::Scalar(k),
            None => FieldShape::Nested(t.name.clone()),
        }
    }
}

} // verus!
