//! The defaulting engine: fills absent optional fields from their declared
//! defaults and recurses into nested records, in place.
use vstd::prelude::*;
use crate::schema::{CompiledField, DefaultAction, DefaultSpec, Schema, record_of};
use crate::shape::FieldShape;
use crate::value::{Val, Value};

verus! {

/// A record value of type `ty` after defaulting: each declared field is
/// defaulted in turn; values past the declared fields, values that are not
/// records and types the schema does not hold are left as they are.
pub open spec fn default_record(s: Schema, ty: Seq<char>, v: Val) -> Val
    decreases v, 0int,
{
    match record_of(s, ty) {
        Some(rec) => match v {
            Val::Record(vals) => Val::Record(
                Seq::new(
                    vals.len(),
                    |j: int|
                        if 0 <= j < vals.len() {
                            if j < rec.fields@.len() {
                                default_field(s, rec.fields@[j], vals[j])
                            } else {
                                vals[j]
                            }
                        } else {
                            Val::Absent
                        },
                ),
            ),
            _ => v,
        },
        None => v,
    }
}

/// One field after defaulting. The metadata field is left alone. An optional
/// field with a declared default gets it when absent and is otherwise left
/// alone; one declared `none` is left alone; without a declaration, a present
/// value is defaulted by its inner shape. Other shapes go by `default_within`.
pub open spec fn default_field(s: Schema, f: CompiledField, v: Val) -> Val
    decreases v, 2int,
{
    if f.skip {
        v
    } else {
        match f.shape {
            FieldShape::Optional(inner) => match f.default.model() {
                DefaultSpec::Fill(d) => if v is Absent {
                    Val::Present(Box::new(d))
                } else {
                    v
                },
                DefaultSpec::Keep => v,
                DefaultSpec::Recurse => match v {
                    Val::Present(x) => Val::Present(Box::new(default_within(s, *inner, *x))),
                    _ => v,
                },
            },
            _ => default_within(s, f.shape, v),
        }
    }
}

/// A value of the given shape after defaulting: a nested record is defaulted,
/// and so is each record held by a sequence or by a map (keys unchanged);
/// anything else is left alone.
pub open spec fn default_within(s: Schema, shape: FieldShape, v: Val) -> Val
    decreases v, 1int,
{
    match shape {
        FieldShape::Nested(n) => default_record(s, n@, v),
        FieldShape::Sequence(inner) => match *inner {
            FieldShape::Nested(n) => match v {
                Val::List(es) => Val::List(
                    Seq::new(
                        es.len(),
                        |i: int|
                            if 0 <= i < es.len() {
                                default_record(s, n@, es[i])
                            } else {
                                Val::Absent
                            },
                    ),
                ),
                _ => v,
            },
            _ => v,
        },
        FieldShape::AssociativeMap(inner) => match *inner {
            FieldShape::Nested(n) => match v {
                Val::Dict(es) => Val::Dict(
                    Seq::new(
                        es.len(),
                        |i: int|
                            if 0 <= i < es.len() {
                                (es[i].0, default_record(s, n@, es[i].1))
                            } else {
                                (Seq::empty(), Val::Absent)
                            },
                    ),
                ),
                _ => v,
            },
            _ => v,
        },
        _ => v,
    }
}

fn default_record_value(s: &Schema, ty: &str, v: Value) -> (r: Value)
    ensures
        r.model() == default_record(*s, ty@, v.model()),
    decreases v, 0int,
{
    let rec = match s.find_record(ty) {
        None => {
            return v;
        },
        Some(rec) => rec,
    };
    match v {
        Value::Record(vals) => {
            let ghost orig = vals;
            let mut vals = vals;
            let n = vals.len();
            let nf = rec.fields.len();
            let mut j: usize = 0;
            while j < n
                invariant
                    n == vals@.len(),
                    n == orig@.len(),
                    nf == rec.fields@.len(),
                    v == Value::Record(orig),
                    0 <= j <= n,
                    forall|k: int|
                        0 <= k < j ==> (#[trigger] vals@[k]).model() == (if k < nf {
                            default_field(*s, rec.fields@[k], orig@[k].model())
                        } else {
                            orig@[k].model()
                        }),
                    forall|k: int| j <= k < n ==> #[trigger] vals@[k] == orig@[k],
                decreases n - j,
            {
                if j < nf {
                    let mut tmp = Value::Absent;
                    vals.set_and_swap(j, &mut tmp);
                    proof {
                        vstd::std_specs::vec::axiom_vec_index_decreases(orig, j as int);
                        assert(decreases_to!(orig => orig@[j as int]));
                        assert(decreases_to!(v => v->Record_0));
                    }
                    let r = default_field_value(s, &rec.fields[j], tmp);
                    vals.set(j, r);
                }
                j += 1;
            }
            let r = Value::Record(vals);
            assert(r.model()->Record_0 =~= default_record(*s, ty@, v.model())->Record_0);
            r
        },
        _ => v,
    }
}

fn default_field_value(s: &Schema, f: &CompiledField, v: Value) -> (r: Value)
    ensures
        r.model() == default_field(*s, *f, v.model()),
    decreases v, 2int,
{
    if f.skip {
        return v;
    }
    match &f.shape {
        FieldShape::Optional(inner) => match &f.default {
            DefaultAction::Fill(d) => match v {
                Value::Absent => Value::Present(Box::new(d.to_value())),
                _ => v,
            },
            DefaultAction::Keep => v,
            DefaultAction::Recurse => match v {
                Value::Present(x) => Value::Present(Box::new(default_within_value(s, inner, *x))),
                _ => v,
            },
        },
        _ => default_within_value(s, &f.shape, v),
    }
}

fn default_within_value(s: &Schema, shape: &FieldShape, v: Value) -> (r: Value)
    ensures
        r.model() == default_within(*s, *shape, v.model()),
    decreases v, 1int,
{
    match shape {
        FieldShape::Nested(n) => default_record_value(s, n.as_str(), v),
        FieldShape::Sequence(inner) => match &**inner {
            FieldShape::Nested(n) => match v {
                Value::List(es) => {
                    let ghost orig = es;
                    let mut es = es;
                    let len = es.len();
                    let mut i: usize = 0;
                    while i < len
                        invariant
                            len == es@.len(),
                            len == orig@.len(),
                            v == Value::List(orig),
                            0 <= i <= len,
                            forall|k: int|
                                0 <= k < i ==> (#[trigger] es@[k]).model() == default_record(
                                    *s,
                                    n@,
                                    orig@[k].model(),
                                ),
                            forall|k: int| i <= k < len ==> #[trigger] es@[k] == orig@[k],
                        decreases len - i,
                    {
                        let mut tmp = Value::Absent;
                        es.set_and_swap(i, &mut tmp);
                        proof {
                            vstd::std_specs::vec::axiom_vec_index_decreases(orig, i as int);
                            assert(decreases_to!(orig => orig@[i as int]));
                            assert(decreases_to!(v => v->List_0));
                        }
                        let r = default_record_value(s, n.as_str(), tmp);
                        es.set(i, r);
                        i += 1;
                    }
                    let r = Value::List(es);
                    assert(r.model()->List_0 =~= default_within(*s, *shape, v.model())->List_0);
                    r
                },
                _ => v,
            },
            _ => v,
        },
        FieldShape::AssociativeMap(inner) => match &**inner {
            FieldShape::Nested(n) => match v {
                Value::Dict(es) => {
                    let ghost orig = es;
                    let mut es = es;
                    let len = es.len();
                    let mut i: usize = 0;
                    while i < len
                        invariant
                            len == es@.len(),
                            len == orig@.len(),
                            v == Value::Dict(orig),
                            0 <= i <= len,
                            forall|k: int|
                                0 <= k < i ==> (#[trigger] es@[k]).0@ == orig@[k].0@ && es@[k].1.model()
                                    == default_record(*s, n@, orig@[k].1.model()),
                            forall|k: int| i <= k < len ==> #[trigger] es@[k] == orig@[k],
                        decreases len - i,
                    {
                        let mut tmp = (String::new(), Value::Absent);
                        es.set_and_swap(i, &mut tmp);
                        proof {
                            vstd::std_specs::vec::axiom_vec_index_decreases(orig, i as int);
                            assert(decreases_to!(orig => orig@[i as int]));
                            assert(decreases_to!(v => v->Dict_0));
                        }
                        let (key, val) = tmp;
                        let r = default_record_value(s, n.as_str(), val);
                        es.set(i, (key, r));
                        i += 1;
                    }
                    let r = Value::Dict(es);
                    assert(r.model()->Dict_0 =~= default_within(*s, *shape, v.model())->Dict_0);
                    r
                },
                _ => v,
            },
            _ => v,
        },
        _ => v,
    }
}

/// Applies the defaults of record type `record_type` to `record`, in place (see
/// `default_record`). Defaulting has no failure: every mismatch between a
/// schema and a default was refused when the schema was compiled.
pub fn apply_defaults(schema: &Schema, record_type: &str, record: &mut Value)
    ensures
        final(record).model() == default_record(*schema, record_type@, old(record).model()),
{
    let mut taken = Value::Absent;
    std::mem::swap(record, &mut taken);
    let r = default_record_value(schema, record_type, taken);
    *record = r;
}

/// Defaulting a record twice gives what defaulting it once gives: a default
/// fills only an absent field, and the records it recurses into are defaulted
/// alike.
pub proof fn lemma_defaults_idempotent(s: Schema, ty: Seq<char>, v: Val)
    ensures
        default_record(s, ty, default_record(s, ty, v)) == default_record(s, ty, v),
    decreases v, 0int,
{
    if let Some(rec) = record_of(s, ty) {
        if let Val::Record(vals) = v {
            let once = default_record(s, ty, v);
            let nf = rec.fields@.len();
            assert forall|j: int| 0 <= j < vals.len() && j < nf implies default_field(
                s,
                rec.fields@[j],
                #[trigger] once->Record_0[j],
            ) == once->Record_0[j] by {
                lemma_field_idempotent(s, rec.fields@[j], vals[j]);
            }
            assert(default_record(s, ty, once)->Record_0 =~= once->Record_0);
        }
    }
}

proof fn lemma_field_idempotent(s: Schema, f: CompiledField, v: Val)
    ensures
        default_field(s, f, default_field(s, f, v)) == default_field(s, f, v),
    decreases v, 2int,
{
    if !f.skip {
        match f.shape {
            FieldShape::Optional(inner) => {
                if f.default.model() is Recurse {
                    if let Val::Present(x) = v {
                        lemma_within_idempotent(s, *inner, *x);
                    }
                }
            },
            _ => {
                lemma_within_idempotent(s, f.shape, v);
            },
        }
    }
}

proof fn lemma_within_idempotent(s: Schema, shape: FieldShape, v: Val)
    ensures
        default_within(s, shape, default_within(s, shape, v)) == default_within(s, shape, v),
    decreases v, 1int,
{
    match shape {
        FieldShape::Nested(n) => {
            lemma_defaults_idempotent(s, n@, v);
        },
        FieldShape::Sequence(inner) => {
            if let FieldShape::Nested(n) = *inner {
                if let Val::List(es) = v {
                    let once = default_within(s, shape, v);
                    assert forall|i: int| 0 <= i < es.len() implies default_record(
                        s,
                        n@,
                        #[trigger] once->List_0[i],
                    ) == once->List_0[i] by {
                        lemma_defaults_idempotent(s, n@, es[i]);
                    }
                    assert(default_within(s, shape, once)->List_0 =~= once->List_0);
                }
            }
        },
        FieldShape::AssociativeMap(inner) => {
            if let FieldShape::Nested(n) = *inner {
                if let Val::Dict(es) = v {
                    let once = default_within(s, shape, v);
                    assert forall|i: int| 0 <= i < es.len() implies default_record(
                        s,
                        n@,
                        (#[trigger] once->Dict_0[i]).1,
                    ) == once->Dict_0[i].1 by {
                        lemma_defaults_idempotent(s, n@, es[i].1);
                    }
                    assert(default_within(s, shape, once)->Dict_0 =~= once->Dict_0);
                }
            }
        },
        _ => {},
    }
}

/// No field of any record type declares a default value.
pub open spec fn declares_no_default(s: Schema) -> bool {
    forall|i: int, j: int|
        0 <= i < s.records@.len() && 0 <= j < s.records@[i].fields@.len() ==> !((
        #[trigger] s.records@[i].fields@[j]).default.model() is Fill)
}

/// Where no default is declared, defaulting leaves every record as it is.
pub proof fn lemma_defaults_noop(s: Schema, ty: Seq<char>, v: Val)
    requires
        declares_no_default(s),
    ensures
        default_record(s, ty, v) == v,
    decreases v, 0int,
{
    if let Some(rec) = record_of(s, ty) {
        if let Val::Record(vals) = v {
            let i = choose|i: int| crate::schema::first_record(s, ty, i);
            assert(rec == s.records@[i]);
            let nf = rec.fields@.len();
            assert forall|j: int| 0 <= j < vals.len() && j < nf implies default_field(
                s,
                rec.fields@[j],
                #[trigger] vals[j],
            ) == vals[j] by {
                assert(!(s.records@[i].fields@[j].default.model() is Fill));
                lemma_field_noop(s, rec.fields@[j], vals[j]);
            }
            assert(default_record(s, ty, v)->Record_0 =~= vals);
        }
    }
}

proof fn lemma_field_noop(s: Schema, f: CompiledField, v: Val)
    requires
        declares_no_default(s),
        !(f.default.model() is Fill),
    ensures
        default_field(s, f, v) == v,
    decreases v, 2int,
{
    if !f.skip {
        match f.shape {
            FieldShape::Optional(inner) => {
                if f.default.model() is Recurse {
                    if let Val::Present(x) = v {
                        lemma_within_noop(s, *inner, *x);
                    }
                }
            },
            _ => {
                lemma_within_noop(s, f.shape, v);
            },
        }
    }
}

proof fn lemma_within_noop(s: Schema, shape: FieldShape, v: Val)
    requires
        declares_no_default(s),
    ensures
        default_within(s, shape, v) == v,
    decreases v, 1int,
{
    match shape {
        FieldShape::Nested(n) => {
            lemma_defaults_noop(s, n@, v);
        },
        FieldShape::Sequence(inner) => {
            if let FieldShape::Nested(n) = *inner {
                if let Val::List(es) = v {
                    assert forall|i: int| 0 <= i < es.len() implies default_record(
                        s,
                        n@,
                        #[trigger] es[i],
                    ) == es[i] by {
                        lemma_defaults_noop(s, n@, es[i]);
                    }
                    assert(default_within(s, shape, v)->List_0 =~= es);
                }
            }
        },
        FieldShape::AssociativeMap(inner) => {
            if let FieldShape::Nested(n) = *inner {
                if let Val::Dict(es) = v {
                    assert forall|i: int| 0 <= i < es.len() implies default_record(
                        s,
                        n@,
                        (#[trigger] es[i]).1,
                    ) == es[i].1 by {
                        lemma_defaults_noop(s, n@, es[i].1);
                    }
                    assert(default_within(s, shape, v)->Dict_0 =~= es);
                }
            }
        },
        _ => {},
    }
}

} // verus!
