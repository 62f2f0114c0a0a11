//! The serializer: a depth-first walk of a structured value that builds the
//! equivalent dynamic-value tree.
//!
//! [`ser_spec`] is the specification: a recursive function giving, for every
//! structured value, either the dynamic value it maps to or the exact error.
//! [`to_value`] is the executable walk, proved to return precisely what
//! `ser_spec` says. The encoding follows the engine's wire contract:
//! primitives become numbers, unit-like shapes become null, sequences become
//! arrays, maps and structs become objects, and each enum-variant shape has
//! its documented dynamic form.

use vstd::prelude::*;

use crate::errors::{res_view, Error, ErrorKind, ErrorKindV};
use crate::num::{JsNumber, MAX_EXACT_INT};
use crate::value::{
    kind_name, kind_name_spec, lemma_view_elems, lemma_view_props, lemma_view_sentries,
    lemma_view_sfields, lemma_view_svals, obj_insert, obj_set, view_elems, view_props,
    view_sentries, view_sfields, view_svals, DynV, DynValue, StructV, StructValue,
};

verus! {

broadcast use vstd::std_specs::vec::group_vec_axioms;

/// The longest string value the host allocates, in characters. A longer
/// string is refused with `StringTooLong` rather than truncated.
pub const MAX_STRING_LEN: usize = 536870888;

/// The dynamic image of a byte sequence: an array of small integer numbers.
pub open spec fn bytes_dyn(bs: Seq<u8>) -> Seq<DynV> {
    Seq::new(bs.len(), |i: int| DynV::Num(JsNumber::Int(bs[i] as i64)))
}

/// Serializes the values of `items` from position `i` on, extending the
/// already-built prefix `acc`; stops at the first failure.
pub open spec fn ser_items(items: Seq<StructV>, i: int, acc: Seq<DynV>) -> Result<
    Seq<DynV>,
    ErrorKindV,
>
    decreases items, items.len() - i,
{
    if i < 0 || i >= items.len() {
        Ok(acc)
    } else {
        match ser_spec(items[i]) {
            Err(e) => Err(e),
            Ok(d) => ser_items(items, i + 1, acc.push(d)),
        }
    }
}

/// Serializes the entries of a map from position `i` on into the object
/// `acc`. Every key must serialize to a string; the value is then set as a
/// property, overwriting an earlier entry with the same key.
pub open spec fn ser_entries(
    pairs: Seq<(StructV, StructV)>,
    i: int,
    acc: Seq<(Seq<char>, DynV)>,
) -> Result<Seq<(Seq<char>, DynV)>, ErrorKindV>
    decreases pairs, pairs.len() - i,
{
    if i < 0 || i >= pairs.len() {
        Ok(acc)
    } else {
        match ser_spec(pairs[i].0) {
            Err(e) => Err(e),
            Ok(kd) => if !(kd is Str) {
                Err(ErrorKindV::InvalidKeyType(kind_name_spec(kd)))
            } else {
                match ser_spec(pairs[i].1) {
                    Err(e) => Err(e),
                    Ok(vd) => ser_entries(pairs, i + 1, obj_insert(acc, kd->Str_0, vd)),
                }
            },
        }
    }
}

/// Serializes the named fields of a struct from position `i` on into the
/// object `acc`, one property per field, in declaration order.
pub open spec fn ser_fields(
    fields: Seq<(Seq<char>, StructV)>,
    i: int,
    acc: Seq<(Seq<char>, DynV)>,
) -> Result<Seq<(Seq<char>, DynV)>, ErrorKindV>
    decreases fields, fields.len() - i,
{
    if i < 0 || i >= fields.len() {
        Ok(acc)
    } else {
        match ser_spec(fields[i].1) {
            Err(e) => Err(e),
            Ok(vd) => ser_fields(fields, i + 1, obj_insert(acc, fields[i].0, vd)),
        }
    }
}

/// What serializing a structured value yields: the equivalent dynamic value,
/// or the exact error. Integers must lie within the host number's exact
/// range; strings within the host's length bound; map keys must serialize to
/// strings.
pub open spec fn ser_spec(s: StructV) -> Result<DynV, ErrorKindV>
    decreases s, 0int,
{
    match s {
        StructV::Unit => Ok(DynV::Null),
        StructV::UnitStruct => Ok(DynV::Null),
        StructV::OptNone => Ok(DynV::Null),
        StructV::Bool(b) => Ok(DynV::Bool(b)),
        StructV::I8(v) => Ok(DynV::Num(JsNumber::Int(v as i64))),
        StructV::I16(v) => Ok(DynV::Num(JsNumber::Int(v as i64))),
        StructV::I32(v) => Ok(DynV::Num(JsNumber::Int(v as i64))),
        StructV::I64(v) => if -MAX_EXACT_INT <= v <= MAX_EXACT_INT {
            Ok(DynV::Num(JsNumber::Int(v)))
        } else {
            Err(ErrorKindV::NumericCastFailure)
        },
        StructV::U8(v) => Ok(DynV::Num(JsNumber::Int(v as i64))),
        StructV::U16(v) => Ok(DynV::Num(JsNumber::Int(v as i64))),
        StructV::U32(v) => Ok(DynV::Num(JsNumber::Int(v as i64))),
        StructV::U64(v) => if v <= MAX_EXACT_INT as u64 {
            Ok(DynV::Num(JsNumber::Int(v as i64)))
        } else {
            Err(ErrorKindV::NumericCastFailure)
        },
        StructV::Float(n) => Ok(DynV::Num(n)),
        StructV::Char(c) => Ok(DynV::Str(seq![c])),
        StructV::Str(t) => if t.len() <= MAX_STRING_LEN {
            Ok(DynV::Str(t))
        } else {
            Err(ErrorKindV::StringTooLong(t.len() as int))
        },
        StructV::Bytes(bs) => Ok(DynV::Arr(bytes_dyn(bs))),
        StructV::OptSome(v) => ser_spec(*v),
        StructV::NewtypeStruct(v) => ser_spec(*v),
        StructV::List(es) => match ser_items(es, 0, Seq::empty()) {
            Ok(ds) => Ok(DynV::Arr(ds)),
            Err(e) => Err(e),
        },
        StructV::Tuple(es) => match ser_items(es, 0, Seq::empty()) {
            Ok(ds) => Ok(DynV::Arr(ds)),
            Err(e) => Err(e),
        },
        StructV::TupleStruct(es) => match ser_items(es, 0, Seq::empty()) {
            Ok(ds) => Ok(DynV::Arr(ds)),
            Err(e) => Err(e),
        },
        StructV::MapOf(ps) => match ser_entries(ps, 0, Seq::empty()) {
            Ok(o) => Ok(DynV::Obj(o)),
            Err(e) => Err(e),
        },
        StructV::Struct(fs) => match ser_fields(fs, 0, Seq::empty()) {
            Ok(o) => Ok(DynV::Obj(o)),
            Err(e) => Err(e),
        },
        StructV::UnitVariant(n) => if n.len() <= MAX_STRING_LEN {
            Ok(DynV::Str(n))
        } else {
            Err(ErrorKindV::StringTooLong(n.len() as int))
        },
        StructV::NewtypeVariant(n, v) => match ser_spec(*v) {
            Ok(d) => Ok(DynV::Obj(seq![(n, d)])),
            Err(e) => Err(e),
        },
        StructV::TupleVariant(n, es) => match ser_items(es, 0, Seq::empty()) {
            Ok(ds) => Ok(DynV::Obj(seq![(n, DynV::Arr(ds))])),
            Err(e) => Err(e),
        },
        StructV::StructVariant(n, fs) => match ser_fields(fs, 0, Seq::empty()) {
            Ok(o) => Ok(DynV::Obj(seq![(n, DynV::Obj(o))])),
            Err(e) => Err(e),
        },
    }
}

/// Relies on char's ToString: the result is the one character as a string.
#[verifier::external_body]
fn char_to_string(c: char) -> (r: String)
    ensures
        r@ == seq![c],
{
    c.to_string()
}

/// Serializes each element of `es` in order; the array the elements form, or
/// the first failure.
fn ser_vec(es: &Vec<StructValue>) -> (r: Result<Vec<DynValue>, Error>)
    ensures
        match r {
            Ok(out) => ser_items(view_svals(es@), 0, Seq::empty()) == Ok::<_, ErrorKindV>(
                view_elems(out@),
            ),
            Err(e) => ser_items(view_svals(es@), 0, Seq::empty()) == Err::<Seq<DynV>, _>(e@),
        },
    decreases es,
{
    broadcast use lemma_view_svals, lemma_view_elems;

    let ghost esv = view_svals(es@);
    proof {
        lemma_view_svals(es@);
        lemma_view_elems(Seq::<DynValue>::empty());
        assert(view_elems(Seq::<DynValue>::empty()) =~= Seq::<DynV>::empty());
    }
    let mut out: Vec<DynValue> = Vec::new();
    let mut i: usize = 0;
    while i < es.len()
        invariant
            0 <= i <= es@.len(),
            esv == view_svals(es@),
            esv.len() == es@.len(),
            out@.len() == i,
            ser_items(esv, 0, Seq::empty()) == ser_items(esv, i as int, view_elems(out@)),
        decreases es@.len() - i,
    {
        proof {
            assert(decreases_to!(es => es@));
            assert(decreases_to!(es@ => es@[i as int]));
            lemma_view_svals(es@);
        }
        let ghost preseq = out@;
        let ghost cur = view_elems(out@);
        proof {
            lemma_view_elems(preseq);
        }
        match to_value(&es[i]) {
            Ok(d) => {
                let ghost dv = d@;
                out.push(d);
                proof {
                    lemma_view_elems(out@);
                    
                    assert(view_elems(out@) =~= cur.push(dv));
                    assert(ser_spec(esv[i as int]) == Ok::<_, ErrorKindV>(dv));
                    assert(ser_items(esv, i as int, cur) == ser_items(esv, i + 1, cur.push(dv)));
                }
            },
            Err(e) => {
                proof {
                    assert(ser_spec(esv[i as int]) == Err::<DynV, _>(e@));
                    assert(ser_items(esv, i as int, cur) == Err::<Seq<DynV>, _>(e@));
                }
                return Err(e);
            },
        }
        i = i + 1;
    }
    Ok(out)
}

/// Serializes each map entry of `ps` in order into a fresh object. A key
/// that does not serialize to a string is refused with `InvalidKeyType`
/// carrying the runtime kind it serialized to.
fn ser_map(ps: &Vec<(StructValue, StructValue)>) -> (r: Result<Vec<(String, DynValue)>, Error>)
    ensures
        match r {
            Ok(out) => ser_entries(view_sentries(ps@), 0, Seq::empty()) == Ok::<_, ErrorKindV>(
                view_props(out@),
            ),
            Err(e) => ser_entries(view_sentries(ps@), 0, Seq::empty()) == Err::<
                Seq<(Seq<char>, DynV)>,
                _,
            >(e@),
        },
    decreases ps,
{
    broadcast use lemma_view_sentries, lemma_view_props;

    let ghost psv = view_sentries(ps@);
    proof {
        lemma_view_sentries(ps@);
        lemma_view_props(Seq::<(String, DynValue)>::empty());
        assert(view_props(Seq::<(String, DynValue)>::empty()) =~= Seq::<(Seq<char>, DynV)>::empty());
    }
    let mut out: Vec<(String, DynValue)> = Vec::new();
    let mut i: usize = 0;
    while i < ps.len()
        invariant
            0 <= i <= ps@.len(),
            psv == view_sentries(ps@),
            psv.len() == ps@.len(),
            ser_entries(psv, 0, Seq::empty()) == ser_entries(psv, i as int, view_props(out@)),
        decreases ps@.len() - i,
    {
        proof {
            assert(decreases_to!(ps => ps@));
            assert(decreases_to!(ps@ => ps@[i as int]));
            assert(decreases_to!(ps@[i as int] => ps@[i as int].0));
            assert(decreases_to!(ps@[i as int] => ps@[i as int].1));
            lemma_view_sentries(ps@);
        }
        let ghost cur = view_props(out@);
        let kd = match to_value(&ps[i].0) {
            Ok(kd) => kd,
            Err(e) => {
                proof {
                    assert(ser_spec(psv[i as int].0) == Err::<DynV, _>(e@));
                    assert(ser_entries(psv, i as int, cur) == Err::<Seq<(Seq<char>, DynV)>, _>(e@));
                }
                return Err(e);
            },
        };
        let ks = match kd {
            DynValue::Str(ks) => ks,
            other => {
                proof {
                    assert(ser_spec(psv[i as int].0) == Ok::<_, ErrorKindV>(other@));
                    assert(!(other@ is Str));
                    assert(ser_entries(psv, i as int, cur) == Err::<Seq<(Seq<char>, DynV)>, _>(
                        ErrorKindV::InvalidKeyType(kind_name_spec(other@)),
                    ));
                }
                return Err(Error(ErrorKind::InvalidKeyType(kind_name(&other))));
            },
        };
        let ghost ksv = ks@;
        proof {
            assert(ser_spec(psv[i as int].0) == Ok::<_, ErrorKindV>(DynV::Str(ksv)));
        }
        let vd = match to_value(&ps[i].1) {
            Ok(vd) => vd,
            Err(e) => {
                proof {
                    assert(ser_spec(psv[i as int].1) == Err::<DynV, _>(e@));
                    assert(ser_entries(psv, i as int, cur) == Err::<Seq<(Seq<char>, DynV)>, _>(e@));
                }
                return Err(e);
            },
        };
        let ghost vdv = vd@;
        obj_set(&mut out, ks, vd);
        proof {
            assert(view_props(out@) == obj_insert(cur, ksv, vdv));
            assert(ser_entries(psv, i as int, cur) == ser_entries(
                psv,
                i + 1,
                obj_insert(cur, ksv, vdv),
            ));
        }
        i = i + 1;
    }
    Ok(out)
}

/// Serializes each named field of `fs` in order into a fresh object, one
/// property per field.
fn ser_struct_fields(fs: &Vec<(String, StructValue)>) -> (r: Result<
    Vec<(String, DynValue)>,
    Error,
>)
    ensures
        match r {
            Ok(out) => ser_fields(view_sfields(fs@), 0, Seq::empty()) == Ok::<_, ErrorKindV>(
                view_props(out@),
            ),
            Err(e) => ser_fields(view_sfields(fs@), 0, Seq::empty()) == Err::<
                Seq<(Seq<char>, DynV)>,
                _,
            >(e@),
        },
    decreases fs,
{
    broadcast use lemma_view_sfields, lemma_view_props;

    let ghost fsv = view_sfields(fs@);
    proof {
        lemma_view_sfields(fs@);
        lemma_view_props(Seq::<(String, DynValue)>::empty());
        assert(view_props(Seq::<(String, DynValue)>::empty()) =~= Seq::<(Seq<char>, DynV)>::empty());
    }
    let mut out: Vec<(String, DynValue)> = Vec::new();
    let mut i: usize = 0;
    while i < fs.len()
        invariant
            0 <= i <= fs@.len(),
            fsv == view_sfields(fs@),
            fsv.len() == fs@.len(),
            ser_fields(fsv, 0, Seq::empty()) == ser_fields(fsv, i as int, view_props(out@)),
        decreases fs@.len() - i,
    {
        proof {
            assert(decreases_to!(fs => fs@));
            assert(decreases_to!(fs@ => fs@[i as int]));
            assert(decreases_to!(fs@[i as int] => fs@[i as int].1));
            lemma_view_sfields(fs@);
        }
        let ghost cur = view_props(out@);
        let vd = match to_value(&fs[i].1) {
            Ok(vd) => vd,
            Err(e) => {
                proof {
                    assert(ser_spec(fsv[i as int].1) == Err::<DynV, _>(e@));
                    assert(ser_fields(fsv, i as int, cur) == Err::<Seq<(Seq<char>, DynV)>, _>(e@));
                }
                return Err(e);
            },
        };
        let ghost vdv = vd@;
        let name = fs[i].0.clone();
        let ghost namev = name@;
        proof {
            assert(namev == fsv[i as int].0);
            assert(ser_spec(fsv[i as int].1) == Ok::<_, ErrorKindV>(vdv));
        }
        obj_set(&mut out, name, vd);
        proof {
            assert(view_props(out@) == obj_insert(cur, namev, vdv));
            assert(ser_fields(fsv, i as int, cur) == ser_fields(
                fsv,
                i + 1,
                obj_insert(cur, namev, vdv),
            ));
        }
        i = i + 1;
    }
    Ok(out)
}

/// Serializes a structured value into the equivalent dynamic value; returns
/// exactly what [`ser_spec`] gives, success and failure alike.
pub fn to_value(s: &StructValue) -> (r: Result<DynValue, Error>)
    ensures
        res_view(r) == ser_spec(s@),
    decreases s, 1int,
{
    broadcast use lemma_view_svals, lemma_view_elems, lemma_view_props;

    match s {
        StructValue::Unit => Ok(DynValue::Null),
        StructValue::UnitStruct => Ok(DynValue::Null),
        StructValue::OptNone => Ok(DynValue::Null),
        StructValue::Bool(b) => Ok(DynValue::Bool(*b)),
        StructValue::I8(v) => Ok(DynValue::Num(JsNumber::Int(*v as i64))),
        StructValue::I16(v) => Ok(DynValue::Num(JsNumber::Int(*v as i64))),
        StructValue::I32(v) => Ok(DynValue::Num(JsNumber::Int(*v as i64))),
        StructValue::I64(v) => {
            if -MAX_EXACT_INT <= *v && *v <= MAX_EXACT_INT {
                Ok(DynValue::Num(JsNumber::Int(*v)))
            } else {
                Err(Error(ErrorKind::NumericCastFailure))
            }
        },
        StructValue::U8(v) => Ok(DynValue::Num(JsNumber::Int(*v as i64))),
        StructValue::U16(v) => Ok(DynValue::Num(JsNumber::Int(*v as i64))),
        StructValue::U32(v) => Ok(DynValue::Num(JsNumber::Int(*v as i64))),
        StructValue::U64(v) => {
            if *v <= MAX_EXACT_INT as u64 {
                Ok(DynValue::Num(JsNumber::Int(*v as i64)))
            } else {
                Err(Error(ErrorKind::NumericCastFailure))
            }
        },
        StructValue::Float(n) => Ok(DynValue::Num(*n)),
        StructValue::Char(c) => Ok(DynValue::Str(char_to_string(*c))),
        StructValue::Str(t) => {
            let len = t.as_str().unicode_len();
            if len <= MAX_STRING_LEN {
                Ok(DynValue::Str(t.clone()))
            } else {
                Err(Error(ErrorKind::StringTooLong(len)))
            }
        },
        StructValue::Bytes(bs) => {
            let mut out: Vec<DynValue> = Vec::new();
            let mut i: usize = 0;
            while i < bs.len()
                invariant
                    0 <= i <= bs@.len(),
                    out@.len() == i,
                    forall|j: int|
                        0 <= j < i ==> out@[j]@ == DynV::Num(JsNumber::Int(bs@[j] as i64)),
                decreases bs@.len() - i,
            {
                out.push(DynValue::Num(JsNumber::Int(bs[i] as i64)));
                i = i + 1;
            }
            assert(view_elems(out@) =~= bytes_dyn(bs@));
            Ok(DynValue::Arr(out))
        },
        StructValue::OptSome(v) => to_value(&**v),
        StructValue::NewtypeStruct(v) => to_value(&**v),
        StructValue::List(es) => match ser_vec(es) {
            Ok(out) => Ok(DynValue::Arr(out)),
            Err(e) => Err(e),
        },
        StructValue::Tuple(es) => match ser_vec(es) {
            Ok(out) => Ok(DynValue::Arr(out)),
            Err(e) => Err(e),
        },
        StructValue::TupleStruct(es) => match ser_vec(es) {
            Ok(out) => Ok(DynValue::Arr(out)),
            Err(e) => Err(e),
        },
        StructValue::MapOf(ps) => match ser_map(ps) {
            Ok(out) => Ok(DynValue::Obj(out)),
            Err(e) => Err(e),
        },
        StructValue::Struct(fs) => match ser_struct_fields(fs) {
            Ok(out) => Ok(DynValue::Obj(out)),
            Err(e) => Err(e),
        },
        StructValue::UnitVariant(n) => {
            let len = n.as_str().unicode_len();
            if len <= MAX_STRING_LEN {
                Ok(DynValue::Str(n.clone()))
            } else {
                Err(Error(ErrorKind::StringTooLong(len)))
            }
        },
        StructValue::NewtypeVariant(n, v) => match to_value(&**v) {
            Ok(d) => {
                let ghost dv = d@;
                let out: Vec<(String, DynValue)> = vec![(n.clone(), d)];
                assert(view_props(out@) =~= seq![(n@, dv)]);
                Ok(DynValue::Obj(out))
            },
            Err(e) => Err(e),
        },
        StructValue::TupleVariant(n, es) => match ser_vec(es) {
            Ok(items) => {
                let ghost iv = view_elems(items@);
                let out: Vec<(String, DynValue)> = vec![(n.clone(), DynValue::Arr(items))];
                assert(view_props(out@) =~= seq![(n@, DynV::Arr(iv))]);
                Ok(DynValue::Obj(out))
            },
            Err(e) => Err(e),
        },
        StructValue::StructVariant(n, fs) => match ser_struct_fields(fs) {
            Ok(props) => {
                let ghost pv = view_props(props@);
                let out: Vec<(String, DynValue)> = vec![(n.clone(), DynValue::Obj(props))];
                assert(view_props(out@) =~= seq![(n@, DynV::Obj(pv))]);
                Ok(DynValue::Obj(out))
            },
            Err(e) => Err(e),
        },
    }
}

} // verus!
