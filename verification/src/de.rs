//! The deserializer: a depth-first walk of a dynamic value, driven by the
//! target shape, that rebuilds the structured value.
//!
//! [`de_spec`] is the specification: for every target shape and dynamic
//! value it gives either the structured value decoded or the exact error.
//! [`from_value`] is the executable walk, proved to return precisely what
//! `de_spec` says. Dispatch is by the requested shape, cross-checked against
//! the dynamic value's runtime kind: mismatches are reported with the name
//! of the shape that was requested.

use vstd::prelude::*;

use crate::errors::{res_view, Error, ErrorKind, ErrorKindV};
use crate::num::JsNumber;
use crate::value::{
    lemma_view_elems, lemma_view_fields, lemma_view_props, lemma_view_schemas, lemma_view_sentries,
    lemma_view_sfields, lemma_view_svals, lemma_view_variants, lemma_obj_index_of, obj_get,
    obj_index_of, obj_find, view_elems, view_fields, view_props, view_schemas, view_sentries,
    view_sfields, view_svals, view_variants, DynV, DynValue, Field, FieldV, Schema, SchemaV,
    StructV, StructValue, Variant, VariantV,
};

verus! {

broadcast use vstd::std_specs::vec::group_vec_axioms;

/// The name a variant declaration carries.
pub open spec fn variant_name(v: VariantV) -> Seq<char> {
    match v {
        VariantV::Unit(n) => n,
        VariantV::Newtype(n, _) => n,
        VariantV::Tuple(n, _) => n,
        VariantV::Struct(n, _) => n,
    }
}

/// The index of the first declared variant named `n`, or -1 when there is
/// none.
pub open spec fn find_variant(vs: Seq<VariantV>, n: Seq<char>) -> int
    decreases vs.len(),
{
    if vs.len() == 0 {
        -1
    } else if variant_name(vs[0]) == n {
        0
    } else {
        let r = find_variant(vs.drop_first(), n);
        if r < 0 {
            -1
        } else {
            r + 1
        }
    }
}

/// What `find_variant` finds: a real first occurrence, or proof of absence.
pub proof fn lemma_find_variant(vs: Seq<VariantV>, n: Seq<char>)
    ensures
        find_variant(vs, n) == -1 || (0 <= find_variant(vs, n) < vs.len()),
        find_variant(vs, n) == -1 ==> forall|j: int| 0 <= j < vs.len() ==> variant_name(vs[j]) != n,
        find_variant(vs, n) >= 0 ==> variant_name(vs[find_variant(vs, n)]) == n,
        find_variant(vs, n) >= 0 ==> forall|j: int|
            0 <= j < find_variant(vs, n) ==> variant_name(vs[j]) != n,
    decreases vs.len(),
{
    if vs.len() > 0 && variant_name(vs[0]) != n {
        lemma_find_variant(vs.drop_first(), n);
        assert forall|j: int| 0 <= j < vs.len() && j >= 1 implies vs[j] == vs.drop_first()[j - 1] by {
        }
    }
}

/// Decodes the elements of an array as bytes, from position `i` on. Each
/// element must be an integer number between 0 and 255.
pub open spec fn de_bytes(arr: Seq<DynV>, i: int, acc: Seq<u8>) -> Result<Seq<u8>, ErrorKindV>
    decreases arr.len() - i,
{
    if i < 0 || i >= arr.len() {
        Ok(acc)
    } else {
        match arr[i] {
            DynV::Num(JsNumber::Int(b)) => if 0 <= b <= 255 {
                de_bytes(arr, i + 1, acc.push(b as u8))
            } else {
                Err(ErrorKindV::UnableToCoerce("byte"@))
            },
            _ => Err(ErrorKindV::UnableToCoerce("byte"@)),
        }
    }
}

/// Decodes every array element against the one element shape `el`, from
/// position `i` on; stops at the first failure.
pub open spec fn de_items(el: SchemaV, arr: Seq<DynV>, i: int, acc: Seq<StructV>) -> Result<
    Seq<StructV>,
    ErrorKindV,
>
    decreases el, arr, arr.len() - i,
{
    if i < 0 || i >= arr.len() {
        Ok(acc)
    } else {
        match de_spec(el, arr[i]) {
            Err(e) => Err(e),
            Ok(r) => de_items(el, arr, i + 1, acc.push(r)),
        }
    }
}

/// Decodes the elements of an array against the fixed shapes `ts`,
/// position by position; the caller has already checked the arity.
pub open spec fn de_tuple(ts: Seq<SchemaV>, arr: Seq<DynV>, i: int, acc: Seq<StructV>) -> Result<
    Seq<StructV>,
    ErrorKindV,
>
    decreases ts, arr, ts.len() - i,
{
    if i < 0 || i >= ts.len() || arr.len() != ts.len() {
        Ok(acc)
    } else {
        match de_spec(ts[i], arr[i]) {
            Err(e) => Err(e),
            Ok(r) => de_tuple(ts, arr, i + 1, acc.push(r)),
        }
    }
}

/// Decodes an object's properties as map entries, from position `i` on.
/// Each property name, re-read as a string value, feeds the key shape; each
/// property value feeds the value shape. `t` is the whole map shape.
pub open spec fn de_entries(
    t: SchemaV,
    props: Seq<(Seq<char>, DynV)>,
    i: int,
    acc: Seq<(StructV, StructV)>,
) -> Result<Seq<(StructV, StructV)>, ErrorKindV>
    recommends
        t is MapOf,
    decreases t, props, props.len() - i,
{
    if !(t is MapOf) || i < 0 || i >= props.len() {
        Ok(acc)
    } else {
        match de_spec(*t->MapOf_0, DynV::Str(props[i].0)) {
            Err(e) => Err(e),
            Ok(k) => match de_spec(*t->MapOf_1, props[i].1) {
                Err(e) => Err(e),
                Ok(v) => de_entries(t, props, i + 1, acc.push((k, v))),
            },
        }
    }
}

/// Decodes an object against declared struct fields, from field `i` on. A
/// present property feeds the field's shape; an absent one takes the field's
/// default, or fails with the field's name when it has none. Unknown
/// properties are ignored.
pub open spec fn de_struct(
    fields: Seq<FieldV>,
    props: Seq<(Seq<char>, DynV)>,
    i: int,
    acc: Seq<(Seq<char>, StructV)>,
) -> Result<Seq<(Seq<char>, StructV)>, ErrorKindV>
    decreases fields, props, fields.len() - i,
{
    if i < 0 || i >= fields.len() {
        Ok(acc)
    } else {
        match obj_get(props, fields[i].name) {
            Option::Some(pv) => match de_spec(fields[i].schema, pv) {
                Err(e) => Err(e),
                Ok(r) => de_struct(fields, props, i + 1, acc.push((fields[i].name, r))),
            },
            Option::None => match fields[i].dflt {
                Option::Some(dv) => de_struct(fields, props, i + 1, acc.push((fields[i].name, dv))),
                Option::None => Err(ErrorKindV::Custom(fields[i].name)),
            },
        }
    }
}

/// What decoding a dynamic value at a target shape yields: the structured
/// value, or the exact error. Null and undefined collapse to none for an
/// option target; a bare string or a one-property object selects an enum
/// variant; a fixed arity must match an array's length exactly.
pub open spec fn de_spec(t: SchemaV, d: DynV) -> Result<StructV, ErrorKindV>
    decreases t, d, 0int,
{
    match t {
        SchemaV::Unit => if d is Null || d is Undefined {
            Ok(StructV::Unit)
        } else {
            Err(ErrorKindV::ExpectingNull)
        },
        SchemaV::UnitStruct => if d is Null || d is Undefined {
            Ok(StructV::UnitStruct)
        } else {
            Err(ErrorKindV::ExpectingNull)
        },
        SchemaV::Bool => match d {
            DynV::Bool(b) => Ok(StructV::Bool(b)),
            _ => Err(ErrorKindV::UnableToCoerce("boolean"@)),
        },
        SchemaV::I8 => match d {
            DynV::Num(JsNumber::Int(i)) => if -128 <= i <= 127 {
                Ok(StructV::I8(i as i8))
            } else {
                Err(ErrorKindV::UnableToCoerce("i8"@))
            },
            _ => Err(ErrorKindV::UnableToCoerce("i8"@)),
        },
        SchemaV::I16 => match d {
            DynV::Num(JsNumber::Int(i)) => if -32768 <= i <= 32767 {
                Ok(StructV::I16(i as i16))
            } else {
                Err(ErrorKindV::UnableToCoerce("i16"@))
            },
            _ => Err(ErrorKindV::UnableToCoerce("i16"@)),
        },
        SchemaV::I32 => match d {
            DynV::Num(JsNumber::Int(i)) => if -2147483648 <= i <= 2147483647 {
                Ok(StructV::I32(i as i32))
            } else {
                Err(ErrorKindV::UnableToCoerce("i32"@))
            },
            _ => Err(ErrorKindV::UnableToCoerce("i32"@)),
        },
        SchemaV::I64 => match d {
            DynV::Num(JsNumber::Int(i)) => Ok(StructV::I64(i)),
            _ => Err(ErrorKindV::UnableToCoerce("i64"@)),
        },
        SchemaV::U8 => match d {
            DynV::Num(JsNumber::Int(i)) => if 0 <= i <= 255 {
                Ok(StructV::U8(i as u8))
            } else {
                Err(ErrorKindV::UnableToCoerce("u8"@))
            },
            _ => Err(ErrorKindV::UnableToCoerce("u8"@)),
        },
        SchemaV::U16 => match d {
            DynV::Num(JsNumber::Int(i)) => if 0 <= i <= 65535 {
                Ok(StructV::U16(i as u16))
            } else {
                Err(ErrorKindV::UnableToCoerce("u16"@))
            },
            _ => Err(ErrorKindV::UnableToCoerce("u16"@)),
        },
        SchemaV::U32 => match d {
            DynV::Num(JsNumber::Int(i)) => if 0 <= i <= 4294967295 {
                Ok(StructV::U32(i as u32))
            } else {
                Err(ErrorKindV::UnableToCoerce("u32"@))
            },
            _ => Err(ErrorKindV::UnableToCoerce("u32"@)),
        },
        SchemaV::U64 => match d {
            DynV::Num(JsNumber::Int(i)) => if 0 <= i {
                Ok(StructV::U64(i as u64))
            } else {
                Err(ErrorKindV::UnableToCoerce("u64"@))
            },
            _ => Err(ErrorKindV::UnableToCoerce("u64"@)),
        },
        SchemaV::Float => match d {
            DynV::Num(n) => Ok(StructV::Float(n)),
            _ => Err(ErrorKindV::UnableToCoerce("number"@)),
        },
        SchemaV::Char => match d {
            DynV::Str(s) => if s.len() == 0 {
                Err(ErrorKindV::EmptyString)
            } else if s.len() > 1 {
                Err(ErrorKindV::StringTooLongForChar(s.len() as int))
            } else {
                Ok(StructV::Char(s[0]))
            },
            _ => Err(ErrorKindV::UnableToCoerce("char"@)),
        },
        SchemaV::Str => match d {
            DynV::Str(s) => Ok(StructV::Str(s)),
            _ => Err(ErrorKindV::UnableToCoerce("string"@)),
        },
        SchemaV::Bytes => match d {
            DynV::Arr(arr) => match de_bytes(arr, 0, Seq::empty()) {
                Ok(bs) => Ok(StructV::Bytes(bs)),
                Err(e) => Err(e),
            },
            _ => Err(ErrorKindV::UnableToCoerce("bytes"@)),
        },
        SchemaV::Opt(inner) => if d is Null || d is Undefined {
            Ok(StructV::OptNone)
        } else {
            match de_spec(*inner, d) {
                Ok(r) => Ok(StructV::OptSome(Box::new(r))),
                Err(e) => Err(e),
            }
        },
        SchemaV::NewtypeStruct(inner) => match de_spec(*inner, d) {
            Ok(r) => Ok(StructV::NewtypeStruct(Box::new(r))),
            Err(e) => Err(e),
        },
        SchemaV::List(el) => match d {
            DynV::Arr(arr) => match de_items(*el, arr, 0, Seq::empty()) {
                Ok(rs) => Ok(StructV::List(rs)),
                Err(e) => Err(e),
            },
            _ => Err(ErrorKindV::UnableToCoerce("array"@)),
        },
        SchemaV::Tuple(ts) => match d {
            DynV::Arr(arr) => if arr.len() != ts.len() {
                Err(ErrorKindV::ArrayIndexOutOfBounds(ts.len() as int, arr.len() as int))
            } else {
                match de_tuple(ts, arr, 0, Seq::empty()) {
                    Ok(rs) => Ok(StructV::Tuple(rs)),
                    Err(e) => Err(e),
                }
            },
            _ => Err(ErrorKindV::UnableToCoerce("array"@)),
        },
        SchemaV::TupleStruct(ts) => match d {
            DynV::Arr(arr) => if arr.len() != ts.len() {
                Err(ErrorKindV::ArrayIndexOutOfBounds(ts.len() as int, arr.len() as int))
            } else {
                match de_tuple(ts, arr, 0, Seq::empty()) {
                    Ok(rs) => Ok(StructV::TupleStruct(rs)),
                    Err(e) => Err(e),
                }
            },
            _ => Err(ErrorKindV::UnableToCoerce("array"@)),
        },
        SchemaV::MapOf(kt, vt) => match d {
            DynV::Obj(props) => match de_entries(SchemaV::MapOf(kt, vt), props, 0, Seq::empty()) {
                Ok(ps) => Ok(StructV::MapOf(ps)),
                Err(e) => Err(e),
            },
            _ => Err(ErrorKindV::UnableToCoerce("object"@)),
        },
        SchemaV::Struct(fields) => match d {
            DynV::Obj(props) => match de_struct(fields, props, 0, Seq::empty()) {
                Ok(fs) => Ok(StructV::Struct(fs)),
                Err(e) => Err(e),
            },
            _ => Err(ErrorKindV::UnableToCoerce("object"@)),
        },
        SchemaV::Enum(vs) => match d {
            DynV::Str(n) => {
                let j = find_variant(vs, n);
                proof {
                    lemma_find_variant(vs, n);
                }
                if j < 0 {
                    Err(ErrorKindV::Custom(n))
                } else if vs[j] is Unit {
                    Ok(StructV::UnitVariant(n))
                } else {
                    Err(ErrorKindV::Custom(n))
                }
            },
            DynV::Obj(props) => if props.len() != 1 {
                Err(
                    ErrorKindV::InvalidKeyType(
                        if props.len() == 0 {
                            Seq::empty()
                        } else {
                            props[1].0
                        },
                    ),
                )
            } else {
                let n = props[0].0;
                let payload = props[0].1;
                let j = find_variant(vs, n);
                proof {
                    lemma_find_variant(vs, n);
                }
                if j < 0 {
                    Err(ErrorKindV::Custom(n))
                } else {
                    match vs[j] {
                        VariantV::Unit(_) => if payload is Null || payload is Undefined {
                            Ok(StructV::UnitVariant(n))
                        } else {
                            Err(ErrorKindV::ExpectingNull)
                        },
                        VariantV::Newtype(_, ts) => match de_spec(*ts, payload) {
                            Ok(r) => Ok(StructV::NewtypeVariant(n, Box::new(r))),
                            Err(e) => Err(e),
                        },
                        VariantV::Tuple(_, tss) => match payload {
                            DynV::Arr(arr2) => if arr2.len() != tss.len() {
                                Err(
                                    ErrorKindV::ArrayIndexOutOfBounds(
                                        tss.len() as int,
                                        arr2.len() as int,
                                    ),
                                )
                            } else {
                                match de_tuple(tss, arr2, 0, Seq::empty()) {
                                    Ok(rs) => Ok(StructV::TupleVariant(n, rs)),
                                    Err(e) => Err(e),
                                }
                            },
                            _ => Err(ErrorKindV::UnableToCoerce("array"@)),
                        },
                        VariantV::Struct(_, fls) => match payload {
                            DynV::Obj(p2) => match de_struct(fls, p2, 0, Seq::empty()) {
                                Ok(fs) => Ok(StructV::StructVariant(n, fs)),
                                Err(e) => Err(e),
                            },
                            _ => Err(ErrorKindV::UnableToCoerce("object"@)),
                        },
                    }
                }
            },
            _ => Err(ErrorKindV::UnableToCoerce("enum"@)),
        },
    }
}

/// Finds the first declared variant named `name`, as an index.
fn find_variant_exec(vs: &Vec<Variant>, name: &String) -> (r: Option<usize>)
    ensures
        match r {
            Option::Some(i) => 0 <= i < vs@.len() && find_variant(view_variants(vs@), name@) == i,
            Option::None => find_variant(view_variants(vs@), name@) == -1,
        },
{
    proof {
        lemma_view_variants(vs@);
        lemma_find_variant(view_variants(vs@), name@);
    }
    let ghost vsv = view_variants(vs@);
    let mut i: usize = 0;
    while i < vs.len()
        invariant
            0 <= i <= vs@.len(),
            vsv == view_variants(vs@),
            vsv.len() == vs@.len(),
            forall|j: int| 0 <= j < vs@.len() ==> vsv[j] == vs@[j]@,
            forall|j: int| 0 <= j < i ==> variant_name(vsv[j]) != name@,
            find_variant(vsv, name@) == -1 || (0 <= find_variant(vsv, name@) < vs@.len()),
            find_variant(vsv, name@) == -1 ==> forall|j: int|
                0 <= j < vs@.len() ==> variant_name(vsv[j]) != name@,
            find_variant(vsv, name@) >= 0 ==> variant_name(vsv[find_variant(vsv, name@)]) == name@,
            find_variant(vsv, name@) >= 0 ==> forall|j: int|
                0 <= j < find_variant(vsv, name@) ==> variant_name(vsv[j]) != name@,
        decreases vs@.len() - i,
    {
        let nm: &String = match &vs[i] {
            Variant::Unit(n) => n,
            Variant::Newtype(n, _) => n,
            Variant::Tuple(n, _) => n,
            Variant::Struct(n, _) => n,
        };
        if nm.eq(name) {
            assert(variant_name(vsv[i as int]) == name@);
            return Option::Some(i);
        }
        assert(variant_name(vsv[i as int]) != name@);
        i = i + 1;
    }
    Option::None
}

/// Decodes every element of `arr` against the element shape `el`, in order;
/// the vector of results, or the first failure.
fn de_vec(el: &Schema, arr: &Vec<DynValue>) -> (r: Result<Vec<StructValue>, Error>)
    ensures
        match r {
            Ok(out) => de_items(el@, view_elems(arr@), 0, Seq::empty()) == Ok::<_, ErrorKindV>(
                view_svals(out@),
            ),
            Err(e) => de_items(el@, view_elems(arr@), 0, Seq::empty()) == Err::<Seq<StructV>, _>(
                e@,
            ),
        },
    decreases el, arr,
{
    let ghost arrv = view_elems(arr@);
    proof {
        lemma_view_elems(arr@);
        lemma_view_svals(Seq::<StructValue>::empty());
        assert(view_svals(Seq::<StructValue>::empty()) =~= Seq::<StructV>::empty());
    }
    let mut out: Vec<StructValue> = Vec::new();
    let mut i: usize = 0;
    while i < arr.len()
        invariant
            0 <= i <= arr@.len(),
            arrv == view_elems(arr@),
            arrv.len() == arr@.len(),
            out@.len() == i,
            de_items(el@, arrv, 0, Seq::empty()) == de_items(el@, arrv, i as int, view_svals(out@)),
        decreases arr@.len() - i,
    {
        proof {
            assert(decreases_to!(arr => arr@));
            assert(decreases_to!(arr@ => arr@[i as int]));
            lemma_view_elems(arr@);
        }
        let ghost cur = view_svals(out@);
        let ghost preseq = out@;
        proof {
            lemma_view_svals(preseq);
        }
        match from_value(el, &arr[i]) {
            Ok(v) => {
                let ghost vv = v@;
                out.push(v);
                proof {
                    lemma_view_svals(out@);
                    assert(view_svals(out@) =~= cur.push(vv));
                    assert(de_spec(el@, arrv[i as int]) == Ok::<_, ErrorKindV>(vv));
                    assert(de_items(el@, arrv, i as int, cur) == de_items(
                        el@,
                        arrv,
                        i + 1,
                        cur.push(vv),
                    ));
                }
            },
            Err(e) => {
                proof {
                    assert(de_spec(el@, arrv[i as int]) == Err::<StructV, _>(e@));
                    assert(de_items(el@, arrv, i as int, cur) == Err::<Seq<StructV>, _>(e@));
                }
                return Err(e);
            },
        }
        i = i + 1;
    }
    Ok(out)
}

/// Decodes the elements of `arr` against the fixed shapes `ts`, position by
/// position; the caller has checked that the arity matches.
fn de_tuple_vec(ts: &Vec<Schema>, arr: &Vec<DynValue>) -> (r: Result<Vec<StructValue>, Error>)
    requires
        arr@.len() == ts@.len(),
    ensures
        match r {
            Ok(out) => de_tuple(view_schemas(ts@), view_elems(arr@), 0, Seq::empty()) == Ok::<
                _,
                ErrorKindV,
            >(view_svals(out@)),
            Err(e) => de_tuple(view_schemas(ts@), view_elems(arr@), 0, Seq::empty()) == Err::<
                Seq<StructV>,
                _,
            >(e@),
        },
    decreases ts, arr,
{
    let ghost tsv = view_schemas(ts@);
    let ghost arrv = view_elems(arr@);
    proof {
        lemma_view_schemas(ts@);
        lemma_view_elems(arr@);
        lemma_view_svals(Seq::<StructValue>::empty());
        assert(view_svals(Seq::<StructValue>::empty()) =~= Seq::<StructV>::empty());
    }
    let mut out: Vec<StructValue> = Vec::new();
    let mut i: usize = 0;
    while i < ts.len()
        invariant
            0 <= i <= ts@.len(),
            tsv == view_schemas(ts@),
            arrv == view_elems(arr@),
            tsv.len() == ts@.len(),
            arrv.len() == arr@.len(),
            arr@.len() == ts@.len(),
            out@.len() == i,
            de_tuple(tsv, arrv, 0, Seq::empty()) == de_tuple(tsv, arrv, i as int, view_svals(out@)),
        decreases ts@.len() - i,
    {
        proof {
            assert(decreases_to!(ts => ts@));
            assert(decreases_to!(ts@ => ts@[i as int]));
            lemma_view_schemas(ts@);
            lemma_view_elems(arr@);
        }
        let ghost cur = view_svals(out@);
        let ghost preseq = out@;
        proof {
            lemma_view_svals(preseq);
        }
        match from_value(&ts[i], &arr[i]) {
            Ok(v) => {
                let ghost vv = v@;
                out.push(v);
                proof {
                    lemma_view_svals(out@);
                    assert(view_svals(out@) =~= cur.push(vv));
                    assert(de_spec(tsv[i as int], arrv[i as int]) == Ok::<_, ErrorKindV>(vv));
                    assert(de_tuple(tsv, arrv, i as int, cur) == de_tuple(
                        tsv,
                        arrv,
                        i + 1,
                        cur.push(vv),
                    ));
                }
            },
            Err(e) => {
                proof {
                    assert(de_spec(tsv[i as int], arrv[i as int]) == Err::<StructV, _>(e@));
                    assert(de_tuple(tsv, arrv, i as int, cur) == Err::<Seq<StructV>, _>(e@));
                }
                return Err(e);
            },
        }
        i = i + 1;
    }
    Ok(out)
}

/// Decodes an object against declared struct fields, field by field: a
/// present property feeds the field's shape, an absent one takes the field's
/// default or fails with the field's name; unknown properties are ignored.
fn de_fields_vec(fields: &Vec<Field>, props: &Vec<(String, DynValue)>) -> (r: Result<
    Vec<(String, StructValue)>,
    Error,
>)
    ensures
        match r {
            Ok(out) => de_struct(view_fields(fields@), view_props(props@), 0, Seq::empty())
                == Ok::<_, ErrorKindV>(view_sfields(out@)),
            Err(e) => de_struct(view_fields(fields@), view_props(props@), 0, Seq::empty()) == Err::<
                Seq<(Seq<char>, StructV)>,
                _,
            >(e@),
        },
    decreases fields, props,
{
    let ghost fsv = view_fields(fields@);
    let ghost psv = view_props(props@);
    proof {
        lemma_view_fields(fields@);
        lemma_view_props(props@);
        lemma_view_sfields(Seq::<(String, StructValue)>::empty());
        assert(view_sfields(Seq::<(String, StructValue)>::empty()) =~= Seq::<
            (Seq<char>, StructV),
        >::empty());
    }
    let mut out: Vec<(String, StructValue)> = Vec::new();
    let mut i: usize = 0;
    while i < fields.len()
        invariant
            0 <= i <= fields@.len(),
            fsv == view_fields(fields@),
            psv == view_props(props@),
            fsv.len() == fields@.len(),
            forall|j: int| 0 <= j < fields@.len() ==> fsv[j] == fields@[j]@,
            de_struct(fsv, psv, 0, Seq::empty()) == de_struct(
                fsv,
                psv,
                i as int,
                view_sfields(out@),
            ),
        decreases fields@.len() - i,
    {
        proof {
            assert(decreases_to!(fields => fields@));
            assert(decreases_to!(fields@ => fields@[i as int]));
            assert(decreases_to!(fields@[i as int] => fields@[i as int].schema));
            lemma_view_fields(fields@);
            lemma_view_props(props@);
        }
        let ghost cur = view_sfields(out@);
        let f = &fields[i];
        let ghost fv = fsv[i as int];
        let fetched = match obj_find(props, &f.name) {
            Option::Some(j) => {
                proof {
                    assert(obj_get(psv, fv.name) == Option::Some(psv[j as int].1));
                }
                match from_value(&f.schema, &props[j].1) {
                    Ok(v) => v,
                    Err(e) => {
                        proof {
                            assert(de_spec(fv.schema, psv[j as int].1) == Err::<StructV, _>(e@));
                            assert(de_struct(fsv, psv, i as int, cur) == Err::<
                                Seq<(Seq<char>, StructV)>,
                                _,
                            >(e@));
                        }
                        return Err(e);
                    },
                }
            },
            Option::None => {
                proof {
                    assert(obj_get(psv, fv.name) is None);
                }
                match &f.dflt {
                    Option::Some(d) => d.duplicate(),
                    Option::None => {
                        proof {
                            assert(de_struct(fsv, psv, i as int, cur) == Err::<
                                Seq<(Seq<char>, StructV)>,
                                _,
                            >(ErrorKindV::Custom(fv.name)));
                        }
                        return Err(Error(ErrorKind::Custom(f.name.clone())));
                    },
                }
            },
        };
        let ghost vv = fetched@;
        let ghost preseq = out@;
        let name = f.name.clone();
        out.push((name, fetched));
        proof {
            lemma_view_sfields(preseq);
            lemma_view_sfields(out@);
            assert(view_sfields(out@) =~= cur.push((fv.name, vv)));
            assert(de_struct(fsv, psv, i as int, cur) == de_struct(
                fsv,
                psv,
                i + 1,
                cur.push((fv.name, vv)),
            ));
        }
        i = i + 1;
    }
    Ok(out)
}

/// Decodes a dynamic value at the target shape `t`; returns exactly what
/// [`de_spec`] gives, success and failure alike.
#[verifier::loop_isolation(false)]
pub fn from_value(t: &Schema, v: &DynValue) -> (r: Result<StructValue, Error>)
    ensures
        res_view(r) == de_spec(t@, v@),
    decreases t, v,
{
    match t {
        Schema::Unit => match v {
            DynValue::Null => Ok(StructValue::Unit),
            DynValue::Undefined => Ok(StructValue::Unit),
            _ => Err(Error(ErrorKind::ExpectingNull)),
        },
        Schema::UnitStruct => match v {
            DynValue::Null => Ok(StructValue::UnitStruct),
            DynValue::Undefined => Ok(StructValue::UnitStruct),
            _ => Err(Error(ErrorKind::ExpectingNull)),
        },
        Schema::Bool => match v {
            DynValue::Bool(b) => Ok(StructValue::Bool(*b)),
            _ => Err(Error(ErrorKind::UnableToCoerce(String::from_str("boolean")))),
        },
        Schema::I8 => match v {
            DynValue::Num(JsNumber::Int(i)) => {
                if -128 <= *i && *i <= 127 {
                    Ok(StructValue::I8(*i as i8))
                } else {
                    Err(Error(ErrorKind::UnableToCoerce(String::from_str("i8"))))
                }
            },
            _ => Err(Error(ErrorKind::UnableToCoerce(String::from_str("i8")))),
        },
        Schema::I16 => match v {
            DynValue::Num(JsNumber::Int(i)) => {
                if -32768 <= *i && *i <= 32767 {
                    Ok(StructValue::I16(*i as i16))
                } else {
                    Err(Error(ErrorKind::UnableToCoerce(String::from_str("i16"))))
                }
            },
            _ => Err(Error(ErrorKind::UnableToCoerce(String::from_str("i16")))),
        },
        Schema::I32 => match v {
            DynValue::Num(JsNumber::Int(i)) => {
                if -2147483648 <= *i && *i <= 2147483647 {
                    Ok(StructValue::I32(*i as i32))
                } else {
                    Err(Error(ErrorKind::UnableToCoerce(String::from_str("i32"))))
                }
            },
            _ => Err(Error(ErrorKind::UnableToCoerce(String::from_str("i32")))),
        },
        Schema::I64 => match v {
            DynValue::Num(JsNumber::Int(i)) => Ok(StructValue::I64(*i)),
            _ => Err(Error(ErrorKind::UnableToCoerce(String::from_str("i64")))),
        },
        Schema::U8 => match v {
            DynValue::Num(JsNumber::Int(i)) => {
                if 0 <= *i && *i <= 255 {
                    Ok(StructValue::U8(*i as u8))
                } else {
                    Err(Error(ErrorKind::UnableToCoerce(String::from_str("u8"))))
                }
            },
            _ => Err(Error(ErrorKind::UnableToCoerce(String::from_str("u8")))),
        },
        Schema::U16 => match v {
            DynValue::Num(JsNumber::Int(i)) => {
                if 0 <= *i && *i <= 65535 {
                    Ok(StructValue::U16(*i as u16))
                } else {
                    Err(Error(ErrorKind::UnableToCoerce(String::from_str("u16"))))
                }
            },
            _ => Err(Error(ErrorKind::UnableToCoerce(String::from_str("u16")))),
        },
        Schema::U32 => match v {
            DynValue::Num(JsNumber::Int(i)) => {
                if 0 <= *i && *i <= 4294967295 {
                    Ok(StructValue::U32(*i as u32))
                } else {
                    Err(Error(ErrorKind::UnableToCoerce(String::from_str("u32"))))
                }
            },
            _ => Err(Error(ErrorKind::UnableToCoerce(String::from_str("u32")))),
        },
        Schema::U64 => match v {
            DynValue::Num(JsNumber::Int(i)) => {
                if 0 <= *i {
                    Ok(StructValue::U64(*i as u64))
                } else {
                    Err(Error(ErrorKind::UnableToCoerce(String::from_str("u64"))))
                }
            },
            _ => Err(Error(ErrorKind::UnableToCoerce(String::from_str("u64")))),
        },
        Schema::Float => match v {
            DynValue::Num(n) => Ok(StructValue::Float(*n)),
            _ => Err(Error(ErrorKind::UnableToCoerce(String::from_str("number")))),
        },
        Schema::Char => match v {
            DynValue::Str(s) => {
                let len = s.as_str().unicode_len();
                if len == 0 {
                    Err(Error(ErrorKind::EmptyString))
                } else if len > 1 {
                    Err(Error(ErrorKind::StringTooLongForChar(len)))
                } else {
                    Ok(StructValue::Char(s.as_str().get_char(0)))
                }
            },
            _ => Err(Error(ErrorKind::UnableToCoerce(String::from_str("char")))),
        },
        Schema::Str => match v {
            DynValue::Str(s) => Ok(StructValue::Str(s.clone())),
            _ => Err(Error(ErrorKind::UnableToCoerce(String::from_str("string")))),
        },
        Schema::Bytes => match v {
            DynValue::Arr(arr) => {
                let ghost arrv = view_elems(arr@);
                proof {
                    lemma_view_elems(arr@);
                }
                let mut out: Vec<u8> = Vec::new();
                let mut i: usize = 0;
                while i < arr.len()
                    invariant
                        0 <= i <= arr@.len(),
                        arrv == view_elems(arr@),
                        arrv.len() == arr@.len(),
                        forall|j: int| 0 <= j < arr@.len() ==> arrv[j] == arr@[j]@,
                        de_bytes(arrv, 0, Seq::empty()) == de_bytes(arrv, i as int, out@),
                    decreases arr@.len() - i,
                {
                    let b: u8 = match &arr[i] {
                        DynValue::Num(JsNumber::Int(bi)) => {
                            if 0 <= *bi && *bi <= 255 {
                                *bi as u8
                            } else {
                                proof {
                                    assert(arrv[i as int] == arr@[i as int]@);
                                    assert(de_bytes(arrv, i as int, out@) == Err::<Seq<u8>, _>(
                                        ErrorKindV::UnableToCoerce("byte"@),
                                    ));
                                }
                                return Err(
                                    Error(ErrorKind::UnableToCoerce(String::from_str("byte"))),
                                );
                            }
                        },
                        _ => {
                            proof {
                                assert(arrv[i as int] == arr@[i as int]@);
                                assert(de_bytes(arrv, i as int, out@) == Err::<Seq<u8>, _>(
                                    ErrorKindV::UnableToCoerce("byte"@),
                                ));
                            }
                            return Err(Error(ErrorKind::UnableToCoerce(String::from_str("byte"))));
                        },
                    };
                    out.push(b);
                    i = i + 1;
                }
                Ok(StructValue::Bytes(out))
            },
            _ => Err(Error(ErrorKind::UnableToCoerce(String::from_str("bytes")))),
        },
        Schema::Opt(inner) => {
            let nullish = match v {
                DynValue::Null => true,
                DynValue::Undefined => true,
                _ => false,
            };
            if nullish {
                Ok(StructValue::OptNone)
            } else {
                match from_value(&**inner, v) {
                    Ok(r) => Ok(StructValue::OptSome(Box::new(r))),
                    Err(e) => Err(e),
                }
            }
        },
        Schema::NewtypeStruct(inner) => match from_value(&**inner, v) {
            Ok(r) => Ok(StructValue::NewtypeStruct(Box::new(r))),
            Err(e) => Err(e),
        },
        Schema::List(el) => match v {
            DynValue::Arr(arr) => match de_vec(&**el, arr) {
                Ok(out) => Ok(StructValue::List(out)),
                Err(e) => Err(e),
            },
            _ => Err(Error(ErrorKind::UnableToCoerce(String::from_str("array")))),
        },
        Schema::Tuple(ts) => match v {
            DynValue::Arr(arr) => {
                proof {
                    lemma_view_schemas(ts@);
                    lemma_view_elems(arr@);
                }
                if arr.len() != ts.len() {
                    Err(Error(ErrorKind::ArrayIndexOutOfBounds(ts.len(), arr.len())))
                } else {
                    match de_tuple_vec(ts, arr) {
                        Ok(out) => Ok(StructValue::Tuple(out)),
                        Err(e) => Err(e),
                    }
                }
            },
            _ => Err(Error(ErrorKind::UnableToCoerce(String::from_str("array")))),
        },
        Schema::TupleStruct(ts) => match v {
            DynValue::Arr(arr) => {
                proof {
                    lemma_view_schemas(ts@);
                    lemma_view_elems(arr@);
                }
                if arr.len() != ts.len() {
                    Err(Error(ErrorKind::ArrayIndexOutOfBounds(ts.len(), arr.len())))
                } else {
                    match de_tuple_vec(ts, arr) {
                        Ok(out) => Ok(StructValue::TupleStruct(out)),
                        Err(e) => Err(e),
                    }
                }
            },
            _ => Err(Error(ErrorKind::UnableToCoerce(String::from_str("array")))),
        },
        Schema::MapOf(kt, vt) => match v {
            DynValue::Obj(props) => {
                let ghost tv = t@;
                let ghost psv = view_props(props@);
                proof {
                    lemma_view_props(props@);
                    lemma_view_sentries(Seq::<(StructValue, StructValue)>::empty());
                    assert(view_sentries(Seq::<(StructValue, StructValue)>::empty()) =~= Seq::<
                        (StructV, StructV),
                    >::empty());
                }
                let mut out: Vec<(StructValue, StructValue)> = Vec::new();
                let mut i: usize = 0;
                while i < props.len()
                    invariant
                        0 <= i <= props@.len(),
                        tv == t@,
                        tv is MapOf,
                        *tv->MapOf_0 == (**kt)@,
                        *tv->MapOf_1 == (**vt)@,
                        psv == view_props(props@),
                        psv.len() == props@.len(),
                        forall|j: int| 0 <= j < props@.len() ==> psv[j] == (
                            props@[j].0@,
                            props@[j].1@,
                        ),
                        de_entries(tv, psv, 0, Seq::empty()) == de_entries(
                            tv,
                            psv,
                            i as int,
                            view_sentries(out@),
                        ),
                    decreases props@.len() - i,
                {
                    proof {
                        lemma_view_props(props@);
                    }
                    let ghost cur = view_sentries(out@);
                    let keydyn = DynValue::Str(props[i].0.clone());
                    proof {
                        assert(keydyn@ == DynV::Str(psv[i as int].0));
                    }
                    let k = match from_value(&**kt, &keydyn) {
                        Ok(k) => k,
                        Err(e) => {
                            proof {
                                assert(de_spec(*tv->MapOf_0, DynV::Str(psv[i as int].0)) == Err::<
                                    StructV,
                                    _,
                                >(e@));
                                assert(de_entries(tv, psv, i as int, cur) == Err::<
                                    Seq<(StructV, StructV)>,
                                    _,
                                >(e@));
                            }
                            return Err(e);
                        },
                    };
                    let w = match from_value(&**vt, &props[i].1) {
                        Ok(w) => w,
                        Err(e) => {
                            proof {
                                assert(de_spec(*tv->MapOf_1, psv[i as int].1) == Err::<
                                    StructV,
                                    _,
                                >(e@));
                                assert(de_entries(tv, psv, i as int, cur) == Err::<
                                    Seq<(StructV, StructV)>,
                                    _,
                                >(e@));
                            }
                            return Err(e);
                        },
                    };
                    let ghost kv = k@;
                    let ghost wv = w@;
                    let ghost preseq = out@;
                    out.push((k, w));
                    proof {
                        lemma_view_sentries(preseq);
                        lemma_view_sentries(out@);
                        assert(view_sentries(out@) =~= cur.push((kv, wv)));
                        assert(de_entries(tv, psv, i as int, cur) == de_entries(
                            tv,
                            psv,
                            i + 1,
                            cur.push((kv, wv)),
                        ));
                    }
                    i = i + 1;
                }
                Ok(StructValue::MapOf(out))
            },
            _ => Err(Error(ErrorKind::UnableToCoerce(String::from_str("object")))),
        },
        Schema::Struct(fields) => match v {
            DynValue::Obj(props) => match de_fields_vec(fields, props) {
                Ok(out) => Ok(StructValue::Struct(out)),
                Err(e) => Err(e),
            },
            _ => Err(Error(ErrorKind::UnableToCoerce(String::from_str("object")))),
        },
        Schema::Enum(vs) => match v {
            DynValue::Str(n) => {
                proof {
                    lemma_view_variants(vs@);
                    lemma_find_variant(view_variants(vs@), n@);
                }
                match find_variant_exec(vs, n) {
                    Option::None => Err(Error(ErrorKind::Custom(n.clone()))),
                    Option::Some(j) => match &vs[j] {
                        Variant::Unit(_) => Ok(StructValue::UnitVariant(n.clone())),
                        _ => Err(Error(ErrorKind::Custom(n.clone()))),
                    },
                }
            },
            DynValue::Obj(props) => {
                let ghost psv = view_props(props@);
                proof {
                    lemma_view_props(props@);
                }
                if props.len() != 1 {
                    let key = if props.len() == 0 {
                        String::new()
                    } else {
                        props[1].0.clone()
                    };
                    proof {
                        if props@.len() == 0 {
                            assert(key@ =~= Seq::<char>::empty());
                        }
                    }
                    return Err(Error(ErrorKind::InvalidKeyType(key)));
                }
                let vname = &props[0].0;
                let payload = &props[0].1;
                proof {
                    assert(psv[0] == (props@[0].0@, props@[0].1@));
                    lemma_view_variants(vs@);
                    lemma_find_variant(view_variants(vs@), vname@);
                }
                match find_variant_exec(vs, vname) {
                    Option::None => Err(Error(ErrorKind::Custom(vname.clone()))),
                    Option::Some(j) => {
                        proof {
                            assert(view_variants(vs@)[j as int] == vs@[j as int]@);
                        }
                        match &vs[j] {
                            Variant::Unit(_) => {
                                let nullish = match payload {
                                    DynValue::Null => true,
                                    DynValue::Undefined => true,
                                    _ => false,
                                };
                                if nullish {
                                    Ok(StructValue::UnitVariant(vname.clone()))
                                } else {
                                    Err(Error(ErrorKind::ExpectingNull))
                                }
                            },
                            Variant::Newtype(_, ts) => {
                                proof {
                                    assert(decreases_to!(vs => vs@));
                                    assert(decreases_to!(vs@ => vs@[j as int]));
                                }
                                match from_value(&**ts, payload) {
                                    Ok(r) => Ok(
                                        StructValue::NewtypeVariant(vname.clone(), Box::new(r)),
                                    ),
                                    Err(e) => Err(e),
                                }
                            },
                            Variant::Tuple(_, tss) => match payload {
                                DynValue::Arr(arr2) => {
                                    proof {
                                        lemma_view_schemas(tss@);
                                        lemma_view_elems(arr2@);
                                    }
                                    if arr2.len() != tss.len() {
                                        Err(
                                            Error(
                                                ErrorKind::ArrayIndexOutOfBounds(
                                                    tss.len(),
                                                    arr2.len(),
                                                ),
                                            ),
                                        )
                                    } else {
                                        proof {
                                            assert(decreases_to!(vs => vs@));
                                            assert(decreases_to!(vs@ => vs@[j as int]));
                                        }
                                        match de_tuple_vec(tss, arr2) {
                                            Ok(out) => Ok(
                                                StructValue::TupleVariant(vname.clone(), out),
                                            ),
                                            Err(e) => Err(e),
                                        }
                                    }
                                },
                                _ => Err(
                                    Error(ErrorKind::UnableToCoerce(String::from_str("array"))),
                                ),
                            },
                            Variant::Struct(_, fls) => match payload {
                                DynValue::Obj(p2) => {
                                    proof {
                                        assert(decreases_to!(vs => vs@));
                                        assert(decreases_to!(vs@ => vs@[j as int]));
                                    }
                                    match de_fields_vec(fls, p2) {
                                        Ok(out) => Ok(
                                            StructValue::StructVariant(vname.clone(), out),
                                        ),
                                        Err(e) => Err(e),
                                    }
                                },
                                _ => Err(
                                    Error(ErrorKind::UnableToCoerce(String::from_str("object"))),
                                ),
                            },
                        }
                    },
                }
            },
            _ => Err(Error(ErrorKind::UnableToCoerce(String::from_str("enum")))),
        },
    }
}

/// Decodes an input that may be absent: absence is treated exactly like an
/// undefined dynamic value, so an option target collapses it to none.
pub fn from_value_opt(t: &Schema, v: Option<&DynValue>) -> (r: Result<StructValue, Error>)
    ensures
        match v {
            Option::Some(d) => res_view(r) == de_spec(t@, d@),
            Option::None => res_view(r) == de_spec(t@, DynV::Undefined),
        },
{
    match v {
        Option::Some(d) => from_value(t, d),
        Option::None => from_value(t, &DynValue::Undefined),
    }
}

} // verus!
