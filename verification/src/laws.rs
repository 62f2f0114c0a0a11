//! The laws the conversion engine obeys, stated and proved over the
//! specification functions that the executable contracts are pinned to.

use vstd::prelude::*;

use crate::de::{de_bytes, de_entries, de_items, de_spec, de_struct, de_tuple, find_variant};
use crate::errors::ErrorKindV;
use crate::num::JsNumber;
use crate::ser::{bytes_dyn, ser_entries, ser_fields, ser_items, ser_spec, MAX_STRING_LEN};
use crate::value::{
    dyn_wf, kind_name_spec, lemma_obj_index_of, obj_get, obj_index_of, obj_insert, obj_keys_unique,
    DynV, FieldV, SchemaV, StructV,
};

verus! {

/// Option collapsing: both null and undefined decode to none at an option
/// target; any other dynamic value decodes to some of whatever the inner
/// shape makes of it, errors included.
pub proof fn lemma_option_collapsing(t: SchemaV, d: DynV)
    ensures
        de_spec(SchemaV::Opt(Box::new(t)), DynV::Null) == Ok::<_, ErrorKindV>(StructV::OptNone),
        de_spec(SchemaV::Opt(Box::new(t)), DynV::Undefined) == Ok::<_, ErrorKindV>(
            StructV::OptNone,
        ),
        !(d is Null) && !(d is Undefined) ==> de_spec(SchemaV::Opt(Box::new(t)), d) == match de_spec(
            t,
            d,
        ) {
            Ok(r) => Ok(StructV::OptSome(Box::new(r))),
            Err(e) => Err(e),
        },
{
}

/// Char decoding: an empty string fails with `EmptyString`, a string of two
/// or more characters fails with `StringTooLongForChar` carrying the actual
/// length, and a one-character string decodes to exactly that character.
pub proof fn lemma_char_decoding(s: Seq<char>)
    ensures
        s.len() == 0 ==> de_spec(SchemaV::Char, DynV::Str(s)) == Err::<StructV, _>(
            ErrorKindV::EmptyString,
        ),
        s.len() > 1 ==> de_spec(SchemaV::Char, DynV::Str(s)) == Err::<StructV, _>(
            ErrorKindV::StringTooLongForChar(s.len() as int),
        ),
        s.len() == 1 ==> de_spec(SchemaV::Char, DynV::Str(s)) == Ok::<_, ErrorKindV>(
            StructV::Char(s[0]),
        ),
{
}

/// Array bounds: tuple decoding from an array of the wrong length fails
/// deterministically, with the expected arity and the actual length.
pub proof fn lemma_array_bounds(ts: Seq<SchemaV>, arr: Seq<DynV>)
    ensures
        arr.len() != ts.len() ==> de_spec(SchemaV::Tuple(ts), DynV::Arr(arr)) == Err::<StructV, _>(
            ErrorKindV::ArrayIndexOutOfBounds(ts.len() as int, arr.len() as int),
        ),
        arr.len() != ts.len() ==> de_spec(SchemaV::TupleStruct(ts), DynV::Arr(arr)) == Err::<
            StructV,
            _,
        >(ErrorKindV::ArrayIndexOutOfBounds(ts.len() as int, arr.len() as int)),
{
}

/// Helper for the map-key law: once every entry before `k` has gone through
/// cleanly, a key at `k` that serializes to a non-string sinks the whole map.
proof fn lemma_entries_key_err(
    ps: Seq<(StructV, StructV)>,
    i: int,
    k: int,
    acc: Seq<(Seq<char>, DynV)>,
    d: DynV,
)
    requires
        0 <= i <= k < ps.len(),
        forall|j: int|
            i <= j < k ==> (#[trigger] ser_spec(ps[j].0)) is Ok && ser_spec(ps[j].0)->Ok_0 is Str
                && ser_spec(ps[j].1) is Ok,
        ser_spec(ps[k].0) == Ok::<_, ErrorKindV>(d),
        !(d is Str),
    ensures
        ser_entries(ps, i, acc) == Err::<Seq<(Seq<char>, DynV)>, _>(
            ErrorKindV::InvalidKeyType(kind_name_spec(d)),
        ),
    decreases k - i,
{
    if i < k {
        lemma_entries_key_err(
            ps,
            i + 1,
            k,
            crate::value::obj_insert(acc, ser_spec(ps[i].0)->Ok_0->Str_0, ser_spec(ps[i].1)->Ok_0),
            d,
        );
    }
}

/// Map key rejection: serializing a map fails with `InvalidKeyType` as soon
/// as a key does not serialize to a string, once every earlier entry has
/// gone through cleanly. The error carries the runtime kind the key
/// serialized to.
pub proof fn lemma_map_key_rejection(ps: Seq<(StructV, StructV)>, k: int, d: DynV)
    requires
        0 <= k < ps.len(),
        forall|j: int|
            0 <= j < k ==> (#[trigger] ser_spec(ps[j].0)) is Ok && ser_spec(ps[j].0)->Ok_0 is Str
                && ser_spec(ps[j].1) is Ok,
        ser_spec(ps[k].0) == Ok::<_, ErrorKindV>(d),
        !(d is Str),
    ensures
        ser_spec(StructV::MapOf(ps)) == Err::<DynV, _>(
            ErrorKindV::InvalidKeyType(kind_name_spec(d)),
        ),
{
    lemma_entries_key_err(ps, 0, k, Seq::empty(), d);
}

/// Helper for the struct laws: decoding the declared fields from `i` on
/// succeeds when each remaining field is either present and decodes, or
/// absent with a default.
proof fn lemma_struct_fields_ok(
    fields: Seq<FieldV>,
    props: Seq<(Seq<char>, DynV)>,
    i: int,
    acc: Seq<(Seq<char>, StructV)>,
)
    requires
        0 <= i <= fields.len(),
        forall|j: int|
            i <= j < fields.len() ==> match obj_get(props, (#[trigger] fields[j]).name) {
                Option::Some(pv) => de_spec(fields[j].schema, pv) is Ok,
                Option::None => fields[j].dflt is Some,
            },
    ensures
        de_struct(fields, props, i, acc) is Ok,
    decreases fields.len() - i,
{
    if i < fields.len() {
        match obj_get(props, fields[i].name) {
            Option::Some(pv) => {
                lemma_struct_fields_ok(
                    fields,
                    props,
                    i + 1,
                    acc.push((fields[i].name, de_spec(fields[i].schema, pv)->Ok_0)),
                );
            },
            Option::None => {
                lemma_struct_fields_ok(
                    fields,
                    props,
                    i + 1,
                    acc.push((fields[i].name, fields[i].dflt->0)),
                );
            },
        }
    }
}

/// Struct partial input, first half: decoding a struct from an object does
/// not fail when every declared field is either present with a decodable
/// value or absent with a default.
pub proof fn lemma_struct_partial_input(fields: Seq<FieldV>, props: Seq<(Seq<char>, DynV)>)
    requires
        forall|j: int|
            0 <= j < fields.len() ==> match obj_get(props, (#[trigger] fields[j]).name) {
                Option::Some(pv) => de_spec(fields[j].schema, pv) is Ok,
                Option::None => fields[j].dflt is Some,
            },
    ensures
        de_spec(SchemaV::Struct(fields), DynV::Obj(props)) is Ok,
{
    lemma_struct_fields_ok(fields, props, 0, Seq::empty());
}

/// Helper for the unknown-property law: field decoding reads the object only
/// through the declared field names.
proof fn lemma_struct_fields_same(
    fields: Seq<FieldV>,
    props1: Seq<(Seq<char>, DynV)>,
    props2: Seq<(Seq<char>, DynV)>,
    i: int,
    acc: Seq<(Seq<char>, StructV)>,
)
    requires
        forall|j: int|
            0 <= j < fields.len() ==> obj_get(props1, (#[trigger] fields[j]).name) == obj_get(
                props2,
                fields[j].name,
            ),
    ensures
        de_struct(fields, props1, i, acc) == de_struct(fields, props2, i, acc),
    decreases fields.len() - i,
{
    if 0 <= i < fields.len() {
        match obj_get(props1, fields[i].name) {
            Option::Some(pv) => {
                if de_spec(fields[i].schema, pv) is Ok {
                    lemma_struct_fields_same(
                        fields,
                        props1,
                        props2,
                        i + 1,
                        acc.push((fields[i].name, de_spec(fields[i].schema, pv)->Ok_0)),
                    );
                }
            },
            Option::None => {
                if fields[i].dflt is Some {
                    lemma_struct_fields_same(
                        fields,
                        props1,
                        props2,
                        i + 1,
                        acc.push((fields[i].name, fields[i].dflt->0)),
                    );
                }
            },
        }
    }
}

/// Struct partial input, second half: two objects that agree on every
/// declared field name decode identically, so unknown extra properties are
/// ignored.
pub proof fn lemma_struct_unknown_props(
    fields: Seq<FieldV>,
    props1: Seq<(Seq<char>, DynV)>,
    props2: Seq<(Seq<char>, DynV)>,
)
    requires
        forall|j: int|
            0 <= j < fields.len() ==> obj_get(props1, (#[trigger] fields[j]).name) == obj_get(
                props2,
                fields[j].name,
            ),
    ensures
        de_spec(SchemaV::Struct(fields), DynV::Obj(props1)) == de_spec(
            SchemaV::Struct(fields),
            DynV::Obj(props2),
        ),
{
    lemma_struct_fields_same(fields, props1, props2, 0, Seq::empty());
}

/// The documented dynamic shape of each enum-variant kind: a unit variant is
/// the bare variant name; the other three are a one-property object whose
/// name selects the variant and whose value carries the payload in its
/// documented form.
pub proof fn lemma_enum_encoding(
    n: Seq<char>,
    x: StructV,
    es: Seq<StructV>,
    fs: Seq<(Seq<char>, StructV)>,
)
    requires
        n.len() <= MAX_STRING_LEN,
    ensures
        ser_spec(StructV::UnitVariant(n)) == Ok::<_, ErrorKindV>(DynV::Str(n)),
        ser_spec(x) is Ok ==> ser_spec(StructV::NewtypeVariant(n, Box::new(x))) == Ok::<
            _,
            ErrorKindV,
        >(DynV::Obj(seq![(n, ser_spec(x)->Ok_0)])),
        ser_items(es, 0, Seq::empty()) is Ok ==> ser_spec(StructV::TupleVariant(n, es)) == Ok::<
            _,
            ErrorKindV,
        >(DynV::Obj(seq![(n, DynV::Arr(ser_items(es, 0, Seq::empty())->Ok_0))])),
        ser_fields(fs, 0, Seq::empty()) is Ok ==> ser_spec(StructV::StructVariant(n, fs)) == Ok::<
            _,
            ErrorKindV,
        >(DynV::Obj(seq![(n, DynV::Obj(ser_fields(fs, 0, Seq::empty())->Ok_0))])),
{
}

/// Whether a structured value is one of those a target shape describes:
/// exactly the values whose decoded forms the shape can produce.
pub open spec fn matches_schema(s: StructV, t: SchemaV) -> bool
    decreases s,
{
    match (s, t) {
        (StructV::Unit, SchemaV::Unit) => true,
        (StructV::Bool(_), SchemaV::Bool) => true,
        (StructV::I8(_), SchemaV::I8) => true,
        (StructV::I16(_), SchemaV::I16) => true,
        (StructV::I32(_), SchemaV::I32) => true,
        (StructV::I64(_), SchemaV::I64) => true,
        (StructV::U8(_), SchemaV::U8) => true,
        (StructV::U16(_), SchemaV::U16) => true,
        (StructV::U32(_), SchemaV::U32) => true,
        (StructV::U64(_), SchemaV::U64) => true,
        (StructV::Float(_), SchemaV::Float) => true,
        (StructV::Char(_), SchemaV::Char) => true,
        (StructV::Str(_), SchemaV::Str) => true,
        (StructV::Bytes(_), SchemaV::Bytes) => true,
        (StructV::OptNone, SchemaV::Opt(_)) => true,
        (StructV::OptSome(x), SchemaV::Opt(inner)) => matches_schema(*x, *inner),
        (StructV::UnitStruct, SchemaV::UnitStruct) => true,
        (StructV::NewtypeStruct(x), SchemaV::NewtypeStruct(inner)) => matches_schema(*x, *inner),
        (StructV::List(es), SchemaV::List(el)) => forall|i: int|
            0 <= i < es.len() ==> matches_schema(#[trigger] es[i], *el),
        (StructV::Tuple(es), SchemaV::Tuple(ts)) => es.len() == ts.len() && forall|i: int|
            0 <= i < es.len() ==> matches_schema(#[trigger] es[i], ts[i]),
        (StructV::TupleStruct(es), SchemaV::TupleStruct(ts)) => es.len() == ts.len()
            && forall|i: int| 0 <= i < es.len() ==> matches_schema(#[trigger] es[i], ts[i]),
        (StructV::MapOf(ps), SchemaV::MapOf(kt, vt)) => forall|i: int|
            0 <= i < ps.len() ==> matches_schema((#[trigger] ps[i]).0, *kt) && matches_schema(
                ps[i].1,
                *vt,
            ),
        (StructV::Struct(fs), SchemaV::Struct(fields)) => fs.len() == fields.len() && forall|i: int|
            0 <= i < fs.len() ==> (#[trigger] fs[i]).0 == fields[i].name && matches_schema(
                fs[i].1,
                fields[i].schema,
            ),
        (StructV::UnitVariant(n), SchemaV::Enum(vs)) => {
            let j = find_variant(vs, n);
            0 <= j < vs.len() && vs[j] is Unit
        },
        (StructV::NewtypeVariant(n, x), SchemaV::Enum(vs)) => {
            let j = find_variant(vs, n);
            0 <= j < vs.len() && vs[j] is Newtype && matches_schema(*x, *vs[j]->Newtype_1)
        },
        (StructV::TupleVariant(n, es), SchemaV::Enum(vs)) => {
            let j = find_variant(vs, n);
            0 <= j < vs.len() && vs[j] is Tuple && es.len() == vs[j]->Tuple_1.len() && forall|i: int|
                0 <= i < es.len() ==> matches_schema(#[trigger] es[i], vs[j]->Tuple_1[i])
        },
        (StructV::StructVariant(n, fs), SchemaV::Enum(vs)) => {
            let j = find_variant(vs, n);
            0 <= j < vs.len() && vs[j] is Struct && fs.len() == vs[j]->Struct_1.len() && forall|
                i: int,
            |
                0 <= i < fs.len() ==> (#[trigger] fs[i]).0 == vs[j]->Struct_1[i].name
                    && matches_schema(fs[i].1, vs[j]->Struct_1[i].schema)
        },
        _ => false,
    }
}

/// Whether a structured value survives the trip through the dynamic side
/// without loss: no some-of-null (which collapses to none), no two map keys
/// that serialize to the same string, no two struct fields with one name.
pub open spec fn rt_safe(s: StructV) -> bool
    decreases s,
{
    match s {
        StructV::OptSome(x) => ser_spec(*x) != Ok::<_, ErrorKindV>(DynV::Null) && ser_spec(*x)
            != Ok::<_, ErrorKindV>(DynV::Undefined) && rt_safe(*x),
        StructV::NewtypeStruct(x) => rt_safe(*x),
        StructV::List(es) => forall|i: int| 0 <= i < es.len() ==> rt_safe(#[trigger] es[i]),
        StructV::Tuple(es) => forall|i: int| 0 <= i < es.len() ==> rt_safe(#[trigger] es[i]),
        StructV::TupleStruct(es) => forall|i: int| 0 <= i < es.len() ==> rt_safe(#[trigger] es[i]),
        StructV::MapOf(ps) => (forall|i: int|
            0 <= i < ps.len() ==> rt_safe((#[trigger] ps[i]).0) && rt_safe(ps[i].1)) && forall|
            i: int,
            j: int,
        | 0 <= i < j < ps.len() ==> ser_spec(ps[i].0) != ser_spec(ps[j].0),
        StructV::Struct(fs) => (forall|i: int|
            0 <= i < fs.len() ==> rt_safe((#[trigger] fs[i]).1)) && forall|i: int, j: int|
            0 <= i < j < fs.len() ==> fs[i].0 != fs[j].0,
        StructV::NewtypeVariant(_, x) => rt_safe(*x),
        StructV::TupleVariant(_, es) => forall|i: int|
            0 <= i < es.len() ==> rt_safe(#[trigger] es[i]),
        StructV::StructVariant(_, fs) => (forall|i: int|
            0 <= i < fs.len() ==> rt_safe((#[trigger] fs[i]).1)) && forall|i: int, j: int|
            0 <= i < j < fs.len() ==> fs[i].0 != fs[j].0,
        _ => true,
    }
}

/// The serialized form of one map entry: the key's string and the value's
/// dynamic form.
pub open spec fn entry_dyn(p: (StructV, StructV)) -> (Seq<char>, DynV) {
    (ser_spec(p.0)->Ok_0->Str_0, ser_spec(p.1)->Ok_0)
}

/// What a successful element serialization looks like: the result extends
/// the accumulator with one dynamic value per element.
proof fn lemma_ser_items_shape(es: Seq<StructV>, i: int, acc: Seq<DynV>, ds: Seq<DynV>)
    requires
        0 <= i <= es.len(),
        acc.len() == i,
        ser_items(es, i, acc) == Ok::<_, ErrorKindV>(ds),
    ensures
        ds.len() == es.len(),
        ds.take(i) == acc,
        forall|j: int|
            i <= j < es.len() ==> (#[trigger] ser_spec(es[j])) is Ok && ds[j] == ser_spec(
                es[j],
            )->Ok_0,
    decreases es.len() - i,
{
    if i < es.len() {
        let d = ser_spec(es[i])->Ok_0;
        lemma_ser_items_shape(es, i + 1, acc.push(d), ds);
        assert(ds.take(i) =~= acc) by {
            assert(ds.take(i + 1) == acc.push(d));
            assert forall|j: int| 0 <= j < i implies ds[j] == acc[j] by {
                assert(ds.take(i + 1)[j] == acc.push(d)[j]);
            }
        }
        assert(ds[i] == d) by {
            assert(ds.take(i + 1)[i] == acc.push(d)[i]);
        }
    } else {
        assert(ds.take(i) =~= acc);
    }
}

/// What a successful map serialization looks like: one property per entry,
/// in order, when no two keys serialize alike.
proof fn lemma_ser_entries_shape(
    ps: Seq<(StructV, StructV)>,
    i: int,
    acc: Seq<(Seq<char>, DynV)>,
    obj: Seq<(Seq<char>, DynV)>,
)
    requires
        0 <= i <= ps.len(),
        acc.len() == i,
        forall|j: int| 0 <= j < i ==> acc[j] == entry_dyn(ps[j]),
        forall|j: int|
            0 <= j < i ==> (#[trigger] ser_spec(ps[j].0)) is Ok && ser_spec(ps[j].0)->Ok_0 is Str
                && ser_spec(ps[j].1) is Ok,
        forall|j1: int, j2: int| 0 <= j1 < j2 < ps.len() ==> ser_spec(ps[j1].0) != ser_spec(
            ps[j2].0,
        ),
        ser_entries(ps, i, acc) == Ok::<_, ErrorKindV>(obj),
    ensures
        obj.len() == ps.len(),
        forall|j: int|
            0 <= j < ps.len() ==> (#[trigger] ser_spec(ps[j].0)) is Ok && ser_spec(
                ps[j].0,
            )->Ok_0 is Str && ser_spec(ps[j].1) is Ok && obj[j] == entry_dyn(ps[j]),
    decreases ps.len() - i,
{
    if i < ps.len() {
        let kd = ser_spec(ps[i].0)->Ok_0;
        let ks = kd->Str_0;
        let vd = ser_spec(ps[i].1)->Ok_0;
        lemma_obj_index_of(acc, ks);
        assert forall|j: int| 0 <= j < i implies acc[j].0 != ks by {
            assert(ser_spec(ps[j].0) != ser_spec(ps[i].0));
            assert(acc[j] == entry_dyn(ps[j]));
        }
        assert(obj_index_of(acc, ks) == -1);
        assert(obj_insert(acc, ks, vd) == acc.push((ks, vd)));
        lemma_ser_entries_shape(ps, i + 1, acc.push((ks, vd)), obj);
    }
}

/// What a successful struct serialization looks like: one property per
/// field, in declaration order, when field names are distinct.
proof fn lemma_ser_fields_shape(
    fs: Seq<(Seq<char>, StructV)>,
    i: int,
    acc: Seq<(Seq<char>, DynV)>,
    obj: Seq<(Seq<char>, DynV)>,
)
    requires
        0 <= i <= fs.len(),
        acc.len() == i,
        forall|j: int|
            0 <= j < i ==> (#[trigger] acc[j]) == (fs[j].0, ser_spec(fs[j].1)->Ok_0) && ser_spec(
                fs[j].1,
            ) is Ok,
        forall|j1: int, j2: int| 0 <= j1 < j2 < fs.len() ==> fs[j1].0 != fs[j2].0,
        ser_fields(fs, i, acc) == Ok::<_, ErrorKindV>(obj),
    ensures
        obj.len() == fs.len(),
        forall|j: int| 0 <= j < fs.len() ==> (#[trigger] ser_spec(fs[j].1)) is Ok,
        forall|j: int|
            0 <= j < fs.len() ==> (#[trigger] obj[j]) == (fs[j].0, ser_spec(fs[j].1)->Ok_0),
    decreases fs.len() - i,
{
    if i < fs.len() {
        let vd = ser_spec(fs[i].1)->Ok_0;
        lemma_obj_index_of(acc, fs[i].0);
        assert forall|j: int| 0 <= j < i implies acc[j].0 != fs[i].0 by {
            assert(acc[j] == (fs[j].0, ser_spec(fs[j].1)->Ok_0));
        }
        assert(obj_index_of(acc, fs[i].0) == -1);
        assert(obj_insert(acc, fs[i].0, vd) == acc.push((fs[i].0, vd)));
        lemma_ser_fields_shape(fs, i + 1, acc.push((fs[i].0, vd)), obj);
    } else {
        assert(obj == acc);
        assert forall|j: int| 0 <= j < fs.len() implies (#[trigger] ser_spec(fs[j].1)) is Ok by {
            assert(acc[j] == (fs[j].0, ser_spec(fs[j].1)->Ok_0) && ser_spec(fs[j].1) is Ok);
        }
        assert forall|j: int| 0 <= j < fs.len() implies (#[trigger] obj[j]) == (
            fs[j].0,
            ser_spec(fs[j].1)->Ok_0,
        ) by {
            assert(acc[j] == (fs[j].0, ser_spec(fs[j].1)->Ok_0) && ser_spec(fs[j].1) is Ok);
        }
    }
}

/// Byte sequences come back from their number-array form unchanged.
proof fn lemma_rt_bytes(bs: Seq<u8>, i: int, acc: Seq<u8>)
    requires
        0 <= i <= bs.len(),
    ensures
        de_bytes(bytes_dyn(bs), i, acc) == Ok::<_, ErrorKindV>(acc + bs.skip(i)),
    decreases bs.len() - i,
{
    if i < bs.len() {
        lemma_rt_bytes(bs, i + 1, acc.push(bs[i]));
        assert(acc.push(bs[i]) + bs.skip(i + 1) =~= acc + bs.skip(i));
    } else {
        assert(acc + bs.skip(i) =~= acc);
    }
}

/// Homogeneous elements come back from their array form unchanged.
proof fn lemma_rt_items(el: SchemaV, es: Seq<StructV>, ds: Seq<DynV>, i: int, acc: Seq<StructV>)
    requires
        0 <= i <= es.len(),
        ds.len() == es.len(),
        forall|j: int|
            i <= j < es.len() ==> matches_schema(#[trigger] es[j], el) && rt_safe(es[j])
                && ser_spec(es[j]) is Ok && ds[j] == ser_spec(es[j])->Ok_0,
    ensures
        de_items(el, ds, i, acc) == Ok::<_, ErrorKindV>(acc + es.skip(i)),
    decreases es, es.len() - i,
{
    if i < es.len() {
        lemma_round_trip(es[i], el);
        lemma_rt_items(el, es, ds, i + 1, acc.push(es[i]));
        assert(acc.push(es[i]) + es.skip(i + 1) =~= acc + es.skip(i));
    } else {
        assert(acc + es.skip(i) =~= acc);
    }
}

/// Fixed-arity elements come back from their array form unchanged.
proof fn lemma_rt_tuple(
    ts: Seq<SchemaV>,
    es: Seq<StructV>,
    ds: Seq<DynV>,
    i: int,
    acc: Seq<StructV>,
)
    requires
        0 <= i <= es.len(),
        ds.len() == es.len(),
        ts.len() == es.len(),
        forall|j: int|
            i <= j < es.len() ==> matches_schema(#[trigger] es[j], ts[j]) && rt_safe(es[j])
                && ser_spec(es[j]) is Ok && ds[j] == ser_spec(es[j])->Ok_0,
    ensures
        de_tuple(ts, ds, i, acc) == Ok::<_, ErrorKindV>(acc + es.skip(i)),
    decreases es, es.len() - i,
{
    if i < es.len() {
        lemma_round_trip(es[i], ts[i]);
        lemma_rt_tuple(ts, es, ds, i + 1, acc.push(es[i]));
        assert(acc.push(es[i]) + es.skip(i + 1) =~= acc + es.skip(i));
    } else {
        assert(acc + es.skip(i) =~= acc);
    }
}

/// Map entries come back from their object form unchanged.
proof fn lemma_rt_entries(
    t: SchemaV,
    ps: Seq<(StructV, StructV)>,
    obj: Seq<(Seq<char>, DynV)>,
    i: int,
    acc: Seq<(StructV, StructV)>,
)
    requires
        t is MapOf,
        0 <= i <= ps.len(),
        obj.len() == ps.len(),
        forall|j: int|
            i <= j < ps.len() ==> matches_schema((#[trigger] ps[j]).0, *t->MapOf_0)
                && matches_schema(ps[j].1, *t->MapOf_1) && rt_safe(ps[j].0) && rt_safe(ps[j].1)
                && ser_spec(ps[j].0) is Ok && ser_spec(ps[j].0)->Ok_0 is Str && ser_spec(
                ps[j].1,
            ) is Ok && obj[j] == entry_dyn(ps[j]),
    ensures
        de_entries(t, obj, i, acc) == Ok::<_, ErrorKindV>(acc + ps.skip(i)),
    decreases ps, ps.len() - i,
{
    if i < ps.len() {
        lemma_round_trip(ps[i].0, *t->MapOf_0);
        assert(DynV::Str(obj[i].0) == ser_spec(ps[i].0)->Ok_0);
        lemma_round_trip(ps[i].1, *t->MapOf_1);
        lemma_rt_entries(t, ps, obj, i + 1, acc.push(ps[i]));
        assert(acc.push((ps[i].0, ps[i].1)) == acc.push(ps[i]));
        assert(acc.push(ps[i]) + ps.skip(i + 1) =~= acc + ps.skip(i));
    } else {
        assert(acc + ps.skip(i) =~= acc);
    }
}

/// Struct fields come back from their object form unchanged: each declared
/// name finds exactly its own property.
proof fn lemma_rt_fields(
    fields: Seq<FieldV>,
    fs: Seq<(Seq<char>, StructV)>,
    obj: Seq<(Seq<char>, DynV)>,
    i: int,
    acc: Seq<(Seq<char>, StructV)>,
)
    requires
        0 <= i <= fs.len(),
        obj.len() == fs.len(),
        fields.len() == fs.len(),
        forall|j1: int, j2: int| 0 <= j1 < j2 < fs.len() ==> fs[j1].0 != fs[j2].0,
        forall|j: int|
            0 <= j < fs.len() ==> (#[trigger] fs[j]).0 == fields[j].name && ser_spec(fs[j].1) is Ok
                && obj[j] == (fs[j].0, ser_spec(fs[j].1)->Ok_0),
        forall|j: int|
            i <= j < fs.len() ==> matches_schema((#[trigger] fs[j]).1, fields[j].schema) && rt_safe(
                fs[j].1,
            ),
    ensures
        de_struct(fields, obj, i, acc) == Ok::<_, ErrorKindV>(acc + fs.skip(i)),
    decreases fs, fs.len() - i,
{
    if i < fs.len() {
        lemma_obj_index_of(obj, fields[i].name);
        assert(obj[i].0 == fields[i].name);
        assert forall|j: int| 0 <= j < obj.len() && j != i implies obj[j].0 != fields[i].name by {
            if j < i {
                assert(fs[j].0 != fs[i].0);
            } else {
                assert(fs[i].0 != fs[j].0);
            }
        }
        assert(obj_index_of(obj, fields[i].name) == i);
        assert(obj_get(obj, fields[i].name) == Option::Some(ser_spec(fs[i].1)->Ok_0));
        lemma_round_trip(fs[i].1, fields[i].schema);
        lemma_rt_fields(fields, fs, obj, i + 1, acc.push(fs[i]));
        assert(acc.push((fields[i].name, fs[i].1)) == acc.push(fs[i]));
        assert(acc.push(fs[i]) + fs.skip(i + 1) =~= acc + fs.skip(i));
    } else {
        assert(acc + fs.skip(i) =~= acc);
    }
}

/// Round trip: any structured value the target shape describes, whose
/// serialization succeeds and loses nothing, comes back from its dynamic
/// form exactly as it was.
pub proof fn lemma_round_trip(s: StructV, t: SchemaV)
    requires
        matches_schema(s, t),
        rt_safe(s),
        ser_spec(s) is Ok,
    ensures
        de_spec(t, ser_spec(s)->Ok_0) == Ok::<_, ErrorKindV>(s),
    decreases s, 0int,
{
    match s {
        StructV::Char(c) => {
            assert(seq![c].len() == 1);
            assert(seq![c][0] == c);
        },
        StructV::Bytes(bs) => {
            lemma_rt_bytes(bs, 0, Seq::empty());
            assert(Seq::<u8>::empty() + bs.skip(0) =~= bs);
        },
        StructV::OptSome(x) => {
            lemma_round_trip(*x, *t->Opt_0);
        },
        StructV::NewtypeStruct(x) => {
            lemma_round_trip(*x, *t->NewtypeStruct_0);
        },
        StructV::List(es) => {
            let ds = ser_items(es, 0, Seq::empty())->Ok_0;
            lemma_ser_items_shape(es, 0, Seq::empty(), ds);
            lemma_rt_items(*t->List_0, es, ds, 0, Seq::empty());
            assert(Seq::<StructV>::empty() + es.skip(0) =~= es);
        },
        StructV::Tuple(es) => {
            let ds = ser_items(es, 0, Seq::empty())->Ok_0;
            lemma_ser_items_shape(es, 0, Seq::empty(), ds);
            lemma_rt_tuple(t->Tuple_0, es, ds, 0, Seq::empty());
            assert(Seq::<StructV>::empty() + es.skip(0) =~= es);
        },
        StructV::TupleStruct(es) => {
            let ds = ser_items(es, 0, Seq::empty())->Ok_0;
            lemma_ser_items_shape(es, 0, Seq::empty(), ds);
            lemma_rt_tuple(t->TupleStruct_0, es, ds, 0, Seq::empty());
            assert(Seq::<StructV>::empty() + es.skip(0) =~= es);
        },
        StructV::MapOf(ps) => {
            let obj = ser_entries(ps, 0, Seq::empty())->Ok_0;
            lemma_ser_entries_shape(ps, 0, Seq::empty(), obj);
            lemma_rt_entries(t, ps, obj, 0, Seq::empty());
            assert(Seq::<(StructV, StructV)>::empty() + ps.skip(0) =~= ps);
        },
        StructV::Struct(fs) => {
            let obj = ser_fields(fs, 0, Seq::empty())->Ok_0;
            lemma_ser_fields_shape(fs, 0, Seq::empty(), obj);
            lemma_rt_fields(t->Struct_0, fs, obj, 0, Seq::empty());
            assert(Seq::<(Seq<char>, StructV)>::empty() + fs.skip(0) =~= fs);
        },
        StructV::NewtypeVariant(n, x) => {
            let vs = t->Enum_0;
            let j = find_variant(vs, n);
            let d = ser_spec(*x)->Ok_0;
            assert(seq![(n, d)].len() == 1);
            lemma_round_trip(*x, *vs[j]->Newtype_1);
        },
        StructV::TupleVariant(n, es) => {
            let vs = t->Enum_0;
            let j = find_variant(vs, n);
            let ds = ser_items(es, 0, Seq::empty())->Ok_0;
            lemma_ser_items_shape(es, 0, Seq::empty(), ds);
            assert(seq![(n, DynV::Arr(ds))].len() == 1);
            lemma_rt_tuple(vs[j]->Tuple_1, es, ds, 0, Seq::empty());
            assert(Seq::<StructV>::empty() + es.skip(0) =~= es);
        },
        StructV::StructVariant(n, fs) => {
            let vs = t->Enum_0;
            let j = find_variant(vs, n);
            let obj = ser_fields(fs, 0, Seq::empty())->Ok_0;
            lemma_ser_fields_shape(fs, 0, Seq::empty(), obj);
            assert(seq![(n, DynV::Obj(obj))].len() == 1);
            lemma_rt_fields(vs[j]->Struct_1, fs, obj, 0, Seq::empty());
            assert(Seq::<(Seq<char>, StructV)>::empty() + fs.skip(0) =~= fs);
        },
        _ => {
        },
    }
}

/// Whether every number payload a structured value carries is already in
/// the host number's canonical form.
pub open spec fn nums_wf(s: StructV) -> bool
    decreases s,
{
    match s {
        StructV::Float(n) => n.wf(),
        StructV::OptSome(x) => nums_wf(*x),
        StructV::NewtypeStruct(x) => nums_wf(*x),
        StructV::List(es) => forall|i: int| 0 <= i < es.len() ==> nums_wf(#[trigger] es[i]),
        StructV::Tuple(es) => forall|i: int| 0 <= i < es.len() ==> nums_wf(#[trigger] es[i]),
        StructV::TupleStruct(es) => forall|i: int| 0 <= i < es.len() ==> nums_wf(#[trigger] es[i]),
        StructV::MapOf(ps) => forall|i: int|
            0 <= i < ps.len() ==> nums_wf((#[trigger] ps[i]).0) && nums_wf(ps[i].1),
        StructV::Struct(fs) => forall|i: int| 0 <= i < fs.len() ==> nums_wf((#[trigger] fs[i]).1),
        StructV::NewtypeVariant(_, x) => nums_wf(*x),
        StructV::TupleVariant(_, es) => forall|i: int|
            0 <= i < es.len() ==> nums_wf(#[trigger] es[i]),
        StructV::StructVariant(_, fs) => forall|i: int|
            0 <= i < fs.len() ==> nums_wf((#[trigger] fs[i]).1),
        _ => true,
    }
}

/// Setting a property keeps an object's keys unique and its values
/// canonical, when the new value is canonical.
proof fn lemma_obj_insert_wf(o: Seq<(Seq<char>, DynV)>, k: Seq<char>, v: DynV)
    requires
        obj_keys_unique(o),
        forall|j: int| 0 <= j < o.len() ==> dyn_wf((#[trigger] o[j]).1),
        dyn_wf(v),
    ensures
        obj_keys_unique(obj_insert(o, k, v)),
        forall|j: int|
            0 <= j < obj_insert(o, k, v).len() ==> dyn_wf((#[trigger] obj_insert(o, k, v)[j]).1),
{
    lemma_obj_index_of(o, k);
}

/// Every dynamic value a successful element serialization yields is
/// canonical.
proof fn lemma_ser_items_wf(es: Seq<StructV>, i: int, acc: Seq<DynV>, ds: Seq<DynV>)
    requires
        0 <= i <= es.len(),
        forall|j: int| i <= j < es.len() ==> nums_wf(#[trigger] es[j]),
        forall|j: int| 0 <= j < acc.len() ==> dyn_wf(#[trigger] acc[j]),
        ser_items(es, i, acc) == Ok::<_, ErrorKindV>(ds),
    ensures
        forall|j: int| 0 <= j < ds.len() ==> dyn_wf(#[trigger] ds[j]),
    decreases es, es.len() - i,
{
    if i < es.len() {
        lemma_ser_canonical(es[i]);
        lemma_ser_items_wf(es, i + 1, acc.push(ser_spec(es[i])->Ok_0), ds);
    }
}

/// Every object a successful map serialization yields has unique keys and
/// canonical values.
proof fn lemma_ser_entries_wf(
    ps: Seq<(StructV, StructV)>,
    i: int,
    acc: Seq<(Seq<char>, DynV)>,
    obj: Seq<(Seq<char>, DynV)>,
)
    requires
        0 <= i <= ps.len(),
        forall|j: int| i <= j < ps.len() ==> nums_wf((#[trigger] ps[j]).1),
        obj_keys_unique(acc),
        forall|j: int| 0 <= j < acc.len() ==> dyn_wf((#[trigger] acc[j]).1),
        ser_entries(ps, i, acc) == Ok::<_, ErrorKindV>(obj),
    ensures
        obj_keys_unique(obj),
        forall|j: int| 0 <= j < obj.len() ==> dyn_wf((#[trigger] obj[j]).1),
    decreases ps, ps.len() - i,
{
    if i < ps.len() {
        let kd = ser_spec(ps[i].0)->Ok_0;
        let vd = ser_spec(ps[i].1)->Ok_0;
        lemma_ser_canonical(ps[i].1);
        lemma_obj_insert_wf(acc, kd->Str_0, vd);
        lemma_ser_entries_wf(ps, i + 1, obj_insert(acc, kd->Str_0, vd), obj);
    }
}

/// Every object a successful struct serialization yields has unique keys
/// and canonical values.
proof fn lemma_ser_fields_wf(
    fs: Seq<(Seq<char>, StructV)>,
    i: int,
    acc: Seq<(Seq<char>, DynV)>,
    obj: Seq<(Seq<char>, DynV)>,
)
    requires
        0 <= i <= fs.len(),
        forall|j: int| i <= j < fs.len() ==> nums_wf((#[trigger] fs[j]).1),
        obj_keys_unique(acc),
        forall|j: int| 0 <= j < acc.len() ==> dyn_wf((#[trigger] acc[j]).1),
        ser_fields(fs, i, acc) == Ok::<_, ErrorKindV>(obj),
    ensures
        obj_keys_unique(obj),
        forall|j: int| 0 <= j < obj.len() ==> dyn_wf((#[trigger] obj[j]).1),
    decreases fs, fs.len() - i,
{
    if i < fs.len() {
        let vd = ser_spec(fs[i].1)->Ok_0;
        lemma_ser_canonical(fs[i].1);
        lemma_obj_insert_wf(acc, fs[i].0, vd);
        lemma_ser_fields_wf(fs, i + 1, obj_insert(acc, fs[i].0, vd), obj);
    }
}

/// The serializer only builds canonical dynamic trees: every number it
/// writes is in the host number's exact range, and every object it builds
/// has unique property names.
pub proof fn lemma_ser_canonical(s: StructV)
    requires
        nums_wf(s),
        ser_spec(s) is Ok,
    ensures
        dyn_wf(ser_spec(s)->Ok_0),
    decreases s, 0int,
{
    match s {
        StructV::Bytes(bs) => {
            let ds = bytes_dyn(bs);
            assert forall|j: int| 0 <= j < ds.len() implies dyn_wf(#[trigger] ds[j]) by {
                assert(ds[j] == DynV::Num(JsNumber::Int(bs[j] as i64)));
            }
        },
        StructV::OptSome(x) => {
            lemma_ser_canonical(*x);
        },
        StructV::NewtypeStruct(x) => {
            lemma_ser_canonical(*x);
        },
        StructV::List(es) => {
            lemma_ser_items_wf(es, 0, Seq::empty(), ser_items(es, 0, Seq::empty())->Ok_0);
        },
        StructV::Tuple(es) => {
            lemma_ser_items_wf(es, 0, Seq::empty(), ser_items(es, 0, Seq::empty())->Ok_0);
        },
        StructV::TupleStruct(es) => {
            lemma_ser_items_wf(es, 0, Seq::empty(), ser_items(es, 0, Seq::empty())->Ok_0);
        },
        StructV::MapOf(ps) => {
            lemma_ser_entries_wf(ps, 0, Seq::empty(), ser_entries(ps, 0, Seq::empty())->Ok_0);
        },
        StructV::Struct(fs) => {
            lemma_ser_fields_wf(fs, 0, Seq::empty(), ser_fields(fs, 0, Seq::empty())->Ok_0);
        },
        StructV::NewtypeVariant(n, x) => {
            lemma_ser_canonical(*x);
            let d = ser_spec(*x)->Ok_0;
            assert forall|j: int| 0 <= j < seq![(n, d)].len() implies dyn_wf(
                (#[trigger] seq![(n, d)][j]).1,
            ) by {
                assert(seq![(n, d)][j] == (n, d));
            }
        },
        StructV::TupleVariant(n, es) => {
            let ds = ser_items(es, 0, Seq::empty())->Ok_0;
            lemma_ser_items_wf(es, 0, Seq::empty(), ds);
            let d = DynV::Arr(ds);
            assert forall|j: int| 0 <= j < seq![(n, d)].len() implies dyn_wf(
                (#[trigger] seq![(n, d)][j]).1,
            ) by {
                assert(seq![(n, d)][j] == (n, d));
            }
        },
        StructV::StructVariant(n, fs) => {
            let o = ser_fields(fs, 0, Seq::empty())->Ok_0;
            lemma_ser_fields_wf(fs, 0, Seq::empty(), o);
            let d = DynV::Obj(o);
            assert forall|j: int| 0 <= j < seq![(n, d)].len() implies dyn_wf(
                (#[trigger] seq![(n, d)][j]).1,
            ) by {
                assert(seq![(n, d)][j] == (n, d));
            }
        },
        _ => {
        },
    }
}

} // verus!
