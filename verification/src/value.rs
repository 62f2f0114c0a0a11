//! The two value models of the engine and the schemas that drive decoding.
//!
//! [`DynValue`] is the dynamic side: a runtime-tagged tree with exactly seven
//! kinds, the shape a scripting host exchanges. [`StructValue`] is the
//! structured side: a value of the generic serialize/deserialize data model.
//! [`Schema`] reifies the target shape a structured-value builder requests,
//! so that decoding can be driven by it. Each executable type has a
//! specification-level mirror (`DynV`, `StructV`, `SchemaV`) over `Seq` and
//! mathematical integers, reached through `@`; every contract in the crate
//! speaks of those mirrors.

use vstd::prelude::*;

use crate::num::JsNumber;

verus! {

broadcast use vstd::std_specs::vec::group_vec_axioms;

/// Specification mirror of [`DynValue`].
#[verifier::ext_equal]
pub enum DynV {
    Undefined,
    Null,
    Bool(bool),
    Num(JsNumber),
    Str(Seq<char>),
    Arr(Seq<DynV>),
    Obj(Seq<(Seq<char>, DynV)>),
}

/// A dynamic value: the runtime-tagged tree exchanged with the host.
/// Exactly one of seven kinds; arrays and objects are the only composite
/// kinds, and an object maps property names to values in insertion order.
#[derive(Debug)]
pub enum DynValue {
    Undefined,
    Null,
    Bool(bool),
    Num(JsNumber),
    Str(String),
    Arr(Vec<DynValue>),
    Obj(Vec<(String, DynValue)>),
}

/// The views of an array's elements, in order.
pub open spec fn view_elems(a: Seq<DynValue>) -> Seq<DynV>
    decreases a,
{
    if a.len() == 0 {
        Seq::empty()
    } else {
        seq![a[0].view()] + view_elems(a.drop_first())
    }
}

/// The views of an object's properties, in order.
pub open spec fn view_props(a: Seq<(String, DynValue)>) -> Seq<(Seq<char>, DynV)>
    decreases a,
{
    if a.len() == 0 {
        Seq::empty()
    } else {
        seq![(a[0].0.view(), a[0].1.view())] + view_props(a.drop_first())
    }
}

impl View for DynValue {
    type V = DynV;

    open spec fn view(&self) -> DynV
        decreases self,
    {
        match self {
            DynValue::Undefined => DynV::Undefined,
            DynValue::Null => DynV::Null,
            DynValue::Bool(b) => DynV::Bool(*b),
            DynValue::Num(n) => DynV::Num(*n),
            DynValue::Str(s) => DynV::Str(s@),
            DynValue::Arr(a) => {
                proof {
                    assert(decreases_to!(a => a@));
                }
                DynV::Arr(view_elems(a@))
            },
            DynValue::Obj(o) => {
                proof {
                    assert(decreases_to!(o => o@));
                }
                DynV::Obj(view_props(o@))
            },
        }
    }
}

/// What `view_elems` holds at each index.
pub broadcast proof fn lemma_view_elems(a: Seq<DynValue>)
    ensures
        (#[trigger] view_elems(a)).len() == a.len(),
        forall|i: int| 0 <= i < a.len() ==> view_elems(a)[i] == a[i]@,
    decreases a,
{
    if a.len() > 0 {
        lemma_view_elems(a.drop_first());
        assert(view_elems(a) == seq![a[0].view()] + view_elems(a.drop_first()));
        assert forall|i: int| 0 <= i < a.len() implies view_elems(a)[i] == a[i]@ by {
            if i > 0 {
                assert(view_elems(a)[i] == view_elems(a.drop_first())[i - 1]);
                assert(a.drop_first()[i - 1] == a[i]);
            }
        }
    }
}

/// What `view_props` holds at each index.
pub broadcast proof fn lemma_view_props(a: Seq<(String, DynValue)>)
    ensures
        (#[trigger] view_props(a)).len() == a.len(),
        forall|i: int| 0 <= i < a.len() ==> view_props(a)[i] == (a[i].0@, a[i].1@),
    decreases a,
{
    if a.len() > 0 {
        lemma_view_props(a.drop_first());
        assert(view_props(a) == seq![(a[0].0.view(), a[0].1.view())] + view_props(a.drop_first()));
        assert forall|i: int| 0 <= i < a.len() implies view_props(a)[i] == (a[i].0@, a[i].1@) by {
            if i > 0 {
                assert(view_props(a)[i] == view_props(a.drop_first())[i - 1]);
                assert(a.drop_first()[i - 1] == a[i]);
            }
        }
    }
}

/// Specification mirror of [`StructValue`].
#[verifier::ext_equal]
pub enum StructV {
    Unit,
    Bool(bool),
    I8(i8),
    I16(i16),
    I32(i32),
    I64(i64),
    U8(u8),
    U16(u16),
    U32(u32),
    U64(u64),
    Float(JsNumber),
    Char(char),
    Str(Seq<char>),
    Bytes(Seq<u8>),
    OptNone,
    OptSome(Box<StructV>),
    UnitStruct,
    NewtypeStruct(Box<StructV>),
    List(Seq<StructV>),
    Tuple(Seq<StructV>),
    TupleStruct(Seq<StructV>),
    MapOf(Seq<(StructV, StructV)>),
    Struct(Seq<(Seq<char>, StructV)>),
    UnitVariant(Seq<char>),
    NewtypeVariant(Seq<char>, Box<StructV>),
    TupleVariant(Seq<char>, Seq<StructV>),
    StructVariant(Seq<char>, Seq<(Seq<char>, StructV)>),
}

/// A structured value: one case for each shape of the generic data model.
/// Numeric float payloads are carried as the host number they map to, since
/// the engine never performs float arithmetic itself.
#[derive(Debug)]
pub enum StructValue {
    Unit,
    Bool(bool),
    I8(i8),
    I16(i16),
    I32(i32),
    I64(i64),
    U8(u8),
    U16(u16),
    U32(u32),
    U64(u64),
    Float(JsNumber),
    Char(char),
    Str(String),
    Bytes(Vec<u8>),
    OptNone,
    OptSome(Box<StructValue>),
    UnitStruct,
    NewtypeStruct(Box<StructValue>),
    List(Vec<StructValue>),
    Tuple(Vec<StructValue>),
    TupleStruct(Vec<StructValue>),
    MapOf(Vec<(StructValue, StructValue)>),
    Struct(Vec<(String, StructValue)>),
    UnitVariant(String),
    NewtypeVariant(String, Box<StructValue>),
    TupleVariant(String, Vec<StructValue>),
    StructVariant(String, Vec<(String, StructValue)>),
}

/// The views of a vector of structured values, in order.
pub open spec fn view_svals(a: Seq<StructValue>) -> Seq<StructV>
    decreases a,
{
    if a.len() == 0 {
        Seq::empty()
    } else {
        seq![a[0].view()] + view_svals(a.drop_first())
    }
}

/// The views of a map's entries, in order.
pub open spec fn view_sentries(a: Seq<(StructValue, StructValue)>) -> Seq<(StructV, StructV)>
    decreases a,
{
    if a.len() == 0 {
        Seq::empty()
    } else {
        seq![(a[0].0.view(), a[0].1.view())] + view_sentries(a.drop_first())
    }
}

/// The views of a struct's field values, in order.
pub open spec fn view_sfields(a: Seq<(String, StructValue)>) -> Seq<(Seq<char>, StructV)>
    decreases a,
{
    if a.len() == 0 {
        Seq::empty()
    } else {
        seq![(a[0].0.view(), a[0].1.view())] + view_sfields(a.drop_first())
    }
}

impl View for StructValue {
    type V = StructV;

    open spec fn view(&self) -> StructV
        decreases self,
    {
        match self {
            StructValue::Unit => StructV::Unit,
            StructValue::Bool(b) => StructV::Bool(*b),
            StructValue::I8(v) => StructV::I8(*v),
            StructValue::I16(v) => StructV::I16(*v),
            StructValue::I32(v) => StructV::I32(*v),
            StructValue::I64(v) => StructV::I64(*v),
            StructValue::U8(v) => StructV::U8(*v),
            StructValue::U16(v) => StructV::U16(*v),
            StructValue::U32(v) => StructV::U32(*v),
            StructValue::U64(v) => StructV::U64(*v),
            StructValue::Float(n) => StructV::Float(*n),
            StructValue::Char(c) => StructV::Char(*c),
            StructValue::Str(s) => StructV::Str(s@),
            StructValue::Bytes(b) => StructV::Bytes(b@),
            StructValue::OptNone => StructV::OptNone,
            StructValue::OptSome(v) => StructV::OptSome(Box::new((**v)@)),
            StructValue::UnitStruct => StructV::UnitStruct,
            StructValue::NewtypeStruct(v) => StructV::NewtypeStruct(Box::new((**v)@)),
            StructValue::List(es) => {
                proof {
                    assert(decreases_to!(es => es@));
                }
                StructV::List(view_svals(es@))
            },
            StructValue::Tuple(es) => {
                proof {
                    assert(decreases_to!(es => es@));
                }
                StructV::Tuple(view_svals(es@))
            },
            StructValue::TupleStruct(es) => {
                proof {
                    assert(decreases_to!(es => es@));
                }
                StructV::TupleStruct(view_svals(es@))
            },
            StructValue::MapOf(ps) => {
                proof {
                    assert(decreases_to!(ps => ps@));
                }
                StructV::MapOf(view_sentries(ps@))
            },
            StructValue::Struct(fs) => {
                proof {
                    assert(decreases_to!(fs => fs@));
                }
                StructV::Struct(view_sfields(fs@))
            },
            StructValue::UnitVariant(n) => StructV::UnitVariant(n@),
            StructValue::NewtypeVariant(n, v) => StructV::NewtypeVariant(n@, Box::new((**v)@)),
            StructValue::TupleVariant(n, es) => {
                proof {
                    assert(decreases_to!(es => es@));
                }
                StructV::TupleVariant(n@, view_svals(es@))
            },
            StructValue::StructVariant(n, fs) => {
                proof {
                    assert(decreases_to!(fs => fs@));
                }
                StructV::StructVariant(n@, view_sfields(fs@))
            },
        }
    }
}

/// What `view_svals` holds at each index.
pub broadcast proof fn lemma_view_svals(a: Seq<StructValue>)
    ensures
        (#[trigger] view_svals(a)).len() == a.len(),
        forall|i: int| 0 <= i < a.len() ==> view_svals(a)[i] == a[i]@,
    decreases a,
{
    if a.len() > 0 {
        lemma_view_svals(a.drop_first());
        assert(view_svals(a) == seq![a[0].view()] + view_svals(a.drop_first()));
        assert forall|i: int| 0 <= i < a.len() implies view_svals(a)[i] == a[i]@ by {
            if i > 0 {
                assert(view_svals(a)[i] == view_svals(a.drop_first())[i - 1]);
                assert(a.drop_first()[i - 1] == a[i]);
            }
        }
    }
}

/// What `view_sentries` holds at each index.
pub broadcast proof fn lemma_view_sentries(a: Seq<(StructValue, StructValue)>)
    ensures
        (#[trigger] view_sentries(a)).len() == a.len(),
        forall|i: int| 0 <= i < a.len() ==> view_sentries(a)[i] == (a[i].0@, a[i].1@),
    decreases a,
{
    if a.len() > 0 {
        lemma_view_sentries(a.drop_first());
        assert(view_sentries(a) == seq![(a[0].0.view(), a[0].1.view())] + view_sentries(
            a.drop_first(),
        ));
        assert forall|i: int| 0 <= i < a.len() implies view_sentries(a)[i] == (a[i].0@, a[i].1@) by {
            if i > 0 {
                assert(view_sentries(a)[i] == view_sentries(a.drop_first())[i - 1]);
                assert(a.drop_first()[i - 1] == a[i]);
            }
        }
    }
}

/// What `view_sfields` holds at each index.
pub broadcast proof fn lemma_view_sfields(a: Seq<(String, StructValue)>)
    ensures
        (#[trigger] view_sfields(a)).len() == a.len(),
        forall|i: int| 0 <= i < a.len() ==> view_sfields(a)[i] == (a[i].0@, a[i].1@),
    decreases a,
{
    if a.len() > 0 {
        lemma_view_sfields(a.drop_first());
        assert(view_sfields(a) == seq![(a[0].0.view(), a[0].1.view())] + view_sfields(
            a.drop_first(),
        ));
        assert forall|i: int| 0 <= i < a.len() implies view_sfields(a)[i] == (a[i].0@, a[i].1@) by {
            if i > 0 {
                assert(view_sfields(a)[i] == view_sfields(a.drop_first())[i - 1]);
                assert(a.drop_first()[i - 1] == a[i]);
            }
        }
    }
}

/// Specification mirror of [`Schema`].
#[verifier::ext_equal]
pub enum SchemaV {
    Unit,
    Bool,
    I8,
    I16,
    I32,
    I64,
    U8,
    U16,
    U32,
    U64,
    Float,
    Char,
    Str,
    Bytes,
    Opt(Box<SchemaV>),
    UnitStruct,
    NewtypeStruct(Box<SchemaV>),
    List(Box<SchemaV>),
    Tuple(Seq<SchemaV>),
    TupleStruct(Seq<SchemaV>),
    MapOf(Box<SchemaV>, Box<SchemaV>),
    Struct(Seq<FieldV>),
    Enum(Seq<VariantV>),
}

/// Specification mirror of [`Field`].
#[verifier::ext_equal]
pub struct FieldV {
    pub name: Seq<char>,
    pub schema: SchemaV,
    pub dflt: Option<StructV>,
}

/// Specification mirror of [`Variant`].
#[verifier::ext_equal]
pub enum VariantV {
    Unit(Seq<char>),
    Newtype(Seq<char>, Box<SchemaV>),
    Tuple(Seq<char>, Seq<SchemaV>),
    Struct(Seq<char>, Seq<FieldV>),
}

/// The target shape a structured-value builder requests: decoding dispatches
/// on it, cross-checked against the dynamic value's runtime kind.
#[derive(Debug)]
pub enum Schema {
    Unit,
    Bool,
    I8,
    I16,
    I32,
    I64,
    U8,
    U16,
    U32,
    U64,
    Float,
    Char,
    Str,
    Bytes,
    Opt(Box<Schema>),
    UnitStruct,
    NewtypeStruct(Box<Schema>),
    List(Box<Schema>),
    Tuple(Vec<Schema>),
    TupleStruct(Vec<Schema>),
    MapOf(Box<Schema>, Box<Schema>),
    Struct(Vec<Field>),
    Enum(Vec<Variant>),
}

/// One declared field of a struct shape: its name, its own target shape, and
/// the value it takes when the property is absent, if it has one.
#[derive(Debug)]
pub struct Field {
    pub name: String,
    pub schema: Schema,
    pub dflt: Option<StructValue>,
}

/// One declared variant of an enum shape.
#[derive(Debug)]
pub enum Variant {
    Unit(String),
    Newtype(String, Box<Schema>),
    Tuple(String, Vec<Schema>),
    Struct(String, Vec<Field>),
}

/// The views of a vector of schemas, in order.
pub open spec fn view_schemas(a: Seq<Schema>) -> Seq<SchemaV>
    decreases a,
{
    if a.len() == 0 {
        Seq::empty()
    } else {
        seq![a[0].view()] + view_schemas(a.drop_first())
    }
}

/// The views of a vector of field declarations, in order.
pub open spec fn view_fields(a: Seq<Field>) -> Seq<FieldV>
    decreases a,
{
    if a.len() == 0 {
        Seq::empty()
    } else {
        seq![a[0].view()] + view_fields(a.drop_first())
    }
}

/// The views of a vector of variant declarations, in order.
pub open spec fn view_variants(a: Seq<Variant>) -> Seq<VariantV>
    decreases a,
{
    if a.len() == 0 {
        Seq::empty()
    } else {
        seq![a[0].view()] + view_variants(a.drop_first())
    }
}

impl View for Schema {
    type V = SchemaV;

    open spec fn view(&self) -> SchemaV
        decreases self,
    {
        match self {
            Schema::Unit => SchemaV::Unit,
            Schema::Bool => SchemaV::Bool,
            Schema::I8 => SchemaV::I8,
            Schema::I16 => SchemaV::I16,
            Schema::I32 => SchemaV::I32,
            Schema::I64 => SchemaV::I64,
            Schema::U8 => SchemaV::U8,
            Schema::U16 => SchemaV::U16,
            Schema::U32 => SchemaV::U32,
            Schema::U64 => SchemaV::U64,
            Schema::Float => SchemaV::Float,
            Schema::Char => SchemaV::Char,
            Schema::Str => SchemaV::Str,
            Schema::Bytes => SchemaV::Bytes,
            Schema::Opt(t) => SchemaV::Opt(Box::new((**t)@)),
            Schema::UnitStruct => SchemaV::UnitStruct,
            Schema::NewtypeStruct(t) => SchemaV::NewtypeStruct(Box::new((**t)@)),
            Schema::List(t) => SchemaV::List(Box::new((**t)@)),
            Schema::Tuple(ts) => {
                proof {
                    assert(decreases_to!(ts => ts@));
                }
                SchemaV::Tuple(view_schemas(ts@))
            },
            Schema::TupleStruct(ts) => {
                proof {
                    assert(decreases_to!(ts => ts@));
                }
                SchemaV::TupleStruct(view_schemas(ts@))
            },
            Schema::MapOf(k, v) => SchemaV::MapOf(Box::new((**k)@), Box::new((**v)@)),
            Schema::Struct(fs) => {
                proof {
                    assert(decreases_to!(fs => fs@));
                }
                SchemaV::Struct(view_fields(fs@))
            },
            Schema::Enum(vs) => {
                proof {
                    assert(decreases_to!(vs => vs@));
                }
                SchemaV::Enum(view_variants(vs@))
            },
        }
    }
}

impl View for Field {
    type V = FieldV;

    open spec fn view(&self) -> FieldV
        decreases self,
    {
        FieldV {
            name: self.name@,
            schema: self.schema@,
            dflt: match &self.dflt {
                Option::Some(d) => Option::Some(d@),
                Option::None => Option::None,
            },
        }
    }
}

impl View for Variant {
    type V = VariantV;

    open spec fn view(&self) -> VariantV
        decreases self,
    {
        match self {
            Variant::Unit(n) => VariantV::Unit(n@),
            Variant::Newtype(n, t) => VariantV::Newtype(n@, Box::new((**t)@)),
            Variant::Tuple(n, ts) => {
                proof {
                    assert(decreases_to!(ts => ts@));
                }
                VariantV::Tuple(n@, view_schemas(ts@))
            },
            Variant::Struct(n, fs) => {
                proof {
                    assert(decreases_to!(fs => fs@));
                }
                VariantV::Struct(n@, view_fields(fs@))
            },
        }
    }
}

/// What `view_schemas` holds at each index.
pub broadcast proof fn lemma_view_schemas(a: Seq<Schema>)
    ensures
        (#[trigger] view_schemas(a)).len() == a.len(),
        forall|i: int| 0 <= i < a.len() ==> view_schemas(a)[i] == a[i]@,
    decreases a,
{
    if a.len() > 0 {
        lemma_view_schemas(a.drop_first());
        assert(view_schemas(a) == seq![a[0].view()] + view_schemas(a.drop_first()));
        assert forall|i: int| 0 <= i < a.len() implies view_schemas(a)[i] == a[i]@ by {
            if i > 0 {
                assert(view_schemas(a)[i] == view_schemas(a.drop_first())[i - 1]);
                assert(a.drop_first()[i - 1] == a[i]);
            }
        }
    }
}

/// What `view_fields` holds at each index.
pub broadcast proof fn lemma_view_fields(a: Seq<Field>)
    ensures
        (#[trigger] view_fields(a)).len() == a.len(),
        forall|i: int| 0 <= i < a.len() ==> view_fields(a)[i] == a[i]@,
    decreases a,
{
    if a.len() > 0 {
        lemma_view_fields(a.drop_first());
        assert(view_fields(a) == seq![a[0].view()] + view_fields(a.drop_first()));
        assert forall|i: int| 0 <= i < a.len() implies view_fields(a)[i] == a[i]@ by {
            if i > 0 {
                assert(view_fields(a)[i] == view_fields(a.drop_first())[i - 1]);
                assert(a.drop_first()[i - 1] == a[i]);
            }
        }
    }
}

/// What `view_variants` holds at each index.
pub broadcast proof fn lemma_view_variants(a: Seq<Variant>)
    ensures
        (#[trigger] view_variants(a)).len() == a.len(),
        forall|i: int| 0 <= i < a.len() ==> view_variants(a)[i] == a[i]@,
    decreases a,
{
    if a.len() > 0 {
        lemma_view_variants(a.drop_first());
        assert(view_variants(a) == seq![a[0].view()] + view_variants(a.drop_first()));
        assert forall|i: int| 0 <= i < a.len() implies view_variants(a)[i] == a[i]@ by {
            if i > 0 {
                assert(view_variants(a)[i] == view_variants(a.drop_first())[i - 1]);
                assert(a.drop_first()[i - 1] == a[i]);
            }
        }
    }
}

/// The index of the first property of `o` named `k`, or -1 when there is
/// none.
pub open spec fn obj_index_of(o: Seq<(Seq<char>, DynV)>, k: Seq<char>) -> int
    decreases o.len(),
{
    if o.len() == 0 {
        -1
    } else if o[0].0 == k {
        0
    } else {
        let r = obj_index_of(o.drop_first(), k);
        if r < 0 {
            -1
        } else {
            r + 1
        }
    }
}

/// The value of the first property of `o` named `k`, if any.
pub open spec fn obj_get(o: Seq<(Seq<char>, DynV)>, k: Seq<char>) -> Option<DynV> {
    let i = obj_index_of(o, k);
    if i < 0 {
        Option::None
    } else {
        Option::Some(o[i].1)
    }
}

/// Setting property `k` of `o` to `v`: an existing property keeps its
/// position and takes the new value, a new property is appended. This is the
/// host's own object-assignment semantics, so later duplicate keys overwrite
/// earlier ones.
pub open spec fn obj_insert(
    o: Seq<(Seq<char>, DynV)>,
    k: Seq<char>,
    v: DynV,
) -> Seq<(Seq<char>, DynV)> {
    let i = obj_index_of(o, k);
    if i < 0 {
        o.push((k, v))
    } else {
        o.update(i, (k, v))
    }
}

/// No two properties share a name.
pub open spec fn obj_keys_unique(o: Seq<(Seq<char>, DynV)>) -> bool {
    forall|i: int, j: int| 0 <= i < j < o.len() ==> o[i].0 != o[j].0
}

/// What `obj_index_of` finds: a real first occurrence, or proof of absence.
pub proof fn lemma_obj_index_of(o: Seq<(Seq<char>, DynV)>, k: Seq<char>)
    ensures
        obj_index_of(o, k) == -1 || (0 <= obj_index_of(o, k) < o.len()),
        obj_index_of(o, k) == -1 ==> forall|j: int| 0 <= j < o.len() ==> o[j].0 != k,
        obj_index_of(o, k) >= 0 ==> o[obj_index_of(o, k)].0 == k,
        obj_index_of(o, k) >= 0 ==> forall|j: int| 0 <= j < obj_index_of(o, k) ==> o[j].0 != k,
    decreases o.len(),
{
    if o.len() > 0 && o[0].0 != k {
        lemma_obj_index_of(o.drop_first(), k);
        assert forall|j: int| 0 <= j < o.len() && j >= 1 implies o[j] == o.drop_first()[j - 1] by {
        }
    }
}

/// A canonical dynamic value: every number is in canonical form and every
/// object's property names are unique. The serializer only builds such
/// trees.
pub open spec fn dyn_wf(d: DynV) -> bool
    decreases d,
{
    match d {
        DynV::Num(n) => n.wf(),
        DynV::Arr(es) => forall|i: int| 0 <= i < es.len() ==> dyn_wf(#[trigger] es[i]),
        DynV::Obj(ps) => obj_keys_unique(ps) && forall|i: int|
            0 <= i < ps.len() ==> dyn_wf(#[trigger] ps[i].1),
        _ => true,
    }
}

/// The name of a dynamic value's runtime kind, as error reports carry it.
pub open spec fn kind_name_spec(d: DynV) -> Seq<char> {
    match d {
        DynV::Undefined => "undefined"@,
        DynV::Null => "null"@,
        DynV::Bool(_) => "boolean"@,
        DynV::Num(_) => "number"@,
        DynV::Str(_) => "string"@,
        DynV::Arr(_) => "array"@,
        DynV::Obj(_) => "object"@,
    }
}

/// Reports the runtime kind of a dynamic value by name.
pub fn kind_name(d: &DynValue) -> (r: String)
    ensures
        r@ == kind_name_spec(d@),
{
    match d {
        DynValue::Undefined => String::from_str("undefined"),
        DynValue::Null => String::from_str("null"),
        DynValue::Bool(_) => String::from_str("boolean"),
        DynValue::Num(_) => String::from_str("number"),
        DynValue::Str(_) => String::from_str("string"),
        DynValue::Arr(_) => String::from_str("array"),
        DynValue::Obj(_) => String::from_str("object"),
    }
}

/// Finds the first property of `o` named `k`, as an index.
pub fn obj_find(o: &Vec<(String, DynValue)>, k: &String) -> (r: Option<usize>)
    ensures
        match r {
            Option::Some(i) => 0 <= i < o@.len() && obj_index_of(view_props(o@), k@) == i,
            Option::None => obj_index_of(view_props(o@), k@) == -1,
        },
{
    proof {
        lemma_view_props(o@);
        lemma_obj_index_of(view_props(o@), k@);
    }
    let mut i: usize = 0;
    while i < o.len()
        invariant
            0 <= i <= o@.len(),
            view_props(o@).len() == o@.len(),
            forall|j: int| 0 <= j < o@.len() ==> view_props(o@)[j] == (o@[j].0@, o@[j].1@),
            forall|j: int| 0 <= j < i ==> view_props(o@)[j].0 != k@,
            obj_index_of(view_props(o@), k@) == -1 || (0 <= obj_index_of(view_props(o@), k@)
                < o@.len()),
            obj_index_of(view_props(o@), k@) == -1 ==> forall|j: int|
                0 <= j < o@.len() ==> view_props(o@)[j].0 != k@,
            obj_index_of(view_props(o@), k@) >= 0 ==> view_props(o@)[obj_index_of(
                view_props(o@),
                k@,
            )].0 == k@,
            obj_index_of(view_props(o@), k@) >= 0 ==> forall|j: int|
                0 <= j < obj_index_of(view_props(o@), k@) ==> view_props(o@)[j].0 != k@,
        decreases o@.len() - i,
    {
        if o[i].0.eq(k) {
            assert(view_props(o@)[i as int].0 == k@);
            return Option::Some(i);
        }
        assert(view_props(o@)[i as int].0 != k@);
        i = i + 1;
    }
    Option::None
}

/// Sets property `k` of `o` to `v`, overwriting in place or appending, as
/// the host's object assignment does.
pub fn obj_set(o: &mut Vec<(String, DynValue)>, k: String, v: DynValue)
    ensures
        view_props(final(o)@) == obj_insert(view_props(old(o)@), k@, v@),
{
    proof {
        lemma_view_props(o@);
    }
    let ghost before = view_props(o@);
    match obj_find(o, &k) {
        Option::Some(i) => {
            o[i] = (k, v);
            proof {
                lemma_view_props(o@);
            }
            assert(view_props(o@) =~= before.update(i as int, (k@, v@)));
        },
        Option::None => {
            o.push((k, v));
            proof {
                lemma_view_props(o@);
            }
            assert(view_props(o@) =~= before.push((k@, v@)));
        },
    }
}

impl StructValue {
    /// A deep copy whose mathematical value is exactly this one's.
    pub fn duplicate(&self) -> (r: StructValue)
        ensures
            r@ == self@,
        decreases self,
    {
        broadcast use vstd::std_specs::vec::group_vec_axioms;

        match self {
            StructValue::Unit => StructValue::Unit,
            StructValue::Bool(b) => StructValue::Bool(*b),
            StructValue::I8(v) => StructValue::I8(*v),
            StructValue::I16(v) => StructValue::I16(*v),
            StructValue::I32(v) => StructValue::I32(*v),
            StructValue::I64(v) => StructValue::I64(*v),
            StructValue::U8(v) => StructValue::U8(*v),
            StructValue::U16(v) => StructValue::U16(*v),
            StructValue::U32(v) => StructValue::U32(*v),
            StructValue::U64(v) => StructValue::U64(*v),
            StructValue::Float(n) => StructValue::Float(*n),
            StructValue::Char(c) => StructValue::Char(*c),
            StructValue::Str(t) => StructValue::Str(t.clone()),
            StructValue::Bytes(bs) => {
                let mut nb: Vec<u8> = Vec::new();
                let mut i: usize = 0;
                while i < bs.len()
                    invariant
                        0 <= i <= bs@.len(),
                        nb@ =~= bs@.take(i as int),
                    decreases bs@.len() - i,
                {
                    nb.push(bs[i]);
                    assert(nb@ =~= bs@.take(i + 1));
                    i = i + 1;
                }
                assert(nb@ =~= bs@);
                StructValue::Bytes(nb)
            },
            StructValue::OptNone => StructValue::OptNone,
            StructValue::OptSome(v) => StructValue::OptSome(Box::new(self::StructValue::duplicate(&**v))),
            StructValue::UnitStruct => StructValue::UnitStruct,
            StructValue::NewtypeStruct(v) => StructValue::NewtypeStruct(
                Box::new(StructValue::duplicate(&**v)),
            ),
            StructValue::List(es) => StructValue::List(duplicate_svals(es)),
            StructValue::Tuple(es) => StructValue::Tuple(duplicate_svals(es)),
            StructValue::TupleStruct(es) => StructValue::TupleStruct(duplicate_svals(es)),
            StructValue::MapOf(ps) => StructValue::MapOf(duplicate_sentries(ps)),
            StructValue::Struct(fs) => StructValue::Struct(duplicate_sfields(fs)),
            StructValue::UnitVariant(n) => StructValue::UnitVariant(n.clone()),
            StructValue::NewtypeVariant(n, v) => StructValue::NewtypeVariant(
                n.clone(),
                Box::new(StructValue::duplicate(&**v)),
            ),
            StructValue::TupleVariant(n, es) => StructValue::TupleVariant(
                n.clone(),
                duplicate_svals(es),
            ),
            StructValue::StructVariant(n, fs) => StructValue::StructVariant(
                n.clone(),
                duplicate_sfields(fs),
            ),
        }
    }
}

/// A deep copy of a value vector, element by element.
fn duplicate_svals(es: &Vec<StructValue>) -> (r: Vec<StructValue>)
    ensures
        view_svals(r@) == view_svals(es@),
    decreases es,
{
    broadcast use vstd::std_specs::vec::group_vec_axioms;

    let mut out: Vec<StructValue> = Vec::new();
    let mut i: usize = 0;
    while i < es.len()
        invariant
            0 <= i <= es@.len(),
            out@.len() == i,
            forall|j: int| 0 <= j < i ==> out@[j]@ == es@[j]@,
        decreases es@.len() - i,
    {
        proof {
            assert(decreases_to!(es => es@));
            assert(decreases_to!(es@ => es@[i as int]));
        }
        out.push(es[i].duplicate());
        i = i + 1;
    }
    proof {
        lemma_view_svals(out@);
        lemma_view_svals(es@);
        assert(view_svals(out@) =~= view_svals(es@));
    }
    out
}

/// A deep copy of a map's entry vector, entry by entry.
fn duplicate_sentries(ps: &Vec<(StructValue, StructValue)>) -> (r: Vec<(StructValue, StructValue)>)
    ensures
        view_sentries(r@) == view_sentries(ps@),
    decreases ps,
{
    broadcast use vstd::std_specs::vec::group_vec_axioms;

    let mut out: Vec<(StructValue, StructValue)> = Vec::new();
    let mut i: usize = 0;
    while i < ps.len()
        invariant
            0 <= i <= ps@.len(),
            out@.len() == i,
            forall|j: int|
                0 <= j < i ==> out@[j].0@ == ps@[j].0@ && out@[j].1@ == ps@[j].1@,
        decreases ps@.len() - i,
    {
        proof {
            assert(decreases_to!(ps => ps@));
            assert(decreases_to!(ps@ => ps@[i as int]));
            assert(decreases_to!(ps@[i as int] => ps@[i as int].0));
            assert(decreases_to!(ps@[i as int] => ps@[i as int].1));
        }
        let k = ps[i].0.duplicate();
        let v = ps[i].1.duplicate();
        out.push((k, v));
        i = i + 1;
    }
    proof {
        lemma_view_sentries(out@);
        lemma_view_sentries(ps@);
        assert(view_sentries(out@) =~= view_sentries(ps@));
    }
    out
}

/// A deep copy of a struct's field-value vector, field by field.
fn duplicate_sfields(fs: &Vec<(String, StructValue)>) -> (r: Vec<(String, StructValue)>)
    ensures
        view_sfields(r@) == view_sfields(fs@),
    decreases fs,
{
    broadcast use vstd::std_specs::vec::group_vec_axioms;

    let mut out: Vec<(String, StructValue)> = Vec::new();
    let mut i: usize = 0;
    while i < fs.len()
        invariant
            0 <= i <= fs@.len(),
            out@.len() == i,
            forall|j: int|
                0 <= j < i ==> out@[j].0@ == fs@[j].0@ && out@[j].1@ == fs@[j].1@,
        decreases fs@.len() - i,
    {
        proof {
            assert(decreases_to!(fs => fs@));
            assert(decreases_to!(fs@ => fs@[i as int]));
            assert(decreases_to!(fs@[i as int] => fs@[i as int].1));
        }
        let k = fs[i].0.clone();
        let v = fs[i].1.duplicate();
        out.push((k, v));
        i = i + 1;
    }
    proof {
        lemma_view_sfields(out@);
        lemma_view_sfields(fs@);
        assert(view_sfields(out@) =~= view_sfields(fs@));
    }
    out
}

} // verus!
