//! The shape-directed decode driver.
//!
//! A [`Shape`] declares the target type field by field: primitives,
//! optionals, sequences, and records with a fixed, ordered list of
//! field names.  [`decode`] walks a shape and, in lock-step, the
//! source value tree, producing a [`Value`] of exactly that shape or
//! the first failure met anywhere in the walk.  The decode result is
//! specified against [`ValueModel`], the mathematical reading of a
//! decoded value.

use vstd::prelude::*;

use crate::de::{
    bool_from, char_from, conv_bool, conv_char, conv_i16, conv_i32, conv_i64, conv_i8,
    conv_optional_absent, conv_str, conv_u16, conv_u32, conv_u64, conv_u8, optional_absent,
    optional_absent_from, resolved_of, signed_from, str_from, unsigned_from, Deserializer,
};
use crate::error::{Error, ErrorKind};
use crate::read::{keyed_lookup, lookup_entries, resolve_spec, AttributeValue, Index, Source};

verus! {

/// A declared target shape: what the caller asks the decoder to
/// reconstruct.
#[derive(Debug)]
pub enum Shape {
    Bool,
    I8,
    I16,
    I32,
    I64,
    U8,
    U16,
    U32,
    U64,
    Char,
    Str,
    /// An optional wrapping of an inner shape.
    Optional(Box<Shape>),
    /// A homogeneous sequence of an element shape.
    List(Box<Shape>),
    /// A record with a fixed, ordered list of field names and shapes.
    Record(Vec<(String, Shape)>),
}

/// A decoded native value, mirroring the shape it was requested with.
#[derive(Debug)]
pub enum Value {
    Bool(bool),
    I8(i8),
    I16(i16),
    I32(i32),
    I64(i64),
    U8(u8),
    U16(u16),
    U32(u32),
    U64(u64),
    Char(char),
    Str(String),
    /// A decoded optional: absent, or the decoded inner value.
    Opt(Option<Box<Value>>),
    /// A decoded sequence.
    List(Vec<Value>),
    /// A decoded record: field names with their decoded values, in
    /// the declared field order.
    Record(Vec<(String, Value)>),
}

/// The mathematical reading of a decoded value: strings as character
/// sequences, containers as sequences.
pub enum ValueModel {
    Bool(bool),
    I8(i8),
    I16(i16),
    I32(i32),
    I64(i64),
    U8(u8),
    U16(u16),
    U32(u32),
    U64(u64),
    Char(char),
    Str(Seq<char>),
    Opt(Option<Box<ValueModel>>),
    List(Seq<ValueModel>),
    Record(Seq<(Seq<char>, ValueModel)>),
}

/// The model of a decoded value.
pub open spec fn value_model(v: Value) -> ValueModel
    decreases v,
{
    match v {
        Value::Bool(b) => ValueModel::Bool(b),
        Value::I8(x) => ValueModel::I8(x),
        Value::I16(x) => ValueModel::I16(x),
        Value::I32(x) => ValueModel::I32(x),
        Value::I64(x) => ValueModel::I64(x),
        Value::U8(x) => ValueModel::U8(x),
        Value::U16(x) => ValueModel::U16(x),
        Value::U32(x) => ValueModel::U32(x),
        Value::U64(x) => ValueModel::U64(x),
        Value::Char(c) => ValueModel::Char(c),
        Value::Str(s) => ValueModel::Str(s@),
        Value::Opt(o) => match o {
            Option::None => ValueModel::Opt(None),
            Option::Some(b) => ValueModel::Opt(Some(Box::new(value_model(*b)))),
        },
        Value::List(items) => ValueModel::List(vals_model(items@)),
        Value::Record(fields) => ValueModel::Record(fields_model(fields@)),
    }
}

/// The models of a sequence of decoded values.
pub open spec fn vals_model(s: Seq<Value>) -> Seq<ValueModel>
    decreases s,
{
    if s.len() == 0 {
        Seq::<ValueModel>::empty()
    } else {
        vals_model(s.drop_last()).push(value_model(s.last()))
    }
}

/// The models of a sequence of decoded record fields.
pub open spec fn fields_model(s: Seq<(String, Value)>) -> Seq<(Seq<char>, ValueModel)>
    decreases s,
{
    if s.len() == 0 {
        Seq::<(Seq<char>, ValueModel)>::empty()
    } else {
        fields_model(s.drop_last()).push((s.last().0@, value_model(s.last().1)))
    }
}

/// The decode of `shape` from a value already resolved at `at`:
/// primitives convert the value, optionals test for absence, lists
/// and nested records recurse into the value's own elements.
pub open spec fn decode_value_spec(shape: Shape, got: Option<AttributeValue>, at: Index) -> Result<
    ValueModel,
    Error,
>
    decreases shape, 0int,
{
    match shape {
        Shape::Bool => match bool_from(got, at) {
            Ok(b) => Ok(ValueModel::Bool(b)),
            Err(e) => Err(e),
        },
        Shape::I8 => match signed_from(got, at, i8::MIN as int, i8::MAX as int) {
            Ok(v) => Ok(ValueModel::I8(v as i8)),
            Err(e) => Err(e),
        },
        Shape::I16 => match signed_from(got, at, i16::MIN as int, i16::MAX as int) {
            Ok(v) => Ok(ValueModel::I16(v as i16)),
            Err(e) => Err(e),
        },
        Shape::I32 => match signed_from(got, at, i32::MIN as int, i32::MAX as int) {
            Ok(v) => Ok(ValueModel::I32(v as i32)),
            Err(e) => Err(e),
        },
        Shape::I64 => match signed_from(got, at, i64::MIN as int, i64::MAX as int) {
            Ok(v) => Ok(ValueModel::I64(v as i64)),
            Err(e) => Err(e),
        },
        Shape::U8 => match unsigned_from(got, at, u8::MAX as int) {
            Ok(v) => Ok(ValueModel::U8(v as u8)),
            Err(e) => Err(e),
        },
        Shape::U16 => match unsigned_from(got, at, u16::MAX as int) {
            Ok(v) => Ok(ValueModel::U16(v as u16)),
            Err(e) => Err(e),
        },
        Shape::U32 => match unsigned_from(got, at, u32::MAX as int) {
            Ok(v) => Ok(ValueModel::U32(v as u32)),
            Err(e) => Err(e),
        },
        Shape::U64 => match unsigned_from(got, at, u64::MAX as int) {
            Ok(v) => Ok(ValueModel::U64(v as u64)),
            Err(e) => Err(e),
        },
        Shape::Char => match char_from(got, at) {
            Ok(c) => Ok(ValueModel::Char(c)),
            Err(e) => Err(e),
        },
        Shape::Str => match str_from(got, at) {
            Ok(s) => Ok(ValueModel::Str(s)),
            Err(e) => Err(e),
        },
        Shape::Optional(inner) => if optional_absent_from(got) {
            Ok(ValueModel::Opt(None))
        } else {
            match decode_value_spec(*inner, got, at) {
                Ok(v) => Ok(ValueModel::Opt(Some(Box::new(v)))),
                Err(e) => Err(e),
            }
        },
        Shape::List(elem) => match got {
            None => Err(Error { kind: ErrorKind::MissingValue, at }),
            Some(av) => match av {
                AttributeValue::List(items) => match decode_elems_spec(
                    *elem,
                    items@,
                    items@.len() as int,
                ) {
                    Ok(vs) => Ok(ValueModel::List(vs)),
                    Err(e) => Err(e),
                },
                _ => Err(Error { kind: ErrorKind::TypeMismatch, at }),
            },
        },
        Shape::Record(fields) => match got {
            None => Err(Error { kind: ErrorKind::MissingValue, at }),
            Some(av) => match av {
                AttributeValue::Mapping(m) => match decode_fields_spec(
                    fields@,
                    m@,
                    fields@.len() as int,
                ) {
                    Ok(fvs) => Ok(ValueModel::Record(fvs)),
                    Err(e) => Err(e),
                },
                _ => Err(Error { kind: ErrorKind::TypeMismatch, at }),
            },
        },
    }
}

/// The decode of the first `i` elements of a list, in order; the
/// first failure aborts the whole list.
pub open spec fn decode_elems_spec(elem: Shape, items: Seq<AttributeValue>, i: int) -> Result<
    Seq<ValueModel>,
    Error,
>
    decreases elem, i,
{
    if i <= 0 {
        Ok(Seq::<ValueModel>::empty())
    } else {
        match decode_elems_spec(elem, items, i - 1) {
            Err(e) => Err(e),
            Ok(pre) => match decode_value_spec(
                elem,
                Some(items[i - 1]),
                Index::Position((i - 1) as usize),
            ) {
                Err(e) => Err(e),
                Ok(v) => Ok(pre.push(v)),
            },
        }
    }
}

/// The decode of the first `i` declared fields of a record against an
/// entry list, each field looked up by name; the first failure aborts
/// the whole record.
pub open spec fn decode_fields_spec(
    fields: Seq<(String, Shape)>,
    entries: Seq<(String, AttributeValue)>,
    i: int,
) -> Result<Seq<(Seq<char>, ValueModel)>, Error>
    decreases fields, i,
{
    if i <= 0 || i > fields.len() {
        Ok(Seq::<(Seq<char>, ValueModel)>::empty())
    } else {
        match decode_fields_spec(fields, entries, i - 1) {
            Err(e) => Err(e),
            Ok(pre) => {
                let name = fields[i - 1].0;
                match decode_value_spec(
                    fields[i - 1].1,
                    keyed_lookup(entries, name@),
                    Index::Name(name),
                ) {
                    Err(e) => Err(e),
                    Ok(v) => Ok(pre.push((name@, v))),
                }
            },
        }
    }
}

/// The entry list a root record decode walks: the entries of a keyed
/// source, and nothing for a positional one.
pub open spec fn entries_of(src: Source) -> Seq<(String, AttributeValue)> {
    match src {
        Source::Keyed(entries) => entries@,
        Source::Positional(_) => Seq::<(String, AttributeValue)>::empty(),
    }
}

/// The decode of `shape` at cursor `idx` against `src`.  A record at
/// the root cursor reads the source's own entries; everything else
/// first resolves the cursor.
pub open spec fn decode_spec(shape: Shape, src: Source, idx: Index) -> Result<ValueModel, Error>
    decreases shape, 1int,
{
    match shape {
        Shape::Record(fields) => match idx {
            Index::Root => match decode_fields_spec(fields@, entries_of(src), fields@.len() as int) {
                Ok(fvs) => Ok(ValueModel::Record(fvs)),
                Err(e) => Err(e),
            },
            _ => decode_value_spec(shape, resolve_spec(src, idx), idx),
        },
        _ => decode_value_spec(shape, resolve_spec(src, idx), idx),
    }
}

/// States one unfolding of `value_model` that the solver does not
/// take by itself inside the large decode proof.
proof fn lemma_value_model_char(c: char)
    ensures
        value_model(Value::Char(c)) == ValueModel::Char(c),
{
}

/// Law: decoding a `Boolean` value as a boolean yields exactly that
/// boolean.
pub proof fn lemma_decode_bool_exact(src: Source, idx: Index, b: bool)
    requires
        resolve_spec(src, idx) == Some(AttributeValue::Boolean(b)),
    ensures
        decode_spec(Shape::Bool, src, idx) == Ok::<ValueModel, Error>(ValueModel::Bool(b)),
{
}

/// Law: decoding a `Text` value as a string yields exactly its text,
/// and as a character yields its only character when it has exactly
/// one.
pub proof fn lemma_decode_text_exact(src: Source, idx: Index, s: String)
    requires
        resolve_spec(src, idx) == Some(AttributeValue::Text(s)),
    ensures
        decode_spec(Shape::Str, src, idx) == Ok::<ValueModel, Error>(ValueModel::Str(s@)),
        s@.len() == 1 ==> decode_spec(Shape::Char, src, idx) == Ok::<ValueModel, Error>(
            ValueModel::Char(s@[0]),
        ),
{
}

/// Law: decoding a `NumericText` value whose text reads as the signed
/// number `n` yields exactly `n` at every signed width that admits it.
pub proof fn lemma_decode_signed_exact(src: Source, idx: Index, s: String, n: int)
    requires
        resolve_spec(src, idx) == Some(AttributeValue::NumericText(s)),
        crate::numeric::spec_parse_signed(s@) == Some(n),
    ensures
        i8::MIN as int <= n <= i8::MAX as int ==> decode_spec(Shape::I8, src, idx) == Ok::<
            ValueModel,
            Error,
        >(ValueModel::I8(n as i8)),
        i16::MIN as int <= n <= i16::MAX as int ==> decode_spec(Shape::I16, src, idx) == Ok::<
            ValueModel,
            Error,
        >(ValueModel::I16(n as i16)),
        i32::MIN as int <= n <= i32::MAX as int ==> decode_spec(Shape::I32, src, idx) == Ok::<
            ValueModel,
            Error,
        >(ValueModel::I32(n as i32)),
        i64::MIN as int <= n <= i64::MAX as int ==> decode_spec(Shape::I64, src, idx) == Ok::<
            ValueModel,
            Error,
        >(ValueModel::I64(n as i64)),
{
}

/// Law: decoding a `NumericText` value whose text reads as the
/// unsigned number `n` yields exactly `n` at every unsigned width
/// that admits it.
pub proof fn lemma_decode_unsigned_exact(src: Source, idx: Index, s: String, n: int)
    requires
        resolve_spec(src, idx) == Some(AttributeValue::NumericText(s)),
        crate::numeric::spec_parse_unsigned(s@) == Some(n),
    ensures
        0 <= n <= u8::MAX as int ==> decode_spec(Shape::U8, src, idx) == Ok::<ValueModel, Error>(
            ValueModel::U8(n as u8),
        ),
        0 <= n <= u16::MAX as int ==> decode_spec(Shape::U16, src, idx) == Ok::<
            ValueModel,
            Error,
        >(ValueModel::U16(n as u16)),
        0 <= n <= u32::MAX as int ==> decode_spec(Shape::U32, src, idx) == Ok::<
            ValueModel,
            Error,
        >(ValueModel::U32(n as u32)),
        0 <= n <= u64::MAX as int ==> decode_spec(Shape::U64, src, idx) == Ok::<
            ValueModel,
            Error,
        >(ValueModel::U64(n as u64)),
{
}

/// Law: when the cursor resolves to nothing, every required primitive
/// decode fails with a missing-value error naming the cursor, while a
/// string decode yields the empty string.
pub proof fn lemma_decode_absent(src: Source, idx: Index)
    requires
        resolve_spec(src, idx) is None,
    ensures
        decode_spec(Shape::Bool, src, idx) == Err::<ValueModel, Error>(
            Error { kind: ErrorKind::MissingValue, at: idx },
        ),
        decode_spec(Shape::I8, src, idx) == Err::<ValueModel, Error>(
            Error { kind: ErrorKind::MissingValue, at: idx },
        ),
        decode_spec(Shape::I16, src, idx) == Err::<ValueModel, Error>(
            Error { kind: ErrorKind::MissingValue, at: idx },
        ),
        decode_spec(Shape::I32, src, idx) == Err::<ValueModel, Error>(
            Error { kind: ErrorKind::MissingValue, at: idx },
        ),
        decode_spec(Shape::I64, src, idx) == Err::<ValueModel, Error>(
            Error { kind: ErrorKind::MissingValue, at: idx },
        ),
        decode_spec(Shape::U8, src, idx) == Err::<ValueModel, Error>(
            Error { kind: ErrorKind::MissingValue, at: idx },
        ),
        decode_spec(Shape::U16, src, idx) == Err::<ValueModel, Error>(
            Error { kind: ErrorKind::MissingValue, at: idx },
        ),
        decode_spec(Shape::U32, src, idx) == Err::<ValueModel, Error>(
            Error { kind: ErrorKind::MissingValue, at: idx },
        ),
        decode_spec(Shape::U64, src, idx) == Err::<ValueModel, Error>(
            Error { kind: ErrorKind::MissingValue, at: idx },
        ),
        decode_spec(Shape::Char, src, idx) == Err::<ValueModel, Error>(
            Error { kind: ErrorKind::MissingValue, at: idx },
        ),
        decode_spec(Shape::Str, src, idx) == Ok::<ValueModel, Error>(
            ValueModel::Str(Seq::<char>::empty()),
        ),
{
}

/// Law: an optional decode is absent both when the cursor resolves to
/// nothing and when it resolves to an explicit null marker; otherwise
/// it is exactly the decode of the wrapped shape, wrapped as present.
pub proof fn lemma_decode_optional(inner: Shape, src: Source, idx: Index)
    ensures
        resolve_spec(src, idx) is None ==> decode_spec(Shape::Optional(Box::new(inner)), src, idx)
            == Ok::<ValueModel, Error>(ValueModel::Opt(None)),
        resolve_spec(src, idx) == Some(AttributeValue::Null(true)) ==> decode_spec(
            Shape::Optional(Box::new(inner)),
            src,
            idx,
        ) == Ok::<ValueModel, Error>(ValueModel::Opt(None)),
        !optional_absent(src, idx) ==> decode_spec(Shape::Optional(Box::new(inner)), src, idx)
            == (match decode_spec(inner, src, idx) {
            Ok(v) => Ok::<ValueModel, Error>(ValueModel::Opt(Some(Box::new(v)))),
            Err(e) => Err::<ValueModel, Error>(e),
        }),
{
    if !optional_absent(src, idx) {
        match idx {
            Index::Root => {
                assert(resolve_spec(src, idx) is None);
            },
            _ => {
                assert(decode_spec(inner, src, idx) == decode_value_spec(
                    inner,
                    resolve_spec(src, idx),
                    idx,
                ));
            },
        }
    }
}

/// Helper for the list law: a list whose first `k` elements each
/// decode successfully decodes to exactly those `k` results, in order.
proof fn lemma_elems_all_ok(elem: Shape, items: Seq<AttributeValue>, k: int)
    requires
        0 <= k <= items.len(),
        forall|i: int|
            0 <= i < k ==> (#[trigger] decode_value_spec(
                elem,
                Some(items[i]),
                Index::Position(i as usize),
            )) is Ok,
    ensures
        decode_elems_spec(elem, items, k) is Ok,
        decode_elems_spec(elem, items, k)->Ok_0.len() == k,
        forall|i: int|
            0 <= i < k ==> decode_elems_spec(elem, items, k)->Ok_0[i] == (
            #[trigger] decode_value_spec(elem, Some(items[i]), Index::Position(i as usize)))->Ok_0,
    decreases k,
{
    if k > 0 {
        lemma_elems_all_ok(elem, items, k - 1);
        let pre = decode_elems_spec(elem, items, k - 1)->Ok_0;
        let step = decode_value_spec(elem, Some(items[k - 1]), Index::Position((k - 1) as usize));
        assert(step is Ok);
        assert(decode_elems_spec(elem, items, k) == Ok::<Seq<ValueModel>, Error>(
            pre.push(step->Ok_0),
        ));
    }
}

/// Law: a positional source presents exactly the contiguous positions
/// from 0 up to its length — a sequence decode therefore stops at the
/// first missing position, which is the end of the list.
pub proof fn lemma_positional_presence(items: Vec<AttributeValue>, i: usize)
    ensures
        resolve_spec(Source::Positional(items), Index::Position(i)) is Some <==> (i as int)
            < items@.len(),
        (i as int) < items@.len() ==> resolve_spec(Source::Positional(items), Index::Position(i))
            == Some(items@[i as int]),
{
}

/// Law: a list of homogeneous elements that all decode round-trips:
/// element `i` decodes independently and in order, and the result has
/// exactly one entry per present position.
pub proof fn lemma_decode_list(elem: Shape, src: Source, idx: Index, items: Vec<AttributeValue>)
    requires
        resolve_spec(src, idx) == Some(AttributeValue::List(items)),
        forall|i: int|
            0 <= i < items@.len() ==> (#[trigger] decode_value_spec(
                elem,
                Some(items@[i]),
                Index::Position(i as usize),
            )) is Ok,
    ensures
        decode_spec(Shape::List(Box::new(elem)), src, idx) matches Ok(m) && m matches
            ValueModel::List(vs) && vs.len() == items@.len() && (forall|i: int|
            0 <= i < items@.len() ==> vs[i] == (#[trigger] decode_value_spec(
                elem,
                Some(items@[i]),
                Index::Position(i as usize),
            ))->Ok_0),
{
    lemma_elems_all_ok(elem, items@, items@.len() as int);
}

/// Whether the keys of an entry list are pairwise distinct.
pub open spec fn keys_unique(entries: Seq<(String, AttributeValue)>) -> bool {
    forall|i: int, j: int|
        0 <= i < j < entries.len() ==> (#[trigger] entries[i].0@) != (#[trigger] entries[j].0@)
}

/// Law: under unique keys, a keyed lookup finds an entry wherever it
/// stands in the list — the mapping's internal ordering is irrelevant.
pub proof fn lemma_keyed_lookup_any_position(entries: Seq<(String, AttributeValue)>, j: int)
    requires
        keys_unique(entries),
        0 <= j < entries.len(),
    ensures
        keyed_lookup(entries, entries[j].0@) == Some(entries[j].1),
    decreases entries.len(),
{
    if j > 0 {
        assert(entries[0].0@ != entries[j].0@);
        assert(keys_unique(entries.skip(1))) by {
            assert(forall|a: int, b: int|
                0 <= a < b < entries.skip(1).len() ==> entries.skip(1)[a] == entries[a + 1]
                    && entries.skip(1)[b] == entries[b + 1]);
        }
        lemma_keyed_lookup_any_position(entries.skip(1), j - 1);
        assert(entries.skip(1)[j - 1] == entries[j]);
    }
}

/// Law: a record decode reads the source mapping only through lookups
/// of the declared field names: two entry lists that answer those
/// lookups alike decode alike, whatever their internal order.
pub proof fn lemma_record_decode_by_lookup(
    fields: Seq<(String, Shape)>,
    e1: Seq<(String, AttributeValue)>,
    e2: Seq<(String, AttributeValue)>,
    i: int,
)
    requires
        forall|j: int|
            0 <= j < fields.len() ==> keyed_lookup(e1, (#[trigger] fields[j].0)@) == keyed_lookup(
                e2,
                fields[j].0@,
            ),
    ensures
        decode_fields_spec(fields, e1, i) == decode_fields_spec(fields, e2, i),
    decreases i,
{
    if i > 0 {
        lemma_record_decode_by_lookup(fields, e1, e2, i - 1);
    }
}

/// Law: a present value of the wrong variant is a type-mismatch
/// failure that names the cursor it was met at.
pub proof fn lemma_decode_mismatch(
    src: Source,
    idx: Index,
    av: AttributeValue,
    elem: Shape,
    fields: Vec<(String, Shape)>,
)
    requires
        resolve_spec(src, idx) == Some(av),
    ensures
        !(av is Boolean) ==> decode_spec(Shape::Bool, src, idx) == Err::<ValueModel, Error>(
            Error { kind: ErrorKind::TypeMismatch, at: idx },
        ),
        !(av is NumericText) ==> decode_spec(Shape::I8, src, idx) == Err::<ValueModel, Error>(
            Error { kind: ErrorKind::TypeMismatch, at: idx },
        ),
        !(av is NumericText) ==> decode_spec(Shape::I16, src, idx) == Err::<ValueModel, Error>(
            Error { kind: ErrorKind::TypeMismatch, at: idx },
        ),
        !(av is NumericText) ==> decode_spec(Shape::I32, src, idx) == Err::<ValueModel, Error>(
            Error { kind: ErrorKind::TypeMismatch, at: idx },
        ),
        !(av is NumericText) ==> decode_spec(Shape::I64, src, idx) == Err::<ValueModel, Error>(
            Error { kind: ErrorKind::TypeMismatch, at: idx },
        ),
        !(av is NumericText) ==> decode_spec(Shape::U8, src, idx) == Err::<ValueModel, Error>(
            Error { kind: ErrorKind::TypeMismatch, at: idx },
        ),
        !(av is NumericText) ==> decode_spec(Shape::U16, src, idx) == Err::<ValueModel, Error>(
            Error { kind: ErrorKind::TypeMismatch, at: idx },
        ),
        !(av is NumericText) ==> decode_spec(Shape::U32, src, idx) == Err::<ValueModel, Error>(
            Error { kind: ErrorKind::TypeMismatch, at: idx },
        ),
        !(av is NumericText) ==> decode_spec(Shape::U64, src, idx) == Err::<ValueModel, Error>(
            Error { kind: ErrorKind::TypeMismatch, at: idx },
        ),
        !(av is Text) ==> decode_spec(Shape::Char, src, idx) == Err::<ValueModel, Error>(
            Error { kind: ErrorKind::TypeMismatch, at: idx },
        ),
        !(av is Text) ==> decode_spec(Shape::Str, src, idx) == Err::<ValueModel, Error>(
            Error { kind: ErrorKind::TypeMismatch, at: idx },
        ),
        !(av is List) ==> decode_spec(Shape::List(Box::new(elem)), src, idx) == Err::<
            ValueModel,
            Error,
        >(Error { kind: ErrorKind::TypeMismatch, at: idx }),
        !(av is Mapping) && !(idx is Root) ==> decode_spec(Shape::Record(fields), src, idx)
            == Err::<ValueModel, Error>(Error { kind: ErrorKind::TypeMismatch, at: idx }),
{
}

/// A list decode that has failed by element `k` stays failed however
/// many further elements the list asks for.
proof fn lemma_elems_err_persists(elem: Shape, items: Seq<AttributeValue>, k: int, m: int)
    requires
        0 <= k <= m,
        decode_elems_spec(elem, items, k) is Err,
    ensures
        decode_elems_spec(elem, items, m) == decode_elems_spec(elem, items, k),
    decreases m - k,
{
    if m > k {
        lemma_elems_err_persists(elem, items, k, m - 1);
    }
}

/// A record decode that has failed by field `k` stays failed through
/// the rest of the declared field list.
proof fn lemma_fields_err_persists(
    fields: Seq<(String, Shape)>,
    entries: Seq<(String, AttributeValue)>,
    k: int,
    m: int,
)
    requires
        0 <= k <= m <= fields.len(),
        decode_fields_spec(fields, entries, k) is Err,
    ensures
        decode_fields_spec(fields, entries, m) == decode_fields_spec(fields, entries, k),
    decreases m - k,
{
    if m > k {
        lemma_fields_err_persists(fields, entries, k, m - 1);
    }
}

/// Decode the declared fields of a record, in order, against an entry
/// list, looking each field up by its name.
#[verifier::loop_isolation(false)]
fn decode_fields(fields: &Vec<(String, Shape)>, entries: &Vec<(String, AttributeValue)>) -> (r:
    Result<Vec<(String, Value)>, Error>)
    ensures
        match r {
            Ok(fvs) => decode_fields_spec(fields@, entries@, fields@.len() as int) == Ok::<
                Seq<(Seq<char>, ValueModel)>,
                Error,
            >(fields_model(fvs@)),
            Err(e) => decode_fields_spec(fields@, entries@, fields@.len() as int) == Err::<
                Seq<(Seq<char>, ValueModel)>,
                Error,
            >(e),
        },
    decreases fields@,
{
    let n = fields.len();
    let mut out: Vec<(String, Value)> = Vec::new();
    for i in 0..n
        invariant
            out@.len() == i,
            decode_fields_spec(fields@, entries@, i as int) == Ok::<
                Seq<(Seq<char>, ValueModel)>,
                Error,
            >(fields_model(out@)),
    {
        let name = fields[i].0.clone();
        let idx_f = Index::Name(name.clone());
        let got_f = lookup_entries(entries, &name);
        match decode_value(&fields[i].1, got_f, &idx_f) {
            Err(e) => {
                proof {
                    assert(decode_fields_spec(fields@, entries@, i + 1) == Err::<
                        Seq<(Seq<char>, ValueModel)>,
                        Error,
                    >(e));
                    lemma_fields_err_persists(fields@, entries@, i + 1, fields@.len() as int);
                }
                return Err(e);
            },
            Ok(v) => {
                proof {
                    assert(out@.push((name, v)).drop_last() =~= out@);
                }
                out.push((name, v));
            },
        }
    }
    Ok(out)
}

/// Decode `shape` from a value already resolved at `at`: primitives
/// convert it, optionals test it for absence, lists and nested
/// records recurse into its elements.
#[verifier::loop_isolation(false)]
#[verifier::rlimit(60)]
pub fn decode_value(shape: &Shape, got: Option<&AttributeValue>, at: &Index) -> (r: Result<
    Value,
    Error,
>)
    ensures
        match r {
            Ok(v) => decode_value_spec(*shape, resolved_of(got), *at) == Ok::<ValueModel, Error>(
                value_model(v),
            ),
            Err(e) => decode_value_spec(*shape, resolved_of(got), *at) == Err::<ValueModel, Error>(
                e,
            ),
        },
    decreases *shape,
{
    match shape {
        Shape::Bool => match conv_bool(got, at) {
            Ok(b) => Ok(Value::Bool(b)),
            Err(e) => Err(e),
        },
        Shape::I8 => match conv_i8(got, at) {
            Ok(x) => Ok(Value::I8(x)),
            Err(e) => Err(e),
        },
        Shape::I16 => match conv_i16(got, at) {
            Ok(x) => Ok(Value::I16(x)),
            Err(e) => Err(e),
        },
        Shape::I32 => match conv_i32(got, at) {
            Ok(x) => Ok(Value::I32(x)),
            Err(e) => Err(e),
        },
        Shape::I64 => match conv_i64(got, at) {
            Ok(x) => Ok(Value::I64(x)),
            Err(e) => Err(e),
        },
        Shape::U8 => match conv_u8(got, at) {
            Ok(x) => Ok(Value::U8(x)),
            Err(e) => Err(e),
        },
        Shape::U16 => match conv_u16(got, at) {
            Ok(x) => Ok(Value::U16(x)),
            Err(e) => Err(e),
        },
        Shape::U32 => match conv_u32(got, at) {
            Ok(x) => Ok(Value::U32(x)),
            Err(e) => Err(e),
        },
        Shape::U64 => match conv_u64(got, at) {
            Ok(x) => Ok(Value::U64(x)),
            Err(e) => Err(e),
        },
        Shape::Char => match conv_char(got, at) {
            Ok(c) => {
                proof {
                    lemma_value_model_char(c);
                }
                Ok(Value::Char(c))
            },
            Err(e) => Err(e),
        },
        Shape::Str => match conv_str(got, at) {
            Ok(s) => Ok(Value::Str(s)),
            Err(e) => Err(e),
        },
        Shape::Optional(inner) => {
            if conv_optional_absent(got) {
                Ok(Value::Opt(None))
            } else {
                match decode_value(inner, got, at) {
                    Ok(v) => Ok(Value::Opt(Some(Box::new(v)))),
                    Err(e) => Err(e),
                }
            }
        },
        Shape::List(elem) => match got {
            None => Err(Error { kind: ErrorKind::MissingValue, at: at.clone() }),
            Some(av) => match av {
                AttributeValue::List(items) => {
                    let n = items.len();
                    let mut out: Vec<Value> = Vec::new();
                    for i in 0..n
                        invariant
                            out@.len() == i,
                            decode_elems_spec(**elem, items@, i as int) == Ok::<
                                Seq<ValueModel>,
                                Error,
                            >(vals_model(out@)),
                    {
                        let idx_i = Index::Position(i);
                        match decode_value(elem, Some(&items[i]), &idx_i) {
                            Err(e) => {
                                proof {
                                    assert(decode_elems_spec(**elem, items@, i + 1) == Err::<
                                        Seq<ValueModel>,
                                        Error,
                                    >(e));
                                    lemma_elems_err_persists(**elem, items@, i + 1, n as int);
                                }
                                return Err(e);
                            },
                            Ok(v) => {
                                proof {
                                    assert(out@.push(v).drop_last() =~= out@);
                                }
                                out.push(v);
                            },
                        }
                    }
                    Ok(Value::List(out))
                },
                _ => Err(Error { kind: ErrorKind::TypeMismatch, at: at.clone() }),
            },
        },
        Shape::Record(fields) => match got {
            None => Err(Error { kind: ErrorKind::MissingValue, at: at.clone() }),
            Some(av) => match av {
                AttributeValue::Mapping(m) => match decode_fields(fields, m) {
                    Ok(fvs) => Ok(Value::Record(fvs)),
                    Err(e) => Err(e),
                },
                _ => Err(Error { kind: ErrorKind::TypeMismatch, at: at.clone() }),
            },
        },
    }
}

/// Decode `shape` at the decoder's current cursor against its source.
/// A record at the root cursor reads the source's own entries;
/// everything else first resolves the cursor.
pub fn decode(shape: &Shape, de: &Deserializer) -> (r: Result<Value, Error>)
    ensures
        match r {
            Ok(v) => decode_spec(*shape, de.read, de.current_field) == Ok::<ValueModel, Error>(
                value_model(v),
            ),
            Err(e) => decode_spec(*shape, de.read, de.current_field) == Err::<ValueModel, Error>(
                e,
            ),
        },
{
    match shape {
        Shape::Record(fields) => match &de.current_field {
            Index::Root => {
                let fr = match &de.read {
                    Source::Keyed(entries) => decode_fields(fields, entries),
                    Source::Positional(_) => {
                        let empty: Vec<(String, AttributeValue)> = Vec::new();
                        proof {
                            assert(empty@ =~= entries_of(de.read));
                        }
                        decode_fields(fields, &empty)
                    },
                };
                match fr {
                    Ok(fvs) => Ok(Value::Record(fvs)),
                    Err(e) => Err(e),
                }
            },
            _ => decode_value(shape, de.resolve(), &de.current_field),
        },
        _ => decode_value(shape, de.resolve(), &de.current_field),
    }
}

/// Decode one stored item into the declared target shape: build the
/// root keyed source over the item's attributes and decode the shape
/// at the root cursor.
pub fn from_hashmap(hm: Vec<(String, AttributeValue)>, shape: &Shape) -> (r: Result<Value, Error>)
    ensures
        match r {
            Ok(v) => decode_spec(*shape, Source::Keyed(hm), Index::Root) == Ok::<
                ValueModel,
                Error,
            >(value_model(v)),
            Err(e) => decode_spec(*shape, Source::Keyed(hm), Index::Root) == Err::<
                ValueModel,
                Error,
            >(e),
        },
{
    let de = Deserializer::new(Source::Keyed(hm));
    decode(shape, &de)
}

} // verus!
