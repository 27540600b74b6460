//! The decoder: one source, one cursor, and the primitive conversions.
//!
//! A [`Deserializer`] owns a [`Source`] and a current [`Index`]; each
//! decode request resolves the cursor against the source and converts
//! the tagged value found there to the exact native type requested.  A
//! missing value is a failure for every primitive except strings,
//! which decode to the empty string; a wrong variant or an unparsable
//! payload is always a failure.  [`SeqAccess`] and [`MapAccess`] drive
//! repeated requests against a positional and a keyed source.

use vstd::prelude::*;

use crate::error::{Error, ErrorKind};
use crate::numeric::{parse_i64, parse_u64, spec_parse_signed, spec_parse_unsigned};
use crate::read::{resolve_spec, AttributeValue, Index, Source};

verus! {

/// The resolved value an `Option<&AttributeValue>` stands for.
pub open spec fn resolved_of(got: Option<&AttributeValue>) -> Option<AttributeValue> {
    match got {
        Some(v) => Some(*v),
        None => None,
    }
}

/// The outcome of a boolean conversion of the value resolved at `at`.
pub open spec fn bool_from(resolved: Option<AttributeValue>, at: Index) -> Result<bool, Error> {
    match resolved {
        None => Err(Error { kind: ErrorKind::MissingValue, at }),
        Some(av) => match av {
            AttributeValue::Boolean(b) => Ok(b),
            _ => Err(Error { kind: ErrorKind::TypeMismatch, at }),
        },
    }
}

/// The outcome of a signed numeric conversion of the value resolved
/// at `at`, for a target width whose values span `min ..= max`.
pub open spec fn signed_from(
    resolved: Option<AttributeValue>,
    at: Index,
    min: int,
    max: int,
) -> Result<int, Error> {
    match resolved {
        None => Err(Error { kind: ErrorKind::MissingValue, at }),
        Some(av) => match av {
            AttributeValue::NumericText(s) => match spec_parse_signed(s@) {
                Some(v) => if min <= v && v <= max {
                    Ok(v)
                } else {
                    Err(Error { kind: ErrorKind::ParseFailure, at })
                },
                None => Err(Error { kind: ErrorKind::ParseFailure, at }),
            },
            _ => Err(Error { kind: ErrorKind::TypeMismatch, at }),
        },
    }
}

/// The outcome of an unsigned numeric conversion of the value resolved
/// at `at`, for a target width whose values span `0 ..= max`.
pub open spec fn unsigned_from(resolved: Option<AttributeValue>, at: Index, max: int) -> Result<
    int,
    Error,
> {
    match resolved {
        None => Err(Error { kind: ErrorKind::MissingValue, at }),
        Some(av) => match av {
            AttributeValue::NumericText(s) => match spec_parse_unsigned(s@) {
                Some(v) => if v <= max {
                    Ok(v)
                } else {
                    Err(Error { kind: ErrorKind::ParseFailure, at })
                },
                None => Err(Error { kind: ErrorKind::ParseFailure, at }),
            },
            _ => Err(Error { kind: ErrorKind::TypeMismatch, at }),
        },
    }
}

/// The outcome of a single-character conversion of the value resolved
/// at `at`: its text payload must hold exactly one character.
pub open spec fn char_from(resolved: Option<AttributeValue>, at: Index) -> Result<char, Error> {
    match resolved {
        None => Err(Error { kind: ErrorKind::MissingValue, at }),
        Some(av) => match av {
            AttributeValue::Text(s) => if s@.len() == 1 {
                Ok(s@[0])
            } else {
                Err(Error { kind: ErrorKind::ParseFailure, at })
            },
            _ => Err(Error { kind: ErrorKind::TypeMismatch, at }),
        },
    }
}

/// The outcome of a string conversion of the value resolved at `at`,
/// as a character sequence.  Absence yields the empty string; a
/// present value of any other variant is a failure.
pub open spec fn str_from(resolved: Option<AttributeValue>, at: Index) -> Result<Seq<char>, Error> {
    match resolved {
        None => Ok(Seq::<char>::empty()),
        Some(av) => match av {
            AttributeValue::Text(s) => Ok(s@),
            _ => Err(Error { kind: ErrorKind::TypeMismatch, at }),
        },
    }
}

/// Whether an optional conversion of the resolved value reports
/// absence: nothing there, or an explicit null marker.
pub open spec fn optional_absent_from(resolved: Option<AttributeValue>) -> bool {
    match resolved {
        None => true,
        Some(av) => av == AttributeValue::Null(true),
    }
}

/// The outcome of a boolean decode at `idx` against `src`.
pub open spec fn bool_outcome(src: Source, idx: Index) -> Result<bool, Error> {
    bool_from(resolve_spec(src, idx), idx)
}

/// The outcome of a signed numeric decode at `idx` against `src`.
pub open spec fn signed_outcome(src: Source, idx: Index, min: int, max: int) -> Result<
    int,
    Error,
> {
    signed_from(resolve_spec(src, idx), idx, min, max)
}

/// The outcome of an unsigned numeric decode at `idx` against `src`.
pub open spec fn unsigned_outcome(src: Source, idx: Index, max: int) -> Result<int, Error> {
    unsigned_from(resolve_spec(src, idx), idx, max)
}

/// The outcome of a single-character decode at `idx` against `src`.
pub open spec fn char_outcome(src: Source, idx: Index) -> Result<char, Error> {
    char_from(resolve_spec(src, idx), idx)
}

/// The outcome of a string decode at `idx` against `src`.
pub open spec fn str_outcome(src: Source, idx: Index) -> Result<Seq<char>, Error> {
    str_from(resolve_spec(src, idx), idx)
}

/// Whether an optional decode at `idx` against `src` reports absence.
pub open spec fn optional_absent(src: Source, idx: Index) -> bool {
    optional_absent_from(resolve_spec(src, idx))
}

/// Convert a resolved value to a boolean.
pub fn conv_bool(got: Option<&AttributeValue>, at: &Index) -> (r: Result<bool, Error>)
    ensures
        r == bool_from(resolved_of(got), *at),
{
    match got {
        None => Err(Error { kind: ErrorKind::MissingValue, at: at.clone() }),
        Some(av) => match av {
            AttributeValue::Boolean(b) => Ok(*b),
            _ => Err(Error { kind: ErrorKind::TypeMismatch, at: at.clone() }),
        },
    }
}

/// Convert a resolved value to a 64-bit signed integer.
pub fn conv_i64(got: Option<&AttributeValue>, at: &Index) -> (r: Result<i64, Error>)
    ensures
        match r {
            Ok(x) => signed_from(resolved_of(got), *at, i64::MIN as int, i64::MAX as int)
                == Ok::<int, Error>(x as int),
            Err(e) => signed_from(resolved_of(got), *at, i64::MIN as int, i64::MAX as int)
                == Err::<int, Error>(e),
        },
{
    match got {
        None => Err(Error { kind: ErrorKind::MissingValue, at: at.clone() }),
        Some(av) => match av {
            AttributeValue::NumericText(s) => match parse_i64(s.as_str()) {
                Some(v) => Ok(v),
                None => Err(Error { kind: ErrorKind::ParseFailure, at: at.clone() }),
            },
            _ => Err(Error { kind: ErrorKind::TypeMismatch, at: at.clone() }),
        },
    }
}

/// Convert a resolved value to an 8-bit signed integer.
pub fn conv_i8(got: Option<&AttributeValue>, at: &Index) -> (r: Result<i8, Error>)
    ensures
        match r {
            Ok(x) => signed_from(resolved_of(got), *at, i8::MIN as int, i8::MAX as int)
                == Ok::<int, Error>(x as int),
            Err(e) => signed_from(resolved_of(got), *at, i8::MIN as int, i8::MAX as int)
                == Err::<int, Error>(e),
        },
{
    match conv_i64(got, at) {
        Err(e) => Err(e),
        Ok(v) => if i8::MIN as i64 <= v && v <= i8::MAX as i64 {
            Ok(v as i8)
        } else {
            Err(Error { kind: ErrorKind::ParseFailure, at: at.clone() })
        },
    }
}

/// Convert a resolved value to a 16-bit signed integer.
pub fn conv_i16(got: Option<&AttributeValue>, at: &Index) -> (r: Result<i16, Error>)
    ensures
        match r {
            Ok(x) => signed_from(resolved_of(got), *at, i16::MIN as int, i16::MAX as int)
                == Ok::<int, Error>(x as int),
            Err(e) => signed_from(resolved_of(got), *at, i16::MIN as int, i16::MAX as int)
                == Err::<int, Error>(e),
        },
{
    match conv_i64(got, at) {
        Err(e) => Err(e),
        Ok(v) => if i16::MIN as i64 <= v && v <= i16::MAX as i64 {
            Ok(v as i16)
        } else {
            Err(Error { kind: ErrorKind::ParseFailure, at: at.clone() })
        },
    }
}

/// Convert a resolved value to a 32-bit signed integer.
pub fn conv_i32(got: Option<&AttributeValue>, at: &Index) -> (r: Result<i32, Error>)
    ensures
        match r {
            Ok(x) => signed_from(resolved_of(got), *at, i32::MIN as int, i32::MAX as int)
                == Ok::<int, Error>(x as int),
            Err(e) => signed_from(resolved_of(got), *at, i32::MIN as int, i32::MAX as int)
                == Err::<int, Error>(e),
        },
{
    match conv_i64(got, at) {
        Err(e) => Err(e),
        Ok(v) => if i32::MIN as i64 <= v && v <= i32::MAX as i64 {
            Ok(v as i32)
        } else {
            Err(Error { kind: ErrorKind::ParseFailure, at: at.clone() })
        },
    }
}

/// Convert a resolved value to a 64-bit unsigned integer.
pub fn conv_u64(got: Option<&AttributeValue>, at: &Index) -> (r: Result<u64, Error>)
    ensures
        match r {
            Ok(x) => unsigned_from(resolved_of(got), *at, u64::MAX as int) == Ok::<int, Error>(
                x as int,
            ),
            Err(e) => unsigned_from(resolved_of(got), *at, u64::MAX as int) == Err::<int, Error>(
                e,
            ),
        },
{
    match got {
        None => Err(Error { kind: ErrorKind::MissingValue, at: at.clone() }),
        Some(av) => match av {
            AttributeValue::NumericText(s) => match parse_u64(s.as_str()) {
                Some(v) => Ok(v),
                None => Err(Error { kind: ErrorKind::ParseFailure, at: at.clone() }),
            },
            _ => Err(Error { kind: ErrorKind::TypeMismatch, at: at.clone() }),
        },
    }
}

/// Convert a resolved value to an 8-bit unsigned integer.
pub fn conv_u8(got: Option<&AttributeValue>, at: &Index) -> (r: Result<u8, Error>)
    ensures
        match r {
            Ok(x) => unsigned_from(resolved_of(got), *at, u8::MAX as int) == Ok::<int, Error>(
                x as int,
            ),
            Err(e) => unsigned_from(resolved_of(got), *at, u8::MAX as int) == Err::<int, Error>(e),
        },
{
    match conv_u64(got, at) {
        Err(e) => Err(e),
        Ok(v) => if v <= u8::MAX as u64 {
            Ok(v as u8)
        } else {
            Err(Error { kind: ErrorKind::ParseFailure, at: at.clone() })
        },
    }
}

/// Convert a resolved value to a 16-bit unsigned integer.
pub fn conv_u16(got: Option<&AttributeValue>, at: &Index) -> (r: Result<u16, Error>)
    ensures
        match r {
            Ok(x) => unsigned_from(resolved_of(got), *at, u16::MAX as int) == Ok::<int, Error>(
                x as int,
            ),
            Err(e) => unsigned_from(resolved_of(got), *at, u16::MAX as int) == Err::<int, Error>(
                e,
            ),
        },
{
    match conv_u64(got, at) {
        Err(e) => Err(e),
        Ok(v) => if v <= u16::MAX as u64 {
            Ok(v as u16)
        } else {
            Err(Error { kind: ErrorKind::ParseFailure, at: at.clone() })
        },
    }
}

/// Convert a resolved value to a 32-bit unsigned integer.
pub fn conv_u32(got: Option<&AttributeValue>, at: &Index) -> (r: Result<u32, Error>)
    ensures
        match r {
            Ok(x) => unsigned_from(resolved_of(got), *at, u32::MAX as int) == Ok::<int, Error>(
                x as int,
            ),
            Err(e) => unsigned_from(resolved_of(got), *at, u32::MAX as int) == Err::<int, Error>(
                e,
            ),
        },
{
    match conv_u64(got, at) {
        Err(e) => Err(e),
        Ok(v) => if v <= u32::MAX as u64 {
            Ok(v as u32)
        } else {
            Err(Error { kind: ErrorKind::ParseFailure, at: at.clone() })
        },
    }
}

/// Convert a resolved value to a single character.
pub fn conv_char(got: Option<&AttributeValue>, at: &Index) -> (r: Result<char, Error>)
    ensures
        r == char_from(resolved_of(got), *at),
{
    match got {
        None => Err(Error { kind: ErrorKind::MissingValue, at: at.clone() }),
        Some(av) => match av {
            AttributeValue::Text(s) => {
                if s.as_str().unicode_len() == 1 {
                    Ok(s.as_str().get_char(0))
                } else {
                    Err(Error { kind: ErrorKind::ParseFailure, at: at.clone() })
                }
            },
            _ => Err(Error { kind: ErrorKind::TypeMismatch, at: at.clone() }),
        },
    }
}

/// Convert a resolved value to a string; absence yields the empty
/// string.
pub fn conv_str(got: Option<&AttributeValue>, at: &Index) -> (r: Result<String, Error>)
    ensures
        match r {
            Ok(s) => str_from(resolved_of(got), *at) == Ok::<Seq<char>, Error>(s@),
            Err(e) => str_from(resolved_of(got), *at) == Err::<Seq<char>, Error>(e),
        },
{
    match got {
        None => Ok(String::new()),
        Some(av) => match av {
            AttributeValue::Text(s) => Ok(s.clone()),
            _ => Err(Error { kind: ErrorKind::TypeMismatch, at: at.clone() }),
        },
    }
}

/// Whether a resolved value reports absence for an optional decode.
pub fn conv_optional_absent(got: Option<&AttributeValue>) -> (r: bool)
    ensures
        r == optional_absent_from(resolved_of(got)),
{
    match got {
        None => true,
        Some(av) => match av {
            AttributeValue::Null(flag) => *flag,
            _ => false,
        },
    }
}

/// A decode session: one source of tagged values and the cursor the
/// next request will resolve.
#[derive(Debug)]
pub struct Deserializer {
    pub read: Source,
    pub current_field: Index,
}

impl Deserializer {
    /// A fresh decoder over `read`, not yet addressed.
    pub fn new(read: Source) -> (r: Self)
        ensures
            r.read == read,
            r.current_field == Index::Root,
    {
        Deserializer { read, current_field: Index::Root }
    }

    /// Resolve the current cursor against the owned source.
    pub fn resolve<'a>(&'a self) -> (r: Option<&'a AttributeValue>)
        ensures
            resolved_of(r) == resolve_spec(self.read, self.current_field),
    {
        self.read.get_attribute_value(&self.current_field)
    }

    /// Decode the current value as a boolean.
    pub fn deserialize_bool(&self) -> (r: Result<bool, Error>)
        ensures
            r == bool_outcome(self.read, self.current_field),
    {
        conv_bool(self.resolve(), &self.current_field)
    }

    /// The numeric-text payload at the current cursor, before parsing.
    pub fn numeric_payload<'a>(&'a self) -> (r: Result<&'a String, Error>)
        ensures
            match r {
                Ok(s) => resolve_spec(self.read, self.current_field) == Some(
                    AttributeValue::NumericText(*s),
                ),
                Err(e) => {
                    &&& e.at == self.current_field
                    &&& match resolve_spec(self.read, self.current_field) {
                        None => e.kind == ErrorKind::MissingValue,
                        Some(av) => !(av is NumericText) && e.kind == ErrorKind::TypeMismatch,
                    }
                },
            },
    {
        match self.resolve() {
            None => Err(Error { kind: ErrorKind::MissingValue, at: self.current_field.clone() }),
            Some(av) => match av {
                AttributeValue::NumericText(s) => Ok(s),
                _ => Err(Error { kind: ErrorKind::TypeMismatch, at: self.current_field.clone() }),
            },
        }
    }

    /// Decode the current value as an 8-bit signed integer.
    pub fn deserialize_i8(&self) -> (r: Result<i8, Error>)
        ensures
            match r {
                Ok(x) => signed_outcome(
                    self.read,
                    self.current_field,
                    i8::MIN as int,
                    i8::MAX as int,
                ) == Ok::<int, Error>(x as int),
                Err(e) => signed_outcome(
                    self.read,
                    self.current_field,
                    i8::MIN as int,
                    i8::MAX as int,
                ) == Err::<int, Error>(e),
            },
    {
        conv_i8(self.resolve(), &self.current_field)
    }

    /// Decode the current value as a 16-bit signed integer.
    pub fn deserialize_i16(&self) -> (r: Result<i16, Error>)
        ensures
            match r {
                Ok(x) => signed_outcome(
                    self.read,
                    self.current_field,
                    i16::MIN as int,
                    i16::MAX as int,
                ) == Ok::<int, Error>(x as int),
                Err(e) => signed_outcome(
                    self.read,
                    self.current_field,
                    i16::MIN as int,
                    i16::MAX as int,
                ) == Err::<int, Error>(e),
            },
    {
        conv_i16(self.resolve(), &self.current_field)
    }

    /// Decode the current value as a 32-bit signed integer.
    pub fn deserialize_i32(&self) -> (r: Result<i32, Error>)
        ensures
            match r {
                Ok(x) => signed_outcome(
                    self.read,
                    self.current_field,
                    i32::MIN as int,
                    i32::MAX as int,
                ) == Ok::<int, Error>(x as int),
                Err(e) => signed_outcome(
                    self.read,
                    self.current_field,
                    i32::MIN as int,
                    i32::MAX as int,
                ) == Err::<int, Error>(e),
            },
    {
        conv_i32(self.resolve(), &self.current_field)
    }

    /// Decode the current value as a 64-bit signed integer.
    pub fn deserialize_i64(&self) -> (r: Result<i64, Error>)
        ensures
            match r {
                Ok(x) => signed_outcome(
                    self.read,
                    self.current_field,
                    i64::MIN as int,
                    i64::MAX as int,
                ) == Ok::<int, Error>(x as int),
                Err(e) => signed_outcome(
                    self.read,
                    self.current_field,
                    i64::MIN as int,
                    i64::MAX as int,
                ) == Err::<int, Error>(e),
            },
    {
        conv_i64(self.resolve(), &self.current_field)
    }

    /// Decode the current value as an 8-bit unsigned integer.
    pub fn deserialize_u8(&self) -> (r: Result<u8, Error>)
        ensures
            match r {
                Ok(x) => unsigned_outcome(self.read, self.current_field, u8::MAX as int)
                    == Ok::<int, Error>(x as int),
                Err(e) => unsigned_outcome(self.read, self.current_field, u8::MAX as int)
                    == Err::<int, Error>(e),
            },
    {
        conv_u8(self.resolve(), &self.current_field)
    }

    /// Decode the current value as a 16-bit unsigned integer.
    pub fn deserialize_u16(&self) -> (r: Result<u16, Error>)
        ensures
            match r {
                Ok(x) => unsigned_outcome(self.read, self.current_field, u16::MAX as int)
                    == Ok::<int, Error>(x as int),
                Err(e) => unsigned_outcome(self.read, self.current_field, u16::MAX as int)
                    == Err::<int, Error>(e),
            },
    {
        conv_u16(self.resolve(), &self.current_field)
    }

    /// Decode the current value as a 32-bit unsigned integer.
    pub fn deserialize_u32(&self) -> (r: Result<u32, Error>)
        ensures
            match r {
                Ok(x) => unsigned_outcome(self.read, self.current_field, u32::MAX as int)
                    == Ok::<int, Error>(x as int),
                Err(e) => unsigned_outcome(self.read, self.current_field, u32::MAX as int)
                    == Err::<int, Error>(e),
            },
    {
        conv_u32(self.resolve(), &self.current_field)
    }

    /// Decode the current value as a 64-bit unsigned integer.
    pub fn deserialize_u64(&self) -> (r: Result<u64, Error>)
        ensures
            match r {
                Ok(x) => unsigned_outcome(self.read, self.current_field, u64::MAX as int)
                    == Ok::<int, Error>(x as int),
                Err(e) => unsigned_outcome(self.read, self.current_field, u64::MAX as int)
                    == Err::<int, Error>(e),
            },
    {
        conv_u64(self.resolve(), &self.current_field)
    }

    /// Decode the current value as a single character: its text
    /// payload must hold exactly one.
    pub fn deserialize_char(&self) -> (r: Result<char, Error>)
        ensures
            r == char_outcome(self.read, self.current_field),
    {
        conv_char(self.resolve(), &self.current_field)
    }

    /// Decode the current value as a string.  An absent index yields
    /// the empty string rather than a failure.
    pub fn deserialize_str(&self) -> (r: Result<String, Error>)
        ensures
            match r {
                Ok(s) => str_outcome(self.read, self.current_field) == Ok::<Seq<char>, Error>(s@),
                Err(e) => str_outcome(self.read, self.current_field) == Err::<Seq<char>, Error>(e),
            },
    {
        conv_str(self.resolve(), &self.current_field)
    }

    /// Decode the current value as an owned string; same conversion as
    /// [`Self::deserialize_str`].
    pub fn deserialize_string(&self) -> (r: Result<String, Error>)
        ensures
            match r {
                Ok(s) => str_outcome(self.read, self.current_field) == Ok::<Seq<char>, Error>(s@),
                Err(e) => str_outcome(self.read, self.current_field) == Err::<Seq<char>, Error>(e),
            },
    {
        self.deserialize_str()
    }

    /// Whether an optional decode at the current cursor reports
    /// absence: nothing at the index, or an explicit null marker.
    pub fn optional_is_absent(&self) -> (r: bool)
        ensures
            r == optional_absent(self.read, self.current_field),
    {
        conv_optional_absent(self.resolve())
    }

    /// The identifier of the current field; meaningful only for a
    /// name-addressed cursor.
    pub fn deserialize_identifier(&self) -> (r: Result<String, Error>)
        ensures
            match r {
                Ok(s) => self.current_field matches Index::Name(k) && s == k,
                Err(e) => !(self.current_field is Name) && e == Error {
                    kind: ErrorKind::BadIdentifier,
                    at: self.current_field,
                },
            },
    {
        match &self.current_field {
            Index::Name(k) => Ok(k.clone()),
            _ => Err(Error { kind: ErrorKind::BadIdentifier, at: self.current_field.clone() }),
        }
    }

    /// Decode a value that the caller intends to discard: always
    /// succeeds without inspecting the source.
    pub fn deserialize_ignored_any(&self) -> (r: Result<(), Error>)
        ensures
            r is Ok,
    {
        Ok(())
    }
}

/// Element iteration state for a sequence decode: positions strictly
/// increase from 0; iteration stops at the first absent position.
#[derive(Debug)]
pub struct SeqAccess {
    pub current: usize,
}

impl SeqAccess {
    /// Iteration state at the first position.
    pub fn new() -> (r: Self)
        ensures
            r.current == 0,
    {
        SeqAccess { current: 0 }
    }

    /// Address the next element: set the decoder's cursor to the
    /// current position and report whether that position is present.
    /// The position advances only when an element was present.
    pub fn next_index(&mut self, de: &mut Deserializer) -> (present: bool)
        ensures
            final(de).read == old(de).read,
            final(de).current_field == Index::Position(old(self).current),
            present == resolve_spec(old(de).read, Index::Position(old(self).current)) is Some,
            present ==> final(self).current == old(self).current + 1,
            !present ==> final(self).current == old(self).current,
    {
        de.current_field = Index::Position(self.current);
        if de.read.get_attribute_value(&de.current_field).is_some() {
            proof {
                match &de.read {
                    Source::Positional(items) => {
                        assert(items.len() == items@.len());
                        assert(self.current < items@.len());
                    },
                    _ => {
                        assert(false);
                    },
                }
            }
            self.current = self.current + 1;
            true
        } else {
            false
        }
    }
}

/// Field iteration state for a record decode: a caller-supplied,
/// fixed, ordered list of field names, walked front to back.
#[derive(Debug)]
pub struct MapAccess {
    pub keys: Vec<String>,
    pub current: usize,
}

impl MapAccess {
    /// Iteration state at the first of the supplied field names.
    pub fn new(keys: Vec<String>) -> (r: Self)
        ensures
            r.keys == keys,
            r.current == 0,
    {
        MapAccess { keys, current: 0 }
    }

    /// Address the next declared field: set the decoder's cursor to
    /// its name and return the name, or report exhaustion.
    pub fn next_key(&mut self, de: &mut Deserializer) -> (r: Option<String>)
        ensures
            final(self).keys == old(self).keys,
            old(self).current >= old(self).keys@.len() ==> r is None && *final(de) == *old(de)
                && final(self).current == old(self).current,
            old(self).current < old(self).keys@.len() ==> {
                &&& r == Some(old(self).keys@[old(self).current as int])
                &&& final(self).current == old(self).current + 1
                &&& final(de).read == old(de).read
                &&& final(de).current_field == Index::Name(
                    old(self).keys@[old(self).current as int],
                )
            },
    {
        if self.current >= self.keys.len() {
            None
        } else {
            let key = self.keys[self.current].clone();
            de.current_field = Index::Name(key.clone());
            self.current = self.current + 1;
            Some(key)
        }
    }
}

} // verus!
