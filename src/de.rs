//! Schema-driven decoding of a frame's fields.
//!
//! The wire data carries no type information: a schema says how to read the
//! fields, and a single cursor moves forward through them. Scalars take one
//! field each; an optional value takes one field when it is absent (the field
//! is empty) and its inner value's fields when present; a list takes a count
//! field and then that many elements; a record takes its members in order; a
//! tagged union takes a tag field and then the chosen variant's members.
use vstd::prelude::*;
use vstd::string::StringExecFns;
use vstd::utf8::{decode_utf8, valid_utf8};
use crate::buffers::{bytes_as_slice, bytes_slice, bytes_view, fields_view};
use crate::codec::DecodedMessage;
use crate::text::{decimal_bits, decimal_int, fixed_bits, parse_i64_text, utf8_str};

verus! {

/// Why a decode failed.
#[derive(Debug, Clone, Copy, PartialEq, Eq)]
pub enum DecodeError {
    /// The frame ran out of fields before the schema was complete.
    Eof,
    /// The field at `index` does not parse as the schema's type.
    Malformed { index: usize },
    /// The tag field at `index` names no variant of the union.
    UnknownVariant { index: usize },
}

/// The shape of a value on the wire.
#[derive(Debug)]
pub enum Schema {
    /// A 32-bit integer; an empty field is 0.
    I32,
    /// A 64-bit integer; an empty field is 0.
    I64,
    /// An integer flag: an empty field is `false`, zero is `true`, any other
    /// number is `false`.
    Bool,
    /// A fixed-point number with 20 fractional bits; an empty field is 0.
    Decimal,
    /// A floating-point number, kept as the text the peer sent.
    Float,
    /// UTF-8 text.
    Text,
    /// Raw bytes.
    Bytes,
    /// An optional value: an empty field, or no field left, is absent.
    Opt(Box<Schema>),
    /// A count, then that many elements.
    List(Box<Schema>),
    /// Members in order, with no count.
    Record(Vec<Schema>),
    /// A tag selecting one of the variants, then that variant's members.
    Union(Vec<Variant>),
}

/// One alternative of a tagged union.
#[derive(Debug)]
pub struct Variant {
    /// The tag text that selects it, compared byte for byte.
    pub tag: Vec<u8>,
    /// Its members, in order.
    pub body: Vec<Schema>,
}

/// A schema, as plain mathematics.
pub enum SchemaV {
    I32,
    I64,
    Bool,
    Decimal,
    Float,
    Text,
    Bytes,
    Opt(Box<SchemaV>),
    List(Box<SchemaV>),
    Record(Seq<SchemaV>),
    Union(Seq<VariantV>),
}

/// A union alternative, as plain mathematics.
pub struct VariantV {
    pub tag: Seq<u8>,
    pub body: Seq<SchemaV>,
}

impl Schema {
    pub open spec fn view(&self) -> SchemaV
        decreases self, 0int,
    {
        match self {
            Schema::I32 => SchemaV::I32,
            Schema::I64 => SchemaV::I64,
            Schema::Bool => SchemaV::Bool,
            Schema::Decimal => SchemaV::Decimal,
            Schema::Float => SchemaV::Float,
            Schema::Text => SchemaV::Text,
            Schema::Bytes => SchemaV::Bytes,
            Schema::Opt(b) => SchemaV::Opt(Box::new((**b).view())),
            Schema::List(b) => SchemaV::List(Box::new((**b).view())),
            Schema::Record(ss) => SchemaV::Record(
                Seq::new(
                    ss@.len(),
                    |i: int|
                        if 0 <= i < ss@.len() {
                            ss@[i].view()
                        } else {
                            SchemaV::Bytes
                        },
                ),
            ),
            Schema::Union(vs) => SchemaV::Union(
                Seq::new(
                    vs@.len(),
                    |i: int|
                        if 0 <= i < vs@.len() {
                            vs@[i].view()
                        } else {
                            VariantV { tag: Seq::empty(), body: Seq::empty() }
                        },
                ),
            ),
        }
    }
}

impl Variant {
    pub open spec fn view(&self) -> VariantV
        decreases self, 1int,
    {
        VariantV {
            tag: self.tag@,
            body: Seq::new(
                self.body@.len(),
                |i: int|
                    if 0 <= i < self.body@.len() {
                        self.body@[i].view()
                    } else {
                        SchemaV::Bytes
                    },
            ),
        }
    }
}

/// The views of a sequence of schemas.
pub open spec fn schema_views(ss: Seq<Schema>) -> Seq<SchemaV> {
    Seq::new(ss.len(), |i: int| ss[i].view())
}

/// The views of a sequence of union alternatives.
pub open spec fn variant_views(vs: Seq<Variant>) -> Seq<VariantV> {
    Seq::new(vs.len(), |i: int| vs[i].view())
}

/// A record schema views as the views of its members.
pub proof fn lemma_record_schema_view(ss: Vec<Schema>)
    ensures
        Schema::Record(ss)@ == SchemaV::Record(schema_views(ss@)),
{
    if let SchemaV::Record(xs) = Schema::Record(ss)@ {
        assert(xs =~= schema_views(ss@));
    }
}

/// A union schema views as the views of its alternatives.
pub proof fn lemma_union_schema_view(vs: Vec<Variant>)
    ensures
        Schema::Union(vs)@ == SchemaV::Union(variant_views(vs@)),
{
    if let SchemaV::Union(xs) = Schema::Union(vs)@ {
        assert(xs =~= variant_views(vs@));
    }
}

/// An alternative's body views as the views of its members.
pub proof fn lemma_variant_view(v: Variant)
    ensures
        v@.body == schema_views(v.body@),
{
    assert(v@.body =~= schema_views(v.body@));
}

/// A decoded value, as plain mathematics.
pub enum ValueV {
    Int(int),
    Bool(bool),
    Decimal(i64),
    Float(Seq<char>),
    Text(Seq<char>),
    Bytes(Seq<u8>),
    Absent,
    Present(Box<ValueV>),
    List(Seq<ValueV>),
    Record(Seq<ValueV>),
    Variant(int, Seq<ValueV>),
}

/// A decoded value.
#[derive(Debug, PartialEq)]
pub enum Value {
    Int(i64),
    Bool(bool),
    /// Raw bits of a fixed-point number with 20 fractional bits.
    Decimal(i64),
    /// The text of a floating-point number.
    Float(String),
    Text(String),
    Bytes(bytes::Bytes),
    Absent,
    Present(Box<Value>),
    List(Vec<Value>),
    Record(Vec<Value>),
    /// The index of the chosen variant, and its members.
    Variant(usize, Vec<Value>),
}

impl Value {
    pub open spec fn view(&self) -> ValueV
        decreases self,
    {
        match self {
            Value::Int(n) => ValueV::Int(*n as int),
            Value::Bool(b) => ValueV::Bool(*b),
            Value::Decimal(d) => ValueV::Decimal(*d),
            Value::Float(s) => ValueV::Float(s@),
            Value::Text(s) => ValueV::Text(s@),
            Value::Bytes(b) => ValueV::Bytes(bytes_view(*b)),
            Value::Absent => ValueV::Absent,
            Value::Present(b) => ValueV::Present(Box::new((**b).view())),
            Value::List(vs) => ValueV::List(
                Seq::new(
                    vs@.len(),
                    |i: int|
                        if 0 <= i < vs@.len() {
                            vs@[i].view()
                        } else {
                            ValueV::Absent
                        },
                ),
            ),
            Value::Record(vs) => ValueV::Record(
                Seq::new(
                    vs@.len(),
                    |i: int|
                        if 0 <= i < vs@.len() {
                            vs@[i].view()
                        } else {
                            ValueV::Absent
                        },
                ),
            ),
            Value::Variant(k, vs) => ValueV::Variant(
                *k as int,
                Seq::new(
                    vs@.len(),
                    |i: int|
                        if 0 <= i < vs@.len() {
                            vs@[i].view()
                        } else {
                            ValueV::Absent
                        },
                ),
            ),
        }
    }
}

/// The views of a sequence of values.
pub open spec fn views(vs: Seq<Value>) -> Seq<ValueV> {
    Seq::new(vs.len(), |i: int| vs[i].view())
}

/// An integer field in `lo..=hi`: empty is 0.
pub open spec fn int_field(f: Seq<u8>, lo: int, hi: int) -> Option<int> {
    if f.len() == 0 {
        Some(0)
    } else {
        match decimal_int(f) {
            Some(v) => if lo <= v <= hi {
                Some(v)
            } else {
                None
            },
            None => None,
        }
    }
}

/// A 32-bit integer field.
pub open spec fn i32_field(f: Seq<u8>) -> Option<int> {
    int_field(f, i32::MIN as int, i32::MAX as int)
}

/// A 64-bit integer field.
pub open spec fn i64_field(f: Seq<u8>) -> Option<int> {
    int_field(f, i64::MIN as int, i64::MAX as int)
}

/// A flag field: empty is `false`; a number is `true` exactly when it is zero.
pub open spec fn bool_field(f: Seq<u8>) -> Option<bool> {
    if f.len() == 0 {
        Some(false)
    } else {
        match i32_field(f) {
            Some(v) => Some(v == 0),
            None => None,
        }
    }
}

/// A text field: its characters, when it is valid UTF-8.
pub open spec fn text_field(f: Seq<u8>) -> Option<Seq<char>> {
    if valid_utf8(f) {
        Some(decode_utf8(f))
    } else {
        None
    }
}

/// A fixed-point field: empty is 0.
pub open spec fn decimal_field(f: Seq<u8>) -> Option<i64> {
    if f.len() == 0 {
        Some(0)
    } else {
        match text_field(f) {
            Some(t) => decimal_bits(t),
            None => None,
        }
    }
}

/// A scalar schema read from one field.
pub open spec fn scalar_field(s: SchemaV, f: Seq<u8>) -> Option<ValueV> {
    match s {
        SchemaV::I32 => match i32_field(f) {
            Some(v) => Some(ValueV::Int(v)),
            None => None,
        },
        SchemaV::I64 => match i64_field(f) {
            Some(v) => Some(ValueV::Int(v)),
            None => None,
        },
        SchemaV::Bool => match bool_field(f) {
            Some(v) => Some(ValueV::Bool(v)),
            None => None,
        },
        SchemaV::Decimal => match decimal_field(f) {
            Some(v) => Some(ValueV::Decimal(v)),
            None => None,
        },
        SchemaV::Float => match text_field(f) {
            Some(t) => Some(ValueV::Float(t)),
            None => None,
        },
        SchemaV::Text => match text_field(f) {
            Some(t) => Some(ValueV::Text(t)),
            None => None,
        },
        _ => Some(ValueV::Bytes(f)),
    }
}

/// The schema reads exactly one field.
pub open spec fn is_scalar(s: SchemaV) -> bool {
    match s {
        SchemaV::Opt(_) | SchemaV::List(_) | SchemaV::Record(_) | SchemaV::Union(_) => false,
        _ => true,
    }
}

/// Decoding `s` from the fields `f`, starting at field `i`: the value and the
/// index of the first field not consumed.
pub open spec fn decode_value(s: SchemaV, f: Seq<Seq<u8>>, i: int) -> Result<
    (ValueV, int),
    DecodeError,
>
    decreases s, 0int, 0int,
{
    if is_scalar(s) {
        if i >= f.len() {
            Err(DecodeError::Eof)
        } else {
            match scalar_field(s, f[i]) {
                Some(v) => Ok((v, i + 1)),
                None => Err(DecodeError::Malformed { index: i as usize }),
            }
        }
    } else {
        match s {
            SchemaV::Opt(b) => if i >= f.len() {
                Ok((ValueV::Absent, i))
            } else if f[i].len() == 0 {
                Ok((ValueV::Absent, i + 1))
            } else {
                match decode_value(*b, f, i) {
                    Ok((v, j)) => Ok((ValueV::Present(Box::new(v)), j)),
                    Err(e) => Err(e),
                }
            },
            SchemaV::List(b) => if i >= f.len() {
                Err(DecodeError::Eof)
            } else {
                match i32_field(f[i]) {
                    Some(n) => if n < 0 {
                        Err(DecodeError::Malformed { index: i as usize })
                    } else if n > f.len() - (i + 1) {
                        Err(DecodeError::Eof)
                    } else {
                        match decode_list(*b, n as nat, f, i + 1) {
                            Ok((vs, j)) => Ok((ValueV::List(vs), j)),
                            Err(e) => Err(e),
                        }
                    },
                    None => Err(DecodeError::Malformed { index: i as usize }),
                }
            },
            SchemaV::Record(ss) => match decode_record(ss, f, i) {
                Ok((vs, j)) => Ok((ValueV::Record(vs), j)),
                Err(e) => Err(e),
            },
            SchemaV::Union(vs) => if i >= f.len() {
                Err(DecodeError::Eof)
            } else {
                decode_union(vs, 0, f, i)
            },
            _ => Err(DecodeError::Eof),
        }
    }
}

/// Decoding the members `ss` in order.
pub open spec fn decode_record(ss: Seq<SchemaV>, f: Seq<Seq<u8>>, i: int) -> Result<
    (Seq<ValueV>, int),
    DecodeError,
>
    decreases ss, 1int, 0int,
{
    if ss.len() == 0 {
        Ok((Seq::empty(), i))
    } else {
        match decode_record(ss.drop_last(), f, i) {
            Ok((vs, j)) => match decode_value(ss.last(), f, j) {
                Ok((v, k)) => Ok((vs.push(v), k)),
                Err(e) => Err(e),
            },
            Err(e) => Err(e),
        }
    }
}

/// Decoding `n` elements of `s` in order.
pub open spec fn decode_list(s: SchemaV, n: nat, f: Seq<Seq<u8>>, i: int) -> Result<
    (Seq<ValueV>, int),
    DecodeError,
>
    decreases s, 2int, n,
{
    if n == 0 {
        Ok((Seq::empty(), i))
    } else {
        match decode_list(s, (n - 1) as nat, f, i) {
            Ok((vs, j)) => match decode_value(s, f, j) {
                Ok((v, k)) => Ok((vs.push(v), k)),
                Err(e) => Err(e),
            },
            Err(e) => Err(e),
        }
    }
}

/// Choosing among the variants `vs` (numbered from `k`) by the tag field
/// `f[i]`, then decoding the chosen variant's members.
pub open spec fn decode_union(vs: Seq<VariantV>, k: int, f: Seq<Seq<u8>>, i: int) -> Result<
    (ValueV, int),
    DecodeError,
>
    decreases vs, 3int, 0int,
{
    if vs.len() == 0 {
        Err(DecodeError::UnknownVariant { index: i as usize })
    } else if vs[0].tag == f[i] {
        match decode_record(vs[0].body, f, i + 1) {
            Ok((xs, j)) => Ok((ValueV::Variant(k, xs), j)),
            Err(e) => Err(e),
        }
    } else {
        decode_union(vs.drop_first(), k + 1, f, i)
    }
}

/// `v` has the shape that `s` describes.
pub open spec fn conforms(v: ValueV, s: SchemaV) -> bool
    decreases s, 0int,
{
    match s {
        SchemaV::I32 => v is Int && i32::MIN <= v->Int_0 <= i32::MAX,
        SchemaV::I64 => v is Int && i64::MIN <= v->Int_0 <= i64::MAX,
        SchemaV::Bool => v is Bool,
        SchemaV::Decimal => v is Decimal,
        SchemaV::Float => v is Float,
        SchemaV::Text => v is Text,
        SchemaV::Bytes => v is Bytes,
        SchemaV::Opt(b) => v is Absent || (v is Present && conforms(*v->Present_0, *b)),
        SchemaV::List(b) => v is List && conforms_each(v->List_0, *b),
        SchemaV::Record(ss) => v is Record && conforms_all(v->Record_0, ss),
        SchemaV::Union(vs) => v is Variant && 0 <= v->Variant_0 < vs.len() && conforms_all(
            v->Variant_1,
            vs[v->Variant_0].body,
        ),
    }
}

/// Every element of `xs` has the shape `s`.
pub open spec fn conforms_each(xs: Seq<ValueV>, s: SchemaV) -> bool
    decreases s, 1int,
{
    forall|i: int| 0 <= i < xs.len() ==> conforms(#[trigger] xs[i], s)
}

/// `xs` has one member for each schema of `ss`, each of that shape.
pub open spec fn conforms_all(xs: Seq<ValueV>, ss: Seq<SchemaV>) -> bool
    decreases ss, 1int,
{
    xs.len() == ss.len() && forall|i: int| 0 <= i < ss.len() ==> conforms(#[trigger] xs[i], ss[i])
}

/// A successful decode has the shape of its schema.
pub proof fn lemma_value_conforms(s: SchemaV, f: Seq<Seq<u8>>, i: int)
    requires
        decode_value(s, f, i) is Ok,
    ensures
        conforms(decode_value(s, f, i)->Ok_0.0, s),
    decreases s, 0int, 0int,
{
    match s {
        SchemaV::Opt(b) => {
            if i < f.len() && f[i].len() != 0 {
                lemma_value_conforms(*b, f, i);
            }
        },
        SchemaV::List(b) => {
            let n = i32_field(f[i])->Some_0;
            lemma_list_conforms(*b, n as nat, f, i + 1);
        },
        SchemaV::Record(ss) => {
            lemma_record_conforms(ss, f, i);
        },
        SchemaV::Union(vs) => {
            lemma_union_conforms(vs, 0, f, i);
        },
        _ => {},
    }
}

proof fn lemma_record_conforms(ss: Seq<SchemaV>, f: Seq<Seq<u8>>, i: int)
    requires
        decode_record(ss, f, i) is Ok,
    ensures
        conforms_all(decode_record(ss, f, i)->Ok_0.0, ss),
    decreases ss, 1int, 0int,
{
    if ss.len() > 0 {
        let pre = ss.drop_last();
        lemma_record_conforms(pre, f, i);
        let (vs, j) = decode_record(pre, f, i)->Ok_0;
        lemma_value_conforms(ss.last(), f, j);
        let xs = decode_record(ss, f, i)->Ok_0.0;
        assert forall|k: int| 0 <= k < ss.len() implies conforms(#[trigger] xs[k], ss[k]) by {
            if k < ss.len() - 1 {
                assert(xs[k] == vs[k]);
                assert(ss[k] == pre[k]);
            }
        }
    }
}

proof fn lemma_list_conforms(s: SchemaV, n: nat, f: Seq<Seq<u8>>, i: int)
    requires
        decode_list(s, n, f, i) is Ok,
    ensures
        conforms_each(decode_list(s, n, f, i)->Ok_0.0, s),
        decode_list(s, n, f, i)->Ok_0.0.len() == n,
    decreases s, 2int, n,
{
    if n > 0 {
        lemma_list_conforms(s, (n - 1) as nat, f, i);
        let (vs, j) = decode_list(s, (n - 1) as nat, f, i)->Ok_0;
        lemma_value_conforms(s, f, j);
        let xs = decode_list(s, n, f, i)->Ok_0.0;
        assert forall|k: int| 0 <= k < xs.len() implies conforms(#[trigger] xs[k], s) by {
            if k < xs.len() - 1 {
                assert(xs[k] == vs[k]);
            }
        }
    }
}

proof fn lemma_union_conforms(vs: Seq<VariantV>, k: int, f: Seq<Seq<u8>>, i: int)
    requires
        decode_union(vs, k, f, i) is Ok,
    ensures
        ({
            let v = decode_union(vs, k, f, i)->Ok_0.0;
            &&& v is Variant
            &&& k <= v->Variant_0 < k + vs.len()
            &&& conforms_all(v->Variant_1, vs[v->Variant_0 - k].body)
        }),
    decreases vs, 3int, 0int,
{
    if vs.len() > 0 {
        if vs[0].tag == f[i] {
            lemma_record_conforms(vs[0].body, f, i + 1);
        } else {
            lemma_union_conforms(vs.drop_first(), k + 1, f, i);
            let v = decode_union(vs, k, f, i)->Ok_0.0;
            assert(vs.drop_first()[v->Variant_0 - (k + 1)] == vs[v->Variant_0 - k]);
        }
    }
}

/// The members of a value conforming to a union have the chosen alternative's shapes.
pub proof fn lemma_union_members(v: ValueV, vs: Seq<VariantV>)
    requires
        conforms(v, SchemaV::Union(vs)),
    ensures
        v is Variant,
        0 <= v->Variant_0 < vs.len(),
        v->Variant_1.len() == vs[v->Variant_0].body.len(),
        forall|i: int|
            0 <= i < v->Variant_1.len() ==> conforms(
                #[trigger] v->Variant_1[i],
                vs[v->Variant_0].body[i],
            ),
{
    reveal_with_fuel(conforms, 2);
}

/// The members of a value conforming to a record have the members' shapes.
pub proof fn lemma_record_members(v: ValueV, ss: Seq<SchemaV>)
    requires
        conforms(v, SchemaV::Record(ss)),
    ensures
        v is Record,
        v->Record_0.len() == ss.len(),
        forall|i: int| 0 <= i < ss.len() ==> conforms(#[trigger] v->Record_0[i], ss[i]),
{
    reveal_with_fuel(conforms, 2);
}

/// The elements of a value conforming to a list have the element shape.
pub proof fn lemma_list_members(v: ValueV, s: SchemaV)
    requires
        conforms(v, SchemaV::List(Box::new(s))),
    ensures
        v is List,
        forall|i: int| 0 <= i < v->List_0.len() ==> conforms(#[trigger] v->List_0[i], s),
{
    reveal_with_fuel(conforms, 2);
}

/// A cursor over the fields of one frame.
pub struct Deserializer<'de> {
    input: &'de DecodedMessage,
    index: usize,
}

impl<'de> Deserializer<'de> {
    /// The fields being read.
    pub closed spec fn fields(&self) -> Seq<Seq<u8>> {
        fields_view(self.input@)
    }

    /// Index of the next field to read.
    pub closed spec fn pos(&self) -> int {
        self.index as int
    }

    /// The cursor never moves past the end.
    pub closed spec fn wf(&self) -> bool {
        self.index <= self.input@.len()
    }

    /// A cursor at the first field of `input`.
    pub fn from_msg(input: &'de DecodedMessage) -> (r: Self)
        ensures
            r.wf(),
            r.fields() == fields_view(input@),
            r.pos() == 0,
    {
        Deserializer { input, index: 0 }
    }

    /// Index of the next field to read.
    pub fn index(&self) -> (r: usize)
        ensures
            r == self.pos(),
    {
        self.index
    }

    /// Number of fields not yet read.
    pub fn remaining(&self) -> (r: usize)
        requires
            self.wf(),
        ensures
            r == self.fields().len() - self.pos(),
    {
        self.input.len() - self.index
    }

    /// Moves past the current field; at the end, stays there.
    pub fn advance(&mut self)
        requires
            old(self).wf(),
        ensures
            final(self).wf(),
            final(self).fields() == old(self).fields(),
            final(self).pos() == if old(self).pos() < old(self).fields().len() {
                old(self).pos() + 1
            } else {
                old(self).pos()
            },
    {
        if self.index < self.input.len() {
            self.index = self.index + 1;
        }
    }

    /// The current field's bytes, or `None` at the end.
    fn current(&self) -> (r: Option<&'de [u8]>)
        requires
            self.wf(),
        ensures
            match r {
                Some(b) => self.pos() < self.fields().len() && b@ == self.fields()[self.pos()],
                None => self.pos() >= self.fields().len(),
            },
    {
        let input: &'de DecodedMessage = self.input;
        if self.index < input.len() {
            Some(bytes_as_slice(&input[self.index]))
        } else {
            None
        }
    }

    /// Whether the current field is empty; `true` at the end.
    pub fn current_is_empty(&self) -> (r: bool)
        requires
            self.wf(),
        ensures
            r == (self.pos() >= self.fields().len() || self.fields()[self.pos()].len() == 0),
    {
        match self.current() {
            Some(b) => b.len() == 0,
            None => true,
        }
    }

    /// The current field as text, without moving.
    pub fn peek_utf8_str(&self) -> (r: Result<&'de str, DecodeError>)
        requires
            self.wf(),
        ensures
            self.pos() >= self.fields().len() ==> r == Err::<&str, DecodeError>(DecodeError::Eof),
            self.pos() < self.fields().len() ==> match text_field(self.fields()[self.pos()]) {
                Some(t) => r is Ok && r->Ok_0@ == t,
                None => r == Err::<&str, DecodeError>(
                    DecodeError::Malformed { index: self.pos() as usize },
                ),
            },
    {
        match self.current() {
            Some(b) => match utf8_str(b) {
                Some(s) => Ok(s),
                None => Err(DecodeError::Malformed { index: self.index }),
            },
            None => Err(DecodeError::Eof),
        }
    }

    /// The current field as text; moves past it on success.
    pub fn get_utf8_str(&mut self) -> (r: Result<&'de str, DecodeError>)
        requires
            old(self).wf(),
        ensures
            final(self).wf(),
            final(self).fields() == old(self).fields(),
            old(self).pos() >= old(self).fields().len() ==> r == Err::<&str, DecodeError>(
                DecodeError::Eof,
            ),
            old(self).pos() < old(self).fields().len() ==> match text_field(
                old(self).fields()[old(self).pos()],
            ) {
                Some(t) => r is Ok && r->Ok_0@ == t && final(self).pos() == old(self).pos() + 1,
                None => r == Err::<&str, DecodeError>(
                    DecodeError::Malformed { index: old(self).pos() as usize },
                ),
            },
    {
        let r = self.peek_utf8_str();
        if r.is_ok() {
            self.advance();
        }
        r
    }

    /// The current field's bytes; moves past it.
    pub fn take_bytes(&mut self) -> (r: Result<bytes::Bytes, DecodeError>)
        requires
            old(self).wf(),
        ensures
            final(self).wf(),
            final(self).fields() == old(self).fields(),
            old(self).pos() >= old(self).fields().len() ==> r == Err::<bytes::Bytes, DecodeError>(
                DecodeError::Eof,
            ),
            old(self).pos() < old(self).fields().len() ==> r is Ok && bytes_view(r->Ok_0)
                == old(self).fields()[old(self).pos()] && final(self).pos() == old(self).pos() + 1,
    {
        let input: &'de DecodedMessage = self.input;
        if self.index < input.len() {
            let b = &input[self.index];
            let len = bytes_as_slice(b).len();
            let r = bytes_slice(b, 0, len);
            proof {
                assert(bytes_view(*b).subrange(0, len as int) =~= bytes_view(*b));
            }
            self.advance();
            Ok(r)
        } else {
            Err(DecodeError::Eof)
        }
    }

    /// The current field as an integer in `lo..=hi`; moves past it on success.
    fn parse_int(&mut self, lo: i64, hi: i64) -> (r: Result<i64, DecodeError>)
        requires
            old(self).wf(),
        ensures
            final(self).wf(),
            final(self).fields() == old(self).fields(),
            old(self).pos() >= old(self).fields().len() ==> r == Err::<i64, DecodeError>(
                DecodeError::Eof,
            ),
            old(self).pos() < old(self).fields().len() ==> match int_field(
                old(self).fields()[old(self).pos()],
                lo as int,
                hi as int,
            ) {
                Some(v) => r == Ok::<i64, DecodeError>(v as i64) && final(self).pos() == old(
                    self,
                ).pos() + 1,
                None => r == Err::<i64, DecodeError>(
                    DecodeError::Malformed { index: old(self).pos() as usize },
                ),
            },
    {
        match self.current() {
            None => Err(DecodeError::Eof),
            Some(b) => {
                if b.len() == 0 {
                    self.advance();
                    return Ok(0);
                }
                match parse_i64_text(b) {
                    Some(v) => {
                        if lo <= v && v <= hi {
                            self.advance();
                            Ok(v)
                        } else {
                            Err(DecodeError::Malformed { index: self.index })
                        }
                    },
                    None => Err(DecodeError::Malformed { index: self.index }),
                }
            },
        }
    }

    /// The current field as a 32-bit integer; moves past it on success.
    pub fn parse_i32(&mut self) -> (r: Result<i32, DecodeError>)
        requires
            old(self).wf(),
        ensures
            final(self).wf(),
            final(self).fields() == old(self).fields(),
            old(self).pos() >= old(self).fields().len() ==> r == Err::<i32, DecodeError>(
                DecodeError::Eof,
            ),
            old(self).pos() < old(self).fields().len() ==> match i32_field(
                old(self).fields()[old(self).pos()],
            ) {
                Some(v) => r == Ok::<i32, DecodeError>(v as i32) && final(self).pos() == old(
                    self,
                ).pos() + 1,
                None => r == Err::<i32, DecodeError>(
                    DecodeError::Malformed { index: old(self).pos() as usize },
                ),
            },
    {
        match self.parse_int(-2147483648i64, 2147483647i64) {
            Ok(v) => Ok(v as i32),
            Err(e) => Err(e),
        }
    }

    /// The current field as a 64-bit integer; moves past it on success.
    pub fn parse_i64(&mut self) -> (r: Result<i64, DecodeError>)
        requires
            old(self).wf(),
        ensures
            final(self).wf(),
            final(self).fields() == old(self).fields(),
            old(self).pos() >= old(self).fields().len() ==> r == Err::<i64, DecodeError>(
                DecodeError::Eof,
            ),
            old(self).pos() < old(self).fields().len() ==> match i64_field(
                old(self).fields()[old(self).pos()],
            ) {
                Some(v) => r == Ok::<i64, DecodeError>(v as i64) && final(self).pos() == old(
                    self,
                ).pos() + 1,
                None => r == Err::<i64, DecodeError>(
                    DecodeError::Malformed { index: old(self).pos() as usize },
                ),
            },
    {
        self.parse_int(-9223372036854775808i64, 9223372036854775807i64)
    }

    /// The current field as a flag; moves past it on success.
    pub fn parse_bool(&mut self) -> (r: Result<bool, DecodeError>)
        requires
            old(self).wf(),
        ensures
            final(self).wf(),
            final(self).fields() == old(self).fields(),
            old(self).pos() >= old(self).fields().len() ==> r == Err::<bool, DecodeError>(
                DecodeError::Eof,
            ),
            old(self).pos() < old(self).fields().len() ==> match bool_field(
                old(self).fields()[old(self).pos()],
            ) {
                Some(v) => r == Ok::<bool, DecodeError>(v) && final(self).pos() == old(self).pos()
                    + 1,
                None => r == Err::<bool, DecodeError>(
                    DecodeError::Malformed { index: old(self).pos() as usize },
                ),
            },
    {
        let empty = self.current_is_empty();
        match self.parse_i32() {
            Ok(v) => Ok(!empty && v == 0),
            Err(e) => Err(e),
        }
    }
    /// Reads one scalar.
    fn decode_scalar(&mut self, s: &Schema) -> (r: Result<Value, DecodeError>)
        requires
            old(self).wf(),
            is_scalar(s@),
        ensures
            final(self).wf(),
            final(self).fields() == old(self).fields(),
            match decode_value(s@, old(self).fields(), old(self).pos()) {
                Ok((v, j)) => r is Ok && r->Ok_0@ == v && final(self).pos() == j,
                Err(e) => r == Err::<Value, DecodeError>(e),
            },
    {
        match s {
            Schema::I32 => match self.parse_i32() {
                Ok(v) => Ok(Value::Int(v as i64)),
                Err(e) => Err(e),
            },
            Schema::I64 => match self.parse_i64() {
                Ok(v) => Ok(Value::Int(v)),
                Err(e) => Err(e),
            },
            Schema::Bool => match self.parse_bool() {
                Ok(v) => Ok(Value::Bool(v)),
                Err(e) => Err(e),
            },
            Schema::Decimal => match self.current() {
                None => Err(DecodeError::Eof),
                Some(b) => {
                    if b.len() == 0 {
                        self.advance();
                        return Ok(Value::Decimal(0));
                    }
                    match utf8_str(b) {
                        Some(t) => match fixed_bits(t) {
                            Some(v) => {
                                self.advance();
                                Ok(Value::Decimal(v))
                            },
                            None => Err(DecodeError::Malformed { index: self.index }),
                        },
                        None => Err(DecodeError::Malformed { index: self.index }),
                    }
                },
            },
            Schema::Float => match self.get_utf8_str() {
                Ok(t) => Ok(Value::Float(String::from_str(t))),
                Err(e) => Err(e),
            },
            Schema::Text => match self.get_utf8_str() {
                Ok(t) => Ok(Value::Text(String::from_str(t))),
                Err(e) => Err(e),
            },
            _ => match self.take_bytes() {
                Ok(b) => Ok(Value::Bytes(b)),
                Err(e) => Err(e),
            },
        }
    }

    /// Decodes a value of schema `s` from the current field on.
    pub fn decode(&mut self, s: &Schema) -> (r: Result<Value, DecodeError>)
        requires
            old(self).wf(),
        ensures
            final(self).wf(),
            final(self).fields() == old(self).fields(),
            match decode_value(s@, old(self).fields(), old(self).pos()) {
                Ok((v, j)) => r is Ok && r->Ok_0@ == v && final(self).pos() == j,
                Err(e) => r == Err::<Value, DecodeError>(e),
            },
        decreases s, 0int, 0int,
    {
        proof {
            match s {
                Schema::Record(ss) => lemma_record_schema_view(*ss),
                Schema::Union(vs) => lemma_union_schema_view(*vs),
                _ => {},
            }
        }
        match s {
            Schema::Opt(b) => {
                if self.index >= self.input.len() {
                    return Ok(Value::Absent);
                }
                if self.current_is_empty() {
                    self.advance();
                    return Ok(Value::Absent);
                }
                match self.decode(&**b) {
                    Ok(v) => Ok(Value::Present(Box::new(v))),
                    Err(e) => Err(e),
                }
            },
            Schema::List(b) => {
                let at = self.index;
                let n = match self.parse_i32() {
                    Ok(n) => n,
                    Err(e) => {
                        return Err(e);
                    },
                };
                if n < 0 {
                    return Err(DecodeError::Malformed { index: at });
                }
                if n as usize > self.remaining() {
                    return Err(DecodeError::Eof);
                }
                match self.decode_list(&**b, n as usize) {
                    Ok(vs) => {
                        proof {
                            lemma_composite_views(vs, 0);
                        }
                        Ok(Value::List(vs))
                    },
                    Err(e) => Err(e),
                }
            },
            Schema::Record(ss) => match self.decode_record(ss) {
                Ok(vs) => {
                    proof {
                        lemma_composite_views(vs, 0);
                    }
                    Ok(Value::Record(vs))
                },
                Err(e) => Err(e),
            },
            Schema::Union(vs) => {
                if self.index >= self.input.len() {
                    return Err(DecodeError::Eof);
                }
                self.decode_union(vs)
            },
            _ => self.decode_scalar(s),
        }
    }

    /// Decodes the members `ss` in order.
    fn decode_record(&mut self, ss: &Vec<Schema>) -> (r: Result<Vec<Value>, DecodeError>)
        requires
            old(self).wf(),
        ensures
            final(self).wf(),
            final(self).fields() == old(self).fields(),
            match decode_record(schema_views(ss@), old(self).fields(), old(self).pos()) {
                Ok((vs, j)) => r is Ok && views(r->Ok_0@) == vs && final(self).pos() == j,
                Err(e) => r == Err::<Vec<Value>, DecodeError>(e),
            },
        decreases ss, 1int, 0int,
    {
        let ghost f = self.fields();
        let ghost i0 = self.pos();
        let mut out: Vec<Value> = Vec::new();
        let mut k: usize = 0;
        proof {
            assert(schema_views(ss@).subrange(0, 0) =~= Seq::<SchemaV>::empty());
            assert(views(out@) =~= Seq::<ValueV>::empty());
        }
        while k < ss.len()
            invariant
                self.wf(),
                self.fields() == f,
                f == old(self).fields(),
                i0 == old(self).pos(),
                0 <= k <= ss@.len(),
                decode_record(schema_views(ss@).subrange(0, k as int), f, i0) == Ok::<
                    (Seq<ValueV>, int),
                    DecodeError,
                >((views(out@), self.pos())),
            decreases ss@.len() - k,
        {
            proof {
                assert(schema_views(ss@).subrange(0, k + 1).drop_last() =~= schema_views(ss@).subrange(0, k as int));
                assert(schema_views(ss@).subrange(0, k + 1).last() == ss@[k as int]@);
            }
            let ghost before = out@;
            match self.decode(&ss[k]) {
                Ok(v) => {
                    out.push(v);
                    proof {
                        assert(views(out@) =~= views(before).push(v@));
                    }
                },
                Err(e) => {
                    proof {
                        lemma_record_err(schema_views(ss@), k + 1, f, i0);
                    }
                    return Err(e);
                },
            }
            k = k + 1;
        }
        proof {
            assert(schema_views(ss@).subrange(0, ss@.len() as int) =~= schema_views(ss@));
        }
        Ok(out)
    }

    /// Decodes `n` elements of `s` in order.
    fn decode_list(&mut self, s: &Schema, n: usize) -> (r: Result<Vec<Value>, DecodeError>)
        requires
            old(self).wf(),
        ensures
            final(self).wf(),
            final(self).fields() == old(self).fields(),
            match decode_list(s@, n as nat, old(self).fields(), old(self).pos()) {
                Ok((vs, j)) => r is Ok && views(r->Ok_0@) == vs && final(self).pos() == j,
                Err(e) => r == Err::<Vec<Value>, DecodeError>(e),
            },
        decreases s, 2int, n,
    {
        let ghost f = self.fields();
        let ghost i0 = self.pos();
        let mut out: Vec<Value> = Vec::new();
        let mut k: usize = 0;
        proof {
            assert(views(out@) =~= Seq::<ValueV>::empty());
        }
        while k < n
            invariant
                self.wf(),
                self.fields() == f,
                f == old(self).fields(),
                i0 == old(self).pos(),
                0 <= k <= n,
                decode_list(s@, k as nat, f, i0) == Ok::<(Seq<ValueV>, int), DecodeError>(
                    (views(out@), self.pos()),
                ),
            decreases n - k,
        {
            let ghost before = out@;
            match self.decode(s) {
                Ok(v) => {
                    out.push(v);
                    proof {
                        assert(views(out@) =~= views(before).push(v@));
                    }
                },
                Err(e) => {
                    proof {
                        lemma_list_err(s@, (k + 1) as nat, n as nat, f, i0);
                    }
                    return Err(e);
                },
            }
            k = k + 1;
        }
        Ok(out)
    }

    /// Chooses the variant whose tag equals the current field, then decodes
    /// its members.
    fn decode_union(&mut self, vs: &Vec<Variant>) -> (r: Result<Value, DecodeError>)
        requires
            old(self).wf(),
            old(self).pos() < old(self).fields().len(),
        ensures
            final(self).wf(),
            final(self).fields() == old(self).fields(),
            match decode_union(variant_views(vs@), 0, old(self).fields(), old(self).pos()) {
                Ok((v, j)) => r is Ok && r->Ok_0@ == v && final(self).pos() == j,
                Err(e) => r == Err::<Value, DecodeError>(e),
            },
        decreases vs, 3int, 0int,
    {
        let ghost f = self.fields();
        let ghost i0 = self.pos();
        let tag = match self.current() {
            Some(t) => t,
            None => {
                return Err(DecodeError::Eof);
            },
        };
        let mut k: usize = 0;
        proof {
            assert(variant_views(vs@).subrange(0, vs@.len() as int) =~= variant_views(vs@));
        }
        while k < vs.len()
            invariant
                self.wf(),
                self.fields() == f,
                f == old(self).fields(),
                i0 == old(self).pos(),
                self.pos() == i0,
                i0 < f.len(),
                tag@ == f[i0],
                0 <= k <= vs@.len(),
                decode_union(variant_views(vs@).subrange(k as int, vs@.len() as int), k as int, f, i0)
                    == decode_union(variant_views(vs@), 0, f, i0),
            decreases vs@.len() - k,
        {
            let ghost rest = variant_views(vs@).subrange(k as int, vs@.len() as int);
            proof {
                assert(rest[0] == vs@[k as int]@);
                assert(rest.drop_first() =~= variant_views(vs@).subrange(k + 1, vs@.len() as int));
                lemma_variant_view(vs@[k as int]);
            }
            if bytes_eq(vs[k].tag.as_slice(), tag) {
                self.advance();
                let vk: &Variant = &vs[k];
                return match self.decode_record(&vk.body) {
                    Ok(xs) => {
                        proof {
                            lemma_composite_views(xs, k);
                        }
                        Ok(Value::Variant(k, xs))
                    },
                    Err(e) => Err(e),
                };
            }
            k = k + 1;
        }
        Err(DecodeError::UnknownVariant { index: self.index })
    }
}

/// Composite values view as the views of their members.
pub proof fn lemma_composite_views(vs: Vec<Value>, k: usize)
    ensures
        Value::List(vs)@ == ValueV::List(views(vs@)),
        Value::Record(vs)@ == ValueV::Record(views(vs@)),
        Value::Variant(k, vs)@ == ValueV::Variant(k as int, views(vs@)),
{
    assert(Value::List(vs)@ == ValueV::List(views(vs@))) by {
        if let ValueV::List(xs) = Value::List(vs)@ {
            assert(xs =~= views(vs@));
        }
    }
    assert(Value::Record(vs)@ == ValueV::Record(views(vs@))) by {
        if let ValueV::Record(xs) = Value::Record(vs)@ {
            assert(xs =~= views(vs@));
        }
    }
    assert(Value::Variant(k, vs)@ == ValueV::Variant(k as int, views(vs@))) by {
        if let ValueV::Variant(_, xs) = Value::Variant(k, vs)@ {
            assert(xs =~= views(vs@));
        }
    }
}

/// Byte-for-byte equality.
pub fn bytes_eq(a: &[u8], b: &[u8]) -> (r: bool)
    ensures
        r == (a@ == b@),
{
    if a.len() != b.len() {
        return false;
    }
    let mut i: usize = 0;
    while i < a.len()
        invariant
            a@.len() == b@.len(),
            0 <= i <= a@.len(),
            forall|j: int| 0 <= j < i ==> a@[j] == b@[j],
        decreases a@.len() - i,
    {
        if a[i] != b[i] {
            return false;
        }
        i = i + 1;
    }
    proof {
        assert(a@ =~= b@);
    }
    true
}

/// Once a prefix of a record's members fails, the whole record fails the same way.
proof fn lemma_record_err(ss: Seq<SchemaV>, m: int, f: Seq<Seq<u8>>, i: int)
    requires
        0 <= m <= ss.len(),
        decode_record(ss.subrange(0, m), f, i) is Err,
    ensures
        decode_record(ss, f, i) == decode_record(ss.subrange(0, m), f, i),
    decreases ss.len() - m,
{
    if m == ss.len() {
        assert(ss.subrange(0, m) =~= ss);
    } else {
        assert(ss.subrange(0, m + 1).drop_last() =~= ss.subrange(0, m));
        lemma_record_err(ss, m + 1, f, i);
    }
}

/// Once the first `m` elements of a list fail, `n >= m` elements fail the same way.
proof fn lemma_list_err(s: SchemaV, m: nat, n: nat, f: Seq<Seq<u8>>, i: int)
    requires
        m <= n,
        decode_list(s, m, f, i) is Err,
    ensures
        decode_list(s, n, f, i) == decode_list(s, m, f, i),
    decreases n - m,
{
    if m < n {
        lemma_list_err(s, m + 1, n, f, i);
    }
}

} // verus!
