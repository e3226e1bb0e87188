//! Structural decoder for self-describing tagged wire values.
//!
//! An inbound control-plane value is a recursive tagged union
//! ([`TypedValue`]): a boolean, an unsigned big-endian bitstring, a bitstring
//! with an explicit bit width, or an aggregate (record or tuple) of further
//! values. [`decode`] turns such a value into a statically shaped result by
//! walking the value and a schema description of the target in lockstep by
//! position.

use vstd::prelude::*;

verus! {

use vstd::string::StringExecFns;

/// A self-describing tagged wire value.
///
/// Exactly one variant is populated per value; `Absent` stands for a value
/// whose tag is unset, which only an optional target accepts. Within a
/// `Record`, member `i` corresponds positionally to field `i` of whatever
/// target schema the value is decoded into.
pub enum TypedValue {
    /// No variant populated.
    Absent,
    /// A boolean.
    Boolean(bool),
    /// An unsigned big-endian integer or raw byte payload; the width is
    /// implied by the number of bytes present.
    Bitstring(Vec<u8>),
    /// Like `Bitstring`, but with an explicit bit width that may be less
    /// than eight times the number of bytes present.
    VarWidthBits(Vec<u8>, u32),
    /// A purely positional aggregate, decoded into fixed-size sequence
    /// targets.
    Tuple(Vec<TypedValue>),
    /// A named-field aggregate; members match the target's fields in
    /// declaration order.
    Record(Vec<TypedValue>),
}

/// The mathematical shape of a [`TypedValue`].
pub enum ValueV {
    /// No variant populated.
    Absent,
    /// A boolean.
    Boolean(bool),
    /// An unsigned big-endian integer or raw byte payload.
    Bitstring(Seq<u8>),
    /// A payload with an explicit bit width.
    VarWidthBits(Seq<u8>, u32),
    /// A purely positional aggregate.
    Tuple(Seq<ValueV>),
    /// A named-field aggregate.
    Record(Seq<ValueV>),
}

/// The shape that a [`TypedValue`] denotes.
pub open spec fn value_view(v: TypedValue) -> ValueV
    decreases v, 1int,
{
    match v {
        TypedValue::Absent => ValueV::Absent,
        TypedValue::Boolean(b) => ValueV::Boolean(b),
        TypedValue::Bitstring(b) => ValueV::Bitstring(b@),
        TypedValue::VarWidthBits(b, w) => ValueV::VarWidthBits(b@, w),
        TypedValue::Tuple(ms) => {
            proof {
                assert(decreases_to!(v => ms));
                assert(decreases_to!(ms => ms@));
            }
            ValueV::Tuple(values_view(ms@))
        }
        TypedValue::Record(ms) => {
            proof {
                assert(decreases_to!(v => ms));
                assert(decreases_to!(ms => ms@));
            }
            ValueV::Record(values_view(ms@))
        }
    }
}

/// The shapes of a sequence of members, element by element.
pub open spec fn values_view(ms: Seq<TypedValue>) -> Seq<ValueV>
    decreases ms, 0int,
{
    if ms.len() == 0 {
        Seq::empty()
    } else {
        proof {
            assert(decreases_to!(ms => ms[0]));
            assert(decreases_to!(ms => ms.drop_first()));
        }
        seq![value_view(ms[0])] + values_view(ms.drop_first())
    }
}

/// `values_view` maps `value_view` over the sequence, element by element.
pub proof fn lemma_values_view(ms: Seq<TypedValue>)
    ensures
        values_view(ms).len() == ms.len(),
        forall|i: int| 0 <= i < ms.len() ==> values_view(ms)[i] == value_view(ms[i]),
    decreases ms.len(),
{
    if ms.len() != 0 {
        lemma_values_view(ms.drop_first());
    }
}

impl View for TypedValue {
    type V = ValueV;

    open spec fn view(&self) -> ValueV {
        value_view(*self)
    }
}

/// Deep-copy a tagged value. The copy denotes the same shape as the
/// original, so each subscriber of a published value can be handed an
/// independent copy rather than a shared mutable reference.
pub fn clone_value(v: &TypedValue) -> (r: TypedValue)
    ensures
        r@ == v@,
    decreases v, 1int,
{
    match v {
        TypedValue::Absent => TypedValue::Absent,
        TypedValue::Boolean(b) => TypedValue::Boolean(*b),
        TypedValue::Bitstring(b) => TypedValue::Bitstring(b.clone()),
        TypedValue::VarWidthBits(b, w) => TypedValue::VarWidthBits(b.clone(), *w),
        TypedValue::Tuple(ms) => {
            proof {
                assert(decreases_to!(v => ms));
            }
            TypedValue::Tuple(clone_values(ms))
        }
        TypedValue::Record(ms) => {
            proof {
                assert(decreases_to!(v => ms));
            }
            TypedValue::Record(clone_values(ms))
        }
    }
}

/// Deep-copy a sequence of members, element by element.
fn clone_values(ms: &Vec<TypedValue>) -> (r: Vec<TypedValue>)
    ensures
        values_view(r@) == values_view(ms@),
    decreases ms, 0int,
{
    let mut out: Vec<TypedValue> = Vec::new();
    let mut i: usize = 0;
    while i < ms.len()
        invariant
            i <= ms@.len(),
            out@.len() == i,
            forall|j: int| 0 <= j < i ==> value_view(#[trigger] out@[j]) == value_view(ms@[j]),
        decreases ms@.len() - i,
    {
        proof {
            assert(decreases_to!(ms => ms@));
            assert(decreases_to!(ms@ => ms@[i as int]));
        }
        let c = clone_value(&ms[i]);
        out.push(c);
        i += 1;
    }
    proof {
        lemma_values_view(out@);
        lemma_values_view(ms@);
        assert(values_view(out@) =~= values_view(ms@));
    }
    out
}

/// Decode failure: the value did not match the expected tag or width for the
/// requested target shape. All variants are pure data-shape errors with no
/// retry semantics.
#[derive(Debug, PartialEq, Eq)]
pub enum DeserializeP4DataError {
    /// A target-shape-specific constraint violation, such as an aggregate
    /// with the wrong number of members.
    Custom(String),
    /// Expected a boolean.
    ExpectedBool,
    /// Expected a source that fits a signed 8-bit integer.
    ExpectedI8,
    /// Expected a source that fits a signed 16-bit integer.
    ExpectedI16,
    /// Expected a source that fits a signed 32-bit integer.
    ExpectedI32,
    /// Expected a source that fits a signed 64-bit integer.
    ExpectedI64,
    /// Expected a source that fits an unsigned 8-bit integer.
    ExpectedU8,
    /// Expected a source that fits an unsigned 16-bit integer.
    ExpectedU16,
    /// Expected a source that fits an unsigned 32-bit integer.
    ExpectedU32,
    /// Expected a source that fits an unsigned 64-bit integer.
    ExpectedU64,
    /// Expected a raw byte payload.
    ExpectedBytes,
    /// Expected a positional aggregate.
    ExpectedTuple,
    /// Expected a named-field aggregate.
    ExpectedStruct,
}

/// The mathematical shape of a [`DeserializeP4DataError`]; the message of a
/// `Custom` error carries no specified content.
#[derive(PartialEq, Eq, Structural)]
pub enum ErrorV {
    /// A target-shape-specific constraint violation.
    Custom,
    /// Expected a boolean.
    ExpectedBool,
    /// Expected a source that fits a signed 8-bit integer.
    ExpectedI8,
    /// Expected a source that fits a signed 16-bit integer.
    ExpectedI16,
    /// Expected a source that fits a signed 32-bit integer.
    ExpectedI32,
    /// Expected a source that fits a signed 64-bit integer.
    ExpectedI64,
    /// Expected a source that fits an unsigned 8-bit integer.
    ExpectedU8,
    /// Expected a source that fits an unsigned 16-bit integer.
    ExpectedU16,
    /// Expected a source that fits an unsigned 32-bit integer.
    ExpectedU32,
    /// Expected a source that fits an unsigned 64-bit integer.
    ExpectedU64,
    /// Expected a raw byte payload.
    ExpectedBytes,
    /// Expected a positional aggregate.
    ExpectedTuple,
    /// Expected a named-field aggregate.
    ExpectedStruct,
}

impl View for DeserializeP4DataError {
    type V = ErrorV;

    open spec fn view(&self) -> ErrorV {
        match self {
            DeserializeP4DataError::Custom(_) => ErrorV::Custom,
            DeserializeP4DataError::ExpectedBool => ErrorV::ExpectedBool,
            DeserializeP4DataError::ExpectedI8 => ErrorV::ExpectedI8,
            DeserializeP4DataError::ExpectedI16 => ErrorV::ExpectedI16,
            DeserializeP4DataError::ExpectedI32 => ErrorV::ExpectedI32,
            DeserializeP4DataError::ExpectedI64 => ErrorV::ExpectedI64,
            DeserializeP4DataError::ExpectedU8 => ErrorV::ExpectedU8,
            DeserializeP4DataError::ExpectedU16 => ErrorV::ExpectedU16,
            DeserializeP4DataError::ExpectedU32 => ErrorV::ExpectedU32,
            DeserializeP4DataError::ExpectedU64 => ErrorV::ExpectedU64,
            DeserializeP4DataError::ExpectedBytes => ErrorV::ExpectedBytes,
            DeserializeP4DataError::ExpectedTuple => ErrorV::ExpectedTuple,
            DeserializeP4DataError::ExpectedStruct => ErrorV::ExpectedStruct,
        }
    }
}

/// The statically known shape that a [`TypedValue`] is decoded into. The
/// schema mirrors the destination type: primitive widths, a raw byte
/// payload, a fixed-arity tuple, a record of fields in declaration order, or
/// an optional wrapper.
pub enum Schema {
    /// A boolean target.
    Bool,
    /// An unsigned 8-bit integer target.
    U8,
    /// An unsigned 16-bit integer target.
    U16,
    /// An unsigned 32-bit integer target.
    U32,
    /// An unsigned 64-bit integer target.
    U64,
    /// A signed 8-bit integer target.
    I8,
    /// A signed 16-bit integer target.
    I16,
    /// A signed 32-bit integer target.
    I32,
    /// A signed 64-bit integer target.
    I64,
    /// A raw byte payload target.
    Bytes,
    /// A fixed-arity positional target; the arity is the element count.
    Tuple(Vec<Schema>),
    /// A named-field record target; fields in declaration order.
    Record(Vec<Schema>),
    /// An optional target: an absent value decodes to nothing.
    Optional(Box<Schema>),
}

/// The mathematical shape of a [`Schema`].
pub enum SchemaV {
    /// A boolean target.
    Bool,
    /// An unsigned 8-bit integer target.
    U8,
    /// An unsigned 16-bit integer target.
    U16,
    /// An unsigned 32-bit integer target.
    U32,
    /// An unsigned 64-bit integer target.
    U64,
    /// A signed 8-bit integer target.
    I8,
    /// A signed 16-bit integer target.
    I16,
    /// A signed 32-bit integer target.
    I32,
    /// A signed 64-bit integer target.
    I64,
    /// A raw byte payload target.
    Bytes,
    /// A fixed-arity positional target.
    Tuple(Seq<SchemaV>),
    /// A named-field record target.
    Record(Seq<SchemaV>),
    /// An optional target.
    Optional(Box<SchemaV>),
}

/// The shape that a [`Schema`] denotes.
pub open spec fn schema_view(s: Schema) -> SchemaV
    decreases s, 1int,
{
    match s {
        Schema::Bool => SchemaV::Bool,
        Schema::U8 => SchemaV::U8,
        Schema::U16 => SchemaV::U16,
        Schema::U32 => SchemaV::U32,
        Schema::U64 => SchemaV::U64,
        Schema::I8 => SchemaV::I8,
        Schema::I16 => SchemaV::I16,
        Schema::I32 => SchemaV::I32,
        Schema::I64 => SchemaV::I64,
        Schema::Bytes => SchemaV::Bytes,
        Schema::Tuple(ss) => {
            proof {
                assert(decreases_to!(s => ss));
                assert(decreases_to!(ss => ss@));
            }
            SchemaV::Tuple(schemas_view(ss@))
        }
        Schema::Record(ss) => {
            proof {
                assert(decreases_to!(s => ss));
                assert(decreases_to!(ss => ss@));
            }
            SchemaV::Record(schemas_view(ss@))
        }
        Schema::Optional(inner) => SchemaV::Optional(Box::new(schema_view(*inner))),
    }
}

/// The shapes of a sequence of schema elements, element by element.
pub open spec fn schemas_view(ss: Seq<Schema>) -> Seq<SchemaV>
    decreases ss, 0int,
{
    if ss.len() == 0 {
        Seq::empty()
    } else {
        proof {
            assert(decreases_to!(ss => ss[0]));
            assert(decreases_to!(ss => ss.drop_first()));
        }
        seq![schema_view(ss[0])] + schemas_view(ss.drop_first())
    }
}

/// `schemas_view` maps `schema_view` over the sequence, element by element.
pub proof fn lemma_schemas_view(ss: Seq<Schema>)
    ensures
        schemas_view(ss).len() == ss.len(),
        forall|i: int| 0 <= i < ss.len() ==> schemas_view(ss)[i] == schema_view(ss[i]),
    decreases ss.len(),
{
    if ss.len() != 0 {
        lemma_schemas_view(ss.drop_first());
    }
}

impl View for Schema {
    type V = SchemaV;

    open spec fn view(&self) -> SchemaV {
        schema_view(*self)
    }
}

/// A decoded result value, shaped by the schema the decode was driven with.
#[derive(Debug, PartialEq, Eq)]
pub enum Decoded {
    /// A boolean.
    Bool(bool),
    /// An unsigned 8-bit integer.
    U8(u8),
    /// An unsigned 16-bit integer.
    U16(u16),
    /// An unsigned 32-bit integer.
    U32(u32),
    /// An unsigned 64-bit integer.
    U64(u64),
    /// A signed 8-bit integer.
    I8(i8),
    /// A signed 16-bit integer.
    I16(i16),
    /// A signed 32-bit integer.
    I32(i32),
    /// A signed 64-bit integer.
    I64(i64),
    /// A raw byte payload.
    Bytes(Vec<u8>),
    /// A positional aggregate of decoded elements.
    Tuple(Vec<Decoded>),
    /// A record of decoded fields in declaration order.
    Record(Vec<Decoded>),
    /// The result of decoding an absent value into an optional target.
    Nothing,
}

/// The mathematical shape of a [`Decoded`] value.
pub enum DecodedV {
    /// A boolean.
    Bool(bool),
    /// An unsigned 8-bit integer.
    U8(u8),
    /// An unsigned 16-bit integer.
    U16(u16),
    /// An unsigned 32-bit integer.
    U32(u32),
    /// An unsigned 64-bit integer.
    U64(u64),
    /// A signed 8-bit integer.
    I8(i8),
    /// A signed 16-bit integer.
    I16(i16),
    /// A signed 32-bit integer.
    I32(i32),
    /// A signed 64-bit integer.
    I64(i64),
    /// A raw byte payload.
    Bytes(Seq<u8>),
    /// A positional aggregate of decoded elements.
    Tuple(Seq<DecodedV>),
    /// A record of decoded fields in declaration order.
    Record(Seq<DecodedV>),
    /// The result of decoding an absent value into an optional target.
    Nothing,
}

/// The shape that a [`Decoded`] value denotes.
pub open spec fn decoded_view(d: Decoded) -> DecodedV
    decreases d, 1int,
{
    match d {
        Decoded::Bool(b) => DecodedV::Bool(b),
        Decoded::U8(n) => DecodedV::U8(n),
        Decoded::U16(n) => DecodedV::U16(n),
        Decoded::U32(n) => DecodedV::U32(n),
        Decoded::U64(n) => DecodedV::U64(n),
        Decoded::I8(n) => DecodedV::I8(n),
        Decoded::I16(n) => DecodedV::I16(n),
        Decoded::I32(n) => DecodedV::I32(n),
        Decoded::I64(n) => DecodedV::I64(n),
        Decoded::Bytes(b) => DecodedV::Bytes(b@),
        Decoded::Tuple(ds) => {
            proof {
                assert(decreases_to!(d => ds));
                assert(decreases_to!(ds => ds@));
            }
            DecodedV::Tuple(decodeds_view(ds@))
        }
        Decoded::Record(ds) => {
            proof {
                assert(decreases_to!(d => ds));
                assert(decreases_to!(ds => ds@));
            }
            DecodedV::Record(decodeds_view(ds@))
        }
        Decoded::Nothing => DecodedV::Nothing,
    }
}

/// The shapes of a sequence of decoded values, element by element.
pub open spec fn decodeds_view(ds: Seq<Decoded>) -> Seq<DecodedV>
    decreases ds, 0int,
{
    if ds.len() == 0 {
        Seq::empty()
    } else {
        proof {
            assert(decreases_to!(ds => ds[0]));
            assert(decreases_to!(ds => ds.drop_first()));
        }
        seq![decoded_view(ds[0])] + decodeds_view(ds.drop_first())
    }
}

/// `decodeds_view` maps `decoded_view` over the sequence, element by element.
pub proof fn lemma_decodeds_view(ds: Seq<Decoded>)
    ensures
        decodeds_view(ds).len() == ds.len(),
        forall|i: int| 0 <= i < ds.len() ==> decodeds_view(ds)[i] == decoded_view(ds[i]),
    decreases ds.len(),
{
    if ds.len() != 0 {
        lemma_decodeds_view(ds.drop_first());
    }
}

impl View for Decoded {
    type V = DecodedV;

    open spec fn view(&self) -> DecodedV {
        decoded_view(*self)
    }
}

/// The unsigned integer a byte sequence denotes under big-endian
/// interpretation.
pub open spec fn be_val(s: Seq<u8>) -> nat
    decreases s.len(),
{
    if s.len() == 0 {
        0
    } else {
        be_val(s.drop_last()) * 256 + s.last() as nat
    }
}

/// `256^n`: one more than the largest value an `n`-byte big-endian string
/// can denote.
pub open spec fn pow256(n: nat) -> nat
    decreases n,
{
    if n == 0 {
        1
    } else {
        256 * pow256((n - 1) as nat)
    }
}

/// An `n`-byte string denotes a value below `256^n`.
pub proof fn lemma_be_val_bound(s: Seq<u8>)
    ensures
        be_val(s) < pow256(s.len()),
    decreases s.len(),
{
    if s.len() != 0 {
        lemma_be_val_bound(s.drop_last());
    }
}

proof fn lemma_pow256_pos(n: nat)
    ensures
        pow256(n) >= 1,
    decreases n,
{
    if n != 0 {
        lemma_pow256_pos((n - 1) as nat);
    }
}

proof fn lemma_pow256_monotone(m: nat, n: nat)
    requires
        m <= n,
    ensures
        pow256(m) <= pow256(n),
    decreases n,
{
    if m < n {
        lemma_pow256_monotone(m, (n - 1) as nat);
        lemma_pow256_pos((n - 1) as nat);
    }
}

/// A sequence of `n` zero bytes.
pub open spec fn zero_bytes(n: nat) -> Seq<u8> {
    Seq::new(n, |i: int| 0u8)
}

/// Left-padding a big-endian string with zero bytes does not change the
/// value it denotes: the source bytes are the least-significant bytes of the
/// padded width.
pub proof fn lemma_be_val_zero_pad(pad: nat, s: Seq<u8>)
    ensures
        be_val(zero_bytes(pad) + s) == be_val(s),
    decreases s.len(),
{
    if s.len() == 0 {
        assert(zero_bytes(pad) + s =~= zero_bytes(pad));
        lemma_be_val_zeros(pad);
    } else {
        assert((zero_bytes(pad) + s).drop_last() =~= zero_bytes(pad) + s.drop_last());
        lemma_be_val_zero_pad(pad, s.drop_last());
    }
}

/// A string of zero bytes denotes zero.
pub proof fn lemma_be_val_zeros(n: nat)
    ensures
        be_val(zero_bytes(n)) == 0,
    decreases n,
{
    if n != 0 {
        assert(zero_bytes(n).drop_last() =~= zero_bytes((n - 1) as nat));
        lemma_be_val_zeros((n - 1) as nat);
    }
}

/// Read a big-endian unsigned integer of at most eight bytes.
fn be_bytes_to_u64(b: &Vec<u8>) -> (r: u64)
    requires
        b@.len() <= 8,
    ensures
        r == be_val(b@),
{
    proof {
        lemma_be_val_bound(b@);
    }
    let mut acc: u64 = 0;
    let mut i: usize = 0;
    while i < b.len()
        invariant
            i <= b@.len() <= 8,
            acc == be_val(b@.subrange(0, i as int)),
        decreases b@.len() - i,
    {
        proof {
            lemma_be_val_bound(b@.subrange(0, i as int));
            lemma_pow256_monotone((i + 1) as nat, 8);
            assert(b@.subrange(0, i + 1).drop_last() =~= b@.subrange(0, i as int));
            assert(pow256(8) == 0x1_0000_0000_0000_0000) by {
                reveal_with_fuel(pow256, 9);
            }
        }
        acc = acc * 256 + (b[i] as u64);
        i += 1;
    }
    assert(b@.subrange(0, b@.len() as int) =~= b@);
    acc
}

/// Whether `v` is an integer source (a bitstring, or a width-tagged
/// bitstring whose declared width is at most `8 * nbytes`) that fits an
/// `nbytes`-byte integer target.
pub open spec fn fits_uint(v: ValueV, nbytes: nat) -> bool {
    match v {
        ValueV::Bitstring(b) => b.len() <= nbytes,
        ValueV::VarWidthBits(b, w) => w <= 8 * nbytes && b.len() <= nbytes,
        _ => false,
    }
}

/// The payload bytes of an integer source; empty for any other shape.
pub open spec fn int_bytes(v: ValueV) -> Seq<u8> {
    match v {
        ValueV::Bitstring(b) => b,
        ValueV::VarWidthBits(b, _) => b,
        _ => Seq::empty(),
    }
}

/// Decode a boolean target: the value must be a boolean.
pub fn parse_bool(v: &TypedValue) -> (r: Result<bool, DeserializeP4DataError>)
    ensures
        v@ matches ValueV::Boolean(b) ==> r == Ok::<bool, DeserializeP4DataError>(b),
        !(v@ is Boolean) ==> r == Err::<bool, DeserializeP4DataError>(
            DeserializeP4DataError::ExpectedBool,
        ),
{
    match v {
        TypedValue::Boolean(b) => Ok(*b),
        _ => Err(DeserializeP4DataError::ExpectedBool),
    }
}

/// Decode an unsigned 64-bit target: the source bytes are right-aligned into
/// the eight-byte width, zero-padded on the left.
pub fn parse_u64(v: &TypedValue) -> (r: Result<u64, DeserializeP4DataError>)
    ensures
        fits_uint(v@, 8) ==> (r matches Ok(n) && n == be_val(int_bytes(v@))),
        !fits_uint(v@, 8) ==> r == Err::<u64, DeserializeP4DataError>(
            DeserializeP4DataError::ExpectedU64,
        ),
{
    match v {
        TypedValue::Bitstring(b) => {
            if b.len() > 8 {
                Err(DeserializeP4DataError::ExpectedU64)
            } else {
                Ok(be_bytes_to_u64(b))
            }
        }
        TypedValue::VarWidthBits(b, w) => {
            if *w > 64 || b.len() > 8 {
                Err(DeserializeP4DataError::ExpectedU64)
            } else {
                Ok(be_bytes_to_u64(b))
            }
        }
        _ => Err(DeserializeP4DataError::ExpectedU64),
    }
}

/// Decode an unsigned 32-bit target.
pub fn parse_u32(v: &TypedValue) -> (r: Result<u32, DeserializeP4DataError>)
    ensures
        fits_uint(v@, 4) ==> (r matches Ok(n) && n == be_val(int_bytes(v@))),
        !fits_uint(v@, 4) ==> r == Err::<u32, DeserializeP4DataError>(
            DeserializeP4DataError::ExpectedU32,
        ),
{
    match v {
        TypedValue::Bitstring(b) => {
            if b.len() > 4 {
                Err(DeserializeP4DataError::ExpectedU32)
            } else {
                Ok(be_to_uint_narrow(b, 4) as u32)
            }
        }
        TypedValue::VarWidthBits(b, w) => {
            if *w > 32 || b.len() > 4 {
                Err(DeserializeP4DataError::ExpectedU32)
            } else {
                Ok(be_to_uint_narrow(b, 4) as u32)
            }
        }
        _ => Err(DeserializeP4DataError::ExpectedU32),
    }
}

/// Decode an unsigned 16-bit target.
pub fn parse_u16(v: &TypedValue) -> (r: Result<u16, DeserializeP4DataError>)
    ensures
        fits_uint(v@, 2) ==> (r matches Ok(n) && n == be_val(int_bytes(v@))),
        !fits_uint(v@, 2) ==> r == Err::<u16, DeserializeP4DataError>(
            DeserializeP4DataError::ExpectedU16,
        ),
{
    match v {
        TypedValue::Bitstring(b) => {
            if b.len() > 2 {
                Err(DeserializeP4DataError::ExpectedU16)
            } else {
                Ok(be_to_uint_narrow(b, 2) as u16)
            }
        }
        TypedValue::VarWidthBits(b, w) => {
            if *w > 16 || b.len() > 2 {
                Err(DeserializeP4DataError::ExpectedU16)
            } else {
                Ok(be_to_uint_narrow(b, 2) as u16)
            }
        }
        _ => Err(DeserializeP4DataError::ExpectedU16),
    }
}

/// Decode an unsigned 8-bit target.
pub fn parse_u8(v: &TypedValue) -> (r: Result<u8, DeserializeP4DataError>)
    ensures
        fits_uint(v@, 1) ==> (r matches Ok(n) && n == be_val(int_bytes(v@))),
        !fits_uint(v@, 1) ==> r == Err::<u8, DeserializeP4DataError>(
            DeserializeP4DataError::ExpectedU8,
        ),
{
    match v {
        TypedValue::Bitstring(b) => {
            if b.len() > 1 {
                Err(DeserializeP4DataError::ExpectedU8)
            } else {
                Ok(be_to_uint_narrow(b, 1) as u8)
            }
        }
        TypedValue::VarWidthBits(b, w) => {
            if *w > 8 || b.len() > 1 {
                Err(DeserializeP4DataError::ExpectedU8)
            } else {
                Ok(be_to_uint_narrow(b, 1) as u8)
            }
        }
        _ => Err(DeserializeP4DataError::ExpectedU8),
    }
}

/// Read a big-endian unsigned integer of at most `nbytes` bytes, with the
/// bound needed to narrow the result carried in the postcondition.
fn be_to_uint_narrow(b: &Vec<u8>, nbytes: usize) -> (r: u64)
    requires
        b@.len() <= nbytes <= 8,
    ensures
        r == be_val(b@),
        r < pow256(nbytes as nat),
        nbytes == 1 ==> r < 0x100,
        nbytes == 2 ==> r < 0x1_0000,
        nbytes == 4 ==> r < 0x1_0000_0000,
{
    proof {
        lemma_be_val_bound(b@);
        lemma_pow256_monotone(b@.len(), nbytes as nat);
        assert(pow256(1) == 0x100 && pow256(2) == 0x1_0000 && pow256(4) == 0x1_0000_0000) by {
            reveal_with_fuel(pow256, 5);
        }
    }
    be_bytes_to_u64(b)
}

/// The signed 8-bit value whose two's-complement byte is the unsigned `n`.
pub open spec fn to_signed8(n: nat) -> int {
    if n < 0x80 {
        n as int
    } else {
        n - 0x100
    }
}

/// The signed 16-bit value whose two's-complement bytes denote the unsigned
/// `n`.
pub open spec fn to_signed16(n: nat) -> int {
    if n < 0x8000 {
        n as int
    } else {
        n - 0x1_0000
    }
}

/// The signed 32-bit value whose two's-complement bytes denote the unsigned
/// `n`.
pub open spec fn to_signed32(n: nat) -> int {
    if n < 0x8000_0000 {
        n as int
    } else {
        n - 0x1_0000_0000
    }
}

/// The signed 64-bit value whose two's-complement bytes denote the unsigned
/// `n`.
pub open spec fn to_signed64(n: nat) -> int {
    if n < 0x8000_0000_0000_0000 {
        n as int
    } else {
        n - 0x1_0000_0000_0000_0000
    }
}

/// Decode a signed 8-bit target. The source bytes are reinterpreted as
/// two's complement; no sign extension is applied to short sources.
pub fn parse_i8(v: &TypedValue) -> (r: Result<i8, DeserializeP4DataError>)
    ensures
        fits_uint(v@, 1) ==> (r matches Ok(n) && n as int == to_signed8(be_val(int_bytes(v@)))),
        !fits_uint(v@, 1) ==> r == Err::<i8, DeserializeP4DataError>(
            DeserializeP4DataError::ExpectedI8,
        ),
{
    match v {
        TypedValue::Bitstring(b) => {
            if b.len() > 1 {
                Err(DeserializeP4DataError::ExpectedI8)
            } else {
                let u = be_to_uint_narrow(b, 1);
                if u < 0x80 {
                    Ok(u as i8)
                } else {
                    Ok(((u as i32) - 0x100) as i8)
                }
            }
        }
        TypedValue::VarWidthBits(b, w) => {
            if *w > 8 || b.len() > 1 {
                Err(DeserializeP4DataError::ExpectedI8)
            } else {
                let u = be_to_uint_narrow(b, 1);
                if u < 0x80 {
                    Ok(u as i8)
                } else {
                    Ok(((u as i32) - 0x100) as i8)
                }
            }
        }
        _ => Err(DeserializeP4DataError::ExpectedI8),
    }
}

/// Decode a signed 16-bit target.
pub fn parse_i16(v: &TypedValue) -> (r: Result<i16, DeserializeP4DataError>)
    ensures
        fits_uint(v@, 2) ==> (r matches Ok(n) && n as int == to_signed16(be_val(int_bytes(v@)))),
        !fits_uint(v@, 2) ==> r == Err::<i16, DeserializeP4DataError>(
            DeserializeP4DataError::ExpectedI16,
        ),
{
    match v {
        TypedValue::Bitstring(b) => {
            if b.len() > 2 {
                Err(DeserializeP4DataError::ExpectedI16)
            } else {
                let u = be_to_uint_narrow(b, 2);
                if u < 0x8000 {
                    Ok(u as i16)
                } else {
                    Ok(((u as i32) - 0x1_0000) as i16)
                }
            }
        }
        TypedValue::VarWidthBits(b, w) => {
            if *w > 16 || b.len() > 2 {
                Err(DeserializeP4DataError::ExpectedI16)
            } else {
                let u = be_to_uint_narrow(b, 2);
                if u < 0x8000 {
                    Ok(u as i16)
                } else {
                    Ok(((u as i32) - 0x1_0000) as i16)
                }
            }
        }
        _ => Err(DeserializeP4DataError::ExpectedI16),
    }
}

/// Decode a signed 32-bit target.
pub fn parse_i32(v: &TypedValue) -> (r: Result<i32, DeserializeP4DataError>)
    ensures
        fits_uint(v@, 4) ==> (r matches Ok(n) && n as int == to_signed32(be_val(int_bytes(v@)))),
        !fits_uint(v@, 4) ==> r == Err::<i32, DeserializeP4DataError>(
            DeserializeP4DataError::ExpectedI32,
        ),
{
    match v {
        TypedValue::Bitstring(b) => {
            if b.len() > 4 {
                Err(DeserializeP4DataError::ExpectedI32)
            } else {
                let u = be_to_uint_narrow(b, 4);
                if u < 0x8000_0000 {
                    Ok(u as i32)
                } else {
                    Ok(((u as i64) - 0x1_0000_0000) as i32)
                }
            }
        }
        TypedValue::VarWidthBits(b, w) => {
            if *w > 32 || b.len() > 4 {
                Err(DeserializeP4DataError::ExpectedI32)
            } else {
                let u = be_to_uint_narrow(b, 4);
                if u < 0x8000_0000 {
                    Ok(u as i32)
                } else {
                    Ok(((u as i64) - 0x1_0000_0000) as i32)
                }
            }
        }
        _ => Err(DeserializeP4DataError::ExpectedI32),
    }
}

/// Decode a signed 64-bit target.
pub fn parse_i64(v: &TypedValue) -> (r: Result<i64, DeserializeP4DataError>)
    ensures
        fits_uint(v@, 8) ==> (r matches Ok(n) && n as int == to_signed64(be_val(int_bytes(v@)))),
        !fits_uint(v@, 8) ==> r == Err::<i64, DeserializeP4DataError>(
            DeserializeP4DataError::ExpectedI64,
        ),
{
    match v {
        TypedValue::Bitstring(b) => {
            if b.len() > 8 {
                Err(DeserializeP4DataError::ExpectedI64)
            } else {
                let u = be_bytes_to_u64(b);
                if u < 0x8000_0000_0000_0000 {
                    Ok(u as i64)
                } else {
                    Ok(((u as i128) - 0x1_0000_0000_0000_0000i128) as i64)
                }
            }
        }
        TypedValue::VarWidthBits(b, w) => {
            if *w > 64 || b.len() > 8 {
                Err(DeserializeP4DataError::ExpectedI64)
            } else {
                let u = be_bytes_to_u64(b);
                if u < 0x8000_0000_0000_0000 {
                    Ok(u as i64)
                } else {
                    Ok(((u as i128) - 0x1_0000_0000_0000_0000i128) as i64)
                }
            }
        }
        _ => Err(DeserializeP4DataError::ExpectedI64),
    }
}

/// Decode a raw byte-payload target: the value must be a plain bitstring;
/// the bytes are returned as a copy. A width-tagged bitstring is not a valid
/// byte-payload source.
pub fn parse_bytes(v: &TypedValue) -> (r: Result<Vec<u8>, DeserializeP4DataError>)
    ensures
        v@ matches ValueV::Bitstring(b) ==> (r matches Ok(out) && out@ == b),
        !(v@ is Bitstring) ==> r == Err::<Vec<u8>, DeserializeP4DataError>(
            DeserializeP4DataError::ExpectedBytes,
        ),
{
    match v {
        TypedValue::Bitstring(b) => Ok(b.clone()),
        _ => Err(DeserializeP4DataError::ExpectedBytes),
    }
}

/// What decoding a value into a schema yields: the full mathematical
/// description of [`decode`]. Aggregates are walked positionally, member `i`
/// of the source feeding element or field `i` of the target; extra source
/// members beyond the target's arity are ignored; too few members are a
/// `Custom` shape error. An absent value is accepted only by an optional
/// target.
pub open spec fn decode_value(v: ValueV, s: SchemaV) -> Result<DecodedV, ErrorV>
    decreases s, 1int,
{
    match s {
        SchemaV::Bool => match v {
            ValueV::Boolean(b) => Ok(DecodedV::Bool(b)),
            _ => Err(ErrorV::ExpectedBool),
        },
        SchemaV::U8 => if fits_uint(v, 1) {
            Ok(DecodedV::U8(be_val(int_bytes(v)) as u8))
        } else {
            Err(ErrorV::ExpectedU8)
        },
        SchemaV::U16 => if fits_uint(v, 2) {
            Ok(DecodedV::U16(be_val(int_bytes(v)) as u16))
        } else {
            Err(ErrorV::ExpectedU16)
        },
        SchemaV::U32 => if fits_uint(v, 4) {
            Ok(DecodedV::U32(be_val(int_bytes(v)) as u32))
        } else {
            Err(ErrorV::ExpectedU32)
        },
        SchemaV::U64 => if fits_uint(v, 8) {
            Ok(DecodedV::U64(be_val(int_bytes(v)) as u64))
        } else {
            Err(ErrorV::ExpectedU64)
        },
        SchemaV::I8 => if fits_uint(v, 1) {
            Ok(DecodedV::I8(to_signed8(be_val(int_bytes(v))) as i8))
        } else {
            Err(ErrorV::ExpectedI8)
        },
        SchemaV::I16 => if fits_uint(v, 2) {
            Ok(DecodedV::I16(to_signed16(be_val(int_bytes(v))) as i16))
        } else {
            Err(ErrorV::ExpectedI16)
        },
        SchemaV::I32 => if fits_uint(v, 4) {
            Ok(DecodedV::I32(to_signed32(be_val(int_bytes(v))) as i32))
        } else {
            Err(ErrorV::ExpectedI32)
        },
        SchemaV::I64 => if fits_uint(v, 8) {
            Ok(DecodedV::I64(to_signed64(be_val(int_bytes(v))) as i64))
        } else {
            Err(ErrorV::ExpectedI64)
        },
        SchemaV::Bytes => match v {
            ValueV::Bitstring(b) => Ok(DecodedV::Bytes(b)),
            _ => Err(ErrorV::ExpectedBytes),
        },
        SchemaV::Tuple(ss) => match v {
            ValueV::Tuple(ms) => if ms.len() < ss.len() {
                Err(ErrorV::Custom)
            } else {
                proof {
                    assert(decreases_to!(s => ss));
                }
                match decode_members(ms, ss) {
                    Ok(ds) => Ok(DecodedV::Tuple(ds)),
                    Err(e) => Err(e),
                }
            },
            _ => Err(ErrorV::ExpectedTuple),
        },
        SchemaV::Record(fs) => match v {
            ValueV::Record(ms) => if ms.len() < fs.len() {
                Err(ErrorV::Custom)
            } else {
                proof {
                    assert(decreases_to!(s => fs));
                }
                match decode_members(ms, fs) {
                    Ok(ds) => Ok(DecodedV::Record(ds)),
                    Err(e) => Err(e),
                }
            },
            _ => Err(ErrorV::ExpectedStruct),
        },
        SchemaV::Optional(inner) => match v {
            ValueV::Absent => Ok(DecodedV::Nothing),
            _ => decode_value(v, *inner),
        },
    }
}

/// Decode the first `ss.len()` members of `ms` positionally, stopping at the
/// first member that fails.
pub open spec fn decode_members(ms: Seq<ValueV>, ss: Seq<SchemaV>) -> Result<Seq<DecodedV>, ErrorV>
    recommends
        ms.len() >= ss.len(),
    decreases ss, 0int,
{
    if ss.len() == 0 {
        Ok(Seq::empty())
    } else {
        proof {
            assert(decreases_to!(ss => ss[0]));
            assert(decreases_to!(ss => ss.drop_first()));
        }
        match decode_value(ms[0], ss[0]) {
            Err(e) => Err(e),
            Ok(d) => match decode_members(ms.drop_first(), ss.drop_first()) {
                Err(e) => Err(e),
                Ok(ds) => Ok(seq![d] + ds),
            },
        }
    }
}

/// Appending one element extends the element-wise view by that element's
/// view.
proof fn lemma_decodeds_view_push(ds: Seq<Decoded>, d: Decoded)
    ensures
        decodeds_view(ds.push(d)) == decodeds_view(ds) + seq![decoded_view(d)],
{
    lemma_decodeds_view(ds.push(d));
    lemma_decodeds_view(ds);
    assert(decodeds_view(ds.push(d)) =~= decodeds_view(ds) + seq![decoded_view(d)]);
}

/// Whether the outcome of an executable decode denotes the mathematical
/// outcome `m`: same success or failure, same decoded shape, same error
/// kind.
pub open spec fn result_matches(
    r: Result<Decoded, DeserializeP4DataError>,
    m: Result<DecodedV, ErrorV>,
) -> bool {
    match r {
        Ok(d) => m == Ok::<DecodedV, ErrorV>(decoded_view(d)),
        Err(e) => m == Err::<DecodedV, ErrorV>(e@),
    }
}

/// Whether the outcome of an executable member walk denotes the mathematical
/// outcome `m`.
pub open spec fn members_match(
    r: Result<Vec<Decoded>, DeserializeP4DataError>,
    m: Result<Seq<DecodedV>, ErrorV>,
) -> bool {
    match r {
        Ok(ds) => m == Ok::<Seq<DecodedV>, ErrorV>(decodeds_view(ds@)),
        Err(e) => m == Err::<Seq<DecodedV>, ErrorV>(e@),
    }
}

/// Decode the first `ss.len()` members of `ms`, each into the schema element
/// at the same position, stopping at the first failure.
fn decode_members_vec(ms: &Vec<TypedValue>, ss: &Vec<Schema>) -> (r: Result<
    Vec<Decoded>,
    DeserializeP4DataError,
>)
    requires
        ms@.len() >= ss@.len(),
    ensures
        members_match(r, decode_members(values_view(ms@), schemas_view(ss@))),
    decreases ss, 0int,
{
    let ghost msv = values_view(ms@);
    let ghost ssv = schemas_view(ss@);
    proof {
        lemma_values_view(ms@);
        lemma_schemas_view(ss@);
    }
    let mut out: Vec<Decoded> = Vec::new();
    let mut i: usize = 0;
    proof {
        assert(msv.skip(0) =~= msv);
        assert(ssv.skip(0) =~= ssv);
        assert(decodeds_view(out@) =~= Seq::<DecodedV>::empty());
        assert(forall|ds: Seq<DecodedV>| decodeds_view(out@) + ds =~= ds);
    }
    while i < ss.len()
        invariant
            i <= ss@.len(),
            ms@.len() >= ss@.len(),
            out@.len() == i,
            msv == values_view(ms@),
            ssv == schemas_view(ss@),
            msv.len() == ms@.len(),
            ssv.len() == ss@.len(),
            forall|j: int| 0 <= j < ms@.len() ==> msv[j] == value_view(ms@[j]),
            forall|j: int| 0 <= j < ss@.len() ==> ssv[j] == schema_view(ss@[j]),
            decode_members(msv, ssv) == (match decode_members(
                msv.skip(i as int),
                ssv.skip(i as int),
            ) {
                Ok(ds) => Ok::<Seq<DecodedV>, ErrorV>(decodeds_view(out@) + ds),
                Err(e) => Err::<Seq<DecodedV>, ErrorV>(e),
            }),
        decreases ss@.len() - i,
    {
        proof {
            assert(decreases_to!(ss => ss@));
            assert(decreases_to!(ss@ => ss@[i as int]));
        }
        let d = decode(&ms[i], &ss[i]);
        proof {
            let ii = i as int;
            assert(msv.skip(ii)[0] == msv[ii]);
            assert(ssv.skip(ii)[0] == ssv[ii]);
            assert(msv.skip(ii).drop_first() =~= msv.skip(ii + 1));
            assert(ssv.skip(ii).drop_first() =~= ssv.skip(ii + 1));
        }
        match d {
            Ok(dd) => {
                proof {
                    lemma_decodeds_view_push(out@, dd);
                    assert(forall|ds: Seq<DecodedV>|
                        (decodeds_view(out@) + seq![decoded_view(dd)]) + ds =~= decodeds_view(out@)
                            + (seq![decoded_view(dd)] + ds));
                }
                out.push(dd);
                i += 1;
            }
            Err(e) => {
                return Err(e);
            }
        }
    }
    proof {
        assert(ssv.skip(ss@.len() as int).len() == 0);
        assert(decode_members(msv.skip(ss@.len() as int), ssv.skip(ss@.len() as int))
            == Ok::<Seq<DecodedV>, ErrorV>(Seq::empty()));
        assert(decodeds_view(out@) + Seq::<DecodedV>::empty() =~= decodeds_view(out@));
    }
    Ok(out)
}

/// Decode a tagged value into the shape that `schema` describes.
///
/// The result is fully determined by the value and the schema — decoding is
/// pure and stateless, so decoding the same value twice into the same schema
/// yields equal results. The exact outcome, for every input, is
/// [`decode_value`] applied to the views of the two arguments.
pub fn decode(value: &TypedValue, schema: &Schema) -> (r: Result<
    Decoded,
    DeserializeP4DataError,
>)
    ensures
        result_matches(r, decode_value(value@, schema@)),
    decreases schema, 1int,
{
    match schema {
        Schema::Bool => match parse_bool(value) {
            Ok(b) => Ok(Decoded::Bool(b)),
            Err(e) => Err(e),
        },
        Schema::U8 => match parse_u8(value) {
            Ok(n) => Ok(Decoded::U8(n)),
            Err(e) => Err(e),
        },
        Schema::U16 => match parse_u16(value) {
            Ok(n) => Ok(Decoded::U16(n)),
            Err(e) => Err(e),
        },
        Schema::U32 => match parse_u32(value) {
            Ok(n) => Ok(Decoded::U32(n)),
            Err(e) => Err(e),
        },
        Schema::U64 => match parse_u64(value) {
            Ok(n) => Ok(Decoded::U64(n)),
            Err(e) => Err(e),
        },
        Schema::I8 => match parse_i8(value) {
            Ok(n) => Ok(Decoded::I8(n)),
            Err(e) => Err(e),
        },
        Schema::I16 => match parse_i16(value) {
            Ok(n) => Ok(Decoded::I16(n)),
            Err(e) => Err(e),
        },
        Schema::I32 => match parse_i32(value) {
            Ok(n) => Ok(Decoded::I32(n)),
            Err(e) => Err(e),
        },
        Schema::I64 => match parse_i64(value) {
            Ok(n) => Ok(Decoded::I64(n)),
            Err(e) => Err(e),
        },
        Schema::Bytes => match parse_bytes(value) {
            Ok(b) => Ok(Decoded::Bytes(b)),
            Err(e) => Err(e),
        },
        Schema::Tuple(ss) => match value {
            TypedValue::Tuple(ms) => {
                proof {
                    lemma_values_view(ms@);
                    lemma_schemas_view(ss@);
                }
                if ms.len() < ss.len() {
                    Err(DeserializeP4DataError::Custom(String::from_str("too few tuple members")))
                } else {
                    proof {
                        assert(decreases_to!(schema => ss));
                    }
                    match decode_members_vec(ms, ss) {
                        Ok(ds) => Ok(Decoded::Tuple(ds)),
                        Err(e) => Err(e),
                    }
                }
            }
            _ => Err(DeserializeP4DataError::ExpectedTuple),
        },
        Schema::Record(fs) => match value {
            TypedValue::Record(ms) => {
                proof {
                    lemma_values_view(ms@);
                    lemma_schemas_view(fs@);
                }
                if ms.len() < fs.len() {
                    Err(DeserializeP4DataError::Custom(String::from_str("too few record members")))
                } else {
                    proof {
                        assert(decreases_to!(schema => fs));
                    }
                    match decode_members_vec(ms, fs) {
                        Ok(ds) => Ok(Decoded::Record(ds)),
                        Err(e) => Err(e),
                    }
                }
            }
            _ => Err(DeserializeP4DataError::ExpectedStruct),
        },
        Schema::Optional(inner) => match value {
            TypedValue::Absent => Ok(Decoded::Nothing),
            _ => {
                proof {
                    assert(decreases_to!(schema => *inner));
                }
                decode(value, &**inner)
            }
        },
    }
}

/// What decoding every value of a batch into one schema yields: each value
/// is decoded independently, in arrival order, stopping at the first
/// failure.
pub open spec fn decode_all(vs: Seq<ValueV>, s: SchemaV) -> Result<Seq<DecodedV>, ErrorV>
    decreases vs.len(),
{
    if vs.len() == 0 {
        Ok(Seq::empty())
    } else {
        match decode_value(vs[0], s) {
            Err(e) => Err(e),
            Ok(d) => match decode_all(vs.drop_first(), s) {
                Err(e) => Err(e),
                Ok(ds) => Ok(seq![d] + ds),
            },
        }
    }
}

/// Decode a batch of independently arrived values, each into the same
/// schema, in arrival order. Each decode is pure and independent of the
/// others; the first failing value's error is returned.
pub fn decode_batch(values: &Vec<TypedValue>, schema: &Schema) -> (r: Result<
    Vec<Decoded>,
    DeserializeP4DataError,
>)
    ensures
        members_match(r, decode_all(values_view(values@), schema@)),
{
    let ghost vsv = values_view(values@);
    proof {
        lemma_values_view(values@);
    }
    let mut out: Vec<Decoded> = Vec::new();
    let mut i: usize = 0;
    proof {
        assert(vsv.skip(0) =~= vsv);
        assert(decodeds_view(out@) =~= Seq::<DecodedV>::empty());
        assert(forall|ds: Seq<DecodedV>| decodeds_view(out@) + ds =~= ds);
    }
    while i < values.len()
        invariant
            i <= values@.len(),
            out@.len() == i,
            vsv == values_view(values@),
            vsv.len() == values@.len(),
            forall|j: int| 0 <= j < values@.len() ==> vsv[j] == value_view(values@[j]),
            decode_all(vsv, schema@) == (match decode_all(vsv.skip(i as int), schema@) {
                Ok(ds) => Ok::<Seq<DecodedV>, ErrorV>(decodeds_view(out@) + ds),
                Err(e) => Err::<Seq<DecodedV>, ErrorV>(e),
            }),
        decreases values@.len() - i,
    {
        let d = decode(&values[i], schema);
        proof {
            let ii = i as int;
            assert(vsv.skip(ii)[0] == vsv[ii]);
            assert(vsv.skip(ii).drop_first() =~= vsv.skip(ii + 1));
        }
        match d {
            Ok(dd) => {
                proof {
                    lemma_decodeds_view_push(out@, dd);
                    assert(forall|ds: Seq<DecodedV>|
                        (decodeds_view(out@) + seq![decoded_view(dd)]) + ds =~= decodeds_view(out@)
                            + (seq![decoded_view(dd)] + ds));
                }
                out.push(dd);
                i += 1;
            }
            Err(e) => {
                return Err(e);
            }
        }
    }
    proof {
        assert(vsv.skip(values@.len() as int).len() == 0);
        assert(decodeds_view(out@) + Seq::<DecodedV>::empty() =~= decodeds_view(out@));
    }
    Ok(out)
}

/// A bitstring of at most `n` bytes is a valid `n`-byte unsigned source, and
/// the value it decodes to equals the big-endian interpretation of the same
/// bytes zero-padded on the left to the full `n`-byte width: the source
/// bytes are the least-significant bytes of the target.
pub proof fn lemma_bitstring_uint_padded(b: Seq<u8>, n: nat)
    requires
        b.len() <= n,
    ensures
        fits_uint(ValueV::Bitstring(b), n),
        be_val(int_bytes(ValueV::Bitstring(b))) == be_val(zero_bytes((n - b.len()) as nat) + b),
{
    lemma_be_val_zero_pad((n - b.len()) as nat, b);
}

/// When every member decodes, a positional walk succeeds and pairs member
/// `i` with schema element `i`, in order.
proof fn lemma_decode_members_all_ok(ms: Seq<ValueV>, ss: Seq<SchemaV>)
    requires
        ms.len() >= ss.len(),
        forall|i: int| 0 <= i < ss.len() ==> decode_value(ms[i], ss[i]) is Ok,
    ensures
        decode_members(ms, ss) matches Ok(ds) && ds.len() == ss.len() && (forall|i: int|
            0 <= i < ss.len() ==> ds[i] == decode_value(ms[i], ss[i])->Ok_0),
    decreases ss.len(),
{
    if ss.len() != 0 {
        assert(forall|i: int| 0 <= i < ss.drop_first().len() ==> ss.drop_first()[i] == ss[i + 1]);
        assert(forall|i: int| 0 <= i < ms.drop_first().len() ==> ms.drop_first()[i] == ms[i + 1]);
        lemma_decode_members_all_ok(ms.drop_first(), ss.drop_first());
    }
}

/// Record members feed the target's fields positionally: decoding a record
/// value into a record schema of no greater arity decodes member `i` into
/// field `i`, for every `i` — no name takes part in the pairing. The decoded
/// record holds exactly the target's fields, in declaration order.
pub proof fn lemma_record_positional(ms: Seq<ValueV>, fs: Seq<SchemaV>)
    requires
        ms.len() >= fs.len(),
        forall|i: int| 0 <= i < fs.len() ==> decode_value(ms[i], fs[i]) is Ok,
    ensures
        decode_value(ValueV::Record(ms), SchemaV::Record(fs)) matches Ok(DecodedV::Record(ds))
            && ds.len() == fs.len() && (forall|i: int|
            0 <= i < fs.len() ==> ds[i] == decode_value(ms[i], fs[i])->Ok_0),
{
    lemma_decode_members_all_ok(ms, fs);
}

/// Tuple members feed the target's elements positionally, exactly as record
/// members feed fields.
pub proof fn lemma_tuple_positional(ms: Seq<ValueV>, ss: Seq<SchemaV>)
    requires
        ms.len() >= ss.len(),
        forall|i: int| 0 <= i < ss.len() ==> decode_value(ms[i], ss[i]) is Ok,
    ensures
        decode_value(ValueV::Tuple(ms), SchemaV::Tuple(ss)) matches Ok(DecodedV::Tuple(ds))
            && ds.len() == ss.len() && (forall|i: int|
            0 <= i < ss.len() ==> ds[i] == decode_value(ms[i], ss[i])->Ok_0),
{
    lemma_decode_members_all_ok(ms, ss);
}

/// A positional aggregate never coerces into a scalar target: decoding a
/// tuple value into a byte-payload or boolean target always fails with the
/// matching shape error.
pub proof fn lemma_tuple_never_coerces(ms: Seq<ValueV>)
    ensures
        decode_value(ValueV::Tuple(ms), SchemaV::Bytes) == Err::<DecodedV, ErrorV>(
            ErrorV::ExpectedBytes,
        ),
        decode_value(ValueV::Tuple(ms), SchemaV::Bool) == Err::<DecodedV, ErrorV>(
            ErrorV::ExpectedBool,
        ),
{
}

} // verus!
