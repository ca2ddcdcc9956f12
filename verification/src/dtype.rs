//! Rust element types and the tensor element types they stand for.

use crate::collections::descriptor::item_bytes;
use crate::dlpack::{DLDataType, K_DL_FLOAT, K_DL_INT, K_DL_UINT};
use vstd::layout::size_of;
use vstd::prelude::*;
use vstd::slice::slice_subrange;

verus! {

/// A Rust type that is stored in tensors.
///
/// `bytes` is the stored form of a value: it takes as many bytes as an element of
/// the tensor does, and determines the value. Whether the type takes as many in
/// Rust is found out when data is to be viewed as values of the type.
pub trait AsDLDataType: Sized + Copy {
    spec fn data_type() -> DLDataType;

    /// The number of bytes of a stored value.
    spec fn size() -> nat;

    spec fn bytes(self) -> Seq<u8>;

    /// A stored value takes as many bytes as an element of a tensor does.
    proof fn size_of_an_element()
        ensures
            Self::size() == item_bytes(Self::data_type()),
    ;

    /// Every value is stored in that many bytes.
    proof fn bytes_len(self)
        ensures
            self.bytes().len() == Self::size(),
    ;

    /// A value is determined by its stored form.
    proof fn bytes_injective(a: Self, b: Self)
        requires
            a.bytes() == b.bytes(),
        ensures
            a == b,
    ;

    /// The element type under which values of this type are stored.
    fn dl_data_type() -> (dtype: DLDataType)
        ensures
            dtype == Self::data_type(),
            dtype.bits > 0,
            dtype.lanes > 0,
    ;

    /// The number of bytes of a stored value.
    fn byte_size() -> (size: usize)
        ensures
            size == Self::size(),
    ;

    /// The stored form of the value.
    fn to_bytes(&self) -> (bytes: Vec<u8>)
        ensures
            bytes@ == self.bytes(),
    ;

    /// The value whose stored form is `bytes`.
    fn from_bytes(bytes: &[u8]) -> (value: Self)
        requires
            exists|value: Self| #[trigger] value.bytes() == bytes@,
        ensures
            value.bytes() == bytes@,
    ;
}

/// An element of one lane takes as many bytes as its bits do.
proof fn lemma_one_lane(dtype: DLDataType)
    requires
        dtype.lanes == 1,
    ensures
        item_bytes(dtype) == (dtype.bits + 7) / 8,
{
    assert(dtype.bits * dtype.lanes == dtype.bits) by (nonlinear_arith)
        requires
            dtype.lanes == 1,
    ;
}

impl AsDLDataType for u8 {
    open spec fn data_type() -> DLDataType {
        DLDataType { code: K_DL_UINT, bits: 8, lanes: 1 }
    }

    open spec fn size() -> nat {
        1
    }

    open spec fn bytes(self) -> Seq<u8> {
        seq![self]
    }

    proof fn size_of_an_element() {
        lemma_one_lane(Self::data_type());
    }

    proof fn bytes_len(self) {
    }

    proof fn bytes_injective(a: Self, b: Self) {
        assert(seq![a][0] == seq![b][0]);
    }

    fn dl_data_type() -> DLDataType {
        DLDataType { code: K_DL_UINT, bits: 8, lanes: 1 }
    }

    fn byte_size() -> usize {
        1
    }

    fn to_bytes(&self) -> Vec<u8> {
        vec![*self]
    }

    fn from_bytes(bytes: &[u8]) -> Self {
        proof {
            let value = choose|value: Self| #[trigger] value.bytes() == bytes@;
            assert(value.bytes().len() == 1);
        }
        let byte: u8 = bytes[0];
        byte
    }
}

impl AsDLDataType for i8 {
    open spec fn data_type() -> DLDataType {
        DLDataType { code: K_DL_INT, bits: 8, lanes: 1 }
    }

    open spec fn size() -> nat {
        1
    }

    open spec fn bytes(self) -> Seq<u8> {
        seq![self as u8]
    }

    proof fn size_of_an_element() {
        lemma_one_lane(Self::data_type());
    }

    proof fn bytes_len(self) {
    }

    proof fn bytes_injective(a: Self, b: Self) {
        assert(seq![a as u8][0] == seq![b as u8][0]);
        assert((a as u8) == (b as u8) ==> a == b) by (bit_vector);
    }

    fn dl_data_type() -> DLDataType {
        DLDataType { code: K_DL_INT, bits: 8, lanes: 1 }
    }

    fn byte_size() -> usize {
        1
    }

    fn to_bytes(&self) -> Vec<u8> {
        vec![*self as u8]
    }

    fn from_bytes(bytes: &[u8]) -> Self {
        proof {
            let value = choose|value: Self| #[trigger] value.bytes() == bytes@;
            assert(value.bytes().len() == 1);
        assert(forall|x: u8| #[trigger] ((x as i8) as u8) == x) by (bit_vector);
        }
        let byte: u8 = bytes[0];
        byte as i8
    }
}

impl AsDLDataType for u16 {
    open spec fn data_type() -> DLDataType {
        DLDataType { code: K_DL_UINT, bits: 16, lanes: 1 }
    }

    open spec fn size() -> nat {
        2
    }

    open spec fn bytes(self) -> Seq<u8> {
        vstd::bytes::spec_u16_to_le_bytes(self)
    }

    proof fn size_of_an_element() {
        lemma_one_lane(Self::data_type());
    }

    proof fn bytes_len(self) {
        vstd::bytes::lemma_auto_spec_u16_to_from_le_bytes();
    }

    proof fn bytes_injective(a: Self, b: Self) {
        vstd::bytes::lemma_auto_spec_u16_to_from_le_bytes();
        assert(vstd::bytes::spec_u16_to_le_bytes(a) == vstd::bytes::spec_u16_to_le_bytes(b));
    }

    fn dl_data_type() -> DLDataType {
        DLDataType { code: K_DL_UINT, bits: 16, lanes: 1 }
    }

    fn byte_size() -> usize {
        2
    }

    fn to_bytes(&self) -> Vec<u8> {
        vstd::bytes::u16_to_le_bytes(*self)
    }

    fn from_bytes(bytes: &[u8]) -> Self {
        proof {
            vstd::bytes::lemma_auto_spec_u16_to_from_le_bytes();
            let value = choose|value: Self| #[trigger] value.bytes() == bytes@;
            assert(value.bytes().len() == 2);
        }
        let value: u16 = vstd::bytes::u16_from_le_bytes(bytes);
        value
    }
}

impl AsDLDataType for i16 {
    open spec fn data_type() -> DLDataType {
        DLDataType { code: K_DL_INT, bits: 16, lanes: 1 }
    }

    open spec fn size() -> nat {
        2
    }

    open spec fn bytes(self) -> Seq<u8> {
        vstd::bytes::spec_u16_to_le_bytes(self as u16)
    }

    proof fn size_of_an_element() {
        lemma_one_lane(Self::data_type());
    }

    proof fn bytes_len(self) {
        vstd::bytes::lemma_auto_spec_u16_to_from_le_bytes();
    }

    proof fn bytes_injective(a: Self, b: Self) {
        vstd::bytes::lemma_auto_spec_u16_to_from_le_bytes();
        assert(vstd::bytes::spec_u16_to_le_bytes(a as u16) == vstd::bytes::spec_u16_to_le_bytes(
            b as u16,
        ));
        assert((a as u16) == (b as u16) ==> a == b) by (bit_vector);
    }

    fn dl_data_type() -> DLDataType {
        DLDataType { code: K_DL_INT, bits: 16, lanes: 1 }
    }

    fn byte_size() -> usize {
        2
    }

    fn to_bytes(&self) -> Vec<u8> {
        vstd::bytes::u16_to_le_bytes(*self as u16)
    }

    fn from_bytes(bytes: &[u8]) -> Self {
        proof {
            vstd::bytes::lemma_auto_spec_u16_to_from_le_bytes();
            let value = choose|value: Self| #[trigger] value.bytes() == bytes@;
            assert(value.bytes().len() == 2);
        assert(forall|x: u16| #[trigger] ((x as i16) as u16) == x) by (bit_vector);
        }
        let value: u16 = vstd::bytes::u16_from_le_bytes(bytes);
        value as i16
    }
}

impl AsDLDataType for u32 {
    open spec fn data_type() -> DLDataType {
        DLDataType { code: K_DL_UINT, bits: 32, lanes: 1 }
    }

    open spec fn size() -> nat {
        4
    }

    open spec fn bytes(self) -> Seq<u8> {
        vstd::bytes::spec_u32_to_le_bytes(self)
    }

    proof fn size_of_an_element() {
        lemma_one_lane(Self::data_type());
    }

    proof fn bytes_len(self) {
        vstd::bytes::lemma_auto_spec_u32_to_from_le_bytes();
    }

    proof fn bytes_injective(a: Self, b: Self) {
        vstd::bytes::lemma_auto_spec_u32_to_from_le_bytes();
        assert(vstd::bytes::spec_u32_to_le_bytes(a) == vstd::bytes::spec_u32_to_le_bytes(b));
    }

    fn dl_data_type() -> DLDataType {
        DLDataType { code: K_DL_UINT, bits: 32, lanes: 1 }
    }

    fn byte_size() -> usize {
        4
    }

    fn to_bytes(&self) -> Vec<u8> {
        vstd::bytes::u32_to_le_bytes(*self)
    }

    fn from_bytes(bytes: &[u8]) -> Self {
        proof {
            vstd::bytes::lemma_auto_spec_u32_to_from_le_bytes();
            let value = choose|value: Self| #[trigger] value.bytes() == bytes@;
            assert(value.bytes().len() == 4);
        }
        let value: u32 = vstd::bytes::u32_from_le_bytes(bytes);
        value
    }
}

impl AsDLDataType for i32 {
    open spec fn data_type() -> DLDataType {
        DLDataType { code: K_DL_INT, bits: 32, lanes: 1 }
    }

    open spec fn size() -> nat {
        4
    }

    open spec fn bytes(self) -> Seq<u8> {
        vstd::bytes::spec_u32_to_le_bytes(self as u32)
    }

    proof fn size_of_an_element() {
        lemma_one_lane(Self::data_type());
    }

    proof fn bytes_len(self) {
        vstd::bytes::lemma_auto_spec_u32_to_from_le_bytes();
    }

    proof fn bytes_injective(a: Self, b: Self) {
        vstd::bytes::lemma_auto_spec_u32_to_from_le_bytes();
        assert(vstd::bytes::spec_u32_to_le_bytes(a as u32) == vstd::bytes::spec_u32_to_le_bytes(
            b as u32,
        ));
        assert((a as u32) == (b as u32) ==> a == b) by (bit_vector);
    }

    fn dl_data_type() -> DLDataType {
        DLDataType { code: K_DL_INT, bits: 32, lanes: 1 }
    }

    fn byte_size() -> usize {
        4
    }

    fn to_bytes(&self) -> Vec<u8> {
        vstd::bytes::u32_to_le_bytes(*self as u32)
    }

    fn from_bytes(bytes: &[u8]) -> Self {
        proof {
            vstd::bytes::lemma_auto_spec_u32_to_from_le_bytes();
            let value = choose|value: Self| #[trigger] value.bytes() == bytes@;
            assert(value.bytes().len() == 4);
        assert(forall|x: u32| #[trigger] ((x as i32) as u32) == x) by (bit_vector);
        }
        let value: u32 = vstd::bytes::u32_from_le_bytes(bytes);
        value as i32
    }
}

impl AsDLDataType for u64 {
    open spec fn data_type() -> DLDataType {
        DLDataType { code: K_DL_UINT, bits: 64, lanes: 1 }
    }

    open spec fn size() -> nat {
        8
    }

    open spec fn bytes(self) -> Seq<u8> {
        vstd::bytes::spec_u64_to_le_bytes(self)
    }

    proof fn size_of_an_element() {
        lemma_one_lane(Self::data_type());
    }

    proof fn bytes_len(self) {
        vstd::bytes::lemma_auto_spec_u64_to_from_le_bytes();
    }

    proof fn bytes_injective(a: Self, b: Self) {
        vstd::bytes::lemma_auto_spec_u64_to_from_le_bytes();
    }

    fn dl_data_type() -> DLDataType {
        DLDataType { code: K_DL_UINT, bits: 64, lanes: 1 }
    }

    fn byte_size() -> usize {
        8
    }

    fn to_bytes(&self) -> Vec<u8> {
        vstd::bytes::u64_to_le_bytes(*self)
    }

    fn from_bytes(bytes: &[u8]) -> Self {
        proof {
            vstd::bytes::lemma_auto_spec_u64_to_from_le_bytes();
            let value = choose|value: Self| #[trigger] value.bytes() == bytes@;
            assert(value.bytes().len() == 8);
        }
        let value: u64 = vstd::bytes::u64_from_le_bytes(bytes);
        value
    }
}

impl AsDLDataType for i64 {
    open spec fn data_type() -> DLDataType {
        DLDataType { code: K_DL_INT, bits: 64, lanes: 1 }
    }

    open spec fn size() -> nat {
        8
    }

    open spec fn bytes(self) -> Seq<u8> {
        vstd::bytes::spec_u64_to_le_bytes(self as u64)
    }

    proof fn size_of_an_element() {
        lemma_one_lane(Self::data_type());
    }

    proof fn bytes_len(self) {
        vstd::bytes::lemma_auto_spec_u64_to_from_le_bytes();
    }

    proof fn bytes_injective(a: Self, b: Self) {
        vstd::bytes::lemma_auto_spec_u64_to_from_le_bytes();
        assert((a as u64) == (b as u64) ==> a == b) by (bit_vector);
    }

    fn dl_data_type() -> DLDataType {
        DLDataType { code: K_DL_INT, bits: 64, lanes: 1 }
    }

    fn byte_size() -> usize {
        8
    }

    fn to_bytes(&self) -> Vec<u8> {
        vstd::bytes::u64_to_le_bytes(*self as u64)
    }

    fn from_bytes(bytes: &[u8]) -> Self {
        proof {
            vstd::bytes::lemma_auto_spec_u64_to_from_le_bytes();
            let value = choose|value: Self| #[trigger] value.bytes() == bytes@;
            assert(value.bytes().len() == 8);
        assert(forall|x: u64| #[trigger] ((x as i64) as u64) == x) by (bit_vector);
        }
        let value: u64 = vstd::bytes::u64_from_le_bytes(bytes);
        value as i64
    }
}

/// A floating-point number of 32 bits, held as its bits.
#[derive(Clone, Copy, PartialEq, Eq, Structural, Debug)]
pub struct Float32 {
    pub bits: u32,
}

impl AsDLDataType for Float32 {
    open spec fn data_type() -> DLDataType {
        DLDataType { code: K_DL_FLOAT, bits: 32, lanes: 1 }
    }

    open spec fn size() -> nat {
        4
    }

    open spec fn bytes(self) -> Seq<u8> {
        vstd::bytes::spec_u32_to_le_bytes(self.bits)
    }

    proof fn size_of_an_element() {
        lemma_one_lane(Self::data_type());
    }

    proof fn bytes_len(self) {
        vstd::bytes::lemma_auto_spec_u32_to_from_le_bytes();
    }

    proof fn bytes_injective(a: Self, b: Self) {
        vstd::bytes::lemma_auto_spec_u32_to_from_le_bytes();
        assert(vstd::bytes::spec_u32_to_le_bytes(a.bits) == vstd::bytes::spec_u32_to_le_bytes(
            b.bits,
        ));
    }

    fn dl_data_type() -> DLDataType {
        DLDataType { code: K_DL_FLOAT, bits: 32, lanes: 1 }
    }

    fn byte_size() -> usize {
        4
    }

    fn to_bytes(&self) -> Vec<u8> {
        vstd::bytes::u32_to_le_bytes(self.bits)
    }

    fn from_bytes(bytes: &[u8]) -> Self {
        proof {
            vstd::bytes::lemma_auto_spec_u32_to_from_le_bytes();
            let value = choose|value: Self| #[trigger] value.bytes() == bytes@;
            assert(value.bytes().len() == 4);
        }
        Float32 { bits: vstd::bytes::u32_from_le_bytes(bytes) }
    }
}

/// The stored form of a sequence of values.
pub open spec fn encode<T: AsDLDataType>(values: Seq<T>) -> Seq<u8>
    decreases values.len(),
{
    if values.len() == 0 {
        Seq::empty()
    } else {
        encode(values.drop_last()) + values.last().bytes()
    }
}

/// A sequence is stored in as many bytes as its values take.
pub proof fn lemma_encode_len<T: AsDLDataType>(values: Seq<T>)
    ensures
        encode(values).len() == values.len() * T::size(),
    decreases values.len(),
{
    if values.len() > 0 {
        lemma_encode_len(values.drop_last());
        values.last().bytes_len();
        let (n, size) = (values.len() as int, T::size() as int);
        assert(n * size == (n - 1) * size + size) by (nonlinear_arith);
    }
}

/// The stored form of value `i` begins after those of the values before it.
proof fn lemma_encode_chunk<T: AsDLDataType>(values: Seq<T>, i: int)
    requires
        0 <= i < values.len(),
    ensures
        0 <= i * T::size(),
        (i + 1) * T::size() == i * T::size() + T::size(),
        (i + 1) * T::size() <= encode(values).len(),
        encode(values).subrange(i * T::size(), (i + 1) * T::size()) == values[i].bytes(),
    decreases values.len(),
{
    let size = T::size() as int;
    let before = encode(values.drop_last());
    lemma_encode_len(values.drop_last());
    lemma_encode_len(values);
    values[i].bytes_len();
    assert(0 <= i * size && (i + 1) * size == i * size + size) by (nonlinear_arith)
        requires
            0 <= i,
            0 <= size,
    ;
    if i < values.len() - 1 {
        lemma_encode_chunk(values.drop_last(), i);
        assert(encode(values).subrange(i * size, (i + 1) * size) =~= before.subrange(
            i * size,
            (i + 1) * size,
        ));
    } else {
        assert(encode(values).subrange(i * size, (i + 1) * size) =~= values[i].bytes());
    }
}

/// Sequences of equal length with the same stored form are equal.
pub proof fn lemma_encode_injective<T: AsDLDataType>(a: Seq<T>, b: Seq<T>)
    requires
        a.len() == b.len(),
        encode(a) == encode(b),
    ensures
        a == b,
{
    assert forall|i: int| 0 <= i < a.len() implies a[i] == b[i] by {
        lemma_encode_chunk(a, i);
        lemma_encode_chunk(b, i);
        T::bytes_injective(a[i], b[i]);
    }
    assert(a =~= b);
}

/// Stores a sequence of values.
pub fn encode_slice<T: AsDLDataType>(values: &[T]) -> (bytes: Vec<u8>)
    ensures
        bytes@ == encode(values@),
{
    let mut bytes: Vec<u8> = Vec::new();
    let mut i: usize = 0;
    while i < values.len()
        invariant
            i <= values@.len(),
            bytes@ == encode(values@.take(i as int)),
        decreases values@.len() - i,
    {
        let value: Vec<u8> = values[i].to_bytes();
        bytes.extend_from_slice(value.as_slice());
        assert(values@.take(i + 1).drop_last() =~= values@.take(i as int));
        i = i + 1;
    }
    assert(values@.take(i as int) =~= values@);
    bytes
}

/// Loads the values that `bytes` stores.
pub fn decode_slice<T: AsDLDataType>(bytes: &[u8], count: usize) -> (values: Vec<T>)
    requires
        exists|values: Seq<T>| values.len() == count && #[trigger] encode(values) == bytes@,
    ensures
        values@.len() == count,
        encode(values@) == bytes@,
{
    let size: usize = T::byte_size();
    let ghost expected = choose|values: Seq<T>|
        values.len() == count && #[trigger] encode(values) == bytes@;
    let total: usize = bytes.len();
    let mut values: Vec<T> = Vec::new();
    let mut start: usize = 0;
    assert(start == 0int * size);
    while values.len() < count
        invariant
            values@.len() <= count,
            expected.len() == count,
            encode(expected) == bytes@,
            size == T::size(),
            total == bytes@.len(),
            start == values@.len() * size,
            values@ == expected.take(values@.len() as int),
        decreases count - values@.len(),
    {
        let ghost i = values@.len() as int;
        proof {
            lemma_encode_chunk(expected, i);
            assert(start + size == (i + 1) * T::size());
        }
        let chunk: &[u8] = slice_subrange(bytes, start, start + size);
        assert(expected[i].bytes() == chunk@);
        let value: T = T::from_bytes(chunk);
        proof {
            T::bytes_injective(value, expected[i]);
        }
        values.push(value);
        start = start + size;
        assert(values@ =~= expected.take(i + 1));
    }
    assert(values@ =~= expected);
    values
}

/// An integer is stored in as many bytes as it takes in Rust.
pub proof fn law_integers_are_stored_in_their_size()
    ensures
        u8::size() == size_of::<u8>(),
        i8::size() == size_of::<i8>(),
        u16::size() == size_of::<u16>(),
        i16::size() == size_of::<i16>(),
        u32::size() == size_of::<u32>(),
        i32::size() == size_of::<i32>(),
        u64::size() == size_of::<u64>(),
        i64::size() == size_of::<i64>(),
{
}

/// Value `i` of a sequence is stored right after the `i` values before it, in its own
/// stored form, and nothing else is stored.
pub proof fn law_values_are_stored_one_after_the_other<T: AsDLDataType>(values: Seq<T>)
    ensures
        encode(values).len() == values.len() * T::size(),
        forall|i: int|
            0 <= i < values.len() ==> encode(values).subrange(
                i * T::size(),
                i * T::size() + T::size(),
            ) == (#[trigger] values[i]).bytes(),
{
    lemma_encode_len(values);
    assert forall|i: int| 0 <= i < values.len() implies encode(values).subrange(
        i * T::size(),
        i * T::size() + T::size(),
    ) == (#[trigger] values[i]).bytes() by {
        lemma_encode_chunk(values, i);
    }
}

/// The element type of `T` has this code, one lane, and as many bits as its values are
/// stored in.
pub open spec fn describes_values<T: AsDLDataType>(code: u8) -> bool {
    let dtype = T::data_type();
    &&& dtype.code == code
    &&& dtype.lanes == 1
    &&& dtype.bits == 8 * T::size()
}

/// Numbers are stored under their kind and their width.
pub proof fn law_numbers_are_stored_under_their_kind()
    ensures
        describes_values::<u8>(K_DL_UINT),
        describes_values::<u16>(K_DL_UINT),
        describes_values::<u32>(K_DL_UINT),
        describes_values::<u64>(K_DL_UINT),
        describes_values::<i8>(K_DL_INT),
        describes_values::<i16>(K_DL_INT),
        describes_values::<i32>(K_DL_INT),
        describes_values::<i64>(K_DL_INT),
        describes_values::<Float32>(K_DL_FLOAT),
{
}

/// A number of one byte is stored as that byte.
pub proof fn law_bytes_are_stored_as_they_are(unsigned: u8, signed: i8)
    ensures
        unsigned.bytes() == seq![unsigned],
        signed.bytes() == seq![signed as u8],
{
}

} // verus!
