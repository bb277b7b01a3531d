//! Integer and bit-level helpers shared by the section parsers and the decoders.
use vstd::prelude::*;

verus! {

/// Reading of an unsigned value as a sign-and-magnitude integer: the top bit
/// is the sign, the remaining bits are the magnitude.
pub trait GribInt<I> {
    /// The signed integer that the bits stand for.
    spec fn grib_int(&self) -> I;

    fn as_grib_int(&self) -> (r: I)
        ensures
            r == self.grib_int(),
    ;
}

impl GribInt<i8> for u8 {
    open spec fn grib_int(&self) -> i8 {
        if *self >= 0x80 {
            (0x80 - *self) as i8
        } else {
            *self as i8
        }
    }

    fn as_grib_int(&self) -> (r: i8) {
        if *self >= 0x80 {
            let magnitude: u8 = *self - 0x80;
            -(magnitude as i8)
        } else {
            *self as i8
        }
    }
}

impl GribInt<i16> for u16 {
    open spec fn grib_int(&self) -> i16 {
        if *self >= 0x8000 {
            (0x8000 - *self) as i16
        } else {
            *self as i16
        }
    }

    fn as_grib_int(&self) -> (r: i16) {
        if *self >= 0x8000 {
            let magnitude: u16 = *self - 0x8000;
            -(magnitude as i16)
        } else {
            *self as i16
        }
    }
}

impl GribInt<i32> for u32 {
    open spec fn grib_int(&self) -> i32 {
        if *self >= 0x8000_0000 {
            (0x8000_0000 - *self) as i32
        } else {
            *self as i32
        }
    }

    fn as_grib_int(&self) -> (r: i32) {
        if *self >= 0x8000_0000 {
            let magnitude: u32 = *self - 0x8000_0000;
            -(magnitude as i32)
        } else {
            *self as i32
        }
    }
}

impl GribInt<i64> for u64 {
    open spec fn grib_int(&self) -> i64 {
        if *self >= 0x8000_0000_0000_0000 {
            (0x8000_0000_0000_0000 - *self) as i64
        } else {
            *self as i64
        }
    }

    fn as_grib_int(&self) -> (r: i64) {
        if *self >= 0x8000_0000_0000_0000 {
            let magnitude: u64 = *self - 0x8000_0000_0000_0000;
            -(magnitude as i64)
        } else {
            *self as i64
        }
    }
}

/// With the top bit clear a value stands for itself; with the top bit set it
/// stands for the negated value of its remaining bits.
pub proof fn lemma_grib_int_u8(x: u8)
    ensures
        x & 0x80 == 0 ==> x.grib_int() == x,
        x & 0x80 != 0 ==> x.grib_int() == -(x & 0x7f),
{
    assert(x & 0x80 == 0 <==> x < 0x80) by (bit_vector);
    assert(x >= 0x80 ==> x & 0x7f == x - 0x80) by (bit_vector);
}

/// With the top bit clear a value stands for itself; with the top bit set it
/// stands for the negated value of its remaining bits.
pub proof fn lemma_grib_int_u16(x: u16)
    ensures
        x & 0x8000 == 0 ==> x.grib_int() == x,
        x & 0x8000 != 0 ==> x.grib_int() == -(x & 0x7fff),
{
    assert(x & 0x8000 == 0 <==> x < 0x8000) by (bit_vector);
    assert(x >= 0x8000 ==> x & 0x7fff == x - 0x8000) by (bit_vector);
}

/// With the top bit clear a value stands for itself; with the top bit set it
/// stands for the negated value of its remaining bits.
pub proof fn lemma_grib_int_u32(x: u32)
    ensures
        x & 0x8000_0000 == 0 ==> x.grib_int() == x,
        x & 0x8000_0000 != 0 ==> x.grib_int() == -(x & 0x7fff_ffff),
{
    assert(x & 0x8000_0000 == 0 <==> x < 0x8000_0000) by (bit_vector);
    assert(x >= 0x8000_0000 ==> x & 0x7fff_ffff == x - 0x8000_0000) by (bit_vector);
}

/// With the top bit clear a value stands for itself; with the top bit set it
/// stands for the negated value of its remaining bits.
pub proof fn lemma_grib_int_u64(x: u64)
    ensures
        x & 0x8000_0000_0000_0000 == 0 ==> x.grib_int() == x,
        x & 0x8000_0000_0000_0000 != 0 ==> x.grib_int() == -(x & 0x7fff_ffff_ffff_ffff),
{
    assert(x & 0x8000_0000_0000_0000 == 0 <==> x < 0x8000_0000_0000_0000) by (bit_vector);
    assert(x >= 0x8000_0000_0000_0000 ==> x & 0x7fff_ffff_ffff_ffff == x
        - 0x8000_0000_0000_0000) by (bit_vector);
}

/// The weight of bit `k` of a byte, counted from the most significant bit.
pub open spec fn bit_weight(k: int) -> int {
    if k == 0 {
        128
    } else if k == 1 {
        64
    } else if k == 2 {
        32
    } else if k == 3 {
        16
    } else if k == 4 {
        8
    } else if k == 5 {
        4
    } else if k == 6 {
        2
    } else {
        1
    }
}

/// Bit `i` of a byte string, most significant bit of each byte first.
pub open spec fn bit_at(bytes: Seq<u8>, i: int) -> int
    recommends
        0 <= i < 8 * bytes.len(),
{
    (bytes[i / 8] as int / bit_weight(i % 8)) % 2
}

/// The unsigned number written by the `width` bits that start at bit `start`,
/// most significant bit first.
pub open spec fn bits_value(bytes: Seq<u8>, start: int, width: nat) -> int
    decreases width,
{
    if width == 0 {
        0
    } else {
        2 * bits_value(bytes, start, (width - 1) as nat) + bit_at(bytes, start + width - 1)
    }
}

/// What one read of `width` bits at bit `cursor` gives: nothing where the
/// bits are not all there, else their value, of which a result of 64 bits
/// keeps the low 64.
pub open spec fn read_at(bytes: Seq<u8>, cursor: nat, width: nat) -> Option<u64> {
    if cursor + width <= 8 * bytes.len() {
        Some((bits_value(bytes, cursor as int, width) % 0x1_0000_0000_0000_0000) as u64)
    } else {
        None
    }
}

/// The number that bits write is not negative, and the number that up to 64
/// bits write is below two to the power of their count.
pub proof fn lemma_bits_value_bounds(bytes: Seq<u8>, start: int, width: nat)
    ensures
        0 <= bits_value(bytes, start, width),
        width <= 64 ==> bits_value(bytes, start, width) < vstd::arithmetic::power2::pow2(width),
    decreases width,
{
    reveal(vstd::arithmetic::power2::pow2);
    if width > 0 {
        lemma_bits_value_bounds(bytes, start, (width - 1) as nat);
        vstd::arithmetic::power2::lemma_pow2_unfold(width);
    } else {
        vstd::arithmetic::power2::lemma2_to64();
    }
}

/// Bits are counted alike in a byte string and in what is left of it when
/// whole bytes are taken off its front.
pub proof fn lemma_bits_value_skip(bytes: Seq<u8>, skipped: nat, start: int, width: nat)
    requires
        skipped <= bytes.len(),
        0 <= start,
        start + width <= 8 * (bytes.len() - skipped),
    ensures
        bits_value(bytes.skip(skipped as int), start, width) == bits_value(
            bytes,
            8 * skipped + start,
            width,
        ),
    decreases width,
{
    if width > 0 {
        lemma_bits_value_skip(bytes, skipped, start, (width - 1) as nat);
        let i = start + width - 1;
        assert((8 * skipped + i) / 8 == skipped + i / 8);
        assert((8 * skipped + i) % 8 == i % 8);
        assert(bytes.skip(skipped as int)[i / 8] == bytes[skipped + i / 8]);
    }
}

/// Bit `b` of the value `v` of `width` bits, counted from its most
/// significant bit.
pub open spec fn value_bit(v: int, width: nat, b: int) -> int {
    (v / (vstd::arithmetic::power2::pow2((width - 1 - b) as nat) as int)) % 2
}

/// Bit `b` of the `i`-th group of `width` bits of a byte string.
pub open spec fn packed_bit(bytes: Seq<u8>, width: nat, i: int, b: int) -> int {
    bit_at(bytes, i * width + b)
}

/// Whether `bytes` hold the values of `values`, one behind the other, each
/// written in `width` bits with its most significant bit first.
pub open spec fn packs(bytes: Seq<u8>, values: Seq<u64>, width: nat) -> bool {
    &&& values.len() * width <= 8 * bytes.len()
    &&& forall|i: int|
        0 <= i < values.len() ==> (#[trigger] values[i]) < vstd::arithmetic::power2::pow2(width)
    &&& forall|i: int, b: int|
        0 <= i < values.len() && 0 <= b < width ==> #[trigger] packed_bit(bytes, width, i, b)
            == value_bit(values[i] as int, width, b)
}

proof fn lemma_bits_of_value(bytes: Seq<u8>, start: int, width: nat, v: int)
    requires
        0 <= v < vstd::arithmetic::power2::pow2(width),
        forall|b: int|
            0 <= b < width ==> bit_at(bytes, start + b) == #[trigger] value_bit(v, width, b),
    ensures
        bits_value(bytes, start, width) == v,
    decreases width,
{
    if width == 0 {
        vstd::arithmetic::power2::lemma2_to64();
    } else {
        let less = (width - 1) as nat;
        vstd::arithmetic::power2::lemma_pow2_unfold(width);
        assert forall|b: int| 0 <= b < less implies bit_at(bytes, start + b)
            == #[trigger] value_bit(v / 2, less, b) by {
            let e = (less - 1 - b) as nat;
            vstd::arithmetic::power2::lemma_pow2_unfold((e + 1) as nat);
            vstd::arithmetic::power2::lemma_pow2_pos(e);
            vstd::arithmetic::div_mod::lemma_div_denominator(
                v,
                2,
                vstd::arithmetic::power2::pow2(e) as int,
            );
            assert(value_bit(v, width, b) == (v / (vstd::arithmetic::power2::pow2(
                (e + 1) as nat,
            ) as int)) % 2);
        }
        lemma_bits_of_value(bytes, start, less, v / 2);
        assert(value_bit(v, width, width - 1) == v % 2) by {
            vstd::arithmetic::power2::lemma2_to64();
            assert((width - 1 - (width - 1)) as nat == 0);
            assert(vstd::arithmetic::power2::pow2(0) as int == 1);
            assert(v / 1 == v);
        }
        assert(bit_at(bytes, start + width - 1) == v % 2);
    }
}

/// Reading gives back what was packed: where bytes hold values of `width`
/// bits one behind the other, the read at the place of the `i`-th value gives
/// that value.
pub proof fn lemma_read_gives_packed(bytes: Seq<u8>, values: Seq<u64>, width: nat, i: int)
    requires
        1 <= width <= 64,
        packs(bytes, values, width),
        0 <= i < values.len(),
    ensures
        read_at(bytes, (i * width) as nat, width) == Some(values[i]),
{
    assert(0 <= i * width && i * width + width <= values.len() * width) by (nonlinear_arith)
        requires
            0 <= i < values.len(),
            width >= 1,
    ;
    assert forall|b: int| 0 <= b < width implies bit_at(bytes, i * width + b)
        == #[trigger] value_bit(values[i] as int, width, b) by {
        assert(packed_bit(bytes, width, i, b) == value_bit(values[i] as int, width, b));
    }
    lemma_bits_of_value(bytes, i * width, width, values[i] as int);
    vstd::arithmetic::power2::lemma2_to64();
    vstd::arithmetic::power2::lemma2_to64_rest();
    if width < 64 {
        vstd::arithmetic::power2::lemma_pow2_strictly_increases(width, 64);
    }
}

/// Where a reader of fixed-width values stands: the bytes it reads, the bit
/// at which its next value starts and the number of bits of each value.
pub struct BitCursor {
    pub bytes: Seq<u8>,
    pub at: nat,
    pub width: nat,
}

impl BitCursor {
    /// The value that the next read gives, if the bits of one are left.
    pub open spec fn value(self) -> Option<u64> {
        read_at(self.bytes, self.at, self.width)
    }

    /// The cursor after the next read: behind the value that was read, or
    /// where it was if none was.
    pub open spec fn advanced(self) -> BitCursor {
        if self.at + self.width <= 8 * self.bytes.len() {
            BitCursor { at: self.at + self.width, ..self }
        } else {
            self
        }
    }
}

/// A cursor over the bits of a byte slice that hands out unsigned integers of
/// a fixed width, most significant bit first, across byte boundaries.
#[derive(Clone, Copy)]
pub struct BitwiseIterator<'a> {
    slice: &'a [u8],
    size: usize,
    pos: usize,
    offset: usize,
}

fn weight(k: usize) -> (w: u8)
    requires
        k < 8,
    ensures
        w == bit_weight(k as int),
{
    if k == 0 {
        128
    } else if k == 1 {
        64
    } else if k == 2 {
        32
    } else if k == 3 {
        16
    } else if k == 4 {
        8
    } else if k == 5 {
        4
    } else if k == 6 {
        2
    } else {
        1
    }
}

impl<'a> View for BitwiseIterator<'a> {
    type V = BitCursor;

    closed spec fn view(&self) -> BitCursor {
        BitCursor {
            bytes: self.slice@,
            at: (8 * self.pos + self.offset) as nat,
            width: self.size as nat,
        }
    }
}

impl<'a> BitwiseIterator<'a> {
    #[verifier::type_invariant]
    spec fn inv(self) -> bool {
        self.offset < 8
    }

    pub fn new(slice: &'a [u8], size: usize) -> (r: Self)
        ensures
            r@ == (BitCursor { bytes: slice@, at: 0, width: size as nat }),
    {
        Self { slice, size, pos: 0, offset: 0 }
    }

    /// Moves the cursor to bit `offset` of the byte it stands in.
    pub fn with_offset(self, offset: usize) -> (r: Self)
        requires
            offset < 8,
        ensures
            r@ == (BitCursor { at: (8 * (self@.at / 8) + offset) as nat, ..self@ }),
    {
        proof {
            use_type_invariant(&self);
        }
        Self { slice: self.slice, size: self.size, pos: self.pos, offset }
    }

    /// The number of whole bytes in front of the cursor.
    pub fn byte_position(&self) -> (pos: usize)
        ensures
            pos == self@.at / 8,
    {
        proof {
            use_type_invariant(self);
        }
        self.pos
    }

    /// The number of bits between the last whole byte and the cursor.
    pub fn bit_offset(&self) -> (offset: usize)
        ensures
            offset == self@.at % 8,
    {
        proof {
            use_type_invariant(self);
        }
        self.offset
    }

    /// The next value, or nothing where fewer bits than one value has are
    /// left; the cursor then stays where it is.
    pub fn next(&mut self) -> (r: Option<u64>)
        ensures
            r == old(self)@.value(),
            final(self)@ == old(self)@.advanced(),
    {
        proof {
            use_type_invariant(&*self);
        }
        let len: usize = self.slice.len();
        let start: u128 = 8 * (self.pos as u128) + (self.offset as u128);
        let end: u128 = start + (self.size as u128);
        if end > 8 * (len as u128) {
            return None;
        }
        let ghost bytes = self.slice@;
        let ghost first = start as int;
        let mut value: u64 = 0;
        let mut p: usize = self.pos;
        let mut o: usize = self.offset;
        let mut i: usize = 0;
        while i < self.size
            invariant
                bytes == self.slice@,
                len == bytes.len(),
                i <= self.size,
                o < 8,
                8 * p + o == first + i,
                first + self.size <= 8 * len,
                value == bits_value(bytes, first, i as nat) % 0x1_0000_0000_0000_0000,
            decreases self.size - i,
        {
            let byte: u8 = self.slice[p];
            let bit: u8 = (byte / weight(o)) % 2;
            proof {
                let before = bits_value(bytes, first, i as nat);
                assert((8 * p + o) / 8 == p && (8 * p + o) % 8 == o);
                assert(bit == bit_at(bytes, first + i));
                assert(bits_value(bytes, first, (i + 1) as nat) == 2 * before + bit);
                lemma_bits_value_bounds(bytes, first, i as nat);
                lemma_double_mod(before, bit as int);
            }
            value = value.wrapping_mul(2).wrapping_add(bit as u64);
            o = o + 1;
            if o == 8 {
                p = p + 1;
                o = 0;
            }
            i = i + 1;
        }
        self.pos = p;
        self.offset = o;
        Some(value)
    }
}

proof fn lemma_double_mod(v: int, b: int)
    requires
        0 <= v,
        0 <= b < 2,
    ensures
        (2 * (v % 0x1_0000_0000_0000_0000) + b) % 0x1_0000_0000_0000_0000 == (2 * v + b)
            % 0x1_0000_0000_0000_0000,
        (2 * (v % 0x1_0000_0000_0000_0000)) % 0x1_0000_0000_0000_0000 == (2 * v)
            % 0x1_0000_0000_0000_0000,
{
    let m = 0x1_0000_0000_0000_0000int;
    vstd::arithmetic::div_mod::lemma_mul_mod_noop_right(2, v, m);
    vstd::arithmetic::div_mod::lemma_add_mod_noop(2 * v, b, m);
    vstd::arithmetic::div_mod::lemma_add_mod_noop(2 * (v % m), b, m);
    vstd::arithmetic::div_mod::lemma_mod_mod(2 * v, m, 1);
}

/// The unsigned number that the two bytes at `at` write, high byte first.
pub open spec fn be_u16(bytes: Seq<u8>, at: int) -> u16
    recommends
        0 <= at && at + 2 <= bytes.len(),
{
    (bytes[at] as int * 0x100 + bytes[at + 1] as int) as u16
}

/// The unsigned number that the four bytes at `at` write, high byte first.
pub open spec fn be_u32(bytes: Seq<u8>, at: int) -> u32
    recommends
        0 <= at && at + 4 <= bytes.len(),
{
    (be_u16(bytes, at) as int * 0x1_0000 + be_u16(bytes, at + 2) as int) as u32
}

/// The unsigned number that the eight bytes at `at` write, high byte first.
pub open spec fn be_u64(bytes: Seq<u8>, at: int) -> u64
    recommends
        0 <= at && at + 8 <= bytes.len(),
{
    (be_u32(bytes, at) as int * 0x1_0000_0000 + be_u32(bytes, at + 4) as int) as u64
}

pub fn read_u16(bytes: &[u8], at: usize) -> (v: u16)
    requires
        at + 2 <= bytes.len(),
    ensures
        v == be_u16(bytes@, at as int),
{
    (bytes[at] as u16) * 0x100 + (bytes[at + 1] as u16)
}

pub fn read_u32(bytes: &[u8], at: usize) -> (v: u32)
    requires
        at + 4 <= bytes.len(),
    ensures
        v == be_u32(bytes@, at as int),
{
    (read_u16(bytes, at) as u32) * 0x1_0000 + (read_u16(bytes, at + 2) as u32)
}

pub fn read_u64(bytes: &[u8], at: usize) -> (v: u64)
    requires
        at + 8 <= bytes.len(),
    ensures
        v == be_u64(bytes@, at as int),
{
    (read_u32(bytes, at) as u64) * 0x1_0000_0000 + (read_u32(bytes, at + 4) as u64)
}

/// An unsigned integer that is written in a fixed number of bytes, high byte
/// first.
pub trait EndianRead: Sized {
    /// The number of bytes that write one value.
    spec fn octets() -> nat;

    /// The value that `bytes` write.
    spec fn decoded(bytes: Seq<u8>) -> Self;

    fn size() -> (n: usize)
        ensures
            n == Self::octets(),
    ;

    fn from_be_bytes(bytes: &[u8]) -> (v: Self)
        requires
            bytes.len() == Self::octets(),
        ensures
            v == Self::decoded(bytes@),
    ;
}

impl EndianRead for u8 {
    open spec fn octets() -> nat {
        1
    }

    open spec fn decoded(bytes: Seq<u8>) -> u8 {
        bytes[0]
    }

    fn size() -> (n: usize) {
        1
    }

    fn from_be_bytes(bytes: &[u8]) -> (v: u8) {
        bytes[0]
    }
}

impl EndianRead for u16 {
    open spec fn octets() -> nat {
        2
    }

    open spec fn decoded(bytes: Seq<u8>) -> u16 {
        be_u16(bytes, 0)
    }

    fn size() -> (n: usize) {
        2
    }

    fn from_be_bytes(bytes: &[u8]) -> (v: u16) {
        read_u16(bytes, 0)
    }
}

impl EndianRead for u32 {
    open spec fn octets() -> nat {
        4
    }

    open spec fn decoded(bytes: Seq<u8>) -> u32 {
        be_u32(bytes, 0)
    }

    fn size() -> (n: usize) {
        4
    }

    fn from_be_bytes(bytes: &[u8]) -> (v: u32) {
        read_u32(bytes, 0)
    }
}

/// A byte buffer that is read front to back, one integer at a time.
pub struct Buffer {
    bytes: Vec<u8>,
    pos: usize,
}

impl Buffer {
    /// The bytes of the buffer, read or not.
    pub closed spec fn content(&self) -> Seq<u8> {
        self.bytes@
    }

    /// The number of bytes that were read.
    pub closed spec fn position(&self) -> nat {
        self.pos as nat
    }

    pub fn new(buf: Vec<u8>) -> (r: Self)
        ensures
            r.content() == buf@,
            r.position() == 0,
    {
        Self { bytes: buf, pos: 0 }
    }

    /// The number of bytes that are left to read.
    pub fn remaining(&self) -> (n: usize)
        ensures
            n == if self.position() <= self.content().len() {
                self.content().len() - self.position()
            } else {
                0
            },
    {
        if self.pos <= self.bytes.len() {
            self.bytes.len() - self.pos
        } else {
            0
        }
    }

    /// Reads the next integer of type `T`.
    pub fn read<T: EndianRead>(&mut self) -> (v: T)
        requires
            old(self).position() + T::octets() <= old(self).content().len(),
        ensures
            final(self).content() == old(self).content(),
            final(self).position() == old(self).position() + T::octets(),
            v == T::decoded(
                old(self).content().subrange(
                    old(self).position() as int,
                    (old(self).position() + T::octets()) as int,
                ),
            ),
    {
        let len: usize = self.bytes.len();
        let end: usize = self.pos + T::size();
        let v: T = T::from_be_bytes(vstd::slice::slice_subrange(self.bytes.as_slice(), self.pos, end));
        self.pos = end;
        v
    }

    /// Gives the bytes back.
    pub fn into_bytes(self) -> (bytes: Vec<u8>)
        ensures
            bytes@ == self.content(),
    {
        self.bytes
    }
}

} // verus!
