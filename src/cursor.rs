use vstd::prelude::*;
use vstd::utf8::{decode_utf8, valid_utf8};

verus! {

/// Why a buffer could not be decoded.
#[derive(Copy, Clone, Debug, PartialEq, Eq, Structural)]
pub enum ParseError {
    /// The buffer ended before a required field.
    UnexpectedEof,
    /// Malformed UTF-8, a negative list count, or a length too large to hold.
    InvalidEncoding,
    /// An atom, instruction, part-type or chamber-type code that names nothing.
    InvalidEnumValue,
    /// A bond-type byte with an illegal bit pattern.
    InvalidBondType,
    /// An unsupported format version or metrics shape.
    FormatVersionMismatch,
    /// A fixed marker value did not match.
    StructuralSentinelMismatch,
}

/// What a spec-level decoder yields: a value and the position after it, or an error.
pub type Step<T> = Result<(T, int), ParseError>;

/// `r` (with `pos` the cursor position afterwards) is what the spec decoder outcome `s` describes.
pub open spec fn decodes<T: View>(r: Result<T, ParseError>, s: Step<T::V>, pos: int) -> bool {
    match s {
        Ok((v, j)) => r is Ok && r->Ok_0@ == v && pos == j,
        Err(e) => r is Err && r->Err_0 == e,
    }
}

/// One byte.
pub open spec fn sp_byte(d: Seq<u8>, i: int) -> Step<u8> {
    if 0 <= i < d.len() {
        Ok((d[i], i + 1))
    } else {
        Err(ParseError::UnexpectedEof)
    }
}

/// The two's-complement reading of a byte.
pub open spec fn i8_of(b: u8) -> i8 {
    if b < 128 {
        b as i8
    } else {
        (b - 256) as i8
    }
}

/// One signed byte.
pub open spec fn sp_sbyte(d: Seq<u8>, i: int) -> Step<i8> {
    match sp_byte(d, i) {
        Ok((b, j)) => Ok((i8_of(b), j)),
        Err(e) => Err(e),
    }
}

/// One byte read as a flag: nonzero is true.
pub open spec fn sp_bool(d: Seq<u8>, i: int) -> Step<bool> {
    match sp_byte(d, i) {
        Ok((b, j)) => Ok((b != 0, j)),
        Err(e) => Err(e),
    }
}

/// The unsigned little-endian number held by the `n` bytes at `i`.
pub open spec fn le_value(d: Seq<u8>, i: int, n: nat) -> int
    decreases n,
{
    if n == 0 {
        0
    } else {
        d[i] + 256 * le_value(d, i + 1, (n - 1) as nat)
    }
}

/// The two's-complement reading of a 32-bit unsigned value.
pub open spec fn i32_of(u: int) -> i32 {
    if u < 0x8000_0000 {
        u as i32
    } else {
        (u - 0x1_0000_0000) as i32
    }
}

/// A little-endian signed 32-bit integer.
pub open spec fn sp_int(d: Seq<u8>, i: int) -> Step<i32> {
    if 0 <= i && i + 4 <= d.len() {
        Ok((i32_of(le_value(d, i, 4)), i + 4))
    } else {
        Err(ParseError::UnexpectedEof)
    }
}

/// A little-endian unsigned 64-bit integer.
pub open spec fn sp_ulong(d: Seq<u8>, i: int) -> Step<u64> {
    if 0 <= i && i + 8 <= d.len() {
        Ok((le_value(d, i, 8) as u64, i + 8))
    } else {
        Err(ParseError::UnexpectedEof)
    }
}

/// A little-endian signed 64-bit integer.
pub open spec fn sp_long(d: Seq<u8>, i: int) -> Step<i64> {
    if 0 <= i && i + 8 <= d.len() {
        let u = le_value(d, i, 8);
        Ok((if u < 0x8000_0000_0000_0000 { u as i64 } else { (u - 0x1_0000_0000_0000_0000) as i64 }, i + 8))
    } else {
        Err(ParseError::UnexpectedEof)
    }
}

/// 128 to the power `k`.
pub open spec fn pow128(k: nat) -> int
    decreases k,
{
    if k == 0 {
        1
    } else {
        128 * pow128((k - 1) as nat)
    }
}

/// How many bytes the variable-length integer at `i` spans: up to and including the
/// first byte whose high bit is clear, or to the end of the buffer.
pub open spec fn varint_len(d: Seq<u8>, i: int) -> nat
    decreases d.len() - i,
{
    if i < 0 || i >= d.len() {
        0
    } else if d[i] < 128 {
        1
    } else {
        1 + varint_len(d, i + 1)
    }
}

/// The value carried by the low seven bits of the `k` bytes at `i`, least significant group first.
pub open spec fn varint_sum(d: Seq<u8>, i: int, k: nat) -> int
    decreases k,
{
    if k == 0 {
        0
    } else {
        varint_sum(d, i, (k - 1) as nat) + (d[i + k - 1] % 128) * pow128((k - 1) as nat)
    }
}

/// A variable-length unsigned integer: seven bits per byte, the high bit asking for another byte.
/// It needs at least one byte, and ends early where the buffer does. A value beyond 64 bits is rejected.
pub open spec fn sp_varint(d: Seq<u8>, i: int) -> Step<u64> {
    let k = varint_len(d, i);
    let v = varint_sum(d, i, k);
    if !(0 <= i < d.len()) {
        Err(ParseError::UnexpectedEof)
    } else if v <= u64::MAX {
        Ok((v as u64, i + k))
    } else {
        Err(ParseError::InvalidEncoding)
    }
}

/// A length-prefixed UTF-8 string.
pub open spec fn sp_string(d: Seq<u8>, i: int) -> Step<Seq<char>> {
    match sp_varint(d, i) {
        Ok((n, j)) => if j + n > d.len() {
            Err(ParseError::UnexpectedEof)
        } else if valid_utf8(d.subrange(j, j + n)) {
            Ok((decode_utf8(d.subrange(j, j + n)), j + n))
        } else {
            Err(ParseError::InvalidEncoding)
        },
        Err(e) => Err(e),
    }
}

/// Powers of 128 are positive.
pub proof fn lemma_pow128_pos(k: nat)
    ensures
        pow128(k) >= 1,
    decreases k,
{
    if k > 0 {
        lemma_pow128_pos((k - 1) as nat);
    }
}

/// Taking more seven-bit groups never lowers the running sum.
pub proof fn lemma_varint_sum_mono(d: Seq<u8>, i: int, k1: nat, k2: nat)
    requires
        k1 <= k2,
    ensures
        varint_sum(d, i, k1) <= varint_sum(d, i, k2),
    decreases k2,
{
    if k1 < k2 {
        lemma_varint_sum_mono(d, i, k1, (k2 - 1) as nat);
        lemma_pow128_pos((k2 - 1) as nat);
        let c = d[i + k2 - 1] % 128;
        let p = pow128((k2 - 1) as nat);
        assert(c * p >= 0) by (nonlinear_arith)
            requires
                c >= 0,
                p >= 1,
        ;
    }
}

/// A group that pushes the running sum past 64 bits makes the whole integer too large.
pub proof fn lemma_varint_too_large(d: Seq<u8>, i: int, k: nat, value: int, chunk: int, big: bool)
    requires
        k + 1 <= varint_len(d, i),
        0 <= i < d.len(),
        varint_sum(d, i, k + 1) == value + chunk * pow128(k),
        value >= 0,
        chunk >= 1,
        big ==> pow128(k) > u64::MAX,
        !big ==> value + chunk * pow128(k) > u64::MAX,
    ensures
        sp_varint(d, i) == Step::<u64>::Err(ParseError::InvalidEncoding),
{
    lemma_pow128_pos(k);
    let p = pow128(k);
    assert(chunk * p >= p) by (nonlinear_arith)
        requires
            chunk >= 1,
            p >= 1,
    ;
    lemma_varint_sum_mono(d, i, k + 1, varint_len(d, i));
}

/// Reads the variable-length integer at `start`, giving it with the position after it.
fn read_varint(data: &[u8], start: usize) -> (r: (Result<u64, ParseError>, usize))
    requires
        start <= data@.len(),
    ensures
        r.1 <= data@.len(),
        decodes(r.0, sp_varint(data@, start as int), r.1 as int),
{
    let ghost d = data@;
    let ghost i0 = start as int;
    if start >= data.len() {
        return (Err(ParseError::UnexpectedEof), start);
    }
    let mut pos = start;
    let mut value: u64 = 0;
    let mut mult: u64 = 1;
    let mut big = false;
    while pos < data.len()
        invariant
            d == data@,
            i0 == start,
            i0 <= pos <= d.len(),
            varint_len(d, i0) == (pos - i0) + varint_len(d, pos as int),
            value == varint_sum(d, i0, (pos - i0) as nat),
            !big ==> mult == pow128((pos - i0) as nat),
            big ==> pow128((pos - i0) as nat) > u64::MAX,
        decreases d.len() - pos,
    {
        let ghost k = (pos - i0) as nat;
        let b = data[pos];
        pos = pos + 1;
        let chunk = (b % 128) as u64;
        assert(varint_sum(d, i0, k + 1) == value + chunk * pow128(k));
        let fits = if chunk == 0 {
            Some(value)
        } else if big {
            None
        } else {
            match chunk.checked_mul(mult) {
                Some(m) => value.checked_add(m),
                None => None,
            }
        };
        if fits.is_none() {
            proof {
                lemma_varint_too_large(d, i0, k, value as int, chunk as int, big);
            }
            return (Err(ParseError::InvalidEncoding), pos);
        }
        value = fits.unwrap();
        if b < 128 {
            assert(varint_len(d, i0 + k) == 1);
            assert(varint_len(d, i0) == k + 1);
            return (Ok(value), pos);
        }
        if !big {
            if mult > u64::MAX / 128 {
                big = true;
                assert(128 * mult > u64::MAX) by (nonlinear_arith)
                    requires
                        mult > u64::MAX / 128,
                ;
            } else {
                mult = mult * 128;
            }
        }
    }
    (Ok(value), pos)
}

/// A read position over a borrowed byte buffer.
pub struct BaseParser<'a> {
    pub data: &'a [u8],
    pub pos: usize,
}

/// Relies on `String::from_utf8`, which accepts exactly the valid UTF-8 sequences and keeps their characters.
#[verifier::external_body]
fn string_from_utf8(b: Vec<u8>) -> (r: Option<String>)
    ensures
        r is Some <==> valid_utf8(b@),
        r is Some ==> r->Some_0@ == decode_utf8(b@),
{
    String::from_utf8(b).ok()
}

impl<'a> BaseParser<'a> {
    pub open spec fn wf(&self) -> bool {
        self.pos <= self.data@.len()
    }

    /// A cursor at the start of `data`.
    pub fn new(data: &'a [u8]) -> (r: Self)
        ensures
            r.wf(),
            r.data@ == data@,
            r.pos == 0,
    {
        BaseParser { data, pos: 0 }
    }

    pub fn parse_byte(&mut self) -> (r: Result<u8, ParseError>)
        requires
            old(self).wf(),
        ensures
            final(self).wf(),
            final(self).data@ == old(self).data@,
            decodes(r, sp_byte(old(self).data@, old(self).pos as int), final(self).pos as int),
    {
        if self.pos >= self.data.len() {
            Err(ParseError::UnexpectedEof)
        } else {
            let b = self.data[self.pos];
            self.pos = self.pos + 1;
            Ok(b)
        }
    }

    pub fn parse_sbyte(&mut self) -> (r: Result<i8, ParseError>)
        requires
            old(self).wf(),
        ensures
            final(self).wf(),
            final(self).data@ == old(self).data@,
            decodes(r, sp_sbyte(old(self).data@, old(self).pos as int), final(self).pos as int),
    {
        let b = self.parse_byte()?;
        if b < 128 {
            Ok(b as i8)
        } else {
            Ok((b as i16 - 256) as i8)
        }
    }

    pub fn parse_bool(&mut self) -> (r: Result<bool, ParseError>)
        requires
            old(self).wf(),
        ensures
            final(self).wf(),
            final(self).data@ == old(self).data@,
            decodes(r, sp_bool(old(self).data@, old(self).pos as int), final(self).pos as int),
    {
        let b = self.parse_byte()?;
        Ok(b != 0)
    }

    /// The unsigned little-endian value of the four bytes at the cursor, which must be there.
    fn read_u32(&self) -> (r: u32)
        requires
            self.wf(),
            self.pos + 4 <= self.data@.len(),
        ensures
            r == le_value(self.data@, self.pos as int, 4),
    {
        let d = self.data;
        let p = self.pos;
        let r = d[p] as u32 + 256 * (d[p + 1] as u32 + 256 * (d[p + 2] as u32 + 256 * (d[p + 3] as u32)));
        proof {
            reveal_with_fuel(le_value, 5);
        }
        r
    }

    pub fn parse_int(&mut self) -> (r: Result<i32, ParseError>)
        requires
            old(self).wf(),
        ensures
            final(self).wf(),
            final(self).data@ == old(self).data@,
            decodes(r, sp_int(old(self).data@, old(self).pos as int), final(self).pos as int),
    {
        if self.data.len() - self.pos < 4 {
            return Err(ParseError::UnexpectedEof);
        }
        let u = self.read_u32();
        self.pos = self.pos + 4;
        if u < 0x8000_0000 {
            Ok(u as i32)
        } else {
            Ok((u as i64 - 0x1_0000_0000i64) as i32)
        }
    }

    /// The unsigned little-endian value of the eight bytes at the cursor, which must be there.
    fn read_u64(&self) -> (r: u64)
        requires
            self.wf(),
            self.pos + 8 <= self.data@.len(),
        ensures
            r == le_value(self.data@, self.pos as int, 8),
    {
        let d = self.data;
        let p = self.pos;
        let lo = d[p] as u64 + 256 * (d[p + 1] as u64 + 256 * (d[p + 2] as u64 + 256 * (d[p + 3] as u64)));
        let hi = d[p + 4] as u64 + 256 * (d[p + 5] as u64 + 256 * (d[p + 6] as u64 + 256 * (d[p + 7] as u64)));
        proof {
            reveal_with_fuel(le_value, 9);
        }
        lo + 0x1_0000_0000 * hi
    }

    pub fn parse_ulong(&mut self) -> (r: Result<u64, ParseError>)
        requires
            old(self).wf(),
        ensures
            final(self).wf(),
            final(self).data@ == old(self).data@,
            decodes(r, sp_ulong(old(self).data@, old(self).pos as int), final(self).pos as int),
    {
        if self.data.len() - self.pos < 8 {
            return Err(ParseError::UnexpectedEof);
        }
        let u = self.read_u64();
        self.pos = self.pos + 8;
        Ok(u)
    }

    pub fn parse_long(&mut self) -> (r: Result<i64, ParseError>)
        requires
            old(self).wf(),
        ensures
            final(self).wf(),
            final(self).data@ == old(self).data@,
            decodes(r, sp_long(old(self).data@, old(self).pos as int), final(self).pos as int),
    {
        if self.data.len() - self.pos < 8 {
            return Err(ParseError::UnexpectedEof);
        }
        let u = self.read_u64();
        self.pos = self.pos + 8;
        if u < 0x8000_0000_0000_0000 {
            Ok(u as i64)
        } else {
            Ok((u as i128 - 0x1_0000_0000_0000_0000i128) as i64)
        }
    }
    /// A variable-length unsigned integer; see `sp_varint`.
    pub fn parse_var_int(&mut self) -> (r: Result<u64, ParseError>)
        requires
            old(self).wf(),
        ensures
            final(self).wf(),
            final(self).data@ == old(self).data@,
            decodes(r, sp_varint(old(self).data@, old(self).pos as int), final(self).pos as int),
    {
        let (r, end) = read_varint(self.data, self.pos);
        if r.is_ok() {
            self.pos = end;
        }
        r
    }

    /// A length-prefixed UTF-8 string; see `sp_string`.
    pub fn parse_string(&mut self) -> (r: Result<String, ParseError>)
        requires
            old(self).wf(),
        ensures
            final(self).wf(),
            final(self).data@ == old(self).data@,
            decodes(r, sp_string(old(self).data@, old(self).pos as int), final(self).pos as int),
    {
        let n = self.parse_var_int()?;
        let avail = self.data.len() - self.pos;
        if n > avail as u64 {
            return Err(ParseError::UnexpectedEof);
        }
        let n = n as usize;
        let len = self.data.len();
        let mut bytes: Vec<u8> = Vec::new();
        let mut k: usize = 0;
        while k < n
            invariant
                self.wf(),
                k <= n,
                len == self.data@.len(),
                self.pos + n <= len,
                bytes@ == self.data@.subrange(self.pos as int, self.pos + k),
            decreases n - k,
        {
            bytes.push(self.data[self.pos + k]);
            k = k + 1;
            assert(bytes@ =~= self.data@.subrange(self.pos as int, self.pos + k));
        }
        match string_from_utf8(bytes) {
            Some(s) => {
                self.pos = self.pos + n;
                Ok(s)
            },
            None => Err(ParseError::InvalidEncoding),
        }
    }
}

} // verus!
