//! Little-endian byte primitives shared by the three codecs.
//!
//! Parsing is modelled on the unread suffix of the input: a spec reader takes
//! the remaining bytes and yields the value and the new remaining bytes, or
//! `None` when the input ends first.

use vstd::bytes::*;
use vstd::prelude::*;
use vstd::slice::slice_subrange;

verus! {

pub open spec fn le16(x: u16) -> Seq<u8> {
    spec_u16_to_le_bytes(x)
}

pub open spec fn le32(x: u32) -> Seq<u8> {
    spec_u32_to_le_bytes(x)
}

pub open spec fn le64(x: u64) -> Seq<u8> {
    spec_u64_to_le_bytes(x)
}

pub open spec fn lei16(x: i16) -> Seq<u8> {
    spec_u16_to_le_bytes(x as u16)
}

pub open spec fn lei32(x: i32) -> Seq<u8> {
    spec_u32_to_le_bytes(x as u32)
}

/// Splits off the first `n` bytes of `s`.
pub open spec fn read_bytes(s: Seq<u8>, n: int) -> Option<(Seq<u8>, Seq<u8>)> {
    if 0 <= n <= s.len() {
        Some((s.take(n), s.skip(n)))
    } else {
        None
    }
}

pub open spec fn read_u8(s: Seq<u8>) -> Option<(u8, Seq<u8>)> {
    if 1 <= s.len() {
        Some((s[0], s.skip(1)))
    } else {
        None
    }
}

pub open spec fn read_u16(s: Seq<u8>) -> Option<(u16, Seq<u8>)> {
    if 2 <= s.len() {
        Some((spec_u16_from_le_bytes(s.take(2)), s.skip(2)))
    } else {
        None
    }
}

pub open spec fn read_u32(s: Seq<u8>) -> Option<(u32, Seq<u8>)> {
    if 4 <= s.len() {
        Some((spec_u32_from_le_bytes(s.take(4)), s.skip(4)))
    } else {
        None
    }
}

pub open spec fn read_u64(s: Seq<u8>) -> Option<(u64, Seq<u8>)> {
    if 8 <= s.len() {
        Some((spec_u64_from_le_bytes(s.take(8)), s.skip(8)))
    } else {
        None
    }
}

pub open spec fn read_i16(s: Seq<u8>) -> Option<(i16, Seq<u8>)> {
    match read_u16(s) {
        Some((v, rest)) => Some((v as i16, rest)),
        None => None,
    }
}

pub open spec fn read_i32(s: Seq<u8>) -> Option<(i32, Seq<u8>)> {
    match read_u32(s) {
        Some((v, rest)) => Some((v as i32, rest)),
        None => None,
    }
}

/// Splitting a concatenation at the length of its first part gives back both parts.
pub proof fn lemma_split(a: Seq<u8>, b: Seq<u8>)
    ensures
        (a + b).take(a.len() as int) == a,
        (a + b).skip(a.len() as int) == b,
        (a + b).len() == a.len() + b.len(),
{
    assert((a + b).take(a.len() as int) =~= a);
    assert((a + b).skip(a.len() as int) =~= b);
}

/// Concatenation is associative.
pub proof fn lemma_assoc(a: Seq<u8>, b: Seq<u8>, c: Seq<u8>)
    ensures
        (a + b) + c == a + (b + c),
{
    assert((a + b) + c =~= a + (b + c));
}

pub proof fn lemma_le_lengths(x16: u16, x32: u32, x64: u64)
    ensures
        le16(x16).len() == 2,
        le32(x32).len() == 4,
        le64(x64).len() == 8,
{
    lemma_auto_spec_u16_to_from_le_bytes();
    lemma_auto_spec_u32_to_from_le_bytes();
    lemma_auto_spec_u64_to_from_le_bytes();
}

pub proof fn lemma_read_bytes(a: Seq<u8>, r: Seq<u8>)
    ensures
        read_bytes(a + r, a.len() as int) == Some((a, r)),
{
    lemma_split(a, r);
}

pub proof fn lemma_read_u8(x: u8, r: Seq<u8>)
    ensures
        read_u8(seq![x] + r) == Some((x, r)),
{
    lemma_split(seq![x], r);
}

pub proof fn lemma_read_u16(x: u16, r: Seq<u8>)
    ensures
        read_u16(le16(x) + r) == Some((x, r)),
        le16(x).len() == 2,
{
    lemma_auto_spec_u16_to_from_le_bytes();
    lemma_split(le16(x), r);
}

pub proof fn lemma_read_u32(x: u32, r: Seq<u8>)
    ensures
        read_u32(le32(x) + r) == Some((x, r)),
        le32(x).len() == 4,
{
    lemma_auto_spec_u32_to_from_le_bytes();
    lemma_split(le32(x), r);
}

pub proof fn lemma_read_u64(x: u64, r: Seq<u8>)
    ensures
        read_u64(le64(x) + r) == Some((x, r)),
        le64(x).len() == 8,
{
    lemma_auto_spec_u64_to_from_le_bytes();
    lemma_split(le64(x), r);
}

pub proof fn lemma_read_i16(x: i16, r: Seq<u8>)
    ensures
        read_i16(lei16(x) + r) == Some((x, r)),
        lei16(x).len() == 2,
{
    lemma_read_u16(x as u16, r);
    assert(((x as u16) as i16) == x) by (bit_vector);
}

pub proof fn lemma_read_i32(x: i32, r: Seq<u8>)
    ensures
        read_i32(lei32(x) + r) == Some((x, r)),
        lei32(x).len() == 4,
{
    lemma_read_u32(x as u32, r);
    assert(((x as u32) as i32) == x) by (bit_vector);
}

/// What a successful read consumed is exactly the encoding of the value read.
pub proof fn lemma_read_inverse(s: Seq<u8>)
    ensures
        read_u8(s) matches Some((x, r)) ==> s == seq![x] + r,
        read_u16(s) matches Some((x, r)) ==> s == le16(x) + r,
        read_u32(s) matches Some((x, r)) ==> s == le32(x) + r,
        read_u64(s) matches Some((x, r)) ==> s == le64(x) + r,
        read_i16(s) matches Some((x, r)) ==> s == lei16(x) + r,
        read_i32(s) matches Some((x, r)) ==> s == lei32(x) + r,
{
    lemma_auto_spec_u16_to_from_le_bytes();
    lemma_auto_spec_u32_to_from_le_bytes();
    lemma_auto_spec_u64_to_from_le_bytes();
    if s.len() >= 1 {
        assert(s =~= seq![s[0]] + s.skip(1));
    }
    if s.len() >= 2 {
        assert(s.take(2).len() == 2);
        assert(s =~= s.take(2) + s.skip(2));
        let v = spec_u16_from_le_bytes(s.take(2));
        assert(((v as i16) as u16) == v) by (bit_vector);
    }
    if s.len() >= 4 {
        assert(s =~= s.take(4) + s.skip(4));
        let v = spec_u32_from_le_bytes(s.take(4));
        assert(((v as i32) as u32) == v) by (bit_vector);
    }
    if s.len() >= 8 {
        assert(s =~= s.take(8) + s.skip(8));
    }
}

/// A bounded reader over a byte slice.
pub struct Cursor<'a> {
    pub bytes: &'a [u8],
    pub position: usize,
}

impl<'a> Cursor<'a> {
    pub open spec fn rest(&self) -> Seq<u8> {
        self.bytes@.skip(self.position as int)
    }

    pub open spec fn wf(&self) -> bool {
        self.position <= self.bytes@.len()
    }

    pub fn new(bytes: &'a [u8]) -> (c: Self)
        ensures
            c.wf(),
            c.rest() == bytes@,
            c.bytes@ == bytes@,
    {
        let c = Cursor { bytes, position: 0 };
        assert(c.rest() =~= bytes@);
        c
    }

    pub fn remaining(&self) -> (n: usize)
        requires
            self.wf(),
        ensures
            n == self.rest().len(),
    {
        self.bytes.len() - self.position
    }

    pub fn remaining_slice(&self) -> (s: &'a [u8])
        requires
            self.wf(),
        ensures
            s@ == self.rest(),
    {
        let s = slice_subrange(self.bytes, self.position, self.bytes.len());
        assert(s@ =~= self.rest());
        s
    }

    pub fn take(&mut self, length: usize) -> (r: Option<&'a [u8]>)
        requires
            old(self).wf(),
        ensures
            final(self).wf(),
            final(self).bytes@ == old(self).bytes@,
            match r {
                Some(v) => read_bytes(old(self).rest(), length as int) == Some((v@, final(self).rest())),
                None => read_bytes(old(self).rest(), length as int) is None,
            },
    {
        if length > self.bytes.len() - self.position {
            return None;
        }
        let end = self.position + length;
        let v = slice_subrange(self.bytes, self.position, end);
        proof {
            let rest = self.rest();
            assert(v@ =~= rest.take(length as int));
            assert(self.bytes@.skip(end as int) =~= rest.skip(length as int));
        }
        self.position = end;
        Some(v)
    }

    pub fn take_remaining(&mut self)
        requires
            old(self).wf(),
        ensures
            final(self).wf(),
            final(self).bytes@ == old(self).bytes@,
            final(self).rest() == Seq::<u8>::empty(),
    {
        self.position = self.bytes.len();
        assert(self.rest() =~= Seq::<u8>::empty());
    }

    pub fn u8(&mut self) -> (r: Option<u8>)
        requires
            old(self).wf(),
        ensures
            final(self).wf(),
            final(self).bytes@ == old(self).bytes@,
            match r {
                Some(v) => read_u8(old(self).rest()) == Some((v, final(self).rest())),
                None => read_u8(old(self).rest()) is None,
            },
    {
        match self.take(1) {
            Some(v) => Some(v[0]),
            None => None,
        }
    }

    pub fn u16(&mut self) -> (r: Option<u16>)
        requires
            old(self).wf(),
        ensures
            final(self).wf(),
            final(self).bytes@ == old(self).bytes@,
            match r {
                Some(v) => read_u16(old(self).rest()) == Some((v, final(self).rest())),
                None => read_u16(old(self).rest()) is None,
            },
    {
        match self.take(2) {
            Some(v) => Some(u16_from_le_bytes(v)),
            None => None,
        }
    }

    pub fn u32(&mut self) -> (r: Option<u32>)
        requires
            old(self).wf(),
        ensures
            final(self).wf(),
            final(self).bytes@ == old(self).bytes@,
            match r {
                Some(v) => read_u32(old(self).rest()) == Some((v, final(self).rest())),
                None => read_u32(old(self).rest()) is None,
            },
    {
        match self.take(4) {
            Some(v) => Some(u32_from_le_bytes(v)),
            None => None,
        }
    }

    pub fn u64(&mut self) -> (r: Option<u64>)
        requires
            old(self).wf(),
        ensures
            final(self).wf(),
            final(self).bytes@ == old(self).bytes@,
            match r {
                Some(v) => read_u64(old(self).rest()) == Some((v, final(self).rest())),
                None => read_u64(old(self).rest()) is None,
            },
    {
        match self.take(8) {
            Some(v) => Some(u64_from_le_bytes(v)),
            None => None,
        }
    }

    pub fn i16(&mut self) -> (r: Option<i16>)
        requires
            old(self).wf(),
        ensures
            final(self).wf(),
            final(self).bytes@ == old(self).bytes@,
            match r {
                Some(v) => read_i16(old(self).rest()) == Some((v, final(self).rest())),
                None => read_i16(old(self).rest()) is None,
            },
    {
        match self.u16() {
            Some(v) => Some(v as i16),
            None => None,
        }
    }

    pub fn i32(&mut self) -> (r: Option<i32>)
        requires
            old(self).wf(),
        ensures
            final(self).wf(),
            final(self).bytes@ == old(self).bytes@,
            match r {
                Some(v) => read_i32(old(self).rest()) == Some((v, final(self).rest())),
                None => read_i32(old(self).rest()) is None,
            },
    {
        match self.u32() {
            Some(v) => Some(v as i32),
            None => None,
        }
    }
}

pub fn put_u8(out: &mut Vec<u8>, x: u8)
    ensures
        final(out)@ == old(out)@ + seq![x],
{
    out.push(x);
}

pub fn put_u16(out: &mut Vec<u8>, x: u16)
    ensures
        final(out)@ == old(out)@ + le16(x),
{
    let mut b = u16_to_le_bytes(x);
    out.append(&mut b);
}

pub fn put_u32(out: &mut Vec<u8>, x: u32)
    ensures
        final(out)@ == old(out)@ + le32(x),
{
    let mut b = u32_to_le_bytes(x);
    out.append(&mut b);
}

pub fn put_u64(out: &mut Vec<u8>, x: u64)
    ensures
        final(out)@ == old(out)@ + le64(x),
{
    let mut b = u64_to_le_bytes(x);
    out.append(&mut b);
}

pub fn put_i16(out: &mut Vec<u8>, x: i16)
    ensures
        final(out)@ == old(out)@ + lei16(x),
{
    let mut b = u16_to_le_bytes(x as u16);
    out.append(&mut b);
}

pub fn put_i32(out: &mut Vec<u8>, x: i32)
    ensures
        final(out)@ == old(out)@ + lei32(x),
{
    let mut b = u32_to_le_bytes(x as u32);
    out.append(&mut b);
}

pub fn put_slice(out: &mut Vec<u8>, bytes: &[u8])
    ensures
        final(out)@ == old(out)@ + bytes@,
{
    let ghost before = out@;
    out.extend_from_slice(bytes);
    assert(out@ =~= before + bytes@);
}

} // verus!

verus! {

/// The UTF-8 bytes of a character sequence.
pub closed spec fn utf8(s: Seq<char>) -> Seq<u8> {
    vstd::utf8::encode_utf8(s)
}

/// Whether a byte sequence is well-formed UTF-8.
pub closed spec fn is_utf8(b: Seq<u8>) -> bool {
    vstd::utf8::valid_utf8(b)
}

/// The characters that well-formed UTF-8 bytes encode.
pub closed spec fn chars_of(b: Seq<u8>) -> Seq<char> {
    vstd::utf8::decode_utf8(b)
}

/// Encoding then decoding gives back the characters; decoding then encoding
/// gives back the bytes.
pub proof fn lemma_utf8_round_trip(s: Seq<char>, b: Seq<u8>)
    ensures
        is_utf8(utf8(s)),
        chars_of(utf8(s)) == s,
        is_utf8(b) ==> utf8(chars_of(b)) == b,
{
    vstd::utf8::encode_utf8_valid_utf8(s);
    vstd::utf8::encode_utf8_decode_utf8(s);
    if vstd::utf8::valid_utf8(b) {
        vstd::utf8::decode_utf8_encode_utf8(b);
    }
}

/// Only the empty string has no UTF-8 bytes.
pub proof fn lemma_utf8_empty(s: Seq<char>)
    ensures
        (utf8(s).len() == 0) == (s.len() == 0),
{
    if s.len() > 0 {
        assert(vstd::utf8::encode_scalar(s[0] as u32).len() >= 1);
    }
}

/// How many UTF-8 bytes encode `c`.
pub open spec fn utf8_width(c: char) -> nat {
    if (c as u32) <= 0x7f {
        1
    } else if (c as u32) <= 0x7ff {
        2
    } else if (c as u32) <= 0xffff {
        3
    } else {
        4
    }
}

/// Appending a character adds its width to the UTF-8 length.
pub proof fn lemma_utf8_push(s: Seq<char>, c: char)
    ensures
        utf8(s.push(c)).len() == utf8(s).len() + utf8_width(c),
    decreases s.len(),
{
    vstd::utf8::char_is_scalar(c);
    if s.len() == 0 {
        assert(s.push(c).drop_first() =~= Seq::<char>::empty());
        assert(vstd::utf8::encode_utf8(Seq::<char>::empty()) =~= Seq::<u8>::empty());
    } else {
        assert(s.push(c).drop_first() =~= s.drop_first().push(c));
        lemma_utf8_push(s.drop_first(), c);
    }
}

/// The UTF-8 length of a prefix grows by the width of each next character.
pub proof fn lemma_utf8_take(s: Seq<char>, k: int)
    requires
        0 <= k < s.len(),
    ensures
        utf8(s.take(k + 1)).len() == utf8(s.take(k)).len() + utf8_width(s[k]),
        utf8_width(s[k]) >= 1,
{
    assert(s.take(k + 1) =~= s.take(k).push(s[k]));
    lemma_utf8_push(s.take(k), s[k]);
}

/// A longer prefix has at least as many UTF-8 bytes.
pub proof fn lemma_utf8_take_monotone(s: Seq<char>, i: int, j: int)
    requires
        0 <= i <= j <= s.len(),
    ensures
        utf8(s.take(i)).len() <= utf8(s.take(j)).len(),
    decreases j - i,
{
    if i < j {
        lemma_utf8_take(s, j - 1);
        lemma_utf8_take_monotone(s, i, j - 1);
    }
}

/// The UTF-8 encoding of a concatenation is the concatenation of the encodings.
pub proof fn lemma_utf8_concat(a: Seq<char>, b: Seq<char>)
    ensures
        utf8(a + b) == utf8(a) + utf8(b),
    decreases a.len(),
{
    if a.len() == 0 {
        assert(a + b =~= b);
        assert(vstd::utf8::encode_utf8(a) =~= Seq::<u8>::empty());
        assert(Seq::<u8>::empty() + vstd::utf8::encode_utf8(b) =~= vstd::utf8::encode_utf8(b));
    } else {
        assert((a + b).drop_first() =~= a.drop_first() + b);
        assert((a + b)[0] == a[0]);
        lemma_utf8_concat(a.drop_first(), b);
        let head = vstd::utf8::encode_scalar(a[0] as u32);
        assert(head + (vstd::utf8::encode_utf8(a.drop_first()) + vstd::utf8::encode_utf8(b))
            =~= (head + vstd::utf8::encode_utf8(a.drop_first())) + vstd::utf8::encode_utf8(b));
    }
}

/// An ASCII character is encoded as its own byte.
pub proof fn lemma_utf8_ascii(b: u8)
    requires
        b < 128,
    ensures
        utf8(seq![b as char]) == seq![b],
{
    let c = b as char;
    assert((c as u32) == b as u32);
    assert(((b as u32) & 0x7f) as u8 == b) by (bit_vector)
        requires
            b < 128,
    ;
    assert(seq![c].drop_first() =~= Seq::<char>::empty());
    assert(vstd::utf8::encode_utf8(Seq::<char>::empty()) =~= Seq::<u8>::empty());
    assert(vstd::utf8::encode_utf8(seq![c]) =~= seq![b]);
}

/// One character is encoded as its scalar's UTF-8 bytes.
pub proof fn lemma_utf8_char(c: char)
    ensures
        utf8(seq![c]) == vstd::utf8::encode_scalar(c as u32),
{
    assert(seq![c].drop_first() =~= Seq::<char>::empty());
    assert(vstd::utf8::encode_utf8(Seq::<char>::empty()) =~= Seq::<u8>::empty());
    assert(vstd::utf8::encode_utf8(seq![c]) =~= vstd::utf8::encode_scalar(c as u32));
}

/// The UTF-8 bytes of a string slice.
pub fn str_bytes(s: &str) -> (b: &[u8])
    ensures
        b@ == utf8(s@),
{
    s.as_bytes()
}

/// The UTF-8 bytes of an owned string.
pub fn string_bytes(s: &String) -> (b: &[u8])
    ensures
        b@ == utf8(s@),
{
    s.as_str().as_bytes()
}

/// Calls `std::str::from_utf8`, which accepts exactly the well-formed UTF-8
/// byte sequences and then views them, unchanged, as the string they encode.
#[verifier::external_body]
fn std_from_utf8(v: &[u8]) -> (r: Option<&str>)
    ensures
        r is Some <==> vstd::utf8::valid_utf8(v@),
        r matches Some(s) ==> s@ == vstd::utf8::decode_utf8(v@),
{
    match std::str::from_utf8(v) {
        Ok(s) => Some(s),
        Err(_) => None,
    }
}

/// An owned string holding well-formed UTF-8 bytes, or `None`.
pub fn string_from_utf8(v: &[u8]) -> (r: Option<String>)
    ensures
        r is Some <==> is_utf8(v@),
        r matches Some(s) ==> s@ == chars_of(v@),
{
    match std_from_utf8(v) {
        Some(s) => Some(s.to_owned()),
        None => None,
    }
}

} // verus!
