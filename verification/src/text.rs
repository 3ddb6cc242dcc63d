//! Building report text from pieces: string slices, single ASCII bytes and
//! decimal numbers.

use crate::wire::{
    is_utf8, lemma_utf8_ascii, lemma_utf8_char, lemma_utf8_concat, lemma_utf8_empty, lemma_utf8_round_trip,
    str_bytes, string_from_utf8, utf8,
};
use vstd::prelude::*;

verus! {

/// The decimal digits of `n`, most significant first.
pub open spec fn decimal(n: nat) -> Seq<char>
    decreases n,
{
    if n < 10 {
        seq![digit(n)]
    } else {
        decimal(n / 10).push(digit(n % 10))
    }
}

/// The ASCII digit for `d` below ten.
pub open spec fn digit(d: nat) -> char {
    ((48 + d) as u32) as char
}

/// The lowercase hexadecimal digits of `n`, most significant first.
pub open spec fn hex(n: nat) -> Seq<char>
    decreases n,
{
    if n < 16 {
        seq![hex_digit(n)]
    } else {
        hex(n / 16).push(hex_digit(n % 16))
    }
}

/// The lowercase hexadecimal digit for `d` below sixteen.
pub open spec fn hex_digit(d: nat) -> char {
    if d < 10 {
        digit(d)
    } else {
        ((87 + d) as u32) as char
    }
}

/// Text under construction, kept as its UTF-8 bytes.
pub struct TextBuilder {
    bytes: Vec<u8>,
    chars: Ghost<Seq<char>>,
}

impl TextBuilder {
    /// The bytes are the encoding of the characters written so far.
    pub closed spec fn wf(self) -> bool {
        self.bytes@ == utf8(self.chars@)
    }

    /// The characters written so far.
    pub closed spec fn text(self) -> Seq<char> {
        self.chars@
    }

    pub fn new() -> (t: Self)
        ensures
            t.wf(),
            t.text() == Seq::<char>::empty(),
    {
        proof {
            lemma_utf8_empty(Seq::<char>::empty());
        }
        let t = TextBuilder { bytes: Vec::new(), chars: Ghost(Seq::empty()) };
        assert(t.bytes@ =~= utf8(Seq::<char>::empty()));
        t
    }

    /// Append a string slice.
    pub fn push_str(&mut self, s: &str)
        requires
            old(self).wf(),
        ensures
            final(self).wf(),
            final(self).text() == old(self).text() + s@,
    {
        let b = str_bytes(s);
        let mut i: usize = 0;
        let ghost start = self.bytes@;
        let ghost chars = self.chars@;
        while i < b.len()
            invariant
                i <= b@.len(),
                self.bytes@ == start + b@.take(i as int),
                self.chars@ == chars,
                start == utf8(chars),
                b@ == utf8(s@),
            decreases b@.len() - i,
        {
            self.bytes.push(b[i]);
            assert(b@.take(i + 1) =~= b@.take(i as int).push(b@[i as int]));
            i += 1;
        }
        proof {
            assert(b@.take(b@.len() as int) =~= b@);
            lemma_utf8_concat(self.chars@, s@);
            self.chars = Ghost(self.chars@ + s@);
        }
    }

    /// Append one ASCII character.
    pub fn push_ascii(&mut self, b: u8)
        requires
            old(self).wf(),
            b < 128,
        ensures
            final(self).wf(),
            final(self).text() == old(self).text().push(b as char),
    {
        let ghost start = self.bytes@;
        self.bytes.push(b);
        proof {
            assert(self.bytes@ =~= start + seq![b]);
            lemma_utf8_ascii(b);
            lemma_utf8_concat(self.chars@, seq![b as char]);
            assert(self.chars@.push(b as char) =~= self.chars@ + seq![b as char]);
            self.chars = Ghost(self.chars@.push(b as char));
        }
    }

    /// Append one character.
    pub fn push_char(&mut self, c: char)
        requires
            old(self).wf(),
        ensures
            final(self).wf(),
            final(self).text() == old(self).text().push(c),
    {
        let ghost start = self.bytes@;
        let v = c as u32;
        proof {
            vstd::utf8::char_is_scalar(c);
        }
        if v <= 0x7f {
            self.bytes.push((v & 0x7f) as u8);
        } else if v <= 0x7ff {
            self.bytes.push(0xC0u8 | ((v >> 6) & 0x1F) as u8);
            self.bytes.push(0x80u8 | (v & 0x3F) as u8);
        } else if v <= 0xffff {
            self.bytes.push(0xE0u8 | ((v >> 12) & 0x0F) as u8);
            self.bytes.push(0x80u8 | ((v >> 6) & 0x3F) as u8);
            self.bytes.push(0x80u8 | (v & 0x3F) as u8);
        } else {
            self.bytes.push(0xF0u8 | ((v >> 18) & 0x7) as u8);
            self.bytes.push(0x80u8 | ((v >> 12) & 0x3F) as u8);
            self.bytes.push(0x80u8 | ((v >> 6) & 0x3F) as u8);
            self.bytes.push(0x80u8 | (v & 0x3F) as u8);
        }
        proof {
            lemma_utf8_char(c);
            assert(self.bytes@ =~= start + vstd::utf8::encode_scalar(v));
            lemma_utf8_concat(self.chars@, seq![c]);
            assert(self.chars@.push(c) =~= self.chars@ + seq![c]);
            self.chars = Ghost(self.chars@.push(c));
        }
    }

    /// Append characters.
    pub fn push_chars(&mut self, s: &[char])
        requires
            old(self).wf(),
        ensures
            final(self).wf(),
            final(self).text() == old(self).text() + s@,
    {
        let ghost start = self.chars@;
        let mut i: usize = 0;
        while i < s.len()
            invariant
                self.wf(),
                i <= s@.len(),
                self.chars@ == start + s@.take(i as int),
            decreases s@.len() - i,
        {
            self.push_char(s[i]);
            assert(s@.take(i + 1) =~= s@.take(i as int).push(s@[i as int]));
            i += 1;
        }
        assert(s@.take(s@.len() as int) =~= s@);
    }

    /// Text that starts with `s`.
    pub fn from_str(s: &str) -> (t: Self)
        ensures
            t.wf(),
            t.text() == s@,
    {
        let mut t = TextBuilder::new();
        t.push_str(s);
        assert(Seq::<char>::empty() + s@ =~= s@);
        t
    }

    /// Append the decimal digits of `n`.
    pub fn push_decimal(&mut self, n: u64)
        requires
            old(self).wf(),
        ensures
            final(self).wf(),
            final(self).text() == old(self).text() + decimal(n as nat),
        decreases n,
    {
        if n >= 10 {
            self.push_decimal(n / 10);
        }
        let d = (n % 10) as u8;
        self.push_ascii(48 + d);
        proof {
            if n < 10 {
                assert(decimal(n as nat) == seq![digit(n as nat)]);
            }
            assert(((48 + d) as u8) as char == digit((n % 10) as nat));
        }
        assert(self.text() =~= old(self).text() + decimal(n as nat));
    }

    /// Append the lowercase hexadecimal digits of `n`.
    pub fn push_hex(&mut self, n: u64)
        requires
            old(self).wf(),
        ensures
            final(self).wf(),
            final(self).text() == old(self).text() + hex(n as nat),
        decreases n,
    {
        if n >= 16 {
            self.push_hex(n / 16);
        }
        let d = (n % 16) as u8;
        if d < 10 {
            self.push_ascii(48 + d);
            assert(((48 + d) as u8) as char == hex_digit((n % 16) as nat));
        } else {
            self.push_ascii(87 + d);
            assert(((87 + d) as u8) as char == hex_digit((n % 16) as nat));
        }
        proof {
            if n < 16 {
                assert(hex(n as nat) == seq![hex_digit(n as nat)]);
            }
        }
        assert(self.text() =~= old(self).text() + hex(n as nat));
    }

    /// The finished text.
    pub fn finish(self) -> (s: String)
        requires
            self.wf(),
        ensures
            s@ == self.text(),
    {
        proof {
            lemma_utf8_round_trip(self.chars@, self.bytes@);
        }
        match string_from_utf8(self.bytes.as_slice()) {
            Some(s) => s,
            None => {
                assert(is_utf8(self.bytes@));
                String::new()
            },
        }
    }
}

} // verus!
