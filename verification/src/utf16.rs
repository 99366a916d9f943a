//! UTF-16 text as firmware structures hold it: code units in little-endian
//! byte order, closed by a zero code unit.

use crate::wire::{read_u16_le, u16_le_bytes, u16s_from_le, u16s_to_le};
use vstd::prelude::*;

verus! {

/// The one or two code units that stand for a character.
pub open spec fn encode_char(c: char) -> Seq<u16> {
    let v = c as u32;
    if v < 0x1_0000 {
        seq![v as u16]
    } else {
        seq![(0xD800 + (v - 0x1_0000) / 0x400) as u16, (0xDC00 + (v - 0x1_0000) % 0x400) as u16]
    }
}

/// The UTF-16 code units of a text.
pub open spec fn utf16_encode(s: Seq<char>) -> Seq<u16>
    decreases s.len(),
{
    if s.len() == 0 {
        Seq::empty()
    } else {
        encode_char(s[0]) + utf16_encode(s.skip(1))
    }
}

/// The text that a sequence of code units stands for; `None` where a
/// surrogate is not part of a well-formed pair.
pub open spec fn utf16_decode(u: Seq<u16>) -> Option<Seq<char>>
    decreases u.len(),
{
    if u.len() == 0 {
        Some(Seq::empty())
    } else if u[0] < 0xD800 || u[0] > 0xDFFF {
        match utf16_decode(u.skip(1)) {
            Some(t) => Some(seq![u[0] as u32 as char] + t),
            None => None,
        }
    } else if u[0] < 0xDC00 && u.len() >= 2 && 0xDC00 <= u[1] <= 0xDFFF {
        match utf16_decode(u.skip(2)) {
            Some(t) => Some(
                seq![(0x1_0000 + (u[0] - 0xD800) * 0x400 + (u[1] - 0xDC00)) as u32 as char] + t,
            ),
            None => None,
        }
    } else {
        None
    }
}

/// Whether a text is free of the character U+0000, which would end it early
/// in a zero-terminated field.
pub open spec fn no_nul(s: Seq<char>) -> bool {
    forall|i: int| 0 <= i < s.len() ==> s[i] as u32 != 0
}

/// Whether the code unit at `n` is the first zero code unit.
pub open spec fn ends_at(u: Seq<u16>, n: int) -> bool {
    &&& 0 <= n < u.len()
    &&& u[n] == 0
    &&& forall|j: int| 0 <= j < n ==> u[j] != 0
}

/// Why a zero-terminated text field could not be read.
#[derive(Clone, Copy, Debug, PartialEq, Eq, Structural)]
pub enum TextError {
    /// The bytes end before a zero code unit.
    Unterminated,
    /// The code units before the terminator are not well-formed UTF-16.
    InvalidUtf16,
}

/// The bytes of a text field: the text's code units, then a zero code unit.
pub open spec fn text_to_bytes(s: Seq<char>) -> Seq<u8> {
    u16s_to_le(utf16_encode(s).push(0))
}

/// The text at the start of `b` and the number of bytes it takes, terminator
/// included.
pub open spec fn text_from_bytes(b: Seq<u8>) -> Result<(Seq<char>, int), TextError> {
    let units = u16s_from_le(b);
    if exists|n: int| ends_at(units, n) {
        let n = choose|n: int| ends_at(units, n);
        match utf16_decode(units.take(n)) {
            Some(s) => Ok((s, 2 * (n + 1))),
            None => Err(TextError::InvalidUtf16),
        }
    } else {
        Err(TextError::Unterminated)
    }
}

/// Calls `str::encode_utf16` and collects the code units it yields.
#[verifier::external_body]
pub(crate) fn str_to_utf16(s: &str) -> (units: Vec<u16>)
    ensures
        units@ == utf16_encode(s@),
{
    s.encode_utf16().collect()
}

/// Calls `String::from_utf16`, which fails exactly on an unpaired surrogate.
#[verifier::external_body]
pub(crate) fn string_from_utf16(units: &[u16]) -> (r: Option<String>)
    ensures
        match r {
            Some(s) => utf16_decode(units@) == Some(s@),
            None => utf16_decode(units@) is None,
        },
{
    String::from_utf16(units).ok()
}

/// A character is a code point up to U+10FFFF that is no surrogate.
pub proof fn lemma_char_range(c: char)
    ensures
        c as u32 <= 0x10_FFFF,
        !(0xD800 <= c as u32 <= 0xDFFF),
{
}

/// Decoding the code units of a text gives the text back.
pub proof fn lemma_utf16_decode_encode(s: Seq<char>)
    ensures
        utf16_decode(utf16_encode(s)) == Some(s),
    decreases s.len(),
{
    if s.len() > 0 {
        let c = s[0];
        let v = c as u32;
        let rest = utf16_encode(s.skip(1));
        let u = utf16_encode(s);
        lemma_utf16_decode_encode(s.skip(1));
        lemma_char_range(c);
        vstd::utf8::char_u32_cast(c, v);
        if v < 0x1_0000 {
            assert(u.skip(1) =~= rest);
        } else {
            assert(u.skip(2) =~= rest);
        }
    } else {
        assert(s =~= Seq::empty());
    }
}

/// Code units that decode to a text are the code units of that text.
pub proof fn lemma_utf16_encode_decode(u: Seq<u16>)
    requires
        utf16_decode(u) is Some,
    ensures
        utf16_encode(utf16_decode(u).unwrap()) == u,
    decreases u.len(),
{
    if u.len() > 0 {
        let s = utf16_decode(u).unwrap();
        if u[0] < 0xD800 || u[0] > 0xDFFF {
            lemma_utf16_encode_decode(u.skip(1));
            assert(s.skip(1) =~= utf16_decode(u.skip(1)).unwrap());
        } else {
            lemma_utf16_encode_decode(u.skip(2));
            assert(s.skip(1) =~= utf16_decode(u.skip(2)).unwrap());
        }
    }
}

/// A text without U+0000 has no zero code unit, and the reverse.
pub proof fn lemma_utf16_zero_units(s: Seq<char>)
    ensures
        no_nul(s) <==> forall|i: int| 0 <= i < utf16_encode(s).len() ==> utf16_encode(s)[i] != 0,
    decreases s.len(),
{
    let u = utf16_encode(s);
    if s.len() > 0 {
        let t = s.skip(1);
        let w = utf16_encode(t);
        let h = encode_char(s[0]);
        lemma_utf16_zero_units(t);
        lemma_char_range(s[0]);
        assert(forall|i: int| 0 <= i < w.len() ==> u[h.len() + i] == w[i]);
        if no_nul(s) {
            assert(forall|i: int| 0 <= i < u.len() ==> u[i] != 0);
        }
        if forall|i: int| 0 <= i < u.len() ==> u[i] != 0 {
            assert(u[0] != 0);
            assert(forall|i: int| 0 <= i < w.len() ==> w[i] != 0);
            assert forall|i: int| 0 <= i < s.len() implies s[i] as u32 != 0 by {
                if i > 0 {
                    assert(t[i - 1] == s[i]);
                }
            }
        }
    }
}

/// Reads the zero-terminated text at the start of `buf`.
pub fn read_text(buf: &[u8]) -> (r: Result<(String, usize), TextError>)
    ensures
        match r {
            Ok((s, n)) => text_from_bytes(buf@) == Ok::<(Seq<char>, int), TextError>((s@, n as int)),
            Err(e) => text_from_bytes(buf@) == Err::<(Seq<char>, int), TextError>(e),
        },
{
    let ghost all = u16s_from_le(buf@);
    let mut units: Vec<u16> = Vec::new();
    let mut pos: usize = 0;
    let mut found = false;
    while !found && buf.len() - pos >= 2
        invariant
            pos <= buf.len(),
            pos == 2 * units.len() + (if found { 2int } else { 0 }),
            all == u16s_from_le(buf@),
            units@ == all.take(units.len() as int),
            units.len() <= all.len(),
            forall|j: int| 0 <= j < units.len() ==> all[j] != 0,
            found ==> ends_at(all, units.len() as int),
        decreases buf.len() - pos,
    {
        let unit = read_u16_le(&buf[pos..pos + 2]);
        if unit == 0 {
            found = true;
        } else {
            units.push(unit);
        }
        pos = pos + 2;
    }
    if !found {
        return Err(TextError::Unterminated);
    }
    match string_from_utf16(units.as_slice()) {
        Some(s) => Ok((s, pos)),
        None => Err(TextError::InvalidUtf16),
    }
}

/// Appends `bytes` to `out`.
pub fn append_bytes(out: &mut Vec<u8>, bytes: &[u8])
    ensures
        final(out)@ == old(out)@ + bytes@,
{
    let mut i: usize = 0;
    while i < bytes.len()
        invariant
            i <= bytes.len(),
            out@ == old(out)@ + bytes@.take(i as int),
        decreases bytes.len() - i,
    {
        out.push(bytes[i]);
        i = i + 1;
    }
}

/// Appends the text field that holds `s` to `out`.
pub fn write_text(s: &str, out: &mut Vec<u8>)
    ensures
        final(out)@ == old(out)@ + text_to_bytes(s@),
{
    let units = str_to_utf16(s);
    let mut i: usize = 0;
    while i < units.len()
        invariant
            i <= units.len(),
            out@ == old(out)@ + u16s_to_le(units@.take(i as int)),
        decreases units.len() - i,
    {
        let pair = u16_le_bytes(units[i]);
        append_bytes(out, pair.as_slice());
        i = i + 1;
    }
    let end = u16_le_bytes(0);
    append_bytes(out, end.as_slice());
}

/// A text without U+0000 is read back from the bytes it was written to,
/// whatever follows them.
pub proof fn lemma_text_read_written(s: Seq<char>, rest: Seq<u8>)
    requires
        no_nul(s),
    ensures
        text_from_bytes(text_to_bytes(s) + rest) == Ok::<(Seq<char>, int), TextError>(
            (s, text_to_bytes(s).len() as int),
        ),
{
    let u = utf16_encode(s);
    let b = text_to_bytes(s) + rest;
    let all = u16s_from_le(b);
    let n = u.len() as int;
    lemma_utf16_zero_units(s);
    lemma_utf16_decode_encode(s);
    assert forall|i: int| 0 <= i <= n implies all[i] == u.push(0)[i] by {
        crate::wire::lemma_u16_le_roundtrip(u.push(0)[i], Seq::empty());
    }
    assert(ends_at(all, n));
    assert(all.take(n) == u);
}

/// The bytes that a text was read from are the bytes it is written to, and
/// the text holds no U+0000.
pub proof fn lemma_text_written_read(b: Seq<u8>)
    requires
        text_from_bytes(b) is Ok,
    ensures
        ({
            let (s, n) = text_from_bytes(b).unwrap();
            &&& 2 <= n <= b.len()
            &&& text_to_bytes(s) == b.take(n)
            &&& no_nul(s)
        }),
{
    let all = u16s_from_le(b);
    let k = choose|k: int| ends_at(all, k);
    let u = all.take(k);
    let (s, n) = text_from_bytes(b).unwrap();
    lemma_utf16_encode_decode(u);
    lemma_utf16_zero_units(s);
    assert forall|i: int| 0 <= i < n implies text_to_bytes(s)[i] == b[i] by {
        crate::wire::lemma_u16_le_roundtrip(0, b.subrange(2 * (i / 2), 2 * (i / 2) + 2));
    }
}

} // verus!
