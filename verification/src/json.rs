//! The compact JSON encoding of the documents this library seals.

use vstd::prelude::*;
use vstd::string::*;

use crate::text::{decimal, decimal_string};

verus! {

/// Lowercase hexadecimal digit byte of a value below 16.
pub open spec fn hex_byte(n: int) -> u8 {
    if n < 10 {
        (48 + n) as u8
    } else {
        (97 + n - 10) as u8
    }
}

/// JSON escape of one byte of UTF-8 text: quote, backslash and control bytes
/// are escaped, every other byte is written as is.
pub open spec fn escape_byte(b: u8) -> Seq<u8> {
    if b == 34 {
        seq![92u8, 34u8]
    } else if b == 92 {
        seq![92u8, 92u8]
    } else if b == 8 {
        seq![92u8, 98u8]
    } else if b == 9 {
        seq![92u8, 116u8]
    } else if b == 10 {
        seq![92u8, 110u8]
    } else if b == 12 {
        seq![92u8, 102u8]
    } else if b == 13 {
        seq![92u8, 114u8]
    } else if b < 32 {
        seq![92u8, 117u8, 48u8, 48u8, hex_byte(b as int / 16), hex_byte(b as int % 16)]
    } else {
        seq![b]
    }
}

/// JSON escape of a byte string.
pub open spec fn escape_bytes(bytes: Seq<u8>) -> Seq<u8>
    decreases bytes.len(),
{
    if bytes.len() == 0 {
        Seq::empty()
    } else {
        escape_bytes(bytes.drop_last()) + escape_byte(bytes.last())
    }
}

/// A JSON string literal holding the UTF-8 bytes of a text.
pub open spec fn json_string(bytes: Seq<u8>) -> Seq<u8> {
    seq![34u8] + escape_bytes(bytes) + seq![34u8]
}

/// The bytes of ASCII text.
pub open spec fn ascii_bytes(s: Seq<char>) -> Seq<u8> {
    s.map_values(|c: char| c as u8)
}

/// A JSON number for a natural number.
pub open spec fn json_number(n: nat) -> Seq<u8> {
    ascii_bytes(decimal(n))
}

fn push_bytes(out: &mut Vec<u8>, bytes: &[u8])
    ensures
        final(out)@ == old(out)@ + bytes@,
{
    let mut i: usize = 0;
    while i < bytes.len()
        invariant
            i <= bytes@.len(),
            out@ == old(out)@ + bytes@.subrange(0, i as int),
        decreases bytes@.len() - i,
    {
        out.push(bytes[i]);
        assert(out@ =~= old(out)@ + bytes@.subrange(0, i + 1));
        i = i + 1;
    }
    assert(bytes@.subrange(0, bytes@.len() as int) =~= bytes@);
}

fn push_escaped(out: &mut Vec<u8>, b: u8)
    ensures
        final(out)@ == old(out)@ + escape_byte(b),
{
    let ghost start = out@;
    if b == 34 {
        out.push(92);
        out.push(34);
    } else if b == 92 {
        out.push(92);
        out.push(92);
    } else if b == 8 {
        out.push(92);
        out.push(98);
    } else if b == 9 {
        out.push(92);
        out.push(116);
    } else if b == 10 {
        out.push(92);
        out.push(110);
    } else if b == 12 {
        out.push(92);
        out.push(102);
    } else if b == 13 {
        out.push(92);
        out.push(114);
    } else if b < 32 {
        out.push(92);
        out.push(117);
        out.push(48);
        out.push(48);
        let hi = b / 16;
        let lo = b % 16;
        out.push(if hi < 10 { 48 + hi } else { 87 + hi });
        out.push(if lo < 10 { 48 + lo } else { 87 + lo });
    } else {
        out.push(b);
    }
    assert(out@ =~= start + escape_byte(b));
}

/// Appends a JSON string literal for the text.
pub fn push_json_string(out: &mut Vec<u8>, s: &str)
    ensures
        final(out)@ == old(out)@ + json_string(s.spec_bytes()),
{
    let bytes = s.as_bytes();
    out.push(34);
    let ghost opened = out@;
    let mut i: usize = 0;
    while i < bytes.len()
        invariant
            i <= bytes@.len(),
            opened == old(out)@.push(34u8),
            out@ == opened + escape_bytes(bytes@.subrange(0, i as int)),
        decreases bytes@.len() - i,
    {
        let ghost prev = out@;
        push_escaped(out, bytes[i]);
        assert(bytes@.subrange(0, i + 1).drop_last() =~= bytes@.subrange(0, i as int));
        assert(out@ =~= opened + escape_bytes(bytes@.subrange(0, i + 1)));
        i = i + 1;
    }
    assert(bytes@.subrange(0, bytes@.len() as int) =~= bytes@);
    out.push(34);
    assert(out@ =~= old(out)@ + json_string(s.spec_bytes()));
}

/// The UTF-8 bytes of a text.
pub open spec fn utf8(s: Seq<char>) -> Seq<u8> {
    vstd::utf8::encode_utf8(s)
}

/// Appends the UTF-8 bytes of a text.
pub fn push_text(out: &mut Vec<u8>, s: &str)
    ensures
        final(out)@ == old(out)@ + utf8(s@),
{
    push_bytes(out, s.as_bytes());
}

/// Appends the bytes of ASCII text.
pub fn push_ascii(out: &mut Vec<u8>, s: &str)
    requires
        s.is_ascii(),
    ensures
        final(out)@ == old(out)@ + ascii_bytes(s@),
{
    let n = s.unicode_len();
    let mut i: usize = 0;
    while i < n
        invariant
            n == s@.len(),
            s.is_ascii(),
            i <= n,
            out@ == old(out)@ + ascii_bytes(s@.subrange(0, i as int)),
        decreases n - i,
    {
        let b = s.get_ascii(i);
        out.push(b);
        assert(ascii_bytes(s@.subrange(0, i + 1)) =~= ascii_bytes(s@.subrange(0, i as int)).push(b));
        assert(out@ =~= old(out)@ + ascii_bytes(s@.subrange(0, i + 1)));
        i = i + 1;
    }
    assert(s@.subrange(0, n as int) =~= s@);
}

proof fn lemma_decimal_ascii(n: nat)
    ensures
        vstd::utf8::is_ascii_chars(decimal(n)),
    decreases n,
{
    if n >= 10 {
        lemma_decimal_ascii(n / 10);
        assert(decimal(n) == decimal(n / 10) + seq![crate::text::decimal_digit((n % 10) as int)]);
    }
}

/// Appends a JSON number.
pub fn push_json_u64(out: &mut Vec<u8>, n: u64)
    ensures
        final(out)@ == old(out)@ + json_number(n as nat),
{
    let s = decimal_string(n);
    proof {
        lemma_decimal_ascii(n as nat);
    }
    push_ascii(out, s.as_str());
}

/// JSON text of a string.
pub open spec fn json_text(s: Seq<char>) -> Seq<u8> {
    json_string(vstd::utf8::encode_utf8(s))
}

/// JSON of an optional string: the string, or `null`.
pub open spec fn json_opt_text(o: Option<String>) -> Seq<u8> {
    match o {
        Some(s) => json_text(s@),
        None => ascii_bytes("null"@),
    }
}

/// JSON of an optional small number: the number, or `null`.
pub open spec fn json_opt_u16(o: Option<u16>) -> Seq<u8> {
    match o {
        Some(n) => json_number(n as nat),
        None => ascii_bytes("null"@),
    }
}

/// JSON of a boolean.
pub open spec fn json_bool(b: bool) -> Seq<u8> {
    if b { ascii_bytes("true"@) } else { ascii_bytes("false"@) }
}

/// Items of a JSON array of strings, comma separated.
pub open spec fn text_items(ss: Seq<String>) -> Seq<u8>
    decreases ss.len(),
{
    if ss.len() == 0 {
        Seq::empty()
    } else if ss.len() == 1 {
        json_text(ss[0]@)
    } else {
        text_items(ss.drop_last()) + seq![44u8] + json_text(ss.last()@)
    }
}

/// A JSON array of strings.
pub open spec fn json_text_array(ss: Seq<String>) -> Seq<u8> {
    seq![91u8] + text_items(ss) + seq![93u8]
}

/// Appends `null` or the string.
pub fn push_json_opt_text(out: &mut Vec<u8>, o: &Option<String>)
    ensures
        final(out)@ == old(out)@ + json_opt_text(*o),
{
    proof {
        reveal_strlit("null");
    }
    match o {
        Some(s) => push_json_string(out, s.as_str()),
        None => push_ascii(out, "null"),
    }
}

/// Appends `null` or the number.
pub fn push_json_opt_u16(out: &mut Vec<u8>, o: Option<u16>)
    ensures
        final(out)@ == old(out)@ + json_opt_u16(o),
{
    proof {
        reveal_strlit("null");
    }
    match o {
        Some(n) => push_json_u64(out, n as u64),
        None => push_ascii(out, "null"),
    }
}

/// Appends `true` or `false`.
pub fn push_json_bool(out: &mut Vec<u8>, b: bool)
    ensures
        final(out)@ == old(out)@ + json_bool(b),
{
    proof {
        reveal_strlit("true");
        reveal_strlit("false");
    }
    if b {
        push_ascii(out, "true");
    } else {
        push_ascii(out, "false");
    }
}

/// Appends a JSON array of strings.
pub fn push_json_text_array(out: &mut Vec<u8>, ss: &Vec<String>)
    ensures
        final(out)@ == old(out)@ + json_text_array(ss@),
{
    let ghost start = out@;
    out.push(91u8);
    let mut i: usize = 0;
    while i < ss.len()
        invariant
            i <= ss@.len(),
            out@ == start + seq![91u8] + text_items(ss@.subrange(0, i as int)),
        decreases ss@.len() - i,
    {
        let ghost before = out@;
        if i > 0 {
            out.push(44u8);
        }
        push_json_string(out, ss[i].as_str());
        proof {
            let p = ss@.subrange(0, i + 1);
            assert(p.drop_last() =~= ss@.subrange(0, i as int));
            if i == 0 {
                assert(text_items(p) == json_text(p[0]@));
            }
            assert(out@ =~= start + seq![91u8] + text_items(p));
        }
        i = i + 1;
    }
    assert(ss@.subrange(0, ss@.len() as int) =~= ss@);
    out.push(93u8);
    assert(out@ =~= start + json_text_array(ss@));
}


/// Items of a JSON array of texts, comma separated.
pub open spec fn view_items(vs: Seq<Seq<char>>) -> Seq<u8>
    decreases vs.len(),
{
    if vs.len() == 0 {
        Seq::empty()
    } else if vs.len() == 1 {
        json_text(vs[0])
    } else {
        view_items(vs.drop_last()) + seq![44u8] + json_text(vs.last())
    }
}

/// A JSON array of texts.
pub open spec fn json_view_array(vs: Seq<Seq<char>>) -> Seq<u8> {
    seq![91u8] + view_items(vs) + seq![93u8]
}

/// An array of strings is the array of their texts.
pub proof fn lemma_text_array_views(ss: Seq<String>)
    ensures
        json_text_array(ss) == json_view_array(ss.map_values(|s: String| s@)),
{
    lemma_text_items_views(ss);
}

proof fn lemma_text_items_views(ss: Seq<String>)
    ensures
        text_items(ss) == view_items(ss.map_values(|s: String| s@)),
    decreases ss.len(),
{
    let vs = ss.map_values(|s: String| s@);
    if ss.len() > 1 {
        lemma_text_items_views(ss.drop_last());
        assert(ss.drop_last().map_values(|s: String| s@) =~= vs.drop_last());
    }
}

/// Appends a JSON array of texts given as strings.
pub fn push_json_view_array(out: &mut Vec<u8>, ss: &Vec<String>)
    ensures
        final(out)@ == old(out)@ + json_view_array(ss@.map_values(|s: String| s@)),
{
    proof {
        lemma_text_array_views(ss@);
    }
    push_json_text_array(out, ss);
}

} // verus!
