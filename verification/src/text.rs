//! Identifier, hash reference and free-text formats shared by every document.

use sha2::Digest;
use vstd::prelude::*;
use vstd::string::*;

verus! {

/// A byte of a safe identifier: ASCII letter, digit, `.`, `_` or `-`.
pub open spec fn is_id_char(c: char) -> bool {
    ('a' <= c && c <= 'z') || ('A' <= c && c <= 'Z') || ('0' <= c && c <= '9') || c == '.'
        || c == '_' || c == '-'
}

/// A safe identifier: between 1 and 128 identifier characters.
pub open spec fn is_safe_id(s: Seq<char>) -> bool {
    &&& 0 < s.len() <= 128
    &&& forall|i: int| 0 <= i < s.len() ==> #[trigger] is_id_char(s[i])
}

/// A hexadecimal digit of either case.
pub open spec fn is_hex_char(c: char) -> bool {
    ('0' <= c && c <= '9') || ('a' <= c && c <= 'f') || ('A' <= c && c <= 'F')
}

/// A lowercase hexadecimal digit.
pub open spec fn is_lower_hex_char(c: char) -> bool {
    ('0' <= c && c <= '9') || ('a' <= c && c <= 'f')
}

/// The prefix that every content hash carries.
pub open spec fn sha256_prefix() -> Seq<char> {
    seq!['s', 'h', 'a', '2', '5', '6', ':']
}

/// `sha256:` followed by exactly 64 hexadecimal digits of either case.
pub open spec fn is_sha256_ref(s: Seq<char>) -> bool {
    &&& s.len() == 71
    &&& s.subrange(0, 7) == sha256_prefix()
    &&& forall|i: int| 7 <= i < 71 ==> #[trigger] is_hex_char(s[i])
}

/// `sha256:` followed by exactly 64 lowercase hexadecimal digits.
pub open spec fn is_content_hash(s: Seq<char>) -> bool {
    &&& s.len() == 71
    &&& s.subrange(0, 7) == sha256_prefix()
    &&& forall|i: int| 7 <= i < 71 ==> #[trigger] is_lower_hex_char(s[i])
}

/// Unicode `White_Space`, the set that `str::trim` removes.
pub open spec fn is_unicode_whitespace(c: char) -> bool {
    ||| ('\u{9}' <= c && c <= '\u{d}')
    ||| c == ' '
    ||| c == '\u{85}'
    ||| c == '\u{a0}'
    ||| c == '\u{1680}'
    ||| ('\u{2000}' <= c && c <= '\u{200a}')
    ||| c == '\u{2028}'
    ||| c == '\u{2029}'
    ||| c == '\u{202f}'
    ||| c == '\u{205f}'
    ||| c == '\u{3000}'
}

/// True when trimming the text leaves nothing.
pub open spec fn is_blank(s: Seq<char>) -> bool {
    forall|i: int| 0 <= i < s.len() ==> #[trigger] is_unicode_whitespace(s[i])
}

/// Length of the text in UTF-8 bytes.
pub open spec fn utf8_len(s: Seq<char>) -> nat {
    vstd::utf8::encode_utf8(s).len()
}

pub fn is_id_char_exec(c: char) -> (ok: bool)
    ensures
        ok == is_id_char(c),
{
    ('a' <= c && c <= 'z') || ('A' <= c && c <= 'Z') || ('0' <= c && c <= '9') || c == '.'
        || c == '_' || c == '-'
}

/// Checks the safe identifier format used for run, grant, proposal and receipt ids.
pub fn is_safe_identifier(id: &str) -> (ok: bool)
    ensures
        ok == is_safe_id(id@),
{
    let n = id.unicode_len();
    if n == 0 || n > 128 {
        return false;
    }
    let mut i: usize = 0;
    while i < n
        invariant
            n == id@.len(),
            i <= n,
            forall|j: int| 0 <= j < i ==> #[trigger] is_id_char(id@[j]),
        decreases n - i,
    {
        if !is_id_char_exec(id.get_char(i)) {
            return false;
        }
        i = i + 1;
    }
    true
}

/// Checks that the first seven characters are `sha256:`.
fn has_sha256_prefix(s: &str, n: usize) -> (ok: bool)
    requires
        n == s@.len(),
        n >= 7,
    ensures
        ok == (s@.subrange(0, 7) == sha256_prefix()),
{
    let ok = s.get_char(0) == 's' && s.get_char(1) == 'h' && s.get_char(2) == 'a'
        && s.get_char(3) == '2' && s.get_char(4) == '5' && s.get_char(5) == '6'
        && s.get_char(6) == ':';
    if ok {
        assert(s@.subrange(0, 7) =~= sha256_prefix());
    } else {
        assert(s@.subrange(0, 7) != sha256_prefix()) by {
            if s@.subrange(0, 7) == sha256_prefix() {
                assert(s@.subrange(0, 7)[0] == 's');
                assert(s@.subrange(0, 7)[1] == 'h');
                assert(s@.subrange(0, 7)[2] == 'a');
                assert(s@.subrange(0, 7)[3] == '2');
                assert(s@.subrange(0, 7)[4] == '5');
                assert(s@.subrange(0, 7)[5] == '6');
                assert(s@.subrange(0, 7)[6] == ':');
            }
        }
    }
    ok
}

/// Checks `sha256:<64 hex>` accepting either case, as documents written by hand may.
pub fn is_sha256_reference(s: &str) -> (ok: bool)
    ensures
        ok == is_sha256_ref(s@),
{
    let n = s.unicode_len();
    if n != 71 {
        return false;
    }
    if !has_sha256_prefix(s, n) {
        return false;
    }
    let mut i: usize = 7;
    while i < 71
        invariant
            n == s@.len() == 71,
            7 <= i <= 71,
            forall|j: int| 7 <= j < i ==> #[trigger] is_hex_char(s@[j]),
        decreases 71 - i,
    {
        let c = s.get_char(i);
        if !(('0' <= c && c <= '9') || ('a' <= c && c <= 'f') || ('A' <= c && c <= 'F')) {
            assert(!is_hex_char(s@[i as int]));
            return false;
        }
        i = i + 1;
    }
    true
}

/// Checks the exact content-address form `sha256:<64 lowercase hex>`.
pub fn is_content_hash_exec(s: &str) -> (ok: bool)
    ensures
        ok == is_content_hash(s@),
{
    let n = s.unicode_len();
    if n != 71 {
        return false;
    }
    if !has_sha256_prefix(s, n) {
        return false;
    }
    let mut i: usize = 7;
    while i < 71
        invariant
            n == s@.len() == 71,
            7 <= i <= 71,
            forall|j: int| 7 <= j < i ==> #[trigger] is_lower_hex_char(s@[j]),
        decreases 71 - i,
    {
        let c = s.get_char(i);
        if !(('0' <= c && c <= '9') || ('a' <= c && c <= 'f')) {
            assert(!is_lower_hex_char(s@[i as int]));
            return false;
        }
        i = i + 1;
    }
    true
}

pub fn is_unicode_whitespace_exec(c: char) -> (ok: bool)
    ensures
        ok == is_unicode_whitespace(c),
{
    ('\u{9}' <= c && c <= '\u{d}') || c == ' ' || c == '\u{85}' || c == '\u{a0}' || c
        == '\u{1680}' || ('\u{2000}' <= c && c <= '\u{200a}') || c == '\u{2028}' || c
        == '\u{2029}' || c == '\u{202f}' || c == '\u{205f}' || c == '\u{3000}'
}

/// True when the text is empty after trimming Unicode whitespace.
pub fn is_blank_text(s: &str) -> (ok: bool)
    ensures
        ok == is_blank(s@),
{
    let n = s.unicode_len();
    let mut i: usize = 0;
    while i < n
        invariant
            n == s@.len(),
            i <= n,
            forall|j: int| 0 <= j < i ==> #[trigger] is_unicode_whitespace(s@[j]),
        decreases n - i,
    {
        if !is_unicode_whitespace_exec(s.get_char(i)) {
            return false;
        }
        i = i + 1;
    }
    true
}


/// Lowercase hexadecimal digit for a value below 16.
pub open spec fn hex_digit(n: int) -> char {
    if n < 10 {
        ('0' as int + n) as char
    } else {
        ('a' as int + (n - 10)) as char
    }
}

/// Lowercase hexadecimal text of a byte string, two digits per byte.
pub open spec fn hex_lower(bytes: Seq<u8>) -> Seq<char>
    decreases bytes.len(),
{
    if bytes.len() == 0 {
        Seq::empty()
    } else {
        let last = bytes.last();
        hex_lower(bytes.drop_last()) + seq![hex_digit(last as int / 16), hex_digit(last as int % 16)]
    }
}

/// The SHA-256 digest of a byte string.
pub uninterp spec fn sha256(bytes: Seq<u8>) -> Seq<u8>;

/// The content address of a byte string: `sha256:` and the lowercase hex digest.
pub open spec fn content_address(bytes: Seq<u8>) -> Seq<char> {
    sha256_prefix() + hex_lower(sha256(bytes))
}

/// The SHA-256 digest of a byte string, 32 bytes long.
pub fn sha256_of(bytes: &[u8]) -> (out: Vec<u8>)
    ensures
        out@ == sha256(bytes@),
        out@.len() == 32,
{
    sha256_digest(bytes)
}

/// Calls `sha2::Sha256::digest`; the result is the SHA-256 digest of the bytes,
/// which SHA-256 defines as 32 bytes long.
#[verifier::external_body]
fn sha256_digest(bytes: &[u8]) -> (out: Vec<u8>)
    ensures
        out@ == sha256(bytes@),
        out@.len() == 32,
{
    sha2::Sha256::digest(bytes).to_vec()
}

pub proof fn lemma_hex_lower_len(bytes: Seq<u8>)
    ensures
        hex_lower(bytes).len() == 2 * bytes.len(),
        forall|i: int| 0 <= i < hex_lower(bytes).len() ==> #[trigger] is_lower_hex_char(hex_lower(bytes)[i]),
    decreases bytes.len(),
{
    if bytes.len() > 0 {
        lemma_hex_lower_len(bytes.drop_last());
        let last = bytes.last();
        let prev = hex_lower(bytes.drop_last());
        let tail = seq![hex_digit(last as int / 16), hex_digit(last as int % 16)];
        assert(is_lower_hex_char(hex_digit(last as int / 16)));
        assert(is_lower_hex_char(hex_digit(last as int % 16)));
        assert forall|i: int| 0 <= i < hex_lower(bytes).len() implies #[trigger] is_lower_hex_char(hex_lower(bytes)[i]) by {
            if i < prev.len() {
                assert(hex_lower(bytes)[i] == prev[i]);
            } else {
                assert(hex_lower(bytes)[i] == tail[i - prev.len()]);
            }
        }
    }
}

/// Appends the lowercase hexadecimal digit of a value below 16.
fn push_hex_digit(out: &mut String, n: u8)
    requires
        n < 16,
    ensures
        final(out)@ == old(out)@.push(hex_digit(n as int)),
{
    let digits = "0123456789abcdef";
    proof {
        reveal_strlit("0123456789abcdef");
    }
    assert(digits.is_ascii());
    let d = digits.substring_ascii(n as usize, n as usize + 1);
    assert(d@ =~= seq![hex_digit(n as int)]);
    out.append(d);
}

/// Lowercase hexadecimal text of a byte string.
pub fn hex_encode(bytes: &[u8]) -> (out: String)
    ensures
        out@ == hex_lower(bytes@),
{
    let mut out = String::new();
    let mut i: usize = 0;
    while i < bytes.len()
        invariant
            i <= bytes@.len(),
            out@ == hex_lower(bytes@.subrange(0, i as int)),
        decreases bytes@.len() - i,
    {
        let b = bytes[i];
        push_hex_digit(&mut out, b / 16);
        push_hex_digit(&mut out, b % 16);
        assert(bytes@.subrange(0, i + 1).drop_last() =~= bytes@.subrange(0, i as int));
        i = i + 1;
    }
    assert(bytes@.subrange(0, bytes@.len() as int) =~= bytes@);
    out
}

/// Content address `sha256:<hex>` of a byte string, as every store names its objects.
pub fn content_hash(bytes: &[u8]) -> (h: String)
    ensures
        h@ == content_address(bytes@),
        is_content_hash(h@),
{
    let digest = sha256_digest(bytes);
    let hex = hex_encode(digest.as_slice());
    let prefix = "sha256:";
    proof {
        reveal_strlit("sha256:");
        lemma_hex_lower_len(digest@);
    }
    let mut h = String::from_str(prefix);
    h.append(hex.as_str());
    assert(h@ =~= content_address(bytes@));
    assert(h@.subrange(0, 7) =~= sha256_prefix());
    assert forall|i: int| 7 <= i < 71 implies #[trigger] is_lower_hex_char(h@[i]) by {
        assert(h@[i] == hex@[i - 7]);
    }
    h
}


/// Decimal digit character of a value below 10.
pub open spec fn decimal_digit(n: int) -> char {
    ('0' as int + n) as char
}

/// Decimal text of a natural number, without leading zeros.
pub open spec fn decimal(n: nat) -> Seq<char>
    decreases n,
{
    if n < 10 {
        seq![decimal_digit(n as int)]
    } else {
        decimal(n / 10) + seq![decimal_digit((n % 10) as int)]
    }
}

/// Value of a string of decimal digits.
pub open spec fn decimal_value(s: Seq<char>) -> int
    decreases s.len(),
{
    if s.len() == 0 {
        0
    } else {
        decimal_value(s.drop_last()) * 10 + (s.last() as int - '0' as int)
    }
}

/// Reading back the decimal text of a number gives the number.
pub proof fn lemma_decimal_value(n: nat)
    ensures
        decimal_value(decimal(n)) == n,
    decreases n,
{
    if n >= 10 {
        lemma_decimal_value(n / 10);
        let d = decimal(n);
        assert(d.drop_last() =~= decimal(n / 10));
        assert(d.last() == decimal_digit((n % 10) as int));
        assert((d.last() as int - '0' as int) == n % 10);
        assert((n / 10) * 10 + n % 10 == n) by (nonlinear_arith);
        assert(d.len() > 0);
        assert(decimal_value(d) == decimal_value(d.drop_last()) * 10 + (d.last() as int - '0' as int));
        assert(decimal_value(d.drop_last()) == n / 10);
    } else {
        let d = decimal(n);
        assert(d.drop_last() =~= Seq::<char>::empty());
        assert(d.last() == decimal_digit(n as int));
        assert((d.last() as int - '0' as int) == n);
        assert(d.len() == 1);
        assert(decimal_value(d) == decimal_value(d.drop_last()) * 10 + (d.last() as int - '0' as int));
        assert(decimal_value(d.drop_last()) == 0);
    }
}

/// Distinct numbers have distinct decimal texts.
pub proof fn lemma_decimal_injective(a: nat, b: nat)
    requires
        decimal(a) == decimal(b),
    ensures
        a == b,
{
    lemma_decimal_value(a);
    lemma_decimal_value(b);
}

/// Decimal text of an unsigned integer, as `to_string` writes it.
pub fn decimal_string(n: u64) -> (s: String)
    ensures
        s@ == decimal(n as nat),
    decreases n,
{
    let digits = "0123456789";
    proof {
        reveal_strlit("0123456789");
    }
    assert(digits.is_ascii());
    let d = (n % 10) as usize;
    let last = digits.substring_ascii(d, d + 1);
    assert(last@ =~= seq![decimal_digit((n % 10) as int)]);
    if n < 10 {
        String::from_str(last)
    } else {
        let mut s = decimal_string(n / 10);
        s.append(last);
        s
    }
}


/// Decimal text is made of identifier characters.
pub proof fn lemma_decimal_is_id(n: nat)
    ensures
        forall|i: int| 0 <= i < decimal(n).len() ==> #[trigger] is_id_char(decimal(n)[i]),
    decreases n,
{
    if n >= 10 {
        lemma_decimal_is_id(n / 10);
        let d = decimal(n / 10);
        assert forall|i: int| 0 <= i < decimal(n).len() implies #[trigger] is_id_char(decimal(n)[i]) by {
            if i < d.len() {
                assert(decimal(n)[i] == d[i]);
            }
        }
    }
}

/// Ten to the power `k`.
pub open spec fn pow10(k: nat) -> nat
    decreases k,
{
    if k == 0 {
        1
    } else {
        10 * pow10((k - 1) as nat)
    }
}

/// A number below `10^k` has at most `k` decimal digits, and always at least one.
pub proof fn lemma_decimal_len(n: nat, k: nat)
    requires
        k >= 1,
        n < pow10(k),
    ensures
        1 <= decimal(n).len() <= k,
    decreases k,
{
    if n >= 10 {
        let p = pow10((k - 1) as nat);
        if k == 1 {
            assert(pow10(1) == 10) by {
                assert(pow10(0) == 1);
            }
        }
        assert(k >= 2);
        assert(n / 10 < p) by (nonlinear_arith)
            requires n < 10 * p;
        lemma_decimal_len(n / 10, (k - 1) as nat);
    }
}

/// Whether the text starts with `sha256:`.
pub fn starts_with_sha256(s: &str) -> (ok: bool)
    ensures
        ok == (s@.len() >= 7 && s@.subrange(0, 7) == sha256_prefix()),
{
    let n = s.unicode_len();
    if n < 7 {
        return false;
    }
    has_sha256_prefix(s, n)
}

/// Message of a text that is not a lowercase content hash.
pub open spec fn invalid_hash_message(hash: Seq<char>) -> Seq<char> {
    "invalid content hash '"@ + hash + "'"@
}

/// Writes the message of a text that is not a lowercase content hash.
pub fn invalid_hash(hash: &str) -> (m: String)
    ensures
        m@ == invalid_hash_message(hash@),
{
    let mut m = String::from_str("invalid content hash '");
    m.append(hash);
    m.append("'");
    m
}

/// Message of an identifier that is not a safe identifier.
pub open spec fn invalid_identifier_message(id: Seq<char>) -> Seq<char> {
    "invalid identifier '"@ + id + "'"@
}

/// Writes the message of an identifier that is not a safe identifier.
pub fn invalid_identifier(id: &str) -> (m: String)
    ensures
        m@ == invalid_identifier_message(id@),
{
    let mut m = String::from_str("invalid identifier '");
    m.append(id);
    m.append("'");
    m
}

/// Joins a relative segment to a directory path as `Path::join` does on Unix.
pub open spec fn join_path(base: Seq<char>, seg: Seq<char>) -> Seq<char> {
    if base.len() == 0 {
        seg
    } else if base.last() == '/' {
        base + seg
    } else {
        base + seq!['/'] + seg
    }
}

/// Joins a relative segment to a directory path.
pub fn join(base: &str, seg: &str) -> (p: String)
    ensures
        p@ == join_path(base@, seg@),
{
    let n = base.unicode_len();
    if n == 0 {
        return String::from_str(seg);
    }
    let mut p = String::from_str(base);
    if base.get_char(n - 1) != '/' {
        proof {
            reveal_strlit("/");
        }
        p.append("/");
    }
    p.append(seg);
    p
}

/// Content hashes are ASCII text.
pub proof fn lemma_content_hash_ascii(s: Seq<char>)
    requires
        is_content_hash(s),
    ensures
        vstd::utf8::is_ascii_chars(s),
{
    assert forall|i: int| 0 <= i < s.len() implies '\0' <= #[trigger] s[i] <= '\u{7f}' by {
        if i < 7 {
            assert(s.subrange(0, 7)[i] == s[i]);
        } else {
            assert(is_lower_hex_char(s[i]));
        }
    }
}

} // verus!
