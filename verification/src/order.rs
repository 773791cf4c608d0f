//! Byte-wise text order, as `Ord` orders `String`, and a stable insertion sort
//! over any type that orders itself strictly.

use vstd::prelude::*;
use vstd::multiset::Multiset;
use vstd::seq_lib::*;

verus! {

/// Lexicographic order of byte strings: a proper prefix comes first.
pub open spec fn bytes_lt(a: Seq<u8>, b: Seq<u8>) -> bool
    decreases a.len(),
{
    if a.len() == 0 {
        b.len() > 0
    } else if b.len() == 0 {
        false
    } else if a[0] != b[0] {
        a[0] < b[0]
    } else {
        bytes_lt(a.drop_first(), b.drop_first())
    }
}

/// No byte string comes before itself.
pub proof fn lemma_bytes_lt_irreflexive(a: Seq<u8>)
    ensures
        !bytes_lt(a, a),
    decreases a.len(),
{
    if a.len() > 0 {
        lemma_bytes_lt_irreflexive(a.drop_first());
    }
}

/// The byte order is transitive.
pub proof fn lemma_bytes_lt_transitive(a: Seq<u8>, b: Seq<u8>, c: Seq<u8>)
    requires
        bytes_lt(a, b),
        bytes_lt(b, c),
    ensures
        bytes_lt(a, c),
    decreases a.len(),
{
    if a.len() > 0 && b.len() > 0 && c.len() > 0 {
        if a[0] == b[0] && b[0] == c[0] {
            lemma_bytes_lt_transitive(a.drop_first(), b.drop_first(), c.drop_first());
        }
    }
}

/// Two distinct byte strings are ordered one way or the other.
pub proof fn lemma_bytes_lt_total(a: Seq<u8>, b: Seq<u8>)
    requires
        a != b,
    ensures
        bytes_lt(a, b) || bytes_lt(b, a),
    decreases a.len(),
{
    if a.len() > 0 && b.len() > 0 && a[0] == b[0] {
        if a.drop_first() == b.drop_first() {
            assert(a =~= seq![a[0]] + a.drop_first());
            assert(b =~= seq![b[0]] + b.drop_first());
        } else {
            lemma_bytes_lt_total(a.drop_first(), b.drop_first());
        }
    } else if a.len() == 0 && b.len() == 0 {
        assert(a =~= b);
    }
}

/// Texts are ordered by their bytes, and distinct texts have distinct bytes.
pub proof fn lemma_text_lt_total(a: Seq<char>, b: Seq<char>)
    requires
        a != b,
    ensures
        text_lt(a, b) || text_lt(b, a),
{
    vstd::utf8::encode_utf8_decode_utf8(a);
    vstd::utf8::encode_utf8_decode_utf8(b);
    lemma_bytes_lt_total(vstd::utf8::encode_utf8(a), vstd::utf8::encode_utf8(b));
}

/// Compares two byte strings.
pub fn bytes_less(a: &[u8], b: &[u8]) -> (r: bool)
    ensures
        r == bytes_lt(a@, b@),
{
    let mut i: usize = 0;
    assert(a@.subrange(0, a@.len() as int) =~= a@);
    assert(b@.subrange(0, b@.len() as int) =~= b@);
    while i < a.len() && i < b.len()
        invariant
            i <= a@.len(),
            i <= b@.len(),
            a@.subrange(0, i as int) == b@.subrange(0, i as int),
            bytes_lt(a@, b@) == bytes_lt(a@.subrange(i as int, a@.len() as int), b@.subrange(i as int, b@.len() as int)),
        decreases a@.len() - i,
    {
        let ghost sa = a@.subrange(i as int, a@.len() as int);
        let ghost sb = b@.subrange(i as int, b@.len() as int);
        if a[i] != b[i] {
            assert(sa[0] == a@[i as int] && sb[0] == b@[i as int]);
            return a[i] < b[i];
        }
        assert(sa.drop_first() =~= a@.subrange(i + 1, a@.len() as int));
        assert(sb.drop_first() =~= b@.subrange(i + 1, b@.len() as int));
        assert(a@.subrange(0, i + 1) =~= a@.subrange(0, i as int).push(a@[i as int]));
        assert(b@.subrange(0, i + 1) =~= b@.subrange(0, i as int).push(b@[i as int]));
        i = i + 1;
    }
    let ghost sa = a@.subrange(i as int, a@.len() as int);
    let ghost sb = b@.subrange(i as int, b@.len() as int);
    assert(sa.len() == 0 || sb.len() == 0);
    i == a.len() && i < b.len()
}

/// Order of texts: byte-wise on their UTF-8 encodings.
pub open spec fn text_lt(a: Seq<char>, b: Seq<char>) -> bool {
    bytes_lt(vstd::utf8::encode_utf8(a), vstd::utf8::encode_utf8(b))
}

/// Compares two texts as `Ord` compares strings.
pub fn text_less(a: &str, b: &str) -> (r: bool)
    ensures
        r == text_lt(a@, b@),
{
    bytes_less(a.as_bytes(), b.as_bytes())
}

/// Order of optional texts: absent first, then by text.
pub open spec fn opt_text_lt(a: Option<String>, b: Option<String>) -> bool {
    match (a, b) {
        (None, Some(_)) => true,
        (Some(x), Some(y)) => text_lt(x@, y@),
        _ => false,
    }
}

/// Compares two optional texts.
pub fn opt_text_less(a: &Option<String>, b: &Option<String>) -> (r: bool)
    ensures
        r == opt_text_lt(*a, *b),
{
    match (a, b) {
        (None, Some(_)) => true,
        (Some(x), Some(y)) => text_less(x.as_str(), y.as_str()),
        _ => false,
    }
}

/// Texts are equal exactly when their encodings are.
pub open spec fn opt_text_eq(a: Option<String>, b: Option<String>) -> bool {
    match (a, b) {
        (None, None) => true,
        (Some(x), Some(y)) => vstd::utf8::encode_utf8(x@) == vstd::utf8::encode_utf8(y@),
        _ => false,
    }
}

/// Whether two optional texts have the same bytes.
pub fn opt_text_same(a: &Option<String>, b: &Option<String>) -> (r: bool)
    ensures
        r == opt_text_eq(*a, *b),
{
    match (a, b) {
        (None, None) => true,
        (Some(x), Some(y)) => same_slice(x.as_str().as_bytes(), y.as_str().as_bytes()),
        _ => false,
    }
}

/// Whether two byte strings are equal.
pub fn same_slice(a: &[u8], b: &[u8]) -> (r: bool)
    ensures
        r == (a@ == b@),
{
    if a.len() != b.len() {
        return false;
    }
    let mut i: usize = 0;
    while i < a.len()
        invariant
            a@.len() == b@.len(),
            i <= a@.len(),
            forall|j: int| 0 <= j < i ==> a@[j] == b@[j],
        decreases a@.len() - i,
    {
        if a[i] != b[i] {
            return false;
        }
        i = i + 1;
    }
    assert(a@ =~= b@);
    true
}

proof fn lemma_opt_text_lt(a: Option<String>, b: Option<String>, c: Option<String>)
    ensures
        !opt_text_lt(a, a),
        opt_text_lt(a, b) && opt_text_lt(b, c) ==> opt_text_lt(a, c),
        opt_text_lt(a, b) ==> !opt_text_eq(a, b) && !opt_text_eq(b, a),
        opt_text_eq(a, b) && opt_text_lt(b, c) ==> opt_text_lt(a, c),
        opt_text_lt(a, b) && opt_text_eq(b, c) ==> opt_text_lt(a, c),
        opt_text_eq(a, b) && opt_text_eq(b, c) ==> opt_text_eq(a, c),
        opt_text_eq(a, a),
{
    if let Some(x) = a {
        lemma_bytes_lt_irreflexive(vstd::utf8::encode_utf8(x@));
    }
    if let (Some(x), Some(y), Some(z)) = (a, b, c) {
        if text_lt(x@, y@) && text_lt(y@, z@) {
            lemma_bytes_lt_transitive(vstd::utf8::encode_utf8(x@), vstd::utf8::encode_utf8(y@), vstd::utf8::encode_utf8(z@));
        }
    }
    if let (Some(x), Some(y)) = (a, b) {
        if text_lt(x@, y@) {
            lemma_bytes_lt_irreflexive(vstd::utf8::encode_utf8(x@));
        }
    }
}

/// Lexicographic order of a pair of optional texts after a text, as `Ord`
/// orders such a tuple.
pub open spec fn triple_lt(a: (Option<String>, Option<String>, Option<String>), b: (Option<String>, Option<String>, Option<String>)) -> bool {
    ||| opt_text_lt(a.0, b.0)
    ||| opt_text_eq(a.0, b.0) && opt_text_lt(a.1, b.1)
    ||| opt_text_eq(a.0, b.0) && opt_text_eq(a.1, b.1) && opt_text_lt(a.2, b.2)
}

/// The order of three-part keys is irreflexive and transitive.
pub proof fn lemma_triple_lt(
    a: (Option<String>, Option<String>, Option<String>),
    b: (Option<String>, Option<String>, Option<String>),
    c: (Option<String>, Option<String>, Option<String>),
)
    ensures
        !triple_lt(a, a),
        triple_lt(a, b) && triple_lt(b, c) ==> triple_lt(a, c),
{
    lemma_opt_text_lt(a.0, b.0, c.0);
    lemma_opt_text_lt(a.1, b.1, c.1);
    lemma_opt_text_lt(a.2, b.2, c.2);
    lemma_opt_text_lt(a.0, a.0, a.0);
    lemma_opt_text_lt(a.1, a.1, a.1);
    lemma_opt_text_lt(a.2, a.2, a.2);
    lemma_opt_text_lt(b.0, a.0, c.0);
    lemma_opt_text_lt(a.0, c.0, b.0);
    lemma_opt_text_lt(b.1, a.1, c.1);
    lemma_opt_text_lt(a.1, c.1, b.1);
    lemma_opt_text_lt(b.2, a.2, c.2);
    lemma_opt_text_lt(a.2, c.2, b.2);
    lemma_opt_text_lt(b.0, c.0, a.0);
    lemma_opt_text_lt(c.0, a.0, b.0);
    lemma_opt_text_lt(b.1, c.1, a.1);
    lemma_opt_text_lt(c.1, a.1, b.1);
}

/// Compares two three-part keys.
pub fn triple_less(
    a: &(Option<String>, Option<String>, Option<String>),
    b: &(Option<String>, Option<String>, Option<String>),
) -> (r: bool)
    ensures
        r == triple_lt(*a, *b),
{
    if opt_text_less(&a.0, &b.0) {
        return true;
    }
    if !opt_text_same(&a.0, &b.0) {
        return false;
    }
    if opt_text_less(&a.1, &b.1) {
        return true;
    }
    if !opt_text_same(&a.1, &b.1) {
        return false;
    }
    opt_text_less(&a.2, &b.2)
}

/// Lexicographic order of keys made of byte strings.
pub open spec fn keys_lt(a: Seq<Seq<u8>>, b: Seq<Seq<u8>>) -> bool
    decreases a.len(),
{
    if a.len() == 0 || b.len() == 0 {
        false
    } else if bytes_lt(a[0], b[0]) {
        true
    } else if a[0] == b[0] {
        keys_lt(a.drop_first(), b.drop_first())
    } else {
        false
    }
}

/// The order of keys is irreflexive and transitive.
pub proof fn lemma_keys_lt(a: Seq<Seq<u8>>, b: Seq<Seq<u8>>, c: Seq<Seq<u8>>)
    ensures
        !keys_lt(a, a),
        keys_lt(a, b) && keys_lt(b, c) ==> keys_lt(a, c),
    decreases a.len(),
{
    if a.len() > 0 {
        lemma_bytes_lt_irreflexive(a[0]);
        if b.len() > 0 && c.len() > 0 {
            lemma_keys_lt(a.drop_first(), b.drop_first(), c.drop_first());
            if bytes_lt(a[0], b[0]) && bytes_lt(b[0], c[0]) {
                lemma_bytes_lt_transitive(a[0], b[0], c[0]);
            }
            if bytes_lt(a[0], b[0]) && b[0] == c[0] {
            }
            if a[0] == b[0] && bytes_lt(b[0], c[0]) {
            }
            if bytes_lt(a[0], b[0]) && bytes_lt(b[0], a[0]) {
                lemma_bytes_lt_transitive(a[0], b[0], a[0]);
            }
            if bytes_lt(b[0], c[0]) && bytes_lt(c[0], b[0]) {
                lemma_bytes_lt_transitive(b[0], c[0], b[0]);
                lemma_bytes_lt_irreflexive(b[0]);
            }
        } else {
            lemma_keys_lt(a.drop_first(), a.drop_first(), a.drop_first());
        }
    }
}

/// Order-preserving key of an optional text: absent is `[0]`, present is `1`
/// followed by the text's bytes.
pub open spec fn opt_key(o: Option<Seq<char>>) -> Seq<u8> {
    match o {
        None => seq![0u8],
        Some(s) => seq![1u8] + vstd::utf8::encode_utf8(s),
    }
}

/// Key of a text.
pub open spec fn text_key(s: Seq<char>) -> Seq<u8> {
    vstd::utf8::encode_utf8(s)
}

/// Builds the key of an optional text.
pub fn opt_key_bytes(o: &Option<String>) -> (k: Vec<u8>)
    ensures
        k@ == opt_key(match o {
            Some(s) => Some(s@),
            None => None,
        }),
{
    let mut k: Vec<u8> = Vec::new();
    match o {
        None => {
            k.push(0u8);
        },
        Some(s) => {
            k.push(1u8);
            let bytes = s.as_str().as_bytes();
            let mut i: usize = 0;
            while i < bytes.len()
                invariant
                    i <= bytes@.len(),
                    k@ == seq![1u8] + bytes@.subrange(0, i as int),
                decreases bytes@.len() - i,
            {
                k.push(bytes[i]);
                assert(k@ =~= seq![1u8] + bytes@.subrange(0, i + 1));
                i = i + 1;
            }
            assert(bytes@.subrange(0, bytes@.len() as int) =~= bytes@);
        },
    }
    k
}

/// Builds the key of a text.
pub fn text_key_bytes(s: &str) -> (k: Vec<u8>)
    ensures
        k@ == text_key(s@),
{
    let bytes = s.as_bytes();
    let mut k: Vec<u8> = Vec::new();
    let mut i: usize = 0;
    while i < bytes.len()
        invariant
            i <= bytes@.len(),
            k@ == bytes@.subrange(0, i as int),
        decreases bytes@.len() - i,
    {
        k.push(bytes[i]);
        assert(k@ =~= bytes@.subrange(0, i + 1));
        i = i + 1;
    }
    assert(bytes@.subrange(0, bytes@.len() as int) =~= bytes@);
    k
}

/// Compares two keys.
pub fn keys_less(a: &Vec<Vec<u8>>, b: &Vec<Vec<u8>>) -> (r: bool)
    ensures
        r == keys_lt(a@.map_values(|x: Vec<u8>| x@), b@.map_values(|x: Vec<u8>| x@)),
{
    let ghost av = a@.map_values(|x: Vec<u8>| x@);
    let ghost bv = b@.map_values(|x: Vec<u8>| x@);
    assert(av.subrange(0, av.len() as int) =~= av);
    assert(bv.subrange(0, bv.len() as int) =~= bv);
    let mut i: usize = 0;
    while i < a.len() && i < b.len()
        invariant
            i <= a@.len(),
            i <= b@.len(),
            av == a@.map_values(|x: Vec<u8>| x@),
            bv == b@.map_values(|x: Vec<u8>| x@),
            keys_lt(av, bv) == keys_lt(av.subrange(i as int, av.len() as int), bv.subrange(i as int, bv.len() as int)),
        decreases a@.len() - i,
    {
        let ghost sa = av.subrange(i as int, av.len() as int);
        let ghost sb = bv.subrange(i as int, bv.len() as int);
        assert(sa[0] == a@[i as int]@ && sb[0] == b@[i as int]@);
        if bytes_less(a[i].as_slice(), b[i].as_slice()) {
            return true;
        }
        if !same_slice(a[i].as_slice(), b[i].as_slice()) {
            return false;
        }
        assert(sa.drop_first() =~= av.subrange(i + 1, av.len() as int));
        assert(sb.drop_first() =~= bv.subrange(i + 1, bv.len() as int));
        i = i + 1;
    }
    false
}

/// A type ordered by a strict order.
pub trait Ordered: Sized {
    /// `self` sorts strictly before `other`.
    spec fn precedes(&self, other: &Self) -> bool;

    /// Nothing precedes itself.
    proof fn precedes_irreflexive(a: &Self)
        ensures
            !a.precedes(a),
    ;

    /// Precedence is transitive.
    proof fn precedes_transitive(a: &Self, b: &Self, c: &Self)
        requires
            a.precedes(b),
            b.precedes(c),
        ensures
            a.precedes(c),
    ;

    /// Whether `self` sorts strictly before `other`.
    fn less(&self, other: &Self) -> (r: bool)
        ensures
            r == self.precedes(other),
    ;
}

/// Texts ordered as `Ord` orders strings.
impl Ordered for String {
    open spec fn precedes(&self, other: &Self) -> bool {
        text_lt(self@, other@)
    }

    proof fn precedes_irreflexive(a: &Self) {
        lemma_bytes_lt_irreflexive(vstd::utf8::encode_utf8(a@));
    }

    proof fn precedes_transitive(a: &Self, b: &Self, c: &Self) {
        lemma_bytes_lt_transitive(
            vstd::utf8::encode_utf8(a@),
            vstd::utf8::encode_utf8(b@),
            vstd::utf8::encode_utf8(c@),
        );
    }

    fn less(&self, other: &Self) -> (r: bool) {
        text_less(self.as_str(), other.as_str())
    }
}

/// No later item precedes an earlier one.
pub open spec fn sorted_by<T: Ordered>(s: Seq<T>) -> bool {
    forall|i: int, j: int| #![trigger s[i], s[j]] 0 <= i < j < s.len() ==> !s[j].precedes(&s[i])
}

/// Where an item goes in a sorted list: before the first item it precedes,
/// so after every item of equal rank already there.
pub open spec fn insertion_point<T: Ordered>(s: Seq<T>, x: T) -> int
    decreases s.len(),
{
    if s.len() == 0 {
        0
    } else if x.precedes(&s[0]) {
        0
    } else {
        1 + insertion_point(s.drop_first(), x)
    }
}

/// The stable sort of a list: its items, taken in order, each inserted after
/// the items of equal rank already placed.
pub open spec fn stable_sorted<T: Ordered>(s: Seq<T>) -> Seq<T>
    decreases s.len(),
{
    if s.len() == 0 {
        Seq::empty()
    } else {
        let r = stable_sorted(s.drop_last());
        r.insert(insertion_point(r, s.last()), s.last())
    }
}

/// The insertion point is the first position whose item `x` precedes.
proof fn lemma_insertion_point<T: Ordered>(s: Seq<T>, x: T, p: int)
    requires
        0 <= p <= s.len(),
        forall|k: int| 0 <= k < p ==> !x.precedes(&#[trigger] s[k]),
        p < s.len() ==> x.precedes(&s[p]),
    ensures
        insertion_point(s, x) == p,
    decreases p,
{
    if p > 0 {
        assert(!x.precedes(&s[0]));
        let t = s.drop_first();
        assert forall|k: int| 0 <= k < p - 1 implies !x.precedes(&#[trigger] t[k]) by {
            assert(t[k] == s[k + 1]);
        }
        if p - 1 < t.len() {
            assert(t[p - 1] == s[p]);
        }
        lemma_insertion_point(t, x, p - 1);
    }
}

/// Sorts stably: the result holds the same items, no item precedes one
/// before it, and items of equal rank keep their input order.
pub fn sort<T: Ordered>(v: Vec<T>) -> (out: Vec<T>)
    ensures
        sorted_by(out@),
        out@.to_multiset() == v@.to_multiset(),
        out@ == stable_sorted(v@),
{
    broadcast use vstd::multiset::group_multiset_axioms, vstd::seq_lib::group_to_multiset_ensures, vstd::multiset::lemma_multiset_empty_len;
    let mut rest = v;
    let ghost all = rest@;
    let mut out: Vec<T> = Vec::new();
    proof {
        assert(out@.to_multiset() =~= Multiset::<T>::empty());
        assert(all.to_multiset() =~= out@.to_multiset().add(rest@.to_multiset()));
    }
    proof {
        assert(all.subrange(0, 0) =~= Seq::<T>::empty());
    }
    while rest.len() > 0
        invariant
            sorted_by(out@),
            all.to_multiset() == out@.to_multiset().add(rest@.to_multiset()),
            rest@.len() <= all.len(),
            rest@ == all.subrange(all.len() - rest@.len(), all.len() as int),
            out@ == stable_sorted(all.subrange(0, all.len() - rest@.len())),
        decreases rest@.len(),
    {
        let ghost before = rest@;
        let x = rest.remove(0);
        let mut p: usize = 0;
        while p < out.len()
            invariant
                p <= out@.len(),
                forall|k: int| #![trigger out@[k]] 0 <= k < p ==> !x.precedes(&out@[k]),
            ensures
                p <= out@.len(),
                forall|k: int| #![trigger out@[k]] 0 <= k < p ==> !x.precedes(&out@[k]),
                p < out@.len() ==> x.precedes(&out@[p as int]),
            decreases out@.len() - p,
        {
            if x.less(&out[p]) {
                break;
            }
            p = p + 1;
        }
        proof {
            to_multiset_remove(before, 0);
            assert(before.to_multiset().remove(before[0]) == rest@.to_multiset());
            assert(before.to_multiset().contains(before[0])) by {
                vstd::seq_lib::to_multiset_contains(before, before[0]);
            }
        }
        let ghost old_out = out@;
        proof {
            T::precedes_irreflexive(&x);
        }
        proof {
            lemma_insertion_point(old_out, x, p as int);
            let done = all.len() - before.len();
            let pre = all.subrange(0, done + 1);
            assert(x == all[done]);
            assert(pre.drop_last() =~= all.subrange(0, done));
            assert(pre.last() == x);
            assert(rest@ =~= all.subrange(all.len() - rest@.len(), all.len() as int));
        }
        out.insert(p, x);
        proof {
            to_multiset_insert(old_out, p as int, x);
            assert forall|i: int, j: int| #![trigger out@[i], out@[j]] 0 <= i < j < out@.len() implies !out@[j].precedes(&out@[i]) by {
                if i < p && j < p {
                    assert(out@[i] == old_out[i] && out@[j] == old_out[j]);
                } else if i < p && j == p {
                    assert(out@[i] == old_out[i]);
                } else if i < p {
                    assert(out@[i] == old_out[i] && out@[j] == old_out[j - 1]);
                } else if i == p {
                    assert(out@[j] == old_out[j - 1]);
                    if out@[j].precedes(&x) {
                        if j - 1 == p {
                            T::precedes_irreflexive(&x);
                            assert(x.precedes(&old_out[p as int]));
                            T::precedes_transitive(&x, &old_out[p as int], &x);
                        } else {
                            T::precedes_transitive(&old_out[j - 1], &x, &old_out[p as int]);
                        }
                    }
                } else {
                    assert(out@[i] == old_out[i - 1] && out@[j] == old_out[j - 1]);
                }
            }
            assert(all.to_multiset() =~= out@.to_multiset().add(rest@.to_multiset()));
        }
    }
    proof {
        assert(rest@.to_multiset() =~= Multiset::<T>::empty());
        assert(out@.to_multiset() =~= all.to_multiset());
        assert(all.subrange(0, all.len() as int) =~= all);
    }
    out
}

} // verus!
