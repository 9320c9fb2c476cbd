//! Byte strings and text.

use vstd::prelude::*;
use vstd::slice::slice_subrange;
use vstd::string::StringSliceAdditionalSpecFns;
use vstd::utf8::*;

verus! {

/// The text that a byte string encodes, where it is well-formed UTF-8.
///
/// Trusted: this calls `core::str::from_utf8` and states what its
/// documentation promises. The call succeeds exactly on well-formed UTF-8,
/// and the string it yields is laid out in memory as the very bytes given.
#[verifier::external_body]
pub(crate) fn str_from_utf8(bytes: &[u8]) -> (r: Option<&str>)
    ensures
        r is Some <==> valid_utf8(bytes@),
        r matches Some(s) ==> s.spec_bytes() == bytes@,
{
    core::str::from_utf8(bytes).ok()
}

/// The characters shown for `bytes`: their decoding where they are
/// well-formed UTF-8, and `fallback` otherwise.
pub open spec fn text_or(bytes: Seq<u8>, fallback: Seq<char>) -> Seq<char> {
    if valid_utf8(bytes) {
        decode_utf8(bytes)
    } else {
        fallback
    }
}

/// Decodes `bytes`, or yields `fallback` where they are not UTF-8.
pub fn decode_or<'a>(bytes: &'a [u8], fallback: &'a str) -> (r: &'a str)
    ensures
        r@ == text_or(bytes@, fallback@),
{
    match str_from_utf8(bytes) {
        Some(s) => {
            proof {
                encode_utf8_decode_utf8(s@);
            }
            s
        },
        None => fallback,
    }
}

/// Two strings with the same bytes are the same text.
pub proof fn lemma_same_bytes_same_text(a: &str, b: &str)
    requires
        a.spec_bytes() == b.spec_bytes(),
    ensures
        a@ == b@,
{
    encode_utf8_decode_utf8(a@);
    encode_utf8_decode_utf8(b@);
}

/// Whether two byte strings are equal.
pub fn bytes_eq(a: &[u8], b: &[u8]) -> (same: bool)
    ensures
        same == (a@ == b@),
{
    if a.len() != b.len() {
        return false;
    }
    let mut i: usize = 0;
    while i < a.len()
        invariant
            i <= a@.len(),
            a@.len() == b@.len(),
            forall|k: int| 0 <= k < i ==> a@[k] == b@[k],
        decreases a@.len() - i,
    {
        if a[i] != b[i] {
            return false;
        }
        i += 1;
    }
    assert(a@ =~= b@);
    true
}

/// Whether two strings are the same text.
pub fn str_eq(a: &str, b: &str) -> (same: bool)
    ensures
        same == (a@ == b@),
{
    let same = bytes_eq(a.as_bytes(), b.as_bytes());
    proof {
        if same {
            lemma_same_bytes_same_text(a, b);
        }
    }
    same
}

/// Length of the text in a zero-terminated field: up to the first zero
/// byte, or the whole field where it holds none.
pub open spec fn nul_len(field: Seq<u8>) -> int
    decreases field.len(),
{
    if field.len() == 0 || field[0] == 0 {
        0
    } else {
        1 + nul_len(field.drop_first())
    }
}

/// The text in a zero-terminated field: the field up to its first zero
/// byte.
pub open spec fn until_nul(field: Seq<u8>) -> Seq<u8> {
    field.subrange(0, nul_len(field))
}

/// The text in a field holds no zero byte and ends at one or at the end
/// of the field.
pub proof fn lemma_nul_len(field: Seq<u8>)
    ensures
        0 <= nul_len(field) <= field.len(),
        forall|k: int| 0 <= k < nul_len(field) ==> field[k] != 0,
        nul_len(field) < field.len() ==> field[nul_len(field)] == 0,
    decreases field.len(),
{
    if field.len() == 0 || field[0] == 0 {
    } else {
        let rest = field.drop_first();
        lemma_nul_len(rest);
        assert forall|k: int| 0 <= k < nul_len(field) implies field[k] != 0 by {
            if k > 0 {
                assert(field[k] == rest[k - 1]);
            }
        }
        if nul_len(field) < field.len() {
            assert(field[nul_len(field)] == rest[nul_len(rest)]);
        }
    }
}

/// A prefix without a zero byte, ending at a zero byte or at the end of the
/// field, is the text in the field.
pub proof fn lemma_nul_len_is(field: Seq<u8>, n: int)
    requires
        0 <= n <= field.len(),
        forall|k: int| 0 <= k < n ==> field[k] != 0,
        n < field.len() ==> field[n] == 0,
    ensures
        nul_len(field) == n,
{
    lemma_nul_len(field);
    let m = nul_len(field);
    if m < n {
        assert(field[m] == 0);
    } else if n < m {
        assert(field[n] != 0);
    }
}

/// The text in a zero-terminated field.
pub fn field_text(field: &[u8]) -> (text: &[u8])
    ensures
        text@ == until_nul(field@),
{
    let mut len: usize = 0;
    while len < field.len() && field[len] != 0
        invariant
            len <= field@.len(),
            forall|k: int| 0 <= k < len ==> field@[k] != 0,
        decreases field@.len() - len,
    {
        len += 1;
    }
    proof {
        lemma_nul_len_is(field@, len as int);
    }
    slice_subrange(field, 0, len)
}


/// Whether a byte is ASCII white space.
pub open spec fn is_space(b: u8) -> bool {
    b == 0x20 || (0x09 <= b && b <= 0x0d)
}

/// The number of white-space bytes at the start of `s`.
pub open spec fn lead_spaces(s: Seq<u8>) -> int
    decreases s.len(),
{
    if s.len() == 0 || !is_space(s[0]) {
        0
    } else {
        1 + lead_spaces(s.drop_first())
    }
}

/// The number of white-space bytes at the end of `s`.
pub open spec fn trail_spaces(s: Seq<u8>) -> int
    decreases s.len(),
{
    if s.len() == 0 || !is_space(s.last()) {
        0
    } else {
        1 + trail_spaces(s.drop_last())
    }
}

/// `s` without the white space at its start and end.
pub open spec fn trimmed(s: Seq<u8>) -> Seq<u8> {
    if lead_spaces(s) >= s.len() {
        Seq::empty()
    } else {
        s.subrange(lead_spaces(s), s.len() - trail_spaces(s))
    }
}

/// The number of bytes at the start of `s` that are not white space.
pub open spec fn word_len(s: Seq<u8>) -> int
    decreases s.len(),
{
    if s.len() == 0 || is_space(s[0]) {
        0
    } else {
        1 + word_len(s.drop_first())
    }
}

/// The words of `s`: its longest runs of bytes that are not white space,
/// in order.
pub open spec fn words(s: Seq<u8>) -> Seq<Seq<u8>>
    decreases s.len(),
{
    let a = lead_spaces(s);
    let t = s.skip(a);
    let w = word_len(t);
    if a < 0 || a >= s.len() || w <= 0 || w > t.len() {
        Seq::empty()
    } else {
        seq![t.take(w)] + words(t.skip(w))
    }
}

/// A run of white space that ends before a byte that is none, or at the
/// end, is the white space at the start.
pub proof fn lemma_lead_is(s: Seq<u8>, n: int)
    requires
        0 <= n <= s.len(),
        forall|k: int| 0 <= k < n ==> is_space(s[k]),
        n < s.len() ==> !is_space(s[n]),
    ensures
        lead_spaces(s) == n,
    decreases s.len(),
{
    if n > 0 {
        let rest = s.drop_first();
        assert forall|k: int| 0 <= k < n - 1 implies is_space(rest[k]) by {
            assert(rest[k] == s[k + 1]);
        }
        lemma_lead_is(rest, n - 1);
    }
}

/// A run of white space that starts after a byte that is none, or at the
/// start, is the white space at the end.
pub proof fn lemma_trail_is(s: Seq<u8>, n: int)
    requires
        0 <= n <= s.len(),
        forall|k: int| s.len() - n <= k < s.len() ==> is_space(s[k]),
        n < s.len() ==> !is_space(s[s.len() - n - 1]),
    ensures
        trail_spaces(s) == n,
    decreases s.len(),
{
    if n > 0 {
        let rest = s.drop_last();
        lemma_trail_is(rest, n - 1);
    }
}

/// A run without white space that ends before white space, or at the
/// end, is the word at the start.
pub proof fn lemma_word_is(s: Seq<u8>, n: int)
    requires
        0 <= n <= s.len(),
        forall|k: int| 0 <= k < n ==> !is_space(s[k]),
        n < s.len() ==> is_space(s[n]),
    ensures
        word_len(s) == n,
    decreases s.len(),
{
    if n > 0 {
        let rest = s.drop_first();
        assert forall|k: int| 0 <= k < n - 1 implies !is_space(rest[k]) by {
            assert(rest[k] == s[k + 1]);
        }
        lemma_word_is(rest, n - 1);
    }
}

/// Whether a byte is ASCII white space.
pub fn space(b: u8) -> (r: bool)
    ensures
        r == is_space(b),
{
    b == 0x20 || (0x09 <= b && b <= 0x0d)
}

/// `s` without the white space at its start and end.
pub fn trim(s: &[u8]) -> (t: &[u8])
    ensures
        t@ == trimmed(s@),
{
    let len = s.len();
    let mut a: usize = 0;
    while a < len && space(s[a])
        invariant
            a <= len == s@.len(),
            forall|k: int| 0 <= k < a ==> is_space(s@[k]),
        decreases len - a,
    {
        a += 1;
    }
    proof {
        lemma_lead_is(s@, a as int);
    }
    if a == len {
        let t = slice_subrange(s, 0, 0);
        assert(t@ =~= Seq::<u8>::empty());
        return t;
    }
    let mut b: usize = len;
    while b > a && space(s[b - 1])
        invariant
            a < b <= len == s@.len(),
            !is_space(s@[a as int]),
            forall|k: int| b <= k < len ==> is_space(s@[k]),
        decreases b,
    {
        b -= 1;
    }
    proof {
        lemma_trail_is(s@, len - b);
    }
    slice_subrange(s, a, b)
}

/// The words of `s`, in order.
pub fn split_words<'a>(s: &'a [u8]) -> (out: Vec<&'a [u8]>)
    ensures
        out@.map_values(|w: &[u8]| w@) == words(s@),
{
    let len = s.len();
    let mut out: Vec<&'a [u8]> = Vec::new();
    let mut i: usize = 0;
    proof {
        assert(s@.skip(0) =~= s@);
        assert(out@.map_values(|w: &[u8]| w@) + words(s@) =~= words(s@));
    }
    loop
        invariant
            i <= len == s@.len(),
            out@.map_values(|w: &[u8]| w@) + words(s@.skip(i as int)) == words(s@),
        decreases len - i,
    {
        let ghost rest = s@.skip(i as int);
        let ghost before = out@.map_values(|w: &[u8]| w@);
        let mut a: usize = i;
        while a < len && space(s[a])
            invariant
                i <= a <= len == s@.len(),
                forall|k: int| i <= k < a ==> is_space(s@[k]),
            decreases len - a,
        {
            a += 1;
        }
        proof {
            lemma_lead_is(rest, a - i);
        }
        if a == len {
            proof {
                assert(words(rest) =~= Seq::<Seq<u8>>::empty());
                assert(before + Seq::<Seq<u8>>::empty() =~= before);
            }
            return out;
        }
        let mut b: usize = a;
        while b < len && !space(s[b])
            invariant
                a <= b <= len == s@.len(),
                forall|k: int| a <= k < b ==> !is_space(s@[k]),
            decreases len - b,
        {
            b += 1;
        }
        let word = slice_subrange(s, a, b);
        out.push(word);
        proof {
            let t = rest.skip(a - i);
            assert(t =~= s@.skip(a as int));
            lemma_word_is(t, b - a);
            assert(t.take(b - a) =~= word@);
            assert(t.skip(b - a) =~= s@.skip(b as int));
            assert(words(rest) == seq![word@] + words(s@.skip(b as int)));
            assert(out@.map_values(|w: &[u8]| w@) =~= before + seq![word@]);
            assert(out@.map_values(|w: &[u8]| w@) + words(s@.skip(b as int)) =~= before + words(
                rest,
            ));
        }
        i = b;
    }
}

} // verus!
