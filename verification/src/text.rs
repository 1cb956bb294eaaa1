use vstd::prelude::*;
use vstd::slice::slice_subrange;
use vstd::utf8::{encode_scalar, encode_utf8};

verus! {

/// The position of the first `sep` in `s`, or the length of `s` where it
/// holds none.
pub open spec fn first_index(s: Seq<u8>, sep: u8) -> int
    decreases s.len(),
{
    if s.len() == 0 || s[0] == sep {
        0
    } else {
        1 + first_index(s.drop_first(), sep)
    }
}

/// `s` cut at its first `sep`: what stands before it and what stands after
/// it, or `None` where `s` holds no `sep`.
pub open spec fn split_first(s: Seq<u8>, sep: u8) -> Option<(Seq<u8>, Seq<u8>)> {
    let i = first_index(s, sep);
    if i < s.len() {
        Some((s.subrange(0, i), s.subrange(i + 1, s.len() as int)))
    } else {
        None
    }
}

/// `first_index` stays within `s`, nothing before it is `sep`, and where it
/// lies inside `s` it points at a `sep`.
pub proof fn lemma_first_index(s: Seq<u8>, sep: u8)
    ensures
        0 <= first_index(s, sep) <= s.len(),
        forall|j: int| 0 <= j < first_index(s, sep) ==> s[j] != sep,
        first_index(s, sep) < s.len() ==> s[first_index(s, sep)] == sep,
        first_index(s, sep) == s.len() <==> !s.contains(sep),
    decreases s.len(),
{
    if s.len() == 0 || s[0] == sep {
    } else {
        let t = s.drop_first();
        lemma_first_index(t, sep);
        let k = first_index(t, sep);
        assert forall|j: int| 0 <= j < 1 + k implies s[j] != sep by {
            if j > 0 {
                assert(s[j] == t[j - 1]);
            }
        }
        if k < t.len() {
            assert(s[1 + k] == t[k]);
        }
        if !s.contains(sep) {
            if t.contains(sep) {
                let j = choose|j: int| 0 <= j < t.len() && t[j] == sep;
                assert(s[j + 1] == sep);
            }
        }
    }
}

/// A position that holds `sep` and has no `sep` before it is the first index.
pub proof fn lemma_first_index_is(s: Seq<u8>, sep: u8, i: int)
    requires
        0 <= i <= s.len(),
        forall|j: int| 0 <= j < i ==> s[j] != sep,
        i < s.len() ==> s[i] == sep,
    ensures
        first_index(s, sep) == i,
{
    lemma_first_index(s, sep);
    let k = first_index(s, sep);
    if k < i {
        assert(s[k] != sep);
    }
    if i < k {
        assert(s[i] != sep);
    }
}

/// Looks for the first `sep` in `bytes`.
pub fn find_first(bytes: &[u8], sep: u8) -> (at: Option<usize>)
    ensures
        match at {
            Some(i) => i < bytes@.len() && i == first_index(bytes@, sep),
            None => first_index(bytes@, sep) == bytes@.len(),
        },
{
    let mut i: usize = 0;
    while i < bytes.len()
        invariant
            i <= bytes@.len(),
            forall|j: int| 0 <= j < i ==> bytes@[j] != sep,
        decreases bytes@.len() - i,
    {
        if bytes[i] == sep {
            proof {
                lemma_first_index_is(bytes@, sep, i as int);
            }
            return Some(i);
        }
        i += 1;
    }
    proof {
        lemma_first_index_is(bytes@, sep, i as int);
    }
    None
}

/// Cuts `bytes` at its first `sep`.
pub fn split_once<'a>(bytes: &'a [u8], sep: u8) -> (parts: Option<(&'a [u8], &'a [u8])>)
    ensures
        match parts {
            Some((head, tail)) => split_first(bytes@, sep) == Some((head@, tail@)),
            None => split_first(bytes@, sep) is None,
        },
{
    match find_first(bytes, sep) {
        Some(i) => {
            assert(i < bytes.len());
            let head = slice_subrange(bytes, 0, i);
            let tail = slice_subrange(bytes, i + 1, bytes.len());
            Some((head, tail))
        },
        None => None,
    }
}

/// A vector with the bytes of `bytes`.
pub fn slice_to_owned(bytes: &[u8]) -> (out: Vec<u8>)
    ensures
        out@ == bytes@,
{
    let mut out: Vec<u8> = Vec::new();
    append_bytes(&mut out, bytes);
    out
}

/// Appends `more` to `out`.
pub fn append_bytes(out: &mut Vec<u8>, more: &[u8])
    ensures
        final(out)@ == old(out)@ + more@,
{
    let mut i: usize = 0;
    while i < more.len()
        invariant
            i <= more@.len(),
            out@ == old(out)@ + more@.subrange(0, i as int),
        decreases more@.len() - i,
    {
        out.push(more[i]);
        proof {
            assert(more@.subrange(0, i + 1) == more@.subrange(0, i as int).push(more@[i as int]));
        }
        i += 1;
    }
    proof {
        assert(more@.subrange(0, i as int) == more@);
    }
}

/// Cutting `head + [sep] + tail` at its first `sep` gives `head` and `tail`
/// back, provided `head` holds no `sep`.
pub proof fn lemma_split_first_join(head: Seq<u8>, sep: u8, tail: Seq<u8>)
    requires
        !head.contains(sep),
    ensures
        split_first(head + seq![sep] + tail, sep) == Some((head, tail)),
{
    let s = head + seq![sep] + tail;
    assert forall|j: int| 0 <= j < head.len() implies s[j] != sep by {
        assert(s[j] == head[j]);
        assert(head.contains(head[j]));
    }
    assert(s[head.len() as int] == sep);
    lemma_first_index_is(s, sep, head.len() as int);
    assert(s.subrange(0, head.len() as int) == head);
    assert(s.subrange(head.len() as int + 1, s.len() as int) == tail);
}

/// What `split_first` cuts apart joins to the whole again.
pub proof fn lemma_split_first_parts(s: Seq<u8>, sep: u8, head: Seq<u8>, tail: Seq<u8>)
    requires
        split_first(s, sep) == Some((head, tail)),
    ensures
        head + seq![sep] + tail == s,
        !head.contains(sep),
{
    lemma_first_index(s, sep);
    assert(head + seq![sep] + tail == s);
    if head.contains(sep) {
        let j = choose|j: int| 0 <= j < head.len() && head[j] == sep;
        assert(s[j] == sep);
    }
}

/// The encoding of two texts, one after the other, is the encoding of the
/// first followed by that of the second.
pub proof fn lemma_encode_concat(a: Seq<char>, b: Seq<char>)
    ensures
        encode_utf8(a + b) == encode_utf8(a) + encode_utf8(b),
    decreases a.len(),
{
    if a.len() == 0 {
        assert(a + b == b);
        assert(encode_utf8(a) + encode_utf8(b) == encode_utf8(b));
    } else {
        assert((a + b).drop_first() == a.drop_first() + b);
        lemma_encode_concat(a.drop_first(), b);
        assert(encode_scalar(a[0] as u32) + (encode_utf8(a.drop_first()) + encode_utf8(b)) == (
        encode_scalar(a[0] as u32) + encode_utf8(a.drop_first())) + encode_utf8(b));
    }
}

/// An ASCII character is encoded as the one byte of its code.
pub proof fn lemma_encode_ascii(c: char)
    requires
        c as u32 <= 0x7f,
    ensures
        encode_utf8(seq![c]) == seq![c as u8],
{
    let code = c as u32;
    assert(code & 0x7F == code) by (bit_vector)
        requires
            code <= 0x7f,
    ;
    assert(seq![c].drop_first() == Seq::<char>::empty());
    assert(encode_utf8(seq![c]) == encode_scalar(code) + encode_utf8(Seq::<char>::empty()));
    assert(encode_scalar(code) + Seq::<u8>::empty() == seq![c as u8]);
}

/// A text that holds an ASCII character holds its byte in its encoding.
pub proof fn lemma_ascii_in_encoding(text: Seq<char>, c: char)
    requires
        c as u32 <= 0x7f,
        text.contains(c),
    ensures
        encode_utf8(text).contains(c as u8),
    decreases text.len(),
{
    let rest = text.drop_first();
    assert(text == seq![text[0]] + rest);
    lemma_encode_concat(seq![text[0]], rest);
    if text[0] == c {
        lemma_encode_ascii(c);
        assert(encode_utf8(text)[0] == c as u8);
    } else {
        let i = choose|i: int| 0 <= i < text.len() && text[i] == c;
        assert(rest[i - 1] == c);
        lemma_ascii_in_encoding(rest, c);
        let j = choose|j: int| 0 <= j < encode_utf8(rest).len() && encode_utf8(rest)[j] == c as u8;
        let head = encode_utf8(seq![text[0]]);
        assert(encode_utf8(text)[head.len() + j] == c as u8);
    }
}

} // verus!
