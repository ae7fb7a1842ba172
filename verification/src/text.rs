//! Texts and their bytes.
//!
//! A text is a sequence of characters; its length, as everywhere in Rust, is
//! the number of bytes of its UTF-8 encoding.

use vstd::prelude::*;
use vstd::utf8::*;

verus! {

/// The separator between an identifier's prefix and its segment.
pub const SEPARATOR: char = '_';

/// The length of a text in bytes.
pub open spec fn byte_len(text: Seq<char>) -> nat {
    encode_utf8(text).len()
}

/// A prefix followed by the separator: what every identifier of a kind begins with.
pub open spec fn lead(prefix: Seq<char>) -> Seq<char> {
    prefix.push(SEPARATOR)
}

/// Encoding distributes over concatenation.
pub proof fn lemma_encode_concat(a: Seq<char>, b: Seq<char>)
    ensures
        encode_utf8(a + b) == encode_utf8(a) + encode_utf8(b),
    decreases a.len(),
{
    if a.len() == 0 {
        assert(a + b =~= b);
        assert(encode_utf8(a) + encode_utf8(b) =~= encode_utf8(b));
    } else {
        assert((a + b).drop_first() =~= a.drop_first() + b);
        assert((a + b)[0] == a[0]);
        lemma_encode_concat(a.drop_first(), b);
        assert(encode_utf8(a + b) =~= encode_utf8(a) + encode_utf8(b));
    }
}

/// The separator is one byte long.
pub proof fn lemma_encode_separator()
    ensures
        encode_utf8(seq![SEPARATOR]) == seq![0x5fu8],
{
    let s = seq![SEPARATOR];
    assert(is_ascii_chars(s));
    is_ascii_chars_encode_utf8(s);
    assert(s[0] as u8 == 0x5fu8);
    assert(encode_utf8(s) =~= seq![0x5fu8]);
}

/// The bytes of a prefix with its separator: one more than the prefix has.
pub proof fn lemma_lead_bytes(prefix: Seq<char>)
    ensures
        encode_utf8(lead(prefix)) == encode_utf8(prefix).push(0x5fu8),
        byte_len(lead(prefix)) == byte_len(prefix) + 1,
{
    assert(lead(prefix) =~= prefix + seq![SEPARATOR]);
    lemma_encode_concat(prefix, seq![SEPARATOR]);
    lemma_encode_separator();
    assert(encode_utf8(prefix) + seq![0x5fu8] =~= encode_utf8(prefix).push(0x5fu8));
}

/// A text that begins with `head` begins, byte for byte, with the bytes of `head`.
pub proof fn lemma_prefix_bytes(head: Seq<char>, text: Seq<char>)
    requires
        head.is_prefix_of(text),
    ensures
        encode_utf8(head).is_prefix_of(encode_utf8(text)),
{
    let rest = text.subrange(head.len() as int, text.len() as int);
    assert(text =~= head + rest);
    lemma_encode_concat(head, rest);
}

/// A text whose bytes begin with the bytes of `head` begins with `head`.
pub proof fn lemma_bytes_prefix(head: Seq<char>, text: Seq<char>)
    requires
        encode_utf8(head).is_prefix_of(encode_utf8(text)),
    ensures
        head.is_prefix_of(text),
    decreases head.len(),
{
    if head.len() == 0 {
        assert(head =~= text.subrange(0, 0));
    } else {
        let hb = encode_utf8(head);
        let tb = encode_utf8(text);
        encode_utf8_first_scalar(head);
        assert(hb.len() >= 1);
        assert(text.len() > 0);
        encode_utf8_first_scalar(text);
        assert forall|i: int| 0 <= i < hb.len() implies hb[i] == tb[i] by {
            assert(hb[i] == tb.subrange(0, hb.len() as int)[i]);
        }
        assert(decode_first_scalar(hb) == decode_first_scalar(tb));
        char_u32_cast(head[0], head[0] as u32);
        char_u32_cast(text[0], text[0] as u32);
        assert(head[0] == text[0]);
        let first = encode_scalar(head[0] as u32);
        let hrest = encode_utf8(head.drop_first());
        let trest = encode_utf8(text.drop_first());
        assert(hb == first + hrest);
        assert(tb == first + trest);
        assert(hrest.len() <= trest.len());
        assert forall|i: int| 0 <= i < hrest.len() implies hrest[i] == trest[i] by {
            assert(hrest[i] == hb[first.len() + i]);
            assert(trest[i] == tb[first.len() + i]);
        }
        assert(hrest =~= trest.subrange(0, hrest.len() as int));
        lemma_bytes_prefix(head.drop_first(), text.drop_first());
        assert forall|i: int| 0 <= i < head.len() implies head[i] == text[i] by {
            if i > 0 {
                assert(head.drop_first()[i - 1] == text.drop_first().subrange(
                    0,
                    head.len() - 1,
                )[i - 1]);
            }
        }
        assert(head =~= text.subrange(0, head.len() as int));
    }
}

/// Whether `text` begins with `prefix` followed by the separator.
pub fn starts_with_lead(text: &str, prefix: &str) -> (found: bool)
    ensures
        found == lead(prefix@).is_prefix_of(text@),
{
    let t = text.as_bytes();
    let p = prefix.as_bytes();
    let ghost head = encode_utf8(lead(prefix@));
    proof {
        lemma_lead_bytes(prefix@);
        if lead(prefix@).is_prefix_of(text@) {
            lemma_prefix_bytes(lead(prefix@), text@);
        }
        if head.is_prefix_of(t@) {
            lemma_bytes_prefix(lead(prefix@), text@);
        }
    }
    if p.len() >= t.len() {
        return false;
    }
    let mut i: usize = 0;
    while i < p.len()
        invariant
            i <= p.len() < t.len(),
            head == p@.push(0x5fu8),
            head.is_prefix_of(t@) == lead(prefix@).is_prefix_of(text@),
            forall|j: int| 0 <= j < i ==> t@[j] == p@[j],
        decreases p.len() - i,
    {
        if t[i] != p[i] {
            proof {
                if head.is_prefix_of(t@) {
                    assert(head[i as int] == t@.subrange(0, head.len() as int)[i as int]);
                }
            }
            return false;
        }
        i += 1;
    }
    let found = t[p.len()] == 0x5fu8;
    proof {
        if found {
            assert(head =~= t@.subrange(0, head.len() as int));
        } else if head.is_prefix_of(t@) {
            assert(head[p@.len() as int] == t@.subrange(0, head.len() as int)[p@.len() as int]);
        }
    }
    found
}

} // verus!
