//! The alphabet and the generator of random segments.

use vstd::prelude::*;
use vstd::utf8::*;
use crate::text::{byte_len, lead, lemma_encode_concat, lemma_lead_bytes, SEPARATOR};

verus! {

/// The number of symbols after the separator when a kind names none.
pub const DEFAULT_SEGMENT_LENGTH: usize = 21;

/// The longest text, in bytes, that the generator is asked to make.
pub const MAX_TEXT_LENGTH: usize = usize::MAX / 8;

/// One of the 62 symbols: a digit, a lowercase or an uppercase letter.
pub open spec fn is_symbol(c: char) -> bool {
    ('0' <= c && c <= '9') || ('a' <= c && c <= 'z') || ('A' <= c && c <= 'Z')
}

/// A segment of `length` symbols.
pub open spec fn is_segment(segment: Seq<char>, length: nat) -> bool {
    &&& segment.len() == length
    &&& forall|i: int| 0 <= i < segment.len() ==> is_symbol(#[trigger] segment[i])
}

/// The alphabet in its fixed order: digits, then lowercase, then uppercase.
pub open spec fn alphabet() -> Seq<char> {
    "0123456789abcdefghijklmnopqrstuvwxyzABCDEFGHIJKLMNOPQRSTUVWXYZ"@
}

/// The alphabet holds the 62 symbols, each once, and nothing else.
pub proof fn lemma_alphabet()
    ensures
        alphabet().len() == 62,
        forall|c: char| alphabet().contains(c) <==> is_symbol(c),
        forall|i: int, j: int| 0 <= i < j < 62 ==> alphabet()[i] != alphabet()[j],
{
    reveal_strlit("0123456789abcdefghijklmnopqrstuvwxyzABCDEFGHIJKLMNOPQRSTUVWXYZ");
    let a = alphabet();
    assert forall|c: char| is_symbol(c) implies a.contains(c) by {
        let k: int = if '0' <= c && c <= '9' {
            c as int - '0' as int
        } else if 'a' <= c && c <= 'z' {
            c as int - 'a' as int + 10
        } else {
            c as int - 'A' as int + 36
        };
        assert(a[k] == c);
    }
    assert forall|c: char| a.contains(c) implies is_symbol(c) by {
        let k = choose|k: int| 0 <= k < a.len() && a[k] == c;
        assert(is_symbol(a[k]));
    }
}

/// The alphabet as a table to draw from.
pub fn symbols() -> (table: [char; 62])
    ensures
        table@ == alphabet(),
{
    let table: [char; 62] = [
        '0', '1', '2', '3', '4', '5', '6', '7', '8', '9', 'a', 'b', 'c', 'd', 'e', 'f', 'g', 'h',
        'i', 'j', 'k', 'l', 'm', 'n', 'o', 'p', 'q', 'r', 's', 't', 'u', 'v', 'w', 'x', 'y', 'z',
        'A', 'B', 'C', 'D', 'E', 'F', 'G', 'H', 'I', 'J', 'K', 'L', 'M', 'N', 'O', 'P', 'Q', 'R',
        'S', 'T', 'U', 'V', 'W', 'X', 'Y', 'Z',
    ];
    proof {
        reveal_strlit("0123456789abcdefghijklmnopqrstuvwxyzABCDEFGHIJKLMNOPQRSTUVWXYZ");
        assert(table@ =~= alphabet());
    }
    table
}

/// `nanoid::format` with nanoid's default random source, `nanoid::rngs::default`.
///
/// The call draws random bytes until `size` of them have picked a symbol of
/// `alphabet`, and returns the symbols picked. Which symbols come out depends
/// on chance; stated here is what holds of every outcome: the result has
/// `size` characters and each is a member of `alphabet`. Left out are the
/// inputs on which the call does not return (`size` zero, an alphabet whose
/// characters are longer than a byte) or overflows (`8 * size`, a table longer
/// than 255). The random source stops the process where the system has no
/// entropy to give.
#[verifier::external_body]
fn nanoid_format(alphabet: &[char], size: usize) -> (segment: String)
    requires
        0 < alphabet@.len() <= 255,
        is_ascii_chars(alphabet@),
        0 < size <= usize::MAX / 8,
    ensures
        segment@.len() == size,
        forall|i: int| 0 <= i < segment@.len() ==> alphabet@.contains(#[trigger] segment@[i]),
{
    nanoid::format(nanoid::rngs::default, alphabet, size)
}

/// A fresh random segment: `length` symbols of the alphabet.
///
/// A length of zero gives the empty segment.
pub fn generate(length: usize) -> (segment: String)
    requires
        length <= MAX_TEXT_LENGTH,
    ensures
        is_segment(segment@, length as nat),
{
    if length == 0 {
        String::new()
    } else {
        let table = symbols();
        proof {
            lemma_alphabet();
            assert forall|i: int| 0 <= i < table@.len() implies '\0' <= #[trigger] table@[i]
                <= '\u{7f}' by {
                assert(table@.contains(table@[i]));
                assert(is_symbol(table@[i]));
            }
        }
        nanoid_format(table.as_slice(), length)
    }
}

/// What an identifier made from `prefix` and `segment` reads: the prefix, the
/// separator, the segment.
pub open spec fn compose_spec(prefix: Seq<char>, segment: Seq<char>) -> Seq<char> {
    lead(prefix) + segment
}

/// Whether `text` is `prefix`, the separator and a segment of `length` symbols.
pub open spec fn is_fresh_text(text: Seq<char>, prefix: Seq<char>, length: nat) -> bool {
    &&& text.len() == prefix.len() + 1 + length
    &&& lead(prefix).is_prefix_of(text)
    &&& is_segment(text.subrange(prefix.len() as int + 1, text.len() as int), length)
}

/// Joins a prefix and a segment into an identifier's text.
pub fn compose(prefix: &str, segment: &str) -> (text: String)
    ensures
        text@ == compose_spec(prefix@, segment@),
{
    let mut text = String::from_str(prefix);
    text.append("_");
    proof {
        reveal_strlit("_");
        assert("_"@ =~= seq![SEPARATOR]);
        assert(prefix@ + seq![SEPARATOR] =~= lead(prefix@));
    }
    text.append(segment);
    text
}

/// A segment of symbols takes one byte for each symbol.
pub proof fn lemma_segment_bytes(segment: Seq<char>, length: nat)
    requires
        is_segment(segment, length),
    ensures
        byte_len(segment) == length,
{
    assert(is_ascii_chars(segment)) by {
        assert forall|i: int| 0 <= i < segment.len() implies '\0' <= #[trigger] segment[i]
            <= '\u{7f}' by {
            assert(is_symbol(segment[i]));
        }
    }
    is_ascii_chars_encode_utf8(segment);
}

/// A prefix, the separator and a segment of symbols make a fresh text, whose
/// length in bytes is that of the prefix, one for the separator, and one for
/// each symbol.
pub proof fn lemma_compose_is_fresh(prefix: Seq<char>, segment: Seq<char>, length: nat)
    requires
        is_segment(segment, length),
    ensures
        is_fresh_text(compose_spec(prefix, segment), prefix, length),
        byte_len(compose_spec(prefix, segment)) == byte_len(prefix) + 1 + length,
{
    let text = compose_spec(prefix, segment);
    assert(text.subrange(0, lead(prefix).len() as int) =~= lead(prefix));
    assert(text.subrange(prefix.len() as int + 1, text.len() as int) =~= segment);
    lemma_encode_concat(lead(prefix), segment);
    lemma_lead_bytes(prefix);
    lemma_segment_bytes(segment, length);
}

} // verus!
