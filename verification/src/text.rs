//! Text as it crosses the wire: bytes read as UTF-8, and lists rendered for a log line.

use vstd::prelude::*;
use vstd::string::*;
use vstd::utf8::*;

verus! {

/// The text that lossy decoding makes of bytes that are not valid UTF-8: the text in which
/// every ill-formed sequence has been replaced by U+FFFD.
pub uninterp spec fn utf8_lossy(bytes: Seq<u8>) -> Seq<char>;

/// The text that `bytes` stand for: their decoding where they are valid UTF-8, their lossy
/// rendering where they are not.
pub open spec fn text_of_bytes(bytes: Seq<u8>) -> Seq<char> {
    if valid_utf8(bytes) {
        decode_utf8(bytes)
    } else {
        utf8_lossy(bytes)
    }
}

/// `texts` one after the other, with `separator` between each two neighbours.
pub open spec fn joined(texts: Seq<Seq<char>>, separator: Seq<char>) -> Seq<char>
    decreases texts.len(),
{
    if texts.len() == 0 {
        Seq::empty()
    } else if texts.len() == 1 {
        texts[0]
    } else {
        joined(texts.drop_last(), separator) + separator + texts.last()
    }
}

/// The view of each string of `texts`, in order.
pub open spec fn views_of(texts: Seq<String>) -> Seq<Seq<char>> {
    texts.map_values(|text: String| text@)
}

/// Calls `String::from_utf8_lossy` and takes ownership of what it returns.
///
/// Trusted: valid UTF-8 comes back as the string it encodes, unchanged; of other input only
/// that the text depends on the bytes alone, which `utf8_lossy` names.
#[verifier::external_body]
fn lossy_string(bytes: &[u8]) -> (text: String)
    ensures
        valid_utf8(bytes@) ==> text@ == decode_utf8(bytes@),
        !valid_utf8(bytes@) ==> text@ == utf8_lossy(bytes@),
{
    String::from_utf8_lossy(bytes).into_owned()
}

/// Reads `bytes` as text, replacing what is not UTF-8.
pub fn text_from_bytes(bytes: &[u8]) -> (text: String)
    ensures
        text@ == text_of_bytes(bytes@),
{
    lossy_string(bytes)
}

/// Joins `texts` with `separator` between neighbours.
pub fn join(texts: &Vec<String>, separator: &str) -> (line: String)
    ensures
        line@ == joined(views_of(texts@), separator@),
{
    let mut line = String::new();
    let mut i: usize = 0;
    while i < texts.len()
        invariant
            i <= texts@.len(),
            line@ == joined(views_of(texts@).subrange(0, i as int), separator@),
        decreases texts@.len() - i,
    {
        proof {
            let done = views_of(texts@).subrange(0, i as int);
            let next = views_of(texts@).subrange(0, i + 1);
            assert(next.drop_last() =~= done);
            assert(next.last() == texts@[i as int]@);
            if i == 0 {
                assert(line@ + texts@[i as int]@ =~= next[0]);
            }
        }
        if i > 0 {
            line.append(separator);
        }
        line.append(texts[i].as_str());
        i += 1;
    }
    proof {
        assert(views_of(texts@).subrange(0, i as int) =~= views_of(texts@));
    }
    line
}

/// Whether `text` is empty or ends in a character other than NUL.
pub open spec fn ends_without_nul(text: Seq<char>) -> bool {
    text.len() == 0 || text.last() != '\0'
}

/// The last octet of a scalar's encoding is zero only for the scalar zero.
proof fn lemma_scalar_last_octet(scalar: u32)
    requires
        is_scalar(scalar),
    ensures
        encode_scalar(scalar).len() > 0,
        encode_scalar(scalar).last() == 0 <==> scalar == 0,
{
    if has_width_1_encoding(scalar) {
        assert((scalar & 0x7F) as u8 == 0 <==> scalar == 0) by (bit_vector)
            requires
                scalar <= 0x7F,
        ;
    } else {
        assert(0x80u8 | (scalar & 0x3F) as u8 != 0) by (bit_vector);
    }
}

/// The UTF-8 bytes of a text end in a zero octet exactly where the text ends in NUL.
pub proof fn lemma_utf8_last_octet(text: Seq<char>)
    requires
        text.len() > 0,
    ensures
        encode_utf8(text).len() > 0,
        encode_utf8(text).last() == 0 <==> text.last() == '\0',
    decreases text.len(),
{
    let scalar = text[0] as u32;
    char_is_scalar(text[0]);
    lemma_scalar_last_octet(scalar);
    if text.len() == 1 {
        assert(encode_utf8(text.drop_first()).len() == 0);
        assert(encode_utf8(text) =~= encode_scalar(scalar));
        assert('\0' as u32 == 0);
        char_u32_cast(text[0], scalar);
    } else {
        lemma_utf8_last_octet(text.drop_first());
        assert(text.drop_first().last() == text.last());
    }
}

} // verus!
