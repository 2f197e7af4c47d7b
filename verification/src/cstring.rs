//! Text in the shape that C functions take and give: bytes that a zero byte ends.

use vstd::prelude::*;
use vstd::string::*;
use vstd::utf8::*;

verus! {

/// The bytes before the first zero byte.
pub open spec fn until_nul(bytes: Seq<u8>) -> Seq<u8>
    decreases bytes.len(),
{
    if bytes.len() == 0 || bytes[0] == 0 {
        Seq::empty()
    } else {
        seq![bytes[0]] + until_nul(bytes.skip(1))
    }
}

/// What `String::from_utf8_lossy` makes of bytes.
pub uninterp spec fn lossy_text(bytes: Seq<u8>) -> Seq<char>;

/// `String::from_utf8_lossy`: the text that the bytes encode in UTF-8, where they do. Where they
/// do not, what stands in for the faulty bytes is not said here.
#[verifier::external_body]
fn from_utf8_lossy(bytes: &[u8]) -> (text: String)
    ensures
        text@ == lossy_text(bytes@),
        valid_utf8(bytes@) ==> text@ == decode_utf8(bytes@),
{
    String::from_utf8_lossy(bytes).into_owned()
}

proof fn lemma_until_nul(bytes: Seq<u8>, end: int)
    requires
        0 <= end <= bytes.len(),
        end < bytes.len() ==> bytes[end] == 0,
        forall|i: int| 0 <= i < end ==> bytes[i] != 0,
    ensures
        until_nul(bytes) == bytes.take(end),
    decreases bytes.len(),
{
    if end > 0 {
        assert(forall|i: int| 0 <= i < end - 1 ==> bytes.skip(1)[i] == bytes[i + 1]);
        lemma_until_nul(bytes.skip(1), end - 1);
        assert(bytes.take(end) =~= seq![bytes[0]] + bytes.skip(1).take(end - 1));
    } else {
        assert(bytes.take(0) =~= Seq::<u8>::empty());
    }
}

fn bytes_until_nul(bytes: &[u8]) -> (prefix: Vec<u8>)
    ensures
        prefix@ == until_nul(bytes@),
{
    let mut prefix: Vec<u8> = Vec::new();
    let mut i: usize = 0;
    while i < bytes.len() && bytes[i] != 0
        invariant
            i <= bytes@.len(),
            prefix@ == bytes@.take(i as int),
            forall|k: int| 0 <= k < i ==> bytes@[k] != 0,
        decreases bytes.len() - i,
    {
        prefix.push(bytes[i]);
        i = i + 1;
        assert(prefix@ =~= bytes@.take(i as int));
    }
    proof {
        lemma_until_nul(bytes@, i as int);
    }
    prefix
}

/// The text in an array that a zero byte ends.
pub fn cstr_array_to_string(bytes: &[u8]) -> (text: String)
    requires
        bytes@.contains(0),
    ensures
        text@ == lossy_text(until_nul(bytes@)),
        valid_utf8(until_nul(bytes@)) ==> text@ == decode_utf8(until_nul(bytes@)),
{
    from_utf8_lossy(bytes_until_nul(bytes).as_slice())
}

/// The buffer that makes a directory from `template`: its bytes and a zero byte.
pub fn mkdtemp_buffer(template: &str) -> (buffer: Vec<u8>)
    ensures
        buffer@ == encode_utf8(template@).push(0),
{
    let mut buffer: Vec<u8> = template.as_bytes_vec();
    buffer.push(0);
    buffer
}

/// The path of the directory that was made, from the buffer that held the template.
pub fn mkdtemp_path(buffer: &[u8]) -> (path: String)
    requires
        buffer@.contains(0),
    ensures
        path@ == lossy_text(until_nul(buffer@)),
        valid_utf8(until_nul(buffer@)) ==> path@ == decode_utf8(until_nul(buffer@)),
{
    from_utf8_lossy(bytes_until_nul(buffer).as_slice())
}

/// Only the zero character has a zero byte in its encoding.
proof fn lemma_encoding_without_nul(text: Seq<char>)
    requires
        !text.contains('\0'),
    ensures
        forall|i: int| 0 <= i < encode_utf8(text).len() ==> encode_utf8(text)[i] != 0,
    decreases text.len(),
{
    if text.len() > 0 {
        let rest = text.drop_first();
        let first: char = text[0];
        let scalar: u32 = first as u32;
        assert(text.contains(first));
        char_is_scalar(first);
        assert(scalar != 0) by {
            if scalar == 0 {
                char_u32_cast(first, 0);
            }
        }
        assert(!rest.contains('\0')) by {
            assert forall|i: int| 0 <= i < rest.len() implies rest[i] != '\0' by {
                assert(text.contains(text[i + 1]));
            }
        }
        lemma_encoding_without_nul(rest);
        assert(0 < scalar <= 0x7F ==> (scalar & 0x7F) as u8 != 0) by (bit_vector);
        assert(0xC0 | ((scalar >> 6) & 0x1F) as u8 != 0) by (bit_vector);
        assert(0xE0 | ((scalar >> 12) & 0x0F) as u8 != 0) by (bit_vector);
        assert(0xF0 | ((scalar >> 18) & 0x7) as u8 != 0) by (bit_vector);
        assert(0x80 | (scalar & 0x3F) as u8 != 0) by (bit_vector);
        assert(0x80 | ((scalar >> 6) & 0x3F) as u8 != 0) by (bit_vector);
        assert(0x80 | ((scalar >> 12) & 0x3F) as u8 != 0) by (bit_vector);
        let head = encode_scalar(scalar);
        assert forall|i: int| 0 <= i < encode_utf8(text).len() implies encode_utf8(text)[i] != 0 by {
            if i < head.len() {
                assert(encode_utf8(text)[i] == head[i]);
            } else {
                assert(encode_utf8(text)[i] == encode_utf8(rest)[i - head.len()]);
            }
        }
    }
}

/// Reading a text without zero characters back from its buffer gives the text.
pub proof fn law_buffer_reads_back(text: Seq<char>)
    requires
        !text.contains('\0'),
    ensures
        valid_utf8(until_nul(encode_utf8(text).push(0))),
        decode_utf8(until_nul(encode_utf8(text).push(0))) == text,
{
    let bytes = encode_utf8(text);
    lemma_encoding_without_nul(text);
    lemma_until_nul(bytes.push(0), bytes.len() as int);
    assert(bytes.push(0).take(bytes.len() as int) =~= bytes);
    encode_utf8_valid_utf8(text);
    encode_utf8_decode_utf8(text);
}

/// A text ends at the first zero byte, whatever comes behind it.
pub proof fn law_text_ends_at_nul(text: Seq<u8>, rest: Seq<u8>)
    requires
        !text.contains(0),
    ensures
        until_nul(text + seq![0u8] + rest) == text,
{
    let bytes = text + seq![0u8] + rest;
    assert forall|i: int| 0 <= i < text.len() implies bytes[i] != 0 by {
        assert(text.contains(text[i]));
    }
    lemma_until_nul(bytes, text.len() as int);
    assert(bytes.take(text.len() as int) =~= text);
}

} // verus!
