//! How a text is stored: its length in bytes as four little-endian bytes,
//! then the bytes of its UTF-8 form.

use vstd::bytes::*;
use vstd::prelude::*;
use vstd::string::*;
use vstd::utf8::*;

verus! {

/// Number of bytes that announce a stored text's length.
pub const LEN_PREFIX: usize = 4;

/// Whether a text can be stored: its length in bytes must fit the four
/// bytes that announce it.
pub open spec fn text_is_storable(text: Seq<char>) -> bool {
    encode_utf8(text).len() <= u32::MAX
}

/// The stored form of a text.
pub open spec fn string_bytes(text: Seq<char>) -> Seq<u8> {
    spec_u32_to_le_bytes(encode_utf8(text).len() as u32) + encode_utf8(text)
}

/// The length that the first four bytes of `data` announce.
pub open spec fn announced_len(data: Seq<u8>) -> int {
    spec_u32_from_le_bytes(data.subrange(0, 4)) as int
}

/// The bytes that follow the announced length and are covered by it.
pub open spec fn announced_bytes(data: Seq<u8>) -> Seq<u8> {
    data.subrange(4, 4 + announced_len(data))
}

/// Whether `data` begins with a stored text: the length is there, as many
/// bytes follow as it announces, and they are UTF-8.
pub open spec fn starts_with_string(data: Seq<u8>) -> bool {
    &&& data.len() >= 4
    &&& 4 + announced_len(data) <= data.len()
    &&& valid_utf8(announced_bytes(data))
}

/// The text that `data` begins with, where it begins with one.
pub open spec fn leading_string(data: Seq<u8>) -> Seq<char> {
    decode_utf8(announced_bytes(data))
}

/// The number of bytes that the text at the front of `data` takes.
pub open spec fn leading_string_size(data: Seq<u8>) -> int {
    4 + announced_len(data)
}

/// Reads a text from the front of `data` by `deserialize` of borsh's
/// `BorshDeserialize` for `String`, which the ledger framework hands on
/// under the name `anchor_lang::AnchorDeserialize`. Not proved, but taken
/// from borsh: it reads a `u32` in little-endian order, then that many
/// bytes, and gives the text exactly when both are there and the bytes are
/// UTF-8. Bytes after them play no part.
#[verifier::external_body]
fn borsh_string(data: &[u8]) -> (text: Option<String>)
    ensures
        text is Some <==> starts_with_string(data@),
        text is Some ==> text.unwrap()@ == leading_string(data@),
{
    let mut rest: &[u8] = data;
    match <String as anchor_lang::AnchorDeserialize>::deserialize(&mut rest) {
        Ok(text) => Some(text),
        Err(_) => None,
    }
}

/// Reads the text at the front of `data`. Gives the text and the number of
/// bytes it took, or nothing where `data` does not begin with a stored text.
pub fn read_string(data: &[u8]) -> (found: Option<(String, usize)>)
    ensures
        found is Some <==> starts_with_string(data@),
        found matches Some((text, used)) ==> {
            &&& text@ == leading_string(data@)
            &&& used == leading_string_size(data@)
        },
{
    match borsh_string(data) {
        Some(text) => {
            let written: &str = text.as_str();
            proof {
                decode_utf8_encode_utf8(announced_bytes(data@));
                assert(written.spec_bytes() == announced_bytes(data@));
                assert(announced_bytes(data@).len() == announced_len(data@));
                assert(data@.len() == data.len());
            }
            let used: usize = LEN_PREFIX + written.len();
            Some((text, used))
        },
        None => None,
    }
}

/// Appends the stored form of `text` to `out`.
pub fn write_string(out: &mut Vec<u8>, text: &str)
    requires
        text_is_storable(text@),
    ensures
        final(out)@ == old(out)@ + string_bytes(text@),
{
    let bytes = text.as_bytes();
    let len: u32 = bytes.len() as u32;
    let mut prefix = u32_to_le_bytes(len);
    out.append(&mut prefix);
    out.extend_from_slice(bytes);
}

/// A text that was written is read back, whatever follows it.
pub proof fn lemma_string_round_trip(text: Seq<char>, rest: Seq<u8>)
    requires
        text_is_storable(text),
    ensures
        starts_with_string(string_bytes(text) + rest),
        leading_string(string_bytes(text) + rest) == text,
        leading_string_size(string_bytes(text) + rest) == string_bytes(text).len(),
        string_bytes(text).len() == 4 + encode_utf8(text).len(),
{
    let body = encode_utf8(text);
    let data = string_bytes(text) + rest;
    lemma_auto_spec_u32_to_from_le_bytes();
    assert(data.subrange(0, 4) =~= spec_u32_to_le_bytes(body.len() as u32));
    assert(announced_bytes(data) =~= body);
    encode_utf8_valid_utf8(text);
    encode_utf8_decode_utf8(text);
}

/// What is read from the front of `data` is what was written there.
pub proof fn lemma_string_is_prefix(data: Seq<u8>)
    requires
        starts_with_string(data),
    ensures
        text_is_storable(leading_string(data)),
        string_bytes(leading_string(data)) == data.subrange(0, leading_string_size(data)),
{
    let body = announced_bytes(data);
    decode_utf8_encode_utf8(body);
    lemma_auto_spec_u32_to_from_le_bytes();
    assert(string_bytes(leading_string(data)) =~= data.subrange(0, 4) + body);
    assert(data.subrange(0, 4) + body =~= data.subrange(0, leading_string_size(data)));
}

} // verus!
