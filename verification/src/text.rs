//! Text in which every character stands for one byte.

use vstd::prelude::*;
use vstd::string::StrSliceExecFns;

verus! {

/// `Iterator::collect` of std, from characters into a string: the string of
/// exactly these characters, in order.
#[verifier::external_body]
pub(crate) fn string_from_chars(chars: &Vec<char>) -> (text: String)
    ensures
        text@ == chars@,
{
    chars.iter().collect()
}

/// `str::chars` of std, collected: the characters of the text, in order.
#[verifier::external_body]
pub(crate) fn chars_of(text: &str) -> (chars: Vec<char>)
    ensures
        chars@ == text@,
{
    text.chars().collect()
}

/// The text whose characters have the numbers of `bytes`, one for one.
pub open spec fn bytes_text(bytes: Seq<u8>) -> Seq<char> {
    Seq::new(bytes.len(), |i: int| bytes[i] as char)
}

/// The text whose characters have the numbers of the twenty bytes, one for
/// one.
pub fn text_of_bytes(bytes: &[u8; 20]) -> (text: String)
    ensures
        text@ == bytes_text(bytes@),
{
    let mut chars: Vec<char> = Vec::new();
    let mut i: usize = 0;
    while i < 20
        invariant
            i <= 20,
            chars@.len() == i,
            forall|j: int| 0 <= j < i ==> chars@[j] == bytes@[j] as char,
        decreases 20 - i,
    {
        chars.push(bytes[i] as char);
        i += 1;
    }
    proof {
        assert(chars@ =~= bytes_text(bytes@));
    }
    string_from_chars(&chars)
}

/// The text whose characters have the numbers of the bytes, one for one.
pub fn text_of_byte_vec(bytes: &Vec<u8>) -> (text: String)
    ensures
        text@ == bytes_text(bytes@),
{
    let mut chars: Vec<char> = Vec::new();
    let mut i: usize = 0;
    while i < bytes.len()
        invariant
            i <= bytes.len(),
            chars@.len() == i,
            forall|j: int| 0 <= j < i ==> chars@[j] == bytes@[j] as char,
        decreases bytes.len() - i,
    {
        chars.push(bytes[i] as char);
        i += 1;
    }
    proof {
        assert(chars@ =~= bytes_text(bytes@));
    }
    string_from_chars(&chars)
}

/// The bytes that stand for `bytes` where bytes travel as text: the UTF-8
/// form of the text whose characters have their numbers.
pub open spec fn spec_bytes_as_text(bytes: Seq<u8>) -> Seq<u8> {
    vstd::utf8::encode_utf8(bytes_text(bytes))
}

/// The bytes that stand for `bytes` where bytes travel as text.
pub fn bytes_as_text(bytes: &Vec<u8>) -> (encoded: Vec<u8>)
    ensures
        encoded@ == spec_bytes_as_text(bytes@),
{
    let text = text_of_byte_vec(bytes);
    text.as_str().as_bytes_vec()
}

/// The twenty bytes whose numbers the characters of `text` have, where it
/// has twenty characters and each of them has the number of a byte.
pub open spec fn spec_bytes_of_text(text: Seq<char>) -> Option<Seq<u8>> {
    if text.len() == 20 && forall|i: int| 0 <= i < 20 ==> (#[trigger] text[i]) as u32 <= 255 {
        Some(Seq::new(20, |i: int| text[i] as u8))
    } else {
        None
    }
}

/// The twenty bytes whose numbers the characters of `text` have, where it
/// has twenty characters and each of them has the number of a byte.
pub fn bytes_of_text(text: &str) -> (bytes: Option<[u8; 20]>)
    ensures
        match bytes {
            Some(bytes) => spec_bytes_of_text(text@) == Some(bytes@),
            None => spec_bytes_of_text(text@).is_none(),
        },
{
    let chars = chars_of(text);
    if chars.len() != 20 {
        return None;
    }
    let mut bytes: [u8; 20] = [0u8; 20];
    let mut i: usize = 0;
    while i < 20
        invariant
            i <= 20,
            chars@.len() == 20,
            chars@ == text@,
            forall|j: int| 0 <= j < i ==> (#[trigger] chars@[j]) as u32 <= 255,
            forall|j: int| 0 <= j < i ==> bytes@[j] == chars@[j] as u8,
        decreases 20 - i,
    {
        let c = chars[i];
        if c as u32 > 255 {
            return None;
        }
        bytes[i] = c as u8;
        i += 1;
    }
    proof {
        assert(bytes@ =~= Seq::new(20, |i: int| text@[i] as u8));
    }
    Some(bytes)
}

/// Writing bytes as text and reading the text back gives the bytes.
pub proof fn lemma_bytes_text_round_trip(bytes: Seq<u8>)
    requires
        bytes.len() == 20,
    ensures
        spec_bytes_of_text(bytes_text(bytes)) == Some(bytes),
{
    let text = bytes_text(bytes);
    assert forall|i: int| 0 <= i < 20 implies (#[trigger] text[i]) as u32 <= 255 && text[i] as u8
        == bytes[i] by {
        lemma_byte_char(bytes[i]);
    }
    assert(Seq::new(20, |i: int| text[i] as u8) =~= bytes);
}

/// The character with the number of a byte has that number.
pub proof fn lemma_byte_char(byte: u8)
    ensures
        (byte as char) as u32 == byte,
        (byte as char) as u8 == byte,
{
}

/// The array that holds twenty bytes.
pub open spec fn bytes_array(bytes: Seq<u8>) -> [u8; 20] {
    choose|array: [u8; 20]| array@ == bytes
}

/// Twenty bytes are held by the array that they came from.
pub proof fn lemma_bytes_array(array: [u8; 20])
    ensures
        bytes_array(array@) == array,
{
    let chosen = bytes_array(array@);
    assert(chosen@ == array@);
    assert(chosen =~= array);
}

} // verus!
