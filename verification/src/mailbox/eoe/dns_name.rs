//! DNS names: text of at most 32 bytes, zero padded on the wire.

use vstd::prelude::*;
use vstd::utf8::{
    char_is_scalar, char_u32_cast, decode_utf8, decode_utf8_encode_utf8, encode_scalar,
    encode_utf8, encode_utf8_decode_utf8, is_scalar, valid_utf8,
};

use crate::wire::{zeros, WireError};

verus! {

/// How many bytes a DNS name takes up on the wire, and how many it can hold at the most.
pub const DNS_NAME_LENGTH: usize = 32;

/// `heapless::String`, a string of bounded length. Only its text is spoken of, through
/// [`dns_text`].
#[verifier::external_type_specification]
#[verifier::external_body]
pub struct ExHeaplessString<const N: usize>(heapless::String<N>);

/// The error of `core::str::from_utf8`. Nothing is known of what it holds.
#[verifier::external_type_specification]
#[verifier::external_body]
pub struct ExUtf8Error(core::str::Utf8Error);

/// The text that a DNS name holds.
pub uninterp spec fn dns_text(name: heapless::String<DNS_NAME_LENGTH>) -> Seq<char>;

/// Trusted: `core::str::from_utf8` succeeds on valid UTF-8 and on nothing else, and hands out the
/// text that the bytes encode.
pub assume_specification[ core::str::from_utf8 ](v: &[u8]) -> (text: Result<
    &str,
    core::str::Utf8Error,
>)
    ensures
        text is Ok <==> valid_utf8(v@),
        text matches Ok(decoded) ==> encode_utf8(decoded@) == v@,
;

/// Trusted: `heapless::String::as_str` hands out the whole text that the string holds, and that
/// text, in UTF-8, is no longer than the capacity of the string.
#[verifier::external_body]
pub(crate) fn dns_name_as_str(name: &heapless::String<DNS_NAME_LENGTH>) -> (text: &str)
    ensures
        text@ == dns_text(*name),
        encode_utf8(text@).len() <= DNS_NAME_LENGTH,
{
    name.as_str()
}

/// Trusted: `heapless::String::try_from`, given a `&str`, makes a string that holds that text. It
/// fails if and only if the text, in UTF-8, is longer than the capacity of the string.
#[verifier::external_body]
pub(crate) fn dns_name_from_str(text: &str) -> (name: Result<
    heapless::String<DNS_NAME_LENGTH>,
    (),
>)
    ensures
        name is Ok <==> encode_utf8(text@).len() <= DNS_NAME_LENGTH,
        name matches Ok(stored) ==> dns_text(stored) == text@,
{
    heapless::String::try_from(text)
}

/// How many bytes stand before the first zero in `bytes`: all of them where there is none.
pub open spec fn text_len(bytes: Seq<u8>) -> nat
    decreases bytes.len(),
{
    if bytes.len() == 0 || bytes[0] == 0 {
        0
    } else {
        1 + text_len(bytes.drop_first())
    }
}

/// The bytes before the first zero in `bytes`.
pub open spec fn text_bytes(bytes: Seq<u8>) -> Seq<u8> {
    bytes.take(text_len(bytes) as int)
}

/// `text` up to its first NUL character; the whole of it where there is none.
pub open spec fn until_nul(text: Seq<char>) -> Seq<char>
    decreases text.len(),
{
    if text.len() == 0 || text[0] == '\0' {
        seq![]
    } else {
        seq![text[0]] + until_nul(text.drop_first())
    }
}

/// Counts the bytes before the first zero.
fn count_text(bytes: &[u8]) -> (n: usize)
    ensures
        n == text_len(bytes@),
        n <= bytes@.len(),
{
    let mut n: usize = 0;
    while n < bytes.len() && bytes[n] != 0
        invariant
            n <= bytes@.len(),
            forall|i: int| 0 <= i < n ==> bytes@[i] != 0,
        decreases bytes@.len() - n,
    {
        n += 1;
    }
    proof {
        lemma_text_len(bytes@, n as int);
    }
    n
}

/// Reads the DNS name that fills a field of the payload: the text before the first zero byte.
pub(crate) fn read_dns_name(field: &[u8]) -> (name: Result<
    heapless::String<DNS_NAME_LENGTH>,
    WireError,
>)
    requires
        field@.len() <= DNS_NAME_LENGTH,
    ensures
        match name {
            Ok(stored) => {
                &&& valid_utf8(text_bytes(field@))
                &&& dns_text(stored) == decode_utf8(text_bytes(field@))
            },
            Err(error) => {
                &&& !valid_utf8(text_bytes(field@))
                &&& error == WireError::InvalidUtf8
            },
        },
{
    let end: usize = count_text(field);
    let front = &field[0..end];
    assert(front@ =~= text_bytes(field@));
    match core::str::from_utf8(front) {
        Ok(text) => {
            proof {
                encode_utf8_decode_utf8(text@);
            }
            match dns_name_from_str(text) {
                Ok(name) => Ok(name),
                Err(()) => Err(WireError::ArrayLength),
            }
        },
        Err(_) => Err(WireError::InvalidUtf8),
    }
}

/// What the counting of the bytes before the first zero comes to.
pub(crate) proof fn lemma_text_len(bytes: Seq<u8>, n: int)
    requires
        0 <= n <= bytes.len(),
        forall|i: int| 0 <= i < n ==> bytes[i] != 0,
        n == bytes.len() || bytes[n] == 0,
    ensures
        text_len(bytes) == n,
    decreases n,
{
    if n > 0 {
        lemma_text_len(bytes.drop_first(), n - 1);
    }
}

/// The text in `bytes` holds no zero.
proof fn lemma_text_is_zero_free(bytes: Seq<u8>)
    ensures
        forall|i: int| 0 <= i < text_bytes(bytes).len() ==> text_bytes(bytes)[i] != 0,
        text_bytes(bytes).len() == text_len(bytes),
        text_len(bytes) <= bytes.len(),
    decreases bytes.len(),
{
    if bytes.len() > 0 && bytes[0] != 0 {
        lemma_text_is_zero_free(bytes.drop_first());
        assert(text_bytes(bytes) =~= seq![bytes[0]] + text_bytes(bytes.drop_first()));
    }
}

/// Zero-free bytes in front make a text longer by their number.
proof fn lemma_zero_free_front(front: Seq<u8>, bytes: Seq<u8>)
    requires
        forall|i: int| 0 <= i < front.len() ==> front[i] != 0,
    ensures
        text_len(front + bytes) == front.len() + text_len(bytes),
    decreases front.len(),
{
    if front.len() == 0 {
        assert(front + bytes =~= bytes);
    } else {
        lemma_zero_free_front(front.drop_first(), bytes);
        assert((front + bytes).drop_first() =~= front.drop_first() + bytes);
    }
}

/// In UTF-8 only the NUL character has a zero byte.
proof fn lemma_zero_byte_is_nul(scalar: u32)
    requires
        is_scalar(scalar),
    ensures
        scalar == 0 ==> encode_scalar(scalar) == seq![0u8],
        scalar != 0 ==> forall|i: int|
            0 <= i < encode_scalar(scalar).len() ==> encode_scalar(scalar)[i] != 0,
{
    assert(scalar <= 0x7F ==> (scalar & 0x7F) as u8 == scalar) by (bit_vector);
    assert(0xC0u8 | ((scalar >> 6) & 0x1F) as u8 != 0) by (bit_vector);
    assert(0xE0u8 | ((scalar >> 12) & 0x0F) as u8 != 0) by (bit_vector);
    assert(0xF0u8 | ((scalar >> 18) & 0x7) as u8 != 0) by (bit_vector);
    assert(0x80u8 | (scalar & 0x3F) as u8 != 0) by (bit_vector);
    assert(0x80u8 | ((scalar >> 6) & 0x3F) as u8 != 0) by (bit_vector);
    assert(0x80u8 | ((scalar >> 12) & 0x3F) as u8 != 0) by (bit_vector);
}

/// Of a text that is encoded and zero padded, what stands before the first zero is the encoding
/// of what stands before the first NUL character.
pub(crate) proof fn lemma_text_of_padded(text: Seq<char>, padding: nat)
    ensures
        text_bytes(encode_utf8(text) + zeros(padding)) == encode_utf8(until_nul(text)),
    decreases text.len(),
{
    let tail = zeros(padding);
    if text.len() == 0 {
        assert(encode_utf8(text) + tail =~= tail);
    } else {
        let first = text[0];
        let head = encode_scalar(first as u32);
        let rest = encode_utf8(text.drop_first());
        char_is_scalar(first);
        lemma_zero_byte_is_nul(first as u32);
        assert(encode_utf8(text) + tail =~= head + (rest + tail));
        if first == '\0' {
            assert((head + (rest + tail))[0] == 0);
        } else {
            char_u32_cast(first, first as u32);
            char_u32_cast('\0', '\0' as u32);
            lemma_zero_free_front(head, rest + tail);
            lemma_text_of_padded(text.drop_first(), padding);
            lemma_text_is_zero_free(rest + tail);
            assert(until_nul(text).drop_first() =~= until_nul(text.drop_first()));
            assert(text_bytes(head + (rest + tail)) =~= head + text_bytes(rest + tail));
        }
    }
}

/// A text without a NUL character ends where it ends.
pub(crate) proof fn lemma_until_nul_keeps(text: Seq<char>)
    requires
        !text.contains('\0'),
    ensures
        until_nul(text) == text,
    decreases text.len(),
{
    if text.len() > 0 {
        assert(text.contains(text[0]));
        assert forall|c: char| text.drop_first().contains(c) implies text.contains(c) by {
            let i = choose|i: int| 0 <= i < text.drop_first().len() && text.drop_first()[i] == c;
            assert(text[i + 1] == c);
        }
        lemma_until_nul_keeps(text.drop_first());
        assert(seq![text[0]] + text.drop_first() =~= text);
    } else {
        assert(text =~= seq![]);
    }
}

/// A name that is read holds no NUL character and fits the field that it was read from.
pub(crate) proof fn lemma_read_text(field: Seq<u8>)
    requires
        valid_utf8(text_bytes(field)),
    ensures
        until_nul(decode_utf8(text_bytes(field))) == decode_utf8(text_bytes(field)),
        encode_utf8(decode_utf8(text_bytes(field))).len() <= field.len(),
{
    let kept = text_bytes(field);
    let text = decode_utf8(kept);
    lemma_text_is_zero_free(field);
    decode_utf8_encode_utf8(kept);
    lemma_zero_free_front(kept, seq![]);
    assert(kept + seq![] =~= kept);
    assert(kept + zeros(0) =~= kept);
    lemma_text_of_padded(text, 0);
    assert(text_bytes(kept) =~= kept);
    encode_utf8_decode_utf8(until_nul(text));
}

} // verus!
