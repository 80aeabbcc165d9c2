//! What all wire formats of this crate share: the errors, little endian words and the writing
//! of bytes into a caller's buffer.

use vstd::prelude::*;

verus! {

/// Why a value could not be read from, or written to, the wire.
#[derive(Clone, Copy, Debug, PartialEq, Eq, Structural)]
pub enum WireError {
    /// The buffer to read from ends before the value does.
    ReadBufferTooShort,
    /// The buffer to write into is too short for the packed value.
    WriteBufferTooShort,
    /// The bytes stand for no value of the type.
    InvalidValue,
    /// A sequence does not have the length that its type asks for.
    ArrayLength,
    /// Text is not valid UTF-8.
    InvalidUtf8,
}

/// `n` zero bytes.
pub open spec fn zeros(n: nat) -> Seq<u8> {
    Seq::new(n, |i: int| 0u8)
}

/// The first `width` of `bytes`, or all of them and as many zeros as it takes to make `width`.
pub open spec fn padded(bytes: Seq<u8>, width: nat) -> Seq<u8> {
    Seq::new(width, |i: int| if i < bytes.len() { bytes[i] } else { 0u8 })
}

/// The word that two bytes make, the low one first.
pub open spec fn word_of(low: u8, high: u8) -> u16 {
    (low + 256 * high) as u16
}

/// The two bytes of a word, the low one first.
pub open spec fn bytes_of_word(word: u16) -> Seq<u8> {
    seq![(word % 256) as u8, (word / 256) as u8]
}

/// A buffer that held `before`, with its front overwritten by `bytes`.
pub open spec fn overwritten(before: Seq<u8>, bytes: Seq<u8>) -> Seq<u8> {
    bytes + before.skip(bytes.len() as int)
}

/// What it means to pack `bytes` into the front of a buffer that held `before` and holds
/// `after`: where they fit, they are what is written, and the rest of the buffer stays as it
/// is; where they do not, nothing is written and the error says so.
pub open spec fn packs(
    bytes: Seq<u8>,
    before: Seq<u8>,
    after: Seq<u8>,
    written: Result<&[u8], WireError>,
) -> bool {
    if bytes.len() <= before.len() {
        &&& written matches Ok(front) && front@ == bytes
        &&& after == overwritten(before, bytes)
    } else {
        &&& written == Err::<&[u8], WireError>(WireError::WriteBufferTooShort)
        &&& after == before
    }
}

/// Reads the word that two bytes make, the low one first.
pub(crate) fn read_word(low: u8, high: u8) -> (word: u16)
    ensures
        word == word_of(low, high),
{
    low as u16 + 256 * (high as u16)
}

/// Splits a word into its two bytes, the low one first.
pub(crate) fn split_word(word: u16) -> (bytes: (u8, u8))
    ensures
        seq![bytes.0, bytes.1] == bytes_of_word(word),
{
    ((word % 256) as u8, (word / 256) as u8)
}

/// Overwrites the bytes of `buf` from `at` on with `bytes`; the rest stays as it is.
pub(crate) fn write_at(buf: &mut [u8], at: usize, bytes: &[u8])
    requires
        at + bytes@.len() <= old(buf)@.len(),
    ensures
        final(buf)@ == old(buf)@.take(at as int) + bytes@ + old(buf)@.skip(at + bytes@.len()),
{
    let n: usize = bytes.len();
    let len: usize = buf.len();
    let ghost start = buf@;
    let mut i: usize = 0;
    while i < n
        invariant
            n == bytes@.len(),
            len == start.len(),
            at + n <= len,
            i <= n,
            buf@ == start.take(at as int) + bytes@.take(i as int) + start.skip(at + i),
        decreases n - i,
    {
        buf[at + i] = bytes[i];
        i += 1;
        assert(buf@ =~= start.take(at as int) + bytes@.take(i as int) + start.skip(at + i));
    }
    assert(bytes@.take(n as int) =~= bytes@);
}

/// Sets the first `n` bytes of `buf` to zero; the rest stays as it is.
pub(crate) fn zero_front(buf: &mut [u8], n: usize)
    requires
        n <= old(buf)@.len(),
    ensures
        final(buf)@ == zeros(n as nat) + old(buf)@.skip(n as int),
{
    let ghost start = buf@;
    let mut i: usize = 0;
    while i < n
        invariant
            n <= start.len(),
            i <= n,
            buf@ == zeros(i as nat) + start.skip(i as int),
        decreases n - i,
    {
        buf[i] = 0;
        i += 1;
        assert(buf@ =~= zeros(i as nat) + start.skip(i as int));
    }
}

/// Writes `bytes` into the front of `buf` and hands that front back.
pub(crate) fn write_front<'buf>(buf: &'buf mut [u8], bytes: &[u8]) -> (written: &'buf [u8])
    requires
        bytes@.len() <= old(buf)@.len(),
    ensures
        written@ == bytes@,
        final(buf)@ == overwritten(old(buf)@, bytes@),
{
    let n: usize = bytes.len();
    let ghost start = buf@;
    write_at(buf, 0, bytes);
    assert(buf@ =~= overwritten(start, bytes@));
    let written: &'buf [u8] = &buf[0..n];
    assert(written@ =~= bytes@);
    written
}

/// Writes `bytes` into the front of `buf` and hands that front back, if they fit.
pub(crate) fn try_write_front<'buf>(buf: &'buf mut [u8], bytes: &[u8]) -> (written: Result<
    &'buf [u8],
    WireError,
>)
    ensures
        packs(bytes@, old(buf)@, final(buf)@, written),
{
    if buf.len() < bytes.len() {
        Err(WireError::WriteBufferTooShort)
    } else {
        Ok(write_front(buf, bytes))
    }
}

} // verus!
