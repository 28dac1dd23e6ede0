//! The wire format: a datagram is the samples of one frame buffer, four bytes
//! each, one after another, with nothing before, between or after them.

use crate::sample::Sample;
use vstd::prelude::*;

verus! {

/// Number of bytes that one sample takes on the wire.
pub const SAMPLE_BYTES: usize = 4;

/// The order in which the four bytes of a sample travel. Both ends of a link
/// must be set to the same one.
#[derive(Clone, Copy, Debug, PartialEq, Eq, Structural)]
pub enum ByteOrder {
    /// Least significant byte first.
    LittleEndian,
    /// Most significant byte first.
    BigEndian,
}

/// The byte order that a link uses when nothing else has been agreed.
pub const WIRE_ORDER: ByteOrder = ByteOrder::LittleEndian;

/// Byte `k` of a 32-bit word, counted from the least significant one.
pub open spec fn octet(word: u32, k: int) -> u8 {
    if k == 0 {
        (word % 0x100) as u8
    } else if k == 1 {
        (word / 0x100 % 0x100) as u8
    } else if k == 2 {
        (word / 0x1_0000 % 0x100) as u8
    } else {
        (word / 0x100_0000 % 0x100) as u8
    }
}

/// The word whose bytes, from the least significant one up, are `b0` to `b3`.
pub open spec fn word_of(b0: u8, b1: u8, b2: u8, b3: u8) -> u32 {
    (b0 + 0x100 * b1 + 0x1_0000 * b2 + 0x100_0000 * b3) as u32
}

/// Position, counted from the least significant byte, of the byte that
/// travels at place `i` of the four.
pub open spec fn significance(order: ByteOrder, i: int) -> int {
    match order {
        ByteOrder::LittleEndian => i,
        ByteOrder::BigEndian => 3 - i,
    }
}

/// The four bytes of one sample as they travel.
pub open spec fn sample_octets(s: Sample, order: ByteOrder) -> Seq<u8> {
    Seq::new(4, |i: int| octet(s.bits, significance(order, i)))
}

/// The sample that four travelling bytes stand for.
pub open spec fn sample_of_octets(b: Seq<u8>, order: ByteOrder) -> Sample
    recommends
        b.len() == 4,
{
    match order {
        ByteOrder::LittleEndian => Sample { bits: word_of(b[0], b[1], b[2], b[3]) },
        ByteOrder::BigEndian => Sample { bits: word_of(b[3], b[2], b[1], b[0]) },
    }
}

/// Splits one sample into its four bytes, in the given order.
pub fn encode_sample(s: Sample, order: ByteOrder) -> (b: [u8; 4])
    ensures
        b@ == sample_octets(s, order),
{
    let w: u32 = s.bits;
    let b0: u8 = (w % 0x100) as u8;
    let b1: u8 = (w / 0x100 % 0x100) as u8;
    let b2: u8 = (w / 0x1_0000 % 0x100) as u8;
    let b3: u8 = (w / 0x100_0000 % 0x100) as u8;
    let b: [u8; 4] = match order {
        ByteOrder::LittleEndian => [b0, b1, b2, b3],
        ByteOrder::BigEndian => [b3, b2, b1, b0],
    };
    assert(b@ =~= sample_octets(s, order));
    b
}

/// Joins four bytes, in the given order, into the sample they stand for.
pub fn decode_sample(b: [u8; 4], order: ByteOrder) -> (s: Sample)
    ensures
        s == sample_of_octets(b@, order),
{
    let (b0, b1, b2, b3) = match order {
        ByteOrder::LittleEndian => (b[0], b[1], b[2], b[3]),
        ByteOrder::BigEndian => (b[3], b[2], b[1], b[0]),
    };
    let bits: u32 = b0 as u32 + 0x100 * (b1 as u32) + 0x1_0000 * (b2 as u32) + 0x100_0000 * (
    b3 as u32);
    Sample { bits }
}

/// A sample survives being split into bytes and joined again, whatever its
/// bit pattern, as long as both steps use the same byte order.
pub proof fn lemma_sample_round_trip(s: Sample, order: ByteOrder)
    ensures
        sample_octets(s, order).len() == 4,
        sample_of_octets(sample_octets(s, order), order) == s,
{
}

/// Each byte that a word is joined from is found again at its place in the
/// word.
pub proof fn lemma_octet_of_word(b0: u8, b1: u8, b2: u8, b3: u8)
    ensures
        octet(word_of(b0, b1, b2, b3), 0) == b0,
        octet(word_of(b0, b1, b2, b3), 1) == b1,
        octet(word_of(b0, b1, b2, b3), 2) == b2,
        octet(word_of(b0, b1, b2, b3), 3) == b3,
{
    let w: int = b0 + 0x100 * b1 + 0x1_0000 * b2 + 0x100_0000 * b3;
    let w1: int = b1 + 0x100 * b2 + 0x1_0000 * b3;
    let w2: int = b2 + 0x100 * b3;
    assert(w == word_of(b0, b1, b2, b3));
    assert(w == 0x100 * w1 + b0);
    assert(w / 0x100 == w1 && w % 0x100 == b0);
    assert(w1 == 0x100 * w2 + b1);
    assert(w1 / 0x100 == w2 && w1 % 0x100 == b1);
    assert(w / 0x1_0000 == w2) by {
        assert(w == 0x1_0000 * w2 + (0x100 * b1 + b0));
    }
    assert(w2 / 0x100 == b3 && w2 % 0x100 == b2);
    assert(w / 0x100_0000 == b3) by {
        assert(w == 0x100_0000 * b3 + (0x1_0000 * b2 + 0x100 * b1 + b0));
    }
}

/// Four bytes survive being joined into a sample and split again, as long as
/// both steps use the same byte order.
pub proof fn lemma_octets_round_trip(b: Seq<u8>, order: ByteOrder)
    requires
        b.len() == 4,
    ensures
        sample_octets(sample_of_octets(b, order), order) == b,
{
    match order {
        ByteOrder::LittleEndian => lemma_octet_of_word(b[0], b[1], b[2], b[3]),
        ByteOrder::BigEndian => lemma_octet_of_word(b[3], b[2], b[1], b[0]),
    }
    assert(sample_octets(sample_of_octets(b, order), order) =~= b);
}

/// The datagram that carries a frame buffer: the bytes of its samples, in the
/// order of the buffer.
pub open spec fn datagram_of(frames: Seq<Sample>, order: ByteOrder) -> Seq<u8> {
    Seq::new((4 * frames.len()) as nat, |i: int| sample_octets(frames[i / 4], order)[i % 4])
}

/// The frame buffer that a byte sequence carries: one sample for each
/// complete group of four bytes, in order. Up to three bytes that are left
/// over at the end stand for nothing.
pub open spec fn frames_of(datagram: Seq<u8>, order: ByteOrder) -> Seq<Sample> {
    Seq::new(
        (datagram.len() / 4) as nat,
        |i: int| sample_of_octets(datagram.subrange(4 * i, 4 * i + 4), order),
    )
}

/// Serializes a frame buffer into one datagram.
pub fn encode_frames(frames: &[Sample], order: ByteOrder) -> (datagram: Vec<u8>)
    ensures
        datagram@ == datagram_of(frames@, order),
        datagram.len() == 4 * frames.len(),
{
    let mut datagram: Vec<u8> = Vec::new();
    let mut i: usize = 0;
    while i < frames.len()
        invariant
            i <= frames.len(),
            datagram.len() == 4 * i,
            forall|j: int|
                0 <= j < 4 * i ==> datagram@[j] == #[trigger] sample_octets(
                    frames@[j / 4],
                    order,
                )[j % 4],
        decreases frames.len() - i,
    {
        let b: [u8; 4] = encode_sample(frames[i], order);
        datagram.push(b[0]);
        datagram.push(b[1]);
        datagram.push(b[2]);
        datagram.push(b[3]);
        i += 1;
    }
    assert(datagram@ =~= datagram_of(frames@, order));
    datagram
}

/// Deserializes the bytes of one datagram into a frame buffer, dropping an
/// incomplete group of bytes at the end.
pub fn decode_datagram(datagram: &[u8], order: ByteOrder) -> (frames: Vec<Sample>)
    ensures
        frames@ == frames_of(datagram@, order),
        frames.len() == datagram.len() / 4,
{
    let count: usize = datagram.len() / SAMPLE_BYTES;
    let mut frames: Vec<Sample> = Vec::with_capacity(count);
    let mut i: usize = 0;
    while i < count
        invariant
            i <= count,
            count == datagram.len() / 4,
            frames.len() == i,
            forall|j: int|
                0 <= j < i ==> frames@[j] == sample_of_octets(
                    #[trigger] datagram@.subrange(4 * j, 4 * j + 4),
                    order,
                ),
        decreases count - i,
    {
        let at: usize = SAMPLE_BYTES * i;
        let group: [u8; 4] = [datagram[at], datagram[at + 1], datagram[at + 2], datagram[at + 3]];
        assert(group@ =~= datagram@.subrange(4 * i, 4 * i + 4));
        frames.push(decode_sample(group, order));
        i += 1;
    }
    assert(frames@ =~= frames_of(datagram@, order));
    frames
}

/// Round trip: a frame buffer that is encoded into a datagram and decoded with
/// the same byte order comes back exactly, sample for sample and bit for bit.
pub proof fn lemma_round_trip(frames: Seq<Sample>, order: ByteOrder)
    ensures
        frames_of(datagram_of(frames, order), order) == frames,
{
    let datagram = datagram_of(frames, order);
    assert forall|i: int| 0 <= i < frames.len() implies frames_of(datagram, order)[i]
        == frames[i] by {
        assert(datagram.subrange(4 * i, 4 * i + 4) =~= sample_octets(frames[i], order));
        lemma_sample_round_trip(frames[i], order);
    }
    assert(frames_of(datagram, order) =~= frames);
}

/// Truncation: a byte sequence of any length decodes to as many samples as it
/// has complete groups of four bytes, and the bytes after the last complete
/// group change nothing in what is decoded.
pub proof fn lemma_truncation(datagram: Seq<u8>, order: ByteOrder)
    ensures
        frames_of(datagram, order).len() == datagram.len() / 4,
        frames_of(datagram, order) == frames_of(
            datagram.take(datagram.len() - datagram.len() % 4),
            order,
        ),
{
    let whole = datagram.take(datagram.len() - datagram.len() % 4);
    assert forall|i: int| 0 <= i < datagram.len() / 4 implies frames_of(datagram, order)[i]
        == frames_of(whole, order)[i] by {
        assert(datagram.subrange(4 * i, 4 * i + 4) =~= whole.subrange(4 * i, 4 * i + 4));
    }
    assert(frames_of(datagram, order) =~= frames_of(whole, order));
}

/// A datagram made of complete groups is exactly the encoding of what it
/// decodes to: no two such datagrams carry the same frame buffer.
pub proof fn lemma_datagram_round_trip(datagram: Seq<u8>, order: ByteOrder)
    requires
        datagram.len() % 4 == 0,
    ensures
        datagram_of(frames_of(datagram, order), order) == datagram,
{
    let frames = frames_of(datagram, order);
    assert forall|j: int| 0 <= j < datagram.len() implies datagram_of(frames, order)[j]
        == datagram[j] by {
        let group = datagram.subrange(4 * (j / 4), 4 * (j / 4) + 4);
        lemma_octets_round_trip(group, order);
        assert(sample_octets(frames[j / 4], order)[j % 4] == group[j % 4]);
    }
    assert(datagram_of(frames, order) =~= datagram);
}

} // verus!
