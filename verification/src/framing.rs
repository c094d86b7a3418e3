//! The record format of recorded files: each record is its payload's length as
//! an eight-byte big-endian unsigned integer, followed by the payload itself.
//! There is no header, trailer, separator or checksum.
use byteorder::{BigEndian, ByteOrder};
use vstd::prelude::*;

verus! {

/// The eight bytes of `n`, most significant byte first.
pub open spec fn be_bytes(n: u64) -> Seq<u8> {
    seq![
        (n >> 56) as u8,
        (n >> 48) as u8,
        (n >> 40) as u8,
        (n >> 32) as u8,
        (n >> 24) as u8,
        (n >> 16) as u8,
        (n >> 8) as u8,
        n as u8,
    ]
}

/// The number whose big-endian encoding is the first eight bytes of `bytes`.
pub open spec fn be_value(bytes: Seq<u8>) -> u64
    recommends
        bytes.len() >= 8,
{
    (bytes[0] as u64) << 56 | (bytes[1] as u64) << 48 | (bytes[2] as u64) << 40 | (bytes[3] as u64)
        << 32 | (bytes[4] as u64) << 24 | (bytes[5] as u64) << 16 | (bytes[6] as u64) << 8
        | (bytes[7] as u64)
}

/// One record: the length field, then the payload.
pub open spec fn frame(payload: Seq<u8>) -> Seq<u8> {
    be_bytes(payload.len() as u64) + payload
}

/// The payload of the record that `bytes` starts with, and what follows that
/// record; `None` where `bytes` is too short to hold a whole record.
pub open spec fn first_record(bytes: Seq<u8>) -> Option<(Seq<u8>, Seq<u8>)> {
    if bytes.len() < 8 {
        None
    } else {
        let length = be_value(bytes) as int;
        if bytes.len() - 8 < length {
            None
        } else {
            Some((bytes.subrange(8, 8 + length), bytes.subrange(8 + length, bytes.len() as int)))
        }
    }
}

/// The records of a list of payloads, one after the other.
#[verifier::opaque]
pub open spec fn frames(payloads: Seq<Seq<u8>>) -> Seq<u8>
    decreases payloads.len(),
{
    if payloads.len() == 0 {
        Seq::empty()
    } else {
        frame(payloads[0]) + frames(payloads.drop_first())
    }
}

/// The payloads of the records that `bytes` consists of, as far as whole
/// records can be read; a truncated record at the end is left out.
#[verifier::opaque]
pub open spec fn records(bytes: Seq<u8>) -> Seq<Seq<u8>>
    decreases bytes.len(),
{
    match first_record(bytes) {
        None => Seq::empty(),
        Some((payload, rest)) => seq![payload] + records(rest),
    }
}

/// Decoding the big-endian bytes of a number gives the number back.
pub proof fn lemma_be_value_of_be_bytes(n: u64)
    ensures
        be_bytes(n).len() == 8,
        be_value(be_bytes(n)) == n,
{
    assert((((n >> 56) as u8) as u64) << 56 | (((n >> 48) as u8) as u64) << 48 | (((n >> 40) as u8)
        as u64) << 40 | (((n >> 32) as u8) as u64) << 32 | (((n >> 24) as u8) as u64) << 24 | (((n
        >> 16) as u8) as u64) << 16 | (((n >> 8) as u8) as u64) << 8 | ((n as u8) as u64) == n)
        by (bit_vector);
}

/// `be_value` looks at the first eight bytes only.
pub proof fn lemma_be_value_prefix(bytes: Seq<u8>, rest: Seq<u8>)
    requires
        bytes.len() >= 8,
    ensures
        be_value(bytes + rest) == be_value(bytes),
{
    let all = bytes + rest;
    assert(all[0] == bytes[0] && all[1] == bytes[1] && all[2] == bytes[2] && all[3] == bytes[3]
        && all[4] == bytes[4] && all[5] == bytes[5] && all[6] == bytes[6] && all[7] == bytes[7]);
}

/// A record followed by anything reads back as its payload
/// and that remainder. This holds of every payload a machine can hold, the
/// empty one included.
pub proof fn lemma_first_record_of_frame(payload: Seq<u8>, rest: Seq<u8>)
    requires
        payload.len() <= u64::MAX,
    ensures
        first_record(frame(payload) + rest) == Some((payload, rest)),
{
    let n = payload.len() as u64;
    let bytes = frame(payload) + rest;
    lemma_be_value_of_be_bytes(n);
    assert(bytes =~= be_bytes(n) + (payload + rest));
    lemma_be_value_prefix(be_bytes(n), payload + rest);
    assert(be_value(bytes) == n);
    assert(bytes.subrange(8, 8 + n as int) =~= payload);
    assert(bytes.subrange(8 + n as int, bytes.len() as int) =~= rest);
}

/// A file that holds the records of a list of payloads reads back as exactly
/// that list: record boundaries are recovered without any separator.
pub proof fn lemma_records_of_frames(payloads: Seq<Seq<u8>>)
    requires
        forall|i: int| 0 <= i < payloads.len() ==> (#[trigger] payloads[i]).len() <= u64::MAX,
    ensures
        records(frames(payloads)) == payloads,
    decreases payloads.len(),
{
    if payloads.len() == 0 {
        assert(frames(payloads).len() == 0) by {
            reveal(frames);
        }
        assert(records(frames(payloads)) =~= payloads) by {
            reveal(records);
        }
    } else {
        let head = payloads[0];
        let tail = payloads.drop_first();
        assert forall|i: int| 0 <= i < tail.len() implies (#[trigger] tail[i]).len()
            <= u64::MAX by {
            assert(tail[i] == payloads[i + 1]);
        }
        lemma_records_of_frames(tail);
        assert(frames(payloads) == frame(head) + frames(tail)) by {
            reveal(frames);
        }
        lemma_first_record_of_frame(head, frames(tail));
        assert(records(frame(head) + frames(tail)) == seq![head] + records(frames(tail))) by {
            reveal(records);
        }
        assert(seq![head] + tail =~= payloads);
    }
}

/// One more payload adds its record at the end.
pub proof fn lemma_frames_push(payloads: Seq<Seq<u8>>, payload: Seq<u8>)
    ensures
        frames(payloads.push(payload)) == frames(payloads) + frame(payload),
    decreases payloads.len(),
{
    reveal(frames);
    if payloads.len() == 0 {
        assert(payloads.push(payload).drop_first() =~= payloads);
        assert(frames(payloads.push(payload)) =~= frames(payloads) + frame(payload));
    } else {
        let tail = payloads.drop_first();
        lemma_frames_push(tail, payload);
        assert(payloads.push(payload).drop_first() =~= tail.push(payload));
        assert(frames(payloads.push(payload)) =~= frames(payloads) + frame(payload));
    }
}

/// The length field for a payload of `n` bytes.
///
/// Calls `byteorder::ByteOrder::write_u64` of `BigEndian` on a buffer of eight
/// bytes. The contract claims what that function documents: it fills the
/// buffer with the big-endian representation of `n`.
#[verifier::external_body]
fn length_field(n: u64) -> (field: [u8; 8])
    ensures
        field@ == be_bytes(n),
{
    let mut field = [0u8; 8];
    BigEndian::write_u64(&mut field, n);
    field
}

/// Builds the record of `payload`.
pub fn frame_record(payload: &Vec<u8>) -> (record: Vec<u8>)
    ensures
        record@ == frame(payload@),
{
    let field = length_field(payload.len() as u64);
    let mut record: Vec<u8> = Vec::new();
    let mut i: usize = 0;
    while i < 8
        invariant
            i <= 8,
            field@.len() == 8,
            record@ == field@.subrange(0, i as int),
        decreases 8 - i,
    {
        record.push(field[i]);
        i = i + 1;
    }
    assert(record@ == field@);
    let mut j: usize = 0;
    while j < payload.len()
        invariant
            j <= payload.len(),
            record@ == field@ + payload@.subrange(0, j as int),
        decreases payload.len() - j,
    {
        record.push(payload[j]);
        j = j + 1;
    }
    assert(payload@.subrange(0, payload.len() as int) == payload@);
    record
}

/// Reads the length field at the start of `bytes`.
fn read_length(bytes: &[u8]) -> (n: u64)
    requires
        bytes.len() >= 8,
    ensures
        n == be_value(bytes@),
{
    (bytes[0] as u64) << 56 | (bytes[1] as u64) << 48 | (bytes[2] as u64) << 40 | (bytes[3] as u64)
        << 32 | (bytes[4] as u64) << 24 | (bytes[5] as u64) << 16 | (bytes[6] as u64) << 8
        | (bytes[7] as u64)
}

/// Reads the record that `bytes` starts with: its payload, and the number of
/// bytes that the record takes up. `None` where no whole record is there.
pub fn read_record(bytes: &[u8]) -> (read: Option<(Vec<u8>, usize)>)
    ensures
        match read {
            None => first_record(bytes@) is None,
            Some((payload, used)) => {
                &&& used <= bytes.len()
                &&& first_record(bytes@) == Some(
                    (payload@, bytes@.subrange(used as int, bytes.len() as int)),
                )
            },
        },
{
    if bytes.len() < 8 {
        return None;
    }
    let length = read_length(bytes);
    let available = bytes.len() - 8;
    if (available as u64) < length {
        return None;
    }
    let end: usize = 8 + length as usize;
    let mut payload: Vec<u8> = Vec::new();
    let mut i: usize = 8;
    while i < end
        invariant
            8 <= i <= end <= bytes.len(),
            payload@ == bytes@.subrange(8, i as int),
        decreases end - i,
    {
        payload.push(bytes[i]);
        i = i + 1;
    }
    Some((payload, end))
}

} // verus!
