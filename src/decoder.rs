//! Reframing a byte stream into records.

use vstd::prelude::*;

use crate::record::{decode, NtsRecord, RecordView};

verus! {

/// The records that a stream of bytes holds, in order, and the bytes after
/// the last whole record.
pub open spec fn decode_all(bytes: Seq<u8>) -> (Seq<RecordView>, Seq<u8>)
    decreases bytes.len(),
{
    match decode(bytes) {
        None => (seq![], bytes),
        Some((m, n)) => if 0 < n <= bytes.len() {
            let rest = decode_all(bytes.skip(n as int));
            (seq![m] + rest.0, rest.1)
        } else {
            (seq![], bytes)
        },
    }
}

/// What `decode` reads of a whole record does not change when bytes follow it.
pub proof fn lemma_decode_prefix(a: Seq<u8>, b: Seq<u8>)
    requires
        decode(a) is Some,
    ensures
        decode(a + b) == decode(a),
        (decode(a)->0).1 <= a.len(),
        (decode(a)->0).1 >= 4,
{
    let n = (decode(a)->0).1;
    assert((a + b).subrange(4, n as int) =~= a.subrange(4, n as int));
    assert((a + b)[0] == a[0] && (a + b)[1] == a[1] && (a + b)[2] == a[2] && (a + b)[3] == a[3]);
}

/// Splitting a stream anywhere changes nothing: decoding `a`, then decoding
/// what was left of it followed by `b`, gives the records of `a + b` in the
/// same order and leaves the same bytes undecoded.
pub proof fn lemma_chunk_invariance(a: Seq<u8>, b: Seq<u8>)
    ensures
        decode_all(a).0 + decode_all(decode_all(a).1 + b).0 == decode_all(a + b).0,
        decode_all(decode_all(a).1 + b).1 == decode_all(a + b).1,
    decreases a.len(),
{
    match decode(a) {
        None => {
            assert(decode_all(a).0 + decode_all(decode_all(a).1 + b).0 =~= decode_all(a + b).0);
        },
        Some((m, n)) => {
            lemma_decode_prefix(a, b);
            assert((a + b).skip(n as int) =~= a.skip(n as int) + b);
            lemma_chunk_invariance(a.skip(n as int), b);
            assert(decode_all(a).0 + decode_all(decode_all(a).1 + b).0 =~= decode_all(a + b).0);
        },
    }
}

/// A decoder that starts from `buffer`, is handed `pieces` one after another,
/// and is drained by `step` after each: the records it hands out, in order,
/// and the bytes it keeps at the end.
pub open spec fn drain_pieces(buffer: Seq<u8>, pieces: Seq<Seq<u8>>) -> (Seq<RecordView>, Seq<u8>)
    decreases pieces.len(),
{
    if pieces.len() == 0 {
        (seq![], buffer)
    } else {
        let first = decode_all(buffer + pieces[0]);
        let rest = drain_pieces(first.1, pieces.skip(1));
        (first.0 + rest.0, rest.1)
    }
}

/// However a stream is cut into pieces, draining the decoder after each
/// piece hands out the records that decoding the whole stream at once gives,
/// in the same order, and keeps the same incomplete tail.
pub proof fn lemma_pieces_decode_as_whole(buffer: Seq<u8>, pieces: Seq<Seq<u8>>)
    requires
        decode(buffer) is None,
    ensures
        drain_pieces(buffer, pieces) == decode_all(buffer + pieces.flatten()),
    decreases pieces.len(),
{
    if pieces.len() == 0 {
        assert(buffer + pieces.flatten() =~= buffer);
    } else {
        let p0 = pieces[0];
        let tail = pieces.skip(1);
        assert(pieces.drop_first() =~= tail);
        let first = decode_all(buffer + p0);
        lemma_decode_all_rest(buffer + p0);
        lemma_pieces_decode_as_whole(first.1, tail);
        lemma_chunk_invariance(buffer + p0, tail.flatten());
        assert(buffer + pieces.flatten() =~= buffer + p0 + tail.flatten());
        assert(drain_pieces(buffer, pieces).0 =~= decode_all(buffer + pieces.flatten()).0);
    }
}

/// After the last whole record of a stream, what is left is never a whole record.
pub proof fn lemma_decode_all_rest(bytes: Seq<u8>)
    ensures
        decode(decode_all(bytes).1) is None,
    decreases bytes.len(),
{
    if let Some((m, n)) = decode(bytes) {
        lemma_decode_prefix(bytes, seq![]);
        assert(bytes + seq![] =~= bytes);
        lemma_decode_all_rest(bytes.skip(n as int));
    }
}

/// A growable buffer of received bytes, from which whole records are taken
/// one at a time.
#[derive(Debug, Clone, Default)]
pub struct NtsRecordDecoder {
    bytes: Vec<u8>,
}

impl View for NtsRecordDecoder {
    type V = Seq<u8>;

    /// The bytes buffered and not yet decoded.
    closed spec fn view(&self) -> Seq<u8> {
        self.bytes@
    }
}

impl NtsRecordDecoder {
    pub fn new() -> (r: Self)
        ensures
            r@ == Seq::<u8>::empty(),
    {
        NtsRecordDecoder { bytes: Vec::new() }
    }

    /// Appends received bytes to the buffer.
    pub fn extend(&mut self, bytes: &[u8])
        ensures
            final(self)@ == old(self)@ + bytes@,
    {
        let mut i: usize = 0;
        while i < bytes.len()
            invariant
                i <= bytes@.len(),
                self@ == old(self)@ + bytes@.take(i as int),
            decreases bytes@.len() - i,
        {
            self.bytes.push(bytes[i]);
            i += 1;
            assert(self@ =~= old(self)@ + bytes@.take(i as int));
        }
        assert(bytes@.take(i as int) =~= bytes@);
    }

    /// Takes the record at the front of the buffer, or returns `None` and
    /// keeps every byte when no whole record is buffered yet. So a run of
    /// calls hands out the records of `decode_all` of the buffer, in order,
    /// and then `None` with the bytes after the last whole record left.
    pub fn step(&mut self) -> (r: Option<NtsRecord>)
        ensures
            match decode(old(self)@) {
                None => r is None && final(self)@ == old(self)@,
                Some((m, n)) => r is Some && r->0@ == m && final(self)@ == old(self)@.skip(
                    n as int,
                ),
            },
            r matches Some(rec) ==> decode_all(old(self)@).0 == seq![rec@] + decode_all(
                final(self)@,
            ).0 && decode_all(old(self)@).1 == decode_all(final(self)@).1,
            r is None ==> decode_all(old(self)@).0 == Seq::<RecordView>::empty() && decode_all(
                old(self)@,
            ).1 == old(self)@,
    {
        proof {
            if decode(self@) is Some {
                lemma_decode_prefix(self@, seq![]);
                assert(self@ + seq![] =~= self@);
            }
        }
        match NtsRecord::read(self.bytes.as_slice()) {
            None => None,
            Some((record, n)) => {
                let rest = self.bytes.split_off(n);
                self.bytes = rest;
                Some(record)
            },
        }
    }
}

impl NtsRecord {
    /// A decoder with an empty buffer.
    pub fn decoder() -> (r: NtsRecordDecoder)
        ensures
            r@ == Seq::<u8>::empty(),
    {
        NtsRecordDecoder::new()
    }
}

} // verus!
