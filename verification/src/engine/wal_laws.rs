//! What is written to the log and read back from it, call by call.

use vstd::prelude::*;

use crate::bytes::be_value;
use crate::engine::wal::{
    be_bytes, bits_of, decode_entry, decoding, encode_entry, encoding, framed,
    law_entry_round_trip, lemma_be_round_trip, payload_in, reread, timeout_in, Entry, EntryError,
    EntryView, ErrorKind, Input,
};
use crate::types::{Timeout, TimeoutKind, ValueOrigin};

verus! {

/// What the log holds of an input, where it holds it: votes and proposals as
/// consensus messages, timeouts but those for finalizing a height, proposed values
/// and polka certificates.
pub open spec fn is_kept(input: Input, entry: EntryView) -> bool {
    match entry {
        EntryView::Consensus(b) => (input matches Input::Vote(Ok(p)) && p@ == b) || (
        input matches Input::Proposal(Ok(p)) && p@ == b),
        EntryView::TimeoutElapsed(t) => input matches Input::TimeoutElapsed(u) && u == t && !(t.kind
            is FinalizeHeight),
        EntryView::ProposedValue(b, origin) => input matches Input::ProposedValue(Ok(p), _) && p@ == b
            && origin == ValueOrigin::Consensus,
        EntryView::PolkaCertificate(b) => input matches Input::PolkaCertificate(Ok(p)) && p@ == b,
    }
}

/// An input that the log keeps is written behind what is there, and whatever
/// follows it, reading there gives it back. A proposed value is then one from
/// consensus, wherever it came from.
pub proof fn law_kept_input_is_read_back(
    input: Input,
    entry: EntryView,
    buf: &mut Vec<u8>,
    written: Result<(), EntryError>,
    at: &[u8],
    rest: Seq<u8>,
    read: Result<Entry, EntryError>,
)
    requires
        is_kept(input, entry),
        call_ensures(encode_entry, (input, buf), written),
        call_ensures(decode_entry, (at,), read),
    ensures
        written is Ok,
        old(buf)@.is_prefix_of(final(buf)@),
        final(buf)@.len() > old(buf)@.len(),
        at@ == final(buf)@.skip(old(buf)@.len() as int) + rest ==> (read matches Ok(e) && e@ == entry),
{
    let bytes = encoding(input)->Ok_0;
    law_entry_round_trip(input, rest);
    assert(final(buf)@.skip(old(buf)@.len() as int) =~= bytes);
    assert(reread(input) == Some(entry));
    assert(bytes.len() > 0) by {
        lemma_some_bytes(input);
    }
}

proof fn lemma_some_bytes(input: Input)
    requires
        encoding(input) is Ok,
    ensures
        encoding(input)->Ok_0.len() > 0,
{
}

/// An input that the log does not keep is refused as that, one that could not be
/// encoded for that reason, and then nothing is written.
pub proof fn law_other_input_is_refused(
    input: Input,
    buf: &mut Vec<u8>,
    written: Result<(), EntryError>,
)
    requires
        call_ensures(encode_entry, (input, buf), written),
        forall|entry: EntryView| !is_kept(input, entry),
    ensures
        final(buf)@ == old(buf)@,
        match input {
            Input::Vote(Err(e)) => written == Err::<(), EntryError>(EntryError::EncodePayload(e)),
            Input::Proposal(Err(e)) => written == Err::<(), EntryError>(EntryError::EncodePayload(e)),
            Input::ProposedValue(Err(e), _) => written == Err::<(), EntryError>(
                EntryError::EncodePayload(e),
            ),
            Input::PolkaCertificate(Err(e)) => written == Err::<(), EntryError>(
                EntryError::EncodePayload(e),
            ),
            Input::TimeoutElapsed(_) => written == Err::<(), EntryError>(
                EntryError::FinalizeHeightNotWritten,
            ),
            _ => written == Err::<(), EntryError>(EntryError::NotPersisted),
        },
{
    match input {
        Input::Vote(Ok(b)) => {
            assert(is_kept(input, EntryView::Consensus(b@)));
        },
        Input::Proposal(Ok(b)) => {
            assert(is_kept(input, EntryView::Consensus(b@)));
        },
        Input::ProposedValue(Ok(b), _) => {
            assert(is_kept(input, EntryView::ProposedValue(b@, ValueOrigin::Consensus)));
        },
        Input::PolkaCertificate(Ok(b)) => {
            assert(is_kept(input, EntryView::PolkaCertificate(b@)));
        },
        Input::TimeoutElapsed(t) => {
            if !(t.kind is FinalizeHeight) {
                assert(is_kept(input, EntryView::TimeoutElapsed(t)));
            }
        },
        _ => {},
    }
}

/// The format of the log is stable: an entry begins with the tag of its kind. A
/// payload follows its length, which takes eight bytes, most significant first; a
/// timeout is its step and its round, in as many bytes, as a signed number.
pub proof fn law_log_format_is_stable(
    input: Input,
    entry: EntryView,
    buf: &mut Vec<u8>,
    written: Result<(), EntryError>,
)
    requires
        is_kept(input, entry),
        call_ensures(encode_entry, (input, buf), written),
    ensures
        ({
            let bytes = final(buf)@.skip(old(buf)@.len() as int);
            let payload = match entry {
                EntryView::Consensus(b) => b,
                EntryView::ProposedValue(b, _) => b,
                EntryView::PolkaCertificate(b) => b,
                EntryView::TimeoutElapsed(_) => Seq::empty(),
            };
            &&& bytes[0] == match entry {
                EntryView::Consensus(_) => 0x01u8,
                EntryView::TimeoutElapsed(_) => 0x02,
                EntryView::ProposedValue(_, _) => 0x04,
                EntryView::PolkaCertificate(_) => 0x08,
            }
            &&& !(entry is TimeoutElapsed) ==> bytes.len() == 9 + payload.len() && be_value(
                bytes.subrange(1, 9),
            ) == payload.len() && bytes.skip(9) =~= payload
            &&& entry matches EntryView::TimeoutElapsed(t) ==> {
                &&& bytes.len() == 10
                &&& bytes[1] == match t.kind {
                    TimeoutKind::Propose => 1u8,
                    TimeoutKind::Prevote => 2,
                    TimeoutKind::Precommit => 3,
                    _ => 7,
                }
                &&& be_value(bytes.subrange(2, 10)) == if t.round.number() >= 0 {
                    t.round.number()
                } else {
                    t.round.number() + 0x1_0000_0000_0000_0000
                }
            }
        }),
{
    let bytes = encoding(input)->Ok_0;
    assert(final(buf)@.skip(old(buf)@.len() as int) =~= bytes);
    assert(crate::bytes::be_bound(8) == 0x1_0000_0000_0000_0000) by {
        reveal_with_fuel(crate::bytes::be_bound, 9);
    }
    match entry {
        EntryView::TimeoutElapsed(t) => {
            let n = t.round.number() as i64;
            lemma_be_round_trip(bits_of(n), 8);
            assert(bytes.subrange(2, 10) =~= be_bytes(bits_of(n), 8));
        },
        EntryView::Consensus(b) => {
            lemma_frame(0x01, b, bytes, input);
        },
        EntryView::ProposedValue(b, _) => {
            lemma_frame(0x04, b, bytes, input);
        },
        EntryView::PolkaCertificate(b) => {
            lemma_frame(0x08, b, bytes, input);
        },
    }
}

proof fn lemma_frame(tag: u8, payload: Seq<u8>, bytes: Seq<u8>, input: Input)
    requires
        bytes == framed(tag, payload),
        match input {
            Input::Vote(Ok(p)) => p@ == payload,
            Input::Proposal(Ok(p)) => p@ == payload,
            Input::ProposedValue(Ok(p), _) => p@ == payload,
            Input::PolkaCertificate(Ok(p)) => p@ == payload,
            _ => false,
        },
    ensures
        bytes[0] == tag,
        bytes.len() == 9 + payload.len(),
        be_value(bytes.subrange(1, 9)) == payload.len(),
        bytes.skip(9) =~= payload,
{
    assert(payload.len() <= u64::MAX) by {
        match input {
            Input::Vote(Ok(p)) => {
                assert(p.len() as nat == p@.len());
            },
            Input::Proposal(Ok(p)) => {
                assert(p.len() as nat == p@.len());
            },
            Input::ProposedValue(Ok(p), _) => {
                assert(p.len() as nat == p@.len());
            },
            Input::PolkaCertificate(Ok(p)) => {
                assert(p.len() as nat == p@.len());
            },
            _ => {},
        }
    }
    assert(crate::bytes::be_bound(8) == 0x1_0000_0000_0000_0000) by {
        reveal_with_fuel(crate::bytes::be_bound, 9);
    }
    lemma_be_round_trip(payload.len(), 8);
    assert(bytes.subrange(1, 9) =~= be_bytes(payload.len(), 8));
}

/// Of an entry of which bytes at the end are missing, nothing is read.
pub proof fn law_torn_entry_is_not_read(
    input: Input,
    entry: EntryView,
    buf: &mut Vec<u8>,
    written: Result<(), EntryError>,
    at: &[u8],
    read: Result<Entry, EntryError>,
    n: int,
)
    requires
        is_kept(input, entry),
        call_ensures(encode_entry, (input, buf), written),
        call_ensures(decode_entry, (at,), read),
        0 <= n < final(buf)@.len() - old(buf)@.len(),
        at@ == final(buf)@.skip(old(buf)@.len() as int).take(n),
    ensures
        read == Err::<Entry, EntryError>(EntryError::UnexpectedEof),
{
    let bytes = encoding(input)->Ok_0;
    assert(final(buf)@.skip(old(buf)@.len() as int) =~= bytes);
    let part = bytes.take(n);
    assert(at@ == part);
    if n > 0 {
        let rest = part.subrange(1, n);
        assert(part[0] == bytes[0]);
        match entry {
            EntryView::TimeoutElapsed(t) => {
                if n > 1 {
                    assert(rest[0] == bytes[1]);
                    assert(bytes.len() == 10) by {
                        lemma_be_round_trip_len(bits_of(t.round.number() as i64));
                    }
                }
            },
            EntryView::Consensus(b) => {
                lemma_frame(0x01, b, bytes, input);
                lemma_torn(bytes, b, n);
            },
            EntryView::ProposedValue(b, _) => {
                lemma_frame(0x04, b, bytes, input);
                lemma_torn(bytes, b, n);
            },
            EntryView::PolkaCertificate(b) => {
                lemma_frame(0x08, b, bytes, input);
                lemma_torn(bytes, b, n);
            },
        }
    }
    assert(decoding(part) == Err::<EntryView, EntryError>(EntryError::UnexpectedEof));
}

proof fn lemma_be_round_trip_len(n: nat)
    requires
        n < 0x1_0000_0000_0000_0000,
    ensures
        be_bytes(n, 8).len() == 8,
{
    assert(crate::bytes::be_bound(8) == 0x1_0000_0000_0000_0000) by {
        reveal_with_fuel(crate::bytes::be_bound, 9);
    }
    lemma_be_round_trip(n, 8);
}

proof fn lemma_torn(bytes: Seq<u8>, payload: Seq<u8>, n: int)
    requires
        bytes.len() == 9 + payload.len(),
        be_value(bytes.subrange(1, 9)) == payload.len(),
        0 < n < bytes.len(),
    ensures
        payload_in(bytes.take(n).subrange(1, n)) is None,
{
    let rest = bytes.take(n).subrange(1, n);
    if rest.len() >= 8 {
        assert(rest.subrange(0, 8) =~= bytes.subrange(1, 9));
    }
}

/// Bytes that begin with no known tag are no entry, and no bytes are none either.
pub proof fn law_unknown_tag_is_refused(at: &[u8], read: Result<Entry, EntryError>)
    requires
        call_ensures(decode_entry, (at,), read),
    ensures
        at@.len() == 0 ==> read == Err::<Entry, EntryError>(EntryError::UnexpectedEof),
        at@.len() > 0 && at@[0] != 0x01 && at@[0] != 0x02 && at@[0] != 0x04 && at@[0] != 0x08 ==> read
            == Err::<Entry, EntryError>(EntryError::InvalidTag),
        at@.len() > 1 && at@[0] == 0x02 && at@[1] == 4 ==> read == Err::<Entry, EntryError>(
            EntryError::CommitTimeout,
        ),
        at@.len() > 1 && at@[0] == 0x02 && (at@[1] == 5 || at@[1] == 6) ==> read == Err::<
            Entry,
            EntryError,
        >(EntryError::TimeLimitTimeout),
        at@.len() > 1 && at@[0] == 0x02 && at@[1] == 8 ==> read == Err::<Entry, EntryError>(
            EntryError::FinalizeHeightRead,
        ),
        at@.len() > 1 && at@[0] == 0x02 && (at@[1] == 0 || at@[1] > 8) ==> read == Err::<
            Entry,
            EntryError,
        >(EntryError::InvalidTimeoutStep),
{
    if at@.len() > 1 {
        let rest = at@.subrange(1, at@.len() as int);
        assert(rest[0] == at@[1]);
    }
}

/// What should not be written is an invalid input, what ends too early is that, and
/// everything else that goes wrong is invalid data.
pub proof fn law_errors_have_their_class(e: EntryError, kind: ErrorKind)
    requires
        call_ensures(EntryError::kind, (&e,), kind),
    ensures
        kind == ErrorKind::InvalidInput <==> e is NotPersisted || e is FinalizeHeightNotWritten,
        kind == ErrorKind::UnexpectedEof <==> e is UnexpectedEof,
{
}

} // verus!
