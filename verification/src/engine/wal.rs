//! The entries of the write-ahead log.
//!
//! An entry is a tag followed by a payload. Payloads of messages are the
//! bytes that the application's codec gives, behind their length; timeouts
//! have a compact format of their own.

use byteorder::{ReadBytesExt, WriteBytesExt, BE};
use vstd::prelude::*;
use vstd::string::*;

use crate::bytes::{be_bound, be_value};
use crate::types::{round_from_i64, round_of, Timeout, TimeoutKind, ValueOrigin};

verus! {

// Tags are stable: changing them breaks the reading of existing logs. Votes
// and proposals share a tag because one codec reads both.
/// The tag of a vote or a proposal.
pub const TAG_CONSENSUS: u8 = 0x01;

/// The tag of a timeout.
pub const TAG_TIMEOUT: u8 = 0x02;

/// The tag of a proposed value.
pub const TAG_PROPOSED_VALUE: u8 = 0x04;

/// The tag of a polka certificate.
pub const TAG_POLKA_CERTIFICATE: u8 = 0x08;

/// The `len` low bytes of `n`, most significant first.
pub open spec fn be_bytes(n: nat, len: nat) -> Seq<u8>
    decreases len,
{
    if len == 0 {
        Seq::empty()
    } else {
        be_bytes(n / 256, (len - 1) as nat).push((n % 256) as u8)
    }
}

/// Reading what was written gives the number back.
pub proof fn lemma_be_round_trip(n: nat, len: nat)
    requires
        n < be_bound(len),
    ensures
        be_value(be_bytes(n, len)) == n,
        be_bytes(n, len).len() == len,
    decreases len,
{
    if len > 0 {
        lemma_be_round_trip(n / 256, (len - 1) as nat);
        let s = be_bytes(n, len);
        assert(s.drop_last() =~= be_bytes(n / 256, (len - 1) as nat));
        assert(s.last() == (n % 256) as u8);
    }
}

proof fn lemma_be_len(n: nat, len: nat)
    ensures
        be_bytes(n, len).len() == len,
    decreases len,
{
    if len > 0 {
        lemma_be_len(n / 256, (len - 1) as nat);
    }
}

proof fn lemma_be_bound_8()
    ensures
        be_bound(8) == 0x1_0000_0000_0000_0000,
{
    reveal_with_fuel(be_bound, 9);
}

/// The unsigned number with the bits of `n`.
pub open spec fn bits_of(n: i64) -> nat {
    if n >= 0 {
        n as nat
    } else {
        (n + 0x1_0000_0000_0000_0000) as nat
    }
}

/// Append `n` with `byteorder`'s `write_u64::<BE>`: eight bytes, most
/// significant first. Writing to a vector does not fail.
#[verifier::external_body]
fn put_u64(buf: &mut Vec<u8>, n: u64)
    ensures
        final(buf)@ == old(buf)@ + be_bytes(n as nat, 8),
{
    buf.write_u64::<BE>(n).expect("writing to a vector does not fail");
}

/// Append `n` with `byteorder`'s `write_i64::<BE>`: the eight bytes of its
/// two's complement, most significant first. Writing to a vector does not fail.
#[verifier::external_body]
fn put_i64(buf: &mut Vec<u8>, n: i64)
    ensures
        final(buf)@ == old(buf)@ + be_bytes(bits_of(n), 8),
{
    buf.write_i64::<BE>(n).expect("writing to a vector does not fail");
}

/// Read a number from the first eight bytes with `byteorder`'s
/// `read_u64::<BE>`, most significant byte first. With fewer bytes there is
/// none.
#[verifier::external_body]
fn get_u64(buf: &[u8]) -> (r: Option<u64>)
    ensures
        match r {
            Some(n) => buf@.len() >= 8 && n == be_value(buf@.subrange(0, 8)),
            None => buf@.len() < 8,
        },
{
    let mut rest = buf;
    rest.read_u64::<BE>().ok()
}

/// Read a number from the first eight bytes with `byteorder`'s
/// `read_i64::<BE>`, as two's complement, most significant byte first. With
/// fewer bytes there is none.
#[verifier::external_body]
fn get_i64(buf: &[u8]) -> (r: Option<i64>)
    ensures
        match r {
            Some(n) => buf@.len() >= 8 && bits_of(n) == be_value(buf@.subrange(0, 8)),
            None => buf@.len() < 8,
        },
{
    let mut rest = buf;
    rest.read_i64::<BE>().ok()
}

/// A payload as the codec encoded it, or why it could not.
pub type Encoded = Result<Vec<u8>, String>;

/// An input of consensus, as the log sees it.
pub enum Input {
    /// A vote, encoded as a consensus message.
    Vote(Encoded),
    /// A proposal, encoded as a consensus message.
    Proposal(Encoded),
    /// A timeout.
    TimeoutElapsed(Timeout),
    /// A proposed value, encoded.
    ProposedValue(Encoded, ValueOrigin),
    /// A polka certificate, encoded.
    PolkaCertificate(Encoded),
    /// The start of a height; not logged.
    StartHeight,
    /// A request to propose; not logged.
    Propose,
    /// A round certificate; not logged.
    RoundCertificate,
    /// A value from sync; not logged.
    SyncValueResponse,
}

/// An entry read from the log.
pub enum Entry {
    /// A vote or a proposal, to be decoded as a consensus message.
    Consensus(Vec<u8>),
    /// A timeout.
    TimeoutElapsed(Timeout),
    /// A proposed value, to be decoded. Its origin is always consensus: what
    /// is replayed comes from local storage.
    ProposedValue(Vec<u8>, ValueOrigin),
    /// A polka certificate, to be decoded.
    PolkaCertificate(Vec<u8>),
}

/// What an entry says.
pub enum EntryView {
    Consensus(Seq<u8>),
    TimeoutElapsed(Timeout),
    ProposedValue(Seq<u8>, ValueOrigin),
    PolkaCertificate(Seq<u8>),
}

impl View for Entry {
    type V = EntryView;

    open spec fn view(&self) -> EntryView {
        match self {
            Entry::Consensus(b) => EntryView::Consensus(b@),
            Entry::TimeoutElapsed(t) => EntryView::TimeoutElapsed(*t),
            Entry::ProposedValue(b, o) => EntryView::ProposedValue(b@, *o),
            Entry::PolkaCertificate(b) => EntryView::PolkaCertificate(b@),
        }
    }
}

/// Why an entry could not be written or read.
pub enum EntryError {
    /// The input is not one that the log keeps.
    NotPersisted,
    /// A timeout for finalizing a height is not one that the log keeps.
    FinalizeHeightNotWritten,
    /// The codec could not encode the payload.
    EncodePayload(String),
    /// The bytes end before the entry does.
    UnexpectedEof,
    /// The tag is unknown.
    InvalidTag,
    /// Commit timeouts are no longer supported.
    CommitTimeout,
    /// Prevote and precommit time limits are no longer supported.
    TimeLimitTimeout,
    /// A timeout for finalizing a height is not one that the log keeps.
    FinalizeHeightRead,
    /// The step of the timeout is unknown.
    InvalidTimeoutStep,
    /// The codec could not decode the payload.
    DecodePayload(String),
}

/// The classes of input and output error.
#[derive(Clone, Copy, Debug, PartialEq, Eq, Structural)]
pub enum ErrorKind {
    InvalidInput,
    InvalidData,
    UnexpectedEof,
}

impl EntryError {
    /// The class of the error: input that should not be persisted is
    /// `InvalidInput`, damaged or unsupported data is `InvalidData`.
    pub open spec fn kind_of(self) -> ErrorKind {
        match self {
            EntryError::NotPersisted => ErrorKind::InvalidInput,
            EntryError::FinalizeHeightNotWritten => ErrorKind::InvalidInput,
            EntryError::UnexpectedEof => ErrorKind::UnexpectedEof,
            _ => ErrorKind::InvalidData,
        }
    }

    /// The class of the error.
    pub fn kind(&self) -> (r: ErrorKind)
        ensures
            r == self.kind_of(),
    {
        match self {
            EntryError::NotPersisted => ErrorKind::InvalidInput,
            EntryError::FinalizeHeightNotWritten => ErrorKind::InvalidInput,
            EntryError::UnexpectedEof => ErrorKind::UnexpectedEof,
            _ => ErrorKind::InvalidData,
        }
    }

    /// The text of the error.
    pub open spec fn text(self) -> Seq<char> {
        match self {
            EntryError::NotPersisted => "input variant is not persisted to the WAL"@,
            EntryError::FinalizeHeightNotWritten
                => "FinalizeHeight timeout should not be written to WAL"@,
            EntryError::EncodePayload(e) => "failed to encode WAL entry payload: "@ + e@,
            EntryError::UnexpectedEof => "failed to fill whole buffer"@,
            EntryError::InvalidTag => "invalid tag"@,
            EntryError::CommitTimeout => "commit timeouts are no longer supported, ignoring"@,
            EntryError::TimeLimitTimeout
                => "prevote/precommit time limit timeouts are no longer supported, ignoring"@,
            EntryError::FinalizeHeightRead
                => "FinalizeHeight timeouts are not persisted to WAL, ignoring"@,
            EntryError::InvalidTimeoutStep => "invalid timeout step"@,
            EntryError::DecodePayload(e) => "failed to decode WAL entry payload: "@ + e@,
        }
    }

    /// The text of the error.
    pub fn message(&self) -> (r: String)
        ensures
            r@ == self.text(),
    {
        match self {
            EntryError::NotPersisted => "input variant is not persisted to the WAL".to_owned(),
            EntryError::FinalizeHeightNotWritten
                => "FinalizeHeight timeout should not be written to WAL".to_owned(),
            EntryError::EncodePayload(e) => {
                "failed to encode WAL entry payload: ".to_owned().concat(e.as_str())
            },
            EntryError::UnexpectedEof => "failed to fill whole buffer".to_owned(),
            EntryError::InvalidTag => "invalid tag".to_owned(),
            EntryError::CommitTimeout
                => "commit timeouts are no longer supported, ignoring".to_owned(),
            EntryError::TimeLimitTimeout
                => "prevote/precommit time limit timeouts are no longer supported, ignoring".to_owned(),
            EntryError::FinalizeHeightRead
                => "FinalizeHeight timeouts are not persisted to WAL, ignoring".to_owned(),
            EntryError::InvalidTimeoutStep => "invalid timeout step".to_owned(),
            EntryError::DecodePayload(e) => {
                "failed to decode WAL entry payload: ".to_owned().concat(e.as_str())
            },
        }
    }
}

/// A payload behind its tag and length.
pub open spec fn framed(tag: u8, payload: Seq<u8>) -> Seq<u8> {
    seq![tag] + be_bytes(payload.len(), 8) + payload
}

/// The step byte of a timeout, where the log keeps timeouts of its kind.
pub open spec fn step_of(kind: TimeoutKind) -> Option<u8> {
    match kind {
        TimeoutKind::Propose => Some(1u8),
        TimeoutKind::Prevote => Some(2u8),
        TimeoutKind::Precommit => Some(3u8),
        TimeoutKind::Rebroadcast => Some(7u8),
        TimeoutKind::FinalizeHeight(_) => None,
    }
}

/// The bytes of an encoded payload behind `tag`, or the codec's error.
pub open spec fn framed_payload(tag: u8, e: Encoded) -> Result<Seq<u8>, EntryError> {
    match e {
        Ok(b) => Ok(framed(tag, b@)),
        Err(m) => Err(EntryError::EncodePayload(m)),
    }
}

/// The bytes of the entry for `input`, or why there are none.
pub open spec fn encoding(input: Input) -> Result<Seq<u8>, EntryError> {
    match input {
        Input::Vote(e) => framed_payload(TAG_CONSENSUS, e),
        Input::Proposal(e) => framed_payload(TAG_CONSENSUS, e),
        Input::TimeoutElapsed(t) => match step_of(t.kind) {
            Some(step) => Ok(seq![TAG_TIMEOUT, step] + be_bytes(bits_of(t.round.number() as i64), 8)),
            None => Err(EntryError::FinalizeHeightNotWritten),
        },
        Input::ProposedValue(e, _) => framed_payload(TAG_PROPOSED_VALUE, e),
        Input::PolkaCertificate(e) => framed_payload(TAG_POLKA_CERTIFICATE, e),
        Input::StartHeight => Err(EntryError::NotPersisted),
        Input::Propose => Err(EntryError::NotPersisted),
        Input::RoundCertificate => Err(EntryError::NotPersisted),
        Input::SyncValueResponse => Err(EntryError::NotPersisted),
    }
}

/// Append the entry for `entry` to `buf`.
///
/// Only inputs whose effect must survive a crash are accepted. The others are
/// refused, and nothing is written.
pub fn encode_entry(entry: Input, buf: &mut Vec<u8>) -> (r: Result<(), EntryError>)
    ensures
        match encoding(entry) {
            Ok(bytes) => r is Ok && final(buf)@ == old(buf)@ + bytes,
            Err(e) => r == Err::<(), EntryError>(e) && final(buf)@ == old(buf)@,
        },
{
    match entry {
        Input::Vote(e) => encode_codec_payload(TAG_CONSENSUS, e, buf),
        Input::Proposal(e) => encode_codec_payload(TAG_CONSENSUS, e, buf),
        Input::TimeoutElapsed(timeout) => encode_timeout(TAG_TIMEOUT, &timeout, buf),
        Input::ProposedValue(e, _) => encode_codec_payload(TAG_PROPOSED_VALUE, e, buf),
        Input::PolkaCertificate(e) => encode_codec_payload(TAG_POLKA_CERTIFICATE, e, buf),
        Input::StartHeight => Err(EntryError::NotPersisted),
        Input::Propose => Err(EntryError::NotPersisted),
        Input::RoundCertificate => Err(EntryError::NotPersisted),
        Input::SyncValueResponse => Err(EntryError::NotPersisted),
    }
}

/// Append `payload` behind `tag` and its length.
fn encode_codec_payload(tag: u8, payload: Encoded, buf: &mut Vec<u8>) -> (r: Result<(), EntryError>)
    ensures
        match framed_payload(tag, payload) {
            Ok(bytes) => r is Ok && final(buf)@ == old(buf)@ + bytes,
            Err(e) => r == Err::<(), EntryError>(e) && final(buf)@ == old(buf)@,
        },
{
    match payload {
        Err(e) => Err(EntryError::EncodePayload(e)),
        Ok(mut bytes) => {
            let ghost payload_seq = bytes@;
            buf.push(tag);
            put_u64(buf, bytes.len() as u64);
            buf.append(&mut bytes);
            assert(buf@ =~= old(buf)@ + framed(tag, payload_seq));
            Ok(())
        },
    }
}

/// Append `timeout` behind `tag`: the step, then the round.
fn encode_timeout(tag: u8, timeout: &Timeout, buf: &mut Vec<u8>) -> (r: Result<(), EntryError>)
    ensures
        match step_of(timeout.kind) {
            Some(step) => r is Ok && final(buf)@ == old(buf)@ + (seq![tag, step] + be_bytes(
                bits_of(timeout.round.number() as i64),
                8,
            )),
            None => r == Err::<(), EntryError>(EntryError::FinalizeHeightNotWritten) && final(buf)@
                == old(buf)@,
        },
{
    let step: u8 = match timeout.kind {
        TimeoutKind::Propose => 1,
        TimeoutKind::Prevote => 2,
        TimeoutKind::Precommit => 3,
        TimeoutKind::Rebroadcast => 7,
        TimeoutKind::FinalizeHeight(_) => {
            return Err(EntryError::FinalizeHeightNotWritten);
        },
    };
    buf.push(tag);
    buf.push(step);
    put_i64(buf, timeout.round.as_i64());
    assert(buf@ =~= old(buf)@ + (seq![tag, step] + be_bytes(
        bits_of(timeout.round.number() as i64),
        8,
    )));
    Ok(())
}

/// The payload at the start of `bytes`, which begin with its length.
pub open spec fn payload_in(bytes: Seq<u8>) -> Option<Seq<u8>> {
    if bytes.len() < 8 || bytes.len() - 8 < be_value(bytes.subrange(0, 8)) {
        None
    } else {
        Some(bytes.subrange(8, 8 + be_value(bytes.subrange(0, 8)) as int))
    }
}

/// The kind of timeout with the step byte `step`.
pub open spec fn kind_at(step: u8) -> Result<TimeoutKind, EntryError> {
    if step == 1 {
        Ok(TimeoutKind::Propose)
    } else if step == 2 {
        Ok(TimeoutKind::Prevote)
    } else if step == 3 {
        Ok(TimeoutKind::Precommit)
    } else if step == 4 {
        Err(EntryError::CommitTimeout)
    } else if step == 5 || step == 6 {
        Err(EntryError::TimeLimitTimeout)
    } else if step == 7 {
        Ok(TimeoutKind::Rebroadcast)
    } else if step == 8 {
        Err(EntryError::FinalizeHeightRead)
    } else {
        Err(EntryError::InvalidTimeoutStep)
    }
}

/// The signed number with the bits of `n`.
pub open spec fn signed_of(n: nat) -> i64 {
    if n < 0x8000_0000_0000_0000 {
        n as i64
    } else {
        (n - 0x1_0000_0000_0000_0000) as i64
    }
}

/// The timeout at the start of `bytes`.
pub open spec fn timeout_in(bytes: Seq<u8>) -> Result<Timeout, EntryError> {
    if bytes.len() == 0 {
        Err(EntryError::UnexpectedEof)
    } else {
        match kind_at(bytes[0]) {
            Err(e) => Err(e),
            Ok(kind) => if bytes.len() < 9 {
                Err(EntryError::UnexpectedEof)
            } else {
                Ok(Timeout { round: round_of(signed_of(be_value(bytes.subrange(1, 9)))), kind })
            },
        }
    }
}

/// The entry at the start of `bytes`, or why there is none.
pub open spec fn decoding(bytes: Seq<u8>) -> Result<EntryView, EntryError> {
    if bytes.len() == 0 {
        Err(EntryError::UnexpectedEof)
    } else {
        let rest = bytes.subrange(1, bytes.len() as int);
        if bytes[0] == TAG_CONSENSUS {
            match payload_in(rest) {
                Some(p) => Ok(EntryView::Consensus(p)),
                None => Err(EntryError::UnexpectedEof),
            }
        } else if bytes[0] == TAG_TIMEOUT {
            match timeout_in(rest) {
                Ok(t) => Ok(EntryView::TimeoutElapsed(t)),
                Err(e) => Err(e),
            }
        } else if bytes[0] == TAG_PROPOSED_VALUE {
            match payload_in(rest) {
                Some(p) => Ok(EntryView::ProposedValue(p, ValueOrigin::Consensus)),
                None => Err(EntryError::UnexpectedEof),
            }
        } else if bytes[0] == TAG_POLKA_CERTIFICATE {
            match payload_in(rest) {
                Some(p) => Ok(EntryView::PolkaCertificate(p)),
                None => Err(EntryError::UnexpectedEof),
            }
        } else {
            Err(EntryError::InvalidTag)
        }
    }
}

/// Read the entry at the start of `buf`. Bytes behind the entry are left
/// unread.
pub fn decode_entry(buf: &[u8]) -> (r: Result<Entry, EntryError>)
    ensures
        match r {
            Ok(e) => decoding(buf@) == Ok::<EntryView, EntryError>(e@),
            Err(e) => decoding(buf@) == Err::<EntryView, EntryError>(e),
        },
{
    if buf.len() == 0 {
        return Err(EntryError::UnexpectedEof);
    }
    let tag: u8 = buf[0];
    let rest = vstd::slice::slice_subrange(buf, 1, buf.len());
    if tag == TAG_CONSENSUS {
        match decode_codec_payload(rest) {
            Some(p) => Ok(Entry::Consensus(p)),
            None => Err(EntryError::UnexpectedEof),
        }
    } else if tag == TAG_TIMEOUT {
        match decode_timeout(rest) {
            Ok(t) => Ok(Entry::TimeoutElapsed(t)),
            Err(e) => Err(e),
        }
    } else if tag == TAG_PROPOSED_VALUE {
        match decode_codec_payload(rest) {
            Some(p) => Ok(Entry::ProposedValue(p, ValueOrigin::Consensus)),
            None => Err(EntryError::UnexpectedEof),
        }
    } else if tag == TAG_POLKA_CERTIFICATE {
        match decode_codec_payload(rest) {
            Some(p) => Ok(Entry::PolkaCertificate(p)),
            None => Err(EntryError::UnexpectedEof),
        }
    } else {
        Err(EntryError::InvalidTag)
    }
}

/// Read the payload at the start of `buf`, which begins with its length.
fn decode_codec_payload(buf: &[u8]) -> (r: Option<Vec<u8>>)
    ensures
        match r {
            Some(p) => payload_in(buf@) == Some(p@),
            None => payload_in(buf@) is None,
        },
{
    let len: u64 = match get_u64(buf) {
        Some(n) => n,
        None => {
            return None;
        },
    };
    if len > (buf.len() - 8) as u64 {
        return None;
    }
    let end: usize = 8 + len as usize;
    Some(vstd::slice::slice_to_vec(vstd::slice::slice_subrange(buf, 8, end)))
}

/// Read the timeout at the start of `buf`.
fn decode_timeout(buf: &[u8]) -> (r: Result<Timeout, EntryError>)
    ensures
        r == timeout_in(buf@),
{
    if buf.len() == 0 {
        return Err(EntryError::UnexpectedEof);
    }
    let step: u8 = buf[0];
    let kind = match step {
        1 => TimeoutKind::Propose,
        2 => TimeoutKind::Prevote,
        3 => TimeoutKind::Precommit,
        4 => {
            return Err(EntryError::CommitTimeout);
        },
        5 | 6 => {
            return Err(EntryError::TimeLimitTimeout);
        },
        7 => TimeoutKind::Rebroadcast,
        8 => {
            return Err(EntryError::FinalizeHeightRead);
        },
        _ => {
            return Err(EntryError::InvalidTimeoutStep);
        },
    };
    let rest = vstd::slice::slice_subrange(buf, 1, buf.len());
    match get_i64(rest) {
        Some(n) => {
            proof {
                assert(rest@.subrange(0, 8) =~= buf@.subrange(1, 9));
                assert(signed_of(bits_of(n)) == n);
            }
            Ok(Timeout::new(round_from_i64(n), kind))
        },
        None => Err(EntryError::UnexpectedEof),
    }
}

/// What reading the entry for `input` gives back.
pub open spec fn reread(input: Input) -> Option<EntryView> {
    match input {
        Input::Vote(Ok(b)) => Some(EntryView::Consensus(b@)),
        Input::Proposal(Ok(b)) => Some(EntryView::Consensus(b@)),
        Input::TimeoutElapsed(t) => Some(EntryView::TimeoutElapsed(t)),
        Input::ProposedValue(Ok(b), _) => Some(
            EntryView::ProposedValue(b@, ValueOrigin::Consensus),
        ),
        Input::PolkaCertificate(Ok(b)) => Some(EntryView::PolkaCertificate(b@)),
        _ => None,
    }
}

proof fn lemma_framed(tag: u8, payload: Seq<u8>, rest: Seq<u8>)
    requires
        payload.len() <= u64::MAX,
    ensures
        ({
            let bytes = framed(tag, payload) + rest;
            bytes.len() > 0 && bytes[0] == tag && payload_in(
                bytes.subrange(1, bytes.len() as int),
            ) == Some(payload)
        }),
{
    let bytes = framed(tag, payload) + rest;
    lemma_be_bound_8();
    lemma_be_round_trip(payload.len(), 8);
    let tail = bytes.subrange(1, bytes.len() as int);
    assert(tail.subrange(0, 8) =~= be_bytes(payload.len(), 8));
    assert(tail.subrange(8, 8 + payload.len() as int) =~= payload);
}

/// An entry that was written is read back as it was, whatever follows it in
/// the log: messages and timeouts unchanged, a proposed value with consensus
/// as its origin.
pub proof fn law_entry_round_trip(input: Input, rest: Seq<u8>)
    requires
        encoding(input) is Ok,
    ensures
        reread(input) is Some,
        decoding(encoding(input)->Ok_0 + rest) == Ok::<EntryView, EntryError>(reread(input)->Some_0),
{
    let bytes = encoding(input)->Ok_0 + rest;
    match input {
        Input::Vote(Ok(b)) => {
            lemma_vec_len(b);
            lemma_framed(TAG_CONSENSUS, b@, rest);
        },
        Input::Proposal(Ok(b)) => {
            lemma_vec_len(b);
            lemma_framed(TAG_CONSENSUS, b@, rest);
        },
        Input::ProposedValue(Ok(b), _) => {
            lemma_vec_len(b);
            lemma_framed(TAG_PROPOSED_VALUE, b@, rest);
        },
        Input::PolkaCertificate(Ok(b)) => {
            lemma_vec_len(b);
            lemma_framed(TAG_POLKA_CERTIFICATE, b@, rest);
        },
        Input::TimeoutElapsed(t) => {
            let n = t.round.number() as i64;
            lemma_be_bound_8();
            lemma_be_round_trip(bits_of(n), 8);
            let tail = bytes.subrange(1, bytes.len() as int);
            assert(bytes[0] == TAG_TIMEOUT);
            assert(tail[0] == step_of(t.kind)->Some_0);
            assert(tail.subrange(1, 9) =~= be_bytes(bits_of(n), 8));
            assert(signed_of(bits_of(n)) == n);
            assert(round_of(n) == t.round);
        },
        _ => {},
    }
}

proof fn lemma_vec_len(b: Vec<u8>)
    ensures
        b@.len() <= u64::MAX,
{
    assert(b.len() as nat == b@.len());
}

} // verus!
