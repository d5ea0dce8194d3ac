//! How a proof is put on a stream: its length as an unsigned varint, then its
//! bytes. The response has no bytes.

use asynchronous_codec::{Decoder, Encoder};
use bytes::BytesMut;
use unsigned_varint::codec::UviBytes;
use vstd::prelude::*;

verus! {

/// The longest proof.
pub const MAX_MESSAGE_SIZE: usize = 1024;

/// How long a request may take to read, in milliseconds.
pub const READ_TIMEOUT: u64 = 5_000;

/// A request with a validator proof.
#[derive(Clone, Debug)]
pub enum ProofRequest {
    /// The bytes of a proof.
    Proof(Vec<u8>),
    /// The request could not be read: not well framed, too long, cut short, or
    /// too slow.
    Malformed,
}

/// A request, as a value.
pub enum ProofRequestView {
    Proof(Seq<u8>),
    Malformed,
}

impl View for ProofRequest {
    type V = ProofRequestView;

    open spec fn view(&self) -> ProofRequestView {
        match self {
            ProofRequest::Proof(b) => ProofRequestView::Proof(b@),
            ProofRequest::Malformed => ProofRequestView::Malformed,
        }
    }
}

/// `n` as an unsigned varint: seven bits to a byte, the lowest first, with the
/// highest bit set on all bytes but the last.
pub open spec fn varint(n: nat) -> Seq<u8>
    decreases n,
{
    if n < 128 {
        seq![n as u8]
    } else {
        seq![(n % 128 + 128) as u8] + varint(n / 128)
    }
}

/// `payload` with its length in front.
pub open spec fn framed(payload: Seq<u8>) -> Seq<u8> {
    varint(payload.len()) + payload
}

/// What the first frame of a byte string is read as by `unsigned_varint`, where
/// frames have up to `max` bytes: an error, nothing yet, or the payload.
pub uninterp spec fn uvi_frame(bytes: Seq<u8>, max: nat) -> Result<Option<Seq<u8>>, ()>;

/// A payload that may be missing, as a value.
pub open spec fn frame_view(r: Result<Option<Vec<u8>>, ()>) -> Result<Option<Seq<u8>>, ()> {
    match r {
        Ok(Some(p)) => Ok(Some(p@)),
        Ok(None) => Ok(None),
        Err(e) => Err(e),
    }
}

/// Nothing is read yet.
pub open spec fn incomplete() -> Result<Option<Seq<u8>>, ()> {
    Ok(None)
}

/// Read a frame with `unsigned_varint`'s `UviBytes`, as `asynchronous_codec`'s
/// `Decoder::decode`. The result depends on the bytes and on the bound alone and
/// is named [`uvi_frame`]. A frame that was written with its length in front is
/// read back, whatever follows it, unless it is longer than the bound, which is
/// an error; while a part of it is missing, there is nothing yet.
#[verifier::external_body]
fn decode_frame(bytes: &[u8], max: usize) -> (r: Result<Option<Vec<u8>>, ()>)
    requires
        max <= MAX_MESSAGE_SIZE,
    ensures
        frame_view(r) == uvi_frame(bytes@, max as nat),
        forall|p: Seq<u8>, rest: Seq<u8>| #[trigger]
            (framed(p) + rest) == bytes@ ==> frame_view(r) == (if p.len() <= max {
                Ok(Some(p))
            } else {
                Err(())
            }),
        forall|p: Seq<u8>, rest: Seq<u8>|
            #![trigger framed(p), bytes@ + rest]
            framed(p) == bytes@ + rest && rest.len() > 0 && p.len() <= max ==> frame_view(r) == incomplete(),
        r matches Ok(Some(p)) ==> p@.len() <= max,
{
    let mut framing: UviBytes = UviBytes::default();
    framing.set_max_len(max);
    let frame = framing.decode(&mut BytesMut::from(bytes)).map_err(|_| ())?;
    Ok(frame.map(|payload| payload.to_vec()))
}

/// Write a frame with `unsigned_varint`'s `UviBytes`, as `asynchronous_codec`'s
/// `Encoder::encode`: the length as an unsigned varint, then the bytes. An error
/// where there are more bytes than the bound.
#[verifier::external_body]
fn encode_frame(payload: &[u8], max: usize) -> (r: Option<Vec<u8>>)
    ensures
        match r {
            Some(b) => payload@.len() <= max && b@ == framed(payload@),
            None => payload@.len() > max,
        },
{
    let mut framing: UviBytes = UviBytes::default();
    framing.set_max_len(max);
    let mut out = BytesMut::new();
    framing.encode(bytes::Bytes::copy_from_slice(payload), &mut out).ok()?;
    Some(out.to_vec())
}

/// What is known of a request that is being read.
pub enum ReadStep {
    /// The request is read.
    Done(ProofRequest),
    /// There are bytes missing.
    More,
}

/// Why no more bytes come.
#[derive(Clone, Copy, Debug, PartialEq, Eq, Structural)]
pub enum StreamState {
    /// More bytes may come.
    Open,
    /// The stream has ended, has failed, or took too long.
    Over,
}

/// The request that a frame stands for: anything but a whole frame is malformed.
pub open spec fn request_in(frame: Result<Option<Seq<u8>>, ()>) -> ProofRequestView {
    match frame {
        Ok(Some(p)) => ProofRequestView::Proof(p),
        _ => ProofRequestView::Malformed,
    }
}

/// The request that a frame stands for.
pub fn request_of(frame: Result<Option<Vec<u8>>, ()>) -> (r: ProofRequest)
    ensures
        r@ == request_in(frame_view(frame)),
{
    match frame {
        Ok(Some(p)) => ProofRequest::Proof(p),
        _ => ProofRequest::Malformed,
    }
}

/// What follows from a frame that was read from a stream in the given state.
pub fn step_for(frame: Result<Option<Vec<u8>>, ()>, stream: StreamState) -> (r: ReadStep)
    ensures
        match r {
            ReadStep::More => frame_view(frame) == incomplete() && stream == StreamState::Open,
            ReadStep::Done(q) => !(frame_view(frame) == incomplete() && stream == StreamState::Open)
                && q@ == request_in(frame_view(frame)),
        },
{
    match (&frame, stream) {
        (Ok(None), StreamState::Open) => ReadStep::More,
        _ => ReadStep::Done(request_of(frame)),
    }
}

/// How requests and responses are read and written.
#[derive(Clone, Copy, Debug, PartialEq, Eq, Structural)]
pub struct Codec;

impl Codec {
    /// Read a request from the bytes that have come so far. A request is read once
    /// its frame is whole; it never fails, so that a malformed one can be refused.
    pub fn read_request(&self, bytes: &[u8], stream: StreamState) -> (r: ReadStep)
        ensures
            match r {
                ReadStep::More => uvi_frame(bytes@, MAX_MESSAGE_SIZE as nat) == incomplete() && stream
                    == StreamState::Open,
                ReadStep::Done(q) => !(uvi_frame(bytes@, MAX_MESSAGE_SIZE as nat) == incomplete() && stream
                    == StreamState::Open) && q@ == request_in(
                    uvi_frame(bytes@, MAX_MESSAGE_SIZE as nat),
                ),
            },
            forall|p: Seq<u8>, rest: Seq<u8>| #[trigger]
                (framed(p) + rest) == bytes@ && p.len() <= MAX_MESSAGE_SIZE ==> (r matches ReadStep::Done(q)
                    && q@ == ProofRequestView::Proof(p)),
            forall|p: Seq<u8>, rest: Seq<u8>| #[trigger]
                (framed(p) + rest) == bytes@ && p.len() > MAX_MESSAGE_SIZE ==> (r matches ReadStep::Done(q)
                    && q@ == ProofRequestView::Malformed),
            forall|p: Seq<u8>, rest: Seq<u8>|
                #![trigger framed(p), bytes@ + rest]
                framed(p) == bytes@ + rest && rest.len() > 0 && p.len() <= MAX_MESSAGE_SIZE ==> match stream {
                    StreamState::Open => r is More,
                    StreamState::Over => r matches ReadStep::Done(q) && q@ == ProofRequestView::Malformed,
                },
            r matches ReadStep::Done(ProofRequest::Proof(p)) ==> p@.len() <= MAX_MESSAGE_SIZE,
    {
        step_for(decode_frame(bytes, MAX_MESSAGE_SIZE), stream)
    }

    /// The bytes of a request; none where the proof is too long. Only proofs are
    /// sent: a malformed request is only ever received.
    pub fn write_request(&self, request: &ProofRequest) -> (r: Option<Vec<u8>>)
        requires
            *request is Proof,
        ensures
            request@ matches ProofRequestView::Proof(p) && match r {
                Some(b) => p.len() <= MAX_MESSAGE_SIZE && b@ == framed(p),
                None => p.len() > MAX_MESSAGE_SIZE,
            },
    {
        match request {
            ProofRequest::Proof(bytes) => encode_frame(bytes.as_slice(), MAX_MESSAGE_SIZE),
            ProofRequest::Malformed => None,
        }
    }

    /// The bytes of a response: none.
    pub fn write_response(&self) -> (r: Vec<u8>)
        ensures
            r@ == Seq::<u8>::empty(),
    {
        let r: Vec<u8> = Vec::new();
        assert(r@ =~= Seq::<u8>::empty());
        r
    }

    /// Read a response, which has no bytes: nothing is taken from the stream.
    pub fn read_response(&self, bytes: &[u8]) -> (r: usize)
        ensures
            r == 0,
    {
        0
    }
}

/// What is written is read back: once the whole of a written proof has come,
/// whatever follows it, it is read as that proof; and while a part of it is
/// missing, nothing is read, or a malformed request where no more can come.
pub proof fn law_written_proof_is_read_back(
    codec: Codec,
    request: ProofRequest,
    written: Vec<u8>,
    read: &[u8],
    rest: Seq<u8>,
    stream: StreamState,
    step: ReadStep,
)
    requires
        request is Proof,
        call_ensures(Codec::write_request, (&codec, &request), Some(written)),
        call_ensures(Codec::read_request, (&codec, read, stream), step),
    ensures
        read@ == written@ + rest ==> (step matches ReadStep::Done(q) && q@ == request@),
        written@ == read@ + rest && rest.len() > 0 ==> match stream {
            StreamState::Open => step is More,
            StreamState::Over => step matches ReadStep::Done(q) && q@ == ProofRequestView::Malformed,
        },
{
    let p = request->Proof_0@;
    assert(written@ == framed(p));
    if read@ == written@ + rest {
        assert((framed(p) + rest) == read@);
    }
}

} // verus!
