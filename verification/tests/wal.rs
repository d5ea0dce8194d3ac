use malachitebft::engine::wal::{decode_entry, encode_entry, Entry, EntryError, ErrorKind, Input};
use malachitebft::types::{Round, Timeout, TimeoutKind, ValueOrigin};

fn encode(input: Input) -> Result<Vec<u8>, EntryError> {
    let mut buf = Vec::new();
    encode_entry(input, &mut buf).map(|_| buf)
}

fn payload() -> Vec<u8> {
    vec![1, 2, 3, 4, 5]
}

#[test]
fn payloads_round_trip() {
    let bytes = encode(Input::Vote(Ok(payload()))).ok().unwrap();
    assert_eq!(bytes, vec![0x01, 0, 0, 0, 0, 0, 0, 0, 5, 1, 2, 3, 4, 5]);
    assert!(matches!(decode_entry(&bytes), Ok(Entry::Consensus(b)) if b == payload()));

    let bytes = encode(Input::Proposal(Ok(payload()))).ok().unwrap();
    assert!(matches!(decode_entry(&bytes), Ok(Entry::Consensus(b)) if b == payload()));

    let bytes = encode(Input::PolkaCertificate(Ok(payload()))).ok().unwrap();
    assert_eq!(bytes[0], 0x08);
    assert!(matches!(decode_entry(&bytes), Ok(Entry::PolkaCertificate(b)) if b == payload()));
}

#[test]
fn replayed_value_comes_from_consensus() {
    let bytes = encode(Input::ProposedValue(Ok(payload()), ValueOrigin::Sync)).ok().unwrap();
    assert_eq!(bytes[0], 0x04);
    assert!(matches!(
        decode_entry(&bytes),
        Ok(Entry::ProposedValue(b, ValueOrigin::Consensus)) if b == payload()
    ));
}

#[test]
fn timeouts_round_trip() {
    for kind in [
        TimeoutKind::Propose,
        TimeoutKind::Prevote,
        TimeoutKind::Precommit,
        TimeoutKind::Rebroadcast,
    ] {
        for round in [Round::new(0), Round::new(7), Round::Nil] {
            let timeout = Timeout::new(round, kind);
            let bytes = encode(Input::TimeoutElapsed(timeout)).ok().unwrap();
            assert_eq!(bytes[0], 0x02);
            assert!(matches!(decode_entry(&bytes), Ok(Entry::TimeoutElapsed(t)) if t == timeout));
        }
    }
}

#[test]
fn round_is_written_as_a_signed_number() {
    let bytes = encode(Input::TimeoutElapsed(Timeout::new(Round::Nil, TimeoutKind::Propose))).ok().unwrap();
    assert_eq!(&bytes[bytes.len() - 8..], &[0xff; 8]);
}

#[test]
fn inputs_that_are_not_kept_are_refused() {
    for input in [
        Input::StartHeight,
        Input::Propose,
        Input::RoundCertificate,
        Input::SyncValueResponse,
    ] {
        let e = encode(input).err().unwrap();
        assert_eq!(e.kind(), ErrorKind::InvalidInput);
        assert_eq!(e.message(), "input variant is not persisted to the WAL");
    }
    let timeout = Timeout::new(Round::new(0), TimeoutKind::FinalizeHeight(5));
    let e = encode(Input::TimeoutElapsed(timeout)).err().unwrap();
    assert_eq!(e.kind(), ErrorKind::InvalidInput);
    assert_eq!(e.message(), "FinalizeHeight timeout should not be written to WAL");
}

#[test]
fn failed_encoding_writes_nothing() {
    let mut buf = vec![9];
    let e = encode_entry(Input::Vote(Err("no".to_string())), &mut buf).err().unwrap();
    assert_eq!(e.message(), "failed to encode WAL entry payload: no");
    assert_eq!(e.kind(), ErrorKind::InvalidData);
    assert_eq!(buf, vec![9]);
}

#[test]
fn damaged_entries_are_refused() {
    assert!(matches!(decode_entry(&[]), Err(EntryError::UnexpectedEof)));
    assert!(matches!(decode_entry(&[0x01, 0, 0]), Err(EntryError::UnexpectedEof)));
    let mut bytes = encode(Input::Vote(Ok(payload()))).ok().unwrap();
    bytes.pop();
    assert!(matches!(decode_entry(&bytes), Err(EntryError::UnexpectedEof)));
    let e = decode_entry(&[0x03]).err().unwrap();
    assert!(matches!(e, EntryError::InvalidTag));
    assert_eq!(e.kind(), ErrorKind::InvalidData);
}

#[test]
fn unsupported_timeouts_are_refused() {
    let timeout = Timeout::new(Round::new(1), TimeoutKind::Propose);
    let bytes = encode(Input::TimeoutElapsed(timeout)).ok().unwrap();
    let mut kinds = Vec::new();
    for step in 0..=12u8 {
        let mut changed = bytes.clone();
        changed[1] = step;
        kinds.push(match decode_entry(&changed) {
            Ok(_) => "ok",
            Err(EntryError::CommitTimeout) => "commit",
            Err(EntryError::TimeLimitTimeout) => "limit",
            Err(EntryError::FinalizeHeightRead) => "finalize",
            Err(EntryError::InvalidTimeoutStep) => "step",
            Err(_) => "other",
        });
    }
    assert_eq!(
        kinds,
        vec![
            "step", "ok", "ok", "ok", "commit", "limit", "limit", "ok", "finalize", "step", "step",
            "step", "step"
        ]
    );
}
