use gist_identity::gist_json::ParseError;
use gist_identity::oracle::{
    Call, DispatchError, GistId, InvalidTransaction, Oracle, Origin, RESPONSE_LONGEVITY,
    RESPONSE_PRIORITY,
};
use gist_identity::worker::{process_round, summarize, FetchError, SubmissionError, WorkerError};

fn gist(name: &str) -> GistId {
    let mut id = [0u8; 32];
    id[..name.len()].copy_from_slice(name.as_bytes());
    id
}

/// An account whose encoding spells `alice_id`.
fn alice() -> u64 {
    u64::from_le_bytes(*b"alice_id")
}

fn bob() -> u64 {
    u64::from_le_bytes(*b"bob_id__")
}

fn gist_body(filename: &str, login: &str) -> Vec<u8> {
    format!(
        "{{\"files\":{{\"{}\":{{\"size\":3}}}},\"owner\":{{\"login\":\"{}\",\"id\":7}}}}",
        filename, login
    )
    .into_bytes()
}

fn tag_of(account: u64) -> Vec<u8> {
    let mut tag = vec![64u8];
    tag.extend_from_slice(b"github::identity");
    tag.extend_from_slice(&account.to_le_bytes());
    tag
}

#[test]
fn verified_claim_binds_username() {
    let mut oracle = Oracle::new();
    oracle.submit(alice(), gist("gist-1"));
    let pending = oracle.pending();
    assert_eq!(pending.len(), 1);
    let fetched = vec![Ok(gist_body("alice_id", "alice_gh"))];
    let mut outcomes = process_round(&pending, &fetched);
    let call = outcomes.remove(0).unwrap();
    assert_eq!(call, Call::RespondVerification(alice(), b"alice_gh".to_vec()));
    let valid = oracle.validate_unsigned(&call).unwrap();
    assert_eq!(valid.admission.account(), alice());
    assert_eq!(valid.priority, RESPONSE_PRIORITY);
    assert_eq!(valid.priority, 1 << 20);
    assert_eq!(valid.longevity, RESPONSE_LONGEVITY);
    assert_eq!(valid.longevity, 5);
    assert!(valid.propagate);
    assert!(valid.requires.is_empty());
    assert_eq!(valid.provides, vec![tag_of(alice())]);
    assert_eq!(oracle.dispatch(Origin::Unsigned(valid.admission), call), Ok(()));
    assert!(!oracle.contains(alice()));
    assert_eq!(oracle.lookup(alice()), Some(b"alice_gh".to_vec()));
}

#[test]
fn mismatched_filename_leaves_request_pending() {
    let mut oracle = Oracle::new();
    oracle.submit(alice(), gist("gist-1"));
    let pending = oracle.pending();
    let fetched = vec![Ok(gist_body("bob_id__", "alice_gh"))];
    let outcomes = process_round(&pending, &fetched);
    assert_eq!(outcomes, vec![Err(WorkerError::ProofMismatch)]);
    assert!(oracle.contains(alice()));
    assert_eq!(oracle.lookup(alice()), None);
}

#[test]
fn late_response_is_stale() {
    let mut oracle = Oracle::new();
    oracle.submit(alice(), gist("gist-1"));
    let first = Call::RespondVerification(alice(), b"alice_gh".to_vec());
    let early = Call::RespondVerification(alice(), b"alice_gh".to_vec());
    let first_admission = oracle.validate_unsigned(&first).unwrap().admission;
    let early_admission = oracle.validate_unsigned(&early).unwrap().admission;
    assert_eq!(oracle.dispatch(Origin::Unsigned(first_admission), first), Ok(()));
    let late = Call::RespondVerification(alice(), b"alice_gh".to_vec());
    assert_eq!(oracle.validate_unsigned(&late), Err(InvalidTransaction::Stale));
    assert_eq!(
        oracle.dispatch(Origin::Unsigned(early_admission), late),
        Err(DispatchError::NoMatchingRequest)
    );
    assert!(!oracle.contains(alice()));
    assert_eq!(oracle.lookup(alice()), Some(b"alice_gh".to_vec()));
}

#[test]
fn second_submit_overwrites_first() {
    let mut oracle = Oracle::new();
    oracle.submit(alice(), gist("gist-1"));
    oracle.submit(alice(), gist("gist-2"));
    let pending = oracle.pending();
    assert_eq!(pending.len(), 1);
    assert_eq!(pending[0].account, alice());
    assert_eq!(pending[0].gist_id, gist("gist-2"));
    assert_eq!(oracle.request(alice()).unwrap().gist_id, gist("gist-2"));
}

#[test]
fn remove_twice_is_remove_once() {
    let mut once = Oracle::new();
    let mut twice = Oracle::new();
    for o in [&mut once, &mut twice] {
        o.submit(alice(), gist("gist-1"));
        o.submit(bob(), gist("gist-3"));
    }
    once.remove(alice());
    twice.remove(alice());
    twice.remove(alice());
    assert_eq!(once.pending(), twice.pending());
    assert!(!twice.contains(alice()));
    assert!(twice.contains(bob()));
}

#[test]
fn response_without_request_is_rejected() {
    let mut oracle = Oracle::new();
    oracle.submit(bob(), gist("gist-3"));
    for name in [&b""[..], b"alice_gh", b"anything else"] {
        let call = Call::RespondVerification(alice(), name.to_vec());
        assert_eq!(oracle.validate_unsigned(&call), Err(InvalidTransaction::Stale));
    }
    oracle.submit(alice(), gist("gist-1"));
    let call = Call::RespondVerification(alice(), b"x".to_vec());
    let admission = oracle.validate_unsigned(&call).unwrap().admission;
    oracle.remove(alice());
    assert_eq!(
        oracle.respond_verification(Origin::Unsigned(admission), alice(), b"x".to_vec()),
        Err(DispatchError::NoMatchingRequest)
    );
    assert_eq!(oracle.lookup(alice()), None);
    assert!(oracle.contains(bob()));
}

#[test]
fn failed_fetch_does_not_stop_the_round() {
    let mut oracle = Oracle::new();
    oracle.submit(alice(), gist("gist-1"));
    oracle.submit(bob(), gist("gist-3"));
    let pending = oracle.pending();
    let fetched: Vec<Result<Vec<u8>, FetchError>> = pending
        .iter()
        .map(|r| {
            if r.account == alice() {
                Err(FetchError::Network)
            } else {
                Ok(gist_body("bob_id__", "bob_gh"))
            }
        })
        .collect();
    let outcomes = process_round(&pending, &fetched);
    for (req, out) in pending.iter().zip(outcomes.iter()) {
        if req.account == alice() {
            assert_eq!(out, &Err(WorkerError::Fetch(FetchError::Network)));
        } else {
            assert_eq!(out, &Ok(Call::RespondVerification(bob(), b"bob_gh".to_vec())));
        }
    }
}

#[test]
fn request_verification_needs_signed_origin() {
    let mut oracle = Oracle::new();
    oracle.submit(bob(), gist("gist-3"));
    let call = Call::RespondVerification(bob(), b"bob_gh".to_vec());
    let admission = oracle.validate_unsigned(&call).unwrap().admission;
    assert_eq!(
        oracle.request_verification(Origin::Unsigned(admission), gist("gist-1")),
        Err(DispatchError::BadOrigin)
    );
    assert!(!oracle.contains(alice()));
    assert_eq!(oracle.request_verification(Origin::Signed(alice()), gist("gist-1")), Ok(()));
    assert_eq!(oracle.request(alice()).unwrap().gist_id, gist("gist-1"));
    assert_eq!(
        oracle.dispatch(Origin::Signed(bob()), Call::RequestVerification(gist("gist-3"))),
        Ok(())
    );
    assert!(oracle.contains(bob()));
}

#[test]
fn respond_verification_needs_unsigned_origin() {
    let mut oracle = Oracle::new();
    oracle.submit(alice(), gist("gist-1"));
    assert_eq!(
        oracle.respond_verification(Origin::Signed(alice()), alice(), b"alice_gh".to_vec()),
        Err(DispatchError::BadOrigin)
    );
    assert!(oracle.contains(alice()));
    assert_eq!(oracle.lookup(alice()), None);
}

#[test]
fn admission_covers_only_its_own_response() {
    let mut oracle = Oracle::new();
    oracle.submit(alice(), gist("gist-1"));
    oracle.submit(bob(), gist("gist-3"));
    let call = Call::RespondVerification(alice(), b"alice_gh".to_vec());
    let admission = oracle.validate_unsigned(&call).unwrap().admission;
    assert_eq!(
        oracle.respond_verification(Origin::Unsigned(admission), alice(), b"mallory".to_vec()),
        Err(DispatchError::BadOrigin)
    );
    let admission = oracle.validate_unsigned(&call).unwrap().admission;
    assert_eq!(
        oracle.respond_verification(Origin::Unsigned(admission), bob(), b"alice_gh".to_vec()),
        Err(DispatchError::BadOrigin)
    );
    assert!(oracle.contains(alice()));
    assert!(oracle.contains(bob()));
    assert_eq!(oracle.lookup(alice()), None);
    assert_eq!(oracle.lookup(bob()), None);
}

#[test]
fn gate_rejects_non_response_calls() {
    let mut oracle = Oracle::new();
    oracle.submit(alice(), gist("gist-1"));
    let call = Call::RequestVerification(gist("gist-1"));
    assert_eq!(oracle.validate_unsigned(&call), Err(InvalidTransaction::Call));
}

#[test]
fn rebinding_overwrites_username() {
    let mut oracle = Oracle::new();
    for name in [&b"old"[..], b"new"] {
        oracle.submit(alice(), gist("gist-1"));
        let call = Call::RespondVerification(alice(), name.to_vec());
        let admission = oracle.validate_unsigned(&call).unwrap().admission;
        assert_eq!(oracle.dispatch(Origin::Unsigned(admission), call), Ok(()));
    }
    assert_eq!(oracle.lookup(alice()), Some(b"new".to_vec()));
}

#[test]
fn empty_oracle_has_nothing_pending() {
    let oracle = Oracle::new();
    assert!(oracle.pending().is_empty());
    assert_eq!(oracle.request(alice()), None);
    assert_eq!(oracle.lookup(alice()), None);
}

#[test]
fn summary_counts_each_kind() {
    let results = vec![
        Ok(()),
        Err(WorkerError::Fetch(FetchError::Timeout)),
        Err(WorkerError::Parse(ParseError::Malformed)),
        Err(WorkerError::ProofMismatch),
        Err(WorkerError::Submission(SubmissionError::PoolFull)),
        Ok(()),
        Err(WorkerError::Fetch(FetchError::BadStatus)),
    ];
    let s = summarize(&results);
    assert_eq!(s.submitted, 2);
    assert_eq!(s.fetch_failures, 2);
    assert_eq!(s.parse_failures, 1);
    assert_eq!(s.mismatches, 1);
    assert_eq!(s.submission_failures, 1);
    let empty = summarize(&Vec::new());
    assert_eq!(empty.submitted + empty.fetch_failures + empty.mismatches, 0);
}
