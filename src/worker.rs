use crate::encoding::{encode_account, le_bytes};
use crate::gist_json::{claim_of, extract_claim, Claim, ParseError};
use crate::oracle::{Call, Request};
use lite_json::JsonValue;
use vstd::prelude::*;
use vstd::string::StringSliceAdditionalSpecFns;
use vstd::utf8::encode_utf8;

verus! {

/// Why fetching a gist failed.
#[derive(Clone, Copy, Debug, PartialEq, Eq, Structural)]
pub enum FetchError {
    Network,
    BadStatus,
    Timeout,
}

/// Why the transaction pool refused a response.
#[derive(Clone, Copy, Debug, PartialEq, Eq, Structural)]
pub enum SubmissionError {
    PoolFull,
    AlreadyPresent,
}

/// Why the worker produced no response for a request in a round.
#[derive(Clone, Copy, Debug, PartialEq, Eq, Structural)]
pub enum WorkerError {
    Fetch(FetchError),
    Parse(ParseError),
    /// The gist's first file is not named after the account's encoding.
    ProofMismatch,
    Submission(SubmissionError),
}

/// Status code of a successful gist fetch.
pub const HTTP_OK: u16 = 200;

/// What an HTTP response to a gist fetch gives: its body where the status
/// is success, otherwise a bad-status failure.
pub fn accept_response(code: u16, body: Vec<u8>) -> (r: Result<Vec<u8>, FetchError>)
    ensures
        code == HTTP_OK ==> r is Ok && r->Ok_0@ == body@,
        code != HTTP_OK ==> r == Err::<Vec<u8>, FetchError>(FetchError::BadStatus),
{
    if code == HTTP_OK {
        Ok(body)
    } else {
        Err(FetchError::BadStatus)
    }
}

/// The text that a byte sequence decodes to as UTF-8, if it is valid UTF-8.
pub uninterp spec fn utf8_decode(b: Seq<u8>) -> Option<Seq<char>>;

/// What `lite_json::parse_json` returns for a text: the value it builds, or
/// `None` where it reports an error.
pub uninterp spec fn json_parse(s: Seq<char>) -> Option<JsonValue>;

/// Longest run of digits that fits the parser's `u64` accumulators.
pub const MAX_NUMBER_DIGITS: usize = 19;

/// Longest run of exponent digits that fits the parser's `i32` accumulator.
pub const MAX_EXPONENT_DIGITS: usize = 9;

/// Whether the text's scan, after the bytes before `k`, stands inside a
/// string literal, and whether the byte before `k` opened an escape there.
pub open spec fn literal_state(b: Seq<u8>, k: int) -> (bool, bool)
    decreases k,
{
    if k <= 0 {
        (false, false)
    } else {
        let (inside, escaped) = literal_state(b, k - 1);
        let c = b[k - 1];
        if !inside {
            (c == 34, false)
        } else if escaped {
            (true, false)
        } else if c == 92 {
            (true, true)
        } else {
            (c != 34, false)
        }
    }
}

pub open spec fn is_digit(c: u8) -> bool {
    48 <= c <= 57
}

/// Byte `k` is a digit outside string literals, so the parser would read it
/// as part of a number.
pub open spec fn number_digit(b: Seq<u8>, k: int) -> bool {
    !literal_state(b, k).0 && is_digit(b[k])
}

/// How many number digits end at byte `k`.
pub open spec fn digit_run(b: Seq<u8>, k: int) -> nat
    decreases k + 1,
{
    if k < 0 {
        0
    } else if number_digit(b, k) {
        1 + digit_run(b, k - 1)
    } else {
        0
    }
}

/// A run of digits starting at `k` is an exponent: it follows `e` or `E`,
/// directly or after one sign.
pub open spec fn exponent_start(b: Seq<u8>, k: int) -> bool {
    let is_e = |c: u8| c == 101 || c == 69;
    (k >= 1 && is_e(b[k - 1])) || (k >= 2 && (b[k - 1] == 43 || b[k - 1] == 45) && is_e(b[k - 2]))
}

/// The longest digit run allowed where a run starts at `k`.
pub open spec fn run_limit(b: Seq<u8>, k: int) -> nat {
    if exponent_start(b, k) {
        MAX_EXPONENT_DIGITS as nat
    } else {
        MAX_NUMBER_DIGITS as nat
    }
}

/// The text's UTF-8 bytes are few enough for the parser's `u32` position,
/// and each number in it, read outside string literals, has at most
/// nineteen digits in its integer or fraction part and at most nine in its
/// exponent. On such a text lite-json's digit sums cannot overflow.
pub open spec fn numbers_fit(b: Seq<u8>) -> bool {
    &&& b.len() < 0xffff_ffff
    &&& forall|k: int|
        0 <= k < b.len() ==> #[trigger] digit_run(b, k) <= run_limit(b, k + 1 - digit_run(b, k))
}

/// Decides `numbers_fit` in one pass over the bytes.
pub fn check_numbers_fit(b: &[u8]) -> (r: bool)
    ensures
        r == numbers_fit(b@),
{
    if b.len() >= 0xffff_ffff {
        return false;
    }
    let mut inside = false;
    let mut escaped = false;
    let mut run: usize = 0;
    let mut exponent = false;
    let mut i: usize = 0;
    while i < b.len()
        invariant
            i <= b@.len(),
            b@.len() < 0xffff_ffff,
            (inside, escaped) == literal_state(b@, i as int),
            run == digit_run(b@, i - 1),
            run <= i,
            run > 0 ==> exponent == exponent_start(b@, i - run),
            forall|k: int|
                0 <= k < i ==> #[trigger] digit_run(b@, k) <= run_limit(
                    b@,
                    k + 1 - digit_run(b@, k),
                ),
        decreases b@.len() - i,
    {
        let c = b[i];
        if !inside && 48 <= c && c <= 57 {
            if run == 0 {
                exponent = (i >= 1 && (b[i - 1] == 101 || b[i - 1] == 69)) || (i >= 2 && (b[i
                    - 1] == 43 || b[i - 1] == 45) && (b[i - 2] == 101 || b[i - 2] == 69));
            }
            run = run + 1;
            let limit = if exponent {
                MAX_EXPONENT_DIGITS
            } else {
                MAX_NUMBER_DIGITS
            };
            assert(digit_run(b@, i as int) == run);
            if run > limit {
                return false;
            }
        } else {
            run = 0;
            assert(digit_run(b@, i as int) == 0);
        }
        if !inside {
            inside = c == 34;
            escaped = false;
        } else if escaped {
            escaped = false;
        } else if c == 92 {
            escaped = true;
        } else {
            inside = c != 34;
        }
        i += 1;
    }
    true
}

/// Relies on `String::from_utf8`: it succeeds exactly on valid UTF-8, and
/// the text is a function of the bytes.
#[verifier::external_body]
fn decode_utf8(b: &Vec<u8>) -> (r: Option<String>)
    ensures
        match utf8_decode(b@) {
            Some(s) => r is Some && r->0@ == s,
            None => r is None,
        },
{
    String::from_utf8(b.clone()).ok()
}

/// Relies on `lite_json::parse_json`: the value, or the failure, is a
/// function of the text. It adds up a number's digits in `u64` and `i32`
/// and counts positions in `u32`, so the text must keep within those.
#[verifier::external_body]
fn parse_json(s: &str) -> (r: Option<JsonValue>)
    requires
        numbers_fit(s.spec_bytes()),
    ensures
        r == json_parse(s@),
{
    lite_json::parse_json(s).ok()
}

/// The claim that a fetched body makes: the body must be UTF-8 text whose
/// numbers fit, holding a JSON value of the shape that `claim_of` reads.
pub open spec fn body_claim(b: Seq<u8>) -> Result<(Seq<u8>, Seq<u8>), ParseError> {
    match utf8_decode(b) {
        None => Err(ParseError::Malformed),
        Some(s) => if !numbers_fit(encode_utf8(s)) {
            Err(ParseError::Malformed)
        } else {
            match json_parse(s) {
                None => Err(ParseError::Malformed),
                Some(v) => claim_of(v),
            }
        },
    }
}

pub open spec fn fetched_view(f: Result<Vec<u8>, FetchError>) -> Result<Seq<u8>, FetchError> {
    match f {
        Ok(b) => Ok(b@),
        Err(e) => Err(e),
    }
}

/// The verdict on a request of `account` given what fetching its gist gave:
/// the username to respond with, or why there is none.
pub open spec fn verdict(account: u64, fetched: Result<Seq<u8>, FetchError>) -> Result<
    Seq<u8>,
    WorkerError,
> {
    match fetched {
        Err(e) => Err(WorkerError::Fetch(e)),
        Ok(b) => match body_claim(b) {
            Err(e) => Err(WorkerError::Parse(e)),
            Ok((filename, username)) => if filename == le_bytes(account) {
                Ok(username)
            } else {
                Err(WorkerError::ProofMismatch)
            },
        },
    }
}

/// `r` is the candidate that the verdict `v` on a request of `account` calls for.
pub open spec fn answers(r: Result<Call, WorkerError>, account: u64, v: Result<Seq<u8>, WorkerError>) -> bool {
    match v {
        Ok(username) => match r {
            Ok(Call::RespondVerification(a, u)) => a == account && u@ == username,
            _ => false,
        },
        Err(e) => r == Err::<Call, WorkerError>(e),
    }
}

/// The verdicts of a round, one per pending request.
pub open spec fn round_verdicts(
    pending: Seq<Request>,
    fetched: Seq<Result<Vec<u8>, FetchError>>,
) -> Seq<Result<Seq<u8>, WorkerError>> {
    Seq::new(pending.len(), |i: int| verdict(pending[i].account, fetched_view(fetched[i])))
}

pub(crate) fn bytes_eq(a: &Vec<u8>, b: &Vec<u8>) -> (r: bool)
    ensures
        r == (a@ == b@),
{
    if a.len() != b.len() {
        return false;
    }
    let mut i: usize = 0;
    while i < a.len()
        invariant
            i <= a@.len(),
            a@.len() == b@.len(),
            forall|j: int| 0 <= j < i ==> a@[j] == b@[j],
        decreases a@.len() - i,
    {
        if a[i] != b[i] {
            return false;
        }
        i += 1;
    }
    assert(a@ =~= b@);
    true
}

/// The proof of ownership: the gist's file must be named after the
/// account's encoding, byte for byte.
pub fn check_if_valid(account_id: u64, filename: &Vec<u8>) -> (r: Result<(), WorkerError>)
    ensures
        r is Ok <==> filename@ == le_bytes(account_id),
        r is Err ==> r->Err_0 == WorkerError::ProofMismatch,
{
    let acc = encode_account(account_id);
    if bytes_eq(&acc, filename) {
        Ok(())
    } else {
        Err(WorkerError::ProofMismatch)
    }
}

/// Reads the claim out of a fetched gist body.
pub fn parse_gist(body: &Vec<u8>) -> (r: Result<Claim, ParseError>)
    ensures
        match body_claim(body@) {
            Ok((filename, username)) => r is Ok && r->Ok_0.filename@ == filename
                && r->Ok_0.username@ == username,
            Err(e) => r is Err && r->Err_0 == e,
        },
{
    let text = match decode_utf8(body) {
        Some(t) => t,
        None => return Err(ParseError::Malformed),
    };
    if !check_numbers_fit(text.as_str().as_bytes()) {
        return Err(ParseError::Malformed);
    }
    let val = match parse_json(text.as_str()) {
        Some(v) => v,
        None => return Err(ParseError::Malformed),
    };
    extract_claim(&val)
}

/// Decides the candidate response for one request from what fetching its
/// gist gave.
pub fn check_fetched(request: &Request, fetched: &Result<Vec<u8>, FetchError>) -> (r: Result<
    Call,
    WorkerError,
>)
    ensures
        answers(r, request.account, verdict(request.account, fetched_view(*fetched))),
{
    let body = match fetched {
        Ok(b) => b,
        Err(e) => return Err(WorkerError::Fetch(*e)),
    };
    let claim = match parse_gist(body) {
        Ok(c) => c,
        Err(e) => return Err(WorkerError::Parse(e)),
    };
    match check_if_valid(request.account, &claim.filename) {
        Ok(()) => Ok(Call::RespondVerification(request.account, claim.username)),
        Err(e) => Err(e),
    }
}

/// One round of the worker over a snapshot of pending requests and what
/// fetching each one's gist gave. Each request gets its own outcome: a
/// failure on one never stops the others.
pub fn process_round(
    pending: &Vec<Request>,
    fetched: &Vec<Result<Vec<u8>, FetchError>>,
) -> (r: Vec<Result<Call, WorkerError>>)
    requires
        pending@.len() == fetched@.len(),
    ensures
        r@.len() == pending@.len(),
        forall|i: int|
            0 <= i < r@.len() ==> answers(
                #[trigger] r@[i],
                pending@[i].account,
                round_verdicts(pending@, fetched@)[i],
            ),
{
    let mut out: Vec<Result<Call, WorkerError>> = Vec::new();
    let mut i: usize = 0;
    while i < pending.len()
        invariant
            pending@.len() == fetched@.len(),
            i <= pending@.len(),
            out@.len() == i,
            forall|j: int|
                0 <= j < i ==> answers(
                    #[trigger] out@[j],
                    pending@[j].account,
                    round_verdicts(pending@, fetched@)[j],
                ),
        decreases pending@.len() - i,
    {
        let outcome = check_fetched(&pending[i], &fetched[i]);
        out.push(outcome);
        i += 1;
    }
    out
}

/// Counts of a round's outcomes, by kind.
#[derive(Clone, Copy, Debug, PartialEq, Eq, Structural)]
pub struct RoundSummary {
    pub submitted: usize,
    pub fetch_failures: usize,
    pub parse_failures: usize,
    pub mismatches: usize,
    pub submission_failures: usize,
}

/// The kind of a request's outcome in a round.
#[derive(Clone, Copy, Debug, PartialEq, Eq, Structural)]
pub enum OutcomeKind {
    Submitted,
    FetchFailed,
    ParseFailed,
    Mismatch,
    SubmissionFailed,
}

pub open spec fn kind_of(r: Result<(), WorkerError>) -> OutcomeKind {
    match r {
        Ok(()) => OutcomeKind::Submitted,
        Err(WorkerError::Fetch(_)) => OutcomeKind::FetchFailed,
        Err(WorkerError::Parse(_)) => OutcomeKind::ParseFailed,
        Err(WorkerError::ProofMismatch) => OutcomeKind::Mismatch,
        Err(WorkerError::Submission(_)) => OutcomeKind::SubmissionFailed,
    }
}

/// How many outcomes are of kind `k`.
pub open spec fn count_kind(s: Seq<Result<(), WorkerError>>, k: OutcomeKind) -> nat
    decreases s.len(),
{
    if s.len() == 0 {
        0
    } else {
        count_kind(s.drop_last(), k) + if kind_of(s.last()) == k {
            1nat
        } else {
            0nat
        }
    }
}

proof fn lemma_count_bound(s: Seq<Result<(), WorkerError>>, k: OutcomeKind)
    ensures
        count_kind(s, k) <= s.len(),
    decreases s.len(),
{
    if s.len() > 0 {
        lemma_count_bound(s.drop_last(), k);
    }
}

/// Tallies the outcomes of a round, one per pending request: responses
/// that reached the pool, and failures by kind.
pub fn summarize(results: &Vec<Result<(), WorkerError>>) -> (r: RoundSummary)
    ensures
        r.submitted == count_kind(results@, OutcomeKind::Submitted),
        r.fetch_failures == count_kind(results@, OutcomeKind::FetchFailed),
        r.parse_failures == count_kind(results@, OutcomeKind::ParseFailed),
        r.mismatches == count_kind(results@, OutcomeKind::Mismatch),
        r.submission_failures == count_kind(results@, OutcomeKind::SubmissionFailed),
{
    let mut sum = RoundSummary {
        submitted: 0,
        fetch_failures: 0,
        parse_failures: 0,
        mismatches: 0,
        submission_failures: 0,
    };
    let mut i: usize = 0;
    while i < results.len()
        invariant
            i <= results@.len(),
            sum.submitted == count_kind(results@.subrange(0, i as int), OutcomeKind::Submitted),
            sum.fetch_failures == count_kind(
                results@.subrange(0, i as int),
                OutcomeKind::FetchFailed,
            ),
            sum.parse_failures == count_kind(
                results@.subrange(0, i as int),
                OutcomeKind::ParseFailed,
            ),
            sum.mismatches == count_kind(results@.subrange(0, i as int), OutcomeKind::Mismatch),
            sum.submission_failures == count_kind(
                results@.subrange(0, i as int),
                OutcomeKind::SubmissionFailed,
            ),
        decreases results@.len() - i,
    {
        let ghost pre = results@.subrange(0, i as int);
        let ghost next = results@.subrange(0, i + 1);
        proof {
            assert(next.drop_last() =~= pre);
            assert(next.last() == results@[i as int]);
            lemma_count_bound(pre, OutcomeKind::Submitted);
            lemma_count_bound(pre, OutcomeKind::FetchFailed);
            lemma_count_bound(pre, OutcomeKind::ParseFailed);
            lemma_count_bound(pre, OutcomeKind::Mismatch);
            lemma_count_bound(pre, OutcomeKind::SubmissionFailed);
        }
        match &results[i] {
            Ok(()) => sum.submitted = sum.submitted + 1,
            Err(WorkerError::Fetch(_)) => sum.fetch_failures = sum.fetch_failures + 1,
            Err(WorkerError::Parse(_)) => sum.parse_failures = sum.parse_failures + 1,
            Err(WorkerError::ProofMismatch) => sum.mismatches = sum.mismatches + 1,
            Err(WorkerError::Submission(_)) => sum.submission_failures = sum.submission_failures
                + 1,
        }
        i += 1;
    }
    assert(results@.subrange(0, results@.len() as int) =~= results@);
    sum
}

/// Round isolation: the verdict on one request of a round does not depend
/// on what fetching any other request's gist gave; in particular a failed
/// fetch for one account leaves another's verdict, and so its response,
/// as it would be on its own.
pub proof fn lemma_round_isolation(
    pending: Seq<Request>,
    fetched: Seq<Result<Vec<u8>, FetchError>>,
    failed: int,
    other: int,
    e: FetchError,
)
    requires
        pending.len() == fetched.len(),
        0 <= failed < pending.len(),
        0 <= other < pending.len(),
        failed != other,
    ensures
        round_verdicts(pending, fetched.update(failed, Err(e)))[failed] == Err::<
            Seq<u8>,
            WorkerError,
        >(WorkerError::Fetch(e)),
        round_verdicts(pending, fetched.update(failed, Err(e)))[other] == verdict(
            pending[other].account,
            fetched_view(fetched[other]),
        ),
{
}

} // verus!
