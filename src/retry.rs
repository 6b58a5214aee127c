use vstd::prelude::*;

verus! {

/// How one response (or failed call) is classified.
#[derive(PartialEq, Eq, Structural, Clone, Copy, Debug)]
pub enum Outcome {
    /// A 2xx status with a readable body.
    Success,
    /// 401 or 403: the credential is no longer usable.
    AuthInvalid { status: u16 },
    /// 429 with a usable `Retry-After` directive, in seconds.
    RateLimited { wait_secs: u64 },
    /// 429 whose `Retry-After` is missing or not a non-negative integer.
    RateLimitUnusable,
    /// Any other 4xx status.
    ClientRejected { status: u16 },
    /// Any other non-2xx status.
    ProtocolError { status: u16 },
    /// No response, or a body that could not be read.
    TransportError,
}

/// What the caller does after an attempt.
#[derive(PartialEq, Eq, Structural, Clone, Copy, Debug)]
pub enum Step {
    /// Wait this many seconds, then repeat the identical call.
    Retry { wait_secs: u64 },
    /// The operation is over with this outcome.
    Finish { outcome: Outcome },
    /// Stop the whole process: no further operation may start.
    Terminate,
}

/// Severity of the one log line that each step emits.
#[derive(PartialEq, Eq, Structural, Clone, Copy, Debug)]
pub enum Severity {
    Info,
    Warn,
    Error,
}

pub open spec fn is_digit(b: u8) -> bool {
    48 <= b <= 57
}

/// The number written by the decimal digits `s`.
pub open spec fn digits_value(s: Seq<u8>) -> nat
    decreases s.len(),
{
    if s.len() == 0 {
        0
    } else {
        digits_value(s.drop_last()) * 10 + (s.last() - 48) as nat
    }
}

/// `s` without one leading `+`.
pub open spec fn unsigned_part(s: Seq<u8>) -> Seq<u8> {
    if s.len() > 0 && s[0] == 43u8 {
        s.drop_first()
    } else {
        s
    }
}

/// The seconds that a `Retry-After` value gives: an optional `+` and one or
/// more decimal digits whose value fits in 64 bits.
pub open spec fn retry_after_value(s: Seq<u8>) -> Option<u64> {
    let d = unsigned_part(s);
    if d.len() > 0 && (forall|i: int| 0 <= i < d.len() ==> is_digit(#[trigger] d[i]))
        && digits_value(d) <= u64::MAX {
        Some(digits_value(d) as u64)
    } else {
        None
    }
}

/// The class of a response with `status` and the given `Retry-After` value.
pub open spec fn classify_spec(status: u16, retry_after: Option<Seq<u8>>) -> Outcome {
    if 200 <= status <= 299 {
        Outcome::Success
    } else if status == 401 || status == 403 {
        Outcome::AuthInvalid { status }
    } else if status == 429 {
        match retry_after {
            Some(v) => match retry_after_value(v) {
                Some(n) => Outcome::RateLimited { wait_secs: n },
                None => Outcome::RateLimitUnusable,
            },
            None => Outcome::RateLimitUnusable,
        }
    } else if 400 <= status <= 499 {
        Outcome::ClientRejected { status }
    } else {
        Outcome::ProtocolError { status }
    }
}

/// The step that follows an attempt with outcome `o`.
pub open spec fn step_spec(o: Outcome) -> Step {
    match o {
        Outcome::RateLimited { wait_secs } => Step::Retry { wait_secs },
        Outcome::AuthInvalid { .. } => Step::Terminate,
        _ => Step::Finish { outcome: o },
    }
}

pub open spec fn severity_spec(s: Step) -> Severity {
    match s {
        Step::Retry { .. } => Severity::Warn,
        Step::Finish { outcome: Outcome::Success } => Severity::Info,
        _ => Severity::Error,
    }
}

proof fn lemma_digits_value_grows(s: Seq<u8>, i: int)
    requires
        0 <= i <= s.len(),
        forall|k: int| 0 <= k < s.len() ==> is_digit(#[trigger] s[k]),
    ensures
        digits_value(s.take(i)) <= digits_value(s),
    decreases s.len() - i,
{
    if i < s.len() {
        lemma_digits_value_grows(s, i + 1);
        assert(s.take(i + 1).drop_last() =~= s.take(i));
    } else {
        assert(s.take(i) =~= s);
    }
}

/// Reads a `Retry-After` value as whole seconds.
pub fn parse_retry_after(v: &[u8]) -> (r: Option<u64>)
    ensures
        r == retry_after_value(v@),
{
    let start: usize = if v.len() > 0 && v[0] == 43u8 {
        1
    } else {
        0
    };
    let ghost d = unsigned_part(v@);
    assert(d =~= v@.subrange(start as int, v@.len() as int));
    if start >= v.len() {
        return None;
    }
    let mut acc: u64 = 0;
    let mut i: usize = start;
    while i < v.len()
        invariant
            start <= i <= v@.len(),
            d == v@.subrange(start as int, v@.len() as int),
            d == unsigned_part(v@),
            forall|k: int| 0 <= k < i - start ==> is_digit(#[trigger] d[k]),
            acc as nat == digits_value(d.take(i - start)),
        decreases v.len() - i,
    {
        let b = v[i];
        if b < 48u8 || b > 57u8 {
            assert(!is_digit(d[i - start]));
            assert(!(forall|k: int| 0 <= k < d.len() ==> is_digit(#[trigger] d[k])));
            return None;
        }
        let digit: u64 = (b - 48u8) as u64;
        assert(d.take(i - start + 1).drop_last() =~= d.take(i - start));
        assert(d.take(i - start + 1).last() == b);
        if acc > (u64::MAX - digit) / 10 {
            proof {
                assert(acc * 10 + digit > u64::MAX) by (nonlinear_arith)
                    requires
                        acc > (u64::MAX - digit) / 10,
                        digit <= 9,
                ;
                assert(digits_value(d.take(i - start + 1)) == acc * 10 + digit);
                if forall|k: int| 0 <= k < d.len() ==> is_digit(#[trigger] d[k]) {
                    lemma_digits_value_grows(d, i - start + 1);
                    assert(digits_value(d) > u64::MAX);
                }
            }
            return None;
        }
        assert(acc * 10 + digit <= u64::MAX) by (nonlinear_arith)
            requires
                acc <= (u64::MAX - digit) / 10,
                digit <= 9,
        ;
        acc = acc * 10 + digit;
        i += 1;
    }
    assert(d.take(i - start) =~= d);
    Some(acc)
}

/// Classifies a response by its status and `Retry-After` value.
pub fn classify(status: u16, retry_after: Option<&[u8]>) -> (r: Outcome)
    ensures
        r == classify_spec(
            status,
            match retry_after {
                Some(v) => Some(v@),
                None => None,
            },
        ),
{
    if 200 <= status && status <= 299 {
        Outcome::Success
    } else if status == 401 || status == 403 {
        Outcome::AuthInvalid { status }
    } else if status == 429 {
        match retry_after {
            Some(v) => match parse_retry_after(v) {
                Some(n) => Outcome::RateLimited { wait_secs: n },
                None => Outcome::RateLimitUnusable,
            },
            None => Outcome::RateLimitUnusable,
        }
    } else if 400 <= status && status <= 499 {
        Outcome::ClientRejected { status }
    } else {
        Outcome::ProtocolError { status }
    }
}

impl Step {
    pub fn severity(&self) -> (r: Severity)
        ensures
            r == severity_spec(*self),
    {
        match self {
            Step::Retry { .. } => Severity::Warn,
            Step::Finish { outcome: Outcome::Success } => Severity::Info,
            _ => Severity::Error,
        }
    }
}

/// The retry state of one request: the attempt under way and whether a
/// terminal step has been reached.
pub struct RetryState {
    attempt: u64,
    settled: bool,
}

impl RetryState {
    pub closed spec fn attempt_spec(&self) -> nat {
        self.attempt as nat
    }

    pub closed spec fn is_settled(&self) -> bool {
        self.settled
    }

    /// The state before the first attempt.
    pub fn new() -> (r: RetryState)
        ensures
            r.attempt_spec() == 1,
            !r.is_settled(),
    {
        RetryState { attempt: 1, settled: false }
    }

    pub fn attempt(&self) -> (r: u64)
        ensures
            r == self.attempt_spec(),
    {
        self.attempt
    }

    pub fn is_done(&self) -> (r: bool)
        ensures
            r == self.is_settled(),
    {
        self.settled
    }

    /// Records the outcome of the current attempt and says what comes next. A
    /// rate limit with a usable wait starts the next attempt; every other
    /// outcome is terminal.
    pub fn on_outcome(&mut self, o: Outcome) -> (r: Step)
        requires
            !old(self).is_settled(),
            old(self).attempt_spec() < u64::MAX,
        ensures
            r == step_spec(o),
            r is Retry ==> final(self).attempt_spec() == old(self).attempt_spec() + 1
                && !final(self).is_settled(),
            !(r is Retry) ==> final(self).attempt_spec() == old(self).attempt_spec()
                && final(self).is_settled(),
    {
        match o {
            Outcome::RateLimited { wait_secs } => {
                self.attempt = self.attempt + 1;
                Step::Retry { wait_secs }
            },
            Outcome::AuthInvalid { .. } => {
                self.settled = true;
                Step::Terminate
            },
            _ => {
                self.settled = true;
                Step::Finish { outcome: o }
            },
        }
    }
}

/// The steps taken by a request whose successive attempts have the outcomes
/// `outcomes`, up to and including the first terminal step.
pub open spec fn drive(outcomes: Seq<Outcome>) -> Seq<Step>
    decreases outcomes.len(),
{
    if outcomes.len() == 0 {
        Seq::empty()
    } else if step_spec(outcomes[0]) is Retry {
        seq![step_spec(outcomes[0])] + drive(outcomes.drop_first())
    } else {
        seq![step_spec(outcomes[0])]
    }
}

/// Each rate limit with a usable wait yields exactly one retry after exactly
/// that wait, however many come in a row, and the first other outcome ends
/// the request: `k` rate limits mean `k + 1` attempts.
pub proof fn lemma_retry_until_settled(outcomes: Seq<Outcome>, k: int)
    requires
        0 <= k < outcomes.len(),
        forall|i: int| 0 <= i < k ==> #[trigger] outcomes[i] is RateLimited,
        !(outcomes[k] is RateLimited),
    ensures
        drive(outcomes).len() == k + 1,
        forall|i: int|
            0 <= i < k ==> #[trigger] drive(outcomes)[i] == (Step::Retry {
                wait_secs: outcomes[i]->wait_secs,
            }),
        drive(outcomes)[k] == step_spec(outcomes[k]),
        !(drive(outcomes)[k] is Retry),
    decreases k,
{
    if k > 0 {
        let tail = outcomes.drop_first();
        assert forall|i: int| 0 <= i < k - 1 implies #[trigger] tail[i] is RateLimited by {
            assert(tail[i] == outcomes[i + 1]);
        }
        lemma_retry_until_settled(tail, k - 1);
        assert(outcomes[0] is RateLimited);
        assert forall|i: int|
            0 <= i < k implies #[trigger] drive(outcomes)[i] == (Step::Retry {
                wait_secs: outcomes[i]->wait_secs,
            }) by {
            if i > 0 {
                assert(drive(outcomes)[i] == drive(tail)[i - 1]);
                assert(tail[i - 1] == outcomes[i]);
            }
        }
    }
}

/// A rate limit whose `Retry-After` is missing or unusable ends the request
/// at once, with one error line and no retry.
pub proof fn lemma_unusable_rate_limit_stops(retry_after: Option<Seq<u8>>, later: Seq<Outcome>)
    requires
        match retry_after {
            Some(v) => retry_after_value(v) is None,
            None => true,
        },
    ensures
        classify_spec(429, retry_after) == Outcome::RateLimitUnusable,
        drive(seq![Outcome::RateLimitUnusable] + later) == seq![
            Step::Finish { outcome: Outcome::RateLimitUnusable },
        ],
        severity_spec(Step::Finish { outcome: Outcome::RateLimitUnusable }) == Severity::Error,
{
    assert((seq![Outcome::RateLimitUnusable] + later)[0] == Outcome::RateLimitUnusable);
}

/// A 401 or 403 ends the request with the step that stops the whole process.
pub proof fn lemma_auth_failure_terminates(status: u16, retry_after: Option<Seq<u8>>, later: Seq<Outcome>)
    requires
        status == 401 || status == 403,
    ensures
        classify_spec(status, retry_after) == (Outcome::AuthInvalid { status }),
        drive(seq![classify_spec(status, retry_after)] + later) == seq![Step::Terminate],
{
    assert((seq![classify_spec(status, retry_after)] + later)[0] == classify_spec(status, retry_after));
}

} // verus!
