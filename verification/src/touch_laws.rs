//! What holds of exchanges, grants and guarded operations whatever the clock does.

use vstd::prelude::*;
use vstd::utf8::encode_utf8;

use crate::json::{
    json_chars, json_string, lemma_json_is_no_shorter, lemma_json_string_is_prefix_free,
};
use crate::touch::{
    access_for, budget_end, grant_expiry, grant_left, next_delay, request_text, AttemptStep,
    GrantError, OperationGuard, TouchExchange, TouchOperation, TouchStats, FIRST_RETRY_DELAY,
    MAX_ACK_EXPIRY, MAX_BODY_BYTES, MAX_CLOCK_SKEW_MS, MAX_RETRY_DELAY, NATIVE_OPERATION_BUDGET,
    TOUCH_DEADLINE,
};

verus! {

/// A grant that is taken is good at the time it comes in, expires no later than the
/// gateway wants, and no later than sixty seconds after it was asked for, however
/// far the clock of the gateway is ahead and however slow the reply.
pub proof fn law_clock_skew_never_extends_a_grant(expiry: i64, now: i64, request_started: i64)
    ensures
        grant_expiry(expiry, now, request_started) matches Ok(local) ==> now < local <= expiry
            && local <= request_started + MAX_ACK_EXPIRY && request_started <= now,
{
}

/// A grant is taken exactly if the reply is in within sixty seconds of the request and
/// the gateway wants the grant to last, from then on, for no more than sixty seconds
/// and a little skew. It is good until the gateway wants it to expire, or until sixty
/// seconds after the request if that is earlier.
pub proof fn law_when_a_grant_is_taken(expiry: i64, now: i64, request_started: i64)
    ensures
        grant_expiry(expiry, now, request_started) is Ok <==> request_started <= now
            < request_started + MAX_ACK_EXPIRY && now < expiry <= now + MAX_ACK_EXPIRY
            + MAX_CLOCK_SKEW_MS,
        grant_expiry(expiry, now, request_started) matches Ok(local) ==> local == (if expiry
            <= request_started + MAX_ACK_EXPIRY {
            expiry as int
        } else {
            request_started + MAX_ACK_EXPIRY
        }),
{
}

/// A grant that the gateway issues for sixty seconds at most is taken as it is if the
/// reply comes at once.
pub proof fn law_a_prompt_grant_is_taken_as_it_is(expiry: i64, now: i64)
    requires
        now < expiry <= now + MAX_ACK_EXPIRY,
    ensures
        grant_expiry(expiry, now, now) == Ok::<i64, GrantError>(expiry),
{
}

/// A grant that was taken lets the object be touched exactly until it expires.
pub proof fn law_a_grant_is_good_until_it_expires(
    expiry: i64,
    received: i64,
    request_started: i64,
    now: i64,
)
    requires
        grant_expiry(expiry, received, request_started) is Ok,
        received <= now,
    ensures
        ({
            let local = grant_expiry(expiry, received, request_started)->Ok_0;
            grant_left(local, now) is Ok <==> now < local
        }),
{
}

/// An object is touched only with a grant that is good at that time, and so within
/// sixty seconds of the request for it: there is no access without a grant, nor with
/// one that has expired.
pub proof fn law_no_access_without_a_grant<E>(
    touched: Result<i64, E>,
    expiry: i64,
    received: i64,
    request_started: i64,
    now: i64,
)
    requires
        touched matches Ok(local) ==> grant_expiry(expiry, received, request_started) == Ok::<
            i64,
            GrantError,
        >(local),
        access_for(touched, now) is Ok,
    ensures
        touched is Ok,
        now < touched->Ok_0 <= expiry,
        now < request_started + MAX_ACK_EXPIRY,
{
}

/// An operation that starts at `start` and is let go on at each of `times` is over
/// within its budget, whatever the clock does.
pub proof fn law_an_operation_stays_within_its_budget(start: i64, times: Seq<i64>)
    requires
        (OperationGuard { deadline: budget_end(start), last_now: start }).lets_all(times),
    ensures
        forall|i: int|
            0 <= i < times.len() ==> start <= #[trigger] times[i] < start
                + NATIVE_OPERATION_BUDGET,
{
    law_an_operation_only_moves_forward(
        OperationGuard { deadline: budget_end(start), last_now: start },
        times,
    );
}

/// No retry starts at or after the deadline if the wait is kept to.
pub proof fn law_no_retry_after_the_deadline(exchange: TouchExchange, failed_at: i64, retry_at: i64)
    requires
        exchange.retries(failed_at),
        retry_at == failed_at + exchange.delay,
    ensures
        retry_at < exchange.deadline,
{
}

/// An exchange with a gateway that does not answer fails when its five minutes are
/// over: an attempt may be waited for exactly until then, and if it is given up then,
/// or later, there is no other.
pub proof fn law_an_unanswered_exchange_fails_in_time<E>(
    exchange: TouchExchange,
    began: i64,
    started: i64,
    given_up: i64,
    error: E,
)
    requires
        exchange.wf(),
        exchange.deadline == began + TOUCH_DEADLINE,
        began <= started < exchange.deadline,
        given_up >= started + exchange.left_at(started),
    ensures
        started + exchange.left_at(started) == began + TOUCH_DEADLINE,
        exchange.step(Err::<i64, E>(error), given_up) == (AttemptStep::Failed { error }),
{
}

/// One attempt: when it started, what came of it, and when that was known.
pub struct Attempt<E> {
    pub started: i64,
    pub outcome: Result<i64, E>,
    pub ended: i64,
}

/// How far an exchange has come.
pub enum ExchangeResult<E> {
    Running,
    Granted { expires_at_ms: i64 },
    Failed { error: E },
    /// There was no time for another attempt when it was to start.
    Exhausted,
}

/// An exchange with the counters of its client.
pub struct ExchangeRun<E> {
    pub exchange: TouchExchange,
    pub stats: TouchStats,
    pub result: ExchangeResult<E>,
}

impl<E> ExchangeRun<E> {
    /// The exchange after one more attempt, as `TouchClient::start_attempt` and
    /// `TouchClient::finish_attempt` leave it. One that is over stays as it is.
    pub open spec fn after(self, attempt: Attempt<E>) -> ExchangeRun<E> {
        let step = self.exchange.step(attempt.outcome, attempt.ended);
        if !(self.result is Running) {
            self
        } else if attempt.started >= self.exchange.deadline {
            ExchangeRun {
                stats: self.stats.with_failed(),
                result: ExchangeResult::Exhausted,
                ..self
            }
        } else {
            ExchangeRun {
                exchange: TouchExchange {
                    delay: self.exchange.delay_after(step),
                    ..self.exchange
                },
                stats: self.stats.after_step(step),
                result: match step {
                    AttemptStep::Granted { expires_at_ms } => ExchangeResult::Granted {
                        expires_at_ms,
                    },
                    AttemptStep::Failed { error } => ExchangeResult::Failed { error },
                    AttemptStep::RetryAfter { .. } => ExchangeResult::Running,
                },
            }
        }
    }

    /// The exchange after `attempts`.
    pub open spec fn after_all(self, attempts: Seq<Attempt<E>>) -> ExchangeRun<E>
        decreases attempts.len(),
    {
        if attempts.len() == 0 {
            self
        } else {
            self.after_all(attempts.drop_last()).after(attempts.last())
        }
    }
}

/// A whole exchange moves one counter by one, however many attempts it takes: the one of
/// acknowledged exchanges if it ends with a grant, the one of failures if it fails. While
/// it goes on it moves none.
pub proof fn law_an_exchange_is_counted_once<E>(
    exchange: TouchExchange,
    stats: TouchStats,
    attempts: Seq<Attempt<E>>,
)
    ensures
        ({
            let run = (ExchangeRun { exchange, stats, result: ExchangeResult::<E>::Running });
            let end = run.after_all(attempts);
            let (a, b) = (stats.touches_ok, stats.touches_failed);
            &&& end.result is Running ==> end.stats == stats
            &&& end.result is Granted ==> end.stats == stats.with_ok()
            &&& end.result is Failed || end.result is Exhausted ==> end.stats
                == stats.with_failed()
            &&& end.result is Granted && a < u64::MAX ==> end.stats.touches_ok == a + 1
                && end.stats.touches_failed == b
            &&& (end.result is Failed || end.result is Exhausted) && b < u64::MAX
                ==> end.stats.touches_ok == a && end.stats.touches_failed == b + 1
        }),
    decreases attempts.len(),
{
    if attempts.len() > 0 {
        law_an_exchange_is_counted_once(exchange, stats, attempts.drop_last());
    }
}

/// The wait before retry number `n`, counted from zero.
pub open spec fn delay_of(n: nat) -> i64
    decreases n,
{
    if n == 0 {
        FIRST_RETRY_DELAY
    } else {
        next_delay(delay_of((n - 1) as nat))
    }
}

/// The waits before the first `n` retries together.
pub open spec fn delays_of(n: nat) -> int
    decreases n,
{
    if n == 0 {
        0
    } else {
        delays_of((n - 1) as nat) + delay_of((n - 1) as nat)
    }
}

/// Waits never get shorter, stay within their limits, and reach the upper one with
/// the sixth.
pub proof fn law_waits_grow_to_their_limit(n: nat)
    ensures
        FIRST_RETRY_DELAY <= delay_of(n) <= MAX_RETRY_DELAY,
        delay_of(n) <= delay_of(n + 1),
        n >= 5 ==> delay_of(n) == MAX_RETRY_DELAY,
    decreases n,
{
    reveal_with_fuel(delay_of, 7);
    if n > 0 {
        law_waits_grow_to_their_limit((n - 1) as nat);
    }
}

/// The waits add up to five seconds for each retry, but for the first few.
proof fn lemma_delays_add_up(n: nat)
    ensures
        n >= 5 ==> delays_of(n) == 7_750 + 5_000 * (n - 5),
    decreases n,
{
    reveal_with_fuel(delay_of, 7);
    reveal_with_fuel(delays_of, 7);
    if n > 5 {
        lemma_delays_add_up((n - 1) as nat);
        law_waits_grow_to_their_limit((n - 1) as nat);
    }
}

/// An exchange is retried at most sixty-three times: `times` are the times at which
/// attempts of an exchange that began at `start` failed and were followed by another.
pub proof fn law_exchanges_are_bounded(start: i64, times: Seq<i64>)
    requires
        forall|i: int|
            0 <= i < times.len() ==> start <= #[trigger] times[i] && times[i] + delay_of(i as nat)
                < start + TOUCH_DEADLINE,
        forall|i: int, j: int|
            0 <= i && j == i + 1 && j < times.len() ==> #[trigger] times[j] >= #[trigger] times[i]
                + delay_of(i as nat),
    ensures
        times.len() <= 63,
{
    if times.len() > 63 {
        lemma_times_add_up(start, times, 63);
        lemma_delays_add_up(63);
        law_waits_grow_to_their_limit(63);
        assert(times[63] + delay_of(63) < start + TOUCH_DEADLINE);
    }
}

/// Every wait adds to the time that has passed.
proof fn lemma_times_add_up(start: i64, times: Seq<i64>, n: int)
    requires
        0 <= n < times.len(),
        forall|i: int| 0 <= i < times.len() ==> start <= #[trigger] times[i],
        forall|i: int, j: int|
            0 <= i && j == i + 1 && j < times.len() ==> #[trigger] times[j] >= #[trigger] times[i]
                + delay_of(i as nat),
    ensures
        times[n] >= start + delays_of(n as nat),
    decreases n,
{
    if n > 0 {
        lemma_times_add_up(start, times, n - 1);
        assert(times[n] >= times[n - 1] + delay_of((n - 1) as nat));
    }
}

impl OperationGuard {
    /// The guard after it was asked at `current`.
    pub open spec fn after(self, current: i64) -> OperationGuard {
        OperationGuard {
            last_now: if self.lets(current) {
                current
            } else {
                self.last_now
            },
            ..self
        }
    }

    /// The guard after it was asked at each of `times`.
    pub open spec fn after_all(self, times: Seq<i64>) -> OperationGuard
        decreases times.len(),
    {
        if times.len() == 0 {
            self
        } else {
            self.after_all(times.drop_last()).after(times.last())
        }
    }

    /// Whether the operation is let go on at each of `times`. The first refusal ends
    /// it.
    pub open spec fn lets_all(self, times: Seq<i64>) -> bool
        decreases times.len(),
    {
        times.len() == 0 || (self.lets_all(times.drop_last()) && self.after_all(
            times.drop_last(),
        ).lets(times.last()))
    }
}

/// Once the time is up an operation is not let go on, whatever the clock showed
/// before.
pub proof fn law_an_expired_operation_cannot_resume(
    guard: OperationGuard,
    times: Seq<i64>,
    now: i64,
)
    requires
        guard.deadline <= now,
    ensures
        !guard.after_all(times).lets(now),
{
    lemma_guard_keeps_its_deadline(guard, times);
}

/// An operation that was let go on at each of `times` did so before its deadline, and
/// never at an earlier time than before.
pub proof fn law_an_operation_only_moves_forward(guard: OperationGuard, times: Seq<i64>)
    requires
        guard.lets_all(times),
    ensures
        forall|i: int|
            0 <= i < times.len() ==> guard.last_now <= #[trigger] times[i] < guard.deadline,
        forall|i: int, j: int|
            0 <= i <= j < times.len() ==> #[trigger] times[i] <= #[trigger] times[j],
        times.len() > 0 ==> guard.after_all(times).last_now == times.last(),
    decreases times.len(),
{
    if times.len() > 0 {
        let init = times.drop_last();
        law_an_operation_only_moves_forward(guard, init);
        lemma_guard_keeps_its_deadline(guard, init);
        let now = times.last();
        assert forall|i: int| 0 <= i < times.len() implies guard.last_now <= #[trigger] times[i]
            < guard.deadline by {
            if i < init.len() {
                assert(times[i] == init[i]);
            }
        }
        assert forall|i: int, j: int| 0 <= i <= j < times.len() implies #[trigger] times[i]
            <= #[trigger] times[j] by {
            if i < init.len() {
                assert(times[i] == init[i]);
                assert(init[i] <= init[init.len() - 1]);
                if j < init.len() {
                    assert(times[j] == init[j]);
                }
            }
        }
    }
}

/// Being asked does not move the deadline.
proof fn lemma_guard_keeps_its_deadline(guard: OperationGuard, times: Seq<i64>)
    ensures
        guard.after_all(times).deadline == guard.deadline,
        guard.after_all(times).last_now >= guard.last_now,
    decreases times.len(),
{
    if times.len() > 0 {
        lemma_guard_keeps_its_deadline(guard, times.drop_last());
    }
}

/// An operation whose deadline has come by the time it starts is never let go on.
pub proof fn law_an_expired_operation_never_starts(
    deadline: i64,
    started: i64,
    times: Seq<i64>,
    now: i64,
)
    requires
        deadline <= started,
    ensures
        !(OperationGuard { deadline, last_now: started }).after_all(times).lets(now),
{
    lemma_guard_keeps_its_deadline(OperationGuard { deadline, last_now: started }, times);
}

/// A request from after its key on.
spec fn request_end(operation: TouchOperation) -> Seq<char> {
    ",\"operation\":\""@ + operation.spec_name() + "\"}"@
}

/// A request from after its namespace on.
spec fn request_tail(key: Seq<char>, operation: TouchOperation) -> Seq<char> {
    ",\"key\":"@ + json_string(key) + request_end(operation)
}

/// A request without its head and the quote that opens the namespace.
proof fn lemma_request_after_its_head(
    namespace: Seq<char>,
    key: Seq<char>,
    operation: TouchOperation,
)
    ensures
        request_text(namespace, key, operation).skip("{\"namespace\":"@.len() + 1int) == json_chars(
            namespace,
        ) + seq!['"'] + request_tail(key, operation),
{
    let head = "{\"namespace\":"@;
    let rest = json_chars(namespace) + seq!['"'] + request_tail(key, operation);
    assert(request_text(namespace, key, operation) =~= head + seq!['"'] + rest);
    assert((head + seq!['"'] + rest).skip(head.len() + 1int) =~= rest);
}

/// A tail of a request without its head and the quote that opens the key.
proof fn lemma_tail_after_its_head(key: Seq<char>, operation: TouchOperation)
    ensures
        request_tail(key, operation).skip(",\"key\":"@.len() + 1int) == json_chars(key) + seq!['"']
            + request_end(operation),
{
    let head = ",\"key\":"@;
    let rest = json_chars(key) + seq!['"'] + request_end(operation);
    assert(request_tail(key, operation) =~= head + seq!['"'] + rest);
    assert((head + seq!['"'] + rest).skip(head.len() + 1int) =~= rest);
}

/// The end of a request tells the operation.
proof fn lemma_end_names_its_operation(a: TouchOperation, b: TouchOperation)
    requires
        request_end(a) == request_end(b),
    ensures
        a == b,
{
    reveal_strlit("read");
    reveal_strlit("write");
    let i = ",\"operation\":\""@.len() as int;
    assert(request_end(a)[i] == a.spec_name()[0]);
    assert(request_end(b)[i] == b.spec_name()[0]);
}

/// A request says what it is for: two requests that read the same are for the same
/// operation with the same object of the same namespace.
pub proof fn law_a_request_names_one_object(
    namespace: Seq<char>,
    key: Seq<char>,
    operation: TouchOperation,
    other_namespace: Seq<char>,
    other_key: Seq<char>,
    other_operation: TouchOperation,
)
    requires
        request_text(namespace, key, operation) == request_text(
            other_namespace,
            other_key,
            other_operation,
        ),
    ensures
        namespace == other_namespace,
        key == other_key,
        operation == other_operation,
{
    let (x, y) = (request_tail(key, operation), request_tail(other_key, other_operation));
    lemma_request_after_its_head(namespace, key, operation);
    lemma_request_after_its_head(other_namespace, other_key, other_operation);
    lemma_json_string_is_prefix_free(namespace, other_namespace, x, y);
    lemma_tail_after_its_head(key, operation);
    lemma_tail_after_its_head(other_key, other_operation);
    lemma_json_string_is_prefix_free(
        key,
        other_key,
        request_end(operation),
        request_end(other_operation),
    );
    lemma_end_names_its_operation(operation, other_operation);
}

/// The bytes of text are at least as many as its characters.
proof fn lemma_bytes_are_no_fewer(text: Seq<char>)
    ensures
        encode_utf8(text).len() >= text.len(),
    decreases text.len(),
{
    if text.len() > 0 {
        lemma_bytes_are_no_fewer(text.drop_first());
    }
}

/// A key that is as long as a request may be is refused.
pub proof fn law_a_long_key_is_refused(
    namespace: Seq<char>,
    key: Seq<char>,
    operation: TouchOperation,
)
    requires
        key.len() >= MAX_BODY_BYTES,
    ensures
        encode_utf8(request_text(namespace, key, operation)).len() > MAX_BODY_BYTES,
{
    lemma_json_is_no_shorter(key);
    lemma_bytes_are_no_fewer(request_text(namespace, key, operation));
}

} // verus!
