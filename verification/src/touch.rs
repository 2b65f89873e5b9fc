//! Asking leave before a cached object is touched.
//!
//! Before each read or write of an object, a client sends a small request to a
//! gateway and waits for a grant.
//!
//! 1. `TouchClient::touch` makes the request and fixes its deadline.
//! 2. `TouchClient::start_attempt` says whether there is time for an attempt,
//!    `TouchExchange::time_left` how long it may be waited for,
//!    `TouchExchange::may_poll` whether it may go on, `append_chunk` takes in the
//!    reply, and `attempt_outcome` says what the attempt comes to.
//! 3. `TouchClient::finish_attempt` says what follows from the attempt.
//! 4. `TouchClient::access` says whether the object may be touched, and
//!    `OperationGuard` how long that may take.
//!
//! All times are readings of the wall clock in milliseconds, so that a suspended
//! host cannot stretch a deadline or revive a grant.

use vstd::prelude::*;
use vstd::string::StringExecFns;
use vstd::utf8::encode_utf8;

use crate::json::{json_string, to_json_string};

verus! {

/// The revision of the protocol that is spoken with the gateway.
pub const BF_PATCH_REVISION: &'static str = "3";

/// How long one exchange may take, retries and all, in milliseconds.
pub const TOUCH_DEADLINE: i64 = 300_000;

/// How long a grant is good for at most, in milliseconds.
pub const MAX_ACK_EXPIRY: i64 = 60_000;

/// How far the clock of the gateway may be ahead, in milliseconds.
pub const MAX_CLOCK_SKEW_MS: i64 = 2_000;

/// The size of a request at most, in bytes.
pub const MAX_BODY_BYTES: usize = 2048;

/// The size of a reply at most, in bytes.
pub const MAX_RESPONSE_BYTES: usize = 4096;

/// How long one read or write may take, the exchange before it and all retries
/// included, in milliseconds.
pub const NATIVE_OPERATION_BUDGET: i64 = 1_200_000;

/// How long the client waits before the first retry, in milliseconds.
pub const FIRST_RETRY_DELAY: i64 = 250;

/// How long the client waits before a retry at most, in milliseconds.
pub const MAX_RETRY_DELAY: i64 = 5_000;

/// What is going to be done with an object.
#[derive(Clone, Copy, Debug, PartialEq, Eq, Structural)]
pub enum TouchOperation {
    Read,
    Write,
}

impl TouchOperation {
    /// The operation as it is written in a request.
    pub open spec fn spec_name(self) -> Seq<char> {
        match self {
            TouchOperation::Read => "read"@,
            TouchOperation::Write => "write"@,
        }
    }

    /// The operation as it is written in a request.
    pub fn name(self) -> (r: &'static str)
        ensures
            r@ == self.spec_name(),
    {
        match self {
            TouchOperation::Read => "read",
            TouchOperation::Write => "write",
        }
    }
}

/// How exchanges have come out. The counters start over when they are full.
#[derive(Debug, PartialEq, Eq, Structural)]
pub struct TouchStats {
    /// Exchanges that were acknowledged in time.
    pub touches_ok: u64,
    /// Exchanges that failed, because time was up, no reply came through, the gateway
    /// turned the client away or its acknowledgement was bad; and grants that had
    /// expired by the time the object was to be touched. Each of them keeps the object
    /// from being touched.
    pub touches_failed: u64,
}

impl Default for TouchStats {
    /// No exchange yet.
    fn default() -> (r: Self)
        ensures
            r.touches_ok == 0,
            r.touches_failed == 0,
    {
        TouchStats { touches_ok: 0, touches_failed: 0 }
    }
}

impl TouchStats {
    /// The counters after one more exchange ended with a grant.
    pub open spec fn with_ok(self) -> TouchStats {
        TouchStats { touches_ok: self.touches_ok.wrapping_add(1), ..self }
    }

    /// The counters after one more exchange failed, or one more grant expired.
    pub open spec fn with_failed(self) -> TouchStats {
        TouchStats { touches_failed: self.touches_failed.wrapping_add(1), ..self }
    }

    /// The counters after `step` followed from an attempt: an exchange that goes on is
    /// not counted yet.
    pub open spec fn after_step<E>(self, step: AttemptStep<E>) -> TouchStats {
        match step {
            AttemptStep::Granted { .. } => self.with_ok(),
            AttemptStep::Failed { .. } => self.with_failed(),
            AttemptStep::RetryAfter { .. } => self,
        }
    }

    /// The counters after an attempt was to start: one that cannot ends its exchange.
    pub open spec fn after_start(self, start: Result<(), TouchError>) -> TouchStats {
        if start is Ok {
            self
        } else {
            self.with_failed()
        }
    }

    /// The counters after an object was to be touched: a grant that is no good any more is a
    /// failure.
    pub open spec fn after_access<E>(self, access: Result<i64, AccessError<E>>) -> TouchStats {
        match access {
            Err(AccessError::Grant { .. }) => self.with_failed(),
            _ => self,
        }
    }

    /// Counts an exchange that ended with a grant.
    pub fn record_ok(&mut self)
        ensures
            *final(self) == old(self).with_ok(),
    {
        self.touches_ok = self.touches_ok.wrapping_add(1);
    }

    /// Counts an exchange that failed, or a grant that expired.
    pub fn record_failed(&mut self)
        ensures
            *final(self) == old(self).with_failed(),
    {
        self.touches_failed = self.touches_failed.wrapping_add(1);
    }

    /// How many exchanges were acknowledged, and how many failures were counted.
    pub fn snapshot(&self) -> (r: (u64, u64))
        ensures
            r == (self.touches_ok, self.touches_failed),
    {
        (self.touches_ok, self.touches_failed)
    }
}

/// The time, from the milliseconds since the Unix epoch, if the clock stands after that.
pub open spec fn time_read(since_epoch: Option<u128>) -> i64 {
    match since_epoch {
        Some(millis) => millis as i64,
        None => i64::MIN,
    }
}

/// The time, from the milliseconds since the Unix epoch. A clock that stands before
/// the epoch reads as the earliest time of all, at which no grant is good.
pub fn unix_millis(since_epoch: Option<u128>) -> (r: i64)
    ensures
        r == time_read(since_epoch),
        r == (match since_epoch {
            Some(millis) => millis as i64,
            None => i64::MIN,
        }),
        since_epoch matches Some(millis) && millis <= i64::MAX ==> r == since_epoch->0,
{
    match since_epoch {
        Some(millis) => millis as i64,
        None => i64::MIN,
    }
}

/// Where the gateway is, and what to ask it for.
#[derive(Clone, Debug)]
pub struct TouchConfig {
    pub endpoint: String,
    pub token: String,
    /// The prefix of all keys.
    pub namespace: String,
}

/// Why an exchange fails.
#[derive(Clone, Copy, Debug, PartialEq, Eq, Structural)]
pub enum TouchError {
    /// The request would have this many bytes, which are too many.
    BodyTooLarge { bytes: usize },
    /// The deadline would lie beyond the end of time.
    DeadlineOverflow,
    /// The time is up.
    DeadlineExhausted,
    /// The reply has too many bytes.
    ResponseTooLarge,
}

/// The configuration, if both an endpoint and a token are set.
pub open spec fn config_of(
    endpoint: Option<String>,
    token: Option<String>,
    namespace: String,
) -> Option<TouchConfig> {
    match (endpoint, token) {
        (Some(endpoint), Some(token)) => if endpoint@.len() > 0 && token@.len() > 0 {
            Some(TouchConfig { endpoint, token, namespace })
        } else {
            None
        },
        _ => None,
    }
}

/// The header by which a client with `token` proves who it is.
pub open spec fn header_text(token: Seq<char>) -> Seq<char> {
    "Bearer "@ + token
}

/// The request for leave to do `operation` with the object `key`.
pub open spec fn request_text(
    namespace: Seq<char>,
    key: Seq<char>,
    operation: TouchOperation,
) -> Seq<char> {
    "{\"namespace\":"@ + json_string(namespace) + ",\"key\":"@ + json_string(key)
        + ",\"operation\":\""@ + operation.spec_name() + "\"}"@
}

/// Whether text fits in memory as JSON.
pub open spec fn fits_as_json(text: Seq<char>) -> bool {
    2 * (6 * text.len() + 2) <= isize::MAX
}

/// The request for leave to do `operation` with the object `key`, if it is not too large.
pub open spec fn request_answer(
    namespace: Seq<char>,
    key: Seq<char>,
    operation: TouchOperation,
) -> Result<Seq<char>, TouchError> {
    let text = request_text(namespace, key, operation);
    let bytes = encode_utf8(text).len();
    if bytes <= MAX_BODY_BYTES {
        Ok(text)
    } else {
        Err(TouchError::BodyTooLarge { bytes: bytes as usize })
    }
}

impl TouchConfig {
    /// The configuration, if both an endpoint and a token are set. Otherwise no
    /// exchanges take place.
    pub fn from_parts(endpoint: Option<String>, token: Option<String>, namespace: String) -> (r:
        Option<TouchConfig>)
        ensures
            r == config_of(endpoint, token, namespace),
            r == (if endpoint is Some && token is Some && endpoint->0@.len() > 0 && token->0@.len()
                > 0 {
                Some(TouchConfig { endpoint: endpoint->0, token: token->0, namespace })
            } else {
                None
            }),
    {
        match (endpoint, token) {
            (Some(endpoint), Some(token)) => if endpoint.as_str().is_empty()
                || token.as_str().is_empty() {
                None
            } else {
                Some(TouchConfig { endpoint, token, namespace })
            },
            _ => None,
        }
    }

    /// The header by which the client proves who it is.
    pub fn authorization(&self) -> (r: String)
        ensures
            r@ == header_text(self.token@),
            r@ == "Bearer "@ + self.token@,
    {
        let mut header = "Bearer ".to_owned();
        header.append(self.token.as_str());
        header
    }

    /// The request for leave to do `operation` with the object `key`.
    pub fn serialize_request(&self, key: &str, operation: TouchOperation) -> (r: Result<
        String,
        TouchError,
    >)
        requires
            fits_as_json(self.namespace@),
            fits_as_json(key@),
        ensures
            match request_answer(self.namespace@, key@, operation) {
                Ok(text) => r matches Ok(body) && body@ == text,
                Err(error) => r == Err::<String, TouchError>(error),
            },
            ({
                let text = request_text(self.namespace@, key@, operation);
                let bytes = encode_utf8(text).len();
                if bytes <= MAX_BODY_BYTES {
                    r matches Ok(body) && body@ == text
                } else {
                    r == Err::<String, TouchError>(TouchError::BodyTooLarge { bytes: bytes as usize })
                }
            }),
    {
        let mut body = "{\"namespace\":".to_owned();
        body.append(to_json_string(self.namespace.as_str()).unwrap().as_str());
        body.append(",\"key\":");
        body.append(to_json_string(key).unwrap().as_str());
        body.append(",\"operation\":\"");
        body.append(operation.name());
        body.append("\"}");
        let bytes: usize = body.as_str().as_bytes().len();
        if bytes > MAX_BODY_BYTES {
            return Err(TouchError::BodyTooLarge { bytes });
        }
        Ok(body)
    }
}

/// The milliseconds from `now` to `deadline`, none if that has passed, and no more than
/// a signed number holds.
pub open spec fn millis_between(now: i64, deadline: i64) -> u64 {
    if deadline <= now {
        0
    } else if deadline - now <= i64::MAX {
        (deadline - now) as u64
    } else {
        i64::MAX as u64
    }
}

/// The milliseconds from `now` to `deadline`, none if that has passed, and no more than
/// a signed number holds.
fn millis_until(deadline: i64, now: i64) -> (r: u64)
    ensures
        r == millis_between(now, deadline),
{
    if deadline <= now {
        0
    } else {
        match deadline.checked_sub(now) {
            Some(remaining) => remaining as u64,
            None => i64::MAX as u64,
        }
    }
}

/// An exchange in progress.
#[derive(Debug, PartialEq, Eq)]
pub struct TouchExchange {
    /// The request, the same in every attempt.
    pub body: String,
    /// The time at which the exchange has failed.
    pub deadline: i64,
    /// How long to wait if the next attempt fails.
    pub delay: i64,
}

/// What follows from an attempt. `E` is what an attempt fails with.
#[derive(Debug, PartialEq, Eq)]
pub enum AttemptStep<E> {
    /// There is a grant, good until then.
    Granted { expires_at_ms: i64 },
    /// There is no time for another attempt.
    Failed { error: E },
    /// Another attempt is due after this many milliseconds.
    RetryAfter { delay: i64 },
}

/// How long to wait before the retry after the one before which `delay` was waited.
pub open spec fn next_delay(delay: i64) -> i64 {
    if 2 * delay <= MAX_RETRY_DELAY {
        (2 * delay) as i64
    } else {
        MAX_RETRY_DELAY
    }
}

impl TouchExchange {
    /// Whether the waits are within bounds.
    pub open spec fn wf(self) -> bool {
        FIRST_RETRY_DELAY <= self.delay <= MAX_RETRY_DELAY
    }

    /// Whether an attempt that failed by `now` is followed by another.
    pub open spec fn retries(self, now: i64) -> bool {
        now + self.delay < self.deadline
    }

    /// Whether the exchange goes on at `now`.
    pub open spec fn goes_on(self, now: i64) -> bool {
        now < self.deadline
    }

    /// Whether there is time for an attempt at `now`.
    pub open spec fn start_answer(self, now: i64) -> Result<(), TouchError> {
        if self.goes_on(now) {
            Ok(())
        } else {
            Err(TouchError::DeadlineExhausted)
        }
    }

    /// How many milliseconds are left of the exchange at `now`.
    pub open spec fn left_at(self, now: i64) -> u64 {
        millis_between(now, self.deadline)
    }

    /// What follows from an attempt that came out as `outcome`, by `now`.
    pub open spec fn step<E>(self, outcome: Result<i64, E>, now: i64) -> AttemptStep<E> {
        match outcome {
            Ok(expires_at_ms) => AttemptStep::Granted { expires_at_ms },
            Err(error) => if self.retries(now) {
                AttemptStep::RetryAfter { delay: self.delay }
            } else {
                AttemptStep::Failed { error }
            },
        }
    }

    /// The wait that is next after `step` followed from an attempt.
    pub open spec fn delay_after<E>(self, step: AttemptStep<E>) -> i64 {
        if step is RetryAfter {
            next_delay(self.delay)
        } else {
            self.delay
        }
    }

    /// How many milliseconds an attempt that starts at `now` may be waited for. After
    /// that the exchange is over, whether or not the gateway has answered.
    pub fn time_left(&self, now: i64) -> (r: u64)
        ensures
            r == self.left_at(now),
    {
        millis_until(self.deadline, now)
    }

    /// Whether an attempt in progress may go on at `now`.
    pub fn may_poll(&self, now: i64) -> (r: bool)
        ensures
            r == self.goes_on(now),
            r == (now < self.deadline),
    {
        now < self.deadline
    }
}

/// What has come in of a reply after one more piece, if all of it is not too much.
pub open spec fn reply_with(full: Seq<u8>, chunk: Seq<u8>) -> Result<Seq<u8>, TouchError> {
    if full.len() + chunk.len() <= MAX_RESPONSE_BYTES {
        Ok(full + chunk)
    } else {
        Err(TouchError::ResponseTooLarge)
    }
}

/// Adds a piece of a reply to what has come in, if all of it is not too much.
pub fn append_chunk(full: &mut Vec<u8>, chunk: &[u8]) -> (r: Result<(), TouchError>)
    requires
        old(full)@.len() <= MAX_RESPONSE_BYTES,
    ensures
        match reply_with(old(full)@, chunk@) {
            Ok(reply) => r is Ok && final(full)@ == reply,
            Err(error) => r == Err::<(), TouchError>(error) && final(full)@ == old(full)@,
        },
        final(full)@.len() <= 4096,
        r is Ok <==> old(full)@.len() + chunk@.len() <= 4096,
        if old(full)@.len() + chunk@.len() <= MAX_RESPONSE_BYTES {
            r is Ok && final(full)@ == old(full)@ + chunk@
        } else {
            r == Err::<(), TouchError>(TouchError::ResponseTooLarge) && final(full)@ == old(full)@
        },
{
    if chunk.len() > MAX_RESPONSE_BYTES - full.len() {
        return Err(TouchError::ResponseTooLarge);
    }
    full.extend_from_slice(chunk);
    proof {
        assert(full@ =~= old(full)@ + chunk@);
    }
    Ok(())
}

/// A client of the gateway.
#[derive(Debug)]
pub struct TouchClient {
    pub config: TouchConfig,
    pub stats: TouchStats,
}

/// Why a grant is no good.
#[derive(Clone, Copy, Debug, PartialEq, Eq, Structural)]
pub enum GrantError {
    /// The time that is left cannot be told.
    InvalidExpiry,
    /// It would have expired already, or last for too long.
    OutsideLifetime,
    /// It expired while the reply was on its way.
    ExpiredInTransit,
    /// It expired before the object was touched.
    Expired,
}

/// How long a grant is good for that the gateway wants to expire at `expiry`, if the
/// reply is in at `now` and the request was sent at `request_started`.
pub open spec fn grant_expiry(expiry: i64, now: i64, request_started: i64) -> Result<
    i64,
    GrantError,
> {
    let limit = if request_started + MAX_ACK_EXPIRY <= i64::MAX {
        request_started + MAX_ACK_EXPIRY
    } else {
        i64::MAX as int
    };
    if !(i64::MIN <= expiry - now <= i64::MAX) {
        Err(GrantError::InvalidExpiry)
    } else if now < request_started || expiry <= now || expiry - now > MAX_ACK_EXPIRY
        + MAX_CLOCK_SKEW_MS {
        Err(GrantError::OutsideLifetime)
    } else if limit <= now {
        Err(GrantError::ExpiredInTransit)
    } else if expiry <= limit {
        Ok(expiry)
    } else {
        Ok(limit as i64)
    }
}

/// How long a grant is good for that the gateway wants to expire at `expiry`, if the
/// reply is in at `now` and the request was sent at `request_started`. The time is
/// counted from the request, so that a slow reply or a clock of the gateway that is
/// ahead does not stretch it.
pub fn bounded_grant_expiry(expiry: i64, now: i64, request_started: i64) -> (r: Result<
    i64,
    GrantError,
>)
    ensures
        r == grant_expiry(expiry, now, request_started),
{
    let remaining: i64 = match expiry.checked_sub(now) {
        Some(remaining) => remaining,
        None => {
            return Err(GrantError::InvalidExpiry);
        },
    };
    if now < request_started || remaining <= 0 || remaining > MAX_ACK_EXPIRY + MAX_CLOCK_SKEW_MS {
        return Err(GrantError::OutsideLifetime);
    }
    let limit: i64 = match request_started.checked_add(MAX_ACK_EXPIRY) {
        Some(limit) => limit,
        None => i64::MAX,
    };
    let local_expiry: i64 = if expiry <= limit {
        expiry
    } else {
        limit
    };
    if local_expiry <= now {
        return Err(GrantError::ExpiredInTransit);
    }
    Ok(local_expiry)
}

/// Why an attempt fails that was answered.
#[derive(Clone, Copy, Debug, PartialEq, Eq, Structural)]
pub enum AttemptError {
    /// The gateway answered with a status that is not a success.
    Status,
    /// The reply is not an acknowledgement.
    Malformed,
    /// The grant is no good.
    Grant { error: GrantError },
}

/// What an attempt comes to that was sent at `request_started` and answered by `now`.
pub open spec fn outcome_of(
    status_is_success: bool,
    expires_at_ms: Option<i64>,
    now: i64,
    request_started: i64,
) -> Result<i64, AttemptError> {
    if !status_is_success {
        Err(AttemptError::Status)
    } else {
        match expires_at_ms {
            Some(expiry) => match grant_expiry(expiry, now, request_started) {
                Ok(local) => Ok(local),
                Err(error) => Err(AttemptError::Grant { error }),
            },
            None => Err(AttemptError::Malformed),
        }
    }
}

/// What an attempt comes to that was sent at `request_started` and answered by `now`:
/// `status_is_success` tells the status of the reply, and `expires_at_ms` is the expiry
/// in it, if it reads as an acknowledgement. The status counts first.
pub fn attempt_outcome(
    status_is_success: bool,
    expires_at_ms: Option<i64>,
    now: i64,
    request_started: i64,
) -> (r: Result<i64, AttemptError>)
    ensures
        r == outcome_of(status_is_success, expires_at_ms, now, request_started),
        r == (if !status_is_success {
            Err(AttemptError::Status)
        } else {
            match expires_at_ms {
                Some(expiry) => match grant_expiry(expiry, now, request_started) {
                    Ok(local) => Ok(local),
                    Err(error) => Err(AttemptError::Grant { error }),
                },
                None => Err(AttemptError::Malformed),
            }
        }),
{
    if !status_is_success {
        return Err(AttemptError::Status);
    }
    match expires_at_ms {
        Some(expiry) => match bounded_grant_expiry(expiry, now, request_started) {
            Ok(local) => Ok(local),
            Err(error) => Err(AttemptError::Grant { error }),
        },
        None => Err(AttemptError::Malformed),
    }
}

/// How much longer a grant is good for at `now` that expires at `expires_at_ms`.
pub open spec fn grant_left(expires_at_ms: i64, now: i64) -> Result<i64, GrantError> {
    if !(i64::MIN <= expires_at_ms - now <= i64::MAX) {
        Err(GrantError::InvalidExpiry)
    } else if expires_at_ms <= now {
        Err(GrantError::Expired)
    } else {
        Ok((expires_at_ms - now) as i64)
    }
}

/// Why an object may not be touched. `E` is what an exchange fails with.
#[derive(Debug, PartialEq, Eq)]
pub enum AccessError<E> {
    /// The exchange failed.
    Touch { failure: E },
    /// The grant is no good any more.
    Grant { error: GrantError },
}

/// Whether the object may be touched at `now`, after an exchange that came out as
/// `touched`: how much longer the grant is good for.
pub open spec fn access_for<E>(touched: Result<i64, E>, now: i64) -> Result<i64, AccessError<E>> {
    match touched {
        Ok(expiry) => match grant_left(expiry, now) {
            Ok(left) => Ok(left),
            Err(error) => Err(AccessError::<E>::Grant { error }),
        },
        Err(error) => Err(AccessError::Touch { failure: error }),
    }
}

/// The deadline of an exchange that begins at `now` for leave to do `operation` with the
/// object `key`, if it can begin.
pub open spec fn exchange_answer(
    namespace: Seq<char>,
    key: Seq<char>,
    operation: TouchOperation,
    now: i64,
) -> Result<i64, TouchError> {
    match request_answer(namespace, key, operation) {
        Ok(_) => if now + TOUCH_DEADLINE <= i64::MAX {
            Ok((now + TOUCH_DEADLINE) as i64)
        } else {
            Err(TouchError::DeadlineOverflow)
        },
        Err(error) => Err(error),
    }
}

impl TouchClient {
    /// A client that has not done anything yet.
    pub fn new(config: TouchConfig) -> (r: TouchClient)
        ensures
            r.config == config,
            r.stats.touches_ok == 0,
            r.stats.touches_failed == 0,
    {
        TouchClient { config, stats: TouchStats::default() }
    }

    /// How many exchanges were acknowledged, and how many failures were counted.
    pub fn stats_snapshot(&self) -> (r: (u64, u64))
        ensures
            r == (self.stats.touches_ok, self.stats.touches_failed),
    {
        self.stats.snapshot()
    }

    /// Begins an exchange at `now` for leave to do `operation` with the object `key`.
    /// It has to be over by the deadline, however many attempts it takes.
    pub fn touch(&self, key: &str, operation: TouchOperation, now: i64) -> (r: Result<
        TouchExchange,
        TouchError,
    >)
        requires
            fits_as_json(self.config.namespace@),
            fits_as_json(key@),
        ensures
            match exchange_answer(self.config.namespace@, key@, operation, now) {
                Ok(deadline) => {
                    &&& r matches Ok(exchange)
                    &&& request_answer(self.config.namespace@, key@, operation) == Ok::<
                        Seq<char>,
                        TouchError,
                    >(exchange.body@)
                    &&& exchange.deadline == deadline
                    &&& exchange.delay == 250
                },
                Err(error) => r == Err::<TouchExchange, TouchError>(error),
            },
            ({
                let text = request_text(self.config.namespace@, key@, operation);
                let bytes = encode_utf8(text).len();
                if bytes > MAX_BODY_BYTES {
                    r == Err::<TouchExchange, TouchError>(
                        TouchError::BodyTooLarge { bytes: bytes as usize },
                    )
                } else if now + TOUCH_DEADLINE > i64::MAX {
                    r == Err::<TouchExchange, TouchError>(TouchError::DeadlineOverflow)
                } else {
                    &&& r matches Ok(exchange)
                    &&& exchange.body@ == text
                    &&& exchange.deadline == now + TOUCH_DEADLINE
                    &&& exchange.delay == FIRST_RETRY_DELAY
                }
            }),
    {
        let body = match self.config.serialize_request(key, operation) {
            Ok(body) => body,
            Err(error) => {
                return Err(error);
            },
        };
        match now.checked_add(TOUCH_DEADLINE) {
            Some(deadline) => Ok(TouchExchange { body, deadline, delay: FIRST_RETRY_DELAY }),
            None => Err(TouchError::DeadlineOverflow),
        }
    }

    /// Whether there is time for an attempt at `now`. The exchange has failed if not.
    pub fn start_attempt(&mut self, exchange: &TouchExchange, now: i64) -> (r: Result<
        (),
        TouchError,
    >)
        ensures
            final(self).config == old(self).config,
            r == exchange.start_answer(now),
            final(self).stats == old(self).stats.after_start(r),
            if now < exchange.deadline {
                r is Ok && final(self).stats == old(self).stats
            } else {
                &&& r == Err::<(), TouchError>(TouchError::DeadlineExhausted)
                &&& final(self).stats == old(self).stats.with_failed()
            },
    {
        if now >= exchange.deadline {
            self.stats.record_failed();
            return Err(TouchError::DeadlineExhausted);
        }
        Ok(())
    }

    /// What follows from an attempt that came out as `outcome`, by `now`. The wait
    /// before a retry doubles every time, up to a limit.
    pub fn finish_attempt<E>(
        &mut self,
        exchange: &mut TouchExchange,
        outcome: Result<i64, E>,
        now: i64,
    ) -> (r: AttemptStep<E>)
        requires
            old(exchange).wf(),
        ensures
            final(exchange).wf(),
            final(exchange).body == old(exchange).body,
            final(exchange).deadline == old(exchange).deadline,
            final(self).config == old(self).config,
            r == old(exchange).step(outcome, now),
            final(exchange).delay == old(exchange).delay_after(r),
            final(self).stats == old(self).stats.after_step(r),
    {
        match outcome {
            Ok(expires_at_ms) => {
                self.stats.record_ok();
                AttemptStep::Granted { expires_at_ms }
            },
            Err(error) => {
                let delay: i64 = exchange.delay;
                let in_time: bool = match now.checked_add(delay) {
                    Some(retry_at) => retry_at < exchange.deadline,
                    None => false,
                };
                if !in_time {
                    self.stats.record_failed();
                    return AttemptStep::Failed { error };
                }
                exchange.delay = if 2 * delay <= MAX_RETRY_DELAY {
                    2 * delay
                } else {
                    MAX_RETRY_DELAY
                };
                AttemptStep::RetryAfter { delay }
            },
        }
    }

    /// How much longer a grant is good for at `now` that expires at `expires_at_ms`.
    pub fn grant_remaining_millis(&self, expires_at_ms: i64, now: i64) -> (r: Result<
        i64,
        GrantError,
    >)
        ensures
            r == grant_left(expires_at_ms, now),
    {
        let remaining: i64 = match expires_at_ms.checked_sub(now) {
            Some(remaining) => remaining,
            None => {
                return Err(GrantError::InvalidExpiry);
            },
        };
        if remaining <= 0 {
            return Err(GrantError::Expired);
        }
        Ok(remaining)
    }

    /// Whether the object may be touched at `now`, after an exchange that came out as
    /// `touched`: how much longer the grant is good for. A grant that is no good any
    /// more counts as a failure.
    pub fn access<E>(&mut self, touched: Result<i64, E>, now: i64) -> (r: Result<
        i64,
        AccessError<E>,
    >)
        ensures
            r == access_for(touched, now),
            final(self).config == old(self).config,
            final(self).stats == old(self).stats.after_access(r),
            final(self).stats == (if r matches Err(AccessError::Grant { .. }) {
                old(self).stats.with_failed()
            } else {
                old(self).stats
            }),
    {
        match touched {
            Ok(expiry) => match self.grant_remaining_millis(expiry, now) {
                Ok(left) => Ok(left),
                Err(error) => {
                    self.stats.record_failed();
                    Err(AccessError::Grant { error })
                },
            },
            Err(error) => Err(AccessError::Touch { failure: error }),
        }
    }
}

/// The time by which an operation has to be over that starts at `now`, the exchange
/// before it included.
pub open spec fn budget_end(now: i64) -> i64 {
    if now + NATIVE_OPERATION_BUDGET <= i64::MAX {
        (now + NATIVE_OPERATION_BUDGET) as i64
    } else {
        i64::MAX
    }
}

/// The time by which an operation has to be over that starts at `now`, the exchange
/// before it included.
pub fn operation_deadline(now: i64) -> (r: i64)
    ensures
        r == budget_end(now),
{
    match now.checked_add(NATIVE_OPERATION_BUDGET) {
        Some(deadline) => deadline,
        None => i64::MAX,
    }
}

/// Keeps an operation within its time. It is asked each time before the operation
/// goes on.
#[derive(Clone, Copy, Debug, PartialEq, Eq, Structural)]
pub struct OperationGuard {
    pub deadline: i64,
    /// The latest time at which the operation was let go on.
    pub last_now: i64,
}

/// How an operation is guarded that starts at `now` and has to be over by `deadline`: the
/// guard, and how many milliseconds a timer may run at most.
pub open spec fn guarded(deadline: i64, now: i64) -> (OperationGuard, u64) {
    (OperationGuard { deadline, last_now: now }, millis_between(now, deadline))
}

/// Guards an operation that starts at `now` and has to be over by `deadline`: the
/// guard, and how many milliseconds a timer may run at most.
pub fn run_until(deadline: i64, now: i64) -> (r: (OperationGuard, u64))
    ensures
        r == guarded(deadline, now),
        r.0 == (OperationGuard { deadline, last_now: now }),
        r.1 == millis_between(now, deadline),
{
    (OperationGuard { deadline, last_now: now }, millis_until(deadline, now))
}

impl OperationGuard {
    /// Whether the operation may go on at `current`: the clock has not been set back,
    /// and the time is not up.
    pub open spec fn lets(self, current: i64) -> bool {
        self.last_now <= current < self.deadline
    }

    /// The guard after it was asked at `current`.
    pub open spec fn polled(self, current: i64) -> OperationGuard {
        if self.lets(current) {
            OperationGuard { last_now: current, ..self }
        } else {
            self
        }
    }

    /// Whether the operation may go on at `current`.
    pub fn poll(&mut self, current: i64) -> (r: bool)
        ensures
            r == old(self).lets(current),
            *final(self) == old(self).polled(current),
            final(self).deadline == old(self).deadline,
            final(self).last_now == (if r {
                current
            } else {
                old(self).last_now
            }),
    {
        if current < self.last_now || current >= self.deadline {
            return false;
        }
        self.last_now = current;
        true
    }
}

} // verus!
