//! What each step of an exchange with the gateway comes to, how grants are judged, and how
//! requests are written.
//!
//! The times in these laws are milliseconds.

use vstd::prelude::*;
use vstd::utf8::encode_utf8;

use crate::json::{json_char, json_chars, json_string};
use crate::touch::{
    access_for, budget_end, config_of, exchange_answer, fits_as_json, grant_expiry, grant_left,
    guarded, header_text, millis_between, next_delay, outcome_of, reply_with, request_answer,
    request_text, time_read, AccessError, AttemptError, AttemptStep, GrantError, OperationGuard,
    TouchError, TouchExchange, TouchOperation, TouchStats,
};

verus! {

/// An object may be touched exactly while its grant has time left, however much, and it is
/// told how much. An exchange that failed gives no access, nor does a grant that has expired
/// or whose time left cannot be told.
pub proof fn law_a_good_grant_gives_access<E>(touched: Result<i64, E>, now: i64)
    ensures
        touched matches Ok(expiry) ==> {
            let left = expiry - now;
            &&& 0 < left <= i64::MAX ==> access_for(touched, now) == Ok::<i64, AccessError<E>>(
                left as i64,
            )
            &&& i64::MIN <= left <= 0 ==> access_for(touched, now) == Err::<i64, AccessError<E>>(
                AccessError::Grant { error: GrantError::Expired },
            )
            &&& !(i64::MIN <= left <= i64::MAX) ==> access_for(touched, now) == Err::<
                i64,
                AccessError<E>,
            >(AccessError::Grant { error: GrantError::InvalidExpiry })
        },
        touched matches Err(failure) ==> access_for(touched, now) == Err::<i64, AccessError<E>>(
            AccessError::Touch { failure },
        ),
{
}

/// A grant has the time left that lies between now and its expiry.
pub proof fn law_what_is_left_of_a_grant(expiry: i64, now: i64)
    ensures
        0 < expiry - now <= i64::MAX ==> grant_left(expiry, now) == Ok::<i64, GrantError>(
            (expiry - now) as i64,
        ),
        i64::MIN <= expiry - now <= 0 ==> grant_left(expiry, now) == Err::<i64, GrantError>(
            GrantError::Expired,
        ),
        !(i64::MIN <= expiry - now <= i64::MAX) ==> grant_left(expiry, now) == Err::<
            i64,
            GrantError,
        >(GrantError::InvalidExpiry),
{
}

/// A grant is taken exactly if the reply is in less than sixty seconds after the request, and
/// not before it, and the grant would last from then on, for no more than sixty-two seconds.
/// It is good until the gateway wants it to expire, or until sixty seconds after the request
/// if that is earlier. Any other is refused, and it is told why.
pub proof fn law_how_grants_are_judged(expiry: i64, now: i64, request_started: i64)
    ensures
        ({
            let r = grant_expiry(expiry, now, request_started);
            let told = i64::MIN <= expiry - now <= i64::MAX;
            let lasts = request_started <= now && now < expiry <= now + 62_000;
            &&& r == Err::<i64, GrantError>(GrantError::InvalidExpiry) <==> !told
            &&& r == Err::<i64, GrantError>(GrantError::OutsideLifetime) <==> told && !lasts
            &&& r == Err::<i64, GrantError>(GrantError::ExpiredInTransit) <==> lasts && now
                >= request_started + 60_000
            &&& r is Ok <==> lasts && now < request_started + 60_000
            &&& r matches Ok(local) ==> local <= expiry && local <= request_started + 60_000 && (
            local == expiry || local == request_started + 60_000)
        }),
{
}

/// An attempt comes to the grant in its reply, if the status is a success and the reply reads
/// as an acknowledgement.
pub proof fn law_what_an_attempt_comes_to(
    status_is_success: bool,
    expires_at_ms: Option<i64>,
    now: i64,
    request_started: i64,
)
    ensures
        ({
            let r = outcome_of(status_is_success, expires_at_ms, now, request_started);
            &&& r == Err::<i64, AttemptError>(AttemptError::Status) <==> !status_is_success
            &&& r == Err::<i64, AttemptError>(AttemptError::Malformed) <==> status_is_success
                && expires_at_ms is None
            &&& status_is_success && expires_at_ms is Some ==> match grant_expiry(
                expires_at_ms->0,
                now,
                request_started,
            ) {
                Ok(local) => r == Ok::<i64, AttemptError>(local),
                Err(error) => r == Err::<i64, AttemptError>(AttemptError::Grant { error }),
            }
        }),
{
}

/// A grant ends an exchange. A failure is followed by another attempt, after the wait that is
/// due, exactly if that would start before the deadline; the wait after it is twice as long,
/// but no more than five seconds. Otherwise the failure ends the exchange.
pub proof fn law_what_follows_an_attempt<E>(
    exchange: TouchExchange,
    outcome: Result<i64, E>,
    now: i64,
)
    requires
        exchange.delay >= 0,
    ensures
        ({
            let r = exchange.step(outcome, now);
            &&& outcome matches Ok(expiry) ==> r == (AttemptStep::<E>::Granted {
                expires_at_ms: expiry,
            }) && exchange.delay_after(r) == exchange.delay
            &&& outcome matches Err(error) ==> {
                &&& now + exchange.delay < exchange.deadline ==> {
                    &&& r == (AttemptStep::<E>::RetryAfter { delay: exchange.delay })
                    &&& 2 * exchange.delay <= 5_000 ==> exchange.delay_after(r) == 2
                        * exchange.delay
                    &&& 2 * exchange.delay > 5_000 ==> exchange.delay_after(r) == 5_000
                }
                &&& now + exchange.delay >= exchange.deadline ==> r == (AttemptStep::Failed {
                    error,
                }) && exchange.delay_after(r) == exchange.delay
            }
        }),
{
}

/// The wait doubles every time, up to five seconds.
pub proof fn law_the_next_wait_is_twice_as_long(delay: i64)
    requires
        0 <= delay,
    ensures
        delay <= 2_500 ==> next_delay(delay) == 2 * delay,
        delay > 2_500 ==> next_delay(delay) == 5_000,
{
}

/// The counter of acknowledged exchanges moves by one with a grant, the counter of failures by
/// one with a failure, and neither while an exchange goes on. A full counter starts over.
pub proof fn law_how_exchanges_are_counted<E>(stats: TouchStats, step: AttemptStep<E>)
    ensures
        ({
            let t = stats.after_step(step);
            &&& t == if step is Granted {
                stats.with_ok()
            } else if step is Failed {
                stats.with_failed()
            } else {
                stats
            }
            &&& stats.with_ok().touches_failed == stats.touches_failed
            &&& stats.with_failed().touches_ok == stats.touches_ok
            &&& stats.with_ok().touches_ok == if stats.touches_ok < u64::MAX {
                stats.touches_ok + 1
            } else {
                0
            }
            &&& stats.with_failed().touches_failed == if stats.touches_failed < u64::MAX {
                stats.touches_failed + 1
            } else {
                0
            }
        }),
{
}

/// An attempt starts exactly before the deadline, and one that cannot start is a failure. An
/// attempt may go on exactly before the deadline.
pub proof fn law_when_an_attempt_starts(exchange: TouchExchange, stats: TouchStats, now: i64)
    ensures
        exchange.goes_on(now) <==> now < exchange.deadline,
        now < exchange.deadline ==> exchange.start_answer(now) == Ok::<(), TouchError>(())
            && stats.after_start(exchange.start_answer(now)) == stats,
        now >= exchange.deadline ==> exchange.start_answer(now) == Err::<(), TouchError>(
            TouchError::DeadlineExhausted,
        ) && stats.after_start(exchange.start_answer(now)) == stats.with_failed(),
{
}

/// A grant that has expired by the time the object is to be touched is a failure; an access
/// that is given is none, and an exchange that failed is not counted again.
pub proof fn law_how_accesses_are_counted<E>(
    stats: TouchStats,
    touched: Result<i64, E>,
    now: i64,
)
    ensures
        ({
            let t = stats.after_access(access_for(touched, now));
            &&& touched is Err ==> t == stats
            &&& touched matches Ok(expiry) ==> {
                &&& 0 < expiry - now <= i64::MAX ==> t == stats
                &&& !(0 < expiry - now <= i64::MAX) ==> t == stats.with_failed()
            }
        }),
{
}

/// There are exchanges exactly if both an endpoint and a token are set and neither is empty,
/// and then with those and with the namespace given.
pub proof fn law_when_there_are_exchanges(
    endpoint: Option<String>,
    token: Option<String>,
    namespace: String,
)
    ensures
        ({
            let r = config_of(endpoint, token, namespace);
            &&& r is Some <==> endpoint is Some && token is Some && endpoint->0@.len() > 0
                && token->0@.len() > 0
            &&& r matches Some(config) ==> Some(config.endpoint) == endpoint && Some(config.token)
                == token && config.namespace == namespace
        }),
{
}

/// Waits lie between a quarter of a second and five seconds, and text can be written as JSON
/// as long as twice what it may come to fits in memory.
pub proof fn law_what_is_asked_of_exchanges_and_texts(exchange: TouchExchange, text: Seq<char>)
    ensures
        exchange.wf() <==> 250 <= exchange.delay <= 5_000,
        fits_as_json(text) <==> 12 * text.len() + 4 <= isize::MAX,
{
}

/// The time until a deadline is what lies between, and none once it has passed.
pub proof fn law_the_time_until_a_deadline(now: i64, deadline: i64)
    ensures
        deadline <= now ==> millis_between(now, deadline) == 0,
        0 < deadline - now <= i64::MAX ==> millis_between(now, deadline) == deadline - now,
        deadline - now > i64::MAX ==> millis_between(now, deadline) == i64::MAX,
{
}

/// An attempt may be waited for until the deadline of its exchange.
pub proof fn law_an_attempt_is_waited_for_until_the_deadline(exchange: TouchExchange, now: i64)
    ensures
        exchange.deadline <= now ==> exchange.left_at(now) == 0,
        0 < exchange.deadline - now <= i64::MAX ==> now + exchange.left_at(now)
            == exchange.deadline,
        exchange.deadline - now > i64::MAX ==> exchange.left_at(now) == i64::MAX,
{
}

/// An operation has twenty minutes from its start.
pub proof fn law_an_operation_has_twenty_minutes(start: i64)
    ensures
        start <= i64::MAX - 1_200_000 ==> budget_end(start) == start + 1_200_000,
        start > i64::MAX - 1_200_000 ==> budget_end(start) == i64::MAX,
{
}

/// An operation may go on exactly if the clock has not been set back since it last did and the
/// deadline has not come.
pub proof fn law_when_an_operation_may_go_on(guard: OperationGuard, current: i64)
    ensures
        guard.lets(current) <==> guard.last_now <= current && current < guard.deadline,
{
}

/// An operation is guarded from its start until its deadline, and a timer runs for as long. It
/// may go on at its start exactly if the deadline lies ahead.
pub proof fn law_how_an_operation_is_guarded(deadline: i64, now: i64)
    ensures
        ({
            let (guard, timer) = guarded(deadline, now);
            &&& guard.deadline == deadline
            &&& guard.last_now == now
            &&& guard.lets(now) <==> now < deadline
            &&& deadline <= now ==> timer == 0
            &&& 0 < deadline - now <= i64::MAX ==> timer == deadline - now
            &&& deadline - now > i64::MAX ==> timer == i64::MAX
        }),
{
}

/// The deadline of an operation does not move. A time at which it may go on is remembered, any
/// other is not.
pub proof fn law_what_asking_a_guard_does(guard: OperationGuard, current: i64)
    ensures
        guard.polled(current).deadline == guard.deadline,
        guard.last_now <= current && current < guard.deadline ==> guard.polled(current).last_now
            == current,
        current < guard.last_now || guard.deadline <= current ==> guard.polled(current).last_now
            == guard.last_now,
{
}

/// The clock reads as milliseconds since the epoch, and before that as the earliest time.
pub proof fn law_how_the_clock_is_read(millis: u128)
    ensures
        millis <= i64::MAX ==> time_read(Some(millis)) == millis,
        time_read(None) == i64::MIN,
{
}

/// A client proves who it is by its token as it is.
pub proof fn law_the_header_holds_the_token(token: Seq<char>)
    ensures
        header_text(token) == "Bearer "@ + token,
        header_text(token).len() == 7 + token.len(),
        header_text(token).skip(7) == token,
{
    reveal_strlit("Bearer ");
    assert(header_text(token).skip(7) =~= token);
}

/// A reply is its pieces one after the other, up to 4096 bytes. It makes no difference how it
/// is cut into pieces.
pub proof fn law_how_a_reply_comes_in(full: Seq<u8>, a: Seq<u8>, b: Seq<u8>)
    ensures
        full.len() + a.len() <= 4096 ==> reply_with(full, a) == Ok::<Seq<u8>, TouchError>(full + a),
        full.len() + a.len() > 4096 ==> reply_with(full, a) == Err::<Seq<u8>, TouchError>(
            TouchError::ResponseTooLarge,
        ),
        reply_with(full, a + b) is Ok <==> reply_with(full, a) is Ok && reply_with(
            full + a,
            b,
        ) is Ok,
        reply_with(full, a + b) is Ok ==> reply_with(full, a + b) == reply_with(
            reply_with(full, a)->Ok_0,
            b,
        ),
{
    assert(full + (a + b) =~= full + a + b);
}

/// An exchange begins exactly if its request has no more than 2048 bytes and there are five
/// minutes to go before the end of time. It has to be over five minutes later.
pub proof fn law_when_an_exchange_begins(
    namespace: Seq<char>,
    key: Seq<char>,
    operation: TouchOperation,
    now: i64,
)
    ensures
        ({
            let text = request_text(namespace, key, operation);
            let bytes = encode_utf8(text).len();
            let r = exchange_answer(namespace, key, operation, now);
            &&& bytes <= 2048 <==> request_answer(namespace, key, operation) == Ok::<
                Seq<char>,
                TouchError,
            >(text)
            &&& bytes > 2048 ==> request_answer(namespace, key, operation) == Err::<
                Seq<char>,
                TouchError,
            >(TouchError::BodyTooLarge { bytes: bytes as usize }) && r == Err::<i64, TouchError>(
                TouchError::BodyTooLarge { bytes: bytes as usize },
            )
            &&& bytes <= 2048 && now <= i64::MAX - 300_000 ==> r == Ok::<i64, TouchError>(
                (now + 300_000) as i64,
            )
            &&& bytes <= 2048 && now > i64::MAX - 300_000 ==> r == Err::<i64, TouchError>(
                TouchError::DeadlineOverflow,
            )
        }),
{
}

/// A request is a JSON object of three texts: the namespace, the key and the operation.
pub proof fn law_how_a_request_is_written(
    namespace: Seq<char>,
    key: Seq<char>,
    operation: TouchOperation,
)
    ensures
        operation is Read ==> request_text(namespace, key, operation) == "{\"namespace\":"@
            + json_string(namespace) + ",\"key\":"@ + json_string(key) + ",\"operation\":\""@
            + "read"@ + "\"}"@,
        operation is Write ==> request_text(namespace, key, operation) == "{\"namespace\":"@
            + json_string(namespace) + ",\"key\":"@ + json_string(key) + ",\"operation\":\""@
            + "write"@ + "\"}"@,
{
}

/// A JSON string is text between quotes in which quotes, backslashes and control characters
/// stand behind a backslash, and every other character stands for itself.
pub proof fn law_how_text_is_quoted(before: Seq<char>, c: char, after: Seq<char>)
    ensures
        json_string(Seq::<char>::empty()) == seq!['"', '"'],
        json_chars(before + seq![c] + after) == json_chars(before) + json_char(c) + json_chars(
            after,
        ),
        json_string(before) == seq!['"'] + json_chars(before) + seq!['"'],
        (c as u32) >= 0x20 && c != '"' && c != '\\' ==> json_char(c) == seq![c],
        (c as u32) < 0x20 || c == '"' || c == '\\' ==> json_char(c).len() >= 2 && json_char(c)[0]
            == '\\',
        c == '"' || c == '\\' ==> json_char(c) == seq!['\\', c],
        c as u32 == 8 ==> json_char(c) == seq!['\\', 'b'],
        c as u32 == 9 ==> json_char(c) == seq!['\\', 't'],
        c as u32 == 10 ==> json_char(c) == seq!['\\', 'n'],
        c as u32 == 12 ==> json_char(c) == seq!['\\', 'f'],
        c as u32 == 13 ==> json_char(c) == seq!['\\', 'r'],
        (c as u32) < 0x20 && c as u32 != 8 && c as u32 != 9 && c as u32 != 10 && c as u32 != 12
            && c as u32 != 13 ==> json_char(c).len() == 6 && json_char(c).take(4) == seq![
            '\\',
            'u',
            '0',
            '0',
        ] && json_char(c)[4] == (if (c as u32) < 0x10 {
            '0'
        } else {
            '1'
        }) && json_char(c)[5] as u32 == (if c as u32 % 16 < 10 {
            '0' as u32 + c as u32 % 16
        } else {
            'a' as u32 + c as u32 % 16 - 10
        }),
{
    if (c as u32) < 0x20 {
        assert(json_char(c).len() == 6 ==> json_char(c).take(4) =~= seq!['\\', 'u', '0', '0']);
    }
    assert(json_string(Seq::<char>::empty()) =~= seq!['"', '"']);
    lemma_json_chars_split(before, seq![c] + after);
    assert(before + seq![c] + after =~= before + (seq![c] + after));
    assert((seq![c] + after).drop_first() =~= after);
    assert(json_chars(seq![c] + after) == json_char(c) + json_chars(after));
    assert(json_chars(before) + (json_char(c) + json_chars(after)) =~= json_chars(before)
        + json_char(c) + json_chars(after));
}

/// Text is written piece by piece.
proof fn lemma_json_chars_split(a: Seq<char>, b: Seq<char>)
    ensures
        json_chars(a + b) == json_chars(a) + json_chars(b),
    decreases a.len(),
{
    if a.len() == 0 {
        assert(a + b =~= b);
        assert(json_chars(a) + json_chars(b) =~= json_chars(b));
    } else {
        lemma_json_chars_split(a.drop_first(), b);
        assert((a + b).drop_first() =~= a.drop_first() + b);
        assert((a + b)[0] == a[0]);
        assert(json_chars(a + b) =~= json_chars(a) + json_chars(b));
    }
}

} // verus!
