//! When to connect, when to try again and when to give up.

use crate::models::{too_long, AppState};
use crate::text::{decimal, decimal_text};
use vstd::arithmetic::power2::{lemma2_to64, lemma_pow2_strictly_increases, pow2};
use vstd::prelude::*;

verus! {

/// The seconds to wait before the next connection attempt after `tries` failed ones: they double
/// from attempt to attempt, up to eight.
pub open spec fn backoff(tries: nat) -> nat {
    if pow2(tries) <= 8 {
        pow2(tries)
    } else {
        8
    }
}

/// The seconds to wait before the next connection attempt.
pub fn backoff_seconds(tries: u32) -> (r: u64)
    ensures
        r == backoff(tries as nat),
{
    proof {
        lemma2_to64();
        if tries > 3 {
            lemma_pow2_strictly_increases(3, tries as nat);
        }
    }
    match tries {
        0 => 1,
        1 => 2,
        2 => 4,
        _ => 8,
    }
}

/// The wait before a connection attempt is at least a second and at most eight, and as long as
/// it is shorter than that, it doubles after every failed attempt, however many there were.
pub proof fn backoff_doubles_up_to_eight(tries: nat)
    ensures
        1 <= backoff(tries) <= 8,
        backoff(0) == 1,
        backoff(tries) < 8 ==> backoff(tries + 1) == 2 * backoff(tries),
        backoff(tries) == 8 ==> backoff(tries + 1) == 8,
{
    lemma2_to64();
    if tries >= 3 {
        if tries > 3 {
            lemma_pow2_strictly_increases(3, tries);
        }
        lemma_pow2_strictly_increases(3, tries + 1);
    }
}

/// How long the first connection is tried for, in seconds.
pub const INITIAL_CONNECT_TIMEOUT: u64 = 300;

/// After how many nanoseconds without a sign of the server the connection is looked at.
pub const HEARTBEAT_NANOSECONDS: u128 = 5_000_000_000;

/// The request that shows which transport a server speaks.
pub const PROBE_BODY: &'static str =
    "{\"jsonrpc\":\"2.0\",\"id\":\"init\",\"method\":\"initialize\",\"params\":{\"protocolVersion\":\"2025-03-26\",\"capabilities\":{},\"clientInfo\":{\"name\":\"test\",\"version\":\"0.1.0\"}}}";

/// The transports that a server may speak.
#[derive(Debug, Clone, Copy, PartialEq, Eq, Structural)]
pub enum TransportKind {
    Sse,
    Streamable,
}

/// A status code of HTTP that says that a request succeeded.
pub open spec fn is_success(status: u16) -> bool {
    200 <= status < 300
}

/// The transport that a server speaks, by the status of its answer to a request that was posted
/// to it: one that does not allow the method has an event stream to read. Any other status is an
/// error, with the text of the status.
pub fn choose_transport(status: u16, status_text: &str) -> (r: Result<TransportKind, String>)
    ensures
        match r {
            Ok(TransportKind::Sse) => status == 405,
            Ok(TransportKind::Streamable) => is_success(status),
            Err(error) => status != 405 && !is_success(status) && error@
                == "Server returned unexpected status: "@ + status_text@,
        },
{
    if status == 405 {
        Ok(TransportKind::Sse)
    } else if 200 <= status && status < 300 {
        Ok(TransportKind::Streamable)
    } else {
        Err("Server returned unexpected status: ".to_owned().concat(status_text))
    }
}

/// Whether the event stream can be read, by the status of the answer of the server; any status
/// but success is an error, with the text of the status.
pub fn check_stream_status(status: u16, status_text: &str) -> (r: Result<(), String>)
    ensures
        match r {
            Ok(_) => is_success(status),
            Err(error) => !is_success(status) && error@
                == "Server returned non-success status: "@ + status_text@,
        },
{
    if 200 <= status && status < 300 {
        Ok(())
    } else {
        Err("Server returned non-success status: ".to_owned().concat(status_text))
    }
}

/// How the request that carries a message ended.
#[derive(Debug, Clone, Copy, PartialEq, Eq, Structural)]
pub enum PostOutcome {
    /// The server answered with the status.
    Answered(u16),
    /// The request failed.
    Failed,
    /// The server did not answer in time.
    TimedOut,
}

/// Whether a message counts as forwarded. The answer of the server does not matter, as it may
/// still reply over the event stream; only a server that does not answer in time is an error.
pub fn forward_result(outcome: PostOutcome, receive_timeout_ms: u64) -> (r: Result<(), String>)
    ensures
        match r {
            Ok(_) => outcome !is TimedOut,
            Err(error) => outcome is TimedOut && error@ == "Request timed out after "@ + decimal(
                receive_timeout_ms as nat,
            ) + " ms"@,
        },
{
    match outcome {
        PostOutcome::TimedOut => Err(
            "Request timed out after ".to_owned().concat(
                decimal_text(receive_timeout_ms).as_str(),
            ).concat(" ms"),
        ),
        _ => Ok(()),
    }
}

/// Why a reconnection failed.
#[derive(Debug, PartialEq, Eq)]
pub enum ReconnectFailureReason {
    /// The time for trying to reconnect is over.
    TimeoutExceeded,
    /// The server could not be reached.
    ConnectionFailed(String),
}

impl AppState {
    /// The seconds to wait before the next connection attempt.
    pub fn get_backoff_duration(&self) -> (r: u64)
        ensures
            r == backoff(self@.connect_tries as nat),
    {
        backoff_seconds(self.connect_tries)
    }

    /// Whether a reconnection is still to be tried, `waited` seconds after the disconnection.
    pub fn may_reconnect(&self, waited: u64) -> (r: Result<(), ReconnectFailureReason>)
        ensures
            match r {
                Ok(_) => !too_long(self@, waited),
                Err(reason) => too_long(self@, waited) && reason
                    == ReconnectFailureReason::TimeoutExceeded,
            },
    {
        if self.waited_too_long(waited) {
            Err(ReconnectFailureReason::TimeoutExceeded)
        } else {
            Ok(())
        }
    }

    /// The outcome of a reconnection that was tried `waited` seconds after the disconnection, as
    /// far as it was still to be tried, given the error with which it failed.
    pub fn try_reconnect(&self, waited: u64, error: Option<String>) -> (r: Result<
        (),
        ReconnectFailureReason,
    >)
        ensures
            match r {
                Ok(_) => !too_long(self@, waited) && error is None,
                Err(ReconnectFailureReason::TimeoutExceeded) => too_long(self@, waited),
                Err(ReconnectFailureReason::ConnectionFailed(reason)) => !too_long(
                    self@,
                    waited,
                ) && error == Some(reason),
            },
    {
        match self.may_reconnect(waited) {
            Err(reason) => Err(reason),
            Ok(_) => match error {
                Some(reason) => Err(ReconnectFailureReason::ConnectionFailed(reason)),
                None => Ok(()),
            },
        }
    }
}

/// The first connection, which is tried again and again.
#[derive(Debug, Clone, Copy, PartialEq, Eq, Structural)]
pub struct InitialConnection {
    /// The number of the attempt.
    pub attempts: u32,
    /// The seconds between two attempts.
    pub delay: u64,
}

/// What is to be done after an attempt to connect.
#[derive(Debug, PartialEq, Eq)]
pub enum RetryStep {
    /// Nothing: there is a connection.
    Connected,
    /// Try again after so many seconds.
    Retry(u64),
    /// End with the error.
    GiveUp(String),
}

impl InitialConnection {
    /// The first attempt.
    pub fn new(delay: u64) -> (r: Self)
        ensures
            r.attempts == 1,
            r.delay == delay,
    {
        InitialConnection { attempts: 1, delay }
    }

    /// An attempt ended, with a connection or without, so many seconds after the beginning of the
    /// first one: without a connection another one follows, unless the time is over.
    pub fn attempted(&mut self, connected: bool, elapsed: u64) -> (r: RetryStep)
        ensures
            final(self).delay == old(self).delay,
            match r {
                RetryStep::Connected => connected && *final(self) == *old(self),
                RetryStep::Retry(seconds) => !connected && elapsed < INITIAL_CONNECT_TIMEOUT
                    && seconds == old(self).delay && final(self).attempts == (if old(self).attempts
                    < u32::MAX {
                    old(self).attempts + 1
                } else {
                    u32::MAX as int
                }),
                RetryStep::GiveUp(error) => !connected && elapsed >= INITIAL_CONNECT_TIMEOUT
                    && *final(self) == *old(self) && error@
                    == "Initial connection timed out after 300s"@,
            },
    {
        if connected {
            RetryStep::Connected
        } else if elapsed >= INITIAL_CONNECT_TIMEOUT {
            RetryStep::GiveUp("Initial connection timed out after 300s".to_owned())
        } else {
            if self.attempts < u32::MAX {
                self.attempts = self.attempts + 1;
            }
            RetryStep::Retry(self.delay)
        }
    }
}

/// What a look at the connection shows.
#[derive(Debug, Clone, Copy, PartialEq, Eq, Structural)]
pub enum Polled {
    /// A message of the server.
    Message,
    /// The end of the stream.
    Ended,
    /// Nothing yet.
    Pending,
}

/// The connection is to be looked at, so many nanoseconds after the last sign of the server.
pub fn heartbeat_due(elapsed_nanos: u128) -> (r: bool)
    ensures
        r == (elapsed_nanos > HEARTBEAT_NANOSECONDS),
{
    elapsed_nanos > HEARTBEAT_NANOSECONDS
}

/// Whether the connection is alive, so many nanoseconds after the last sign of the server, given
/// what a look at it shows, or nothing where it is not to be looked at.
pub fn send_heartbeat_if_needed(elapsed_nanos: u128, polled: Polled) -> (r: Option<bool>)
    ensures
        match r {
            Some(alive) => elapsed_nanos > HEARTBEAT_NANOSECONDS && alive == (polled
                != Polled::Ended),
            None => elapsed_nanos <= HEARTBEAT_NANOSECONDS,
        },
{
    if heartbeat_due(elapsed_nanos) {
        match polled {
            Polled::Message => Some(true),
            Polled::Ended => Some(false),
            Polled::Pending => Some(true),
        }
    } else {
        None
    }
}

/// The wait is one second before the first attempt, two, four and eight seconds before the next
/// ones, and eight seconds before any other.
pub proof fn backoff_is_one_two_four_eight(tries: nat)
    ensures
        tries == 0 ==> backoff(tries) == 1,
        tries == 1 ==> backoff(tries) == 2,
        tries == 2 ==> backoff(tries) == 4,
        tries >= 3 ==> backoff(tries) == 8,
{
    lemma2_to64();
    if tries > 3 {
        lemma_pow2_strictly_increases(3, tries);
    }
}

/// The status codes of success are those from 200 to 299, and no others.
pub proof fn success_has_a_status_of_two_hundred(status: u16)
    ensures
        is_success(status) <==> status / 100 == 2,
{
}

} // verus!
