use vstd::prelude::*;

use crate::code::{lemma_pow10_positive, pow10, pow10_u32, HotpOutput, MAX_DIGITS};
use crate::counter::{time_counter, to_bytes, window_word};
use crate::digest::{dynamic_truncation, hmac_sha1, hmac_sha1_digest, sbits, MAX_INPUT_BYTES};

verus! {

/// Number of bytes in a HOTP counter.
pub const COUNTER_BYTES: usize = 8;

/// Why a code could not be derived.
#[derive(Debug, Clone, Copy, PartialEq, Eq, Structural)]
pub enum OtpError {
    /// The number of digits is not between 1 and 9.
    InvalidDigitCount,
    /// The counter is not exactly eight bytes long.
    InvalidCounterLength,
    /// The timestep is zero or negative.
    InvalidTimestep,
}

/// A digit count that codes can be derived with.
pub open spec fn valid_digits(digits: u8) -> bool {
    1 <= digits <= MAX_DIGITS
}

/// The HOTP value of `key` and `counter` in `digits` digits: the dynamic
/// truncation of their HMAC-SHA1 digest, reduced modulo 10^digits.
pub open spec fn hotp_value(key: Seq<u8>, counter: Seq<u8>, digits: nat) -> nat {
    dynamic_truncation(hmac_sha1_digest(key, counter)) % pow10(digits)
}

/// What `hotp` returns: the digit count is checked first, then the counter's length.
pub open spec fn hotp_spec(digits: u8, key: Seq<u8>, counter: Seq<u8>) -> Result<u32, OtpError> {
    if !valid_digits(digits) {
        Err(OtpError::InvalidDigitCount)
    } else if counter.len() != COUNTER_BYTES {
        Err(OtpError::InvalidCounterLength)
    } else {
        Ok(hotp_value(key, counter, digits as nat) as u32)
    }
}

/// What `totp` returns: the timestep is checked first, then HOTP runs on the
/// index of the window that holds `time`.
pub open spec fn totp_spec(digits: u8, timestep: i64, key: Seq<u8>, time: i64) -> Result<
    u32,
    OtpError,
> {
    if timestep <= 0 {
        Err(OtpError::InvalidTimestep)
    } else {
        hotp_spec(digits, key, time_counter(time as int, timestep as int))
    }
}

/// HOTP reduced to a value of the digest: what follows the HMAC.
pub fn code_of_digest(digest: &[u8; 20], digits: u8) -> (r: u32)
    requires
        valid_digits(digits),
    ensures
        r as nat == dynamic_truncation(digest@) % pow10(digits as nat),
        (r as nat) < pow10(digits as nat),
{
    let m = pow10_u32(digits);
    let v = sbits(digest);
    v % m
}

/// HMAC-based one-time password of `counter` under `key`, in `desired_code_length` digits.
pub fn hotp(desired_code_length: u8, key: &[u8], counter: &[u8]) -> (r: Result<u32, OtpError>)
    requires
        key@.len() < MAX_INPUT_BYTES,
    ensures
        r == hotp_spec(desired_code_length, key@, counter@),
        !valid_digits(desired_code_length) ==> r == Err::<u32, OtpError>(
            OtpError::InvalidDigitCount,
        ),
        r matches Ok(c) ==> (c as nat) < pow10(desired_code_length as nat),
{
    if desired_code_length == 0 || desired_code_length > MAX_DIGITS {
        return Err(OtpError::InvalidDigitCount);
    }
    if counter.len() != COUNTER_BYTES {
        return Err(OtpError::InvalidCounterLength);
    }
    let digest = hmac_sha1(key, counter);
    Ok(code_of_digest(&digest, desired_code_length))
}

/// Time-based one-time password of `key` at Unix time `time`, with windows of
/// `timestep` seconds, in `desired_code_length` digits.
pub fn totp(desired_code_length: u8, timestep: i64, key: &[u8], time: i64) -> (r: Result<
    u32,
    OtpError,
>)
    requires
        key@.len() < MAX_INPUT_BYTES,
    ensures
        r == totp_spec(desired_code_length, timestep, key@, time),
        timestep <= 0 ==> r == Err::<u32, OtpError>(OtpError::InvalidTimestep),
        r matches Ok(c) ==> (c as nat) < pow10(desired_code_length as nat),
{
    if timestep <= 0 {
        return Err(OtpError::InvalidTimestep);
    }
    let counter = to_bytes(window_word(time, timestep));
    hotp(desired_code_length, key, counter.as_slice())
}

/// HOTP as a code with its length, ready to be shown.
pub fn hotp_output(desired_code_length: u8, key: &[u8], counter: &[u8]) -> (r: Result<
    HotpOutput,
    OtpError,
>)
    requires
        key@.len() < MAX_INPUT_BYTES,
    ensures
        match r {
            Ok(o) => hotp_spec(desired_code_length, key@, counter@) == Ok::<u32, OtpError>(o.code)
                && o.length == desired_code_length && o.wf(),
            Err(e) => hotp_spec(desired_code_length, key@, counter@) == Err::<u32, OtpError>(e),
        },
{
    match hotp(desired_code_length, key, counter) {
        Ok(code) => Ok(HotpOutput { code, length: desired_code_length as usize }),
        Err(e) => Err(e),
    }
}

/// TOTP as a code with its length, ready to be shown.
pub fn totp_output(desired_code_length: u8, timestep: i64, key: &[u8], time: i64) -> (r: Result<
    HotpOutput,
    OtpError,
>)
    requires
        key@.len() < MAX_INPUT_BYTES,
    ensures
        match r {
            Ok(o) => totp_spec(desired_code_length, timestep, key@, time) == Ok::<u32, OtpError>(
                o.code,
            ) && o.length == desired_code_length && o.wf(),
            Err(e) => totp_spec(desired_code_length, timestep, key@, time) == Err::<u32, OtpError>(
                e,
            ),
        },
{
    match totp(desired_code_length, timestep, key, time) {
        Ok(code) => Ok(HotpOutput { code, length: desired_code_length as usize }),
        Err(e) => Err(e),
    }
}

/// For a digit count from 1 to 9 and an eight-byte counter, HOTP yields a
/// code, and the code lies in `[0, 10^digits)`.
pub proof fn lemma_hotp_in_range(digits: u8, key: Seq<u8>, counter: Seq<u8>)
    requires
        valid_digits(digits),
        counter.len() == COUNTER_BYTES,
    ensures
        hotp_spec(digits, key, counter) matches Ok(c) && 0 <= c && (c as nat) < pow10(
            digits as nat,
        ),
{
    lemma_pow10_positive(digits as nat);
}

/// HOTP is a function of its inputs: equal inputs give equal results.
pub proof fn lemma_hotp_deterministic(
    d1: u8,
    key1: Seq<u8>,
    counter1: Seq<u8>,
    d2: u8,
    key2: Seq<u8>,
    counter2: Seq<u8>,
)
    requires
        d1 == d2,
        key1 == key2,
        counter1 == counter2,
    ensures
        hotp_spec(d1, key1, counter1) == hotp_spec(d2, key2, counter2),
{
}

/// TOTP is a function of its inputs: equal inputs give equal results.
pub proof fn lemma_totp_deterministic(
    d1: u8,
    step1: i64,
    key1: Seq<u8>,
    time1: i64,
    d2: u8,
    step2: i64,
    key2: Seq<u8>,
    time2: i64,
)
    requires
        d1 == d2,
        step1 == step2,
        key1 == key2,
        time1 == time2,
    ensures
        totp_spec(d1, step1, key1, time1) == totp_spec(d2, step2, key2, time2),
{
}

/// With 30-second windows, the code at `t` and at `t + 1` agree whenever both
/// times fall in the same window.
pub proof fn lemma_totp_window_stable(digits: u8, key: Seq<u8>, t: i64)
    requires
        t < i64::MAX,
        (t as int) / 30 == (t as int + 1) / 30,
    ensures
        totp_spec(digits, 30, key, t) == totp_spec(digits, 30, key, (t + 1) as i64),
{
}

} // verus!
