use rfc6238::{
    code_of_digest, format_code, hotp, hotp_output, offset, pow10_u32, sbits, to_bytes, totp,
    totp_output, window_word, HotpOutput, OtpError,
};

const RFC_KEY: &str = "12345678901234567890";

// HMAC-SHA1 of RFC_KEY and counter 0, from RFC 4226's appendix.
const DIGEST_COUNTER_0: [u8; 20] = [
    0xcc, 0x93, 0xcf, 0x18, 0x50, 0x8d, 0x94, 0x93, 0x4c, 0x64, 0xb6, 0x5d, 0x8b, 0xa7, 0x66,
    0x7f, 0xb7, 0xcd, 0xe4, 0xb0,
];

// The digest of RFC 4226's worked example of dynamic truncation.
const DIGEST_EXAMPLE: [u8; 20] = [
    0x1f, 0x86, 0x98, 0x69, 0x0e, 0x02, 0xca, 0x16, 0x61, 0x85, 0x50, 0xef, 0x7f, 0x19, 0xda,
    0x8e, 0x94, 0x5b, 0x55, 0x5a,
];

#[test]
fn hotp_matches_rfc4226_six_digit_table() {
    let expected: [u32; 10] = [
        755224, 287082, 359152, 969429, 338314, 254676, 287922, 162583, 399871, 520489,
    ];
    for (i, want) in expected.iter().enumerate() {
        let counter = to_bytes(i as u64);
        assert_eq!(Ok(*want), hotp(6, RFC_KEY.as_bytes(), &counter));
    }
}

#[test]
fn hotp_nine_digits() {
    let counter = to_bytes(0);
    assert_eq!(Ok(284755224), hotp(9, RFC_KEY.as_bytes(), &counter));
}

#[test]
fn hotp_stays_below_ten_to_the_digits() {
    for digits in 1u8..=9 {
        for c in 0u64..50 {
            let code = hotp(digits, RFC_KEY.as_bytes(), &to_bytes(c)).unwrap();
            assert!(code < 10u32.pow(digits as u32));
        }
    }
}

#[test]
fn hotp_is_deterministic() {
    let counter = to_bytes(0x0235_23ec);
    let a = hotp(8, b"some other secret", &counter);
    let b = hotp(8, b"some other secret", &counter);
    assert_eq!(a, b);
    let t1 = totp(6, 30, b"key", 1_700_000_000);
    let t2 = totp(6, 30, b"key", 1_700_000_000);
    assert_eq!(t1, t2);
}

#[test]
fn totp_matches_rfc6238_sha1_vectors() {
    let key = RFC_KEY.as_bytes();
    assert_eq!(Ok(07081804), totp(8, 30, key, 1111111109));
    assert_eq!(Ok(14050471), totp(8, 30, key, 1111111111));
    assert_eq!(Ok(89005924), totp(8, 30, key, 1234567890));
    assert_eq!(Ok(69279037), totp(8, 30, key, 2000000000));
    assert_eq!(Ok(65353130), totp(8, 30, key, 20000000000));
}

#[test]
fn hotp_rejects_zero_and_ten_digits() {
    let counter = to_bytes(1);
    assert_eq!(Err(OtpError::InvalidDigitCount), hotp(0, RFC_KEY.as_bytes(), &counter));
    assert_eq!(Err(OtpError::InvalidDigitCount), hotp(10, RFC_KEY.as_bytes(), &counter));
    assert_eq!(Err(OtpError::InvalidDigitCount), totp(10, 30, RFC_KEY.as_bytes(), 59));
}

#[test]
fn hotp_rejects_counter_of_wrong_length() {
    let key = RFC_KEY.as_bytes();
    assert_eq!(Err(OtpError::InvalidCounterLength), hotp(6, key, &[0u8; 7]));
    assert_eq!(Err(OtpError::InvalidCounterLength), hotp(6, key, &[0u8; 9]));
    assert_eq!(Err(OtpError::InvalidCounterLength), hotp(6, key, &[]));
    // the digit count is checked first
    assert_eq!(Err(OtpError::InvalidDigitCount), hotp(0, key, &[0u8; 7]));
}

#[test]
fn totp_rejects_nonpositive_timestep() {
    let key = RFC_KEY.as_bytes();
    assert_eq!(Err(OtpError::InvalidTimestep), totp(6, 0, key, 59));
    assert_eq!(Err(OtpError::InvalidTimestep), totp(6, -30, key, 59));
    assert_eq!(Err(OtpError::InvalidTimestep), totp(0, 0, key, 59));
}

#[test]
fn totp_is_stable_within_a_window() {
    let key = RFC_KEY.as_bytes();
    for t in 30i64..59 {
        assert_eq!(totp(8, 30, key, t), totp(8, 30, key, t + 1));
    }
    assert_ne!(totp(8, 30, key, 59), totp(8, 30, key, 60));
}

#[test]
fn totp_before_the_epoch_rounds_down() {
    let key = RFC_KEY.as_bytes();
    assert_eq!(totp(6, 30, key, -1), hotp(6, key, &[0xff; 8]));
    assert_eq!(totp(6, 30, key, -30), hotp(6, key, &[0xff; 8]));
    let minus_two = to_bytes(u64::MAX - 1);
    assert_eq!(totp(6, 30, key, -31), hotp(6, key, &minus_two));
}

#[test]
fn window_word_of_times() {
    assert_eq!(1, window_word(59, 30));
    assert_eq!(2, window_word(60, 30));
    assert_eq!(0, window_word(0, 30));
    assert_eq!(u64::MAX, window_word(-1, 30));
    assert_eq!(u64::MAX, window_word(-30, 30));
    assert_eq!(u64::MAX - 1, window_word(-31, 30));
    assert_eq!(i64::MAX as u64, window_word(i64::MAX, 1));
    assert_eq!(1u64 << 63, window_word(i64::MIN, 1));
}

#[test]
fn to_bytes_is_big_endian() {
    assert_eq!([0, 0, 0, 0, 0x02, 0x35, 0x23, 0xec], to_bytes(0x0235_23ec));
    assert_eq!([0, 0, 0, 0, 0, 0, 0, 1], to_bytes(1));
    assert_eq!([0x01, 0x23, 0x45, 0x67, 0x89, 0xab, 0xcd, 0xef], to_bytes(0x0123_4567_89ab_cdef));
}

#[test]
fn dynamic_truncation_of_rfc4226_example() {
    assert_eq!(10, offset(&DIGEST_EXAMPLE));
    assert_eq!(0x50ef7f19, sbits(&DIGEST_EXAMPLE));
    assert_eq!(872921, code_of_digest(&DIGEST_EXAMPLE, 6));
}

#[test]
fn dynamic_truncation_clears_the_top_bit() {
    let mut d = [0xffu8; 20];
    d[19] = 0xf0;
    assert_eq!(0, offset(&d));
    assert_eq!(0x7fff_ffff, sbits(&d));
    d[19] = 0x0f;
    d[18] = 0x12;
    assert_eq!(15, offset(&d));
    assert_eq!(0x7fff_ff12, sbits(&d));
}

#[test]
fn code_of_digest_reduces_modulo() {
    assert_eq!(1284755224 % 100_000_000, code_of_digest(&DIGEST_COUNTER_0, 8));
    assert_eq!(4, code_of_digest(&DIGEST_COUNTER_0, 1));
}

#[test]
fn powers_of_ten() {
    assert_eq!(1, pow10_u32(0));
    assert_eq!(10, pow10_u32(1));
    assert_eq!(1_000_000_000, pow10_u32(9));
}

#[test]
fn format_code_edges() {
    assert_eq!("000000", format_code(0, 6));
    assert_eq!("7", format_code(7, 1));
    assert_eq!("", format_code(0, 0));
    assert_eq!("999999999", format_code(999_999_999, 9));
    assert_eq!("004294967295", format_code(u32::MAX, 12));
}

#[test]
fn hotp_output_formats_with_leading_zero() {
    let counter = to_bytes(0x0235_23ec);
    let out = hotp_output(8, RFC_KEY.as_bytes(), &counter).unwrap();
    assert_eq!(8, out.length);
    assert_eq!("07081804", out.formatted());
    let t = totp_output(8, 30, RFC_KEY.as_bytes(), 1111111109).unwrap();
    assert_eq!("07081804", t.formatted());
    assert_eq!(Err(OtpError::InvalidTimestep), totp_output(8, 0, RFC_KEY.as_bytes(), 1).map(|o| o.code));
    let manual = HotpOutput { code: 42, length: 4 };
    assert_eq!("0042", manual.formatted());
}
