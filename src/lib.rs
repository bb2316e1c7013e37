//! HOTP (RFC 4226) and TOTP (RFC 6238) one-time codes, with their
//! truncation, time windowing and formatting stated and proved.

pub mod code;
pub mod counter;
pub mod digest;
pub mod otp;

pub use code::{format_code, pow10_u32, HotpOutput};
pub use counter::{to_bytes, window_word};
pub use digest::{offset, sbits};
pub use otp::{code_of_digest, hotp, hotp_output, totp, totp_output, OtpError};
