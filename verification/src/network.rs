use vstd::prelude::*;
use vstd::string::StringSliceAdditionalSpecFns;

verus! {

/// Bytes that the station SSID field holds.
pub const SSID_CAPACITY: usize = 32;

/// Bytes that the password field holds.
pub const PASSWORD_CAPACITY: usize = 64;

/// The clock counts as set once it reads a year after this one.
pub const SYNCED_AFTER_YEAR: i32 = 2000;

/// Why a network cannot be configured.
#[derive(Clone, Copy, Debug, PartialEq, Eq, Structural)]
pub enum WifiConfigError {
    SsidTooLong,
    PasswordTooLong,
}

impl WifiConfigError {
    /// The message the terminal reports.
    pub fn message(&self) -> (text: &'static str)
        ensures
            *self == WifiConfigError::SsidTooLong ==> text@ == "SSID too long"@,
            *self == WifiConfigError::PasswordTooLong ==> text@ == "Password too long"@,
    {
        match self {
            WifiConfigError::SsidTooLong => "SSID too long",
            WifiConfigError::PasswordTooLong => "Password too long",
        }
    }
}

/// Checks that the SSID fits in 32 bytes and the password in 64 bytes of
/// UTF-8, the SSID being checked first.
pub fn check_wifi_credentials(ssid: &str, password: &str) -> (r: Result<(), WifiConfigError>)
    ensures
        r == if ssid.spec_bytes().len() > SSID_CAPACITY {
            Err(WifiConfigError::SsidTooLong)
        } else if password.spec_bytes().len() > PASSWORD_CAPACITY {
            Err(WifiConfigError::PasswordTooLong)
        } else {
            Ok(())
        },
{
    if ssid.as_bytes().len() > SSID_CAPACITY {
        Err(WifiConfigError::SsidTooLong)
    } else if password.as_bytes().len() > PASSWORD_CAPACITY {
        Err(WifiConfigError::PasswordTooLong)
    } else {
        Ok(())
    }
}

/// Whether a clock that reads `year` has been set by time synchronization.
pub fn clock_is_synced(year: i32) -> (synced: bool)
    ensures
        synced == (year > SYNCED_AFTER_YEAR),
{
    year > SYNCED_AFTER_YEAR
}

} // verus!
