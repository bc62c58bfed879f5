//! Plain enumerations shared by the command-line front end: output formats,
//! error correction levels and WiFi security modes.

use vstd::prelude::*;

verus! {

/// The four output formats of the rendering pipeline.
#[derive(Clone, Debug, PartialEq, Eq, Structural)]
pub enum OutputFormat {
    /// PNG image file.
    Png,
    /// SVG vector file.
    Svg,
    /// Unicode block glyphs for a terminal.
    Terminal,
    /// Base64-encoded PNG wrapped as a data URI.
    Base64,
}

/// Standard QR error correction levels, trading capacity for resilience.
#[derive(Clone, Copy, Debug, PartialEq, Eq, Structural)]
pub enum ErrorCorrectionLevel {
    /// About 7% error recovery.
    L,
    /// About 15% error recovery.
    M,
    /// About 25% error recovery.
    Q,
    /// About 30% error recovery.
    H,
}

/// WiFi security modes for network QR payloads.
#[derive(Clone, Copy, Debug, PartialEq, Eq, Structural)]
pub enum WifiSecurity {
    /// WPA/WPA2/WPA3.
    Wpa,
    /// WEP (legacy).
    Wep,
    /// Open network without encryption.
    Nopass,
}

/// The security tag used inside a WiFi payload string.
pub open spec fn spec_security_str(s: WifiSecurity) -> Seq<char> {
    match s {
        WifiSecurity::Wpa => "WPA"@,
        WifiSecurity::Wep => "WEP"@,
        WifiSecurity::Nopass => "nopass"@,
    }
}

impl WifiSecurity {
    /// The tag written after `T:` in a WiFi payload.
    pub fn as_str(&self) -> (r: &'static str)
        ensures
            r@ == spec_security_str(*self),
    {
        match self {
            WifiSecurity::Wpa => "WPA",
            WifiSecurity::Wep => "WEP",
            WifiSecurity::Nopass => "nopass",
        }
    }
}

} // verus!
