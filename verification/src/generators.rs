//! Payload string generators for the supported QR code kinds.

use vstd::prelude::*;
use vstd::string::*;
use crate::cli::{spec_security_str, WifiSecurity};
use crate::utils::{
    escape_special_chars, spec_escape, spec_form_urlencode, spec_urlencode, urlencoding_form,
    urlencoding_simple,
};

verus! {

/// The text of a boolean flag.
pub open spec fn spec_bool_str(b: bool) -> Seq<char> {
    if b {
        "true"@
    } else {
        "false"@
    }
}

/// A WiFi network payload: security tag, escaped SSID and password, and the
/// hidden flag, each in its labelled field, closed by a double semicolon.
pub open spec fn spec_wifi_string(
    ssid: Seq<char>,
    password: Seq<char>,
    security: WifiSecurity,
    hidden: bool,
) -> Seq<char> {
    "WIFI:T:"@ + spec_security_str(security) + ";S:"@ + spec_escape(ssid) + ";P:"@ + spec_escape(
        password,
    ) + ";H:"@ + spec_bool_str(hidden) + ";;"@
}

/// Builds the WiFi connection payload in the standard format.
pub fn generate_wifi_string(ssid: &str, password: &str, security: &WifiSecurity, hidden: bool) -> (r:
    String)
    ensures
        r@ == spec_wifi_string(ssid@, password@, *security, hidden),
{
    let mut s = String::from_str("WIFI:T:");
    s.append(security.as_str());
    s.append(";S:");
    let esc_ssid = escape_special_chars(ssid);
    s.append(esc_ssid.as_str());
    s.append(";P:");
    let esc_pwd = escape_special_chars(password);
    s.append(esc_pwd.as_str());
    s.append(";H:");
    if hidden {
        s.append("true");
    } else {
        s.append("false");
    }
    s.append(";;");
    proof {
        assert(s@ =~= spec_wifi_string(ssid@, password@, *security, hidden));
    }
    s
}

/// An email payload: plain `mailto:` when subject and body are empty, else a
/// query with the form-encoded subject and body (spaces as `+`).
pub open spec fn spec_email_string(address: Seq<char>, subject: Seq<char>, body: Seq<char>) -> Seq<
    char,
> {
    if subject.len() == 0 && body.len() == 0 {
        "mailto:"@ + address
    } else {
        "mailto:"@ + address + "?subject="@ + spec_form_urlencode(subject) + "&body="@
            + spec_form_urlencode(body)
    }
}

/// Builds the `mailto:` payload with optional subject and body.
pub fn generate_email_string(address: &str, subject: &str, body: &str) -> (r: String)
    ensures
        r@ == spec_email_string(address@, subject@, body@),
{
    let mut s = String::from_str("mailto:");
    s.append(address);
    if subject.is_empty() && body.is_empty() {
        proof {
            assert(s@ =~= spec_email_string(address@, subject@, body@));
        }
        return s;
    }
    s.append("?subject=");
    let enc_subject = urlencoding_form(subject);
    s.append(enc_subject.as_str());
    s.append("&body=");
    let enc_body = urlencoding_form(body);
    s.append(enc_body.as_str());
    proof {
        assert(s@ =~= spec_email_string(address@, subject@, body@));
    }
    s
}

/// An SMS payload: the bare number under the `sms:` scheme when there is no
/// message, else the `smsto:` scheme with the message after a colon.
pub open spec fn spec_sms_string(number: Seq<char>, message: Seq<char>) -> Seq<char> {
    if message.len() == 0 {
        "sms:"@ + number
    } else {
        "smsto:"@ + number + ":"@ + message
    }
}

/// Builds the SMS payload with an optional message body.
pub fn generate_sms_string(number: &str, message: &str) -> (r: String)
    ensures
        r@ == spec_sms_string(number@, message@),
{
    if message.is_empty() {
        let mut s = String::from_str("sms:");
        s.append(number);
        proof {
            assert(s@ =~= spec_sms_string(number@, message@));
        }
        return s;
    }
    let mut s = String::from_str("smsto:");
    s.append(number);
    s.append(":");
    s.append(message);
    proof {
        assert(s@ =~= spec_sms_string(number@, message@));
    }
    s
}

/// A telephone payload.
pub open spec fn spec_phone_string(number: Seq<char>) -> Seq<char> {
    "tel:"@ + number
}

/// Builds the `tel:` payload.
pub fn generate_phone_string(number: &str) -> (r: String)
    ensures
        r@ == spec_phone_string(number@),
{
    let mut s = String::from_str("tel:");
    s.append(number);
    s
}

/// A geographic location payload from already-formatted coordinate text.
pub open spec fn spec_geo_string(lat: Seq<char>, lon: Seq<char>) -> Seq<char> {
    "geo:"@ + lat + ","@ + lon
}

/// Builds the `geo:` payload from decimal coordinate text.
pub fn generate_geo_string(lat: &str, lon: &str) -> (r: String)
    ensures
        r@ == spec_geo_string(lat@, lon@),
{
    let mut s = String::from_str("geo:");
    s.append(lat);
    s.append(",");
    s.append(lon);
    proof {
        assert(s@ =~= spec_geo_string(lat@, lon@));
    }
    s
}

/// A vCard 3.0 contact: name fields always, phone, email and organisation
/// lines only when non-empty.
pub open spec fn spec_vcard_string(
    first_name: Seq<char>,
    last_name: Seq<char>,
    phone: Seq<char>,
    email: Seq<char>,
    org: Seq<char>,
) -> Seq<char> {
    "BEGIN:VCARD\nVERSION:3.0\nN:"@ + last_name + ";"@ + first_name + ";;;\nFN:"@ + first_name
        + " "@ + last_name + "\n"@ + (if phone.len() > 0 {
        "TEL:"@ + phone + "\n"@
    } else {
        Seq::empty()
    }) + (if email.len() > 0 {
        "EMAIL:"@ + email + "\n"@
    } else {
        Seq::empty()
    }) + (if org.len() > 0 {
        "ORG:"@ + org + "\n"@
    } else {
        Seq::empty()
    }) + "END:VCARD"@
}

/// Builds a vCard 3.0 contact payload.
pub fn generate_vcard_string(
    first_name: &str,
    last_name: &str,
    phone: &str,
    email: &str,
    org: &str,
) -> (r: String)
    ensures
        r@ == spec_vcard_string(first_name@, last_name@, phone@, email@, org@),
{
    let mut s = String::from_str("BEGIN:VCARD\nVERSION:3.0\nN:");
    s.append(last_name);
    s.append(";");
    s.append(first_name);
    s.append(";;;\nFN:");
    s.append(first_name);
    s.append(" ");
    s.append(last_name);
    s.append("\n");
    if !phone.is_empty() {
        s.append("TEL:");
        s.append(phone);
        s.append("\n");
    }
    if !email.is_empty() {
        s.append("EMAIL:");
        s.append(email);
        s.append("\n");
    }
    if !org.is_empty() {
        s.append("ORG:");
        s.append(org);
        s.append("\n");
    }
    s.append("END:VCARD");
    proof {
        assert(s@ =~= spec_vcard_string(first_name@, last_name@, phone@, email@, org@));
    }
    s
}

/// A date/time string with every `-` and `:` removed, as vCalendar wants it.
pub open spec fn spec_strip_datetime(s: Seq<char>) -> Seq<char>
    decreases s.len(),
{
    if s.len() == 0 {
        Seq::empty()
    } else if s.last() == '-' || s.last() == ':' {
        spec_strip_datetime(s.drop_last())
    } else {
        spec_strip_datetime(s.drop_last()).push(s.last())
    }
}

/// Removes `-` and `:` from an ISO 8601 date/time string.
fn strip_datetime(input: &str) -> (r: String)
    ensures
        r@ == spec_strip_datetime(input@),
{
    let n = input.unicode_len();
    let mut out = String::new();
    let mut i: usize = 0;
    while i < n
        invariant
            n == input@.len(),
            i <= n,
            out@ == spec_strip_datetime(input@.take(i as int)),
        decreases n - i,
    {
        let c = input.get_char(i);
        if !(c == '-' || c == ':') {
            out.push(c);
        }
        proof {
            assert(input@.take(i + 1).drop_last() =~= input@.take(i as int));
            assert(out@ =~= spec_strip_datetime(input@.take(i + 1)));
        }
        i = i + 1;
    }
    proof {
        assert(input@.take(n as int) =~= input@);
    }
    out
}

/// A vCalendar event: summary, start and end with separators stripped, and
/// optional location and description lines.
pub open spec fn spec_event_string(
    title: Seq<char>,
    start: Seq<char>,
    end: Seq<char>,
    location: Option<Seq<char>>,
    description: Option<Seq<char>>,
) -> Seq<char> {
    "BEGIN:VEVENT\nSUMMARY:"@ + title + "\nDTSTART:"@ + spec_strip_datetime(start) + "\nDTEND:"@
        + spec_strip_datetime(end) + "\n"@ + (match location {
        Some(loc) => "LOCATION:"@ + loc + "\n"@,
        None => Seq::empty(),
    }) + (match description {
        Some(desc) => "DESCRIPTION:"@ + desc + "\n"@,
        None => Seq::empty(),
    }) + "END:VEVENT"@
}

/// Builds a vCalendar event payload from ISO 8601 date/time text.
pub fn generate_event_string(
    title: &str,
    start: &str,
    end: &str,
    location: Option<&str>,
    description: Option<&str>,
) -> (r: String)
    ensures
        r@ == spec_event_string(
            title@,
            start@,
            end@,
            match location {
                Some(l) => Some(l@),
                None => None,
            },
            match description {
                Some(d) => Some(d@),
                None => None,
            },
        ),
{
    let mut s = String::from_str("BEGIN:VEVENT\nSUMMARY:");
    s.append(title);
    s.append("\nDTSTART:");
    let start_vcal = strip_datetime(start);
    s.append(start_vcal.as_str());
    s.append("\nDTEND:");
    let end_vcal = strip_datetime(end);
    s.append(end_vcal.as_str());
    s.append("\n");
    if let Some(loc) = location {
        s.append("LOCATION:");
        s.append(loc);
        s.append("\n");
    }
    if let Some(desc) = description {
        s.append("DESCRIPTION:");
        s.append(desc);
        s.append("\n");
    }
    s.append("END:VEVENT");
    proof {
        assert(s@ =~= spec_event_string(
            title@,
            start@,
            end@,
            match location {
                Some(l) => Some(l@),
                None => None,
            },
            match description {
                Some(d) => Some(d@),
                None => None,
            },
        ));
    }
    s
}

/// The query string of a Bitcoin payment URI: the parameters present among
/// amount, label and message, in that order, separated by `&` and preceded by
/// `?`; empty when none is present.
pub open spec fn spec_bitcoin_query(
    amount: Option<Seq<char>>,
    label: Option<Seq<char>>,
    message: Option<Seq<char>>,
) -> Seq<char> {
    if amount is None && label is None && message is None {
        Seq::empty()
    } else {
        "?"@ + (match amount {
            Some(a) => "amount="@ + a,
            None => Seq::empty(),
        }) + (match label {
            Some(l) => (if amount is Some {
                "&"@
            } else {
                Seq::empty()
            }) + "label="@ + spec_urlencode(l),
            None => Seq::empty(),
        }) + (match message {
            Some(m) => (if amount is Some || label is Some {
                "&"@
            } else {
                Seq::empty()
            }) + "message="@ + spec_urlencode(m),
            None => Seq::empty(),
        })
    }
}

/// A BIP21 Bitcoin payment URI over already-formatted amount text.
pub open spec fn spec_bitcoin_string(
    address: Seq<char>,
    amount: Option<Seq<char>>,
    label: Option<Seq<char>>,
    message: Option<Seq<char>>,
) -> Seq<char> {
    "bitcoin:"@ + address + spec_bitcoin_query(amount, label, message)
}

/// Builds a BIP21 payment URI. The amount, when present, is decimal text
/// already formatted by the caller.
pub fn generate_bitcoin_string(
    address: &str,
    amount: Option<&str>,
    label: Option<&str>,
    message: Option<&str>,
) -> (r: String)
    ensures
        r@ == spec_bitcoin_string(
            address@,
            match amount {
                Some(a) => Some(a@),
                None => None,
            },
            match label {
                Some(l) => Some(l@),
                None => None,
            },
            match message {
                Some(m) => Some(m@),
                None => None,
            },
        ),
{
    let mut s = String::from_str("bitcoin:");
    s.append(address);
    let any = amount.is_some() || label.is_some() || message.is_some();
    if any {
        s.append("?");
        if let Some(a) = amount {
            s.append("amount=");
            s.append(a);
        }
        if let Some(l) = label {
            if amount.is_some() {
                s.append("&");
            }
            s.append("label=");
            let enc = urlencoding_simple(l);
            s.append(enc.as_str());
        }
        if let Some(m) = message {
            if amount.is_some() || label.is_some() {
                s.append("&");
            }
            s.append("message=");
            let enc = urlencoding_simple(m);
            s.append(enc.as_str());
        }
    }
    proof {
        assert(s@ =~= spec_bitcoin_string(
            address@,
            match amount {
                Some(a) => Some(a@),
                None => None,
            },
            match label {
                Some(l) => Some(l@),
                None => None,
            },
            match message {
                Some(m) => Some(m@),
                None => None,
            },
        ));
    }
    s
}

/// An IBAN with every space removed.
pub open spec fn spec_strip_spaces(s: Seq<char>) -> Seq<char>
    decreases s.len(),
{
    if s.len() == 0 {
        Seq::empty()
    } else if s.last() == ' ' {
        spec_strip_spaces(s.drop_last())
    } else {
        spec_strip_spaces(s.drop_last()).push(s.last())
    }
}

/// Removes spaces from an IBAN.
fn strip_spaces(input: &str) -> (r: String)
    ensures
        r@ == spec_strip_spaces(input@),
{
    let n = input.unicode_len();
    let mut out = String::new();
    let mut i: usize = 0;
    while i < n
        invariant
            n == input@.len(),
            i <= n,
            out@ == spec_strip_spaces(input@.take(i as int)),
        decreases n - i,
    {
        let c = input.get_char(i);
        if !(c == ' ') {
            out.push(c);
        }
        proof {
            assert(input@.take(i + 1).drop_last() =~= input@.take(i as int));
            assert(out@ =~= spec_strip_spaces(input@.take(i + 1)));
        }
        i = i + 1;
    }
    proof {
        assert(input@.take(n as int) =~= input@);
    }
    out
}

/// An EPC (SEPA credit transfer) payload: the fixed header lines, the
/// beneficiary, the IBAN without spaces, the amount in euros, and the
/// optional reference, each on its own line.
pub open spec fn spec_sepa_string(
    name: Seq<char>,
    iban: Seq<char>,
    amount: Seq<char>,
    reference: Option<Seq<char>>,
) -> Seq<char> {
    "BCD\n002\n1\nSCT\n\n"@ + name + "\n"@ + spec_strip_spaces(iban) + "\nEUR"@ + amount + "\n\n"@
        + (match reference {
        Some(re) => re,
        None => Seq::empty(),
    }) + "\n\n\n"@
}

/// Builds an EPC QR payload. The amount is decimal text with two fraction
/// digits, already formatted by the caller.
pub fn generate_sepa_string(name: &str, iban: &str, amount: &str, reference: Option<&str>) -> (r:
    String)
    ensures
        r@ == spec_sepa_string(
            name@,
            iban@,
            amount@,
            match reference {
                Some(re) => Some(re@),
                None => None,
            },
        ),
{
    let mut s = String::from_str("BCD\n002\n1\nSCT\n\n");
    s.append(name);
    s.append("\n");
    let iban_stripped = strip_spaces(iban);
    s.append(iban_stripped.as_str());
    s.append("\nEUR");
    s.append(amount);
    s.append("\n\n");
    if let Some(re) = reference {
        s.append(re);
    }
    s.append("\n\n\n");
    proof {
        assert(s@ =~= spec_sepa_string(
            name@,
            iban@,
            amount@,
            match reference {
                Some(re) => Some(re@),
                None => None,
            },
        ));
    }
    s
}

} // verus!
