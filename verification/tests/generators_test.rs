use cqr::cli::WifiSecurity;
use cqr::generators::{
    generate_bitcoin_string, generate_email_string, generate_event_string, generate_geo_string,
    generate_phone_string, generate_sepa_string, generate_sms_string, generate_vcard_string,
    generate_wifi_string,
};

#[test]
fn test_wifi_generator() {
    let ssid = "MyNetwork";
    let password = "secret_password";

    // WPA
    let wpa = generate_wifi_string(ssid, password, &WifiSecurity::Wpa, false);
    assert_eq!(wpa, "WIFI:T:WPA;S:MyNetwork;P:secret_password;H:false;;");

    // WEP
    let wep = generate_wifi_string(ssid, password, &WifiSecurity::Wep, true);
    assert_eq!(wep, "WIFI:T:WEP;S:MyNetwork;P:secret_password;H:true;;");

    // Open network
    let nopass = generate_wifi_string(ssid, "", &WifiSecurity::Nopass, false);
    assert_eq!(nopass, "WIFI:T:nopass;S:MyNetwork;P:;H:false;;");
}

#[test]
fn test_wifi_generator_escapes() {
    let wifi = generate_wifi_string("My;Net\\work", "p:a,s\"s", &WifiSecurity::Wpa, false);
    assert_eq!(
        wifi,
        "WIFI:T:WPA;S:My\\;Net\\\\work;P:p\\:a\\,s\\\"s;H:false;;"
    );
}

#[test]
fn test_email_generator() {
    let email = generate_email_string("user@example.com", "Hello World", "This is body");
    assert_eq!(
        email,
        "mailto:user@example.com?subject=Hello+World&body=This+is+body"
    );
}

#[test]
fn test_email_generator_plain() {
    let email = generate_email_string("user@example.com", "", "");
    assert_eq!(email, "mailto:user@example.com");
}

#[test]
fn test_sms_generator() {
    let sms = generate_sms_string("+1234567890", "Hello there");
    assert_eq!(sms, "smsto:+1234567890:Hello there");
}

#[test]
fn test_sms_generator_empty_message() {
    let sms = generate_sms_string("+1234567890", "");
    assert_eq!(sms, "sms:+1234567890");
}

#[test]
fn test_geo_generator() {
    let lat = format!("{}", 52.5200f64);
    let lon = format!("{}", 13.4050f64);
    let geo = generate_geo_string(&lat, &lon);
    assert!(geo.starts_with("geo:52.52"));
    assert!(geo.contains(",13.405"));
}

#[test]
fn test_phone_generator() {
    assert_eq!(generate_phone_string("+491234"), "tel:+491234");
}

#[test]
fn test_bitcoin_generator() {
    let amount = format!("{}", 0.5f64);
    let btc = generate_bitcoin_string(
        "1A1zP1eP5QGefi2DMPTfTL5SLmv7DivfNa",
        Some(&amount),
        Some("Genesis"),
        None,
    );
    assert_eq!(
        btc,
        "bitcoin:1A1zP1eP5QGefi2DMPTfTL5SLmv7DivfNa?amount=0.5&label=Genesis"
    );
}

#[test]
fn test_bitcoin_generator_message_only() {
    let btc = generate_bitcoin_string("addr1", None, None, Some("thank you"));
    assert_eq!(btc, "bitcoin:addr1?message=thank%20you");
}

#[test]
fn test_vcard_generator() {
    let vcard = generate_vcard_string("John", "Doe", "+123456789", "john@example.com", "Acme Corp");
    assert!(vcard.contains("FN:John Doe"));
    assert!(vcard.contains("TEL:+123456789"));
    assert!(vcard.to_lowercase().contains("begin:vcard"));
}

#[test]
fn test_vcard_generator_exact() {
    let vcard = generate_vcard_string("Ada", "Lovelace", "", "ada@example.com", "");
    assert_eq!(
        vcard,
        "BEGIN:VCARD\nVERSION:3.0\nN:Lovelace;Ada;;;\nFN:Ada Lovelace\nEMAIL:ada@example.com\nEND:VCARD"
    );
}

#[test]
fn test_event_generator() {
    let event = generate_event_string(
        "Team meeting",
        "2024-01-15T10:00:00",
        "2024-01-15T11:00:00",
        Some("Room 5"),
        None,
    );
    assert_eq!(
        event,
        "BEGIN:VEVENT\nSUMMARY:Team meeting\nDTSTART:20240115T100000\nDTEND:20240115T110000\nLOCATION:Room 5\nEND:VEVENT"
    );
}

#[test]
fn test_sepa_generator() {
    let amount = format!("{:.2}", 12.5f64);
    let sepa = generate_sepa_string("Jane Doe", "DE89 3704 0044 0532 0130 00", &amount, Some("Invoice 7"));
    assert_eq!(
        sepa,
        "BCD\n002\n1\nSCT\n\nJane Doe\nDE89370400440532013000\nEUR12.50\n\nInvoice 7\n\n\n"
    );
}
