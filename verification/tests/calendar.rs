use fe2o3_steel::mail::newsletter_from;
use fe2o3_steel::calendar::{civil_from_days, days_in_month, leap_year, unix_to_civil};
use fe2o3_steel::mail::{build_received_header, format_now_rfc5322, format_rfc5322, received_header_at};

#[test]
fn the_epoch_is_the_first_of_january_1970() {
    assert_eq!(unix_to_civil(0), (1970, 1, 1, 0, 0, 0));
    assert_eq!(civil_from_days(0), (1970, 1, 1));
}

#[test]
fn dates_across_leap_days_and_centuries() {
    assert_eq!(civil_from_days(59), (1970, 3, 1));
    // 2000 is a leap year: the 29th of February exists.
    assert_eq!(civil_from_days(11_016), (2000, 2, 29));
    assert_eq!(civil_from_days(11_017), (2000, 3, 1));
    // 2100 is not.
    assert_eq!(civil_from_days(47_540), (2100, 2, 28));
    assert_eq!(civil_from_days(47_541), (2100, 3, 1));
    assert_eq!(civil_from_days(146_097), (2370, 1, 1));
}

#[test]
fn seconds_split_into_a_date_and_a_time() {
    assert_eq!(unix_to_civil(1_700_000_000), (2023, 11, 14, 22, 13, 20));
    assert_eq!(unix_to_civil(951_868_799), (2000, 2, 29, 23, 59, 59));
}

#[test]
fn the_far_future_wraps_the_year_as_a_cast_does() {
    let (y, m, d, h, mi, s) = unix_to_civil(u64::MAX);
    assert!(y != 0);
    assert!((1..=12).contains(&m));
    assert!((1..=31).contains(&d));
    assert_eq!((h, mi, s), (7, 0, 15));
}

#[test]
fn leap_years_and_month_lengths() {
    assert!(leap_year(2024));
    assert!(!leap_year(1900));
    assert!(leap_year(2000));
    assert_eq!(days_in_month(2024, 2), 29);
    assert_eq!(days_in_month(2023, 2), 28);
    assert_eq!(days_in_month(2023, 4), 30);
    assert_eq!(days_in_month(2023, 12), 31);
}

#[test]
fn the_mail_date_is_rfc5322() {
    assert_eq!(format_rfc5322(0), "Thu, 01 Jan 1970 00:00:00 +0000");
    assert_eq!(format_rfc5322(1_700_000_000), "Tue, 14 Nov 2023 22:13:20 +0000");
    assert_eq!(format_rfc5322(951_868_799), "Tue, 29 Feb 2000 23:59:59 +0000");
}

#[test]
fn the_received_field_names_the_peer_and_the_time() {
    assert_eq!(
        received_header_at("mx.example.org", "192.0.2.7", 0),
        "Received: from mx.example.org ([192.0.2.7])\r\n\tby Hematite Steel; Thu, 01 Jan 1970 00:00:00 +0000\r\n"
    );
    let now = build_received_header("a", "b");
    assert!(now.starts_with("Received: from a ([b])\r\n\tby Hematite Steel; "));
    assert!(now.ends_with(" +0000\r\n"));
    assert!(format_now_rfc5322().ends_with(" +0000"));
}

#[test]
fn the_newsletter_sends_from_the_signing_domain() {
    assert_eq!(newsletter_from("mx.example.org", "example.org", true), Some("news@example.org".to_string()));
    assert_eq!(newsletter_from("mx.example.org", "", true), Some("news@mx.example.org".to_string()));
    assert_eq!(newsletter_from("mx.example.org", "example.org", false), None);
    assert_eq!(newsletter_from("", "example.org", true), None);
}
