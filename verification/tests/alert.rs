use fe2o3_steel::alert::alert_host;
use fe2o3_steel::alert::{
    submission_security, tally_texts, AlertConfig, AlertEvent, Alerter, Channel, ChannelBook,
    FailureWindow, Raise, Route, Severity, SmsAlertConfig, SubmissionSecurity,
};

const PEER: &str = "203.0.113.7:44321";
const NOW: u64 = 1_000_000;

fn mkalerter(threshold: u32, cooldown_secs: u64) -> Alerter {
    let cfg = AlertConfig {
        enabled: true,
        from: "steel@example.com".to_string(),
        submission: None,
        to: vec!["operator@example.com".to_string()],
        ehlo_hostname: "example.com".to_string(),
        failed_threshold: threshold,
        failed_window_secs: 900,
        failed_cooldown_secs: cooldown_secs,
        sms: None,
    };
    match Alerter::new(cfg, "example.com".to_string(), NOW) {
        Ok(Some(a)) => a,
        _ => panic!("alerter"),
    }
}

fn texting(to: &str) -> SmsAlertConfig {
    SmsAlertConfig {
        enabled: true,
        to: vec![to.to_string()],
        from: String::new(),
        user_env: String::new(),
        secret_env: String::new(),
    }
}

fn alerter_with(mail: bool, sms: bool) -> Alerter {
    let mut cfg = AlertConfig::disabled();
    cfg.enabled = true;
    if mail {
        cfg.from = "steel@example.com".to_string();
        cfg.to = vec!["operator@example.com".to_string()];
    }
    if sms {
        cfg.sms = Some(texting("+61400000000"));
    }
    match Alerter::new(cfg, "karri".to_string(), NOW) {
        Ok(Some(a)) => a,
        other => panic!("alerter: {:?}", other.is_err()),
    }
}

fn jarrah_down() -> AlertEvent {
    AlertEvent::PeerDown {
        peer: "jarrah".to_string(),
        url: "https://daimond.oxedyne.com/api/health".to_string(),
        failures: 3,
        down_secs: 180,
        noticed_by: "karri".to_string(),
    }
}

fn failing(channel: Channel) -> AlertEvent {
    AlertEvent::ChannelFailing {
        channel,
        reason: "refused".to_string(),
        missed: "[steel:karri] jarrah IS DOWN (3m)".to_string(),
        failures: 1,
        since_secs: 0,
    }
}

#[test]
fn test_failures_below_the_threshold_are_silent_00() {
    let mut a = mkalerter(5, 3600);
    for _ in 0..4 {
        assert!(a.note_failed_unseal(PEER, NOW).is_none());
    }
    match a.note_failed_unseal(PEER, NOW) {
        Some(AlertEvent::FailedUnseals { count, .. }) => assert_eq!(count, 5),
        other => panic!("expected a coalesced alert, got {:?}", other),
    }
}

#[test]
fn test_a_burst_coalesces_into_one_alert_00() {
    let mut a = mkalerter(5, 3600);
    let mut raised = 0;
    for _ in 0..100 {
        if a.note_failed_unseal(PEER, NOW).is_some() {
            raised += 1;
        }
    }
    assert_eq!(raised, 1, "100 guesses must yield one alert, not {}", raised);
}

#[test]
fn test_a_lapsed_cooldown_alerts_again_00() {
    let mut a = mkalerter(2, 0);
    let mut raised = 0;
    for _ in 0..10 {
        if a.note_failed_unseal(PEER, NOW).is_some() {
            raised += 1;
        }
    }
    assert_eq!(raised, 5, "ten failures at a threshold of two, no cooldown");
}

#[test]
fn test_alerting_without_a_recipient_is_refused_00() {
    let mut cfg = AlertConfig::disabled();
    cfg.enabled = true;
    cfg.from = "steel@example.com".to_string();
    cfg.to = Vec::new();
    assert!(Alerter::new(cfg, "example.com".to_string(), NOW).is_err());
}

#[test]
fn test_a_channel_run_is_told_once_reminded_daily_and_closed_00() {
    let mut book = ChannelBook::new();
    let t0: u64 = 5_000;
    let at = |s: u64| t0 + s;
    let why = "clicksend refused the message: INSUFFICIENT_CREDIT";

    assert!(book.note(Channel::Sms, None, "x", t0).is_none(), "a working channel owes nothing");
    match book.note(Channel::Sms, Some(why), "[steel:karri] jarrah IS DOWN (3m)", at(60)) {
        Some(AlertEvent::ChannelFailing {
            channel: Channel::Sms,
            reason,
            missed,
            failures: 1,
            since_secs: 0,
        }) => {
            assert_eq!(reason, why);
            assert_eq!(missed, "[steel:karri] jarrah IS DOWN (3m)");
        },
        other => panic!("the first failure must be reported, got {:?}", other),
    }
    for i in 2..10u64 {
        assert!(
            book.note(Channel::Sms, Some(why), "x", at(60 + i * 900)).is_none(),
            "failure {} of a run already told was reported again",
            i
        );
    }
    assert!(book.note(Channel::Mail, None, "x", at(9_000)).is_none(), "mail working says nothing about the texts");
    match book.note(Channel::Sms, Some(why), "y", at(60 + 86_400)) {
        Some(AlertEvent::ChannelFailing { failures: 10, since_secs: 86_400, missed, .. }) => {
            assert_eq!(missed, "y", "a reminder names the latest alert lost")
        },
        other => panic!("a day on, a failure must remind, got {:?}", other),
    }
    assert!(book.note(Channel::Sms, Some(why), "z", at(60 + 86_401)).is_none());
    match book.note(Channel::Sms, None, "w", at(60 + 90_000)) {
        Some(AlertEvent::ChannelRestored { channel: Channel::Sms, lost: 11, were_secs: 90_000 }) => (),
        other => panic!("the first success after a run must close it, got {:?}", other),
    }
    assert!(book.note(Channel::Sms, None, "v", at(60 + 90_060)).is_none(), "the run is over");
}

#[test]
fn test_each_event_goes_by_the_channels_it_should_00() {
    let both = alerter_with(true, true);
    let texts_only = alerter_with(false, true);
    let distress = AlertEvent::PeerDistress {
        peer: "jarrah".to_string(),
        url: "https://oxedyne.com/_steel/health".to_string(),
        classes: "swap_pct 31".to_string(),
        since_secs: 180,
        noticed_by: "conifer".to_string(),
    };
    let restored = AlertEvent::ChannelRestored { channel: Channel::Sms, lost: 3, were_secs: 600 };

    assert_eq!(both.route(&jarrah_down()), Route { mail: true, sms: true });
    assert_eq!(both.route(&distress), Route { mail: true, sms: false });
    assert_eq!(both.route(&failing(Channel::Sms)), Route { mail: true, sms: false }, "failing texts are told by mail");
    assert_eq!(both.route(&failing(Channel::Mail)), Route { mail: false, sms: true }, "failing mail is told by text");
    assert_eq!(both.route(&restored), Route { mail: true, sms: false });

    assert_eq!(texts_only.route(&jarrah_down()), Route { mail: false, sms: true });
    assert!(texts_only.route(&distress).is_empty());
    assert!(texts_only.route(&AlertEvent::SealedStart { db_count: 1 }).is_empty());
    assert!(texts_only.route(&failing(Channel::Sms)).is_empty());
}

#[test]
fn test_an_event_with_no_channel_is_not_sent_anywhere_00() {
    let texts_only = alerter_with(false, true);
    match texts_only.raise(&AlertEvent::SealedStart { db_count: 2 }) {
        Raise::Undelivered(line) => assert!(line.starts_with("ALERT NOT DELIVERED")),
        Raise::Deliver(r) => panic!("delivered by {:?}", r),
    }
}

#[test]
fn test_the_email_notifies_but_never_authorises_00() {
    let ev = AlertEvent::SealedStart { db_count: 2 };
    let body = ev.body("example.com");
    assert!(body.contains("https://example.com/admin"), "the mail should point the operator at the dashboard");
    for bait in ["token=", "approve", "confirm=", "unseal?key", "click here"] {
        assert!(!body.to_lowercase().contains(bait), "the alert must not carry an authorising link ({})", bait);
    }
}

#[test]
fn test_a_refused_text_fails_the_alert_and_is_reported_by_mail_00() {
    let subject = "[steel:karri] jarrah IS DOWN (3m)";
    let words = match tally_texts(&vec![(
        "+61400000000".to_string(),
        Some("clicksend status INSUFFICIENT_CREDIT".to_string()),
    )]) {
        Ok(()) => panic!("a refused text was counted as sent"),
        Err(e) => e,
    };
    assert!(words.contains("1 of 1") && words.contains("+61400000000") && words.contains("INSUFFICIENT_CREDIT"), "{}", words);

    let outcomes = vec![
        ("+61400000001".to_string(), None),
        ("+61400000000".to_string(), Some("INSUFFICIENT_CREDIT".to_string())),
    ];
    match tally_texts(&outcomes) {
        Ok(()) => panic!("a refusal among several numbers was counted as sent"),
        Err(e) => assert!(e.contains("1 of 2"), "{}", e),
    }
    assert!(tally_texts(&vec![("+61400000001".to_string(), None)]).is_ok());
    assert!(tally_texts(&Vec::new()).is_err());

    let both = alerter_with(true, true);
    let mut book = ChannelBook::new();
    let report = match book.note(Channel::Sms, Some(&words), subject, 10) {
        Some(r) => r,
        None => panic!("the first refusal of a run owes a report"),
    };
    assert_eq!(both.route(&report), Route { mail: true, sms: false });
    let body = report.body("karri");
    assert!(body.contains("INSUFFICIENT_CREDIT") && body.contains("jarrah IS DOWN"), "{}", body);
}

#[test]
fn a_failed_text_is_reported_by_mail_with_the_alert_it_lost() {
    let a = mkalerter(5, 600);
    let down = AlertEvent::PeerDown {
        peer: "birch".to_string(),
        url: "https://oregami.oxegen.io/health".to_string(),
        failures: 3,
        down_secs: 180,
        noticed_by: "conifer".to_string(),
    };
    let lost = down.subject("example.com");
    assert_eq!(lost, "[steel:example.com] birch IS DOWN (3m)");
    let mut book = ChannelBook::new();
    let report = match book.note(Channel::Sms, Some("no outbound TLS client"), &lost, 10) {
        Some(r) => r,
        None => panic!("the first failed text owes a report"),
    };
    assert_eq!(a.route(&report).mail, true);
    assert_eq!(report.subject("example.com"), "[steel:example.com] text alerts FAILING (1 in a row)");
    let body = report.body("example.com");
    assert!(body.contains("no outbound TLS client"), "the report must say why:\n{}", body);
    assert!(
        body.contains("Last lost: [steel:example.com] birch IS DOWN (3m)"),
        "the report must name the alert that was lost:\n{}",
        body
    );
}

#[test]
fn subjects_name_the_host_and_the_event() {
    assert_eq!(jarrah_down().subject("karri"), "[steel:karri] jarrah IS DOWN (3m)");
    assert_eq!(jarrah_down().severity(), Severity::Critical);
}

#[test]
fn a_disabled_alerter_is_none() {
    assert!(matches!(Alerter::new(AlertConfig::disabled(), "h".to_string(), 0), Ok(None)));
}

#[test]
fn submission_security_reads_its_modes() {
    assert_eq!(submission_security("implicit"), SubmissionSecurity::ImplicitTls);
    assert_eq!(submission_security("plain"), SubmissionSecurity::Plain);
    assert_eq!(submission_security("starttls"), SubmissionSecurity::StartTls);
    assert_eq!(submission_security(""), SubmissionSecurity::StartTls);
}

#[test]
fn a_stale_window_starts_afresh() {
    let mut w = FailureWindow::new(0);
    assert!(w.record(2, 900, 0, PEER, 0).is_none());
    assert!(w.record(2, 900, 0, PEER, 2_000).is_none(), "the first attempt was too long ago to count");
    assert!(w.record(2, 900, 0, PEER, 2_001).is_some());
}

#[test]
fn the_unseal_alert_names_the_admin() {
    let ev = AlertEvent::Unsealed { admin: "alice".to_string(), peer: PEER.to_string() };
    let s = ev.subject("karri");
    assert!(s.starts_with("[steel:karri] "), "{}", s);
}

#[test]
fn alerts_name_the_machine_before_any_website() {
    assert_eq!(alert_host("jarrah\n", Some("need2know.ai")), "jarrah");
    assert_eq!(alert_host("  \n", Some("need2know.ai")), "need2know.ai");
    assert_eq!(alert_host("", None), "");
}
