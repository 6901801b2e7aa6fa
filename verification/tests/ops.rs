use fe2o3_steel::audit::AuditEntry;
use fe2o3_steel::cli::{
    admin_list, app_root_source, cli_entry, cli_scopes, confirm_step, expand_home, expiry_at,
    shell_command, unlocked_has_admin_scope, AdminRow, AppRootSource, PassStep, ShellCommand,
};
use fe2o3_steel::host::{disk_iops, merge_history, resident_scan_due, used_pct, DiskCounts};
use fe2o3_steel::mail::{domain_of, rcpt_domain_acceptable, recipient_domain_is_local, split_recipients};

fn s(v: &[&str]) -> Vec<String> {
    v.iter().map(|x| x.to_string()).collect()
}

#[test]
fn disk_use_is_read_as_df_reads_it() {
    assert_eq!(used_pct(100, 20, 15), 85, "80 of 95 is 84.2, which df rounds up");
    assert_eq!(used_pct(100, 5, 0), 100, "full to an unprivileged writer");
    assert_eq!(used_pct(100, 100, 100), 0);
    assert_eq!(used_pct(0, 0, 0), 0, "an empty filesystem is not a division by zero");
}

#[test]
fn disk_use_never_passes_a_hundred() {
    assert_eq!(used_pct(1 << 40, 0, 0), 100);
    // At the very top of the range the product saturates before the division.
    assert_eq!(used_pct(u64::MAX, 0, 0), 1);
    assert_eq!(used_pct(10, 20, 5), 0);
    assert_eq!(used_pct(1000, 1, 0), 100);
}

fn dev(name: &str, r: u64, w: u64) -> DiskCounts {
    DiskCounts { name: name.to_string(), reads: r, writes: w }
}

#[test]
fn disk_operations_are_a_rate_over_matching_devices() {
    let prev = vec![dev("sda", 100, 50), dev("sdb", 10, 10)];
    let last = vec![dev("sda", 160, 90), dev("sdc", 1000, 1000), dev("sdb", 5, 20)];
    assert_eq!(disk_iops(20, &last, 10, &prev), 11);
    assert_eq!(disk_iops(10, &last, 10, &prev), 0);
    assert_eq!(disk_iops(5, &last, 10, &prev), 0);
}

#[test]
fn residents_are_scanned_every_thirty_seconds() {
    assert!(resident_scan_due(0, 5));
    assert!(!resident_scan_due(100, 129));
    assert!(resident_scan_due(100, 130));
    assert!(!resident_scan_due(100, 50));
}

#[test]
fn persisted_history_is_merged_before_the_live_ring() {
    let persisted = vec![(1u64, 'a'), (2, 'b'), (5, 'c')];
    let live = vec![(3u64, 'x'), (4, 'y')];
    assert_eq!(merge_history(&persisted, &live, 10), vec![(1, 'a'), (2, 'b'), (3, 'x'), (4, 'y')]);
    assert_eq!(merge_history(&persisted, &live, 3), vec![(2, 'b'), (3, 'x'), (4, 'y')]);
    assert_eq!(merge_history(&persisted, &vec![], 10), persisted);
    assert_eq!(merge_history(&vec![], &live, 10), live);
    // Either history alone is capped too.
    assert_eq!(merge_history(&persisted, &vec![], 1), vec![*persisted.last().unwrap()]);
    assert_eq!(merge_history(&vec![], &live, 1), vec![*live.last().unwrap()]);
}

#[test]
fn recipients_split_by_domain() {
    let domains = s(&["example.com", "Mail.Example.org"]);
    let (local, remote) = split_recipients(&s(&["a@example.com", "b@EXAMPLE.COM", "c@other.net", "nodomain", "d@mail.example.org"]), &domains);
    assert_eq!(local, s(&["a@example.com", "b@EXAMPLE.COM", "d@mail.example.org"]));
    assert_eq!(remote, s(&["c@other.net", "nodomain"]));
    assert_eq!(domain_of("x@y@Z.com").as_deref(), Some("z.com"));
    assert_eq!(domain_of("plain"), None);
    assert_eq!(recipient_domain_is_local(&domains, "q@other.net"), Some(false));
    assert_eq!(rcpt_domain_acceptable(&domains, "nodomain"), Some(false));
    assert_eq!(rcpt_domain_acceptable(&domains, "a@example.com"), Some(true));
    assert_eq!(rcpt_domain_acceptable(&domains, "a@elsewhere.com"), None);
}

#[test]
fn shell_words_name_commands() {
    assert_eq!(shell_command("admin"), ShellCommand::Admin);
    assert_eq!(shell_command("server"), ShellCommand::Server);
    assert_eq!(shell_command("Admin"), ShellCommand::Extension);
    assert_eq!(shell_command(""), ShellCommand::Extension);
}

#[test]
fn cli_admin_arguments_are_read() {
    assert_eq!(cli_scopes("admin, dashboard.view"), s(&["admin", "dashboard.view"]));
    assert_eq!(cli_scopes(""), s(&[""]));
    assert_eq!(cli_scopes("a,,b"), s(&["a", "", "b"]));
    assert_eq!(expiry_at(0, 100), 0);
    assert_eq!(expiry_at(5, 100), 105);
    assert_eq!(expiry_at(5, u64::MAX), u64::MAX);
    assert!(unlocked_has_admin_scope(&s(&["*"])));
    assert!(unlocked_has_admin_scope(&s(&["dashboard.view", "admin"])));
    assert!(!unlocked_has_admin_scope(&s(&["dashboard.admin"])));
}

#[test]
fn the_admin_list_is_a_table() {
    let rows = vec![
        AdminRow { name: "alice".to_string(), expires_at: 0, scopes: s(&["*"]) },
        AdminRow { name: "bob".to_string(), expires_at: 1700000000, scopes: s(&["admin", "dashboard.view"]) },
    ];
    let out = admin_list(&rows);
    let lines: Vec<&str> = out.split('\n').collect();
    assert_eq!(lines.len(), 3);
    assert_eq!(lines[0], format!("{:<24} {:<12} {}", "name", "expires_at", "scopes"));
    assert_eq!(lines[1], format!("{:<24} {:<12} {}", "alice", "never", "*"));
    assert_eq!(lines[2], format!("{:<24} {:<12} {}", "bob", "1700000000", "admin,dashboard.view"));
    assert_eq!(admin_list(&vec![]), format!("{:<24} {:<12} {}", "name", "expires_at", "scopes"));
}

#[test]
fn a_new_passphrase_is_confirmed_within_the_attempts() {
    assert_eq!(confirm_step(true, 7, 3), PassStep::Accept);
    assert_eq!(confirm_step(false, 0, 3), PassStep::Retry(1));
    assert_eq!(confirm_step(false, 3, 3), PassStep::GiveUp);
}

#[test]
fn the_app_root_setting_is_read() {
    assert!(matches!(app_root_source("here"), AppRootSource::CurrentDir));
    assert!(matches!(app_root_source("env"), AppRootSource::Env));
    match app_root_source("~/steel") {
        AppRootSource::Home(rest) => assert_eq!(expand_home("/home/op", &rest), "/home/op/steel"),
        _ => panic!("home"),
    }
    match app_root_source("./data") {
        AppRootSource::UnderCurrent(rest) => assert_eq!(rest, "data"),
        _ => panic!("relative"),
    }
    match app_root_source("/srv/steel") {
        AppRootSource::Literal(p) => assert_eq!(p, "/srv/steel"),
        _ => panic!("literal"),
    }
}

#[test]
fn audit_lines_are_one_entry_each() {
    let e = AuditEntry::new("alice", "admin.add", "ok", "target=bob scopes= expires_at=0");
    assert_eq!(e.line(1700000000), "1700000000 alice admin.add ok target=bob scopes= expires_at=0\n");
    let c = cli_entry("alice", "admin.remove", false, "target=bob reason=caller_scope");
    assert_eq!(c.line(0), "0 alice admin.remove err target=bob reason=caller_scope\n");
}
