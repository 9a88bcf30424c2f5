use restaapp_printer::config::{
    checksum_line, config_path, diagnostic_summary_at, diagnostics_file_name,
    diagnostics_file_name_at, environment_note, join_path, log_tail, normalize_loaded,
    logs_to_export, prepare_for_storage, redact_key, replace_text,
};
use restaapp_printer::models::{about_info, AppConfig, APP_VERSION, DOMAIN_URL};

#[test]
fn paths_join_with_one_separator() {
    assert_eq!(join_path("C:\\cfg", "config.json", '\\'), "C:\\cfg\\config.json");
    assert_eq!(join_path("C:\\cfg\\", "config.json", '\\'), "C:\\cfg\\config.json");
    assert_eq!(join_path("/home/u/.config/x", "logs", '/'), "/home/u/.config/x/logs");
    assert_eq!(join_path("", "logs", '/'), "logs");
    assert_eq!(
        config_path(Ok("/etc/app".into()), '/').unwrap(),
        "/etc/app/config.json"
    );
    assert_eq!(config_path(Err("no dir".into()), '/').unwrap_err(), "no dir");
}

#[test]
fn default_config_is_fresh() {
    let cfg = AppConfig::default();
    assert_eq!(cfg.schema_version, 1);
    assert_eq!(cfg.domain_url, DOMAIN_URL);
    assert_eq!(cfg.branch_key, "");
    assert!(cfg.domain_locked);
    assert_eq!(cfg.locale, "es");
    assert!(cfg.autostart);
    assert!(!cfg.open_drawer_after_print);
    assert_eq!(cfg.poll_ms, 4_000);
    assert_eq!(cfg.idle_poll_ms, 10_000);
    assert!(cfg.printer_mappings.is_empty());
    assert_eq!(cfg.copies, 1);
    assert_eq!(cfg.app_version, APP_VERSION);
    assert_eq!(cfg.device_id.len(), 36);
    assert_ne!(cfg.device_id, AppConfig::default().device_id);
}

#[test]
fn device_ids_are_hyphenated_uuids() {
    let id = AppConfig::default().device_id;
    assert_eq!(id.len(), 36);
    for (i, c) in id.chars().enumerate() {
        if [8, 13, 18, 23].contains(&i) {
            assert_eq!(c, '-');
        } else {
            assert!(c.is_ascii_hexdigit() && !c.is_ascii_uppercase());
        }
    }
    assert_eq!(id.as_bytes()[14], b'4');
    assert!(b"89ab".contains(&id.as_bytes()[19]));
}

#[test]
fn storage_fixes_domain_version_and_device() {
    let mut cfg = AppConfig::default();
    cfg.domain_url = "https://other.example".into();
    cfg.domain_locked = false;
    cfg.app_version = "3.0.0".into();
    cfg.device_id = "   ".into();
    cfg.branch_key = "secret".into();
    cfg.copies = 2;
    let stored = prepare_for_storage(cfg);
    assert_eq!(stored.domain_url, DOMAIN_URL);
    assert!(stored.domain_locked);
    assert_eq!(stored.app_version, APP_VERSION);
    assert_eq!(stored.device_id.len(), 36);
    assert_eq!(stored.branch_key, "secret");
    assert_eq!(stored.copies, 2);
}

#[test]
fn loading_repairs_and_asks_for_save_on_old_version() {
    let mut cfg = AppConfig::default();
    cfg.domain_url = " ".into();
    cfg.domain_locked = false;
    cfg.app_version = "3.1.0".into();
    cfg.device_id = "dev-1".into();
    let (loaded, save) = normalize_loaded(cfg);
    assert!(save);
    assert_eq!(loaded.domain_url, DOMAIN_URL);
    assert!(!loaded.domain_locked);
    assert_eq!(loaded.app_version, APP_VERSION);
    assert_eq!(loaded.device_id, "dev-1");
}

#[test]
fn unlocked_custom_domain_is_kept() {
    let mut cfg = AppConfig::default();
    cfg.domain_url = "https://tenant.example".into();
    cfg.domain_locked = false;
    let (loaded, save) = normalize_loaded(cfg);
    assert!(!save);
    assert_eq!(loaded.domain_url, "https://tenant.example");
}

#[test]
fn saved_config_loads_back_unchanged() {
    let mut cfg = AppConfig::default();
    cfg.branch_key = "k".into();
    cfg.printer_mappings.insert("14".into(), "EPSON".into());
    cfg.device_id = "".into();
    let stored = prepare_for_storage(cfg);
    let device = stored.device_id.clone();
    let (loaded, save) = normalize_loaded(stored);
    assert!(!save);
    assert_eq!(loaded.device_id, device);
    assert_eq!(loaded.domain_url, DOMAIN_URL);
    assert_eq!(loaded.printer_mappings.get("14").map(|s| s.as_str()), Some("EPSON"));
    assert_eq!(loaded.branch_key, "k");
}

#[test]
fn about_panel() {
    let mut cfg = AppConfig::default();
    cfg.device_id = "dev-9".into();
    let about = about_info(&cfg);
    assert_eq!(about.app_name, "RestaAPP Printer");
    assert_eq!(about.version, "3.1.2");
    assert_eq!(about.company, "GRUPOOHLA SRL");
    assert_eq!(about.device_id, "dev-9");
    assert_eq!(about.domain_url, "https://restapp.allsender.tech");
}

#[test]
fn diagnostics_show_only_masked_key() {
    let mut cfg = AppConfig::default();
    cfg.branch_key = "abcdef123456".into();
    let d = diagnostic_summary_at(&cfg, "now".into());
    assert_eq!(d.branch_key_masked, "abc…456");
    assert_eq!(d.app_version, APP_VERSION);
    assert_eq!(d.exported_at, "now");
    assert_eq!(d.device_id, cfg.device_id);
}

#[test]
fn diagnostics_names() {
    assert_eq!(
        diagnostics_file_name_at("20260907-101500"),
        "restaapp-printer-diag-20260907-101500.zip"
    );
    let name = diagnostics_file_name();
    assert!(name.starts_with("restaapp-printer-diag-") && name.ends_with(".zip"));
    assert_eq!(name.len(), "restaapp-printer-diag-".len() + 15 + 4);
    let stamp: Vec<char> = name["restaapp-printer-diag-".len()..name.len() - 4].chars().collect();
    for (i, c) in stamp.iter().enumerate() {
        if i == 8 {
            assert_eq!(*c, '-');
        } else {
            assert!(c.is_ascii_digit());
        }
    }
}

#[test]
fn log_tails() {
    let short = vec![1u8, 2, 3];
    assert_eq!(log_tail(&short), short);
    let long: Vec<u8> = (0..250_000u32).map(|i| (i % 251) as u8).collect();
    let tail = log_tail(&long);
    assert_eq!(tail.len(), 200_000);
    assert_eq!(tail[..], long[50_000..]);
}

#[test]
fn redaction_replaces_every_occurrence() {
    let text = "key=abcdef123456 again abcdef123456.";
    assert_eq!(
        redact_key(text, "abcdef123456"),
        "key=abc…456 again abc…456."
    );
    assert_eq!(redact_key("nothing here", "abcdef123456"), "nothing here");
    assert_eq!(redact_key("log line", ""), "log line");
    assert_eq!(redact_key("log  line", "  "), "log  line");
    assert_eq!(replace_text("aaaa", "aa", "b"), "bb");
    assert_eq!(replace_text("ab", "", "*"), "*a*b*");
    assert_eq!(replace_text("ab", "", "*"), "ab".replace("", "*"));
}

#[test]
fn checksum_sidecar_line() {
    assert_eq!(
        checksum_line(b"abc", "diag.zip"),
        "ba7816bf8f01cfea414140de5dae2223b00361a396177a9cb410ff61f20015ad  diag.zip\n"
    );
}

#[test]
fn environment_note_text() {
    assert_eq!(environment_note("windows"), "os=windows\narch=x64\napp=3.1.2\n");
}

#[test]
fn newest_three_logs_are_exported() {
    let entries = vec![
        (true, Some(10u128)),
        (false, Some(99)),
        (true, None),
        (true, Some(30)),
        (true, Some(10)),
        (true, Some(20)),
    ];
    assert_eq!(logs_to_export(&entries), vec![3, 5, 0]);
    let few = vec![(true, None), (false, Some(5)), (true, Some(1))];
    assert_eq!(logs_to_export(&few), vec![2, 0]);
    assert!(logs_to_export(&vec![(false, Some(1u128))]).is_empty());
}
