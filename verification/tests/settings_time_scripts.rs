use dsh_desktop::scripts::{click_forwarder_js, inject_js, theme_bridge_js};
use dsh_desktop::settings::{
    control_dir, download_dir_from, download_dir_or, dsh_home, logs_dir, profiles_dir, settings_dir, settings_dir_here, settings_file, versions_dir,
    Settings,
};
use dsh_desktop::util::{civil_from_days, format_utc, log_line_at, parse_uint, parse_url_line, Logger};

#[test]
fn first_start_settings() {
    let s = Settings::default();
    assert_eq!(s.port, 3080);
    assert_eq!(s.profile, "web");
    assert_eq!(s.restart_countdown_sec, 6);
    assert!(!s.auto_restart_after_plugin_change);
    assert!(s.show_downloads_on_start);
    assert_eq!(s.titlebar_tint, 18);
    assert_eq!(s.popup_tint, 55);
    assert_eq!(s.window_material, "acrylic");
    assert!(s.node_bin.is_none() && s.dsh_bin.is_none() && s.dsh_versions.is_empty());
}

#[test]
fn where_files_are_kept() {
    let dir = settings_dir(Some("C:\\Users\\me\\AppData\\Roaming".to_string()), None);
    assert_eq!(dir, "C:\\Users\\me\\AppData\\Roaming\\DSH Desktop");
    assert_eq!(settings_dir(None, Some("/home/me/.config".to_string())), "/home/me/.config\\DSH Desktop");
    assert_eq!(settings_dir(None, None), ".\\DSH Desktop");
    assert_eq!(settings_dir_here(Some("A".to_string())), "A\\DSH Desktop");
    assert_eq!(settings_file(&dir), "C:\\Users\\me\\AppData\\Roaming\\DSH Desktop\\settings.json");
    assert_eq!(logs_dir(&dir), "C:\\Users\\me\\AppData\\Roaming\\DSH Desktop\\logs");
    assert_eq!(versions_dir(&dir), "C:\\Users\\me\\AppData\\Roaming\\DSH Desktop\\versions");
    assert_eq!(control_dir(None, &dir), "C:\\Users\\me\\AppData\\Roaming\\DSH Desktop\\control");
    assert_eq!(control_dir(Some("T:\\ctl".to_string()), &dir), "T:\\ctl");
    assert_eq!(dsh_home(Some("".to_string()), Some("C:\\Users\\me".to_string())), "C:\\Users\\me\\.dsh");
    assert_eq!(dsh_home(Some("D:\\h".to_string()), None), "D:\\h");
    assert_eq!(dsh_home(None, None), ".");
    assert_eq!(profiles_dir("D:\\h"), "D:\\h\\profiles");
}

#[test]
fn utc_formatting() {
    assert_eq!(format_utc(0), "1970-01-01 00:00:00");
    assert_eq!(format_utc(1700000000), "2023-11-14 22:13:20");
    assert_eq!(format_utc(951782400), "2000-02-29 00:00:00");
    assert_eq!(format_utc(-1), "1969-12-31 23:59:59");
    assert_eq!(civil_from_days(0), (1970, 1, 1));
    assert_eq!(civil_from_days(-1), (1969, 12, 31));
    assert_eq!(civil_from_days(11016), (2000, 2, 29));
}

#[test]
fn log_lines() {
    assert_eq!(log_line_at(0, "INFO", "hello"), "[1970-01-01 00:00:00] INFO hello\n");
    let l = Logger::new("C:\\logs\\main.log".to_string());
    let line = l.warn("w");
    assert!(line.starts_with('['));
    assert!(line.ends_with("] WARN w\n"));
    assert!(l.error("e").ends_with("] ERROR e\n"));
    assert!(l.info("i").ends_with("] INFO i\n"));
}

#[test]
fn ready_url_lines() {
    assert_eq!(parse_url_line("dsh web: http://127.0.0.1:3080"), Some("http://127.0.0.1:3080".to_string()));
    assert_eq!(parse_url_line("  [x] dsh web:   https://h:1/a), more"), Some("https://h:1/a".to_string()));
    assert_eq!(parse_url_line("dsh web: listening on http://127.0.0.1:9;"), Some("http://127.0.0.1:9".to_string()));
    assert_eq!(parse_url_line("http://127.0.0.1:3080"), None);
    assert_eq!(parse_url_line("dsh web: starting"), None);
}

#[test]
fn unsigned_numbers() {
    let c = |s: &str| s.chars().collect::<Vec<char>>();
    assert_eq!(parse_uint(&c("255"), 255), Some(255));
    assert_eq!(parse_uint(&c("+7"), 255), Some(7));
    assert_eq!(parse_uint(&c("256"), 255), None);
    assert_eq!(parse_uint(&c("+"), 255), None);
    assert_eq!(parse_uint(&c(""), 255), None);
    assert_eq!(parse_uint(&c("007"), 255), Some(7));
    assert_eq!(parse_uint(&c("18446744073709551615"), u64::MAX), Some(u64::MAX));
}

#[test]
fn injected_scripts() {
    let b = theme_bridge_js("deepseek");
    assert!(b.contains("set-theme?src=deepseek&t="));
    assert!(b.contains("if ('deepseek' !== 'dsh')"));
    assert!(!b.contains("__SRC__"));
    let c = click_forwarder_js();
    assert!(c.contains("/action?name=main-click"));
    let i = inject_js(&[1, 2, 3]);
    assert!(i.contains("src=\"data:image/png;base64,AQID\""));
    assert!(inject_js(&[255]).contains("base64,/w==\""));
    assert!(inject_js(b"Ma").contains("base64,TWE=\""));
    assert!(!i.contains("__DSHD_ICON_URI__"));
    assert!(i.starts_with("\n(function () {"));
}

#[test]
fn default_download_folder_falls_back_to_temp() {
    assert_eq!(download_dir_or(Some("C:\\Users\\me\\Downloads".to_string()), "C:\\Temp".to_string()), "C:\\Users\\me\\Downloads");
    assert_eq!(download_dir_or(None, "C:\\Temp".to_string()), "C:\\Temp");
    let mut st = dsh_desktop::settings::Settings::default();
    assert_eq!(download_dir_from(&st, Some("C:\\D".to_string())), "C:\\D");
    assert_eq!(download_dir_from(&st, None), "");
    st.download_dir = Some("E:\\dl".to_string());
    assert_eq!(download_dir_from(&st, Some("C:\\D".to_string())), "E:\\dl");
}

#[test]
fn a_day_later_is_the_next_calendar_day() {
    assert_eq!(format_utc(1709078400 + 3723), "2024-02-28 01:02:03");
    assert_eq!(format_utc(1709078400 + 3723 + 86400), "2024-02-29 01:02:03");
    assert_eq!(format_utc(1677542400 + 86400), "2023-03-01 00:00:00");
    assert_eq!(format_utc(951696000 + 86400), "2000-02-29 00:00:00");
    assert_eq!(format_utc(-2203977600 + 86400), "1900-03-01 00:00:00");
    assert_eq!(format_utc(253402300799), "9999-12-31 23:59:59");
    // Earlier instants print earlier.
    assert!(format_utc(1709164799) < format_utc(1709164800));
}

#[test]
fn the_log_rotates_past_five_megabytes() {
    let log = Logger::new("C:\\logs\\main.log".to_string());
    assert!(!log.rotate_due(5 * 1024 * 1024));
    assert!(log.rotate_due(5 * 1024 * 1024 + 1));
    assert_eq!(log.rotated_path(), "C:\\logs\\main.log.1");
}
