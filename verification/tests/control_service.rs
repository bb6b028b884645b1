use dsh_desktop::controls::{
    action_reply_body, api_url, apply_dl_set, command_file, dl_ask_reply_body, dl_settings_reply_body,
    iso_at, json_escape_exec, latest_session, overlay_of, parse_color, parse_download_action,
    parse_request, parse_ui_action, plugin_manifest, plugin_watch_dir, popup_js_key, query_value,
    read_control_command, reply_empty, reply_json, reply_not_found, report_base, report_prompt,
    result_file, route_request, should_report, show_popup_js, theme_colors, theme_reply_body,
    url_decode, url_decode_ok, ActionRequest, ControlCommand, close_request, CloseRequest, parse_color_ok, install_state, install_step, plugin_install_plan, InstallStep, DownloadKind, Overlay, OverlayState,
    PluginWatch, Route, ThemeState, UiAction, dshd_route, swallow_key, status_push_js, theme_push_js,
    switch_state_js, navigation_target, DshdRoute, window_effect, mark_reported, WindowEffect,
};
use dsh_desktop::settings::Settings;

fn q(pairs: &[(&str, &str)]) -> Vec<(String, String)> {
    pairs.iter().map(|(k, v)| (k.to_string(), v.to_string())).collect()
}

#[test]
fn url_decode_escapes_and_plus() {
    assert_eq!(url_decode("a%20b"), "a b");
    assert_eq!(url_decode("a+b"), "a b");
    assert_eq!(url_decode("%41%62c"), "Abc");
    assert_eq!(url_decode("%zz"), "%zz");
    assert_eq!(url_decode("%4"), "%4");
    assert_eq!(url_decode("%+f"), "\u{f}");
    assert_eq!(url_decode("C%3A%5Cdl"), "C:\\dl");
}

#[test]
fn url_decode_reads_bytes_one_by_one() {
    // Each byte of a multi-byte character becomes the character of its code.
    assert_eq!(url_decode("é"), "\u{c3}\u{a9}");
    assert_eq!(url_decode("%E4%B8%AD"), "\u{e4}\u{b8}\u{ad}");
}

#[test]
fn url_decode_refuses_cut_characters() {
    assert!(url_decode_ok("a%20b"));
    assert!(url_decode_ok("%é"));
    assert!(!url_decode_ok("%aé"));
}

#[test]
fn colors_in_all_forms() {
    assert_eq!(parse_color("#ffffff"), Some((255, 255, 255)));
    assert_eq!(parse_color("  #1a2B3c "), Some((0x1a, 0x2b, 0x3c)));
    assert_eq!(parse_color("#abc"), Some((0xaa, 0xbb, 0xcc)));
    assert_eq!(parse_color("rgb(1, 2, 3)"), Some((1, 2, 3)));
    assert_eq!(parse_color("rgb( 10 ,20,30, 0.5)"), Some((10, 20, 30)));
    assert_eq!(parse_color("rgb(1,2)"), None);
    assert_eq!(parse_color("rgb(256,0,0)"), None);
    assert_eq!(parse_color("#12"), None);
    assert_eq!(parse_color("#gggggg"), None);
    assert_eq!(parse_color("rgba(1,2,3,1)"), None);
    assert_eq!(parse_color("transparent"), None);
}

#[test]
fn request_line_and_query() {
    let r = parse_request("GET /action?name=min&id=3&id=4&flag HTTP/1.1\r\nHost: x\r\n\r\n");
    assert_eq!(r.method, "GET");
    assert_eq!(r.path, "/action");
    assert_eq!(r.query.len(), 4);
    assert_eq!(query_value(&r.query, "name"), Some("min".to_string()));
    assert_eq!(query_value(&r.query, "id"), Some("4".to_string()));
    assert_eq!(query_value(&r.query, "flag"), Some(String::new()));
    assert_eq!(query_value(&r.query, "none"), None);
}

#[test]
fn request_without_target() {
    let r = parse_request("");
    assert_eq!(r.method, "");
    assert_eq!(r.path, "/");
    assert!(r.query.is_empty());
    let r = parse_request("GET");
    assert_eq!(r.method, "GET");
    assert_eq!(r.path, "/");
}

#[test]
fn routes_of_the_service() {
    assert!(matches!(route_request(&parse_request("GET /status HTTP/1.1")), Some(Route::Status)));
    assert!(matches!(route_request(&parse_request("POST /status HTTP/1.1")), Some(Route::NotFound)));
    assert!(matches!(route_request(&parse_request("GET /nope HTTP/1.1")), Some(Route::NotFound)));
    assert!(matches!(route_request(&parse_request("GET /downloads HTTP/1.1")), Some(Route::Downloads)));
    match route_request(&parse_request("GET /log?msg=hello+world HTTP/1.1")) {
        Some(Route::Log(m)) => assert_eq!(m, "hello world"),
        _ => panic!("log"),
    }
    match route_request(&parse_request("GET /set-theme?t=%7B%7D HTTP/1.1")) {
        Some(Route::SetTheme(src, t)) => {
            assert_eq!(src, "dsh");
            assert_eq!(t, "{}");
        },
        _ => panic!("set-theme"),
    }
    assert!(route_request(&parse_request("GET /log?msg=%aé HTTP/1.1")).is_none());
}

#[test]
fn action_routes() {
    match route_request(&parse_request("GET /action?name=popup-dl HTTP/1.1")) {
        Some(Route::Action(ActionRequest::Ui(UiAction::Toggle(Overlay::Downloads)))) => {},
        _ => panic!("popup-dl"),
    }
    match route_request(&parse_request("GET /action?name=download-pause&id=5&on=0 HTTP/1.1")) {
        Some(Route::Action(ActionRequest::Download(d))) => {
            assert_eq!(d.id, 5);
            assert!(matches!(d.kind, DownloadKind::Pause(false)));
        },
        _ => panic!("download-pause"),
    }
    match route_request(&parse_request("GET /action?name=download-foo HTTP/1.1")) {
        Some(Route::Action(ActionRequest::Unknown)) => {},
        _ => panic!("download-foo"),
    }
    match route_request(&parse_request("GET /action?name=bogus HTTP/1.1")) {
        Some(Route::Action(ActionRequest::Unknown)) => {},
        _ => panic!("bogus"),
    }
}

#[test]
fn download_action_parameters() {
    let d = parse_download_action("download-pause", &q(&[("id", "x")])).unwrap();
    assert_eq!(d.id, 0);
    assert!(matches!(d.kind, DownloadKind::Pause(true)));
    let d = parse_download_action("dl-ask-confirm", &q(&[("dir", "D%3A%5Cdl"), ("id", "7")])).unwrap();
    assert_eq!(d.id, 7);
    match d.kind {
        DownloadKind::AskConfirm(raw) => assert_eq!(raw, "D%3A%5Cdl"),
        _ => panic!("confirm"),
    }
    assert!(parse_download_action("download-nothing", &q(&[])).is_none());
}

#[test]
fn ui_action_names() {
    assert_eq!(parse_ui_action("min"), Some(UiAction::Min));
    assert_eq!(parse_ui_action("min-tray"), Some(UiAction::MinTray));
    assert_eq!(parse_ui_action("popup-dl-settings"), Some(UiAction::Toggle(Overlay::Settings)));
    assert_eq!(parse_ui_action("popup-close-hide"), Some(UiAction::Hide(Overlay::Close)));
    assert_eq!(parse_ui_action("main-click"), Some(UiAction::MainClick));
    assert_eq!(parse_ui_action("Min"), None);
}

#[test]
fn dl_set_parameters() {
    match route_request(&parse_request("GET /dl-set?dir=+&ask=1&tint=250&material=MICA HTTP/1.1")) {
        Some(Route::DlSet(d)) => {
            assert_eq!(d.dir, None);
            assert!(d.ask);
            assert!(d.auto_show);
            assert_eq!(d.tint, Some(100));
            assert_eq!(d.material, Some("mica".to_string()));
            let mut s = Settings::default();
            s.download_dir = Some("X".to_string());
            apply_dl_set(&mut s, &d);
            assert_eq!(s.download_dir, None);
            assert!(s.ask_download_location);
            assert_eq!(s.titlebar_tint, 100);
            assert_eq!(s.window_material, "mica");
        },
        _ => panic!("dl-set"),
    }
    match route_request(&parse_request("GET /dl-set?dir=D%3A%5Cx&auto=0&tint=-1&material=glass HTTP/1.1")) {
        Some(Route::DlSet(d)) => {
            assert_eq!(d.dir, Some("D:\\x".to_string()));
            assert!(!d.ask);
            assert!(!d.auto_show);
            assert_eq!(d.tint, None);
            assert_eq!(d.material, None);
        },
        _ => panic!("dl-set 2"),
    }
}

#[test]
fn reply_bodies() {
    assert_eq!(action_reply_body(true), "{\"ok\":true}");
    assert_eq!(action_reply_body(false), "{\"ok\":false}");
    assert_eq!(json_escape_exec("a\"b\\c"), "a\\\"b\\\\c");
    assert_eq!(
        theme_reply_body(&Some(("rgb(1, 2, 3)".to_string(), "x\"y".to_string()))),
        "{\"bg\":\"rgb(1, 2, 3)\",\"fg\":\"x\\\"y\"}"
    );
    assert_eq!(theme_reply_body(&None), "{}");
    assert_eq!(dl_ask_reply_body("", "C:\\dl"), "{\"pending\":false,\"name\":\"\",\"dir\":\"C:\\\\dl\"}");
    assert_eq!(dl_ask_reply_body("a.zip", ""), "{\"pending\":true,\"name\":\"a.zip\",\"dir\":\"\"}");
    let s = Settings::default();
    assert_eq!(
        dl_settings_reply_body(&s, "D:\\d"),
        "{\"dir\":\"D:\\\\d\",\"ask\":false,\"autoShow\":true,\"tint\":18,\"material\":\"acrylic\"}"
    );
    assert_eq!(reply_json("[]"), "HTTP/1.1 200 OK\r\ncontent-type: application/json\r\naccess-control-allow-origin: *\r\n\r\n[]");
    assert_eq!(reply_empty(), "HTTP/1.1 200 OK\r\naccess-control-allow-origin: *\r\n\r\n{}");
    assert_eq!(reply_not_found(), "HTTP/1.1 404 Not Found\r\naccess-control-allow-origin: *\r\n\r\n{}");
}

#[test]
fn overlay_names_and_keys() {
    assert_eq!(overlay_of("popup-close"), Overlay::Close);
    assert_eq!(overlay_of("whatever"), Overlay::Menu);
    assert_eq!(popup_js_key("popup-downloads"), "dl");
    assert_eq!(popup_js_key("popup-settings"), "settings");
    assert_eq!(popup_js_key("popup-menu"), "menu");
    assert_eq!(show_popup_js(Overlay::Downloads, true), "window.__dshdShowPopup && window.__dshdShowPopup('dl', true);");
}

#[test]
fn overlay_toggle_and_outside_click() {
    let mut st = OverlayState::new();
    assert!(st.toggle(Overlay::Menu, 1000));
    assert!(st.menu);
    assert_eq!(st.last_shown_ms, 1000);
    st.set(Overlay::Downloads, true, 1100);
    // A click within 400 ms of an overlay opening is part of the opening.
    assert!(!st.click_outside(1300, false));
    assert!(st.menu && st.downloads);
    // Later, everything closes; the download panel stays while downloads run.
    assert!(st.click_outside(1600, true));
    assert!(!st.menu);
    assert!(st.downloads);
    assert!(st.click_outside(1700, false));
    assert!(!st.downloads);
    // Toggling twice gives back the state.
    let before = st;
    st.toggle(Overlay::Close, 2000);
    st.toggle(Overlay::Close, 2001);
    assert_eq!(st.close, before.close);
}

#[test]
fn theme_reports() {
    assert_eq!(theme_colors("{\"bg\":\"#000\",\"fg\":\"#fff\"}"), ("#000".to_string(), "#fff".to_string()));
    assert_eq!(theme_colors("{\"bg\":1}"), (String::new(), String::new()));
    assert_eq!(theme_colors("not json"), (String::new(), String::new()));
    let mut t = ThemeState::new();
    // A report from the hidden page is kept but not pushed.
    assert_eq!(t.record("deepseek", "{\"bg\":\"#111\",\"fg\":\"#eee\"}"), None);
    assert_eq!(t.current_theme(), None);
    assert_eq!(t.record("dsh", "{\"bg\":\"#222\",\"fg\":\"#ddd\"}"), Some(("#222".to_string(), "#ddd".to_string())));
    assert_eq!(t.record("dsh", "{\"fg\":\"#ddd\"}"), None);
    t.deepseek_shown = true;
    assert_eq!(t.current_theme(), Some(("#111".to_string(), "#eee".to_string())));
}

#[test]
fn control_commands() {
    assert!(command_file("cmd-1.json"));
    assert!(!command_file("result-1.json"));
    assert!(result_file("result-1.json"));
    assert!(read_control_command("{oops").is_none());
    assert!(matches!(read_control_command("{\"cmd\":\"restart\"}"), Some(ControlCommand::Restart)));
    assert!(matches!(read_control_command("{\"cmd\":\"cancel-restart\"}"), Some(ControlCommand::Ignore)));
    match read_control_command("{\"cmd\":\"install-plugin\",\"id\":\"a1\",\"spec\":\"\"}") {
        Some(ControlCommand::RejectInstall(id)) => assert_eq!(id, "a1"),
        _ => panic!("reject"),
    }
    match read_control_command("{\"cmd\":\"install-plugin\",\"id\":\"a2\",\"spec\":\"pkg\",\"profile\":\"web\"}") {
        Some(ControlCommand::Install(id, spec, profile, timeout)) => {
            assert_eq!(id, "a2");
            assert_eq!(spec, "pkg");
            assert_eq!(profile, "web");
            assert_eq!(timeout, 300000);
        },
        _ => panic!("install"),
    }
    let cmd = "{\"cmd\":\"install-plugin\",\"id\":\"a3\",\"spec\":\"pkg\",\"profile\":\"work\",\"timeoutMs\":5000}";
    match read_control_command(cmd) {
        Some(ControlCommand::Install(_, _, profile, timeout)) => {
            assert_eq!(profile, "work");
            assert_eq!(timeout, 5000);
        },
        _ => panic!("install with profile"),
    }
    // A limit that is not an unsigned integer falls back to five minutes.
    match read_control_command("{\"cmd\":\"install-plugin\",\"id\":\"a4\",\"spec\":\"p\",\"timeoutMs\":-1}") {
        Some(ControlCommand::Install(_, _, profile, timeout)) => {
            assert_eq!(profile, "web");
            assert_eq!(timeout, 300000);
        },
        _ => panic!("install with a bad limit"),
    }
}

#[test]
fn install_watch_steps() {
    assert_eq!(install_step(Some(true), 10, 5), InstallStep::Finished(true));
    assert_eq!(install_step(None, 4999, 5000), InstallStep::Wait);
    assert_eq!(install_step(None, 5000, 5000), InstallStep::Stop);
    assert_eq!(install_state(Some(true)), "done");
    assert_eq!(install_state(Some(false)), "failed");
    assert_eq!(install_state(None), "timeout");
}

#[test]
fn plugin_install_into_a_profile() {
    let mut s = Settings::default();
    s.dsh_bin = Some("C:\\d\\bin.js".to_string());
    s.node_bin = Some("C:\\n\\node.exe".to_string());
    let p = plugin_install_plan(&s, "pkg", "work", &Some("C:\\h".to_string()), &None, &vec![]).unwrap();
    assert_eq!(p.node, "C:\\n\\node.exe");
    assert_eq!(p.args, vec!["C:\\d\\bin.js", "plugin", "--profile", "work", "add", "pkg"]);
    assert_eq!(p.cwd, "C:\\h\\profiles\\work");
}

#[test]
fn results_are_reported_once() {
    assert!(should_report("{\"state\":\"done\"}"));
    assert!(!should_report("{\"state\":\"done\",\"reportedAt\":\"x\"}"));
    assert!(!should_report("{\"state\":\"failed\"}"));
    assert!(!should_report("nope"));
    assert_eq!(report_prompt("C:\\r.json"), "【系统】插件安装已完成，请向用户简洁汇报（汇报后删除该 result 文件：C:\\r.json）");
}

#[test]
fn latest_session_is_the_most_recent() {
    let reply = "{\"result\":{\"value\":{\"items\":[{\"sessionId\":\"a\",\"updatedAt\":5},{\"sessionId\":\"b\",\"updatedAt\":9},{\"sessionId\":\"c\",\"updatedAt\":9}]}}}";
    assert_eq!(latest_session(reply), Some("b".to_string()));
    assert_eq!(latest_session("{\"result\":{\"value\":{\"items\":[]}}}"), None);
    assert_eq!(latest_session("{}"), None);
}

#[test]
fn api_urls_and_report_base() {
    assert_eq!(api_url("http://127.0.0.1:3080//", "session.list"), "http://127.0.0.1:3080/api/session.list");
    assert_eq!(report_base("running", &Some("u".to_string())), Some("u".to_string()));
    assert_eq!(report_base("starting", &Some("u".to_string())), None);
}

#[test]
fn iso_time() {
    assert_eq!(iso_at(0), "1970-01-01T00:00:00Z");
    assert_eq!(iso_at(1700000000), "2023-11-14T22:13:20Z");
}

#[test]
fn plugin_watch_waits_for_quiet() {
    assert!(plugin_manifest("package.json"));
    assert!(plugin_manifest("pnpm-lock.yaml"));
    assert!(!plugin_manifest("index.js"));
    let mut w = PluginWatch::new();
    assert!(!w.due(10_000));
    w.changed(1000);
    assert!(!w.due(6999));
    w.changed(5000);
    assert!(!w.due(10_999));
    assert!(w.due(11_000));
    assert!(!w.due(20_000));
    assert_eq!(plugin_watch_dir(&None, &Some("C:\\Users\\me".to_string()), "web"), "C:\\Users\\me\\.dsh\\profiles\\web");
    assert_eq!(plugin_watch_dir(&Some("D:\\h".to_string()), &None, "p"), "D:\\h\\profiles\\p");
}

#[test]
fn dshd_scheme_routes_by_path() {
    assert_eq!(dshd_route("/status"), DshdRoute::Status);
    assert_eq!(dshd_route("/restart"), DshdRoute::Restart);
    assert_eq!(dshd_route("/reload"), DshdRoute::Reload);
    assert_eq!(dshd_route("/browser"), DshdRoute::Browser);
    assert_eq!(dshd_route("/min"), DshdRoute::Min);
    assert_eq!(dshd_route("/max"), DshdRoute::Max);
    assert_eq!(dshd_route("/close"), DshdRoute::Close);
    assert_eq!(dshd_route("/drag"), DshdRoute::Drag);
    assert_eq!(dshd_route("/icon"), DshdRoute::Icon);
    assert_eq!(dshd_route("/status/"), DshdRoute::NotFound);
    assert_eq!(dshd_route(""), DshdRoute::NotFound);
}

#[test]
fn only_f6_and_f7_are_swallowed() {
    assert!(swallow_key(0x75));
    assert!(swallow_key(0x76));
    assert!(!swallow_key(0x74));
    assert!(!swallow_key(0x77));
}

#[test]
fn shell_scripts_call_the_page_hooks() {
    assert_eq!(status_push_js("{\"state\":\"running\"}"), "window.__dshdStatus && window.__dshdStatus({\"state\":\"running\"});");
    assert_eq!(theme_push_js("#fff", "#000"), "window.__dshdTheme && window.__dshdTheme({\"bg\":\"#fff\",\"fg\":\"#000\"});");
    assert_eq!(switch_state_js(true), "window.__dshdSwitchState && window.__dshdSwitchState(true);");
    assert_eq!(switch_state_js(false), "window.__dshdSwitchState && window.__dshdSwitchState(false);");
}

#[test]
fn dsh_page_follows_the_backend_once() {
    let u = Some("http://127.0.0.1:3080".to_string());
    assert_eq!(navigation_target("running", &u, &None), u.clone());
    assert_eq!(navigation_target("external", &u, &None), u.clone());
    assert_eq!(navigation_target("running", &u, &u.clone()), None);
    assert_eq!(navigation_target("running", &u, &Some("http://127.0.0.1:1".to_string())), u.clone());
    assert_eq!(navigation_target("starting", &u, &None), None);
    assert_eq!(navigation_target("running", &None, &None), None);
}

#[test]
fn window_material_picks_the_effect() {
    assert_eq!(window_effect("none", true), WindowEffect::Clear);
    assert_eq!(window_effect("NONE", false), WindowEffect::Clear);
    assert_eq!(window_effect("mica", true), WindowEffect::MicaDark);
    assert_eq!(window_effect("Mica", false), WindowEffect::MicaLight);
    assert_eq!(window_effect("acrylic", true), WindowEffect::Acrylic);
    assert_eq!(window_effect("glass", false), WindowEffect::Acrylic);
}

#[test]
fn a_reported_result_is_marked() {
    assert_eq!(
        mark_reported("{\"id\":\"a\",\"state\":\"done\"}", "2024-01-01T00:00:00Z"),
        Some("{\n  \"id\": \"a\",\n  \"reportedAt\": \"2024-01-01T00:00:00Z\",\n  \"state\": \"done\"\n}".to_string())
    );
    assert_eq!(mark_reported("oops", "t"), None);
    let text = "{\"id\":\"x\",\"state\":\"done\"}";
    assert!(should_report(text));
    assert!(!should_report(&mark_reported(text, "2024-01-01T00:00:00Z").unwrap()));
}

#[test]
fn colours_that_can_be_read() {
    assert!(parse_color_ok("#abcdef"));
    assert!(parse_color_ok(" rgb(1, 2, 3) "));
    // `é` takes two bytes, so the second pair would start inside it.
    assert!(!parse_color_ok("#aé123"));
}

#[test]
fn plugin_change_waits_for_a_running_install() {
    let mut w = PluginWatch::new();
    w.changed(1000);
    assert!(!w.due_when_idle(9000, true));
    assert_eq!(w.pending_since, Some(1000));
    assert!(w.due_when_idle(9000, false));
    assert_eq!(w.pending_since, None);
}

#[test]
fn closing_the_window() {
    assert_eq!(close_request(true, true), CloseRequest::Allow);
    assert_eq!(close_request(false, true), CloseRequest::ToTray);
    assert_eq!(close_request(false, false), CloseRequest::Ask);
    assert!(!Settings::default().close_to_tray);
}
