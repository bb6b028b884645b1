use dsh_desktop::install::{
    exit_code_string, global_install_command, install_failure_message, npm_cli_for, npm_root_command,
    pick_registry, prefix_install_command, registry_candidates, registry_host, InstallLog,
    global_bin_from_root, missing_entry_message, install_progress, fetch_progress, installed_version,
    PREFIX_MANIFEST_TEXT,
};
use dsh_desktop::paths::{first_existing, parent_of};
use dsh_desktop::runtime::{
    dsh_bin_for, dsh_package_json, dsh_pkg_dir, find_dsh_on_path, find_global_bin, choose_dsh, resolve_dsh, resolve_node,
    shim_target_exec, shim_targets,
};

#[test]
fn registries_and_hosts() {
    let c = registry_candidates();
    assert_eq!(c.len(), 4);
    assert_eq!(c[0].1, "https://registry.npmmirror.com/");
    assert_eq!(registry_host("https://registry.npmjs.org/"), "registry.npmjs.org");
    assert_eq!(registry_host("https://repo.huaweicloud.com/repository/npm/"), "repo.huaweicloud.com/repository/npm");
    assert_eq!(registry_host("https://https://x//"), "x");
}

#[test]
fn fastest_registry_wins_earliest_on_ties() {
    let (name, url) = pick_registry(&vec![None, Some(30), Some(10), Some(10)]).unwrap();
    assert_eq!(name, "腾讯云镜像");
    assert_eq!(url, "https://mirrors.cloud.tencent.com/npm/");
    let (name, _) = pick_registry(&vec![Some(5), Some(5), None, None]).unwrap();
    assert_eq!(name, "npmmirror（国内）");
    assert_eq!(pick_registry(&vec![None, None, None, None]), Err("所有 npm 源均无法连接".to_string()));
}

#[test]
fn npm_command_lines() {
    assert_eq!(
        global_install_command("C:\\n\\npm-cli.js", "https://r/"),
        vec!["C:\\n\\npm-cli.js", "install", "-g", "@deepseek-ai/dsh@latest", "--registry", "https://r/", "--loglevel", "info", "--no-fund", "--no-audit"]
    );
    assert_eq!(
        prefix_install_command("cli.js", "D:\\v\\v1", "0.1.2", "https://r/"),
        vec!["cli.js", "install", "--prefix", "D:\\v\\v1", "@deepseek-ai/dsh@0.1.2", "--registry", "https://r/", "--loglevel", "info", "--no-fund", "--no-audit"]
    );
    assert_eq!(npm_root_command("cli.js"), vec!["cli.js", "root", "-g"]);
}

#[test]
fn npm_cli_needs_a_folder() {
    assert_eq!(npm_cli_for("C:\\"), Err("无法定位 npm（npm-cli.js）".to_string()));
    assert_eq!(npm_cli_for(""), Err("无法定位 npm（npm-cli.js）".to_string()));
}

#[test]
fn install_log_counts_fetches_and_keeps_the_tail() {
    let mut log = InstallLog::new();
    assert!(!log.push_line("   \r\n"));
    assert!(log.tail.is_empty());
    assert!(log.push_line("npm http fetch GET 200 https://r/a 12ms\r\n"));
    assert!(!log.push_line("npm info run"));
    assert_eq!(log.fetched, 1);
    assert_eq!(log.tail, vec!["npm http fetch GET 200 https://r/a 12ms", "npm info run"]);
    for i in 0..50 {
        log.push_line(&format!("line {}", i));
    }
    assert_eq!(log.tail.len(), 40);
    assert_eq!(log.tail[0], "line 10");
    assert_eq!(log.tail[39], "line 49");
}

#[test]
fn install_failure_messages() {
    let mut log = InstallLog::new();
    assert_eq!(install_failure_message(Some(1), &log), "npm 安装 dsh 失败 (exit=Some(1))");
    for l in ["a", "b", "c", "d", "e"] {
        log.push_line(l);
    }
    assert_eq!(install_failure_message(Some(1), &log), "npm 安装 dsh 失败 (exit=Some(1)): e d c b");
    assert_eq!(install_failure_message(None, &log), "npm 安装 dsh 失败 (exit=None): e d c b");
    assert_eq!(exit_code_string(Some(-2)), "Some(-2)");
}

#[test]
fn dsh_layout_paths() {
    assert_eq!(dsh_pkg_dir("C:\\p"), "C:\\p\\node_modules\\@deepseek-ai\\dsh");
    assert_eq!(dsh_bin_for("C:\\p\\"), "C:\\p\\node_modules\\@deepseek-ai\\dsh\\lib\\bin.js");
    assert_eq!(dsh_package_json("C:\\p"), "C:\\p\\node_modules\\@deepseek-ai\\dsh\\package.json");
}

#[test]
fn parents_of_windows_paths() {
    assert_eq!(parent_of("C:\\a\\b.js"), Some("C:\\a".to_string()));
    assert_eq!(parent_of("C:\\a"), Some("C:\\".to_string()));
    assert_eq!(parent_of("C:\\"), None);
    assert_eq!(parent_of("node.exe"), Some(String::new()));
    assert_eq!(parent_of("a\\b\\\\"), Some("a".to_string()));
    assert_eq!(parent_of(""), None);
}

#[test]
fn shim_lines() {
    let text = "@ECHO off\r\nGOTO start\r\n:start\r\n\"%_prog%\"  \"%dp0%\\node_modules\\@deepseek-ai\\dsh\\lib\\BIN.js\" %*\r\n\"%~dp0\\node_modules\\x\\lib\\bin.js\" %*\r\n";
    assert_eq!(
        shim_targets("C:\\npm", text),
        vec!["C:\\npm\\%_prog%".to_string(), "C:\\npm\\node_modules\\x\\lib\\bin.js".to_string()]
    );
    assert_eq!(shim_target_exec("C:\\npm", &"D:\\x\\bin.js".chars().collect()), "D:\\x\\bin.js");
    assert_eq!(shim_target_exec("C:\\npm", &"%~dp0\\a.js".chars().collect()), "C:\\npm\\a.js");
}

#[test]
fn resolution_against_the_disk() {
    // A path given by hand must exist and be a `.js` script.
    assert_eq!(resolve_dsh(&Some("/tmp".to_string()), &None, &vec![], &vec![], &None), None);
    assert_eq!(resolve_dsh(&Some("/nowhere/bin.js".to_string()), &None, &vec![], &vec![], &None), None);
    assert_eq!(first_existing(&vec!["/nowhere".to_string(), "/tmp".to_string()]), Some("/tmp".to_string()));
    assert_eq!(first_existing(&vec!["/nowhere".to_string()]), None);
    // Nothing found: node is left to the system search.
    assert_eq!(resolve_node(&Some("/nowhere/node".to_string()), &vec!["/nowhere".to_string()]), "node.exe");
    assert_eq!(find_dsh_on_path(&vec!["/nowhere".to_string()]), None);
    assert_eq!(find_global_bin(&vec![], &None), None);
    assert_eq!(resolve_dsh(&None, &None, &vec!["/nowhere".to_string()], &vec![None, None, None], &None), None);
    // A shim that was read is a shim found: with nothing it points to on disk,
    // the shim itself is the entry.
    let shim = "@node \"%~dp0\\node_modules\\@deepseek-ai\\dsh\\lib\\bin.js\" %*\r\n".to_string();
    assert_eq!(
        resolve_dsh(&None, &None, &vec!["/nowhere".to_string()], &vec![None, Some(shim.clone()), None], &None),
        Some("/nowhere\\dsh.bat".to_string())
    );
    // A launcher given by hand that is not on disk does not stop the search:
    // `PATH` is searched next.
    assert_eq!(
        resolve_dsh(&Some("C:\\tools\\dsh.cmd".to_string()), &None, &vec!["/nowhere".to_string()], &vec![None, Some(shim.clone()), None], &None),
        Some("/nowhere\\dsh.bat".to_string())
    );
    // A launcher given by hand that was read is used, with nothing on PATH:
    // nothing it points to is on disk, so the launcher itself is the entry.
    assert_eq!(
        resolve_dsh(&Some("C:\\tools\\dsh.cmd".to_string()), &Some(shim.clone()), &vec![], &vec![], &None),
        Some("C:\\tools\\dsh.cmd".to_string())
    );
    // Any other file given by hand that is not a `.js` script is passed over.
    assert_eq!(resolve_dsh(&Some("C:\\tools\\dsh.txt".to_string()), &Some(shim.clone()), &vec![], &vec![], &None), None);
}

#[test]
fn a_launcher_given_by_hand_is_followed() {
    let shim = "@node \"%~dp0\\node_modules\\@deepseek-ai\\dsh\\lib\\bin.js\" %*\r\n".to_string();
    let p = Some("C:\\tools\\DSH.CMD".to_string());
    let none: Vec<String> = vec![];
    let empty: Vec<Option<String>> = vec![];
    // The npm layout next to it comes first.
    assert_eq!(
        choose_dsh(&p, true, &Some(shim.clone()), &vec![false], true, &none, &empty, &vec![], &vec![], &vec![], &None, false),
        Some("C:\\tools\\node_modules\\@deepseek-ai\\dsh\\lib\\bin.js".to_string())
    );
    // Then the script its text points to, when on disk.
    assert_eq!(
        choose_dsh(&p, true, &Some(shim.clone()), &vec![true], false, &none, &empty, &vec![], &vec![], &vec![], &None, false),
        Some("C:\\tools\\node_modules\\@deepseek-ai\\dsh\\lib\\bin.js".to_string())
    );
    // Else the launcher itself.
    assert_eq!(
        choose_dsh(&p, true, &None, &vec![], false, &none, &empty, &vec![], &vec![], &vec![], &None, false),
        p.clone()
    );
    // Not on disk: the search goes on (here to %APPDATA%\npm).
    assert_eq!(
        choose_dsh(&p, false, &None, &vec![], false, &none, &empty, &vec![], &vec![], &vec![], &Some("C:\\A".to_string()), true),
        Some("C:\\A\\npm\\node_modules\\@deepseek-ai\\dsh\\lib\\bin.js".to_string())
    );
}

#[test]
fn global_entry_comes_from_npm_root() {
    assert_eq!(
        global_bin_from_root("C:\\Users\\u\\AppData\\Roaming\\npm\\node_modules\r\n"),
        Ok("C:\\Users\\u\\AppData\\Roaming\\npm\\node_modules\\@deepseek-ai\\dsh\\lib\\bin.js".to_string())
    );
    assert_eq!(global_bin_from_root("  \r\n"), Err("无法确定 npm 全局安装目录".to_string()));
    assert_eq!(global_bin_from_root(""), Err("无法确定 npm 全局安装目录".to_string()));
}

#[test]
fn install_messages() {
    assert_eq!(missing_entry_message("D:\\v\\bin.js"), "安装完成但未找到 dsh 入口: D:\\v\\bin.js");
    assert_eq!(install_progress("npmmirror（国内）", &None), "正在从 npmmirror（国内） 安装 dsh…");
    assert_eq!(install_progress("npmjs（官方）", &Some("latest".to_string())), "正在从 npmjs（官方） 安装 dsh latest…");
    assert_eq!(fetch_progress("腾讯云镜像"), "正在从 腾讯云镜像 下载依赖…");
    assert_eq!(installed_version(&Some("0.1.2".to_string()), "latest"), "0.1.2");
    assert_eq!(installed_version(&None, "latest"), "latest");
    assert!(PREFIX_MANIFEST_TEXT.contains("\"name\": \"dsh-desktop-runtime\""));
}
