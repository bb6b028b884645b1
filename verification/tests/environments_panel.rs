use dsh_desktop::environments::{
    activate_profile, activate_version, add_empty_profile, add_version_entry, apply_update_version,
    classify_bin, ensure_seed_versions, id_for, list_profiles, list_versions, make_found_label,
    managed_prefix, new_version_entry, package_json_of_bin, plan_activation, plan_add_version,
    plan_remove_profile, plan_update_version, prefix_of_bin, profile_dir, profile_view_of,
    read_actual_version, read_profile_manifest, remove_version, rename_version, validate_profile_name,
    validate_version_name, ActivationPlan, ProfileEntry, new_profile_files, copied_manifest,
    decide_copy_profile, decide_rename_profile, decide_remove_profile, decide_activate_profile, decide_add_profile,
};
use dsh_desktop::settings::{DshVersionEntry, Settings};

fn entry(id: &str, bin: Option<&str>, source: &str) -> DshVersionEntry {
    let mut e = DshVersionEntry::default();
    e.id = id.to_string();
    e.label = format!("label {}", id);
    e.dir = format!("D:\\v\\{}", id);
    e.bin = bin.map(|b| b.to_string());
    e.source = source.to_string();
    e
}

const GLOBAL_BIN: &str = "C:\\Users\\me\\AppData\\Roaming\\npm\\node_modules\\@deepseek-ai\\dsh\\lib\\bin.js";

#[test]
fn profile_names() {
    assert_eq!(validate_profile_name("  web "), Ok(()));
    assert_eq!(validate_profile_name("   "), Err("profile 名称不能为空".to_string()));
    assert_eq!(validate_profile_name(".."), Err("非法 profile 名称: ..".to_string()));
    assert_eq!(validate_profile_name(" node_modules"), Err("非法 profile 名称: node_modules".to_string()));
    assert_eq!(validate_profile_name("a/b"), Err("profile 名称不能包含路径分隔符".to_string()));
    assert!(validate_version_name(" x "));
    assert!(!validate_version_name(" \t"));
    assert_eq!(profile_dir(" web ", "C:\\h\\profiles"), Ok("C:\\h\\profiles\\web".to_string()));
    // A drive prefix is not joined: it replaces the folder, as `Path::join` does.
    assert_eq!(profile_dir("C:x", "C:\\h\\profiles"), Ok("C:x".to_string()));
}

#[test]
fn classes_of_entries() {
    assert_eq!(classify_bin("D:\\App\\versions\\v1\\x\\bin.js", "D:\\app\\versions"), "manual");
    assert_eq!(classify_bin("D:/App/versions/v1/bin.js", "D:/App/versions"), "managed");
    assert_eq!(classify_bin(GLOBAL_BIN, "D:\\v"), "global");
    assert_eq!(classify_bin("C:\\Node_Modules\\@DeepSeek-AI\\dsh\\LIB\\BIN.JS", "D:\\v"), "global");
    assert_eq!(classify_bin("E:\\tools\\dsh.js", "D:\\v"), "manual");
    assert_eq!(make_found_label(true, &Some("1.2.3".to_string())), "全局 dsh (1.2.3)");
    assert_eq!(make_found_label(false, &None), "当前 dsh");
}

#[test]
fn versions_panel_rows() {
    let mut s = Settings::default();
    s.dsh_versions = vec![entry("a", Some("D:\\v\\a\\bin.js"), "managed"), entry("b", None, "managed")];
    s.active_version_id = Some("a".to_string());
    let rows = list_versions(&s, "D:\\v", None, None);
    assert_eq!(rows.len(), 2);
    assert!(rows[0].active);
    // Without a dsh path, an entry without a script counts as the one in use.
    assert!(rows[1].active);
    assert!(!rows[1].exists);
    // A dsh path recorded by no entry gets a row of its own, shown in use.
    s.dsh_bin = Some("E:\\x\\bin.js".to_string());
    let rows = list_versions(&s, "D:\\v", Some("0.9".to_string()), None);
    assert_eq!(rows.len(), 3);
    assert_eq!(rows[2].id, "__current__");
    assert_eq!(rows[2].label, "当前 dsh (0.9)");
    assert!(rows[2].active);
    // Nothing recorded: the global install found is offered.
    let s = Settings::default();
    let rows = list_versions(&s, "D:\\v", None, Some((GLOBAL_BIN.to_string(), None)));
    assert_eq!(rows.len(), 1);
    assert_eq!(rows[0].id, "__global__");
    assert_eq!(rows[0].label, "全局 dsh");
    assert!(rows[0].exists);
}

#[test]
fn profiles_panel_sorted_active_first() {
    let mk = |n: &str, dir: bool, bundles: &[&str]| ProfileEntry {
        name: n.to_string(),
        dir: format!("C:\\p\\{}", n),
        is_dir: dir,
        bundles: bundles.iter().map(|b| b.to_string()).collect(),
        plugins: 2,
    };
    let entries = vec![
        mk("zeta", true, &[]),
        mk("node_modules", true, &[]),
        mk("web", true, &["@deepseek-ai/dsh-base", "@deepseek-ai/dsh-web-app"]),
        mk("alpha", true, &[]),
        mk("file.txt", false, &[]),
    ];
    let rows = list_profiles(&entries, "web");
    let names: Vec<&str> = rows.iter().map(|r| r.name.as_str()).collect();
    assert_eq!(names, vec!["web", "alpha", "zeta"]);
    assert!(rows[0].active && rows[0].web_ready);
    assert_eq!(rows[0].bundles, 2);
    assert!(!rows[1].active && !rows[1].web_ready);
}

#[test]
fn switching_versions() {
    let mut s = Settings::default();
    s.dsh_versions = vec![entry("a", Some("/nowhere/bin.js"), "managed"), entry("b", None, "managed")];
    match plan_activation(&s, "a", None) {
        Ok(ActivationPlan::Entry(bin, id, dir)) => {
            assert_eq!(bin, "/nowhere/bin.js");
            assert_eq!(id, "a");
            assert_eq!(dir, "D:\\v\\a");
        },
        _ => panic!("plan"),
    }
    assert!(matches!(plan_activation(&s, "b", None), Err(e) if e == "该版本缺少 bin.js 路径"));
    assert!(matches!(plan_activation(&s, "zz", None), Err(e) if e == "版本不存在"));
    assert!(matches!(plan_activation(&s, "__global__", None), Err(e) if e == "未找到全局 dsh"));
    assert_eq!(activate_version(&mut s, "a", None), Err("版本目录不存在或未安装完整: D:\\v\\a".to_string()));
    assert!(s.dsh_bin.is_none());
}

#[test]
fn renaming_and_removing_versions() {
    let mut s = Settings::default();
    s.dsh_versions = vec![
        entry("a", Some("D:\\v\\a\\bin.js"), "managed"),
        entry("b", Some("D:\\v\\b\\bin.js"), "managed"),
        entry("g", Some(GLOBAL_BIN), "global"),
    ];
    s.active_version_id = Some("a".to_string());
    assert_eq!(rename_version(&mut s, "b", "  mine "), Ok(()));
    assert_eq!(s.dsh_versions[1].label, "mine");
    assert_eq!(rename_version(&mut s, "b", "  "), Err("备注名不能为空".to_string()));
    assert_eq!(rename_version(&mut s, "a", "x"), Err("当前使用中的版本不能重命名，请先切换到其他版本".to_string()));
    assert_eq!(remove_version(&mut s, "g", "D:\\v"), Err("系统/手动路径版本不能删除，只能删除桌面端管理的版本".to_string()));
    assert_eq!(remove_version(&mut s, "a", "D:\\v"), Err("当前使用中的版本不能删除，请先切换到其他版本".to_string()));
    assert_eq!(remove_version(&mut s, "b", "D:\\v"), Ok(Some("D:\\v\\b".to_string())));
    assert_eq!(s.dsh_versions.len(), 2);
    assert_eq!(remove_version(&mut s, "b", "D:\\v"), Err("版本不存在".to_string()));
}

#[test]
fn seeding_the_registry() {
    // A dsh path set by hand and recorded nowhere becomes an entry, and active.
    let mut s = Settings::default();
    s.dsh_bin = Some(GLOBAL_BIN.to_string());
    ensure_seed_versions(&mut s, "D:\\v", None, Some("1.0.0".to_string()), "v1".to_string());
    assert_eq!(s.dsh_versions.len(), 1);
    let e = &s.dsh_versions[0];
    assert_eq!(e.label, "全局 dsh (1.0.0)");
    assert_eq!(e.source, "global");
    assert_eq!(e.spec, "global");
    assert_eq!(e.dir, "C:\\Users\\me\\AppData\\Roaming\\npm\\node_modules\\@deepseek-ai");
    assert_eq!(s.active_version_id.as_deref(), Some("v1"));
    // Run again: the entry is refreshed, not duplicated.
    s.active_version_id = None;
    ensure_seed_versions(&mut s, "D:\\v", None, None, "v2".to_string());
    assert_eq!(s.dsh_versions.len(), 1);
    assert_eq!(s.dsh_versions[0].installed.as_deref(), Some("1.0.0"));
    assert_eq!(s.active_version_id.as_deref(), Some("v1"));
    // No path set: the global install found is recorded and switched to.
    let mut s = Settings::default();
    ensure_seed_versions(&mut s, "D:\\v", Some(GLOBAL_BIN.to_string()), None, "v3".to_string());
    assert_eq!(s.dsh_bin.as_deref(), Some(GLOBAL_BIN));
    assert_eq!(s.dsh_versions[0].label, "全局 dsh");
    let mut t = Settings::default();
    ensure_seed_versions(&mut t, "D:\\v", None, None, "v4".to_string());
    assert!(t.dsh_versions.is_empty());
}

#[test]
fn adding_and_updating_versions() {
    assert_eq!(plan_add_version("  "), Err("请填写 dsh 版本（如 latest 或 0.1.2-alpha.2）".to_string()));
    assert_eq!(plan_add_version(" latest "), Ok("latest".to_string()));
    let prefix = managed_prefix("D:\\v", "v5");
    assert_eq!(prefix, "D:\\v\\v5");
    let e = new_version_entry("v5", &Some("  ".to_string()), "latest", "1.4.0", &prefix);
    assert_eq!(e.label, "dsh 1.4.0");
    assert_eq!(e.bin.as_deref(), Some("D:\\v\\v5\\node_modules\\@deepseek-ai\\dsh\\lib\\bin.js"));
    assert_eq!(e.source, "managed");
    let mut s = Settings::default();
    add_version_entry(&mut s, e);
    add_version_entry(&mut s, entry("m", Some("E:\\m.js"), "manual"));
    assert_eq!(
        plan_update_version(&s, "m", &None, &None).err(),
        Some("系统/手动路径版本不能由桌面端更新，请使用 npm 或直接切换".to_string())
    );
    let plan = plan_update_version(&s, "v5", &Some(" 2.0 ".to_string()), &None).unwrap();
    assert_eq!(plan.pos, 0);
    assert_eq!(plan.spec, "2.0");
    assert_eq!(plan.label, "dsh 1.4.0");
    let u = apply_update_version(&mut s, &plan, "2.0.1").unwrap();
    assert_eq!(u.installed.as_deref(), Some("2.0.1"));
    assert_eq!(s.dsh_versions[0].spec, "2.0");
    assert_eq!(s.dsh_versions[1].id, "m");
}

#[test]
fn versions_from_manifests() {
    assert_eq!(read_actual_version(&Some("{\"name\":\"x\",\"version\":\"1.2.3\"}".to_string())), Some("1.2.3".to_string()));
    assert_eq!(read_actual_version(&Some("{\"version\":3}".to_string())), None);
    assert_eq!(read_actual_version(&None), None);
    assert_eq!(package_json_of_bin("C:\\p\\dsh\\lib\\bin.js"), Some("C:\\p\\dsh\\package.json".to_string()));
    assert_eq!(prefix_of_bin("C:\\n\\node_modules\\@deepseek-ai\\dsh\\lib\\bin.js"), "C:\\n\\node_modules\\@deepseek-ai");
    assert_eq!(prefix_of_bin("bin.js"), "");
    assert_eq!(id_for(255), "vff");
    assert_eq!(id_for(0), "v0");
}

#[test]
fn profile_manifests() {
    let text = "{\"dependencies\":{\"a\":\"1\",\"b\":\"2\"},\"dsh\":{\"profile\":{\"bundles\":[\"@deepseek-ai/dsh-base\",3,\"@deepseek-ai/dsh-web-app\"]}}}";
    let (b, n) = read_profile_manifest(&Some(text.to_string()));
    assert_eq!(b, vec!["@deepseek-ai/dsh-base", "@deepseek-ai/dsh-web-app"]);
    assert_eq!(n, 2);
    assert_eq!(read_profile_manifest(&Some("{".to_string())), (vec![], 0));
    assert_eq!(read_profile_manifest(&None), (vec![], 0));
    let v = profile_view_of("w2", "C:\\p\\w2", false, &Some(text.to_string()));
    assert!(v.web_ready);
    assert_eq!(v.bundles, 2);
    assert_eq!(v.plugins, 2);
}

#[test]
fn profile_operations_checks() {
    let mut s = Settings::default();
    let missing = "/nowhere/profiles";
    assert_eq!(activate_profile(&mut s, "x", missing), Err("profile 不存在或未初始化".to_string()));
    assert_eq!(s.profile, "web");
    let (name, dir, active) = add_empty_profile(&s, " web ", missing).unwrap();
    assert_eq!(name, "web");
    assert_eq!(dir, "/nowhere/profiles\\web");
    assert!(active);
    assert_eq!(plan_remove_profile(&s, "web", missing), Err("当前正在使用的 profile 不能删除；请先切换到别的 profile".to_string()));
    assert_eq!(plan_remove_profile(&s, "old", missing), Err("profile 不存在: old".to_string()));
}

#[test]
fn a_new_profile_starts_with_three_files() {
    let files = new_profile_files("work");
    assert_eq!(files.len(), 3);
    assert_eq!(files[0].0, "package.json");
    assert_eq!(files[0].1, "{\n  \"dependencies\": {},\n  \"dsh\": {\n    \"profile\": {\n      \"bundles\": [\n        \"@deepseek-ai/dsh-base\",\n        \"@deepseek-ai/dsh-web-app\"\n      ],\n      \"patchReload\": \"live\"\n    }\n  },\n  \"name\": \"dsh-profile-work\",\n  \"private\": true\n}");
    assert_eq!(files[1].0, "cordis.patch.yml");
    assert_eq!(files[1].1, "# Your patch layer for this dsh profile, applied after every bundle layer:\n# a top-level YAML array of loader patch entries.\n[]\n");
    assert_eq!(files[2].0, "pnpm-workspace.yaml");
    assert_eq!(files[2].1, "packages:\n  - .\n\nnodeLinker: hoisted\nautoInstallPeers: false\n");
    let quoted = new_profile_files("a\"b");
    assert!(quoted[0].1.contains("\"name\": \"dsh-profile-a\\\"b\""));
}

#[test]
fn a_copied_profile_takes_its_own_name() {
    let text = Some("{\"name\":\"dsh-profile-old\",\"dependencies\":{\"x\":\"1\"}}".to_string());
    assert_eq!(
        copied_manifest(&text, "new"),
        Some("{\n  \"dependencies\": {\n    \"x\": \"1\"\n  },\n  \"name\": \"dsh-profile-new\"\n}".to_string())
    );
    assert_eq!(copied_manifest(&Some("not json".to_string()), "new"), None);
    assert_eq!(copied_manifest(&None, "new"), None);
    assert_eq!(copied_manifest(&Some("[1]".to_string()), "new"), Some("[\n  1\n]".to_string()));
}

#[test]
fn profile_decisions_from_the_disk() {
    let s = Settings::default();
    let d = "C:\\p";
    // Copy: missing source, then taken target, then the same folder, else the plan.
    assert_eq!(decide_copy_profile(&s, "a", "b", d, false, false), Err("源 profile 不存在: a".to_string()));
    assert_eq!(decide_copy_profile(&s, "a", " b ", d, true, true), Err("profile 已存在: b".to_string()));
    assert_eq!(decide_copy_profile(&s, "a", "a", d, true, false), Err("源与目标同名".to_string()));
    assert_eq!(
        decide_copy_profile(&s, "a", " web ", d, true, false),
        Ok(("C:\\p\\a".to_string(), "C:\\p\\web".to_string(), "web".to_string(), true))
    );
    assert_eq!(decide_copy_profile(&s, "..", "b", d, true, false), Err(validate_profile_name("..").unwrap_err()));
    // Rename: the active profile cannot be renamed.
    assert_eq!(decide_rename_profile(&s, "a", "b", d, false, false), Err("profile 不存在: a".to_string()));
    assert_eq!(decide_rename_profile(&s, "a", "b", d, true, true), Err("profile 已存在: b".to_string()));
    assert_eq!(
        decide_rename_profile(&s, "web", "b", d, true, false),
        Err("当前正在使用的 profile 不能重命名；请先切换到别的 profile".to_string())
    );
    assert_eq!(decide_rename_profile(&s, "a", "b", d, true, false), Ok(("C:\\p\\a".to_string(), "C:\\p\\b".to_string())));
    // Remove: the active profile first, then the disk.
    assert_eq!(
        decide_remove_profile(&s, "web", d, true),
        Err("当前正在使用的 profile 不能删除；请先切换到别的 profile".to_string())
    );
    assert_eq!(decide_remove_profile(&s, "a", d, false), Err("profile 不存在: a".to_string()));
    assert_eq!(decide_remove_profile(&s, "a", d, true), Ok("C:\\p\\a".to_string()));
}

#[test]
fn a_profile_name_with_a_drive_is_not_deleted() {
    let s = Settings::default();
    assert_eq!(decide_remove_profile(&s, "C:x", "C:\\p", true), Err("拒绝删除非 profiles 目录".to_string()));
}

#[test]
fn activating_and_adding_profiles_from_the_disk() {
    let mut s = Settings::default();
    assert_eq!(decide_activate_profile(&mut s, " work ", false), Err("profile 不存在或未初始化".to_string()));
    assert_eq!(s.profile, "web");
    assert_eq!(decide_activate_profile(&mut s, " work ", true), Ok(()));
    assert_eq!(s.profile, "work");
    assert_eq!(decide_activate_profile(&mut s, "a/b", true), Err("profile 名称不能包含路径分隔符".to_string()));
    assert_eq!(s.profile, "work");
    let d = "C:\\p";
    assert_eq!(decide_add_profile(&s, " new ", d, true), Err("profile 已存在: new".to_string()));
    assert_eq!(decide_add_profile(&s, " new ", d, false), Ok(("new".to_string(), "C:\\p\\new".to_string(), false)));
    assert_eq!(decide_add_profile(&s, "work", d, false), Ok(("work".to_string(), "C:\\p\\work".to_string(), true)));
}
