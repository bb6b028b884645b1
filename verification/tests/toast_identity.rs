use dsh_desktop::toast::{icon_dir, identity_command, toast_icon_path};

#[test]
fn toast_icon_goes_to_local_app_data_first() {
    let s = |x: &str| Some(x.to_string());
    assert_eq!(icon_dir(s("C:\\L"), s("C:\\T"), s("C:\\X")), s("C:\\L\\DSH Desktop"));
    assert_eq!(icon_dir(None, s("C:\\T"), s("C:\\X")), s("C:\\T\\DSH Desktop"));
    assert_eq!(icon_dir(None, None, s("C:\\X\\")), s("C:\\X\\DSH Desktop"));
    assert_eq!(icon_dir(None, None, None), None);
}

#[test]
fn identity_is_registered_with_reg_add() {
    assert_eq!(
        identity_command("DisplayName", "DSH Desktop"),
        vec!["add", "HKCU\\Software\\Classes\\AppUserModelId\\io.dsh.desktop", "/v", "DisplayName", "/t", "REG_SZ", "/d", "DSH Desktop", "/f"]
    );
}

#[test]
fn toast_icon_path_uses_forward_slashes() {
    assert_eq!(toast_icon_path("C:\\L\\DSH Desktop\\icon.png"), "C:/L/DSH Desktop/icon.png");
    assert_eq!(toast_icon_path("plain"), "plain");
}
