use diskette::setup::SetupConfig;
use diskette::setup_storage::{
    autostart_contents, autostart_file, config_file, default_sync_dir, join_path_text,
    parse_value, quote_value, unquote_value, yandex_config_dir, HostPaths,
};

fn host(flatpak: bool) -> HostPaths {
    HostPaths {
        config_dir: Some("/home/u/.config".to_owned()),
        home_dir: Some("/home/u".to_owned()),
        flatpak,
    }
}

#[test]
fn paths_follow_the_host_directories() {
    let h = host(false);
    assert_eq!(yandex_config_dir(&h), "/home/u/.config/yandex-disk");
    assert_eq!(config_file(&h), "/home/u/.config/yandex-disk/config.cfg");
    assert_eq!(default_sync_dir(&h), "/home/u/Yandex.Disk");
    assert_eq!(
        autostart_file(&h),
        "/home/u/.config/autostart/app.diskette.Diskette.yandex-disk.desktop"
    );
    let bare = HostPaths { config_dir: None, home_dir: None, flatpak: false };
    assert_eq!(yandex_config_dir(&bare), "./.config/yandex-disk");
    assert_eq!(default_sync_dir(&bare), "./Yandex.Disk");
    assert_eq!(join_path_text("/root/", "x"), "/root/x");
    assert_eq!(join_path_text("", "x"), "x");
}

#[test]
fn defaults_use_the_config_dir_and_home() {
    let d = SetupConfig::defaults(&host(false));
    assert_eq!(d.auth_file, "/home/u/.config/yandex-disk/passwd");
    assert_eq!(d.sync_dir, "/home/u/Yandex.Disk");
    assert_eq!(d.exclude_dirs, None);
    assert!(!d.autostart);
}

#[test]
fn values_are_quoted_and_unquoted() {
    assert_eq!(quote_value(r#"a"b\c"#), r#""a\"b\\c""#);
    assert_eq!(unquote_value(r#" "a\"b\\c" "#), r#"a"b\c"#);
    assert_eq!(unquote_value("plain "), "plain");
    assert_eq!(unquote_value("\""), "\"");
    for v in ["", "x", "\\", "\"", "\\\"", "a\\\\\"b", " spaced ", "Яндекс"] {
        assert_eq!(unquote_value(&quote_value(v)), v);
    }
}

#[test]
fn parse_value_finds_the_first_setting() {
    let text = "# dir=\"/no\"\n  dir = \"/yes\" \nauth=/p\ndir=\"/later\"\nproxy\n";
    assert_eq!(parse_value(text, "dir").as_deref(), Some("/yes"));
    assert_eq!(parse_value(text, "auth").as_deref(), Some("/p"));
    assert_eq!(parse_value(text, "proxy"), None);
    assert_eq!(parse_value("", "dir"), None);
}

#[test]
fn config_contents_are_written_line_by_line() {
    let c = SetupConfig {
        auth_file: "/a/passwd".to_owned(),
        sync_dir: "/s".to_owned(),
        exclude_dirs: Some(" x,y ".to_owned()),
        proxy: Some("  ".to_owned()),
        autostart: true,
    };
    assert_eq!(
        c.config_contents(),
        "# Path to the authorization data file\nauth=\"/a/passwd\"\n\n# Directory for storing a local copy of Yandex Disk.\ndir=\"/s\"\n\n# Do not sync the specified directories.\nexclude-dirs=\"x,y\"\n"
    );
}

#[test]
fn saved_configuration_loads_back() {
    let h = host(false);
    let c = SetupConfig {
        auth_file: "/a/pass \"w\"d".to_owned(),
        sync_dir: "/s\\d".to_owned(),
        exclude_dirs: Some(" x ".to_owned()),
        proxy: Some("https,proxy,80".to_owned()),
        autostart: true,
    };
    let text = c.config_contents();
    let back = SetupConfig::loaded(&h, Some(&text), true);
    assert_eq!(back.auth_file, c.auth_file);
    assert_eq!(back.sync_dir, c.sync_dir);
    assert_eq!(back.exclude_dirs.as_deref(), Some("x"));
    assert_eq!(back.proxy.as_deref(), Some("https,proxy,80"));
    assert!(back.autostart);
}

#[test]
fn flatpak_save_loads_back_whatever_the_home_folder() {
    // A home folder with a line feed spreads the folder's setting over two
    // lines; the other settings still load back.
    let h = HostPaths { config_dir: Some("/c".to_owned()), home_dir: Some("/h\nx".to_owned()), flatpak: true };
    let c = SetupConfig {
        auth_file: "/a".to_owned(),
        sync_dir: "/ignored".to_owned(),
        exclude_dirs: Some("e".to_owned()),
        proxy: None,
        autostart: false,
    };
    let plan = c.save_plan(&h);
    let back = SetupConfig::loaded(&h, Some(&plan.config_contents), false);
    assert_eq!(back.auth_file, "/a");
    assert_eq!(back.sync_dir, c.normalized(&h).sync_dir);
    assert_eq!(back.exclude_dirs.as_deref(), Some("e"));
    assert_eq!(back.proxy, None);
    // Where a later line of the folder's setting reads as a key, it wins.
    let h = HostPaths { config_dir: Some("/c".to_owned()), home_dir: Some("/h\nproxy=p".to_owned()), flatpak: true };
    let plan = c.save_plan(&h);
    let back = SetupConfig::loaded(&h, Some(&plan.config_contents), false);
    assert!(back.proxy.is_some_and(|p| p.starts_with("p/")));
}

#[test]
fn loading_without_a_file_gives_defaults_and_flatpak_keeps_its_folder() {
    let h = host(true);
    let back = SetupConfig::loaded(&h, Some("dir=\"/elsewhere\"\nauth=/x\n"), false);
    assert_eq!(back.sync_dir, "/home/u/Yandex.Disk");
    assert_eq!(back.auth_file, "/x");
    let none = SetupConfig::loaded(&host(false), None, false);
    assert_eq!(none.auth_file, "/home/u/.config/yandex-disk/passwd");
    assert_eq!(none.proxy, None);
}

#[test]
fn save_plan_lists_the_file_work() {
    let c = SetupConfig {
        auth_file: "/a/passwd".to_owned(),
        sync_dir: "/custom".to_owned(),
        exclude_dirs: None,
        proxy: None,
        autostart: false,
    };
    let plan = c.save_plan(&host(true));
    assert_eq!(plan.sync_dir, "/home/u/Yandex.Disk");
    assert_eq!(plan.config_file, "/home/u/.config/yandex-disk/config.cfg");
    assert_eq!(plan.config_dir, "/home/u/.config/yandex-disk");
    assert_eq!(plan.autostart_contents, None);
    assert!(plan.config_contents.contains("dir=\"/home/u/Yandex.Disk\""));
    let on = SetupConfig { autostart: true, ..c };
    let plan = on.save_plan(&host(false));
    assert_eq!(plan.autostart_contents.as_deref(), Some(autostart_contents(false).as_str()));
    assert_eq!(plan.sync_dir, "/custom");
}

#[test]
fn autostart_entry_runs_the_client() {
    assert_eq!(
        autostart_contents(false),
        "[Desktop Entry]\nType=Application\nName=Yandex Disk Sync\nExec=yandex-disk start\nNoDisplay=true\nX-GNOME-Autostart-enabled=true\n"
    );
    assert!(autostart_contents(true)
        .contains("Exec=flatpak run --command=/app/extra/usr/bin/yandex-disk app.diskette.Diskette start\n"));
}
