use diskette::command_line::{shell_quote, yandex_binary};
use diskette::command_options::{non_empty_path, CommandOptions};
use diskette::command_request::DiskRequest;

fn options() -> CommandOptions {
    CommandOptions {
        config_file: Some("/home/u/.config/yandex-disk/config.cfg".to_owned()),
        sync_dir: Some(String::new()),
        auth_file: None,
        exclude_dirs: Some("  a,b  ".to_owned()),
        proxy: Some("   ".to_owned()),
        read_only: true,
        overwrite: false,
    }
}

#[test]
fn options_become_arguments_in_order() {
    let mut args = vec!["start".to_owned()];
    options().append_args(&mut args);
    assert_eq!(
        args,
        vec![
            "start",
            "--config=/home/u/.config/yandex-disk/config.cfg",
            "--exclude-dirs=a,b",
            "--read-only",
        ]
    );
    let mut all = Vec::new();
    CommandOptions {
        config_file: None,
        sync_dir: Some("/s".to_owned()),
        auth_file: Some("/a".to_owned()),
        exclude_dirs: None,
        proxy: Some(" auto ".to_owned()),
        read_only: false,
        overwrite: true,
    }
    .append_args(&mut all);
    assert_eq!(all, vec!["--dir=/s", "--auth=/a", "--proxy=auto", "--overwrite"]);
}

#[test]
fn requests_have_labels_and_arguments() {
    let publish = DiskRequest::Publish { options: CommandOptions::default(), path: "my file".to_owned() };
    assert_eq!(publish.label(), "publish");
    assert_eq!(publish.args(), vec!["publish", "my file"]);
    let token = DiskRequest::Token { auth_file: Some("/p".to_owned()) };
    assert_eq!(token.args(), vec!["token", "/p"]);
    let empty_token = DiskRequest::Token { auth_file: Some(String::new()) };
    assert_eq!(empty_token.args(), vec!["token"]);
    assert_eq!(DiskRequest::Help.args(), vec!["--help"]);
    assert_eq!(DiskRequest::Help.label(), "help");
    let fg = DiskRequest::ForegroundDaemon(CommandOptions { read_only: true, ..CommandOptions::default() });
    assert_eq!(fg.args(), vec!["--no-daemon", "--read-only"]);
    assert_eq!(fg.label(), "foreground daemon");
    let un = DiskRequest::Unpublish { options: CommandOptions::default(), path: "x".to_owned() };
    assert_eq!(un.args(), vec!["unpublish", "x"]);
}

#[test]
fn command_line_quotes_each_word() {
    let publish = DiskRequest::Publish { options: CommandOptions::default(), path: "it's mine".to_owned() };
    assert_eq!(
        publish.command_line("/opt/yandex disk/bin"),
        "'/opt/yandex disk/bin' publish 'it'\\''s mine'"
    );
    assert_eq!(DiskRequest::Help.command_line("yandex-disk"), "yandex-disk --help");
}

#[test]
fn shell_quote_leaves_safe_words_alone() {
    assert_eq!(shell_quote("--dir=/home/u/Yandex.Disk"), "--dir=/home/u/Yandex.Disk");
    assert_eq!(shell_quote("a b"), "'a b'");
    assert_eq!(shell_quote(""), "");
    assert_eq!(shell_quote("'"), "''\\'''");
    assert_eq!(shell_quote("Яндекс"), "'Яндекс'");
}

#[test]
fn binary_is_chosen_from_override_then_flatpak_then_path() {
    assert_eq!(yandex_binary(Some("/x/yd".to_owned()), true), "/x/yd");
    assert_eq!(yandex_binary(Some("  ".to_owned()), true), "/app/extra/usr/bin/yandex-disk");
    assert_eq!(yandex_binary(None, false), "yandex-disk");
}

#[test]
fn empty_paths_are_left_out() {
    let empty = String::new();
    let full = "/a".to_owned();
    assert_eq!(non_empty_path(Some(&empty)), None);
    assert_eq!(non_empty_path(Some(&full)), Some(&full));
    assert_eq!(non_empty_path(None), None);
}
