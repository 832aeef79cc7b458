use diskette::command_options::CommandOptions;
use diskette::command_output::DiskOutput;
use diskette::command_request::DiskRequest;
use diskette::i18n::Locale;
use diskette::services::{
    extract_url, first_url, foreground_daemon_output, handle_stream_chunk, prepare_request,
    request_output, run_mode, DiskProgress, OutputStream, Preparation, RunMode, RunOutcome,
    StreamChunk, TokenStream,
};
use diskette::setup::SetupSave;
use diskette::setup_storage::HostPaths;
use diskette::ui::{
    activity_title, auth_page_message, command_proxy_mode, command_proxy_value, optional_text,
    plan_event, plan_events, published_link, setup_proxy_mode, setup_proxy_value, sharing_request,
    startup_plan, status_view, OptionForm, SetupForm, SharingAction, StatusClass, UiEvent,
};

fn output(label: &str, success: bool, stdout: &str, stderr: &str) -> DiskOutput {
    DiskOutput::new(
        label.to_owned(),
        format!("yandex-disk {label}"),
        success,
        Some(if success { 0 } else { 1 }),
        stdout.to_owned(),
        stderr.to_owned(),
        false,
    )
}

#[test]
fn urls_are_found_without_punctuation() {
    assert_eq!(
        extract_url("Go to ‘https://ya.ru/device’, then enter the code."),
        Some("https://ya.ru/device".to_owned())
    );
    assert_eq!(extract_url("no links here"), None);
    assert_eq!(first_url("Link: (http://yadi.sk/d/abc)."), Some("http://yadi.sk/d/abc".to_owned()));
    assert_eq!(first_url("[https://x.y]"), None);
}

#[test]
fn auth_url_is_reported_once() {
    let mut state = TokenStream::new();
    let first = handle_stream_chunk(&mut state, StreamChunk { stream: OutputStream::Stdout, text: "Open htt".to_owned() });
    assert_eq!(first.auth_url, None);
    let second = handle_stream_chunk(&mut state, StreamChunk { stream: OutputStream::Stdout, text: "ps://oauth.yandex.ru/x now\n".to_owned() });
    assert_eq!(second.auth_url.as_deref(), Some("https://oauth.yandex.ru/x"));
    assert_eq!(second.text, "ps://oauth.yandex.ru/x now\n");
    let third = handle_stream_chunk(&mut state, StreamChunk { stream: OutputStream::Stderr, text: "https://other".to_owned() });
    assert_eq!(third.auth_url, None);
    assert!(state.opened_auth_url);
    assert_eq!(state.stdout, "Open https://oauth.yandex.ru/x now\n");
    assert_eq!(state.stderr, "https://other");
    let done = state.finish("yandex-disk token".to_owned(), true, Some(0));
    assert!(done.streamed);
    assert_eq!(done.label, "token");
}

#[test]
fn requests_are_prepared_and_run_by_kind() {
    let token = DiskRequest::Token { auth_file: Some("/a/passwd".to_owned()) };
    assert!(matches!(prepare_request(&token), Preparation::CreateParentOf(p) if p == "/a/passwd"));
    assert_eq!(run_mode(&token), RunMode::Streamed);
    let sync = DiskRequest::Sync(CommandOptions { sync_dir: Some("/s".to_owned()), ..CommandOptions::default() });
    assert!(matches!(prepare_request(&sync), Preparation::CreateDir(p) if p == "/s"));
    assert_eq!(run_mode(&sync), RunMode::Blocking);
    assert!(matches!(prepare_request(&DiskRequest::Help), Preparation::Nothing));
    let fg = DiskRequest::ForegroundDaemon(CommandOptions::default());
    assert!(matches!(prepare_request(&fg), Preparation::Nothing));
    assert_eq!(run_mode(&fg), RunMode::Detached);
}

#[test]
fn foreground_launch_reports_the_pid() {
    let o = foreground_daemon_output(CommandOptions::default(), "yandex-disk", Locale::English, 4242);
    assert_eq!(o.stdout, "Foreground daemon launched with PID 4242.");
    assert_eq!(o.command_line, "yandex-disk --no-daemon");
    assert!(o.success);
    assert_eq!(o.exit_code, None);
}

#[test]
fn form_values_are_trimmed_and_proxies_chosen() {
    assert_eq!(optional_text("  x "), Some("x".to_owned()));
    assert_eq!(optional_text(" \t "), None);
    assert_eq!(command_proxy_value(0, "m"), None);
    assert_eq!(command_proxy_value(1, "m").as_deref(), Some("auto"));
    assert_eq!(command_proxy_value(3, " m "), Some("m".to_owned()));
    assert_eq!(setup_proxy_value(0, "m").as_deref(), Some("auto"));
    assert_eq!(setup_proxy_value(1, "m").as_deref(), Some("no"));
    assert_eq!(setup_proxy_value(2, ""), None);
    assert_eq!(setup_proxy_value(7, "m"), None);
    let auto = "AUTO".to_owned();
    let manual = "http,h,1".to_owned();
    assert_eq!(command_proxy_mode(Some(&auto)), Some(1));
    assert_eq!(command_proxy_mode(Some(&manual)), Some(3));
    assert_eq!(command_proxy_mode(None), None);
    assert_eq!(setup_proxy_mode(Some(&auto)), Some(0));
    assert_eq!(setup_proxy_mode(Some(&"No".to_owned())), Some(1));
    assert_eq!(setup_proxy_mode(Some(&manual)), Some(2));
}

#[test]
fn forms_read_into_options_and_configuration() {
    let form = OptionForm {
        config_file: " ".to_owned(),
        sync_dir: " /s ".to_owned(),
        auth_file: String::new(),
        exclude_dirs: "a".to_owned(),
        proxy_mode: 2,
        proxy: String::new(),
        read_only: false,
        overwrite: true,
    };
    let o = form.read();
    assert_eq!(o.config_file, None);
    assert_eq!(o.sync_dir.as_deref(), Some("/s"));
    assert_eq!(o.proxy.as_deref(), Some("no"));
    let h = HostPaths { config_dir: None, home_dir: Some("/h".to_owned()), flatpak: false };
    let setup = SetupForm {
        sync_dir: String::new(),
        auth_file: "/my/passwd".to_owned(),
        exclude_dirs: " ".to_owned(),
        proxy_mode: 0,
        proxy: String::new(),
        autostart: true,
    };
    let c = setup.read(&h);
    assert_eq!(c.sync_dir, "/h/Yandex.Disk");
    assert_eq!(c.auth_file, "/my/passwd");
    assert_eq!(c.exclude_dirs, None);
    assert_eq!(c.proxy.as_deref(), Some("auto"));
    assert_eq!(setup.sync_dir_or_default(&h), "/h/Yandex.Disk");
}

#[test]
fn sharing_needs_a_path() {
    let r = sharing_request(SharingAction::Publish, CommandOptions::default(), " doc.txt ", Locale::English);
    assert!(matches!(r, Ok(DiskRequest::Publish { path, .. }) if path == "doc.txt"));
    let e = sharing_request(SharingAction::Unpublish, CommandOptions::default(), "  ", Locale::English);
    assert_eq!(e.err().as_deref(), Some("Choose a file or folder to unpublish."));
}

#[test]
fn status_display_follows_the_command() {
    let v = status_view(&output("token", true, "", ""), Locale::English).unwrap();
    assert_eq!(v.title, "Yandex Disk connected");
    assert_eq!(v.class, StatusClass::Success);
    assert_eq!(v.class.css_class(), "diskette-status-success");
    let v = status_view(&output("status", false, "", "daemon not running"), Locale::English).unwrap();
    assert_eq!(v.title, "Status check failed");
    assert_eq!(v.detail, "daemon not running");
    assert_eq!(v.header, "Error");
    let v = status_view(&output("sync", true, "ok", ""), Locale::English).unwrap();
    assert_eq!(v.class, StatusClass::Warning);
    assert!(status_view(&output("publish", true, "", ""), Locale::English).is_none());
    assert_eq!(activity_title(&output("sync", true, "", ""), Locale::English), "Last action: sync");
}

#[test]
fn published_link_only_after_publish() {
    assert_eq!(
        published_link(&output("publish", true, "", "https://yadi.sk/i/xyz.")).as_deref(),
        Some("https://yadi.sk/i/xyz")
    );
    assert_eq!(published_link(&output("publish", false, "https://a.b", "")), None);
    assert_eq!(published_link(&output("sync", true, "https://a.b", "")), None);
}

#[test]
fn events_are_planned() {
    let plan = plan_event(UiEvent::CommandFinished(output("token", true, "", "")), Locale::English);
    assert!(plan.reveal_dashboard);
    assert!(plan.status.is_some());
    let plan = plan_event(
        UiEvent::CommandProgress(DiskProgress { text: "x".to_owned(), auth_url: Some("https://a".to_owned()) }),
        Locale::English,
    );
    assert_eq!(plan.log, "x");
    assert_eq!(plan.open_auth_url.as_deref(), Some("https://a"));
    let save = SetupSave { config_file: "/c".to_owned(), autostart_file: "/d".to_owned(), autostart_enabled: true };
    let plan = plan_event(UiEvent::TokenSetupSaved { auth_file: "/p".to_owned(), result: Ok(save) }, Locale::English);
    assert_eq!(plan.log, "Configuration saved: /c\nAutostart file: /d\n");
    assert!(matches!(plan.follow_up, Some(DiskRequest::Token { auth_file: Some(p) }) if p == "/p"));
    let plan = plan_event(UiEvent::SetupSaved(Err("denied".to_owned())), Locale::English);
    assert_eq!(plan.log, "Could not save the configuration: denied\n");
    assert!(plan.follow_up.is_none());
    assert_eq!(
        auth_page_message("https://a", None, Locale::English),
        "Opening the authentication page: https://a\n"
    );
    assert_eq!(
        auth_page_message("https://a", Some(&"no browser".to_owned()), Locale::English),
        "Could not open the authentication page https://a: no browser\n"
    );
}

#[test]
fn events_are_planned_in_the_order_sent() {
    let progress = |text: &str| {
        UiEvent::CommandProgress(DiskProgress { text: text.to_owned(), auth_url: None })
    };
    let plans = plan_events(
        vec![progress("first\n"), UiEvent::SetupSaved(Err("denied".to_owned())), progress("last\n")],
        Locale::English,
    );
    let logs: Vec<&str> = plans.iter().map(|p| p.log.as_str()).collect();
    assert_eq!(logs, vec!["first\n", "Could not save the configuration: denied\n", "last\n"]);
    assert!(plan_events(Vec::new(), Locale::English).is_empty());
}

#[test]
fn startup_depends_on_the_authorization_file() {
    let plan = startup_plan(true, CommandOptions::default(), Locale::English);
    assert!(plan.show_navigation);
    assert_eq!(plan.page, "overview");
    assert!(matches!(plan.request, Some(DiskRequest::Status(_))));
    assert_eq!(plan.log, None);
    let plan = startup_plan(false, CommandOptions::default(), Locale::English);
    assert!(!plan.show_navigation);
    assert_eq!(plan.page, "welcome");
    assert!(plan.request.is_none());
    assert!(plan.log.as_deref().is_some_and(|l| l.ends_with('\n') && l.len() > 1));
}

#[test]
fn every_run_reports_the_request_label_and_command_line() {
    let status = DiskRequest::Status(CommandOptions::default());
    let line = status.command_line("yandex-disk");
    let o = request_output(status.clone(), "yandex-disk", Locale::English, RunOutcome::Failed("boom".to_owned()));
    assert_eq!((o.label.as_str(), o.command_line.as_str()), ("status", line.as_str()));
    assert!(!o.success);
    assert_eq!(o.stderr, "boom");
    let o = request_output(
        status.clone(),
        "yandex-disk",
        Locale::English,
        RunOutcome::Completed { success: true, exit_code: Some(0), stdout: "ok".to_owned(), stderr: String::new() },
    );
    assert_eq!((o.label.as_str(), o.command_line.as_str(), o.stdout.as_str()), ("status", line.as_str(), "ok"));
    let o = request_output(status, "yandex-disk", Locale::English, RunOutcome::Launched(7));
    assert_eq!(o.stderr, "not a foreground daemon request");
    let daemon = DiskRequest::ForegroundDaemon(CommandOptions::default());
    let o = request_output(daemon.clone(), "yandex-disk", Locale::English, RunOutcome::Launched(7));
    assert_eq!(o.label, daemon.label());
    assert!(o.success && o.stdout.ends_with(" 7."));
    let token = DiskRequest::Token { auth_file: None };
    let o = request_output(
        token.clone(),
        "yandex-disk",
        Locale::English,
        RunOutcome::Streamed { stream: TokenStream::new(), success: true, exit_code: Some(0) },
    );
    assert_eq!((o.label.as_str(), o.command_line), ("token", token.command_line("yandex-disk")));
    assert!(o.streamed);
}

#[test]
fn log_entries_end_with_a_line_feed() {
    assert_eq!(diskette::ui::log_entry("a"), "a\n");
    assert_eq!(diskette::ui::log_entry("a\n"), "a\n");
    assert_eq!(diskette::ui::log_entry(""), "\n");
}
