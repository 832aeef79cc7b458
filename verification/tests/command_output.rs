use diskette::command_output::{
    daemon_status_from_output, first_non_empty_line, unquote_cli_value, DaemonStatus, DiskOutput,
    StorageStatus,
};
use diskette::command_request::DiskRequest;
use diskette::command_options::CommandOptions;
use diskette::i18n::Locale;
use diskette::size::{parse_size_to_bytes, Decimal, Fraction, ParsedSize, Share};
use diskette::ui::storage_view;

/// The digits of a decimal and the value of its exponent.
fn parts(d: &Decimal) -> (String, i128) {
    let x: i128 = d.exponent.digits.parse().unwrap();
    let e = if d.exponent.negative { -x } else { x } - d.exponent.less as i128;
    (d.digits.clone(), e)
}

fn p(digits: &str, exponent: i128) -> (String, i128) {
    (digits.to_owned(), exponent)
}

fn ratio(s: Option<Share>) -> Fraction {
    match s {
        Some(Share::Ratio(f)) => f,
        other => panic!("not a ratio: {other:?}"),
    }
}

fn share(f: &Fraction) -> f64 {
    let (n, en) = parts(&f.numerator);
    let (d, ed) = parts(&f.denominator);
    n.parse::<f64>().unwrap() / d.parse::<f64>().unwrap() * 10f64.powi((en - ed) as i32)
}

fn storage(used: &str, total: &str) -> StorageStatus {
    StorageStatus::parse(&format!("Total: {total}\nUsed: {used}\nAvailable: 0 B")).unwrap()
}

#[test]
fn parses_storage_status_from_yandex_disk_status_output() {
    let output = DiskOutput::new(
        "status".to_owned(),
        "yandex-disk status".to_owned(),
        true,
        Some(0),
        "Synchronization core status: idle
Path to Yandex.Disk directory: '/home/user/Yandex.Disk'
\tTotal: 30 GB
\tUsed: 38.93 MB
\tAvailable: 29.96 GB
\tMax file size: 1024 MB
\tTrash size: 0 B
"
        .to_owned(),
        String::new(),
        false,
    );

    let storage = output.storage_status().expect("storage details");

    assert_eq!(storage.path.as_deref(), Some("/home/user/Yandex.Disk"));
    assert_eq!(storage.total, "30 GB");
    assert_eq!(storage.used, "38.93 MB");
    assert_eq!(storage.available, "29.96 GB");
    assert_eq!(storage.max_file_size.as_deref(), Some("1024 MB"));
    assert_eq!(storage.trash_size.as_deref(), Some("0 B"));
    assert!(storage
        .used_fraction()
        .is_some_and(|value| matches!(&value, Share::Ratio(f) if share(f) > 0.0)));
}

#[test]
fn ignores_non_status_output_for_storage_status() {
    let output = DiskOutput::new(
        "sync".to_owned(),
        "yandex-disk sync".to_owned(),
        true,
        Some(0),
        "Directory synced".to_owned(),
        String::new(),
        false,
    );

    assert_eq!(output.storage_status(), None);
}

#[test]
fn successful_status_means_daemon_is_running() {
    let output = DiskOutput::new(
        "status".to_owned(),
        "yandex-disk status".to_owned(),
        true,
        Some(0),
        "Synchronization core status: idle".to_owned(),
        String::new(),
        false,
    );

    assert_eq!(output.daemon_status(), Some(DaemonStatus::Running));
}

#[test]
fn failed_status_means_daemon_is_stopped() {
    let output = DiskOutput::new(
        "status".to_owned(),
        "yandex-disk status".to_owned(),
        false,
        Some(1),
        String::new(),
        "Error: daemon is not running".to_owned(),
        false,
    );

    assert_eq!(output.daemon_status(), Some(DaemonStatus::Stopped));
}

#[test]
fn daemon_control_commands_report_expected_states() {
    let started = DiskOutput::new(
        "start".to_owned(),
        "yandex-disk start".to_owned(),
        true,
        Some(0),
        String::new(),
        String::new(),
        false,
    );
    let stopped = DiskOutput::new(
        "stop".to_owned(),
        "yandex-disk stop".to_owned(),
        true,
        Some(0),
        String::new(),
        String::new(),
        false,
    );
    let already_running = DiskOutput::new(
        "start".to_owned(),
        "yandex-disk start".to_owned(),
        false,
        Some(1),
        String::new(),
        "Daemon is already running".to_owned(),
        false,
    );

    assert_eq!(started.daemon_status(), Some(DaemonStatus::Running));
    assert_eq!(stopped.daemon_status(), Some(DaemonStatus::Stopped));
    assert_eq!(already_running.daemon_status(), Some(DaemonStatus::Running));
}

fn output(label: &str, success: bool, stdout: &str, stderr: &str) -> DiskOutput {
    DiskOutput::new(
        label.to_owned(),
        format!("yandex-disk {label}"),
        success,
        if success { Some(0) } else { Some(1) },
        stdout.to_owned(),
        stderr.to_owned(),
        false,
    )
}

#[test]
fn failed_control_commands_are_read_from_their_text() {
    assert_eq!(
        output("stop", false, "", "Daemon not running").daemon_status(),
        Some(DaemonStatus::Stopped)
    );
    assert_eq!(
        output("foreground daemon", false, "", "демон уже запущен").daemon_status(),
        Some(DaemonStatus::Running)
    );
    // Only ASCII letters are lowered before the words are compared.
    assert_eq!(output("start", false, "", "Демон уже запущен").daemon_status(), None);
    assert_eq!(output("start", false, "", "Something else").daemon_status(), None);
    assert_eq!(output("sync", true, "", "").daemon_status(), None);
    assert_eq!(output("token", false, "", "not running").daemon_status(), None);
}

#[test]
fn stopped_words_win_over_running_words() {
    assert_eq!(
        daemon_status_from_output("Synchronization core status: idle", "not started"),
        Some(DaemonStatus::Stopped)
    );
    assert_eq!(
        daemon_status_from_output("DAEMON IS RUNNING", ""),
        Some(DaemonStatus::Running)
    );
    assert_eq!(daemon_status_from_output("", ""), None);
}

#[test]
fn storage_status_needs_total_used_and_available() {
    assert_eq!(StorageStatus::parse("Total: 1 GB\nUsed: 1 MB\n"), None);
    let s = StorageStatus::parse("  TOTAL : 2 GB \nused:1 GB\nAvailable: 1 GB\nused: 3 MB").unwrap();
    assert_eq!(s.total, "2 GB");
    assert_eq!(s.used, "3 MB");
    assert_eq!(s.path, None);
    assert_eq!(s.max_file_size, None);
}

#[test]
fn failed_status_has_no_storage() {
    let o = output("status", false, "Total: 1 GB\nUsed: 1 GB\nAvailable: 0 B\n", "");
    assert_eq!(o.storage_status(), None);
}

#[test]
fn used_fraction_is_an_exact_clamped_share() {
    // 38.93 MiB of 30 GiB.
    let f = ratio(storage("38.93 MB", "30 GB").used_fraction());
    assert_eq!(parts(&f.numerator), p("4082106368", -2));
    assert_eq!(parts(&f.denominator), p("32212254720", 0));
    assert!((share(&f) - 38.93 / (30.0 * 1024.0)).abs() < 1e-12);
    let f = ratio(storage("2,5 KB", "1 KB").used_fraction());
    assert_eq!(f.numerator, f.denominator);
    assert_eq!(parts(&f.denominator), p("1024", 0));
    let f = ratio(storage("-3 B", "1 KB").used_fraction());
    assert_eq!(parts(&f.numerator), p("0", 0));
    assert_eq!(storage("0 B", "0 B").used_fraction(), None);
    assert_eq!(storage("0 B", "-1 KB").used_fraction(), None);
    assert_eq!(storage("0 B", "1 PB").used_fraction(), None);
    let f = ratio(storage("1 kib", "2048").used_fraction());
    assert_eq!((parts(&f.numerator), parts(&f.denominator)), (p("1024", 0), p("2048", 0)));
}

#[test]
fn sizes_are_read_in_every_finite_number_form() {
    let f = ratio(storage("1e3 B", "2E+3 B").used_fraction());
    assert_eq!((parts(&f.numerator), parts(&f.denominator)), (p("1", 3), p("2", 3)));
    let f = ratio(storage("123456789012345678901234567890 B", "1e30").used_fraction());
    assert_eq!(parts(&f.numerator), p("123456789012345678901234567890", 0));
    assert_eq!(parts(&f.denominator), p("1", 30));
    let f = ratio(storage(".5 KB", "1. KB").used_fraction());
    assert_eq!((parts(&f.numerator), parts(&f.denominator)), (p("5120", -1), p("1024", 0)));
    let f = ratio(storage("007 B", "0010 B").used_fraction());
    assert_eq!((parts(&f.numerator), parts(&f.denominator)), (p("7", 0), p("10", 0)));
    let f = ratio(storage("25e-1 GB", "+1e-3 TB").used_fraction());
    assert_eq!(f.numerator, f.denominator);
    for bad in ["1e B", "e5 B", "1e5.0 B", ". B", "1.2.3 B", "infinit B", "nana B", "-+1 B"] {
        assert_eq!(storage(bad, "1 GB").used_fraction(), None, "{bad}");
    }
}

#[test]
fn exponents_of_any_size_are_read_exactly() {
    let f = ratio(storage("1e-1000000000000000001 B", "1 GB").used_fraction());
    assert!(f.numerator.exponent.negative);
    assert_eq!(f.numerator.exponent.digits, "1000000000000000001");
    assert_eq!(f.numerator.digits, "1");
    let f = ratio(storage("1e99999999999999999999999999999999999999 B", "1 GB").used_fraction());
    assert_eq!(f.numerator, f.denominator);
    let big = "100000000000000000000000000000000000000";
    let f = ratio(storage(&format!("5e{big} B"), &format!("4e{big} B")).used_fraction());
    assert_eq!(f.numerator, f.denominator);
    let f = ratio(storage(&format!("3e{big} B"), &format!("4e{big} B")).used_fraction());
    assert_eq!(f.numerator.digits, "3");
    // 9e(N-1) is less than 1eN, and 11e(N-1) more.
    let f = ratio(
        storage("9e99999999999999999999999999999999999999 B", &format!("1e{big} B")).used_fraction(),
    );
    assert_eq!(f.numerator.digits, "9");
    let f = ratio(
        storage("11e99999999999999999999999999999999999999 B", &format!("1e{big} B")).used_fraction(),
    );
    assert_eq!(f.numerator, f.denominator);
    let f = ratio(storage(&format!("1e-{big} B"), &format!("1e-{big}1 B")).used_fraction());
    assert_eq!(f.numerator, f.denominator);
}

#[test]
fn infinity_and_not_a_number_follow_floating_point() {
    let f = ratio(storage("inf B", "1 GB").used_fraction());
    assert_eq!(f.numerator, f.denominator);
    let f = ratio(storage("-Infinity B", "1 GB").used_fraction());
    assert_eq!(parts(&f.numerator), p("0", 0));
    assert_eq!(storage("nan B", "1 GB").used_fraction(), Some(Share::NotANumber));
    let f = ratio(storage("5 GB", "INF B").used_fraction());
    assert_eq!((parts(&f.numerator), parts(&f.denominator)), (p("0", 0), p("1", 0)));
    assert_eq!(storage("inf B", "inf B").used_fraction(), Some(Share::NotANumber));
    assert_eq!(storage("NaN B", "+infinity B").used_fraction(), Some(Share::NotANumber));
    assert_eq!(storage("1 B", "-inf B").used_fraction(), None);
    assert_eq!(storage("1 B", "NaN B").used_fraction(), None);
    assert_eq!(storage("1 B", "inf PB").used_fraction(), None);
}

#[test]
fn sizes_multiply_by_powers_of_1024() {
    match parse_size_to_bytes("-1.5 TiB").unwrap() {
        ParsedSize::Finite { negative, digits, exp_negative, exp_digits, less } => {
            assert!(negative);
            assert_eq!(digits.iter().collect::<String>(), "16492674416640");
            assert!(!exp_negative);
            assert_eq!(exp_digits.iter().collect::<String>(), "0");
            assert_eq!(less, 1);
        }
        other => panic!("{other:?}"),
    }
    match parse_size_to_bytes("0 GB extra words").unwrap() {
        ParsedSize::Finite { digits, .. } => assert!(digits.is_empty()),
        other => panic!("{other:?}"),
    }
    assert_eq!(parse_size_to_bytes("-inf KB"), Some(ParsedSize::Infinite(true)));
    assert_eq!(parse_size_to_bytes("12 parsecs"), None);
    assert_eq!(parse_size_to_bytes("   "), None);
}

#[test]
fn storage_card_shows_the_figures() {
    let view = storage_view(&storage("38.93 MB", "30 GB"));
    assert_eq!(view.title, "38.93 MB / 30 GB");
    assert_eq!(view.detail, "0 B");
    assert_eq!(view.bar_text, "38.93 MB");
    assert!(matches!(view.share, Some(Share::Ratio(_))));
    assert_eq!(storage_view(&storage("1 B", "0 B")).share, None);
}

#[test]
fn summary_prefers_the_stream_that_matters() {
    assert_eq!(output("sync", true, "\n  done  \nmore", "warn").summary(Locale::English), "done");
    assert_eq!(output("sync", true, "  ", "warn\n").summary(Locale::English), "warn");
    assert_eq!(output("sync", false, "out", "\n err").summary(Locale::English), "err");
    assert_eq!(
        output("sync", true, "", "").summary(Locale::English),
        "The command finished successfully."
    );
    assert_eq!(output("sync", false, "", "").summary(Locale::English), "The command failed.");
}

#[test]
fn log_entry_lists_command_outcome_and_streams() {
    let o = output("sync", true, "line one\n\n", "");
    assert_eq!(
        o.format_for_log(Locale::English),
        "$ yandex-disk sync\n[success; exit 0; sync]\n\nstdout:\nline one\n"
    );
    let mut failed = output("stop", false, "", "  bad\n");
    failed.exit_code = Some(-2);
    assert_eq!(
        failed.format_for_log(Locale::English),
        "$ yandex-disk stop\n[failed; exit -2; stop]\n\nstderr:\n  bad\n"
    );
    let mut streamed = output("token", true, "x", "y");
    streamed.streamed = true;
    streamed.exit_code = None;
    assert_eq!(
        streamed.format_for_log(Locale::English),
        "$ yandex-disk token\n[success; no exit code; token]\n"
    );
}

#[test]
fn failed_output_carries_the_error() {
    let o = DiskOutput::failed("status", "yandex-disk status".to_owned(), "boom".to_owned());
    assert!(!o.success);
    assert_eq!(o.exit_code, None);
    assert_eq!(o.stderr, "boom");
    assert_eq!(o.stdout, "");
}

#[test]
fn output_for_request_uses_its_label_and_command_line() {
    let request = DiskRequest::Status(CommandOptions::default());
    let o = DiskOutput::for_request(&request, "/usr/bin/yandex-disk", true, Some(0), "a".to_owned(), String::new());
    assert_eq!(o.label, "status");
    assert_eq!(o.command_line, "/usr/bin/yandex-disk status");
    assert!(!o.streamed);
}

#[test]
fn first_line_and_cli_values() {
    assert_eq!(first_non_empty_line(" \n\t\n x y \n"), Some("x y".to_owned()));
    assert_eq!(first_non_empty_line(" \n"), None);
    assert_eq!(unquote_cli_value(" '/a b' "), "/a b");
    assert_eq!(unquote_cli_value("'"), "'");
    assert_eq!(unquote_cli_value("''"), "");
    assert_eq!(unquote_cli_value("plain"), "plain");
}
