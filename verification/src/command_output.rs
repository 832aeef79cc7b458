//! The result of a command: how it is summarised and logged, and what it
//! tells about the daemon and the storage.
use vstd::prelude::*;

use crate::command_options::opt_view;
use crate::command_request::{command_line_of, label_of, DiskRequest};
use crate::i18n::{text_chars, translate, Locale};
use crate::size::{share_parts, used_share, used_share_of, Share};
use crate::text::{
    chars_of, contains, extend, extend_str, has_prefix, has_substring, is_text, lines, lower,
    lower_chars, next_line, signed_decimal, signed_decimal_chars, slice, split_once, starts_with,
    string_of, trim, trim_bounds, trim_end_by, trimmed, CharClass, find_char,
};

verus! {

/// What a finished command produced.
#[derive(Clone, Debug)]
pub struct DiskOutput {
    pub label: String,
    pub command_line: String,
    pub success: bool,
    pub exit_code: Option<i32>,
    pub stdout: String,
    pub stderr: String,
    /// Whether the output was already shown while the command ran.
    pub streamed: bool,
}

/// Storage figures reported by `yandex-disk status`.
#[derive(Clone, Debug, PartialEq)]
pub struct StorageStatus {
    pub path: Option<String>,
    pub total: String,
    pub used: String,
    pub available: String,
    pub max_file_size: Option<String>,
    pub trash_size: Option<String>,
}

#[derive(Clone, Copy, Debug, PartialEq, Eq, Structural)]
pub enum DaemonStatus {
    Running,
    Stopped,
}

// ---------------------------------------------------------------------------
// Specifications
// ---------------------------------------------------------------------------

/// The first line that is not blank, trimmed.
pub open spec fn first_filled(ls: Seq<Seq<char>>) -> Option<Seq<char>>
    decreases ls.len(),
{
    if ls.len() == 0 {
        None
    } else if trim(ls[0]).len() > 0 {
        Some(trim(ls[0]))
    } else {
        first_filled(ls.drop_first())
    }
}

pub open spec fn first_non_empty(t: Seq<char>) -> Option<Seq<char>> {
    first_filled(lines(t))
}

/// The one-line summary of an output: the first non-blank line of the
/// stream that matters (stdout on success, stderr on failure), else of the
/// other stream, else a generic message.
pub open spec fn summary_of(o: DiskOutput, locale: Locale) -> Seq<char> {
    let (first, second, fallback) = if o.success {
        (o.stdout@, o.stderr@, "command_finished_successfully"@)
    } else {
        (o.stderr@, o.stdout@, "command_failed_sentence"@)
    };
    match first_non_empty(first) {
        Some(l) => l,
        None => match first_non_empty(second) {
            Some(l) => l,
            None => translate(locale, fallback),
        },
    }
}

/// A titled block of a stream in the log, when the stream is not blank.
pub open spec fn stream_block(locale: Locale, title: Seq<char>, s: Seq<char>) -> Seq<char> {
    if trim(s).len() > 0 {
        "\n"@ + translate(locale, title) + "\n"@ + trim_end_by(s, CharClass::Space) + "\n"@
    } else {
        Seq::empty()
    }
}

/// The log entry of an output: the command line, a bracketed line with the
/// outcome, the exit code and the label, then, unless the output was
/// streamed, the non-blank streams.
pub open spec fn log_of(o: DiskOutput, locale: Locale) -> Seq<char> {
    let status = translate(locale, if o.success { "success"@ } else { "failed"@ });
    let code = match o.exit_code {
        Some(c) => "exit "@ + signed_decimal(c as int),
        None => translate(locale, "no_exit_code"@),
    };
    let head = "$ "@ + o.command_line@ + "\n["@ + status + "; "@ + code + "; "@ + o.label@
        + "]\n"@;
    if o.streamed {
        head
    } else {
        head + stream_block(locale, "stdout_label"@, o.stdout@) + stream_block(
            locale,
            "stderr_label"@,
            o.stderr@,
        )
    }
}

/// `unquote_cli_value`: trimmed, and without surrounding single quotes.
pub open spec fn unquote_cli(v: Seq<char>) -> Seq<char> {
    let t = trim(v);
    if t.len() >= 2 && t[0] == '\'' && t.last() == '\'' {
        t.subrange(1, t.len() - 1)
    } else {
        t
    }
}

/// The storage fields found so far while reading `status` output.
pub struct StatusFields {
    pub path: Option<Seq<char>>,
    pub total: Option<Seq<char>>,
    pub used: Option<Seq<char>>,
    pub available: Option<Seq<char>>,
    pub max_file_size: Option<Seq<char>>,
    pub trash_size: Option<Seq<char>>,
}

pub open spec fn no_fields() -> StatusFields {
    StatusFields {
        path: None,
        total: None,
        used: None,
        available: None,
        max_file_size: None,
        trash_size: None,
    }
}

pub open spec fn path_prefix() -> Seq<char> {
    "Path to Yandex.Disk directory:"@
}

/// How one trimmed line of `status` output updates the fields: the path
/// line sets the path; a `key: value` line with a known key (compared
/// trimmed and with ASCII letters lowered) sets that field to the trimmed
/// value; anything else changes nothing. A later line wins.
pub open spec fn read_status_line(f: StatusFields, line: Seq<char>) -> StatusFields {
    if starts_with(line, path_prefix()) {
        StatusFields { path: Some(unquote_cli(trim(line.skip(path_prefix().len() as int)))), ..f }
    } else {
        match split_once(line, ':') {
            None => f,
            Some((k, v)) => {
                let key = lower(trim(k));
                let value = Some(trim(v));
                if key == "total"@ {
                    StatusFields { total: value, ..f }
                } else if key == "used"@ {
                    StatusFields { used: value, ..f }
                } else if key == "available"@ {
                    StatusFields { available: value, ..f }
                } else if key == "max file size"@ {
                    StatusFields { max_file_size: value, ..f }
                } else if key == "trash size"@ {
                    StatusFields { trash_size: value, ..f }
                } else {
                    f
                }
            },
        }
    }
}

pub open spec fn read_status_lines(f: StatusFields, ls: Seq<Seq<char>>) -> StatusFields
    decreases ls.len(),
{
    if ls.len() == 0 {
        f
    } else {
        read_status_lines(read_status_line(f, trim(ls[0])), ls.drop_first())
    }
}

pub open spec fn status_fields(output: Seq<char>) -> StatusFields {
    read_status_lines(no_fields(), lines(output))
}

/// Whether a storage status carries exactly the given fields.
pub open spec fn storage_matches(s: StorageStatus, f: StatusFields) -> bool {
    &&& opt_view(s.path) == f.path
    &&& f.total == Some(s.total@)
    &&& f.used == Some(s.used@)
    &&& f.available == Some(s.available@)
    &&& opt_view(s.max_file_size) == f.max_file_size
    &&& opt_view(s.trash_size) == f.trash_size
}

/// Whether the parse result for an output is right: a status exactly when
/// total, used and available space were all found, carrying what was found.
pub open spec fn parsed_status(res: Option<StorageStatus>, output: Seq<char>) -> bool {
    let f = status_fields(output);
    match res {
        Some(s) => storage_matches(s, f),
        None => f.total is None || f.used is None || f.available is None,
    }
}

pub open spec fn stopped_markers(t: Seq<char>) -> bool {
    ||| contains(t, "daemon is not running"@)
    ||| contains(t, "daemon not running"@)
    ||| contains(t, "not running"@)
    ||| contains(t, "not started"@)
    ||| contains(t, "демон не запущ"@)
    ||| contains(t, "не запущен"@)
}

pub open spec fn running_markers(t: Seq<char>) -> bool {
    ||| contains(t, "synchronization core status:"@)
    ||| contains(t, "daemon is running"@)
    ||| contains(t, "already running"@)
    ||| contains(t, "демон уже запущ"@)
    ||| contains(t, "демон запущ"@)
}

/// The daemon state read from the words of a command's output: stopped
/// wins over running, and an output that says neither tells nothing.
pub open spec fn status_from_text(stdout: Seq<char>, stderr: Seq<char>) -> Option<DaemonStatus> {
    let t = lower(stdout + "\n"@ + stderr);
    if stopped_markers(t) {
        Some(DaemonStatus::Stopped)
    } else if running_markers(t) {
        Some(DaemonStatus::Running)
    } else {
        None
    }
}

/// The daemon state an output shows: `status` tells it by its success,
/// a successful `start` or foreground launch means running, a successful
/// `stop` means stopped, and a failed daemon command is read from its text.
pub open spec fn daemon_status_of(o: DiskOutput) -> Option<DaemonStatus> {
    let l = o.label@;
    if l == "status"@ {
        if o.success {
            Some(DaemonStatus::Running)
        } else {
            Some(DaemonStatus::Stopped)
        }
    } else if (l == "start"@ || l == "foreground daemon"@) && o.success {
        Some(DaemonStatus::Running)
    } else if l == "stop"@ && o.success {
        Some(DaemonStatus::Stopped)
    } else if l == "start"@ || l == "stop"@ || l == "foreground daemon"@ {
        status_from_text(o.stdout@, o.stderr@)
    } else {
        None
    }
}

/// Law: what a result says of the daemon: a status check that succeeded
/// finds it running and one that failed finds it stopped; a start or a
/// foreground launch that succeeded leaves it running, and a stop that
/// succeeded leaves it stopped, whatever their text says; only a failed
/// start, stop or launch is read from its text; other results say nothing.
pub proof fn lemma_daemon_status_of_results(o: DiskOutput)
    ensures
        o.label@ == "status"@ ==> daemon_status_of(o) == Some(
            if o.success {
                DaemonStatus::Running
            } else {
                DaemonStatus::Stopped
            },
        ),
        (o.label@ == "start"@ || o.label@ == "foreground daemon"@) && o.success ==> daemon_status_of(o)
            == Some(DaemonStatus::Running),
        o.label@ == "stop"@ && o.success ==> daemon_status_of(o) == Some(DaemonStatus::Stopped),
        (o.label@ == "start"@ || o.label@ == "stop"@ || o.label@ == "foreground daemon"@)
            && !o.success ==> daemon_status_of(o) == status_from_text(o.stdout@, o.stderr@),
        o.label@ != "status"@ && o.label@ != "start"@ && o.label@ != "stop"@ && o.label@
            != "foreground daemon"@ ==> daemon_status_of(o) is None,
{
    reveal_strlit("status");
    assert("status"@.len() == 6 && "status"@[2] == 'a');
    reveal_strlit("start");
    assert("start"@.len() == 5 && "start"@[2] == 'a');
    reveal_strlit("stop");
    assert("stop"@.len() == 4 && "stop"@[2] == 'o');
    reveal_strlit("foreground daemon");
    assert("foreground daemon"@.len() == 17 && "foreground daemon"@[2] == 'r');
}

// ---------------------------------------------------------------------------
// Implementation
// ---------------------------------------------------------------------------

fn first_non_empty_chars(t: &Vec<char>) -> (res: Option<Vec<char>>)
    ensures
        match res {
            Some(l) => first_non_empty(t@) == Some(l@),
            None => first_non_empty(t@) is None,
        },
{
    let mut pos: usize = 0;
    assert(t@.skip(0) =~= t@);
    while pos < t.len()
        invariant
            pos <= t.len(),
            first_non_empty(t@) == first_filled(lines(t@.skip(pos as int))),
        decreases t.len() - pos,
    {
        let ghost before = lines(t@.skip(pos as int));
        let (line, next) = next_line(t, pos);
        assert(before[0] == line@);
        assert(before.drop_first() =~= lines(t@.skip(next as int)));
        let tl = trimmed(&line, CharClass::Space);
        if tl.len() > 0 {
            return Some(tl);
        }
        pos = next;
    }
    assert(t@.skip(pos as int) =~= Seq::<char>::empty());
    None
}

/// The first line of `text` that is not blank, trimmed.
pub fn first_non_empty_line(text: &str) -> (res: Option<String>)
    ensures
        match res {
            Some(l) => first_non_empty(text@) == Some(l@),
            None => first_non_empty(text@) is None,
        },
{
    match first_non_empty_chars(&chars_of(text)) {
        Some(l) => Some(string_of(&l)),
        None => None,
    }
}

fn unquote_cli_chars(value: &Vec<char>) -> (res: Vec<char>)
    ensures
        res@ == unquote_cli(value@),
{
    let t = trimmed(value, CharClass::Space);
    if t.len() >= 2 && t[0] == '\'' && t[t.len() - 1] == '\'' {
        slice(&t, 1, t.len() - 1)
    } else {
        t
    }
}

/// Trims a value and removes the single quotes around it, if any.
pub fn unquote_cli_value(value: &str) -> (res: String)
    ensures
        res@ == unquote_cli(value@),
{
    string_of(&unquote_cli_chars(&chars_of(value)))
}

/// Exec counterpart of `StatusFields`.
struct FieldsBuf {
    path: Option<Vec<char>>,
    total: Option<Vec<char>>,
    used: Option<Vec<char>>,
    available: Option<Vec<char>>,
    max_file_size: Option<Vec<char>>,
    trash_size: Option<Vec<char>>,
}

spec fn ov(o: Option<Vec<char>>) -> Option<Seq<char>> {
    match o {
        Some(v) => Some(v@),
        None => None,
    }
}

spec fn fields_of(b: FieldsBuf) -> StatusFields {
    StatusFields {
        path: ov(b.path),
        total: ov(b.total),
        used: ov(b.used),
        available: ov(b.available),
        max_file_size: ov(b.max_file_size),
        trash_size: ov(b.trash_size),
    }
}

fn read_line_into(b: &mut FieldsBuf, line: &Vec<char>)
    ensures
        fields_of(*final(b)) == read_status_line(fields_of(*old(b)), line@),
{
    if has_prefix(line, "Path to Yandex.Disk directory:") {
        let n = chars_of("Path to Yandex.Disk directory:").len();
        let rest = slice(line, n, line.len());
        assert(rest@ =~= line@.skip(path_prefix().len() as int));
        let t = trimmed(&rest, CharClass::Space);
        b.path = Some(unquote_cli_chars(&t));
        return;
    }
    let k = find_char(line, ':', 0);
    assert(line@.skip(0) =~= line@);
    if k == line.len() {
        return;
    }
    let key_raw = slice(line, 0, k);
    let val_raw = slice(line, k + 1, line.len());
    assert(key_raw@ =~= line@.take(k as int));
    assert(val_raw@ =~= line@.skip(k + 1));
    let key = lower_chars(&trimmed(&key_raw, CharClass::Space));
    let value = trimmed(&val_raw, CharClass::Space);
    if is_text(&key, "total") {
        b.total = Some(value);
    } else if is_text(&key, "used") {
        b.used = Some(value);
    } else if is_text(&key, "available") {
        b.available = Some(value);
    } else if is_text(&key, "max file size") {
        b.max_file_size = Some(value);
    } else if is_text(&key, "trash size") {
        b.trash_size = Some(value);
    }
}

fn opt_string(o: Option<Vec<char>>) -> (res: Option<String>)
    ensures
        opt_view(res) == ov(o),
{
    match o {
        Some(v) => Some(string_of(&v)),
        None => None,
    }
}

impl StorageStatus {
    /// The share of the storage in use, clamped to `0..=1`, when the used
    /// and total sizes can be read and the total is positive; not-a-number
    /// where floating-point division gives it.
    pub fn used_fraction(&self) -> (res: Option<Share>)
        ensures
            match res {
                Some(s) => used_share(self.used@, self.total@) == Some(share_parts(s)) && (s matches Share::Ratio(f) ==> f.wf()),
                None => used_share(self.used@, self.total@) is None,
            },
    {
        used_share_of(self.used.as_str(), self.total.as_str())
    }

    /// Reads the storage figures out of `yandex-disk status` output.
    pub fn parse(output: &str) -> (res: Option<StorageStatus>)
        ensures
            parsed_status(res, output@),
    {
        let t = chars_of(output);
        let mut b = FieldsBuf {
            path: None,
            total: None,
            used: None,
            available: None,
            max_file_size: None,
            trash_size: None,
        };
        let mut pos: usize = 0;
        assert(t@.skip(0) =~= t@);
        assert(fields_of(b) == no_fields());
        while pos < t.len()
            invariant
                pos <= t.len(),
                t@ == output@,
                status_fields(output@) == read_status_lines(
                    fields_of(b),
                    lines(t@.skip(pos as int)),
                ),
            decreases t.len() - pos,
        {
            let ghost before = lines(t@.skip(pos as int));
            let (line, next) = next_line(&t, pos);
            assert(before[0] == line@);
            assert(before.drop_first() =~= lines(t@.skip(next as int)));
            let tl = trimmed(&line, CharClass::Space);
            read_line_into(&mut b, &tl);
            pos = next;
        }
        assert(t@.skip(pos as int) =~= Seq::<char>::empty());
        assert(status_fields(output@) == fields_of(b));
        match (b.total, b.used, b.available) {
            (Some(total), Some(used), Some(available)) => Some(
                StorageStatus {
                    path: opt_string(b.path),
                    total: string_of(&total),
                    used: string_of(&used),
                    available: string_of(&available),
                    max_file_size: opt_string(b.max_file_size),
                    trash_size: opt_string(b.trash_size),
                },
            ),
            _ => None,
        }
    }
}

/// Reads the daemon state from a command's output text.
pub fn daemon_status_from_output(stdout: &str, stderr: &str) -> (res: Option<DaemonStatus>)
    ensures
        res == status_from_text(stdout@, stderr@),
{
    let mut all = chars_of(stdout);
    all.push('\n');
    extend_str(&mut all, stderr);
    proof {
        reveal_strlit("\n");
    }
    assert(all@ =~= stdout@ + "\n"@ + stderr@);
    let t = lower_chars(&all);
    if has_substring(&t, "daemon is not running") || has_substring(&t, "daemon not running")
        || has_substring(&t, "not running") || has_substring(&t, "not started") || has_substring(
        &t,
        "демон не запущ",
    ) || has_substring(&t, "не запущен") {
        return Some(DaemonStatus::Stopped);
    }
    if has_substring(&t, "synchronization core status:") || has_substring(&t, "daemon is running")
        || has_substring(&t, "already running") || has_substring(&t, "демон уже запущ")
        || has_substring(&t, "демон запущ") {
        return Some(DaemonStatus::Running);
    }
    None
}

impl DiskOutput {
    pub fn new(
        label: String,
        command_line: String,
        success: bool,
        exit_code: Option<i32>,
        stdout: String,
        stderr: String,
        streamed: bool,
    ) -> (res: DiskOutput)
        ensures
            res == (DiskOutput { label, command_line, success, exit_code, stdout, stderr, streamed }),
    {
        DiskOutput { label, command_line, success, exit_code, stdout, stderr, streamed }
    }

    /// The output of a request that ran to completion with `binary`.
    pub fn for_request(
        request: &DiskRequest,
        binary: &str,
        success: bool,
        exit_code: Option<i32>,
        stdout: String,
        stderr: String,
    ) -> (res: DiskOutput)
        ensures
            res.label@ == label_of(*request),
            res.command_line@ == command_line_of(*request, binary@),
            res.success == success,
            res.exit_code == exit_code,
            res.stdout == stdout,
            res.stderr == stderr,
            !res.streamed,
    {
        DiskOutput::new(
            request.label().to_owned(),
            request.command_line(binary),
            success,
            exit_code,
            stdout,
            stderr,
            false,
        )
    }

    /// The output of a request that could not be run: no exit code, nothing
    /// on stdout and the error message on stderr.
    pub fn failed(label: &str, command_line: String, error: String) -> (res: DiskOutput)
        ensures
            res.label@ == label@,
            res.command_line == command_line,
            !res.success,
            res.exit_code is None,
            res.stdout@ == Seq::<char>::empty(),
            res.stderr == error,
            !res.streamed,
    {
        DiskOutput {
            label: label.to_owned(),
            command_line,
            success: false,
            exit_code: None,
            stdout: String::new(),
            stderr: error,
            streamed: false,
        }
    }

    /// A one-line summary of the output.
    pub fn summary(&self, locale: Locale) -> (res: String)
        ensures
            res@ == summary_of(*self, locale),
    {
        let out = chars_of(self.stdout.as_str());
        let err = chars_of(self.stderr.as_str());
        let (first, second) = if self.success {
            (&out, &err)
        } else {
            (&err, &out)
        };
        match first_non_empty_chars(first) {
            Some(l) => string_of(&l),
            None => match first_non_empty_chars(second) {
                Some(l) => string_of(&l),
                None => {
                    let token = if self.success {
                        "command_finished_successfully"
                    } else {
                        "command_failed_sentence"
                    };
                    string_of(&text_chars(locale, token))
                },
            },
        }
    }

    /// The entry written to the command log for this output.
    pub fn format_for_log(&self, locale: Locale) -> (res: String)
        ensures
            res@ == log_of(*self, locale),
    {
        let status = text_chars(locale, if self.success { "success" } else { "failed" });
        let code = match self.exit_code {
            Some(c) => {
                let mut v = chars_of("exit ");
                let d = signed_decimal_chars(c as i64);
                extend(&mut v, &d);
                v
            },
            None => text_chars(locale, "no_exit_code"),
        };
        let mut log = chars_of("$ ");
        extend_str(&mut log, self.command_line.as_str());
        extend_str(&mut log, "\n[");
        extend(&mut log, &status);
        extend_str(&mut log, "; ");
        extend(&mut log, &code);
        extend_str(&mut log, "; ");
        extend_str(&mut log, self.label.as_str());
        extend_str(&mut log, "]\n");
        if self.streamed {
            return string_of(&log);
        }
        let out_block = stream_block_chars(locale, "stdout_label", self.stdout.as_str());
        let err_block = stream_block_chars(locale, "stderr_label", self.stderr.as_str());
        extend(&mut log, &out_block);
        extend(&mut log, &err_block);
        string_of(&log)
    }

    /// The storage figures, for a successful `status` command whose output
    /// has them.
    pub fn storage_status(&self) -> (res: Option<StorageStatus>)
        ensures
            (self.label@ == "status"@ && self.success) ==> parsed_status(res, self.stdout@),
            !(self.label@ == "status"@ && self.success) ==> res is None,
    {
        let l = chars_of(self.label.as_str());
        if is_text(&l, "status") && self.success {
            StorageStatus::parse(self.stdout.as_str())
        } else {
            None
        }
    }

    /// What the output tells about the daemon, if anything.
    pub fn daemon_status(&self) -> (res: Option<DaemonStatus>)
        ensures
            res == daemon_status_of(*self),
    {
        let l = chars_of(self.label.as_str());
        let is_status = is_text(&l, "status");
        let is_start = is_text(&l, "start");
        let is_stop = is_text(&l, "stop");
        let is_foreground = is_text(&l, "foreground daemon");
        if is_status {
            if self.success {
                Some(DaemonStatus::Running)
            } else {
                Some(DaemonStatus::Stopped)
            }
        } else if (is_start || is_foreground) && self.success {
            Some(DaemonStatus::Running)
        } else if is_stop && self.success {
            Some(DaemonStatus::Stopped)
        } else if is_start || is_stop || is_foreground {
            daemon_status_from_output(self.stdout.as_str(), self.stderr.as_str())
        } else {
            None
        }
    }
}

fn stream_block_chars(locale: Locale, title: &str, s: &str) -> (res: Vec<char>)
    ensures
        res@ == stream_block(locale, title@, s@),
{
    let v = chars_of(s);
    let (a, b) = trim_bounds(&v, 0, v.len(), CharClass::Space);
    assert(v@.subrange(0, v.len() as int) =~= v@);
    if a == b {
        return Vec::new();
    }
    let mut out = chars_of("\n");
    let t = text_chars(locale, title);
    extend(&mut out, &t);
    extend_str(&mut out, "\n");
    let e = trim_end_len(&v);
    let body = slice(&v, 0, e);
    extend(&mut out, &body);
    extend_str(&mut out, "\n");
    out
}

/// End of `trim_end_by(s, Space)` within `s`.
fn trim_end_len(s: &Vec<char>) -> (res: usize)
    ensures
        res <= s.len(),
        s@.subrange(0, res as int) == trim_end_by(s@, CharClass::Space),
{
    let mut j = s.len();
    while j > 0 && crate::text::is_space_char(s[j - 1])
        invariant
            j <= s.len(),
            forall|m: int| j <= m < s.len() ==> crate::text::is_space(#[trigger] s@[m]),
        decreases j,
    {
        j = j - 1;
    }
    proof {
        crate::text::lemma_trim_end_take(s@, CharClass::Space, j as int);
        assert(s@.take(j as int) =~= s@.subrange(0, j as int));
        assert(trim_end_by(s@.take(j as int), CharClass::Space) == s@.take(j as int));
    }
    j
}

} // verus!
