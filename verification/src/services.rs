//! The decisions taken around running a request: what to prepare, how to
//! run it, how streamed output is gathered while the authorization runs,
//! and the results reported for requests that do not run to completion.
use vstd::prelude::*;

use crate::command_options::{opt_view, CommandOptions};
use crate::command_output::DiskOutput;
use crate::command_request::{command_line_of, label_of, DiskRequest};
use crate::i18n::{text_chars, translate, Locale};
use crate::text::{
    chars_of, decimal, decimal_chars, extend, extend_str, next_word, slice, starts_with,
    string_of, trim_by, trimmed, words, CharClass, has_prefix,
};

verus! {

// ---------------------------------------------------------------------------
// Finding links in output
// ---------------------------------------------------------------------------

pub open spec fn is_web_url(u: Seq<char>) -> bool {
    starts_with(u, "https://"@) || starts_with(u, "http://"@)
}

/// The first word that, with the characters of class `k` trimmed from its
/// ends, starts with `https://` or `http://`; trimmed.
pub open spec fn url_in_words(ws: Seq<Seq<char>>, k: CharClass) -> Option<Seq<char>>
    decreases ws.len(),
{
    if ws.len() == 0 {
        None
    } else {
        let u = trim_by(ws[0], k);
        if is_web_url(u) {
            Some(u)
        } else {
            url_in_words(ws.drop_first(), k)
        }
    }
}

pub open spec fn find_url(text: Seq<char>, k: CharClass) -> Option<Seq<char>> {
    url_in_words(words(text), k)
}

fn find_url_chars(t: &Vec<char>, k: CharClass) -> (res: Option<Vec<char>>)
    ensures
        match res {
            Some(u) => find_url(t@, k) == Some(u@),
            None => find_url(t@, k) is None,
        },
{
    let mut pos: usize = 0;
    assert(t@.skip(0) =~= t@);
    loop
        invariant
            pos <= t.len(),
            find_url(t@, k) == url_in_words(words(t@.skip(pos as int)), k),
        decreases t.len() - pos,
    {
        match next_word(t, pos) {
            None => {
                return None;
            },
            Some((a, b)) => {
                let ghost ws = words(t@.skip(pos as int));
                let w = slice(t, a, b);
                assert(ws[0] == w@);
                assert(ws.drop_first() =~= words(t@.skip(b as int)));
                let u = trimmed(&w, k);
                if has_prefix(&u, "https://") || has_prefix(&u, "http://") {
                    return Some(u);
                }
                pos = b;
            },
        }
    }
}

/// The first web address in command output, without surrounding quotes,
/// brackets or punctuation.
pub fn extract_url(text: &str) -> (res: Option<String>)
    ensures
        opt_view(res) == find_url(text@, CharClass::UrlEdge),
{
    match find_url_chars(&chars_of(text), CharClass::UrlEdge) {
        Some(u) => Some(string_of(&u)),
        None => None,
    }
}

/// The first web address in the output of `publish`, without surrounding
/// quotes, parentheses, commas or full stops.
pub fn first_url(text: &str) -> (res: Option<String>)
    ensures
        opt_view(res) == find_url(text@, CharClass::LinkEdge),
{
    match find_url_chars(&chars_of(text), CharClass::LinkEdge) {
        Some(u) => Some(string_of(&u)),
        None => None,
    }
}

// ---------------------------------------------------------------------------
// Running requests
// ---------------------------------------------------------------------------

/// The folder work a request needs before it runs.
#[derive(Clone, Debug)]
pub enum Preparation {
    /// Create the folder that holds this file.
    CreateParentOf(String),
    /// Create this folder.
    CreateDir(String),
    Nothing,
}

/// How a request is run.
#[derive(Clone, Copy, Debug, PartialEq, Eq, Structural)]
pub enum RunMode {
    /// Output is read while it arrives and the authorization page is opened.
    Streamed,
    /// The daemon is launched in the foreground and left running.
    Detached,
    /// The command is run to completion and its output collected.
    Blocking,
}

pub open spec fn options_of(r: DiskRequest) -> Option<CommandOptions> {
    match r {
        DiskRequest::Start(o) => Some(o),
        DiskRequest::Status(o) => Some(o),
        DiskRequest::Stop(o) => Some(o),
        DiskRequest::Sync(o) => Some(o),
        DiskRequest::Publish { options, .. } => Some(options),
        DiskRequest::Unpublish { options, .. } => Some(options),
        DiskRequest::ForegroundDaemon(o) => Some(o),
        _ => None,
    }
}

/// Whether a preparation is the right one for a request: the authorization
/// prepares the folder of its file, the daemon commands create the sync
/// folder when one is given, and nothing else is prepared.
pub open spec fn prepared_for(p: Preparation, r: DiskRequest) -> bool {
    match r {
        DiskRequest::Token { auth_file } => match auth_file {
            Some(f) => p matches Preparation::CreateParentOf(q) && q@ == f@,
            None => p is Nothing,
        },
        DiskRequest::Help => p is Nothing,
        _ => match options_of(r) {
            Some(o) => match o.sync_dir {
                Some(d) if d@.len() > 0 => p matches Preparation::CreateDir(q) && q@ == d@,
                _ => p is Nothing,
            },
            None => p is Nothing,
        },
    }
}

/// What to create before a request runs.
pub fn prepare_request(request: &DiskRequest) -> (res: Preparation)
    ensures
        prepared_for(res, *request),
{
    match request {
        DiskRequest::Token { auth_file } => match auth_file {
            Some(f) => Preparation::CreateParentOf(f.clone()),
            None => Preparation::Nothing,
        },
        DiskRequest::Start(o) | DiskRequest::Status(o) | DiskRequest::Stop(o) | DiskRequest::Sync(
            o,
        ) | DiskRequest::ForegroundDaemon(o) => match o.sync_dir_to_create() {
            Some(d) => Preparation::CreateDir(d.clone()),
            None => Preparation::Nothing,
        },
        DiskRequest::Publish { options, .. } | DiskRequest::Unpublish { options, .. } => {
            match options.sync_dir_to_create() {
                Some(d) => Preparation::CreateDir(d.clone()),
                None => Preparation::Nothing,
            }
        },
        DiskRequest::Help => Preparation::Nothing,
    }
}

/// The way a request is run: the authorization streams its output, the
/// foreground daemon is launched and left running, the rest block.
pub fn run_mode(request: &DiskRequest) -> (res: RunMode)
    ensures
        res == (match *request {
            DiskRequest::Token { .. } => RunMode::Streamed,
            DiskRequest::ForegroundDaemon(_) => RunMode::Detached,
            _ => RunMode::Blocking,
        }),
{
    match request {
        DiskRequest::Token { .. } => RunMode::Streamed,
        DiskRequest::ForegroundDaemon(_) => RunMode::Detached,
        _ => RunMode::Blocking,
    }
}

/// The result reported when the foreground daemon has been launched.
pub fn foreground_daemon_output(options: CommandOptions, binary: &str, locale: Locale, pid: u32) -> (res: DiskOutput)
    ensures
        res.label@ == "foreground daemon"@,
        res.command_line@ == command_line_of(DiskRequest::ForegroundDaemon(options), binary@),
        res.success,
        res.exit_code is None,
        res.stdout@ == translate(locale, "foreground_daemon_launched_with_pid"@) + " "@ + decimal(
            pid as nat,
        ) + "."@,
        res.stderr@ == Seq::<char>::empty(),
        !res.streamed,
{
    let request = DiskRequest::ForegroundDaemon(options);
    let mut message = text_chars(locale, "foreground_daemon_launched_with_pid");
    extend_str(&mut message, " ");
    let digits = decimal_chars(pid as u64);
    extend(&mut message, &digits);
    extend_str(&mut message, ".");
    DiskOutput::new(
        request.label().to_owned(),
        request.command_line(binary),
        true,
        None,
        string_of(&message),
        String::new(),
        false,
    )
}

// ---------------------------------------------------------------------------
// Streamed output of the authorization
// ---------------------------------------------------------------------------

#[derive(Clone, Copy, Debug, PartialEq, Eq, Structural)]
pub enum OutputStream {
    Stdout,
    Stderr,
}

/// A piece of output read from one of the streams.
#[derive(Clone, Debug)]
pub struct StreamChunk {
    pub stream: OutputStream,
    pub text: String,
}

/// What is reported while a command runs: the new output, and the
/// authorization page to open, the first time one is seen.
#[derive(Clone, Debug)]
pub struct DiskProgress {
    pub text: String,
    pub auth_url: Option<String>,
}

/// The output gathered so far and whether the authorization page was opened.
#[derive(Clone, Debug)]
pub struct TokenStream {
    pub stdout: String,
    pub stderr: String,
    pub opened_auth_url: bool,
}

impl TokenStream {
    pub fn new() -> (res: TokenStream)
        ensures
            res.stdout@ == Seq::<char>::empty(),
            res.stderr@ == Seq::<char>::empty(),
            !res.opened_auth_url,
    {
        TokenStream { stdout: String::new(), stderr: String::new(), opened_auth_url: false }
    }

    /// The result of the authorization once it has finished.
    pub fn finish(self, command_line: String, success: bool, exit_code: Option<i32>) -> (res: DiskOutput)
        ensures
            res.label@ == "token"@,
            res.command_line == command_line,
            res.success == success,
            res.exit_code == exit_code,
            res.stdout == self.stdout,
            res.stderr == self.stderr,
            res.streamed,
    {
        DiskOutput::new(
            "token".to_owned(),
            command_line,
            success,
            exit_code,
            self.stdout,
            self.stderr,
            true,
        )
    }
}

/// The gathered output and whether the authorization page was opened.
pub struct StreamView {
    pub stdout: Seq<char>,
    pub stderr: Seq<char>,
    pub opened: bool,
}

pub open spec fn stream_view(s: TokenStream) -> StreamView {
    StreamView { stdout: s.stdout@, stderr: s.stderr@, opened: s.opened_auth_url }
}

/// One chunk of streamed output: it is added to its stream, and, while the
/// authorization page has not been opened, the first web address in that
/// stream's output so far is reported and marks the page as opened.
pub open spec fn chunk_step(s: StreamView, stream: OutputStream, text: Seq<char>) -> (StreamView, Option<Seq<char>>) {
    let stdout = if stream == OutputStream::Stdout { s.stdout + text } else { s.stdout };
    let stderr = if stream == OutputStream::Stderr { s.stderr + text } else { s.stderr };
    let source = if stream == OutputStream::Stdout { stdout } else { stderr };
    let url = if s.opened { None } else { find_url(source, CharClass::UrlEdge) };
    (StreamView { stdout, stderr, opened: s.opened || url is Some }, url)
}

/// The addresses reported for a series of chunks, one entry per chunk.
pub open spec fn stream_reports(s: StreamView, chunks: Seq<(OutputStream, Seq<char>)>) -> Seq<Option<Seq<char>>>
    decreases chunks.len(),
{
    if chunks.len() == 0 {
        Seq::empty()
    } else {
        let (next, url) = chunk_step(s, chunks[0].0, chunks[0].1);
        seq![url] + stream_reports(next, chunks.drop_first())
    }
}

proof fn lemma_opened_stays_silent(s: StreamView, chunks: Seq<(OutputStream, Seq<char>)>)
    requires
        s.opened,
    ensures
        stream_reports(s, chunks).len() == chunks.len(),
        forall|i: int| 0 <= i < chunks.len() ==> stream_reports(s, chunks)[i] is None,
    decreases chunks.len(),
{
    if chunks.len() > 0 {
        let (next, url) = chunk_step(s, chunks[0].0, chunks[0].1);
        lemma_opened_stays_silent(next, chunks.drop_first());
        let r = stream_reports(s, chunks);
        assert forall|i: int| 0 <= i < chunks.len() implies r[i] is None by {
            if i > 0 {
                assert(r[i] == stream_reports(next, chunks.drop_first())[i - 1]);
            }
        }
    }
}

/// Law: during one run of the authorization, the authorization page is
/// reported at most once, whatever output arrives.
pub proof fn lemma_auth_page_reported_once(s: StreamView, chunks: Seq<(OutputStream, Seq<char>)>)
    ensures
        stream_reports(s, chunks).len() == chunks.len(),
        forall|i: int, j: int|
            0 <= i < j < chunks.len() ==> !(stream_reports(s, chunks)[i] is Some && stream_reports(
                s,
                chunks,
            )[j] is Some),
        s.opened ==> forall|i: int| 0 <= i < chunks.len() ==> stream_reports(s, chunks)[i] is None,
    decreases chunks.len(),
{
    if s.opened {
        lemma_opened_stays_silent(s, chunks);
    } else if chunks.len() > 0 {
        let (next, url) = chunk_step(s, chunks[0].0, chunks[0].1);
        let rest = chunks.drop_first();
        lemma_auth_page_reported_once(next, rest);
        let r = stream_reports(s, chunks);
        let rr = stream_reports(next, rest);
        assert(r == seq![url] + rr);
        if url is Some {
            lemma_opened_stays_silent(next, rest);
        }
        assert forall|i: int, j: int| 0 <= i < j < chunks.len() implies !(r[i] is Some
            && r[j] is Some) by {
            assert(r[j] == rr[j - 1]);
            if i > 0 {
                assert(r[i] == rr[i - 1]);
            }
        }
    }
}

/// The output of each chunk's stream once the chunk is added, one entry per
/// chunk.
pub open spec fn stream_sources(s: StreamView, chunks: Seq<(OutputStream, Seq<char>)>) -> Seq<Seq<char>>
    decreases chunks.len(),
{
    if chunks.len() == 0 {
        Seq::empty()
    } else {
        let (next, url) = chunk_step(s, chunks[0].0, chunks[0].1);
        seq![
            if chunks[0].0 == OutputStream::Stdout {
                next.stdout
            } else {
                next.stderr
            },
        ] + stream_sources(next, chunks.drop_first())
    }
}

/// Law: while the authorization page has not been opened, the address is
/// reported with the first chunk whose stream's output holds one, and that
/// address is the first one in that output; every other chunk reports
/// nothing.
pub proof fn lemma_auth_page_first_address(s: StreamView, chunks: Seq<(OutputStream, Seq<char>)>)
    requires
        !s.opened,
    ensures
        stream_sources(s, chunks).len() == chunks.len(),
        stream_reports(s, chunks).len() == chunks.len(),
        forall|i: int|
            0 <= i < chunks.len() ==> #[trigger] stream_reports(s, chunks)[i] == (if forall|j: int|
                0 <= j < i ==> find_url(stream_sources(s, chunks)[j], CharClass::UrlEdge) is None {
                find_url(stream_sources(s, chunks)[i], CharClass::UrlEdge)
            } else {
                None
            }),
    decreases chunks.len(),
{
    if chunks.len() > 0 {
        let (next, url) = chunk_step(s, chunks[0].0, chunks[0].1);
        let rest = chunks.drop_first();
        let r = stream_reports(s, chunks);
        let src = stream_sources(s, chunks);
        let rr = stream_reports(next, rest);
        let rs = stream_sources(next, rest);
        assert(r == seq![url] + rr);
        assert(src == seq![src[0]] + rs);
        assert(url == find_url(src[0], CharClass::UrlEdge));
        if url is Some {
            lemma_opened_stays_silent(next, rest);
            lemma_sources_len(next, rest);
            assert forall|i: int| 0 <= i < chunks.len() implies #[trigger] r[i] == (if forall|j: int|
                0 <= j < i ==> find_url(src[j], CharClass::UrlEdge) is None {
                find_url(src[i], CharClass::UrlEdge)
            } else {
                None
            }) by {
                if i > 0 {
                    assert(r[i] == rr[i - 1]);
                    assert(!(forall|j: int| 0 <= j < i ==> find_url(src[j], CharClass::UrlEdge) is None)) by {
                        assert(find_url(src[0], CharClass::UrlEdge) is Some);
                    }
                }
            }
        } else {
            lemma_auth_page_first_address(next, rest);
            assert forall|i: int| 0 <= i < chunks.len() implies #[trigger] r[i] == (if forall|j: int|
                0 <= j < i ==> find_url(src[j], CharClass::UrlEdge) is None {
                find_url(src[i], CharClass::UrlEdge)
            } else {
                None
            }) by {
                if i > 0 {
                    assert(r[i] == rr[i - 1]);
                    assert(src[i] == rs[i - 1]);
                    assert(rr[i - 1] == (if forall|j: int|
                        0 <= j < i - 1 ==> find_url(rs[j], CharClass::UrlEdge) is None {
                        find_url(rs[i - 1], CharClass::UrlEdge)
                    } else {
                        None
                    }));
                    if forall|j: int| 0 <= j < i - 1 ==> find_url(rs[j], CharClass::UrlEdge) is None {
                        assert forall|j: int| 0 <= j < i implies find_url(src[j], CharClass::UrlEdge) is None by {
                            if j > 0 {
                                assert(src[j] == rs[j - 1]);
                            }
                        }
                    } else {
                        let j0 = choose|j: int| 0 <= j < i - 1 && !(find_url(rs[j], CharClass::UrlEdge) is None);
                        assert(src[j0 + 1] == rs[j0]);
                        assert(!(forall|j: int| 0 <= j < i ==> find_url(src[j], CharClass::UrlEdge) is None));
                    }
                }
            }
        }
    }
}

proof fn lemma_sources_len(s: StreamView, chunks: Seq<(OutputStream, Seq<char>)>)
    ensures
        stream_sources(s, chunks).len() == chunks.len(),
    decreases chunks.len(),
{
    if chunks.len() > 0 {
        let (next, url) = chunk_step(s, chunks[0].0, chunks[0].1);
        lemma_sources_len(next, chunks.drop_first());
    }
}

/// Adds a chunk to the output of its stream and reports it, with the
/// authorization page to open as `chunk_step` says.
pub fn handle_stream_chunk(state: &mut TokenStream, chunk: StreamChunk) -> (res: DiskProgress)
    ensures
        res.text == chunk.text,
        (stream_view(*final(state)), opt_view(res.auth_url)) == chunk_step(
            stream_view(*old(state)),
            chunk.stream,
            chunk.text@,
        ),
{
    let added = chars_of(chunk.text.as_str());
    let mut source = match chunk.stream {
        OutputStream::Stdout => chars_of(state.stdout.as_str()),
        OutputStream::Stderr => chars_of(state.stderr.as_str()),
    };
    extend(&mut source, &added);
    let updated = string_of(&source);
    match chunk.stream {
        OutputStream::Stdout => {
            state.stdout = updated;
            assert(state.stderr@ =~= old(state).stderr@ + Seq::<char>::empty());
        },
        OutputStream::Stderr => {
            state.stderr = updated;
            assert(state.stdout@ =~= old(state).stdout@ + Seq::<char>::empty());
        },
    }
    let auth_url = if state.opened_auth_url {
        None
    } else {
        match find_url_chars(&source, CharClass::UrlEdge) {
            Some(u) => {
                state.opened_auth_url = true;
                Some(string_of(&u))
            },
            None => None,
        }
    };
    DiskProgress { text: chunk.text, auth_url }
}

// ---------------------------------------------------------------------------
// The result of running a request
// ---------------------------------------------------------------------------

/// How running a request ended.
pub enum RunOutcome {
    /// Preparing, launching or waiting failed with this message.
    Failed(String),
    /// The command ran to its end.
    Completed { success: bool, exit_code: Option<i32>, stdout: String, stderr: String },
    /// The foreground daemon was launched with this process id.
    Launched(u32),
    /// The authorization finished; its output was gathered in the stream.
    Streamed { stream: TokenStream, success: bool, exit_code: Option<i32> },
}

/// The result reported for a request run with `binary`, from how the run
/// ended. Whatever happened, the result carries the request's label and
/// command line (an authorization's output is that of a `token` request).
pub fn request_output(request: DiskRequest, binary: &str, locale: Locale, outcome: RunOutcome) -> (res: DiskOutput)
    ensures
        (outcome is Streamed ==> request is Token) ==> res.label@ == label_of(request)
            && res.command_line@ == command_line_of(request, binary@),
        match outcome {
            RunOutcome::Failed(e) => !res.success && res.exit_code is None && res.stdout@
                == Seq::<char>::empty() && res.stderr == e && !res.streamed,
            RunOutcome::Completed { success, exit_code, stdout, stderr } => res.success == success
                && res.exit_code == exit_code && res.stdout == stdout && res.stderr == stderr
                && !res.streamed,
            RunOutcome::Launched(pid) => match request {
                DiskRequest::ForegroundDaemon(_) => res.success && res.exit_code is None
                    && res.stdout@ == translate(locale, "foreground_daemon_launched_with_pid"@)
                    + " "@ + decimal(pid as nat) + "."@ && res.stderr@ == Seq::<char>::empty()
                    && !res.streamed,
                _ => !res.success && res.exit_code is None && res.stdout@ == Seq::<char>::empty()
                    && res.stderr@ == "not a foreground daemon request"@ && !res.streamed,
            },
            RunOutcome::Streamed { stream, success, exit_code } => res.label@ == "token"@
                && res.command_line@ == command_line_of(request, binary@) && res.success == success
                && res.exit_code == exit_code && res.stdout == stream.stdout && res.stderr
                == stream.stderr && res.streamed,
        },
{
    match outcome {
        RunOutcome::Failed(error) => DiskOutput::failed(
            request.label(),
            request.command_line(binary),
            error,
        ),
        RunOutcome::Completed { success, exit_code, stdout, stderr } => DiskOutput::for_request(
            &request,
            binary,
            success,
            exit_code,
            stdout,
            stderr,
        ),
        RunOutcome::Launched(pid) => match request {
            DiskRequest::ForegroundDaemon(options) => foreground_daemon_output(
                options,
                binary,
                locale,
                pid,
            ),
            _ => DiskOutput::failed(
                request.label(),
                request.command_line(binary),
                "not a foreground daemon request".to_owned(),
            ),
        },
        RunOutcome::Streamed { stream, success, exit_code } => {
            proof {
                if request is Token {
                    reveal_strlit("token");
                }
            }
            stream.finish(request.command_line(binary), success, exit_code)
        },
    }
}

} // verus!
