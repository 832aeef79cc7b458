//! The `yandex-disk` commands the application runs, their arguments and the
//! command line shown for them.
use vstd::prelude::*;

use crate::command_line::{shell_quote_chars, shell_quoted};
use crate::command_options::{non_empty_path, option_args, views, CommandOptions};
use crate::text::{chars_of, extend, join, string_of};

verus! {

#[derive(Clone, Debug)]
pub enum DiskRequest {
    Token { auth_file: Option<String> },
    Start(CommandOptions),
    Status(CommandOptions),
    Stop(CommandOptions),
    Sync(CommandOptions),
    Publish { options: CommandOptions, path: String },
    Unpublish { options: CommandOptions, path: String },
    ForegroundDaemon(CommandOptions),
    Help,
}

/// The short name a request is reported under.
pub open spec fn label_of(r: DiskRequest) -> Seq<char> {
    match r {
        DiskRequest::Token { .. } => "token"@,
        DiskRequest::Start(_) => "start"@,
        DiskRequest::Status(_) => "status"@,
        DiskRequest::Stop(_) => "stop"@,
        DiskRequest::Sync(_) => "sync"@,
        DiskRequest::Publish { .. } => "publish"@,
        DiskRequest::Unpublish { .. } => "unpublish"@,
        DiskRequest::ForegroundDaemon(_) => "foreground daemon"@,
        DiskRequest::Help => "help"@,
    }
}

/// The arguments passed to `yandex-disk` for a request.
pub open spec fn args_of(r: DiskRequest) -> Seq<Seq<char>> {
    match r {
        DiskRequest::Token { auth_file } => seq!["token"@] + match auth_file {
            Some(p) if p@.len() > 0 => seq![p@],
            _ => Seq::empty(),
        },
        DiskRequest::Start(o) => seq!["start"@] + option_args(o),
        DiskRequest::Status(o) => seq!["status"@] + option_args(o),
        DiskRequest::Stop(o) => seq!["stop"@] + option_args(o),
        DiskRequest::Sync(o) => seq!["sync"@] + option_args(o),
        DiskRequest::Publish { options, path } => seq!["publish"@] + option_args(options) + seq![
            path@,
        ],
        DiskRequest::Unpublish { options, path } => seq!["unpublish"@] + option_args(options)
            + seq![path@],
        DiskRequest::ForegroundDaemon(o) => seq!["--no-daemon"@] + option_args(o),
        DiskRequest::Help => seq!["--help"@],
    }
}

/// The command line shown for a request run with `binary`: the binary and
/// the arguments, each quoted for the shell, separated by spaces.
pub open spec fn command_line_of(r: DiskRequest, binary: Seq<char>) -> Seq<char> {
    join((seq![binary] + args_of(r)).map_values(|w: Seq<char>| shell_quoted(w)), " "@)
}

impl DiskRequest {
    pub fn label(&self) -> (res: &'static str)
        ensures
            res@ == label_of(*self),
    {
        match self {
            DiskRequest::Token { .. } => "token",
            DiskRequest::Start(_) => "start",
            DiskRequest::Status(_) => "status",
            DiskRequest::Stop(_) => "stop",
            DiskRequest::Sync(_) => "sync",
            DiskRequest::Publish { .. } => "publish",
            DiskRequest::Unpublish { .. } => "unpublish",
            DiskRequest::ForegroundDaemon(_) => "foreground daemon",
            DiskRequest::Help => "help",
        }
    }

    pub fn args(&self) -> (res: Vec<String>)
        ensures
            views(res@) == args_of(*self),
    {
        let mut args: Vec<String> = Vec::new();
        match self {
            DiskRequest::Token { auth_file } => {
                args.push("token".to_owned());
                if let Some(path) = non_empty_path(auth_file.as_ref()) {
                    args.push(path.clone());
                }
                assert(views(args@) =~= args_of(*self));
            },
            DiskRequest::Start(options) => {
                args.push("start".to_owned());
                options.append_args(&mut args);
                assert(views(args@) =~= args_of(*self));
            },
            DiskRequest::Status(options) => {
                args.push("status".to_owned());
                options.append_args(&mut args);
                assert(views(args@) =~= args_of(*self));
            },
            DiskRequest::Stop(options) => {
                args.push("stop".to_owned());
                options.append_args(&mut args);
                assert(views(args@) =~= args_of(*self));
            },
            DiskRequest::Sync(options) => {
                args.push("sync".to_owned());
                options.append_args(&mut args);
                assert(views(args@) =~= args_of(*self));
            },
            DiskRequest::Publish { options, path } => {
                args.push("publish".to_owned());
                options.append_args(&mut args);
                let ghost mid = views(args@);
                args.push(path.clone());
                assert(views(args@) =~= mid + seq![path@]);
                assert(views(args@) =~= args_of(*self));
            },
            DiskRequest::Unpublish { options, path } => {
                args.push("unpublish".to_owned());
                options.append_args(&mut args);
                let ghost mid = views(args@);
                args.push(path.clone());
                assert(views(args@) =~= mid + seq![path@]);
                assert(views(args@) =~= args_of(*self));
            },
            DiskRequest::ForegroundDaemon(options) => {
                args.push("--no-daemon".to_owned());
                options.append_args(&mut args);
                assert(views(args@) =~= args_of(*self));
            },
            DiskRequest::Help => {
                args.push("--help".to_owned());
                assert(views(args@) =~= args_of(*self));
            },
        }
        args
    }

    /// The command line for display, with `binary` as the program.
    pub fn command_line(&self, binary: &str) -> (res: String)
        ensures
            res@ == command_line_of(*self, binary@),
    {
        let args = self.args();
        let ghost words = seq![binary@] + args_of(*self);
        let ghost quoted = words.map_values(|w: Seq<char>| shell_quoted(w));
        let mut out = shell_quote_chars(&chars_of(binary));
        assert(quoted.take(1) =~= seq![quoted[0]]);
        let mut i: usize = 0;
        while i < args.len()
            invariant
                i <= args.len(),
                views(args@) == args_of(*self),
                words == seq![binary@] + args_of(*self),
                quoted == words.map_values(|w: Seq<char>| shell_quoted(w)),
                out@ == join(quoted.take(i + 1), " "@),
            decreases args.len() - i,
        {
            let ghost prev = out@;
            out.push(' ');
            let q = shell_quote_chars(&chars_of(args[i].as_str()));
            extend(&mut out, &q);
            i = i + 1;
            proof {
                reveal_strlit(" ");
                assert(views(args@)[i - 1] == args@[i - 1]@);
                assert(words[i as int] == args@[i - 1]@);
                assert(quoted.take(i + 1).drop_last() =~= quoted.take(i as int));
                assert(out@ =~= prev + " "@ + quoted[i as int]);
            }
        }
        assert(quoted.take(args.len() + 1) =~= quoted);
        string_of(&out)
    }
}

/// Law: the arguments of the options, in order: `--config=`, `--dir=` and
/// `--auth=` with each path given and not empty, `--exclude-dirs=` and
/// `--proxy=` with each value given and not blank (trimmed), then
/// `--read-only` and `--overwrite` when set.
pub proof fn lemma_option_args(o: CommandOptions)
    ensures
        option_args(o) == crate::command_options::path_arg("--config"@, o.config_file)
            + crate::command_options::path_arg("--dir"@, o.sync_dir)
            + crate::command_options::path_arg("--auth"@, o.auth_file)
            + crate::command_options::value_arg("--exclude-dirs"@, o.exclude_dirs)
            + crate::command_options::value_arg("--proxy"@, o.proxy)
            + crate::command_options::flag_arg("--read-only"@, o.read_only)
            + crate::command_options::flag_arg("--overwrite"@, o.overwrite),
        o.config_file matches Some(c) ==> (c@.len() > 0 ==> option_args(o).contains("--config"@ + "="@ + c@)),
        o.sync_dir matches Some(d) ==> (d@.len() > 0 ==> option_args(o).contains("--dir"@ + "="@ + d@)),
        o.auth_file matches Some(a) ==> (a@.len() > 0 ==> option_args(o).contains("--auth"@ + "="@ + a@)),
        o.exclude_dirs matches Some(x) ==> (crate::text::trim(x@).len() > 0 ==> option_args(o).contains(
            "--exclude-dirs"@ + "="@ + crate::text::trim(x@),
        )),
        o.proxy matches Some(x) ==> (crate::text::trim(x@).len() > 0 ==> option_args(o).contains(
            "--proxy"@ + "="@ + crate::text::trim(x@),
        )),
        o.read_only ==> option_args(o).contains("--read-only"@),
        o.overwrite ==> option_args(o).contains("--overwrite"@),
{
    reveal_with_fuel(crate::command_options::concat_all, 8);
    let parts = seq![
        crate::command_options::path_arg("--config"@, o.config_file),
        crate::command_options::path_arg("--dir"@, o.sync_dir),
        crate::command_options::path_arg("--auth"@, o.auth_file),
        crate::command_options::value_arg("--exclude-dirs"@, o.exclude_dirs),
        crate::command_options::value_arg("--proxy"@, o.proxy),
        crate::command_options::flag_arg("--read-only"@, o.read_only),
        crate::command_options::flag_arg("--overwrite"@, o.overwrite),
    ];
    let all = option_args(o);
    let p0 = parts[0];
    let p1 = parts[1];
    let p2 = parts[2];
    let p5 = parts[5];
    let p6 = parts[6];
    assert(all =~= p0 + p1 + p2 + parts[3] + parts[4] + p5 + p6);
    if let Some(c) = o.config_file {
        if c@.len() > 0 {
            assert(all[0] == "--config"@ + "="@ + c@);
        }
    }
    if let Some(d) = o.sync_dir {
        if d@.len() > 0 {
            assert(all[p0.len() as int] == "--dir"@ + "="@ + d@);
        }
    }
    if let Some(a) = o.auth_file {
        if a@.len() > 0 {
            assert(all[(p0.len() + p1.len()) as int] == "--auth"@ + "="@ + a@);
        }
    }
    if let Some(x) = o.exclude_dirs {
        if crate::text::trim(x@).len() > 0 {
            assert(all[(p0.len() + p1.len() + p2.len()) as int] == "--exclude-dirs"@ + "="@
                + crate::text::trim(x@));
        }
    }
    if let Some(x) = o.proxy {
        if crate::text::trim(x@).len() > 0 {
            assert(all[(p0.len() + p1.len() + p2.len() + parts[3].len()) as int] == "--proxy"@
                + "="@ + crate::text::trim(x@));
        }
    }
    if o.read_only {
        assert(all[all.len() - p6.len() - 1] == "--read-only"@);
    }
    if o.overwrite {
        assert(all[all.len() - 1] == "--overwrite"@);
    }
}

/// Law: every request that carries options passes all of them, the same
/// way whatever the request: its arguments are its verb (`start`, `status`,
/// `stop`, `sync`, `publish`, `unpublish`, or `--no-daemon` for the
/// foreground daemon) followed by the options' arguments, and for a publish
/// or unpublish then the path.
pub proof fn lemma_requests_pass_their_options(o: CommandOptions, path: String)
    ensures
        args_of(DiskRequest::Start(o)) == seq!["start"@] + option_args(o),
        args_of(DiskRequest::Status(o)) == seq!["status"@] + option_args(o),
        args_of(DiskRequest::Stop(o)) == seq!["stop"@] + option_args(o),
        args_of(DiskRequest::Sync(o)) == seq!["sync"@] + option_args(o),
        args_of(DiskRequest::ForegroundDaemon(o)) == seq!["--no-daemon"@] + option_args(o),
        args_of(DiskRequest::Publish { options: o, path }) == seq!["publish"@] + option_args(o)
            + seq![path@],
        args_of(DiskRequest::Unpublish { options: o, path }) == seq!["unpublish"@] + option_args(o)
            + seq![path@],
        args_of(DiskRequest::Sync(o)).skip(1) == args_of(DiskRequest::Status(o)).skip(1),
        args_of(DiskRequest::Start(o)).skip(1) == args_of(DiskRequest::Status(o)).skip(1),
        args_of(DiskRequest::Stop(o)).skip(1) == args_of(DiskRequest::Status(o)).skip(1),
        args_of(DiskRequest::ForegroundDaemon(o)).skip(1) == args_of(DiskRequest::Status(o)).skip(1),
{
    assert((seq!["sync"@] + option_args(o)).skip(1) =~= option_args(o));
    assert((seq!["start"@] + option_args(o)).skip(1) =~= option_args(o));
    assert((seq!["stop"@] + option_args(o)).skip(1) =~= option_args(o));
    assert((seq!["status"@] + option_args(o)).skip(1) =~= option_args(o));
    assert((seq!["--no-daemon"@] + option_args(o)).skip(1) =~= option_args(o));
}

} // verus!
