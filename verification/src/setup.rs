//! The settings written to the `yandex-disk` configuration file: defaults,
//! reading them back, and what saving them writes.
use vstd::prelude::*;

use crate::command_options::opt_view;
use crate::setup_storage::{
    autostart_contents, autostart_contents_of, autostart_file, autostart_file_of, config_file,
    config_file_of, default_sync_dir, default_sync_dir_of, find_value, join_path_text, parse_value,
    parse_value_spec, quote_value_chars, setting_line, yandex_config_dir, yandex_config_dir_of,
    HostPaths,
};
use crate::setup_storage::{
    lemma_blank_line, lemma_comment_line, lemma_find_value_append, lemma_find_value_cons,
    lemma_setting_line, plain_name,
};
use crate::text::{
    chars_of, extend, extend_str, lines, one_line, string_of, terminated, trim, trimmed, CharClass,
};

verus! {

#[derive(Clone, Debug)]
pub struct SetupConfig {
    pub auth_file: String,
    pub sync_dir: String,
    pub exclude_dirs: Option<String>,
    pub proxy: Option<String>,
    pub autostart: bool,
}

/// Where a save put the configuration and the autostart entry.
#[derive(Clone, Debug)]
pub struct SetupSave {
    pub config_file: String,
    pub autostart_file: String,
    pub autostart_enabled: bool,
}

/// The file work that saving a configuration needs, in order: create the
/// `yandex-disk` configuration directory, the folder that holds the
/// authorization file and the sync folder; write the configuration file;
/// then write the autostart entry when `autostart_contents` is given, or
/// remove it if it exists.
#[derive(Clone, Debug)]
pub struct SavePlan {
    pub config_dir: String,
    pub auth_file: String,
    pub sync_dir: String,
    pub config_file: String,
    pub config_contents: String,
    pub autostart_file: String,
    pub autostart_contents: Option<String>,
}

/// The default authorization file and sync folder.
pub open spec fn defaults_of(h: HostPaths) -> (Seq<char>, Seq<char>) {
    (default_auth_file_of(h), default_sync_dir_of(h))
}

/// The default authorization file: `passwd` in the `yandex-disk`
/// configuration directory.
pub open spec fn default_auth_file_of(h: HostPaths) -> Seq<char> {
    crate::setup_storage::join_path(yandex_config_dir_of(h), "passwd"@)
}

/// A value that is present and not blank, trimmed.
pub open spec fn filled(v: Option<Seq<char>>) -> Option<Seq<char>> {
    match v {
        Some(x) if trim(x).len() > 0 => Some(trim(x)),
        _ => None,
    }
}

/// The three lines that write an optional setting: a blank line, a comment
/// and `name="value"`, when the value is not blank.
pub open spec fn optional_block(comment: Seq<char>, name: Seq<char>, v: Option<Seq<char>>) -> Seq<
    Seq<char>,
> {
    match filled(v) {
        Some(x) => seq![Seq::empty(), comment, setting_line(name, x)],
        None => Seq::empty(),
    }
}

pub open spec fn auth_comment() -> Seq<char> {
    "# Path to the authorization data file"@
}

pub open spec fn dir_comment() -> Seq<char> {
    "# Directory for storing a local copy of Yandex Disk."@
}

pub open spec fn exclude_comment() -> Seq<char> {
    "# Do not sync the specified directories."@
}

pub open spec fn proxy_comment() -> Seq<char> {
    "# Proxy server: auto, no, or protocol,address,port,login,password."@
}

/// The lines of the configuration file for a configuration.
pub open spec fn config_lines(auth: Seq<char>, dir: Seq<char>, exclude: Option<Seq<char>>, proxy: Option<Seq<char>>) -> Seq<Seq<char>> {
    seq![
        auth_comment(),
        setting_line("auth"@, auth),
        Seq::empty(),
        dir_comment(),
        setting_line("dir"@, dir),
    ]
        + optional_block(exclude_comment(), "exclude-dirs"@, exclude) + optional_block(
        proxy_comment(),
        "proxy"@,
        proxy,
    )
}

/// The text of the configuration file: its lines, each ended by a line feed.
pub open spec fn config_text(
    auth: Seq<char>,
    dir: Seq<char>,
    exclude: Option<Seq<char>>,
    proxy: Option<Seq<char>>,
) -> Seq<char> {
    terminated(config_lines(auth, dir, exclude, proxy))
}

pub open spec fn contents_of(c: SetupConfig) -> Seq<char> {
    config_text(c.auth_file@, c.sync_dir@, opt_view(c.exclude_dirs), opt_view(c.proxy))
}

/// The configuration text that saving `c` on host `h` writes.
pub open spec fn saved_text(c: SetupConfig, h: HostPaths) -> Seq<char> {
    config_text(c.auth_file@, normalized_sync_dir(c, h), opt_view(c.exclude_dirs), opt_view(c.proxy))
}

/// Inside Flatpak the sync folder is always the default one.
pub open spec fn normalized_sync_dir(c: SetupConfig, h: HostPaths) -> Seq<char> {
    if h.flatpak {
        default_sync_dir_of(h)
    } else {
        c.sync_dir@
    }
}

/// The configuration read at start-up: the defaults, overridden by the
/// `auth` and `dir` values of a readable configuration file, whose
/// `exclude-dirs` and `proxy` values (or their absence) replace the default
/// ones; the default sync folder inside Flatpak; autostart when its entry
/// exists.
pub open spec fn loaded_matches(res: SetupConfig, h: HostPaths, contents: Option<Seq<char>>, autostart_exists: bool) -> bool {
    let (auth0, dir0) = defaults_of(h);
    let (auth, dir, exclude, proxy) = match contents {
        Some(c) => (
            match parse_value_spec(c, "auth"@) {
                Some(a) => a,
                None => auth0,
            },
            match parse_value_spec(c, "dir"@) {
                Some(d) => d,
                None => dir0,
            },
            parse_value_spec(c, "exclude-dirs"@),
            parse_value_spec(c, "proxy"@),
        ),
        None => (auth0, dir0, None, None),
    };
    &&& res.auth_file@ == auth
    &&& res.sync_dir@ == (if h.flatpak { dir0 } else { dir })
    &&& opt_view(res.exclude_dirs) == exclude
    &&& opt_view(res.proxy) == proxy
    &&& res.autostart == autostart_exists
}

impl SetupConfig {
    /// The configuration used when nothing is saved.
    pub fn defaults(h: &HostPaths) -> (res: SetupConfig)
        ensures
            res.auth_file@ == default_auth_file_of(*h),
            res.sync_dir@ == default_sync_dir_of(*h),
            res.exclude_dirs is None,
            res.proxy is None,
            !res.autostart,
    {
        SetupConfig {
            auth_file: join_path_text(yandex_config_dir(h).as_str(), "passwd"),
            sync_dir: default_sync_dir(h),
            exclude_dirs: None,
            proxy: None,
            autostart: false,
        }
    }

    /// The configuration read at start-up from the text of the
    /// configuration file (when it could be read) and whether the autostart
    /// entry exists.
    pub fn loaded(h: &HostPaths, contents: Option<&str>, autostart_exists: bool) -> (res: SetupConfig)
        ensures
            loaded_matches(
                res,
                *h,
                match contents {
                    Some(c) => Some(c@),
                    None => None,
                },
                autostart_exists,
            ),
    {
        let mut config = SetupConfig::defaults(h);
        if let Some(text) = contents {
            if let Some(auth) = parse_value(text, "auth") {
                config.auth_file = auth;
            }
            if let Some(dir) = parse_value(text, "dir") {
                config.sync_dir = dir;
            }
            config.exclude_dirs = parse_value(text, "exclude-dirs");
            config.proxy = parse_value(text, "proxy");
            assert(opt_view(config.exclude_dirs) == parse_value_spec(text@, "exclude-dirs"@));
            assert(opt_view(config.proxy) == parse_value_spec(text@, "proxy"@));
        }
        if h.flatpak {
            config.sync_dir = default_sync_dir(h);
        }
        config.autostart = autostart_exists;
        config
    }

    /// The configuration as it is saved: inside Flatpak the sync folder is
    /// the default one.
    pub fn normalized(&self, h: &HostPaths) -> (res: SetupConfig)
        ensures
            res.auth_file == self.auth_file,
            res.sync_dir@ == normalized_sync_dir(*self, *h),
            res.exclude_dirs == self.exclude_dirs,
            res.proxy == self.proxy,
            res.autostart == self.autostart,
    {
        SetupConfig {
            auth_file: self.auth_file.clone(),
            sync_dir: if h.flatpak {
                default_sync_dir(h)
            } else {
                self.sync_dir.clone()
            },
            exclude_dirs: match &self.exclude_dirs {
                Some(v) => Some(v.clone()),
                None => None,
            },
            proxy: match &self.proxy {
                Some(v) => Some(v.clone()),
                None => None,
            },
            autostart: self.autostart,
        }
    }

    /// The text of the configuration file.
    pub fn config_contents(&self) -> (res: String)
        ensures
            res@ == contents_of(*self),
    {
        let ghost ls = config_lines(
            self.auth_file@,
            self.sync_dir@,
            opt_view(self.exclude_dirs),
            opt_view(self.proxy),
        );
        let mut out = chars_of("# Path to the authorization data file\n");
        extend_str(&mut out, "auth=");
        extend(&mut out, &quote_value_chars(&chars_of(self.auth_file.as_str())));
        extend_str(&mut out, "\n\n# Directory for storing a local copy of Yandex Disk.\n");
        extend_str(&mut out, "dir=");
        extend(&mut out, &quote_value_chars(&chars_of(self.sync_dir.as_str())));
        extend_str(&mut out, "\n");
        let ghost head = out@;
        proof {
            lemma_terminated_append(ls.take(5), ls.skip(5));
            assert(ls.take(5) + ls.skip(5) =~= ls);
            lemma_terminated_five(ls.take(5));
            reveal_strlit("# Path to the authorization data file\n");
            reveal_strlit("# Path to the authorization data file");
            reveal_strlit("auth=");
            reveal_strlit("\n\n# Directory for storing a local copy of Yandex Disk.\n");
            reveal_strlit("# Directory for storing a local copy of Yandex Disk.");
            reveal_strlit("dir=");
            reveal_strlit("\n");
            reveal_strlit("auth");
            reveal_strlit("dir");
            assert("auth="@ =~= "auth"@ + seq!['=']);
            assert("dir="@ =~= "dir"@ + seq!['=']);
            assert(head =~= terminated(ls.take(5)));
        }
        let block1 = optional_block_chars(
            self.exclude_dirs.as_ref(),
            "# Do not sync the specified directories.",
            "exclude-dirs",
        );
        extend(&mut out, &block1);
        let block2 = optional_block_chars(
            self.proxy.as_ref(),
            "# Proxy server: auto, no, or protocol,address,port,login,password.",
            "proxy",
        );
        extend(&mut out, &block2);
        proof {
            let b1 = optional_block(exclude_comment(), "exclude-dirs"@, opt_view(self.exclude_dirs));
            let b2 = optional_block(proxy_comment(), "proxy"@, opt_view(self.proxy));
            assert(ls.skip(5) =~= b1 + b2);
            lemma_terminated_append(b1, b2);
        }
        string_of(&out)
    }

    /// What saving this configuration writes, given the host.
    pub fn save_plan(&self, h: &HostPaths) -> (res: SavePlan)
        ensures
            res.config_dir@ == yandex_config_dir_of(*h),
            res.auth_file == self.auth_file,
            res.sync_dir@ == normalized_sync_dir(*self, *h),
            res.config_file@ == config_file_of(*h),
            res.config_contents@ == saved_text(*self, *h),
            res.autostart_file@ == autostart_file_of(*h),
            match res.autostart_contents {
                Some(c) => self.autostart && c@ == autostart_contents_of(h.flatpak),
                None => !self.autostart,
            },
    {
        let config = self.normalized(h);
        let contents = config.config_contents();
        SavePlan {
            config_dir: yandex_config_dir(h),
            auth_file: config.auth_file.clone(),
            sync_dir: config.sync_dir.clone(),
            config_file: config_file(h),
            config_contents: contents,
            autostart_file: autostart_file(h),
            autostart_contents: if config.autostart {
                Some(autostart_contents(h.flatpak))
            } else {
                None
            },
        }
    }
}

fn optional_block_chars(v: Option<&String>, comment: &str, name: &str) -> (res: Vec<char>)
    ensures
        res@ == terminated(
            optional_block(
                comment@,
                name@,
                match v {
                    Some(x) => Some(x@),
                    None => None,
                },
            ),
        ),
{
    let ghost vo = match v {
        Some(x) => Some(x@),
        None => None::<Seq<char>>,
    };
    match v {
        Some(x) => {
            let t = trimmed(&chars_of(x.as_str()), CharClass::Space);
            if t.len() > 0 {
                let mut out: Vec<char> = Vec::new();
                out.push('\n');
                extend_str(&mut out, comment);
                out.push('\n');
                extend_str(&mut out, name);
                out.push('=');
                extend(&mut out, &quote_value_chars(&t));
                out.push('\n');
                proof {
                    let b = optional_block(comment@, name@, vo);
                    assert(b == seq![Seq::<char>::empty(), comment@, setting_line(name@, t@)]);
                    lemma_terminated_three(b);
                    reveal_strlit("=");
                    assert(out@ =~= terminated(b));
                }
                return out;
            }
        },
        None => {},
    }
    assert(terminated(Seq::<Seq<char>>::empty()) =~= Seq::<char>::empty());
    Vec::new()
}

pub proof fn lemma_terminated_append(a: Seq<Seq<char>>, b: Seq<Seq<char>>)
    ensures
        terminated(a + b) == terminated(a) + terminated(b),
    decreases a.len(),
{
    if a.len() == 0 {
        assert(a + b =~= b);
        assert(terminated(a) =~= Seq::<char>::empty());
        assert(terminated(a) + terminated(b) =~= terminated(b));
    } else {
        lemma_terminated_append(a.drop_first(), b);
        assert((a + b).drop_first() =~= a.drop_first() + b);
        assert((a + b)[0] == a[0]);
        assert(terminated(a + b) =~= terminated(a) + terminated(b));
    }
}

proof fn lemma_terminated_one(l: Seq<char>)
    ensures
        terminated(seq![l]) == l + seq!['\n'],
{
    assert(seq![l].drop_first() =~= Seq::<Seq<char>>::empty());
    assert(terminated(seq![l].drop_first()) =~= Seq::<char>::empty());
    assert(terminated(seq![l]) =~= l + seq!['\n']);
}

proof fn lemma_terminated_three(b: Seq<Seq<char>>)
    requires
        b.len() == 3,
    ensures
        terminated(b) == b[0] + seq!['\n'] + b[1] + seq!['\n'] + b[2] + seq!['\n'],
{
    lemma_terminated_one(b[2]);
    let b1 = b.drop_first();
    assert(b1.drop_first() =~= seq![b[2]]);
    assert(b1[0] == b[1]);
    assert(terminated(b1) == b1[0] + seq!['\n'] + terminated(b1.drop_first()));
    assert(terminated(b) == b[0] + seq!['\n'] + terminated(b1));
    assert(terminated(b) =~= b[0] + seq!['\n'] + b[1] + seq!['\n'] + b[2] + seq!['\n']);
}

proof fn lemma_terminated_five(b: Seq<Seq<char>>)
    requires
        b.len() == 5,
    ensures
        terminated(b) == b[0] + seq!['\n'] + b[1] + seq!['\n'] + b[2] + seq!['\n'] + b[3] + seq![
            '\n',
        ] + b[4] + seq!['\n'],
{
    lemma_terminated_three(b.skip(2));
    let b1 = b.drop_first();
    assert(b1.drop_first() =~= b.skip(2));
    assert(b1[0] == b[1]);
    assert(b.skip(2)[0] == b[2] && b.skip(2)[1] == b[3] && b.skip(2)[2] == b[4]);
    assert(terminated(b1) == b1[0] + seq!['\n'] + terminated(b1.drop_first()));
    assert(terminated(b) == b[0] + seq!['\n'] + terminated(b1));
    assert(terminated(b) =~= b[0] + seq!['\n'] + b[1] + seq!['\n'] + b[2] + seq!['\n'] + b[3]
        + seq!['\n'] + b[4] + seq!['\n']);
}

// ---------------------------------------------------------------------------
// Reading back what was saved
// ---------------------------------------------------------------------------

proof fn lemma_literals()
    ensures
        plain_name("auth"@) && "auth"@.len() == 4,
        plain_name("dir"@) && "dir"@.len() == 3,
        plain_name("exclude-dirs"@) && "exclude-dirs"@.len() == 12,
        plain_name("proxy"@) && "proxy"@.len() == 5,
        auth_comment().len() > 0 && auth_comment()[0] == '#' && auth_comment().last() == 'e',
        dir_comment().len() > 0 && dir_comment()[0] == '#' && dir_comment().last() == '.',
        exclude_comment().len() > 0 && exclude_comment()[0] == '#' && exclude_comment().last()
            == '.',
        proxy_comment().len() > 0 && proxy_comment()[0] == '#' && proxy_comment().last() == '.',
        one_line(auth_comment()) && one_line(dir_comment()) && one_line(exclude_comment())
            && one_line(proxy_comment()),
{
    reveal_strlit("auth");
    reveal_strlit("dir");
    reveal_strlit("exclude-dirs");
    reveal_strlit("proxy");
    reveal_strlit("# Path to the authorization data file");
    reveal_strlit("# Directory for storing a local copy of Yandex Disk.");
    reveal_strlit("# Do not sync the specified directories.");
    reveal_strlit("# Proxy server: auto, no, or protocol,address,port,login,password.");
    assert("auth"@ =~= seq!['a', 'u', 't', 'h']);
    assert("dir"@ =~= seq!['d', 'i', 'r']);
    assert("proxy"@ =~= seq!['p', 'r', 'o', 'x', 'y']);
    assert("exclude-dirs"@ =~= seq!['e', 'x', 'c', 'l', 'u', 'd', 'e', '-', 'd', 'i', 'r', 's']);
    reveal_with_fuel(plain_name, 13);
}

/// Each line of the configuration text is a single line not ended by a
/// carriage return.
proof fn lemma_config_lines_shape(ls: Seq<Seq<char>>)
    requires
        forall|i: int| 0 <= i < ls.len() ==> one_line(#[trigger] ls[i]),
        forall|i: int| 0 <= i < ls.len() ==> (#[trigger] ls[i]).len() == 0 || ls[i].last() != '\r',
    ensures
        lines(terminated(ls)) == ls,
{
    crate::text::lemma_lines_terminated(ls);
}

proof fn lemma_block_values(comment: Seq<char>, name: Seq<char>, v: Option<Seq<char>>, key: Seq<char>)
    requires
        comment.len() > 0,
        comment[0] == '#',
        !crate::text::is_space(comment.last()),
        name.len() > 0,
        plain_name(name),
    ensures
        find_value(optional_block(comment, name, v), key) == (if name == key {
            filled(v)
        } else {
            None
        }),
{
    match filled(v) {
        Some(x) => {
            let b = optional_block(comment, name, v);
            lemma_blank_line(key);
            lemma_comment_line(comment, key);
            lemma_setting_line(name, x, key);
            assert(b =~= seq![Seq::<char>::empty()] + (seq![comment] + (seq![setting_line(name, x)]
                + Seq::<Seq<char>>::empty())));
            lemma_find_value_cons(Seq::<char>::empty(), seq![comment] + (seq![setting_line(name, x)]
                + Seq::<Seq<char>>::empty()), key);
            lemma_find_value_cons(comment, seq![setting_line(name, x)] + Seq::<Seq<char>>::empty(), key);
            lemma_find_value_cons(setting_line(name, x), Seq::<Seq<char>>::empty(), key);
        },
        None => {},
    }
}

proof fn lemma_block_shape(comment: Seq<char>, name: Seq<char>, v: Option<Seq<char>>)
    requires
        one_line(comment),
        comment.len() > 0,
        comment.last() != '\r',
        name.len() > 0,
        plain_name(name),
        v matches Some(x) ==> one_line(x),
    ensures
        forall|i: int|
            0 <= i < optional_block(comment, name, v).len() ==> one_line(
                #[trigger] optional_block(comment, name, v)[i],
            ) && (optional_block(comment, name, v)[i].len() == 0 || optional_block(
                comment,
                name,
                v,
            )[i].last() != '\r'),
{
    match filled(v) {
        Some(x) => {
            crate::text::lemma_trim_one_line(v->0);
            lemma_setting_line(name, x, name);
            assert(one_line(Seq::<char>::empty()));
        },
        None => {},
    }
}

/// Law: the text of the configuration file reads back the values it was
/// written from: `auth` and `dir` as given, `exclude-dirs` and `proxy`
/// trimmed when they are not blank and absent otherwise. The values must be
/// single lines, since a line feed would end the setting's line.
pub proof fn lemma_config_reads_back(
    auth: Seq<char>,
    dir: Seq<char>,
    exclude: Option<Seq<char>>,
    proxy: Option<Seq<char>>,
)
    requires
        one_line(auth),
        one_line(dir),
        exclude matches Some(x) ==> one_line(x),
        proxy matches Some(x) ==> one_line(x),
    ensures
        ({
            let c = terminated(config_lines(auth, dir, exclude, proxy));
            &&& parse_value_spec(c, "auth"@) == Some(auth)
            &&& parse_value_spec(c, "dir"@) == Some(dir)
            &&& parse_value_spec(c, "exclude-dirs"@) == filled(exclude)
            &&& parse_value_spec(c, "proxy"@) == filled(proxy)
        }),
{
    lemma_literals();
    let head = seq![
        auth_comment(),
        setting_line("auth"@, auth),
        Seq::empty(),
        dir_comment(),
        setting_line("dir"@, dir),
    ];
    let b1 = optional_block(exclude_comment(), "exclude-dirs"@, exclude);
    let b2 = optional_block(proxy_comment(), "proxy"@, proxy);
    let ls = config_lines(auth, dir, exclude, proxy);
    assert(ls == head + b1 + b2);
    // The text splits back into these lines.
    lemma_setting_line("auth"@, auth, "auth"@);
    lemma_setting_line("dir"@, dir, "dir"@);
    lemma_block_shape(exclude_comment(), "exclude-dirs"@, exclude);
    lemma_block_shape(proxy_comment(), "proxy"@, proxy);
    assert(one_line(Seq::<char>::empty()));
    assert forall|i: int| 0 <= i < ls.len() implies one_line(#[trigger] ls[i]) && (ls[i].len() == 0
        || ls[i].last() != '\r') by {
        if i >= head.len() + b1.len() {
            assert(ls[i] == b2[i - head.len() - b1.len()]);
        } else if i >= head.len() {
            assert(ls[i] == b1[i - head.len()]);
        } else {
            assert(ls[i] == head[i]);
        }
    }
    lemma_config_lines_shape(ls);
    // Each key is found where it was written.
    lemma_values_for(auth, dir, exclude, proxy, "auth"@);
    lemma_values_for(auth, dir, exclude, proxy, "dir"@);
    lemma_values_for(auth, dir, exclude, proxy, "exclude-dirs"@);
    lemma_values_for(auth, dir, exclude, proxy, "proxy"@);
}

proof fn lemma_values_for(
    auth: Seq<char>,
    dir: Seq<char>,
    exclude: Option<Seq<char>>,
    proxy: Option<Seq<char>>,
    key: Seq<char>,
)
    requires
        key == "auth"@ || key == "dir"@ || key == "exclude-dirs"@ || key == "proxy"@,
    ensures
        find_value(config_lines(auth, dir, exclude, proxy), key) == (if key == "auth"@ {
            Some(auth)
        } else if key == "dir"@ {
            Some(dir)
        } else if key == "exclude-dirs"@ {
            filled(exclude)
        } else {
            filled(proxy)
        }),
{
    lemma_literals();
    let la = setting_line("auth"@, auth);
    let ld = setting_line("dir"@, dir);
    let b1 = optional_block(exclude_comment(), "exclude-dirs"@, exclude);
    let b2 = optional_block(proxy_comment(), "proxy"@, proxy);
    let tail = b1 + b2;
    let ls = config_lines(auth, dir, exclude, proxy);
    assert(ls =~= seq![auth_comment()] + (seq![la] + (seq![Seq::<char>::empty()] + (seq![dir_comment()]
        + (seq![ld] + tail)))));
    lemma_comment_line(auth_comment(), key);
    lemma_setting_line("auth"@, auth, key);
    lemma_blank_line(key);
    lemma_comment_line(dir_comment(), key);
    lemma_setting_line("dir"@, dir, key);
    lemma_find_value_cons(auth_comment(), seq![la] + (seq![Seq::<char>::empty()] + (seq![dir_comment()]
        + (seq![ld] + tail))), key);
    lemma_find_value_cons(la, seq![Seq::<char>::empty()] + (seq![dir_comment()] + (seq![ld] + tail)), key);
    lemma_find_value_cons(Seq::<char>::empty(), seq![dir_comment()] + (seq![ld] + tail), key);
    lemma_find_value_cons(dir_comment(), seq![ld] + tail, key);
    lemma_find_value_cons(ld, tail, key);
    lemma_find_value_append(b1, b2, key);
    lemma_block_values(exclude_comment(), "exclude-dirs"@, exclude, key);
    lemma_block_values(proxy_comment(), "proxy"@, proxy, key);
}

/// The lines that the `dir` setting of a sync folder reads as: one, or more
/// when the folder's path holds a line feed.
pub open spec fn dir_setting_lines(dir: Seq<char>) -> Seq<Seq<char>> {
    lines(setting_line("dir"@, dir) + seq!['\n'])
}

/// Whatever the sync folder, the configuration text reads back the
/// authorization file, the exclusions and the proxy, unless a line of the
/// folder's setting gives a value for the exclusions or the proxy.
proof fn lemma_other_values_read_back(
    auth: Seq<char>,
    dir: Seq<char>,
    exclude: Option<Seq<char>>,
    proxy: Option<Seq<char>>,
)
    requires
        one_line(auth),
        exclude matches Some(x) ==> one_line(x),
        proxy matches Some(x) ==> one_line(x),
        find_value(dir_setting_lines(dir), "exclude-dirs"@) is None,
        find_value(dir_setting_lines(dir), "proxy"@) is None,
    ensures
        ({
            let c = terminated(config_lines(auth, dir, exclude, proxy));
            &&& parse_value_spec(c, "auth"@) == Some(auth)
            &&& parse_value_spec(c, "exclude-dirs"@) == filled(exclude)
            &&& parse_value_spec(c, "proxy"@) == filled(proxy)
        }),
{
    lemma_literals();
    let la = setting_line("auth"@, auth);
    let ld = setting_line("dir"@, dir);
    let head = seq![auth_comment(), la, Seq::<char>::empty(), dir_comment()];
    let b1 = optional_block(exclude_comment(), "exclude-dirs"@, exclude);
    let b2 = optional_block(proxy_comment(), "proxy"@, proxy);
    let tail = b1 + b2;
    let ls = config_lines(auth, dir, exclude, proxy);
    assert(ls =~= head + (seq![ld] + tail));
    crate::setup::lemma_terminated_append(head, seq![ld] + tail);
    crate::setup::lemma_terminated_append(seq![ld], tail);
    lemma_terminated_one(ld);
    let text = terminated(ls);
    assert(text =~= terminated(head) + ((ld + seq!['\n']) + terminated(tail)));
    // The lines around the folder's setting are read as written.
    lemma_setting_line("auth"@, auth, "auth"@);
    lemma_block_shape(exclude_comment(), "exclude-dirs"@, exclude);
    lemma_block_shape(proxy_comment(), "proxy"@, proxy);
    assert(one_line(Seq::<char>::empty()));
    assert forall|i: int| 0 <= i < head.len() implies one_line(#[trigger] head[i]) && (head[i].len()
        == 0 || head[i].last() != '\r') by {}
    crate::text::lemma_lines_terminated(head);
    assert forall|i: int| 0 <= i < tail.len() implies one_line(#[trigger] tail[i]) && (tail[i].len()
        == 0 || tail[i].last() != '\r') by {
        if i >= b1.len() {
            assert(tail[i] == b2[i - b1.len()]);
        } else {
            assert(tail[i] == b1[i]);
        }
    }
    crate::text::lemma_lines_terminated(tail);
    crate::text::lemma_terminated_last(head);
    crate::text::lemma_lines_append(terminated(head), (ld + seq!['\n']) + terminated(tail));
    assert((ld + seq!['\n']).last() == '\n');
    crate::text::lemma_lines_append(ld + seq!['\n'], terminated(tail));
    let pieces = dir_setting_lines(dir);
    assert(lines(text) == head + (pieces + tail));
    // The first line that gives each value.
    let keys = seq!["auth"@, "exclude-dirs"@, "proxy"@];
    assert forall|k: int| 0 <= k < 3 implies find_value(#[trigger] lines(text), keys[k]) == (if keys[k] == "auth"@ {
        Some(auth)
    } else if keys[k] == "exclude-dirs"@ {
        filled(exclude)
    } else {
        filled(proxy)
    }) by {
        let key = keys[k];
        assert(key == "auth"@ || key == "exclude-dirs"@ || key == "proxy"@);
        lemma_comment_line(auth_comment(), key);
        lemma_setting_line("auth"@, auth, key);
        lemma_blank_line(key);
        lemma_comment_line(dir_comment(), key);
        assert(head =~= seq![auth_comment()] + (seq![la] + (seq![Seq::<char>::empty()] + (
        seq![dir_comment()] + Seq::<Seq<char>>::empty()))));
        lemma_find_value_cons(auth_comment(), seq![la] + (seq![Seq::<char>::empty()] + (
        seq![dir_comment()] + Seq::<Seq<char>>::empty())), key);
        lemma_find_value_cons(la, seq![Seq::<char>::empty()] + (seq![dir_comment()]
            + Seq::<Seq<char>>::empty()), key);
        lemma_find_value_cons(Seq::<char>::empty(), seq![dir_comment()]
            + Seq::<Seq<char>>::empty(), key);
        lemma_find_value_cons(dir_comment(), Seq::<Seq<char>>::empty(), key);
        lemma_find_value_append(head, pieces + tail, key);
        lemma_find_value_append(pieces, tail, key);
        lemma_find_value_append(b1, b2, key);
        lemma_block_values(exclude_comment(), "exclude-dirs"@, exclude, key);
        lemma_block_values(proxy_comment(), "proxy"@, proxy, key);
    }
    assert(keys[0] == "auth"@ && keys[1] == "exclude-dirs"@ && keys[2] == "proxy"@);
    assert(find_value(lines(text), keys[0]) == Some(auth));
    assert(find_value(lines(text), keys[1]) == filled(exclude));
    assert(find_value(lines(text), keys[2]) == filled(proxy));
}

/// Law: a configuration saved on a host is what the next start-up there
/// loads, given that the autostart entry exists exactly when it was enabled:
/// the authorization file and the (normalized) sync folder as saved, the
/// exclusions and proxy trimmed when they were not blank and absent
/// otherwise. The authorization file, exclusions and proxy must be single
/// lines, and so must the sync folder outside Flatpak; inside Flatpak, where
/// the folder is the default one and loading does not read it back, no line
/// of its setting may give a value for the exclusions or the proxy.
pub proof fn lemma_saved_config_loads_back(c: SetupConfig, h: HostPaths, res: SetupConfig)
    requires
        one_line(c.auth_file@),
        !h.flatpak ==> one_line(c.sync_dir@),
        h.flatpak ==> find_value(dir_setting_lines(default_sync_dir_of(h)), "exclude-dirs"@) is None,
        h.flatpak ==> find_value(dir_setting_lines(default_sync_dir_of(h)), "proxy"@) is None,
        c.exclude_dirs matches Some(x) ==> one_line(x@),
        c.proxy matches Some(x) ==> one_line(x@),
        loaded_matches(res, h, Some(saved_text(c, h)), c.autostart),
    ensures
        res.auth_file@ == c.auth_file@,
        res.sync_dir@ == normalized_sync_dir(c, h),
        opt_view(res.exclude_dirs) == filled(opt_view(c.exclude_dirs)),
        opt_view(res.proxy) == filled(opt_view(c.proxy)),
        res.autostart == c.autostart,
{
    if h.flatpak {
        lemma_other_values_read_back(
            c.auth_file@,
            normalized_sync_dir(c, h),
            opt_view(c.exclude_dirs),
            opt_view(c.proxy),
        );
    } else {
        lemma_config_reads_back(
            c.auth_file@,
            normalized_sync_dir(c, h),
            opt_view(c.exclude_dirs),
            opt_view(c.proxy),
        );
    }
}

} // verus!
