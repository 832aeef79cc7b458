//! Where the configuration lives and how values are written to and read from
//! the `yandex-disk` configuration file.
use vstd::prelude::*;

use crate::text::{
    lemma_per_char_append, lemma_per_char_one, lemma_replace_single, per_char, chars_of, extend, extend_str, find_char, next_line, replace_all, replaced, same_chars, slice,
    split_once, string_of, trim, trimmed, lines, CharClass,
};

verus! {

/// The application identifier.
pub const APP_ID: &'static str = "app.diskette.Diskette";

/// What the host tells about its directories, as read by the application:
/// the user's configuration directory and home directory when known, and
/// whether the application runs inside Flatpak.
#[derive(Clone, Debug)]
pub struct HostPaths {
    pub config_dir: Option<String>,
    pub home_dir: Option<String>,
    pub flatpak: bool,
}

/// `Path::join` of a relative name onto a base.
pub open spec fn join_path(base: Seq<char>, name: Seq<char>) -> Seq<char> {
    if base.len() == 0 || base.last() == '/' {
        base + name
    } else {
        base + seq!['/'] + name
    }
}

pub open spec fn home_of(h: HostPaths) -> Seq<char> {
    match h.home_dir {
        Some(p) => p@,
        None => "."@,
    }
}

pub open spec fn config_base_of(h: HostPaths) -> Seq<char> {
    match h.config_dir {
        Some(p) => p@,
        None => join_path(home_of(h), ".config"@),
    }
}

pub open spec fn yandex_config_dir_of(h: HostPaths) -> Seq<char> {
    join_path(config_base_of(h), "yandex-disk"@)
}

pub open spec fn config_file_of(h: HostPaths) -> Seq<char> {
    join_path(yandex_config_dir_of(h), "config.cfg"@)
}

pub open spec fn default_sync_dir_of(h: HostPaths) -> Seq<char> {
    join_path(home_of(h), "Yandex.Disk"@)
}

pub open spec fn autostart_file_of(h: HostPaths) -> Seq<char> {
    join_path(join_path(config_base_of(h), "autostart"@), APP_ID@ + ".yandex-disk.desktop"@)
}

pub open spec fn autostart_contents_of(flatpak: bool) -> Seq<char> {
    let exec = if flatpak {
        "flatpak run --command=/app/extra/usr/bin/yandex-disk "@ + APP_ID@ + " start"@
    } else {
        "yandex-disk start"@
    };
    "[Desktop Entry]\nType=Application\nName=Yandex Disk Sync\nExec="@ + exec
        + "\nNoDisplay=true\nX-GNOME-Autostart-enabled=true\n"@
}

/// A value written in double quotes, with `\` and `"` escaped by a backslash.
pub open spec fn quoted_value(v: Seq<char>) -> Seq<char> {
    seq!['"'] + replace_all(replace_all(v, seq!['\\'], seq!['\\', '\\']), seq!['"'], seq!['\\', '"'])
        + seq!['"']
}

/// A configuration value as read: trimmed, and when it is in double quotes,
/// without them and with `\"` and then `\\` unescaped.
pub open spec fn unquoted_value(v: Seq<char>) -> Seq<char> {
    let t = trim(v);
    if t.len() >= 2 && t[0] == '"' && t.last() == '"' {
        replace_all(
            replace_all(t.subrange(1, t.len() - 1), seq!['\\', '"'], seq!['"']),
            seq!['\\', '\\'],
            seq!['\\'],
        )
    } else {
        t
    }
}

/// The value a configuration line gives for `key`: none for a comment or a
/// line without `=`, or when the trimmed text before the first `=` is not
/// the key.
pub open spec fn key_value(line: Seq<char>, key: Seq<char>) -> Option<Seq<char>> {
    let t = trim(line);
    if t.len() > 0 && t[0] == '#' {
        None
    } else {
        match split_once(t, '=') {
            Some((k, v)) if trim(k) == key => Some(unquoted_value(trim(v))),
            _ => None,
        }
    }
}

/// The value of the first line that gives one for `key`.
pub open spec fn find_value(ls: Seq<Seq<char>>, key: Seq<char>) -> Option<Seq<char>>
    decreases ls.len(),
{
    if ls.len() == 0 {
        None
    } else {
        match key_value(ls[0], key) {
            Some(v) => Some(v),
            None => find_value(ls.drop_first(), key),
        }
    }
}

pub open spec fn parse_value_spec(contents: Seq<char>, key: Seq<char>) -> Option<Seq<char>> {
    find_value(lines(contents), key)
}

fn join_path_chars(base: &Vec<char>, name: &str) -> (res: Vec<char>)
    ensures
        res@ == join_path(base@, name@),
{
    let mut r = base.clone();
    if base.len() > 0 && base[base.len() - 1] != '/' {
        r.push('/');
    }
    extend_str(&mut r, name);
    r
}

/// `Path::join` of a relative name onto a base path.
pub fn join_path_text(base: &str, name: &str) -> (res: String)
    ensures
        res@ == join_path(base@, name@),
{
    string_of(&join_path_chars(&chars_of(base), name))
}

/// The home directory, or `.` when it is unknown.
pub fn home_dir(h: &HostPaths) -> (res: String)
    ensures
        res@ == home_of(*h),
{
    match &h.home_dir {
        Some(p) => p.clone(),
        None => ".".to_owned(),
    }
}

fn config_base(h: &HostPaths) -> (res: String)
    ensures
        res@ == config_base_of(*h),
{
    match &h.config_dir {
        Some(p) => p.clone(),
        None => join_path_text(home_dir(h).as_str(), ".config"),
    }
}

/// The configuration directory of `yandex-disk`.
pub fn yandex_config_dir(h: &HostPaths) -> (res: String)
    ensures
        res@ == yandex_config_dir_of(*h),
{
    join_path_text(config_base(h).as_str(), "yandex-disk")
}

/// The configuration file of `yandex-disk`.
pub fn config_file(h: &HostPaths) -> (res: String)
    ensures
        res@ == config_file_of(*h),
{
    join_path_text(yandex_config_dir(h).as_str(), "config.cfg")
}

/// The default folder kept in sync.
pub fn default_sync_dir(h: &HostPaths) -> (res: String)
    ensures
        res@ == default_sync_dir_of(*h),
{
    join_path_text(home_dir(h).as_str(), "Yandex.Disk")
}

/// The desktop entry that starts syncing at login.
pub fn autostart_file(h: &HostPaths) -> (res: String)
    ensures
        res@ == autostart_file_of(*h),
{
    let dir = join_path_text(config_base(h).as_str(), "autostart");
    let mut name = chars_of(APP_ID);
    extend_str(&mut name, ".yandex-disk.desktop");
    let name = string_of(&name);
    join_path_text(dir.as_str(), name.as_str())
}

/// The contents of the desktop entry that starts syncing at login.
pub fn autostart_contents(flatpak: bool) -> (res: String)
    ensures
        res@ == autostart_contents_of(flatpak),
{
    let mut r = chars_of("[Desktop Entry]\nType=Application\nName=Yandex Disk Sync\nExec=");
    if flatpak {
        extend_str(&mut r, "flatpak run --command=/app/extra/usr/bin/yandex-disk ");
        extend_str(&mut r, APP_ID);
        extend_str(&mut r, " start");
    } else {
        extend_str(&mut r, "yandex-disk start");
    }
    extend_str(&mut r, "\nNoDisplay=true\nX-GNOME-Autostart-enabled=true\n");
    string_of(&r)
}

pub fn quote_value_chars(value: &Vec<char>) -> (res: Vec<char>)
    ensures
        res@ == quoted_value(value@),
{
    proof {
        reveal_strlit("\\");
        reveal_strlit("\\\\");
        reveal_strlit("\"");
        reveal_strlit("\\\"");
        assert("\\"@ =~= seq!['\\']);
        assert("\\\\"@ =~= seq!['\\', '\\']);
        assert("\""@ =~= seq!['"']);
        assert("\\\""@ =~= seq!['\\', '"']);
    }
    let a = replaced(value, "\\", "\\\\");
    let b = replaced(&a, "\"", "\\\"");
    let mut r: Vec<char> = Vec::new();
    r.push('"');
    extend(&mut r, &b);
    r.push('"');
    assert(r@ =~= quoted_value(value@));
    r
}

/// Writes a value in double quotes, escaping `\` and `"`.
pub fn quote_value(value: &str) -> (res: String)
    ensures
        res@ == quoted_value(value@),
{
    string_of(&quote_value_chars(&chars_of(value)))
}

fn unquote_value_chars(value: &Vec<char>) -> (res: Vec<char>)
    ensures
        res@ == unquoted_value(value@),
{
    let t = trimmed(value, CharClass::Space);
    if t.len() >= 2 && t[0] == '"' && t[t.len() - 1] == '"' {
        proof {
            reveal_strlit("\\\"");
            reveal_strlit("\"");
            reveal_strlit("\\\\");
            reveal_strlit("\\");
            assert("\\"@ =~= seq!['\\']);
            assert("\\\\"@ =~= seq!['\\', '\\']);
            assert("\""@ =~= seq!['"']);
            assert("\\\""@ =~= seq!['\\', '"']);
        }
        let inner = slice(&t, 1, t.len() - 1);
        let a = replaced(&inner, "\\\"", "\"");
        replaced(&a, "\\\\", "\\")
    } else {
        t
    }
}

/// Reads a configuration value: trims it and, when it is in double quotes,
/// removes them and unescapes `\"` and `\\`.
pub fn unquote_value(value: &str) -> (res: String)
    ensures
        res@ == unquoted_value(value@),
{
    string_of(&unquote_value_chars(&chars_of(value)))
}

fn key_value_chars(line: &Vec<char>, key: &Vec<char>) -> (res: Option<Vec<char>>)
    ensures
        match res {
            Some(v) => key_value(line@, key@) == Some(v@),
            None => key_value(line@, key@) is None,
        },
{
    let t = trimmed(line, CharClass::Space);
    if t.len() > 0 && t[0] == '#' {
        return None;
    }
    let k = find_char(&t, '=', 0);
    assert(t@.skip(0) =~= t@);
    if k == t.len() {
        return None;
    }
    let name = slice(&t, 0, k);
    let value = slice(&t, k + 1, t.len());
    assert(name@ =~= t@.take(k as int));
    assert(value@ =~= t@.skip(k + 1));
    let name_t = trimmed(&name, CharClass::Space);
    if same_chars(&name_t, key) {
        let vt = trimmed(&value, CharClass::Space);
        Some(unquote_value_chars(&vt))
    } else {
        None
    }
}

/// The value of the first configuration line that sets `key`.
pub fn parse_value(contents: &str, key: &str) -> (res: Option<String>)
    ensures
        match res {
            Some(v) => parse_value_spec(contents@, key@) == Some(v@),
            None => parse_value_spec(contents@, key@) is None,
        },
{
    let c = chars_of(contents);
    let kv = chars_of(key);
    let mut pos: usize = 0;
    assert(c@.skip(0) =~= c@);
    while pos < c.len()
        invariant
            pos <= c.len(),
            c@ == contents@,
            kv@ == key@,
            parse_value_spec(contents@, key@) == find_value(lines(c@.skip(pos as int)), key@),
        decreases c.len() - pos,
    {
        let ghost before = lines(c@.skip(pos as int));
        let (line, next) = next_line(&c, pos);
        assert(before[0] == line@);
        assert(before.drop_first() =~= lines(c@.skip(next as int)));
        if let Some(v) = key_value_chars(&line, &kv) {
            return Some(string_of(&v));
        }
        pos = next;
    }
    assert(c@.skip(pos as int) =~= Seq::<char>::empty());
    None
}

// ---------------------------------------------------------------------------
// Quoting laws
// ---------------------------------------------------------------------------

/// The escape of one character inside a quoted value.
pub open spec fn escape_one(c: char) -> Seq<char> {
    if c == '\\' {
        seq!['\\', '\\']
    } else if c == '"' {
        seq!['\\', '"']
    } else {
        seq![c]
    }
}

pub open spec fn escaped(v: Seq<char>) -> Seq<char>
    decreases v.len(),
{
    if v.len() == 0 {
        Seq::empty()
    } else {
        escape_one(v[0]) + escaped(v.drop_first())
    }
}

proof fn lemma_escape_by_two_passes(v: Seq<char>)
    ensures
        per_char(per_char(v, '\\', seq!['\\', '\\']), '"', seq!['\\', '"']) == escaped(v),
    decreases v.len(),
{
    if v.len() > 0 {
        let rest = v.drop_first();
        lemma_escape_by_two_passes(rest);
        let x = if v[0] == '\\' {
            seq!['\\', '\\']
        } else {
            seq![v[0]]
        };
        let p = per_char(rest, '\\', seq!['\\', '\\']);
        assert(per_char(v, '\\', seq!['\\', '\\']) == x + p);
        lemma_per_char_append(x, p, '"', seq!['\\', '"']);
        if v[0] == '\\' {
            lemma_per_char_one('\\', '"', seq!['\\', '"']);
            lemma_per_char_append(seq!['\\'], seq!['\\'], '"', seq!['\\', '"']);
            assert(seq!['\\'] + seq!['\\'] =~= x);
            assert(per_char(x, '"', seq!['\\', '"']) =~= seq!['\\', '\\']);
        } else {
            lemma_per_char_one(v[0], '"', seq!['\\', '"']);
            assert(per_char(x, '"', seq!['\\', '"']) =~= escape_one(v[0]));
        }
    }
}

proof fn lemma_escaped_head(v: Seq<char>)
    ensures
        escaped(v).len() == 0 || escaped(v)[0] != '"',
        v.len() > 0 ==> escaped(v).len() > 0,
{
    if v.len() > 0 {
        assert(escaped(v) == escape_one(v[0]) + escaped(v.drop_first()));
        assert(escaped(v)[0] == escape_one(v[0])[0]);
    }
}

proof fn lemma_unescape_quotes(v: Seq<char>)
    ensures
        replace_all(escaped(v), seq!['\\', '"'], seq!['"']) == per_char(
            v,
            '\\',
            seq!['\\', '\\'],
        ),
    decreases v.len(),
{
    if v.len() > 0 {
        let rest = v.drop_first();
        let e = escaped(rest);
        lemma_unescape_quotes(rest);
        lemma_escaped_head(rest);
        let pat = seq!['\\', '"'];
        let s = escaped(v);
        assert(s == escape_one(v[0]) + e);
        if v[0] == '"' {
            assert(s.take(2) =~= pat);
            assert(s.skip(2) =~= e);
            assert(replace_all(s, pat, seq!['"']) == seq!['"'] + replace_all(e, pat, seq!['"']));
        } else if v[0] == '\\' {
            assert(s[1] == '\\');
            assert(s.take(2) != pat) by {
                assert(s.take(2)[1] != pat[1]);
            }
            let s1 = s.drop_first();
            assert(s1 =~= seq!['\\'] + e);
            if e.len() > 0 {
                assert(s1.take(2) != pat) by {
                    assert(s1.take(2)[1] == e[0]);
                }
            }
            assert(!crate::text::starts_with(s1, pat));
            assert(s1.drop_first() =~= e);
            assert(replace_all(s1, pat, seq!['"']) == seq!['\\'] + replace_all(e, pat, seq!['"']));
            assert(replace_all(s, pat, seq!['"']) == seq![s[0]] + replace_all(s1, pat, seq!['"']));
            assert(replace_all(s, pat, seq!['"']) =~= seq!['\\', '\\'] + replace_all(
                e,
                pat,
                seq!['"'],
            ));
        } else {
            assert(s[0] == v[0]);
            if s.len() >= 2 {
                assert(s.take(2) != pat) by {
                    assert(s.take(2)[0] != pat[0]);
                }
            }
            assert(s.drop_first() =~= e);
        }
    }
}

proof fn lemma_undouble(v: Seq<char>)
    ensures
        replace_all(per_char(v, '\\', seq!['\\', '\\']), seq!['\\', '\\'], seq!['\\']) == v,
    decreases v.len(),
{
    if v.len() > 0 {
        let rest = v.drop_first();
        lemma_undouble(rest);
        let pat = seq!['\\', '\\'];
        let p = per_char(rest, '\\', pat);
        let s = per_char(v, '\\', pat);
        if v[0] == '\\' {
            assert(s == pat + p);
            assert(s.take(2) =~= pat);
            assert(s.skip(2) =~= p);
            assert(replace_all(s, pat, seq!['\\']) =~= v);
        } else {
            assert(s == seq![v[0]] + p);
            if s.len() >= 2 {
                assert(s.take(2) != pat) by {
                    assert(s.take(2)[0] != pat[0]);
                }
            }
            assert(s.drop_first() =~= p);
            assert(replace_all(s, pat, seq!['\\']) =~= v);
        }
    }
}

/// A quoted value reads back as written: `unquote_value(quote_value(v)) == v`.
pub proof fn lemma_unquote_quote(v: Seq<char>)
    ensures
        unquoted_value(quoted_value(v)) == v,
{
    lemma_replace_single(v, '\\', seq!['\\', '\\']);
    lemma_replace_single(per_char(v, '\\', seq!['\\', '\\']), '"', seq!['\\', '"']);
    lemma_escape_by_two_passes(v);
    let q = quoted_value(v);
    assert(q == seq!['"'] + escaped(v) + seq!['"']);
    crate::text::lemma_trim_noop(q);
    assert(q.subrange(1, q.len() - 1) =~= escaped(v));
    lemma_unescape_quotes(v);
    lemma_undouble(v);
}

// ---------------------------------------------------------------------------
// Reading back setting lines
// ---------------------------------------------------------------------------

pub open spec fn name_char(c: char) -> bool {
    ('a' <= c && c <= 'z') || c == '-'
}

/// A setting name made of lowercase ASCII letters and dashes.
pub open spec fn plain_name(s: Seq<char>) -> bool
    decreases s.len(),
{
    s.len() == 0 || (name_char(s[0]) && plain_name(s.drop_first()))
}

/// The line that writes a setting: `name="value"`.
pub open spec fn setting_line(name: Seq<char>, v: Seq<char>) -> Seq<char> {
    name + seq!['='] + quoted_value(v)
}

proof fn lemma_plain_name(s: Seq<char>)
    requires
        plain_name(s),
    ensures
        forall|i: int| 0 <= i < s.len() ==> name_char(#[trigger] s[i]),
    decreases s.len(),
{
    if s.len() > 0 {
        lemma_plain_name(s.drop_first());
        assert forall|i: int| 0 <= i < s.len() implies name_char(#[trigger] s[i]) by {
            if i > 0 {
                assert(s[i] == s.drop_first()[i - 1]);
            }
        }
    }
}

proof fn lemma_escaped_one_line(v: Seq<char>)
    requires
        crate::text::one_line(v),
    ensures
        crate::text::one_line(escaped(v)),
    decreases v.len(),
{
    if v.len() > 0 {
        let rest = v.drop_first();
        assert forall|i: int| 0 <= i < rest.len() implies rest[i] != '\n' by {
            assert(rest[i] == v[i + 1]);
        }
        lemma_escaped_one_line(rest);
        let e = escape_one(v[0]);
        assert(escaped(v) == e + escaped(rest));
        assert forall|i: int| 0 <= i < escaped(v).len() implies escaped(v)[i] != '\n' by {
            if i >= e.len() {
                assert(escaped(v)[i] == escaped(rest)[i - e.len()]);
            }
        }
    }
}

/// A quoted value is its escaped text between double quotes.
pub proof fn lemma_quoted_shape(v: Seq<char>)
    ensures
        quoted_value(v) == seq!['"'] + escaped(v) + seq!['"'],
        crate::text::one_line(v) ==> crate::text::one_line(quoted_value(v)),
{
    lemma_replace_single(v, '\\', seq!['\\', '\\']);
    lemma_replace_single(per_char(v, '\\', seq!['\\', '\\']), '"', seq!['\\', '"']);
    lemma_escape_by_two_passes(v);
    if crate::text::one_line(v) {
        lemma_escaped_one_line(v);
        let q = quoted_value(v);
        assert forall|i: int| 0 <= i < q.len() implies q[i] != '\n' by {
            if 0 < i < q.len() - 1 {
                assert(q[i] == escaped(v)[i - 1]);
            }
        }
    }
}

/// A setting line gives its value for its own name and nothing for any
/// other key.
pub proof fn lemma_setting_line(name: Seq<char>, v: Seq<char>, key: Seq<char>)
    requires
        name.len() > 0,
        plain_name(name),
    ensures
        key_value(setting_line(name, v), key) == (if name == key {
            Some(v)
        } else {
            None
        }),
        crate::text::one_line(v) ==> crate::text::one_line(setting_line(name, v)),
        setting_line(name, v).last() == '"',
{
    lemma_plain_name(name);
    lemma_quoted_shape(v);
    let q = quoted_value(v);
    let l = setting_line(name, v);
    assert(l[0] == name[0]);
    assert(name_char(name[0]));
    assert(l.last() == '"');
    crate::text::lemma_trim_noop(l);
    assert forall|j: int| 0 <= j < name.len() implies l[j] != '=' by {
        assert(l[j] == name[j]);
        assert(name_char(name[j]));
    }
    assert(l[name.len() as int] == '=');
    crate::text::lemma_index_of(l, '=', name.len() as int);
    assert(l.take(name.len() as int) =~= name);
    assert(l.skip(name.len() as int + 1) =~= q);
    assert(name_char(name.last()));
    crate::text::lemma_trim_noop(name);
    crate::text::lemma_trim_noop(q);
    lemma_unquote_quote(v);
    if crate::text::one_line(v) {
        assert forall|i: int| 0 <= i < l.len() implies l[i] != '\n' by {
            if i < name.len() {
                assert(l[i] == name[i]);
                assert(name_char(name[i]));
            } else if i > name.len() {
                assert(l[i] == q[i - name.len() - 1]);
            }
        }
    }
}

/// A comment line gives no value.
pub proof fn lemma_comment_line(c: Seq<char>, key: Seq<char>)
    requires
        c.len() > 0,
        c[0] == '#',
        !crate::text::is_space(c.last()),
    ensures
        key_value(c, key) is None,
{
    crate::text::lemma_trim_noop(c);
}

/// A blank line gives no value.
pub proof fn lemma_blank_line(key: Seq<char>)
    ensures
        key_value(Seq::empty(), key) is None,
{
    assert(trim(Seq::<char>::empty()) =~= Seq::<char>::empty());
}

pub proof fn lemma_find_value_cons(l: Seq<char>, rest: Seq<Seq<char>>, key: Seq<char>)
    ensures
        find_value(seq![l] + rest, key) == match key_value(l, key) {
            Some(v) => Some(v),
            None => find_value(rest, key),
        },
{
    assert((seq![l] + rest)[0] == l);
    assert((seq![l] + rest).drop_first() =~= rest);
}

pub proof fn lemma_find_value_append(a: Seq<Seq<char>>, b: Seq<Seq<char>>, key: Seq<char>)
    ensures
        find_value(a + b, key) == match find_value(a, key) {
            Some(v) => Some(v),
            None => find_value(b, key),
        },
    decreases a.len(),
{
    if a.len() == 0 {
        assert(a + b =~= b);
    } else {
        lemma_find_value_append(a.drop_first(), b, key);
        assert((a + b)[0] == a[0]);
        assert((a + b).drop_first() =~= a.drop_first() + b);
    }
}

} // verus!
