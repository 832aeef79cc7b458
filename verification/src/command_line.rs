//! Shell quoting of command words and the choice of the `yandex-disk` binary.
use vstd::prelude::*;

use crate::text::{
    chars_of, extend, lemma_replace_single, per_char, replace_all, replaced, string_of, trim,
    trimmed, CharClass,
};

verus! {

/// Characters that never need quoting in a POSIX shell word.
pub open spec fn is_shell_safe(c: char) -> bool {
    ('a' <= c && c <= 'z') || ('A' <= c && c <= 'Z') || ('0' <= c && c <= '9') || c == '/' || c
        == '.' || c == '_' || c == '-' || c == '=' || c == ':' || c == ','
}

/// The word as a shell reads it back: unchanged when every character is safe,
/// otherwise inside single quotes with each `'` written as `'\''`.
pub open spec fn shell_quoted(value: Seq<char>) -> Seq<char> {
    if forall|i: int| 0 <= i < value.len() ==> is_shell_safe(#[trigger] value[i]) {
        value
    } else {
        seq!['\''] + replace_all(value, seq!['\''], seq!['\'', '\\', '\'', '\'']) + seq!['\'']
    }
}

fn shell_safe(c: char) -> (res: bool)
    ensures
        res == is_shell_safe(c),
{
    ('a' <= c && c <= 'z') || ('A' <= c && c <= 'Z') || ('0' <= c && c <= '9') || c == '/' || c
        == '.' || c == '_' || c == '-' || c == '=' || c == ':' || c == ','
}

pub fn shell_quote_chars(value: &Vec<char>) -> (res: Vec<char>)
    ensures
        res@ == shell_quoted(value@),
{
    let mut i: usize = 0;
    while i < value.len()
        invariant
            i <= value.len(),
            forall|j: int| 0 <= j < i ==> is_shell_safe(#[trigger] value@[j]),
        decreases value.len() - i,
    {
        if !shell_safe(value[i]) {
            let mut res: Vec<char> = Vec::new();
            res.push('\'');
            proof {
                reveal_strlit("'");
                reveal_strlit("'\\''");
            }
            let inner = replaced(value, "'", "'\\''");
            extend(&mut res, &inner);
            res.push('\'');
            assert(!is_shell_safe(value@[i as int]));
            assert("'"@ =~= seq!['\'']);
            assert("'\\''"@ =~= seq!['\'', '\\', '\'', '\'']);
            assert(res@ =~= seq!['\''] + inner@ + seq!['\'']);
            return res;
        }
        i = i + 1;
    }
    value.clone()
}

/// Quotes a word for display in a shell command line.
pub fn shell_quote(value: &str) -> (res: String)
    ensures
        res@ == shell_quoted(value@),
{
    let v = chars_of(value);
    let q = shell_quote_chars(&v);
    string_of(&q)
}

/// The path of the command line client inside the Flatpak sandbox.
pub const FLATPAK_BINARY: &'static str = "/app/extra/usr/bin/yandex-disk";

/// The command line client looked up on `PATH`.
pub const DEFAULT_BINARY: &'static str = "yandex-disk";

/// The binary to run: a non-blank `DISKETTE_YANDEX_DISK` override as given,
/// else the Flatpak copy when it exists, else `yandex-disk` from `PATH`.
pub open spec fn binary_choice(override_value: Option<Seq<char>>, flatpak_copy_exists: bool) -> Seq<
    char,
> {
    match override_value {
        Some(v) if trim(v).len() > 0 => v,
        _ => if flatpak_copy_exists {
            FLATPAK_BINARY@
        } else {
            DEFAULT_BINARY@
        },
    }
}

/// Chooses the `yandex-disk` binary from the value of `DISKETTE_YANDEX_DISK`
/// (when it is set and readable) and whether the Flatpak copy exists.
pub fn yandex_binary(override_value: Option<String>, flatpak_copy_exists: bool) -> (res: String)
    ensures
        res@ == binary_choice(
            match override_value {
                Some(v) => Some(v@),
                None => None,
            },
            flatpak_copy_exists,
        ),
{
    if let Some(path) = override_value {
        let v = chars_of(path.as_str());
        let t = trimmed(&v, CharClass::Space);
        if t.len() > 0 {
            return path;
        }
    }
    if flatpak_copy_exists {
        FLATPAK_BINARY.to_owned()
    } else {
        DEFAULT_BINARY.to_owned()
    }
}

/// How a POSIX shell reads a word made of literal characters, single-quoted
/// runs and backslash escapes (`quoted` tells whether a single quote is open).
pub open spec fn shell_read(s: Seq<char>, quoted: bool) -> Seq<char>
    decreases s.len(),
{
    if s.len() == 0 {
        Seq::empty()
    } else if quoted {
        if s[0] == '\'' {
            shell_read(s.drop_first(), false)
        } else {
            seq![s[0]] + shell_read(s.drop_first(), true)
        }
    } else if s[0] == '\'' {
        shell_read(s.drop_first(), true)
    } else if s[0] == '\\' && s.len() >= 2 {
        seq![s[1]] + shell_read(s.skip(2), false)
    } else {
        seq![s[0]] + shell_read(s.drop_first(), false)
    }
}

proof fn lemma_read_safe(v: Seq<char>)
    requires
        forall|i: int| 0 <= i < v.len() ==> is_shell_safe(#[trigger] v[i]),
    ensures
        shell_read(v, false) == v,
    decreases v.len(),
{
    if v.len() > 0 {
        let rest = v.drop_first();
        assert(is_shell_safe(v[0]));
        assert forall|i: int| 0 <= i < rest.len() implies is_shell_safe(#[trigger] rest[i]) by {
            assert(rest[i] == v[i + 1]);
        }
        lemma_read_safe(rest);
        assert(v =~= seq![v[0]] + rest);
    }
}

proof fn lemma_read_quoted(v: Seq<char>, tail: Seq<char>)
    ensures
        shell_read(per_char(v, '\'', seq!['\'', '\\', '\'', '\'']) + seq!['\''] + tail, true) == v
            + shell_read(tail, false),
    decreases v.len(),
{
    let q = seq!['\'', '\\', '\'', '\''];
    if v.len() == 0 {
        let s = per_char(v, '\'', q) + seq!['\''] + tail;
        assert(s =~= seq!['\''] + tail);
        assert(s.drop_first() =~= tail);
        assert(v + shell_read(tail, false) =~= shell_read(tail, false));
    } else {
        let rest = v.drop_first();
        lemma_read_quoted(rest, tail);
        let pr = per_char(rest, '\'', q);
        let after = pr + seq!['\''] + tail;
        if v[0] == '\'' {
            let s = q + after;
            assert(per_char(v, '\'', q) + seq!['\''] + tail =~= s);
            // the quote closes, `\'` gives a quote, and the next quote reopens
            assert(s.drop_first() =~= seq!['\\', '\'', '\''] + after);
            let s1 = s.drop_first();
            assert(s1.skip(2) =~= seq!['\''] + after);
            assert(shell_read(s1, false) == seq!['\''] + shell_read(s1.skip(2), false));
            assert((seq!['\''] + after).drop_first() =~= after);
            assert(shell_read(seq!['\''] + after, false) == shell_read(after, true));
            assert(v =~= seq!['\''] + rest);
            assert(shell_read(s, true) =~= v + shell_read(tail, false));
        } else {
            let s = seq![v[0]] + after;
            assert(per_char(v, '\'', q) + seq!['\''] + tail =~= s);
            assert(s.drop_first() =~= after);
            assert(v =~= seq![v[0]] + rest);
            assert(shell_read(s, true) =~= v + shell_read(tail, false));
        }
    }
}

/// Law: a shell reads a quoted word back as the word itself.
pub proof fn lemma_shell_reads_back(value: Seq<char>)
    ensures
        shell_read(shell_quoted(value), false) == value,
{
    if forall|i: int| 0 <= i < value.len() ==> is_shell_safe(#[trigger] value[i]) {
        lemma_read_safe(value);
    } else {
        let q = seq!['\'', '\\', '\'', '\''];
        lemma_replace_single(value, '\'', q);
        lemma_read_quoted(value, Seq::empty());
        let s = seq!['\''] + per_char(value, '\'', q) + seq!['\''];
        assert(shell_quoted(value) == s);
        assert(s.drop_first() =~= per_char(value, '\'', q) + seq!['\''] + Seq::<char>::empty());
        assert(shell_read(Seq::<char>::empty(), false) == Seq::<char>::empty());
        assert(value + Seq::<char>::empty() =~= value);
    }
}

} // verus!
