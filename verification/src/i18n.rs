//! Message translation: catalogs of `token<TAB>text` lines, the choice of
//! catalog from the locale environment, and lookup with fallback to the token.
use vstd::prelude::*;

use crate::catalogs::{catalog_chars, catalog_text};
use crate::text::{
    CharClass, chars_of, find_char, has_prefix, index_of, is_text, lines, lower, lower_chars,
    next_line, same_chars, slice, split_once, starts_with, string_of, trim, trimmed,
};

verus! {

#[derive(Clone, Copy, Debug, PartialEq, Eq)]
pub enum Locale {
    English,
    Russian,
}

/// The text of the catalog used for a locale.
pub open spec fn catalog_of(locale: Locale) -> Seq<char> {
    catalog_text(locale)
}

/// A catalog line read as an entry: none for an empty line or a comment,
/// otherwise the text before and after the first tab, if there is one.
pub open spec fn entry_of(line: Seq<char>) -> Option<(Seq<char>, Seq<char>)> {
    if line.len() == 0 || line[0] == '#' {
        None
    } else {
        split_once(line, '\t')
    }
}

/// The translation of the first entry whose token is `token`.
pub open spec fn find_translation(ls: Seq<Seq<char>>, token: Seq<char>) -> Option<Seq<char>>
    decreases ls.len(),
{
    if ls.len() == 0 {
        None
    } else {
        match entry_of(ls[0]) {
            Some((t, tr)) if t == token => Some(tr),
            _ => find_translation(ls.drop_first(), token),
        }
    }
}

/// What `lookup` returns for a catalog text.
pub open spec fn lookup_spec(catalog: Seq<char>, token: Seq<char>) -> Option<Seq<char>> {
    find_translation(lines(catalog), token)
}

/// The message shown for `token` in `locale`: its translation, or the token
/// itself when the catalog has none.
pub open spec fn translate(locale: Locale, token: Seq<char>) -> Seq<char> {
    match lookup_spec(catalog_of(locale), token) {
        Some(tr) => tr,
        None => token,
    }
}

fn entry_chars(line: &Vec<char>) -> (res: Option<(Vec<char>, Vec<char>)>)
    ensures
        match res {
            Some((t, tr)) => entry_of(line@) == Some((t@, tr@)),
            None => entry_of(line@) is None,
        },
{
    if line.len() == 0 || line[0] == '#' {
        return None;
    }
    let k = find_char(line, '\t', 0);
    assert(line@.skip(0) =~= line@);
    if k < line.len() {
        let t = slice(line, 0, k);
        let tr = slice(line, k + 1, line.len());
        assert(t@ =~= line@.take(k as int));
        assert(tr@ =~= line@.skip(k + 1));
        Some((t, tr))
    } else {
        None
    }
}

/// Reads one catalog line: `None` for an empty line or a comment, otherwise
/// the token and the translation around the first tab.
pub fn parse_entry(line: &str) -> (res: Option<(String, String)>)
    ensures
        match res {
            Some((t, tr)) => entry_of(line@) == Some((t@, tr@)),
            None => entry_of(line@) is None,
        },
{
    let v = chars_of(line);
    match entry_chars(&v) {
        Some((t, tr)) => Some((string_of(&t), string_of(&tr))),
        None => None,
    }
}

fn lookup_chars(catalog: &Vec<char>, token: &Vec<char>) -> (res: Option<Vec<char>>)
    ensures
        match res {
            Some(tr) => lookup_spec(catalog@, token@) == Some(tr@),
            None => lookup_spec(catalog@, token@) is None,
        },
{
    let mut pos: usize = 0;
    assert(catalog@.skip(0) =~= catalog@);
    while pos < catalog.len()
        invariant
            pos <= catalog.len(),
            lookup_spec(catalog@, token@) == find_translation(
                lines(catalog@.skip(pos as int)),
                token@,
            ),
        decreases catalog.len() - pos,
    {
        let ghost before = lines(catalog@.skip(pos as int));
        let (line, next) = next_line(catalog, pos);
        assert(before[0] == line@);
        assert(before.drop_first() =~= lines(catalog@.skip(next as int)));
        match entry_chars(&line) {
            Some((t, tr)) => {
                if same_chars(&t, token) {
                    return Some(tr);
                }
            },
            None => {},
        }
        pos = next;
    }
    assert(catalog@.skip(pos as int) =~= Seq::<char>::empty());
    None
}

/// The translation of `token` in a catalog text, if the catalog has it.
pub fn lookup(catalog: &str, token: &str) -> (res: Option<String>)
    ensures
        match res {
            Some(tr) => lookup_spec(catalog@, token@) == Some(tr@),
            None => lookup_spec(catalog@, token@) is None,
        },
{
    let c = chars_of(catalog);
    let t = chars_of(token);
    match lookup_chars(&c, &t) {
        Some(tr) => Some(string_of(&tr)),
        None => None,
    }
}

/// The catalog text used for a locale.
pub fn catalog(locale: Locale) -> (res: String)
    ensures
        res@ == catalog_of(locale),
{
    string_of(&catalog_chars(locale))
}

/// The message for `token` in `locale`, falling back to the token itself.
pub fn text(locale: Locale, token: &str) -> (res: String)
    ensures
        res@ == translate(locale, token@),
{
    let c = catalog(locale);
    match lookup(c.as_str(), token) {
        Some(tr) => tr,
        None => token.to_owned(),
    }
}

/// The message for `token` as characters.
pub fn text_chars(locale: Locale, token: &str) -> (res: Vec<char>)
    ensures
        res@ == translate(locale, token@),
{
    let c = catalog_chars(locale);
    let t = chars_of(token);
    match lookup_chars(&c, &t) {
        Some(tr) => tr,
        None => t,
    }
}

// ---------------------------------------------------------------------------
// Locale detection
// ---------------------------------------------------------------------------

/// `str::split` on a character: the pieces between separators, always at
/// least one.
pub open spec fn pieces(s: Seq<char>, c: char) -> Seq<Seq<char>>
    decreases s.len(),
{
    let i = index_of(s, c);
    if 0 <= i < s.len() {
        seq![s.take(i)] + pieces(s.skip(i + 1), c)
    } else {
        seq![s]
    }
}

/// A locale name that selects Russian: `ru`, or one that starts with `ru_`
/// or `ru.`, after trimming and lowering ASCII letters.
pub open spec fn is_russian_tag(piece: Seq<char>) -> bool {
    let l = lower(trim(piece));
    l == "ru"@ || starts_with(l, "ru_"@) || starts_with(l, "ru."@)
}

/// Whether any colon-separated locale in a locale variable selects Russian.
pub open spec fn names_russian(value: Seq<char>) -> bool {
    exists|i: int| 0 <= i < pieces(value, ':').len() && is_russian_tag(pieces(value, ':')[i])
}

fn russian_tag(piece: &Vec<char>) -> (res: bool)
    ensures
        res == is_russian_tag(piece@),
{
    let t = trimmed(piece, CharClass::Space);
    let l = lower_chars(&t);
    is_text(&l, "ru") || has_prefix(&l, "ru_") || has_prefix(&l, "ru.")
}

/// Whether a locale variable's value (a colon-separated list) selects Russian.
pub fn contains_russian_locale(value: &str) -> (res: bool)
    ensures
        res == names_russian(value@),
{
    let v = chars_of(value);
    let mut pos: usize = 0;
    let ghost all = pieces(v@, ':');
    assert(v@.skip(0) =~= v@);
    loop
        invariant
            pos <= v.len(),
            v@ == value@,
            all == pieces(v@, ':'),
            all.len() >= pieces(v@.skip(pos as int), ':').len(),
            all.skip(all.len() - pieces(v@.skip(pos as int), ':').len()) == pieces(
                v@.skip(pos as int),
                ':',
            ),
            forall|j: int|
                0 <= j < all.len() - pieces(v@.skip(pos as int), ':').len() ==> !is_russian_tag(
                    #[trigger] all[j],
                ),
        decreases v.len() - pos,
    {
        let ghost rest = v@.skip(pos as int);
        let ghost before = all.len() - pieces(rest, ':').len();
        let k = find_char(&v, ':', pos);
        let piece = slice(&v, pos, k);
        assert(piece@ =~= rest.take(k - pos));
        assert(pieces(rest, ':')[0] == piece@);
        assert(all[before] == piece@) by {
            assert(all.skip(before)[0] == all[before]);
        }
        if russian_tag(&piece) {
            assert(0 <= before < all.len());
            return true;
        }
        if k == v.len() {
            assert(pieces(rest, ':') =~= seq![piece@]);
            assert forall|i: int| 0 <= i < all.len() implies !is_russian_tag(#[trigger] all[i]) by {
                assert(i < before || i == before);
            }
            return false;
        }
        assert(rest.skip(k - pos + 1) =~= v@.skip(k + 1));
        assert(pieces(rest, ':').drop_first() =~= pieces(v@.skip(k + 1), ':'));
        assert(all.skip(before + 1) =~= pieces(v@.skip(k + 1), ':')) by {
            assert(all.skip(before + 1) =~= all.skip(before).drop_first());
        }
        pos = k + 1;
    }
}

/// The locale chosen from the values of `LANGUAGE`, `LC_ALL`, `LC_MESSAGES`
/// and `LANG` (absent or unreadable ones as `None`): Russian when any of them
/// names a Russian locale, English otherwise.
pub fn detect_locale(values: &Vec<Option<String>>) -> (res: Locale)
    ensures
        res == (if exists|i: int|
            0 <= i < values.len() && #[trigger] values@[i] is Some && names_russian(
                values@[i]->0@,
            ) {
            Locale::Russian
        } else {
            Locale::English
        }),
{
    let mut i: usize = 0;
    while i < values.len()
        invariant
            i <= values.len(),
            forall|j: int|
                0 <= j < i ==> !(#[trigger] values@[j] is Some && names_russian(values@[j]->0@)),
        decreases values.len() - i,
    {
        match &values[i] {
            Some(v) => {
                if contains_russian_locale(v.as_str()) {
                    return Locale::Russian;
                }
            },
            None => {},
        }
        i = i + 1;
    }
    Locale::English
}

} // verus!
