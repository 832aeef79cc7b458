//! Character-level text handling: the model of `str` operations the rest of
//! the library relies on (trimming, line splitting, searching, replacing),
//! each stated over `Seq<char>` and implemented on `Vec<char>`.
use vstd::prelude::*;

verus! {

// ---------------------------------------------------------------------------
// Character classes
// ---------------------------------------------------------------------------

/// Unicode `White_Space`, as tested by `char::is_whitespace`.
pub open spec fn is_space(c: char) -> bool {
    let u = c as u32;
    ||| u == 0x20
    ||| (0x09 <= u && u <= 0x0d)
    ||| u == 0x85
    ||| u == 0xa0
    ||| u == 0x1680
    ||| (0x2000 <= u && u <= 0x200a)
    ||| u == 0x2028
    ||| u == 0x2029
    ||| u == 0x202f
    ||| u == 0x205f
    ||| u == 0x3000
}

/// The sets of characters that are stripped from the ends of a piece of text.
#[derive(Clone, Copy, Debug, PartialEq, Eq)]
pub enum CharClass {
    /// Whitespace, as `str::trim` strips it.
    Space,
    /// Quotes, brackets and punctuation that surround a URL in command output.
    UrlEdge,
    /// Quotes, parentheses and punctuation that surround a published link.
    LinkEdge,
}

pub open spec fn in_class(k: CharClass, c: char) -> bool {
    match k {
        CharClass::Space => is_space(c),
        CharClass::UrlEdge => c == '"' || c == '\'' || c == '\u{2018}' || c == '\u{2019}'
            || c == '(' || c == ')' || c == '[' || c == ']' || c == ',' || c == '.' || c == ';',
        CharClass::LinkEdge => c == '"' || c == '\'' || c == '(' || c == ')' || c == ','
            || c == '.',
    }
}

pub fn is_space_char(c: char) -> (res: bool)
    ensures
        res == is_space(c),
{
    let u = c as u32;
    u == 0x20 || (0x09 <= u && u <= 0x0d) || u == 0x85 || u == 0xa0 || u == 0x1680 || (0x2000 <= u
        && u <= 0x200a) || u == 0x2028 || u == 0x2029 || u == 0x202f || u == 0x205f || u == 0x3000
}

pub fn class_has(k: CharClass, c: char) -> (res: bool)
    ensures
        res == in_class(k, c),
{
    match k {
        CharClass::Space => is_space_char(c),
        CharClass::UrlEdge => c == '"' || c == '\'' || c == '\u{2018}' || c == '\u{2019}' || c
            == '(' || c == ')' || c == '[' || c == ']' || c == ',' || c == '.' || c == ';',
        CharClass::LinkEdge => c == '"' || c == '\'' || c == '(' || c == ')' || c == ',' || c
            == '.',
    }
}

/// `char::to_ascii_lowercase`.
pub open spec fn ascii_lower(c: char) -> char {
    if 'A' <= c && c <= 'Z' {
        ((c as u32) + 32) as char
    } else {
        c
    }
}

/// `str::to_ascii_lowercase`.
pub open spec fn lower(s: Seq<char>) -> Seq<char> {
    s.map_values(|c: char| ascii_lower(c))
}

// ---------------------------------------------------------------------------
// Trimming
// ---------------------------------------------------------------------------

pub open spec fn trim_start_by(s: Seq<char>, k: CharClass) -> Seq<char>
    decreases s.len(),
{
    if s.len() > 0 && in_class(k, s[0]) {
        trim_start_by(s.drop_first(), k)
    } else {
        s
    }
}

pub open spec fn trim_end_by(s: Seq<char>, k: CharClass) -> Seq<char>
    decreases s.len(),
{
    if s.len() > 0 && in_class(k, s.last()) {
        trim_end_by(s.drop_last(), k)
    } else {
        s
    }
}

/// `str::trim_matches` with the characters of class `k`.
pub open spec fn trim_by(s: Seq<char>, k: CharClass) -> Seq<char> {
    trim_end_by(trim_start_by(s, k), k)
}

/// `str::trim`.
pub open spec fn trim(s: Seq<char>) -> Seq<char> {
    trim_by(s, CharClass::Space)
}

// ---------------------------------------------------------------------------
// Searching and splitting
// ---------------------------------------------------------------------------

/// Position of the first `c` in `s`, or `s.len()` when there is none.
pub open spec fn index_of(s: Seq<char>, c: char) -> int
    decreases s.len(),
{
    if s.len() == 0 {
        0
    } else if s[0] == c {
        0
    } else {
        1 + index_of(s.drop_first(), c)
    }
}

/// `str::split_once` on a character.
pub open spec fn split_once(s: Seq<char>, c: char) -> Option<(Seq<char>, Seq<char>)> {
    let i = index_of(s, c);
    if i < s.len() {
        Some((s.take(i), s.skip(i + 1)))
    } else {
        None
    }
}

pub open spec fn strip_cr(line: Seq<char>) -> Seq<char> {
    if line.len() > 0 && line.last() == '\r' {
        line.drop_last()
    } else {
        line
    }
}

/// `str::lines`: pieces separated by `\n`, each without a trailing `\r`;
/// a final line ending adds no empty line.
pub open spec fn lines(s: Seq<char>) -> Seq<Seq<char>>
    decreases s.len(),
{
    if s.len() == 0 {
        Seq::empty()
    } else {
        let i = index_of(s, '\n');
        if 0 <= i < s.len() {
            seq![strip_cr(s.take(i))] + lines(s.skip(i + 1))
        } else {
            seq![s]
        }
    }
}

pub open spec fn starts_with(s: Seq<char>, p: Seq<char>) -> bool {
    p.len() <= s.len() && s.take(p.len() as int) == p
}

pub open spec fn ends_with(s: Seq<char>, p: Seq<char>) -> bool {
    p.len() <= s.len() && s.skip(s.len() - p.len()) == p
}

pub open spec fn occurs_at(s: Seq<char>, p: Seq<char>, i: int) -> bool {
    0 <= i && i + p.len() <= s.len() && s.subrange(i, i + p.len()) == p
}

/// `str::contains` with a string pattern.
pub open spec fn contains(s: Seq<char>, p: Seq<char>) -> bool {
    exists|i: int| occurs_at(s, p, i)
}

/// `str::replace`: every non-overlapping occurrence of `from`, found from the
/// left, is replaced by `to`.
pub open spec fn replace_all(s: Seq<char>, from: Seq<char>, to: Seq<char>) -> Seq<char>
    decreases s.len(),
{
    if s.len() == 0 || from.len() == 0 {
        s
    } else if starts_with(s, from) {
        to + replace_all(s.skip(from.len() as int), from, to)
    } else {
        seq![s[0]] + replace_all(s.drop_first(), from, to)
    }
}

/// Number of leading characters that are not whitespace.
pub open spec fn word_len(s: Seq<char>) -> int
    decreases s.len(),
{
    if s.len() == 0 || is_space(s[0]) {
        0
    } else {
        1 + word_len(s.drop_first())
    }
}

/// `str::split_whitespace`.
pub open spec fn words(s: Seq<char>) -> Seq<Seq<char>>
    decreases s.len(),
{
    if s.len() == 0 {
        Seq::empty()
    } else if is_space(s[0]) {
        words(s.drop_first())
    } else {
        let k = word_len(s);
        if 0 < k <= s.len() {
            seq![s.take(k)] + words(s.skip(k))
        } else {
            seq![s]
        }
    }
}

/// The pieces joined with `sep` between them.
pub open spec fn join(parts: Seq<Seq<char>>, sep: Seq<char>) -> Seq<char>
    decreases parts.len(),
{
    if parts.len() == 0 {
        Seq::empty()
    } else if parts.len() == 1 {
        parts[0]
    } else {
        join(parts.drop_last(), sep) + sep + parts.last()
    }
}

/// Each piece followed by a line feed.
pub open spec fn terminated(ls: Seq<Seq<char>>) -> Seq<char>
    decreases ls.len(),
{
    if ls.len() == 0 {
        Seq::empty()
    } else {
        ls[0] + seq!['\n'] + terminated(ls.drop_first())
    }
}

// ---------------------------------------------------------------------------
// Lemmas
// ---------------------------------------------------------------------------

pub proof fn lemma_index_of(s: Seq<char>, c: char, r: int)
    requires
        0 <= r <= s.len(),
        forall|j: int| 0 <= j < r ==> s[j] != c,
        r < s.len() ==> s[r] == c,
    ensures
        index_of(s, c) == r,
    decreases s.len(),
{
    if s.len() > 0 && s[0] != c {
        lemma_index_of(s.drop_first(), c, r - 1);
    }
}

pub proof fn lemma_index_of_bounds(s: Seq<char>, c: char)
    ensures
        0 <= index_of(s, c) <= s.len(),
        forall|j: int| 0 <= j < index_of(s, c) ==> s[j] != c,
        index_of(s, c) < s.len() ==> s[index_of(s, c)] == c,
    decreases s.len(),
{
    if s.len() > 0 && s[0] != c {
        lemma_index_of_bounds(s.drop_first(), c);
        assert forall|j: int| 0 <= j < index_of(s, c) implies s[j] != c by {
            if j > 0 {
                assert(s[j] == s.drop_first()[j - 1]);
            }
        }
    }
}

pub proof fn lemma_word_len(s: Seq<char>, r: int)
    requires
        0 <= r <= s.len(),
        forall|j: int| 0 <= j < r ==> !is_space(#[trigger] s[j]),
        r < s.len() ==> is_space(s[r]),
    ensures
        word_len(s) == r,
    decreases s.len(),
{
    if s.len() > 0 && !is_space(s[0]) {
        assert forall|j: int| 0 <= j < r - 1 implies !is_space(#[trigger] s.drop_first()[j]) by {
            assert(s.drop_first()[j] == s[j + 1]);
        }
        lemma_word_len(s.drop_first(), r - 1);
    }
}

pub proof fn lemma_trim_start_skip(s: Seq<char>, k: CharClass, i: int)
    requires
        0 <= i <= s.len(),
        forall|j: int| 0 <= j < i ==> in_class(k, #[trigger] s[j]),
    ensures
        trim_start_by(s, k) == trim_start_by(s.skip(i), k),
    decreases i,
{
    if i > 0 {
        assert forall|j: int| 0 <= j < i - 1 implies in_class(k, #[trigger] s.drop_first()[j]) by {
            assert(s.drop_first()[j] == s[j + 1]);
        }
        lemma_trim_start_skip(s.drop_first(), k, i - 1);
        assert(s.drop_first().skip(i - 1) =~= s.skip(i));
    } else {
        assert(s.skip(0) =~= s);
    }
}

pub proof fn lemma_trim_end_take(s: Seq<char>, k: CharClass, j: int)
    requires
        0 <= j <= s.len(),
        forall|m: int| j <= m < s.len() ==> in_class(k, #[trigger] s[m]),
    ensures
        trim_end_by(s, k) == trim_end_by(s.take(j), k),
    decreases s.len() - j,
{
    if j < s.len() {
        assert(s.drop_last() =~= s.take(s.len() - 1));
        assert forall|m: int| j <= m < s.drop_last().len() implies in_class(
            k,
            #[trigger] s.drop_last()[m],
        ) by {
            assert(s.drop_last()[m] == s[m]);
        }
        lemma_trim_end_take(s.drop_last(), k, j);
        assert(s.drop_last().take(j) =~= s.take(j));
    } else {
        assert(s.take(j) =~= s);
    }
}

/// Trimming leaves text alone when neither end is whitespace.
pub proof fn lemma_trim_noop(s: Seq<char>)
    requires
        s.len() > 0,
        !is_space(s[0]),
        !is_space(s.last()),
    ensures
        trim(s) == s,
{
    assert(trim_start_by(s, CharClass::Space) == s);
    assert(trim_end_by(s, CharClass::Space) == s);
}

/// Text without line feeds.
pub open spec fn one_line(s: Seq<char>) -> bool {
    forall|i: int| 0 <= i < s.len() ==> s[i] != '\n'
}

/// `lines` gives back the pieces of `terminated` when no piece holds a line
/// feed or ends with a carriage return.
pub proof fn lemma_lines_terminated(ls: Seq<Seq<char>>)
    requires
        forall|i: int| 0 <= i < ls.len() ==> one_line(#[trigger] ls[i]),
        forall|i: int|
            0 <= i < ls.len() ==> (#[trigger] ls[i]).len() == 0 || ls[i].last() != '\r',
    ensures
        lines(terminated(ls)) == ls,
    decreases ls.len(),
{
    if ls.len() == 0 {
        assert(terminated(ls) =~= Seq::<char>::empty());
        assert(lines(terminated(ls)) =~= ls);
    } else {
        let rest = ls.drop_first();
        assert forall|i: int| 0 <= i < rest.len() implies one_line(#[trigger] rest[i]) by {
            assert(rest[i] == ls[i + 1]);
        }
        assert forall|i: int| 0 <= i < rest.len() implies (#[trigger] rest[i]).len() == 0
            || rest[i].last() != '\r' by {
            assert(rest[i] == ls[i + 1]);
        }
        lemma_lines_terminated(rest);
        let s = terminated(ls);
        let l = ls[0];
        assert(one_line(ls[0]));
        assert(ls[0].len() == 0 || ls[0].last() != '\r');
        assert(s == l + seq!['\n'] + terminated(rest));
        assert forall|j: int| 0 <= j < l.len() implies s[j] != '\n' by {
            assert(s[j] == l[j]);
        }
        assert(s[l.len() as int] == '\n');
        lemma_index_of(s, '\n', l.len() as int);
        assert(s.take(l.len() as int) =~= l);
        assert(s.skip(l.len() as int + 1) =~= terminated(rest));
        assert(strip_cr(l) == l);
        assert(lines(s) =~= seq![l] + rest);
    }
}

/// Text that ends with a line feed splits into lines apart from what
/// follows it.
pub proof fn lemma_lines_append(x: Seq<char>, y: Seq<char>)
    requires
        x.len() == 0 || x.last() == '\n',
    ensures
        lines(x + y) == lines(x) + lines(y),
    decreases x.len(),
{
    if x.len() == 0 {
        assert(x + y =~= y);
        assert(lines(x) + lines(y) =~= lines(y));
    } else {
        lemma_index_of_bounds(x, '\n');
        let i = index_of(x, '\n');
        assert(i < x.len()) by {
            if i == x.len() {
                assert(x[x.len() - 1] == '\n');
            }
        }
        let s = x + y;
        assert forall|j: int| 0 <= j < i implies s[j] != '\n' by {
            assert(s[j] == x[j]);
        }
        assert(s[i] == x[i]);
        lemma_index_of(s, '\n', i);
        assert(s.take(i) =~= x.take(i));
        let rest = x.skip(i + 1);
        assert(s.skip(i + 1) =~= rest + y);
        assert(rest.len() == 0 || rest.last() == '\n') by {
            if rest.len() > 0 {
                assert(rest.last() == x.last());
            }
        }
        lemma_lines_append(rest, y);
        assert(lines(s) =~= lines(x) + lines(y));
    }
}

/// The text of one or more terminated lines ends with a line feed.
pub proof fn lemma_terminated_last(ls: Seq<Seq<char>>)
    requires
        ls.len() > 0,
    ensures
        terminated(ls).last() == '\n',
    decreases ls.len(),
{
    let rest = ls.drop_first();
    if rest.len() > 0 {
        lemma_terminated_last(rest);
    } else {
        assert(terminated(rest) =~= Seq::<char>::empty());
    }
}

/// Trimming keeps a contiguous part of the text.
pub proof fn lemma_trim_part(s: Seq<char>, k: CharClass)
    ensures
        exists|a: int, b: int| 0 <= a <= b <= s.len() && trim_by(s, k) == s.subrange(a, b),
{
    lemma_trim_start_part(s, k);
    let a = choose|a: int| 0 <= a <= s.len() && trim_start_by(s, k) == s.skip(a);
    let t = s.skip(a);
    lemma_trim_end_part(t, k);
    let b = choose|b: int| 0 <= b <= t.len() && trim_end_by(t, k) == t.take(b);
    assert(t.take(b) =~= s.subrange(a, a + b));
}

proof fn lemma_trim_start_part(s: Seq<char>, k: CharClass)
    ensures
        exists|a: int| 0 <= a <= s.len() && trim_start_by(s, k) == s.skip(a),
    decreases s.len(),
{
    if s.len() > 0 && in_class(k, s[0]) {
        lemma_trim_start_part(s.drop_first(), k);
        let a = choose|a: int|
            0 <= a <= s.drop_first().len() && trim_start_by(s.drop_first(), k) == s.drop_first().skip(
                a,
            );
        assert(s.drop_first().skip(a) =~= s.skip(a + 1));
    } else {
        assert(s.skip(0) =~= s);
    }
}

proof fn lemma_trim_end_part(s: Seq<char>, k: CharClass)
    ensures
        exists|b: int| 0 <= b <= s.len() && trim_end_by(s, k) == s.take(b),
    decreases s.len(),
{
    if s.len() > 0 && in_class(k, s.last()) {
        lemma_trim_end_part(s.drop_last(), k);
        let b = choose|b: int|
            0 <= b <= s.drop_last().len() && trim_end_by(s.drop_last(), k) == s.drop_last().take(b);
        assert(s.drop_last().take(b) =~= s.take(b));
    } else {
        assert(s.take(s.len() as int) =~= s);
    }
}

/// The trimmed text of a single line is a single line.
pub proof fn lemma_trim_one_line(s: Seq<char>)
    requires
        one_line(s),
    ensures
        one_line(trim(s)),
{
    lemma_trim_part(s, CharClass::Space);
    let (a, b) = choose|a: int, b: int|
        0 <= a <= b <= s.len() && trim_by(s, CharClass::Space) == s.subrange(a, b);
    assert forall|i: int| 0 <= i < trim(s).len() implies trim(s)[i] != '\n' by {
        assert(trim(s)[i] == s[a + i]);
    }
}

/// Each character `c` of `s` replaced by `t`, the others kept.
pub open spec fn per_char(s: Seq<char>, c: char, t: Seq<char>) -> Seq<char>
    decreases s.len(),
{
    if s.len() == 0 {
        Seq::empty()
    } else {
        (if s[0] == c {
            t
        } else {
            seq![s[0]]
        }) + per_char(s.drop_first(), c, t)
    }
}

pub proof fn lemma_replace_single(s: Seq<char>, c: char, t: Seq<char>)
    ensures
        replace_all(s, seq![c], t) == per_char(s, c, t),
    decreases s.len(),
{
    if s.len() > 0 {
        lemma_replace_single(s.drop_first(), c, t);
        assert(s.skip(1) =~= s.drop_first());
        if s[0] == c {
            assert(s.take(1) =~= seq![c]);
        } else {
            assert(s.take(1) != seq![c]) by {
                assert(s.take(1)[0] != seq![c][0]);
            }
        }
    }
}

pub proof fn lemma_per_char_append(a: Seq<char>, b: Seq<char>, c: char, t: Seq<char>)
    ensures
        per_char(a + b, c, t) == per_char(a, c, t) + per_char(b, c, t),
    decreases a.len(),
{
    if a.len() == 0 {
        assert(a + b =~= b);
        assert(per_char(a, c, t) + per_char(b, c, t) =~= per_char(b, c, t));
    } else {
        lemma_per_char_append(a.drop_first(), b, c, t);
        assert((a + b).drop_first() =~= a.drop_first() + b);
        assert((a + b)[0] == a[0]);
        assert(per_char(a + b, c, t) =~= per_char(a, c, t) + per_char(b, c, t));
    }
}

pub proof fn lemma_per_char_one(a: char, c: char, t: Seq<char>)
    ensures
        per_char(seq![a], c, t) == (if a == c {
            t
        } else {
            seq![a]
        }),
{
    assert(seq![a].drop_first() =~= Seq::<char>::empty());
    assert(per_char(seq![a].drop_first(), c, t) == Seq::<char>::empty());
    assert(per_char(seq![a], c, t) =~= (if a == c {
        t
    } else {
        seq![a]
    }));
}

// ---------------------------------------------------------------------------
// Conversions between `str` and vectors of characters
// ---------------------------------------------------------------------------

/// Collects the characters of a string slice.
pub fn chars_of(s: &str) -> (v: Vec<char>)
    ensures
        v@ == s@,
{
    let mut v: Vec<char> = Vec::new();
    for c in it: s.chars()
        invariant
            v@ == it.seq().take(it.index() as int),
    {
        v.push(c);
    }
    v
}

/// Trusted: `String::push` appends the character at the end of the string;
/// nothing else about the string changes.
#[verifier::external_body]
fn push_char(s: &mut String, c: char)
    ensures
        final(s)@ == old(s)@.push(c),
{
    s.push(c);
}

/// Builds a string from characters.
pub fn string_of(v: &Vec<char>) -> (s: String)
    ensures
        s@ == v@,
{
    let mut s = String::new();
    let mut i: usize = 0;
    while i < v.len()
        invariant
            i <= v.len(),
            s@ == v@.take(i as int),
        decreases v.len() - i,
    {
        push_char(&mut s, v[i]);
        i = i + 1;
        assert(s@ =~= v@.take(i as int));
    }
    assert(v@.take(v.len() as int) =~= v@);
    s
}

/// The characters of `s` from `a` up to `b`.
pub fn slice(s: &Vec<char>, a: usize, b: usize) -> (r: Vec<char>)
    requires
        a <= b <= s.len(),
    ensures
        r@ == s@.subrange(a as int, b as int),
{
    let mut r: Vec<char> = Vec::new();
    let mut i = a;
    while i < b
        invariant
            a <= i <= b <= s.len(),
            r@ == s@.subrange(a as int, i as int),
        decreases b - i,
    {
        r.push(s[i]);
        i = i + 1;
        assert(r@ =~= s@.subrange(a as int, i as int));
    }
    r
}

/// Appends the characters of `t` to `s`.
pub fn extend(s: &mut Vec<char>, t: &Vec<char>)
    ensures
        final(s)@ == old(s)@ + t@,
{
    let mut i: usize = 0;
    while i < t.len()
        invariant
            i <= t.len(),
            s@ == old(s)@ + t@.take(i as int),
        decreases t.len() - i,
    {
        s.push(t[i]);
        i = i + 1;
        assert(s@ =~= old(s)@ + t@.take(i as int));
    }
    assert(t@.take(t.len() as int) =~= t@);
}

/// Appends the characters of a string slice to `s`.
pub fn extend_str(s: &mut Vec<char>, t: &str)
    ensures
        final(s)@ == old(s)@ + t@,
{
    let v = chars_of(t);
    extend(s, &v);
}

pub fn same_chars(a: &Vec<char>, b: &Vec<char>) -> (res: bool)
    ensures
        res == (a@ == b@),
{
    if a.len() != b.len() {
        return false;
    }
    let mut i: usize = 0;
    while i < a.len()
        invariant
            i <= a.len() == b.len(),
            a@.take(i as int) == b@.take(i as int),
        decreases a.len() - i,
    {
        if a[i] != b[i] {
            return false;
        }
        i = i + 1;
        assert(a@.take(i as int) =~= b@.take(i as int)) by {
            assert forall|j: int| 0 <= j < i implies a@.take(i as int)[j] == b@.take(i as int)[j] by {
                if j < i - 1 {
                    assert(a@.take(i - 1)[j] == b@.take(i - 1)[j]);
                }
            }
        }
    }
    assert(a@ =~= b@) by {
        assert(a@.take(a.len() as int) =~= a@);
        assert(b@.take(b.len() as int) =~= b@);
    }
    true
}

/// Whether the characters of `a` are exactly those of the string slice `b`.
pub fn is_text(a: &Vec<char>, b: &str) -> (res: bool)
    ensures
        res == (a@ == b@),
{
    let bv = chars_of(b);
    same_chars(a, &bv)
}

pub fn lower_chars(s: &Vec<char>) -> (r: Vec<char>)
    ensures
        r@ == lower(s@),
{
    let mut r: Vec<char> = Vec::new();
    let mut i: usize = 0;
    while i < s.len()
        invariant
            i <= s.len(),
            r@ == lower(s@.take(i as int)),
        decreases s.len() - i,
    {
        let c = s[i];
        let d = if 'A' <= c && c <= 'Z' {
            ((c as u8) + 32) as char
        } else {
            c
        };
        assert(d == ascii_lower(c)) by {
            if 'A' <= c && c <= 'Z' {
                assert((c as u8) as u32 == c as u32);
            }
        }
        r.push(d);
        i = i + 1;
        assert(r@ =~= lower(s@.take(i as int)));
    }
    assert(s@.take(s.len() as int) =~= s@);
    r
}

// ---------------------------------------------------------------------------
// Trimming, searching and splitting on vectors
// ---------------------------------------------------------------------------

/// Bounds of `trim_by(s[a..b], k)` within `s`.
pub fn trim_bounds(s: &Vec<char>, a: usize, b: usize, k: CharClass) -> (res: (usize, usize))
    requires
        a <= b <= s.len(),
    ensures
        a <= res.0 <= res.1 <= b,
        s@.subrange(res.0 as int, res.1 as int) == trim_by(s@.subrange(a as int, b as int), k),
{
    let ghost t = s@.subrange(a as int, b as int);
    let mut i = a;
    while i < b && class_has(k, s[i])
        invariant
            a <= i <= b <= s.len(),
            t == s@.subrange(a as int, b as int),
            forall|j: int| 0 <= j < i - a ==> in_class(k, #[trigger] t[j]),
        decreases b - i,
    {
        i = i + 1;
    }
    proof {
        lemma_trim_start_skip(t, k, i - a);
        assert(t.skip(i - a) =~= s@.subrange(i as int, b as int));
    }
    let ghost u = s@.subrange(i as int, b as int);
    assert(trim_start_by(u, k) == u);
    let mut j = b;
    while j > i && class_has(k, s[j - 1])
        invariant
            a <= i <= j <= b <= s.len(),
            u == s@.subrange(i as int, b as int),
            forall|m: int| j - i <= m < u.len() ==> in_class(k, #[trigger] u[m]),
        decreases j,
    {
        j = j - 1;
    }
    proof {
        lemma_trim_end_take(u, k, j - i);
        assert(u.take(j - i) =~= s@.subrange(i as int, j as int));
    }
    (i, j)
}

/// `trim_by(s, k)`.
pub fn trimmed(s: &Vec<char>, k: CharClass) -> (r: Vec<char>)
    ensures
        r@ == trim_by(s@, k),
{
    let (a, b) = trim_bounds(s, 0, s.len(), k);
    assert(s@.subrange(0, s.len() as int) =~= s@);
    slice(s, a, b)
}

/// Position of the first `c` in `s` at or after `from`, or `s.len()`.
pub fn find_char(s: &Vec<char>, c: char, from: usize) -> (r: usize)
    requires
        from <= s.len(),
    ensures
        from <= r <= s.len(),
        r - from == index_of(s@.skip(from as int), c),
        forall|j: int| from <= j < r ==> s@[j] != c,
        r < s.len() ==> s@[r as int] == c,
{
    let mut i = from;
    while i < s.len() && s[i] != c
        invariant
            from <= i <= s.len(),
            forall|j: int| from <= j < i ==> s@[j] != c,
        decreases s.len() - i,
    {
        i = i + 1;
    }
    proof {
        let t = s@.skip(from as int);
        assert forall|j: int| 0 <= j < i - from implies t[j] != c by {
            assert(t[j] == s@[from + j]);
        }
        lemma_index_of(t, c, i - from);
    }
    i
}

pub proof fn lemma_lines_step(s: Seq<char>, pos: int, k: int)
    requires
        0 <= pos < k <= s.len() || (0 <= pos == k < s.len()),
        k - pos == index_of(s.skip(pos), '\n'),
    ensures
        k < s.len() ==> lines(s.skip(pos)) == seq![strip_cr(s.subrange(pos, k))] + lines(
            s.skip(k + 1),
        ),
        k == s.len() ==> lines(s.skip(pos)) == seq![s.subrange(pos, k)],
{
    let t = s.skip(pos);
    assert(t.len() > 0);
    if k < s.len() {
        assert(t.take(k - pos) =~= s.subrange(pos, k));
        assert(t.skip(k - pos + 1) =~= s.skip(k + 1));
    } else {
        assert(t =~= s.subrange(pos, k));
    }
}

/// Reads the line that starts at `pos`: returns it and where the next line
/// starts.
pub fn next_line(s: &Vec<char>, pos: usize) -> (res: (Vec<char>, usize))
    requires
        pos < s.len(),
    ensures
        pos < res.1 <= s.len(),
        lines(s@.skip(pos as int)) == seq![res.0@] + lines(s@.skip(res.1 as int)),
{
    let k = find_char(s, '\n', pos);
    proof {
        lemma_lines_step(s@, pos as int, k as int);
    }
    if k < s.len() {
        let mut line = slice(s, pos, k);
        if line.len() > 0 && line[line.len() - 1] == '\r' {
            line.pop();
        }
        assert(line@ == strip_cr(s@.subrange(pos as int, k as int)));
        (line, k + 1)
    } else {
        let line = slice(s, pos, k);
        assert(s@.skip(k as int) =~= Seq::<char>::empty());
        assert(lines(s@.skip(k as int)) == Seq::<Seq<char>>::empty());
        assert(seq![line@] + Seq::<Seq<char>>::empty() =~= seq![line@]);
        (line, k)
    }
}

pub fn starts_with_at(s: &Vec<char>, p: &Vec<char>, at: usize) -> (res: bool)
    requires
        at <= s.len(),
    ensures
        res == occurs_at(s@, p@, at as int),
        res == starts_with(s@.skip(at as int), p@),
{
    if p.len() > s.len() - at {
        return false;
    }
    let mut i: usize = 0;
    while i < p.len()
        invariant
            i <= p.len(),
            at + p.len() <= s.len(),
            forall|j: int| 0 <= j < i ==> s@[at + j] == p@[j],
        decreases p.len() - i,
    {
        if s[at + i] != p[i] {
            assert(s@.subrange(at as int, at + p.len())[i as int] != p@[i as int]);
            assert(s@.skip(at as int).take(p.len() as int)[i as int] != p@[i as int]);
            return false;
        }
        i = i + 1;
    }
    assert(s@.subrange(at as int, at + p.len()) =~= p@);
    assert(s@.skip(at as int).take(p.len() as int) =~= p@);
    true
}

pub fn has_prefix(s: &Vec<char>, p: &str) -> (res: bool)
    ensures
        res == starts_with(s@, p@),
{
    let pv = chars_of(p);
    let r = starts_with_at(s, &pv, 0);
    assert(s@.skip(0) =~= s@);
    r
}

pub fn has_suffix(s: &Vec<char>, p: &str) -> (res: bool)
    ensures
        res == ends_with(s@, p@),
{
    let pv = chars_of(p);
    if pv.len() > s.len() {
        return false;
    }
    let r = starts_with_at(s, &pv, s.len() - pv.len());
    assert(s@.skip(s.len() - pv.len()).take(pv.len() as int) =~= s@.skip(s.len() - pv.len()));
    r
}

/// `str::contains` with a string pattern.
pub fn has_substring(s: &Vec<char>, p: &str) -> (res: bool)
    ensures
        res == contains(s@, p@),
{
    let pv = chars_of(p);
    if pv.len() > s.len() {
        assert forall|i: int| !occurs_at(s@, pv@, i) by {}
        return false;
    }
    let last = s.len() - pv.len();
    let mut i: usize = 0;
    loop
        invariant
            pv.len() <= s.len(),
            last == s.len() - pv.len(),
            i <= last,
            pv@ == p@,
            forall|j: int| 0 <= j < i ==> !occurs_at(s@, p@, j),
        ensures
            forall|j: int| 0 <= j <= last ==> !occurs_at(s@, p@, j),
        decreases last - i,
    {
        if starts_with_at(s, &pv, i) {
            return true;
        }
        if i == last {
            break;
        }
        i = i + 1;
    }
    assert forall|j: int| !occurs_at(s@, p@, j) by {
        if 0 <= j && j + p@.len() <= s@.len() {
            assert(j <= last);
        }
    }
    false
}


// ---------------------------------------------------------------------------
// Replacing, words and numbers
// ---------------------------------------------------------------------------

/// `str::replace` with a non-empty pattern.
pub fn replaced(s: &Vec<char>, from: &str, to: &str) -> (r: Vec<char>)
    requires
        from@.len() > 0,
    ensures
        r@ == replace_all(s@, from@, to@),
{
    let fv = chars_of(from);
    let tv = chars_of(to);
    let mut r: Vec<char> = Vec::new();
    let mut i: usize = 0;
    assert(s@.skip(0) =~= s@);
    while i < s.len()
        invariant
            i <= s.len(),
            fv@ == from@,
            tv@ == to@,
            fv@.len() > 0,
            replace_all(s@, from@, to@) == r@ + replace_all(s@.skip(i as int), from@, to@),
        decreases s.len() - i,
    {
        let ghost t = s@.skip(i as int);
        let ghost r0 = r@;
        if starts_with_at(s, &fv, i) {
            extend(&mut r, &tv);
            assert(t.skip(fv@.len() as int) =~= s@.skip(i + fv@.len()));
            i = i + fv.len();
            assert(r@ + replace_all(s@.skip(i as int), from@, to@) =~= r0 + replace_all(t, from@, to@));
        } else {
            r.push(s[i]);
            assert(t.drop_first() =~= s@.skip(i + 1));
            assert(t[0] == s@[i as int]);
            i = i + 1;
            assert(r@ + replace_all(s@.skip(i as int), from@, to@) =~= r0 + replace_all(t, from@, to@));
        }
    }
    assert(s@.skip(i as int) =~= Seq::<char>::empty());
    assert(r@ + Seq::<char>::empty() =~= r@);
    r
}

pub proof fn lemma_words_skip_spaces(t: Seq<char>, m: int)
    requires
        0 <= m <= t.len(),
        forall|j: int| 0 <= j < m ==> is_space(#[trigger] t[j]),
    ensures
        words(t) == words(t.skip(m)),
    decreases m,
{
    if m > 0 {
        assert forall|j: int| 0 <= j < m - 1 implies is_space(#[trigger] t.drop_first()[j]) by {
            assert(t.drop_first()[j] == t[j + 1]);
        }
        lemma_words_skip_spaces(t.drop_first(), m - 1);
        assert(t.drop_first().skip(m - 1) =~= t.skip(m));
    } else {
        assert(t.skip(0) =~= t);
    }
}

/// Finds the next whitespace-separated word at or after `pos`.
pub fn next_word(s: &Vec<char>, pos: usize) -> (res: Option<(usize, usize)>)
    requires
        pos <= s.len(),
    ensures
        match res {
            None => words(s@.skip(pos as int)) == Seq::<Seq<char>>::empty(),
            Some((a, b)) => pos <= a < b <= s.len() && words(s@.skip(pos as int)) == seq![
                s@.subrange(a as int, b as int),
            ] + words(s@.skip(b as int)),
        },
{
    let ghost t = s@.skip(pos as int);
    let mut a = pos;
    while a < s.len() && is_space_char(s[a])
        invariant
            pos <= a <= s.len(),
            t == s@.skip(pos as int),
            forall|j: int| 0 <= j < a - pos ==> is_space(#[trigger] t[j]),
        decreases s.len() - a,
    {
        a = a + 1;
    }
    proof {
        lemma_words_skip_spaces(t, a - pos);
        assert(t.skip(a - pos) =~= s@.skip(a as int));
    }
    if a == s.len() {
        assert(s@.skip(a as int) =~= Seq::<char>::empty());
        return None;
    }
    let mut b = a + 1;
    while b < s.len() && !is_space_char(s[b])
        invariant
            a < b <= s.len(),
            !is_space(s@[a as int]),
            forall|j: int| a <= j < b ==> !is_space(#[trigger] s@[j]),
        decreases s.len() - b,
    {
        b = b + 1;
    }
    proof {
        let u = s@.skip(a as int);
        assert forall|j: int| 0 <= j < b - a implies !is_space(#[trigger] u[j]) by {
            assert(u[j] == s@[a + j]);
        }
        lemma_word_len(u, b - a);
        assert(u.take(b - a) =~= s@.subrange(a as int, b as int));
        assert(u.skip(b - a) =~= s@.skip(b as int));
    }
    Some((a, b))
}

pub open spec fn digit(d: int) -> char {
    ((d + 48) as u8) as char
}

/// Decimal digits of a natural number, as `Display` writes them.
pub open spec fn decimal(n: nat) -> Seq<char>
    decreases n,
{
    if n < 10 {
        seq![digit(n as int)]
    } else {
        decimal(n / 10).push(digit((n % 10) as int))
    }
}

/// Decimal form of an integer, as `Display` writes it.
pub open spec fn signed_decimal(n: int) -> Seq<char> {
    if n < 0 {
        seq!['-'] + decimal((-n) as nat)
    } else {
        decimal(n as nat)
    }
}

pub fn decimal_chars(n: u64) -> (r: Vec<char>)
    ensures
        r@ == decimal(n as nat),
    decreases n,
{
    let d = ((n % 10) as u8 + 48) as char;
    assert(d == digit((n % 10) as int));
    if n < 10 {
        let mut r: Vec<char> = Vec::new();
        r.push(d);
        assert(r@ =~= seq![digit(n as int)]);
        r
    } else {
        let mut r = decimal_chars(n / 10);
        r.push(d);
        r
    }
}

pub fn signed_decimal_chars(n: i64) -> (r: Vec<char>)
    requires
        n > i64::MIN,
    ensures
        r@ == signed_decimal(n as int),
{
    if n < 0 {
        let mut r: Vec<char> = Vec::new();
        r.push('-');
        let m = decimal_chars((-n) as u64);
        extend(&mut r, &m);
        r
    } else {
        decimal_chars(n as u64)
    }
}

} // verus!
