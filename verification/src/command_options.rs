//! The options shared by the daemon commands and the arguments they become.
use vstd::prelude::*;

use crate::text::{chars_of, extend, extend_str, string_of, trim, trimmed, CharClass};

verus! {

/// The character views of a list of strings.
pub open spec fn views(v: Seq<String>) -> Seq<Seq<char>> {
    v.map_values(|s: String| s@)
}

pub open spec fn opt_view(o: Option<String>) -> Option<Seq<char>> {
    match o {
        Some(s) => Some(s@),
        None => None,
    }
}

/// Options given to `yandex-disk`; paths are held as text.
#[derive(Clone, Debug, Default)]
pub struct CommandOptions {
    pub config_file: Option<String>,
    pub sync_dir: Option<String>,
    pub auth_file: Option<String>,
    pub exclude_dirs: Option<String>,
    pub proxy: Option<String>,
    pub read_only: bool,
    pub overwrite: bool,
}

/// `--name=path` for a path that is present and not empty.
pub open spec fn path_arg(name: Seq<char>, path: Option<String>) -> Seq<Seq<char>> {
    match path {
        Some(p) if p@.len() > 0 => seq![name + "="@ + p@],
        _ => Seq::empty(),
    }
}

/// `--name=value` for a value that is present and not blank, trimmed.
pub open spec fn value_arg(name: Seq<char>, value: Option<String>) -> Seq<Seq<char>> {
    match value {
        Some(v) if trim(v@).len() > 0 => seq![name + "="@ + trim(v@)],
        _ => Seq::empty(),
    }
}

pub open spec fn flag_arg(name: Seq<char>, on: bool) -> Seq<Seq<char>> {
    if on {
        seq![name]
    } else {
        Seq::empty()
    }
}

/// The arguments that a set of options adds to a command, in order.
pub open spec fn option_args(o: CommandOptions) -> Seq<Seq<char>> {
    concat_all(
        seq![
            path_arg("--config"@, o.config_file),
            path_arg("--dir"@, o.sync_dir),
            path_arg("--auth"@, o.auth_file),
            value_arg("--exclude-dirs"@, o.exclude_dirs),
            value_arg("--proxy"@, o.proxy),
            flag_arg("--read-only"@, o.read_only),
            flag_arg("--overwrite"@, o.overwrite),
        ],
    )
}

/// A path that is present and not empty.
pub fn non_empty_path(path: Option<&String>) -> (res: Option<&String>)
    ensures
        res == (match path {
            Some(p) if p@.len() > 0 => Some(p),
            _ => None,
        }),
{
    match path {
        Some(p) => {
            let v = chars_of(p.as_str());
            if v.len() > 0 {
                Some(p)
            } else {
                None
            }
        },
        None => None,
    }
}

fn push_path_arg(args: &mut Vec<String>, name: &str, path: Option<&String>)
    ensures
        views(final(args)@) == views(old(args)@) + path_arg(
            name@,
            match path {
                Some(p) => Some(*p),
                None => None,
            },
        ),
{
    let ghost before = views(args@);
    if let Some(p) = non_empty_path(path) {
        let mut v = chars_of(name);
        extend_str(&mut v, "=");
        extend_str(&mut v, p.as_str());
        args.push(string_of(&v));
        assert(views(args@) =~= before + seq![name@ + "="@ + p@]);
    } else {
        assert(views(args@) =~= before + Seq::<Seq<char>>::empty());
    }
}

fn push_value_arg(args: &mut Vec<String>, name: &str, value: Option<&String>)
    ensures
        views(final(args)@) == views(old(args)@) + value_arg(
            name@,
            match value {
                Some(p) => Some(*p),
                None => None,
            },
        ),
{
    let ghost before = views(args@);
    if let Some(p) = value {
        let t = trimmed(&chars_of(p.as_str()), CharClass::Space);
        if t.len() > 0 {
            let mut v = chars_of(name);
            extend_str(&mut v, "=");
            extend(&mut v, &t);
            args.push(string_of(&v));
            assert(views(args@) =~= before + seq![name@ + "="@ + trim(p@)]);
            return;
        }
    }
    assert(views(args@) =~= before + Seq::<Seq<char>>::empty());
}

/// The concatenation of a list of sequences.
pub open spec fn concat_all(parts: Seq<Seq<Seq<char>>>) -> Seq<Seq<char>>
    decreases parts.len(),
{
    if parts.len() == 0 {
        Seq::empty()
    } else {
        concat_all(parts.drop_last()) + parts.last()
    }
}

proof fn lemma_chain(s0: Seq<Seq<char>>, states: Seq<Seq<Seq<char>>>, parts: Seq<Seq<Seq<char>>>)
    requires
        states.len() == parts.len(),
        states.len() > 0,
        states[0] == s0 + parts[0],
        forall|i: int| 0 < i < states.len() ==> #[trigger] states[i] == states[i - 1] + parts[i],
    ensures
        states.last() == s0 + concat_all(parts),
    decreases states.len(),
{
    if states.len() == 1 {
        assert(parts.drop_last().len() == 0);
        assert(concat_all(parts.drop_last()) == Seq::<Seq<char>>::empty());
        assert(concat_all(parts) == concat_all(parts.drop_last()) + parts.last());
        assert(concat_all(parts) =~= parts[0]);
    } else {
        lemma_chain(s0, states.drop_last(), parts.drop_last());
        assert(states.last() == states[states.len() - 2] + parts.last());
        assert(states.last() =~= s0 + concat_all(parts));
    }
}

fn push_flag(args: &mut Vec<String>, name: &str, on: bool)
    ensures
        views(final(args)@) == views(old(args)@) + flag_arg(name@, on),
{
    let ghost before = views(args@);
    if on {
        args.push(name.to_owned());
        assert(views(args@) =~= before + seq![name@]);
    } else {
        assert(views(args@) =~= before + Seq::<Seq<char>>::empty());
    }
}

impl CommandOptions {
    /// Appends the arguments these options stand for.
    pub fn append_args(&self, args: &mut Vec<String>)
        ensures
            views(final(args)@) == views(old(args)@) + option_args(*self),
    {
        let ghost s0 = views(args@);
        push_path_arg(args, "--config", self.config_file.as_ref());
        let ghost s1 = views(args@);
        push_path_arg(args, "--dir", self.sync_dir.as_ref());
        let ghost s2 = views(args@);
        push_path_arg(args, "--auth", self.auth_file.as_ref());
        let ghost s3 = views(args@);
        push_value_arg(args, "--exclude-dirs", self.exclude_dirs.as_ref());
        let ghost s4 = views(args@);
        push_value_arg(args, "--proxy", self.proxy.as_ref());
        let ghost s5 = views(args@);
        push_flag(args, "--read-only", self.read_only);
        let ghost s6 = views(args@);
        push_flag(args, "--overwrite", self.overwrite);
        let ghost s7 = views(args@);
        proof {
            lemma_chain(
                s0,
                seq![s1, s2, s3, s4, s5, s6, s7],
                seq![
                    path_arg("--config"@, self.config_file),
                    path_arg("--dir"@, self.sync_dir),
                    path_arg("--auth"@, self.auth_file),
                    value_arg("--exclude-dirs"@, self.exclude_dirs),
                    value_arg("--proxy"@, self.proxy),
                    flag_arg("--read-only"@, self.read_only),
                    flag_arg("--overwrite"@, self.overwrite),
                ],
            );
        }
    }

    /// The sync folder to create before a command runs, if one is given.
    pub fn sync_dir_to_create(&self) -> (res: Option<&String>)
        ensures
            res == (match &self.sync_dir {
                Some(p) if p@.len() > 0 => Some(p),
                _ => None,
            }),
    {
        non_empty_path(self.sync_dir.as_ref())
    }
}

} // verus!
