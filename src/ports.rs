//! The ports tree: which repository holds a port, and which version its
//! Pkgfile offers.
use vstd::prelude::*;
use crate::database::opt_view;
use crate::text::{
    before_eq, chars_of, has_prefix, lines_of, rows, split_lines, starts_with, string_of, trim,
    trimmed, up_to_eq,
};

verus! {

/// The line prefix that declares a repository root in the ports configuration.
pub open spec fn prtdir_key() -> Seq<char> {
    seq!['p', 'r', 't', 'd', 'i', 'r', ' ']
}

/// The directory under which repository roots lie.
pub open spec fn ports_root() -> Seq<char> {
    seq!['/', 'u', 's', 'r', '/', 'p', 'o', 'r', 't', 's', '/']
}

/// The name that stands for a repository or a version that was not found.
pub open spec fn not_available() -> Seq<char> {
    seq!['N', '/', 'A']
}

pub open spec fn version_key() -> Seq<char> {
    seq!['v', 'e', 'r', 's', 'i', 'o', 'n', '=']
}

pub open spec fn release_key() -> Seq<char> {
    seq!['r', 'e', 'l', 'e', 'a', 's', 'e', '=']
}

/// The repository roots that `lines` declare, in order.
pub open spec fn roots_of(lines: Seq<Seq<char>>) -> Seq<Seq<char>>
    decreases lines.len(),
{
    if lines.len() == 0 {
        Seq::empty()
    } else {
        let prev = roots_of(lines.drop_last());
        let l = lines.last();
        if has_prefix(l, prtdir_key()) {
            prev.push(trim(l.skip(prtdir_key().len() as int)))
        } else {
            prev
        }
    }
}

/// A repository's name: its root without the ports directory before it.
pub open spec fn repository_name_of(root: Seq<char>) -> Seq<char> {
    if has_prefix(root, ports_root()) {
        root.skip(ports_root().len() as int)
    } else {
        root
    }
}

/// The name of the first repository whose flag in `present` is set, else "N/A".
pub open spec fn locate(roots: Seq<Seq<char>>, present: Seq<bool>) -> Seq<char>
    decreases roots.len(),
{
    if roots.len() == 0 || present.len() == 0 {
        not_available()
    } else if present[0] {
        repository_name_of(roots[0])
    } else {
        locate(roots.skip(1), present.skip(1))
    }
}

/// The value of the first line of `lines` that begins with `key`: the text
/// after the key up to the next `=`, trimmed.
pub open spec fn first_value(lines: Seq<Seq<char>>, key: Seq<char>) -> Option<Seq<char>>
    decreases lines.len(),
{
    if lines.len() == 0 {
        None
    } else {
        match first_value(lines.drop_last(), key) {
            Some(v) => Some(v),
            None => {
                let l = lines.last();
                if has_prefix(l, key) {
                    Some(trim(before_eq(l.skip(key.len() as int))))
                } else {
                    None
                }
            },
        }
    }
}

/// The version a Pkgfile offers: `version-release`, where both are set.
pub open spec fn pkgfile_version(contents: Seq<char>) -> Option<Seq<char>> {
    let lines = lines_of(contents);
    match (first_value(lines, version_key()), first_value(lines, release_key())) {
        (Some(v), Some(r)) => Some(v + seq!['-'] + r),
        _ => None,
    }
}

proof fn lemma_first_value_settled(lines: Seq<Seq<char>>, key: Seq<char>, i: int)
    requires
        0 <= i <= lines.len(),
        first_value(lines.take(i), key) is Some,
    ensures
        first_value(lines, key) == first_value(lines.take(i), key),
    decreases lines.len(),
{
    if i < lines.len() {
        assert(lines.drop_last().take(i) =~= lines.take(i));
        lemma_first_value_settled(lines.drop_last(), key, i);
    } else {
        assert(lines.take(i) =~= lines);
    }
}

/// The repository roots that the ports configuration declares, in the order
/// of their `prtdir` lines.
pub fn repository_roots(conf: &str) -> (r: Vec<String>)
    ensures
        r@.map_values(|s: String| s@) == roots_of(lines_of(conf@)),
{
    let lines = split_lines(conf);
    let key = chars_of("prtdir ");
    proof {
        reveal_strlit("prtdir ");
        assert(key@ =~= prtdir_key());
        assert(rows(lines@).take(0) =~= Seq::<Seq<char>>::empty());
    }
    let mut roots: Vec<String> = Vec::new();
    let mut i: usize = 0;
    while i < lines.len()
        invariant
            0 <= i <= lines@.len(),
            key@ == prtdir_key(),
            roots@.map_values(|s: String| s@) == roots_of(rows(lines@).take(i as int)),
        decreases lines@.len() - i,
    {
        let ghost pre = rows(lines@).take(i as int);
        let ghost post = rows(lines@).take(i + 1);
        proof {
            assert(post.drop_last() =~= pre);
            assert(post.last() == lines@[i as int]@);
        }
        let line = &lines[i];
        if starts_with(line, &key) {
            let rest = trimmed(&sub_after(line, 7));
            let ghost before = roots@.map_values(|s: String| s@);
            roots.push(string_of(&rest));
            proof {
                assert(roots@.map_values(|s: String| s@) =~= before.push(rest@));
            }
        } else {
            proof {
                assert(roots@.map_values(|s: String| s@) =~= roots_of(pre));
            }
        }
        i = i + 1;
    }
    proof {
        assert(rows(lines@).take(i as int) =~= rows(lines@));
    }
    roots
}

/// The characters of `v` after the first `n`.
fn sub_after(v: &Vec<char>, n: usize) -> (r: Vec<char>)
    requires
        n <= v@.len(),
    ensures
        r@ == v@.skip(n as int),
{
    let r = crate::text::sub_chars(v, n, v.len());
    proof {
        assert(r@ =~= v@.skip(n as int));
    }
    r
}

/// A repository's name: its root without the leading `/usr/ports/`.
pub fn repository_name(root: &str) -> (r: String)
    ensures
        r@ == repository_name_of(root@),
{
    let v = chars_of(root);
    let prefix = chars_of("/usr/ports/");
    proof {
        reveal_strlit("/usr/ports/");
        assert(prefix@ =~= ports_root());
    }
    if starts_with(&v, &prefix) {
        string_of(&sub_after(&v, 11))
    } else {
        string_of(&v)
    }
}

/// The repository that holds a port: of the roots, in declaration order, the
/// first whose flag in `present` says that it has the port's directory. "N/A"
/// where none has.
pub fn locate_repository(roots: &Vec<String>, present: &Vec<bool>) -> (r: String)
    requires
        roots@.len() == present@.len(),
    ensures
        r@ == locate(roots@.map_values(|s: String| s@), present@),
{
    let ghost all = roots@.map_values(|s: String| s@);
    let mut i: usize = 0;
    proof {
        assert(all.skip(0) =~= all);
        assert(present@.skip(0) =~= present@);
    }
    while i < roots.len()
        invariant
            0 <= i <= roots@.len() == present@.len(),
            all == roots@.map_values(|s: String| s@),
            locate(all, present@) == locate(all.skip(i as int), present@.skip(i as int)),
        decreases roots@.len() - i,
    {
        if present[i] {
            return repository_name(roots[i].as_str());
        }
        proof {
            assert(all.skip(i as int).skip(1) =~= all.skip(i + 1));
            assert(present@.skip(i as int).skip(1) =~= present@.skip(i + 1));
        }
        i = i + 1;
    }
    let r = String::from_str("N/A");
    proof {
        reveal_strlit("N/A");
        assert(r@ =~= not_available());
    }
    r
}

/// The version that a port's Pkgfile offers, `version-release`, from the first
/// `version=` and the first `release=` line; `None` where either is missing.
pub fn pkgfile_version_of(contents: &str) -> (r: Option<String>)
    ensures
        opt_view(r) == pkgfile_version(contents@),
{
    let lines = split_lines(contents);
    let vkey = chars_of("version=");
    let rkey = chars_of("release=");
    proof {
        reveal_strlit("version=");
        reveal_strlit("release=");
        assert(vkey@ =~= version_key());
        assert(rkey@ =~= release_key());
        assert(rows(lines@).take(0) =~= Seq::<Seq<char>>::empty());
    }
    let mut version: Option<Vec<char>> = None;
    let mut release: Option<Vec<char>> = None;
    let mut i: usize = 0;
    while i < lines.len() && !(version.is_some() && release.is_some())
        invariant
            0 <= i <= lines@.len(),
            vkey@ == version_key(),
            rkey@ == release_key(),
            opt_vec(version) == first_value(rows(lines@).take(i as int), version_key()),
            opt_vec(release) == first_value(rows(lines@).take(i as int), release_key()),
        decreases lines@.len() - i,
    {
        let ghost pre = rows(lines@).take(i as int);
        let ghost post = rows(lines@).take(i + 1);
        proof {
            assert(post.drop_last() =~= pre);
            assert(post.last() == lines@[i as int]@);
        }
        let line = &lines[i];
        if version.is_none() && starts_with(line, &vkey) {
            version = Some(trimmed(&up_to_eq(line, 8)));
        }
        if release.is_none() && starts_with(line, &rkey) {
            release = Some(trimmed(&up_to_eq(line, 8)));
        }
        i = i + 1;
    }
    proof {
        if i < lines@.len() {
            lemma_first_value_settled(rows(lines@), version_key(), i as int);
            lemma_first_value_settled(rows(lines@), release_key(), i as int);
        } else {
            assert(rows(lines@).take(i as int) =~= rows(lines@));
        }
    }
    match (version, release) {
        (Some(v), Some(r)) => {
            let mut out = string_of(&v);
            out.append("-");
            out.append(string_of(&r).as_str());
            proof {
                reveal_strlit("-");
                assert(out@ =~= v@ + seq!['-'] + r@);
            }
            Some(out)
        },
        _ => None,
    }
}

pub open spec fn opt_vec(o: Option<Vec<char>>) -> Option<Seq<char>> {
    match o {
        Some(v) => Some(v@),
        None => None,
    }
}

} // verus!
