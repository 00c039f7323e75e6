//! The update report: a header line and one line for each package whose
//! offered version is newer than the installed one.
use vstd::prelude::*;
use core::cmp::Ordering;
use crate::database::{PackageInfo, RecordView, opt_view, records_view};
use crate::version::{compare, version_order};

verus! {

pub open spec fn spaces(n: nat) -> Seq<char> {
    Seq::new(n, |i: int| ' ')
}

/// `s` filled with spaces up to `w` characters, as a left-aligned field.
pub open spec fn pad(s: Seq<char>, w: nat) -> Seq<char> {
    if s.len() >= w {
        s
    } else {
        s + spaces((w - s.len()) as nat)
    }
}

/// A report line: name, installed version and offered version in columns
/// 20, 15 and 15 characters wide.
pub open spec fn line_of(name: Seq<char>, installed: Seq<char>, available: Seq<char>) -> Seq<char> {
    pad(name, 20) + seq![' '] + pad(installed, 15) + seq![' '] + pad(available, 15)
}

pub open spec fn header() -> Seq<char> {
    line_of(
        seq!['P', 'o', 'r', 't'],
        seq!['V', 'e', 'r', 's', 'i', 'o', 'n'],
        seq!['A', 'v', 'a', 'i', 'l', 'a', 'b', 'l', 'e'],
    )
}

/// What the report shows of an installed version: itself, or "unknown".
pub open spec fn installed_text(v: Option<Seq<char>>) -> Seq<char> {
    match v {
        Some(s) => s,
        None => seq!['u', 'n', 'k', 'n', 'o', 'w', 'n'],
    }
}

/// Whether a package is outdated: a version is offered and it orders after
/// the installed one. Where none is offered, the package is left out.
pub open spec fn is_outdated(installed: Option<Seq<char>>, available: Option<Seq<char>>) -> bool {
    match available {
        Some(a) => version_order(a, installed_text(installed)) == Ordering::Greater,
        None => false,
    }
}

/// The lines for the first `n` packages, those flagged in `flags` that have
/// an offered version.
pub open spec fn entries(
    recs: Seq<RecordView>,
    avail: Seq<Option<Seq<char>>>,
    flags: Seq<bool>,
    n: nat,
) -> Seq<Seq<char>>
    decreases n,
{
    if n == 0 {
        Seq::empty()
    } else {
        let prev = entries(recs, avail, flags, (n - 1) as nat);
        let k = n - 1;
        match avail[k] {
            Some(a) => if flags[k] {
                prev.push(line_of(recs[k].0, installed_text(recs[k].1), a))
            } else {
                prev
            },
            None => prev,
        }
    }
}

pub open spec fn outdated_flags(recs: Seq<RecordView>, avail: Seq<Option<Seq<char>>>) -> Seq<bool> {
    Seq::new(recs.len(), |i: int| is_outdated(recs[i].1, avail[i]))
}

pub open spec fn strings(v: Seq<String>) -> Seq<Seq<char>> {
    v.map_values(|s: String| s@)
}

pub open spec fn opt_strings(v: Seq<Option<String>>) -> Seq<Option<Seq<char>>> {
    v.map_values(|o: Option<String>| opt_view(o))
}

/// `s` as a left-aligned field of `w` characters.
pub fn pad_to(s: &str, w: usize) -> (r: String)
    ensures
        r@ == pad(s@, w as nat),
{
    let mut out = String::from_str(s);
    let mut n: usize = s.unicode_len();
    proof {
        assert(out@ =~= s@ + spaces(0));
    }
    while n < w
        invariant
            s@.len() <= n,
            n >= w ==> n == s@.len() || n == w,
            out@ == s@ + spaces((n - s@.len()) as nat),
        decreases w - n,
    {
        out.append(" ");
        proof {
            reveal_strlit(" ");
            assert(out@ =~= s@ + spaces((n + 1 - s@.len()) as nat));
        }
        n = n + 1;
    }
    proof {
        if s@.len() >= w {
            assert(out@ =~= s@);
        }
    }
    out
}

/// One report line for a package.
pub fn report_line(name: &str, installed: &str, available: &str) -> (r: String)
    ensures
        r@ == line_of(name@, installed@, available@),
{
    let mut out = pad_to(name, 20);
    out.append(" ");
    out.append(pad_to(installed, 15).as_str());
    out.append(" ");
    out.append(pad_to(available, 15).as_str());
    proof {
        reveal_strlit(" ");
    }
    out
}

/// The report for `packages`, of which those flagged in `outdated` and with
/// an offered version in `available` get a line, in the order of `packages`.
pub fn build_report_with(
    packages: &Vec<PackageInfo>,
    available: &Vec<Option<String>>,
    outdated: &Vec<bool>,
) -> (r: Vec<String>)
    requires
        packages@.len() == available@.len(),
        packages@.len() == outdated@.len(),
    ensures
        strings(r@) == seq![header()] + entries(
            records_view(packages@),
            opt_strings(available@),
            outdated@,
            packages@.len() as nat,
        ),
{
    let ghost recs = records_view(packages@);
    let ghost avail = opt_strings(available@);
    let mut out: Vec<String> = Vec::new();
    let head = report_line("Port", "Version", "Available");
    proof {
        reveal_strlit("Port");
        reveal_strlit("Version");
        reveal_strlit("Available");
        assert(head@ =~= header());
    }
    out.push(head);
    let mut i: usize = 0;
    proof {
        assert(strings(out@) =~= seq![header()] + entries(recs, avail, outdated@, 0));
    }
    while i < packages.len()
        invariant
            0 <= i <= packages@.len(),
            packages@.len() == available@.len() == outdated@.len(),
            recs == records_view(packages@),
            avail == opt_strings(available@),
            strings(out@) == seq![header()] + entries(recs, avail, outdated@, i as nat),
        decreases packages@.len() - i,
    {
        let ghost before = strings(out@);
        match &available[i] {
            Some(a) => {
                if outdated[i] {
                    let installed: &str = match &packages[i].1 {
                        Some(v) => v.as_str(),
                        None => "unknown",
                    };
                    proof {
                        reveal_strlit("unknown");
                        assert(installed@ == installed_text(recs[i as int].1));
                    }
                    let l = report_line(packages[i].0.as_str(), installed, a.as_str());
                    out.push(l);
                    proof {
                        assert(strings(out@) =~= before.push(l@));
                    }
                }
            },
            None => {},
        }
        i = i + 1;
        proof {
            assert(strings(out@) =~= seq![header()] + entries(recs, avail, outdated@, i as nat));
        }
    }
    out
}

/// The update report: the header line, then a line for each package whose
/// offered version (in `available`, by position) orders after its installed
/// version, or after "unknown" where none is recorded.
pub fn build_report(packages: &Vec<PackageInfo>, available: &Vec<Option<String>>) -> (r: Vec<String>)
    requires
        packages@.len() == available@.len(),
    ensures
        strings(r@) == seq![header()] + entries(
            records_view(packages@),
            opt_strings(available@),
            outdated_flags(records_view(packages@), opt_strings(available@)),
            packages@.len() as nat,
        ),
{
    let ghost recs = records_view(packages@);
    let ghost avail = opt_strings(available@);
    let mut flags: Vec<bool> = Vec::new();
    let mut i: usize = 0;
    while i < packages.len()
        invariant
            0 <= i <= packages@.len() == available@.len(),
            recs == records_view(packages@),
            avail == opt_strings(available@),
            flags@.len() == i,
            forall|j: int| 0 <= j < i ==> flags@[j] == is_outdated(recs[j].1, avail[j]),
        decreases packages@.len() - i,
    {
        let flag = match &available[i] {
            Some(a) => {
                let installed: &str = match &packages[i].1 {
                    Some(v) => v.as_str(),
                    None => "unknown",
                };
                proof {
                    reveal_strlit("unknown");
                    assert(installed@ == installed_text(recs[i as int].1));
                }
                match compare(a.as_str(), installed) {
                    Ordering::Greater => true,
                    _ => false,
                }
            },
            None => false,
        };
        flags.push(flag);
        i = i + 1;
    }
    proof {
        assert(flags@ =~= outdated_flags(recs, avail));
    }
    build_report_with(packages, available, &flags)
}

} // verus!
