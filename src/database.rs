//! The installed-package database: records of non-blank lines, apart by blank
//! ones. A record's first line is the package's name, its second the installed
//! version, and the rest its footprint, which is skipped.
use vstd::prelude::*;
use crate::text::{is_blank, lines_of, rows, split_lines, is_blank_line, string_of};

verus! {

/// A package's name and, where the database gives one, its installed version.
pub type PackageInfo = (String, Option<String>);

/// A package record as values: the name and the optional version.
pub type RecordView = (Seq<char>, Option<Seq<char>>);

pub open spec fn opt_view(o: Option<String>) -> Option<Seq<char>> {
    match o {
        Some(s) => Some(s@),
        None => None,
    }
}

pub open spec fn record_view(p: PackageInfo) -> RecordView {
    (p.0@, opt_view(p.1))
}

pub open spec fn records_view(v: Seq<PackageInfo>) -> Seq<RecordView> {
    v.map_values(|p: PackageInfo| record_view(p))
}

/// Where the parser stands after a line.
pub enum Mode {
    /// Between records.
    Closed,
    /// A name was read; the version line is next.
    Named,
    /// In the footprint of a record.
    Footprint,
}

/// The records read from `lines`, and where the reading stands after them.
pub open spec fn scan(lines: Seq<Seq<char>>) -> (Seq<RecordView>, Mode)
    decreases lines.len(),
{
    if lines.len() == 0 {
        (Seq::empty(), Mode::Closed)
    } else {
        let (recs, mode) = scan(lines.drop_last());
        let l = lines.last();
        if is_blank(l) {
            (recs, Mode::Closed)
        } else {
            match mode {
                Mode::Closed => (recs.push((l, None)), Mode::Named),
                Mode::Named => (recs.update(recs.len() - 1, (recs.last().0, Some(l))), Mode::Footprint),
                Mode::Footprint => (recs, Mode::Footprint),
            }
        }
    }
}

/// The records of a database given as lines.
pub open spec fn parse_lines(lines: Seq<Seq<char>>) -> Seq<RecordView> {
    scan(lines).0
}

/// The records of a database given as its text.
pub open spec fn database_records(contents: Seq<char>) -> Seq<RecordView> {
    parse_lines(lines_of(contents))
}

/// The number of lines that open a record: a non-blank line that comes first
/// or after a blank one.
pub open spec fn record_starts(lines: Seq<Seq<char>>) -> nat
    decreases lines.len(),
{
    if lines.len() == 0 {
        0
    } else {
        let l = lines.last();
        let opens = !is_blank(l) && (lines.len() == 1 || is_blank(lines[lines.len() - 2]));
        record_starts(lines.drop_last()) + if opens { 1nat } else { 0nat }
    }
}

proof fn lemma_scan_mode(lines: Seq<Seq<char>>)
    ensures
        lines.len() == 0 ==> scan(lines).1 == Mode::Closed,
        lines.len() > 0 ==> (scan(lines).1 == Mode::Closed <==> is_blank(lines.last())),
        scan(lines).1 != Mode::Closed ==> scan(lines).0.len() > 0,
        scan(lines).0.len() == record_starts(lines),
    decreases lines.len(),
{
    if lines.len() > 0 {
        let prev = lines.drop_last();
        lemma_scan_mode(prev);
        if lines.len() >= 2 {
            assert(prev.last() == lines[lines.len() - 2]);
        }
    }
}

/// Every record comes from the one line that opens it: there are as many
/// records as lines that open one, and footprint lines open none.
pub proof fn lemma_record_count(lines: Seq<Seq<char>>)
    ensures
        parse_lines(lines).len() == record_starts(lines),
{
    lemma_scan_mode(lines);
}

/// A block of non-blank lines after a blank line (or at the start) adds
/// exactly one record, named by its first line and versioned by its second,
/// however many footprint lines follow them.
pub proof fn lemma_block_is_one_record(before: Seq<Seq<char>>, block: Seq<Seq<char>>)
    requires
        before.len() == 0 || is_blank(before.last()),
        block.len() >= 1,
        forall|i: int| 0 <= i < block.len() ==> !is_blank(#[trigger] block[i]),
    ensures
        parse_lines(before + block) == parse_lines(before).push(
            (block[0], if block.len() >= 2 { Some(block[1]) } else { None }),
        ),
        scan(before + block).1 == if block.len() == 1 { Mode::Named } else { Mode::Footprint },
    decreases block.len(),
{
    lemma_scan_mode(before);
    let all = before + block;
    assert(all.drop_last() =~= before + block.drop_last());
    assert(all.last() == block.last());
    assert(!is_blank(block[block.len() - 1]));
    if block.len() == 1 {
        assert(before + block.drop_last() =~= before);
    } else {
        lemma_block_is_one_record(before, block.drop_last());
        lemma_scan_mode(before + block.drop_last());
        assert(block.drop_last()[0] == block[0]);
        if block.len() >= 3 {
            assert(block.drop_last()[1] == block[1]);
        }
    }
}

/// Reads the records of the installed-package database from its text, in file
/// order. Malformed text gives records without a version, never a failure.
pub fn list_installed_packages(contents: &str) -> (r: Vec<PackageInfo>)
    ensures
        records_view(r@) == database_records(contents@),
{
    let lines = split_lines(contents);
    let mut packages: Vec<PackageInfo> = Vec::new();
    let mut mode = Mode::Closed;
    let mut i: usize = 0;
    proof {
        assert(rows(lines@).take(0) =~= Seq::<Seq<char>>::empty());
    }
    while i < lines.len()
        invariant
            0 <= i <= lines@.len(),
            rows(lines@) == lines_of(contents@),
            scan(rows(lines@).take(i as int)) == (records_view(packages@), mode),
        decreases lines@.len() - i,
    {
        let ghost pre = rows(lines@).take(i as int);
        let ghost post = rows(lines@).take(i + 1);
        proof {
            assert(post.drop_last() =~= pre);
            assert(post.last() == lines@[i as int]@);
            lemma_scan_mode(pre);
        }
        let line = &lines[i];
        if is_blank_line(line) {
            mode = Mode::Closed;
        } else {
            match mode {
                Mode::Closed => {
                    let name = string_of(line);
                    packages.push((name, None));
                    mode = Mode::Named;
                    proof {
                        assert(records_view(packages@) =~= scan(pre).0.push((line@, None)));
                    }
                },
                Mode::Named => {
                    let ghost old_recs = records_view(packages@);
                    let last = packages.pop();
                    let version = string_of(line);
                    match last {
                        Some((name, _)) => {
                            packages.push((name, Some(version)));
                        },
                        None => {},
                    }
                    mode = Mode::Footprint;
                    proof {
                        assert(records_view(packages@) =~= old_recs.update(
                            old_recs.len() - 1,
                            (old_recs.last().0, Some(line@)),
                        ));
                    }
                },
                Mode::Footprint => {},
            }
        }
        i = i + 1;
    }
    proof {
        assert(rows(lines@).take(i as int) =~= rows(lines@));
    }
    packages
}

} // verus!
