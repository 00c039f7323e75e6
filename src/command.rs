//! What a run is asked to do with the report, and what the print mode writes.
use vstd::prelude::*;
use crate::report::strings;
use crate::text::string_of;

verus! {

/// How the print mode shows the report.
#[derive(PartialEq, Eq, Structural, Clone, Copy, Debug)]
pub enum PrintStyle {
    /// The number of outdated packages.
    Count,
    /// That number after an icon.
    Icon,
    /// The report line by line.
    Long,
}

/// The mode of a run.
#[derive(PartialEq, Eq, Structural, Clone, Copy, Debug)]
pub enum Command {
    /// Deliver the report as a desktop notification.
    Notify,
    /// Write the report to standard output.
    Print(PrintStyle),
}

/// The style that the argument after the print mode selects.
pub open spec fn style_of(flag: Option<Seq<char>>) -> PrintStyle {
    match flag {
        Some(f) => if f == "-i"@ || f == "--icon"@ {
            PrintStyle::Icon
        } else if f == "-l"@ || f == "--long"@ {
            PrintStyle::Long
        } else {
            PrintStyle::Count
        },
        None => PrintStyle::Count,
    }
}

/// The command that the arguments (the program's name first) ask for; `None`
/// where the mode is missing or unknown.
pub open spec fn command_of(args: Seq<Seq<char>>) -> Option<Command> {
    if args.len() < 2 {
        None
    } else if args[1] == "notify"@ || args[1] == "n"@ {
        Some(Command::Notify)
    } else if args[1] == "print"@ || args[1] == "p"@ {
        Some(Command::Print(style_of(if args.len() > 2 { Some(args[2]) } else { None })))
    } else {
        None
    }
}

pub open spec fn decimal_digit(d: nat) -> char {
    seq!['0', '1', '2', '3', '4', '5', '6', '7', '8', '9'][d as int]
}

/// The decimal numeral of `n`, without leading zeros.
pub open spec fn decimal(n: nat) -> Seq<char>
    decreases n,
{
    if n < 10 {
        seq![decimal_digit(n)]
    } else {
        decimal(n / 10).push(decimal_digit(n % 10))
    }
}

/// The icon before the count.
pub open spec fn icon() -> Seq<char> {
    seq!['\u{f06b0}', ' ']
}

/// What the print mode writes, one item a line, for a report whose first
/// line is its header.
pub open spec fn print_lines_of(report: Seq<Seq<char>>, style: PrintStyle) -> Seq<Seq<char>> {
    let count = decimal((report.len() - 1) as nat);
    match style {
        PrintStyle::Count => seq![count],
        PrintStyle::Icon => seq![icon() + count],
        PrintStyle::Long => report,
    }
}

/// Relies on usize's Display, through ToString: the decimal numeral.
#[verifier::external_body]
fn usize_to_string(n: usize) -> (r: String)
    ensures
        r@ == decimal(n as nat),
{
    n.to_string()
}

/// Whether `s` is the text `lit`.
fn is_text(s: &String, lit: &str) -> (r: bool)
    ensures
        r == (s@ == lit@),
{
    *s == String::from_str(lit)
}

/// The style that the argument after the print mode selects.
pub fn parse_style(flag: Option<&String>) -> (r: PrintStyle)
    ensures
        r == style_of(
            match flag {
                Some(f) => Some(f@),
                None => None,
            },
        ),
{
    match flag {
        Some(f) => if is_text(f, "-i") || is_text(f, "--icon") {
            PrintStyle::Icon
        } else if is_text(f, "-l") || is_text(f, "--long") {
            PrintStyle::Long
        } else {
            PrintStyle::Count
        },
        None => PrintStyle::Count,
    }
}

/// The command that the arguments ask for: `notify` (or `n`), or `print` (or
/// `p`) with an optional style flag; `None` where the mode is missing or
/// unknown.
pub fn parse_command(args: &Vec<String>) -> (r: Option<Command>)
    ensures
        r == command_of(strings(args@)),
{
    let ghost a = strings(args@);
    if args.len() < 2 {
        return None;
    }
    let mode = &args[1];
    assert(mode@ == a[1]);
    if is_text(mode, "notify") || is_text(mode, "n") {
        Some(Command::Notify)
    } else if is_text(mode, "print") || is_text(mode, "p") {
        let flag = if args.len() > 2 {
            Some(&args[2])
        } else {
            None
        };
        Some(Command::Print(parse_style(flag)))
    } else {
        None
    }
}

/// What the print mode writes for `report`: the number of outdated packages,
/// that number after an icon, or the whole report.
pub fn print_lines(report: &Vec<String>, style: PrintStyle) -> (r: Vec<String>)
    requires
        report@.len() >= 1,
    ensures
        strings(r@) == print_lines_of(strings(report@), style),
{
    let count = usize_to_string(report.len() - 1);
    match style {
        PrintStyle::Count => {
            let r = vec![count];
            proof {
                assert(strings(r@) =~= print_lines_of(strings(report@), style));
            }
            r
        },
        PrintStyle::Icon => {
            let mut line = string_of(&vec!['\u{f06b0}', ' ']);
            line.append(count.as_str());
            proof {
                assert(line@ =~= icon() + count@);
            }
            let r = vec![line];
            proof {
                assert(strings(r@) =~= print_lines_of(strings(report@), style));
            }
            r
        },
        PrintStyle::Long => {
            let mut r: Vec<String> = Vec::new();
            let mut i: usize = 0;
            while i < report.len()
                invariant
                    0 <= i <= report@.len(),
                    strings(r@) == strings(report@).take(i as int),
                decreases report@.len() - i,
            {
                let ghost before = strings(r@);
                let s = report[i].clone();
                r.push(s);
                proof {
                    assert(strings(r@) =~= before.push(report@[i as int]@));
                    assert(strings(report@).take(i + 1) =~= strings(report@).take(i as int).push(report@[i as int]@));
                }
                i = i + 1;
                proof {
                    assert(strings(r@) =~= strings(report@).take(i as int));
                }
            }
            proof {
                assert(strings(report@).take(i as int) =~= strings(report@));
            }
            r
        },
    }
}

} // verus!
