use scun::cache::{is_cache_valid, CacheData, CacheError};
use scun::command::{parse_command, print_lines, Command, PrintStyle};
use scun::database::{list_installed_packages, PackageInfo};
use scun::inventory::{fetch_installed_packages, InventoryService};
use scun::ports::{locate_repository, pkgfile_version_of, repository_name, repository_roots};
use scun::report::{build_report, build_report_with, pad_to, report_line};
use scun::text::split_lines;
use scun::version::compare;
use std::cmp::Ordering;

fn rec(name: &str, version: Option<&str>) -> PackageInfo {
    (name.to_string(), version.map(|v| v.to_string()))
}

#[test]
fn empty_database_has_no_records() {
    assert_eq!(list_installed_packages(""), Vec::<PackageInfo>::new());
    assert_eq!(list_installed_packages("\n\n  \n"), Vec::<PackageInfo>::new());
}

#[test]
fn records_count_their_starts_not_footprint_lines() {
    let db = "acl\n2.3.1-1\nusr/\nusr/bin/\nusr/bin/getfacl\n\nbash\n5.2-1\nbin/\nbin/bash\n\n\n\nzlib\n1.3-1\nusr/lib/libz.so\n";
    let r = list_installed_packages(db);
    assert_eq!(
        r,
        vec![rec("acl", Some("2.3.1-1")), rec("bash", Some("5.2-1")), rec("zlib", Some("1.3-1"))]
    );
}

#[test]
fn footprint_length_does_not_change_the_record() {
    let mut outs = Vec::new();
    for k in 0..5 {
        let mut db = String::from("foo\n1.0-1\n");
        for j in 0..k {
            db.push_str(&format!("usr/share/foo/file{j}\n"));
        }
        db.push_str("\nbar\n2.0-1\n");
        outs.push(list_installed_packages(&db));
    }
    for o in &outs {
        assert_eq!(o, &vec![rec("foo", Some("1.0-1")), rec("bar", Some("2.0-1"))]);
    }
}

#[test]
fn last_record_without_version_or_trailing_blank() {
    assert_eq!(list_installed_packages("foo\n1.0-1\n\nbar"), vec![rec("foo", Some("1.0-1")), rec("bar", None)]);
    assert_eq!(list_installed_packages("foo\n1.0-1"), vec![rec("foo", Some("1.0-1"))]);
    assert_eq!(list_installed_packages("foo\r\n1.0-1\r\n\r\n"), vec![rec("foo", Some("1.0-1"))]);
}

#[test]
fn split_lines_drops_final_newline_only() {
    assert_eq!(split_lines("a\n\nb\n"), vec![vec!['a'], vec![], vec!['b']]);
    assert_eq!(split_lines("a\r\nb"), vec![vec!['a'], vec!['b']]);
    assert_eq!(split_lines(""), Vec::<Vec<char>>::new());
}

#[test]
fn cache_validity_follows_modification_time() {
    let c = CacheData::new(vec![rec("foo", Some("1.0-1"))], Some(500), 100);
    assert!(is_cache_valid(&c, Some(100)));
    assert!(is_cache_valid(&c, Some(99)));
    assert!(!is_cache_valid(&c, Some(101)));
    assert!(!is_cache_valid(&c, None));
    let unknown = CacheData { data: Vec::new(), timestamp: None, db_mod_time: None };
    assert!(!is_cache_valid(&unknown, Some(0)));
}

#[test]
fn version_comparison_is_numeric_aware() {
    assert_eq!(compare("2.0-1", "10.0-1"), Ordering::Less);
    assert_eq!(compare("1.0-1", "1.0-1"), Ordering::Equal);
    assert_eq!(compare("1.0-2", "1.0-1"), Ordering::Greater);
}

#[test]
fn resolver_finds_first_declared_repository() {
    let conf = "# ports\nprtdir /usr/ports/core\nprtdir   /usr/ports/opt  \nrunscripts yes\nprtdir /usr/ports/contrib\n";
    let roots = repository_roots(conf);
    assert_eq!(roots, vec!["/usr/ports/core", "/usr/ports/opt", "/usr/ports/contrib"]);
    assert_eq!(locate_repository(&roots, &vec![false, true, true]), "opt");
    assert_eq!(locate_repository(&roots, &vec![false, false, false]), "N/A");
    assert_eq!(locate_repository(&Vec::new(), &Vec::new()), "N/A");
}

#[test]
fn repository_name_drops_ports_directory() {
    assert_eq!(repository_name("/usr/ports/core"), "core");
    assert_eq!(repository_name("/srv/ports"), "/srv/ports");
}

#[test]
fn pkgfile_version_takes_first_assignments() {
    let pkgfile = "# Description: foo\nname=foo\nversion=1.2.3\nrelease=2\nversion=9.9\nsource=(x)\n";
    assert_eq!(pkgfile_version_of(pkgfile), Some("1.2.3-2".to_string()));
    assert_eq!(pkgfile_version_of("release= 4 \nversion=0.1=x\n"), Some("0.1-4".to_string()));
    assert_eq!(pkgfile_version_of("version=1.0\n"), None);
    assert_eq!(pkgfile_version_of(""), None);
}

#[test]
fn report_lists_only_newer_versions() {
    let db = "pkgA\n1.0-1\nusr/bin/a\n\npkgB\n1.0-1\nusr/bin/b\n";
    let packages = list_installed_packages(db);
    let available = vec![pkgfile_version_of("version=1.0\nrelease=1\n"), pkgfile_version_of("version=2.0\nrelease=1\n")];
    let report = build_report(&packages, &available);
    assert_eq!(report.len(), 2);
    assert_eq!(report[0], format!("{:<20} {:<15} {:<15}", "Port", "Version", "Available"));
    assert_eq!(report[1], format!("{:<20} {:<15} {:<15}", "pkgB", "1.0-1", "2.0-1"));
}

#[test]
fn report_leaves_out_unresolved_and_unknown_installed() {
    let packages = vec![rec("a", None), rec("b", Some("1.0-1"))];
    let report = build_report(&packages, &vec![Some("1.0-1".to_string()), None]);
    assert_eq!(report.len(), 2);
    assert_eq!(report[1], format!("{:<20} {:<15} {:<15}", "a", "unknown", "1.0-1"));
    let flagged = build_report_with(&packages, &vec![Some("1".to_string()), Some("2".to_string())], &vec![false, true]);
    assert_eq!(flagged[1], format!("{:<20} {:<15} {:<15}", "b", "1.0-1", "2"));
}

#[test]
fn padding_keeps_long_fields() {
    assert_eq!(pad_to("ab", 4), "ab  ");
    assert_eq!(pad_to("abcdef", 4), "abcdef");
    assert_eq!(report_line("a-very-long-package-name", "1", "2"), "a-very-long-package-name 1               2              ");
}

#[test]
fn fresh_snapshot_is_reused_until_database_changes() {
    let db = "foo\n1.0-1\n\nbar\n2.0-1\n";
    let snap = fetch_installed_packages(db, 1700, Some(1800));
    assert_eq!(snap.timestamp, Some(1800));
    assert_eq!(snap.db_mod_time, Some(1700));
    let expected = list_installed_packages(db);
    assert!(is_cache_valid(&snap, Some(1700)));
    let service = InventoryService::from_cache(snap, Some(1700)).expect("valid snapshot");
    assert_eq!(service.packages(), &expected);
    let again = fetch_installed_packages(db, 1700, None);
    assert!(InventoryService::from_cache(again, Some(1701)).is_none());
    assert!(InventoryService::empty().packages().is_empty());
    let fresh = InventoryService::from_snapshot(fetch_installed_packages(db, 1, None));
    assert_eq!(fresh.packages(), &expected);
}

#[test]
fn commands_and_print_styles() {
    let args = |v: &[&str]| v.iter().map(|s| s.to_string()).collect::<Vec<String>>();
    assert_eq!(parse_command(&args(&["scun", "notify"])), Some(Command::Notify));
    assert_eq!(parse_command(&args(&["scun", "n"])), Some(Command::Notify));
    assert_eq!(parse_command(&args(&["scun", "p", "--icon"])), Some(Command::Print(PrintStyle::Icon)));
    assert_eq!(parse_command(&args(&["scun", "print", "-l"])), Some(Command::Print(PrintStyle::Long)));
    assert_eq!(parse_command(&args(&["scun", "print", "-x"])), Some(Command::Print(PrintStyle::Count)));
    assert_eq!(parse_command(&args(&["scun", "print"])), Some(Command::Print(PrintStyle::Count)));
    assert_eq!(parse_command(&args(&["scun", "list"])), None);
    assert_eq!(parse_command(&args(&["scun"])), None);
}

#[test]
fn print_lines_count_icon_and_long() {
    let mut report = vec!["header".to_string()];
    for i in 0..12 {
        report.push(format!("line{i}"));
    }
    assert_eq!(print_lines(&report, PrintStyle::Count), vec!["12"]);
    assert_eq!(print_lines(&report, PrintStyle::Icon), vec!["\u{f06b0} 12"]);
    assert_eq!(print_lines(&report, PrintStyle::Long), report);
    assert_eq!(print_lines(&vec!["h".to_string()], PrintStyle::Count), vec!["0"]);
}

#[test]
fn cache_error_messages() {
    assert_eq!(CacheError::Io("gone".to_string()).message(), "IO error: gone");
    assert_eq!(CacheError::Serde("bad".to_string()).message(), "Serialization error: bad");
    assert_eq!(CacheError::SystemTime("late".to_string()).message(), "System time error: late");
}
