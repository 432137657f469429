use nexos::command::cp;
use nexos::command::diff::compute_diff;
use nexos::command::du::format_size;
use nexos::command::ls::days_to_ymd;
use nexos::command::man::{build_man_page, page_with_title};
use nexos::command::tree;
use nexos::command::{register_all, CommandKind};
use nexos::vfs::Vfs;

fn text(v: Vec<char>) -> String {
    v.into_iter().collect()
}

fn lines(v: &[&str]) -> Vec<Vec<char>> {
    v.iter().map(|l| l.chars().collect()).collect()
}

#[test]
fn format_size_rounds_up_to_kilobytes() {
    assert_eq!(text(format_size(0, false)), "0K");
    assert_eq!(text(format_size(1, false)), "1K");
    assert_eq!(text(format_size(1024, false)), "1K");
    assert_eq!(text(format_size(1025, false)), "2K");
}

#[test]
fn days_to_ymd_gives_calendar_dates() {
    assert_eq!(days_to_ymd(0), (1970, 1, 1));
    assert_eq!(days_to_ymd(789), (1972, 2, 29));
    assert_eq!(days_to_ymd(365), (1971, 1, 1));
}

#[test]
fn register_all_appends_the_registered_commands() {
    let mut v = vec![CommandKind::Sudo];
    register_all(&mut v);
    assert_eq!(v.len(), 39);
    assert_eq!(v[0], CommandKind::Sudo);
    assert_eq!(v[1], CommandKind::Ls);
    assert_eq!(v[38], CommandKind::Exit);
}

#[test]
fn man_page_layout_under_a_title() {
    let page = page_with_title("LS", CommandKind::Ls);
    assert!(page.starts_with("LS(1)\n\nNAME\n    ls - List directory contents (-l for long format)\n\nSYNOPSIS\n    "));
    let plain = page_with_title("PWD", CommandKind::Pwd);
    assert!(!plain.contains("EXAMPLES"));
    assert!(plain.ends_with("\n"));
    assert_eq!(build_man_page(CommandKind::Ls), page);
}

#[test]
fn compute_diff_empty_exactly_for_equal_lines() {
    assert!(compute_diff(&lines(&["a", "b"]), &lines(&["a", "b"]), "x", "y").is_empty());
    let out: Vec<String> = compute_diff(&lines(&["a", "b", "c"]), &lines(&["a", "c", "d"]), "x", "y")
        .into_iter()
        .map(text)
        .collect();
    assert_eq!(out, vec!["--- x", "+++ y", "@@ line 2 @@", "- b", "@@ line 3 @@", "+ d"]);
}

#[test]
fn tree_counts_descendants_at_any_depth() {
    let mut vfs = Vfs::new();
    vfs.mkdir("/tmp/a").unwrap();
    vfs.mkdir("/tmp/a/b").unwrap();
    vfs.mkdir("/tmp/a/b/c").unwrap();
    vfs.write_file("/tmp/a/f1", "1").unwrap();
    vfs.write_file("/tmp/a/b/f2", "2").unwrap();
    vfs.write_file("/tmp/a/b/c/f3", "3").unwrap();
    let out = tree::execute(&vfs, &["/tmp/a"]).unwrap();
    assert!(out.starts_with("a\n"));
    assert!(out.ends_with("\n2 directories, 3 files\n"));
}

#[test]
fn cp_directory_mirrors_source() {
    let mut vfs = Vfs::new();
    vfs.mkdir("/tmp/src").unwrap();
    vfs.mkdir("/tmp/src/sub").unwrap();
    vfs.write_file("/tmp/src/a.txt", "alpha").unwrap();
    vfs.write_file("/tmp/src/sub/b.txt", "beta").unwrap();
    cp::execute(&mut vfs, &["/tmp/src", "/tmp/dst"], 1000, 1000).unwrap();
    assert!(vfs.is_dir("/tmp/dst"));
    assert!(vfs.is_dir("/tmp/dst/sub"));
    assert_eq!(vfs.read_file("/tmp/dst/a.txt").unwrap(), "alpha");
    assert_eq!(vfs.read_file("/tmp/dst/sub/b.txt").unwrap(), "beta");
    assert_eq!(vfs.get_meta("/tmp/dst/sub/b.txt").unwrap().uid, 1000);
    assert_eq!(vfs.read_file("/tmp/src/a.txt").unwrap(), "alpha");
}
