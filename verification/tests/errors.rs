use nexos::command::{basename, cd, comm, cp, cut, diff, dirname, du, find, head, ln, mkdir, mv, nl, paste, printf,
    rm, sort, tail, tee, touch, tr, tree, uniq, wc, yes, chown};
use nexos::users::UserDatabase;
use nexos::vfs::Vfs;

fn err(r: Result<String, String>) -> String {
    r.unwrap_err()
}

#[test]
fn missing_operands() {
    let mut vfs = Vfs::new();
    assert_eq!(err(basename::execute(&[])), "basename: missing operand");
    assert_eq!(err(dirname::execute(&[])), "dirname: missing operand");
    assert_eq!(err(comm::execute(&vfs, &["a"])), "comm: missing file operand");
    assert_eq!(err(diff::execute(&vfs, &[])), "diff: missing file operand");
    assert_eq!(err(diff::execute(&vfs, &["a", "b", "c"])), "diff: too many arguments");
    assert_eq!(err(head::execute(&vfs, &[])), "head: missing file operand");
    assert_eq!(err(tail::execute(&vfs, &["a", "b"])), "tail: too many arguments");
    assert_eq!(err(nl::execute(&vfs, &[])), "nl: missing file operand");
    assert_eq!(err(sort::execute(&vfs, &["a", "b"])), "sort: too many arguments");
    assert_eq!(err(uniq::execute(&vfs, &[])), "uniq: missing file operand");
    assert_eq!(err(wc::execute(&vfs, &[])), "wc: missing file operand");
    assert_eq!(err(paste::execute(&vfs, &["a"])), "paste: missing file operand");
    assert_eq!(err(printf::execute(&[], &[])), "printf: missing format operand");
    assert_eq!(err(tr::execute("x", &["a"])), "tr: missing operand");
    assert_eq!(err(tr::execute("x", &["", "b"])), "tr: set1 must not be empty");
    assert_eq!(err(mkdir::execute(&mut vfs, &[], 0, 0)), "mkdir: missing operand");
    assert_eq!(err(touch::execute(&mut vfs, &[])), "touch: missing file operand");
    assert_eq!(err(rm::execute(&mut vfs, &[], 0, 0)), "rm: missing operand");
    assert_eq!(err(cp::execute(&mut vfs, &["a"], 0, 0)), "cp: missing destination operand");
    assert_eq!(err(mv::execute(&mut vfs, &["a"], 0, 0)), "mv: missing destination operand");
    assert_eq!(err(ln::execute(&mut vfs, &["a"])), "ln: missing file operand");
    assert_eq!(err(tee::execute(&mut vfs, "x", &["-a"])), "tee: missing file operand");
    assert_eq!(err(find::execute(&vfs, &["/tmp", "-name"])), "find: missing -name argument");
}

#[test]
fn options_errors() {
    let vfs = Vfs::new();
    assert_eq!(err(cut::execute(&vfs, &["-z", "f"])), "cut: unknown option: -z");
    assert_eq!(err(du::execute(&vfs, &["-x"])), "du: unknown option: -x");
    assert_eq!(err(paste::execute(&vfs, &["-d"])), "paste: option requires an argument -- 'd'");
    assert_eq!(err(paste::execute(&vfs, &["-d", "", "a", "b"])), "paste: empty delimiter");
    assert_eq!(err(yes::execute(&["-n"])), "yes: option requires an argument -- 'n'");
    assert_eq!(err(yes::execute(&["-n", "x"])), "yes: invalid count: 'x'");
    assert!(head::execute(&vfs, &["-n", "q", "/tmp/f"]).unwrap_err().starts_with("head: "));
}

#[test]
fn missing_files() {
    let mut vfs = Vfs::new();
    assert_eq!(err(cd::execute(&mut vfs, &["/none"])), "cd: /none: No such file or directory");
    vfs.write_file("/tmp/f", "x").unwrap();
    assert_eq!(err(cd::execute(&mut vfs, &["/tmp/f"])), "cd: /tmp/f: Not a directory");
    assert_eq!(err(rm::execute(&mut vfs, &["/none"], 0, 0)), "rm: cannot remove '/none': No such file or directory");
    assert_eq!(err(rm::execute(&mut vfs, &["/tmp"], 0, 0)), "rm: cannot remove '/tmp': Is a directory");
    assert_eq!(err(cp::execute(&mut vfs, &["/none", "/tmp/x"], 0, 0)), "cp: cannot stat '/none': No such file or directory");
    assert_eq!(err(mv::execute(&mut vfs, &["/none", "/tmp/x"], 0, 0)), "mv: cannot stat '/none': No such file or directory");
    assert_eq!(err(ln::execute(&mut vfs, &["/none", "/tmp/x"])), "ln: '/none': No such file or directory");
    assert_eq!(err(ln::execute(&mut vfs, &["/tmp", "/tmp/x"])), "ln: '/tmp': Cannot link directory");
    assert_eq!(err(tree::execute(&vfs, &["/none"])), "tree: '/none': No such file or directory");
}

#[test]
fn chown_errors() {
    let mut vfs = Vfs::new();
    vfs.write_file("/tmp/f", "x").unwrap();
    let db = UserDatabase::from_vfs(&vfs);
    assert_eq!(err(chown::execute(&mut vfs, &["0"], 0, &db)), "chown: missing operand");
    assert_eq!(err(chown::execute(&mut vfs, &["bob", "/tmp/f"], 0, &db)), "chown: invalid user: 'bob'");
    assert_eq!(err(chown::execute(&mut vfs, &["0:staff", "/tmp/f"], 0, &db)), "chown: invalid group: 'staff'");
    assert_eq!(err(chown::execute(&mut vfs, &["0", "/tmp/f"], 5, &db)), "chown: Operation not permitted");
}

#[test]
fn comm_with_too_many_files() {
    let vfs = Vfs::new();
    assert_eq!(err(comm::execute(&vfs, &["a", "b", "c"])), "comm: too many arguments");
}
