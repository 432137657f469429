//! `ls [-l] [path]` -- list a directory (the working directory by default).
//!
//! Entries are listed in name order, directories with a trailing `/`,
//! separated by two spaces. A file operand lists just its name. With `-l`
//! each entry gets a line with its mode string, owner and group names
//! (`unknown` without a database entry), size (a directory's number of
//! entries), modification time and name.
use vstd::prelude::*;
use crate::text::{strs_view, chars_of, string_of, to_owned_string, push_str, push_all, str_eq, join,
    join_chars, vv};
use crate::numeric::{nat_str, int_str, pad_left, pad_right, push_u64, push_i64, push_u64_padded,
    push_padded_left, push_padded_right};
use crate::path::{child_of, is_normal, name_of};
use crate::permissions::{mode_string, format_mode};
use crate::users::{UserDatabase, DbView, user_ids, group_ids, user_with_uid, group_with_gid};
use crate::vfs::{Vfs, FsView, Meta, DirEntry, rv, children, names_of, byte_len, listing, entry_matches,
    is_child};
use crate::command::kinds::outcome;
use crate::command::{Command, CommandContext, CommandKind, state_of, meets, lemma_vfs_of};

verus! {

// ---------------------------------------------------------------------------
// Dates
// ---------------------------------------------------------------------------

/// A leap year of the Gregorian calendar.
pub open spec fn is_leap(y: int) -> bool {
    (y % 4 == 0 && y % 100 != 0) || y % 400 == 0
}

/// Days in year `y`.
pub open spec fn year_len(y: int) -> int {
    if is_leap(y) {
        366
    } else {
        365
    }
}

/// The year reached and the days left over after counting whole years of
/// `rem` days from the start of year `y`.
pub open spec fn year_from(rem: int, y: int) -> (int, int)
    decreases rem,
{
    if rem < year_len(y) {
        (y, rem)
    } else {
        year_from(rem - year_len(y), y + 1)
    }
}

/// Days in month `m` (1-based).
pub open spec fn month_len(m: int, leap: bool) -> int {
    if m == 2 {
        if leap {
            29
        } else {
            28
        }
    } else if m == 4 || m == 6 || m == 9 || m == 11 {
        30
    } else {
        31
    }
}

/// The month reached and the days left over after counting whole months
/// of `rem` days from the start of month `m`.
pub open spec fn month_from(rem: int, m: int, leap: bool) -> (int, int)
    decreases 13 - m,
{
    if m >= 13 || rem < month_len(m, leap) {
        (m, rem)
    } else {
        month_from(rem - month_len(m, leap), m + 1, leap)
    }
}

/// Year, month and day of the date `days` days after 1970-01-01.
pub open spec fn days_to_ymd_spec(days: int) -> (int, int, int) {
    let (y, r) = year_from(days, 1970);
    let (m, d) = month_from(r, 1, is_leap(y));
    (y, m, d + 1)
}

/// Days from 1970-01-01 to the first day of year `y`.
pub open spec fn days_before_year(y: int) -> int
    decreases y - 1970,
{
    if y <= 1970 {
        0
    } else {
        days_before_year(y - 1) + year_len(y - 1)
    }
}

/// Days from the first day of a year to the first day of its month `m`.
pub open spec fn days_before_month(m: int, leap: bool) -> int
    decreases m,
{
    if m <= 1 {
        0
    } else {
        days_before_month(m - 1, leap) + month_len(m - 1, leap)
    }
}

proof fn lemma_year_from(rem: int, y: int)
    requires
        rem >= 0,
        y >= 1970,
    ensures
        year_from(rem, y).0 >= y,
        0 <= year_from(rem, y).1 < year_len(year_from(rem, y).0),
        days_before_year(y) + rem == days_before_year(year_from(rem, y).0) + year_from(rem, y).1,
    decreases rem,
{
    if rem >= year_len(y) {
        lemma_year_from(rem - year_len(y), y + 1);
    }
}

proof fn lemma_month_from(rem: int, m: int, leap: bool)
    requires
        rem >= 0,
        1 <= m <= 13,
        days_before_month(m, leap) + rem < days_before_month(13, leap),
    ensures
        m <= month_from(rem, m, leap).0 <= 12,
        0 <= month_from(rem, m, leap).1 < month_len(month_from(rem, m, leap).0, leap),
        days_before_month(m, leap) + rem == days_before_month(month_from(rem, m, leap).0, leap) + month_from(
            rem,
            m,
            leap,
        ).1,
    decreases 13 - m,
{
    if m < 13 && rem >= month_len(m, leap) {
        lemma_month_from(rem - month_len(m, leap), m + 1, leap);
    }
}

/// The date of a day count from 1970-01-01 (`days >= 0`) is a valid
/// Gregorian date, exactly that many days after 1970-01-01: the days of
/// the whole years before it, of the whole months before it in its year,
/// and of its own month before it add up to `days`.
pub proof fn law_days_to_ymd_valid(days: int)
    requires
        days >= 0,
    ensures
        days_to_ymd_spec(days).0 >= 1970,
        1 <= days_to_ymd_spec(days).1 <= 12,
        1 <= days_to_ymd_spec(days).2 <= month_len(days_to_ymd_spec(days).1, is_leap(days_to_ymd_spec(days).0)),
        days == days_before_year(days_to_ymd_spec(days).0) + days_before_month(
            days_to_ymd_spec(days).1,
            is_leap(days_to_ymd_spec(days).0),
        ) + days_to_ymd_spec(days).2 - 1,
{
    lemma_year_from(days, 1970);
    let (y, r) = year_from(days, 1970);
    let leap = is_leap(y);
    assert(days_before_month(13, leap) == year_len(y)) by {
        reveal_with_fuel(days_before_month, 13);
    }
    lemma_month_from(r, 1, leap);
}

/// Division truncating toward zero (for a positive divisor).
pub open spec fn tdiv(a: int, b: int) -> int {
    if a >= 0 {
        a / b
    } else {
        -((-a) / b)
    }
}

/// The remainder of `tdiv`.
pub open spec fn trem(a: int, b: int) -> int {
    a - b * tdiv(a, b)
}

/// The month abbreviation for month `m`.
pub open spec fn month_name(m: int) -> Seq<char> {
    if m == 1 { "Jan"@ } else if m == 2 { "Feb"@ } else if m == 3 { "Mar"@ } else if m == 4 { "Apr"@ }
    else if m == 5 { "May"@ } else if m == 6 { "Jun"@ } else if m == 7 { "Jul"@ } else if m == 8 { "Aug"@ }
    else if m == 9 { "Sep"@ } else if m == 10 { "Oct"@ } else if m == 11 { "Nov"@ } else if m == 12 { "Dec"@ }
    else { "???"@ }
}

/// A number in two columns padded with zeros (`{:02}`).
pub open spec fn two_digits(n: int) -> Seq<char> {
    if n >= 0 {
        pad_left(nat_str(n as nat), 2, '0')
    } else {
        int_str(n)
    }
}

/// The seconds that a stored time denotes (as a signed 64-bit count).
pub open spec fn signed_secs(ts: u64) -> int {
    if ts <= i64::MAX {
        ts as int
    } else {
        ts - 0x1_0000_0000_0000_0000int
    }
}

/// `Mon DD HH:MM` for a time in seconds since the epoch.
pub open spec fn timestamp_text(ts: u64) -> Seq<char> {
    let secs = signed_secs(ts);
    let days = tdiv(secs, 86400);
    let tod = trem(secs, 86400);
    let hour = tdiv(tod, 3600);
    let minute = tdiv(trem(tod, 3600), 60);
    let (_y, m, d) = days_to_ymd_spec(days);
    month_name(m) + seq![' '] + pad_left(int_str(d), 2, ' ') + seq![' '] + two_digits(hour) + seq![':']
        + two_digits(minute)
}

/// How `ls -l` shows a modification time (`Jan  1 00:00` for an unknown
/// time).
#[verifier::opaque]
pub open spec fn format_timestamp_spec(ts: u64) -> Seq<char> {
    if ts == 0 {
        "Jan  1 00:00"@
    } else {
        timestamp_text(ts)
    }
}

/// Whether `y` is a leap year.
fn is_leap_year(y: i64) -> (r: bool)
    ensures
        r == is_leap(y as int),
{
    (y % 4 == 0 && y % 100 != 0) || y % 400 == 0
}

/// Days in year `y`.
fn year_days(y: i64) -> (r: i64)
    requires
        y >= 0,
    ensures
        r as int == year_len(y as int),
{
    if is_leap_year(y) {
        366
    } else {
        365
    }
}

/// Days in month `m`.
fn month_days(m: i64, leap: bool) -> (r: i64)
    ensures
        r as int == month_len(m as int, leap),
{
    if m == 2 {
        if leap {
            29
        } else {
            28
        }
    } else if m == 4 || m == 6 || m == 9 || m == 11 {
        30
    } else {
        31
    }
}

/// Year, month and day of the date `days` days after 1970-01-01.
pub fn days_to_ymd(days: i64) -> (r: (i64, i64, i64))
    requires
        days <= 0x1_0000_0000_0000_0000int / 86400,
    ensures
        (r.0 as int, r.1 as int, r.2 as int) == days_to_ymd_spec(days as int),
{
    let mut y: i64 = 1970;
    let mut remaining: i64 = days;
    while remaining >= year_days(y)
        invariant
            y >= 1970,
            y - 1970 <= days - remaining,
            remaining <= days,
            days <= 0x1_0000_0000_0000_0000int / 86400,
            year_from(days as int, 1970) == year_from(remaining as int, y as int),
        decreases remaining,
    {
        remaining = remaining - year_days(y);
        y = y + 1;
    }
    assert(year_from(days as int, 1970) == (y as int, remaining as int));
    let ghost r0 = remaining as int;
    let leap = is_leap_year(y);
    let mut m: i64 = 1;
    while m < 13 && remaining >= month_days(m, leap)
        invariant
            1 <= m <= 13,
            remaining <= r0,
            r0 <= days,
            days <= 0x1_0000_0000_0000_0000int / 86400,
            month_from(r0, 1, leap) == month_from(remaining as int, m as int, leap),
        decreases 13 - m,
    {
        remaining = remaining - month_days(m, leap);
        m = m + 1;
    }
    (y, m, remaining + 1)
}

fn push_two_digits(out: &mut Vec<char>, n: i64)
    ensures
        final(out)@ == old(out)@ + two_digits(n as int),
{
    if n >= 0 {
        push_u64_padded(out, n as u64, 2, '0');
    } else {
        push_i64(out, n);
    }
}

fn month_name_of(m: i64) -> (r: &'static str)
    ensures
        r@ == month_name(m as int),
{
    if m == 1 { "Jan" } else if m == 2 { "Feb" } else if m == 3 { "Mar" } else if m == 4 { "Apr" }
    else if m == 5 { "May" } else if m == 6 { "Jun" } else if m == 7 { "Jul" } else if m == 8 { "Aug" }
    else if m == 9 { "Sep" } else if m == 10 { "Oct" } else if m == 11 { "Nov" } else if m == 12 { "Dec" }
    else { "???" }
}

/// `Mon DD HH:MM` for a time in seconds since the epoch.
pub fn timestamp_to_datetime(ts: u64) -> (r: String)
    ensures
        r@ == timestamp_text(ts),
{
    let (days, hour, minute): (i64, i64, i64) = if ts <= 0x7fff_ffff_ffff_ffff {
        let tod = ts % 86400;
        ((ts / 86400) as i64, (tod / 3600) as i64, ((tod % 3600) / 60) as i64)
    } else {
        let neg: u64 = u64::MAX - ts + 1;
        let tod = neg % 86400;
        (-((neg / 86400) as i64), -((tod / 3600) as i64), -(((tod % 3600) / 60) as i64))
    };
    proof {
        let secs = signed_secs(ts);
        assert(days as int == tdiv(secs, 86400));
        assert(hour as int == tdiv(trem(secs, 86400), 3600)) by (nonlinear_arith)
            requires
                secs == signed_secs(ts),
                ts <= 0x7fff_ffff_ffff_ffff ==> secs == ts as int && hour as int == (ts as int % 86400) / 3600,
                ts > 0x7fff_ffff_ffff_ffff ==> secs == ts as int - 0x1_0000_0000_0000_0000int
                    && hour as int == -(((0x1_0000_0000_0000_0000int - ts as int) % 86400) / 3600),
        {
            if ts > 0x7fff_ffff_ffff_ffff {
                let n = 0x1_0000_0000_0000_0000int - ts as int;
                assert(tdiv(secs, 86400) == -(n / 86400));
                assert(trem(secs, 86400) == -(n % 86400));
                assert(n % 86400 >= 0);
                if n % 86400 > 0 {
                    assert(tdiv(-(n % 86400), 3600) == -((n % 86400) / 3600));
                }
            }
        }
        assert(minute as int == tdiv(trem(trem(secs, 86400), 3600), 60)) by (nonlinear_arith)
            requires
                secs == signed_secs(ts),
                ts <= 0x7fff_ffff_ffff_ffff ==> secs == ts as int && minute as int == ((ts as int % 86400) % 3600) / 60,
                ts > 0x7fff_ffff_ffff_ffff ==> secs == ts as int - 0x1_0000_0000_0000_0000int
                    && minute as int == -((((0x1_0000_0000_0000_0000int - ts as int) % 86400) % 3600) / 60),
        {
            if ts > 0x7fff_ffff_ffff_ffff {
                let n = 0x1_0000_0000_0000_0000int - ts as int;
                assert(trem(secs, 86400) == -(n % 86400));
                let t = n % 86400;
                assert(t >= 0);
                if t > 0 {
                    assert(trem(-t, 3600) == -(t % 3600));
                    if t % 3600 > 0 {
                        assert(tdiv(-(t % 3600), 60) == -((t % 3600) / 60));
                    }
                }
            }
        }
    }
    let (_y, m, d) = days_to_ymd(days);
    let mut out: Vec<char> = Vec::new();
    push_str(&mut out, month_name_of(m));
    out.push(' ');
    let mut dd: Vec<char> = Vec::new();
    push_i64(&mut dd, d);
    push_padded_left(&mut out, dd.as_slice(), 2, ' ');
    out.push(' ');
    push_two_digits(&mut out, hour);
    out.push(':');
    push_two_digits(&mut out, minute);
    assert(out@ =~= timestamp_text(ts));
    string_of(out.as_slice())
}

/// How `ls -l` shows a modification time.
pub fn format_timestamp(ts: u64) -> (r: String)
    ensures
        r@ == format_timestamp_spec(ts),
{
    proof {
        reveal(format_timestamp_spec);
    }
    if ts == 0 {
        to_owned_string("Jan  1 00:00")
    } else {
        timestamp_to_datetime(ts)
    }
}


// ---------------------------------------------------------------------------
// Listing
// ---------------------------------------------------------------------------

/// Whether `-l` was given and the first other argument, from `args[i..]`.
pub open spec fn ls_args(args: Seq<Seq<char>>, i: int, long: bool, path: Option<Seq<char>>) -> (bool, Option<Seq<char>>)
    decreases args.len() - i,
{
    if i < 0 || i >= args.len() {
        (long, path)
    } else if args[i] == "-l"@ {
        ls_args(args, i + 1, true, path)
    } else if path is None {
        ls_args(args, i + 1, long, Some(args[i]))
    } else {
        ls_args(args, i + 1, long, path)
    }
}

/// The name shown for the owner `uid`.
pub open spec fn owner_text(db: DbView, uid: u32) -> Seq<char> {
    match user_with_uid(db.0, uid) {
        Some(u) => u.0,
        None => "unknown"@,
    }
}

/// The name shown for the group `gid`.
pub open spec fn group_text(db: DbView, gid: u32) -> Seq<char> {
    match group_with_gid(db.1, gid) {
        Some(g) => g.0,
        None => "unknown"@,
    }
}

/// One line of the long format.
#[verifier::opaque]
pub open spec fn long_line(db: DbView, meta: Meta, is_dir: bool, size: nat, name: Seq<char>) -> Seq<char> {
    mode_string(meta.mode, is_dir) + "  1 "@ + pad_right(owner_text(db, meta.uid), 8) + seq![' ']
        + pad_right(group_text(db, meta.gid), 8) + seq![' '] + pad_left(nat_str(size), 8, ' ') + seq![' ']
        + format_timestamp_spec(meta.mtime) + seq![' '] + name + seq!['\n']
}

/// A name with `/` after it for a directory.
pub open spec fn marked(name: Seq<char>, is_dir: bool) -> Seq<char> {
    if is_dir {
        name + seq!['/']
    } else {
        name
    }
}

/// The size shown for the node at `c`: a directory's number of entries,
/// a file's length.
pub open spec fn shown_size(fs: FsView, c: Seq<char>) -> nat {
    if fs[c].0 {
        children(fs, c).len()
    } else {
        byte_len(fs[c].1)
    }
}

/// The long-format lines for the children `ns[..n]` of `dir`.
pub open spec fn long_lines(fs: FsView, db: DbView, dir: Seq<char>, ns: Seq<Seq<char>>, n: nat) -> Seq<char>
    decreases n,
{
    if n == 0 {
        Seq::empty()
    } else {
        let c = child_of(dir, ns[n - 1]);
        long_lines(fs, db, dir, ns, (n - 1) as nat) + long_line(db, fs[c].2, fs[c].0, shown_size(fs, c), marked(ns[n - 1], fs[c].0))
    }
}

/// The result of `ls` on the given arguments with the user database `db`.
pub open spec fn ls_spec(vfs: &Vfs, args: Seq<Seq<char>>, db: DbView) -> Result<Seq<char>, Seq<char>> {
    let (long, p) = ls_args(args, 0, false, None);
    let path = match p {
        Some(x) => x,
        None => "."@,
    };
    let fs = vfs@;
    let k = vfs.key(path);
    if !fs.dom().contains(k) {
        Err("ls: cannot access '"@ + path + "': No such file or directory"@)
    } else if !fs[k].0 {
        if long {
            Ok(long_line(db, fs[k].2, false, byte_len(fs[k].1), name_of(k)))
        } else {
            Ok(name_of(k) + seq!['\n'])
        }
    } else {
        let ns = children(fs, k);
        if long {
            Ok(long_lines(fs, db, k, ns, ns.len()))
        } else if ns.len() == 0 {
            Ok(seq!['\n'])
        } else {
            Ok(join(Seq::new(ns.len(), |i: int| marked(ns[i], fs[child_of(k, ns[i])].0)), "  "@) + seq!['\n'])
        }
    }
}

/// Append the owner and group columns.
fn push_owner_cols(out: &mut Vec<char>, db: &UserDatabase, meta: Meta)
    ensures
        final(out)@ == old(out)@ + pad_right(owner_text(db@, meta.uid), 8) + seq![' '] + pad_right(group_text(db@, meta.gid), 8) + seq![' '],
{
    let owner = match db.name_of_uid(meta.uid) {
        Some(n) => n,
        None => to_owned_string("unknown"),
    };
    assert(owner@ == owner_text(db@, meta.uid));
    let oc = chars_of(owner.as_str());
    push_padded_right(out, oc.as_slice(), 8);
    out.push(' ');
    let group = match db.name_of_gid(meta.gid) {
        Some(n) => n,
        None => to_owned_string("unknown"),
    };
    assert(group@ == group_text(db@, meta.gid));
    let gc = chars_of(group.as_str());
    push_padded_right(out, gc.as_slice(), 8);
    out.push(' ');
    assert(out@ =~= old(out)@ + pad_right(owner_text(db@, meta.uid), 8) + seq![' '] + pad_right(group_text(db@, meta.gid), 8) + seq![' ']);
}

/// Append one long-format line.
#[verifier::rlimit(30)]
fn push_long_line(out: &mut Vec<char>, db: &UserDatabase, meta: Meta, is_dir: bool, size: usize, name: &[char])
    ensures
        final(out)@ == old(out)@ + long_line(db@, meta, is_dir, size as nat, name@),
{
    let m = format_mode(meta.mode, is_dir);
    let mut a = chars_of(m.as_str());
    push_str(&mut a, "  1 ");
    let mut b: Vec<char> = Vec::new();
    push_owner_cols(&mut b, db, meta);
    let mut c: Vec<char> = Vec::new();
    push_u64_padded(&mut c, size as u64, 8, ' ');
    c.push(' ');
    let t = format_timestamp(meta.mtime);
    let mut d = chars_of(t.as_str());
    d.push(' ');
    push_all(&mut d, name);
    d.push('\n');
    push_all(out, a.as_slice());
    push_all(out, b.as_slice());
    push_all(out, c.as_slice());
    push_all(out, d.as_slice());
    let ghost pa = mode_string(meta.mode, is_dir) + "  1 "@;
    let ghost pb = pad_right(owner_text(db@, meta.uid), 8) + seq![' '] + pad_right(group_text(db@, meta.gid), 8) + seq![' '];
    let ghost pc = pad_left(nat_str(size as nat), 8, ' ') + seq![' '];
    let ghost pd = format_timestamp_spec(meta.mtime) + seq![' '] + name@ + seq!['\n'];
    assert(a@ == pa);
    assert(b@ =~= pb);
    assert(c@ =~= pc);
    assert(d@ =~= pd);
    assert(out@ =~= old(out)@ + (pa + pb + pc + pd));
    assert(pa + pb + pc + pd == long_line(db@, meta, is_dir, size as nat, name@)) by {
        reveal(long_line);
        assert(pa + pb + pc + pd =~= long_line(db@, meta, is_dir, size as nat, name@));
    }
}

/// The long-format lines for a directory listing.
fn long_listing(vfs: &Vfs, k: &String, entries: &Vec<DirEntry>, db: &UserDatabase) -> (r: Vec<char>)
    requires
        names_of(entries@) == children(vfs@, k@),
        listing(vfs@, k@, entries@),
        forall|q: Seq<char>| #[trigger] vfs@.dom().contains(q) ==> is_normal(q),
    ensures
        r@ == long_lines(vfs@, db@, k@, children(vfs@, k@), children(vfs@, k@).len()),
{
    let ghost ns = children(vfs@, k@);
    let mut out: Vec<char> = Vec::new();
    let mut j: usize = 0;
    while j < entries.len()
        invariant
            j <= entries@.len(),
            names_of(entries@) == ns,
            ns == children(vfs@, k@),
            listing(vfs@, k@, entries@),
            forall|q: Seq<char>| #[trigger] vfs@.dom().contains(q) ==> is_normal(q),
            out@ == long_lines(vfs@, db@, k@, ns, j as nat),
        decreases entries.len() - j,
    {
        let e = &entries[j];
        assert(names_of(entries@)[j as int] == e.name@);
        assert(ns.contains(e.name@));
        assert(is_child(vfs@, k@, e.name@));
        assert(entry_matches(vfs@, k@, entries@[j as int]));
        let child = Vfs::child_path(k.as_str(), e.name.as_str());
        assert(vfs@.dom().contains(child@));
        proof {
            crate::path::lemma_normal_fixed(vfs.cwd@, child@);
        }
        let size: usize = if e.is_dir {
            match vfs.list_dir(child.as_str()) {
                Ok(cs) => {
                    assert(names_of(cs@).len() == cs@.len());
                    cs.len()
                },
                Err(_) => 0,
            }
        } else {
            e.size
        };
        let mut name = chars_of(e.name.as_str());
        if e.is_dir {
            name.push('/');
        }
        assert(name@ == marked(ns[j as int], vfs@[child@].0));
        push_long_line(&mut out, db, e.meta, e.is_dir, size, name.as_slice());
        j += 1;
    }
    out
}

/// Execute `ls` with the user database `db`.
pub fn execute(vfs: &Vfs, args: &[&str], db: &UserDatabase) -> (r: Result<String, String>)
    ensures
        rv(r) == ls_spec(vfs, strs_view(args@), db@),
{
    let ghost av = strs_view(args@);
    let mut long = false;
    let mut path: Option<&str> = None;
    let mut i: usize = 0;
    while i < args.len()
        invariant
            i <= args@.len(),
            av == strs_view(args@),
            ls_args(av, 0, false, None) == ls_args(av, i as int, long, match path { Some(p) => Some(p@), None => None }),
        decreases args.len() - i,
    {
        assert(av[i as int] == args@[i as int]@);
        if str_eq(args[i], "-l") {
            long = true;
        } else if path.is_none() {
            path = Some(args[i]);
        }
        i += 1;
    }
    let p: &str = match path {
        Some(x) => x,
        None => ".",
    };
    assert(ls_args(av, 0, false, None) == (long, match path { Some(x) => Some(x@), None => None::<Seq<char>> }));
    vfs.invariants();
    if !vfs.exists_path(p) {
        let mut m: Vec<char> = Vec::new();
        push_str(&mut m, "ls: cannot access '");
        push_str(&mut m, p);
        push_str(&mut m, "': No such file or directory");
        return Err(string_of(m.as_slice()));
    }
    let k = vfs.resolve_path(p).unwrap();
    let kc = chars_of(k.as_str());
    proof {
        crate::path::lemma_resolve_is_normal(vfs.cwd@, p@);
        crate::path::lemma_normal_fixed(vfs.cwd@, k@);
    }
    if !vfs.is_dir(p) {
        let (_, name) = crate::path::split_parent(kc.as_slice());
        let mut out: Vec<char> = Vec::new();
        if long {
            let meta = vfs.get_meta(p).unwrap();
            let size = match vfs.file_size(p) {
                Ok(n) => n,
                Err(_) => 0,
            };
            push_long_line(&mut out, db, meta, false, size, name.as_slice());
        } else {
            push_all(&mut out, name.as_slice());
            out.push('\n');
            assert(out@ =~= name@ + seq!['\n']);
        }
        return Ok(string_of(out.as_slice()));
    }
    let entries = vfs.list_dir(p).unwrap();
    let ghost ns = children(vfs@, k@);
    assert(names_of(entries@) == ns);
    if long {
        return Ok(string_of(long_listing(vfs, &k, &entries, db).as_slice()));
    }
    if entries.len() == 0 {
        let mut nl: Vec<char> = Vec::new();
        nl.push('\n');
        assert(nl@ =~= seq!['\n']);
        return Ok(string_of(nl.as_slice()));
    }
    let mut shown: Vec<Vec<char>> = Vec::new();
    let mut j: usize = 0;
    while j < entries.len()
        invariant
            j <= entries@.len(),
            names_of(entries@) == ns,
            ns == children(vfs@, k@),
            listing(vfs@, k@, entries@),
            shown@.len() == j,
            forall|q: int| 0 <= q < j ==> (#[trigger] shown@[q])@ == marked(ns[q], vfs@[child_of(k@, ns[q])].0),
            forall|q: Seq<char>| #[trigger] vfs@.dom().contains(q) ==> is_normal(q),
        decreases entries.len() - j,
    {
        let e = &entries[j];
        assert(names_of(entries@)[j as int] == e.name@);
        assert(entry_matches(vfs@, k@, entries@[j as int]));
        let mut name = chars_of(e.name.as_str());
        if e.is_dir {
            name.push('/');
        }
        shown.push(name);
        j += 1;
    }
    let mut sep: Vec<char> = Vec::new();
    push_str(&mut sep, "  ");
    let mut line = join_chars(&shown, sep.as_slice());
    line.push('\n');
    assert(vv(shown@) =~= Seq::new(ns.len(), |q: int| marked(ns[q], vfs@[child_of(k@, ns[q])].0)));
    assert(line@ =~= ls_spec(vfs, av, db@)->Ok_0);
    Ok(string_of(line.as_slice()))
}

/// The `ls` command.
pub struct LsCommand;

impl Command for LsCommand {
    fn name(&self) -> (r: &'static str)
        ensures
            r@ == "ls"@,
    {
        "ls"
    }

    fn description(&self) -> (r: &'static str)
        ensures
            r@ == "List directory contents (-l for long format)"@,
    {
        "List directory contents (-l for long format)"
    }

    fn accepts_stdin(&self) -> (r: bool)
        ensures
            !r,
    {
        false
    }

    fn execute(&self, ctx: &mut CommandContext) -> (r: Result<String, String>)
        ensures
            meets(outcome(CommandKind::Ls, state_of(old(ctx))), r, final(ctx)),
    {
        proof {
            lemma_vfs_of(ctx);
        }
        let db = UserDatabase::from_vfs(ctx.vfs);
        execute(ctx.vfs, ctx.args, &db)
    }

    fn synopsis(&self) -> (r: &'static str)
        ensures
            r@ == "ls [-l] [path]"@,
    {
        "ls [-l] [path]"
    }

    fn man_description(&self) -> (r: &'static str)
        ensures
            r@ == "List the contents of a directory. If no path is given, the current working directory is used. \
The -l flag enables long format output showing permissions, owner, group, size, and modification time."@,
    {
        "List the contents of a directory. If no path is given, the current working directory is used. \
The -l flag enables long format output showing permissions, owner, group, size, and modification time."
    }

    fn examples(&self) -> (r: &'static [&'static str])
        ensures
            strs_view(r@) == seq!["ls"@, "ls -l /home"@, "ls -l .."@],
    {
        let r: &'static [&'static str] = &["ls", "ls -l /home", "ls -l .."];
        assert(r@ == seq!["ls", "ls -l /home", "ls -l .."]);
        r
    }
}

} // verus!
