//! Unix-style permission checks and mode-string handling: access checks
//! against owner/group/other bits, the sticky-directory deletion rule,
//! octal and symbolic `chmod` modes, and `ls -l` mode strings.
use vstd::prelude::*;
use crate::vfs::Meta;
use crate::text::{push_str, string_of, chars_of, push_all};

verus! {

/// The kind of access being requested.
#[derive(Clone, Copy, Debug, PartialEq, Eq, Structural)]
pub enum AccessMode {
    /// Reading contents.
    Read,
    /// Modifying contents or directory entries.
    Write,
    /// Executing a file or entering a directory.
    Execute,
}

/// The owner's permission bit for an access mode.
pub open spec fn owner_bit(a: AccessMode) -> u32 {
    match a {
        AccessMode::Read => 0o400,
        AccessMode::Write => 0o200,
        AccessMode::Execute => 0o100,
    }
}

/// The bit that decides access for `uid:gid`: the owner bit for the owner,
/// the group bit for a group member, the other bit otherwise.
pub open spec fn deciding_bit(meta: Meta, a: AccessMode, uid: u32, gid: u32) -> u32 {
    if uid == meta.uid {
        owner_bit(a)
    } else if gid == meta.gid {
        owner_bit(a) / 8
    } else {
        owner_bit(a) / 64
    }
}

/// Root may do anything; everyone else needs the deciding bit set.
pub open spec fn access_allowed(meta: Meta, a: AccessMode, uid: u32, gid: u32) -> bool {
    uid == 0 || meta.mode & deciding_bit(meta, a, uid, gid) != 0
}

/// Check that `uid:gid` may access a node with metadata `meta`.
pub fn check_access(meta: &Meta, mode: AccessMode, uid: u32, gid: u32) -> (r: Result<(), String>)
    ensures
        r is Ok <==> access_allowed(*meta, mode, uid, gid),
        r is Err ==> r->Err_0@ == "Permission denied"@,
{
    if uid == 0 {
        return Ok(());
    }
    let owner: u32 = match mode {
        AccessMode::Read => 0o400,
        AccessMode::Write => 0o200,
        AccessMode::Execute => 0o100,
    };
    let bit: u32 = if uid == meta.uid {
        owner
    } else if gid == meta.gid {
        owner / 8
    } else {
        owner / 64
    };
    if meta.mode & bit != 0 {
        Ok(())
    } else {
        Err(crate::text::to_owned_string("Permission denied"))
    }
}

/// In a sticky directory only root, the file's owner or the directory's
/// owner may delete an entry.
pub open spec fn sticky_delete_allowed(dir: Meta, file: Meta, uid: u32) -> bool {
    dir.mode & 0o1000 == 0 || uid == 0 || uid == file.uid || uid == dir.uid
}

/// Check the sticky-directory rule for deleting `file` from `dir`.
pub fn check_delete_in_sticky(dir: &Meta, file: &Meta, uid: u32) -> (r: Result<(), String>)
    ensures
        r is Ok <==> sticky_delete_allowed(*dir, *file, uid),
        r is Err ==> r->Err_0@ == "Operation not permitted"@,
{
    if dir.mode & 0o1000 == 0 || uid == 0 || uid == file.uid || uid == dir.uid {
        Ok(())
    } else {
        Err(crate::text::to_owned_string("Operation not permitted"))
    }
}

/// An octal digit `0`..`7`.
pub open spec fn is_octal_digit(c: char) -> bool {
    '0' <= c && c <= '7'
}

/// The value of a string of octal digits.
pub open spec fn octal_val(s: Seq<char>) -> nat
    decreases s.len(),
{
    if s.len() == 0 {
        0
    } else {
        octal_val(s.drop_last()) * 8 + ((s.last() as int - '0' as int) as nat)
    }
}

/// A well-formed octal mode: three or four octal digits.
pub open spec fn valid_octal(s: Seq<char>) -> bool {
    (s.len() == 3 || s.len() == 4) && forall|i: int| 0 <= i < s.len() ==> is_octal_digit(#[trigger] s[i])
}

/// The message for a mode string that cannot be used.
pub open spec fn invalid_mode(s: Seq<char>) -> Seq<char> {
    "invalid mode: '"@ + s + "'"@
}

fn invalid_mode_msg(s: &str) -> (r: String)
    ensures
        r@ == invalid_mode(s@),
{
    let mut v: Vec<char> = Vec::new();
    push_str(&mut v, "invalid mode: '");
    push_str(&mut v, s);
    push_str(&mut v, "'");
    string_of(v.as_slice())
}

/// Parse an octal mode such as `755` or `0644`.
pub fn parse_octal_mode(s: &str) -> (r: Result<u32, String>)
    ensures
        valid_octal(s@) ==> r == Ok::<u32, String>(octal_val(s@) as u32),
        !valid_octal(s@) ==> r is Err && r->Err_0@ == invalid_mode(s@),
{
    let cs = chars_of(s);
    if cs.len() != 3 && cs.len() != 4 {
        return Err(invalid_mode_msg(s));
    }
    let mut v: u32 = 0;
    let mut i: usize = 0;
    while i < cs.len()
        invariant
            cs@ == s@,
            cs@.len() == 3 || cs@.len() == 4,
            i <= cs@.len(),
            forall|j: int| 0 <= j < i ==> is_octal_digit(#[trigger] cs@[j]),
            v == octal_val(cs@.take(i as int)),
            v < pow8(i as nat),
            i <= 4,
        decreases cs.len() - i,
    {
        let c = cs[i];
        if !('0' <= c && c <= '7') {
            return Err(invalid_mode_msg(s));
        }
        assert(cs@.take(i + 1).drop_last() == cs@.take(i as int));
        let d: u32 = (c as u32) - ('0' as u32);
        assert(v * 8 + d < pow8((i + 1) as nat)) by (nonlinear_arith)
            requires
                v < pow8(i as nat),
                d < 8,
                pow8((i + 1) as nat) == pow8(i as nat) * 8,
        ;
        assert(pow8(1) == 8 && pow8(2) == 64 && pow8(3) == 512 && pow8(4) == 4096) by {
            reveal_with_fuel(pow8, 5);
        }
        assert(v * 8 + d < 4096);
        v = v * 8 + d;
        i += 1;
    }
    assert(cs@.take(cs@.len() as int) == cs@);
    Ok(v)
}

/// Powers of eight.
pub open spec fn pow8(n: nat) -> nat
    decreases n,
{
    if n == 0 {
        1
    } else {
        pow8((n - 1) as nat) * 8
    }
}

/// The bits a class letter (`u`, `g`, `o`, `a`) selects; 0 for other letters.
pub open spec fn class_mask(c: char) -> u32 {
    if c == 'u' {
        0o700
    } else if c == 'g' {
        0o070
    } else if c == 'o' {
        0o007
    } else if c == 'a' {
        0o777
    } else {
        0
    }
}

/// The bits a permission letter (`r`, `w`, `x`) selects in every class.
pub open spec fn perm_mask(c: char) -> u32 {
    if c == 'r' {
        0o444
    } else if c == 'w' {
        0o222
    } else if c == 'x' {
        0o111
    } else {
        0
    }
}

/// The classes selected by the leading class letters (all when none).
pub open spec fn who_mask(s: Seq<char>) -> u32
    decreases s.len(),
{
    if s.len() == 0 {
        0
    } else {
        who_mask(s.drop_last()) | class_mask(s.last())
    }
}

/// The permissions selected by the trailing permission letters.
pub open spec fn perms_mask(s: Seq<char>) -> u32
    decreases s.len(),
{
    if s.len() == 0 {
        0
    } else {
        perms_mask(s.drop_last()) | perm_mask(s.last())
    }
}

/// A class letter.
pub open spec fn is_class(c: char) -> bool {
    c == 'u' || c == 'g' || c == 'o' || c == 'a'
}

/// A permission letter.
pub open spec fn is_perm(c: char) -> bool {
    c == 'r' || c == 'w' || c == 'x'
}

/// An operator of a symbolic mode.
pub open spec fn is_op(c: char) -> bool {
    c == '+' || c == '-' || c == '='
}

/// Number of leading class letters.
pub open spec fn class_prefix_len(s: Seq<char>) -> nat
    decreases s.len(),
{
    if s.len() > 0 && is_class(s[0]) {
        1 + class_prefix_len(s.drop_first())
    } else {
        0
    }
}

/// A symbolic mode `[ugoa]*[+-=][rwx]+`.
pub open spec fn valid_symbolic(s: Seq<char>) -> bool {
    let k = class_prefix_len(s) as int;
    &&& k < s.len()
    &&& is_op(s[k])
    &&& s.len() > k + 1
    &&& forall|i: int| k + 1 <= i < s.len() ==> is_perm(#[trigger] s[i])
}

/// The mode after applying a valid symbolic mode to `mode`: `+` sets,
/// `-` clears and `=` replaces the selected permissions of the selected
/// classes (all classes when none is named).
pub open spec fn symbolic_result(mode: u32, s: Seq<char>) -> u32 {
    let k = class_prefix_len(s) as int;
    let who = if k == 0 {
        0o777u32
    } else {
        who_mask(s.take(k))
    };
    let bits = perms_mask(s.skip(k + 1)) & who;
    if s[k] == '+' {
        mode | bits
    } else if s[k] == '-' {
        mode & !bits
    } else {
        (mode & !who) | bits
    }
}

proof fn lemma_class_prefix(s: Seq<char>, k: nat)
    requires
        k <= s.len(),
        forall|i: int| 0 <= i < k ==> is_class(#[trigger] s[i]),
        k < s.len() ==> !is_class(s[k as int]),
    ensures
        class_prefix_len(s) == k,
    decreases s.len(),
{
    if k > 0 {
        assert(is_class(s[0]));
        assert forall|i: int| 0 <= i < k - 1 implies is_class(#[trigger] s.drop_first()[i]) by {
            assert(is_class(s[i + 1]));
        }
        if k < s.len() {
            assert(s.drop_first()[k - 1] == s[k as int]);
        }
        lemma_class_prefix(s.drop_first(), (k - 1) as nat);
    }
}

/// Apply a symbolic mode such as `+x`, `u+r`, `go-w` or `a=rx` to `mode`.
pub fn apply_symbolic_mode(mode: u32, s: &str) -> (r: Result<u32, String>)
    ensures
        valid_symbolic(s@) ==> r == Ok::<u32, String>(symbolic_result(mode, s@)),
        !valid_symbolic(s@) ==> r is Err && r->Err_0@ == invalid_mode(s@),
{
    let cs = chars_of(s);
    let mut k: usize = 0;
    let mut who: u32 = 0;
    while k < cs.len() && (cs[k] == 'u' || cs[k] == 'g' || cs[k] == 'o' || cs[k] == 'a')
        invariant
            cs@ == s@,
            k <= cs@.len(),
            forall|i: int| 0 <= i < k ==> is_class(#[trigger] cs@[i]),
            who == who_mask(cs@.take(k as int)),
        decreases cs.len() - k,
    {
        assert(cs@.take(k + 1).drop_last() == cs@.take(k as int));
        let c = cs[k];
        let m: u32 = if c == 'u' {
            0o700
        } else if c == 'g' {
            0o070
        } else if c == 'o' {
            0o007
        } else {
            0o777
        };
        who = who | m;
        k += 1;
    }
    proof {
        lemma_class_prefix(cs@, k as nat);
    }
    if k >= cs.len() || !(cs[k] == '+' || cs[k] == '-' || cs[k] == '=') || cs.len() <= k + 1 {
        return Err(invalid_mode_msg(s));
    }
    let op = cs[k];
    if k == 0 {
        who = 0o777;
    }
    let mut perms: u32 = 0;
    let mut i: usize = k + 1;
    let ghost tail = cs@.skip(k + 1);
    while i < cs.len()
        invariant
            cs@ == s@,
            k + 1 <= i <= cs@.len(),
            tail == cs@.skip(k + 1),
            class_prefix_len(cs@) == k,
            forall|j: int| k + 1 <= j < i ==> is_perm(#[trigger] cs@[j]),
            perms == perms_mask(tail.take(i - (k + 1))),
        decreases cs.len() - i,
    {
        let c = cs[i];
        if !(c == 'r' || c == 'w' || c == 'x') {
            return Err(invalid_mode_msg(s));
        }
        assert(tail.take(i - k).drop_last() == tail.take(i - (k + 1)));
        assert(tail[i - (k + 1)] == c);
        let m: u32 = if c == 'r' {
            0o444
        } else if c == 'w' {
            0o222
        } else {
            0o111
        };
        perms = perms | m;
        i += 1;
    }
    assert(tail.take(cs@.len() - (k + 1)) == tail);
    let bits = perms & who;
    if op == '+' {
        Ok(mode | bits)
    } else if op == '-' {
        Ok(mode & !bits)
    } else {
        Ok((mode & !who) | bits)
    }
}

/// The character shown for one permission bit.
pub open spec fn bit_char(mode: u32, bit: u32, c: char) -> char {
    if mode & bit != 0 {
        c
    } else {
        '-'
    }
}

/// The ten-character mode string of `ls -l`: the type (`d` or `-`) then
/// `rwx` triples for owner, group and other; a sticky directory shows `t`
/// (or `T` without execute) in the last place.
pub open spec fn mode_string(mode: u32, is_dir: bool) -> Seq<char> {
    let last = if mode & 0o1000 != 0 {
        if mode & 0o001 != 0 {
            't'
        } else {
            'T'
        }
    } else {
        bit_char(mode, 0o001, 'x')
    };
    seq![
        if is_dir {
            'd'
        } else {
            '-'
        },
        bit_char(mode, 0o400, 'r'),
        bit_char(mode, 0o200, 'w'),
        bit_char(mode, 0o100, 'x'),
        bit_char(mode, 0o040, 'r'),
        bit_char(mode, 0o020, 'w'),
        bit_char(mode, 0o010, 'x'),
        bit_char(mode, 0o004, 'r'),
        bit_char(mode, 0o002, 'w'),
        last,
    ]
}

fn bit_char_exec(mode: u32, bit: u32, c: char) -> (r: char)
    ensures
        r == bit_char(mode, bit, c),
{
    if mode & bit != 0 {
        c
    } else {
        '-'
    }
}

/// Format a mode as `ls -l` shows it.
pub fn format_mode(mode: u32, is_dir: bool) -> (r: String)
    ensures
        r@ == mode_string(mode, is_dir),
{
    let mut v: Vec<char> = Vec::new();
    v.push(if is_dir { 'd' } else { '-' });
    v.push(bit_char_exec(mode, 0o400, 'r'));
    v.push(bit_char_exec(mode, 0o200, 'w'));
    v.push(bit_char_exec(mode, 0o100, 'x'));
    v.push(bit_char_exec(mode, 0o040, 'r'));
    v.push(bit_char_exec(mode, 0o020, 'w'));
    v.push(bit_char_exec(mode, 0o010, 'x'));
    v.push(bit_char_exec(mode, 0o004, 'r'));
    v.push(bit_char_exec(mode, 0o002, 'w'));
    let last = if mode & 0o1000 != 0 {
        if mode & 0o001 != 0 {
            't'
        } else {
            'T'
        }
    } else {
        bit_char_exec(mode, 0o001, 'x')
    };
    v.push(last);
    assert(v@ =~= mode_string(mode, is_dir));
    string_of(v.as_slice())
}


/// Root may read, write and execute anything.
pub proof fn law_root_may_access(meta: Meta, a: AccessMode, gid: u32)
    ensures
        access_allowed(meta, a, 0, gid),
{
}

} // verus!
