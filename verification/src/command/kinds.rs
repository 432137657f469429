//! The table of commands: each one's name and manual text, and what it
//! does in a context.
use vstd::prelude::*;
use crate::text::{strs_view, uppercase};
use crate::path::{home_dir, resolve};
use crate::env::pair_lines;
use crate::order::sorted_set;
use crate::users::db_of;
use crate::command::{Command, CommandContext, CtxState, Outcome, state_of, vfs_of, unchanged, with_fs, meets};
use crate::command::{basename, cat, cd, chmod, chown, clear, comm, cp, cut, date, diff, dirname, du, echo, env, exit, export, find, grep, groupadd, groups, head, help, history, hostname, id, ln, ls, man, mkdir, mv, nl, passwd, paste, pwd, rev, rm, sort, sudo, tac, tail, tee, touch, tr, tree, uniq, useradd, wc, whoami, yes};

verus! {

/// A registered command.
#[derive(Clone, Copy, Debug, PartialEq, Eq, Structural)]
pub enum CommandKind {
    /// `ls`.
    Ls,
    /// `cd`.
    Cd,
    /// `pwd`.
    Pwd,
    /// `mkdir`.
    Mkdir,
    /// `touch`.
    Touch,
    /// `rm`.
    Rm,
    /// `cp`.
    Cp,
    /// `mv`.
    Mv,
    /// `tree`.
    Tree,
    /// `ln`.
    Ln,
    /// `cat`.
    Cat,
    /// `echo`.
    Echo,
    /// `head`.
    Head,
    /// `tail`.
    Tail,
    /// `grep`.
    Grep,
    /// `sort`.
    Sort,
    /// `uniq`.
    Uniq,
    /// `wc`.
    Wc,
    /// `cut`.
    Cut,
    /// `tr`.
    Tr,
    /// `tee`.
    Tee,
    /// `diff`.
    Diff,
    /// `find`.
    Find,
    /// `du`.
    Du,
    /// `chmod`.
    Chmod,
    /// `chown`.
    Chown,
    /// `whoami`.
    Whoami,
    /// `hostname`.
    Hostname,
    /// `date`.
    Date,
    /// `history`.
    History,
    /// `env`.
    Env,
    /// `export`.
    Export,
    /// `basename`.
    Basename,
    /// `dirname`.
    Dirname,
    /// `man`.
    Man,
    /// `clear`.
    Clear,
    /// `help`.
    Help,
    /// `exit`.
    Exit,
    /// `comm`.
    Comm,
    /// `nl`.
    Nl,
    /// `paste`.
    Paste,
    /// `rev`.
    Rev,
    /// `tac`.
    Tac,
    /// `yes`.
    Yes,
    /// `groups`.
    Groups,
    /// `id`.
    Id,
    /// `groupadd`.
    Groupadd,
    /// `useradd`.
    Useradd,
    /// `adduser`.
    Adduser,
    /// `passwd`.
    Passwd,
    /// `sudo`.
    Sudo,
}

/// The name of a command.
pub open spec fn kind_name(k: CommandKind) -> Seq<char> {
    match k {
        CommandKind::Ls => "ls"@,
        CommandKind::Cd => "cd"@,
        CommandKind::Pwd => "pwd"@,
        CommandKind::Mkdir => "mkdir"@,
        CommandKind::Touch => "touch"@,
        CommandKind::Rm => "rm"@,
        CommandKind::Cp => "cp"@,
        CommandKind::Mv => "mv"@,
        CommandKind::Tree => "tree"@,
        CommandKind::Ln => "ln"@,
        CommandKind::Cat => "cat"@,
        CommandKind::Echo => "echo"@,
        CommandKind::Head => "head"@,
        CommandKind::Tail => "tail"@,
        CommandKind::Grep => "grep"@,
        CommandKind::Sort => "sort"@,
        CommandKind::Uniq => "uniq"@,
        CommandKind::Wc => "wc"@,
        CommandKind::Cut => "cut"@,
        CommandKind::Tr => "tr"@,
        CommandKind::Tee => "tee"@,
        CommandKind::Diff => "diff"@,
        CommandKind::Find => "find"@,
        CommandKind::Du => "du"@,
        CommandKind::Chmod => "chmod"@,
        CommandKind::Chown => "chown"@,
        CommandKind::Whoami => "whoami"@,
        CommandKind::Hostname => "hostname"@,
        CommandKind::Date => "date"@,
        CommandKind::History => "history"@,
        CommandKind::Env => "env"@,
        CommandKind::Export => "export"@,
        CommandKind::Basename => "basename"@,
        CommandKind::Dirname => "dirname"@,
        CommandKind::Man => "man"@,
        CommandKind::Clear => "clear"@,
        CommandKind::Help => "help"@,
        CommandKind::Exit => "exit"@,
        CommandKind::Comm => "comm"@,
        CommandKind::Nl => "nl"@,
        CommandKind::Paste => "paste"@,
        CommandKind::Rev => "rev"@,
        CommandKind::Tac => "tac"@,
        CommandKind::Yes => "yes"@,
        CommandKind::Groups => "groups"@,
        CommandKind::Id => "id"@,
        CommandKind::Groupadd => "groupadd"@,
        CommandKind::Useradd => "useradd"@,
        CommandKind::Adduser => "adduser"@,
        CommandKind::Passwd => "passwd"@,
        CommandKind::Sudo => "sudo"@,
    }
}

/// The `help` line of a command.
pub open spec fn kind_description(k: CommandKind) -> Seq<char> {
    match k {
        CommandKind::Ls => "List directory contents (-l for long format)"@,
        CommandKind::Cd => "Change the current directory"@,
        CommandKind::Pwd => "Print the current working directory"@,
        CommandKind::Mkdir => "Create directories (-p for recursive)"@,
        CommandKind::Touch => "Create empty files"@,
        CommandKind::Rm => "Remove files or directories (-r for recursive)"@,
        CommandKind::Cp => "Copy files or directories"@,
        CommandKind::Mv => "Move or rename files and directories"@,
        CommandKind::Tree => "Display directory tree structure"@,
        CommandKind::Ln => "Create links (-s for symbolic)"@,
        CommandKind::Cat => "Display file contents"@,
        CommandKind::Echo => "Display a line of text"@,
        CommandKind::Head => "Display first N lines of a file (-n COUNT)"@,
        CommandKind::Tail => "Display last N lines of a file (-n COUNT)"@,
        CommandKind::Grep => "Search for patterns in files (-i case-insensitive, -n line numbers)"@,
        CommandKind::Sort => "Sort lines of a file (-r for reverse)"@,
        CommandKind::Uniq => "Filter adjacent duplicate lines (-c for counts)"@,
        CommandKind::Wc => "Count lines, words, and characters (-l -w -c)"@,
        CommandKind::Cut => "Extract fields from each line (-f FIELDS -d DELIM)"@,
        CommandKind::Tr => "Translate characters from stdin (echo text | tr a-z A-Z)"@,
        CommandKind::Tee => "Write stdin to stdout and files (-a for append)"@,
        CommandKind::Diff => "Compare two files line by line"@,
        CommandKind::Find => "Find files by name (find [path] -name PATTERN)"@,
        CommandKind::Du => "Estimate disk usage (-h human-readable, -s summary)"@,
        CommandKind::Chmod => "Change file permissions (octal or symbolic)"@,
        CommandKind::Chown => "Change file ownership (owner[:group])"@,
        CommandKind::Whoami => "Display the current username"@,
        CommandKind::Hostname => "Display the system hostname"@,
        CommandKind::Date => "Display the current date and time"@,
        CommandKind::History => "Display command history"@,
        CommandKind::Env => "Display environment variables"@,
        CommandKind::Export => "Set environment variables (export KEY=VALUE)"@,
        CommandKind::Basename => "Strip directory from filename"@,
        CommandKind::Dirname => "Strip filename from path"@,
        CommandKind::Man => "Display manual page for a command"@,
        CommandKind::Clear => "Clear the terminal screen"@,
        CommandKind::Help => "Display this help message"@,
        CommandKind::Exit => "Exit the terminal"@,
        CommandKind::Comm => "Compare two sorted files line by line"@,
        CommandKind::Nl => "Number lines of a file"@,
        CommandKind::Paste => "Merge lines of files side by side"@,
        CommandKind::Rev => "Reverse lines of text character by character"@,
        CommandKind::Tac => "Concatenate files in reverse line order"@,
        CommandKind::Yes => "Output a string repeatedly"@,
        CommandKind::Groups => "Display group memberships"@,
        CommandKind::Id => "Display user identity (uid, gid, groups)"@,
        CommandKind::Groupadd => "Create a new group"@,
        CommandKind::Useradd => "Create a new user"@,
        CommandKind::Adduser => "Create a new user (with home directory)"@,
        CommandKind::Passwd => "Change user password"@,
        CommandKind::Sudo => "Execute a command with elevated privileges"@,
    }
}

/// Whether piped input reaches a command as a file operand.
pub open spec fn kind_accepts_stdin(k: CommandKind) -> bool {
    match k {
        CommandKind::Ls => false,
        CommandKind::Cd => false,
        CommandKind::Pwd => false,
        CommandKind::Mkdir => false,
        CommandKind::Touch => false,
        CommandKind::Rm => false,
        CommandKind::Cp => false,
        CommandKind::Mv => false,
        CommandKind::Tree => false,
        CommandKind::Ln => false,
        CommandKind::Cat => true,
        CommandKind::Echo => false,
        CommandKind::Head => true,
        CommandKind::Tail => true,
        CommandKind::Grep => true,
        CommandKind::Sort => true,
        CommandKind::Uniq => true,
        CommandKind::Wc => true,
        CommandKind::Cut => true,
        CommandKind::Tr => false,
        CommandKind::Tee => false,
        CommandKind::Diff => false,
        CommandKind::Find => false,
        CommandKind::Du => false,
        CommandKind::Chmod => false,
        CommandKind::Chown => false,
        CommandKind::Whoami => false,
        CommandKind::Hostname => false,
        CommandKind::Date => false,
        CommandKind::History => false,
        CommandKind::Env => false,
        CommandKind::Export => false,
        CommandKind::Basename => false,
        CommandKind::Dirname => false,
        CommandKind::Man => false,
        CommandKind::Clear => false,
        CommandKind::Help => false,
        CommandKind::Exit => false,
        CommandKind::Comm => true,
        CommandKind::Nl => true,
        CommandKind::Paste => true,
        CommandKind::Rev => true,
        CommandKind::Tac => true,
        CommandKind::Yes => false,
        CommandKind::Groups => false,
        CommandKind::Id => false,
        CommandKind::Groupadd => false,
        CommandKind::Useradd => false,
        CommandKind::Adduser => false,
        CommandKind::Passwd => false,
        CommandKind::Sudo => false,
    }
}

/// The usage line of a command.
pub open spec fn kind_synopsis(k: CommandKind) -> Seq<char> {
    match k {
        CommandKind::Ls => "ls [-l] [path]"@,
        CommandKind::Cd => "cd [path]"@,
        CommandKind::Pwd => "pwd"@,
        CommandKind::Mkdir => "mkdir [-p] directory [directory2 ...]"@,
        CommandKind::Touch => "touch file [file2 ...]"@,
        CommandKind::Rm => "rm [-r] target [target2 ...]"@,
        CommandKind::Cp => "cp source destination"@,
        CommandKind::Mv => "mv source destination"@,
        CommandKind::Tree => "tree [path]"@,
        CommandKind::Ln => "ln [-s] target link_name"@,
        CommandKind::Cat => "cat file [file2 ...]"@,
        CommandKind::Echo => "echo text"@,
        CommandKind::Head => "head [-n COUNT] file"@,
        CommandKind::Tail => "tail [-n COUNT] file"@,
        CommandKind::Grep => "grep [-i] [-n] pattern file [file2 ...]"@,
        CommandKind::Sort => "sort [-r] file"@,
        CommandKind::Uniq => "uniq [-c] file"@,
        CommandKind::Wc => "wc [-l] [-w] [-c] file [file2 ...]"@,
        CommandKind::Cut => "cut -f FIELDS [-d DELIM] file"@,
        CommandKind::Tr => "echo text | tr set1 set2"@,
        CommandKind::Tee => "echo text | tee [-a] file [file2 ...]"@,
        CommandKind::Diff => "diff file1 file2"@,
        CommandKind::Find => "find [path] -name pattern"@,
        CommandKind::Du => "du [-h] [-s] [path]"@,
        CommandKind::Chmod => "chmod mode file [file2 ...]"@,
        CommandKind::Chown => "chown owner[:group] file [file2 ...]"@,
        CommandKind::Whoami => "whoami"@,
        CommandKind::Hostname => "hostname"@,
        CommandKind::Date => "date"@,
        CommandKind::History => "history"@,
        CommandKind::Env => "env"@,
        CommandKind::Export => "export KEY=VALUE"@,
        CommandKind::Basename => "basename path [suffix]"@,
        CommandKind::Dirname => "dirname path"@,
        CommandKind::Man => "man command"@,
        CommandKind::Clear => "clear"@,
        CommandKind::Help => "help"@,
        CommandKind::Exit => "exit"@,
        CommandKind::Comm => "comm [-1] [-2] [-3] FILE1 FILE2"@,
        CommandKind::Nl => "nl [file]"@,
        CommandKind::Paste => "paste [-d DELIM] FILE1 FILE2 [FILE3 ...]"@,
        CommandKind::Rev => "rev [file]"@,
        CommandKind::Tac => "tac [file]"@,
        CommandKind::Yes => "yes [-n COUNT] [STRING ...]"@,
        CommandKind::Groups => "groups [username]"@,
        CommandKind::Id => "id [username]"@,
        CommandKind::Groupadd => "groupadd [-g gid] groupname"@,
        CommandKind::Useradd => "useradd [-m] [-s shell] [-g group] username"@,
        CommandKind::Adduser => "adduser username"@,
        CommandKind::Passwd => "passwd [username]"@,
        CommandKind::Sudo => "sudo [-u user] command [args...]"@,
    }
}

/// The manual description of a command.
pub open spec fn kind_man_description(k: CommandKind) -> Seq<char> {
    match k {
        CommandKind::Ls => "List the contents of a directory. If no path is given, the current working directory is used. \
The -l flag enables long format output showing permissions, owner, group, size, and modification time."@,
        CommandKind::Cd => "Change the shell's current working directory to the given path. The special path ~ navigates to the home directory (/home/user), \
.. moves to the parent directory, and / navigates to the filesystem root. \
With no arguments, cd returns to the home directory. Produces no output on success, matching POSIX behaviour."@,
        CommandKind::Pwd => "Print the absolute path of the shell's current working directory, followed by a newline. \
The working directory is stored in the VFS and is updated by the cd command. Takes no arguments or flags."@,
        CommandKind::Mkdir => "Create one or more new directories at the specified paths. Without -p, the parent directory must already exist \
and the target must not already exist. With -p, parent directories are created as needed and already-existing \
directories are silently skipped, making it safe for creating deep directory trees in a single call."@,
        CommandKind::Touch => "Create one or more empty files in the virtual filesystem. If a file already exists, its contents are left \
unchanged (the simulated timestamp update is a no-op for existing files). Multiple files can be created in a \
single invocation by listing them as separate arguments."@,
        CommandKind::Rm => "Remove one or more files or directories. Without -r, only regular files can be removed; \
attempting to remove a directory without -r produces an 'Is a directory' error. The -r flag enables \
recursive removal of directories and all their contents. The variants -rf and -fr are also accepted \
for convenience."@,
        CommandKind::Cp => "Copy a file or directory from source to destination. If the destination is an existing directory, \
the source is copied into that directory preserving its original name. The source file remains intact \
after the copy operation."@,
        CommandKind::Mv => "Move or rename a file or directory from source to destination. The source is removed after the move. \
If the destination is an existing directory, the source is moved into that directory preserving its basename."@,
        CommandKind::Tree => "Recursively display the contents of a directory in a tree-like format using box-drawing characters. \
When called without arguments, displays the tree rooted at the current working directory. \
Entries within each directory are sorted alphabetically. A summary line at the end reports the total number of directories and files."@,
        CommandKind::Ln => "Create links to files in the virtual filesystem. By default, a hard link is created by copying the target file's \
content to the link name (the two files are independent). With -s, a symbolic link is created as a small file \
containing '-> target' notation. Symbolic links are not automatically dereferenced when reading."@,
        CommandKind::Cat => "Concatenate and display the contents of one or more files to standard output. \
Multiple files are read in order and their contents are concatenated without any separator. \
A trailing newline is appended if the last file does not end with one."@,
        CommandKind::Echo => "Display a line of text to standard output. Arguments are joined with spaces and a \
trailing newline is appended. With no arguments, prints an empty line. Shell redirection \
operators (> and >>) are handled by the pipeline layer, so echo output can be written to files."@,
        CommandKind::Head => "Display the first N lines of a file to standard output. By default, the first 10 lines \
are shown. Use the -n flag to specify a different line count; both spaced (-n 5) and compact \
(-n5) forms are accepted. If the file has fewer lines than requested, all lines are shown."@,
        CommandKind::Tail => "Display the last N lines of a file to standard output. By default, the last 10 lines \
are shown. Use the -n flag to specify a different line count; both spaced (-n 5) and compact \
(-n5) forms are accepted. If the file has fewer lines than requested, all lines are shown."@,
        CommandKind::Grep => "Search for lines matching a pattern in one or more files. The pattern is matched as a \
substring (not a regular expression). With -i, matching is case-insensitive. With -n, each \
matching line is prefixed with its 1-based line number. When multiple files are specified, \
output lines are prefixed with the filename."@,
        CommandKind::Sort => "Sort lines of a file in lexicographic (Unicode codepoint) order and print the result. \
With -r, the sort order is reversed so that lines are printed from Z to A. Sorting is \
case-sensitive by default (uppercase letters sort before lowercase)."@,
        CommandKind::Uniq => "Filter adjacent duplicate lines from a file, collapsing consecutive identical lines \
into a single line. Only truly adjacent duplicates are removed; identical lines separated by \
a different line are both kept. With -c, each output line is prefixed with its occurrence \
count, right-aligned in a 6-character field."@,
        CommandKind::Wc => "Count lines, words, and characters in one or more files. By default all three counts \
are displayed. Use -l to show only lines, -w to show only words, or -c to show only \
characters. When multiple files are given, a summary total line is appended."@,
        CommandKind::Cut => "Extract selected fields from each line of a file. The -f flag (required) specifies \
a comma-separated list of 1-indexed field numbers to extract. The -d flag sets the \
single-character field delimiter, which defaults to tab. Out-of-range field numbers are \
silently skipped."@,
        CommandKind::Tr => "Translate characters from stdin by replacing each character found in set1 with the \
character at the same position in set2. Characters not in set1 are passed through unchanged. \
If set2 is shorter than set1, the last character of set2 is used for all remaining positions."@,
        CommandKind::Tee => "Read from stdin and write the input to both stdout and one or more files simultaneously, \
acting as a T-splitter in a pipeline. By default each file is overwritten. With -a, the input \
is appended to each file instead of replacing its contents."@,
        CommandKind::Diff => "Compare two files line by line using a Longest Common Subsequence (LCS) algorithm. Output is in a simplified unified-diff format showing added and removed lines. Identical files produce no output."@,
        CommandKind::Find => "Recursively search for files and directories whose names contain the given substring pattern. If no path is specified, searches from the current working directory. The -name flag is required and must be followed by the pattern string."@,
        CommandKind::Du => "Estimate disk usage of files and directories by recursively walking the VFS tree. The -h flag displays sizes in human-readable format (K for kilobytes, M for megabytes). The -s flag shows only a summary total for the specified path rather than per-subdirectory breakdown."@,
        CommandKind::Chmod => "Change file permissions. Accepts octal modes (e.g. 755, 0644) or symbolic modes \
         (e.g. +x, -w, u+r, a+x). Only the file owner or root can change permissions."@,
        CommandKind::Chown => "Change file ownership. Only root can change ownership. The owner can be a username or \
         numeric UID, optionally followed by :group or :GID."@,
        CommandKind::Whoami => "Display the username of the currently logged-in user. The username is set during the initial authentication flow and stored in the shell state."@,
        CommandKind::Hostname => "Display the hostname of the virtual NexOS system. The hostname is configured during shell initialization and stored in the shell state."@,
        CommandKind::Date => "Display the current date and time in ISO-8601 format. On WASM targets, the output comes from the browser's Date object. On native targets, it falls back to seconds since the Unix epoch."@,
        CommandKind::History => "Display a numbered list of all commands entered during the current session. Each entry is prefixed with a sequential number starting at 1. Unlike real bash, this implementation does not support history deletion or re-execution."@,
        CommandKind::Env => "Display all environment variables currently defined in the shell session as KEY=VALUE pairs, one per line. Variables are sorted alphabetically for deterministic output. This is a read-only command; use export to set variables."@,
        CommandKind::Export => "Set environment variables in the shell session. When called without arguments, lists all exported variables in declare -x format. Values may contain = characters; only the first = is treated as the key-value separator. A bare key without = sets the variable to an empty string."@,
        CommandKind::Basename => "Strip directory components and optional trailing suffix from a file path. Prints the last component of the path after removing everything up to and including the final slash. If a suffix argument is provided and matches the end of the component, it is also stripped."@,
        CommandKind::Dirname => "Strip the filename component from a path, returning only the directory portion. Trailing slashes are stripped before processing. Operates purely on string manipulation without filesystem lookups."@,
        CommandKind::Man => "Display a detailed manual page for the specified command, including its name, synopsis, description, and examples. Every registered command has a corresponding manual page."@,
        CommandKind::Clear => "Clear the terminal screen by returning ANSI escape sequences that erase the entire visible display and move the cursor to the top-left position. The actual clearing is performed by the terminal emulator (xterm.js)."@,
        CommandKind::Help => "Display a formatted list of all available commands sorted alphabetically, each with a brief description. This serves as the user's quick-reference guide within the terminal."@,
        CommandKind::Exit => "Exit the terminal session. In this browser-based environment, exit signals the frontend to display a shutdown message and disable further input rather than killing a process."@,
        CommandKind::Comm => "Compare two sorted files line by line. Output three tab-separated columns: lines only \
in FILE1, lines only in FILE2, and lines in both. Columns can be suppressed with flags: \
-1 suppress column 1, -2 suppress column 2, -3 suppress column 3. Both input files must be sorted."@,
        CommandKind::Nl => "Number each line of the input file and write the result to standard output. \
Each line is prefixed with its 1-indexed line number, right-aligned in a 6-character \
field, followed by a tab character. If no file is given, reads from stdin."@,
        CommandKind::Paste => "Merge lines from multiple files side by side, separated by tab characters. \
Each line from FILE1 is joined with the corresponding line from FILE2 (and FILE3, etc.) \
using the delimiter. If one file is shorter, empty strings are used for its missing lines. \
Use -d to specify a custom single-character delimiter instead of tab."@,
        CommandKind::Rev => "Reverse each line of the input character by character and write the result to standard \
output. The order of lines is preserved; only the characters within each line are reversed. \
If no file is given, reads from stdin."@,
        CommandKind::Tac => "Concatenate and print files in reverse line order. Each file is read and its \
lines are printed from last to first. If no file is given, reads from stdin. \
This is the reverse of cat for line ordering."@,
        CommandKind::Yes => "Repeatedly output a line with the specified STRING, or 'y' by default. \
Without -n, output is capped at 10000 lines (browser-safe limit). With -n COUNT, \
outputs exactly COUNT lines. Useful for piping into commands that need affirmative input."@,
        CommandKind::Groups => "Display the groups the current user or a specified user belongs to."@,
        CommandKind::Id => "Display the UID, GID, and group memberships for the current user or a specified user."@,
        CommandKind::Groupadd => "Create a new group by adding an entry to /etc/group. With -g, specifies the GID."@,
        CommandKind::Useradd => "Create a new user. With -m, creates a home directory. With -s, sets the login shell. \
         With -g, assigns the user to an existing group."@,
        CommandKind::Adduser => "Create a new user with a home directory. This is a convenience wrapper around useradd -m."@,
        CommandKind::Passwd => "Change the password for the current or specified user. In this simulated environment, \
         the command acknowledges the request but actual password management is handled by the \
         browser frontend."@,
        CommandKind::Sudo => "Execute a command with elevated privileges (euid 0 by default). Checks /etc/sudoers \
         for NOPASSWD authorization. Only NOPASSWD entries are supported in v1."@,
    }
}

/// The manual examples of a command.
pub open spec fn kind_examples(k: CommandKind) -> Seq<Seq<char>> {
    match k {
        CommandKind::Ls => seq!["ls"@, "ls -l /home"@, "ls -l .."@],
        CommandKind::Cd => seq!["cd /tmp"@, "cd .."@, "cd ~"@],
        CommandKind::Pwd => Seq::<Seq<char>>::empty(),
        CommandKind::Mkdir => seq!["mkdir test"@, "mkdir -p path/to/dir"@],
        CommandKind::Touch => seq!["touch newfile.txt"@, "touch a.txt b.txt c.txt"@],
        CommandKind::Rm => seq!["rm file.txt"@, "rm -r directory"@],
        CommandKind::Cp => seq!["cp file.txt backup.txt"@, "cp file.txt /tmp/"@],
        CommandKind::Mv => seq!["mv old.txt new.txt"@, "mv file.txt /tmp/"@],
        CommandKind::Tree => seq!["tree"@, "tree /home"@],
        CommandKind::Ln => seq!["ln file.txt link.txt"@, "ln -s /path/to/file symlink"@],
        CommandKind::Cat => seq!["cat file.txt"@, "cat a.txt b.txt"@],
        CommandKind::Echo => seq!["echo Hello World"@, "echo data > output.txt"@],
        CommandKind::Head => seq!["head file.txt"@, "head -n 5 file.txt"@, "head -n20 log.txt"@],
        CommandKind::Tail => seq!["tail file.txt"@, "tail -n 5 file.txt"@],
        CommandKind::Grep => seq!["grep hello file.txt"@, "grep -i error log.txt"@, "grep -n TODO *.rs"@],
        CommandKind::Sort => seq!["sort file.txt"@, "sort -r file.txt"@],
        CommandKind::Uniq => seq!["uniq file.txt"@, "sort file.txt | uniq -c"@],
        CommandKind::Wc => seq!["wc file.txt"@, "wc -l *.txt"@],
        CommandKind::Cut => seq!["cut -f 1,3 data.csv"@, "cut -f 2 -d , data.csv"@],
        CommandKind::Tr => seq!["echo hello | tr a-z A-Z"@, "echo hello | tr eo OE"@],
        CommandKind::Tee => seq!["echo hello | tee output.txt"@, "echo data | tee -a log.txt"@],
        CommandKind::Diff => seq!["diff old.txt new.txt"@],
        CommandKind::Find => seq!["find -name README"@, "find /home -name .txt"@, "find . -name config"@],
        CommandKind::Du => seq!["du"@, "du -h /home"@, "du -s ."@],
        CommandKind::Chmod => seq!["chmod 755 script.sh"@, "chmod +x script.sh"@, "chmod u+r file.txt"@],
        CommandKind::Chown => seq!["chown alice file.txt"@, "chown root:root /etc/config"@],
        CommandKind::Whoami => Seq::<Seq<char>>::empty(),
        CommandKind::Hostname => Seq::<Seq<char>>::empty(),
        CommandKind::Date => Seq::<Seq<char>>::empty(),
        CommandKind::History => Seq::<Seq<char>>::empty(),
        CommandKind::Env => Seq::<Seq<char>>::empty(),
        CommandKind::Export => seq!["export PATH=/usr/bin"@, "export EDITOR=vim"@],
        CommandKind::Basename => seq!["basename /home/user/file.txt"@, "basename /home/user/file.txt .txt"@],
        CommandKind::Dirname => seq!["dirname /home/user/file.txt"@, "dirname file.txt"@],
        CommandKind::Man => seq!["man ls"@, "man grep"@],
        CommandKind::Clear => Seq::<Seq<char>>::empty(),
        CommandKind::Help => Seq::<Seq<char>>::empty(),
        CommandKind::Exit => Seq::<Seq<char>>::empty(),
        CommandKind::Comm => seq!["comm file1 file2"@, "comm -1 -3 file1 file2"@],
        CommandKind::Nl => seq!["nl file.txt"@, "cat file.txt | nl"@],
        CommandKind::Paste => seq!["paste file1 file2"@, "paste -d , file1 file2"@, "paste -d '|' file1 file2 file3"@],
        CommandKind::Rev => seq!["rev file.txt"@, "echo hello | rev"@],
        CommandKind::Tac => seq!["tac file.txt"@, "cat file.txt | tac"@],
        CommandKind::Yes => seq!["yes"@, "yes hello"@, "yes -n 5 ok"@],
        CommandKind::Groups => seq!["groups"@, "groups root"@],
        CommandKind::Id => seq!["id"@, "id root"@],
        CommandKind::Groupadd => seq!["groupadd developers"@, "groupadd -g 500 admins"@],
        CommandKind::Useradd => seq!["useradd -m alice"@, "adduser bob"@],
        CommandKind::Adduser => seq!["adduser alice"@],
        CommandKind::Passwd => seq!["passwd"@, "passwd alice"@],
        CommandKind::Sudo => seq!["sudo whoami"@, "sudo -u alice id"@, "sudo cat /etc/shadow"@],
    }
}

/// What the command `k` does in a context holding `s`.
pub open spec fn outcome(k: CommandKind, s: CtxState) -> Outcome {
    match k {
        CommandKind::Sudo => sudo::sudo_outcome(s),
        _ => builtin_outcome(k, s),
    }
}

/// What the command `k`, other than `sudo`, does in a context holding `s`.
/// (`sudo` runs one of these commands; see [`sudo::sudo_outcome`].)
pub open spec fn builtin_outcome(k: CommandKind, s: CtxState) -> Outcome
    recommends
        !(k is Sudo),
{
    match k {
        CommandKind::Ls => {
            unchanged(s, ls::ls_spec(&vfs_of(s), s.args, db_of(&vfs_of(s))))
        },
        CommandKind::Cd => {
            if s.args.len() == 0 && s.fs.dom().contains(home_dir()) && !s.fs[home_dir()].0 {
                unchanged(s, Err("cd: ~: Not a directory"@))
            } else {
                match cd::cd_spec(&vfs_of(s), s.args) {
                    Ok(t) => (Ok(Seq::empty()), s.fs, t, s.env),
                    Err(e) => unchanged(s, Err(e)),
                }
            }
        },
        CommandKind::Pwd => {
            unchanged(s, Ok(s.cwd + seq!['\n']))
        },
        CommandKind::Mkdir => {
            if mkdir::mkdir_paths(s.args).len() == 0 {
                unchanged(s, Err("mkdir: missing operand"@))
            } else {
                let run = mkdir::mkdir_run(s.fs, s.cwd, mkdir::mkdir_paths(s.args), s.args.contains("-p"@), s.uid, s.gid);
                with_fs(s, run.0, match run.1 {
                    Some(e) => Err(e),
                    None => Ok(Seq::empty()),
                })
            }
        },
        CommandKind::Touch => {
            if s.args.len() == 0 {
                unchanged(s, Err("touch: missing file operand"@))
            } else {
                let run = touch::touch_run(s.fs, s.cwd, s.args);
                with_fs(s, run.0, match run.1 {
                    Some(e) => Err(e),
                    None => Ok(Seq::empty()),
                })
            }
        },
        CommandKind::Rm => {
            if rm::rm_paths(s.args).len() == 0 {
                unchanged(s, Err("rm: missing operand"@))
            } else {
                let run = rm::rm_run(s.fs, s.cwd, rm::rm_paths(s.args), rm::rm_recursive(s.args), s.uid, s.gid);
                with_fs(s, run.0, match run.1 {
                    Some(e) => Err(e),
                    None => Ok(Seq::empty()),
                })
            }
        },
        CommandKind::Cp => {
            with_fs(s, cp::cp_spec(s.fs, s.cwd, s.args, s.uid, s.gid).0, cp::cp_spec(s.fs, s.cwd, s.args, s.uid, s.gid).1)
        },
        CommandKind::Mv => {
            with_fs(s, mv::mv_spec(s.fs, s.cwd, s.args, s.uid, s.gid).0, mv::mv_spec(s.fs, s.cwd, s.args, s.uid, s.gid).1)
        },
        CommandKind::Tree => {
            unchanged(s, tree::tree_spec(&vfs_of(s), s.args))
        },
        CommandKind::Ln => {
            with_fs(s, ln::ln_spec(s.fs, s.cwd, s.args).0, ln::ln_spec(s.fs, s.cwd, s.args).1)
        },
        CommandKind::Cat => {
            unchanged(s, cat::cat_spec(&vfs_of(s), s.args, s.uid, s.gid))
        },
        CommandKind::Echo => {
            unchanged(s, Ok(echo::echo_spec(s.args)))
        },
        CommandKind::Head => {
            unchanged(s, head::head_spec(&vfs_of(s), s.args))
        },
        CommandKind::Tail => {
            unchanged(s, tail::tail_spec(&vfs_of(s), s.args))
        },
        CommandKind::Grep => {
            unchanged(s, grep::grep_spec(&vfs_of(s), s.args))
        },
        CommandKind::Sort => {
            unchanged(s, sort::sort_spec(&vfs_of(s), s.args))
        },
        CommandKind::Uniq => {
            unchanged(s, uniq::uniq_spec(&vfs_of(s), s.args))
        },
        CommandKind::Wc => {
            unchanged(s, wc::wc_spec(&vfs_of(s), s.args))
        },
        CommandKind::Cut => {
            unchanged(s, cut::cut_spec(&vfs_of(s), s.args))
        },
        CommandKind::Tr => {
            unchanged(s, tr::tr_spec(s.stdin, s.args))
        },
        CommandKind::Tee => {
            if tee::tee_files(s.args).len() == 0 {
                unchanged(s, Err("tee: missing file operand"@))
            } else {
                let run = tee::tee_run(s.fs, s.cwd, tee::tee_files(s.args), s.stdin, s.args.contains("-a"@));
                with_fs(s, run.0, match run.1 {
                    Some(e) => Err(e),
                    None => Ok(s.stdin),
                })
            }
        },
        CommandKind::Diff => {
            unchanged(s, diff::diff_spec(&vfs_of(s), s.args))
        },
        CommandKind::Find => {
            unchanged(s, find::find_spec(&vfs_of(s), s.args))
        },
        CommandKind::Du => {
            unchanged(s, du::du_spec(&vfs_of(s), s.args))
        },
        CommandKind::Chmod => {
            if s.args.len() < 2 {
                unchanged(s, Err("chmod: missing operand"@))
            } else {
                let run = chmod::chmod_run(s.fs, s.cwd, s.args[0], s.args.skip(1), s.uid);
                with_fs(s, run.0, Ok(run.1))
            }
        },
        CommandKind::Chown => {
            with_fs(s, chown::chown_spec(s.fs, s.cwd, s.args, s.uid, db_of(&vfs_of(s))).0, chown::chown_spec(s.fs, s.cwd, s.args, s.uid, db_of(&vfs_of(s))).1)
        },
        CommandKind::Whoami => {
            unchanged(s, Ok(s.username + seq!['\n']))
        },
        CommandKind::Hostname => {
            unchanged(s, Ok(s.hostname + seq!['\n']))
        },
        CommandKind::Date => {
            unchanged(s, Ok(s.clock + seq!['\n']))
        },
        CommandKind::History => {
            unchanged(s, Ok(history::history_text(s.history)))
        },
        CommandKind::Env => {
            unchanged(s, Ok(pair_lines(s.env, sorted_set(s.env.dom()), Seq::empty(), seq!['='], seq!['\n'])))
        },
        CommandKind::Export => {
            if s.args.len() == 0 {
                unchanged(s, Ok(export::declare_listing(s.env)))
            } else {
                (Ok(Seq::empty()), s.fs, s.cwd, export::assign_all(s.env, s.args))
            }
        },
        CommandKind::Basename => {
            unchanged(s, basename::basename_spec(s.args))
        },
        CommandKind::Dirname => {
            unchanged(s, dirname::dirname_spec(s.args))
        },
        CommandKind::Man => {
            unchanged(s, man::man_spec(s.registry, s.args))
        },
        CommandKind::Clear => {
            unchanged(s, Ok("\x1b[2J\x1b[H"@))
        },
        CommandKind::Help => {
            unchanged(s, Ok(help::help_text(s.registry)))
        },
        CommandKind::Exit => {
            unchanged(s, Ok(Seq::empty()))
        },
        CommandKind::Comm => {
            unchanged(s, comm::comm_spec(&vfs_of(s), s.args))
        },
        CommandKind::Nl => {
            unchanged(s, nl::nl_spec(&vfs_of(s), s.args))
        },
        CommandKind::Paste => {
            unchanged(s, paste::paste_spec(&vfs_of(s), s.args))
        },
        CommandKind::Rev => {
            unchanged(s, rev::rev_spec(&vfs_of(s), s.args))
        },
        CommandKind::Tac => {
            unchanged(s, tac::tac_spec(&vfs_of(s), s.args))
        },
        CommandKind::Yes => {
            unchanged(s, yes::yes_spec(s.args))
        },
        CommandKind::Groups => {
            unchanged(s, groups::groups_spec(db_of(&vfs_of(s)), groups::target_user(s.username, s.args)))
        },
        CommandKind::Id => {
            unchanged(s, id::id_spec(db_of(&vfs_of(s)), groups::target_user(s.username, s.args)))
        },
        CommandKind::Groupadd => {
            with_fs(
                s,
                groupadd::groupadd_spec(s.fs, resolve(s.cwd, "/etc/group"@), db_of(&vfs_of(s)), s.args).1,
                groupadd::groupadd_spec(s.fs, resolve(s.cwd, "/etc/group"@), db_of(&vfs_of(s)), s.args).0,
            )
        },
        CommandKind::Useradd => {
            with_fs(
                s,
                useradd::useradd_spec(s.fs, s.cwd, db_of(&vfs_of(s)), s.args).1,
                useradd::useradd_spec(s.fs, s.cwd, db_of(&vfs_of(s)), s.args).0,
            )
        },
        CommandKind::Adduser => {
            with_fs(
                s,
                useradd::useradd_spec(s.fs, s.cwd, db_of(&vfs_of(s)), seq!["-m"@] + s.args).1,
                useradd::useradd_spec(s.fs, s.cwd, db_of(&vfs_of(s)), seq!["-m"@] + s.args).0,
            )
        },
        CommandKind::Passwd => {
            unchanged(
                s,
                Ok("passwd: password for '"@ + passwd::passwd_target(s.username, s.args) + "' updated successfully\n"@),
            )
        },
        CommandKind::Sudo => unchanged(s, Err(Seq::empty())),
    }
}

impl Command for CommandKind {
    fn name(&self) -> (r: &'static str)
        ensures
            r@ == kind_name(*self),
    {
        match self {
            CommandKind::Ls => ls::LsCommand.name(),
            CommandKind::Cd => cd::CdCommand.name(),
            CommandKind::Pwd => pwd::PwdCommand.name(),
            CommandKind::Mkdir => mkdir::MkdirCommand.name(),
            CommandKind::Touch => touch::TouchCommand.name(),
            CommandKind::Rm => rm::RmCommand.name(),
            CommandKind::Cp => cp::CpCommand.name(),
            CommandKind::Mv => mv::MvCommand.name(),
            CommandKind::Tree => tree::TreeCommand.name(),
            CommandKind::Ln => ln::LnCommand.name(),
            CommandKind::Cat => cat::CatCommand.name(),
            CommandKind::Echo => echo::EchoCommand.name(),
            CommandKind::Head => head::HeadCommand.name(),
            CommandKind::Tail => tail::TailCommand.name(),
            CommandKind::Grep => grep::GrepCommand.name(),
            CommandKind::Sort => sort::SortCommand.name(),
            CommandKind::Uniq => uniq::UniqCommand.name(),
            CommandKind::Wc => wc::WcCommand.name(),
            CommandKind::Cut => cut::CutCommand.name(),
            CommandKind::Tr => tr::TrCommand.name(),
            CommandKind::Tee => tee::TeeCommand.name(),
            CommandKind::Diff => diff::DiffCommand.name(),
            CommandKind::Find => find::FindCommand.name(),
            CommandKind::Du => du::DuCommand.name(),
            CommandKind::Chmod => chmod::ChmodCommand.name(),
            CommandKind::Chown => chown::ChownCommand.name(),
            CommandKind::Whoami => whoami::WhoamiCommand.name(),
            CommandKind::Hostname => hostname::HostnameCommand.name(),
            CommandKind::Date => date::DateCommand.name(),
            CommandKind::History => history::HistoryCommand.name(),
            CommandKind::Env => env::EnvCommand.name(),
            CommandKind::Export => export::ExportCommand.name(),
            CommandKind::Basename => basename::BasenameCommand.name(),
            CommandKind::Dirname => dirname::DirnameCommand.name(),
            CommandKind::Man => man::ManCommand.name(),
            CommandKind::Clear => clear::ClearCommand.name(),
            CommandKind::Help => help::HelpCommand.name(),
            CommandKind::Exit => exit::ExitCommand.name(),
            CommandKind::Comm => comm::CommCommand.name(),
            CommandKind::Nl => nl::NlCommand.name(),
            CommandKind::Paste => paste::PasteCommand.name(),
            CommandKind::Rev => rev::RevCommand.name(),
            CommandKind::Tac => tac::TacCommand.name(),
            CommandKind::Yes => yes::YesCommand.name(),
            CommandKind::Groups => groups::GroupsCommand.name(),
            CommandKind::Id => id::IdCommand.name(),
            CommandKind::Groupadd => groupadd::GroupaddCommand.name(),
            CommandKind::Useradd => useradd::UseraddCommand.name(),
            CommandKind::Adduser => useradd::AdduserCommand.name(),
            CommandKind::Passwd => passwd::PasswdCommand.name(),
            CommandKind::Sudo => sudo::SudoCommand.name(),
        }
    }

    fn description(&self) -> (r: &'static str)
        ensures
            r@ == kind_description(*self),
    {
        match self {
            CommandKind::Ls => ls::LsCommand.description(),
            CommandKind::Cd => cd::CdCommand.description(),
            CommandKind::Pwd => pwd::PwdCommand.description(),
            CommandKind::Mkdir => mkdir::MkdirCommand.description(),
            CommandKind::Touch => touch::TouchCommand.description(),
            CommandKind::Rm => rm::RmCommand.description(),
            CommandKind::Cp => cp::CpCommand.description(),
            CommandKind::Mv => mv::MvCommand.description(),
            CommandKind::Tree => tree::TreeCommand.description(),
            CommandKind::Ln => ln::LnCommand.description(),
            CommandKind::Cat => cat::CatCommand.description(),
            CommandKind::Echo => echo::EchoCommand.description(),
            CommandKind::Head => head::HeadCommand.description(),
            CommandKind::Tail => tail::TailCommand.description(),
            CommandKind::Grep => grep::GrepCommand.description(),
            CommandKind::Sort => sort::SortCommand.description(),
            CommandKind::Uniq => uniq::UniqCommand.description(),
            CommandKind::Wc => wc::WcCommand.description(),
            CommandKind::Cut => cut::CutCommand.description(),
            CommandKind::Tr => tr::TrCommand.description(),
            CommandKind::Tee => tee::TeeCommand.description(),
            CommandKind::Diff => diff::DiffCommand.description(),
            CommandKind::Find => find::FindCommand.description(),
            CommandKind::Du => du::DuCommand.description(),
            CommandKind::Chmod => chmod::ChmodCommand.description(),
            CommandKind::Chown => chown::ChownCommand.description(),
            CommandKind::Whoami => whoami::WhoamiCommand.description(),
            CommandKind::Hostname => hostname::HostnameCommand.description(),
            CommandKind::Date => date::DateCommand.description(),
            CommandKind::History => history::HistoryCommand.description(),
            CommandKind::Env => env::EnvCommand.description(),
            CommandKind::Export => export::ExportCommand.description(),
            CommandKind::Basename => basename::BasenameCommand.description(),
            CommandKind::Dirname => dirname::DirnameCommand.description(),
            CommandKind::Man => man::ManCommand.description(),
            CommandKind::Clear => clear::ClearCommand.description(),
            CommandKind::Help => help::HelpCommand.description(),
            CommandKind::Exit => exit::ExitCommand.description(),
            CommandKind::Comm => comm::CommCommand.description(),
            CommandKind::Nl => nl::NlCommand.description(),
            CommandKind::Paste => paste::PasteCommand.description(),
            CommandKind::Rev => rev::RevCommand.description(),
            CommandKind::Tac => tac::TacCommand.description(),
            CommandKind::Yes => yes::YesCommand.description(),
            CommandKind::Groups => groups::GroupsCommand.description(),
            CommandKind::Id => id::IdCommand.description(),
            CommandKind::Groupadd => groupadd::GroupaddCommand.description(),
            CommandKind::Useradd => useradd::UseraddCommand.description(),
            CommandKind::Adduser => useradd::AdduserCommand.description(),
            CommandKind::Passwd => passwd::PasswdCommand.description(),
            CommandKind::Sudo => sudo::SudoCommand.description(),
        }
    }

    fn accepts_stdin(&self) -> (r: bool)
        ensures
            r == kind_accepts_stdin(*self),
    {
        match self {
            CommandKind::Ls => ls::LsCommand.accepts_stdin(),
            CommandKind::Cd => cd::CdCommand.accepts_stdin(),
            CommandKind::Pwd => pwd::PwdCommand.accepts_stdin(),
            CommandKind::Mkdir => mkdir::MkdirCommand.accepts_stdin(),
            CommandKind::Touch => touch::TouchCommand.accepts_stdin(),
            CommandKind::Rm => rm::RmCommand.accepts_stdin(),
            CommandKind::Cp => cp::CpCommand.accepts_stdin(),
            CommandKind::Mv => mv::MvCommand.accepts_stdin(),
            CommandKind::Tree => tree::TreeCommand.accepts_stdin(),
            CommandKind::Ln => ln::LnCommand.accepts_stdin(),
            CommandKind::Cat => cat::CatCommand.accepts_stdin(),
            CommandKind::Echo => echo::EchoCommand.accepts_stdin(),
            CommandKind::Head => head::HeadCommand.accepts_stdin(),
            CommandKind::Tail => tail::TailCommand.accepts_stdin(),
            CommandKind::Grep => grep::GrepCommand.accepts_stdin(),
            CommandKind::Sort => sort::SortCommand.accepts_stdin(),
            CommandKind::Uniq => uniq::UniqCommand.accepts_stdin(),
            CommandKind::Wc => wc::WcCommand.accepts_stdin(),
            CommandKind::Cut => cut::CutCommand.accepts_stdin(),
            CommandKind::Tr => tr::TrCommand.accepts_stdin(),
            CommandKind::Tee => tee::TeeCommand.accepts_stdin(),
            CommandKind::Diff => diff::DiffCommand.accepts_stdin(),
            CommandKind::Find => find::FindCommand.accepts_stdin(),
            CommandKind::Du => du::DuCommand.accepts_stdin(),
            CommandKind::Chmod => chmod::ChmodCommand.accepts_stdin(),
            CommandKind::Chown => chown::ChownCommand.accepts_stdin(),
            CommandKind::Whoami => whoami::WhoamiCommand.accepts_stdin(),
            CommandKind::Hostname => hostname::HostnameCommand.accepts_stdin(),
            CommandKind::Date => date::DateCommand.accepts_stdin(),
            CommandKind::History => history::HistoryCommand.accepts_stdin(),
            CommandKind::Env => env::EnvCommand.accepts_stdin(),
            CommandKind::Export => export::ExportCommand.accepts_stdin(),
            CommandKind::Basename => basename::BasenameCommand.accepts_stdin(),
            CommandKind::Dirname => dirname::DirnameCommand.accepts_stdin(),
            CommandKind::Man => man::ManCommand.accepts_stdin(),
            CommandKind::Clear => clear::ClearCommand.accepts_stdin(),
            CommandKind::Help => help::HelpCommand.accepts_stdin(),
            CommandKind::Exit => exit::ExitCommand.accepts_stdin(),
            CommandKind::Comm => comm::CommCommand.accepts_stdin(),
            CommandKind::Nl => nl::NlCommand.accepts_stdin(),
            CommandKind::Paste => paste::PasteCommand.accepts_stdin(),
            CommandKind::Rev => rev::RevCommand.accepts_stdin(),
            CommandKind::Tac => tac::TacCommand.accepts_stdin(),
            CommandKind::Yes => yes::YesCommand.accepts_stdin(),
            CommandKind::Groups => groups::GroupsCommand.accepts_stdin(),
            CommandKind::Id => id::IdCommand.accepts_stdin(),
            CommandKind::Groupadd => groupadd::GroupaddCommand.accepts_stdin(),
            CommandKind::Useradd => useradd::UseraddCommand.accepts_stdin(),
            CommandKind::Adduser => useradd::AdduserCommand.accepts_stdin(),
            CommandKind::Passwd => passwd::PasswdCommand.accepts_stdin(),
            CommandKind::Sudo => sudo::SudoCommand.accepts_stdin(),
        }
    }

    fn execute(&self, ctx: &mut CommandContext) -> (r: Result<String, String>)
        ensures
            meets(outcome(*self, state_of(old(ctx))), r, final(ctx)),
    {
        match self {
            CommandKind::Sudo => sudo::execute(ctx),
            _ => run_builtin(*self, ctx),
        }
    }

    fn synopsis(&self) -> (r: &'static str)
        ensures
            r@ == kind_synopsis(*self),
    {
        match self {
            CommandKind::Ls => ls::LsCommand.synopsis(),
            CommandKind::Cd => cd::CdCommand.synopsis(),
            CommandKind::Pwd => pwd::PwdCommand.synopsis(),
            CommandKind::Mkdir => mkdir::MkdirCommand.synopsis(),
            CommandKind::Touch => touch::TouchCommand.synopsis(),
            CommandKind::Rm => rm::RmCommand.synopsis(),
            CommandKind::Cp => cp::CpCommand.synopsis(),
            CommandKind::Mv => mv::MvCommand.synopsis(),
            CommandKind::Tree => tree::TreeCommand.synopsis(),
            CommandKind::Ln => ln::LnCommand.synopsis(),
            CommandKind::Cat => cat::CatCommand.synopsis(),
            CommandKind::Echo => echo::EchoCommand.synopsis(),
            CommandKind::Head => head::HeadCommand.synopsis(),
            CommandKind::Tail => tail::TailCommand.synopsis(),
            CommandKind::Grep => grep::GrepCommand.synopsis(),
            CommandKind::Sort => sort::SortCommand.synopsis(),
            CommandKind::Uniq => uniq::UniqCommand.synopsis(),
            CommandKind::Wc => wc::WcCommand.synopsis(),
            CommandKind::Cut => cut::CutCommand.synopsis(),
            CommandKind::Tr => tr::TrCommand.synopsis(),
            CommandKind::Tee => tee::TeeCommand.synopsis(),
            CommandKind::Diff => diff::DiffCommand.synopsis(),
            CommandKind::Find => find::FindCommand.synopsis(),
            CommandKind::Du => du::DuCommand.synopsis(),
            CommandKind::Chmod => chmod::ChmodCommand.synopsis(),
            CommandKind::Chown => chown::ChownCommand.synopsis(),
            CommandKind::Whoami => whoami::WhoamiCommand.synopsis(),
            CommandKind::Hostname => hostname::HostnameCommand.synopsis(),
            CommandKind::Date => date::DateCommand.synopsis(),
            CommandKind::History => history::HistoryCommand.synopsis(),
            CommandKind::Env => env::EnvCommand.synopsis(),
            CommandKind::Export => export::ExportCommand.synopsis(),
            CommandKind::Basename => basename::BasenameCommand.synopsis(),
            CommandKind::Dirname => dirname::DirnameCommand.synopsis(),
            CommandKind::Man => man::ManCommand.synopsis(),
            CommandKind::Clear => clear::ClearCommand.synopsis(),
            CommandKind::Help => help::HelpCommand.synopsis(),
            CommandKind::Exit => exit::ExitCommand.synopsis(),
            CommandKind::Comm => comm::CommCommand.synopsis(),
            CommandKind::Nl => nl::NlCommand.synopsis(),
            CommandKind::Paste => paste::PasteCommand.synopsis(),
            CommandKind::Rev => rev::RevCommand.synopsis(),
            CommandKind::Tac => tac::TacCommand.synopsis(),
            CommandKind::Yes => yes::YesCommand.synopsis(),
            CommandKind::Groups => groups::GroupsCommand.synopsis(),
            CommandKind::Id => id::IdCommand.synopsis(),
            CommandKind::Groupadd => groupadd::GroupaddCommand.synopsis(),
            CommandKind::Useradd => useradd::UseraddCommand.synopsis(),
            CommandKind::Adduser => useradd::AdduserCommand.synopsis(),
            CommandKind::Passwd => passwd::PasswdCommand.synopsis(),
            CommandKind::Sudo => sudo::SudoCommand.synopsis(),
        }
    }

    fn man_description(&self) -> (r: &'static str)
        ensures
            r@ == kind_man_description(*self),
    {
        match self {
            CommandKind::Ls => ls::LsCommand.man_description(),
            CommandKind::Cd => cd::CdCommand.man_description(),
            CommandKind::Pwd => pwd::PwdCommand.man_description(),
            CommandKind::Mkdir => mkdir::MkdirCommand.man_description(),
            CommandKind::Touch => touch::TouchCommand.man_description(),
            CommandKind::Rm => rm::RmCommand.man_description(),
            CommandKind::Cp => cp::CpCommand.man_description(),
            CommandKind::Mv => mv::MvCommand.man_description(),
            CommandKind::Tree => tree::TreeCommand.man_description(),
            CommandKind::Ln => ln::LnCommand.man_description(),
            CommandKind::Cat => cat::CatCommand.man_description(),
            CommandKind::Echo => echo::EchoCommand.man_description(),
            CommandKind::Head => head::HeadCommand.man_description(),
            CommandKind::Tail => tail::TailCommand.man_description(),
            CommandKind::Grep => grep::GrepCommand.man_description(),
            CommandKind::Sort => sort::SortCommand.man_description(),
            CommandKind::Uniq => uniq::UniqCommand.man_description(),
            CommandKind::Wc => wc::WcCommand.man_description(),
            CommandKind::Cut => cut::CutCommand.man_description(),
            CommandKind::Tr => tr::TrCommand.man_description(),
            CommandKind::Tee => tee::TeeCommand.man_description(),
            CommandKind::Diff => diff::DiffCommand.man_description(),
            CommandKind::Find => find::FindCommand.man_description(),
            CommandKind::Du => du::DuCommand.man_description(),
            CommandKind::Chmod => chmod::ChmodCommand.man_description(),
            CommandKind::Chown => chown::ChownCommand.man_description(),
            CommandKind::Whoami => whoami::WhoamiCommand.man_description(),
            CommandKind::Hostname => hostname::HostnameCommand.man_description(),
            CommandKind::Date => date::DateCommand.man_description(),
            CommandKind::History => history::HistoryCommand.man_description(),
            CommandKind::Env => env::EnvCommand.man_description(),
            CommandKind::Export => export::ExportCommand.man_description(),
            CommandKind::Basename => basename::BasenameCommand.man_description(),
            CommandKind::Dirname => dirname::DirnameCommand.man_description(),
            CommandKind::Man => man::ManCommand.man_description(),
            CommandKind::Clear => clear::ClearCommand.man_description(),
            CommandKind::Help => help::HelpCommand.man_description(),
            CommandKind::Exit => exit::ExitCommand.man_description(),
            CommandKind::Comm => comm::CommCommand.man_description(),
            CommandKind::Nl => nl::NlCommand.man_description(),
            CommandKind::Paste => paste::PasteCommand.man_description(),
            CommandKind::Rev => rev::RevCommand.man_description(),
            CommandKind::Tac => tac::TacCommand.man_description(),
            CommandKind::Yes => yes::YesCommand.man_description(),
            CommandKind::Groups => groups::GroupsCommand.man_description(),
            CommandKind::Id => id::IdCommand.man_description(),
            CommandKind::Groupadd => groupadd::GroupaddCommand.man_description(),
            CommandKind::Useradd => useradd::UseraddCommand.man_description(),
            CommandKind::Adduser => useradd::AdduserCommand.man_description(),
            CommandKind::Passwd => passwd::PasswdCommand.man_description(),
            CommandKind::Sudo => sudo::SudoCommand.man_description(),
        }
    }

    fn examples(&self) -> (r: &'static [&'static str])
        ensures
            strs_view(r@) == kind_examples(*self),
    {
        match self {
            CommandKind::Ls => ls::LsCommand.examples(),
            CommandKind::Cd => cd::CdCommand.examples(),
            CommandKind::Pwd => pwd::PwdCommand.examples(),
            CommandKind::Mkdir => mkdir::MkdirCommand.examples(),
            CommandKind::Touch => touch::TouchCommand.examples(),
            CommandKind::Rm => rm::RmCommand.examples(),
            CommandKind::Cp => cp::CpCommand.examples(),
            CommandKind::Mv => mv::MvCommand.examples(),
            CommandKind::Tree => tree::TreeCommand.examples(),
            CommandKind::Ln => ln::LnCommand.examples(),
            CommandKind::Cat => cat::CatCommand.examples(),
            CommandKind::Echo => echo::EchoCommand.examples(),
            CommandKind::Head => head::HeadCommand.examples(),
            CommandKind::Tail => tail::TailCommand.examples(),
            CommandKind::Grep => grep::GrepCommand.examples(),
            CommandKind::Sort => sort::SortCommand.examples(),
            CommandKind::Uniq => uniq::UniqCommand.examples(),
            CommandKind::Wc => wc::WcCommand.examples(),
            CommandKind::Cut => cut::CutCommand.examples(),
            CommandKind::Tr => tr::TrCommand.examples(),
            CommandKind::Tee => tee::TeeCommand.examples(),
            CommandKind::Diff => diff::DiffCommand.examples(),
            CommandKind::Find => find::FindCommand.examples(),
            CommandKind::Du => du::DuCommand.examples(),
            CommandKind::Chmod => chmod::ChmodCommand.examples(),
            CommandKind::Chown => chown::ChownCommand.examples(),
            CommandKind::Whoami => whoami::WhoamiCommand.examples(),
            CommandKind::Hostname => hostname::HostnameCommand.examples(),
            CommandKind::Date => date::DateCommand.examples(),
            CommandKind::History => history::HistoryCommand.examples(),
            CommandKind::Env => env::EnvCommand.examples(),
            CommandKind::Export => export::ExportCommand.examples(),
            CommandKind::Basename => basename::BasenameCommand.examples(),
            CommandKind::Dirname => dirname::DirnameCommand.examples(),
            CommandKind::Man => man::ManCommand.examples(),
            CommandKind::Clear => clear::ClearCommand.examples(),
            CommandKind::Help => help::HelpCommand.examples(),
            CommandKind::Exit => exit::ExitCommand.examples(),
            CommandKind::Comm => comm::CommCommand.examples(),
            CommandKind::Nl => nl::NlCommand.examples(),
            CommandKind::Paste => paste::PasteCommand.examples(),
            CommandKind::Rev => rev::RevCommand.examples(),
            CommandKind::Tac => tac::TacCommand.examples(),
            CommandKind::Yes => yes::YesCommand.examples(),
            CommandKind::Groups => groups::GroupsCommand.examples(),
            CommandKind::Id => id::IdCommand.examples(),
            CommandKind::Groupadd => groupadd::GroupaddCommand.examples(),
            CommandKind::Useradd => useradd::UseraddCommand.examples(),
            CommandKind::Adduser => useradd::AdduserCommand.examples(),
            CommandKind::Passwd => passwd::PasswdCommand.examples(),
            CommandKind::Sudo => sudo::SudoCommand.examples(),
        }
    }

}


/// Run the command `k`, other than `sudo`, in `ctx`.
pub fn run_builtin(k: CommandKind, ctx: &mut CommandContext) -> (r: Result<String, String>)
    requires
        !(k is Sudo),
    ensures
        meets(builtin_outcome(k, state_of(old(ctx))), r, final(ctx)),
        *final(final(ctx).vfs) == *final(old(ctx).vfs),
        *final(final(ctx).env_vars) == *final(old(ctx).env_vars),
{
    match k {
        CommandKind::Ls => ls::LsCommand.execute(ctx),
        CommandKind::Cd => cd::CdCommand.execute(ctx),
        CommandKind::Pwd => pwd::PwdCommand.execute(ctx),
        CommandKind::Mkdir => mkdir::MkdirCommand.execute(ctx),
        CommandKind::Touch => touch::TouchCommand.execute(ctx),
        CommandKind::Rm => rm::RmCommand.execute(ctx),
        CommandKind::Cp => cp::CpCommand.execute(ctx),
        CommandKind::Mv => mv::MvCommand.execute(ctx),
        CommandKind::Tree => tree::TreeCommand.execute(ctx),
        CommandKind::Ln => ln::LnCommand.execute(ctx),
        CommandKind::Cat => cat::CatCommand.execute(ctx),
        CommandKind::Echo => echo::EchoCommand.execute(ctx),
        CommandKind::Head => head::HeadCommand.execute(ctx),
        CommandKind::Tail => tail::TailCommand.execute(ctx),
        CommandKind::Grep => grep::GrepCommand.execute(ctx),
        CommandKind::Sort => sort::SortCommand.execute(ctx),
        CommandKind::Uniq => uniq::UniqCommand.execute(ctx),
        CommandKind::Wc => wc::WcCommand.execute(ctx),
        CommandKind::Cut => cut::CutCommand.execute(ctx),
        CommandKind::Tr => tr::TrCommand.execute(ctx),
        CommandKind::Tee => tee::TeeCommand.execute(ctx),
        CommandKind::Diff => diff::DiffCommand.execute(ctx),
        CommandKind::Find => find::FindCommand.execute(ctx),
        CommandKind::Du => du::DuCommand.execute(ctx),
        CommandKind::Chmod => chmod::ChmodCommand.execute(ctx),
        CommandKind::Chown => chown::ChownCommand.execute(ctx),
        CommandKind::Whoami => whoami::WhoamiCommand.execute(ctx),
        CommandKind::Hostname => hostname::HostnameCommand.execute(ctx),
        CommandKind::Date => date::DateCommand.execute(ctx),
        CommandKind::History => history::HistoryCommand.execute(ctx),
        CommandKind::Env => env::EnvCommand.execute(ctx),
        CommandKind::Export => export::ExportCommand.execute(ctx),
        CommandKind::Basename => basename::BasenameCommand.execute(ctx),
        CommandKind::Dirname => dirname::DirnameCommand.execute(ctx),
        CommandKind::Man => man::ManCommand.execute(ctx),
        CommandKind::Clear => clear::ClearCommand.execute(ctx),
        CommandKind::Help => help::HelpCommand.execute(ctx),
        CommandKind::Exit => exit::ExitCommand.execute(ctx),
        CommandKind::Comm => comm::CommCommand.execute(ctx),
        CommandKind::Nl => nl::NlCommand.execute(ctx),
        CommandKind::Paste => paste::PasteCommand.execute(ctx),
        CommandKind::Rev => rev::RevCommand.execute(ctx),
        CommandKind::Tac => tac::TacCommand.execute(ctx),
        CommandKind::Yes => yes::YesCommand.execute(ctx),
        CommandKind::Groups => groups::GroupsCommand.execute(ctx),
        CommandKind::Id => id::IdCommand.execute(ctx),
        CommandKind::Groupadd => groupadd::GroupaddCommand.execute(ctx),
        CommandKind::Useradd => useradd::UseraddCommand.execute(ctx),
        CommandKind::Adduser => useradd::AdduserCommand.execute(ctx),
        CommandKind::Passwd => passwd::PasswdCommand.execute(ctx),
        CommandKind::Sudo => unreached(),
    }
}

/// After a successful `cd` the working directory is an existing directory
/// and `pwd` prints it.
pub proof fn law_cd_then_pwd(s: CtxState)
    requires
        crate::command::realizable(s),
        outcome(CommandKind::Cd, s).0 is Ok,
    ensures
        s.fs.dom().contains(outcome(CommandKind::Cd, s).2),
        s.fs[outcome(CommandKind::Cd, s).2].0,
        outcome(CommandKind::Cd, s).1 == s.fs,
        outcome(CommandKind::Pwd, CtxState { cwd: outcome(CommandKind::Cd, s).2, ..s }).0 == Ok::<Seq<char>, Seq<char>>(
            outcome(CommandKind::Cd, s).2 + seq!['\n'],
        ),
{
    crate::command::lemma_vfs_of_state(s);
}

} // verus!
