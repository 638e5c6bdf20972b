//! What the log pane and the status listing make of command output and log files.
use vstd::prelude::*;

use crate::git_ops::join_strings;
use crate::text::{
    from_chars, join, lines, split_lines, string_of, string_views, to_chars, trim_end,
    ws_suffix_start,
};

verus! {

broadcast use vstd::string::group_string_axioms;

/// The last `max_lines` lines of a text (all of them when there are fewer).
pub open spec fn tail(ls: Seq<Seq<char>>, max_lines: nat) -> Seq<Seq<char>> {
    if ls.len() > max_lines {
        ls.skip(ls.len() - max_lines)
    } else {
        ls
    }
}

fn lines_to_strings(ls: &Vec<Vec<char>>, start: usize) -> (r: Vec<String>)
    requires
        start <= ls@.len(),
    ensures
        string_views(r@) == ls@.map_values(|l: Vec<char>| l@).skip(start as int),
{
    let ghost lv = ls@.map_values(|l: Vec<char>| l@);
    let mut r: Vec<String> = Vec::new();
    let mut i = start;
    while i < ls.len()
        invariant
            start <= i <= ls@.len(),
            lv == ls@.map_values(|l: Vec<char>| l@),
            string_views(r@) == lv.subrange(start as int, i as int),
        decreases ls@.len() - i,
    {
        let ghost before = r@;
        r.push(from_chars(ls[i].as_slice()));
        assert(string_views(r@) =~= string_views(before).push(lv[i as int]));
        assert(lv.subrange(start as int, i + 1) =~= lv.subrange(start as int, i as int).push(
            lv[i as int],
        ));
        i = i + 1;
    }
    assert(lv.subrange(start as int, ls@.len() as int) =~= lv.skip(start as int));
    r
}

/// The last `max_lines` lines of a log file's text, as the log pane starts with them.
pub fn tail_lines(text: &str, max_lines: usize) -> (r: Vec<String>)
    ensures
        string_views(r@) == tail(lines(text@), max_lines as nat),
{
    let v = to_chars(text);
    let ls = split_lines(v.as_slice());
    let start = if ls.len() > max_lines {
        ls.len() - max_lines
    } else {
        0
    };
    let r = lines_to_strings(&ls, start);
    assert(lines(text@).skip(0) =~= lines(text@));
    r
}

/// `git status --short` output as one entry per line, or `(clean)` when it printed nothing.
pub fn status_lines(text: &str) -> (r: Vec<String>)
    ensures
        lines(text@).len() == 0 ==> string_views(r@) == seq!["(clean)"@],
        lines(text@).len() > 0 ==> string_views(r@) == lines(text@),
{
    let v = to_chars(text);
    let ls = split_lines(v.as_slice());
    if ls.len() == 0 {
        let mut r: Vec<String> = Vec::new();
        r.push(string_of("(clean)"));
        assert(string_views(r@) =~= seq!["(clean)"@]);
        r
    } else {
        let r = lines_to_strings(&ls, 0);
        assert(lines(text@).skip(0) =~= lines(text@));
        r
    }
}

/// The log line written once a command has succeeded.
pub const COMMAND_SUCCESS_LOG: &'static str = "success";

/// The log line written before a command runs: `$ (cwd=<dir>) <command> <arguments>`,
/// the arguments separated by single spaces.
pub fn command_log_line(cwd: &str, cmd: &str, args: &Vec<String>) -> (r: String)
    ensures
        r@ == "$ (cwd="@ + cwd@ + ") "@ + cmd@ + " "@ + join(string_views(args@), " "@),
{
    let mut r = string_of("$ (cwd=");
    r.append(cwd);
    r.append(") ");
    r.append(cmd);
    r.append(" ");
    let joined = join_strings(args, " ");
    r.append(joined.as_str());
    r
}

fn stream_log_line(prefix: &str, text: &str) -> (r: Option<String>)
    ensures
        r is None <==> text@.len() == 0,
        r matches Some(l) ==> l@ == prefix@ + trim_end(text@),
{
    let v = to_chars(text);
    if v.len() == 0 {
        None
    } else {
        let e = ws_suffix_start(v.as_slice());
        let body = crate::text::slice_chars(v.as_slice(), 0, e);
        let mut r = string_of(prefix);
        r.append(from_chars(body.as_slice()).as_str());
        assert(body@ =~= trim_end(text@));
        Some(r)
    }
}

/// The log line for what a command printed on its standard output: `stdout: ` and the
/// text without trailing white space; none when it printed nothing.
pub fn stdout_log_line(text: &str) -> (r: Option<String>)
    ensures
        r is None <==> text@.len() == 0,
        r matches Some(l) ==> l@ == "stdout: "@ + trim_end(text@),
{
    stream_log_line("stdout: ", text)
}

/// The log line for what a command printed on its standard error: `stderr: ` and the
/// text without trailing white space; none when it printed nothing.
pub fn stderr_log_line(text: &str) -> (r: Option<String>)
    ensures
        r is None <==> text@.len() == 0,
        r matches Some(l) ==> l@ == "stderr: "@ + trim_end(text@),
{
    stream_log_line("stderr: ", text)
}

} // verus!
