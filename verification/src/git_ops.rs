//! Git remotes of the spun-off working copy: the addresses it must point at, the
//! commands that put them there, the safety report shown before a push, and the
//! message a failed command is reported with.
use vstd::prelude::*;

use crate::text::{
    contains_seq, from_chars, utf8_longer_than, is_blank, join, lines, split_lines, str_contains,
    str_eq, string_of, string_views, to_chars, trim,
};

verus! {

broadcast use vstd::string::group_string_axioms;

pub open spec fn target_origin_url(login: Seq<char>, repo_name: Seq<char>) -> Seq<char> {
    "https://github.com/"@ + login + "/"@ + repo_name + ".git"@
}

pub open spec fn target_push_url(login: Seq<char>, repo_name: Seq<char>) -> Seq<char> {
    "git@github.com:"@ + login + "/"@ + repo_name + ".git"@
}

/// The HTTPS address `origin` fetches from after the spin-off.
pub fn build_target_origin_url(login: &str, repo_name: &str) -> (url: String)
    ensures
        url@ == target_origin_url(login@, repo_name@),
{
    let mut url = string_of("https://github.com/");
    url.append(login);
    url.append("/");
    url.append(repo_name);
    url.append(".git");
    url
}

/// The SSH address `origin` pushes to after the spin-off.
pub fn build_target_origin_push_url(login: &str, repo_name: &str) -> (url: String)
    ensures
        url@ == target_push_url(login@, repo_name@),
{
    let mut url = string_of("git@github.com:");
    url.append(login);
    url.append("/");
    url.append(repo_name);
    url.append(".git");
    url
}

// ---------------------------------------------------------------------------
// Remote safety report
// ---------------------------------------------------------------------------

pub open spec fn shown(v: Option<Seq<char>>) -> Seq<char> {
    match v {
        Some(s) => s,
        None => "(none)"@,
    }
}

pub open spec fn opt_view(v: Option<&str>) -> Option<Seq<char>> {
    match v {
        Some(s) => Some(s@),
        None => None,
    }
}

pub open spec fn origin_verdict(origin: Seq<char>, source: Seq<char>, expected: Seq<char>) -> Seq<
    char,
> {
    if origin == source {
        "NG: origin が暖簾分け元を向いています"@
    } else if origin == expected {
        "OK: origin は新しい repo を向いています"@
    } else {
        "NG: origin が想定 push 先を向いていません"@
    }
}

pub open spec fn push_verdict(push: Seq<char>, expected: Seq<char>) -> Seq<char> {
    if push == expected {
        "OK: push URL は SSH を向いています"@
    } else if push == "(none)"@ {
        "NG: push URL が未設定です"@
    } else {
        "NG: push URL が想定の SSH 宛先を向いていません"@
    }
}

pub open spec fn upstream_verdict(upstream: Seq<char>, source: Seq<char>) -> Seq<char> {
    if upstream == "(none)"@ {
        "OK: upstream は未設定です"@
    } else if upstream == source {
        "NG: upstream が暖簾分け元を向いています"@
    } else {
        "NG: upstream が想定外の値です"@
    }
}

/// The six lines of the validation pane: the three remote addresses, then one verdict
/// on each.
pub open spec fn remote_safety_report(
    source: Seq<char>,
    origin: Option<Seq<char>>,
    push: Option<Seq<char>>,
    upstream: Option<Seq<char>>,
    expected_origin: Seq<char>,
    expected_push: Seq<char>,
) -> Seq<Seq<char>> {
    seq![
        "origin:   "@ + shown(origin),
        "pushurl:  "@ + shown(push),
        "upstream: "@ + shown(upstream),
        origin_verdict(shown(origin), source, expected_origin),
        push_verdict(shown(push), expected_push),
        upstream_verdict(shown(upstream), source),
    ]
}

fn or_none(v: Option<&str>) -> (r: String)
    ensures
        r@ == shown(opt_view(v)),
{
    match v {
        Some(s) => string_of(s),
        None => string_of("(none)"),
    }
}

fn labelled(label: &str, value: &String) -> (r: String)
    ensures
        r@ == label@ + value@,
{
    let mut r = string_of(label);
    r.append(value.as_str());
    r
}

pub fn build_remote_safety_lines(
    source_clone_url: &str,
    origin_url: Option<&str>,
    origin_push_url: Option<&str>,
    upstream_url: Option<&str>,
    expected_origin: &str,
    expected_push: &str,
) -> (out: Vec<String>)
    ensures
        string_views(out@) == remote_safety_report(
            source_clone_url@,
            opt_view(origin_url),
            opt_view(origin_push_url),
            opt_view(upstream_url),
            expected_origin@,
            expected_push@,
        ),
{
    let mut out: Vec<String> = Vec::new();
    let origin = or_none(origin_url);
    let origin_push = or_none(origin_push_url);
    let upstream = or_none(upstream_url);
    let none = string_of("(none)");
    out.push(labelled("origin:   ", &origin));
    out.push(labelled("pushurl:  ", &origin_push));
    out.push(labelled("upstream: ", &upstream));
    if str_eq(origin.as_str(), source_clone_url) {
        out.push(string_of("NG: origin が暖簾分け元を向いています"));
    } else if str_eq(origin.as_str(), expected_origin) {
        out.push(string_of("OK: origin は新しい repo を向いています"));
    } else {
        out.push(string_of("NG: origin が想定 push 先を向いていません"));
    }
    if str_eq(origin_push.as_str(), expected_push) {
        out.push(string_of("OK: push URL は SSH を向いています"));
    } else if origin_push == none {
        out.push(string_of("NG: push URL が未設定です"));
    } else {
        out.push(string_of("NG: push URL が想定の SSH 宛先を向いていません"));
    }
    if upstream == none {
        out.push(string_of("OK: upstream は未設定です"));
    } else if str_eq(upstream.as_str(), source_clone_url) {
        out.push(string_of("NG: upstream が暖簾分け元を向いています"));
    } else {
        out.push(string_of("NG: upstream が想定外の値です"));
    }
    assert(string_views(out@) =~= remote_safety_report(
        source_clone_url@,
        opt_view(origin_url),
        opt_view(origin_push_url),
        opt_view(upstream_url),
        expected_origin@,
        expected_push@,
    ));
    out
}

/// The report calls `origin` safe exactly when it points at the expected address and
/// not at the source; it calls the push address safe exactly when it is the expected
/// SSH address; it calls `upstream` safe exactly when there is none.
pub proof fn law_safety_report_verdicts(
    source: Seq<char>,
    origin: Option<Seq<char>>,
    push: Option<Seq<char>>,
    upstream: Option<Seq<char>>,
    expected_origin: Seq<char>,
    expected_push: Seq<char>,
)
    ensures
        ({
            let report = remote_safety_report(
                source,
                origin,
                push,
                upstream,
                expected_origin,
                expected_push,
            );
            &&& report.len() == 6
            &&& (report[3] == "OK: origin は新しい repo を向いています"@ <==> (shown(origin)
                != source && shown(origin) == expected_origin))
            &&& (report[4] == "OK: push URL は SSH を向いています"@ <==> shown(push)
                == expected_push)
            &&& (report[5] == "OK: upstream は未設定です"@ <==> shown(upstream) == "(none)"@)
            &&& (origin == Some(source) ==> report[3] == "NG: origin が暖簾分け元を向いています"@)
        }),
{
    reveal_strlit("OK: origin は新しい repo を向いています");
    reveal_strlit("NG: origin が暖簾分け元を向いています");
    reveal_strlit("NG: origin が想定 push 先を向いていません");
    reveal_strlit("OK: push URL は SSH を向いています");
    reveal_strlit("NG: push URL が未設定です");
    reveal_strlit("NG: push URL が想定の SSH 宛先を向いていません");
    reveal_strlit("OK: upstream は未設定です");
    reveal_strlit("NG: upstream が暖簾分け元を向いています");
    reveal_strlit("NG: upstream が想定外の値です");
    assert("OK: origin は新しい repo を向いています"@[0] != "NG: origin が暖簾分け元を向いています"@[0]);
    assert("OK: origin は新しい repo を向いています"@[0] != "NG: origin が想定 push 先を向いていません"@[0]);
    assert("OK: push URL は SSH を向いています"@[0] != "NG: push URL が未設定です"@[0]);
    assert("OK: push URL は SSH を向いています"@[0] != "NG: push URL が想定の SSH 宛先を向いていません"@[0]);
    assert("OK: upstream は未設定です"@[0] != "NG: upstream が暖簾分け元を向いています"@[0]);
    assert("OK: upstream は未設定です"@[0] != "NG: upstream が想定外の値です"@[0]);
}

// ---------------------------------------------------------------------------
// Making the remotes safe
// ---------------------------------------------------------------------------

/// The `git` argument lists that make the remotes safe: drop `upstream` when there is
/// one, point `origin` at the new repository (adding it when missing), then set its
/// push address.
pub open spec fn safe_remote_commands(
    upstream_present: bool,
    current_origin: Option<Seq<char>>,
    target_origin: Seq<char>,
    target_push: Seq<char>,
) -> Seq<Seq<Seq<char>>> {
    let drop_upstream: Seq<Seq<Seq<char>>> = if upstream_present {
        seq![seq!["remote"@, "remove"@, "upstream"@]]
    } else {
        Seq::empty()
    };
    let fix_origin: Seq<Seq<Seq<char>>> = match current_origin {
        Some(url) => if url == target_origin {
            Seq::empty()
        } else {
            seq![seq!["remote"@, "set-url"@, "origin"@, target_origin]]
        },
        None => seq![seq!["remote"@, "add"@, "origin"@, target_origin]],
    };
    drop_upstream + fix_origin + seq![
        seq!["remote"@, "set-url"@, "--push"@, "origin"@, target_push],
    ]
}

/// What git keeps about the two remotes that matter.
pub struct RemoteModel {
    /// The fetch address of `origin`, if `origin` exists.
    pub origin: Option<Seq<char>>,
    /// An explicit push address of `origin`.
    pub origin_push: Option<Seq<char>>,
    /// The address of `upstream`, if it exists.
    pub upstream: Option<Seq<char>>,
}

/// `git remote get-url --push origin`: the explicit push address, else the fetch address.
pub open spec fn effective_push(m: RemoteModel) -> Option<Seq<char>> {
    match m.origin {
        None => None,
        Some(fetch) => match m.origin_push {
            Some(p) => Some(p),
            None => Some(fetch),
        },
    }
}

/// One `git remote ...` command as git documents it; a command git refuses (adding a
/// remote that exists, changing one that does not) leaves the remotes as they were.
pub open spec fn run_remote_command(cmd: Seq<Seq<char>>, m: RemoteModel) -> RemoteModel {
    if cmd.len() == 3 && cmd[0] == "remote"@ && cmd[1] == "remove"@ && cmd[2] == "upstream"@ {
        RemoteModel { upstream: None, ..m }
    } else if cmd.len() == 4 && cmd[0] == "remote"@ && cmd[1] == "set-url"@ && cmd[2]
        == "origin"@ {
        if m.origin is Some {
            RemoteModel { origin: Some(cmd[3]), ..m }
        } else {
            m
        }
    } else if cmd.len() == 4 && cmd[0] == "remote"@ && cmd[1] == "add"@ && cmd[2] == "origin"@ {
        if m.origin is None {
            RemoteModel { origin: Some(cmd[3]), origin_push: None, ..m }
        } else {
            m
        }
    } else if cmd.len() == 5 && cmd[0] == "remote"@ && cmd[1] == "set-url"@ && cmd[2]
        == "--push"@ && cmd[3] == "origin"@ {
        if m.origin is Some {
            RemoteModel { origin_push: Some(cmd[4]), ..m }
        } else {
            m
        }
    } else {
        m
    }
}

pub open spec fn run_remote_commands(cmds: Seq<Seq<Seq<char>>>, m: RemoteModel) -> RemoteModel
    decreases cmds.len(),
{
    if cmds.len() == 0 {
        m
    } else {
        run_remote_commands(cmds.drop_first(), run_remote_command(cmds[0], m))
    }
}

/// Once the commands have run, `origin` fetches from the new repository over HTTPS,
/// pushes to it over SSH, and no `upstream` is left, whatever the remotes were before.
pub proof fn law_safe_remotes_after_commands(
    m: RemoteModel,
    target_origin: Seq<char>,
    target_push: Seq<char>,
)
    ensures
        ({
            let after = run_remote_commands(
                safe_remote_commands(m.upstream is Some, m.origin, target_origin, target_push),
                m,
            );
            &&& after.upstream is None
            &&& after.origin == Some(target_origin)
            &&& effective_push(after) == Some(target_push)
        }),
{
    reveal_strlit("remote");
    reveal_strlit("remove");
    reveal_strlit("upstream");
    reveal_strlit("set-url");
    reveal_strlit("origin");
    reveal_strlit("add");
    reveal_strlit("--push");
    let cmds = safe_remote_commands(m.upstream is Some, m.origin, target_origin, target_push);
    let m1 = if m.upstream is Some {
        RemoteModel { upstream: None, ..m }
    } else {
        m
    };
    let m2 = match m.origin {
        Some(url) => if url == target_origin {
            m1
        } else {
            RemoteModel { origin: Some(target_origin), ..m1 }
        },
        None => RemoteModel { origin: Some(target_origin), origin_push: None, ..m1 },
    };
    let push_cmd = seq!["remote"@, "set-url"@, "--push"@, "origin"@, target_push];
    let m3 = RemoteModel { origin_push: Some(target_push), ..m2 };
    assert("set-url"@[0] != "remove"@[0]);
    assert("set-url"@[0] != "add"@[0]);
    assert("--push"@[0] != "origin"@[0]);
    assert("origin"@[0] != "upstream"@[0]);
    assert(run_remote_command(push_cmd, m2) == m3);
    let last: Seq<Seq<Seq<char>>> = seq![push_cmd];
    assert(run_remote_commands(last, m2) == m3) by {
        assert(last.drop_first() =~= Seq::<Seq<Seq<char>>>::empty());
        assert(run_remote_commands(last.drop_first(), m3) == m3);
    }
    let fix: Seq<Seq<Seq<char>>> = match m.origin {
        Some(url) => if url == target_origin {
            Seq::empty()
        } else {
            seq![seq!["remote"@, "set-url"@, "origin"@, target_origin]]
        },
        None => seq![seq!["remote"@, "add"@, "origin"@, target_origin]],
    };
    assert(run_remote_commands(fix + last, m1) == m3) by {
        if fix.len() == 0 {
            assert(fix + last =~= last);
        } else {
            assert((fix + last).drop_first() =~= last);
            assert(run_remote_command(fix[0], m1) == m2);
        }
    }
    let drop: Seq<Seq<Seq<char>>> = if m.upstream is Some {
        seq![seq!["remote"@, "remove"@, "upstream"@]]
    } else {
        Seq::empty()
    };
    assert(cmds =~= drop + (fix + last));
    if drop.len() == 0 {
        assert(drop + (fix + last) =~= fix + last);
    } else {
        assert((drop + (fix + last)).drop_first() =~= fix + last);
        assert(run_remote_command(drop[0], m) == m1);
    }
}

fn git_args(parts: &[&str]) -> (r: Vec<String>)
    ensures
        string_views(r@) == parts@.map_values(|p: &str| p@),
{
    let mut r: Vec<String> = Vec::new();
    let mut i: usize = 0;
    while i < parts.len()
        invariant
            i <= parts.len(),
            string_views(r@) == parts@.map_values(|p: &str| p@).take(i as int),
        decreases parts.len() - i,
    {
        let ghost before = r@;
        r.push(string_of(parts[i]));
        proof {
            assert(string_views(r@) =~= string_views(before).push(parts@[i as int]@));
            assert(parts@.map_values(|p: &str| p@).take(i + 1) =~= parts@.map_values(
                |p: &str| p@,
            ).take(i as int).push(parts@[i as int]@));
        }
        i = i + 1;
    }
    assert(parts@.map_values(|p: &str| p@).take(parts.len() as int) =~= parts@.map_values(
        |p: &str| p@,
    ));
    r
}

pub open spec fn command_views(v: Seq<Vec<String>>) -> Seq<Seq<Seq<char>>> {
    v.map_values(|c: Vec<String>| string_views(c@))
}

/// The commands that make the remotes of the working copy safe, given what
/// `git remote get-url` reported (`None` where it reported no remote).
pub fn ensure_safe_remotes(
    upstream_present: bool,
    current_origin: Option<&str>,
    target_origin_url: &str,
    target_push_url: &str,
) -> (cmds: Vec<Vec<String>>)
    ensures
        command_views(cmds@) == safe_remote_commands(
            upstream_present,
            opt_view(current_origin),
            target_origin_url@,
            target_push_url@,
        ),
{
    let mut cmds: Vec<Vec<String>> = Vec::new();
    if upstream_present {
        let c = git_args(&["remote", "remove", "upstream"]);
        assert(string_views(c@) =~= seq!["remote"@, "remove"@, "upstream"@]);
        cmds.push(c);
    }
    match current_origin {
        Some(url) => {
            if !str_eq(url, target_origin_url) {
                let c = git_args(&["remote", "set-url", "origin", target_origin_url]);
                assert(string_views(c@) =~= seq![
                    "remote"@,
                    "set-url"@,
                    "origin"@,
                    target_origin_url@,
                ]);
                cmds.push(c);
            }
        },
        None => {
            let c = git_args(&["remote", "add", "origin", target_origin_url]);
            assert(string_views(c@) =~= seq!["remote"@, "add"@, "origin"@, target_origin_url@]);
            cmds.push(c);
        },
    }
    let c = git_args(&["remote", "set-url", "--push", "origin", target_push_url]);
    assert(string_views(c@) =~= seq![
        "remote"@,
        "set-url"@,
        "--push"@,
        "origin"@,
        target_push_url@,
    ]);
    cmds.push(c);
    assert(command_views(cmds@) =~= safe_remote_commands(
        upstream_present,
        opt_view(current_origin),
        target_origin_url@,
        target_push_url@,
    ));
    cmds
}

// ---------------------------------------------------------------------------
// Reporting a failed command
// ---------------------------------------------------------------------------

/// Index of the first line that is not blank, or `-1`.
pub open spec fn first_nonblank(ls: Seq<Seq<char>>) -> int
    decreases ls.len(),
{
    if ls.len() == 0 {
        -1
    } else if trim(ls[0]).len() > 0 {
        0
    } else {
        let r = first_nonblank(ls.drop_first());
        if r < 0 {
            -1
        } else {
            r + 1
        }
    }
}

proof fn lemma_first_nonblank(ls: Seq<Seq<char>>, k: int)
    requires
        0 <= k <= ls.len(),
        forall|j: int| 0 <= j < k ==> trim(#[trigger] ls[j]).len() == 0,
        k == ls.len() || trim(ls[k]).len() > 0,
    ensures
        first_nonblank(ls) == if k == ls.len() {
            -1
        } else {
            k
        },
    decreases k,
{
    if k > 0 {
        let t = ls.drop_first();
        assert forall|j: int| 0 <= j < k - 1 implies trim(#[trigger] t[j]).len() == 0 by {
            assert(t[j] == ls[j + 1]);
        }
        if k - 1 < t.len() {
            assert(t[k - 1] == ls[k]);
        }
        lemma_first_nonblank(t, k - 1);
    }
}

pub open spec fn is_git_push(cmd: Seq<char>, args: Seq<Seq<char>>) -> bool {
    cmd == "git"@ && args.len() >= 2 && args[0] == "push"@
}

/// The message a failed command is reported with: the exit status and command line,
/// the first line the command wrote to stderr (cut to 180 bytes), and hints for the
/// usual push failures.
pub open spec fn failure_detail(
    exit_text: Seq<char>,
    cmd: Seq<char>,
    args: Seq<Seq<char>>,
    stderr_text: Seq<char>,
) -> Seq<char> {
    let head = "command failed (exit="@ + exit_text + "): "@ + cmd + " "@ + join(args, " "@);
    let ls = lines(stderr_text);
    let k = first_nonblank(ls);
    let with_stderr = if k < 0 {
        head
    } else {
        let line = ls[k];
        let bytes = vstd::utf8::encode_utf8(line);
        let snippet = if bytes.len() > 180 {
            vstd::utf8::decode_utf8(bytes.take(180)) + "..."@
        } else {
            line
        };
        head + " / stderr: "@ + snippet
    };
    let auth_hint = is_git_push(cmd, args) && (contains_seq(
        stderr_text,
        "Invalid username or token"@,
    ) || contains_seq(stderr_text, "Authentication failed"@) || contains_seq(
        stderr_text,
        "credential-manager-core"@,
    ));
    let with_auth = if auth_hint {
        with_stderr + " / hint: origin の push URL を SSH に設定するか、HTTPS 認証設定を確認してください"@
    } else {
        with_stderr
    };
    if is_git_push(cmd, args) && contains_seq(stderr_text, "without `workflow` scope"@) {
        with_auth + " / hint: SSH push を使うか、workflow scope 付きの HTTPS 認証を使ってください"@
    } else {
        with_auth
    }
}

/// The stderr line quoted in a failure report can be cut at byte 180 without splitting
/// a character (cutting elsewhere would panic).
pub open spec fn stderr_cut_ok(stderr_text: Seq<char>) -> bool {
    let ls = lines(stderr_text);
    let k = first_nonblank(ls);
    k >= 0 ==> {
        let bytes = vstd::utf8::encode_utf8(ls[k]);
        bytes.len() > 180 ==> vstd::utf8::is_char_boundary(bytes, 180)
    }
}

proof fn lemma_first_nonblank_bound(ls: Seq<Seq<char>>)
    ensures
        -1 <= first_nonblank(ls) < ls.len(),
    decreases ls.len(),
{
    if ls.len() > 0 && trim(ls[0]).len() == 0 {
        lemma_first_nonblank_bound(ls.drop_first());
    }
}

/// `args.join(sep)`.
pub fn join_strings(args: &Vec<String>, sep: &str) -> (r: String)
    ensures
        r@ == join(string_views(args@), sep@),
{
    let ghost v = string_views(args@);
    let mut r = String::new();
    let mut i: usize = 0;
    while i < args.len()
        invariant
            i <= args.len(),
            v == string_views(args@),
            r@ == join(v.take(i as int), sep@),
        decreases args.len() - i,
    {
        proof {
            crate::text::lemma_join_push(v.take(i as int), sep@, v[i as int]);
            assert(v.take(i as int).push(v[i as int]) =~= v.take(i + 1));
        }
        if i > 0 {
            r.append(sep);
        }
        r.append(args[i].as_str());
        i = i + 1;
    }
    assert(v.take(args.len() as int) =~= v);
    r
}

/// The first line of `text` that is not blank.
fn first_nonblank_line(text: &str) -> (r: Option<String>)
    ensures
        first_nonblank(lines(text@)) < 0 ==> r is None,
        first_nonblank(lines(text@)) >= 0 ==> r is Some && r->0@ == lines(text@)[first_nonblank(
            lines(text@),
        )],
{
    let v = to_chars(text);
    let ls = split_lines(v.as_slice());
    let ghost lv = lines(text@);
    assert(forall|j: int| 0 <= j < ls@.len() ==> #[trigger] lv[j] == ls@[j]@);
    let mut k: usize = 0;
    while k < ls.len() && is_blank(ls[k].as_slice())
        invariant
            k <= ls@.len(),
            lv.len() == ls@.len(),
            forall|j: int| 0 <= j < ls@.len() ==> #[trigger] lv[j] == ls@[j]@,
            forall|j: int| 0 <= j < k ==> trim(#[trigger] lv[j]).len() == 0,
        decreases ls@.len() - k,
    {
        k = k + 1;
    }
    proof {
        if k < ls@.len() {
            assert(lv[k as int] == ls@[k as int]@);
        }
        lemma_first_nonblank(lv, k as int);
    }
    if k < ls.len() {
        Some(from_chars(ls[k].as_slice()))
    } else {
        None
    }
}

/// Whether `command_failure_detail` can quote the stderr of a command: false exactly
/// when the line it quotes is longer than 180 bytes and byte 180 falls inside a
/// character.
pub fn stderr_cut_allowed(stderr_text: &str) -> (b: bool)
    ensures
        b == stderr_cut_ok(stderr_text@),
{
    proof {
        lemma_first_nonblank_bound(lines(stderr_text@));
    }
    match first_nonblank_line(stderr_text) {
        None => true,
        Some(line) => {
            let chars = to_chars(line.as_str());
            if utf8_longer_than(chars.as_slice(), 180) {
                line.as_str().is_char_boundary(180)
            } else {
                true
            }
        },
    }
}

/// The failure report of `cmd args...`.
pub fn command_failure_detail(
    exit_text: &str,
    cmd: &str,
    args: &Vec<String>,
    stderr_text: &str,
) -> (detail: String)
    requires
        stderr_cut_ok(stderr_text@),
    ensures
        detail@ == failure_detail(exit_text@, cmd@, string_views(args@), stderr_text@),
{
    let joined = join_strings(args, " ");
    let mut detail = string_of("command failed (exit=");
    detail.append(exit_text);
    detail.append("): ");
    detail.append(cmd);
    detail.append(" ");
    detail.append(joined.as_str());
    let ghost head = "command failed (exit="@ + exit_text@ + "): "@ + cmd@ + " "@ + join(
        string_views(args@),
        " "@,
    );
    assert(detail@ =~= head);
    proof {
        lemma_first_nonblank_bound(lines(stderr_text@));
    }
    let ghost k = first_nonblank(lines(stderr_text@));
    match first_nonblank_line(stderr_text) {
        Some(line) => {
            assert(k >= 0 && line@ == lines(stderr_text@)[k]);
            detail.append(" / stderr: ");
            let line_chars = to_chars(line.as_str());
            if utf8_longer_than(line_chars.as_slice(), 180) {
                let (cut, _) = line.as_str().split_at(180);
                proof {
                    vstd::utf8::encode_utf8_decode_utf8(cut@);
                    let bytes = vstd::utf8::encode_utf8(line@);
                    assert(vstd::utf8::encode_utf8(cut@) =~= bytes.take(180));
                    assert(cut@ == vstd::utf8::decode_utf8(bytes.take(180)));
                }
                detail.append(cut);
                detail.append("...");
                assert(detail@ =~= head + " / stderr: "@ + (cut@ + "..."@));
            } else {
                detail.append(line.as_str());
                assert(detail@ =~= head + " / stderr: "@ + line@);
            }
        },
        None => {
            assert(k < 0);
        },
    }
    let ghost with_stderr = detail@;
    proof {
        let ls = lines(stderr_text@);
        let k = first_nonblank(ls);
        let spec_ws = if k < 0 {
            head
        } else {
            let line = ls[k];
            let bytes = vstd::utf8::encode_utf8(line);
            let snippet = if bytes.len() > 180 {
                vstd::utf8::decode_utf8(bytes.take(180)) + "..."@
            } else {
                line
            };
            head + " / stderr: "@ + snippet
        };
        assert(with_stderr == spec_ws);
    }
    let is_push = str_eq(cmd, "git") && args.len() >= 2 && str_eq(args[0].as_str(), "push");
    assert(is_push == is_git_push(cmd@, string_views(args@)));
    if is_push && (str_contains(stderr_text, "Invalid username or token") || str_contains(
        stderr_text,
        "Authentication failed",
    ) || str_contains(stderr_text, "credential-manager-core")) {
        detail.append(
            " / hint: origin の push URL を SSH に設定するか、HTTPS 認証設定を確認してください",
        );
    }
    if is_push && str_contains(stderr_text, "without `workflow` scope") {
        detail.append(" / hint: SSH push を使うか、workflow scope 付きの HTTPS 認証を使ってください");
    }
    detail
}

/// A failed `gh repo create` that only says the repository is already there is not
/// an error for the push.
pub fn repo_create_error_is_ignorable(message: &str) -> (b: bool)
    ensures
        b == (contains_seq(message@, "already exists"@) || contains_seq(
            message@,
            "name already exists on this account"@,
        )),
{
    str_contains(message, "already exists") || str_contains(
        message,
        "name already exists on this account",
    )
}


/// What `git remote get-url` printed, as the remote's address: none when the command
/// failed (there is no such remote), else the output trimmed.
pub fn remote_url_from_output(success: bool, stdout: &str) -> (r: Option<String>)
    ensures
        !success ==> r is None,
        success ==> r is Some && r->0@ == trim(stdout@),
{
    if !success {
        return None;
    }
    let t = crate::text::trim_str(stdout);
    Some(from_chars(t.as_slice()))
}

} // verus!
