//! How an agent's workflow is driven: retrying an agent's command with
//! backoff, naming the issue a workflow works on, and the git and GitHub
//! commands of the entry workflow.
use crate::retry::{backoff_delay, backoff_ms};
use crate::text::{append_str, chars_of, concat, contains_chars, holds, split_by, string_of, trim, trim_chars};
use vstd::prelude::*;
use vstd::utf8::encode_utf8;

verus! {

/// What an agent answered to a command.
#[derive(Debug, Clone)]
pub enum AgentResult {
    Success,
    Retry,
    Failed(String),
}

/// What to do after an attempt.
#[derive(Debug, Clone, PartialEq, Eq)]
pub enum RetryStep {
    /// The command succeeded.
    Done,
    /// Stop with this error.
    Fail(String),
    /// Wait this many milliseconds, then attempt again.
    Wait(u64),
}

/// The base delay of the backoff, in milliseconds.
pub const RETRY_BASE_DELAY_MS: u64 = 100;

/// After attempt `attempt` of `max_attempts` answered `result`: done on
/// success; an error naming the agent's failure on failure; on a request to
/// retry, a wait of `100 * 2^(attempt - 1)` ms before the next attempt, or an
/// error once the last attempt is spent.
pub fn retry_step(attempt: u32, max_attempts: u32, result: &AgentResult) -> (step: RetryStep)
    requires
        1 <= attempt <= max_attempts,
        (result is Retry && attempt < max_attempts) ==> backoff_delay(
            RETRY_BASE_DELAY_MS as nat,
            attempt as nat,
        ) <= u64::MAX,
    ensures
        match result {
            AgentResult::Success => step == RetryStep::Done,
            AgentResult::Failed(e) => step matches RetryStep::Fail(m) && m@ == "Agent failed: "@
                + e@,
            AgentResult::Retry => if attempt < max_attempts {
                step matches RetryStep::Wait(d) && d == backoff_delay(
                    RETRY_BASE_DELAY_MS as nat,
                    attempt as nat,
                )
            } else {
                step matches RetryStep::Fail(m) && m@ == "Max retry attempts reached"@
            },
        },
{
    match result {
        AgentResult::Success => RetryStep::Done,
        AgentResult::Failed(e) => RetryStep::Fail(concat("Agent failed: ", e.as_str())),
        AgentResult::Retry => {
            if attempt < max_attempts {
                match backoff_ms(RETRY_BASE_DELAY_MS, attempt) {
                    Some(d) => RetryStep::Wait(d),
                    None => RetryStep::Fail("Max retry attempts reached".to_owned()),
                }
            } else {
                RetryStep::Fail("Max retry attempts reached".to_owned())
            }
        },
    }
}

/// The issue an entry workflow works on: the first argument if there is
/// one, else what follows the last `-` of the agent's id (the whole id if it
/// has none).
pub open spec fn spec_issue_number(agent_id: Seq<char>, args: Seq<Seq<char>>) -> Seq<char> {
    if args.len() > 0 {
        args[0]
    } else {
        split_by(agent_id, |c: char| c == '-').last()
    }
}

/// The issue an entry workflow works on.
pub fn issue_number(agent_id: &str, args: &[String]) -> (n: String)
    ensures
        n@ == spec_issue_number(agent_id@, args@.map_values(|a: String| a@)),
{
    if args.len() > 0 {
        return args[0].clone();
    }
    let ghost seps = |c: char| c == '-';
    let cs = chars_of(agent_id);
    let mut cur: Vec<char> = Vec::new();
    let mut i: usize = 0;
    proof {
        assert(cs@.take(0) =~= Seq::<char>::empty());
        assert(cur@ =~= split_by(cs@.take(0), seps).last());
    }
    while i < cs.len()
        invariant
            i <= cs@.len(),
            seps == (|c: char| c == '-'),
            cur@ == split_by(cs@.take(i as int), seps).last(),
        decreases cs@.len() - i,
    {
        let c = cs[i];
        assert(cs@.take(i + 1).drop_last() == cs@.take(i as int));
        assert(cs@.take(i + 1).last() == c);
        proof {
            crate::text::lemma_split_by_nonempty(cs@.take(i as int), seps);
        }
        if c == '-' {
            cur = Vec::new();
            assert(cur@ =~= Seq::<char>::empty());
        } else {
            cur.push(c);
        }
        i = i + 1;
    }
    assert(cs@.take(cs@.len() as int) == cs@);
    string_of(cur.as_slice())
}

/// The branch of an issue: `issue-<n>`.
pub open spec fn spec_branch_name(issue: Seq<char>) -> Seq<char> {
    "issue-"@ + issue
}

/// The worktree of an issue: `.worktree/issue-<n>`.
pub open spec fn spec_worktree_path(issue: Seq<char>) -> Seq<char> {
    ".worktree/"@ + spec_branch_name(issue)
}

/// The branch of an issue.
pub fn branch_name(issue: &str) -> (b: String)
    ensures
        b@ == spec_branch_name(issue@),
{
    concat("issue-", issue)
}

/// The worktree directory of an issue.
pub fn worktree_path(issue: &str) -> (p: String)
    ensures
        p@ == spec_worktree_path(issue@),
{
    let b = branch_name(issue);
    let p = concat(".worktree/", b.as_str());
    assert(p@ =~= spec_worktree_path(issue@));
    p
}

/// The command that adds the issue's worktree: on its existing branch, or
/// creating the branch with `-b`.
pub open spec fn spec_worktree_add_command(issue: Seq<char>, branch_exists: bool) -> Seq<char> {
    if branch_exists {
        "git worktree add "@ + spec_worktree_path(issue) + " "@ + spec_branch_name(issue)
    } else {
        "git worktree add "@ + spec_worktree_path(issue) + " -b "@ + spec_branch_name(issue)
    }
}

/// The command that adds the issue's worktree.
pub fn worktree_add_command(issue: &str, branch_exists: bool) -> (c: String)
    ensures
        c@ == spec_worktree_add_command(issue@, branch_exists),
{
    let path = worktree_path(issue);
    let branch = branch_name(issue);
    let mut c = concat("git worktree add ", path.as_str());
    if branch_exists {
        append_str(&mut c, " ");
    } else {
        append_str(&mut c, " -b ");
    }
    append_str(&mut c, branch.as_str());
    c
}

/// What the entry workflow does about git in the current directory before
/// setting up the worktree.
#[derive(Debug, Clone, Copy, PartialEq, Eq)]
pub enum GitSync {
    /// Already in a worktree; leave git alone.
    Skip,
    /// Switch to `main`, then pull it.
    CheckoutAndPull,
    /// Already on `main`: pull it.
    Pull,
}

/// In the issue's worktree, or in any worktree, git is left alone; else
/// `main` is pulled, after switching to it when the current branch (as
/// printed, trimmed) is another one.
pub open spec fn spec_git_sync(current_dir: Seq<char>, current_branch: Seq<char>, issue: Seq<char>) -> GitSync {
    let dir = trim(current_dir);
    if holds(dir, spec_worktree_path(issue)) || holds(dir, ".worktree"@) {
        GitSync::Skip
    } else if trim(current_branch) != "main"@ {
        GitSync::CheckoutAndPull
    } else {
        GitSync::Pull
    }
}

/// What to do about git, given the printed working directory and branch.
pub fn git_sync(current_dir: &str, current_branch: &str, issue: &str) -> (g: GitSync)
    ensures
        g == spec_git_sync(current_dir@, current_branch@, issue@),
{
    let d = chars_of(current_dir);
    let dir = trim_chars(d.as_slice());
    let wt = worktree_path(issue);
    let wtc = chars_of(wt.as_str());
    let any = chars_of(".worktree");
    if contains_chars(dir.as_slice(), wtc.as_slice()) || contains_chars(dir.as_slice(), any.as_slice()) {
        return GitSync::Skip;
    }
    let b = chars_of(current_branch);
    let branch = trim_chars(b.as_slice());
    let main = chars_of("main");
    if !crate::text::chars_eq(branch.as_slice(), main.as_slice()) {
        GitSync::CheckoutAndPull
    } else {
        GitSync::Pull
    }
}

/// The title of an issue's pull request.
pub open spec fn spec_pr_title(issue: Seq<char>) -> Seq<char> {
    "Fix issue #"@ + issue
}

/// The commands that open a draft pull request for an issue, in order:
/// view the issue, make an empty commit, push the branch, create the draft.
pub open spec fn spec_draft_pr_commands(issue: Seq<char>) -> Seq<Seq<char>> {
    let title = spec_pr_title(issue);
    let body = "Closes #"@ + issue + "\n\n## Summary\nImplementation for issue #"@ + issue
        + "\n\n🤖 Generated with Terminal Backend"@;
    seq![
        "gh issue view "@ + issue,
        "git commit --allow-empty -m \""@ + title + "\""@,
        "git push -u origin "@ + spec_branch_name(issue),
        "gh pr create --draft --title \""@ + title + "\" --body \""@ + body + "\""@,
    ]
}

/// The commands that open a draft pull request for an issue.
pub fn draft_pr_commands(issue: &str) -> (cmds: Vec<String>)
    ensures
        cmds@.map_values(|c: String| c@) == spec_draft_pr_commands(issue@),
{
    let title = concat("Fix issue #", issue);
    let mut body = concat("Closes #", issue);
    append_str(&mut body, "\n\n## Summary\nImplementation for issue #");
    append_str(&mut body, issue);
    append_str(&mut body, "\n\n🤖 Generated with Terminal Backend");
    let view = concat("gh issue view ", issue);
    let mut commit = concat("git commit --allow-empty -m \"", title.as_str());
    append_str(&mut commit, "\"");
    let branch = branch_name(issue);
    let push = concat("git push -u origin ", branch.as_str());
    let mut pr = concat("gh pr create --draft --title \"", title.as_str());
    append_str(&mut pr, "\" --body \"");
    append_str(&mut pr, body.as_str());
    append_str(&mut pr, "\"");
    let mut cmds: Vec<String> = Vec::new();
    cmds.push(view);
    cmds.push(commit);
    cmds.push(push);
    cmds.push(pr);
    assert(cmds@.map_values(|c: String| c@) =~= spec_draft_pr_commands(issue@));
    cmds
}

/// The command that opens a file in an editor: the given editor, `vim` when
/// none is given, then the file.
pub open spec fn spec_editor_command(file_path: Seq<char>, editor: Option<Seq<char>>) -> Seq<char> {
    match editor {
        Some(e) => e + " "@ + file_path,
        None => "vim"@ + " "@ + file_path,
    }
}

/// The command that opens a file in an editor.
pub fn editor_command(file_path: &str, editor: Option<&str>) -> (c: String)
    ensures
        c@ == spec_editor_command(file_path@, match editor {
            Some(e) => Some(e@),
            None => None,
        }),
{
    let e = match editor {
        Some(e) => e,
        None => "vim",
    };
    let mut c = concat(e, " ");
    append_str(&mut c, file_path);
    c
}

/// The byte `/` that separates the components of a path.
pub open spec fn path_separator() -> u8 {
    47u8
}

/// The bytes of a path `dir` joined with the relative path `name`, as
/// `Path::join` does: a `/` between them unless `dir` is empty or already
/// ends with one.
pub open spec fn path_join(dir: Seq<u8>, name: Seq<u8>) -> Seq<u8> {
    if dir.len() == 0 || dir.last() == path_separator() {
        dir + name
    } else {
        dir.push(path_separator()) + name
    }
}

/// Where sessions are kept, as the bytes of the path: a fixed file under
/// `/tmp` in test mode, else `rule-agents/sessions.json` under the user's
/// configuration directory (the current directory when there is none).
pub open spec fn spec_session_file(test_mode: bool, config_dir: Option<Seq<u8>>) -> Seq<u8> {
    if test_mode {
        encode_utf8("/tmp/rule-agents-test-sessions.json"@)
    } else {
        let dir = match config_dir {
            Some(d) => d,
            None => encode_utf8("."@),
        };
        path_join(path_join(dir, encode_utf8("rule-agents"@)), encode_utf8("sessions.json"@))
    }
}

fn join_path(dir: Vec<u8>, name: &str) -> (p: Vec<u8>)
    ensures
        p@ == path_join(dir@, encode_utf8(name@)),
{
    let ghost d = dir@;
    let mut p = dir;
    let n = p.len();
    if n > 0 && p[n - 1] != 47u8 {
        p.push(47u8);
    }
    let bytes = name.as_bytes();
    let mut i: usize = 0;
    while i < bytes.len()
        invariant
            0 <= i <= bytes@.len(),
            bytes@ == encode_utf8(name@),
            p@ == (if d.len() == 0 || d.last() == path_separator() { d } else { d.push(path_separator()) }) + bytes@.subrange(0, i as int),
        decreases bytes@.len() - i,
    {
        p.push(bytes[i]);
        i = i + 1;
        assert(bytes@.subrange(0, i as int) == bytes@.subrange(0, i - 1).push(bytes@[i - 1]));
    }
    assert(bytes@.subrange(0, bytes@.len() as int) == bytes@);
    p
}

fn text_bytes(s: &str) -> (b: Vec<u8>)
    ensures
        b@ == encode_utf8(s@),
{
    let bytes = s.as_bytes();
    let mut b: Vec<u8> = Vec::new();
    let mut i: usize = 0;
    while i < bytes.len()
        invariant
            0 <= i <= bytes@.len(),
            bytes@ == encode_utf8(s@),
            b@ == bytes@.subrange(0, i as int),
        decreases bytes@.len() - i,
    {
        b.push(bytes[i]);
        i = i + 1;
        assert(bytes@.subrange(0, i as int) == bytes@.subrange(0, i - 1).push(bytes@[i - 1]));
    }
    assert(bytes@.subrange(0, bytes@.len() as int) == bytes@);
    b
}

/// Where sessions are kept, given the bytes of the user's configuration
/// directory.
pub fn session_file_path(test_mode: bool, config_dir: Option<Vec<u8>>) -> (p: Vec<u8>)
    ensures
        p@ == spec_session_file(test_mode, match config_dir { Some(d) => Some(d@), None => None }),
{
    if test_mode {
        return text_bytes("/tmp/rule-agents-test-sessions.json");
    }
    let dir = match config_dir {
        Some(d) => d,
        None => text_bytes("."),
    };
    let inner = join_path(dir, "rule-agents");
    join_path(inner, "sessions.json")
}

/// `dirs::config_dir()`, the user's configuration directory, as the bytes
/// of its path (on Unix the path's own bytes, whatever their encoding). It
/// depends on the platform and the environment, so nothing is promised of it.
#[verifier::external_body]
fn user_config_dir() -> (d: Option<Vec<u8>>) {
    match ::dirs::config_dir() {
        Some(p) => Some(p.into_os_string().into_encoded_bytes()),
        None => None,
    }
}

/// Where sessions are kept on this machine, as the bytes of the path: the
/// test file in test mode, else the file under whatever configuration
/// directory the user has.
pub fn default_session_file(test_mode: bool) -> (p: Vec<u8>)
    ensures
        exists|d: Option<Seq<u8>>| p@ == spec_session_file(test_mode, d),
{
    let dir = user_config_dir();
    let p = session_file_path(test_mode, dir);
    assert(p@ == spec_session_file(test_mode, match dir { Some(d) => Some(d@), None => None }));
    p
}

} // verus!
