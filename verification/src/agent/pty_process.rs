//! The messages of a PTY-backed terminal process, its settings, and the
//! parsing of a command line typed into it.
use crate::text::{blank, chars_of, is_blank, push_char, split_by, starts_with, trim, trim_chars};
use vstd::prelude::*;

verus! {

/// Why an operation on a PTY process failed.
#[derive(Debug)]
pub enum PtyProcessError {
    /// The process could not be started.
    StartupFailure(String),
    /// The process did not answer as expected.
    CommunicationError(String),
    /// The process is not running.
    NotRunning,
    /// An I/O operation failed.
    IoError(std::io::Error),
}

/// A message sent to the terminal process.
#[derive(Debug, Clone)]
pub enum PtyMessage {
    Input { payload: String },
    TakeSnapshot,
}

/// The contents of a terminal snapshot.
#[derive(Debug, Clone)]
pub struct SnapshotData {
    pub seq: String,
    pub cols: u32,
    pub rows: u32,
}

/// An answer of the terminal process.
#[derive(Debug, Clone)]
pub enum PtyResponse {
    View { view: Option<String>, status: String },
    Snapshot { response_type: String, data: SnapshotData },
}

/// A line a monitored command printed, and on which stream.
#[derive(Debug, Clone)]
pub struct CommandOutput {
    pub content: String,
    pub is_stdout: bool,
}

/// Settings of a PTY process.
#[derive(Debug, Clone)]
pub struct PtyProcessConfig {
    pub shell_command: Option<String>,
    pub cols: u16,
    pub rows: u16,
}

impl PtyProcessConfig {
    /// The default settings, given the value of the `SHELL` variable: that
    /// shell (`bash` when unset) on an 80 by 24 terminal.
    pub fn from_shell_var(shell: Option<String>) -> (c: PtyProcessConfig)
        ensures
            c.shell_command matches Some(s) && match shell {
                Some(v) => s@ == v@,
                None => s@ == "bash"@,
            },
            c.cols == 80,
            c.rows == 24,
    {
        let s = match shell {
            Some(v) => v,
            None => "bash".to_owned(),
        };
        PtyProcessConfig { shell_command: Some(s), cols: 80, rows: 24 }
    }
}

/// Where the scan of a command line stands.
pub struct ShellScan {
    /// The arguments finished so far.
    pub args: Seq<Seq<char>>,
    /// The argument being read.
    pub current: Seq<char>,
    /// Whether a quote is open.
    pub in_quotes: bool,
    /// The character that opened it.
    pub quote: char,
}

pub open spec fn is_quote(c: char) -> bool {
    c == '\'' || c == '"'
}

pub open spec fn is_blank_sep(c: char) -> bool {
    c == ' ' || c == '\t'
}

/// One character of the scan: a quote opens a quoted part when none is open
/// and closes the one it opened; a space or tab outside quotes ends the
/// argument being read, if it has text; any other character is text.
pub open spec fn shell_step(st: ShellScan, ch: char) -> ShellScan {
    if is_quote(ch) && !st.in_quotes {
        ShellScan { in_quotes: true, quote: ch, ..st }
    } else if is_quote(ch) && st.in_quotes && ch == st.quote {
        ShellScan { in_quotes: false, quote: ' ', ..st }
    } else if is_blank_sep(ch) && !st.in_quotes {
        if st.current.len() > 0 {
            ShellScan { args: st.args.push(st.current), current: Seq::empty(), ..st }
        } else {
            st
        }
    } else {
        ShellScan { current: st.current.push(ch), ..st }
    }
}

/// The scan after reading the whole text.
pub open spec fn shell_scan(s: Seq<char>) -> ShellScan
    decreases s.len(),
{
    if s.len() == 0 {
        ShellScan { args: Seq::empty(), current: Seq::empty(), in_quotes: false, quote: ' ' }
    } else {
        shell_step(shell_scan(s.drop_last()), s.last())
    }
}

/// The arguments of a command line: the scan's arguments and the last one
/// read, if it has text.
pub open spec fn spec_parse_shell_command(s: Seq<char>) -> Seq<Seq<char>> {
    let st = shell_scan(s);
    if st.current.len() > 0 {
        st.args.push(st.current)
    } else {
        st.args
    }
}

/// Splits a command line into its program and arguments: spaces and tabs
/// separate them except inside single or double quotes, and the quotes
/// themselves are dropped.
pub fn parse_shell_command(command: &str) -> (args: Vec<String>)
    ensures
        args@.map_values(|a: String| a@) == spec_parse_shell_command(command@),
{
    let cs = chars_of(command);
    let mut args: Vec<String> = Vec::new();
    let mut current = String::new();
    let mut in_quotes = false;
    let mut quote_char = ' ';
    let mut i: usize = 0;
    proof {
        assert(cs@.take(0) =~= Seq::<char>::empty());
        assert(args@.map_values(|a: String| a@) =~= Seq::<Seq<char>>::empty());
        assert(current@ =~= Seq::<char>::empty());
    }
    while i < cs.len()
        invariant
            i <= cs@.len(),
            cs@ == command@,
            ({
                let st = shell_scan(cs@.take(i as int));
                &&& args@.map_values(|a: String| a@) == st.args
                &&& current@ == st.current
                &&& in_quotes == st.in_quotes
                &&& quote_char == st.quote
            }),
        decreases cs@.len() - i,
    {
        let ch = cs[i];
        assert(cs@.take(i + 1).drop_last() == cs@.take(i as int));
        assert(cs@.take(i + 1).last() == ch);
        let quote = ch == '\'' || ch == '"';
        if quote && !in_quotes {
            in_quotes = true;
            quote_char = ch;
        } else if quote && in_quotes && ch == quote_char {
            in_quotes = false;
            quote_char = ' ';
        } else if (ch == ' ' || ch == '\t') && !in_quotes {
            if !current.as_str().is_empty() {
                let ghost before = args@.map_values(|a: String| a@);
                let done = current;
                args.push(done);
                current = String::new();
                assert(args@.map_values(|a: String| a@) =~= before.push(done@));
                assert(current@ =~= Seq::<char>::empty());
            }
        } else {
            push_char(&mut current, ch);
        }
        i = i + 1;
    }
    assert(cs@.take(cs@.len() as int) == cs@);
    if !current.as_str().is_empty() {
        let ghost before = args@.map_values(|a: String| a@);
        let ghost last = current@;
        args.push(current);
        assert(args@.map_values(|a: String| a@) =~= before.push(last));
    }
    args
}

/// The words of a text: its pieces between spaces and tabs that are not empty.
pub open spec fn blank_separated_words(s: Seq<char>) -> Seq<Seq<char>> {
    split_by(s, |c: char| is_blank_sep(c)).filter(|w: Seq<char>| w.len() > 0)
}

proof fn lemma_scan_args_nonempty(s: Seq<char>)
    ensures
        forall|i: int|
            0 <= i < shell_scan(s).args.len() ==> (#[trigger] shell_scan(s).args[i]).len() > 0,
    decreases s.len(),
{
    if s.len() > 0 {
        lemma_scan_args_nonempty(s.drop_last());
        let st = shell_scan(s.drop_last());
        assert(shell_scan(s) == shell_step(st, s.last()));
        assert forall|i: int| 0 <= i < shell_scan(s).args.len() implies (
        #[trigger] shell_scan(s).args[i]).len() > 0 by {
            if i < st.args.len() {
                assert(shell_scan(s).args[i] == st.args[i]);
            }
        }
    }
}

proof fn lemma_scan_without_quotes(s: Seq<char>)
    requires
        forall|i: int| 0 <= i < s.len() ==> !is_quote(#[trigger] s[i]),
    ensures
        !shell_scan(s).in_quotes,
        shell_scan(s).current == split_by(s, |c: char| is_blank_sep(c)).last(),
        shell_scan(s).args == split_by(s, |c: char| is_blank_sep(c)).drop_last().filter(
            |w: Seq<char>| w.len() > 0,
        ),
    decreases s.len(),
{
    let seps = |c: char| is_blank_sep(c);
    let nonempty = |w: Seq<char>| w.len() > 0;
    if s.len() == 0 {
        assert(split_by(s, seps).drop_last() =~= Seq::<Seq<char>>::empty());
    } else {
        let t = s.drop_last();
        let c = s.last();
        assert forall|i: int| 0 <= i < t.len() implies !is_quote(#[trigger] t[i]) by {
            assert(t[i] == s[i]);
        }
        lemma_scan_without_quotes(t);
        crate::text::lemma_split_by_nonempty(t, seps);
        let p = split_by(t, seps);
        let st = shell_scan(t);
        assert(!is_quote(s[s.len() - 1]));
        assert(shell_scan(s) == shell_step(st, c));
        assert(st.current == p.last());
        assert(st.args == p.drop_last().filter(nonempty));
        if is_blank_sep(c) {
            assert(split_by(s, seps) == p.push(Seq::<char>::empty()));
            assert(split_by(s, seps).drop_last() =~= p);
            assert(p.drop_last().push(p.last()) =~= p);
            p.drop_last().lemma_filter_push(p.last(), nonempty);
        } else {
            assert(split_by(s, seps) == p.update(p.len() - 1, p.last().push(c)));
            assert(split_by(s, seps).drop_last() =~= p.drop_last());
            assert(split_by(s, seps).last() == p.last().push(c));
        }
    }
}

/// No argument of a parsed command line is empty.
pub proof fn law_parsed_arguments_are_nonempty(command: Seq<char>)
    ensures
        forall|i: int|
            0 <= i < spec_parse_shell_command(command).len() ==> (
            #[trigger] spec_parse_shell_command(command)[i]).len() > 0,
{
    lemma_scan_args_nonempty(command);
}

/// A command line without quotes is split into its words between spaces and
/// tabs.
pub proof fn law_unquoted_command_splits_into_words(command: Seq<char>)
    requires
        forall|i: int| 0 <= i < command.len() ==> !is_quote(#[trigger] command[i]),
    ensures
        spec_parse_shell_command(command) == blank_separated_words(command),
{
    let seps = |c: char| is_blank_sep(c);
    let nonempty = |w: Seq<char>| w.len() > 0;
    lemma_scan_without_quotes(command);
    crate::text::lemma_split_by_nonempty(command, seps);
    let p = split_by(command, seps);
    assert(p.drop_last().push(p.last()) =~= p);
    p.drop_last().lemma_filter_push(p.last(), nonempty);
}

/// Whether a line typed into the terminal runs the watched program: its
/// trimmed text starts with the program's name and a space.
pub open spec fn spec_is_monitored_command(input: Seq<char>, program: Seq<char>) -> bool {
    let t = trim(input);
    let p = program.push(' ');
    t.len() >= p.len() && t.take(p.len() as int) == p
}

/// Whether the output of the command typed as `input` is watched, for the
/// watched program `program`.
pub fn is_monitored_command(input: &str, program: &str) -> (b: bool)
    ensures
        b == spec_is_monitored_command(input@, program@),
{
    let cs = chars_of(input);
    let t = trim_chars(cs.as_slice());
    let mut p = chars_of(program);
    p.push(' ');
    starts_with(t.as_slice(), p.as_slice())
}

/// The view text a response carries: the snapshot's sequence, or the view
/// of a view response; refused when a view response has none, or when no
/// response came.
pub fn view_from_response(response: Option<PtyResponse>) -> (r: Result<String, PtyProcessError>)
    ensures
        match response {
            Some(PtyResponse::Snapshot { data, .. }) => r matches Ok(s) && s@ == data.seq@,
            Some(PtyResponse::View { view: Some(v), .. }) => r matches Ok(s) && s@ == v@,
            Some(PtyResponse::View { view: None, .. }) => r matches Err(
                PtyProcessError::CommunicationError(m),
            ) && m@ == "No view data in response"@,
            None => r matches Err(PtyProcessError::CommunicationError(m)) && m@
                == "No response received"@,
        },
{
    match response {
        Some(PtyResponse::Snapshot { data, .. }) => Ok(data.seq),
        Some(PtyResponse::View { view, .. }) => match view {
            Some(v) => Ok(v),
            None => Err(PtyProcessError::CommunicationError("No view data in response".to_owned())),
        },
        None => Err(PtyProcessError::CommunicationError("No response received".to_owned())),
    }
}

/// A line a watched command printed becomes an output record unless it is
/// blank.
pub fn command_output_line(line: String, is_stdout: bool) -> (r: Option<CommandOutput>)
    ensures
        match r {
            Some(o) => !is_blank(line@) && o.content@ == line@ && o.is_stdout == is_stdout,
            None => is_blank(line@),
        },
{
    let cs = chars_of(line.as_str());
    if blank(cs.as_slice()) {
        None
    } else {
        Some(CommandOutput { content: line, is_stdout })
    }
}

} // verus!
