//! The messages of an `ht` terminal process, its settings and command line,
//! and the cleaning of the terminal text it reports.
use crate::config::error::ConfigError;
use crate::pattern::{spec_regex_compiles, spec_regex_replace_all, Regex};
use crate::text::{
    append_str, chars_of, concat, contains_text, decimal, decimal_chars, holds, lines, lines_of,
    string_of, texts_view, trim, trim_chars, is_ws, lemma_trim_ends,
};
use vstd::prelude::*;

verus! {

/// Why an operation on an `ht` process failed.
#[derive(Debug)]
pub enum HtProcessError {
    StartupFailure(String),
    CommunicationError(String),
    NotRunning,
    JsonError(serde_json::Error),
    IoError(std::io::Error),
}

/// A message sent to the `ht` process.
#[derive(Debug, Clone)]
pub enum HtMessage {
    Input { payload: String },
    TakeSnapshot,
}

/// The contents of a terminal snapshot.
#[derive(Debug, Clone)]
pub struct SnapshotData {
    pub seq: String,
    pub cols: u32,
    pub rows: u32,
}

/// An answer of the `ht` process.
#[derive(Debug, Clone)]
pub enum HtResponse {
    View { view: Option<String>, status: String },
    Snapshot { response_type: String, data: SnapshotData },
}

/// Settings of an `ht` process.
#[derive(Debug, Clone)]
pub struct HtProcessConfig {
    pub ht_binary_path: String,
    pub shell_command: Option<String>,
    pub restart_attempts: u32,
    pub restart_delay_ms: u64,
    pub port: u16,
}

impl HtProcessConfig {
    /// The default settings, given the value of the `SHELL` variable: `ht`
    /// running that shell (`bash` when unset), 3 restart attempts 1000 ms
    /// apart, the web view on port 9999.
    pub fn from_shell_var(shell: Option<String>) -> (c: HtProcessConfig)
        ensures
            c.ht_binary_path@ == "ht"@,
            c.shell_command matches Some(s) && match shell {
                Some(v) => s@ == v@,
                None => s@ == "bash"@,
            },
            c.restart_attempts == 3,
            c.restart_delay_ms == 1000,
            c.port == 9999,
    {
        let s = match shell {
            Some(v) => v,
            None => "bash".to_owned(),
        };
        HtProcessConfig {
            ht_binary_path: "ht".to_owned(),
            shell_command: Some(s),
            restart_attempts: 3,
            restart_delay_ms: 1000,
            port: 9999,
        }
    }
}

/// The arguments `ht` is started with: its web view on all interfaces at the
/// port, a subscription to snapshots, then the shell if one is set.
pub open spec fn spec_ht_arguments(port: u16, shell: Option<Seq<char>>) -> Seq<Seq<char>> {
    let base = seq!["-l"@, "0.0.0.0:"@ + decimal(port as nat), "--subscribe"@, "snapshot"@];
    match shell {
        Some(s) => base.push(s),
        None => base,
    }
}

/// The arguments of the `ht` process for these settings.
pub fn ht_arguments(config: &HtProcessConfig) -> (args: Vec<String>)
    ensures
        args@.map_values(|a: String| a@) == spec_ht_arguments(
            config.port,
            crate::text::opt_view(config.shell_command),
        ),
{
    let port = decimal_chars(config.port as usize);
    let mut listen = "0.0.0.0:".to_owned();
    append_str(&mut listen, string_of(port.as_slice()).as_str());
    let mut args: Vec<String> = Vec::new();
    args.push("-l".to_owned());
    args.push(listen);
    args.push("--subscribe".to_owned());
    args.push("snapshot".to_owned());
    match &config.shell_command {
        Some(s) => {
            args.push(s.clone());
        },
        None => {},
    }
    assert(args@.map_values(|a: String| a@) =~= spec_ht_arguments(
        config.port,
        crate::text::opt_view(config.shell_command),
    ));
    args
}

/// Escape sequences of a terminal: control sequences, mode changes, charset
/// selections and the like, with ESC or the one-byte CSI.
pub const ANSI_SEQUENCES: &'static str = r"\x1B\[[0-9;]*[a-zA-Z]|\x1B\[[\?]?[0-9;]*[hlm]|\x1B[>\=]|\x1B[c\d]|\x1B\][0-9];|\x1B\[[0-9A-Z]|\x1B[789]|\x1B\([AB]|\x1B\[[0-9]*[HJKfABCDGR`]|\x1B\[[0-9;]*[rW]|\x1B\[[0-9;]*H|\u{9b}[0-9;]*[a-zA-Z]|\u{9b}[\?]?[0-9;]*[hlm]";

/// Runs of control characters, line breaks among them.
pub const CONTROL_CHARACTERS: &'static str = r"[\x00-\x1F\x7F\u{9b}]+";

/// The parts joined with `sep` between them.
pub open spec fn join(parts: Seq<Seq<char>>, sep: Seq<char>) -> Seq<char>
    decreases parts.len(),
{
    if parts.len() == 0 {
        Seq::empty()
    } else if parts.len() == 1 {
        parts[0]
    } else {
        join(parts.drop_last(), sep) + sep + parts.last()
    }
}

/// The trimmed lines of a text that are not empty.
pub open spec fn trimmed_lines(s: Seq<char>) -> Seq<Seq<char>> {
    lines(s).map_values(|l: Seq<char>| trim(l)).filter(|l: Seq<char>| l.len() > 0)
}

/// Terminal text made readable: escape sequences removed, then control
/// characters, then the trimmed non-empty lines joined with single spaces.
pub open spec fn spec_clean_terminal_output(raw: Seq<char>) -> Seq<char> {
    let without_ansi = spec_regex_replace_all(ANSI_SEQUENCES@, raw, Seq::empty());
    let clean = spec_regex_replace_all(CONTROL_CHARACTERS@, without_ansi, Seq::empty());
    join(trimmed_lines(clean), " "@)
}

proof fn lemma_join_ends(parts: Seq<Seq<char>>)
    requires
        forall|i: int|
            0 <= i < parts.len() ==> (#[trigger] parts[i]).len() > 0 && !is_ws(parts[i][0])
                && !is_ws(parts[i].last()),
    ensures
        join(parts, " "@).len() == 0 <==> parts.len() == 0,
        parts.len() > 0 ==> join(parts, " "@)[0] == parts[0][0] && join(parts, " "@).last()
            == parts.last().last(),
    decreases parts.len(),
{
    if parts.len() >= 2 {
        let init = parts.drop_last();
        assert forall|i: int| 0 <= i < init.len() implies (#[trigger] init[i]).len() > 0 && !is_ws(
            init[i][0],
        ) && !is_ws(init[i].last()) by {
            assert(init[i] == parts[i]);
        }
        lemma_join_ends(init);
        let j = join(parts, " "@);
        assert(j == join(init, " "@) + " "@ + parts.last());
        assert(j[0] == join(init, " "@)[0]);
        assert(j.last() == parts.last().last());
    }
}

/// Cleaned terminal output has no whitespace at either end: it is empty, or
/// its first and last characters are not whitespace.
pub proof fn law_clean_output_is_trimmed(raw: Seq<char>)
    ensures
        ({
            let r = spec_clean_terminal_output(raw);
            r.len() == 0 || (!is_ws(r[0]) && !is_ws(r.last()))
        }),
{
    let without_ansi = spec_regex_replace_all(ANSI_SEQUENCES@, raw, Seq::empty());
    let clean = spec_regex_replace_all(CONTROL_CHARACTERS@, without_ansi, Seq::empty());
    let trimmed = lines(clean).map_values(|l: Seq<char>| trim(l));
    let pred = |l: Seq<char>| l.len() > 0;
    let parts = trimmed.filter(pred);
    assert(parts == trimmed_lines(clean));
    assert forall|i: int| 0 <= i < parts.len() implies pred(#[trigger] parts[i]) by {
        trimmed.lemma_filter_pred(pred, i);
    }
    assert forall|i: int| 0 <= i < parts.len() implies (#[trigger] parts[i]).len() > 0 && !is_ws(
        parts[i][0],
    ) && !is_ws(parts[i].last()) by {
        assert(pred(parts[i]));
        assert(parts.contains(parts[i]));
        trimmed.lemma_filter_contains_rev(pred, parts[i]);
        let k = choose|k: int| 0 <= k < trimmed.len() && trimmed[k] == parts[i];
        lemma_trim_ends(lines(clean)[k]);
    }
    lemma_join_ends(parts);
}

fn trimmed_nonempty_lines(s: &str) -> (out: Vec<Vec<char>>)
    ensures
        texts_view(out@) == trimmed_lines(s@),
{
    let ghost nonempty = |l: Seq<char>| l.len() > 0;
    let cs = chars_of(s);
    let ls = lines_of(cs.as_slice());
    let ghost m = lines(s@).map_values(|l: Seq<char>| trim(l));
    let mut out: Vec<Vec<char>> = Vec::new();
    let mut i: usize = 0;
    proof {
        assert(m.take(0) =~= Seq::<Seq<char>>::empty());
        reveal(Seq::filter);
        assert(texts_view(out@) =~= m.take(0).filter(nonempty));
    }
    while i < ls.len()
        invariant
            i <= ls@.len(),
            texts_view(ls@) == lines(s@),
            m == lines(s@).map_values(|l: Seq<char>| trim(l)),
            nonempty == (|l: Seq<char>| l.len() > 0),
            texts_view(out@) == m.take(i as int).filter(nonempty),
        decreases ls@.len() - i,
    {
        let t = trim_chars(ls[i].as_slice());
        assert(texts_view(ls@)[i as int] == ls@[i as int]@);
        assert(m[i as int] == t@);
        assert(m.take(i + 1) =~= m.take(i as int).push(t@));
        proof {
            m.take(i as int).lemma_filter_push(t@, nonempty);
        }
        let ghost before = texts_view(out@);
        if t.len() > 0 {
            out.push(t);
            assert(texts_view(out@) =~= before.push(m[i as int]));
        }
        i = i + 1;
    }
    assert(m.take(m.len() as int) == m);
    out
}

fn join_with_spaces(parts: &Vec<Vec<char>>) -> (s: String)
    ensures
        s@ == join(texts_view(parts@), " "@),
{
    proof {
        reveal_strlit(" ");
    }
    let mut s = String::new();
    let mut i: usize = 0;
    while i < parts.len()
        invariant
            i <= parts@.len(),
            s@ == join(texts_view(parts@).take(i as int), " "@),
        decreases parts@.len() - i,
    {
        let ghost tv = texts_view(parts@);
        assert(tv.take(i + 1).drop_last() =~= tv.take(i as int));
        assert(tv.take(i + 1).last() == parts@[i as int]@);
        if i > 0 {
            append_str(&mut s, " ");
        }
        let p = string_of(parts[i].as_slice());
        append_str(&mut s, p.as_str());
        proof {
            if i == 0 {
                assert(tv.take(1)[0] == parts@[0]@);
                assert(s@ =~= parts@[0]@);
            }
        }
        i = i + 1;
    }
    assert(texts_view(parts@).take(parts@.len() as int) == texts_view(parts@));
    s
}

/// Terminal text made readable; refused only if one of the two patterns
/// does not compile.
pub fn clean_terminal_output(raw_output: &str) -> (r: Result<String, ConfigError>)
    ensures
        r is Ok <==> (spec_regex_compiles(ANSI_SEQUENCES@) && spec_regex_compiles(
            CONTROL_CHARACTERS@,
        )),
        match r {
            Ok(s) => s@ == spec_clean_terminal_output(raw_output@),
            Err(e) => e == ConfigError::InvalidRegex,
        },
{
    let ansi = match Regex::new(ANSI_SEQUENCES) {
        Ok(re) => re,
        Err(e) => {
            return Err(e);
        },
    };
    let control = match Regex::new(CONTROL_CHARACTERS) {
        Ok(re) => re,
        Err(e) => {
            return Err(e);
        },
    };
    proof {
        assert(""@ =~= Seq::<char>::empty()) by {
            reveal_strlit("");
        }
    }
    let without_ansi = ansi.replace_all(raw_output, "");
    let clean = control.replace_all(without_ansi.as_str(), "");
    let parts = trimmed_nonempty_lines(clean.as_str());
    Ok(join_with_spaces(&parts))
}

/// The view text of the `ht` process's answer: the view of a view answer,
/// the cleaned snapshot text of a snapshot answer; refused when a view
/// answer carries none, when no answer came, or when the cleaning patterns
/// do not compile.
pub fn view_from_response(response: Option<HtResponse>) -> (r: Result<String, HtProcessError>)
    ensures
        match response {
            Some(HtResponse::View { view: Some(v), .. }) => r matches Ok(s) && s@ == v@,
            Some(HtResponse::View { view: None, .. }) => r matches Err(
                HtProcessError::CommunicationError(m),
            ) && m@ == "No view data in response"@,
            Some(HtResponse::Snapshot { data, .. }) => (r is Ok <==> (spec_regex_compiles(
                ANSI_SEQUENCES@,
            ) && spec_regex_compiles(CONTROL_CHARACTERS@))) && match r {
                Ok(s) => s@ == spec_clean_terminal_output(data.seq@),
                Err(e) => e matches HtProcessError::CommunicationError(m) && m@
                    == "Invalid cleaning pattern"@,
            },
            None => r matches Err(HtProcessError::CommunicationError(m)) && m@
                == "No response received"@,
        },
{
    match response {
        Some(HtResponse::View { view, .. }) => match view {
            Some(v) => Ok(v),
            None => Err(HtProcessError::CommunicationError("No view data in response".to_owned())),
        },
        Some(HtResponse::Snapshot { data, .. }) => match clean_terminal_output(data.seq.as_str()) {
            Ok(s) => Ok(s),
            Err(_) => Err(HtProcessError::CommunicationError("Invalid cleaning pattern".to_owned())),
        },
        None => Err(HtProcessError::CommunicationError("No response received".to_owned())),
    }
}

/// Whether a line the `ht` process wrote to its error stream is an ordinary
/// startup notice rather than an error.
pub open spec fn spec_is_startup_notice(line: Seq<char>) -> bool {
    holds(line, "HTTP server listening on"@) || holds(line, "live preview available at"@) || holds(
        line,
        "launching \"/bin/zsh\" in terminal"@,
    )
}

/// Whether an error-stream line of `ht` is a startup notice.
pub fn is_startup_notice(line: &str) -> (b: bool)
    ensures
        b == spec_is_startup_notice(line@),
{
    contains_text(line, "HTTP server listening on") || contains_text(line, "live preview available at")
        || contains_text(line, "launching \"/bin/zsh\" in terminal")
}

} // verus!
