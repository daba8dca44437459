//! The queue manager kept for its interface, where its state is stored, and
//! how a command whose output fills a queue is split into a program and its
//! arguments.
use crate::agent::pty_terminal::{command_argv, words};
use vstd::prelude::*;

verus! {

/// The queue manager; sources are now processed directly, so it holds nothing.
#[derive(Debug, Clone, Copy, PartialEq, Eq, Default)]
pub struct QueueManager;

impl QueueManager {
    /// A queue manager.
    pub fn new() -> (m: QueueManager)
        ensures
            m == QueueManager,
    {
        QueueManager
    }
}

/// Where the queue state is stored: a file path.
#[derive(Debug, Clone)]
pub struct QueueStorage {
    file_path: String,
}

impl View for QueueStorage {
    type V = Seq<char>;

    closed spec fn view(&self) -> Seq<char> {
        self.file_path@
    }
}

impl QueueStorage {
    /// Storage in the given file.
    pub fn new(file_path: &str) -> (s: QueueStorage)
        ensures
            s@ == file_path@,
    {
        QueueStorage { file_path: file_path.to_owned() }
    }

    /// The storage file's path.
    pub fn file_path(&self) -> (p: &str)
        ensures
            p@ == self@,
    {
        self.file_path.as_str()
    }
}

/// The program and arguments that running `command` for a queue starts: its
/// first word and the words after it; a command with no words is refused
/// with "Empty command".
pub fn command_invocation(command: &str) -> (r: Result<(String, Vec<String>), String>)
    ensures
        words(command@).len() == 0 ==> (r matches Err(m) && m@ == "Empty command"@),
        words(command@).len() > 0 ==> (r matches Ok((program, args)) && program@ == words(command@)[0]
            && args@.map_values(|a: String| a@) == words(command@).drop_first()),
{
    let mut argv = command_argv(command);
    if argv.len() == 0 {
        return Err("Empty command".to_owned());
    }
    let ghost all = argv@.map_values(|a: String| a@);
    let program = argv.remove(0);
    assert(argv@.map_values(|a: String| a@) =~= all.drop_first());
    Ok((program, argv))
}

} // verus!
