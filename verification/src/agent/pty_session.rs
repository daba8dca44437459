//! The commands a terminal session accepts, the events it sends, and the
//! encoding of key names into the bytes a terminal reads.
use crate::text::{chars_of, str_eq};
use vstd::prelude::*;
use vstd::utf8::encode_utf8;

verus! {

/// A command sent to a terminal session.
#[derive(Debug, Clone)]
pub enum PtyCommand {
    /// Raw text typed into the terminal.
    Input { payload: String },
    /// Named keys, each encoded before it is written.
    SendKeys { keys: Vec<String> },
    /// A new size of the terminal.
    Resize { cols: usize, rows: usize },
}

/// What an event of a terminal session carries.
#[derive(Debug, Clone)]
pub enum PtyEventData {
    /// The terminal's size and contents when a viewer joins.
    Init { cols: usize, rows: usize, initial_data: String, initial_seq: String },
    /// Output of the terminal.
    Output { data: String },
    /// The terminal was resized.
    Resize { cols: usize, rows: usize },
}

/// The control code of a letter: `a` and `A` give 1, `z` and `Z` give 26.
pub open spec fn ctrl_letter(ch: char) -> Option<u8> {
    if 'a' <= ch && ch <= 'z' {
        Some((ch as int - 'a' as int + 1) as u8)
    } else if 'A' <= ch && ch <= 'Z' {
        Some((ch as int - 'A' as int + 1) as u8)
    } else {
        None
    }
}

/// The control code a key written `C-x` or `^x` stands for, where `x` is the
/// character right after the prefix and is a letter.
pub open spec fn spec_ctrl_key(key: Seq<char>) -> Option<u8> {
    if key.len() >= 2 && key[0] == 'C' && key[1] == '-' {
        if key.len() > 2 {
            ctrl_letter(key[2])
        } else {
            None
        }
    } else if key.len() >= 1 && key[0] == '^' {
        if key.len() > 1 {
            ctrl_letter(key[1])
        } else {
            None
        }
    } else {
        None
    }
}

fn letter_code(ch: char) -> (r: Option<u8>)
    ensures
        r == ctrl_letter(ch),
{
    if 'a' <= ch && ch <= 'z' {
        let n: u32 = ch as u32;
        Some((n - 96) as u8)
    } else if 'A' <= ch && ch <= 'Z' {
        let n: u32 = ch as u32;
        Some((n - 64) as u8)
    } else {
        None
    }
}

/// The control code of a key written `C-x` or `^x` with `x` a letter, such
/// as 3 for `C-c` and 1 for `^A`.
pub fn parse_ctrl_key(key: &str) -> (r: Option<u8>)
    ensures
        r == spec_ctrl_key(key@),
{
    let k = chars_of(key);
    if k.len() >= 2 && k[0] == 'C' && k[1] == '-' {
        if k.len() > 2 {
            letter_code(k[2])
        } else {
            None
        }
    } else if k.len() >= 1 && k[0] == '^' {
        if k.len() > 1 {
            letter_code(k[1])
        } else {
            None
        }
    } else {
        None
    }
}

/// The bytes of the keys that have a name of their own: control punctuation,
/// editing and cursor keys, and the function keys.
pub open spec fn named_key(key: Seq<char>) -> Option<Seq<u8>> {
    if key == "C-@"@ || key == "C-Space"@ || key == "^@"@ {
        Some(seq![0x00u8])
    } else if key == "C-["@ || key == "Escape"@ || key == "^["@ {
        Some(seq![0x1bu8])
    } else if key == "C-\\"@ || key == "^\\"@ {
        Some(seq![0x1cu8])
    } else if key == "C-]"@ || key == "^]"@ {
        Some(seq![0x1du8])
    } else if key == "C-^"@ || key == "C-/"@ {
        Some(seq![0x1eu8])
    } else if key == "C--"@ || key == "C-_"@ {
        Some(seq![0x1fu8])
    } else if key == "Tab"@ {
        Some(seq![0x09u8])
    } else if key == "Enter"@ {
        Some(seq![0x0du8])
    } else if key == "Space"@ {
        Some(seq![0x20u8])
    } else if key == "Left"@ {
        Some(seq![0x1bu8, 0x5b, 0x44])
    } else if key == "Right"@ {
        Some(seq![0x1bu8, 0x5b, 0x43])
    } else if key == "Up"@ {
        Some(seq![0x1bu8, 0x5b, 0x41])
    } else if key == "Down"@ {
        Some(seq![0x1bu8, 0x5b, 0x42])
    } else if key == "C-Left"@ {
        Some(seq![0x1bu8, 0x5b, 0x31, 0x3b, 0x35, 0x44])
    } else if key == "C-Right"@ {
        Some(seq![0x1bu8, 0x5b, 0x31, 0x3b, 0x35, 0x43])
    } else if key == "C-Up"@ {
        Some(seq![0x1bu8, 0x5b, 0x31, 0x3b, 0x35, 0x41])
    } else if key == "C-Down"@ {
        Some(seq![0x1bu8, 0x5b, 0x31, 0x3b, 0x35, 0x42])
    } else if key == "Home"@ {
        Some(seq![0x1bu8, 0x5b, 0x48])
    } else if key == "End"@ {
        Some(seq![0x1bu8, 0x5b, 0x46])
    } else if key == "PageUp"@ {
        Some(seq![0x1bu8, 0x5b, 0x35, 0x7e])
    } else if key == "PageDown"@ {
        Some(seq![0x1bu8, 0x5b, 0x36, 0x7e])
    } else if key == "Insert"@ {
        Some(seq![0x1bu8, 0x5b, 0x32, 0x7e])
    } else if key == "Delete"@ {
        Some(seq![0x1bu8, 0x5b, 0x33, 0x7e])
    } else if key == "F1"@ {
        Some(seq![0x1bu8, 0x4f, 0x50])
    } else if key == "F2"@ {
        Some(seq![0x1bu8, 0x4f, 0x51])
    } else if key == "F3"@ {
        Some(seq![0x1bu8, 0x4f, 0x52])
    } else if key == "F4"@ {
        Some(seq![0x1bu8, 0x4f, 0x53])
    } else if key == "F5"@ {
        Some(seq![0x1bu8, 0x5b, 0x31, 0x35, 0x7e])
    } else if key == "F6"@ {
        Some(seq![0x1bu8, 0x5b, 0x31, 0x37, 0x7e])
    } else if key == "F7"@ {
        Some(seq![0x1bu8, 0x5b, 0x31, 0x38, 0x7e])
    } else if key == "F8"@ {
        Some(seq![0x1bu8, 0x5b, 0x31, 0x39, 0x7e])
    } else if key == "F9"@ {
        Some(seq![0x1bu8, 0x5b, 0x32, 0x30, 0x7e])
    } else if key == "F10"@ {
        Some(seq![0x1bu8, 0x5b, 0x32, 0x31, 0x7e])
    } else if key == "F11"@ {
        Some(seq![0x1bu8, 0x5b, 0x32, 0x33, 0x7e])
    } else if key == "F12"@ {
        Some(seq![0x1bu8, 0x5b, 0x32, 0x34, 0x7e])
    } else {
        None
    }
}

/// The bytes written for a key: its named sequence, else its control code,
/// else the key's own text in UTF-8.
pub open spec fn spec_parse_key(key: Seq<char>) -> Seq<u8> {
    match named_key(key) {
        Some(b) => b,
        None => match spec_ctrl_key(key) {
            Some(c) => seq![c],
            None => encode_utf8(key),
        },
    }
}

fn named_key_bytes(key: &str) -> (r: Option<Vec<u8>>)
    ensures
        match r {
            Some(v) => named_key(key@) == Some(v@),
            None => named_key(key@) is None,
        },
{
    if str_eq(key, "C-@") || str_eq(key, "C-Space") || str_eq(key, "^@") {
        Some(vec![0x00u8])
    } else if str_eq(key, "C-[") || str_eq(key, "Escape") || str_eq(key, "^[") {
        Some(vec![0x1bu8])
    } else if str_eq(key, "C-\\") || str_eq(key, "^\\") {
        Some(vec![0x1cu8])
    } else if str_eq(key, "C-]") || str_eq(key, "^]") {
        Some(vec![0x1du8])
    } else if str_eq(key, "C-^") || str_eq(key, "C-/") {
        Some(vec![0x1eu8])
    } else if str_eq(key, "C--") || str_eq(key, "C-_") {
        Some(vec![0x1fu8])
    } else if str_eq(key, "Tab") {
        Some(vec![0x09u8])
    } else if str_eq(key, "Enter") {
        Some(vec![0x0du8])
    } else if str_eq(key, "Space") {
        Some(vec![0x20u8])
    } else if str_eq(key, "Left") {
        Some(vec![0x1bu8, 0x5b, 0x44])
    } else if str_eq(key, "Right") {
        Some(vec![0x1bu8, 0x5b, 0x43])
    } else if str_eq(key, "Up") {
        Some(vec![0x1bu8, 0x5b, 0x41])
    } else if str_eq(key, "Down") {
        Some(vec![0x1bu8, 0x5b, 0x42])
    } else if str_eq(key, "C-Left") {
        Some(vec![0x1bu8, 0x5b, 0x31, 0x3b, 0x35, 0x44])
    } else if str_eq(key, "C-Right") {
        Some(vec![0x1bu8, 0x5b, 0x31, 0x3b, 0x35, 0x43])
    } else if str_eq(key, "C-Up") {
        Some(vec![0x1bu8, 0x5b, 0x31, 0x3b, 0x35, 0x41])
    } else if str_eq(key, "C-Down") {
        Some(vec![0x1bu8, 0x5b, 0x31, 0x3b, 0x35, 0x42])
    } else if str_eq(key, "Home") {
        Some(vec![0x1bu8, 0x5b, 0x48])
    } else if str_eq(key, "End") {
        Some(vec![0x1bu8, 0x5b, 0x46])
    } else if str_eq(key, "PageUp") {
        Some(vec![0x1bu8, 0x5b, 0x35, 0x7e])
    } else if str_eq(key, "PageDown") {
        Some(vec![0x1bu8, 0x5b, 0x36, 0x7e])
    } else if str_eq(key, "Insert") {
        Some(vec![0x1bu8, 0x5b, 0x32, 0x7e])
    } else if str_eq(key, "Delete") {
        Some(vec![0x1bu8, 0x5b, 0x33, 0x7e])
    } else if str_eq(key, "F1") {
        Some(vec![0x1bu8, 0x4f, 0x50])
    } else if str_eq(key, "F2") {
        Some(vec![0x1bu8, 0x4f, 0x51])
    } else if str_eq(key, "F3") {
        Some(vec![0x1bu8, 0x4f, 0x52])
    } else if str_eq(key, "F4") {
        Some(vec![0x1bu8, 0x4f, 0x53])
    } else if str_eq(key, "F5") {
        Some(vec![0x1bu8, 0x5b, 0x31, 0x35, 0x7e])
    } else if str_eq(key, "F6") {
        Some(vec![0x1bu8, 0x5b, 0x31, 0x37, 0x7e])
    } else if str_eq(key, "F7") {
        Some(vec![0x1bu8, 0x5b, 0x31, 0x38, 0x7e])
    } else if str_eq(key, "F8") {
        Some(vec![0x1bu8, 0x5b, 0x31, 0x39, 0x7e])
    } else if str_eq(key, "F9") {
        Some(vec![0x1bu8, 0x5b, 0x32, 0x30, 0x7e])
    } else if str_eq(key, "F10") {
        Some(vec![0x1bu8, 0x5b, 0x32, 0x31, 0x7e])
    } else if str_eq(key, "F11") {
        Some(vec![0x1bu8, 0x5b, 0x32, 0x33, 0x7e])
    } else if str_eq(key, "F12") {
        Some(vec![0x1bu8, 0x5b, 0x32, 0x34, 0x7e])
    } else {
        None
    }
}

/// The bytes a terminal reads for a key name: `Enter` is a carriage return,
/// `Up` is `ESC [ A`, `C-c` is 3, and any other text stands for itself.
pub fn parse_key(key: &str) -> (bytes: Vec<u8>)
    ensures
        bytes@ == spec_parse_key(key@),
{
    match named_key_bytes(key) {
        Some(b) => b,
        None => match parse_ctrl_key(key) {
            Some(c) => vec![c],
            None => key.as_bytes_vec(),
        },
    }
}

/// The byte strings a command writes to the terminal, in order: the
/// payload's UTF-8 for input, one encoding per key for keys, and none for a
/// resize, which changes the terminal's size instead.
pub open spec fn spec_command_writes(command: PtyCommand) -> Seq<Seq<u8>> {
    match command {
        PtyCommand::Input { payload } => seq![encode_utf8(payload@)],
        PtyCommand::SendKeys { keys } => keys@.map_values(|k: String| spec_parse_key(k@)),
        PtyCommand::Resize { .. } => Seq::empty(),
    }
}

/// What a command writes to the terminal, as `spec_command_writes` says.
pub fn command_writes(command: &PtyCommand) -> (writes: Vec<Vec<u8>>)
    ensures
        writes@.map_values(|v: Vec<u8>| v@) == spec_command_writes(*command),
{
    let mut writes: Vec<Vec<u8>> = Vec::new();
    match command {
        PtyCommand::Input { payload } => {
            writes.push(payload.as_str().as_bytes_vec());
            assert(writes@.map_values(|v: Vec<u8>| v@) =~= spec_command_writes(*command));
        },
        PtyCommand::SendKeys { keys } => {
            let ghost want = keys@.map_values(|k: String| spec_parse_key(k@));
            let mut i: usize = 0;
            while i < keys.len()
                invariant
                    i <= keys@.len(),
                    want == keys@.map_values(|k: String| spec_parse_key(k@)),
                    writes@.map_values(|v: Vec<u8>| v@) == want.take(i as int),
                decreases keys@.len() - i,
            {
                let b = parse_key(keys[i].as_str());
                writes.push(b);
                assert(want.take(i + 1) == want.take(i as int).push(want[i as int]));
                assert(writes@.map_values(|v: Vec<u8>| v@) =~= want.take(i + 1));
                i = i + 1;
            }
            assert(want.take(keys@.len() as int) == want);
        },
        PtyCommand::Resize { .. } => {
            assert(writes@.map_values(|v: Vec<u8>| v@) =~= spec_command_writes(*command));
        },
    }
    writes
}

/// A control key does not depend on the letter's case, and its code is
/// one of the 26 control codes of the letters.
pub proof fn law_ctrl_keys_ignore_case(c: char)
    requires
        'a' <= c && c <= 'z',
    ensures
        ctrl_letter(c) == ctrl_letter(((c as u32) - 32) as char),
        ctrl_letter(c) matches Some(code) && 1 <= code <= 26,
{
}

} // verus!
