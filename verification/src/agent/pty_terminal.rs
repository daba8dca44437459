//! What a terminal keeps of its own output (the screen it shows and its
//! latest bytes), and how a command line is split into the program and
//! arguments it starts.
use crate::text::{chars_of, is_ws, split_by, string_of, texts_view};
use vstd::prelude::*;

verus! {

/// The size of one read from the terminal.
pub const READ_BUF_SIZE: usize = 4096;

/// Once the kept output grows beyond this many bytes it is cut down.
pub const OUTPUT_LIMIT: usize = 102400;

/// How many of the latest bytes are kept when the output is cut down.
pub const OUTPUT_KEEP: usize = 81920;

/// The words of a text, as `str::split_whitespace` gives them: the pieces
/// between whitespace characters that are not empty.
pub open spec fn words(s: Seq<char>) -> Seq<Seq<char>> {
    split_by(s, |c: char| is_ws(c)).filter(|w: Seq<char>| w.len() > 0)
}

/// The words of a character sequence.
pub fn whitespace_words(s: &[char]) -> (out: Vec<Vec<char>>)
    ensures
        texts_view(out@) == words(s@),
{
    let ghost seps = |c: char| is_ws(c);
    let ghost nonempty = |w: Seq<char>| w.len() > 0;
    let mut out: Vec<Vec<char>> = Vec::new();
    let mut cur: Vec<char> = Vec::new();
    let mut i: usize = 0;
    proof {
        assert(s@.take(0) =~= Seq::<char>::empty());
        assert(split_by(s@.take(0), seps).drop_last() =~= Seq::<Seq<char>>::empty());
        assert(texts_view(out@) =~= Seq::<Seq<char>>::empty());
    }
    while i < s.len()
        invariant
            i <= s@.len(),
            seps == (|c: char| is_ws(c)),
            nonempty == (|w: Seq<char>| w.len() > 0),
            texts_view(out@) == split_by(s@.take(i as int), seps).drop_last().filter(nonempty),
            cur@ == split_by(s@.take(i as int), seps).last(),
        decreases s@.len() - i,
    {
        let c = s[i];
        let ghost t = s@.take(i as int);
        let ghost p = split_by(t, seps);
        proof {
            crate::text::lemma_split_by_nonempty(t, seps);
            assert(s@.take(i + 1).drop_last() == t);
            assert(s@.take(i + 1).last() == c);
        }
        if crate::text::is_whitespace(c) {
            let ghost before = texts_view(out@);
            proof {
                assert(split_by(s@.take(i + 1), seps) == p.push(Seq::<char>::empty()));
                assert(split_by(s@.take(i + 1), seps).drop_last() =~= p);
                assert(p.drop_last().push(p.last()) =~= p);
                p.drop_last().lemma_filter_push(p.last(), nonempty);
            }
            if cur.len() > 0 {
                let done = cur;
                out.push(done);
                assert(texts_view(out@) =~= before.push(done@));
            }
            cur = Vec::new();
            assert(cur@ =~= Seq::<char>::empty());
        } else {
            cur.push(c);
            proof {
                assert(split_by(s@.take(i + 1), seps) == p.update(p.len() - 1, p.last().push(c)));
                assert(split_by(s@.take(i + 1), seps).drop_last() =~= p.drop_last());
            }
        }
        i = i + 1;
    }
    let ghost p = split_by(s@, seps);
    proof {
        assert(s@.take(s@.len() as int) == s@);
        crate::text::lemma_split_by_nonempty(s@, seps);
        assert(p.drop_last().push(p.last()) =~= p);
        p.drop_last().lemma_filter_push(p.last(), nonempty);
    }
    if cur.len() > 0 {
        let ghost before = texts_view(out@);
        let ghost last = cur@;
        out.push(cur);
        assert(texts_view(out@) =~= before.push(last));
    }
    out
}

/// The program and arguments a command line starts: its words.
pub fn command_argv(command: &str) -> (argv: Vec<String>)
    ensures
        argv@.map_values(|a: String| a@) == words(command@),
{
    let cs = chars_of(command);
    let ws = whitespace_words(cs.as_slice());
    let mut argv: Vec<String> = Vec::new();
    let mut i: usize = 0;
    while i < ws.len()
        invariant
            i <= ws@.len(),
            argv@.map_values(|a: String| a@) == texts_view(ws@).take(i as int),
        decreases ws@.len() - i,
    {
        let ghost before = argv@.map_values(|a: String| a@);
        let w = string_of(ws[i].as_slice());
        assert(texts_view(ws@)[i as int] == ws@[i as int]@);
        argv.push(w);
        assert(argv@.map_values(|a: String| a@) =~= before.push(w@));
        assert(before.push(w@) =~= texts_view(ws@).take(i + 1));
        i = i + 1;
    }
    assert(texts_view(ws@).take(ws@.len() as int) == texts_view(ws@));
    argv
}

/// The output kept after `data` arrives: everything, unless that is more
/// than the limit, in which case only the latest `OUTPUT_KEEP` bytes.
pub open spec fn spec_keep_output(kept: Seq<u8>, data: Seq<u8>) -> Seq<u8> {
    let all = kept + data;
    if all.len() > OUTPUT_LIMIT {
        all.subrange(all.len() - OUTPUT_KEEP, all.len() as int)
    } else {
        all
    }
}

/// The latest output of a terminal, kept for viewers that join later.
pub struct OutputBuffer {
    bytes: Vec<u8>,
}

impl View for OutputBuffer {
    type V = Seq<u8>;

    closed spec fn view(&self) -> Seq<u8> {
        self.bytes@
    }
}

impl OutputBuffer {
    #[verifier::type_invariant]
    spec fn within_limit(self) -> bool {
        self.bytes@.len() <= OUTPUT_LIMIT
    }

    /// An empty buffer.
    pub fn new() -> (b: OutputBuffer)
        ensures
            b@ == Seq::<u8>::empty(),
    {
        OutputBuffer { bytes: Vec::new() }
    }

    /// Adds what the terminal printed, cutting the buffer down to its latest
    /// bytes when it grows beyond the limit.
    pub fn append(&mut self, data: &[u8])
        ensures
            final(self)@ == spec_keep_output(old(self)@, data@),
            final(self)@.len() <= OUTPUT_LIMIT,
    {
        proof {
            use_type_invariant(&*self);
        }
        let mut all: Vec<u8> = Vec::new();
        std::mem::swap(&mut all, &mut self.bytes);
        let ghost before = all@;
        let mut i: usize = 0;
        while i < data.len()
            invariant
                i <= data@.len(),
                all@ == before + data@.take(i as int),
            decreases data@.len() - i,
        {
            all.push(data[i]);
            assert(all@ =~= before + data@.take(i + 1));
            i = i + 1;
        }
        assert(data@.take(data@.len() as int) == data@);
        if all.len() > OUTPUT_LIMIT {
            let start = all.len() - OUTPUT_KEEP;
            let tail = all.split_off(start);
            self.bytes = tail;
        } else {
            self.bytes = all;
        }
    }

    /// A copy of the kept output.
    pub fn contents(&self) -> (v: Vec<u8>)
        ensures
            v@ == self@,
    {
        let mut v: Vec<u8> = Vec::new();
        let mut i: usize = 0;
        while i < self.bytes.len()
            invariant
                i <= self.bytes@.len(),
                v@ == self.bytes@.take(i as int),
            decreases self.bytes@.len() - i,
        {
            v.push(self.bytes[i]);
            assert(v@ =~= self.bytes@.take(i + 1));
            i = i + 1;
        }
        assert(self.bytes@.take(self.bytes@.len() as int) == self.bytes@);
        v
    }
}

/// The kept output is the end of everything the terminal printed: if the
/// buffer ends what was printed before, it still ends it once more arrives,
/// it never exceeds the limit, and it holds at least the latest
/// `OUTPUT_KEEP` bytes, or everything when less was printed.
pub proof fn law_output_buffer_keeps_latest(printed: Seq<u8>, kept: Seq<u8>, data: Seq<u8>)
    requires
        kept.len() <= printed.len(),
        printed.subrange(printed.len() - kept.len(), printed.len() as int) == kept,
        kept.len() >= OUTPUT_KEEP || kept == printed,
    ensures
        ({
            let after = spec_keep_output(kept, data);
            let all = printed + data;
            &&& after.len() <= all.len()
            &&& all.subrange(all.len() - after.len(), all.len() as int) == after
            &&& after.len() <= OUTPUT_LIMIT
            &&& (after.len() >= OUTPUT_KEEP || after == all)
        }),
{
    let after = spec_keep_output(kept, data);
    let all = printed + data;
    let k = kept + data;
    assert(all.subrange(all.len() - k.len(), all.len() as int) =~= k);
    if k.len() > OUTPUT_LIMIT {
        assert(all.subrange(all.len() - after.len(), all.len() as int) =~= after);
    } else {
        if kept == printed {
            assert(k =~= all);
        }
    }
}

/// A screen kept by the terminal emulator `vt100::Parser`. Its state is
/// seen only through `screen_log`.
#[verifier::external_body]
pub struct Screen {
    parser: vt100::Parser,
}

/// What a screen has been given since it was made.
pub enum ScreenEvent {
    /// Bytes the program printed.
    Input(Seq<u8>),
    /// A change of size to the given rows and columns.
    Resize(u16, u16),
}

/// What a screen was made with and given since: its rows, its columns, its
/// scrollback capacity, and its events in order. A screen's state is fixed
/// by these.
pub uninterp spec fn screen_log(s: Screen) -> (u16, u16, usize, Seq<ScreenEvent>);

/// The text that `vt100::Screen::contents` gives for a screen made with the
/// given rows, columns and scrollback capacity and then given `events`.
pub uninterp spec fn vt100_text(rows: u16, cols: u16, scrollback: usize, events: Seq<ScreenEvent>) -> Seq<char>;

/// The text a screen with this log shows.
pub open spec fn screen_text_of(log: (u16, u16, usize, Seq<ScreenEvent>)) -> Seq<char> {
    vt100_text(log.0, log.1, log.2, log.3)
}

/// `vt100::Parser::new`: a screen of the given size and scrollback capacity
/// that has been given nothing yet.
#[verifier::external_body]
fn screen_new(rows: u16, cols: u16, scrollback: usize) -> (p: Screen)
    requires
        rows > 0,
        cols > 0,
    ensures
        screen_log(p) == (rows, cols, scrollback, Seq::<ScreenEvent>::empty()),
{
    let r = std::num::NonZeroU16::new(rows).unwrap();
    let c = std::num::NonZeroU16::new(cols).unwrap();
    Screen { parser: vt100::Parser::new(r, c, scrollback) }
}

/// `vt100::Parser::process`: the screen takes in the bytes.
#[verifier::external_body]
fn screen_process(p: &mut Screen, bytes: &[u8])
    ensures
        screen_log(*final(p)) == (
            screen_log(*old(p)).0,
            screen_log(*old(p)).1,
            screen_log(*old(p)).2,
            screen_log(*old(p)).3.push(ScreenEvent::Input(bytes@)),
        ),
{
    p.parser.process(bytes);
}

/// `vt100::Parser::set_size`: the screen changes to the given size.
#[verifier::external_body]
fn screen_set_size(p: &mut Screen, rows: u16, cols: u16)
    requires
        rows > 0,
        cols > 0,
    ensures
        screen_log(*final(p)) == (
            screen_log(*old(p)).0,
            screen_log(*old(p)).1,
            screen_log(*old(p)).2,
            screen_log(*old(p)).3.push(ScreenEvent::Resize(rows, cols)),
        ),
{
    let r = std::num::NonZeroU16::new(rows).unwrap();
    let c = std::num::NonZeroU16::new(cols).unwrap();
    p.parser.set_size(r, c);
}

/// `vt100::Screen::contents`: the text the screen shows.
#[verifier::external_body]
fn screen_text(p: &Screen) -> (t: String)
    ensures
        t@ == vt100_text(screen_log(*p).0, screen_log(*p).1, screen_log(*p).2, screen_log(*p).3),
{
    p.parser.screen().contents()
}

/// What a terminal keeps of its output: the screen it shows and the latest
/// bytes it printed.
pub struct TerminalState {
    screen: Screen,
    output: OutputBuffer,
}

impl TerminalState {
    /// What the screen of this terminal was made with and given since.
    pub closed spec fn log(&self) -> (u16, u16, usize, Seq<ScreenEvent>) {
        screen_log(self.screen)
    }

    /// The latest bytes this terminal printed.
    pub closed spec fn kept(&self) -> Seq<u8> {
        self.output@
    }

    /// A terminal of `cols` columns and `rows` rows, without scrollback, that
    /// has printed nothing.
    pub fn new(cols: u16, rows: u16) -> (t: TerminalState)
        requires
            cols > 0,
            rows > 0,
        ensures
            t.log() == (rows, cols, 0usize, Seq::<ScreenEvent>::empty()),
            t.kept() == Seq::<u8>::empty(),
    {
        TerminalState { screen: screen_new(rows, cols, 0), output: OutputBuffer::new() }
    }

    /// Takes in what the terminal printed: the screen processes it and the
    /// kept output grows by it, cut down to its latest bytes past the limit.
    pub fn on_output(&mut self, data: &[u8])
        ensures
            final(self).log() == (
                old(self).log().0,
                old(self).log().1,
                old(self).log().2,
                old(self).log().3.push(ScreenEvent::Input(data@)),
            ),
            final(self).kept() == spec_keep_output(old(self).kept(), data@),
    {
        screen_process(&mut self.screen, data);
        self.output.append(data);
    }

    /// The terminal changes to `cols` columns and `rows` rows; the kept
    /// output stays as it is.
    pub fn resize(&mut self, cols: u16, rows: u16)
        requires
            cols > 0,
            rows > 0,
        ensures
            final(self).log() == (
                old(self).log().0,
                old(self).log().1,
                old(self).log().2,
                old(self).log().3.push(ScreenEvent::Resize(rows, cols)),
            ),
            final(self).kept() == old(self).kept(),
    {
        screen_set_size(&mut self.screen, rows, cols);
    }

    /// The text the screen shows.
    pub fn screen_contents(&self) -> (t: String)
        ensures
            t@ == screen_text_of(self.log()),
    {
        screen_text(&self.screen)
    }

    /// A copy of the latest bytes the terminal printed.
    pub fn accumulated_output(&self) -> (v: Vec<u8>)
        ensures
            v@ == self.kept(),
    {
        self.output.contents()
    }
}

} // verus!
