//! Line-oriented copying: numbering modes, options, input kinds, and the
//! renderers that copy one line of a buffer, optionally showing tabs and
//! non-printing bytes.
use vstd::prelude::*;
use crate::entry::FileKind;
use crate::text::{dec_text, decimal, pad_chars, right_aligned};

verus! {

/// Which lines get a number.
#[derive(PartialEq, Eq, Structural, Clone, Copy, Debug)]
pub enum NumMode {
    NumNull,
    NumNonEmpty,
    NumAll,
}

/// Output options.
#[derive(PartialEq, Debug)]
pub struct Options {
    /// Line numbering mode.
    pub number: NumMode,
    /// Compress repeated empty lines.
    pub squeeze_blank: bool,
    /// Show tab characters.
    pub show_tabs: bool,
    /// Text shown for a tab when non-printing bytes are shown.
    pub tab: String,
    /// Text written at the end of each line.
    pub end_of_line: String,
    /// Use `^` and `M-` notation.
    pub show_nonprint: bool,
}

/// Recognised kinds of input.
#[derive(PartialEq, Eq, Structural, Clone, Copy, Debug)]
pub enum Type {
    Directory,
    File,
    Stdin,
    SymLink,
    BlockDevice,
    CharDevice,
    Fifo,
    Socket,
}

/// The kind of input a path names, from its metadata kind; `None` for a kind
/// that cannot be read from.
pub open spec fn kind_type(kind: FileKind) -> Option<Type> {
    match kind {
        FileKind::BlockDevice => Some(Type::BlockDevice),
        FileKind::CharDevice => Some(Type::CharDevice),
        FileKind::Fifo => Some(Type::Fifo),
        FileKind::Socket => Some(Type::Socket),
        FileKind::Directory => Some(Type::Directory),
        FileKind::Regular => Some(Type::File),
        FileKind::Symlink => Some(Type::SymLink),
        FileKind::Other => None,
    }
}

/// The input type of a path whose metadata kind is `kind`; `-` is standard
/// input whatever the kind.
pub fn input_type(path: &str, kind: FileKind) -> (r: Option<Type>)
    ensures
        r == if path@ == seq!['-'] {
            Some(Type::Stdin)
        } else {
            kind_type(kind)
        },
{
    let p = crate::text::chars_of(path);
    if p.len() == 1 && p[0] == '-' {
        assert(p@ =~= seq!['-']);
        return Some(Type::Stdin);
    }
    assert(path@ != seq!['-']) by {
        if path@ == seq!['-'] {
            assert(p@.len() == 1 && p@[0] == '-');
        }
    }
    match kind {
        FileKind::BlockDevice => Some(Type::BlockDevice),
        FileKind::CharDevice => Some(Type::CharDevice),
        FileKind::Fifo => Some(Type::Fifo),
        FileKind::Socket => Some(Type::Socket),
        FileKind::Directory => Some(Type::Directory),
        FileKind::Regular => Some(Type::File),
        FileKind::Symlink => Some(Type::SymLink),
        FileKind::Other => None,
    }
}

/// The numbering state carried from one input to the next.
pub struct OutputState {
    /// The number of the next numbered line.
    pub line_number: usize,
    /// Whether output is at the start of a line.
    pub at_line_start: bool,
}

impl OutputState {
    /// The state before any output: line one, at a line start.
    pub fn new() -> (s: OutputState)
        ensures
            s.line_number == 1,
            s.at_line_start,
    {
        OutputState { line_number: 1, at_line_start: true }
    }
}

/// Index of the first newline in `s`.
pub open spec fn first_newline(s: Seq<u8>) -> Option<int>
    decreases s.len(),
{
    if s.len() == 0 {
        None
    } else if s[0] == 10 {
        Some(0)
    } else {
        match first_newline(s.drop_first()) {
            Some(i) => Some(i + 1),
            None => None,
        }
    }
}

/// The part of `s` before its first newline, or all of `s`.
pub open spec fn line_part(s: Seq<u8>) -> Seq<u8> {
    match first_newline(s) {
        Some(p) => s.take(p),
        None => s,
    }
}

/// What the renderers return: the bytes consumed through the newline, or 0
/// when the buffer holds no newline.
pub open spec fn consumed(s: Seq<u8>) -> int {
    match first_newline(s) {
        Some(p) => p + 1,
        None => 0,
    }
}

pub proof fn lemma_first_newline(s: Seq<u8>)
    ensures
        match first_newline(s) {
            Some(p) => 0 <= p < s.len() && s[p] == 10 && forall|j: int| 0 <= j < p ==> s[j] != 10,
            None => forall|j: int| 0 <= j < s.len() ==> s[j] != 10,
        },
    decreases s.len(),
{
    if s.len() > 0 && s[0] != 10 {
        lemma_first_newline(s.drop_first());
        assert(forall|j: int| 1 <= j < s.len() ==> s[j] == s.drop_first()[j - 1]);
    }
}

proof fn lemma_first_newline_at(s: Seq<u8>, p: int)
    requires
        0 <= p <= s.len(),
        forall|j: int| 0 <= j < p ==> s[j] != 10,
    ensures
        p < s.len() && s[p] == 10 ==> first_newline(s) == Some(p),
        p == s.len() ==> first_newline(s) is None,
    decreases p,
{
    if p > 0 {
        lemma_first_newline_at(s.drop_first(), p - 1);
    }
}

/// Finds the first newline of `buf` at or after `from`.
fn scan_newline(buf: &[u8]) -> (r: Option<usize>)
    ensures
        match first_newline(buf@) {
            Some(p) => r == Some(p as usize),
            None => r is None,
        },
{
    let mut i: usize = 0;
    while i < buf.len()
        invariant
            i <= buf@.len(),
            forall|j: int| 0 <= j < i ==> buf@[j] != 10,
        decreases buf.len() - i,
    {
        if buf[i] == 10 {
            proof {
                lemma_first_newline_at(buf@, i as int);
            }
            return Some(i);
        }
        i += 1;
    }
    proof {
        lemma_first_newline_at(buf@, i as int);
    }
    None
}

fn push_range(writer: &mut Vec<u8>, buf: &[u8], n: usize)
    requires
        n <= buf@.len(),
    ensures
        final(writer)@ == old(writer)@ + buf@.take(n as int),
{
    let mut i: usize = 0;
    while i < n
        invariant
            i <= n <= buf@.len(),
            writer@ == old(writer)@ + buf@.take(i as int),
        decreases n - i,
    {
        writer.push(buf[i]);
        assert(buf@.take(i + 1) == buf@.take(i as int).push(buf@[i as int]));
        i += 1;
    }
}

/// Writes the bytes of `in_buf` up to its first newline (or all of them) and
/// returns the number of bytes consumed including the newline, or 0 when
/// there is none.
pub fn write_to_end(in_buf: &[u8], writer: &mut Vec<u8>) -> (r: usize)
    ensures
        final(writer)@ == old(writer)@ + line_part(in_buf@),
        r as int == consumed(in_buf@),
{
    let len = in_buf.len();
    assert(in_buf@.len() == len);
    proof {
        lemma_first_newline(in_buf@);
    }
    match scan_newline(in_buf) {
        Some(p) => {
            push_range(writer, in_buf, p);
            p + 1
        },
        None => {
            push_range(writer, in_buf, in_buf.len());
            assert(in_buf@.take(in_buf@.len() as int) == in_buf@);
            0
        },
    }
}

/// `s` with each tab shown as `^I`.
pub open spec fn tabs_shown(s: Seq<u8>) -> Seq<u8>
    decreases s.len(),
{
    if s.len() == 0 {
        Seq::empty()
    } else {
        let prev = tabs_shown(s.drop_last());
        if s.last() == 9 {
            prev + seq![94u8, 73u8]
        } else {
            prev.push(s.last())
        }
    }
}

/// Like `write_to_end`, showing each tab as `^I`.
pub fn write_tab_to_end(in_buf: &[u8], writer: &mut Vec<u8>) -> (r: usize)
    ensures
        final(writer)@ == old(writer)@ + tabs_shown(line_part(in_buf@)),
        r as int == consumed(in_buf@),
{
    let len = in_buf.len();
    assert(in_buf@.len() == len);
    proof {
        lemma_first_newline(in_buf@);
    }
    let end = scan_newline(in_buf);
    let n = match end {
        Some(p) => p,
        None => in_buf.len(),
    };
    assert(in_buf@.take(in_buf@.len() as int) == in_buf@);
    assert(line_part(in_buf@) == in_buf@.take(n as int));
    let mut i: usize = 0;
    while i < n
        invariant
            i <= n <= in_buf@.len(),
            writer@ == old(writer)@ + tabs_shown(in_buf@.take(i as int)),
        decreases n - i,
    {
        assert(in_buf@.take(i + 1).drop_last() == in_buf@.take(i as int));
        if in_buf[i] == 9 {
            writer.push(94);
            writer.push(73);
            assert(writer@ =~= old(writer)@ + tabs_shown(in_buf@.take(i + 1)));
        } else {
            writer.push(in_buf[i]);
            assert(writer@ =~= old(writer)@ + tabs_shown(in_buf@.take(i + 1)));
        }
        i += 1;
    }
    match end {
        Some(p) => p + 1,
        None => 0,
    }
}

/// The `^` and `M-` notation of one byte; a tab shows as `tab`.
pub open spec fn nonprint(b: u8, tab: Seq<u8>) -> Seq<u8> {
    if b == 9 {
        tab
    } else if b <= 31 {
        seq![94u8, (b + 64) as u8]
    } else if b <= 126 {
        seq![b]
    } else if b == 127 {
        seq![94u8, 63u8]
    } else if b <= 159 {
        seq![77u8, 45u8, 94u8, (b - 64) as u8]
    } else if b <= 254 {
        seq![77u8, 45u8, (b - 128) as u8]
    } else {
        seq![77u8, 45u8, 94u8, 63u8]
    }
}

/// `s` in `^` and `M-` notation.
pub open spec fn nonprint_shown(s: Seq<u8>, tab: Seq<u8>) -> Seq<u8>
    decreases s.len(),
{
    if s.len() == 0 {
        Seq::empty()
    } else {
        nonprint_shown(s.drop_last(), tab) + nonprint(s.last(), tab)
    }
}

fn push_nonprint(writer: &mut Vec<u8>, b: u8, tab: &[u8])
    ensures
        final(writer)@ == old(writer)@ + nonprint(b, tab@),
{
    if b == 9 {
        push_range(writer, tab, tab.len());
        assert(tab@.take(tab@.len() as int) == tab@);
    } else if b <= 31 {
        writer.push(94);
        writer.push(b + 64);
    } else if b <= 126 {
        writer.push(b);
    } else if b == 127 {
        writer.push(94);
        writer.push(63);
    } else if b <= 159 {
        writer.push(77);
        writer.push(45);
        writer.push(94);
        writer.push(b - 64);
    } else if b <= 254 {
        writer.push(77);
        writer.push(45);
        writer.push(b - 128);
    } else {
        writer.push(77);
        writer.push(45);
        writer.push(94);
        writer.push(63);
    }
    assert(writer@ =~= old(writer)@ + nonprint(b, tab@));
}

/// Like `write_to_end`, showing control bytes as `^X`, DEL as `^?`, bytes
/// above 127 with `M-`, and tabs as `tab`.
pub fn write_nonprint_to_end(in_buf: &[u8], writer: &mut Vec<u8>, tab: &[u8]) -> (r: usize)
    ensures
        final(writer)@ == old(writer)@ + nonprint_shown(line_part(in_buf@), tab@),
        r as int == consumed(in_buf@),
{
    let mut count: usize = 0;
    while count < in_buf.len() && in_buf[count] != 10
        invariant
            count <= in_buf@.len(),
            forall|j: int| 0 <= j < count ==> in_buf@[j] != 10,
            writer@ == old(writer)@ + nonprint_shown(in_buf@.take(count as int), tab@),
        decreases in_buf.len() - count,
    {
        assert(in_buf@.take(count + 1).drop_last() == in_buf@.take(count as int));
        push_nonprint(writer, in_buf[count], tab);
        count += 1;
    }
    proof {
        lemma_first_newline_at(in_buf@, count as int);
        if count == in_buf@.len() {
            assert(in_buf@.take(count as int) == in_buf@);
        }
    }
    if count != in_buf.len() {
        count + 1
    } else {
        0
    }
}

/// The numbering state between buffers: the next line number, whether the
/// output is at a line start, and whether the last line written was empty.
pub struct LineState {
    pub line: nat,
    pub at_start: bool,
    pub one_blank: bool,
}

/// The bytes of an ASCII text.
pub open spec fn ascii(s: Seq<char>) -> Seq<u8> {
    s.map_values(|c: char| c as u8)
}

/// A line number right-aligned in six columns, then a tab.
pub open spec fn number_field(n: nat) -> Seq<u8> {
    ascii(right_aligned(dec_text(n), 6)).push(9u8)
}

/// The line at the start of `s` as it is shown under the options.
pub open spec fn shown_line(s: Seq<u8>, o: Options, tab: Seq<u8>) -> Seq<u8> {
    if o.show_nonprint {
        nonprint_shown(line_part(s), tab)
    } else if o.show_tabs {
        tabs_shown(line_part(s))
    } else {
        line_part(s)
    }
}

/// Whether an empty line is written: always, unless blank lines are
/// squeezed and an empty line was just written at a line start.
pub open spec fn blank_prints(o: Options, st: LineState) -> bool {
    !st.at_start || !o.squeeze_blank || !st.one_blank
}

/// Whether an empty line gets a number.
pub open spec fn blank_numbered(o: Options, st: LineState) -> bool {
    blank_prints(o, st) && st.at_start && o.number == NumMode::NumAll
}

/// What a newline writes.
pub open spec fn newline_out(o: Options, eol: Seq<u8>, st: LineState) -> Seq<u8> {
    if blank_prints(o, st) {
        (if blank_numbered(o, st) {
            number_field(st.line)
        } else {
            Seq::empty()
        }) + eol
    } else {
        Seq::empty()
    }
}

/// The state after a newline.
pub open spec fn newline_state(o: Options, st: LineState) -> LineState {
    LineState {
        line: if blank_numbered(o, st) { st.line + 1 } else { st.line },
        at_start: true,
        one_blank: if blank_prints(o, st) { true } else { st.one_blank },
    }
}

/// Whether a text line gets a number.
pub open spec fn text_numbered(o: Options, st: LineState) -> bool {
    st.at_start && o.number != NumMode::NumNull
}

/// What a text line at the start of `s` writes, before any line end.
pub open spec fn text_out(s: Seq<u8>, o: Options, tab: Seq<u8>, st: LineState) -> Seq<u8> {
    (if text_numbered(o, st) {
        number_field(st.line)
    } else {
        Seq::empty()
    }) + shown_line(s, o, tab)
}

/// The line number after a text line.
pub open spec fn text_line(o: Options, st: LineState) -> nat {
    if text_numbered(o, st) {
        st.line + 1
    } else {
        st.line
    }
}

/// The output of a buffer `s` from state `st`, and the state after it. An
/// empty line is written unless blank lines are squeezed and one was just
/// written; line numbers go to every line, or only to non-empty ones; each
/// line ends with `eol`, and a last line without newline is left open.
pub open spec fn render(s: Seq<u8>, o: Options, tab: Seq<u8>, eol: Seq<u8>, st: LineState) -> (
    Seq<u8>,
    LineState,
)
    decreases s.len(),
{
    if s.len() == 0 {
        (Seq::empty(), st)
    } else if s[0] == 10 {
        let r = render(s.drop_first(), o, tab, eol, newline_state(o, st));
        (newline_out(o, eol, st) + r.0, r.1)
    } else {
        let c = consumed(s);
        if 0 < c <= s.len() {
            let r = render(
                s.skip(c),
                o,
                tab,
                eol,
                LineState { line: text_line(o, st), at_start: true, one_blank: false },
            );
            (text_out(s, o, tab, st) + eol + r.0, r.1)
        } else {
            (text_out(s, o, tab, st), LineState { line: text_line(o, st), at_start: false, one_blank: false })
        }
    }
}

pub open spec fn state_of(line: usize, at_start: bool, one_blank: bool) -> LineState {
    LineState { line: line as nat, at_start, one_blank }
}

fn write_number(out: &mut Vec<u8>, n: usize)
    ensures
        final(out)@ == old(out)@ + number_field(n as nat),
{
    let d = pad_chars(decimal(n as u128), 6);
    let mut i: usize = 0;
    while i < d.len()
        invariant
            i <= d@.len(),
            out@ == old(out)@ + ascii(d@.take(i as int)),
        decreases d.len() - i,
    {
        out.push(d[i] as u8);
        assert(ascii(d@.take(i + 1)) =~= ascii(d@.take(i as int)).push(d@[i as int] as u8));
        i += 1;
    }
    assert(d@.take(d@.len() as int) == d@);
    out.push(9);
}

fn write_bytes(out: &mut Vec<u8>, b: &[u8])
    ensures
        final(out)@ == old(out)@ + b@,
{
    push_range(out, b, b.len());
    assert(b@.take(b@.len() as int) == b@);
}

fn newline_step(options: &Options, eol: &[u8], state: &mut OutputState, one_blank: &mut bool, out: &mut Vec<u8>)
    requires
        old(state).line_number < usize::MAX,
    ensures
        ({
            let cur = state_of(old(state).line_number, old(state).at_line_start, *old(one_blank));
            &&& final(out)@ == old(out)@ + newline_out(*options, eol@, cur)
            &&& state_of(final(state).line_number, final(state).at_line_start, *final(one_blank))
                == newline_state(*options, cur)
            &&& final(state).line_number <= old(state).line_number + 1
        }),
{
    if !state.at_line_start || !options.squeeze_blank || !*one_blank {
        *one_blank = true;
        if state.at_line_start && options.number == NumMode::NumAll {
            write_number(out, state.line_number);
            state.line_number = state.line_number + 1;
        } else {
            assert(old(out)@ + Seq::<u8>::empty() == old(out)@);
        }
        write_bytes(out, eol);
    } else {
        assert(old(out)@ + Seq::<u8>::empty() == old(out)@);
    }
    state.at_line_start = true;
}

fn text_step(
    t: &[u8],
    options: &Options,
    tab: &[u8],
    eol: &[u8],
    state: &mut OutputState,
    one_blank: &mut bool,
    out: &mut Vec<u8>,
) -> (offset: usize)
    requires
        old(state).line_number < usize::MAX,
        t@.len() > 0,
        t@[0] != 10,
    ensures
        ({
            let cur = state_of(old(state).line_number, old(state).at_line_start, *old(one_blank));
            let c = consumed(t@);
            &&& offset as int == c
            &&& 0 <= c <= t@.len()
            &&& final(state).line_number as nat == text_line(*options, cur)
            &&& !*final(one_blank)
            &&& final(state).at_line_start == (c > 0)
            &&& final(out)@ == old(out)@ + text_out(t@, *options, tab@, cur) + (if c > 0 {
                eol@
            } else {
                Seq::empty()
            })
        }),
{
    let ghost cur = state_of(state.line_number, state.at_line_start, *one_blank);
    proof {
        lemma_first_newline(t@);
    }
    *one_blank = false;
    if state.at_line_start && options.number != NumMode::NumNull {
        write_number(out, state.line_number);
        state.line_number = state.line_number + 1;
    } else {
        assert(old(out)@ + Seq::<u8>::empty() == old(out)@);
    }
    let offset = if options.show_nonprint {
        write_nonprint_to_end(t, out, tab)
    } else if options.show_tabs {
        write_tab_to_end(t, out)
    } else {
        write_to_end(t, out)
    };
    if offset == 0 {
        state.at_line_start = false;
        assert(out@ =~= old(out)@ + text_out(t@, *options, tab@, cur) + Seq::<u8>::empty());
    } else {
        write_bytes(out, eol);
        state.at_line_start = true;
        assert(out@ =~= old(out)@ + text_out(t@, *options, tab@, cur) + eol@);
    }
    offset
}

/// Writes one buffer of input to `out` under `options`, carrying the line
/// numbering and blank-line state across buffers; `tab` and `eol` are the
/// bytes written for a tab (when non-printing bytes are shown) and at each
/// line end.
pub fn write_chunk(
    in_buf: &[u8],
    options: &Options,
    tab: &[u8],
    eol: &[u8],
    state: &mut OutputState,
    one_blank: &mut bool,
    out: &mut Vec<u8>,
)
    requires
        old(state).line_number + in_buf@.len() < usize::MAX,
    ensures
        ({
            let r = render(
                in_buf@,
                *options,
                tab@,
                eol@,
                state_of(old(state).line_number, old(state).at_line_start, *old(one_blank)),
            );
            &&& final(out)@ == old(out)@ + r.0
            &&& state_of(final(state).line_number, final(state).at_line_start, *final(one_blank))
                == r.1
        }),
{
    let ghost s = in_buf@;
    let ghost st0 = state_of(state.line_number, state.at_line_start, *one_blank);
    let ghost out0 = out@;
    let n = in_buf.len();
    let mut pos: usize = 0;
    assert(s.skip(0) == s);
    while pos < n
        invariant
            n == s.len(),
            s == in_buf@,
            pos <= n,
            state.line_number + (n - pos) < usize::MAX,
            out0 + render(s, *options, tab@, eol@, st0).0 == out@ + render(
                s.skip(pos as int),
                *options,
                tab@,
                eol@,
                state_of(state.line_number, state.at_line_start, *one_blank),
            ).0,
            render(s, *options, tab@, eol@, st0).1 == render(
                s.skip(pos as int),
                *options,
                tab@,
                eol@,
                state_of(state.line_number, state.at_line_start, *one_blank),
            ).1,
        decreases n - pos,
    {
        let ghost t = s.skip(pos as int);
        let ghost cur = state_of(state.line_number, state.at_line_start, *one_blank);
        let ghost before = out@;
        assert(t[0] == in_buf@[pos as int]);
        if in_buf[pos] == 10 {
            assert(t.drop_first() == s.skip(pos + 1));
            newline_step(options, eol, state, one_blank, out);
            pos += 1;
            assert(out@ + render(
                s.skip(pos as int),
                *options,
                tab@,
                eol@,
                state_of(state.line_number, state.at_line_start, *one_blank),
            ).0 =~= before + render(t, *options, tab@, eol@, cur).0);
        } else {
            let rest = &in_buf[pos..n];
            assert(rest@ =~= t);
            let offset = text_step(rest, options, tab, eol, state, one_blank, out);
            if offset == 0 {
                assert(s.skip(n as int) =~= Seq::<u8>::empty());
                assert(out@ + Seq::<u8>::empty() == out@);
                pos = n;
            } else {
                assert(t.skip(offset as int) =~= s.skip(pos + offset));
                pos += offset;
                assert(out@ + render(
                    s.skip(pos as int),
                    *options,
                    tab@,
                    eol@,
                    state_of(state.line_number, state.at_line_start, *one_blank),
                ).0 =~= before + render(t, *options, tab@, eol@, cur).0);
            }
        }
    }
    assert(s.skip(n as int) =~= Seq::<u8>::empty());
    assert(out@ + Seq::<u8>::empty() == out@);
}

} // verus!
