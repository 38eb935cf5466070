//! The frame of a calendar text: its `BEGIN` and `END` lines.
//!
//! A text is well framed when it holds exactly one `VCALENDAR` component,
//! every component in it is closed by the `END` line of its own name, no
//! other line stands outside a component, and no more than `MAX_DEPTH`
//! components are open at once.

use vstd::prelude::*;

verus! {

/// The bytes that the frame is made of.
pub const LF: u8 = 10;

pub const CR: u8 = 13;

pub const COLON: u8 = 58;

pub const SEMICOLON: u8 = 59;

pub const EQUALS: u8 = 61;

pub const QUOTE: u8 = 34;

pub const SPACE: u8 = 32;

pub const TAB: u8 = 9;

pub const LOWER_A: u8 = 97;

pub const LOWER_Z: u8 = 122;

pub const UPPER_A: u8 = 65;

pub const UPPER_B: u8 = 66;

pub const UPPER_C: u8 = 67;

pub const UPPER_D: u8 = 68;

pub const UPPER_E: u8 = 69;

pub const UPPER_G: u8 = 71;

pub const UPPER_I: u8 = 73;

pub const UPPER_L: u8 = 76;

pub const UPPER_N: u8 = 78;

pub const UPPER_R: u8 = 82;

pub const UPPER_V: u8 = 86;

/// How many components may be open at once, the calendar among them.
pub const MAX_DEPTH: usize = 32;

/// What can be wrong with the frame of a text.
#[derive(Clone, Copy, Debug, PartialEq, Eq, Structural)]
pub enum FrameFault {
    /// A line that is neither `BEGIN` nor `END` stands outside every
    /// component.
    StrayLine,
    /// The text holds no component, or its first component is not called
    /// `VCALENDAR`.
    MissingCalendar,
    /// A component begins after the calendar was closed.
    SecondCalendar,
    /// An `END` line stands where no component is open.
    StrayEnd,
    /// An `END` line names another component than the one that is open.
    MismatchedEnd,
    /// The text ends while a component is open.
    Unterminated,
    /// A component begins while `MAX_DEPTH` components are open.
    TooDeep,
    /// The name on a `BEGIN` line is empty or holds another byte than an
    /// ASCII letter, a digit, `-`, `_`, `.`, `,` or `/`.
    BadName,
    /// A line inside a component is no content line: see `is_content_line`.
    BadLine,
    /// A line ends with a carriage return and a line feed after a line
    /// that ended with a line feed alone.
    MixedLineEnds,
}

/// A fault and the line on which it was found, counted from 1. A fault
/// that shows only at the end of the text is put on its last line.
#[derive(Clone, Copy, Debug, PartialEq, Eq, Structural)]
pub struct FrameError {
    pub fault: FrameFault,
    pub line: usize,
}

/// Where a reading of the frame stands: the names of the components that
/// are open, outermost first; whether the calendar has been closed; how
/// many components have begun directly inside the calendar; and whether a
/// line has ended with a line feed alone.
pub struct FrameState {
    pub open: Seq<Seq<u8>>,
    pub closed: bool,
    pub components: nat,
    pub bare: bool,
}

/// What a line is to the frame.
pub enum LineKind {
    Blank,
    Begin(Seq<u8>),
    End(Seq<u8>),
    Content,
}

/// The upper-case form of an ASCII lower-case letter; every other byte is
/// itself.
pub open spec fn fold_byte(b: u8) -> u8 {
    if LOWER_A <= b && b <= LOWER_Z {
        (b - 32) as u8
    } else {
        b
    }
}

/// `BEGIN:`
pub open spec fn begin_tag() -> Seq<u8> {
    seq![UPPER_B, UPPER_E, UPPER_G, UPPER_I, UPPER_N, COLON]
}

/// `END:`
pub open spec fn end_tag() -> Seq<u8> {
    seq![UPPER_E, UPPER_N, UPPER_D, COLON]
}

/// `VCALENDAR`
pub open spec fn calendar_name() -> Seq<u8> {
    seq![UPPER_V, UPPER_C, UPPER_A, UPPER_L, UPPER_E, UPPER_N, UPPER_D, UPPER_A, UPPER_R]
}

/// `line` starts with `tag`, in any case. `tag` is in upper case.
pub open spec fn has_tag(line: Seq<u8>, tag: Seq<u8>) -> bool {
    &&& tag.len() <= line.len()
    &&& forall|i: int| 0 <= i < tag.len() ==> fold_byte(#[trigger] line[i]) == tag[i]
}

/// The line without the carriage return at its end, if it has one.
pub open spec fn strip_cr(line: Seq<u8>) -> Seq<u8> {
    if line.len() > 0 && line.last() == CR {
        line.drop_last()
    } else {
        line
    }
}

/// What a line, without its line break, is to the frame. The name on a
/// `BEGIN` or `END` line is all that follows the colon.
pub open spec fn line_kind(line: Seq<u8>) -> LineKind {
    if line.len() == 0 {
        LineKind::Blank
    } else if has_tag(line, begin_tag()) {
        LineKind::Begin(line.subrange(6, line.len() as int))
    } else if has_tag(line, end_tag()) {
        LineKind::End(line.subrange(4, line.len() as int))
    } else {
        LineKind::Content
    }
}

/// The lines of `s` from `start` on, given that no line break stands in
/// `start..i`: a line ends before each line feed, and what follows the last
/// line feed is a line if it is not empty.
pub open spec fn lines_from(s: Seq<u8>, i: int, start: int) -> Seq<Seq<u8>>
    decreases s.len() - i,
{
    if i >= s.len() {
        if start < s.len() {
            seq![s.subrange(start, s.len() as int)]
        } else {
            Seq::empty()
        }
    } else if s[i] == LF {
        seq![s.subrange(start, i)] + lines_from(s, i + 1, i + 1)
    } else {
        lines_from(s, i + 1, start)
    }
}

/// The lines of a text.
pub open spec fn lines(s: Seq<u8>) -> Seq<Seq<u8>> {
    lines_from(s, 0, 0)
}

/// The classes of bytes that a content line is read by.
pub const NAME: u8 = 0;

pub const BLANK: u8 = 1;

pub const QUOTED: u8 = 2;

pub const PLAIN: u8 = 3;

/// A byte of a name: an ASCII letter, a digit, `-`, `_`, `.`, `,` or `/`.
pub open spec fn is_name_byte(b: u8) -> bool {
    ||| 48 <= b <= 57
    ||| 65 <= b <= 90
    ||| 97 <= b <= 122
    ||| 44 <= b <= 47
    ||| b == 95
}

/// Whether a byte goes on a run of its class: a name runs through name
/// bytes, a blank through spaces and tabs, a quoted text up to the next
/// quote, and a plain value up to the next semicolon or colon.
pub open spec fn runs_on(b: u8, class: u8) -> bool {
    if class == NAME {
        is_name_byte(b)
    } else if class == BLANK {
        b == SPACE || b == TAB
    } else if class == QUOTED {
        b != QUOTE
    } else {
        b != SEMICOLON && b != COLON
    }
}

/// Where the run of a class that starts at `i` ends: the first position
/// from `i` on whose byte does not go on, or the end of the line.
pub open spec fn run_end(line: Seq<u8>, i: int, class: u8) -> int
    decreases line.len() - i,
{
    if i < 0 || i >= line.len() || !runs_on(line[i], class) {
        i
    } else {
        run_end(line, i + 1, class)
    }
}

/// A name that the decoder reads as the frame does: not empty, and name
/// bytes only.
pub open spec fn is_plain_name(name: Seq<u8>) -> bool {
    name.len() > 0 && run_end(name, 0, NAME) == name.len()
}

/// From position `i`, where a semicolon or the colon is due, the
/// parameters of the line close on the line: each is a semicolon, blanks,
/// a name and, after an equals sign, a value, and after the last of them
/// stands the colon. A value is a quoted text that is not empty and is
/// closed on the line, or else runs up to the next semicolon or colon on
/// the line; a quote that is not closed on the line is refused.
pub open spec fn parameters_close(line: Seq<u8>, i: int) -> bool
    decreases line.len() - i,
{
    if i < 0 || i >= line.len() {
        false
    } else if line[i] == COLON {
        true
    } else if line[i] != SEMICOLON {
        false
    } else {
        let k = run_end(line, run_end(line, i + 1, BLANK), NAME);
        if k <= i || k >= line.len() {
            false
        } else if line[k] != EQUALS {
            parameters_close(line, k)
        } else if k + 1 >= line.len() {
            false
        } else if line[k + 1] == QUOTE {
            let q = run_end(line, k + 2, QUOTED);
            if q >= line.len() {
                false
            } else if q == k + 2 {
                let t = run_end(line, k + 1, PLAIN);
                if i < t < line.len() {
                    parameters_close(line, t)
                } else {
                    false
                }
            } else if q > i {
                parameters_close(line, q + 1)
            } else {
                false
            }
        } else {
            let t = run_end(line, k + 1, PLAIN);
            if i < t < line.len() {
                parameters_close(line, t)
            } else {
                false
            }
        }
    }
}

/// A line that the decoder reads as one line, whatever follows it: a name
/// alone, or a name (which may be empty), parameters that close on the
/// line, a colon and a value.
pub open spec fn is_content_line(line: Seq<u8>) -> bool {
    let k = run_end(line, 0, NAME);
    if k >= line.len() {
        true
    } else {
        parameters_close(line, k)
    }
}

/// Whether a line, as it stands before its line feed, ends with a carriage
/// return.
pub open spec fn ends_with_cr(raw: Seq<u8>) -> bool {
    raw.len() > 0 && raw.last() == CR
}

/// The state after one more line as it stands before its line feed, or
/// the fault that the line shows. Once a line has ended with a line feed
/// alone, no later line may end with a carriage return and a line feed: the
/// decoder would read past the line feeds up to it.
pub open spec fn advance(st: FrameState, raw: Seq<u8>) -> Result<FrameState, FrameFault> {
    if ends_with_cr(raw) && st.bare {
        Err(FrameFault::MixedLineEnds)
    } else {
        match step(st, strip_cr(raw)) {
            Err(fault) => Err(fault),
            Ok(next) => Ok(
                FrameState {
                    open: next.open,
                    closed: next.closed,
                    components: next.components,
                    bare: st.bare || !ends_with_cr(raw),
                },
            ),
        }
    }
}

/// The state before the first line.
pub open spec fn initial_state() -> FrameState {
    FrameState { open: Seq::empty(), closed: false, components: 0, bare: false }
}

/// The state after one more line, or the fault that the line shows.
pub open spec fn step(st: FrameState, line: Seq<u8>) -> Result<FrameState, FrameFault> {
    match line_kind(line) {
        LineKind::Blank => Ok(st),
        LineKind::Content => if st.open.len() == 0 {
            Err(FrameFault::StrayLine)
        } else if !is_content_line(line) {
            Err(FrameFault::BadLine)
        } else {
            Ok(st)
        },
        LineKind::Begin(name) => if st.open.len() == 0 && st.closed {
            Err(FrameFault::SecondCalendar)
        } else if st.open.len() == 0 && name != calendar_name() {
            Err(FrameFault::MissingCalendar)
        } else if !is_plain_name(name) {
            Err(FrameFault::BadName)
        } else if st.open.len() >= MAX_DEPTH {
            Err(FrameFault::TooDeep)
        } else {
            Ok(
                FrameState {
                    bare: st.bare,
                    open: st.open.push(name),
                    closed: st.closed,
                    components: if st.open.len() == 1 {
                        st.components + 1
                    } else {
                        st.components
                    },
                },
            )
        },
        LineKind::End(name) => if st.open.len() == 0 {
            Err(FrameFault::StrayEnd)
        } else if st.open.last() != name {
            Err(FrameFault::MismatchedEnd)
        } else {
            Ok(
                FrameState {
                    bare: st.bare,
                    open: st.open.drop_last(),
                    closed: st.closed || st.open.len() == 1,
                    components: st.components,
                },
            )
        },
    }
}

/// What the end of the text shows, `done` lines having been read.
pub open spec fn finish(st: FrameState, done: nat) -> Result<nat, (FrameFault, nat)> {
    if st.open.len() > 0 {
        Err((FrameFault::Unterminated, done))
    } else if !st.closed {
        Err((FrameFault::MissingCalendar, done))
    } else {
        Ok(st.components)
    }
}

/// Reads `rest` line by line from the state `st`, `done` lines having
/// been read before.
pub open spec fn run(rest: Seq<Seq<u8>>, st: FrameState, done: nat) -> Result<
    nat,
    (FrameFault, nat),
>
    decreases rest.len(),
{
    if rest.len() == 0 {
        finish(st, done)
    } else {
        match advance(st, rest[0]) {
            Err(fault) => Err((fault, done + 1)),
            Ok(next) => run(rest.drop_first(), next, done + 1),
        }
    }
}

/// The number of components directly inside the calendar of a well-framed
/// text, or the first fault of its frame with the number of its line.
pub open spec fn framing(s: Seq<u8>) -> Result<nat, (FrameFault, nat)> {
    run(lines(s), initial_state(), 0)
}

/// The result of a check as the specification states it.
pub open spec fn check_view(r: Result<usize, FrameError>) -> Result<nat, (FrameFault, nat)> {
    match r {
        Ok(n) => Ok(n as nat),
        Err(e) => Err((e.fault, e.line as nat)),
    }
}

/// The state of a reading as the check holds it: each open name is a range
/// of the text.
struct Reading {
    open: Vec<(usize, usize)>,
    closed: bool,
    components: usize,
    bare: bool,
}

impl Reading {
    spec fn fits(&self, s: Seq<u8>) -> bool {
        forall|k: int|
            0 <= k < self.open@.len() ==> (#[trigger] self.open@[k]).0 <= self.open@[k].1
                <= s.len()
    }

    spec fn state(&self, s: Seq<u8>) -> FrameState {
        FrameState {
            open: Seq::new(
                self.open@.len(),
                |k: int| s.subrange(self.open@[k].0 as int, self.open@[k].1 as int),
            ),
            closed: self.closed,
            components: self.components as nat,
            bare: self.bare,
        }
    }
}

fn fold(b: u8) -> (folded: u8)
    ensures
        folded == fold_byte(b),
{
    if LOWER_A <= b && b <= LOWER_Z {
        b - 32
    } else {
        b
    }
}

/// Whether the bytes `start..end` start with `BEGIN:`, in any case.
fn is_begin(bytes: &[u8], start: usize, end: usize) -> (yes: bool)
    requires
        start <= end <= bytes.len(),
    ensures
        yes == has_tag(bytes@.subrange(start as int, end as int), begin_tag()),
{
    let ghost line = bytes@.subrange(start as int, end as int);
    let yes = end - start >= 6 && fold(bytes[start]) == UPPER_B && fold(bytes[start + 1]) == UPPER_E
        && fold(bytes[start + 2]) == UPPER_G && fold(bytes[start + 3]) == UPPER_I && fold(
        bytes[start + 4],
    ) == UPPER_N && fold(bytes[start + 5]) == COLON;
    proof {
        if end - start >= 6 {
            assert(line[0] == bytes@[start as int]);
            assert(line[1] == bytes@[start + 1]);
            assert(line[2] == bytes@[start + 2]);
            assert(line[3] == bytes@[start + 3]);
            assert(line[4] == bytes@[start + 4]);
            assert(line[5] == bytes@[start + 5]);
        }
    }
    yes
}

/// Whether the bytes `start..end` start with `END:`, in any case.
fn is_end(bytes: &[u8], start: usize, end: usize) -> (yes: bool)
    requires
        start <= end <= bytes.len(),
    ensures
        yes == has_tag(bytes@.subrange(start as int, end as int), end_tag()),
{
    let ghost line = bytes@.subrange(start as int, end as int);
    let yes = end - start >= 4 && fold(bytes[start]) == UPPER_E && fold(bytes[start + 1]) == UPPER_N
        && fold(bytes[start + 2]) == UPPER_D && fold(bytes[start + 3]) == COLON;
    proof {
        if end - start >= 4 {
            assert(line[0] == bytes@[start as int]);
            assert(line[1] == bytes@[start + 1]);
            assert(line[2] == bytes@[start + 2]);
            assert(line[3] == bytes@[start + 3]);
        }
    }
    yes
}

/// Whether the bytes `start..end` are `VCALENDAR`.
fn is_calendar_name(bytes: &[u8], start: usize, end: usize) -> (yes: bool)
    requires
        start <= end <= bytes.len(),
    ensures
        yes == (bytes@.subrange(start as int, end as int) == calendar_name()),
{
    let ghost name = bytes@.subrange(start as int, end as int);
    let yes = end - start == 9 && bytes[start] == UPPER_V && bytes[start + 1] == UPPER_C && bytes[start
        + 2] == UPPER_A && bytes[start + 3] == UPPER_L && bytes[start + 4] == UPPER_E && bytes[start + 5]
        == UPPER_N && bytes[start + 6] == UPPER_D && bytes[start + 7] == UPPER_A && bytes[start + 8]
        == UPPER_R;
    proof {
        if end - start == 9 {
            assert(name[0] == bytes@[start as int]);
            assert(name[1] == bytes@[start + 1]);
            assert(name[2] == bytes@[start + 2]);
            assert(name[3] == bytes@[start + 3]);
            assert(name[4] == bytes@[start + 4]);
            assert(name[5] == bytes@[start + 5]);
            assert(name[6] == bytes@[start + 6]);
            assert(name[7] == bytes@[start + 7]);
            assert(name[8] == bytes@[start + 8]);
            if yes {
                assert(name =~= calendar_name());
            }
        }
        if name == calendar_name() {
            assert(name.len() == 9);
            assert(calendar_name()[0] == UPPER_V && calendar_name()[1] == UPPER_C
                && calendar_name()[2] == UPPER_A && calendar_name()[3] == UPPER_L
                && calendar_name()[4] == UPPER_E && calendar_name()[5] == UPPER_N
                && calendar_name()[6] == UPPER_D && calendar_name()[7] == UPPER_A
                && calendar_name()[8] == UPPER_R);
        }
    }
    yes
}

fn is_name(b: u8) -> (yes: bool)
    ensures
        yes == is_name_byte(b),
{
    (48 <= b && b <= 57) || (65 <= b && b <= 90) || (97 <= b && b <= 122) || (44 <= b && b <= 47)
        || b == 95
}

fn goes_on(b: u8, class: u8) -> (yes: bool)
    ensures
        yes == runs_on(b, class),
{
    if class == NAME {
        is_name(b)
    } else if class == BLANK {
        b == SPACE || b == TAB
    } else if class == QUOTED {
        b != QUOTE
    } else {
        b != SEMICOLON && b != COLON
    }
}

/// Finds the end of the run of a class that starts at `i`, in the line
/// `start..end`.
fn find_run_end(bytes: &[u8], start: usize, end: usize, i: usize, class: u8) -> (at: usize)
    requires
        start <= i <= end <= bytes.len(),
    ensures
        i <= at <= end,
        at - start == run_end(bytes@.subrange(start as int, end as int), i - start, class),
{
    let ghost line = bytes@.subrange(start as int, end as int);
    let mut at = i;
    while at < end && goes_on(bytes[at], class)
        invariant
            i <= at <= end <= bytes.len(),
            start <= i,
            line == bytes@.subrange(start as int, end as int),
            run_end(line, i - start, class) == run_end(line, at - start, class),
        decreases end - at,
    {
        assert(line[at - start] == bytes@[at as int]);
        at += 1;
    }
    proof {
        if at < end {
            assert(line[at - start] == bytes@[at as int]);
        }
    }
    at
}

/// Whether the name `start..end` is plain.
fn name_is_plain(bytes: &[u8], start: usize, end: usize) -> (yes: bool)
    requires
        start <= end <= bytes.len(),
    ensures
        yes == is_plain_name(bytes@.subrange(start as int, end as int)),
{
    end > start && find_run_end(bytes, start, end, start, NAME) == end
}

/// Whether the line `start..end` is a content line.
fn line_is_content(bytes: &[u8], start: usize, end: usize) -> (yes: bool)
    requires
        start <= end <= bytes.len(),
    ensures
        yes == is_content_line(bytes@.subrange(start as int, end as int)),
{
    let ghost line = bytes@.subrange(start as int, end as int);
    let mut i = find_run_end(bytes, start, end, start, NAME);
    if i >= end {
        return true;
    }
    loop
        invariant
            start <= i < end <= bytes.len(),
            line == bytes@.subrange(start as int, end as int),
            is_content_line(line) == parameters_close(line, i - start),
        decreases end - i,
    {
        assert(line[i - start] == bytes@[i as int]);
        if bytes[i] == COLON {
            return true;
        }
        if bytes[i] != SEMICOLON {
            return false;
        }
        let b = find_run_end(bytes, start, end, i + 1, BLANK);
        let k = find_run_end(bytes, start, end, b, NAME);
        if k >= end {
            return false;
        }
        assert(line[k - start] == bytes@[k as int]);
        if bytes[k] != EQUALS {
            i = k;
        } else if k + 1 >= end {
            return false;
        } else {
            assert(line[k + 1 - start] == bytes@[k + 1]);
            if bytes[k + 1] == QUOTE {
                let q = find_run_end(bytes, start, end, k + 2, QUOTED);
                if q >= end {
                    return false;
                } else if q == k + 2 {
                    let t = find_run_end(bytes, start, end, k + 1, PLAIN);
                    if t >= end {
                        assert(!parameters_close(line, t - start));
                        return false;
                    }
                    i = t;
                } else {
                    if q + 1 >= end {
                        assert(!parameters_close(line, q + 1 - start));
                        return false;
                    }
                    i = q + 1;
                }
            } else {
                let t = find_run_end(bytes, start, end, k + 1, PLAIN);
                if t >= end {
                    assert(!parameters_close(line, t - start));
                    return false;
                }
                i = t;
            }
        }
    }
}

/// Whether two ranges of the text hold the same bytes.
fn same_bytes(bytes: &[u8], a: (usize, usize), b: (usize, usize)) -> (same: bool)
    requires
        a.0 <= a.1 <= bytes.len(),
        b.0 <= b.1 <= bytes.len(),
    ensures
        same == (bytes@.subrange(a.0 as int, a.1 as int) == bytes@.subrange(
            b.0 as int,
            b.1 as int,
        )),
{
    let ghost x = bytes@.subrange(a.0 as int, a.1 as int);
    let ghost y = bytes@.subrange(b.0 as int, b.1 as int);
    let n: usize = a.1 - a.0;
    if b.1 - b.0 != n {
        assert(x.len() != y.len());
        return false;
    }
    let mut k: usize = 0;
    while k < n
        invariant
            k <= n,
            n == a.1 - a.0,
            n == b.1 - b.0,
            a.1 <= bytes.len(),
            b.1 <= bytes.len(),
            x == bytes@.subrange(a.0 as int, a.1 as int),
            y == bytes@.subrange(b.0 as int, b.1 as int),
            forall|j: int| 0 <= j < k ==> x[j] == y[j],
        decreases n - k,
    {
        if bytes[a.0 + k] != bytes[b.0 + k] {
            assert(x[k as int] != y[k as int]);
            return false;
        }
        k += 1;
    }
    assert(x =~= y);
    true
}

/// Takes the line `start..end`, which holds no line feed, into the reading.
fn take_line(bytes: &[u8], start: usize, end: usize, reading: &mut Reading) -> (r: Result<
    (),
    FrameFault,
>)
    requires
        start <= end <= bytes.len(),
        old(reading).fits(bytes@),
        old(reading).components < bytes.len(),
    ensures
        final(reading).fits(bytes@),
        final(reading).components <= old(reading).components + 1,
        match advance(old(reading).state(bytes@), bytes@.subrange(start as int, end as int)) {
            Err(fault) => r == Err::<(), FrameFault>(fault),
            Ok(next) => r is Ok && final(reading).state(bytes@) == next,
        },
{
    let ghost s = bytes@;
    let ghost before = reading.state(s);
    let ghost held = reading.open@;
    let with_cr = end > start && bytes[end - 1] == CR;
    assert(with_cr == ends_with_cr(s.subrange(start as int, end as int)));
    if with_cr && reading.bare {
        return Err(FrameFault::MixedLineEnds);
    }
    let stop: usize = if with_cr {
        end - 1
    } else {
        end
    };
    if !with_cr {
        reading.bare = true;
    }
    let ghost line = s.subrange(start as int, stop as int);
    assert(line == strip_cr(s.subrange(start as int, end as int)));
    let depth = reading.open.len();
    if stop == start {
        Ok(())
    } else if is_begin(bytes, start, stop) {
        let name: (usize, usize) = (start + 6, stop);
        assert(line.subrange(6, line.len() as int) == s.subrange(name.0 as int, name.1 as int));
        if depth == 0 && reading.closed {
            Err(FrameFault::SecondCalendar)
        } else if depth == 0 && !is_calendar_name(bytes, name.0, name.1) {
            Err(FrameFault::MissingCalendar)
        } else if !name_is_plain(bytes, name.0, name.1) {
            Err(FrameFault::BadName)
        } else if depth >= MAX_DEPTH {
            Err(FrameFault::TooDeep)
        } else {
            reading.open.push(name);
            if depth == 1 {
                reading.components = reading.components + 1;
            }
            assert(reading.state(s).open == before.open.push(
                s.subrange(name.0 as int, name.1 as int),
            ));
            Ok(())
        }
    } else if is_end(bytes, start, stop) {
        let name: (usize, usize) = (start + 4, stop);
        assert(line.subrange(4, line.len() as int) == s.subrange(name.0 as int, name.1 as int));
        if depth == 0 {
            Err(FrameFault::StrayEnd)
        } else {
            let top = reading.open[depth - 1];
            assert(before.open.last() == s.subrange(top.0 as int, top.1 as int));
            if !same_bytes(bytes, top, name) {
                Err(FrameFault::MismatchedEnd)
            } else {
                reading.open.pop();
                if depth == 1 {
                    reading.closed = true;
                }
                assert(reading.state(s).open == before.open.drop_last());
                Ok(())
            }
        }
    } else if depth == 0 {
        Err(FrameFault::StrayLine)
    } else if !line_is_content(bytes, start, stop) {
        Err(FrameFault::BadLine)
    } else {
        Ok(())
    }
}

/// Checks the frame of a text. For a well-framed text the result is the
/// number of components that stand directly inside its calendar.
pub fn check_framing(bytes: &[u8]) -> (r: Result<usize, FrameError>)
    ensures
        check_view(r) == framing(bytes@),
{
    let ghost s = bytes@;
    let n: usize = bytes.len();
    let mut reading = Reading { open: Vec::new(), closed: false, components: 0, bare: false };
    let mut done: usize = 0;
    let mut start: usize = 0;
    let mut i: usize = 0;
    assert(reading.state(s).open == initial_state().open);
    while i < n
        invariant
            s == bytes@,
            n == s.len(),
            start <= i <= n,
            done <= start,
            reading.components <= done,
            reading.fits(s),
            framing(s) == run(lines_from(s, i as int, start as int), reading.state(s), done as nat),
        decreases n - i,
    {
        if bytes[i] == LF {
            let ghost rest = lines_from(s, i as int, start as int);
            assert(rest[0] == s.subrange(start as int, i as int));
            assert(rest.drop_first() == lines_from(s, i + 1, i + 1));
            match take_line(bytes, start, i, &mut reading) {
                Err(fault) => {
                    return Err(FrameError { fault, line: done + 1 });
                },
                Ok(_) => {},
            }
            done += 1;
            start = i + 1;
        }
        i += 1;
    }
    if start < n {
        let ghost rest = lines_from(s, n as int, start as int);
        assert(rest[0] == s.subrange(start as int, n as int));
        assert(rest.drop_first() == Seq::<Seq<u8>>::empty());
        match take_line(bytes, start, n, &mut reading) {
            Err(fault) => {
                return Err(FrameError { fault, line: done + 1 });
            },
            Ok(_) => {},
        }
        done += 1;
        assert(run(Seq::<Seq<u8>>::empty(), reading.state(s), done as nat) == finish(
            reading.state(s),
            done as nat,
        ));
    } else {
        assert(lines_from(s, n as int, start as int) == Seq::<Seq<u8>>::empty());
    }
    assert(framing(s) == finish(reading.state(s), done as nat));
    if reading.open.len() > 0 {
        Err(FrameError { fault: FrameFault::Unterminated, line: done })
    } else if !reading.closed {
        Err(FrameError { fault: FrameFault::MissingCalendar, line: done })
    } else {
        Ok(reading.components)
    }
}

} // verus!
