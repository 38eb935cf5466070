//! The guard that stands before the serializer.
//!
//! A line that is longer than 75 bytes is folded when it is written, and
//! the place of a fold is moved back where it would split a character of
//! several bytes. This goes wrong only in a long run of such characters
//! that meets many white spaces. A line passes the guard when one of the
//! two is ruled out: the long run, or the many white spaces. The guard is
//! sufficient, not exact: it may refuse a line that could be written.

use crate::framing::MAX_DEPTH;
use crate::ical::{
    is_shallow, component_size, deep_lines, own_lines, read_children, read_lines, total_size,
};
use crate::model::{Line, LineView};
use crate::white::{is_white, white_flags};
use vstd::prelude::*;
use vstd::utf8::encode_utf8;

verus! {

/// The longest run of bytes of characters that take several bytes each
/// that a line of short runs may hold.
pub const MAX_RUN: usize = 64;

/// The first byte value that stands in characters of several bytes only.
pub const HIGH: u8 = 128;

/// The number of characters in a row that are looked at for white space.
pub const WINDOW: usize = 75;

/// The most white spaces that `WINDOW` characters in a row may hold in a
/// text that is sparse.
pub const MAX_WHITE: usize = 16;

/// The number of bytes of characters of several bytes that stand directly
/// before position `i`.
pub open spec fn high_run(bytes: Seq<u8>, i: int) -> nat
    decreases i,
{
    if i <= 0 || i > bytes.len() || bytes[i - 1] < HIGH {
        0
    } else {
        high_run(bytes, i - 1) + 1
    }
}

/// No run of bytes of characters of several bytes is longer than `MAX_RUN`.
pub open spec fn short_runs(bytes: Seq<u8>) -> bool {
    forall|i: int| 0 <= i <= bytes.len() ==> #[trigger] high_run(bytes, i) <= MAX_RUN
}

/// The text holds short runs only.
pub open spec fn has_short_runs(text: Seq<char>) -> bool {
    short_runs(encode_utf8(text))
}

/// The number of white spaces among the characters `from..to`, given which
/// characters are white.
pub open spec fn white_count(flags: Seq<bool>, from: int, to: int) -> nat
    decreases to - from,
{
    if to <= from || from < 0 || to > flags.len() {
        0
    } else {
        white_count(flags, from, to - 1) + if flags[to - 1] {
            1nat
        } else {
            0nat
        }
    }
}

/// The end of the window that starts at `i`.
pub open spec fn window_end(len: int, i: int) -> int {
    if i + WINDOW <= len {
        i + WINDOW
    } else {
        len
    }
}

/// No `WINDOW` characters in a row hold more than `MAX_WHITE` white spaces.
pub open spec fn is_sparse(text: Seq<char>) -> bool {
    let flags = text.map_values(|c: char| is_white(c));
    forall|i: int|
        0 <= i < flags.len() ==> #[trigger] white_count(flags, i, window_end(flags.len() as int, i))
            <= MAX_WHITE
}

/// The text holds no white space.
pub open spec fn has_no_white(text: Seq<char>) -> bool {
    forall|i: int| 0 <= i < text.len() ==> !is_white(#[trigger] text[i])
}

/// Every text of the line holds short runs only.
pub open spec fn is_short_line(l: LineView) -> bool {
    &&& has_short_runs(l.key)
    &&& has_short_runs(l.value)
    &&& forall|t: Seq<char>| l.parameters.contains(t) ==> has_short_runs(t)
}

/// The key and the parameters of the line hold no white space, and its
/// value is sparse.
pub open spec fn is_calm_line(l: LineView) -> bool {
    &&& has_no_white(l.key)
    &&& is_sparse(l.value)
    &&& forall|t: Seq<char>| l.parameters.contains(t) ==> has_no_white(t)
}

/// What the guard tests of a line: it holds short runs only, or it is calm.
pub open spec fn line_passes(l: LineView) -> bool {
    is_short_line(l) || is_calm_line(l)
}

/// Every line of the set passes the guard.
pub open spec fn lines_pass(lines: Set<LineView>) -> bool {
    forall|l: LineView| lines.contains(l) ==> line_passes(l)
}

/// Every component of the list holds lines that pass the guard, at any
/// depth.
pub open spec fn all_pass(components: Seq<icalendar::CalendarComponent>) -> bool {
    forall|i: int|
        0 <= i < components.len() ==> lines_pass(deep_lines(#[trigger] components[i]))
}

/// Decides whether a text holds short runs only.
pub fn holds_short_runs(text: &str) -> (yes: bool)
    ensures
        yes == has_short_runs(text@),
{
    let bytes = text.as_bytes();
    let mut run: usize = 0;
    let mut i: usize = 0;
    while i < bytes.len()
        invariant
            i <= bytes.len(),
            bytes@ == encode_utf8(text@),
            run == high_run(bytes@, i as int),
            forall|j: int| 0 <= j <= i ==> #[trigger] high_run(bytes@, j) <= MAX_RUN,
        decreases bytes.len() - i,
    {
        if bytes[i] >= HIGH {
            run += 1;
            if run > MAX_RUN {
                assert(high_run(bytes@, i + 1) > MAX_RUN);
                return false;
            }
        } else {
            run = 0;
        }
        i += 1;
    }
    true
}

/// Decides whether a text holds no white space.
pub fn holds_no_white(text: &str) -> (yes: bool)
    ensures
        yes == has_no_white(text@),
{
    let flags = white_flags(text);
    let mut i: usize = 0;
    while i < flags.len()
        invariant
            i <= flags.len(),
            flags@ == text@.map_values(|c: char| is_white(c)),
            forall|j: int| 0 <= j < i ==> !is_white(#[trigger] text@[j]),
        decreases flags.len() - i,
    {
        if flags[i] {
            assert(is_white(text@[i as int]));
            return false;
        }
        i += 1;
    }
    true
}

/// Decides whether a text is sparse.
pub fn holds_sparse_white(text: &str) -> (yes: bool)
    ensures
        yes == is_sparse(text@),
{
    let flags = white_flags(text);
    let n = flags.len();
    let mut i: usize = 0;
    while i < n
        invariant
            i <= n,
            n == flags.len(),
            flags@ == text@.map_values(|c: char| is_white(c)),
            forall|j: int|
                0 <= j < i ==> #[trigger] white_count(flags@, j, window_end(n as int, j))
                    <= MAX_WHITE,
        decreases n - i,
    {
        let end: usize = if n - i >= WINDOW {
            i + WINDOW
        } else {
            n
        };
        let mut count: usize = 0;
        let mut j: usize = i;
        while j < end
            invariant
                i <= j <= end <= n,
                n == flags.len(),
                count == white_count(flags@, i as int, j as int),
                count <= j - i,
            decreases end - j,
        {
            if flags[j] {
                count += 1;
            }
            j += 1;
        }
        assert(end == window_end(n as int, i as int));
        if count > MAX_WHITE {
            assert(white_count(flags@, i as int, window_end(flags@.len() as int, i as int))
                > MAX_WHITE);
            return false;
        }
        i += 1;
    }
    true
}

/// Decides whether every text of a list meets one of the two tests.
fn each_text(texts: &Vec<String>, short: bool) -> (yes: bool)
    ensures
        yes == forall|k: int|
            0 <= k < texts@.len() ==> if short {
                has_short_runs((#[trigger] texts@[k])@)
            } else {
                has_no_white(texts@[k]@)
            },
{
    let mut k: usize = 0;
    while k < texts.len()
        invariant
            k <= texts.len(),
            forall|j: int|
                0 <= j < k ==> if short {
                    has_short_runs((#[trigger] texts@[j])@)
                } else {
                    has_no_white(texts@[j]@)
                },
        decreases texts.len() - k,
    {
        let ok = if short {
            holds_short_runs(texts[k].as_str())
        } else {
            holds_no_white(texts[k].as_str())
        };
        if !ok {
            return false;
        }
        k += 1;
    }
    true
}

/// Decides whether a line passes the guard.
pub fn passes(line: &Line) -> (yes: bool)
    ensures
        yes == line_passes(line@),
{
    let short = holds_short_runs(line.key.as_str()) && holds_short_runs(line.value.as_str())
        && each_text(&line.parameters, true);
    assert(short == is_short_line(line@));
    if short {
        return true;
    }
    let calm = holds_no_white(line.key.as_str()) && holds_sparse_white(line.value.as_str())
        && each_text(&line.parameters, false);
    assert(calm == is_calm_line(line@));
    calm
}

/// Decides whether every line of a list passes the guard.
fn each_passes(lines: &Vec<Line>) -> (yes: bool)
    ensures
        yes == forall|k: int| 0 <= k < lines@.len() ==> line_passes((#[trigger] lines@[k])@),
{
    let mut k: usize = 0;
    while k < lines.len()
        invariant
            k <= lines.len(),
            forall|j: int| 0 <= j < k ==> line_passes((#[trigger] lines@[j])@),
        decreases lines.len() - k,
    {
        if !passes(&lines[k]) {
            return false;
        }
        k += 1;
    }
    true
}

proof fn lemma_total_size_add(
    a: Seq<icalendar::CalendarComponent>,
    b: Seq<icalendar::CalendarComponent>,
)
    ensures
        total_size(a + b) == total_size(a) + total_size(b),
    decreases b.len(),
{
    if b.len() == 0 {
        assert(a + b == a);
    } else {
        assert((a + b).drop_last() == a + b.drop_last());
        assert((a + b).last() == b.last());
        lemma_total_size_add(a, b.drop_last());
    }
}

/// Decides whether every line of a component passes the guard: its own,
/// and those of the components nested in it, at any depth. The nested
/// components are copied out level by level, so the component must not be
/// nested deeper than `MAX_DEPTH`.
pub fn passes_guard(c: &icalendar::CalendarComponent) -> (yes: bool)
    requires
        is_shallow(*c),
    ensures
        yes == lines_pass(deep_lines(*c)),
{
    let lines = read_lines(c);
    let mut work = read_children(c);
    if !each_passes(&lines) {
        return false;
    }
    while work.len() > 0
        invariant
            lines_pass(deep_lines(*c)) == all_pass(work@),
            forall|i: int|
                0 <= i < work@.len() ==> is_shallow(#[trigger] work@[i]),
        decreases total_size(work@),
    {
        let ghost before = work@;
        let next = work.pop().unwrap();
        let lines = read_lines(&next);
        let mut children = read_children(&next);
        let ghost added = children@;
        if !each_passes(&lines) {
            assert(!lines_pass(deep_lines(before[before.len() - 1])));
            return false;
        }
        work.append(&mut children);
        proof {
            let rest = before.drop_last();
            assert(work@ == rest + added);
            lemma_total_size_add(rest, added);
            assert(total_size(before) == total_size(rest) + component_size(next));
            assert(lines_pass(deep_lines(next)) == all_pass(added)) by {
                if all_pass(added) {
                    assert forall|l: LineView| deep_lines(next).contains(l) implies line_passes(
                        l,
                    ) by {
                        if !own_lines(next).contains(l) {
                            let i = choose|i: int|
                                0 <= i < added.len() && #[trigger] deep_lines(added[i]).contains(
                                    l,
                                );
                            assert(lines_pass(deep_lines(added[i])));
                        }
                    }
                }
                if lines_pass(deep_lines(next)) {
                    assert forall|i: int| 0 <= i < added.len() implies lines_pass(
                        deep_lines(#[trigger] added[i]),
                    ) by {
                        assert forall|l: LineView|
                            deep_lines(added[i]).contains(l) implies line_passes(l) by {
                            assert(deep_lines(next).contains(l));
                        }
                    }
                }
            }
            assert(all_pass(before) == (all_pass(rest) && lines_pass(deep_lines(next)))) by {
                if all_pass(rest) && lines_pass(deep_lines(next)) {
                    assert forall|i: int| 0 <= i < before.len() implies lines_pass(
                        deep_lines(#[trigger] before[i]),
                    ) by {
                        if i < rest.len() {
                            assert(before[i] == rest[i]);
                        }
                    }
                }
                if all_pass(before) {
                    assert forall|i: int| 0 <= i < rest.len() implies lines_pass(
                        deep_lines(#[trigger] rest[i]),
                    ) by {
                        assert(rest[i] == before[i]);
                    }
                    assert(before[before.len() - 1] == next);
                }
            }
            assert(all_pass(work@) == (all_pass(rest) && all_pass(added))) by {
                if all_pass(rest) && all_pass(added) {
                    assert forall|i: int| 0 <= i < work@.len() implies lines_pass(
                        deep_lines(#[trigger] work@[i]),
                    ) by {
                        if i < rest.len() {
                            assert(work@[i] == rest[i]);
                        } else {
                            assert(work@[i] == added[i - rest.len()]);
                        }
                    }
                }
                if all_pass(work@) {
                    assert forall|i: int| 0 <= i < rest.len() implies lines_pass(
                        deep_lines(#[trigger] rest[i]),
                    ) by {
                        assert(rest[i] == work@[i]);
                    }
                    assert forall|i: int| 0 <= i < added.len() implies lines_pass(
                        deep_lines(#[trigger] added[i]),
                    ) by {
                        assert(added[i] == work@[rest.len() + i]);
                    }
                }
            }
        }
    }
    true
}

} // verus!
