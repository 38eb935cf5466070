//! How deep components are nested in a component.
//!
//! Components are copied and written level by level, so the library works
//! on components of bounded depth only. The depth of a component is
//! measured here without copying: by the paths that lead into it.

use crate::framing::MAX_DEPTH;
use crate::ical::{count_at, is_path, is_shallow, nested_count};
use vstd::prelude::*;

verus! {

/// The paths of a list.
pub open spec fn paths_view(level: Seq<Vec<usize>>) -> Seq<Seq<usize>> {
    level.map_values(|p: Vec<usize>| p@)
}

/// `level` holds the paths of length `d` into `c`, all of them.
pub open spec fn is_level(
    c: icalendar::CalendarComponent,
    level: Seq<Seq<usize>>,
    d: int,
) -> bool {
    &&& forall|j: int|
        0 <= j < level.len() ==> (#[trigger] level[j]).len() == d && is_path(c, level[j])
    &&& forall|p: Seq<usize>| #[trigger] is_path(c, p) && p.len() == d ==> level.contains(p)
}

/// The start of a path is a path.
proof fn lemma_path_start(c: icalendar::CalendarComponent, p: Seq<usize>, n: int)
    requires
        is_path(c, p),
        0 <= n <= p.len(),
    ensures
        is_path(c, p.take(n)),
{
    assert forall|k: int| 0 <= k < p.take(n).len() implies p.take(n)[k] < count_at(
        c,
        #[trigger] p.take(n).take(k),
    ) by {
        assert(p.take(n).take(k) == p.take(k));
    }
}

/// A path with one more place that is there is a path.
proof fn lemma_path_step(c: icalendar::CalendarComponent, p: Seq<usize>, i: usize)
    requires
        is_path(c, p),
        i < count_at(c, p),
    ensures
        is_path(c, p.push(i)),
{
    let q = p.push(i);
    assert forall|k: int| 0 <= k < q.len() implies q[k] < count_at(c, #[trigger] q.take(k)) by {
        if k < p.len() {
            assert(q.take(k) == p.take(k));
        } else {
            assert(q.take(k) == p);
        }
    }
}

/// A copy of a path with one more place.
fn longer(path: &Vec<usize>, place: usize) -> (made: Vec<usize>)
    ensures
        made@ == path@.push(place),
{
    let mut made: Vec<usize> = Vec::new();
    let mut k: usize = 0;
    while k < path.len()
        invariant
            k <= path.len(),
            made@ == path@.take(k as int),
        decreases path.len() - k,
    {
        made.push(path[k]);
        assert(path@.take(k + 1) == path@.take(k as int).push(path@[k as int]));
        k += 1;
    }
    assert(path@.take(path@.len() as int) == path@);
    made.push(place);
    made
}

/// The paths that are one place longer than those of a level.
fn next_level(c: &icalendar::CalendarComponent, level: &Vec<Vec<usize>>, Ghost(d): Ghost<int>) -> (next:
    Vec<Vec<usize>>)
    requires
        is_level(*c, paths_view(level@), d),
        d >= 0,
    ensures
        is_level(*c, paths_view(next@), d + 1),
{
    let ghost paths = paths_view(level@);
    let mut next: Vec<Vec<usize>> = Vec::new();
    let mut j: usize = 0;
    while j < level.len()
        invariant
            j <= level.len(),
            paths == paths_view(level@),
            is_level(*c, paths, d),
            d >= 0,
            forall|m: int|
                0 <= m < next@.len() ==> (#[trigger] paths_view(next@)[m]).len() == d + 1
                    && is_path(*c, paths_view(next@)[m]),
            forall|a: int, i: usize|
                0 <= a < j && i < count_at(*c, paths[a]) ==> paths_view(next@).contains(
                    #[trigger] paths[a].push(i),
                ),
        decreases level.len() - j,
    {
        assert(paths[j as int] == level@[j as int]@);
        let count = nested_count(c, &level[j]);
        let mut i: usize = 0;
        while i < count
            invariant
                i <= count,
                j < level.len(),
                count == count_at(*c, paths[j as int]),
                paths == paths_view(level@),
                paths[j as int] == level@[j as int]@,
                is_level(*c, paths, d),
                d >= 0,
                forall|m: int|
                    0 <= m < next@.len() ==> (#[trigger] paths_view(next@)[m]).len() == d + 1
                        && is_path(*c, paths_view(next@)[m]),
                forall|a: int, b: usize|
                    0 <= a < j && b < count_at(*c, paths[a]) ==> paths_view(next@).contains(
                        #[trigger] paths[a].push(b),
                    ),
                forall|b: usize|
                    b < i ==> paths_view(next@).contains(#[trigger] paths[j as int].push(b)),
            decreases count - i,
        {
            let ghost before = paths_view(next@);
            let made = longer(&level[j], i);
            next.push(made);
            proof {
                let after = paths_view(next@);
                assert(after == before.push(paths[j as int].push(i)));
                lemma_path_step(*c, paths[j as int], i);
                assert forall|p: Seq<usize>| before.contains(p) implies after.contains(p) by {
                    let m = choose|m: int| 0 <= m < before.len() && before[m] == p;
                    assert(after[m] == p);
                }
                assert(after[after.len() - 1] == paths[j as int].push(i));
            }
            i += 1;
        }
        j += 1;
    }
    proof {
        let made = paths_view(next@);
        assert forall|p: Seq<usize>| #[trigger] is_path(*c, p) && p.len() == d + 1 implies made.contains(
            p,
        ) by {
            lemma_path_start(*c, p, d);
            let start = p.take(d);
            assert(paths.contains(start));
            let a = choose|a: int| 0 <= a < paths.len() && paths[a] == start;
            assert(p[d] < count_at(*c, p.take(d)));
            assert(p == start.push(p[d]));
        }
    }
    next
}

/// Decides whether a component is nested no deeper than `MAX_DEPTH`. It
/// walks the component level by level and stops at that depth.
pub fn shallow(c: &icalendar::CalendarComponent) -> (yes: bool)
    ensures
        yes == is_shallow(*c),
{
    let mut level: Vec<Vec<usize>> = Vec::new();
    level.push(Vec::new());
    let mut d: usize = 0;
    proof {
        let paths = paths_view(level@);
        assert(paths[0] == Seq::<usize>::empty());
        assert forall|p: Seq<usize>| #[trigger] is_path(*c, p) && p.len() == 0 implies paths.contains(
            p,
        ) by {
            assert(p == paths[0]);
        }
    }
    while d < MAX_DEPTH && level.len() > 0
        invariant
            d <= MAX_DEPTH,
            is_level(*c, paths_view(level@), d as int),
        decreases MAX_DEPTH - d,
    {
        level = next_level(c, &level, Ghost(d as int));
        d += 1;
    }
    let ghost paths = paths_view(level@);
    if level.len() == 0 {
        proof {
            assert forall|p: Seq<usize>| #[trigger] is_path(*c, p) implies p.len() < MAX_DEPTH by {
                if p.len() >= d {
                    lemma_path_start(*c, p, d as int);
                    assert(paths.contains(p.take(d as int)));
                }
            }
        }
        true
    } else {
        proof {
            assert(is_path(*c, paths[0]));
            assert(paths[0].len() == MAX_DEPTH);
        }
        false
    }
}

} // verus!
