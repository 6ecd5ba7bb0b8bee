//! Which lines to synthesize ahead of time once the cursor line is ready:
//! the lines of the shown window, nearest to the cursor first.

use vstd::prelude::*;

verus! {

/// First line of the window of `visible_lines` lines centred on `cursor`,
/// clamped to the `len` lines there are.
pub open spec fn window_start(cursor: int, visible_lines: int, len: int) -> int {
    let s0 = if cursor - visible_lines / 2 > 0 {
        cursor - visible_lines / 2
    } else {
        0
    };
    let e = window_end(cursor, visible_lines, len);
    if e - visible_lines > 0 {
        e - visible_lines
    } else {
        0
    }
}

/// One past the last line of the window.
pub open spec fn window_end(cursor: int, visible_lines: int, len: int) -> int {
    let s0 = if cursor - visible_lines / 2 > 0 {
        cursor - visible_lines / 2
    } else {
        0
    };
    if s0 + visible_lines < len {
        s0 + visible_lines
    } else {
        len
    }
}

/// Candidates at distance 1..=d, each distance below then above the cursor
/// (`cursor + d` before `cursor - d`), kept when inside `[ws, we)`.
pub open spec fn targets_upto(cursor: int, ws: int, we: int, d: nat) -> Seq<usize>
    decreases d,
{
    if d == 0 {
        Seq::empty()
    } else {
        let prev = targets_upto(cursor, ws, we, (d - 1) as nat);
        let a = cursor + d;
        let b = cursor - d;
        let p1 = if ws <= a < we {
            prev.push(a as usize)
        } else {
            prev
        };
        if ws <= b < we {
            p1.push(b as usize)
        } else {
            p1
        }
    }
}

pub open spec fn spec_prefetch_targets(cursor: int, visible_lines: int, len: int) -> Seq<usize> {
    if len == 0 {
        Seq::empty()
    } else {
        targets_upto(
            cursor,
            window_start(cursor, visible_lines, len),
            window_end(cursor, visible_lines, len),
            visible_lines as nat,
        )
    }
}

proof fn lemma_targets_props(cursor: int, ws: int, we: int, d: nat)
    requires
        0 <= ws,
        we <= usize::MAX,
    ensures
        forall|k: int|
            0 <= k < targets_upto(cursor, ws, we, d).len() ==> {
                let x = #[trigger] targets_upto(cursor, ws, we, d)[k] as int;
                &&& ws <= x < we
                &&& x != cursor
                &&& 1 <= dist_to(x, cursor) <= d
            },
        forall|a: int, b: int|
            0 <= a < b < targets_upto(cursor, ws, we, d).len() ==> #[trigger] targets_upto(
                cursor,
                ws,
                we,
                d,
            )[a] != #[trigger] targets_upto(cursor, ws, we, d)[b],
    decreases d,
{
    if d > 0 {
        lemma_targets_props(cursor, ws, we, (d - 1) as nat);
        let prev = targets_upto(cursor, ws, we, (d - 1) as nat);
        let a = cursor + d;
        let b = cursor - d;
        let p1 = if ws <= a < we {
            prev.push(a as usize)
        } else {
            prev
        };
        let p2 = targets_upto(cursor, ws, we, d);
        assert(p2 == if ws <= b < we {
            p1.push(b as usize)
        } else {
            p1
        });
        assert forall|k: int| 0 <= k < p1.len() implies {
            let x = #[trigger] p1[k] as int;
            &&& ws <= x < we
            &&& x != cursor
            &&& 1 <= dist_to(x, cursor) <= d
        } by {
            if k < prev.len() {
                assert(p1[k] == prev[k]);
            }
        }
        assert forall|i: int, j: int| 0 <= i < j < p1.len() implies #[trigger] p1[i] != #[trigger] p1[j] by {
            if j < prev.len() {
                assert(p1[i] == prev[i] && p1[j] == prev[j]);
            } else {
                assert(p1[i] == prev[i]);
                assert(dist_to(prev[i] as int, cursor) <= d - 1);
            }
        }
        assert forall|k: int| 0 <= k < p2.len() implies {
            let x = #[trigger] p2[k] as int;
            &&& ws <= x < we
            &&& x != cursor
            &&& 1 <= dist_to(x, cursor) <= d
        } by {
            if k < p1.len() {
                assert(p2[k] == p1[k]);
            }
        }
        assert forall|i: int, j: int| 0 <= i < j < p2.len() implies #[trigger] p2[i] != #[trigger] p2[j] by {
            if j < p1.len() {
                assert(p2[i] == p1[i] && p2[j] == p1[j]);
            } else {
                assert(p2[i] == p1[i]);
                if i < prev.len() {
                    assert(p1[i] == prev[i]);
                    assert(dist_to(prev[i] as int, cursor) <= d - 1);
                }
            }
        }
    }
}

pub open spec fn dist_to(x: int, c: int) -> int {
    if x >= c {
        x - c
    } else {
        c - x
    }
}

/// Line indices of the shown window around `cursor`, nearest first; the
/// cursor line itself is never among them.
pub fn compute_prefetch_targets(cursor: usize, visible_lines: usize, lines: &[String]) -> (r: Vec<usize>)
    requires
        cursor + visible_lines <= i32::MAX,
    ensures
        r@ == spec_prefetch_targets(cursor as int, visible_lines as int, lines@.len() as int),
        forall|k: int|
            0 <= k < r@.len() ==> #[trigger] r@[k] < lines@.len() && r@[k] != cursor,
        forall|a: int, b: int| 0 <= a < b < r@.len() ==> #[trigger] r@[a] != #[trigger] r@[b],
{
    let len = lines.len();
    if len == 0 {
        return Vec::new();
    }
    let half = visible_lines / 2;
    let s0 = if cursor > half {
        cursor - half
    } else {
        0
    };
    let win_end = if s0 + visible_lines < len {
        s0 + visible_lines
    } else {
        len
    };
    let win_start = if win_end > visible_lines {
        win_end - visible_lines
    } else {
        0
    };
    assert(win_start == window_start(cursor as int, visible_lines as int, len as int));
    assert(win_end == window_end(cursor as int, visible_lines as int, len as int));
    let mut targets: Vec<usize> = Vec::new();
    let mut d: usize = 1;
    while d <= visible_lines
        invariant
            1 <= d <= visible_lines + 1,
            cursor + visible_lines <= i32::MAX,
            targets@ == targets_upto(cursor as int, win_start as int, win_end as int, (d - 1) as nat),
        decreases visible_lines + 1 - d,
    {
        let a = cursor + d;
        if win_start <= a && a < win_end {
            targets.push(a);
        }
        if cursor >= d {
            let b = cursor - d;
            if win_start <= b && b < win_end {
                targets.push(b);
            }
        }
        d = d + 1;
    }
    proof {
        lemma_targets_props(cursor as int, win_start as int, win_end as int, visible_lines as nat);
    }
    targets
}

/// Whether a line's audio is still to be fetched in the background: its text
/// is not blank and its audio is not cached yet. The same test decides whether
/// to wait for the cursor line's audio before the background fetches start.
pub fn prefetch_wanted(text: &str, cached: bool) -> (b: bool)
    ensures
        b == (!crate::text::is_blank(text@) && !cached),
{
    !crate::text::is_blank_str(text) && !cached
}

} // verus!
