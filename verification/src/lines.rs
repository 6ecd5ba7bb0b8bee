//! Bookkeeping over the lines of a tab: trailing blank lines, folding and the
//! position of the cursor among the lines that are shown.

use vstd::prelude::*;

use crate::tag::strings_view;
use crate::text::{is_blank, is_blank_str};

verus! {

/// Drops trailing blank lines while more than one line is left.
pub open spec fn drop_trailing_blank(s: Seq<Seq<char>>) -> Seq<Seq<char>>
    decreases s.len(),
{
    if s.len() > 1 && is_blank(s.last()) {
        drop_trailing_blank(s.drop_last())
    } else {
        s
    }
}

/// Exactly one blank line at the end: trailing blank lines collapse into one,
/// a missing one is added, an empty list becomes one empty line.
pub open spec fn spec_compress_trailing_empty(s: Seq<Seq<char>>) -> Seq<Seq<char>> {
    let d = drop_trailing_blank(s);
    let d2 = if d.len() == 0 {
        seq![Seq::<char>::empty()]
    } else {
        d
    };
    if !is_blank(d2.last()) {
        d2.push(Seq::<char>::empty())
    } else {
        d2
    }
}

/// A line that folding hides starts with a half-width space.
pub open spec fn is_fold_hidden(line: Seq<char>) -> bool {
    line.len() > 0 && line[0] == ' '
}

/// Distance between two line indices.
pub open spec fn dist(a: int, b: int) -> int {
    if a >= b {
        a - b
    } else {
        b - a
    }
}

/// First position of `x` in `v`.
pub open spec fn index_of(v: Seq<usize>, x: usize) -> Option<int>
    decreases v.len(),
{
    if v.len() == 0 {
        None
    } else {
        match index_of(v.drop_last(), x) {
            Some(i) => Some(i),
            None => if v.last() == x {
                Some(v.len() - 1)
            } else {
                None
            },
        }
    }
}

/// First position of the element of a non-empty `v` nearest to `c`.
pub open spec fn argmin_dist(v: Seq<usize>, c: usize) -> int
    decreases v.len(),
{
    if v.len() <= 1 {
        0
    } else {
        let b = argmin_dist(v.drop_last(), c);
        if dist(v.last() as int, c as int) < dist(v[b] as int, c as int) {
            v.len() - 1
        } else {
            b
        }
    }
}

/// Position of `cursor` in `visible`, else of the visible line nearest to it
/// (first on a tie), else 0.
pub open spec fn spec_nearest(cursor: usize, visible: Seq<usize>) -> int {
    match index_of(visible, cursor) {
        Some(i) => i,
        None => if visible.len() == 0 {
            0
        } else {
            argmin_dist(visible, cursor)
        },
    }
}

/// Position in `visible` of `cursor`, or of the visible line nearest to it
/// (the first one on a tie), or 0 when nothing is visible.
pub open spec fn is_nearest_vis_pos(cursor: usize, visible: Seq<usize>, r: int) -> bool {
    if visible.contains(cursor) {
        &&& 0 <= r < visible.len()
        &&& visible[r] == cursor
        &&& forall|k: int| 0 <= k < r ==> visible[k] != cursor
    } else if visible.len() == 0 {
        r == 0
    } else {
        &&& 0 <= r < visible.len()
        &&& forall|k: int|
            0 <= k < visible.len() ==> dist(visible[r] as int, cursor as int) <= dist(
                #[trigger] visible[k] as int,
                cursor as int,
            )
        &&& forall|k: int|
            0 <= k < r ==> dist(visible[r] as int, cursor as int) < dist(
                #[trigger] visible[k] as int,
                cursor as int,
            )
    }
}

proof fn lemma_drop_trailing_props(s: Seq<Seq<char>>)
    ensures
        drop_trailing_blank(s).len() <= s.len(),
        s.len() > 0 ==> drop_trailing_blank(s).len() > 0,
        drop_trailing_blank(s) == s.take(drop_trailing_blank(s).len() as int),
        drop_trailing_blank(s).len() > 1 ==> !is_blank(drop_trailing_blank(s).last()),
    decreases s.len(),
{
    if s.len() > 1 && is_blank(s.last()) {
        lemma_drop_trailing_props(s.drop_last());
        let d = drop_trailing_blank(s.drop_last());
        assert(s.drop_last().take(d.len() as int) =~= s.take(d.len() as int));
    } else {
        assert(s.take(s.len() as int) =~= s);
    }
}

/// Compressing twice is compressing once.
pub proof fn lemma_compress_idempotent(s: Seq<Seq<char>>)
    ensures
        spec_compress_trailing_empty(spec_compress_trailing_empty(s))
            == spec_compress_trailing_empty(s),
        spec_compress_trailing_empty(s).len() >= 1,
        is_blank(spec_compress_trailing_empty(s).last()),
{
    lemma_drop_trailing_props(s);
    let d = drop_trailing_blank(s);
    let c = spec_compress_trailing_empty(s);
    let e = Seq::<char>::empty();
    assert(is_blank(e)) by {
        assert(crate::text::trim_start(e) == e);
        assert(crate::text::trim_end(e) == e);
    }
    lemma_drop_trailing_props(c);
    if d.len() == 0 {
        assert(c == seq![e]);
        assert(drop_trailing_blank(c) == c);
    } else if !is_blank(d.last()) {
        assert(c == d.push(e));
        assert(c.drop_last() =~= d);
        if d.len() > 1 {
            assert(drop_trailing_blank(d) == d);
        }
        assert(drop_trailing_blank(c) == drop_trailing_blank(d));
        assert(drop_trailing_blank(d) == d);
    } else {
        assert(c == d);
        assert(d.len() <= 1);
        assert(drop_trailing_blank(c) == c);
    }
}

proof fn lemma_drop_trailing_len(s: Seq<Seq<char>>)
    ensures
        drop_trailing_blank(s).len() <= s.len(),
    decreases s.len(),
{
    if s.len() > 1 && is_blank(s.last()) {
        lemma_drop_trailing_len(s.drop_last());
    }
}

/// Compressing adds at most one line.
pub proof fn lemma_compress_len(s: Seq<Seq<char>>)
    ensures
        spec_compress_trailing_empty(s).len() <= s.len() + 1,
        spec_compress_trailing_empty(s).len() >= 1,
{
    lemma_drop_trailing_len(s);
}

/// Exactly one blank line at the end (see `spec_compress_trailing_empty`).
pub fn compress_trailing_empty(lines: Vec<String>) -> (r: Vec<String>)
    ensures
        strings_view(r@) == spec_compress_trailing_empty(strings_view(lines@)),
        r@.len() >= 1,
        is_blank(strings_view(r@).last()),
{
    let mut lines = lines;
    let ghost s = strings_view(lines@);
    while lines.len() > 1 && is_blank_str(lines[lines.len() - 1].as_str())
        invariant
            drop_trailing_blank(strings_view(lines@)) == drop_trailing_blank(s),
        decreases lines.len(),
    {
        let ghost before = strings_view(lines@);
        assert(before.last() == lines@[lines@.len() - 1]@);
        lines.pop();
        assert(strings_view(lines@) =~= before.drop_last());
    }
    assert(strings_view(lines@).len() > 0 ==> strings_view(lines@).last() == lines@[lines@.len()
        - 1]@);
    if lines.len() == 0 {
        lines.push(String::new());
        assert(strings_view(lines@) =~= seq![Seq::<char>::empty()]);
    }
    let ghost d2 = strings_view(lines@);
    if !is_blank_str(lines[lines.len() - 1].as_str()) {
        lines.push(String::new());
        assert(strings_view(lines@) =~= d2.push(Seq::<char>::empty()));
    }
    proof {
        lemma_compress_idempotent(s);
    }
    lines
}

/// An empty list becomes one empty line; anything else stays as it is.
pub fn ensure_nonempty_lines(lines: Vec<String>) -> (r: Vec<String>)
    ensures
        lines@.len() == 0 ==> strings_view(r@) == seq![Seq::<char>::empty()],
        lines@.len() > 0 ==> r@ == lines@,
{
    let mut lines = lines;
    if lines.len() == 0 {
        lines.push(String::new());
        assert(strings_view(lines@) =~= seq![Seq::<char>::empty()]);
    }
    lines
}

/// Indices of the shown lines, in order.
pub open spec fn spec_visible(lines: Seq<Seq<char>>, folded: bool) -> Seq<usize>
    decreases lines.len(),
{
    if lines.len() == 0 {
        Seq::empty()
    } else {
        let p = spec_visible(lines.drop_last(), folded);
        if !(folded && is_fold_hidden(lines.last())) {
            p.push((lines.len() - 1) as usize)
        } else {
            p
        }
    }
}

/// Folding hides exactly the lines whose first character is a half-width
/// space: a line is among the shown lines of the folded view exactly when
/// it is empty or starts with anything else, and unfolded every line is
/// shown. The shown indices are all below the number of lines.
pub proof fn lemma_fold_hides_space_led_lines(lines: Seq<Seq<char>>, i: int)
    requires
        0 <= i < lines.len(),
        lines.len() <= usize::MAX,
    ensures
        spec_visible(lines, true).contains(i as usize) <==> !(lines[i].len() > 0 && lines[i][0] == ' '),
        spec_visible(lines, false).contains(i as usize),
    decreases lines.len(),
{
    lemma_visible_below(lines.drop_last(), true);
    lemma_visible_below(lines.drop_last(), false);
    let n = lines.len() - 1;
    if i < n {
        lemma_fold_hides_space_led_lines(lines.drop_last(), i);
        assert(lines.drop_last()[i] == lines[i]);
        let pt = spec_visible(lines.drop_last(), true);
        let pf = spec_visible(lines.drop_last(), false);
        if pt.contains(i as usize) {
            let k = choose|k: int| 0 <= k < pt.len() && pt[k] == i as usize;
            assert(pt.push(n as usize)[k] == i as usize);
        }
        if spec_visible(lines, true).contains(i as usize) && !pt.contains(i as usize) {
            let k = choose|k: int| 0 <= k < spec_visible(lines, true).len() && spec_visible(lines, true)[k] == i as usize;
            if k < pt.len() {
                assert(pt.push(n as usize)[k] == pt[k]);
            }
        }
        let k = choose|k: int| 0 <= k < pf.len() && pf[k] == i as usize;
        assert(pf.push(n as usize)[k] == i as usize);
    } else {
        let pt = spec_visible(lines.drop_last(), true);
        let pf = spec_visible(lines.drop_last(), false);
        assert(pf.push(n as usize)[pf.len() as int] == n as usize);
        if !is_fold_hidden(lines.last()) {
            assert(pt.push(n as usize)[pt.len() as int] == n as usize);
        } else {
            if pt.contains(n as usize) {
                let k = choose|k: int| 0 <= k < pt.len() && pt[k] == n as usize;
                assert(pt[k] < n);
            }
        }
    }
}

proof fn lemma_visible_below(lines: Seq<Seq<char>>, folded: bool)
    ensures
        forall|k: int| 0 <= k < spec_visible(lines, folded).len() ==> #[trigger] spec_visible(lines, folded)[k] < lines.len(),
    decreases lines.len(),
{
    if lines.len() > 0 {
        lemma_visible_below(lines.drop_last(), folded);
        let p = spec_visible(lines.drop_last(), folded);
        assert forall|k: int| 0 <= k < spec_visible(lines, folded).len() implies #[trigger] spec_visible(lines, folded)[k]
            < lines.len() by {
            if k < p.len() {
                assert(spec_visible(lines, folded)[k] == p[k]);
            }
        }
    }
}

/// Line `i` is shown.
pub open spec fn shown(lines: Seq<String>, folded: bool, i: int) -> bool {
    !(folded && is_fold_hidden(lines[i]@))
}

fn starts_with_space(s: &String) -> (b: bool)
    ensures
        b == is_fold_hidden(s@),
{
    let c = crate::text::chars_of(s.as_str());
    c.len() > 0 && c[0] == ' '
}

/// Indices of the lines that are shown: all of them, or, when folded, those
/// that do not start with a half-width space.
pub fn visible_line_indices(lines: &Vec<String>, folded: bool) -> (r: Vec<usize>)
    ensures
        r@ == spec_visible(strings_view(lines@), folded),
        forall|k: int|
            0 <= k < r@.len() ==> #[trigger] r@[k] < lines@.len() && !(folded && is_fold_hidden(
                lines@[r@[k] as int]@,
            )),
        forall|a: int, b: int| 0 <= a < b < r@.len() ==> #[trigger] r@[a] < #[trigger] r@[b],
        forall|i: int| 0 <= i < lines@.len() && #[trigger] shown(lines@, folded, i) ==> r@.contains(i as usize),
{
    let mut r: Vec<usize> = Vec::new();
    let mut i: usize = 0;
    while i < lines.len()
        invariant
            i <= lines@.len(),
            forall|k: int|
                0 <= k < r@.len() ==> #[trigger] r@[k] < i && !(folded && is_fold_hidden(
                    lines@[r@[k] as int]@,
                )),
            forall|a: int, b: int| 0 <= a < b < r@.len() ==> #[trigger] r@[a] < #[trigger] r@[b],
            forall|j: int| 0 <= j < i && #[trigger] shown(lines@, folded, j) ==> r@.contains(j as usize),
            r@ == spec_visible(strings_view(lines@).take(i as int), folded),
        decreases lines.len() - i,
    {
        assert(strings_view(lines@).take(i + 1).drop_last() =~= strings_view(lines@).take(i as int));
        assert(strings_view(lines@).take(i + 1).last() == lines@[i as int]@);
        if !(folded && starts_with_space(&lines[i])) {
            let ghost old_r = r@;
            r.push(i);
            assert forall|j: int| 0 <= j <= i && #[trigger] shown(lines@, folded, j) implies r@.contains(j as usize) by {
                if j < i {
                    assert(old_r.contains(j as usize));
                    let k = choose|k: int| 0 <= k < old_r.len() && old_r[k] == j as usize;
                    assert(r@[k] == old_r[k]);
                } else {
                    assert(r@[r@.len() - 1] == j as usize);
                }
            }
        }
        i = i + 1;
    }
    assert(strings_view(lines@).take(i as int) =~= strings_view(lines@));
    r
}

/// Position of `cursor` among the visible lines, or of the nearest visible line.
pub fn nearest_vis_pos(cursor: usize, visible: &[usize]) -> (r: usize)
    ensures
        is_nearest_vis_pos(cursor, visible@, r as int),
        r as int == spec_nearest(cursor, visible@),
{
    let n = visible.len();
    let mut i: usize = 0;
    let ghost v = visible@;
    assert(v.take(0) =~= Seq::<usize>::empty());
    while i < n
        invariant
            i <= n,
            n == visible@.len(),
            v == visible@,
            forall|k: int| 0 <= k < i ==> visible@[k] != cursor,
            index_of(v.take(i as int), cursor) is None,
        decreases n - i,
    {
        assert(v.take(i + 1).drop_last() =~= v.take(i as int));
        if visible[i] == cursor {
            proof {
                lemma_index_of_prefix(v, cursor, i + 1);
            }
            return i;
        }
        i = i + 1;
    }
    assert(v.take(n as int) =~= v);
    assert(!visible@.contains(cursor));
    if n == 0 {
        return 0;
    }
    let mut best: usize = 0;
    let mut best_d: usize = if visible[0] >= cursor {
        visible[0] - cursor
    } else {
        cursor - visible[0]
    };
    let mut k: usize = 1;
    assert(v.take(1).len() == 1);
    while k < n
        invariant
            1 <= k <= n,
            n == visible@.len(),
            v == visible@,
            best < k,
            best as int == argmin_dist(v.take(k as int), cursor),
            best_d as int == dist(visible@[best as int] as int, cursor as int),
            forall|j: int|
                0 <= j < k ==> dist(visible@[best as int] as int, cursor as int) <= dist(
                    #[trigger] visible@[j] as int,
                    cursor as int,
                ),
            forall|j: int|
                0 <= j < best ==> dist(visible@[best as int] as int, cursor as int) < dist(
                    #[trigger] visible@[j] as int,
                    cursor as int,
                ),
        decreases n - k,
    {
        let d = if visible[k] >= cursor {
            visible[k] - cursor
        } else {
            cursor - visible[k]
        };
        assert(v.take(k + 1).drop_last() =~= v.take(k as int));
        assert(v.take(k + 1).last() == v[k as int]);
        assert(v.take(k as int)[best as int] == v[best as int]);
        if d < best_d {
            best = k;
            best_d = d;
        }
        k = k + 1;
    }
    assert(v.take(n as int) =~= v);
    best
}

proof fn lemma_index_of_prefix(v: Seq<usize>, x: usize, k: int)
    requires
        0 <= k <= v.len(),
        index_of(v.take(k), x) is Some,
    ensures
        index_of(v, x) == index_of(v.take(k), x),
    decreases v.len(),
{
    if v.len() > k {
        assert(v.drop_last().take(k) =~= v.take(k));
        lemma_index_of_prefix(v.drop_last(), x, k);
    } else {
        assert(v.take(k) =~= v);
    }
}

} // verus!
