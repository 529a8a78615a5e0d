//! Integer pixel geometry: rectangle overlap and monitor choice. Handles
//! negative monitor origins and zero-size rectangles.

use vstd::prelude::*;

use crate::models::MonitorInfo;

verus! {

/// A rectangle in native pixels.
#[derive(Debug, Clone, Copy, PartialEq, Eq)]
pub struct NativeRect {
    pub x: i32,
    pub y: i32,
    pub w: i32,
    pub h: i32,
}

pub open spec fn min_int(a: int, b: int) -> int {
    if a <= b { a } else { b }
}

pub open spec fn max_int(a: int, b: int) -> int {
    if a >= b { a } else { b }
}

/// Area shared by two rectangles (0 when disjoint or empty).
pub open spec fn overlap_area(a: NativeRect, b: NativeRect) -> int {
    let w = min_int(a.x + a.w, b.x + b.w) - max_int(a.x as int, b.x as int);
    let h = min_int(a.y + a.h, b.y + b.h) - max_int(a.y as int, b.y as int);
    if w > 0 && h > 0 { w * h } else { 0 }
}

impl NativeRect {
    /// Overlap area with another rect (0 when disjoint or empty). Computed
    /// in 64 bits, so negative origins cannot overflow.
    pub fn overlap(&self, other: &NativeRect) -> (area: i64)
        ensures
            area == overlap_area(*self, *other),
    {
        let x1: i64 = if self.x >= other.x { self.x as i64 } else { other.x as i64 };
        let y1: i64 = if self.y >= other.y { self.y as i64 } else { other.y as i64 };
        let ax2: i64 = self.x as i64 + self.w as i64;
        let bx2: i64 = other.x as i64 + other.w as i64;
        let ay2: i64 = self.y as i64 + self.h as i64;
        let by2: i64 = other.y as i64 + other.h as i64;
        let x2: i64 = if ax2 <= bx2 { ax2 } else { bx2 };
        let y2: i64 = if ay2 <= by2 { ay2 } else { by2 };
        let w: i64 = x2 - x1;
        let h: i64 = y2 - y1;
        if w > 0 && h > 0 {
            assert(w <= self.w);
            assert(h <= self.h);
            assert(w * h <= 0x7fff_ffff * 0x7fff_ffff) by (nonlinear_arith)
                requires
                    0 < w <= 0x7fff_ffff,
                    0 < h <= 0x7fff_ffff,
            ;
            w * h
        } else {
            0
        }
    }
}

/// The full bounds of a monitor.
pub open spec fn full_rect(m: MonitorInfo) -> NativeRect {
    NativeRect { x: m.x, y: m.y, w: m.w, h: m.h }
}

/// The work area of a monitor, or its full bounds when the work area is empty.
pub open spec fn work_rect(m: MonitorInfo) -> NativeRect {
    if m.work_w > 0 && m.work_h > 0 {
        NativeRect { x: m.work_x, y: m.work_y, w: m.work_w, h: m.work_h }
    } else {
        full_rect(m)
    }
}

/// The full bounds of a monitor.
pub fn monitor_full_rect(m: &MonitorInfo) -> (r: NativeRect)
    ensures
        r == full_rect(*m),
{
    NativeRect { x: m.x, y: m.y, w: m.w, h: m.h }
}

/// The work area of a monitor, falling back to its full bounds when the
/// work area is empty.
pub fn monitor_work_rect(m: &MonitorInfo) -> (r: NativeRect)
    ensures
        r == work_rect(*m),
{
    if m.work_w > 0 && m.work_h > 0 {
        NativeRect { x: m.work_x, y: m.work_y, w: m.work_w, h: m.work_h }
    } else {
        monitor_full_rect(m)
    }
}

/// Index of the first primary monitor, or -1.
pub open spec fn first_primary(ms: Seq<MonitorInfo>) -> int
    decreases ms.len(),
{
    if ms.len() == 0 {
        -1
    } else if ms[0].is_primary {
        0
    } else if first_primary(ms.drop_first()) < 0 {
        -1
    } else {
        first_primary(ms.drop_first()) + 1
    }
}

/// Index of the fallback monitor: the first primary, else the first; -1
/// when there is none.
pub open spec fn fallback_index(ms: Seq<MonitorInfo>) -> int {
    if first_primary(ms) >= 0 {
        first_primary(ms)
    } else if ms.len() > 0 {
        0
    } else {
        -1
    }
}

/// `first_primary` is the least index of a primary monitor.
pub proof fn lemma_first_primary(ms: Seq<MonitorInfo>)
    ensures
        -1 <= first_primary(ms) < ms.len(),
        first_primary(ms) >= 0 ==> ms[first_primary(ms)].is_primary,
        forall|j: int| 0 <= j < ms.len() && (first_primary(ms) < 0 || j < first_primary(ms))
            ==> !(#[trigger] ms[j]).is_primary,
    decreases ms.len(),
{
    if ms.len() > 0 && !ms[0].is_primary {
        lemma_first_primary(ms.drop_first());
        assert forall|j: int| 0 <= j < ms.len() && (first_primary(ms) < 0 || j < first_primary(ms))
            implies !(#[trigger] ms[j]).is_primary by {
            if j > 0 {
                assert(ms[j] == ms.drop_first()[j - 1]);
            }
        }
    }
}

/// Primary monitor id, or the first monitor when none is marked primary.
pub fn fallback_monitor(monitors: &[MonitorInfo]) -> (r: Option<String>)
    ensures
        fallback_index(monitors@) < 0 ==> r is None,
        fallback_index(monitors@) >= 0 ==> (r matches Some(id) && id@
            == monitors@[fallback_index(monitors@)].id@),
{
    proof {
        lemma_first_primary(monitors@);
    }
    let mut i: usize = 0;
    while i < monitors.len()
        invariant
            i <= monitors@.len(),
            forall|j: int| 0 <= j < i ==> !(#[trigger] monitors@[j]).is_primary,
            -1 <= first_primary(monitors@) < monitors@.len(),
            first_primary(monitors@) >= 0 ==> monitors@[first_primary(monitors@)].is_primary,
            forall|j: int| 0 <= j < monitors@.len() && (first_primary(monitors@) < 0 || j
                < first_primary(monitors@)) ==> !(#[trigger] monitors@[j]).is_primary,
        decreases monitors@.len() - i,
    {
        if monitors[i].is_primary {
            return Some(monitors[i].id.clone());
        }
        i = i + 1;
    }
    if monitors.len() > 0 {
        Some(monitors[0].id.clone())
    } else {
        None
    }
}

/// Best overlap over the first `n` monitors: the first index of the
/// largest positive overlap (-1 and 0 when none is positive).
pub open spec fn best_overlap(ms: Seq<MonitorInfo>, rect: NativeRect, n: int) -> (int, int)
    decreases n,
{
    if n <= 0 {
        (-1, 0)
    } else {
        let prev = best_overlap(ms, rect, n - 1);
        let a = overlap_area(rect, full_rect(ms[n - 1]));
        if a > prev.1 { (n - 1, a) } else { prev }
    }
}

/// The monitor index `pick_monitor_for_rect` chooses (-1: none).
pub open spec fn pick_index(ms: Seq<MonitorInfo>, rect: NativeRect) -> int {
    if ms.len() == 0 {
        -1
    } else if rect.w <= 0 || rect.h <= 0 {
        fallback_index(ms)
    } else if best_overlap(ms, rect, ms.len() as int).1 > 0 {
        best_overlap(ms, rect, ms.len() as int).0
    } else {
        fallback_index(ms)
    }
}

/// The id of the chosen monitor, or the empty string.
pub open spec fn pick_spec(ms: Seq<MonitorInfo>, rect: NativeRect) -> Seq<char> {
    if pick_index(ms, rect) >= 0 {
        ms[pick_index(ms, rect)].id@
    } else {
        Seq::empty()
    }
}

/// What `best_overlap` finds is the first monitor of largest overlap.
pub proof fn lemma_best_overlap(ms: Seq<MonitorInfo>, rect: NativeRect, n: int)
    requires
        0 <= n <= ms.len(),
    ensures
        ({
            let (i, a) = best_overlap(ms, rect, n);
            &&& -1 <= i < n
            &&& a >= 0
            &&& i < 0 <==> a == 0
            &&& i >= 0 ==> a == overlap_area(rect, full_rect(ms[i]))
            &&& forall|j: int| 0 <= j < n ==> overlap_area(rect, full_rect(#[trigger] ms[j])) <= a
            &&& i >= 0 ==> forall|j: int| 0 <= j < i ==> overlap_area(rect, full_rect(#[trigger] ms[j])) < a
        }),
    decreases n,
{
    if n > 0 {
        lemma_best_overlap(ms, rect, n - 1);
        let a = overlap_area(rect, full_rect(ms[n - 1]));
        assert(a >= 0) by {
            let w = min_int(rect.x + rect.w, ms[n - 1].x + ms[n - 1].w) - max_int(rect.x as int, ms[n - 1].x as int);
            let h = min_int(rect.y + rect.h, ms[n - 1].y + ms[n - 1].h) - max_int(rect.y as int, ms[n - 1].y as int);
            if w > 0 && h > 0 {
                assert(w * h > 0) by (nonlinear_arith)
                    requires
                        w > 0,
                        h > 0,
                ;
            }
        }
    }
}

/// Pick the monitor with the largest overlap with `rect` (the first of
/// equals). Falls back to the primary (or first) monitor when there is no
/// overlap or the rect is empty; "" when there are no monitors.
pub fn pick_monitor_for_rect(monitors: &[MonitorInfo], rect: NativeRect) -> (r: String)
    ensures
        r@ == pick_spec(monitors@, rect),
{
    if monitors.len() == 0 {
        return String::new();
    }
    if rect.w <= 0 || rect.h <= 0 {
        return match fallback_monitor(monitors) {
            Some(id) => id,
            None => String::new(),
        };
    }
    let mut best: usize = 0;
    let mut found = false;
    let mut best_area: i64 = 0;
    let mut i: usize = 0;
    while i < monitors.len()
        invariant
            i <= monitors@.len(),
            best_overlap(monitors@, rect, i as int) == (if found { best as int } else { -1 }, best_area as int),
            found ==> best < monitors@.len(),
        decreases monitors@.len() - i,
    {
        let area = rect.overlap(&monitor_full_rect(&monitors[i]));
        if area > best_area {
            best_area = area;
            best = i;
            found = true;
        }
        i = i + 1;
    }
    proof {
        lemma_best_overlap(monitors@, rect, monitors@.len() as int);
    }
    if best_area > 0 {
        monitors[best].id.clone()
    } else {
        match fallback_monitor(monitors) {
            Some(id) => id,
            None => String::new(),
        }
    }
}

/// Some part of `rect` lies on some monitor.
pub open spec fn visible_spec(ms: Seq<MonitorInfo>, rect: NativeRect) -> bool {
    rect.w > 0 && rect.h > 0 && exists|j: int| 0 <= j < ms.len() && overlap_area(rect, full_rect(#[trigger] ms[j])) > 0
}

/// True when any part of `rect` is visible on any monitor.
pub fn is_rect_visible_on_any_monitor(monitors: &[MonitorInfo], rect: NativeRect) -> (b: bool)
    ensures
        b == visible_spec(monitors@, rect),
{
    if rect.w <= 0 || rect.h <= 0 {
        return false;
    }
    let mut i: usize = 0;
    while i < monitors.len()
        invariant
            i <= monitors@.len(),
            forall|j: int| 0 <= j < i ==> overlap_area(rect, full_rect(#[trigger] monitors@[j])) <= 0,
        decreases monitors@.len() - i,
    {
        if rect.overlap(&monitor_full_rect(&monitors[i])) > 0 {
            return true;
        }
        i = i + 1;
    }
    false
}


/// A non-empty rect that is visible somewhere goes to the monitor it
/// overlaps most (the first of equals); one that is visible nowhere, or is
/// empty, goes to the fallback monitor.
pub proof fn lemma_pick_largest_overlap(ms: Seq<MonitorInfo>, rect: NativeRect)
    ensures
        visible_spec(ms, rect) ==> {
            let p = pick_index(ms, rect);
            &&& 0 <= p < ms.len()
            &&& forall|j: int| 0 <= j < ms.len() ==> overlap_area(rect, full_rect(#[trigger] ms[j]))
                <= overlap_area(rect, full_rect(ms[p]))
            &&& forall|j: int| 0 <= j < p ==> overlap_area(rect, full_rect(#[trigger] ms[j]))
                < overlap_area(rect, full_rect(ms[p]))
        },
        !visible_spec(ms, rect) ==> pick_index(ms, rect) == fallback_index(ms),
{
    lemma_best_overlap(ms, rect, ms.len() as int);
    if visible_spec(ms, rect) {
        let j = choose|j: int| 0 <= j < ms.len() && overlap_area(rect, full_rect(#[trigger] ms[j])) > 0;
        assert(overlap_area(rect, full_rect(ms[j])) > 0);
    }
}

} // verus!
