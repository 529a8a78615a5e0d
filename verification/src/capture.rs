//! Desktop capture: assign each window to its monitor and order the list.

use vstd::prelude::*;

use crate::coords::{pick_monitor_for_rect, pick_spec, NativeRect};
use crate::models::{CapturedWindow, MonitorInfo};
use crate::sorting::{sort_indices, sorted_indices, Key};
use crate::text::{lowercase, to_chars, to_lowercase};

verus! {

/// The pixel rectangle of a captured window.
pub open spec fn window_rect(w: CapturedWindow) -> NativeRect {
    NativeRect { x: w.x, y: w.y, w: w.w, h: w.h }
}

/// Windows with `monitor_id` assigned via largest overlap (see
/// `pick_monitor_for_rect`), stably sorted by monitor id, then by
/// lower-cased title.
pub fn capture_desktop(monitors: &[MonitorInfo], windows: Vec<CapturedWindow>) -> (out: Vec<CapturedWindow>)
    ensures
        out@.len() == windows@.len(),
        ({
            let keys = Seq::new(windows@.len(), |i: int| (pick_spec(monitors@, window_rect(windows@[i])), lowercase(windows@[i].title@)));
            let order = sorted_indices(keys, windows@.len() as int);
            forall|p: int| #![trigger out@[p]] 0 <= p < out@.len() ==> out@[p] == (CapturedWindow {
                monitor_id: out@[p].monitor_id,
                ..windows@[order[p]]
            }) && out@[p].monitor_id@ == keys[order[p]].0
        }),
{
    let n = windows.len();
    let mut placed: Vec<CapturedWindow> = Vec::new();
    let mut mons: Vec<Vec<char>> = Vec::new();
    let mut titles: Vec<Vec<char>> = Vec::new();
    let ghost keys = Seq::new(windows@.len(), |i: int| (pick_spec(monitors@, window_rect(windows@[i])), lowercase(windows@[i].title@)));
    let mut i: usize = 0;
    while i < n
        invariant
            n == windows@.len(),
            keys == Seq::new(windows@.len(), |i: int| (pick_spec(monitors@, window_rect(windows@[i])), lowercase(windows@[i].title@))),
            i <= n,
            placed@.len() == i,
            mons@.len() == i,
            titles@.len() == i,
            forall|k: int| #![trigger placed@[k]] 0 <= k < i ==> placed@[k] == (CapturedWindow {
                monitor_id: placed@[k].monitor_id,
                ..windows@[k]
            }) && placed@[k].monitor_id@ == keys[k].0,
            forall|k: int| #![trigger mons@[k]] 0 <= k < i ==> mons@[k]@ == keys[k].0,
            forall|k: int| #![trigger titles@[k]] 0 <= k < i ==> titles@[k]@ == keys[k].1,
        decreases n - i,
    {
        let w = &windows[i];
        let rect = NativeRect { x: w.x, y: w.y, w: w.w, h: w.h };
        let id = pick_monitor_for_rect(monitors, rect);
        mons.push(to_chars(id.as_str()));
        let lt = to_lowercase(w.title.as_str());
        titles.push(to_chars(lt.as_str()));
        let mut c = w.copy();
        c.monitor_id = id;
        placed.push(c);
        i = i + 1;
    }
    let ghost key_seq = Seq::new(mons@.len(), |i: int| (mons@[i]@, titles@[i]@));
    assert(key_seq =~= keys);
    let order = sort_indices(&mons, &titles);
    proof {
        crate::sorting::lemma_sorted_indices(keys, n as int);
    }
    let mut out: Vec<CapturedWindow> = Vec::new();
    let mut p: usize = 0;
    while p < order.len()
        invariant
            n == windows@.len(),
            placed@.len() == n,
            order@.map_values(|i: usize| i as int) == sorted_indices(keys, n as int),
            crate::sorting::is_stable_order(sorted_indices(keys, n as int), keys, n as int),
            forall|k: int| #![trigger placed@[k]] 0 <= k < n ==> placed@[k] == (CapturedWindow {
                monitor_id: placed@[k].monitor_id,
                ..windows@[k]
            }) && placed@[k].monitor_id@ == keys[k].0,
            p <= order@.len(),
            out@.len() == p,
            forall|q: int| #![trigger out@[q]] 0 <= q < p ==> out@[q] == placed@[sorted_indices(keys, n as int)[q]],
        decreases order@.len() - p,
    {
        let idx = order[p];
        assert(sorted_indices(keys, n as int)[p as int] == idx as int);
        out.push(placed[idx].copy());
        p = p + 1;
    }
    proof {
        let order_s = sorted_indices(keys, n as int);
        assert forall|q: int| #![trigger out@[q]] 0 <= q < out@.len() implies out@[q] == (CapturedWindow {
            monitor_id: out@[q].monitor_id,
            ..windows@[order_s[q]]
        }) && out@[q].monitor_id@ == keys[order_s[q]].0 by {
            assert(0 <= order_s[q] < n);
            assert(placed@[order_s[q]] == (CapturedWindow {
                monitor_id: placed@[order_s[q]].monitor_id,
                ..windows@[order_s[q]]
            }));
        }
    }
    out
}

} // verus!
