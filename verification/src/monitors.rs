//! Monitor descriptions from what the display API reports, and the list
//! the rest of the library works with (never empty, always with a primary).

use vstd::prelude::*;

use crate::models::{FloatBits, MonitorInfo, ONE_BITS};
use crate::numbers::{digits_of, format_u64};
use crate::text::{is_blank, is_blank_str};

verus! {

/// What the display API reports about one monitor.
#[derive(Debug, PartialEq)]
pub struct MonitorFacts {
    /// The monitor information could be read.
    pub ok: bool,
    /// Full bounds, `(left, top, right, bottom)`.
    pub full: (i32, i32, i32, i32),
    /// Work area, `(left, top, right, bottom)`.
    pub work: (i32, i32, i32, i32),
    /// The monitor flags; bit 0 marks the primary monitor.
    pub flags: u32,
    /// The device name as UTF-16 units, up to a terminating zero.
    pub device: Vec<u16>,
    /// The effective DPI divided by 96, when it could be read.
    pub dpi_scale: Option<FloatBits>,
}

/// The text of UTF-16 units, as `String::from_utf16_lossy` documents it:
/// a high surrogate followed by a low one is one character, every other
/// surrogate becomes U+FFFD, and every other unit is the character with
/// that number.
pub open spec fn utf16_lossy(units: Seq<u16>) -> Seq<char>
    decreases units.len(),
{
    if units.len() == 0 {
        Seq::empty()
    } else if 0xD800 <= units[0] < 0xDC00 && units.len() >= 2 && 0xDC00 <= units[1] < 0xE000 {
        seq![(0x10000 + (units[0] - 0xD800) * 0x400 + (units[1] - 0xDC00)) as char]
            + utf16_lossy(units.subrange(2, units.len() as int))
    } else if 0xD800 <= units[0] < 0xE000 {
        seq!['\u{FFFD}'] + utf16_lossy(units.drop_first())
    } else {
        seq![units[0] as char] + utf16_lossy(units.drop_first())
    }
}

/// `String::from_utf16_lossy`: the text of the units, decoded as its
/// documentation says (see `utf16_lossy`).
#[verifier::external_body]
fn utf16_text(units: &[u16]) -> (s: String)
    ensures
        s@ == utf16_lossy(units@),
{
    String::from_utf16_lossy(units)
}

/// Number of units before the first zero (all of them when there is none).
pub open spec fn name_len(units: Seq<u16>) -> int
    decreases units.len(),
{
    if units.len() == 0 {
        0
    } else if units[0] == 0 {
        0
    } else {
        1 + name_len(units.drop_first())
    }
}

proof fn lemma_name_len(units: Seq<u16>)
    ensures
        0 <= name_len(units) <= units.len(),
        name_len(units) < units.len() ==> units[name_len(units)] == 0,
        forall|j: int| 0 <= j < name_len(units) ==> #[trigger] units[j] != 0,
    decreases units.len(),
{
    if units.len() > 0 && units[0] != 0 {
        lemma_name_len(units.drop_first());
        assert forall|j: int| 0 <= j < name_len(units) implies #[trigger] units[j] != 0 by {
            if j > 0 {
                assert(units[j] == units.drop_first()[j - 1]);
            }
        }
    }
}

/// The device name of a monitor: the units up to the first zero.
pub open spec fn device_name_spec(units: Seq<u16>) -> Seq<char> {
    utf16_lossy(units.take(name_len(units)))
}

/// The device name of a monitor (see `device_name_spec`).
pub fn device_name(units: &[u16]) -> (s: String)
    ensures
        s@ == device_name_spec(units@),
{
    proof {
        lemma_name_len(units@);
    }
    let mut prefix: Vec<u16> = Vec::new();
    let mut i: usize = 0;
    while i < units.len() && units[i] != 0
        invariant
            i <= units@.len(),
            i <= name_len(units@),
            prefix@ == units@.take(i as int),
            0 <= name_len(units@) <= units@.len(),
            name_len(units@) < units@.len() ==> units@[name_len(units@)] == 0,
            forall|j: int| 0 <= j < name_len(units@) ==> #[trigger] units@[j] != 0,
        decreases units@.len() - i,
    {
        prefix.push(units[i]);
        i = i + 1;
        assert(prefix@ =~= units@.take(i as int));
    }
    assert(i == name_len(units@));
    utf16_text(prefix.as_slice())
}

/// A scale is usable when it is above zero: the sign bit is clear, it is
/// not zero and not NaN (positive infinity counts).
pub open spec fn positive_bits(f: FloatBits) -> bool {
    0 < f.bits <= 0x7FF0_0000_0000_0000
}

/// The DPI scale of a monitor: the reported one when it is above zero,
/// else 1.0.
pub open spec fn scale_spec(reported: Option<FloatBits>) -> FloatBits {
    match reported {
        Some(s) => if positive_bits(s) { s } else { FloatBits { bits: ONE_BITS } },
        None => FloatBits { bits: ONE_BITS },
    }
}

/// `max(hi - lo, 0)`.
pub open spec fn span(lo: i32, hi: i32) -> int {
    if hi - lo > 0 { hi - lo } else { 0 }
}

/// The differences of the reported rectangles fit in `i32`.
pub open spec fn facts_fit(f: MonitorFacts) -> bool {
    &&& i32::MIN <= f.full.2 - f.full.0 <= i32::MAX
    &&& i32::MIN <= f.full.3 - f.full.1 <= i32::MAX
    &&& i32::MIN <= f.work.2 - f.work.0 <= i32::MAX
    &&& i32::MIN <= f.work.3 - f.work.1 <= i32::MAX
}

/// `m` describes the monitor reported by `f`, the `index`-th one listed.
pub open spec fn describes(m: MonitorInfo, f: MonitorFacts, index: usize) -> bool {
    let name = device_name_spec(f.device@);
    &&& m.id@ == if is_blank(name) { "monitor-"@ + digits_of(index as nat) } else { name }
    &&& m.x == f.full.0 && m.y == f.full.1
    &&& m.w == span(f.full.0, f.full.2) && m.h == span(f.full.1, f.full.3)
    &&& m.work_x == f.work.0 && m.work_y == f.work.1
    &&& m.work_w == span(f.work.0, f.work.2) && m.work_h == span(f.work.1, f.work.3)
    &&& m.scale == scale_spec(f.dpi_scale)
    &&& m.is_primary == (f.flags & 1 != 0)
    &&& m.name@ == name
}

fn span_of(lo: i32, hi: i32) -> (r: i32)
    requires
        i32::MIN <= hi - lo <= i32::MAX,
    ensures
        r == span(lo, hi),
{
    let d = hi - lo;
    if d > 0 { d } else { 0 }
}

/// The monitor described by what the display API reported, or `None` when
/// its information could not be read. A blank device name gives the id
/// `monitor-<index>`.
pub fn describe_monitor(f: &MonitorFacts, index: usize) -> (r: Option<MonitorInfo>)
    requires
        facts_fit(*f),
    ensures
        !f.ok ==> r is None,
        f.ok ==> (r matches Some(m) && describes(m, *f, index)),
{
    if !f.ok {
        return None;
    }
    let scale = match f.dpi_scale {
        Some(s) => if 0 < s.bits && s.bits <= 0x7FF0_0000_0000_0000 { s } else { FloatBits { bits: ONE_BITS } },
        None => FloatBits { bits: ONE_BITS },
    };
    let name = device_name(f.device.as_slice());
    let id = if is_blank_str(name.as_str()) {
        String::from_str("monitor-").concat(format_u64(index as u64).as_str())
    } else {
        name.clone()
    };
    Some(MonitorInfo {
        id,
        x: f.full.0,
        y: f.full.1,
        w: span_of(f.full.0, f.full.2),
        h: span_of(f.full.1, f.full.3),
        work_x: f.work.0,
        work_y: f.work.1,
        work_w: span_of(f.work.0, f.work.2),
        work_h: span_of(f.work.1, f.work.3),
        scale,
        is_primary: f.flags & 1 != 0,
        name,
    })
}

/// The monitor assumed when none can be listed: a 1920x1080 primary with a
/// 40-pixel task bar at the bottom.
pub open spec fn is_mock_primary(m: MonitorInfo) -> bool {
    &&& m.id@ == "primary"@
    &&& m.x == 0 && m.y == 0 && m.w == 1920 && m.h == 1080
    &&& m.work_x == 0 && m.work_y == 0 && m.work_w == 1920 && m.work_h == 1040
    &&& m.scale == FloatBits { bits: ONE_BITS }
    &&& m.is_primary
    &&& m.name@ == "Primary"@
}

/// The monitor assumed when none can be listed.
pub fn mock_primary() -> (m: MonitorInfo)
    ensures
        is_mock_primary(m),
{
    MonitorInfo {
        id: String::from_str("primary"),
        x: 0,
        y: 0,
        w: 1920,
        h: 1080,
        work_x: 0,
        work_y: 0,
        work_w: 1920,
        work_h: 1040,
        scale: FloatBits { bits: ONE_BITS },
        is_primary: true,
        name: String::from_str("Primary"),
    }
}

/// The monitors to work with from those described: the mock primary when
/// there is none; otherwise all of them, the first made primary when none
/// is.
pub fn finish_monitors(described: Vec<MonitorInfo>) -> (out: Vec<MonitorInfo>)
    ensures
        described@.len() == 0 ==> out@.len() == 1 && is_mock_primary(out@[0]),
        described@.len() > 0 && (exists|i: int| 0 <= i < described@.len() && (#[trigger] described@[i]).is_primary)
            ==> out@ == described@,
        described@.len() > 0 && !(exists|i: int| 0 <= i < described@.len() && (#[trigger] described@[i]).is_primary)
            ==> out@ == described@.update(0, MonitorInfo { is_primary: true, ..described@[0] }),
        out@.len() > 0,
        exists|i: int| 0 <= i < out@.len() && (#[trigger] out@[i]).is_primary,
{
    if described.len() == 0 {
        let mut v: Vec<MonitorInfo> = Vec::new();
        v.push(mock_primary());
        assert(v@[0].is_primary);
        return v;
    }
    let mut i: usize = 0;
    while i < described.len()
        invariant
            i <= described@.len(),
            forall|j: int| 0 <= j < i ==> !(#[trigger] described@[j]).is_primary,
        decreases described@.len() - i,
    {
        if described[i].is_primary {
            assert(described@[i as int].is_primary);
            return described;
        }
        i = i + 1;
    }
    let mut out = described;
    let mut first = out.remove(0);
    first.is_primary = true;
    out.insert(0, first);
    assert(out@[0].is_primary);
    assert(out@ =~= described@.update(0, MonitorInfo { is_primary: true, ..described@[0] }));
    out
}

} // verus!
