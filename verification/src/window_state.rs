//! Window geometry kept in the portable tree.
//!
//! The geometry of every window is saved on move, resize and quit, but only
//! written when it differs from what was last written; a saved position is
//! only restored while it still overlaps a monitor that exists, so a window
//! left on an unplugged monitor comes back on-screen. This module takes
//! those decisions; talking to the windows and the disk is the caller's.

use vstd::prelude::*;

verus! {

/// A window's outer position, inner size and maximized flag.
#[derive(Debug, Clone, Copy, PartialEq, Eq, Structural)]
pub struct Geometry {
    pub x: i32,
    pub y: i32,
    pub width: u32,
    pub height: u32,
    pub maximized: bool,
}

/// The area a monitor covers, in physical pixels.
#[derive(Debug, Clone, Copy, PartialEq, Eq, Structural)]
pub struct MonitorArea {
    pub x: i32,
    pub y: i32,
    pub width: u32,
    pub height: u32,
}

/// A size read as the signed 32-bit value it is added as.
pub open spec fn signed(v: u32) -> int {
    if v <= i32::MAX {
        v as int
    } else {
        v - 0x1_0000_0000
    }
}

/// Whether a window of `geometry`'s size placed at (`x`, `y`) overlaps the
/// monitor. Overlap rather than "origin inside": a window at a negative
/// offset on a monitor left of the primary is legal and common.
pub open spec fn overlaps(x: i32, y: i32, geometry: Geometry, m: MonitorArea) -> bool {
    &&& x + signed(geometry.width) > m.x
    &&& x < m.x + signed(m.width)
    &&& y + signed(geometry.height) > m.y
    &&& y < m.y + signed(m.height)
}

/// The window lies wholly below, above, left of or right of the monitor:
/// its span misses the monitor's span on one axis.
pub open spec fn separated(x: i32, y: i32, geometry: Geometry, m: MonitorArea) -> bool {
    ||| y >= m.y + signed(m.height)
    ||| y + signed(geometry.height) <= m.y
    ||| x >= m.x + signed(m.width)
    ||| x + signed(geometry.width) <= m.x
}

/// A window overlaps a monitor exactly when it is not wholly below, above,
/// left of or right of it. So a window saved on a since-removed monitor,
/// lying beyond every remaining one, is on no monitor and keeps its
/// configured place.
pub proof fn lemma_overlap_is_not_separation(x: i32, y: i32, geometry: Geometry, monitors: Seq<MonitorArea>)
    ensures
        forall|i: int|
            0 <= i < monitors.len() ==> (overlaps(x, y, geometry, #[trigger] monitors[i]) <==> !separated(
                x,
                y,
                geometry,
                monitors[i],
            )),
        (forall|i: int| 0 <= i < monitors.len() ==> separated(x, y, geometry, #[trigger] monitors[i])) ==> !exists|
            i: int,
        | 0 <= i < monitors.len() && overlaps(x, y, geometry, #[trigger] monitors[i]),
        forall|i: int|
            0 <= i < monitors.len() && monitors[i].x <= x && x < monitors[i].x + signed(monitors[i].width)
                && monitors[i].y <= y && y < monitors[i].y + signed(monitors[i].height) && signed(geometry.width)
                > 0 && signed(geometry.height) > 0 ==> overlaps(x, y, geometry, #[trigger] monitors[i]),
{
}

/// `v` is a value of `i32`.
pub open spec fn in_i32(v: int) -> bool {
    i32::MIN <= v <= i32::MAX
}

/// The sums the overlap test evaluates for this monitor stay within 32 bits.
/// The test stops at the first comparison that fails, so a sum it never
/// reaches is not asked for.
pub open spec fn overlap_test_fits(x: i32, y: i32, geometry: Geometry, m: MonitorArea) -> bool {
    &&& in_i32(x + signed(geometry.width))
    &&& x + signed(geometry.width) > m.x ==> {
        &&& in_i32(m.x + signed(m.width))
        &&& x < m.x + signed(m.width) ==> {
            &&& in_i32(y + signed(geometry.height))
            &&& y + signed(geometry.height) > m.y ==> in_i32(m.y + signed(m.height))
        }
    }
}

/// The scan reaches monitor `i`: none before it overlaps.
pub open spec fn scan_reaches(x: i32, y: i32, geometry: Geometry, monitors: Seq<MonitorArea>, i: int) -> bool {
    forall|k: int| 0 <= k < i ==> !overlaps(x, y, geometry, #[trigger] monitors[k])
}

/// Every overlap test the scan evaluates stays within 32 bits: the scan
/// stops at the first monitor that overlaps.
pub open spec fn scan_fits(x: i32, y: i32, geometry: Geometry, monitors: Seq<MonitorArea>) -> bool {
    forall|i: int|
        0 <= i < monitors.len() && #[trigger] scan_reaches(x, y, geometry, monitors, i) ==> overlap_test_fits(
            x,
            y,
            geometry,
            monitors[i],
        )
}

/// The scan's precondition on an optional monitor list.
pub open spec fn scan_fits_opt(x: i32, y: i32, geometry: Geometry, monitors: Option<&Vec<MonitorArea>>) -> bool {
    monitors is Some ==> scan_fits(x, y, geometry, monitors->0@)
}

fn as_signed(v: u32) -> (r: i32)
    ensures
        r == signed(v),
{
    let r = v as i32;
    assert(r == signed(v)) by (bit_vector)
        requires
            r == v as i32,
    ;
    r
}

/// Whether a position lands on a monitor that exists now. `None` stands for
/// a monitor list that could not be obtained, which counts as no monitor.
/// Monitors are tried in order until one overlaps.
pub fn position_is_on_a_monitor(monitors: Option<&Vec<MonitorArea>>, x: i32, y: i32, geometry: &Geometry) -> (r: bool)
    requires
        scan_fits_opt(x, y, *geometry, monitors),
    ensures
        r == (monitors is Some && exists|i: int|
            0 <= i < monitors->0@.len() && overlaps(x, y, *geometry, #[trigger] monitors->0@[i])),
{
    let list = match monitors {
        Some(m) => m,
        None => return false,
    };
    assert(list@ == monitors->0@);
    let w = as_signed(geometry.width);
    let h = as_signed(geometry.height);
    let mut i: usize = 0;
    while i < list.len()
        invariant
            i <= list.len(),
            monitors is Some && list@ == monitors->0@,
            w == signed(geometry.width),
            h == signed(geometry.height),
            scan_fits(x, y, *geometry, list@),
            scan_reaches(x, y, *geometry, list@, i as int),
        decreases list.len() - i,
    {
        let m = list[i];
        assert(overlap_test_fits(x, y, *geometry, list@[i as int]));
        let mw = as_signed(m.width);
        let mh = as_signed(m.height);
        if x + w > m.x && x < m.x + mw && y + h > m.y && y < m.y + mh {
            assert(overlaps(x, y, *geometry, monitors->0@[i as int]));
            return true;
        }
        assert(scan_reaches(x, y, *geometry, list@, i + 1));
        i = i + 1;
    }
    false
}

/// Whether scanning the monitors for the position would leave the 32-bit
/// range, so the caller can refuse the scan as an arithmetic overflow.
pub fn monitor_scan_overflows(monitors: Option<&Vec<MonitorArea>>, x: i32, y: i32, geometry: &Geometry) -> (r: bool)
    ensures
        r == !scan_fits_opt(x, y, *geometry, monitors),
{
    let list = match monitors {
        Some(m) => m,
        None => return false,
    };
    assert(list@ == monitors->0@);
    let w = as_signed(geometry.width) as i64;
    let h = as_signed(geometry.height) as i64;
    let mut i: usize = 0;
    while i < list.len()
        invariant
            i <= list.len(),
            monitors is Some && list@ == monitors->0@,
            w == signed(geometry.width),
            h == signed(geometry.height),
            forall|k: int|
                0 <= k < i && #[trigger] scan_reaches(x, y, *geometry, list@, k) ==> overlap_test_fits(
                    x,
                    y,
                    *geometry,
                    list@[k],
                ),
            scan_reaches(x, y, *geometry, list@, i as int),
        decreases list.len() - i,
    {
        let m = list[i];
        let mw = as_signed(m.width) as i64;
        let mh = as_signed(m.height) as i64;
        let min = i32::MIN as i64;
        let max = i32::MAX as i64;
        let right = x as i64 + w;
        let left_edge = m.x as i64 + mw;
        let bottom = y as i64 + h;
        let top_edge = m.y as i64 + mh;
        let fits = min <= right && right <= max && (!(right > m.x as i64) || (min <= left_edge
            && left_edge <= max && (!((x as i64) < left_edge) || (min <= bottom && bottom <= max
            && (!(bottom > m.y as i64) || (min <= top_edge && top_edge <= max))))));
        assert(fits == overlap_test_fits(x, y, *geometry, list@[i as int]));
        if !fits {
            assert(!scan_fits(x, y, *geometry, list@));
            return true;
        }
        let hit = right > m.x as i64 && (x as i64) < left_edge && bottom > m.y as i64 && (y as i64) < top_edge;
        assert(hit == overlaps(x, y, *geometry, list@[i as int]));
        if hit {
            assert forall|k: int|
                0 <= k < list@.len() && #[trigger] scan_reaches(x, y, *geometry, list@, k) implies overlap_test_fits(
                x,
                y,
                *geometry,
                list@[k],
            ) by {
                if k > i {
                    assert(!overlaps(x, y, *geometry, list@[i as int]));
                }
            }
            return false;
        }
        assert(scan_reaches(x, y, *geometry, list@, i + 1));
        i = i + 1;
    }
    false
}

/// What restoring one window does.
#[derive(Debug, Clone, Copy)]
pub struct RestorePlan {
    /// The saved position, when it still overlaps a monitor.
    pub position: Option<(i32, i32)>,
    /// The saved size, applied together with the saved position.
    pub size: Option<(u32, u32)>,
    /// Whether to maximize the window.
    pub maximize: bool,
}

/// How a window with saved `geometry` is restored: the saved position and
/// size only when the position still overlaps a monitor (otherwise the
/// window keeps the size and position its configuration declares, the only
/// thing guaranteed to be on-screen), and maximized when it was.
pub fn restore_plan(geometry: &Geometry, monitors: Option<&Vec<MonitorArea>>) -> (plan: RestorePlan)
    requires
        scan_fits_opt(geometry.x, geometry.y, *geometry, monitors),
    ensures
        plan.position == (if monitors is Some && exists|i: int|
            0 <= i < monitors->0@.len() && overlaps(
                geometry.x,
                geometry.y,
                *geometry,
                #[trigger] monitors->0@[i],
            ) {
            Some((geometry.x, geometry.y))
        } else {
            None
        }),
        plan.size == (if plan.position is Some {
            Some((geometry.width, geometry.height))
        } else {
            None
        }),
        plan.maximize == geometry.maximized,
{
    let on_screen = position_is_on_a_monitor(monitors, geometry.x, geometry.y, geometry);
    if on_screen {
        RestorePlan {
            position: Some((geometry.x, geometry.y)),
            size: Some((geometry.width, geometry.height)),
            maximize: geometry.maximized,
        }
    } else {
        RestorePlan { position: None, size: None, maximize: geometry.maximized }
    }
}

/// One window's saved geometry, under the window's label.
#[derive(Debug)]
pub struct SavedWindow {
    pub label: String,
    pub geometry: Geometry,
}

/// What was read from one window when saving: its label, its outer
/// position and inner size (`None` when the query failed) and whether it is
/// maximized (`None` when that query failed).
#[derive(Debug)]
pub struct WindowReading {
    pub label: String,
    pub position: Option<(i32, i32)>,
    pub size: Option<(u32, u32)>,
    pub maximized: Option<bool>,
}

/// The geometry a reading contributes, if any: a window whose position or
/// size cannot be read, or whose size is zero, is left out. A hidden window
/// reports its last geometry, which is what is kept.
pub open spec fn reading_geometry(r: WindowReading) -> Option<Geometry> {
    match (r.position, r.size) {
        (Some(p), Some(sz)) => if sz.0 == 0 || sz.1 == 0 {
            None
        } else {
            Some(
                Geometry {
                    x: p.0,
                    y: p.1,
                    width: sz.0,
                    height: sz.1,
                    maximized: match r.maximized {
                        Some(m) => m,
                        None => false,
                    },
                },
            )
        },
        _ => None,
    }
}

/// A state as (label, geometry) entries.
pub open spec fn state_view(s: Seq<SavedWindow>) -> Seq<(Seq<char>, Geometry)> {
    s.map_values(|w: SavedWindow| (w.label@, w.geometry))
}

/// The entries the readings contribute, in reading order.
pub open spec fn snapshot_view(readings: Seq<WindowReading>) -> Seq<(Seq<char>, Geometry)>
    decreases readings.len(),
{
    if readings.len() == 0 {
        Seq::empty()
    } else {
        let rest = snapshot_view(readings.drop_last());
        match reading_geometry(readings.last()) {
            Some(g) => rest.push((readings.last().label@, g)),
            None => rest,
        }
    }
}

/// A snapshot of readings taken one after another is the snapshot of the
/// earlier ones followed by what the last one contributes: a readable window
/// with a non-zero size contributes its label with its position, its size
/// and its maximized flag (false only when that query failed); any other
/// window contributes nothing.
pub proof fn lemma_snapshot_takes_each_window(readings: Seq<WindowReading>, r: WindowReading)
    ensures
        ({
            let v = snapshot_view(readings.push(r));
            let before = snapshot_view(readings);
            let pos = r.position->0;
            let sz = r.size->0;
            if r.position is Some && r.size is Some && sz.0 != 0 && sz.1 != 0 {
                v == before.push(
                    (
                        r.label@,
                        Geometry {
                            x: pos.0,
                            y: pos.1,
                            width: sz.0,
                            height: sz.1,
                            maximized: r.maximized == Some(true),
                        },
                    ),
                )
            } else {
                v == before
            }
        }),
{
    assert(readings.push(r).drop_last() =~= readings);
}

/// The state as the label-to-geometry map that is written to disk. A state
/// is held as a list of entries with distinct labels and compared through
/// this map: vstd's map specifications rest on a key model that it provides
/// for integer and boolean keys, not for `String` labels.
pub open spec fn state_map(v: Seq<(Seq<char>, Geometry)>) -> Map<Seq<char>, Geometry>
    decreases v.len(),
{
    if v.len() == 0 {
        Map::empty()
    } else {
        state_map(v.drop_last()).insert(v.last().0, v.last().1)
    }
}

/// No label occurs twice.
pub open spec fn labels_distinct(v: Seq<(Seq<char>, Geometry)>) -> bool {
    forall|i: int, j: int| 0 <= i < j < v.len() ==> #[trigger] v[i].0 != #[trigger] v[j].0
}

/// No two readings name the same window.
pub open spec fn readings_distinct(r: Seq<WindowReading>) -> bool {
    forall|i: int, j: int| 0 <= i < j < r.len() ==> #[trigger] r[i].label@ != #[trigger] r[j].label@
}

proof fn lemma_state_map(v: Seq<(Seq<char>, Geometry)>)
    requires
        labels_distinct(v),
    ensures
        forall|l: Seq<char>| #[trigger]
            state_map(v).contains_key(l) <==> exists|i: int| 0 <= i < v.len() && v[i].0 == l,
        forall|i: int| 0 <= i < v.len() ==> #[trigger] state_map(v)[v[i].0] == v[i].1,
    decreases v.len(),
{
    if v.len() > 0 {
        let u = v.drop_last();
        assert forall|i: int, j: int| 0 <= i < j < u.len() implies #[trigger] u[i].0 != #[trigger] u[j].0 by {
            assert(u[i] == v[i] && u[j] == v[j]);
        }
        lemma_state_map(u);
        assert(state_map(v) == state_map(u).insert(v.last().0, v.last().1));
        assert(v.last() == v[v.len() - 1]);
        assert forall|l: Seq<char>| #[trigger]
            state_map(v).contains_key(l) implies exists|i: int| 0 <= i < v.len() && v[i].0 == l by {
            if l != v.last().0 {
                assert(state_map(u).contains_key(l));
                let i = choose|i: int| 0 <= i < u.len() && u[i].0 == l;
                assert(v[i].0 == l);
            } else {
                assert(v[v.len() - 1].0 == l);
            }
        }
        assert forall|l: Seq<char>| (exists|i: int| 0 <= i < v.len() && v[i].0 == l) implies #[trigger]
            state_map(v).contains_key(l) by {
            let i = choose|i: int| 0 <= i < v.len() && v[i].0 == l;
            if i < v.len() - 1 {
                assert(u[i].0 == l);
                assert(state_map(u).contains_key(l));
            }
        }
        assert forall|i: int| 0 <= i < v.len() implies #[trigger] state_map(v)[v[i].0] == v[i].1 by {
            if i < v.len() - 1 {
                assert(u[i] == v[i]);
                assert(v[i].0 != v[v.len() - 1].0);
                assert(state_map(u)[u[i].0] == u[i].1);
            }
        }
    }
}

/// `e` is one of the entries of `b`.
pub open spec fn contains_entry(b: Seq<(Seq<char>, Geometry)>, e: (Seq<char>, Geometry)) -> bool {
    exists|j: int| 0 <= j < b.len() && #[trigger] b[j] == e
}

/// Every entry of `a` occurs in `b` with the same geometry.
pub open spec fn entries_within(a: Seq<(Seq<char>, Geometry)>, b: Seq<(Seq<char>, Geometry)>) -> bool {
    forall|i: int| 0 <= i < a.len() ==> contains_entry(b, #[trigger] a[i])
}

proof fn lemma_within_gives_map_agreement(a: Seq<(Seq<char>, Geometry)>, b: Seq<(Seq<char>, Geometry)>)
    requires
        labels_distinct(a),
        labels_distinct(b),
        entries_within(a, b),
    ensures
        forall|l: Seq<char>| #[trigger] state_map(a).contains_key(l) ==> state_map(b).contains_key(l)
            && state_map(a)[l] == state_map(b)[l],
{
    lemma_state_map(a);
    lemma_state_map(b);
    assert forall|l: Seq<char>| #[trigger] state_map(a).contains_key(l) implies state_map(b).contains_key(l)
        && state_map(a)[l] == state_map(b)[l] by {
        let i = choose|i: int| 0 <= i < a.len() && a[i].0 == l;
        assert(contains_entry(b, a[i]));
        let j = choose|j: int| 0 <= j < b.len() && #[trigger] b[j] == a[i];
        assert(state_map(b)[b[j].0] == b[j].1);
        assert(state_map(a)[a[i].0] == a[i].1);
        assert(b[j].0 == l);
    }
}

proof fn lemma_map_agreement_gives_within(a: Seq<(Seq<char>, Geometry)>, b: Seq<(Seq<char>, Geometry)>)
    requires
        labels_distinct(a),
        labels_distinct(b),
        state_map(a) == state_map(b),
    ensures
        entries_within(a, b),
{
    lemma_state_map(a);
    lemma_state_map(b);
    assert forall|i: int| 0 <= i < a.len() implies contains_entry(b, #[trigger] a[i]) by {
        assert(state_map(a).contains_key(a[i].0));
        let j = choose|j: int| 0 <= j < b.len() && b[j].0 == a[i].0;
        assert(state_map(b)[b[j].0] == b[j].1);
        assert(state_map(a)[a[i].0] == a[i].1);
        assert(b[j] == a[i]);
    }
}

proof fn lemma_same_state(a: Seq<(Seq<char>, Geometry)>, b: Seq<(Seq<char>, Geometry)>)
    requires
        labels_distinct(a),
        labels_distinct(b),
    ensures
        (state_map(a) == state_map(b)) == (entries_within(a, b) && entries_within(b, a)),
{
    if entries_within(a, b) && entries_within(b, a) {
        lemma_within_gives_map_agreement(a, b);
        lemma_within_gives_map_agreement(b, a);
        assert(state_map(a) =~= state_map(b));
    }
    if state_map(a) == state_map(b) {
        lemma_map_agreement_gives_within(a, b);
        lemma_map_agreement_gives_within(b, a);
    }
}

fn entries_within_exec(a: &Vec<SavedWindow>, b: &Vec<SavedWindow>) -> (r: bool)
    ensures
        r == entries_within(state_view(a@), state_view(b@)),
{
    let ghost av = state_view(a@);
    let ghost bv = state_view(b@);
    let mut i: usize = 0;
    while i < a.len()
        invariant
            i <= a.len(),
            av == state_view(a@),
            bv == state_view(b@),
            forall|k: int| 0 <= k < i ==> contains_entry(bv, #[trigger] av[k]),
        decreases a.len() - i,
    {
        let mut j: usize = 0;
        let mut found = false;
        while j < b.len()
            invariant
                i < a.len(),
                j <= b.len(),
                av == state_view(a@),
                bv == state_view(b@),
                found ==> contains_entry(bv, av[i as int]),
                !found ==> forall|q: int| 0 <= q < j ==> #[trigger] bv[q] != av[i as int],
            decreases b.len() - j,
        {
            if !found && b[j].label == a[i].label && b[j].geometry == a[i].geometry {
                assert(bv[j as int] == av[i as int]);
                found = true;
            }
            j = j + 1;
        }
        if !found {
            assert(!contains_entry(bv, av[i as int]));
            return false;
        }
        i = i + 1;
    }
    true
}

/// The state a save would write: the geometry of every readable window with
/// a non-zero size, under its label.
pub fn snapshot_state(readings: &Vec<WindowReading>) -> (state: Vec<SavedWindow>)
    requires
        readings_distinct(readings@),
    ensures
        state_view(state@) == snapshot_view(readings@),
        labels_distinct(state_view(state@)),
{
    let mut state: Vec<SavedWindow> = Vec::new();
    let ghost mut src: Seq<int> = Seq::empty();
    let mut i: usize = 0;
    while i < readings.len()
        invariant
            i <= readings.len(),
            readings_distinct(readings@),
            state_view(state@) == snapshot_view(readings@.take(i as int)),
            src.len() == state@.len(),
            forall|k: int| 0 <= k < state@.len() ==> 0 <= #[trigger] src[k] < i && readings@[src[k]].label@ == state@[k].label@,
            labels_distinct(state_view(state@)),
        decreases readings.len() - i,
    {
        let r = &readings[i];
        assert(readings@.take(i + 1).drop_last() =~= readings@.take(i as int));
        let geometry: Option<Geometry> = match (r.position, r.size) {
            (Some(p), Some(sz)) => if sz.0 == 0 || sz.1 == 0 {
                None
            } else {
                Some(
                    Geometry {
                        x: p.0,
                        y: p.1,
                        width: sz.0,
                        height: sz.1,
                        maximized: match r.maximized {
                            Some(m) => m,
                            None => false,
                        },
                    },
                )
            },
            _ => None,
        };
        assert(geometry == reading_geometry(readings@[i as int]));
        if let Some(g) = geometry {
            let ghost before = state@;
            state.push(SavedWindow { label: r.label.clone(), geometry: g });
            assert(state_view(state@) =~= state_view(before).push((readings@[i as int].label@, g)));
            proof {
                src = src.push(i as int);
            }
            assert forall|a: int, b: int| 0 <= a < b < state_view(state@).len() implies #[trigger] state_view(state@)[a].0 != #[trigger] state_view(state@)[b].0 by {
                if b == state@.len() - 1 {
                    assert(state@[a] == before[a]);
                    assert(src[a] < i);
                    assert(readings@[src[a]].label@ != readings@[i as int].label@);
                } else {
                    assert(state@[a] == before[a]);
                    assert(state@[b] == before[b]);
                }
            }
        }
        i = i + 1;
    }
    assert(readings@.take(readings.len() as int) =~= readings@);
    state
}

/// A state that was just written is not written again, and after the cache
/// is cleared any non-empty state is.
pub proof fn lemma_written_state_is_not_rewritten(last: Seq<(Seq<char>, Geometry)>, state: Seq<(Seq<char>, Geometry)>)
    ensures
        last == state ==> state_map(last) == state_map(state),
        last.len() == 0 && state.len() > 0 ==> state_map(last) != state_map(state),
{
    if last.len() == 0 && state.len() > 0 {
        assert(state_map(state).contains_key(state.last().0));
        assert(!state_map(last).contains_key(state.last().0));
    }
}

/// What was last written, so that unchanged geometry is not written again.
#[derive(Debug)]
pub struct WindowStateCache {
    pub last_written: Option<Vec<SavedWindow>>,
}

impl WindowStateCache {
    /// Labels are unique in what was last written.
    pub open spec fn wf(&self) -> bool {
        self.last_written is Some ==> labels_distinct(state_view(self.last_written->0@))
    }

    /// A cache that has written nothing yet.
    pub fn new() -> (r: WindowStateCache)
        ensures
            r.last_written is None,
            r.wf(),
    {
        WindowStateCache { last_written: None }
    }

    /// Whether a save of `state` writes it: never for an empty state, and
    /// not when it equals, as a label-to-geometry map, what was last written.
    pub fn should_write(&self, state: &Vec<SavedWindow>) -> (r: bool)
        requires
            self.wf(),
            labels_distinct(state_view(state@)),
        ensures
            r == (state@.len() > 0 && !(self.last_written is Some && state_map(
                state_view(self.last_written->0@),
            ) == state_map(state_view(state@)))),
    {
        if state.len() == 0 {
            return false;
        }
        match &self.last_written {
            Some(last) => {
                proof {
                    lemma_same_state(state_view(last@), state_view(state@));
                }
                let same = entries_within_exec(last, state) && entries_within_exec(state, last);
                !same
            },
            None => true,
        }
    }

    /// Remembers `state` as written. A save records its state whether or not
    /// the write succeeded.
    pub fn mark_written(&mut self, state: Vec<SavedWindow>)
        requires
            labels_distinct(state_view(state@)),
        ensures
            final(self).last_written is Some,
            final(self).last_written->0@ == state@,
            final(self).wf(),
    {
        self.last_written = Some(state);
    }

    /// Forgets the stored geometry: the next save writes any non-empty state.
    pub fn clear(&mut self)
        ensures
            final(self).last_written is Some,
            final(self).last_written->0@.len() == 0,
            final(self).wf(),
    {
        self.last_written = Some(Vec::new());
    }
}

} // verus!
