//! Monitor discovery: turning the display configuration that Windows reports
//! into the list of monitors the overlay can be placed on, and choosing the
//! primary one.

use vstd::prelude::*;

use crate::wide::{
    decode_wide_lossy, lemma_padded_name_round_trip, lemma_strip_trailing_nul,
    strip_trailing_nul, trim_trailing_nul, utf16_decode_lossy, utf16_encode,
};

verus! {

/// `ERROR_SUCCESS`: the display configuration call succeeded.
pub const ERROR_SUCCESS: u32 = 0;

/// `ERROR_INSUFFICIENT_BUFFER`: the configuration changed between sizing the
/// buffers and filling them; the query has to be repeated.
pub const ERROR_INSUFFICIENT_BUFFER: u32 = 122;

/// `DISPLAYCONFIG_MODE_INFO_TYPE_SOURCE`: a mode entry that describes a source
/// (a desktop surface with a position).
pub const MODE_INFO_TYPE_SOURCE: i32 = 1;

/// A locally unique adapter identifier (`LUID`).
#[derive(Clone, Copy, Debug, PartialEq, Eq, Structural)]
pub struct AdapterId {
    pub low_part: u32,
    pub high_part: i32,
}

/// What the overlay reads of one active display path.
pub struct DisplayPath {
    /// Adapter of the path's source.
    pub source_adapter: AdapterId,
    /// Identifier of the path's source on that adapter.
    pub source_id: u32,
    /// The target's `monitorFriendlyDeviceName`, NUL-padded UTF-16.
    pub friendly_name: Vec<u16>,
}

/// What the overlay reads of one display mode entry.
pub struct DisplayMode {
    pub info_type: i32,
    pub adapter: AdapterId,
    pub id: u32,
    /// Horizontal desktop position of a source mode.
    pub position_x: i32,
}

/// A monitor the overlay can be shown on: its name and its horizontal position.
#[derive(Clone, Debug)]
pub struct MonitorPos {
    pub name: String,
    pub pos_x: i32,
}

/// The mathematical value of a [`MonitorPos`].
pub ghost struct MonitorView {
    pub name: Seq<char>,
    pub pos_x: i32,
}

impl View for MonitorPos {
    type V = MonitorView;

    open spec fn view(&self) -> MonitorView {
        MonitorView { name: self.name@, pos_x: self.pos_x }
    }
}

/// What to do after `QueryDisplayConfig` returned `status`.
#[derive(Clone, Copy, Debug, PartialEq, Eq, Structural)]
pub enum QueryStep {
    /// The buffers were filled: go on with the paths.
    Done,
    /// The buffers were too small: size them again and repeat the query.
    Retry,
    /// The query failed: no monitor list can be given.
    Fail,
}

/// Decides how the display configuration query goes on after a call.
pub fn display_query_step(status: u32) -> (step: QueryStep)
    ensures
        step == (if status == ERROR_INSUFFICIENT_BUFFER {
            QueryStep::Retry
        } else if status == ERROR_SUCCESS {
            QueryStep::Done
        } else {
            QueryStep::Fail
        }),
{
    if status == ERROR_INSUFFICIENT_BUFFER {
        QueryStep::Retry
    } else if status == ERROR_SUCCESS {
        QueryStep::Done
    } else {
        QueryStep::Fail
    }
}

/// Whether `mode` is the source mode of `path`.
pub open spec fn is_source_mode_of(mode: DisplayMode, path: DisplayPath) -> bool {
    &&& mode.info_type == MODE_INFO_TYPE_SOURCE
    &&& mode.adapter == path.source_adapter
    &&& mode.id == path.source_id
}

/// Index of the first source mode of `path` in `modes`.
pub open spec fn first_source_mode(modes: Seq<DisplayMode>, path: DisplayPath) -> Option<int>
    decreases modes.len(),
{
    if modes.len() == 0 {
        None
    } else if is_source_mode_of(modes[0], path) {
        Some(0)
    } else {
        match first_source_mode(modes.drop_first(), path) {
            Some(i) => Some(i + 1),
            None => None,
        }
    }
}

/// The monitor name Windows reports: the decoded friendly name without its NUL padding.
pub open spec fn friendly_name_of(units: Seq<u16>) -> Seq<char> {
    strip_trailing_nul(utf16_decode_lossy(units))
}

/// The friendly name is the whole decoded buffer except its trailing NUL
/// padding: the decoded buffer is the name followed by NULs only, and the name
/// itself does not end in NUL, whatever its length.
pub proof fn lemma_friendly_name_is_decoded_buffer(units: Seq<u16>)
    ensures
        friendly_name_of(units).len() == 0 || friendly_name_of(units).last() != '\0',
        friendly_name_of(units).len() <= utf16_decode_lossy(units).len(),
        friendly_name_of(units) == utf16_decode_lossy(units).take(friendly_name_of(units).len() as int),
        forall|j: int|
            friendly_name_of(units).len() <= j < utf16_decode_lossy(units).len()
                ==> #[trigger] utf16_decode_lossy(units)[j] == '\0',
{
    lemma_strip_trailing_nul(utf16_decode_lossy(units));
}

/// Any monitor name that does not end in NUL, of any length, written as UTF-16
/// into a NUL-padded buffer, is read back whole as the friendly name.
pub proof fn lemma_friendly_name_round_trip(name: Seq<char>, padding: nat)
    requires
        name.len() == 0 || name.last() != '\0',
    ensures
        friendly_name_of(utf16_encode(name) + Seq::new(padding, |i: int| 0u16)) == name,
{
    lemma_padded_name_round_trip(name, padding);
}

/// The monitors of a display configuration, in path order: one for each path
/// that has a source mode, named after the path's target and placed at that
/// source mode's position.
pub open spec fn monitors_of(paths: Seq<DisplayPath>, modes: Seq<DisplayMode>) -> Seq<MonitorView>
    decreases paths.len(),
{
    if paths.len() == 0 {
        Seq::empty()
    } else {
        let before = monitors_of(paths.drop_last(), modes);
        let path = paths.last();
        match first_source_mode(modes, path) {
            Some(i) => before.push(
                MonitorView { name: friendly_name_of(path.friendly_name@), pos_x: modes[i].position_x },
            ),
            None => before,
        }
    }
}

proof fn lemma_first_source_mode_found(modes: Seq<DisplayMode>, path: DisplayPath)
    ensures
        first_source_mode(modes, path) matches Some(i) ==> 0 <= i < modes.len()
            && is_source_mode_of(modes[i], path),
    decreases modes.len(),
{
    if modes.len() > 0 {
        lemma_first_source_mode_found(modes.drop_first(), path);
    }
}

proof fn lemma_first_source_mode_spec(modes: Seq<DisplayMode>, path: DisplayPath)
    ensures
        match first_source_mode(modes, path) {
            Some(i) => 0 <= i < modes.len() && is_source_mode_of(modes[i], path) && forall|j: int|
                0 <= j < i ==> !is_source_mode_of(#[trigger] modes[j], path),
            None => forall|j: int| 0 <= j < modes.len() ==> !is_source_mode_of(#[trigger] modes[j], path),
        },
    decreases modes.len(),
{
    if modes.len() > 0 {
        let rest = modes.drop_first();
        lemma_first_source_mode_spec(rest, path);
        assert forall|j: int| 1 <= j < modes.len() implies modes[j] == rest[j - 1] by {}
    }
}

/// Whether `path` has a source mode among `modes`.
pub open spec fn has_source_mode(modes: Seq<DisplayMode>, path: DisplayPath) -> bool {
    exists|i: int|
        0 <= i < modes.len() && modes[i].info_type == MODE_INFO_TYPE_SOURCE && modes[i].adapter
            == path.source_adapter && modes[i].id == path.source_id
}

/// Every display path that has a source mode gives exactly one monitor, in path
/// order, whatever the other paths are: the k-th monitor is the k-th such path,
/// named by its decoded friendly name without NUL padding and placed at the
/// position of that path's first source mode.
pub proof fn lemma_one_monitor_per_source_path(paths: Seq<DisplayPath>, modes: Seq<DisplayMode>)
    ensures
        ({
            let with_source = paths.filter(|p: DisplayPath| has_source_mode(modes, p));
            let ms = monitors_of(paths, modes);
            &&& ms.len() == with_source.len()
            &&& forall|k: int|
                0 <= k < ms.len() ==> {
                    let p = with_source[k];
                    &&& (#[trigger] ms[k]).name == strip_trailing_nul(
                        utf16_decode_lossy(p.friendly_name@),
                    )
                    &&& exists|i: int|
                        0 <= i < modes.len() && modes[i].info_type == MODE_INFO_TYPE_SOURCE
                            && modes[i].adapter == p.source_adapter && modes[i].id == p.source_id
                            && ms[k].pos_x == modes[i].position_x && forall|j: int|
                            0 <= j < i ==> !(modes[j].info_type == MODE_INFO_TYPE_SOURCE
                                && modes[j].adapter == p.source_adapter && modes[j].id
                                == p.source_id)
                }
        }),
    decreases paths.len(),
{
    let pred = |p: DisplayPath| has_source_mode(modes, p);
    reveal_with_fuel(Seq::<DisplayPath>::filter, 1);
    if paths.len() == 0 {
        assert(paths.filter(pred) =~= paths);
    } else {
        let before = paths.drop_last();
        let path = paths.last();
        lemma_one_monitor_per_source_path(before, modes);
        lemma_first_source_mode_spec(modes, path);
        let ws = paths.filter(pred);
        let wb = before.filter(pred);
        let ms = monitors_of(paths, modes);
        let mb = monitors_of(before, modes);
        assert(ws == (if pred(path) { wb.push(path) } else { wb }));
        match first_source_mode(modes, path) {
            Some(i) => {
                assert(is_source_mode_of(modes[i], path));
                assert(pred(path));
                assert(ms == mb.push(
                    MonitorView { name: friendly_name_of(path.friendly_name@), pos_x: modes[i].position_x },
                ));
                assert forall|k: int| 0 <= k < ms.len() implies {
                    let p = ws[k];
                    &&& (#[trigger] ms[k]).name == strip_trailing_nul(
                        utf16_decode_lossy(p.friendly_name@),
                    )
                    &&& exists|i: int|
                        0 <= i < modes.len() && modes[i].info_type == MODE_INFO_TYPE_SOURCE
                            && modes[i].adapter == p.source_adapter && modes[i].id == p.source_id
                            && ms[k].pos_x == modes[i].position_x && forall|j: int|
                            0 <= j < i ==> !(modes[j].info_type == MODE_INFO_TYPE_SOURCE
                                && modes[j].adapter == p.source_adapter && modes[j].id
                                == p.source_id)
                } by {
                    if k < mb.len() {
                        assert(ms[k] == mb[k]);
                        assert(ws[k] == wb[k]);
                    } else {
                        assert(ws[k] == path);
                        assert forall|j: int| 0 <= j < i implies !(modes[j].info_type
                            == MODE_INFO_TYPE_SOURCE && modes[j].adapter == path.source_adapter
                            && modes[j].id == path.source_id) by {
                            assert(!is_source_mode_of(modes[j], path));
                        }
                    }
                }
            },
            None => {
                assert(!pred(path)) by {
                    if pred(path) {
                        let i = choose|i: int|
                            0 <= i < modes.len() && modes[i].info_type == MODE_INFO_TYPE_SOURCE
                                && modes[i].adapter == path.source_adapter && modes[i].id
                                == path.source_id;
                        assert(is_source_mode_of(modes[i], path));
                    }
                }
                assert(ms == mb);
                assert(ws == wb);
            },
        }
    }
}

/// Whether some source mode of `modes` has its left edge at `x`.
pub open spec fn placed_by_source_mode(modes: Seq<DisplayMode>, x: i32) -> bool {
    exists|i: int|
        0 <= i < modes.len() && modes[i].info_type == MODE_INFO_TYPE_SOURCE && modes[i].position_x
            == x
}

/// At most one monitor per display path; every monitor name is free of NUL
/// padding, and every monitor sits where a source mode of the configuration
/// places it.
pub proof fn lemma_monitors_of(paths: Seq<DisplayPath>, modes: Seq<DisplayMode>)
    ensures
        monitors_of(paths, modes).len() <= paths.len(),
        forall|k: int| 0 <= k < monitors_of(paths, modes).len() ==> {
            let n = (#[trigger] monitors_of(paths, modes)[k]).name;
            n.len() == 0 || n.last() != '\0'
        },
        forall|k: int|
            0 <= k < monitors_of(paths, modes).len() ==> placed_by_source_mode(
                modes,
                (#[trigger] monitors_of(paths, modes)[k]).pos_x,
            ),
    decreases paths.len(),
{
    if paths.len() > 0 {
        let before = paths.drop_last();
        lemma_monitors_of(before, modes);
        let path = paths.last();
        lemma_first_source_mode_found(modes, path);
        lemma_strip_trailing_nul(utf16_decode_lossy(path.friendly_name@));
        let ms = monitors_of(paths, modes);
        let prev = monitors_of(before, modes);
        match first_source_mode(modes, path) {
            Some(i) => {
                assert forall|k: int| 0 <= k < ms.len() implies placed_by_source_mode(
                    modes,
                    (#[trigger] ms[k]).pos_x,
                ) by {
                    if k < prev.len() {
                        assert(ms[k] == prev[k]);
                    } else {
                        assert(modes[i].position_x == ms[k].pos_x);
                    }
                }
                assert forall|k: int| 0 <= k < ms.len() implies {
                    let n = (#[trigger] ms[k]).name;
                    n.len() == 0 || n.last() != '\0'
                } by {
                    if k < prev.len() {
                        assert(ms[k] == prev[k]);
                    }
                }
            },
            None => {
                assert(ms == prev);
            },
        }
    }
}

proof fn lemma_first_source_mode(modes: Seq<DisplayMode>, path: DisplayPath, k: int)
    requires
        0 <= k <= modes.len(),
        forall|j: int| 0 <= j < k ==> !is_source_mode_of(#[trigger] modes[j], path),
    ensures
        k < modes.len() && is_source_mode_of(modes[k], path) ==> first_source_mode(modes, path)
            == Some(k),
        k == modes.len() ==> first_source_mode(modes, path) is None,
    decreases k,
{
    if k > 0 {
        let rest = modes.drop_first();
        assert forall|j: int| 0 <= j < k - 1 implies !is_source_mode_of(#[trigger] rest[j], path) by {
            assert(rest[j] == modes[j + 1]);
        }
        lemma_first_source_mode(rest, path, k - 1);
        assert(!is_source_mode_of(modes[0], path));
    }
}

/// Index of the first source mode of `path`, if it has one.
pub fn find_source_mode(modes: &Vec<DisplayMode>, path: &DisplayPath) -> (res: Option<usize>)
    ensures
        match res {
            Some(i) => first_source_mode(modes@, *path) == Some(i as int),
            None => first_source_mode(modes@, *path) is None,
        },
        res matches Some(i) ==> i < modes@.len(),
{
    let mut i: usize = 0;
    while i < modes.len()
        invariant
            i <= modes@.len(),
            forall|j: int| 0 <= j < i ==> !is_source_mode_of(#[trigger] modes@[j], *path),
        decreases modes@.len() - i,
    {
        let m = &modes[i];
        if m.info_type == MODE_INFO_TYPE_SOURCE && m.adapter == path.source_adapter && m.id
            == path.source_id {
            proof {
                lemma_first_source_mode(modes@, *path, i as int);
            }
            return Some(i);
        }
        i = i + 1;
    }
    proof {
        lemma_first_source_mode(modes@, *path, i as int);
    }
    None
}

/// Decodes a friendly device name and drops its NUL padding.
pub fn friendly_name(units: &Vec<u16>) -> (res: String)
    ensures
        res@ == friendly_name_of(units@),
{
    let decoded = decode_wide_lossy(units);
    trim_trailing_nul(decoded.as_str())
}

/// The monitors of a display configuration (see [`monitors_of`]).
pub fn monitors_from_display_config(paths: &Vec<DisplayPath>, modes: &Vec<DisplayMode>) -> (res:
    Vec<MonitorPos>)
    ensures
        res@.map_values(|m: MonitorPos| m@) == monitors_of(paths@, modes@),
{
    let mut monitors: Vec<MonitorPos> = Vec::new();
    let mut i: usize = 0;
    while i < paths.len()
        invariant
            i <= paths@.len(),
            monitors@.map_values(|m: MonitorPos| m@) == monitors_of(paths@.take(i as int), modes@),
        decreases paths@.len() - i,
    {
        let path = &paths[i];
        let found = find_source_mode(modes, path);
        let ghost prev = monitors@;
        proof {
            let next = paths@.take(i + 1);
            assert(next.drop_last() =~= paths@.take(i as int));
            assert(next.last() == *path);
        }
        match found {
            Some(k) => {
                let name = friendly_name(&path.friendly_name);
                monitors.push(MonitorPos { name, pos_x: modes[k].position_x });
                assert(monitors@.map_values(|m: MonitorPos| m@) =~= prev.map_values(
                    |m: MonitorPos| m@,
                ).push(monitors@[prev.len() as int]@));
            },
            None => {},
        }
        i = i + 1;
    }
    assert(paths@.take(paths@.len() as int) =~= paths@);
    monitors
}

/// Index of the first monitor whose left edge is at the desktop origin.
pub open spec fn first_at_origin(ms: Seq<MonitorView>) -> Option<int>
    decreases ms.len(),
{
    if ms.len() == 0 {
        None
    } else if ms[0].pos_x == 0 {
        Some(0)
    } else {
        match first_at_origin(ms.drop_first()) {
            Some(i) => Some(i + 1),
            None => None,
        }
    }
}

/// The primary monitor: the first one placed at x = 0, or else the first one.
pub open spec fn primary_monitor_of(ms: Seq<MonitorView>) -> MonitorView {
    match first_at_origin(ms) {
        Some(i) => ms[i],
        None => ms[0],
    }
}

proof fn lemma_first_at_origin(ms: Seq<MonitorView>, k: int)
    requires
        0 <= k <= ms.len(),
        forall|j: int| 0 <= j < k ==> (#[trigger] ms[j]).pos_x != 0,
    ensures
        k < ms.len() && ms[k].pos_x == 0 ==> first_at_origin(ms) == Some(k),
        k == ms.len() ==> first_at_origin(ms) is None,
    decreases k,
{
    if k > 0 {
        let rest = ms.drop_first();
        assert forall|j: int| 0 <= j < k - 1 implies (#[trigger] rest[j]).pos_x != 0 by {
            assert(rest[j] == ms[j + 1]);
        }
        lemma_first_at_origin(rest, k - 1);
    }
}

proof fn lemma_first_at_origin_bounds(ms: Seq<MonitorView>)
    ensures
        first_at_origin(ms) matches Some(i) ==> 0 <= i < ms.len() && ms[i].pos_x == 0,
        first_at_origin(ms) is None ==> forall|j: int| 0 <= j < ms.len() ==> ms[j].pos_x != 0,
    decreases ms.len(),
{
    if ms.len() > 0 {
        let rest = ms.drop_first();
        lemma_first_at_origin_bounds(rest);
        if ms[0].pos_x != 0 {
            assert forall|j: int| 0 <= j < ms.len() && first_at_origin(ms) is None implies ms[j].pos_x
                != 0 by {
                if j > 0 {
                    assert(ms[j] == rest[j - 1]);
                }
            }
        }
    }
}

/// The primary monitor is one of the monitors given, and it is at x = 0
/// whenever any of them is.
pub proof fn lemma_primary_monitor(ms: Seq<MonitorView>)
    requires
        ms.len() > 0,
    ensures
        exists|i: int| 0 <= i < ms.len() && ms[i] == primary_monitor_of(ms),
        (exists|j: int| 0 <= j < ms.len() && ms[j].pos_x == 0) ==> primary_monitor_of(ms).pos_x
            == 0,
{
    lemma_first_at_origin_bounds(ms);
    match first_at_origin(ms) {
        Some(i) => {
            assert(ms[i] == primary_monitor_of(ms));
        },
        None => {
            assert(ms[0] == primary_monitor_of(ms));
        },
    }
}

/// The primary monitor is the first one whose left edge is at x = 0, and the
/// first monitor of the list when none is.
pub proof fn lemma_primary_monitor_is_first_at_origin(ms: Seq<MonitorView>, i: int)
    requires
        ms.len() > 0,
        0 <= i < ms.len(),
    ensures
        ms[i].pos_x == 0 && (forall|j: int| 0 <= j < i ==> (#[trigger] ms[j]).pos_x != 0)
            ==> primary_monitor_of(ms) == ms[i],
        (forall|j: int| 0 <= j < ms.len() ==> (#[trigger] ms[j]).pos_x != 0) ==> primary_monitor_of(
            ms,
        ) == ms[0],
{
    lemma_first_at_origin_bounds(ms);
    if ms[i].pos_x == 0 && (forall|j: int| 0 <= j < i ==> (#[trigger] ms[j]).pos_x != 0) {
        lemma_first_at_origin(ms, i);
    }
    if forall|j: int| 0 <= j < ms.len() ==> (#[trigger] ms[j]).pos_x != 0 {
        lemma_first_at_origin(ms, ms.len() as int);
    }
}

/// A copy of `m`.
fn copy_monitor(m: &MonitorPos) -> (res: MonitorPos)
    ensures
        res@ == m@,
{
    MonitorPos { name: m.name.clone(), pos_x: m.pos_x }
}

/// The monitor the overlay uses by default: the first one at x = 0, or else the
/// first one. The list must not be empty.
pub fn get_primary_monitor(monitor_vec: Vec<MonitorPos>) -> (res: MonitorPos)
    requires
        monitor_vec@.len() > 0,
    ensures
        res@ == primary_monitor_of(monitor_vec@.map_values(|m: MonitorPos| m@)),
{
    let ghost views = monitor_vec@.map_values(|m: MonitorPos| m@);
    let mut i: usize = 0;
    while i < monitor_vec.len()
        invariant
            i <= monitor_vec@.len(),
            views == monitor_vec@.map_values(|m: MonitorPos| m@),
            forall|j: int| 0 <= j < i ==> (#[trigger] views[j]).pos_x != 0,
        decreases monitor_vec@.len() - i,
    {
        if monitor_vec[i].pos_x == 0 {
            proof {
                lemma_first_at_origin(views, i as int);
            }
            return copy_monitor(&monitor_vec[i]);
        }
        i = i + 1;
    }
    proof {
        lemma_first_at_origin(views, i as int);
    }
    copy_monitor(&monitor_vec[0])
}

} // verus!
