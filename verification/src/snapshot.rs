//! A read-only snapshot of the window manager's state: displays, their
//! workspaces and windows, the focused window and the configuration flags.
//! It is rebuilt every tick and answered to state queries.
use vstd::prelude::*;
use crate::config::{flag_default_on, off_unless_true, on_unless_false, or_default, MainOptions, WindowMode};
use crate::ecs::{spec_dock_label, DockPosition, Initializing, MissionControlActive, SkipReshuffle, Unmanaged};
use crate::geometry::IRect;
use crate::ipc::QueryKind;
use crate::snap::flag_on;

verus! {

/// A rectangle as origin and size.
#[derive(Clone, Copy, Debug, PartialEq, Eq, Structural)]
pub struct BoundsSnapshot {
    pub x: i32,
    pub y: i32,
    pub width: i32,
    pub height: i32,
}

/// One window.
#[derive(Clone, Debug)]
pub struct WindowSnapshot {
    pub id: i32,
    pub title: String,
    pub app_name: String,
    pub bundle_id: String,
    pub bounds: BoundsSnapshot,
    pub is_focused: bool,
    pub is_unmanaged: bool,
    pub is_full_width: bool,
}

/// The windows of a workspace's strip, in strip order.
#[derive(Clone, Debug)]
pub struct LayoutStripSnapshot {
    pub windows: Vec<WindowSnapshot>,
}

/// One workspace of a display.
#[derive(Clone, Debug)]
pub struct WorkspaceSnapshot {
    pub id: u64,
    pub is_active: bool,
    pub layout_strip: LayoutStripSnapshot,
}

/// One display.
#[derive(Clone, Debug)]
pub struct DisplaySnapshot {
    pub id: u32,
    pub is_active: bool,
    pub bounds: BoundsSnapshot,
    pub dock: Option<String>,
    pub workspaces: Vec<WorkspaceSnapshot>,
}

/// The configuration flags in effect.
#[derive(Clone, Debug, Default)]
pub struct ConfigFlags {
    pub mode: String,
    pub enable_manage_toggle: bool,
    pub focus_follows_mouse: bool,
    pub mouse_follows_focus: bool,
    pub auto_center: bool,
    pub skip_reshuffle: bool,
    pub mission_control_active: bool,
    pub initializing: bool,
    pub edge_snap_left: bool,
    pub edge_snap_right: bool,
    pub edge_snap_preview: bool,
    pub edge_snap_sticky_dwell_ms: u64,
    pub suppress_four_finger: bool,
    pub suppress_five_finger_pinch: bool,
    pub suppress_five_finger_spread: bool,
}

/// The whole snapshot.
#[derive(Clone, Debug, Default)]
pub struct StateSnapshot {
    pub displays: Vec<DisplaySnapshot>,
    pub focused_window: Option<WindowSnapshot>,
    pub config_flags: ConfigFlags,
}

/// A window as the snapshot reads it.
#[derive(Clone, Debug)]
pub struct WindowState {
    /// The window's entity, compared with the focused one.
    pub entity: u64,
    pub id: i32,
    pub title: Option<String>,
    /// The bundle identifier of the owning application, when known.
    pub bundle_id: Option<String>,
    pub frame: IRect,
    pub unmanaged: Option<Unmanaged>,
    /// Whether the window has been made full-width.
    pub full_width: bool,
}

/// A workspace: its strip's identifier and the windows found for it.
#[derive(Clone, Debug)]
pub struct WorkspaceState {
    pub id: u64,
    pub active: bool,
    pub windows: Vec<WindowState>,
}

/// A display with its workspaces.
#[derive(Clone, Debug)]
pub struct DisplayState {
    pub id: u32,
    pub active: bool,
    pub bounds: IRect,
    pub dock: Option<DockPosition>,
    pub workspaces: Vec<WorkspaceState>,
}

/// The bounds of a rectangle.
pub open spec fn bounds_of(r: IRect) -> BoundsSnapshot {
    BoundsSnapshot { x: r.min.x, y: r.min.y, width: r.spec_width() as i32, height: r.spec_height() as i32 }
}

/// The text of an optional string; empty when absent.
pub open spec fn or_empty(s: Option<String>) -> Seq<char> {
    match s {
        Some(t) => t@,
        None => seq![],
    }
}

/// Whether `s` is the snapshot of window `w`, given the focused entity.
pub open spec fn window_snapshot_of(s: WindowSnapshot, w: WindowState, focused: Option<u64>) -> bool {
    &&& s.id == w.id
    &&& s.title@ == or_empty(w.title)
    &&& s.app_name@ == or_empty(w.bundle_id)
    &&& s.bundle_id@ == or_empty(w.bundle_id)
    &&& s.bounds == bounds_of(w.frame)
    &&& s.is_focused == (focused == Some(w.entity))
    &&& s.is_unmanaged == w.unmanaged.is_some()
    &&& s.is_full_width == w.full_width
}

/// Whether `s` is the snapshot of workspace `w`.
pub open spec fn workspace_snapshot_of(s: WorkspaceSnapshot, w: WorkspaceState, focused: Option<u64>) -> bool {
    &&& s.id == w.id
    &&& s.is_active == w.active
    &&& s.layout_strip.windows@.len() == w.windows@.len()
    &&& forall|k: int|
        0 <= k < w.windows@.len() ==> window_snapshot_of(
            #[trigger] s.layout_strip.windows@[k],
            w.windows@[k],
            focused,
        )
}

/// Whether `s` is the snapshot of display `d`.
pub open spec fn display_snapshot_of(s: DisplaySnapshot, d: DisplayState, focused: Option<u64>) -> bool {
    &&& s.id == d.id
    &&& s.is_active == d.active
    &&& s.bounds == bounds_of(d.bounds)
    &&& match d.dock {
        Some(p) => s.dock matches Some(t) && t@ == spec_dock_label(p),
        None => s.dock is None,
    }
    &&& s.workspaces@.len() == d.workspaces@.len()
    &&& forall|j: int|
        0 <= j < d.workspaces@.len() ==> workspace_snapshot_of(#[trigger] s.workspaces@[j], d.workspaces@[j], focused)
}

/// Whether every window and display rectangle has a representable size.
pub open spec fn workspace_fits(w: WorkspaceState) -> bool {
    forall|k: int| 0 <= k < w.windows@.len() ==> (#[trigger] w.windows@[k]).frame.size_fits()
}

/// Whether every rectangle of a display has a representable size.
pub open spec fn display_fits(d: DisplayState) -> bool {
    &&& d.bounds.size_fits()
    &&& forall|j: int| 0 <= j < d.workspaces@.len() ==> workspace_fits(#[trigger] d.workspaces@[j])
}

/// The windows of a list of workspaces, in order.
pub open spec fn workspaces_windows(ws: Seq<WorkspaceSnapshot>) -> Seq<WindowSnapshot>
    decreases ws.len(),
{
    if ws.len() == 0 {
        seq![]
    } else {
        workspaces_windows(ws.drop_last()) + ws.last().layout_strip.windows@
    }
}

/// The windows of a list of displays, in order.
pub open spec fn displays_windows(ds: Seq<DisplaySnapshot>) -> Seq<WindowSnapshot>
    decreases ds.len(),
{
    if ds.len() == 0 {
        seq![]
    } else {
        displays_windows(ds.drop_last()) + workspaces_windows(ds.last().workspaces@)
    }
}

/// The last focused window of a list.
pub open spec fn last_focused(s: Seq<WindowSnapshot>) -> Option<WindowSnapshot>
    decreases s.len(),
{
    if s.len() == 0 {
        None
    } else if s.last().is_focused {
        Some(s.last())
    } else {
        last_focused(s.drop_last())
    }
}

/// `a` when it is a window, else `b`.
pub open spec fn or_else(a: Option<WindowSnapshot>, b: Option<WindowSnapshot>) -> Option<WindowSnapshot> {
    match a {
        Some(_) => a,
        None => b,
    }
}

/// The last focused window of two lists is that of the second, if any.
pub proof fn lemma_last_focused_concat(a: Seq<WindowSnapshot>, b: Seq<WindowSnapshot>)
    ensures
        last_focused(a + b) == or_else(last_focused(b), last_focused(a)),
    decreases b.len(),
{
    if b.len() == 0 {
        assert(a + b =~= a);
    } else {
        assert((a + b).drop_last() =~= a + b.drop_last());
        assert((a + b).last() == b.last());
        lemma_last_focused_concat(a, b.drop_last());
    }
}

/// Law: a focused window the snapshot reports is one of its windows, and is
/// marked focused.
pub proof fn lemma_focused_is_listed(s: Seq<WindowSnapshot>)
    ensures
        last_focused(s) matches Some(w) ==> w.is_focused && s.contains(w),
        last_focused(s) is None ==> forall|k: int| 0 <= k < s.len() ==> !(#[trigger] s[k]).is_focused,
    decreases s.len(),
{
    if s.len() > 0 {
        lemma_last_focused_concat(s.drop_last(), seq![s.last()]);
        lemma_focused_is_listed(s.drop_last());
        assert(s.drop_last() + seq![s.last()] =~= s);
        if let Some(w) = last_focused(s) {
            if s.last().is_focused {
                assert(s[s.len() - 1] == w);
            } else {
                let k = choose|k: int| 0 <= k < s.drop_last().len() && s.drop_last()[k] == w;
                assert(s[k] == w);
            }
        } else {
            assert forall|k: int| 0 <= k < s.len() implies !(#[trigger] s[k]).is_focused by {
                if k < s.len() - 1 {
                    assert(s[k] == s.drop_last()[k]);
                }
            }
        }
    }
}

impl BoundsSnapshot {
    /// The bounds of a rectangle.
    pub fn from_rect(r: &IRect) -> (b: BoundsSnapshot)
        requires
            r.size_fits(),
        ensures
            b == bounds_of(*r),
    {
        BoundsSnapshot { x: r.min.x, y: r.min.y, width: r.width(), height: r.height() }
    }
}

impl WindowSnapshot {
    /// A field-by-field copy.
    pub fn snapshot_copy(&self) -> (r: WindowSnapshot)
        ensures
            r == *self,
    {
        WindowSnapshot {
            id: self.id,
            title: self.title.clone(),
            app_name: self.app_name.clone(),
            bundle_id: self.bundle_id.clone(),
            bounds: self.bounds,
            is_focused: self.is_focused,
            is_unmanaged: self.is_unmanaged,
            is_full_width: self.is_full_width,
        }
    }
}

fn text_or_empty(s: &Option<String>) -> (r: String)
    ensures
        r@ == or_empty(*s),
{
    match s {
        Some(t) => t.clone(),
        None => String::new(),
    }
}

/// The snapshot of one window.
pub fn window_snapshot(w: &WindowState, focused: Option<u64>) -> (s: WindowSnapshot)
    requires
        w.frame.size_fits(),
    ensures
        window_snapshot_of(s, *w, focused),
{
    let is_focused = match focused {
        Some(f) => f == w.entity,
        None => false,
    };
    WindowSnapshot {
        id: w.id,
        title: text_or_empty(&w.title),
        app_name: text_or_empty(&w.bundle_id),
        bundle_id: text_or_empty(&w.bundle_id),
        bounds: BoundsSnapshot::from_rect(&w.frame),
        is_focused,
        is_unmanaged: w.unmanaged.is_some(),
        is_full_width: w.full_width,
    }
}

/// The snapshot of one workspace.
pub fn workspace_snapshot(w: &WorkspaceState, focused: Option<u64>) -> (s: WorkspaceSnapshot)
    requires
        workspace_fits(*w),
    ensures
        workspace_snapshot_of(s, *w, focused),
{
    let mut windows: Vec<WindowSnapshot> = Vec::new();
    let mut k: usize = 0;
    while k < w.windows.len()
        invariant
            k <= w.windows@.len(),
            workspace_fits(*w),
            windows@.len() == k,
            forall|i: int| 0 <= i < k ==> window_snapshot_of(#[trigger] windows@[i], w.windows@[i], focused),
        decreases w.windows@.len() - k,
    {
        let s = window_snapshot(&w.windows[k], focused);
        windows.push(s);
        k = k + 1;
    }
    WorkspaceSnapshot { id: w.id, is_active: w.active, layout_strip: LayoutStripSnapshot { windows } }
}

/// The snapshot of one display, with its workspaces.
pub fn display_snapshot(d: &DisplayState, focused: Option<u64>) -> (s: DisplaySnapshot)
    requires
        display_fits(*d),
    ensures
        display_snapshot_of(s, *d, focused),
{
    let mut workspaces: Vec<WorkspaceSnapshot> = Vec::new();
    let mut j: usize = 0;
    while j < d.workspaces.len()
        invariant
            j <= d.workspaces@.len(),
            display_fits(*d),
            workspaces@.len() == j,
            forall|i: int|
                0 <= i < j ==> workspace_snapshot_of(#[trigger] workspaces@[i], d.workspaces@[i], focused),
        decreases d.workspaces@.len() - j,
    {
        let s = workspace_snapshot(&d.workspaces[j], focused);
        workspaces.push(s);
        j = j + 1;
    }
    let dock = match &d.dock {
        Some(p) => Some(p.label()),
        None => None,
    };
    DisplaySnapshot {
        id: d.id,
        is_active: d.active,
        bounds: BoundsSnapshot::from_rect(&d.bounds),
        dock,
        workspaces,
    }
}

fn last_focused_in(windows: &Vec<WindowSnapshot>, acc: Option<WindowSnapshot>) -> (r: Option<WindowSnapshot>)
    ensures
        r == or_else(last_focused(windows@), acc),
{
    let mut cur = acc;
    let mut k: usize = 0;
    assert(windows@.take(0) =~= Seq::<WindowSnapshot>::empty());
    while k < windows.len()
        invariant
            k <= windows@.len(),
            cur == or_else(last_focused(windows@.take(k as int)), acc),
        decreases windows@.len() - k,
    {
        assert(windows@.take(k as int + 1).drop_last() =~= windows@.take(k as int));
        assert(windows@.take(k as int + 1).last() == windows@[k as int]);
        if windows[k].is_focused {
            cur = Some(windows[k].snapshot_copy());
        }
        k = k + 1;
    }
    assert(windows@.take(windows@.len() as int) =~= windows@);
    cur
}

/// The last focused window of the displays' windows, in display, workspace
/// and strip order.
pub fn last_focused_window(displays: &Vec<DisplaySnapshot>) -> (r: Option<WindowSnapshot>)
    ensures
        r == last_focused(displays_windows(displays@)),
{
    let mut cur: Option<WindowSnapshot> = None;
    let mut i: usize = 0;
    assert(displays@.take(0) =~= Seq::<DisplaySnapshot>::empty());
    while i < displays.len()
        invariant
            i <= displays@.len(),
            cur == last_focused(displays_windows(displays@.take(i as int))),
        decreases displays@.len() - i,
    {
        let ghost before = displays_windows(displays@.take(i as int));
        let ws = &displays[i].workspaces;
        let mut j: usize = 0;
        assert(ws@.take(0) =~= Seq::<WorkspaceSnapshot>::empty());
        assert(before + workspaces_windows(ws@.take(0)) =~= before);
        while j < ws.len()
            invariant
                j <= ws@.len(),
                cur == last_focused(before + workspaces_windows(ws@.take(j as int))),
            decreases ws@.len() - j,
        {
            let ghost prev = workspaces_windows(ws@.take(j as int));
            assert(ws@.take(j as int + 1).drop_last() =~= ws@.take(j as int));
            let ghost wins = ws@[j as int].layout_strip.windows@;
            assert(workspaces_windows(ws@.take(j as int + 1)) == prev + wins);
            proof {
                lemma_last_focused_concat(before + prev, wins);
                assert(before + (prev + wins) =~= (before + prev) + wins);
            }
            cur = last_focused_in(&ws[j].layout_strip.windows, cur);
            j = j + 1;
        }
        assert(ws@.take(ws@.len() as int) =~= ws@);
        assert(displays@.take(i as int + 1).drop_last() =~= displays@.take(i as int));
        assert(displays@.take(i as int + 1).last() == displays@[i as int]);
        i = i + 1;
    }
    assert(displays@.take(displays@.len() as int) =~= displays@);
    cur
}

/// Whether `f` holds the configuration flags of `o` and the global state.
pub open spec fn config_flags_of(
    f: ConfigFlags,
    o: MainOptions,
    skip_reshuffle: bool,
    mission_control_active: bool,
    initializing: bool,
) -> bool {
    &&& f.mode@ == (if o.mode == WindowMode::Floating { "floating"@ } else { "tiling"@ })
    &&& f.enable_manage_toggle == flag_default_on(o.enable_manage_toggle)
    &&& f.focus_follows_mouse == flag_default_on(o.focus_follows_mouse)
    &&& f.mouse_follows_focus == flag_default_on(o.mouse_follows_focus)
    &&& f.auto_center == flag_on(o.auto_center)
    &&& f.skip_reshuffle == skip_reshuffle
    &&& f.mission_control_active == mission_control_active
    &&& f.initializing == initializing
    &&& f.edge_snap_left == flag_on(o.edge_snap.left)
    &&& f.edge_snap_right == flag_on(o.edge_snap.right)
    &&& f.edge_snap_preview == flag_default_on(o.edge_snap.preview)
    &&& f.edge_snap_sticky_dwell_ms == or_default(o.edge_snap.sticky_dwell_ms, 300u64)
    &&& f.suppress_four_finger == flag_on(o.gesture_suppress.four_finger)
    &&& f.suppress_five_finger_pinch == flag_on(o.gesture_suppress.five_finger_pinch)
    &&& f.suppress_five_finger_spread == flag_on(o.gesture_suppress.five_finger_spread)
}

/// The configuration flags reported by the snapshot.
pub fn config_flags(
    options: &MainOptions,
    skip_reshuffle: &SkipReshuffle,
    mission_control: &MissionControlActive,
    initializing: &Option<Initializing>,
) -> (f: ConfigFlags)
    ensures
        config_flags_of(f, *options, skip_reshuffle.0, mission_control.0, initializing.is_some()),
{
    let mode = match options.mode {
        WindowMode::Tiling => String::from_str("tiling"),
        WindowMode::Floating => String::from_str("floating"),
    };
    ConfigFlags {
        mode,
        enable_manage_toggle: on_unless_false(options.enable_manage_toggle),
        focus_follows_mouse: on_unless_false(options.focus_follows_mouse),
        mouse_follows_focus: on_unless_false(options.mouse_follows_focus),
        auto_center: off_unless_true(options.auto_center),
        skip_reshuffle: skip_reshuffle.0,
        mission_control_active: mission_control.0,
        initializing: initializing.is_some(),
        edge_snap_left: off_unless_true(options.edge_snap.left),
        edge_snap_right: off_unless_true(options.edge_snap.right),
        edge_snap_preview: on_unless_false(options.edge_snap.preview),
        edge_snap_sticky_dwell_ms: options.edge_snap_sticky_dwell_ms(),
        suppress_four_finger: off_unless_true(options.gesture_suppress.four_finger),
        suppress_five_finger_pinch: off_unless_true(options.gesture_suppress.five_finger_pinch),
        suppress_five_finger_spread: off_unless_true(options.gesture_suppress.five_finger_spread),
    }
}

/// Builds the state snapshot: each display with its workspaces and their
/// windows, in the order given, the last focused window among them, and
/// the configuration flags.
pub fn build_snapshot(displays: &Vec<DisplayState>, focused: Option<u64>, config_flags: ConfigFlags) -> (s: StateSnapshot)
    requires
        forall|i: int| 0 <= i < displays@.len() ==> display_fits(#[trigger] displays@[i]),
    ensures
        s.displays@.len() == displays@.len(),
        forall|i: int|
            0 <= i < displays@.len() ==> display_snapshot_of(#[trigger] s.displays@[i], displays@[i], focused),
        s.focused_window == last_focused(displays_windows(s.displays@)),
        s.config_flags == config_flags,
{
    let mut out: Vec<DisplaySnapshot> = Vec::new();
    let mut i: usize = 0;
    while i < displays.len()
        invariant
            i <= displays@.len(),
            forall|i: int| 0 <= i < displays@.len() ==> display_fits(#[trigger] displays@[i]),
            out@.len() == i,
            forall|k: int| 0 <= k < i ==> display_snapshot_of(#[trigger] out@[k], displays@[k], focused),
        decreases displays@.len() - i,
    {
        let d = display_snapshot(&displays[i], focused);
        out.push(d);
        i = i + 1;
    }
    let focused_window = last_focused_window(&out);
    StateSnapshot { displays: out, focused_window, config_flags }
}

/// A window of the snapshot with the display and workspace it is on.
#[derive(Clone, Debug)]
pub struct WindowEntry {
    pub window: WindowSnapshot,
    pub display_id: u32,
    pub workspace_id: u64,
}

/// A workspace of the snapshot with its display and how many windows it
/// holds.
#[derive(Clone, Copy, Debug, PartialEq, Eq, Structural)]
pub struct WorkspaceEntry {
    pub id: u64,
    pub display_id: u32,
    pub is_active: bool,
    pub window_count: usize,
}

/// The entries of the windows of one workspace.
pub open spec fn workspace_window_entries(display_id: u32, w: WorkspaceSnapshot) -> Seq<WindowEntry> {
    w.layout_strip.windows@.map_values(|x: WindowSnapshot| WindowEntry { window: x, display_id, workspace_id: w.id })
}

/// The entries of the windows of a list of workspaces, in order.
pub open spec fn workspaces_window_entries(display_id: u32, ws: Seq<WorkspaceSnapshot>) -> Seq<WindowEntry>
    decreases ws.len(),
{
    if ws.len() == 0 {
        seq![]
    } else {
        workspaces_window_entries(display_id, ws.drop_last()) + workspace_window_entries(display_id, ws.last())
    }
}

/// The entries of every window of the displays, in order.
pub open spec fn window_entries(ds: Seq<DisplaySnapshot>) -> Seq<WindowEntry>
    decreases ds.len(),
{
    if ds.len() == 0 {
        seq![]
    } else {
        window_entries(ds.drop_last()) + workspaces_window_entries(ds.last().id, ds.last().workspaces@)
    }
}

/// The entry of one workspace.
pub open spec fn workspace_entry(display_id: u32, w: WorkspaceSnapshot) -> WorkspaceEntry {
    WorkspaceEntry {
        id: w.id,
        display_id,
        is_active: w.is_active,
        window_count: w.layout_strip.windows@.len() as usize,
    }
}

/// The entries of every workspace of the displays, in order.
pub open spec fn workspace_entries(ds: Seq<DisplaySnapshot>) -> Seq<WorkspaceEntry>
    decreases ds.len(),
{
    if ds.len() == 0 {
        seq![]
    } else {
        workspace_entries(ds.drop_last()) + ds.last().workspaces@.map_values(
            |w: WorkspaceSnapshot| workspace_entry(ds.last().id, w),
        )
    }
}

/// The first entry whose window has identifier `id`.
pub open spec fn first_with_id(s: Seq<WindowEntry>, id: i32) -> Option<WindowEntry>
    decreases s.len(),
{
    if s.len() == 0 {
        None
    } else if s[0].window.id == id {
        Some(s[0])
    } else {
        first_with_id(s.drop_first(), id)
    }
}

impl WindowEntry {
    /// A field-by-field copy.
    pub fn entry_copy(&self) -> (r: WindowEntry)
        ensures
            r == *self,
    {
        WindowEntry { window: self.window.snapshot_copy(), display_id: self.display_id, workspace_id: self.workspace_id }
    }
}

/// Every window of the snapshot, with its display and workspace, in the
/// order of displays, workspaces and strips.
pub fn snapshot_windows(s: &StateSnapshot) -> (r: Vec<WindowEntry>)
    ensures
        r@ == window_entries(s.displays@),
{
    let ds = &s.displays;
    let mut out: Vec<WindowEntry> = Vec::new();
    let mut i: usize = 0;
    assert(ds@.take(0) =~= Seq::<DisplaySnapshot>::empty());
    while i < ds.len()
        invariant
            i <= ds@.len(),
            out@ == window_entries(ds@.take(i as int)),
        decreases ds@.len() - i,
    {
        let d = &ds[i];
        let ghost before = window_entries(ds@.take(i as int));
        let mut j: usize = 0;
        assert(d.workspaces@.take(0) =~= Seq::<WorkspaceSnapshot>::empty());
        assert(before + workspaces_window_entries(d.id, d.workspaces@.take(0)) =~= before);
        while j < d.workspaces.len()
            invariant
                j <= d.workspaces@.len(),
                out@ == before + workspaces_window_entries(d.id, d.workspaces@.take(j as int)),
            decreases d.workspaces@.len() - j,
        {
            let w = &d.workspaces[j];
            let ghost mid = out@;
            let ghost all = workspace_window_entries(d.id, *w);
            let mut k: usize = 0;
            assert(mid + all.take(0) =~= mid);
            while k < w.layout_strip.windows.len()
                invariant
                    k <= w.layout_strip.windows@.len(),
                    all == workspace_window_entries(d.id, *w),
                    out@ == mid + all.take(k as int),
                decreases w.layout_strip.windows@.len() - k,
            {
                let e = WindowEntry {
                    window: w.layout_strip.windows[k].snapshot_copy(),
                    display_id: d.id,
                    workspace_id: w.id,
                };
                out.push(e);
                assert(all.take(k as int + 1) =~= all.take(k as int).push(all[k as int]));
                assert(mid + all.take(k as int + 1) =~= (mid + all.take(k as int)).push(e));
                k = k + 1;
            }
            assert(all.take(all.len() as int) =~= all);
            assert(d.workspaces@.take(j as int + 1).drop_last() =~= d.workspaces@.take(j as int));
            assert(d.workspaces@.take(j as int + 1).last() == *w);
            assert(before + (workspaces_window_entries(d.id, d.workspaces@.take(j as int)) + all) =~= mid + all);
            j = j + 1;
        }
        assert(d.workspaces@.take(d.workspaces@.len() as int) =~= d.workspaces@);
        assert(ds@.take(i as int + 1).drop_last() =~= ds@.take(i as int));
        assert(ds@.take(i as int + 1).last() == *d);
        i = i + 1;
    }
    assert(ds@.take(ds@.len() as int) =~= ds@);
    out
}

/// Every workspace of the snapshot, with its display and window count, in
/// the order of displays and workspaces.
pub fn snapshot_workspaces(s: &StateSnapshot) -> (r: Vec<WorkspaceEntry>)
    ensures
        r@ == workspace_entries(s.displays@),
{
    let ds = &s.displays;
    let mut out: Vec<WorkspaceEntry> = Vec::new();
    let mut i: usize = 0;
    assert(ds@.take(0) =~= Seq::<DisplaySnapshot>::empty());
    while i < ds.len()
        invariant
            i <= ds@.len(),
            out@ == workspace_entries(ds@.take(i as int)),
        decreases ds@.len() - i,
    {
        let d = &ds[i];
        let ghost before = out@;
        let ghost all = d.workspaces@.map_values(|w: WorkspaceSnapshot| workspace_entry(d.id, w));
        let mut j: usize = 0;
        assert(before + all.take(0) =~= before);
        while j < d.workspaces.len()
            invariant
                j <= d.workspaces@.len(),
                all == d.workspaces@.map_values(|w: WorkspaceSnapshot| workspace_entry(d.id, w)),
                out@ == before + all.take(j as int),
            decreases d.workspaces@.len() - j,
        {
            let w = &d.workspaces[j];
            let e = WorkspaceEntry {
                id: w.id,
                display_id: d.id,
                is_active: w.is_active,
                window_count: w.layout_strip.windows.len(),
            };
            out.push(e);
            assert(all.take(j as int + 1) =~= all.take(j as int).push(all[j as int]));
            assert(before + all.take(j as int + 1) =~= (before + all.take(j as int)).push(e));
            j = j + 1;
        }
        assert(all.take(all.len() as int) =~= all);
        assert(ds@.take(i as int + 1).drop_last() =~= ds@.take(i as int));
        assert(ds@.take(i as int + 1).last() == *d);
        i = i + 1;
    }
    assert(ds@.take(ds@.len() as int) =~= ds@);
    out
}

/// The window of the snapshot with identifier `id` (the first, should two
/// share it), with its display and workspace; `None` when there is none.
pub fn find_window(s: &StateSnapshot, id: i32) -> (r: Option<WindowEntry>)
    ensures
        r == first_with_id(window_entries(s.displays@), id),
{
    let all = snapshot_windows(s);
    let mut i: usize = 0;
    assert(all@.skip(0) =~= all@);
    while i < all.len()
        invariant
            i <= all@.len(),
            all@ == window_entries(s.displays@),
            first_with_id(all@, id) == first_with_id(all@.skip(i as int), id),
        decreases all@.len() - i,
    {
        assert(all@.skip(i as int)[0] == all@[i as int]);
        if all[i].window.id == id {
            assert(all@.skip(i as int).len() > 0);
            assert(first_with_id(all@.skip(i as int), id) == Some(all@[i as int]));
            return Some(all[i].entry_copy());
        }
        assert(all@.skip(i as int).drop_first() =~= all@.skip(i as int + 1));
        i = i + 1;
    }
    None
}

/// What the daemon answers a query with: the part of the snapshot it names.
pub enum QueryAnswer {
    /// The whole snapshot.
    State,
    /// The focused window (or none).
    Focused,
    /// The displays.
    Displays,
    /// The configuration flags.
    Config,
    /// Every configuration option.
    FullConfig,
    /// Every window, with its display and workspace.
    Windows(Vec<WindowEntry>),
    /// Every workspace, with its display and window count.
    Workspaces(Vec<WorkspaceEntry>),
    /// The window asked for, or none.
    Window(Option<WindowEntry>),
    /// The query is not known.
    Unknown,
}

/// The answer to a query of kind `k` on snapshot `s`.
pub open spec fn answers(a: QueryAnswer, k: QueryKind, s: StateSnapshot) -> bool {
    match k {
        QueryKind::State => a is State,
        QueryKind::Focused => a is Focused,
        QueryKind::Displays => a is Displays,
        QueryKind::Config => a is Config,
        QueryKind::FullConfig => a is FullConfig,
        QueryKind::Windows => a matches QueryAnswer::Windows(v) && v@ == window_entries(s.displays@),
        QueryKind::Workspaces => a matches QueryAnswer::Workspaces(v) && v@ == workspace_entries(s.displays@),
        QueryKind::Window(id) => a matches QueryAnswer::Window(w) && w == first_with_id(window_entries(s.displays@), id),
        QueryKind::Unknown => a is Unknown,
    }
}

/// Answers a query on the snapshot.
pub fn query_answer(k: QueryKind, s: &StateSnapshot) -> (a: QueryAnswer)
    ensures
        answers(a, k, *s),
{
    match k {
        QueryKind::State => QueryAnswer::State,
        QueryKind::Focused => QueryAnswer::Focused,
        QueryKind::Displays => QueryAnswer::Displays,
        QueryKind::Config => QueryAnswer::Config,
        QueryKind::FullConfig => QueryAnswer::FullConfig,
        QueryKind::Windows => QueryAnswer::Windows(snapshot_windows(s)),
        QueryKind::Workspaces => QueryAnswer::Workspaces(snapshot_workspaces(s)),
        QueryKind::Window(id) => QueryAnswer::Window(find_window(s, id)),
        QueryKind::Unknown => QueryAnswer::Unknown,
    }
}

} // verus!
