//! The configuration options and the settings derived from them.
//!
//! Every option is optional in the configuration file; the methods of
//! [`MainOptions`] give the value in effect, with defaults and clamping.
use vstd::prelude::*;
use crate::defaults::{DefaultsEntry, DefaultsValue, EntryView, entries_view};
use crate::snap::{flag_on, EdgeSnapConfig};
use crate::text::str_eq;

verus! {

/// Window management mode: tiling (automatic column layout) or floating (free positioning).
#[derive(Clone, Copy, Debug, PartialEq, Eq, Structural, Default)]
pub enum WindowMode {
    /// Windows are automatically arranged in a column layout.
    #[default]
    Tiling,
    /// Windows are free-positioned (standard macOS behavior).
    Floating,
}

/// Which way a swipe moves the windows.
#[derive(Clone, Copy, Debug, PartialEq, Eq, Structural)]
pub enum SwipeGestureDirection {
    Natural,
    Reversed,
}

/// Which trackpad gestures macOS is kept from acting on.
#[derive(Clone, Copy, Debug, Default)]
pub struct GestureSuppress {
    /// Suppress all 4-finger gestures (Space switching, etc.). Default: false.
    pub four_finger: Option<bool>,
    /// Suppress 5-finger pinch gesture (Launchpad). Default: false.
    pub five_finger_pinch: Option<bool>,
    /// Suppress 5-finger spread gesture (Show Desktop). Default: false.
    pub five_finger_spread: Option<bool>,
}

/// Animation timing parameters.
#[derive(Clone, Copy, Debug, Default)]
pub struct AnimationConfig {
    /// Frames to wait for cascading events to settle before a consolidated
    /// reshuffle. Default: 2.
    pub settle_frames: Option<u32>,
}

/// Display management parameters.
#[derive(Clone, Copy, Debug, Default)]
pub struct DisplayConfig {
    /// How often to poll for display arrangement changes (milliseconds). Default: 1000.
    pub change_poll_ms: Option<u64>,
}

/// Configuration of the scripting engine.
#[derive(Clone, Debug, Default)]
pub struct ScriptingConfig {
    /// Path to the init script.
    pub init_script: Option<String>,
    /// Directories to scan for additional scripts.
    pub script_dirs: Vec<String>,
    /// Enable hot-reload of scripts on file changes (default: true).
    pub hot_reload: Option<bool>,
}

/// The integer, flag and text options of the window manager. (Ratios,
/// opacities and other fractional options live with the drawing code.)
#[derive(Clone, Debug, Default)]
pub struct MainOptions {
    /// Window management mode: tiling (default) or floating.
    pub mode: WindowMode,
    /// Allow the manage keybinding to toggle single windows. Default: true.
    pub enable_manage_toggle: Option<bool>,
    /// Focus follows the mouse. Default: true.
    pub focus_follows_mouse: Option<bool>,
    /// The mouse follows the focus. Default: true.
    pub mouse_follows_focus: Option<bool>,
    /// Number of fingers for swipe gestures.
    pub swipe_gesture_fingers: Option<usize>,
    /// Which way swipes move the windows. Default: natural.
    pub swipe_gesture_direction: Option<SwipeGestureDirection>,
    /// Center the window when focus moves by keyboard. Default: false.
    pub auto_center: Option<bool>,
    /// Width of off-screen window slivers in pixels. Default: 5.
    pub sliver_width: Option<u16>,
    /// Padding at the screen edges, in pixels. Default: 0.
    pub padding_top: Option<u16>,
    pub padding_bottom: Option<u16>,
    pub padding_left: Option<u16>,
    pub padding_right: Option<u16>,
    /// Hex color of the dim overlay.
    pub dim_inactive_color: Option<String>,
    /// Draw a border around the focused window. Default: false.
    pub border_active_window: Option<bool>,
    /// Hex color of the focused window's border.
    pub border_color: Option<String>,
    /// Override of the menubar height in pixels.
    pub menubar_height: Option<u16>,
    /// Swipes keep sliding until the first or last window. Default: true.
    pub continuous_swipe: Option<bool>,
    /// Wallpaper image applied at startup.
    pub wallpaper: Option<String>,
    /// Edge snapping in floating mode.
    pub edge_snap: EdgeSnapConfig,
    /// Trackpad gesture suppression.
    pub gesture_suppress: GestureSuppress,
    /// Animation timing.
    pub animation: AnimationConfig,
    /// Display polling.
    pub display: DisplayConfig,
}

/// An optional flag that is on unless set to false.
pub open spec fn flag_default_on(f: Option<bool>) -> bool {
    f != Some(false)
}

/// The flag's value, on when unset.
pub fn on_unless_false(f: Option<bool>) -> (b: bool)
    ensures
        b == flag_default_on(f),
{
    match f {
        Some(v) => v,
        None => true,
    }
}

/// The flag's value, off when unset.
pub fn off_unless_true(f: Option<bool>) -> (b: bool)
    ensures
        b == flag_on(f),
{
    match f {
        Some(v) => v,
        None => false,
    }
}

/// `v`, or `d` when it is not set.
pub open spec fn or_default<T>(v: Option<T>, d: T) -> T {
    match v {
        Some(x) => x,
        None => d,
    }
}

impl MainOptions {
    /// Frames the reload guard waits: the configured count (2 when unset), at least 1.
    pub open spec fn spec_settle_frames(&self) -> int {
        let n = or_default(self.animation.settle_frames, 2u32) as int;
        if n < 1 { 1 } else { n }
    }

    /// How many frames the reload guard waits before a consolidated reshuffle.
    pub fn settle_frames(&self) -> (n: u32)
        ensures
            n == self.spec_settle_frames(),
            n >= 1,
    {
        let n = match self.animation.settle_frames {
            Some(v) => v,
            None => 2,
        };
        if n < 1 { 1 } else { n }
    }

    /// The display poll interval in milliseconds: the configured value (1000
    /// when unset), at least 100.
    pub open spec fn spec_display_poll_interval_ms(&self) -> int {
        let n = or_default(self.display.change_poll_ms, 1000u64) as int;
        if n < 100 { 100 } else { n }
    }

    /// The display arrangement poll interval, in milliseconds.
    pub fn display_poll_interval_ms(&self) -> (ms: u64)
        ensures
            ms == self.spec_display_poll_interval_ms(),
            ms >= 100,
    {
        let n = match self.display.change_poll_ms {
            Some(v) => v,
            None => 1000,
        };
        if n < 100 { 100 } else { n }
    }

    /// The sliver width: the configured width (5 when unset), at least 1.
    pub open spec fn spec_sliver_width(&self) -> int {
        let w = or_default(self.sliver_width, 5u16) as int;
        if w < 1 { 1 } else { w }
    }

    /// Width of off-screen window slivers in pixels.
    pub fn sliver_width(&self) -> (w: i32)
        ensures
            w == self.spec_sliver_width(),
            w >= 1,
    {
        let w = match self.sliver_width {
            Some(v) => v as i32,
            None => 5,
        };
        if w < 1 { 1 } else { w }
    }

    /// The edge padding as (top, right, bottom, left), each 0 when unset.
    pub fn edge_padding(&self) -> (p: (i32, i32, i32, i32))
        ensures
            p.0 == or_default(self.padding_top, 0u16),
            p.1 == or_default(self.padding_right, 0u16),
            p.2 == or_default(self.padding_bottom, 0u16),
            p.3 == or_default(self.padding_left, 0u16),
    {
        let top = match self.padding_top {
            Some(v) => v as i32,
            None => 0,
        };
        let right = match self.padding_right {
            Some(v) => v as i32,
            None => 0,
        };
        let bottom = match self.padding_bottom {
            Some(v) => v as i32,
            None => 0,
        };
        let left = match self.padding_left {
            Some(v) => v as i32,
            None => 0,
        };
        (top, right, bottom, left)
    }

    /// Whether swipes slide on past the first and last window (default: yes).
    pub fn continuous_swipe(&self) -> (b: bool)
        ensures
            b == flag_default_on(self.continuous_swipe),
    {
        on_unless_false(self.continuous_swipe)
    }

    /// The swipe direction (natural when unset).
    pub fn swipe_gesture_direction(&self) -> (d: SwipeGestureDirection)
        ensures
            d == or_default(self.swipe_gesture_direction, SwipeGestureDirection::Natural),
    {
        match self.swipe_gesture_direction {
            Some(d) => d,
            None => SwipeGestureDirection::Natural,
        }
    }

    /// Whether the window manager runs in floating mode.
    pub fn is_floating_mode(&self) -> (b: bool)
        ensures
            b == (self.mode == WindowMode::Floating),
    {
        match self.mode {
            WindowMode::Floating => true,
            WindowMode::Tiling => false,
        }
    }

    /// Whether the manage keybinding may toggle windows (default: yes).
    pub fn enable_manage_toggle(&self) -> (b: bool)
        ensures
            b == flag_default_on(self.enable_manage_toggle),
    {
        on_unless_false(self.enable_manage_toggle)
    }

    /// Whether focus follows the mouse (default: yes).
    pub fn focus_follows_mouse(&self) -> (b: bool)
        ensures
            b == flag_default_on(self.focus_follows_mouse),
    {
        on_unless_false(self.focus_follows_mouse)
    }

    /// Whether the mouse follows the focus (default: yes).
    pub fn mouse_follows_focus(&self) -> (b: bool)
        ensures
            b == flag_default_on(self.mouse_follows_focus),
    {
        on_unless_false(self.mouse_follows_focus)
    }

    /// Whether keyboard focus changes center the window (default: no).
    pub fn auto_center(&self) -> (b: bool)
        ensures
            b == flag_on(self.auto_center),
    {
        off_unless_true(self.auto_center)
    }

    /// Whether the focused window gets a border (default: no).
    pub fn border_active_window(&self) -> (b: bool)
        ensures
            b == flag_on(self.border_active_window),
    {
        off_unless_true(self.border_active_window)
    }

    /// The menubar height override, if any.
    pub fn menubar_height(&self) -> (h: Option<i32>)
        ensures
            h == (match self.menubar_height {
                Some(v) => Some(v as i32),
                None => None::<i32>,
            }),
    {
        match self.menubar_height {
            Some(v) => Some(v as i32),
            None => None,
        }
    }

    /// The snap threshold: the configured distance (10 when unset), at least 1.
    pub open spec fn spec_edge_snap_threshold(&self) -> int {
        let t = or_default(self.edge_snap.threshold, 10u16) as int;
        if t < 1 { 1 } else { t }
    }

    /// Pixel distance from an edge that triggers a snap.
    pub fn edge_snap_threshold(&self) -> (t: i32)
        ensures
            t == self.spec_edge_snap_threshold(),
            t >= 1,
    {
        let t = match self.edge_snap.threshold {
            Some(v) => v as i32,
            None => 10,
        };
        if t < 1 { 1 } else { t }
    }

    /// Whether any snap zone is enabled.
    pub open spec fn spec_edge_snap_any_enabled(&self) -> bool {
        flag_on(self.edge_snap.left) || flag_on(self.edge_snap.right) || flag_on(self.edge_snap.top)
            || flag_on(self.edge_snap.bottom) || flag_on(self.edge_snap.fullscreen)
    }

    /// Whether any snap zone is enabled.
    pub fn edge_snap_any_enabled(&self) -> (b: bool)
        ensures
            b == self.spec_edge_snap_any_enabled(),
    {
        off_unless_true(self.edge_snap.left) || off_unless_true(self.edge_snap.right)
            || off_unless_true(self.edge_snap.top) || off_unless_true(self.edge_snap.bottom)
            || off_unless_true(self.edge_snap.fullscreen)
    }

    /// Whether the snap preview is shown: requested (default: yes) and some
    /// zone enabled.
    pub fn edge_snap_preview_enabled(&self) -> (b: bool)
        ensures
            b == (flag_default_on(self.edge_snap.preview) && self.spec_edge_snap_any_enabled()),
            b ==> self.spec_edge_snap_any_enabled(),
    {
        on_unless_false(self.edge_snap.preview) && self.edge_snap_any_enabled()
    }

    /// How long the cursor sticks at display edges during a drag, in
    /// milliseconds (300 when unset).
    pub fn edge_snap_sticky_dwell_ms(&self) -> (ms: u64)
        ensures
            ms == or_default(self.edge_snap.sticky_dwell_ms, 300u64),
    {
        match self.edge_snap.sticky_dwell_ms {
            Some(v) => v,
            None => 300,
        }
    }

    /// Whether any gesture suppression is enabled.
    pub fn suppress_gestures(&self) -> (b: bool)
        ensures
            b == (flag_on(self.gesture_suppress.four_finger) || flag_on(self.gesture_suppress.five_finger_pinch)
                || flag_on(self.gesture_suppress.five_finger_spread)),
    {
        off_unless_true(self.gesture_suppress.four_finger) || off_unless_true(self.gesture_suppress.five_finger_pinch)
            || off_unless_true(self.gesture_suppress.five_finger_spread)
    }
}

/// The built-in trackpad's preference domain.
pub open spec fn trackpad_domain() -> Seq<char> {
    "com.apple.AppleMultitouchTrackpad"@
}

/// The Bluetooth trackpad's preference domain.
pub open spec fn bluetooth_trackpad_domain() -> Seq<char> {
    "com.apple.driver.AppleBluetoothMultitouch.trackpad"@
}

/// The Dock's preference domain.
pub open spec fn dock_domain() -> Seq<char> {
    "com.apple.dock"@
}

/// The four-finger gesture keys of one trackpad domain, all set to `v`.
pub open spec fn four_finger_entries(domain: Seq<char>, v: DefaultsValue) -> Seq<EntryView> {
    seq![
        (domain, "TrackpadFourFingerHorizSwipeGesture"@, v),
        (domain, "TrackpadFourFingerVertSwipeGesture"@, v),
        (domain, "TrackpadFourFingerPinchGesture"@, v),
    ]
}

/// With four-finger gestures suppressed, three fingers take over swiping
/// and stop dragging.
pub open spec fn three_finger_entries(domain: Seq<char>) -> Seq<EntryView> {
    seq![
        (domain, "TrackpadThreeFingerDrag"@, DefaultsValue::Int(0)),
        (domain, "TrackpadThreeFingerHorizSwipeGesture"@, DefaultsValue::Int(2)),
    ]
}

/// The value of a trackpad gesture key: 0 when suppressed, 2 when enabled.
pub open spec fn gesture_level(suppress: bool) -> DefaultsValue {
    DefaultsValue::Int(if suppress { 0 } else { 2 })
}

/// The preferences that carry out the gesture suppression settings, in order.
pub open spec fn spec_gesture_entries(g: GestureSuppress) -> Seq<EntryView> {
    let four = match g.four_finger {
        Some(s) => four_finger_entries(trackpad_domain(), gesture_level(s)) + four_finger_entries(
            bluetooth_trackpad_domain(),
            gesture_level(s),
        ) + if s {
            three_finger_entries(trackpad_domain()) + three_finger_entries(bluetooth_trackpad_domain())
        } else {
            seq![]
        },
        None => seq![],
    };
    let pinch = match g.five_finger_pinch {
        Some(s) => seq![
            (trackpad_domain(), "TrackpadFiveFingerPinchGesture"@, gesture_level(s)),
            (bluetooth_trackpad_domain(), "TrackpadFiveFingerPinchGesture"@, gesture_level(s)),
            (dock_domain(), "showLaunchpadGestureEnabled"@, DefaultsValue::Bool(!s)),
        ],
        None => seq![],
    };
    let spread = match g.five_finger_spread {
        Some(s) => seq![(dock_domain(), "showDesktopGestureEnabled"@, DefaultsValue::Bool(!s))],
        None => seq![],
    };
    four + pinch + spread
}

fn entry(domain: &str, key: &str, value: DefaultsValue) -> (e: DefaultsEntry)
    ensures
        e.domain@ == domain@,
        e.key@ == key@,
        e.value == value,
{
    DefaultsEntry { domain: String::from_str(domain), key: String::from_str(key), value }
}

fn push_four_finger(out: &mut Vec<DefaultsEntry>, domain: &str, level: i64)
    ensures
        entries_view(final(out)@) == entries_view(old(out)@) + four_finger_entries(domain@, DefaultsValue::Int(level)),
{
    out.push(entry(domain, "TrackpadFourFingerHorizSwipeGesture", DefaultsValue::Int(level)));
    out.push(entry(domain, "TrackpadFourFingerVertSwipeGesture", DefaultsValue::Int(level)));
    out.push(entry(domain, "TrackpadFourFingerPinchGesture", DefaultsValue::Int(level)));
    assert(entries_view(out@) =~= entries_view(old(out)@) + four_finger_entries(domain@, DefaultsValue::Int(level)));
}

fn push_three_finger(out: &mut Vec<DefaultsEntry>, domain: &str)
    ensures
        entries_view(final(out)@) == entries_view(old(out)@) + three_finger_entries(domain@),
{
    out.push(entry(domain, "TrackpadThreeFingerDrag", DefaultsValue::Int(0)));
    out.push(entry(domain, "TrackpadThreeFingerHorizSwipeGesture", DefaultsValue::Int(2)));
    assert(entries_view(out@) =~= entries_view(old(out)@) + three_finger_entries(domain@));
}

/// The preferences that carry out the gesture suppression settings.
pub fn gesture_entries(g: &GestureSuppress) -> (r: Vec<DefaultsEntry>)
    ensures
        entries_view(r@) == spec_gesture_entries(*g),
{
    let mut out: Vec<DefaultsEntry> = Vec::new();
    let trackpad = "com.apple.AppleMultitouchTrackpad";
    let bluetooth = "com.apple.driver.AppleBluetoothMultitouch.trackpad";
    let dock = "com.apple.dock";
    assert(entries_view(out@) =~= Seq::<EntryView>::empty());
    if let Some(s) = g.four_finger {
        let level: i64 = if s { 0 } else { 2 };
        push_four_finger(&mut out, trackpad, level);
        push_four_finger(&mut out, bluetooth, level);
        if s {
            push_three_finger(&mut out, trackpad);
            push_three_finger(&mut out, bluetooth);
        }
    }
    let ghost after_four = entries_view(out@);
    let ghost four = match g.four_finger {
        Some(s) => four_finger_entries(trackpad_domain(), gesture_level(s)) + four_finger_entries(
            bluetooth_trackpad_domain(),
            gesture_level(s),
        ) + if s {
            three_finger_entries(trackpad_domain()) + three_finger_entries(bluetooth_trackpad_domain())
        } else {
            seq![]
        },
        None => seq![],
    };
    assert(after_four =~= four);
    if let Some(s) = g.five_finger_pinch {
        let level: i64 = if s { 0 } else { 2 };
        out.push(entry(trackpad, "TrackpadFiveFingerPinchGesture", DefaultsValue::Int(level)));
        out.push(entry(bluetooth, "TrackpadFiveFingerPinchGesture", DefaultsValue::Int(level)));
        out.push(entry(dock, "showLaunchpadGestureEnabled", DefaultsValue::Bool(!s)));
    }
    let ghost after_pinch = entries_view(out@);
    let ghost pinch = match g.five_finger_pinch {
        Some(s) => seq![
            (trackpad_domain(), "TrackpadFiveFingerPinchGesture"@, gesture_level(s)),
            (bluetooth_trackpad_domain(), "TrackpadFiveFingerPinchGesture"@, gesture_level(s)),
            (dock_domain(), "showLaunchpadGestureEnabled"@, DefaultsValue::Bool(!s)),
        ],
        None => Seq::<EntryView>::empty(),
    };
    assert(after_pinch =~= four + pinch);
    if let Some(s) = g.five_finger_spread {
        out.push(entry(dock, "showDesktopGestureEnabled", DefaultsValue::Bool(!s)));
    }
    assert(entries_view(out@) =~= spec_gesture_entries(*g));
    out
}

/// Whether an entry for `domain` and `key` is present.
pub open spec fn has_key(entries: Seq<EntryView>, domain: Seq<char>, key: Seq<char>) -> bool {
    exists|i: int| 0 <= i < entries.len() && #[trigger] entries[i].0 == domain && entries[i].1 == key
}

/// Adds `e` unless an entry for its domain and key is present.
pub open spec fn or_insert(entries: Seq<EntryView>, e: EntryView) -> Seq<EntryView> {
    if has_key(entries, e.0, e.1) {
        entries
    } else {
        entries.push(e)
    }
}

/// Adds each of `new`, in order, unless its domain and key are present.
pub open spec fn or_insert_all(entries: Seq<EntryView>, new: Seq<EntryView>) -> Seq<EntryView>
    decreases new.len(),
{
    if new.len() == 0 {
        entries
    } else {
        or_insert(or_insert_all(entries, new.drop_last()), new.last())
    }
}

/// Whether no domain and key occur twice.
pub open spec fn keys_unique(entries: Seq<EntryView>) -> bool {
    forall|i: int, j: int|
        0 <= i < j < entries.len() ==> !(#[trigger] entries[i].0 == #[trigger] entries[j].0 && entries[i].1
            == entries[j].1)
}

fn find_key(entries: &Vec<DefaultsEntry>, domain: &str, key: &str) -> (r: bool)
    ensures
        r == has_key(entries_view(entries@), domain@, key@),
{
    let ghost v = entries_view(entries@);
    let mut i: usize = 0;
    while i < entries.len()
        invariant
            i <= entries@.len(),
            v == entries_view(entries@),
            forall|k: int| 0 <= k < i ==> !(v[k].0 == domain@ && v[k].1 == key@),
        decreases entries@.len() - i,
    {
        if str_eq(entries[i].domain.as_str(), domain) && str_eq(entries[i].key.as_str(), key) {
            assert(v[i as int].0 == domain@ && v[i as int].1 == key@);
            return true;
        }
        i = i + 1;
    }
    false
}

/// Merges the gesture suppression preferences into `entries`: each is added
/// unless an entry for its domain and key is already there (explicit
/// settings win).
pub fn merge_gesture_defaults(gestures: &GestureSuppress, entries: &mut Vec<DefaultsEntry>)
    ensures
        entries_view(final(entries)@) == or_insert_all(entries_view(old(entries)@), spec_gesture_entries(*gestures)),
{
    let new = gesture_entries(gestures);
    let ghost base = entries_view(entries@);
    let ghost nv = entries_view(new@);
    let mut new = new;
    let mut i: usize = 0;
    assert(nv.take(0) =~= Seq::<EntryView>::empty());
    while new.len() > 0
        invariant
            i + new@.len() == nv.len(),
            entries_view(new@) == nv.skip(i as int),
            entries_view(entries@) == or_insert_all(base, nv.take(i as int)),
            nv == spec_gesture_entries(*gestures),
        decreases new@.len(),
    {
        let ghost pre = new@;
        let e = new.remove(0);
        assert(entries_view(pre)[0] == nv[i as int]);
        assert(new@ == pre.remove(0));
        assert forall|k: int| 0 <= k < new@.len() implies #[trigger] entries_view(new@)[k] == nv.skip(i as int + 1)[k] by {
            assert(new@[k] == pre[k + 1]);
            assert(entries_view(pre)[k + 1] == nv.skip(i as int)[k + 1]);
        }
        assert(entries_view(new@) =~= nv.skip(i as int + 1));
        assert(nv.take(i as int + 1).drop_last() =~= nv.take(i as int));
        assert(nv.take(i as int + 1).last() == nv[i as int]);
        if !find_key(entries, e.domain.as_str(), e.key.as_str()) {
            let ghost before = entries_view(entries@);
            entries.push(e);
            assert(entries_view(entries@) =~= before.push(nv[i as int]));
        }
        i = i + 1;
    }
    assert(nv.take(nv.len() as int) =~= nv);
}

/// Inserting with [`or_insert`] keeps domain and key pairs unique.
pub proof fn lemma_or_insert_keeps_unique(entries: Seq<EntryView>, e: EntryView)
    requires
        keys_unique(entries),
    ensures
        keys_unique(or_insert(entries, e)),
{
    if !has_key(entries, e.0, e.1) {
        let r = entries.push(e);
        assert forall|i: int, j: int| 0 <= i < j < r.len() implies !(#[trigger] r[i].0 == #[trigger] r[j].0
            && r[i].1 == r[j].1) by {
            if j == entries.len() {
                if r[i].0 == r[j].0 && r[i].1 == r[j].1 {
                    assert(entries[i].0 == e.0 && entries[i].1 == e.1);
                }
            } else {
                assert(r[i] == entries[i] && r[j] == entries[j]);
            }
        }
    }
}

/// Law: merging preferences never makes a domain and key occur twice.
pub proof fn lemma_merge_keeps_unique(entries: Seq<EntryView>, new: Seq<EntryView>)
    requires
        keys_unique(entries),
    ensures
        keys_unique(or_insert_all(entries, new)),
    decreases new.len(),
{
    if new.len() > 0 {
        lemma_merge_keeps_unique(entries, new.drop_last());
        lemma_or_insert_keeps_unique(or_insert_all(entries, new.drop_last()), new.last());
    }
}

/// Law: merging keeps every entry that was there, unchanged and in place.
pub proof fn lemma_merge_keeps_existing(entries: Seq<EntryView>, new: Seq<EntryView>)
    ensures
        or_insert_all(entries, new).len() >= entries.len(),
        forall|i: int| 0 <= i < entries.len() ==> #[trigger] or_insert_all(entries, new)[i] == entries[i],
    decreases new.len(),
{
    if new.len() > 0 {
        lemma_merge_keeps_existing(entries, new.drop_last());
    }
}

} // verus!
