//! Global modes and context state of the window manager: lifecycle phase,
//! interaction mode, focus context and the reload debounce guard.
use std::collections::HashMap;
use vstd::prelude::*;
use crate::geometry::IRect;
use crate::layout::WindowId;

verus! {

broadcast use vstd::std_specs::hash::group_hash_axioms;

/// Platform identifier of a window.
pub type WinID = i32;

/// Top-level application lifecycle phase.
#[derive(Clone, Copy, Debug, PartialEq, Eq, Structural, Hash, Default)]
pub enum AppPhase {
    /// Gathering existing processes and windows.
    #[default]
    Initializing,
    /// Startup apps are being launched (post-init, pre-running).
    StartupPending,
    /// Normal operation.
    Running,
}

/// Mutually exclusive interaction modes. Only one can be active at a time.
#[derive(Clone, Copy, Debug, PartialEq, Eq, Structural, Hash, Default)]
pub enum InteractionMode {
    /// No special interaction in progress.
    #[default]
    Idle,
    /// A window is being dragged (edge-snap active).
    Dragging,
    /// A trackpad swipe gesture is in progress.
    Swiping,
    /// Mission Control is showing.
    MissionControl,
}

impl InteractionMode {
    /// Whether Mission Control is showing.
    pub fn mission_control_active(&self) -> (b: bool)
        ensures
            b == (*self == InteractionMode::MissionControl),
    {
        match self {
            InteractionMode::MissionControl => true,
            _ => false,
        }
    }
}

impl AppPhase {
    /// Whether the existing processes and windows are still being gathered.
    pub fn initializing(&self) -> (b: bool)
        ensures
            b == (*self == AppPhase::Initializing),
    {
        match self {
            AppPhase::Initializing => true,
            _ => false,
        }
    }
}

/// How the current focus was acquired. Determines reshuffle and warp behavior.
#[derive(Clone, Copy, Debug, PartialEq, Eq, Structural)]
pub enum FocusSource {
    /// Focus changed via keyboard navigation. Reshuffle + warp cursor.
    Keyboard,
    /// Focus changed via mouse (FFM). No reshuffle, no warp.
    Mouse,
    /// Focus changed by the system (e.g., app launch). No reshuffle, no warp.
    System,
}

/// How focus was acquired, and the window focus-follows-mouse wants.
#[derive(Clone, Copy, Debug, PartialEq, Eq, Structural)]
pub struct FocusContext {
    /// How the current focus was acquired.
    pub source: FocusSource,
    /// The window ID that FFM wants to focus (if any).
    pub ffm_window: Option<WinID>,
}

impl FocusContext {
    /// The initial context: keyboard focus, no FFM target.
    pub fn new() -> (c: FocusContext)
        ensures
            c.source == FocusSource::Keyboard,
            c.ffm_window is None,
    {
        FocusContext { source: FocusSource::Keyboard, ffm_window: None }
    }

    /// Whether reshuffling is skipped: focus did not come from the keyboard.
    pub open spec fn spec_skip_reshuffle(self) -> bool {
        self.source == FocusSource::Mouse || self.source == FocusSource::System
    }

    /// Whether reshuffling should be skipped for the current focus change.
    pub fn skip_reshuffle(&self) -> (b: bool)
        ensures
            b == self.spec_skip_reshuffle(),
    {
        match self.source {
            FocusSource::Mouse | FocusSource::System => true,
            FocusSource::Keyboard => false,
        }
    }

    /// Records whether the next focus change skips reshuffling: a mouse
    /// focus when `to`, a keyboard focus otherwise.
    pub fn set_skip_reshuffle(&mut self, to: bool)
        ensures
            final(self).source == (if to { FocusSource::Mouse } else { FocusSource::Keyboard }),
            final(self).ffm_window == old(self).ffm_window,
    {
        self.source = if to { FocusSource::Mouse } else { FocusSource::Keyboard };
    }

    /// Sets the window focus-follows-mouse wants.
    pub fn set_ffm_flag(&mut self, flag: Option<WinID>)
        ensures
            final(self).ffm_window == flag,
            final(self).source == old(self).source,
    {
        self.ffm_window = flag;
    }

    /// The window focus-follows-mouse wants.
    pub fn ffm_flag(&self) -> (r: Option<WinID>)
        ensures
            r == self.ffm_window,
    {
        self.ffm_window
    }
}

/// Law: the skip flag reads back what was last set, and setting it leaves
/// the focus-follows-mouse target alone.
pub proof fn lemma_skip_reshuffle_roundtrip(c: FocusContext, to: bool)
    ensures
        set_skip_source(c, to).spec_skip_reshuffle() == to,
        set_skip_source(c, to).ffm_window == c.ffm_window,
{
}

/// The context after `set_skip_reshuffle(to)`.
pub open spec fn set_skip_source(c: FocusContext, to: bool) -> FocusContext {
    FocusContext { source: if to { FocusSource::Mouse } else { FocusSource::Keyboard }, ffm_window: c.ffm_window }
}

/// Whether the active display is showing a native fullscreen space.
#[derive(Clone, Copy, Debug, Default, PartialEq, Eq, Structural)]
pub struct FullscreenSpace(pub bool);

/// Default settle frames when no configuration says otherwise.
pub const DEFAULT_SETTLE_FRAMES: u32 = 2;

/// Debounce gate for reload-triggered reshuffles.
///
/// While present, cascading reshuffles are suppressed; the guard counts
/// frames down and reports the moment it settles. It also keeps the
/// window positions captured when it was created.
#[derive(Debug)]
pub struct ReloadGuard {
    /// Frames remaining before the consolidated reshuffle fires.
    pub settle_frames: u32,
    /// The configured settle value (for bump resets).
    settle_value: u32,
    /// Window positions captured at the moment the guard was inserted.
    pub pre_positions: HashMap<WindowId, IRect>,
}

impl ReloadGuard {
    /// The frame count a bump resets to (at least one).
    pub closed spec fn spec_settle_value(&self) -> u32 {
        self.settle_value
    }

    /// Frames remaining before the guard settles.
    pub closed spec fn spec_frames(&self) -> u32 {
        self.settle_frames
    }

    /// The captured window positions.
    pub closed spec fn spec_pre_positions(&self) -> Map<WindowId, IRect> {
        self.pre_positions@
    }

    /// The guard's invariant: the reset value is positive and the counter
    /// never exceeds it.
    pub closed spec fn wf(&self) -> bool {
        &&& self.spec_settle_value() >= 1
        &&& self.spec_frames() <= self.spec_settle_value()
    }

    /// A guard with the default number of settle frames.
    pub fn new(pre_positions: HashMap<WindowId, IRect>) -> (g: ReloadGuard)
        ensures
            g.wf(),
            g.spec_frames() == DEFAULT_SETTLE_FRAMES,
            g.spec_settle_value() == DEFAULT_SETTLE_FRAMES,
            g.spec_pre_positions() == pre_positions@,
    {
        ReloadGuard::with_settle_frames(pre_positions, DEFAULT_SETTLE_FRAMES)
    }

    /// A guard that settles after `settle` frames (at least one).
    pub fn with_settle_frames(pre_positions: HashMap<WindowId, IRect>, settle: u32) -> (g: ReloadGuard)
        ensures
            g.wf(),
            g.spec_frames() == (if settle >= 1 { settle } else { 1 }),
            g.spec_settle_value() == g.spec_frames(),
            g.spec_pre_positions() == pre_positions@,
    {
        let settle = if settle >= 1 { settle } else { 1 };
        ReloadGuard { settle_frames: settle, settle_value: settle, pre_positions }
    }

    /// Resets the settle counter (called by cascading triggers).
    pub fn bump(&mut self)
        requires
            old(self).wf(),
        ensures
            final(self).wf(),
            final(self).spec_frames() == old(self).spec_settle_value(),
            final(self).spec_settle_value() == old(self).spec_settle_value(),
            final(self).spec_pre_positions() == old(self).spec_pre_positions(),
    {
        self.settle_frames = self.settle_value;
    }

    /// Whether the guard has settled (ready for the consolidated reshuffle).
    pub fn settled(&self) -> (b: bool)
        ensures
            b == (self.spec_frames() == 0),
    {
        self.settle_frames == 0
    }

    /// Counts one frame down; returns `true` exactly when this tick brought
    /// the counter to zero. A settled guard stays settled and returns `false`.
    pub fn tick(&mut self) -> (just_settled: bool)
        requires
            old(self).wf(),
        ensures
            final(self).wf(),
            final(self).spec_frames() == (if old(self).spec_frames() > 0 {
                old(self).spec_frames() - 1
            } else {
                0
            }),
            just_settled == (old(self).spec_frames() == 1),
            tick_step(old(self).spec_frames(), final(self).spec_frames(), just_settled),
            final(self).spec_settle_value() == old(self).spec_settle_value(),
            final(self).spec_pre_positions() == old(self).spec_pre_positions(),
    {
        if self.settle_frames > 0 {
            self.settle_frames = self.settle_frames - 1;
            self.settle_frames == 0
        } else {
            false
        }
    }

    /// The captured position of a window, if any.
    pub fn pre_position(&self, id: WindowId) -> (r: Option<IRect>)
        ensures
            match r {
                Some(f) => self.spec_pre_positions().contains_key(id) && self.spec_pre_positions()[id] == f,
                None => !self.spec_pre_positions().contains_key(id),
            },
    {
        match self.pre_positions.get(&id) {
            Some(f) => Some(*f),
            None => None,
        }
    }
}

/// Settle frames remaining after `n` ticks from `frames`.
pub open spec fn frames_after_ticks(frames: nat, n: nat) -> nat {
    if frames >= n { (frames - n) as nat } else { 0 }
}

/// Law: starting from a bump, the guard settles after exactly
/// `settle_value` ticks — not before — and a tick reports `true` exactly once.
pub proof fn lemma_settles_after_value_ticks(value: nat, n: nat)
    requires
        value >= 1,
    ensures
        frames_after_ticks(value, n) == 0 <==> n >= value,
        n >= 1 ==> ((frames_after_ticks(value, (n - 1) as nat) == 1) <==> n == value),
{
}

/// One tick of the guard: the counter goes down by one unless it is
/// already zero, and the tick reports whether it reached zero just now.
pub open spec fn tick_step(before: u32, after: u32, just_settled: bool) -> bool {
    &&& after == (if before > 0 { before - 1 } else { 0 })
    &&& just_settled == (before == 1)
}

/// Law: over a run of ticks with no bump between (`frames[k]` the counter
/// before tick `k`, `results[k]` what tick `k` returned), the counter after
/// `k` ticks is `frames[0] - k` (never below zero), tick `k` returns `true`
/// exactly when `k + 1 == frames[0]` (so at most once), and from that tick
/// on the guard stays settled.
pub proof fn lemma_tick_run(frames: Seq<u32>, results: Seq<bool>)
    requires
        frames.len() == results.len() + 1,
        forall|k: int| 0 <= k < results.len() ==> tick_step(frames[k], #[trigger] frames[k + 1], results[k]),
    ensures
        forall|k: int| 0 <= k < frames.len() ==> #[trigger] frames[k] == frames_after_ticks(frames[0] as nat, k as nat),
        forall|k: int| 0 <= k < results.len() ==> (#[trigger] results[k] <==> k + 1 == frames[0]),
        forall|k: int| 0 <= k < frames.len() ==> (#[trigger] frames[k] == 0 <==> k >= frames[0]),
{
    assert forall|k: int| 0 <= k < frames.len() implies #[trigger] frames[k] == frames_after_ticks(frames[0] as nat, k as nat) by {
        lemma_tick_prefix(frames, results, k);
    }
    assert forall|k: int| 0 <= k < results.len() implies (#[trigger] results[k] <==> k + 1 == frames[0]) by {
        lemma_tick_prefix(frames, results, k);
        assert(tick_step(frames[k], frames[k + 1], results[k]));
    }
}

proof fn lemma_tick_prefix(frames: Seq<u32>, results: Seq<bool>, k: int)
    requires
        frames.len() == results.len() + 1,
        forall|j: int| 0 <= j < results.len() ==> tick_step(frames[j], #[trigger] frames[j + 1], results[j]),
        0 <= k < frames.len(),
    ensures
        frames[k] == frames_after_ticks(frames[0] as nat, k as nat),
    decreases k,
{
    if k > 0 {
        lemma_tick_prefix(frames, results, k - 1);
        let j = k - 1;
        assert(tick_step(frames[j], frames[j + 1], results[j]));
    }
}

} // verus!
