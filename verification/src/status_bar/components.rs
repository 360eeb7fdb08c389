//! Status bar items: identity, placement group, animations and small
//! per-item state.
use std::collections::VecDeque;
use vstd::prelude::*;
use crate::text::{spec_decimal, push_decimal, str_eq};

verus! {

/// Position on the bar where an item is placed.
#[derive(Clone, Copy, Debug, Default, PartialEq, Eq, Structural)]
pub enum BarPosition {
    #[default]
    Left,
    Center,
    Right,
    /// Left of notch (MacBook).
    Q,
    /// Right of notch (MacBook).
    E,
}

/// Type of bar item.
#[derive(Clone, Copy, Debug, Default, PartialEq, Eq, Structural)]
pub enum BarItemType {
    #[default]
    Item,
    Space,
    Bracket,
    Graph,
    Slider,
    Alias,
}

/// Core identity and configuration of a bar item.
#[derive(Clone, Debug)]
pub struct BarItemComponent {
    /// Unique identifier (e.g., "clock", "battery", "spaces.1").
    pub id: String,
    /// Item type.
    pub item_type: BarItemType,
    /// Position on the bar.
    pub position: BarPosition,
    /// Sort order within position group (lower = closer to edge).
    pub order: u32,
    /// Shell script to run on update events.
    pub script: Option<String>,
    /// Shell script triggered on click.
    pub click_script: Option<String>,
    /// Update frequency in seconds (0 = event-driven only).
    pub update_freq: u32,
    /// Events this item subscribes to.
    pub subscriptions: Vec<String>,
    /// Whether the item is drawn (visible).
    pub drawing: bool,
    /// When scripts execute: true = always, false = only when visible.
    pub updates_when_shown: bool,
    /// Override space/display associations.
    pub ignore_association: bool,
    /// Display filter for this item.
    pub display_filter: Option<String>,
    /// Space indices this item appears on.
    pub space_filter: Vec<u32>,
}

/// What a configured bar item says about its identity and behaviour.
#[derive(Clone, Debug)]
pub struct ItemIdentity {
    pub id: String,
    pub item_type: BarItemType,
    pub position: BarPosition,
    pub script: Option<String>,
    pub click_script: Option<String>,
    pub update_freq: u32,
    pub subscribe: Vec<String>,
    pub drawing: Option<bool>,
    pub updates: Option<String>,
    pub ignore_association: Option<bool>,
    pub display: Option<String>,
    pub space: Option<Vec<u32>>,
}

/// The id given to the `idx`-th configured item: its own, or `item_<idx>`
/// when empty.
pub open spec fn spec_item_id(id: Seq<char>, idx: nat) -> Seq<char> {
    if id.len() == 0 { "item_"@ + spec_decimal(idx) } else { id }
}

/// Whether `c` is the component of the `idx`-th configured item `cfg`.
pub open spec fn is_item_component(c: BarItemComponent, idx: u32, cfg: ItemIdentity) -> bool {
    &&& c.id@ == spec_item_id(cfg.id@, idx as nat)
    &&& c.item_type == cfg.item_type
    &&& c.position == cfg.position
    &&& c.order == idx
    &&& c.script == cfg.script
    &&& c.click_script == cfg.click_script
    &&& c.update_freq == cfg.update_freq
    &&& c.subscriptions@ == cfg.subscribe@
    &&& c.drawing == (cfg.drawing != Some(false))
    &&& c.updates_when_shown == (cfg.updates matches Some(u) && u@ == "when_shown"@)
    &&& c.ignore_association == (cfg.ignore_association == Some(true))
    &&& c.display_filter == cfg.display
    &&& c.space_filter@ == (match cfg.space {
        Some(v) => v@,
        None => Seq::<u32>::empty(),
    })
}

/// Builds the component of the `idx`-th configured item: ordered by its
/// position in the configuration, drawn unless told otherwise, updating
/// only when shown if `updates` is `"when_shown"`.
pub fn item_component(idx: u32, cfg: &ItemIdentity) -> (c: BarItemComponent)
    ensures
        c.id@ == spec_item_id(cfg.id@, idx as nat),
        c.item_type == cfg.item_type,
        c.position == cfg.position,
        c.order == idx,
        c.script == cfg.script,
        c.click_script == cfg.click_script,
        c.update_freq == cfg.update_freq,
        c.subscriptions@ == cfg.subscribe@,
        c.drawing == (cfg.drawing != Some(false)),
        c.updates_when_shown == (cfg.updates matches Some(u) && u@ == "when_shown"@),
        c.ignore_association == (cfg.ignore_association == Some(true)),
        c.display_filter == cfg.display,
        c.space_filter@ == (match cfg.space {
            Some(v) => v@,
            None => Seq::<u32>::empty(),
        }),
{
    let id = if cfg.id.as_str().unicode_len() == 0 {
        let mut s = String::from_str("item_");
        push_decimal(&mut s, idx as u64);
        proof {
            reveal_strlit("item_");
        }
        s
    } else {
        cfg.id.clone()
    };
    let updates_when_shown = match &cfg.updates {
        Some(u) => str_eq(u.as_str(), "when_shown"),
        None => false,
    };
    let space_filter = match &cfg.space {
        Some(v) => v.clone(),
        None => Vec::new(),
    };
    BarItemComponent {
        id,
        item_type: cfg.item_type,
        position: cfg.position,
        order: idx,
        script: cfg.script.clone(),
        click_script: cfg.click_script.clone(),
        update_freq: cfg.update_freq,
        subscriptions: cfg.subscribe.clone(),
        drawing: match cfg.drawing {
            Some(d) => d,
            None => true,
        },
        updates_when_shown,
        ignore_association: match cfg.ignore_association {
            Some(b) => b,
            None => false,
        },
        display_filter: cfg.display.clone(),
        space_filter,
    }
}

/// The text alignment code of an item: 1 for `"center"`, 2 for `"right"`,
/// 0 otherwise.
pub fn align_code(align: Option<&str>) -> (r: u8)
    ensures
        r == (match align {
            Some(a) => if a@ == "center"@ { 1u8 } else if a@ == "right"@ { 2u8 } else { 0u8 },
            None => 0u8,
        }),
{
    match align {
        Some(a) => if str_eq(a, "center") {
            1
        } else if str_eq(a, "right") {
            2
        } else {
            0
        },
        None => 0,
    }
}

/// State of bracket items (visual grouping).
#[derive(Clone, Debug)]
pub struct BracketState {
    /// IDs (or regex patterns) of items grouped by this bracket.
    pub members: Vec<String>,
}

/// Properties that can be animated.
#[derive(Clone, Copy, Debug, PartialEq, Eq, Structural)]
pub enum AnimatableProperty {
    Width,
    PositionX,
    PositionY,
    IconColorR,
    IconColorG,
    IconColorB,
    IconColorA,
    LabelColorR,
    LabelColorG,
    LabelColorB,
    LabelColorA,
    BackgroundColorR,
    BackgroundColorG,
    BackgroundColorB,
    BackgroundColorA,
    BackgroundCornerRadius,
    BackgroundBorderWidth,
    SliderPercentage,
}

/// Animation easing curves.
#[derive(Clone, Copy, Debug, Default, PartialEq, Eq, Structural)]
pub enum AnimationCurve {
    #[default]
    Linear,
    Quadratic,
    Tanh,
    Sin,
    Exp,
    Circ,
}

/// An in-flight property animation; `V` is the animated value.
#[derive(Clone, Copy, Debug)]
pub struct PropertyAnimation<V> {
    /// Property being animated.
    pub property: AnimatableProperty,
    /// Start value.
    pub from: V,
    /// Target value.
    pub to: V,
    /// Duration in frames.
    pub duration: u32,
    /// Frames elapsed.
    pub elapsed: u32,
    /// Easing curve.
    pub curve: AnimationCurve,
}

impl<V: Copy> PropertyAnimation<V> {
    /// Whether the animation has run its full duration.
    pub open spec fn spec_is_complete(self) -> bool {
        self.elapsed >= self.duration
    }

    /// The animation one frame later (the frame count saturates).
    pub open spec fn spec_ticked(self) -> PropertyAnimation<V> {
        PropertyAnimation {
            elapsed: if self.elapsed < u32::MAX { (self.elapsed + 1) as u32 } else { u32::MAX },
            ..self
        }
    }

    /// Returns true if the animation is complete.
    pub fn is_complete(&self) -> (b: bool)
        ensures
            b == self.spec_is_complete(),
    {
        self.elapsed >= self.duration
    }

    /// Advance by one frame.
    pub fn tick(&mut self)
        ensures
            *final(self) == old(self).spec_ticked(),
    {
        self.elapsed = self.elapsed.saturating_add(1);
    }
}

/// The animations without the one for `p`.
pub open spec fn without_property<V>(s: Seq<PropertyAnimation<V>>, p: AnimatableProperty) -> Seq<PropertyAnimation<V>> {
    s.filter(|a: PropertyAnimation<V>| a.property != p)
}

/// The animations still running.
pub open spec fn running<V: Copy>(s: Seq<PropertyAnimation<V>>) -> Seq<PropertyAnimation<V>> {
    s.filter(|a: PropertyAnimation<V>| !a.spec_is_complete())
}

/// Every animation one frame later.
pub open spec fn all_ticked<V: Copy>(s: Seq<PropertyAnimation<V>>) -> Seq<PropertyAnimation<V>> {
    s.map_values(|a: PropertyAnimation<V>| a.spec_ticked())
}

/// Active animations on a bar item.
#[derive(Clone, Debug)]
pub struct AnimationState<V> {
    pub animations: Vec<PropertyAnimation<V>>,
}

impl<V: Copy> AnimationState<V> {
    /// No animation.
    pub fn new() -> (s: AnimationState<V>)
        ensures
            s.animations@.len() == 0,
    {
        AnimationState { animations: Vec::new() }
    }

    /// Adds an animation, replacing any running one for the same property
    /// (mid-flight retarget); the new one goes last.
    pub fn animate(&mut self, anim: PropertyAnimation<V>)
        ensures
            final(self).animations@ == without_property(old(self).animations@, anim.property).push(anim),
    {
        let ghost orig = self.animations@;
        let mut i: usize = 0;
        let ghost mut k: int = 0;
        while i < self.animations.len()
            invariant
                0 <= k <= orig.len(),
                i <= self.animations@.len(),
                self.animations@ == without_property(orig.take(k), anim.property) + orig.skip(k),
                i == without_property(orig.take(k), anim.property).len(),
            decreases orig.len() - k,
        {
            assert(orig.take(k + 1).drop_last() =~= orig.take(k));
            assert(self.animations@[i as int] == orig[k]) by {
                assert(orig.skip(k)[0] == orig[k]);
            }
            reveal_with_fuel(Seq::filter, 1);
            if self.animations[i].property == anim.property {
                self.animations.remove(i);
                assert(self.animations@ =~= without_property(orig.take(k + 1), anim.property) + orig.skip(k + 1));
            } else {
                assert(without_property(orig.take(k + 1), anim.property) =~= without_property(orig.take(k), anim.property).push(orig[k]));
                assert(self.animations@ =~= without_property(orig.take(k + 1), anim.property) + orig.skip(k + 1));
                i = i + 1;
            }
            proof {
                k = k + 1;
            }
        }
        proof {
            if k < orig.len() {
                assert(self.animations@.len() == i + orig.skip(k).len());
            }
        }
        assert(orig.take(k) =~= orig);
        assert(self.animations@ =~= without_property(orig, anim.property));
        self.animations.push(anim);
    }

    /// Advances every animation by one frame and drops the completed ones.
    pub fn tick(&mut self)
        ensures
            final(self).animations@ == running(all_ticked(old(self).animations@)),
    {
        let ghost orig = self.animations@;
        let mut i: usize = 0;
        while i < self.animations.len()
            invariant
                i <= self.animations@.len(),
                self.animations@.len() == orig.len(),
                forall|j: int| 0 <= j < i ==> #[trigger] self.animations@[j] == orig[j].spec_ticked(),
                forall|j: int| i <= j < orig.len() ==> #[trigger] self.animations@[j] == orig[j],
            decreases orig.len() - i,
        {
            let mut a = self.animations[i];
            a.tick();
            self.animations.set(i, a);
            i = i + 1;
        }
        assert(self.animations@ =~= all_ticked(orig));
        let ghost ticked = self.animations@;
        let mut i: usize = 0;
        let ghost mut k: int = 0;
        while i < self.animations.len()
            invariant
                0 <= k <= ticked.len(),
                i <= self.animations@.len(),
                self.animations@ == running(ticked.take(k)) + ticked.skip(k),
                i == running(ticked.take(k)).len(),
            decreases ticked.len() - k,
        {
            assert(ticked.take(k + 1).drop_last() =~= ticked.take(k));
            assert(self.animations@[i as int] == ticked[k]) by {
                assert(ticked.skip(k)[0] == ticked[k]);
            }
            reveal_with_fuel(Seq::filter, 1);
            if self.animations[i].is_complete() {
                self.animations.remove(i);
                assert(self.animations@ =~= running(ticked.take(k + 1)) + ticked.skip(k + 1));
            } else {
                assert(running(ticked.take(k + 1)) =~= running(ticked.take(k)).push(ticked[k]));
                assert(self.animations@ =~= running(ticked.take(k + 1)) + ticked.skip(k + 1));
                i = i + 1;
            }
            proof {
                k = k + 1;
            }
        }
        proof {
            if k < ticked.len() {
                assert(self.animations@.len() == i + ticked.skip(k).len());
            }
        }
        assert(ticked.take(k) =~= ticked);
    }
}

/// Pushes `value` onto a buffer holding at most `capacity` items, dropping
/// the oldest item when the buffer is full.
pub fn push_bounded<T>(data: &mut VecDeque<T>, capacity: usize, value: T)
    ensures
        final(data)@ == (if old(data)@.len() >= capacity && old(data)@.len() > 0 {
            old(data)@.drop_first()
        } else {
            old(data)@
        }).push(value),
{
    if data.len() >= capacity {
        data.pop_front();
    }
    data.push_back(value);
}

/// Law: a bounded buffer never grows past a positive capacity, and the
/// value pushed last is the newest item.
pub proof fn lemma_bounded_push_keeps_capacity<T>(old_data: Seq<T>, capacity: nat, value: T)
    requires
        capacity >= 1,
        old_data.len() <= capacity,
    ensures
        ({
            let new_data = (if old_data.len() >= capacity && old_data.len() > 0 {
                old_data.drop_first()
            } else {
                old_data
            }).push(value);
            &&& new_data.len() <= capacity
            &&& new_data.last() == value
        }),
{
}

/// Law: after `animate`, exactly one animation runs for the animated
/// property, and it is the new one.
pub proof fn lemma_animate_single_per_property<V>(s: Seq<PropertyAnimation<V>>, anim: PropertyAnimation<V>, j: int)
    requires
        0 <= j < without_property(s, anim.property).push(anim).len(),
        without_property(s, anim.property).push(anim)[j].property == anim.property,
    ensures
        j == without_property(s, anim.property).len(),
{
    let w = without_property(s, anim.property);
    if j < w.len() {
        assert(w.contains(w[j]));
        s.filter_lemma(|a: PropertyAnimation<V>| a.property != anim.property);
    }
}

/// Mouse interaction state for a bar item.
#[derive(Clone, Copy, Debug, Default, PartialEq, Eq, Structural)]
pub struct MouseState {
    /// Whether the mouse is currently over this item.
    pub hovered: bool,
    /// Whether a mouse button is pressed on this item.
    pub pressed: bool,
}

/// Script execution state for an item.
#[derive(Clone, Debug)]
pub struct ScriptState {
    /// Last script output (stdout).
    pub last_output: String,
    /// Frames since last script execution.
    pub frames_since_update: u32,
    /// Whether a script is currently running.
    pub running: bool,
}

impl Default for ScriptState {
    fn default() -> (s: Self)
        ensures
            s.last_output@ == Seq::<char>::empty(),
            s.frames_since_update == 0,
            !s.running,
    {
        ScriptState { last_output: String::new(), frames_since_update: 0, running: false }
    }
}

/// Text scrolling state for items with scrolling text.
#[derive(Clone, Copy, Debug, PartialEq, Eq, Structural)]
pub struct ScrollState {
    /// Current scroll offset in characters.
    pub offset: usize,
    /// Maximum visible characters.
    pub max_chars: u32,
    /// Frames per scroll step.
    pub frames_per_step: u32,
    /// Frame counter.
    pub frame_count: u32,
    /// Whether scrolling is active (text exceeds max_chars).
    pub active: bool,
}

impl Default for ScrollState {
    fn default() -> (s: Self)
        ensures
            s == (ScrollState { offset: 0, max_chars: 0, frames_per_step: 10, frame_count: 0, active: false }),
    {
        ScrollState { offset: 0, max_chars: 0, frames_per_step: 10, frame_count: 0, active: false }
    }
}

/// A bar event that items can subscribe to.
#[derive(Clone, Debug)]
pub struct BarEvent {
    /// Event name (e.g., "front_app_switched", "volume_change").
    pub name: String,
    /// Optional JSON payload.
    pub info: String,
}

/// Pending bar events.
#[derive(Clone, Debug)]
pub struct BarEventQueue {
    pub events: Vec<BarEvent>,
}

} // verus!
