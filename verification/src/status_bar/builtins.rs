//! Built-in status bar widgets.
//!
//! Each widget implements `BuiltinWidget`; the bar spawns an item for every
//! built-in the configuration does not define itself.
use vstd::prelude::*;
use crate::status_bar::components::{is_item_component, item_component, BarItemComponent, BarItemType, BarPosition, ItemIdentity};
use crate::text::{digit_char, digit_str, ranges_match_split, spec_split, split_ranges, str_eq, lemma_split_nonempty};

verus! {

/// Context passed to widget `update()` for reading window manager state.
pub struct WidgetContext<'a> {
    /// The focused window's parent application bundle ID (if any).
    pub focused_app_bundle_id: Option<&'a str>,
}

impl<'a> WidgetContext<'a> {
    /// Builds the context with a pre-resolved bundle ID.
    pub fn with_bundle_id(bundle_id: Option<&'a str>) -> (c: Self)
        ensures
            c.focused_app_bundle_id == bundle_id,
    {
        WidgetContext { focused_app_bundle_id: bundle_id }
    }
}

/// A built-in status bar widget.
pub trait BuiltinWidget {
    /// The widget's unique identifier.
    spec fn spec_id(&self) -> Seq<char>;

    /// The widget's default bar position.
    spec fn spec_position(&self) -> BarPosition;

    /// The widget's default sort order.
    spec fn spec_order(&self) -> u32;

    /// The events the widget subscribes to.
    spec fn spec_subscriptions(&self) -> Seq<Seq<char>>;

    /// Unique identifier matching config item IDs (e.g., "clock", "front_app").
    fn id(&self) -> (r: &str)
        ensures
            r@ == self.spec_id(),
    ;

    /// Default bar position.
    fn position(&self) -> (r: BarPosition)
        ensures
            r == self.spec_position(),
    ;

    /// Default sort order (higher = further from edge).
    fn order(&self) -> (r: u32)
        ensures
            r == self.spec_order(),
    ;

    /// Default subscribed events (empty = timer-only or manual).
    fn subscriptions(&self) -> (r: Vec<String>)
        ensures
            strings_view(r@) == self.spec_subscriptions(),
    ;

    /// The new label of the item, or `None` to keep the current one.
    fn update(&self, ctx: &WidgetContext<'_>) -> Option<String>;
}

/// Owned strings as character sequences.
pub open spec fn strings_view(v: Seq<String>) -> Seq<Seq<char>> {
    v.map_values(|s: String| s@)
}

/// Clock widget — shows the current time.
pub struct ClockWidget;

/// Front app widget — shows the currently focused application name.
pub struct FrontAppWidget;

/// Two-digit zero-padded decimal text of `n < 100`.
pub open spec fn two_digits(n: int) -> Seq<char> {
    seq![digit_char(n / 10), digit_char(n % 10)]
}

/// The `HH:MM` label (UTC) of a time given in seconds since the epoch.
pub open spec fn spec_time_label(secs: nat) -> Seq<char> {
    let total_minutes = secs / 60;
    let hours = (total_minutes / 60) % 24;
    let minutes = total_minutes % 60;
    two_digits(hours as int) + seq![':'] + two_digits(minutes as int)
}

/// The `HH:MM` label (UTC) of a time given in seconds since the epoch.
pub fn time_label(secs: u64) -> (s: String)
    ensures
        s@ == spec_time_label(secs as nat),
{
    let total_minutes = secs / 60;
    let hours = (total_minutes / 60) % 24;
    let minutes = total_minutes % 60;
    let mut s = String::new();
    s.append(digit_str(hours / 10));
    s.append(digit_str(hours % 10));
    s.append(":");
    s.append(digit_str(minutes / 10));
    s.append(digit_str(minutes % 10));
    proof {
        reveal_strlit(":");
    }
    assert(s@ =~= spec_time_label(secs as nat));
    s
}

/// Seconds since the Unix epoch on the system clock (0 if the clock is
/// before the epoch). Nothing is promised of the value: it is the time.
#[verifier::external_body]
fn unix_time_secs() -> u64 {
    std::time::SystemTime::now()
        .duration_since(std::time::UNIX_EPOCH)
        .unwrap_or_default()
        .as_secs()
}

/// Returns the current time formatted as `HH:MM` (UTC).
pub fn current_time_label() -> (s: String)
    ensures
        exists|secs: nat| s@ == spec_time_label(secs),
{
    let secs = unix_time_secs();
    time_label(secs)
}

/// The last `.`-separated piece of a bundle id (the whole id if it has no
/// dot).
pub open spec fn spec_short_name(bundle_id: Seq<char>) -> Seq<char> {
    spec_split(bundle_id, '.').last()
}

/// The last `.`-separated piece of a bundle id.
pub fn short_app_name(bundle_id: &str) -> (s: String)
    ensures
        s@ == spec_short_name(bundle_id@),
{
    let ranges = split_ranges(bundle_id, '.');
    proof {
        lemma_split_nonempty(bundle_id@, '.');
    }
    let (a, b) = ranges[ranges.len() - 1];
    String::from_str(bundle_id.substring_char(a, b))
}

impl BuiltinWidget for ClockWidget {
    open spec fn spec_id(&self) -> Seq<char> {
        "clock"@
    }

    open spec fn spec_position(&self) -> BarPosition {
        BarPosition::Right
    }

    open spec fn spec_order(&self) -> u32 {
        999
    }

    open spec fn spec_subscriptions(&self) -> Seq<Seq<char>> {
        seq![]
    }

    fn id(&self) -> (r: &str) {
        "clock"
    }

    fn position(&self) -> (r: BarPosition) {
        BarPosition::Right
    }

    fn order(&self) -> (r: u32) {
        999
    }

    fn subscriptions(&self) -> (r: Vec<String>) {
        let v: Vec<String> = Vec::new();
        assert(strings_view(v@) =~= seq![]);
        v
    }

    fn update(&self, _ctx: &WidgetContext<'_>) -> (r: Option<String>)
        ensures
            r matches Some(l) && exists|secs: nat| l@ == spec_time_label(secs),
    {
        Some(current_time_label())
    }
}

impl BuiltinWidget for FrontAppWidget {
    open spec fn spec_id(&self) -> Seq<char> {
        "front_app"@
    }

    open spec fn spec_position(&self) -> BarPosition {
        BarPosition::Left
    }

    open spec fn spec_order(&self) -> u32 {
        0
    }

    open spec fn spec_subscriptions(&self) -> Seq<Seq<char>> {
        seq!["front_app_switched"@]
    }

    fn id(&self) -> (r: &str) {
        "front_app"
    }

    fn position(&self) -> (r: BarPosition) {
        BarPosition::Left
    }

    fn order(&self) -> (r: u32) {
        0
    }

    fn subscriptions(&self) -> (r: Vec<String>) {
        let mut v: Vec<String> = Vec::new();
        v.push(String::from_str("front_app_switched"));
        assert(strings_view(v@) =~= seq!["front_app_switched"@]);
        v
    }

    fn update(&self, ctx: &WidgetContext<'_>) -> (r: Option<String>)
        ensures
            r matches Some(l) && l@ == spec_short_name(match ctx.focused_app_bundle_id {
                Some(b) => b@,
                None => ""@,
            }),
    {
        let bundle_id = match ctx.focused_app_bundle_id {
            Some(b) => b,
            None => "",
        };
        Some(short_app_name(bundle_id))
    }
}

/// Whether `c` is the default component of the built-in widget `w`.
pub open spec fn is_builtin_component<W: BuiltinWidget>(c: BarItemComponent, w: W) -> bool {
    &&& c.id@ == w.spec_id()
    &&& c.item_type == BarItemType::Item
    &&& c.position == w.spec_position()
    &&& c.order == w.spec_order()
    &&& c.script is None
    &&& c.click_script is None
    &&& c.update_freq == 0
    &&& strings_view(c.subscriptions@) == w.spec_subscriptions()
    &&& c.drawing
    &&& !c.updates_when_shown
    &&& !c.ignore_association
    &&& c.display_filter is None
    &&& c.space_filter@.len() == 0
}

/// Builds the default component of a built-in widget: a plain item at the
/// widget's position and order, drawn, event-driven, without scripts.
pub fn builtin_component<W: BuiltinWidget + ?Sized>(widget: &W) -> (c: BarItemComponent)
    ensures
        c.id@ == widget.spec_id(),
        c.item_type == BarItemType::Item,
        c.position == widget.spec_position(),
        c.order == widget.spec_order(),
        c.script is None,
        c.click_script is None,
        c.update_freq == 0,
        strings_view(c.subscriptions@) == widget.spec_subscriptions(),
        c.drawing,
        !c.updates_when_shown,
        !c.ignore_association,
        c.display_filter is None,
        c.space_filter@.len() == 0,
{
    BarItemComponent {
        id: String::from_str(widget.id()),
        item_type: BarItemType::Item,
        position: widget.position(),
        order: widget.order(),
        script: None,
        click_script: None,
        update_freq: 0,
        subscriptions: widget.subscriptions(),
        drawing: true,
        updates_when_shown: false,
        ignore_association: false,
        display_filter: None,
        space_filter: Vec::new(),
    }
}

/// Whether some configured item has the id `id`.
pub open spec fn id_configured(config_ids: Seq<String>, id: Seq<char>) -> bool {
    exists|i: int| 0 <= i < config_ids.len() && config_ids[i]@ == id
}

/// Whether a built-in widget must be spawned: no configured item has its id.
pub fn needs_builtin(config_ids: &Vec<String>, builtin_id: &str) -> (b: bool)
    ensures
        b == !id_configured(config_ids@, builtin_id@),
{
    let mut i: usize = 0;
    while i < config_ids.len()
        invariant
            i <= config_ids@.len(),
            forall|j: int| 0 <= j < i ==> config_ids@[j]@ != builtin_id@,
        decreases config_ids@.len() - i,
    {
        if str_eq(config_ids[i].as_str(), builtin_id) {
            return false;
        }
        i = i + 1;
    }
    true
}

/// Whether some configured item has the id `id` (its own id, as written).
pub open spec fn item_defined(items: Seq<ItemIdentity>, id: Seq<char>) -> bool {
    exists|i: int| 0 <= i < items.len() && items[i].id@ == id
}

fn item_defined_exec(items: &Vec<ItemIdentity>, id: &str) -> (b: bool)
    ensures
        b == item_defined(items@, id@),
{
    let mut i: usize = 0;
    while i < items.len()
        invariant
            i <= items@.len(),
            forall|j: int| 0 <= j < i ==> items@[j].id@ != id@,
        decreases items@.len() - i,
    {
        if str_eq(items[i].id.as_str(), id) {
            return true;
        }
        i = i + 1;
    }
    false
}

/// The components the bar spawns: one per configured item, in order, then
/// the default component of each built-in widget (clock, then front app)
/// that no configured item defines.
pub fn spawn_components(items: &Vec<ItemIdentity>) -> (r: Vec<BarItemComponent>)
    requires
        items@.len() <= u32::MAX,
    ensures
        ({
            let n = items@.len() as int;
            let clock = !item_defined(items@, "clock"@);
            let front = !item_defined(items@, "front_app"@);
            &&& r@.len() == n + (if clock { 1int } else { 0 }) + (if front { 1int } else { 0 })
            &&& forall|k: int| 0 <= k < n ==> is_item_component(#[trigger] r@[k], k as u32, items@[k])
            &&& clock ==> is_builtin_component(r@[n], ClockWidget)
            &&& front ==> is_builtin_component(r@[n + (if clock { 1int } else { 0 })], FrontAppWidget)
        }),
{
    let mut out: Vec<BarItemComponent> = Vec::new();
    let mut i: usize = 0;
    while i < items.len()
        invariant
            i <= items@.len() <= u32::MAX,
            out@.len() == i,
            forall|k: int| 0 <= k < i ==> is_item_component(#[trigger] out@[k], k as u32, items@[k]),
        decreases items@.len() - i,
    {
        let c = item_component(i as u32, &items[i]);
        out.push(c);
        i = i + 1;
    }
    let ghost n = out@.len();
    let clock = ClockWidget;
    let front = FrontAppWidget;
    proof {
        reveal_strlit("clock");
        reveal_strlit("front_app");
    }
    if !item_defined_exec(items, clock.id()) {
        out.push(builtin_component(&clock));
    }
    let ghost m = out@.len();
    if !item_defined_exec(items, front.id()) {
        out.push(builtin_component(&front));
        assert(out@[m as int] == out@.last());
    }
    out
}

} // verus!
