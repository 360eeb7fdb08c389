//! Final frame computation for the windows of a layout strip.
//!
//! Takes the raw layout output (window id + local frame) and turns it into
//! absolute screen frames, handling edge padding, sliver placement of
//! off-screen windows, and the reload-guard dedup.
use std::collections::HashMap;
use vstd::prelude::*;
use crate::geometry::{fits_i32, max_int, min_int, IRect, IVec2};
use crate::snap::half_toward_zero;

verus! {

broadcast use vstd::std_specs::hash::group_hash_axioms;

/// Identifier of a window in the layout (an ECS entity id).
pub type WindowId = u64;

/// Parameters describing the display geometry.
#[derive(Clone, Copy, Debug)]
pub struct DisplayGeometry {
    /// Full display bounds in absolute coordinates.
    pub bounds: IRect,
    /// Menubar height in pixels (top of usable area).
    pub menubar_height: i32,
    /// Dock height at bottom (0 if dock is on side or hidden).
    pub dock_bottom: i32,
    /// Absolute origin of the display (for coordinate transforms).
    pub origin: IVec2,
}

/// Layout padding configuration.
#[derive(Clone, Copy, Debug, PartialEq, Eq, Structural)]
pub struct LayoutPadding {
    pub top: i32,
    pub right: i32,
    pub bottom: i32,
    pub left: i32,
}

impl LayoutPadding {
    /// Builds the padding from a `(top, right, bottom, left)` tuple.
    pub fn from_tuple(t: (i32, i32, i32, i32)) -> (p: LayoutPadding)
        ensures
            p.top == t.0,
            p.right == t.1,
            p.bottom == t.2,
            p.left == t.3,
    {
        LayoutPadding { top: t.0, right: t.1, bottom: t.2, left: t.3 }
    }
}

/// Sliver configuration for off-screen windows.
#[derive(Clone, Copy, Debug)]
pub struct SliverConfig {
    /// Number of pixels to show when a window is off-screen.
    pub width: i32,
    /// Pixels trimmed from both the top and the bottom of an off-screen,
    /// non-stacked window while not swiping (height compression).
    pub height_inset: i32,
}

/// Information about a single window for layout computation.
#[derive(Clone, Copy, Debug)]
pub struct WindowInfo {
    /// The raw frame from the strip layout (local coords, no padding).
    pub layout_frame: IRect,
    /// The window's current frame (for diff detection).
    pub old_frame: IRect,
    /// Per-window horizontal padding (e.g., from app border insets).
    pub h_pad: i32,
    /// Whether this window is in a stack.
    pub is_stacked: bool,
}

/// What changed for a window after layout.
#[derive(Clone, Copy, Debug, PartialEq, Eq, Structural)]
pub struct FrameUpdate {
    /// The final absolute frame.
    pub frame: IRect,
    /// Whether the position changed from old_frame.
    pub moved: bool,
    /// Whether the size changed from old_frame.
    pub resized: bool,
}

/// Height of the display above the dock.
pub open spec fn spec_usable_height(display: DisplayGeometry) -> int {
    display.bounds.spec_height() - display.dock_bottom
}

/// Height of the display above the dock.
pub fn usable_height(display: &DisplayGeometry) -> (h: i32)
    requires
        fits_i32(display.bounds.spec_height()),
        fits_i32(spec_usable_height(*display)),
    ensures
        h == spec_usable_height(*display),
{
    display.bounds.height() - display.dock_bottom
}

/// The window's frame in absolute coordinates, shifted right by the left
/// padding, before any sliver or vertical adjustment: `(x0, y0, x1, y1)`.
pub open spec fn spec_placed(d: DisplayGeometry, p: LayoutPadding, info: WindowInfo) -> (int, int, int, int) {
    (
        d.origin.x + info.layout_frame.min.x + p.left,
        d.origin.y + info.layout_frame.min.y,
        d.origin.x + info.layout_frame.max.x + p.left,
        d.origin.y + info.layout_frame.max.y,
    )
}

/// Whether the window shows at most a sliver inside the padded viewport.
pub open spec fn spec_is_off_screen(d: DisplayGeometry, p: LayoutPadding, s: SliverConfig, info: WindowInfo) -> bool {
    let f = spec_placed(d, p, info);
    let pad_l = d.origin.x + p.left;
    let pad_r = d.origin.x + d.bounds.spec_width() - p.right;
    let visible = max_int(min_int(f.2, pad_r) - max_int(f.0, pad_l), 0);
    visible <= max_int(s.width as int, 20)
}

/// The final absolute frame `(x0, y0, x1, y1)` of one window.
///
/// On-screen windows are translated by the display origin, the left padding,
/// the menubar and the top padding. Off-screen windows keep their width but
/// are moved so that a sliver of `s.width + h_pad` pixels shows at the edge
/// they left by; unless swiping or stacked, they also lose `height_inset`
/// pixels at top and bottom.
pub open spec fn spec_target_frame(
    d: DisplayGeometry,
    p: LayoutPadding,
    s: SliverConfig,
    swiping: bool,
    info: WindowInfo,
) -> (int, int, int, int) {
    let f = spec_placed(d, p, info);
    let dx = d.origin.x as int;
    let pad_l = dx + p.left;
    let top = d.menubar_height + p.top;
    if spec_is_off_screen(d, p, s, info) {
        let width = f.2 - f.0;
        let center = half_toward_zero(f.0 + f.2);
        let (x0, x1) = if center <= pad_l {
            (dx + s.width + info.h_pad - width, dx + s.width + info.h_pad)
        } else {
            let a = dx + d.bounds.spec_width() - s.width - info.h_pad;
            (a, a + width)
        };
        if swiping || info.is_stacked {
            (x0, f.1 + top, x1, f.3 + top)
        } else {
            (x0, f.1 + top + s.height_inset, x1, f.3 + top - s.height_inset)
        }
    } else {
        (f.0, f.1 + top, f.2, f.3 + top)
    }
}

/// The rectangle of a frame given as integers.
pub open spec fn rect_of(f: (int, int, int, int)) -> IRect {
    IRect {
        min: IVec2 { x: f.0 as i32, y: f.1 as i32 },
        max: IVec2 { x: f.2 as i32, y: f.3 as i32 },
    }
}

/// The final frame of every window lies in the `i32` range.
pub open spec fn frame_fits(f: (int, int, int, int)) -> bool {
    fits_i32(f.0) && fits_i32(f.1) && fits_i32(f.2) && fits_i32(f.3)
}

/// Two frames have the same origin and the same size.
pub open spec fn same_placement(a: IRect, f: (int, int, int, int)) -> bool {
    &&& a.min.x == f.0
    &&& a.min.y == f.1
    &&& a.spec_width() == f.2 - f.0
    &&& a.spec_height() == f.3 - f.1
}

/// The update emitted for one window, if any: none when the window matches
/// its captured pre-reload position, or when neither its position nor its
/// size changes.
pub open spec fn spec_window_update(
    d: DisplayGeometry,
    p: LayoutPadding,
    s: SliverConfig,
    swiping: bool,
    pre: Option<Map<WindowId, IRect>>,
    w: (WindowId, WindowInfo),
) -> Option<(WindowId, FrameUpdate)> {
    let f = spec_target_frame(d, p, s, swiping, w.1);
    let old = w.1.old_frame;
    let skipped = match pre {
        Some(m) => m.contains_key(w.0) && same_placement(m[w.0], f),
        None => false,
    };
    let moved = !(old.min.x == f.0 && old.min.y == f.1);
    let resized = !(old.spec_width() == f.2 - f.0 && old.spec_height() == f.3 - f.1);
    if skipped || !(moved || resized) {
        None
    } else {
        Some((w.0, FrameUpdate { frame: rect_of(f), moved, resized }))
    }
}

/// The updates for a sequence of windows, in window order.
pub open spec fn spec_frame_updates(
    d: DisplayGeometry,
    p: LayoutPadding,
    s: SliverConfig,
    swiping: bool,
    pre: Option<Map<WindowId, IRect>>,
    ws: Seq<(WindowId, WindowInfo)>,
) -> Seq<(WindowId, FrameUpdate)>
    decreases ws.len(),
{
    if ws.len() == 0 {
        seq![]
    } else {
        let prev = spec_frame_updates(d, p, s, swiping, pre, ws.drop_last());
        match spec_window_update(d, p, s, swiping, pre, ws.last()) {
            Some(u) => prev.push(u),
            None => prev,
        }
    }
}

/// Every window's final frame is representable.
pub open spec fn all_frames_fit(
    d: DisplayGeometry,
    p: LayoutPadding,
    s: SliverConfig,
    swiping: bool,
    ws: Seq<(WindowId, WindowInfo)>,
) -> bool {
    forall|i: int|
        0 <= i < ws.len() ==> frame_fits(#[trigger] spec_target_frame(d, p, s, swiping, ws[i].1))
}

/// The view of an optional map of pre-reload positions.
pub open spec fn pre_view(pre: Option<&HashMap<WindowId, IRect>>) -> Option<Map<WindowId, IRect>> {
    match pre {
        Some(m) => Some(m@),
        None => None,
    }
}

fn max64(a: i64, b: i64) -> (r: i64)
    ensures
        r == max_int(a as int, b as int),
{
    if a >= b { a } else { b }
}

fn min64(a: i64, b: i64) -> (r: i64)
    ensures
        r == min_int(a as int, b as int),
{
    if a <= b { a } else { b }
}

fn half64(v: i64) -> (h: i64)
    requires
        -0x1_0000_0000_0000 <= v <= 0x1_0000_0000_0000,
    ensures
        h == half_toward_zero(v as int),
{
    if v >= 0 {
        v / 2
    } else {
        -((-v) / 2)
    }
}

/// Computes the final frame `(x0, y0, x1, y1)` of one window in 64-bit
/// arithmetic.
fn target_frame(
    d: &DisplayGeometry,
    p: &LayoutPadding,
    s: &SliverConfig,
    swiping: bool,
    info: &WindowInfo,
) -> (f: (i64, i64, i64, i64))
    ensures
        f.0 == spec_target_frame(*d, *p, *s, swiping, *info).0,
        f.1 == spec_target_frame(*d, *p, *s, swiping, *info).1,
        f.2 == spec_target_frame(*d, *p, *s, swiping, *info).2,
        f.3 == spec_target_frame(*d, *p, *s, swiping, *info).3,
{
    let dx = d.origin.x as i64;
    let display_width = d.bounds.max.x as i64 - d.bounds.min.x as i64;
    let pad_l = dx + p.left as i64;
    let pad_r = dx + display_width - p.right as i64;
    let x0 = dx + info.layout_frame.min.x as i64 + p.left as i64;
    let x1 = dx + info.layout_frame.max.x as i64 + p.left as i64;
    let y0 = d.origin.y as i64 + info.layout_frame.min.y as i64;
    let y1 = d.origin.y as i64 + info.layout_frame.max.y as i64;
    let top = d.menubar_height as i64 + p.top as i64;

    let visible = max64(min64(x1, pad_r) - max64(x0, pad_l), 0);
    let threshold = max64(s.width as i64, 20);
    if visible <= threshold {
        let width = x1 - x0;
        let center = half64(x0 + x1);
        let sliver = s.width as i64 + info.h_pad as i64;
        let (nx0, nx1) = if center <= pad_l {
            (dx + sliver - width, dx + sliver)
        } else {
            let a = dx + display_width - s.width as i64 - info.h_pad as i64;
            (a, a + width)
        };
        if swiping || info.is_stacked {
            (nx0, y0 + top, nx1, y1 + top)
        } else {
            let inset = s.height_inset as i64;
            (nx0, y0 + top + inset, nx1, y1 + top - inset)
        }
    } else {
        (x0, y0 + top, x1, y1 + top)
    }
}

/// Computes the final absolute frames for all windows in a layout strip.
///
/// Returns, in window order, only the windows that need updating: those
/// whose position or size changes, minus those matching their captured
/// pre-reload position.
pub fn compute_final_frames(
    display: &DisplayGeometry,
    padding: &LayoutPadding,
    sliver: &SliverConfig,
    swiping: bool,
    pre_positions: Option<&HashMap<WindowId, IRect>>,
    windows: &[(WindowId, WindowInfo)],
) -> (r: Vec<(WindowId, FrameUpdate)>)
    requires
        all_frames_fit(*display, *padding, *sliver, swiping, windows@),
    ensures
        r@ == spec_frame_updates(
            *display,
            *padding,
            *sliver,
            swiping,
            pre_view(pre_positions),
            windows@,
        ),
{
    let mut results: Vec<(WindowId, FrameUpdate)> = Vec::new();
    let n = windows.len();
    let mut i: usize = 0;
    while i < n
        invariant
            n == windows@.len(),
            i <= n,
            all_frames_fit(*display, *padding, *sliver, swiping, windows@),
            results@ == spec_frame_updates(
                *display,
                *padding,
                *sliver,
                swiping,
                pre_view(pre_positions),
                windows@.take(i as int),
            ),
        decreases n - i,
    {
        let (entity, info) = windows[i];
        let ghost prefix = windows@.take(i as int + 1);
        assert(prefix.drop_last() =~= windows@.take(i as int));
        assert(prefix.last() == windows@[i as int]);
        let f = target_frame(display, padding, sliver, swiping, &info);
        proof {
            assert(frame_fits(spec_target_frame(*display, *padding, *sliver, swiping, windows@[i as int].1)));
        }
        let (x0, y0, x1, y1) = f;
        let w = x1 - x0;
        let h = y1 - y0;

        let mut skip = false;
        if let Some(pre) = pre_positions {
            if let Some(pre_frame) = pre.get(&entity) {
                let pw = pre_frame.max.x as i64 - pre_frame.min.x as i64;
                let ph = pre_frame.max.y as i64 - pre_frame.min.y as i64;
                if pre_frame.min.x as i64 == x0 && pre_frame.min.y as i64 == y0 && pw == w && ph
                    == h {
                    skip = true;
                }
            }
        }

        if !skip {
            let ow = info.old_frame.max.x as i64 - info.old_frame.min.x as i64;
            let oh = info.old_frame.max.y as i64 - info.old_frame.min.y as i64;
            let moved = !(info.old_frame.min.x as i64 == x0 && info.old_frame.min.y as i64 == y0);
            let resized = !(ow == w && oh == h);
            if moved || resized {
                let frame = IRect {
                    min: IVec2 { x: x0 as i32, y: y0 as i32 },
                    max: IVec2 { x: x1 as i32, y: y1 as i32 },
                };
                results.push((entity, FrameUpdate { frame, moved, resized }));
            }
        }
        i = i + 1;
    }
    assert(windows@.take(n as int) =~= windows@);
    results
}

/// Law: every update that is emitted really changes the window — its
/// position or its size differs from the window's current frame, and the
/// flags say which.
pub proof fn lemma_updates_are_changes(
    d: DisplayGeometry,
    p: LayoutPadding,
    s: SliverConfig,
    swiping: bool,
    pre: Option<Map<WindowId, IRect>>,
    ws: Seq<(WindowId, WindowInfo)>,
    k: int,
)
    requires
        0 <= k < spec_frame_updates(d, p, s, swiping, pre, ws).len(),
    ensures
        ({
            let u = spec_frame_updates(d, p, s, swiping, pre, ws)[k].1;
            u.moved || u.resized
        }),
    decreases ws.len(),
{
    let prev = spec_frame_updates(d, p, s, swiping, pre, ws.drop_last());
    if k < prev.len() {
        lemma_updates_are_changes(d, p, s, swiping, pre, ws.drop_last(), k);
    }
}

/// Law: only windows of the input are updated, each at most once per
/// input occurrence, and never more updates than windows.
pub proof fn lemma_updates_bounded(
    d: DisplayGeometry,
    p: LayoutPadding,
    s: SliverConfig,
    swiping: bool,
    pre: Option<Map<WindowId, IRect>>,
    ws: Seq<(WindowId, WindowInfo)>,
)
    ensures
        ({
            let ups = spec_frame_updates(d, p, s, swiping, pre, ws);
            &&& ups.len() <= ws.len()
            &&& forall|k: int|
                #![trigger ups[k]]
                0 <= k < ups.len() ==> exists|j: int| 0 <= j < ws.len() && #[trigger] ws[j].0 == ups[k].0
        }),
    decreases ws.len(),
{
    if ws.len() > 0 {
        lemma_updates_bounded(d, p, s, swiping, pre, ws.drop_last());
        let prev = spec_frame_updates(d, p, s, swiping, pre, ws.drop_last());
        let cur = spec_frame_updates(d, p, s, swiping, pre, ws);
        assert forall|k: int| #![trigger cur[k]] 0 <= k < cur.len() implies exists|j: int|
            0 <= j < ws.len() && #[trigger] ws[j].0 == cur[k].0 by {
            if k < prev.len() {
                let j = choose|j: int| 0 <= j < ws.drop_last().len() && #[trigger] ws.drop_last()[j].0 == prev[k].0;
                assert(ws[j].0 == cur[k].0);
            } else {
                assert(ws[ws.len() - 1].0 == cur[k].0);
            }
        }
    }
}

/// Law: the layout never changes a window's width — an off-screen window is
/// moved, not resized, horizontally.
pub proof fn lemma_width_preserved(
    d: DisplayGeometry,
    p: LayoutPadding,
    s: SliverConfig,
    swiping: bool,
    info: WindowInfo,
)
    ensures
        ({
            let f = spec_target_frame(d, p, s, swiping, info);
            f.2 - f.0 == info.layout_frame.spec_width()
        }),
{
}

/// Law: a window keeps its full height unless it is off-screen, not stacked
/// and no swipe is in progress; in that case it loses `height_inset` at the
/// top and at the bottom.
pub proof fn lemma_height_rule(
    d: DisplayGeometry,
    p: LayoutPadding,
    s: SliverConfig,
    swiping: bool,
    info: WindowInfo,
)
    ensures
        ({
            let f = spec_target_frame(d, p, s, swiping, info);
            let compressed = spec_is_off_screen(d, p, s, info) && !swiping && !info.is_stacked;
            &&& !compressed ==> f.3 - f.1 == info.layout_frame.spec_height()
            &&& compressed ==> f.3 - f.1 == info.layout_frame.spec_height() - 2 * s.height_inset
        }),
{
}

/// Law: an off-screen window that left by the left edge ends exactly
/// `width + h_pad` pixels into the display, and one that left by the right
/// edge starts exactly `width + h_pad` pixels before the display's right edge.
pub proof fn lemma_sliver_visible(
    d: DisplayGeometry,
    p: LayoutPadding,
    s: SliverConfig,
    swiping: bool,
    info: WindowInfo,
)
    requires
        spec_is_off_screen(d, p, s, info),
    ensures
        ({
            let f = spec_target_frame(d, p, s, swiping, info);
            let pl = spec_placed(d, p, info);
            let center = half_toward_zero(pl.0 + pl.2);
            &&& center <= d.origin.x + p.left ==> f.2 == d.origin.x + s.width + info.h_pad
            &&& center > d.origin.x + p.left ==> f.0 == d.origin.x + d.bounds.spec_width()
                - s.width - info.h_pad
        }),
{
}

/// The window as it stands after its update is applied: its current frame
/// becomes the emitted frame (unchanged when nothing was emitted for it).
pub open spec fn spec_after_update(
    d: DisplayGeometry,
    p: LayoutPadding,
    s: SliverConfig,
    swiping: bool,
    pre: Option<Map<WindowId, IRect>>,
    w: (WindowId, WindowInfo),
) -> (WindowId, WindowInfo) {
    match spec_window_update(d, p, s, swiping, pre, w) {
        Some(u) => (w.0, WindowInfo { old_frame: u.1.frame, ..w.1 }),
        None => w,
    }
}

/// Law: layout is idempotent. Once every emitted frame has been applied
/// (each window's current frame set to what was emitted for it), computing
/// the frames again with the same inputs emits nothing.
pub proof fn lemma_reapply_emits_nothing(
    d: DisplayGeometry,
    p: LayoutPadding,
    s: SliverConfig,
    swiping: bool,
    pre: Option<Map<WindowId, IRect>>,
    ws: Seq<(WindowId, WindowInfo)>,
)
    requires
        all_frames_fit(d, p, s, swiping, ws),
    ensures
        spec_frame_updates(
            d,
            p,
            s,
            swiping,
            pre,
            ws.map_values(|w: (WindowId, WindowInfo)| spec_after_update(d, p, s, swiping, pre, w)),
        ) == Seq::<(WindowId, FrameUpdate)>::empty(),
    decreases ws.len(),
{
    let ws2 = ws.map_values(|w: (WindowId, WindowInfo)| spec_after_update(d, p, s, swiping, pre, w));
    if ws.len() > 0 {
        let init = ws.drop_last();
        assert(all_frames_fit(d, p, s, swiping, init)) by {
            assert forall|i: int| 0 <= i < init.len() implies frame_fits(
                #[trigger] spec_target_frame(d, p, s, swiping, init[i].1),
            ) by {
                assert(init[i] == ws[i]);
            }
        }
        lemma_reapply_emits_nothing(d, p, s, swiping, pre, init);
        assert(ws2.drop_last() =~= init.map_values(
            |w: (WindowId, WindowInfo)| spec_after_update(d, p, s, swiping, pre, w),
        ));
        let w = ws.last();
        assert(frame_fits(spec_target_frame(d, p, s, swiping, ws[ws.len() - 1].1)));
        assert(ws2.last() == spec_after_update(d, p, s, swiping, pre, w));
        assert(spec_window_update(d, p, s, swiping, pre, ws2.last()) is None);
    }
}

/// Law: one window gets an update exactly when its target frame differs
/// from its current frame in origin (x or y) or in size, unless a captured
/// pre-reload position already has the target's origin and size. The update
/// carries the target frame, says "moved" exactly when the origin differs
/// (in x or in y) and "resized" exactly when the size differs.
pub proof fn lemma_update_exactly_when_changed(
    d: DisplayGeometry,
    p: LayoutPadding,
    s: SliverConfig,
    swiping: bool,
    pre: Option<Map<WindowId, IRect>>,
    w: (WindowId, WindowInfo),
)
    requires
        frame_fits(spec_target_frame(d, p, s, swiping, w.1)),
    ensures
        ({
            let f = spec_target_frame(d, p, s, swiping, w.1);
            let old = w.1.old_frame;
            let skipped = match pre {
                Some(m) => m.contains_key(w.0) && m[w.0].min.x == f.0 && m[w.0].min.y == f.1 && m[w.0].max.x
                    - m[w.0].min.x == f.2 - f.0 && m[w.0].max.y - m[w.0].min.y == f.3 - f.1,
                None => false,
            };
            let moved = old.min.x != f.0 || old.min.y != f.1;
            let resized = old.max.x - old.min.x != f.2 - f.0 || old.max.y - old.min.y != f.3 - f.1;
            let ups = spec_frame_updates(d, p, s, swiping, pre, seq![w]);
            &&& ups.len() == (if !skipped && (moved || resized) { 1int } else { 0int })
            &&& ups.len() == 1 ==> {
                &&& ups[0].0 == w.0
                &&& ups[0].1.frame.min.x == f.0 && ups[0].1.frame.min.y == f.1
                &&& ups[0].1.frame.max.x == f.2 && ups[0].1.frame.max.y == f.3
                &&& ups[0].1.moved == moved
                &&& ups[0].1.resized == resized
            }
        }),
{
    let ws = seq![w];
    assert(ws.drop_last() =~= Seq::<(WindowId, WindowInfo)>::empty());
    assert(ws.last() == w);
    let empty = spec_frame_updates(d, p, s, swiping, pre, ws.drop_last());
    assert(empty.len() == 0);
    let ups = spec_frame_updates(d, p, s, swiping, pre, ws);
    match spec_window_update(d, p, s, swiping, pre, w) {
        Some(u) => {
            assert(ups == empty.push(u));
            assert(ups.len() == 1);
            assert(ups[0] == u);
        },
        None => {
            assert(ups == empty);
        },
    }
}

/// Law: the updates for two lists of windows, one after the other, are the
/// updates for the first list followed by those for the second: each window
/// is decided on its own.
pub proof fn lemma_updates_concat(
    d: DisplayGeometry,
    p: LayoutPadding,
    s: SliverConfig,
    swiping: bool,
    pre: Option<Map<WindowId, IRect>>,
    a: Seq<(WindowId, WindowInfo)>,
    b: Seq<(WindowId, WindowInfo)>,
)
    ensures
        spec_frame_updates(d, p, s, swiping, pre, a + b) == spec_frame_updates(d, p, s, swiping, pre, a)
            + spec_frame_updates(d, p, s, swiping, pre, b),
    decreases b.len(),
{
    if b.len() == 0 {
        assert(a + b =~= a);
        assert(spec_frame_updates(d, p, s, swiping, pre, a) + Seq::<(WindowId, FrameUpdate)>::empty()
            =~= spec_frame_updates(d, p, s, swiping, pre, a));
    } else {
        lemma_updates_concat(d, p, s, swiping, pre, a, b.drop_last());
        assert((a + b).drop_last() =~= a + b.drop_last());
        assert((a + b).last() == b.last());
        let x = spec_frame_updates(d, p, s, swiping, pre, a);
        let y = spec_frame_updates(d, p, s, swiping, pre, b.drop_last());
        match spec_window_update(d, p, s, swiping, pre, b.last()) {
            Some(u) => {
                assert((x + y).push(u) =~= x + y.push(u));
            },
            None => {},
        }
    }
}

/// Law: a window that shows more than a sliver (more than `max(width, 20)`
/// pixels inside the padded viewport) is placed at its strip frame moved by
/// the display origin and the left padding horizontally, and by the display
/// origin, the menubar and the top padding vertically. Every window, shown
/// or not, gets that vertical offset (plus the inset when compressed).
pub proof fn lemma_visible_window_translated(
    d: DisplayGeometry,
    p: LayoutPadding,
    s: SliverConfig,
    swiping: bool,
    info: WindowInfo,
)
    ensures
        ({
            let lf = info.layout_frame;
            let x0 = d.origin.x + lf.min.x + p.left;
            let x1 = d.origin.x + lf.max.x + p.left;
            let view_l = d.origin.x + p.left;
            let view_r = d.origin.x + (d.bounds.max.x - d.bounds.min.x) - p.right;
            let lo = if x0 > view_l { x0 } else { view_l };
            let hi = if x1 < view_r { x1 } else { view_r };
            let shown = hi - lo;
            let sliver = if s.width as int > 20 { s.width as int } else { 20 };
            let y0 = d.origin.y + lf.min.y + d.menubar_height + p.top;
            let y1 = d.origin.y + lf.max.y + d.menubar_height + p.top;
            let f = spec_target_frame(d, p, s, swiping, info);
            let compressed = spec_is_off_screen(d, p, s, info) && !swiping && !info.is_stacked;
            &&& shown > sliver ==> f == (x0, y0, x1, y1)
            &&& spec_is_off_screen(d, p, s, info) <==> !(shown > sliver)
            &&& f.1 == y0 + (if compressed { s.height_inset as int } else { 0 })
            &&& f.3 == y1 - (if compressed { s.height_inset as int } else { 0 })
        }),
{
}

} // verus!
