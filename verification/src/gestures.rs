//! Suppressing trackpad gestures through the system preferences.
//!
//! An event tap cannot swallow the system's four- and five-finger gestures,
//! since the window server acts on them first; the relevant `defaults`
//! domains are rewritten instead.
use vstd::prelude::*;
use crate::config::{bluetooth_trackpad_domain, dock_domain, trackpad_domain, GestureSuppress};
use crate::defaults::texts;

verus! {

/// The arguments of `defaults` writing an integer preference.
pub open spec fn int_write(domain: Seq<char>, key: Seq<char>, value: Seq<char>) -> Seq<Seq<char>> {
    seq!["write"@, domain, key, "-int"@, value]
}

/// The arguments of `defaults` writing a boolean preference.
pub open spec fn bool_write(domain: Seq<char>, key: Seq<char>, value: Seq<char>) -> Seq<Seq<char>> {
    seq!["write"@, domain, key, "-bool"@, value]
}

/// One gesture key written for the built-in and the Bluetooth trackpad.
pub open spec fn both_trackpads(key: Seq<char>, value: Seq<char>) -> Seq<Seq<Seq<char>>> {
    seq![int_write(trackpad_domain(), key, value), int_write(bluetooth_trackpad_domain(), key, value)]
}

/// The `defaults` invocations that apply the gesture settings, in order:
/// the four-finger swipes and pinch on both trackpads (0 = off, 2 = on),
/// then the Dock's Launchpad and Show Desktop gestures.
pub open spec fn spec_gesture_writes(g: GestureSuppress) -> Seq<Seq<Seq<char>>> {
    let four = match g.four_finger {
        Some(s) => {
            let v = if s { "0"@ } else { "2"@ };
            both_trackpads("TrackpadFourFingerHorizSwipeGesture"@, v) + both_trackpads(
                "TrackpadFourFingerVertSwipeGesture"@,
                v,
            ) + both_trackpads("TrackpadFourFingerPinchGesture"@, v)
        },
        None => seq![],
    };
    let pinch = match g.five_finger_pinch {
        Some(s) => seq![
            bool_write(dock_domain(), "showLaunchpadGestureEnabled"@, if s { "false"@ } else { "true"@ }),
        ],
        None => seq![],
    };
    let spread = match g.five_finger_spread {
        Some(s) => seq![
            bool_write(dock_domain(), "showDesktopGestureEnabled"@, if s { "false"@ } else { "true"@ }),
        ],
        None => seq![],
    };
    four + pinch + spread
}

/// The argument lists of a list of invocations.
pub open spec fn commands_view(v: Seq<Vec<String>>) -> Seq<Seq<Seq<char>>> {
    v.map_values(|c: Vec<String>| texts(c@))
}

fn write_args(domain: &str, key: &str, flag: &str, value: &str) -> (r: Vec<String>)
    ensures
        texts(r@) == seq!["write"@, domain@, key@, flag@, value@],
{
    let mut r: Vec<String> = Vec::new();
    r.push(String::from_str("write"));
    r.push(String::from_str(domain));
    r.push(String::from_str(key));
    r.push(String::from_str(flag));
    r.push(String::from_str(value));
    assert(texts(r@) =~= seq!["write"@, domain@, key@, flag@, value@]);
    r
}

fn push_both_trackpads(out: &mut Vec<Vec<String>>, key: &str, value: &str)
    ensures
        commands_view(final(out)@) == commands_view(old(out)@) + both_trackpads(key@, value@),
{
    out.push(write_args("com.apple.AppleMultitouchTrackpad", key, "-int", value));
    out.push(write_args("com.apple.driver.AppleBluetoothMultitouch.trackpad", key, "-int", value));
    assert(commands_view(out@) =~= commands_view(old(out)@) + both_trackpads(key@, value@));
}

/// The `defaults write` invocations, as argument lists, that suppress or
/// restore the trackpad gestures; a gesture left unset is not touched.
pub fn apply_gesture_preferences(gestures: &GestureSuppress) -> (r: Vec<Vec<String>>)
    ensures
        commands_view(r@) == spec_gesture_writes(*gestures),
{
    let mut out: Vec<Vec<String>> = Vec::new();
    assert(commands_view(out@) =~= Seq::<Seq<Seq<char>>>::empty());
    if let Some(s) = gestures.four_finger {
        let v = if s { "0" } else { "2" };
        push_both_trackpads(&mut out, "TrackpadFourFingerHorizSwipeGesture", v);
        push_both_trackpads(&mut out, "TrackpadFourFingerVertSwipeGesture", v);
        push_both_trackpads(&mut out, "TrackpadFourFingerPinchGesture", v);
    }
    let ghost after_four = commands_view(out@);
    if let Some(s) = gestures.five_finger_pinch {
        let v = if s { "false" } else { "true" };
        out.push(write_args("com.apple.dock", "showLaunchpadGestureEnabled", "-bool", v));
    }
    let ghost after_pinch = commands_view(out@);
    if let Some(s) = gestures.five_finger_spread {
        let v = if s { "false" } else { "true" };
        out.push(write_args("com.apple.dock", "showDesktopGestureEnabled", "-bool", v));
    }
    proof {
        let g = *gestures;
        let four = match g.four_finger {
            Some(s) => {
                let v = if s { "0"@ } else { "2"@ };
                both_trackpads("TrackpadFourFingerHorizSwipeGesture"@, v) + both_trackpads(
                    "TrackpadFourFingerVertSwipeGesture"@,
                    v,
                ) + both_trackpads("TrackpadFourFingerPinchGesture"@, v)
            },
            None => Seq::<Seq<Seq<char>>>::empty(),
        };
        assert(after_four =~= four);
        let pinch = match g.five_finger_pinch {
            Some(s) => seq![
                bool_write(dock_domain(), "showLaunchpadGestureEnabled"@, if s { "false"@ } else { "true"@ }),
            ],
            None => Seq::<Seq<Seq<char>>>::empty(),
        };
        assert(after_pinch =~= four + pinch);
    }
    assert(commands_view(out@) =~= spec_gesture_writes(*gestures));
    out
}

} // verus!
