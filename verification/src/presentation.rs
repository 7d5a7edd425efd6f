//! Presentation profiles: the one-time window attributes applied when a
//! window is realized, before it is first shown — never again after.
//!
//! The UI layer reads a profile and makes the toolkit calls; the profile
//! itself fixes what those calls must set.
use vstd::prelude::*;

verus! {

/// The attributes one window is realized with.
#[derive(Clone, Copy, PartialEq, Eq, Structural, Debug)]
pub struct PresentationProfile {
    /// Fixed pixel width.
    pub width: i32,
    /// Fixed pixel height.
    pub height: i32,
    /// Anchored to the screen's right edge.
    pub anchor_right: bool,
    /// Anchored to the screen's bottom edge.
    pub anchor_bottom: bool,
    /// Laid above normal windows.
    pub top_layer: bool,
    /// Lets every pointer event pass through.
    pub click_through: bool,
    /// Centered on the screen instead of anchored.
    pub centered: bool,
    /// Drawn with window decorations.
    pub decorations: bool,
    /// Shown as soon as it is realized.
    pub start_visible: bool,
}

/// The primary overlay's profile: a fixed 300 by 650 surface in the screen's
/// bottom-right corner, always on top, fully click-through, shown at once.
pub fn primary_profile() -> (p: PresentationProfile)
    ensures
        p == (PresentationProfile {
            width: 300,
            height: 650,
            anchor_right: true,
            anchor_bottom: true,
            top_layer: true,
            click_through: true,
            centered: false,
            decorations: false,
            start_visible: true,
        }),
{
    PresentationProfile {
        width: 300,
        height: 650,
        anchor_right: true,
        anchor_bottom: true,
        top_layer: true,
        click_through: true,
        centered: false,
        decorations: false,
        start_visible: true,
    }
}

/// The secondary (modal) window's profile: a fixed 600 by 600 surface,
/// centered, undecorated, left hidden until the UI layer reveals it.
pub fn secondary_profile() -> (p: PresentationProfile)
    ensures
        p == (PresentationProfile {
            width: 600,
            height: 600,
            anchor_right: false,
            anchor_bottom: false,
            top_layer: false,
            click_through: false,
            centered: true,
            decorations: false,
            start_visible: false,
        }),
{
    PresentationProfile {
        width: 600,
        height: 600,
        anchor_right: false,
        anchor_bottom: false,
        top_layer: false,
        click_through: false,
        centered: true,
        decorations: false,
        start_visible: false,
    }
}

} // verus!
