//! Marker components and phases of the splash-screen animation.

use vstd::prelude::*;

verus! {

/// Root node of the splash screen.
pub struct SplashScreen;

/// One frame of the frame-by-frame intro animation.
pub struct SplashFrame {
    pub(crate) index: usize,
}

/// Tag for the informational text shown after the animation.
pub struct InfoText;

/// Root node of the informational screen.
pub struct InfoScreen;

/// The phases of the splash animation, in playback order.
#[derive(Debug, PartialEq, Eq)]
pub enum SplashPhase {
    Glitch,
    Hold,
    FadeOut,
    InfoScreen,
}

} // verus!
