//! Marker and data components for the menu, loading and seed-input screens.
//!
//! These are plain tags attached to interface entities by the surrounding
//! application; they carry no behaviour of their own.

use vstd::prelude::*;

verus! {

/// Root node of the main menu.
pub struct MenuRoot;

/// Text shown while the world is generated.
pub struct LoadingText;

/// Background bar of the loading indicator.
pub struct LoadingBar;

/// Filled part of the loading indicator.
pub struct LoadingProgress;

/// A clickable main-menu button and the action it triggers.
pub struct MenuButton {
    pub(crate) action: ButtonAction,
}

/// What a main-menu button does when clicked.
#[derive(Debug, Clone, Copy)]
pub enum ButtonAction {
    GenerateWorld,
    LoadSeed,
    Credits,
    Settings,
    Quit,
}

/// Generic menu widget tag.
pub struct MenuComponent;

/// Generic menu button tag.
pub struct MenuButtonComponent;

/// Tag for one-shot interface sounds.
pub struct UiSound;

/// Root node of the seed-input screen.
pub struct SeedInputScreen;

/// The seed value being edited.
pub struct SeedInputValue {
    pub value: String,
}

/// Text node displaying the seed value.
pub struct SeedInputValueText;

/// Button that increments the seed.
pub struct SeedIncrementButton;

/// Button that decrements the seed.
pub struct SeedDecrementButton;

/// Button that randomizes the seed.
pub struct SeedRandomizeButton;

/// Button that submits the seed.
pub struct SeedSubmitButton;

/// Button that cancels seed input.
pub struct SeedCancelButton;

/// Progress of asset preloading: how many assets were requested, how many
/// have arrived, and whether any failed.
pub struct LoadingState {
    pub total: usize,
    pub loaded: usize,
    pub error: bool,
}

impl Default for LoadingState {
    /// Nothing requested, nothing loaded, no error.
    fn default() -> (r: LoadingState)
        ensures
            r.total == 0 && r.loaded == 0 && !r.error,
    {
        LoadingState { total: 0, loaded: 0, error: false }
    }
}

} // verus!
