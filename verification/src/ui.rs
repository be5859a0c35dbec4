//! Application state: command-line options, menu tabs, the star display toggle,
//! engine sound categories and what a frame of flying asks the application to do.

use vstd::prelude::*;
use vstd::string::*;
use crate::text::str_eq;

verus! {

/// Command-line options.
#[derive(Debug)]
pub struct Args {
    /// Instant action mode — skip menu, launch directly into flight
    pub instant: bool,
    /// Aircraft to load in instant mode (profile directory name)
    pub aircraft: String,
    /// Start in windowed mode (default is borderless fullscreen)
    pub windowed: bool,
    /// Disable TTS audio for ATC radio
    pub no_tts: bool,
}

/// 3D model of an aircraft profile: the OBJ file, relative to the profile's directory.
#[derive(Debug)]
pub struct ModelSpec {
    pub obj: String,
}

/// Tabs of the main menu.
#[derive(Clone, Copy, Debug, PartialEq, Eq, Structural)]
pub enum MenuTab {
    PlaneSelect,
    AirportSelect,
    WeatherSelect,
    Settings,
}

/// What the application shown on the telemetry dashboard is doing.
#[derive(Clone, Copy, Debug, PartialEq, Eq, Structural)]
pub enum AppStateLabel {
    Menu,
    Flying,
}

/// What handling a window event while flying asks of the application.
#[derive(Clone, Copy, Debug, PartialEq, Eq, Structural)]
pub enum FlyingAction {
    /// Nothing to do.
    Nothing,
    ReturnToMenu,
    ReconfigureSurface,
    UpdateTelemetry,
}

/// Which stars are drawn.
#[derive(Debug, Clone, Copy, PartialEq, Eq, Structural)]
pub enum StarToggleState {
    ProminentOnly,
    AllStars,
    Off,
}

impl StarToggleState {
    pub open spec fn next(self) -> StarToggleState {
        match self {
            StarToggleState::ProminentOnly => StarToggleState::AllStars,
            StarToggleState::AllStars => StarToggleState::Off,
            StarToggleState::Off => StarToggleState::ProminentOnly,
        }
    }

    /// The next state of the toggle: prominent stars, all stars, off, and around again.
    pub fn cycle(self) -> (r: Self)
        ensures
            r == self.next(),
    {
        match self {
            Self::ProminentOnly => Self::AllStars,
            Self::AllStars => Self::Off,
            Self::Off => Self::ProminentOnly,
        }
    }
}

impl StarToggleState {
    /// Which star groups are drawn when stars are `visible` at all (by the sun's
    /// altitude and the observer's): the prominent stars unless the toggle is off, the
    /// others only with all stars on. Returns (prominent, others).
    pub fn star_groups_drawn(self, visible: bool) -> (r: (bool, bool))
        ensures
            r.0 == (visible && self != StarToggleState::Off),
            r.1 == (visible && self == StarToggleState::AllStars),
    {
        match self {
            Self::Off => (false, false),
            Self::ProminentOnly => (visible, false),
            Self::AllStars => (visible, visible),
        }
    }
}

/// Pressing the toggle three times brings back the state it started in, and every
/// state is reached on the way.
pub proof fn star_toggle_cycles(s: StarToggleState)
    ensures
        s.next().next().next() == s,
        s.next() != s,
        s.next().next() != s,
{
}

/// Engine sound played for an aircraft category.
#[derive(Debug, Clone, Copy, PartialEq, Eq, Structural)]
pub enum EngineSoundCategory {
    JetLarge,
    JetSmall,
    PropellerLarge,
    PropellerSmall,
    Space,
}

impl EngineSoundCategory {
    pub open spec fn sound_name(self) -> Seq<char> {
        match self {
            EngineSoundCategory::JetLarge => "default-jet-large"@,
            EngineSoundCategory::JetSmall => "default-jet-small"@,
            EngineSoundCategory::PropellerLarge => "default-propeller-large"@,
            EngineSoundCategory::PropellerSmall => "default-propeller-small"@,
            EngineSoundCategory::Space => "default-space"@,
        }
    }

    /// Path of the default sound file for this category:
    /// "assets/engine_noise/<name>.wav".
    pub fn default_wav_path(&self) -> (r: String)
        ensures
            r@ == "assets/engine_noise/"@ + self.sound_name() + ".wav"@,
    {
        let name = match self {
            Self::JetLarge => "default-jet-large",
            Self::JetSmall => "default-jet-small",
            Self::PropellerLarge => "default-propeller-large",
            Self::PropellerSmall => "default-propeller-small",
            Self::Space => "default-space",
        };
        let mut p = String::from_str("assets/engine_noise/");
        p.append(name);
        p.append(".wav");
        p
    }
}

/// What the menu does for the selected aircraft's 3D preview.
#[derive(Clone, Copy, Debug, PartialEq, Eq, Structural)]
pub enum PreviewStep {
    /// It is already shown, or already loading.
    Keep,
    /// It has no model: show none.
    NoModel,
    /// Start loading its model in the background.
    Load,
}

/// Which aircraft's preview model is shown and which is loading.
pub struct PreviewLoad {
    /// slug of the aircraft whose preview is shown (or that has no model)
    pub loaded_slug: String,
    /// slug of the aircraft whose model is loading; empty when none is
    pub pending_slug: String,
}

impl PreviewLoad {
    /// Nothing shown, nothing loading.
    pub fn new() -> (r: Self)
        ensures
            r.loaded_slug@ == Seq::<char>::empty(),
            r.pending_slug@ == Seq::<char>::empty(),
    {
        PreviewLoad { loaded_slug: String::new(), pending_slug: String::new() }
    }

    /// The aircraft `slug` is selected (`has_model`: its model file exists). Skipped
    /// when it is already shown or loading; an aircraft without a model counts as
    /// shown at once; otherwise its model starts loading.
    pub fn request(&mut self, slug: &str, has_model: bool) -> (r: PreviewStep)
        ensures
            (slug@ == old(self).loaded_slug@ || slug@ == old(self).pending_slug@) ==> {
                &&& r == PreviewStep::Keep
                &&& final(self).loaded_slug@ == old(self).loaded_slug@
                &&& final(self).pending_slug@ == old(self).pending_slug@
            },
            !(slug@ == old(self).loaded_slug@ || slug@ == old(self).pending_slug@) && !has_model ==> {
                &&& r == PreviewStep::NoModel
                &&& final(self).loaded_slug@ == slug@
                &&& final(self).pending_slug@ == Seq::<char>::empty()
            },
            !(slug@ == old(self).loaded_slug@ || slug@ == old(self).pending_slug@) && has_model ==> {
                &&& r == PreviewStep::Load
                &&& final(self).loaded_slug@ == old(self).loaded_slug@
                &&& final(self).pending_slug@ == slug@
            },
    {
        if str_eq(slug, self.loaded_slug.as_str()) || str_eq(slug, self.pending_slug.as_str()) {
            return PreviewStep::Keep;
        }
        if !has_model {
            self.loaded_slug = String::from_str(slug);
            self.pending_slug = String::new();
            return PreviewStep::NoModel;
        }
        self.pending_slug = String::from_str(slug);
        PreviewStep::Load
    }

    /// The model that was loading has arrived and is shown.
    pub fn finished(&mut self)
        ensures
            final(self).loaded_slug@ == old(self).pending_slug@,
            final(self).pending_slug@ == Seq::<char>::empty(),
    {
        self.loaded_slug = self.pending_slug.clone();
        self.pending_slug = String::new();
    }

    /// Loading the model failed: nothing is loading any more.
    pub fn failed(&mut self)
        ensures
            final(self).loaded_slug@ == old(self).loaded_slug@,
            final(self).pending_slug@ == Seq::<char>::empty(),
    {
        self.pending_slug = String::new();
    }
}

} // verus!
