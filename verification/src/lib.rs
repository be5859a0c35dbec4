//! Verified core of a wireframe flight simulator: FAA radio phraseology,
//! ATC message templates, orbital element extraction, date parsing,
//! mesh topology and the small state machines that drive the simulator.

pub mod airport;
pub mod ambient;
pub mod atc;
pub mod controls;
pub mod epoch;
pub mod facilities;
pub mod mesh;
pub mod playground;
pub mod playlist;
pub mod profiles;
pub mod radio;
pub mod random;
pub mod speech;
pub mod text;
pub mod tle;
pub mod traffic;
pub mod tts;
pub mod ui;
