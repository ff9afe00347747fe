//! Verified core of an O2Jam-style rhythm game: chart and sample-container
//! parsers, lane modifiers, scoring and life rules.
pub mod bytes;
pub mod numbers;
pub mod text;
pub mod judgment;
pub mod game_state;
pub mod stats;
pub mod ojn;
pub mod modifiers;
pub mod ojm;
pub mod input;
pub mod key_bind;
pub mod skin;
pub mod prefab;
pub mod xml;
pub mod models;
pub mod audio;
pub mod trigger;
pub mod atlas;
pub mod strict_skin;
