//! A chorded-keyboard layout compiler.
//!
//! The library reads a plain-text description of which finger chords
//! produce which key, validates it, and renders firmware source
//! fragments for several targets.  The pipeline is pure: the same
//! layout text and target always yield the same output or the same
//! error, and no function here performs any I/O.

pub mod check;
pub mod finger;
pub mod keychordz;
pub mod keymap;
pub mod keys;
pub mod lookup;
pub mod model;
pub mod parse;
pub mod qmk;
pub mod resolve;
pub mod roundtrip;
pub mod text;

pub use check::ValidationError;
pub use finger::FINGER_COUNT;
pub use finger::Finger;
pub use keys::Key;
pub use lookup::LookupError;
pub use model::Combo;
pub use model::ComboView;
pub use model::Config;
pub use parse::ParseError;
