//! In-memory data model and typed-navigation layer for a self-describing,
//! schema-free structured data format: a tree of annotated values (scalars,
//! ordered lists, field-named records), a builder that assembles the tree
//! from a pull-decoder's event stream, and a scoped walker that extracts
//! typed data while accumulating a diagnostic access path for every failure.

pub mod double;
pub mod error;
pub mod events;
pub mod reader;
pub mod traits;
pub mod types;
pub mod walker;

pub use double::FloatBits;
pub use error::{IonError, IonErrorType, IonResult};
pub use events::{DecoderEvent, EventPayload, UnsupportedKind};
pub use reader::IonReader;
pub use traits::IonDeserialize;
pub use types::{Annotations, IonList, IonStruct, IonType, IonValue, Timestamp};
pub use walker::IonWalker;
