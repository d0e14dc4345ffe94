//! Reading and editing ssh_config files without losing their formatting.
//!
//! [`SSHConfig::parse`] then [`SSHConfig::to_string`] gives back the same
//! bytes, and editing a key only changes the bytes of that key's line.
//!
//! The semantic layer is [`SSHConfig`], [`HostSettings`], [`Field`] and
//! [`FieldKey`]; the document layer is [`SSHConfig`], [`Section`] and
//! [`Line`].

pub mod chars;
pub mod decor;
pub mod error;
pub mod field;
pub mod field_keys;
pub mod keyword_table;
pub mod lexer;
pub mod line;
pub mod readback;
pub mod reconcile;
pub mod section;
pub mod settings;
pub mod ssh_config;
pub mod stable;
pub mod tokenizer;

pub use decor::{Indent, LineEnding};
pub use error::{Error, ParseErrorKind, Result};
pub use field_keys::{FieldKey, SelectorKind};
pub use line::{Directive, Line, LineKind, Selector};
pub use section::Section;
pub use settings::{Field, HostSettings};
pub use ssh_config::SSHConfig;
