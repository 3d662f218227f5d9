//! Reading the keyword index of a Monokakido dictionary: header validation,
//! loading of the index arrays, keyword normalization, binary search, and
//! decoding of the content references attached to each keyword.
pub mod dict;
pub mod error;
pub mod header;
pub mod kana;
pub mod key;
pub mod le;
pub mod order;
pub mod page;
pub mod section;
mod text;

pub use dict::{DictLocation, MonokakidoDict, Paths};
pub use error::Error;
pub use header::{FileHeader, IndexHeader};
pub use kana::to_katakana;
pub use key::{KeyIndex, Keys};
pub use page::{PageItemId, PageIter};
