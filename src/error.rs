use vstd::prelude::*;

verus! {

/// The ways in which reading a dictionary can fail.
#[derive(Debug, Clone, Copy, PartialEq, Eq, Structural)]
pub enum Error {
    /// A read went past the end of the available bytes, or a file could not be read.
    IOError,
    /// Bytes that should hold text are not valid UTF-8.
    Utf8Error,
    /// The key file header matches neither supported revision.
    KeyFileHeaderValidate,
    /// The key index header is malformed.
    KeyIndexHeaderValidate,
    /// An index array, a word entry or a reference run is out of bounds or malformed.
    InvalidIndex,
    /// The queried index is absent from the key file.
    IndexDoesntExist,
    /// No entry matches.
    NotFound,
    /// The dictionary path has no usable file name.
    FopenError,
    /// The dictionary's description file could not be read.
    NoDictJsonFound,
    /// The dictionary's description file names no content directory.
    InvalidDictJson,
    /// The dictionary has no audio store.
    MissingAudio,
}

} // verus!
