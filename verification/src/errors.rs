//! The error taxonomy of the loader.
//!
//! Every variant is terminal for the load in progress: nothing is retried,
//! and a caller that observes an error must not trust any destination
//! tensor's bytes, including ones written earlier in the same call.

use vstd::prelude::*;

verus! {

/// A fatal condition met while reading or loading a model file.
#[derive(Debug)]
pub enum LoadError {
    /// The stream ended before the requested number of bytes could be read.
    ReadExactFailed { bytes: usize },
    /// A tensor name was not valid UTF-8.
    InvalidUtf8,
    /// The first four bytes of the file match no known container format;
    /// carries the raw value for diagnostics.
    InvalidMagic { magic: u32 },
    /// A record names a tensor that the registry does not know.
    UnknownTensor { tensor_name: String, path: String },
    /// A record's element count, extents or byte size disagree with the
    /// destination tensor the registry holds under its name.
    TensorWrongSize { tensor_name: String, path: String },
    /// A record declares an on-disk element encoding outside the known range.
    InvalidFtype { tensor_name: String, ftype: u32, path: String },
    /// A length or count read from the file does not fit its target range.
    InvalidIntegerConversion,
}

/// The shape of a [`LoadError`] with its text fields abstracted to
/// character sequences, so that specifications can speak of errors without
/// constructing `String` values.
pub enum LoadErrorView {
    ReadExactFailed { bytes: int },
    InvalidUtf8,
    InvalidMagic { magic: u32 },
    UnknownTensor { tensor_name: Seq<char>, path: Seq<char> },
    TensorWrongSize { tensor_name: Seq<char>, path: Seq<char> },
    InvalidFtype { tensor_name: Seq<char>, ftype: u32, path: Seq<char> },
    InvalidIntegerConversion,
}

impl View for LoadError {
    type V = LoadErrorView;

    open spec fn view(&self) -> LoadErrorView {
        match self {
            LoadError::ReadExactFailed { bytes } => (LoadErrorView::ReadExactFailed {
                bytes: *bytes as int,
            }),
            LoadError::InvalidUtf8 => LoadErrorView::InvalidUtf8,
            LoadError::InvalidMagic { magic } => (LoadErrorView::InvalidMagic { magic: *magic }),
            LoadError::UnknownTensor { tensor_name, path } => (LoadErrorView::UnknownTensor {
                tensor_name: tensor_name@,
                path: path@,
            }),
            LoadError::TensorWrongSize { tensor_name, path } => (LoadErrorView::TensorWrongSize {
                tensor_name: tensor_name@,
                path: path@,
            }),
            LoadError::InvalidFtype { tensor_name, ftype, path } => (LoadErrorView::InvalidFtype {
                tensor_name: tensor_name@,
                ftype: *ftype,
                path: path@,
            }),
            LoadError::InvalidIntegerConversion => LoadErrorView::InvalidIntegerConversion,
        }
    }
}

} // verus!
