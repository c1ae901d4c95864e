use vstd::prelude::*;

verus! {

/// Why an IDX file failed structural validation.
#[derive(Clone, Copy, Debug, PartialEq, Eq, Structural)]
pub enum FormatError {
    /// The leading 4-byte magic number is absent or not the expected constant.
    WrongMagic,
    /// The declared item/dimension counts do not match the bytes present.
    WrongItemCount,
}

/// Errors surfaced by the dataset pipeline.
#[derive(Clone, Copy, Debug, PartialEq, Eq, Structural)]
pub enum LoadError {
    /// An IDX file violated a structural invariant.
    Format(FormatError),
    /// Every configured mirror failed for one archive file.
    DownloadExhausted,
    /// A local read/write/decompression failure.
    Io,
    /// Raw dataset files are absent and downloading did not populate them.
    DatasetNotFound,
}

} // verus!
