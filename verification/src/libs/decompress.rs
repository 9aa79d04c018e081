//! The contract between the archive reader and a decompressor.

use crate::drivers::fs::vfs::VfsError;
use vstd::prelude::*;

verus! {

/// A decompressor: a pure transform from compressed bytes to the bytes they
/// stand for.
pub trait Decompressor {
    /// What the transform makes of `input`: the decompressed bytes, or `None`
    /// where `input` is not a well-formed stream.
    spec fn output(&self, input: Seq<u8>) -> Option<Seq<u8>>;

    /// Decompresses `input`, failing with `DecompressFailure` exactly where
    /// [`Self::output`] has no answer.
    fn decompress(&self, input: &[u8]) -> (r: Result<Vec<u8>, VfsError>)
        ensures
            match r {
                Ok(bytes) => self.output(input@) == Some(bytes@),
                Err(e) => e == VfsError::DecompressFailure && self.output(input@) is None,
            },
    ;
}

} // verus!
