//! What can stop an extraction as a whole.

use vstd::prelude::*;
use zip::result::ZipError;

verus! {

/// A failure that ends an extraction.
#[derive(Debug)]
pub enum ExtractError {
    /// The archive could not be opened, or one of its entries read.
    Archive(ZipError),
    /// There is no index file at this path.
    MissingIndexFile(String),
    /// No folder of hashed assets was given, or found in the default place.
    MissingHashedAssetsDir,
}

} // verus!
