use vstd::prelude::*;

use crate::utils::ImgCoords;

verus! {

/// A detector of points of interest in an image.
pub trait KeypointDetector: Sized {
    type Params;
    type ImageView;
    type Error;

    /// A detector with its default configuration.
    fn new() -> Self;

    /// The detector's configuration.
    fn get_params(&self) -> &Self::Params;

    /// Appends the features found in `img` to `features`.
    fn detect(&self, img: &Self::ImageView, features: &mut Vec<ImgCoords>) -> Result<(), Self::Error>;
}

} // verus!
