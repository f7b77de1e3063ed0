//! Images as text: two rows of pixels to a line, drawn with half blocks.

use vstd::prelude::*;
use crate::config::cache::Image;

pub mod default;

verus! {

/// An image on its way to being drawn.
pub struct ImageBuilder {
    pub image: Image,
}

impl ImageBuilder {
    /// A builder for this image.
    pub fn init(image: Image) -> (b: Self)
        ensures
            b.image == image,
    {
        Self { image }
    }
}

} // verus!
