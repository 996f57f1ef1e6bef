use vstd::prelude::*;
use crate::image::Image;

verus! {

/// A model that carries its own surface images.
pub trait ModelTrait {
    /// The diffuse texture.
    fn texture(&self) -> Image;

    /// The tangent-space normal map.
    fn normal_map(&self) -> Image;
}

} // verus!
