use vstd::prelude::*;
use crate::scene::traits::SceneTrait;

verus! {

/// The meshes that the rasterizer draws, in drawing order.
pub struct RasterizableScene<M> {
    pub objects: Vec<Box<M>>,
}

impl<M> SceneTrait for RasterizableScene<M> {
    type ObjectType = Box<M>;

    open spec fn contents(&self) -> Seq<Box<M>> {
        self.objects@
    }

    fn new() -> (scene: Self) {
        Self { objects: Vec::new() }
    }

    fn clear(&mut self) {
        self.objects.clear();
    }

    fn add(&mut self, object: Box<M>) {
        self.objects.push(object);
    }
}

} // verus!
