use vstd::prelude::*;
use crate::scene::traits::SceneTrait;

verus! {

/// The primitives that rays are tested against, in testing order.
pub struct RayTracingScene<H: ?Sized> {
    pub objects: Vec<Box<H>>,
}

impl<H: ?Sized> SceneTrait for RayTracingScene<H> {
    type ObjectType = Box<H>;

    open spec fn contents(&self) -> Seq<Box<H>> {
        self.objects@
    }

    fn new() -> (scene: Self) {
        Self { objects: Vec::new() }
    }

    fn clear(&mut self) {
        self.objects.clear();
    }

    fn add(&mut self, object: Box<H>) {
        self.objects.push(object);
    }
}

} // verus!
