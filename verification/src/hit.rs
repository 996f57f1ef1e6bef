use vstd::prelude::*;

verus! {

/// A list of the objects that a ray is tested against, in testing order.
pub struct HittableList<H: ?Sized> {
    pub objects: Vec<Box<H>>,
}

impl<H: ?Sized> HittableList<H> {
    /// An empty list.
    pub fn new() -> (list: HittableList<H>)
        ensures
            list.objects@ == Seq::<Box<H>>::empty(),
    {
        HittableList { objects: Vec::new() }
    }

    /// Removes every object.
    pub fn clear(&mut self)
        ensures
            final(self).objects@ == Seq::<Box<H>>::empty(),
    {
        self.objects.clear();
    }

    /// Adds `object` behind the objects already there.
    pub fn add(&mut self, object: Box<H>)
        ensures
            final(self).objects@ == old(self).objects@.push(object),
    {
        self.objects.push(object);
    }
}

} // verus!
