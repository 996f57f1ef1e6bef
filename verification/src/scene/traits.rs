use vstd::prelude::*;

verus! {

/// A scene owns its objects and keeps them in the order in which they were
/// added.
pub trait SceneTrait: Sized {
    type ObjectType;

    /// The objects of the scene, oldest first.
    spec fn contents(&self) -> Seq<Self::ObjectType>;

    /// An empty scene.
    fn new() -> (scene: Self)
        ensures
            scene.contents() == Seq::<Self::ObjectType>::empty(),
    ;

    /// Removes every object.
    fn clear(&mut self)
        ensures
            final(self).contents() == Seq::<Self::ObjectType>::empty(),
    ;

    /// Adds `object` behind the objects already there.
    fn add(&mut self, object: Self::ObjectType)
        ensures
            final(self).contents() == old(self).contents().push(object),
    ;
}

} // verus!
