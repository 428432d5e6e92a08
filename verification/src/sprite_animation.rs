use vstd::prelude::*;

verus! {

/// The hooks at which an animation per direction of movement can be
/// started. They hold no state and do nothing yet.
#[derive(Debug, Clone, Copy, PartialEq, Eq, Structural)]
pub struct SpriteAnimation {}

impl SpriteAnimation {
    pub fn new() -> (animation: SpriteAnimation)
        ensures
            animation == (SpriteAnimation {  }),
    {
        SpriteAnimation {  }
    }

    pub fn animation_move_up(&mut self)
        ensures
            *final(self) == *old(self),
    {
    }

    pub fn animation_move_right(&mut self)
        ensures
            *final(self) == *old(self),
    {
    }

    pub fn animation_move_down(&mut self)
        ensures
            *final(self) == *old(self),
    {
    }

    pub fn animation_move_left(&mut self)
        ensures
            *final(self) == *old(self),
    {
    }
}

} // verus!
