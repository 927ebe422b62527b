//! Ordered list of render passes of a frame.
use vstd::prelude::*;

verus! {

/// One pass of a frame: clear the target to a colour, or draw the scene.
pub enum Node<C> {
    Clear(C),
    Scene,
}

/// Passes of a frame, in the order they run; `C` is the clear colour type.
pub struct FrameGraph<C> {
    pub nodes: Vec<Node<C>>,
}

impl<C> FrameGraph<C> {
    /// No passes.
    pub fn new() -> (r: Self)
        ensures
            r.nodes@ == Seq::<Node<C>>::empty(),
    {
        FrameGraph { nodes: Vec::new() }
    }

    /// Appends a clear pass with `color`.
    pub fn clear(self, color: C) -> (r: Self)
        ensures
            r.nodes@ == self.nodes@.push(Node::Clear(color)),
    {
        let mut s = self;
        s.nodes.push(Node::Clear(color));
        s
    }

    /// Appends a scene pass.
    pub fn scene(self) -> (r: Self)
        ensures
            r.nodes@ == self.nodes@.push(Node::Scene),
    {
        let mut s = self;
        s.nodes.push(Node::Scene);
        s
    }
}

} // verus!
