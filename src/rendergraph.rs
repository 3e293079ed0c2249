use vstd::prelude::*;

verus! {

/// A resource that a render graph can hold (a buffer, a texture).
pub trait GraphResource: Clone {
}

/// How a node looks at a resource.
pub trait GraphResourceView: Copy {
}

/// Read through a shader resource view.
#[derive(Clone, Copy, Debug)]
pub struct Srv;

/// Read and written through an unordered access view.
#[derive(Clone, Copy, Debug)]
pub struct Uav;

/// Written as a render target.
#[derive(Clone, Copy, Debug)]
pub struct Rt;

impl GraphResourceView for Srv {
}

impl GraphResourceView for Uav {
}

impl GraphResourceView for Rt {
}

/// A resource shared with a render graph from outside it.
#[derive(Clone, Debug)]
pub struct RenderResource<T: GraphResource>(pub T);

impl<T: GraphResource> RenderResource<T> {
    pub fn new(resource: T) -> (r: Self)
        ensures
            r.0 == resource,
    {
        RenderResource(resource)
    }
}

/// Description of a compute pipeline; compute nodes are not supported yet,
/// so no description is valid.
#[derive(Default, Debug)]
pub struct ComputePipelineDescriptor {
}

impl ComputePipelineDescriptor {
    /// The name shown for the pipeline.
    pub fn name(&self) -> (r: &str)
        ensures
            r@ == seq!['U', 'n', 'k', 'n', 'o', 'w', 'n'],
    {
        proof {
            reveal_strlit("Unknown");
        }
        let r = "Unknown";
        assert(r@ =~= seq!['U', 'n', 'k', 'n', 'o', 'w', 'n']);
        r
    }

    /// Whether the description can be built into a pipeline.
    pub fn valid(&self) -> (r: bool)
        ensures
            !r,
    {
        false
    }
}

} // verus!
