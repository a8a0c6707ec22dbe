use vstd::prelude::*;

pub mod ingress;
pub mod workers;

pub use ingress::{Ingress, IngressError, IngressManifest, IngressTarget, IngressUrl};
pub use workers::{Worker, WorkerManifest, WorkersSource, WorkersTarget};

verus! {

/// What a build produces. What `check` looks at is the implementation's
/// own.
pub trait Target {
    type Error;

    fn check(&self) -> Result<(), Self::Error>;
}

/// What a target is built from. What `verify` and `build` do is the
/// implementation's own.
pub trait Source<T: Target> {
    type Error;

    fn verify(&self) -> Result<(), Self::Error>;

    fn build(&mut self) -> Result<T, Self::Error>;
}

/// Why a resource could not be built.
#[derive(Clone, Copy, Debug, PartialEq, Eq, Structural)]
pub enum ResourceError {
    Ingress(IngressError),
}

/// A resource of a build.
#[derive(Clone, Debug)]
pub enum Resource {
    Ingress(Ingress),
    Workers(WorkersSource),
}

impl Resource {
    /// The ingress resource over one manifest and the given addresses.
    pub fn ingress(manifest: &IngressManifest, urls: &[String]) -> (r: Self)
        ensures
            r matches Resource::Ingress(ingress) && ingress.is_over(*manifest, urls@),
    {
        Resource::Ingress(Ingress::new(manifest, urls))
    }
}

} // verus!
