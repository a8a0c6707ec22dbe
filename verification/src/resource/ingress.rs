use vstd::prelude::*;

use crate::resource::Source;
use crate::resource::Target;

verus! {

/// Why an ingress could not be built.
#[derive(Clone, Copy, Debug, PartialEq, Eq, Structural)]
pub enum IngressError {
    ParseError,
}

impl IngressError {
    /// The text of the error.
    pub open spec fn message(&self) -> Seq<char> {
        "Ingress Parse Error"@
    }

    pub fn to_string(&self) -> (s: String)
        ensures
            s@ == self.message(),
    {
        "Ingress Parse Error".to_string()
    }
}

/// One address that an ingress serves.
#[derive(Debug)]
pub struct IngressUrl {
    pub url: String,
}

impl Default for IngressUrl {
    fn default() -> (r: Self)
        ensures
            r.url@ == Seq::<char>::empty(),
    {
        IngressUrl { url: String::new() }
    }
}

impl Clone for IngressUrl {
    fn clone(&self) -> (r: Self)
        ensures
            r == *self,
    {
        IngressUrl { url: self.url.clone() }
    }
}

/// The manifest that an ingress starts from. It holds nothing yet.
#[derive(Clone, Copy, Debug, PartialEq, Eq, Structural)]
pub struct IngressManifest {}

impl Default for IngressManifest {
    fn default() -> (r: Self)
        ensures
            r == (IngressManifest {  }),
    {
        IngressManifest {  }
    }
}

/// The source of an ingress: its manifests and the addresses it serves.
#[derive(Clone, Debug)]
pub struct Ingress {
    pub base: Vec<IngressManifest>,
    pub urls: Vec<IngressUrl>,
}

impl Default for Ingress {
    fn default() -> (r: Self)
        ensures
            r.base@ == Seq::<IngressManifest>::empty(),
            r.urls@ == Seq::<IngressUrl>::empty(),
    {
        Ingress { base: Vec::new(), urls: Vec::new() }
    }
}

impl Ingress {
    /// Whether this is the ingress over the one manifest `manifest` and the
    /// addresses `urls`, in their order.
    pub open spec fn is_over(&self, manifest: IngressManifest, urls: Seq<String>) -> bool {
        &&& self.base@ == seq![manifest]
        &&& self.urls@.len() == urls.len()
        &&& forall|i: int| 0 <= i < urls.len() ==> (#[trigger] self.urls@[i]).url@ == urls[i]@
    }

    /// The ingress over one manifest and the given addresses.
    pub fn new(manifest: &IngressManifest, urls: &[String]) -> (r: Self)
        ensures
            r.is_over(*manifest, urls@),
    {
        let mut base: Vec<IngressManifest> = Vec::new();
        base.push(*manifest);
        let mut served: Vec<IngressUrl> = Vec::new();
        let mut i: usize = 0;
        while i < urls.len()
            invariant
                i <= urls@.len(),
                served@.len() == i,
                forall|j: int| 0 <= j < i ==> (#[trigger] served@[j]).url@ == urls@[j]@,
            decreases urls@.len() - i,
        {
            served.push(IngressUrl { url: urls[i].clone() });
            i += 1;
        }
        assert(base@ =~= seq![*manifest]);
        Ingress { base, urls: served }
    }
}

/// What an ingress is built into.
#[derive(Clone, Debug)]
pub struct IngressTarget {
    manifests: Vec<IngressManifest>,
}

impl View for IngressTarget {
    type V = Seq<IngressManifest>;

    /// The manifests.
    closed spec fn view(&self) -> Seq<IngressManifest> {
        self.manifests@
    }
}

impl Default for IngressTarget {
    fn default() -> (r: Self)
        ensures
            r@ == Seq::<IngressManifest>::empty(),
    {
        IngressTarget { manifests: Vec::new() }
    }
}

impl Target for IngressTarget {
    type Error = IngressError;

    /// Every ingress target passes.
    fn check(&self) -> (r: Result<(), IngressError>)
        ensures
            r is Ok,
    {
        Ok(())
    }
}

impl Source<IngressTarget> for Ingress {
    type Error = IngressError;

    /// Every ingress passes.
    fn verify(&self) -> (r: Result<(), IngressError>)
        ensures
            r is Ok,
    {
        Ok(())
    }

    /// Builds the target, which is empty for every ingress. The ingress
    /// does not change.
    fn build(&mut self) -> (r: Result<IngressTarget, IngressError>)
        ensures
            r matches Ok(target) && target@ == Seq::<IngressManifest>::empty(),
            *final(self) == *old(self),
    {
        Ok(IngressTarget::default())
    }
}

} // verus!
