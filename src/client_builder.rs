//! Settings of a client, gathered before the client is built.
use vstd::prelude::*;

verus! {

/// Objects shorter than this are uploaded with a single call by default.
pub const DEFAULT_MULTIPART_THRESHOLD: usize = 20971520;

/// Gathers a credentials provider, a request dispatcher and the settings
/// of a client.
#[derive(Clone)]
pub struct S4ClientBuilder<P, D> {
    cred_provider: P,
    dispatch: D,
    multipart_threshold: usize,
    default_bucket: Option<String>,
}

impl<P, D> S4ClientBuilder<P, D> {
    pub closed spec fn spec_cred_provider(&self) -> P {
        self.cred_provider
    }

    pub closed spec fn spec_dispatch(&self) -> D {
        self.dispatch
    }

    pub closed spec fn spec_multipart_threshold(&self) -> usize {
        self.multipart_threshold
    }

    pub closed spec fn spec_default_bucket(&self) -> Option<String> {
        self.default_bucket
    }

    /// A builder with the default threshold and no default bucket.
    pub fn new(cred_provider: P, dispatch: D) -> (r: Self)
        ensures
            r.spec_cred_provider() == cred_provider,
            r.spec_dispatch() == dispatch,
            r.spec_multipart_threshold() == DEFAULT_MULTIPART_THRESHOLD,
            r.spec_default_bucket() is None,
    {
        S4ClientBuilder {
            cred_provider,
            dispatch,
            multipart_threshold: DEFAULT_MULTIPART_THRESHOLD,
            default_bucket: None,
        }
    }

    /// Sets the size below which an object is uploaded with a single call.
    pub fn multipart_threshold(&mut self, threshold: usize) -> (r: &mut Self)
        ensures
            r.spec_multipart_threshold() == threshold,
            r.spec_default_bucket() == old(self).spec_default_bucket(),
            r.spec_cred_provider() == old(self).spec_cred_provider(),
            r.spec_dispatch() == old(self).spec_dispatch(),
            *final(self) == *final(r),
    {
        self.multipart_threshold = threshold;
        self
    }

    /// Sets the bucket used where none is given.
    pub fn default_bucket(&mut self, default_bucket: String) -> (r: &mut Self)
        ensures
            r.spec_default_bucket() == Some(default_bucket),
            r.spec_multipart_threshold() == old(self).spec_multipart_threshold(),
            r.spec_cred_provider() == old(self).spec_cred_provider(),
            r.spec_dispatch() == old(self).spec_dispatch(),
            *final(self) == *final(r),
    {
        self.default_bucket = Some(default_bucket);
        self
    }

    /// Hands out the provider, the dispatcher, the threshold and the default
    /// bucket, to build the client from.
    pub fn into_parts(self) -> (r: (P, D, usize, Option<String>))
        ensures
            r == (
                self.spec_cred_provider(),
                self.spec_dispatch(),
                self.spec_multipart_threshold(),
                self.spec_default_bucket(),
            ),
    {
        (self.cred_provider, self.dispatch, self.multipart_threshold, self.default_bucket)
    }
}

} // verus!
