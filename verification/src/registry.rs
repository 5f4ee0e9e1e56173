//! The registry: the mapping store and the administration, side by side.

use vstd::prelude::*;
use crate::auth::AdminAuth;
use crate::store::MappingStore;

verus! {

/// All that the service keeps between requests.
pub struct Registry {
    /// The entries, by short code.
    pub store: MappingStore,
    /// The admin's account and sessions.
    pub auth: AdminAuth,
}

impl Registry {
    /// The registry's invariant: that of its two parts.
    pub open spec fn wf(&self) -> bool {
        self.store.wf() && self.auth.wf()
    }

    /// A registry without entries, account or sessions.
    pub fn new() -> (registry: Registry)
        ensures
            registry.wf(),
            registry.store.items().len() == 0,
            registry.auth.account() is None,
            registry.auth.sessions().len() == 0,
    {
        Registry { store: MappingStore::new(), auth: AdminAuth::new() }
    }
}

} // verus!
