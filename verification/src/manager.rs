//! The entry point: hands out the adapters of this machine.

use vstd::prelude::*;

use crate::adapter::{adapter_wf, empty_adapter, Adapter};

verus! {

/// The top-level handle a caller starts from.
#[derive(Clone, Copy, Debug)]
pub struct Manager {}

impl Manager {
    /// A fresh manager.
    pub fn new() -> (m: Manager)
        ensures
            m == (Manager {  }),
    {
        Manager {  }
    }

    /// The adapters this backend offers: exactly one, fresh and empty.
    pub fn adapters(&self) -> (r: Vec<Adapter>)
        ensures
            r@.len() == 1,
            r@[0]@ == empty_adapter(),
            adapter_wf(r@[0]@),
    {
        let mut r: Vec<Adapter> = Vec::new();
        r.push(Adapter::new());
        r
    }
}

} // verus!
