use vstd::prelude::*;
use crate::store::Store;

verus! {

/// An empty store for tests.
pub struct TestDb {
    pub connection_pool: Store,
}

impl TestDb {
    pub fn new() -> (r: TestDb)
        ensures
            r.connection_pool@.inv(),
            r.connection_pool@.rooms.len() == 0,
            r.connection_pool@.agents.len() == 0,
    {
        TestDb { connection_pool: Store::new() }
    }

    pub fn connection_pool(&self) -> (r: &Store)
        ensures
            r == &self.connection_pool,
    {
        &self.connection_pool
    }
}

} // verus!
