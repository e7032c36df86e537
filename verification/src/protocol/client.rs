//! The client that a connection serves.

use crate::protocol::hvals::HValsParams;
use vstd::prelude::*;

verus! {

/// A command that only reads.
#[derive(Debug)]
pub enum ReadOperation {
    HVals(HValsParams),
}

/// A command as it is queued.
#[derive(Debug)]
pub enum Operation {
    Read(ReadOperation),
}

/// A client.
#[derive(Debug)]
pub struct Client {
    /// The database that it works on.
    pub db_number: u16,
    /// The commands of its transaction, while it has one.
    pub transaction_queue: Option<Vec<Operation>>,
    /// What sets it apart from the others.
    pub id: u64,
}

impl Client {
    /// A client that has just connected.
    pub fn new(id: u64) -> (client: Client)
        ensures
            client.db_number == 0,
            client.transaction_queue is None,
            client.id == id,
    {
        Client { db_number: 0, transaction_queue: None, id }
    }
}

} // verus!
