use vstd::prelude::*;
use vstd::string::*;

use crate::text::{decimal, decimal_string};

verus! {

/// Returned by `Queue::enqueue` when the queue is at capacity.
#[derive(Debug)]
pub struct QueueFullErr {
    pub label: &'static str,
    pub capacity: usize,
    pub name: String,
}

impl QueueFullErr {
    pub fn new(label: &'static str, capacity: usize, name: String) -> (r: Self)
        ensures
            r.label@ == label@,
            r.capacity == capacity,
            r.name@ == name@,
    {
        QueueFullErr { label, capacity, name }
    }

    /// The text of the refusal: "LABEL queue is full (capacity N); rejected job for
    /// file NAME".
    pub fn message(&self) -> (r: String)
        ensures
            r@ == self.label@ + " queue is full (capacity "@ + decimal(self.capacity as nat)
                + "); rejected job for file "@ + self.name@,
    {
        let mut s = String::from_str(self.label);
        s.append(" queue is full (capacity ");
        let n = decimal_string(self.capacity);
        s.append(n.as_str());
        s.append("); rejected job for file ");
        s.append(self.name.as_str());
        s
    }
}

impl crate::errors::ErrorClass for QueueFullErr {
    open spec fn spec_is_network_conn_err(&self) -> bool {
        false
    }

    open spec fn spec_is_terminal(&self) -> bool {
        false
    }

    fn is_network_conn_err(&self) -> (r: bool) {
        false
    }

    fn is_terminal(&self) -> (r: bool) {
        false
    }
}

} // verus!
