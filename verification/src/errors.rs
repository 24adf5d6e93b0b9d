use vstd::prelude::*;

verus! {

/// Classification shared by the agent's error types.
pub trait ErrorClass {
    /// Whether the failure is a network-connection problem (expected while offline).
    spec fn spec_is_network_conn_err(&self) -> bool;

    /// Whether retrying the operation can never succeed.
    spec fn spec_is_terminal(&self) -> bool;

    fn is_network_conn_err(&self) -> (r: bool)
        ensures
            r == self.spec_is_network_conn_err(),
    ;

    fn is_terminal(&self) -> (r: bool)
        ensures
            r == self.spec_is_terminal(),
    ;
}

} // verus!
