//! Payloads for the notification signals exchanged with the caller-facing
//! shell: start an authorization run, ask the user to confirm a device, and
//! report a partition's state.

use vstd::prelude::*;

verus! {

/// Asks for an authorization run for one partition.
pub struct AuthorizeDevice {
    pub partition_name: String,
}

impl Clone for AuthorizeDevice {
    fn clone(&self) -> (r: Self)
        ensures
            r == *self,
    {
        AuthorizeDevice { partition_name: self.partition_name.clone() }
    }
}

/// Asks the user to confirm a device with a code at a URL.
pub struct ConfirmDevice {
    pub partition_name: String,
    pub confirmation_code: String,
    pub confirmation_url: String,
}

impl Clone for ConfirmDevice {
    fn clone(&self) -> (r: Self)
        ensures
            r == *self,
    {
        ConfirmDevice {
            partition_name: self.partition_name.clone(),
            confirmation_code: self.confirmation_code.clone(),
            confirmation_url: self.confirmation_url.clone(),
        }
    }
}

/// Reports a partition's state to the shell.
pub struct PartitionState {
    pub partition_name: String,
    pub state: String,
}

impl Clone for PartitionState {
    fn clone(&self) -> (r: Self)
        ensures
            r == *self,
    {
        PartitionState {
            partition_name: self.partition_name.clone(),
            state: self.state.clone(),
        }
    }
}

} // verus!
