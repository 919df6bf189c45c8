//! The tunnel record as a plugin sees it.

use vstd::prelude::*;

verus! {

/// A tunnel from a public port to a destination, under a realm.
#[derive(PartialEq, Clone, Debug)]
pub struct Tunnel {
    pub realm_name: String,
    pub public_port: u16,
    pub destination_host: String,
    pub destination_port: u16,
}

} // verus!
