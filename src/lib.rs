use vstd::prelude::*;

pub mod connection;
pub mod protocol;
pub mod sessions;
pub mod sshclient;
pub mod token;

verus! {

} // verus!
