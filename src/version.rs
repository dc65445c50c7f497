//! The capability announcement.
use vstd::prelude::*;

verus! {

/// The protocol versions this server speaks.
pub struct VersionResponse {
    pub protocol_versions: Vec<i32>,
}

impl VersionResponse {
    /// The announcement: protocol version 2 only.
    pub fn current() -> (r: Self)
        ensures
            r.protocol_versions@ == seq![2i32],
    {
        VersionResponse { protocol_versions: vec![2] }
    }
}

} // verus!
