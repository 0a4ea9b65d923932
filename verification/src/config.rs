use vstd::prelude::*;

verus! {

/// Fixed wire-format configuration shared by a producer and a consumer.
///
/// The widths are a build-time contract between the two sides: a stream is
/// only meaningful to a reader whose configuration equals the writer's.
#[derive(Clone, Copy, Debug, PartialEq, Eq, Structural)]
pub struct WireConfig {
    /// Width in bytes of every string length prefix: 2 or 4.
    pub string_length_size: u8,
    /// Width in bytes of a numeric process identifier field: 4 or 8.
    pub pid_size: u8,
    /// Whether collaborator types emit an additional structural header.
    pub use_structure_header: bool,
}

impl WireConfig {
    /// The configuration holds only the widths the wire format defines.
    pub open spec fn wf(self) -> bool {
        &&& self.string_length_size == 2 || self.string_length_size == 4
        &&& self.pid_size == 4 || self.pid_size == 8
    }

    pub fn new(string_length_size: u8, pid_size: u8, use_structure_header: bool) -> (r: WireConfig)
        requires
            string_length_size == 2 || string_length_size == 4,
            pid_size == 4 || pid_size == 8,
        ensures
            r == (WireConfig { string_length_size, pid_size, use_structure_header }),
            r.wf(),
    {
        WireConfig { string_length_size, pid_size, use_structure_header }
    }
}

} // verus!
