//! The handle through which one device is addressed.

use vstd::prelude::*;

verus! {

/// A client for one device, or for the only device where none is named.
pub struct AdbClient {
    device_id: Option<String>,
}

impl AdbClient {
    /// The device that the client addresses, if one was named.
    pub closed spec fn device(&self) -> Option<String> {
        self.device_id
    }

    /// A client for the device `device_id`.
    pub fn new(device_id: Option<String>) -> (client: Self)
        ensures
            client.device() == device_id,
    {
        Self { device_id }
    }

    /// The device that the client addresses, if one was named.
    pub fn device_id(&self) -> (r: &Option<String>)
        ensures
            *r == self.device(),
    {
        &self.device_id
    }
}

} // verus!
