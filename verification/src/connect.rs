//! How the controller's Spotify Connect device presents its own volume.

use vstd::prelude::*;

verus! {

/// The volume settings of the Connect device.
pub struct ConnectVolume {
    /// The Connect volume the device starts with.
    pub initial_volume: u16,
    /// Whether Spotify clients are kept from changing the Connect volume.
    pub disable_volume: bool,
}

/// The Connect device starts at full volume and leaves remote volume
/// control enabled; the Windows endpoint volume is the one the keys change.
pub fn tinyconnect_connect_config() -> (config: ConnectVolume)
    ensures
        config.initial_volume == u16::MAX,
        !config.disable_volume,
{
    ConnectVolume { initial_volume: u16::MAX, disable_volume: false }
}

} // verus!
