//! The Windows output endpoint that the controller adjusts, as the library
//! sees it: its identity and the name shown for it.

use vstd::prelude::*;

verus! {

/// The step, in percent, by which one key press moves the volume.
pub const VOLUME_STEP_PERCENT: i8 = 5;

/// The name shown for an endpoint whose friendly name is `raw`.
pub open spec fn endpoint_name(raw: Seq<char>) -> Seq<char> {
    if raw.len() == 0 {
        "Windows default render endpoint"@
    } else {
        raw
    }
}

/// An output endpoint: the identifier by which the system finds it again,
/// and the name shown for it.
pub struct AudioEndpoint {
    device_id: String,
    name: String,
}

/// What an endpoint holds, as texts.
pub ghost struct EndpointView {
    pub device_id: Seq<char>,
    pub name: Seq<char>,
}

impl View for AudioEndpoint {
    type V = EndpointView;

    closed spec fn view(&self) -> EndpointView {
        EndpointView { device_id: self.device_id@, name: self.name@ }
    }
}

/// The name shown for an endpoint: its friendly name, or a generic one when
/// the system gives none.
pub fn endpoint_display_name(friendly_name: String) -> (name: String)
    ensures
        name@ == endpoint_name(friendly_name@),
{
    if friendly_name.as_str().is_empty() {
        "Windows default render endpoint".to_owned()
    } else {
        friendly_name
    }
}

impl AudioEndpoint {
    /// The endpoint with identifier `device_id` and the friendly name the
    /// system reported for it.
    pub fn new(device_id: String, friendly_name: String) -> (endpoint: AudioEndpoint)
        ensures
            endpoint@ == (EndpointView { device_id: device_id@, name: endpoint_name(friendly_name@) }),
    {
        let name = endpoint_display_name(friendly_name);
        AudioEndpoint { device_id, name }
    }

    /// The name shown for this endpoint.
    pub fn name(&self) -> (name: &str)
        ensures
            name@ == self@.name,
    {
        self.name.as_str()
    }

    /// The identifier by which the system finds this endpoint.
    pub fn device_id(&self) -> (id: &str)
        ensures
            id@ == self@.device_id,
    {
        self.device_id.as_str()
    }
}

/// The shown name is never empty: it is the friendly name whenever there is
/// one, and the generic name only when there is none.
pub proof fn lemma_endpoint_name(raw: Seq<char>)
    ensures
        endpoint_name(raw).len() > 0,
        raw.len() > 0 ==> endpoint_name(raw) == raw,
        raw.len() == 0 ==> endpoint_name(raw) == "Windows default render endpoint"@,
{
    reveal_strlit("Windows default render endpoint");
}

} // verus!
