//! Audio output endpoint selection: which enumerated render endpoint is
//! the default, and which one a switch request names. The platform
//! enumeration and the policy call that actually changes the system
//! default live in the surrounding application; it hands this module
//! the endpoints as plain values and only acts on a successful
//! decision.

use vstd::prelude::*;

use crate::text::{append_str, string_from_chars};

verus! {

/// One active render endpoint as the platform hands it over: an opaque
/// id and a friendly name.
pub struct EndpointInfo {
    pub id: String,
    pub name: String,
}

/// Ghost image of an [`EndpointInfo`].
pub ghost struct EndpointInfoView {
    pub id: Seq<char>,
    pub name: Seq<char>,
}

impl View for EndpointInfo {
    type V = EndpointInfoView;

    open spec fn view(&self) -> EndpointInfoView {
        EndpointInfoView { id: self.id@, name: self.name@ }
    }
}

impl DeepView for EndpointInfo {
    type V = EndpointInfoView;

    open spec fn deep_view(&self) -> EndpointInfoView {
        self@
    }
}

/// An audio output device as a query reports it. Recomputed on every
/// query, never cached: the default mark is only as fresh as the query.
#[derive(Clone, Debug)]
pub struct AudioDevice {
    pub id: String,
    pub name: String,
    pub is_default: bool,
}

/// Ghost image of an [`AudioDevice`].
pub ghost struct AudioDeviceView {
    pub id: Seq<char>,
    pub name: Seq<char>,
    pub is_default: bool,
}

impl View for AudioDevice {
    type V = AudioDeviceView;

    open spec fn view(&self) -> AudioDeviceView {
        AudioDeviceView { id: self.id@, name: self.name@, is_default: self.is_default }
    }
}

impl DeepView for AudioDevice {
    type V = AudioDeviceView;

    open spec fn deep_view(&self) -> AudioDeviceView {
        self@
    }
}

/// What a device query returns for given endpoints and the id of the
/// current default: every endpoint in enumeration order, marked as
/// default exactly when its id equals that id.
pub open spec fn marked_devices(
    endpoints: Seq<EndpointInfoView>,
    default_id: Seq<char>,
) -> Seq<AudioDeviceView> {
    endpoints.map_values(
        |e: EndpointInfoView|
            AudioDeviceView { id: e.id, name: e.name, is_default: (e.id == default_id) },
    )
}

/// Marks as default exactly the endpoints whose id equals the current
/// default's id, keeping order, ids and names.
#[verifier::loop_isolation(false)]
pub fn mark_default_devices(endpoints: Vec<EndpointInfo>, default_id: &String) -> (r: Vec<
    AudioDevice,
>)
    ensures
        r.deep_view() == marked_devices(endpoints.deep_view(), default_id@),
{
    let mut r: Vec<AudioDevice> = Vec::new();
    let mut i: usize = 0;
    while i < endpoints.len()
        invariant
            i <= endpoints.len(),
            r.deep_view() =~= marked_devices(endpoints.deep_view(), default_id@).take(i as int),
        decreases endpoints.len() - i,
    {
        let e = &endpoints[i];
        let is_default = e.id.eq(default_id);
        let ghost before = r.deep_view();
        r.push(
            AudioDevice { id: e.id.clone(), name: e.name.clone(), is_default },
        );
        proof {
            let all = marked_devices(endpoints.deep_view(), default_id@);
            assert(endpoints.deep_view()[i as int] == endpoints@[i as int]@);
            assert(all[i as int] == (AudioDeviceView {
                id: e.id@,
                name: e.name@,
                is_default: (e.id@ == default_id@),
            }));
            assert(r.deep_view() =~= before.push(all[i as int]));
            assert(all.take(i as int + 1) =~= all.take(i as int).push(all[i as int]));
        }
        i = i + 1;
    }
    proof {
        let all = marked_devices(endpoints.deep_view(), default_id@);
        assert(all.take(endpoints.len() as int) =~= all);
    }
    r
}

/// With pairwise distinct endpoint ids, at most one reported device
/// carries the default mark.
pub proof fn lemma_at_most_one_default(endpoints: Seq<EndpointInfoView>, default_id: Seq<char>)
    requires
        forall|i: int, j: int|
            0 <= i < j < endpoints.len() ==> (#[trigger] endpoints[i].id) != (
            #[trigger] endpoints[j].id),
    ensures
        forall|i: int, j: int|
            0 <= i < endpoints.len() && 0 <= j < endpoints.len() && (#[trigger] marked_devices(
                endpoints,
                default_id,
            )[i]).is_default && (#[trigger] marked_devices(endpoints, default_id)[j]).is_default
                ==> i == j,
{
    let m = marked_devices(endpoints, default_id);
    assert forall|i: int, j: int|
        0 <= i < endpoints.len() && 0 <= j < endpoints.len() && (#[trigger] m[i]).is_default && (
        #[trigger] m[j]).is_default implies i == j by {
        assert(endpoints[i].id == default_id);
        assert(endpoints[j].id == default_id);
        if i < j {
            assert(endpoints[i].id != endpoints[j].id);
        }
        if j < i {
            assert(endpoints[j].id != endpoints[i].id);
        }
    }
}

/// The reply after a successful switch, naming the resolved device.
pub open spec fn switch_success_message(name: Seq<char>) -> Seq<char> {
    "Switched to audio device: "@ + name
}

/// The reply when no enumerated device carries the requested id.
pub open spec fn device_not_found_message() -> Seq<char> {
    "device not found"@
}

/// The decision behind switching the default endpoint: the first
/// enumerated device whose id equals the requested one, with the reply
/// naming it, or the not-found failure — in which case there is no
/// device to touch and the caller changes nothing.
pub fn select_endpoint(devices: &Vec<AudioDevice>, device_id: &String) -> (r: Result<
    (usize, String),
    String,
>)
    ensures
        match r {
            Ok((k, msg)) => {
                &&& k < devices@.len()
                &&& devices.deep_view()[k as int].id == device_id@
                &&& forall|j: int| 0 <= j < k ==> devices.deep_view()[j].id != device_id@
                &&& msg@ == switch_success_message(devices.deep_view()[k as int].name)
            },
            Err(e) => {
                &&& forall|j: int|
                    0 <= j < devices@.len() ==> devices.deep_view()[j].id != device_id@
                &&& e@ == device_not_found_message()
            },
        },
{
    let mut i: usize = 0;
    while i < devices.len()
        invariant
            i <= devices.len(),
            forall|j: int| 0 <= j < i ==> devices.deep_view()[j].id != device_id@,
        decreases devices.len() - i,
    {
        if devices[i].id.eq(device_id) {
            proof {
                assert(devices.deep_view()[i as int].id == device_id@);
            }
            let mut out: Vec<char> = Vec::new();
            append_str(&mut out, "Switched to audio device: ");
            crate::text::append_str(&mut out, devices[i].name.as_str());
            return Ok((i, string_from_chars(&out)));
        }
        proof {
            assert(devices.deep_view()[i as int].id == devices@[i as int]@.id);
        }
        i = i + 1;
    }
    Err(String::from_str("device not found"))
}

/// The device the current-default query reports: the queried endpoint
/// itself, always carrying the default mark.
pub fn default_device(id: String, name: String) -> (d: AudioDevice)
    ensures
        d@.id == id@,
        d@.name == name@,
        d@.is_default,
{
    AudioDevice { id, name, is_default: true }
}

} // verus!
