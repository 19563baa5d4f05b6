//! Looking for devices: which nodes to ask, under which indexes, and what to make of the answers.

use vstd::prelude::*;

use crate::device::identity::{device_name_at, read_device_name};
use crate::device::{device_views, DeviceView, DiscoveryOutcome, DiscoveryView, LogicalDevice};
use crate::error::{error_text, AppError, ErrorView};
use crate::hid::transport::HidIo;
use crate::hid::{endpoint_views, enumerate_logitech, enumerated, record_views, EndpointView, HidEndpoint, HidRecord};
use crate::hidpp::features::{discovery_at, FeatureTable, FeatureView};
use crate::hidpp::protocol::{HidppTransport, ProtocolVersion};
use crate::hidpp::session::{
    grown, grown_means, grown_when_turned, group_session, ping_at, prefix_covers, turned_to, Exchange, Step, Wire,
};
use crate::order::{arranged, placed, slot_found};
use crate::text::{comes_before, dec, decimal, join2, join5, same_text, text_before};

verus! {

broadcast use group_session;

/// Whether a receiver takes a single device only, by its product ID.
pub open spec fn takes_single_device(product_id: u16) -> bool {
    ||| product_id == 0xc539
    ||| product_id == 0xc53a
    ||| product_id == 0xc53d
    ||| product_id == 0xc53f
    ||| product_id == 0xc541
    ||| product_id == 0xc545
    ||| product_id == 0xc547
    ||| product_id == 0xc54d
}

/// Whether a receiver takes a single device only.
pub fn is_single_device_lightspeed(product_id: u16) -> (single: bool)
    ensures
        single == takes_single_device(product_id),
        single <==> product_id == 0xc539 || product_id == 0xc53a || product_id == 0xc53d || product_id == 0xc53f
            || product_id == 0xc541 || product_id == 0xc545 || product_id == 0xc547 || product_id == 0xc54d,
{
    product_id == 0xc539 || product_id == 0xc53a || product_id == 0xc53d || product_id == 0xc53f || product_id == 0xc541
        || product_id == 0xc545 || product_id == 0xc547 || product_id == 0xc54d
}

/// Whether a node is worth asking.
pub open spec fn worth_asking(endpoint: EndpointView) -> bool {
    endpoint.is_probable_hidpp_interface() && (endpoint.is_receiver() || endpoint.is_direct_hidpp_device())
}

/// The nodes that are worth asking.
pub open spec fn nodes_worth_asking(endpoints: Seq<EndpointView>) -> Seq<EndpointView>
    decreases endpoints.len(),
{
    if endpoints.len() == 0 {
        Seq::empty()
    } else if worth_asking(endpoints.last()) {
        nodes_worth_asking(endpoints.drop_last()).push(endpoints.last())
    } else {
        nodes_worth_asking(endpoints.drop_last())
    }
}

/// How far back in the order of asking a node stands by its interface and usage page.
pub open spec fn asking_rank(endpoint: EndpointView) -> int {
    (if endpoint.interface_number == 2 {
        0int
    } else {
        2int
    }) + (if endpoint.usage_page >= 0xff00 {
        0int
    } else {
        1int
    })
}

/// The order of asking: the third interface first, then vendor-defined usage pages, then by product.
pub open spec fn asked_before(a: EndpointView, b: EndpointView) -> bool {
    asking_rank(a) < asking_rank(b) || (asking_rank(a) == asking_rank(b) && a.product_id < b.product_id)
}

/// [`asked_before`] as a value.
pub open spec fn asking_order() -> spec_fn(EndpointView, EndpointView) -> bool {
    |a: EndpointView, b: EndpointView| asked_before(a, b)
}

fn rank(endpoint: &HidEndpoint) -> (rank: u8)
    ensures
        rank == asking_rank(endpoint@),
{
    (if endpoint.interface_number == 2 { 0u8 } else { 2u8 }) + (if endpoint.usage_page >= 0xff00 { 0u8 } else { 1u8 })
}

fn is_asked_before(a: &HidEndpoint, b: &HidEndpoint) -> (before: bool)
    ensures
        before == asked_before(a@, b@),
{
    rank(a) < rank(b) || (rank(a) == rank(b) && a.product_id < b.product_id)
}

/// The nodes that are worth asking, in the order of asking. Among equals the order stays.
pub fn probe_candidates(endpoints: &Vec<HidEndpoint>) -> (candidates: Vec<HidEndpoint>)
    ensures
        endpoint_views(candidates@) == arranged(nodes_worth_asking(endpoint_views(endpoints@)), asking_order()),
{
    let mut candidates: Vec<HidEndpoint> = Vec::new();
    let mut i: usize = 0;
    let ghost views = endpoint_views(endpoints@);
    assert(views.take(0) =~= Seq::empty());
    assert(endpoint_views(candidates@) =~= Seq::empty());
    while i < endpoints.len()
        invariant
            i <= endpoints.len(),
            views == endpoint_views(endpoints@),
            endpoint_views(candidates@) == arranged(nodes_worth_asking(views.take(i as int)), asking_order()),
        decreases endpoints.len() - i,
    {
        let endpoint = &endpoints[i];
        assert(views.take(i + 1).drop_last() =~= views.take(i as int));
        if endpoint.is_probable_hidpp_interface() && (endpoint.is_receiver() || endpoint.is_direct_hidpp_device()) {
            let ghost known = endpoint_views(candidates@);
            let ghost earlier = nodes_worth_asking(views.take(i as int));
            assert(earlier.push(endpoint@).drop_last() =~= earlier);
            let mut at: usize = 0;
            while at < candidates.len() && !is_asked_before(endpoint, &candidates[at])
                invariant
                    at <= candidates.len(),
                    known == endpoint_views(candidates@),
                    forall|k: int| 0 <= k < at ==> !asked_before(endpoint@, #[trigger] known[k]),
                decreases candidates.len() - at,
            {
                at = at + 1;
            }
            proof {
                slot_found(known, endpoint@, asking_order(), at as int);
            }
            let candidate = endpoint.clone();
            candidates.insert(at, candidate);
            assert(endpoint_views(candidates@) =~= placed(known, endpoint@, asking_order()));
        }
        i = i + 1;
    }
    assert(views.take(views.len() as int) =~= views);
    candidates
}

/// The indexes to ask for on a node: the devices of a receiver, or the one that is connected by itself.
pub open spec fn indexes_of(endpoint: EndpointView) -> Seq<u8> {
    if endpoint.is_receiver() {
        if takes_single_device(endpoint.product_id) {
            seq![1u8]
        } else {
            seq![1u8, 2u8, 3u8, 4u8, 5u8, 6u8]
        }
    } else {
        seq![0xffu8]
    }
}

/// The indexes to ask for on a node.
pub fn probe_indexes(endpoint: &HidEndpoint) -> (indexes: Vec<u8>)
    ensures
        indexes@ == indexes_of(endpoint@),
        !(0xc500 <= endpoint.product_id <= 0xc5ff) ==> indexes@ == seq![0xffu8],
        endpoint.product_id == 0xc539 || endpoint.product_id == 0xc53a || endpoint.product_id == 0xc53d
            || endpoint.product_id == 0xc53f || endpoint.product_id == 0xc541 || endpoint.product_id == 0xc545
            || endpoint.product_id == 0xc547 || endpoint.product_id == 0xc54d ==> indexes@ == seq![1u8],
        0xc500 <= endpoint.product_id <= 0xc5ff && endpoint.product_id != 0xc539 && endpoint.product_id != 0xc53a
            && endpoint.product_id != 0xc53d && endpoint.product_id != 0xc53f && endpoint.product_id != 0xc541
            && endpoint.product_id != 0xc545 && endpoint.product_id != 0xc547 && endpoint.product_id != 0xc54d
            ==> indexes@ == seq![1u8, 2u8, 3u8, 4u8, 5u8, 6u8],
{
    let mut indexes: Vec<u8> = Vec::new();
    if endpoint.is_receiver() {
        indexes.push(1);
        if !is_single_device_lightspeed(endpoint.product_id) {
            indexes.push(2);
            indexes.push(3);
            indexes.push(4);
            indexes.push(5);
            indexes.push(6);
        }
    } else {
        indexes.push(0xff);
    }
    assert(indexes@ =~= indexes_of(endpoint@));
    indexes
}

/// What asking for one index came to.
pub enum Probe {
    /// No device that speaks HID++ 2 answered.
    Nothing,
    /// Nothing answered, and nothing else can be there.
    NothingMore,
    /// Something went wrong.
    Problem(AppError),
    /// A device answered.
    Found { protocol: ProtocolVersion, name: String, features: FeatureTable },
}

/// A [`Probe`] with its texts and lists as sequences.
pub enum ProbeView {
    Nothing,
    NothingMore,
    Problem(ErrorView),
    Found { protocol: ProtocolVersion, name: Seq<char>, features: Seq<FeatureView> },
}

impl View for Probe {
    type V = ProbeView;

    open spec fn view(&self) -> ProbeView {
        match *self {
            Probe::Nothing => ProbeView::Nothing,
            Probe::NothingMore => ProbeView::NothingMore,
            Probe::Problem(error) => ProbeView::Problem(error@),
            Probe::Found { protocol, name, features } => ProbeView::Found {
                protocol,
                name: name@,
                features: features@,
            },
        }
    }
}

/// The name of a device that does not tell its own: that of its node, or a made-up one.
pub open spec fn fallback_name(endpoint: EndpointView, index: u8) -> Seq<char> {
    match endpoint.product {
        Some(product) => product,
        None => "Logitech HID++ device "@ + dec(index as nat),
    }
}

/// Asking a device that answered for its features and its name.
pub open spec fn introduction_at(
    wire: Wire,
    at: int,
    endpoint: EndpointView,
    protocol: ProtocolVersion,
) -> Step<ProbeView> {
    match discovery_at(wire, at) {
        Step::Astray => Step::Astray,
        Step::Failed { error, next } => Step::Done { value: ProbeView::Problem(error), next },
        Step::Done { value: features, next } => match device_name_at(wire, next, features) {
            Step::Astray => Step::Astray,
            Step::Done { value: name, next } => Step::Done {
                value: ProbeView::Found { protocol, name, features },
                next,
            },
            Step::Failed { next, .. } => Step::Done {
                value: ProbeView::Found { protocol, name: fallback_name(endpoint, wire.device_index), features },
                next,
            },
        },
    }
}

/// Asking whether a device is there under the record's index.
#[verifier::opaque]
pub open spec fn probe_at(wire: Wire, at: int, endpoint: EndpointView, first: bool) -> Step<ProbeView> {
    match ping_at(wire, at) {
        Step::Astray => Step::Astray,
        Step::Done { value: protocol, next } => if protocol.major >= 2 {
            introduction_at(wire, next, endpoint, protocol)
        } else {
            Step::Done { value: ProbeView::Nothing, next }
        },
        Step::Failed { error, next } => Step::Done {
            value: if error is Timeout {
                if first && takes_single_device(endpoint.product_id) {
                    ProbeView::NothingMore
                } else {
                    ProbeView::Nothing
                }
            } else {
                ProbeView::Problem(error)
            },
            next,
        },
    }
}

fn introduce<I: HidIo>(
    transport: &mut HidppTransport<I>,
    endpoint: &HidEndpoint,
    protocol: ProtocolVersion,
) -> (probe: Probe)
    ensures
        grown(old(transport)@, final(transport)@),
        final(transport).held() == old(transport).held(),
        forall|wire: Wire|
            wire.covers(final(transport)@) ==> #[trigger] introduction_at(
                wire,
                old(transport)@.mark(),
                endpoint@,
                protocol,
            ) == (Step::Done { value: probe@, next: final(transport)@.mark() }),
{
    let features = match FeatureTable::discover(transport) {
        Ok(features) => features,
        Err(error) => {
            return Probe::Problem(error);
        },
    };
    let name = match read_device_name(transport, &features) {
        Ok(name) => name,
        Err(_) => match &endpoint.product {
            Some(product) => product.clone(),
            None => join2("Logitech HID++ device ", decimal(transport.device_index() as u64).as_str()),
        },
    };
    Probe::Found { protocol, name, features }
}

/// Asks whether a device is there under the transport's index.
pub fn probe_device<I: HidIo>(transport: &mut HidppTransport<I>, endpoint: &HidEndpoint, first: bool) -> (probe: Probe)
    ensures
        grown(old(transport)@, final(transport)@),
        final(transport).held() == old(transport).held(),
        forall|wire: Wire|
            wire.covers(final(transport)@) ==> #[trigger] probe_at(wire, old(transport)@.mark(), endpoint@, first) == (
            Step::Done { value: probe@, next: final(transport)@.mark() }),
{
    reveal(probe_at);

    match transport.ping() {
        Ok(protocol) => if protocol.major >= 2 {
            introduce(transport, endpoint, protocol)
        } else {
            Probe::Nothing
        },
        Err(AppError::Timeout { .. }) => if first && is_single_device_lightspeed(endpoint.product_id) {
            Probe::NothingMore
        } else {
            Probe::Nothing
        },
        Err(error) => Probe::Problem(error),
    }
}

/// Whether a device is known already: same product, same index, same name.
pub open spec fn already_known(devices: Seq<DeviceView>, product_id: u16, index: u8, name: Seq<char>) -> bool {
    exists|i: int|
        0 <= i < devices.len() && (#[trigger] devices[i]).endpoint.product_id == product_id && devices[i].device_index
            == index && devices[i].name == name
}

fn is_already_known(devices: &Vec<LogicalDevice>, product_id: u16, index: u8, name: &str) -> (known: bool)
    ensures
        known == already_known(device_views(devices@), product_id, index, name@),
{
    let ghost views = device_views(devices@);
    let mut i: usize = 0;
    while i < devices.len()
        invariant
            i <= devices.len(),
            views == device_views(devices@),
            forall|k: int|
                0 <= k < i ==> !((#[trigger] views[k]).endpoint.product_id == product_id && views[k].device_index
                    == index && views[k].name == name@),
        decreases devices.len() - i,
    {
        if devices[i].endpoint.product_id == product_id && devices[i].device_index == index && same_text(
            devices[i].name.as_str(),
            name,
        ) {
            assert(views[i as int] == devices@[i as int]@);
            return true;
        }
        i = i + 1;
    }
    false
}

/// The line that tells of a problem with an index of a node.
pub open spec fn problem_line(path: Seq<char>, index: u8, error: ErrorView) -> Seq<char> {
    path + " index "@ + dec(index as nat) + ": "@ + error_text(error)
}

/// What is known after one more index was asked for.
pub open spec fn with_probe(discovery: DiscoveryView, endpoint: EndpointView, index: u8, probe: ProbeView) -> DiscoveryView {
    match probe {
        ProbeView::Nothing => discovery,
        ProbeView::NothingMore => discovery,
        ProbeView::Problem(error) => DiscoveryView {
            probe_errors: discovery.probe_errors.push(problem_line(endpoint.path, index, error)),
            ..discovery
        },
        ProbeView::Found { protocol, name, features } => if already_known(
            discovery.devices,
            endpoint.product_id,
            index,
            name,
        ) {
            discovery
        } else {
            DiscoveryView {
                devices: discovery.devices.push(
                    DeviceView { endpoint, device_index: index, protocol, name, features },
                ),
                ..discovery
            }
        },
    }
}

/// Takes in what asking for an index came to.
pub fn note_probe(discovery: &mut DiscoveryOutcome, endpoint: &HidEndpoint, index: u8, probe: Probe)
    ensures
        final(discovery)@ == with_probe(old(discovery)@, endpoint@, index, probe@),
{
    match probe {
        Probe::Nothing => {},
        Probe::NothingMore => {},
        Probe::Problem(error) => {
            let line = join5(
                endpoint.path.as_str(),
                " index ",
                decimal(index as u64).as_str(),
                ": ",
                error.message().as_str(),
            );
            discovery.probe_errors.push(line);
            assert(discovery@.probe_errors =~= old(discovery)@.probe_errors.push(
                problem_line(endpoint@.path, index, error@),
            ));
        },
        Probe::Found { protocol, name, features } => {
            if !is_already_known(&discovery.devices, endpoint.product_id, index, name.as_str()) {
                let device = LogicalDevice {
                    endpoint: endpoint.clone(),
                    device_index: index,
                    protocol,
                    name,
                    features,
                };
                discovery.devices.push(device);
                assert(discovery@.devices =~= old(discovery)@.devices.push(device@));
            }
        },
    }
}

/// What is known after a node could not be opened.
pub open spec fn with_open_failure(discovery: DiscoveryView, error: ErrorView) -> DiscoveryView {
    DiscoveryView {
        probe_errors: discovery.probe_errors.push(error_text(error)),
        permission_denied_paths: match error {
            ErrorView::PermissionDenied { path } => discovery.permission_denied_paths.push(path),
            _ => discovery.permission_denied_paths,
        },
        ..discovery
    }
}

/// Takes in that a node could not be opened.
pub fn note_open_failure(discovery: &mut DiscoveryOutcome, error: AppError)
    ensures
        final(discovery)@ == with_open_failure(old(discovery)@, error@),
{
    discovery.probe_errors.push(error.message());
    assert(discovery@.probe_errors =~= old(discovery)@.probe_errors.push(error_text(error@)));
    if let AppError::PermissionDenied { path } = error {
        discovery.permission_denied_paths.push(path);
        assert(discovery@.permission_denied_paths =~= old(discovery)@.permission_denied_paths.push(path@));
    }
}

/// Asking for the indexes of a node from one on. Where nothing more can be there, the rest is left out.
pub open spec fn probes_at(
    exchanges: Seq<Exchange>,
    at: int,
    endpoint: EndpointView,
    position: int,
    discovery: DiscoveryView,
) -> Step<DiscoveryView>
    decreases indexes_of(endpoint).len() - position,
{
    if position < 0 || position >= indexes_of(endpoint).len() {
        Step::Done { value: discovery, next: at }
    } else {
        let index = indexes_of(endpoint)[position];
        match probe_at(Wire { device_index: index, exchanges }, at, endpoint, position == 0) {
            Step::Done { value: probe, next } => if probe is NothingMore {
                Step::Done { value: discovery, next }
            } else {
                probes_at(exchanges, next, endpoint, position + 1, with_probe(discovery, endpoint, index, probe))
            },
            _ => Step::Astray,
        }
    }
}

/// Asks for every index of a node over one transport, which is turned to one after the other, and takes in
/// what comes of it.
pub fn probe_endpoint<I: HidIo>(
    transport: &mut HidppTransport<I>,
    endpoint: &HidEndpoint,
    discovery: &mut DiscoveryOutcome,
)
    ensures
        grown(turned_to(old(transport)@, final(transport)@.device_index), final(transport)@),
        final(transport).held() == old(transport).held(),
        forall|exchanges: Seq<Exchange>|
            final(transport)@.exchanges.is_prefix_of(exchanges) ==> #[trigger] probes_at(
                exchanges,
                old(transport)@.mark(),
                endpoint@,
                0,
                old(discovery)@,
            ) == (Step::Done { value: final(discovery)@, next: final(transport)@.mark() }),
{
    let indexes = probe_indexes(endpoint);
    let mut position: usize = 0;
    let ghost start = transport@;
    let ghost found = discovery@;
    while position < indexes.len()
        invariant
            position <= indexes.len(),
            indexes@ == indexes_of(endpoint@),
            start == old(transport)@,
            found == old(discovery)@,
            grown(turned_to(start, transport@.device_index), transport@),
            transport.held() == old(transport).held(),
            forall|exchanges: Seq<Exchange>|
                transport@.exchanges.is_prefix_of(exchanges) ==> #[trigger] probes_at(
                    exchanges,
                    start.mark(),
                    endpoint@,
                    0,
                    found,
                ) == probes_at(exchanges, transport@.mark(), endpoint@, position as int, discovery@),
        decreases indexes.len() - position,
    {
        let index: u8 = indexes[position];
        let ghost before = transport@;
        let ghost known = discovery@;
        transport.retarget(index);
        let ghost turned = transport@;
        proof {
            grown_when_turned(turned_to(start, before.device_index), before, index);
        }
        let probe = probe_device(transport, endpoint, position == 0);
        proof {
            grown_means(turned, transport@);
            assert forall|exchanges: Seq<Exchange>|
                transport@.exchanges.is_prefix_of(exchanges) implies #[trigger] probes_at(
                exchanges,
                start.mark(),
                endpoint@,
                0,
                found,
            ) == probes_at(exchanges, before.mark(), endpoint@, position as int, known) && probe_at(
                Wire { device_index: index, exchanges },
                before.mark(),
                endpoint@,
                position == 0,
            ) == (Step::Done { value: probe@, next: transport@.mark() }) by {
                assert(before.exchanges.is_prefix_of(exchanges));
                prefix_covers(Wire { device_index: index, exchanges }, transport@);
            }
        }
        if let Probe::NothingMore = probe {
            return;
        }
        note_probe(discovery, endpoint, index, probe);
        position = position + 1;
    }
}

/// The order of devices: by name, then by index.
pub open spec fn device_precedes(a: DeviceView, b: DeviceView) -> bool {
    text_before(a.name, b.name) || (a.name == b.name && a.device_index < b.device_index)
}

/// [`device_precedes`] as a value.
pub open spec fn device_order() -> spec_fn(DeviceView, DeviceView) -> bool {
    |a: DeviceView, b: DeviceView| device_precedes(a, b)
}

fn precedes(a: &LogicalDevice, b: &LogicalDevice) -> (before: bool)
    ensures
        before == device_precedes(a@, b@),
{
    comes_before(a.name.as_str(), b.name.as_str()) || (same_text(a.name.as_str(), b.name.as_str()) && a.device_index
        < b.device_index)
}

/// What a search starts with: the endpoints that the system lists.
pub fn begin_discovery(records: &Vec<HidRecord>) -> (discovery: DiscoveryOutcome)
    ensures
        discovery@ == (DiscoveryView {
            endpoints: enumerated(record_views(records@)),
            devices: Seq::empty(),
            probe_errors: Seq::empty(),
            permission_denied_paths: Seq::empty(),
        }),
{
    let mut discovery = DiscoveryOutcome::default();
    discovery.endpoints = enumerate_logitech(records);
    discovery
}

/// Puts the devices that were found in order. Among equals the order of finding stays.
pub fn finish_discovery(discovery: &mut DiscoveryOutcome)
    ensures
        final(discovery)@ == (DiscoveryView {
            devices: arranged(old(discovery)@.devices, device_order()),
            ..old(discovery)@
        }),
{
    let mut devices: Vec<LogicalDevice> = Vec::new();
    let mut i: usize = 0;
    let ghost views = device_views(discovery.devices@);
    assert(views.take(0) =~= Seq::empty());
    assert(device_views(devices@) =~= Seq::empty());
    while i < discovery.devices.len()
        invariant
            i <= discovery.devices.len(),
            views == device_views(discovery.devices@),
            *discovery == *old(discovery),
            device_views(devices@) == arranged(views.take(i as int), device_order()),
        decreases discovery.devices.len() - i,
    {
        let device = discovery.devices[i].clone();
        let ghost known = device_views(devices@);
        assert(views.take(i + 1).drop_last() =~= views.take(i as int));
        let mut at: usize = 0;
        while at < devices.len() && !precedes(&device, &devices[at])
            invariant
                at <= devices.len(),
                known == device_views(devices@),
                forall|k: int| 0 <= k < at ==> !device_precedes(device@, #[trigger] known[k]),
            decreases devices.len() - at,
        {
            at = at + 1;
        }
        proof {
            slot_found(known, device@, device_order(), at as int);
        }
        devices.insert(at, device);
        assert(device_views(devices@) =~= placed(known, device@, device_order()));
        i = i + 1;
    }
    assert(views.take(views.len() as int) =~= views);
    discovery.devices = devices;
}

}
