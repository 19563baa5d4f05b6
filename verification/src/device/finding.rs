//! Which nodes are asked for devices, under which indexes, and which device is meant.

use vstd::prelude::*;

use crate::device::{selected_ones, selection, DeviceView, DiscoveryView, LIVE_TIMEOUT_MS, PROBE_TIMEOUT_MS};
use crate::device::discovery::{
    asked_before, device_precedes, indexes_of, introduction_at, nodes_worth_asking, probe_at, probes_at,
    with_open_failure, worth_asking, ProbeView,
};
use crate::device::identity::device_name_at;
use crate::error::{error_text, ErrorView, Outcome};
use crate::hid::EndpointView;
use crate::hidpp::features::{discovery_at, FeatureView};
use crate::hidpp::protocol::ProtocolVersion;
use crate::hidpp::session::{allowed_nanoseconds, ping_at, ping_request, Exchange, Step, Wire};
use crate::number::{number_is_in_range, number_of};
use crate::text::{dec, lowered, occurs, text_before, text_order_is_total};

verus! {

/// Whether a node is a receiver: its product ID starts with c5.
pub open spec fn receives(endpoint: EndpointView) -> bool {
    endpoint.product_id / 256 == 0xc5
}

/// Whether a node is a receiver that takes a single device.
pub open spec fn receives_one(endpoint: EndpointView) -> bool {
    receives(endpoint) && (set![0x39int, 0x3a, 0x3d, 0x3f, 0x41, 0x45, 0x47, 0x4d]).contains(
        (endpoint.product_id % 256) as int,
    )
}

/// Whether a node is that of a mouse or a keyboard at a cable: by the ranges of its product ID, or by its second
/// interface with a usage page of the vendor, unless it calls itself a receiver.
pub open spec fn is_cabled(endpoint: EndpointView) -> bool {
    ||| endpoint.product_id / 256 == 0xc0 && endpoint.product_id % 256 >= 0x7d
    ||| endpoint.product_id / 256 == 0xc3 && endpoint.product_id % 256 >= 0x2b
    ||| endpoint.interface_number == 2 && endpoint.usage_page / 256 == 0xff && match endpoint.product {
        Some(product) => !occurs(lowered(product), "receiver"@),
        None => true,
    }
}

/// Whether a node has the interface or the usage page that HID++ is spoken over.
pub open spec fn may_speak(endpoint: EndpointView) -> bool {
    endpoint.interface_number == 2 || endpoint.usage_page / 256 == 0xff
}

/// What a node is follows from its IDs: a receiver, a device at a cable, one that HID++ is spoken over.
pub proof fn nodes_are_told_by_ids(endpoint: EndpointView)
    ensures
        endpoint.is_receiver() <==> receives(endpoint),
        endpoint.is_direct_hidpp_device() <==> is_cabled(endpoint),
        endpoint.is_probable_hidpp_interface() <==> may_speak(endpoint),
        worth_asking(endpoint) <==> may_speak(endpoint) && (receives(endpoint) || is_cabled(endpoint)),
{
}

/// A node that is no receiver is asked for index 0xff alone; a receiver that takes a single device for index 1 alone;
/// and any other receiver for the indexes from 1 to 6 in their order.
pub proof fn nodes_are_asked_for_their_indexes(endpoint: EndpointView)
    ensures
        !receives(endpoint) ==> indexes_of(endpoint) == seq![0xffu8],
        receives_one(endpoint) ==> indexes_of(endpoint) == seq![1u8],
        receives(endpoint) && !receives_one(endpoint) ==> indexes_of(endpoint).len() == 6 && forall|i: int|
            0 <= i < 6 ==> #[trigger] indexes_of(endpoint)[i] == i + 1,
{
    let known = set![0x39int, 0x3a, 0x3d, 0x3f, 0x41, 0x45, 0x47, 0x4d];
    let low = (endpoint.product_id % 256) as int;
    assert(known.contains(low) <==> low == 0x39 || low == 0x3a || low == 0x3d || low == 0x3f || low == 0x41 || low
        == 0x45 || low == 0x47 || low == 0x4d);
}

/// The nodes that are asked are those worth asking, in the order that they are in.
pub proof fn nodes_to_ask_are_picked(endpoints: Seq<EndpointView>)
    ensures
        nodes_worth_asking(endpoints) == endpoints.filter(
            |endpoint: EndpointView| may_speak(endpoint) && (receives(endpoint) || is_cabled(endpoint)),
        ),
    decreases endpoints.len(),
{
    reveal(Seq::filter);
    if endpoints.len() > 0 {
        nodes_to_ask_are_picked(endpoints.drop_last());
        nodes_are_told_by_ids(endpoints.last());
    }
}

/// A node with interface 2 is asked before one without; where that decides nothing, one with a usage page of the vendor
/// before one without; and where that decides nothing either, the one with the lower product ID.
pub proof fn nodes_are_asked_in_order(a: EndpointView, b: EndpointView)
    ensures
        asked_before(a, b) <==> {
            if (a.interface_number == 2) != (b.interface_number == 2) {
                a.interface_number == 2
            } else if (a.usage_page / 256 == 0xff) != (b.usage_page / 256 == 0xff) {
                a.usage_page / 256 == 0xff
            } else {
                a.product_id < b.product_id
            }
        },
{
}

/// Devices are listed by their names, and those of one name by their indexes.
pub proof fn devices_are_listed_by_name(a: DeviceView, b: DeviceView)
    ensures
        device_precedes(a, b) <==> (if a.name == b.name {
            a.device_index < b.device_index
        } else {
            text_before(a.name, b.name)
        }),
{
    if a.name == b.name {
        text_order_is_total(a.name, b.name);
    }
}

/// Whether an exchange asks a device for the version of the protocol: with function 1 of the feature at index 0 and three
/// zeros.
pub open spec fn asks_version(wire: Wire, at: int, long: bool) -> bool {
    &&& 0 <= at < wire.exchanges.len()
    &&& wire.exchanges[at].request.device_index == wire.device_index
    &&& wire.exchanges[at].request.feature_index == 0
    &&& wire.exchanges[at].request.function == 0x10
    &&& wire.exchanges[at].request.parameters == seq![0u8, 0u8, 0u8]
    &&& wire.exchanges[at].request.long == long
    &&& wire.exchanges[at].awaits_reply
    &&& !wire.exchanges[at].retry
}

/// Whether asking for the version came to what a reply says: its first two bytes are the two numbers.
pub open spec fn tells_version(step: Step<ProtocolVersion>, reply: Seq<u8>, next: int) -> bool {
    match step {
        Step::Done { value, next: end } => reply.len() >= 2 && end == next && value.major == reply[0] && value.minor
            == reply[1],
        Step::Failed { next: end, .. } => reply.len() < 2 && end == next,
        Step::Astray => false,
    }
}

/// A device is asked for the version in a short report, and in a long one when its time runs out. The reply starts with
/// the two numbers of the version. Without an answer to either, the device is silent.
pub proof fn version_is_asked_for(wire: Wire, at: int)
    requires
        asks_version(wire, at, false),
    ensures
        ({
            let short = wire.exchanges[at].reply;
            let long = wire.exchanges[at + 1].reply;
            match short {
                Ok(reply) => tells_version(ping_at(wire, at), reply, at + 1),
                Err(error) => if !(error is Timeout) {
                    ping_at(wire, at) == (Step::<ProtocolVersion>::Failed { error, next: at + 1 })
                } else {
                    asks_version(wire, at + 1, true) ==> match long {
                        Ok(reply) => tells_version(ping_at(wire, at), reply, at + 2),
                        Err(error) => ping_at(wire, at) == (Step::<ProtocolVersion>::Failed { error, next: at + 2 }),
                    }
                },
            }
        }),
{
    assert(wire.exchanges[at].request == ping_request(wire.device_index, false));
    if asks_version(wire, at + 1, true) {
        assert(wire.exchanges[at + 1].request == ping_request(wire.device_index, true));
    }
}

/// What asking for an index comes to. A device of version 2 or newer is asked for its features and its name; an older one
/// is passed over, and so is a silent one. Where the first index of a receiver that takes a single device is silent,
/// nothing more is asked. Any other error is a problem that is told.
pub proof fn index_is_asked(wire: Wire, at: int, endpoint: EndpointView, first: bool)
    ensures
        match ping_at(wire, at) {
            Step::Astray => true,
            Step::Done { value: protocol, next } => if protocol.major >= 2 {
                probe_at(wire, at, endpoint, first) == introduction_at(wire, next, endpoint, protocol)
            } else {
                probe_at(wire, at, endpoint, first) == (Step::Done { value: ProbeView::Nothing, next })
            },
            Step::Failed { error, next } => if !(error is Timeout) {
                probe_at(wire, at, endpoint, first) == (Step::Done { value: ProbeView::Problem(error), next })
            } else if first && receives_one(endpoint) {
                probe_at(wire, at, endpoint, first) == (Step::Done { value: ProbeView::NothingMore, next })
            } else {
                probe_at(wire, at, endpoint, first) == (Step::Done { value: ProbeView::Nothing, next })
            },
        },
{
    reveal(probe_at);
    let known = set![0x39int, 0x3a, 0x3d, 0x3f, 0x41, 0x45, 0x47, 0x4d];
    let low = (endpoint.product_id % 256) as int;
    assert(known.contains(low) <==> low == 0x39 || low == 0x3a || low == 0x3d || low == 0x3f || low == 0x41 || low
        == 0x45 || low == 0x47 || low == 0x4d);
}

/// A device that tells its features is found, under the name that it tells, or else under that of its node, or else under
/// one with its index. One that does not tell its features is a problem.
pub proof fn device_is_introduced(wire: Wire, at: int, endpoint: EndpointView, protocol: ProtocolVersion)
    ensures
        match discovery_at(wire, at) {
            Step::Astray => true,
            Step::Failed { error, next } => introduction_at(wire, at, endpoint, protocol) == (Step::Done {
                value: ProbeView::Problem(error),
                next,
            }),
            Step::Done { value: features, next } => match device_name_at(wire, next, features) {
                Step::Astray => true,
                Step::Done { value: name, next } => introduction_at(wire, at, endpoint, protocol) == (Step::Done {
                    value: ProbeView::Found { protocol, name, features },
                    next,
                }),
                Step::Failed { next, .. } => introduction_at(wire, at, endpoint, protocol) matches Step::Done {
                    value: ProbeView::Found { protocol: spoken, name, features: told },
                    next: end,
                } && spoken == protocol && told == features && end == next && match endpoint.product {
                    Some(product) => name == product,
                    None => name == "Logitech HID++ device "@ + dec(wire.device_index as nat),
                },
            },
        },
{
}

/// The indexes of a node are asked for one behind the other. A device that is found under an index joins the list, with
/// its node and that index, unless one of the same product, index and name is on it. A problem is told with the path of
/// the node and the index.
pub proof fn indexes_are_asked_in_turn(
    exchanges: Seq<Exchange>,
    at: int,
    endpoint: EndpointView,
    position: int,
    index: u8,
    discovery: DiscoveryView,
)
    requires
        if !receives(endpoint) {
            position == 0 && index == 0xff
        } else if receives_one(endpoint) {
            position == 0 && index == 1
        } else {
            0 <= position < 6 && index == position + 1
        },
    ensures
        match probe_at(Wire { device_index: index, exchanges }, at, endpoint, position == 0) {
            Step::Done { value: ProbeView::NothingMore, next } => probes_at(exchanges, at, endpoint, position, discovery)
                == (Step::Done { value: discovery, next }),
            Step::Done { value: ProbeView::Nothing, next } => probes_at(exchanges, at, endpoint, position, discovery)
                == probes_at(exchanges, next, endpoint, position + 1, discovery),
            Step::Done { value: ProbeView::Problem(error), next } => probes_at(
                exchanges,
                at,
                endpoint,
                position,
                discovery,
            ) == probes_at(
                exchanges,
                next,
                endpoint,
                position + 1,
                (DiscoveryView {
                    probe_errors: discovery.probe_errors.push(
                        endpoint.path + " index "@ + dec(index as nat) + ": "@ + error_text(error),
                    ),
                    ..discovery
                }),
            ),
            Step::Done { value: ProbeView::Found { protocol, name, features }, next } => probes_at(
                exchanges,
                at,
                endpoint,
                position,
                discovery,
            ) == probes_at(
                exchanges,
                next,
                endpoint,
                position + 1,
                if exists|i: int|
                    0 <= i < discovery.devices.len() && (#[trigger] discovery.devices[i]).endpoint.product_id
                        == endpoint.product_id && discovery.devices[i].device_index == index
                        && discovery.devices[i].name == name {
                    discovery
                } else {
                    DiscoveryView {
                        devices: discovery.devices.push(
                            DeviceView { endpoint, device_index: index, protocol, name, features },
                        ),
                        ..discovery
                    }
                },
            ),
            _ => true,
        },
{
    nodes_are_asked_for_their_indexes(endpoint);
    assert(indexes_of(endpoint)[position] == index);
}

/// A mouse at a cable that answers is found: its node is asked for index 0xff and for nothing else.
pub proof fn cabled_mouse_is_found(
    exchanges: Seq<Exchange>,
    at: int,
    endpoint: EndpointView,
    protocol: ProtocolVersion,
    name: Seq<char>,
    features: Seq<FeatureView>,
    next: int,
    discovery: DiscoveryView,
)
    requires
        !receives(endpoint),
        probe_at(Wire { device_index: 0xff, exchanges }, at, endpoint, true) == (Step::Done {
            value: ProbeView::Found { protocol, name, features },
            next,
        }),
        discovery.devices.len() == 0,
    ensures
        probes_at(exchanges, at, endpoint, 0, discovery) matches Step::Done { value, next: end } && end == next
            && value.devices == seq![DeviceView { endpoint, device_index: 0xff, protocol, name, features }]
            && value.probe_errors == discovery.probe_errors,
{
    indexes_are_asked_in_turn(exchanges, at, endpoint, 0, 0xff, discovery);
    nodes_are_asked_for_their_indexes(endpoint);
    let value = probes_at(exchanges, at, endpoint, 0, discovery)->value;
    assert(value.devices =~= seq![DeviceView { endpoint, device_index: 0xff, protocol, name, features }]);
}

/// A node that cannot be opened is told of, and its path is kept where the right to open it is missing.
pub proof fn closed_node_is_told_of(discovery: DiscoveryView, error: ErrorView)
    ensures
        with_open_failure(discovery, error).devices == discovery.devices,
        with_open_failure(discovery, error).endpoints == discovery.endpoints,
        with_open_failure(discovery, error).probe_errors == discovery.probe_errors.push(error_text(error)),
        with_open_failure(discovery, error).permission_denied_paths == (match error {
            ErrorView::PermissionDenied { path } => discovery.permission_denied_paths.push(path),
            _ => discovery.permission_denied_paths,
        }),
{
}

/// Whether a selector means a device: it is a part of its name, or its path, or its serial number, whatever the case of
/// the letters.
pub open spec fn means(selector: Seq<char>, device: DeviceView) -> bool {
    ||| occurs(lowered(device.name), lowered(selector))
    ||| lowered(device.endpoint.path) == lowered(selector)
    ||| match device.endpoint.serial_number {
        Some(serial) => lowered(serial) == lowered(selector),
        None => false,
    }
}

/// The devices that a selector means are those and no others, in their order.
pub proof fn meant_devices_are_picked(selector: Seq<char>, devices: Seq<DeviceView>)
    ensures
        selected_ones(selector, devices) == devices.filter(|device: DeviceView| means(selector, device)),
    decreases devices.len(),
{
    reveal(Seq::filter);
    if devices.len() > 0 {
        meant_devices_are_picked(selector, devices.drop_last());
    }
}

/// Which device is meant. Without a selector, the only one. By a number, the one at that place, counted from one. By any
/// other selector, the only one that it means. Where there is no device, none that is meant, or more than one, each is an
/// error of its own.
pub proof fn meant_device_is_selected(devices: Seq<DeviceView>, selector: Option<Seq<char>>)
    ensures
        devices.len() == 0 ==> selection(devices, selector) == Outcome::<DeviceView>::Err(ErrorView::NoDevice),
        devices.len() == 1 && selector is None ==> selection(devices, selector) == Outcome::Ok(devices[0]),
        devices.len() > 1 && selector is None ==> (selection(devices, selector) matches Err(error)
            && error is AmbiguousDevice),
        devices.len() > 0 && selector is Some ==> ({
            let text = selector->0;
            let meant = devices.filter(|device: DeviceView| means(text, device));
            match number_of(text, 10, usize::MAX as int) {
                Ok(number) => if 1 <= number <= devices.len() {
                    selection(devices, selector) == Outcome::Ok(devices[number - 1])
                } else if number == 0 {
                    selection(devices, selector) == Outcome::Ok(devices[0])
                } else {
                    selection(devices, selector) == Outcome::<DeviceView>::Err(ErrorView::DeviceNotFound(text))
                },
                Err(_) => if meant.len() == 0 {
                    selection(devices, selector) == Outcome::<DeviceView>::Err(ErrorView::DeviceNotFound(text))
                } else if meant.len() == 1 {
                    selection(devices, selector) == Outcome::Ok(meant[0])
                } else {
                    selection(devices, selector) == Outcome::<DeviceView>::Err(ErrorView::AmbiguousDevice(text))
                },
            }
        }),
{
    if let Some(text) = selector {
        meant_devices_are_picked(text, devices);
        number_is_in_range(text, 10, usize::MAX as int);
    }
}

/// A device has three quarters of a second for an answer, while it is looked for and when it was selected.
pub proof fn devices_have_time_to_answer()
    ensures
        4 * allowed_nanoseconds(LIVE_TIMEOUT_MS) == 3_000_000_000,
        4 * allowed_nanoseconds(PROBE_TIMEOUT_MS) == 3_000_000_000,
{
}

}
