//! HID nodes: what the system lists, and which of them can speak HID++.

pub mod clock;
pub mod descriptor;
pub mod items;
pub mod transport;

use vstd::prelude::*;

use crate::order::{in_order, orders, placed, placed_in_order, slot, slot_fits, slot_found};
use crate::text::{
    comes_before, contains_text, copy_option, lowercase, lowered, occurs, same_text, text_before, text_option,
    text_order_is_total, text_order_is_transitive,
};

verus! {

pub const LOGITECH_VENDOR_ID: u16 = 0x046d;

/// A HID node of a device, with everything that its top-level collections say of it.
#[derive(Debug, PartialEq, Eq)]
pub struct HidEndpoint {
    pub path: String,
    pub vendor_id: u16,
    pub product_id: u16,
    pub serial_number: Option<String>,
    pub manufacturer: Option<String>,
    pub product: Option<String>,
    pub usage_page: u16,
    pub usage: u16,
    pub collections: Vec<HidCollection>,
    pub interface_number: i32,
    pub bus_type: String,
}

/// The usage of a top-level collection.
#[derive(Debug, Clone, Copy, PartialEq, Eq, Structural)]
pub struct HidCollection {
    pub usage_page: u16,
    pub usage: u16,
}

/// A [`HidEndpoint`] with its texts and lists as sequences.
pub struct EndpointView {
    pub path: Seq<char>,
    pub vendor_id: u16,
    pub product_id: u16,
    pub serial_number: Option<Seq<char>>,
    pub manufacturer: Option<Seq<char>>,
    pub product: Option<Seq<char>>,
    pub usage_page: u16,
    pub usage: u16,
    pub collections: Seq<HidCollection>,
    pub interface_number: i32,
    pub bus_type: Seq<char>,
}

impl View for HidEndpoint {
    type V = EndpointView;

    open spec fn view(&self) -> EndpointView {
        EndpointView {
            path: self.path@,
            vendor_id: self.vendor_id,
            product_id: self.product_id,
            serial_number: text_option(self.serial_number),
            manufacturer: text_option(self.manufacturer),
            product: text_option(self.product),
            usage_page: self.usage_page,
            usage: self.usage,
            collections: self.collections@,
            interface_number: self.interface_number,
            bus_type: self.bus_type@,
        }
    }
}

impl Clone for HidEndpoint {
    fn clone(&self) -> (copy: Self)
        ensures
            copy@ == self@,
    {
        let mut collections: Vec<HidCollection> = Vec::new();
        let mut i: usize = 0;
        while i < self.collections.len()
            invariant
                i <= self.collections.len(),
                collections@ =~= self.collections@.take(i as int),
            decreases self.collections.len() - i,
        {
            collections.push(self.collections[i]);
            i = i + 1;
        }
        let copy = HidEndpoint {
            path: self.path.clone(),
            vendor_id: self.vendor_id,
            product_id: self.product_id,
            serial_number: copy_option(&self.serial_number),
            manufacturer: copy_option(&self.manufacturer),
            product: copy_option(&self.product),
            usage_page: self.usage_page,
            usage: self.usage,
            collections,
            interface_number: self.interface_number,
            bus_type: self.bus_type.clone(),
        };
        assert(copy@.collections =~= self@.collections);
        copy
    }
}

impl EndpointView {
    /// Whether the node belongs to a receiver, by its product ID.
    pub open spec fn is_receiver(self) -> bool {
        0xc500 <= self.product_id <= 0xc5ff
    }

    /// Whether the node looks like the HID++ interface of its device.
    pub open spec fn is_probable_hidpp_interface(self) -> bool {
        self.interface_number == 2 || self.usage_page >= 0xff00
    }

    /// Whether the node is that of a device connected by itself: by its product ID, or because it has a
    /// vendor-defined interface and does not call itself a receiver.
    pub open spec fn is_direct_hidpp_device(self) -> bool {
        ||| 0xc07d <= self.product_id <= 0xc0ff
        ||| 0xc32b <= self.product_id <= 0xc3ff
        ||| self.interface_number == 2 && self.usage_page >= 0xff00 && !(self.product matches Some(product) && occurs(
            lowered(product),
            "receiver"@,
        ))
    }
}

impl HidEndpoint {
    /// Whether the node belongs to a receiver.
    pub fn is_receiver(&self) -> (receiver: bool)
        ensures
            receiver == self@.is_receiver(),
    {
        0xc500 <= self.product_id && self.product_id <= 0xc5ff
    }

    /// Whether the node looks like the HID++ interface of its device.
    pub fn is_probable_hidpp_interface(&self) -> (probable: bool)
        ensures
            probable == self@.is_probable_hidpp_interface(),
    {
        self.interface_number == 2 || self.usage_page >= 0xff00
    }

    /// Whether the node is that of a device connected by itself.
    pub fn is_direct_hidpp_device(&self) -> (direct: bool)
        ensures
            direct == self@.is_direct_hidpp_device(),
    {
        if 0xc07d <= self.product_id && self.product_id <= 0xc0ff {
            return true;
        }
        if 0xc32b <= self.product_id && self.product_id <= 0xc3ff {
            return true;
        }
        let named_receiver = match &self.product {
            Some(product) => contains_text(lowercase(product.as_str()).as_str(), "receiver"),
            None => false,
        };
        self.interface_number == 2 && self.usage_page >= 0xff00 && !named_receiver
    }
}

/// The kind of bus that a node hangs on.
#[derive(Debug, Clone, Copy, PartialEq, Eq, Structural)]
pub enum Bus {
    Usb,
    Bluetooth,
    I2c,
    Spi,
    Unknown,
}

/// The name of a kind of bus.
pub open spec fn name_of_bus(bus: Bus) -> Seq<char> {
    match bus {
        Bus::Usb => "usb"@,
        Bus::Bluetooth => "bluetooth"@,
        Bus::I2c => "i2c"@,
        Bus::Spi => "spi"@,
        Bus::Unknown => "unknown"@,
    }
}

/// The name of a kind of bus.
pub fn bus_name(bus: Bus) -> (name: &'static str)
    ensures
        name@ == name_of_bus(bus),
{
    match bus {
        Bus::Usb => "usb",
        Bus::Bluetooth => "bluetooth",
        Bus::I2c => "i2c",
        Bus::Spi => "spi",
        Bus::Unknown => "unknown",
    }
}

/// One entry of the system's list of HID nodes. A node has an entry for each of its top-level collections.
#[derive(Debug, PartialEq, Eq)]
pub struct HidRecord {
    pub path: String,
    pub vendor_id: u16,
    pub product_id: u16,
    pub serial_number: Option<String>,
    pub manufacturer: Option<String>,
    pub product: Option<String>,
    pub collection: HidCollection,
    pub interface_number: i32,
    pub bus: Bus,
}

impl View for HidRecord {
    type V = EndpointView;

    /// The endpoint that the entry stands for by itself.
    open spec fn view(&self) -> EndpointView {
        EndpointView {
            path: self.path@,
            vendor_id: self.vendor_id,
            product_id: self.product_id,
            serial_number: text_option(self.serial_number),
            manufacturer: text_option(self.manufacturer),
            product: text_option(self.product),
            usage_page: self.collection.usage_page,
            usage: self.collection.usage,
            collections: seq![self.collection],
            interface_number: self.interface_number,
            bus_type: name_of_bus(self.bus),
        }
    }
}

/// The order of endpoints: by product, then by interface, then by path.
pub open spec fn endpoint_precedes(a: EndpointView, b: EndpointView) -> bool {
    ||| a.product_id < b.product_id
    ||| a.product_id == b.product_id && a.interface_number < b.interface_number
    ||| a.product_id == b.product_id && a.interface_number == b.interface_number && text_before(a.path, b.path)
}

/// [`endpoint_precedes`] as a value.
pub open spec fn endpoint_order() -> spec_fn(EndpointView, EndpointView) -> bool {
    |a: EndpointView, b: EndpointView| endpoint_precedes(a, b)
}

/// The endpoint with one more collection. The usage is that of the collection with the highest page.
pub open spec fn widened(endpoint: EndpointView, collection: HidCollection) -> EndpointView {
    EndpointView {
        collections: if endpoint.collections.contains(collection) {
            endpoint.collections
        } else {
            endpoint.collections.push(collection)
        },
        usage_page: if collection.usage_page > endpoint.usage_page {
            collection.usage_page
        } else {
            endpoint.usage_page
        },
        usage: if collection.usage_page > endpoint.usage_page {
            collection.usage
        } else {
            endpoint.usage
        },
        ..endpoint
    }
}

/// The place of the first endpoint with the given path, from `from` on.
pub open spec fn place_of_path(endpoints: Seq<EndpointView>, path: Seq<char>, from: int) -> Option<int>
    decreases endpoints.len() - from,
{
    if from >= endpoints.len() {
        None
    } else if endpoints[from].path == path {
        Some(from)
    } else {
        place_of_path(endpoints, path, from + 1)
    }
}

/// The endpoints with one more entry taken in: entries of other vendors are left out, an entry for a known
/// path widens its endpoint, and any other is a new endpoint in its place.
pub open spec fn absorbed(endpoints: Seq<EndpointView>, entry: EndpointView) -> Seq<EndpointView> {
    if entry.vendor_id != LOGITECH_VENDOR_ID {
        endpoints
    } else {
        match place_of_path(endpoints, entry.path, 0) {
            Some(at) => endpoints.update(at, widened(endpoints[at], entry.collections[0])),
            None => placed(endpoints, entry, endpoint_order()),
        }
    }
}

/// The endpoints that a list of entries comes to.
pub open spec fn enumerated(entries: Seq<EndpointView>) -> Seq<EndpointView>
    decreases entries.len(),
{
    if entries.len() == 0 {
        Seq::empty()
    } else {
        absorbed(enumerated(entries.drop_last()), entries.last())
    }
}

/// The views of endpoints.
pub open spec fn endpoint_views(endpoints: Seq<HidEndpoint>) -> Seq<EndpointView> {
    endpoints.map_values(|endpoint: HidEndpoint| endpoint@)
}

/// The views of entries.
pub open spec fn record_views(records: Seq<HidRecord>) -> Seq<EndpointView> {
    records.map_values(|record: HidRecord| record@)
}

fn precedes(a: &HidEndpoint, b: &HidEndpoint) -> (before: bool)
    ensures
        before == endpoint_precedes(a@, b@),
{
    if a.product_id != b.product_id {
        return a.product_id < b.product_id;
    }
    if a.interface_number != b.interface_number {
        return a.interface_number < b.interface_number;
    }
    comes_before(a.path.as_str(), b.path.as_str())
}

fn find_path(endpoints: &Vec<HidEndpoint>, path: &str) -> (place: Option<usize>)
    ensures
        match place {
            Some(at) => place_of_path(endpoint_views(endpoints@), path@, 0) == Some(at as int) && at < endpoints@.len(),
            None => place_of_path(endpoint_views(endpoints@), path@, 0) is None,
        },
{
    let mut i: usize = 0;
    while i < endpoints.len()
        invariant
            i <= endpoints.len(),
            place_of_path(endpoint_views(endpoints@), path@, 0) == place_of_path(
                endpoint_views(endpoints@),
                path@,
                i as int,
            ),
        decreases endpoints.len() - i,
    {
        if same_text(endpoints[i].path.as_str(), path) {
            return Some(i);
        }
        i = i + 1;
    }
    None
}

fn holds_collection(collections: &Vec<HidCollection>, collection: HidCollection) -> (held: bool)
    ensures
        held == collections@.contains(collection),
{
    let mut i: usize = 0;
    while i < collections.len()
        invariant
            i <= collections.len(),
            forall|k: int| 0 <= k < i ==> collections@[k] != collection,
        decreases collections.len() - i,
    {
        if collections[i] == collection {
            return true;
        }
        i = i + 1;
    }
    false
}

/// Puts the entries of the system's list together to the endpoints of this vendor, in order.
pub fn enumerate_logitech(records: &Vec<HidRecord>) -> (endpoints: Vec<HidEndpoint>)
    ensures
        endpoint_views(endpoints@) == enumerated(record_views(records@)),
{
    let mut endpoints: Vec<HidEndpoint> = Vec::new();
    let mut i: usize = 0;
    assert(endpoint_views(endpoints@) =~= enumerated(record_views(records@).take(0)));
    while i < records.len()
        invariant
            i <= records.len(),
            endpoint_views(endpoints@) == enumerated(record_views(records@).take(i as int)),
        decreases records.len() - i,
    {
        let record = &records[i];
        let ghost known = endpoint_views(endpoints@);
        proof {
            let entries = record_views(records@).take(i + 1);
            assert(entries.drop_last() =~= record_views(records@).take(i as int));
            assert(entries.last() == record@);
        }
        if record.vendor_id == LOGITECH_VENDOR_ID {
            match find_path(&endpoints, record.path.as_str()) {
                Some(at) => {
                    let mut endpoint = endpoints[at].clone();
                    if !holds_collection(&endpoint.collections, record.collection) {
                        endpoint.collections.push(record.collection);
                    }
                    if record.collection.usage_page > endpoint.usage_page {
                        endpoint.usage_page = record.collection.usage_page;
                        endpoint.usage = record.collection.usage;
                    }
                    assert(endpoint@ == widened(known[at as int], record.collection));
                    endpoints.set(at, endpoint);
                    assert(endpoint_views(endpoints@) =~= absorbed(known, record@));
                },
                None => {
                    let endpoint = HidEndpoint {
                        path: record.path.clone(),
                        vendor_id: record.vendor_id,
                        product_id: record.product_id,
                        serial_number: copy_option(&record.serial_number),
                        manufacturer: copy_option(&record.manufacturer),
                        product: copy_option(&record.product),
                        usage_page: record.collection.usage_page,
                        usage: record.collection.usage,
                        collections: vec![record.collection],
                        interface_number: record.interface_number,
                        bus_type: bus_name(record.bus).to_owned(),
                    };
                    assert(endpoint@.collections =~= record@.collections);
                    let mut at: usize = 0;
                    while at < endpoints.len() && !precedes(&endpoint, &endpoints[at])
                        invariant
                            at <= endpoints.len(),
                            known == endpoint_views(endpoints@),
                            forall|k: int| 0 <= k < at ==> !endpoint_precedes(endpoint@, #[trigger] known[k]),
                        decreases endpoints.len() - at,
                    {
                        at = at + 1;
                    }
                    proof {
                        slot_found(known, endpoint@, endpoint_order(), at as int);
                    }
                    endpoints.insert(at, endpoint);
                    assert(endpoint_views(endpoints@) =~= absorbed(known, record@));
                },
            }
        }
        i = i + 1;
    }
    assert(record_views(records@).take(records@.len() as int) =~= record_views(records@));
    endpoints
}

proof fn place_of_path_finds(endpoints: Seq<EndpointView>, path: Seq<char>, from: int)
    requires
        0 <= from <= endpoints.len(),
    ensures
        match place_of_path(endpoints, path, from) {
            Some(at) => from <= at < endpoints.len() && endpoints[at].path == path,
            None => forall|k: int| from <= k < endpoints.len() ==> (#[trigger] endpoints[k]).path != path,
        },
    decreases endpoints.len() - from,
{
    if from < endpoints.len() && endpoints[from].path != path {
        place_of_path_finds(endpoints, path, from + 1);
    }
}

proof fn endpoint_order_orders()
    ensures
        orders(endpoint_order()),
{
    let before = endpoint_order();
    assert forall|a: EndpointView, b: EndpointView| #[trigger] before(a, b) implies !before(b, a) by {
        text_order_is_total(a.path, b.path);
    }
    assert forall|a: EndpointView, b: EndpointView, c: EndpointView|
        #![trigger before(b, a), before(c, b)]
        !before(b, a) && !before(c, b) implies !before(c, a) by {
        if !text_before(b.path, a.path) && !text_before(c.path, b.path) {
            text_order_is_transitive(a.path, b.path, c.path);
        }
    }
}

/// What holds of every list of endpoints that enumeration gives.
pub open spec fn well_enumerated(endpoints: Seq<EndpointView>) -> bool {
    &&& in_order(endpoints, endpoint_order())
    &&& forall|i: int| 0 <= i < endpoints.len() ==> (#[trigger] endpoints[i]).vendor_id == LOGITECH_VENDOR_ID
    &&& forall|i: int, j: int|
        0 <= i < j < endpoints.len() ==> (#[trigger] endpoints[i]).path != (#[trigger] endpoints[j]).path
    &&& forall|i: int| 0 <= i < endpoints.len() ==> usage_is_highest(#[trigger] endpoints[i])
}

/// Whether an endpoint's collections differ from each other, and its usage is that of one of them that no
/// other exceeds.
pub open spec fn usage_is_highest(endpoint: EndpointView) -> bool {
    &&& endpoint.collections.no_duplicates()
    &&& endpoint.collections.contains(HidCollection { usage_page: endpoint.usage_page, usage: endpoint.usage })
    &&& forall|k: int|
        0 <= k < endpoint.collections.len() ==> (#[trigger] endpoint.collections[k]).usage_page <= endpoint.usage_page
}

proof fn widened_keeps_highest(endpoint: EndpointView, collection: HidCollection)
    requires
        usage_is_highest(endpoint),
    ensures
        usage_is_highest(widened(endpoint, collection)),
{
    let wide = widened(endpoint, collection);
    let chosen = HidCollection { usage_page: endpoint.usage_page, usage: endpoint.usage };
    let at = choose|at: int| 0 <= at < endpoint.collections.len() && endpoint.collections[at] == chosen;
    assert(wide.collections[at] == chosen);
    if !endpoint.collections.contains(collection) {
        assert(wide.collections.last() == collection);
        assert(wide.collections.no_duplicates());
    } else {
        let there = choose|k: int| 0 <= k < endpoint.collections.len() && endpoint.collections[k] == collection;
        assert(wide.collections[there].usage_page <= endpoint.usage_page);
    }
}

proof fn widening_keeps_well_enumerated(endpoints: Seq<EndpointView>, at: int, collection: HidCollection)
    requires
        well_enumerated(endpoints),
        0 <= at < endpoints.len(),
    ensures
        well_enumerated(endpoints.update(at, widened(endpoints[at], collection))),
{
    let after = endpoints.update(at, widened(endpoints[at], collection));
    let order = endpoint_order();
    widened_keeps_highest(endpoints[at], collection);
    assert forall|i: int, j: int| 0 <= i < j < after.len() implies !order(#[trigger] after[j], #[trigger] after[i]) by {
        assert(!order(endpoints[j], endpoints[i]));
    }
    assert forall|i: int, j: int| 0 <= i < j < after.len() implies (#[trigger] after[i]).path != (
    #[trigger] after[j]).path by {
        assert(endpoints[i].path != endpoints[j].path);
    }
}

proof fn placing_keeps_well_enumerated(endpoints: Seq<EndpointView>, entry: EndpointView)
    requires
        well_enumerated(endpoints),
        entry.vendor_id == LOGITECH_VENDOR_ID,
        usage_is_highest(entry),
        forall|k: int| 0 <= k < endpoints.len() ==> (#[trigger] endpoints[k]).path != entry.path,
    ensures
        well_enumerated(placed(endpoints, entry, endpoint_order())),
{
    let order = endpoint_order();
    let after = placed(endpoints, entry, order);
    slot_fits(endpoints, entry, order);
    let at = slot(endpoints, entry, order) as int;
    assert(in_order(after, order)) by {
        endpoint_order_orders();
        placed_in_order(endpoints, entry, order);
    }
    assert forall|i: int| 0 <= i < after.len() implies (#[trigger] after[i]).vendor_id == LOGITECH_VENDOR_ID
        && usage_is_highest(after[i]) by {
        if i < at {
            assert(after[i] == endpoints[i]);
        } else if i > at {
            assert(after[i] == endpoints[i - 1]);
        }
    }
    assert forall|i: int, j: int| 0 <= i < j < after.len() implies (#[trigger] after[i]).path != (
    #[trigger] after[j]).path by {
        let a = if i < at {
            i
        } else {
            i - 1
        };
        let b = if j < at {
            j
        } else {
            j - 1
        };
        if i == at {
            assert(after[i] == entry && after[j] == endpoints[b]);
        } else if j == at {
            assert(after[j] == entry && after[i] == endpoints[a]);
        } else {
            assert(after[i] == endpoints[a] && after[j] == endpoints[b]);
        }
    }
}

proof fn absorbed_is_well_enumerated(endpoints: Seq<EndpointView>, entry: EndpointView)
    requires
        well_enumerated(endpoints),
        entry.collections.len() == 1,
        entry.usage_page == entry.collections[0].usage_page,
        entry.usage == entry.collections[0].usage,
    ensures
        well_enumerated(absorbed(endpoints, entry)),
{
    if entry.vendor_id == LOGITECH_VENDOR_ID {
        place_of_path_finds(endpoints, entry.path, 0);
        match place_of_path(endpoints, entry.path, 0) {
            Some(at) => {
                widening_keeps_well_enumerated(endpoints, at, entry.collections[0]);
            },
            None => {
                assert(entry.collections[0] == HidCollection { usage_page: entry.usage_page, usage: entry.usage });
                placing_keeps_well_enumerated(endpoints, entry);
            },
        }
    }
}

/// Enumeration gives only this vendor's nodes, each path once, in order, each with its collections once and
/// the usage of a collection with the highest page.
pub proof fn enumeration_is_well_formed(records: Seq<HidRecord>)
    ensures
        well_enumerated(enumerated(record_views(records))),
    decreases records.len(),
{
    let entries = record_views(records);
    if records.len() > 0 {
        enumeration_is_well_formed(records.drop_last());
        assert(record_views(records.drop_last()) =~= entries.drop_last());
        absorbed_is_well_enumerated(enumerated(entries.drop_last()), entries.last());
    }
}

/// One node comes before another by its product ID, then by its interface, then by its path.
pub proof fn nodes_are_ordered(a: EndpointView, b: EndpointView)
    ensures
        endpoint_precedes(a, b) <==> (if a.product_id != b.product_id {
            a.product_id < b.product_id
        } else if a.interface_number != b.interface_number {
            a.interface_number < b.interface_number
        } else {
            text_before(a.path, b.path)
        }),
{
}

/// A collection of a node that is known joins its collections, unless it is among them. The usage of the node is then that
/// of the collection where its page is higher. Nothing else of the node changes.
pub proof fn collection_joins_node(endpoint: EndpointView, collection: HidCollection, other: HidCollection)
    ensures
        ({
            let wide = widened(endpoint, collection);
            &&& wide.path == endpoint.path
            &&& wide.vendor_id == endpoint.vendor_id
            &&& wide.product_id == endpoint.product_id
            &&& wide.serial_number == endpoint.serial_number
            &&& wide.manufacturer == endpoint.manufacturer
            &&& wide.product == endpoint.product
            &&& wide.interface_number == endpoint.interface_number
            &&& wide.bus_type == endpoint.bus_type
            &&& wide.collections.contains(other) <==> endpoint.collections.contains(other) || other == collection
            &&& endpoint.collections.is_prefix_of(wide.collections)
            &&& collection.usage_page > endpoint.usage_page ==> wide.usage_page == collection.usage_page && wide.usage
                == collection.usage
            &&& collection.usage_page <= endpoint.usage_page ==> wide.usage_page == endpoint.usage_page && wide.usage
                == endpoint.usage
        }),
{
    let wide = widened(endpoint, collection).collections;
    if !endpoint.collections.contains(collection) {
        assert(wide[endpoint.collections.len() as int] == collection);
        if endpoint.collections.contains(other) {
            let k = choose|k: int| 0 <= k < endpoint.collections.len() && endpoint.collections[k] == other;
            assert(wide[k] == other);
        }
        if wide.contains(other) && other != collection {
            let k = choose|k: int| 0 <= k < wide.len() && wide[k] == other;
            assert(endpoint.collections[k] == other);
        }
    }
}

/// Whether a list has a node with a path and a collection.
pub open spec fn lists_collection(endpoints: Seq<EndpointView>, path: Seq<char>, collection: HidCollection) -> bool {
    exists|k: int|
        0 <= k < endpoints.len() && (#[trigger] endpoints[k]).path == path && endpoints[k].collections.contains(
            collection,
        )
}

proof fn absorbing_lists_collections(
    endpoints: Seq<EndpointView>,
    entry: EndpointView,
    path: Seq<char>,
    collection: HidCollection,
)
    requires
        entry.collections.len() == 1,
    ensures
        lists_collection(absorbed(endpoints, entry), path, collection) <==> lists_collection(endpoints, path, collection)
            || (entry.vendor_id == 0x046d && entry.path == path && entry.collections[0] == collection),
{
    let after = absorbed(endpoints, entry);
    if entry.vendor_id == LOGITECH_VENDOR_ID {
        place_of_path_finds(endpoints, entry.path, 0);
        match place_of_path(endpoints, entry.path, 0) {
            Some(at) => {
                collection_joins_node(endpoints[at], entry.collections[0], collection);
                if lists_collection(endpoints, path, collection) {
                    let k = choose|k: int|
                        0 <= k < endpoints.len() && (#[trigger] endpoints[k]).path == path
                            && endpoints[k].collections.contains(collection);
                    assert(after[k].path == path && after[k].collections.contains(collection));
                }
                if entry.path == path && entry.collections[0] == collection {
                    assert(after[at].path == path && after[at].collections.contains(collection));
                }
                if lists_collection(after, path, collection) {
                    let k = choose|k: int|
                        0 <= k < after.len() && (#[trigger] after[k]).path == path && after[k].collections.contains(
                            collection,
                        );
                    assert(endpoints[k].path == path);
                }
            },
            None => {
                let order = endpoint_order();
                slot_fits(endpoints, entry, order);
                let at = slot(endpoints, entry, order) as int;
                assert(after == endpoints.insert(at, entry));
                assert(after[at] == entry);
                if lists_collection(endpoints, path, collection) {
                    let k = choose|k: int|
                        0 <= k < endpoints.len() && (#[trigger] endpoints[k]).path == path
                            && endpoints[k].collections.contains(collection);
                    let m = if k < at {
                        k
                    } else {
                        k + 1
                    };
                    assert(after[m] == endpoints[k]);
                }
                if entry.path == path && entry.collections[0] == collection {
                    assert(entry.collections.contains(collection));
                    assert(after[at].path == path && after[at].collections.contains(collection));
                }
                if lists_collection(after, path, collection) {
                    let k = choose|k: int|
                        0 <= k < after.len() && (#[trigger] after[k]).path == path && after[k].collections.contains(
                            collection,
                        );
                    if k == at {
                        assert(entry.collections[0] == collection);
                    } else if k < at {
                        assert(endpoints[k] == after[k]);
                    } else {
                        assert(endpoints[k - 1] == after[k]);
                    }
                }
            },
        }
    }
}

/// Enumeration lists every collection of every node of the vendor 046d, under the path of its node, and no others.
pub proof fn every_collection_is_listed(records: Seq<HidRecord>, path: Seq<char>, collection: HidCollection)
    ensures
        lists_collection(enumerated(record_views(records)), path, collection) <==> exists|k: int|
            {
                let entry = record_views(records)[k];
                &&& 0 <= k < records.len()
                &&& (#[trigger] records[k])@.vendor_id == 0x046d
                &&& entry.path == path
                &&& entry.collections[0] == collection
            },
    decreases records.len(),
{
    let entries = record_views(records);
    if records.len() > 0 {
        let front = records.drop_last();
        every_collection_is_listed(front, path, collection);
        assert(record_views(front) =~= entries.drop_last());
        absorbing_lists_collections(enumerated(entries.drop_last()), entries.last(), path, collection);
        assert(entries.last() == records.last()@);
        if lists_collection(enumerated(record_views(front)), path, collection) {
            let k = choose|k: int|
                {
                    let entry = record_views(front)[k];
                    &&& 0 <= k < front.len()
                    &&& (#[trigger] front[k])@.vendor_id == 0x046d
                    &&& entry.path == path
                    &&& entry.collections[0] == collection
                };
            assert(records[k] == front[k]);
        }
        if entries.last().vendor_id == 0x046d && entries.last().path == path && entries.last().collections[0]
            == collection {
            let k = records.len() - 1;
            assert(records[k]@.vendor_id == 0x046d);
        }
        if exists|k: int|
            {
                let entry = record_views(records)[k];
                &&& 0 <= k < records.len()
                &&& (#[trigger] records[k])@.vendor_id == 0x046d
                &&& entry.path == path
                &&& entry.collections[0] == collection
            } {
            let k = choose|k: int|
                {
                    let entry = record_views(records)[k];
                    &&& 0 <= k < records.len()
                    &&& (#[trigger] records[k])@.vendor_id == 0x046d
                    &&& entry.path == path
                    &&& entry.collections[0] == collection
                };
            if k < front.len() {
                assert(front[k] == records[k]);
            }
        }
    }
}

}
