//! The features of a device and where it keeps them.

use vstd::prelude::*;

use crate::bytes::{high, high_of, low, low_of, word, word_of};
use crate::error::{outcome, AppError, ErrorView, Outcome, Result};
use crate::hid::transport::HidIo;
use crate::hidpp::protocol::HidppTransport;
use crate::hidpp::session::{grown, group_session, read_at, reached, Step, Wire};
use crate::text::{dec, decimal, hex4, hex_word, join3, join5};

verus! {

broadcast use group_session;

pub const ROOT: u16 = 0x0000;

pub const FEATURE_SET: u16 = 0x0001;

pub const DEVICE_FW_VERSION: u16 = 0x0003;

pub const DEVICE_NAME: u16 = 0x0005;

pub const DEVICE_FRIENDLY_NAME: u16 = 0x0007;

pub const BATTERY_STATUS: u16 = 0x1000;

pub const BATTERY_VOLTAGE: u16 = 0x1001;

pub const UNIFIED_BATTERY: u16 = 0x1004;

pub const ADJUSTABLE_DPI: u16 = 0x2201;

pub const EXTENDED_ADJUSTABLE_DPI: u16 = 0x2202;

pub const REPORT_RATE: u16 = 0x8060;

pub const EXTENDED_REPORT_RATE: u16 = 0x8061;

pub const COLOR_LED_EFFECTS: u16 = 0x8070;

pub const RGB_EFFECTS: u16 = 0x8071;

pub const ONBOARD_PROFILES: u16 = 0x8100;

/// The name of a feature.
pub open spec fn name_of_feature(id: u16) -> Seq<char> {
    if id == ROOT {
        "ROOT"@
    } else if id == FEATURE_SET {
        "FEATURE_SET"@
    } else if id == 0x0002 {
        "FEATURE_INFO"@
    } else if id == DEVICE_FW_VERSION {
        "DEVICE_FW_VERSION"@
    } else if id == 0x0004 {
        "DEVICE_UNIT_ID"@
    } else if id == DEVICE_NAME {
        "DEVICE_NAME"@
    } else if id == DEVICE_FRIENDLY_NAME {
        "DEVICE_FRIENDLY_NAME"@
    } else if id == 0x0020 {
        "CONFIG_CHANGE"@
    } else if id == BATTERY_STATUS {
        "BATTERY_STATUS"@
    } else if id == BATTERY_VOLTAGE {
        "BATTERY_VOLTAGE"@
    } else if id == UNIFIED_BATTERY {
        "UNIFIED_BATTERY"@
    } else if id == 0x1500 {
        "FORCE_PAIRING"@
    } else if id == 0x1802 {
        "DEVICE_RESET"@
    } else if id == 0x1805 {
        "OOBSTATE"@
    } else if id == 0x1806 {
        "CONFIG_DEVICE_PROPS"@
    } else if id == 0x1d4b {
        "WIRELESS_DEVICE_STATUS"@
    } else if id == 0x1e00 {
        "ENABLE_HIDDEN_FEATURES"@
    } else if id == ADJUSTABLE_DPI {
        "ADJUSTABLE_DPI"@
    } else if id == EXTENDED_ADJUSTABLE_DPI {
        "EXTENDED_ADJUSTABLE_DPI"@
    } else if id == 0x2250 {
        "XY_STATS"@
    } else if id == 0x2251 {
        "WHEEL_STATS"@
    } else if id == REPORT_RATE {
        "REPORT_RATE"@
    } else if id == EXTENDED_REPORT_RATE {
        "EXTENDED_ADJUSTABLE_REPORT_RATE"@
    } else if id == 0x8090 {
        "MODE_STATUS"@
    } else if id == 0x80e0 {
        "BUNNY_HOPPING"@
    } else if id == COLOR_LED_EFFECTS {
        "COLOR_LED_EFFECTS"@
    } else if id == RGB_EFFECTS {
        "RGB_EFFECTS"@
    } else if id == ONBOARD_PROFILES {
        "ONBOARD_PROFILES"@
    } else if id == 0x8110 {
        "MOUSE_BUTTON_SPY"@
    } else {
        "UNKNOWN"@
    }
}

/// The name of a feature.
pub fn feature_name(id: u16) -> (name: &'static str)
    ensures
        name@ == name_of_feature(id),
{
    if id == ROOT {
        "ROOT"
    } else if id == FEATURE_SET {
        "FEATURE_SET"
    } else if id == 0x0002 {
        "FEATURE_INFO"
    } else if id == DEVICE_FW_VERSION {
        "DEVICE_FW_VERSION"
    } else if id == 0x0004 {
        "DEVICE_UNIT_ID"
    } else if id == DEVICE_NAME {
        "DEVICE_NAME"
    } else if id == DEVICE_FRIENDLY_NAME {
        "DEVICE_FRIENDLY_NAME"
    } else if id == 0x0020 {
        "CONFIG_CHANGE"
    } else if id == BATTERY_STATUS {
        "BATTERY_STATUS"
    } else if id == BATTERY_VOLTAGE {
        "BATTERY_VOLTAGE"
    } else if id == UNIFIED_BATTERY {
        "UNIFIED_BATTERY"
    } else if id == 0x1500 {
        "FORCE_PAIRING"
    } else if id == 0x1802 {
        "DEVICE_RESET"
    } else if id == 0x1805 {
        "OOBSTATE"
    } else if id == 0x1806 {
        "CONFIG_DEVICE_PROPS"
    } else if id == 0x1d4b {
        "WIRELESS_DEVICE_STATUS"
    } else if id == 0x1e00 {
        "ENABLE_HIDDEN_FEATURES"
    } else if id == ADJUSTABLE_DPI {
        "ADJUSTABLE_DPI"
    } else if id == EXTENDED_ADJUSTABLE_DPI {
        "EXTENDED_ADJUSTABLE_DPI"
    } else if id == 0x2250 {
        "XY_STATS"
    } else if id == 0x2251 {
        "WHEEL_STATS"
    } else if id == REPORT_RATE {
        "REPORT_RATE"
    } else if id == EXTENDED_REPORT_RATE {
        "EXTENDED_ADJUSTABLE_REPORT_RATE"
    } else if id == 0x8090 {
        "MODE_STATUS"
    } else if id == 0x80e0 {
        "BUNNY_HOPPING"
    } else if id == COLOR_LED_EFFECTS {
        "COLOR_LED_EFFECTS"
    } else if id == RGB_EFFECTS {
        "RGB_EFFECTS"
    } else if id == ONBOARD_PROFILES {
        "ONBOARD_PROFILES"
    } else if id == 0x8110 {
        "MOUSE_BUTTON_SPY"
    } else {
        "UNKNOWN"
    }
}

/// A feature of a device: what it is and under which index the device answers for it.
#[derive(Debug, PartialEq, Eq)]
pub struct Feature {
    pub index: u8,
    pub id: u16,
    pub name: String,
    pub feature_type: u8,
    pub version: u8,
}

/// A [`Feature`] with its name as a sequence of characters.
pub struct FeatureView {
    pub index: u8,
    pub id: u16,
    pub name: Seq<char>,
    pub feature_type: u8,
    pub version: u8,
}

impl View for Feature {
    type V = FeatureView;

    open spec fn view(&self) -> FeatureView {
        FeatureView {
            index: self.index,
            id: self.id,
            name: self.name@,
            feature_type: self.feature_type,
            version: self.version,
        }
    }
}

impl Clone for Feature {
    fn clone(&self) -> (copy: Self)
        ensures
            copy@ == self@,
    {
        Feature {
            index: self.index,
            id: self.id,
            name: self.name.clone(),
            feature_type: self.feature_type,
            version: self.version,
        }
    }
}

/// The features of a device, in the order in which it lists them.
#[derive(Debug, PartialEq, Eq)]
pub struct FeatureTable {
    pub features: Vec<Feature>,
}

impl View for FeatureTable {
    type V = Seq<FeatureView>;

    open spec fn view(&self) -> Seq<FeatureView> {
        self.features@.map_values(|feature: Feature| feature@)
    }
}

impl Default for FeatureTable {
    fn default() -> (table: Self)
        ensures
            table@ == Seq::<FeatureView>::empty(),
    {
        let table = FeatureTable { features: Vec::new() };
        assert(table@ =~= Seq::empty());
        table
    }
}

impl Clone for FeatureTable {
    fn clone(&self) -> (copy: Self)
        ensures
            copy@ == self@,
    {
        let mut features: Vec<Feature> = Vec::new();
        let mut i: usize = 0;
        while i < self.features.len()
            invariant
                i <= self.features.len(),
                features@.len() == i,
                forall|k: int| 0 <= k < i ==> #[trigger] features@[k]@ == self.features@[k]@,
            decreases self.features.len() - i,
        {
            features.push(self.features[i].clone());
            i = i + 1;
        }
        let copy = FeatureTable { features };
        assert(copy@ =~= self@);
        copy
    }
}

/// The first feature of a table with the given ID.
pub open spec fn find_feature(table: Seq<FeatureView>, id: u16) -> Option<FeatureView>
    decreases table.len(),
{
    if table.len() == 0 {
        None
    } else if table[0].id == id {
        Some(table[0])
    } else {
        find_feature(table.skip(1), id)
    }
}

/// The first feature of a table with the given ID, or the error that the device does not have it.
pub open spec fn required_feature(table: Seq<FeatureView>, id: u16) -> Outcome<FeatureView> {
    match find_feature(table, id) {
        Some(feature) => Ok(feature),
        None => Err(ErrorView::UnsupportedFeature { id, name: name_of_feature(id) }),
    }
}

/// What the root feature's reply says of a feature.
pub open spec fn looked_up(id: u16, reply: Seq<u8>) -> Outcome<FeatureView> {
    if reply.len() < 3 {
        Err(ErrorView::Other("ROOT.GetFeature(0x"@ + hex4(id, false) + ") returned fewer than 3 bytes"@))
    } else {
        Ok(
            FeatureView {
                index: reply[0],
                id,
                name: name_of_feature(id),
                feature_type: reply[1],
                version: reply[2],
            },
        )
    }
}

/// Asking the root feature where another feature is.
pub open spec fn lookup_at(wire: Wire, at: int, id: u16) -> Step<FeatureView> {
    match read_at(wire, at, 0, 0x00, seq![high_of(id), low_of(id)]) {
        Step::Done { value, next } => reached(looked_up(id, value), next),
        step => step.stop(),
    }
}

/// What the feature set's reply says of the feature at an index.
pub open spec fn listed(index: u8, reply: Seq<u8>) -> Outcome<FeatureView> {
    if reply.len() < 4 {
        Err(
            ErrorView::Other(
                "FEATURE_SET.GetFeatureId("@ + dec(index as nat) + ") returned "@ + dec(reply.len())
                    + " bytes; expected 4"@,
            ),
        )
    } else {
        Ok(
            FeatureView {
                index,
                id: word_of(reply[0], reply[1]),
                name: name_of_feature(word_of(reply[0], reply[1])),
                feature_type: reply[2],
                version: reply[3],
            },
        )
    }
}

/// Asking the feature set for the features from `index` to `count`, one by one, after those in `known`.
pub open spec fn listing_at(
    wire: Wire,
    at: int,
    set_index: u8,
    index: int,
    count: int,
    known: Seq<FeatureView>,
) -> Step<Seq<FeatureView>>
    decreases count + 1 - index,
{
    if index > count {
        Step::Done { value: known, next: at }
    } else {
        match read_at(wire, at, set_index, 0x10, seq![index as u8]) {
            Step::Done { value, next } => match listed(index as u8, value) {
                Ok(feature) => listing_at(wire, next, set_index, index + 1, count, known.push(feature)),
                Err(error) => Step::Failed { error, next },
            },
            step => step.stop(),
        }
    }
}

/// Asking a device for all its features.
#[verifier::opaque]
pub open spec fn discovery_at(wire: Wire, at: int) -> Step<Seq<FeatureView>> {
    match lookup_at(wire, at, FEATURE_SET) {
        Step::Done { value: set, next } => if set.index == 0 {
            Step::Failed {
                error: ErrorView::UnsupportedFeature { id: FEATURE_SET, name: name_of_feature(FEATURE_SET) },
                next,
            }
        } else {
            match read_at(wire, next, set.index, 0x00, Seq::empty()) {
                Step::Done { value, next } => if value.len() == 0 {
                    Step::Failed { error: ErrorView::Other("FEATURE_SET.GetCount returned no count"@), next }
                } else {
                    listing_at(wire, next, set.index, 0, value[0] as int, Seq::empty())
                },
                step => step.stop(),
            }
        },
        step => step.stop(),
    }
}

/// Asks the root feature where the feature with the given ID is.
pub fn lookup_feature<I: HidIo>(transport: &mut HidppTransport<I>, id: u16) -> (feature: Result<Feature>)
    ensures
        grown(old(transport)@, final(transport)@),
        final(transport).held() == old(transport).held(),
        forall|wire: Wire|
            wire.covers(final(transport)@) ==> #[trigger] lookup_at(wire, old(transport)@.mark(), id) == reached(
                outcome(feature),
                final(transport)@.mark(),
            ),
{
    let parameters = [high(id), low(id)];
    assert(parameters@ =~= seq![high_of(id), low_of(id)]);
    let response = transport.transact_read(0, 0x00, &parameters)?;
    if response.len() < 3 {
        return Err(
            AppError::Other(
                join3("ROOT.GetFeature(0x", hex_word(id, false).as_str(), ") returned fewer than 3 bytes"),
            ),
        );
    }
    Ok(
        Feature {
            index: response[0],
            id,
            name: feature_name(id).to_owned(),
            feature_type: response[1],
            version: response[2],
        },
    )
}

impl FeatureTable {
    /// Asks a device for all its features.
    pub fn discover<I: HidIo>(transport: &mut HidppTransport<I>) -> (table: Result<Self>)
        ensures
            grown(old(transport)@, final(transport)@),
            final(transport).held() == old(transport).held(),
            forall|wire: Wire|
                wire.covers(final(transport)@) ==> #[trigger] discovery_at(wire, old(transport)@.mark()) == reached(
                    outcome(table),
                    final(transport)@.mark(),
                ),
    {
        reveal(discovery_at);

        let feature_set = lookup_feature(transport, FEATURE_SET)?;
        if feature_set.index == 0 {
            return Err(AppError::UnsupportedFeature { id: FEATURE_SET, name: feature_name(FEATURE_SET) });
        }
        let nothing: [u8; 0] = [];
        assert(nothing@ =~= Seq::empty());
        let count_response = transport.transact_read(feature_set.index, 0x00, &nothing)?;
        if count_response.len() == 0 {
            return Err(AppError::Other("FEATURE_SET.GetCount returned no count".to_owned()));
        }
        let count: u8 = count_response[0];
        let set_index: u8 = feature_set.index;
        let mut features: Vec<Feature> = Vec::new();
        let mut index: u16 = 0;
        let ghost mut known: Seq<FeatureView> = Seq::empty();
        while index <= count as u16
            invariant
                index <= count + 1,
                grown(old(transport)@, transport@),
                transport.held() == old(transport).held(),
                known =~= features@.map_values(|feature: Feature| feature@),
                forall|wire: Wire|
                    wire.covers(transport@) ==> #[trigger] discovery_at(wire, old(transport)@.mark()) == listing_at(
                        wire,
                        transport@.mark(),
                        set_index,
                        index as int,
                        count as int,
                        known,
                    ),
            decreases count + 1 - index,
        {
            let parameters = [index as u8];
            assert(parameters@ =~= seq![index as u8]);
            let response = transport.transact_read(set_index, 0x10, &parameters)?;
            if response.len() < 4 {
                return Err(
                    AppError::Other(
                        join5(
                            "FEATURE_SET.GetFeatureId(",
                            decimal(index as u64).as_str(),
                            ") returned ",
                            decimal(response.len() as u64).as_str(),
                            " bytes; expected 4",
                        ),
                    ),
                );
            }
            let id = word(response[0], response[1]);
            let feature = Feature {
                index: index as u8,
                id,
                name: feature_name(id).to_owned(),
                feature_type: response[2],
                version: response[3],
            };
            proof {
                known = known.push(feature@);
            }
            features.push(feature);
            index = index + 1;
        }
        let table = FeatureTable { features };
        assert(table@ == known);
        Ok(table)
    }

    /// The first feature with the given ID.
    pub fn get(&self, id: u16) -> (feature: Option<&Feature>)
        ensures
            match feature {
                Some(feature) => find_feature(self@, id) == Some(feature@),
                None => find_feature(self@, id) is None,
            },
    {
        let mut i: usize = 0;
        assert(self@.skip(0) =~= self@);
        while i < self.features.len()
            invariant
                i <= self.features.len(),
                find_feature(self@, id) == find_feature(self@.skip(i as int), id),
            decreases self.features.len() - i,
        {
            if self.features[i].id == id {
                return Some(&self.features[i]);
            }
            assert(self@.skip(i as int).skip(1) =~= self@.skip(i + 1));
            i = i + 1;
        }
        None
    }

    /// The first feature with the given ID, or the error that the device does not have it.
    pub fn require(&self, id: u16) -> (feature: Result<&Feature>)
        ensures
            outcome(feature) == required_feature(self@, id),
    {
        match self.get(id) {
            Some(feature) => Ok(feature),
            None => Err(AppError::UnsupportedFeature { id, name: feature_name(id) }),
        }
    }
}

}
