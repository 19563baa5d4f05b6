//! A copy of everything that the memory of a mouse holds.

use vstd::prelude::*;

use crate::device::identity::{identity_at, read_identity, DeviceIdentity, IdentityView};
use crate::device::onboard::{
    header_views, headers_at, onboard_info_at, onboard_status_at, read_onboard_info, read_onboard_profile_headers,
    read_onboard_sector, read_onboard_status, sector_at, HeaderView, OnboardInfo, OnboardInfoView,
    OnboardProfileHeader, OnboardSector, OnboardStatus, OnboardStatusView, SectorView,
};
use crate::device::{DeviceView, LogicalDevice};
use crate::error::{outcome, Result};
use crate::hid::transport::HidIo;
use crate::hidpp::features::FeatureView;
use crate::hidpp::protocol::HidppTransport;
use crate::hidpp::session::{grown, group_session, reached, Step, Wire};

verus! {

broadcast use group_session;

/// A copy of everything that the memory of a mouse holds.
#[derive(Debug, Clone, PartialEq, Eq)]
pub struct OnboardMemoryBackup {
    pub schema_version: u8,
    pub device: DeviceIdentity,
    pub info: OnboardInfo,
    pub status: OnboardStatus,
    pub profiles: Vec<OnboardProfileHeader>,
    pub sectors: Vec<OnboardSector>,
}

/// An [`OnboardMemoryBackup`] with its texts and lists as sequences.
pub struct BackupView {
    pub schema_version: u8,
    pub device: IdentityView,
    pub info: OnboardInfoView,
    pub status: OnboardStatusView,
    pub profiles: Seq<HeaderView>,
    pub sectors: Seq<SectorView>,
}

/// The views of sectors.
pub open spec fn sector_views(sectors: Seq<OnboardSector>) -> Seq<SectorView> {
    sectors.map_values(|sector: OnboardSector| sector@)
}

impl View for OnboardMemoryBackup {
    type V = BackupView;

    open spec fn view(&self) -> BackupView {
        BackupView {
            schema_version: self.schema_version,
            device: self.device@,
            info: self.info@,
            status: self.status@,
            profiles: header_views(self.profiles@),
            sectors: sector_views(self.sectors@),
        }
    }
}

/// Reading the sectors from one on, after those that are known.
pub open spec fn sectors_at(
    wire: Wire,
    at: int,
    features: Seq<FeatureView>,
    size: u16,
    sector: int,
    count: int,
    known: Seq<SectorView>,
) -> Step<Seq<SectorView>>
    decreases count - sector,
{
    if sector >= count {
        Step::Done { value: known, next: at }
    } else {
        match sector_at(wire, at, features, sector as u16, size) {
            Step::Done { value, next } => sectors_at(wire, next, features, size, sector + 1, count, known.push(value)),
            step => step.stop(),
        }
    }
}

fn read_sectors<I: HidIo>(
    transport: &mut HidppTransport<I>,
    device: &LogicalDevice,
    size: u16,
    count: u8,
) -> (sectors: Result<Vec<OnboardSector>>)
    ensures
        grown(old(transport)@, final(transport)@),
        final(transport).held() == old(transport).held(),
        forall|wire: Wire|
            wire.covers(final(transport)@) ==> #[trigger] sectors_at(
                wire,
                old(transport)@.mark(),
                device@.features,
                size,
                0,
                count as int,
                Seq::empty(),
            ) == reached(
                match sectors {
                    Ok(sectors) => Ok(sector_views(sectors@)),
                    Err(error) => Err(error@),
                },
                final(transport)@.mark(),
            ),
{
    let mut sectors: Vec<OnboardSector> = Vec::new();
    let mut sector: u16 = 0;
    assert(sector_views(sectors@) =~= Seq::empty());
    while sector < count as u16
        invariant
            sector <= count,
            grown(old(transport)@, transport@),
            transport.held() == old(transport).held(),
            forall|wire: Wire|
                wire.covers(transport@) ==> #[trigger] sectors_at(
                    wire,
                    old(transport)@.mark(),
                    device@.features,
                    size,
                    0,
                    count as int,
                    Seq::empty(),
                ) == sectors_at(
                    wire,
                    transport@.mark(),
                    device@.features,
                    size,
                    sector as int,
                    count as int,
                    sector_views(sectors@),
                ),
        decreases count - sector,
    {
        let content = read_onboard_sector(transport, &device.features, sector, size)?;
        let ghost known = sector_views(sectors@);
        sectors.push(content);
        assert(sector_views(sectors@) =~= known.push(content@));
        sector = sector + 1;
    }
    Ok(sectors)
}

/// Reading everything that the memory holds.
#[verifier::opaque]
pub open spec fn backup_at(wire: Wire, at: int, device: DeviceView) -> Step<BackupView> {
    match identity_at(wire, at, device) {
        Step::Done { value: identity, next } => match onboard_info_at(wire, next, device.features) {
            Step::Done { value: info, next } => match onboard_status_at(wire, next, device.features) {
                Step::Done { value: status, next } => match headers_at(wire, next, device.features) {
                    Step::Done { value: profiles, next } => match sectors_at(
                        wire,
                        next,
                        device.features,
                        info.sector_size,
                        0,
                        info.sector_count as int,
                        Seq::empty(),
                    ) {
                        Step::Done { value: sectors, next } => Step::Done {
                            value: BackupView { schema_version: 1, device: identity, info, status, profiles, sectors },
                            next,
                        },
                        step => step.stop(),
                    },
                    step => step.stop(),
                },
                step => step.stop(),
            },
            step => step.stop(),
        },
        step => step.stop(),
    }
}

/// Reads everything that the memory of a mouse holds.
pub fn read_onboard_backup<I: HidIo>(
    transport: &mut HidppTransport<I>,
    device: &LogicalDevice,
) -> (backup: Result<OnboardMemoryBackup>)
    ensures
        grown(old(transport)@, final(transport)@),
        final(transport).held() == old(transport).held(),
        forall|wire: Wire|
            wire.covers(final(transport)@) ==> #[trigger] backup_at(wire, old(transport)@.mark(), device@) == reached(
                outcome(backup),
                final(transport)@.mark(),
            ),
{
    reveal(backup_at);

    let identity = read_identity(transport, device)?;
    let info = read_onboard_info(transport, &device.features)?;
    let status = read_onboard_status(transport, &device.features)?;
    let profiles = read_onboard_profile_headers(transport, &device.features)?;
    let sectors = read_sectors(transport, device, info.sector_size, info.sector_count)?;
    Ok(OnboardMemoryBackup { schema_version: 1, device: identity, info, status, profiles, sectors })
}

}
