//! Typed views of the device's state: the per-record payload structs, the
//! aggregated snapshot, and the one-shot aggregator that folds a stream of
//! updates into a complete snapshot.

use vstd::prelude::*;
use crate::notification::StatsUpdate;

verus! {

/// Battery and inverter wattage report.
#[derive(Debug, PartialEq, Eq, Clone, Copy, Structural)]
pub struct Power {
    pub batteries_one_power: u16,
    pub batteries_two_power: u16,
    pub inverter_one_power: u16,
    pub inverter_two_power: u16,
}

/// Flashlight operating mode; exactly five byte values are defined on the
/// wire.
#[derive(Debug, PartialEq, Eq, Clone, Copy, Structural)]
pub enum FlashlightMode {
    Off,
    Low,
    High,
    Strobe,
    Sos,
}

/// The wire byte that decodes to each flashlight mode, if any.
pub open spec fn spec_flashlight_from_repr(v: int) -> Option<FlashlightMode> {
    if v == 0 {
        Some(FlashlightMode::Off)
    } else if v == 1 {
        Some(FlashlightMode::Low)
    } else if v == 2 {
        Some(FlashlightMode::High)
    } else if v == 3 {
        Some(FlashlightMode::Strobe)
    } else if v == 4 {
        Some(FlashlightMode::Sos)
    } else {
        None
    }
}

impl FlashlightMode {
    /// The wire byte carrying this mode.
    pub open spec fn spec_repr(self) -> u8 {
        match self {
            FlashlightMode::Off => 0,
            FlashlightMode::Low => 1,
            FlashlightMode::High => 2,
            FlashlightMode::Strobe => 3,
            FlashlightMode::Sos => 4,
        }
    }

    /// Fallible mapping from a raw wire value: exactly the five defined
    /// values decode, anything else is rejected.
    pub fn from_repr(value: usize) -> (r: Option<FlashlightMode>)
        ensures
            r == spec_flashlight_from_repr(value as int),
    {
        if value == 0 {
            Some(FlashlightMode::Off)
        } else if value == 1 {
            Some(FlashlightMode::Low)
        } else if value == 2 {
            Some(FlashlightMode::High)
        } else if value == 3 {
            Some(FlashlightMode::Strobe)
        } else if value == 4 {
            Some(FlashlightMode::Sos)
        } else {
            None
        }
    }

    /// The wire byte for this mode, as sent in an outgoing command.
    pub fn to_repr(&self) -> (r: u8)
        ensures
            r == self.spec_repr(),
    {
        match self {
            FlashlightMode::Off => 0,
            FlashlightMode::Low => 1,
            FlashlightMode::High => 2,
            FlashlightMode::Strobe => 3,
            FlashlightMode::Sos => 4,
        }
    }
}

/// Total input and output wattage.
#[derive(Debug, PartialEq, Eq, Clone, Copy, Structural)]
pub struct TotalPower {
    pub input: u16,
    pub output: u16,
}

/// Per-port DC output wattage.
#[derive(Debug, PartialEq, Eq, Clone, Copy, Structural)]
pub struct DcPower {
    pub type_c_one_power: u16,
    pub type_c_two_power: u16,
    pub usb_one_power: u16,
    pub usb_two_power: u16,
    pub total: u16,
}

/// Switch and warning flags plus the AC output frequency.
#[derive(Debug, PartialEq, Eq, Clone, Copy, Structural)]
pub struct Status {
    pub low_noise: bool,
    pub low_battery_warning: bool,
    pub usb_switch: bool,
    pub dc_switch: bool,
    pub ac_frequency_hz: u8,
    pub warning_voice: bool,
    pub ac_turbo: bool,
    pub ac_switch: bool,
    pub battery_health: bool,
    pub locking: bool,
    pub key_voice: bool,
    pub standby: bool,
}

/// Battery charge state and remaining charge/discharge time in minutes.
#[derive(Debug, PartialEq, Eq, Clone, Copy, Structural)]
pub struct CapacityInfo {
    pub charge_time: u16,
    pub discharge_time: u16,
    pub battery_capacity_power: u8,
}

impl CapacityInfo {
    /// Charge time as republished at the metrics boundary: the all-ones
    /// value is the device's "not applicable" sentinel and is clamped to
    /// zero; every other raw value passes through unchanged.
    pub fn charge_time_metric(&self) -> (r: u16)
        ensures
            self.charge_time == 0xFFFF ==> r == 0,
            self.charge_time != 0xFFFF ==> r == self.charge_time,
    {
        if self.charge_time == 0xFFFF {
            0
        } else {
            self.charge_time
        }
    }

    /// Discharge time as republished at the metrics boundary, with the same
    /// sentinel clamping as the charge time.
    pub fn discharge_time_metric(&self) -> (r: u16)
        ensures
            self.discharge_time == 0xFFFF ==> r == 0,
            self.discharge_time != 0xFFFF ==> r == self.discharge_time,
    {
        if self.discharge_time == 0xFFFF {
            0
        } else {
            self.discharge_time
        }
    }
}

/// The complete device snapshot: one most-recent value per tracked field.
#[derive(Debug, PartialEq, Eq, Clone, Copy, Structural)]
pub struct DeviceInfo {
    pub power: Power,
    pub total_power: TotalPower,
    pub ac_power: u16,
    pub flashlight: FlashlightMode,
    pub dc_power: DcPower,
    pub status: Status,
    pub electric_quantity_power: u8,
    pub capacity: CapacityInfo,
}

/// A partly assembled snapshot: one optional slot per tracked field, each
/// holding the last-seen update of its kind.
#[derive(Debug, PartialEq, Eq, Clone, Copy)]
pub struct DeviceInfoBuilder {
    pub power: Option<Power>,
    pub total_power: Option<TotalPower>,
    pub ac_power: Option<u16>,
    pub flashlight: Option<FlashlightMode>,
    pub dc_power: Option<DcPower>,
    pub status: Option<Status>,
    pub electric_quantity_power: Option<u8>,
    pub capacity: Option<CapacityInfo>,
}

/// The builder with every slot still empty.
pub open spec fn spec_empty_builder() -> DeviceInfoBuilder {
    DeviceInfoBuilder {
        power: None,
        total_power: None,
        ac_power: None,
        flashlight: None,
        dc_power: None,
        status: None,
        electric_quantity_power: None,
        capacity: None,
    }
}

/// One aggregation step: overwrite the slot matching the update, leaving
/// the other slots untouched.
pub open spec fn spec_apply(b: DeviceInfoBuilder, u: StatsUpdate) -> DeviceInfoBuilder {
    match u {
        StatsUpdate::Power(v) => DeviceInfoBuilder { power: Some(v), ..b },
        StatsUpdate::TotalPower(v) => DeviceInfoBuilder { total_power: Some(v), ..b },
        StatsUpdate::AcPower(v) => DeviceInfoBuilder { ac_power: Some(v), ..b },
        StatsUpdate::FlashlightStatus(v) => DeviceInfoBuilder { flashlight: Some(v), ..b },
        StatsUpdate::DcPower(v) => DeviceInfoBuilder { dc_power: Some(v), ..b },
        StatsUpdate::Status(v) => DeviceInfoBuilder { status: Some(v), ..b },
        StatsUpdate::ElectricQuantityPower(v) => DeviceInfoBuilder {
            electric_quantity_power: Some(v),
            ..b
        },
        StatsUpdate::Capacity(v) => DeviceInfoBuilder { capacity: Some(v), ..b },
    }
}

/// Every one of the eight tracked fields has been observed at least once.
pub open spec fn spec_complete(b: DeviceInfoBuilder) -> bool {
    &&& b.power is Some
    &&& b.total_power is Some
    &&& b.ac_power is Some
    &&& b.flashlight is Some
    &&& b.dc_power is Some
    &&& b.status is Some
    &&& b.electric_quantity_power is Some
    &&& b.capacity is Some
}

/// The snapshot read off a complete builder.
pub open spec fn spec_snapshot(b: DeviceInfoBuilder) -> DeviceInfo
    recommends
        spec_complete(b),
{
    DeviceInfo {
        power: b.power->0,
        total_power: b.total_power->0,
        ac_power: b.ac_power->0,
        flashlight: b.flashlight->0,
        dc_power: b.dc_power->0,
        status: b.status->0,
        electric_quantity_power: b.electric_quantity_power->0,
        capacity: b.capacity->0,
    }
}

/// One-shot aggregation from builder state `b`: fold updates in arrival
/// order and yield the snapshot the moment the builder first completes;
/// updates after that point change nothing, and a stream that ends before
/// completion yields nothing.
pub open spec fn spec_build(b: DeviceInfoBuilder, us: Seq<StatsUpdate>) -> Option<DeviceInfo>
    decreases us.len(),
{
    if us.len() == 0 {
        None
    } else {
        let b2 = spec_apply(b, us[0]);
        if spec_complete(b2) {
            Some(spec_snapshot(b2))
        } else {
            spec_build(b2, us.drop_first())
        }
    }
}

/// Folding a whole update sequence into a builder, with no early stop.
pub open spec fn spec_fold(b: DeviceInfoBuilder, us: Seq<StatsUpdate>) -> DeviceInfoBuilder
    decreases us.len(),
{
    if us.len() == 0 {
        b
    } else {
        spec_fold(spec_apply(b, us[0]), us.drop_first())
    }
}

/// Index of the snapshot slot an update overwrites.
pub open spec fn update_kind(u: StatsUpdate) -> int {
    match u {
        StatsUpdate::Power(_) => 0,
        StatsUpdate::TotalPower(_) => 1,
        StatsUpdate::AcPower(_) => 2,
        StatsUpdate::FlashlightStatus(_) => 3,
        StatsUpdate::DcPower(_) => 4,
        StatsUpdate::Status(_) => 5,
        StatsUpdate::ElectricQuantityPower(_) => 6,
        StatsUpdate::Capacity(_) => 7,
    }
}

/// Slot `k` of the builder has been observed.
pub open spec fn slot_filled(b: DeviceInfoBuilder, k: int) -> bool {
    if k == 0 {
        b.power is Some
    } else if k == 1 {
        b.total_power is Some
    } else if k == 2 {
        b.ac_power is Some
    } else if k == 3 {
        b.flashlight is Some
    } else if k == 4 {
        b.dc_power is Some
    } else if k == 5 {
        b.status is Some
    } else if k == 6 {
        b.electric_quantity_power is Some
    } else {
        b.capacity is Some
    }
}

/// Two builders hold the same value in slot `k`.
pub open spec fn slots_agree(b1: DeviceInfoBuilder, b2: DeviceInfoBuilder, k: int) -> bool {
    if k == 0 {
        b1.power == b2.power
    } else if k == 1 {
        b1.total_power == b2.total_power
    } else if k == 2 {
        b1.ac_power == b2.ac_power
    } else if k == 3 {
        b1.flashlight == b2.flashlight
    } else if k == 4 {
        b1.dc_power == b2.dc_power
    } else if k == 5 {
        b1.status == b2.status
    } else if k == 6 {
        b1.electric_quantity_power == b2.electric_quantity_power
    } else {
        b1.capacity == b2.capacity
    }
}

/// Some update in the sequence overwrites slot `k`.
pub open spec fn covers_kind(us: Seq<StatsUpdate>, k: int) -> bool {
    exists|j: int| 0 <= j < us.len() && update_kind(#[trigger] us[j]) == k
}

/// A successful one-shot aggregation needs every slot either already
/// filled at the start or covered by some update in the sequence.
pub proof fn lemma_build_needs_every_kind(b: DeviceInfoBuilder, us: Seq<StatsUpdate>, k: int)
    requires
        spec_build(b, us) is Some,
        0 <= k < 8,
    ensures
        slot_filled(b, k) || covers_kind(us, k),
    decreases us.len(),
{
    let b2 = spec_apply(b, us[0]);
    if spec_complete(b2) {
        if !slot_filled(b, k) {
            assert(update_kind(us[0]) == k);
        }
    } else {
        lemma_build_needs_every_kind(b2, us.drop_first(), k);
        if !slot_filled(b, k) && !slot_filled(b2, k) {
            if covers_kind(us.drop_first(), k) {
                let j = choose|j: int|
                    0 <= j < us.drop_first().len() && update_kind(
                        #[trigger] us.drop_first()[j],
                    ) == k;
                assert(update_kind(us[j + 1]) == k);
            }
        } else if !slot_filled(b, k) {
            assert(update_kind(us[0]) == k);
        }
    }
}

/// Fed a sequence that misses even one of the eight update kinds, the
/// one-shot aggregation from an empty builder yields no snapshot.
pub proof fn lemma_no_snapshot_without_every_kind(us: Seq<StatsUpdate>, k: int)
    requires
        0 <= k < 8,
        !covers_kind(us, k),
    ensures
        spec_build(spec_empty_builder(), us) is None,
{
    if spec_build(spec_empty_builder(), us) is Some {
        lemma_build_needs_every_kind(spec_empty_builder(), us, k);
        assert(false);
    }
}

/// Once the one-shot aggregation yields a snapshot, updates arriving after
/// that point change nothing.
pub proof fn lemma_build_ignores_later_updates(
    b: DeviceInfoBuilder,
    us: Seq<StatsUpdate>,
    more: Seq<StatsUpdate>,
)
    requires
        spec_build(b, us) is Some,
    ensures
        spec_build(b, us + more) == spec_build(b, us),
    decreases us.len(),
{
    assert(us.len() > 0);
    assert((us + more)[0] == us[0]);
    let b2 = spec_apply(b, us[0]);
    if spec_complete(b2) {
    } else {
        lemma_build_ignores_later_updates(b2, us.drop_first(), more);
        assert(us.drop_first() + more =~= (us + more).drop_first());
    }
}

/// A slot that no update in the sequence touches keeps its value through a
/// fold.
pub proof fn lemma_fold_untouched_slot(b: DeviceInfoBuilder, us: Seq<StatsUpdate>, k: int)
    requires
        0 <= k < 8,
        !covers_kind(us, k),
    ensures
        slots_agree(spec_fold(b, us), b, k),
    decreases us.len(),
{
    if us.len() > 0 {
        assert(update_kind(us[0]) != k);
        if covers_kind(us.drop_first(), k) {
            let j = choose|j: int|
                0 <= j < us.drop_first().len() && update_kind(#[trigger] us.drop_first()[j]) == k;
            assert(update_kind(us[j + 1]) == k);
            assert(false);
        }
        lemma_fold_untouched_slot(spec_apply(b, us[0]), us.drop_first(), k);
    }
}

/// After a fold, a slot holds the payload of the last update of its kind:
/// the snapshot reflects the most recent value of every tracked field.
pub proof fn lemma_fold_last_of_kind(b: DeviceInfoBuilder, us: Seq<StatsUpdate>, j: int)
    requires
        0 <= j < us.len(),
        forall|j2: int| j < j2 < us.len() ==> update_kind(#[trigger] us[j2]) != update_kind(us[j]),
    ensures
        slots_agree(spec_fold(b, us), spec_apply(b, us[j]), update_kind(us[j])),
    decreases us.len(),
{
    let k = update_kind(us[j]);
    let rest = us.drop_first();
    if j == 0 {
        if covers_kind(rest, k) {
            let j2 = choose|j2: int|
                0 <= j2 < rest.len() && update_kind(#[trigger] rest[j2]) == k;
            assert(update_kind(us[j2 + 1]) == k);
            assert(false);
        }
        lemma_fold_untouched_slot(spec_apply(b, us[0]), rest, k);
    } else {
        assert(rest[j - 1] == us[j]);
        lemma_fold_last_of_kind(spec_apply(b, us[0]), rest, j - 1);
    }
}

/// Number of updates the one-shot aggregation consumes: the length of the
/// shortest prefix whose fold completes the builder, or the whole length
/// if none does.
pub open spec fn completion_point(b: DeviceInfoBuilder, us: Seq<StatsUpdate>) -> int
    decreases us.len(),
{
    if us.len() == 0 {
        0
    } else {
        let b2 = spec_apply(b, us[0]);
        if spec_complete(b2) {
            1
        } else {
            1 + completion_point(b2, us.drop_first())
        }
    }
}

/// A successful one-shot aggregation yields exactly the snapshot of the
/// fold of the shortest completing prefix — the snapshot appears the
/// moment the eighth tracked field is first filled, no earlier and with no
/// other value.
pub proof fn lemma_build_at_first_completion(b: DeviceInfoBuilder, us: Seq<StatsUpdate>)
    requires
        !spec_complete(b),
        spec_build(b, us) is Some,
    ensures
        1 <= completion_point(b, us) <= us.len(),
        spec_complete(spec_fold(b, us.take(completion_point(b, us)))),
        forall|n: int| 0 <= n < completion_point(b, us) ==> !spec_complete(
            spec_fold(b, #[trigger] us.take(n)),
        ),
        spec_build(b, us) == Some(spec_snapshot(spec_fold(b, us.take(completion_point(b, us))))),
    decreases us.len(),
{
    let b2 = spec_apply(b, us[0]);
    let cp = completion_point(b, us);
    assert(us.take(0) =~= Seq::empty());
    if spec_complete(b2) {
        assert(us.take(1).drop_first() =~= Seq::<StatsUpdate>::empty());
        assert(us.take(1)[0] == us[0]);
        assert(spec_fold(b, us.take(1)) == spec_fold(b2, us.take(1).drop_first()));
        assert(spec_fold(b2, Seq::<StatsUpdate>::empty()) == b2);
    } else {
        lemma_build_at_first_completion(b2, us.drop_first());
        let cp2 = completion_point(b2, us.drop_first());
        assert(cp == 1 + cp2);
        assert(us.take(cp).drop_first() =~= us.drop_first().take(cp2));
        assert(spec_fold(b, us.take(cp)) == spec_fold(b2, us.drop_first().take(cp2)));
        assert forall|n: int| 0 <= n < cp implies !spec_complete(
            spec_fold(b, #[trigger] us.take(n)),
        ) by {
            if n > 0 {
                assert(us.take(n).drop_first() =~= us.drop_first().take(n - 1));
                assert(spec_fold(b, us.take(n)) == spec_fold(b2, us.drop_first().take(n - 1)));
            }
        }
    }
}

impl DeviceInfoBuilder {
    /// A builder with every slot empty.
    pub fn new() -> (r: DeviceInfoBuilder)
        ensures
            r == spec_empty_builder(),
    {
        DeviceInfoBuilder {
            power: None,
            total_power: None,
            ac_power: None,
            flashlight: None,
            dc_power: None,
            status: None,
            electric_quantity_power: None,
            capacity: None,
        }
    }

    /// Fold one update in, overwriting the matching slot.
    pub fn apply(&mut self, update: StatsUpdate)
        ensures
            *final(self) == spec_apply(*old(self), update),
    {
        match update {
            StatsUpdate::Power(v) => self.power = Some(v),
            StatsUpdate::TotalPower(v) => self.total_power = Some(v),
            StatsUpdate::AcPower(v) => self.ac_power = Some(v),
            StatsUpdate::FlashlightStatus(v) => self.flashlight = Some(v),
            StatsUpdate::DcPower(v) => self.dc_power = Some(v),
            StatsUpdate::Status(v) => self.status = Some(v),
            StatsUpdate::ElectricQuantityPower(v) => self.electric_quantity_power = Some(v),
            StatsUpdate::Capacity(v) => self.capacity = Some(v),
        }
    }

    /// Whether all eight tracked fields have been observed.
    pub fn is_complete(&self) -> (r: bool)
        ensures
            r == spec_complete(*self),
    {
        self.power.is_some() && self.total_power.is_some() && self.ac_power.is_some()
            && self.flashlight.is_some() && self.dc_power.is_some() && self.status.is_some()
            && self.electric_quantity_power.is_some() && self.capacity.is_some()
    }

    /// The snapshot, once every field has been observed; nothing before.
    pub fn snapshot(&self) -> (r: Option<DeviceInfo>)
        ensures
            spec_complete(*self) ==> r == Some(spec_snapshot(*self)),
            !spec_complete(*self) ==> r is None,
    {
        match (
            self.power,
            self.total_power,
            self.ac_power,
            self.flashlight,
            self.dc_power,
            self.status,
            self.electric_quantity_power,
            self.capacity,
        ) {
            (
                Some(power),
                Some(total_power),
                Some(ac_power),
                Some(flashlight),
                Some(dc_power),
                Some(status),
                Some(electric_quantity_power),
                Some(capacity),
            ) => Some(DeviceInfo {
                power,
                total_power,
                ac_power,
                flashlight,
                dc_power,
                status,
                electric_quantity_power,
                capacity,
            }),
            _ => None,
        }
    }

    /// One streaming step: fold the update in and report the snapshot if it
    /// is the one that completed the builder.
    pub fn push(&mut self, update: StatsUpdate) -> (r: Option<DeviceInfo>)
        ensures
            *final(self) == spec_apply(*old(self), update),
            spec_complete(*final(self)) ==> r == Some(spec_snapshot(*final(self))),
            !spec_complete(*final(self)) ==> r is None,
    {
        self.apply(update);
        self.snapshot()
    }
}

impl DeviceInfo {
    /// Overwrite the field matching `update`, leaving the others untouched:
    /// the live-view counterpart of the one-shot aggregator.
    pub fn apply_update(&mut self, update: StatsUpdate)
        ensures
            *final(self) == spec_apply_update(*old(self), update),
    {
        match update {
            StatsUpdate::Power(v) => self.power = v,
            StatsUpdate::TotalPower(v) => self.total_power = v,
            StatsUpdate::AcPower(v) => self.ac_power = v,
            StatsUpdate::FlashlightStatus(v) => self.flashlight = v,
            StatsUpdate::DcPower(v) => self.dc_power = v,
            StatsUpdate::Status(v) => self.status = v,
            StatsUpdate::ElectricQuantityPower(v) => self.electric_quantity_power = v,
            StatsUpdate::Capacity(v) => self.capacity = v,
        }
    }
}

/// The snapshot field overwritten by one update on a live view.
pub open spec fn spec_apply_update(info: DeviceInfo, u: StatsUpdate) -> DeviceInfo {
    match u {
        StatsUpdate::Power(v) => DeviceInfo { power: v, ..info },
        StatsUpdate::TotalPower(v) => DeviceInfo { total_power: v, ..info },
        StatsUpdate::AcPower(v) => DeviceInfo { ac_power: v, ..info },
        StatsUpdate::FlashlightStatus(v) => DeviceInfo { flashlight: v, ..info },
        StatsUpdate::DcPower(v) => DeviceInfo { dc_power: v, ..info },
        StatsUpdate::Status(v) => DeviceInfo { status: v, ..info },
        StatsUpdate::ElectricQuantityPower(v) => DeviceInfo {
            electric_quantity_power: v,
            ..info
        },
        StatsUpdate::Capacity(v) => DeviceInfo { capacity: v, ..info },
    }
}

/// One-shot aggregation over a finished sequence of updates: the snapshot
/// yielded the moment the eighth tracked field is first filled, or nothing
/// if the sequence ends before that.
pub fn build_device_info(updates: &[StatsUpdate]) -> (r: Option<DeviceInfo>)
    ensures
        r == spec_build(spec_empty_builder(), updates@),
{
    let mut b = DeviceInfoBuilder::new();
    let mut i: usize = 0;
    proof {
        assert(updates@.skip(0) =~= updates@);
    }
    while i < updates.len()
        invariant
            0 <= i <= updates@.len(),
            !spec_complete(b),
            spec_build(spec_empty_builder(), updates@) == spec_build(b, updates@.skip(i as int)),
        decreases updates@.len() - i,
    {
        match b.push(updates[i]) {
            Some(info) => {
                proof {
                    assert(updates@.skip(i as int)[0] == updates@[i as int]);
                }
                return Some(info);
            },
            None => {},
        }
        proof {
            assert(updates@.skip(i as int)[0] == updates@[i as int]);
            assert(updates@.skip(i as int).drop_first() =~= updates@.skip(i + 1));
        }
        i = i + 1;
    }
    None
}

} // verus!
