use powerroam::device_info::{
    build_device_info, CapacityInfo, DcPower, DeviceInfo, DeviceInfoBuilder, FlashlightMode,
    Power, Status, TotalPower,
};
use powerroam::notification::StatsUpdate;

fn sample_power() -> Power {
    Power {
        batteries_one_power: 10,
        batteries_two_power: 20,
        inverter_one_power: 30,
        inverter_two_power: 40,
    }
}

fn sample_status() -> Status {
    Status {
        low_noise: false,
        low_battery_warning: false,
        usb_switch: true,
        dc_switch: false,
        ac_frequency_hz: 50,
        warning_voice: false,
        ac_turbo: false,
        ac_switch: true,
        battery_health: true,
        locking: false,
        key_voice: true,
        standby: false,
    }
}

fn sample_dc() -> DcPower {
    DcPower {
        type_c_one_power: 1,
        type_c_two_power: 2,
        usb_one_power: 3,
        usb_two_power: 4,
        total: 10,
    }
}

fn sample_capacity() -> CapacityInfo {
    CapacityInfo {
        charge_time: 120,
        discharge_time: 300,
        battery_capacity_power: 80,
    }
}

fn all_eight() -> Vec<StatsUpdate> {
    vec![
        StatsUpdate::Power(sample_power()),
        StatsUpdate::TotalPower(TotalPower { input: 5, output: 6 }),
        StatsUpdate::AcPower(230),
        StatsUpdate::FlashlightStatus(FlashlightMode::High),
        StatsUpdate::DcPower(sample_dc()),
        StatsUpdate::Status(sample_status()),
        StatsUpdate::ElectricQuantityPower(88),
        StatsUpdate::Capacity(sample_capacity()),
    ]
}

fn expected_snapshot() -> DeviceInfo {
    DeviceInfo {
        power: sample_power(),
        total_power: TotalPower { input: 5, output: 6 },
        ac_power: 230,
        flashlight: FlashlightMode::High,
        dc_power: sample_dc(),
        status: sample_status(),
        electric_quantity_power: 88,
        capacity: sample_capacity(),
    }
}

#[test]
fn no_snapshot_from_fewer_than_eight_kinds() {
    let mut updates = all_eight();
    updates.pop();
    assert_eq!(build_device_info(&updates), None);

    // Repeating the same kinds does not help.
    let mut repeated = updates.clone();
    repeated.extend_from_slice(&updates);
    assert_eq!(build_device_info(&repeated), None);

    let empty: Vec<StatsUpdate> = vec![];
    assert_eq!(build_device_info(&empty), None);
}

#[test]
fn snapshot_appears_with_the_eighth_kind() {
    let updates = all_eight();
    assert_eq!(build_device_info(&updates), Some(expected_snapshot()));
}

#[test]
fn snapshot_ignores_updates_after_completion() {
    let mut updates = all_eight();
    updates.push(StatsUpdate::AcPower(9999));
    updates.push(StatsUpdate::Power(Power {
        batteries_one_power: 1,
        batteries_two_power: 1,
        inverter_one_power: 1,
        inverter_two_power: 1,
    }));
    assert_eq!(build_device_info(&updates), Some(expected_snapshot()));
}

#[test]
fn snapshot_keeps_last_seen_value_per_kind() {
    let mut updates = vec![StatsUpdate::AcPower(111)];
    updates.extend(all_eight());
    // The later AcPower(230) overwrites the earlier 111.
    assert_eq!(build_device_info(&updates), Some(expected_snapshot()));
}

#[test]
fn builder_push_reports_completion_exactly_once_needed() {
    let updates = all_eight();
    let mut builder = DeviceInfoBuilder::new();
    for (i, u) in updates.iter().enumerate() {
        let out = builder.push(*u);
        if i < 7 {
            assert_eq!(out, None);
            assert!(!builder.is_complete());
        } else {
            assert_eq!(out, Some(expected_snapshot()));
            assert!(builder.is_complete());
        }
    }
}

#[test]
fn builder_snapshot_is_none_until_complete() {
    let mut builder = DeviceInfoBuilder::new();
    assert_eq!(builder.snapshot(), None);
    builder.apply(StatsUpdate::AcPower(1));
    assert_eq!(builder.snapshot(), None);
}

#[test]
fn apply_update_overwrites_only_the_matching_field() {
    let mut info = expected_snapshot();
    info.apply_update(StatsUpdate::AcPower(5));
    assert_eq!(info.ac_power, 5);
    let mut changed_back = info;
    changed_back.apply_update(StatsUpdate::AcPower(230));
    assert_eq!(changed_back, expected_snapshot());

    info.apply_update(StatsUpdate::FlashlightStatus(FlashlightMode::Strobe));
    assert_eq!(info.flashlight, FlashlightMode::Strobe);
    assert_eq!(info.power, sample_power());
    assert_eq!(info.capacity, sample_capacity());
}

#[test]
fn flashlight_mode_round_trips_through_its_wire_byte() {
    let modes = [
        FlashlightMode::Off,
        FlashlightMode::Low,
        FlashlightMode::High,
        FlashlightMode::Strobe,
        FlashlightMode::Sos,
    ];
    for (i, mode) in modes.iter().enumerate() {
        assert_eq!(mode.to_repr(), i as u8);
        assert_eq!(FlashlightMode::from_repr(i), Some(*mode));
    }
    assert_eq!(FlashlightMode::from_repr(5), None);
    assert_eq!(FlashlightMode::from_repr(255), None);
}

#[test]
fn capacity_metric_clamps_the_unknown_sentinel_to_zero() {
    let capacity = CapacityInfo {
        charge_time: 0xffff,
        discharge_time: 321,
        battery_capacity_power: 55,
    };
    assert_eq!(capacity.charge_time_metric(), 0);
    assert_eq!(capacity.discharge_time_metric(), 321);

    let capacity = CapacityInfo {
        charge_time: 120,
        discharge_time: 0xffff,
        battery_capacity_power: 55,
    };
    assert_eq!(capacity.charge_time_metric(), 120);
    assert_eq!(capacity.discharge_time_metric(), 0);
}

#[test]
fn capacity_decode_retains_the_raw_sentinel() {
    // A capacity record whose charge time is the all-ones sentinel: the
    // decoded update keeps the raw value; only the metric view clamps it.
    let mut data = vec![0u8; 24];
    data[19] = 0xff;
    data[20] = 0xff;
    data[21] = 0xd4;
    data[22] = 0x15;
    data[23] = 70;
    let mut rec = vec![0x5a, 0xa5, 0xc0, 0xa1, 0x09, 24, 0];
    rec.extend_from_slice(&data);
    let crc = powerroam::checksum(&rec[2..]);
    rec.push((crc % 256) as u8);
    rec.push((crc / 256) as u8);

    let updates = powerroam::notification::process_notification(&rec);
    assert_eq!(
        updates,
        vec![StatsUpdate::Capacity(CapacityInfo {
            charge_time: 0xffff,
            discharge_time: 5588,
            battery_capacity_power: 70,
        })]
    );
    match &updates[0] {
        StatsUpdate::Capacity(c) => assert_eq!(c.charge_time_metric(), 0),
        _ => unreachable!(),
    }
}
