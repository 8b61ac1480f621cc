//! Inbound path of the codec: scanning a notification buffer for the record
//! separator, validating each candidate record's checksum, and decoding the
//! recognized records into typed updates.
//!
//! The wire format performs no escaping, so a literal occurrence of the
//! separator inside a record's data bytes is read as a false record
//! boundary; this is a known ambiguity of the protocol and is deliberately
//! left as-is.

use vstd::prelude::*;
use crate::checksum::{checksum, crc16};
use crate::device_info::{
    CapacityInfo, DcPower, FlashlightMode, Power, Status, TotalPower, spec_flashlight_from_repr,
};

verus! {

/// One typed update decoded from a single inbound record, one variant per
/// recognized message-type tag.
#[derive(Debug, PartialEq, Eq, Clone, Copy)]
pub enum StatsUpdate {
    Power(Power),
    TotalPower(TotalPower),
    AcPower(u16),
    FlashlightStatus(FlashlightMode),
    DcPower(DcPower),
    Status(Status),
    ElectricQuantityPower(u8),
    Capacity(CapacityInfo),
}

/// A failure local to one candidate record; it never aborts the
/// surrounding batch.
#[derive(Debug, PartialEq, Eq)]
pub enum DecodeError {
    /// The stored checksum disagrees with the computed one; carries the
    /// record's data bytes for diagnostics.
    ChecksumMismatch(Vec<u8>),
    /// A flashlight-status record carried a byte outside the five defined
    /// mode values.
    InvalidFlashlightMode(u8),
}

/// The four-byte record separator occurs at position `i`.
pub open spec fn separator_at(s: Seq<u8>, i: int) -> bool {
    &&& 0 <= i
    &&& i + 4 <= s.len()
    &&& s[i] == 0x5a
    &&& s[i + 1] == 0xa5
    &&& s[i + 2] == 0xc0
    &&& s[i + 3] == 0xa1
}

/// Position `i` starts a candidate record: the separator occurs there with
/// at least one byte after it.
pub open spec fn is_record_start(s: Seq<u8>, i: int) -> bool {
    separator_at(s, i) && i + 4 < s.len()
}

/// All record starts below position `n`, in increasing order.
pub open spec fn record_starts_below(s: Seq<u8>, n: int) -> Seq<int>
    decreases n,
{
    if n <= 0 {
        Seq::empty()
    } else if is_record_start(s, n - 1) {
        record_starts_below(s, n - 1).push(n - 1)
    } else {
        record_starts_below(s, n - 1)
    }
}

/// Every record start in the buffer, in increasing order.
pub open spec fn record_starts(s: Seq<u8>) -> Seq<int> {
    record_starts_below(s, s.len() as int)
}

/// The candidate ranges the splitter yields: each record start extends to
/// the next one, the last to the end of the buffer, and anything before the
/// first start is discarded.  With no record start at all the whole buffer
/// is the single (likely invalid) candidate.
pub open spec fn frame_ranges(s: Seq<u8>) -> Seq<(int, int)> {
    let starts = record_starts(s);
    if starts.len() == 0 {
        seq![(0int, s.len() as int)]
    } else {
        Seq::new(
            starts.len(),
            |k: int|
                (
                    starts[k],
                    if k + 1 < starts.len() {
                        starts[k + 1]
                    } else {
                        s.len() as int
                    },
                ),
        )
    }
}

/// Little-endian 16-bit value stored at offset `i`.
pub open spec fn le16(s: Seq<u8>, i: int) -> int {
    s[i] + 256 * s[i + 1]
}

/// Data-byte count declared in a candidate record's length field.
pub open spec fn record_len(s: Seq<u8>) -> int {
    le16(s, 5)
}

/// The slice is long enough to hold the full declared record: separator,
/// tag, length field, data bytes and trailing checksum.
pub open spec fn record_well_sized(s: Seq<u8>) -> bool {
    s.len() >= 9 && s.len() >= record_len(s) + 9
}

/// The checksum-validation range: the last two separator bytes, the tag,
/// the length field and the data bytes.
pub open spec fn validation_range(s: Seq<u8>) -> Seq<u8> {
    s.subrange(2, record_len(s) + 7)
}

/// The stored checksum matches the one computed over the validation range.
pub open spec fn record_checksum_ok(s: Seq<u8>) -> bool {
    crc16(validation_range(s)) == le16(s, record_len(s) + 7)
}

/// The data bytes of a candidate record.
pub open spec fn record_data(s: Seq<u8>) -> Seq<u8> {
    s.subrange(7, record_len(s) + 7)
}

/// The typed update carried by a recognized tag and its data bytes, when
/// the data meets the tag's minimum length; unknown tags, undersized data
/// and out-of-range flashlight bytes carry none.
pub open spec fn spec_decode_data(key: u8, d: Seq<u8>) -> Option<StatsUpdate> {
    if key == 0x04 && d.len() >= 8 {
        Some(StatsUpdate::Power(Power {
            batteries_one_power: le16(d, 0) as u16,
            batteries_two_power: le16(d, 2) as u16,
            inverter_one_power: le16(d, 4) as u16,
            inverter_two_power: le16(d, 6) as u16,
        }))
    } else if key == 0x09 && d.len() >= 24 {
        Some(StatsUpdate::Capacity(CapacityInfo {
            charge_time: le16(d, 19) as u16,
            discharge_time: le16(d, 21) as u16,
            battery_capacity_power: d[23],
        }))
    } else if key == 0x0b && d.len() >= 8 {
        Some(StatsUpdate::AcPower(le16(d, 6) as u16))
    } else if key == 0x0c && d.len() >= 10 {
        Some(StatsUpdate::DcPower(DcPower {
            type_c_one_power: le16(d, 0) as u16,
            type_c_two_power: le16(d, 2) as u16,
            usb_one_power: le16(d, 4) as u16,
            usb_two_power: le16(d, 6) as u16,
            total: le16(d, 8) as u16,
        }))
    } else if key == 0x0f && d.len() >= 4 {
        Some(StatsUpdate::TotalPower(TotalPower {
            input: le16(d, 0) as u16,
            output: le16(d, 2) as u16,
        }))
    } else if key == 0x13 && d.len() >= 1 {
        match spec_flashlight_from_repr(d[0] as int) {
            Some(mode) => Some(StatsUpdate::FlashlightStatus(mode)),
            None => None,
        }
    } else if key == 0x15 && d.len() >= 1 {
        Some(StatsUpdate::ElectricQuantityPower(d[0]))
    } else if key == 0x16 && d.len() >= 12 {
        Some(StatsUpdate::Status(Status {
            low_noise: d[0] != 0,
            low_battery_warning: d[1] != 0,
            usb_switch: d[2] != 0,
            dc_switch: d[3] != 0,
            ac_frequency_hz: d[4],
            warning_voice: d[5] != 0,
            ac_turbo: d[6] != 0,
            ac_switch: d[7] != 0,
            battery_health: d[8] != 0,
            locking: d[9] != 0,
            key_voice: d[10] == 0,
            standby: d[11] != 0,
        }))
    } else {
        None
    }
}

/// The record is complete but its stored checksum disagrees with the
/// computed one.
pub open spec fn is_checksum_mismatch(s: Seq<u8>) -> bool {
    record_well_sized(s) && !record_checksum_ok(s)
}

/// The record validates, is a flashlight-status record, and its mode byte
/// is outside the five defined values.
pub open spec fn is_invalid_flashlight(s: Seq<u8>) -> bool {
    &&& record_well_sized(s)
    &&& record_checksum_ok(s)
    &&& s[4] == 0x13
    &&& record_len(s) >= 1
    &&& spec_flashlight_from_repr(record_data(s)[0] as int) is None
}

/// The update one candidate record contributes to the batch, if any:
/// nothing for the empty leading region, truncated or mismatched records,
/// unknown tags and undersized data.
pub open spec fn spec_decode_update(s: Seq<u8>) -> Option<StatsUpdate> {
    if record_well_sized(s) && record_checksum_ok(s) {
        spec_decode_data(s[4], record_data(s))
    } else {
        None
    }
}

/// Record starts found below a position are record starts, lie below that
/// position, and are listed in strictly increasing order.
pub proof fn lemma_record_starts_below_props(s: Seq<u8>, n: int)
    ensures
        forall|k: int| 0 <= k < record_starts_below(s, n).len() ==> is_record_start(
            s,
            #[trigger] record_starts_below(s, n)[k],
        ),
        forall|k: int| 0 <= k < record_starts_below(s, n).len() ==> #[trigger] record_starts_below(
            s,
            n,
        )[k] < n,
        forall|k1: int, k2: int|
            0 <= k1 < k2 < record_starts_below(s, n).len() ==> #[trigger] record_starts_below(
                s,
                n,
            )[k1] < #[trigger] record_starts_below(s, n)[k2],
    decreases n,
{
    if n <= 0 {
    } else {
        lemma_record_starts_below_props(s, n - 1);
        let prev = record_starts_below(s, n - 1);
        let cur = record_starts_below(s, n);
        assert forall|k: int| 0 <= k < cur.len() implies is_record_start(s, #[trigger] cur[k])
            && cur[k] < n by {
            if k < prev.len() {
                assert(cur[k] == prev[k]);
            } else {
                assert(cur[k] == n - 1);
            }
        }
        assert forall|k1: int, k2: int| 0 <= k1 < k2 < cur.len() implies #[trigger] cur[k1]
            < #[trigger] cur[k2] by {
            if k2 < prev.len() {
                assert(cur[k1] == prev[k1] && cur[k2] == prev[k2]);
            } else if k2 == prev.len() {
                assert(cur[k1] == prev[k1] && prev[k1] < n - 1);
            }
        }
    }
}

/// A record start below `n` is listed in `record_starts_below(s, n)`.
pub proof fn lemma_record_starts_below_complete(s: Seq<u8>, n: int, i: int)
    requires
        0 <= i < n,
        is_record_start(s, i),
    ensures
        exists|k: int|
            0 <= k < record_starts_below(s, n).len() && record_starts_below(s, n)[k] == i,
    decreases n,
{
    if i == n - 1 {
        assert(record_starts_below(s, n).last() == i);
    } else {
        lemma_record_starts_below_complete(s, n - 1, i);
        let k = choose|k: int|
            0 <= k < record_starts_below(s, n - 1).len() && #[trigger] record_starts_below(
                s,
                n - 1,
            )[k] == i;
        assert(record_starts_below(s, n)[k] == i);
    }
}

/// Scanning further finds nothing new where no record starts lie.
proof fn lemma_record_starts_below_extend(s: Seq<u8>, a: int, b: int)
    requires
        a <= b,
        forall|i: int| a <= i < b ==> !is_record_start(s, i),
    ensures
        record_starts_below(s, b) == record_starts_below(s, a),
    decreases b - a,
{
    if a < b {
        lemma_record_starts_below_extend(s, a, b - 1);
    }
}

/// A buffer without any occurrence of the separator before its last four
/// bytes has no record starts, and the splitter yields exactly one
/// candidate range: the whole buffer.
pub proof fn lemma_split_no_separator(s: Seq<u8>)
    requires
        forall|i: int| !(#[trigger] is_record_start(s, i)),
    ensures
        frame_ranges(s) == seq![(0int, s.len() as int)],
{
    lemma_record_starts_below_extend(s, 0, s.len() as int);
}

/// With at least one record start, the splitter yields exactly one
/// non-empty range per start, chained one to the next and the last to the
/// end of the buffer.
pub proof fn lemma_split_covers_starts(s: Seq<u8>)
    requires
        record_starts(s).len() > 0,
    ensures
        frame_ranges(s).len() == record_starts(s).len(),
        forall|k: int| 0 <= k < frame_ranges(s).len() ==> (#[trigger] frame_ranges(s)[k]).0
            == record_starts(s)[k],
        forall|k: int| 0 <= k < frame_ranges(s).len() - 1 ==> (#[trigger] frame_ranges(s)[k]).1
            == record_starts(s)[k + 1],
        frame_ranges(s).last().1 == s.len() as int,
        forall|k: int| 0 <= k < frame_ranges(s).len() ==> (#[trigger] frame_ranges(s)[k]).0
            < frame_ranges(s)[k].1 <= s.len(),
{
    lemma_record_starts_below_props(s, s.len() as int);
    assert forall|k: int| 0 <= k < frame_ranges(s).len() implies (#[trigger] frame_ranges(s)[k]).0
        < frame_ranges(s)[k].1 <= s.len() by {
        let starts = record_starts(s);
        assert(is_record_start(s, starts[k]));
        if k + 1 < starts.len() {
            assert(starts[k] < starts[k + 1]);
        }
    }
}

/// Flipping any single bit inside the checksum-validation range of a
/// record that validates — anywhere but the two length-field bytes, whose
/// corruption instead changes which bytes the record claims to cover —
/// makes checksum validation fail.
pub proof fn lemma_bit_flip_breaks_validation(s: Seq<u8>, p: int, bit: u8)
    requires
        record_well_sized(s),
        record_checksum_ok(s),
        2 <= p < record_len(s) + 7,
        p != 5,
        p != 6,
        bit < 8,
    ensures
        record_well_sized(s.update(p, s[p] ^ (1u8 << bit))),
        !record_checksum_ok(s.update(p, s[p] ^ (1u8 << bit))),
{
    let s2 = s.update(p, s[p] ^ (1u8 << bit));
    assert(record_len(s2) == record_len(s));
    assert(le16(s2, record_len(s2) + 7) == le16(s, record_len(s) + 7));
    let v1 = validation_range(s);
    let v2 = validation_range(s2);
    let bp = s[p];
    assert(bp ^ (1u8 << bit) != bp) by (bit_vector)
        requires
            bit < 8,
    ;
    assert(v2[p - 2] != v1[p - 2]);
    crate::checksum::lemma_crc16_one_byte_change(v1, v2, p - 2);
}

/// Little-endian decode of a two-byte slice.
pub fn parse_u16(data: &[u8]) -> (r: u16)
    requires
        data@.len() == 2,
    ensures
        r as int == le16(data@, 0),
{
    data[0] as u16 + 256 * (data[1] as u16)
}

/// Validate one candidate record and decode it into a typed update.
///
/// Empty, truncated, unknown-tag and undersized records yield `Ok(None)`;
/// a checksum mismatch and an out-of-range flashlight byte are each
/// surfaced as a distinct error, local to this record.
pub fn process_value(value: &[u8]) -> (r: Result<Option<StatsUpdate>, DecodeError>)
    ensures
        r is Ok <==> !is_checksum_mismatch(value@) && !is_invalid_flashlight(value@),
        r matches Ok(u) ==> u == spec_decode_update(value@),
        r matches Err(DecodeError::ChecksumMismatch(p)) ==> is_checksum_mismatch(value@)
            && p@ == record_data(value@),
        r matches Err(DecodeError::InvalidFlashlightMode(b)) ==> is_invalid_flashlight(value@)
            && b == record_data(value@)[0],
{
    if value.len() < 9 {
        return Ok(None);
    }
    let key = value[4];
    let len = parse_u16(&value[5..7]) as usize;
    if value.len() < len + 9 {
        return Ok(None);
    }
    let expected = parse_u16(&value[len + 7..len + 9]);
    let computed = checksum(&value[2..len + 7]);
    if computed != expected {
        let payload = vstd::slice::slice_to_vec(&value[7..len + 7]);
        return Err(DecodeError::ChecksumMismatch(payload));
    }
    let data = &value[7..len + 7];
    if key == 0x04 && data.len() >= 8 {
        Ok(Some(StatsUpdate::Power(Power {
            batteries_one_power: parse_u16(&data[0..2]),
            batteries_two_power: parse_u16(&data[2..4]),
            inverter_one_power: parse_u16(&data[4..6]),
            inverter_two_power: parse_u16(&data[6..8]),
        })))
    } else if key == 0x09 && data.len() >= 24 {
        Ok(Some(StatsUpdate::Capacity(CapacityInfo {
            charge_time: parse_u16(&data[19..21]),
            discharge_time: parse_u16(&data[21..23]),
            battery_capacity_power: data[23],
        })))
    } else if key == 0x0b && data.len() >= 8 {
        Ok(Some(StatsUpdate::AcPower(parse_u16(&data[6..8]))))
    } else if key == 0x0c && data.len() >= 10 {
        Ok(Some(StatsUpdate::DcPower(DcPower {
            type_c_one_power: parse_u16(&data[0..2]),
            type_c_two_power: parse_u16(&data[2..4]),
            usb_one_power: parse_u16(&data[4..6]),
            usb_two_power: parse_u16(&data[6..8]),
            total: parse_u16(&data[8..10]),
        })))
    } else if key == 0x0f && data.len() >= 4 {
        Ok(Some(StatsUpdate::TotalPower(TotalPower {
            input: parse_u16(&data[0..2]),
            output: parse_u16(&data[2..4]),
        })))
    } else if key == 0x13 && data.len() >= 1 {
        match FlashlightMode::from_repr(data[0] as usize) {
            Some(mode) => Ok(Some(StatsUpdate::FlashlightStatus(mode))),
            None => Err(DecodeError::InvalidFlashlightMode(data[0])),
        }
    } else if key == 0x15 && data.len() >= 1 {
        Ok(Some(StatsUpdate::ElectricQuantityPower(data[0])))
    } else if key == 0x16 && data.len() >= 12 {
        Ok(Some(StatsUpdate::Status(Status {
            low_noise: data[0] != 0,
            low_battery_warning: data[1] != 0,
            usb_switch: data[2] != 0,
            dc_switch: data[3] != 0,
            ac_frequency_hz: data[4],
            warning_voice: data[5] != 0,
            ac_turbo: data[6] != 0,
            ac_switch: data[7] != 0,
            battery_health: data[8] != 0,
            locking: data[9] != 0,
            key_voice: data[10] == 0,
            standby: data[11] != 0,
        })))
    } else {
        Ok(None)
    }
}

/// Scan a notification buffer for the record separator and partition it
/// into candidate record ranges, leftmost occurrences first.
pub fn split_frames(data: &[u8]) -> (r: Vec<(usize, usize)>)
    ensures
        r@.len() == frame_ranges(data@).len(),
        forall|k: int| 0 <= k < r@.len() ==> (#[trigger] r@[k]).0 == frame_ranges(data@)[k].0
            && r@[k].1 == frame_ranges(data@)[k].1,
        forall|k: int| 0 <= k < r@.len() ==> (#[trigger] r@[k]).0 <= r@[k].1 <= data@.len(),
{
    let n = data.len();
    let mut starts: Vec<usize> = Vec::new();
    if n >= 5 {
        let mut i: usize = 0;
        while i < n - 4
            invariant
                n == data@.len(),
                5 <= n,
                0 <= i <= n - 4,
                starts@.len() == record_starts_below(data@, i as int).len(),
                forall|k: int| 0 <= k < starts@.len() ==> #[trigger] starts@[k] as int
                    == record_starts_below(data@, i as int)[k],
            decreases n - i,
        {
            if data[i] == 0x5a && data[i + 1] == 0xa5 && data[i + 2] == 0xc0 && data[i + 3] == 0xa1
            {
                starts.push(i);
            }
            i = i + 1;
        }
        proof {
            lemma_record_starts_below_extend(data@, n - 4, n as int);
        }
    } else {
        proof {
            lemma_record_starts_below_extend(data@, 0, n as int);
        }
    }
    let ghost gstarts = record_starts(data@);
    let mut r: Vec<(usize, usize)> = Vec::new();
    if starts.len() == 0 {
        r.push((0, n));
        proof {
            assert(r@[0].0 == frame_ranges(data@)[0].0 && r@[0].1 == frame_ranges(data@)[0].1);
        }
        return r;
    }
    proof {
        lemma_record_starts_below_props(data@, data@.len() as int);
    }
    let mut k: usize = 0;
    while k < starts.len()
        invariant
            n == data@.len(),
            starts@.len() == gstarts.len(),
            gstarts == record_starts(data@),
            gstarts.len() > 0,
            forall|j: int| 0 <= j < starts@.len() ==> #[trigger] starts@[j] as int == gstarts[j],
            forall|j: int| 0 <= j < gstarts.len() ==> is_record_start(data@, #[trigger] gstarts[j]),
            forall|j1: int, j2: int| 0 <= j1 < j2 < gstarts.len() ==> #[trigger] gstarts[j1]
                < #[trigger] gstarts[j2],
            0 <= k <= starts@.len(),
            r@.len() == k,
            forall|j: int| 0 <= j < k ==> (#[trigger] r@[j]).0 == frame_ranges(data@)[j].0
                && r@[j].1 == frame_ranges(data@)[j].1,
            forall|j: int| 0 <= j < k ==> (#[trigger] r@[j]).0 <= r@[j].1 <= data@.len(),
        decreases starts@.len() - k,
    {
        let a = starts[k];
        let b = if k + 1 < starts.len() {
            starts[k + 1]
        } else {
            n
        };
        proof {
            assert(is_record_start(data@, gstarts[k as int]));
            if k + 1 < starts@.len() {
                assert(gstarts[k as int] < gstarts[k as int + 1]);
            }
        }
        r.push((a, b));
        k = k + 1;
    }
    r
}

/// Updates contributed by the candidate ranges of buffer `s`, in order;
/// records that fail to decode contribute nothing.
pub open spec fn collect_updates(s: Seq<u8>, ranges: Seq<(int, int)>) -> Seq<StatsUpdate>
    decreases ranges.len(),
{
    if ranges.len() == 0 {
        Seq::empty()
    } else {
        collect_updates(s, ranges.drop_last()) + match spec_decode_update(
            s.subrange(ranges.last().0, ranges.last().1),
        ) {
            Some(u) => seq![u],
            None => Seq::empty(),
        }
    }
}

/// Every update decoded from the buffer's candidate records, in order.
pub open spec fn spec_notification_updates(s: Seq<u8>) -> Seq<StatsUpdate> {
    collect_updates(s, frame_ranges(s))
}

/// Split a notification buffer into candidate records and decode each one,
/// collecting the typed updates in order.  Per-record failures — truncated
/// records, checksum mismatches, unknown tags, bad flashlight bytes — are
/// dropped and never interrupt the rest of the buffer.
pub fn process_notification(data: &[u8]) -> (r: Vec<StatsUpdate>)
    ensures
        r@ == spec_notification_updates(data@),
{
    let frames = split_frames(data);
    let ghost ranges = frame_ranges(data@);
    let mut updates: Vec<StatsUpdate> = Vec::new();
    let mut k: usize = 0;
    while k < frames.len()
        invariant
            frames@.len() == ranges.len(),
            ranges == frame_ranges(data@),
            forall|j: int| 0 <= j < frames@.len() ==> (#[trigger] frames@[j]).0 == ranges[j].0
                && frames@[j].1 == ranges[j].1,
            forall|j: int| 0 <= j < frames@.len() ==> (#[trigger] frames@[j]).0 <= frames@[j].1
                <= data@.len(),
            0 <= k <= frames@.len(),
            updates@ == collect_updates(data@, ranges.subrange(0, k as int)),
        decreases frames@.len() - k,
    {
        let a = frames[k].0;
        let b = frames[k].1;
        let slice = &data[a..b];
        match process_value(slice) {
            Ok(Some(u)) => updates.push(u),
            _ => {},
        }
        proof {
            assert(ranges.subrange(0, k + 1).drop_last() =~= ranges.subrange(0, k as int));
            assert(ranges.subrange(0, k + 1).last() == ranges[k as int]);
        }
        k = k + 1;
    }
    proof {
        assert(ranges.subrange(0, ranges.len() as int) =~= ranges);
    }
    updates
}

} // verus!
