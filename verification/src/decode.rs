//! Frame decoder: raw sample columns in, calibrated data points out.
//! Unpacks the nine-bit digital bitmap that arrives as a hexadecimal
//! text field and applies the active probe's stored calibration to the
//! analog column.

use vstd::prelude::*;

use crate::device::DataPoint;

verus! {

/// Largest raw analog count the decoder accepts; anything outside is a
/// protocol violation.
pub const RAW_LIMIT: i64 = 1_048_576;

/// Largest magnitude for stored calibration constants.
pub const CAL_LIMIT: i64 = 1_048_576;

/// Stored calibration of one probe, captured against the 0 V and 3.3 V
/// references: raw counts are shifted by the zero reading and scaled to
/// microvolts.
#[derive(Clone, Copy, Debug, PartialEq, Eq)]
pub struct ProbeCalibration {
    /// Raw count the probe reports at 0 V.
    pub zero_count: i64,
    /// Microvolts per raw count.
    pub gain_uv: i64,
}

impl ProbeCalibration {
    /// Constants within the ranges the decoder's arithmetic supports.
    pub open spec fn wf(&self) -> bool {
        &&& -CAL_LIMIT <= self.zero_count <= CAL_LIMIT
        &&& -CAL_LIMIT <= self.gain_uv <= CAL_LIMIT
    }
}

/// The calibrated value of one raw count, in microvolts.
pub open spec fn spec_apply_calibration(cal: ProbeCalibration, raw: i64) -> int {
    (raw - cal.zero_count) * cal.gain_uv
}

/// Applies a probe's stored calibration to one raw count.
pub fn apply_calibration(cal: &ProbeCalibration, raw: i64) -> (r: i64)
    requires
        cal.wf(),
        -RAW_LIMIT <= raw <= RAW_LIMIT,
    ensures
        r == spec_apply_calibration(*cal, raw),
{
    let diff = raw - cal.zero_count;
    proof {
        assert(diff * cal.gain_uv <= 0x4000_0000_0000_0000 && diff * cal.gain_uv
            >= -0x4000_0000_0000_0000) by (nonlinear_arith)
            requires
                -2_097_152 <= diff <= 2_097_152,
                -1_048_576 <= cal.gain_uv <= 1_048_576,
        ;
    }
    diff * cal.gain_uv
}

/// Value of one hexadecimal digit character, if it is one.
pub open spec fn spec_hex_digit(c: u8) -> Option<u8> {
    if 48 <= c <= 57 {
        Some((c - 48) as u8)
    } else if 97 <= c <= 102 {
        Some((c - 87) as u8)
    } else if 65 <= c <= 70 {
        Some((c - 55) as u8)
    } else {
        None
    }
}

/// Numeric value of a digit sequence read as hexadecimal; invalid
/// characters count as zero and are rejected separately.
pub open spec fn spec_hex_value(digits: Seq<u8>) -> int
    decreases digits.len(),
{
    if digits.len() == 0 {
        0
    } else {
        16 * spec_hex_value(digits.drop_last()) + (match spec_hex_digit(digits.last()) {
            Some(d) => d as int,
            None => 0,
        })
    }
}

/// What a bitmap text field denotes: `0x` followed by at least one hex
/// digit, with a value that fits the sixteen-bit bitmap.
pub open spec fn spec_parse_bitmap(s: Seq<u8>) -> Option<u16> {
    if s.len() >= 3 && s[0] == 48 && s[1] == 120 && (forall|i: int|
        2 <= i < s.len() ==> spec_hex_digit(#[trigger] s[i]) is Some) && spec_hex_value(
        s.skip(2),
    ) <= 0xFFFF {
        Some(spec_hex_value(s.skip(2)) as u16)
    } else {
        None
    }
}

proof fn lemma_hex_value_nonneg(digits: Seq<u8>)
    ensures
        spec_hex_value(digits) >= 0,
    decreases digits.len(),
{
    if digits.len() > 0 {
        lemma_hex_value_nonneg(digits.drop_last());
    }
}

/// The value of a digit string only grows as digits are appended.
proof fn lemma_hex_value_prefix_le(digits: Seq<u8>, i: int)
    requires
        0 <= i <= digits.len(),
    ensures
        spec_hex_value(digits.subrange(0, i)) <= spec_hex_value(digits),
    decreases digits.len() - i,
{
    if i == digits.len() {
        assert(digits.subrange(0, i) =~= digits);
    } else {
        let shorter = digits.subrange(0, i);
        let longer = digits.subrange(0, i + 1);
        assert(longer.drop_last() =~= shorter);
        lemma_hex_value_nonneg(shorter);
        lemma_hex_value_prefix_le(digits, i + 1);
    }
}

/// Value of one hexadecimal digit character, accepting both cases.
fn hex_digit(c: u8) -> (r: Option<u8>)
    ensures
        r == spec_hex_digit(c),
{
    if 48 <= c && c <= 57 {
        Some(c - 48)
    } else if 97 <= c && c <= 102 {
        Some(c - 87)
    } else if 65 <= c && c <= 70 {
        Some(c - 55)
    } else {
        None
    }
}

/// Parses a bitmap text field of the form `0x1ff` into the sixteen-bit
/// digital bitmap it denotes.
pub fn parse_bitmap_hex(s: &[u8]) -> (r: Option<u16>)
    ensures
        r == spec_parse_bitmap(s@),
{
    if s.len() < 3 || s[0] != 48 || s[1] != 120 {
        return None;
    }
    let ghost digits = s@.skip(2);
    let mut acc: u32 = 0;
    let mut i: usize = 2;
    while i < s.len()
        invariant
            2 <= i <= s@.len(),
            3 <= s@.len(),
            s@[0] == 48,
            s@[1] == 120,
            digits == s@.skip(2),
            acc <= 0xFFFF,
            acc == spec_hex_value(digits.subrange(0, i - 2)),
            forall|k: int| 2 <= k < i ==> spec_hex_digit(#[trigger] s@[k]) is Some,
        decreases s@.len() - i,
    {
        let d = match hex_digit(s[i]) {
            Some(d) => d,
            None => {
                return None;
            },
        };
        proof {
            assert(digits.subrange(0, i - 1).drop_last() =~= digits.subrange(0, i - 2));
            assert(digits.subrange(0, i - 1).last() == s@[i as int]);
        }
        let next = acc * 16 + d as u32;
        assert(next == spec_hex_value(digits.subrange(0, i - 1)));
        if next > 0xFFFF {
            proof {
                lemma_hex_value_prefix_le(digits, i - 1);
            }
            return None;
        }
        acc = next;
        i = i + 1;
    }
    proof {
        assert(digits.subrange(0, s@.len() - 2) =~= digits);
    }
    Some(acc as u16)
}

/// Unpacks the nine digital channel states from a bitmap: channel `i`
/// is bit `i`.
pub fn unpack_digital(bitmap: u16) -> (r: [bool; 9])
    ensures
        forall|i: int| 0 <= i < 9 ==> r[i] == ((bitmap >> (i as u16)) & 1 == 1),
{
    [
        (bitmap >> 0u16) & 1 == 1,
        (bitmap >> 1u16) & 1 == 1,
        (bitmap >> 2u16) & 1 == 1,
        (bitmap >> 3u16) & 1 == 1,
        (bitmap >> 4u16) & 1 == 1,
        (bitmap >> 5u16) & 1 == 1,
        (bitmap >> 6u16) & 1 == 1,
        (bitmap >> 7u16) & 1 == 1,
        (bitmap >> 8u16) & 1 == 1,
    ]
}

/// Why a raw frame was rejected; a rejected frame never updates the
/// published snapshot.
#[derive(Clone, Copy, Debug, PartialEq, Eq, Structural)]
pub enum DecodeError {
    /// The three columns do not describe the same number of samples.
    LengthMismatch,
    /// A bitmap field is not `0x` plus hex digits within sixteen bits.
    InvalidBitmap,
    /// A raw analog count is outside the converter's range.
    AnalogOutOfRange,
}

/// The defect of one row, if any: an unparsable bitmap is reported
/// before an out-of-range analog count.
pub open spec fn spec_row_error(bnc: i64, bitmap: Seq<u8>) -> Option<DecodeError> {
    if spec_parse_bitmap(bitmap) is None {
        Some(DecodeError::InvalidBitmap)
    } else if bnc < -RAW_LIMIT || bnc > RAW_LIMIT {
        Some(DecodeError::AnalogOutOfRange)
    } else {
        None
    }
}

/// The decoded points describe exactly the raw columns: each analog
/// value carries the calibration, each digital channel is its bitmap
/// bit.
pub open spec fn spec_points_match(
    pts: Seq<DataPoint>,
    bnc: Seq<i64>,
    bitmaps: Seq<Seq<u8>>,
    cal: ProbeCalibration,
) -> bool {
    &&& pts.len() == bnc.len()
    &&& forall|i: int|
        0 <= i < pts.len() ==> #[trigger] pts[i].analog_channel == spec_apply_calibration(
            cal,
            bnc[i],
        )
    &&& forall|i: int, j: int|
        0 <= i < pts.len() && 0 <= j < 9 ==> #[trigger] pts[i].digital_channels[j] == ((
        spec_parse_bitmap(bitmaps[i]).unwrap() >> (j as u16)) & 1 == 1)
}

/// The first row defect at or after row `i`, scanning forward.
pub open spec fn spec_scan_error(bnc: Seq<i64>, bitmaps: Seq<Seq<u8>>, i: int) -> Option<
    DecodeError,
>
    decreases bnc.len() - i,
{
    if i < 0 || i >= bnc.len() {
        None
    } else if spec_row_error(bnc[i], bitmaps[i]) is Some {
        spec_row_error(bnc[i], bitmaps[i])
    } else {
        spec_scan_error(bnc, bitmaps, i + 1)
    }
}

/// Decodes one raw frame: checks the three columns agree, parses every
/// bitmap, range-checks and calibrates every analog count.  Returns the
/// time column and the decoded points, or the first defect found; a
/// defective frame produces no output at all.
pub fn decode_frame(
    times_us: &Vec<i64>,
    bnc_raw: &Vec<i64>,
    bitmaps: &Vec<Vec<u8>>,
    cal: &ProbeCalibration,
) -> (r: Result<(Vec<i64>, Vec<DataPoint>), DecodeError>)
    requires
        cal.wf(),
    ensures
        (times_us@.len() != bnc_raw@.len() || times_us@.len() != bitmaps@.len()) ==> r == Err::<
            (Vec<i64>, Vec<DataPoint>),
            DecodeError,
        >(DecodeError::LengthMismatch),
        times_us@.len() == bnc_raw@.len() && times_us@.len() == bitmaps@.len() ==> (
        match spec_scan_error(bnc_raw@, bitmaps@.map_values(|b: Vec<u8>| b@), 0) {
            Some(e) => r == Err::<(Vec<i64>, Vec<DataPoint>), DecodeError>(e),
            None => r matches Ok(d) && d.0@ == times_us@ && spec_points_match(
                d.1@,
                bnc_raw@,
                bitmaps@.map_values(|b: Vec<u8>| b@),
                *cal,
            ),
        }),
{
    if times_us.len() != bnc_raw.len() || times_us.len() != bitmaps.len() {
        return Err(DecodeError::LengthMismatch);
    }
    let ghost bms = bitmaps@.map_values(|b: Vec<u8>| b@);
    let mut x: Vec<i64> = Vec::new();
    let mut pts: Vec<DataPoint> = Vec::new();
    let mut i: usize = 0;
    while i < times_us.len()
        invariant
            cal.wf(),
            i <= times_us@.len(),
            times_us@.len() == bnc_raw@.len(),
            times_us@.len() == bitmaps@.len(),
            bms == bitmaps@.map_values(|b: Vec<u8>| b@),
            spec_scan_error(bnc_raw@, bms, 0) == spec_scan_error(bnc_raw@, bms, i as int),
            x@ == times_us@.subrange(0, i as int),
            pts@.len() == i,
            forall|k: int|
                0 <= k < i ==> #[trigger] pts@[k].analog_channel == spec_apply_calibration(
                    *cal,
                    bnc_raw@[k],
                ),
            forall|k: int, j: int|
                0 <= k < i && 0 <= j < 9 ==> #[trigger] pts@[k].digital_channels[j] == ((
                spec_parse_bitmap(bitmaps@[k]@).unwrap() >> (j as u16)) & 1 == 1),
        decreases times_us@.len() - i,
    {
        let bitmap = match parse_bitmap_hex(bitmaps[i].as_slice()) {
            Some(b) => b,
            None => {
                return Err(DecodeError::InvalidBitmap);
            },
        };
        let raw = bnc_raw[i];
        if raw < -RAW_LIMIT || raw > RAW_LIMIT {
            return Err(DecodeError::AnalogOutOfRange);
        }
        x.push(times_us[i]);
        pts.push(
            DataPoint {
                analog_channel: apply_calibration(cal, raw),
                digital_channels: unpack_digital(bitmap),
            },
        );
        i = i + 1;
    }
    proof {
        assert(x@ =~= times_us@);
    }
    Ok((x, pts))
}

} // verus!
