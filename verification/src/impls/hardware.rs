//! What the bladeRF hardware library knows of the board: its limits, its
//! gain stages and their ranges. Each function here hands on one answer of
//! that library; none of them is proved.

use crate::device::Direction;
use crate::range::{Range, RangeItem};
use vstd::prelude::*;

verus! {

/// Lowest frequency in Hz that the board tunes to without a transverter.
pub open spec fn frequency_floor_spec() -> u64 {
    237_500_000
}

/// The gain range of a direction as a whole, in dB.
pub open spec fn gain_items(direction: Direction) -> Seq<RangeItem> {
    match direction {
        Direction::Rx => seq![RangeItem::Step(-1i64, 60, 1)],
        Direction::Tx => seq![RangeItem::Step(17, 73, 1)],
    }
}

/// The names of the gain stages of a direction, first stage first.
pub open spec fn stage_names(direction: Direction) -> Seq<Seq<char>> {
    match direction {
        Direction::Rx => seq!["lna"@, "rxvga1"@, "rxvga2"@],
        Direction::Tx => seq!["txvga1"@, "txvga2"@],
    }
}

/// The gain range of one stage in dB; `None` for a name that is no stage
/// of the direction.
pub open spec fn stage_items(direction: Direction, stage: Seq<char>) -> Option<Seq<RangeItem>> {
    match direction {
        Direction::Rx => if stage == "lna"@ {
            Some(seq![RangeItem::Step(0, 6, 3)])
        } else if stage == "rxvga1"@ {
            Some(seq![RangeItem::Step(5, 30, 1)])
        } else if stage == "rxvga2"@ {
            Some(seq![RangeItem::Step(0, 30, 3)])
        } else {
            None
        },
        Direction::Tx => if stage == "txvga1"@ {
            Some(seq![RangeItem::Step(-35i64, -4i64, 1)])
        } else if stage == "txvga2"@ {
            Some(seq![RangeItem::Step(0, 25, 1)])
        } else {
            None
        },
    }
}

/// The sample rates in samples per second.
pub open spec fn sample_rate_items() -> Seq<RangeItem> {
    seq![RangeItem::Step(80_000, 40_000_000, 1)]
}

/// The filter bandwidths in Hz, narrowest first.
pub open spec fn bandwidth_items() -> Seq<RangeItem> {
    seq![
        RangeItem::Value(1_500_000),
        RangeItem::Value(1_750_000),
        RangeItem::Value(2_500_000),
        RangeItem::Value(2_750_000),
        RangeItem::Value(3_000_000),
        RangeItem::Value(3_840_000),
        RangeItem::Value(5_000_000),
        RangeItem::Value(5_500_000),
        RangeItem::Value(6_000_000),
        RangeItem::Value(7_000_000),
        RangeItem::Value(8_750_000),
        RangeItem::Value(10_000_000),
        RangeItem::Value(12_000_000),
        RangeItem::Value(14_000_000),
        RangeItem::Value(20_000_000),
        RangeItem::Value(28_000_000),
    ]
}

/// `libbladerf_rs::hardware::lms6002d::BLADERF_FREQUENCY_MIN`: the lowest
/// frequency without a transverter, which the library fixes at 237.5 MHz.
#[verifier::external_body]
pub(crate) fn frequency_floor() -> (hz: u64)
    ensures
        hz == frequency_floor_spec(),
{
    libbladerf_rs::hardware::lms6002d::BLADERF_FREQUENCY_MIN as u64
}

/// `BladeRf1::get_gain_range`: one arithmetic sequence per direction, built
/// from the library's stage limits and gain offsets; receive runs from -1 to
/// 60 dB and transmit from 17 to 73 dB, both in steps of 1.
#[verifier::external_body]
pub(crate) fn hardware_gain_range(direction: Direction) -> (r: Range)
    ensures
        r@ == gain_items(direction),
{
    let channel = match direction {
        Direction::Rx => libbladerf_rs::Channel::Rx,
        Direction::Tx => libbladerf_rs::Channel::Tx,
    };
    let found = libbladerf_rs::bladerf1::BladeRf1::get_gain_range(channel);
    Range::new(found.items.iter().map(|item| match *item {
        libbladerf_rs::range::RangeItem::Interval(min, max) => RangeItem::Interval(min as i64, max as i64),
        libbladerf_rs::range::RangeItem::Value(v) => RangeItem::Value(v as i64),
        libbladerf_rs::range::RangeItem::Step(min, max, step, _) => RangeItem::Step(min as i64, max as i64, step as i64),
    }).collect())
}

/// `BladeRf1::get_gain_stages`: the stage names of a direction, which the
/// library lists as `lna`, `rxvga1`, `rxvga2` for receive and `txvga1`,
/// `txvga2` for transmit.
#[verifier::external_body]
pub(crate) fn hardware_gain_stages(direction: Direction) -> (r: Vec<String>)
    ensures
        r@.len() == stage_names(direction).len(),
        forall|i: int| 0 <= i < r@.len() ==> (#[trigger] r@[i])@ == stage_names(direction)[i],
{
    let channel = match direction {
        Direction::Rx => libbladerf_rs::Channel::Rx,
        Direction::Tx => libbladerf_rs::Channel::Tx,
    };
    libbladerf_rs::bladerf1::BladeRf1::get_gain_stages(channel)
}

/// `BladeRf1::get_gain_stage_range`: the range of one named stage, one
/// arithmetic sequence each, and for any other name an error, which comes
/// back in words. Nothing is claimed of the words.
#[verifier::external_body]
pub(crate) fn hardware_stage_range(direction: Direction, stage: &str) -> (r: Result<Range, String>)
    ensures
        match stage_items(direction, stage@) {
            Some(items) => r is Ok && r->Ok_0@ == items,
            None => r is Err,
        },
{
    let channel = match direction {
        Direction::Rx => libbladerf_rs::Channel::Rx,
        Direction::Tx => libbladerf_rs::Channel::Tx,
    };
    let found = libbladerf_rs::bladerf1::BladeRf1::get_gain_stage_range(channel, stage)
        .map_err(|e| e.to_string())?;
    Ok(Range::new(found.items.iter().map(|item| match *item {
        libbladerf_rs::range::RangeItem::Interval(min, max) => RangeItem::Interval(min as i64, max as i64),
        libbladerf_rs::range::RangeItem::Value(v) => RangeItem::Value(v as i64),
        libbladerf_rs::range::RangeItem::Step(min, max, step, _) => RangeItem::Step(min as i64, max as i64, step as i64),
    }).collect()))
}

/// `BladeRf1::get_sample_rate_range`: one arithmetic sequence from 80 kHz
/// to 40 MHz in steps of 1.
#[verifier::external_body]
pub(crate) fn hardware_sample_rate_range() -> (r: Range)
    ensures
        r@ == sample_rate_items(),
{
    let found = libbladerf_rs::bladerf1::BladeRf1::get_sample_rate_range();
    Range::new(found.items.iter().map(|item| match *item {
        libbladerf_rs::range::RangeItem::Interval(min, max) => RangeItem::Interval(min as i64, max as i64),
        libbladerf_rs::range::RangeItem::Value(v) => RangeItem::Value(v as i64),
        libbladerf_rs::range::RangeItem::Step(min, max, step, _) => RangeItem::Step(min as i64, max as i64, step as i64),
    }).collect())
}

/// `BladeRf1::get_bandwidth_range`: the sixteen filter bandwidths of the
/// transceiver as single values, narrowest first.
#[verifier::external_body]
pub(crate) fn hardware_bandwidth_range() -> (r: Range)
    ensures
        r@ == bandwidth_items(),
{
    let found = libbladerf_rs::bladerf1::BladeRf1::get_bandwidth_range();
    Range::new(found.items.iter().map(|item| match *item {
        libbladerf_rs::range::RangeItem::Interval(min, max) => RangeItem::Interval(min as i64, max as i64),
        libbladerf_rs::range::RangeItem::Value(v) => RangeItem::Value(v as i64),
        libbladerf_rs::range::RangeItem::Step(min, max, step, _) => RangeItem::Step(min as i64, max as i64, step as i64),
    }).collect())
}

} // verus!
