//! The rules of the bladeRF x40 / x115 backend: which unit an argument list
//! addresses, what each channel can do, and what to ask of the hardware for
//! each request. The hardware itself is driven by the caller.

use crate::args::{
    lemma_lookup_absent, lemma_lookup_at, lemma_upsert_new, lookup, Args, Entries,
};
use crate::device::{Direction, Driver};
use crate::error::Error;
use crate::impls::hardware::{
    bandwidth_items, frequency_floor, frequency_floor_spec, gain_items, hardware_bandwidth_range,
    hardware_gain_range, hardware_gain_stages, hardware_sample_rate_range, hardware_stage_range,
    sample_rate_items, stage_items, stage_names,
};
use crate::registry::{is_match, matching_units, views};
use crate::range::{Range, RangeItem};
use crate::streamer::{
    delay_spec, delay_until, settle, settle_spec, write_request, write_request_spec, written,
    StreamState, Transfer, WriteRequest,
};
use crate::value::{decimal, decimal_text, lemma_decimal_text, u8_text, ArgValue};
use vstd::prelude::*;

verus! {

/// How an argument list addresses a unit.
#[derive(Clone, Copy, Debug, PartialEq, Eq, Structural)]
pub enum Selector {
    /// Through a file descriptor that is already open.
    FileDescriptor(i32),
    /// By USB bus number and device address.
    BusAddress { bus_number: u8, address: u8 },
    /// Whichever unit is found first.
    First,
}

/// The expansion boards of the bladeRF.
#[derive(Clone, Copy, Debug, PartialEq, Eq, Structural)]
pub enum ExpansionBoard {
    /// No board.
    XbNone,
    /// XB-100 GPIO board.
    Xb100,
    /// XB-200 transverter board.
    Xb200,
    /// XB-300 amplifier board.
    Xb300,
}

/// Gain control modes.
#[derive(Clone, Copy, Debug, PartialEq, Eq, Structural)]
pub enum GainMode {
    /// Automatic gain control.
    Default,
    /// Manual gain control.
    Mgc,
}

/// Where tuning stands.
#[derive(Clone, Copy, Debug, PartialEq, Eq, Structural)]
pub enum TuneProgress {
    /// Nothing was asked of the hardware yet.
    Start,
    /// The hardware reported the attached expansion board.
    Expansion(ExpansionBoard),
    /// The transverter board was attached.
    Attached,
}

/// What tuning asks of the hardware next.
#[derive(Clone, Copy, Debug, PartialEq, Eq, Structural)]
pub enum TuneStep {
    /// Read which expansion board is attached.
    QueryExpansion,
    /// Attach this expansion board.
    Attach(ExpansionBoard),
    /// Tune the channel of this direction to this frequency in Hz.
    Tune { direction: Direction, frequency: u64 },
}

/// The only channel index of either direction.
pub const CHANNEL: usize = 0;

/// Size in samples of a stream's transfer buffer.
pub const STREAM_BUFFER_SIZE: usize = 65536;

/// Number of transfers that a stream keeps in flight.
pub const STREAM_TRANSFERS: usize = 8;

/// `x` forced into `lo..=hi`.
pub open spec fn saturate(x: int, lo: int, hi: int) -> int {
    if x < lo {
        lo
    } else if x > hi {
        hi
    } else {
        x
    }
}

/// Whether `channel` is a channel of the board.
pub open spec fn valid_channel(channel: usize) -> bool {
    channel == CHANNEL
}

/// How an argument list addresses a unit. A readable `fd` wins. Otherwise
/// `bus_number` and `address` select together; with neither the first unit
/// is taken; one without the other, or one that is no number below 256, is
/// an error.
pub open spec fn selector_spec(m: Entries) -> Option<Selector> {
    let fd = lookup(m, "fd"@);
    let bus = lookup(m, "bus_number"@);
    let address = lookup(m, "address"@);
    if fd is Some && i32::accepts(fd->Some_0) {
        Some(Selector::FileDescriptor(decimal(fd->Some_0, true)->Some_0 as i32))
    } else if bus is None && address is None {
        Some(Selector::First)
    } else if bus is Some && address is Some && u8::accepts(bus->Some_0) && u8::accepts(
        address->Some_0,
    ) {
        Some(
            Selector::BusAddress {
                bus_number: decimal(bus->Some_0, false)->Some_0 as u8,
                address: decimal(address->Some_0, false)->Some_0 as u8,
            },
        )
    } else {
        None
    }
}

/// A USB device as the host lists it.
#[derive(Clone, Copy, Debug, PartialEq, Eq, Structural)]
pub struct UsbLocation {
    /// Number of the bus.
    pub bus_number: u8,
    /// Address of the device on its bus.
    pub address: u8,
}

/// One bladeRF unit, as addressed by the arguments it was opened with.
#[derive(Clone, Copy, Debug, PartialEq, Eq)]
pub struct BladeRf {
    selector: Selector,
}

impl View for BladeRf {
    type V = Selector;

    closed spec fn view(&self) -> Selector {
        self.selector
    }
}

impl BladeRf {
    /// Decide which unit `args` addresses.
    ///
    /// Fails with `ValueError` where `bus_number` and `address` do not come
    /// as a pair of numbers below 256.
    pub fn open(args: &Args) -> (r: Result<BladeRf, Error>)
        ensures
            match selector_spec(args@) {
                Some(s) => r is Ok && r->Ok_0@ == s,
                None => r is Err && r->Err_0 == Error::ValueError,
            },
    {
        if let Ok(fd) = args.get::<i32>("fd") {
            return Ok(BladeRf { selector: Selector::FileDescriptor(fd) });
        }
        let bus_number = args.get::<u8>("bus_number");
        let address = args.get::<u8>("address");
        match (bus_number, address) {
            (Ok(bus_number), Ok(address)) => Ok(
                BladeRf { selector: Selector::BusAddress { bus_number, address } },
            ),
            (Err(Error::NotFound), Err(Error::NotFound)) => Ok(
                BladeRf { selector: Selector::First },
            ),
            _ => Err(Error::ValueError),
        }
    }

    /// How the unit is addressed.
    pub fn selector(&self) -> (s: Selector)
        ensures
            s == self@,
    {
        self.selector
    }

    /// Whether `channel` is a channel of the board: `ValueError` if not.
    pub fn check_channel(&self, direction: Direction, channel: usize) -> (r: Result<(), Error>)
        ensures
            valid_channel(channel) ==> r == Ok::<(), Error>(()),
            !valid_channel(channel) ==> r == Err::<(), Error>(Error::ValueError),
    {
        if channel != CHANNEL {
            return Err(Error::ValueError);
        }
        Ok(())
    }

    /// The identity tag of this backend.
    pub fn driver(&self) -> (d: Driver)
        ensures
            d == Driver::BladeRf,
    {
        Driver::BladeRf
    }

    /// Number of channels of a direction: one.
    pub fn num_channels(&self, direction: Direction) -> (r: Result<usize, Error>)
        ensures
            r == Ok::<usize, Error>(1),
    {
        Ok(1)
    }

    /// Whether a channel can receive and transmit at once: the board can.
    /// Fails with `ValueError` for a channel that the board does not have.
    pub fn full_duplex(&self, direction: Direction, channel: usize) -> (r: Result<bool, Error>)
        ensures
            valid_channel(channel) ==> r == Ok::<bool, Error>(true),
            !valid_channel(channel) ==> r == Err::<bool, Error>(Error::ValueError),
    {
        if channel != CHANNEL {
            return Err(Error::ValueError);
        }
        Ok(true)
    }

    /// The descriptors of the attached units that match the filter `args`,
    /// in the order in which the units are listed. A descriptor holds the
    /// arguments that open its unit again.
    pub fn probe(args: &Args, attached: &Vec<UsbLocation>) -> (r: Result<Vec<Args>, Error>)
        ensures
            r is Ok,
            views(r->Ok_0@) == matching_units(args@, descriptors(attached@)),
    {
        let ghost all = descriptors(attached@);
        let mut found: Vec<Args> = Vec::new();
        let mut i: usize = 0;
        proof {
            assert(all.take(0) =~= Seq::<Entries>::empty());
            assert(views(found@) =~= Seq::<Entries>::empty());
        }
        while i < attached.len()
            invariant
                i <= attached.len(),
                all == descriptors(attached@),
                views(found@) == matching_units(args@, all.take(i as int)),
            decreases attached.len() - i,
        {
            let unit = attached[i];
            let bus = u8_text(unit.bus_number);
            let address = u8_text(unit.address);
            let mut entry = Args::new();
            proof {
                lemma_descriptor_keys();
                lemma_upsert_new(Entries::empty(), "driver"@, "bladerf"@);
                let one = Entries::empty().push(("driver"@, "bladerf"@));
                lemma_upsert_new(one, "bus_number"@, bus@);
                lemma_upsert_new(one.push(("bus_number"@, bus@)), "address"@, address@);
            }
            entry.set("driver", "bladerf");
            entry.set("bus_number", bus.as_str());
            entry.set("address", address.as_str());
            proof {
                assert(entry@ =~= descriptor(unit));
                assert(all.take(i + 1).drop_last() =~= all.take(i as int));
                assert(all.take(i + 1).last() == descriptor(unit));
            }
            if is_match(args, &entry) {
                let ghost before = found@;
                found.push(entry);
                assert(views(found@) =~= views(before).push(descriptor(unit)));
            }
            i = i + 1;
        }
        assert(all.take(i as int) =~= all);
        Ok(found)
    }

    /// The metadata of the unit, given the firmware version that it reports.
    pub fn info(&self, firmware_version: &str) -> (r: Result<Args, Error>)
        ensures
            r is Ok,
            r->Ok_0@ == seq![("firmware version"@, firmware_version@)],
    {
        let mut args = Args::new();
        proof {
            lemma_upsert_new(Entries::empty(), "firmware version"@, firmware_version@);
        }
        args.set("firmware version", firmware_version);
        assert(args@ =~= seq![("firmware version"@, firmware_version@)]);
        Ok(args)
    }

    /// A receive stream on `channels`, not yet active. The board has one
    /// receive channel: any list but `[0]` fails with `ValueError`.
    pub fn rx_streamer(&self, channels: &[usize], args: Args) -> (r: Result<RxStreamer, Error>)
        ensures
            channels@ == seq![CHANNEL] ==> r is Ok && r->Ok_0.is_fresh(),
            channels@ != seq![CHANNEL] ==> r is Err && r->Err_0 == Error::ValueError,
    {
        if channels.len() == 1 && channels[0] == CHANNEL {
            assert(channels@ =~= seq![CHANNEL]);
            Ok(
                RxStreamer {
                    state: StreamState::Inactive,
                    buffer_size: STREAM_BUFFER_SIZE,
                    transfers: STREAM_TRANSFERS,
                },
            )
        } else {
            Err(Error::ValueError)
        }
    }

    /// A transmit stream on `channels`, not yet active. The board has one
    /// transmit channel: any list but `[0]` fails with `ValueError`.
    pub fn tx_streamer(&self, channels: &[usize], args: Args) -> (r: Result<TxStreamer, Error>)
        ensures
            channels@ == seq![CHANNEL] ==> r is Ok && r->Ok_0.is_fresh(),
            channels@ != seq![CHANNEL] ==> r is Err && r->Err_0 == Error::ValueError,
    {
        if channels.len() == 1 && channels[0] == CHANNEL {
            assert(channels@ =~= seq![CHANNEL]);
            Ok(
                TxStreamer {
                    state: StreamState::Inactive,
                    buffer_size: STREAM_BUFFER_SIZE,
                    transfers: STREAM_TRANSFERS,
                },
            )
        } else {
            Err(Error::ValueError)
        }
    }

    /// Antenna ports: the board has no choice of them.
    pub fn antennas(&self, direction: Direction, channel: usize) -> (r: Result<Vec<String>, Error>)
        ensures
            r is Err && r->Err_0 == Error::NotSupported,
    {
        Err(Error::NotSupported)
    }

    /// The antenna port in use: the board has no choice of them.
    pub fn antenna(&self, direction: Direction, channel: usize) -> (r: Result<String, Error>)
        ensures
            r is Err && r->Err_0 == Error::NotSupported,
    {
        Err(Error::NotSupported)
    }

    /// Choosing an antenna port: the board has no choice of them.
    pub fn set_antenna(&self, direction: Direction, channel: usize, name: &str) -> (r: Result<
        (),
        Error,
    >)
        ensures
            r == Err::<(), Error>(Error::NotSupported),
    {
        Err(Error::NotSupported)
    }

    /// Whether a channel has automatic gain control: receive has, transmit
    /// has not. Fails with `ValueError` for a channel that the board does
    /// not have.
    pub fn supports_agc(&self, direction: Direction, channel: usize) -> (r: Result<bool, Error>)
        ensures
            r == agc_support(direction, channel),
    {
        if channel != CHANNEL {
            return Err(Error::ValueError);
        }
        match direction {
            Direction::Rx => Ok(true),
            Direction::Tx => Ok(false),
        }
    }

    /// The gain mode to program in order to switch automatic gain control on
    /// or off. Where the channel has no automatic gain control this fails
    /// with `NotSupported`, and nothing is to be programmed.
    pub fn enable_agc(&self, direction: Direction, channel: usize, agc: bool) -> (r: Result<
        GainMode,
        Error,
    >)
        ensures
            r == agc_request(direction, channel, agc),
    {
        if channel != CHANNEL {
            return Err(Error::ValueError);
        }
        match direction {
            Direction::Tx => Err(Error::NotSupported),
            Direction::Rx => if agc {
                Ok(GainMode::Default)
            } else {
                Ok(GainMode::Mgc)
            },
        }
    }

    /// Whether automatic gain control is on, given the gain mode that the
    /// hardware reports.
    pub fn agc(&self, direction: Direction, channel: usize, mode: GainMode) -> (r: Result<
        bool,
        Error,
    >)
        ensures
            !valid_channel(channel) ==> r == Err::<bool, Error>(Error::ValueError),
            valid_channel(channel) && direction == Direction::Tx ==> r == Err::<bool, Error>(
                Error::NotSupported,
            ),
            valid_channel(channel) && direction == Direction::Rx ==> r == Ok::<bool, Error>(
                mode == GainMode::Default,
            ),
    {
        if channel != CHANNEL {
            return Err(Error::ValueError);
        }
        match direction {
            Direction::Tx => Err(Error::NotSupported),
            Direction::Rx => match mode {
                GainMode::Default => Ok(true),
                GainMode::Mgc => Ok(false),
            },
        }
    }

    /// The names of the gain stages of a channel, first stage first.
    pub fn gain_elements(&self, direction: Direction, channel: usize) -> (r: Result<
        Vec<String>,
        Error,
    >)
        ensures
            !valid_channel(channel) ==> r is Err && r->Err_0 == Error::ValueError,
            valid_channel(channel) ==> r is Ok && r->Ok_0@.len() == stage_names(direction).len()
                && forall|i: int|
                0 <= i < r->Ok_0@.len() ==> (#[trigger] r->Ok_0@[i])@ == stage_names(direction)[i],
    {
        if channel != CHANNEL {
            return Err(Error::ValueError);
        }
        Ok(hardware_gain_stages(direction))
    }

    /// The value in dB to program for an overall gain of `gain`: the
    /// nearest that the hardware's gain register can hold.
    pub fn set_gain(&self, direction: Direction, channel: usize, gain: i64) -> (r: Result<
        i8,
        Error,
    >)
        ensures
            !valid_channel(channel) ==> r == Err::<i8, Error>(Error::ValueError),
            valid_channel(channel) ==> r == Ok::<i8, Error>(saturate(gain as int, -128, 127) as i8),
    {
        if channel != CHANNEL {
            return Err(Error::ValueError);
        }
        Ok(gain_register(gain))
    }

    /// The overall gain range of a channel in dB.
    pub fn gain_range(&self, direction: Direction, channel: usize) -> (r: Result<Range, Error>)
        ensures
            !valid_channel(channel) ==> r is Err && r->Err_0 == Error::ValueError,
            valid_channel(channel) ==> r is Ok && r->Ok_0@ == gain_items(direction),
    {
        if channel != CHANNEL {
            return Err(Error::ValueError);
        }
        Ok(hardware_gain_range(direction))
    }

    /// The value in dB to program for a gain of `gain` at one stage: the
    /// nearest that the hardware's gain register can hold.
    pub fn set_gain_element(
        &self,
        direction: Direction,
        channel: usize,
        name: &str,
        gain: i64,
    ) -> (r: Result<i8, Error>)
        ensures
            !valid_channel(channel) ==> r == Err::<i8, Error>(Error::ValueError),
            valid_channel(channel) ==> r == Ok::<i8, Error>(saturate(gain as int, -128, 127) as i8),
    {
        if channel != CHANNEL {
            return Err(Error::ValueError);
        }
        Ok(gain_register(gain))
    }

    /// The gain range of one stage of a channel in dB. A name that is no
    /// stage of the direction fails with `Misc` and the hardware library's
    /// words.
    pub fn gain_element_range(&self, direction: Direction, channel: usize, name: &str) -> (r:
        Result<Range, Error>)
        ensures
            !valid_channel(channel) ==> r is Err && r->Err_0 == Error::ValueError,
            valid_channel(channel) ==> match stage_items(direction, name@) {
                Some(items) => r is Ok && r->Ok_0@ == items,
                None => r is Err && r->Err_0 is Misc,
            },
    {
        if channel != CHANNEL {
            return Err(Error::ValueError);
        }
        match hardware_stage_range(direction, name) {
            Ok(range) => Ok(range),
            Err(message) => Err(Error::Misc(message)),
        }
    }

    /// The tunable frequencies of a channel in Hz, given the lowest and the
    /// highest that the hardware reports: every whole number between them.
    /// Fails with `ValueError` where the hardware could not tell.
    pub fn frequency_range(
        &self,
        direction: Direction,
        channel: usize,
        limits: Option<(i64, i64)>,
    ) -> (r: Result<Range, Error>)
        ensures
            !valid_channel(channel) || limits is None ==> r is Err && r->Err_0
                == Error::ValueError,
            valid_channel(channel) && limits is Some ==> r is Ok && r->Ok_0@ == seq![
                RangeItem::Step(limits->Some_0.0, limits->Some_0.1, 1),
            ],
    {
        if channel != CHANNEL {
            return Err(Error::ValueError);
        }
        match limits {
            Some((lowest, highest)) => {
                let mut items: Vec<RangeItem> = Vec::new();
                items.push(RangeItem::Step(lowest, highest, 1));
                assert(items@ =~= seq![RangeItem::Step(lowest, highest, 1)]);
                Ok(Range::new(items))
            },
            None => Err(Error::ValueError),
        }
    }

    /// What to ask of the hardware next in order to tune a channel to
    /// `frequency` Hz. Below the board's own lowest frequency the XB-200
    /// transverter is needed: the attached board is read first, and the
    /// transverter attached unless it is there already. A negative
    /// frequency counts as 0.
    pub fn set_frequency(
        &self,
        direction: Direction,
        channel: usize,
        frequency: i64,
        progress: TuneProgress,
    ) -> (r: Result<TuneStep, Error>)
        ensures
            !valid_channel(channel) ==> r == Err::<TuneStep, Error>(Error::ValueError),
            valid_channel(channel) ==> r == Ok::<TuneStep, Error>(
                tune_spec(direction, frequency, progress),
            ),
    {
        if channel != CHANNEL {
            return Err(Error::ValueError);
        }
        let hz: u64 = if frequency < 0 {
            0
        } else {
            frequency as u64
        };
        let tune = TuneStep::Tune { direction, frequency: hz };
        if hz >= frequency_floor() {
            return Ok(tune);
        }
        match progress {
            TuneProgress::Start => Ok(TuneStep::QueryExpansion),
            TuneProgress::Expansion(ExpansionBoard::Xb200) => Ok(tune),
            TuneProgress::Expansion(_) => Ok(TuneStep::Attach(ExpansionBoard::Xb200)),
            TuneProgress::Attached => Ok(tune),
        }
    }

    /// Where tuning stands once the hardware was asked which expansion
    /// board is attached. Where it could not tell, tuning ends with
    /// `ValueError`: nothing is attached and nothing tuned.
    pub fn expansion_read(&self, outcome: Result<ExpansionBoard, String>) -> (r: Result<
        TuneProgress,
        Error,
    >)
        ensures
            outcome is Ok ==> r == Ok::<TuneProgress, Error>(
                TuneProgress::Expansion(outcome->Ok_0),
            ),
            outcome is Err ==> r == Err::<TuneProgress, Error>(Error::ValueError),
    {
        match outcome {
            Ok(board) => Ok(TuneProgress::Expansion(board)),
            Err(_) => Err(Error::ValueError),
        }
    }

    /// Where tuning stands once the hardware was asked to attach the
    /// transverter. Where that failed, tuning ends with `Misc` and the
    /// hardware's message: nothing is tuned.
    pub fn expansion_attached(&self, outcome: Result<(), String>) -> (r: Result<
        TuneProgress,
        Error,
    >)
        ensures
            outcome is Ok ==> r == Ok::<TuneProgress, Error>(TuneProgress::Attached),
            outcome is Err ==> r == Err::<TuneProgress, Error>(Error::Misc(outcome->Err_0)),
    {
        match outcome {
            Ok(()) => Ok(TuneProgress::Attached),
            Err(message) => Err(Error::Misc(message)),
        }
    }

    /// The parts of the tuning chain: the board has none that can be set alone.
    pub fn frequency_components(&self, direction: Direction, channel: usize) -> (r: Result<
        Vec<String>,
        Error,
    >)
        ensures
            r is Err && r->Err_0 == Error::ValueError,
    {
        Err(Error::ValueError)
    }

    /// The range of one part of the tuning chain: the board has none.
    pub fn component_frequency_range(&self, direction: Direction, channel: usize, name: &str) -> (r:
        Result<Range, Error>)
        ensures
            r is Err && r->Err_0 == Error::ValueError,
    {
        Err(Error::ValueError)
    }

    /// The frequency of one part of the tuning chain: the board has none.
    pub fn component_frequency(&self, direction: Direction, channel: usize, name: &str) -> (r:
        Result<i64, Error>)
        ensures
            r == Err::<i64, Error>(Error::ValueError),
    {
        Err(Error::ValueError)
    }

    /// Setting one part of the tuning chain: the board has none, and the
    /// request fails as the three queries on the parts do.
    pub fn set_component_frequency(
        &self,
        direction: Direction,
        channel: usize,
        name: &str,
        frequency: i64,
    ) -> (r: Result<(), Error>)
        ensures
            r == Err::<(), Error>(Error::ValueError),
    {
        Err(Error::ValueError)
    }

    /// The rate to program for a sample rate of `rate` samples per second:
    /// the nearest that the hardware's 32-bit register can hold.
    pub fn set_sample_rate(&self, direction: Direction, channel: usize, rate: i64) -> (r: Result<
        u32,
        Error,
    >)
        ensures
            !valid_channel(channel) ==> r == Err::<u32, Error>(Error::ValueError),
            valid_channel(channel) ==> r == Ok::<u32, Error>(
                saturate(rate as int, 0, 0xffff_ffff) as u32,
            ),
    {
        if channel != CHANNEL {
            return Err(Error::ValueError);
        }
        Ok(word_register(rate))
    }

    /// The sample rates of a channel in samples per second.
    pub fn get_sample_rate_range(&self, direction: Direction, channel: usize) -> (r: Result<
        Range,
        Error,
    >)
        ensures
            !valid_channel(channel) ==> r is Err && r->Err_0 == Error::ValueError,
            valid_channel(channel) ==> r is Ok && r->Ok_0@ == sample_rate_items(),
    {
        if channel != CHANNEL {
            return Err(Error::ValueError);
        }
        Ok(hardware_sample_rate_range())
    }

    /// The bandwidth to program for a bandwidth of `bw` Hz: the nearest that
    /// the hardware's 32-bit register can hold.
    pub fn set_bandwidth(&self, direction: Direction, channel: usize, bw: i64) -> (r: Result<
        u32,
        Error,
    >)
        ensures
            !valid_channel(channel) ==> r == Err::<u32, Error>(Error::ValueError),
            valid_channel(channel) ==> r == Ok::<u32, Error>(
                saturate(bw as int, 0, 0xffff_ffff) as u32,
            ),
    {
        if channel != CHANNEL {
            return Err(Error::ValueError);
        }
        Ok(word_register(bw))
    }

    /// The filter bandwidths of a channel in Hz.
    pub fn get_bandwidth_range(&self, direction: Direction, channel: usize) -> (r: Result<
        Range,
        Error,
    >)
        ensures
            !valid_channel(channel) ==> r is Err && r->Err_0 == Error::ValueError,
            valid_channel(channel) ==> r is Ok && r->Ok_0@ == bandwidth_items(),
    {
        if channel != CHANNEL {
            return Err(Error::ValueError);
        }
        Ok(hardware_bandwidth_range())
    }

    /// Automatic DC offset correction: the board has none.
    pub fn has_dc_offset_mode(&self, direction: Direction, channel: usize) -> (r: Result<
        bool,
        Error,
    >)
        ensures
            r == Err::<bool, Error>(Error::NotSupported),
    {
        Err(Error::NotSupported)
    }

    /// Switching automatic DC offset correction: the board has none.
    pub fn set_dc_offset_mode(&self, direction: Direction, channel: usize, automatic: bool) -> (r:
        Result<(), Error>)
        ensures
            r == Err::<(), Error>(Error::NotSupported),
    {
        Err(Error::NotSupported)
    }

    /// Whether automatic DC offset correction is on: the board has none.
    pub fn dc_offset_mode(&self, direction: Direction, channel: usize) -> (r: Result<bool, Error>)
        ensures
            r == Err::<bool, Error>(Error::NotSupported),
    {
        Err(Error::NotSupported)
    }
}

/// The descriptors of a list of units.
pub open spec fn descriptors(units: Seq<UsbLocation>) -> Seq<Entries> {
    units.map_values(|u: UsbLocation| descriptor(u))
}

/// The arguments that open the unit at `unit` again.
pub open spec fn descriptor(unit: UsbLocation) -> Entries {
    seq![
        ("driver"@, "bladerf"@),
        ("bus_number"@, decimal_text(unit.bus_number as nat)),
        ("address"@, decimal_text(unit.address as nat)),
    ]
}

/// Whether a channel has automatic gain control: receive has, transmit has
/// not, and a channel that the board does not have is a `ValueError`.
pub open spec fn agc_support(direction: Direction, channel: usize) -> Result<bool, Error> {
    if !valid_channel(channel) {
        Err(Error::ValueError)
    } else {
        Ok(direction == Direction::Rx)
    }
}

/// Where a channel reports that it has no automatic gain control, a request
/// to switch it on or off fails with `NotSupported` and asks nothing of the
/// hardware, so the gain mode stays as it was.
pub proof fn lemma_agc_needs_support(direction: Direction, channel: usize, agc: bool)
    requires
        agc_support(direction, channel) == Ok::<bool, Error>(false),
    ensures
        agc_request(direction, channel, agc) == Err::<GainMode, Error>(Error::NotSupported),
{
}

/// What a request to switch automatic gain control asks of the hardware:
/// the gain mode to program, or the error with which the request fails.
pub open spec fn agc_request(direction: Direction, channel: usize, agc: bool) -> Result<
    GainMode,
    Error,
> {
    if !valid_channel(channel) {
        Err(Error::ValueError)
    } else if direction == Direction::Tx {
        Err(Error::NotSupported)
    } else if agc {
        Ok(GainMode::Default)
    } else {
        Ok(GainMode::Mgc)
    }
}

/// The next step of tuning to `frequency` Hz.
pub open spec fn tune_spec(direction: Direction, frequency: i64, progress: TuneProgress) -> TuneStep {
    let hz = saturate(frequency as int, 0, 0x7fff_ffff_ffff_ffff) as u64;
    let tune = TuneStep::Tune { direction, frequency: hz };
    if hz >= frequency_floor_spec() {
        tune
    } else {
        match progress {
            TuneProgress::Start => TuneStep::QueryExpansion,
            TuneProgress::Expansion(board) => if board == ExpansionBoard::Xb200 {
                tune
            } else {
                TuneStep::Attach(ExpansionBoard::Xb200)
            },
            TuneProgress::Attached => tune,
        }
    }
}

/// `gain` forced into the range of the hardware's 8-bit gain register.
fn gain_register(gain: i64) -> (r: i8)
    ensures
        r == saturate(gain as int, -128, 127),
{
    if gain < -128 {
        -128
    } else if gain > 127 {
        127
    } else {
        gain as i8
    }
}

/// `value` forced into the range of a 32-bit hardware register.
fn word_register(value: i64) -> (r: u32)
    ensures
        r == saturate(value as int, 0, 0xffff_ffff),
{
    if value < 0 {
        0
    } else if value > 0xffff_ffff {
        0xffff_ffff
    } else {
        value as u32
    }
}

/// The three keys of a descriptor differ from one another.
proof fn lemma_descriptor_keys()
    ensures
        "driver"@ != "bus_number"@,
        "driver"@ != "address"@,
        "bus_number"@ != "address"@,
        "fd"@ != "driver"@,
        "fd"@ != "bus_number"@,
        "fd"@ != "address"@,
{
    reveal_strlit("driver");
    reveal_strlit("bus_number");
    reveal_strlit("address");
    reveal_strlit("fd");
    assert("driver"@.len() == 6);
    assert("bus_number"@.len() == 10);
    assert("address"@.len() == 7);
    assert("fd"@.len() == 2);
}

/// A descriptor that `probe` hands out opens the unit it was made for:
/// it names the driver and addresses the unit by bus number and address.
pub proof fn lemma_descriptor_reopens(unit: UsbLocation)
    ensures
        lookup(descriptor(unit), "driver"@) == Some(Driver::BladeRf.tag()),
        selector_spec(descriptor(unit)) == Some(
            Selector::BusAddress { bus_number: unit.bus_number, address: unit.address },
        ),
{
    let m = descriptor(unit);
    lemma_descriptor_keys();
    lemma_lookup_at(m, "driver"@, 0);
    lemma_lookup_at(m, "bus_number"@, 1);
    lemma_lookup_at(m, "address"@, 2);
    lemma_lookup_absent(m, "fd"@);
    lemma_decimal_text(unit.bus_number as nat);
    lemma_decimal_text(unit.address as nat);
}

/// A receive stream of the board.
#[derive(Debug, PartialEq, Eq)]
pub struct RxStreamer {
    state: StreamState,
    buffer_size: usize,
    transfers: usize,
}

/// A transmit stream of the board.
#[derive(Debug, PartialEq, Eq)]
pub struct TxStreamer {
    state: StreamState,
    buffer_size: usize,
    transfers: usize,
}

impl RxStreamer {
    /// Whether the stream is active or not.
    pub closed spec fn state(&self) -> StreamState {
        self.state
    }

    /// Size of the transfer buffer in samples.
    pub closed spec fn buffer_size(&self) -> usize {
        self.buffer_size
    }

    /// Number of transfers kept in flight.
    pub closed spec fn transfers(&self) -> usize {
        self.transfers
    }

    /// A stream as it is made: inactive, with the board's buffer settings.
    pub open spec fn is_fresh(&self) -> bool {
        &&& self.state() == StreamState::Inactive
        &&& self.buffer_size() == STREAM_BUFFER_SIZE
        &&& self.transfers() == STREAM_TRANSFERS
    }

    /// Whether the stream is active.
    pub fn is_active(&self) -> (r: bool)
        ensures
            r == (self.state() == StreamState::Active),
    {
        match self.state {
            StreamState::Active => true,
            StreamState::Inactive => false,
        }
    }

    /// Number of transfers to keep in flight.
    pub fn num_transfers(&self) -> (r: usize)
        ensures
            r == self.transfers(),
    {
        self.transfers
    }

    /// The efficient number of samples per call: the size of the buffer.
    pub fn mtu(&self) -> (r: Result<usize, Error>)
        ensures
            r == Ok::<usize, Error>(self.buffer_size()),
    {
        Ok(self.buffer_size)
    }

    /// Nanoseconds to hold back before the hardware is told to start, for
    /// a start asked for at device time `time_ns` when the device clock
    /// reads `now_ns`. A time in the past does not block.
    pub fn activate_at(&self, time_ns: Option<i64>, now_ns: i64) -> (wait_ns: u64)
        ensures
            wait_ns == delay_spec(time_ns, now_ns),
    {
        delay_until(time_ns, now_ns)
    }

    /// Record the hardware's answer to the request to start: on success
    /// the stream is active, on failure it stays as it was and the answer
    /// comes back as `Misc`.
    pub fn activated(&mut self, outcome: Result<(), String>) -> (r: Result<(), Error>)
        ensures
            final(self).state() == settle_spec(
                old(self).state(),
                StreamState::Active,
                outcome is Ok,
            ),
            final(self).buffer_size() == old(self).buffer_size(),
            final(self).transfers() == old(self).transfers(),
            outcome is Ok ==> r is Ok,
            outcome is Err ==> r == Err::<(), Error>(Error::Misc(outcome->Err_0)),
    {
        settle(&mut self.state, StreamState::Active, outcome)
    }

    /// Nanoseconds to hold back before the hardware is told to stop.
    pub fn deactivate_at(&self, time_ns: Option<i64>, now_ns: i64) -> (wait_ns: u64)
        ensures
            wait_ns == delay_spec(time_ns, now_ns),
    {
        delay_until(time_ns, now_ns)
    }

    /// Record the hardware's answer to the request to stop: on success the
    /// stream is inactive, on failure it stays as it was and the answer
    /// comes back as `Misc`.
    pub fn deactivated(&mut self, outcome: Result<(), String>) -> (r: Result<(), Error>)
        ensures
            final(self).state() == settle_spec(
                old(self).state(),
                StreamState::Inactive,
                outcome is Ok,
            ),
            final(self).buffer_size() == old(self).buffer_size(),
            final(self).transfers() == old(self).transfers(),
            outcome is Ok ==> r is Ok,
            outcome is Err ==> r == Err::<(), Error>(Error::Misc(outcome->Err_0)),
    {
        settle(&mut self.state, StreamState::Inactive, outcome)
    }
}

impl TxStreamer {
    /// Whether the stream is active or not.
    pub closed spec fn state(&self) -> StreamState {
        self.state
    }

    /// Size of the transfer buffer in samples.
    pub closed spec fn buffer_size(&self) -> usize {
        self.buffer_size
    }

    /// Number of transfers kept in flight.
    pub closed spec fn transfers(&self) -> usize {
        self.transfers
    }

    /// A stream as it is made: inactive, with the board's buffer settings.
    pub open spec fn is_fresh(&self) -> bool {
        &&& self.state() == StreamState::Inactive
        &&& self.buffer_size() == STREAM_BUFFER_SIZE
        &&& self.transfers() == STREAM_TRANSFERS
    }

    /// Whether the stream is active.
    pub fn is_active(&self) -> (r: bool)
        ensures
            r == (self.state() == StreamState::Active),
    {
        match self.state {
            StreamState::Active => true,
            StreamState::Inactive => false,
        }
    }

    /// Number of transfers to keep in flight.
    pub fn num_transfers(&self) -> (r: usize)
        ensures
            r == self.transfers(),
    {
        self.transfers
    }

    /// The efficient number of samples per call: the size of the buffer.
    pub fn mtu(&self) -> (r: Result<usize, Error>)
        ensures
            r == Ok::<usize, Error>(self.buffer_size()),
    {
        Ok(self.buffer_size)
    }

    /// Nanoseconds to hold back before the hardware is told to start, for
    /// a start asked for at device time `time_ns` when the device clock
    /// reads `now_ns`. A time in the past does not block.
    pub fn activate_at(&self, time_ns: Option<i64>, now_ns: i64) -> (wait_ns: u64)
        ensures
            wait_ns == delay_spec(time_ns, now_ns),
    {
        delay_until(time_ns, now_ns)
    }

    /// Record the hardware's answer to the request to start: on success
    /// the stream is active, on failure it stays as it was and the answer
    /// comes back as `Misc`.
    pub fn activated(&mut self, outcome: Result<(), String>) -> (r: Result<(), Error>)
        ensures
            final(self).state() == settle_spec(
                old(self).state(),
                StreamState::Active,
                outcome is Ok,
            ),
            final(self).buffer_size() == old(self).buffer_size(),
            final(self).transfers() == old(self).transfers(),
            outcome is Ok ==> r is Ok,
            outcome is Err ==> r == Err::<(), Error>(Error::Misc(outcome->Err_0)),
    {
        settle(&mut self.state, StreamState::Active, outcome)
    }

    /// Nanoseconds to hold back before the hardware is told to stop.
    pub fn deactivate_at(&self, time_ns: Option<i64>, now_ns: i64) -> (wait_ns: u64)
        ensures
            wait_ns == delay_spec(time_ns, now_ns),
    {
        delay_until(time_ns, now_ns)
    }

    /// Record the hardware's answer to the request to stop: on success the
    /// stream is inactive, on failure it stays as it was and the answer
    /// comes back as `Misc`.
    pub fn deactivated(&mut self, outcome: Result<(), String>) -> (r: Result<(), Error>)
        ensures
            final(self).state() == settle_spec(
                old(self).state(),
                StreamState::Inactive,
                outcome is Ok,
            ),
            final(self).buffer_size() == old(self).buffer_size(),
            final(self).transfers() == old(self).transfers(),
            outcome is Ok ==> r is Ok,
            outcome is Err ==> r == Err::<(), Error>(Error::Misc(outcome->Err_0)),
    {
        settle(&mut self.state, StreamState::Inactive, outcome)
    }

    /// What a single best-effort write of `samples` samples asks of the
    /// hardware: how long to hold back for a write at device time `at_ns`
    /// when the device clock reads `now_ns`, and how long to wait for room.
    pub fn write(
        &self,
        samples: usize,
        at_ns: Option<i64>,
        now_ns: i64,
        end_burst: bool,
        timeout_us: i64,
    ) -> (r: WriteRequest)
        ensures
            r == write_request_spec(samples, at_ns, now_ns, end_burst, timeout_us),
    {
        write_request(samples, at_ns, now_ns, end_burst, timeout_us)
    }

    /// The result of a single write of `samples` samples, given the
    /// hardware's answer: the number of samples taken, which may be fewer
    /// than were on offer and is never more, or the hardware's failure as
    /// `Misc` with its message.
    pub fn written(&self, samples: usize, outcome: Result<usize, String>) -> (r: Result<
        usize,
        Error,
    >)
        ensures
            outcome is Ok ==> r == Ok::<usize, Error>(
                if outcome->Ok_0 <= samples {
                    outcome->Ok_0
                } else {
                    samples
                },
            ),
            outcome is Err ==> r == Err::<usize, Error>(Error::Misc(outcome->Err_0)),
    {
        written(samples, outcome)
    }

    /// Begin a write of `samples` samples that must go out whole. The
    /// caller hands the hardware what each step asks for and records what
    /// it took, until the transfer is done or has timed out.
    pub fn write_all(&self, samples: usize) -> (r: Transfer)
        ensures
            r == Transfer::fresh(samples),
            r.well_formed(),
    {
        Transfer::new(samples)
    }
}

} // verus!
