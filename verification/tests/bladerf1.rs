use seify::impls::bladerf1::{
    BladeRf, ExpansionBoard, GainMode, Selector, TuneProgress, TuneStep, UsbLocation,
};
use seify::streamer::WriteRequest;
use seify::{Args, Direction, Driver, Error, Range, RangeItem};

fn unit() -> BladeRf {
    BladeRf::open(&Args::new()).unwrap()
}

fn opened(filter: &str) -> Result<BladeRf, Error> {
    BladeRf::open(&Args::parse(filter).unwrap())
}

#[test]
fn open_with_file_descriptor() {
    assert_eq!(opened("fd=7").unwrap().selector(), Selector::FileDescriptor(7));
    assert_eq!(opened("fd=-1").unwrap().selector(), Selector::FileDescriptor(-1));
    assert_eq!(
        opened("fd=7, bus_number=1, address=2").unwrap().selector(),
        Selector::FileDescriptor(7)
    );
    assert_eq!(opened("fd=3, address=x").unwrap().selector(), Selector::FileDescriptor(3));
}

#[test]
fn open_with_bus_number_and_address() {
    assert_eq!(
        opened("bus_number=1, address=2").unwrap().selector(),
        Selector::BusAddress { bus_number: 1, address: 2 }
    );
    assert_eq!(
        opened("driver=bladerf, address=255, bus_number=0").unwrap().selector(),
        Selector::BusAddress { bus_number: 0, address: 255 }
    );
}

#[test]
fn open_without_address_takes_the_first_unit() {
    assert_eq!(opened("").unwrap().selector(), Selector::First);
    assert_eq!(opened("driver=bladerf").unwrap().selector(), Selector::First);
}

#[test]
fn open_with_unreadable_file_descriptor_falls_back() {
    assert_eq!(opened("fd=abc").unwrap().selector(), Selector::First);
    assert_eq!(opened("fd=2147483648").unwrap().selector(), Selector::First);
    assert_eq!(
        opened("fd=abc, bus_number=1, address=2").unwrap().selector(),
        Selector::BusAddress { bus_number: 1, address: 2 }
    );
}

#[test]
fn open_rejects_half_an_address() {
    assert_eq!(opened("bus_number=1"), Err(Error::ValueError));
    assert_eq!(opened("address=2"), Err(Error::ValueError));
    assert_eq!(opened("fd=x, address=2"), Err(Error::ValueError));
}

#[test]
fn open_rejects_an_address_that_is_no_small_number() {
    assert_eq!(opened("bus_number=1, address=x"), Err(Error::ValueError));
    assert_eq!(opened("bus_number=256, address=1"), Err(Error::ValueError));
    assert_eq!(opened("bus_number=1, address=-1"), Err(Error::ValueError));
    assert_eq!(opened("bus_number=, address=1"), Err(Error::ValueError));
}

#[test]
fn probe_describes_each_unit() {
    let attached = vec![
        UsbLocation { bus_number: 1, address: 2 },
        UsbLocation { bus_number: 0, address: 255 },
        UsbLocation { bus_number: 10, address: 100 },
        UsbLocation { bus_number: 9, address: 99 },
        UsbLocation { bus_number: 209, address: 101 },
    ];
    let found = BladeRf::probe(&Args::new(), &attached).unwrap();
    assert_eq!(found.len(), 5);
    assert_eq!(found[0].to_string(), "driver=bladerf, bus_number=1, address=2");
    assert_eq!(found[1].to_string(), "driver=bladerf, bus_number=0, address=255");
    assert_eq!(found[2].to_string(), "driver=bladerf, bus_number=10, address=100");
    assert_eq!(found[3].to_string(), "driver=bladerf, bus_number=9, address=99");
    assert_eq!(found[4].to_string(), "driver=bladerf, bus_number=209, address=101");
    assert_eq!(found[0].get::<Driver>("driver"), Ok(Driver::BladeRf));
}

#[test]
fn probe_of_nothing_finds_nothing() {
    let found = BladeRf::probe(&Args::parse("driver=bladerf").unwrap(), &Vec::new()).unwrap();
    assert!(found.is_empty());
}

#[test]
fn probe_descriptor_opens_the_same_unit() {
    for bus_number in [0u8, 1, 9, 10, 99, 100, 255] {
        for address in [0u8, 7, 42, 128, 255] {
            let attached = vec![UsbLocation { bus_number, address }];
            let found = BladeRf::probe(&Args::new(), &attached).unwrap();
            let dev = BladeRf::open(&found[0]).unwrap();
            assert_eq!(dev.selector(), Selector::BusAddress { bus_number, address });
        }
    }
}

#[test]
fn identity_and_channel_count() {
    let dev = unit();
    assert_eq!(dev.driver(), Driver::BladeRf);
    assert_eq!(dev.driver().name(), "bladerf");
    assert_eq!(dev.num_channels(Direction::Rx), Ok(1));
    assert_eq!(dev.num_channels(Direction::Tx), Ok(1));
    assert_eq!(dev.full_duplex(Direction::Rx, 0), Ok(true));
    assert_eq!(dev.full_duplex(Direction::Tx, 0), Ok(true));
    assert_eq!(dev.full_duplex(Direction::Tx, 1), Err(Error::ValueError));
}

#[test]
fn info_holds_the_firmware_version() {
    let info = unit().info("2.4.0").unwrap();
    assert_eq!(info.len(), 1);
    assert_eq!(info.value("firmware version"), Some("2.4.0"));
    assert_eq!(info.to_string(), "firmware version=2.4.0");
}

#[test]
fn rx_streamer_on_channel_zero() {
    let rx = unit().rx_streamer(&[0], Args::new()).unwrap();
    assert!(!rx.is_active());
    assert_eq!(rx.mtu(), Ok(65536));
    assert_eq!(rx.num_transfers(), 8);
}

#[test]
fn rx_streamer_rejects_other_channel_sets() {
    let dev = unit();
    assert_eq!(dev.rx_streamer(&[1], Args::new()), Err(Error::ValueError));
    assert_eq!(dev.rx_streamer(&[], Args::new()), Err(Error::ValueError));
    assert_eq!(dev.rx_streamer(&[0, 0], Args::new()), Err(Error::ValueError));
    assert_eq!(dev.rx_streamer(&[0, 1], Args::new()), Err(Error::ValueError));
    assert_eq!(dev.rx_streamer(&[usize::MAX], Args::new()), Err(Error::ValueError));
}

#[test]
fn tx_streamer_on_channel_zero() {
    let tx = unit().tx_streamer(&[0], Args::new()).unwrap();
    assert!(!tx.is_active());
    assert_eq!(tx.mtu(), Ok(65536));
    assert_eq!(tx.num_transfers(), 8);
}

#[test]
fn tx_streamer_rejects_other_channel_sets() {
    let dev = unit();
    assert_eq!(dev.tx_streamer(&[1], Args::new()), Err(Error::ValueError));
    assert_eq!(dev.tx_streamer(&[], Args::new()), Err(Error::ValueError));
    assert_eq!(dev.tx_streamer(&[0, 1], Args::new()), Err(Error::ValueError));
}

#[test]
fn activate_at_a_time_in_the_past_does_not_block() {
    let mut rx = unit().rx_streamer(&[0], Args::new()).unwrap();
    assert_eq!(rx.activate_at(Some(1_000), 5_000), 0);
    assert_eq!(rx.activated(Ok(())), Ok(()));
    assert!(rx.is_active());
    let mut tx = unit().tx_streamer(&[0], Args::new()).unwrap();
    assert_eq!(tx.activate_at(Some(-1), 0), 0);
    assert_eq!(tx.activated(Ok(())), Ok(()));
    assert!(tx.is_active());
}

#[test]
fn activate_at_a_time_to_come_waits_for_it() {
    let mut rx = unit().rx_streamer(&[0], Args::new()).unwrap();
    assert_eq!(rx.activate_at(Some(5_000), 1_000), 4_000);
    assert_eq!(rx.activate_at(None, 1_000), 0);
    assert!(!rx.is_active());
    assert_eq!(rx.activated(Ok(())), Ok(()));
    assert!(rx.is_active());
    assert_eq!(rx.deactivate_at(Some(9_000), 8_000), 1_000);
    assert_eq!(rx.deactivated(Ok(())), Ok(()));
    assert!(!rx.is_active());
}

#[test]
fn failed_transition_keeps_the_state() {
    let mut rx = unit().rx_streamer(&[0], Args::new()).unwrap();
    assert_eq!(
        rx.activated(Err(String::from("no such device"))),
        Err(Error::Misc(String::from("no such device")))
    );
    assert!(!rx.is_active());
    let mut tx = unit().tx_streamer(&[0], Args::new()).unwrap();
    assert_eq!(tx.activated(Ok(())), Ok(()));
    assert_eq!(
        tx.deactivated(Err(String::from("stall"))),
        Err(Error::Misc(String::from("stall")))
    );
    assert!(tx.is_active());
    assert_eq!(tx.deactivate_at(None, 0), 0);
    assert_eq!(tx.deactivated(Ok(())), Ok(()));
    assert!(!tx.is_active());
}

#[test]
fn tx_write_asks_for_one_attempt() {
    let tx = unit().tx_streamer(&[0], Args::new()).unwrap();
    assert_eq!(
        tx.write(16, None, 5_000, false, 1000),
        WriteRequest { wait_ns: 0, samples: 16, end_burst: false, timeout_us: 1000 }
    );
    assert_eq!(
        tx.write(16, Some(9_000), 5_000, true, 0),
        WriteRequest { wait_ns: 4_000, samples: 16, end_burst: true, timeout_us: 0 }
    );
    assert_eq!(
        tx.write(0, Some(1_000), 5_000, true, -7),
        WriteRequest { wait_ns: 0, samples: 0, end_burst: true, timeout_us: 0 }
    );
    assert_eq!(
        tx.write(usize::MAX, Some(i64::MAX), i64::MIN, false, i64::MAX),
        WriteRequest {
            wait_ns: u64::MAX,
            samples: usize::MAX,
            end_burst: false,
            timeout_us: i64::MAX
        }
    );
}

#[test]
fn tx_written_is_the_number_of_samples_taken() {
    let tx = unit().tx_streamer(&[0], Args::new()).unwrap();
    assert_eq!(tx.written(16, Ok(16)), Ok(16));
    assert_eq!(tx.written(16, Ok(5)), Ok(5));
    assert_eq!(tx.written(16, Ok(0)), Ok(0));
    assert_eq!(tx.written(0, Ok(0)), Ok(0));
}

#[test]
fn tx_written_is_never_more_than_was_offered() {
    let tx = unit().tx_streamer(&[0], Args::new()).unwrap();
    assert_eq!(tx.written(16, Ok(17)), Ok(16));
    assert_eq!(tx.written(0, Ok(1)), Ok(0));
    assert_eq!(tx.written(3, Ok(usize::MAX)), Ok(3));
}

#[test]
fn tx_written_hands_on_a_hardware_failure() {
    let tx = unit().tx_streamer(&[0], Args::new()).unwrap();
    assert_eq!(
        tx.written(16, Err(String::from("transfer"))),
        Err(Error::Misc(String::from("transfer")))
    );
}

#[test]
fn tx_write_all_starts_with_nothing_sent() {
    let tx = unit().tx_streamer(&[0], Args::new()).unwrap();
    let t = tx.write_all(4096);
    assert_eq!(t.total, 4096);
    assert_eq!(t.sent, 0);
    assert!(!t.attempted);
}

#[test]
fn antennas_are_not_supported() {
    let dev = unit();
    assert_eq!(dev.antennas(Direction::Rx, 0), Err(Error::NotSupported));
    assert_eq!(dev.antenna(Direction::Tx, 0), Err(Error::NotSupported));
    assert_eq!(dev.set_antenna(Direction::Rx, 0, "RX"), Err(Error::NotSupported));
}

#[test]
fn agc_is_a_receive_capability() {
    let dev = unit();
    assert_eq!(dev.supports_agc(Direction::Rx, 0), Ok(true));
    assert_eq!(dev.supports_agc(Direction::Tx, 0), Ok(false));
    assert_eq!(dev.supports_agc(Direction::Rx, 1), Err(Error::ValueError));
    assert_eq!(dev.enable_agc(Direction::Rx, 0, true), Ok(GainMode::Default));
    assert_eq!(dev.enable_agc(Direction::Rx, 0, false), Ok(GainMode::Mgc));
    assert_eq!(dev.agc(Direction::Rx, 0, GainMode::Default), Ok(true));
    assert_eq!(dev.agc(Direction::Rx, 0, GainMode::Mgc), Ok(false));
}

#[test]
fn enable_agc_without_support_is_not_supported() {
    let dev = unit();
    assert_eq!(dev.supports_agc(Direction::Tx, 0), Ok(false));
    assert_eq!(dev.enable_agc(Direction::Tx, 0, true), Err(Error::NotSupported));
    assert_eq!(dev.enable_agc(Direction::Tx, 0, false), Err(Error::NotSupported));
    assert_eq!(dev.agc(Direction::Tx, 0, GainMode::Mgc), Err(Error::NotSupported));
    assert_eq!(dev.enable_agc(Direction::Rx, 3, true), Err(Error::ValueError));
    assert_eq!(dev.enable_agc(Direction::Tx, 3, true), Err(Error::ValueError));
    assert_eq!(dev.agc(Direction::Rx, 1, GainMode::Mgc), Err(Error::ValueError));
}

#[test]
fn gain_elements_of_each_direction() {
    let dev = unit();
    assert_eq!(
        dev.gain_elements(Direction::Rx, 0),
        Ok(vec![String::from("lna"), String::from("rxvga1"), String::from("rxvga2")])
    );
    assert_eq!(
        dev.gain_elements(Direction::Tx, 0),
        Ok(vec![String::from("txvga1"), String::from("txvga2")])
    );
    assert_eq!(dev.gain_elements(Direction::Rx, 1), Err(Error::ValueError));
}

#[test]
fn gain_range_of_each_direction() {
    let dev = unit();
    assert_eq!(
        dev.gain_range(Direction::Rx, 0),
        Ok(Range::new(vec![RangeItem::Step(-1, 60, 1)]))
    );
    assert_eq!(
        dev.gain_range(Direction::Tx, 0),
        Ok(Range::new(vec![RangeItem::Step(17, 73, 1)]))
    );
    assert_eq!(dev.gain_range(Direction::Tx, 2), Err(Error::ValueError));
}

#[test]
fn gain_element_range_of_each_stage() {
    let dev = unit();
    let step = |min, max, step| Ok(Range::new(vec![RangeItem::Step(min, max, step)]));
    assert_eq!(dev.gain_element_range(Direction::Rx, 0, "lna"), step(0, 6, 3));
    assert_eq!(dev.gain_element_range(Direction::Rx, 0, "rxvga1"), step(5, 30, 1));
    assert_eq!(dev.gain_element_range(Direction::Rx, 0, "rxvga2"), step(0, 30, 3));
    assert_eq!(dev.gain_element_range(Direction::Tx, 0, "txvga1"), step(-35, -4, 1));
    assert_eq!(dev.gain_element_range(Direction::Tx, 0, "txvga2"), step(0, 25, 1));
}

#[test]
fn gain_element_range_of_every_listed_stage_exists() {
    let dev = unit();
    for direction in [Direction::Rx, Direction::Tx] {
        for name in dev.gain_elements(direction, 0).unwrap() {
            let range = dev.gain_element_range(direction, 0, &name).unwrap();
            assert_eq!(range.items.len(), 1);
        }
    }
}

#[test]
fn gain_element_range_of_unknown_stage_fails() {
    let dev = unit();
    assert!(matches!(dev.gain_element_range(Direction::Rx, 0, "txvga1"), Err(Error::Misc(_))));
    assert!(matches!(dev.gain_element_range(Direction::Tx, 0, "lna"), Err(Error::Misc(_))));
    assert!(matches!(dev.gain_element_range(Direction::Rx, 0, ""), Err(Error::Misc(_))));
    assert!(matches!(dev.gain_element_range(Direction::Rx, 0, "LNA"), Err(Error::Misc(_))));
    assert_eq!(dev.gain_element_range(Direction::Rx, 1, "lna"), Err(Error::ValueError));
}

#[test]
fn sample_rate_range_is_one_step() {
    let dev = unit();
    assert_eq!(
        dev.get_sample_rate_range(Direction::Rx, 0),
        Ok(Range::new(vec![RangeItem::Step(80_000, 40_000_000, 1)]))
    );
    assert_eq!(dev.get_sample_rate_range(Direction::Rx, 1), Err(Error::ValueError));
}

#[test]
fn bandwidth_range_lists_the_filters() {
    let dev = unit();
    let expected: Vec<RangeItem> = [
        1_500_000i64, 1_750_000, 2_500_000, 2_750_000, 3_000_000, 3_840_000, 5_000_000,
        5_500_000, 6_000_000, 7_000_000, 8_750_000, 10_000_000, 12_000_000, 14_000_000,
        20_000_000, 28_000_000,
    ]
    .iter()
    .map(|hz| RangeItem::Value(*hz))
    .collect();
    let range = dev.get_bandwidth_range(Direction::Tx, 0).unwrap();
    assert_eq!(range, Range::new(expected));
    assert!(range.contains(5_500_000));
    assert!(!range.contains(5_600_000));
    assert_eq!(range.clamp(5_600_000), Some(5_500_000));
    assert_eq!(range.clamp(0), Some(1_500_000));
    assert_eq!(dev.get_bandwidth_range(Direction::Tx, 9), Err(Error::ValueError));
}

#[test]
fn set_frequency_above_the_floor_tunes_at_once() {
    let dev = unit();
    let tune = |frequency| Ok(TuneStep::Tune { direction: Direction::Rx, frequency });
    assert_eq!(dev.set_frequency(Direction::Rx, 0, 927_000_000, TuneProgress::Start), tune(927_000_000));
    assert_eq!(dev.set_frequency(Direction::Rx, 0, 237_500_000, TuneProgress::Start), tune(237_500_000));
    assert_eq!(
        dev.set_frequency(Direction::Tx, 0, i64::MAX, TuneProgress::Start),
        Ok(TuneStep::Tune { direction: Direction::Tx, frequency: i64::MAX as u64 })
    );
}

#[test]
fn set_frequency_below_the_floor_needs_the_transverter() {
    let dev = unit();
    let tune = |frequency| Ok(TuneStep::Tune { direction: Direction::Rx, frequency });
    let attach = Ok(TuneStep::Attach(ExpansionBoard::Xb200));
    assert_eq!(
        dev.set_frequency(Direction::Rx, 0, 237_499_999, TuneProgress::Start),
        Ok(TuneStep::QueryExpansion)
    );
    assert_eq!(
        dev.set_frequency(Direction::Rx, 0, 100_000_000, TuneProgress::Expansion(ExpansionBoard::XbNone)),
        attach
    );
    assert_eq!(
        dev.set_frequency(Direction::Rx, 0, 100_000_000, TuneProgress::Expansion(ExpansionBoard::Xb100)),
        attach
    );
    assert_eq!(
        dev.set_frequency(Direction::Rx, 0, 100_000_000, TuneProgress::Expansion(ExpansionBoard::Xb300)),
        attach
    );
    assert_eq!(
        dev.set_frequency(Direction::Rx, 0, 100_000_000, TuneProgress::Expansion(ExpansionBoard::Xb200)),
        tune(100_000_000)
    );
    assert_eq!(
        dev.set_frequency(Direction::Rx, 0, 100_000_000, TuneProgress::Attached),
        tune(100_000_000)
    );
}

#[test]
fn set_frequency_counts_a_negative_frequency_as_zero() {
    let dev = unit();
    assert_eq!(
        dev.set_frequency(Direction::Rx, 0, -5, TuneProgress::Start),
        Ok(TuneStep::QueryExpansion)
    );
    assert_eq!(
        dev.set_frequency(Direction::Rx, 0, i64::MIN, TuneProgress::Attached),
        Ok(TuneStep::Tune { direction: Direction::Rx, frequency: 0 })
    );
}

#[test]
fn set_frequency_rejects_other_channels() {
    let dev = unit();
    assert_eq!(
        dev.set_frequency(Direction::Rx, 1, 927_000_000, TuneProgress::Start),
        Err(Error::ValueError)
    );
}

#[test]
fn frequency_components_are_absent() {
    let dev = unit();
    assert_eq!(dev.frequency_components(Direction::Rx, 0), Err(Error::ValueError));
    assert_eq!(dev.component_frequency_range(Direction::Rx, 0, "RF"), Err(Error::ValueError));
    assert_eq!(dev.component_frequency(Direction::Rx, 0, "RF"), Err(Error::ValueError));
    assert_eq!(
        dev.set_component_frequency(Direction::Rx, 0, "RF", 1_000_000),
        Err(Error::ValueError)
    );
    assert_eq!(
        dev.set_component_frequency(Direction::Tx, 1, "", -1),
        Err(Error::ValueError)
    );
}

#[test]
fn set_gain_fits_the_gain_register() {
    let dev = unit();
    assert_eq!(dev.set_gain(Direction::Rx, 0, 30), Ok(30));
    assert_eq!(dev.set_gain(Direction::Rx, 0, -35), Ok(-35));
    assert_eq!(dev.set_gain(Direction::Rx, 0, 127), Ok(127));
    assert_eq!(dev.set_gain(Direction::Rx, 0, 128), Ok(127));
    assert_eq!(dev.set_gain(Direction::Rx, 0, -128), Ok(-128));
    assert_eq!(dev.set_gain(Direction::Rx, 0, -129), Ok(-128));
    assert_eq!(dev.set_gain(Direction::Rx, 0, i64::MAX), Ok(127));
    assert_eq!(dev.set_gain(Direction::Rx, 0, i64::MIN), Ok(-128));
    assert_eq!(dev.set_gain(Direction::Rx, 1, 30), Err(Error::ValueError));
    assert_eq!(dev.set_gain_element(Direction::Tx, 0, "txvga1", -20), Ok(-20));
    assert_eq!(dev.set_gain_element(Direction::Tx, 0, "txvga1", 1000), Ok(127));
    assert_eq!(dev.set_gain_element(Direction::Tx, 4, "txvga1", -20), Err(Error::ValueError));
}

#[test]
fn set_sample_rate_and_bandwidth_fit_a_word() {
    let dev = unit();
    assert_eq!(dev.set_sample_rate(Direction::Rx, 0, 3_200_000), Ok(3_200_000));
    assert_eq!(dev.set_sample_rate(Direction::Rx, 0, -5), Ok(0));
    assert_eq!(dev.set_sample_rate(Direction::Rx, 0, 4_294_967_295), Ok(u32::MAX));
    assert_eq!(dev.set_sample_rate(Direction::Rx, 0, 4_294_967_296), Ok(u32::MAX));
    assert_eq!(dev.set_sample_rate(Direction::Rx, 1, 3_200_000), Err(Error::ValueError));
    assert_eq!(dev.set_bandwidth(Direction::Tx, 0, 1_500_000), Ok(1_500_000));
    assert_eq!(dev.set_bandwidth(Direction::Tx, 0, i64::MAX), Ok(u32::MAX));
    assert_eq!(dev.set_bandwidth(Direction::Tx, 0, i64::MIN), Ok(0));
    assert_eq!(dev.set_bandwidth(Direction::Tx, 1, 1_500_000), Err(Error::ValueError));
}

#[test]
fn dc_offset_mode_is_not_supported() {
    let dev = unit();
    assert_eq!(dev.has_dc_offset_mode(Direction::Rx, 0), Err(Error::NotSupported));
    assert_eq!(dev.set_dc_offset_mode(Direction::Rx, 0, true), Err(Error::NotSupported));
    assert_eq!(dev.dc_offset_mode(Direction::Rx, 0), Err(Error::NotSupported));
}

#[test]
fn frequency_range_spans_the_reported_limits() {
    let dev = unit();
    assert_eq!(
        dev.frequency_range(Direction::Rx, 0, Some((237_500_000, 3_800_000_000))),
        Ok(Range::new(vec![RangeItem::Step(237_500_000, 3_800_000_000, 1)]))
    );
    assert_eq!(
        dev.frequency_range(Direction::Tx, 0, Some((0, 3_800_000_000))),
        Ok(Range::new(vec![RangeItem::Step(0, 3_800_000_000, 1)]))
    );
    assert_eq!(dev.frequency_range(Direction::Rx, 0, None), Err(Error::ValueError));
    assert_eq!(dev.frequency_range(Direction::Rx, 1, Some((0, 1))), Err(Error::ValueError));
}

#[test]
fn check_channel_accepts_channel_zero_only() {
    let dev = unit();
    assert_eq!(dev.check_channel(Direction::Rx, 0), Ok(()));
    assert_eq!(dev.check_channel(Direction::Tx, 0), Ok(()));
    assert_eq!(dev.check_channel(Direction::Rx, 1), Err(Error::ValueError));
    assert_eq!(dev.check_channel(Direction::Tx, usize::MAX), Err(Error::ValueError));
}

#[test]
fn probe_keeps_the_units_that_match_the_filter() {
    let attached = vec![
        UsbLocation { bus_number: 1, address: 1 },
        UsbLocation { bus_number: 1, address: 2 },
        UsbLocation { bus_number: 2, address: 2 },
    ];
    let probe = |filter: &str| -> Vec<String> {
        BladeRf::probe(&Args::parse(filter).unwrap(), &attached)
            .unwrap()
            .iter()
            .map(|found| found.to_string())
            .collect()
    };
    assert_eq!(probe("").len(), 3);
    assert_eq!(probe("driver=bladerf").len(), 3);
    assert_eq!(probe("driver=bladerf, index=7").len(), 3);
    assert_eq!(
        probe("address=2"),
        vec![
            String::from("driver=bladerf, bus_number=1, address=2"),
            String::from("driver=bladerf, bus_number=2, address=2"),
        ]
    );
    assert_eq!(
        probe("bus_number=2, address=2"),
        vec![String::from("driver=bladerf, bus_number=2, address=2")]
    );
    assert!(probe("address=3").is_empty());
    assert!(probe("serial=f00d").is_empty());
    assert!(probe("fd=3").is_empty());
}

#[test]
fn expansion_read_moves_tuning_on() {
    let dev = unit();
    for board in [
        ExpansionBoard::XbNone,
        ExpansionBoard::Xb100,
        ExpansionBoard::Xb200,
        ExpansionBoard::Xb300,
    ] {
        assert_eq!(dev.expansion_read(Ok(board)), Ok(TuneProgress::Expansion(board)));
    }
}

#[test]
fn expansion_read_that_failed_ends_tuning_with_value_error() {
    let dev = unit();
    assert_eq!(dev.expansion_read(Err(String::from("nusb"))), Err(Error::ValueError));
    assert_eq!(dev.expansion_read(Err(String::new())), Err(Error::ValueError));
}

#[test]
fn expansion_attached_moves_tuning_on() {
    let dev = unit();
    assert_eq!(dev.expansion_attached(Ok(())), Ok(TuneProgress::Attached));
}

#[test]
fn expansion_attached_that_failed_ends_tuning_with_the_cause() {
    let dev = unit();
    assert_eq!(
        dev.expansion_attached(Err(String::from("invalid"))),
        Err(Error::Misc(String::from("invalid")))
    );
}

#[test]
fn tuning_below_the_floor_runs_through_read_and_attach() {
    let dev = unit();
    let hz = 100_000_000;
    let mut progress = TuneProgress::Start;
    assert_eq!(
        dev.set_frequency(Direction::Rx, 0, hz, progress),
        Ok(TuneStep::QueryExpansion)
    );
    progress = dev.expansion_read(Ok(ExpansionBoard::XbNone)).unwrap();
    assert_eq!(
        dev.set_frequency(Direction::Rx, 0, hz, progress),
        Ok(TuneStep::Attach(ExpansionBoard::Xb200))
    );
    progress = dev.expansion_attached(Ok(())).unwrap();
    assert_eq!(
        dev.set_frequency(Direction::Rx, 0, hz, progress),
        Ok(TuneStep::Tune { direction: Direction::Rx, frequency: 100_000_000 })
    );
}
