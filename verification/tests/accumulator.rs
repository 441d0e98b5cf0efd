use dsmr_parser::{
    dispatch, get_current_data, get_event_log_message, get_voltage_data, parse, Accumulator,
    ElectricityReading, EventLogEntry, Failure, ParseError, PerPhase, PhaseSample, Quantity,
    Severity, Telegram,
};

fn complete() -> Accumulator {
    let mut acc = Accumulator::new();
    assert_eq!(acc.mark_information_type(), Ok(()));
    assert_eq!(acc.measure(Quantity::Voltage, 0, b"230.0"), Ok(()));
    assert_eq!(acc.date_telegram(Some(1000)), Ok(()));
    acc
}

#[test]
fn a_new_accumulator_knows_nothing() {
    let acc = Accumulator::new();
    assert!(acc.telegrams.is_empty());
    assert!(!acc.seen_information_type);
    assert!(!acc.has_electricity);
    assert!(!acc.has_date);
    assert_eq!(acc.timestamp, 0);
    assert_eq!(acc.electricity, ElectricityReading::new());
    assert!(acc.severities.is_empty());
    assert!(acc.dates.is_empty());
    assert!(acc.messages.is_empty());
    assert_eq!(acc.into_telegrams(), vec![]);
}

#[test]
fn unset_readings_are_zero() {
    let reading = ElectricityReading::new();
    let zeros =
        PerPhase { phase_1: b"0.0".to_vec(), phase_2: b"0.0".to_vec(), phase_3: b"0.0".to_vec() };
    assert_eq!(PerPhase::new(), zeros);
    assert_eq!(reading.voltage, zeros);
    assert_eq!(reading.current, zeros);
    assert_eq!(reading.power, zeros);
    assert_eq!(reading.total_consumed, b"0.0".to_vec());
    assert_eq!(reading.total_produced, b"0.0".to_vec());
}

#[test]
fn a_measurement_goes_to_its_quantity_and_phase() {
    let mut reading = ElectricityReading::new();
    reading.record(Quantity::Voltage, 0, b"1");
    reading.record(Quantity::Voltage, 1, b"2");
    reading.record(Quantity::Voltage, 2, b"3");
    reading.record(Quantity::Current, 1, b"4");
    reading.record(Quantity::Power, 2, b"5");
    reading.record(Quantity::Total, 0, b"6");
    reading.record(Quantity::Total, 1, b"7");
    assert_eq!(reading.voltage.phase_1, b"1".to_vec());
    assert_eq!(reading.voltage.phase_2, b"2".to_vec());
    assert_eq!(reading.voltage.phase_3, b"3".to_vec());
    assert_eq!(reading.current.phase_1, b"0.0".to_vec());
    assert_eq!(reading.current.phase_2, b"4".to_vec());
    assert_eq!(reading.power.phase_3, b"5".to_vec());
    assert_eq!(reading.total_consumed, b"6".to_vec());
    assert_eq!(reading.total_produced, b"7".to_vec());
    reading.record(Quantity::Total, 2, b"8");
    assert_eq!(reading.total_consumed, b"6".to_vec());
    assert_eq!(reading.total_produced, b"8".to_vec());
    reading.record(Quantity::Voltage, 1, b"9");
    assert_eq!(reading.voltage.phase_2, b"9".to_vec());
}

#[test]
fn the_end_of_a_complete_telegram_puts_it_behind_the_others() {
    let mut acc = complete();
    acc.add_severity(2, Severity::High);
    acc.add_message(2, "two".to_string());
    assert_eq!(acc.add_event_date(2, Some(20)), Ok(()));
    acc.add_message(1, "one".to_string());
    assert_eq!(acc.add_event_date(1, Some(10)), Ok(()));
    acc.add_severity(1, Severity::Low);
    assert_eq!(acc.end_telegram(), Ok(()));
    let mut electricity = ElectricityReading::new();
    electricity.record(Quantity::Voltage, 0, b"230.0");
    let telegram = Telegram {
        timestamp: 1000,
        event_log: vec![
            EventLogEntry { id: 1, severity: Severity::Low, timestamp: 10, message: "one".into() },
            EventLogEntry { id: 2, severity: Severity::High, timestamp: 20, message: "two".into() },
        ],
        electricity,
    };
    let mut cleared = Accumulator::new();
    cleared.telegrams.push(telegram.clone());
    assert_eq!(acc, cleared);
    assert_eq!(acc.into_telegrams(), vec![telegram]);
}

#[test]
fn the_end_of_an_incomplete_telegram_fails_and_changes_nothing() {
    let mut acc = Accumulator::new();
    acc.mark_information_type().unwrap();
    acc.date_telegram(Some(5)).unwrap();
    let before = acc.clone();
    assert_eq!(acc.end_telegram(), Err(Failure::Rejected(ParseError::MissingElectricity)));
    assert_eq!(acc, before);

    let mut acc = Accumulator::new();
    acc.mark_information_type().unwrap();
    acc.measure(Quantity::Power, 2, b"1").unwrap();
    let before = acc.clone();
    assert_eq!(acc.end_telegram(), Err(Failure::Rejected(ParseError::NoDate)));
    assert_eq!(acc, before);

    let mut acc = Accumulator::new();
    let before = acc.clone();
    assert_eq!(acc.end_telegram(), Err(Failure::Rejected(ParseError::MissingElectricity)));
    assert_eq!(acc, before);

    let mut acc = complete();
    acc.add_severity(1, Severity::High);
    let before = acc.clone();
    assert_eq!(acc.end_telegram(), Err(Failure::UncorrelatedEventLog));
    assert_eq!(acc, before);
}

#[test]
fn a_start_clears_the_current_telegram_and_keeps_the_complete_ones() {
    let mut acc = complete();
    acc.end_telegram().unwrap();
    acc.mark_information_type().unwrap();
    acc.measure(Quantity::Current, 1, b"3").unwrap();
    acc.date_telegram(Some(7)).unwrap();
    acc.add_severity(1, Severity::High);
    acc.add_message(1, "x".to_string());
    acc.add_event_date(1, Some(3)).unwrap();
    let telegrams = acc.telegrams.clone();
    acc.start_telegram();
    let mut cleared = Accumulator::new();
    cleared.telegrams = telegrams;
    assert_eq!(acc, cleared);
    assert_eq!(acc.telegrams.len(), 1);
}

#[test]
fn a_date_that_names_no_moment_fails_and_changes_nothing() {
    let mut acc = Accumulator::new();
    assert_eq!(acc.date_telegram(None), Err(Failure::InvalidDate));
    assert_eq!(acc, Accumulator::new());
    assert_eq!(acc.add_event_date(3, None), Err(Failure::InvalidDate));
    assert_eq!(acc, Accumulator::new());
    assert_eq!(acc.date_telegram(Some(-5)), Ok(()));
    assert!(acc.has_date);
    assert_eq!(acc.timestamp, -5);
    assert_eq!(acc.add_event_date(3, Some(9)), Ok(()));
    assert_eq!(acc.dates, vec![(3, 9)]);
}

#[test]
fn the_information_type_is_marked_once() {
    let mut acc = Accumulator::new();
    assert_eq!(acc.mark_information_type(), Ok(()));
    assert!(acc.seen_information_type);
    let before = acc.clone();
    assert_eq!(acc.mark_information_type(), Err(Failure::Rejected(ParseError::DuplicateFieldId)));
    assert_eq!(acc, before);
    acc.start_telegram();
    assert_eq!(acc.mark_information_type(), Ok(()));
}

#[test]
fn a_measurement_needs_the_information_type() {
    let mut acc = Accumulator::new();
    assert_eq!(
        acc.measure(Quantity::Voltage, 0, b"1"),
        Err(Failure::Rejected(ParseError::MissingElectricity))
    );
    assert_eq!(acc, Accumulator::new());
    acc.mark_information_type().unwrap();
    assert_eq!(acc.measure(Quantity::Voltage, 2, b"1"), Ok(()));
    assert!(acc.has_electricity);
    assert_eq!(acc.electricity.voltage.phase_3, b"1".to_vec());
}

#[test]
fn events_are_kept_as_they_come() {
    let mut acc = Accumulator::new();
    acc.add_severity(3, Severity::High);
    acc.add_severity(1, Severity::Low);
    acc.add_severity(3, Severity::Low);
    acc.add_message(2, "b".to_string());
    acc.add_message(1, "a".to_string());
    assert_eq!(acc.severities, vec![(3, Severity::High), (1, Severity::Low), (3, Severity::Low)]);
    assert_eq!(acc.messages, vec![(2, "b".to_string()), (1, "a".to_string())]);
}

#[test]
fn dispatches_each_line_to_the_handler_of_its_tag() {
    let mut acc = Accumulator::new();
    assert_eq!(dispatch(&mut acc, b""), Ok(()));
    assert_eq!(dispatch(&mut acc, b"5.1#(x)"), Ok(()));
    assert_eq!(dispatch(&mut acc, b"/v10"), Ok(()));
    assert_eq!(acc, Accumulator::new());
    assert_eq!(dispatch(&mut acc, b"4"), Ok(()));
    assert!(acc.seen_information_type);
    assert_eq!(dispatch(&mut acc, b"7.2.3#(1.25*A)"), Ok(()));
    assert_eq!(acc.electricity.current.phase_3, b"1.25".to_vec());
    assert_eq!(dispatch(&mut acc, b"2.1#(70-Jan-01 01:00:00 (W))"), Ok(()));
    assert!(acc.has_date);
    // 2070-01-01 00:00:00 UTC
    assert_eq!(acc.timestamp, 3155760000);
    assert_eq!(dispatch(&mut acc, b"3.1.6#(H)"), Ok(()));
    assert_eq!(dispatch(&mut acc, b"3.2.6#(4f4B)"), Ok(()));
    assert_eq!(dispatch(&mut acc, b"3.3.6#(00-Jan-01 02:00:00 (S))"), Ok(()));
    assert_eq!(acc.severities, vec![(6, Severity::High)]);
    assert_eq!(acc.messages, vec![(6, "OK".to_string())]);
    // 2000-01-01 00:00:00 UTC
    assert_eq!(acc.dates, vec![(6, 946684800)]);
    assert_eq!(dispatch(&mut acc, b"1.2.0#(END)"), Ok(()));
    assert_eq!(acc.telegrams.len(), 1);
    assert!(!acc.seen_information_type);
    assert_eq!(dispatch(&mut acc, b"1.1.0#(START)"), Ok(()));
    assert_eq!(acc.telegrams.len(), 1);
}

#[test]
fn a_line_that_fails_changes_nothing() {
    let mut acc = complete();
    let before = acc.clone();
    for (line, failure) in [
        (&b"1"[..], Failure::MalformedLine),
        (b"1.1.1#(START)", Failure::Rejected(ParseError::ChildTelegramNotSupported)),
        (b"2.1#(23-Feb-30 10:20:30 (S))", Failure::InvalidDate),
        (b"2.1#(xx-Feb-30 10:20:30 (S))", Failure::MalformedLine),
        (b"3.3.1#(23-Feb-30 10:20:30 (S))", Failure::InvalidDate),
        (b"3.2.1#(xx)", Failure::MalformedLine),
        (b"4.1#(E)", Failure::Rejected(ParseError::DuplicateFieldId)),
        (b"7.9.9", Failure::MalformedLine),
    ] {
        assert_eq!(dispatch(&mut acc, line), Err(failure));
        assert_eq!(acc, before);
    }
}

#[test]
fn draws_the_series_from_the_telegrams() {
    let input = "/v10\n\
        2.1#(23-Jan-05 10:20:30 (S))\n4.1#(E)\n\
        7.1.1#(230.1*V)\n7.1.2#(231.2*V)\n7.1.3#(229.9*V)\n\
        7.2.1#(1.5*A)\n7.2.3#(3.5*A)\n\
        3.1.2#(H)\n3.2.2#(4142)\n3.3.2#(23-Jan-05 10:19:00 (W))\n\
        3.1.1#(L)\n3.2.1#(43)\n3.3.1#(23-Jan-05 10:19:00 (W))\n\
        1.2.0#(END)\n\
        2.1#(23-Jan-05 10:20:40 (S))\n4.1#(E)\n7.1.2#(5*V)\n1.2.0#(END)\n";
    let dsmr = parse(input).unwrap();
    assert_eq!(
        get_voltage_data(&dsmr),
        vec![
            PhaseSample {
                timestamp: 1672906830,
                phase_1: b"230.1".to_vec(),
                phase_2: b"231.2".to_vec(),
                phase_3: b"229.9".to_vec(),
            },
            PhaseSample {
                timestamp: 1672906840,
                phase_1: b"0.0".to_vec(),
                phase_2: b"5".to_vec(),
                phase_3: b"0.0".to_vec(),
            },
        ]
    );
    assert_eq!(
        get_current_data(&dsmr),
        vec![
            PhaseSample {
                timestamp: 1672906830,
                phase_1: b"1.5".to_vec(),
                phase_2: b"0.0".to_vec(),
                phase_3: b"3.5".to_vec(),
            },
            PhaseSample {
                timestamp: 1672906840,
                phase_1: b"0.0".to_vec(),
                phase_2: b"0.0".to_vec(),
                phase_3: b"0.0".to_vec(),
            },
        ]
    );
    assert_eq!(
        get_event_log_message(&dsmr),
        vec![vec![(Severity::Low, "C".to_string()), (Severity::High, "AB".to_string())], vec![]]
    );
}

#[test]
fn no_telegrams_give_no_series() {
    assert_eq!(get_voltage_data(&vec![]), vec![]);
    assert_eq!(get_current_data(&vec![]), vec![]);
    assert_eq!(get_event_log_message(&vec![]), Vec::<Vec<(Severity, String)>>::new());
}
