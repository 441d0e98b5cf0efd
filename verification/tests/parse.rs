use dsmr_parser::{parse, parse_v10, Failure, ParseError, Severity, Telegram};

const HEADER: &str = "/v10\\+g\n\n";

const DATE: &str = "2.1#(23-Jan-05 10:20:30 (S))\n";

/// 2023-01-05 10:20:30 on the daylight saving clock, two hours ahead of UTC.
const DATE_SECONDS: i64 = 1672906830;

const ONE_TELEGRAM: &str = "/v10\\+g\n\
\n\
1.1.0#(START)\n\
2.1#(23-Jan-05 10:20:30 (S))\n\
3.1.2#(H)\n\
3.2.2#(4142)\n\
3.3.2#(23-Jan-05 10:19:00 (W))\n\
3.3.1#(23-Jan-05 10:18:00 (S))\n\
3.2.1#(48656c6c6F)\n\
3.1.1#(L)\n\
4.1#(E)\n\
7.1.1#(230.1*V)\n\
7.1.2#(231.2*V)\n\
7.1.3#(229.9*V)\n\
7.2.1#(1.5*A)\n\
7.2.2#(2.5*A)\n\
7.2.3#(3.5*A)\n\
7.3.1#(0.3*kW)\n\
7.3.2#(0.5*kW)\n\
7.3.3#(0.8*kW)\n\
7.4.1#(1234.5*kWh)\n\
7.4.2#(12.25*kWh)\n\
1.2.0#(END)\n";

fn stream(body: &str) -> String {
    format!("{HEADER}{body}")
}

fn rejected(error: ParseError) -> Result<Vec<Telegram>, Failure> {
    Err(Failure::Rejected(error))
}

#[test]
fn parses_one_telegram() {
    let telegrams = parse(ONE_TELEGRAM).unwrap();
    assert_eq!(telegrams.len(), 1);
    let t = &telegrams[0];
    assert_eq!(t.timestamp, DATE_SECONDS);
    assert_eq!(t.event_log.len(), 2);
    assert_eq!(t.event_log[0].id, 1);
    assert_eq!(t.event_log[0].severity, Severity::Low);
    assert_eq!(t.event_log[0].message, "Hello");
    assert_eq!(t.event_log[0].timestamp, 1672906680);
    assert_eq!(t.event_log[1].id, 2);
    assert_eq!(t.event_log[1].severity, Severity::High);
    assert_eq!(t.event_log[1].message, "AB");
    assert_eq!(t.event_log[1].timestamp, 1672910340);
    assert_eq!(t.electricity.voltage.phase_1, b"230.1".to_vec());
    assert_eq!(t.electricity.voltage.phase_2, b"231.2".to_vec());
    assert_eq!(t.electricity.voltage.phase_3, b"229.9".to_vec());
    assert_eq!(t.electricity.current.phase_1, b"1.5".to_vec());
    assert_eq!(t.electricity.current.phase_2, b"2.5".to_vec());
    assert_eq!(t.electricity.current.phase_3, b"3.5".to_vec());
    assert_eq!(t.electricity.power.phase_1, b"0.3".to_vec());
    assert_eq!(t.electricity.power.phase_2, b"0.5".to_vec());
    assert_eq!(t.electricity.power.phase_3, b"0.8".to_vec());
    assert_eq!(t.electricity.total_consumed, b"1234.5".to_vec());
    assert_eq!(t.electricity.total_produced, b"12.25".to_vec());
}

#[test]
fn a_date_line_holds_a_date_token() {
    let input = "/v10\n1.1.0#(START)\n2.1#(23-Jan-05 10:20:30S)\n4.1#(E)\n7.1.1#(230.0*V)\n1.2.0#(END)\n";
    let telegrams = parse(input).unwrap();
    assert_eq!(telegrams.len(), 1);
    assert_eq!(telegrams[0].timestamp, DATE_SECONDS);
    let input = input.replace("30S", "30W");
    assert_eq!(parse(&input).unwrap()[0].timestamp, DATE_SECONDS + 3600);
    let input = input.replace("30W", "300");
    assert_eq!(parse(&input).unwrap()[0].timestamp, DATE_SECONDS + 3600);
}

#[test]
fn an_event_date_line_holds_a_date_token() {
    let input = stream(&format!(
        "{DATE}3.1.1#(H)\n3.2.1#(4142)\n3.3.1#(23-Jan-05 10:20:30S)\n\
         3.1.2#(L)\n3.2.2#(43)\n3.3.2#(23-Jan-05 10:20:30W)\n\
         4.1#(E)\n7.1.1#(1*V)\n1.2.0#(END)\n"
    ));
    let telegrams = parse(&input).unwrap();
    assert_eq!(telegrams[0].event_log[0].timestamp, DATE_SECONDS);
    assert_eq!(telegrams[0].event_log[1].timestamp, DATE_SECONDS + 3600);
}

#[test]
fn both_forms_of_a_date_value_give_the_same_date() {
    let token = stream("2.1#(23-Jan-05 10:20:30S)\n3.1.1#(H)\n3.2.1#(41)\n3.3.1#(23-Jan-05 10:20:31W)\n4.1#(E)\n7.1.1#(1*V)\n1.2.0#(END)\n");
    let bracketed = stream("2.1#(23-Jan-05 10:20:30 (S))\n3.1.1#(H)\n3.2.1#(41)\n3.3.1#(23-Jan-05 10:20:31 (W))\n4.1#(E)\n7.1.1#(1*V)\n1.2.0#(END)\n");
    assert!(parse(&token).is_ok());
    assert_eq!(parse(&token), parse(&bracketed));
}

#[test]
fn fail_on_date_values_of_another_width() {
    for value in [
        "",
        "23-Jan-05 10:20:30",
        "23-Jan-05 10:20:30 S",
        "23-Jan-05 10:20:30(S)",
        "23-Jan-05 10:20:30  (S)",
        "23-Jan-05 10:20:30xxxx (S)",
        "23-Jan-05 10:20:30 (S) ",
        " 23-Jan-05 10:20:30S",
        "23-Jan-05 10:20:30SS",
        // twenty-two bytes, but not the bracketed form
        "23-Jan-05 10:20:30 [S]",
        "23-Jan-05 10:20:30_(S)",
        "23-Jan-05 10:20:30 (S]",
    ] {
        let input = stream(&format!("2.1#({value})\n"));
        assert_eq!(parse(&input), Err(Failure::MalformedLine), "{value}");
        let input = stream(&format!("3.3.1#({value})\n"));
        assert_eq!(parse(&input), Err(Failure::MalformedLine), "{value}");
    }
}

#[test]
fn fail_on_values_that_are_no_decimal_numbers() {
    for value in [
        "", "abc", ".", "+", "-", "+.", "1e3", "1,5", "1.2.3", "1..2", " 1", "1 ", "--1", "1-",
        "0x10", "inf", "NaN", "1_000", "12)",
    ] {
        let input = stream(&format!("{DATE}4.1#(E)\n7.1.1#({value}*V)\n1.2.0#(END)\n"));
        assert_eq!(parse(&input), Err(Failure::MalformedLine), "{value}");
    }
}

#[test]
fn decimal_numbers_are_kept_as_they_are_written() {
    for value in ["0", "7", "230.5", "+230.5", "-0.25", "5.", ".5", "-.5", "007.100", "12345678901234567890.5"] {
        let input = stream(&format!("{DATE}4.1#(E)\n7.3.2#({value}*kW)\n1.2.0#(END)\n"));
        let telegrams = parse(&input).unwrap();
        assert_eq!(telegrams[0].electricity.power.phase_2, value.as_bytes().to_vec());
        // Every decimal number is a number to the standard library too.
        assert!(value.parse::<f64>().is_ok(), "{value}");
    }
}

#[test]
fn standard_time_is_one_hour_ahead_of_utc() {
    let input = stream("2.1#(23-Jan-05 10:20:30 (W))\n4.1#(E)\n7.1.1#(1*V)\n1.2.0#(END)\n");
    let telegrams = parse(&input).unwrap();
    assert_eq!(telegrams[0].timestamp, DATE_SECONDS + 3600);
}

#[test]
fn values_that_no_line_gives_read_zero() {
    let input = stream(&format!("{DATE}4.1#(E)\n7.2.2#(7.5*A)\n1.2.0#(END)\n"));
    let telegrams = parse(&input).unwrap();
    let e = &telegrams[0].electricity;
    assert_eq!(e.voltage.phase_1, b"0.0".to_vec());
    assert_eq!(e.voltage.phase_2, b"0.0".to_vec());
    assert_eq!(e.voltage.phase_3, b"0.0".to_vec());
    assert_eq!(e.current.phase_1, b"0.0".to_vec());
    assert_eq!(e.current.phase_2, b"7.5".to_vec());
    assert_eq!(e.current.phase_3, b"0.0".to_vec());
    assert_eq!(e.power.phase_1, b"0.0".to_vec());
    assert_eq!(e.total_consumed, b"0.0".to_vec());
    assert_eq!(e.total_produced, b"0.0".to_vec());
    assert!(telegrams[0].event_log.is_empty());
}

#[test]
fn a_later_value_takes_the_place_of_an_earlier_one() {
    let input = stream(&format!(
        "{DATE}4.1#(E)\n7.1.1#(1.0*V)\n7.1.1#(2.0*V)\n7.4.1#(5*kWh)\n7.4.1#(6*kWh)\n1.2.0#(END)\n"
    ));
    let telegrams = parse(&input).unwrap();
    assert_eq!(telegrams[0].electricity.voltage.phase_1, b"2.0".to_vec());
    assert_eq!(telegrams[0].electricity.total_consumed, b"6".to_vec());
}

#[test]
fn a_total_for_the_third_phase_is_the_total_produced() {
    let input = stream(&format!("{DATE}4.1#(E)\n7.4.3#(9.5*kWh)\n1.2.0#(END)\n"));
    let telegrams = parse(&input).unwrap();
    assert_eq!(telegrams[0].electricity.total_consumed, b"0.0".to_vec());
    assert_eq!(telegrams[0].electricity.total_produced, b"9.5".to_vec());
}

#[test]
fn a_later_date_takes_the_place_of_an_earlier_one() {
    let input = stream(&format!(
        "2.1#(20-Dec-31 23:59:59 (W))\n{DATE}4.1#(E)\n7.1.1#(1*V)\n1.2.0#(END)\n"
    ));
    assert_eq!(parse(&input).unwrap()[0].timestamp, DATE_SECONDS);
}

#[test]
fn can_parse_multiple_telegrams() {
    let input = stream(&format!(
        "1.1.0#(START)\n{DATE}4.1#(E)\n7.1.1#(230.0*V)\n1.2.0#(END)\n\
         \n\
         1.1.0#(START)\n2.1#(23-Jan-05 10:20:40 (S))\n4.1#(E)\n7.1.1#(231.0*V)\n1.2.0#(END)\n"
    ));
    let maybe_dsmr = parse(&input);
    println!("{maybe_dsmr:#?}");
    assert!(maybe_dsmr.is_ok());
    let dsmr = maybe_dsmr.unwrap();
    assert_eq!(dsmr.len(), 2);
    assert_eq!(dsmr.len(), input.matches("(END)").count());
    assert_eq!(dsmr[0].timestamp, DATE_SECONDS);
    assert_eq!(dsmr[0].electricity.voltage.phase_1, b"230.0".to_vec());
    assert_eq!(dsmr[1].timestamp, DATE_SECONDS + 10);
    assert_eq!(dsmr[1].electricity.voltage.phase_1, b"231.0".to_vec());

    for n in 0..4 {
        let mut input = String::from(HEADER);
        for _ in 0..n {
            input.push_str("1.1.0#(START)\n");
            input.push_str(DATE);
            input.push_str("4.1#(E)\n7.1.1#(230.0*V)\n1.2.0#(END)\n");
        }
        let count = input.matches("(END)").count();
        let maybe_dsmr = parse(&input);
        assert!(maybe_dsmr.is_ok());
        assert_eq!(maybe_dsmr.unwrap().len(), count);
    }
}

#[test]
fn a_telegram_keeps_nothing_of_the_one_before() {
    let input = stream(&format!(
        "{DATE}3.1.1#(H)\n3.2.1#(41)\n3.3.1#(23-Jan-05 10:20:30 (S))\n4.1#(E)\n7.1.1#(230.0*V)\n\
         7.4.1#(5*kWh)\n1.2.0#(END)\n\
         2.1#(23-Jan-05 10:20:40 (S))\n4.1#(E)\n7.1.2#(231.0*V)\n1.2.0#(END)\n"
    ));
    let dsmr = parse(&input).unwrap();
    assert_eq!(dsmr.len(), 2);
    assert_eq!(dsmr[0].event_log.len(), 1);
    assert!(dsmr[1].event_log.is_empty());
    assert_eq!(dsmr[1].electricity.voltage.phase_1, b"0.0".to_vec());
    assert_eq!(dsmr[1].electricity.voltage.phase_2, b"231.0".to_vec());
    assert_eq!(dsmr[1].electricity.total_consumed, b"0.0".to_vec());
}

#[test]
fn a_start_drops_what_came_before_it() {
    let input = stream(&format!(
        "4.1#(E)\n7.1.1#(1*V)\n3.1.1#(H)\n1.1.0#(START)\n{DATE}4.1#(E)\n7.1.2#(2*V)\n1.2.0#(END)\n"
    ));
    let dsmr = parse(&input).unwrap();
    assert_eq!(dsmr.len(), 1);
    assert_eq!(dsmr[0].electricity.voltage.phase_1, b"0.0".to_vec());
    assert_eq!(dsmr[0].electricity.voltage.phase_2, b"2".to_vec());
    assert!(dsmr[0].event_log.is_empty());
}

#[test]
fn lines_may_end_in_carriage_return_and_line_feed() {
    let input = ONE_TELEGRAM.replace('\n', "\r\n");
    assert_eq!(parse(&input), parse(ONE_TELEGRAM));
    assert_eq!(parse(&input).unwrap().len(), 1);
}

#[test]
fn the_last_line_needs_no_line_feed() {
    let input = stream(&format!("{DATE}4.1#(E)\n7.1.1#(1*V)\n1.2.0#(END)"));
    assert_eq!(parse(&input).unwrap().len(), 1);
}

#[test]
fn lines_with_unknown_tags_are_passed_over() {
    let input = stream(&format!(
        "5.1#(gas)\n{DATE}9\n!\n4.1#(E)\n6.2.1#(0.5*m3)\n7.1.1#(1*V)\n8\n0\n\n\n1.2.0#(END)\n"
    ));
    let plain = stream(&format!("{DATE}4.1#(E)\n7.1.1#(1*V)\n1.2.0#(END)\n"));
    assert_eq!(parse(&input), parse(&plain));
    assert_eq!(parse(&input).unwrap().len(), 1);
}

#[test]
fn a_stream_without_telegrams_is_empty() {
    assert_eq!(parse("/v10"), Ok(vec![]));
    assert_eq!(parse(HEADER), Ok(vec![]));
    assert_eq!(parse(&stream("1.1.0#(START)\n4.1#(E)\n")), Ok(vec![]));
}

#[test]
fn the_header_line_is_not_read_as_a_field() {
    // The header would be a malformed boundary line if it were dispatched.
    assert_eq!(parse("1v10\n"), Ok(vec![]));
}

#[test]
fn fail_on_v12() {
    for body in [
        "1.1.0#(START)\n1.1.1#(START)\n1.2.1#(END)\n1.2.0#(END)\n",
        "1.1.0#(START)\n2.1#(23-Jan-05 10:20:30 (S))\n4.1#(E)\n7.1.1#(1*V)\n1.2.0#(END)\n",
        "",
        "\n",
    ] {
        let input = format!("/v12\\+g\n\n{body}");
        assert!(parse(&input).is_err());
        assert_eq!(parse(&input), rejected(ParseError::UnknownTelegramVersion));
    }
}

#[test]
fn refuses_a_header_that_is_too_short_to_name_a_version() {
    assert_eq!(parse(""), rejected(ParseError::UnknownTelegramVersion));
    assert_eq!(parse("/v1"), rejected(ParseError::UnknownTelegramVersion));
    assert_eq!(parse("v10\n"), rejected(ParseError::UnknownTelegramVersion));
    assert_eq!(parse("/V10\n"), rejected(ParseError::UnknownTelegramVersion));
}

#[test]
fn parse_v10_does_not_read_the_header() {
    let input = format!("anything\n{DATE}4.1#(E)\n7.1.1#(1*V)\n1.2.0#(END)\n");
    assert_eq!(parse_v10(&input).unwrap().len(), 1);
    assert_eq!(parse(&input), rejected(ParseError::UnknownTelegramVersion));
    assert_eq!(parse_v10(""), Ok(vec![]));
}

#[test]
fn fail_on_duplicate_info_type() {
    let input = stream(&format!("1.1.0#(START)\n{DATE}4.1#(E)\n4.1#(E)\n7.1.1#(1*V)\n1.2.0#(END)\n"));
    assert!(parse(&input).is_err());
    assert_eq!(parse(&input), rejected(ParseError::DuplicateFieldId));
}

#[test]
fn the_information_type_may_come_once_in_each_telegram() {
    let input = stream(&format!(
        "{DATE}4.1#(E)\n7.1.1#(1*V)\n1.2.0#(END)\n{DATE}4.1#(E)\n7.1.1#(1*V)\n1.2.0#(END)\n"
    ));
    assert_eq!(parse(&input).unwrap().len(), 2);
}

#[test]
fn fail_on_missing_electricity() {
    let input = stream(&format!("1.1.0#(START)\n{DATE}4.1#(E)\n1.2.0#(END)\n"));
    assert!(parse(&input).is_err());
    assert_eq!(parse(&input), rejected(ParseError::MissingElectricity));
}

#[test]
fn fail_on_electricity_before_information_type() {
    let input = stream(&format!("{DATE}7.1.1#(1*V)\n4.1#(E)\n1.2.0#(END)\n"));
    assert_eq!(parse(&input), rejected(ParseError::MissingElectricity));
    // The marker is asked for before the shape of the line is looked at.
    let input = stream(&format!("{DATE}7\n4.1#(E)\n1.2.0#(END)\n"));
    assert_eq!(parse(&input), rejected(ParseError::MissingElectricity));
}

#[test]
fn fail_on_missing_date() {
    let input = stream("1.1.0#(START)\n4.1#(E)\n7.1.1#(1*V)\n1.2.0#(END)\n");
    assert!(parse(&input).is_err());
    assert_eq!(parse(&input), rejected(ParseError::NoDate));
}

#[test]
fn missing_electricity_is_told_before_a_missing_date() {
    let input = stream("1.1.0#(START)\n4.1#(E)\n1.2.0#(END)\n");
    assert_eq!(parse(&input), rejected(ParseError::MissingElectricity));
}

#[test]
fn fail_on_child_telegram() {
    let input = stream(&format!(
        "1.1.0#(START)\n{DATE}4.1#(E)\n7.1.1#(1*V)\n1.1.1#(START)\n1.2.1#(END)\n1.2.0#(END)\n"
    ));
    assert_eq!(parse(&input), rejected(ParseError::ChildTelegramNotSupported));
    // Whatever follows the marker, well formed or not.
    for after in ["", "4.1#(E)\n4.1#(E)\n", "3\n", "1.2.0#(END)\n", "7\n"] {
        let input = stream(&format!("1.1.2#(START)\n{after}"));
        assert_eq!(parse(&input), rejected(ParseError::ChildTelegramNotSupported));
    }
}

#[test]
fn the_first_failure_is_the_one_returned() {
    let input = stream("4.1#(E)\n4.1#(E)\n1.1.1#(START)\n");
    assert_eq!(parse(&input), rejected(ParseError::DuplicateFieldId));
    let input = stream("1.1.1#(START)\n4.1#(E)\n4.1#(E)\n");
    assert_eq!(parse(&input), rejected(ParseError::ChildTelegramNotSupported));
    let input = stream("3\n1.1.1#(START)\n");
    assert_eq!(parse(&input), Err(Failure::MalformedLine));
}

#[test]
fn no_telegram_is_returned_when_a_later_one_fails() {
    let input = stream(&format!("{DATE}4.1#(E)\n7.1.1#(1*V)\n1.2.0#(END)\n4.1#(E)\n1.2.0#(END)\n"));
    assert_eq!(parse(&input), rejected(ParseError::MissingElectricity));
}

#[test]
fn fail_on_malformed_lines() {
    for line in [
        // boundary lines too short to tell what they mark
        "1",
        "1.",
        "1.1",
        "1.1.",
        // date lines
        "2",
        "2.1#(23-Jan-05 10:20:30 (S",
        "2.1#(23-Jan-05 10:20:30 (S)",
        "2.1#(23-Jan-05 10:20:3)",
        "2.1#(2x-Jan-05 10:20:30 (S))",
        "2.1#(23-Jan-0x 10:20:30 (S))",
        "2.1#(23-Jan-05 1x:20:30 (S))",
        "2.1#(23-Jan-05 10:x0:30 (S))",
        "2.1#(23-Jan-05 10:20:3x (S))",
        "2.1#(23/Jan-05 10:20:30 (S))",
        "2.1#(23-Jan/05 10:20:30 (S))",
        "2.1#(23-Jan-05T10:20:30 (S))",
        "2.1#(23-Jan-05 10.20:30 (S))",
        "2.1#(23-Jan-05 10:20.30 (S))",
        "2.1)",
        // event lines
        "3",
        "3.1.1#(H",
        "3.1.1#)",
        "3.1.x#(H)",
        "3.4.1#(H)",
        "3.0.1#(H)",
        "3.2.1#(4g)",
        "3.2.1#(zz41)",
        "3.3.1#(23-Jan-05 10:20:30)",
        "3.3.1#(23-Jan-05 10:20:30 S)",
        "3.3.1#(S))",
        "3.3.1#(23-Jan-05 10:20:30 (S)",
        "3.3.1#(23-Jan-05 10:2x:30 (S))",
    ] {
        let input = stream(&format!("{line}\n"));
        assert_eq!(parse(&input), Err(Failure::MalformedLine), "{line}");
    }
    for line in [
        "7",
        "7.1.1#(1V)",
        "7.1.1*",
        "7.1.0#(1*V)",
        "7.1.4#(1*V)",
        "7.0.1#(1*V)",
        "7.5.1#(1*V)",
        "7.x.1#(1*V)",
        "7.1",
    ] {
        let input = stream(&format!("4.1#(E)\n{line}\n"));
        assert_eq!(parse(&input), Err(Failure::MalformedLine), "{line}");
    }
}

#[test]
fn fail_on_dates_that_name_no_moment() {
    for line in [
        "2.1#(23-Feb-30 10:20:30 (S))",
        "2.1#(23-Apr-31 10:20:30 (S))",
        "2.1#(23-Feb-29 10:20:30 (S))",
        "2.1#(23-Jan-00 10:20:30 (S))",
        "2.1#(23-Jan-05 24:20:30 (S))",
        "2.1#(23-Jan-05 10:60:30 (S))",
        "2.1#(23-Jan-05 10:20:60 (S))",
        "2.1#(23-Xyz-05 10:20:30 (S))",
        "2.1#(23-jan-05 10:20:30 (S))",
        "3.3.1#(23-Feb-30 10:20:30 (S))",
        "3.3.1#(23-Foo-05 10:20:30 (S))",
    ] {
        let input = stream(&format!("{line}\n"));
        assert_eq!(parse(&input), Err(Failure::InvalidDate), "{line}");
    }
    // 2024 is a leap year.
    let input = stream("2.1#(24-Feb-29 00:00:00 (W))\n4.1#(E)\n7.1.1#(1*V)\n1.2.0#(END)\n");
    assert_eq!(parse(&input).unwrap()[0].timestamp, 1709161200);
}

#[test]
fn fail_on_events_that_do_not_correlate() {
    let event_date = "3.3.1#(23-Jan-05 10:20:30 (S))\n";
    for events in [
        // a part is missing
        "3.1.1#(H)\n3.2.1#(41)\n".to_string(),
        format!("3.1.1#(H)\n{event_date}"),
        format!("3.2.1#(41)\n{event_date}"),
        "3.1.1#(H)\n".to_string(),
        // the ids differ
        format!("3.1.1#(H)\n3.2.2#(41)\n{event_date}"),
        format!("3.1.2#(H)\n3.2.1#(41)\n{event_date}"),
        format!("3.1.2#(H)\n3.2.2#(41)\n{event_date}"),
        // an id comes twice in one kind
        format!("3.1.1#(H)\n3.1.1#(H)\n3.2.1#(41)\n{event_date}"),
        format!("3.1.1#(H)\n3.2.1#(41)\n3.2.1#(42)\n{event_date}"),
        format!("3.1.1#(H)\n3.2.1#(41)\n{event_date}{event_date}"),
        format!("3.1.1#(H)\n3.1.1#(L)\n3.2.1#(41)\n3.2.1#(41)\n{event_date}{event_date}"),
    ] {
        let input = stream(&format!("{DATE}{events}4.1#(E)\n7.1.1#(1*V)\n1.2.0#(END)\n"));
        assert_eq!(parse(&input), Err(Failure::UncorrelatedEventLog), "{events}");
    }
}

#[test]
fn events_are_only_correlated_when_the_telegram_is_complete() {
    // The telegram lacks its date, which is told first.
    let input = stream("3.1.1#(H)\n4.1#(E)\n7.1.1#(1*V)\n1.2.0#(END)\n");
    assert_eq!(parse(&input), rejected(ParseError::NoDate));
}

#[test]
fn event_log_is_in_ascending_order_of_id_whatever_the_order_of_arrival() {
    let parts = [
        "3.1.0#(L)\n",
        "3.2.0#(30)\n",
        "3.3.0#(23-Jan-05 00:00:00 (W))\n",
        "3.1.5#(H)\n",
        "3.2.5#(35)\n",
        "3.3.5#(23-Jan-05 00:00:05 (W))\n",
        "3.1.9#(L)\n",
        "3.2.9#(39)\n",
        "3.3.9#(23-Jan-05 00:00:09 (W))\n",
        "3.1.3#(H)\n",
        "3.2.3#(33)\n",
        "3.3.3#(23-Jan-05 00:00:03 (W))\n",
    ];
    let orders: [[usize; 12]; 4] = [
        [0, 1, 2, 3, 4, 5, 6, 7, 8, 9, 10, 11],
        [11, 10, 9, 8, 7, 6, 5, 4, 3, 2, 1, 0],
        [6, 3, 9, 0, 1, 10, 4, 7, 2, 5, 8, 11],
        [5, 11, 8, 2, 7, 1, 10, 4, 0, 9, 3, 6],
    ];
    let midnight: i64 = 1672873200;
    let mut results = Vec::new();
    for order in orders {
        let mut events = String::new();
        for i in order {
            events.push_str(parts[i]);
        }
        let input = stream(&format!("{DATE}{events}4.1#(E)\n7.1.1#(1*V)\n1.2.0#(END)\n"));
        let telegrams = parse(&input).unwrap();
        let log = &telegrams[0].event_log;
        let ids: Vec<u32> = log.iter().map(|entry| entry.id).collect();
        assert_eq!(ids, vec![0, 3, 5, 9]);
        for entry in log {
            assert_eq!(entry.timestamp, midnight + entry.id as i64);
            assert_eq!(entry.message, entry.id.to_string());
            let expected = if entry.id == 5 || entry.id == 3 { Severity::High } else { Severity::Low };
            assert_eq!(entry.severity, expected);
        }
        results.push(telegrams);
    }
    assert_eq!(results[0], results[1]);
    assert_eq!(results[0], results[2]);
    assert_eq!(results[0], results[3]);
}

#[test]
fn parsing_twice_gives_the_same_twice() {
    let broken = stream("4.1#(E)\n4.1#(E)\n");
    for input in [ONE_TELEGRAM, "", "/v12", HEADER, broken.as_str()] {
        let first = parse(input);
        let second = parse(input);
        assert_eq!(first, second);
    }
    assert!(parse(ONE_TELEGRAM).is_ok());
}

#[test]
fn only_the_eighth_byte_of_a_severity_counts() {
    let input = stream(&format!(
        "{DATE}3.1.1#(High)\n3.2.1#()\n3.3.1#(23-Jan-05 10:20:30 (S))\n\
         3.1.2#(h)\n3.2.2#(414)\n3.3.2#(23-Jan-05 10:20:30 (S))\n\
         3.1.3#()\n3.2.3#(7A)\n3.3.3#(23-Jan-05 10:20:30 (S))\n\
         4.1#(E)\n7.1.1#(1*V)\n1.2.0#(END)\n"
    ));
    let telegrams = parse(&input).unwrap();
    let log = &telegrams[0].event_log;
    assert_eq!(log[0].severity, Severity::High);
    assert_eq!(log[0].message, "");
    assert_eq!(log[1].severity, Severity::Low);
    // A last digit without a partner is not read.
    assert_eq!(log[1].message, "A");
    assert_eq!(log[2].severity, Severity::Low);
    assert_eq!(log[2].message, "z");
}

#[test]
fn the_value_of_a_field_ends_at_the_last_bracket_or_the_first_asterisk() {
    let input = stream(&format!(
        "{DATE}3.1.1#(H)\n3.2.1#(4142))))\n3.3.1#(23-Jan-05 10:20:30 (S))\n\
         4.1#(E)\n7.1.1#(12*3*V)\n7.1.2#(*V)\n1.2.0#(END)\n"
    ));
    assert_eq!(parse(&input), Err(Failure::MalformedLine));
    let input = stream(&format!("{DATE}4.1#(E)\n7.1.1#(12*3*V)\n7.1.2#(4*x*V)\n1.2.0#(END)\n"));
    let telegrams = parse(&input).unwrap();
    assert_eq!(telegrams[0].electricity.voltage.phase_1, b"12".to_vec());
    assert_eq!(telegrams[0].electricity.voltage.phase_2, b"4".to_vec());
}
