use arbitrage_detector::parsing_utils::{
    month_from_upper, option_type_from_upper, split_fields, ExpiryDate, InstrumentParseError,
    InstrumentValidator, OptionType,
};
use arbitrage_detector::text::{labelled, number_string};
use chrono::{Datelike, NaiveDate};

fn same_day(date: ExpiryDate, expected: NaiveDate) -> bool {
    date.year == expected.year() && date.month == expected.month() && date.day == expected.day()
}

#[test]
fn test_same_instruments() {
    let okex = "BTC-USD-240427-56000-C";
    let deribit = "BTC-27APR24-56000-C";

    assert!(InstrumentValidator::are_same_instrument(okex, deribit).unwrap());
}

#[test]
fn test_different_strikes() {
    let okex = "BTC-USD-240427-56000-C";
    let deribit = "BTC-27APR24-60000-C";

    assert!(!InstrumentValidator::are_same_instrument(okex, deribit).unwrap());
}

#[test]
fn test_different_expiry() {
    let okex = "BTC-USD-240427-56000-C";
    let deribit = "BTC-28APR24-56000-C";

    assert!(!InstrumentValidator::are_same_instrument(okex, deribit).unwrap());
}

#[test]
fn test_different_option_types() {
    let okex = "BTC-USD-240427-56000-C";
    let deribit = "BTC-27APR24-56000-P";

    assert!(!InstrumentValidator::are_same_instrument(okex, deribit).unwrap());
}

#[test]
fn test_put_options() {
    let okex = "BTC-USD-251031-140000-P";
    let deribit = "BTC-31OCT25-140000-P";

    assert!(InstrumentValidator::are_same_instrument(okex, deribit).unwrap());
}

#[test]
fn test_date_parsing() {
    let date1 = InstrumentValidator::parse_okex_date("240427").unwrap();
    let expected1 = NaiveDate::from_ymd_opt(2024, 4, 27).unwrap();
    assert!(same_day(date1, expected1));

    let date2 = InstrumentValidator::parse_deribit_date("27APR24").unwrap();
    let expected2 = NaiveDate::from_ymd_opt(2024, 4, 27).unwrap();
    assert!(same_day(date2, expected2));
}

#[test]
fn test_invalid_formats() {
    assert!(InstrumentValidator::parse_okex_symbol("BTC-USD-240427").is_err());
    assert!(InstrumentValidator::parse_deribit_symbol("BTC-27APR24").is_err());

    assert!(InstrumentValidator::parse_okex_date("24042").is_err());
    assert!(InstrumentValidator::parse_deribit_date("27XYZ24").is_err());

    assert!(InstrumentValidator::parse_okex_symbol("BTC-USD-240427-ABC-C").is_err());

    assert!(InstrumentValidator::parse_okex_symbol("BTC-USD-240427-56000-X").is_err());
}

#[test]
fn test_parsed_instrument_components() {
    let okex_parsed = InstrumentValidator::parse_okex_symbol("BTC-USD-240427-56000-C").unwrap();

    assert_eq!(okex_parsed.underlying, "BTC");
    assert!(same_day(okex_parsed.expiry_date, NaiveDate::from_ymd_opt(2024, 4, 27).unwrap()));
    assert_eq!(okex_parsed.strike, 56000);
    assert_eq!(okex_parsed.option_type, OptionType::Call);

    let deribit_parsed =
        InstrumentValidator::parse_deribit_symbol("BTC-27APR24-56000-C").unwrap();

    assert_eq!(deribit_parsed.underlying, "BTC");
    assert!(same_day(deribit_parsed.expiry_date, NaiveDate::from_ymd_opt(2024, 4, 27).unwrap()));
    assert_eq!(deribit_parsed.strike, 56000);
    assert_eq!(deribit_parsed.option_type, OptionType::Call);

    assert_eq!(okex_parsed, deribit_parsed);
}

#[test]
fn test_edge_case_dates() {
    let okex_99 = InstrumentValidator::parse_okex_date("991231").unwrap();
    assert_eq!(okex_99.year, 2099);

    let okex_00 = InstrumentValidator::parse_okex_date("000101").unwrap();
    assert_eq!(okex_00.year, 2000);

    let months = [
        ("01JAN24", 1),
        ("15FEB24", 2),
        ("31MAR24", 3),
        ("30APR24", 4),
        ("31MAY24", 5),
        ("30JUN24", 6),
        ("31JUL24", 7),
        ("31AUG24", 8),
        ("30SEP24", 9),
        ("31OCT24", 10),
        ("30NOV24", 11),
        ("31DEC24", 12),
    ];

    for (date_str, expected_month) in months {
        let parsed = InstrumentValidator::parse_deribit_date(date_str).unwrap();
        assert_eq!(parsed.month, expected_month);
    }
}

#[test]
fn too_few_components_is_an_error_not_a_crash() {
    for symbol in ["", "-", "BTC", "BTC-USD-240427-56000", "---"] {
        assert!(matches!(
            InstrumentValidator::are_same_instrument(symbol, "BTC-27APR24-56000-C"),
            Err(InstrumentParseError::InsufficientComponents)
        ));
    }
    for symbol in ["", "BTC-27APR24-56000", "--"] {
        assert!(matches!(
            InstrumentValidator::are_same_instrument("BTC-USD-240427-56000-C", symbol),
            Err(InstrumentParseError::InsufficientComponents)
        ));
    }
}

#[test]
fn the_first_symbol_is_read_first() {
    let r = InstrumentValidator::are_same_instrument("BTC-USD-240427-oops-C", "BTC");
    match r {
        Err(InstrumentParseError::InvalidStrike(text)) => assert_eq!(text, "oops"),
        other => panic!("unexpected: {:?}", other),
    }
}

#[test]
fn each_error_names_what_was_wrong() {
    match InstrumentValidator::parse_okex_symbol("BTC-USD-240427-56000-X") {
        Err(InstrumentParseError::InvalidOptionType(text)) => assert_eq!(text, "X"),
        other => panic!("unexpected: {:?}", other),
    }
    match InstrumentValidator::parse_deribit_symbol("BTC-27APR24-5x-C") {
        Err(InstrumentParseError::InvalidStrike(text)) => assert_eq!(text, "5x"),
        other => panic!("unexpected: {:?}", other),
    }
    match InstrumentValidator::parse_okex_date("24042") {
        Err(InstrumentParseError::InvalidFormat(text)) => {
            assert_eq!(text, "Expected 6-digit date, got: 24042")
        }
        other => panic!("unexpected: {:?}", other),
    }
    match InstrumentValidator::parse_okex_date("2x0427") {
        Err(InstrumentParseError::InvalidFormat(text)) => assert_eq!(text, "Invalid year: 2x"),
        other => panic!("unexpected: {:?}", other),
    }
    match InstrumentValidator::parse_okex_date("24ab27") {
        Err(InstrumentParseError::InvalidFormat(text)) => assert_eq!(text, "Invalid month: ab"),
        other => panic!("unexpected: {:?}", other),
    }
    match InstrumentValidator::parse_okex_date("2404 7") {
        Err(InstrumentParseError::InvalidFormat(text)) => assert_eq!(text, "Invalid day:  7"),
        other => panic!("unexpected: {:?}", other),
    }
    match InstrumentValidator::parse_okex_date("-10427") {
        Err(InstrumentParseError::InvalidFormat(text)) => assert_eq!(text, "Invalid year: -1"),
        other => panic!("unexpected: {:?}", other),
    }
    match InstrumentValidator::parse_okex_date("240230") {
        Err(InstrumentParseError::InvalidFormat(text)) => {
            assert_eq!(text, "Invalid date: 2024-02-30")
        }
        other => panic!("unexpected: {:?}", other),
    }
    match InstrumentValidator::parse_okex_date("24+4+7") {
        Ok(date) => assert_eq!(date, ExpiryDate { year: 2024, month: 4, day: 7 }),
        other => panic!("unexpected: {:?}", other),
    }
    match InstrumentValidator::parse_okex_date("240007") {
        Err(InstrumentParseError::InvalidFormat(text)) => {
            assert_eq!(text, "Invalid date: 2024-00-07")
        }
        other => panic!("unexpected: {:?}", other),
    }
    match InstrumentValidator::parse_deribit_date("27APR2") {
        Err(InstrumentParseError::InvalidFormat(text)) => {
            assert_eq!(text, "Expected format DDMMMYY, got: 27APR2")
        }
        other => panic!("unexpected: {:?}", other),
    }
    match InstrumentValidator::parse_deribit_date("2xAPR24") {
        Err(InstrumentParseError::InvalidFormat(text)) => assert_eq!(text, "Invalid day: 2x"),
        other => panic!("unexpected: {:?}", other),
    }
    match InstrumentValidator::parse_deribit_date("27APRxx") {
        Err(InstrumentParseError::InvalidFormat(text)) => assert_eq!(text, "Invalid year: xx"),
        other => panic!("unexpected: {:?}", other),
    }
    match InstrumentValidator::parse_deribit_date("27XYZ24") {
        Err(InstrumentParseError::InvalidFormat(text)) => assert_eq!(text, "Invalid month: XYZ"),
        other => panic!("unexpected: {:?}", other),
    }
    match InstrumentValidator::parse_deribit_date("31APR24") {
        Err(InstrumentParseError::InvalidFormat(text)) => {
            assert_eq!(text, "Invalid date: 2024-04-31")
        }
        other => panic!("unexpected: {:?}", other),
    }
}

#[test]
fn leap_days_follow_the_calendar() {
    assert_eq!(
        InstrumentValidator::parse_okex_date("240229").unwrap(),
        ExpiryDate { year: 2024, month: 2, day: 29 }
    );
    assert!(InstrumentValidator::parse_okex_date("230229").is_err());
    assert_eq!(
        InstrumentValidator::parse_deribit_date("29FEB00").unwrap(),
        ExpiryDate { year: 2000, month: 2, day: 29 }
    );
    assert!(InstrumentValidator::parse_deribit_date("29FEB25").is_err());
    assert!(InstrumentValidator::parse_okex_date("241301").is_err());
    assert!(InstrumentValidator::parse_okex_date("240100").is_err());
}

#[test]
fn case_does_not_matter_where_the_symbol_is_upper_cased() {
    let parsed = InstrumentValidator::parse_okex_symbol("btc-usd-240427-56000-c").unwrap();
    assert_eq!(parsed.underlying, "BTC");
    assert_eq!(parsed.option_type, OptionType::Call);
    let other = InstrumentValidator::parse_deribit_symbol("Btc-27apr24-56000-p").unwrap();
    assert_eq!(other.underlying, "BTC");
    assert_eq!(other.expiry_date, ExpiryDate { year: 2024, month: 4, day: 27 });
    assert_eq!(other.option_type, OptionType::Put);
    assert!(InstrumentValidator::are_same_instrument(
        "eth-usd-251031-3000-p",
        "ETH-31oct25-3000-P"
    )
    .unwrap());
    assert!(!InstrumentValidator::are_same_instrument(
        "ETH-USD-251031-3000-P",
        "BTC-31OCT25-3000-P"
    )
    .unwrap());
}

#[test]
fn what_follows_the_needed_fields_is_not_read() {
    let parsed = InstrumentValidator::parse_okex_symbol("BTC-USD-240427-56000-C-extra").unwrap();
    assert_eq!(parsed.strike, 56000);
    let date = InstrumentValidator::parse_deribit_date("27APR2024").unwrap();
    assert_eq!(date, ExpiryDate { year: 2020, month: 4, day: 27 });
}

#[test]
fn strikes_are_unsigned_numbers_that_fit() {
    assert_eq!(
        InstrumentValidator::parse_okex_symbol("BTC-USD-240427-+7-C").unwrap().strike,
        7
    );
    assert_eq!(
        InstrumentValidator::parse_okex_symbol("BTC-USD-240427-4294967295-C").unwrap().strike,
        4294967295
    );
    assert!(matches!(
        InstrumentValidator::parse_okex_symbol("BTC-USD-240427-4294967296-C"),
        Err(InstrumentParseError::InvalidStrike(_))
    ));
    assert!(matches!(
        InstrumentValidator::parse_okex_symbol("BTC-USD-240427--C"),
        Err(InstrumentParseError::InvalidStrike(_))
    ));
}

#[test]
fn text_outside_ascii_in_a_date_is_an_error() {
    assert!(matches!(
        InstrumentValidator::parse_okex_date("2404\u{e9}7"),
        Err(InstrumentParseError::InvalidFormat(_))
    ));
    assert!(matches!(
        InstrumentValidator::parse_okex_date("1\u{e9}240"),
        Err(InstrumentParseError::InvalidFormat(_))
    ));
    assert!(matches!(
        InstrumentValidator::parse_deribit_date("27\u{c0}PR24"),
        Err(InstrumentParseError::InvalidFormat(_))
    ));
    assert_eq!(
        InstrumentValidator::parse_deribit_date("27APR24\u{e9}").unwrap(),
        ExpiryDate { year: 2024, month: 4, day: 27 }
    );
}

#[test]
fn fields_are_cut_at_every_dash() {
    assert_eq!(split_fields(""), vec![""]);
    assert_eq!(split_fields("a"), vec!["a"]);
    assert_eq!(split_fields("a-b"), vec!["a", "b"]);
    assert_eq!(split_fields("-a--b-"), vec!["", "a", "", "b", ""]);
    assert_eq!(split_fields("BTC-USD-240427-56000-C").len(), 5);
}

#[test]
fn months_and_option_types_by_name() {
    assert_eq!(month_from_upper(&"JAN".to_string()), Some(1));
    assert_eq!(month_from_upper(&"DEC".to_string()), Some(12));
    assert_eq!(month_from_upper(&"jan".to_string()), None);
    assert_eq!(month_from_upper(&"JANU".to_string()), None);
    assert_eq!(option_type_from_upper(&"C".to_string()), Some(OptionType::Call));
    assert_eq!(option_type_from_upper(&"P".to_string()), Some(OptionType::Put));
    assert_eq!(option_type_from_upper(&"c".to_string()), None);
    assert_eq!(option_type_from_upper(&"".to_string()), None);
}

#[test]
fn errors_read_as_lines() {
    assert_eq!(
        InstrumentParseError::InsufficientComponents.message(),
        "Insufficient components in symbol"
    );
    assert_eq!(
        InstrumentParseError::InvalidStrike("ABC".to_string()).message(),
        "Invalid strike price: ABC"
    );
    assert_eq!(
        InstrumentParseError::InvalidOptionType("X".to_string()).message(),
        "Invalid option type: X"
    );
    assert_eq!(
        InstrumentParseError::InvalidFormat("Invalid year: 2x".to_string()).message(),
        "Invalid format: Invalid year: 2x"
    );
    assert_eq!(
        InstrumentParseError::DateParseError("input is out of range".to_string()).message(),
        "Date parse error: input is out of range"
    );
}

#[test]
fn signs_in_numbers_are_read_as_the_standard_reader_reads_them() {
    assert_eq!(
        InstrumentValidator::parse_okex_date("-00427").unwrap(),
        ExpiryDate { year: 2000, month: 4, day: 27 }
    );
    assert_eq!(
        InstrumentValidator::parse_okex_date("+50427").unwrap(),
        ExpiryDate { year: 2005, month: 4, day: 27 }
    );
    assert_eq!(
        InstrumentValidator::parse_deribit_date("+1MAR+9").unwrap(),
        ExpiryDate { year: 2009, month: 3, day: 1 }
    );
    match InstrumentValidator::parse_okex_date("24++27") {
        Err(InstrumentParseError::InvalidFormat(text)) => assert_eq!(text, "Invalid month: ++"),
        other => panic!("unexpected: {:?}", other),
    }
    match InstrumentValidator::parse_okex_date("2404-1") {
        Err(InstrumentParseError::InvalidFormat(text)) => assert_eq!(text, "Invalid day: -1"),
        other => panic!("unexpected: {:?}", other),
    }
    match InstrumentValidator::parse_okex_date("--0427") {
        Err(InstrumentParseError::InvalidFormat(text)) => assert_eq!(text, "Invalid year: --"),
        other => panic!("unexpected: {:?}", other),
    }
    for strike in ["+", "", "5_6", " 56", "56 ", "\u{663}", "0x10", "1e3", "5.0"] {
        let symbol = format!("BTC-USD-240427-{}-C", strike);
        match InstrumentValidator::parse_okex_symbol(&symbol) {
            Err(InstrumentParseError::InvalidStrike(text)) => assert_eq!(text, strike),
            other => panic!("unexpected for {:?}: {:?}", strike, other),
        }
    }
    assert_eq!(
        InstrumentValidator::parse_okex_symbol("BTC-USD-240427-00056000-C").unwrap().strike,
        56000
    );
}

#[test]
fn upper_casing_follows_unicode() {
    let parsed = InstrumentValidator::parse_okex_symbol("\u{17f}ol-USD-240427-1-C").unwrap();
    assert_eq!(parsed.underlying, "SOL");
    assert!(InstrumentValidator::are_same_instrument(
        "stra\u{df}e-USD-240427-1-C",
        "STRASSE-27APR24-1-C"
    )
    .unwrap());
}

#[test]
fn numbers_and_labels_as_text() {
    assert_eq!(number_string(0), "0");
    assert_eq!(number_string(7), "7");
    assert_eq!(number_string(10), "10");
    assert_eq!(number_string(1234567890), "1234567890");
    assert_eq!(number_string(usize::MAX), usize::MAX.to_string());
    assert_eq!(labelled("Invalid day: ", "3x"), "Invalid day: 3x");
}
