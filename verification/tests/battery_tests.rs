use rsc::battery::{parse_number, read_capacity, read_charge_state, ChargeState, NumberError};

fn capacity(content: &str) -> Result<u8, String> {
    read_capacity(Ok(content.as_bytes().to_vec()))
}

fn state(content: &str) -> ChargeState {
    read_charge_state(Ok(content.as_bytes().to_vec())).unwrap()
}

#[test]
fn capacities() {
    assert_eq!(capacity("80\n"), Ok(80));
    assert_eq!(capacity("0\n"), Ok(0));
    assert_eq!(capacity("100"), Ok(100));
    assert_eq!(capacity("  7 \r\n"), Ok(7));
    assert_eq!(capacity("+42\n"), Ok(42));
    assert_eq!(capacity("0007"), Ok(7));
    assert_eq!(capacity("255"), Ok(255));
}

#[test]
fn capacity_errors() {
    assert_eq!(capacity("\n"), Err("cannot parse integer from empty string".to_string()));
    assert_eq!(capacity("8o"), Err("invalid digit found in string".to_string()));
    assert_eq!(capacity("-1"), Err("invalid digit found in string".to_string()));
    assert_eq!(capacity("+"), Err("invalid digit found in string".to_string()));
    assert_eq!(capacity("256"), Err("number too large to fit in target type".to_string()));
    assert_eq!(read_capacity(Err("gone".to_string())), Err("gone".to_string()));
}

#[test]
fn capacity_that_is_not_text() {
    let bytes = vec![0x38, 0xff, 0x0a];
    let expected = std::str::from_utf8(&bytes).unwrap_err().to_string();
    assert_eq!(read_capacity(Ok(bytes)), Err(expected));
}

#[test]
fn numbers_agree_with_the_standard_library() {
    let mut cases: Vec<String> = (0..1200u32).map(|n| n.to_string()).collect();
    for s in [
        "", "+", "-", "+-1", "++1", "-0", "+0", "25x", "256x", "999a", "1a99", "00000000000001",
        "x", "2 5", "٣", "+255", "+256", "1_0", "0x10",
    ] {
        cases.push(s.to_string());
    }
    for s in cases {
        let expected = match s.parse::<u8>() {
            Ok(n) => Ok(n),
            Err(e) => Err(e.to_string()),
        };
        let actual = match parse_number(&s) {
            Ok(n) => Ok(n),
            Err(e) => Err(e.to_string()),
        };
        assert_eq!(actual, expected, "{:?}", s);
    }
}

#[test]
fn number_errors_by_kind() {
    assert_eq!(parse_number(""), Err(NumberError::Empty));
    assert_eq!(parse_number("a"), Err(NumberError::InvalidDigit));
    assert_eq!(parse_number("300"), Err(NumberError::TooLarge));
}

#[test]
fn status_words() {
    assert_eq!(state("Charging\n"), ChargeState::Charging);
    assert_eq!(state("Discharging\n"), ChargeState::Discharging);
    assert_eq!(state("Full\n"), ChargeState::Full);
    assert_eq!(state("Not charging\n"), ChargeState::NotCharging);
    assert_eq!(state("Unknown\n"), ChargeState::Unknown);
    assert_eq!(state("charging"), ChargeState::Unknown);
    assert_eq!(state("NotCharging"), ChargeState::Unknown);
    assert_eq!(state(""), ChargeState::Unknown);
    assert_eq!(read_charge_state(Err("gone".to_string())), Err("gone".to_string()));
    assert!(read_charge_state(Ok(vec![0xc3])).is_err());
}

#[test]
fn only_charging_is_charging() {
    assert!(ChargeState::Charging.is_charging());
    for s in [
        ChargeState::Discharging,
        ChargeState::Full,
        ChargeState::NotCharging,
        ChargeState::Unknown,
    ] {
        assert!(!s.is_charging());
    }
}

#[test]
fn state_names() {
    assert_eq!(ChargeState::Charging.to_string(), "Charging");
    assert_eq!(ChargeState::Discharging.to_string(), "Discharging");
    assert_eq!(ChargeState::Full.to_string(), "Full");
    assert_eq!(ChargeState::NotCharging.to_string(), "NotCharging");
    assert_eq!(ChargeState::Unknown.to_string(), "Unknown");
}
