use lora_e5::{Error, Mode, Region, DR};
use std::str::FromStr;

#[test]
fn modes_on_the_wire() {
    assert_eq!(Mode::Test.as_str(), "TEST");
    assert_eq!(Mode::Otaa.as_str(), "LWOTAA");
    assert_eq!(Mode::Abp.as_str(), "LWABP");
}

#[test]
fn regions_on_the_wire() {
    assert_eq!(Region::Eu868.as_str(), "EU868");
    assert_eq!(Region::Us915.as_str(), "US915");
}

#[test]
fn data_rates_on_the_wire() {
    assert_eq!(DR::_0.as_str(), "0");
    assert_eq!(DR::_1.as_str(), "1");
    assert_eq!(DR::_2.as_str(), "2");
    assert_eq!(DR::_3.as_str(), "3");
    assert_eq!(DR::_4.as_str(), "4");
}

#[test]
fn data_rates_are_read_from_one_digit() {
    assert_eq!(DR::from_str("0").unwrap(), DR::_0);
    assert_eq!(DR::from_str("1").unwrap(), DR::_1);
    assert_eq!(DR::from_str("2").unwrap(), DR::_2);
    assert_eq!(DR::from_str("3").unwrap(), DR::_3);
    assert_eq!(DR::from_str("4").unwrap(), DR::_4);
    for dr in [DR::_0, DR::_1, DR::_2, DR::_3, DR::_4] {
        assert_eq!(DR::from_str(dr.as_str()), Ok(dr));
    }
}

#[test]
fn other_strings_name_no_data_rate() {
    for text in ["5", "9", "", "00", "04", " 1", "1 ", "+1", "-1", "DR1", "four", "/", "１"] {
        assert_eq!(DR::from_str(text), Err(Error::InvalidDatarateStr(text.to_string())));
    }
}

#[test]
fn data_rates_parse_through_the_trait() {
    let dr: DR = "2".parse().unwrap();
    assert_eq!(dr, DR::_2);
    let none: Result<DR, Error> = "7".parse();
    assert_eq!(none, Err(Error::InvalidDatarateStr("7".to_string())));
}

#[test]
fn confirmation_lines_of_the_data_rates() {
    assert_eq!(DR::_0.termination_pattern(), "US915 DR0  SF10 BW125K \r\n");
    assert_eq!(DR::_1.termination_pattern(), "US915 DR1  SF9  BW125K \r\n");
    assert_eq!(DR::_2.termination_pattern(), "US915 DR2  SF8  BW125K \r\n");
    assert_eq!(DR::_3.termination_pattern(), "US915 DR3  SF7  BW125K \r\n");
    assert_eq!(DR::_4.termination_pattern(), "US915 DR4  SF8  BW500K \r\n");
    assert_eq!(
        DR::all_patterns(),
        [
            "US915 DR0  SF10 BW125K \r\n",
            "US915 DR1  SF9  BW125K \r\n",
            "US915 DR2  SF8  BW125K \r\n",
            "US915 DR3  SF7  BW125K \r\n",
            "US915 DR4  SF8  BW500K \r\n",
        ]
    );
}
