use lora_e5::signal::{downlink, parse_rssi_snr};
use lora_e5::{Downlink, Error};

#[test]
fn parse_signal() {
    let response = "+CMSGHEX: Start\r
    +CMSGHEX: Wait ACK\r
    +CMSGHEX: FPENDING\r
    +CMSGHEX: ACK Received\r
    +CMSGHEX: RXWIN1, RSSI -79, SNR 7.0\r
    +CMSGHEX: Done\r
";
    if let Some(m) = response.find("RXWIN1") {
        let (rssi, snr) = parse_rssi_snr(&response, m).unwrap();
        assert_eq!(rssi, -79);
        assert_eq!(snr.parse::<f32>().unwrap(), 7.0);
    } else {
        assert!(false)
    }
}

#[test]
fn the_snr_is_handed_out_as_written() {
    let response = "+MSG: RXWIN2, RSSI -106, SNR -12.5\r\n+MSG: Done\r\n";
    let m = response.find("RXWIN2").unwrap();
    assert_eq!(parse_rssi_snr(response, m), Ok((-106, "-12.5".to_string())));
    let response = "RXWIN1, RSSI +5, SNR 1e1\r\n";
    assert_eq!(parse_rssi_snr(response, 0), Ok((5, "1e1".to_string())));
}

#[test]
fn the_fields_are_cut_by_width() {
    // The names of the fields are not looked at, only their widths.
    let response = "0123456abcdef-42, xyz 10.8\r\n";
    assert_eq!(parse_rssi_snr(response, 0), Ok((-42, "10.8".to_string())));
    // The line is the one that begins at the offset.
    let response = "RXWIN1, RSSI -1, SNR 1.0\r\nRXWIN1, RSSI -2, SNR 2.0\r\n";
    assert_eq!(parse_rssi_snr(response, 0), Ok((-1, "1.0".to_string())));
    assert_eq!(parse_rssi_snr(response, 26), Ok((-2, "2.0".to_string())));
}

#[test]
fn a_missing_line_end_is_a_fault_of_the_shape() {
    let response = "+MSG: RXWIN1, RSSI -79, SNR 7.0";
    let m = response.find("RXWIN1").unwrap();
    assert_eq!(parse_rssi_snr(response, m), Err(Error::FailedToParseRssiSnr(response.to_string())));
    let response = "+MSG: RXWIN1, RSSI -79, SNR 7.0\n";
    assert_eq!(parse_rssi_snr(response, m), Err(Error::FailedToParseRssiSnr(response.to_string())));
}

#[test]
fn a_missing_separator_is_a_fault_of_the_shape() {
    let response = "RXWIN1, RSSI -79 SNR 7.0\r\n";
    assert_eq!(parse_rssi_snr(response, 0), Err(Error::FailedToParseRssiSnr(response.to_string())));
    let response = "RXWIN1, RSSI -79,SNR 7.0\r\n";
    assert_eq!(parse_rssi_snr(response, 0), Err(Error::FailedToParseRssiSnr(response.to_string())));
}

#[test]
fn a_short_line_is_a_fault_of_the_shape() {
    for response in ["RXWIN1\r\n", "RXWIN1,\r\n", "RXWIN1,  RS, SNR 7.0\r\n", "RXWIN1, RSSI -79, SN\r\n", "\r\n"] {
        assert_eq!(parse_rssi_snr(response, 0), Err(Error::FailedToParseRssiSnr(response.to_string())));
    }
}

#[test]
fn an_offset_behind_the_response_is_a_fault_of_the_shape() {
    let response = "RXWIN1, RSSI -79, SNR 7.0\r\n";
    assert_eq!(parse_rssi_snr(response, 28), Err(Error::FailedToParseRssiSnr(response.to_string())));
    assert_eq!(parse_rssi_snr(response, usize::MAX), Err(Error::FailedToParseRssiSnr(response.to_string())));
    assert_eq!(parse_rssi_snr(response, 27), Err(Error::FailedToParseRssiSnr(response.to_string())));
    assert_eq!(parse_rssi_snr("", 0), Err(Error::FailedToParseRssiSnr(String::new())));
}

#[test]
fn an_rssi_that_is_no_integer_is_an_error() {
    for response in [
        "RXWIN1, RSSI -7x, SNR 7.0\r\n",
        "RXWIN1, RSSI , SNR 7.0\r\n",
        "RXWIN1, RSSI -79.5, SNR 7.0\r\n",
        "RXWIN1, RSSI  -79, SNR 7.0\r\n",
        "RXWIN1, RSSI 99999999999999999999, SNR 7.0\r\n",
        "RXWIN1, RSSI -é, SNR 7.0\r\n",
    ] {
        assert_eq!(parse_rssi_snr(response, 0), Err(Error::FailedToParseRssiInt(response.to_string())));
    }
    // The RSSI is looked at before the SNR.
    let response = "RXWIN1, RSSI x, SNR y\r\n";
    assert_eq!(parse_rssi_snr(response, 0), Err(Error::FailedToParseRssiInt(response.to_string())));
}

#[test]
fn an_snr_that_is_no_number_is_an_error() {
    for response in [
        "RXWIN1, RSSI -79, SNR 7,0\r\n",
        "RXWIN1, RSSI -79, SNR \r\n",
        "RXWIN1, RSSI -79, SNR 7.0 \r\n",
        "RXWIN1, RSSI -79, SNR seven\r\n",
        "RXWIN1, RSSI -79, SNR 7.0, more\r\n",
        "RXWIN1, RSSI -79, SNR 7.é\r\n",
    ] {
        assert_eq!(parse_rssi_snr(response, 0), Err(Error::FailedToParseSnrF32(response.to_string())));
    }
}

#[test]
fn a_marked_window_gives_a_downlink() {
    let response = "+CMSGHEX: Start\r\n+CMSGHEX: RXWIN1, RSSI -79, SNR 7.0\r\n+CMSGHEX: Done\r\n";
    let expected = Downlink { rssi: -79, snr: "7.0".to_string() };
    assert_eq!(downlink(response, true), Ok(Some(expected.clone())));
    assert_eq!(downlink(response, false), Ok(Some(expected)));
    let response = "+MSG: Start\r\n+MSG: RXWIN2, RSSI -101, SNR -3.2\r\n+MSG: Done\r\n";
    assert_eq!(downlink(response, false), Ok(Some(Downlink { rssi: -101, snr: "-3.2".to_string() })));
}

#[test]
fn the_first_window_goes_before_the_second() {
    let response = "+MSG: RXWIN2, RSSI -2, SNR 2.0\r\n+MSG: RXWIN1, RSSI -1, SNR 1.0\r\n+MSG: Done\r\n";
    assert_eq!(downlink(response, false), Ok(Some(Downlink { rssi: -1, snr: "1.0".to_string() })));
    let response = "+MSG: RXWIN1, RSSI -1, SNR 1.0\r\n+MSG: RXWIN1, RSSI -3, SNR 3.0\r\n+MSG: Done\r\n";
    assert_eq!(downlink(response, false), Ok(Some(Downlink { rssi: -1, snr: "1.0".to_string() })));
}

#[test]
fn no_window_is_a_nack_for_a_confirmed_uplink_only() {
    for response in ["+CMSGHEX: Start\r\n+CMSGHEX: Wait ACK\r\n+CMSGHEX: Done\r\n", "+MSG: Done\r\n", "", "RXWIN", "RXWIN3"] {
        assert_eq!(downlink(response, true), Err(Error::Nack));
        assert_eq!(downlink(response, false), Ok(None));
    }
}

#[test]
fn a_fault_behind_the_marker_is_an_error_for_every_uplink() {
    let response = "+MSG: RXWIN1, RSSI low, SNR 7.0\r\n+MSG: Done\r\n";
    assert_eq!(downlink(response, false), Err(Error::FailedToParseRssiInt(response.to_string())));
    assert_eq!(downlink(response, true), Err(Error::FailedToParseRssiInt(response.to_string())));
    // A second window that could be read does not make up for the first.
    let response = "+MSG: RXWIN1\r\n+MSG: RXWIN2, RSSI -2, SNR 2.0\r\n";
    assert_eq!(downlink(response, false), Err(Error::FailedToParseRssiSnr(response.to_string())));
}
