use lora_e5::parse::{check_framed_response, framed_response, terminated, trim_end};
use lora_e5::{Error, LoraE5};

#[test]
fn a_new_session_has_received_nothing() {
    let session = LoraE5::<16>::new();
    assert_eq!(session.len(), 0);
    assert_eq!(session.space(), 16);
    assert_eq!(session.bytes(), b"");
    assert_eq!(session.response(), Ok(""));
}

#[test]
fn a_read_ends_with_the_terminator() {
    let mut session = LoraE5::<64>::new();
    session.start_read(1000);
    assert_eq!(session.read_until_pattern(b"+AT: ", &["\n"], 1001, 50), Ok(None));
    assert_eq!(session.read_until_pattern(b"OK\r", &["\n"], 1002, 50), Ok(None));
    assert_eq!(session.read_until_pattern(b"\n", &["\n"], 1003, 50), Ok(Some(9)));
    assert_eq!(session.bytes(), b"+AT: OK\r\n");
    assert_eq!(session.len(), 9);
    assert_eq!(session.space(), 55);
    assert_eq!(session.response(), Ok("+AT: OK\r\n"));
}

#[test]
fn any_of_the_terminators_ends_a_read() {
    let ends = ["+JOIN: Done\r\n", "+JOIN: Joined already\r\n"];
    let mut session = LoraE5::<128>::new();
    session.start_read(0);
    assert_eq!(session.read_until_pattern(b"+JOIN: Start\r\n", &ends, 1, 20000), Ok(None));
    assert_eq!(session.read_until_pattern(b"+JOIN: Joined already\r\n", &ends, 2, 20000), Ok(Some(37)));
    session.start_read(0);
    assert_eq!(session.read_until_pattern(b"+JOIN: Done\r\n", &ends, 2, 20000), Ok(Some(13)));
    session.start_read(0);
    assert_eq!(session.read_until_pattern(b"+JOIN: Done\r\n+", &ends, 2, 20000), Ok(None));
}

#[test]
fn a_terminator_counts_even_after_the_timeout() {
    let mut session = LoraE5::<64>::new();
    session.start_read(0);
    assert_eq!(session.read_until_pattern(b"+AT: OK", &["\n"], 10, 50), Ok(None));
    // Nothing new arrives, but what is there ends with the terminator.
    let mut other = LoraE5::<64>::new();
    other.start_read(0);
    assert_eq!(other.read_until_pattern(b"+AT: OK\r\n", &["\n"], 0, 50), Ok(Some(9)));
    assert_eq!(other.read_until_pattern(b"", &["\n"], 1000, 50), Ok(Some(9)));
}

#[test]
fn silence_beyond_the_timeout_gives_what_has_arrived() {
    let mut session = LoraE5::<64>::new();
    session.start_read(100);
    assert_eq!(session.read_until_pattern(b"+AT: ", &["\n"], 110, 50), Ok(None));
    assert_eq!(session.read_until_pattern(b"O", &["\n"], 120, 50), Ok(None));
    assert_eq!(session.read_until_pattern(b"", &["\n"], 150, 50), Ok(None));
    assert_eq!(
        session.read_until_pattern(b"", &["\n"], 151, 50),
        Err(Error::PartialResponse("+AT: O".to_string()))
    );
    assert_eq!(session.bytes(), b"+AT: O");
}

#[test]
fn a_read_ends_with_the_timeout_while_bytes_keep_arriving() {
    let mut session = LoraE5::<64>::new();
    session.start_read(0);
    assert_eq!(session.read_until_break(b"+", 20, 50), Ok(None));
    assert_eq!(session.read_until_break(b"A", 40, 50), Ok(None));
    assert_eq!(session.read_until_break(b"T", 50, 50), Ok(None));
    // More than the timeout has passed since the read began: the bytes of
    // this turn are taken, and the read ends with all of them.
    assert_eq!(session.read_until_break(b": ", 51, 50), Err(Error::PartialResponse("+AT: ".to_string())));
    assert_eq!(session.bytes(), b"+AT: ");
    assert_eq!(session.read_until_break(b"O", 60, 50), Err(Error::PartialResponse("+AT: O".to_string())));
}

#[test]
fn a_modem_that_keeps_sending_does_not_hold_the_read() {
    let mut session = LoraE5::<256>::new();
    session.start_read(1000);
    let mut now = 1000;
    let mut turns = 0;
    let outcome = loop {
        now += 10;
        turns += 1;
        match session.read_until_pattern(b"x", &["+JOIN: Done\r\n"], now, 200) {
            Ok(None) => {}
            other => break other,
        }
    };
    assert_eq!(turns, 21);
    assert_eq!(now, 1210);
    assert_eq!(outcome, Err(Error::PartialResponse("x".repeat(21))));
}

#[test]
fn a_terminator_after_the_timeout_still_completes_the_read() {
    let mut session = LoraE5::<64>::new();
    session.start_read(0);
    assert_eq!(session.read_until_break(b"+AT: OK\r", 10, 50), Ok(None));
    assert_eq!(session.read_until_break(b"\n", 500, 50), Ok(Some(9)));
}

#[test]
fn silence_from_the_start_gives_an_empty_partial_response() {
    let mut session = LoraE5::<64>::new();
    session.start_read(5);
    assert_eq!(session.read_until_break(b"", 55, 50), Ok(None));
    assert_eq!(session.read_until_break(b"", 56, 50), Err(Error::PartialResponse(String::new())));
}

#[test]
fn bytes_do_not_restart_the_wait() {
    let mut session = LoraE5::<64>::new();
    session.start_read(0);
    assert_eq!(session.read_until_break(b"", 50, 50), Ok(None));
    // A byte arrives late: the time still counts from the beginning of the read.
    assert_eq!(session.read_until_break(b"+", 1000, 50), Err(Error::PartialResponse("+".to_string())));
    // Only a new read begins the wait anew.
    session.start_read(1000);
    assert_eq!(session.read_until_break(b"+", 1050, 50), Ok(None));
    assert_eq!(session.read_until_break(b"", 1051, 50), Err(Error::PartialResponse("+".to_string())));
}

#[test]
fn a_clock_that_goes_backwards_counts_as_no_time() {
    let mut session = LoraE5::<64>::new();
    session.start_read(1000);
    assert_eq!(session.read_until_break(b"", 10, 0), Ok(None));
    assert_eq!(session.read_until_break(b"", 1000, 0), Ok(None));
    assert_eq!(session.read_until_break(b"", 1001, 0), Err(Error::PartialResponse(String::new())));
}

#[test]
fn a_full_buffer_ends_in_a_partial_response() {
    let mut session = LoraE5::<8>::new();
    session.start_read(0);
    assert_eq!(session.read_until_break(b"+VER: 4.", 1, 50), Ok(None));
    assert_eq!(session.space(), 0);
    assert_eq!(session.read_until_break(b"", 50, 50), Ok(None));
    assert_eq!(session.read_until_break(b"", 51, 50), Err(Error::PartialResponse("+VER: 4.".to_string())));
}

#[test]
fn a_terminator_may_fill_the_buffer() {
    let mut session = LoraE5::<9>::new();
    session.start_read(0);
    assert_eq!(session.read_until_break(b"+AT: OK\r\n", 1, 50), Ok(Some(9)));
    assert_eq!(session.space(), 0);
}

#[test]
fn bytes_that_are_not_text_are_an_error() {
    let mut session = LoraE5::<64>::new();
    session.start_read(0);
    assert_eq!(session.read_until_break(b"+AT", 1, 50), Ok(None));
    assert_eq!(session.read_until_break(&[0xff, b'\n'], 2, 50), Err(Error::Utf8 { valid_up_to: 3 }));
    assert_eq!(session.response(), Err(Error::Utf8 { valid_up_to: 3 }));
    assert_eq!(session.bytes(), &[b'+', b'A', b'T', 0xff, b'\n']);
}

#[test]
fn a_character_cut_in_two_is_an_error_while_it_is_cut() {
    let text = "+VER: é\r\n".as_bytes();
    let mut session = LoraE5::<64>::new();
    session.start_read(0);
    assert_eq!(session.read_until_break(&text[..7], 1, 50), Err(Error::Utf8 { valid_up_to: 6 }));
    assert_eq!(session.read_until_break(&text[7..], 2, 50), Ok(Some(10)));
    assert_eq!(session.response(), Ok("+VER: é\r\n"));
}

#[test]
fn a_new_read_forgets_the_old_response() {
    let mut session = LoraE5::<64>::new();
    session.start_read(0);
    assert_eq!(session.read_until_break(b"+AT: OK\r\n", 1, 50), Ok(Some(9)));
    session.start_read(10);
    assert_eq!(session.len(), 0);
    assert_eq!(session.read_until_break(b"+VER: 1\n", 11, 50), Ok(Some(8)));
    assert_eq!(session.response(), Ok("+VER: 1\n"));
}

#[test]
fn terminators_are_looked_for_at_the_end() {
    assert!(terminated(b"+MSG: Done\r\n", &["+CMSG: Done\r\n", "+MSG: Done\r\n"]));
    assert!(terminated(b"+MSG: Done\r\n", &["\n"]));
    assert!(!terminated(b"+MSG: Done\r\n ", &["+MSG: Done\r\n", "\n"]));
    assert!(!terminated(b"+MSG: Done\r\n", &[]));
    assert!(!terminated(b"", &["\n"]));
    assert!(terminated(b"", &[""]));
}

#[test]
fn the_prelude_is_stripped() {
    assert_eq!(framed_response("+VER: 4.0.11\r\n", "+VER: "), Ok("4.0.11\r\n"));
    assert_eq!(framed_response("+VER: ", "+VER: "), Ok(""));
    assert_eq!(framed_response("+ID: DevEui, 60:81\r\n", "+ID: DevEui, "), Ok("60:81\r\n"));
    assert_eq!(framed_response("+VER: é", "+VER: "), Ok("é"));
    assert_eq!(framed_response("anything", ""), Ok("anything"));
}

#[test]
fn a_response_without_the_prelude_is_carried_whole() {
    assert_eq!(
        framed_response("+AT: ERROR(-1)\r\n", "+VER: "),
        Err(Error::UnexpectedResponse("+AT: ERROR(-1)\r\n".to_string()))
    );
    assert_eq!(framed_response("+VE", "+VER: "), Err(Error::UnexpectedResponse("+VE".to_string())));
    assert_eq!(framed_response("", "+VER: "), Err(Error::UnexpectedResponse(String::new())));
    assert_eq!(framed_response(" +VER: 1", "+VER: "), Err(Error::UnexpectedResponse(" +VER: 1".to_string())));
    assert_eq!(framed_response("+ver: 1", "+VER: "), Err(Error::UnexpectedResponse("+ver: 1".to_string())));
}

#[test]
fn line_ends_are_trimmed() {
    assert_eq!(trim_end("OK\r\n"), "OK");
    assert_eq!(trim_end("OK\n\n\r"), "OK");
    assert_eq!(trim_end("OK \r\n"), "OK ");
    assert_eq!(trim_end("\r\nOK"), "\r\nOK");
    assert_eq!(trim_end("é\r\n"), "é");
    assert_eq!(trim_end("\r\n"), "");
    assert_eq!(trim_end(""), "");
}

#[test]
fn a_framed_value_is_checked() {
    assert_eq!(check_framed_response("+MODE: LWOTAA\r\n", "+MODE: ", "LWOTAA"), Ok(()));
    assert_eq!(check_framed_response("+MODE: LWOTAA", "+MODE: ", "LWOTAA"), Ok(()));
    assert_eq!(check_framed_response("+MODE: \r\n", "+MODE: ", ""), Ok(()));
    assert_eq!(
        check_framed_response("+MODE: LWABP\r\n", "+MODE: ", "LWOTAA"),
        Err(Error::UnexpectedResponse("LWABP\r\n".to_string()))
    );
    assert_eq!(
        check_framed_response("+MODE: LWOTAA \r\n", "+MODE: ", "LWOTAA"),
        Err(Error::UnexpectedResponse("LWOTAA \r\n".to_string()))
    );
    assert_eq!(
        check_framed_response("+MODE: LWOTA\r\n", "+MODE: ", "LWOTAA"),
        Err(Error::UnexpectedResponse("LWOTA\r\n".to_string()))
    );
    assert_eq!(
        check_framed_response("+DR: US915\r\n", "+MODE: ", "LWOTAA"),
        Err(Error::UnexpectedResponse("+DR: US915\r\n".to_string()))
    );
}
