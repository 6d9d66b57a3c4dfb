use button_client::{loopback_address, ButtonPackage, ButtonState, LineReader, LineResult, LoopState, Notice};

#[test]
fn the_sensor_is_on_the_loopback_interface() {
    assert_eq!("127.0.0.1:9999", loopback_address("9999"));
    assert_eq!("127.0.0.1:80", loopback_address("80"));
    assert_eq!("127.0.0.1:", loopback_address(""));
}

#[test]
fn a_loop_begins_reading() {
    assert_eq!(LoopState::Reading, LoopState::start());
    assert!(LoopState::start().wants_line());
}

#[test]
fn only_a_closed_loop_asks_for_no_line() {
    assert!(LoopState::Reading.wants_line());
    assert!(LoopState::Failed.wants_line());
    assert!(!LoopState::Closed.wants_line());
}

#[test]
fn a_frame_is_passed_on_as_its_event() {
    let line: LineResult<String> = LineResult::Line(b"{8,1}\r\n".to_vec());
    assert_eq!(
        (LoopState::Reading, Notice::Button(ButtonPackage { index: 8, state: ButtonState::Pressed })),
        LoopState::Reading.on_line(line)
    );
}

#[test]
fn a_line_that_is_no_frame_is_passed_on_as_it_came() {
    let line: LineResult<String> = LineResult::Line(b"Welcome\r\n".to_vec());
    assert_eq!(
        (LoopState::Reading, Notice::Unmatched(b"Welcome\r\n".to_vec())),
        LoopState::Reading.on_line(line)
    );
}

#[test]
fn the_end_of_the_stream_closes_the_loop() {
    let (state, notice) = LoopState::Reading.on_line(LineResult::<String>::EndOfStream);
    assert_eq!((LoopState::Closed, Notice::Closed), (state, notice));
    assert!(!state.wants_line());
    assert_eq!(
        (LoopState::Closed, Notice::Closed),
        LoopState::Failed.on_line(LineResult::<String>::EndOfStream)
    );
}

#[test]
fn a_failed_read_does_not_end_the_loop() {
    let failure: LineResult<String> = LineResult::IoError("reset".to_string());
    let (state, notice) = LoopState::Reading.on_line(failure);
    assert_eq!((LoopState::Failed, Notice::ReadError("reset".to_string())), (state, notice));
    assert!(state.wants_line());
    let again: LineResult<String> = LineResult::IoError("reset again".to_string());
    assert_eq!(
        (LoopState::Failed, Notice::ReadError("reset again".to_string())),
        LoopState::Failed.on_line(again)
    );
    let line: LineResult<String> = LineResult::Line(b"{8,2}\r\n".to_vec());
    assert_eq!(
        (LoopState::Reading, Notice::Button(ButtonPackage { index: 8, state: ButtonState::Between })),
        state.on_line(line)
    );
}

#[test]
fn a_closed_loop_stays_closed() {
    let line: LineResult<String> = LineResult::Line(b"{8,1}\r\n".to_vec());
    assert_eq!((LoopState::Closed, Notice::Closed), LoopState::Closed.on_line(line));
    let failure: LineResult<String> = LineResult::IoError("reset".to_string());
    assert_eq!((LoopState::Closed, Notice::Closed), LoopState::Closed.on_line(failure));
    let end: LineResult<String> = LineResult::EndOfStream;
    assert_eq!((LoopState::Closed, Notice::Closed), LoopState::Closed.on_line(end));
}

#[test]
fn a_whole_session_runs_until_the_stream_ends() {
    let reads: Vec<Result<&[u8], String>> = vec![
        Ok(b"Welcome\r\n{8,"),
        Ok(b"1}\r\n{09,02}\r\n"),
        Err("interrupted".to_string()),
        Ok(b"{3,0}\r"),
        Ok(b"\n"),
        Ok(b""),
        Ok(b"{4,1}\r\n"),
    ];
    let mut reads = reads.into_iter();
    let mut reader = LineReader::new();
    let mut state = LoopState::start();
    let mut notices = Vec::new();
    while state.wants_line() {
        let result = loop {
            if let Some(bytes) = reader.take_line() {
                break LineResult::Line(bytes);
            }
            let outcome = reads.next().expect("the loop reads on after the end");
            if let Some(result) = reader.on_read(outcome) {
                break result;
            }
        };
        let (next, notice) = state.on_line(result);
        state = next;
        notices.push(notice);
    }
    assert_eq!(
        vec![
            Notice::Unmatched(b"Welcome\r\n".to_vec()),
            Notice::Button(ButtonPackage { index: 8, state: ButtonState::Pressed }),
            Notice::Button(ButtonPackage { index: 9, state: ButtonState::Between }),
            Notice::ReadError("interrupted".to_string()),
            Notice::Button(ButtonPackage { index: 3, state: ButtonState::Released }),
            Notice::Closed,
        ],
        notices
    );
    assert_eq!(LoopState::Closed, state);
    assert_eq!(1, reads.count());
}
