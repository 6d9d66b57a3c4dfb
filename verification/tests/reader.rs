use button_client::bytes::find_first;
use button_client::{decode, ButtonPackage, ButtonState, DecodeResult, LineReader, LineResult};

fn line(text: &str) -> Option<LineResult<String>> {
    Some(LineResult::Line(text.as_bytes().to_vec()))
}

#[test]
fn a_new_reader_holds_nothing() {
    let mut reader = LineReader::new();
    assert_eq!(b"".as_slice(), reader.pending());
    assert_eq!(None, reader.take_line());
    assert_eq!(b"".as_slice(), reader.pending());
}

#[test]
fn a_line_split_across_two_chunks_comes_out_whole() {
    let mut reader = LineReader::new();
    assert_eq!(None, reader.on_read::<String>(Ok(b"{8,")));
    assert_eq!(b"{8,".as_slice(), reader.pending());
    let result = reader.on_read::<String>(Ok(b"1}\r\n"));
    assert_eq!(line("{8,1}\r\n"), result);
    assert_eq!(b"".as_slice(), reader.pending());
    match result {
        Some(LineResult::Line(bytes)) => assert_eq!(
            DecodeResult::Matched(ButtonPackage { index: 8, state: ButtonState::Pressed }),
            decode(&bytes)
        ),
        other => panic!("{:?}", other),
    }
}

#[test]
fn a_terminator_split_across_two_chunks_stays_with_its_line() {
    let mut reader = LineReader::new();
    assert_eq!(None, reader.on_read::<String>(Ok(b"{09,02}\r")));
    assert_eq!(line("{09,02}\r\n"), reader.on_read::<String>(Ok(b"\n{1")));
    assert_eq!(b"{1".as_slice(), reader.pending());
}

#[test]
fn a_line_that_comes_byte_by_byte_comes_out_whole() {
    let mut reader = LineReader::new();
    let stream = b"{09,02}\r\n";
    for (at, byte) in stream.iter().enumerate() {
        let result = reader.on_read::<String>(Ok(&[*byte]));
        if at + 1 < stream.len() {
            assert_eq!(None, result);
        } else {
            assert_eq!(line("{09,02}\r\n"), result);
        }
    }
    assert_eq!(b"".as_slice(), reader.pending());
}

#[test]
fn lines_that_come_in_one_chunk_come_out_one_by_one() {
    let mut reader = LineReader::new();
    assert_eq!(line("Welcome\r\n"), reader.on_read::<String>(Ok(b"Welcome\r\n{8,1}\r\n{8,0}\r\n{9")));
    assert_eq!(Some(b"{8,1}\r\n".to_vec()), reader.take_line());
    assert_eq!(Some(b"{8,0}\r\n".to_vec()), reader.take_line());
    assert_eq!(None, reader.take_line());
    assert_eq!(b"{9".as_slice(), reader.pending());
    assert_eq!(line("{9,2}\n"), reader.on_read::<String>(Ok(b",2}\n")));
    assert_eq!(None, reader.take_line());
}

#[test]
fn the_lines_do_not_depend_on_the_chunks() {
    let stream = b"Welcome\r\n{8,1}\r\n\n{09,02}\r\n{7";
    let mut whole = LineReader::new();
    whole.feed(stream);
    let mut expected = Vec::new();
    while let Some(bytes) = whole.take_line() {
        expected.push(bytes);
    }
    assert_eq!(4, expected.len());
    assert_eq!(b"{7".as_slice(), whole.pending());
    for size in 1..stream.len() {
        let mut reader = LineReader::new();
        let mut lines = Vec::new();
        for chunk in stream.chunks(size) {
            reader.feed(chunk);
            while let Some(bytes) = reader.take_line() {
                lines.push(bytes);
            }
        }
        assert_eq!(expected, lines);
        assert_eq!(b"{7".as_slice(), reader.pending());
    }
}

#[test]
fn an_empty_line_is_a_line() {
    let mut reader = LineReader::new();
    assert_eq!(line("\n"), reader.on_read::<String>(Ok(b"\n\r\n")));
    assert_eq!(Some(b"\r\n".to_vec()), reader.take_line());
    assert_eq!(None, reader.take_line());
}

#[test]
fn zero_bytes_mean_the_end_of_the_stream() {
    let mut reader = LineReader::new();
    assert_eq!(Some(LineResult::EndOfStream), reader.on_read::<String>(Ok(b"")));
    assert_eq!(b"".as_slice(), reader.pending());
    assert_eq!(None, reader.on_read::<String>(Ok(b"{8")));
    assert_eq!(Some(LineResult::EndOfStream), reader.on_read::<String>(Ok(b"")));
    assert_eq!(b"{8".as_slice(), reader.pending());
}

#[test]
fn a_failed_read_is_reported_and_nothing_is_lost() {
    let mut reader = LineReader::new();
    assert_eq!(None, reader.on_read::<String>(Ok(b"{8,")));
    assert_eq!(
        Some(LineResult::IoError("timed out".to_string())),
        reader.on_read(Err("timed out".to_string()))
    );
    assert_eq!(b"{8,".as_slice(), reader.pending());
    assert_eq!(line("{8,1}\r\n"), reader.on_read::<String>(Ok(b"1}\r\n")));
}

#[test]
fn feed_puts_a_chunk_behind_what_is_held() {
    let mut reader = LineReader::new();
    reader.feed(b"ab");
    reader.feed(b"");
    reader.feed(b"c\nd");
    assert_eq!(b"abc\nd".as_slice(), reader.pending());
    assert_eq!(Some(b"abc\n".to_vec()), reader.take_line());
    assert_eq!(b"d".as_slice(), reader.pending());
}

#[test]
fn find_first_gives_the_first_position() {
    assert_eq!(Some(0), find_first(b",", b','));
    assert_eq!(Some(1), find_first(b"8,1,7", b','));
    assert_eq!(Some(4), find_first(b"abcd,", b','));
    assert_eq!(None, find_first(b"abcd", b','));
    assert_eq!(None, find_first(b"", b','));
}

#[test]
fn the_lines_are_the_pieces_that_end_with_a_line_feed() {
    let streams: [&[u8]; 6] = [
        b"",
        b"\n",
        b"{8,1}\r\n",
        b"{8,1}\r\n{8,0}\r\n",
        b"Welcome\n\n\r\n{1,2}\n{3",
        b"no line feed at all",
    ];
    for stream in streams {
        let expected: Vec<Vec<u8>> = stream
            .split_inclusive(|byte| *byte == b'\n')
            .filter(|piece| piece.ends_with(b"\n"))
            .map(|piece| piece.to_vec())
            .collect();
        let held: usize = expected.iter().map(|piece| piece.len()).sum();
        for size in 1..=stream.len().max(1) {
            let mut reader = LineReader::new();
            let mut lines = Vec::new();
            for chunk in stream.chunks(size) {
                let mut result = reader.on_read::<String>(Ok(chunk));
                while let Some(LineResult::Line(bytes)) = result {
                    lines.push(bytes);
                    result = reader.take_line().map(LineResult::Line);
                }
                assert_eq!(None, result);
            }
            assert_eq!(expected, lines);
            assert_eq!(&stream[held..], reader.pending());
        }
    }
}
