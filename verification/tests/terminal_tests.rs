use osh_tools::codec::{millis_of, millis_since_epoch, utc_now, utc_now_or_epoch, UtcTime};
use osh_tools::codec::{
    decode_payload, decode_text_payload, encode_payload, millis_to_timestamp, timestamp_ms,
    PayloadError,
};
use osh_tools::terminal::{
    convert_line_endings, escape_control_chars, filter_terminal_sequences, try_filter_csi,
    try_filter_escape_sequence, try_filter_osc,
};

#[test]
fn base64_standard_alphabet() {
    assert_eq!(encode_payload(b"hello"), "aGVsbG8=");
    assert_eq!(encode_payload(b""), "");
    assert_eq!(encode_payload(&[0xfb, 0xff]), "+/8=");
    assert_eq!(decode_payload("aGVsbG8=").unwrap(), b"hello".to_vec());
    assert_eq!(decode_payload("aGVsbG8"), Err(PayloadError::InvalidBase64));
    assert_eq!(decode_payload("a-_="), Err(PayloadError::InvalidBase64));
}

#[test]
fn text_payloads() {
    assert_eq!(decode_text_payload("bHMgLWw=").unwrap(), "ls -l");
    assert_eq!(decode_text_payload(&encode_payload(&[0xc3, 0x28])), Err(PayloadError::InvalidUtf8));
    assert_eq!(decode_text_payload("?"), Err(PayloadError::InvalidBase64));
}

#[test]
fn timestamps() {
    assert_eq!(millis_to_timestamp(1_700_000_000_123), 1_700_000_000_123);
    assert_eq!(millis_to_timestamp(u128::from(u64::MAX)), -1);
    let t = timestamp_ms();
    assert!(t > 1_600_000_000_000);
}

#[test]
fn dec_private_modes_are_dropped() {
    assert_eq!(filter_terminal_sequences(b"a\x1b[?9001hb"), b"ab".to_vec());
    assert_eq!(filter_terminal_sequences(b"\x1b[?1004l"), b"".to_vec());
    assert_eq!(filter_terminal_sequences(b"\x1b[?1049h\x1b[?2004l\x1b[?25h"), b"".to_vec());
    assert_eq!(filter_terminal_sequences(b"\x1b[?1;25l"), b"".to_vec());
    // other private modes stay
    assert_eq!(filter_terminal_sequences(b"\x1b[?7h"), b"\x1b[?7h".to_vec());
    assert_eq!(filter_terminal_sequences(b"\x1b[?250h"), b"\x1b[?250h".to_vec());
}

#[test]
fn screen_control_sequences_are_dropped() {
    assert_eq!(filter_terminal_sequences(b"\x1b[2Jx"), b"x".to_vec());
    assert_eq!(filter_terminal_sequences(b"\x1b[Jx\x1b[3J"), b"x".to_vec());
    assert_eq!(filter_terminal_sequences(b"\x1b[Hx\x1b[1;1H"), b"x".to_vec());
    assert_eq!(filter_terminal_sequences(b"\x1b[>4;1m\x1b[=5u"), b"".to_vec());
    // colours and other moves stay
    assert_eq!(filter_terminal_sequences(b"\x1b[31mred\x1b[0m"), b"\x1b[31mred\x1b[0m".to_vec());
    assert_eq!(filter_terminal_sequences(b"\x1b[1J\x1b[2;3H"), b"\x1b[1J\x1b[2;3H".to_vec());
}

#[test]
fn osc_sequences_are_dropped_when_terminated() {
    assert_eq!(filter_terminal_sequences(b"\x1b]0;title\x07ok"), b"ok".to_vec());
    assert_eq!(filter_terminal_sequences(b"\x1b]2;t\x1b\\ok"), b"ok".to_vec());
    assert_eq!(filter_terminal_sequences(b"\x1b]0;unterminated"), b"\x1b]0;unterminated".to_vec());
}

#[test]
fn sequence_lengths() {
    assert_eq!(try_filter_csi(b"\x1b[?25l..."), Some(6));
    assert_eq!(try_filter_csi(b"\x1b[31m"), None);
    assert_eq!(try_filter_csi(b"\x1b["), None);
    assert_eq!(try_filter_osc(b"\x1b]0;x\x07rest"), Some(6));
    assert_eq!(try_filter_osc(b"\x1b]0;x"), None);
    assert_eq!(try_filter_escape_sequence(b"\x1b[2J"), Some(4));
    assert_eq!(try_filter_escape_sequence(b"x[2J"), None);
    assert_eq!(try_filter_escape_sequence(b"\x1bP"), None);
}

#[test]
fn plain_text_passes_the_filter() {
    let text = b"plain text\r\nwith lines\tand tabs".to_vec();
    assert_eq!(filter_terminal_sequences(&text), text);
    assert_eq!(filter_terminal_sequences(b""), Vec::<u8>::new());
}

#[test]
fn control_bytes_are_escaped() {
    assert_eq!(escape_control_chars(b"\x1b[31m"), b"\\x1b[31m".to_vec());
    assert_eq!(escape_control_chars(&[0x00, 0x07, 0x1f]), b"\\x00\\x07\\x1f".to_vec());
    assert_eq!(escape_control_chars(b"a\r\n\tb"), b"a\r\n\tb".to_vec());
    assert_eq!(escape_control_chars(&[0x7f, 0x80]), vec![0x7f, 0x80]);
}

#[test]
fn line_endings_become_crlf() {
    assert_eq!(convert_line_endings(b"a\rb"), b"a\r\nb".to_vec());
    assert_eq!(convert_line_endings(b"a\nb"), b"a\r\nb".to_vec());
    assert_eq!(convert_line_endings(b"a\r\nb"), b"a\r\nb".to_vec());
    assert_eq!(convert_line_endings(b"\r\r\n\n"), b"\r\n\r\n\r\n".to_vec());
    let once = convert_line_endings(b"x\ry\nz\r\n");
    assert_eq!(convert_line_endings(&once), once);
}

#[test]
fn dropped_csi_length_ignores_what_follows() {
    assert_eq!(try_filter_csi(b"\x1b[?25l"), Some(6));
    assert_eq!(try_filter_csi(b"\x1b[?25lmore text"), Some(6));
    assert_eq!(try_filter_csi(b"\x1b[2J\x1b[H"), Some(4));
    // an unfinished parameter list is kept for now
    assert_eq!(try_filter_csi(b"\x1b[?90"), None);
    assert_eq!(try_filter_csi(b"\x1b[12;3"), None);
    assert_eq!(try_filter_csi(b"\x1b["), None);
}

#[test]
fn filter_keeps_plain_prefix_and_only_drops_bytes() {
    let a = b"plain ".to_vec();
    let b = b"\x1b[2Jrest\x1b]0;t\x07!".to_vec();
    let joined = [a.clone(), b.clone()].concat();
    assert_eq!(filter_terminal_sequences(&joined), [a, filter_terminal_sequences(&b)].concat());
    let out = filter_terminal_sequences(&b);
    let mut it = b.iter();
    assert!(out.iter().all(|x| it.any(|y| y == x)));
}

#[test]
fn escaping_is_bytewise() {
    let a = b"a\x01".to_vec();
    let b = b"\x1b\n".to_vec();
    let joined = [a.clone(), b.clone()].concat();
    assert_eq!(escape_control_chars(&joined), [escape_control_chars(&a), escape_control_chars(&b)].concat());
    // two escaped bytes: length grows by three for each
    assert_eq!(escape_control_chars(&joined).len(), joined.len() + 3 * 2);
}

#[test]
fn crlf_output_shape() {
    let data = b"a\rb\nc\r\n\n\rd".to_vec();
    let r = convert_line_endings(&data);
    for i in 0..r.len() {
        if r[i] == b'\r' {
            assert_eq!(r.get(i + 1), Some(&b'\n'));
        }
        if r[i] == b'\n' {
            assert!(i > 0 && r[i - 1] == b'\r');
        }
    }
    let strip = |v: &[u8]| v.iter().copied().filter(|b| *b != b'\r' && *b != b'\n').collect::<Vec<u8>>();
    assert_eq!(strip(&r), strip(&data));
}

#[test]
fn non_base64_text_is_refused() {
    assert_eq!(decode_payload("@@"), Err(PayloadError::InvalidBase64));
}

#[test]
fn clock_arithmetic() {
    assert_eq!(millis_of(2, 345_678_901), 2345);
    assert_eq!(millis_since_epoch(UtcTime { secs: 1_700_000_000, nanos: 999_999_999 }), Some(1_700_000_000_999));
    assert_eq!(millis_since_epoch(UtcTime { secs: i64::MAX, nanos: 0 }), None);
    assert_eq!(millis_since_epoch(UtcTime { secs: -1, nanos: 500_000_000 }), Some(-500));
    let now = utc_now().unwrap();
    assert!(now.secs > 1_600_000_000 && now.nanos < 1_000_000_000);
    assert!(utc_now_or_epoch().secs > 1_600_000_000);
}

#[test]
fn clock_readings() {
    use_clock_readings();
}

fn use_clock_readings() {
    assert_eq!(osh_tools::codec::timestamp_from_elapsed(None), 0);
    assert_eq!(osh_tools::codec::timestamp_from_elapsed(Some((1_700_000_000, 123_456_789))), 1_700_000_000_123);
    assert_eq!(osh_tools::codec::timestamp_from_elapsed(Some((u64::MAX, 0))), (u128::from(u64::MAX) * 1000) as i64);
    assert_eq!(
        osh_tools::codec::utc_from_elapsed(1_700_000_000, 5),
        Some(UtcTime { secs: 1_700_000_000, nanos: 5 })
    );
    assert_eq!(osh_tools::codec::utc_from_elapsed(u64::MAX, 0), None);
    assert_eq!(osh_tools::codec::utc_from_elapsed(9_000_000_000_000, 0), None);
    assert_eq!(
        osh_tools::codec::utc_from_elapsed(8_210_266_876_799, 999_999_999),
        Some(UtcTime { secs: 8_210_266_876_799, nanos: 999_999_999 })
    );
}
