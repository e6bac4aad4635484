use hitmap::terminal::{
    encode_kitty_chunks, format_probe_response_preview, format_probe_trace,
    parse_hex_color_component_to_u8, parse_osc_background_response, scan_terminal_responses,
};

#[test]
fn scan_terminal_responses_detects_kitty_and_device_attributes() {
    let buffer = b"\x1b_Gi=31;OK\x1b\\\x1b[?62;22;52c";
    let (graphics_seen, device_attributes_seen) = scan_terminal_responses(buffer);
    assert!(graphics_seen);
    assert!(device_attributes_seen);
}

#[test]
fn scan_terminal_responses_ignores_incomplete_kitty_reply() {
    let buffer = b"\x1b_Gi=31;OK";
    let (graphics_seen, device_attributes_seen) = scan_terminal_responses(buffer);
    assert!(!graphics_seen);
    assert!(!device_attributes_seen);
}

#[test]
fn scan_terminal_responses_needs_terminator_after_start() {
    assert_eq!(scan_terminal_responses(b"\x1b\\\x1b_Gi=31"), (false, false));
    assert_eq!(scan_terminal_responses(b"\x1b[c"), (false, true));
    assert_eq!(scan_terminal_responses(b"\x1b[?6x2c"), (false, false));
}

#[test]
fn parse_hex_color_component_scales_16bit_values() {
    assert_eq!(parse_hex_color_component_to_u8(b"0000"), Some(0));
    assert_eq!(parse_hex_color_component_to_u8(b"ffff"), Some(255));
    assert_eq!(parse_hex_color_component_to_u8(b"8080"), Some(128));
}

#[test]
fn parse_hex_color_component_rejects_bad_lengths_and_digits() {
    assert_eq!(parse_hex_color_component_to_u8(b"f"), None);
    assert_eq!(parse_hex_color_component_to_u8(b"fffff"), None);
    assert_eq!(parse_hex_color_component_to_u8(b"zz"), None);
    assert_eq!(parse_hex_color_component_to_u8(b"80"), Some(128));
    assert_eq!(parse_hex_color_component_to_u8(b"fff"), Some(255));
    assert_eq!(parse_hex_color_component_to_u8(b"+ff"), Some(16));
}

#[test]
fn parse_osc_background_response_extracts_rgb_triplet() {
    let buffer = b"\x1b]11;rgb:1e1e/1e1e/2eff\x1b\\";
    assert_eq!(parse_osc_background_response(buffer), Some((30, 30, 47)));
}

#[test]
fn parse_osc_background_response_takes_the_first_reply_and_bel() {
    let buffer = b"noise\x1b]11;rgb:ff/00/80\x07\x1b]11;rgb:00/00/00\x07";
    assert_eq!(parse_osc_background_response(buffer), Some((255, 0, 128)));
    assert_eq!(parse_osc_background_response(b"\x1b]11;rgb:fffff/00/00\x07"), None);
    assert_eq!(parse_osc_background_response(b"\x1b]11;rgb:ff/00/00"), None);
}

#[test]
fn probe_preview_escapes_and_hexes_bytes() {
    assert_eq!(format_probe_response_preview(b""), "no response bytes received");
    assert_eq!(
        format_probe_response_preview(b"\x1b_G\r\n\tA\xff"),
        "escaped=`\\x1b_G\\r\\n\\tA\\xff` hex=`1b 5f 47 0d 0a 09 41 ff`"
    );
    let long = vec![b'a'; 300];
    let preview = format_probe_response_preview(&long);
    assert!(preview.ends_with("(truncated, 300 bytes total)"));
    assert!(preview.starts_with(&format!("escaped=`{}`", "a".repeat(256))));
}

#[test]
fn probe_trace_joins_lines() {
    assert_eq!(format_probe_trace(&[]), "no probe trace recorded");
    assert_eq!(
        format_probe_trace(&["one".to_string(), "two".to_string()]),
        "one\ntwo"
    );
}

#[test]
fn kitty_chunks_split_the_base64_payload() {
    assert!(encode_kitty_chunks(b"abc", 10, None, false, 6).is_err());
    assert_eq!(
        encode_kitty_chunks(b"abc", 10, None, false, 0).unwrap_err(),
        "chunk_size must be a positive multiple of 4"
    );
    let chunks = encode_kitty_chunks(b"hello world", 12, Some(3), true, 8).unwrap();
    let text: Vec<String> = chunks.iter().map(|c| String::from_utf8(c.clone()).unwrap()).collect();
    assert_eq!(
        text,
        vec![
            "\x1b_Ga=T,t=d,f=100,c=12,r=3,C=1,m=1;aGVsbG8g\x1b\\".to_string(),
            "\x1b_Gm=0;d29ybGQ=\x1b\\".to_string(),
        ]
    );
    let empty = encode_kitty_chunks(b"", 5, None, false, 4096).unwrap();
    assert_eq!(empty, vec![b"\x1b_Ga=T,t=d,f=100,c=5,m=0;\x1b\\".to_vec()]);
}
