use gbx_header::gbx::parser::{find_window, parse_file_bytes, try_parse_from_buffer, ParseError};
use gbx_header::gbx::{GBXBinaryHeader, GBXOrigin, GBXVersion};
use gbx_header::parse_from_buffer;

fn gbx_bytes(xml: &[u8]) -> Vec<u8> {
    let mut b = b"GBX".to_vec();
    b.extend_from_slice(&[6, 0, b'B', b'U', b'C', b'R', 0x00, 0x30, 0x09, 0x03]);
    b.extend_from_slice(&[1, 2, 3]);
    b.extend_from_slice(xml);
    b.extend_from_slice(&[9, 9]);
    b
}

#[test]
fn too_short_and_missing_magic() {
    assert!(matches!(parse_from_buffer(b""), Err(ParseError::FileTooShort)));
    assert!(matches!(parse_from_buffer(b"GB"), Err(ParseError::FileTooShort)));
    assert!(matches!(parse_from_buffer(b"GBY"), Err(ParseError::MissingGBXMagic)));
    assert!(matches!(
        parse_from_buffer(b"xx<header type='replay'></header>"),
        Err(ParseError::MissingGBXMagic)
    ));
}

#[test]
fn panicking_inputs_give_none() {
    // Magic present but the binary header is cut short.
    assert!(try_parse_from_buffer(b"GBX\x06\x00").is_none());
    // The header closes before it opens.
    let b = gbx_bytes(b"</header> <header type='replay'>");
    assert!(try_parse_from_buffer(&b).is_none());
    // The header is not UTF-8.
    let b = gbx_bytes(b"<header type='\xff'></header>");
    assert!(try_parse_from_buffer(&b).is_none());
}

#[test]
fn binary_header_only() {
    let b = gbx_bytes(b"");
    let g = parse_from_buffer(&b).unwrap();
    assert!(matches!(g.origin, GBXOrigin::Buffer));
    assert_eq!(g.filesize, b.len());
    assert_eq!(g.bin_header, GBXBinaryHeader { version: 6, class_id: 0x03093000 });
    assert!(g.replay_header.is_none());
    assert_eq!(g.header_xml, "");
    assert_eq!(g.header_start(), 0);
    assert_eq!(g.header_length(), 0);
}

#[test]
fn replay_file_is_read() {
    let xml: &[u8] = b"<header type='replay' version='tmr.7' exever='2.11.26'><map uid='u' name='n'/><times best='100' respawns='3' stuntscore='0' validable='1'/></header>";
    let b = gbx_bytes(xml);
    let g = parse_from_buffer(&b).unwrap();
    assert_eq!(g.header_start(), 16);
    assert_eq!(g.header_length(), xml.len());
    assert_eq!(g.header_xml.as_bytes(), xml);
    let r = g.replay_header.as_ref().unwrap();
    assert_eq!(r.version, GBXVersion::TMr7);
    assert_eq!(r.map_name, "n");
    assert_eq!(r.score.best, 100);
    assert_eq!(r.score.respawns, 3);
}

#[test]
fn header_that_is_no_replay_keeps_its_text() {
    let xml: &[u8] = b"<header type='challenge' version='TMc.6'></header>";
    let b = gbx_bytes(xml);
    let g = parse_from_buffer(&b).unwrap();
    assert!(g.replay_header.is_none());
    assert_eq!(g.header_xml.as_bytes(), xml);
}

#[test]
fn only_closing_tag() {
    let b = gbx_bytes(b"junk</header>");
    let g = parse_from_buffer(&b).unwrap();
    assert_eq!(g.header_start(), 0);
    assert_eq!(g.header_length(), 16 + 13);
    assert_eq!(g.header_xml, "");
    assert!(g.replay_header.is_none());
}

#[test]
fn header_tokens_touching() {
    let b = gbx_bytes(b"</header><header ");
    let g = parse_from_buffer(&b).unwrap();
    assert_eq!(g.header_length(), 0);
    assert_eq!(g.header_xml, "");
    assert!(g.replay_header.is_none());
}

#[test]
fn find_window_finds_first() {
    assert_eq!(find_window(b"abcabc", b"bc"), Some(1));
    assert_eq!(find_window(b"abcabc", b"abc"), Some(0));
    assert_eq!(find_window(b"abcabc", b"cab"), Some(2));
    assert_eq!(find_window(b"abc", b"abcd"), None);
    assert_eq!(find_window(b"abcabc", b"x"), None);
    assert_eq!(find_window(b"", b"x"), None);
}

#[test]
fn display_of_parsed_file() {
    let xml: &[u8] = b"<header type='replay' version='TMr.7' exever='2.11.26'><map name='Map'/><times best='46000' respawns='-1' stuntscore='5' validable='0'/></header>";
    let b = gbx_bytes(xml);
    let g = parse_from_buffer(&b).unwrap();
    let expected = format!(
        "GBX Info Dump (Size={}B)\nFrom file=<buffer>\nHeader Infos\n============\nNot present\n\nMagic\n=====\nv6, class id: 03093000 (\"CGameCtnReplayRecord\")\n\nReplay\n======\nVersion: TMr7\nExever.: 2.11.26\nMap: Map\nScore: best=46000, respawns=-1, stuntscore=5, validable=false",
        b.len()
    );
    assert_eq!(g.to_string(), expected);
    let b = gbx_bytes(b"");
    let g = parse_from_buffer(&b).unwrap();
    assert!(g.to_string().ends_with("Replay\n======\nNot present"));
}

#[test]
fn unclosed_header_reads_with_wrapped_length() {
    let b = gbx_bytes(b"<header type='replay'>");
    let g = try_parse_from_buffer(&b).unwrap().unwrap();
    assert_eq!(g.header_start(), 16);
    assert_eq!(g.header_length(), 0usize.wrapping_sub(16));
    assert_eq!(g.header_xml(), "");
    assert!(g.replay_header().is_none());
    assert!(g.challenge_header().is_none());
    let g2 = parse_from_buffer(&b).unwrap();
    assert_eq!(g2.header_length(), g.header_length());
}

#[test]
fn getters_show_the_fields() {
    let b = gbx_bytes(b"<header type='replay'></header>");
    let g = parse_from_buffer(&b).unwrap();
    assert!(matches!(g.origin(), GBXOrigin::Buffer));
    assert_eq!(g.filesize(), b.len());
    assert_eq!(g.bin_header().class_id, 0x03093000);
    assert!(g.replay_header().is_some());
    assert!(g.challenge_header().is_none());
    assert_eq!(g.header_xml(), "<header type='replay'></header>");
}

#[test]
fn challenge_file_is_read_and_shown_as_documented() {
    let xml: &[u8] = b"<header type='challenge' version='TMc.6' exever='2.11.16'><ident uid='Zh7gt1dJfZbmCMhmqfnGC3EvBO3' name='mtib-1-dirty-jumps' author='mtibb'/><desc envir='Stadium' mood='Sunrise' type='Race' nblaps='0' price='779'/><times bronze='46000' silver='37000' gold='33000' authortime='30630' authorscore='30630'/><deps></deps></header>";
    let mut b = b"GBX".to_vec();
    b.extend_from_slice(&[6, 0, b'B', b'U', b'C', b'R', 0x00, 0x30, 0x04, 0x03]);
    b.extend_from_slice(xml);
    b.resize(10985, 0);
    let mut g = parse_from_buffer(&b).unwrap();
    assert!(g.replay_header.is_none());
    let c = g.challenge_header.as_ref().unwrap();
    assert_eq!(c.price, 779);
    g.origin = GBXOrigin::File { path: "examples/mtib-1-dirty-jumps.Challenge.Gbx".to_string() };
    let expected = "GBX Info Dump (Size=10985B)
From file=examples/mtib-1-dirty-jumps.Challenge.Gbx
Header Infos
============
Map is Challenge/Race made in TMc6/2.11.16
UID: Zh7gt1dJfZbmCMhmqfnGC3EvBO3
Name: mtib-1-dirty-jumps
Author: mtibb
Setting: Stadium/Sunrise
Number of laps: 0
Price: 779
Times: Bronze: 46000, Silver: 37000, Gold: 33000, Authortime: 30630, Authorscore: 30630
Dependencies[0]: []";
    let text = g.to_string();
    assert!(text.starts_with(expected), "{}", text);
    assert!(text.ends_with("\n\nMagic\n=====\nv6, class id: 03043000 (\"CGameCtnChallenge\")\n\nReplay\n======\nNot present"));
}

#[test]
fn file_bytes_read_as_buffer_with_file_origin() {
    let xml: &[u8] = b"<header type='replay' version='tmr.7' exever='2.11.26'><map uid='u' name='n'/></header>";
    let b = gbx_bytes(xml);
    let from_buffer = parse_from_buffer(&b).unwrap();
    let g = parse_file_bytes("maps/a.Replay.Gbx", &b).unwrap().unwrap();
    assert!(matches!(&g.origin, GBXOrigin::File { path } if path == "maps/a.Replay.Gbx"));
    assert_eq!(g.filesize, from_buffer.filesize);
    assert_eq!(g.header_start(), from_buffer.header_start());
    assert_eq!(g.header_length(), from_buffer.header_length());
    assert_eq!(g.bin_header, from_buffer.bin_header);
    assert_eq!(g.header_xml, from_buffer.header_xml);
    assert_eq!(g.replay_header.unwrap().map_uid, "u");
    assert!(matches!(parse_file_bytes("x", b"GBY"), Some(Err(ParseError::MissingGBXMagic))));
    assert!(parse_file_bytes("x", b"GBX\x06\x00").is_none());
}
