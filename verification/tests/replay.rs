use gbx_header::gbx::parser::replay::{parse_replay_xml, replay_header_from_items};
use gbx_header::gbx::parser::ParseError;
use gbx_header::gbx::{GBXVersion, ReplayScore, ReplayXMLHeader};
use gbx_header::xml_stream::{xml_items, XmlAttribute, XmlItem};

#[test]
fn successfull_parse() {
    let pairs: &[(&'static [u8], Option<ReplayXMLHeader>)] = &[(
        b"<header type='replay'></header>",
        Some(ReplayXMLHeader::default()),
    )];

    for p in pairs {
        match (parse_replay_xml(p.0), p.1.as_ref()) {
            (Ok(h), Some(t)) => {
                assert_eq!(&h, t);
            }
            (Err(e), _) => panic!("XML Parsing failed with {:?}", e),
            _ => continue,
        }
    }
}

#[test]
fn unuccessfull_parse() {
    if let ParseError::XMLParseError(xml_error) =
        parse_replay_xml(b"").expect_err("Expecting xml lib to fail on empty buffer")
    {
        // If pair.1 == None any Error is accepted
        let pairs: &[(&'static [u8], Option<ParseError>)] = &[
            (b"<header></header>", Some(ParseError::HeaderNotFound)),
            (
                b"<header type='replay'><times best='-1'></times></header>",
                None,
            ),
            (b"", Some(ParseError::XMLParseError(xml_error))),
        ];

        for p in pairs {
            match parse_replay_xml(p.0) {
                Err(e) => {
                    if let Some(exp) = &p.1 {
                        assert_eq!(
                            std::mem::discriminant(&e),
                            std::mem::discriminant(exp),
                            "Wrong error returned: {:?}!={:?}",
                            e,
                            exp
                        );
                    }
                }
                Ok(_) => panic!(
                    "{} should fail with {:?} but didn't",
                    std::str::from_utf8(p.0).unwrap_or("<utf8 decode error>"),
                    p.1
                ),
            }
        }
    }
}

#[test]
fn full_replay_header_is_read() {
    let xml = b"<header type='replay' version='TMR.7' exever='2.11.26'>\
<map uid='Zh7gt1dJfZbmCMhmqfnGC3EvBO3' name='mtib-1'/>\
<times best='30630' respawns='-2' stuntscore='+7' validable='1'/></header>";
    let h = parse_replay_xml(xml).unwrap();
    assert_eq!(h.version, GBXVersion::TMr7);
    assert_eq!(h.exever, "2.11.26");
    assert_eq!(h.map_uid, "Zh7gt1dJfZbmCMhmqfnGC3EvBO3");
    assert_eq!(h.map_name, "mtib-1");
    assert_eq!(
        h.score,
        ReplayScore { best: 30630, respawns: -2, stuntscore: 7, validable: true }
    );
}

#[test]
fn replay_type_may_come_from_any_header_element() {
    let xml = b"<header type='challenge'><header type='replay'/></header>";
    assert!(parse_replay_xml(xml).is_ok());
    let xml = b"<header type='Replay'></header>";
    assert!(matches!(parse_replay_xml(xml), Err(ParseError::HeaderNotFound)));
}

#[test]
fn unknown_version_is_reported_with_its_text() {
    let xml = b"<header type='replay' version='tmx.1'></header>";
    match parse_replay_xml(xml) {
        Err(ParseError::HeaderTryIntoEnumError(m)) => {
            assert_eq!(m, "Unknown GBX file version: tmx.1")
        }
        other => panic!("unexpected {:?}", other),
    }
}

#[test]
fn bad_numbers_in_times_are_value_errors() {
    for xml in [
        &b"<header type='replay'><times respawns='1.5'/></header>"[..],
        &b"<header type='replay'><times stuntscore='4294967296'/></header>"[..],
        &b"<header type='replay'><times validable=''/></header>"[..],
        &b"<header type='replay'><times respawns='-2147483649'/></header>"[..],
    ] {
        assert!(matches!(parse_replay_xml(xml), Err(ParseError::HeaderValueError(_))));
    }
    let ok = parse_replay_xml(b"<header type='replay'><times respawns='-2147483648' validable='0'/></header>").unwrap();
    assert_eq!(ok.score.respawns, i32::MIN);
    assert!(!ok.score.validable);
}

#[test]
fn error_before_replay_mark_wins() {
    let xml = b"<header version='nope' type='replay'></header>";
    assert!(matches!(
        parse_replay_xml(xml),
        Err(ParseError::HeaderTryIntoEnumError(_))
    ));
}

#[test]
fn items_are_read_in_order() {
    let items = xml_items(b"<a x='1'><b/></a>");
    let names: Vec<String> = items
        .iter()
        .filter_map(|i| match i {
            XmlItem::StartElement { name, .. } => Some(name.clone()),
            _ => None,
        })
        .collect();
    assert_eq!(names, vec!["a".to_string(), "b".to_string()]);
    assert!(matches!(items.last(), Some(XmlItem::EndDocument)));
    let bad = xml_items(b"<a>");
    assert!(matches!(bad.last(), Some(XmlItem::Error(_))));
}

#[test]
fn header_from_given_items() {
    let items = vec![
        XmlItem::Other,
        XmlItem::StartElement {
            name: "header".to_string(),
            attributes: vec![
                XmlAttribute::new("type".to_string(), "replay".to_string()),
                XmlAttribute::new("exever".to_string(), "x".to_string()),
            ],
        },
        XmlItem::StartElement {
            name: "times".to_string(),
            attributes: vec![XmlAttribute::new("best".to_string(), "5".to_string())],
        },
        XmlItem::EndDocument,
    ];
    let h = replay_header_from_items(items).unwrap();
    assert_eq!(h.exever, "x");
    assert_eq!(h.score.best, 5);
    let none = replay_header_from_items(vec![XmlItem::EndDocument]);
    assert!(matches!(none, Err(ParseError::HeaderNotFound)));
}

#[test]
fn value_error_carries_the_attribute_error() {
    match parse_replay_xml(b"<header type='replay'><times respawns='1.5'/></header>") {
        Err(ParseError::HeaderValueError(e)) => assert_eq!(e, "1.5".parse::<i32>().unwrap_err()),
        other => panic!("unexpected {:?}", other),
    }
    match parse_replay_xml(b"<header type='replay'><times best='4294967296'/></header>") {
        Err(ParseError::HeaderValueError(e)) => {
            assert_eq!(e, "4294967296".parse::<u32>().unwrap_err())
        }
        other => panic!("unexpected {:?}", other),
    }
}
