use gbx_header::gbx::parser::challenge::parse_challenge_header_xml;
use gbx_header::gbx::parser::ParseError;
use gbx_header::gbx::{DescType, Environment, GBXVersion, MapType, Mood};

#[test]
fn challenge_header_is_read() {
    let xml = b"<header type='challenge' version='TMc.6' exever='2.11.16'>\
<ident uid='Zh7' name='mtib-1-dirty-jumps' author='mtibb'/>\
<desc envir='Stadium' mood='Sunrise' type='Race' nblaps='0' price='779'/>\
<times bronze='46000' silver='37000' gold='33000' authortime='30630' authorscore='-1'/>\
<deps><dep file='a.dds'/><dep file='b.dds'/></deps></header>";
    let h = parse_challenge_header_xml(xml).unwrap();
    assert_eq!(h.maptype, MapType::Challenge);
    assert_eq!(h.mapversion, GBXVersion::TMc6);
    assert_eq!(h.exever, "2.11.16");
    assert_eq!(h.uid, "Zh7");
    assert_eq!(h.name, "mtib-1-dirty-jumps");
    assert_eq!(h.author, "mtibb");
    assert_eq!(h.envir, Environment::Stadium);
    assert_eq!(h.mood, Mood::Sunrise);
    assert_eq!(h.desctype, DescType::Race);
    assert_eq!(h.nblaps, 0);
    assert_eq!(h.price, 779);
    let t = h.times.unwrap();
    assert_eq!(t.bronze, Some(46000));
    assert_eq!(t.silver, Some(37000));
    assert_eq!(t.gold, Some(33000));
    assert_eq!(t.authortime, Some(30630));
    assert_eq!(t.authorscore, None);
    let deps: Vec<&str> = h.dependencies.iter().map(|d| d.file.as_str()).collect();
    assert_eq!(deps, vec!["a.dds", "b.dds"]);
}

#[test]
fn challenge_errors() {
    assert!(matches!(
        parse_challenge_header_xml(b"<header type='replay'></header>"),
        Err(ParseError::HeaderTryIntoEnumError(_))
    ));
    assert!(matches!(
        parse_challenge_header_xml(b"<header><desc price='x'/></header>"),
        Err(ParseError::HeaderValueError(_))
    ));
    match parse_challenge_header_xml(b"<header><desc mood='Dusk'/></header>") {
        Err(ParseError::HeaderTryIntoEnumError(m)) => assert_eq!(m, "Unknown mood: Dusk"),
        other => panic!("unexpected {:?}", other),
    }
}

#[test]
fn xml_error_keeps_what_was_read() {
    let h = parse_challenge_header_xml(b"<header><ident name='x'/><oops").unwrap();
    assert_eq!(h.name, "x");
    let h = parse_challenge_header_xml(b"").unwrap();
    assert!(h.times.is_none());
    assert_eq!(h.mapversion, GBXVersion::Unknown);
}

#[test]
fn odd_times_are_kept_or_dropped() {
    let h = parse_challenge_header_xml(b"<header><times gold='x' silver='-1' bronze='+5'/></header>").unwrap();
    let t = h.times.unwrap();
    assert_eq!(t.gold, None);
    assert_eq!(t.silver, None);
    assert_eq!(t.bronze, Some(5));
}

#[test]
fn challenge_text_lists_dependencies_and_absent_times() {
    let h = parse_challenge_header_xml(b"<header><times gold='-1'/><dep file='a.dds'/><dep file='b.dds'/></header>").unwrap();
    let t = h.to_string();
    assert!(t.contains("\nTimes: Bronze: Not present, Silver: Not present, Gold: Not present, Authortime: Not present, Authorscore: Not present\n"), "{}", t);
    assert!(t.ends_with("\nDependencies[2]: [a.dds, b.dds]"), "{}", t);
    let h = parse_challenge_header_xml(b"<header/>").unwrap();
    assert!(h.to_string().contains("\nTimes: Not present\nDependencies[0]: []"));
}
