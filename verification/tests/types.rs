use gbx_header::gbx::{
    DescType, Environment, GBXBinaryHeader, GBXOrigin, GBXType, GBXVersion, MapClass, MapType,
    Mood, ReplayScore, ReplayXMLHeader,
};

#[test]
fn versions_ignore_case() {
    assert_eq!(GBXVersion::try_from("TMc.6"), Ok(GBXVersion::TMc6));
    assert_eq!(GBXVersion::try_from("tmr.7"), Ok(GBXVersion::TMr7));
    assert_eq!(GBXVersion::try_from("TMR.7"), Ok(GBXVersion::TMr7));
    assert_eq!(
        GBXVersion::try_from("TMc6"),
        Err("Unknown GBX file version: TMc6".to_string())
    );
    assert_eq!(GBXVersion::from_lowercase("tmc.6"), Some(GBXVersion::TMc6));
    assert_eq!(GBXVersion::from_lowercase("TMc.6"), None);
    assert!(GBXVersion::try_from("Unknown").is_err());
    assert!(GBXVersion::try_from("").is_err());
}

#[test]
fn content_types() {
    assert_eq!(GBXVersion::TMc6.content_type(), GBXType::Challenge);
    assert_eq!(GBXVersion::TMr7.content_type(), GBXType::Replay);
    assert_eq!(GBXVersion::Unknown.content_type(), GBXType::Unknown);
    assert_eq!(GBXVersion::default(), GBXVersion::Unknown);
}

#[test]
fn other_names() {
    assert_eq!(MapType::try_from("Challenge"), Ok(MapType::Challenge));
    assert_eq!(MapType::try_from("race"), Err("Unknown map type: race".to_string()));
    assert_eq!(Environment::try_from("STADIUM"), Ok(Environment::Stadium));
    assert_eq!(Environment::try_from("Bay"), Err("Unknown environment: Bay".to_string()));
    assert_eq!(Mood::try_from("Sunrise"), Ok(Mood::Sunrise));
    assert_eq!(Mood::try_from("day"), Ok(Mood::Day));
    assert_eq!(Mood::try_from("NIGHT"), Ok(Mood::Night));
    assert_eq!(Mood::try_from("sunset"), Ok(Mood::Sunset));
    assert_eq!(Mood::try_from("dusk"), Err("Unknown mood: dusk".to_string()));
    assert_eq!(DescType::try_from("Race"), Ok(DescType::Race));
    assert_eq!(DescType::try_from("Puzzle"), Err("Unknown desc.type: Puzzle".to_string()));
    assert_eq!(MapType::default(), MapType::Challenge);
    assert_eq!(Environment::default(), Environment::Stadium);
    assert_eq!(Mood::default(), Mood::Day);
    assert_eq!(DescType::default(), DescType::Race);
}

#[test]
fn map_class_ids() {
    assert_eq!(MapClass::try_from(0x03043000), Ok(MapClass::CGameCtnChallenge));
    assert_eq!(MapClass::try_from(0x0303F005), Ok(MapClass::CGameGhost));
    assert_eq!(MapClass::try_from(0x01001000), Ok(MapClass::CMwNod));
    assert_eq!(MapClass::try_from(0x03043001), Err(()));
    assert_eq!(MapClass::from_repr(0x03093000), Some(MapClass::CGameCtnReplayRecord));
    for c in [MapClass::CGameCtnCollection, MapClass::CGamePlayerProfile, MapClass::CGameSkin] {
        assert_eq!(MapClass::from_repr(c.repr()), Some(c));
        assert_eq!(c.name(), format!("{:?}", c));
    }
}

#[test]
fn texts() {
    let h = GBXBinaryHeader { version: 6, class_id: 0x03043000 };
    assert_eq!(h.to_string(), "v6, class id: 03043000 (\"CGameCtnChallenge\")");
    let h = GBXBinaryHeader { version: 65535, class_id: 0xabc };
    assert_eq!(h.to_string(), "v65535, class id: 00000abc (\"unknown\")");
    let s = ReplayScore { best: 0, respawns: i32::MIN, stuntscore: u32::MAX, validable: true };
    assert_eq!(
        s.to_string(),
        "best=0, respawns=-2147483648, stuntscore=4294967295, validable=true"
    );
    assert_eq!(GBXOrigin::default().to_string(), "<unknown>");
    assert_eq!(GBXOrigin::Hidden.to_string(), "<hidden>");
    assert_eq!(GBXOrigin::File { path: "a/b.Gbx".to_string() }.to_string(), "a/b.Gbx");
    let r = ReplayXMLHeader::default();
    assert_eq!(
        r.to_string(),
        "Version: Unknown\nExever.: \nMap: \nScore: best=0, respawns=0, stuntscore=0, validable=false"
    );
}

#[test]
fn score_text_reads_back() {
    let s = ReplayScore { best: 4000000000, respawns: -17, stuntscore: 12, validable: false };
    let t = s.to_string();
    let best = t.split(", ").next().unwrap().trim_start_matches("best=");
    assert_eq!(best.parse::<u32>(), Ok(s.best));
    let respawns = t.split(", ").nth(1).unwrap().trim_start_matches("respawns=");
    assert_eq!(respawns.parse::<i32>(), Ok(s.respawns));
}
