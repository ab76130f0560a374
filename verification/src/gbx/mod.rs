//! Data types for what is read from a GBX file, with [`GBX`] the main one.
//!
//! Values of these types can be rendered as text with their `to_string` methods,
//! whose results are stated exactly by the `*_text` spec functions.
pub mod parser;

use crate::text::{push_decimal, push_signed_decimal, push_hex_fixed, push_bool, decimal, signed_decimal, hex_fixed, bool_text, lowercase, to_lowercase, str_eq, is_ascii_text, ascii_lowercase};
use vstd::prelude::*;
use vstd::string::*;

verus! {

/// Container for the data extracted from a GBX file.
///
/// See [`parser::parse_from_buffer`].
#[derive(Debug)]
pub struct GBX {
    pub origin: GBXOrigin,
    pub filesize: usize,
    header_start: usize,
    header_length: usize,
    pub bin_header: GBXBinaryHeader,
    pub replay_header: Option<ReplayXMLHeader>,
    pub challenge_header: Option<ChallengeXMLHeader>,
    pub header_xml: String,
}

/// The mathematical model of a [`GBX`].
pub struct GBXModel {
    pub origin: OriginModel,
    pub filesize: nat,
    pub header_start: nat,
    pub header_length: nat,
    pub bin_header: GBXBinaryHeader,
    pub replay_header: Option<ReplayHeaderModel>,
    pub challenge_header: Option<ChallengeHeaderModel>,
    pub header_xml: Seq<char>,
}

/// The model of an optional replay header.
pub open spec fn replay_model(h: Option<ReplayXMLHeader>) -> Option<ReplayHeaderModel> {
    match h {
        Some(x) => Some(x@),
        None => None,
    }
}

/// The model of an optional challenge header.
pub open spec fn challenge_model(h: Option<ChallengeXMLHeader>) -> Option<ChallengeHeaderModel> {
    match h {
        Some(x) => Some(x@),
        None => None,
    }
}

impl View for GBX {
    type V = GBXModel;

    closed spec fn view(&self) -> GBXModel {
        GBXModel {
            origin: self.origin@,
            filesize: self.filesize as nat,
            header_start: self.header_start as nat,
            header_length: self.header_length as nat,
            bin_header: self.bin_header,
            replay_header: replay_model(self.replay_header),
            challenge_header: challenge_model(self.challenge_header),
            header_xml: self.header_xml@,
        }
    }
}

impl GBX {
    /// Assembles a value from its parts.
    pub fn from_parts(
        origin: GBXOrigin,
        filesize: usize,
        header_start: usize,
        header_length: usize,
        bin_header: GBXBinaryHeader,
        replay_header: Option<ReplayXMLHeader>,
        challenge_header: Option<ChallengeXMLHeader>,
        header_xml: String,
    ) -> (r: GBX)
        ensures
            r@ == (GBXModel {
                origin: origin@,
                filesize: filesize as nat,
                header_start: header_start as nat,
                header_length: header_length as nat,
                bin_header,
                replay_header: replay_model(replay_header),
                challenge_header: challenge_model(challenge_header),
                header_xml: header_xml@,
            }),
    {
        GBX {
            origin,
            filesize,
            header_start,
            header_length,
            bin_header,
            replay_header,
            challenge_header,
            header_xml,
        }
    }

    /// Where the file came from.
    pub fn origin(&self) -> (r: &GBXOrigin)
        ensures
            r@ == self@.origin,
    {
        &self.origin
    }

    /// Size of the file in bytes.
    pub fn filesize(&self) -> (r: usize)
        ensures
            r as nat == self@.filesize,
    {
        self.filesize
    }

    /// Byte offset of the XML header inside the file (0 where none was found).
    pub fn header_start(&self) -> (r: usize)
        ensures
            r as nat == self@.header_start,
    {
        self.header_start
    }

    /// Length in bytes of the XML header inside the file.
    pub fn header_length(&self) -> (r: usize)
        ensures
            r as nat == self@.header_length,
    {
        self.header_length
    }

    /// The fixed binary header.
    pub fn bin_header(&self) -> (r: GBXBinaryHeader)
        ensures
            r == self@.bin_header,
    {
        self.bin_header
    }

    /// The replay header, where the file is a replay.
    pub fn replay_header(&self) -> (r: &Option<ReplayXMLHeader>)
        ensures
            replay_model(*r) == self@.replay_header,
    {
        &self.replay_header
    }

    /// The challenge header, where the file is a challenge.
    pub fn challenge_header(&self) -> (r: &Option<ChallengeXMLHeader>)
        ensures
            challenge_model(*r) == self@.challenge_header,
    {
        &self.challenge_header
    }

    /// The text of the XML header.
    pub fn header_xml(&self) -> (r: &String)
        ensures
            r@ == self@.header_xml,
    {
        &self.header_xml
    }
}

/// Stores the source of a [`GBX`] value.
///
/// A default value is `Unknown`; the parser sets the origin of what it returns.
/// `Hidden` lets a user hide the origin; the library never produces it.
#[derive(Debug)]
pub enum GBXOrigin {
    File { path: String },
    Buffer,
    Unknown,
    Hidden,
}

/// The model of a [`GBXOrigin`].
pub enum OriginModel {
    File { path: Seq<char> },
    Buffer,
    Unknown,
    Hidden,
}

impl View for GBXOrigin {
    type V = OriginModel;

    open spec fn view(&self) -> OriginModel {
        match self {
            GBXOrigin::File { path } => OriginModel::File { path: path@ },
            GBXOrigin::Buffer => OriginModel::Buffer,
            GBXOrigin::Unknown => OriginModel::Unknown,
            GBXOrigin::Hidden => OriginModel::Hidden,
        }
    }
}

impl Default for GBXOrigin {
    fn default() -> (r: Self)
        ensures
            r is Unknown,
    {
        GBXOrigin::Unknown
    }
}

/// The fixed binary part at the start of a GBX file.
#[derive(Debug, Clone, Copy, PartialEq, Eq, Structural)]
pub struct GBXBinaryHeader {
    pub version: u16,
    pub class_id: u32,
}

impl Default for GBXBinaryHeader {
    fn default() -> (r: Self)
        ensures
            r.version == 0 && r.class_id == 0,
    {
        GBXBinaryHeader { version: 0, class_id: 0 }
    }
}

/// Header information of a replay file.
#[derive(Debug, PartialEq, Eq)]
pub struct ReplayXMLHeader {
    /// Version of the replay file format
    pub version: GBXVersion,
    /// Version of the executable used to make the replay
    pub exever: String,
    /// UID of the map
    pub map_uid: String,
    /// Name of the map
    pub map_name: String,
    /// Score and time
    pub score: ReplayScore,
}

/// The model of a [`ReplayXMLHeader`].
pub struct ReplayHeaderModel {
    pub version: GBXVersion,
    pub exever: Seq<char>,
    pub map_uid: Seq<char>,
    pub map_name: Seq<char>,
    pub score: ReplayScore,
}

impl View for ReplayXMLHeader {
    type V = ReplayHeaderModel;

    open spec fn view(&self) -> ReplayHeaderModel {
        ReplayHeaderModel {
            version: self.version,
            exever: self.exever@,
            map_uid: self.map_uid@,
            map_name: self.map_name@,
            score: self.score,
        }
    }
}

/// The model of a default [`ReplayXMLHeader`]: unknown version, empty texts, zero score.
pub open spec fn default_replay_model() -> ReplayHeaderModel {
    ReplayHeaderModel {
        version: GBXVersion::Unknown,
        exever: Seq::empty(),
        map_uid: Seq::empty(),
        map_name: Seq::empty(),
        score: default_score(),
    }
}

impl Default for ReplayXMLHeader {
    fn default() -> (r: Self)
        ensures
            r@ == default_replay_model(),
    {
        ReplayXMLHeader {
            version: GBXVersion::default(),
            exever: String::new(),
            map_uid: String::new(),
            map_name: String::new(),
            score: ReplayScore::default(),
        }
    }
}

/// Score and time of a replay.
#[derive(Debug, Clone, Copy, PartialEq, Eq, Structural)]
pub struct ReplayScore {
    /// Best time in ms
    pub best: u32,
    /// Number of respawns in attempt
    pub respawns: i32,
    pub stuntscore: u32,
    pub validable: bool,
}

/// The all-zero score.
pub open spec fn default_score() -> ReplayScore {
    ReplayScore { best: 0, respawns: 0, stuntscore: 0, validable: false }
}

impl Default for ReplayScore {
    fn default() -> (r: Self)
        ensures
            r == default_score(),
    {
        ReplayScore { best: 0, respawns: 0, stuntscore: 0, validable: false }
    }
}

/// A file that a map depends on.
#[derive(Debug)]
pub struct Dependency {
    pub file: String,
}

impl Default for Dependency {
    fn default() -> (r: Self)
        ensures
            r.file@ == Seq::<char>::empty(),
    {
        Dependency { file: String::new() }
    }
}

/// Medal times of a challenge; a time of `-1` in the file is read as absent.
#[derive(Debug, Clone, Copy, PartialEq, Eq)]
pub struct Times {
    pub bronze: Option<u32>,
    pub silver: Option<u32>,
    pub gold: Option<u32>,
    pub authortime: Option<u32>,
    pub authorscore: Option<u32>,
}

/// Times with none present.
pub open spec fn no_times() -> Times {
    Times { bronze: None, silver: None, gold: None, authortime: None, authorscore: None }
}

impl Default for Times {
    fn default() -> (r: Self)
        ensures
            r == no_times(),
    {
        Times { bronze: None, silver: None, gold: None, authortime: None, authorscore: None }
    }
}

/// Header information of a challenge (map) file.
#[derive(Debug)]
pub struct ChallengeXMLHeader {
    pub maptype: MapType,
    pub mapversion: GBXVersion,
    pub exever: String,
    pub uid: String,
    pub name: String,
    pub author: String,
    pub envir: Environment,
    pub mood: Mood,
    pub desctype: DescType,
    pub nblaps: u32,
    pub price: u32,
    pub times: Option<Times>,
    pub dependencies: Vec<Dependency>,
}

/// The model of a [`ChallengeXMLHeader`]; dependencies are given by their file names.
pub struct ChallengeHeaderModel {
    pub maptype: MapType,
    pub mapversion: GBXVersion,
    pub exever: Seq<char>,
    pub uid: Seq<char>,
    pub name: Seq<char>,
    pub author: Seq<char>,
    pub envir: Environment,
    pub mood: Mood,
    pub desctype: DescType,
    pub nblaps: u32,
    pub price: u32,
    pub times: Option<Times>,
    pub dependencies: Seq<Seq<char>>,
}

/// The file names of a sequence of dependencies.
pub open spec fn dependency_files(d: Seq<Dependency>) -> Seq<Seq<char>> {
    d.map_values(|x: Dependency| x.file@)
}

impl View for ChallengeXMLHeader {
    type V = ChallengeHeaderModel;

    open spec fn view(&self) -> ChallengeHeaderModel {
        ChallengeHeaderModel {
            maptype: self.maptype,
            mapversion: self.mapversion,
            exever: self.exever@,
            uid: self.uid@,
            name: self.name@,
            author: self.author@,
            envir: self.envir,
            mood: self.mood,
            desctype: self.desctype,
            nblaps: self.nblaps,
            price: self.price,
            times: self.times,
            dependencies: dependency_files(self.dependencies@),
        }
    }
}

/// The model of a default [`ChallengeXMLHeader`].
pub open spec fn default_challenge_model() -> ChallengeHeaderModel {
    ChallengeHeaderModel {
        maptype: MapType::Challenge,
        mapversion: GBXVersion::Unknown,
        exever: Seq::empty(),
        uid: Seq::empty(),
        name: Seq::empty(),
        author: Seq::empty(),
        envir: Environment::Stadium,
        mood: Mood::Day,
        desctype: DescType::Race,
        nblaps: 0,
        price: 0,
        times: None,
        dependencies: Seq::empty(),
    }
}

impl Default for ChallengeXMLHeader {
    fn default() -> (r: Self)
        ensures
            r@ == default_challenge_model(),
    {
        let r = ChallengeXMLHeader {
            maptype: MapType::default(),
            mapversion: GBXVersion::default(),
            exever: String::new(),
            uid: String::new(),
            name: String::new(),
            author: String::new(),
            envir: Environment::default(),
            mood: Mood::default(),
            desctype: DescType::default(),
            nblaps: 0,
            price: 0,
            times: None,
            dependencies: Vec::new(),
        };
        assert(dependency_files(r.dependencies@) =~= Seq::<Seq<char>>::empty());
        r
    }
}

/// Kind of map.
#[derive(Debug, Clone, Copy, PartialEq, Eq, Structural)]
pub enum MapType {
    Challenge,
}

impl Default for MapType {
    fn default() -> (r: Self)
        ensures
            r == MapType::Challenge,
    {
        MapType::Challenge
    }
}

/// Version and kind of a GBX file, as written in its XML header.
#[derive(Debug, Clone, Copy, PartialEq, Eq, Structural)]
pub enum GBXVersion {
    /// Unknown Type/Version
    Unknown,
    /// Challenge v6
    TMc6,
    /// Replay v7
    TMr7,
}

impl Default for GBXVersion {
    fn default() -> (r: Self)
        ensures
            r == GBXVersion::Unknown,
    {
        GBXVersion::Unknown
    }
}

/// The generic kind of content of a GBX file.
#[derive(Debug, Clone, Copy, PartialEq, Eq, Structural)]
pub enum GBXType {
    Challenge,
    Replay,
    /// GBX files can hold many kinds of objects; most are not parsed here.
    Unknown,
}

/// The content type that belongs to a file version.
pub open spec fn content_type_of(v: GBXVersion) -> GBXType {
    match v {
        GBXVersion::TMc6 => GBXType::Challenge,
        GBXVersion::TMr7 => GBXType::Replay,
        GBXVersion::Unknown => GBXType::Unknown,
    }
}

impl GBXVersion {
    /// Converts a specific GBX file version into the more generic [`GBXType`].
    pub fn content_type(&self) -> (r: GBXType)
        ensures
            r == content_type_of(*self),
    {
        match self {
            GBXVersion::TMc6 => GBXType::Challenge,
            GBXVersion::TMr7 => GBXType::Replay,
            GBXVersion::Unknown => GBXType::Unknown,
        }
    }
}

/// The environment a map is set in.
#[derive(Debug, Clone, Copy, PartialEq, Eq, Structural)]
pub enum Environment {
    Stadium,
}

impl Default for Environment {
    fn default() -> (r: Self)
        ensures
            r == Environment::Stadium,
    {
        Environment::Stadium
    }
}

/// Time of day of a map.
#[derive(Debug, Clone, Copy, PartialEq, Eq, Structural)]
pub enum Mood {
    Day,
    Sunset,
    Sunrise,
    Night,
}

impl Default for Mood {
    fn default() -> (r: Self)
        ensures
            r == Mood::Day,
    {
        Mood::Day
    }
}

/// Kind of race of a map.
#[derive(Debug, Clone, Copy, PartialEq, Eq, Structural)]
pub enum DescType {
    Race,
}

impl Default for DescType {
    fn default() -> (r: Self)
        ensures
            r == DescType::Race,
    {
        DescType::Race
    }
}

/// The map type named by an already lower-cased text.
pub open spec fn map_type_from_lowercase(l: Seq<char>) -> Option<MapType> {
    if l == "challenge"@ {
        Some(MapType::Challenge)
    } else {
        None
    }
}

/// The file version named by an already lower-cased text.
pub open spec fn version_from_lowercase(l: Seq<char>) -> Option<GBXVersion> {
    if l == "tmc.6"@ {
        Some(GBXVersion::TMc6)
    } else if l == "tmr.7"@ {
        Some(GBXVersion::TMr7)
    } else {
        None
    }
}

/// The environment named by an already lower-cased text.
pub open spec fn environment_from_lowercase(l: Seq<char>) -> Option<Environment> {
    if l == "stadium"@ {
        Some(Environment::Stadium)
    } else {
        None
    }
}

/// The mood named by an already lower-cased text.
pub open spec fn mood_from_lowercase(l: Seq<char>) -> Option<Mood> {
    if l == "day"@ {
        Some(Mood::Day)
    } else if l == "sunset"@ {
        Some(Mood::Sunset)
    } else if l == "sunrise"@ {
        Some(Mood::Sunrise)
    } else if l == "night"@ {
        Some(Mood::Night)
    } else {
        None
    }
}

/// The race kind named by an already lower-cased text.
pub open spec fn desc_type_from_lowercase(l: Seq<char>) -> Option<DescType> {
    if l == "race"@ {
        Some(DescType::Race)
    } else {
        None
    }
}

/// The map type a text names, ignoring case.
pub open spec fn map_type_from_str(s: Seq<char>) -> Option<MapType> {
    map_type_from_lowercase(lowercase(s))
}

/// The file version a text names, ignoring case.
pub open spec fn version_from_str(s: Seq<char>) -> Option<GBXVersion> {
    version_from_lowercase(lowercase(s))
}

/// The environment a text names, ignoring case.
pub open spec fn environment_from_str(s: Seq<char>) -> Option<Environment> {
    environment_from_lowercase(lowercase(s))
}

/// The mood a text names, ignoring case.
pub open spec fn mood_from_str(s: Seq<char>) -> Option<Mood> {
    mood_from_lowercase(lowercase(s))
}

/// The race kind a text names, ignoring case.
pub open spec fn desc_type_from_str(s: Seq<char>) -> Option<DescType> {
    desc_type_from_lowercase(lowercase(s))
}

/// The message for a text that names no map type.
pub open spec fn unknown_map_type_message(s: Seq<char>) -> Seq<char> {
    "Unknown map type: "@ + s
}

/// The message for a text that names no file version.
pub open spec fn unknown_version_message(s: Seq<char>) -> Seq<char> {
    "Unknown GBX file version: "@ + s
}

/// The message for a text that names no environment.
pub open spec fn unknown_environment_message(s: Seq<char>) -> Seq<char> {
    "Unknown environment: "@ + s
}

/// The message for a text that names no mood.
pub open spec fn unknown_mood_message(s: Seq<char>) -> Seq<char> {
    "Unknown mood: "@ + s
}

/// The message for a text that names no race kind.
pub open spec fn unknown_desc_type_message(s: Seq<char>) -> Seq<char> {
    "Unknown desc.type: "@ + s
}

/// A new string holding `prefix` followed by `value`.
fn message(prefix: &str, value: &str) -> (r: String)
    ensures
        r@ == prefix@ + value@,
{
    let mut m = String::from_str(prefix);
    m.append(value);
    m
}

impl MapType {
    /// The map type named by `lower`, a text already in lower case.
    pub fn from_lowercase(lower: &str) -> (r: Option<MapType>)
        ensures
            r == map_type_from_lowercase(lower@),
    {
        if str_eq(lower, "challenge") {
            Some(MapType::Challenge)
        } else {
            None
        }
    }

    /// Reads a map type, ignoring case.
    pub fn try_from(value: &str) -> (r: Result<MapType, String>)
        ensures
            match r {
                Ok(t) => map_type_from_str(value@) == Some(t),
                Err(m) => map_type_from_str(value@) is None && m@ == unknown_map_type_message(
                    value@,
                ),
            },
        is_ascii_text(value@) ==> lowercase(value@) == ascii_lowercase(value@),
    {
        let lower = to_lowercase(value);
        match MapType::from_lowercase(lower.as_str()) {
            Some(t) => Ok(t),
            None => Err(message("Unknown map type: ", value)),
        }
    }
}

impl GBXVersion {
    /// The file version named by `lower`, a text already in lower case.
    pub fn from_lowercase(lower: &str) -> (r: Option<GBXVersion>)
        ensures
            r == version_from_lowercase(lower@),
    {
        if str_eq(lower, "tmc.6") {
            Some(GBXVersion::TMc6)
        } else if str_eq(lower, "tmr.7") {
            Some(GBXVersion::TMr7)
        } else {
            None
        }
    }

    /// Reads a file version, ignoring case.
    pub fn try_from(value: &str) -> (r: Result<GBXVersion, String>)
        ensures
            match r {
                Ok(v) => version_from_str(value@) == Some(v),
                Err(m) => version_from_str(value@) is None && m@ == unknown_version_message(
                    value@,
                ),
            },
        is_ascii_text(value@) ==> lowercase(value@) == ascii_lowercase(value@),
    {
        let lower = to_lowercase(value);
        match GBXVersion::from_lowercase(lower.as_str()) {
            Some(v) => Ok(v),
            None => Err(message("Unknown GBX file version: ", value)),
        }
    }
}

impl Environment {
    /// The environment named by `lower`, a text already in lower case.
    pub fn from_lowercase(lower: &str) -> (r: Option<Environment>)
        ensures
            r == environment_from_lowercase(lower@),
    {
        if str_eq(lower, "stadium") {
            Some(Environment::Stadium)
        } else {
            None
        }
    }

    /// Reads an environment, ignoring case.
    pub fn try_from(value: &str) -> (r: Result<Environment, String>)
        ensures
            match r {
                Ok(e) => environment_from_str(value@) == Some(e),
                Err(m) => environment_from_str(value@) is None && m@
                    == unknown_environment_message(value@),
            },
        is_ascii_text(value@) ==> lowercase(value@) == ascii_lowercase(value@),
    {
        let lower = to_lowercase(value);
        match Environment::from_lowercase(lower.as_str()) {
            Some(e) => Ok(e),
            None => Err(message("Unknown environment: ", value)),
        }
    }
}

impl Mood {
    /// The mood named by `lower`, a text already in lower case.
    pub fn from_lowercase(lower: &str) -> (r: Option<Mood>)
        ensures
            r == mood_from_lowercase(lower@),
    {
        if str_eq(lower, "day") {
            Some(Mood::Day)
        } else if str_eq(lower, "sunset") {
            Some(Mood::Sunset)
        } else if str_eq(lower, "sunrise") {
            Some(Mood::Sunrise)
        } else if str_eq(lower, "night") {
            Some(Mood::Night)
        } else {
            None
        }
    }

    /// Reads a mood, ignoring case.
    pub fn try_from(value: &str) -> (r: Result<Mood, String>)
        ensures
            match r {
                Ok(m) => mood_from_str(value@) == Some(m),
                Err(msg) => mood_from_str(value@) is None && msg@ == unknown_mood_message(value@),
            },
        is_ascii_text(value@) ==> lowercase(value@) == ascii_lowercase(value@),
    {
        let lower = to_lowercase(value);
        match Mood::from_lowercase(lower.as_str()) {
            Some(m) => Ok(m),
            None => Err(message("Unknown mood: ", value)),
        }
    }
}

impl DescType {
    /// The race kind named by `lower`, a text already in lower case.
    pub fn from_lowercase(lower: &str) -> (r: Option<DescType>)
        ensures
            r == desc_type_from_lowercase(lower@),
    {
        if str_eq(lower, "race") {
            Some(DescType::Race)
        } else {
            None
        }
    }

    /// Reads a race kind, ignoring case.
    pub fn try_from(value: &str) -> (r: Result<DescType, String>)
        ensures
            match r {
                Ok(d) => desc_type_from_str(value@) == Some(d),
                Err(m) => desc_type_from_str(value@) is None && m@ == unknown_desc_type_message(
                    value@,
                ),
            },
        is_ascii_text(value@) ==> lowercase(value@) == ascii_lowercase(value@),
    {
        let lower = to_lowercase(value);
        match DescType::from_lowercase(lower.as_str()) {
            Some(d) => Ok(d),
            None => Err(message("Unknown desc.type: ", value)),
        }
    }
}

/// Classes of GBX files; ids and names from wiki.xaseco.org.
#[derive(Debug, Clone, Copy, PartialEq, Eq, Structural)]
pub enum MapClass {
    CGameCtnChallenge,
    CGameCtnCollectorList,
    CGameCtnChallengeParameters,
    CGameCtnBlockSkin,
    CGameWaypointSpecialProperty,
    CGameCtnReplayRecord,
    CGameGhost,
    CGameCtnGhost,
    CGameCtnCollector,
    CGameCtnObjectInfo,
    CGameCtnDecoration,
    CGameCtnCollection,
    CGameSkin,
    CGamePlayerProfile,
    CMwNod,
}

/// The numeric class id of each class.
pub open spec fn map_class_id(c: MapClass) -> u32 {
    match c {
        MapClass::CGameCtnChallenge => 0x03043000,
        MapClass::CGameCtnCollectorList => 0x0301B000,
        MapClass::CGameCtnChallengeParameters => 0x0305B000,
        MapClass::CGameCtnBlockSkin => 0x03059000,
        MapClass::CGameWaypointSpecialProperty => 0x0313B000,
        MapClass::CGameCtnReplayRecord => 0x03093000,
        MapClass::CGameGhost => 0x0303F005,
        MapClass::CGameCtnGhost => 0x03092000,
        MapClass::CGameCtnCollector => 0x0301A000,
        MapClass::CGameCtnObjectInfo => 0x0301C000,
        MapClass::CGameCtnDecoration => 0x03038000,
        MapClass::CGameCtnCollection => 0x03033000,
        MapClass::CGameSkin => 0x03031000,
        MapClass::CGamePlayerProfile => 0x0308C000,
        MapClass::CMwNod => 0x01001000,
    }
}

/// The class with a given numeric id, if any.
pub open spec fn map_class_of(id: u32) -> Option<MapClass> {
    if id == 0x03043000 {
        Some(MapClass::CGameCtnChallenge)
    } else if id == 0x0301B000 {
        Some(MapClass::CGameCtnCollectorList)
    } else if id == 0x0305B000 {
        Some(MapClass::CGameCtnChallengeParameters)
    } else if id == 0x03059000 {
        Some(MapClass::CGameCtnBlockSkin)
    } else if id == 0x0313B000 {
        Some(MapClass::CGameWaypointSpecialProperty)
    } else if id == 0x03093000 {
        Some(MapClass::CGameCtnReplayRecord)
    } else if id == 0x0303F005 {
        Some(MapClass::CGameGhost)
    } else if id == 0x03092000 {
        Some(MapClass::CGameCtnGhost)
    } else if id == 0x0301A000 {
        Some(MapClass::CGameCtnCollector)
    } else if id == 0x0301C000 {
        Some(MapClass::CGameCtnObjectInfo)
    } else if id == 0x03038000 {
        Some(MapClass::CGameCtnDecoration)
    } else if id == 0x03033000 {
        Some(MapClass::CGameCtnCollection)
    } else if id == 0x03031000 {
        Some(MapClass::CGameSkin)
    } else if id == 0x0308C000 {
        Some(MapClass::CGamePlayerProfile)
    } else if id == 0x01001000 {
        Some(MapClass::CMwNod)
    } else {
        None
    }
}

/// The name of each class.
pub open spec fn map_class_name(c: MapClass) -> Seq<char> {
    match c {
        MapClass::CGameCtnChallenge => "CGameCtnChallenge"@,
        MapClass::CGameCtnCollectorList => "CGameCtnCollectorList"@,
        MapClass::CGameCtnChallengeParameters => "CGameCtnChallengeParameters"@,
        MapClass::CGameCtnBlockSkin => "CGameCtnBlockSkin"@,
        MapClass::CGameWaypointSpecialProperty => "CGameWaypointSpecialProperty"@,
        MapClass::CGameCtnReplayRecord => "CGameCtnReplayRecord"@,
        MapClass::CGameGhost => "CGameGhost"@,
        MapClass::CGameCtnGhost => "CGameCtnGhost"@,
        MapClass::CGameCtnCollector => "CGameCtnCollector"@,
        MapClass::CGameCtnObjectInfo => "CGameCtnObjectInfo"@,
        MapClass::CGameCtnDecoration => "CGameCtnDecoration"@,
        MapClass::CGameCtnCollection => "CGameCtnCollection"@,
        MapClass::CGameSkin => "CGameSkin"@,
        MapClass::CGamePlayerProfile => "CGamePlayerProfile"@,
        MapClass::CMwNod => "CMwNod"@,
    }
}

impl MapClass {
    /// The numeric class id.
    pub fn repr(&self) -> (r: u32)
        ensures
            r == map_class_id(*self),
    {
        match self {
            MapClass::CGameCtnChallenge => 0x03043000,
            MapClass::CGameCtnCollectorList => 0x0301B000,
            MapClass::CGameCtnChallengeParameters => 0x0305B000,
            MapClass::CGameCtnBlockSkin => 0x03059000,
            MapClass::CGameWaypointSpecialProperty => 0x0313B000,
            MapClass::CGameCtnReplayRecord => 0x03093000,
            MapClass::CGameGhost => 0x0303F005,
            MapClass::CGameCtnGhost => 0x03092000,
            MapClass::CGameCtnCollector => 0x0301A000,
            MapClass::CGameCtnObjectInfo => 0x0301C000,
            MapClass::CGameCtnDecoration => 0x03038000,
            MapClass::CGameCtnCollection => 0x03033000,
            MapClass::CGameSkin => 0x03031000,
            MapClass::CGamePlayerProfile => 0x0308C000,
            MapClass::CMwNod => 0x01001000,
        }
    }

    /// The class with id `id`, if there is one.
    pub fn from_repr(id: u32) -> (r: Option<MapClass>)
        ensures
            r == map_class_of(id),
    {
        if id == 0x03043000 {
            Some(MapClass::CGameCtnChallenge)
        } else if id == 0x0301B000 {
            Some(MapClass::CGameCtnCollectorList)
        } else if id == 0x0305B000 {
            Some(MapClass::CGameCtnChallengeParameters)
        } else if id == 0x03059000 {
            Some(MapClass::CGameCtnBlockSkin)
        } else if id == 0x0313B000 {
            Some(MapClass::CGameWaypointSpecialProperty)
        } else if id == 0x03093000 {
            Some(MapClass::CGameCtnReplayRecord)
        } else if id == 0x0303F005 {
            Some(MapClass::CGameGhost)
        } else if id == 0x03092000 {
            Some(MapClass::CGameCtnGhost)
        } else if id == 0x0301A000 {
            Some(MapClass::CGameCtnCollector)
        } else if id == 0x0301C000 {
            Some(MapClass::CGameCtnObjectInfo)
        } else if id == 0x03038000 {
            Some(MapClass::CGameCtnDecoration)
        } else if id == 0x03033000 {
            Some(MapClass::CGameCtnCollection)
        } else if id == 0x03031000 {
            Some(MapClass::CGameSkin)
        } else if id == 0x0308C000 {
            Some(MapClass::CGamePlayerProfile)
        } else if id == 0x01001000 {
            Some(MapClass::CMwNod)
        } else {
            None
        }
    }

    /// The class with id `id`, or `Err(())` where there is none.
    pub fn try_from(id: u32) -> (r: Result<MapClass, ()>)
        ensures
            match r {
                Ok(c) => map_class_of(id) == Some(c),
                Err(_) => map_class_of(id) is None,
            },
    {
        match MapClass::from_repr(id) {
            Some(c) => Ok(c),
            None => Err(()),
        }
    }

    /// The name of the class, as its `Debug` rendering shows it.
    pub fn name(&self) -> (r: &'static str)
        ensures
            r@ == map_class_name(*self),
    {
        match self {
            MapClass::CGameCtnChallenge => "CGameCtnChallenge",
            MapClass::CGameCtnCollectorList => "CGameCtnCollectorList",
            MapClass::CGameCtnChallengeParameters => "CGameCtnChallengeParameters",
            MapClass::CGameCtnBlockSkin => "CGameCtnBlockSkin",
            MapClass::CGameWaypointSpecialProperty => "CGameWaypointSpecialProperty",
            MapClass::CGameCtnReplayRecord => "CGameCtnReplayRecord",
            MapClass::CGameGhost => "CGameGhost",
            MapClass::CGameCtnGhost => "CGameCtnGhost",
            MapClass::CGameCtnCollector => "CGameCtnCollector",
            MapClass::CGameCtnObjectInfo => "CGameCtnObjectInfo",
            MapClass::CGameCtnDecoration => "CGameCtnDecoration",
            MapClass::CGameCtnCollection => "CGameCtnCollection",
            MapClass::CGameSkin => "CGameSkin",
            MapClass::CGamePlayerProfile => "CGamePlayerProfile",
            MapClass::CMwNod => "CMwNod",
        }
    }
}

/// Reading back the id of a class gives that class.
pub proof fn lemma_map_class_id_round_trip(c: MapClass)
    ensures
        map_class_of(map_class_id(c)) == Some(c),
{
}

/// A class found for an id has that id.
pub proof fn lemma_map_class_of_matches_id(id: u32)
    ensures
        map_class_of(id) matches Some(c) ==> map_class_id(c) == id,
{
}

/// The class ids of the GBX format (as listed on wiki.xaseco.org): each id is read as the
/// class with the name shown beside it.
pub proof fn lemma_map_class_table()
    ensures
        map_class_of(0x03043000) matches Some(c) && map_class_name(c) == "CGameCtnChallenge"@,
        map_class_of(0x0301B000) matches Some(c) && map_class_name(c) == "CGameCtnCollectorList"@,
        map_class_of(0x0305B000) matches Some(c) && map_class_name(c) == "CGameCtnChallengeParameters"@,
        map_class_of(0x03059000) matches Some(c) && map_class_name(c) == "CGameCtnBlockSkin"@,
        map_class_of(0x0313B000) matches Some(c) && map_class_name(c) == "CGameWaypointSpecialProperty"@,
        map_class_of(0x03093000) matches Some(c) && map_class_name(c) == "CGameCtnReplayRecord"@,
        map_class_of(0x0303F005) matches Some(c) && map_class_name(c) == "CGameGhost"@,
        map_class_of(0x03092000) matches Some(c) && map_class_name(c) == "CGameCtnGhost"@,
        map_class_of(0x0301A000) matches Some(c) && map_class_name(c) == "CGameCtnCollector"@,
        map_class_of(0x0301C000) matches Some(c) && map_class_name(c) == "CGameCtnObjectInfo"@,
        map_class_of(0x03038000) matches Some(c) && map_class_name(c) == "CGameCtnDecoration"@,
        map_class_of(0x03033000) matches Some(c) && map_class_name(c) == "CGameCtnCollection"@,
        map_class_of(0x03031000) matches Some(c) && map_class_name(c) == "CGameSkin"@,
        map_class_of(0x0308C000) matches Some(c) && map_class_name(c) == "CGamePlayerProfile"@,
        map_class_of(0x01001000) matches Some(c) && map_class_name(c) == "CMwNod"@,
{
}

/// Distinct classes have distinct names, so the name in a binary header's text tells the
/// class.
pub proof fn lemma_map_class_names_distinct(a: MapClass, b: MapClass)
    requires
        map_class_name(a) == map_class_name(b),
    ensures
        a == b,
{
    reveal_strlit("CGameCtnChallenge");
    reveal_strlit("CGameCtnCollectorList");
    reveal_strlit("CGameCtnChallengeParameters");
    reveal_strlit("CGameCtnBlockSkin");
    reveal_strlit("CGameWaypointSpecialProperty");
    reveal_strlit("CGameCtnReplayRecord");
    reveal_strlit("CGameGhost");
    reveal_strlit("CGameCtnGhost");
    reveal_strlit("CGameCtnCollector");
    reveal_strlit("CGameCtnObjectInfo");
    reveal_strlit("CGameCtnDecoration");
    reveal_strlit("CGameCtnCollection");
    reveal_strlit("CGameSkin");
    reveal_strlit("CGamePlayerProfile");
    reveal_strlit("CMwNod");
    let na = map_class_name(a);
    let nb = map_class_name(b);
    assert(na.len() == nb.len());
    if na.len() == 17 || na.len() == 18 {
        assert(na[8] == nb[8]);
        assert(na[9] == nb[9]);
    }
}

/// Reading a name ignores case: texts with the same lower-case form name the same value.
pub proof fn lemma_names_ignore_case(a: Seq<char>, b: Seq<char>)
    requires
        lowercase(a) == lowercase(b),
    ensures
        map_type_from_str(a) == map_type_from_str(b),
        version_from_str(a) == version_from_str(b),
        environment_from_str(a) == environment_from_str(b),
        mood_from_str(a) == mood_from_str(b),
        desc_type_from_str(a) == desc_type_from_str(b),
{
}

/// A version read from a text is never `Unknown`, so its content type is a known one.
pub proof fn lemma_read_version_is_known(s: Seq<char>)
    ensures
        version_from_str(s) matches Some(v) ==> v != GBXVersion::Unknown && content_type_of(v)
            != GBXType::Unknown,
{
}

/// The text of an origin: the path of a file, or a marker in angle brackets.
pub open spec fn origin_text(o: OriginModel) -> Seq<char> {
    match o {
        OriginModel::File { path } => path,
        OriginModel::Buffer => "<buffer>"@,
        OriginModel::Unknown => "<unknown>"@,
        OriginModel::Hidden => "<hidden>"@,
    }
}

/// The name of a file version, as its `Debug` rendering shows it.
pub open spec fn version_debug_text(v: GBXVersion) -> Seq<char> {
    match v {
        GBXVersion::Unknown => "Unknown"@,
        GBXVersion::TMc6 => "TMc6"@,
        GBXVersion::TMr7 => "TMr7"@,
    }
}

/// The name shown for a class id: the class name, or `unknown`.
pub open spec fn class_id_name(id: u32) -> Seq<char> {
    match map_class_of(id) {
        Some(c) => map_class_name(c),
        None => "unknown"@,
    }
}

/// The text of a binary header: version in decimal, class id in eight hexadecimal
/// digits, and the quoted class name.
pub open spec fn binary_header_text(h: GBXBinaryHeader) -> Seq<char> {
    "v"@ + decimal(h.version as nat) + ", class id: "@ + hex_fixed(h.class_id as nat, 8) + " (\""@
        + class_id_name(h.class_id) + "\")"@
}

/// The text of a score.
pub open spec fn score_text(s: ReplayScore) -> Seq<char> {
    "best="@ + decimal(s.best as nat) + ", respawns="@ + signed_decimal(s.respawns as int)
        + ", stuntscore="@ + decimal(s.stuntscore as nat) + ", validable="@ + bool_text(
        s.validable,
    )
}

/// The text of a replay header.
pub open spec fn replay_text(m: ReplayHeaderModel) -> Seq<char> {
    "Version: "@ + version_debug_text(m.version) + "\nExever.: "@ + m.exever + "\nMap: "@
        + m.map_name + "\nScore: "@ + score_text(m.score)
}

/// The name of a map type, as its `Debug` rendering shows it.
pub open spec fn map_type_debug_text(t: MapType) -> Seq<char> {
    match t {
        MapType::Challenge => "Challenge"@,
    }
}

/// The name of a race kind, as its `Debug` rendering shows it.
pub open spec fn desc_type_debug_text(d: DescType) -> Seq<char> {
    match d {
        DescType::Race => "Race"@,
    }
}

/// The name of an environment, as its `Debug` rendering shows it.
pub open spec fn environment_debug_text(e: Environment) -> Seq<char> {
    match e {
        Environment::Stadium => "Stadium"@,
    }
}

/// The name of a mood, as its `Debug` rendering shows it.
pub open spec fn mood_debug_text(m: Mood) -> Seq<char> {
    match m {
        Mood::Day => "Day"@,
        Mood::Sunset => "Sunset"@,
        Mood::Sunrise => "Sunrise"@,
        Mood::Night => "Night"@,
    }
}

/// Reading the name shown for a map type, race kind, environment or mood gives back that
/// value, once the name is lower-cased.
pub proof fn lemma_shown_names_read_back(t: MapType, d: DescType, e: Environment, m: Mood)
    ensures
        map_type_from_lowercase(ascii_lowercase(map_type_debug_text(t))) == Some(t),
        desc_type_from_lowercase(ascii_lowercase(desc_type_debug_text(d))) == Some(d),
        environment_from_lowercase(ascii_lowercase(environment_debug_text(e))) == Some(e),
        mood_from_lowercase(ascii_lowercase(mood_debug_text(m))) == Some(m),
{
    reveal_strlit("Challenge");
    reveal_strlit("challenge");
    assert(ascii_lowercase("Challenge"@) =~= "challenge"@);
    reveal_strlit("Race");
    reveal_strlit("race");
    assert(ascii_lowercase("Race"@) =~= "race"@);
    reveal_strlit("Stadium");
    reveal_strlit("stadium");
    assert(ascii_lowercase("Stadium"@) =~= "stadium"@);
    reveal_strlit("Day");
    reveal_strlit("day");
    assert(ascii_lowercase("Day"@) =~= "day"@);
    reveal_strlit("Sunset");
    reveal_strlit("sunset");
    assert(ascii_lowercase("Sunset"@) =~= "sunset"@);
    reveal_strlit("Sunrise");
    reveal_strlit("sunrise");
    assert(ascii_lowercase("Sunrise"@) =~= "sunrise"@);
    reveal_strlit("Night");
    reveal_strlit("night");
    assert(ascii_lowercase("Night"@) =~= "night"@);
}

/// A medal time in decimal, or `Not present`.
pub open spec fn optional_time_text(t: Option<u32>) -> Seq<char> {
    match t {
        Some(v) => decimal(v as nat),
        None => "Not present"@,
    }
}

/// The medal times, or `Not present`.
pub open spec fn times_text(t: Option<Times>) -> Seq<char> {
    match t {
        Some(t) => "Bronze: "@ + optional_time_text(t.bronze) + ", Silver: "@ + optional_time_text(
            t.silver,
        ) + ", Gold: "@ + optional_time_text(t.gold) + ", Authortime: "@ + optional_time_text(
            t.authortime,
        ) + ", Authorscore: "@ + optional_time_text(t.authorscore),
        None => "Not present"@,
    }
}

/// Texts separated by `, `.
pub open spec fn list_text(items: Seq<Seq<char>>) -> Seq<char>
    decreases items.len(),
{
    if items.len() == 0 {
        Seq::empty()
    } else if items.len() == 1 {
        items[0]
    } else {
        list_text(items.drop_last()) + ", "@ + items.last()
    }
}

/// A list of one text is that text.
pub proof fn lemma_list_text_single(x: Seq<char>)
    ensures
        list_text(seq![x]) == x,
{
}

/// Joining two non-empty lists: the text of the whole is the text of the first, `, `, then
/// the text of the second; so every item stands in the text on its own, between separators.
pub proof fn lemma_list_text_join(a: Seq<Seq<char>>, b: Seq<Seq<char>>)
    requires
        a.len() > 0,
        b.len() > 0,
    ensures
        list_text(a + b) == list_text(a) + ", "@ + list_text(b),
    decreases b.len(),
{
    assert((a + b).drop_last() =~= a + b.drop_last());
    assert((a + b).last() == b.last());
    if b.len() == 1 {
        assert(a + b.drop_last() =~= a);
    } else {
        lemma_list_text_join(a, b.drop_last());
        assert(list_text(a + b) =~= list_text(a) + ", "@ + (list_text(b.drop_last()) + ", "@
            + b.last()));
    }
}

/// The first lines of a challenge's text: kind, version, uid, name and author.
pub open spec fn challenge_identity_text(c: ChallengeHeaderModel) -> Seq<char> {
    "Map is "@ + map_type_debug_text(c.maptype) + "/"@ + desc_type_debug_text(c.desctype)
        + " made in "@ + version_debug_text(c.mapversion) + "/"@ + c.exever + "\nUID: "@ + c.uid
        + "\nName: "@ + c.name + "\nAuthor: "@ + c.author
}

/// The middle lines of a challenge's text: setting, number of laps and price.
pub open spec fn challenge_setting_text(c: ChallengeHeaderModel) -> Seq<char> {
    "\nSetting: "@ + environment_debug_text(c.envir) + "/"@ + mood_debug_text(c.mood)
        + "\nNumber of laps: "@ + decimal(c.nblaps as nat) + "\nPrice: "@ + decimal(
        c.price as nat,
    )
}

/// The last lines of a challenge's text: times and dependencies.
pub open spec fn challenge_times_text(c: ChallengeHeaderModel) -> Seq<char> {
    "\nTimes: "@ + times_text(c.times) + "\nDependencies["@ + decimal(c.dependencies.len())
        + "]: ["@ + list_text(c.dependencies) + "]"@
}

/// The text of a challenge header: kind, version, identity, setting, laps, price, times
/// and dependencies, one item per line.
pub open spec fn challenge_text(c: ChallengeHeaderModel) -> Seq<char> {
    challenge_identity_text(c) + challenge_setting_text(c) + challenge_times_text(c)
}

/// The text of a whole [`GBX`] value: size and origin, the header information of a
/// challenge, then the binary header and the replay header.
pub open spec fn gbx_text(m: GBXModel) -> Seq<char> {
    "GBX Info Dump (Size="@ + decimal(m.filesize) + "B)\nFrom file="@ + origin_text(m.origin)
        + "\nHeader Infos\n============\n"@ + match m.challenge_header {
        Some(c) => challenge_text(c),
        None => "Not present"@,
    } + "\n\nMagic\n=====\n"@ + binary_header_text(m.bin_header) + "\n\nReplay\n======\n"@
        + match m.replay_header {
        Some(r) => replay_text(r),
        None => "Not present"@,
    }
}

impl GBXOrigin {
    /// Appends the text of the origin to `s`.
    pub fn write_text(&self, s: &mut String)
        ensures
            final(s)@ == old(s)@ + origin_text(self@),
    {
        match self {
            GBXOrigin::File { path } => s.append(path.as_str()),
            GBXOrigin::Buffer => s.append("<buffer>"),
            GBXOrigin::Unknown => s.append("<unknown>"),
            GBXOrigin::Hidden => s.append("<hidden>"),
        }
    }

    /// The text of the origin.
    pub fn to_string(&self) -> (r: String)
        ensures
            r@ == origin_text(self@),
    {
        let mut s = String::new();
        self.write_text(&mut s);
        assert(s@ =~= origin_text(self@));
        s
    }
}

impl GBXVersion {
    /// The name of the version, as its `Debug` rendering shows it.
    pub fn debug_name(&self) -> (r: &'static str)
        ensures
            r@ == version_debug_text(*self),
    {
        match self {
            GBXVersion::Unknown => "Unknown",
            GBXVersion::TMc6 => "TMc6",
            GBXVersion::TMr7 => "TMr7",
        }
    }
}

impl GBXBinaryHeader {
    /// Appends the text of the header to `s`.
    pub fn write_text(&self, s: &mut String)
        ensures
            final(s)@ == old(s)@ + binary_header_text(*self),
    {
        let ghost s0 = s@;
        s.append("v");
        push_decimal(s, self.version as u64);
        s.append(", class id: ");
        push_hex_fixed(s, self.class_id as u64, 8);
        s.append(" (\"");
        match MapClass::from_repr(self.class_id) {
            Some(c) => s.append(c.name()),
            None => s.append("unknown"),
        }
        s.append("\")");
        assert(s@ =~= s0 + binary_header_text(*self));
    }

    /// The text of the header.
    pub fn to_string(&self) -> (r: String)
        ensures
            r@ == binary_header_text(*self),
    {
        let mut s = String::new();
        self.write_text(&mut s);
        assert(s@ =~= binary_header_text(*self));
        s
    }
}

impl ReplayScore {
    /// Appends the text of the score to `s`.
    pub fn write_text(&self, s: &mut String)
        ensures
            final(s)@ == old(s)@ + score_text(*self),
    {
        let ghost s0 = s@;
        s.append("best=");
        push_decimal(s, self.best as u64);
        s.append(", respawns=");
        push_signed_decimal(s, self.respawns as i64);
        s.append(", stuntscore=");
        push_decimal(s, self.stuntscore as u64);
        s.append(", validable=");
        push_bool(s, self.validable);
        assert(s@ =~= s0 + score_text(*self));
    }

    /// The text of the score.
    pub fn to_string(&self) -> (r: String)
        ensures
            r@ == score_text(*self),
    {
        let mut s = String::new();
        self.write_text(&mut s);
        assert(s@ =~= score_text(*self));
        s
    }
}

impl ReplayXMLHeader {
    /// Appends the text of the header to `s`.
    pub fn write_text(&self, s: &mut String)
        ensures
            final(s)@ == old(s)@ + replay_text(self@),
    {
        let ghost s0 = s@;
        s.append("Version: ");
        s.append(self.version.debug_name());
        s.append("\nExever.: ");
        s.append(self.exever.as_str());
        s.append("\nMap: ");
        s.append(self.map_name.as_str());
        s.append("\nScore: ");
        self.score.write_text(s);
        assert(s@ =~= s0 + replay_text(self@));
    }

    /// The text of the header.
    pub fn to_string(&self) -> (r: String)
        ensures
            r@ == replay_text(self@),
    {
        let mut s = String::new();
        self.write_text(&mut s);
        assert(s@ =~= replay_text(self@));
        s
    }
}

impl MapType {
    /// The name of the map type, as its `Debug` rendering shows it.
    pub fn debug_name(&self) -> (r: &'static str)
        ensures
            r@ == map_type_debug_text(*self),
    {
        match self {
            MapType::Challenge => "Challenge",
        }
    }
}

impl DescType {
    /// The name of the race kind, as its `Debug` rendering shows it.
    pub fn debug_name(&self) -> (r: &'static str)
        ensures
            r@ == desc_type_debug_text(*self),
    {
        match self {
            DescType::Race => "Race",
        }
    }
}

impl Environment {
    /// The name of the environment, as its `Debug` rendering shows it.
    pub fn debug_name(&self) -> (r: &'static str)
        ensures
            r@ == environment_debug_text(*self),
    {
        match self {
            Environment::Stadium => "Stadium",
        }
    }
}

impl Mood {
    /// The name of the mood, as its `Debug` rendering shows it.
    pub fn debug_name(&self) -> (r: &'static str)
        ensures
            r@ == mood_debug_text(*self),
    {
        match self {
            Mood::Day => "Day",
            Mood::Sunset => "Sunset",
            Mood::Sunrise => "Sunrise",
            Mood::Night => "Night",
        }
    }
}

/// Appends a medal time in decimal, or `Not present`.
fn write_optional_time(t: Option<u32>, s: &mut String)
    ensures
        final(s)@ == old(s)@ + optional_time_text(t),
{
    match t {
        Some(v) => push_decimal(s, v as u64),
        None => s.append("Not present"),
    }
}

impl Times {
    /// Appends the text of the times to `s`.
    pub fn write_text(&self, s: &mut String)
        ensures
            final(s)@ == old(s)@ + times_text(Some(*self)),
    {
        let ghost s0 = s@;
        s.append("Bronze: ");
        write_optional_time(self.bronze, s);
        s.append(", Silver: ");
        write_optional_time(self.silver, s);
        s.append(", Gold: ");
        write_optional_time(self.gold, s);
        s.append(", Authortime: ");
        write_optional_time(self.authortime, s);
        s.append(", Authorscore: ");
        write_optional_time(self.authorscore, s);
        assert(s@ =~= s0 + times_text(Some(*self)));
    }
}

impl ChallengeXMLHeader {
    /// Appends the file names of the dependencies, separated by `, `.
    fn write_dependencies(&self, s: &mut String)
        ensures
            final(s)@ == old(s)@ + list_text(self@.dependencies),
    {
        let ghost s0 = s@;
        let ghost all = self@.dependencies;
        let n: usize = self.dependencies.len();
        let mut i: usize = 0;
        assert(all.take(0) =~= Seq::<Seq<char>>::empty());
        while i < n
            invariant
                n == self.dependencies@.len(),
                all == dependency_files(self.dependencies@),
                all.len() == n,
                i <= n,
                s@ == s0 + list_text(all.take(i as int)),
            decreases n - i,
        {
            assert(all[i as int] == self.dependencies@[i as int].file@);
            assert(all.take(i + 1).drop_last() =~= all.take(i as int));
            assert(all.take(i + 1).last() == all[i as int]);
            if i > 0 {
                s.append(", ");
            }
            s.append(self.dependencies[i].file.as_str());
            assert(s@ =~= s0 + list_text(all.take(i + 1)));
            i += 1;
        }
        assert(all.take(n as int) =~= all);
    }

    /// Appends the first lines: kind, version, uid, name and author.
    fn write_identity(&self, s: &mut String)
        ensures
            final(s)@ == old(s)@ + challenge_identity_text(self@),
    {
        let ghost s0 = s@;
        s.append("Map is ");
        s.append(self.maptype.debug_name());
        s.append("/");
        s.append(self.desctype.debug_name());
        s.append(" made in ");
        s.append(self.mapversion.debug_name());
        s.append("/");
        s.append(self.exever.as_str());
        s.append("\nUID: ");
        s.append(self.uid.as_str());
        s.append("\nName: ");
        s.append(self.name.as_str());
        s.append("\nAuthor: ");
        s.append(self.author.as_str());
        assert(s@ =~= s0 + challenge_identity_text(self@));
    }

    /// Appends the middle lines: setting, number of laps and price.
    fn write_setting(&self, s: &mut String)
        ensures
            final(s)@ == old(s)@ + challenge_setting_text(self@),
    {
        let ghost s0 = s@;
        s.append("\nSetting: ");
        s.append(self.envir.debug_name());
        s.append("/");
        s.append(self.mood.debug_name());
        s.append("\nNumber of laps: ");
        push_decimal(s, self.nblaps as u64);
        s.append("\nPrice: ");
        push_decimal(s, self.price as u64);
        assert(s@ =~= s0 + challenge_setting_text(self@));
    }

    /// Appends the last lines: times and dependencies.
    fn write_times(&self, s: &mut String)
        ensures
            final(s)@ == old(s)@ + challenge_times_text(self@),
    {
        let ghost s0 = s@;
        s.append("\nTimes: ");
        match &self.times {
            Some(t) => t.write_text(s),
            None => s.append("Not present"),
        }
        s.append("\nDependencies[");
        assert(self@.dependencies.len() == self.dependencies@.len());
        push_decimal(s, self.dependencies.len() as u64);
        s.append("]: [");
        self.write_dependencies(s);
        s.append("]");
        assert(s@ =~= s0 + challenge_times_text(self@));
    }

    /// Appends the text of the header to `s`.
    pub fn write_text(&self, s: &mut String)
        ensures
            final(s)@ == old(s)@ + challenge_text(self@),
    {
        let ghost s0 = s@;
        self.write_identity(s);
        self.write_setting(s);
        self.write_times(s);
        assert(s@ =~= s0 + challenge_text(self@));
    }

    /// The text of the header.
    pub fn to_string(&self) -> (r: String)
        ensures
            r@ == challenge_text(self@),
    {
        let mut s = String::new();
        self.write_text(&mut s);
        assert(s@ =~= challenge_text(self@));
        s
    }
}

impl GBX {
    /// The text of the whole value: size, origin, challenge header information, binary
    /// header and replay header.
    pub fn to_string(&self) -> (r: String)
        ensures
            r@ == gbx_text(self@),
    {
        let mut s = String::new();
        s.append("GBX Info Dump (Size=");
        push_decimal(&mut s, self.filesize as u64);
        s.append("B)\nFrom file=");
        self.origin.write_text(&mut s);
        s.append("\nHeader Infos\n============\n");
        match &self.challenge_header {
            Some(c) => c.write_text(&mut s),
            None => s.append("Not present"),
        }
        s.append("\n\nMagic\n=====\n");
        self.bin_header.write_text(&mut s);
        s.append("\n\nReplay\n======\n");
        match &self.replay_header {
            Some(h) => h.write_text(&mut s),
            None => s.append("Not present"),
        }
        assert(s@ =~= gbx_text(self@));
        s
    }
}

} // verus!
