//! Reading the XML header of a challenge (map) file.
//!
//! The `header`, `ident`, `desc`, `times` and `dep` elements describe the map.
//! [`challenge_from_events`] states the result for every sequence of XML events.
use crate::gbx::{
    default_challenge_model, environment_from_str, map_type_from_str, mood_from_str,
    desc_type_from_str, no_times, unknown_desc_type_message, unknown_environment_message,
    unknown_map_type_message, unknown_mood_message, unknown_version_message, version_from_str,
    dependency_files, ChallengeHeaderModel, ChallengeXMLHeader, DescType, Dependency,
    Environment, GBXVersion, MapType, Mood, Times,
};
use crate::gbx::parser::{ParseError, ParseErrorView};
use crate::text::{decimal, is_ascii_digit, lemma_u32_decimal_round_trip, str_eq, u32_from_str, u32_text, u32_text_error};
use crate::xml_stream::{
    attribute_views, item_views, lemma_views_remove_first, xml_document, xml_items, XmlAttribute, XmlEventView, XmlItem,
};
use vstd::prelude::*;

verus! {

/// The effect of one attribute of the `header` element.
pub open spec fn challenge_header_attr(
    h: ChallengeHeaderModel,
    name: Seq<char>,
    value: Seq<char>,
) -> Result<ChallengeHeaderModel, ParseErrorView> {
    if name == "type"@ {
        match map_type_from_str(value) {
            Some(t) => Ok(ChallengeHeaderModel { maptype: t, ..h }),
            None => Err(ParseErrorView::HeaderTryIntoEnumError(unknown_map_type_message(value))),
        }
    } else if name == "version"@ {
        match version_from_str(value) {
            Some(v) => Ok(ChallengeHeaderModel { mapversion: v, ..h }),
            None => Err(ParseErrorView::HeaderTryIntoEnumError(unknown_version_message(value))),
        }
    } else if name == "exever"@ {
        Ok(ChallengeHeaderModel { exever: value, ..h })
    } else {
        Ok(h)
    }
}

/// The effect of one attribute of the `ident` element.
pub open spec fn challenge_ident_attr(
    h: ChallengeHeaderModel,
    name: Seq<char>,
    value: Seq<char>,
) -> ChallengeHeaderModel {
    if name == "uid"@ {
        ChallengeHeaderModel { uid: value, ..h }
    } else if name == "name"@ {
        ChallengeHeaderModel { name: value, ..h }
    } else if name == "author"@ {
        ChallengeHeaderModel { author: value, ..h }
    } else {
        h
    }
}

/// The effect of one attribute of the `desc` element.
pub open spec fn challenge_desc_attr(
    h: ChallengeHeaderModel,
    name: Seq<char>,
    value: Seq<char>,
) -> Result<ChallengeHeaderModel, ParseErrorView> {
    if name == "envir"@ {
        match environment_from_str(value) {
            Some(e) => Ok(ChallengeHeaderModel { envir: e, ..h }),
            None => Err(
                ParseErrorView::HeaderTryIntoEnumError(unknown_environment_message(value)),
            ),
        }
    } else if name == "mood"@ {
        match mood_from_str(value) {
            Some(m) => Ok(ChallengeHeaderModel { mood: m, ..h }),
            None => Err(ParseErrorView::HeaderTryIntoEnumError(unknown_mood_message(value))),
        }
    } else if name == "type"@ {
        match desc_type_from_str(value) {
            Some(d) => Ok(ChallengeHeaderModel { desctype: d, ..h }),
            None => Err(ParseErrorView::HeaderTryIntoEnumError(unknown_desc_type_message(value))),
        }
    } else if name == "nblaps"@ {
        match u32_text(value) {
            Some(n) => Ok(ChallengeHeaderModel { nblaps: n, ..h }),
            None => Err(ParseErrorView::HeaderValueError(u32_text_error(value))),
        }
    } else if name == "price"@ {
        match u32_text(value) {
            Some(n) => Ok(ChallengeHeaderModel { price: n, ..h }),
            None => Err(ParseErrorView::HeaderValueError(u32_text_error(value))),
        }
    } else {
        Ok(h)
    }
}

/// The effect of one attribute of an element with local name `element` (other than `times`).
pub open spec fn challenge_attr(
    h: ChallengeHeaderModel,
    element: Seq<char>,
    attr: (Seq<char>, Seq<char>),
) -> Result<ChallengeHeaderModel, ParseErrorView> {
    if element == "header"@ {
        challenge_header_attr(h, attr.0, attr.1)
    } else if element == "ident"@ {
        Ok(challenge_ident_attr(h, attr.0, attr.1))
    } else if element == "desc"@ {
        challenge_desc_attr(h, attr.0, attr.1)
    } else if element == "dep"@ && attr.0 == "file"@ {
        Ok(ChallengeHeaderModel { dependencies: h.dependencies.push(attr.1), ..h })
    } else {
        Ok(h)
    }
}

/// The effect of the attributes of an element, read in order; the first error stops the reading.
pub open spec fn challenge_attrs(
    h: ChallengeHeaderModel,
    element: Seq<char>,
    attrs: Seq<(Seq<char>, Seq<char>)>,
) -> Result<ChallengeHeaderModel, ParseErrorView>
    decreases attrs.len(),
{
    if attrs.len() == 0 {
        Ok(h)
    } else {
        match challenge_attrs(h, element, attrs.drop_last()) {
            Ok(h2) => challenge_attr(h2, element, attrs.last()),
            Err(e) => Err(e),
        }
    }
}

/// A medal time after reading `value`: the number where it is one, absent for `-1`,
/// unchanged otherwise.
pub open spec fn time_update(old: Option<u32>, value: Seq<char>) -> Option<u32> {
    match u32_text(value) {
        Some(v) => Some(v),
        None => if value == "-1"@ {
            None
        } else {
            old
        },
    }
}

/// The effect of one attribute of the `times` element.
pub open spec fn times_attr(t: Times, name: Seq<char>, value: Seq<char>) -> Times {
    if name == "bronze"@ {
        Times { bronze: time_update(t.bronze, value), ..t }
    } else if name == "silver"@ {
        Times { silver: time_update(t.silver, value), ..t }
    } else if name == "gold"@ {
        Times { gold: time_update(t.gold, value), ..t }
    } else if name == "authortime"@ {
        Times { authortime: time_update(t.authortime, value), ..t }
    } else if name == "authorscore"@ {
        Times { authorscore: time_update(t.authorscore, value), ..t }
    } else {
        t
    }
}

/// The times read from the attributes of a `times` element, in order.
pub open spec fn times_attrs(t: Times, attrs: Seq<(Seq<char>, Seq<char>)>) -> Times
    decreases attrs.len(),
{
    if attrs.len() == 0 {
        t
    } else {
        let last = attrs.last();
        times_attr(times_attrs(t, attrs.drop_last()), last.0, last.1)
    }
}

/// What has been read of a challenge header so far; `stopped` once an XML error was met.
pub struct ChallengeState {
    pub header: ChallengeHeaderModel,
    pub stopped: bool,
}

/// The effect of one XML event. After an XML error nothing changes any more: the header
/// read so far is the result.
pub open spec fn challenge_event(st: ChallengeState, ev: XmlEventView) -> Result<
    ChallengeState,
    ParseErrorView,
> {
    if st.stopped {
        Ok(st)
    } else {
        match ev {
            XmlEventView::StartElement { name, attributes } => if name == "times"@ {
                Ok(
                    ChallengeState {
                        header: ChallengeHeaderModel {
                            times: Some(times_attrs(no_times(), attributes)),
                            ..st.header
                        },
                        ..st
                    },
                )
            } else {
                match challenge_attrs(st.header, name, attributes) {
                    Ok(h) => Ok(ChallengeState { header: h, ..st }),
                    Err(e) => Err(e),
                }
            },
            XmlEventView::Error(_) => Ok(ChallengeState { stopped: true, ..st }),
            _ => Ok(st),
        }
    }
}

/// The state after reading a sequence of events in order; the first error stops the reading.
pub open spec fn challenge_events(evs: Seq<XmlEventView>) -> Result<ChallengeState, ParseErrorView>
    decreases evs.len(),
{
    if evs.len() == 0 {
        Ok(ChallengeState { header: default_challenge_model(), stopped: false })
    } else {
        match challenge_events(evs.drop_last()) {
            Ok(s) => challenge_event(s, evs.last()),
            Err(e) => Err(e),
        }
    }
}

/// The challenge header read from a sequence of XML events.
pub open spec fn challenge_from_events(evs: Seq<XmlEventView>) -> Result<
    ChallengeHeaderModel,
    ParseErrorView,
> {
    match challenge_events(evs) {
        Ok(st) => Ok(st.header),
        Err(e) => Err(e),
    }
}

/// An error is final: reading more events after one does not change the outcome.
pub proof fn lemma_challenge_error_is_final(evs: Seq<XmlEventView>, more: Seq<XmlEventView>)
    requires
        challenge_events(evs) is Err,
    ensures
        challenge_events(evs + more) == challenge_events(evs),
        challenge_from_events(evs + more) == challenge_from_events(evs),
{
    assert((evs + more).take(evs.len() as int) =~= evs);
    lemma_challenge_events_stop(evs + more, evs.len() as int);
}

/// An XML error ends the reading without failing it: the header read before the error is
/// the result, whatever follows.
pub proof fn lemma_challenge_xml_error_ends_reading(
    evs: Seq<XmlEventView>,
    error: xml::reader::Error,
    more: Seq<XmlEventView>,
)
    requires
        challenge_events(evs) matches Ok(st) && !st.stopped,
    ensures
        challenge_from_events(evs.push(XmlEventView::Error(error)) + more) == challenge_from_events(evs),
{
    let all: Seq<XmlEventView> = evs.push(XmlEventView::Error(error)) + more;
    let k: int = evs.len() as int + 1;
    assert(all.take(k).drop_last() =~= evs);
    assert(all.take(k).last() == XmlEventView::Error(error));
    lemma_challenge_events_stopped(all, k as int);
}

/// The lengths and first letters of the element and attribute names, which tell them apart.
proof fn lemma_challenge_names_known()
    ensures
        "header"@.len() == 6 && "header"@[0] == 'h',
        "ident"@.len() == 5 && "ident"@[0] == 'i',
        "desc"@.len() == 4 && "desc"@[0] == 'd',
        "dep"@.len() == 3 && "dep"@[0] == 'd',
        "file"@.len() == 4 && "file"@[0] == 'f',
        "type"@.len() == 4 && "type"@[0] == 't',
        "version"@.len() == 7 && "version"@[0] == 'v',
        "exever"@.len() == 6 && "exever"@[0] == 'e',
        "uid"@.len() == 3 && "uid"@[0] == 'u',
        "name"@.len() == 4 && "name"@[0] == 'n',
        "author"@.len() == 6 && "author"@[0] == 'a',
        "envir"@.len() == 5 && "envir"@[0] == 'e',
        "mood"@.len() == 4 && "mood"@[0] == 'm',
        "nblaps"@.len() == 6 && "nblaps"@[0] == 'n',
        "price"@.len() == 5 && "price"@[0] == 'p',
        "times"@.len() == 5 && "times"@[0] == 't',
{
    reveal_strlit("header");
    reveal_strlit("ident");
    reveal_strlit("desc");
    reveal_strlit("dep");
    reveal_strlit("file");
    reveal_strlit("type");
    reveal_strlit("version");
    reveal_strlit("exever");
    reveal_strlit("uid");
    reveal_strlit("name");
    reveal_strlit("author");
    reveal_strlit("envir");
    reveal_strlit("mood");
    reveal_strlit("nblaps");
    reveal_strlit("price");
    reveal_strlit("times");
}

/// Each attribute of the `header`, `ident`, `desc` and `dep` elements sets its own field of
/// the header and leaves every other field as it was; a number that does not read is an
/// error.
pub proof fn lemma_challenge_attr_sets_its_field(h: ChallengeHeaderModel, value: Seq<char>)
    ensures
        challenge_attr(h, "header"@, ("exever"@, value)) == Ok::<ChallengeHeaderModel, ParseErrorView>(
            ChallengeHeaderModel { exever: value, ..h },
        ),
        map_type_from_str(value) matches Some(t) ==> challenge_attr(h, "header"@, ("type"@, value))
            == Ok::<ChallengeHeaderModel, ParseErrorView>(ChallengeHeaderModel { maptype: t, ..h }),
        version_from_str(value) matches Some(v) ==> challenge_attr(h, "header"@, ("version"@, value))
            == Ok::<ChallengeHeaderModel, ParseErrorView>(ChallengeHeaderModel { mapversion: v, ..h }),
        challenge_attr(h, "ident"@, ("uid"@, value)) == Ok::<ChallengeHeaderModel, ParseErrorView>(
            ChallengeHeaderModel { uid: value, ..h },
        ),
        challenge_attr(h, "ident"@, ("name"@, value)) == Ok::<ChallengeHeaderModel, ParseErrorView>(
            ChallengeHeaderModel { name: value, ..h },
        ),
        challenge_attr(h, "ident"@, ("author"@, value)) == Ok::<ChallengeHeaderModel, ParseErrorView>(
            ChallengeHeaderModel { author: value, ..h },
        ),
        environment_from_str(value) matches Some(e) ==> challenge_attr(h, "desc"@, ("envir"@, value))
            == Ok::<ChallengeHeaderModel, ParseErrorView>(ChallengeHeaderModel { envir: e, ..h }),
        mood_from_str(value) matches Some(m) ==> challenge_attr(h, "desc"@, ("mood"@, value))
            == Ok::<ChallengeHeaderModel, ParseErrorView>(ChallengeHeaderModel { mood: m, ..h }),
        desc_type_from_str(value) matches Some(d) ==> challenge_attr(h, "desc"@, ("type"@, value))
            == Ok::<ChallengeHeaderModel, ParseErrorView>(ChallengeHeaderModel { desctype: d, ..h }),
        u32_text(value) matches Some(n) ==> challenge_attr(h, "desc"@, ("nblaps"@, value))
            == Ok::<ChallengeHeaderModel, ParseErrorView>(ChallengeHeaderModel { nblaps: n, ..h }),
        u32_text(value) matches Some(n) ==> challenge_attr(h, "desc"@, ("price"@, value))
            == Ok::<ChallengeHeaderModel, ParseErrorView>(ChallengeHeaderModel { price: n, ..h }),
        u32_text(value) is None ==> challenge_attr(h, "desc"@, ("nblaps"@, value)) == Err::<
            ChallengeHeaderModel,
            ParseErrorView,
        >(ParseErrorView::HeaderValueError(u32_text_error(value))),
        u32_text(value) is None ==> challenge_attr(h, "desc"@, ("price"@, value)) == Err::<
            ChallengeHeaderModel,
            ParseErrorView,
        >(ParseErrorView::HeaderValueError(u32_text_error(value))),
        challenge_attr(h, "dep"@, ("file"@, value)) == Ok::<ChallengeHeaderModel, ParseErrorView>(
            ChallengeHeaderModel { dependencies: h.dependencies.push(value), ..h },
        ),
{
    lemma_challenge_names_known();
}

/// Reading a `desc` element whose `nblaps` attribute is the decimal text of `n` gives a
/// header with `n` laps that is otherwise the header read before it (its price too); and
/// the same for a `price` attribute.
pub proof fn lemma_challenge_desc_numbers(evs: Seq<XmlEventView>, n: u32)
    requires
        challenge_events(evs) matches Ok(st) && !st.stopped,
    ensures
        challenge_events(evs) matches Ok(st) ==> challenge_from_events(
            evs.push(
                XmlEventView::StartElement {
                    name: "desc"@,
                    attributes: seq![("nblaps"@, decimal(n as nat))],
                },
            ),
        ) == Ok::<ChallengeHeaderModel, ParseErrorView>(
            ChallengeHeaderModel { nblaps: n, ..st.header },
        ),
        challenge_events(evs) matches Ok(st) ==> challenge_from_events(
            evs.push(
                XmlEventView::StartElement {
                    name: "desc"@,
                    attributes: seq![("price"@, decimal(n as nat))],
                },
            ),
        ) == Ok::<ChallengeHeaderModel, ParseErrorView>(
            ChallengeHeaderModel { price: n, ..st.header },
        ),
{
    lemma_u32_decimal_round_trip(n);
    lemma_challenge_names_known();
    let a = seq![("nblaps"@, decimal(n as nat))];
    let b = seq![("price"@, decimal(n as nat))];
    assert(a.drop_last() =~= Seq::<(Seq<char>, Seq<char>)>::empty());
    assert(b.drop_last() =~= Seq::<(Seq<char>, Seq<char>)>::empty());
    let ea = XmlEventView::StartElement { name: "desc"@, attributes: a };
    let eb = XmlEventView::StartElement { name: "desc"@, attributes: b };
    assert(evs.push(ea).drop_last() =~= evs);
    assert(evs.push(eb).drop_last() =~= evs);
    let h = challenge_events(evs)->Ok_0.header;
    assert(a.len() == 1 && b.len() == 1);
    assert(challenge_attrs(h, "desc"@, a.drop_last()) == Ok::<ChallengeHeaderModel, ParseErrorView>(h));
    assert(challenge_attrs(h, "desc"@, b.drop_last()) == Ok::<ChallengeHeaderModel, ParseErrorView>(h));
    assert(challenge_attrs(h, "desc"@, a) == challenge_attr(h, "desc"@, a.last()));
    assert(challenge_attrs(h, "desc"@, b) == challenge_attr(h, "desc"@, b.last()));
    lemma_challenge_attr_sets_its_field(h, decimal(n as nat));
}

/// Each attribute of the `times` element sets its own medal time: the decimal text of a
/// number gives that number, `-1` gives no time, and the other times stay as they were.
pub proof fn lemma_times_attr_sets_its_time(t: Times, n: u32)
    ensures
        times_attr(t, "bronze"@, decimal(n as nat)) == (Times { bronze: Some(n), ..t }),
        times_attr(t, "bronze"@, "-1"@) == (Times { bronze: None, ..t }),
        times_attr(t, "silver"@, decimal(n as nat)) == (Times { silver: Some(n), ..t }),
        times_attr(t, "silver"@, "-1"@) == (Times { silver: None, ..t }),
        times_attr(t, "gold"@, decimal(n as nat)) == (Times { gold: Some(n), ..t }),
        times_attr(t, "gold"@, "-1"@) == (Times { gold: None, ..t }),
        times_attr(t, "authortime"@, decimal(n as nat)) == (Times { authortime: Some(n), ..t }),
        times_attr(t, "authortime"@, "-1"@) == (Times { authortime: None, ..t }),
        times_attr(t, "authorscore"@, decimal(n as nat)) == (Times { authorscore: Some(n), ..t }),
        times_attr(t, "authorscore"@, "-1"@) == (Times { authorscore: None, ..t }),
{
    lemma_u32_decimal_round_trip(n);
    reveal_strlit("bronze");
    reveal_strlit("silver");
    reveal_strlit("gold");
    reveal_strlit("authortime");
    reveal_strlit("authorscore");
    reveal_strlit("-1");
    assert(u32_text("-1"@) is None) by {
        reveal_strlit("-1");
        assert("-1"@.len() == 2 && "-1"@[0] == '-');
        assert(!is_ascii_digit("-1"@[0]));
    }
    assert("bronze"@.len() == 6 && "bronze"@[0] == 'b');
    assert("silver"@.len() == 6 && "silver"@[0] == 's');
    assert("gold"@.len() == 4 && "gold"@[0] == 'g');
    assert("authortime"@.len() == 10 && "authortime"@[0] == 'a');
    assert("authorscore"@.len() == 11 && "authorscore"@[0] == 'a');
}

/// Applies one attribute of an element with local name `element` (other than `times`).
fn apply_challenge_attr(header: &mut ChallengeXMLHeader, element: &str, attr: XmlAttribute) -> (r:
    Result<(), ParseError>)
    ensures
        match r {
            Ok(_) => challenge_attr(old(header)@, element@, attr@) == Ok::<
                ChallengeHeaderModel,
                ParseErrorView,
            >(final(header)@),
            Err(e) => challenge_attr(old(header)@, element@, attr@) == Err::<
                ChallengeHeaderModel,
                ParseErrorView,
            >(e@),
        },
{
    let XmlAttribute { name, value } = attr;
    if str_eq(element, "header") {
        if str_eq(name.as_str(), "type") {
            match MapType::try_from(value.as_str()) {
                Ok(t) => header.maptype = t,
                Err(m) => return Err(ParseError::HeaderTryIntoEnumError(m)),
            }
        } else if str_eq(name.as_str(), "version") {
            match GBXVersion::try_from(value.as_str()) {
                Ok(v) => header.mapversion = v,
                Err(m) => return Err(ParseError::HeaderTryIntoEnumError(m)),
            }
        } else if str_eq(name.as_str(), "exever") {
            header.exever = value;
        }
    } else if str_eq(element, "ident") {
        if str_eq(name.as_str(), "uid") {
            header.uid = value;
        } else if str_eq(name.as_str(), "name") {
            header.name = value;
        } else if str_eq(name.as_str(), "author") {
            header.author = value;
        }
    } else if str_eq(element, "desc") {
        if str_eq(name.as_str(), "envir") {
            match Environment::try_from(value.as_str()) {
                Ok(e) => header.envir = e,
                Err(m) => return Err(ParseError::HeaderTryIntoEnumError(m)),
            }
        } else if str_eq(name.as_str(), "mood") {
            match Mood::try_from(value.as_str()) {
                Ok(m) => header.mood = m,
                Err(m) => return Err(ParseError::HeaderTryIntoEnumError(m)),
            }
        } else if str_eq(name.as_str(), "type") {
            match DescType::try_from(value.as_str()) {
                Ok(d) => header.desctype = d,
                Err(m) => return Err(ParseError::HeaderTryIntoEnumError(m)),
            }
        } else if str_eq(name.as_str(), "nblaps") {
            match u32_from_str(value.as_str()) {
                Ok(n) => header.nblaps = n,
                Err(e) => return Err(ParseError::HeaderValueError(e)),
            }
        } else if str_eq(name.as_str(), "price") {
            match u32_from_str(value.as_str()) {
                Ok(n) => header.price = n,
                Err(e) => return Err(ParseError::HeaderValueError(e)),
            }
        }
    } else if str_eq(element, "dep") {
        if str_eq(name.as_str(), "file") {
            let ghost before = header.dependencies@;
            header.dependencies.push(Dependency { file: value });
            assert(dependency_files(header.dependencies@) =~= dependency_files(before).push(
                value@,
            ));
        }
    }
    Ok(())
}

/// Once reading the first `k` attributes fails, reading all of them fails the same way.
proof fn lemma_challenge_attrs_stop(
    h: ChallengeHeaderModel,
    element: Seq<char>,
    attrs: Seq<(Seq<char>, Seq<char>)>,
    k: int,
)
    requires
        0 <= k <= attrs.len(),
        challenge_attrs(h, element, attrs.take(k)) is Err,
    ensures
        challenge_attrs(h, element, attrs) == challenge_attrs(h, element, attrs.take(k)),
    decreases attrs.len() - k,
{
    if k == attrs.len() {
        assert(attrs.take(k) =~= attrs);
    } else {
        assert(attrs.take(k + 1).drop_last() =~= attrs.take(k));
        lemma_challenge_attrs_stop(h, element, attrs, k + 1);
    }
}

/// Applies the attributes of an element with local name `element` (other than `times`), in order.
fn apply_challenge_attrs(
    header: &mut ChallengeXMLHeader,
    element: &str,
    attributes: Vec<XmlAttribute>,
) -> (r: Result<(), ParseError>)
    ensures
        match r {
            Ok(_) => challenge_attrs(old(header)@, element@, attribute_views(attributes@)) == Ok::<
                ChallengeHeaderModel,
                ParseErrorView,
            >(final(header)@),
            Err(e) => challenge_attrs(old(header)@, element@, attribute_views(attributes@))
                == Err::<ChallengeHeaderModel, ParseErrorView>(e@),
        },
{
    let n: usize = attributes.len();
    let ghost all = attribute_views(attributes@);
    assert(all.len() == n);
    let ghost start = header@;
    let mut rest = attributes;
    let mut k: usize = 0;
    assert(all.take(0) =~= Seq::<(Seq<char>, Seq<char>)>::empty());
    while rest.len() > 0
        invariant
            k <= all.len(),
            all == attribute_views(attributes@),
            all.len() == n,
            start == old(header)@,
            attribute_views(rest@) == all.skip(k as int),
            challenge_attrs(start, element@, all.take(k as int)) == Ok::<
                ChallengeHeaderModel,
                ParseErrorView,
            >(header@),
        decreases rest.len(),
    {
        let ghost rest_before = rest@;
        let attr = rest.remove(0);
        proof {
            lemma_views_remove_first(rest_before, all, k as int);
        }
        let ghost h_k = header@;
        match apply_challenge_attr(header, element, attr) {
            Ok(_) => {},
            Err(e) => {
                proof {
                    assert(challenge_attrs(start, element@, all.take(k + 1)) == challenge_attr(
                        h_k,
                        element@,
                        all[k as int],
                    ));
                    lemma_challenge_attrs_stop(start, element@, all, (k + 1) as int);
                }
                return Err(e);
            },
        }
        k = k + 1;
    }
    assert(all.take(k as int) =~= all);
    Ok(())
}

/// A medal time after reading `value`.
fn time_value(old: Option<u32>, value: &str) -> (r: Option<u32>)
    ensures
        r == time_update(old, value@),
{
    match u32_from_str(value) {
        Ok(v) => Some(v),
        Err(_) => if str_eq(value, "-1") {
            None
        } else {
            old
        },
    }
}

/// Reads the times from the attributes of a `times` element.
fn read_times(attributes: Vec<XmlAttribute>) -> (r: Times)
    ensures
        r == times_attrs(no_times(), attribute_views(attributes@)),
{
    let n: usize = attributes.len();
    let ghost all = attribute_views(attributes@);
    assert(all.len() == n);
    let mut times = Times::default();
    let mut rest = attributes;
    let mut k: usize = 0;
    assert(all.take(0) =~= Seq::<(Seq<char>, Seq<char>)>::empty());
    while rest.len() > 0
        invariant
            k <= all.len(),
            all == attribute_views(attributes@),
            all.len() == n,
            attribute_views(rest@) == all.skip(k as int),
            times_attrs(no_times(), all.take(k as int)) == times,
        decreases rest.len(),
    {
        let ghost rest_before = rest@;
        let attr = rest.remove(0);
        proof {
            lemma_views_remove_first(rest_before, all, k as int);
        }
        let name = attr.name.as_str();
        let value = attr.value.as_str();
        if str_eq(name, "bronze") {
            times.bronze = time_value(times.bronze, value);
        } else if str_eq(name, "silver") {
            times.silver = time_value(times.silver, value);
        } else if str_eq(name, "gold") {
            times.gold = time_value(times.gold, value);
        } else if str_eq(name, "authortime") {
            times.authortime = time_value(times.authortime, value);
        } else if str_eq(name, "authorscore") {
            times.authorscore = time_value(times.authorscore, value);
        }
        k = k + 1;
    }
    assert(all.take(k as int) =~= all);
    times
}

/// Once reading the first `k` events fails, reading all of them fails the same way.
proof fn lemma_challenge_events_stop(evs: Seq<XmlEventView>, k: int)
    requires
        0 <= k <= evs.len(),
        challenge_events(evs.take(k)) is Err,
    ensures
        challenge_events(evs) == challenge_events(evs.take(k)),
    decreases evs.len() - k,
{
    if k == evs.len() {
        assert(evs.take(k) =~= evs);
    } else {
        assert(evs.take(k + 1).drop_last() =~= evs.take(k));
        lemma_challenge_events_stop(evs, k + 1);
    }
}

/// Once an XML error has stopped the reading after `k` events, the later events change nothing.
proof fn lemma_challenge_events_stopped(evs: Seq<XmlEventView>, k: int)
    requires
        0 <= k <= evs.len(),
        challenge_events(evs.take(k)) matches Ok(st) && st.stopped,
    ensures
        challenge_events(evs) == challenge_events(evs.take(k)),
    decreases evs.len() - k,
{
    if k == evs.len() {
        assert(evs.take(k) =~= evs);
    } else {
        assert(evs.take(k + 1).drop_last() =~= evs.take(k));
        lemma_challenge_events_stopped(evs, k + 1);
    }
}

/// Reads the challenge header from the events of its XML document.
pub fn challenge_header_from_items(items: Vec<XmlItem>) -> (r: Result<
    ChallengeXMLHeader,
    ParseError,
>)
    ensures
        match r {
            Ok(h) => challenge_from_events(item_views(items@)) == Ok::<
                ChallengeHeaderModel,
                ParseErrorView,
            >(h@),
            Err(e) => challenge_from_events(item_views(items@)) == Err::<
                ChallengeHeaderModel,
                ParseErrorView,
            >(e@),
        },
{
    let n: usize = items.len();
    let ghost all = item_views(items@);
    assert(all.len() == n);
    let mut rest = items;
    let mut header = ChallengeXMLHeader::default();
    let mut k: usize = 0;
    assert(all.take(0) =~= Seq::<XmlEventView>::empty());
    while rest.len() > 0
        invariant
            k <= all.len(),
            all == item_views(items@),
            all.len() == n,
            item_views(rest@) == all.skip(k as int),
            challenge_events(all.take(k as int)) == Ok::<ChallengeState, ParseErrorView>(
                ChallengeState { header: header@, stopped: false },
            ),
        decreases rest.len(),
    {
        let ghost rest_before = rest@;
        let item = rest.remove(0);
        proof {
            lemma_views_remove_first(rest_before, all, k as int);
        }
        let ghost h_k = header@;
        match item {
            XmlItem::StartElement { name, attributes } => {
                if str_eq(name.as_str(), "times") {
                    header.times = Some(read_times(attributes));
                } else {
                    match apply_challenge_attrs(&mut header, name.as_str(), attributes) {
                        Ok(_) => {},
                        Err(e) => {
                            proof {
                                lemma_challenge_events_stop(all, (k + 1) as int);
                            }
                            return Err(e);
                        },
                    }
                }
            },
            XmlItem::Error(_) => {
                proof {
                    lemma_challenge_events_stopped(all, (k + 1) as int);
                }
                return Ok(header);
            },
            _ => {},
        }
        k = k + 1;
    }
    assert(all.take(k as int) =~= all);
    Ok(header)
}

/// Parses the XML header of a challenge file.
///
/// An XML error ends the reading: what was read before it is the result.
pub fn parse_challenge_header_xml(buf: &[u8]) -> (r: Result<ChallengeXMLHeader, ParseError>)
    ensures
        match r {
            Ok(h) => challenge_from_events(xml_document(buf@)) == Ok::<
                ChallengeHeaderModel,
                ParseErrorView,
            >(h@),
            Err(e) => challenge_from_events(xml_document(buf@)) == Err::<
                ChallengeHeaderModel,
                ParseErrorView,
            >(e@),
        },
{
    challenge_header_from_items(xml_items(buf))
}

} // verus!
