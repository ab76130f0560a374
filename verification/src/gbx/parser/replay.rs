//! Reading the XML header of a replay file.
//!
//! The header is a `header` element whose `type` attribute is `replay`; its `map` and
//! `times` elements give the map and the score. [`replay_from_events`] states the result
//! for every sequence of XML events.
use crate::gbx::{
    default_replay_model, unknown_version_message, version_from_str, GBXVersion,
    ReplayHeaderModel, ReplayScore, ReplayXMLHeader,
};
use crate::gbx::parser::{ParseError, ParseErrorView};
use crate::text::{i32_from_str, str_eq, u32_from_str, i32_text, u32_text, i32_text_error, u32_text_error};
use crate::xml_stream::{
    attribute_views, item_views, lemma_views_remove_first, xml_document, xml_items, XmlAttribute, XmlEventView, XmlItem,
};
use vstd::prelude::*;

verus! {

/// What has been read of a replay header so far.
pub struct ReplayState {
    pub header: ReplayHeaderModel,
    pub is_replay: bool,
}

/// The state before any event: a default header, not yet known to be a replay.
pub open spec fn initial_replay_state() -> ReplayState {
    ReplayState { header: default_replay_model(), is_replay: false }
}

/// The state with the score replaced.
pub open spec fn with_score(st: ReplayState, score: ReplayScore) -> ReplayState {
    ReplayState { header: ReplayHeaderModel { score, ..st.header }, ..st }
}

/// The effect of one attribute of the `header` element.
pub open spec fn replay_header_attr(st: ReplayState, name: Seq<char>, value: Seq<char>) -> Result<
    ReplayState,
    ParseErrorView,
> {
    if name == "type"@ {
        if value == "replay"@ {
            Ok(ReplayState { is_replay: true, ..st })
        } else {
            Ok(st)
        }
    } else if name == "version"@ {
        match version_from_str(value) {
            Some(v) => Ok(ReplayState { header: ReplayHeaderModel { version: v, ..st.header }, ..st }),
            None => Err(ParseErrorView::HeaderTryIntoEnumError(unknown_version_message(value))),
        }
    } else if name == "exever"@ {
        Ok(ReplayState { header: ReplayHeaderModel { exever: value, ..st.header }, ..st })
    } else {
        Ok(st)
    }
}

/// The effect of one attribute of the `map` element.
pub open spec fn replay_map_attr(st: ReplayState, name: Seq<char>, value: Seq<char>) -> ReplayState {
    if name == "uid"@ {
        ReplayState { header: ReplayHeaderModel { map_uid: value, ..st.header }, ..st }
    } else if name == "name"@ {
        ReplayState { header: ReplayHeaderModel { map_name: value, ..st.header }, ..st }
    } else {
        st
    }
}

/// The effect of one attribute of the `times` element: each known attribute must hold a
/// number that fits its field.
pub open spec fn replay_times_attr(st: ReplayState, name: Seq<char>, value: Seq<char>) -> Result<
    ReplayState,
    ParseErrorView,
> {
    let score = st.header.score;
    if name == "best"@ {
        match u32_text(value) {
            Some(v) => Ok(with_score(st, ReplayScore { best: v, ..score })),
            None => Err(ParseErrorView::HeaderValueError(u32_text_error(value))),
        }
    } else if name == "respawns"@ {
        match i32_text(value) {
            Some(v) => Ok(with_score(st, ReplayScore { respawns: v, ..score })),
            None => Err(ParseErrorView::HeaderValueError(i32_text_error(value))),
        }
    } else if name == "stuntscore"@ {
        match u32_text(value) {
            Some(v) => Ok(with_score(st, ReplayScore { stuntscore: v, ..score })),
            None => Err(ParseErrorView::HeaderValueError(u32_text_error(value))),
        }
    } else if name == "validable"@ {
        match u32_text(value) {
            Some(v) => Ok(with_score(st, ReplayScore { validable: v != 0, ..score })),
            None => Err(ParseErrorView::HeaderValueError(u32_text_error(value))),
        }
    } else {
        Ok(st)
    }
}

/// The effect of one attribute of an element with local name `element`.
pub open spec fn replay_attr(st: ReplayState, element: Seq<char>, attr: (Seq<char>, Seq<char>)) -> Result<
    ReplayState,
    ParseErrorView,
> {
    if element == "header"@ {
        replay_header_attr(st, attr.0, attr.1)
    } else if element == "map"@ {
        Ok(replay_map_attr(st, attr.0, attr.1))
    } else if element == "times"@ {
        replay_times_attr(st, attr.0, attr.1)
    } else {
        Ok(st)
    }
}

/// The effect of the attributes of an element, read in order; the first error stops the reading.
pub open spec fn replay_attrs(
    st: ReplayState,
    element: Seq<char>,
    attrs: Seq<(Seq<char>, Seq<char>)>,
) -> Result<ReplayState, ParseErrorView>
    decreases attrs.len(),
{
    if attrs.len() == 0 {
        Ok(st)
    } else {
        match replay_attrs(st, element, attrs.drop_last()) {
            Ok(s) => replay_attr(s, element, attrs.last()),
            Err(e) => Err(e),
        }
    }
}

/// The effect of one XML event: an element start reads its attributes, an XML error stops
/// the reading with that error, any other event changes nothing.
pub open spec fn replay_event(st: ReplayState, ev: XmlEventView) -> Result<ReplayState, ParseErrorView> {
    match ev {
        XmlEventView::StartElement { name, attributes } => replay_attrs(st, name, attributes),
        XmlEventView::Error(e) => Err(ParseErrorView::XMLParseError(e)),
        _ => Ok(st),
    }
}

/// The state after reading a sequence of events in order; the first error stops the reading.
pub open spec fn replay_events(evs: Seq<XmlEventView>) -> Result<ReplayState, ParseErrorView>
    decreases evs.len(),
{
    if evs.len() == 0 {
        Ok(initial_replay_state())
    } else {
        match replay_events(evs.drop_last()) {
            Ok(s) => replay_event(s, evs.last()),
            Err(e) => Err(e),
        }
    }
}

/// The replay header read from a sequence of XML events: an error where reading failed,
/// `HeaderNotFound` where no `header` element said `type='replay'`.
pub open spec fn replay_from_events(evs: Seq<XmlEventView>) -> Result<ReplayHeaderModel, ParseErrorView> {
    match replay_events(evs) {
        Ok(st) => if st.is_replay {
            Ok(st.header)
        } else {
            Err(ParseErrorView::HeaderNotFound)
        },
        Err(e) => Err(e),
    }
}

/// Whether an event is the start of a `header` element with the attribute `type='replay'`.
pub open spec fn declares_replay(ev: XmlEventView) -> bool {
    match ev {
        XmlEventView::StartElement { name, attributes } => name == "header"@ && exists|j: int|
            0 <= j < attributes.len() && #[trigger] attributes[j] == ("type"@, "replay"@),
        _ => false,
    }
}

/// Whether some event of the sequence is such a start.
pub open spec fn some_event_declares_replay(evs: Seq<XmlEventView>) -> bool {
    exists|i: int| 0 <= i < evs.len() && #[trigger] declares_replay(evs[i])
}

/// Reading attributes marks the state as a replay exactly when it was one already or one of
/// them is `type='replay'` on a `header` element.
proof fn lemma_replay_attrs_mark(
    st: ReplayState,
    element: Seq<char>,
    attrs: Seq<(Seq<char>, Seq<char>)>,
)
    ensures
        replay_attrs(st, element, attrs) matches Ok(st2) ==> (st2.is_replay <==> (st.is_replay || (
        element == "header"@ && exists|j: int|
            0 <= j < attrs.len() && #[trigger] attrs[j] == ("type"@, "replay"@)))),
    decreases attrs.len(),
{
    if attrs.len() > 0 {
        let prefix = attrs.drop_last();
        lemma_replay_attrs_mark(st, element, prefix);
        if let Ok(s1) = replay_attrs(st, element, prefix) {
            if let Ok(s2) = replay_attrs(st, element, attrs) {
                let last = attrs.last();
                assert(attrs[attrs.len() - 1] == last);
                if element == "header"@ && exists|j: int|
                    0 <= j < prefix.len() && #[trigger] prefix[j] == ("type"@, "replay"@) {
                    let j: int = choose|j: int|
                        0 <= j < prefix.len() && #[trigger] prefix[j] == ("type"@, "replay"@);
                    assert(attrs[j] == prefix[j]);
                }
                if element == "header"@ && exists|j: int|
                    0 <= j < attrs.len() && #[trigger] attrs[j] == ("type"@, "replay"@) {
                    let j: int = choose|j: int|
                        0 <= j < attrs.len() && #[trigger] attrs[j] == ("type"@, "replay"@);
                    if j < attrs.len() - 1 {
                        assert(prefix[j] == attrs[j]);
                    }
                }
            }
        }
    }
}

/// Reading events marks the state as a replay exactly when one of them declares a replay.
proof fn lemma_replay_events_mark(evs: Seq<XmlEventView>)
    ensures
        replay_events(evs) matches Ok(st) ==> (st.is_replay <==> some_event_declares_replay(evs)),
    decreases evs.len(),
{
    if evs.len() > 0 {
        let prefix = evs.drop_last();
        lemma_replay_events_mark(prefix);
        let last = evs.last();
        assert(evs[evs.len() - 1] == last);
        if let Ok(s1) = replay_events(prefix) {
            match last {
                XmlEventView::StartElement { name, attributes } => {
                    lemma_replay_attrs_mark(s1, name, attributes);
                },
                _ => {},
            }
            if replay_events(evs) is Ok {
                assert(declares_replay(evs[evs.len() - 1]) == declares_replay(last));
                if some_event_declares_replay(prefix) {
                    let i: int = choose|i: int| 0 <= i < prefix.len() && #[trigger] declares_replay(
                        prefix[i],
                    );
                    assert(evs[i] == prefix[i]);
                }
                if some_event_declares_replay(evs) {
                    let i: int = choose|i: int| 0 <= i < evs.len() && #[trigger] declares_replay(
                        evs[i],
                    );
                    if i < evs.len() - 1 {
                        assert(prefix[i] == evs[i]);
                    }
                }
            }
        }
    }
}

/// The lengths and first letters of the element and attribute names, which tell them apart.
proof fn lemma_replay_names_known()
    ensures
        "header"@.len() == 6 && "header"@[0] == 'h',
        "map"@.len() == 3 && "map"@[0] == 'm',
        "times"@.len() == 5 && "times"@[0] == 't',
        "type"@.len() == 4 && "type"@[0] == 't',
        "version"@.len() == 7 && "version"@[0] == 'v',
        "exever"@.len() == 6 && "exever"@[0] == 'e',
        "uid"@.len() == 3 && "uid"@[0] == 'u',
        "name"@.len() == 4 && "name"@[0] == 'n',
        "best"@.len() == 4 && "best"@[0] == 'b',
        "respawns"@.len() == 8 && "respawns"@[0] == 'r',
        "stuntscore"@.len() == 10 && "stuntscore"@[0] == 's',
        "validable"@.len() == 9 && "validable"@[0] == 'v',
        "replay"@.len() == 6 && "replay"@[0] == 'r',
{
    reveal_strlit("header");
    reveal_strlit("map");
    reveal_strlit("times");
    reveal_strlit("type");
    reveal_strlit("version");
    reveal_strlit("exever");
    reveal_strlit("uid");
    reveal_strlit("name");
    reveal_strlit("best");
    reveal_strlit("respawns");
    reveal_strlit("stuntscore");
    reveal_strlit("validable");
    reveal_strlit("replay");
}

/// Each attribute of the `header`, `map` and `times` elements sets its own field of the
/// replay header and leaves every other field as it was; a number that does not read is an
/// error.
pub proof fn lemma_replay_attr_sets_its_field(st: ReplayState, value: Seq<char>)
    ensures
        replay_attr(st, "header"@, ("type"@, "replay"@)) == Result::<ReplayState, ParseErrorView>::Ok(
            ReplayState { is_replay: true, ..st },
        ),
        value != "replay"@ ==> replay_attr(st, "header"@, ("type"@, value)) == Result::<ReplayState, ParseErrorView>::Ok(st),
        version_from_str(value) matches Some(v) ==> replay_attr(st, "header"@, ("version"@, value))
            == Result::<ReplayState, ParseErrorView>::Ok(ReplayState { header: ReplayHeaderModel { version: v, ..st.header }, ..st }),
        replay_attr(st, "header"@, ("exever"@, value)) == Result::<ReplayState, ParseErrorView>::Ok(
            ReplayState { header: ReplayHeaderModel { exever: value, ..st.header }, ..st },
        ),
        replay_attr(st, "map"@, ("uid"@, value)) == Result::<ReplayState, ParseErrorView>::Ok(
            ReplayState { header: ReplayHeaderModel { map_uid: value, ..st.header }, ..st },
        ),
        replay_attr(st, "map"@, ("name"@, value)) == Result::<ReplayState, ParseErrorView>::Ok(
            ReplayState { header: ReplayHeaderModel { map_name: value, ..st.header }, ..st },
        ),
        u32_text(value) matches Some(n) ==> replay_attr(st, "times"@, ("best"@, value)) == Result::<ReplayState, ParseErrorView>::Ok(
            with_score(st, ReplayScore { best: n, ..st.header.score }),
        ),
        i32_text(value) matches Some(n) ==> replay_attr(st, "times"@, ("respawns"@, value)) == Result::<ReplayState, ParseErrorView>::Ok(
            with_score(st, ReplayScore { respawns: n, ..st.header.score }),
        ),
        u32_text(value) matches Some(n) ==> replay_attr(st, "times"@, ("stuntscore"@, value)) == Result::<ReplayState, ParseErrorView>::Ok(
            with_score(st, ReplayScore { stuntscore: n, ..st.header.score }),
        ),
        u32_text(value) matches Some(n) ==> replay_attr(st, "times"@, ("validable"@, value)) == Result::<ReplayState, ParseErrorView>::Ok(
            with_score(st, ReplayScore { validable: n != 0, ..st.header.score }),
        ),
        u32_text(value) is None ==> replay_attr(st, "times"@, ("best"@, value)) == Result::<ReplayState, ParseErrorView>::Err(
            ParseErrorView::HeaderValueError(u32_text_error(value)),
        ),
        i32_text(value) is None ==> replay_attr(st, "times"@, ("respawns"@, value)) == Result::<ReplayState, ParseErrorView>::Err(
            ParseErrorView::HeaderValueError(i32_text_error(value)),
        ),
        u32_text(value) is None ==> replay_attr(st, "times"@, ("stuntscore"@, value)) == Result::<ReplayState, ParseErrorView>::Err(
            ParseErrorView::HeaderValueError(u32_text_error(value)),
        ),
        u32_text(value) is None ==> replay_attr(st, "times"@, ("validable"@, value)) == Result::<ReplayState, ParseErrorView>::Err(
            ParseErrorView::HeaderValueError(u32_text_error(value)),
        ),
{
    lemma_replay_names_known();
}

/// A replay header is read exactly when reading the events meets no error and some `header`
/// element says `type='replay'`; when reading meets no error and none says so, the answer is
/// `HeaderNotFound`.
pub proof fn lemma_replay_read_iff_declared(evs: Seq<XmlEventView>)
    ensures
        replay_from_events(evs) is Ok <==> (replay_events(evs) is Ok
            && some_event_declares_replay(evs)),
        (replay_events(evs) is Ok && !some_event_declares_replay(evs)) ==> replay_from_events(evs)
            == Err::<ReplayHeaderModel, ParseErrorView>(ParseErrorView::HeaderNotFound),
{
    lemma_replay_events_mark(evs);
}

/// An error is final: reading more events after one does not change the outcome.
pub proof fn lemma_replay_error_is_final(evs: Seq<XmlEventView>, more: Seq<XmlEventView>)
    requires
        replay_events(evs) is Err,
    ensures
        replay_events(evs + more) == replay_events(evs),
        replay_from_events(evs + more) == replay_from_events(evs),
{
    assert((evs + more).take(evs.len() as int) =~= evs);
    lemma_replay_events_stop(evs + more, evs.len() as int);
}

/// Applies one attribute of an element with local name `element` to the header.
fn apply_replay_attr(
    header: &mut ReplayXMLHeader,
    is_replay: &mut bool,
    element: &str,
    attr: XmlAttribute,
) -> (r: Result<(), ParseError>)
    ensures
        match r {
            Ok(_) => replay_attr(
                ReplayState { header: old(header)@, is_replay: *old(is_replay) },
                element@,
                attr@,
            ) == Ok::<ReplayState, ParseErrorView>(
                ReplayState { header: final(header)@, is_replay: *final(is_replay) },
            ),
            Err(e) => replay_attr(
                ReplayState { header: old(header)@, is_replay: *old(is_replay) },
                element@,
                attr@,
            ) == Err::<ReplayState, ParseErrorView>(e@),
        },
{
    let XmlAttribute { name, value } = attr;
    if str_eq(element, "header") {
        if str_eq(name.as_str(), "type") {
            if str_eq(value.as_str(), "replay") {
                *is_replay = true;
            }
        } else if str_eq(name.as_str(), "version") {
            match GBXVersion::try_from(value.as_str()) {
                Ok(v) => header.version = v,
                Err(m) => return Err(ParseError::HeaderTryIntoEnumError(m)),
            }
        } else if str_eq(name.as_str(), "exever") {
            header.exever = value;
        }
    } else if str_eq(element, "map") {
        if str_eq(name.as_str(), "uid") {
            header.map_uid = value;
        } else if str_eq(name.as_str(), "name") {
            header.map_name = value;
        }
    } else if str_eq(element, "times") {
        if str_eq(name.as_str(), "best") {
            match u32_from_str(value.as_str()) {
                Ok(v) => header.score.best = v,
                Err(e) => return Err(ParseError::HeaderValueError(e)),
            }
        } else if str_eq(name.as_str(), "respawns") {
            match i32_from_str(value.as_str()) {
                Ok(v) => header.score.respawns = v,
                Err(e) => return Err(ParseError::HeaderValueError(e)),
            }
        } else if str_eq(name.as_str(), "stuntscore") {
            match u32_from_str(value.as_str()) {
                Ok(v) => header.score.stuntscore = v,
                Err(e) => return Err(ParseError::HeaderValueError(e)),
            }
        } else if str_eq(name.as_str(), "validable") {
            match u32_from_str(value.as_str()) {
                Ok(v) => header.score.validable = v != 0,
                Err(e) => return Err(ParseError::HeaderValueError(e)),
            }
        }
    }
    Ok(())
}

/// Applies the attributes of an element with local name `element` to the header, in order.
fn apply_replay_attrs(
    header: &mut ReplayXMLHeader,
    is_replay: &mut bool,
    element: &str,
    attributes: Vec<XmlAttribute>,
) -> (r: Result<(), ParseError>)
    ensures
        match r {
            Ok(_) => replay_attrs(
                ReplayState { header: old(header)@, is_replay: *old(is_replay) },
                element@,
                attribute_views(attributes@),
            ) == Ok::<ReplayState, ParseErrorView>(
                ReplayState { header: final(header)@, is_replay: *final(is_replay) },
            ),
            Err(e) => replay_attrs(
                ReplayState { header: old(header)@, is_replay: *old(is_replay) },
                element@,
                attribute_views(attributes@),
            ) == Err::<ReplayState, ParseErrorView>(e@),
        },
{
    let n: usize = attributes.len();
    let ghost all = attribute_views(attributes@);
    assert(all.len() == n);
    let ghost start = ReplayState { header: header@, is_replay: *is_replay };
    let mut rest = attributes;
    let mut k: usize = 0;
    assert(all.take(0) =~= Seq::<(Seq<char>, Seq<char>)>::empty());
    while rest.len() > 0
        invariant
            k <= all.len(),
            all == attribute_views(attributes@),
            all.len() == n,
            start == (ReplayState { header: old(header)@, is_replay: *old(is_replay) }),
            attribute_views(rest@) == all.skip(k as int),
            replay_attrs(start, element@, all.take(k as int)) == Ok::<ReplayState, ParseErrorView>(
                ReplayState { header: header@, is_replay: *is_replay },
            ),
        decreases rest.len(),
    {
        let ghost rest_before = rest@;
        let attr = rest.remove(0);
        proof {
            lemma_views_remove_first(rest_before, all, k as int);
        }
        let ghost st_k = ReplayState { header: header@, is_replay: *is_replay };
        let res = apply_replay_attr(header, is_replay, element, attr);
        match res {
            Ok(_) => {},
            Err(e) => {
                proof {
                    assert(replay_attrs(start, element@, all.take(k + 1)) == replay_attr(
                        st_k,
                        element@,
                        all[k as int],
                    ));
                    lemma_replay_attrs_stop(start, element@, all, (k + 1) as int);
                }
                return Err(e);
            },
        }
        k = k + 1;
    }
    assert(all.take(k as int) =~= all);
    Ok(())
}

/// Once reading the first `k` attributes fails, reading all of them fails the same way.
proof fn lemma_replay_attrs_stop(
    st: ReplayState,
    element: Seq<char>,
    attrs: Seq<(Seq<char>, Seq<char>)>,
    k: int,
)
    requires
        0 <= k <= attrs.len(),
        replay_attrs(st, element, attrs.take(k)) is Err,
    ensures
        replay_attrs(st, element, attrs) == replay_attrs(st, element, attrs.take(k)),
    decreases attrs.len() - k,
{
    if k == attrs.len() {
        assert(attrs.take(k) =~= attrs);
    } else {
        assert(attrs.take(k + 1).drop_last() =~= attrs.take(k));
        lemma_replay_attrs_stop(st, element, attrs, k + 1);
    }
}

/// Once reading the first `k` events fails, reading all of them fails the same way.
proof fn lemma_replay_events_stop(evs: Seq<XmlEventView>, k: int)
    requires
        0 <= k <= evs.len(),
        replay_events(evs.take(k)) is Err,
    ensures
        replay_events(evs) == replay_events(evs.take(k)),
    decreases evs.len() - k,
{
    if k == evs.len() {
        assert(evs.take(k) =~= evs);
    } else {
        assert(evs.take(k + 1).drop_last() =~= evs.take(k));
        lemma_replay_events_stop(evs, k + 1);
    }
}

/// Reads the replay header from the events of its XML document.
pub fn replay_header_from_items(items: Vec<XmlItem>) -> (r: Result<ReplayXMLHeader, ParseError>)
    ensures
        match r {
            Ok(h) => replay_from_events(item_views(items@)) == Ok::<
                ReplayHeaderModel,
                ParseErrorView,
            >(h@),
            Err(e) => replay_from_events(item_views(items@)) == Err::<
                ReplayHeaderModel,
                ParseErrorView,
            >(e@),
        },
{
    let n: usize = items.len();
    let ghost all = item_views(items@);
    assert(all.len() == n);
    let mut rest = items;
    let mut header = ReplayXMLHeader::default();
    let mut is_replay = false;
    let mut k: usize = 0;
    assert(all.take(0) =~= Seq::<XmlEventView>::empty());
    while rest.len() > 0
        invariant
            k <= all.len(),
            all == item_views(items@),
            all.len() == n,
            item_views(rest@) == all.skip(k as int),
            replay_events(all.take(k as int)) == Ok::<ReplayState, ParseErrorView>(
                ReplayState { header: header@, is_replay },
            ),
        decreases rest.len(),
    {
        let ghost rest_before = rest@;
        let item = rest.remove(0);
        proof {
            lemma_views_remove_first(rest_before, all, k as int);
        }
        match item {
            XmlItem::StartElement { name, attributes } => {
                match apply_replay_attrs(&mut header, &mut is_replay, name.as_str(), attributes) {
                    Ok(_) => {},
                    Err(e) => {
                        proof {
                            lemma_replay_events_stop(all, (k + 1) as int);
                        }
                        return Err(e);
                    },
                }
            },
            XmlItem::Error(e) => {
                proof {
                    lemma_replay_events_stop(all, (k + 1) as int);
                }
                return Err(ParseError::XMLParseError(e));
            },
            _ => {},
        }
        k = k + 1;
    }
    assert(all.take(k as int) =~= all);
    if is_replay {
        Ok(header)
    } else {
        Err(ParseError::HeaderNotFound)
    }
}

/// Parses the XML header of a replay file.
pub fn parse_replay_xml(buf: &[u8]) -> (r: Result<ReplayXMLHeader, ParseError>)
    ensures
        match r {
            Ok(h) => replay_from_events(xml_document(buf@)) == Ok::<
                ReplayHeaderModel,
                ParseErrorView,
            >(h@),
            Err(e) => replay_from_events(xml_document(buf@)) == Err::<
                ReplayHeaderModel,
                ParseErrorView,
            >(e@),
        },
{
    replay_header_from_items(xml_items(buf))
}

} // verus!
