//! Liga Stavok: the events of an events-list answer, each with its market
//! rows. The sport is left as the item's game title: the mapping of titles
//! to sports belongs to the shared model crate, which is not part of this
//! library.

use crate::clock::{utc_millis_checked, utc_millis_in_range};
use crate::json::{get, jget, lemma_key_index, lookup, text_of, JsonMember, JsonValue};
use crate::ligastavok::{
    extract_is_live, extract_league, extract_raw_url, item_is_live, item_league, item_url, opt_view,
    LigaStavokParser,
};
use crate::ligastavok_markets::{item_rows, item_teams, row_views, LigaRow};
use crate::model::{Event, EventView};
use crate::pari::i64_of_value;
use crate::sport::Sport;
use crate::text::{owned, push_str, str_eq};
use vstd::prelude::*;

verus! {

/// An event read from an events-list item, its sport still its game title.
#[derive(Debug)]
pub struct LigaEventDraft {
    pub id: String,
    pub sport_title: String,
    pub league: String,
    pub home_team: String,
    pub away_team: String,
    pub start_time_ms: Option<i64>,
    pub is_live: bool,
    pub raw_url: Option<String>,
    pub extra: Vec<JsonMember>,
}

/// The items of an events-list answer: `result.data` where it is a list,
/// else `data`.
pub open spec fn response_items(json: JsonValue) -> Option<Seq<JsonValue>> {
    let a = match jget(json, "result"@) {
        Some(r) => crate::json::array_of(jget(r, "data"@)),
        None => None,
    };
    if a is Some {
        a
    } else {
        crate::json::array_of(jget(json, "data"@))
    }
}

/// The game title of an item: `gameTitle`, else `title`, else `gameName`,
/// else `football`.
pub open spec fn sport_title_of(item: JsonValue) -> Seq<char> {
    match text_of(jget(item, "gameTitle"@)) {
        Some(t) => t,
        None => match text_of(jget(item, "title"@)) {
            Some(t) => t,
            None => match text_of(jget(item, "gameName"@)) {
                Some(t) => t,
                None => "football"@,
            },
        },
    }
}

/// The start of an item: its `gameTs` (milliseconds since the Unix epoch),
/// where chrono holds that instant.
pub open spec fn start_of_item(item: JsonValue) -> Option<i64> {
    match i64_of_value(jget(item, "gameTs"@)) {
        Some(ms) => if utc_millis_in_range(ms) {
            Some(ms)
        } else {
            None
        },
        None => None,
    }
}

/// The `extId` of an item's `ids`.
pub open spec fn ext_id_of(item: JsonValue) -> Option<JsonValue> {
    match jget(item, "ids"@) {
        Some(ids) => jget(ids, "extId"@),
        None => None,
    }
}

/// Whether `extra` holds exactly the item's namespace (its `ns` text) and
/// its `ext_id` (its `ids.extId`), where it has them.
pub open spec fn liga_extra(extra: Seq<JsonMember>, item: JsonValue) -> bool {
    &&& match (lookup(extra, "namespace"@), text_of(jget(item, "ns"@))) {
        (Some(JsonValue::Str(s)), Some(ns)) => s@ == ns,
        (None, None) => true,
        _ => false,
    }
    &&& lookup(extra, "ext_id"@) == ext_id_of(item)
    &&& forall|i: int| 0 <= i < extra.len() ==> (#[trigger] extra[i].key@ == "namespace"@ || extra[i].key@ == "ext_id"@)
    &&& forall|i: int, j: int| 0 <= i < j < extra.len() ==> extra[i].key@ != extra[j].key@
}

/// Whether `d` is the draft of `item`, read under the route `route_hint`.
pub open spec fn draft_is(d: LigaEventDraft, item: JsonValue, route_hint: Seq<char>) -> bool {
    match item_teams(item) {
        Some((id, home, away)) => {
            let live = item_is_live(item, route_hint);
            &&& d.id@ == "ligastavok-"@ + id
            &&& d.sport_title@ == sport_title_of(item)
            &&& d.league@ == item_league(item)
            &&& d.home_team@ == home
            &&& d.away_team@ == away
            &&& d.start_time_ms == start_of_item(item)
            &&& d.is_live == live
            &&& opt_view(d.raw_url) == item_url(item, live)
            &&& liga_extra(d.extra@, item)
        },
        None => false,
    }
}

/// The items of a list that name an event, in order.
pub open spec fn event_items(items: Seq<JsonValue>) -> Seq<JsonValue>
    decreases items.len(),
{
    if items.len() == 0 {
        Seq::empty()
    } else if item_teams(items.last()) is Some {
        event_items(items.drop_last()).push(items.last())
    } else {
        event_items(items.drop_last())
    }
}

/// The market rows of the event items of a list, item by item.
pub open spec fn event_rows(items: Seq<JsonValue>) -> Seq<crate::ligastavok_markets::LigaRowView>
    decreases items.len(),
{
    if items.len() == 0 {
        Seq::empty()
    } else {
        event_rows(items.drop_last()) + match item_teams(items.last()) {
            Some((id, _, _)) => item_rows("ligastavok-"@ + id, items.last()),
            None => Seq::empty(),
        }
    }
}

/// The member `key` of `v`, moved out of it.
fn take_member(v: JsonValue, key: &str) -> (r: Option<JsonValue>)
    ensures
        r == jget(v, key@),
{
    match v {
        JsonValue::Object(members) => {
            let ghost ms = members@;
            let ghost target = jget(v, key@);
            assert(target == lookup(ms, key@));
            let mut members = members;
            let mut i: usize = 0;
            while i < members.len()
                invariant
                    i <= members@.len(),
                    members@ == ms,
                    target == lookup(ms, key@),
                    target == jget(v, key@),
                    forall|k: int| 0 <= k < i ==> #[trigger] ms[k].key@ != key@,
                decreases members@.len() - i,
            {
                if str_eq(members[i].key.as_str(), key) {
                    proof {
                        lemma_key_index(ms, key@);
                        assert(ms[i as int].key@ == key@);
                        let ki = crate::json::key_index(ms, key@);
                        if ki < 0 || ki > i {
                            assert(ms[i as int].key@ != key@);
                        }
                        if 0 <= ki < i {
                            assert(ms[ki].key@ != key@);
                        }
                        assert(ki == i);
                    }
                    let m = members.swap_remove(i);
                    return Some(m.value);
                }
                i = i + 1;
            }
            proof {
                lemma_key_index(ms, key@);
            }
            None
        },
        _ => None,
    }
}

/// The draft of an item that names an event, and its market rows.
fn draft_of(item: JsonValue, route_hint: &str) -> (r: Option<(LigaEventDraft, Vec<LigaRow>)>)
    ensures
        match r {
            Some((d, rows)) => item_teams(item) matches Some((id, _, _)) && draft_is(d, item, route_hint@)
                && row_views(rows@) == item_rows("ligastavok-"@ + id, item),
            None => item_teams(item) is None,
        },
{
    let (id, home, away) = match LigaStavokParser::extract_teams(&item) {
        Some(t) => t,
        None => {
            return None;
        },
    };
    let mut key = owned("ligastavok-");
    push_str(&mut key, id.as_str());
    let is_live = extract_is_live(&item, route_hint);
    let sport_title = match get(&item, "gameTitle") {
        Some(JsonValue::Str(t)) => t.clone(),
        _ => match get(&item, "title") {
            Some(JsonValue::Str(t)) => t.clone(),
            _ => match get(&item, "gameName") {
                Some(JsonValue::Str(t)) => t.clone(),
                _ => owned("football"),
            },
        },
    };
    let start_time_ms = match get(&item, "gameTs") {
        Some(JsonValue::Number(crate::json::JsonNumber::PosInt(k))) => if *k <= 0x7FFF_FFFF_FFFF_FFFFu64 {
            utc_millis_checked(*k as i64)
        } else {
            None
        },
        Some(JsonValue::Number(crate::json::JsonNumber::NegInt(k))) => utc_millis_checked(*k),
        _ => None,
    };
    let rows = LigaStavokParser::market_rows(key.as_str(), &item);
    let ns = match get(&item, "ns") {
        Some(JsonValue::Str(n)) => Some(n.clone()),
        _ => None,
    };
    let draft_base = (extract_league(&item), extract_raw_url(&item, is_live));
    let ghost iv = item;
    let ext = match take_member(item, "ids") {
        Some(ids) => take_member(ids, "extId"),
        None => None,
    };
    let mut extra: Vec<JsonMember> = Vec::new();
    proof {
        reveal_strlit("namespace");
        reveal_strlit("ext_id");
        assert("namespace"@.len() == 9 && "ext_id"@.len() == 6);
    }
    match ns {
        Some(n) => extra.push(JsonMember { key: owned("namespace"), value: JsonValue::Str(n) }),
        None => {},
    }
    let ghost before_ext = extra@;
    match ext {
        Some(x) => extra.push(JsonMember { key: owned("ext_id"), value: x }),
        None => {},
    }
    proof {
        let e = extra@;
        if e.len() > 0 {
            assert(e.drop_first().len() == e.len() - 1);
        }
        if e.len() == 2 {
            assert(e.drop_first()[0] == e[1]);
            assert(lookup(e.drop_first().drop_first(), "ext_id"@) is None);
            assert(lookup(e.drop_first().drop_first(), "namespace"@) is None);
        }
        if e.len() == 1 {
            assert(lookup(e.drop_first(), "ext_id"@) is None);
            assert(lookup(e.drop_first(), "namespace"@) is None);
        }
    }
    Some(
        (
            LigaEventDraft {
                id: key,
                sport_title,
                league: draft_base.0,
                home_team: home,
                away_team: away,
                start_time_ms,
                is_live,
                raw_url: draft_base.1,
                extra,
            },
            rows,
        ),
    )
}

impl LigaStavokParser {
    /// Reads an events-list answer under the route `route_hint`: for each
    /// item (of `result.data`, else `data`) that names an event, its draft
    /// and, after the rows before it, its market rows; nothing where the
    /// answer has no such list.
    pub fn parse_response(json: JsonValue, route_hint: &str) -> (r: (Vec<LigaEventDraft>, Vec<LigaRow>))
        ensures
            match response_items(json) {
                None => r.0@.len() == 0 && r.1@.len() == 0,
                Some(items) => {
                    &&& r.0@.len() == event_items(items).len()
                    &&& forall|i: int| 0 <= i < r.0@.len() ==> draft_is(#[trigger] r.0@[i], event_items(items)[i], route_hint@)
                    &&& row_views(r.1@) == event_rows(items)
                },
            },
    {
        let from_result = match get(&json, "result") {
            Some(res) => match get(res, "data") {
                Some(JsonValue::Array(_)) => true,
                _ => false,
            },
            None => false,
        };
        let ghost jv = json;
        let items_opt = if from_result {
            match take_member(json, "result") {
                Some(res) => take_member(res, "data"),
                None => None,
            }
        } else {
            take_member(json, "data")
        };
        let items = match items_opt {
            Some(JsonValue::Array(v)) => v,
            _ => {
                return (Vec::new(), Vec::new());
            },
        };
        assert(response_items(jv) == Some(items@));
        let ghost iv = items@;
        let n = items.len();
        let mut rev: Vec<JsonValue> = Vec::new();
        let mut src = items;
        while src.len() > 0
            invariant
                src@ == iv.take(src@.len() as int),
                rev@.len() + src@.len() == iv.len(),
                forall|j: int| 0 <= j < rev@.len() ==> #[trigger] rev@[j] == iv[iv.len() - 1 - j],
            decreases src@.len(),
        {
            let x = src.pop().unwrap();
            assert(src@ =~= iv.take(src@.len() as int));
            rev.push(x);
        }
        let mut drafts: Vec<LigaEventDraft> = Vec::new();
        let mut rows: Vec<LigaRow> = Vec::new();
        let mut k: usize = 0;
        assert(iv.take(0) =~= Seq::<JsonValue>::empty());
        while k < n
            invariant
                k <= n,
                n == iv.len(),
                rev@.len() == n - k,
                forall|j: int| 0 <= j < rev@.len() ==> #[trigger] rev@[j] == iv[n - 1 - j],
                drafts@.len() == event_items(iv.take(k as int)).len(),
                forall|i: int|
                    0 <= i < drafts@.len() ==> draft_is(#[trigger] drafts@[i], event_items(iv.take(k as int))[i], route_hint@),
                row_views(rows@) == event_rows(iv.take(k as int)),
            decreases n - k,
        {
            let item = rev.pop().unwrap();
            assert(item == iv[k as int]);
            let ghost pre = iv.take(k + 1);
            assert(pre.drop_last() =~= iv.take(k as int));
            assert(pre.last() == iv[k as int]);
            let ghost before = drafts@;
            let ghost eb = event_items(iv.take(k as int));
            match draft_of(item, route_hint) {
                Some((d, mut r)) => {
                    drafts.push(d);
                    assert forall|i: int| 0 <= i < drafts@.len() implies draft_is(
                        #[trigger] drafts@[i],
                        event_items(pre)[i],
                        route_hint@,
                    ) by {
                        if i < before.len() {
                            assert(drafts@[i] == before[i]);
                        }
                    }
                    let ghost rb = row_views(rows@);
                    let ghost ra = row_views(r@);
                    rows.append(&mut r);
                    assert(row_views(rows@) =~= rb + ra);
                },
                None => {},
            }
            k = k + 1;
        }
        assert(iv.take(n as int) =~= iv);
        (drafts, rows)
    }
}

impl LigaEventDraft {
    /// The event, once its game title is read as `sport`.
    pub fn into_event(self, sport: Sport) -> (e: Event)
        ensures
            e.id@ == self.id@,
            e.sport == sport,
            e.league@ == self.league@,
            e.home_team@ == self.home_team@,
            e.away_team@ == self.away_team@,
            e.start_time_ms == self.start_time_ms,
            e.is_live == self.is_live,
            e.bookmaker_slug@ == "ligastavok"@,
            e.raw_url == self.raw_url,
            e.extra == self.extra,
    {
        Event {
            id: self.id,
            sport,
            league: self.league,
            home_team: self.home_team,
            away_team: self.away_team,
            start_time_ms: self.start_time_ms,
            is_live: self.is_live,
            bookmaker_slug: owned("ligastavok"),
            raw_url: self.raw_url,
            extra: self.extra,
        }
    }
}

} // verus!
