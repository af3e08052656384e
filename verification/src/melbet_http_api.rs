//! What the page's sportsbook HTTP API answers when asked for its context
//! and its sports: the partner, language and country the API is called
//! with, and the sports that have events.

use crate::json::{
    bool_field, bool_or_false, get, jget, opt_u64_field, text_of, u64_of, JsonValue,
};
use crate::text::{owned, trim, trim_str};
use vstd::prelude::*;

verus! {

/// The partner, language and country the sportsbook API is called with.
#[derive(Debug)]
pub struct MelbetSportApiContext {
    pub partner_id: u64,
    pub lang_id: u64,
    pub country_code: String,
}

/// A sport the API lists, with how many events it has.
#[derive(Clone, Copy, Debug)]
pub struct MelbetSportSeed {
    pub sport_id: u64,
    pub event_count: usize,
}

/// The context the page reports: none where it has no HTTP API or no
/// positive partner id; the language 1 where it gives no positive one, the
/// country `RU` where it gives no text but blanks.
pub open spec fn sport_api_context(v: JsonValue) -> Option<(u64, u64, Seq<char>)> {
    if !bool_or_false(jget(v, "hasHttpApi"@)) {
        None
    } else {
        match u64_of(jget(v, "partnerId"@)) {
            Some(p) => if p > 0 {
                Some(
                    (
                        p,
                        match u64_of(jget(v, "langId"@)) {
                            Some(l) => if l > 0 {
                                l
                            } else {
                                1
                            },
                            None => 1,
                        },
                        match text_of(jget(v, "countryCode"@)) {
                            Some(c) => if trim(c).len() > 0 {
                                c
                            } else {
                                "RU"@
                            },
                            None => "RU"@,
                        },
                    ),
                )
            } else {
                None
            },
            None => None,
        }
    }
}

/// The seeds of a list of sports, in order: one per item with an integer
/// `sportId` above zero and an `eventCount` above zero (a missing or
/// non-integer count is zero), the count taken as a `usize`.
pub open spec fn sport_seeds(items: Seq<JsonValue>) -> Seq<(u64, usize)>
    decreases items.len(),
{
    if items.len() == 0 {
        Seq::empty()
    } else {
        let rest = sport_seeds(items.drop_last());
        let id = u64_of(jget(items.last(), "sportId"@));
        let count = u64_of(jget(items.last(), "eventCount"@));
        if id is Some && id->0 > 0 && count is Some && count->0 > 0 {
            rest.push((id->0, (count->0) as usize))
        } else {
            rest
        }
    }
}

impl MelbetSportApiContext {
    /// Reads the context the page reported.
    pub fn from_value(v: &JsonValue) -> (r: Option<MelbetSportApiContext>)
        ensures
            match r {
                Some(c) => sport_api_context(*v) == Some((c.partner_id, c.lang_id, c.country_code@)),
                None => sport_api_context(*v) is None,
            },
    {
        if !bool_field(v, "hasHttpApi") {
            return None;
        }
        let partner_id = match opt_u64_field(v, "partnerId") {
            Some(p) => if p > 0 {
                p
            } else {
                return None;
            },
            None => {
                return None;
            },
        };
        let lang_id = match opt_u64_field(v, "langId") {
            Some(l) => if l > 0 {
                l
            } else {
                1
            },
            None => 1,
        };
        let country_code = match get(v, "countryCode") {
            Some(JsonValue::Str(c)) => if trim_str(c.as_str()).len() > 0 {
                c.clone()
            } else {
                owned("RU")
            },
            _ => owned("RU"),
        };
        Some(MelbetSportApiContext { partner_id, lang_id, country_code })
    }
}

/// The sports of the API's answer that have events, in order; none where
/// the answer is not a list.
pub fn sport_seeds_from_value(v: &JsonValue) -> (r: Vec<MelbetSportSeed>)
    ensures
        r@.map_values(|s: MelbetSportSeed| (s.sport_id, s.event_count)) == match v {
            JsonValue::Array(items) => sport_seeds(items@),
            _ => Seq::empty(),
        },
{
    let mut out: Vec<MelbetSportSeed> = Vec::new();
    match v {
        JsonValue::Array(items) => {
            let mut i: usize = 0;
            while i < items.len()
                invariant
                    i <= items@.len(),
                    out@.map_values(|s: MelbetSportSeed| (s.sport_id, s.event_count)) == sport_seeds(
                        items@.take(i as int),
                    ),
                decreases items@.len() - i,
            {
                let ghost pre = items@.take(i + 1);
                assert(pre.last() == items@[i as int]);
                assert(pre.drop_last() =~= items@.take(i as int));
                let ghost prev = out@;
                match (opt_u64_field(&items[i], "sportId"), opt_u64_field(&items[i], "eventCount")) {
                    (Some(id), Some(count)) => {
                        if id > 0 && count > 0 {
                            let seed = MelbetSportSeed { sport_id: id, event_count: count as usize };
                            out.push(seed);
                            assert(out@.map_values(|s: MelbetSportSeed| (s.sport_id, s.event_count))
                                =~= prev.map_values(|s: MelbetSportSeed| (s.sport_id, s.event_count)).push(
                                (id, count as usize),
                            ));
                        }
                    },
                    _ => {},
                }
                i = i + 1;
            }
            assert(items@.take(items@.len() as int) =~= items@);
        },
        _ => {
            assert(out@.map_values(|s: MelbetSportSeed| (s.sport_id, s.event_count)) =~= Seq::<
                (u64, usize),
            >::empty());
        },
    }
    out
}

} // verus!
