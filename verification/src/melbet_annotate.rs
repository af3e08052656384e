//! The route metadata a Melbet event carries in its `extra` map: where it
//! was read, on which surface and route, and how far that route got.

use crate::json::{
    insert_member, inserted, law_read_after_insert, lookup, JsonMember, JsonValue,
};
use crate::melbet_rules::MelbetParser;
use crate::melbet_runtime::{route_status_name, surface_name, MelbetRouteStatus};
use crate::melbet_snapshot::HeadlessProbe;
use crate::model::Event;
use crate::text::owned;
use vstd::prelude::*;

verus! {

/// Whether `o` is the string value `t`.
pub open spec fn is_text_value(o: Option<JsonValue>, t: Seq<char>) -> bool {
    match o {
        Some(JsonValue::Str(s)) => s@ == t,
        _ => false,
    }
}

/// Whether `v` is the transport hint `{kind: "app_marker", source:
/// "profile", value: marker}`.
pub open spec fn is_app_marker_hint(v: JsonValue, marker: Seq<char>) -> bool {
    match v {
        JsonValue::Object(members) => {
            &&& is_text_value(lookup(members@, "kind"@), "app_marker"@)
            &&& is_text_value(lookup(members@, "source"@), "profile"@)
            &&& is_text_value(lookup(members@, "value"@), marker)
        },
        _ => false,
    }
}

/// Whether `o` is the list of transport hints a probe's profile gives: its
/// app marker where it has one, else nothing.
pub open spec fn is_profile_hints(o: Option<JsonValue>, marker: Option<&'static str>) -> bool {
    match o {
        Some(JsonValue::Array(items)) => match marker {
            Some(m) => items@.len() == 1 && is_app_marker_hint(items@[0], m@),
            None => items@.len() == 0,
        },
        _ => false,
    }
}

/// The keys the route annotation writes.
pub open spec fn route_keys() -> Seq<Seq<char>> {
    seq![
        "source_url"@,
        "melbet_surface"@,
        "melbet_route_hint"@,
        "melbet_route_family"@,
        "melbet_route_status"@,
        "melbet_transport_hints"@,
    ]
}

/// Whether `after` is `before` with the route of `probe` and `status`
/// written in: each key of `route_keys` reads its value, any other key reads
/// what it read before.
pub open spec fn route_annotated(
    before: Seq<JsonMember>,
    after: Seq<JsonMember>,
    probe: HeadlessProbe,
    status: MelbetRouteStatus,
) -> bool {
    &&& is_text_value(lookup(after, "source_url"@), probe.url@)
    &&& is_text_value(lookup(after, "melbet_surface"@), surface_name(probe.surface))
    &&& is_text_value(lookup(after, "melbet_route_hint"@), probe.route_hint@)
    &&& is_text_value(lookup(after, "melbet_route_family"@), probe.route_family@)
    &&& is_text_value(lookup(after, "melbet_route_status"@), route_status_name(status))
    &&& is_profile_hints(lookup(after, "melbet_transport_hints"@), probe.profile.app_marker)
    &&& forall|k: Seq<char>| !route_keys().contains(k) ==> #[trigger] lookup(after, k) == lookup(before, k)
}

/// Whether the event `after` is `before` with only its `extra` map changed.
pub open spec fn same_but_extra(before: Event, after: Event) -> bool {
    &&& after.id@ == before.id@
    &&& after.sport == before.sport
    &&& after.league@ == before.league@
    &&& after.home_team@ == before.home_team@
    &&& after.away_team@ == before.away_team@
    &&& after.start_time_ms == before.start_time_ms
    &&& after.is_live == before.is_live
    &&& after.bookmaker_slug@ == before.bookmaker_slug@
    &&& after.raw_url == before.raw_url
}

/// What a read of every key gives after one `insert`.
pub proof fn lemma_reads_after_insert(members: Seq<JsonMember>, key: String, value: JsonValue)
    ensures
        forall|k: Seq<char>|
            #[trigger] lookup(inserted(members, key, value), k) == if k == key@ {
                Some(value)
            } else {
                lookup(members, k)
            },
{
    assert forall|k: Seq<char>|
        #[trigger] lookup(inserted(members, key, value), k) == if k == key@ {
            Some(value)
        } else {
            lookup(members, k)
        } by {
        if k == key@ {
            assert(key@.push('x').len() != key@.len());
            law_read_after_insert(members, key, value, key@.push('x'));
        } else {
            law_read_after_insert(members, key, value, k);
        }
    }
}

/// The transport hint object for an app marker.
fn app_marker_hint(marker: &str) -> (r: JsonValue)
    ensures
        is_app_marker_hint(r, marker@),
{
    let mut members: Vec<JsonMember> = Vec::new();
    members.push(JsonMember { key: owned("kind"), value: JsonValue::Str(owned("app_marker")) });
    members.push(JsonMember { key: owned("source"), value: JsonValue::Str(owned("profile")) });
    members.push(JsonMember { key: owned("value"), value: JsonValue::Str(owned(marker)) });
    proof {
        reveal_strlit("kind");
        reveal_strlit("source");
        reveal_strlit("value");
        let s = members@;
        assert("kind"@.len() == 4 && "source"@.len() == 6 && "value"@.len() == 5);
        assert(s[0].key@ != "source"@);
        assert(s[0].key@ != "value"@);
        assert(s[1].key@ != "value"@);
        assert(s.drop_first()[0] == s[1]);
        assert(s.drop_first().drop_first()[0] == s[2]);
        assert(lookup(s, "kind"@) == Some(s[0].value));
        assert(lookup(s.drop_first(), "source"@) == Some(s[1].value));
        assert(lookup(s.drop_first().drop_first(), "value"@) == Some(s[2].value));
        assert(lookup(s.drop_first(), "value"@) == Some(s[2].value));
        assert(lookup(s, "value"@) == Some(s[2].value));
        assert(lookup(s, "source"@) == Some(s[1].value));
        assert(is_text_value(Some(s[0].value), "app_marker"@));
        assert(is_text_value(Some(s[1].value), "profile"@));
        assert(is_text_value(Some(s[2].value), marker@));
    }
    JsonValue::Object(members)
}

impl MelbetParser {
    /// Writes into the event's `extra` map where it was read: the probe's
    /// address (`source_url`), its surface, route hint and route family, the
    /// route's status, and the transport hints its browser profile gives.
    /// Nothing else of the event changes.
    pub fn annotate_event_route(event: &mut Event, probe: &HeadlessProbe, status: &MelbetRouteStatus)
        ensures
            same_but_extra(*old(event), *final(event)),
            route_annotated(old(event).extra@, final(event).extra@, *probe, *status),
    {
        let ghost s0 = event.extra@;
        let k1 = owned("source_url");
        let v1 = JsonValue::Str(owned(probe.url));
        let ghost (gk1, gv1) = (k1, v1);
        insert_member(&mut event.extra, k1, v1);
        let k2 = owned("melbet_surface");
        let v2 = JsonValue::Str(owned(probe.surface.as_str()));
        let ghost (gk2, gv2) = (k2, v2);
        let ghost s1 = event.extra@;
        insert_member(&mut event.extra, k2, v2);
        let k3 = owned("melbet_route_hint");
        let v3 = JsonValue::Str(owned(probe.route_hint));
        let ghost (gk3, gv3) = (k3, v3);
        let ghost s2 = event.extra@;
        insert_member(&mut event.extra, k3, v3);
        let k4 = owned("melbet_route_family");
        let v4 = JsonValue::Str(owned(probe.route_family));
        let ghost (gk4, gv4) = (k4, v4);
        let ghost s3 = event.extra@;
        insert_member(&mut event.extra, k4, v4);
        let k5 = owned("melbet_route_status");
        let v5 = JsonValue::Str(owned(status.as_str()));
        let ghost (gk5, gv5) = (k5, v5);
        let ghost s4 = event.extra@;
        insert_member(&mut event.extra, k5, v5);
        let mut hints: Vec<JsonValue> = Vec::new();
        match probe.profile.app_marker {
            Some(marker) => {
                hints.push(app_marker_hint(marker));
            },
            None => {},
        }
        let k6 = owned("melbet_transport_hints");
        let v6 = JsonValue::Array(hints);
        let ghost (gk6, gv6) = (k6, v6);
        let ghost s5 = event.extra@;
        insert_member(&mut event.extra, k6, v6);
        proof {
            reveal_strlit("source_url");
            reveal_strlit("melbet_surface");
            reveal_strlit("melbet_route_hint");
            reveal_strlit("melbet_route_family");
            reveal_strlit("melbet_route_status");
            reveal_strlit("melbet_transport_hints");
            assert("source_url"@.len() == 10);
            assert("melbet_surface"@.len() == 14);
            assert("melbet_route_hint"@.len() == 17);
            assert("melbet_route_family"@.len() == 19);
            assert("melbet_route_status"@.len() == 19);
            assert("melbet_route_family"@[13] != "melbet_route_status"@[13]);
            assert("melbet_transport_hints"@.len() == 22);
            lemma_reads_after_insert(s0, gk1, gv1);
            lemma_reads_after_insert(s1, gk2, gv2);
            lemma_reads_after_insert(s2, gk3, gv3);
            lemma_reads_after_insert(s3, gk4, gv4);
            lemma_reads_after_insert(s4, gk5, gv5);
            lemma_reads_after_insert(s5, gk6, gv6);
            let after = event.extra@;
            assert(lookup(after, "source_url"@) == Some(gv1));
            assert(lookup(after, "melbet_surface"@) == Some(gv2));
            assert(lookup(after, "melbet_route_hint"@) == Some(gv3));
            assert(lookup(after, "melbet_route_family"@) == Some(gv4));
            assert(lookup(after, "melbet_route_status"@) == Some(gv5));
            assert(lookup(after, "melbet_transport_hints"@) == Some(gv6));
            assert forall|k: Seq<char>| !route_keys().contains(k) implies #[trigger] lookup(after, k)
                == lookup(s0, k) by {
                assert(k != route_keys()[0]);
                assert(k != route_keys()[1]);
                assert(k != route_keys()[2]);
                assert(k != route_keys()[3]);
                assert(k != route_keys()[4]);
                assert(k != route_keys()[5]);
            }
        }
    }
}

} // verus!
