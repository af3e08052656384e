//! Tennisi's primary prices: the 1X2 (or moneyline), handicap and total
//! columns of an event row, found by their headers.

use crate::json::{is_nan_bits, magnitude_bits, JsonNumber};
use crate::model::{odd_views, Odd, OddView, OddsType};
use crate::sport::Sport;
use crate::tennisi::{canonical, canonical_header};
use crate::ligastavok_markets::comma_to_dot;
use crate::text::{owned, push_char, push_str, static_views, str_eq, trim, trim_str, views};
use vstd::prelude::*;

verus! {

/// The last column whose canonical header is `c` (a non-empty one).
pub open spec fn last_header(canon: Seq<Seq<char>>, c: Seq<char>) -> Option<int>
    decreases canon.len(),
{
    if canon.len() == 0 {
        None
    } else if canon.last().len() > 0 && canon.last() == c {
        Some(canon.len() - 1)
    } else {
        last_header(canon.drop_last(), c)
    }
}

/// The column of the first of `keys` whose header the row has, the column
/// within the row's `cells_len` cells.
pub open spec fn header_index(canon: Seq<Seq<char>>, cells_len: int, keys: Seq<Seq<char>>) -> Option<int>
    decreases keys.len(),
{
    if keys.len() == 0 {
        None
    } else {
        match last_header(canon, canonical(keys[0])) {
            Some(j) => if j < cells_len {
                Some(j)
            } else {
                header_index(canon, cells_len, keys.drop_first())
            },
            None => header_index(canon, cells_len, keys.drop_first()),
        }
    }
}

/// Whether `b` are the bits of an `f64` in `1.01..=100.0`.
pub open spec fn price_bits_in_band(b: u64) -> bool {
    0x3FF0_28F5_C28F_5C29u64 <= b <= 0x4059_0000_0000_0000u64
}

/// Whether `b` are the bits of an `f64` of magnitude at most 1000.
pub open spec fn line_bits_in_band(b: u64) -> bool {
    !is_nan_bits(b) && magnitude_bits(b) <= 0x408F_4000_0000_0000u64
}

/// The price in column `j`, as its cell read (`parsed`), where it is in
/// `1.01..=100.0`.
pub open spec fn price_at(parsed: Seq<Option<u64>>, j: Option<int>) -> Option<u64> {
    match j {
        Some(j) => match parsed[j] {
            Some(b) => if price_bits_in_band(b) {
                Some(b)
            } else {
                None
            },
            None => None,
        },
        None => None,
    }
}

/// The line in column `j`, as its cell read, where its magnitude is at most
/// 1000.
pub open spec fn line_at(parsed: Seq<Option<u64>>, j: Option<int>) -> Option<u64> {
    match j {
        Some(j) => match parsed[j] {
            Some(b) => if line_bits_in_band(b) {
                Some(b)
            } else {
                None
            },
            None => None,
        },
        None => None,
    }
}

/// A price of the event `eid`.
pub open spec fn tennisi_odd(
    eid: Seq<char>,
    suffix: Seq<char>,
    market: Seq<char>,
    selection: Seq<char>,
    kind: OddsType,
    price: u64,
    line: Option<u64>,
    ts: i64,
) -> OddView {
    OddView {
        id: eid + "-"@ + suffix,
        event_id: eid,
        bookmaker_slug: "tennisi"@,
        market,
        selection,
        price: JsonNumber::FloatBits(price),
        odds_type: kind,
        line: match line {
            Some(l) => Some(JsonNumber::FloatBits(l)),
            None => None,
        },
        timestamp_ms: ts,
    }
}

/// The header keys of each column.
pub open spec fn home_keys() -> Seq<Seq<char>> {
    seq!["П1"@, "1"@]
}

pub open spec fn draw_keys() -> Seq<Seq<char>> {
    seq!["X"@, "Х"@]
}

pub open spec fn away_keys() -> Seq<Seq<char>> {
    seq!["П2"@, "2"@]
}

pub open spec fn total_keys() -> Seq<Seq<char>> {
    seq!["TM"@, "ТМ"@, "TOTAL"@]
}

pub open spec fn under_keys() -> Seq<Seq<char>> {
    seq!["<"@, "М"@, "U"@, "UNDER"@]
}

pub open spec fn over_keys() -> Seq<Seq<char>> {
    seq![">"@, "Б"@, "O"@, "OVER"@]
}

/// The home/draw/away prices: the 1X2 where the draw has a price, the
/// moneyline otherwise, nothing without home and away.
pub open spec fn main_odds(eid: Seq<char>, home: Option<u64>, draw: Option<u64>, away: Option<u64>, ts: i64) -> Seq<OddView> {
    match (home, away) {
        (Some(h), Some(a)) => match draw {
            Some(d) => seq![
                tennisi_odd(eid, "1"@, "1X2"@, "1"@, OddsType::Home, h, None, ts),
                tennisi_odd(eid, "X"@, "1X2"@, "X"@, OddsType::Draw, d, None, ts),
                tennisi_odd(eid, "2"@, "1X2"@, "2"@, OddsType::Away, a, None, ts),
            ],
            None => seq![
                tennisi_odd(eid, "1"@, "Moneyline"@, "1"@, OddsType::Home, h, None, ts),
                tennisi_odd(eid, "2"@, "Moneyline"@, "2"@, OddsType::Away, a, None, ts),
            ],
        },
        _ => Seq::empty(),
    }
}

/// A price with a line, where both are there.
pub open spec fn lined_odd(
    eid: Seq<char>,
    suffix: Seq<char>,
    market: Seq<char>,
    selection: Seq<char>,
    kind: OddsType,
    line: Option<u64>,
    price: Option<u64>,
    ts: i64,
) -> Seq<OddView> {
    match (line, price) {
        (Some(l), Some(p)) => seq![tennisi_odd(eid, suffix, market, selection, kind, p, Some(l), ts)],
        _ => Seq::empty(),
    }
}

/// The primary prices of an event row whose columns carry the canonical
/// headers `canon`, its cells read as `parsed`, at `ts`: the 1X2 where the
/// draw has a price (the moneyline otherwise) when home and away have one;
/// each handicap with its line and price; under and over with the total's
/// line.
pub open spec fn primary_odds(eid: Seq<char>, canon: Seq<Seq<char>>, parsed: Seq<Option<u64>>, ts: i64) -> Seq<OddView> {
    let n = parsed.len() as int;
    let total = line_at(parsed, header_index(canon, n, total_keys()));
    main_odds(
        eid,
        price_at(parsed, header_index(canon, n, home_keys())),
        price_at(parsed, header_index(canon, n, draw_keys())),
        price_at(parsed, header_index(canon, n, away_keys())),
        ts,
    ) + lined_odd(
        eid,
        "hc1"@,
        "Handicap"@,
        "1"@,
        OddsType::Handicap,
        line_at(parsed, header_index(canon, n, seq!["Ф1"@])),
        price_at(parsed, header_index(canon, n, seq!["К1"@])),
        ts,
    ) + lined_odd(
        eid,
        "hc2"@,
        "Handicap"@,
        "2"@,
        OddsType::Handicap,
        line_at(parsed, header_index(canon, n, seq!["Ф2"@])),
        price_at(parsed, header_index(canon, n, seq!["К2"@])),
        ts,
    ) + lined_odd(
        eid,
        "under"@,
        "Total"@,
        "Under"@,
        OddsType::Under,
        total,
        price_at(parsed, header_index(canon, n, under_keys())),
        ts,
    ) + lined_odd(
        eid,
        "over"@,
        "Total"@,
        "Over"@,
        OddsType::Over,
        total,
        price_at(parsed, header_index(canon, n, over_keys())),
        ts,
    )
}

/// A column found by its canonical header carries that header.
proof fn lemma_last_header(canon: Seq<Seq<char>>, c: Seq<char>)
    ensures
        last_header(canon, c) matches Some(j) ==> 0 <= j < canon.len() && canon[j] == c,
    decreases canon.len(),
{
    if canon.len() > 0 && !(canon.last().len() > 0 && canon.last() == c) {
        lemma_last_header(canon.drop_last(), c);
    }
}

/// A column found by a list of keys lies within the row and carries the
/// canonical form of one of the keys.
proof fn lemma_header_index(canon: Seq<Seq<char>>, n: int, keys: Seq<Seq<char>>)
    ensures
        header_index(canon, n, keys) matches Some(j) ==> 0 <= j < n && j < canon.len() && exists|k: int|
            0 <= k < keys.len() && canon[j] == canonical(#[trigger] keys[k]),
    decreases keys.len(),
{
    if keys.len() > 0 {
        lemma_last_header(canon, canonical(keys[0]));
        lemma_header_index(canon, n, keys.drop_first());
        if let Some(j) = header_index(canon, n, keys) {
            if last_header(canon, canonical(keys[0])) == Some(j) && j < n {
                assert(canon[j] == canonical(keys[0]));
            } else {
                let k = choose|k: int|
                    0 <= k < keys.drop_first().len() && canon[j] == canonical(#[trigger] keys.drop_first()[k]);
                assert(keys.drop_first()[k] == keys[k + 1]);
            }
        }
    }
}

/// The column of a total side's price: one headed `<`, `М`, `U` or `UNDER`
/// for the under side.
pub open spec fn under_header(h: Seq<char>) -> bool {
    h == canonical("<"@) || h == canonical("М"@) || h == canonical("U"@) || h == canonical("UNDER"@)
}

/// One headed `>`, `Б`, `O` or `OVER` for the over side.
pub open spec fn over_header(h: Seq<char>) -> bool {
    h == canonical(">"@) || h == canonical("Б"@) || h == canonical("O"@) || h == canonical("OVER"@)
}

/// The price of column `j` of a row, read as an `f64`'s bits.
pub open spec fn priced_from(parsed: Seq<Option<u64>>, canon: Seq<Seq<char>>, j: int, price: JsonNumber) -> bool {
    &&& 0 <= j < parsed.len()
    &&& j < canon.len()
    &&& parsed[j] is Some
    &&& price == JsonNumber::FloatBits(parsed[j]->0)
}

/// The sides of a row's total read their own columns: every under price of
/// the row is the number in a column headed `<`, `М`, `U` or `UNDER`, and
/// every over price the number in a column headed `>`, `Б`, `O` or `OVER`;
/// both are written as the `Total` market.
pub proof fn law_total_sides_read_their_columns(
    eid: Seq<char>,
    canon: Seq<Seq<char>>,
    parsed: Seq<Option<u64>>,
    ts: i64,
)
    ensures
        forall|i: int|
            0 <= i < primary_odds(eid, canon, parsed, ts).len() && (#[trigger] primary_odds(
                eid,
                canon,
                parsed,
                ts,
            )[i]).odds_type == OddsType::Under ==> {
                let o = primary_odds(eid, canon, parsed, ts)[i];
                &&& o.market == "Total"@
                &&& exists|j: int| priced_from(parsed, canon, j, o.price) && under_header(#[trigger] canon[j])
            },
        forall|i: int|
            0 <= i < primary_odds(eid, canon, parsed, ts).len() && (#[trigger] primary_odds(
                eid,
                canon,
                parsed,
                ts,
            )[i]).odds_type == OddsType::Over ==> {
                let o = primary_odds(eid, canon, parsed, ts)[i];
                &&& o.market == "Total"@
                &&& exists|j: int| priced_from(parsed, canon, j, o.price) && over_header(#[trigger] canon[j])
            },
{
    let n = parsed.len() as int;
    let total = line_at(parsed, header_index(canon, n, total_keys()));
    let m = main_odds(
        eid,
        price_at(parsed, header_index(canon, n, home_keys())),
        price_at(parsed, header_index(canon, n, draw_keys())),
        price_at(parsed, header_index(canon, n, away_keys())),
        ts,
    );
    let h1 = lined_odd(
        eid,
        "hc1"@,
        "Handicap"@,
        "1"@,
        OddsType::Handicap,
        line_at(parsed, header_index(canon, n, seq!["Ф1"@])),
        price_at(parsed, header_index(canon, n, seq!["К1"@])),
        ts,
    );
    let h2 = lined_odd(
        eid,
        "hc2"@,
        "Handicap"@,
        "2"@,
        OddsType::Handicap,
        line_at(parsed, header_index(canon, n, seq!["Ф2"@])),
        price_at(parsed, header_index(canon, n, seq!["К2"@])),
        ts,
    );
    let uj = header_index(canon, n, under_keys());
    let oj = header_index(canon, n, over_keys());
    let u = lined_odd(eid, "under"@, "Total"@, "Under"@, OddsType::Under, total, price_at(parsed, uj), ts);
    let v = lined_odd(eid, "over"@, "Total"@, "Over"@, OddsType::Over, total, price_at(parsed, oj), ts);
    let all = primary_odds(eid, canon, parsed, ts);
    assert(all == m + h1 + h2 + u + v);
    lemma_header_index(canon, n, under_keys());
    lemma_header_index(canon, n, over_keys());
    assert forall|i: int| 0 <= i < m.len() implies #[trigger] m[i].odds_type != OddsType::Under
        && m[i].odds_type != OddsType::Over by {}
    if u.len() > 0 {
        let j = uj->0;
        let k = choose|k: int| 0 <= k < under_keys().len() && canon[j] == canonical(#[trigger] under_keys()[k]);
        assert(under_header(canon[j]));
        assert(priced_from(parsed, canon, j, u[0].price));
    }
    if v.len() > 0 {
        let j = oj->0;
        let k = choose|k: int| 0 <= k < over_keys().len() && canon[j] == canonical(#[trigger] over_keys()[k]);
        assert(over_header(canon[j]));
        assert(priced_from(parsed, canon, j, v[0].price));
    }
    let a = m + h1 + h2;
    assert forall|i: int|
        0 <= i < all.len() && (#[trigger] all[i]).odds_type == OddsType::Under implies {
            &&& all[i].market == "Total"@
            &&& exists|j: int| priced_from(parsed, canon, j, all[i].price) && under_header(#[trigger] canon[j])
        } by {
        if i < a.len() {
            assert(all[i] == a[i]);
            if i < m.len() {
                assert(a[i] == m[i]);
            } else if i < m.len() + h1.len() {
                assert(a[i] == h1[i - m.len()]);
            } else {
                assert(a[i] == h2[i - m.len() - h1.len()]);
            }
        } else if i < a.len() + u.len() {
            assert(all[i] == u[i - a.len()]);
            let j = uj->0;
            assert(priced_from(parsed, canon, j, all[i].price) && under_header(canon[j]));
        } else {
            assert(all[i] == v[i - a.len() - u.len()]);
        }
    }
    assert forall|i: int|
        0 <= i < all.len() && (#[trigger] all[i]).odds_type == OddsType::Over implies {
            &&& all[i].market == "Total"@
            &&& exists|j: int| priced_from(parsed, canon, j, all[i].price) && over_header(#[trigger] canon[j])
        } by {
        if i < a.len() {
            assert(all[i] == a[i]);
            if i < m.len() {
                assert(a[i] == m[i]);
            } else if i < m.len() + h1.len() {
                assert(a[i] == h1[i - m.len()]);
            } else {
                assert(a[i] == h2[i - m.len() - h1.len()]);
            }
        } else if i < a.len() + u.len() {
            assert(all[i] == u[i - a.len()]);
        } else {
            assert(all[i] == v[i - a.len() - u.len()]);
            let j = oj->0;
            assert(priced_from(parsed, canon, j, all[i].price) && over_header(canon[j]));
        }
    }
}

/// A column as an integer.
pub open spec fn index_view(j: Option<usize>) -> Option<int> {
    match j {
        Some(x) => Some(x as int),
        None => None,
    }
}

/// The canonical headers of a list of headers.
pub open spec fn canonical_all(headers: Seq<Seq<char>>) -> Seq<Seq<char>> {
    headers.map_values(|h: Seq<char>| canonical(h))
}

/// The column of the last header that is `c`.
fn last_header_of(canon: &Vec<String>, c: &str) -> (r: Option<usize>)
    ensures
        match r {
            Some(j) => last_header(views(canon@), c@) == Some(j as int),
            None => last_header(views(canon@), c@) is None,
        },
{
    let mut i: usize = canon.len();
    assert(views(canon@).take(i as int) =~= views(canon@));
    while i > 0
        invariant
            i <= canon@.len(),
            last_header(views(canon@), c@) == last_header(views(canon@).take(i as int), c@),
        decreases i,
    {
        let ghost pre = views(canon@).take(i as int);
        assert(pre.last() == canon@[i - 1]@);
        assert(pre.drop_last() =~= views(canon@).take(i - 1));
        if !canon[i - 1].as_str().is_empty() && str_eq(canon[i - 1].as_str(), c) {
            return Some(i - 1);
        }
        i = i - 1;
    }
    None
}

/// The column of the first of `keys` the row has.
fn find_header(canon: &Vec<String>, cells_len: usize, keys: &[&'static str]) -> (r: Option<usize>)
    ensures
        match r {
            Some(j) => header_index(views(canon@), cells_len as int, static_views(keys@)) == Some(j as int),
            None => header_index(views(canon@), cells_len as int, static_views(keys@)) is None,
        },
        r matches Some(j) ==> j < cells_len,
{
    let mut k: usize = 0;
    assert(static_views(keys@).skip(0) =~= static_views(keys@));
    while k < keys.len()
        invariant
            k <= keys@.len(),
            header_index(views(canon@), cells_len as int, static_views(keys@)) == header_index(
                views(canon@),
                cells_len as int,
                static_views(keys@).skip(k as int),
            ),
        decreases keys@.len() - k,
    {
        let ghost rest = static_views(keys@).skip(k as int);
        assert(rest[0] == keys@[k as int]@);
        assert(rest.drop_first() =~= static_views(keys@).skip(k + 1));
        let c = canonical_header(keys[k]);
        match last_header_of(canon, c.as_str()) {
            Some(j) => if j < cells_len {
                return Some(j);
            },
            None => {},
        }
        k = k + 1;
    }
    assert(static_views(keys@).skip(k as int).len() == 0);
    None
}

/// The price in column `j`, where it is in `1.01..=100.0`.
fn price_of(parsed: &Vec<Option<u64>>, j: Option<usize>) -> (r: Option<u64>)
    requires
        j matches Some(j) ==> j < parsed@.len(),
    ensures
        r == price_at(parsed@, index_view(j)),
{
    match j {
        Some(j) => match parsed[j] {
            Some(b) => if 0x3FF0_28F5_C28F_5C29u64 <= b && b <= 0x4059_0000_0000_0000u64 {
                Some(b)
            } else {
                None
            },
            None => None,
        },
        None => None,
    }
}

/// The line in column `j`, where its magnitude is at most 1000.
fn line_of(parsed: &Vec<Option<u64>>, j: Option<usize>) -> (r: Option<u64>)
    requires
        j matches Some(j) ==> j < parsed@.len(),
    ensures
        r == line_at(parsed@, index_view(j)),
{
    match j {
        Some(j) => match parsed[j] {
            Some(b) => {
                let m: u64 = if b >= 0x8000_0000_0000_0000u64 {
                    b - 0x8000_0000_0000_0000u64
                } else {
                    b
                };
                if m <= 0x408F_4000_0000_0000u64 {
                    Some(b)
                } else {
                    None
                }
            },
            None => None,
        },
        None => None,
    }
}

/// A price of the event `eid`.
fn make_odd(
    eid: &str,
    suffix: &str,
    market: &str,
    selection: &str,
    kind: OddsType,
    price: u64,
    line: Option<u64>,
    ts: i64,
) -> (r: Odd)
    ensures
        r@ == tennisi_odd(eid@, suffix@, market@, selection@, kind, price, line, ts),
{
    let mut id = owned(eid);
    push_str(&mut id, "-");
    push_str(&mut id, suffix);
    Odd {
        id,
        event_id: owned(eid),
        bookmaker_slug: owned("tennisi"),
        market: owned(market),
        selection: owned(selection),
        price: JsonNumber::FloatBits(price),
        odds_type: kind,
        line: match line {
            Some(l) => Some(JsonNumber::FloatBits(l)),
            None => None,
        },
        timestamp_ms: ts,
    }
}

/// Appends `o` to `out`.
fn push_odd(out: &mut Vec<Odd>, o: Odd)
    ensures
        odd_views(final(out)@) == odd_views(old(out)@).push(o@),
{
    out.push(o);
    assert(odd_views(out@) =~= odd_views(old(out)@).push(o@));
}

/// The primary prices of an event row at `ts`: its cells under `headers`,
/// each cell as `parsed` reads it (the cell trimmed, `,` read as `.`, then
/// as an `f64`'s bits; `None` where it is no number). The sport takes no
/// part: a three-way market is written exactly where the draw has a price.
pub fn extract_primary_odds(
    event_id: &str,
    headers: &Vec<String>,
    cells: &Vec<String>,
    sport: Sport,
    parsed: &Vec<Option<u64>>,
    now_ms: i64,
) -> (r: Vec<Odd>)
    requires
        parsed@.len() == cells@.len(),
    ensures
        odd_views(r@) == primary_odds(event_id@, canonical_all(views(headers@)), parsed@, now_ms),
{
    let mut canon: Vec<String> = Vec::new();
    let mut i: usize = 0;
    while i < headers.len()
        invariant
            i <= headers@.len(),
            views(canon@) == canonical_all(views(headers@)).take(i as int),
        decreases headers@.len() - i,
    {
        let c = canonical_header(headers[i].as_str());
        let ghost prev = canon@;
        canon.push(c);
        assert(canon@ == prev.push(c));
        assert(c@ == canonical(headers@[i as int]@));
        assert(canonical_all(views(headers@))[i as int] == canonical(headers@[i as int]@));
        assert(views(canon@) =~= views(prev).push(c@));
        assert(canonical_all(views(headers@)).take(i + 1) =~= canonical_all(views(headers@)).take(
            i as int,
        ).push(canonical(headers@[i as int]@)));
        assert(views(canon@) =~= canonical_all(views(headers@)).take(i + 1));
        i = i + 1;
    }
    assert(canonical_all(views(headers@)).take(headers@.len() as int) =~= canonical_all(views(headers@)));
    let n = cells.len();
    let hk: [&'static str; 2] = ["П1", "1"];
    assert(static_views(hk@) =~= home_keys());
    let dk: [&'static str; 2] = ["X", "Х"];
    assert(static_views(dk@) =~= draw_keys());
    let ak: [&'static str; 2] = ["П2", "2"];
    assert(static_views(ak@) =~= away_keys());
    let f1k: [&'static str; 1] = ["Ф1"];
    assert(static_views(f1k@) =~= seq!["Ф1"@]);
    let k1k: [&'static str; 1] = ["К1"];
    assert(static_views(k1k@) =~= seq!["К1"@]);
    let f2k: [&'static str; 1] = ["Ф2"];
    assert(static_views(f2k@) =~= seq!["Ф2"@]);
    let k2k: [&'static str; 1] = ["К2"];
    assert(static_views(k2k@) =~= seq!["К2"@]);
    let tk: [&'static str; 3] = ["TM", "ТМ", "TOTAL"];
    assert(static_views(tk@) =~= total_keys());
    let uk: [&'static str; 4] = ["<", "М", "U", "UNDER"];
    assert(static_views(uk@) =~= under_keys());
    let ok: [&'static str; 4] = [">", "Б", "O", "OVER"];
    assert(static_views(ok@) =~= over_keys());
    let ghost cv = canonical_all(views(headers@));
    let ghost nn = parsed@.len() as int;
    assert(views(canon@) == cv);
    let hi = find_header(&canon, n, &hk);
    let di = find_header(&canon, n, &dk);
    let ai = find_header(&canon, n, &ak);
    let home = price_of(parsed, hi);
    let draw = price_of(parsed, di);
    let away = price_of(parsed, ai);
    let mut out: Vec<Odd> = Vec::new();
    match (home, away) {
        (Some(h), Some(a)) => match draw {
            Some(d) => {
                push_odd(&mut out, make_odd(event_id, "1", "1X2", "1", OddsType::Home, h, None, now_ms));
                push_odd(&mut out, make_odd(event_id, "X", "1X2", "X", OddsType::Draw, d, None, now_ms));
                push_odd(&mut out, make_odd(event_id, "2", "1X2", "2", OddsType::Away, a, None, now_ms));
            },
            None => {
                push_odd(&mut out, make_odd(event_id, "1", "Moneyline", "1", OddsType::Home, h, None, now_ms));
                push_odd(&mut out, make_odd(event_id, "2", "Moneyline", "2", OddsType::Away, a, None, now_ms));
            },
        },
        _ => {},
    }
    assert(odd_views(out@) =~= main_odds(
        event_id@,
        price_at(parsed@, header_index(cv, nn, home_keys())),
        price_at(parsed@, header_index(cv, nn, draw_keys())),
        price_at(parsed@, header_index(cv, nn, away_keys())),
        now_ms,
    ));
    let ghost main = odd_views(out@);
    let l1 = line_of(parsed, find_header(&canon, n, &f1k));
    let p1 = price_of(parsed, find_header(&canon, n, &k1k));
    match (l1, p1) {
        (Some(l), Some(p)) => {
            push_odd(&mut out, make_odd(event_id, "hc1", "Handicap", "1", OddsType::Handicap, p, Some(l), now_ms));
        },
        _ => {},
    }
    assert(odd_views(out@) =~= main + lined_odd(event_id@, "hc1"@, "Handicap"@, "1"@, OddsType::Handicap,
        line_at(parsed@, header_index(cv, nn, seq!["Ф1"@])), price_at(parsed@, header_index(cv, nn, seq!["К1"@])), now_ms));
    let ghost after_hc1 = odd_views(out@);
    let l2 = line_of(parsed, find_header(&canon, n, &f2k));
    let p2 = price_of(parsed, find_header(&canon, n, &k2k));
    match (l2, p2) {
        (Some(l), Some(p)) => {
            push_odd(&mut out, make_odd(event_id, "hc2", "Handicap", "2", OddsType::Handicap, p, Some(l), now_ms));
        },
        _ => {},
    }
    assert(odd_views(out@) =~= after_hc1 + lined_odd(event_id@, "hc2"@, "Handicap"@, "2"@, OddsType::Handicap,
        line_at(parsed@, header_index(cv, nn, seq!["Ф2"@])), price_at(parsed@, header_index(cv, nn, seq!["К2"@])), now_ms));
    let ghost after_hc2 = odd_views(out@);
    let total = line_of(parsed, find_header(&canon, n, &tk));
    let under = price_of(parsed, find_header(&canon, n, &uk));
    let over = price_of(parsed, find_header(&canon, n, &ok));
    match (total, under) {
        (Some(l), Some(p)) => {
            push_odd(&mut out, make_odd(event_id, "under", "Total", "Under", OddsType::Under, p, Some(l), now_ms));
        },
        _ => {},
    }
    let ghost total_s = line_at(parsed@, header_index(cv, nn, total_keys()));
    assert(odd_views(out@) =~= after_hc2 + lined_odd(event_id@, "under"@, "Total"@, "Under"@, OddsType::Under,
        total_s, price_at(parsed@, header_index(cv, nn, under_keys())), now_ms));
    let ghost after_under = odd_views(out@);
    match (total, over) {
        (Some(l), Some(p)) => {
            push_odd(&mut out, make_odd(event_id, "over", "Total", "Over", OddsType::Over, p, Some(l), now_ms));
        },
        _ => {},
    }
    assert(odd_views(out@) =~= after_under + lined_odd(event_id@, "over"@, "Total"@, "Over"@, OddsType::Over,
        total_s, price_at(parsed@, header_index(cv, nn, over_keys())), now_ms));
    out
}

/// A cell's text as a number is read from it: trimmed, each `,` written as
/// `.`.
pub fn number_text(cell: &str) -> (r: String)
    ensures
        r@ == comma_to_dot(trim(cell@)),
{
    let tr = trim_str(cell);
    let mut out = String::new();
    let mut i: usize = 0;
    while i < tr.len()
        invariant
            i <= tr@.len(),
            out@ == comma_to_dot(tr@.take(i as int)),
        decreases tr@.len() - i,
    {
        let c = tr[i];
        let d = if c == ',' {
            '.'
        } else {
            c
        };
        push_char(&mut out, d);
        assert(comma_to_dot(tr@.take(i + 1)) =~= comma_to_dot(tr@.take(i as int)).push(d));
        i = i + 1;
    }
    assert(tr@.take(tr@.len() as int) =~= tr@);
    out
}

} // verus!
