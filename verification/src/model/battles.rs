//! The battle phases of a report, the attack lists read from them, and the
//! sheets they are laid out on.
use vstd::prelude::*;
use crate::json::{opt_view, Json};
use crate::model::attack::AttackTrait;
use crate::model::error::ReportError;
use crate::model::fields::{int_member, list_member, spec_int_member, spec_list_member};
use crate::model::rows::WriteType;
use crate::text::{decimal_text, digit_char, format_sheet_name, nat_digits};

verus! {

/// The key of one side's sheet: `stem`, `_`, the side number.
pub open spec fn sheet_key(stem: Seq<char>, side: int) -> Seq<char> {
    stem + seq!['_'] + decimal_text(side)
}

/// The battle phases read as ordinary attacks: the sheet key stem, the
/// member of the report that holds them, and the sheet title.
pub open spec fn spec_normal_battles() -> Seq<(Seq<char>, Seq<char>, Seq<char>)> {
    seq![
        ("open_missile"@, "openMissileAttack"@, "开幕导弹"@),
        ("open_torpedo"@, "openTorpedoAttack"@, "开幕雷击"@),
        ("open_antisub"@, "openAntiSubAttack"@, "开幕反潜"@),
        ("normal"@, "normalAttacks"@, "炮击"@),
        ("normal2"@, "normalAttacks2"@, "次轮炮击"@),
        ("close_torpedo"@, "closeTorpedoAttack"@, "闭幕雷"@),
        ("close_missile"@, "closeMissileAttack"@, "闭幕导弹"@),
    ]
}

/// The battle phases read as air attacks.
pub open spec fn spec_air_battles() -> Seq<(Seq<char>, Seq<char>, Seq<char>)> {
    seq![("open_air"@, "openAirAttack"@, "开幕空袭"@)]
}

pub open spec fn triples_view(
    t: Seq<(&'static str, &'static str, &'static str)>,
) -> Seq<(Seq<char>, Seq<char>, Seq<char>)> {
    t.map_values(|e: (&'static str, &'static str, &'static str)| (e.0@, e.1@, e.2@))
}

/// The ordinary battle phases, in the order they are read and laid out.
pub fn normal_battles() -> (r: Vec<(&'static str, &'static str, &'static str)>)
    ensures
        triples_view(r@) == spec_normal_battles(),
{
    let r = vec![
        ("open_missile", "openMissileAttack", "开幕导弹"),
        ("open_torpedo", "openTorpedoAttack", "开幕雷击"),
        ("open_antisub", "openAntiSubAttack", "开幕反潜"),
        ("normal", "normalAttacks", "炮击"),
        ("normal2", "normalAttacks2", "次轮炮击"),
        ("close_torpedo", "closeTorpedoAttack", "闭幕雷"),
        ("close_missile", "closeMissileAttack", "闭幕导弹"),
    ];
    assert(triples_view(r@) =~= spec_normal_battles());
    r
}

/// The air battle phases.
pub fn air_battles() -> (r: Vec<(&'static str, &'static str, &'static str)>)
    ensures
        triples_view(r@) == spec_air_battles(),
{
    let r = vec![("open_air", "openAirAttack", "开幕空袭")];
    assert(triples_view(r@) =~= spec_air_battles());
    r
}

/// The attacks of `items`, split by the side that made them (1, then 2),
/// each side in the order of the list.
pub open spec fn spec_sides<T: AttackTrait>(items: Seq<Json>) -> Result<(Seq<T>, Seq<T>), ReportError>
    decreases items.len(),
{
    if items.len() == 0 {
        Ok((Seq::empty(), Seq::empty()))
    } else {
        match spec_sides::<T>(items.drop_last()) {
            Err(e) => Err(e),
            Ok((first, second)) => match spec_int_member(items.last(), "attackSide"@) {
                Err(e) => Err(e),
                Ok(side) => match T::spec_from(items.last()) {
                    Err(e) => Err(e),
                    Ok(atk) => if side == 1 {
                        Ok((first.push(atk), second))
                    } else if side == 2 {
                        Ok((first, second.push(atk)))
                    } else {
                        Err(ReportError::UnknownSide(side))
                    },
                },
            },
        }
    }
}

/// The attacks under `key` of a war report, split by side.
pub open spec fn spec_attack_lists<T: AttackTrait>(report: Json, key: Seq<char>) -> Result<
    (Seq<T>, Seq<T>),
    ReportError,
> {
    match spec_list_member(report, key) {
        Err(e) => Err(e),
        Ok(items) => spec_sides::<T>(items),
    }
}

/// For each phase of `sources`, its two sides' attacks under their sheet keys.
pub open spec fn spec_keyed<T: AttackTrait>(
    report: Json,
    sources: Seq<(Seq<char>, Seq<char>, Seq<char>)>,
) -> Result<Seq<(Seq<char>, Seq<T>)>, ReportError>
    decreases sources.len(),
{
    if sources.len() == 0 {
        Ok(Seq::empty())
    } else {
        match spec_keyed::<T>(report, sources.drop_last()) {
            Err(e) => Err(e),
            Ok(lists) => {
                let src = sources.last();
                match spec_attack_lists::<T>(report, src.1) {
                    Err(e) => Err(e),
                    Ok((first, second)) => Ok(
                        lists.push((sheet_key(src.0, 1), first)).push((sheet_key(src.0, 2), second)),
                    ),
                }
            },
        }
    }
}

proof fn lemma_sides_err<T: AttackTrait>(items: Seq<Json>, k: int)
    requires
        0 <= k <= items.len(),
        spec_sides::<T>(items.take(k)) is Err,
    ensures
        spec_sides::<T>(items) == spec_sides::<T>(items.take(k)),
    decreases items.len() - k,
{
    if k < items.len() {
        assert(items.take(k + 1).drop_last() =~= items.take(k));
        lemma_sides_err::<T>(items, k + 1);
    } else {
        assert(items.take(k) =~= items);
    }
}

proof fn lemma_keyed_err<T: AttackTrait>(
    report: Json,
    sources: Seq<(Seq<char>, Seq<char>, Seq<char>)>,
    k: int,
)
    requires
        0 <= k <= sources.len(),
        spec_keyed::<T>(report, sources.take(k)) is Err,
    ensures
        spec_keyed::<T>(report, sources) == spec_keyed::<T>(report, sources.take(k)),
    decreases sources.len() - k,
{
    if k < sources.len() {
        assert(sources.take(k + 1).drop_last() =~= sources.take(k));
        lemma_keyed_err::<T>(report, sources, k + 1);
    } else {
        assert(sources.take(k) =~= sources);
    }
}

/// Keyed entries, each key taken by its view.
pub open spec fn pairs_view<V: View>(es: Seq<(String, V)>) -> Seq<(Seq<char>, V::V)> {
    es.map_values(|e: (String, V)| (e.0@, e.1@))
}

/// Reads the attacks under `key`, split by side.
fn parse_attacks<T: AttackTrait>(report: &Json, key: &str) -> (r: Result<(Vec<T>, Vec<T>), ReportError>)
    ensures
        match r {
            Ok((a, b)) => spec_attack_lists::<T>(*report, key@) == Ok::<(Seq<T>, Seq<T>), ReportError>((a@, b@)),
            Err(e) => spec_attack_lists::<T>(*report, key@) == Err::<(Seq<T>, Seq<T>), ReportError>(e),
        },
{
    let items = match list_member(report, key) {
        Ok(items) => items,
        Err(e) => return Err(e),
    };
    let mut first: Vec<T> = Vec::new();
    let mut second: Vec<T> = Vec::new();
    let n = items.len();
    let mut i: usize = 0;
    assert(items@.take(0) =~= Seq::<Json>::empty());
    while i < n
        invariant
            n == items@.len(),
            i <= n,
            spec_list_member(*report, key@) == Ok::<Seq<Json>, ReportError>(items@),
            spec_sides::<T>(items@.take(i as int)) == Ok::<(Seq<T>, Seq<T>), ReportError>(
                (first@, second@),
            ),
        decreases n - i,
    {
        let item = &items[i];
        proof {
            assert(items@.take(i + 1).drop_last() =~= items@.take(i as int));
            assert(items@.take(i + 1).last() == items@[i as int]);
        }
        let side = match int_member(item, "attackSide") {
            Ok(s) => s,
            Err(e) => {
                proof {
                    lemma_sides_err::<T>(items@, i + 1);
                }
                return Err(e);
            },
        };
        let atk = match T::read(item) {
            Ok(a) => a,
            Err(e) => {
                proof {
                    lemma_sides_err::<T>(items@, i + 1);
                }
                return Err(e);
            },
        };
        if side == 1 {
            first.push(atk);
        } else if side == 2 {
            second.push(atk);
        } else {
            proof {
                lemma_sides_err::<T>(items@, i + 1);
            }
            return Err(ReportError::UnknownSide(side));
        }
        i = i + 1;
    }
    assert(items@.take(n as int) =~= items@);
    Ok((first, second))
}

/// Reads, for each phase of `sources`, both sides' attacks under their sheet keys.
pub(crate) fn parse_keyed<T: AttackTrait>(
    report: &Json,
    sources: &Vec<(&'static str, &'static str, &'static str)>,
) -> (r: Result<Vec<(String, Vec<T>)>, ReportError>)
    ensures
        match r {
            Ok(lists) => spec_keyed::<T>(*report, triples_view(sources@)) == Ok::<
                Seq<(Seq<char>, Seq<T>)>,
                ReportError,
            >(pairs_view(lists@)),
            Err(e) => spec_keyed::<T>(*report, triples_view(sources@)) == Err::<
                Seq<(Seq<char>, Seq<T>)>,
                ReportError,
            >(e),
        },
{
    let ghost srcs = triples_view(sources@);
    let mut lists: Vec<(String, Vec<T>)> = Vec::new();
    let n = sources.len();
    let mut i: usize = 0;
    assert(srcs.take(0) =~= Seq::<(Seq<char>, Seq<char>, Seq<char>)>::empty());
    assert(pairs_view(lists@) =~= Seq::<(Seq<char>, Seq<T>)>::empty());
    while i < n
        invariant
            n == sources@.len(),
            srcs == triples_view(sources@),
            i <= n,
            spec_keyed::<T>(*report, srcs.take(i as int)) == Ok::<
                Seq<(Seq<char>, Seq<T>)>,
                ReportError,
            >(pairs_view(lists@)),
        decreases n - i,
    {
        let (stem, key, title) = sources[i];
        proof {
            assert(srcs.take(i + 1).drop_last() =~= srcs.take(i as int));
            assert(srcs.take(i + 1).last() == srcs[i as int]);
            assert(srcs[i as int] == (stem@, key@, title@));
        }
        let (first, second) = match parse_attacks::<T>(report, key) {
            Ok(p) => p,
            Err(e) => {
                proof {
                    lemma_keyed_err::<T>(*report, srcs, i + 1);
                }
                return Err(e);
            },
        };
        let ghost before = lists@;
        lists.push((format_sheet_name(stem, 1), first));
        lists.push((format_sheet_name(stem, 2), second));
        proof {
            assert(pairs_view(lists@) =~= pairs_view(before).push((sheet_key(stem@, 1), first@)).push(
                (sheet_key(stem@, 2), second@),
            ));
        }
        i = i + 1;
    }
    assert(srcs.take(n as int) =~= srcs);
    Ok(lists)
}

/// The value of the first entry under `key`.
pub open spec fn entry<V>(es: Seq<(Seq<char>, V)>, key: Seq<char>) -> Option<V>
    decreases es.len(),
{
    if es.len() == 0 {
        None
    } else if es[0].0 == key {
        Some(es[0].1)
    } else {
        entry(es.drop_first(), key)
    }
}

proof fn lemma_entry_skip<V>(es: Seq<(Seq<char>, V)>, key: Seq<char>, i: int)
    requires
        0 <= i <= es.len(),
        forall|j: int| 0 <= j < i ==> es[j].0 != key,
    ensures
        entry(es, key) == entry(es.skip(i), key),
    decreases i,
{
    if i > 0 {
        lemma_entry_skip(es.drop_first(), key, i - 1);
        assert(es.drop_first().skip(i - 1) =~= es.skip(i));
    } else {
        assert(es.skip(0) =~= es);
    }
}

/// A key that some entry has is found.
pub(crate) proof fn lemma_entry_found<V>(es: Seq<(Seq<char>, V)>, key: Seq<char>, i: int)
    requires
        0 <= i < es.len(),
        es[i].0 == key,
    ensures
        entry(es, key) is Some,
    decreases i,
{
    if i > 0 && es[0].0 != key {
        lemma_entry_found(es.drop_first(), key, i - 1);
    }
}

/// Finds the entry under `key`.
pub(crate) fn find_entry<'a, V: View>(es: &'a Vec<(String, V)>, key: &str) -> (r: Option<&'a V>)
    ensures
        opt_view(r) == entry(pairs_view(es@), key@),
{
    let ghost pv = pairs_view(es@);
    let wanted = key.to_owned();
    let n = es.len();
    let mut i: usize = 0;
    while i < n
        invariant
            n == es@.len(),
            pv == pairs_view(es@),
            i <= n,
            wanted@ == key@,
            forall|j: int| 0 <= j < i ==> pv[j].0 != key@,
        decreases n - i,
    {
        if es[i].0 == wanted {
            proof {
                lemma_entry_skip(pv, key@, i as int);
                assert(pv.skip(i as int)[0] == pv[i as int]);
            }
            return Some(&es[i].1);
        }
        assert(pv[i as int].0 == es@[i as int].0@);
        i = i + 1;
    }
    proof {
        lemma_entry_skip(pv, key@, n as int);
    }
    None
}

/// The sheets of one kind, in the order they are created: for each phase
/// of `sources` and each side, the sheet key and the sheet title.
pub open spec fn layout_of(sources: Seq<(Seq<char>, Seq<char>, Seq<char>)>) -> Seq<
    (Seq<char>, Seq<char>),
>
    decreases sources.len(),
{
    if sources.len() == 0 {
        Seq::empty()
    } else {
        let src = sources.last();
        layout_of(sources.drop_last()).push((sheet_key(src.0, 1), sheet_key(src.2, 1))).push(
            (sheet_key(src.0, 2), sheet_key(src.2, 2)),
        )
    }
}

/// The sheets for rows of `write_type`: (sheet key, sheet title) pairs.
pub open spec fn spec_layout(write_type: WriteType) -> Seq<(Seq<char>, Seq<char>)> {
    match write_type {
        WriteType::NormalBattle => layout_of(spec_normal_battles()),
        WriteType::AirBattle => layout_of(spec_air_battles()),
        WriteType::HpInfo => seq![
            (sheet_key("hp"@, 1), sheet_key("hp"@, 1)),
            (sheet_key("hp"@, 2), sheet_key("hp"@, 2)),
        ],
    }
}

fn layout_from(sources: &Vec<(&'static str, &'static str, &'static str)>) -> (r: Vec<(String, String)>)
    ensures
        pairs_view(r@) == layout_of(triples_view(sources@)),
{
    let ghost srcs = triples_view(sources@);
    let mut r: Vec<(String, String)> = Vec::new();
    let n = sources.len();
    let mut i: usize = 0;
    assert(srcs.take(0) =~= Seq::<(Seq<char>, Seq<char>, Seq<char>)>::empty());
    assert(pairs_view(r@) =~= Seq::<(Seq<char>, Seq<char>)>::empty());
    while i < n
        invariant
            n == sources@.len(),
            srcs == triples_view(sources@),
            i <= n,
            pairs_view(r@) == layout_of(srcs.take(i as int)),
        decreases n - i,
    {
        let (stem, report_key, title) = sources[i];
        proof {
            assert(srcs.take(i + 1).drop_last() =~= srcs.take(i as int));
            assert(srcs.take(i + 1).last() == srcs[i as int]);
            assert(srcs[i as int] == (stem@, report_key@, title@));
        }
        let ghost before = r@;
        r.push((format_sheet_name(stem, 1), format_sheet_name(title, 1)));
        r.push((format_sheet_name(stem, 2), format_sheet_name(title, 2)));
        assert(pairs_view(r@) =~= pairs_view(before).push((sheet_key(stem@, 1), sheet_key(title@, 1))).push(
            (sheet_key(stem@, 2), sheet_key(title@, 2)),
        ));
        i = i + 1;
    }
    assert(srcs.take(n as int) =~= srcs);
    r
}

/// The sheets for rows of `write_type`, in the order they are created:
/// (sheet key, sheet title) pairs, two sides for each phase.
pub fn sheet_layout(write_type: WriteType) -> (r: Vec<(String, String)>)
    ensures
        pairs_view(r@) == spec_layout(write_type),
{
    match write_type {
        WriteType::NormalBattle => layout_from(&normal_battles()),
        WriteType::AirBattle => layout_from(&air_battles()),
        WriteType::HpInfo => {
            let mut r: Vec<(String, String)> = Vec::new();
            r.push((format_sheet_name("hp", 1), format_sheet_name("hp", 1)));
            r.push((format_sheet_name("hp", 2), format_sheet_name("hp", 2)));
            assert(pairs_view(r@) =~= spec_layout(write_type));
            r
        },
    }
}

/// The attack lists read for `sources` sit under the sheet keys of their layout.
pub(crate) proof fn lemma_keyed_keys<T: AttackTrait>(
    report: Json,
    sources: Seq<(Seq<char>, Seq<char>, Seq<char>)>,
)
    requires
        spec_keyed::<T>(report, sources) is Ok,
    ensures
        (spec_keyed::<T>(report, sources)->Ok_0).len() == layout_of(sources).len(),
        forall|j: int|
            0 <= j < layout_of(sources).len() ==> (#[trigger] (spec_keyed::<T>(
                report,
                sources,
            )->Ok_0)[j]).0 == layout_of(sources)[j].0,
    decreases sources.len(),
{
    if sources.len() > 0 {
        lemma_keyed_keys::<T>(report, sources.drop_last());
    }
}

/// Every attack entry of a list lands on exactly one side: the two sides
/// together hold as many attacks as the list has entries.
pub proof fn law_sides_count<T: AttackTrait>(items: Seq<Json>)
    requires
        spec_sides::<T>(items) is Ok,
    ensures
        (spec_sides::<T>(items)->Ok_0).0.len() + (spec_sides::<T>(items)->Ok_0).1.len()
            == items.len(),
    decreases items.len(),
{
    if items.len() > 0 {
        law_sides_count::<T>(items.drop_last());
    }
}

/// The keys of keyed entries, in order.
pub open spec fn keys_of<V>(es: Seq<(Seq<char>, V)>) -> Seq<Seq<char>> {
    es.map_values(|e: (Seq<char>, V)| e.0)
}

/// A sheet key of side 1 or 2 gives back its stem and its side.
proof fn lemma_sheet_key_injective(a: Seq<char>, b: Seq<char>, d: int, e: int)
    requires
        1 <= d <= 2,
        1 <= e <= 2,
        sheet_key(a, d) == sheet_key(b, e),
    ensures
        a == b,
        d == e,
{
    assert(decimal_text(d) == nat_digits(d as nat));
    assert(nat_digits(d as nat) == seq![digit_char(d)]);
    assert(nat_digits(e as nat) == seq![digit_char(e)]);
    let k = sheet_key(a, d);
    assert(k.len() == a.len() + 2);
    assert(k.len() == b.len() + 2);
    assert(k.last() == digit_char(d));
    assert(sheet_key(b, e).last() == digit_char(e));
    assert(k.take(a.len() as int) =~= a);
    assert(sheet_key(b, e).take(b.len() as int) =~= b);
}

/// No two phases of `sources` share a stem.
pub open spec fn distinct_stems(sources: Seq<(Seq<char>, Seq<char>, Seq<char>)>) -> bool {
    forall|i: int, j: int|
        0 <= i < sources.len() && 0 <= j < sources.len() && i != j ==> sources[i].0
            != sources[j].0
}

/// The sheet keys of a layout are those of its phases' stems, each once.
proof fn lemma_layout_keys(sources: Seq<(Seq<char>, Seq<char>, Seq<char>)>)
    requires
        distinct_stems(sources),
    ensures
        keys_of(layout_of(sources)).no_duplicates(),
        forall|k: int|
            0 <= k < layout_of(sources).len() ==> exists|j: int, d: int|
                0 <= j < sources.len() && 1 <= d <= 2 && #[trigger] layout_of(sources)[k].0
                    == sheet_key(sources[j].0, d),
    decreases sources.len(),
{
    if sources.len() > 0 {
        let rest = sources.drop_last();
        assert(distinct_stems(rest)) by {
            assert forall|i: int, j: int|
                0 <= i < rest.len() && 0 <= j < rest.len() && i != j implies rest[i].0
                    != rest[j].0 by {
                assert(rest[i] == sources[i] && rest[j] == sources[j]);
            }
        }
        lemma_layout_keys(rest);
        let before = layout_of(rest);
        let stem = sources.last().0;
        let a = sheet_key(stem, 1);
        let b = sheet_key(stem, 2);
        let l = layout_of(sources);
        assert(l == before.push((a, sheet_key(sources.last().2, 1))).push(
            (b, sheet_key(sources.last().2, 2)),
        ));
        // an earlier key is never one of the two new ones
        assert forall|k: int| 0 <= k < before.len() implies before[k].0 != a && before[k].0
            != b by {
            let (j, d) = choose|j: int, d: int|
                0 <= j < rest.len() && 1 <= d <= 2 && #[trigger] before[k].0 == sheet_key(
                    rest[j].0,
                    d,
                );
            assert(rest[j] == sources[j]);
            assert(sources[j].0 != stem);
            if before[k].0 == a {
                lemma_sheet_key_injective(rest[j].0, stem, d, 1);
            }
            if before[k].0 == b {
                lemma_sheet_key_injective(rest[j].0, stem, d, 2);
            }
        }
        if a == b {
            lemma_sheet_key_injective(stem, stem, 1, 2);
        }
        let ks = keys_of(l);
        assert forall|i: int, j: int|
            0 <= i < ks.len() && 0 <= j < ks.len() && i != j implies ks[i] != ks[j] by {
            if i < before.len() && j < before.len() {
                assert(ks[i] == keys_of(before)[i] && ks[j] == keys_of(before)[j]);
            } else if i < before.len() {
                assert(ks[i] == before[i].0);
            } else if j < before.len() {
                assert(ks[j] == before[j].0);
            }
        }
        assert forall|k: int| 0 <= k < l.len() implies exists|j: int, d: int|
            0 <= j < sources.len() && 1 <= d <= 2 && #[trigger] l[k].0 == sheet_key(
                sources[j].0,
                d,
            ) by {
            if k < before.len() {
                let (j, d) = choose|j: int, d: int|
                    0 <= j < rest.len() && 1 <= d <= 2 && #[trigger] before[k].0 == sheet_key(
                        rest[j].0,
                        d,
                    );
                assert(rest[j] == sources[j]);
                assert(l[k] == before[k]);
            } else if k == before.len() {
                assert(l[k].0 == sheet_key(sources[sources.len() - 1].0, 1));
            } else {
                assert(l[k].0 == sheet_key(sources[sources.len() - 1].0, 2));
            }
        }
    } else {
        assert(keys_of(layout_of(sources)) =~= Seq::<Seq<char>>::empty());
    }
}

proof fn lemma_battle_stems_distinct()
    ensures
        distinct_stems(spec_normal_battles()),
        distinct_stems(spec_air_battles()),
{
    reveal_strlit("open_missile");
    reveal_strlit("open_torpedo");
    reveal_strlit("open_antisub");
    reveal_strlit("normal");
    reveal_strlit("normal2");
    reveal_strlit("close_torpedo");
    reveal_strlit("close_missile");
    let s = spec_normal_battles();
    assert forall|i: int, j: int| 0 <= i < s.len() && 0 <= j < s.len() && i != j implies s[i].0
        != s[j].0 by {
        if s[i].0.len() == s[j].0.len() {
            assert(s[i].0[5] != s[j].0[5] || s[i].0[6] != s[j].0[6]);
        }
    }
}

/// The sheet keys of every layout are distinct.
pub proof fn law_layout_keys_distinct(write_type: WriteType)
    ensures
        keys_of(spec_layout(write_type)).no_duplicates(),
{
    lemma_battle_stems_distinct();
    match write_type {
        WriteType::NormalBattle => lemma_layout_keys(spec_normal_battles()),
        WriteType::AirBattle => lemma_layout_keys(spec_air_battles()),
        WriteType::HpInfo => {
            if sheet_key("hp"@, 1) == sheet_key("hp"@, 2) {
                lemma_sheet_key_injective("hp"@, "hp"@, 1, 2);
            }
            assert(keys_of(spec_layout(write_type)) =~= seq![sheet_key("hp"@, 1), sheet_key("hp"@, 2)]);
        },
    }
}

/// The attack lists of phase `j` of `sources` sit at positions `2j` and
/// `2j + 1`, under that phase's sheet keys, as read from its own member.
pub(crate) proof fn lemma_keyed_at<T: AttackTrait>(
    report: Json,
    sources: Seq<(Seq<char>, Seq<char>, Seq<char>)>,
    j: int,
)
    requires
        spec_keyed::<T>(report, sources) is Ok,
        0 <= j < sources.len(),
    ensures
        (spec_keyed::<T>(report, sources)->Ok_0).len() == 2 * sources.len(),
        spec_attack_lists::<T>(report, sources[j].1) is Ok,
        (spec_keyed::<T>(report, sources)->Ok_0)[2 * j] == (
            sheet_key(sources[j].0, 1),
            (spec_attack_lists::<T>(report, sources[j].1)->Ok_0).0,
        ),
        (spec_keyed::<T>(report, sources)->Ok_0)[2 * j + 1] == (
            sheet_key(sources[j].0, 2),
            (spec_attack_lists::<T>(report, sources[j].1)->Ok_0).1,
        ),
    decreases sources.len(),
{
    let rest = sources.drop_last();
    if j < sources.len() - 1 {
        lemma_keyed_at::<T>(report, rest, j);
        assert(rest[j] == sources[j]);
    } else if rest.len() > 0 {
        lemma_keyed_at::<T>(report, rest, 0);
    }
}

/// Where keys are distinct, the entry under a key is the one that has it.
pub(crate) proof fn lemma_entry_unique<V>(es: Seq<(Seq<char>, V)>, key: Seq<char>, i: int)
    requires
        keys_of(es).no_duplicates(),
        0 <= i < es.len(),
        es[i].0 == key,
    ensures
        entry(es, key) == Some(es[i].1),
    decreases i,
{
    if i > 0 {
        assert(keys_of(es)[0] != keys_of(es)[i]);
        let rest = es.drop_first();
        assert forall|a: int, b: int|
            0 <= a < keys_of(rest).len() && 0 <= b < keys_of(rest).len() && a != b implies keys_of(
            rest,
        )[a] != keys_of(rest)[b] by {
            assert(keys_of(rest)[a] == keys_of(es)[a + 1]);
            assert(keys_of(rest)[b] == keys_of(es)[b + 1]);
        }
        lemma_entry_unique(rest, key, i - 1);
    }
}

/// Reading one more attack entry: side 1 adds its attack to the end of the
/// first list, side 2 to the end of the second, and the other list stays.
pub proof fn law_sides_append<T: AttackTrait>(items: Seq<Json>, item: Json)
    requires
        spec_sides::<T>(items) is Ok,
        spec_int_member(item, "attackSide"@) is Ok,
        T::spec_from(item) is Ok,
    ensures
        ({
            let (first, second) = spec_sides::<T>(items)->Ok_0;
            let side = spec_int_member(item, "attackSide"@)->Ok_0;
            let atk = T::spec_from(item)->Ok_0;
            &&& side == 1 ==> spec_sides::<T>(items.push(item)) == Ok::<
                (Seq<T>, Seq<T>),
                ReportError,
            >((first.push(atk), second))
            &&& side == 2 ==> spec_sides::<T>(items.push(item)) == Ok::<
                (Seq<T>, Seq<T>),
                ReportError,
            >((first, second.push(atk)))
            &&& side != 1 && side != 2 ==> spec_sides::<T>(items.push(item)) == Err::<
                (Seq<T>, Seq<T>),
                ReportError,
            >(ReportError::UnknownSide(side))
        }),
{
    assert(items.push(item).drop_last() =~= items);
}

/// The ordinary-attack sheets, in the order they are created: for
/// open_missile (开幕导弹), open_torpedo (开幕雷击), open_antisub (开幕反潜),
/// normal (炮击), normal2 (次轮炮击), close_torpedo (闭幕雷) and
/// close_missile (闭幕导弹), side 1 then side 2, each keyed `stem_side`
/// and titled `title_side`; the air sheets likewise for open_air (开幕空袭);
/// the hit-point sheets hp_1 and hp_2.
pub proof fn law_layout_table()
    ensures
        ({
            let n = spec_layout(WriteType::NormalBattle);
            let stems = seq![
                "open_missile"@,
                "open_torpedo"@,
                "open_antisub"@,
                "normal"@,
                "normal2"@,
                "close_torpedo"@,
                "close_missile"@,
            ];
            let titles = seq![
                "开幕导弹"@,
                "开幕雷击"@,
                "开幕反潜"@,
                "炮击"@,
                "次轮炮击"@,
                "闭幕雷"@,
                "闭幕导弹"@,
            ];
            &&& n.len() == 14
            &&& forall|j: int|
                0 <= j < 7 ==> n[2 * j] == (sheet_key(stems[j], 1), sheet_key(titles[j], 1))
                    && n[2 * j + 1] == (sheet_key(stems[j], 2), sheet_key(titles[j], 2))
        }),
        spec_layout(WriteType::AirBattle) == seq![
            (sheet_key("open_air"@, 1), sheet_key("开幕空袭"@, 1)),
            (sheet_key("open_air"@, 2), sheet_key("开幕空袭"@, 2)),
        ],
        spec_layout(WriteType::HpInfo) == seq![
            (sheet_key("hp"@, 1), sheet_key("hp"@, 1)),
            (sheet_key("hp"@, 2), sheet_key("hp"@, 2)),
        ],
{
    let srcs = spec_normal_battles();
    reveal_with_fuel(layout_of, 8);
    assert(spec_layout(WriteType::AirBattle) =~= seq![
        (sheet_key("open_air"@, 1), sheet_key("开幕空袭"@, 1)),
        (sheet_key("open_air"@, 2), sheet_key("开幕空袭"@, 2)),
    ]);
}

} // verus!
