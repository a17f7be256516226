//! The hit points of the ships on each side.
use vstd::prelude::*;
use crate::json::{spec_as_array, spec_as_i64, spec_index, Json};
use crate::model::error::ReportError;

verus! {

/// Hit points of a side's ships, by position in the fleet: the maximum,
/// the points at the start of the battle, and the points before the night
/// battle.
#[derive(Debug)]
pub struct HpInfo {
    pub max: Vec<i32>,
    pub start: Vec<i32>,
    pub end: Vec<i32>,
}

pub struct HpInfoView {
    pub max: Seq<i32>,
    pub start: Seq<i32>,
    pub end: Seq<i32>,
}

impl View for HpInfo {
    type V = HpInfoView;

    open spec fn view(&self) -> HpInfoView {
        HpInfoView { max: self.max@, start: self.start@, end: self.end@ }
    }
}

/// The integer under `key` (`v[key]`, which is `Null` when absent).
pub open spec fn spec_index_int(v: Json, key: Seq<char>) -> Option<i64> {
    spec_as_i64(spec_index(v, key))
}

/// Maximum and starting hit points of `ships`, whose `indexInFleet` must
/// be their position.
pub open spec fn spec_ship_hps(ships: Seq<Json>) -> Result<(Seq<i32>, Seq<i32>), ReportError>
    decreases ships.len(),
{
    if ships.len() == 0 {
        Ok((Seq::empty(), Seq::empty()))
    } else {
        match spec_ship_hps(ships.drop_last()) {
            Err(e) => Err(e),
            Ok((max, start)) => {
                let v = ships.last();
                match spec_index_int(v, "indexInFleet"@) {
                    None => Err(ReportError::BadHpData),
                    Some(idx) => if idx != ships.len() - 1 {
                        Err(ReportError::ShipsOutOfOrder)
                    } else {
                        match spec_index_int(v, "hpMax"@) {
                            None => Err(ReportError::BadHpData),
                            Some(hp_max) => match spec_index_int(v, "hp"@) {
                                None => Err(ReportError::BadHpData),
                                Some(hp) => Ok((max.push(hp_max as i32), start.push(hp as i32))),
                            },
                        }
                    },
                }
            },
        }
    }
}

/// The entries of `items` as hit points; each must be an integer.
pub open spec fn spec_hp_values(items: Seq<Json>) -> Result<Seq<i32>, ReportError>
    decreases items.len(),
{
    if items.len() == 0 {
        Ok(Seq::empty())
    } else {
        match spec_hp_values(items.drop_last()) {
            Err(e) => Err(e),
            Ok(values) => match spec_as_i64(items.last()) {
                None => Err(ReportError::BadHpData),
                Some(n) => Ok(values.push(n as i32)),
            },
        }
    }
}

/// At most the first `n` entries of `s`.
pub open spec fn first_n<T>(s: Seq<T>, n: int) -> Seq<T> {
    if s.len() <= n {
        s
    } else {
        s.take(n)
    }
}

/// A side's hit points: from its ship list, and from as many entries of the
/// before-night list as there are ships.
pub open spec fn spec_side_hp(ships: Seq<Json>, end_hp: Seq<Json>) -> Result<HpInfoView, ReportError> {
    match spec_ship_hps(ships) {
        Err(e) => Err(e),
        Ok((max, start)) => match spec_hp_values(first_n(end_hp, max.len() as int)) {
            Err(e) => Err(e),
            Ok(end) => Ok(HpInfoView { max, start, end }),
        },
    }
}

/// The list under `key`; hit-point lists must be there.
pub open spec fn spec_hp_list(report: Json, key: Seq<char>) -> Result<Seq<Json>, ReportError> {
    match spec_as_array(spec_index(report, key)) {
        Some(items) => Ok(items),
        None => Err(ReportError::BadHpData),
    }
}

/// Both sides' hit points from a war report.
pub open spec fn spec_hp_sides(report: Json) -> Result<(HpInfoView, HpInfoView), ReportError> {
    match spec_hp_list(report, "selfShips"@) {
        Err(e) => Err(e),
        Ok(self_ships) => match spec_hp_list(report, "hpBeforeNightWarSelf"@) {
            Err(e) => Err(e),
            Ok(self_end) => match spec_side_hp(self_ships, self_end) {
                Err(e) => Err(e),
                Ok(self_side) => match spec_hp_list(report, "enemyShips"@) {
                    Err(e) => Err(e),
                    Ok(enemy_ships) => match spec_hp_list(report, "hpBeforeNightWarEnemy"@) {
                        Err(e) => Err(e),
                        Ok(enemy_end) => match spec_side_hp(enemy_ships, enemy_end) {
                            Err(e) => Err(e),
                            Ok(enemy_side) => Ok((self_side, enemy_side)),
                        },
                    },
                },
            },
        },
    }
}

/// An error in a prefix of the ships is the error of the whole list.
proof fn lemma_ship_hps_err(ships: Seq<Json>, k: int)
    requires
        0 <= k <= ships.len(),
        spec_ship_hps(ships.take(k)) is Err,
    ensures
        spec_ship_hps(ships) == spec_ship_hps(ships.take(k)),
    decreases ships.len() - k,
{
    if k < ships.len() {
        assert(ships.take(k + 1).drop_last() =~= ships.take(k));
        lemma_ship_hps_err(ships, k + 1);
    } else {
        assert(ships.take(k) =~= ships);
    }
}

proof fn lemma_hp_values_err(items: Seq<Json>, k: int)
    requires
        0 <= k <= items.len(),
        spec_hp_values(items.take(k)) is Err,
    ensures
        spec_hp_values(items) == spec_hp_values(items.take(k)),
    decreases items.len() - k,
{
    if k < items.len() {
        assert(items.take(k + 1).drop_last() =~= items.take(k));
        lemma_hp_values_err(items, k + 1);
    } else {
        assert(items.take(k) =~= items);
    }
}

fn index_int(v: &Json, key: &str) -> (r: Option<i64>)
    ensures
        r == spec_index_int(*v, key@),
{
    match v.get(key) {
        Some(m) => m.as_i64(),
        None => None,
    }
}

fn hp_list<'a>(report: &'a Json, key: &str) -> (r: Result<&'a Vec<Json>, ReportError>)
    ensures
        match r {
            Ok(items) => spec_hp_list(*report, key@) == Ok::<Seq<Json>, ReportError>(items@),
            Err(e) => spec_hp_list(*report, key@) == Err::<Seq<Json>, ReportError>(e),
        },
{
    match report.get(key) {
        Some(m) => match m.as_array() {
            Some(items) => Ok(items),
            None => Err(ReportError::BadHpData),
        },
        None => Err(ReportError::BadHpData),
    }
}

impl HpInfo {
    fn parse_ships(ships: &Vec<Json>, end_hp: &Vec<Json>) -> (r: Result<HpInfo, ReportError>)
        ensures
            match r {
                Ok(info) => spec_side_hp(ships@, end_hp@) == Ok::<HpInfoView, ReportError>(info@),
                Err(e) => spec_side_hp(ships@, end_hp@) == Err::<HpInfoView, ReportError>(e),
            },
    {
        let mut max: Vec<i32> = Vec::new();
        let mut start: Vec<i32> = Vec::new();
        let n = ships.len();
        let mut i: usize = 0;
        assert(ships@.take(0) =~= Seq::<Json>::empty());
        while i < n
            invariant
                n == ships@.len(),
                i <= n,
                spec_ship_hps(ships@.take(i as int)) == Ok::<(Seq<i32>, Seq<i32>), ReportError>(
                    (max@, start@),
                ),
            decreases n - i,
        {
            let v = &ships[i];
            proof {
                assert(ships@.take(i + 1).drop_last() =~= ships@.take(i as int));
                assert(ships@.take(i + 1).last() == ships@[i as int]);
            }
            let idx = match index_int(v, "indexInFleet") {
                Some(idx) => idx,
                None => {
                    proof {
                        lemma_ship_hps_err(ships@, i + 1);
                    }
                    return Err(ReportError::BadHpData);
                },
            };
            if idx as i128 != i as i128 {
                proof {
                    lemma_ship_hps_err(ships@, i + 1);
                }
                return Err(ReportError::ShipsOutOfOrder);
            }
            let hp_max = match index_int(v, "hpMax") {
                Some(x) => x,
                None => {
                    proof {
                        lemma_ship_hps_err(ships@, i + 1);
                    }
                    return Err(ReportError::BadHpData);
                },
            };
            let hp = match index_int(v, "hp") {
                Some(x) => x,
                None => {
                    proof {
                        lemma_ship_hps_err(ships@, i + 1);
                    }
                    return Err(ReportError::BadHpData);
                },
            };
            max.push(hp_max as i32);
            start.push(hp as i32);
            i = i + 1;
        }
        assert(ships@.take(n as int) =~= ships@);
        let count = if end_hp.len() < max.len() {
            end_hp.len()
        } else {
            max.len()
        };
        let ghost wanted = first_n(end_hp@, max@.len() as int);
        assert(wanted =~= end_hp@.take(count as int));
        let mut end: Vec<i32> = Vec::new();
        let mut j: usize = 0;
        assert(wanted.take(0) =~= Seq::<Json>::empty());
        while j < count
            invariant
                count <= end_hp@.len(),
                wanted == end_hp@.take(count as int),
                wanted == first_n(end_hp@, max@.len() as int),
                spec_ship_hps(ships@) == Ok::<(Seq<i32>, Seq<i32>), ReportError>((max@, start@)),
                j <= count,
                spec_hp_values(wanted.take(j as int)) == Ok::<Seq<i32>, ReportError>(end@),
            decreases count - j,
        {
            proof {
                assert(wanted.take(j + 1).drop_last() =~= wanted.take(j as int));
                assert(wanted.take(j + 1).last() == end_hp@[j as int]);
            }
            match end_hp[j].as_i64() {
                Some(x) => end.push(x as i32),
                None => {
                    proof {
                        lemma_hp_values_err(wanted, j + 1);
                    }
                    return Err(ReportError::BadHpData);
                },
            }
            j = j + 1;
        }
        assert(wanted.take(count as int) =~= wanted);
        Ok(HpInfo { max, start, end })
    }

    /// Both sides' hit points from a war report: (own side, enemy side);
    /// or the first reason, in reading order, why the report holds none.
    pub fn read(report: &Json) -> (r: Result<(HpInfo, HpInfo), ReportError>)
        ensures
            match r {
                Ok((a, b)) => spec_hp_sides(*report) == Ok::<(HpInfoView, HpInfoView), ReportError>(
                    (a@, b@),
                ),
                Err(e) => spec_hp_sides(*report) == Err::<(HpInfoView, HpInfoView), ReportError>(e),
            },
    {
        let self_ships = match hp_list(report, "selfShips") {
            Ok(l) => l,
            Err(e) => return Err(e),
        };
        let self_end = match hp_list(report, "hpBeforeNightWarSelf") {
            Ok(l) => l,
            Err(e) => return Err(e),
        };
        let self_side = match HpInfo::parse_ships(self_ships, self_end) {
            Ok(h) => h,
            Err(e) => return Err(e),
        };
        let enemy_ships = match hp_list(report, "enemyShips") {
            Ok(l) => l,
            Err(e) => return Err(e),
        };
        let enemy_end = match hp_list(report, "hpBeforeNightWarEnemy") {
            Ok(l) => l,
            Err(e) => return Err(e),
        };
        let enemy_side = match HpInfo::parse_ships(enemy_ships, enemy_end) {
            Ok(h) => h,
            Err(e) => return Err(e),
        };
        Ok((self_side, enemy_side))
    }

    /// Both sides' hit points from a war report: (own side, enemy side).
    /// The report must hold them (see `read`).
    pub fn parse(report: &Json) -> (r: (HpInfo, HpInfo))
        requires
            spec_hp_sides(*report) is Ok,
        ensures
            spec_hp_sides(*report) == Ok::<(HpInfoView, HpInfoView), ReportError>((r.0@, r.1@)),
    {
        HpInfo::read(report).unwrap()
    }
}

proof fn lemma_ship_hps_len(ships: Seq<Json>)
    requires
        spec_ship_hps(ships) is Ok,
    ensures
        (spec_ship_hps(ships)->Ok_0).0.len() == ships.len(),
        (spec_ship_hps(ships)->Ok_0).1.len() == ships.len(),
    decreases ships.len(),
{
    if ships.len() > 0 {
        lemma_ship_hps_len(ships.drop_last());
    }
}

proof fn lemma_hp_values_len(items: Seq<Json>)
    requires
        spec_hp_values(items) is Ok,
    ensures
        (spec_hp_values(items)->Ok_0).len() == items.len(),
    decreases items.len(),
{
    if items.len() > 0 {
        lemma_hp_values_len(items.drop_last());
    }
}

/// A side's hit points have one maximum and one starting value per ship,
/// and a before-night value per ship as far as the before-night list goes.
pub proof fn law_side_hp_lengths(ships: Seq<Json>, end_hp: Seq<Json>)
    requires
        spec_side_hp(ships, end_hp) is Ok,
    ensures
        (spec_side_hp(ships, end_hp)->Ok_0).max.len() == ships.len(),
        (spec_side_hp(ships, end_hp)->Ok_0).start.len() == ships.len(),
        (spec_side_hp(ships, end_hp)->Ok_0).end.len() == if end_hp.len() < ships.len() {
            end_hp.len()
        } else {
            ships.len()
        },
{
    lemma_ship_hps_len(ships);
    let max = (spec_ship_hps(ships)->Ok_0).0;
    lemma_hp_values_len(first_n(end_hp, max.len() as int));
}

proof fn lemma_ship_hps_values(ships: Seq<Json>, i: int)
    requires
        spec_ship_hps(ships) is Ok,
        0 <= i < ships.len(),
    ensures
        (spec_ship_hps(ships)->Ok_0).0.len() == ships.len(),
        spec_index_int(ships[i], "indexInFleet"@) == Some(i as i64),
        (spec_ship_hps(ships)->Ok_0).0[i] == (spec_index_int(ships[i], "hpMax"@)->0) as i32,
        (spec_ship_hps(ships)->Ok_0).1[i] == (spec_index_int(ships[i], "hp"@)->0) as i32,
        spec_index_int(ships[i], "hpMax"@) is Some,
        spec_index_int(ships[i], "hp"@) is Some,
    decreases ships.len(),
{
    lemma_ship_hps_len(ships);
    let rest = ships.drop_last();
    if i < ships.len() - 1 {
        lemma_ship_hps_values(rest, i);
        lemma_ship_hps_len(rest);
        assert(rest[i] == ships[i]);
    }
}

proof fn lemma_hp_values_at(items: Seq<Json>, i: int)
    requires
        spec_hp_values(items) is Ok,
        0 <= i < items.len(),
    ensures
        spec_as_i64(items[i]) is Some,
        (spec_hp_values(items)->Ok_0)[i] == (spec_as_i64(items[i])->0) as i32,
    decreases items.len(),
{
    lemma_hp_values_len(items);
    let rest = items.drop_last();
    if i < items.len() - 1 {
        lemma_hp_values_at(rest, i);
        lemma_hp_values_len(rest);
        assert(rest[i] == items[i]);
    }
}

/// A side's hit points, ship by ship: the `i`-th ship's `indexInFleet`
/// is `i`, its maximum is its `hpMax`, its starting points its `hp`, and its
/// before-night points the `i`-th entry of the before-night list; each cut
/// to 32 bits.
pub proof fn law_side_hp_values(ships: Seq<Json>, end_hp: Seq<Json>, i: int)
    requires
        spec_side_hp(ships, end_hp) is Ok,
        0 <= i < ships.len(),
    ensures
        ({
            let h = spec_side_hp(ships, end_hp)->Ok_0;
            &&& spec_index_int(ships[i], "indexInFleet"@) == Some(i as i64)
            &&& h.max[i] == (spec_index_int(ships[i], "hpMax"@)->0) as i32
            &&& h.start[i] == (spec_index_int(ships[i], "hp"@)->0) as i32
            &&& i < end_hp.len() ==> h.end[i] == (spec_as_i64(end_hp[i])->0) as i32
        }),
{
    lemma_ship_hps_values(ships, i);
    law_side_hp_lengths(ships, end_hp);
    if i < end_hp.len() {
        let max = (spec_ship_hps(ships)->Ok_0).0;
        let wanted = first_n(end_hp, max.len() as int);
        lemma_hp_values_at(wanted, i);
        assert(wanted[i] == end_hp[i]);
    }
}

} // verus!
