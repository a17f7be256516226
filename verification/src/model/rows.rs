//! The rows that a battle record gives in each kind of sheet.
use vstd::prelude::*;
use crate::cell::{cells_view, push_cell, push_texts, texts, Cell, CellView};
use crate::model::attack::{AirAttack, Attack};
use crate::model::battles::entry;
use crate::model::kinds::{air_type_label, course_label, formation_label};
use crate::model::war::WarView;
use crate::text::{decimal_text, push_decimal};

verus! {

/// Which sheet a row is written to: ordinary attacks, air attacks, or hit points.
#[derive(Debug, Clone, Copy, PartialEq, Eq)]
pub enum WriteType {
    NormalBattle,
    AirBattle,
    HpInfo,
}

pub open spec fn header_prefix_labels() -> Seq<Seq<char>> {
    seq![
        "文件名"@,
        "用户名"@,
        "敌用户名"@,
        "舰队名"@,
        "敌舰队id"@,
        "敌舰队名"@,
        "索敌成功"@,
        "航向"@,
        "制空"@,
        "我方阵型"@,
        "敌方阵型"@,
    ]
}

pub open spec fn attack_labels() -> Seq<Seq<char>> {
    seq!["from"@, "target"@, "伤害"@, "暴击"@]
}

pub open spec fn air_attack_labels() -> Seq<Seq<char>> {
    seq!["from"@, "target"@, "伤害"@, "暴击"@, "飞机类型"@, "放飞"@, "击坠"@]
}

/// `s` written `n` times in a row.
pub open spec fn repeat<T>(s: Seq<T>, n: nat) -> Seq<T>
    decreases n,
{
    if n == 0 {
        Seq::empty()
    } else {
        repeat(s, (n - 1) as nat) + s
    }
}

/// The six column titles of one hit-point list: `prefix` and 1 to 6.
pub open spec fn hp_group(prefix: Seq<char>) -> Seq<CellView> {
    Seq::new(6, |i: int| CellView::Text(prefix + decimal_text(i + 1)))
}

/// The title row of a sheet.
pub open spec fn spec_header(write_type: WriteType) -> Seq<CellView> {
    texts(header_prefix_labels()) + match write_type {
        WriteType::NormalBattle => repeat(texts(attack_labels()), 6),
        WriteType::AirBattle => repeat(texts(air_attack_labels()), 24),
        WriteType::HpInfo => hp_group("满"@) + hp_group("入"@) + hp_group("出"@),
    }
}

/// The cells that open every row: what the battle was and how it began.
pub open spec fn prefix_cells(w: WarView) -> Seq<CellView> {
    seq![
        CellView::Text(w.name),
        CellView::Text(w.user_name),
        CellView::Text(w.enemy_name),
        CellView::Text(w.fleet_name),
        CellView::Number(w.enemy_fleet_id),
        CellView::Text(w.enemy_fleet_name),
        CellView::Bool(w.spy_success),
        CellView::Text(course_label(w.course)),
        CellView::Text(air_type_label(w.air_type)),
        CellView::Text(formation_label(w.self_formation)),
        CellView::Text(formation_label(w.enemy_formation)),
    ]
}

pub open spec fn attack_cells(a: Attack) -> Seq<CellView> {
    seq![
        CellView::Number(a.from_index),
        CellView::Number(a.target_index),
        CellView::Number(a.damage),
        CellView::Bool(a.is_critical),
    ]
}

pub open spec fn air_attack_cells(a: AirAttack) -> Seq<CellView> {
    seq![
        CellView::Number(a.from_index),
        CellView::Number(a.target_index),
        CellView::Number(a.damage),
        CellView::Bool(a.is_critical),
        CellView::Number(a.plane_type),
        CellView::Number(a.plane_amount),
        CellView::Number(a.drop_amount),
    ]
}

/// The cells of a list of attacks, one attack after the other.
pub open spec fn attacks_cells(s: Seq<Attack>) -> Seq<CellView>
    decreases s.len(),
{
    if s.len() == 0 {
        Seq::empty()
    } else {
        attacks_cells(s.drop_last()) + attack_cells(s.last())
    }
}

pub open spec fn air_attacks_cells(s: Seq<AirAttack>) -> Seq<CellView>
    decreases s.len(),
{
    if s.len() == 0 {
        Seq::empty()
    } else {
        air_attacks_cells(s.drop_last()) + air_attack_cells(s.last())
    }
}

/// Six columns of hit points: the first six values, blank where there are fewer.
pub open spec fn hp_cells(v: Seq<i32>) -> Seq<CellView> {
    Seq::new(
        6,
        |i: int|
            if i < v.len() {
                CellView::Number(v[i])
            } else {
                CellView::Blank
            },
    )
}

/// The battle record has an entry under `key` for sheets of `write_type`.
pub open spec fn spec_has_sheet(w: WarView, key: Seq<char>, write_type: WriteType) -> bool {
    match write_type {
        WriteType::NormalBattle => entry(w.attacks, key) is Some,
        WriteType::AirBattle => entry(w.air_attacks, key) is Some,
        WriteType::HpInfo => entry(w.hp_infos, key) is Some,
    }
}

/// The row of a battle in the sheet `key` of `write_type`.
pub open spec fn spec_row(w: WarView, key: Seq<char>, write_type: WriteType) -> Seq<CellView> {
    prefix_cells(w) + match write_type {
        WriteType::NormalBattle => attacks_cells(entry(w.attacks, key)->0),
        WriteType::AirBattle => air_attacks_cells(entry(w.air_attacks, key)->0),
        WriteType::HpInfo => {
            let h = entry(w.hp_infos, key)->0;
            hp_cells(h.max) + hp_cells(h.start) + hp_cells(h.end)
        },
    }
}

pub(crate) fn push_hp_group(row: &mut Vec<Cell>, prefix: &str)
    ensures
        cells_view(final(row)@) == cells_view(old(row)@) + hp_group(prefix@),
{
    let ghost start = cells_view(row@);
    let mut idx: i32 = 1;
    assert(start + hp_group(prefix@).take(0) =~= start);
    while idx <= 6
        invariant
            1 <= idx <= 7,
            cells_view(row@) == start + hp_group(prefix@).take(idx - 1),
        decreases 7 - idx,
    {
        let mut title = prefix.to_owned();
        push_decimal(&mut title, idx);
        push_cell(row, Cell::Text(title));
        assert(start + hp_group(prefix@).take(idx as int) =~= (start + hp_group(prefix@).take(
            idx - 1,
        )).push(CellView::Text(prefix@ + decimal_text(idx as int))));
        idx = idx + 1;
    }
    assert(hp_group(prefix@).take(6) =~= hp_group(prefix@));
}

/// Appends `labels` as text cells `times` times.
pub(crate) fn push_repeated(row: &mut Vec<Cell>, labels: &Vec<&'static str>, times: usize)
    ensures
        cells_view(final(row)@) == cells_view(old(row)@) + repeat(
            texts(labels@.map_values(|l: &'static str| l@)),
            times as nat,
        ),
{
    let ghost start = cells_view(row@);
    let ghost unit = texts(labels@.map_values(|l: &'static str| l@));
    let mut k: usize = 0;
    assert(start + repeat(unit, 0) =~= start);
    while k < times
        invariant
            k <= times,
            unit == texts(labels@.map_values(|l: &'static str| l@)),
            cells_view(row@) == start + repeat(unit, k as nat),
        decreases times - k,
    {
        push_texts(row, labels);
        assert(start + repeat(unit, (k + 1) as nat) =~= start + repeat(unit, k as nat) + unit);
        k = k + 1;
    }
}

pub(crate) fn push_attack_cells(row: &mut Vec<Cell>, attacks: &Vec<Attack>)
    ensures
        cells_view(final(row)@) == cells_view(old(row)@) + attacks_cells(attacks@),
{
    let ghost start = cells_view(row@);
    let n = attacks.len();
    let mut i: usize = 0;
    assert(attacks@.take(0) =~= Seq::<Attack>::empty());
    assert(start + Seq::<CellView>::empty() =~= start);
    while i < n
        invariant
            n == attacks@.len(),
            i <= n,
            cells_view(row@) == start + attacks_cells(attacks@.take(i as int)),
        decreases n - i,
    {
        let a = attacks[i];
        push_cell(row, Cell::Number(a.from_index));
        push_cell(row, Cell::Number(a.target_index));
        push_cell(row, Cell::Number(a.damage));
        push_cell(row, Cell::Bool(a.is_critical));
        proof {
            assert(attacks@.take(i + 1).drop_last() =~= attacks@.take(i as int));
            assert(attacks@.take(i + 1).last() == a);
            assert(cells_view(row@) =~= start + attacks_cells(attacks@.take(i + 1)));
        }
        i = i + 1;
    }
    assert(attacks@.take(n as int) =~= attacks@);
}

pub(crate) fn push_air_attack_cells(row: &mut Vec<Cell>, attacks: &Vec<AirAttack>)
    ensures
        cells_view(final(row)@) == cells_view(old(row)@) + air_attacks_cells(attacks@),
{
    let ghost start = cells_view(row@);
    let n = attacks.len();
    let mut i: usize = 0;
    assert(attacks@.take(0) =~= Seq::<AirAttack>::empty());
    assert(start + Seq::<CellView>::empty() =~= start);
    while i < n
        invariant
            n == attacks@.len(),
            i <= n,
            cells_view(row@) == start + air_attacks_cells(attacks@.take(i as int)),
        decreases n - i,
    {
        let a = attacks[i];
        push_cell(row, Cell::Number(a.from_index));
        push_cell(row, Cell::Number(a.target_index));
        push_cell(row, Cell::Number(a.damage));
        push_cell(row, Cell::Bool(a.is_critical));
        push_cell(row, Cell::Number(a.plane_type));
        push_cell(row, Cell::Number(a.plane_amount));
        push_cell(row, Cell::Number(a.drop_amount));
        proof {
            assert(attacks@.take(i + 1).drop_last() =~= attacks@.take(i as int));
            assert(attacks@.take(i + 1).last() == a);
            assert(cells_view(row@) =~= start + air_attacks_cells(attacks@.take(i + 1)));
        }
        i = i + 1;
    }
    assert(attacks@.take(n as int) =~= attacks@);
}

pub(crate) fn push_hp_cells(row: &mut Vec<Cell>, v: &Vec<i32>)
    ensures
        cells_view(final(row)@) == cells_view(old(row)@) + hp_cells(v@),
{
    let ghost start = cells_view(row@);
    let mut i: usize = 0;
    assert(start + hp_cells(v@).take(0) =~= start);
    while i < 6
        invariant
            i <= 6,
            cells_view(row@) == start + hp_cells(v@).take(i as int),
        decreases 6 - i,
    {
        if i < v.len() {
            push_cell(row, Cell::Number(v[i]));
        } else {
            push_cell(row, Cell::Blank);
        }
        assert(start + hp_cells(v@).take(i + 1) =~= (start + hp_cells(v@).take(i as int)).push(
            hp_cells(v@)[i as int],
        ));
        i = i + 1;
    }
    assert(hp_cells(v@).take(6) =~= hp_cells(v@));
}

proof fn lemma_repeat_len<T>(s: Seq<T>, n: nat)
    ensures
        repeat(s, n).len() == n * s.len(),
    decreases n,
{
    let k = s.len();
    if n > 0 {
        lemma_repeat_len(s, (n - 1) as nat);
        assert(n * k == (n - 1) * k + k) by (nonlinear_arith);
    } else {
        assert(n * k == 0) by (nonlinear_arith)
            requires
                n == 0,
        ;
    }
}

proof fn lemma_attacks_cells_len(s: Seq<Attack>)
    ensures
        attacks_cells(s).len() == 4 * s.len(),
    decreases s.len(),
{
    if s.len() > 0 {
        lemma_attacks_cells_len(s.drop_last());
    }
}

proof fn lemma_air_attacks_cells_len(s: Seq<AirAttack>)
    ensures
        air_attacks_cells(s).len() == 7 * s.len(),
    decreases s.len(),
{
    if s.len() > 0 {
        lemma_air_attacks_cells_len(s.drop_last());
    }
}

/// Every row opens with the eleven cells that describe the battle, under
/// the eleven titles that open every title row.
pub proof fn law_rows_open_under_titles(w: WarView, key: Seq<char>, write_type: WriteType)
    ensures
        header_prefix_labels().len() == 11,
        prefix_cells(w).len() == 11,
        spec_header(write_type).take(11) == texts(header_prefix_labels()),
        spec_row(w, key, write_type).take(11) == prefix_cells(w),
{
    assert(spec_header(write_type).take(11) =~= texts(header_prefix_labels()));
    assert(spec_row(w, key, write_type).take(11) =~= prefix_cells(w));
}

/// Title rows have 11 + 6 × 4 cells (ordinary attacks), 11 + 24 × 7 (air
/// attacks) and 11 + 3 × 6 (hit points).
pub proof fn law_header_widths()
    ensures
        spec_header(WriteType::NormalBattle).len() == 35,
        spec_header(WriteType::AirBattle).len() == 179,
        spec_header(WriteType::HpInfo).len() == 29,
{
    lemma_repeat_len(texts(attack_labels()), 6);
    lemma_repeat_len(texts(air_attack_labels()), 24);
}

/// A hit-point row is exactly as wide as the hit-point title row: six
/// columns for each of the three lists, blank past the last ship.
pub proof fn law_hp_row_width(w: WarView, key: Seq<char>)
    ensures
        spec_row(w, key, WriteType::HpInfo).len() == spec_header(WriteType::HpInfo).len(),
{
    law_header_widths();
}

/// An attack row holds four cells for each ordinary attack (seven for each
/// air attack) after the eleven that describe the battle.
pub proof fn law_attack_row_widths(w: WarView, key: Seq<char>)
    ensures
        spec_row(w, key, WriteType::NormalBattle).len() == 11 + 4 * (entry(w.attacks, key)->0).len(),
        spec_row(w, key, WriteType::AirBattle).len() == 11 + 7 * (entry(w.air_attacks, key)->0).len(),
{
    lemma_attacks_cells_len(entry(w.attacks, key)->0);
    lemma_air_attacks_cells_len(entry(w.air_attacks, key)->0);
}

/// Every title row opens with these eleven titles, and every row has under
/// each of them the field it names: file name, user name, enemy user name,
/// fleet name, enemy fleet id, enemy fleet name, sighting, course, air
/// control, own formation, enemy formation.
pub proof fn law_titles_name_their_columns(w: WarView, key: Seq<char>, write_type: WriteType)
    ensures
        spec_header(write_type)[0] == CellView::Text("文件名"@),
        spec_row(w, key, write_type)[0] == CellView::Text(w.name),
        spec_header(write_type)[1] == CellView::Text("用户名"@),
        spec_row(w, key, write_type)[1] == CellView::Text(w.user_name),
        spec_header(write_type)[2] == CellView::Text("敌用户名"@),
        spec_row(w, key, write_type)[2] == CellView::Text(w.enemy_name),
        spec_header(write_type)[3] == CellView::Text("舰队名"@),
        spec_row(w, key, write_type)[3] == CellView::Text(w.fleet_name),
        spec_header(write_type)[4] == CellView::Text("敌舰队id"@),
        spec_row(w, key, write_type)[4] == CellView::Number(w.enemy_fleet_id),
        spec_header(write_type)[5] == CellView::Text("敌舰队名"@),
        spec_row(w, key, write_type)[5] == CellView::Text(w.enemy_fleet_name),
        spec_header(write_type)[6] == CellView::Text("索敌成功"@),
        spec_row(w, key, write_type)[6] == CellView::Bool(w.spy_success),
        spec_header(write_type)[7] == CellView::Text("航向"@),
        spec_row(w, key, write_type)[7] == CellView::Text(course_label(w.course)),
        spec_header(write_type)[8] == CellView::Text("制空"@),
        spec_row(w, key, write_type)[8] == CellView::Text(air_type_label(w.air_type)),
        spec_header(write_type)[9] == CellView::Text("我方阵型"@),
        spec_row(w, key, write_type)[9] == CellView::Text(formation_label(w.self_formation)),
        spec_header(write_type)[10] == CellView::Text("敌方阵型"@),
        spec_row(w, key, write_type)[10] == CellView::Text(formation_label(w.enemy_formation)),
{
}

/// The cells of the `k`-th attack sit at `4k .. 4k + 4`: who fires, the
/// target, the damage, whether it was critical.
proof fn lemma_attacks_cells_at(s: Seq<Attack>, k: int)
    requires
        0 <= k < s.len(),
    ensures
        attacks_cells(s).len() == 4 * s.len(),
        attacks_cells(s)[4 * k] == CellView::Number(s[k].from_index),
        attacks_cells(s)[4 * k + 1] == CellView::Number(s[k].target_index),
        attacks_cells(s)[4 * k + 2] == CellView::Number(s[k].damage),
        attacks_cells(s)[4 * k + 3] == CellView::Bool(s[k].is_critical),
    decreases s.len(),
{
    lemma_attacks_cells_len(s);
    let rest = s.drop_last();
    lemma_attacks_cells_len(rest);
    if k < s.len() - 1 {
        lemma_attacks_cells_at(rest, k);
        assert(rest[k] == s[k]);
    }
}

proof fn lemma_air_attacks_cells_at(s: Seq<AirAttack>, k: int)
    requires
        0 <= k < s.len(),
    ensures
        air_attacks_cells(s).len() == 7 * s.len(),
        air_attacks_cells(s)[7 * k] == CellView::Number(s[k].from_index),
        air_attacks_cells(s)[7 * k + 1] == CellView::Number(s[k].target_index),
        air_attacks_cells(s)[7 * k + 2] == CellView::Number(s[k].damage),
        air_attacks_cells(s)[7 * k + 3] == CellView::Bool(s[k].is_critical),
        air_attacks_cells(s)[7 * k + 4] == CellView::Number(s[k].plane_type),
        air_attacks_cells(s)[7 * k + 5] == CellView::Number(s[k].plane_amount),
        air_attacks_cells(s)[7 * k + 6] == CellView::Number(s[k].drop_amount),
    decreases s.len(),
{
    lemma_air_attacks_cells_len(s);
    let rest = s.drop_last();
    lemma_air_attacks_cells_len(rest);
    if k < s.len() - 1 {
        lemma_air_attacks_cells_at(rest, k);
        assert(rest[k] == s[k]);
    }
}

/// An ordinary-attack row gives, after the eleven descriptive cells, each
/// attack of the sheet's list in list order, four cells apiece: who fires,
/// the target, the damage, whether it was critical.
pub proof fn law_attack_row_cells(w: WarView, key: Seq<char>, k: int)
    requires
        0 <= k < (entry(w.attacks, key)->0).len(),
    ensures
        ({
            let a = (entry(w.attacks, key)->0)[k];
            let row = spec_row(w, key, WriteType::NormalBattle);
            &&& row[11 + 4 * k] == CellView::Number(a.from_index)
            &&& row[11 + 4 * k + 1] == CellView::Number(a.target_index)
            &&& row[11 + 4 * k + 2] == CellView::Number(a.damage)
            &&& row[11 + 4 * k + 3] == CellView::Bool(a.is_critical)
        }),
{
    lemma_attacks_cells_at(entry(w.attacks, key)->0, k);
}

/// An air-attack row gives, after the eleven descriptive cells, each attack
/// of the sheet's list in list order, seven cells apiece: who fires, the
/// target, the damage, whether it was critical, the kind of attack, planes
/// launched, planes shot down.
pub proof fn law_air_attack_row_cells(w: WarView, key: Seq<char>, k: int)
    requires
        0 <= k < (entry(w.air_attacks, key)->0).len(),
    ensures
        ({
            let a = (entry(w.air_attacks, key)->0)[k];
            let row = spec_row(w, key, WriteType::AirBattle);
            &&& row[11 + 7 * k] == CellView::Number(a.from_index)
            &&& row[11 + 7 * k + 1] == CellView::Number(a.target_index)
            &&& row[11 + 7 * k + 2] == CellView::Number(a.damage)
            &&& row[11 + 7 * k + 3] == CellView::Bool(a.is_critical)
            &&& row[11 + 7 * k + 4] == CellView::Number(a.plane_type)
            &&& row[11 + 7 * k + 5] == CellView::Number(a.plane_amount)
            &&& row[11 + 7 * k + 6] == CellView::Number(a.drop_amount)
        }),
{
    lemma_air_attacks_cells_at(entry(w.air_attacks, key)->0, k);
}

/// A hit-point row gives, after the eleven descriptive cells, six columns
/// of maximum, six of starting and six of before-night hit points: column
/// `i` holds the `i`-th ship's value when there is an `i`-th value, and is
/// blank otherwise.
pub proof fn law_hp_row_cells(w: WarView, key: Seq<char>, i: int)
    requires
        0 <= i < 6,
    ensures
        ({
            let h = entry(w.hp_infos, key)->0;
            let row = spec_row(w, key, WriteType::HpInfo);
            &&& row[11 + i] == if i < h.max.len() {
                CellView::Number(h.max[i])
            } else {
                CellView::Blank
            }
            &&& row[17 + i] == if i < h.start.len() {
                CellView::Number(h.start[i])
            } else {
                CellView::Blank
            }
            &&& row[23 + i] == if i < h.end.len() {
                CellView::Number(h.end[i])
            } else {
                CellView::Blank
            }
        }),
{
}

proof fn lemma_repeat_at<T>(s: Seq<T>, n: nat, k: int, i: int)
    requires
        0 <= k < n,
        0 <= i < s.len(),
    ensures
        repeat(s, n).len() == n * s.len(),
        repeat(s, n)[k * s.len() + i] == s[i],
    decreases n,
{
    lemma_repeat_len(s, n);
    lemma_repeat_len(s, (n - 1) as nat);
    let m = s.len();
    if k < n - 1 {
        lemma_repeat_at(s, (n - 1) as nat, k, i);
        assert(k * m + i < (n - 1) * m) by (nonlinear_arith)
            requires
                0 <= k < n - 1,
                0 <= i < m,
        ;
    } else {
        assert(k * m == (n - 1) * m);
    }
}

/// After the eleven descriptive titles, an ordinary-attack title row
/// repeats from, target, 伤害, 暴击 six times; an air-attack title row
/// repeats from, target, 伤害, 暴击, 飞机类型, 放飞, 击坠 twenty-four times;
/// a hit-point title row has 满1..满6, 入1..入6, 出1..出6.
pub proof fn law_title_columns(k: int, i: int)
    ensures
        0 <= k < 6 ==> {
            let h = spec_header(WriteType::NormalBattle);
            &&& h[11 + 4 * k] == CellView::Text("from"@)
            &&& h[11 + 4 * k + 1] == CellView::Text("target"@)
            &&& h[11 + 4 * k + 2] == CellView::Text("伤害"@)
            &&& h[11 + 4 * k + 3] == CellView::Text("暴击"@)
        },
        0 <= k < 24 ==> {
            let h = spec_header(WriteType::AirBattle);
            &&& h[11 + 7 * k] == CellView::Text("from"@)
            &&& h[11 + 7 * k + 1] == CellView::Text("target"@)
            &&& h[11 + 7 * k + 2] == CellView::Text("伤害"@)
            &&& h[11 + 7 * k + 3] == CellView::Text("暴击"@)
            &&& h[11 + 7 * k + 4] == CellView::Text("飞机类型"@)
            &&& h[11 + 7 * k + 5] == CellView::Text("放飞"@)
            &&& h[11 + 7 * k + 6] == CellView::Text("击坠"@)
        },
        0 <= i < 6 ==> {
            let h = spec_header(WriteType::HpInfo);
            &&& h[11 + i] == CellView::Text("满"@ + decimal_text(i + 1))
            &&& h[17 + i] == CellView::Text("入"@ + decimal_text(i + 1))
            &&& h[23 + i] == CellView::Text("出"@ + decimal_text(i + 1))
        },
{
    let unit = texts(attack_labels());
    let air_unit = texts(air_attack_labels());
    if 0 <= k < 6 {
        lemma_repeat_at(unit, 6, k, 0);
        lemma_repeat_at(unit, 6, k, 1);
        lemma_repeat_at(unit, 6, k, 2);
        lemma_repeat_at(unit, 6, k, 3);
    }
    if 0 <= k < 24 {
        lemma_repeat_at(air_unit, 24, k, 0);
        lemma_repeat_at(air_unit, 24, k, 1);
        lemma_repeat_at(air_unit, 24, k, 2);
        lemma_repeat_at(air_unit, 24, k, 3);
        lemma_repeat_at(air_unit, 24, k, 4);
        lemma_repeat_at(air_unit, 24, k, 5);
        lemma_repeat_at(air_unit, 24, k, 6);
    }
}

} // verus!
