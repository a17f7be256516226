//! A whole battle, read from its report.
use vstd::prelude::*;
use crate::cell::{cells_view, push_cell, push_texts, text, texts, Cell, CellView};
use crate::json::{spec_as_array, spec_get, spec_index, Json};
use crate::model::attack::{AirAttack, Attack, AttackTrait};
use crate::model::battles::{
    air_battles, entry, find_entry, keys_of, law_layout_keys_distinct, lemma_entry_found,
    lemma_entry_unique, lemma_keyed_at, lemma_keyed_keys, normal_battles, pairs_view, parse_keyed,
    sheet_key, spec_air_battles, spec_attack_lists, spec_keyed, spec_layout, spec_normal_battles,
};
use crate::model::error::ReportError;
use crate::model::fields::{int_member, member, spec_int_member, spec_member, spec_text_member, text_member};
use crate::model::hpinfo::{spec_hp_sides, spec_side_hp, HpInfo, HpInfoView};
use crate::model::kinds::{air_type_of, course_of, formation_of, AirType, Course, Formation};
use crate::model::rows::{
    air_attack_labels, attack_labels, header_prefix_labels, hp_cells, hp_group, prefix_cells,
    push_air_attack_cells, push_attack_cells, push_hp_cells, push_hp_group, push_repeated,
    spec_has_sheet, spec_header, spec_row, WriteType,
};
use crate::text::{
    decimal_text, format_sheet_name, law_decimal_round_trip, parse_i32, parse_i64, spec_parse_i32,
    spec_parse_i64,
};

verus! {

/// Whether the enemy was sighted (索敌): `isExploreSuccess` is a decimal
/// text, nonzero for success.
pub open spec fn spec_spy(report: Json) -> Result<bool, ReportError> {
    match spec_text_member(report, "isExploreSuccess"@) {
        Err(e) => Err(e),
        Ok(t) => match spec_parse_i32(t) {
            Some(v) => Ok(v != 0),
            None => Err(ReportError::NotANumber),
        },
    }
}

pub open spec fn spec_course(report: Json) -> Result<Course, ReportError> {
    match spec_int_member(report, "warType"@) {
        Err(e) => Err(e),
        Ok(i) => if 1 <= i <= 4 {
            Ok(course_of(i))
        } else {
            Err(ReportError::UnknownCourse(i))
        },
    }
}

pub open spec fn spec_air_type(report: Json) -> Result<AirType, ReportError> {
    match spec_int_member(report, "airControlType"@) {
        Err(e) => Err(e),
        Ok(i) => if 1 <= i <= 5 {
            Ok(air_type_of(i))
        } else {
            Err(ReportError::UnknownAirType(i))
        },
    }
}

/// A fleet's formation: a decimal text holding the code.
pub open spec fn spec_formation(fleet: Json) -> Result<Formation, ReportError> {
    match spec_text_member(fleet, "formation"@) {
        Err(e) => Err(e),
        Ok(t) => match spec_parse_i64(t) {
            None => Err(ReportError::NotANumber),
            Some(i) => if 1 <= i <= 5 {
                Ok(formation_of(i))
            } else {
                Err(ReportError::UnknownFormation(i))
            },
        },
    }
}

/// Title and formation of one's own fleet.
pub open spec fn spec_own_fleet(report: Json) -> Result<(Seq<char>, Formation), ReportError> {
    match spec_member(report, "selfFleet"@) {
        Err(e) => Err(e),
        Ok(fleet) => match spec_text_member(fleet, "title"@) {
            Err(e) => Err(e),
            Ok(title) => match spec_formation(fleet) {
                Err(e) => Err(e),
                Ok(f) => Ok((title, f)),
            },
        },
    }
}

/// The enemy fleet's id: a number, or a decimal text.
pub open spec fn spec_fleet_id(fleet: Json) -> Result<i32, ReportError> {
    match spec_member(fleet, "id"@) {
        Err(e) => Err(e),
        Ok(v) => match v {
            Json::Integer(n) => Ok(n as i32),
            Json::OtherNumber => Err(ReportError::Missing),
            Json::Str(s) => match spec_parse_i32(s@) {
                Some(x) => Ok(x),
                None => Err(ReportError::NotANumber),
            },
            _ => Err(ReportError::BadFleetId),
        },
    }
}

/// The enemy fleet's id reads the same whether the report gives it as a
/// JSON number or as that number's decimal text.
pub proof fn law_fleet_id_number_or_text(by_number: Json, by_text: Json, n: i32, text: String)
    requires
        spec_get(by_number, "id"@) == Some(Json::Integer(n as i64)),
        spec_get(by_text, "id"@) == Some(Json::Str(text)),
        text@ == decimal_text(n as int),
    ensures
        spec_fleet_id(by_number) == Ok::<i32, ReportError>(n),
        spec_fleet_id(by_text) == Ok::<i32, ReportError>(n),
{
    law_decimal_round_trip(n);
}

/// Id, title and formation of the enemy fleet.
pub open spec fn spec_enemy_fleet(report: Json) -> Result<(i32, Seq<char>, Formation), ReportError> {
    match spec_member(report, "enemyFleet"@) {
        Err(e) => Err(e),
        Ok(fleet) => match spec_fleet_id(fleet) {
            Err(e) => Err(e),
            Ok(id) => match spec_text_member(fleet, "title"@) {
                Err(e) => Err(e),
                Ok(title) => match spec_formation(fleet) {
                    Err(e) => Err(e),
                    Ok(f) => Ok((id, title, f)),
                },
            },
        },
    }
}

/// Both sides' hit points under the keys `hp_1` and `hp_2`.
pub open spec fn spec_hp_infos(report: Json) -> Result<Seq<(Seq<char>, HpInfoView)>, ReportError> {
    match spec_hp_sides(report) {
        Err(e) => Err(e),
        Ok((own, enemy)) => Ok(seq![(sheet_key("hp"@, 1), own), (sheet_key("hp"@, 2), enemy)]),
    }
}

/// What a battle record holds.
pub struct WarView {
    pub name: Seq<char>,
    pub user_name: Seq<char>,
    pub enemy_name: Seq<char>,
    pub fleet_name: Seq<char>,
    pub enemy_fleet_id: i32,
    pub enemy_fleet_name: Seq<char>,
    pub spy_success: bool,
    pub course: Course,
    pub air_type: AirType,
    pub self_formation: Formation,
    pub enemy_formation: Formation,
    pub attacks: Seq<(Seq<char>, Seq<Attack>)>,
    pub air_attacks: Seq<(Seq<char>, Seq<AirAttack>)>,
    pub hp_infos: Seq<(Seq<char>, HpInfoView)>,
}

/// The battle record that a report `vo` gives, under the file name `name`;
/// or the first reason, in reading order, why it gives none.
pub open spec fn spec_war(vo: Json, name: Seq<char>) -> Result<WarView, ReportError> {
    match spec_member(vo, "warReport"@) {
        Err(e) => Err(e),
        Ok(report) => match spec_text_member(report, "userName"@) {
            Err(e) => Err(e),
            Ok(user_name) => match spec_text_member(report, "enemyName"@) {
                Err(e) => Err(e),
                Ok(enemy_name) => match spec_spy(report) {
                    Err(e) => Err(e),
                    Ok(spy_success) => match spec_course(report) {
                        Err(e) => Err(e),
                        Ok(course) => match spec_air_type(report) {
                            Err(e) => Err(e),
                            Ok(air_type) => match spec_own_fleet(report) {
                                Err(e) => Err(e),
                                Ok((fleet_name, self_formation)) => match spec_enemy_fleet(report) {
                                    Err(e) => Err(e),
                                    Ok((enemy_fleet_id, enemy_fleet_name, enemy_formation)) => match spec_keyed::<Attack>(
                                        report,
                                        spec_normal_battles(),
                                    ) {
                                        Err(e) => Err(e),
                                        Ok(attacks) => match spec_keyed::<AirAttack>(
                                            report,
                                            spec_air_battles(),
                                        ) {
                                            Err(e) => Err(e),
                                            Ok(air_attacks) => match spec_hp_infos(
                                                spec_index(vo, "warReport"@),
                                            ) {
                                                Err(e) => Err(e),
                                                Ok(hp_infos) => Ok(
                                                    WarView {
                                                        name,
                                                        user_name,
                                                        enemy_name,
                                                        fleet_name,
                                                        enemy_fleet_id,
                                                        enemy_fleet_name,
                                                        spy_success,
                                                        course,
                                                        air_type,
                                                        self_formation,
                                                        enemy_formation,
                                                        attacks,
                                                        air_attacks,
                                                        hp_infos,
                                                    },
                                                ),
                                            },
                                        },
                                    },
                                },
                            },
                        },
                    },
                },
            },
        },
    }
}

/// A battle, read from its report.
#[derive(Debug)]
pub struct War {
    name: String,
    user_name: String,
    enemy_name: String,
    fleet_name: String,
    enemy_fleet_id: i32,
    enemy_fleet_name: String,
    /// 索敌
    spy_success: bool,
    /// 航向
    course: Course,
    /// 制空
    air_type: AirType,
    /// 阵型
    self_formation: Formation,
    enemy_formation: Formation,
    /// Ordinary attacks, by sheet key.
    attacks: Vec<(String, Vec<Attack>)>,
    /// Air attacks, by sheet key.
    air_attacks: Vec<(String, Vec<AirAttack>)>,
    /// Hit points, by sheet key.
    hp_infos: Vec<(String, HpInfo)>,
}

impl View for War {
    type V = WarView;

    closed spec fn view(&self) -> WarView {
        WarView {
            name: self.name@,
            user_name: self.user_name@,
            enemy_name: self.enemy_name@,
            fleet_name: self.fleet_name@,
            enemy_fleet_id: self.enemy_fleet_id,
            enemy_fleet_name: self.enemy_fleet_name@,
            spy_success: self.spy_success,
            course: self.course,
            air_type: self.air_type,
            self_formation: self.self_formation,
            enemy_formation: self.enemy_formation,
            attacks: pairs_view(self.attacks@),
            air_attacks: pairs_view(self.air_attacks@),
            hp_infos: pairs_view(self.hp_infos@),
        }
    }
}

fn read_spy(report: &Json) -> (r: Result<bool, ReportError>)
    ensures
        r == spec_spy(*report),
{
    match text_member(report, "isExploreSuccess") {
        Err(e) => Err(e),
        Ok(t) => match parse_i32(t) {
            Some(v) => Ok(v != 0),
            None => Err(ReportError::NotANumber),
        },
    }
}

fn read_course(report: &Json) -> (r: Result<Course, ReportError>)
    ensures
        r == spec_course(*report),
{
    match int_member(report, "warType") {
        Err(e) => Err(e),
        Ok(i) => if 1 <= i && i <= 4 {
            Ok(Course::from(i))
        } else {
            Err(ReportError::UnknownCourse(i))
        },
    }
}

fn read_air_type(report: &Json) -> (r: Result<AirType, ReportError>)
    ensures
        r == spec_air_type(*report),
{
    match int_member(report, "airControlType") {
        Err(e) => Err(e),
        Ok(i) => if 1 <= i && i <= 5 {
            Ok(AirType::from(i))
        } else {
            Err(ReportError::UnknownAirType(i))
        },
    }
}

fn read_formation(fleet: &Json) -> (r: Result<Formation, ReportError>)
    ensures
        r == spec_formation(*fleet),
{
    match text_member(fleet, "formation") {
        Err(e) => Err(e),
        Ok(t) => match parse_i64(t) {
            None => Err(ReportError::NotANumber),
            Some(i) => if 1 <= i && i <= 5 {
                Ok(Formation::from(i))
            } else {
                Err(ReportError::UnknownFormation(i))
            },
        },
    }
}

fn read_own_fleet(report: &Json) -> (r: Result<(String, Formation), ReportError>)
    ensures
        match r {
            Ok((title, f)) => spec_own_fleet(*report) == Ok::<(Seq<char>, Formation), ReportError>((title@, f)),
            Err(e) => spec_own_fleet(*report) == Err::<(Seq<char>, Formation), ReportError>(e),
        },
{
    let fleet = match member(report, "selfFleet") {
        Ok(f) => f,
        Err(e) => return Err(e),
    };
    let title = match text_member(fleet, "title") {
        Ok(t) => t.to_owned(),
        Err(e) => return Err(e),
    };
    match read_formation(fleet) {
        Ok(f) => Ok((title, f)),
        Err(e) => Err(e),
    }
}

fn read_fleet_id(fleet: &Json) -> (r: Result<i32, ReportError>)
    ensures
        r == spec_fleet_id(*fleet),
{
    match member(fleet, "id") {
        Err(e) => Err(e),
        Ok(v) => match v {
            Json::Integer(n) => Ok(*n as i32),
            Json::OtherNumber => Err(ReportError::Missing),
            Json::Str(s) => match parse_i32(s.as_str()) {
                Some(x) => Ok(x),
                None => Err(ReportError::NotANumber),
            },
            _ => Err(ReportError::BadFleetId),
        },
    }
}

fn read_enemy_fleet(report: &Json) -> (r: Result<(i32, String, Formation), ReportError>)
    ensures
        match r {
            Ok((id, title, f)) => spec_enemy_fleet(*report) == Ok::<(i32, Seq<char>, Formation), ReportError>(
                (id, title@, f),
            ),
            Err(e) => spec_enemy_fleet(*report) == Err::<(i32, Seq<char>, Formation), ReportError>(e),
        },
{
    let fleet = match member(report, "enemyFleet") {
        Ok(f) => f,
        Err(e) => return Err(e),
    };
    let id = match read_fleet_id(fleet) {
        Ok(id) => id,
        Err(e) => return Err(e),
    };
    let title = match text_member(fleet, "title") {
        Ok(t) => t.to_owned(),
        Err(e) => return Err(e),
    };
    match read_formation(fleet) {
        Ok(f) => Ok((id, title, f)),
        Err(e) => Err(e),
    }
}

fn read_hp_infos(report: &Json) -> (r: Result<Vec<(String, HpInfo)>, ReportError>)
    ensures
        match r {
            Ok(infos) => spec_hp_infos(*report) == Ok::<Seq<(Seq<char>, HpInfoView)>, ReportError>(
                pairs_view(infos@),
            ),
            Err(e) => spec_hp_infos(*report) == Err::<Seq<(Seq<char>, HpInfoView)>, ReportError>(e),
        },
{
    match HpInfo::read(report) {
        Err(e) => Err(e),
        Ok((own, enemy)) => {
            let mut infos: Vec<(String, HpInfo)> = Vec::new();
            infos.push((format_sheet_name("hp", 1), own));
            infos.push((format_sheet_name("hp", 2), enemy));
            assert(pairs_view(infos@) =~= seq![
                (sheet_key("hp"@, 1), infos@[0].1@),
                (sheet_key("hp"@, 2), infos@[1].1@),
            ]);
            Ok(infos)
        },
    }
}

impl War {
    /// Reads the battle record of a report.
    fn from_vo(vo: &Json, name: String) -> (r: Result<War, ReportError>)
        ensures
            match r {
                Ok(w) => spec_war(*vo, name@) == Ok::<WarView, ReportError>(w@),
                Err(e) => spec_war(*vo, name@) == Err::<WarView, ReportError>(e),
            },
    {
        let report = match member(vo, "warReport") {
            Ok(r) => r,
            Err(e) => return Err(e),
        };
        let user_name = match text_member(report, "userName") {
            Ok(t) => t.to_owned(),
            Err(e) => return Err(e),
        };
        let enemy_name = match text_member(report, "enemyName") {
            Ok(t) => t.to_owned(),
            Err(e) => return Err(e),
        };
        let spy_success = match read_spy(report) {
            Ok(b) => b,
            Err(e) => return Err(e),
        };
        let course = match read_course(report) {
            Ok(c) => c,
            Err(e) => return Err(e),
        };
        let air_type = match read_air_type(report) {
            Ok(a) => a,
            Err(e) => return Err(e),
        };
        let (fleet_name, self_formation) = match read_own_fleet(report) {
            Ok(p) => p,
            Err(e) => return Err(e),
        };
        let (enemy_fleet_id, enemy_fleet_name, enemy_formation) = match read_enemy_fleet(report) {
            Ok(p) => p,
            Err(e) => return Err(e),
        };
        let normal = normal_battles();
        let attacks = match parse_keyed::<Attack>(report, &normal) {
            Ok(l) => l,
            Err(e) => return Err(e),
        };
        let air = air_battles();
        let air_attacks = match parse_keyed::<AirAttack>(report, &air) {
            Ok(l) => l,
            Err(e) => return Err(e),
        };
        let hp_infos = match read_hp_infos(report) {
            Ok(l) => l,
            Err(e) => return Err(e),
        };
        Ok(
            War {
                name,
                user_name,
                enemy_name,
                fleet_name,
                enemy_fleet_id,
                enemy_fleet_name,
                spy_success,
                course,
                air_type,
                self_formation,
                enemy_formation,
                attacks,
                air_attacks,
                hp_infos,
            },
        )
    }

    /// Whether a day-battle report gives a battle record, and if not, the
    /// first reason in reading order; every reason stops the program.
    pub fn check(name: &str, day_vo: &Json) -> (r: Result<(), ReportError>)
        ensures
            match r {
                Ok(_) => spec_war(*day_vo, name@) is Ok,
                Err(e) => spec_war(*day_vo, name@) == Err::<WarView, ReportError>(e),
            },
    {
        match War::from_vo(day_vo, name.to_owned()) {
            Ok(_) => Ok(()),
            Err(e) => Err(e),
        }
    }

    /// Reads the battle record of a day-battle report `day_vo`, named after
    /// its file.  The report must give one (see `check`).
    pub fn from(name: String, day_vo: &Json) -> (w: War)
        requires
            spec_war(*day_vo, name@) is Ok,
        ensures
            spec_war(*day_vo, name@) == Ok::<WarView, ReportError>(w@),
    {
        War::from_vo(day_vo, name).unwrap()
    }
}

impl War {
    fn header_prefix_row() -> (row: Vec<Cell>)
        ensures
            cells_view(row@) == texts(header_prefix_labels()),
    {
        let labels: Vec<&'static str> = vec![
            "文件名",
            "用户名",
            "敌用户名",
            "舰队名",
            "敌舰队id",
            "敌舰队名",
            "索敌成功",
            "航向",
            "制空",
            "我方阵型",
            "敌方阵型",
        ];
        let mut row: Vec<Cell> = Vec::new();
        push_texts(&mut row, &labels);
        assert(labels@.map_values(|l: &'static str| l@) =~= header_prefix_labels());
        assert(cells_view(Seq::<Cell>::empty()) =~= Seq::<CellView>::empty());
        assert(cells_view(row@) =~= texts(header_prefix_labels()));
        row
    }

    /// The title row of a sheet of `write_type`.
    pub fn header(write_type: WriteType) -> (row: Vec<Cell>)
        ensures
            cells_view(row@) == spec_header(write_type),
    {
        let mut row = Self::header_prefix_row();
        match write_type {
            WriteType::NormalBattle => {
                let labels: Vec<&'static str> = vec!["from", "target", "伤害", "暴击"];
                assert(labels@.map_values(|l: &'static str| l@) =~= attack_labels());
                push_repeated(&mut row, &labels, 6);
            },
            WriteType::AirBattle => {
                let labels: Vec<&'static str> = vec![
                    "from",
                    "target",
                    "伤害",
                    "暴击",
                    "飞机类型",
                    "放飞",
                    "击坠",
                ];
                assert(labels@.map_values(|l: &'static str| l@) =~= air_attack_labels());
                push_repeated(&mut row, &labels, 24);
            },
            WriteType::HpInfo => {
                push_hp_group(&mut row, "满");
                push_hp_group(&mut row, "入");
                push_hp_group(&mut row, "出");
                assert(cells_view(row@) =~= texts(header_prefix_labels()) + (hp_group("满"@)
                    + hp_group("入"@) + hp_group("出"@)));
            },
        }
        row
    }

    fn prefix_row(&self) -> (row: Vec<Cell>)
        ensures
            cells_view(row@) == prefix_cells(self@),
    {
        let mut row: Vec<Cell> = Vec::new();
        push_cell(&mut row, text(self.name.as_str()));
        push_cell(&mut row, text(self.user_name.as_str()));
        push_cell(&mut row, text(self.enemy_name.as_str()));
        push_cell(&mut row, text(self.fleet_name.as_str()));
        push_cell(&mut row, Cell::Number(self.enemy_fleet_id));
        push_cell(&mut row, text(self.enemy_fleet_name.as_str()));
        push_cell(&mut row, Cell::Bool(self.spy_success));
        push_cell(&mut row, text(self.course.label()));
        push_cell(&mut row, text(self.air_type.label()));
        push_cell(&mut row, text(self.self_formation.label()));
        push_cell(&mut row, text(self.enemy_formation.label()));
        assert(cells_view(row@) =~= prefix_cells(self@));
        row
    }

    /// Whether the record has an entry under `key` for sheets of `write_type`.
    pub fn has_sheet(&self, key: &str, write_type: WriteType) -> (r: bool)
        ensures
            r == spec_has_sheet(self@, key@, write_type),
    {
        match write_type {
            WriteType::NormalBattle => find_entry(&self.attacks, key).is_some(),
            WriteType::AirBattle => find_entry(&self.air_attacks, key).is_some(),
            WriteType::HpInfo => find_entry(&self.hp_infos, key).is_some(),
        }
    }

    /// The row of this battle in the sheet `key` of `write_type`.
    pub fn row(&self, key: &str, write_type: WriteType) -> (row: Vec<Cell>)
        requires
            spec_has_sheet(self@, key@, write_type),
        ensures
            cells_view(row@) == spec_row(self@, key@, write_type),
    {
        let mut row = self.prefix_row();
        match write_type {
            WriteType::NormalBattle => {
                let attacks = find_entry(&self.attacks, key).unwrap();
                push_attack_cells(&mut row, attacks);
            },
            WriteType::AirBattle => {
                let attacks = find_entry(&self.air_attacks, key).unwrap();
                push_air_attack_cells(&mut row, attacks);
            },
            WriteType::HpInfo => {
                let hp_info = find_entry(&self.hp_infos, key).unwrap();
                push_hp_cells(&mut row, &hp_info.max);
                push_hp_cells(&mut row, &hp_info.start);
                push_hp_cells(&mut row, &hp_info.end);
                assert(cells_view(row@) =~= prefix_cells(self@) + (hp_cells(hp_info.max@) + hp_cells(
                    hp_info.start@,
                ) + hp_cells(hp_info.end@)));
            },
        }
        row
    }
}

/// Every sheet laid out for rows of `write_type` finds its entry in every
/// battle record that a report gives, so each of them gets a row from it.
pub proof fn law_layout_sheets_present(vo: Json, name: Seq<char>, write_type: WriteType, i: int)
    requires
        spec_war(vo, name) is Ok,
        0 <= i < spec_layout(write_type).len(),
    ensures
        spec_has_sheet(spec_war(vo, name)->Ok_0, spec_layout(write_type)[i].0, write_type),
{
    let w = spec_war(vo, name)->Ok_0;
    let report = spec_member(vo, "warReport"@)->Ok_0;
    match write_type {
        WriteType::NormalBattle => {
            lemma_keyed_keys::<Attack>(report, spec_normal_battles());
            lemma_entry_found(w.attacks, spec_layout(write_type)[i].0, i);
        },
        WriteType::AirBattle => {
            lemma_keyed_keys::<AirAttack>(report, spec_air_battles());
            lemma_entry_found(w.air_attacks, spec_layout(write_type)[i].0, i);
        },
        WriteType::HpInfo => {
            lemma_entry_found(w.hp_infos, spec_layout(write_type)[i].0, i);
        },
    }
}

/// A battle record holds, for each kind of sheet, exactly the keys of the
/// sheets laid out for it: in layout order, each once.
pub proof fn law_record_keys(vo: Json, name: Seq<char>)
    requires
        spec_war(vo, name) is Ok,
    ensures
        keys_of((spec_war(vo, name)->Ok_0).attacks) == keys_of(spec_layout(WriteType::NormalBattle)),
        keys_of((spec_war(vo, name)->Ok_0).air_attacks) == keys_of(
            spec_layout(WriteType::AirBattle),
        ),
        keys_of((spec_war(vo, name)->Ok_0).hp_infos) == keys_of(spec_layout(WriteType::HpInfo)),
        keys_of((spec_war(vo, name)->Ok_0).attacks).no_duplicates(),
        keys_of((spec_war(vo, name)->Ok_0).air_attacks).no_duplicates(),
        keys_of((spec_war(vo, name)->Ok_0).hp_infos).no_duplicates(),
{
    let w = spec_war(vo, name)->Ok_0;
    let report = spec_member(vo, "warReport"@)->Ok_0;
    lemma_keyed_keys::<Attack>(report, spec_normal_battles());
    lemma_keyed_keys::<AirAttack>(report, spec_air_battles());
    assert(keys_of(w.attacks) =~= keys_of(spec_layout(WriteType::NormalBattle)));
    assert(keys_of(w.air_attacks) =~= keys_of(spec_layout(WriteType::AirBattle)));
    assert(keys_of(w.hp_infos) =~= keys_of(spec_layout(WriteType::HpInfo)));
    law_layout_keys_distinct(WriteType::NormalBattle);
    law_layout_keys_distinct(WriteType::AirBattle);
    law_layout_keys_distinct(WriteType::HpInfo);
}

/// The phase stored under the sheet keys `stem_1` and `stem_2` holds the
/// two sides' attacks read from the report member `member`.
pub open spec fn phase_read<T: AttackTrait>(
    entries: Seq<(Seq<char>, Seq<T>)>,
    report: Json,
    stem: Seq<char>,
    member: Seq<char>,
) -> bool {
    match spec_attack_lists::<T>(report, member) {
        Ok((first, second)) => entry(entries, sheet_key(stem, 1)) == Some(first) && entry(
            entries,
            sheet_key(stem, 2),
        ) == Some(second),
        Err(_) => false,
    }
}

proof fn lemma_phase_read<T: AttackTrait>(
    entries: Seq<(Seq<char>, Seq<T>)>,
    report: Json,
    sources: Seq<(Seq<char>, Seq<char>, Seq<char>)>,
    j: int,
)
    requires
        spec_keyed::<T>(report, sources) == Ok::<Seq<(Seq<char>, Seq<T>)>, ReportError>(entries),
        keys_of(entries).no_duplicates(),
        0 <= j < sources.len(),
    ensures
        phase_read::<T>(entries, report, sources[j].0, sources[j].1),
{
    lemma_keyed_at::<T>(report, sources, j);
    lemma_entry_unique(entries, sheet_key(sources[j].0, 1), 2 * j);
    lemma_entry_unique(entries, sheet_key(sources[j].0, 2), 2 * j + 1);
}

/// Each phase's attacks come from that phase's own member of the report:
/// open_missile from openMissileAttack, open_torpedo from
/// openTorpedoAttack, open_antisub from openAntiSubAttack, normal from
/// normalAttacks, normal2 from normalAttacks2, close_torpedo from
/// closeTorpedoAttack, close_missile from closeMissileAttack, and the air
/// phase open_air from openAirAttack; side 1 under `_1`, side 2 under `_2`.
pub proof fn law_phases_read_from_their_members(vo: Json, name: Seq<char>)
    requires
        spec_war(vo, name) is Ok,
    ensures
        ({
            let w = spec_war(vo, name)->Ok_0;
            let report = spec_index(vo, "warReport"@);
            &&& phase_read::<Attack>(w.attacks, report, "open_missile"@, "openMissileAttack"@)
            &&& phase_read::<Attack>(w.attacks, report, "open_torpedo"@, "openTorpedoAttack"@)
            &&& phase_read::<Attack>(w.attacks, report, "open_antisub"@, "openAntiSubAttack"@)
            &&& phase_read::<Attack>(w.attacks, report, "normal"@, "normalAttacks"@)
            &&& phase_read::<Attack>(w.attacks, report, "normal2"@, "normalAttacks2"@)
            &&& phase_read::<Attack>(w.attacks, report, "close_torpedo"@, "closeTorpedoAttack"@)
            &&& phase_read::<Attack>(w.attacks, report, "close_missile"@, "closeMissileAttack"@)
            &&& phase_read::<AirAttack>(w.air_attacks, report, "open_air"@, "openAirAttack"@)
        }),
{
    let w = spec_war(vo, name)->Ok_0;
    let report = spec_member(vo, "warReport"@)->Ok_0;
    law_record_keys(vo, name);
    let normal = spec_normal_battles();
    let air = spec_air_battles();
    lemma_phase_read::<Attack>(w.attacks, report, normal, 0);
    lemma_phase_read::<Attack>(w.attacks, report, normal, 1);
    lemma_phase_read::<Attack>(w.attacks, report, normal, 2);
    lemma_phase_read::<Attack>(w.attacks, report, normal, 3);
    lemma_phase_read::<Attack>(w.attacks, report, normal, 4);
    lemma_phase_read::<Attack>(w.attacks, report, normal, 5);
    lemma_phase_read::<Attack>(w.attacks, report, normal, 6);
    lemma_phase_read::<AirAttack>(w.air_attacks, report, air, 0);
}

/// A battle record holds what its report says: the file name it was given;
/// the user and enemy names; sighting as a nonzero `isExploreSuccess`; the
/// course and air control of their codes; each fleet's title and formation
/// code; the enemy fleet's id; and under hp_1 and hp_2 the own and the
/// enemy side's hit points.
pub proof fn law_record_fields(vo: Json, name: Seq<char>)
    requires
        spec_war(vo, name) is Ok,
    ensures
        ({
            let w = spec_war(vo, name)->Ok_0;
            let r = spec_index(vo, "warReport"@);
            let own = spec_index(r, "selfFleet"@);
            let enemy = spec_index(r, "enemyFleet"@);
            &&& w.name == name
            &&& spec_text_member(r, "userName"@) == Ok::<Seq<char>, ReportError>(w.user_name)
            &&& spec_text_member(r, "enemyName"@) == Ok::<Seq<char>, ReportError>(w.enemy_name)
            &&& w.spy_success == ((spec_parse_i32(
                spec_text_member(r, "isExploreSuccess"@)->Ok_0,
            )->0) != 0)
            &&& w.course == course_of(spec_int_member(r, "warType"@)->Ok_0)
            &&& w.air_type == air_type_of(spec_int_member(r, "airControlType"@)->Ok_0)
            &&& spec_text_member(own, "title"@) == Ok::<Seq<char>, ReportError>(w.fleet_name)
            &&& w.self_formation == formation_of(
                spec_parse_i64(spec_text_member(own, "formation"@)->Ok_0)->0,
            )
            &&& spec_fleet_id(enemy) == Ok::<i32, ReportError>(w.enemy_fleet_id)
            &&& spec_text_member(enemy, "title"@) == Ok::<Seq<char>, ReportError>(
                w.enemy_fleet_name,
            )
            &&& w.enemy_formation == formation_of(
                spec_parse_i64(spec_text_member(enemy, "formation"@)->Ok_0)->0,
            )
            &&& entry(w.hp_infos, sheet_key("hp"@, 1)) == Some(
                spec_side_hp(
                    spec_as_array(spec_index(r, "selfShips"@))->0,
                    spec_as_array(spec_index(r, "hpBeforeNightWarSelf"@))->0,
                )->Ok_0,
            )
            &&& entry(w.hp_infos, sheet_key("hp"@, 2)) == Some(
                spec_side_hp(
                    spec_as_array(spec_index(r, "enemyShips"@))->0,
                    spec_as_array(spec_index(r, "hpBeforeNightWarEnemy"@))->0,
                )->Ok_0,
            )
        }),
{
    let w = spec_war(vo, name)->Ok_0;
    law_record_keys(vo, name);
    lemma_entry_unique(w.hp_infos, sheet_key("hp"@, 1), 0);
    lemma_entry_unique(w.hp_infos, sheet_key("hp"@, 2), 1);
}

} // verus!
