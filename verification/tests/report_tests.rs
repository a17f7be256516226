use war_sheet::cell::Cell;
use war_sheet::json::Json;
use war_sheet::model::attack::{AirAttack, Attack, AttackTrait};
use war_sheet::model::battles::sheet_layout;
use war_sheet::model::error::ReportError;
use war_sheet::model::hpinfo::HpInfo;
use war_sheet::model::kinds::{AirType, Course, Formation};
use war_sheet::model::rows::WriteType;
use war_sheet::model::war::War;

fn s(t: &str) -> Json {
    Json::Str(t.to_string())
}

fn n(v: i64) -> Json {
    Json::Integer(v)
}

fn arr(items: Vec<Json>) -> Json {
    Json::Array(items)
}

fn obj(members: Vec<(&str, Json)>) -> Json {
    Json::Object(members.into_iter().map(|(k, v)| (k.to_string(), v)).collect())
}

fn attack(side: i64, from: i64, target: i64, damage: i64, critical: i64) -> Json {
    obj(vec![
        ("attackSide", n(side)),
        ("fromIndex", n(from)),
        ("targetIndex", arr(vec![n(target)])),
        ("damage", arr(vec![n(damage)])),
        ("damages", arr(vec![obj(vec![("isCritical", n(critical))])])),
    ])
}

fn air_attack(side: i64, from: i64, plane_type: i64, amount: i64, dropped: i64) -> Json {
    obj(vec![
        ("attackSide", n(side)),
        ("fromIndex", n(from)),
        ("targetIndex", arr(vec![n(3)])),
        ("damage", arr(vec![n(50)])),
        ("damages", arr(vec![obj(vec![("isCritical", n(1))])])),
        ("planeType", n(plane_type)),
        ("planeAmount", n(amount)),
        ("dropAmount", n(dropped)),
    ])
}

fn ship(index: i64, hp_max: i64, hp: i64) -> Json {
    obj(vec![("indexInFleet", n(index)), ("hpMax", n(hp_max)), ("hp", n(hp))])
}

const ATTACK_KEYS: [&str; 7] = [
    "openMissileAttack",
    "openTorpedoAttack",
    "openAntiSubAttack",
    "normalAttacks",
    "normalAttacks2",
    "closeTorpedoAttack",
    "closeMissileAttack",
];

fn report_members() -> Vec<(&'static str, Json)> {
    let mut m = vec![
        ("userName", s("me")),
        ("enemyName", s("them")),
        ("isExploreSuccess", s("1")),
        ("warType", n(3)),
        ("airControlType", n(2)),
        ("selfFleet", obj(vec![("title", s("fleet A")), ("formation", s("4"))])),
        ("enemyFleet", obj(vec![("id", s("10023")), ("title", s("enemy B")), ("formation", s("+1"))])),
    ];
    for key in ATTACK_KEYS {
        m.push((key, arr(vec![])));
    }
    m[7 + 3] = ("normalAttacks", arr(vec![attack(1, 0, 2, 120, 1), attack(2, 5, 0, 33, 0), attack(1, 1, 4, 7, 0)]));
    m.push(("openAirAttack", arr(vec![air_attack(2, 0, 11, 20, 4)])));
    m.push(("selfShips", arr(vec![ship(0, 50, 40), ship(1, 60, 60)])));
    m.push(("hpBeforeNightWarSelf", arr(vec![n(30), n(59), n(0), n(0), n(0), n(0)])));
    m.push(("enemyShips", arr(vec![ship(0, 90, 90)])));
    m.push(("hpBeforeNightWarEnemy", arr(vec![])));
    m
}

fn report_with(members: Vec<(&'static str, Json)>) -> Json {
    obj(vec![("warReport", obj(members))])
}

fn replaced(key: &str, value: Json) -> Json {
    let mut value = Some(value);
    let members = report_members()
        .into_iter()
        .map(|(k, v)| if k == key { (k, value.take().unwrap()) } else { (k, v) })
        .collect();
    report_with(members)
}

fn without(key: &str) -> Json {
    report_with(report_members().into_iter().filter(|(k, _)| *k != key).collect())
}

fn t(x: &str) -> Cell {
    Cell::Text(x.to_string())
}

fn prefix() -> Vec<Cell> {
    vec![
        t("r1"),
        t("me"),
        t("them"),
        t("fleet A"),
        Cell::Number(10023),
        t("enemy B"),
        Cell::Bool(true),
        t("T优"),
        t("空优"),
        t("梯形"),
        t("单纵"),
    ]
}

#[test]
fn codes_name_their_kinds() {
    assert_eq!(Course::from(1), Course::Same);
    assert_eq!(Course::from(4), Course::TFuck);
    assert_eq!(Formation::from(3), Formation::LunXing);
    assert_eq!(Formation::from(5), Formation::DanHeng);
    assert_eq!(AirType::from(1), AirType::Dominate);
    assert_eq!(AirType::from(5), AirType::Lost);
    assert_eq!(Course::from(2).label(), "反航");
    assert_eq!(Formation::from(2).label(), "复纵");
    assert_eq!(AirType::from(4).label(), "空劣");
}

#[test]
fn a_full_report_gives_its_rows() {
    let war = War::from("r1".to_string(), &report_with(report_members()));
    assert!(war.has_sheet("normal_1", WriteType::NormalBattle));
    assert!(!war.has_sheet("normal_3", WriteType::NormalBattle));
    assert!(!war.has_sheet("hp_1", WriteType::NormalBattle));

    let mut want = prefix();
    want.extend(vec![
        Cell::Number(0), Cell::Number(2), Cell::Number(120), Cell::Bool(true),
        Cell::Number(1), Cell::Number(4), Cell::Number(7), Cell::Bool(false),
    ]);
    assert_eq!(war.row("normal_1", WriteType::NormalBattle), want);

    let mut want = prefix();
    want.extend(vec![Cell::Number(5), Cell::Number(0), Cell::Number(33), Cell::Bool(false)]);
    assert_eq!(war.row("normal_2", WriteType::NormalBattle), want);
    assert_eq!(war.row("close_missile_1", WriteType::NormalBattle), prefix());

    let mut want = prefix();
    want.extend(vec![
        Cell::Number(0), Cell::Number(3), Cell::Number(50), Cell::Bool(true),
        Cell::Number(11), Cell::Number(20), Cell::Number(4),
    ]);
    assert_eq!(war.row("open_air_2", WriteType::AirBattle), want);
    assert_eq!(war.row("open_air_1", WriteType::AirBattle), prefix());

    let mut want = prefix();
    let b = Cell::Blank;
    want.extend(vec![Cell::Number(50), Cell::Number(60), b.clone(), b.clone(), b.clone(), b.clone()]);
    want.extend(vec![Cell::Number(40), Cell::Number(60), b.clone(), b.clone(), b.clone(), b.clone()]);
    want.extend(vec![Cell::Number(30), Cell::Number(59), b.clone(), b.clone(), b.clone(), b.clone()]);
    let row = war.row("hp_1", WriteType::HpInfo);
    assert_eq!(row, want);
    assert_eq!(row.len(), War::header(WriteType::HpInfo).len());

    let mut want = prefix();
    want.extend(vec![Cell::Number(90), b.clone(), b.clone(), b.clone(), b.clone(), b.clone()]);
    want.extend(vec![Cell::Number(90), b.clone(), b.clone(), b.clone(), b.clone(), b.clone()]);
    want.extend(vec![b.clone(), b.clone(), b.clone(), b.clone(), b.clone(), b.clone()]);
    assert_eq!(war.row("hp_2", WriteType::HpInfo), want);
}

#[test]
fn every_laid_out_sheet_has_a_row() {
    let war = War::from("r1".to_string(), &report_with(report_members()));
    for wt in [WriteType::NormalBattle, WriteType::AirBattle, WriteType::HpInfo] {
        for (key, _title) in sheet_layout(wt) {
            assert!(war.has_sheet(&key, wt), "{}", key);
        }
    }
}

#[test]
fn sheets_are_laid_out_in_order() {
    let normal = sheet_layout(WriteType::NormalBattle);
    assert_eq!(normal.len(), 14);
    assert_eq!(normal[0], ("open_missile_1".to_string(), "开幕导弹_1".to_string()));
    assert_eq!(normal[1], ("open_missile_2".to_string(), "开幕导弹_2".to_string()));
    assert_eq!(normal[13], ("close_missile_2".to_string(), "闭幕导弹_2".to_string()));
    assert_eq!(
        sheet_layout(WriteType::AirBattle),
        vec![
            ("open_air_1".to_string(), "开幕空袭_1".to_string()),
            ("open_air_2".to_string(), "开幕空袭_2".to_string()),
        ]
    );
    assert_eq!(
        sheet_layout(WriteType::HpInfo),
        vec![("hp_1".to_string(), "hp_1".to_string()), ("hp_2".to_string(), "hp_2".to_string())]
    );
}

#[test]
fn title_rows() {
    let normal = War::header(WriteType::NormalBattle);
    assert_eq!(normal.len(), 35);
    assert_eq!(normal[0], t("文件名"));
    assert_eq!(normal[10], t("敌方阵型"));
    assert_eq!(normal[11..15].to_vec(), vec![t("from"), t("target"), t("伤害"), t("暴击")]);
    assert_eq!(normal[31..35].to_vec(), vec![t("from"), t("target"), t("伤害"), t("暴击")]);
    let air = War::header(WriteType::AirBattle);
    assert_eq!(air.len(), 179);
    assert_eq!(air[178], t("击坠"));
    let hp = War::header(WriteType::HpInfo);
    assert_eq!(hp.len(), 29);
    assert_eq!(hp[11], t("满1"));
    assert_eq!(hp[16], t("满6"));
    assert_eq!(hp[17], t("入1"));
    assert_eq!(hp[28], t("出6"));
}

#[test]
fn numeric_fleet_id_and_zero_spy() {
    let mut members = report_members();
    members[2] = ("isExploreSuccess", s("0"));
    members[6] = ("enemyFleet", obj(vec![("id", n(4294967301)), ("title", s("e")), ("formation", s("2"))]));
    let war = War::from("r1".to_string(), &report_with(members));
    let row = war.row("hp_2", WriteType::HpInfo);
    // the id is cut to 32 bits, as a cast does
    assert_eq!(row[4], Cell::Number(5));
    assert_eq!(row[6], Cell::Bool(false));
    assert_eq!(row[10], t("复纵"));
}

#[test]
fn missing_members_skip_the_report() {
    assert_eq!(War::check("r", &obj(vec![])).unwrap_err(), ReportError::Missing);
    assert_eq!(War::check("r", &s("x")).unwrap_err(), ReportError::Missing);
    assert_eq!(War::check("r", &without("userName")).unwrap_err(), ReportError::Missing);
    assert_eq!(War::check("r", &replaced("warType", s("3"))).unwrap_err(), ReportError::Missing);
    assert_eq!(War::check("r", &without("closeMissileAttack")).unwrap_err(), ReportError::Missing);
    assert_eq!(War::check("r", &without("openAirAttack")).unwrap_err(), ReportError::Missing);
    let fleet = obj(vec![("id", Json::OtherNumber), ("title", s("e")), ("formation", s("2"))]);
    assert_eq!(War::check("r", &replaced("enemyFleet", fleet)).unwrap_err(), ReportError::Missing);
}

#[test]
fn refused_reports_say_why() {
    let e = |key: &str, v: Json| War::check("r", &replaced(key, v)).unwrap_err();
    assert_eq!(e("isExploreSuccess", s("yes")), ReportError::NotANumber);
    assert_eq!(e("warType", n(5)), ReportError::UnknownCourse(5));
    assert_eq!(e("airControlType", n(0)), ReportError::UnknownAirType(0));
    assert_eq!(e("selfFleet", obj(vec![("title", s("a")), ("formation", s("6"))])), ReportError::UnknownFormation(6));
    assert_eq!(e("selfFleet", obj(vec![("title", s("a")), ("formation", s("x"))])), ReportError::NotANumber);
    assert_eq!(e("enemyFleet", obj(vec![("id", Json::Null), ("title", s("a")), ("formation", s("1"))])), ReportError::BadFleetId);
    assert_eq!(e("enemyFleet", obj(vec![("id", s("1x")), ("title", s("a")), ("formation", s("1"))])), ReportError::NotANumber);
    assert_eq!(e("normalAttacks", arr(vec![attack(3, 0, 0, 0, 0)])), ReportError::UnknownSide(3));
    let empty_target = obj(vec![
        ("attackSide", n(1)),
        ("fromIndex", n(0)),
        ("targetIndex", arr(vec![])),
        ("damage", arr(vec![n(1)])),
        ("damages", arr(vec![])),
    ]);
    assert_eq!(e("normalAttacks", arr(vec![empty_target])), ReportError::EmptyList);
    assert_eq!(e("selfShips", arr(vec![ship(1, 5, 5)])), ReportError::ShipsOutOfOrder);
    assert_eq!(e("enemyShips", s("none")), ReportError::BadHpData);
    assert_eq!(e("hpBeforeNightWarSelf", arr(vec![s("1")])), ReportError::BadHpData);
}

#[test]
fn the_first_problem_in_reading_order_decides() {
    let mut members = report_members();
    members[3] = ("warType", n(9));
    members[4] = ("airControlType", n(9));
    assert_eq!(War::check("r", &report_with(members)).unwrap_err(), ReportError::UnknownCourse(9));
    // an unknown side is found before a later missing phase
    let mut members = report_members();
    members.retain(|(k, _)| *k != "closeMissileAttack");
    members[3 + 7] = ("normalAttacks", arr(vec![attack(7, 0, 0, 0, 0)]));
    assert_eq!(War::check("r", &report_with(members)).unwrap_err(), ReportError::UnknownSide(7));
}

#[test]
fn attacks_read_from_entries() {
    assert_eq!(
        <Attack as AttackTrait>::from(&attack(1, 2, 3, 4, 0)),
        Some(Attack { from_index: 2, target_index: 3, damage: 4, is_critical: false })
    );
    assert_eq!(
        <AirAttack as AttackTrait>::from(&air_attack(1, 6, 7, 8, 9)),
        Some(AirAttack {
            from_index: 6,
            target_index: 3,
            damage: 50,
            is_critical: true,
            plane_type: 7,
            plane_amount: 8,
            drop_amount: 9,
        })
    );
    assert_eq!(<Attack as AttackTrait>::from(&obj(vec![])), None);
    assert_eq!(<Attack as AttackTrait>::read(&obj(vec![])), Err(ReportError::Missing));
    let no_targets = obj(vec![("fromIndex", n(1)), ("targetIndex", arr(vec![]))]);
    assert_eq!(<Attack as AttackTrait>::read(&no_targets), Err(ReportError::EmptyList));
}

#[test]
fn hit_points_of_both_sides() {
    let report = obj(report_members());
    let (own, enemy) = HpInfo::parse(&report);
    assert_eq!(own.max, vec![50, 60]);
    assert_eq!(own.start, vec![40, 60]);
    assert_eq!(own.end, vec![30, 59]);
    assert_eq!(enemy.max, vec![90]);
    assert_eq!(enemy.start, vec![90]);
    assert!(enemy.end.is_empty());
    let bad = obj(vec![("selfShips", arr(vec![ship(1, 1, 1)])), ("hpBeforeNightWarSelf", arr(vec![]))]);
    assert_eq!(HpInfo::read(&bad).unwrap_err(), ReportError::ShipsOutOfOrder);
}

#[test]
fn fleet_id_as_number_or_text_reads_the_same() {
    for id in [0i64, 7, -3, 2147483647, -2147483648] {
        let mut by_number = report_members();
        by_number[6] = ("enemyFleet", obj(vec![("id", n(id)), ("title", s("e")), ("formation", s("2"))]));
        let mut by_text = report_members();
        by_text[6] = ("enemyFleet", obj(vec![("id", s(&id.to_string())), ("title", s("e")), ("formation", s("2"))]));
        let a = War::from("r1".to_string(), &report_with(by_number)).row("hp_1", WriteType::HpInfo);
        let b = War::from("r1".to_string(), &report_with(by_text)).row("hp_1", WriteType::HpInfo);
        assert_eq!(a, b);
        assert_eq!(a[4], Cell::Number(id as i32));
    }
}

#[test]
fn a_record_holds_exactly_the_laid_out_keys() {
    let war = War::from("r1".to_string(), &report_with(report_members()));
    for wt in [WriteType::NormalBattle, WriteType::AirBattle, WriteType::HpInfo] {
        let keys: Vec<String> = sheet_layout(wt).into_iter().map(|(k, _)| k).collect();
        let mut unique = keys.clone();
        unique.sort();
        unique.dedup();
        assert_eq!(unique.len(), keys.len());
        for other in ["open_air_1", "hp_1", "normal_1", "normal_3", "open_missile"] {
            assert_eq!(war.has_sheet(other, wt), keys.iter().any(|k| k == other), "{}", other);
        }
    }
}

#[test]
fn json_lookups() {
    let v = obj(vec![("a", n(1)), ("b", s("x")), ("a", n(2))]);
    assert!(matches!(v.get("a"), Some(Json::Integer(1))));
    assert!(v.get("c").is_none());
    assert_eq!(v.get("b").and_then(|x| x.as_str()), Some("x"));
    assert_eq!(n(3).as_i64(), Some(3));
    assert_eq!(Json::OtherNumber.as_i64(), None);
    assert!(s("x").get("a").is_none());
    assert_eq!(arr(vec![n(1)]).as_array().map(|a| a.len()), Some(1));
}
