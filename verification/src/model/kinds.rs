//! The coded values of a report: course, formation and air control.
use vstd::prelude::*;

verus! {

/// The course of the two fleets (航向).
#[derive(Debug, Clone, Copy, PartialEq, Eq)]
pub enum Course {
    Same,
    Reverse,
    TNice,
    TFuck,
}

/// The course that a code in 1..=4 stands for.
pub open spec fn course_of(i: i64) -> Course {
    if i == 1 {
        Course::Same
    } else if i == 2 {
        Course::Reverse
    } else if i == 3 {
        Course::TNice
    } else {
        Course::TFuck
    }
}

pub open spec fn course_label(c: Course) -> Seq<char> {
    match c {
        Course::Same => "同航"@,
        Course::Reverse => "反航"@,
        Course::TNice => "T优"@,
        Course::TFuck => "T劣"@,
    }
}

impl Course {
    /// The course for its code; the codes are 1 to 4.
    pub fn from(i: i64) -> (r: Course)
        requires
            1 <= i <= 4,
        ensures
            r == course_of(i),
            i == 1 ==> r == Course::Same,
            i == 2 ==> r == Course::Reverse,
            i == 3 ==> r == Course::TNice,
            i == 4 ==> r == Course::TFuck,
    {
        match i {
            1 => Course::Same,
            2 => Course::Reverse,
            3 => Course::TNice,
            _ => Course::TFuck,
        }
    }

    /// The text a sheet shows for the course.
    pub fn label(&self) -> (r: &'static str)
        ensures
            r@ == course_label(*self),
    {
        match self {
            Course::Same => "同航",
            Course::Reverse => "反航",
            Course::TNice => "T优",
            Course::TFuck => "T劣",
        }
    }
}

/// A fleet's formation (阵型).
#[derive(Debug, Clone, Copy, PartialEq, Eq)]
pub enum Formation {
    DanZong,
    FuZong,
    LunXing,
    TXing,
    DanHeng,
}

/// The formation that a code in 1..=5 stands for.
pub open spec fn formation_of(i: i64) -> Formation {
    if i == 1 {
        Formation::DanZong
    } else if i == 2 {
        Formation::FuZong
    } else if i == 3 {
        Formation::LunXing
    } else if i == 4 {
        Formation::TXing
    } else {
        Formation::DanHeng
    }
}

pub open spec fn formation_label(f: Formation) -> Seq<char> {
    match f {
        Formation::DanZong => "单纵"@,
        Formation::FuZong => "复纵"@,
        Formation::LunXing => "轮形"@,
        Formation::TXing => "梯形"@,
        Formation::DanHeng => "单横"@,
    }
}

impl Formation {
    /// The formation for its code; the codes are 1 to 5.
    pub fn from(i: i64) -> (r: Formation)
        requires
            1 <= i <= 5,
        ensures
            r == formation_of(i),
            i == 1 ==> r == Formation::DanZong,
            i == 2 ==> r == Formation::FuZong,
            i == 3 ==> r == Formation::LunXing,
            i == 4 ==> r == Formation::TXing,
            i == 5 ==> r == Formation::DanHeng,
    {
        match i {
            1 => Formation::DanZong,
            2 => Formation::FuZong,
            3 => Formation::LunXing,
            4 => Formation::TXing,
            _ => Formation::DanHeng,
        }
    }

    /// The text a sheet shows for the formation.
    pub fn label(&self) -> (r: &'static str)
        ensures
            r@ == formation_label(*self),
    {
        match self {
            Formation::DanZong => "单纵",
            Formation::FuZong => "复纵",
            Formation::LunXing => "轮形",
            Formation::TXing => "梯形",
            Formation::DanHeng => "单横",
        }
    }
}

/// The state of air control (制空).
#[derive(Debug, Clone, Copy, PartialEq, Eq)]
pub enum AirType {
    Dominate,
    Superiority,
    Even,
    Inferior,
    Lost,
}

/// The air-control state that a code in 1..=5 stands for.
pub open spec fn air_type_of(i: i64) -> AirType {
    if i == 1 {
        AirType::Dominate
    } else if i == 2 {
        AirType::Superiority
    } else if i == 3 {
        AirType::Even
    } else if i == 4 {
        AirType::Inferior
    } else {
        AirType::Lost
    }
}

pub open spec fn air_type_label(a: AirType) -> Seq<char> {
    match a {
        AirType::Dominate => "空确"@,
        AirType::Superiority => "空优"@,
        AirType::Even => "空均"@,
        AirType::Inferior => "空劣"@,
        AirType::Lost => "空丧"@,
    }
}

impl AirType {
    /// The air-control state for its code; the codes are 1 to 5.
    pub fn from(i: i64) -> (r: AirType)
        requires
            1 <= i <= 5,
        ensures
            r == air_type_of(i),
            i == 1 ==> r == AirType::Dominate,
            i == 2 ==> r == AirType::Superiority,
            i == 3 ==> r == AirType::Even,
            i == 4 ==> r == AirType::Inferior,
            i == 5 ==> r == AirType::Lost,
    {
        match i {
            1 => AirType::Dominate,
            2 => AirType::Superiority,
            3 => AirType::Even,
            4 => AirType::Inferior,
            _ => AirType::Lost,
        }
    }

    /// The text a sheet shows for the air-control state.
    pub fn label(&self) -> (r: &'static str)
        ensures
            r@ == air_type_label(*self),
    {
        match self {
            AirType::Dominate => "空确",
            AirType::Superiority => "空优",
            AirType::Even => "空均",
            AirType::Inferior => "空劣",
            AirType::Lost => "空丧",
        }
    }
}

/// The course codes and the texts a sheet shows for them:
/// 1 同航, 2 反航, 3 T优, 4 T劣.
pub proof fn law_course_codes()
    ensures
        course_label(course_of(1)) == "同航"@,
        course_label(course_of(2)) == "反航"@,
        course_label(course_of(3)) == "T优"@,
        course_label(course_of(4)) == "T劣"@,
        course_of(1) == Course::Same,
        course_of(2) == Course::Reverse,
        course_of(3) == Course::TNice,
        course_of(4) == Course::TFuck,
{
}

/// The formation codes and the texts a sheet shows for them:
/// 1 单纵, 2 复纵, 3 轮形, 4 梯形, 5 单横.
pub proof fn law_formation_codes()
    ensures
        formation_label(formation_of(1)) == "单纵"@,
        formation_label(formation_of(2)) == "复纵"@,
        formation_label(formation_of(3)) == "轮形"@,
        formation_label(formation_of(4)) == "梯形"@,
        formation_label(formation_of(5)) == "单横"@,
        formation_of(1) == Formation::DanZong,
        formation_of(2) == Formation::FuZong,
        formation_of(3) == Formation::LunXing,
        formation_of(4) == Formation::TXing,
        formation_of(5) == Formation::DanHeng,
{
}

/// The air-control codes and the texts a sheet shows for them:
/// 1 空确, 2 空优, 3 空均, 4 空劣, 5 空丧.
pub proof fn law_air_type_codes()
    ensures
        air_type_label(air_type_of(1)) == "空确"@,
        air_type_label(air_type_of(2)) == "空优"@,
        air_type_label(air_type_of(3)) == "空均"@,
        air_type_label(air_type_of(4)) == "空劣"@,
        air_type_label(air_type_of(5)) == "空丧"@,
        air_type_of(1) == AirType::Dominate,
        air_type_of(2) == AirType::Superiority,
        air_type_of(3) == AirType::Even,
        air_type_of(4) == AirType::Inferior,
        air_type_of(5) == AirType::Lost,
{
}

} // verus!
