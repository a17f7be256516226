//! Single attacks of a battle.
use vstd::prelude::*;
use crate::json::Json;
use crate::model::error::ReportError;
use crate::model::fields::{
    first_int, first_item, int_member, spec_first_int, spec_first_item, spec_int_member,
};

verus! {

/// The members that every attack entry has: who fires, at whom, the
/// damage, and whether it was a critical hit.
pub open spec fn spec_basic(vo: Json) -> Result<(i32, i32, i32, bool), ReportError> {
    match spec_int_member(vo, "fromIndex"@) {
        Err(e) => Err(e),
        Ok(from) => match spec_first_int(vo, "targetIndex"@) {
            Err(e) => Err(e),
            Ok(target) => match spec_first_int(vo, "damage"@) {
                Err(e) => Err(e),
                Ok(damage) => match spec_first_item(vo, "damages"@) {
                    Err(e) => Err(e),
                    Ok(item) => match spec_int_member(item, "isCritical"@) {
                        Err(e) => Err(e),
                        Ok(critical) => Ok(
                            (from as i32, target as i32, damage as i32, critical != 0),
                        ),
                    },
                },
            },
        },
    }
}

fn parse_basic(vo: &Json) -> (r: Result<(i32, i32, i32, bool), ReportError>)
    ensures
        r == spec_basic(*vo),
{
    let from = match int_member(vo, "fromIndex") {
        Ok(n) => n,
        Err(e) => return Err(e),
    };
    let target = match first_int(vo, "targetIndex") {
        Ok(n) => n,
        Err(e) => return Err(e),
    };
    let damage = match first_int(vo, "damage") {
        Ok(n) => n,
        Err(e) => return Err(e),
    };
    let item = match first_item(vo, "damages") {
        Ok(v) => v,
        Err(e) => return Err(e),
    };
    let critical = match int_member(item, "isCritical") {
        Ok(n) => n,
        Err(e) => return Err(e),
    };
    Ok((from as i32, target as i32, damage as i32, critical != 0))
}

/// An attack entry of a report, read into a record.
pub trait AttackTrait: Sized {
    /// What reading `vo` gives.
    spec fn spec_from(vo: Json) -> Result<Self, ReportError>;

    /// Reads one attack entry, or gives the first reason it cannot be read.
    fn read(vo: &Json) -> (r: Result<Self, ReportError>)
        ensures
            r == Self::spec_from(*vo),
    ;

    /// Reads one attack entry; `None` where a member is absent or of
    /// another JSON type.  An entry with an empty target or damage list is
    /// refused: it must not be given (see `read`).
    fn from(vo: &Json) -> (r: Option<Self>)
        requires
            Self::spec_from(*vo) != Err::<Self, ReportError>(ReportError::EmptyList),
        ensures
            match Self::spec_from(*vo) {
                Ok(a) => r == Some(a),
                Err(_) => r is None,
            },
    {
        match Self::read(vo) {
            Ok(a) => Some(a),
            Err(_) => None,
        }
    }
}

/// A gun, torpedo or missile attack.
#[derive(Debug, Clone, Copy, PartialEq, Eq)]
pub struct Attack {
    pub from_index: i32,
    pub target_index: i32,
    pub damage: i32,
    pub is_critical: bool,
}

impl AttackTrait for Attack {
    open spec fn spec_from(vo: Json) -> Result<Attack, ReportError> {
        match spec_basic(vo) {
            Err(e) => Err(e),
            Ok((from_index, target_index, damage, is_critical)) => Ok(
                Attack { from_index, target_index, damage, is_critical },
            ),
        }
    }

    fn read(vo: &Json) -> (r: Result<Attack, ReportError>) {
        match parse_basic(vo) {
            Err(e) => Err(e),
            Ok((from_index, target_index, damage, is_critical)) => Ok(
                Attack { from_index, target_index, damage, is_critical },
            ),
        }
    }
}

/// An attack from the air, with what the carrier launched and lost.
#[derive(Debug, Clone, Copy, PartialEq, Eq)]
pub struct AirAttack {
    pub from_index: i32,
    pub target_index: i32,
    pub damage: i32,
    pub is_critical: bool,
    /// The kind of attack (攻击类型).
    pub plane_type: i32,
    /// Planes launched (放飞).
    pub plane_amount: i32,
    /// Planes shot down (航空击坠).
    pub drop_amount: i32,
}

impl AttackTrait for AirAttack {
    open spec fn spec_from(vo: Json) -> Result<AirAttack, ReportError> {
        match spec_basic(vo) {
            Err(e) => Err(e),
            Ok((from_index, target_index, damage, is_critical)) => match spec_int_member(
                vo,
                "planeType"@,
            ) {
                Err(e) => Err(e),
                Ok(plane_type) => match spec_int_member(vo, "planeAmount"@) {
                    Err(e) => Err(e),
                    Ok(plane_amount) => match spec_int_member(vo, "dropAmount"@) {
                        Err(e) => Err(e),
                        Ok(drop_amount) => Ok(
                            AirAttack {
                                from_index,
                                target_index,
                                damage,
                                is_critical,
                                plane_type: plane_type as i32,
                                plane_amount: plane_amount as i32,
                                drop_amount: drop_amount as i32,
                            },
                        ),
                    },
                },
            },
        }
    }

    fn read(vo: &Json) -> (r: Result<AirAttack, ReportError>) {
        let (from_index, target_index, damage, is_critical) = match parse_basic(vo) {
            Ok(t) => t,
            Err(e) => return Err(e),
        };
        let plane_type = match int_member(vo, "planeType") {
            Ok(n) => n,
            Err(e) => return Err(e),
        };
        let plane_amount = match int_member(vo, "planeAmount") {
            Ok(n) => n,
            Err(e) => return Err(e),
        };
        let drop_amount = match int_member(vo, "dropAmount") {
            Ok(n) => n,
            Err(e) => return Err(e),
        };
        Ok(
            AirAttack {
                from_index,
                target_index,
                damage,
                is_critical,
                plane_type: plane_type as i32,
                plane_amount: plane_amount as i32,
                drop_amount: drop_amount as i32,
            },
        )
    }
}

/// An attack read from an entry holds its members: `fromIndex` as who
/// fires, the first `targetIndex` as the target, the first `damage` as the
/// damage, and whether the first of `damages` has a nonzero `isCritical`;
/// each number cut to 32 bits.
pub proof fn law_attack_fields(vo: Json)
    requires
        Attack::spec_from(vo) is Ok,
    ensures
        ({
            let a = Attack::spec_from(vo)->Ok_0;
            &&& a.from_index == (spec_int_member(vo, "fromIndex"@)->Ok_0) as i32
            &&& a.target_index == (spec_first_int(vo, "targetIndex"@)->Ok_0) as i32
            &&& a.damage == (spec_first_int(vo, "damage"@)->Ok_0) as i32
            &&& a.is_critical == ((spec_int_member(
                spec_first_item(vo, "damages"@)->Ok_0,
                "isCritical"@,
            )->Ok_0) != 0)
        }),
{
}

/// An air attack read from an entry holds the members of an ordinary
/// attack, and `planeType`, `planeAmount` and `dropAmount` as the kind of
/// attack, the planes launched and the planes shot down.
pub proof fn law_air_attack_fields(vo: Json)
    requires
        AirAttack::spec_from(vo) is Ok,
    ensures
        ({
            let a = AirAttack::spec_from(vo)->Ok_0;
            &&& a.from_index == (spec_int_member(vo, "fromIndex"@)->Ok_0) as i32
            &&& a.target_index == (spec_first_int(vo, "targetIndex"@)->Ok_0) as i32
            &&& a.damage == (spec_first_int(vo, "damage"@)->Ok_0) as i32
            &&& a.is_critical == ((spec_int_member(
                spec_first_item(vo, "damages"@)->Ok_0,
                "isCritical"@,
            )->Ok_0) != 0)
            &&& a.plane_type == (spec_int_member(vo, "planeType"@)->Ok_0) as i32
            &&& a.plane_amount == (spec_int_member(vo, "planeAmount"@)->Ok_0) as i32
            &&& a.drop_amount == (spec_int_member(vo, "dropAmount"@)->Ok_0) as i32
        }),
{
}

} // verus!
