//! Why a report could not be read.
use vstd::prelude::*;

verus! {

/// Why a report gives no battle record.
///
/// `Missing` is a member that the report needs being absent or holding
/// another kind of JSON value; every other variant is a value the report
/// holds that cannot be read.  The program stops on any of them.
#[derive(Debug, Clone, Copy, PartialEq, Eq)]
pub enum ReportError {
    /// A member is absent or of another JSON type.
    Missing,
    /// A text that must hold a decimal integer does not hold one that fits.
    NotANumber,
    /// A course code outside 1..=4.
    UnknownCourse(i64),
    /// An air-control code outside 1..=5.
    UnknownAirType(i64),
    /// A formation code outside 1..=5.
    UnknownFormation(i64),
    /// An attack whose side is neither 1 nor 2.
    UnknownSide(i64),
    /// The enemy fleet id is neither a number nor a text.
    BadFleetId,
    /// The first entry of an empty list was asked for.
    EmptyList,
    /// A ship's `indexInFleet` is not its position in the list.
    ShipsOutOfOrder,
    /// Hit-point data that must be there is absent or not an integer.
    BadHpData,
}

/// The view of a result whose error is a `ReportError`.
pub open spec fn res_view<T: View>(r: Result<T, ReportError>) -> Result<T::V, ReportError> {
    match r {
        Ok(v) => Ok(v@),
        Err(e) => Err(e),
    }
}

} // verus!
