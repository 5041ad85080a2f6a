use vstd::prelude::*;
use vstd::string::StrSliceExecFns;
use crate::curve::FanCurve;
use crate::curve::hedt_points;
use crate::curve::standard_smooth_points;
use crate::curve::threadripper2_points;
use crate::curve::xeon_points;
use crate::errors::DriverError;

verus! {

/// The fan curve a hardware class calls for, chosen once at startup from the
/// firmware's (vendor, model) pair.
#[derive(Clone, Copy, Debug, PartialEq, Eq, Structural)]
pub enum CurveKind {
    StandardSmooth,
    Threadripper2,
    Hedt,
    Xeon,
}

/// Which curve the (vendor, model) pair selects, or `None` for hardware this
/// controller does not know.
pub open spec fn curve_kind_spec(vendor: Seq<char>, model: Seq<char>) -> Option<CurveKind> {
    if vendor != "System76"@ {
        None
    } else if model == "thelio-mira-r1"@ || model == "thelio-mira-r2"@ {
        Some(CurveKind::StandardSmooth)
    } else if model == "thelio-major-r1"@ {
        Some(CurveKind::Threadripper2)
    } else if model == "thelio-major-r2"@ || model == "thelio-major-r2.1"@ || model
        == "thelio-major-b1"@ || model == "thelio-major-b2"@ || model == "thelio-major-b3"@ || model
        == "thelio-mega-r1"@ || model == "thelio-mega-r1.1"@ {
        Some(CurveKind::Hedt)
    } else if model == "thelio-massive-b1"@ {
        Some(CurveKind::Xeon)
    } else {
        None
    }
}

/// Character-for-character string equality.
fn str_eq(a: &str, b: &str) -> (r: bool)
    ensures
        r == (a@ == b@),
{
    let la = a.unicode_len();
    let lb = b.unicode_len();
    if la != lb {
        proof {
            assert(a@ != b@);
        }
        return false;
    }
    let mut i: usize = 0;
    while i < la
        invariant
            0 <= i <= la,
            la == a@.len() == b@.len(),
            forall|j: int| 0 <= j < i ==> a@[j] == b@[j],
        decreases la - i,
    {
        if a.get_char(i) != b.get_char(i) {
            return false;
        }
        i = i + 1;
    }
    proof {
        assert(a@ =~= b@);
    }
    true
}

/// Selects the fan curve for the firmware's (vendor, model) pair, refusing
/// hardware with no registered curve before anything else happens.
pub fn classify(vendor: &str, model: &str) -> (r: Result<CurveKind, DriverError>)
    ensures
        r == (match curve_kind_spec(vendor@, model@) {
            Some(k) => Ok(k),
            None => Err(DriverError::Classification),
        }),
{
    if !str_eq(vendor, "System76") {
        Err(DriverError::Classification)
    } else if str_eq(model, "thelio-mira-r1") || str_eq(model, "thelio-mira-r2") {
        Ok(CurveKind::StandardSmooth)
    } else if str_eq(model, "thelio-major-r1") {
        Ok(CurveKind::Threadripper2)
    } else if str_eq(model, "thelio-major-r2") || str_eq(model, "thelio-major-r2.1") || str_eq(
        model,
        "thelio-major-b1",
    ) || str_eq(model, "thelio-major-b2") || str_eq(model, "thelio-major-b3") || str_eq(
        model,
        "thelio-mega-r1",
    ) || str_eq(model, "thelio-mega-r1.1") {
        Ok(CurveKind::Hedt)
    } else if str_eq(model, "thelio-massive-b1") {
        Ok(CurveKind::Xeon)
    } else {
        Err(DriverError::Classification)
    }
}

/// The breakpoint table each hardware class runs with.
pub open spec fn curve_points_for(kind: CurveKind) -> Seq<crate::curve::CurvePoint> {
    match kind {
        CurveKind::StandardSmooth => standard_smooth_points(),
        CurveKind::Threadripper2 => threadripper2_points(),
        CurveKind::Hedt => hedt_points(),
        CurveKind::Xeon => xeon_points(),
    }
}

/// Builds the curve a hardware class calls for.
pub fn curve_for_kind(kind: CurveKind) -> (r: FanCurve)
    ensures
        r@ == curve_points_for(kind),
        r.wf(),
{
    match kind {
        CurveKind::StandardSmooth => FanCurve::standard_smooth(),
        CurveKind::Threadripper2 => FanCurve::threadripper2(),
        CurveKind::Hedt => FanCurve::hedt(),
        CurveKind::Xeon => FanCurve::xeon(),
    }
}

} // verus!
