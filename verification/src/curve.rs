use vstd::prelude::*;

verus! {

/// One breakpoint of a fan curve: from `temp` (centidegrees Celsius) up to the
/// next breakpoint's threshold, the fans run at `duty` (hundredths of a
/// percent).
#[derive(Clone, Copy, Debug, PartialEq, Eq, Structural)]
pub struct CurvePoint {
    pub temp: i16,
    pub duty: u16,
}

/// A step-function fan curve: an ordered table of breakpoints, fixed at
/// startup. Thresholds strictly increase and duties never decrease along the
/// table; below the first threshold the curve yields no duty at all, so the
/// control loop holds whatever duty is currently applied.
#[derive(Debug)]
pub struct FanCurve {
    points: Vec<CurvePoint>,
}

impl View for FanCurve {
    type V = Seq<CurvePoint>;

    closed spec fn view(&self) -> Seq<CurvePoint> {
        self.points@
    }
}

/// Thresholds strictly increase and duties never decrease along the table.
pub open spec fn curve_sorted(points: Seq<CurvePoint>) -> bool {
    forall|i: int, j: int|
        0 <= i < j < points.len() ==> points[i].temp < points[j].temp && points[i].duty
            <= points[j].duty
}

/// The duty of the greatest threshold not exceeding `temp`, or `None` when
/// `temp` lies below every threshold.
pub open spec fn lookup_spec(points: Seq<CurvePoint>, temp: i16) -> Option<u16>
    decreases points.len(),
{
    if points.len() == 0 {
        None
    } else if points.last().temp <= temp {
        Some(points.last().duty)
    } else {
        lookup_spec(points.drop_last(), temp)
    }
}

impl FanCurve {
    pub open spec fn wf(&self) -> bool {
        curve_sorted(self@)
    }

    /// Builds a curve from a breakpoint table, refusing one whose thresholds
    /// do not strictly increase or whose duties decrease.
    pub fn from_points(points: Vec<CurvePoint>) -> (r: Option<FanCurve>)
        ensures
            (match r {
                Some(c) => curve_sorted(points@) && c@ == points@,
                None => !curve_sorted(points@),
            }),
    {
        let mut k: usize = 1;
        while k < points.len()
            invariant
                1 <= k,
                curve_sorted(points@.take(k as int)) || points.len() == 0,
                forall|i: int, j: int|
                    0 <= i < j < k ==> points@[i].temp < points@[j].temp && points@[i].duty
                        <= points@[j].duty,
            decreases points.len() - k,
        {
            let prev = points[k - 1];
            let cur = points[k];
            if !(prev.temp < cur.temp && prev.duty <= cur.duty) {
                return None;
            }
            k = k + 1;
        }
        Some(FanCurve { points })
    }

    /// Step-function lookup: the duty of the greatest threshold not exceeding
    /// `temp`, or `None` below the first threshold.
    pub fn lookup(&self, temp: i16) -> (r: Option<u16>)
        ensures
            r == lookup_spec(self@, temp),
    {
        let mut j: usize = self.points.len();
        proof {
            assert(self@.take(j as int) =~= self@);
        }
        while j > 0
            invariant
                j <= self.points.len(),
                lookup_spec(self@, temp) == lookup_spec(self@.take(j as int), temp),
            decreases j,
        {
            let p = self.points[j - 1];
            proof {
                assert(self@.take(j as int).last() == self@[j as int - 1]);
                assert(self@.take(j as int).drop_last() =~= self@.take(j as int - 1));
            }
            if p.temp <= temp {
                return Some(p.duty);
            }
            j = j - 1;
        }
        None
    }

    /// Number of breakpoints in the table.
    pub fn len(&self) -> (r: usize)
        ensures
            r == self@.len(),
    {
        self.points.len()
    }

    /// The breakpoint at position `i`.
    pub fn point(&self, i: usize) -> (r: CurvePoint)
        requires
            i < self@.len(),
        ensures
            r == self@[i as int],
    {
        self.points[i]
    }

    /// The quiet curve for low-thermal-design models.
    pub fn standard_smooth() -> (r: FanCurve)
        ensures
            r@ == standard_smooth_points(),
            r.wf(),
    {
        let points = vec![
            CurvePoint { temp: 4500, duty: 2000 },
            CurvePoint { temp: 5500, duty: 3500 },
            CurvePoint { temp: 6500, duty: 5500 },
            CurvePoint { temp: 7500, duty: 7500 },
            CurvePoint { temp: 8500, duty: 10000 },
        ];
        proof {
            assert(points@ =~= standard_smooth_points());
        }
        FanCurve { points }
    }

    /// The curve for second-generation Threadripper towers.
    pub fn threadripper2() -> (r: FanCurve)
        ensures
            r@ == threadripper2_points(),
            r.wf(),
    {
        let points = vec![
            CurvePoint { temp: 4000, duty: 3000 },
            CurvePoint { temp: 5000, duty: 4500 },
            CurvePoint { temp: 6000, duty: 6500 },
            CurvePoint { temp: 7000, duty: 8500 },
            CurvePoint { temp: 8000, duty: 10000 },
        ];
        proof {
            assert(points@ =~= threadripper2_points());
        }
        FanCurve { points }
    }

    /// The curve for high-end-desktop towers.
    pub fn hedt() -> (r: FanCurve)
        ensures
            r@ == hedt_points(),
            r.wf(),
    {
        let points = vec![
            CurvePoint { temp: 4000, duty: 2500 },
            CurvePoint { temp: 5000, duty: 4000 },
            CurvePoint { temp: 6000, duty: 6000 },
            CurvePoint { temp: 7000, duty: 8000 },
            CurvePoint { temp: 8000, duty: 10000 },
        ];
        proof {
            assert(points@ =~= hedt_points());
        }
        FanCurve { points }
    }

    /// The curve for dual-socket Xeon towers.
    pub fn xeon() -> (r: FanCurve)
        ensures
            r@ == xeon_points(),
            r.wf(),
    {
        let points = vec![
            CurvePoint { temp: 3500, duty: 3000 },
            CurvePoint { temp: 4500, duty: 5000 },
            CurvePoint { temp: 5500, duty: 7000 },
            CurvePoint { temp: 6500, duty: 8500 },
            CurvePoint { temp: 7500, duty: 10000 },
        ];
        proof {
            assert(points@ =~= xeon_points());
        }
        FanCurve { points }
    }
}

pub open spec fn standard_smooth_points() -> Seq<CurvePoint> {
    seq![
        (CurvePoint { temp: 4500, duty: 2000 }),
        (CurvePoint { temp: 5500, duty: 3500 }),
        (CurvePoint { temp: 6500, duty: 5500 }),
        (CurvePoint { temp: 7500, duty: 7500 }),
        (CurvePoint { temp: 8500, duty: 10000 }),
    ]
}

pub open spec fn threadripper2_points() -> Seq<CurvePoint> {
    seq![
        (CurvePoint { temp: 4000, duty: 3000 }),
        (CurvePoint { temp: 5000, duty: 4500 }),
        (CurvePoint { temp: 6000, duty: 6500 }),
        (CurvePoint { temp: 7000, duty: 8500 }),
        (CurvePoint { temp: 8000, duty: 10000 }),
    ]
}

pub open spec fn hedt_points() -> Seq<CurvePoint> {
    seq![
        (CurvePoint { temp: 4000, duty: 2500 }),
        (CurvePoint { temp: 5000, duty: 4000 }),
        (CurvePoint { temp: 6000, duty: 6000 }),
        (CurvePoint { temp: 7000, duty: 8000 }),
        (CurvePoint { temp: 8000, duty: 10000 }),
    ]
}

pub open spec fn xeon_points() -> Seq<CurvePoint> {
    seq![
        (CurvePoint { temp: 3500, duty: 3000 }),
        (CurvePoint { temp: 4500, duty: 5000 }),
        (CurvePoint { temp: 5500, duty: 7000 }),
        (CurvePoint { temp: 6500, duty: 8500 }),
        (CurvePoint { temp: 7500, duty: 10000 }),
    ]
}

/// Below the first threshold a sorted curve yields no duty: the loop holds the
/// duty it last applied rather than extrapolating downward.
pub proof fn lemma_lookup_below_first(points: Seq<CurvePoint>, temp: i16)
    requires
        curve_sorted(points),
        points.len() == 0 || temp < points[0].temp,
    ensures
        lookup_spec(points, temp) is None,
    decreases points.len(),
{
    if points.len() > 0 {
        assert(points.last().temp >= points[0].temp);
        lemma_lookup_below_first(points.drop_last(), temp);
    }
}

/// Step-function law: for a temperature at or above breakpoint `i` and below
/// breakpoint `i + 1` (or with none above), a sorted curve yields breakpoint
/// `i`'s duty — boundary inclusive on the lower side.
pub proof fn lemma_lookup_step(points: Seq<CurvePoint>, temp: i16, i: int)
    requires
        curve_sorted(points),
        0 <= i < points.len(),
        points[i].temp <= temp,
        i == points.len() - 1 || temp < points[i + 1].temp,
    ensures
        lookup_spec(points, temp) == Some(points[i].duty),
    decreases points.len(),
{
    if i == points.len() - 1 {
        assert(points.last().temp <= temp);
    } else {
        assert(points.last().temp >= points[i + 1].temp);
        lemma_lookup_step(points.drop_last(), temp, i);
    }
}

} // verus!
