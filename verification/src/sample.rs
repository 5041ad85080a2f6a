use vstd::prelude::*;
use crate::errors::DriverError;

verus! {

// The sensor subprocess answers each trigger with one line of text holding an
// ASCII decimal number of degrees, with an optional sign and fractional part.
// The controller works in exact integer arithmetic, so the line is read
// directly as centidegrees: the value times one hundred, truncated toward
// zero, saturated to the `i16` range the curves are defined over.

/// ASCII whitespace as it may surround the number: space, tab, CR, LF.
pub open spec fn is_ws(b: u8) -> bool {
    b == 32 || b == 9 || b == 13 || b == 10
}

/// An ASCII decimal digit.
pub open spec fn is_digit(b: u8) -> bool {
    48 <= b && b <= 57
}

pub open spec fn all_digits(s: Seq<u8>) -> bool {
    forall|i: int| 0 <= i < s.len() ==> is_digit(s[i])
}

/// The line with leading and trailing whitespace removed.
pub open spec fn trim(s: Seq<u8>) -> Seq<u8>
    decreases s.len(),
{
    if s.len() > 0 && is_ws(s.first()) {
        trim(s.drop_first())
    } else if s.len() > 0 && is_ws(s.last()) {
        trim(s.drop_last())
    } else {
        s
    }
}

/// The value of a digit string read in base ten.
pub open spec fn digits_value(s: Seq<u8>) -> int
    decreases s.len(),
{
    if s.len() == 0 {
        0
    } else {
        digits_value(s.drop_last()) * 10 + (s.last() - 48)
    }
}

/// The index of the first `.` in `s`, or `s.len()` when there is none.
pub open spec fn first_dot(s: Seq<u8>) -> int
    decreases s.len(),
{
    if s.len() == 0 {
        0
    } else if s.first() == 46 {
        0
    } else {
        1 + first_dot(s.drop_first())
    }
}

/// An unsigned decimal number: digits, with at most one point anywhere among
/// them, and at least one digit overall.
pub open spec fn is_unsigned_number(u: Seq<u8>) -> bool {
    let i = first_dot(u);
    if i == u.len() {
        u.len() >= 1 && all_digits(u)
    } else {
        u.len() >= 2 && all_digits(u.take(i)) && all_digits(u.skip(i + 1))
    }
}

/// The centidegree contribution of a fraction part: its first two digits,
/// further digits truncated away.
pub open spec fn frac_cd(f: Seq<u8>) -> int {
    (if f.len() >= 1 {
        (f[0] - 48) * 10
    } else {
        0
    }) + (if f.len() >= 2 {
        f[1] - 48
    } else {
        0
    })
}

/// The value of an unsigned decimal number in centidegrees, truncated toward
/// zero.
pub open spec fn unsigned_cd(u: Seq<u8>) -> int {
    let i = first_dot(u);
    if i == u.len() {
        digits_value(u) * 100
    } else {
        digits_value(u.take(i)) * 100 + frac_cd(u.skip(i + 1))
    }
}

/// A decimal number with an optional sign.
pub open spec fn is_number(t: Seq<u8>) -> bool {
    if t.len() == 0 {
        false
    } else if t.first() == 45 || t.first() == 43 {
        is_unsigned_number(t.drop_first())
    } else {
        is_unsigned_number(t)
    }
}

/// The signed value in centidegrees.
pub open spec fn number_cd(t: Seq<u8>) -> int {
    if t.len() > 0 && t.first() == 45 {
        -unsigned_cd(t.drop_first())
    } else if t.len() > 0 && t.first() == 43 {
        unsigned_cd(t.drop_first())
    } else {
        unsigned_cd(t)
    }
}

/// Saturation into the `i16` range the fan curves are defined over.
pub open spec fn sat_i16(v: int) -> i16 {
    if v > i16::MAX {
        i16::MAX
    } else if v < i16::MIN {
        i16::MIN
    } else {
        v as i16
    }
}

/// What one response line of the sensor channel means: the centidegree value
/// of its trimmed text, or nothing when the text is not a decimal number.
pub open spec fn parse_spec(s: Seq<u8>) -> Option<i16> {
    if is_number(trim(s)) {
        Some(sat_i16(number_cd(trim(s))))
    } else {
        None
    }
}

proof fn lemma_first_dot_range(u: Seq<u8>)
    ensures
        0 <= first_dot(u) <= u.len(),
    decreases u.len(),
{
    if u.len() > 0 && u.first() != 46 {
        lemma_first_dot_range(u.drop_first());
    }
}

/// If no point stands before `i` and one stands at `i` (or `i` is the end),
/// then `i` is where the first point is.
proof fn lemma_first_dot_at(u: Seq<u8>, i: int)
    requires
        0 <= i <= u.len(),
        forall|k: int| 0 <= k < i ==> u[k] != 46,
        i == u.len() || u[i] == 46,
    ensures
        first_dot(u) == i,
    decreases u.len(),
{
    if u.len() == 0 {
    } else if u.first() == 46 {
        assert(i == 0);
    } else {
        assert(i >= 1);
        lemma_first_dot_at(u.drop_first(), i - 1);
    }
}

/// Every digit string has a non-negative value.
proof fn lemma_digits_value_nonneg(s: Seq<u8>)
    requires
        all_digits(s),
    ensures
        digits_value(s) >= 0,
    decreases s.len(),
{
    if s.len() > 0 {
        assert(all_digits(s.drop_last()));
        lemma_digits_value_nonneg(s.drop_last());
    }
}

/// The clamped accumulator equals the digits' value up to the clamp, and sits
/// at the clamp beyond it.
pub open spec fn clamp_tracks(acc: u32, dv: int) -> bool {
    (dv <= 100000 ==> acc == dv) && (dv > 100000 ==> acc == 100000)
}

/// Whether the byte at `i` is whitespace.
fn ws_at(s: &[u8], i: usize) -> (r: bool)
    requires
        i < s@.len(),
    ensures
        r == is_ws(s@[i as int]),
{
    let b = s[i];
    b == 32 || b == 9 || b == 13 || b == 10
}

/// Whether the byte at `i` is anything but a decimal point.
fn non_dot_at(s: &[u8], i: usize) -> (r: bool)
    requires
        i < s@.len(),
    ensures
        r == (s@[i as int] != 46),
{
    s[i] != 46
}

/// Finds the bounds of the line once whitespace is stripped from both ends.
#[verifier::loop_isolation(false)]
fn trim_bounds(s: &[u8]) -> (r: (usize, usize))
    ensures
        0 <= r.0 <= r.1 <= s@.len(),
        trim(s@) == s@.subrange(r.0 as int, r.1 as int),
        r.0 < r.1 ==> !is_ws(s@[r.0 as int]) && !is_ws(s@[r.1 as int - 1]),
{
    let mut lo: usize = 0;
    let mut hi: usize = s.len();
    proof {
        assert(s@.subrange(0, s@.len() as int) =~= s@);
    }
    while lo < hi && ws_at(s, lo)
        invariant
            0 <= lo <= hi <= s@.len(),
            trim(s@) == trim(s@.subrange(lo as int, hi as int)),
        decreases hi - lo,
    {
        proof {
            let t = s@.subrange(lo as int, hi as int);
            assert(t.first() == s@[lo as int]);
            assert(t.drop_first() =~= s@.subrange(lo as int + 1, hi as int));
        }
        lo = lo + 1;
    }
    while lo < hi && ws_at(s, hi - 1)
        invariant
            0 <= lo <= hi <= s@.len(),
            trim(s@) == trim(s@.subrange(lo as int, hi as int)),
            lo < hi ==> !is_ws(s@[lo as int]),
        decreases hi - lo,
    {
        proof {
            let t = s@.subrange(lo as int, hi as int);
            assert(t.first() == s@[lo as int]);
            assert(t.last() == s@[hi as int - 1]);
            assert(t.drop_last() =~= s@.subrange(lo as int, hi as int - 1));
        }
        hi = hi - 1;
    }
    proof {
        let t = s@.subrange(lo as int, hi as int);
        if lo < hi {
            assert(t.first() == s@[lo as int]);
            assert(t.last() == s@[hi as int - 1]);
        }
    }
    (lo, hi)
}

/// Reads one response line of the sensor channel as a temperature in
/// centidegrees, saturated to the `i16` range; a line that is not a decimal
/// number is the parse failure the control loop treats as fatal.
#[verifier::loop_isolation(false)]
pub fn parse_centidegrees(line: &[u8]) -> (r: Result<i16, DriverError>)
    ensures
        r == (match parse_spec(line@) {
            Some(v) => Ok(v),
            None => Err(DriverError::SampleParse),
        }),
{
    let (lo, hi) = trim_bounds(line);
    let ghost t = line@.subrange(lo as int, hi as int);
    if lo == hi {
        assert(t.len() == 0);
        return Err(DriverError::SampleParse);
    }
    // Optional sign.
    let b0 = line[lo];
    let neg = b0 == 45;
    let p: usize = if b0 == 45 || b0 == 43 {
        lo + 1
    } else {
        lo
    };
    let ghost u = line@.subrange(p as int, hi as int);
    proof {
        assert(t.first() == line@[lo as int]);
        if p > lo {
            assert(t.drop_first() =~= u);
        }
    }
    if p == hi {
        // A bare sign: the unsigned part is empty.
        proof {
            assert(u.len() == 0);
            lemma_first_dot_range(u);
        }
        return Err(DriverError::SampleParse);
    }
    // Integer digits up to the first point, their value clamped so the
    // arithmetic stays in `u32` while still deciding saturation exactly.
    let mut k: usize = p;
    let mut acc: u32 = 0;
    proof {
        assert(line@.subrange(p as int, p as int) =~= Seq::<u8>::empty());
    }
    while k < hi && non_dot_at(line, k)
        invariant
            p <= k <= hi <= line@.len(),
            forall|j: int| p <= j < k ==> line@[j] != 46 && is_digit(line@[j]),
            acc <= 100000,
            clamp_tracks(acc, digits_value(line@.subrange(p as int, k as int))),
        decreases hi - k,
    {
        let b = line[k];
        if !(48 <= b && b <= 57) {
            // Neither a digit nor a point: the number is malformed.
            proof {
                assert(u[k - p] == line@[k as int]);
                lemma_bad_unsigned(u, k - p);
                lemma_not_number(t, u, p > lo);
            }
            return Err(DriverError::SampleParse);
        }
        proof {
            let pre = line@.subrange(p as int, k as int);
            let post = line@.subrange(p as int, k as int + 1);
            assert(post.drop_last() =~= pre);
            assert(post.last() == line@[k as int]);
            assert(all_digits(pre));
            lemma_digits_value_nonneg(pre);
        }
        let d = (b - 48) as u32;
        acc = if acc > 9999 {
            100000
        } else {
            let next = acc * 10 + d;
            if next > 100000 {
                100000
            } else {
                next
            }
        };
        k = k + 1;
    }
    let ghost int_digits = line@.subrange(p as int, k as int);
    proof {
        assert(u.take(k - p) =~= int_digits);
        assert(all_digits(int_digits));
        lemma_digits_value_nonneg(int_digits);
    }
    // Locate the point, if any, and read the fraction digits behind it.
    let mut frac: u32 = 0;
    if k < hi {
        // A point at `k`; everything behind it must be digits.
        proof {
            assert(forall|j: int| 0 <= j < k - p ==> u[j] != 46);
            assert(u[k - p] == 46);
            lemma_first_dot_at(u, k - p);
        }
        if hi - p < 2 {
            // A lone point is not a number.
            proof {
                assert(!is_unsigned_number(u));
                lemma_not_number(t, u, p > lo);
            }
            return Err(DriverError::SampleParse);
        }
        let mut j: usize = k + 1;
        while j < hi
            invariant
                k + 1 <= j <= hi <= line@.len(),
                forall|m: int| k + 1 <= m < j ==> is_digit(line@[m]),
            decreases hi - j,
        {
            let b = line[j];
            if !(48 <= b && b <= 57) {
                proof {
                    assert(u.skip(k - p + 1)[j - k - 1] == u[j - p]);
                    assert(u[j - p] == line@[j as int]);
                    assert(!all_digits(u.skip(k - p + 1)));
                    assert(!is_unsigned_number(u));
                    lemma_not_number(t, u, p > lo);
                }
                return Err(DriverError::SampleParse);
            }
            j = j + 1;
        }
        if k + 1 < hi {
            frac = ((line[k + 1] - 48) as u32) * 10;
            if k + 2 < hi {
                frac = frac + ((line[k + 2] - 48) as u32);
            }
        }
        proof {
            let f = u.skip(k - p + 1);
            assert(f =~= line@.subrange(k as int + 1, hi as int));
            assert(all_digits(f));
            assert(f.len() >= 1 ==> f[0] == line@[k as int + 1]);
            assert(f.len() >= 2 ==> f[1] == line@[k as int + 2]);
            assert(frac == frac_cd(f));
        }
    } else {
        // No point: the whole unsigned part is digits.
        proof {
            assert(u =~= int_digits);
            lemma_first_dot_at(u, u.len() as int);
        }
    }
    proof {
        assert(is_unsigned_number(u));
        assert(is_number(t));
        assert(unsigned_cd(u) == digits_value(int_digits) * 100 + frac as int);
        lemma_number_value(t, u, p > lo, neg);
    }
    // Combine and saturate. When the integer digits exceeded the clamp, the
    // true value lies far outside the i16 range on the same side.
    let ghost dv = digits_value(int_digits);
    let cd: u32 = acc * 100 + frac;
    proof {
        if dv > 100000 {
            assert(unsigned_cd(u) > 32768);
            assert(cd > 32768);
        } else {
            assert(cd == unsigned_cd(u));
        }
    }
    if neg {
        if cd > 32768 {
            Ok(i16::MIN)
        } else {
            Ok((-(cd as i32)) as i16)
        }
    } else {
        if cd > 32767 {
            Ok(i16::MAX)
        } else {
            Ok(cd as i16)
        }
    }
}

/// A byte that is neither digit nor point, with no point before it, makes the
/// unsigned part malformed wherever its first point later turns out to be.
proof fn lemma_bad_unsigned(u: Seq<u8>, q: int)
    requires
        0 <= q < u.len(),
        forall|j: int| 0 <= j < q ==> u[j] != 46,
        u[q] != 46,
        !is_digit(u[q]),
    ensures
        !is_unsigned_number(u),
{
    lemma_first_dot_range(u);
    let i = first_dot(u);
    if i < u.len() {
        lemma_first_dot_is_dot(u);
        assert(i > q);
        assert(u.take(i)[q] == u[q]);
        assert(!all_digits(u.take(i)));
    } else {
        assert(!all_digits(u));
    }
}

/// When the first point lies inside the string, a point stands there.
proof fn lemma_first_dot_is_dot(u: Seq<u8>)
    requires
        first_dot(u) < u.len(),
    ensures
        0 <= first_dot(u),
        u[first_dot(u)] == 46,
    decreases u.len(),
{
    lemma_first_dot_range(u);
    if u.len() > 0 && u.first() != 46 {
        lemma_first_dot_is_dot(u.drop_first());
    }
}

/// An invalid unsigned part makes the whole (possibly signed) text invalid.
proof fn lemma_not_number(t: Seq<u8>, u: Seq<u8>, signed: bool)
    requires
        t.len() > 0,
        signed ==> (t.first() == 45 || t.first() == 43) && u == t.drop_first(),
        !signed ==> u == t && !(t.first() == 45 || t.first() == 43),
        !is_unsigned_number(u),
    ensures
        !is_number(t),
{
}

/// A valid unsigned part makes the whole text a number whose value carries the
/// sign.
proof fn lemma_number_value(t: Seq<u8>, u: Seq<u8>, signed: bool, neg: bool)
    requires
        t.len() > 0,
        signed ==> (t.first() == 45 || t.first() == 43) && u == t.drop_first(),
        !signed ==> u == t && !(t.first() == 45 || t.first() == 43),
        neg ==> signed && t.first() == 45,
        signed && !neg ==> t.first() == 43,
        is_unsigned_number(u),
    ensures
        is_number(t),
        number_cd(t) == if neg {
            -unsigned_cd(u)
        } else {
            unsigned_cd(u)
        },
{
}

} // verus!
