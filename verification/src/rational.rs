//! Turns a three-component sexagesimal rational (degrees, minutes, seconds,
//! each an exact fraction) into a signed decimal-degree value, kept as an
//! exact fraction so that no rounding happens anywhere in the pipeline.

use vstd::prelude::*;

verus! {

/// One unsigned fraction as a coordinate tag stores it.
#[derive(Clone, Copy, Debug, PartialEq, Eq, Structural)]
pub struct GeoRational {
    pub num: u32,
    pub den: u32,
}

/// Degrees, minutes and seconds, each an exact fraction.
#[derive(Clone, Copy, Debug, PartialEq, Eq, Structural)]
pub struct GeoTriple {
    pub degrees: GeoRational,
    pub minutes: GeoRational,
    pub seconds: GeoRational,
}

/// A decimal-degree value as an exact signed fraction.
#[derive(Clone, Copy, Debug, PartialEq, Eq, Structural)]
pub struct DecimalDegrees {
    pub num: i128,
    pub den: i128,
}

/// Every converted fraction stays below this bound, so later arithmetic on
/// it cannot overflow.
pub const CONVERTED_BOUND: i128 = 0x10000000000000000000000000000;

/// A triple can be converted iff all three denominators are positive.
pub open spec fn triple_valid(t: GeoTriple) -> bool {
    t.degrees.den > 0 && t.minutes.den > 0 && t.seconds.den > 0
}

/// The numerator of `degrees + minutes/60 + seconds/3600` over the common
/// denominator `3600 * degrees.den * minutes.den * seconds.den`.
pub open spec fn triple_num(t: GeoTriple) -> int {
    3600 * t.degrees.num * t.minutes.den * t.seconds.den + 60 * t.minutes.num * t.degrees.den
        * t.seconds.den + t.seconds.num * t.degrees.den * t.minutes.den
}

/// The common denominator of the converted value.
pub open spec fn triple_den(t: GeoTriple) -> int {
    3600 * t.degrees.den * t.minutes.den * t.seconds.den
}

/// The first three components of a raw rational tag value.
pub open spec fn triple_of(s: Seq<GeoRational>) -> GeoTriple {
    GeoTriple { degrees: s[0], minutes: s[1], seconds: s[2] }
}

/// A raw rational tag value converts iff it has at least three components
/// and none of the first three denominators is zero.
pub open spec fn rationals_convertible(s: Seq<GeoRational>) -> bool {
    s.len() >= 3 && triple_valid(triple_of(s))
}

/// Two fractions denote the same rational number (cross-multiplication).
pub open spec fn frac_eq(an: int, ad: int, bn: int, bd: int) -> bool {
    an * bd == bn * ad
}

proof fn lemma_mul_bounds(a: int, amax: int, b: int, bmax: int)
    requires
        0 <= a <= amax,
        0 <= b <= bmax,
    ensures
        0 <= a * b <= amax * bmax,
{
    assert(0 <= a * b <= amax * bmax) by (nonlinear_arith)
        requires
            0 <= a <= amax,
            0 <= b <= bmax,
    ;
}

/// Converts a raw rational tag value to decimal degrees.  Fails exactly
/// when the value has fewer than three components or a zero denominator
/// among the first three; on success the result is the exact fraction
/// `degrees + minutes/60 + seconds/3600`, unsigned (the hemisphere sign is
/// applied by the caller).
pub fn to_decimal_degrees(v: &Vec<GeoRational>) -> (r: Result<DecimalDegrees, ()>)
    ensures
        r is Ok <==> rationals_convertible(v@),
        r matches Ok(d) ==> {
            &&& d.num == triple_num(triple_of(v@))
            &&& d.den == triple_den(triple_of(v@))
            &&& 0 < d.den <= CONVERTED_BOUND
            &&& 0 <= d.num <= CONVERTED_BOUND
        },
{
    if v.len() < 3 {
        return Err(());
    }
    let d = v[0];
    let m = v[1];
    let s = v[2];
    if d.den == 0 || m.den == 0 || s.den == 0 {
        return Err(());
    }
    let dn = d.num as i128;
    let dd = d.den as i128;
    let mn = m.num as i128;
    let md = m.den as i128;
    let sn = s.num as i128;
    let sd = s.den as i128;
    proof {
        let dni = dn as int;
        let ddi = dd as int;
        let mni = mn as int;
        let mdi = md as int;
        let sni = sn as int;
        let sdi = sd as int;
        let b32 = 0xFFFFFFFFint;
        lemma_mul_bounds(3600 * dni, 3600 * b32, mdi, b32);
        lemma_mul_bounds(3600 * dni * mdi, 3600 * b32 * b32, sdi, b32);
        lemma_mul_bounds(60 * mni, 60 * b32, ddi, b32);
        lemma_mul_bounds(60 * mni * ddi, 60 * b32 * b32, sdi, b32);
        lemma_mul_bounds(sni, b32, ddi, b32);
        lemma_mul_bounds(sni * ddi, b32 * b32, mdi, b32);
        lemma_mul_bounds(3600 * ddi, 3600 * b32, mdi, b32);
        lemma_mul_bounds(3600 * ddi * mdi, 3600 * b32 * b32, sdi, b32);
    }
    let t1 = 3600 * dn * md * sd;
    let t2 = 60 * mn * dd * sd;
    let t3 = sn * dd * md;
    let num = t1 + t2 + t3;
    let den = 3600 * dd * md * sd;
    proof {
        assert(den >= 3600) by (nonlinear_arith)
            requires
                dd >= 1 && md >= 1 && sd >= 1 && den == 3600 * dd * md * sd,
        ;
    }
    Ok(DecimalDegrees { num, den })
}

/// Applies the hemisphere sign to an unsigned converted value: `S` and `W`
/// references negate the magnitude.
pub fn apply_hemisphere(d: DecimalDegrees, negate: bool) -> (r: DecimalDegrees)
    requires
        0 <= d.num,
    ensures
        r.den == d.den,
        r.num as int == if negate {
            -(d.num as int)
        } else {
            d.num as int
        },
{
    if negate {
        DecimalDegrees { num: -d.num, den: d.den }
    } else {
        d
    }
}

/// Decides `-bound <= d <= bound` (in whole degrees) exactly, by
/// cross-multiplication.
pub fn within_degrees(d: &DecimalDegrees, bound: u32) -> (r: bool)
    requires
        0 < d.den <= CONVERTED_BOUND,
        -CONVERTED_BOUND <= d.num <= CONVERTED_BOUND,
        bound <= 360,
    ensures
        r == (-(bound as int) * d.den <= d.num <= (bound as int) * d.den),
{
    let b = bound as i128;
    proof {
        lemma_mul_bounds(b as int, 360, d.den as int, CONVERTED_BOUND as int);
    }
    let hi = b * d.den;
    let lo = -hi;
    proof {
        assert(hi as int == (bound as int) * (d.den as int));
        assert((-(bound as int)) * (d.den as int) == -((bound as int) * (d.den as int)))
            by (nonlinear_arith);
        assert(lo as int == -(bound as int) * (d.den as int));
    }
    lo <= d.num && d.num <= hi
}

/// Law: the converted fraction equals `degrees + minutes/60 + seconds/3600`
/// as an exact rational: it is fraction-equal to the value obtained by
/// adding the three components as fractions, one weight at a time.
#[verifier::rlimit(50)]
pub proof fn lemma_converted_is_weighted_sum(t: GeoTriple)
    requires
        triple_valid(t),
    ensures
        ({
            let n1 = t.degrees.num * (60 * t.minutes.den) + t.minutes.num * t.degrees.den;
            let d1 = t.degrees.den * (60 * t.minutes.den);
            let n2 = n1 * (3600 * t.seconds.den) + t.seconds.num * d1;
            let d2 = d1 * (3600 * t.seconds.den);
            &&& triple_den(t) > 0
            &&& d2 > 0
            &&& frac_eq(triple_num(t), triple_den(t), n2, d2)
        }),
{
    let dn = t.degrees.num as int;
    let dd = t.degrees.den as int;
    let mn = t.minutes.num as int;
    let md = t.minutes.den as int;
    let sn = t.seconds.num as int;
    let sd = t.seconds.den as int;
    let n1 = dn * (60 * md) + mn * dd;
    let d1 = dd * (60 * md);
    let n2 = n1 * (3600 * sd) + sn * d1;
    let d2 = d1 * (3600 * sd);
    let tn = 3600 * dn * md * sd + 60 * mn * dd * sd + sn * dd * md;
    let td = 3600 * dd * md * sd;
    assert(n2 == 60 * tn) by (nonlinear_arith)
        requires
            n1 == dn * (60 * md) + mn * dd,
            n2 == n1 * (3600 * sd) + sn * (dd * (60 * md)),
            tn == 3600 * dn * md * sd + 60 * mn * dd * sd + sn * dd * md,
    ;
    assert(d2 == 60 * td) by (nonlinear_arith)
        requires
            d2 == (dd * (60 * md)) * (3600 * sd),
            td == 3600 * dd * md * sd,
    ;
    assert(td > 0) by (nonlinear_arith)
        requires
            dd >= 1,
            md >= 1,
            sd >= 1,
            td == 3600 * dd * md * sd,
    ;
    assert(tn * d2 == n2 * td) by (nonlinear_arith)
        requires
            n2 == 60 * tn,
            d2 == 60 * td,
    ;
    assert(triple_num(t) == tn && triple_den(t) == td);
}

} // verus!
