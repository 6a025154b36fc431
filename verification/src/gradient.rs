//! The gradient model: an ordered run of two or three color stops defining
//! a continuous interpolation, sampled at rational points `i / n`, and the
//! display mode that selects the animation.

use vstd::prelude::*;
use vstd::arithmetic::div_mod::{lemma_div_multiples_vanish, lemma_fundamental_div_mod};
use vstd::string::StringExecFns;
use crate::color::Rgb;

verus! {

/// How the fixture run displays the gradient: frozen in place, or sliding
/// along the run one pixel per tick.
#[derive(Clone, Copy, PartialEq, Eq, Structural, Debug)]
pub enum DisplayMode {
    Static,
    Scrolling,
}

impl DisplayMode {
    /// The mode's name, as status reports spell it.
    pub fn name(&self) -> (s: String)
        ensures
            self is Static ==> s@ == "Static"@,
            self is Scrolling ==> s@ == "Scrolling"@,
    {
        match self {
            DisplayMode::Static => String::from_str("Static"),
            DisplayMode::Scrolling => String::from_str("Scrolling"),
        }
    }
}

/// Errors from building or replacing a gradient.
#[derive(Clone, Copy, PartialEq, Eq, Structural, Debug)]
pub enum GradientError {
    /// An operator-supplied color string was not six hex digits.
    Validation,
    /// A stop list of the wrong size was handed to the builder.
    Construction,
}

/// Linear interpolation of one channel: the weighted mean of `a` and `b`
/// at weight `w / n`, rounded toward `a`'s side.
pub open spec fn lerp_channel(a: int, b: int, w: int, n: int) -> int
    recommends
        0 <= w <= n,
        0 < n,
{
    (a * (n - w) + b * w) / n
}

/// Per-channel linear interpolation between two colors at weight `w / n`.
pub open spec fn lerp_rgb(a: Rgb, b: Rgb, w: int, n: int) -> Rgb
    recommends
        0 <= w <= n,
        0 < n,
{
    Rgb {
        r: lerp_channel(a.r as int, b.r as int, w, n) as u8,
        g: lerp_channel(a.g as int, b.g as int, w, n) as u8,
        b: lerp_channel(a.b as int, b.b as int, w, n) as u8,
    }
}

/// The color of a stop run at the rational point `i / n`.  Two stops sit at
/// 0 and 1; three stops sit at 0, 1/2 and 1.
pub open spec fn sample_spec(stops: Seq<Rgb>, i: int, n: int) -> Rgb
    recommends
        2 <= stops.len() <= 3,
        0 <= i <= n,
        0 < n,
{
    if stops.len() == 2 {
        lerp_rgb(stops[0], stops[1], i, n)
    } else if 2 * i <= n {
        lerp_rgb(stops[0], stops[1], 2 * i, n)
    } else {
        lerp_rgb(stops[1], stops[2], 2 * i - n, n)
    }
}

/// An immutable run of 2 or 3 color stops.  A new `GradientSpec` replaces
/// the old one whole; stops never change after construction.
#[derive(Clone, Debug)]
pub struct GradientSpec {
    stops: Vec<Rgb>,
}

impl View for GradientSpec {
    type V = Seq<Rgb>;

    closed spec fn view(&self) -> Seq<Rgb> {
        self.stops@
    }
}

impl GradientSpec {
    /// The stop-count invariant every constructed gradient carries.
    pub open spec fn wf(&self) -> bool {
        2 <= self@.len() <= 3
    }

    /// Builds a gradient from an explicit stop list; a list that is not
    /// 2 or 3 stops long is refused.
    pub fn new(stops: Vec<Rgb>) -> (res: Result<GradientSpec, GradientError>)
        ensures
            2 <= stops@.len() <= 3 ==> (res matches Ok(g) && g@ == stops@ && g.wf()),
            !(2 <= stops@.len() <= 3) ==> (res matches Err(e) && e is Construction),
    {
        if 2 <= stops.len() && stops.len() <= 3 {
            Ok(GradientSpec { stops })
        } else {
            Err(GradientError::Construction)
        }
    }

    /// A solid color as a degenerate two-stop gradient.
    pub fn uniform(c: Rgb) -> (g: GradientSpec)
        ensures
            g.wf(),
            g@ =~= seq![c, c],
    {
        let mut stops: Vec<Rgb> = Vec::new();
        stops.push(c);
        stops.push(c);
        GradientSpec { stops }
    }

    /// A symmetric three-stop gradient `[c1, c2, c1]`, which wraps
    /// seamlessly when scrolled.
    pub fn palindrome(c1: Rgb, c2: Rgb) -> (g: GradientSpec)
        ensures
            g.wf(),
            g@ =~= seq![c1, c2, c1],
    {
        let mut stops: Vec<Rgb> = Vec::new();
        stops.push(c1);
        stops.push(c2);
        stops.push(c1);
        GradientSpec { stops }
    }

    /// An owned copy with the same stops.
    pub fn duplicate(&self) -> (g: GradientSpec)
        ensures
            g@ == self@,
    {
        let mut stops: Vec<Rgb> = Vec::new();
        let mut i: usize = 0;
        while i < self.stops.len()
            invariant
                i <= self.stops@.len(),
                stops@ =~= self.stops@.subrange(0, i as int),
            decreases self.stops@.len() - i,
        {
            stops.push(self.stops[i]);
            i += 1;
        }
        proof {
            assert(stops@ =~= self.stops@);
        }
        GradientSpec { stops }
    }

    /// Interpolates one channel with exact integer arithmetic.
    fn lerp_channel_exec(a: u8, b: u8, w: u128, n: u128) -> (r: u8)
        requires
            0 < n,
            w <= n,
            n <= 0xffff_ffff_ffff_ffff,
        ensures
            r as int == lerp_channel(a as int, b as int, w as int, n as int),
    {
        proof {
            assert((a as int) * (n - w) <= 255 * (n - w)) by (nonlinear_arith)
                requires a <= 255 && 0 <= n - w;
            assert((b as int) * (w as int) <= 255 * (w as int)) by (nonlinear_arith)
                requires b <= 255 && 0 <= w;
            assert(255 * (n - w) + 255 * (w as int) == 255 * (n as int)) by (nonlinear_arith);
        }
        let num: u128 = (a as u128) * (n - w) + (b as u128) * w;
        proof {
            assert(num / n <= 255) by (nonlinear_arith)
                requires 0 < n && num <= 255 * (n as int);
            assert(0 <= num / n) by (nonlinear_arith)
                requires 0 < n && 0 <= num;
        }
        (num / n) as u8
    }

    /// The color of this gradient at the rational point `i / n` of the run.
    pub fn sample(&self, i: usize, n: usize) -> (c: Rgb)
        requires
            self.wf(),
            0 < n,
            i <= n,
            n <= 0xffff_ffff_ffff_ffff,
        ensures
            c == sample_spec(self@, i as int, n as int),
    {
        let i128: u128 = i as u128;
        let n128: u128 = n as u128;
        if self.stops.len() == 2 {
            let a = self.stops[0];
            let b = self.stops[1];
            Rgb {
                r: Self::lerp_channel_exec(a.r, b.r, i128, n128),
                g: Self::lerp_channel_exec(a.g, b.g, i128, n128),
                b: Self::lerp_channel_exec(a.b, b.b, i128, n128),
            }
        } else if 2 * i128 <= n128 {
            let a = self.stops[0];
            let b = self.stops[1];
            Rgb {
                r: Self::lerp_channel_exec(a.r, b.r, 2 * i128, n128),
                g: Self::lerp_channel_exec(a.g, b.g, 2 * i128, n128),
                b: Self::lerp_channel_exec(a.b, b.b, 2 * i128, n128),
            }
        } else {
            let a = self.stops[1];
            let b = self.stops[2];
            Rgb {
                r: Self::lerp_channel_exec(a.r, b.r, 2 * i128 - n128, n128),
                g: Self::lerp_channel_exec(a.g, b.g, 2 * i128 - n128, n128),
                b: Self::lerp_channel_exec(a.b, b.b, 2 * i128 - n128, n128),
            }
        }
    }
}

/// Interpolation at the two ends lands on the two colors exactly.
proof fn lemma_lerp_ends(a: Rgb, b: Rgb, n: int)
    requires
        0 < n,
    ensures
        lerp_rgb(a, b, 0, n) == a,
        lerp_rgb(a, b, n, n) == b,
{
    lemma_lerp_channel_ends(a.r as int, b.r as int, n);
    lemma_lerp_channel_ends(a.g as int, b.g as int, n);
    lemma_lerp_channel_ends(a.b as int, b.b as int, n);
}

/// One channel interpolated at the ends gives the end values back.
proof fn lemma_lerp_channel_ends(a: int, b: int, n: int)
    requires
        0 < n,
    ensures
        lerp_channel(a, b, 0, n) == a,
        lerp_channel(a, b, n, n) == b,
{
    assert(a * (n - 0) + b * 0 == n * a) by (nonlinear_arith);
    assert(a * (n - n) + b * n == n * b) by (nonlinear_arith);
    lemma_div_multiples_vanish(a, n);
    lemma_div_multiples_vanish(b, n);
}

/// Law: a degenerate gradient of one color twice samples to that color
/// at every point of the run.
pub proof fn lemma_uniform_constant(c: Rgb, i: int, n: int)
    requires
        0 < n,
        0 <= i <= n,
    ensures
        sample_spec(seq![c, c], i, n) == c,
{
    lemma_uniform_channel(c.r as int, i, n);
    lemma_uniform_channel(c.g as int, i, n);
    lemma_uniform_channel(c.b as int, i, n);
}

/// One channel interpolated between equal values stays at that value.
proof fn lemma_uniform_channel(v: int, w: int, n: int)
    requires
        0 < n,
        0 <= w <= n,
    ensures
        lerp_channel(v, v, w, n) == v,
{
    assert(v * (n - w) + v * w == n * v) by (nonlinear_arith);
    lemma_div_multiples_vanish(v, n);
}

/// Law: the palindrome `[c1, c2, c1]` samples to `c1` at both ends of
/// the run, and to `c2` exactly at its middle whenever the middle is a
/// sample point.
pub proof fn lemma_palindrome_samples(c1: Rgb, c2: Rgb, n: int)
    requires
        0 < n,
    ensures
        sample_spec(seq![c1, c2, c1], 0, n) == c1,
        sample_spec(seq![c1, c2, c1], n, n) == c1,
        n % 2 == 0 ==> sample_spec(seq![c1, c2, c1], n / 2, n) == c2,
{
    lemma_lerp_ends(c1, c2, n);
    lemma_lerp_ends(c2, c1, n);
    if n % 2 == 0 {
        lemma_fundamental_div_mod(n, 2);
        assert(2 * (n / 2) == n);
    }
}

} // verus!
