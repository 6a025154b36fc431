//! The shared color state: the one gradient-and-mode pair that control
//! handlers replace and the render loop reads.  Callers serialize access
//! with whatever exclusion primitive they run under; every operation here
//! is a bounded, non-blocking state transition.

use vstd::prelude::*;
use crate::color::{
    color_of_hex, hex_of_color, hex_to_rgb, lemma_hex_round_trip, lower_hex, valid_hex6, Rgb,
};
use crate::gradient::{
    lemma_uniform_constant, sample_spec, DisplayMode, GradientError, GradientSpec,
};

verus! {

/// The current gradient and display mode.  Replacement is all-or-nothing:
/// after any operation the stops are a function of that operation's own
/// input, never a mixture of two inputs.
pub struct GradientStore {
    gradient: GradientSpec,
    mode: DisplayMode,
}

impl GradientStore {
    /// The current stop run.
    pub closed spec fn stops(&self) -> Seq<Rgb> {
        self.gradient@
    }

    /// The current display mode.
    pub closed spec fn mode_spec(&self) -> DisplayMode {
        self.mode
    }

    /// Every store holds a structurally valid gradient.
    pub open spec fn wf(&self) -> bool {
        2 <= self.stops().len() <= 3
    }

    /// The startup state: a palindromic red-blue-red pattern, scrolling.
    pub fn new() -> (s: GradientStore)
        ensures
            s.wf(),
            s.mode_spec() is Scrolling,
            s.stops() =~= seq![
                Rgb { r: 255, g: 0, b: 0 },
                Rgb { r: 0, g: 0, b: 255 },
                Rgb { r: 255, g: 0, b: 0 },
            ],
    {
        GradientStore {
            gradient: GradientSpec::palindrome(
                Rgb { r: 255, g: 0, b: 0 },
                Rgb { r: 0, g: 0, b: 255 },
            ),
            mode: DisplayMode::Scrolling,
        }
    }

    /// The current gradient, for the render loop's snapshot.
    pub fn gradient(&self) -> (g: &GradientSpec)
        ensures
            g@ == self.stops(),
            self.wf() ==> g.wf(),
    {
        &self.gradient
    }

    /// The current mode, for the render loop's snapshot.
    pub fn mode(&self) -> (m: DisplayMode)
        ensures
            m == self.mode_spec(),
    {
        self.mode
    }

    /// The color at the middle of the run.  No side effects.
    pub fn get_midpoint(&self) -> (c: Rgb)
        requires
            self.wf(),
        ensures
            c == sample_spec(self.stops(), 1, 2),
    {
        self.gradient.sample(1, 2)
    }

    /// A snapshot for status reporting: the colors at the start and the
    /// middle of the run, and the display mode.
    pub fn get_preview(&self) -> (p: (Rgb, Rgb, DisplayMode))
        requires
            self.wf(),
        ensures
            p.0 == sample_spec(self.stops(), 0, 2),
            p.1 == sample_spec(self.stops(), 1, 2),
            p.2 == self.mode_spec(),
    {
        (self.gradient.sample(0, 2), self.gradient.sample(1, 2), self.mode)
    }

    /// Replaces the gradient with a solid color given as six hex digits.
    /// On success the whole stop run becomes that one color and the color
    /// is returned; a malformed string changes nothing and is reported.
    pub fn replace_uniform(&mut self, hex: &str) -> (res: Result<Rgb, GradientError>)
        requires
            old(self).wf(),
        ensures
            final(self).wf(),
            final(self).mode_spec() == old(self).mode_spec(),
            valid_hex6(hex@) ==> {
                let c = color_of_hex(hex@);
                res matches Ok(got) && got == c && final(self).stops() =~= seq![c, c]
            },
            !valid_hex6(hex@) ==> {
                res matches Err(e) && e is Validation
                && final(self).stops() == old(self).stops()
            },
    {
        match hex_to_rgb(hex) {
            Some((r, g, b)) => {
                let c = Rgb { r, g, b };
                self.gradient = GradientSpec::uniform(c);
                Ok(c)
            },
            None => Err(GradientError::Validation),
        }
    }

    /// Replaces the gradient with the palindrome `[hex1, hex2, hex1]` and
    /// returns the new midpoint color, which is exactly `hex2`'s color.
    /// If either string is malformed nothing changes and the fault is
    /// reported.
    pub fn replace_gradient(&mut self, hex1: &str, hex2: &str) -> (res: Result<Rgb, GradientError>)
        requires
            old(self).wf(),
        ensures
            final(self).wf(),
            final(self).mode_spec() == old(self).mode_spec(),
            valid_hex6(hex1@) && valid_hex6(hex2@) ==> {
                let c1 = color_of_hex(hex1@);
                let c2 = color_of_hex(hex2@);
                res matches Ok(got) && got == c2
                && final(self).stops() =~= seq![c1, c2, c1]
            },
            !(valid_hex6(hex1@) && valid_hex6(hex2@)) ==> {
                res matches Err(e) && e is Validation
                && final(self).stops() == old(self).stops()
            },
    {
        let p1 = hex_to_rgb(hex1);
        let p2 = hex_to_rgb(hex2);
        match (p1, p2) {
            (Some((r1, g1, b1)), Some((r2, g2, b2))) => {
                let c1 = Rgb { r: r1, g: g1, b: b1 };
                let c2 = Rgb { r: r2, g: g2, b: b2 };
                self.gradient = GradientSpec::palindrome(c1, c2);
                Ok(c2)
            },
            _ => Err(GradientError::Validation),
        }
    }
}

/// Law: writing a solid color and reading the midpoint back returns the
/// color that was written — so the written string and the reported one
/// agree letter for letter, up to the case of the digits.  Together with
/// `replace_uniform`'s and `get_midpoint`'s contracts this pins the
/// whole round trip.
pub proof fn lemma_uniform_round_trip(h: Seq<char>)
    requires
        valid_hex6(h),
    ensures
        sample_spec(seq![color_of_hex(h), color_of_hex(h)], 1, 2) == color_of_hex(h),
        hex_of_color(color_of_hex(h)) == lower_hex(h),
{
    lemma_uniform_constant(color_of_hex(h), 1, 2);
    lemma_hex_round_trip(h);
}

} // verus!
