//! The per-tick render algorithm: sample the gradient across the fixture
//! run, lay the channel bytes out in wire order, and rotate the buffer by
//! the scroll cursor.  One call per tick; the caller owns the cadence and
//! hands the finished frame to the transport.

use vstd::prelude::*;
use vstd::arithmetic::div_mod::{
    lemma_add_mod_noop, lemma_mod_add_multiples_vanish, lemma_mod_division_less_than_divisor,
    lemma_mod_multiples_basic, lemma_mod_sub_multiples_vanish, lemma_mod_twice, lemma_small_mod,
    lemma_sub_mod_noop,
};
use crate::color::Rgb;
use crate::gradient::{sample_spec, DisplayMode, GradientSpec};

verus! {

/// Number of fixtures on the run; each takes three channel bytes.
pub const FIXTURE_COUNT: usize = 170;

/// The universe every frame is addressed to.
pub const UNIVERSE: u16 = 1;

/// The priority every frame is sent with; the protocol admits 1 through
/// 200.
pub const PRIORITY: u8 = 100;

/// Milliseconds between ticks.
pub const TICK_MILLIS: u64 = 10;

/// The protocol's admissible priority range.
pub open spec fn valid_priority(p: u8) -> bool {
    1 <= p <= 200
}

/// The fixed sending priority is admissible.
pub proof fn lemma_default_priority_valid()
    ensures
        valid_priority(PRIORITY),
{
}

/// The cursor after one tick: pinned to 0 while static, else advanced by
/// one and wrapped modulo `FIXTURE_COUNT + 1`.
pub open spec fn advance_cursor_spec(mode: DisplayMode, cursor: int) -> int {
    if mode is Static {
        0
    } else {
        (cursor + 1) % (FIXTURE_COUNT as int + 1)
    }
}

/// Byte `k` of the unrotated frame: pixel `k / 3` sampled at `(k/3) /
/// FIXTURE_COUNT`, channels in the fixtures' blue, red, green wire order.
pub open spec fn channel_at(stops: Seq<Rgb>, k: int) -> u8
    recommends
        2 <= stops.len() <= 3,
        0 <= k < 3 * FIXTURE_COUNT,
{
    let p = sample_spec(stops, k / 3, FIXTURE_COUNT as int);
    if k % 3 == 0 {
        p.b
    } else if k % 3 == 1 {
        p.r
    } else {
        p.g
    }
}

/// The frame before rotation: three bytes for each of the
/// `FIXTURE_COUNT` pixels.
pub open spec fn base_buffer_spec(stops: Seq<Rgb>) -> Seq<u8> {
    Seq::new((3 * FIXTURE_COUNT) as nat, |k: int| channel_at(stops, k))
}

/// `s` rotated right by `d` places: the element at `j` moves to
/// `(j + d) % len`.
pub open spec fn rotate_right_spec(s: Seq<u8>, d: int) -> Seq<u8>
    recommends
        0 < s.len(),
        0 <= d,
{
    Seq::new(s.len(), |k: int| s[(k - d) % (s.len() as int)])
}

/// The frame a tick emits when it starts from `cursor`: the base frame
/// rotated right by three bytes for every step of the advanced cursor.
pub open spec fn tick_buffer_spec(stops: Seq<Rgb>, mode: DisplayMode, cursor: int) -> Seq<u8> {
    rotate_right_spec(base_buffer_spec(stops), 3 * advance_cursor_spec(mode, cursor))
}

/// Builds the unrotated frame for a gradient.
fn render_base(gradient: &GradientSpec) -> (buf: Vec<u8>)
    requires
        gradient.wf(),
    ensures
        buf@ == base_buffer_spec(gradient@),
{
    let mut buf: Vec<u8> = Vec::new();
    let mut i: usize = 0;
    while i < FIXTURE_COUNT
        invariant
            gradient.wf(),
            i <= FIXTURE_COUNT,
            buf@.len() == 3 * i,
            forall|k: int| 0 <= k < 3 * i ==> buf@[k] == channel_at(gradient@, k),
        decreases FIXTURE_COUNT - i,
    {
        let p = gradient.sample(i, FIXTURE_COUNT);
        buf.push(p.b);
        buf.push(p.r);
        buf.push(p.g);
        proof {
            assert forall|k: int| 0 <= k < 3 * (i + 1) implies buf@[k] == channel_at(
                gradient@,
                k,
            ) by {
                if k >= 3 * i {
                    assert(k / 3 == i && (k == 3 * i + k % 3)) by (nonlinear_arith)
                        requires 3 * i <= k < 3 * (i + 1) && 0 <= i;
                }
            }
        }
        i += 1;
    }
    proof {
        assert(buf@ =~= base_buffer_spec(gradient@));
    }
    buf
}

/// Rotates a byte buffer right by `d` places into a fresh buffer.
fn rotate_right_bytes(buf: &Vec<u8>, d: usize) -> (out: Vec<u8>)
    requires
        0 < buf@.len() <= 0x7fff_ffff,
        d <= buf@.len(),
    ensures
        out@ == rotate_right_spec(buf@, d as int),
{
    let n = buf.len();
    let mut out: Vec<u8> = Vec::new();
    let mut k: usize = 0;
    while k < n
        invariant
            n == buf@.len(),
            0 < n <= 0x7fff_ffff,
            d <= n,
            k <= n,
            out@.len() == k,
            forall|j: int| 0 <= j < k ==> out@[j] == buf@[(j - d) % (n as int)],
        decreases n - k,
    {
        let src = (k + n - d) % n;
        proof {
            lemma_mod_add_multiples_vanish(k - d, n as int);
            lemma_mod_division_less_than_divisor(k - d, n as int);
        }
        out.push(buf[src]);
        k += 1;
    }
    proof {
        assert(out@ =~= rotate_right_spec(buf@, d as int));
    }
    out
}

/// The scroll position, owned by the render loop alone; it persists
/// across ticks and resets whenever the mode is static.
pub struct AnimationEngine {
    cursor: usize,
}

impl AnimationEngine {
    /// The current scroll position.
    pub closed spec fn cursor_spec(&self) -> int {
        self.cursor as int
    }

    /// The cursor stays within one full wrap of the run.
    pub open spec fn wf(&self) -> bool {
        0 <= self.cursor_spec() <= FIXTURE_COUNT as int
    }

    /// A fresh engine, parked at the start of the run.
    pub fn new() -> (e: AnimationEngine)
        ensures
            e.wf(),
            e.cursor_spec() == 0,
    {
        AnimationEngine { cursor: 0 }
    }

    /// The current scroll position.
    pub fn cursor(&self) -> (c: usize)
        ensures
            c as int == self.cursor_spec(),
    {
        self.cursor
    }

    /// One tick: advance the cursor for the mode, sample the gradient
    /// into the wire-order frame and rotate it to the cursor.  Returns
    /// the frame to transmit.
    pub fn tick(&mut self, gradient: &GradientSpec, mode: DisplayMode) -> (frame: Vec<u8>)
        requires
            old(self).wf(),
            gradient.wf(),
        ensures
            final(self).wf(),
            final(self).cursor_spec() == advance_cursor_spec(mode, old(self).cursor_spec()),
            frame@ == tick_buffer_spec(gradient@, mode, old(self).cursor_spec()),
            frame@.len() == 3 * FIXTURE_COUNT,
    {
        let next: usize = match mode {
            DisplayMode::Static => 0,
            DisplayMode::Scrolling => (self.cursor + 1) % (FIXTURE_COUNT + 1),
        };
        self.cursor = next;
        let base = render_base(gradient);
        rotate_right_bytes(&base, 3 * next)
    }
}

/// Rotating by nothing returns the buffer unchanged.
pub proof fn lemma_rotate_zero(s: Seq<u8>)
    requires
        0 < s.len(),
    ensures
        rotate_right_spec(s, 0) == s,
{
    assert forall|k: int| 0 <= k < s.len() implies rotate_right_spec(s, 0)[k] == s[k] by {
        lemma_small_mod(k as nat, s.len());
    }
    assert(rotate_right_spec(s, 0) =~= s);
}

/// Two rotations compose into one by the summed distance.
pub proof fn lemma_rotate_compose(s: Seq<u8>, a: int, b: int)
    requires
        0 < s.len(),
        0 <= a,
        0 <= b,
    ensures
        rotate_right_spec(rotate_right_spec(s, a), b) == rotate_right_spec(s, a + b),
{
    let l = s.len() as int;
    assert forall|k: int| 0 <= k < l implies rotate_right_spec(rotate_right_spec(s, a), b)[k]
        == rotate_right_spec(s, a + b)[k] by {
        lemma_mod_division_less_than_divisor(k - b, l);
        lemma_mod_twice(k - b, l);
        lemma_sub_mod_noop((k - b) % l, a, l);
        lemma_sub_mod_noop(k - b, a, l);
        lemma_mod_division_less_than_divisor(k - b - a, l);
    }
    assert(rotate_right_spec(rotate_right_spec(s, a), b) =~= rotate_right_spec(s, a + b));
}

/// Law: while the mode is static, every tick emits the same frame — the
/// unrotated base frame — whatever the cursor held before.
pub proof fn lemma_static_ticks_identical(stops: Seq<Rgb>, c1: int, c2: int)
    ensures
        tick_buffer_spec(stops, DisplayMode::Static, c1) == base_buffer_spec(stops),
        tick_buffer_spec(stops, DisplayMode::Static, c1) == tick_buffer_spec(
            stops,
            DisplayMode::Static,
            c2,
        ),
{
    lemma_rotate_zero(base_buffer_spec(stops));
}

/// Law: while scrolling, each tick's frame is the previous tick's frame
/// rotated right by exactly one pixel (three bytes) — except at the wrap
/// tick, where the cursor falls back to zero, which the premise on the
/// advanced cursor leaves out.
pub proof fn lemma_scrolling_rotates_one_pixel(stops: Seq<Rgb>, cursor: int)
    requires
        0 <= cursor,
        advance_cursor_spec(DisplayMode::Scrolling, cursor) < FIXTURE_COUNT as int,
    ensures
        tick_buffer_spec(
            stops,
            DisplayMode::Scrolling,
            advance_cursor_spec(DisplayMode::Scrolling, cursor),
        ) == rotate_right_spec(tick_buffer_spec(stops, DisplayMode::Scrolling, cursor), 3),
{
    let m = FIXTURE_COUNT as int + 1;
    let s1 = advance_cursor_spec(DisplayMode::Scrolling, cursor);
    lemma_mod_division_less_than_divisor(cursor + 1, m);
    lemma_small_mod((s1 + 1) as nat, m as nat);
    lemma_rotate_compose(base_buffer_spec(stops), 3 * s1, 3);
}

/// Rotating by the whole length is one full turn: the buffer comes back
/// unchanged.
pub proof fn lemma_rotate_full_turn(s: Seq<u8>)
    requires
        0 < s.len(),
    ensures
        rotate_right_spec(s, s.len() as int) == s,
{
    let l = s.len() as int;
    assert forall|k: int| 0 <= k < l implies rotate_right_spec(s, l)[k] == s[k] by {
        lemma_mod_sub_multiples_vanish(k, l);
        lemma_small_mod(k as nat, l as nat);
    }
    assert(rotate_right_spec(s, l) =~= s);
}

/// Law: at the wrap of the cursor's `FIXTURE_COUNT + 1`-step cycle the
/// one-pixel-rotation relation gives way — the two frames around the wrap
/// are instead identical, both one full turn of the base frame.  This is
/// where the deliberate off-by-one of the cursor's modulus shows.
#[verifier::rlimit(50)]
pub proof fn lemma_wrap_tick_repeats_frame(stops: Seq<Rgb>)
    ensures
        tick_buffer_spec(stops, DisplayMode::Scrolling, FIXTURE_COUNT as int - 1)
            == base_buffer_spec(stops),
        tick_buffer_spec(stops, DisplayMode::Scrolling, FIXTURE_COUNT as int) == base_buffer_spec(
            stops,
        ),
{
    let n = FIXTURE_COUNT as int;
    let m = n + 1;
    let base = base_buffer_spec(stops);
    // From cursor `FIXTURE_COUNT - 1` the cursor advances onto the last
    // step, and the frame is a full turn of the base.
    lemma_small_mod(FIXTURE_COUNT as nat, m as nat);
    assert(advance_cursor_spec(DisplayMode::Scrolling, n - 1) == n);
    assert(base.len() == 3 * n);
    lemma_rotate_full_turn(base);
    assert(tick_buffer_spec(stops, DisplayMode::Scrolling, n - 1) == rotate_right_spec(
        base,
        3 * n,
    ));
    // From cursor `FIXTURE_COUNT` the cursor wraps to zero, and the frame
    // is the base unrotated.
    lemma_mod_multiples_basic(1, m);
    assert(advance_cursor_spec(DisplayMode::Scrolling, n) == 0);
    lemma_rotate_zero(base);
    assert(tick_buffer_spec(stops, DisplayMode::Scrolling, n) == rotate_right_spec(base, 0));
}

/// The cursor after `k` scrolling ticks from `cursor`.
pub open spec fn advance_n_spec(mode: DisplayMode, cursor: int, k: nat) -> int
    decreases k,
{
    if k == 0 {
        cursor
    } else {
        advance_cursor_spec(mode, advance_n_spec(mode, cursor, (k - 1) as nat))
    }
}

/// While scrolling, `k` ticks advance the cursor by `k`, wrapped.
proof fn lemma_scrolling_advance_n(cursor: int, k: nat)
    requires
        0 <= cursor <= FIXTURE_COUNT as int,
    ensures
        advance_n_spec(DisplayMode::Scrolling, cursor, k) == (cursor + k) % (
        FIXTURE_COUNT as int + 1),
    decreases k,
{
    let m = FIXTURE_COUNT as int + 1;
    if k == 0 {
        lemma_small_mod(cursor as nat, m as nat);
    } else {
        lemma_scrolling_advance_n(cursor, (k - 1) as nat);
        lemma_add_mod_noop(cursor + k - 1, 1, m);
        lemma_small_mod(1nat, m as nat);
        lemma_mod_twice(cursor + k - 1, m);
    }
}

/// Law: while scrolling, the cursor returns to its starting value after
/// exactly `FIXTURE_COUNT + 1` ticks.
pub proof fn lemma_scrolling_cursor_period(cursor: int)
    requires
        0 <= cursor <= FIXTURE_COUNT as int,
    ensures
        advance_n_spec(DisplayMode::Scrolling, cursor, (FIXTURE_COUNT + 1) as nat) == cursor,
{
    let m = FIXTURE_COUNT as int + 1;
    lemma_scrolling_advance_n(cursor, (FIXTURE_COUNT + 1) as nat);
    lemma_mod_add_multiples_vanish(cursor, m);
    lemma_small_mod(cursor as nat, m as nat);
}

} // verus!
