use std::sync::Arc;
use vstd::arithmetic::div_mod::{lemma_hoist_over_denominator, lemma_mod_bound};
use vstd::prelude::*;

use crate::pitch::{frequency_of, note_to_period, period_of, period_to_frequency};
use crate::waveform::{LoopMode, Waveform};

verus! {

/// One frame in cursor units: positions and steps are Q.16 frame counts.
pub const FRAC_ONE: i64 = 65536;

/// Largest step: a Q24.8 frequency over an output rate of 1 Hz.
pub const MAX_STEP: u64 = 0x100_0000_0000;

/// Tracker note of C-4.
pub const NOTE_C4: i16 = 48;

/// Tracker note of B-9; notes from here on have no C-4 rate.
pub const NOTE_B9: i16 = 119;

/// Linear interpolation between `u` and `v` at the Q.16 fraction `t`,
/// rounded down.
pub open spec fn lerp(u: int, v: int, t: int) -> int {
    u + (v - u) * t / (FRAC_ONE as int)
}

/// A playback cursor over a shared waveform.
#[derive(Clone)]
pub struct StateSample {
    sample: Arc<Waveform>,
    /// Seek position, Q.16 frames; negative when disabled.
    position: i64,
    /// Q.16 frames per output sample.
    step: u64,
    /// Ping-pong direction: `true` runs forward.
    ping: bool,
    /// Output rate in Hz.
    rate: u32,
}

/// The cursor's state as plain values.
pub struct CursorView {
    pub wave: Waveform,
    pub position: int,
    pub step: int,
    pub ping: bool,
    pub rate: int,
}

impl View for StateSample {
    type V = CursorView;

    closed spec fn view(&self) -> CursorView {
        CursorView {
            wave: *self.sample,
            position: self.position as int,
            step: self.step as int,
            ping: self.ping,
            rate: self.rate as int,
        }
    }
}

/// Where a cursor starts on a waveform: frame 0, or disabled when it is empty.
pub open spec fn start_position(w: Waveform) -> int {
    if w.len() == 0 {
        -FRAC_ONE
    } else {
        0
    }
}

impl CursorView {
    pub open spec fn enabled(self) -> bool {
        self.position >= 0
    }

    /// An enabled cursor lies inside the data; a disabled one at `-1`.
    pub open spec fn wf(self) -> bool {
        &&& self.wave.wf()
        &&& self.rate > 0
        &&& 0 <= self.step <= MAX_STEP
        &&& self.position == -FRAC_ONE || 0 <= self.position < self.wave.len() * FRAC_ONE
    }

    /// Position and direction after one tick.
    pub open spec fn advanced(self) -> (int, bool) {
        let w = self.wave;
        let one = FRAC_ONE as int;
        let len = w.len() * one;
        let s = w.loop_start * one;
        let e = w.loop_end() * one;
        let l = w.loop_length * one;
        match w.loop_mode {
            LoopMode::No => {
                let q = self.position + self.step;
                (if q >= len { -one } else { q }, self.ping)
            },
            LoopMode::Forward => {
                let q = self.position + self.step;
                (if q >= e { s + (q - e) % l } else { q }, self.ping)
            },
            LoopMode::PingPong => {
                if self.ping {
                    let q = self.position + self.step;
                    let (r, d) = if q >= e { (e - (q - e) % l, false) } else { (q, true) };
                    if r >= len { (len - one, false) } else { (r, d) }
                } else {
                    let q = self.position - self.step;
                    let (r, d) = if q <= s { (s + (s - q) % l, true) } else { (q, false) };
                    if r <= 0 { (0, true) } else { (r, d) }
                }
            },
        }
    }

    /// The cursor after one tick.
    pub open spec fn ticked(self) -> CursorView {
        CursorView { position: self.advanced().0, ping: self.advanced().1, ..self }
    }

    /// The cursor after `n` ticks.
    pub open spec fn run(self, n: nat) -> CursorView
        decreases n,
    {
        if n == 0 {
            self
        } else {
            self.ticked().run((n - 1) as nat)
        }
    }

    /// A ping-pong cursor travelling inside its loop window: forward in
    /// `[loop_start, loop_end)`, backward in `(loop_start, loop_end]`, with
    /// a step of at most one loop length and data beyond the loop end.
    pub open spec fn in_ping_pong_loop(self) -> bool {
        let w = self.wave;
        let one = FRAC_ONE as int;
        &&& self.wf()
        &&& w.loop_mode == LoopMode::PingPong
        &&& 0 < self.step <= w.loop_length * one
        &&& w.loop_end() < w.len()
        &&& self.ping ==> w.loop_start * one <= self.position < w.loop_end() * one
        &&& !self.ping ==> w.loop_start * one < self.position <= w.loop_end() * one
    }

    /// Distance travelled from the loop start along the unfolded loop: the
    /// forward sweep, then the backward sweep, `2 * loop_length` frames in all.
    pub open spec fn phase(self) -> int {
        let one = FRAC_ONE as int;
        let d = self.position - self.wave.loop_start * one;
        if self.ping {
            d
        } else {
            2 * self.wave.loop_length * one - d
        }
    }

    /// The two frames that one tick interpolates between: the frame under
    /// the position, then the frame it blends toward (the next one, or the
    /// previous one on a backward ping-pong sweep, held at the loop edges).
    pub open spec fn frames(self) -> (int, int) {
        let w = self.wave;
        let a = self.position / (FRAC_ONE as int);
        let b = a + 1;
        match w.loop_mode {
            LoopMode::No => (w.at(a), if b < w.len() { w.at(b) } else { 0 }),
            LoopMode::Forward => (w.at(a), w.at(if b >= w.loop_end() { w.loop_start as int } else { b })),
            LoopMode::PingPong => {
                if self.ping {
                    (w.at(a), w.at(if b >= w.loop_end() { a } else { b }))
                } else {
                    (w.at(a), w.at(if b == 1 || b - 2 <= w.loop_start { a } else { b - 2 }))
                }
            },
        }
    }

    /// The amplitude that one tick returns: interpolated at the position's
    /// fraction, before the advance.
    pub open spec fn output(self) -> int {
        let (u, v) = self.frames();
        lerp(u, v, self.position % (FRAC_ONE as int))
    }
}

proof fn lemma_lerp_bounds(u: int, v: int, t: int)
    requires
        0 <= t < FRAC_ONE,
    ensures
        u <= v ==> u <= lerp(u, v, t) <= v,
        v <= u ==> v <= lerp(u, v, t) <= u,
        lerp(u, v, t) == u + ((v - u + FRAC_ONE) * t) / (FRAC_ONE as int) - t,
{
    let d = v - u;
    lemma_hoist_over_denominator(d * t, t, FRAC_ONE as nat);
    assert((d + FRAC_ONE) * t == d * t + t * FRAC_ONE) by (nonlinear_arith);
    if d >= 0 {
        assert(0 <= d * t <= d * FRAC_ONE) by (nonlinear_arith)
            requires
                d >= 0,
                0 <= t < FRAC_ONE,
        ;
    } else {
        assert(d * FRAC_ONE <= d * t <= 0) by (nonlinear_arith)
            requires
                d < 0,
                0 <= t < FRAC_ONE,
        ;
    }
}

fn lerp_frames(u: i16, v: i16, t: u64) -> (r: i16)
    requires
        t < FRAC_ONE,
    ensures
        r == lerp(u as int, v as int, t as int),
{
    proof {
        lemma_lerp_bounds(u as int, v as int, t as int);
    }
    let d: u64 = (v as i64 - u as i64 + FRAC_ONE) as u64;
    assert(d * t <= 131072 * 65536) by (nonlinear_arith)
        requires
            d <= 131072,
            t < 65536,
    ;
    let n: u64 = d * t;
    let q: i64 = (n / 65536) as i64;
    (u as i64 + q - t as i64) as i16
}

impl StateSample {
    /// A cursor at the start of `sample`, running forward, with step 0.
    pub fn new(sample: Arc<Waveform>, rate: u32) -> (r: Self)
        requires
            sample.wf(),
            rate > 0,
        ensures
            r@.wf(),
            r@.wave == *sample,
            r@.position == start_position(*sample),
            r@.step == 0,
            r@.ping,
            r@.rate == rate,
    {
        let pos: i64 = if sample.data.len() == 0 {
            -FRAC_ONE
        } else {
            0
        };
        StateSample { sample, position: pos, step: 0, ping: true, rate }
    }
}


impl StateSample {
    /// One output sample: interpolates at the current position, then
    /// advances under the waveform's loop mode.
    fn tick(&mut self) -> (r: i16)
        requires
            old(self)@.wf(),
            old(self)@.enabled(),
        ensures
            final(self)@.wf(),
            final(self)@.wave == old(self)@.wave,
            final(self)@.step == old(self)@.step,
            final(self)@.rate == old(self)@.rate,
            (final(self)@.position, final(self)@.ping) == old(self)@.advanced(),
            r == old(self)@.output(),
    {
        let ghost pre = self@;
        let w: &Waveform = &*self.sample;
        let one: i64 = FRAC_ONE;
        let len: i64 = w.data.len() as i64;
        let pos: u64 = self.position as u64;
        let a: u64 = pos / 65536;
        let b: u64 = a + 1;
        let t: u64 = pos % 65536;
        let u: i16 = w.data[a as usize];
        let loop_start: i64 = w.loop_start as i64;
        let loop_length: i64 = w.loop_length as i64;
        let loop_end: i64 = loop_start + loop_length;
        let v: i16 = match w.loop_mode {
            LoopMode::No => {
                self.position = self.position + self.step as i64;
                if self.position >= len * one {
                    self.position = -one;
                }
                if b < len as u64 {
                    w.data[b as usize]
                } else {
                    0
                }
            },
            LoopMode::Forward => {
                self.position = self.position + self.step as i64;
                if self.position >= loop_end * one {
                    proof {
                        lemma_mod_bound(self.position - loop_end * one, loop_length * one);
                    }
                    let delta: u64 = ((self.position - loop_end * one) as u64) % ((loop_length
                        * one) as u64);
                    self.position = loop_start * one + delta as i64;
                }
                let seek: u64 = if b >= loop_end as u64 {
                    loop_start as u64
                } else {
                    b
                };
                w.data[seek as usize]
            },
            LoopMode::PingPong => {
                if self.ping {
                    self.position = self.position + self.step as i64;
                } else {
                    self.position = self.position - self.step as i64;
                }
                if self.ping {
                    if self.position >= loop_end * one {
                        self.ping = false;
                        proof {
                            lemma_mod_bound(self.position - loop_end * one, loop_length * one);
                        }
                        let delta: u64 = ((self.position - loop_end * one) as u64) % ((loop_length
                            * one) as u64);
                        self.position = loop_end * one - delta as i64;
                    }
                    if self.position >= len * one {
                        self.ping = false;
                        self.position = (len - 1) * one;
                    }
                    let seek: u64 = if b >= loop_end as u64 {
                        a
                    } else {
                        b
                    };
                    w.data[seek as usize]
                } else {
                    if self.position <= loop_start * one {
                        self.ping = true;
                        proof {
                            lemma_mod_bound(loop_start * one - self.position, loop_length * one);
                        }
                        let delta: u64 = ((loop_start * one - self.position) as u64) % ((
                        loop_length * one) as u64);
                        self.position = loop_start * one + delta as i64;
                    }
                    if self.position <= 0 {
                        self.ping = true;
                        self.position = 0;
                    }
                    let seek: u64 = if b == 1 || b - 2 <= loop_start as u64 {
                        a
                    } else {
                        b - 2
                    };
                    w.data[seek as usize]
                }
            },
        };
        lerp_frames(u, v, t)
    }
}


/// Q8.8 note of a waveform relative to C-4, detuned by `finetune`, or by the
/// waveform's own finetune when `finetune` is 0.
pub open spec fn finetuned_note(w: Waveform, finetune: int) -> int {
    w.relative_note * 256 + if finetune == 0 {
        w.finetune as int
    } else {
        finetune
    }
}

/// Whether a waveform's relative note moves C-4 to a note in
/// `[C-4, B-9)`, the notes that have a C-4 rate.
pub open spec fn c4_note_in_range(w: Waveform) -> bool {
    NOTE_C4 <= NOTE_C4 + w.relative_note < NOTE_B9
}

impl StateSample {
    /// The next sample, or none once the cursor is disabled.
    pub fn next(&mut self) -> (r: Option<i16>)
        requires
            old(self)@.wf(),
        ensures
            final(self)@.wf(),
            final(self)@.wave == old(self)@.wave,
            final(self)@.step == old(self)@.step,
            final(self)@.rate == old(self)@.rate,
            old(self)@.enabled() ==> r == Some(old(self)@.output() as i16)
                && final(self)@.position == old(self)@.advanced().0
                && final(self)@.ping == old(self)@.advanced().1,
            !old(self)@.enabled() ==> r is None && final(self)@ == old(self)@,
    {
        if self.position >= 0 {
            Some(self.tick())
        } else {
            None
        }
    }

    /// Back to the start position, running forward.
    pub fn reset(&mut self)
        requires
            old(self)@.wf(),
        ensures
            final(self)@.wf(),
            final(self)@.position == start_position(old(self)@.wave),
            final(self)@.ping,
            final(self)@.wave == old(self)@.wave,
            final(self)@.step == old(self)@.step,
            final(self)@.rate == old(self)@.rate,
    {
        self.position = if self.sample.data.len() == 0 {
            -FRAC_ONE
        } else {
            0
        };
        self.ping = true;
    }

    /// Sets the step from a Q24.8 frequency: `frequency / rate` frames per
    /// output sample.
    pub fn set_step(&mut self, frequency: u32)
        requires
            old(self)@.wf(),
        ensures
            final(self)@.wf(),
            final(self)@.step == frequency as int * 256 / old(self)@.rate,
            final(self)@.position == old(self)@.position,
            final(self)@.ping == old(self)@.ping,
            final(self)@.wave == old(self)@.wave,
            final(self)@.rate == old(self)@.rate,
    {
        self.step = (frequency as u64 * 256) / self.rate as u64;
    }

    /// Seeks to a frame; past the end of the data it disables the cursor.
    pub fn set_position(&mut self, position: usize)
        requires
            old(self)@.wf(),
        ensures
            final(self)@.wf(),
            final(self)@.position == if position >= old(self)@.wave.len() {
                -FRAC_ONE
            } else {
                position * FRAC_ONE
            },
            final(self)@.ping == old(self)@.ping,
            final(self)@.wave == old(self)@.wave,
            final(self)@.step == old(self)@.step,
            final(self)@.rate == old(self)@.rate,
    {
        if position >= self.sample.data.len() {
            self.disable();
        } else {
            self.position = position as i64 * FRAC_ONE;
        }
    }

    pub fn is_enabled(&self) -> (r: bool)
        ensures
            r == self@.enabled(),
    {
        self.position >= 0
    }

    pub fn disable(&mut self)
        requires
            old(self)@.wf(),
        ensures
            final(self)@.wf(),
            !final(self)@.enabled(),
            final(self)@.position == -FRAC_ONE,
            final(self)@.ping == old(self)@.ping,
            final(self)@.wave == old(self)@.wave,
            final(self)@.step == old(self)@.step,
            final(self)@.rate == old(self)@.rate,
    {
        self.position = -FRAC_ONE;
    }

    /// The waveform this cursor plays.
    pub fn waveform(&self) -> (r: &Waveform)
        ensures
            *r == self@.wave,
    {
        &*self.sample
    }

    pub fn bits(&self) -> (r: u8)
        ensures
            r == self@.wave.bits,
    {
        self.sample.bits
    }

    pub fn get_panning(&self) -> (r: u16)
        ensures
            r == self@.wave.panning,
    {
        self.sample.panning
    }

    pub fn get_volume(&self) -> (r: u16)
        ensures
            r == self@.wave.volume,
    {
        self.sample.volume
    }

    /// Q8.8 note relative to C-4: the relative note plus `finetune`, or
    /// plus the waveform's own finetune when `finetune` is 0.
    pub fn get_finetuned_note(&self, finetune: i16) -> (r: i32)
        ensures
            r == finetuned_note(self@.wave, finetune as int),
    {
        let note: i32 = self.sample.relative_note as i32 * 256;
        if finetune == 0 {
            note + self.sample.finetune as i32
        } else {
            note + finetune as i32
        }
    }

    pub fn get_finetune(&self) -> (r: i16)
        ensures
            r == self@.wave.finetune,
    {
        self.sample.finetune
    }

    /// Q24.8 frequency at which the waveform plays C-4, under linear
    /// (`true`) or Amiga frequencies; none when its relative note moves C-4
    /// out of `[C-4, B-9)`.
    pub fn get_sample_c4_rate(&self, linear: bool) -> (r: Option<u32>)
        requires
            self@.wf(),
        ensures
            r is None <==> !c4_note_in_range(self@.wave),
            r matches Some(f) ==> f == frequency_of(
                linear,
                period_of(linear, NOTE_C4 * 256 + finetuned_note(self@.wave, 0)),
            ),
    {
        let note: i16 = NOTE_C4 + self.sample.relative_note as i16;
        if note < NOTE_C4 || note >= NOTE_B9 {
            return None;
        }
        let pitch: i32 = NOTE_C4 as i32 * 256 + self.get_finetuned_note(0);
        let period: u16 = note_to_period(linear, pitch as i16);
        Some(period_to_frequency(linear, period))
    }
}


/// Without a loop, a tick never moves the cursor back: the position grows
/// or the cursor disables itself.
pub proof fn lemma_no_loop_monotone(c: CursorView)
    requires
        c.wf(),
        c.enabled(),
        c.wave.loop_mode == LoopMode::No,
    ensures
        c.advanced().0 >= c.position || c.advanced().0 == -FRAC_ONE,
{
}

/// A forward loop that a tick carries to or past the loop end wraps into
/// `[loop_start, loop_end)`, however many loop lengths the step spans.
pub proof fn lemma_forward_wrap(c: CursorView)
    requires
        c.wf(),
        c.enabled(),
        c.wave.loop_mode == LoopMode::Forward,
        c.position + c.step >= c.wave.loop_end() * FRAC_ONE,
    ensures
        c.wave.loop_start * FRAC_ONE <= c.advanced().0 < c.wave.loop_end() * FRAC_ONE,
{
    lemma_mod_bound(
        c.position + c.step - c.wave.loop_end() * FRAC_ONE,
        c.wave.loop_length * FRAC_ONE,
    );
}

/// A ping-pong reflection turns the cursor round within one step of the
/// boundary it crossed (at least one frame at the end of the data): a
/// forward sweep crossing the loop end comes back below it, running
/// backward; a backward sweep crossing the loop start comes back above it,
/// running forward. An overshoot shorter than the loop is mirrored exactly
/// about the boundary (at the loop end, when the data goes on past it).
pub proof fn lemma_ping_pong_reflection(c: CursorView)
    requires
        c.wf(),
        c.enabled(),
        c.wave.loop_mode == LoopMode::PingPong,
    ensures
        ({
            let e = c.wave.loop_end() * FRAC_ONE;
            let reach = if c.step > FRAC_ONE {
                c.step
            } else {
                FRAC_ONE as int
            };
            c.ping && c.position < e && c.position + c.step >= e ==> {
                &&& !c.advanced().1
                &&& e - reach <= c.advanced().0 <= e
            }
        }),
        ({
            let e = c.wave.loop_end() * FRAC_ONE;
            let q = c.position + c.step;
            c.ping && e <= q < e + c.wave.loop_length * FRAC_ONE && e < c.wave.len() * FRAC_ONE
                ==> c.advanced().0 == e - (q - e)
        }),
        ({
            let s = c.wave.loop_start * FRAC_ONE;
            let q = c.position - c.step;
            !c.ping && s - c.wave.loop_length * FRAC_ONE < q <= s ==> c.advanced().0 == s + (s
                - q)
        }),
        ({
            let s = c.wave.loop_start * FRAC_ONE;
            !c.ping && c.position > s && c.position - c.step <= s ==> {
                &&& c.advanced().1
                &&& s <= c.advanced().0 < s + c.step
            }
        }),
{
    let e = c.wave.loop_end() * FRAC_ONE;
    let s = c.wave.loop_start * FRAC_ONE;
    let l = c.wave.loop_length * FRAC_ONE;
    if c.ping && c.position < e && c.position + c.step >= e {
        lemma_mod_bound(c.position + c.step - e, l);
        vstd::arithmetic::div_mod::lemma_mod_self_0(l);
        vstd::arithmetic::div_mod::lemma_mod_decreases((c.position + c.step - e) as nat, l as nat);
    }
    let q = c.position + c.step;
    if c.ping && e <= q < e + l {
        vstd::arithmetic::div_mod::lemma_small_mod((q - e) as nat, l as nat);
    }
    let r = c.position - c.step;
    if !c.ping && s - l < r <= s {
        vstd::arithmetic::div_mod::lemma_small_mod((s - r) as nat, l as nat);
    }
    if !c.ping && c.position > s && c.position - c.step <= s {
        lemma_mod_bound(s - (c.position - c.step), l);
        vstd::arithmetic::div_mod::lemma_mod_decreases((s - (c.position - c.step)) as nat, l as nat);
    }
}

/// At a whole-frame position a tick returns that frame's amplitude
/// unblended, in every loop mode and either direction.
pub proof fn lemma_whole_frame_exact(c: CursorView)
    requires
        c.wf(),
        c.enabled(),
        c.position % (FRAC_ONE as int) == 0,
    ensures
        c.output() == c.wave.at(c.position / (FRAC_ONE as int)),
{
}


proof fn lemma_ping_pong_tick(c: CursorView)
    requires
        c.in_ping_pong_loop(),
    ensures
        c.ticked().in_ping_pong_loop(),
        c.ticked().phase() == (c.phase() + c.step) % (2 * c.wave.loop_length * FRAC_ONE),
        0 <= c.phase() < 2 * c.wave.loop_length * FRAC_ONE,
{
    let one = FRAC_ONE as int;
    let s = c.wave.loop_start * one;
    let e = c.wave.loop_end() * one;
    let l = c.wave.loop_length * one;
    let m = 2 * l;
    if c.ping {
        let q = c.position + c.step;
        if q >= e {
            vstd::arithmetic::div_mod::lemma_small_mod((q - e) as nat, l as nat);
        }
        vstd::arithmetic::div_mod::lemma_small_mod((c.phase() + c.step) as nat, m as nat);
    } else {
        let q = c.position - c.step;
        if q <= s {
            vstd::arithmetic::div_mod::lemma_small_mod((s - q) as nat, l as nat);
            vstd::arithmetic::div_mod::lemma_mod_add_multiples_vanish(s - q, m);
            vstd::arithmetic::div_mod::lemma_small_mod((s - q) as nat, m as nat);
        } else {
            vstd::arithmetic::div_mod::lemma_small_mod((c.phase() + c.step) as nat, m as nat);
        }
    }
}

/// Inside its loop window a ping-pong cursor moves uniformly along the
/// unfolded loop: after `n` ticks its phase has advanced by `n` steps,
/// modulo twice the loop length, and it is still inside the window.
pub proof fn lemma_ping_pong_phase(c: CursorView, n: nat)
    requires
        c.in_ping_pong_loop(),
    ensures
        c.run(n).in_ping_pong_loop(),
        c.run(n).phase() == (c.phase() + n * c.step) % (2 * c.wave.loop_length * FRAC_ONE),
    decreases n,
{
    let m = 2 * c.wave.loop_length * FRAC_ONE;
    lemma_ping_pong_tick(c);
    if n == 0 {
        vstd::arithmetic::div_mod::lemma_small_mod(c.phase() as nat, m as nat);
    } else {
        let k = (n - 1) as nat;
        lemma_ping_pong_phase(c.ticked(), k);
        assert(c.run(n) == c.ticked().run(k));
        vstd::arithmetic::div_mod::lemma_add_mod_noop(c.phase() + c.step, k * c.step, m);
        vstd::arithmetic::div_mod::lemma_mod_twice(c.phase() + c.step, m);
        vstd::arithmetic::div_mod::lemma_add_mod_noop(
            (c.phase() + c.step) % m,
            k * c.step,
            m,
        );
        assert(c.phase() + c.step + k * c.step == c.phase() + n * c.step) by (nonlinear_arith)
            requires
                k + 1 == n,
        ;
    }
}

proof fn lemma_run_keeps_wave(c: CursorView, n: nat)
    ensures
        c.run(n).wave == c.wave,
        c.run(n).step == c.step,
    decreases n,
{
    if n > 0 {
        lemma_run_keeps_wave(c.ticked(), (n - 1) as nat);
    }
}

/// A full forward and backward traversal of a ping-pong loop, the first
/// whole number of steps that covers twice the loop length, brings the
/// cursor back to where it started along the unfolded loop, less than one
/// step ahead of it. Started forward at the loop start, it is running
/// forward again, less than one step past the loop start.
pub proof fn lemma_ping_pong_round_trip(c: CursorView)
    requires
        c.in_ping_pong_loop(),
    ensures
        ({
            let m = 2 * c.wave.loop_length * FRAC_ONE;
            let n = ((m + c.step - 1) / c.step) as nat;
            &&& c.run(n).in_ping_pong_loop()
            &&& 0 <= (c.run(n).phase() - c.phase()) % m < c.step
            &&& c.ping && c.position == c.wave.loop_start * FRAC_ONE ==> {
                &&& c.run(n).ping
                &&& c.position <= c.run(n).position < c.position + c.step
            }
        }),
{
    let m = 2 * c.wave.loop_length * FRAC_ONE;
    let st = c.step;
    let n = ((m + st - 1) / st) as nat;
    vstd::arithmetic::div_mod::lemma_fundamental_div_mod(m + st - 1, st);
    vstd::arithmetic::div_mod::lemma_mod_pos_bound(m + st - 1, st);
    vstd::arithmetic::div_mod::lemma_div_pos_is_pos(m + st - 1, st);
    assert(n * st == st * ((m + st - 1) / st));
    assert(m <= n * st < m + st);
    lemma_ping_pong_tick(c);
    lemma_ping_pong_phase(c, n);
    let x = c.phase() + n * st;
    let k = x / m;
    vstd::arithmetic::div_mod::lemma_fundamental_div_mod(x, m);
    vstd::arithmetic::div_mod::lemma_mod_multiples_vanish(-k, n * st, m);
    assert(c.run(n).phase() - c.phase() == m * (-k) + n * st) by (nonlinear_arith)
        requires
            c.run(n).phase() == x % m,
            x == m * k + x % m,
            x == c.phase() + n * st,
    ;
    vstd::arithmetic::div_mod::lemma_mod_add_multiples_vanish(n * st - m, m);
    vstd::arithmetic::div_mod::lemma_small_mod((n * st - m) as nat, m as nat);
    if c.ping && c.position == c.wave.loop_start * FRAC_ONE {
        let r = c.run(n);
        lemma_ping_pong_tick(r);
        vstd::arithmetic::div_mod::lemma_small_mod(r.phase() as nat, m as nat);
        assert(r.phase() < st);
        assert(st <= c.wave.loop_length * FRAC_ONE);
        assert(r.wave == c.wave) by {
            lemma_run_keeps_wave(c, n);
        }
        if !r.ping {
            assert(r.phase() >= c.wave.loop_length * FRAC_ONE);
        }
        assert(r.position == c.position + r.phase());
    }
}

} // verus!
