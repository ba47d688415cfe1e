//! The frequency glide: turns jumps of the frequency into ramps, and pushes the
//! ramp's current value to the stage it wraps on every pull.
use std::sync::mpsc::Receiver;
use vstd::prelude::*;
use crate::fixed::{lemma_floor_of_negative, ramp_len, ramp_samples};
use crate::sound_commands::{control_channel, poll_command, relayed, Control, SoundCommands, SoundMaker};

verus! {

/// Duration of a glide before any command, in milliseconds.
pub const DEFAULT_GLIDE_MS: u32 = 500;

/// Distance (millihertz) under which the glide takes the target at once.
pub const SNAP_MHZ: u32 = 100;

/// The point `k` steps of `n` along the ramp from `start` to `target`.
pub open spec fn ramp_point(start: int, target: int, k: int, n: int) -> int {
    start + ((target - start) * k) / n
}

/// Whether two frequencies are close enough for the glide to stop.
pub open spec fn close(a: int, b: int) -> bool {
    -(SNAP_MHZ as int) < a - b < SNAP_MHZ
}

/// State of the glide. Frequencies are in millihertz.
///
/// The ramp runs from `start` to `targ_freq` in `n_steps` pulls, of which
/// `k` are done; `curr_freq` is the point reached.
#[derive(Clone, Copy, Debug, PartialEq, Eq, Structural)]
pub struct Glide {
    pub sample_rate: u32,
    pub time: u32,
    pub start: u32,
    pub curr_freq: u32,
    pub targ_freq: u32,
    pub n_steps: u64,
    pub k: u64,
}

impl Glide {
    pub open spec fn wf(self) -> bool {
        &&& self.sample_rate > 0
        &&& self.n_steps == ramp_len(self.time, self.sample_rate)
        &&& self.k <= self.n_steps
        &&& self.curr_freq == ramp_point(self.start as int, self.targ_freq as int, self.k as int, self.n_steps as int)
    }

    /// The glide before any command: at rest at 0 Hz.
    pub open spec fn initial(sample_rate: u32) -> Glide {
        Glide {
            sample_rate,
            time: DEFAULT_GLIDE_MS,
            start: 0,
            curr_freq: 0,
            targ_freq: 0,
            n_steps: ramp_len(DEFAULT_GLIDE_MS, sample_rate) as u64,
            k: 0,
        }
    }

    /// The glide that starts from here toward `target`; it is there at once
    /// if the distance is under the snap distance.
    pub open spec fn toward(self, target: u32) -> Glide {
        if close(target as int, self.curr_freq as int) {
            Glide { start: target, curr_freq: target, targ_freq: target, k: 0, ..self }
        } else {
            Glide { start: self.curr_freq, targ_freq: target, k: 0, ..self }
        }
    }

    /// Whether the glide claims a command (the others are relayed inward).
    pub open spec fn claims(c: SoundCommands) -> bool {
        c is Frq || c is LerpTime
    }

    /// What the stage relays for a poll that found `c`.
    pub open spec fn relayed(c: Option<SoundCommands>) -> Seq<SoundCommands> {
        relayed(c, match c { Some(cmd) => Glide::claims(cmd), None => true })
    }

    /// The glide after a command.
    pub open spec fn after_command(self, c: SoundCommands) -> Glide {
        match c {
            SoundCommands::Frq(f) => self.toward(f),
            SoundCommands::LerpTime(t) => Glide {
                time: t,
                n_steps: ramp_len(t, self.sample_rate) as u64,
                ..self
            }.toward(self.targ_freq),
            _ => self,
        }
    }

    pub open spec fn after_poll(self, c: Option<SoundCommands>) -> Glide {
        match c {
            Some(cmd) => self.after_command(cmd),
            None => self,
        }
    }

    /// The glide after a pull: one more step along the ramp, then the snap.
    pub open spec fn advanced(self) -> Glide {
        let k = if self.k < self.n_steps { self.k + 1 } else { self.k as int };
        let f = ramp_point(self.start as int, self.targ_freq as int, k, self.n_steps as int);
        if close(self.targ_freq as int, f) {
            Glide { start: self.targ_freq, curr_freq: self.targ_freq, k: k as u64, ..self }
        } else {
            Glide { curr_freq: f as u32, k: k as u64, ..self }
        }
    }

    /// The glide after `m` pulls that find no command.
    pub open spec fn advanced_by(self, m: nat) -> Glide
        decreases m,
    {
        if m == 0 {
            self
        } else {
            self.advanced_by((m - 1) as nat).advanced()
        }
    }

    /// A glide at rest at 0 Hz, with the default duration.
    pub fn new(sample_rate: u32) -> (r: Glide)
        requires
            sample_rate > 0,
        ensures
            r == Glide::initial(sample_rate),
            r.wf(),
    {
        Glide {
            sample_rate,
            time: DEFAULT_GLIDE_MS,
            start: 0,
            curr_freq: 0,
            targ_freq: 0,
            n_steps: ramp_samples(DEFAULT_GLIDE_MS, sample_rate),
            k: 0,
        }
    }

    /// Starts a glide from the current frequency toward `to_freq`.
    pub fn set_lerp(&mut self, to_freq: u32)
        requires
            old(self).sample_rate > 0,
            old(self).n_steps == ramp_len(old(self).time, old(self).sample_rate),
        ensures
            *final(self) == old(self).toward(to_freq),
            final(self).wf(),
    {
        let d: i64 = to_freq as i64 - self.curr_freq as i64;
        if -(SNAP_MHZ as i64) < d && d < SNAP_MHZ as i64 {
            self.start = to_freq;
            self.curr_freq = to_freq;
        } else {
            self.start = self.curr_freq;
        }
        self.targ_freq = to_freq;
        self.k = 0;
        proof {
            assert(((self.targ_freq as int - self.start as int) * 0) / (self.n_steps as int) == 0) by (nonlinear_arith)
                requires self.n_steps > 0;
        }
    }

    /// Applies a command that the glide claims, and hands back the others.
    pub fn apply(&mut self, c: SoundCommands) -> (fwd: Option<SoundCommands>)
        requires
            old(self).wf(),
        ensures
            *final(self) == old(self).after_command(c),
            final(self).wf(),
            fwd == (if Glide::claims(c) { None } else { Some(c) }),
    {
        match c {
            SoundCommands::Frq(f) => {
                self.set_lerp(f);
                None
            },
            SoundCommands::LerpTime(t) => {
                self.time = t;
                self.n_steps = ramp_samples(t, self.sample_rate);
                let targ = self.targ_freq;
                self.set_lerp(targ);
                None
            },
            _ => Some(c),
        }
    }

    /// Moves one step along the ramp and hands back the command that carries
    /// the new frequency inward.
    pub fn update_freq(&mut self) -> (push: SoundCommands)
        requires
            old(self).wf(),
        ensures
            *final(self) == old(self).advanced(),
            final(self).wf(),
            push == SoundCommands::Frq(final(self).curr_freq),
    {
        if self.k < self.n_steps {
            self.k = self.k + 1;
        }
        let f = point_of(self.start, self.targ_freq, self.k, self.n_steps);
        let d: i64 = self.targ_freq as i64 - f as i64;
        if -(SNAP_MHZ as i64) < d && d < SNAP_MHZ as i64 {
            self.start = self.targ_freq;
            self.curr_freq = self.targ_freq;
            proof {
                assert(((self.targ_freq as int - self.start as int) * self.k) / (self.n_steps as int) == 0) by (nonlinear_arith)
                    requires self.n_steps > 0, self.targ_freq == self.start;
            }
        } else {
            self.curr_freq = f;
        }
        SoundCommands::Frq(self.curr_freq)
    }
}

/// Convergence: from any consistent state, the glide is at its target after
/// the steps that remain of its ramp; after a new target it starts a ramp of
/// `ramp_len(time, sample_rate)` steps, so it arrives within that many pulls.
pub proof fn lemma_glide_converges(g: Glide)
    requires
        g.wf(),
    ensures
        g.advanced_by((g.n_steps - g.k) as nat).curr_freq == g.targ_freq,
        forall|t: u32| #[trigger] g.after_command(SoundCommands::Frq(t)).k == 0,
        forall|t: u32| #[trigger] g.after_command(SoundCommands::Frq(t)).targ_freq == t,
{
    lemma_glide_progress(g, (g.n_steps - g.k) as nat);
}

/// After `m` pulls the glide has either arrived for good, or kept its start
/// and moved `m` steps; at the end of the ramp it is at the target.
proof fn lemma_glide_progress(g: Glide, m: nat)
    requires
        g.wf(),
        g.k + m <= g.n_steps,
    ensures
        ({
            let h = g.advanced_by(m);
            &&& h.targ_freq == g.targ_freq
            &&& h.n_steps == g.n_steps
            &&& ((h.start == g.targ_freq && h.curr_freq == g.targ_freq) || (h.start == g.start
                && h.k == g.k + m && (h.k == h.n_steps ==> h.curr_freq == g.targ_freq)))
        }),
    decreases m,
{
    let n = g.n_steps as int;
    if m == 0 {
        if g.k == g.n_steps {
            lemma_ramp_end(g.start as int, g.targ_freq as int, n);
        }
    } else {
        lemma_glide_progress(g, (m - 1) as nat);
        let h = g.advanced_by((m - 1) as nat);
        let k = if h.k < h.n_steps { h.k + 1 } else { h.k as int };
        if h.start == g.targ_freq && h.curr_freq == g.targ_freq {
            assert(((h.targ_freq as int - h.start as int) * k) / n == 0) by (nonlinear_arith)
                requires h.targ_freq == h.start, n > 0;
        } else {
            if k == n {
                lemma_ramp_end(g.start as int, g.targ_freq as int, n);
            }
        }
    }
}

/// A ramp of `n` steps is at its end after `n` steps.
proof fn lemma_ramp_end(start: int, target: int, n: int)
    requires
        n > 0,
    ensures
        ramp_point(start, target, n, n) == target,
{
    vstd::arithmetic::div_mod::lemma_div_multiples_vanish(target - start, n);
    assert((target - start) * n == n * (target - start)) by (nonlinear_arith);
}

/// The frequency glide as a stage of the chain.
pub struct Lerp<T: SoundMaker> {
    source: T,
    glide: Glide,
    recv: Receiver<SoundCommands>,
    other_control: Control,
}

impl<T: SoundMaker> Lerp<T> {
    pub closed spec fn glide(&self) -> Glide {
        self.glide
    }

    pub closed spec fn source(&self) -> T {
        self.source
    }

    /// The commands this stage has sent to the stage it wraps.
    pub closed spec fn outbox(&self) -> Seq<SoundCommands> {
        self.other_control.sent()
    }

    /// The state of the glide.
    pub fn glide_state(&self) -> (r: Glide)
        ensures
            r == self.glide(),
    {
        self.glide
    }

    /// The wrapped stage.
    pub fn inner(&self) -> (r: &T)
        ensures
            *r == self.source(),
    {
        &self.source
    }

    /// Wraps `source`, whose commands go through `other_control`; hands back
    /// the stage and the sending handle of its own control queue.
    pub fn new(input: (T, Control)) -> (r: (Self, Control))
        requires
            input.0.wf(),
        ensures
            r.0.wf(),
            r.0.rate() == input.0.rate(),
            r.0.glide() == Glide::initial(input.0.rate()),
            r.0.source() == input.0,
            r.0.outbox() == input.1.sent(),
            r.1.sent() == Seq::<SoundCommands>::empty(),
    {
        let (source, other_control) = input;
        let sample_rate = source.sample_rate();
        let (send, recv) = control_channel();
        let this = Lerp { source, glide: Glide::new(sample_rate), recv, other_control };
        (this, send)
    }

    /// Applies a command to the glide; one it does not claim is sent on to
    /// the wrapped stage, and handed back.
    pub fn handle_command(&mut self, command: Option<SoundCommands>) -> (fwd: Option<SoundCommands>)
        requires
            old(self).wf(),
        ensures
            final(self).wf(),
            final(self).source() == old(self).source(),
            final(self).glide() == old(self).glide().after_poll(command),
            final(self).outbox() == old(self).outbox() + Glide::relayed(command),
            fwd == (match command {
                Some(c) => if Glide::claims(c) { None } else { Some(c) },
                None => None,
            }),
    {
        match command {
            Some(c) => {
                let fwd = self.glide.apply(c);
                if let Some(f) = fwd {
                    self.other_control.send(f);
                }
                fwd
            },
            None => None,
        }
    }

    /// Moves the glide one step on and sends the new frequency to the wrapped
    /// stage; hands back the command sent.
    pub fn update_freq(&mut self) -> (push: SoundCommands)
        requires
            old(self).wf(),
        ensures
            final(self).wf(),
            final(self).source() == old(self).source(),
            final(self).glide() == old(self).glide().advanced(),
            push == SoundCommands::Frq(final(self).glide().curr_freq),
            final(self).outbox() == old(self).outbox().push(push),
    {
        let push = self.glide.update_freq();
        self.other_control.send(push);
        push
    }

    /// Takes at most one command from the control queue, moves the glide one
    /// step on, sends its frequency inward, then pulls one sample from the
    /// wrapped stage and returns it unchanged.
    pub fn get_sample(&mut self) -> (r: i32)
        requires
            old(self).wf(),
        ensures
            final(self).wf(),
            final(self).rate() == old(self).rate(),
            old(self).pulled(*final(self), r),
    {
        let ghost s0 = *self;
        let command = poll_command(&self.recv);
        self.handle_command(command);
        let ghost mid = self.outbox();
        let push = self.update_freq();
        assert(mid.push(push) =~= mid + seq![push]);
        let r = self.source.next_sample();
        assert(s0.glide().after_poll(command).advanced() == self.glide());
        assert(self.outbox() == s0.outbox() + Glide::relayed(command)
            + seq![SoundCommands::Frq(self.glide().curr_freq)]);
        r
    }
}

impl<T: SoundMaker> SoundMaker for Lerp<T> {
    open spec fn wf(&self) -> bool {
        &&& self.source().wf()
        &&& self.glide().wf()
        &&& self.glide().sample_rate == self.source().rate()
    }

    open spec fn rate(&self) -> u32 {
        self.glide().sample_rate
    }

    /// A poll that found `c`, one step of the glide whose frequency is sent
    /// inward after what `c` relays, then one pull of the wrapped stage whose
    /// sample is returned as it is.
    open spec fn pulled(&self, after: Self, r: i32) -> bool {
        exists|c: Option<SoundCommands>|
            #![trigger self.glide().after_poll(c)]
            {
                &&& self.source().pulled(after.source(), r)
                &&& after.glide() == self.glide().after_poll(c).advanced()
                &&& after.outbox() == self.outbox() + Glide::relayed(c)
                    + seq![SoundCommands::Frq(after.glide().curr_freq)]
            }
    }

    fn next_sample(&mut self) -> (r: i32) {
        self.get_sample()
    }

    fn sample_rate(&self) -> (r: u32) {
        self.glide.sample_rate
    }

    fn channels(&self) -> (r: u16) {
        1
    }
}

/// The point of a ramp, computed; it lies between the two ends.
fn point_of(start: u32, target: u32, k: u64, n: u64) -> (f: u32)
    requires
        k <= n,
        n > 0,
    ensures
        f == ramp_point(start as int, target as int, k as int, n as int),
{
    if target >= start {
        let d = (target - start) as u64;
        proof {
            lemma_share(d as int, k as int, n as int);
        }
        assert(d as int * k as int <= u32::MAX as int * u64::MAX as int) by (nonlinear_arith)
            requires d <= u32::MAX, k <= u64::MAX;
        let q = ((d as u128 * k as u128) / n as u128) as u32;
        start + q
    } else {
        let d = (start - target) as u64;
        proof {
            lemma_share(d as int, k as int, n as int);
        }
        assert(d as int * k as int <= u32::MAX as int * u64::MAX as int) by (nonlinear_arith)
            requires d <= u32::MAX, k <= u64::MAX;
        let p: u128 = d as u128 * k as u128;
        if p == 0 {
            assert((target as int - start as int) * k as int == 0) by (nonlinear_arith)
                requires d as int * k as int == 0, d == start - target;
            start
        } else {
            let c = ((p + (n as u128 - 1)) / n as u128) as u32;
            proof {
                lemma_floor_of_negative(p as int, n as int);
                assert((target as int - start as int) * k as int == -(p as int)) by (nonlinear_arith)
                    requires p == d * k, d == start - target;
            }
            start - c
        }
    }
}

/// A share `k / n` of a distance `d` is no more than `d`, rounded either way.
proof fn lemma_share(d: int, k: int, n: int)
    requires
        0 <= d,
        0 <= k <= n,
        n > 0,
    ensures
        0 <= (d * k) / n <= d,
        0 <= (d * k + (n - 1)) / n <= d,
{
    assert(0 <= d * k <= d * n) by (nonlinear_arith)
        requires 0 <= d, 0 <= k <= n;
    vstd::arithmetic::div_mod::lemma_div_is_ordered(d * k, d * n, n);
    vstd::arithmetic::div_mod::lemma_div_is_ordered(d * k + (n - 1), d * n + (n - 1), n);
    vstd::arithmetic::div_mod::lemma_div_multiples_vanish(d, n);
    assert(d * n == n * d) by (nonlinear_arith);
    vstd::arithmetic::div_mod::lemma_div_pos_is_pos(d * k, n);
    vstd::arithmetic::div_mod::lemma_div_pos_is_pos(d * k + (n - 1), n);
    vstd::arithmetic::div_mod::lemma_fundamental_div_mod(d * n + (n - 1), n);
    vstd::arithmetic::div_mod::lemma_fundamental_div_mod_converse(d * n + (n - 1), n, d, n - 1);
}

} // verus!
