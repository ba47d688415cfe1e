//! The envelope shaper: an attack / decay / sustain / release gain applied to
//! the samples of the stage it wraps.
use std::sync::mpsc::Receiver;
use vstd::prelude::*;
use crate::fixed::{ramp_len, ramp_samples, UNIT};
use crate::sound_commands::{control_channel, poll_command, relayed, Control, SoundCommands, SoundMaker};

verus! {

/// Gain at step `i` of a rise from 0 to unity over `n` steps.
pub open spec fn attack_gain(i: int, n: int) -> int {
    (i * UNIT) / n
}

/// Gain at step `i` of a fall from unity to `s` over `n` steps.
pub open spec fn decay_gain(i: int, n: int, s: int) -> int {
    UNIT - (i * (UNIT - s)) / n
}

/// Gain at step `i` of a fall from `s` to 0 over `n` steps.
pub open spec fn release_gain(i: int, n: int, s: int) -> int {
    s - (i * s) / n
}

/// Phase and ramp state of the envelope.
///
/// Each ramp is a number of steps (`n_*`) and a position in it (`idx_*`); a
/// ramp whose position has reached its length is over.
#[derive(Clone, Copy, Debug, PartialEq, Eq, Structural)]
pub struct Envelope {
    pub sample_rate: u32,
    pub n_atk: u64,
    pub n_dly: u64,
    pub sustain: u32,
    pub n_rls: u64,
    pub idx_atk: u64,
    pub idx_dly: u64,
    pub idx_rls: u64,
    pub is_note_on: bool,
}

impl Envelope {
    pub open spec fn wf(self) -> bool {
        &&& self.sample_rate > 0
        &&& self.sustain <= UNIT
    }

    /// The envelope before any command: no ramps, every ramp over, note off:
    /// silent until a note-on.
    pub open spec fn initial(sample_rate: u32) -> Envelope {
        Envelope {
            sample_rate,
            n_atk: 0,
            n_dly: 0,
            sustain: 0,
            n_rls: 0,
            idx_atk: u64::MAX,
            idx_dly: u64::MAX,
            idx_rls: u64::MAX,
            is_note_on: false,
        }
    }

    pub open spec fn in_attack(self) -> bool {
        self.is_note_on && self.idx_atk < self.n_atk
    }

    pub open spec fn in_decay(self) -> bool {
        self.is_note_on && self.idx_atk >= self.n_atk && self.idx_dly < self.n_dly
    }

    pub open spec fn in_sustain(self) -> bool {
        self.is_note_on && self.idx_atk >= self.n_atk && self.idx_dly >= self.n_dly
    }

    pub open spec fn in_release(self) -> bool {
        !self.is_note_on && self.idx_rls < self.n_rls
    }

    /// The gain that the next pull applies.
    pub open spec fn gain(self) -> int {
        if self.in_attack() {
            attack_gain(self.idx_atk as int, self.n_atk as int)
        } else if self.in_decay() {
            decay_gain(self.idx_dly as int, self.n_dly as int, self.sustain as int)
        } else if self.in_sustain() {
            self.sustain as int
        } else if self.in_release() {
            release_gain(self.idx_rls as int, self.n_rls as int, self.sustain as int)
        } else {
            0
        }
    }

    /// The envelope after a pull: the ramp in use moves one step on.
    pub open spec fn advanced(self) -> Envelope {
        if self.in_attack() {
            Envelope { idx_atk: (self.idx_atk + 1) as u64, ..self }
        } else if self.in_decay() {
            Envelope { idx_dly: (self.idx_dly + 1) as u64, ..self }
        } else if self.in_release() {
            Envelope { idx_rls: (self.idx_rls + 1) as u64, ..self }
        } else {
            self
        }
    }

    /// Whether the envelope claims a command (the others are relayed inward).
    pub open spec fn claims(c: SoundCommands) -> bool {
        c is Adsr || c is NotePlaying
    }

    /// What the stage sends inward for a poll that found `c`.
    pub open spec fn relayed(c: Option<SoundCommands>) -> Seq<SoundCommands> {
        relayed(c, match c { Some(cmd) => Envelope::claims(cmd), None => true })
    }

    /// The envelope after a command.
    pub open spec fn after_command(self, c: SoundCommands) -> Envelope {
        match c {
            SoundCommands::Adsr(a, d, s, r) => Envelope {
                n_atk: ramp_len(a, self.sample_rate) as u64,
                n_dly: ramp_len(d, self.sample_rate) as u64,
                sustain: if s > UNIT { UNIT as u32 } else { s },
                n_rls: ramp_len(r, self.sample_rate) as u64,
                ..self
            },
            SoundCommands::NotePlaying(true) => Envelope {
                idx_atk: 0,
                idx_dly: 0,
                idx_rls: 0,
                is_note_on: true,
                ..self
            },
            SoundCommands::NotePlaying(false) => Envelope { idx_rls: 0, is_note_on: false, ..self },
            _ => self,
        }
    }

    /// The envelope after a poll of its control queue.
    pub open spec fn after_poll(self, c: Option<SoundCommands>) -> Envelope {
        match c {
            Some(cmd) => self.after_command(cmd),
            None => self,
        }
    }

    /// What a pull makes of the sample `x`.
    pub open spec fn output(self, x: int) -> int {
        (x * self.gain()) / (UNIT as int)
    }

    /// The envelope of a stage that samples at `sample_rate`.
    pub fn new(sample_rate: u32) -> (r: Envelope)
        requires
            sample_rate > 0,
        ensures
            r == Envelope::initial(sample_rate),
            r.wf(),
    {
        Envelope {
            sample_rate,
            n_atk: 0,
            n_dly: 0,
            sustain: 0,
            n_rls: 0,
            idx_atk: u64::MAX,
            idx_dly: u64::MAX,
            idx_rls: u64::MAX,
            is_note_on: false,
        }
    }

    /// Applies a command that the envelope claims, and hands back the others.
    pub fn apply(&mut self, c: SoundCommands) -> (fwd: Option<SoundCommands>)
        requires
            old(self).wf(),
        ensures
            *final(self) == old(self).after_command(c),
            final(self).wf(),
            fwd == (if Envelope::claims(c) { None } else { Some(c) }),
    {
        match c {
            SoundCommands::Adsr(a, d, s, r) => {
                self.n_atk = ramp_samples(a, self.sample_rate);
                self.n_dly = ramp_samples(d, self.sample_rate);
                self.sustain = if s > UNIT as u32 { UNIT as u32 } else { s };
                self.n_rls = ramp_samples(r, self.sample_rate);
                None
            },
            SoundCommands::NotePlaying(on) => {
                self.is_note_on = on;
                if on {
                    self.idx_atk = 0;
                    self.idx_dly = 0;
                }
                self.idx_rls = 0;
                None
            },
            _ => Some(c),
        }
    }

    /// Scales a sample by the current gain and moves the envelope one step on.
    pub fn shape(&mut self, x: i32) -> (r: i32)
        requires
            old(self).wf(),
        ensures
            r == (x as int * old(self).gain()) / (UNIT as int),
            *final(self) == old(self).advanced(),
            final(self).wf(),
    {
        let ghost g = self.gain();
        let gain: i64;
        if self.is_note_on && self.idx_atk < self.n_atk {
            gain = part(self.idx_atk, UNIT as u32, self.n_atk) as i64;
            self.idx_atk = self.idx_atk + 1;
        } else if self.is_note_on && self.idx_dly < self.n_dly {
            let drop = part(self.idx_dly, UNIT as u32 - self.sustain, self.n_dly);
            gain = UNIT as i64 - drop as i64;
            self.idx_dly = self.idx_dly + 1;
        } else if self.is_note_on {
            gain = self.sustain as i64;
        } else if self.idx_rls < self.n_rls {
            let drop = part(self.idx_rls, self.sustain, self.n_rls);
            gain = self.sustain as i64 - drop as i64;
            self.idx_rls = self.idx_rls + 1;
        } else {
            gain = 0;
        }
        assert(gain == g);
        assert(0 <= g <= UNIT);
        proof {
            lemma_scaled_fits(x as int, g);
        }
        crate::fixed::floor_div(x as i64 * gain, UNIT as i64) as i32
    }
}

/// The gain of consecutive pulls follows the envelope's profile: it does not
/// fall from one attack step to the next, and after a note-on it reaches
/// unity where the decay starts; it does
/// not rise during the decay and stays at or above the sustain level; it holds
/// at the sustain level while the note is held; after the note is released it
/// does not rise and stays at or above zero. A note-on starts from zero gain
/// and a note-off starts the release at the sustain level.
pub proof fn lemma_envelope_profile(e: Envelope)
    requires
        e.wf(),
    ensures
        e.in_attack() && e.advanced().in_attack() ==> e.gain() <= e.advanced().gain(),
        e.in_attack() && e.idx_atk + 1 == e.n_atk && e.idx_dly == 0 && e.n_dly > 0
            ==> e.advanced().gain() == UNIT,
        e.in_decay() ==> e.sustain <= e.advanced().gain() <= e.gain(),
        e.in_sustain() ==> e.advanced() == e && e.gain() == e.sustain,
        !e.is_note_on ==> 0 <= e.advanced().gain() <= e.gain(),
        e.n_atk > 0 ==> e.after_command(SoundCommands::NotePlaying(true)).gain() == 0,
        e.n_rls > 0 ==> e.after_command(SoundCommands::NotePlaying(false)).gain() == e.sustain,
{
    let u = UNIT as int;
    let s = e.sustain as int;
    if e.in_attack() {
        let i = e.idx_atk as int;
        let n = e.n_atk as int;
        lemma_part_le(i, u, n);
        if i + 1 < n {
            assert(i * u <= (i + 1) * u) by (nonlinear_arith)
                requires i >= 0, u == 32768;
            vstd::arithmetic::div_mod::lemma_div_is_ordered(i * u, (i + 1) * u, n);
        }
        if e.idx_atk + 1 == e.n_atk && e.idx_dly == 0 && e.n_dly > 0 {
            assert((0 * (u - s)) / (e.n_dly as int) == 0) by (nonlinear_arith)
                requires e.n_dly > 0;
        }
    }
    if e.in_decay() {
        let i = e.idx_dly as int;
        let n = e.n_dly as int;
        lemma_part_le(i, u - s, n);
        if i + 1 < n {
            lemma_part_le(i + 1, u - s, n);
            assert(i * (u - s) <= (i + 1) * (u - s)) by (nonlinear_arith)
                requires i >= 0, u - s >= 0;
            vstd::arithmetic::div_mod::lemma_div_is_ordered(i * (u - s), (i + 1) * (u - s), n);
        }
    }
    if !e.is_note_on && e.in_release() {
        let i = e.idx_rls as int;
        let n = e.n_rls as int;
        lemma_part_le(i, s, n);
        if i + 1 < n {
            lemma_part_le(i + 1, s, n);
            assert(i * s <= (i + 1) * s) by (nonlinear_arith)
                requires i >= 0, s >= 0;
            vstd::arithmetic::div_mod::lemma_div_is_ordered(i * s, (i + 1) * s, n);
        }
    }
    if e.n_atk > 0 {
        assert((0 * u) / (e.n_atk as int) == 0) by (nonlinear_arith)
            requires e.n_atk > 0;
    }
    if e.n_rls > 0 {
        assert((0 * s) / (e.n_rls as int) == 0) by (nonlinear_arith)
            requires e.n_rls > 0;
    }
}

/// The envelope shaper as a stage of the chain.
pub struct Adsr<T: SoundMaker> {
    source: T,
    env: Envelope,
    recv: Receiver<SoundCommands>,
    other_control: Control,
}

impl<T: SoundMaker> Adsr<T> {
    pub closed spec fn envelope(&self) -> Envelope {
        self.env
    }

    pub closed spec fn source(&self) -> T {
        self.source
    }

    /// The commands this stage has sent to the stage it wraps.
    pub closed spec fn outbox(&self) -> Seq<SoundCommands> {
        self.other_control.sent()
    }

    /// The state of the envelope.
    pub fn envelope_state(&self) -> (r: Envelope)
        ensures
            r == self.envelope(),
    {
        self.env
    }

    /// The wrapped stage.
    pub fn inner(&self) -> (r: &T)
        ensures
            *r == self.source(),
    {
        &self.source
    }

    /// Wraps `source`, whose commands go through `other_control`; hands back
    /// the stage and the sending handle of its own control queue.
    pub fn new(input: (T, Control)) -> (r: (Self, Control))
        requires
            input.0.wf(),
        ensures
            r.0.wf(),
            r.0.rate() == input.0.rate(),
            r.0.envelope() == Envelope::initial(input.0.rate()),
            r.0.source() == input.0,
            r.0.outbox() == input.1.sent(),
            r.1.sent() == Seq::<SoundCommands>::empty(),
    {
        let (source, other_control) = input;
        let sample_rate = source.sample_rate();
        let (send, recv) = control_channel();
        let adsr = Adsr { source, env: Envelope::new(sample_rate), recv, other_control };
        (adsr, send)
    }

    /// Applies a command to the envelope; one it does not claim is sent on to
    /// the wrapped stage, and handed back.
    pub fn handle_command(&mut self, command: Option<SoundCommands>) -> (fwd: Option<SoundCommands>)
        requires
            old(self).wf(),
        ensures
            final(self).wf(),
            final(self).source() == old(self).source(),
            final(self).envelope() == old(self).envelope().after_poll(command),
            final(self).outbox() == old(self).outbox() + Envelope::relayed(command),
            fwd == (match command {
                Some(c) => if Envelope::claims(c) { None } else { Some(c) },
                None => None,
            }),
    {
        match command {
            Some(c) => {
                let fwd = self.env.apply(c);
                if let Some(f) = fwd {
                    self.other_control.send(f);
                }
                fwd
            },
            None => None,
        }
    }

    /// Takes at most one command from the control queue, then pulls one
    /// sample from the wrapped stage and scales it by the envelope's gain.
    pub fn get_sample(&mut self) -> (r: i32)
        requires
            old(self).wf(),
        ensures
            final(self).wf(),
            final(self).rate() == old(self).rate(),
            old(self).pulled(*final(self), r),
    {
        let ghost s0 = *self;
        let command = poll_command(&self.recv);
        self.handle_command(command);
        let x = self.source.next_sample();
        let r = self.env.shape(x);
        assert(r == s0.envelope().after_poll(command).output(x as int));
        r
    }
}

impl<T: SoundMaker> SoundMaker for Adsr<T> {
    open spec fn wf(&self) -> bool {
        &&& self.source().wf()
        &&& self.envelope().wf()
        &&& self.envelope().sample_rate == self.source().rate()
    }

    open spec fn rate(&self) -> u32 {
        self.envelope().sample_rate
    }

    /// A poll that found `c`, then one pull of the wrapped stage that gave `x`.
    open spec fn pulled(&self, after: Self, r: i32) -> bool {
        exists|c: Option<SoundCommands>, x: i32|
            #![trigger self.envelope().after_poll(c).output(x as int)]
            {
                &&& self.source().pulled(after.source(), x)
                &&& r == self.envelope().after_poll(c).output(x as int)
                &&& after.envelope() == self.envelope().after_poll(c).advanced()
                &&& after.outbox() == self.outbox() + Envelope::relayed(c)
            }
    }

    fn next_sample(&mut self) -> (r: i32) {
        self.get_sample()
    }

    fn sample_rate(&self) -> (r: u32) {
        self.env.sample_rate
    }

    fn channels(&self) -> (r: u16) {
        1
    }
}

/// Step `i` of `n` of a ramp that covers `m`: `i * m / n`.
fn part(i: u64, m: u32, n: u64) -> (r: u64)
    requires
        i < n,
    ensures
        r == (i as int * m as int) / (n as int),
        r <= m,
{
    assert(i as int * m as int <= u64::MAX as int * u32::MAX as int) by (nonlinear_arith)
        requires i <= u64::MAX, m <= u32::MAX;
    let r = (i as u128 * m as u128) / n as u128;
    proof {
        lemma_part_le(i as int, m as int, n as int);
    }
    r as u64
}

/// `i * m / n` is at most `m` when `i` is below `n`.
proof fn lemma_part_le(i: int, m: int, n: int)
    requires
        0 <= i < n,
        0 <= m,
    ensures
        0 <= (i * m) / n <= m,
{
    assert(0 <= i * m <= n * m) by (nonlinear_arith)
        requires 0 <= i < n, 0 <= m;
    vstd::arithmetic::div_mod::lemma_div_is_ordered(i * m, n * m, n);
    vstd::arithmetic::div_mod::lemma_div_multiples_vanish(m, n);
    assert(n * m == m * n) by (nonlinear_arith);
    vstd::arithmetic::div_mod::lemma_div_pos_is_pos(i * m, n);
}

/// A sample scaled by a gain between 0 and unity stays a sample.
proof fn lemma_scaled_fits(x: int, g: int)
    requires
        i32::MIN <= x <= i32::MAX,
        0 <= g <= UNIT,
    ensures
        i64::MIN < x * g <= i64::MAX,
        i32::MIN <= (x * g) / (UNIT as int) <= i32::MAX,
{
    assert(-2147483648 * 32768 <= x * g <= 2147483647 * 32768) by (nonlinear_arith)
        requires i32::MIN <= x <= i32::MAX, 0 <= g <= 32768;
    vstd::arithmetic::div_mod::lemma_div_is_ordered(x * g, 2147483647int * 32768, 32768);
    vstd::arithmetic::div_mod::lemma_div_is_ordered(-2147483648int * 32768, x * g, 32768);
}

} // verus!
