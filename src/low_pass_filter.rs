//! The one-pole low-pass filter and its stage.
use std::sync::mpsc::Receiver;
use vstd::prelude::*;
use crate::fixed::{floor_div, UNIT};
use crate::sound_commands::{control_channel, poll_command, relayed, Control, SoundCommands, SoundMaker};

verus! {

/// Cutoff of a new filter, in millihertz.
pub const DEFAULT_CUTOFF: u32 = 110000;

/// Numerator of the rational that stands for two pi (710 / 113).
pub const TWO_PI_NUM: u64 = 710;

/// Denominator of the rational that stands for two pi, times 1000 for millihertz.
pub const TWO_PI_DEN_MILLI: u64 = 113000;

/// The smoothing factor `dt / (rc + dt)`, with `rc = 1 / (2 pi cutoff)` and
/// `dt = 1 / sample_rate`, as a gain: `2 pi fc / (2 pi fc + sample_rate)`.
pub open spec fn alpha_for(cutoff: u32, sample_rate: u32) -> int {
    (UNIT as int * TWO_PI_NUM * cutoff) / (TWO_PI_NUM * cutoff + TWO_PI_DEN_MILLI * sample_rate)
}

/// The filter's output for input `x` after the previous output `prev`.
pub open spec fn filtered(alpha: int, prev: Option<i32>, x: int) -> int {
    match prev {
        None => (alpha * x) / (UNIT as int),
        Some(p) => p + (alpha * (x - p)) / (UNIT as int),
    }
}

/// State of the filter: its cutoff, the smoothing factor it gives, and the
/// last output (none before the first sample).
#[derive(Clone, Copy, Debug, PartialEq, Eq, Structural)]
pub struct Filter {
    pub sample_rate: u32,
    pub cutoff: u32,
    pub alpha: u32,
    pub last_sample: Option<i32>,
}

impl Filter {
    pub open spec fn wf(self) -> bool {
        &&& self.sample_rate > 0
        &&& self.alpha == alpha_for(self.cutoff, self.sample_rate)
    }

    /// Whether the filter claims a command (the others are relayed inward).
    pub open spec fn claims(c: SoundCommands) -> bool {
        c is Res
    }

    /// What the stage sends inward for a poll that found `c`.
    pub open spec fn relayed(c: Option<SoundCommands>) -> Seq<SoundCommands> {
        relayed(c, match c { Some(cmd) => Filter::claims(cmd), None => true })
    }

    /// The filter after a command.
    pub open spec fn after_command(self, c: SoundCommands) -> Filter {
        match c {
            SoundCommands::Res(f) => Filter {
                cutoff: f,
                alpha: alpha_for(f, self.sample_rate) as u32,
                ..self
            },
            _ => self,
        }
    }

    /// The filter after a poll of its control queue.
    pub open spec fn after_poll(self, c: Option<SoundCommands>) -> Filter {
        match c {
            Some(cmd) => self.after_command(cmd),
            None => self,
        }
    }

    /// What a pull makes of the sample `x`.
    pub open spec fn output(self, x: int) -> int {
        filtered(self.alpha as int, self.last_sample, x)
    }

    /// A silent filter at the default cutoff.
    pub fn new(sample_rate: u32) -> (r: Filter)
        requires
            sample_rate > 0,
        ensures
            r.wf(),
            r.sample_rate == sample_rate,
            r.cutoff == DEFAULT_CUTOFF,
            r.last_sample.is_none(),
    {
        Filter {
            sample_rate,
            cutoff: DEFAULT_CUTOFF,
            alpha: alpha_of(DEFAULT_CUTOFF, sample_rate),
            last_sample: None,
        }
    }

    /// Applies a command that the filter claims, and hands back the others.
    pub fn apply(&mut self, c: SoundCommands) -> (fwd: Option<SoundCommands>)
        requires
            old(self).wf(),
        ensures
            *final(self) == old(self).after_command(c),
            final(self).wf(),
            fwd == (if Filter::claims(c) { None } else { Some(c) }),
    {
        match c {
            SoundCommands::Res(f) => {
                self.set_cutoff_frequency(f);
                None
            },
            _ => Some(c),
        }
    }

    /// Sets the cutoff (millihertz) and the smoothing factor it gives.
    pub fn set_cutoff_frequency(&mut self, freq: u32)
        requires
            old(self).wf(),
        ensures
            *final(self) == old(self).after_command(SoundCommands::Res(freq)),
            final(self).wf(),
    {
        self.cutoff = freq;
        self.alpha = alpha_of(freq, self.sample_rate);
    }

    /// Filters one sample and keeps the output for the next.
    pub fn step(&mut self, x: i32) -> (r: i32)
        requires
            old(self).wf(),
        ensures
            r == old(self).output(x as int),
            final(self).last_sample == Some(r),
            final(self).sample_rate == old(self).sample_rate,
            final(self).cutoff == old(self).cutoff,
            final(self).alpha == old(self).alpha,
            final(self).wf(),
    {
        let a = self.alpha as i64;
        proof {
            lemma_alpha_below_unit(self.cutoff, self.sample_rate);
        }
        let out: i32 = match self.last_sample {
            None => {
                proof {
                    lemma_smooth_between(a as int, 0, x as int);
                }
                floor_div(a * x as i64, UNIT as i64) as i32
            },
            Some(p) => {
                proof {
                    lemma_smooth_between(a as int, p as int, x as int);
                }
                let d = x as i64 - p as i64;
                assert(-4294967296 <= d <= 4294967296);
                assert(-4294967296 * 32768 <= a * d <= 4294967296 * 32768) by (nonlinear_arith)
                    requires -4294967296 <= d <= 4294967296, 0 <= a <= 32768;
                (p as i64 + floor_div(a * d, UNIT as i64)) as i32
            },
        };
        self.last_sample = Some(out);
        out
    }
}

/// The smoothing factor for a cutoff, computed.
fn alpha_of(cutoff: u32, sample_rate: u32) -> (a: u32)
    requires
        sample_rate > 0,
    ensures
        a == alpha_for(cutoff, sample_rate),
{
    let w: u64 = TWO_PI_NUM * cutoff as u64;
    assert(TWO_PI_DEN_MILLI * sample_rate as int <= 113000 * 4294967295) by (nonlinear_arith)
        requires sample_rate <= 4294967295;
    let den: u64 = w + TWO_PI_DEN_MILLI * sample_rate as u64;
    proof {
        lemma_alpha_below_unit(cutoff, sample_rate);
    }
    assert(UNIT as int * w <= 32768 * 710 * 4294967295) by (nonlinear_arith)
        requires w == 710 * cutoff, cutoff <= 4294967295;
    ((UNIT as u64 * w) / den) as u32
}

/// The smoothing factor lies in `[0, UNIT)`.
proof fn lemma_alpha_below_unit(cutoff: u32, sample_rate: u32)
    requires
        sample_rate > 0,
    ensures
        0 <= alpha_for(cutoff, sample_rate) < UNIT,
{
    let w = TWO_PI_NUM * cutoff;
    let den = w + TWO_PI_DEN_MILLI * sample_rate;
    let n = UNIT as int * w;
    assert(den > w);
    vstd::arithmetic::div_mod::lemma_fundamental_div_mod(n, den);
    vstd::arithmetic::div_mod::lemma_div_pos_is_pos(n, den);
    let q = n / den;
    assert(q < UNIT) by (nonlinear_arith)
        requires n == den * q + n % den, 0 <= n % den, n == 32768 * w, den > w, w >= 0, q >= 0;
    assert(UNIT as int * TWO_PI_NUM * cutoff == n) by (nonlinear_arith)
        requires n == UNIT as int * w, w == TWO_PI_NUM * cutoff;
}

/// One smoothing step lands between the previous output and the input.
pub proof fn lemma_smooth_between(a: int, p: int, x: int)
    requires
        0 <= a < UNIT,
    ensures
        x >= p ==> p <= p + (a * (x - p)) / (UNIT as int) <= x,
        x < p ==> x <= p + (a * (x - p)) / (UNIT as int) <= p,
{
    let d = x - p;
    let q = (a * d) / (UNIT as int);
    vstd::arithmetic::div_mod::lemma_fundamental_div_mod(a * d, UNIT as int);
    let r = (a * d) % (UNIT as int);
    assert(a * d == UNIT as int * q + r && 0 <= r < UNIT);
    if d >= 0 {
        assert(0 <= q <= d) by (nonlinear_arith)
            requires a * d == 32768 * q + r, 0 <= r < 32768, 0 <= a < 32768, d >= 0;
    } else {
        assert(d <= q <= 0) by (nonlinear_arith)
            requires a * d == 32768 * q + r, 0 <= r < 32768, 0 <= a < 32768, d < 0;
    }
}

/// Step response: from silence the first output is `alpha * x`; after that,
/// for a constant input `x` each output lies between the previous one and `x`,
/// and the distance to `x` shrinks by the factor `1 - alpha` at each pull, up
/// to one unit of rounding.
pub proof fn lemma_step_response(f: Filter, x: i32)
    requires
        f.wf(),
    ensures
        f.last_sample.is_none() ==> f.output(x as int) == (f.alpha * x) / (UNIT as int),
        f.last_sample.is_some() ==> {
            let p = f.last_sample.unwrap();
            let out = f.output(x as int);
            &&& (x >= p ==> p <= out <= x && UNIT * (x - out) <= (UNIT - f.alpha) * (x - p) + UNIT)
            &&& (x < p ==> x <= out <= p && UNIT * (out - x) <= (UNIT - f.alpha) * (p - x))
        },
{
    lemma_alpha_below_unit(f.cutoff, f.sample_rate);
    if let Some(p) = f.last_sample {
        let a = f.alpha as int;
        let u = UNIT as int;
        let d = x - p;
        lemma_smooth_between(a, p as int, x as int);
        vstd::arithmetic::div_mod::lemma_fundamental_div_mod(a * d, u);
        let q = (a * d) / u;
        let r = (a * d) % u;
        assert(0 <= r < u);
        if d >= 0 {
            assert(u * (d - q) <= (u - a) * d + u) by (nonlinear_arith)
                requires a * d == u * q + r, 0 <= r < u, u == 32768;
        } else {
            assert(u * (q - d) <= (u - a) * (-d)) by (nonlinear_arith)
                requires a * d == u * q + r, 0 <= r < u, u == 32768;
        }
    }
}

/// The low-pass filter as a stage of the chain.
pub struct LowPassFilter<T: SoundMaker> {
    source: T,
    filter: Filter,
    recv: Receiver<SoundCommands>,
    other_control: Control,
}

impl<T: SoundMaker> LowPassFilter<T> {
    pub closed spec fn filter(&self) -> Filter {
        self.filter
    }

    pub closed spec fn source(&self) -> T {
        self.source
    }

    /// The commands this stage has sent to the stage it wraps.
    pub closed spec fn outbox(&self) -> Seq<SoundCommands> {
        self.other_control.sent()
    }

    /// The state of the filter.
    pub fn filter_state(&self) -> (r: Filter)
        ensures
            r == self.filter(),
    {
        self.filter
    }

    /// The wrapped stage.
    pub fn inner(&self) -> (r: &T)
        ensures
            *r == self.source(),
    {
        &self.source
    }

    /// Wraps `source`, whose commands go through `other_control`; hands back
    /// the stage and the sending handle of its own control queue.
    pub fn new(input: (T, Control)) -> (r: (Self, Control))
        requires
            input.0.wf(),
        ensures
            r.0.wf(),
            r.0.rate() == input.0.rate(),
            r.0.filter() == (Filter {
                sample_rate: input.0.rate(),
                cutoff: DEFAULT_CUTOFF,
                alpha: alpha_for(DEFAULT_CUTOFF, input.0.rate()) as u32,
                last_sample: None,
            }),
            r.0.source() == input.0,
            r.0.outbox() == input.1.sent(),
            r.1.sent() == Seq::<SoundCommands>::empty(),
    {
        let (source, other_control) = input;
        let sample_rate = source.sample_rate();
        let (send, recv) = control_channel();
        let ret = LowPassFilter { source, filter: Filter::new(sample_rate), recv, other_control };
        (ret, send)
    }

    /// Applies a command to the filter; one it does not claim is sent on to
    /// the wrapped stage, and handed back.
    pub fn handle_command(&mut self, command: Option<SoundCommands>) -> (fwd: Option<SoundCommands>)
        requires
            old(self).wf(),
        ensures
            final(self).wf(),
            final(self).source() == old(self).source(),
            final(self).filter() == old(self).filter().after_poll(command),
            final(self).outbox() == old(self).outbox() + Filter::relayed(command),
            fwd == (match command {
                Some(c) => if Filter::claims(c) { None } else { Some(c) },
                None => None,
            }),
    {
        match command {
            Some(c) => {
                let fwd = self.filter.apply(c);
                if let Some(f) = fwd {
                    self.other_control.send(f);
                }
                fwd
            },
            None => None,
        }
    }

    /// Takes at most one command from the control queue, then pulls one
    /// sample from the wrapped stage and filters it.
    pub fn get_sample(&mut self) -> (r: i32)
        requires
            old(self).wf(),
        ensures
            final(self).wf(),
            final(self).rate() == old(self).rate(),
            old(self).pulled(*final(self), r),
    {
        let ghost s0 = *self;
        let command = poll_command(&self.recv);
        self.handle_command(command);
        let ghost f = self.filter;
        let x = self.source.next_sample();
        let r = self.filter.step(x);
        assert(r == s0.filter().after_poll(command).output(x as int));
        assert(self.filter == (Filter { last_sample: Some(r), ..f }));
        r
    }
}

impl<T: SoundMaker> SoundMaker for LowPassFilter<T> {
    open spec fn wf(&self) -> bool {
        &&& self.source().wf()
        &&& self.filter().wf()
        &&& self.filter().sample_rate == self.source().rate()
    }

    open spec fn rate(&self) -> u32 {
        self.filter().sample_rate
    }

    /// A poll that found `c`, then one pull of the wrapped stage that gave `x`.
    open spec fn pulled(&self, after: Self, r: i32) -> bool {
        exists|c: Option<SoundCommands>, x: i32|
            #![trigger self.filter().after_poll(c).output(x as int)]
            {
                &&& self.source().pulled(after.source(), x)
                &&& r == self.filter().after_poll(c).output(x as int)
                &&& after.filter() == (Filter {
                    last_sample: Some(r),
                    ..self.filter().after_poll(c)
                })
                &&& after.outbox() == self.outbox() + Filter::relayed(c)
            }
    }

    fn next_sample(&mut self) -> (r: i32) {
        self.get_sample()
    }

    fn sample_rate(&self) -> (r: u32) {
        self.filter.sample_rate
    }

    fn channels(&self) -> (r: u16) {
        1
    }
}

} // verus!
