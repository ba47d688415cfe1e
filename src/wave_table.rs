//! The waveform generator: a one-cycle table read at a fractional index.
use std::sync::mpsc::Receiver;
use vstd::prelude::*;
use crate::fixed::{floor_div, saturate, UNIT};
use crate::sound_commands::{control_channel, poll_command, Control, SoundCommands, SoundMaker};

verus! {

/// Entries in a one-cycle table.
pub const TABLE_LEN: usize = 64;

/// Steps between two table entries: the index is held in units of `1 / FRAC`.
pub const FRAC: u64 = 65536;

/// One whole cycle in index units (`TABLE_LEN * FRAC`).
pub const CYCLE: u64 = 4194304;

/// The four shapes a table can hold.
#[derive(Clone, Copy, Debug, PartialEq, Eq, Structural)]
pub enum WaveForm {
    Sine,
    Square,
    Saw,
    Triangle,
}

/// The first quarter of a sine cycle, `sin(2 pi k / 64)` for `k` in `0..=16`,
/// rounded to the sample scale.
pub open spec fn quarter_sine() -> Seq<i32> {
    seq![0i32, 3212, 6393, 9512, 12540, 15447, 18205, 20788, 23170, 25330, 27246, 28899,
         30274, 31357, 32138, 32610, 32768]
}

/// Entry `n` of the sine table, from the quarter cycle by symmetry.
pub open spec fn sine_at(n: int) -> int {
    if n <= 16 {
        quarter_sine()[n] as int
    } else if n <= 32 {
        quarter_sine()[32 - n] as int
    } else if n <= 48 {
        -quarter_sine()[n - 32]
    } else {
        -quarter_sine()[64 - n]
    }
}

/// Entry `n` of the table of a shape.
pub open spec fn wave_at(form: WaveForm, n: int) -> int {
    match form {
        WaveForm::Sine => sine_at(n),
        // the sign of the sine, taken as positive at zero
        WaveForm::Square => if n < 32 { UNIT as int } else { -UNIT },
        // rises from -1 to 1 over the first half, falls back over the second
        WaveForm::Triangle => if n < 32 { (n - 16) * 2048 } else { (48 - n) * 2048 },
        // rises from 0 over the first half; the second half mirrors it, negated
        WaveForm::Saw => if n < 32 { n * 1024 } else { -(63 - n) * 1024 },
    }
}

/// The table of a shape.
pub open spec fn wave_table_of(form: WaveForm) -> Seq<i32> {
    Seq::new(TABLE_LEN as nat, |n: int| wave_at(form, n) as i32)
}

/// Index step per sample for a frequency in millihertz:
/// `freq * TABLE_LEN / sample_rate`, in index units.
pub open spec fn increment_for(freq: u32, sample_rate: u32) -> int {
    (freq as int * CYCLE) / (sample_rate as int * 1000)
}

/// Linear interpolation between the two entries around `index`; the entry
/// after the last is the first.
pub open spec fn interpolate(table: Seq<i32>, index: int) -> int {
    let i = index / FRAC as int;
    let w = index % FRAC as int;
    let j = (i + 1) % TABLE_LEN as int;
    ((FRAC - w) * table[i] + w * table[j]) / FRAC as int
}

/// What the generator is, as numbers.
pub ghost struct WaveModel {
    pub table: Seq<i32>,
    pub sample_rate: u32,
    pub volume: i32,
    pub index: int,
    pub increment: int,
}

impl WaveModel {
    /// A consistent generator: a full table of samples, a positive rate, the
    /// index within one cycle and a bounded step.
    pub open spec fn valid(self) -> bool {
        &&& self.sample_rate > 0
        &&& self.table.len() == TABLE_LEN
        &&& forall|k: int| 0 <= k < TABLE_LEN ==> -UNIT <= #[trigger] self.table[k] <= UNIT
        &&& 0 <= self.index < CYCLE
        &&& 0 <= self.increment <= 4294967295 * 4194304 / 1000
    }

    /// The model after a command: frequency and volume are applied, the rest
    /// is absorbed.
    pub open spec fn after_command(self, c: SoundCommands) -> WaveModel {
        match c {
            SoundCommands::Frq(f) => WaveModel { increment: increment_for(f, self.sample_rate), ..self },
            SoundCommands::Vol(v) => WaveModel { volume: v, ..self },
            _ => self,
        }
    }

    pub open spec fn after_poll(self, c: Option<SoundCommands>) -> WaveModel {
        match c {
            Some(cmd) => self.after_command(cmd),
            None => self,
        }
    }

    /// The sample the next pull returns.
    pub open spec fn output(self) -> int {
        saturate((interpolate(self.table, self.index) * self.volume) / (UNIT as int))
    }

    /// The model after a pull: the index moves on by the increment, modulo a cycle.
    pub open spec fn advanced(self) -> WaveModel {
        WaveModel { index: (self.index + self.increment) % (CYCLE as int), ..self }
    }

    /// The model after `k` pulls that find no command.
    pub open spec fn advanced_by(self, k: nat) -> WaveModel
        decreases k,
    {
        if k == 0 {
            self
        } else {
            self.advanced_by((k - 1) as nat).advanced()
        }
    }
}

/// With no command in between, the index after `k` pulls is the start index
/// plus `k` increments, modulo one cycle; so whenever `k` increments make a
/// whole number of cycles, the output repeats after `k` pulls. The output
/// period is thus `CYCLE / increment` pulls, and the increment for a frequency
/// `f` is `f * CYCLE / (sample_rate * 1000)`: `sample_rate / f` pulls.
pub proof fn lemma_phase_after(m: WaveModel, k: nat)
    requires
        0 <= m.index < CYCLE,
        0 <= m.increment,
    ensures
        m.advanced_by(k).index == (m.index + k * m.increment) % (CYCLE as int),
        m.advanced_by(k).table == m.table,
        m.advanced_by(k).volume == m.volume,
        m.advanced_by(k).increment == m.increment,
        (k * m.increment) % (CYCLE as int) == 0 ==> m.advanced_by(k).output() == m.output(),
    decreases k,
{
    let c = CYCLE as int;
    if k == 0 {
        vstd::arithmetic::div_mod::lemma_small_mod(m.index as nat, c as nat);
    } else {
        lemma_phase_after(m, (k - 1) as nat);
        let a = m.index + (k - 1) * m.increment;
        vstd::arithmetic::div_mod::lemma_add_mod_noop_right(m.increment, a, c);
        assert(a + m.increment == m.index + k * m.increment) by (nonlinear_arith)
            requires a == m.index + (k - 1) * m.increment;
        assert(m.increment + a == a + m.increment);
    }
    if (k * m.increment) % c == 0 {
        vstd::arithmetic::div_mod::lemma_add_mod_noop(m.index, k * m.increment, c);
        vstd::arithmetic::div_mod::lemma_small_mod(m.index as nat, c as nat);
    }
}

/// Sending the same volume twice leaves the generator as sending it once, so
/// every later pull scales identically.
pub proof fn lemma_volume_idempotent(m: WaveModel, v: i32)
    ensures
        m.after_command(SoundCommands::Vol(v)).after_command(SoundCommands::Vol(v))
            == m.after_command(SoundCommands::Vol(v)),
        m.after_command(SoundCommands::Vol(v)).volume == v,
{
}

/// The waveform generator: the innermost stage of a chain.
pub struct WaveTable {
    sample_rate: u32,
    wave_table: Vec<i32>,
    volume: i32,
    index: u64,
    index_increment: u64,
    recv: Receiver<SoundCommands>,
}

impl WaveTable {
    pub closed spec fn model(&self) -> WaveModel {
        WaveModel {
            table: self.wave_table@,
            sample_rate: self.sample_rate,
            volume: self.volume,
            index: self.index as int,
            increment: self.index_increment as int,
        }
    }

    /// A generator of `wave_form` at `sample_rate`, silent until it is given
    /// a frequency, at a tenth of full volume; hands back the generator and
    /// the sending end of its control queue.
    pub fn new(sample_rate: u32, wave_form: WaveForm) -> (r: (WaveTable, Control))
        requires
            sample_rate > 0,
        ensures
            r.0.wf(),
            r.0.rate() == sample_rate,
            r.1.sent() == Seq::<SoundCommands>::empty(),
            r.0.model() == (WaveModel {
                table: wave_table_of(wave_form),
                sample_rate,
                volume: (UNIT / 10) as i32,
                index: 0,
                increment: 0,
            }),
    {
        let (send, recv) = control_channel();
        let wave_table = match wave_form {
            WaveForm::Sine => gen_sine_wavetable(),
            WaveForm::Square => gen_square_wavetable(),
            WaveForm::Saw => gen_saw_wavetable(),
            WaveForm::Triangle => gen_triangle_wavetable(),
        };
        let ret = WaveTable {
            sample_rate,
            wave_table,
            volume: UNIT / 10,
            index: 0,
            index_increment: 0,
            recv,
        };
        (ret, send)
    }

    /// The output volume.
    pub fn volume(&self) -> (r: i32)
        ensures
            r == self.model().volume,
    {
        self.volume
    }

    /// The fractional read index, in index units.
    pub fn index(&self) -> (r: u64)
        ensures
            r == self.model().index,
    {
        self.index
    }

    /// The index step per sample, in index units.
    pub fn index_increment(&self) -> (r: u64)
        ensures
            r == self.model().increment,
    {
        self.index_increment
    }

    /// The one-cycle table.
    pub fn table(&self) -> (r: &Vec<i32>)
        ensures
            r@ == self.model().table,
    {
        &self.wave_table
    }

    /// Sets the index step for a frequency in millihertz.
    pub fn set_frequency(&mut self, frequency: u32)
        requires
            old(self).wf(),
        ensures
            final(self).wf(),
            final(self).model() == old(self).model().after_command(SoundCommands::Frq(frequency)),
    {
        assert(frequency as int * CYCLE <= 4294967295 * 4194304) by (nonlinear_arith)
            requires frequency <= 4294967295;
        assert(self.sample_rate as int * 1000 >= 1000) by (nonlinear_arith)
            requires self.sample_rate >= 1;
        let num: u64 = frequency as u64 * CYCLE;
        let den: u64 = self.sample_rate as u64 * 1000;
        proof {
            vstd::arithmetic::div_mod::lemma_div_is_ordered_by_denominator(num as int, 1000, den as int);
            vstd::arithmetic::div_mod::lemma_div_is_ordered(num as int, 4294967295int * 4194304, 1000);
        }
        self.index_increment = num / den;
    }

    /// Sets the output volume.
    pub fn set_volume(&mut self, volume: i32)
        requires
            old(self).wf(),
        ensures
            final(self).wf(),
            final(self).model() == old(self).model().after_command(SoundCommands::Vol(volume)),
    {
        self.volume = volume;
    }

    /// Applies a frequency or volume command; any other is absorbed.
    pub fn handle_command(&mut self, command: Option<SoundCommands>)
        requires
            old(self).wf(),
        ensures
            final(self).wf(),
            final(self).model() == old(self).model().after_poll(command),
    {
        match command {
            Some(SoundCommands::Frq(f)) => self.set_frequency(f),
            Some(SoundCommands::Vol(v)) => self.set_volume(v),
            _ => {},
        }
    }

    /// The interpolated table value at the current index.
    pub fn lerp(&self) -> (r: i32)
        requires
            self.wf(),
        ensures
            r == interpolate(self.model().table, self.model().index),
            -UNIT <= r <= UNIT,
    {
        let i = (self.index / FRAC) as usize;
        let w = (self.index % FRAC) as i64;
        let j = (i + 1) % TABLE_LEN;
        let a = self.wave_table[i] as i64;
        let b = self.wave_table[j] as i64;
        proof {
            lemma_interpolate_bounded(a as int, b as int, w as int);
            assert(-UNIT <= self.wave_table@[j as int] <= UNIT);
            assert(-UNIT <= self.wave_table@[i as int] <= UNIT);
        }
        assert(-32768 * 65536 <= (FRAC as i64 - w) * a <= 32768 * 65536) by (nonlinear_arith)
            requires -32768 <= a <= 32768, 0 <= w < 65536;
        assert(-32768 * 65536 <= w * b <= 32768 * 65536) by (nonlinear_arith)
            requires -32768 <= b <= 32768, 0 <= w < 65536;
        floor_div((FRAC as i64 - w) * a + w * b, FRAC as i64) as i32
    }

    /// Takes at most one command from the control queue, then returns the
    /// interpolated value scaled by the volume and moves the index on.
    pub fn get_sample(&mut self) -> (r: i32)
        requires
            old(self).wf(),
        ensures
            final(self).wf(),
            final(self).rate() == old(self).rate(),
            old(self).pulled(*final(self), r),
    {
        let ghost m0 = self.model();
        let command = poll_command(&self.recv);
        self.handle_command(command);
        let r = self.pull();
        assert(r == m0.after_poll(command).output());
        r
    }

    /// Returns the interpolated value scaled by the volume and moves the index on.
    pub fn pull(&mut self) -> (r: i32)
        requires
            old(self).wf(),
        ensures
            final(self).wf(),
            r == old(self).model().output(),
            final(self).model() == old(self).model().advanced(),
    {
        let s = self.lerp() as i64;
        assert(-32768 * 2147483648 <= s * self.volume <= 32768 * 2147483648) by (nonlinear_arith)
            requires -32768 <= s <= 32768, i32::MIN <= self.volume <= i32::MAX;
        let v = floor_div(s * self.volume as i64, UNIT as i64);
        let out: i32 = if v > i32::MAX as i64 {
            i32::MAX
        } else if v < i32::MIN as i64 {
            i32::MIN
        } else {
            v as i32
        };
        assert(self.index_increment <= 4294967295 * 4194304 / 1000);
        self.index = (self.index + self.index_increment) % CYCLE;
        out
    }
}

impl SoundMaker for WaveTable {
    open spec fn wf(&self) -> bool {
        self.model().valid()
    }

    open spec fn rate(&self) -> u32 {
        self.model().sample_rate
    }

    open spec fn pulled(&self, after: Self, r: i32) -> bool {
        exists|c: Option<SoundCommands>|
            #![trigger self.model().after_poll(c)]
            {
                &&& r == self.model().after_poll(c).output()
                &&& after.model() == self.model().after_poll(c).advanced()
            }
    }

    fn next_sample(&mut self) -> (r: i32) {
        self.get_sample()
    }

    fn sample_rate(&self) -> (r: u32) {
        self.sample_rate
    }

    fn channels(&self) -> (r: u16) {
        1
    }
}

/// Interpolating between two entries of the sample scale stays on it.
proof fn lemma_interpolate_bounded(a: int, b: int, w: int)
    requires
        -UNIT <= a <= UNIT,
        -UNIT <= b <= UNIT,
        0 <= w < FRAC,
    ensures
        -UNIT * FRAC <= (FRAC - w) * a + w * b <= UNIT * FRAC,
        -UNIT <= ((FRAC - w) * a + w * b) / FRAC as int <= UNIT,
{
    let s = (FRAC - w) * a + w * b;
    assert(-32768 * 65536 <= s <= 32768 * 65536) by (nonlinear_arith)
        requires s == (65536 - w) * a + w * b, -32768 <= a <= 32768, -32768 <= b <= 32768, 0 <= w < 65536;
    vstd::arithmetic::div_mod::lemma_div_is_ordered(s, 32768int * 65536, 65536);
    vstd::arithmetic::div_mod::lemma_div_is_ordered(-32768int * 65536, s, 65536);
}

fn gen_sine_wavetable() -> (t: Vec<i32>)
    ensures
        t@ == wave_table_of(WaveForm::Sine),
{
    let q: Vec<i32> = vec![0i32, 3212, 6393, 9512, 12540, 15447, 18205, 20788, 23170, 25330, 27246,
        28899, 30274, 31357, 32138, 32610, 32768];
    assert(q@ =~= quarter_sine());
    let mut t: Vec<i32> = Vec::new();
    let mut n: usize = 0;
    while n < TABLE_LEN
        invariant
            n <= TABLE_LEN,
            q@ == quarter_sine(),
            t@.len() == n,
            forall|k: int| 0 <= k < n ==> t@[k] == wave_at(WaveForm::Sine, k),
        decreases TABLE_LEN - n,
    {
        let v = if n <= 16 {
            q[n]
        } else if n <= 32 {
            q[32 - n]
        } else if n <= 48 {
            -q[n - 32]
        } else {
            -q[64 - n]
        };
        t.push(v);
        n = n + 1;
    }
    assert(t@ =~= wave_table_of(WaveForm::Sine));
    t
}

fn gen_square_wavetable() -> (t: Vec<i32>)
    ensures
        t@ == wave_table_of(WaveForm::Square),
{
    let mut t: Vec<i32> = Vec::new();
    let mut n: usize = 0;
    while n < TABLE_LEN
        invariant
            n <= TABLE_LEN,
            t@.len() == n,
            forall|k: int| 0 <= k < n ==> t@[k] == wave_at(WaveForm::Square, k),
        decreases TABLE_LEN - n,
    {
        t.push(if n < 32 { UNIT } else { -UNIT });
        n = n + 1;
    }
    assert(t@ =~= wave_table_of(WaveForm::Square));
    t
}

fn gen_triangle_wavetable() -> (t: Vec<i32>)
    ensures
        t@ == wave_table_of(WaveForm::Triangle),
{
    let mut t: Vec<i32> = Vec::new();
    let mut n: usize = 0;
    while n < TABLE_LEN
        invariant
            n <= TABLE_LEN,
            t@.len() == n,
            forall|k: int| 0 <= k < n ==> t@[k] == wave_at(WaveForm::Triangle, k),
        decreases TABLE_LEN - n,
    {
        let m = n as i32;
        t.push(if n < 32 { (m - 16) * 2048 } else { (48 - m) * 2048 });
        n = n + 1;
    }
    assert(t@ =~= wave_table_of(WaveForm::Triangle));
    t
}

fn gen_saw_wavetable() -> (t: Vec<i32>)
    ensures
        t@ == wave_table_of(WaveForm::Saw),
{
    let mut t: Vec<i32> = Vec::new();
    let mut n: usize = 0;
    while n < TABLE_LEN
        invariant
            n <= TABLE_LEN,
            t@.len() == n,
            forall|k: int| 0 <= k < n ==> t@[k] == wave_at(WaveForm::Saw, k),
        decreases TABLE_LEN - n,
    {
        let m = n as i32;
        t.push(if n < 32 { m * 1024 } else { -(63 - m) * 1024 });
        n = n + 1;
    }
    assert(t@ =~= wave_table_of(WaveForm::Saw));
    t
}

} // verus!
