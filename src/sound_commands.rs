//! The control surface of the voice: the commands, the queue that carries them
//! and the capability every stage of the chain offers.
use std::sync::mpsc::{Receiver, Sender};
use vstd::prelude::*;

verus! {

/// One control command.
///
/// Frequencies are in millihertz, durations in milliseconds, and gains in
/// units of `UNIT` (a gain of `UNIT` is unity).
#[derive(Clone, Copy, Debug, PartialEq, Eq, Structural)]
pub enum SoundCommands {
    /// Output volume of the waveform generator.
    Vol(i32),
    /// Frequency of the voice, in millihertz.
    Frq(u32),
    /// Cutoff frequency of the low-pass filter, in millihertz.
    Res(u32),
    /// Duration of a frequency glide, in milliseconds.
    LerpTime(u32),
    /// Attack, decay (ms), sustain level (gain), release (ms) of the envelope.
    Adsr(u32, u32, u32, u32),
    /// Note on (`true`) or note off (`false`).
    NotePlaying(bool),
}

#[verifier::external_type_specification]
#[verifier::external_body]
#[verifier::reject_recursive_types(T)]
pub struct ExSender<T>(Sender<T>);

#[verifier::external_type_specification]
#[verifier::external_body]
#[verifier::reject_recursive_types(T)]
pub struct ExReceiver<T>(Receiver<T>);

/// Relies on `std::sync::mpsc::channel`: a new unbounded queue, its sending
/// end and its receiving end.
#[verifier::external_body]
fn open_channel() -> (Sender<SoundCommands>, Receiver<SoundCommands>) {
    std::sync::mpsc::channel()
}

/// Relies on `Sender::send`: queues the command behind those sent before it,
/// without blocking. Where the receiving end is gone the command is dropped.
#[verifier::external_body]
fn send_command(to: &Sender<SoundCommands>, command: SoundCommands) {
    let _ = to.send(command);
}

/// Relies on `Receiver::try_recv`: never blocks; hands back the oldest queued
/// command, or none when the queue is empty or its sender is gone.
#[verifier::external_body]
pub(crate) fn poll_command(from: &Receiver<SoundCommands>) -> Option<SoundCommands> {
    from.try_recv().ok()
}

/// The sending end of a control queue, with the record of every command sent
/// through it.
pub struct Control {
    sender: Sender<SoundCommands>,
    log: Ghost<Seq<SoundCommands>>,
}

impl Control {
    /// The commands sent through this handle, oldest first.
    pub closed spec fn sent(&self) -> Seq<SoundCommands> {
        self.log@
    }

    /// Queues `c` behind the commands sent before it. The call never blocks;
    /// a command for a receiver that is gone is dropped.
    pub fn send(&mut self, c: SoundCommands)
        ensures
            final(self).sent() == old(self).sent().push(c),
    {
        send_command(&self.sender, c);
        self.log = Ghost(self.log@.push(c));
    }
}

/// A new control queue: its sending handle, with nothing sent yet, and its
/// receiving end.
pub fn control_channel() -> (r: (Control, Receiver<SoundCommands>))
    ensures
        r.0.sent() == Seq::<SoundCommands>::empty(),
{
    let (sender, recv) = open_channel();
    (Control { sender, log: Ghost(Seq::empty()) }, recv)
}

/// The commands a stage relays for a poll that found `c`: `c` itself when the
/// stage does not claim it, nothing otherwise.
pub open spec fn relayed(c: Option<SoundCommands>, claimed: bool) -> Seq<SoundCommands> {
    match c {
        Some(cmd) => if claimed { Seq::empty() } else { seq![cmd] },
        None => Seq::empty(),
    }
}

/// A producer of an endless stream of samples.
pub trait SoundMaker: Sized {
    /// The stage, and every stage it wraps, is in a consistent state.
    spec fn wf(&self) -> bool;

    /// Samples per second.
    spec fn rate(&self) -> u32;

    /// One pull can take the stage from `self` to `after`, returning `r`.
    spec fn pulled(&self, after: Self, r: i32) -> bool;

    /// Produces the next sample; a pull never blocks and never ends the stream.
    fn next_sample(&mut self) -> (r: i32)
        requires
            old(self).wf(),
        ensures
            final(self).wf(),
            final(self).rate() == old(self).rate(),
            old(self).pulled(*final(self), r),
    ;

    /// Samples per second.
    fn sample_rate(&self) -> (r: u32)
        requires
            self.wf(),
        ensures
            r == self.rate(),
            r > 0,
    ;

    /// Number of interleaved channels.
    fn channels(&self) -> (r: u16)
        ensures
            r == 1,
    ;
}

/// Asks the stage behind `control` to set its volume.
pub fn set_volume(control: &mut Control, val: i32)
    ensures
        final(control).sent() == old(control).sent().push(SoundCommands::Vol(val)),
{
    control.send(SoundCommands::Vol(val));
}

/// Asks the stage behind `control` to move to a frequency (millihertz).
pub fn set_frequency(control: &mut Control, val: u32)
    ensures
        final(control).sent() == old(control).sent().push(SoundCommands::Frq(val)),
{
    control.send(SoundCommands::Frq(val));
}

/// Asks the stage behind `control` to set the filter cutoff (millihertz).
pub fn set_ressonance(control: &mut Control, val: u32)
    ensures
        final(control).sent() == old(control).sent().push(SoundCommands::Res(val)),
{
    control.send(SoundCommands::Res(val));
}

/// Asks the stage behind `control` to set the glide duration (milliseconds).
pub fn set_lerp_time(control: &mut Control, val: u32)
    ensures
        final(control).sent() == old(control).sent().push(SoundCommands::LerpTime(val)),
{
    control.send(SoundCommands::LerpTime(val));
}

/// Asks the stage behind `control` to set the envelope.
pub fn set_adsr(control: &mut Control, a: u32, d: u32, s: u32, r: u32)
    ensures
        final(control).sent() == old(control).sent().push(SoundCommands::Adsr(a, d, s, r)),
{
    control.send(SoundCommands::Adsr(a, d, s, r));
}

/// Asks the stage behind `control` to start (`true`) or release (`false`) the note.
pub fn set_note_state(control: &mut Control, val: bool)
    ensures
        final(control).sent() == old(control).sent().push(SoundCommands::NotePlaying(val)),
{
    control.send(SoundCommands::NotePlaying(val));
}

} // verus!
