//! The voice that keeps the output mixer busy from its start.
use vstd::prelude::*;
use crate::sound_commands::{Control, SoundCommands, SoundMaker};
use crate::wave_table::{wave_table_of, WaveForm, WaveModel, WaveTable};

verus! {

/// Sample rate of the output mixer.
pub const MIXER_RATE: u32 = 44100;

/// Builds the silent voice that a new mixer plays first: a square wave at the
/// mixer's rate, at 0 Hz and zero volume.
pub fn init_mixer() -> (r: (WaveTable, Control))
    ensures
        r.0.wf(),
        r.0.rate() == MIXER_RATE,
        r.1.sent() == Seq::<SoundCommands>::empty(),
        r.0.model() == (WaveModel {
            table: wave_table_of(WaveForm::Square),
            sample_rate: MIXER_RATE,
            volume: 0,
            index: 0,
            increment: 0,
        }),
{
    let (mut osc, ctrl) = WaveTable::new(MIXER_RATE, WaveForm::Square);
    osc.set_frequency(0);
    osc.set_volume(0);
    (osc, ctrl)
}

} // verus!
