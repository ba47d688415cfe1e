//! How commands travel along a chain of stages.
use vstd::prelude::*;
use crate::adsr::Envelope;
use crate::lerp_note::Glide;
use crate::low_pass_filter::Filter;
use crate::sound_commands::SoundCommands;
use crate::wave_table::WaveModel;

verus! {

/// A wrapping stage leaves its own state as it was on a command it does not
/// claim; its `handle_command` adds that command, unchanged, to what it sends
/// to the stage it wraps (`relayed`). A volume is not claimed by the filter,
/// leaves the filter as it was, is relayed as it is, and sets the volume of a
/// generator that applies it.
pub proof fn lemma_relay(f: Filter, e: Envelope, g: Glide, m: WaveModel, c: SoundCommands, v: i32)
    ensures
        !Filter::claims(c) ==> f.after_command(c) == f,
        !Envelope::claims(c) ==> e.after_command(c) == e,
        !Glide::claims(c) ==> g.after_command(c) == g,
        !Filter::claims(SoundCommands::Vol(v)),
        Filter::relayed(Some(SoundCommands::Vol(v))) == seq![SoundCommands::Vol(v)],
        f.after_command(SoundCommands::Vol(v)) == f,
        m.after_command(SoundCommands::Vol(v)).volume == v,
{
}

} // verus!
