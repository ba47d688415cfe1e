use synth_voice::adsr::{Adsr, Envelope};
use synth_voice::fixed::{floor_div, UNIT};
use synth_voice::lerp_note::{Glide, Lerp};
use synth_voice::low_pass_filter::{Filter, LowPassFilter};
use synth_voice::play_source::init_mixer;
use synth_voice::sound_commands::{
    set_adsr, set_frequency, set_lerp_time, set_note_state, set_ressonance, set_volume,
    Control, SoundCommands, SoundMaker,
};
use synth_voice::wave_table::{WaveForm, WaveTable};

fn pull_n<S: SoundMaker>(s: &mut S, n: usize) -> Vec<i32> {
    (0..n).map(|_| s.next_sample()).collect()
}

#[test]
fn floor_div_rounds_down() {
    assert_eq!(floor_div(7, 2), 3);
    assert_eq!(floor_div(-7, 2), -4);
    assert_eq!(floor_div(-8, 2), -4);
    assert_eq!(floor_div(0, 5), 0);
}

#[test]
fn tables_have_their_shapes() {
    let (sine, _c1) = WaveTable::new(44100, WaveForm::Sine);
    let t = sine.table();
    assert_eq!(t.len(), 64);
    assert_eq!(t[0], 0);
    assert_eq!(t[16], UNIT);
    assert_eq!(t[32], 0);
    assert_eq!(t[48], -UNIT);
    assert_eq!(t[8], 23170);
    assert_eq!(t[56], -23170);

    let (square, _c2) = WaveTable::new(44100, WaveForm::Square);
    assert_eq!(square.table()[0], UNIT);
    assert_eq!(square.table()[31], UNIT);
    assert_eq!(square.table()[32], -UNIT);
    assert_eq!(square.table()[63], -UNIT);

    let (tri, _c3) = WaveTable::new(44100, WaveForm::Triangle);
    assert_eq!(tri.table()[0], -UNIT);
    assert_eq!(tri.table()[16], 0);
    assert_eq!(tri.table()[32], UNIT);
    assert_eq!(tri.table()[48], 0);

    let (saw, _c4) = WaveTable::new(44100, WaveForm::Saw);
    assert_eq!(saw.table()[0], 0);
    assert_eq!(saw.table()[31], 31 * 1024);
    assert_eq!(saw.table()[32], -31 * 1024);
    assert_eq!(saw.table()[63], 0);
}

#[test]
fn frequency_sets_index_increment() {
    let (mut osc, mut ctrl) = WaveTable::new(44100, WaveForm::Sine);
    set_frequency(&mut ctrl, 440000);
    osc.get_sample();
    // 440 Hz * 64 entries * 65536 / 44100 Hz, rounded down
    assert_eq!(osc.index_increment(), 41847);
    assert_eq!(osc.index(), 41847);
}

#[test]
fn sine_generator_follows_sine() {
    let (mut osc, mut ctrl) = WaveTable::new(44100, WaveForm::Sine);
    set_volume(&mut ctrl, UNIT);
    set_frequency(&mut ctrl, 220000);
    osc.get_sample();
    for n in 0..4000 {
        let s = osc.get_sample() as f64 / UNIT as f64;
        let expected = (2.0 * std::f64::consts::PI * 220.0 * n as f64 / 44100.0).sin();
        assert!((s - expected).abs() <= 0.05, "sample {} was {} not {}", n, s, expected);
    }
}

#[test]
fn sine_period_matches_frequency() {
    let (mut osc, mut ctrl) = WaveTable::new(44100, WaveForm::Sine);
    set_volume(&mut ctrl, UNIT);
    set_frequency(&mut ctrl, 441000);
    let samples = pull_n(&mut osc, 2002);
    let mut rises: Vec<usize> = vec![];
    for i in 1..samples.len() {
        if samples[i - 1] < 0 && samples[i] >= 0 {
            rises.push(i);
        }
    }
    assert!(rises.len() >= 19);
    for w in rises.windows(2) {
        let gap = w[1] - w[0];
        assert!(gap >= 99 && gap <= 101, "gap {}", gap);
    }
}

#[test]
fn zero_frequency_holds_output() {
    let (mut osc, _ctrl) = WaveTable::new(44100, WaveForm::Square);
    let samples = pull_n(&mut osc, 50);
    assert!(samples.iter().all(|s| *s == UNIT / 10));
    assert_eq!(osc.index(), 0);
}

#[test]
fn volume_twice_is_volume_once() {
    let (mut a, mut ctrl_a) = WaveTable::new(44100, WaveForm::Triangle);
    let (mut b, mut ctrl_b) = WaveTable::new(44100, WaveForm::Triangle);
    a.set_frequency(1000000);
    b.set_frequency(1000000);
    set_volume(&mut ctrl_a, 12345);
    set_volume(&mut ctrl_a, 12345);
    set_volume(&mut ctrl_b, 12345);
    let sa = pull_n(&mut a, 200);
    let sb = pull_n(&mut b, 200);
    assert_eq!(sa, sb);
    assert_eq!(a.volume(), 12345);
    assert_eq!(b.volume(), 12345);
}

#[test]
fn generator_absorbs_unknown_commands() {
    let (mut osc, mut ctrl) = WaveTable::new(44100, WaveForm::Saw);
    set_ressonance(&mut ctrl, 5000);
    set_note_state(&mut ctrl, true);
    set_lerp_time(&mut ctrl, 10);
    set_adsr(&mut ctrl, 1, 2, 3, 4);
    let samples = pull_n(&mut osc, 4);
    assert_eq!(samples, vec![0, 0, 0, 0]);
    assert_eq!(osc.volume(), UNIT / 10);
    assert_eq!(osc.index_increment(), 0);
}

fn constant_voice() -> (WaveTable, Control) {
    // a square wave held at index 0 gives full scale on every pull
    WaveTable::new(44100, WaveForm::Square)
}

#[test]
fn envelope_attack_from_zero_to_unity() {
    let (mut env, mut ctrl) = Adsr::new(constant_voice());
    set_volume(&mut ctrl, UNIT);
    set_adsr(&mut ctrl, 10, 10, UNIT as u32 / 2, 10);
    set_note_state(&mut ctrl, true);
    let before = pull_n(&mut env, 2);
    assert_eq!(before, vec![0, 0]);
    let attack = pull_n(&mut env, 441);
    assert_eq!(attack[0], 0);
    let last = attack[440] as f64 / UNIT as f64;
    assert!((last - 1.0).abs() < 0.01, "last attack gain {}", last);
    assert_eq!(attack[440], 440 * UNIT / 441);
    assert_eq!(env.get_sample(), UNIT);
}

#[test]
fn envelope_follows_its_profile() {
    let (mut env, mut ctrl) = Adsr::new(constant_voice());
    set_volume(&mut ctrl, UNIT);
    set_adsr(&mut ctrl, 10, 20, UNIT as u32 / 2, 30);
    set_note_state(&mut ctrl, true);
    pull_n(&mut env, 2);
    let attack = pull_n(&mut env, 441);
    assert!(attack.windows(2).all(|w| w[0] <= w[1]));
    let decay = pull_n(&mut env, 882);
    assert_eq!(decay[0], UNIT);
    assert!(decay.windows(2).all(|w| w[0] >= w[1]));
    assert!(decay.iter().all(|g| *g >= UNIT / 2));
    let sustain = pull_n(&mut env, 500);
    assert!(sustain.iter().all(|g| *g == UNIT / 2));
    set_note_state(&mut ctrl, false);
    let release = pull_n(&mut env, 1323);
    assert_eq!(release[0], UNIT / 2);
    assert!(release.windows(2).all(|w| w[0] >= w[1]));
    assert!(release.iter().all(|g| *g >= 0));
    let after = pull_n(&mut env, 10);
    assert!(after.iter().all(|g| *g == 0));
}

#[test]
fn envelope_release_starts_from_sustain_mid_attack() {
    let (mut env, mut ctrl) = Adsr::new(constant_voice());
    set_volume(&mut ctrl, UNIT);
    set_adsr(&mut ctrl, 100, 10, 8192, 10);
    set_note_state(&mut ctrl, true);
    pull_n(&mut env, 10);
    set_note_state(&mut ctrl, false);
    assert_eq!(env.get_sample(), 8192);
    assert!(!env.envelope_state().is_note_on);
}

#[test]
fn envelope_commands_set_ramps() {
    let mut e = Envelope::new(44100);
    assert_eq!(e.apply(SoundCommands::Adsr(75, 25, 40000, 0)), None);
    assert_eq!(e.n_atk, 3307);
    assert_eq!(e.n_dly, 1102);
    assert_eq!(e.sustain, UNIT as u32);
    assert_eq!(e.n_rls, 1);
    assert_eq!(e.apply(SoundCommands::Vol(3)), Some(SoundCommands::Vol(3)));
    assert_eq!(e.apply(SoundCommands::NotePlaying(true)), None);
    assert_eq!((e.idx_atk, e.idx_dly, e.idx_rls, e.is_note_on), (0, 0, 0, true));
    assert_eq!(e.shape(1000), 0);
    assert_eq!(e.shape(UNIT), UNIT / 3307);
    assert_eq!(e.shape(-UNIT), -(2 * UNIT / 3307));
}

#[test]
fn filter_first_output_and_step_response() {
    let (mut lpf, _ctrl) = LowPassFilter::new(constant_voice());
    let f = lpf.filter_state();
    assert_eq!(f.cutoff, 110000);
    assert_eq!(f.alpha, 505);
    // the wrapped voice gives UNIT / 10 = 3276 on every pull
    let first = lpf.get_sample();
    assert_eq!(first, 505 * 3276 / UNIT);
    assert_eq!(first, 50);
    let mut prev = first;
    for _ in 0..3000 {
        let out = lpf.get_sample();
        assert!(out >= prev && out <= 3276);
        prev = out;
    }
    assert!(3276 - prev <= 70, "still {} away", 3276 - prev);
}

#[test]
fn filter_step_is_exact() {
    let mut f = Filter::new(44100);
    assert_eq!(f.step(10000), 505 * 10000 / UNIT);
    assert_eq!(f.last_sample, Some(154));
    assert_eq!(f.step(154), 154);
    assert_eq!(f.step(-10000), 154 + floor_div(505 * (-10154), UNIT as i64) as i32);
    assert_eq!(f.last_sample, Some(-3));
}

#[test]
fn filter_claims_resonance() {
    let (mut lpf, mut ctrl) = LowPassFilter::new(constant_voice());
    set_ressonance(&mut ctrl, 1000000);
    lpf.get_sample();
    let f = lpf.filter_state();
    assert_eq!(f.cutoff, 1000000);
    assert_eq!(f.alpha, 4086);
}

#[test]
fn filter_relays_volume_to_generator() {
    let (mut lpf, mut ctrl) = LowPassFilter::new(constant_voice());
    let before = lpf.filter_state();
    set_volume(&mut ctrl, 16384);
    lpf.get_sample();
    assert_eq!(lpf.inner().volume(), 16384);
    let after = lpf.filter_state();
    assert_eq!(after.cutoff, before.cutoff);
    assert_eq!(after.alpha, before.alpha);
}

#[test]
fn relaying_reaches_through_three_stages() {
    let (mut chain, mut ctrl) = Lerp::new(LowPassFilter::new(Adsr::new(constant_voice())));
    set_ressonance(&mut ctrl, 2000000);
    set_adsr(&mut ctrl, 5, 5, 100, 5);
    set_volume(&mut ctrl, 20000);
    pull_n(&mut chain, 8);
    assert_eq!(chain.inner().filter_state().cutoff, 2000000);
    assert_eq!(chain.inner().inner().envelope_state().sustain, 100);
    assert_eq!(chain.inner().inner().inner().volume(), 20000);
    assert_eq!(chain.glide_state().targ_freq, 0);
}

#[test]
fn glide_reaches_target_within_its_time() {
    let (mut lerp, mut ctrl) = Lerp::new(WaveTable::new(44100, WaveForm::Sine));
    set_frequency(&mut ctrl, 440000);
    // 500 ms at 44100 Hz: 22050 steps
    assert_eq!(lerp.glide_state().n_steps, 22050);
    pull_n(&mut lerp, 11025);
    assert_eq!(lerp.glide_state().curr_freq, 220000);
    assert_eq!(lerp.inner().index_increment(), 20923);
    pull_n(&mut lerp, 11000);
    assert!(lerp.glide_state().curr_freq < 440000);
    pull_n(&mut lerp, 25);
    assert_eq!(lerp.glide_state().curr_freq, 440000);
    assert_eq!(lerp.inner().index_increment(), 41847);
    pull_n(&mut lerp, 100);
    assert_eq!(lerp.glide_state().curr_freq, 440000);
}

#[test]
fn glide_pushes_frequency_every_pull() {
    let mut g = Glide::new(44100);
    assert_eq!(g.apply(SoundCommands::LerpTime(1)), None);
    assert_eq!(g.n_steps, 44);
    assert_eq!(g.apply(SoundCommands::Frq(44000)), None);
    assert_eq!(g.update_freq(), SoundCommands::Frq(1000));
    assert_eq!(g.update_freq(), SoundCommands::Frq(2000));
    for _ in 0..42 {
        g.update_freq();
    }
    assert_eq!(g.curr_freq, 44000);
    assert_eq!(g.update_freq(), SoundCommands::Frq(44000));
    assert_eq!(g.apply(SoundCommands::Res(7)), Some(SoundCommands::Res(7)));
}

#[test]
fn glide_snaps_when_close() {
    let mut g = Glide::new(44100);
    g.apply(SoundCommands::Frq(99));
    assert_eq!(g.curr_freq, 99);
    assert_eq!(g.update_freq(), SoundCommands::Frq(99));
    g.apply(SoundCommands::LerpTime(0));
    assert_eq!(g.n_steps, 1);
    g.apply(SoundCommands::Frq(500000));
    assert_eq!(g.update_freq(), SoundCommands::Frq(500000));
}

#[test]
fn silent_mixer_voice() {
    let (mut osc, _ctrl) = init_mixer();
    assert_eq!(osc.sample_rate(), 44100);
    assert_eq!(osc.channels(), 1);
    assert_eq!(osc.volume(), 0);
    assert_eq!(osc.index_increment(), 0);
    assert!(pull_n(&mut osc, 20).iter().all(|s| *s == 0));
}
