//! Procedural sound effects and music: square-wave tones with linear
//! envelopes, and a two-voice chiptune loop, all rendered as 16-bit mono
//! PCM and wrapped in a WAV container.  Everything is exact integer
//! arithmetic; every byte of the output is specified.

use vstd::prelude::*;

verus! {

/// The sample rate every built-in sound is rendered at, in hertz.
pub const SAMPLE_RATE: u32 = 44100;

/// A `u16` in little-endian byte order.
pub open spec fn u16_le(v: u16) -> Seq<u8> {
    seq![(v & 0xff) as u8, ((v >> 8) & 0xff) as u8]
}

/// A `u32` in little-endian byte order.
pub open spec fn u32_le(v: u32) -> Seq<u8> {
    seq![
        (v & 0xff) as u8,
        ((v >> 8) & 0xff) as u8,
        ((v >> 16) & 0xff) as u8,
        ((v >> 24) & 0xff) as u8,
    ]
}

/// The first `n` samples as little-endian byte pairs.
pub open spec fn sample_bytes(samples: Seq<i16>, n: int) -> Seq<u8>
    decreases n,
{
    if n <= 0 {
        Seq::empty()
    } else {
        sample_bytes(samples, n - 1) + u16_le(samples[n - 1] as u16)
    }
}

/// The complete WAV container for 16-bit mono PCM: the RIFF header, the
/// format chunk, and the data chunk holding every sample in order.
pub open spec fn wav_bytes(sample_rate: u32, samples: Seq<i16>) -> Seq<u8> {
    let data_size = (2 * samples.len()) as u32;
    let chunk_size = (36 + 2 * samples.len()) as u32;
    seq![0x52u8, 0x49u8, 0x46u8, 0x46u8] + u32_le(chunk_size) + seq![
        0x57u8,
        0x41u8,
        0x56u8,
        0x45u8,
    ] + seq![0x66u8, 0x6du8, 0x74u8, 0x20u8] + u32_le(16) + u16_le(1) + u16_le(1) + u32_le(
        sample_rate,
    ) + u32_le(mul2(sample_rate)) + u16_le(2) + u16_le(16) + seq![0x64u8, 0x61u8, 0x74u8, 0x61u8]
        + u32_le(data_size) + sample_bytes(samples, samples.len() as int)
}

/// The byte rate of 16-bit mono audio: twice the sample rate, as `u32`
/// arithmetic computes it.
pub open spec fn mul2(rate: u32) -> u32 {
    (2 * rate) as u32
}

/// Appends a `u16` in little-endian order.
fn push_u16_le(out: &mut Vec<u8>, v: u16)
    ensures
        final(out)@ == old(out)@ + u16_le(v),
{
    out.push((v & 0xff) as u8);
    out.push(((v >> 8) & 0xff) as u8);
    proof {
        assert(final(out)@ =~= old(out)@ + u16_le(v));
    }
}

/// Appends a `u32` in little-endian order.
fn push_u32_le(out: &mut Vec<u8>, v: u32)
    ensures
        final(out)@ == old(out)@ + u32_le(v),
{
    out.push((v & 0xff) as u8);
    out.push(((v >> 8) & 0xff) as u8);
    out.push(((v >> 16) & 0xff) as u8);
    out.push(((v >> 24) & 0xff) as u8);
    proof {
        assert(final(out)@ =~= old(out)@ + u32_le(v));
    }
}

/// Encodes 16-bit mono PCM samples as a WAV file, byte for byte as
/// `wav_bytes` states.
pub fn wav_pcm_mono_16(sample_rate: u32, samples: &Vec<i16>) -> (r: Vec<u8>)
    requires
        sample_rate <= 1_000_000,
        samples@.len() <= 0x100_0000,
    ensures
        r@ == wav_bytes(sample_rate, samples@),
{
    let data_size: u32 = 2 * samples.len() as u32;
    let chunk_size: u32 = 36 + data_size;
    let mut out: Vec<u8> = Vec::new();
    out.push(0x52);
    out.push(0x49);
    out.push(0x46);
    out.push(0x46);
    push_u32_le(&mut out, chunk_size);
    out.push(0x57);
    out.push(0x41);
    out.push(0x56);
    out.push(0x45);
    out.push(0x66);
    out.push(0x6d);
    out.push(0x74);
    out.push(0x20);
    push_u32_le(&mut out, 16);
    push_u16_le(&mut out, 1);
    push_u16_le(&mut out, 1);
    push_u32_le(&mut out, sample_rate);
    push_u32_le(&mut out, 2 * sample_rate);
    push_u16_le(&mut out, 2);
    push_u16_le(&mut out, 16);
    out.push(0x64);
    out.push(0x61);
    out.push(0x74);
    out.push(0x61);
    push_u32_le(&mut out, data_size);
    let ghost header = out@;
    let n = samples.len();
    for i in 0..n
        invariant
            n == samples@.len(),
            out@ == header + sample_bytes(samples@, i as int),
    {
        let s = samples[i];
        push_u16_le(&mut out, s as u16);
        proof {
            assert(out@ =~= header + sample_bytes(samples@, i as int + 1));
        }
    }
    proof {
        assert(out@ =~= wav_bytes(sample_rate, samples@));
    }
    out
}

/// A non-negative value scaled by the fraction `num / den`, never
/// exceeding the value itself.
pub open spec fn spec_frac(a: int, num: int, den: int) -> int {
    a * num / den
}

/// Scaling by a proper fraction shrinks a non-negative value.
proof fn lemma_frac_le(a: int, num: int, den: int)
    requires
        0 <= a,
        0 <= num <= den,
        1 <= den,
    ensures
        0 <= spec_frac(a, num, den) <= a,
{
    vstd::arithmetic::mul::lemma_mul_inequality(num, den, a);
    vstd::arithmetic::div_mod::lemma_div_is_ordered(a * num, a * den, den);
    vstd::arithmetic::div_mod::lemma_div_by_multiple(a, den);
    vstd::arithmetic::mul::lemma_mul_is_commutative(a, num);
    vstd::arithmetic::mul::lemma_mul_is_commutative(a, den);
    vstd::arithmetic::mul::lemma_mul_nonnegative(a, num);
    vstd::arithmetic::div_mod::lemma_div_pos_is_pos(a * num, den);
}

/// Computes `a * num / den` for a small non-negative value and a proper
/// fraction.
fn frac(a: i64, num: i64, den: i64) -> (r: i64)
    requires
        0 <= a <= 0x10_0000,
        0 <= num <= den,
        1 <= den <= 0x10_0000,
    ensures
        r as int == spec_frac(a as int, num as int, den as int),
        0 <= r <= a,
{
    proof {
        lemma_frac_le(a as int, num as int, den as int);
        crate::physics::lemma_mul_bound(a as int, num as int, 0x10_0000, 0x10_0000);
    }
    ((a as u64 * num as u64) / den as u64) as i64
}

/// One sample of a square-wave tone: polarity from the phase
/// `i * freq mod rate`, magnitude from the amplitude shaped by a linear
/// attack over the first `rate / 100` samples and a linear release over
/// the last `rate / 50`.
pub open spec fn tone_sample(i: int, len: int, freq: int, rate: int, amp: int) -> int {
    let attack = rate / 100;
    let release = rate / 50;
    let m = if i < attack {
        spec_frac(amp, i, attack)
    } else if len - i < release {
        spec_frac(amp, len - i, release)
    } else {
        amp
    };
    if 2 * ((i * freq) % rate) < rate {
        m
    } else {
        -m
    }
}

/// A whole square-wave tone.
pub open spec fn tone_samples(len: int, freq: int, rate: int, amp: int) -> Seq<i16> {
    Seq::new(len as nat, |i: int| tone_sample(i, len, freq, rate, amp) as i16)
}

/// Renders a square-wave tone, exactly as `tone_samples` states.
pub fn synth_tone_mono_16(sample_rate: u32, freq_hz: u32, len: u32, amplitude: i16) -> (r: Vec<
    i16,
>)
    requires
        8000 <= sample_rate <= 192_000,
        freq_hz <= 20_000,
        len <= 0x100_0000,
        0 <= amplitude,
    ensures
        r@ == tone_samples(len as int, freq_hz as int, sample_rate as int, amplitude as int),
{
    let attack: i64 = sample_rate as i64 / 100;
    let release: i64 = sample_rate as i64 / 50;
    proof {
        assert(sample_rate as int / 100 == sample_rate as i64 / 100) by (nonlinear_arith)
            requires
                8000 <= sample_rate <= 192_000,
        ;
    }
    let mut out: Vec<i16> = Vec::new();
    let n = len as usize;
    for i in 0..n
        invariant
            n == len,
            8000 <= sample_rate <= 192_000,
            freq_hz <= 20_000,
            len <= 0x100_0000,
            0 <= amplitude,
            attack as int == sample_rate as int / 100,
            release as int == sample_rate as int / 50,
            80 <= attack <= 1920,
            160 <= release <= 3840,
            out@.len() == i,
            forall|j: int|
                0 <= j < i ==> #[trigger] out@[j] == tone_sample(
                    j,
                    len as int,
                    freq_hz as int,
                    sample_rate as int,
                    amplitude as int,
                ) as i16,
    {
        let ii = i as i64;
        let m: i64 = if ii < attack {
            frac(amplitude as i64, ii, attack)
        } else if (len as i64) - ii < release {
            frac(amplitude as i64, len as i64 - ii, release)
        } else {
            amplitude as i64
        };
        proof {
            crate::physics::lemma_mul_bound(i as int, freq_hz as int, 0x100_0000, 20_000);
            vstd::arithmetic::div_mod::lemma_mod_bound(
                i as int * freq_hz as int,
                sample_rate as int,
            );
        }
        let phase: u64 = (i as u64 * freq_hz as u64) % sample_rate as u64;
        let s: i64 = if 2 * phase < sample_rate as u64 {
            m
        } else {
            -m
        };
        out.push(s as i16);
    }
    proof {
        assert(out@ =~= tone_samples(
            len as int,
            freq_hz as int,
            sample_rate as int,
            amplitude as int,
        ));
    }
    out
}

/// A square-wave tone wrapped in a WAV container.
fn synth_tone_wav(freq_hz: u32, len: u32, amplitude: i16) -> (r: Vec<u8>)
    requires
        freq_hz <= 20_000,
        len <= 0x100_0000,
        0 <= amplitude,
    ensures
        r@ == wav_bytes(
            SAMPLE_RATE,
            tone_samples(len as int, freq_hz as int, SAMPLE_RATE as int, amplitude as int),
        ),
{
    let samples = synth_tone_mono_16(SAMPLE_RATE, freq_hz, len, amplitude);
    wav_pcm_mono_16(SAMPLE_RATE, &samples)
}

/// The jump cue: a short bright blip.
pub fn default_jump_sound() -> (r: Vec<u8>)
    ensures
        r@ == wav_bytes(SAMPLE_RATE, tone_samples(5292, 720, SAMPLE_RATE as int, 8191)),
{
    synth_tone_wav(720, 5292, 8191)
}

/// The coin cue: a very short high blip.
pub fn default_coin_sound() -> (r: Vec<u8>)
    ensures
        r@ == wav_bytes(SAMPLE_RATE, tone_samples(3528, 980, SAMPLE_RATE as int, 9175)),
{
    synth_tone_wav(980, 3528, 9175)
}

/// The stomp cue: a short low thud.
pub fn default_stomp_sound() -> (r: Vec<u8>)
    ensures
        r@ == wav_bytes(SAMPLE_RATE, tone_samples(4410, 220, SAMPLE_RATE as int, 11468)),
{
    synth_tone_wav(220, 4410, 11468)
}

/// The powerup cue: a mid tone.
pub fn default_powerup_sound() -> (r: Vec<u8>)
    ensures
        r@ == wav_bytes(SAMPLE_RATE, tone_samples(7938, 540, SAMPLE_RATE as int, 9175)),
{
    synth_tone_wav(540, 7938, 9175)
}

/// The hurt cue: a longer low tone.
pub fn default_hurt_sound() -> (r: Vec<u8>)
    ensures
        r@ == wav_bytes(SAMPLE_RATE, tone_samples(7056, 160, SAMPLE_RATE as int, 10485)),
{
    synth_tone_wav(160, 7056, 10485)
}

/// The win cue: a sustained bright tone.
pub fn default_win_sound() -> (r: Vec<u8>)
    ensures
        r@ == wav_bytes(SAMPLE_RATE, tone_samples(9702, 660, SAMPLE_RATE as int, 7864)),
{
    synth_tone_wav(660, 9702, 7864)
}

/// Samples per sixteenth-note step of the music loop at 140 beats per
/// minute.
pub const STEP_SAMPLES: i64 = 4725;

/// Steps in the music loop.
pub const LOOP_STEPS: i64 = 64;

/// Total samples of the music loop.
pub const LOOP_SAMPLES: i64 = STEP_SAMPLES * LOOP_STEPS;

/// The melody voice: one frequency in hertz per step, zero for a rest.
pub open spec fn chip_melody() -> Seq<u32> {
    seq![
        440u32, 0, 523, 0, 659, 0, 523, 0, 440, 0, 392, 0, 330, 0, 392, 0, 523, 0, 659, 0, 784, 0,
        659, 0, 523, 0, 494, 0, 392, 0, 440, 0, 659, 0, 784, 0, 988, 0, 784, 0, 659, 0, 587, 0,
        494, 0, 587, 0, 523, 0, 659, 0, 784, 0, 659, 0, 523, 0, 494, 0, 392, 0, 440, 0,
    ]
}

/// The bass voice: one frequency in hertz per step, zero for a rest.
pub open spec fn chip_bass() -> Seq<u32> {
    seq![
        110u32, 0, 110, 0, 131, 0, 110, 0, 98, 0, 98, 0, 82, 0, 98, 0, 110, 0, 110, 0, 131, 0,
        110, 0, 98, 0, 98, 0, 82, 0, 98, 0, 131, 0, 131, 0, 165, 0, 131, 0, 123, 0, 123, 0, 98, 0,
        123, 0, 110, 0, 110, 0, 131, 0, 110, 0, 98, 0, 98, 0, 82, 0, 98, 0,
    ]
}

/// The per-step note envelope: a linear attack over the first 8% of the
/// step and a linear release over the last 15%, as a fraction.
pub open spec fn chip_env_num(pos: int) -> int {
    if pos < 378 {
        pos
    } else if pos > 4016 {
        4725 - pos
    } else {
        1
    }
}

/// The note envelope's denominator.
pub open spec fn chip_env_den(pos: int) -> int {
    if pos < 378 {
        378
    } else if pos > 4016 {
        709
    } else {
        1
    }
}

/// One voice's contribution to a music sample: a square wave at the
/// step's frequency, shaped by the note envelope.
pub open spec fn chip_voice(i: int, pos: int, f: int, amp: int) -> int {
    if f == 0 {
        0
    } else {
        let m = spec_frac(amp, chip_env_num(pos), chip_env_den(pos));
        if 2 * ((i * f) % (SAMPLE_RATE as int)) < SAMPLE_RATE as int {
            m
        } else {
            -m
        }
    }
}

/// One sample of the music loop: melody plus bass, faded in and out over
/// the loop's first and last 2205 samples.
pub open spec fn chip_sample(i: int) -> int {
    let step = (i / STEP_SAMPLES as int) % LOOP_STEPS as int;
    let pos = i % STEP_SAMPLES as int;
    let s = chip_voice(i, pos, chip_melody()[step] as int, 5898) + chip_voice(
        i,
        pos,
        chip_bass()[step] as int,
        5242,
    );
    let mag = if s >= 0 {
        s
    } else {
        -s
    };
    let gm = if i < 2205 {
        spec_frac(mag, i, 2205)
    } else if i > LOOP_SAMPLES as int - 2205 {
        spec_frac(mag, LOOP_SAMPLES as int - i, 2205)
    } else {
        mag
    };
    if s >= 0 {
        gm
    } else {
        -gm
    }
}

/// The whole music loop.
pub open spec fn chip_samples() -> Seq<i16> {
    Seq::new(LOOP_SAMPLES as nat, |i: int| chip_sample(i) as i16)
}

/// One voice of one music sample.
fn chip_voice_at(i: i64, pos: i64, f: u32, amp: i64) -> (r: i64)
    requires
        0 <= i < LOOP_SAMPLES,
        0 <= pos < STEP_SAMPLES,
        f <= 1000,
        0 <= amp <= 8192,
    ensures
        r as int == chip_voice(i as int, pos as int, f as int, amp as int),
        -amp <= r <= amp,
{
    if f == 0 {
        return 0;
    }
    let num: i64 = if pos < 378 {
        pos
    } else if pos > 4016 {
        4725 - pos
    } else {
        1
    };
    let den: i64 = if pos < 378 {
        378
    } else if pos > 4016 {
        709
    } else {
        1
    };
    let m = frac(amp, num, den);
    proof {
        crate::physics::lemma_mul_bound(i as int, f as int, LOOP_SAMPLES as int, 1000);
        vstd::arithmetic::div_mod::lemma_mod_bound(i as int * f as int, SAMPLE_RATE as int);
    }
    let phase: u64 = (i as u64 * f as u64) % SAMPLE_RATE as u64;
    if 2 * phase < SAMPLE_RATE as u64 {
        m
    } else {
        -m
    }
}

/// Renders the music loop as a WAV file: every sample exactly as
/// `chip_samples` states.
pub fn synth_chiptune_wav() -> (r: Vec<u8>)
    ensures
        r@ == wav_bytes(SAMPLE_RATE, chip_samples()),
{
    let melody: [u32; 64] = [
        440, 0, 523, 0, 659, 0, 523, 0, 440, 0, 392, 0, 330, 0, 392, 0, 523, 0, 659, 0, 784, 0,
        659, 0, 523, 0, 494, 0, 392, 0, 440, 0, 659, 0, 784, 0, 988, 0, 784, 0, 659, 0, 587, 0,
        494, 0, 587, 0, 523, 0, 659, 0, 784, 0, 659, 0, 523, 0, 494, 0, 392, 0, 440, 0,
    ];
    let bass: [u32; 64] = [
        110, 0, 110, 0, 131, 0, 110, 0, 98, 0, 98, 0, 82, 0, 98, 0, 110, 0, 110, 0, 131, 0, 110,
        0, 98, 0, 98, 0, 82, 0, 98, 0, 131, 0, 131, 0, 165, 0, 131, 0, 123, 0, 123, 0, 98, 0, 123,
        0, 110, 0, 110, 0, 131, 0, 110, 0, 98, 0, 98, 0, 82, 0, 98, 0,
    ];
    proof {
        assert(melody@ =~= chip_melody());
        assert(bass@ =~= chip_bass());
    }
    let mut out: Vec<i16> = Vec::new();
    let n: usize = LOOP_SAMPLES as usize;
    for i in 0..n
        invariant
            n == LOOP_SAMPLES,
            melody@ == chip_melody(),
            bass@ == chip_bass(),
            out@.len() == i,
            forall|j: int| 0 <= j < i ==> #[trigger] out@[j] == chip_sample(j) as i16,
    {
        let ii = i as i64;
        let step: usize = (ii / STEP_SAMPLES) as usize;
        let pos: i64 = ii % STEP_SAMPLES;
        proof {
            assert(0 <= (ii as int) / (STEP_SAMPLES as int) && (ii as int) / (STEP_SAMPLES as int)
                < 64) by (nonlinear_arith)
                requires
                    0 <= ii < LOOP_SAMPLES,
                    LOOP_SAMPLES == STEP_SAMPLES * 64,
                    STEP_SAMPLES == 4725,
            ;
            vstd::arithmetic::div_mod::lemma_small_mod(
                ((ii as int) / (STEP_SAMPLES as int)) as nat,
                64nat,
            );
            vstd::arithmetic::div_mod::lemma_mod_bound(ii as int, STEP_SAMPLES as int);
        }
        let mel = chip_voice_at(ii, pos, melody[step], 5898);
        let bas = chip_voice_at(ii, pos, bass[step], 5242);
        let s = mel + bas;
        let mag = if s >= 0 {
            s
        } else {
            -s
        };
        let gm: i64 = if ii < 2205 {
            frac(mag, ii, 2205)
        } else if ii > LOOP_SAMPLES - 2205 {
            frac(mag, LOOP_SAMPLES - ii, 2205)
        } else {
            mag
        };
        let val: i64 = if s >= 0 {
            gm
        } else {
            -gm
        };
        out.push(val as i16);
    }
    proof {
        assert(out@ =~= chip_samples());
    }
    wav_pcm_mono_16(SAMPLE_RATE, &out)
}

/// The background music: the chiptune loop.
pub fn default_music_sound() -> (r: Vec<u8>)
    ensures
        r@ == wav_bytes(SAMPLE_RATE, chip_samples()),
{
    synth_chiptune_wav()
}

} // verus!
