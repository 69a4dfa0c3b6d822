//! The sound that announces the end: three beeps, as a WAV file in memory.
//!
//! The file holds 16-bit PCM, one channel, 44 100 samples a second. What the
//! wave itself looks like is left to the caller, who is asked for one sample at
//! a time.

use vstd::prelude::*;

use crate::ratio::Ratio;

verus! {

/// Samples in one second.
pub const SAMPLE_RATE: u32 = 44_100;

/// Samples of silence after each beep: a twentieth of a second.
pub const GAP: u32 = 2_205;

/// A beep: its frequency in tenths of a hertz, and how many samples it has.
#[derive(Clone, Copy, Debug, PartialEq, Eq, Structural)]
pub struct Tone {
    pub frequency: u32,
    pub samples: u32,
}

/// Where a sample stands in its beep: the frequency in tenths of a hertz, the
/// number of samples before it, and the part of its loudness that is taken away.
#[derive(Clone, Copy, Debug, PartialEq, Eq, Structural)]
pub struct SamplePoint {
    pub frequency: u32,
    pub index: u32,
    pub faded: Ratio,
}

/// The beeps: 880 Hz and 1046.5 Hz for 150 ms each, then 1318.5 Hz for 300 ms.
pub open spec fn beeps() -> Seq<Tone> {
    seq![
        Tone { frequency: 8_800, samples: 6_615 },
        Tone { frequency: 10_465, samples: 6_615 },
        Tone { frequency: 13_185, samples: 13_230 },
    ]
}

/// The part of its loudness that sample `i` of a beep of `n` samples loses.
/// The last tenth of a beep fades out evenly.
pub open spec fn faded(n: int, i: int) -> Ratio {
    if i > n * 9 / 10 {
        Ratio {
            num: (i - n * 9 / 10) as u128,
            den: if n / 10 > 1 {
                (n / 10) as u128
            } else {
                1
            },
        }
    } else {
        Ratio { num: 0, den: 1 }
    }
}

/// Where sample `i` of a beep stands.
pub open spec fn point(tone: Tone, i: int) -> SamplePoint {
    SamplePoint {
        frequency: tone.frequency,
        index: i as u32,
        faded: faded(tone.samples as int, i),
    }
}

/// A beep and the silence after it, sample by sample; silence is `None`.
pub open spec fn tone_plan(tone: Tone) -> Seq<Option<SamplePoint>> {
    Seq::new(tone.samples as nat, |i: int| Some(point(tone, i))) + Seq::new(
        GAP as nat,
        |i: int| None::<SamplePoint>,
    )
}

/// The first `k` beeps, sample by sample.
pub open spec fn plan(tones: Seq<Tone>, k: nat) -> Seq<Option<SamplePoint>>
    decreases k,
{
    if k == 0 {
        Seq::empty()
    } else {
        plan(tones, (k - 1) as nat) + tone_plan(tones[k - 1])
    }
}

/// The whole sound, sample by sample.
pub open spec fn beep_plan() -> Seq<Option<SamplePoint>> {
    plan(beeps(), 3)
}

/// The samples are those that `wave` gives where the plan asks for one, and
/// zero where the plan is silent.
pub open spec fn plays<F: Fn(SamplePoint) -> i16>(
    wave: F,
    plan: Seq<Option<SamplePoint>>,
    samples: Seq<i16>,
) -> bool {
    &&& samples.len() == plan.len()
    &&& forall|i: int|
        0 <= i < plan.len() ==> match #[trigger] plan[i] {
            Some(p) => call_ensures(wave, (p,), samples[i]),
            None => samples[i] == 0,
        }
}

/// The lowest `n` bytes of `v`, lowest first, negative numbers in two's
/// complement.
pub open spec fn le_bytes(v: int, n: nat) -> Seq<u8>
    decreases n,
{
    if n == 0 {
        Seq::empty()
    } else {
        seq![(v % 256) as u8] + le_bytes(v / 256, (n - 1) as nat)
    }
}

/// The number that bytes stand for, lowest byte first.
pub open spec fn le_value(bytes: Seq<u8>) -> nat
    decreases bytes.len(),
{
    if bytes.len() == 0 {
        0
    } else {
        bytes[0] as nat + 256 * le_value(bytes.skip(1))
    }
}

/// The samples as bytes, two for each.
pub open spec fn pcm(samples: Seq<i16>) -> Seq<u8>
    decreases samples.len(),
{
    if samples.len() == 0 {
        Seq::empty()
    } else {
        pcm(samples.drop_last()) + le_bytes(samples.last() as int, 2)
    }
}

/// The head of a WAV file with `data` bytes of samples.
pub open spec fn wav_header(data: nat) -> Seq<u8> {
    let riff = seq![0x52u8, 0x49, 0x46, 0x46];
    let wave = seq![0x57u8, 0x41, 0x56, 0x45];
    let fmt = seq![0x66u8, 0x6d, 0x74, 0x20];
    let data_tag = seq![0x64u8, 0x61, 0x74, 0x61];
    let pcm_format = le_bytes(1, 2);
    let channels = le_bytes(1, 2);
    let byte_rate = le_bytes(SAMPLE_RATE * 2, 4);
    let block_size = le_bytes(2, 2);
    let bits = le_bytes(16, 2);
    riff + le_bytes(36 + data as int, 4) + wave + fmt + le_bytes(16, 4) + pcm_format + channels
        + le_bytes(SAMPLE_RATE as int, 4) + byte_rate + block_size + bits + data_tag + le_bytes(
        data as int,
        4,
    )
}

/// The WAV file of the samples.
pub open spec fn wav_file(samples: Seq<i16>) -> Seq<u8> {
    wav_header(2 * samples.len()) + pcm(samples)
}

fn push_tag(out: &mut Vec<u8>, a: u8, b: u8, c: u8, d: u8)
    ensures
        final(out)@ == old(out)@ + seq![a, b, c, d],
{
    out.push(a);
    out.push(b);
    out.push(c);
    out.push(d);
}

fn push_u16(out: &mut Vec<u8>, v: u16)
    ensures
        final(out)@ == old(out)@ + le_bytes(v as int, 2),
{
    proof {
        reveal_with_fuel(le_bytes, 3);
    }
    out.push((v % 256) as u8);
    out.push((v / 256) as u8);
}

fn push_u32(out: &mut Vec<u8>, v: u32)
    ensures
        final(out)@ == old(out)@ + le_bytes(v as int, 4),
{
    proof {
        reveal_with_fuel(le_bytes, 5);
    }
    out.push((v % 256) as u8);
    out.push((v / 256 % 256) as u8);
    out.push((v / 256 / 256 % 256) as u8);
    out.push((v / 256 / 256 / 256) as u8);
}

fn push_sample(out: &mut Vec<u8>, v: i16)
    ensures
        final(out)@ == old(out)@ + le_bytes(v as int, 2),
{
    let unsigned: u16 = if v < 0 {
        (v as i32 + 65_536) as u16
    } else {
        v as u16
    };
    proof {
        reveal_with_fuel(le_bytes, 3);
        assert(le_bytes(unsigned as int, 2) =~= le_bytes(v as int, 2));
    }
    push_u16(out, unsigned);
}

/// Writes samples as a WAV file.
pub fn encode_wav(samples: &Vec<i16>) -> (wav: Vec<u8>)
    requires
        36 + 2 * samples@.len() <= u32::MAX,
    ensures
        wav@ == wav_file(samples@),
{
    let data_bytes: u32 = samples.len() as u32 * 2;
    let mut wav: Vec<u8> = Vec::new();
    push_tag(&mut wav, 0x52, 0x49, 0x46, 0x46);
    push_u32(&mut wav, 36 + data_bytes);
    push_tag(&mut wav, 0x57, 0x41, 0x56, 0x45);
    push_tag(&mut wav, 0x66, 0x6d, 0x74, 0x20);
    push_u32(&mut wav, 16);
    push_u16(&mut wav, 1);
    push_u16(&mut wav, 1);
    push_u32(&mut wav, SAMPLE_RATE);
    push_u32(&mut wav, SAMPLE_RATE * 2);
    push_u16(&mut wav, 2);
    push_u16(&mut wav, 16);
    push_tag(&mut wav, 0x64, 0x61, 0x74, 0x61);
    push_u32(&mut wav, data_bytes);
    assert(wav@ == wav_header(2 * samples@.len()));

    let mut i: usize = 0;
    while i < samples.len()
        invariant
            i <= samples@.len(),
            wav@ == wav_header(2 * samples@.len()) + pcm(samples@.take(i as int)),
        decreases samples@.len() - i,
    {
        proof {
            let next = samples@.take(i + 1);
            assert(next.drop_last() =~= samples@.take(i as int));
            assert(next.last() == samples@[i as int]);
        }
        push_sample(&mut wav, samples[i]);
        i = i + 1;
    }
    assert(samples@.take(i as int) =~= samples@);
    wav
}

/// The part of its loudness that sample `i` of a beep of `n` samples loses.
fn fade_at(n: u32, i: u32) -> (part: Ratio)
    ensures
        part == faded(n as int, i as int),
{
    let start: u64 = n as u64 * 9 / 10;
    if i as u64 > start {
        let length: u32 = n / 10;
        Ratio {
            num: (i as u64 - start) as u128,
            den: if length > 1 {
                length as u128
            } else {
                1
            },
        }
    } else {
        Ratio { num: 0, den: 1 }
    }
}

/// Appends a beep and the silence after it.
fn push_tone<F: Fn(SamplePoint) -> i16>(samples: &mut Vec<i16>, tone: Tone, wave: &F)
    requires
        forall|p: SamplePoint| call_requires(*wave, (p,)),
    ensures
        final(samples)@.len() == old(samples)@.len() + tone.samples + GAP,
        final(samples)@.take(old(samples)@.len() as int) == old(samples)@,
        plays(*wave, tone_plan(tone), final(samples)@.skip(old(samples)@.len() as int)),
{
    let ghost before = samples@;
    let ghost steps = tone_plan(tone);
    let mut i: u32 = 0;
    while i < tone.samples
        invariant
            forall|p: SamplePoint| call_requires(*wave, (p,)),
            i <= tone.samples,
            steps == tone_plan(tone),
            samples@.len() == before.len() + i,
            samples@.take(before.len() as int) == before,
            forall|j: int|
                0 <= j < i ==> call_ensures(
                    *wave,
                    (point(tone, j),),
                    #[trigger] samples@[before.len() + j],
                ),
        decreases tone.samples - i,
    {
        let p = SamplePoint {
            frequency: tone.frequency,
            index: i,
            faded: fade_at(tone.samples, i),
        };
        let sample: i16 = wave(p);
        samples.push(sample);
        assert(samples@.take(before.len() as int) =~= before);
        i = i + 1;
    }
    let mut gap: u32 = 0;
    while gap < GAP
        invariant
            gap <= GAP,
            samples@.len() == before.len() + tone.samples + gap,
            samples@.take(before.len() as int) == before,
            forall|j: int|
                0 <= j < tone.samples ==> call_ensures(
                    *wave,
                    (point(tone, j),),
                    #[trigger] samples@[before.len() + j],
                ),
            forall|j: int|
                before.len() + tone.samples <= j < samples@.len() ==> #[trigger] samples@[j] == 0,
        decreases GAP - gap,
    {
        samples.push(0);
        assert(samples@.take(before.len() as int) =~= before);
        gap = gap + 1;
    }
    proof {
        let part = samples@.skip(before.len() as int);
        assert forall|j: int| 0 <= j < steps.len() implies match #[trigger] steps[j] {
            Some(p) => call_ensures(*wave, (p,), part[j]),
            None => part[j] == 0,
        } by {
            assert(part[j] == samples@[before.len() + j]);
        }
    }
}

/// Samples the three beeps. Where a beep sounds, `wave` is asked for the sample.
pub fn beep_samples<F: Fn(SamplePoint) -> i16>(wave: &F) -> (samples: Vec<i16>)
    requires
        forall|p: SamplePoint| call_requires(*wave, (p,)),
    ensures
        plays(*wave, beep_plan(), samples@),
        samples@.len() == 33_075,
{
    let tones: [Tone; 3] = [
        Tone { frequency: 8_800, samples: 6_615 },
        Tone { frequency: 10_465, samples: 6_615 },
        Tone { frequency: 13_185, samples: 13_230 },
    ];
    assert(tones@ =~= beeps());
    let mut samples: Vec<i16> = Vec::new();
    let mut k: usize = 0;
    while k < 3
        invariant
            forall|p: SamplePoint| call_requires(*wave, (p,)),
            k <= 3,
            tones@ == beeps(),
            plays(*wave, plan(beeps(), k as nat), samples@),
            samples@.len() == (if k < 3 {
                8_820 * k
            } else {
                33_075
            }),
        decreases 3 - k,
    {
        let ghost before = samples@;
        let ghost earlier = plan(beeps(), k as nat);
        push_tone(&mut samples, tones[k], wave);
        proof {
            let steps = plan(beeps(), (k + 1) as nat);
            let part = samples@.skip(before.len() as int);
            assert(steps == earlier + tone_plan(beeps()[k as int]));
            assert forall|i: int| 0 <= i < steps.len() implies match #[trigger] steps[i] {
                Some(p) => call_ensures(*wave, (p,), samples@[i]),
                None => samples@[i] == 0,
            } by {
                if i < before.len() {
                    assert(steps[i] == earlier[i]);
                    assert(samples@.take(before.len() as int)[i] == before[i]);
                } else {
                    let j = i - before.len();
                    assert(steps[i] == tone_plan(beeps()[k as int])[j]);
                    assert(part[j] == samples@[i]);
                }
            }
        }
        k = k + 1;
    }
    samples
}

/// Makes the WAV file of the three beeps. Where a beep sounds, `wave` is asked
/// for the sample.
pub fn generate_beep_wav<F: Fn(SamplePoint) -> i16>(wave: &F) -> (wav: Vec<u8>)
    requires
        forall|p: SamplePoint| call_requires(*wave, (p,)),
    ensures
        exists|samples: Seq<i16>|
            plays(*wave, beep_plan(), samples) && wav@ == #[trigger] wav_file(samples),
{
    let samples: Vec<i16> = beep_samples(wave);
    encode_wav(&samples)
}

/// Sample `i` as a reader of the file finds it: two bytes after the head, in
/// two's complement.
pub open spec fn sample_at(wav: Seq<u8>, i: int) -> int {
    let unsigned = wav[44 + 2 * i] + 256 * wav[45 + 2 * i];
    if unsigned >= 32_768 {
        unsigned - 65_536
    } else {
        unsigned
    }
}

proof fn lemma_le_value_u32(v: int)
    requires
        0 <= v <= u32::MAX,
    ensures
        le_value(le_bytes(v, 4)) == v,
{
    reveal_with_fuel(le_bytes, 5);
    reveal_with_fuel(le_value, 5);
    let b = le_bytes(v, 4);
    assert(b.skip(1).skip(1) =~= b.skip(2));
    assert(b.skip(2).skip(1) =~= b.skip(3));
    assert(b.skip(3).skip(1) =~= Seq::<u8>::empty());
}

proof fn lemma_le_value_u16(v: int)
    requires
        0 <= v <= u16::MAX,
    ensures
        le_value(le_bytes(v, 2)) == v,
{
    reveal_with_fuel(le_bytes, 3);
    reveal_with_fuel(le_value, 3);
    let b = le_bytes(v, 2);
    assert(b.skip(1).skip(1) =~= Seq::<u8>::empty());
}

proof fn lemma_wav_header_len(data: nat)
    ensures
        wav_header(data).len() == 44,
{
    reveal_with_fuel(le_bytes, 5);
}

proof fn lemma_pcm(samples: Seq<i16>)
    ensures
        pcm(samples).len() == 2 * samples.len(),
        forall|i: int|
            0 <= i < samples.len() ==> {
                &&& pcm(samples)[2 * i] == ((#[trigger] samples[i]) as int % 256) as u8
                &&& pcm(samples)[2 * i + 1] == (samples[i] as int / 256 % 256) as u8
            },
    decreases samples.len(),
{
    reveal_with_fuel(le_bytes, 3);
    if samples.len() > 0 {
        let earlier = samples.drop_last();
        lemma_pcm(earlier);
        assert forall|i: int| 0 <= i < samples.len() implies {
            &&& pcm(samples)[2 * i] == ((#[trigger] samples[i]) as int % 256) as u8
            &&& pcm(samples)[2 * i + 1] == (samples[i] as int / 256 % 256) as u8
        } by {
            if i < earlier.len() {
                assert(earlier[i] == samples[i]);
            }
        }
    }
}

/// A WAV file is its head of 44 bytes and two bytes for each sample; the sizes
/// in the head are those of what follows them.
pub proof fn law_wav_sizes(samples: Seq<i16>)
    requires
        36 + 2 * samples.len() <= u32::MAX,
    ensures
        wav_file(samples).len() == 44 + 2 * samples.len(),
        le_value(wav_file(samples).subrange(4, 8)) == wav_file(samples).len() - 8,
        le_value(wav_file(samples).subrange(40, 44)) == wav_file(samples).len() - 44,
{
    let data = 2 * samples.len();
    lemma_wav_header_len(data);
    lemma_pcm(samples);
    lemma_le_value_u32(36 + data as int);
    lemma_le_value_u32(data as int);
    assert(wav_file(samples).subrange(4, 8) =~= le_bytes(36 + data as int, 4)) by {
        reveal_with_fuel(le_bytes, 5);
    }
    assert(wav_file(samples).subrange(40, 44) =~= le_bytes(data as int, 4)) by {
        reveal_with_fuel(le_bytes, 5);
    }
}

/// The head of a WAV file says: PCM, one channel, 44 100 samples a second,
/// sixteen bits in a sample, and a block size and byte rate that agree with
/// these.
pub proof fn law_wav_format(samples: Seq<i16>)
    ensures
        le_value(wav_file(samples).subrange(20, 22)) == 1,
        le_value(wav_file(samples).subrange(22, 24)) == 1,
        le_value(wav_file(samples).subrange(24, 28)) == SAMPLE_RATE,
        ({
            let channels = le_value(wav_file(samples).subrange(22, 24));
            let rate = le_value(wav_file(samples).subrange(24, 28));
            let byte_rate = le_value(wav_file(samples).subrange(28, 32));
            let block = le_value(wav_file(samples).subrange(32, 34));
            let bits = le_value(wav_file(samples).subrange(34, 36));
            bits == 16 && block == channels * bits / 8 && byte_rate == rate * block
        }),
{
    let wav = wav_file(samples);
    let data = 2 * samples.len();
    lemma_wav_header_len(data);
    lemma_le_value_u16(1);
    lemma_le_value_u16(2);
    lemma_le_value_u16(16);
    lemma_le_value_u32(SAMPLE_RATE as int);
    lemma_le_value_u32(SAMPLE_RATE * 2);
    reveal_with_fuel(le_bytes, 5);
    assert(wav.subrange(20, 22) =~= le_bytes(1, 2));
    assert(wav.subrange(22, 24) =~= le_bytes(1, 2));
    assert(wav.subrange(24, 28) =~= le_bytes(SAMPLE_RATE as int, 4));
    assert(wav.subrange(28, 32) =~= le_bytes(SAMPLE_RATE * 2, 4));
    assert(wav.subrange(32, 34) =~= le_bytes(2, 2));
    assert(wav.subrange(34, 36) =~= le_bytes(16, 2));
}

/// Every sample can be read back from the file.
pub proof fn law_samples_read_back(samples: Seq<i16>, i: int)
    requires
        0 <= i < samples.len(),
    ensures
        sample_at(wav_file(samples), i) == samples[i],
{
    lemma_wav_header_len(2 * samples.len());
    lemma_pcm(samples);
    let s = samples[i] as int;
    assert(wav_file(samples)[44 + 2 * i] == pcm(samples)[2 * i]);
    assert(wav_file(samples)[45 + 2 * i] == pcm(samples)[2 * i + 1]);
}

/// Fading takes away between nothing and everything, and never less than it
/// did one sample before. It starts after the first nine tenths of a beep.
pub proof fn law_fade(n: int, i: int)
    requires
        0 <= i < n,
        n <= u32::MAX,
    ensures
        faded(n, i).in_unit(),
        i <= n * 9 / 10 ==> faded(n, i).num == 0,
        i > n * 9 / 10 ==> faded(n, i).num > 0,
        i > 0 ==> faded(n, i - 1).at_most(faded(n, i)),
{
    if i > 0 {
        let a = faded(n, i - 1);
        let b = faded(n, i);
        if a.num > 0 {
            assert(a.num * b.den <= b.num * a.den) by (nonlinear_arith)
                requires
                    a.num <= b.num,
                    a.den == b.den,
            ;
        } else {
            assert(a.num * b.den == 0) by (nonlinear_arith)
                requires
                    a.num == 0,
            ;
            assert(b.num * a.den >= 0) by (nonlinear_arith);
        }
    }
}

/// The sound lasts three quarters of a second: 33 075 samples. Each beep takes
/// its 150, 150 or 300 milliseconds, and silence of 50 milliseconds follows it.
pub proof fn law_beep_length()
    ensures
        beep_plan().len() * 4 == SAMPLE_RATE * 3,
        beeps()[0].samples * 1000 == SAMPLE_RATE * 150,
        beeps()[1].samples * 1000 == SAMPLE_RATE * 150,
        beeps()[2].samples * 1000 == SAMPLE_RATE * 300,
        GAP * 1000 == SAMPLE_RATE * 50,
{
    reveal_with_fuel(plan, 4);
}

proof fn lemma_header_bytes(data: nat)
    requires
        36 + data <= u32::MAX,
    ensures
        is_head(wav_header(data), data),
{
    reveal_with_fuel(le_bytes, 5);
    let h = wav_header(data);
    assert(h.subrange(0, 4) =~= seq![0x52u8, 0x49, 0x46, 0x46]);
    assert(h.subrange(8, 16) =~= seq![0x57u8, 0x41, 0x56, 0x45, 0x66, 0x6d, 0x74, 0x20]);
    assert(h.subrange(16, 36) =~= seq![
        16u8, 0, 0, 0, 1, 0, 1, 0, 0x44, 0xac, 0, 0, 0x88, 0x58, 1, 0, 2, 0, 16, 0,
    ]);
    assert(h.subrange(36, 40) =~= seq![0x64u8, 0x61, 0x74, 0x61]);
}

/// The first 44 bytes are those of a WAV file with `data` bytes of samples.
spec fn is_head(h: Seq<u8>, data: nat) -> bool {
    &&& h.len() >= 44
    &&& h.subrange(0, 4) == seq![0x52u8, 0x49, 0x46, 0x46]
    &&& h[4] + 256 * h[5] + 65_536 * h[6] + 16_777_216 * h[7] == 36 + data
    &&& h.subrange(8, 16) == seq![0x57u8, 0x41, 0x56, 0x45, 0x66, 0x6d, 0x74, 0x20]
    &&& h.subrange(16, 36) == seq![
        16u8, 0, 0, 0, 1, 0, 1, 0, 0x44, 0xac, 0, 0, 0x88, 0x58, 1, 0, 2, 0, 16, 0,
    ]
    &&& h.subrange(36, 40) == seq![0x64u8, 0x61, 0x74, 0x61]
    &&& h[40] + 256 * h[41] + 65_536 * h[42] + 16_777_216 * h[43] == data
}

proof fn lemma_head_of(h: Seq<u8>, tail: Seq<u8>, data: nat)
    requires
        h.len() == 44,
        is_head(h, data),
    ensures
        is_head(h + tail, data),
{
    let w = h + tail;
    assert(w.subrange(0, 4) =~= h.subrange(0, 4));
    assert(w.subrange(8, 16) =~= h.subrange(8, 16));
    assert(w.subrange(16, 36) =~= h.subrange(16, 36));
    assert(w.subrange(36, 40) =~= h.subrange(36, 40));
}

proof fn lemma_file_head(samples: Seq<i16>)
    requires
        36 + 2 * samples.len() <= u32::MAX,
    ensures
        is_head(wav_file(samples), 2 * samples.len()),
        wav_file(samples).len() == 44 + 2 * samples.len(),
{
    lemma_wav_header_len(2 * samples.len());
    lemma_header_bytes(2 * samples.len());
    lemma_head_of(wav_header(2 * samples.len()), pcm(samples), 2 * samples.len());
    lemma_pcm(samples);
}

proof fn lemma_head_numbers(h: Seq<u8>, data: nat)
    requires
        is_head(h, data),
    ensures
        h[16] == 16 && h[17] == 0 && h[18] == 0 && h[19] == 0,
        h[20] + 256 * h[21] == 1,
        h[22] + 256 * h[23] == 1,
        h[24] + 256 * h[25] + 65_536 * h[26] + 16_777_216 * h[27] == 44_100,
        h[28] + 256 * h[29] + 65_536 * h[30] + 16_777_216 * h[31] == 88_200,
        h[32] + 256 * h[33] == 2,
        h[34] + 256 * h[35] == 16,
{
    let part = h.subrange(16, 36);
    assert forall|k: int| 16 <= k < 36 implies #[trigger] h[k] == part[k - 16] by {}
}

/// The file that `encode_wav` writes is tagged as a WAV file: it starts with
/// `RIFF`, names the format `WAVE` and the first chunk `fmt `, of sixteen bytes,
/// and the second chunk `data`.
pub proof fn law_wav_tags(samples: Vec<i16>, wav: Vec<u8>)
    requires
        36 + 2 * samples@.len() <= u32::MAX,
        call_ensures(encode_wav, (&samples,), wav),
    ensures
        wav@.len() >= 44,
        wav@.subrange(0, 4) == seq!['R' as u8, 'I' as u8, 'F' as u8, 'F' as u8],
        wav@.subrange(8, 16) == seq![
            'W' as u8,
            'A' as u8,
            'V' as u8,
            'E' as u8,
            'f' as u8,
            'm' as u8,
            't' as u8,
            ' ' as u8,
        ],
        wav@[16] == 16 && wav@[17] == 0 && wav@[18] == 0 && wav@[19] == 0,
        wav@.subrange(36, 40) == seq!['d' as u8, 'a' as u8, 't' as u8, 'a' as u8],
{
    lemma_file_head(samples@);
    lemma_head_numbers(wav@, 2 * samples@.len());
}

/// A reader of the file that `encode_wav` writes learns from its numbers, lowest
/// byte first, how many bytes follow each of the two sizes, and that the samples
/// are plain, of one channel, 44 100 a second, of two bytes and sixteen bits
/// each.
pub proof fn law_wav_numbers(samples: Vec<i16>, wav: Vec<u8>)
    requires
        36 + 2 * samples@.len() <= u32::MAX,
        call_ensures(encode_wav, (&samples,), wav),
    ensures
        wav@.len() == 44 + 2 * samples@.len(),
        wav@[4] + 256 * wav@[5] + 65_536 * wav@[6] + 16_777_216 * wav@[7] == wav@.len() - 8,
        wav@[20] + 256 * wav@[21] == 1,
        wav@[22] + 256 * wav@[23] == 1,
        wav@[24] + 256 * wav@[25] + 65_536 * wav@[26] + 16_777_216 * wav@[27] == 44_100,
        wav@[28] + 256 * wav@[29] + 65_536 * wav@[30] + 16_777_216 * wav@[31] == 88_200,
        wav@[32] + 256 * wav@[33] == 2,
        wav@[34] + 256 * wav@[35] == 16,
        wav@[40] + 256 * wav@[41] + 65_536 * wav@[42] + 16_777_216 * wav@[43] == wav@.len() - 44,
{
    lemma_file_head(samples@);
    lemma_head_numbers(wav@, 2 * samples@.len());
}

/// A reader of the file that `encode_wav` writes finds each sample after the head
/// of 44 bytes: two bytes, the lower one first, in two's complement.
pub proof fn law_wav_samples(samples: Vec<i16>, wav: Vec<u8>, i: int)
    requires
        36 + 2 * samples@.len() <= u32::MAX,
        call_ensures(encode_wav, (&samples,), wav),
        0 <= i < samples@.len(),
    ensures
        wav@[44 + 2 * i] + 256 * wav@[45 + 2 * i] == (if samples@[i] < 0 {
            65_536 + samples@[i]
        } else {
            samples@[i] as int
        }),
{
    law_samples_read_back(samples@, i);
}

proof fn lemma_beep_plan(i: int)
    requires
        0 <= i < 33_075,
    ensures
        beep_plan().len() == 33_075,
        ({
            let k = if i < 8_820 {
                0int
            } else if i < 17_640 {
                1
            } else {
                2
            };
            let j = i - 8_820 * k;
            beep_plan()[i] == (if j < beeps()[k].samples {
                Some(point(beeps()[k], j))
            } else {
                None
            })
        }),
{
    reveal_with_fuel(plan, 4);
}

/// The sound of `beep_samples` is three beeps of 880, 1046.5 and 1318.5 hertz, of
/// 150, 150 and 300 milliseconds, with 50 milliseconds of zeros after each. In a
/// beep the wave is asked for each sample once, by its place in the beep. The
/// last tenth of the beep fades, evenly from nothing.
pub proof fn law_beeps_are_sampled<F: Fn(SamplePoint) -> i16>(wave: F, samples: Vec<i16>, i: int)
    requires
        call_ensures(beep_samples::<F>, (&wave,), samples),
        0 <= i < 33_075,
    ensures
        samples@.len() == 33_075,
        ({
            let (start, n, frequency) = if i < 8_820 {
                (0int, 6_615int, 8_800int)
            } else if i < 17_640 {
                (8_820, 6_615, 10_465)
            } else {
                (17_640, 13_230, 13_185)
            };
            let past = i - start - n * 9 / 10;
            if i - start < n {
                exists|p: SamplePoint|
                    {
                        &&& #[trigger] call_ensures(wave, (p,), samples@[i])
                        &&& p.frequency == frequency
                        &&& p.index == i - start
                        &&& p.faded.den > 0
                        &&& past <= 0 ==> p.faded.num == 0
                        &&& past > 0 ==> p.faded.num * (n / 10) == past * p.faded.den
                    }
            } else {
                samples@[i] == 0
            }
        }),
{
    lemma_beep_plan(i);
    match beep_plan()[i] {
        Some(p) => {
            assert(call_ensures(wave, (p,), samples@[i]));
        },
        None => {},
    }
}

/// The file of `generate_beep_wav` is a WAV file of that sound: `RIFF`, `WAVE`,
/// `fmt ` and `data` stand where they belong, and behind the head the samples are
/// those of the three beeps.
pub proof fn law_beep_file<F: Fn(SamplePoint) -> i16>(wave: F, wav: Vec<u8>, i: int)
    requires
        call_ensures(generate_beep_wav::<F>, (&wave,), wav),
        0 <= i < 33_075,
    ensures
        wav@.len() == 44 + 2 * 33_075,
        wav@.subrange(0, 4) == seq!['R' as u8, 'I' as u8, 'F' as u8, 'F' as u8],
        wav@[4] + 256 * wav@[5] + 65_536 * wav@[6] + 16_777_216 * wav@[7] == 66_186,
        wav@.subrange(8, 16) == seq![
            'W' as u8,
            'A' as u8,
            'V' as u8,
            'E' as u8,
            'f' as u8,
            'm' as u8,
            't' as u8,
            ' ' as u8,
        ],
        wav@.subrange(16, 36) == seq![
            16u8, 0, 0, 0, 1, 0, 1, 0, 0x44, 0xac, 0, 0, 0x88, 0x58, 1, 0, 2, 0, 16, 0,
        ],
        wav@.subrange(36, 40) == seq!['d' as u8, 'a' as u8, 't' as u8, 'a' as u8],
        wav@[40] + 256 * wav@[41] + 65_536 * wav@[42] + 16_777_216 * wav@[43] == 66_150,
        ({
            let (start, n, frequency) = if i < 8_820 {
                (0int, 6_615int, 8_800int)
            } else if i < 17_640 {
                (8_820, 6_615, 10_465)
            } else {
                (17_640, 13_230, 13_185)
            };
            let past = i - start - n * 9 / 10;
            let stored = wav@[44 + 2 * i] + 256 * wav@[45 + 2 * i];
            if i - start < n {
                exists|p: SamplePoint, sample: i16|
                    {
                        &&& #[trigger] call_ensures(wave, (p,), sample)
                        &&& stored == sample || stored == 65_536 + sample
                        &&& p.frequency == frequency
                        &&& p.index == i - start
                        &&& p.faded.den > 0
                        &&& past <= 0 ==> p.faded.num == 0
                        &&& past > 0 ==> p.faded.num * (n / 10) == past * p.faded.den
                    }
            } else {
                stored == 0
            }
        }),
{
    let samples = choose|samples: Seq<i16>|
        plays(wave, beep_plan(), samples) && wav@ == #[trigger] wav_file(samples);
    lemma_beep_plan(i);
    lemma_pcm(samples);
    law_samples_read_back(samples, i);
    lemma_file_head(samples);
    match beep_plan()[i] {
        Some(p) => {
            assert(call_ensures(wave, (p,), samples[i]));
        },
        None => {},
    }
}

} // verus!
