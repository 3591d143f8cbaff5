//! 16-bit mono PCM framed as a RIFF/WAVE file in memory.
use vstd::prelude::*;

verus! {

/// Samples per second of every synthesized sound.
pub const SAMPLE_RATE: u32 = 22050;

/// Full-scale sample amplitude: a sample of `FULL_SCALE` is 1.0.
pub const FULL_SCALE: i32 = 32767;

/// Little-endian bytes of a 16-bit value.
pub open spec fn le16(x: int) -> Seq<u8> {
    seq![(x % 256) as u8, ((x / 256) % 256) as u8]
}

/// Little-endian bytes of a 32-bit value.
pub open spec fn le32(x: int) -> Seq<u8> {
    seq![
        (x % 256) as u8,
        ((x / 256) % 256) as u8,
        ((x / 65536) % 256) as u8,
        ((x / 16777216) % 256) as u8,
    ]
}

/// A sample clamped to the range that a PCM word holds, `-1.0..=1.0`.
pub open spec fn pcm_clamp(v: int) -> int {
    if v > FULL_SCALE {
        FULL_SCALE as int
    } else if v < -FULL_SCALE {
        -FULL_SCALE
    } else {
        v
    }
}

/// The clamped sample as an unsigned 16-bit two's-complement word.
pub open spec fn pcm_word(v: int) -> int {
    let c = pcm_clamp(v);
    if c < 0 {
        c + 65536
    } else {
        c
    }
}

/// Byte `j` of the PCM data of `s`: two little-endian bytes per sample.
pub open spec fn pcm_byte(s: Seq<i32>, j: int) -> u8 {
    let w = pcm_word(s[j / 2] as int);
    if j % 2 == 0 {
        (w % 256) as u8
    } else {
        (w / 256) as u8
    }
}

/// The PCM data chunk's payload for the samples `s`.
pub open spec fn pcm_bytes(s: Seq<i32>) -> Seq<u8> {
    Seq::new(2 * s.len(), |j: int| pcm_byte(s, j))
}

/// The 44-byte header of a mono 16-bit WAVE file holding `n` samples.
pub open spec fn wav_header(n: nat) -> Seq<u8> {
    seq![82u8, 73, 70, 70] + le32(36 + 2 * n as int)  // "RIFF"
     + seq![87u8, 65, 86, 69]  // "WAVE"
     + seq![102u8, 109, 116, 32]  // "fmt "
     + le32(16)  // fmt chunk size
     + le16(1)  // PCM
     + le16(1)  // mono
     + le32(SAMPLE_RATE as int) + le32(2 * SAMPLE_RATE as int)  // byte rate
     + le16(2)  // block align
     + le16(16)  // bits per sample
     + seq![100u8, 97, 116, 97]  // "data"
     + le32(2 * n as int)
}

/// The complete WAVE file of the samples `s`.
pub open spec fn wav_spec(s: Seq<i32>) -> Seq<u8> {
    wav_header(s.len()) + pcm_bytes(s)
}

fn push_le16(out: &mut Vec<u8>, x: u32)
    requires
        x < 65536,
    ensures
        final(out)@ == old(out)@ + le16(x as int),
{
    out.push((x % 256) as u8);
    out.push(((x / 256) % 256) as u8);
}

fn push_le32(out: &mut Vec<u8>, x: u32)
    ensures
        final(out)@ == old(out)@ + le32(x as int),
{
    out.push((x % 256) as u8);
    out.push(((x / 256) % 256) as u8);
    out.push(((x / 65536) % 256) as u8);
    out.push(((x / 16777216) % 256) as u8);
}

/// Write samples (full scale `-FULL_SCALE..=FULL_SCALE`, louder ones are
/// clamped) into a 16-bit mono WAVE file in memory.
pub fn wav_bytes(samples: &[i32]) -> (out: Vec<u8>)
    requires
        36 + 2 * samples@.len() <= u32::MAX,
    ensures
        out@ == wav_spec(samples@),
        out@.len() == 44 + 2 * samples@.len(),
{
    let n = samples.len() as u32;
    let mut out: Vec<u8> = Vec::new();
    out.push(82);
    out.push(73);
    out.push(70);
    out.push(70);
    push_le32(&mut out, 36 + n * 2);
    out.push(87);
    out.push(65);
    out.push(86);
    out.push(69);
    out.push(102);
    out.push(109);
    out.push(116);
    out.push(32);
    push_le32(&mut out, 16);
    push_le16(&mut out, 1);
    push_le16(&mut out, 1);
    push_le32(&mut out, SAMPLE_RATE);
    push_le32(&mut out, SAMPLE_RATE * 2);
    push_le16(&mut out, 2);
    push_le16(&mut out, 16);
    out.push(100);
    out.push(97);
    out.push(116);
    out.push(97);
    push_le32(&mut out, n * 2);
    let ghost header = out@;
    assert(header =~= wav_header(samples@.len()));
    let mut i: usize = 0;
    while i < samples.len()
        invariant
            i <= samples@.len(),
            header == wav_header(samples@.len()),
            header.len() == 44,
            out@.len() == 44 + 2 * i,
            out@.take(44) == header,
            forall|j: int| 0 <= j < 2 * i ==> out@[44 + j] == pcm_byte(samples@, j),
        decreases samples@.len() - i,
    {
        let v = samples[i];
        let c: i32 = if v > FULL_SCALE {
            FULL_SCALE
        } else if v < -FULL_SCALE {
            -FULL_SCALE
        } else {
            v
        };
        let w: u32 = if c < 0 {
            (c + 65536) as u32
        } else {
            c as u32
        };
        out.push((w % 256) as u8);
        out.push((w / 256) as u8);
        proof {
            assert(out@.take(44) =~= header);
            assert forall|j: int| 0 <= j < 2 * (i + 1) implies out@[44 + j] == pcm_byte(
                samples@,
                j,
            ) by {
                if j >= 2 * i {
                    assert(j / 2 == i);
                }
            }
        }
        i += 1;
    }
    assert(out@ =~= wav_spec(samples@));
    out
}

} // verus!
