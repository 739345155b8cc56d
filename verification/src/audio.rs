//! The header of the WAV file in which a recorded voice message is sent: mono, 16-bit PCM.
use vstd::prelude::*;

verus! {

/// The two little-endian bytes of a number below 2^16.
pub open spec fn le16(x: nat) -> Seq<u8> {
    seq![(x % 256) as u8, ((x / 256) % 256) as u8]
}

/// The four little-endian bytes of a number below 2^32.
pub open spec fn le32(x: nat) -> Seq<u8> {
    seq![(x % 256) as u8, ((x / 256) % 256) as u8, ((x / 65536) % 256) as u8, ((x / 16777216) % 256) as u8]
}

/// The size in bytes of the samples of a recording: two per sample, as a 32-bit field keeps it.
pub open spec fn wav_data_len(num_samples: nat) -> nat {
    (num_samples * 2) % 0x1_0000_0000
}

/// The 44-byte header of a mono 16-bit PCM WAV file with `num_samples` samples at `sample_rate`
/// samples per second: the RIFF chunk, the `fmt ` chunk (PCM, one channel, the rate, the byte
/// rate, a block of two bytes, sixteen bits a sample) and the head of the `data` chunk.
pub open spec fn wav_header_spec(num_samples: nat, sample_rate: nat) -> Seq<u8> {
    let data_len = wav_data_len(num_samples);
    seq![82u8, 73u8, 70u8, 70u8] + le32(36 + data_len) + seq![87u8, 65u8, 86u8, 69u8] + seq![
        102u8,
        109u8,
        116u8,
        32u8,
    ] + le32(16) + le16(1) + le16(1) + le32(sample_rate) + le32(sample_rate * 2) + le16(2) + le16(16) + seq![
        100u8,
        97u8,
        116u8,
        97u8,
    ] + le32(data_len)
}

/// The number that four bytes hold, least significant first.
pub open spec fn read_le32(b: Seq<u8>, at: int) -> nat {
    (b[at] + 256 * b[at + 1] + 65536 * b[at + 2] + 16777216 * b[at + 3]) as nat
}

proof fn lemma_le32_reads_back(x: u32)
    ensures
        read_le32(le32(x as nat), 0) == x,
{
    assert(x % 256 + 256 * ((x / 256) % 256) + 65536 * ((x / 65536) % 256) + 16777216 * ((x / 16777216) % 256) == x)
        by (bit_vector);
    let b = le32(x as nat);
    assert(b[0] == x % 256);
    assert(b[1] == (x / 256) % 256);
    assert(b[2] == (x / 65536) % 256);
    assert(b[3] == (x / 16777216) % 256);
}

/// Law of the WAV header: it is 44 bytes long; its RIFF size field (bytes 4 to 8) holds 36 plus
/// the data size, its data size field (bytes 40 to 44) holds two bytes for every sample, and its
/// rate fields (bytes 24 to 32) hold the sample rate and twice it, whenever these fit the 32-bit
/// fields.
pub proof fn lemma_wav_header_sizes(num_samples: nat, sample_rate: nat)
    requires
        num_samples * 2 + 36 <= u32::MAX,
        sample_rate * 2 <= u32::MAX,
    ensures
        wav_header_spec(num_samples, sample_rate).len() == 44,
        read_le32(wav_header_spec(num_samples, sample_rate), 40) == num_samples * 2,
        read_le32(wav_header_spec(num_samples, sample_rate), 4) == num_samples * 2 + 36,
        read_le32(wav_header_spec(num_samples, sample_rate), 24) == sample_rate,
        read_le32(wav_header_spec(num_samples, sample_rate), 28) == sample_rate * 2,
{
    let h = wav_header_spec(num_samples, sample_rate);
    let data = num_samples * 2;
    assert(data % 0x1_0000_0000 == data);
    lemma_le32_reads_back(data as u32);
    lemma_le32_reads_back((data + 36) as u32);
    lemma_le32_reads_back(sample_rate as u32);
    lemma_le32_reads_back((sample_rate * 2) as u32);
    assert(h.subrange(40, 44) =~= le32(data));
    assert(h.subrange(4, 8) =~= le32(data + 36));
    assert(h.subrange(24, 28) =~= le32(sample_rate));
    assert(h.subrange(28, 32) =~= le32(sample_rate * 2));
}

/// Appends the little-endian bytes of a 16-bit number.
fn push_le16(out: &mut Vec<u8>, x: u16)
    ensures
        final(out)@ == old(out)@ + le16(x as nat),
{
    out.push((x % 256) as u8);
    out.push(((x / 256) % 256) as u8);
    assert(final(out)@ =~= old(out)@ + le16(x as nat));
}

/// Appends the little-endian bytes of a 32-bit number.
fn push_le32(out: &mut Vec<u8>, x: u32)
    ensures
        final(out)@ == old(out)@ + le32(x as nat),
{
    out.push((x % 256) as u8);
    out.push(((x / 256) % 256) as u8);
    out.push(((x / 65536) % 256) as u8);
    out.push(((x / 16777216) % 256) as u8);
    assert(final(out)@ =~= old(out)@ + le32(x as nat));
}

/// Appends four bytes.
fn push4(out: &mut Vec<u8>, a: u8, b: u8, c: u8, d: u8)
    ensures
        final(out)@ == old(out)@ + seq![a, b, c, d],
{
    out.push(a);
    out.push(b);
    out.push(c);
    out.push(d);
    assert(final(out)@ =~= old(out)@ + seq![a, b, c, d]);
}

/// The WAV header for `num_samples` mono 16-bit samples at `sample_rate` samples per second.
/// The sizes are 32-bit fields: the data size wraps as a 32-bit number; the sizes that the header
/// adds up must not overflow.
pub fn wav_header(num_samples: usize, sample_rate: u32) -> (r: Vec<u8>)
    requires
        num_samples * 2 <= usize::MAX,
        wav_data_len(num_samples as nat) + 36 <= u32::MAX,
        sample_rate * 2 <= u32::MAX,
    ensures
        r@ == wav_header_spec(num_samples as nat, sample_rate as nat),
        r@.len() == 44,
{
    let doubled: u64 = (num_samples * 2) as u64;
    let data_len: u32 = (doubled % 0x1_0000_0000u64) as u32;
    let mut out: Vec<u8> = Vec::new();
    push4(&mut out, 82, 73, 70, 70);
    push_le32(&mut out, 36 + data_len);
    push4(&mut out, 87, 65, 86, 69);
    push4(&mut out, 102, 109, 116, 32);
    push_le32(&mut out, 16);
    push_le16(&mut out, 1);
    push_le16(&mut out, 1);
    push_le32(&mut out, sample_rate);
    push_le32(&mut out, sample_rate * 2);
    push_le16(&mut out, 2);
    push_le16(&mut out, 16);
    push4(&mut out, 100, 97, 116, 97);
    push_le32(&mut out, data_len);
    assert(out@ =~= wav_header_spec(num_samples as nat, sample_rate as nat));
    out
}

} // verus!
