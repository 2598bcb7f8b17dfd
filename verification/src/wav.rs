//! Framing of 16-bit mono PCM samples as a RIFF/WAVE file.

use vstd::prelude::*;

verus! {

/// Little-endian bytes of a 32-bit value.
pub open spec fn le_u32(x: u32) -> Seq<u8> {
    seq![(x % 256) as u8, ((x / 256) % 256) as u8, ((x / 65536) % 256) as u8, ((x / 16777216) % 256) as u8]
}

/// Little-endian bytes of a 16-bit value.
pub open spec fn le_u16(x: u16) -> Seq<u8> {
    seq![(x % 256) as u8, ((x / 256) % 256) as u8]
}

/// Little-endian two's-complement bytes of a signed 16-bit sample.
pub open spec fn le_i16(x: i16) -> Seq<u8> {
    le_u16(x as u16)
}

/// The four ASCII bytes of a chunk tag.
pub open spec fn tag(a: u8, b: u8, c: u8, d: u8) -> Seq<u8> {
    seq![a, b, c, d]
}

/// The 44-byte header of a mono 16-bit PCM file with `sample_count` samples.
pub open spec fn wav_header(sample_count: nat, sample_rate: u32) -> Seq<u8> {
    let data_len = (2 * sample_count) as u32;
    tag(82, 73, 70, 70)  // RIFF
    + le_u32((36 + data_len) as u32)
    + tag(87, 65, 86, 69)  // WAVE
    + tag(102, 109, 116, 32)  // "fmt "
    + le_u32(16)
    + le_u16(1)  // PCM
    + le_u16(1)  // one channel
    + le_u32(sample_rate)
    + le_u32((sample_rate * 2) as u32)  // byte rate
    + le_u16(2)  // block align
    + le_u16(16)  // bits per sample
    + tag(100, 97, 116, 97)  // data
    + le_u32(data_len)
}

/// The samples, two bytes each, in order.
pub open spec fn pcm_bytes(pcm: Seq<i16>) -> Seq<u8> {
    Seq::new(2 * pcm.len(), |i: int| le_i16(pcm[i / 2])[i % 2])
}

/// The whole file: header, then samples.
pub open spec fn wav_file(pcm: Seq<i16>, sample_rate: u32) -> Seq<u8> {
    wav_header(pcm.len(), sample_rate) + pcm_bytes(pcm)
}

fn push_u32_le(out: &mut Vec<u8>, x: u32)
    ensures
        final(out)@ == old(out)@ + le_u32(x),
{
    out.push((x % 256) as u8);
    out.push(((x / 256) % 256) as u8);
    out.push(((x / 65536) % 256) as u8);
    out.push(((x / 16777216) % 256) as u8);
    assert(out@ =~= old(out)@ + le_u32(x));
}

fn push_u16_le(out: &mut Vec<u8>, x: u16)
    ensures
        final(out)@ == old(out)@ + le_u16(x),
{
    out.push((x % 256) as u8);
    out.push(((x / 256) % 256) as u8);
    assert(out@ =~= old(out)@ + le_u16(x));
}

fn push_tag(out: &mut Vec<u8>, a: u8, b: u8, c: u8, d: u8)
    ensures
        final(out)@ == old(out)@ + tag(a, b, c, d),
{
    out.push(a);
    out.push(b);
    out.push(c);
    out.push(d);
    assert(out@ =~= old(out)@ + tag(a, b, c, d));
}

/// The header bytes of a mono 16-bit PCM file.
fn wav_header_bytes(sample_count: usize, sample_rate: u32) -> (r: Vec<u8>)
    requires
        2 * sample_count <= usize::MAX,
        ((2 * sample_count) as u32) + 44 <= u32::MAX,
        2 * sample_rate <= u32::MAX,
    ensures
        r@ == wav_header(sample_count as nat, sample_rate),
{
    let channels: u16 = 1;
    let bits_per_sample: u16 = 16;
    let data_bytes_len = (sample_count * 2) as u32;
    let bytes_per_sample: u32 = channels as u32 * (bits_per_sample as u32 / 8);
    assert(bytes_per_sample == 2);
    let byte_rate = sample_rate * bytes_per_sample;
    let block_align = channels * (bits_per_sample / 8);
    let riff_chunk_size = 36 + data_bytes_len;

    let mut wav: Vec<u8> = Vec::with_capacity((44 + data_bytes_len) as usize);
    push_tag(&mut wav, 82, 73, 70, 70);
    push_u32_le(&mut wav, riff_chunk_size);
    push_tag(&mut wav, 87, 65, 86, 69);
    push_tag(&mut wav, 102, 109, 116, 32);
    push_u32_le(&mut wav, 16);
    push_u16_le(&mut wav, 1);
    push_u16_le(&mut wav, channels);
    push_u32_le(&mut wav, sample_rate);
    push_u32_le(&mut wav, byte_rate);
    push_u16_le(&mut wav, block_align);
    push_u16_le(&mut wav, bits_per_sample);
    push_tag(&mut wav, 100, 97, 116, 97);
    push_u32_le(&mut wav, data_bytes_len);
    assert(wav@ =~= wav_header(sample_count as nat, sample_rate));
    wav
}

/// The samples as little-endian byte pairs.
fn pcm_sample_bytes(pcm: &[i16]) -> (r: Vec<u8>)
    ensures
        r@ == pcm_bytes(pcm@),
{
    let mut out: Vec<u8> = Vec::new();
    let mut i: usize = 0;
    while i < pcm.len()
        invariant
            i <= pcm@.len(),
            out@.len() == 2 * i,
            forall|k: int| 0 <= k < 2 * i ==> #[trigger] out@[k] == pcm_bytes(pcm@)[k],
        decreases pcm@.len() - i,
    {
        let sample = pcm[i] as u16;
        out.push((sample % 256) as u8);
        out.push(((sample / 256) % 256) as u8);
        i = i + 1;
    }
    assert(out@ =~= pcm_bytes(pcm@));
    out
}

/// Frames mono 16-bit samples at `sample_rate` as a WAVE file.
///
/// The data length field holds the byte count of the samples cut to 32 bits,
/// and that field plus the 44 header bytes must fit in 32 bits; the byte
/// rate, twice the sample rate, must fit as well.
pub fn pcm_to_wav(pcm: &[i16], sample_rate: u32) -> (r: Vec<u8>)
    requires
        2 * pcm@.len() <= usize::MAX,
        ((2 * pcm@.len()) as u32) + 44 <= u32::MAX,
        2 * sample_rate <= u32::MAX,
    ensures
        r@ == wav_file(pcm@, sample_rate),
{
    let mut wav = wav_header_bytes(pcm.len(), sample_rate);
    let mut samples = pcm_sample_bytes(pcm);
    wav.append(&mut samples);
    wav
}


// ---------------------------------------------------------------------------
// Reading a file back

/// The little-endian 32-bit value at byte `at`.
pub open spec fn read_u32(wav: Seq<u8>, at: int) -> int {
    wav[at] + wav[at + 1] * 256 + wav[at + 2] * 65536 + wav[at + 3] * 16777216
}

/// The sample stored at bytes `44 + 2 * i` and `45 + 2 * i`.
pub open spec fn read_sample(wav: Seq<u8>, i: int) -> i16 {
    ((wav[44 + 2 * i] as u16) + (wav[45 + 2 * i] as u16) * 256) as u16 as i16
}

proof fn lemma_i16_bytes_roundtrip(x: i16)
    ensures
        ((((x as u16) % 256) as u8 as u16) + ((((x as u16) / 256) % 256) as u8 as u16) * 256) as u16 as i16 == x,
{
    assert(((((x as u16) % 256) as u8 as u16) + ((((x as u16) / 256) % 256) as u8 as u16) * 256) as u16 as i16 == x)
        by (bit_vector);
}

proof fn lemma_u32_bytes_roundtrip(x: u32)
    ensures
        read_u32(le_u32(x), 0) == x,
{
    assert(((x % 256) as u8) as int + ((x / 256) % 256) as u8 as int * 256 + ((x / 65536) % 256) as u8 as int * 65536
        + ((x / 16777216) % 256) as u8 as int * 16777216 == x as int) by (bit_vector);
}

/// A file read back gives what was framed: the header declares the sample
/// rate and the byte length of the data, and each sample decodes, little
/// endian, to the sample that was written.
pub proof fn lemma_wav_reads_back(pcm: Seq<i16>, sample_rate: u32)
    requires
        2 * pcm.len() + 44 <= u32::MAX,
    ensures
        wav_file(pcm, sample_rate).len() == 44 + 2 * pcm.len(),
        read_u32(wav_file(pcm, sample_rate), 24) == sample_rate,
        read_u32(wav_file(pcm, sample_rate), 40) == 2 * pcm.len(),
        forall|i: int| 0 <= i < pcm.len() ==> #[trigger] read_sample(wav_file(pcm, sample_rate), i) == pcm[i],
{
    let wav = wav_file(pcm, sample_rate);
    let header = wav_header(pcm.len(), sample_rate);
    assert(header.len() == 44);
    lemma_u32_bytes_roundtrip(sample_rate);
    lemma_u32_bytes_roundtrip((2 * pcm.len()) as u32);
    assert(header.subrange(24, 28) =~= le_u32(sample_rate));
    assert(header.subrange(40, 44) =~= le_u32((2 * pcm.len()) as u32));
    assert forall|i: int| 0 <= i < pcm.len() implies #[trigger] read_sample(wav, i) == pcm[i] by {
        lemma_i16_bytes_roundtrip(pcm[i]);
        assert(wav[44 + 2 * i] == pcm_bytes(pcm)[2 * i]);
        assert(wav[45 + 2 * i] == pcm_bytes(pcm)[2 * i + 1]);
    }
}


/// The little-endian 16-bit value at byte `at`.
pub open spec fn read_u16(wav: Seq<u8>, at: int) -> int {
    wav[at] + wav[at + 1] * 256
}

proof fn lemma_u16_bytes_roundtrip(x: u16)
    ensures
        read_u16(le_u16(x), 0) == x,
{
    assert(((x % 256) as u8) as int + ((x / 256) % 256) as u8 as int * 256 == x as int) by (bit_vector);
}

/// The header of a framed file, field by field: `RIFF`, the byte count of
/// the rest of the file (36 plus the data), `WAVE`, a 16-byte `fmt ` chunk
/// for uncompressed PCM (format 1) with one channel at the sample rate, a
/// byte rate of twice the sample rate, blocks of 2 bytes and 16 bits per
/// sample, then the `data` chunk with the byte count of the samples.
pub proof fn lemma_wav_header_fields(pcm: Seq<i16>, sample_rate: u32)
    requires
        2 * pcm.len() + 44 <= u32::MAX,
        2 * sample_rate <= u32::MAX,
    ensures
        ({
            let wav = wav_file(pcm, sample_rate);
            &&& wav.subrange(0, 4) == seq![82u8, 73u8, 70u8, 70u8]
            &&& read_u32(wav, 4) == 36 + 2 * pcm.len()
            &&& wav.subrange(8, 12) == seq![87u8, 65u8, 86u8, 69u8]
            &&& wav.subrange(12, 16) == seq![102u8, 109u8, 116u8, 32u8]
            &&& read_u32(wav, 16) == 16
            &&& read_u16(wav, 20) == 1
            &&& read_u16(wav, 22) == 1
            &&& read_u32(wav, 24) == sample_rate
            &&& read_u32(wav, 28) == 2 * sample_rate
            &&& read_u16(wav, 32) == 2
            &&& read_u16(wav, 34) == 16
            &&& wav.subrange(36, 40) == seq![100u8, 97u8, 116u8, 97u8]
            &&& read_u32(wav, 40) == 2 * pcm.len()
        }),
{
    let wav = wav_file(pcm, sample_rate);
    let header = wav_header(pcm.len(), sample_rate);
    let data_len = (2 * pcm.len()) as u32;
    assert(header.len() == 44);
    lemma_u32_bytes_roundtrip((36 + data_len) as u32);
    lemma_u32_bytes_roundtrip(16);
    lemma_u32_bytes_roundtrip(sample_rate);
    lemma_u32_bytes_roundtrip((sample_rate * 2) as u32);
    lemma_u32_bytes_roundtrip(data_len);
    lemma_u16_bytes_roundtrip(1);
    lemma_u16_bytes_roundtrip(2);
    lemma_u16_bytes_roundtrip(16);
    assert(header.subrange(4, 8) =~= le_u32((36 + data_len) as u32));
    assert(header.subrange(16, 20) =~= le_u32(16));
    assert(header.subrange(20, 22) =~= le_u16(1));
    assert(header.subrange(22, 24) =~= le_u16(1));
    assert(header.subrange(24, 28) =~= le_u32(sample_rate));
    assert(header.subrange(28, 32) =~= le_u32((sample_rate * 2) as u32));
    assert(header.subrange(32, 34) =~= le_u16(2));
    assert(header.subrange(34, 36) =~= le_u16(16));
    assert(header.subrange(40, 44) =~= le_u32(data_len));
    assert(wav.subrange(0, 44) =~= header);
    assert(wav.subrange(0, 4) =~= seq![82u8, 73u8, 70u8, 70u8]);
    assert(wav.subrange(8, 12) =~= seq![87u8, 65u8, 86u8, 69u8]);
    assert(wav.subrange(12, 16) =~= seq![102u8, 109u8, 116u8, 32u8]);
    assert(wav.subrange(36, 40) =~= seq![100u8, 97u8, 116u8, 97u8]);
}

}
