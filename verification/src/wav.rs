//! Sixteen-bit mono WAV files at 16 kHz.

use vstd::prelude::*;

verus! {

/// The bytes of a sixteen-bit number, the low byte first.
pub open spec fn short_bytes(value: int) -> Seq<u8> {
    seq![(value % 256) as u8, (value / 256 % 256) as u8]
}

/// The bytes of a 32-bit number, the low byte first.
pub open spec fn word_bytes(value: int) -> Seq<u8> {
    seq![
        (value % 256) as u8,
        (value / 256 % 256) as u8,
        (value / 65_536 % 256) as u8,
        (value / 16_777_216 % 256) as u8,
    ]
}

/// The 32-bit number whose bytes stand at a place, the low byte first.
pub open spec fn word_at(bytes: Seq<u8>, at: int) -> int {
    bytes[at] + 256 * bytes[at + 1] + 65_536 * bytes[at + 2] + 16_777_216 * bytes[at + 3]
}

/// A sample as the unsigned number with the same bits.
pub open spec fn sample_bits(sample: i16) -> int {
    if sample >= 0 {
        sample as int
    } else {
        sample + 65_536
    }
}

/// The sample whose bytes stand at a place, the low byte first.
pub open spec fn sample_at(bytes: Seq<u8>, at: int) -> int {
    let bits = bytes[at] + 256 * bytes[at + 1];
    if bits < 32_768 {
        bits
    } else {
        bits - 65_536
    }
}

/// The bytes of the samples, one after the other.
pub open spec fn sample_bytes(samples: Seq<i16>) -> Seq<u8>
    decreases samples.len(),
{
    if samples.len() == 0 {
        seq![]
    } else {
        sample_bytes(samples.drop_last()) + short_bytes(sample_bits(samples.last()))
    }
}

/// The length of the sample bytes as the header's 32-bit field holds it.
pub open spec fn data_length(count: nat) -> int {
    (2 * count) as int % 0x1_0000_0000
}

/// What the header says of the format: one channel of sixteen-bit samples, 16 000
/// a second.
#[verifier::opaque]
pub open spec fn wav_format() -> Seq<u8> {
    seq![87u8, 65u8, 86u8, 69u8] + seq![102u8, 109u8, 116u8, 32u8] + word_bytes(16) + short_bytes(1)
        + short_bytes(1) + word_bytes(16_000) + word_bytes(32_000) + short_bytes(2) + short_bytes(
        16,
    ) + seq![100u8, 97u8, 116u8, 97u8]
}

/// The 44 bytes before the samples.
pub open spec fn wav_header(count: nat) -> Seq<u8> {
    seq![82u8, 73u8, 70u8, 70u8] + word_bytes(36 + data_length(count)) + wav_format() + word_bytes(
        data_length(count),
    )
}

/// A WAV file with the samples.
pub open spec fn wav_file(samples: Seq<i16>) -> Seq<u8> {
    wav_header(samples.len()) + sample_bytes(samples)
}

fn push_byte_list(out: &mut Vec<u8>, bytes: [u8; 4])
    ensures
        final(out)@ == old(out)@ + bytes@,
{
    let mut i: usize = 0;
    while i < 4
        invariant
            i <= 4,
            out@ == old(out)@ + bytes@.take(i as int),
        decreases 4 - i,
    {
        out.push(bytes[i]);
        assert(bytes@.take(i + 1) =~= bytes@.take(i as int).push(bytes@[i as int]));
        i += 1;
    }
    assert(bytes@.take(4) =~= bytes@);
}

fn push_short(out: &mut Vec<u8>, value: u16)
    ensures
        final(out)@ == old(out)@ + short_bytes(value as int),
{
    out.push((value % 256) as u8);
    out.push((value / 256 % 256) as u8);
    assert(out@ =~= old(out)@ + short_bytes(value as int));
}

fn push_word(out: &mut Vec<u8>, value: u32)
    ensures
        final(out)@ == old(out)@ + word_bytes(value as int),
{
    out.push((value % 256) as u8);
    out.push((value / 256 % 256) as u8);
    out.push((value / 65_536 % 256) as u8);
    out.push((value / 16_777_216 % 256) as u8);
    assert(out@ =~= old(out)@ + word_bytes(value as int));
}

/// Writes samples as a WAV file: the header and the samples, the low byte first.
/// A length that the header's field cannot hold is stored without its high bits.
pub fn write_pcm16_mono_16khz_wav(samples: &[i16]) -> (out: Vec<u8>)
    requires
        samples@.len() * 2 <= usize::MAX,
        36 + data_length(samples@.len()) <= u32::MAX,
    ensures
        out@ == wav_file(samples@),
{
    let data_len: u32 = ((samples.len() * 2) as u64 % 0x1_0000_0000) as u32;
    let riff_len: u32 = 36 + data_len;
    let mut out: Vec<u8> = Vec::new();
    push_byte_list(&mut out, [82, 73, 70, 70]);
    push_word(&mut out, riff_len);
    push_byte_list(&mut out, [87, 65, 86, 69]);
    push_byte_list(&mut out, [102, 109, 116, 32]);
    push_word(&mut out, 16);
    push_short(&mut out, 1);
    push_short(&mut out, 1);
    push_word(&mut out, 16_000);
    push_word(&mut out, 32_000);
    push_short(&mut out, 2);
    push_short(&mut out, 16);
    push_byte_list(&mut out, [100, 97, 116, 97]);
    push_word(&mut out, data_len);
    assert(out@ =~= wav_header(samples@.len())) by {
        reveal(wav_format);
    }
    let mut i: usize = 0;
    assert(sample_bytes(samples@.take(0)) =~= seq![]);
    while i < samples.len()
        invariant
            i <= samples@.len(),
            out@ == wav_header(samples@.len()) + sample_bytes(samples@.take(i as int)),
        decreases samples@.len() - i,
    {
        let sample: i16 = samples[i];
        let bits: u16 = if sample >= 0 {
            sample as u16
        } else {
            (sample as i32 + 65_536) as u16
        };
        push_short(&mut out, bits);
        proof {
            let taken = samples@.take(i + 1);
            assert(taken.drop_last() =~= samples@.take(i as int));
            assert(out@ =~= wav_header(samples@.len()) + sample_bytes(taken));
        }
        i += 1;
    }
    assert(samples@.take(i as int) =~= samples@);
    out
}

proof fn lemma_sample_bytes(samples: Seq<i16>, i: int)
    requires
        0 <= i < samples.len(),
    ensures
        sample_bytes(samples).len() == 2 * samples.len(),
        sample_at(sample_bytes(samples), 2 * i) == samples[i],
    decreases samples.len(),
{
    let init = samples.drop_last();
    if i < init.len() {
        lemma_sample_bytes(init, i);
    } else {
        if init.len() > 0 {
            lemma_sample_bytes(init, 0);
        } else {
            assert(sample_bytes(init) =~= seq![]);
        }
        let bits = sample_bits(samples.last());
        assert(bits == bits % 256 + 256 * (bits / 256 % 256));
    }
}

proof fn lemma_format()
    ensures
        wav_format().len() == 32,
{
    reveal(wav_format);
}

proof fn lemma_header(lead: Seq<u8>, first: Seq<u8>, format: Seq<u8>, last: Seq<u8>)
    requires
        lead.len() == 4,
        first.len() == 4,
        format.len() == 32,
        last.len() == 4,
    ensures
        (lead + first + format + last).len() == 44,
        word_at(lead + first + format + last, 4) == word_at(first, 0),
        word_at(lead + first + format + last, 40) == word_at(last, 0),
{
}

proof fn lemma_header_words(count: nat)
    requires
        36 + 2 * count <= u32::MAX,
    ensures
        wav_header(count).len() == 44,
        word_at(wav_header(count), 4) == 36 + 2 * count,
        word_at(wav_header(count), 40) == 2 * count,
{
    let length = data_length(count);
    assert(length == 2 * count);
    lemma_word(36 + length);
    lemma_word(length);
    lemma_format();
    lemma_header(
        seq![82u8, 73u8, 70u8, 70u8],
        word_bytes(36 + length),
        wav_format(),
        word_bytes(length),
    );
}

proof fn lemma_sample_count(samples: Seq<i16>)
    ensures
        sample_bytes(samples).len() == 2 * samples.len(),
{
    if samples.len() > 0 {
        lemma_sample_bytes(samples, 0);
    }
}

/// A WAV file gives back what was written to it: its header counts the bytes that
/// follow, and each sample is found at its place.
pub proof fn law_wav_reads_back(samples: Seq<i16>, i: int)
    requires
        36 + 2 * samples.len() <= u32::MAX,
    ensures
        wav_file(samples).len() == 44 + 2 * samples.len(),
        word_at(wav_file(samples), 4) == wav_file(samples).len() - 8,
        word_at(wav_file(samples), 40) == 2 * samples.len(),
        0 <= i < samples.len() ==> sample_at(wav_file(samples), 44 + 2 * i) == samples[i],
{
    let count = samples.len();
    lemma_header_words(count);
    lemma_sample_count(samples);
    lemma_parts(wav_header(count), sample_bytes(samples), i);
    if 0 <= i < count {
        lemma_sample_bytes(samples, i);
    }
}

proof fn lemma_parts(header: Seq<u8>, data: Seq<u8>, i: int)
    requires
        header.len() == 44,
    ensures
        word_at(header + data, 4) == word_at(header, 4),
        word_at(header + data, 40) == word_at(header, 40),
        0 <= i && 2 * i + 1 < data.len() ==> sample_at(header + data, 44 + 2 * i) == sample_at(
            data,
            2 * i,
        ),
{
}

proof fn lemma_word(value: int)
    requires
        0 <= value <= u32::MAX,
    ensures
        word_at(word_bytes(value), 0) == value,
{
    let bytes = word_bytes(value);
    assert(value / 65_536 == value / 256 / 256);
    assert(value / 16_777_216 == value / 65_536 / 256);
    assert(value / 16_777_216 < 256);
}

/// A file begins as a RIFF file of the WAVE kind, says in its format part that it holds
/// one channel of sixteen-bit samples at 16 000 a second, and then come the samples. Each
/// sample takes two bytes, the low one first, and a negative one stands as its complement.
pub proof fn law_wav_is_sixteen_bit_mono(samples: Seq<i16>, i: int)
    requires
        36 + 2 * samples.len() <= u32::MAX,
    ensures
        wav_file(samples).subrange(0, 4) == seq![0x52u8, 0x49, 0x46, 0x46],
        wav_file(samples).subrange(8, 40) == seq![
            0x57u8, 0x41, 0x56, 0x45, 0x66, 0x6d, 0x74, 0x20, 0x10, 0, 0, 0, 1, 0, 1, 0, 0x80, 0x3e,
            0, 0, 0, 0x7d, 0, 0, 2, 0, 0x10, 0, 0x64, 0x61, 0x74, 0x61,
        ],
        wav_file(samples)[40] + 0x100 * wav_file(samples)[41] + 0x1_0000 * wav_file(samples)[42]
            + 0x100_0000 * wav_file(samples)[43] == 2 * samples.len(),
        wav_file(samples)[4] + 0x100 * wav_file(samples)[5] + 0x1_0000 * wav_file(samples)[6]
            + 0x100_0000 * wav_file(samples)[7] == 36 + 2 * samples.len(),
        0 <= i < samples.len() ==> wav_file(samples)[44 + 2 * i] + 0x100 * wav_file(samples)[45 + 2
            * i] == if samples[i] < 0 {
            samples[i] + 0x1_0000
        } else {
            samples[i] as int
        },
{
    law_wav_reads_back(samples, i);
    lemma_sample_count(samples);
    let count = samples.len();
    let file = wav_file(samples);
    reveal(wav_format);
    assert(wav_format().len() == 32);
    assert(file.subrange(0, 4) =~= seq![0x52u8, 0x49, 0x46, 0x46]);
    assert(file.subrange(8, 40) =~= wav_format());
    assert(wav_format() =~= seq![
        0x57u8, 0x41, 0x56, 0x45, 0x66, 0x6d, 0x74, 0x20, 0x10, 0, 0, 0, 1, 0, 1, 0, 0x80, 0x3e, 0,
        0, 0, 0x7d, 0, 0, 2, 0, 0x10, 0, 0x64, 0x61, 0x74, 0x61,
    ]);
    if 0 <= i < count {
        assert(sample_at(file, 44 + 2 * i) == samples[i]);
    }
}

} // verus!
