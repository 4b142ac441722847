//! WAV files: mono, 16-bit PCM.
use vstd::prelude::*;

verus! {

/// The two bytes of a number below 2^16, least significant first.
pub open spec fn le16(n: nat) -> Seq<u8> {
    seq![(n % 256) as u8, (n / 256 % 256) as u8]
}

/// The four bytes of a number below 2^32, least significant first.
pub open spec fn le32(n: nat) -> Seq<u8> {
    seq![
        (n % 256) as u8,
        (n / 256 % 256) as u8,
        (n / 65536 % 256) as u8,
        (n / 16777216 % 256) as u8,
    ]
}

/// The number whose two bytes stand in `b` at `i`, least significant first.
pub open spec fn u16_at(b: Seq<u8>, i: int) -> nat {
    b[i] as nat + 256 * b[i + 1] as nat
}

/// The number whose four bytes stand in `b` at `i`, least significant first.
pub open spec fn u32_at(b: Seq<u8>, i: int) -> nat {
    b[i] as nat + 256 * b[i + 1] as nat + 65536 * b[i + 2] as nat + 16777216 * b[i + 3] as nat
}

/// The two's complement form of a sample.
pub open spec fn sample_code(s: i16) -> nat {
    if s >= 0 {
        s as nat
    } else {
        (s + 65536) as nat
    }
}

/// The sample with the given two's complement form.
pub open spec fn sample_of_code(n: nat) -> i16 {
    if n < 32768 {
        n as i16
    } else {
        (n - 65536) as i16
    }
}

/// The chunk name `RIFF`.
pub open spec fn riff_tag() -> Seq<u8> {
    seq![82u8, 73u8, 70u8, 70u8]
}

/// The format name `WAVE`.
pub open spec fn wave_tag() -> Seq<u8> {
    seq![87u8, 65u8, 86u8, 69u8]
}

/// The chunk name `fmt `.
pub open spec fn fmt_tag() -> Seq<u8> {
    seq![102u8, 109u8, 116u8, 32u8]
}

/// The chunk name `data`.
pub open spec fn data_tag() -> Seq<u8> {
    seq![100u8, 97u8, 116u8, 97u8]
}

/// The size of the data of `n` samples, as the 32 bits that the header has for
/// it tell it.
pub open spec fn data_size(n: nat) -> nat {
    (2 * n) % 0x1_0000_0000
}

/// The 12 bytes of the RIFF header: what follows the first 8 bytes is 36 bytes of
/// headers and the data.
pub open spec fn riff_header(data_len: nat) -> Seq<u8> {
    riff_tag() + le32(36 + data_len) + wave_tag()
}

/// The 24 bytes of the format chunk: PCM, one channel, 16 bits.
pub open spec fn fmt_chunk(sample_rate: nat) -> Seq<u8> {
    fmt_tag() + le32(16) + le16(1) + le16(1) + le32(sample_rate) + le32(sample_rate * 2) + le16(2)
        + le16(16)
}

/// The 8 bytes of the header of the data chunk.
pub open spec fn data_header(data_len: nat) -> Seq<u8> {
    data_tag() + le32(data_len)
}

/// The 44 bytes before the data.
pub open spec fn wav_header(data_len: nat, sample_rate: nat) -> Seq<u8> {
    riff_header(data_len) + fmt_chunk(sample_rate) + data_header(data_len)
}

/// The samples, two bytes each.
pub open spec fn pcm_data(pcm: Seq<i16>) -> Seq<u8> {
    Seq::new(2 * pcm.len(), |i: int| le16(sample_code(pcm[i / 2]))[i % 2])
}

/// The bytes of the WAV file that holds `pcm`.
pub open spec fn wav_file(pcm: Seq<i16>, sample_rate: nat) -> Seq<u8> {
    wav_header(data_size(pcm.len()), sample_rate) + pcm_data(pcm)
}

/// The numbers of the header of a WAV file of `n` samples fit their fields.
pub open spec fn encodable(n: nat, sample_rate: nat) -> bool {
    &&& 2 * n <= usize::MAX
    &&& 36 + data_size(n) <= u32::MAX
    &&& sample_rate * 2 <= u32::MAX
}

/// Whether the numbers of the header of a WAV file of `n` samples fit their
/// fields.
pub fn wav_encodable(n: usize, sample_rate: u32) -> (ok: bool)
    ensures
        ok == encodable(n as nat, sample_rate as nat),
{
    if n > usize::MAX / 2 {
        return false;
    }
    let data_len: u64 = (n as u64 * 2) % 0x1_0000_0000;
    36 + data_len <= 0xFFFF_FFFF && sample_rate <= 0x7FFF_FFFF
}

fn push16(out: &mut Vec<u8>, n: u16)
    ensures
        final(out)@ == old(out)@ + le16(n as nat),
{
    out.push((n % 256) as u8);
    out.push((n / 256 % 256) as u8);
    proof {
        assert(out@ =~= old(out)@ + le16(n as nat));
    }
}

fn push32(out: &mut Vec<u8>, n: u32)
    ensures
        final(out)@ == old(out)@ + le32(n as nat),
{
    out.push((n % 256) as u8);
    out.push((n / 256 % 256) as u8);
    out.push((n / 65536 % 256) as u8);
    out.push((n / 16777216 % 256) as u8);
    proof {
        assert(out@ =~= old(out)@ + le32(n as nat));
    }
}

fn push_tag(out: &mut Vec<u8>, a: u8, b: u8, c: u8, d: u8)
    ensures
        final(out)@ == old(out)@ + seq![a, b, c, d],
{
    out.push(a);
    out.push(b);
    out.push(c);
    out.push(d);
    proof {
        assert(out@ =~= old(out)@ + seq![a, b, c, d]);
    }
}

/// The bytes of the WAV file that holds `pcm`: mono, 16-bit PCM at
/// `sample_rate`.
pub fn wav_bytes(pcm: &Vec<i16>, sample_rate: u32) -> (out: Vec<u8>)
    requires
        encodable(pcm@.len(), sample_rate as nat),
    ensures
        out@ == wav_file(pcm@, sample_rate as nat),
{
    let data_len: u32 = ((pcm.len() * 2) as u64 % 0x1_0000_0000) as u32;
    let mut out: Vec<u8> = Vec::new();
    push_tag(&mut out, 82, 73, 70, 70);
    push32(&mut out, 36 + data_len);
    push_tag(&mut out, 87, 65, 86, 69);
    push_tag(&mut out, 102, 109, 116, 32);
    push32(&mut out, 16);
    push16(&mut out, 1);
    push16(&mut out, 1);
    push32(&mut out, sample_rate);
    push32(&mut out, sample_rate * 2);
    push16(&mut out, 2);
    push16(&mut out, 16);
    push_tag(&mut out, 100, 97, 116, 97);
    push32(&mut out, data_len);
    let ghost header = out@;
    proof {
        assert(header =~= wav_header(data_size(pcm@.len()), sample_rate as nat));
        assert(pcm_data(pcm@.take(0)) =~= Seq::<u8>::empty());
        assert(out@ =~= header + pcm_data(pcm@.take(0)));
    }
    let mut i: usize = 0;
    while i < pcm.len()
        invariant
            i <= pcm@.len(),
            out@ == header + pcm_data(pcm@.take(i as int)),
        decreases pcm@.len() - i,
    {
        let s: i16 = pcm[i];
        let ghost before = out@;
        if s >= 0 {
            push16(&mut out, s as u16);
        } else {
            push16(&mut out, (s as i32 + 65536) as u16);
        }
        proof {
            let old_data = pcm_data(pcm@.take(i as int));
            let new_data = pcm_data(pcm@.take(i + 1));
            assert(new_data =~= old_data + le16(sample_code(s))) by {
                assert forall|k: int| 0 <= k < new_data.len() implies new_data[k] == (old_data
                    + le16(sample_code(s)))[k] by {
                    if k < 2 * i {
                        assert(pcm@.take(i + 1)[k / 2] == pcm@.take(i as int)[k / 2]);
                    } else {
                        assert(k / 2 == i);
                        assert(pcm@.take(i + 1)[k / 2] == s);
                        assert(k % 2 == k - 2 * i);
                    }
                }
            }
            assert(out@ =~= header + new_data);
        }
        i = i + 1;
    }
    proof {
        assert(pcm@.take(pcm@.len() as int) =~= pcm@);
    }
    out
}

/// What a WAV file says.
pub struct WavView {
    pub channels: nat,
    pub sample_rate: nat,
    pub byte_rate: nat,
    pub block_align: nat,
    pub bits_per_sample: nat,
    pub samples: Seq<i16>,
}

/// The samples as a reader finds them behind a header of 44 bytes.
pub open spec fn read_samples(b: Seq<u8>) -> Seq<i16> {
    Seq::new(((b.len() - 44) / 2) as nat, |i: int| sample_of_code(u16_at(b, 44 + 2 * i)))
}

/// What the bytes of a WAV file say to a reader: the sizes in the two chunk
/// headers are those of the file, the format is PCM, and the data is a row of
/// 16-bit samples.
pub open spec fn read_wav(b: Seq<u8>) -> Option<WavView> {
    if b.len() >= 44 && b.subrange(0, 4) == riff_tag() && u32_at(b, 4) == b.len() - 8 && b.subrange(
        8,
        12,
    ) == wave_tag() && b.subrange(12, 16) == fmt_tag() && u32_at(b, 16) == 16 && u16_at(b, 20) == 1
        && b.subrange(36, 40) == data_tag() && u32_at(b, 40) == b.len() - 44 && b.len() % 2 == 0 {
        Some(
            WavView {
                channels: u16_at(b, 22),
                sample_rate: u32_at(b, 24),
                byte_rate: u32_at(b, 28),
                block_align: u16_at(b, 32),
                bits_per_sample: u16_at(b, 34),
                samples: read_samples(b),
            },
        )
    } else {
        None
    }
}

/// The bytes begin as a WAV file of `n` bytes of data at this sample rate does.
pub open spec fn has_header(b: Seq<u8>, n: nat, sample_rate: nat) -> bool {
    &&& b.len() >= 44
    &&& b.subrange(0, 4) == riff_tag()
    &&& u32_at(b, 4) == n + 36
    &&& b.subrange(8, 12) == wave_tag()
    &&& b.subrange(12, 16) == fmt_tag()
    &&& u32_at(b, 16) == 16
    &&& u16_at(b, 20) == 1
    &&& u16_at(b, 22) == 1
    &&& u32_at(b, 24) == sample_rate
    &&& u32_at(b, 28) == sample_rate * 2
    &&& u16_at(b, 32) == 2
    &&& u16_at(b, 34) == 16
    &&& b.subrange(36, 40) == data_tag()
    &&& u32_at(b, 40) == n
}

/// A WAV file gives back what was written into it: one channel of 16-bit samples
/// at the sample rate asked for, and the samples themselves. The header's 32-bit
/// sizes have to hold the size of the data.
pub proof fn law_wav_reads_back(pcm: Seq<i16>, sample_rate: nat)
    requires
        2 * pcm.len() + 36 <= u32::MAX,
        sample_rate * 2 <= u32::MAX,
    ensures
        read_wav(wav_file(pcm, sample_rate)) == Some(
            WavView {
                channels: 1,
                sample_rate,
                byte_rate: sample_rate * 2,
                block_align: 2,
                bits_per_sample: 16,
                samples: pcm,
            },
        ),
{
    let n = data_size(pcm.len());
    assert(n == 2 * pcm.len());
    lemma_header_reads_back(n, sample_rate, pcm_data(pcm));
    lemma_data_reads_back(wav_header(n, sample_rate), pcm);
    lemma_reads_from_parts(wav_header(n, sample_rate) + pcm_data(pcm), sample_rate, pcm);
}

/// What is read of bytes with the right header and the right data.
proof fn lemma_reads_from_parts(b: Seq<u8>, sample_rate: nat, pcm: Seq<i16>)
    requires
        has_header(b, 2 * pcm.len(), sample_rate),
        b.len() == 44 + 2 * pcm.len(),
        read_samples(b) == pcm,
    ensures
        read_wav(b) == Some(
            WavView {
                channels: 1,
                sample_rate,
                byte_rate: sample_rate * 2,
                block_align: 2,
                bits_per_sample: 16,
                samples: pcm,
            },
        ),
{
}

/// The data gives back the samples, whatever header of 44 bytes stands before it.
proof fn lemma_data_reads_back(header: Seq<u8>, pcm: Seq<i16>)
    requires
        header.len() == 44,
    ensures
        read_samples(header + pcm_data(pcm)) == pcm,
{
    let b = header + pcm_data(pcm);
    assert(b.len() == 44 + 2 * pcm.len());
    assert forall|i: int| 0 <= i < pcm.len() implies read_samples(b)[i] == pcm[i] by {
        lemma_sample_reads_back(header, pcm, i);
    }
    assert(read_samples(b) =~= pcm);
}

/// The data gives back each sample.
proof fn lemma_sample_reads_back(header: Seq<u8>, pcm: Seq<i16>, i: int)
    requires
        header.len() == 44,
        0 <= i < pcm.len(),
    ensures
        sample_of_code(u16_at(header + pcm_data(pcm), 44 + 2 * i)) == pcm[i],
{
    let b = header + pcm_data(pcm);
    let code = sample_code(pcm[i]);
    let at = 2 * i;
    assert(at / 2 == i && at % 2 == 0);
    assert((at + 1) / 2 == i && (at + 1) % 2 == 1);
    assert(pcm_data(pcm)[at] == le16(code)[0]);
    assert(pcm_data(pcm)[at + 1] == le16(code)[1]);
    assert(b[44 + at] == le16(code)[0]);
    assert(b[44 + at + 1] == le16(code)[1]);
    lemma_le16_value(code);
    assert(u16_at(b, 44 + at) == code);
}

/// A part of some bytes is read as it stands there.
proof fn lemma_part(b: Seq<u8>, part: Seq<u8>, at: int)
    requires
        0 <= at,
        at + part.len() <= b.len(),
        b.subrange(at, at + part.len()) == part,
    ensures
        part.len() == 2 ==> u16_at(b, at) == u16_at(part, 0),
        part.len() == 4 ==> u32_at(b, at) == u32_at(part, 0),
{
    assert forall|i: int| 0 <= i < part.len() implies b[at + i] == #[trigger] part[i] by {
        assert(b.subrange(at, at + part.len())[i] == b[at + i]);
    }
    if part.len() == 2 {
        assert(b[at + 0] == part[0] && b[at + 1] == part[1]);
    }
    if part.len() == 4 {
        assert(b[at + 0] == part[0] && b[at + 1] == part[1]);
        assert(b[at + 2] == part[2] && b[at + 3] == part[3]);
    }
}

/// The RIFF header.
proof fn lemma_riff_header(n: nat)
    requires
        n + 36 <= u32::MAX,
    ensures
        riff_header(n).len() == 12,
        riff_header(n).subrange(0, 4) == riff_tag(),
        riff_header(n).subrange(4, 8) == le32(36 + n),
        riff_header(n).subrange(8, 12) == wave_tag(),
{
    assert(riff_header(n).subrange(0, 4) =~= riff_tag());
    assert(riff_header(n).subrange(4, 8) =~= le32(36 + n));
    assert(riff_header(n).subrange(8, 12) =~= wave_tag());
}

/// The format chunk.
proof fn lemma_fmt_chunk(sample_rate: nat)
    requires
        sample_rate * 2 <= u32::MAX,
    ensures
        fmt_chunk(sample_rate).len() == 24,
        fmt_chunk(sample_rate).subrange(0, 4) == fmt_tag(),
        fmt_chunk(sample_rate).subrange(4, 8) == le32(16),
        fmt_chunk(sample_rate).subrange(8, 10) == le16(1),
        fmt_chunk(sample_rate).subrange(10, 12) == le16(1),
        fmt_chunk(sample_rate).subrange(12, 16) == le32(sample_rate),
        fmt_chunk(sample_rate).subrange(16, 20) == le32(sample_rate * 2),
        fmt_chunk(sample_rate).subrange(20, 22) == le16(2),
        fmt_chunk(sample_rate).subrange(22, 24) == le16(16),
{
    assert(fmt_chunk(sample_rate).subrange(0, 4) =~= fmt_tag());
    assert(fmt_chunk(sample_rate).subrange(4, 8) =~= le32(16));
    assert(fmt_chunk(sample_rate).subrange(8, 10) =~= le16(1));
    assert(fmt_chunk(sample_rate).subrange(10, 12) =~= le16(1));
    assert(fmt_chunk(sample_rate).subrange(12, 16) =~= le32(sample_rate));
    assert(fmt_chunk(sample_rate).subrange(16, 20) =~= le32(sample_rate * 2));
    assert(fmt_chunk(sample_rate).subrange(20, 22) =~= le16(2));
    assert(fmt_chunk(sample_rate).subrange(22, 24) =~= le16(16));
}

/// The header of the data chunk.
proof fn lemma_data_header(n: nat)
    requires
        n <= u32::MAX,
    ensures
        data_header(n).len() == 8,
        data_header(n).subrange(0, 4) == data_tag(),
        data_header(n).subrange(4, 8) == le32(n),
{
    assert(data_header(n).subrange(0, 4) =~= data_tag());
    assert(data_header(n).subrange(4, 8) =~= le32(n));
}

/// Three headers one after the other and the data behind them.
proof fn lemma_parts_of_file(
    b: Seq<u8>,
    riff: Seq<u8>,
    fmt: Seq<u8>,
    data: Seq<u8>,
    rest: Seq<u8>,
)
    requires
        riff.len() == 12,
        fmt.len() == 24,
        data.len() == 8,
        b == riff + fmt + data + rest,
    ensures
        b.len() == 44 + rest.len(),
        forall|i: int, j: int|
            0 <= i <= j <= 12 ==> #[trigger] b.subrange(i, j) == riff.subrange(i, j),
        forall|i: int, j: int|
            0 <= i <= j <= 24 ==> #[trigger] fmt.subrange(i, j) == b.subrange(12 + i, 12 + j),
        forall|i: int, j: int|
            0 <= i <= j <= 8 ==> #[trigger] data.subrange(i, j) == b.subrange(36 + i, 36 + j),
{
    assert forall|i: int, j: int| 0 <= i <= j <= 12 implies #[trigger] b.subrange(i, j)
        == riff.subrange(i, j) by {
        assert(b.subrange(i, j) =~= riff.subrange(i, j));
    }
    assert forall|i: int, j: int| 0 <= i <= j <= 24 implies #[trigger] fmt.subrange(i, j)
        == b.subrange(12 + i, 12 + j) by {
        assert(b.subrange(12 + i, 12 + j) =~= fmt.subrange(i, j));
    }
    assert forall|i: int, j: int| 0 <= i <= j <= 8 implies #[trigger] data.subrange(i, j)
        == b.subrange(36 + i, 36 + j) by {
        assert(b.subrange(36 + i, 36 + j) =~= data.subrange(i, j));
    }
}

/// The header says what it was made from, whatever data follows it.
proof fn lemma_header_reads_back(n: nat, sample_rate: nat, data: Seq<u8>)
    requires
        n + 36 <= u32::MAX,
        sample_rate * 2 <= u32::MAX,
    ensures
        wav_header(n, sample_rate).len() == 44,
        has_header(wav_header(n, sample_rate) + data, n, sample_rate),
        (wav_header(n, sample_rate) + data).len() == 44 + data.len(),
{
    lemma_riff_header(n);
    lemma_fmt_chunk(sample_rate);
    lemma_data_header(n);
    lemma_has_header(
        wav_header(n, sample_rate) + data,
        riff_header(n),
        fmt_chunk(sample_rate),
        data_header(n),
        data,
        n,
        sample_rate,
    );
}

/// Bytes that are put together of the right headers begin as a WAV file does.
proof fn lemma_has_header(
    b: Seq<u8>,
    riff: Seq<u8>,
    fmt: Seq<u8>,
    data: Seq<u8>,
    rest: Seq<u8>,
    n: nat,
    sample_rate: nat,
)
    requires
        n + 36 <= u32::MAX,
        sample_rate * 2 <= u32::MAX,
        b == riff + fmt + data + rest,
        riff.len() == 12,
        riff.subrange(0, 4) == riff_tag(),
        riff.subrange(4, 8) == le32(36 + n),
        riff.subrange(8, 12) == wave_tag(),
        fmt.len() == 24,
        fmt.subrange(0, 4) == fmt_tag(),
        fmt.subrange(4, 8) == le32(16),
        fmt.subrange(8, 10) == le16(1),
        fmt.subrange(10, 12) == le16(1),
        fmt.subrange(12, 16) == le32(sample_rate),
        fmt.subrange(16, 20) == le32(sample_rate * 2),
        fmt.subrange(20, 22) == le16(2),
        fmt.subrange(22, 24) == le16(16),
        data.len() == 8,
        data.subrange(0, 4) == data_tag(),
        data.subrange(4, 8) == le32(n),
    ensures
        has_header(b, n, sample_rate),
{
    lemma_parts_of_file(b, riff, fmt, data, rest);
    assert(b.subrange(0, 4) == riff_tag());
    assert(b.subrange(8, 12) == wave_tag());
    assert(b.subrange(4, 8) == le32(36 + n));
    lemma_part(b, le32(36 + n), 4);
    lemma_le32_value(36 + n);
    lemma_part(b, le32(16), 16);
    lemma_le32_value(16);
    lemma_part(b, le16(1), 20);
    lemma_part(b, le16(1), 22);
    lemma_le16_value(1);
    lemma_part(b, le32(sample_rate), 24);
    lemma_le32_value(sample_rate);
    lemma_part(b, le32(sample_rate * 2), 28);
    lemma_le32_value(sample_rate * 2);
    lemma_part(b, le16(2), 32);
    lemma_le16_value(2);
    lemma_part(b, le16(16), 34);
    lemma_le16_value(16);
    lemma_part(b, le32(n), 40);
    lemma_le32_value(n);
}

proof fn lemma_le16_value(n: nat)
    requires
        n < 65536,
    ensures
        u16_at(le16(n), 0) == n,
{
}

proof fn lemma_le32_value(n: nat)
    requires
        n <= u32::MAX,
    ensures
        u32_at(le32(n), 0) == n,
{
}

/// The header of a WAV file, byte by byte: the tags in ASCII and the numbers least
/// significant byte first.
pub proof fn law_header_byte_by_byte(pcm: Seq<i16>, sample_rate: nat)
    requires
        2 * pcm.len() + 36 <= u32::MAX,
        sample_rate * 2 <= u32::MAX,
    ensures
        wav_file(pcm, sample_rate).len() == 44 + 2 * pcm.len(),
        header_bytes(wav_file(pcm, sample_rate), 2 * pcm.len(), sample_rate),
{
    let n = data_size(pcm.len());
    let data = pcm_data(pcm);
    let b = wav_header(n, sample_rate) + data;
    assert(n == 2 * pcm.len());
    lemma_header_reads_back(n, sample_rate, data);
    lemma_header_bytes(b, n, sample_rate);
}

/// The first 44 bytes of `b`, one by one, where `n` bytes of data follow them.
pub open spec fn header_bytes(b: Seq<u8>, n: nat, sample_rate: nat) -> bool {
    &&& b[0] == 0x52 && b[1] == 0x49 && b[2] == 0x46 && b[3] == 0x46
    &&& b[4] + 256 * b[5] + 65536 * b[6] + 16777216 * b[7] == n + 36
    &&& b[8] == 0x57 && b[9] == 0x41 && b[10] == 0x56 && b[11] == 0x45
    &&& b[12] == 0x66 && b[13] == 0x6D && b[14] == 0x74 && b[15] == 0x20
    &&& b[16] + 256 * b[17] + 65536 * b[18] + 16777216 * b[19] == 16
    &&& b[20] + 256 * b[21] == 1
    &&& b[22] + 256 * b[23] == 1
    &&& b[24] + 256 * b[25] + 65536 * b[26] + 16777216 * b[27] == sample_rate
    &&& b[28] + 256 * b[29] + 65536 * b[30] + 16777216 * b[31] == sample_rate * 2
    &&& b[32] + 256 * b[33] == 2
    &&& b[34] + 256 * b[35] == 16
    &&& b[36] == 0x64 && b[37] == 0x61 && b[38] == 0x74 && b[39] == 0x61
    &&& b[40] + 256 * b[41] + 65536 * b[42] + 16777216 * b[43] == n
}

/// Bytes that begin as a WAV file does begin with these bytes.
proof fn lemma_header_bytes(b: Seq<u8>, n: nat, sample_rate: nat)
    requires
        b.len() >= 44,
        has_header(b, n, sample_rate),
    ensures
        header_bytes(b, n, sample_rate),
{
    lemma_tag_bytes(b, riff_tag(), 0);
    lemma_tag_bytes(b, wave_tag(), 8);
    lemma_tag_bytes(b, fmt_tag(), 12);
    lemma_tag_bytes(b, data_tag(), 36);
}

/// The bytes of a tag stand where the tag does.
proof fn lemma_tag_bytes(b: Seq<u8>, tag: Seq<u8>, at: int)
    requires
        0 <= at,
        at + 4 <= b.len(),
        tag.len() == 4,
        b.subrange(at, at + 4) == tag,
    ensures
        b[at] == tag[0],
        b[at + 1] == tag[1],
        b[at + 2] == tag[2],
        b[at + 3] == tag[3],
{
    let part = b.subrange(at, at + 4);
    assert(part[0] == b[at] && part[1] == b[at + 1] && part[2] == b[at + 2] && part[3] == b[at
        + 3]);
}

/// From byte 44 on a WAV file has each sample as the two bytes of its two's complement,
/// the least significant first.
pub proof fn law_samples_byte_by_byte(pcm: Seq<i16>, sample_rate: nat, i: int)
    requires
        2 * pcm.len() + 36 <= u32::MAX,
        sample_rate * 2 <= u32::MAX,
        0 <= i < pcm.len(),
    ensures
        ({
            let b = wav_file(pcm, sample_rate);
            let code = b[44 + 2 * i] + 256 * b[44 + 2 * i + 1];
            &&& pcm[i] >= 0 ==> code == pcm[i]
            &&& pcm[i] < 0 ==> code == pcm[i] + 65536
        }),
{
    let n = data_size(pcm.len());
    assert(n == 2 * pcm.len());
    lemma_header_reads_back(n, sample_rate, pcm_data(pcm));
    lemma_sample_bytes(wav_header(n, sample_rate), pcm, i);
}

/// The two bytes of a sample behind a header of 44 bytes.
proof fn lemma_sample_bytes(header: Seq<u8>, pcm: Seq<i16>, i: int)
    requires
        header.len() == 44,
        0 <= i < pcm.len(),
    ensures
        ({
            let b = header + pcm_data(pcm);
            let code = b[44 + 2 * i] + 256 * b[44 + 2 * i + 1];
            &&& pcm[i] >= 0 ==> code == pcm[i]
            &&& pcm[i] < 0 ==> code == pcm[i] + 65536
        }),
{
    let b = header + pcm_data(pcm);
    let code = sample_code(pcm[i]);
    let at = 2 * i;
    assert(at / 2 == i && at % 2 == 0);
    assert((at + 1) / 2 == i && (at + 1) % 2 == 1);
    assert(pcm_data(pcm)[at] == le16(code)[0]);
    assert(pcm_data(pcm)[at + 1] == le16(code)[1]);
    assert(b[44 + at] == le16(code)[0]);
    assert(b[44 + at + 1] == le16(code)[1]);
    lemma_le16_value(code);
}

/// A recording fits a WAV file as long as its data and the 36 bytes of headers that count
/// take no more than 32 bits tell.
pub proof fn law_short_recordings_are_encodable(n: nat, sample_rate: nat)
    requires
        n <= usize::MAX / 2,
        2 * n <= 0xFFFF_FFFF,
    ensures
        data_size(n) == 2 * n,
        encodable(n, sample_rate) <==> 2 * n <= 0xFFFF_FFFF - 36 && sample_rate <= 0x7FFF_FFFF,
{
}

} // verus!
