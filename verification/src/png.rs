//! A picture as a PNG file, its pixels stored without compression.

use vstd::prelude::*;

verus! {

// ---------------------------------------------------------------------------
// Checksums

/// One bit of the checksum register: the reflected polynomial of CRC-32 is
/// taken out where the lowest bit was set.
pub open spec fn crc_bit(register: u32) -> u32 {
    if register & 1 == 1 {
        (register >> 1) ^ 0xEDB8_8320
    } else {
        register >> 1
    }
}

/// `n` bits of the checksum register.
pub open spec fn crc_bits(register: u32, n: nat) -> u32
    decreases n,
{
    if n == 0 {
        register
    } else {
        crc_bit(crc_bits(register, (n - 1) as nat))
    }
}

/// The checksum register behind all bytes of `data`.
pub open spec fn crc_register(data: Seq<u8>) -> u32
    decreases data.len(),
{
    if data.len() == 0 {
        0xFFFF_FFFF
    } else {
        crc_bits(crc_register(data.drop_last()) ^ (data.last() as u32), 8)
    }
}

/// The CRC-32 checksum of `data`.
pub open spec fn crc32_of(data: Seq<u8>) -> u32 {
    !crc_register(data)
}

/// The CRC-32 checksum of `data`.
pub fn crc32(data: &[u8]) -> (checksum: u32)
    ensures
        checksum == crc32_of(data@),
{
    let mut crc: u32 = 0xFFFF_FFFF;
    let mut i: usize = 0;
    while i < data.len()
        invariant
            i <= data@.len(),
            crc == crc_register(data@.take(i as int)),
        decreases data@.len() - i,
    {
        crc = crc ^ (data[i] as u32);
        let ghost start = crc;
        let mut bit: usize = 0;
        while bit < 8
            invariant
                bit <= 8,
                crc == crc_bits(start, bit as nat),
            decreases 8 - bit,
        {
            crc = if crc & 1 == 1 { (crc >> 1) ^ 0xEDB8_8320 } else { crc >> 1 };
            bit += 1;
        }
        proof {
            assert(data@.take(i + 1).drop_last() =~= data@.take(i as int));
            assert(data@.take(i + 1).last() == data@[i as int]);
        }
        i += 1;
    }
    proof {
        assert(data@.take(i as int) =~= data@);
    }
    !crc
}

/// The sum of all bytes and one, modulo the largest prime below 65536.
pub open spec fn adler_low(data: Seq<u8>) -> nat
    decreases data.len(),
{
    if data.len() == 0 {
        1
    } else {
        (adler_low(data.drop_last()) + data.last() as nat) % 65521
    }
}

/// The sum of the low sums behind each byte, modulo the same prime.
pub open spec fn adler_high(data: Seq<u8>) -> nat
    decreases data.len(),
{
    if data.len() == 0 {
        0
    } else {
        (adler_high(data.drop_last()) + adler_low(data)) % 65521
    }
}

/// The Adler-32 checksum of `data`.
pub open spec fn adler32_of(data: Seq<u8>) -> nat {
    adler_high(data) * 65536 + adler_low(data)
}

/// The Adler-32 checksum of `data`.
pub fn adler32(data: &[u8]) -> (checksum: u32)
    ensures
        checksum == adler32_of(data@),
{
    let mut a: u32 = 1;
    let mut b: u32 = 0;
    let mut i: usize = 0;
    while i < data.len()
        invariant
            i <= data@.len(),
            a == adler_low(data@.take(i as int)),
            b == adler_high(data@.take(i as int)),
            a < 65521,
            b < 65521,
        decreases data@.len() - i,
    {
        proof {
            assert(data@.take(i + 1).drop_last() =~= data@.take(i as int));
            assert(data@.take(i + 1).last() == data@[i as int]);
        }
        a = a + data[i] as u32;
        if a >= 65_521 {
            a = a - 65_521;
        }
        b = b + a;
        if b >= 65_521 {
            b = b - 65_521;
        }
        i += 1;
    }
    proof {
        assert(data@.take(i as int) =~= data@);
        assert((b << 16) | a == b * 65536 + a) by (bit_vector)
            requires
                a < 65536,
                b < 65536,
        ;
    }
    (b << 16) | a
}

// ---------------------------------------------------------------------------
// Bytes of numbers

/// The four bytes of `n`, the highest first.
pub open spec fn big_endian(n: u32) -> Seq<u8> {
    seq![
        (n / 16777216) as u8,
        (n / 65536 % 256) as u8,
        (n / 256 % 256) as u8,
        (n % 256) as u8,
    ]
}

/// The two bytes of `n`, the lowest first.
pub open spec fn little_endian(n: u16) -> Seq<u8> {
    seq![(n % 256) as u8, (n / 256) as u8]
}

fn push_big_endian(out: &mut Vec<u8>, n: u32)
    ensures
        final(out)@ == old(out)@ + big_endian(n),
{
    let ghost start = out@;
    out.push((n / 16777216) as u8);
    out.push((n / 65536 % 256) as u8);
    out.push((n / 256 % 256) as u8);
    out.push((n % 256) as u8);
    proof {
        assert(out@ =~= start + big_endian(n));
    }
}

fn push_little_endian(out: &mut Vec<u8>, n: u16)
    ensures
        final(out)@ == old(out)@ + little_endian(n),
{
    let ghost start = out@;
    out.push((n % 256) as u8);
    out.push((n / 256) as u8);
    proof {
        assert(out@ =~= start + little_endian(n));
    }
}

fn push_bytes(out: &mut Vec<u8>, bytes: &[u8], from: usize, to: usize)
    requires
        from <= to <= bytes@.len(),
    ensures
        final(out)@ == old(out)@ + bytes@.subrange(from as int, to as int),
{
    let ghost start = out@;
    let mut i: usize = from;
    while i < to
        invariant
            from <= i <= to <= bytes@.len(),
            out@ == start + bytes@.subrange(from as int, i as int),
        decreases to - i,
    {
        out.push(bytes[i]);
        proof {
            assert(bytes@.subrange(from as int, i + 1) =~= bytes@.subrange(
                from as int,
                i as int,
            ).push(bytes@[i as int]));
        }
        i += 1;
    }
}

// ---------------------------------------------------------------------------
// Chunks

/// A chunk: the length of its data, its tag, its data, and a checksum of tag and data.
pub open spec fn chunk(tag: Seq<u8>, data: Seq<u8>) -> Seq<u8> {
    big_endian((data.len() % 0x1_0000_0000) as u32) + tag + data + big_endian(crc32_of(tag + data))
}

/// The chunk with the given tag and data.
pub fn png_chunk(tag: &[u8; 4], data: &[u8]) -> (bytes: Vec<u8>)
    ensures
        bytes@ == chunk(tag@, data@),
{
    let mut bytes: Vec<u8> = Vec::new();
    let mut checked: Vec<u8> = Vec::new();
    let tag_bytes: &[u8] = tag;
    push_bytes(&mut checked, tag_bytes, 0, 4);
    push_bytes(&mut checked, data, 0, data.len());
    proof {
        assert(checked@ =~= tag@ + data@);
    }
    push_big_endian(&mut bytes, (data.len() as u64 % 0x1_0000_0000) as u32);
    push_bytes(&mut bytes, checked.as_slice(), 0, checked.len());
    push_big_endian(&mut bytes, crc32(checked.as_slice()));
    proof {
        assert(bytes@ =~= chunk(tag@, data@));
    }
    bytes
}

// ---------------------------------------------------------------------------
// The picture

/// The complete rows of `pixels`, each with a zero before it, which says that
/// the row is written as it is.
pub open spec fn scanlines(pixels: Seq<u8>, stride: int) -> Seq<u8>
    decreases pixels.len(),
{
    if stride <= 0 || pixels.len() < stride {
        Seq::empty()
    } else {
        seq![0u8] + pixels.take(stride) + scanlines(pixels.skip(stride), stride)
    }
}

/// One stored block: whether it is the last, its length, the complement of its
/// length, and its bytes.
pub open spec fn stored_block(last: bool, bytes: Seq<u8>) -> Seq<u8> {
    seq![if last { 1u8 } else { 0u8 }] + little_endian(bytes.len() as u16) + little_endian(
        (65535 - bytes.len()) as u16,
    ) + bytes
}

/// `raw` in stored blocks, each as long as a block can be but the last.
pub open spec fn stored_blocks(raw: Seq<u8>) -> Seq<u8>
    decreases raw.len(),
{
    if raw.len() == 0 {
        Seq::empty()
    } else if raw.len() <= 65535 {
        stored_block(true, raw)
    } else {
        stored_block(false, raw.take(65535)) + stored_blocks(raw.skip(65535))
    }
}

/// A zlib stream that holds `raw` in stored blocks.
pub open spec fn zlib_stream(raw: Seq<u8>) -> Seq<u8> {
    seq![0x78u8, 0x01u8] + stored_blocks(raw) + big_endian(adler32_of(raw) as u32)
}

/// The eight bytes with which every PNG file begins.
pub open spec fn signature() -> Seq<u8> {
    seq![0x89u8, 0x50u8, 0x4Eu8, 0x47u8, 0x0Du8, 0x0Au8, 0x1Au8, 0x0Au8]
}

/// The header of a picture with eight bits each of red, green, blue and alpha.
pub open spec fn header(width: u32, height: u32) -> Seq<u8> {
    big_endian(width) + big_endian(height) + seq![8u8, 6u8, 0u8, 0u8, 0u8]
}

pub open spec fn ihdr() -> Seq<u8> {
    seq![0x49u8, 0x48u8, 0x44u8, 0x52u8]
}

pub open spec fn idat() -> Seq<u8> {
    seq![0x49u8, 0x44u8, 0x41u8, 0x54u8]
}

pub open spec fn iend() -> Seq<u8> {
    seq![0x49u8, 0x45u8, 0x4Eu8, 0x44u8]
}

/// The PNG file of a picture: signature, header, the pixels, and the end.
pub open spec fn png_file(rgba: Seq<u8>, width: u32, height: u32) -> Seq<u8> {
    signature() + chunk(ihdr(), header(width, height)) + chunk(
        idat(),
        zlib_stream(scanlines(rgba, width * 4)),
    ) + chunk(iend(), Seq::empty())
}

fn push_scanlines(raw: &mut Vec<u8>, rgba: &[u8], stride: usize)
    requires
        stride > 0,
    ensures
        final(raw)@ == old(raw)@ + scanlines(rgba@, stride as int),
{
    let ghost start = raw@;
    let mut at: usize = 0;
    proof {
        assert(rgba@.skip(0) =~= rgba@);
    }
    while rgba.len() - at >= stride
        invariant
            stride > 0,
            at <= rgba@.len(),
            raw@ + scanlines(rgba@.skip(at as int), stride as int) == start + scanlines(
                rgba@,
                stride as int,
            ),
        decreases rgba@.len() - at,
    {
        let ghost rest = rgba@.skip(at as int);
        let ghost before = raw@;
        raw.push(0);
        push_bytes(raw, rgba, at, at + stride);
        at += stride;
        proof {
            assert(rest.take(stride as int) =~= rgba@.subrange(at - stride, at as int));
            assert(rest.skip(stride as int) =~= rgba@.skip(at as int));
            assert(raw@ + scanlines(rgba@.skip(at as int), stride as int) =~= before + scanlines(
                rest,
                stride as int,
            ));
        }
    }
    proof {
        assert(raw@ =~= start + scanlines(rgba@, stride as int));
    }
}

fn push_stored_blocks(out: &mut Vec<u8>, raw: &[u8])
    ensures
        final(out)@ == old(out)@ + stored_blocks(raw@),
{
    let ghost start = out@;
    let mut at: usize = 0;
    proof {
        assert(raw@.skip(0) =~= raw@);
    }
    while at < raw.len()
        invariant
            at <= raw@.len(),
            out@ + stored_blocks(raw@.skip(at as int)) == start + stored_blocks(raw@),
        decreases raw@.len() - at,
    {
        let ghost rest = raw@.skip(at as int);
        let ghost before = out@;
        let last: bool = raw.len() - at <= 65535;
        let len: usize = if last { raw.len() - at } else { 65535 };
        out.push(if last { 1 } else { 0 });
        push_little_endian(out, len as u16);
        push_little_endian(out, (65535 - len) as u16);
        push_bytes(out, raw, at, at + len);
        at += len;
        proof {
            let block = rest.take(len as int);
            assert(block =~= raw@.subrange(at - len, at as int));
            assert(rest.skip(len as int) =~= raw@.skip(at as int));
            assert(out@ =~= before + stored_block(last, block));
            if last {
                assert(block =~= rest);
                assert(raw@.skip(at as int) =~= Seq::<u8>::empty());
                assert(stored_blocks(raw@.skip(at as int)) =~= Seq::<u8>::empty());
            }
            assert(out@ + stored_blocks(raw@.skip(at as int)) =~= before + stored_blocks(rest));
        }
    }
    proof {
        assert(raw@.skip(at as int) =~= Seq::<u8>::empty());
        assert(out@ =~= start + stored_blocks(raw@));
    }
}

/// The picture with the given pixels, four bytes each, as a PNG file.
pub fn encode_png(rgba: &[u8], width: u32, height: u32) -> (png: Vec<u8>)
    requires
        0 < width * 4 <= usize::MAX,
        (width * 4 + 1) * height <= isize::MAX,
    ensures
        png@ == png_file(rgba@, width, height),
{
    let mut raw: Vec<u8> = Vec::new();
    push_scanlines(&mut raw, rgba, width as usize * 4);
    let ghost lines = scanlines(rgba@, width * 4);
    proof {
        assert(raw@ =~= lines);
    }
    let mut zlib: Vec<u8> = Vec::new();
    zlib.push(0x78);
    zlib.push(0x01);
    push_stored_blocks(&mut zlib, raw.as_slice());
    push_big_endian(&mut zlib, adler32(raw.as_slice()));
    proof {
        assert(zlib@ =~= zlib_stream(lines));
    }
    let mut head: Vec<u8> = Vec::new();
    push_big_endian(&mut head, width);
    push_big_endian(&mut head, height);
    head.push(8);
    head.push(6);
    head.push(0);
    head.push(0);
    head.push(0);
    proof {
        assert(head@ =~= header(width, height));
    }
    let empty: Vec<u8> = Vec::new();
    let ihdr_tag: [u8; 4] = [0x49, 0x48, 0x44, 0x52];
    let idat_tag: [u8; 4] = [0x49, 0x44, 0x41, 0x54];
    let iend_tag: [u8; 4] = [0x49, 0x45, 0x4E, 0x44];
    proof {
        assert(ihdr_tag@ =~= ihdr());
        assert(idat_tag@ =~= idat());
        assert(iend_tag@ =~= iend());
        assert(empty@ =~= Seq::<u8>::empty());
    }
    let first = png_chunk(&ihdr_tag, head.as_slice());
    let second = png_chunk(&idat_tag, zlib.as_slice());
    let third = png_chunk(&iend_tag, empty.as_slice());
    let mut png: Vec<u8> = Vec::new();
    png.push(0x89);
    png.push(0x50);
    png.push(0x4E);
    png.push(0x47);
    png.push(0x0D);
    png.push(0x0A);
    png.push(0x1A);
    png.push(0x0A);
    push_bytes(&mut png, first.as_slice(), 0, first.len());
    push_bytes(&mut png, second.as_slice(), 0, second.len());
    push_bytes(&mut png, third.as_slice(), 0, third.len());
    proof {
        assert(png@ =~= png_file(rgba@, width, height));
    }
    png
}

// ---------------------------------------------------------------------------
// Reading back

/// The number that two bytes stand for, the lowest first.
pub open spec fn read_little_endian(bytes: Seq<u8>, at: int) -> int {
    bytes[at] + 256 * bytes[at + 1]
}

/// The bytes that a sequence of stored blocks holds up to its last block,
/// `None` where a length does not fit or the sequence does not end there.
pub open spec fn stored_payload(blocks: Seq<u8>) -> Option<Seq<u8>>
    decreases blocks.len(),
{
    let len = read_little_endian(blocks, 1);
    if blocks.len() < 5 || read_little_endian(blocks, 3) != 65535 - len || blocks.len() < 5 + len {
        None
    } else if blocks[0] == 1 {
        if blocks.len() == 5 + len {
            Some(blocks.skip(5))
        } else {
            None
        }
    } else if blocks[0] == 0 {
        match stored_payload(blocks.skip(5 + len)) {
            Some(rest) => Some(blocks.subrange(5, 5 + len) + rest),
            None => None,
        }
    } else {
        None
    }
}

/// The pixels of rows that are written as they are.
pub open spec fn unfiltered(lines: Seq<u8>, stride: int) -> Seq<u8>
    decreases lines.len(),
{
    if stride <= 0 || lines.len() < stride + 1 {
        Seq::empty()
    } else {
        lines.subrange(1, stride + 1) + unfiltered(lines.skip(stride + 1), stride)
    }
}

/// The pixels that a PNG file holds whose data chunk stands right behind its
/// header, is the last before the end, and holds stored blocks of plain rows.
pub open spec fn pixels_of(png: Seq<u8>, width: u32) -> Option<Seq<u8>> {
    match stored_payload(png.subrange(43, png.len() - 20)) {
        Some(lines) => Some(unfiltered(lines, width * 4)),
        None => None,
    }
}

proof fn lemma_block_reads_back(last: bool, bytes: Seq<u8>)
    requires
        bytes.len() <= 65535,
    ensures
        stored_block(last, bytes).len() == 5 + bytes.len(),
        stored_block(last, bytes)[0] == (if last {
            1u8
        } else {
            0u8
        }),
        read_little_endian(stored_block(last, bytes), 1) == bytes.len(),
        read_little_endian(stored_block(last, bytes), 3) == 65535 - bytes.len(),
        stored_block(last, bytes).skip(5) == bytes,
{
    let n = bytes.len() as u16;
    let m = (65535 - bytes.len()) as u16;
    assert(stored_block(last, bytes).skip(5) =~= bytes);
    assert((n % 256) + 256 * (n / 256) == n);
    assert((m % 256) + 256 * (m / 256) == m);
}

/// Stored blocks give back the bytes that were put into them. For no bytes at
/// all there is no block, so nothing can be read back.
pub proof fn stored_blocks_read_back(raw: Seq<u8>)
    requires
        raw.len() > 0,
    ensures
        stored_payload(stored_blocks(raw)) == Some(raw),
    decreases raw.len(),
{
    if raw.len() <= 65535 {
        lemma_block_reads_back(true, raw);
    } else {
        let head = raw.take(65535);
        let tail = raw.skip(65535);
        let block = stored_block(false, head);
        lemma_block_reads_back(false, head);
        stored_blocks_read_back(tail);
        let all = stored_blocks(raw);
        assert(all == block + stored_blocks(tail));
        assert(all[0] == block[0]);
        assert(all[1] == block[1]);
        assert(all[2] == block[2]);
        assert(all[3] == block[3]);
        assert(all[4] == block[4]);
        assert(all.skip(65540) =~= stored_blocks(tail));
        assert(all.subrange(5, 65540) =~= block.skip(5));
        assert(head + tail =~= raw);
    }
}

/// Plain rows give back the pixels that were put into them.
pub proof fn scanlines_read_back(pixels: Seq<u8>, stride: int)
    requires
        stride > 0,
        pixels.len() % stride as nat == 0,
    ensures
        unfiltered(scanlines(pixels, stride), stride) == pixels,
    decreases pixels.len(),
{
    if pixels.len() < stride {
        vstd::arithmetic::div_mod::lemma_small_mod(pixels.len(), stride as nat);
        assert(pixels =~= Seq::<u8>::empty());
        assert(scanlines(pixels, stride) =~= Seq::<u8>::empty());
    } else {
        let rest = pixels.skip(stride);
        vstd::arithmetic::div_mod::lemma_mod_sub_multiples_vanish(pixels.len() as int, stride);
        scanlines_read_back(rest, stride);
        let lines = scanlines(pixels, stride);
        assert(lines == seq![0u8] + pixels.take(stride) + scanlines(rest, stride));
        assert(lines.subrange(1, stride + 1) =~= pixels.take(stride));
        assert(lines.skip(stride + 1) =~= scanlines(rest, stride));
        assert(pixels.take(stride) + rest =~= pixels);
    }
}

/// The PNG file of a picture holds its pixels: they can be read back from it.
pub proof fn png_holds_the_pixels(rgba: Seq<u8>, width: u32, height: u32)
    requires
        width > 0,
        height > 0,
        rgba.len() == width * 4 * height,
    ensures
        pixels_of(png_file(rgba, width, height), width) == Some(rgba),
{
    let stride = width * 4;
    let lines = scanlines(rgba, stride);
    let zlib = zlib_stream(lines);
    let png = png_file(rgba, width, height);
    assert(stride * height >= stride) by (nonlinear_arith)
        requires
            stride > 0,
            height > 0,
    ;
    assert(rgba.len() % (stride as nat) == 0) by {
        vstd::arithmetic::div_mod::lemma_mod_multiples_basic(height as int, stride);
        assert(height * stride == stride * height) by (nonlinear_arith);
    }
    assert(lines.len() > 0);
    assert(signature().len() == 8);
    assert(header(width, height).len() == 13);
    assert(chunk(ihdr(), header(width, height)).len() == 25);
    assert(chunk(iend(), Seq::empty()).len() == 12);
    assert(chunk(idat(), zlib).len() == 12 + zlib.len());
    assert(png.subrange(41, png.len() - 16) =~= zlib);
    assert(png.subrange(43, png.len() - 20) =~= stored_blocks(lines)) by {
        assert(zlib.subrange(2, zlib.len() - 4) =~= stored_blocks(lines));
        assert(png.subrange(43, png.len() - 20) =~= png.subrange(41, png.len() - 16).subrange(
            2,
            zlib.len() - 4,
        ));
    }
    stored_blocks_read_back(lines);
    scanlines_read_back(rgba, stride);
}

/// The number that four bytes stand for, the highest first.
pub open spec fn read_big_endian(bytes: Seq<u8>, at: int) -> int {
    ((bytes[at] * 256 + bytes[at + 1]) * 256 + bytes[at + 2]) * 256 + bytes[at + 3]
}

/// A chunk tells the length of its data before its tag, and has its data whole
/// and its checksum behind it.
pub proof fn chunks_tell_their_length(tag: Seq<u8>, data: Seq<u8>)
    requires
        tag.len() == 4,
        data.len() < 0x1_0000_0000,
    ensures
        chunk(tag, data).len() == data.len() + 12,
        read_big_endian(chunk(tag, data), 0) == data.len(),
        chunk(tag, data).subrange(4, 8) == tag,
        chunk(tag, data).subrange(8, 8 + data.len() as int) == data,
        read_big_endian(chunk(tag, data), 8 + data.len() as int) == crc32_of(tag + data),
{
    let all = chunk(tag, data);
    lemma_big_endian_reads_back(data.len() as u32);
    lemma_big_endian_reads_back(crc32_of(tag + data));
    let len = big_endian(data.len() as u32);
    let sum = big_endian(crc32_of(tag + data));
    assert(all.subrange(4, 8) =~= tag);
    assert(all.subrange(8, 8 + data.len() as int) =~= data);
    assert(all[0] == len[0] && all[1] == len[1] && all[2] == len[2] && all[3] == len[3]);
    let k = 8 + data.len() as int;
    assert(all[k] == sum[0] && all[k + 1] == sum[1] && all[k + 2] == sum[2] && all[k + 3] == sum[3]);
}

proof fn lemma_big_endian_reads_back(n: u32)
    ensures
        big_endian(n).len() == 4,
        read_big_endian(big_endian(n), 0) == n,
{
}

/// The file of a picture begins as every PNG file does, and tells width and
/// height and that its pixels have eight bits each of red, green, blue and alpha.
pub proof fn pictures_tell_their_size(rgba: Seq<u8>, width: u32, height: u32)
    ensures
        ({
            let png = png_file(rgba, width, height);
            &&& png.take(8) == seq![137u8, 80u8, 78u8, 71u8, 13u8, 10u8, 26u8, 10u8]
            &&& read_big_endian(png, 8) == 13
            &&& png.subrange(12, 16) == seq![73u8, 72u8, 68u8, 82u8]
            &&& read_big_endian(png, 16) == width
            &&& read_big_endian(png, 20) == height
            &&& png.subrange(24, 29) == seq![8u8, 6u8, 0u8, 0u8, 0u8]
        }),
{
    let head = chunk(ihdr(), header(width, height));
    let data = chunk(idat(), zlib_stream(scanlines(rgba, width * 4)));
    let end = chunk(iend(), Seq::empty());
    lemma_header_tells_the_size(width, height);
    chunks_tell_their_length(ihdr(), header(width, height));
    lemma_size_in_picture(head, data, end, header(width, height));
}

proof fn lemma_size_in_picture(head: Seq<u8>, data: Seq<u8>, end: Seq<u8>, fields: Seq<u8>)
    requires
        head.len() == 25,
        fields.len() == 13,
        read_big_endian(head, 0) == 13,
        head.subrange(4, 8) == ihdr(),
        head.subrange(8, 21) == fields,
        fields.subrange(8, 13) == seq![8u8, 6u8, 0u8, 0u8, 0u8],
    ensures
        ({
            let png = signature() + head + data + end;
            &&& png.take(8) == seq![137u8, 80u8, 78u8, 71u8, 13u8, 10u8, 26u8, 10u8]
            &&& read_big_endian(png, 8) == 13
            &&& png.subrange(12, 16) == seq![73u8, 72u8, 68u8, 82u8]
            &&& read_big_endian(png, 16) == read_big_endian(fields, 0)
            &&& read_big_endian(png, 20) == read_big_endian(fields, 4)
            &&& png.subrange(24, 29) == seq![8u8, 6u8, 0u8, 0u8, 0u8]
        }),
{
    lemma_three_parts(signature() + head, data, end);
    lemma_behind_signature(head, data + end);
    lemma_fields_in_header(head, fields);
}

proof fn lemma_three_parts(a: Seq<u8>, b: Seq<u8>, c: Seq<u8>)
    ensures
        a + b + c == a + (b + c),
{
    assert(a + b + c =~= a + (b + c));
}

proof fn lemma_fields_in_header(head: Seq<u8>, fields: Seq<u8>)
    requires
        head.len() == 25,
        fields.len() == 13,
        head.subrange(8, 21) == fields,
    ensures
        read_big_endian(head, 8) == read_big_endian(fields, 0),
        read_big_endian(head, 12) == read_big_endian(fields, 4),
        head.subrange(16, 21) == fields.subrange(8, 13),
{
    assert(fields[0] == head[8] && fields[1] == head[9] && fields[2] == head[10] && fields[3]
        == head[11]);
    assert(fields[4] == head[12] && fields[5] == head[13] && fields[6] == head[14] && fields[7]
        == head[15]);
    assert(head.subrange(16, 21) =~= fields.subrange(8, 13));
}

proof fn lemma_header_tells_the_size(width: u32, height: u32)
    ensures
        header(width, height).len() == 13,
        read_big_endian(header(width, height), 0) == width,
        read_big_endian(header(width, height), 4) == height,
        header(width, height).subrange(8, 13) == seq![8u8, 6u8, 0u8, 0u8, 0u8],
{
    let fields = header(width, height);
    let w = big_endian(width);
    let h = big_endian(height);
    lemma_big_endian_reads_back(width);
    lemma_big_endian_reads_back(height);
    assert(fields[0] == w[0] && fields[1] == w[1] && fields[2] == w[2] && fields[3] == w[3]);
    assert(fields[4] == h[0] && fields[5] == h[1] && fields[6] == h[2] && fields[7] == h[3]);
    assert(fields.subrange(8, 13) =~= seq![8u8, 6u8, 0u8, 0u8, 0u8]);
}

proof fn lemma_behind_signature(head: Seq<u8>, rest: Seq<u8>)
    requires
        head.len() == 25,
    ensures
        ({
            let all = signature() + head + rest;
            &&& all.take(8) == seq![137u8, 80u8, 78u8, 71u8, 13u8, 10u8, 26u8, 10u8]
            &&& all.subrange(12, 16) == head.subrange(4, 8)
            &&& all.subrange(24, 29) == head.subrange(16, 21)
            &&& read_big_endian(all, 8) == read_big_endian(head, 0)
            &&& read_big_endian(all, 16) == read_big_endian(head, 8)
            &&& read_big_endian(all, 20) == read_big_endian(head, 12)
        }),
{
    let all = signature() + head + rest;
    assert(all.take(8) =~= seq![137u8, 80u8, 78u8, 71u8, 13u8, 10u8, 26u8, 10u8]);
    assert(all.subrange(12, 16) =~= head.subrange(4, 8));
    assert(all.subrange(24, 29) =~= head.subrange(16, 21));
}

/// The checksums grow byte by byte.
pub proof fn checksums_grow_by_bytes(data: Seq<u8>, byte: u8)
    ensures
        crc32_of(Seq::<u8>::empty()) == 0,
        crc_register(data.push(byte)) == crc_bits(crc_register(data) ^ (byte as u32), 8),
        adler32_of(Seq::<u8>::empty()) == 1,
        adler_low(data.push(byte)) == (adler_low(data) + byte) % 65521,
        adler_high(data.push(byte)) == (adler_high(data) + adler_low(data.push(byte))) % 65521,
        adler32_of(data) % 65536 == adler_low(data) % 65536,
        adler32_of(data) / 65536 == adler_high(data),
{
    assert(data.push(byte).drop_last() =~= data);
    assert(!0xFFFF_FFFFu32 == 0) by (bit_vector);
    lemma_adler_low_is_small(data);
}

proof fn lemma_adler_low_is_small(data: Seq<u8>)
    ensures
        adler_low(data) < 65521,
{
}

/// A stream begins with its two bytes, which tell how it is packed, and ends
/// with the checksum of what it holds.
pub proof fn streams_end_with_their_checksum(raw: Seq<u8>)
    ensures
        zlib_stream(raw).len() == stored_blocks(raw).len() + 6,
        zlib_stream(raw)[0] == 0x78,
        zlib_stream(raw)[1] == 0x01,
        zlib_stream(raw).subrange(2, zlib_stream(raw).len() - 4) == stored_blocks(raw),
        read_big_endian(zlib_stream(raw), zlib_stream(raw).len() - 4) == adler32_of(raw) as u32,
{
    let all = zlib_stream(raw);
    let sum = big_endian(adler32_of(raw) as u32);
    let n = all.len() as int;
    lemma_big_endian_reads_back(adler32_of(raw) as u32);
    assert(all.subrange(2, n - 4) =~= stored_blocks(raw));
    assert(all[n - 4] == sum[0] && all[n - 3] == sum[1] && all[n - 2] == sum[2] && all[n - 1]
        == sum[3]);
}

/// Each row of pixels is written whole behind a zero, which says that it is
/// written as it is; what is no whole row is left out.
pub proof fn rows_are_written_as_they_are(pixels: Seq<u8>, stride: int)
    requires
        stride > 0,
    ensures
        pixels.len() < stride ==> scanlines(pixels, stride).len() == 0,
        pixels.len() >= stride ==> {
            let lines = scanlines(pixels, stride);
            &&& lines.len() >= stride + 1
            &&& lines[0] == 0
            &&& lines.subrange(1, stride + 1) == pixels.take(stride)
            &&& lines.skip(stride + 1) == scanlines(pixels.skip(stride), stride)
        },
{
    if pixels.len() >= stride {
        let lines = scanlines(pixels, stride);
        assert(lines.subrange(1, stride + 1) =~= pixels.take(stride));
        assert(lines.skip(stride + 1) =~= scanlines(pixels.skip(stride), stride));
    }
}

} // verus!
