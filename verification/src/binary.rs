use vstd::prelude::*;
use vstd::utf8::encode_utf8;
use crate::constants::{OPPAI_VERSION_MAJOR, OPPAI_VERSION_MINOR, OPPAI_VERSION_PATCH};

verus! {

/// What the binary output module writes of a calculation. Floating point
/// values are given by their IEEE 754 bits (`f32::to_bits`).
pub struct ScoreRecord {
    pub artist: String,
    pub artist_unicode: String,
    pub title: String,
    pub title_unicode: String,
    pub version: String,
    pub creator: String,
    pub mods: u32,
    pub od_bits: u32,
    pub ar_bits: u32,
    pub cs_bits: u32,
    pub hp_bits: u32,
    pub combo: i32,
    pub max_combo: i32,
    pub ncircles: i32,
    pub nsliders: i32,
    pub nspinners: i32,
    pub score_version: i32,
    pub stars_bits: u32,
    pub speed_stars_bits: u32,
    pub aim_stars_bits: u32,
    pub aim_pp_bits: u32,
    pub speed_pp_bits: u32,
    pub acc_pp_bits: u32,
    pub pp_bits: u32,
}

/// A 16-bit value, little endian.
pub open spec fn le16(x: u16) -> Seq<u8> {
    seq![x as u8, (x >> 8u16) as u8]
}

/// A 32-bit value, little endian.
pub open spec fn le32(x: u32) -> Seq<u8> {
    seq![x as u8, (x >> 8u32) as u8, (x >> 16u32) as u8, (x >> 24u32) as u8]
}

/// A string field: its byte length (at most `0xffff`, longer strings are
/// cut), that many bytes of its UTF-8 encoding, and a zero byte.
pub open spec fn str_field(s: Seq<char>) -> Seq<u8> {
    let b = encode_utf8(s);
    let n = if b.len() > 0xffff {
        0xffffnat
    } else {
        b.len()
    };
    le16(n as u16) + b.take(n as int) + seq![0u8]
}

/// The bytes `binoppai`.
pub open spec fn magic() -> Seq<u8> {
    seq![0x62u8, 0x69, 0x6e, 0x6f, 0x70, 0x70, 0x61, 0x69]
}

/// The binary output of a calculation: the magic bytes, the version, the
/// result code, and, unless the code is an error, the record's fields.
pub open spec fn binary_record_spec(result: i32, r: ScoreRecord) -> Seq<u8> {
    let head = magic() + seq![
        OPPAI_VERSION_MAJOR as u8,
        OPPAI_VERSION_MINOR as u8,
        OPPAI_VERSION_PATCH as u8,
    ] + le32(result as u32);
    if result < 0 {
        head
    } else {
        head + str_field(r.artist@) + str_field(r.artist_unicode@) + str_field(r.title@)
            + str_field(r.title_unicode@) + str_field(r.version@) + str_field(r.creator@) + le32(
            r.mods,
        ) + le32(r.od_bits) + le32(r.ar_bits) + le32(r.cs_bits) + le32(r.hp_bits) + le32(
            r.combo as u32,
        ) + le32(r.max_combo as u32) + le16(r.ncircles as u16) + le16(r.nsliders as u16) + le16(
            r.nspinners as u16,
        ) + le32(r.score_version as u32) + le32(r.stars_bits) + le32(r.speed_stars_bits) + le32(
            r.aim_stars_bits,
        ) + le16(0) + le16(0) + le32(r.aim_pp_bits) + le32(r.speed_pp_bits) + le32(
            r.acc_pp_bits,
        ) + le32(r.pp_bits)
    }
}

fn push_le16(out: &mut Vec<u8>, x: u16)
    ensures
        final(out)@ == old(out)@ + le16(x),
{
    out.push(x as u8);
    out.push((x >> 8u16) as u8);
    proof {
        assert(final(out)@ =~= old(out)@ + le16(x));
    }
}

fn push_le32(out: &mut Vec<u8>, x: u32)
    ensures
        final(out)@ == old(out)@ + le32(x),
{
    out.push(x as u8);
    out.push((x >> 8u32) as u8);
    out.push((x >> 16u32) as u8);
    out.push((x >> 24u32) as u8);
    proof {
        assert(final(out)@ =~= old(out)@ + le32(x));
    }
}

fn push_str_field(out: &mut Vec<u8>, s: &String)
    ensures
        final(out)@ == old(out)@ + str_field(s@),
{
    let b: &[u8] = s.as_str().as_bytes();
    let len: usize = b.len();
    let n: usize = if len > 0xffff {
        0xffff
    } else {
        len
    };
    push_le16(out, n as u16);
    let ghost start = out@;
    let mut i: usize = 0;
    while i < n
        invariant
            n <= len == b@.len(),
            b@ == encode_utf8(s@),
            i <= n,
            out@ == start + b@.take(i as int),
        decreases n - i,
    {
        out.push(b[i]);
        proof {
            assert(b@.take(i + 1) =~= b@.take(i as int).push(b@[i as int]));
            assert(out@ =~= start + b@.take(i + 1));
        }
        i += 1;
    }
    out.push(0u8);
    proof {
        assert(final(out)@ =~= old(out)@ + str_field(s@));
    }
}

/// The bytes that the binary output module writes for a calculation that
/// ended with `result`: `binoppai`, the version, the code, and, when the
/// code is not an error, the strings (each cut to `0xffff` bytes, framed
/// by a 16-bit length and a zero byte) and the numbers, little endian, with
/// the circle, slider and spinner counts in 16 bits.
pub fn binary_record(result: i32, r: &ScoreRecord) -> (out: Vec<u8>)
    ensures
        out@ == binary_record_spec(result, *r),
{
    let mut out: Vec<u8> = Vec::new();
    out.push(0x62u8);
    out.push(0x69u8);
    out.push(0x6eu8);
    out.push(0x6fu8);
    out.push(0x70u8);
    out.push(0x70u8);
    out.push(0x61u8);
    out.push(0x69u8);
    out.push(OPPAI_VERSION_MAJOR as u8);
    out.push(OPPAI_VERSION_MINOR as u8);
    out.push(OPPAI_VERSION_PATCH as u8);
    push_le32(&mut out, result as u32);
    let ghost head = out@;
    proof {
        assert(head =~= magic() + seq![
            OPPAI_VERSION_MAJOR as u8,
            OPPAI_VERSION_MINOR as u8,
            OPPAI_VERSION_PATCH as u8,
        ] + le32(result as u32));
    }
    if result < 0 {
        return out;
    }
    push_str_field(&mut out, &r.artist);
    push_str_field(&mut out, &r.artist_unicode);
    push_str_field(&mut out, &r.title);
    push_str_field(&mut out, &r.title_unicode);
    push_str_field(&mut out, &r.version);
    push_str_field(&mut out, &r.creator);
    push_le32(&mut out, r.mods);
    push_le32(&mut out, r.od_bits);
    push_le32(&mut out, r.ar_bits);
    push_le32(&mut out, r.cs_bits);
    push_le32(&mut out, r.hp_bits);
    push_le32(&mut out, r.combo as u32);
    push_le32(&mut out, r.max_combo as u32);
    push_le16(&mut out, r.ncircles as u16);
    push_le16(&mut out, r.nsliders as u16);
    push_le16(&mut out, r.nspinners as u16);
    push_le32(&mut out, r.score_version as u32);
    push_le32(&mut out, r.stars_bits);
    push_le32(&mut out, r.speed_stars_bits);
    push_le32(&mut out, r.aim_stars_bits);
    push_le16(&mut out, 0);
    push_le16(&mut out, 0);
    push_le32(&mut out, r.aim_pp_bits);
    push_le32(&mut out, r.speed_pp_bits);
    push_le32(&mut out, r.acc_pp_bits);
    push_le32(&mut out, r.pp_bits);
    out
}

/// The 32-bit little-endian value at `at` in `b`.
pub open spec fn read_le32(b: Seq<u8>, at: int) -> u32 {
    (b[at] as u32) | ((b[at + 1] as u32) << 8u32) | ((b[at + 2] as u32) << 16u32) | ((b[at + 3]
        as u32) << 24u32)
}

/// The 16-bit little-endian value at `at` in `b`.
pub open spec fn read_le16(b: Seq<u8>, at: int) -> u16 {
    (b[at] as u16) | ((b[at + 1] as u16) << 8u16)
}

/// Where the string fields of a record end: after the 8 magic bytes, the 3
/// version bytes, the 4-byte code, and the six framed strings.
pub open spec fn strings_end(r: ScoreRecord) -> int {
    (15 + str_field(r.artist@).len() + str_field(r.artist_unicode@).len() + str_field(r.title@).len()
        + str_field(r.title_unicode@).len() + str_field(r.version@).len() + str_field(
        r.creator@,
    ).len()) as int
}

proof fn lemma_read_le32(b: Seq<u8>, at: int, x: u32)
    requires
        0 <= at,
        at + 4 <= b.len(),
        b.subrange(at, at + 4) == le32(x),
    ensures
        read_le32(b, at) == x,
{
    let s = b.subrange(at, at + 4);
    assert(b[at] == s[0] && b[at + 1] == s[1] && b[at + 2] == s[2] && b[at + 3] == s[3]);
    assert(((x as u8) as u32) | ((((x >> 8u32) as u8) as u32) << 8u32) | ((((x >> 16u32) as u8)
        as u32) << 16u32) | ((((x >> 24u32) as u8) as u32) << 24u32) == x) by (bit_vector);
}

proof fn lemma_read_le16(b: Seq<u8>, at: int, x: u16)
    requires
        0 <= at,
        at + 2 <= b.len(),
        b.subrange(at, at + 2) == le16(x),
    ensures
        read_le16(b, at) == x,
{
    let s = b.subrange(at, at + 2);
    assert(b[at] == s[0] && b[at + 1] == s[1]);
    assert(((x as u8) as u16) | ((((x >> 8u16) as u8) as u16) << 8u16) == x) by (bit_vector);
}

/// `x` begins `z`.
pub open spec fn bytes_prefix(x: Seq<u8>, z: Seq<u8>) -> bool {
    x.len() <= z.len() && z.subrange(0, x.len() as int) == x
}

proof fn lemma_prefix_self(z: Seq<u8>)
    ensures
        bytes_prefix(z, z),
{
    assert(z.subrange(0, z.len() as int) =~= z);
}

proof fn lemma_concat_prefix(x: Seq<u8>, y: Seq<u8>)
    ensures
        bytes_prefix(x, x + y),
{
    assert((x + y).subrange(0, x.len() as int) =~= x);
}

proof fn lemma_prefix_trans(x: Seq<u8>, y: Seq<u8>, z: Seq<u8>)
    requires
        bytes_prefix(x, y),
        bytes_prefix(y, z),
    ensures
        bytes_prefix(x, z),
{
    assert(z.subrange(0, x.len() as int) =~= y.subrange(0, x.len() as int));
}

proof fn lemma_piece(x: Seq<u8>, y: Seq<u8>, z: Seq<u8>)
    requires
        bytes_prefix(x + y, z),
    ensures
        z.subrange(x.len() as int, (x.len() + y.len()) as int) == y,
{
    assert(z.subrange(x.len() as int, (x.len() + y.len()) as int) =~= (x + y).subrange(
        x.len() as int,
        (x.len() + y.len()) as int,
    ));
    assert((x + y).subrange(x.len() as int, (x.len() + y.len()) as int) =~= y);
}

/// A reader of the binary record finds each value at its fixed place: the
/// code at byte 11; after the six strings, the mods, OD, AR, CS and HP,
/// the combo and the max combo (4 bytes each), the circle, slider and
/// spinner counts (2 bytes each), the score version, the stars, the speed
/// stars and the aim stars (4 bytes each), two zero 16-bit values, and the
/// aim, speed, accuracy and total pp (4 bytes each), where the record ends.
/// The strings stand in the order artist, unicode artist, title, unicode
/// title, version, creator.
#[verifier::spinoff_prover]
#[verifier::rlimit(80)]
pub proof fn lemma_binary_record_layout(result: i32, r: ScoreRecord)
    requires
        result >= 0,
    ensures
        binary_record_spec(result, r).len() == strings_end(r) + 70,
        binary_record_spec(result, r).subrange(0, 8) == magic(),
        read_le32(binary_record_spec(result, r), 11) == result as u32,
        binary_record_spec(result, r).subrange(15, strings_end(r)) == str_field(r.artist@)
            + str_field(r.artist_unicode@) + str_field(r.title@) + str_field(r.title_unicode@)
            + str_field(r.version@) + str_field(r.creator@),
        read_le32(binary_record_spec(result, r), strings_end(r) + 0) == r.mods,
        read_le32(binary_record_spec(result, r), strings_end(r) + 4) == r.od_bits,
        read_le32(binary_record_spec(result, r), strings_end(r) + 8) == r.ar_bits,
        read_le32(binary_record_spec(result, r), strings_end(r) + 12) == r.cs_bits,
        read_le32(binary_record_spec(result, r), strings_end(r) + 16) == r.hp_bits,
        read_le32(binary_record_spec(result, r), strings_end(r) + 20) == r.combo as u32,
        read_le32(binary_record_spec(result, r), strings_end(r) + 24) == r.max_combo as u32,
        read_le16(binary_record_spec(result, r), strings_end(r) + 28) == r.ncircles as u16,
        read_le16(binary_record_spec(result, r), strings_end(r) + 30) == r.nsliders as u16,
        read_le16(binary_record_spec(result, r), strings_end(r) + 32) == r.nspinners as u16,
        read_le32(binary_record_spec(result, r), strings_end(r) + 34) == r.score_version as u32,
        read_le32(binary_record_spec(result, r), strings_end(r) + 38) == r.stars_bits,
        read_le32(binary_record_spec(result, r), strings_end(r) + 42) == r.speed_stars_bits,
        read_le32(binary_record_spec(result, r), strings_end(r) + 46) == r.aim_stars_bits,
        read_le16(binary_record_spec(result, r), strings_end(r) + 50) == 0u16,
        read_le16(binary_record_spec(result, r), strings_end(r) + 52) == 0u16,
        read_le32(binary_record_spec(result, r), strings_end(r) + 54) == r.aim_pp_bits,
        read_le32(binary_record_spec(result, r), strings_end(r) + 58) == r.speed_pp_bits,
        read_le32(binary_record_spec(result, r), strings_end(r) + 62) == r.acc_pp_bits,
        read_le32(binary_record_spec(result, r), strings_end(r) + 66) == r.pp_bits,
{
    let b = binary_record_spec(result, r);
    let o = strings_end(r);
    let head = magic() + seq![
        OPPAI_VERSION_MAJOR as u8,
        OPPAI_VERSION_MINOR as u8,
        OPPAI_VERSION_PATCH as u8,
    ] + le32(result as u32);
    let p1 = head + str_field(r.artist@);
    let p2 = p1 + str_field(r.artist_unicode@);
    let p3 = p2 + str_field(r.title@);
    let p4 = p3 + str_field(r.title_unicode@);
    let p5 = p4 + str_field(r.version@);
    let p6 = p5 + str_field(r.creator@);
    let c0 = p6 + le32(r.mods);
    let c1 = c0 + le32(r.od_bits);
    let c2 = c1 + le32(r.ar_bits);
    let c3 = c2 + le32(r.cs_bits);
    let c4 = c3 + le32(r.hp_bits);
    let c5 = c4 + le32(r.combo as u32);
    let c6 = c5 + le32(r.max_combo as u32);
    let c7 = c6 + le16(r.ncircles as u16);
    let c8 = c7 + le16(r.nsliders as u16);
    let c9 = c8 + le16(r.nspinners as u16);
    let c10 = c9 + le32(r.score_version as u32);
    let c11 = c10 + le32(r.stars_bits);
    let c12 = c11 + le32(r.speed_stars_bits);
    let c13 = c12 + le32(r.aim_stars_bits);
    let c14 = c13 + le16(0);
    let c15 = c14 + le16(0);
    let c16 = c15 + le32(r.aim_pp_bits);
    let c17 = c16 + le32(r.speed_pp_bits);
    let c18 = c17 + le32(r.acc_pp_bits);
    let c19 = c18 + le32(r.pp_bits);
    assert(c19 == b);
    lemma_prefix_self(b);
    lemma_concat_prefix(c18, le32(r.pp_bits));
    lemma_prefix_trans(c18, c19, b);
    lemma_concat_prefix(c17, le32(r.acc_pp_bits));
    lemma_prefix_trans(c17, c18, b);
    lemma_concat_prefix(c16, le32(r.speed_pp_bits));
    lemma_prefix_trans(c16, c17, b);
    lemma_concat_prefix(c15, le32(r.aim_pp_bits));
    lemma_prefix_trans(c15, c16, b);
    lemma_concat_prefix(c14, le16(0));
    lemma_prefix_trans(c14, c15, b);
    lemma_concat_prefix(c13, le16(0));
    lemma_prefix_trans(c13, c14, b);
    lemma_concat_prefix(c12, le32(r.aim_stars_bits));
    lemma_prefix_trans(c12, c13, b);
    lemma_concat_prefix(c11, le32(r.speed_stars_bits));
    lemma_prefix_trans(c11, c12, b);
    lemma_concat_prefix(c10, le32(r.stars_bits));
    lemma_prefix_trans(c10, c11, b);
    lemma_concat_prefix(c9, le32(r.score_version as u32));
    lemma_prefix_trans(c9, c10, b);
    lemma_concat_prefix(c8, le16(r.nspinners as u16));
    lemma_prefix_trans(c8, c9, b);
    lemma_concat_prefix(c7, le16(r.nsliders as u16));
    lemma_prefix_trans(c7, c8, b);
    lemma_concat_prefix(c6, le16(r.ncircles as u16));
    lemma_prefix_trans(c6, c7, b);
    lemma_concat_prefix(c5, le32(r.max_combo as u32));
    lemma_prefix_trans(c5, c6, b);
    lemma_concat_prefix(c4, le32(r.combo as u32));
    lemma_prefix_trans(c4, c5, b);
    lemma_concat_prefix(c3, le32(r.hp_bits));
    lemma_prefix_trans(c3, c4, b);
    lemma_concat_prefix(c2, le32(r.cs_bits));
    lemma_prefix_trans(c2, c3, b);
    lemma_concat_prefix(c1, le32(r.ar_bits));
    lemma_prefix_trans(c1, c2, b);
    lemma_concat_prefix(c0, le32(r.od_bits));
    lemma_prefix_trans(c0, c1, b);
    lemma_concat_prefix(p6, le32(r.mods));
    lemma_prefix_trans(p6, c0, b);
    lemma_concat_prefix(p5, str_field(r.creator@));
    lemma_prefix_trans(p5, p6, b);
    lemma_concat_prefix(p4, str_field(r.version@));
    lemma_prefix_trans(p4, p5, b);
    lemma_concat_prefix(p3, str_field(r.title_unicode@));
    lemma_prefix_trans(p3, p4, b);
    lemma_concat_prefix(p2, str_field(r.title@));
    lemma_prefix_trans(p2, p3, b);
    lemma_concat_prefix(p1, str_field(r.artist_unicode@));
    lemma_prefix_trans(p1, p2, b);
    lemma_concat_prefix(head, str_field(r.artist@));
    lemma_prefix_trans(head, p1, b);
    assert(head.len() == 15);
    assert(b.subrange(0, 15) == head);
    assert(b.subrange(0, 8) =~= magic());
    assert(b.subrange(11, 15) =~= le32(result as u32)) by {
        assert(b.subrange(11, 15) =~= head.subrange(11, 15));
    }
    lemma_read_le32(b, 11, result as u32);
    assert(p6.subrange(15, o) =~= str_field(r.artist@) + str_field(r.artist_unicode@) + str_field(
        r.title@,
    ) + str_field(r.title_unicode@) + str_field(r.version@) + str_field(r.creator@));
    assert(b.subrange(15, o) =~= p6.subrange(15, o));
    lemma_piece(p6, le32(r.mods), b);
    lemma_read_le32(b, o + 0, r.mods);
    lemma_piece(c0, le32(r.od_bits), b);
    lemma_read_le32(b, o + 4, r.od_bits);
    lemma_piece(c1, le32(r.ar_bits), b);
    lemma_read_le32(b, o + 8, r.ar_bits);
    lemma_piece(c2, le32(r.cs_bits), b);
    lemma_read_le32(b, o + 12, r.cs_bits);
    lemma_piece(c3, le32(r.hp_bits), b);
    lemma_read_le32(b, o + 16, r.hp_bits);
    lemma_piece(c4, le32(r.combo as u32), b);
    lemma_read_le32(b, o + 20, r.combo as u32);
    lemma_piece(c5, le32(r.max_combo as u32), b);
    lemma_read_le32(b, o + 24, r.max_combo as u32);
    lemma_piece(c6, le16(r.ncircles as u16), b);
    lemma_read_le16(b, o + 28, r.ncircles as u16);
    lemma_piece(c7, le16(r.nsliders as u16), b);
    lemma_read_le16(b, o + 30, r.nsliders as u16);
    lemma_piece(c8, le16(r.nspinners as u16), b);
    lemma_read_le16(b, o + 32, r.nspinners as u16);
    lemma_piece(c9, le32(r.score_version as u32), b);
    lemma_read_le32(b, o + 34, r.score_version as u32);
    lemma_piece(c10, le32(r.stars_bits), b);
    lemma_read_le32(b, o + 38, r.stars_bits);
    lemma_piece(c11, le32(r.speed_stars_bits), b);
    lemma_read_le32(b, o + 42, r.speed_stars_bits);
    lemma_piece(c12, le32(r.aim_stars_bits), b);
    lemma_read_le32(b, o + 46, r.aim_stars_bits);
    lemma_piece(c13, le16(0), b);
    lemma_read_le16(b, o + 50, 0);
    lemma_piece(c14, le16(0), b);
    lemma_read_le16(b, o + 52, 0);
    lemma_piece(c15, le32(r.aim_pp_bits), b);
    lemma_read_le32(b, o + 54, r.aim_pp_bits);
    lemma_piece(c16, le32(r.speed_pp_bits), b);
    lemma_read_le32(b, o + 58, r.speed_pp_bits);
    lemma_piece(c17, le32(r.acc_pp_bits), b);
    lemma_read_le32(b, o + 62, r.acc_pp_bits);
    lemma_piece(c18, le32(r.pp_bits), b);
    lemma_read_le32(b, o + 66, r.pp_bits);
}

} // verus!
