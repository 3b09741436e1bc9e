use rustpp::binary::{binary_record, ScoreRecord};

fn record() -> ScoreRecord {
    ScoreRecord {
        artist: "Nogizaka46".to_string(),
        artist_unicode: "\u{4e43}\u{6728}\u{5742}46".to_string(),
        title: "Yubi Bouenkyou".to_string(),
        title_unicode: "\u{6307}\u{671b}".to_string(),
        version: "Hard".to_string(),
        creator: "".to_string(),
        mods: 72,
        od_bits: 10.67f32.to_bits(),
        ar_bits: 10.6f32.to_bits(),
        cs_bits: 4.0f32.to_bits(),
        hp_bits: 5.0f32.to_bits(),
        combo: 400,
        max_combo: 512,
        ncircles: 300,
        nsliders: 70_000,
        nspinners: -1,
        score_version: 1,
        stars_bits: 5.25f32.to_bits(),
        speed_stars_bits: 2.5f32.to_bits(),
        aim_stars_bits: 2.5f32.to_bits(),
        aim_pp_bits: 100.0f32.to_bits(),
        speed_pp_bits: 90.0f32.to_bits(),
        acc_pp_bits: 80.0f32.to_bits(),
        pp_bits: 280.5f32.to_bits(),
    }
}

fn expected(result: i32, r: &ScoreRecord) -> Vec<u8> {
    let mut out = Vec::new();
    out.extend_from_slice(b"binoppai");
    out.extend_from_slice(&[4, 1, 0]);
    out.extend_from_slice(&result.to_le_bytes());
    if result < 0 {
        return out;
    }
    for s in [&r.artist, &r.artist_unicode, &r.title, &r.title_unicode, &r.version, &r.creator] {
        let bytes = s.as_bytes();
        let len = bytes.len().min(0xFFFF) as u16;
        out.extend_from_slice(&len.to_le_bytes());
        out.extend_from_slice(&bytes[..len as usize]);
        out.push(0);
    }
    out.extend_from_slice(&(r.mods as i32).to_le_bytes());
    for b in [r.od_bits, r.ar_bits, r.cs_bits, r.hp_bits] {
        out.extend_from_slice(&f32::from_bits(b).to_le_bytes());
    }
    out.extend_from_slice(&r.combo.to_le_bytes());
    out.extend_from_slice(&r.max_combo.to_le_bytes());
    out.extend_from_slice(&(r.ncircles as i16).to_le_bytes());
    out.extend_from_slice(&(r.nsliders as i16).to_le_bytes());
    out.extend_from_slice(&(r.nspinners as i16).to_le_bytes());
    out.extend_from_slice(&r.score_version.to_le_bytes());
    for b in [r.stars_bits, r.speed_stars_bits, r.aim_stars_bits] {
        out.extend_from_slice(&f32::from_bits(b).to_le_bytes());
    }
    out.extend_from_slice(&0i16.to_le_bytes());
    out.extend_from_slice(&0i16.to_le_bytes());
    for b in [r.aim_pp_bits, r.speed_pp_bits, r.acc_pp_bits, r.pp_bits] {
        out.extend_from_slice(&f32::from_bits(b).to_le_bytes());
    }
    out
}

#[test]
fn binary_record_layout() {
    let r = record();
    let out = binary_record(0, &r);
    assert_eq!(&out[0..8], b"binoppai");
    assert_eq!(out[8], 4);
    assert_eq!(out[9], 1);
    assert_eq!(out[10], 0);
    assert_eq!(&out[11..15], &[0, 0, 0, 0]);
    assert_eq!(&out[15..17], &[10, 0]);
    assert_eq!(&out[17..27], b"Nogizaka46");
    assert_eq!(out[27], 0);
    assert_eq!(out, expected(0, &r));
}

#[test]
fn binary_record_for_an_error_is_the_header() {
    let r = record();
    let out = binary_record(-5, &r);
    assert_eq!(out.len(), 15);
    assert_eq!(&out[11..15], &(-5i32).to_le_bytes());
    assert_eq!(out, expected(-5, &r));
}

#[test]
fn binary_record_cuts_long_strings() {
    let mut r = record();
    r.creator = "ab".repeat(40_000);
    let out = binary_record(0, &r);
    assert_eq!(out, expected(0, &r));
    assert_eq!(out.len(), expected(0, &r).len());
}
