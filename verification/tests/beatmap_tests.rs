use rustpp::beatmap::{hit_object_times, parse_beatmap_text, sound_types, RawHitObject};
use rustpp::constants::{ERR_NOTIMPLEMENTED, MODE_STD, MODE_TAIKO};
use rustpp::taiko::{rim_switch, RimRun};

const SAMPLE: &str = "osu file format v14\r
\r
[General]\r
AudioFilename: audio.mp3\r
Mode: 0\r
\r
[Metadata]\r
Title:Yubi Bouenkyou (TV Size)\r
TitleUnicode: \u{6307}\u{671b}\u{9060}\u{93e1}\r
Artist:Nogizaka46\r
Creator:Someone\r
Version:Hard\r
\r
[Difficulty]\r
HPDrainRate:5\r
CircleSize:4\r
OverallDifficulty:7\r
ApproachRate:8.5\r
SliderMultiplier:1.4\r
SliderTickRate:1\r
\r
[TimingPoints]\r
100,300,4,2,0,60,1,0\r
2000,-50,4,2,0,60,0,0\r
3000,400\r
\r
[HitObjects]\r
256,192,1000,1,0,0:0:0:0:\r
// a comment\r
100,100,1500,2,0,B|200:100,2,140\r
256,192,2000,12,0,2500,0:0:0:0:\r
300,300,2600,5,2,0:0:0:0:\r
bad,line\r
400,200,3000,1,0\r
";

fn text(s: &String) -> &str {
    s.as_str()
}

#[test]
fn reads_metadata_and_difficulty_text() {
    let m = parse_beatmap_text(SAMPLE, 0, 0, &vec![]).unwrap();
    assert_eq!(m.format_version, 14);
    assert_eq!(m.mode, MODE_STD);
    assert_eq!(m.original_mode, MODE_STD);
    assert_eq!(m.title, "Yubi Bouenkyou (TV Size)");
    assert_eq!(m.title_unicode, "\u{6307}\u{671b}\u{9060}\u{93e1}");
    assert_eq!(m.artist, "Nogizaka46");
    assert_eq!(m.artist_unicode, "Nogizaka46");
    assert_eq!(m.creator, "Someone");
    assert_eq!(m.version, "Hard");
    assert_eq!(m.cs.as_deref(), Some("4"));
    assert_eq!(m.od.as_deref(), Some("7"));
    assert_eq!(m.ar.as_deref(), Some("8.5"));
    assert_eq!(m.hp.as_deref(), Some("5"));
    assert_eq!(m.sv.as_deref(), Some("1.4"));
    assert_eq!(m.tick_rate.as_deref(), Some("1"));
}

#[test]
fn reads_timing_points() {
    let m = parse_beatmap_text(SAMPLE, 0, 0, &vec![]).unwrap();
    assert_eq!(m.timing_points.len(), 3);
    assert_eq!(text(&m.timing_points[0].time), "100");
    assert_eq!(text(&m.timing_points[0].ms_per_beat), "300");
    assert!(m.timing_points[0].change);
    assert_eq!(text(&m.timing_points[1].ms_per_beat), "-50");
    assert!(!m.timing_points[1].change);
    assert!(m.timing_points[2].change);
}

#[test]
fn counts_objects_by_kind() {
    let m = parse_beatmap_text(SAMPLE, 0, 0, &vec![]).unwrap();
    assert_eq!(m.nobjects, 5);
    assert_eq!(m.objects.len(), 5);
    assert_eq!(m.ncircles, 3);
    assert_eq!(m.nsliders, 1);
    assert_eq!(m.nspinners, 1);
    assert_eq!(m.base_max_combo, 5);
}

#[test]
fn reads_hit_object_fields() {
    let m = parse_beatmap_text(SAMPLE, 0, 0, &vec![]).unwrap();
    let c = &m.objects[0];
    assert_eq!(text(&c.time), "1000");
    assert_eq!(c.obj_type, 1);
    assert_eq!(c.pos.as_ref().map(|(x, y)| (x.as_str(), y.as_str())), Some(("256", "192")));
    assert_eq!(c.sound, None);
    let s = &m.objects[1];
    assert_eq!(s.obj_type, 2);
    assert_eq!(s.repetitions, 2);
    assert_eq!(s.distance.as_deref(), Some("140"));
    assert_eq!(s.edge_sounds, None);
    let sp = &m.objects[2];
    assert_eq!(sp.obj_type, 12);
    assert_eq!(sp.pos, None);
    assert_eq!(sp.repetitions, 0);
    assert_eq!(text(&m.objects[4].time), "3000");
}

#[test]
fn end_cuts_objects() {
    let m = parse_beatmap_text(SAMPLE, 0, 2, &vec![]).unwrap();
    assert_eq!(m.nobjects, 2);
    assert_eq!(m.ncircles, 1);
    assert_eq!(m.nsliders, 1);
    assert_eq!(m.nspinners, 0);
    let all = parse_beatmap_text(SAMPLE, 0, 0, &vec![]).unwrap();
    assert_eq!(all.nobjects, 5);
    let neg = parse_beatmap_text(SAMPLE, 0, -3, &vec![]).unwrap();
    assert_eq!(neg.nobjects, 5);
}

#[test]
fn hit_object_times_lists_every_object_line() {
    let times = hit_object_times(SAMPLE);
    let t: Vec<&str> = times.iter().map(|s| s.as_str()).collect();
    assert_eq!(t, vec!["1000", "1500", "2000", "2600", "3000"]);
}

#[test]
fn cut_leaves_out_the_marked_lines() {
    let cut = vec![false, true, false, true];
    let m = parse_beatmap_text(SAMPLE, 0, 0, &cut).unwrap();
    let t: Vec<&str> = m.objects.iter().map(|o| o.time.as_str()).collect();
    assert_eq!(t, vec!["1000", "2000", "3000"]);
    assert_eq!(m.nsliders, 0);
    assert_eq!(m.ncircles, 2);
    let m2 = parse_beatmap_text(SAMPLE, 0, 2, &cut).unwrap();
    let t2: Vec<&str> = m2.objects.iter().map(|o| o.time.as_str()).collect();
    assert_eq!(t2, vec!["1000", "2000"]);
}

#[test]
fn taiko_override_reads_sounds() {
    let m = parse_beatmap_text(SAMPLE, MODE_TAIKO, 0, &vec![]).unwrap();
    assert_eq!(m.mode, MODE_TAIKO);
    assert_eq!(m.original_mode, MODE_STD);
    assert_eq!(m.objects[0].sound, Some(0));
    assert_eq!(m.objects[3].sound, Some(2));
    assert_eq!(m.base_max_combo, 5 - 2);
    assert_eq!(sound_types(&m.objects[3]), vec![2]);
}

#[test]
fn unsupported_mode_is_refused() {
    let data = "[General]\nMode: 3\n[HitObjects]\n1,1,1,1,0\n";
    assert_eq!(parse_beatmap_text(data, 0, 0, &vec![]).err(), Some(ERR_NOTIMPLEMENTED));
    assert_eq!(parse_beatmap_text(data, 2, 0, &vec![]).err(), Some(ERR_NOTIMPLEMENTED));
    let m = parse_beatmap_text(data, 1, 0, &vec![]).unwrap();
    assert_eq!(m.mode, MODE_TAIKO);
    assert_eq!(m.original_mode, 3);
}

#[test]
fn mode_override_needs_a_mode_line() {
    let data = "[HitObjects]\n1,1,1,1,0\n";
    let m = parse_beatmap_text(data, MODE_TAIKO, 0, &vec![]).unwrap();
    assert_eq!(m.mode, MODE_STD);
}

#[test]
fn empty_text_gives_empty_map() {
    let m = parse_beatmap_text("", 0, 0, &vec![]).unwrap();
    assert_eq!(m.nobjects, 0);
    assert_eq!(m.format_version, 0);
    assert_eq!(m.title, "");
    assert_eq!(m.cs, None);
    assert!(m.timing_points.is_empty());
}

#[test]
fn taiko_slider_edge_sounds() {
    let data = "[General]\nMode: 1\n[HitObjects]\n10,10,500,2,4,L|20:20,3,100,2|8|x\n10,10,900,2,8,L|20:20,1,100,,0:0\n";
    let m = parse_beatmap_text(data, 0, 0, &vec![]).unwrap();
    let s = &m.objects[0];
    assert_eq!(s.sound, Some(4));
    assert_eq!(s.repetitions, 3);
    assert_eq!(s.edge_sounds, Some(vec![Some(2), Some(8), None]));
    assert_eq!(sound_types(s), vec![2, 8, 4, 4]);
    let s2 = &m.objects[1];
    assert_eq!(s2.edge_sounds, None);
    assert_eq!(sound_types(s2), vec![8]);
}

#[test]
fn sound_types_keep_only_as_many_edges_as_the_slider_has() {
    let o = RawHitObject {
        time: "0".to_string(),
        obj_type: 2,
        pos: None,
        repetitions: 0,
        distance: None,
        sound: Some(1),
        edge_sounds: Some(vec![Some(2), Some(8), Some(4)]),
    };
    assert_eq!(sound_types(&o), vec![2]);
    let none = RawHitObject { repetitions: -1, ..o };
    assert_eq!(sound_types(&none), Vec::<i32>::new());
}

#[test]
fn format_version_and_sections() {
    let data = "garbage osu file format v9 more\n[ Metadata ]\nTitle : A : B\n";
    let m = parse_beatmap_text(data, 0, 0, &vec![]).unwrap();
    assert_eq!(m.format_version, 0);
    assert_eq!(m.title, "A : B");
    let m2 = parse_beatmap_text("osu file format v 12 \n", 0, 0, &vec![]).unwrap();
    assert_eq!(m2.format_version, 12);
}

#[test]
fn rim_switch_rule() {
    let prev = RimRun { rim: false, same_since: 2, last_switch_even: 0 };
    let mut cur = RimRun { rim: true, same_since: 1, last_switch_even: -1 };
    assert!(rim_switch(&mut cur, &prev));
    assert_eq!(cur.last_switch_even, 1);
    assert_eq!(cur.same_since, 1);

    let first = RimRun { rim: false, same_since: 2, last_switch_even: -1 };
    let mut cur = RimRun { rim: true, same_since: 1, last_switch_even: -1 };
    assert!(!rim_switch(&mut cur, &first));
    assert_eq!(cur.last_switch_even, 1);

    let same = RimRun { rim: true, same_since: 4, last_switch_even: 0 };
    let mut cur = RimRun { rim: true, same_since: 1, last_switch_even: -1 };
    assert!(!rim_switch(&mut cur, &same));
    assert_eq!(cur.same_since, 5);
    assert_eq!(cur.last_switch_even, 0);
}

#[test]
fn every_object_line_is_kept_without_cut_or_end() {
    let m = parse_beatmap_text(SAMPLE, 0, 0, &vec![]).unwrap();
    let times: Vec<String> = hit_object_times(SAMPLE);
    let objs: Vec<&str> = m.objects.iter().map(|o| o.time.as_str()).collect();
    let want: Vec<&str> = times.iter().map(|s| s.as_str()).collect();
    assert_eq!(objs, want);
}

#[test]
fn end_keeps_the_first_objects_in_order() {
    let m = parse_beatmap_text(SAMPLE, 0, 3, &vec![]).unwrap();
    let t: Vec<&str> = m.objects.iter().map(|o| o.time.as_str()).collect();
    assert_eq!(t, vec!["1000", "1500", "2000"]);
    let big = parse_beatmap_text(SAMPLE, 0, 40, &vec![false, false]).unwrap();
    assert_eq!(big.nobjects, 5);
}

#[test]
fn empty_unicode_names_fall_back_to_the_plain_ones() {
    let data = "[Metadata]\nTitle: Plain\nTitleUnicode:   \nArtist: Someone\nArtistUnicode: Given\n";
    let m = parse_beatmap_text(data, 0, 0, &vec![]).unwrap();
    assert_eq!(m.title_unicode, "Plain");
    assert_eq!(m.artist_unicode, "Given");
    assert_eq!(m.artist, "Someone");
}
