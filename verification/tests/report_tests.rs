use rustpp::constants::{errstr, ERR_IO, ERR_SYNTAX};
use rustpp::escape::{escape_csv_str, escape_json_str};
use rustpp::report::{csv_report, json_report, ReportFields};

fn fields() -> ReportFields {
    ReportFields {
        artist: "Nogizaka46".to_string(),
        artist_unicode: "\u{4e43}\u{6728}\u{5742}46".to_string(),
        title: "Yubi Bouenkyou (TV Size)".to_string(),
        title_unicode: "Yubi Bouenkyou (TV Size)".to_string(),
        version: "Hard;\"x\"".to_string(),
        creator: "a\\b".to_string(),
        mods_str: "HDHR".to_string(),
        mods: 24,
        od_text: "9".to_string(),
        ar_text: "10".to_string(),
        cs_text: "5.2".to_string(),
        hp_text: "7".to_string(),
        combo: 400,
        max_combo: 512,
        ncircles: 300,
        nsliders: 100,
        nspinners: 2,
        nmiss: 1,
        score_version: 1,
        stars_text: "5.25000000000000000".to_string(),
        speed_stars_text: "2.5".to_string(),
        aim_stars_text: "2.75".to_string(),
        aim_pp_text: "100.5".to_string(),
        speed_pp_text: "90".to_string(),
        acc_pp_text: "-1.00000000000000000".to_string(),
        pp_text: "280.5".to_string(),
    }
}

fn json_like_output(result: i32, f: &ReportFields) -> String {
    let mut s = format!("{{\"oppai_version\":\"4.1.0\",");
    if result < 0 {
        s += &format!("\"code\":{result},\"errstr\":\"{}\"}}\n", escape_json_str(errstr(result)));
        return s;
    }
    s += "\"code\":200,\"errstr\":\"no error\",";
    s += &format!("\"artist\":\"{}\"", escape_json_str(&f.artist));
    if f.artist != f.artist_unicode {
        s += &format!(",\"artist_unicode\":\"{}\"", escape_json_str(&f.artist_unicode));
    }
    s += &format!(",\"title\":\"{}\"", escape_json_str(&f.title));
    if f.title != f.title_unicode {
        s += &format!(",\"title_unicode\":\"{}\"", escape_json_str(&f.title_unicode));
    }
    s += &format!(",\"creator\":\"{}\"", escape_json_str(&f.creator));
    s += &format!(",\"version\":\"{}\",", escape_json_str(&f.version));
    s += &format!(
        "\"mods_str\":\"{}\",\"mods\":{},\"od\":{},\"ar\":{},\"cs\":{},\"hp\":{},\
         \"combo\":{},\"max_combo\":{},\"num_circles\":{},\"num_sliders\":{},\
         \"num_spinners\":{},\"misses\":{},\"score_version\":{},\"stars\":{},\
         \"speed_stars\":{},\"aim_stars\":{},\"aim_pp\":{},\
         \"speed_pp\":{},\"acc_pp\":{},\"pp\":{}}}\n",
        escape_json_str(&f.mods_str), f.mods, f.od_text, f.ar_text, f.cs_text, f.hp_text,
        f.combo, f.max_combo, f.ncircles, f.nsliders, f.nspinners, f.nmiss, f.score_version,
        f.stars_text, f.speed_stars_text, f.aim_stars_text, f.aim_pp_text, f.speed_pp_text,
        f.acc_pp_text, f.pp_text
    );
    s
}

fn csv_like_output(result: i32, f: &ReportFields) -> String {
    let mut s = String::from("oppai_version;4.1.0\n");
    if result < 0 {
        s += &format!("code;{result}\nerrstr;{}\n", escape_csv_str(errstr(result)));
        return s;
    }
    s += "code;200\nerrstr;no error\n";
    s += &format!("artist;{}\n", escape_csv_str(&f.artist));
    if f.artist != f.artist_unicode {
        s += &format!("artist_unicode;{}\n", escape_csv_str(&f.artist_unicode));
    }
    s += &format!("title;{}\n", escape_csv_str(&f.title));
    if f.title != f.title_unicode {
        s += &format!("title_unicode;{}\n", escape_csv_str(&f.title_unicode));
    }
    s += &format!("version;{}\n", escape_csv_str(&f.version));
    s += &format!("creator;{}\n", escape_csv_str(&f.creator));
    s += &format!(
        "mods_str;{}\nmods;{}\nod;{}\nar;{}\ncs;{}\nhp;{}\n\
         combo;{}\nmax_combo;{}\nnum_circles;{}\n\
         num_sliders;{}\nnum_spinners;{}\nmisses;{}\n\
         score_version;{}\nstars;{}\nspeed_stars;{}\n\
         aim_stars;{}\naim_pp;{}\nspeed_pp;{}\nacc_pp;{}\npp;{}\n",
        escape_csv_str(&f.mods_str), f.mods, f.od_text, f.ar_text, f.cs_text, f.hp_text, f.combo, f.max_combo,
        f.ncircles, f.nsliders, f.nspinners, f.nmiss, f.score_version, f.stars_text,
        f.speed_stars_text, f.aim_stars_text, f.aim_pp_text, f.speed_pp_text, f.acc_pp_text,
        f.pp_text
    );
    s
}

#[test]
fn json_report_for_a_calculation() {
    let f = fields();
    let out = json_report(0, &f);
    assert_eq!(out, json_like_output(0, &f));
    assert!(out.starts_with("{\"oppai_version\":\"4.1.0\",\"code\":200,\"errstr\":\"no error\""));
    assert!(out.contains("\"artist\":\"Nogizaka46\""));
    assert!(out.contains("\"artist_unicode\":"));
    assert!(!out.contains("\"title_unicode\":"));
    assert!(out.contains("\"mods_str\":\"HDHR\""));
    assert!(out.contains("\"version\":\"Hard;\\\"x\\\"\""));
    assert!(out.contains("\"mods\":24,\"od\":9,\"ar\":10,\"cs\":5.2"));
    assert!(out.contains("\"misses\":1,\"score_version\":1"));
    assert!(out.trim_end().ends_with('}'));
    assert_eq!(out.matches('\n').count(), 1);
}

#[test]
fn json_report_for_an_error() {
    let f = fields();
    let out = json_report(ERR_IO, &f);
    assert_eq!(out, "{\"oppai_version\":\"4.1.0\",\"code\":-5,\"errstr\":\"i/o error\"}\n");
    assert_eq!(out, json_like_output(ERR_IO, &f));
}

#[test]
fn json_report_negative_numbers() {
    let mut f = fields();
    f.combo = -1;
    f.max_combo = i32::MIN;
    f.mods = u32::MAX;
    let out = json_report(0, &f);
    assert!(out.contains("\"combo\":-1,\"max_combo\":-2147483648"));
    assert!(out.contains("\"mods\":4294967295"));
    assert_eq!(out, json_like_output(0, &f));
}

#[test]
fn csv_report_for_a_calculation() {
    let f = fields();
    let out = csv_report(0, &f);
    assert_eq!(out, csv_like_output(0, &f));
    assert!(out.contains("oppai_version;4.1.0\n"));
    assert!(out.contains("code;200\n"));
    assert!(out.contains("artist;Nogizaka46\n"));
    assert!(out.contains("title;Yubi Bouenkyou (TV Size)\n"));
    assert!(out.contains("version;Hard\\;\"x\"\n"));
    assert!(out.contains("creator;a\\\\b\n"));
    assert!(out.contains("\npp;280.5\n"));
}

#[test]
fn csv_report_for_an_error() {
    let f = fields();
    let out = csv_report(ERR_SYNTAX, &f);
    assert_eq!(out, "oppai_version;4.1.0\ncode;-2\nerrstr;syntax error\n");
    assert_eq!(out, csv_like_output(ERR_SYNTAX, &f));
}

use rustpp::constants::{MODE_STD, MODE_TAIKO};
use rustpp::report::{text_report, TextFields};

fn text_fields(mode: i32) -> TextFields {
    TextFields {
        mode,
        artist: "Nogizaka46".to_string(),
        artist_unicode: "Nogizaka46".to_string(),
        title: "Yubi Bouenkyou".to_string(),
        title_unicode: "\u{6307}\u{671b}".to_string(),
        version: "Hard".to_string(),
        creator: "Someone".to_string(),
        mods_str: "HDDT".to_string(),
        ar_text: "10.6".to_string(),
        od_text: "10.67".to_string(),
        cs_text: "4".to_string(),
        hp_text: "5".to_string(),
        odms_text: "19.666666".to_string(),
        ncircles: 300,
        nsliders: 100,
        nspinners: 2,
        stars_text: "5.25".to_string(),
        aim_stars_text: "2.6".to_string(),
        speed_stars_text: "2.4".to_string(),
        speed_plot: "_.-^ ".to_string(),
        aim_plot: "^^--".to_string(),
        combo: 400,
        max_combo: 512,
        accuracy_text: "98".to_string(),
        pp_text: "280.5".to_string(),
        aim_pp_text: "100.5".to_string(),
        speed_pp_text: "90".to_string(),
        acc_pp_text: "80".to_string(),
    }
}

fn text_like_output(result: i32, f: &TextFields) -> String {
    if result < 0 {
        return format!("{}\n", errstr(result));
    }
    let mut s = format!("{} - {} ", f.artist, f.title);
    if f.artist != f.artist_unicode || f.title != f.title_unicode {
        s += &format!("({} - {}) ", f.artist_unicode, f.title_unicode);
    }
    s += &format!("[{}] mapped by {}\n\n", f.version, f.creator);
    s += &format!("AR{} OD{} ", f.ar_text, f.od_text);
    if f.mode == MODE_STD {
        s += &format!("CS{} ", f.cs_text);
    }
    s += &format!("HP{}\n", f.hp_text);
    s += &format!("300 hitwindow: {} ms\n", f.odms_text);
    s += &format!("{} circles, {} sliders, {} spinners\n", f.ncircles, f.nsliders, f.nspinners);
    if f.mode == MODE_STD {
        s += &format!("{} stars ({} aim, {} speed)\n\n", f.stars_text, f.aim_stars_text, f.speed_stars_text);
        s += &format!("speed strain: {}\n", f.speed_plot);
        s += &format!("  aim strain: {}\n", f.aim_plot);
    } else {
        s += &format!("{} stars\n", f.stars_text);
    }
    s += "\n";
    if !f.mods_str.is_empty() {
        s += &format!("+{} ", f.mods_str);
    }
    s += &format!("{}/{}x \n", f.combo, f.max_combo);
    s += &format!("{}%\n", f.accuracy_text);
    s += &format!("{} pp (", f.pp_text);
    if f.mode == MODE_STD {
        s += &format!("{} aim, ", f.aim_pp_text);
    }
    s += &format!("{} speed, {} acc)\n\n", f.speed_pp_text, f.acc_pp_text);
    s
}

#[test]
fn text_report_for_standard() {
    let f = text_fields(MODE_STD);
    let out = text_report(0, &f);
    assert_eq!(out, text_like_output(0, &f));
    assert!(out.contains("Nogizaka46 - Yubi Bouenkyou"));
    assert!(out.contains("(Nogizaka46 - \u{6307}\u{671b})"));
    assert!(out.contains("AR10.6 OD10.67 CS4 HP5"));
    assert!(out.contains("speed strain: _.-^ \n"));
    assert!(out.contains("  aim strain: ^^--\n"));
    assert!(out.contains("+HDDT 400/512x \n"));
    assert!(out.contains("100.5 aim, 90 speed, 80 acc)"));
}

#[test]
fn text_report_for_taiko_without_mods() {
    let mut f = text_fields(MODE_TAIKO);
    f.mods_str = String::new();
    f.title_unicode = f.title.clone();
    let out = text_report(0, &f);
    assert_eq!(out, text_like_output(0, &f));
    assert!(!out.contains("CS4"));
    assert!(!out.contains("strain"));
    assert!(!out.contains(" aim, "));
    assert!(!out.contains('('.to_string().as_str()) || out.contains(" pp ("));
    assert!(out.contains("\n\n400/512x \n"));
}

#[test]
fn text_report_for_an_error() {
    let f = text_fields(MODE_STD);
    assert_eq!(text_report(ERR_IO, &f), "i/o error\n");
    assert_eq!(text_report(-100, &f), "unknown error\n");
}

use rustpp::report::{gnuplot_report, GnuplotFields};

fn gnuplot_fields(mode: i32, mods: &str) -> GnuplotFields {
    GnuplotFields {
        mode,
        artist: "A".to_string(),
        artist_unicode: "A".to_string(),
        title: "T".to_string(),
        title_unicode: "T\u{2606}".to_string(),
        version: "Hard".to_string(),
        creator: "C".to_string(),
        mods_str: mods.to_string(),
        speed_points: vec!["1.0 2.0".to_string(), "3.0 4.0".to_string()],
        aim_points: vec!["1.0 0.5".to_string()],
    }
}

#[test]
fn gnuplot_report_script() {
    let f = gnuplot_fields(MODE_STD, "HD");
    let out = gnuplot_report(0, &f);
    let want = "set encoding utf8;\n\
        set title \"A - T (A - T\u{2606}) [Hard] mapped by C +HD\";\n\
        set xlabel 'time (ms)';\n\
        set ylabel 'strain';\n\
        set multiplot layout 2,1 rowsfirst;\n\
        plot '-' with lines lc 1 title 'speed'\n\
        1.0 2.0\n3.0 4.0\n\
        e\n\
        unset title;\n\
        plot '-' with lines lc 2 title 'aim'\n\
        1.0 0.5\n";
    assert_eq!(out, want);
    assert!(out.contains("set multiplot layout 2,1 rowsfirst;"));
}

#[test]
fn gnuplot_report_without_mods_or_unicode() {
    let mut f = gnuplot_fields(MODE_STD, "");
    f.title_unicode = "T".to_string();
    f.speed_points.clear();
    f.aim_points.clear();
    let out = gnuplot_report(0, &f);
    assert!(out.contains("set title \"A - T  [Hard] mapped by C\";\n"));
    assert!(out.ends_with("plot '-' with lines lc 2 title 'aim'\n"));
}

#[test]
fn gnuplot_report_is_empty_for_errors_and_taiko() {
    assert_eq!(gnuplot_report(ERR_IO, &gnuplot_fields(MODE_STD, "")), "");
    assert_eq!(gnuplot_report(0, &gnuplot_fields(MODE_TAIKO, "")), "");
}

#[test]
fn csv_report_escapes_the_mod_string() {
    let mut f = fields();
    f.mods_str = "HD;DT".to_string();
    let out = csv_report(0, &f);
    assert!(out.contains("\nmods_str;HD\\;DT\n"));
    assert!(!out.contains("mods_str;HD;DT"));
    assert_eq!(out, csv_like_output(0, &f));
}

#[test]
fn json_report_escapes_control_characters() {
    let mut f = fields();
    f.artist = "A\u{1}B".to_string();
    let out = json_report(0, &f);
    assert!(out.contains("\"artist\":\"A\\u0001B\""));
    assert!(out.chars().all(|c| c as u32 >= 0x20 || c == '\n'));
    assert_eq!(out.matches('\n').count(), 1);
}

#[test]
fn json_report_code_member_follows_the_version() {
    let f = fields();
    let out = json_report(-2, &f);
    assert!(out.starts_with("{\"oppai_version\":\"4.1.0\",\"code\":-2,"));
    assert!(out.ends_with("}\n"));
    assert_eq!(out.matches('\n').count(), 1);
}
