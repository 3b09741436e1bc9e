use vstd::prelude::*;
use crate::constants::{errstr, errstr_spec, MODE_STD, OPPAI_VERSION_STRING};
use crate::escape::{
    csv_escape, escape_csv_str, escape_json_str, json_escape, json_string_body, lemma_json_escape_no_control,
    lemma_json_escape_valid,
};
use crate::text::{
    all_digits, dec_int, dec_nat, is_digit, lemma_dec_nat_digits, lemma_dec_nat_lead, push_char, push_dec_i32,
    push_dec_u64, push_str,
};

verus! {

/// What the JSON and CSV output modules write of a calculation. Floating
/// point values come as the text they are printed as.
pub struct ReportFields {
    pub artist: String,
    pub artist_unicode: String,
    pub title: String,
    pub title_unicode: String,
    pub version: String,
    pub creator: String,
    pub mods_str: String,
    pub mods: u32,
    pub od_text: String,
    pub ar_text: String,
    pub cs_text: String,
    pub hp_text: String,
    pub combo: i32,
    pub max_combo: i32,
    pub ncircles: i32,
    pub nsliders: i32,
    pub nspinners: i32,
    pub nmiss: i32,
    pub score_version: i32,
    pub stars_text: String,
    pub speed_stars_text: String,
    pub aim_stars_text: String,
    pub aim_pp_text: String,
    pub speed_pp_text: String,
    pub acc_pp_text: String,
    pub pp_text: String,
}

/// A JSON value as the output writes it: a string, escaped, or a number,
/// given as its text.
pub enum JsonValue {
    Str(Seq<char>),
    Num(Seq<char>),
}

/// The text of a JSON value.
pub open spec fn json_value_text(v: JsonValue) -> Seq<char> {
    match v {
        JsonValue::Str(s) => seq!['"'] + json_escape(s) + seq!['"'],
        JsonValue::Num(t) => t,
    }
}

/// The text of one member of a JSON object: `"key":value`.
pub open spec fn json_member_text(m: (Seq<char>, JsonValue)) -> Seq<char> {
    seq!['"'] + json_escape(m.0) + seq!['"', ':'] + json_value_text(m.1)
}

/// The members of a JSON object, separated by commas.
pub open spec fn json_members_text(ms: Seq<(Seq<char>, JsonValue)>) -> Seq<char>
    decreases ms.len(),
{
    if ms.len() == 0 {
        Seq::empty()
    } else if ms.len() == 1 {
        json_member_text(ms[0])
    } else {
        json_members_text(ms.drop_last()) + seq![','] + json_member_text(ms.last())
    }
}

/// A JSON object with the given members, in order.
pub open spec fn json_object_text(ms: Seq<(Seq<char>, JsonValue)>) -> Seq<char> {
    seq!['{'] + json_members_text(ms) + seq!['}']
}

/// The members of the JSON output: `oppai_version`, then `code` (the error
/// where there is one, else 200) and `errstr`; for a calculation, then its
/// values, with the unicode artist and title only where they differ from
/// the plain ones.
pub open spec fn json_members(result: i32, f: ReportFields) -> Seq<(Seq<char>, JsonValue)> {
    let head = seq![
        ("oppai_version"@, JsonValue::Str(OPPAI_VERSION_STRING@)),
        ("code"@, JsonValue::Num(dec_int(if result < 0 { result as int } else { 200 }))),
        ("errstr"@, JsonValue::Str(if result < 0 { errstr_spec(result) } else { "no error"@ })),
    ];
    if result < 0 {
        head
    } else {
        let m1 = head.push(("artist"@, JsonValue::Str(f.artist@)));
        let m2 = if f.artist@ != f.artist_unicode@ {
            m1.push(("artist_unicode"@, JsonValue::Str(f.artist_unicode@)))
        } else {
            m1
        };
        let m3 = m2.push(("title"@, JsonValue::Str(f.title@)));
        let m4 = if f.title@ != f.title_unicode@ {
            m3.push(("title_unicode"@, JsonValue::Str(f.title_unicode@)))
        } else {
            m3
        };
        let m5 = m4.push(("creator"@, JsonValue::Str(f.creator@)));
        let m6 = m5.push(("version"@, JsonValue::Str(f.version@)));
        let m7 = m6.push(("mods_str"@, JsonValue::Str(f.mods_str@)));
        let m8 = m7.push(("mods"@, JsonValue::Num(dec_nat(f.mods as nat))));
        let m9 = m8.push(("od"@, JsonValue::Num(f.od_text@)));
        let m10 = m9.push(("ar"@, JsonValue::Num(f.ar_text@)));
        let m11 = m10.push(("cs"@, JsonValue::Num(f.cs_text@)));
        let m12 = m11.push(("hp"@, JsonValue::Num(f.hp_text@)));
        let m13 = m12.push(("combo"@, JsonValue::Num(dec_int(f.combo as int))));
        let m14 = m13.push(("max_combo"@, JsonValue::Num(dec_int(f.max_combo as int))));
        let m15 = m14.push(("num_circles"@, JsonValue::Num(dec_int(f.ncircles as int))));
        let m16 = m15.push(("num_sliders"@, JsonValue::Num(dec_int(f.nsliders as int))));
        let m17 = m16.push(("num_spinners"@, JsonValue::Num(dec_int(f.nspinners as int))));
        let m18 = m17.push(("misses"@, JsonValue::Num(dec_int(f.nmiss as int))));
        let m19 = m18.push(("score_version"@, JsonValue::Num(dec_int(f.score_version as int))));
        let m20 = m19.push(("stars"@, JsonValue::Num(f.stars_text@)));
        let m21 = m20.push(("speed_stars"@, JsonValue::Num(f.speed_stars_text@)));
        let m22 = m21.push(("aim_stars"@, JsonValue::Num(f.aim_stars_text@)));
        let m23 = m22.push(("aim_pp"@, JsonValue::Num(f.aim_pp_text@)));
        let m24 = m23.push(("speed_pp"@, JsonValue::Num(f.speed_pp_text@)));
        let m25 = m24.push(("acc_pp"@, JsonValue::Num(f.acc_pp_text@)));
        let m26 = m25.push(("pp"@, JsonValue::Num(f.pp_text@)));
        m26
    }
}

/// The JSON output: one object on one line.
pub open spec fn json_report_spec(result: i32, f: ReportFields) -> Seq<char> {
    json_object_text(json_members(result, f)) + seq!['\n']
}

/// Text with no newline in it.
pub open spec fn no_newline(s: Seq<char>) -> bool {
    forall|i: int| 0 <= i < s.len() ==> s[i] != '\n'
}

/// How many characters at the start of `s` are decimal digits.
pub open spec fn digit_run(s: Seq<char>) -> nat
    decreases s.len(),
{
    if s.len() > 0 && is_digit(s[0]) {
        1 + digit_run(s.drop_first())
    } else {
        0
    }
}

/// An optional JSON exponent: `e` or `E`, an optional sign, and digits.
pub open spec fn json_exponent(s: Seq<char>) -> bool {
    s.len() == 0 || ((s[0] == 'e' || s[0] == 'E') && {
        let r = if s.len() > 1 && (s[1] == '+' || s[1] == '-') {
            s.skip(2)
        } else {
            s.skip(1)
        };
        r.len() > 0 && digit_run(r) == r.len()
    })
}

/// An optional JSON fraction (`.` and digits), then an optional exponent.
pub open spec fn json_fraction_exponent(s: Seq<char>) -> bool {
    if s.len() > 0 && s[0] == '.' {
        let r = s.skip(1);
        digit_run(r) > 0 && json_exponent(r.skip(digit_run(r) as int))
    } else {
        json_exponent(s)
    }
}

/// A JSON number: an optional minus sign, an integer part without leading
/// zeros, then an optional fraction and exponent.
pub open spec fn json_number(t: Seq<char>) -> bool {
    let u = if t.len() > 0 && t[0] == '-' {
        t.skip(1)
    } else {
        t
    };
    let n = digit_run(u);
    n > 0 && (u[0] != '0' || n == 1) && json_fraction_exponent(u.skip(n as int))
}

/// A member that is valid JSON and keeps the object on one line: its key
/// and string value are escaped, and a number value is a JSON number with
/// no newline.
pub open spec fn json_member_ok(m: (Seq<char>, JsonValue)) -> bool {
    &&& json_string_body(json_escape(m.0))
    &&& match m.1 {
        JsonValue::Str(s) => json_string_body(json_escape(s)),
        JsonValue::Num(t) => json_number(t) && no_newline(t),
    }
}

/// Every member is valid JSON and keeps the object on one line.
pub open spec fn json_members_ok(ms: Seq<(Seq<char>, JsonValue)>) -> bool
    decreases ms.len(),
{
    ms.len() == 0 || (json_members_ok(ms.drop_last()) && json_member_ok(ms.last()))
}

/// The number texts of a calculation are JSON numbers with no newline.
pub open spec fn number_texts_ok(f: ReportFields) -> bool {
    &&& json_number(f.od_text@) && no_newline(f.od_text@)
    &&& json_number(f.ar_text@) && no_newline(f.ar_text@)
    &&& json_number(f.cs_text@) && no_newline(f.cs_text@)
    &&& json_number(f.hp_text@) && no_newline(f.hp_text@)
    &&& json_number(f.stars_text@) && no_newline(f.stars_text@)
    &&& json_number(f.speed_stars_text@) && no_newline(f.speed_stars_text@)
    &&& json_number(f.aim_stars_text@) && no_newline(f.aim_stars_text@)
    &&& json_number(f.aim_pp_text@) && no_newline(f.aim_pp_text@)
    &&& json_number(f.speed_pp_text@) && no_newline(f.speed_pp_text@)
    &&& json_number(f.acc_pp_text@) && no_newline(f.acc_pp_text@)
    &&& json_number(f.pp_text@) && no_newline(f.pp_text@)
}

/// A CSV line: `name;value` and a newline, where `key` is `name;`.
pub open spec fn csv_line(key: Seq<char>, value: Seq<char>) -> Seq<char> {
    key + csv_escape(value) + "\n"@
}

/// How a value is written in a CSV line: a string escaped, a number as its
/// text.
pub open spec fn csv_value_text(v: JsonValue) -> Seq<char> {
    match v {
        JsonValue::Str(s) => csv_escape(s),
        JsonValue::Num(t) => t,
    }
}

/// One line of the CSV output: `name;value` and a newline.
pub open spec fn csv_member_line(m: (Seq<char>, JsonValue)) -> Seq<char> {
    m.0 + seq![';'] + csv_value_text(m.1) + seq!['\n']
}

/// The lines of the given members, in order.
pub open spec fn csv_lines_text(ms: Seq<(Seq<char>, JsonValue)>) -> Seq<char>
    decreases ms.len(),
{
    if ms.len() == 0 {
        Seq::empty()
    } else {
        csv_lines_text(ms.drop_last()) + csv_member_line(ms.last())
    }
}

/// The lines of the CSV output: `oppai_version`, `code` and `errstr`, then,
/// for a calculation, its values, with the unicode artist and title only
/// where they differ from the plain ones.
pub open spec fn csv_members(result: i32, f: ReportFields) -> Seq<(Seq<char>, JsonValue)> {
    let head = seq![
        ("oppai_version"@, JsonValue::Str(OPPAI_VERSION_STRING@)),
        ("code"@, JsonValue::Num(dec_int(if result < 0 { result as int } else { 200 }))),
        ("errstr"@, JsonValue::Str(if result < 0 { errstr_spec(result) } else { "no error"@ })),
    ];
    if result < 0 {
        head
    } else {
        let m1 = head.push(("artist"@, JsonValue::Str(f.artist@)));
        let m2 = if f.artist@ != f.artist_unicode@ {
            m1.push(("artist_unicode"@, JsonValue::Str(f.artist_unicode@)))
        } else {
            m1
        };
        let m3 = m2.push(("title"@, JsonValue::Str(f.title@)));
        let m4 = if f.title@ != f.title_unicode@ {
            m3.push(("title_unicode"@, JsonValue::Str(f.title_unicode@)))
        } else {
            m3
        };
        let m5 = m4.push(("version"@, JsonValue::Str(f.version@)));
        let m6 = m5.push(("creator"@, JsonValue::Str(f.creator@)));
        let m7 = m6.push(("mods_str"@, JsonValue::Str(f.mods_str@)));
        let m8 = m7.push(("mods"@, JsonValue::Num(dec_nat(f.mods as nat))));
        let m9 = m8.push(("od"@, JsonValue::Num(f.od_text@)));
        let m10 = m9.push(("ar"@, JsonValue::Num(f.ar_text@)));
        let m11 = m10.push(("cs"@, JsonValue::Num(f.cs_text@)));
        let m12 = m11.push(("hp"@, JsonValue::Num(f.hp_text@)));
        let m13 = m12.push(("combo"@, JsonValue::Num(dec_int(f.combo as int))));
        let m14 = m13.push(("max_combo"@, JsonValue::Num(dec_int(f.max_combo as int))));
        let m15 = m14.push(("num_circles"@, JsonValue::Num(dec_int(f.ncircles as int))));
        let m16 = m15.push(("num_sliders"@, JsonValue::Num(dec_int(f.nsliders as int))));
        let m17 = m16.push(("num_spinners"@, JsonValue::Num(dec_int(f.nspinners as int))));
        let m18 = m17.push(("misses"@, JsonValue::Num(dec_int(f.nmiss as int))));
        let m19 = m18.push(("score_version"@, JsonValue::Num(dec_int(f.score_version as int))));
        let m20 = m19.push(("stars"@, JsonValue::Num(f.stars_text@)));
        let m21 = m20.push(("speed_stars"@, JsonValue::Num(f.speed_stars_text@)));
        let m22 = m21.push(("aim_stars"@, JsonValue::Num(f.aim_stars_text@)));
        let m23 = m22.push(("aim_pp"@, JsonValue::Num(f.aim_pp_text@)));
        let m24 = m23.push(("speed_pp"@, JsonValue::Num(f.speed_pp_text@)));
        let m25 = m24.push(("acc_pp"@, JsonValue::Num(f.acc_pp_text@)));
        let m26 = m25.push(("pp"@, JsonValue::Num(f.pp_text@)));
        m26
    }
}

/// The CSV output: one `name;value` line for each value, with `code` and
/// `errstr` first and every string value escaped.
pub open spec fn csv_report_spec(result: i32, f: ReportFields) -> Seq<char> {
    csv_lines_text(csv_members(result, f))
}

fn push_csv_line(out: &mut String, key: &str, value: &str)
    ensures
        final(out)@ == old(out)@ + csv_line(key@, value@),
{
    push_str(out, key);
    let e: String = escape_csv_str(value);
    push_str(out, e.as_str());
    push_str(out, "\n");
    proof {
        assert(final(out)@ =~= old(out)@ + csv_line(key@, value@));
    }
}

/// Text without a newline stays so when joined to another.
proof fn lemma_no_newline_add(a: Seq<char>, b: Seq<char>)
    requires
        no_newline(a),
        no_newline(b),
    ensures
        no_newline(a + b),
{
    assert forall|i: int| 0 <= i < (a + b).len() implies (a + b)[i] != '\n' by {
        if i < a.len() {
            assert((a + b)[i] == a[i]);
        } else {
            assert((a + b)[i] == b[i - a.len()]);
        }
    }
}

proof fn lemma_digit_run_all(s: Seq<char>)
    requires
        all_digits(s),
    ensures
        digit_run(s) == s.len(),
    decreases s.len(),
{
    if s.len() > 0 {
        assert(is_digit(s[0]));
        assert forall|i: int| 0 <= i < s.drop_first().len() implies is_digit(
            #[trigger] s.drop_first()[i],
        ) by {
            assert(s.drop_first()[i] == s[i + 1]);
        }
        lemma_digit_run_all(s.drop_first());
    }
}

/// An integer written in decimal is a JSON number, with no newline.
pub proof fn lemma_dec_json(x: int)
    ensures
        json_number(dec_int(x)),
        no_newline(dec_int(x)),
        x >= 0 ==> dec_nat(x as nat) == dec_int(x),
{
    let m: nat = if x < 0 {
        (-x) as nat
    } else {
        x as nat
    };
    let d = dec_nat(m);
    lemma_dec_nat_digits(m);
    lemma_digit_run_all(d);
    if m >= 1 {
        lemma_dec_nat_lead(m);
    } else {
        assert(d.len() == 1);
    }
    assert(d.skip(d.len() as int) =~= Seq::<char>::empty());
    assert forall|i: int| 0 <= i < d.len() implies d[i] != '\n' by {
        assert(is_digit(d[i]));
    }
    assert(is_digit(d[0]));
    let t = dec_int(x);
    if x < 0 {
        assert(t.skip(1) =~= d);
        assert forall|i: int| 0 <= i < t.len() implies t[i] != '\n' by {
            if i > 0 {
                assert(t[i] == d[i - 1]);
            }
        }
    }
}

proof fn lemma_members_ok_push(ms: Seq<(Seq<char>, JsonValue)>, m: (Seq<char>, JsonValue))
    ensures
        json_members_ok(ms.push(m)) == (json_members_ok(ms) && json_member_ok(m)),
{
    assert(ms.push(m).drop_last() =~= ms);
}

proof fn lemma_members_one_line(ms: Seq<(Seq<char>, JsonValue)>)
    requires
        json_members_ok(ms),
    ensures
        no_newline(json_members_text(ms)),
    decreases ms.len(),
{
    if ms.len() > 0 {
        let m = ms.last();
        lemma_json_escape_no_control(m.0);
        let k = json_escape(m.0);
        assert(no_newline(k)) by {
            assert forall|i: int| 0 <= i < k.len() implies k[i] != '\n' by {
                assert((k[i] as u32) >= 0x20);
            }
        }
        let v = json_value_text(m.1);
        assert(no_newline(v)) by {
            if let JsonValue::Str(s) = m.1 {
                lemma_json_escape_no_control(s);
                let e = json_escape(s);
                assert forall|i: int| 0 <= i < e.len() implies e[i] != '\n' by {
                    assert((e[i] as u32) >= 0x20);
                }
                lemma_no_newline_add(seq!['"'], e);
                lemma_no_newline_add(seq!['"'] + e, seq!['"']);
            }
        }
        lemma_no_newline_add(seq!['"'], k);
        lemma_no_newline_add(seq!['"'] + k, seq!['"', ':']);
        lemma_no_newline_add(seq!['"'] + k + seq!['"', ':'], v);
        if ms.len() > 1 {
            lemma_members_one_line(ms.drop_last());
            lemma_no_newline_add(json_members_text(ms.drop_last()), seq![',']);
            lemma_no_newline_add(json_members_text(ms.drop_last()) + seq![','], json_member_text(m));
        }
    }
}

/// Where every number text of a calculation is a JSON number with no
/// newline, the JSON output is one line holding one JSON object: each key
/// and string value is a valid JSON string, each other value a JSON number,
/// and its members begin with `oppai_version`, then `code`, which is
/// `result` where that is negative (an error) and 200 otherwise.
#[verifier::spinoff_prover]
#[verifier::rlimit(50)]
pub proof fn lemma_json_report_one_object(result: i32, f: ReportFields)
    requires
        result >= 0 ==> number_texts_ok(f),
    ensures
        json_report_spec(result, f) == json_object_text(json_members(result, f)) + seq!['\n'],
        json_members_ok(json_members(result, f)),
        no_newline(json_object_text(json_members(result, f))),
        json_members(result, f).len() >= 3,
        json_members(result, f)[0].0 == "oppai_version"@,
        json_members(result, f)[1] == ("code"@, JsonValue::Num(
            dec_int(if result < 0 { result as int } else { 200 }),
        )),
{
    let code: int = if result < 0 {
        result as int
    } else {
        200
    };
    let e = if result < 0 {
        errstr_spec(result)
    } else {
        "no error"@
    };
    lemma_dec_json(code);
    lemma_json_escape_valid(OPPAI_VERSION_STRING@);
    lemma_json_escape_valid(e);
    lemma_json_escape_valid("oppai_version"@);
    lemma_json_escape_valid("code"@);
    lemma_json_escape_valid("errstr"@);
    let h0: Seq<(Seq<char>, JsonValue)> = Seq::empty();
    lemma_members_ok_push(h0, ("oppai_version"@, JsonValue::Str(OPPAI_VERSION_STRING@)));
    let h1 = h0.push(("oppai_version"@, JsonValue::Str(OPPAI_VERSION_STRING@)));
    lemma_members_ok_push(h1, ("code"@, JsonValue::Num(dec_int(code))));
    let h2 = h1.push(("code"@, JsonValue::Num(dec_int(code))));
    lemma_members_ok_push(h2, ("errstr"@, JsonValue::Str(e)));
    let head = h2.push(("errstr"@, JsonValue::Str(e)));
    assert(json_member_ok(("oppai_version"@, JsonValue::Str(OPPAI_VERSION_STRING@))));
    assert(json_members_ok(h1));
    assert(json_members_ok(h2));
    assert(json_members_ok(head));
    assert(result < 0 ==> head == json_members(result, f));
    if result >= 0 {
            lemma_json_escape_valid(f.artist@);
            lemma_json_escape_valid("artist"@);
            lemma_members_ok_push(head, ("artist"@, JsonValue::Str(f.artist@)));
            let m1 = head.push(("artist"@, JsonValue::Str(f.artist@)));
            lemma_json_escape_valid(f.artist_unicode@);
            lemma_json_escape_valid("artist_unicode"@);
            let m2 = if f.artist@ != f.artist_unicode@ {
                lemma_members_ok_push(m1, ("artist_unicode"@, JsonValue::Str(f.artist_unicode@)));
                m1.push(("artist_unicode"@, JsonValue::Str(f.artist_unicode@)))
            } else {
                m1
            };
            lemma_json_escape_valid(f.title@);
            lemma_json_escape_valid("title"@);
            lemma_members_ok_push(m2, ("title"@, JsonValue::Str(f.title@)));
            let m3 = m2.push(("title"@, JsonValue::Str(f.title@)));
            lemma_json_escape_valid(f.title_unicode@);
            lemma_json_escape_valid("title_unicode"@);
            let m4 = if f.title@ != f.title_unicode@ {
                lemma_members_ok_push(m3, ("title_unicode"@, JsonValue::Str(f.title_unicode@)));
                m3.push(("title_unicode"@, JsonValue::Str(f.title_unicode@)))
            } else {
                m3
            };
            lemma_json_escape_valid(f.creator@);
            lemma_json_escape_valid("creator"@);
            lemma_members_ok_push(m4, ("creator"@, JsonValue::Str(f.creator@)));
            let m5 = m4.push(("creator"@, JsonValue::Str(f.creator@)));
            lemma_json_escape_valid(f.version@);
            lemma_json_escape_valid("version"@);
            lemma_members_ok_push(m5, ("version"@, JsonValue::Str(f.version@)));
            let m6 = m5.push(("version"@, JsonValue::Str(f.version@)));
            lemma_json_escape_valid(f.mods_str@);
            lemma_json_escape_valid("mods_str"@);
            lemma_members_ok_push(m6, ("mods_str"@, JsonValue::Str(f.mods_str@)));
            let m7 = m6.push(("mods_str"@, JsonValue::Str(f.mods_str@)));
            lemma_dec_json(f.mods as int);
            lemma_json_escape_valid("mods"@);
            lemma_members_ok_push(m7, ("mods"@, JsonValue::Num(dec_nat(f.mods as nat))));
            let m8 = m7.push(("mods"@, JsonValue::Num(dec_nat(f.mods as nat))));
            lemma_json_escape_valid("od"@);
            lemma_members_ok_push(m8, ("od"@, JsonValue::Num(f.od_text@)));
            let m9 = m8.push(("od"@, JsonValue::Num(f.od_text@)));
            lemma_json_escape_valid("ar"@);
            lemma_members_ok_push(m9, ("ar"@, JsonValue::Num(f.ar_text@)));
            let m10 = m9.push(("ar"@, JsonValue::Num(f.ar_text@)));
            lemma_json_escape_valid("cs"@);
            lemma_members_ok_push(m10, ("cs"@, JsonValue::Num(f.cs_text@)));
            let m11 = m10.push(("cs"@, JsonValue::Num(f.cs_text@)));
            lemma_json_escape_valid("hp"@);
            lemma_members_ok_push(m11, ("hp"@, JsonValue::Num(f.hp_text@)));
            let m12 = m11.push(("hp"@, JsonValue::Num(f.hp_text@)));
            lemma_dec_json(f.combo as int);
            lemma_json_escape_valid("combo"@);
            lemma_members_ok_push(m12, ("combo"@, JsonValue::Num(dec_int(f.combo as int))));
            let m13 = m12.push(("combo"@, JsonValue::Num(dec_int(f.combo as int))));
            lemma_dec_json(f.max_combo as int);
            lemma_json_escape_valid("max_combo"@);
            lemma_members_ok_push(m13, ("max_combo"@, JsonValue::Num(dec_int(f.max_combo as int))));
            let m14 = m13.push(("max_combo"@, JsonValue::Num(dec_int(f.max_combo as int))));
            lemma_dec_json(f.ncircles as int);
            lemma_json_escape_valid("num_circles"@);
            lemma_members_ok_push(m14, ("num_circles"@, JsonValue::Num(dec_int(f.ncircles as int))));
            let m15 = m14.push(("num_circles"@, JsonValue::Num(dec_int(f.ncircles as int))));
            lemma_dec_json(f.nsliders as int);
            lemma_json_escape_valid("num_sliders"@);
            lemma_members_ok_push(m15, ("num_sliders"@, JsonValue::Num(dec_int(f.nsliders as int))));
            let m16 = m15.push(("num_sliders"@, JsonValue::Num(dec_int(f.nsliders as int))));
            lemma_dec_json(f.nspinners as int);
            lemma_json_escape_valid("num_spinners"@);
            lemma_members_ok_push(m16, ("num_spinners"@, JsonValue::Num(dec_int(f.nspinners as int))));
            let m17 = m16.push(("num_spinners"@, JsonValue::Num(dec_int(f.nspinners as int))));
            lemma_dec_json(f.nmiss as int);
            lemma_json_escape_valid("misses"@);
            lemma_members_ok_push(m17, ("misses"@, JsonValue::Num(dec_int(f.nmiss as int))));
            let m18 = m17.push(("misses"@, JsonValue::Num(dec_int(f.nmiss as int))));
            lemma_dec_json(f.score_version as int);
            lemma_json_escape_valid("score_version"@);
            lemma_members_ok_push(m18, ("score_version"@, JsonValue::Num(dec_int(f.score_version as int))));
            let m19 = m18.push(("score_version"@, JsonValue::Num(dec_int(f.score_version as int))));
            lemma_json_escape_valid("stars"@);
            lemma_members_ok_push(m19, ("stars"@, JsonValue::Num(f.stars_text@)));
            let m20 = m19.push(("stars"@, JsonValue::Num(f.stars_text@)));
            lemma_json_escape_valid("speed_stars"@);
            lemma_members_ok_push(m20, ("speed_stars"@, JsonValue::Num(f.speed_stars_text@)));
            let m21 = m20.push(("speed_stars"@, JsonValue::Num(f.speed_stars_text@)));
            lemma_json_escape_valid("aim_stars"@);
            lemma_members_ok_push(m21, ("aim_stars"@, JsonValue::Num(f.aim_stars_text@)));
            let m22 = m21.push(("aim_stars"@, JsonValue::Num(f.aim_stars_text@)));
            lemma_json_escape_valid("aim_pp"@);
            lemma_members_ok_push(m22, ("aim_pp"@, JsonValue::Num(f.aim_pp_text@)));
            let m23 = m22.push(("aim_pp"@, JsonValue::Num(f.aim_pp_text@)));
            lemma_json_escape_valid("speed_pp"@);
            lemma_members_ok_push(m23, ("speed_pp"@, JsonValue::Num(f.speed_pp_text@)));
            let m24 = m23.push(("speed_pp"@, JsonValue::Num(f.speed_pp_text@)));
            lemma_json_escape_valid("acc_pp"@);
            lemma_members_ok_push(m24, ("acc_pp"@, JsonValue::Num(f.acc_pp_text@)));
            let m25 = m24.push(("acc_pp"@, JsonValue::Num(f.acc_pp_text@)));
            lemma_json_escape_valid("pp"@);
            lemma_members_ok_push(m25, ("pp"@, JsonValue::Num(f.pp_text@)));
            let m26 = m25.push(("pp"@, JsonValue::Num(f.pp_text@)));
        assert(m26 == json_members(result, f));
    }
    let ms = json_members(result, f);
    lemma_members_one_line(ms);
    lemma_no_newline_add(seq!['{'], json_members_text(ms));
    lemma_no_newline_add(seq!['{'] + json_members_text(ms), seq!['}']);
}

/// What a report writes under each name: the version, the result code
/// (the error where there is one, else 200) and its description, and, for
/// a calculation, each value of the fields under its own name, the unicode
/// artist and title only where they differ from the plain ones. Names
/// outside this list carry nothing.
pub open spec fn report_field(result: i32, f: ReportFields, key: Seq<char>) -> Option<JsonValue> {
    if key == "oppai_version"@ {
        Some(JsonValue::Str(OPPAI_VERSION_STRING@))
    } else if key == "code"@ {
        Some(JsonValue::Num(dec_int(if result < 0 { result as int } else { 200 })))
    } else if key == "errstr"@ {
        Some(JsonValue::Str(if result < 0 { errstr_spec(result) } else { "no error"@ }))
    } else if result < 0 {
        None
    } else if key == "acc_pp"@ {
        Some(JsonValue::Num(f.acc_pp_text@))
    } else if key == "aim_pp"@ {
        Some(JsonValue::Num(f.aim_pp_text@))
    } else if key == "aim_stars"@ {
        Some(JsonValue::Num(f.aim_stars_text@))
    } else if key == "ar"@ {
        Some(JsonValue::Num(f.ar_text@))
    } else if key == "artist"@ {
        Some(JsonValue::Str(f.artist@))
    } else if key == "artist_unicode"@ {
        if f.artist@ != f.artist_unicode@ {
            Some(JsonValue::Str(f.artist_unicode@))
        } else {
            None
        }
    } else if key == "combo"@ {
        Some(JsonValue::Num(dec_int(f.combo as int)))
    } else if key == "creator"@ {
        Some(JsonValue::Str(f.creator@))
    } else if key == "cs"@ {
        Some(JsonValue::Num(f.cs_text@))
    } else if key == "hp"@ {
        Some(JsonValue::Num(f.hp_text@))
    } else if key == "max_combo"@ {
        Some(JsonValue::Num(dec_int(f.max_combo as int)))
    } else if key == "misses"@ {
        Some(JsonValue::Num(dec_int(f.nmiss as int)))
    } else if key == "mods"@ {
        Some(JsonValue::Num(dec_nat(f.mods as nat)))
    } else if key == "mods_str"@ {
        Some(JsonValue::Str(f.mods_str@))
    } else if key == "num_circles"@ {
        Some(JsonValue::Num(dec_int(f.ncircles as int)))
    } else if key == "num_sliders"@ {
        Some(JsonValue::Num(dec_int(f.nsliders as int)))
    } else if key == "num_spinners"@ {
        Some(JsonValue::Num(dec_int(f.nspinners as int)))
    } else if key == "od"@ {
        Some(JsonValue::Num(f.od_text@))
    } else if key == "pp"@ {
        Some(JsonValue::Num(f.pp_text@))
    } else if key == "score_version"@ {
        Some(JsonValue::Num(dec_int(f.score_version as int)))
    } else if key == "speed_pp"@ {
        Some(JsonValue::Num(f.speed_pp_text@))
    } else if key == "speed_stars"@ {
        Some(JsonValue::Num(f.speed_stars_text@))
    } else if key == "stars"@ {
        Some(JsonValue::Num(f.stars_text@))
    } else if key == "title"@ {
        Some(JsonValue::Str(f.title@))
    } else if key == "title_unicode"@ {
        if f.title@ != f.title_unicode@ {
            Some(JsonValue::Str(f.title_unicode@))
        } else {
            None
        }
    } else if key == "version"@ {
        Some(JsonValue::Str(f.version@))
    } else {
        None
    }
}

/// Every member of `ms` carries what its name stands for in a report of
/// `result` and `f`.
pub open spec fn members_carry_fields(
    ms: Seq<(Seq<char>, JsonValue)>,
    result: i32,
    f: ReportFields,
) -> bool
    decreases ms.len(),
{
    ms.len() == 0 || (members_carry_fields(ms.drop_last(), result, f) && report_field(
        result,
        f,
        ms.last().0,
    ) == Some(ms.last().1))
}

/// How many members a report has: three for an error; for a calculation,
/// twenty-seven, and one more for each unicode name that differs from the
/// plain one.
pub open spec fn report_member_count(result: i32, f: ReportFields) -> nat {
    if result < 0 {
        3
    } else {
        27 + (if f.artist@ != f.artist_unicode@ { 1nat } else { 0nat }) + (if f.title@
            != f.title_unicode@ { 1nat } else { 0nat })
    }
}

proof fn lemma_carry_push(
    ms: Seq<(Seq<char>, JsonValue)>,
    m: (Seq<char>, JsonValue),
    result: i32,
    f: ReportFields,
)
    ensures
        members_carry_fields(ms.push(m), result, f) == (members_carry_fields(ms, result, f)
            && report_field(result, f, m.0) == Some(m.1)),
{
    assert(ms.push(m).drop_last() =~= ms);
}

/// Each member of the JSON output carries the value of the field it names
/// (the unicode title under `title_unicode`, speed stars under
/// `speed_stars`, and so on), and the output has as many members as the
/// report has names.
#[verifier::spinoff_prover]
#[verifier::rlimit(80)]
pub proof fn lemma_json_report_fields(result: i32, f: ReportFields)
    ensures
        members_carry_fields(json_members(result, f), result, f),
        json_members(result, f).len() == report_member_count(result, f),
{
    reveal_strlit("oppai_version");
    assert("oppai_version"@ =~= seq!['o', 'p', 'p', 'a', 'i', '_', 'v', 'e', 'r', 's', 'i', 'o', 'n']);
    reveal_strlit("code");
    assert("code"@ =~= seq!['c', 'o', 'd', 'e']);
    reveal_strlit("errstr");
    assert("errstr"@ =~= seq!['e', 'r', 'r', 's', 't', 'r']);
    reveal_strlit("artist");
    assert("artist"@ =~= seq!['a', 'r', 't', 'i', 's', 't']);
    reveal_strlit("artist_unicode");
    assert("artist_unicode"@ =~= seq!['a', 'r', 't', 'i', 's', 't', '_', 'u', 'n', 'i', 'c', 'o', 'd', 'e']);
    reveal_strlit("title");
    assert("title"@ =~= seq!['t', 'i', 't', 'l', 'e']);
    reveal_strlit("title_unicode");
    assert("title_unicode"@ =~= seq!['t', 'i', 't', 'l', 'e', '_', 'u', 'n', 'i', 'c', 'o', 'd', 'e']);
    reveal_strlit("creator");
    assert("creator"@ =~= seq!['c', 'r', 'e', 'a', 't', 'o', 'r']);
    reveal_strlit("version");
    assert("version"@ =~= seq!['v', 'e', 'r', 's', 'i', 'o', 'n']);
    reveal_strlit("mods_str");
    assert("mods_str"@ =~= seq!['m', 'o', 'd', 's', '_', 's', 't', 'r']);
    reveal_strlit("mods");
    assert("mods"@ =~= seq!['m', 'o', 'd', 's']);
    reveal_strlit("od");
    assert("od"@ =~= seq!['o', 'd']);
    reveal_strlit("ar");
    assert("ar"@ =~= seq!['a', 'r']);
    reveal_strlit("cs");
    assert("cs"@ =~= seq!['c', 's']);
    reveal_strlit("hp");
    assert("hp"@ =~= seq!['h', 'p']);
    reveal_strlit("combo");
    assert("combo"@ =~= seq!['c', 'o', 'm', 'b', 'o']);
    reveal_strlit("max_combo");
    assert("max_combo"@ =~= seq!['m', 'a', 'x', '_', 'c', 'o', 'm', 'b', 'o']);
    reveal_strlit("num_circles");
    assert("num_circles"@ =~= seq!['n', 'u', 'm', '_', 'c', 'i', 'r', 'c', 'l', 'e', 's']);
    reveal_strlit("num_sliders");
    assert("num_sliders"@ =~= seq!['n', 'u', 'm', '_', 's', 'l', 'i', 'd', 'e', 'r', 's']);
    reveal_strlit("num_spinners");
    assert("num_spinners"@ =~= seq!['n', 'u', 'm', '_', 's', 'p', 'i', 'n', 'n', 'e', 'r', 's']);
    reveal_strlit("misses");
    assert("misses"@ =~= seq!['m', 'i', 's', 's', 'e', 's']);
    reveal_strlit("score_version");
    assert("score_version"@ =~= seq!['s', 'c', 'o', 'r', 'e', '_', 'v', 'e', 'r', 's', 'i', 'o', 'n']);
    reveal_strlit("stars");
    assert("stars"@ =~= seq!['s', 't', 'a', 'r', 's']);
    reveal_strlit("speed_stars");
    assert("speed_stars"@ =~= seq!['s', 'p', 'e', 'e', 'd', '_', 's', 't', 'a', 'r', 's']);
    reveal_strlit("aim_stars");
    assert("aim_stars"@ =~= seq!['a', 'i', 'm', '_', 's', 't', 'a', 'r', 's']);
    reveal_strlit("aim_pp");
    assert("aim_pp"@ =~= seq!['a', 'i', 'm', '_', 'p', 'p']);
    reveal_strlit("speed_pp");
    assert("speed_pp"@ =~= seq!['s', 'p', 'e', 'e', 'd', '_', 'p', 'p']);
    reveal_strlit("acc_pp");
    assert("acc_pp"@ =~= seq!['a', 'c', 'c', '_', 'p', 'p']);
    reveal_strlit("pp");
    assert("pp"@ =~= seq!['p', 'p']);
    let code: int = if result < 0 {
        result as int
    } else {
        200
    };
    let e = if result < 0 {
        errstr_spec(result)
    } else {
        "no error"@
    };
    let h0: Seq<(Seq<char>, JsonValue)> = Seq::empty();
    lemma_carry_push(h0, ("oppai_version"@, JsonValue::Str(OPPAI_VERSION_STRING@)), result, f);
    let h1 = h0.push(("oppai_version"@, JsonValue::Str(OPPAI_VERSION_STRING@)));
    lemma_carry_push(h1, ("code"@, JsonValue::Num(dec_int(code))), result, f);
    let h2 = h1.push(("code"@, JsonValue::Num(dec_int(code))));
    lemma_carry_push(h2, ("errstr"@, JsonValue::Str(e)), result, f);
    let head = h2.push(("errstr"@, JsonValue::Str(e)));
    assert(members_carry_fields(head, result, f));
    assert(result < 0 ==> head == json_members(result, f));
    if result >= 0 {
            lemma_carry_push(head, ("artist"@, JsonValue::Str(f.artist@)), result, f);
            let m1 = head.push(("artist"@, JsonValue::Str(f.artist@)));
            let m2 = if f.artist@ != f.artist_unicode@ {
                lemma_carry_push(m1, ("artist_unicode"@, JsonValue::Str(f.artist_unicode@)), result, f);
                m1.push(("artist_unicode"@, JsonValue::Str(f.artist_unicode@)))
            } else {
                m1
            };
            lemma_carry_push(m2, ("title"@, JsonValue::Str(f.title@)), result, f);
            let m3 = m2.push(("title"@, JsonValue::Str(f.title@)));
            let m4 = if f.title@ != f.title_unicode@ {
                lemma_carry_push(m3, ("title_unicode"@, JsonValue::Str(f.title_unicode@)), result, f);
                m3.push(("title_unicode"@, JsonValue::Str(f.title_unicode@)))
            } else {
                m3
            };
            lemma_carry_push(m4, ("creator"@, JsonValue::Str(f.creator@)), result, f);
            let m5 = m4.push(("creator"@, JsonValue::Str(f.creator@)));
            lemma_carry_push(m5, ("version"@, JsonValue::Str(f.version@)), result, f);
            let m6 = m5.push(("version"@, JsonValue::Str(f.version@)));
            lemma_carry_push(m6, ("mods_str"@, JsonValue::Str(f.mods_str@)), result, f);
            let m7 = m6.push(("mods_str"@, JsonValue::Str(f.mods_str@)));
            lemma_carry_push(m7, ("mods"@, JsonValue::Num(dec_nat(f.mods as nat))), result, f);
            let m8 = m7.push(("mods"@, JsonValue::Num(dec_nat(f.mods as nat))));
            lemma_carry_push(m8, ("od"@, JsonValue::Num(f.od_text@)), result, f);
            let m9 = m8.push(("od"@, JsonValue::Num(f.od_text@)));
            lemma_carry_push(m9, ("ar"@, JsonValue::Num(f.ar_text@)), result, f);
            let m10 = m9.push(("ar"@, JsonValue::Num(f.ar_text@)));
            lemma_carry_push(m10, ("cs"@, JsonValue::Num(f.cs_text@)), result, f);
            let m11 = m10.push(("cs"@, JsonValue::Num(f.cs_text@)));
            lemma_carry_push(m11, ("hp"@, JsonValue::Num(f.hp_text@)), result, f);
            let m12 = m11.push(("hp"@, JsonValue::Num(f.hp_text@)));
            lemma_carry_push(m12, ("combo"@, JsonValue::Num(dec_int(f.combo as int))), result, f);
            let m13 = m12.push(("combo"@, JsonValue::Num(dec_int(f.combo as int))));
            lemma_carry_push(m13, ("max_combo"@, JsonValue::Num(dec_int(f.max_combo as int))), result, f);
            let m14 = m13.push(("max_combo"@, JsonValue::Num(dec_int(f.max_combo as int))));
            lemma_carry_push(m14, ("num_circles"@, JsonValue::Num(dec_int(f.ncircles as int))), result, f);
            let m15 = m14.push(("num_circles"@, JsonValue::Num(dec_int(f.ncircles as int))));
            lemma_carry_push(m15, ("num_sliders"@, JsonValue::Num(dec_int(f.nsliders as int))), result, f);
            let m16 = m15.push(("num_sliders"@, JsonValue::Num(dec_int(f.nsliders as int))));
            lemma_carry_push(m16, ("num_spinners"@, JsonValue::Num(dec_int(f.nspinners as int))), result, f);
            let m17 = m16.push(("num_spinners"@, JsonValue::Num(dec_int(f.nspinners as int))));
            lemma_carry_push(m17, ("misses"@, JsonValue::Num(dec_int(f.nmiss as int))), result, f);
            let m18 = m17.push(("misses"@, JsonValue::Num(dec_int(f.nmiss as int))));
            lemma_carry_push(m18, ("score_version"@, JsonValue::Num(dec_int(f.score_version as int))), result, f);
            let m19 = m18.push(("score_version"@, JsonValue::Num(dec_int(f.score_version as int))));
            lemma_carry_push(m19, ("stars"@, JsonValue::Num(f.stars_text@)), result, f);
            let m20 = m19.push(("stars"@, JsonValue::Num(f.stars_text@)));
            lemma_carry_push(m20, ("speed_stars"@, JsonValue::Num(f.speed_stars_text@)), result, f);
            let m21 = m20.push(("speed_stars"@, JsonValue::Num(f.speed_stars_text@)));
            lemma_carry_push(m21, ("aim_stars"@, JsonValue::Num(f.aim_stars_text@)), result, f);
            let m22 = m21.push(("aim_stars"@, JsonValue::Num(f.aim_stars_text@)));
            lemma_carry_push(m22, ("aim_pp"@, JsonValue::Num(f.aim_pp_text@)), result, f);
            let m23 = m22.push(("aim_pp"@, JsonValue::Num(f.aim_pp_text@)));
            lemma_carry_push(m23, ("speed_pp"@, JsonValue::Num(f.speed_pp_text@)), result, f);
            let m24 = m23.push(("speed_pp"@, JsonValue::Num(f.speed_pp_text@)));
            lemma_carry_push(m24, ("acc_pp"@, JsonValue::Num(f.acc_pp_text@)), result, f);
            let m25 = m24.push(("acc_pp"@, JsonValue::Num(f.acc_pp_text@)));
            lemma_carry_push(m25, ("pp"@, JsonValue::Num(f.pp_text@)), result, f);
            let m26 = m25.push(("pp"@, JsonValue::Num(f.pp_text@)));
        assert(m26 == json_members(result, f));
    }
}

/// Each `name;value` line of the CSV output carries the value of the field
/// it names (the unicode title under `title_unicode`, speed stars under
/// `speed_stars`, and so on), and the output has as many lines as the
/// report has names.
#[verifier::spinoff_prover]
#[verifier::rlimit(80)]
pub proof fn lemma_csv_report_fields(result: i32, f: ReportFields)
    ensures
        members_carry_fields(csv_members(result, f), result, f),
        csv_members(result, f).len() == report_member_count(result, f),
{
    reveal_strlit("oppai_version");
    assert("oppai_version"@ =~= seq!['o', 'p', 'p', 'a', 'i', '_', 'v', 'e', 'r', 's', 'i', 'o', 'n']);
    reveal_strlit("code");
    assert("code"@ =~= seq!['c', 'o', 'd', 'e']);
    reveal_strlit("errstr");
    assert("errstr"@ =~= seq!['e', 'r', 'r', 's', 't', 'r']);
    reveal_strlit("artist");
    assert("artist"@ =~= seq!['a', 'r', 't', 'i', 's', 't']);
    reveal_strlit("artist_unicode");
    assert("artist_unicode"@ =~= seq!['a', 'r', 't', 'i', 's', 't', '_', 'u', 'n', 'i', 'c', 'o', 'd', 'e']);
    reveal_strlit("title");
    assert("title"@ =~= seq!['t', 'i', 't', 'l', 'e']);
    reveal_strlit("title_unicode");
    assert("title_unicode"@ =~= seq!['t', 'i', 't', 'l', 'e', '_', 'u', 'n', 'i', 'c', 'o', 'd', 'e']);
    reveal_strlit("creator");
    assert("creator"@ =~= seq!['c', 'r', 'e', 'a', 't', 'o', 'r']);
    reveal_strlit("version");
    assert("version"@ =~= seq!['v', 'e', 'r', 's', 'i', 'o', 'n']);
    reveal_strlit("mods_str");
    assert("mods_str"@ =~= seq!['m', 'o', 'd', 's', '_', 's', 't', 'r']);
    reveal_strlit("mods");
    assert("mods"@ =~= seq!['m', 'o', 'd', 's']);
    reveal_strlit("od");
    assert("od"@ =~= seq!['o', 'd']);
    reveal_strlit("ar");
    assert("ar"@ =~= seq!['a', 'r']);
    reveal_strlit("cs");
    assert("cs"@ =~= seq!['c', 's']);
    reveal_strlit("hp");
    assert("hp"@ =~= seq!['h', 'p']);
    reveal_strlit("combo");
    assert("combo"@ =~= seq!['c', 'o', 'm', 'b', 'o']);
    reveal_strlit("max_combo");
    assert("max_combo"@ =~= seq!['m', 'a', 'x', '_', 'c', 'o', 'm', 'b', 'o']);
    reveal_strlit("num_circles");
    assert("num_circles"@ =~= seq!['n', 'u', 'm', '_', 'c', 'i', 'r', 'c', 'l', 'e', 's']);
    reveal_strlit("num_sliders");
    assert("num_sliders"@ =~= seq!['n', 'u', 'm', '_', 's', 'l', 'i', 'd', 'e', 'r', 's']);
    reveal_strlit("num_spinners");
    assert("num_spinners"@ =~= seq!['n', 'u', 'm', '_', 's', 'p', 'i', 'n', 'n', 'e', 'r', 's']);
    reveal_strlit("misses");
    assert("misses"@ =~= seq!['m', 'i', 's', 's', 'e', 's']);
    reveal_strlit("score_version");
    assert("score_version"@ =~= seq!['s', 'c', 'o', 'r', 'e', '_', 'v', 'e', 'r', 's', 'i', 'o', 'n']);
    reveal_strlit("stars");
    assert("stars"@ =~= seq!['s', 't', 'a', 'r', 's']);
    reveal_strlit("speed_stars");
    assert("speed_stars"@ =~= seq!['s', 'p', 'e', 'e', 'd', '_', 's', 't', 'a', 'r', 's']);
    reveal_strlit("aim_stars");
    assert("aim_stars"@ =~= seq!['a', 'i', 'm', '_', 's', 't', 'a', 'r', 's']);
    reveal_strlit("aim_pp");
    assert("aim_pp"@ =~= seq!['a', 'i', 'm', '_', 'p', 'p']);
    reveal_strlit("speed_pp");
    assert("speed_pp"@ =~= seq!['s', 'p', 'e', 'e', 'd', '_', 'p', 'p']);
    reveal_strlit("acc_pp");
    assert("acc_pp"@ =~= seq!['a', 'c', 'c', '_', 'p', 'p']);
    reveal_strlit("pp");
    assert("pp"@ =~= seq!['p', 'p']);
    let code: int = if result < 0 {
        result as int
    } else {
        200
    };
    let e = if result < 0 {
        errstr_spec(result)
    } else {
        "no error"@
    };
    let h0: Seq<(Seq<char>, JsonValue)> = Seq::empty();
    lemma_carry_push(h0, ("oppai_version"@, JsonValue::Str(OPPAI_VERSION_STRING@)), result, f);
    let h1 = h0.push(("oppai_version"@, JsonValue::Str(OPPAI_VERSION_STRING@)));
    lemma_carry_push(h1, ("code"@, JsonValue::Num(dec_int(code))), result, f);
    let h2 = h1.push(("code"@, JsonValue::Num(dec_int(code))));
    lemma_carry_push(h2, ("errstr"@, JsonValue::Str(e)), result, f);
    let head = h2.push(("errstr"@, JsonValue::Str(e)));
    assert(members_carry_fields(head, result, f));
    assert(result < 0 ==> head == csv_members(result, f));
    if result >= 0 {
            lemma_carry_push(head, ("artist"@, JsonValue::Str(f.artist@)), result, f);
            let m1 = head.push(("artist"@, JsonValue::Str(f.artist@)));
            let m2 = if f.artist@ != f.artist_unicode@ {
                lemma_carry_push(m1, ("artist_unicode"@, JsonValue::Str(f.artist_unicode@)), result, f);
                m1.push(("artist_unicode"@, JsonValue::Str(f.artist_unicode@)))
            } else {
                m1
            };
            lemma_carry_push(m2, ("title"@, JsonValue::Str(f.title@)), result, f);
            let m3 = m2.push(("title"@, JsonValue::Str(f.title@)));
            let m4 = if f.title@ != f.title_unicode@ {
                lemma_carry_push(m3, ("title_unicode"@, JsonValue::Str(f.title_unicode@)), result, f);
                m3.push(("title_unicode"@, JsonValue::Str(f.title_unicode@)))
            } else {
                m3
            };
            lemma_carry_push(m4, ("version"@, JsonValue::Str(f.version@)), result, f);
            let m5 = m4.push(("version"@, JsonValue::Str(f.version@)));
            lemma_carry_push(m5, ("creator"@, JsonValue::Str(f.creator@)), result, f);
            let m6 = m5.push(("creator"@, JsonValue::Str(f.creator@)));
            lemma_carry_push(m6, ("mods_str"@, JsonValue::Str(f.mods_str@)), result, f);
            let m7 = m6.push(("mods_str"@, JsonValue::Str(f.mods_str@)));
            lemma_carry_push(m7, ("mods"@, JsonValue::Num(dec_nat(f.mods as nat))), result, f);
            let m8 = m7.push(("mods"@, JsonValue::Num(dec_nat(f.mods as nat))));
            lemma_carry_push(m8, ("od"@, JsonValue::Num(f.od_text@)), result, f);
            let m9 = m8.push(("od"@, JsonValue::Num(f.od_text@)));
            lemma_carry_push(m9, ("ar"@, JsonValue::Num(f.ar_text@)), result, f);
            let m10 = m9.push(("ar"@, JsonValue::Num(f.ar_text@)));
            lemma_carry_push(m10, ("cs"@, JsonValue::Num(f.cs_text@)), result, f);
            let m11 = m10.push(("cs"@, JsonValue::Num(f.cs_text@)));
            lemma_carry_push(m11, ("hp"@, JsonValue::Num(f.hp_text@)), result, f);
            let m12 = m11.push(("hp"@, JsonValue::Num(f.hp_text@)));
            lemma_carry_push(m12, ("combo"@, JsonValue::Num(dec_int(f.combo as int))), result, f);
            let m13 = m12.push(("combo"@, JsonValue::Num(dec_int(f.combo as int))));
            lemma_carry_push(m13, ("max_combo"@, JsonValue::Num(dec_int(f.max_combo as int))), result, f);
            let m14 = m13.push(("max_combo"@, JsonValue::Num(dec_int(f.max_combo as int))));
            lemma_carry_push(m14, ("num_circles"@, JsonValue::Num(dec_int(f.ncircles as int))), result, f);
            let m15 = m14.push(("num_circles"@, JsonValue::Num(dec_int(f.ncircles as int))));
            lemma_carry_push(m15, ("num_sliders"@, JsonValue::Num(dec_int(f.nsliders as int))), result, f);
            let m16 = m15.push(("num_sliders"@, JsonValue::Num(dec_int(f.nsliders as int))));
            lemma_carry_push(m16, ("num_spinners"@, JsonValue::Num(dec_int(f.nspinners as int))), result, f);
            let m17 = m16.push(("num_spinners"@, JsonValue::Num(dec_int(f.nspinners as int))));
            lemma_carry_push(m17, ("misses"@, JsonValue::Num(dec_int(f.nmiss as int))), result, f);
            let m18 = m17.push(("misses"@, JsonValue::Num(dec_int(f.nmiss as int))));
            lemma_carry_push(m18, ("score_version"@, JsonValue::Num(dec_int(f.score_version as int))), result, f);
            let m19 = m18.push(("score_version"@, JsonValue::Num(dec_int(f.score_version as int))));
            lemma_carry_push(m19, ("stars"@, JsonValue::Num(f.stars_text@)), result, f);
            let m20 = m19.push(("stars"@, JsonValue::Num(f.stars_text@)));
            lemma_carry_push(m20, ("speed_stars"@, JsonValue::Num(f.speed_stars_text@)), result, f);
            let m21 = m20.push(("speed_stars"@, JsonValue::Num(f.speed_stars_text@)));
            lemma_carry_push(m21, ("aim_stars"@, JsonValue::Num(f.aim_stars_text@)), result, f);
            let m22 = m21.push(("aim_stars"@, JsonValue::Num(f.aim_stars_text@)));
            lemma_carry_push(m22, ("aim_pp"@, JsonValue::Num(f.aim_pp_text@)), result, f);
            let m23 = m22.push(("aim_pp"@, JsonValue::Num(f.aim_pp_text@)));
            lemma_carry_push(m23, ("speed_pp"@, JsonValue::Num(f.speed_pp_text@)), result, f);
            let m24 = m23.push(("speed_pp"@, JsonValue::Num(f.speed_pp_text@)));
            lemma_carry_push(m24, ("acc_pp"@, JsonValue::Num(f.acc_pp_text@)), result, f);
            let m25 = m24.push(("acc_pp"@, JsonValue::Num(f.acc_pp_text@)));
            lemma_carry_push(m25, ("pp"@, JsonValue::Num(f.pp_text@)), result, f);
            let m26 = m25.push(("pp"@, JsonValue::Num(f.pp_text@)));
        assert(m26 == csv_members(result, f));
    }
}

/// Appends `"key":` with the key escaped.
fn push_json_key(out: &mut String, key: &str)
    ensures
        final(out)@ == old(out)@ + seq!['"'] + json_escape(key@) + seq!['"', ':'],
{
    push_char(out, '"');
    let k: String = escape_json_str(key);
    push_str(out, k.as_str());
    push_char(out, '"');
    push_char(out, ':');
    proof {
        assert(final(out)@ =~= old(out)@ + seq!['"'] + json_escape(key@) + seq!['"', ':']);
    }
}

/// Appends a member with a string value.
fn push_str_member(out: &mut String, key: &str, value: &str)
    ensures
        final(out)@ == old(out)@ + json_member_text((key@, JsonValue::Str(value@))),
{
    push_json_key(out, key);
    push_char(out, '"');
    let e: String = escape_json_str(value);
    push_str(out, e.as_str());
    push_char(out, '"');
    proof {
        assert(final(out)@ =~= old(out)@ + json_member_text((key@, JsonValue::Str(value@))));
    }
}

/// Adding a member after others writes a comma and the member.
proof fn lemma_members_push(ms: Seq<(Seq<char>, JsonValue)>, m: (Seq<char>, JsonValue))
    requires
        ms.len() > 0,
    ensures
        json_members_text(ms.push(m)) == json_members_text(ms) + seq![','] + json_member_text(m),
{
    assert(ms.push(m).drop_last() =~= ms);
}

/// Appends a comma and a member with a string value after the members `ms`.
fn push_next_str(out: &mut String, Ghost(ms): Ghost<Seq<(Seq<char>, JsonValue)>>, key: &str, value: &str)
    requires
        ms.len() > 0,
        old(out)@ == seq!['{'] + json_members_text(ms),
    ensures
        final(out)@ == seq!['{'] + json_members_text(ms.push((key@, JsonValue::Str(value@)))),
{
    push_char(out, ',');
    push_str_member(out, key, value);
    proof {
        lemma_members_push(ms, (key@, JsonValue::Str(value@)));
        assert(final(out)@ =~= seq!['{'] + json_members_text(ms.push((key@, JsonValue::Str(value@)))));
    }
}

/// Appends a comma and a member whose value is the number text `text`.
fn push_next_num(out: &mut String, Ghost(ms): Ghost<Seq<(Seq<char>, JsonValue)>>, key: &str, text: &str)
    requires
        ms.len() > 0,
        old(out)@ == seq!['{'] + json_members_text(ms),
    ensures
        final(out)@ == seq!['{'] + json_members_text(ms.push((key@, JsonValue::Num(text@)))),
{
    push_char(out, ',');
    push_json_key(out, key);
    push_str(out, text);
    proof {
        lemma_members_push(ms, (key@, JsonValue::Num(text@)));
        assert(final(out)@ =~= seq!['{'] + json_members_text(ms.push((key@, JsonValue::Num(text@)))));
    }
}

/// Appends a comma and a member whose value is `v` in decimal.
fn push_next_int(out: &mut String, Ghost(ms): Ghost<Seq<(Seq<char>, JsonValue)>>, key: &str, v: i32)
    requires
        ms.len() > 0,
        old(out)@ == seq!['{'] + json_members_text(ms),
    ensures
        final(out)@ == seq!['{'] + json_members_text(
            ms.push((key@, JsonValue::Num(dec_int(v as int)))),
        ),
{
    let mut t = String::new();
    push_dec_i32(&mut t, v);
    proof {
        assert(t@ =~= dec_int(v as int));
    }
    push_next_num(out, Ghost(ms), key, t.as_str());
}

/// Appends a comma and a member whose value is `v` in decimal.
fn push_next_nat(out: &mut String, Ghost(ms): Ghost<Seq<(Seq<char>, JsonValue)>>, key: &str, v: u64)
    requires
        ms.len() > 0,
        old(out)@ == seq!['{'] + json_members_text(ms),
    ensures
        final(out)@ == seq!['{'] + json_members_text(
            ms.push((key@, JsonValue::Num(dec_nat(v as nat)))),
        ),
{
    let mut t = String::new();
    push_dec_u64(&mut t, v);
    proof {
        assert(t@ =~= dec_nat(v as nat));
    }
    push_next_num(out, Ghost(ms), key, t.as_str());
}

/// The text that the JSON output module prints for a calculation that
/// ended with `result`.
#[verifier::spinoff_prover]
#[verifier::rlimit(50)]
pub fn json_report(result: i32, f: &ReportFields) -> (out: String)
    ensures
        out@ == json_report_spec(result, *f),
{
    let mut out = String::new();
    push_char(&mut out, '{');
    push_str_member(&mut out, "oppai_version", OPPAI_VERSION_STRING);
    let ghost mut ms: Seq<(Seq<char>, JsonValue)> = seq![
        ("oppai_version"@, JsonValue::Str(OPPAI_VERSION_STRING@)),
    ];
    proof {
        assert(out@ =~= seq!['{'] + json_members_text(ms));
    }
    let code: i32 = if result < 0 {
        result
    } else {
        200
    };
    push_next_int(&mut out, Ghost(ms), "code", code);
    proof {
        ms = ms.push(("code"@, JsonValue::Num(dec_int(code as int))));
    }
    let e: &str = if result < 0 {
        errstr(result)
    } else {
        "no error"
    };
    push_next_str(&mut out, Ghost(ms), "errstr", e);
    proof {
        ms = ms.push(("errstr"@, JsonValue::Str(e@)));
    }
    if result >= 0 {
        push_next_str(&mut out, Ghost(ms), "artist", f.artist.as_str());
        proof {
            ms = ms.push(("artist"@, JsonValue::Str(f.artist@)));
        }
        if f.artist != f.artist_unicode {
            push_next_str(&mut out, Ghost(ms), "artist_unicode", f.artist_unicode.as_str());
            proof {
                ms = ms.push(("artist_unicode"@, JsonValue::Str(f.artist_unicode@)));
            }
        }
        push_next_str(&mut out, Ghost(ms), "title", f.title.as_str());
        proof {
            ms = ms.push(("title"@, JsonValue::Str(f.title@)));
        }
        if f.title != f.title_unicode {
            push_next_str(&mut out, Ghost(ms), "title_unicode", f.title_unicode.as_str());
            proof {
                ms = ms.push(("title_unicode"@, JsonValue::Str(f.title_unicode@)));
            }
        }
        push_next_str(&mut out, Ghost(ms), "creator", f.creator.as_str());
        proof {
            ms = ms.push(("creator"@, JsonValue::Str(f.creator@)));
        }
        push_next_str(&mut out, Ghost(ms), "version", f.version.as_str());
        proof {
            ms = ms.push(("version"@, JsonValue::Str(f.version@)));
        }
        push_next_str(&mut out, Ghost(ms), "mods_str", f.mods_str.as_str());
        proof {
            ms = ms.push(("mods_str"@, JsonValue::Str(f.mods_str@)));
        }
        push_next_nat(&mut out, Ghost(ms), "mods", f.mods as u64);
        proof {
            ms = ms.push(("mods"@, JsonValue::Num(dec_nat(f.mods as nat))));
        }
        push_next_num(&mut out, Ghost(ms), "od", f.od_text.as_str());
        proof {
            ms = ms.push(("od"@, JsonValue::Num(f.od_text@)));
        }
        push_next_num(&mut out, Ghost(ms), "ar", f.ar_text.as_str());
        proof {
            ms = ms.push(("ar"@, JsonValue::Num(f.ar_text@)));
        }
        push_next_num(&mut out, Ghost(ms), "cs", f.cs_text.as_str());
        proof {
            ms = ms.push(("cs"@, JsonValue::Num(f.cs_text@)));
        }
        push_next_num(&mut out, Ghost(ms), "hp", f.hp_text.as_str());
        proof {
            ms = ms.push(("hp"@, JsonValue::Num(f.hp_text@)));
        }
        push_next_int(&mut out, Ghost(ms), "combo", f.combo);
        proof {
            ms = ms.push(("combo"@, JsonValue::Num(dec_int(f.combo as int))));
        }
        push_next_int(&mut out, Ghost(ms), "max_combo", f.max_combo);
        proof {
            ms = ms.push(("max_combo"@, JsonValue::Num(dec_int(f.max_combo as int))));
        }
        push_next_int(&mut out, Ghost(ms), "num_circles", f.ncircles);
        proof {
            ms = ms.push(("num_circles"@, JsonValue::Num(dec_int(f.ncircles as int))));
        }
        push_next_int(&mut out, Ghost(ms), "num_sliders", f.nsliders);
        proof {
            ms = ms.push(("num_sliders"@, JsonValue::Num(dec_int(f.nsliders as int))));
        }
        push_next_int(&mut out, Ghost(ms), "num_spinners", f.nspinners);
        proof {
            ms = ms.push(("num_spinners"@, JsonValue::Num(dec_int(f.nspinners as int))));
        }
        push_next_int(&mut out, Ghost(ms), "misses", f.nmiss);
        proof {
            ms = ms.push(("misses"@, JsonValue::Num(dec_int(f.nmiss as int))));
        }
        push_next_int(&mut out, Ghost(ms), "score_version", f.score_version);
        proof {
            ms = ms.push(("score_version"@, JsonValue::Num(dec_int(f.score_version as int))));
        }
        push_next_num(&mut out, Ghost(ms), "stars", f.stars_text.as_str());
        proof {
            ms = ms.push(("stars"@, JsonValue::Num(f.stars_text@)));
        }
        push_next_num(&mut out, Ghost(ms), "speed_stars", f.speed_stars_text.as_str());
        proof {
            ms = ms.push(("speed_stars"@, JsonValue::Num(f.speed_stars_text@)));
        }
        push_next_num(&mut out, Ghost(ms), "aim_stars", f.aim_stars_text.as_str());
        proof {
            ms = ms.push(("aim_stars"@, JsonValue::Num(f.aim_stars_text@)));
        }
        push_next_num(&mut out, Ghost(ms), "aim_pp", f.aim_pp_text.as_str());
        proof {
            ms = ms.push(("aim_pp"@, JsonValue::Num(f.aim_pp_text@)));
        }
        push_next_num(&mut out, Ghost(ms), "speed_pp", f.speed_pp_text.as_str());
        proof {
            ms = ms.push(("speed_pp"@, JsonValue::Num(f.speed_pp_text@)));
        }
        push_next_num(&mut out, Ghost(ms), "acc_pp", f.acc_pp_text.as_str());
        proof {
            ms = ms.push(("acc_pp"@, JsonValue::Num(f.acc_pp_text@)));
        }
        push_next_num(&mut out, Ghost(ms), "pp", f.pp_text.as_str());
        proof {
            ms = ms.push(("pp"@, JsonValue::Num(f.pp_text@)));
        }
    }
    push_char(&mut out, '}');
    push_char(&mut out, '\n');
    proof {
        assert(ms == json_members(result, *f));
        assert(out@ =~= json_report_spec(result, *f));
    }
    out
}

/// Adding a member writes its line after the others.
proof fn lemma_csv_lines_push(ms: Seq<(Seq<char>, JsonValue)>, m: (Seq<char>, JsonValue))
    ensures
        csv_lines_text(ms.push(m)) == csv_lines_text(ms) + csv_member_line(m),
{
    assert(ms.push(m).drop_last() =~= ms);
}

/// Appends the line of a member whose value is the number text `text`.
fn push_csv_num(out: &mut String, Ghost(ms): Ghost<Seq<(Seq<char>, JsonValue)>>, key: &str, text: &str)
    requires
        old(out)@ == csv_lines_text(ms),
    ensures
        final(out)@ == csv_lines_text(ms.push((key@, JsonValue::Num(text@)))),
{
    push_str(out, key);
    push_char(out, ';');
    push_str(out, text);
    push_char(out, '\n');
    proof {
        lemma_csv_lines_push(ms, (key@, JsonValue::Num(text@)));
        assert(final(out)@ =~= csv_lines_text(ms.push((key@, JsonValue::Num(text@)))));
    }
}

/// Appends the line of a member with a string value, escaped.
fn push_csv_str(out: &mut String, Ghost(ms): Ghost<Seq<(Seq<char>, JsonValue)>>, key: &str, value: &str)
    requires
        old(out)@ == csv_lines_text(ms),
    ensures
        final(out)@ == csv_lines_text(ms.push((key@, JsonValue::Str(value@)))),
{
    push_str(out, key);
    push_char(out, ';');
    let e: String = escape_csv_str(value);
    push_str(out, e.as_str());
    push_char(out, '\n');
    proof {
        lemma_csv_lines_push(ms, (key@, JsonValue::Str(value@)));
        assert(final(out)@ =~= csv_lines_text(ms.push((key@, JsonValue::Str(value@)))));
    }
}

/// Appends the line of a member whose value is `v` in decimal.
fn push_csv_int(out: &mut String, Ghost(ms): Ghost<Seq<(Seq<char>, JsonValue)>>, key: &str, v: i32)
    requires
        old(out)@ == csv_lines_text(ms),
    ensures
        final(out)@ == csv_lines_text(ms.push((key@, JsonValue::Num(dec_int(v as int))))),
{
    let mut t = String::new();
    push_dec_i32(&mut t, v);
    proof {
        assert(t@ =~= dec_int(v as int));
    }
    push_csv_num(out, Ghost(ms), key, t.as_str());
}

/// Appends the line of a member whose value is `v` in decimal.
fn push_csv_nat(out: &mut String, Ghost(ms): Ghost<Seq<(Seq<char>, JsonValue)>>, key: &str, v: u64)
    requires
        old(out)@ == csv_lines_text(ms),
    ensures
        final(out)@ == csv_lines_text(ms.push((key@, JsonValue::Num(dec_nat(v as nat))))),
{
    let mut t = String::new();
    push_dec_u64(&mut t, v);
    proof {
        assert(t@ =~= dec_nat(v as nat));
    }
    push_csv_num(out, Ghost(ms), key, t.as_str());
}

/// The text that the CSV output module prints for a calculation that
/// ended with `result`.
#[verifier::spinoff_prover]
#[verifier::rlimit(50)]
pub fn csv_report(result: i32, f: &ReportFields) -> (out: String)
    ensures
        out@ == csv_report_spec(result, *f),
{
    let mut out = String::new();
    let ghost mut ms: Seq<(Seq<char>, JsonValue)> = Seq::empty();
    proof {
        assert(out@ =~= csv_lines_text(ms));
    }
    push_csv_str(&mut out, Ghost(ms), "oppai_version", OPPAI_VERSION_STRING);
    proof {
        ms = ms.push(("oppai_version"@, JsonValue::Str(OPPAI_VERSION_STRING@)));
    }
    let code: i32 = if result < 0 {
        result
    } else {
        200
    };
    push_csv_int(&mut out, Ghost(ms), "code", code);
    proof {
        ms = ms.push(("code"@, JsonValue::Num(dec_int(code as int))));
    }
    let e: &str = if result < 0 {
        errstr(result)
    } else {
        "no error"
    };
    push_csv_str(&mut out, Ghost(ms), "errstr", e);
    proof {
        ms = ms.push(("errstr"@, JsonValue::Str(e@)));
    }
    if result >= 0 {
        push_csv_str(&mut out, Ghost(ms), "artist", f.artist.as_str());
        proof {
            ms = ms.push(("artist"@, JsonValue::Str(f.artist@)));
        }
        if f.artist != f.artist_unicode {
            push_csv_str(&mut out, Ghost(ms), "artist_unicode", f.artist_unicode.as_str());
            proof {
                ms = ms.push(("artist_unicode"@, JsonValue::Str(f.artist_unicode@)));
            }
        }
        push_csv_str(&mut out, Ghost(ms), "title", f.title.as_str());
        proof {
            ms = ms.push(("title"@, JsonValue::Str(f.title@)));
        }
        if f.title != f.title_unicode {
            push_csv_str(&mut out, Ghost(ms), "title_unicode", f.title_unicode.as_str());
            proof {
                ms = ms.push(("title_unicode"@, JsonValue::Str(f.title_unicode@)));
            }
        }
        push_csv_str(&mut out, Ghost(ms), "version", f.version.as_str());
        proof {
            ms = ms.push(("version"@, JsonValue::Str(f.version@)));
        }
        push_csv_str(&mut out, Ghost(ms), "creator", f.creator.as_str());
        proof {
            ms = ms.push(("creator"@, JsonValue::Str(f.creator@)));
        }
        push_csv_str(&mut out, Ghost(ms), "mods_str", f.mods_str.as_str());
        proof {
            ms = ms.push(("mods_str"@, JsonValue::Str(f.mods_str@)));
        }
        push_csv_nat(&mut out, Ghost(ms), "mods", f.mods as u64);
        proof {
            ms = ms.push(("mods"@, JsonValue::Num(dec_nat(f.mods as nat))));
        }
        push_csv_num(&mut out, Ghost(ms), "od", f.od_text.as_str());
        proof {
            ms = ms.push(("od"@, JsonValue::Num(f.od_text@)));
        }
        push_csv_num(&mut out, Ghost(ms), "ar", f.ar_text.as_str());
        proof {
            ms = ms.push(("ar"@, JsonValue::Num(f.ar_text@)));
        }
        push_csv_num(&mut out, Ghost(ms), "cs", f.cs_text.as_str());
        proof {
            ms = ms.push(("cs"@, JsonValue::Num(f.cs_text@)));
        }
        push_csv_num(&mut out, Ghost(ms), "hp", f.hp_text.as_str());
        proof {
            ms = ms.push(("hp"@, JsonValue::Num(f.hp_text@)));
        }
        push_csv_int(&mut out, Ghost(ms), "combo", f.combo);
        proof {
            ms = ms.push(("combo"@, JsonValue::Num(dec_int(f.combo as int))));
        }
        push_csv_int(&mut out, Ghost(ms), "max_combo", f.max_combo);
        proof {
            ms = ms.push(("max_combo"@, JsonValue::Num(dec_int(f.max_combo as int))));
        }
        push_csv_int(&mut out, Ghost(ms), "num_circles", f.ncircles);
        proof {
            ms = ms.push(("num_circles"@, JsonValue::Num(dec_int(f.ncircles as int))));
        }
        push_csv_int(&mut out, Ghost(ms), "num_sliders", f.nsliders);
        proof {
            ms = ms.push(("num_sliders"@, JsonValue::Num(dec_int(f.nsliders as int))));
        }
        push_csv_int(&mut out, Ghost(ms), "num_spinners", f.nspinners);
        proof {
            ms = ms.push(("num_spinners"@, JsonValue::Num(dec_int(f.nspinners as int))));
        }
        push_csv_int(&mut out, Ghost(ms), "misses", f.nmiss);
        proof {
            ms = ms.push(("misses"@, JsonValue::Num(dec_int(f.nmiss as int))));
        }
        push_csv_int(&mut out, Ghost(ms), "score_version", f.score_version);
        proof {
            ms = ms.push(("score_version"@, JsonValue::Num(dec_int(f.score_version as int))));
        }
        push_csv_num(&mut out, Ghost(ms), "stars", f.stars_text.as_str());
        proof {
            ms = ms.push(("stars"@, JsonValue::Num(f.stars_text@)));
        }
        push_csv_num(&mut out, Ghost(ms), "speed_stars", f.speed_stars_text.as_str());
        proof {
            ms = ms.push(("speed_stars"@, JsonValue::Num(f.speed_stars_text@)));
        }
        push_csv_num(&mut out, Ghost(ms), "aim_stars", f.aim_stars_text.as_str());
        proof {
            ms = ms.push(("aim_stars"@, JsonValue::Num(f.aim_stars_text@)));
        }
        push_csv_num(&mut out, Ghost(ms), "aim_pp", f.aim_pp_text.as_str());
        proof {
            ms = ms.push(("aim_pp"@, JsonValue::Num(f.aim_pp_text@)));
        }
        push_csv_num(&mut out, Ghost(ms), "speed_pp", f.speed_pp_text.as_str());
        proof {
            ms = ms.push(("speed_pp"@, JsonValue::Num(f.speed_pp_text@)));
        }
        push_csv_num(&mut out, Ghost(ms), "acc_pp", f.acc_pp_text.as_str());
        proof {
            ms = ms.push(("acc_pp"@, JsonValue::Num(f.acc_pp_text@)));
        }
        push_csv_num(&mut out, Ghost(ms), "pp", f.pp_text.as_str());
        proof {
            ms = ms.push(("pp"@, JsonValue::Num(f.pp_text@)));
        }
    }
    proof {
        assert(ms == csv_members(result, *f));
    }
    out
}

/// What the plain text output module writes of a calculation. Floating
/// point values come as the text they are printed as, and the strain
/// graphs as the characters of their lines.
pub struct TextFields {
    pub mode: i32,
    pub artist: String,
    pub artist_unicode: String,
    pub title: String,
    pub title_unicode: String,
    pub version: String,
    pub creator: String,
    /// The mods as given on the command line; empty where none were given.
    pub mods_str: String,
    pub ar_text: String,
    pub od_text: String,
    pub cs_text: String,
    pub hp_text: String,
    pub odms_text: String,
    pub ncircles: i32,
    pub nsliders: i32,
    pub nspinners: i32,
    pub stars_text: String,
    pub aim_stars_text: String,
    pub speed_stars_text: String,
    pub speed_plot: String,
    pub aim_plot: String,
    pub combo: i32,
    pub max_combo: i32,
    pub accuracy_text: String,
    pub pp_text: String,
    pub aim_pp_text: String,
    pub speed_pp_text: String,
    pub acc_pp_text: String,
}

/// The song line of the plain text output.
pub open spec fn text_song(f: TextFields) -> Seq<char> {
    f.artist@ + " - "@ + f.title@ + " "@ + (if f.artist@ != f.artist_unicode@ || f.title@
        != f.title_unicode@ {
        "("@ + f.artist_unicode@ + " - "@ + f.title_unicode@ + ") "@
    } else {
        Seq::empty()
    }) + "["@ + f.version@ + "] mapped by "@ + f.creator@ + "\n\n"@
}

/// The difficulty settings and object counts of the plain text output.
pub open spec fn text_settings(f: TextFields) -> Seq<char> {
    "AR"@ + f.ar_text@ + " OD"@ + f.od_text@ + " "@ + (if f.mode == MODE_STD {
        "CS"@ + f.cs_text@ + " "@
    } else {
        Seq::empty()
    }) + "HP"@ + f.hp_text@ + "\n"@ + "300 hitwindow: "@ + f.odms_text@ + " ms\n"@ + dec_int(
        f.ncircles as int,
    ) + " circles, "@ + dec_int(f.nsliders as int) + " sliders, "@ + dec_int(f.nspinners as int)
        + " spinners\n"@
}

/// The stars of the plain text output, with aim, speed and strain graphs in
/// osu!standard.
pub open spec fn text_stars(f: TextFields) -> Seq<char> {
    if f.mode == MODE_STD {
        f.stars_text@ + " stars ("@ + f.aim_stars_text@ + " aim, "@ + f.speed_stars_text@
            + " speed)\n\n"@ + "speed strain: "@ + f.speed_plot@ + "\n"@ + "  aim strain: "@
            + f.aim_plot@ + "\n"@
    } else {
        f.stars_text@ + " stars\n"@
    }
}

/// The mods, combo, accuracy and performance points of the plain text
/// output.
pub open spec fn text_score(f: TextFields) -> Seq<char> {
    (if f.mods_str@.len() > 0 {
        "+"@ + f.mods_str@ + " "@
    } else {
        Seq::empty()
    }) + dec_int(f.combo as int) + "/"@ + dec_int(f.max_combo as int) + "x \n"@
        + f.accuracy_text@ + "%\n"@ + f.pp_text@ + " pp ("@ + (if f.mode == MODE_STD {
        f.aim_pp_text@ + " aim, "@
    } else {
        Seq::empty()
    }) + f.speed_pp_text@ + " speed, "@ + f.acc_pp_text@ + " acc)\n\n"@
}

/// The plain text output: the error message where there is one; else the
/// song, the difficulty settings, the object counts, the stars (with aim,
/// speed and strain graphs in osu!standard), the mods, combo, accuracy and
/// performance points.
pub open spec fn text_report_spec(result: i32, f: TextFields) -> Seq<char> {
    if result < 0 {
        errstr_spec(result) + "\n"@
    } else {
        text_song(f) + text_settings(f) + text_stars(f) + "\n"@ + text_score(f)
    }
}

/// The plain text output of a calculation begins with its song line: the
/// artist and title, then, where either unicode name differs from the
/// plain one, the unicode artist and unicode title in brackets, then the
/// version and who mapped it.
pub proof fn lemma_text_report_song(result: i32, f: TextFields)
    requires
        result >= 0,
    ensures
        ({
            let song = f.artist@ + " - "@ + f.title@ + " "@ + (if f.artist@ != f.artist_unicode@
                || f.title@ != f.title_unicode@ {
                "("@ + f.artist_unicode@ + " - "@ + f.title_unicode@ + ") "@
            } else {
                Seq::empty()
            }) + "["@ + f.version@ + "] mapped by "@ + f.creator@;
            let out = text_report_spec(result, f);
            song.len() <= out.len() && out.subrange(0, song.len() as int) == song
        }),
{
    let song = f.artist@ + " - "@ + f.title@ + " "@ + (if f.artist@ != f.artist_unicode@
        || f.title@ != f.title_unicode@ {
        "("@ + f.artist_unicode@ + " - "@ + f.title_unicode@ + ") "@
    } else {
        Seq::empty()
    }) + "["@ + f.version@ + "] mapped by "@ + f.creator@;
    let rest = text_settings(f) + text_stars(f) + "\n"@ + text_score(f);
    let out = text_report_spec(result, f);
    assert(text_song(f) == song + "\n\n"@);
    assert(out =~= song + ("\n\n"@ + rest));
    assert(out.subrange(0, song.len() as int) =~= song);
}

/// Whether `t` stands somewhere in `s`, in one piece.
pub open spec fn has_sub<A>(s: Seq<A>, t: Seq<A>) -> bool {
    exists|i: int| 0 <= i && i + t.len() <= s.len() && #[trigger] s.subrange(i, i + t.len()) == t
}

proof fn lemma_has_sub<A>(a: Seq<A>, y: Seq<A>, b: Seq<A>)
    ensures
        has_sub(a + y + b, y),
{
    let z = a + y + b;
    assert(z.subrange(a.len() as int, (a.len() + y.len()) as int) =~= y);
}

proof fn lemma_sub_in_left<A>(x: Seq<A>, b: Seq<A>, t: Seq<A>)
    requires
        has_sub(x, t),
    ensures
        has_sub(x + b, t),
{
    let i = choose|i: int| 0 <= i && i + t.len() <= x.len() && #[trigger] x.subrange(i, i + t.len()) == t;
    assert((x + b).subrange(i, i + t.len()) =~= x.subrange(i, i + t.len()));
}

proof fn lemma_sub_in_right<A>(a: Seq<A>, x: Seq<A>, t: Seq<A>)
    requires
        has_sub(x, t),
    ensures
        has_sub(a + x, t),
{
    let i = choose|i: int| 0 <= i && i + t.len() <= x.len() && #[trigger] x.subrange(i, i + t.len()) == t;
    assert((a + x).subrange(a.len() + i, a.len() + i + t.len()) =~= x.subrange(i, i + t.len()));
}

proof fn lemma_text_part_0(f: TextFields)
    ensures
        has_sub(text_settings(f), "AR"@ + f.ar_text@ + " OD"@ + f.od_text@ + " "@),
{
    let y = "AR"@ + f.ar_text@ + " OD"@ + f.od_text@ + " "@;
    assert(text_settings(f) =~= (Seq::<char>::empty()) + y + ((if f.mode == MODE_STD {
        "CS"@ + f.cs_text@ + " "@
    } else {
        Seq::empty()
    }) + "HP"@ + f.hp_text@ + "\n"@ + "300 hitwindow: "@ + f.odms_text@ + " ms\n"@ + dec_int(f.ncircles as int) + " circles, "@ + dec_int(f.nsliders as int) + " sliders, "@ + dec_int(f.nspinners as int) + " spinners\n"@));
    lemma_has_sub((Seq::<char>::empty()), y, ((if f.mode == MODE_STD {
        "CS"@ + f.cs_text@ + " "@
    } else {
        Seq::empty()
    }) + "HP"@ + f.hp_text@ + "\n"@ + "300 hitwindow: "@ + f.odms_text@ + " ms\n"@ + dec_int(f.ncircles as int) + " circles, "@ + dec_int(f.nsliders as int) + " sliders, "@ + dec_int(f.nspinners as int) + " spinners\n"@));
}

proof fn lemma_text_part_1(f: TextFields)
    ensures
        has_sub(text_settings(f), "HP"@ + f.hp_text@ + "\n"@),
{
    let y = "HP"@ + f.hp_text@ + "\n"@;
    assert(text_settings(f) =~= ("AR"@ + f.ar_text@ + " OD"@ + f.od_text@ + " "@ + (if f.mode == MODE_STD {
        "CS"@ + f.cs_text@ + " "@
    } else {
        Seq::empty()
    })) + y + ("300 hitwindow: "@ + f.odms_text@ + " ms\n"@ + dec_int(f.ncircles as int) + " circles, "@ + dec_int(f.nsliders as int) + " sliders, "@ + dec_int(f.nspinners as int) + " spinners\n"@));
    lemma_has_sub(("AR"@ + f.ar_text@ + " OD"@ + f.od_text@ + " "@ + (if f.mode == MODE_STD {
        "CS"@ + f.cs_text@ + " "@
    } else {
        Seq::empty()
    })), y, ("300 hitwindow: "@ + f.odms_text@ + " ms\n"@ + dec_int(f.ncircles as int) + " circles, "@ + dec_int(f.nsliders as int) + " sliders, "@ + dec_int(f.nspinners as int) + " spinners\n"@));
}

proof fn lemma_text_part_2(f: TextFields)
    ensures
        has_sub(text_settings(f), "300 hitwindow: "@ + f.odms_text@ + " ms\n"@),
{
    let y = "300 hitwindow: "@ + f.odms_text@ + " ms\n"@;
    assert(text_settings(f) =~= ("AR"@ + f.ar_text@ + " OD"@ + f.od_text@ + " "@ + (if f.mode == MODE_STD {
        "CS"@ + f.cs_text@ + " "@
    } else {
        Seq::empty()
    }) + "HP"@ + f.hp_text@ + "\n"@) + y + (dec_int(f.ncircles as int) + " circles, "@ + dec_int(f.nsliders as int) + " sliders, "@ + dec_int(f.nspinners as int) + " spinners\n"@));
    lemma_has_sub(("AR"@ + f.ar_text@ + " OD"@ + f.od_text@ + " "@ + (if f.mode == MODE_STD {
        "CS"@ + f.cs_text@ + " "@
    } else {
        Seq::empty()
    }) + "HP"@ + f.hp_text@ + "\n"@), y, (dec_int(f.ncircles as int) + " circles, "@ + dec_int(f.nsliders as int) + " sliders, "@ + dec_int(f.nspinners as int) + " spinners\n"@));
}

proof fn lemma_text_part_3(f: TextFields)
    ensures
        has_sub(text_settings(f), dec_int(f.ncircles as int) + " circles, "@ + dec_int(f.nsliders as int) + " sliders, "@ + dec_int(f.nspinners as int) + " spinners\n"@),
{
    let y = dec_int(f.ncircles as int) + " circles, "@ + dec_int(f.nsliders as int) + " sliders, "@ + dec_int(f.nspinners as int) + " spinners\n"@;
    assert(text_settings(f) =~= ("AR"@ + f.ar_text@ + " OD"@ + f.od_text@ + " "@ + (if f.mode == MODE_STD {
        "CS"@ + f.cs_text@ + " "@
    } else {
        Seq::empty()
    }) + "HP"@ + f.hp_text@ + "\n"@ + "300 hitwindow: "@ + f.odms_text@ + " ms\n"@) + y + (Seq::<char>::empty()));
    lemma_has_sub(("AR"@ + f.ar_text@ + " OD"@ + f.od_text@ + " "@ + (if f.mode == MODE_STD {
        "CS"@ + f.cs_text@ + " "@
    } else {
        Seq::empty()
    }) + "HP"@ + f.hp_text@ + "\n"@ + "300 hitwindow: "@ + f.odms_text@ + " ms\n"@), y, (Seq::<char>::empty()));
}

proof fn lemma_text_part_4(f: TextFields)
    ensures
        has_sub(text_score(f), dec_int(f.combo as int) + "/"@ + dec_int(f.max_combo as int) + "x \n"@ + f.accuracy_text@ + "%\n"@ + f.pp_text@ + " pp ("@),
{
    let y = dec_int(f.combo as int) + "/"@ + dec_int(f.max_combo as int) + "x \n"@ + f.accuracy_text@ + "%\n"@ + f.pp_text@ + " pp ("@;
    assert(text_score(f) =~= ((if f.mods_str@.len() > 0 {
        "+"@ + f.mods_str@ + " "@
    } else {
        Seq::empty()
    })) + y + ((if f.mode == MODE_STD {
        f.aim_pp_text@ + " aim, "@
    } else {
        Seq::empty()
    }) + f.speed_pp_text@ + " speed, "@ + f.acc_pp_text@ + " acc)\n\n"@));
    lemma_has_sub(((if f.mods_str@.len() > 0 {
        "+"@ + f.mods_str@ + " "@
    } else {
        Seq::empty()
    })), y, ((if f.mode == MODE_STD {
        f.aim_pp_text@ + " aim, "@
    } else {
        Seq::empty()
    }) + f.speed_pp_text@ + " speed, "@ + f.acc_pp_text@ + " acc)\n\n"@));
}

proof fn lemma_text_part_5(f: TextFields)
    ensures
        has_sub(text_score(f), f.speed_pp_text@ + " speed, "@ + f.acc_pp_text@ + " acc)\n\n"@),
{
    let y = f.speed_pp_text@ + " speed, "@ + f.acc_pp_text@ + " acc)\n\n"@;
    assert(text_score(f) =~= ((if f.mods_str@.len() > 0 {
        "+"@ + f.mods_str@ + " "@
    } else {
        Seq::empty()
    }) + dec_int(f.combo as int) + "/"@ + dec_int(f.max_combo as int) + "x \n"@ + f.accuracy_text@ + "%\n"@ + f.pp_text@ + " pp ("@ + (if f.mode == MODE_STD {
        f.aim_pp_text@ + " aim, "@
    } else {
        Seq::empty()
    })) + y + (Seq::<char>::empty()));
    lemma_has_sub(((if f.mods_str@.len() > 0 {
        "+"@ + f.mods_str@ + " "@
    } else {
        Seq::empty()
    }) + dec_int(f.combo as int) + "/"@ + dec_int(f.max_combo as int) + "x \n"@ + f.accuracy_text@ + "%\n"@ + f.pp_text@ + " pp ("@ + (if f.mode == MODE_STD {
        f.aim_pp_text@ + " aim, "@
    } else {
        Seq::empty()
    })), y, (Seq::<char>::empty()));
}

proof fn lemma_text_part_6(f: TextFields)
    requires
        f.mode == MODE_STD,
    ensures
        has_sub(text_settings(f), "AR"@ + f.ar_text@ + " OD"@ + f.od_text@ + " "@ + "CS"@ + f.cs_text@ + " "@ + "HP"@ + f.hp_text@ + "\n"@),
{
    let y = "AR"@ + f.ar_text@ + " OD"@ + f.od_text@ + " "@ + "CS"@ + f.cs_text@ + " "@ + "HP"@ + f.hp_text@ + "\n"@;
    assert(text_settings(f) =~= (Seq::<char>::empty()) + y + ("300 hitwindow: "@ + f.odms_text@ + " ms\n"@ + dec_int(f.ncircles as int) + " circles, "@ + dec_int(f.nsliders as int) + " sliders, "@ + dec_int(f.nspinners as int) + " spinners\n"@));
    lemma_has_sub((Seq::<char>::empty()), y, ("300 hitwindow: "@ + f.odms_text@ + " ms\n"@ + dec_int(f.ncircles as int) + " circles, "@ + dec_int(f.nsliders as int) + " sliders, "@ + dec_int(f.nspinners as int) + " spinners\n"@));
}

proof fn lemma_text_part_7(f: TextFields)
    requires
        f.mode == MODE_STD,
    ensures
        has_sub(text_stars(f), f.stars_text@ + " stars ("@ + f.aim_stars_text@ + " aim, "@ + f.speed_stars_text@ + " speed)\n\n"@),
{
    let y = f.stars_text@ + " stars ("@ + f.aim_stars_text@ + " aim, "@ + f.speed_stars_text@ + " speed)\n\n"@;
    assert(text_stars(f) =~= (Seq::<char>::empty()) + y + ("speed strain: "@ + f.speed_plot@ + "\n"@ + "  aim strain: "@ + f.aim_plot@ + "\n"@));
    lemma_has_sub((Seq::<char>::empty()), y, ("speed strain: "@ + f.speed_plot@ + "\n"@ + "  aim strain: "@ + f.aim_plot@ + "\n"@));
}

proof fn lemma_text_part_8(f: TextFields)
    requires
        f.mode == MODE_STD,
    ensures
        has_sub(text_stars(f), "speed strain: "@ + f.speed_plot@ + "\n"@ + "  aim strain: "@ + f.aim_plot@ + "\n"@),
{
    let y = "speed strain: "@ + f.speed_plot@ + "\n"@ + "  aim strain: "@ + f.aim_plot@ + "\n"@;
    assert(text_stars(f) =~= (f.stars_text@ + " stars ("@ + f.aim_stars_text@ + " aim, "@ + f.speed_stars_text@ + " speed)\n\n"@) + y + (Seq::<char>::empty()));
    lemma_has_sub((f.stars_text@ + " stars ("@ + f.aim_stars_text@ + " aim, "@ + f.speed_stars_text@ + " speed)\n\n"@), y, (Seq::<char>::empty()));
}

proof fn lemma_text_part_9(f: TextFields)
    requires
        f.mode == MODE_STD,
    ensures
        has_sub(text_score(f), " pp ("@ + f.aim_pp_text@ + " aim, "@ + f.speed_pp_text@ + " speed, "@),
{
    let y = " pp ("@ + f.aim_pp_text@ + " aim, "@ + f.speed_pp_text@ + " speed, "@;
    assert(text_score(f) =~= ((if f.mods_str@.len() > 0 {
        "+"@ + f.mods_str@ + " "@
    } else {
        Seq::empty()
    }) + dec_int(f.combo as int) + "/"@ + dec_int(f.max_combo as int) + "x \n"@ + f.accuracy_text@ + "%\n"@ + f.pp_text@) + y + (f.acc_pp_text@ + " acc)\n\n"@));
    lemma_has_sub(((if f.mods_str@.len() > 0 {
        "+"@ + f.mods_str@ + " "@
    } else {
        Seq::empty()
    }) + dec_int(f.combo as int) + "/"@ + dec_int(f.max_combo as int) + "x \n"@ + f.accuracy_text@ + "%\n"@ + f.pp_text@), y, (f.acc_pp_text@ + " acc)\n\n"@));
}

/// The plain text output of a calculation shows each value after its own
/// label: AR then OD, HP, the 300 hit window, the circle, slider and
/// spinner counts, the combo out of the max combo, the accuracy and the pp,
/// and the speed then the accuracy pp; in osu!standard also CS, the stars
/// with aim then speed stars, the speed then the aim strain graph, and the
/// aim then the speed pp.
pub proof fn lemma_text_report_values(result: i32, f: TextFields)
    requires
        result >= 0,
    ensures
        has_sub(text_report_spec(result, f), "AR"@ + f.ar_text@ + " OD"@ + f.od_text@ + " "@),
        has_sub(text_report_spec(result, f), "HP"@ + f.hp_text@ + "\n"@),
        has_sub(text_report_spec(result, f), "300 hitwindow: "@ + f.odms_text@ + " ms\n"@),
        has_sub(text_report_spec(result, f), dec_int(f.ncircles as int) + " circles, "@ + dec_int(f.nsliders as int) + " sliders, "@ + dec_int(f.nspinners as int) + " spinners\n"@),
        has_sub(text_report_spec(result, f), dec_int(f.combo as int) + "/"@ + dec_int(f.max_combo as int) + "x \n"@ + f.accuracy_text@ + "%\n"@ + f.pp_text@ + " pp ("@),
        has_sub(text_report_spec(result, f), f.speed_pp_text@ + " speed, "@ + f.acc_pp_text@ + " acc)\n\n"@),
        f.mode == MODE_STD ==> has_sub(text_report_spec(result, f), "AR"@ + f.ar_text@ + " OD"@ + f.od_text@ + " "@ + "CS"@ + f.cs_text@ + " "@ + "HP"@ + f.hp_text@ + "\n"@),
        f.mode == MODE_STD ==> has_sub(text_report_spec(result, f), f.stars_text@ + " stars ("@ + f.aim_stars_text@ + " aim, "@ + f.speed_stars_text@ + " speed)\n\n"@),
        f.mode == MODE_STD ==> has_sub(text_report_spec(result, f), "speed strain: "@ + f.speed_plot@ + "\n"@ + "  aim strain: "@ + f.aim_plot@ + "\n"@),
        f.mode == MODE_STD ==> has_sub(text_report_spec(result, f), " pp ("@ + f.aim_pp_text@ + " aim, "@ + f.speed_pp_text@ + " speed, "@),
{
    lemma_text_part_0(f);
    lemma_sub_in_right(text_song(f), text_settings(f), ("AR"@ + f.ar_text@ + " OD"@ + f.od_text@ + " "@));
    lemma_sub_in_left(text_song(f) + text_settings(f), text_stars(f), ("AR"@ + f.ar_text@ + " OD"@ + f.od_text@ + " "@));
    lemma_sub_in_left(text_song(f) + text_settings(f) + text_stars(f), "\n"@, ("AR"@ + f.ar_text@ + " OD"@ + f.od_text@ + " "@));
    lemma_sub_in_left(text_song(f) + text_settings(f) + text_stars(f) + "\n"@, text_score(f), ("AR"@ + f.ar_text@ + " OD"@ + f.od_text@ + " "@));
    lemma_text_part_1(f);
    lemma_sub_in_right(text_song(f), text_settings(f), ("HP"@ + f.hp_text@ + "\n"@));
    lemma_sub_in_left(text_song(f) + text_settings(f), text_stars(f), ("HP"@ + f.hp_text@ + "\n"@));
    lemma_sub_in_left(text_song(f) + text_settings(f) + text_stars(f), "\n"@, ("HP"@ + f.hp_text@ + "\n"@));
    lemma_sub_in_left(text_song(f) + text_settings(f) + text_stars(f) + "\n"@, text_score(f), ("HP"@ + f.hp_text@ + "\n"@));
    lemma_text_part_2(f);
    lemma_sub_in_right(text_song(f), text_settings(f), ("300 hitwindow: "@ + f.odms_text@ + " ms\n"@));
    lemma_sub_in_left(text_song(f) + text_settings(f), text_stars(f), ("300 hitwindow: "@ + f.odms_text@ + " ms\n"@));
    lemma_sub_in_left(text_song(f) + text_settings(f) + text_stars(f), "\n"@, ("300 hitwindow: "@ + f.odms_text@ + " ms\n"@));
    lemma_sub_in_left(text_song(f) + text_settings(f) + text_stars(f) + "\n"@, text_score(f), ("300 hitwindow: "@ + f.odms_text@ + " ms\n"@));
    lemma_text_part_3(f);
    lemma_sub_in_right(text_song(f), text_settings(f), (dec_int(f.ncircles as int) + " circles, "@ + dec_int(f.nsliders as int) + " sliders, "@ + dec_int(f.nspinners as int) + " spinners\n"@));
    lemma_sub_in_left(text_song(f) + text_settings(f), text_stars(f), (dec_int(f.ncircles as int) + " circles, "@ + dec_int(f.nsliders as int) + " sliders, "@ + dec_int(f.nspinners as int) + " spinners\n"@));
    lemma_sub_in_left(text_song(f) + text_settings(f) + text_stars(f), "\n"@, (dec_int(f.ncircles as int) + " circles, "@ + dec_int(f.nsliders as int) + " sliders, "@ + dec_int(f.nspinners as int) + " spinners\n"@));
    lemma_sub_in_left(text_song(f) + text_settings(f) + text_stars(f) + "\n"@, text_score(f), (dec_int(f.ncircles as int) + " circles, "@ + dec_int(f.nsliders as int) + " sliders, "@ + dec_int(f.nspinners as int) + " spinners\n"@));
    lemma_text_part_4(f);
    lemma_sub_in_right(text_song(f) + text_settings(f) + text_stars(f) + "\n"@, text_score(f), (dec_int(f.combo as int) + "/"@ + dec_int(f.max_combo as int) + "x \n"@ + f.accuracy_text@ + "%\n"@ + f.pp_text@ + " pp ("@));
    lemma_text_part_5(f);
    lemma_sub_in_right(text_song(f) + text_settings(f) + text_stars(f) + "\n"@, text_score(f), (f.speed_pp_text@ + " speed, "@ + f.acc_pp_text@ + " acc)\n\n"@));
    if f.mode == MODE_STD {
        lemma_text_part_6(f);
        lemma_sub_in_right(text_song(f), text_settings(f), ("AR"@ + f.ar_text@ + " OD"@ + f.od_text@ + " "@ + "CS"@ + f.cs_text@ + " "@ + "HP"@ + f.hp_text@ + "\n"@));
        lemma_sub_in_left(text_song(f) + text_settings(f), text_stars(f), ("AR"@ + f.ar_text@ + " OD"@ + f.od_text@ + " "@ + "CS"@ + f.cs_text@ + " "@ + "HP"@ + f.hp_text@ + "\n"@));
        lemma_sub_in_left(text_song(f) + text_settings(f) + text_stars(f), "\n"@, ("AR"@ + f.ar_text@ + " OD"@ + f.od_text@ + " "@ + "CS"@ + f.cs_text@ + " "@ + "HP"@ + f.hp_text@ + "\n"@));
        lemma_sub_in_left(text_song(f) + text_settings(f) + text_stars(f) + "\n"@, text_score(f), ("AR"@ + f.ar_text@ + " OD"@ + f.od_text@ + " "@ + "CS"@ + f.cs_text@ + " "@ + "HP"@ + f.hp_text@ + "\n"@));
    }
    if f.mode == MODE_STD {
        lemma_text_part_7(f);
        lemma_sub_in_right(text_song(f) + text_settings(f), text_stars(f), (f.stars_text@ + " stars ("@ + f.aim_stars_text@ + " aim, "@ + f.speed_stars_text@ + " speed)\n\n"@));
        lemma_sub_in_left(text_song(f) + text_settings(f) + text_stars(f), "\n"@, (f.stars_text@ + " stars ("@ + f.aim_stars_text@ + " aim, "@ + f.speed_stars_text@ + " speed)\n\n"@));
        lemma_sub_in_left(text_song(f) + text_settings(f) + text_stars(f) + "\n"@, text_score(f), (f.stars_text@ + " stars ("@ + f.aim_stars_text@ + " aim, "@ + f.speed_stars_text@ + " speed)\n\n"@));
    }
    if f.mode == MODE_STD {
        lemma_text_part_8(f);
        lemma_sub_in_right(text_song(f) + text_settings(f), text_stars(f), ("speed strain: "@ + f.speed_plot@ + "\n"@ + "  aim strain: "@ + f.aim_plot@ + "\n"@));
        lemma_sub_in_left(text_song(f) + text_settings(f) + text_stars(f), "\n"@, ("speed strain: "@ + f.speed_plot@ + "\n"@ + "  aim strain: "@ + f.aim_plot@ + "\n"@));
        lemma_sub_in_left(text_song(f) + text_settings(f) + text_stars(f) + "\n"@, text_score(f), ("speed strain: "@ + f.speed_plot@ + "\n"@ + "  aim strain: "@ + f.aim_plot@ + "\n"@));
    }
    if f.mode == MODE_STD {
        lemma_text_part_9(f);
        lemma_sub_in_right(text_song(f) + text_settings(f) + text_stars(f) + "\n"@, text_score(f), (" pp ("@ + f.aim_pp_text@ + " aim, "@ + f.speed_pp_text@ + " speed, "@));
    }
}

fn push_text_song(out: &mut String, f: &TextFields)
    ensures
        final(out)@ == old(out)@ + text_song(*f),
{
    push_str(out, f.artist.as_str());
    push_str(out, " - ");
    push_str(out, f.title.as_str());
    push_str(out, " ");
    if f.artist != f.artist_unicode || f.title != f.title_unicode {
        push_str(out, "(");
        push_str(out, f.artist_unicode.as_str());
        push_str(out, " - ");
        push_str(out, f.title_unicode.as_str());
        push_str(out, ") ");
    }
    push_str(out, "[");
    push_str(out, f.version.as_str());
    push_str(out, "] mapped by ");
    push_str(out, f.creator.as_str());
    push_str(out, "\n\n");
    proof {
        assert(final(out)@ =~= old(out)@ + text_song(*f));
    }
}

fn push_text_settings(out: &mut String, f: &TextFields)
    ensures
        final(out)@ == old(out)@ + text_settings(*f),
{
    push_str(out, "AR");
    push_str(out, f.ar_text.as_str());
    push_str(out, " OD");
    push_str(out, f.od_text.as_str());
    push_str(out, " ");
    if f.mode == MODE_STD {
        push_str(out, "CS");
        push_str(out, f.cs_text.as_str());
        push_str(out, " ");
    }
    push_str(out, "HP");
    push_str(out, f.hp_text.as_str());
    push_str(out, "\n");
    push_str(out, "300 hitwindow: ");
    push_str(out, f.odms_text.as_str());
    push_str(out, " ms\n");
    push_dec_i32(out, f.ncircles);
    push_str(out, " circles, ");
    push_dec_i32(out, f.nsliders);
    push_str(out, " sliders, ");
    push_dec_i32(out, f.nspinners);
    push_str(out, " spinners\n");
    proof {
        assert(final(out)@ =~= old(out)@ + text_settings(*f));
    }
}

fn push_text_stars(out: &mut String, f: &TextFields)
    ensures
        final(out)@ == old(out)@ + text_stars(*f),
{
    if f.mode == MODE_STD {
        push_str(out, f.stars_text.as_str());
        push_str(out, " stars (");
        push_str(out, f.aim_stars_text.as_str());
        push_str(out, " aim, ");
        push_str(out, f.speed_stars_text.as_str());
        push_str(out, " speed)\n\n");
        push_str(out, "speed strain: ");
        push_str(out, f.speed_plot.as_str());
        push_str(out, "\n");
        push_str(out, "  aim strain: ");
        push_str(out, f.aim_plot.as_str());
        push_str(out, "\n");
    } else {
        push_str(out, f.stars_text.as_str());
        push_str(out, " stars\n");
    }
    proof {
        assert(final(out)@ =~= old(out)@ + text_stars(*f));
    }
}

fn push_text_score(out: &mut String, f: &TextFields)
    ensures
        final(out)@ == old(out)@ + text_score(*f),
{
    if !f.mods_str.as_str().is_empty() {
        push_str(out, "+");
        push_str(out, f.mods_str.as_str());
        push_str(out, " ");
    }
    push_dec_i32(out, f.combo);
    push_str(out, "/");
    push_dec_i32(out, f.max_combo);
    push_str(out, "x \n");
    push_str(out, f.accuracy_text.as_str());
    push_str(out, "%\n");
    push_str(out, f.pp_text.as_str());
    push_str(out, " pp (");
    if f.mode == MODE_STD {
        push_str(out, f.aim_pp_text.as_str());
        push_str(out, " aim, ");
    }
    push_str(out, f.speed_pp_text.as_str());
    push_str(out, " speed, ");
    push_str(out, f.acc_pp_text.as_str());
    push_str(out, " acc)\n\n");
    proof {
        assert(final(out)@ =~= old(out)@ + text_score(*f));
    }
}

/// The text that the plain text output module prints for a calculation
/// that ended with `result`.
pub fn text_report(result: i32, f: &TextFields) -> (out: String)
    ensures
        out@ == text_report_spec(result, *f),
{
    let mut out = String::new();
    if result < 0 {
        push_str(&mut out, errstr(result));
        push_str(&mut out, "\n");
        return out;
    }
    push_text_song(&mut out, f);
    push_text_settings(&mut out, f);
    push_text_stars(&mut out, f);
    push_str(&mut out, "\n");
    push_text_score(&mut out, f);
    proof {
        assert(out@ =~= text_report_spec(result, *f));
    }
    out
}

/// What the gnuplot output module writes of a calculation: the song and
/// the points of the two strain plots, each as the text of its line.
pub struct GnuplotFields {
    pub mode: i32,
    pub artist: String,
    pub artist_unicode: String,
    pub title: String,
    pub title_unicode: String,
    pub version: String,
    pub creator: String,
    /// The mods as given on the command line; empty where none were given.
    pub mods_str: String,
    pub speed_points: Vec<String>,
    pub aim_points: Vec<String>,
}

/// Each point on a line of its own.
pub open spec fn point_lines(points: Seq<Seq<char>>) -> Seq<char>
    decreases points.len(),
{
    if points.len() == 0 {
        Seq::empty()
    } else {
        point_lines(points.drop_last()) + points.last() + "\n"@
    }
}

/// The title line of the gnuplot script: the song, and the mods where
/// some were given.
pub open spec fn gnuplot_title(f: GnuplotFields) -> Seq<char> {
    "set title \""@ + f.artist@ + " - "@ + f.title@ + " "@ + (if f.artist@ != f.artist_unicode@
        || f.title@ != f.title_unicode@ {
        "("@ + f.artist_unicode@ + " - "@ + f.title_unicode@ + ")"@
    } else {
        Seq::empty()
    }) + " ["@ + f.version@ + "] mapped by "@ + f.creator@ + (if f.mods_str@.len() > 0 {
        " +"@ + f.mods_str@
    } else {
        Seq::empty()
    }) + "\";\n"@
}

/// The gnuplot output: nothing for an error or outside osu!standard; else a
/// script that plots the speed and then the aim strain of every object.
pub open spec fn gnuplot_report_spec(result: i32, f: GnuplotFields) -> Seq<char> {
    if result < 0 || f.mode != MODE_STD {
        Seq::empty()
    } else {
        "set encoding utf8;\n"@ + gnuplot_title(f) + "set xlabel 'time (ms)';\n"@ + "set ylabel 'strain';\n"@
            + "set multiplot layout 2,1 rowsfirst;\n"@
            + "plot '-' with lines lc 1 title 'speed'\n"@ + point_lines(
            f.speed_points@.map_values(|p: String| p@),
        ) + "e\n"@ + "unset title;\n"@ + "plot '-' with lines lc 2 title 'aim'\n"@
            + point_lines(f.aim_points@.map_values(|p: String| p@))
    }
}

/// The gnuplot script of a calculation in osu!standard titles the plot with
/// the song (the unicode names in brackets where they differ from the plain
/// ones), plots the speed strain points first and the aim strain points
/// last.
pub proof fn lemma_gnuplot_report_parts(result: i32, f: GnuplotFields)
    requires
        result >= 0,
        f.mode == MODE_STD,
    ensures
        has_sub(gnuplot_report_spec(result, f), "set title \""@ + f.artist@ + " - "@ + f.title@ + " "@ + (if f.artist@ != f.artist_unicode@ || f.title@ != f.title_unicode@ {
        "("@ + f.artist_unicode@ + " - "@ + f.title_unicode@ + ")"@
    } else {
        Seq::empty()
    }) + " ["@ + f.version@ + "] mapped by "@ + f.creator@),
        has_sub(gnuplot_report_spec(result, f), "plot '-' with lines lc 1 title 'speed'\n"@ + point_lines(f.speed_points@.map_values(|p: String| p@))),
        has_sub(gnuplot_report_spec(result, f), "plot '-' with lines lc 2 title 'aim'\n"@ + point_lines(f.aim_points@.map_values(|p: String| p@))),
{
    let out = gnuplot_report_spec(result, f);
    assert(gnuplot_title(f) =~= ("set title \""@ + f.artist@ + " - "@ + f.title@ + " "@ + (if f.artist@ != f.artist_unicode@ || f.title@ != f.title_unicode@ {
        "("@ + f.artist_unicode@ + " - "@ + f.title_unicode@ + ")"@
    } else {
        Seq::empty()
    }) + " ["@ + f.version@ + "] mapped by "@ + f.creator@) + ((if f.mods_str@.len() > 0 {
        " +"@ + f.mods_str@
    } else {
        Seq::empty()
    }) + "\";\n"@));
    lemma_has_sub(Seq::<char>::empty(), ("set title \""@ + f.artist@ + " - "@ + f.title@ + " "@ + (if f.artist@ != f.artist_unicode@ || f.title@ != f.title_unicode@ {
        "("@ + f.artist_unicode@ + " - "@ + f.title_unicode@ + ")"@
    } else {
        Seq::empty()
    }) + " ["@ + f.version@ + "] mapped by "@ + f.creator@), ((if f.mods_str@.len() > 0 {
        " +"@ + f.mods_str@
    } else {
        Seq::empty()
    }) + "\";\n"@));
    assert(Seq::<char>::empty() + ("set title \""@ + f.artist@ + " - "@ + f.title@ + " "@ + (if f.artist@ != f.artist_unicode@ || f.title@ != f.title_unicode@ {
        "("@ + f.artist_unicode@ + " - "@ + f.title_unicode@ + ")"@
    } else {
        Seq::empty()
    }) + " ["@ + f.version@ + "] mapped by "@ + f.creator@) + ((if f.mods_str@.len() > 0 {
        " +"@ + f.mods_str@
    } else {
        Seq::empty()
    }) + "\";\n"@) =~= gnuplot_title(f));
    lemma_sub_in_right("set encoding utf8;\n"@, gnuplot_title(f), ("set title \""@ + f.artist@ + " - "@ + f.title@ + " "@ + (if f.artist@ != f.artist_unicode@ || f.title@ != f.title_unicode@ {
        "("@ + f.artist_unicode@ + " - "@ + f.title_unicode@ + ")"@
    } else {
        Seq::empty()
    }) + " ["@ + f.version@ + "] mapped by "@ + f.creator@));
    lemma_sub_in_left(("set encoding utf8;\n"@ + gnuplot_title(f)), "set xlabel 'time (ms)';\n"@, ("set title \""@ + f.artist@ + " - "@ + f.title@ + " "@ + (if f.artist@ != f.artist_unicode@ || f.title@ != f.title_unicode@ {
        "("@ + f.artist_unicode@ + " - "@ + f.title_unicode@ + ")"@
    } else {
        Seq::empty()
    }) + " ["@ + f.version@ + "] mapped by "@ + f.creator@));
    lemma_sub_in_left(("set encoding utf8;\n"@ + gnuplot_title(f) + "set xlabel 'time (ms)';\n"@), "set ylabel 'strain';\n"@, ("set title \""@ + f.artist@ + " - "@ + f.title@ + " "@ + (if f.artist@ != f.artist_unicode@ || f.title@ != f.title_unicode@ {
        "("@ + f.artist_unicode@ + " - "@ + f.title_unicode@ + ")"@
    } else {
        Seq::empty()
    }) + " ["@ + f.version@ + "] mapped by "@ + f.creator@));
    lemma_sub_in_left(("set encoding utf8;\n"@ + gnuplot_title(f) + "set xlabel 'time (ms)';\n"@ + "set ylabel 'strain';\n"@), "set multiplot layout 2,1 rowsfirst;\n"@, ("set title \""@ + f.artist@ + " - "@ + f.title@ + " "@ + (if f.artist@ != f.artist_unicode@ || f.title@ != f.title_unicode@ {
        "("@ + f.artist_unicode@ + " - "@ + f.title_unicode@ + ")"@
    } else {
        Seq::empty()
    }) + " ["@ + f.version@ + "] mapped by "@ + f.creator@));
    lemma_sub_in_left(("set encoding utf8;\n"@ + gnuplot_title(f) + "set xlabel 'time (ms)';\n"@ + "set ylabel 'strain';\n"@ + "set multiplot layout 2,1 rowsfirst;\n"@), "plot '-' with lines lc 1 title 'speed'\n"@, ("set title \""@ + f.artist@ + " - "@ + f.title@ + " "@ + (if f.artist@ != f.artist_unicode@ || f.title@ != f.title_unicode@ {
        "("@ + f.artist_unicode@ + " - "@ + f.title_unicode@ + ")"@
    } else {
        Seq::empty()
    }) + " ["@ + f.version@ + "] mapped by "@ + f.creator@));
    lemma_sub_in_left(("set encoding utf8;\n"@ + gnuplot_title(f) + "set xlabel 'time (ms)';\n"@ + "set ylabel 'strain';\n"@ + "set multiplot layout 2,1 rowsfirst;\n"@ + "plot '-' with lines lc 1 title 'speed'\n"@), point_lines(f.speed_points@.map_values(|p: String| p@)), ("set title \""@ + f.artist@ + " - "@ + f.title@ + " "@ + (if f.artist@ != f.artist_unicode@ || f.title@ != f.title_unicode@ {
        "("@ + f.artist_unicode@ + " - "@ + f.title_unicode@ + ")"@
    } else {
        Seq::empty()
    }) + " ["@ + f.version@ + "] mapped by "@ + f.creator@));
    lemma_sub_in_left(("set encoding utf8;\n"@ + gnuplot_title(f) + "set xlabel 'time (ms)';\n"@ + "set ylabel 'strain';\n"@ + "set multiplot layout 2,1 rowsfirst;\n"@ + "plot '-' with lines lc 1 title 'speed'\n"@ + point_lines(f.speed_points@.map_values(|p: String| p@))), "e\n"@, ("set title \""@ + f.artist@ + " - "@ + f.title@ + " "@ + (if f.artist@ != f.artist_unicode@ || f.title@ != f.title_unicode@ {
        "("@ + f.artist_unicode@ + " - "@ + f.title_unicode@ + ")"@
    } else {
        Seq::empty()
    }) + " ["@ + f.version@ + "] mapped by "@ + f.creator@));
    lemma_sub_in_left(("set encoding utf8;\n"@ + gnuplot_title(f) + "set xlabel 'time (ms)';\n"@ + "set ylabel 'strain';\n"@ + "set multiplot layout 2,1 rowsfirst;\n"@ + "plot '-' with lines lc 1 title 'speed'\n"@ + point_lines(f.speed_points@.map_values(|p: String| p@)) + "e\n"@), "unset title;\n"@, ("set title \""@ + f.artist@ + " - "@ + f.title@ + " "@ + (if f.artist@ != f.artist_unicode@ || f.title@ != f.title_unicode@ {
        "("@ + f.artist_unicode@ + " - "@ + f.title_unicode@ + ")"@
    } else {
        Seq::empty()
    }) + " ["@ + f.version@ + "] mapped by "@ + f.creator@));
    lemma_sub_in_left(("set encoding utf8;\n"@ + gnuplot_title(f) + "set xlabel 'time (ms)';\n"@ + "set ylabel 'strain';\n"@ + "set multiplot layout 2,1 rowsfirst;\n"@ + "plot '-' with lines lc 1 title 'speed'\n"@ + point_lines(f.speed_points@.map_values(|p: String| p@)) + "e\n"@ + "unset title;\n"@), "plot '-' with lines lc 2 title 'aim'\n"@, ("set title \""@ + f.artist@ + " - "@ + f.title@ + " "@ + (if f.artist@ != f.artist_unicode@ || f.title@ != f.title_unicode@ {
        "("@ + f.artist_unicode@ + " - "@ + f.title_unicode@ + ")"@
    } else {
        Seq::empty()
    }) + " ["@ + f.version@ + "] mapped by "@ + f.creator@));
    lemma_sub_in_left(("set encoding utf8;\n"@ + gnuplot_title(f) + "set xlabel 'time (ms)';\n"@ + "set ylabel 'strain';\n"@ + "set multiplot layout 2,1 rowsfirst;\n"@ + "plot '-' with lines lc 1 title 'speed'\n"@ + point_lines(f.speed_points@.map_values(|p: String| p@)) + "e\n"@ + "unset title;\n"@ + "plot '-' with lines lc 2 title 'aim'\n"@), point_lines(f.aim_points@.map_values(|p: String| p@)), ("set title \""@ + f.artist@ + " - "@ + f.title@ + " "@ + (if f.artist@ != f.artist_unicode@ || f.title@ != f.title_unicode@ {
        "("@ + f.artist_unicode@ + " - "@ + f.title_unicode@ + ")"@
    } else {
        Seq::empty()
    }) + " ["@ + f.version@ + "] mapped by "@ + f.creator@));
    assert(out =~= (("set encoding utf8;\n"@ + gnuplot_title(f) + "set xlabel 'time (ms)';\n"@ + "set ylabel 'strain';\n"@ + "set multiplot layout 2,1 rowsfirst;\n"@)) + ("plot '-' with lines lc 1 title 'speed'\n"@ + point_lines(f.speed_points@.map_values(|p: String| p@))) + (("e\n"@ + "unset title;\n"@ + "plot '-' with lines lc 2 title 'aim'\n"@ + point_lines(f.aim_points@.map_values(|p: String| p@)))));
    lemma_has_sub(("set encoding utf8;\n"@ + gnuplot_title(f) + "set xlabel 'time (ms)';\n"@ + "set ylabel 'strain';\n"@ + "set multiplot layout 2,1 rowsfirst;\n"@), ("plot '-' with lines lc 1 title 'speed'\n"@ + point_lines(f.speed_points@.map_values(|p: String| p@))), ("e\n"@ + "unset title;\n"@ + "plot '-' with lines lc 2 title 'aim'\n"@ + point_lines(f.aim_points@.map_values(|p: String| p@))));
    assert(out =~= (("set encoding utf8;\n"@ + gnuplot_title(f) + "set xlabel 'time (ms)';\n"@ + "set ylabel 'strain';\n"@ + "set multiplot layout 2,1 rowsfirst;\n"@ + "plot '-' with lines lc 1 title 'speed'\n"@ + point_lines(f.speed_points@.map_values(|p: String| p@)) + "e\n"@ + "unset title;\n"@)) + ("plot '-' with lines lc 2 title 'aim'\n"@ + point_lines(f.aim_points@.map_values(|p: String| p@))) + Seq::<char>::empty());
    lemma_has_sub(("set encoding utf8;\n"@ + gnuplot_title(f) + "set xlabel 'time (ms)';\n"@ + "set ylabel 'strain';\n"@ + "set multiplot layout 2,1 rowsfirst;\n"@ + "plot '-' with lines lc 1 title 'speed'\n"@ + point_lines(f.speed_points@.map_values(|p: String| p@)) + "e\n"@ + "unset title;\n"@), ("plot '-' with lines lc 2 title 'aim'\n"@ + point_lines(f.aim_points@.map_values(|p: String| p@))), Seq::<char>::empty());
}

fn push_point_lines(out: &mut String, points: &Vec<String>)
    ensures
        final(out)@ == old(out)@ + point_lines(points@.map_values(|p: String| p@)),
{
    let ghost ps = points@.map_values(|p: String| p@);
    let ghost start = out@;
    let n: usize = points.len();
    let mut i: usize = 0;
    proof {
        assert(ps.take(0) =~= Seq::<Seq<char>>::empty());
        assert(out@ =~= start + point_lines(ps.take(0)));
    }
    while i < n
        invariant
            n == points@.len(),
            ps == points@.map_values(|p: String| p@),
            i <= n,
            out@ == start + point_lines(ps.take(i as int)),
        decreases n - i,
    {
        push_str(out, points[i].as_str());
        push_str(out, "\n");
        proof {
            assert(ps.take(i + 1).drop_last() =~= ps.take(i as int));
            assert(ps.take(i + 1).last() == points@[i as int]@);
            assert(out@ =~= start + point_lines(ps.take(i + 1)));
        }
        i += 1;
    }
    proof {
        assert(ps.take(n as int) =~= ps);
    }
}

fn push_gnuplot_title(out: &mut String, f: &GnuplotFields)
    ensures
        final(out)@ == old(out)@ + gnuplot_title(*f),
{
    push_str(out, "set title \"");
    push_str(out, f.artist.as_str());
    push_str(out, " - ");
    push_str(out, f.title.as_str());
    push_str(out, " ");
    if f.artist != f.artist_unicode || f.title != f.title_unicode {
        push_str(out, "(");
        push_str(out, f.artist_unicode.as_str());
        push_str(out, " - ");
        push_str(out, f.title_unicode.as_str());
        push_str(out, ")");
    }
    push_str(out, " [");
    push_str(out, f.version.as_str());
    push_str(out, "] mapped by ");
    push_str(out, f.creator.as_str());
    if !f.mods_str.as_str().is_empty() {
        push_str(out, " +");
        push_str(out, f.mods_str.as_str());
    }
    push_str(out, "\";\n");
    proof {
        assert(final(out)@ =~= old(out)@ + gnuplot_title(*f));
    }
}

/// The text that the gnuplot output module prints for a calculation that
/// ended with `result`.
pub fn gnuplot_report(result: i32, f: &GnuplotFields) -> (out: String)
    ensures
        out@ == gnuplot_report_spec(result, *f),
{
    let mut out = String::new();
    if result < 0 || f.mode != MODE_STD {
        return out;
    }
    push_str(&mut out, "set encoding utf8;\n");
    push_gnuplot_title(&mut out, f);
    push_str(&mut out, "set xlabel 'time (ms)';\n");
    push_str(&mut out, "set ylabel 'strain';\n");
    push_str(&mut out, "set multiplot layout 2,1 rowsfirst;\n");
    push_str(&mut out, "plot '-' with lines lc 1 title 'speed'\n");
    push_point_lines(&mut out, &f.speed_points);
    push_str(&mut out, "e\n");
    push_str(&mut out, "unset title;\n");
    push_str(&mut out, "plot '-' with lines lc 2 title 'aim'\n");
    push_point_lines(&mut out, &f.aim_points);
    proof {
        assert(out@ =~= gnuplot_report_spec(result, *f));
    }
    out
}

} // verus!
