use vstd::prelude::*;
use crate::constants::{
    ERR_NOTIMPLEMENTED, MODE_STD, MODE_TAIKO, OBJ_CIRCLE, OBJ_SLIDER, OBJ_SPINNER, SOUND_NORMAL,
};
use crate::text::{
    chars_to_string, eq_lit, find, find_lit, lemma_find, parse_int_chars,
    parse_int_spec, split, split_chars, split_once, split_once_chars, starts_with, str_to_chars,
    subvec, trim, trim_chars, views,
};

verus! {

// ---------------------------------------------------------------------------
// Parsed beatmap text
// ---------------------------------------------------------------------------

/// A timing point as the text gives it. Its numbers stay text: they are read
/// as floating point numbers by the timing computations.
pub struct RawTimingPoint {
    pub time: String,
    pub ms_per_beat: String,
    /// Whether the point sets a new beat length (an uninherited point).
    pub change: bool,
}

/// A hit object as the text gives it.
pub struct RawHitObject {
    /// The time field, as text.
    pub time: String,
    pub obj_type: i32,
    /// The position fields, as text, where the object has a position.
    pub pos: Option<(String, String)>,
    pub repetitions: i32,
    /// The slider length field, as text.
    pub distance: Option<String>,
    /// The hit sound of the object (taiko only).
    pub sound: Option<i32>,
    /// The per-edge hit sounds of a taiko slider, each as read.
    pub edge_sounds: Option<Vec<Option<i32>>>,
}

/// A beatmap as its text gives it: metadata, counts and the objects and
/// timing points, with the floating point fields kept as text.
pub struct RawBeatmap {
    pub format_version: i32,
    pub mode: i32,
    pub original_mode: i32,
    pub title: String,
    pub title_unicode: String,
    pub artist: String,
    pub artist_unicode: String,
    pub creator: String,
    pub version: String,
    pub ncircles: usize,
    pub nsliders: usize,
    pub nspinners: usize,
    pub nobjects: usize,
    /// Combo from the objects themselves; slider and drum roll ticks are not
    /// counted here.
    pub base_max_combo: usize,
    pub cs: Option<String>,
    pub od: Option<String>,
    pub ar: Option<String>,
    pub hp: Option<String>,
    pub sv: Option<String>,
    pub tick_rate: Option<String>,
    pub timing_points: Vec<RawTimingPoint>,
    pub objects: Vec<RawHitObject>,
}

/// The value of a `RawTimingPoint`.
pub struct TimingPointModel {
    pub time: Seq<char>,
    pub ms_per_beat: Seq<char>,
    pub change: bool,
}

/// The value of a `RawHitObject`.
pub struct HitObjectModel {
    pub time: Seq<char>,
    pub obj_type: i32,
    pub pos: Option<(Seq<char>, Seq<char>)>,
    pub repetitions: i32,
    pub distance: Option<Seq<char>>,
    pub sound: Option<i32>,
    pub edge_sounds: Option<Seq<Option<i32>>>,
}

/// The value of a `RawBeatmap`.
pub struct BeatmapModel {
    pub format_version: i32,
    pub mode: i32,
    pub original_mode: i32,
    pub title: Seq<char>,
    pub title_unicode: Seq<char>,
    pub artist: Seq<char>,
    pub artist_unicode: Seq<char>,
    pub creator: Seq<char>,
    pub version: Seq<char>,
    pub ncircles: nat,
    pub nsliders: nat,
    pub nspinners: nat,
    pub nobjects: nat,
    pub base_max_combo: nat,
    pub cs: Option<Seq<char>>,
    pub od: Option<Seq<char>>,
    pub ar: Option<Seq<char>>,
    pub hp: Option<Seq<char>>,
    pub sv: Option<Seq<char>>,
    pub tick_rate: Option<Seq<char>>,
    pub timing_points: Seq<TimingPointModel>,
    pub objects: Seq<HitObjectModel>,
}

/// The characters of an optional string.
pub open spec fn opt_view(o: Option<String>) -> Option<Seq<char>> {
    match o {
        Some(s) => Some(s@),
        None => None,
    }
}

impl View for RawTimingPoint {
    type V = TimingPointModel;

    open spec fn view(&self) -> TimingPointModel {
        TimingPointModel { time: self.time@, ms_per_beat: self.ms_per_beat@, change: self.change }
    }
}

impl View for RawHitObject {
    type V = HitObjectModel;

    open spec fn view(&self) -> HitObjectModel {
        HitObjectModel {
            time: self.time@,
            obj_type: self.obj_type,
            pos: match self.pos {
                Some((x, y)) => Some((x@, y@)),
                None => None,
            },
            repetitions: self.repetitions,
            distance: opt_view(self.distance),
            sound: self.sound,
            edge_sounds: match self.edge_sounds {
                Some(e) => Some(e@),
                None => None,
            },
        }
    }
}

impl View for RawBeatmap {
    type V = BeatmapModel;

    open spec fn view(&self) -> BeatmapModel {
        BeatmapModel {
            format_version: self.format_version,
            mode: self.mode,
            original_mode: self.original_mode,
            title: self.title@,
            title_unicode: self.title_unicode@,
            artist: self.artist@,
            artist_unicode: self.artist_unicode@,
            creator: self.creator@,
            version: self.version@,
            ncircles: self.ncircles as nat,
            nsliders: self.nsliders as nat,
            nspinners: self.nspinners as nat,
            nobjects: self.nobjects as nat,
            base_max_combo: self.base_max_combo as nat,
            cs: opt_view(self.cs),
            od: opt_view(self.od),
            ar: opt_view(self.ar),
            hp: opt_view(self.hp),
            sv: opt_view(self.sv),
            tick_rate: opt_view(self.tick_rate),
            timing_points: self.timing_points@.map_values(|t: RawTimingPoint| t@),
            objects: self.objects@.map_values(|o: RawHitObject| o@),
        }
    }
}

// ---------------------------------------------------------------------------
// One line of each section
// ---------------------------------------------------------------------------

/// A line in the header, before any section: it may name the format version.
pub open spec fn format_line(m: BeatmapModel, t: Seq<char>) -> BeatmapModel {
    match find(t, "file format v"@) {
        Some(p) => match parse_int_spec(t.skip(p + "file format v"@.len())) {
            Some(v) => BeatmapModel { format_version: v, ..m },
            None => m,
        },
        None => m,
    }
}

/// A line of the `[General]` section: `Mode` sets the game mode, which must
/// be one that is supported.
pub open spec fn general_line(m: BeatmapModel, t: Seq<char>, mode_override: i32) -> Result<
    BeatmapModel,
    i32,
> {
    match split_once(t, ':') {
        Some((name, val)) => {
            if trim(name) == "Mode"@ {
                match parse_int_spec(trim(val)) {
                    Some(v) => {
                        let mode = if mode_override != 0 {
                            mode_override
                        } else {
                            v
                        };
                        if mode != MODE_STD && mode != MODE_TAIKO {
                            Err(ERR_NOTIMPLEMENTED)
                        } else {
                            Ok(BeatmapModel { original_mode: v, mode: mode, ..m })
                        }
                    },
                    None => Ok(m),
                }
            } else {
                Ok(m)
            }
        },
        None => Ok(m),
    }
}

/// A line of the `[Metadata]` section.
pub open spec fn metadata_line(m: BeatmapModel, t: Seq<char>) -> BeatmapModel {
    match split_once(t, ':') {
        Some((name, val)) => {
            let name = trim(name);
            let val = trim(val);
            if name == "Title"@ {
                BeatmapModel { title: val, ..m }
            } else if name == "TitleUnicode"@ {
                BeatmapModel { title_unicode: val, ..m }
            } else if name == "Artist"@ {
                BeatmapModel { artist: val, ..m }
            } else if name == "ArtistUnicode"@ {
                BeatmapModel { artist_unicode: val, ..m }
            } else if name == "Creator"@ {
                BeatmapModel { creator: val, ..m }
            } else if name == "Version"@ {
                BeatmapModel { version: val, ..m }
            } else {
                m
            }
        },
        None => m,
    }
}

/// A line of the `[Difficulty]` section.
pub open spec fn difficulty_line(m: BeatmapModel, t: Seq<char>) -> BeatmapModel {
    match split_once(t, ':') {
        Some((name, val)) => {
            let name = trim(name);
            let val = Some(trim(val));
            if name == "CircleSize"@ {
                BeatmapModel { cs: val, ..m }
            } else if name == "OverallDifficulty"@ {
                BeatmapModel { od: val, ..m }
            } else if name == "ApproachRate"@ {
                BeatmapModel { ar: val, ..m }
            } else if name == "HPDrainRate"@ {
                BeatmapModel { hp: val, ..m }
            } else if name == "SliderMultiplier"@ {
                BeatmapModel { sv: val, ..m }
            } else if name == "SliderTickRate"@ {
                BeatmapModel { tick_rate: val, ..m }
            } else {
                m
            }
        },
        None => m,
    }
}

/// A line of the `[TimingPoints]` section: at least two comma-separated
/// fields make a timing point; the seventh field, where present, says
/// whether it sets a new beat length.
pub open spec fn timing_line(m: BeatmapModel, t: Seq<char>) -> BeatmapModel {
    let parts = split(t, ',');
    if parts.len() >= 2 {
        let change = if parts.len() >= 7 {
            let c = trim(parts[6]);
            c.len() == 0 || c != "0"@
        } else {
            true
        };
        let tp = TimingPointModel { time: parts[0], ms_per_beat: parts[1], change: change };
        BeatmapModel { timing_points: m.timing_points.push(tp), ..m }
    } else {
        m
    }
}

/// The integer read, or `d` where none was.
pub open spec fn int_or(o: Option<i32>, d: i32) -> i32 {
    match o {
        Some(v) => v,
        None => d,
    }
}

/// The hit object that the comma-separated fields of a line describe, in
/// the given game mode.
pub open spec fn hit_object(parts: Seq<Seq<char>>, mode: i32) -> HitObjectModel {
    let obj_type = int_or(parse_int_spec(parts[3]), OBJ_CIRCLE);
    let sound = if mode == MODE_TAIKO {
        Some(int_or(parse_int_spec(parts[4]), SOUND_NORMAL))
    } else {
        None
    };
    let base = HitObjectModel {
        time: parts[2],
        obj_type: obj_type,
        pos: None,
        repetitions: 0,
        distance: None,
        sound: sound,
        edge_sounds: None,
    };
    if obj_type & OBJ_CIRCLE != 0 {
        HitObjectModel { pos: Some((parts[0], parts[1])), ..base }
    } else if obj_type & OBJ_SPINNER != 0 {
        base
    } else if obj_type & OBJ_SLIDER != 0 && parts.len() >= 7 {
        HitObjectModel {
            pos: Some((parts[0], parts[1])),
            repetitions: int_or(parse_int_spec(parts[6]), 1),
            distance: if parts.len() > 7 {
                Some(parts[7])
            } else {
                None
            },
            edge_sounds: if mode == MODE_TAIKO && parts.len() > 8 && trim(parts[8]).len() > 0 {
                Some(split(parts[8], '|').map_values(|p: Seq<char>| parse_int_spec(p)))
            } else {
                None
            },
            ..base
        }
    } else {
        base
    }
}

/// `m` with the object of a hit object line added and counted.
pub open spec fn add_object(m: BeatmapModel, o: HitObjectModel) -> BeatmapModel {
    let m2 = BeatmapModel { objects: m.objects.push(o), ..m };
    if o.obj_type & OBJ_CIRCLE != 0 {
        BeatmapModel { ncircles: m.ncircles + 1, ..m2 }
    } else if o.obj_type & OBJ_SPINNER != 0 {
        BeatmapModel { nspinners: m.nspinners + 1, ..m2 }
    } else if o.obj_type & OBJ_SLIDER != 0 {
        BeatmapModel { nsliders: m.nsliders + 1, ..m2 }
    } else {
        m2
    }
}

// ---------------------------------------------------------------------------
// The whole text
// ---------------------------------------------------------------------------

/// Where the reader stands after some lines: the current section, how many
/// hit object lines it has met, and the beatmap so far.
pub struct ParserModel {
    pub section: Seq<char>,
    pub ncand: nat,
    pub map: BeatmapModel,
}

/// The beatmap before any line is read.
pub open spec fn initial_model() -> BeatmapModel {
    BeatmapModel {
        format_version: 0,
        mode: MODE_STD,
        original_mode: MODE_STD,
        title: Seq::empty(),
        title_unicode: Seq::empty(),
        artist: Seq::empty(),
        artist_unicode: Seq::empty(),
        creator: Seq::empty(),
        version: Seq::empty(),
        ncircles: 0,
        nsliders: 0,
        nspinners: 0,
        nobjects: 0,
        base_max_combo: 0,
        cs: None,
        od: None,
        ar: None,
        hp: None,
        sv: None,
        tick_rate: None,
        timing_points: Seq::empty(),
        objects: Seq::empty(),
    }
}

/// The reader before any line is read.
pub open spec fn initial_parser() -> ParserModel {
    ParserModel { section: Seq::empty(), ncand: 0, map: initial_model() }
}

/// A trimmed line that carries nothing: blank, a comment, or an underscore
/// line.
pub open spec fn is_skipped(t: Seq<char>) -> bool {
    t.len() == 0 || starts_with(t, seq!['/', '/']) || t[0] == '_'
}

/// A trimmed line that opens a section, such as `[General]`.
pub open spec fn is_header(t: Seq<char>) -> bool {
    t.len() > 0 && t[0] == '[' && t.last() == ']'
}

/// The section that a header line names.
pub open spec fn header_name(t: Seq<char>) -> Seq<char> {
    trim(t.subrange(1, t.len() - 1))
}

/// A hit object line with at least five fields. It is the `ncand`-th such
/// line; `cut[ncand]` says whether it is left out for its time, and once
/// `end` objects are taken (where `end > 0`) the rest are left out.
pub open spec fn object_line(st: ParserModel, parts: Seq<Seq<char>>, end: i32, cut: Seq<bool>) -> ParserModel {
    let k = st.ncand;
    let excluded = k < cut.len() && cut[k as int];
    let full = end > 0 && st.map.objects.len() >= end;
    let st1 = ParserModel { ncand: st.ncand + 1, ..st };
    if full || excluded {
        st1
    } else {
        ParserModel { map: add_object(st.map, hit_object(parts, st.map.mode)), ..st1 }
    }
}

/// What one line of the text does to the reader.
pub open spec fn line_step(
    st: ParserModel,
    line: Seq<char>,
    mode_override: i32,
    end: i32,
    cut: Seq<bool>,
) -> Result<ParserModel, i32> {
    let t = trim(line);
    if is_skipped(t) {
        Ok(st)
    } else if is_header(t) {
        Ok(ParserModel { section: header_name(t), ..st })
    } else if st.section.len() == 0 {
        Ok(ParserModel { map: format_line(st.map, t), ..st })
    } else if st.section == "General"@ {
        match general_line(st.map, t, mode_override) {
            Ok(m) => Ok(ParserModel { map: m, ..st }),
            Err(e) => Err(e),
        }
    } else if st.section == "Metadata"@ {
        Ok(ParserModel { map: metadata_line(st.map, t), ..st })
    } else if st.section == "Difficulty"@ {
        Ok(ParserModel { map: difficulty_line(st.map, t), ..st })
    } else if st.section == "TimingPoints"@ {
        Ok(ParserModel { map: timing_line(st.map, t), ..st })
    } else if st.section == "HitObjects"@ {
        let parts = split(t, ',');
        if parts.len() < 5 {
            Ok(st)
        } else {
            Ok(object_line(st, parts, end, cut))
        }
    } else {
        Ok(st)
    }
}

/// The reader after the given lines, or the error that stopped it.
pub open spec fn run_lines(lines: Seq<Seq<char>>, mode_override: i32, end: i32, cut: Seq<bool>) -> Result<
    ParserModel,
    i32,
>
    decreases lines.len(),
{
    if lines.len() == 0 {
        Ok(initial_parser())
    } else {
        match run_lines(lines.drop_last(), mode_override, end, cut) {
            Ok(st) => line_step(st, lines.last(), mode_override, end, cut),
            Err(e) => Err(e),
        }
    }
}

/// The beatmap once all lines are read: unicode names fall back to the plain
/// ones, and the objects are counted.
pub open spec fn finish(m: BeatmapModel) -> BeatmapModel {
    let others = if m.mode == MODE_TAIKO {
        m.nspinners + m.nsliders
    } else {
        0
    };
    BeatmapModel {
        title_unicode: if m.title_unicode.len() == 0 {
            m.title
        } else {
            m.title_unicode
        },
        artist_unicode: if m.artist_unicode.len() == 0 {
            m.artist
        } else {
            m.artist_unicode
        },
        nobjects: m.objects.len(),
        base_max_combo: (m.objects.len() - others) as nat,
        ..m
    }
}

/// The beatmap that a text describes, line by line.
pub open spec fn parse_text_spec(data: Seq<char>, mode_override: i32, end: i32, cut: Seq<bool>) -> Result<
    BeatmapModel,
    i32,
> {
    match run_lines(split(data, '\n'), mode_override, end, cut) {
        Ok(st) => Ok(finish(st.map)),
        Err(e) => Err(e),
    }
}

/// Counts that stay consistent while lines are read.
pub open spec fn counts_ok(st: ParserModel) -> bool {
    &&& st.map.ncircles + st.map.nsliders + st.map.nspinners <= st.map.objects.len()
    &&& st.map.objects.len() <= st.ncand
}


/// Where a scan for hit object times stands: the current section and the
/// time fields of the hit object lines met so far.
pub struct ScanModel {
    pub section: Seq<char>,
    pub times: Seq<Seq<char>>,
}

/// What one line does to a scan for hit object times.
pub open spec fn scan_step(sc: ScanModel, line: Seq<char>) -> ScanModel {
    let t = trim(line);
    if is_skipped(t) {
        sc
    } else if is_header(t) {
        ScanModel { section: header_name(t), ..sc }
    } else if sc.section == "HitObjects"@ && split(t, ',').len() >= 5 {
        ScanModel { times: sc.times.push(split(t, ',')[2]), ..sc }
    } else {
        sc
    }
}

/// The scan after the given lines.
pub open spec fn scan_lines(lines: Seq<Seq<char>>) -> ScanModel
    decreases lines.len(),
{
    if lines.len() == 0 {
        ScanModel { section: Seq::empty(), times: Seq::empty() }
    } else {
        scan_step(scan_lines(lines.drop_last()), lines.last())
    }
}

/// The time field of every hit object line (one with at least five fields),
/// in the order of the text.
pub open spec fn hit_object_times_spec(data: Seq<char>) -> Seq<Seq<char>> {
    scan_lines(split(data, '\n')).times
}

/// The hit sounds of an object, one for each edge of a taiko slider that
/// has an edge sound field.
pub open spec fn sound_types_spec(o: HitObjectModel) -> Seq<i32> {
    match o.sound {
        None => Seq::empty(),
        Some(s) => match o.edge_sounds {
            None => seq![s],
            Some(e) => Seq::new(
                (o.repetitions + 1) as nat,
                |i: int|
                    if i < e.len() && e[i] is Some {
                        e[i]->0
                    } else {
                        s
                    },
            ),
        },
    }
}

proof fn lemma_section_names_differ()
    ensures
        "HitObjects"@.len() > 0,
        "General"@ != "HitObjects"@,
        "Metadata"@ != "HitObjects"@,
        "Difficulty"@ != "HitObjects"@,
        "TimingPoints"@ != "HitObjects"@,
{
    reveal_strlit("HitObjects");
    reveal_strlit("General");
    reveal_strlit("Metadata");
    reveal_strlit("Difficulty");
    reveal_strlit("TimingPoints");
    assert("Difficulty"@[0] != "HitObjects"@[0]);
    assert("TimingPoints"@.len() != "HitObjects"@.len());
}

/// The reader and a scan for hit object times meet the same hit object
/// lines: after any lines that read without error, the reader has met as
/// many as the scan has times, so `cut[k]` and the `k`-th time speak of the
/// same line.
pub proof fn lemma_cut_matches_times(lines: Seq<Seq<char>>, mode_override: i32, end: i32, cut: Seq<bool>)
    ensures
        run_lines(lines, mode_override, end, cut) matches Ok(st) ==> st.section == scan_lines(
            lines,
        ).section && st.ncand == scan_lines(lines).times.len(),
    decreases lines.len(),
{
    if lines.len() > 0 {
        lemma_cut_matches_times(lines.drop_last(), mode_override, end, cut);
        lemma_section_names_differ();
    }
}

/// The kind that an object is counted as: circle, spinner, slider, or none,
/// tested in that order as the object's type bits are.
pub open spec fn kind_of(o: HitObjectModel) -> int {
    if o.obj_type & OBJ_CIRCLE != 0 {
        0
    } else if o.obj_type & OBJ_SPINNER != 0 {
        1
    } else if o.obj_type & OBJ_SLIDER != 0 {
        2
    } else {
        3
    }
}

/// How many of `objs` are of the given kind.
pub open spec fn count_kind(objs: Seq<HitObjectModel>, k: int) -> int
    decreases objs.len(),
{
    if objs.len() == 0 {
        0
    } else {
        count_kind(objs.drop_last(), k) + if kind_of(objs.last()) == k {
            1int
        } else {
            0int
        }
    }
}

proof fn lemma_count_kind_bound(objs: Seq<HitObjectModel>)
    ensures
        0 <= count_kind(objs, 0),
        0 <= count_kind(objs, 1),
        0 <= count_kind(objs, 2),
        count_kind(objs, 0) + count_kind(objs, 1) + count_kind(objs, 2) <= objs.len(),
    decreases objs.len(),
{
    if objs.len() > 0 {
        lemma_count_kind_bound(objs.drop_last());
    }
}

/// What holds of the reader after every line.
pub open spec fn reader_inv(st: ParserModel, end: i32) -> bool {
    &&& st.map.mode == MODE_STD || st.map.mode == MODE_TAIKO
    &&& end > 0 ==> st.map.objects.len() <= end
    &&& st.map.ncircles == count_kind(st.map.objects, 0)
    &&& st.map.nspinners == count_kind(st.map.objects, 1)
    &&& st.map.nsliders == count_kind(st.map.objects, 2)
    &&& st.map.objects.len() <= st.ncand
}

proof fn lemma_reader_inv(lines: Seq<Seq<char>>, mode_override: i32, end: i32, cut: Seq<bool>)
    ensures
        run_lines(lines, mode_override, end, cut) matches Ok(st) ==> reader_inv(st, end)
            && st.ncand <= lines.len(),
    decreases lines.len(),
{
    if lines.len() > 0 {
        let prev = lines.drop_last();
        lemma_reader_inv(prev, mode_override, end, cut);
        if let Ok(st) = run_lines(prev, mode_override, end, cut) {
            lemma_count_kind_bound(st.map.objects);
            let t = trim(lines.last());
            if !is_skipped(t) && !is_header(t) && st.section.len() != 0 && st.section
                != "General"@ && st.section != "Metadata"@ && st.section != "Difficulty"@
                && st.section != "TimingPoints"@ && st.section == "HitObjects"@ {
                let parts = split(t, ',');
                if parts.len() >= 5 {
                    let o = hit_object(parts, st.map.mode);
                    let objs = st.map.objects.push(o);
                    assert(objs.drop_last() =~= st.map.objects);
                }
            }
        }
    }
}

/// What a beatmap read from any text satisfies: its mode is osu!standard
/// or osu!taiko; it counts its objects, and its circles, spinners and
/// sliders, exactly; `end > 0` cuts it to at most `end` objects; its combo
/// from objects is all of them, less the sliders and spinners in taiko; and
/// a unicode title or artist that the text leaves out or leaves empty is the
/// plain one, while one that it gives is kept.
pub proof fn lemma_parse_text_laws(data: Seq<char>, mode_override: i32, end: i32, cut: Seq<bool>)
    ensures
        parse_text_spec(data, mode_override, end, cut) matches Ok(m) ==> {
            &&& m.mode == MODE_STD || m.mode == MODE_TAIKO
            &&& m.nobjects == m.objects.len()
            &&& end > 0 ==> m.nobjects <= end
            &&& m.ncircles == count_kind(m.objects, 0)
            &&& m.nspinners == count_kind(m.objects, 1)
            &&& m.nsliders == count_kind(m.objects, 2)
            &&& m.base_max_combo == m.nobjects - (if m.mode == MODE_TAIKO {
                m.nsliders + m.nspinners
            } else {
                0
            })
            &&& m.base_max_combo <= m.nobjects
            &&& run_lines(split(data, '\n'), mode_override, end, cut) matches Ok(st) && m.title
                == st.map.title && m.artist == st.map.artist && m.title_unicode == (if st.map.title_unicode.len()
                == 0 {
                m.title
            } else {
                st.map.title_unicode
            }) && m.artist_unicode == (if st.map.artist_unicode.len() == 0 {
                m.artist
            } else {
                st.map.artist_unicode
            })
        },
{
    let lines = split(data, '\n');
    lemma_reader_inv(lines, mode_override, end, cut);
    if let Ok(st) = run_lines(lines, mode_override, end, cut) {
        lemma_count_kind_bound(st.map.objects);
    }
}

proof fn lemma_uncut_objects_follow_times(lines: Seq<Seq<char>>, mode_override: i32, end: i32, cut: Seq<bool>)
    requires
        cut.len() == 0,
        end <= 0,
    ensures
        run_lines(lines, mode_override, end, cut) matches Ok(st) ==> st.map.objects.map_values(
            |o: HitObjectModel| o.time,
        ) == scan_lines(lines).times,
    decreases lines.len(),
{
    if lines.len() > 0 {
        let prev = lines.drop_last();
        lemma_uncut_objects_follow_times(prev, mode_override, end, cut);
        lemma_cut_matches_times(prev, mode_override, end, cut);
        lemma_section_names_differ();
        if let Ok(st) = run_lines(prev, mode_override, end, cut) {
            let t = trim(lines.last());
            let parts = split(t, ',');
            if !is_skipped(t) && !is_header(t) && st.section == "HitObjects"@ && parts.len() >= 5 {
                let o = hit_object(parts, st.map.mode);
                assert(st.map.objects.push(o).map_values(|o: HitObjectModel| o.time)
                    =~= st.map.objects.map_values(|o: HitObjectModel| o.time).push(parts[2]));
            }
        }
    }
}

/// With nothing cut and no `end`, every hit object line of the text becomes
/// an object, in order: the objects' times are exactly what
/// `hit_object_times` gives.
pub proof fn lemma_uncut_parse_keeps_every_object(data: Seq<char>, mode_override: i32, end: i32, cut: Seq<bool>)
    requires
        cut.len() == 0,
        end <= 0,
    ensures
        parse_text_spec(data, mode_override, end, cut) matches Ok(m) ==> m.objects.map_values(
            |o: HitObjectModel| o.time,
        ) == hit_object_times_spec(data),
{
    lemma_uncut_objects_follow_times(split(data, '\n'), mode_override, end, cut);
}

/// The objects that stay of `all`, the objects of every hit object line in
/// order: the `k`-th is left out where `cut[k]` holds, and once `end > 0`
/// objects are taken no more are.
pub open spec fn select_objects(all: Seq<HitObjectModel>, cut: Seq<bool>, end: i32) -> Seq<
    HitObjectModel,
>
    decreases all.len(),
{
    if all.len() == 0 {
        Seq::empty()
    } else {
        let prev = select_objects(all.drop_last(), cut, end);
        let k = all.len() - 1;
        if (k < cut.len() && cut[k]) || (end > 0 && prev.len() >= end) {
            prev
        } else {
            prev.push(all.last())
        }
    }
}

/// Two reader states, one with a cut and an `end` and one with neither, after
/// the same lines: they stand in the same section, have met the same hit
/// object lines, and differ only in which objects they took.
pub open spec fn runs_agree(
    r: Result<ParserModel, i32>,
    r0: Result<ParserModel, i32>,
    end: i32,
    cut: Seq<bool>,
) -> bool {
    match (r, r0) {
        (Ok(st), Ok(st0)) => {
            &&& st.section == st0.section
            &&& st.ncand == st0.ncand
            &&& st0.map.objects.len() == st0.ncand
            &&& st.map.objects == select_objects(st0.map.objects, cut, end)
            &&& st.map == BeatmapModel {
                objects: st.map.objects,
                ncircles: st.map.ncircles,
                nsliders: st.map.nsliders,
                nspinners: st.map.nspinners,
                ..st0.map
            }
        },
        (Err(e), Err(e0)) => e == e0,
        _ => false,
    }
}

proof fn lemma_run_selects(lines: Seq<Seq<char>>, mode_override: i32, end: i32, cut: Seq<bool>)
    ensures
        runs_agree(
            run_lines(lines, mode_override, end, cut),
            run_lines(lines, mode_override, 0, Seq::empty()),
            end,
            cut,
        ),
    decreases lines.len(),
{
    if lines.len() > 0 {
        let prev = lines.drop_last();
        lemma_run_selects(prev, mode_override, end, cut);
        let none: Seq<bool> = Seq::empty();
        if let (Ok(st), Ok(st0)) = (
            run_lines(prev, mode_override, end, cut),
            run_lines(prev, mode_override, 0, none),
        ) {
            let t = trim(lines.last());
            let parts = split(t, ',');
            if !is_skipped(t) && !is_header(t) && st.section == "HitObjects"@ && parts.len() >= 5 {
                lemma_section_names_differ();
                let o = hit_object(parts, st0.map.mode);
                let all = st0.map.objects.push(o);
                assert(all.drop_last() =~= st0.map.objects);
                assert(all.last() == o);
            }
        }
    }
}

/// Reading with a cut and an `end` takes, of the objects that reading with
/// neither takes (one for each hit object line, in order), exactly those
/// that `select_objects` keeps, and reads everything else alike: both
/// readings fail with the same error or both succeed.
pub proof fn lemma_parse_selects(data: Seq<char>, mode_override: i32, end: i32, cut: Seq<bool>)
    ensures
        match (
            parse_text_spec(data, mode_override, end, cut),
            parse_text_spec(data, mode_override, 0, Seq::empty()),
        ) {
            (Ok(m), Ok(full)) => {
                &&& m.objects == select_objects(full.objects, cut, end)
                &&& full.objects.map_values(|o: HitObjectModel| o.time) == hit_object_times_spec(
                    data,
                )
                &&& m == BeatmapModel {
                    objects: m.objects,
                    ncircles: m.ncircles,
                    nsliders: m.nsliders,
                    nspinners: m.nspinners,
                    nobjects: m.nobjects,
                    base_max_combo: m.base_max_combo,
                    ..full
                }
            },
            (Err(e), Err(e0)) => e == e0,
            _ => false,
        },
{
    let lines = split(data, '\n');
    lemma_run_selects(lines, mode_override, end, cut);
    lemma_uncut_objects_follow_times(lines, mode_override, 0, Seq::empty());
}

/// With `end > 0`, the objects kept are exactly the first `end` of those
/// that the cut alone leaves (all of them where there are fewer).
pub proof fn lemma_select_end(all: Seq<HitObjectModel>, cut: Seq<bool>, end: i32)
    requires
        end > 0,
    ensures
        select_objects(all, cut, end) == select_objects(all, cut, 0).take(
            if select_objects(all, cut, 0).len() < end {
                select_objects(all, cut, 0).len() as int
            } else {
                end as int
            },
        ),
    decreases all.len(),
{
    let kept = select_objects(all, cut, 0);
    if all.len() == 0 {
        assert(kept.take(0) =~= kept);
    } else {
        lemma_select_end(all.drop_last(), cut, end);
        let prev0 = select_objects(all.drop_last(), cut, 0);
        if kept.len() < end {
            assert(kept.take(kept.len() as int) =~= kept);
            assert(prev0.take(prev0.len() as int) =~= prev0);
        } else if prev0.len() >= end {
            assert(prev0.push(all.last()).take(end as int) =~= prev0.take(end as int));
        } else {
            assert(prev0.take(prev0.len() as int) =~= prev0);
            assert(kept.take(end as int) =~= kept);
        }
    }
}

/// Where nothing is cut, the cut leaves every object.
pub proof fn lemma_select_uncut(all: Seq<HitObjectModel>, cut: Seq<bool>)
    requires
        forall|k: int| 0 <= k < cut.len() ==> !cut[k],
    ensures
        select_objects(all, cut, 0) == all,
    decreases all.len(),
{
    if all.len() > 0 {
        lemma_select_uncut(all.drop_last(), cut);
        assert(all.drop_last().push(all.last()) =~= all);
    }
}

/// With nothing cut and `end > 0`, reading keeps exactly the first `end`
/// objects of the text (all of them where there are fewer).
pub proof fn lemma_parse_end_keeps_first(data: Seq<char>, mode_override: i32, end: i32, cut: Seq<bool>)
    requires
        end > 0,
        forall|k: int| 0 <= k < cut.len() ==> !cut[k],
    ensures
        match (
            parse_text_spec(data, mode_override, end, cut),
            parse_text_spec(data, mode_override, 0, Seq::empty()),
        ) {
            (Ok(m), Ok(full)) => m.objects == full.objects.take(
                if full.objects.len() < end {
                    full.objects.len() as int
                } else {
                    end as int
                },
            ),
            (Err(e), Err(e0)) => e == e0,
            _ => false,
        },
{
    lemma_parse_selects(data, mode_override, end, cut);
    if let Ok(full) = parse_text_spec(data, mode_override, 0, Seq::empty()) {
        lemma_select_end(full.objects, cut, end);
        lemma_select_uncut(full.objects, cut);
    }
}

/// Where a scan for hit object lines stands: the current section and the
/// comma-separated fields of each hit object line met so far.
pub struct FieldScan {
    pub section: Seq<char>,
    pub fields: Seq<Seq<Seq<char>>>,
}

/// The scan for hit object lines after the given lines: a hit object line
/// is a line of the `[HitObjects]` section with at least five fields.
pub open spec fn field_scan(lines: Seq<Seq<char>>) -> FieldScan
    decreases lines.len(),
{
    if lines.len() == 0 {
        FieldScan { section: Seq::empty(), fields: Seq::empty() }
    } else {
        let sc = field_scan(lines.drop_last());
        let t = trim(lines.last());
        if is_skipped(t) {
            sc
        } else if is_header(t) {
            FieldScan { section: header_name(t), ..sc }
        } else if sc.section == "HitObjects"@ && split(t, ',').len() >= 5 {
            FieldScan { fields: sc.fields.push(split(t, ',')), ..sc }
        } else {
            sc
        }
    }
}

/// The fields of every hit object line of a text, in order.
pub open spec fn hit_object_fields(data: Seq<char>) -> Seq<Seq<Seq<char>>> {
    field_scan(split(data, '\n')).fields
}

/// The object read from a hit object line with fields `p`: its type is the
/// fourth field (a circle where it does not read), its time the third
/// field, and, where it has a position (a circle, or a slider with at least
/// seven fields), x is the first field and y the second; such a slider
/// repeats as often as its seventh field says (once where it does not
/// read) and has the eighth field, where present, as its length.
pub open spec fn object_from_fields(o: HitObjectModel, p: Seq<Seq<char>>) -> bool {
    let t = o.obj_type;
    let slider = t & OBJ_CIRCLE == 0 && t & OBJ_SPINNER == 0 && t & OBJ_SLIDER != 0 && p.len() >= 7;
    &&& t == match parse_int_spec(p[3]) {
        Some(v) => v,
        None => OBJ_CIRCLE,
    }
    &&& o.time == p[2]
    &&& o.pos == if t & OBJ_CIRCLE != 0 || slider {
        Some((p[0], p[1]))
    } else {
        None
    }
    &&& o.repetitions == if slider {
        match parse_int_spec(p[6]) {
            Some(v) => v,
            None => 1,
        }
    } else {
        0
    }
    &&& o.distance == if slider && p.len() > 7 {
        Some(p[7])
    } else {
        None
    }
}

proof fn lemma_objects_follow_field_lines(lines: Seq<Seq<char>>, mode_override: i32)
    ensures
        run_lines(lines, mode_override, 0, Seq::empty()) matches Ok(st) ==> {
            &&& st.section == field_scan(lines).section
            &&& st.map.objects.len() == field_scan(lines).fields.len()
            &&& forall|i: int|
                0 <= i < st.map.objects.len() ==> object_from_fields(
                    #[trigger] st.map.objects[i],
                    field_scan(lines).fields[i],
                )
        },
    decreases lines.len(),
{
    if lines.len() > 0 {
        let prev = lines.drop_last();
        let none: Seq<bool> = Seq::empty();
        lemma_objects_follow_field_lines(prev, mode_override);
        lemma_section_names_differ();
        if let Ok(st) = run_lines(prev, mode_override, 0, none) {
            let t = trim(lines.last());
            let parts = split(t, ',');
            if !is_skipped(t) && !is_header(t) && st.section == "HitObjects"@ && parts.len() >= 5 {
                let o = hit_object(parts, st.map.mode);
                let objs = st.map.objects.push(o);
                let fs = field_scan(prev).fields.push(parts);
                assert forall|i: int| 0 <= i < objs.len() implies object_from_fields(
                    #[trigger] objs[i],
                    fs[i],
                ) by {
                    if i < objs.len() - 1 {
                        assert(objs[i] == st.map.objects[i]);
                        assert(fs[i] == field_scan(prev).fields[i]);
                    }
                }
            }
        }
    }
}

/// Every object read from a text comes from a hit object line, in order:
/// with nothing cut and no `end`, the `i`-th object has the time of the
/// `i`-th hit object line (its third field) and, where it has a position,
/// x from that line's first field and y from its second, whatever the
/// object's kind.
pub proof fn lemma_objects_follow_fields(data: Seq<char>, mode_override: i32)
    ensures
        parse_text_spec(data, mode_override, 0, Seq::empty()) matches Ok(m) ==> {
            &&& m.objects.len() == hit_object_fields(data).len()
            &&& forall|i: int|
                0 <= i < m.objects.len() ==> object_from_fields(
                    #[trigger] m.objects[i],
                    hit_object_fields(data)[i],
                )
        },
{
    lemma_objects_follow_field_lines(split(data, '\n'), mode_override);
}

/// The value that a `[Metadata]` key names, where it names one.
pub open spec fn metadata_value(m: BeatmapModel, key: Seq<char>) -> Option<Seq<char>> {
    if key == "Title"@ {
        Some(m.title)
    } else if key == "TitleUnicode"@ {
        Some(m.title_unicode)
    } else if key == "Artist"@ {
        Some(m.artist)
    } else if key == "ArtistUnicode"@ {
        Some(m.artist_unicode)
    } else if key == "Creator"@ {
        Some(m.creator)
    } else if key == "Version"@ {
        Some(m.version)
    } else {
        None
    }
}

/// The value that a `[Difficulty]` key names, where it names one.
pub open spec fn difficulty_value(m: BeatmapModel, key: Seq<char>) -> Option<Option<Seq<char>>> {
    if key == "CircleSize"@ {
        Some(m.cs)
    } else if key == "OverallDifficulty"@ {
        Some(m.od)
    } else if key == "ApproachRate"@ {
        Some(m.ar)
    } else if key == "HPDrainRate"@ {
        Some(m.hp)
    } else if key == "SliderMultiplier"@ {
        Some(m.sv)
    } else if key == "SliderTickRate"@ {
        Some(m.tick_rate)
    } else {
        None
    }
}

/// A `[Metadata]` line `key: value` sets the value that the key names, and
/// only that one, to the trimmed value; a line without `:` changes nothing.
pub proof fn lemma_metadata_line_sets(m: BeatmapModel, t: Seq<char>, key: Seq<char>)
    ensures
        match split_once(t, ':') {
            Some((n, v)) => metadata_value(metadata_line(m, t), key) == if key == trim(n)
                && (metadata_value(m, key) is Some) {
                Some(trim(v))
            } else {
                metadata_value(m, key)
            },
            None => metadata_line(m, t) == m,
        },
        metadata_line(m, t) == (BeatmapModel {
            title: metadata_line(m, t).title,
            title_unicode: metadata_line(m, t).title_unicode,
            artist: metadata_line(m, t).artist,
            artist_unicode: metadata_line(m, t).artist_unicode,
            creator: metadata_line(m, t).creator,
            version: metadata_line(m, t).version,
            ..m
        }),
{
    reveal_strlit("Title");
    assert("Title"@ =~= seq!['T', 'i', 't', 'l', 'e']);
    reveal_strlit("TitleUnicode");
    assert("TitleUnicode"@ =~= seq!['T', 'i', 't', 'l', 'e', 'U', 'n', 'i', 'c', 'o', 'd', 'e']);
    reveal_strlit("Artist");
    assert("Artist"@ =~= seq!['A', 'r', 't', 'i', 's', 't']);
    reveal_strlit("ArtistUnicode");
    assert("ArtistUnicode"@ =~= seq!['A', 'r', 't', 'i', 's', 't', 'U', 'n', 'i', 'c', 'o', 'd', 'e']);
    reveal_strlit("Creator");
    assert("Creator"@ =~= seq!['C', 'r', 'e', 'a', 't', 'o', 'r']);
    reveal_strlit("Version");
    assert("Version"@ =~= seq!['V', 'e', 'r', 's', 'i', 'o', 'n']);
}

/// A `[Difficulty]` line `key: value` sets the setting that the key names,
/// and only that one, to the trimmed value; a line without `:` changes
/// nothing.
pub proof fn lemma_difficulty_line_sets(m: BeatmapModel, t: Seq<char>, key: Seq<char>)
    ensures
        match split_once(t, ':') {
            Some((n, v)) => difficulty_value(difficulty_line(m, t), key) == if key == trim(n)
                && (difficulty_value(m, key) is Some) {
                Some(Some(trim(v)))
            } else {
                difficulty_value(m, key)
            },
            None => difficulty_line(m, t) == m,
        },
        difficulty_line(m, t) == (BeatmapModel {
            cs: difficulty_line(m, t).cs,
            od: difficulty_line(m, t).od,
            ar: difficulty_line(m, t).ar,
            hp: difficulty_line(m, t).hp,
            sv: difficulty_line(m, t).sv,
            tick_rate: difficulty_line(m, t).tick_rate,
            ..m
        }),
{
    reveal_strlit("CircleSize");
    assert("CircleSize"@ =~= seq!['C', 'i', 'r', 'c', 'l', 'e', 'S', 'i', 'z', 'e']);
    reveal_strlit("OverallDifficulty");
    assert("OverallDifficulty"@ =~= seq!['O', 'v', 'e', 'r', 'a', 'l', 'l', 'D', 'i', 'f', 'f', 'i', 'c', 'u', 'l', 't', 'y']);
    reveal_strlit("ApproachRate");
    assert("ApproachRate"@ =~= seq!['A', 'p', 'p', 'r', 'o', 'a', 'c', 'h', 'R', 'a', 't', 'e']);
    reveal_strlit("HPDrainRate");
    assert("HPDrainRate"@ =~= seq!['H', 'P', 'D', 'r', 'a', 'i', 'n', 'R', 'a', 't', 'e']);
    reveal_strlit("SliderMultiplier");
    assert("SliderMultiplier"@ =~= seq!['S', 'l', 'i', 'd', 'e', 'r', 'M', 'u', 'l', 't', 'i', 'p', 'l', 'i', 'e', 'r']);
    reveal_strlit("SliderTickRate");
    assert("SliderTickRate"@ =~= seq!['S', 'l', 'i', 'd', 'e', 'r', 'T', 'i', 'c', 'k', 'R', 'a', 't', 'e']);
}

/// A `[TimingPoints]` line with at least two fields adds one timing point,
/// whose time is the first field and whose beat length the second; a line
/// with fewer changes nothing.
pub proof fn lemma_timing_line_adds(m: BeatmapModel, t: Seq<char>)
    ensures
        split(t, ',').len() >= 2 ==> {
            let after = timing_line(m, t);
            &&& after.timing_points.len() == m.timing_points.len() + 1
            &&& after.timing_points.drop_last() == m.timing_points
            &&& after.timing_points.last().time == split(t, ',')[0]
            &&& after.timing_points.last().ms_per_beat == split(t, ',')[1]
            &&& after == (BeatmapModel { timing_points: after.timing_points, ..m })
        },
        split(t, ',').len() < 2 ==> timing_line(m, t) == m,
{
    if split(t, ',').len() >= 2 {
        let after = timing_line(m, t);
        assert(after.timing_points.drop_last() =~= m.timing_points);
    }
}

/// A `[General]` line changes at most the mode and the original mode. A
/// `Mode` line whose value reads as an integer `v` records `v` as the
/// original mode and plays in the override where that is not zero, else in
/// `v`; it is refused with `ERR_NOTIMPLEMENTED` exactly when that mode is
/// neither osu!standard nor osu!taiko. Any other line changes nothing.
pub proof fn lemma_general_line_mode(m: BeatmapModel, t: Seq<char>, mode_override: i32)
    ensures
        general_line(m, t, mode_override) matches Ok(m2) ==> m2 == (BeatmapModel {
            mode: m2.mode,
            original_mode: m2.original_mode,
            ..m
        }),
        general_line(m, t, mode_override) matches Err(e) ==> e == ERR_NOTIMPLEMENTED,
        match split_once(t, ':') {
            Some((n, v)) => if trim(n) == "Mode"@ && parse_int_spec(trim(v)) is Some {
                let x = parse_int_spec(trim(v))->0;
                let played = if mode_override != 0 {
                    mode_override
                } else {
                    x
                };
                &&& (general_line(m, t, mode_override) is Err) == (played != MODE_STD && played
                    != MODE_TAIKO)
                &&& general_line(m, t, mode_override) matches Ok(m2) ==> m2.original_mode == x
                    && m2.mode == played
            } else {
                general_line(m, t, mode_override) == Ok::<BeatmapModel, i32>(m)
            },
            None => general_line(m, t, mode_override) == Ok::<BeatmapModel, i32>(m),
        },
{
}

/// The hit sounds of an object: none without a sound, its one sound
/// without edge sounds, and otherwise one for each edge of the slider
/// (repetitions plus one, for a repetition count of at least -1), the
/// edge's own sound where one was read for it
/// and the object's sound where not.
pub proof fn lemma_sound_types(o: HitObjectModel)
    ensures
        o.sound is None ==> sound_types_spec(o).len() == 0,
        o.sound is Some && o.edge_sounds is None ==> sound_types_spec(o) == seq![o.sound->0],
        o.sound is Some && o.edge_sounds is Some && o.repetitions >= -1 ==> {
            let s = o.sound->0;
            let e = o.edge_sounds->0;
            &&& sound_types_spec(o).len() == o.repetitions + 1
            &&& forall|i: int|
                0 <= i < sound_types_spec(o).len() ==> #[trigger] sound_types_spec(o)[i] == if i
                    < e.len() && e[i] is Some {
                    e[i]->0
                } else {
                    s
                }
        },
{
}

proof fn lemma_run_err_prefix(lines: Seq<Seq<char>>, k: int, mode_override: i32, end: i32, cut: Seq<bool>)
    requires
        0 <= k <= lines.len(),
        run_lines(lines.take(k), mode_override, end, cut) is Err,
    ensures
        run_lines(lines, mode_override, end, cut) == run_lines(lines.take(k), mode_override, end, cut),
    decreases lines.len(),
{
    if k < lines.len() {
        assert(lines.drop_last().take(k) =~= lines.take(k));
        lemma_run_err_prefix(lines.drop_last(), k, mode_override, end, cut);
    } else {
        assert(lines.take(k) =~= lines);
    }
}

// ---------------------------------------------------------------------------
// Executable line readers
// ---------------------------------------------------------------------------

fn read_format_line(m: &mut RawBeatmap, t: &Vec<char>)
    ensures
        final(m)@ == format_line(old(m)@, t@),
{
    match find_lit(t, "file format v") {
        Some(p) => {
            proof {
                lemma_find(t@, "file format v"@);
            }
            let k: usize = "file format v".unicode_len();
            assert(starts_with(t@.skip(p as int), "file format v"@));
            let n: usize = t.len();
            assert(k + p <= n);
            let rest: Vec<char> = subvec(t, p + k, n);
            proof {
                assert(rest@ =~= t@.skip(p + k));
            }
            match parse_int_chars(&rest) {
                Some(v) => {
                    m.format_version = v;
                },
                None => {},
            }
        },
        None => {},
    }
}

fn read_general_line(m: &mut RawBeatmap, t: &Vec<char>, mode_override: i32) -> (r: Result<(), i32>)
    ensures
        match r {
            Ok(()) => general_line(old(m)@, t@, mode_override) == Ok::<BeatmapModel, i32>(final(m)@),
            Err(e) => general_line(old(m)@, t@, mode_override) == Err::<BeatmapModel, i32>(e),
        },
{
    if let Some((name, val)) = split_once_chars(t, ':') {
        let name_t: Vec<char> = trim_chars(&name);
        if eq_lit(&name_t, "Mode") {
            let val_t: Vec<char> = trim_chars(&val);
            if let Some(v) = parse_int_chars(&val_t) {
                let mode: i32 = if mode_override != 0 {
                    mode_override
                } else {
                    v
                };
                if mode != MODE_STD && mode != MODE_TAIKO {
                    return Err(ERR_NOTIMPLEMENTED);
                }
                m.original_mode = v;
                m.mode = mode;
            }
        }
    }
    Ok(())
}

fn read_metadata_line(m: &mut RawBeatmap, t: &Vec<char>)
    ensures
        final(m)@ == metadata_line(old(m)@, t@),
{
    if let Some((name, val)) = split_once_chars(t, ':') {
        let name_t: Vec<char> = trim_chars(&name);
        let val_t: Vec<char> = trim_chars(&val);
        if eq_lit(&name_t, "Title") {
            m.title = chars_to_string(&val_t);
        } else if eq_lit(&name_t, "TitleUnicode") {
            m.title_unicode = chars_to_string(&val_t);
        } else if eq_lit(&name_t, "Artist") {
            m.artist = chars_to_string(&val_t);
        } else if eq_lit(&name_t, "ArtistUnicode") {
            m.artist_unicode = chars_to_string(&val_t);
        } else if eq_lit(&name_t, "Creator") {
            m.creator = chars_to_string(&val_t);
        } else if eq_lit(&name_t, "Version") {
            m.version = chars_to_string(&val_t);
        }
    }
}

fn read_difficulty_line(m: &mut RawBeatmap, t: &Vec<char>)
    ensures
        final(m)@ == difficulty_line(old(m)@, t@),
{
    if let Some((name, val)) = split_once_chars(t, ':') {
        let name_t: Vec<char> = trim_chars(&name);
        let val_t: Vec<char> = trim_chars(&val);
        if eq_lit(&name_t, "CircleSize") {
            m.cs = Some(chars_to_string(&val_t));
        } else if eq_lit(&name_t, "OverallDifficulty") {
            m.od = Some(chars_to_string(&val_t));
        } else if eq_lit(&name_t, "ApproachRate") {
            m.ar = Some(chars_to_string(&val_t));
        } else if eq_lit(&name_t, "HPDrainRate") {
            m.hp = Some(chars_to_string(&val_t));
        } else if eq_lit(&name_t, "SliderMultiplier") {
            m.sv = Some(chars_to_string(&val_t));
        } else if eq_lit(&name_t, "SliderTickRate") {
            m.tick_rate = Some(chars_to_string(&val_t));
        }
    }
}

fn read_timing_line(m: &mut RawBeatmap, t: &Vec<char>)
    ensures
        final(m)@ == timing_line(old(m)@, t@),
{
    let parts: Vec<Vec<char>> = split_chars(t, ',');
    if parts.len() >= 2 {
        let change: bool = if parts.len() >= 7 {
            let c: Vec<char> = trim_chars(&parts[6]);
            c.len() == 0 || !eq_lit(&c, "0")
        } else {
            true
        };
        let tp = RawTimingPoint {
            time: chars_to_string(&parts[0]),
            ms_per_beat: chars_to_string(&parts[1]),
            change: change,
        };
        let ghost old_tps = m.timing_points@;
        m.timing_points.push(tp);
        proof {
            assert(m.timing_points@.map_values(|t: RawTimingPoint| t@) =~= old_tps.map_values(
                |t: RawTimingPoint| t@,
            ).push(tp@));
        }
    }
}

/// The hit sounds read from the `|`-separated edge sound field.
fn read_edge_sounds(field: &Vec<char>) -> (r: Vec<Option<i32>>)
    ensures
        r@ == split(field@, '|').map_values(|p: Seq<char>| parse_int_spec(p)),
{
    let pieces: Vec<Vec<char>> = split_chars(field, '|');
    let n: usize = pieces.len();
    let mut r: Vec<Option<i32>> = Vec::new();
    let mut i: usize = 0;
    while i < n
        invariant
            n == pieces@.len(),
            views(pieces@) == split(field@, '|'),
            i <= n,
            r@ =~= views(pieces@).take(i as int).map_values(|p: Seq<char>| parse_int_spec(p)),
        decreases n - i,
    {
        let x: Option<i32> = parse_int_chars(&pieces[i]);
        r.push(x);
        proof {
            assert(views(pieces@)[i as int] == pieces@[i as int]@);
        }
        i += 1;
    }
    proof {
        assert(views(pieces@).take(n as int) =~= views(pieces@));
    }
    r
}

fn read_hit_object(parts: &Vec<Vec<char>>, mode: i32) -> (o: RawHitObject)
    requires
        parts@.len() >= 5,
    ensures
        o@ == hit_object(views(parts@), mode),
{
    let ghost ps = views(parts@);
    proof {
        assert(forall|i: int| 0 <= i < parts@.len() ==> ps[i] == #[trigger] parts@[i]@);
    }
    let obj_type: i32 = match parse_int_chars(&parts[3]) {
        Some(v) => v,
        None => OBJ_CIRCLE,
    };
    let sound: Option<i32> = if mode == MODE_TAIKO {
        Some(
            match parse_int_chars(&parts[4]) {
                Some(v) => v,
                None => SOUND_NORMAL,
            },
        )
    } else {
        None
    };
    let mut o = RawHitObject {
        time: chars_to_string(&parts[2]),
        obj_type: obj_type,
        pos: None,
        repetitions: 0,
        distance: None,
        sound: sound,
        edge_sounds: None,
    };
    if obj_type & OBJ_CIRCLE != 0 {
        o.pos = Some((chars_to_string(&parts[0]), chars_to_string(&parts[1])));
    } else if obj_type & OBJ_SPINNER != 0 {
    } else if obj_type & OBJ_SLIDER != 0 && parts.len() >= 7 {
        o.pos = Some((chars_to_string(&parts[0]), chars_to_string(&parts[1])));
        o.repetitions = match parse_int_chars(&parts[6]) {
            Some(v) => v,
            None => 1,
        };
        if parts.len() > 7 {
            o.distance = Some(chars_to_string(&parts[7]));
        }
        if mode == MODE_TAIKO && parts.len() > 8 {
            let f: Vec<char> = trim_chars(&parts[8]);
            if f.len() > 0 {
                o.edge_sounds = Some(read_edge_sounds(&parts[8]));
            }
        }
    }
    o
}

struct Parser {
    section: Vec<char>,
    ncand: usize,
    map: RawBeatmap,
}

impl View for Parser {
    type V = ParserModel;

    closed spec fn view(&self) -> ParserModel {
        ParserModel { section: self.section@, ncand: self.ncand as nat, map: self.map@ }
    }
}

fn new_raw_beatmap() -> (m: RawBeatmap)
    ensures
        m@ == initial_model(),
{
    let m = RawBeatmap {
        format_version: 0,
        mode: MODE_STD,
        original_mode: MODE_STD,
        title: String::new(),
        title_unicode: String::new(),
        artist: String::new(),
        artist_unicode: String::new(),
        creator: String::new(),
        version: String::new(),
        ncircles: 0,
        nsliders: 0,
        nspinners: 0,
        nobjects: 0,
        base_max_combo: 0,
        cs: None,
        od: None,
        ar: None,
        hp: None,
        sv: None,
        tick_rate: None,
        timing_points: Vec::new(),
        objects: Vec::new(),
    };
    proof {
        assert(m@.timing_points =~= Seq::<TimingPointModel>::empty());
        assert(m@.objects =~= Seq::<HitObjectModel>::empty());
    }
    m
}

fn read_object_line(st: &mut Parser, parts: &Vec<Vec<char>>, end: i32, cut: &Vec<bool>)
    requires
        parts@.len() >= 5,
        counts_ok(old(st)@),
        old(st)@.ncand < usize::MAX,
    ensures
        final(st)@ == object_line(old(st)@, views(parts@), end, cut@),
        counts_ok(final(st)@),
{
    let k: usize = st.ncand;
    let excluded: bool = k < cut.len() && cut[k];
    st.ncand = k + 1;
    if (end > 0 && st.map.objects.len() >= end as usize) || excluded {
        return;
    }
    let o: RawHitObject = read_hit_object(parts, st.map.mode);
    let t: i32 = o.obj_type;
    let ghost old_objs = st.map.objects@;
    st.map.objects.push(o);
    proof {
        assert(st.map.objects@.map_values(|o: RawHitObject| o@) =~= old_objs.map_values(
            |o: RawHitObject| o@,
        ).push(o@));
    }
    if t & OBJ_CIRCLE != 0 {
        st.map.ncircles = st.map.ncircles + 1;
    } else if t & OBJ_SPINNER != 0 {
        st.map.nspinners = st.map.nspinners + 1;
    } else if t & OBJ_SLIDER != 0 {
        st.map.nsliders = st.map.nsliders + 1;
    }
}

fn read_line(st: &mut Parser, line: &Vec<char>, mode_override: i32, end: i32, cut: &Vec<bool>) -> (r:
    Result<(), i32>)
    requires
        counts_ok(old(st)@),
        old(st)@.ncand < usize::MAX,
    ensures
        match r {
            Ok(()) => {
                &&& line_step(old(st)@, line@, mode_override, end, cut@) == Ok::<ParserModel, i32>(
                    final(st)@,
                )
                &&& counts_ok(final(st)@)
                &&& final(st)@.ncand <= old(st)@.ncand + 1
            },
            Err(e) => line_step(old(st)@, line@, mode_override, end, cut@) == Err::<ParserModel, i32>(
                e,
            ),
        },
{
    let t: Vec<char> = trim_chars(line);
    let n: usize = t.len();
    if n == 0 || (n >= 2 && t[0] == '/' && t[1] == '/') || t[0] == '_' {
        proof {
            if n >= 2 && t@[0] == '/' && t@[1] == '/' {
                assert(t@.take(2) =~= seq!['/', '/']);
            }
        }
        return Ok(());
    }
    proof {
        if n >= 2 && t@.take(2) == seq!['/', '/'] {
            assert(t@.take(2)[0] == t@[0]);
            assert(t@.take(2)[1] == t@[1]);
        }
    }
    if t[0] == '[' && t[n - 1] == ']' {
        let inner: Vec<char> = subvec(&t, 1, n - 1);
        st.section = trim_chars(&inner);
        return Ok(());
    }
    if st.section.len() == 0 {
        read_format_line(&mut st.map, &t);
        return Ok(());
    }
    if eq_lit(&st.section, "General") {
        return read_general_line(&mut st.map, &t, mode_override);
    }
    if eq_lit(&st.section, "Metadata") {
        read_metadata_line(&mut st.map, &t);
        return Ok(());
    }
    if eq_lit(&st.section, "Difficulty") {
        read_difficulty_line(&mut st.map, &t);
        return Ok(());
    }
    if eq_lit(&st.section, "TimingPoints") {
        read_timing_line(&mut st.map, &t);
        return Ok(());
    }
    if eq_lit(&st.section, "HitObjects") {
        let parts: Vec<Vec<char>> = split_chars(&t, ',');
        if parts.len() < 5 {
            return Ok(());
        }
        read_object_line(st, &parts, end, cut);
    }
    Ok(())
}

fn finish_map(m: &mut RawBeatmap)
    requires
        old(m)@.nsliders + old(m)@.nspinners <= old(m)@.objects.len(),
    ensures
        final(m)@ == finish(old(m)@),
{
    if m.title_unicode.as_str().is_empty() {
        m.title_unicode = m.title.clone();
    }
    if m.artist_unicode.as_str().is_empty() {
        m.artist_unicode = m.artist.clone();
    }
    let n: usize = m.objects.len();
    m.nobjects = n;
    if m.mode == MODE_TAIKO {
        m.base_max_combo = n - (m.nspinners + m.nsliders);
    } else {
        m.base_max_combo = n;
    }
}

/// Reads the text of a beatmap (a `.osu` file) line by line.
///
/// `cut[k]`, where it is present, tells whether the `k`-th hit object line
/// (counting those with at least five fields) is left out for its time; the
/// times of those lines are what `hit_object_times` gives. Where `end > 0`,
/// only the first `end` objects are taken. A `Mode` that is neither
/// osu!standard nor osu!taiko (after `mode_override`, where it is not zero)
/// gives `ERR_NOTIMPLEMENTED`.
pub fn parse_beatmap_text(data: &str, mode_override: i32, end: i32, cut: &Vec<bool>) -> (r: Result<
    RawBeatmap,
    i32,
>)
    ensures
        match r {
            Ok(m) => parse_text_spec(data@, mode_override, end, cut@) == Ok::<BeatmapModel, i32>(m@),
            Err(e) => parse_text_spec(data@, mode_override, end, cut@) == Err::<BeatmapModel, i32>(e),
        },
{
    let chars: Vec<char> = str_to_chars(data);
    let lines: Vec<Vec<char>> = split_chars(&chars, '\n');
    let ghost ls = views(lines@);
    proof {
        assert(ls.take(0) =~= Seq::<Seq<char>>::empty());
    }
    let n: usize = lines.len();
    let mut st = Parser { section: Vec::new(), ncand: 0, map: new_raw_beatmap() };
    let mut i: usize = 0;
    while i < n
        invariant
            n == lines@.len(),
            ls == views(lines@),
            ls == split(data@, '\n'),
            i <= n,
            run_lines(ls.take(i as int), mode_override, end, cut@) == Ok::<ParserModel, i32>(st@),
            counts_ok(st@),
            st@.ncand <= i,
        decreases n - i,
    {
        proof {
            assert(ls.take(i + 1).drop_last() =~= ls.take(i as int));
            assert(ls.take(i + 1).last() == lines@[i as int]@);
        }
        let r: Result<(), i32> = read_line(&mut st, &lines[i], mode_override, end, cut);
        match r {
            Err(e) => {
                proof {
                    lemma_run_err_prefix(ls, i + 1, mode_override, end, cut@);
                }
                return Err(e);
            },
            Ok(()) => {},
        }
        i += 1;
    }
    proof {
        assert(ls.take(n as int) =~= ls);
    }
    let mut m: RawBeatmap = st.map;
    finish_map(&mut m);
    Ok(m)
}

/// The time field of every hit object line (one with at least five fields),
/// in the order of the text: the `k`-th is the time of the line that
/// `cut[k]` speaks of in `parse_beatmap_text`.
pub fn hit_object_times(data: &str) -> (times: Vec<String>)
    ensures
        times@.map_values(|s: String| s@) == hit_object_times_spec(data@),
{
    let chars: Vec<char> = str_to_chars(data);
    let lines: Vec<Vec<char>> = split_chars(&chars, '\n');
    let ghost ls = views(lines@);
    let n: usize = lines.len();
    let mut section: Vec<char> = Vec::new();
    let mut times: Vec<String> = Vec::new();
    proof {
        assert(ls.take(0) =~= Seq::<Seq<char>>::empty());
        assert(times@.map_values(|s: String| s@) =~= Seq::<Seq<char>>::empty());
    }
    let mut i: usize = 0;
    while i < n
        invariant
            n == lines@.len(),
            ls == views(lines@),
            ls == split(data@, '\n'),
            i <= n,
            scan_lines(ls.take(i as int)) == (ScanModel {
                section: section@,
                times: times@.map_values(|s: String| s@),
            }),
        decreases n - i,
    {
        proof {
            assert(ls.take(i + 1).drop_last() =~= ls.take(i as int));
            assert(ls.take(i + 1).last() == lines@[i as int]@);
        }
        let t: Vec<char> = trim_chars(&lines[i]);
        let m: usize = t.len();
        proof {
            if m >= 2 && t@.take(2) == seq!['/', '/'] {
                assert(t@.take(2)[0] == t@[0]);
                assert(t@.take(2)[1] == t@[1]);
            }
            if m >= 2 && t@[0] == '/' && t@[1] == '/' {
                assert(t@.take(2) =~= seq!['/', '/']);
            }
        }
        if m == 0 || (m >= 2 && t[0] == '/' && t[1] == '/') || t[0] == '_' {
        } else if t[0] == '[' && t[m - 1] == ']' {
            let inner: Vec<char> = subvec(&t, 1, m - 1);
            section = trim_chars(&inner);
        } else if eq_lit(&section, "HitObjects") {
            let parts: Vec<Vec<char>> = split_chars(&t, ',');
            if parts.len() >= 5 {
                let ghost old_times = times@;
                times.push(chars_to_string(&parts[2]));
                proof {
                    assert(views(parts@)[2] == parts@[2]@);
                    assert(times@.map_values(|s: String| s@) =~= old_times.map_values(
                        |s: String| s@,
                    ).push(parts@[2]@));
                }
            }
        }
        i += 1;
    }
    proof {
        assert(ls.take(n as int) =~= ls);
    }
    times
}

/// The hit sounds of an object: none outside taiko; in taiko one, or, for a
/// slider with an edge sound field, one for each of its `repetitions + 1`
/// edges, taken from the field where it holds a number there and from the
/// object's own sound elsewhere.
pub fn sound_types(o: &RawHitObject) -> (r: Vec<i32>)
    requires
        o.edge_sounds is Some ==> -1 <= o.repetitions < i32::MAX,
    ensures
        r@ == sound_types_spec(o@),
{
    let mut r: Vec<i32> = Vec::new();
    match o.sound {
        None => {
            proof {
                assert(r@ =~= sound_types_spec(o@));
            }
        },
        Some(s) => match &o.edge_sounds {
            None => {
                r.push(s);
                proof {
                    assert(r@ =~= sound_types_spec(o@));
                }
            },
            Some(e) => {
                let nodes: usize = (o.repetitions + 1) as usize;
                let ghost want = sound_types_spec(o@);
                let mut i: usize = 0;
                while i < nodes
                    invariant
                        nodes == o.repetitions + 1,
                        want.len() == nodes,
                        o.sound == Some(s),
                        o.edge_sounds == Some(*e),
                        want == sound_types_spec(o@),
                        i <= nodes,
                        r@ =~= want.take(i as int),
                    decreases nodes - i,
                {
                    let x: i32 = if i < e.len() {
                        match e[i] {
                            Some(v) => v,
                            None => s,
                        }
                    } else {
                        s
                    };
                    r.push(x);
                    proof {
                        assert(want[i as int] == x);
                    }
                    i += 1;
                }
            },
        },
    }
    r
}

} // verus!
