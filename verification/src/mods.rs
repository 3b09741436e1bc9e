use vstd::prelude::*;
use crate::constants::{
    MODS_MAP_CHANGING, MODS_SPEED_CHANGING, MODS_AP, MODS_AT, MODS_DT, MODS_EZ, MODS_FL, MODS_HD, MODS_HR, MODS_HT, MODS_NC, MODS_NF,
    MODS_NOMOD, MODS_PF, MODS_RX, MODS_SD, MODS_SO, MODS_TD,
};
use crate::text::{starts_with, starts_with_at, str_to_chars};

verus! {

/// An ASCII character.
pub open spec fn is_ascii_char(c: char) -> bool {
    (c as u32) < 0x80
}

/// `c` in upper case when it is an ASCII letter, else `c` itself.
pub open spec fn ascii_upper(c: char) -> char {
    if 0x61 <= c as u32 <= 0x7a {
        ((c as u32) - 0x20) as char
    } else {
        c
    }
}

/// `s` with its ASCII letters in upper case.
pub open spec fn ascii_upper_seq(s: Seq<char>) -> Seq<char> {
    s.map_values(|c: char| ascii_upper(c))
}

/// The mod whose name begins `rest`, tried in the order of the mod list, and
/// how many characters it takes; where no name matches, one character is
/// skipped.
pub open spec fn mod_prefix(rest: Seq<char>) -> (u32, nat) {
    if starts_with(rest, seq!['N', 'O', 'M', 'O', 'D']) {
        (MODS_NOMOD, 5)
    } else if starts_with(rest, seq!['N', 'F']) {
        (MODS_NF, 2)
    } else if starts_with(rest, seq!['E', 'Z']) {
        (MODS_EZ, 2)
    } else if starts_with(rest, seq!['T', 'D']) {
        (MODS_TD, 2)
    } else if starts_with(rest, seq!['H', 'D']) {
        (MODS_HD, 2)
    } else if starts_with(rest, seq!['H', 'R']) {
        (MODS_HR, 2)
    } else if starts_with(rest, seq!['S', 'D']) {
        (MODS_SD, 2)
    } else if starts_with(rest, seq!['D', 'T']) {
        (MODS_DT, 2)
    } else if starts_with(rest, seq!['R', 'X']) {
        (MODS_RX, 2)
    } else if starts_with(rest, seq!['H', 'T']) {
        (MODS_HT, 2)
    } else if starts_with(rest, seq!['N', 'C']) {
        (MODS_NC, 2)
    } else if starts_with(rest, seq!['F', 'L']) {
        (MODS_FL, 2)
    } else if starts_with(rest, seq!['A', 'T']) {
        (MODS_AT, 2)
    } else if starts_with(rest, seq!['S', 'O']) {
        (MODS_SO, 2)
    } else if starts_with(rest, seq!['A', 'P']) {
        (MODS_AP, 2)
    } else if starts_with(rest, seq!['P', 'F']) {
        (MODS_PF, 2)
    } else {
        (0, 1)
    }
}

/// The mods named in `rest`, read from left to right.
pub open spec fn mods_from(rest: Seq<char>) -> u32
    decreases rest.len(),
{
    if rest.len() == 0 {
        0
    } else {
        let (flag, n) = mod_prefix(rest);
        flag | mods_from(rest.skip(n as int))
    }
}

/// The mods that a mod string such as `HDDT` names, in any letter case.
pub open spec fn parse_mods_spec(s: Seq<char>) -> u32 {
    mods_from(ascii_upper_seq(s))
}

/// Every mod that `parse_mods` can name.
pub open spec fn known_mods() -> u32 {
    MODS_NF | MODS_EZ | MODS_TD | MODS_HD | MODS_HR | MODS_SD | MODS_DT | MODS_RX | MODS_HT
        | MODS_NC | MODS_FL | MODS_AT | MODS_SO | MODS_AP | MODS_PF
}

/// A mod string names no mod beyond those in the mod list.
pub proof fn lemma_parse_mods_known(s: Seq<char>)
    ensures
        parse_mods_spec(s) & !known_mods() == 0,
{
    lemma_mods_from_known(ascii_upper_seq(s));
}

proof fn lemma_mods_from_known(rest: Seq<char>)
    ensures
        mods_from(rest) & !known_mods() == 0,
    decreases rest.len(),
{
    if rest.len() == 0 {
        assert(0u32 & !known_mods() == 0) by (bit_vector);
    } else {
        let (flag, n) = mod_prefix(rest);
        lemma_mods_from_known(rest.skip(n as int));
        let tail = mods_from(rest.skip(n as int));
        let k = known_mods();
        assert(0x1u32 | 0x2u32 | 0x4u32 | 0x8u32 | 0x10u32 | 0x20u32 | 0x40u32 | 0x80u32 | 0x100u32
            | 0x200u32 | 0x400u32 | 0x800u32 | 0x1000u32 | 0x2000u32 | 0x4000u32 == 0x7fffu32)
            by (bit_vector);
        assert(k == 0x7fffu32);
        assert(flag & !k == 0) by (bit_vector)
            requires
                flag == 0 || flag == 1 || flag == 2 || flag == 4 || flag == 8 || flag == 16
                    || flag == 32 || flag == 64 || flag == 128 || flag == 256 || flag == 512
                    || flag == 1024 || flag == 2048 || flag == 4096 || flag == 8192 || flag
                    == 16384,
                k == 0x7fffu32,
        ;
        assert((flag | tail) & !k == 0) by (bit_vector)
            requires
                flag & !k == 0,
                tail & !k == 0,
        ;
    }
}

/// Mod strings are read without regard to letter case: two strings that
/// agree once in upper case name the same mods.
pub proof fn lemma_parse_mods_case_insensitive(s: Seq<char>, t: Seq<char>)
    requires
        ascii_upper_seq(s) == ascii_upper_seq(t),
    ensures
        parse_mods_spec(s) == parse_mods_spec(t),
{
}

/// A mod string and its upper-case form name the same mods.
pub proof fn lemma_parse_mods_upper(s: Seq<char>)
    ensures
        parse_mods_spec(ascii_upper_seq(s)) == parse_mods_spec(s),
{
    assert forall|i: int| 0 <= i < s.len() implies ascii_upper(ascii_upper(#[trigger] s[i]))
        == ascii_upper(s[i]) by {
        let c = s[i];
        if 0x61 <= c as u32 <= 0x7a {
            assert(((c as u32) - 0x20) as char as u32 == (c as u32) - 0x20);
        }
    }
    assert(ascii_upper_seq(ascii_upper_seq(s)) =~= ascii_upper_seq(s));
}

/// The name of the mod at place `k` of the mod list (`NOMOD` first), for
/// `k < 16`, in the order in which mod strings are matched against them.
pub open spec fn mod_name(k: nat) -> Seq<char> {
    if k == 0 {
        seq!['N', 'O', 'M', 'O', 'D']
    } else if k == 1 {
        seq!['N', 'F']
    } else if k == 2 {
        seq!['E', 'Z']
    } else if k == 3 {
        seq!['T', 'D']
    } else if k == 4 {
        seq!['H', 'D']
    } else if k == 5 {
        seq!['H', 'R']
    } else if k == 6 {
        seq!['S', 'D']
    } else if k == 7 {
        seq!['D', 'T']
    } else if k == 8 {
        seq!['R', 'X']
    } else if k == 9 {
        seq!['H', 'T']
    } else if k == 10 {
        seq!['N', 'C']
    } else if k == 11 {
        seq!['F', 'L']
    } else if k == 12 {
        seq!['A', 'T']
    } else if k == 13 {
        seq!['S', 'O']
    } else if k == 14 {
        seq!['A', 'P']
    } else {
        seq!['P', 'F']
    }
}

/// The flag of the mod at place `k` of the mod list.
pub open spec fn mod_flag(k: nat) -> u32 {
    if k == 0 {
        MODS_NOMOD
    } else if k == 1 {
        MODS_NF
    } else if k == 2 {
        MODS_EZ
    } else if k == 3 {
        MODS_TD
    } else if k == 4 {
        MODS_HD
    } else if k == 5 {
        MODS_HR
    } else if k == 6 {
        MODS_SD
    } else if k == 7 {
        MODS_DT
    } else if k == 8 {
        MODS_RX
    } else if k == 9 {
        MODS_HT
    } else if k == 10 {
        MODS_NC
    } else if k == 11 {
        MODS_FL
    } else if k == 12 {
        MODS_AT
    } else if k == 13 {
        MODS_SO
    } else if k == 14 {
        MODS_AP
    } else {
        MODS_PF
    }
}

/// Mod names written one after another, in the order of `ns`.
pub open spec fn names_text(ns: Seq<nat>) -> Seq<char>
    decreases ns.len(),
{
    if ns.len() == 0 {
        Seq::empty()
    } else {
        mod_name(ns[0]) + names_text(ns.drop_first())
    }
}

/// The union of the flags of the mods in `ns`.
pub open spec fn names_flags(ns: Seq<nat>) -> u32
    decreases ns.len(),
{
    if ns.len() == 0 {
        MODS_NOMOD
    } else {
        mod_flag(ns[0]) | names_flags(ns.drop_first())
    }
}

proof fn lemma_starts_with_two(s: Seq<char>, p: Seq<char>)
    requires
        p.len() >= 2,
    ensures
        starts_with(s, p) ==> s.len() >= 2 && s[0] == p[0] && s[1] == p[1],
        p.len() == 2 && s.len() >= 2 && s[0] == p[0] && s[1] == p[1] ==> starts_with(s, p),
{
    if starts_with(s, p) {
        assert(s.take(p.len() as int)[0] == s[0]);
        assert(s.take(p.len() as int)[1] == s[1]);
    }
    if p.len() == 2 && s.len() >= 2 && s[0] == p[0] && s[1] == p[1] {
        assert(s.take(2) =~= p);
    }
}

/// A listed mod name matches at its own start, whatever follows it.
proof fn lemma_mod_prefix_name(k: nat, r: Seq<char>)
    requires
        k < 16,
    ensures
        mod_prefix(mod_name(k) + r) == (mod_flag(k), mod_name(k).len()),
{
    let name = mod_name(k);
    let s = name + r;
    assert(s[0] == name[0]);
    assert(s[1] == name[1]);
    if k == 0 {
        assert(s.take(5) =~= name);
    }
    lemma_starts_with_two(s, seq!['N', 'O', 'M', 'O', 'D']);
    lemma_starts_with_two(s, seq!['N', 'F']);
    lemma_starts_with_two(s, seq!['E', 'Z']);
    lemma_starts_with_two(s, seq!['T', 'D']);
    lemma_starts_with_two(s, seq!['H', 'D']);
    lemma_starts_with_two(s, seq!['H', 'R']);
    lemma_starts_with_two(s, seq!['S', 'D']);
    lemma_starts_with_two(s, seq!['D', 'T']);
    lemma_starts_with_two(s, seq!['R', 'X']);
    lemma_starts_with_two(s, seq!['H', 'T']);
    lemma_starts_with_two(s, seq!['N', 'C']);
    lemma_starts_with_two(s, seq!['F', 'L']);
    lemma_starts_with_two(s, seq!['A', 'T']);
    lemma_starts_with_two(s, seq!['S', 'O']);
    lemma_starts_with_two(s, seq!['A', 'P']);
    lemma_starts_with_two(s, seq!['P', 'F']);
}

proof fn lemma_mods_from_names(ns: Seq<nat>)
    requires
        forall|i: int| 0 <= i < ns.len() ==> ns[i] < 16,
    ensures
        mods_from(names_text(ns)) == names_flags(ns),
    decreases ns.len(),
{
    if ns.len() > 0 {
        let k = ns[0];
        let tail = ns.drop_first();
        let r = names_text(tail);
        lemma_mod_prefix_name(k, r);
        lemma_mods_from_names(tail);
        assert((mod_name(k) + r).skip(mod_name(k).len() as int) =~= r);
    }
}

proof fn lemma_names_upper(ns: Seq<nat>)
    requires
        forall|i: int| 0 <= i < ns.len() ==> ns[i] < 16,
    ensures
        ascii_upper_seq(names_text(ns)) == names_text(ns),
    decreases ns.len(),
{
    if ns.len() > 0 {
        let name = mod_name(ns[0]);
        let tail = names_text(ns.drop_first());
        lemma_names_upper(ns.drop_first());
        assert(ascii_upper_seq(name) =~= name);
        assert(ascii_upper_seq(name + tail) =~= ascii_upper_seq(name) + ascii_upper_seq(tail));
    }
}

/// A string of listed mod names one after another, such as `HDHRDT`, names
/// exactly the union of their mods, in any letter case.
pub proof fn lemma_parse_mods_names(ns: Seq<nat>)
    requires
        forall|i: int| 0 <= i < ns.len() ==> ns[i] < 16,
    ensures
        parse_mods_spec(names_text(ns)) == names_flags(ns),
        forall|s: Seq<char>|
            ascii_upper_seq(s) == names_text(ns) ==> #[trigger] parse_mods_spec(s)
                == names_flags(ns),
{
    lemma_mods_from_names(ns);
    lemma_names_upper(ns);
}

/// Whether going from `old` to `new` mods changes the map or its speed, so
/// that difficulty has to be computed again.
pub open spec fn mods_change_difficulty_spec(old: u32, new: u32) -> bool {
    (old ^ new) & (MODS_MAP_CHANGING | MODS_SPEED_CHANGING) != 0
}

/// Whether going from `old` to `new` mods changes the map (HR, EZ) or its
/// speed (DT, HT, NC), so that difficulty has to be computed again.
pub fn mods_change_difficulty(old: u32, new: u32) -> (b: bool)
    ensures
        b == mods_change_difficulty_spec(old, new),
{
    (old ^ new) & (MODS_MAP_CHANGING | MODS_SPEED_CHANGING) != 0
}

/// Switching on or off mods that touch neither the map nor its speed (such
/// as HD, FL or NF) never calls for difficulty to be computed again, and
/// the question is the same in both directions.
pub proof fn lemma_mods_change_difficulty(old: u32, x: u32)
    requires
        x & (MODS_MAP_CHANGING | MODS_SPEED_CHANGING) == 0,
    ensures
        !mods_change_difficulty_spec(old, old ^ x),
        forall|new: u32|
            mods_change_difficulty_spec(old, new) == mods_change_difficulty_spec(new, old),
{
    let k = MODS_MAP_CHANGING | MODS_SPEED_CHANGING;
    assert((old ^ (old ^ x)) & k == 0) by (bit_vector)
        requires
            x & k == 0,
    ;
    assert forall|new: u32|
        mods_change_difficulty_spec(old, new) == mods_change_difficulty_spec(new, old) by {
        assert(old ^ new == new ^ old) by (bit_vector);
    }
}

/// Which mod begins the characters of `v` from `i` on.
fn mod_prefix_at(v: &Vec<char>, i: usize) -> (r: (u32, usize))
    requires
        i < v@.len(),
    ensures
        (r.0, r.1 as nat) == mod_prefix(v@.skip(i as int)),
{
    proof {
        reveal_strlit("NOMOD");
        reveal_strlit("NF");
        reveal_strlit("EZ");
        reveal_strlit("TD");
        reveal_strlit("HD");
        reveal_strlit("HR");
        reveal_strlit("SD");
        reveal_strlit("DT");
        reveal_strlit("RX");
        reveal_strlit("HT");
        reveal_strlit("NC");
        reveal_strlit("FL");
        reveal_strlit("AT");
        reveal_strlit("SO");
        reveal_strlit("AP");
        reveal_strlit("PF");
        assert("NOMOD"@ =~= seq!['N', 'O', 'M', 'O', 'D']);
        assert("NF"@ =~= seq!['N', 'F']);
        assert("EZ"@ =~= seq!['E', 'Z']);
        assert("TD"@ =~= seq!['T', 'D']);
        assert("HD"@ =~= seq!['H', 'D']);
        assert("HR"@ =~= seq!['H', 'R']);
        assert("SD"@ =~= seq!['S', 'D']);
        assert("DT"@ =~= seq!['D', 'T']);
        assert("RX"@ =~= seq!['R', 'X']);
        assert("HT"@ =~= seq!['H', 'T']);
        assert("NC"@ =~= seq!['N', 'C']);
        assert("FL"@ =~= seq!['F', 'L']);
        assert("AT"@ =~= seq!['A', 'T']);
        assert("SO"@ =~= seq!['S', 'O']);
        assert("AP"@ =~= seq!['A', 'P']);
        assert("PF"@ =~= seq!['P', 'F']);
    }
    if starts_with_at(v, i, "NOMOD") {
        (MODS_NOMOD, 5)
    } else if starts_with_at(v, i, "NF") {
        (MODS_NF, 2)
    } else if starts_with_at(v, i, "EZ") {
        (MODS_EZ, 2)
    } else if starts_with_at(v, i, "TD") {
        (MODS_TD, 2)
    } else if starts_with_at(v, i, "HD") {
        (MODS_HD, 2)
    } else if starts_with_at(v, i, "HR") {
        (MODS_HR, 2)
    } else if starts_with_at(v, i, "SD") {
        (MODS_SD, 2)
    } else if starts_with_at(v, i, "DT") {
        (MODS_DT, 2)
    } else if starts_with_at(v, i, "RX") {
        (MODS_RX, 2)
    } else if starts_with_at(v, i, "HT") {
        (MODS_HT, 2)
    } else if starts_with_at(v, i, "NC") {
        (MODS_NC, 2)
    } else if starts_with_at(v, i, "FL") {
        (MODS_FL, 2)
    } else if starts_with_at(v, i, "AT") {
        (MODS_AT, 2)
    } else if starts_with_at(v, i, "SO") {
        (MODS_SO, 2)
    } else if starts_with_at(v, i, "AP") {
        (MODS_AP, 2)
    } else if starts_with_at(v, i, "PF") {
        (MODS_PF, 2)
    } else {
        (0, 1)
    }
}

/// Reads a mod string such as `hddt` or `HDHR`: letters are taken in upper
/// case, the known two-letter mod names (and `NOMOD`) are read from left to
/// right, and a character that begins no name is skipped.
/// The string must be ASCII.
pub fn parse_mods(s: &str) -> (mods: u32)
    requires
        forall|i: int| 0 <= i < s@.len() ==> is_ascii_char(#[trigger] s@[i]),
    ensures
        mods == parse_mods_spec(s@),
{
    let v: Vec<char> = str_to_chars(s);
    let n: usize = v.len();
    let mut up: Vec<char> = Vec::new();
    let mut k: usize = 0;
    while k < n
        invariant
            n == v@.len(),
            v@ == s@,
            k <= n,
            up@ == ascii_upper_seq(v@.take(k as int)),
        decreases n - k,
    {
        let c: char = v[k];
        let u: u32 = c as u32;
        let d: char = if 0x61 <= u && u <= 0x7a {
            ((u - 0x20) as u8) as char
        } else {
            c
        };
        up.push(d);
        proof {
            assert(up@ =~= ascii_upper_seq(v@.take(k + 1)));
        }
        k += 1;
    }
    proof {
        assert(v@.take(n as int) =~= v@);
        assert(up@.skip(0) =~= up@);
        let all = mods_from(up@);
        assert(0u32 | all == all) by (bit_vector);
    }
    let mut mods: u32 = MODS_NOMOD;
    let mut i: usize = 0;
    while i < n
        invariant
            n == up@.len(),
            i <= n,
            mods | mods_from(up@.skip(i as int)) == mods_from(up@),
        decreases n - i,
    {
        let (flag, len) = mod_prefix_at(&up, i);
        let ghost rest = up@.skip(i as int);
        let ghost tail = mods_from(rest.skip(len as int));
        proof {
            assert(rest.skip(len as int) =~= up@.skip(i + len));
            assert(mods_from(rest) == flag | tail);
            assert((mods | flag) | tail == mods | (flag | tail)) by (bit_vector);
        }
        mods = mods | flag;
        i = i + len;
    }
    proof {
        assert(up@.skip(n as int) =~= Seq::<char>::empty());
        assert(mods | 0 == mods) by (bit_vector);
    }
    mods
}

} // verus!
