use vstd::prelude::*;

verus! {

pub const OPPAI_VERSION_MAJOR: i32 = 4;
pub const OPPAI_VERSION_MINOR: i32 = 1;
pub const OPPAI_VERSION_PATCH: i32 = 0;
pub const OPPAI_VERSION_STRING: &'static str = "4.1.0";

/// Game mode: osu!standard.
pub const MODE_STD: i32 = 0;
/// Game mode: osu!taiko.
pub const MODE_TAIKO: i32 = 1;

/// Strain kinds of osu!standard difficulty.
pub const DIFF_SPEED: usize = 0;
pub const DIFF_AIM: usize = 1;

// Mod bit flags.
pub const MODS_NOMOD: u32 = 0;
pub const MODS_NF: u32 = 0x1;
pub const MODS_EZ: u32 = 0x2;
pub const MODS_TD: u32 = 0x4;
pub const MODS_HD: u32 = 0x8;
pub const MODS_HR: u32 = 0x10;
pub const MODS_SD: u32 = 0x20;
pub const MODS_DT: u32 = 0x40;
pub const MODS_RX: u32 = 0x80;
pub const MODS_HT: u32 = 0x100;
pub const MODS_NC: u32 = 0x200;
pub const MODS_FL: u32 = 0x400;
pub const MODS_AT: u32 = 0x800;
pub const MODS_SO: u32 = 0x1000;
pub const MODS_AP: u32 = 0x2000;
pub const MODS_PF: u32 = 0x4000;
pub const MODS_KEY4: u32 = 0x8000;
pub const MODS_KEY5: u32 = 0x10000;
pub const MODS_KEY6: u32 = 0x20000;
pub const MODS_KEY7: u32 = 0x40000;
pub const MODS_KEY8: u32 = 0x80000;
pub const MODS_FADEIN: u32 = 0x100000;
pub const MODS_RANDOM: u32 = 0x200000;
pub const MODS_CINEMA: u32 = 0x400000;
pub const MODS_TARGET: u32 = 0x800000;
pub const MODS_KEY9: u32 = 0x1000000;
pub const MODS_KEYCOOP: u32 = 0x2000000;
pub const MODS_KEY1: u32 = 0x4000000;
pub const MODS_KEY3: u32 = 0x8000000;
pub const MODS_KEY2: u32 = 0x10000000;
pub const MODS_SCOREV2: u32 = 0x20000000;
pub const MODS_TOUCH_DEVICE: u32 = MODS_TD;
pub const MODS_NOVIDEO: u32 = MODS_TD;
pub const MODS_SPEED_CHANGING: u32 = MODS_DT | MODS_HT | MODS_NC;
pub const MODS_MAP_CHANGING: u32 = MODS_HR | MODS_EZ | MODS_SPEED_CHANGING;

// Hit object type bits.
pub const OBJ_CIRCLE: i32 = 0x1;
pub const OBJ_SLIDER: i32 = 0x2;
pub const OBJ_SPINNER: i32 = 0x8;

// Hit sound bits.
pub const SOUND_NONE: i32 = 0;
pub const SOUND_NORMAL: i32 = 0x1;
pub const SOUND_WHISTLE: i32 = 0x2;
pub const SOUND_FINISH: i32 = 0x4;
pub const SOUND_CLAP: i32 = 0x8;

// Error codes.
pub const ERR_MORE: i32 = -1;
pub const ERR_SYNTAX: i32 = -2;
pub const ERR_TRUNCATED: i32 = -3;
pub const ERR_NOTIMPLEMENTED: i32 = -4;
pub const ERR_IO: i32 = -5;
pub const ERR_FORMAT: i32 = -6;
pub const ERR_OOM: i32 = -7;

/// The message that describes an error code.
pub open spec fn errstr_spec(err: i32) -> Seq<char> {
    if err == ERR_MORE {
        "call me again with more data"@
    } else if err == ERR_SYNTAX {
        "syntax error"@
    } else if err == ERR_TRUNCATED {
        "data was truncated, possibly because it was too big"@
    } else if err == ERR_NOTIMPLEMENTED {
        "requested a feature that isn't implemented"@
    } else if err == ERR_IO {
        "i/o error"@
    } else if err == ERR_FORMAT {
        "invalid input format"@
    } else if err == ERR_OOM {
        "out of memory"@
    } else {
        "unknown error"@
    }
}

/// Describes an error code in words.
pub fn errstr(err: i32) -> (s: &'static str)
    ensures
        s@ == errstr_spec(err),
{
    match err {
        ERR_MORE => "call me again with more data",
        ERR_SYNTAX => "syntax error",
        ERR_TRUNCATED => "data was truncated, possibly because it was too big",
        ERR_NOTIMPLEMENTED => "requested a feature that isn't implemented",
        ERR_IO => "i/o error",
        ERR_FORMAT => "invalid input format",
        ERR_OOM => "out of memory",
        _ => "unknown error",
    }
}

} // verus!
