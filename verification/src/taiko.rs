use vstd::prelude::*;

verus! {

/// What the colour-change rule of taiko strain reads of a note: whether it
/// is a rim (blue) note, how many notes of one colour its run has held, and
/// whether the run before the last colour switch had even length (`1`),
/// odd length (`0`), or there was no switch yet (`-1`).
#[derive(Clone, Copy)]
pub struct RimRun {
    pub rim: bool,
    pub same_since: i32,
    pub last_switch_even: i32,
}

/// The note after applying the colour-change rule against the note before
/// it, and whether the change earns the bonus.
pub open spec fn rim_switch_spec(cur: RimRun, prev: RimRun) -> (RimRun, bool) {
    if prev.rim != cur.rim {
        let even: i32 = if prev.same_since % 2 == 0 {
            1
        } else {
            0
        };
        (
            RimRun { last_switch_even: even, ..cur },
            prev.last_switch_even != even && prev.last_switch_even != -1,
        )
    } else {
        (
            RimRun {
                last_switch_even: prev.last_switch_even,
                same_since: (prev.same_since + 1) as i32,
                ..cur
            },
            false,
        )
    }
}

/// The colour-change rule of taiko strain: a note of the other colour ends
/// the run, and earns the bonus when the run it ends has the other parity
/// than the run ended at the switch before; a note of the same colour
/// lengthens the run.
pub fn rim_switch(cur: &mut RimRun, prev: &RimRun) -> (bonus: bool)
    requires
        prev.rim == old(cur).rim ==> prev.same_since < i32::MAX,
    ensures
        (*final(cur), bonus) == rim_switch_spec(*old(cur), *prev),
        bonus ==> prev.rim != old(cur).rim && prev.last_switch_even != -1,
{
    if prev.rim != cur.rim {
        cur.last_switch_even = if prev.same_since % 2 == 0 {
            1
        } else {
            0
        };
        prev.last_switch_even != cur.last_switch_even && prev.last_switch_even != -1
    } else {
        cur.last_switch_even = prev.last_switch_even;
        cur.same_since = prev.same_since + 1;
        false
    }
}

/// Reading of the colour-change rule: a note of the same colour as the one
/// before lengthens that note's run by one, keeps the remembered parity and
/// earns nothing; a note of the other colour keeps its own run, remembers
/// whether the run it ends was even, and earns the bonus exactly when an
/// earlier switch was remembered (`-1` means none) with another parity.
pub proof fn lemma_rim_switch_rule(cur: RimRun, prev: RimRun)
    ensures
        ({
            let (next, bonus) = rim_switch_spec(cur, prev);
            &&& next.rim == cur.rim
            &&& prev.rim == cur.rim ==> next.same_since == prev.same_since + 1 || prev.same_since
                == i32::MAX
            &&& prev.rim == cur.rim ==> next.last_switch_even == prev.last_switch_even && !bonus
            &&& prev.rim != cur.rim ==> next.same_since == cur.same_since
            &&& prev.rim != cur.rim ==> (next.last_switch_even == 1) == (prev.same_since % 2 == 0)
                && (next.last_switch_even == 0) == (prev.same_since % 2 != 0)
            &&& prev.rim != cur.rim ==> (bonus <==> prev.last_switch_even != -1
                && prev.last_switch_even != next.last_switch_even)
        }),
{
}

} // verus!
