//! Power rail bring-up and sleep ordering.
use vstd::prelude::*;

use crate::io::PowerRails;
use crate::text::str_eq;

verus! {

/// Expected power-on order at boot.
pub const POWER_ON_SEQUENCE: [&'static str; 4] = [
    "battery_hold_on",
    "epd_power_on",
    "delay_200ms",
    "audio_power_on",
];

/// Power-off / sleep prep order.
pub const POWER_SLEEP_SEQUENCE: [&'static str; 3] = ["audio_power_off", "epd_power_off", "battery_hold_on"];

/// Run the standard boot power sequence: hold the battery, then display, then audio.
pub fn power_on_sequence<P: PowerRails>(power: &mut P)
    ensures
        final(power).steps() == old(power).steps() + seq!["battery_hold_on"@, "epd_power_on"@, "audio_power_on"@],
{
    power.battery_hold_on();
    power.epd_power_on();
    power.audio_power_on();
    assert(power.steps() =~= old(power).steps() + seq!["battery_hold_on"@, "epd_power_on"@, "audio_power_on"@]);
}

/// Run sleep prep sequence: audio off, display off, battery held.
pub fn power_sleep_sequence<P: PowerRails>(power: &mut P)
    ensures
        final(power).steps() == old(power).steps() + seq!["audio_power_off"@, "epd_power_off"@, "battery_hold_on"@],
{
    power.audio_power_off();
    power.epd_power_off();
    power.battery_hold_on();
    assert(power.steps() =~= old(power).steps() + seq!["audio_power_off"@, "epd_power_off"@, "battery_hold_on"@]);
}

/// How many leading steps of `expected` a left-to-right scan of `log` matches,
/// taking each log entry as the next expected step whenever it equals it.
pub open spec fn greedy_matched(log: Seq<Seq<char>>, expected: Seq<Seq<char>>) -> nat
    decreases log.len(),
{
    if log.len() == 0 {
        0
    } else {
        let k = greedy_matched(log.drop_last(), expected);
        if k < expected.len() && log.last() == expected[k as int] {
            k + 1
        } else {
            k
        }
    }
}

/// `expected` occurs in `log` in order (with other steps allowed in between).
pub open spec fn is_subsequence(expected: Seq<Seq<char>>, log: Seq<Seq<char>>) -> bool {
    exists|pos: Seq<int>|
        #![trigger pos.len()]
        pos.len() == expected.len() && (forall|i: int|
            0 <= i < pos.len() ==> 0 <= #[trigger] pos[i] < log.len() && log[pos[i]]
                == expected[i]) && (forall|i: int, j: int|
            0 <= i < j < pos.len() ==> #[trigger] pos[i] < #[trigger] pos[j])
}

pub open spec fn views(s: Seq<&str>) -> Seq<Seq<char>> {
    s.map_values(|x: &str| x@)
}

/// Verify a logged sequence matches expected order (host tests).
pub fn sequence_matches(log: &[&str], expected: &[&str]) -> (r: bool)
    ensures
        r == (greedy_matched(views(log@), views(expected@)) == expected@.len()),
        r == is_subsequence(views(expected@), views(log@)),
{
    let ghost lv = views(log@);
    let ghost ev = views(expected@);
    let mut idx: usize = 0;
    let mut i: usize = 0;
    while i < log.len()
        invariant
            i <= log@.len(),
            lv == views(log@),
            ev == views(expected@),
            idx == greedy_matched(lv.take(i as int), ev),
            idx <= expected@.len(),
        decreases log@.len() - i,
    {
        assert(lv.take(i + 1).drop_last() =~= lv.take(i as int));
        if idx < expected.len() && str_eq(log[i], expected[idx]) {
            idx += 1;
        }
        i += 1;
    }
    assert(lv.take(log@.len() as int) =~= lv);
    proof {
        lemma_greedy_decides_subsequence(lv, ev);
    }
    idx == expected.len()
}

/// Where the scan of `greedy_matched` takes each matched step.
pub open spec fn greedy_positions(log: Seq<Seq<char>>, expected: Seq<Seq<char>>) -> Seq<int>
    decreases log.len(),
{
    if log.len() == 0 {
        Seq::empty()
    } else {
        let k = greedy_matched(log.drop_last(), expected);
        let p = greedy_positions(log.drop_last(), expected);
        if k < expected.len() && log.last() == expected[k as int] {
            p.push(log.len() - 1)
        } else {
            p
        }
    }
}

/// `pos` places the first `pos.len()` steps of `expected` in `log`, in order.
pub open spec fn embeds(pos: Seq<int>, expected: Seq<Seq<char>>, log: Seq<Seq<char>>) -> bool {
    &&& pos.len() <= expected.len()
    &&& forall|i: int| 0 <= i < pos.len() ==> 0 <= #[trigger] pos[i] < log.len() && log[pos[i]] == expected[i]
    &&& forall|i: int, j: int| 0 <= i < j < pos.len() ==> #[trigger] pos[i] < #[trigger] pos[j]
}

proof fn lemma_greedy_sound(log: Seq<Seq<char>>, expected: Seq<Seq<char>>)
    ensures
        greedy_positions(log, expected).len() == greedy_matched(log, expected),
        embeds(greedy_positions(log, expected), expected, log),
    decreases log.len(),
{
    if log.len() > 0 {
        let init = log.drop_last();
        lemma_greedy_sound(init, expected);
        let p = greedy_positions(init, expected);
        assert forall|i: int| 0 <= i < p.len() implies #[trigger] log[p[i]] == init[p[i]] by {}
    }
}

proof fn lemma_greedy_complete(log: Seq<Seq<char>>, expected: Seq<Seq<char>>, pos: Seq<int>)
    requires
        embeds(pos, expected, log),
    ensures
        greedy_matched(log, expected) >= pos.len(),
        greedy_matched(log, expected) <= expected.len(),
    decreases log.len(),
{
    if log.len() > 0 {
        let init = log.drop_last();
        let n = log.len() as int;
        let k = pos.len() as int;
        if k == 0 {
            lemma_greedy_complete(init, expected, pos);
        } else if pos[k - 1] < n - 1 {
            assert forall|i: int| 0 <= i < pos.len() implies 0 <= #[trigger] pos[i] < init.len() && init[pos[i]]
                == expected[i] by {
                if i < k - 1 {
                    assert(pos[i] < pos[k - 1]);
                }
            }
            lemma_greedy_complete(init, expected, pos);
        } else {
            let q = pos.take(k - 1);
            assert forall|i: int| 0 <= i < q.len() implies 0 <= #[trigger] q[i] < init.len() && init[q[i]]
                == expected[i] by {
                assert(q[i] == pos[i]);
                assert(pos[i] < pos[k - 1]);
            }
            assert forall|i: int, j: int| 0 <= i < j < q.len() implies #[trigger] q[i] < #[trigger] q[j] by {
                assert(q[i] == pos[i] && q[j] == pos[j]);
            }
            lemma_greedy_complete(init, expected, q);
            assert(log.last() == log[n - 1]);
            assert(log[pos[k - 1]] == expected[k - 1]);
            let gi = greedy_matched(init, expected);
            assert(gi >= k - 1);
            if gi < k {
                assert(gi == k - 1);
                assert(log.last() == expected[gi as int]);
            }
        }
    } else if pos.len() > 0 {
        assert(0 <= pos[0] < log.len());
    }
}

/// The greedy left-to-right scan finds `expected` exactly when it occurs in
/// `log` in order: `sequence_matches` decides the subsequence relation.
pub proof fn lemma_greedy_decides_subsequence(log: Seq<Seq<char>>, expected: Seq<Seq<char>>)
    ensures
        (greedy_matched(log, expected) == expected.len()) <==> is_subsequence(expected, log),
{
    lemma_greedy_sound(log, expected);
    lemma_greedy_complete(log, expected, Seq::empty());
    let g = greedy_positions(log, expected);
    if greedy_matched(log, expected) == expected.len() {
        assert(g.len() == expected.len());
    }
    if is_subsequence(expected, log) {
        let pos = choose|pos: Seq<int>|
            #![trigger pos.len()]
            pos.len() == expected.len() && (forall|i: int|
                0 <= i < pos.len() ==> 0 <= #[trigger] pos[i] < log.len() && log[pos[i]]
                    == expected[i]) && (forall|i: int, j: int|
                0 <= i < j < pos.len() ==> #[trigger] pos[i] < #[trigger] pos[j]);
        lemma_greedy_complete(log, expected, pos);
    }
}

} // verus!
