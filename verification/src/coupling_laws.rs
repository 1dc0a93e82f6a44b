//! Coupling treats the strings of a note alike.
//!
//! A string is known to the coupling by its damper and its signal, and by nothing
//! else: not by its place in the note. What is said here is said of what
//! [`UnisonGroup::process`] and [`UnisonGroup::process_with_bridge`] write, over the
//! dampers, the signals and the steps that they are handed.
use crate::binary32::Binary32;
use crate::bridge::BridgeBus;
use crate::coupling;
use crate::coupling::Feedback;
use crate::outcome;
use crate::unison::UnisonGroup;
use vstd::prelude::*;

verus! {

/// The group has a string at `place`, and its damper is up.
pub open spec fn is_up(group: UnisonGroup, place: int) -> bool {
    ||| place == 0 && !group.first.damper_engaged
    ||| place == 1 && group.second is Some && !group.second->0.damper_engaged
    ||| place == 2 && group.third is Some && !group.third->0.damper_engaged
}

/// How many dampers are up.
pub open spec fn ups(group: UnisonGroup) -> int {
    (if is_up(group, 0) {
        1int
    } else {
        0
    }) + (if is_up(group, 1) {
        1int
    } else {
        0
    }) + (if is_up(group, 2) {
        1int
    } else {
        0
    })
}

/// `totals` runs from `silence` over the group's places, and takes up, place by place,
/// the signal of each string whose damper is up.
pub open spec fn runs_over<T, P: Fn(T, T) -> T>(
    group: UnisonGroup,
    signals: Seq<T>,
    silence: T,
    plus: P,
    totals: Seq<T>,
) -> bool {
    &&& totals.len() == group.count() + 1
    &&& totals[0] == silence
    &&& forall|place: int|
        0 <= place < group.count() ==> if is_up(group, place) {
            plus.ensures((totals[place], signals[place]), #[trigger] totals[place + 1])
        } else {
            totals[place + 1] == totals[place]
        }
}

/// `total` is what the strings whose dampers are up add up to.
pub open spec fn adds_up_to<T, P: Fn(T, T) -> T>(
    group: UnisonGroup,
    signals: Seq<T>,
    silence: T,
    plus: P,
    total: T,
) -> bool {
    exists|totals: Seq<T>| #[trigger]
        runs_over(group, signals, silence, plus, totals) && totals.last() == total
}

/// What stands in `feedback` is `own` blended by `gain` with the mean of the others, of
/// `count` strings that add up to `total`.
pub open spec fn hears_the_others<
    T,
    M: Fn(T, T) -> T,
    Q: Fn(T, usize) -> T,
    B: Fn(T, T, Binary32) -> T,
>(
    total: T,
    own: T,
    count: int,
    gain: Binary32,
    minus: M,
    quotient: Q,
    blend: B,
    mixed: T,
) -> bool {
    if count == 1 {
        blend.ensures((own, own, gain), mixed)
    } else {
        exists|rest: T, mean: T|
            {
                &&& #[trigger] minus.ensures((total, own), rest)
                &&& #[trigger] quotient.ensures((rest, (count - 1) as usize), mean)
                &&& blend.ensures((own, mean, gain), mixed)
            }
    }
}

proof fn lemma_places(group: UnisonGroup)
    requires
        group.third is Some ==> group.second is Some,
    ensures
        forall|place: int|
            0 <= place < group.count() ==> is_up(group, place) == coupling::takes_part(
                group,
                place,
            ),
        coupling::receptive_among(group, group.count()) == ups(group),
        0 <= ups(group) <= 3,
{
    reveal_with_fuel(coupling::receptive_among, 4);
}

proof fn lemma_totals<T, P: Fn(T, T) -> T>(
    group: UnisonGroup,
    signals: Seq<T>,
    length: int,
    silence: T,
    plus: P,
    total: T,
) -> (totals: Seq<T>)
    requires
        group.third is Some ==> group.second is Some,
        0 <= length <= group.count(),
        coupling::sums_to(group, signals, length, silence, plus, total),
    ensures
        totals.len() == length + 1,
        totals[0] == silence,
        totals.last() == total,
        forall|place: int|
            0 <= place < length ==> if is_up(group, place) {
                plus.ensures((totals[place], signals[place]), #[trigger] totals[place + 1])
            } else {
                totals[place + 1] == totals[place]
            },
    decreases length,
{
    lemma_places(group);
    if length == 0 {
        seq![silence]
    } else {
        let before = if is_up(group, length - 1) {
            choose|before: T|
                coupling::sums_to(group, signals, length - 1, silence, plus, before)
                    && #[trigger] plus.ensures((before, signals[length - 1]), total)
        } else {
            total
        };
        let shorter = lemma_totals(group, signals, length - 1, silence, plus, before);
        let totals = shorter.push(total);
        assert forall|place: int| 0 <= place < length implies if is_up(group, place) {
            plus.ensures((totals[place], signals[place]), #[trigger] totals[place + 1])
        } else {
            totals[place + 1] == totals[place]
        } by {
            if place < length - 1 {
                assert(totals[place + 1] == shorter[place + 1]);
                assert(totals[place] == shorter[place]);
            } else {
                assert(totals[place] == shorter.last());
            }
        }
        totals
    }
}

proof fn lemma_hears<T, M: Fn(T, T) -> T, Q: Fn(T, usize) -> T, B: Fn(T, T, Binary32) -> T>(
    group: UnisonGroup,
    signals: Seq<T>,
    place: int,
    total: T,
    minus: M,
    quotient: Q,
    blend: B,
    mixed: T,
)
    requires
        group.third is Some ==> group.second is Some,
        0 <= place < group.count(),
        group.mixes(signals, place, total, minus, quotient, blend, mixed),
    ensures
        if is_up(group, place) {
            hears_the_others(
                total,
                signals[place],
                ups(group),
                group.local_coupling_gain,
                minus,
                quotient,
                blend,
                mixed,
            )
        } else {
            mixed == signals[place]
        },
{
    lemma_places(group);
    if is_up(group, place) {
        let own = signals[place];
        let count = ups(group) as usize;
        let mean = choose|mean: T| #[trigger]
            coupling::is_others_mean(total, own, count, minus, quotient, mean) && blend.ensures(
                (own, mean, group.local_coupling_gain),
                mixed,
            );
        if count > 1 {
            let rest = choose|rest: T| #[trigger]
                minus.ensures((total, own), rest) && quotient.ensures(
                    (rest, (count - 1) as usize),
                    mean,
                );
            assert(quotient.ensures((rest, (ups(group) - 1) as usize), mean));
        }
    }
}

/// Every string whose damper is up, whichever its place, writes back its own signal
/// blended by the local coupling gain with the mean of the other strings whose dampers
/// are up; every string whose damper is down writes back its own signal. No string is
/// driven where there is no bridge.
pub proof fn every_string_hears_the_others<
    T: Copy,
    P: Fn(T, T) -> T,
    M: Fn(T, T) -> T,
    Q: Fn(T, usize) -> T,
    B: Fn(T, T, Binary32) -> T,
>(
    group: &UnisonGroup,
    signals: &[T],
    silence: T,
    plus: &P,
    minus: &M,
    quotient: &Q,
    blend: &B,
    feedback: Seq<Feedback<T>>,
)
    requires
        group.wf(),
        exists|places: &mut [Feedback<T>]| #[trigger]
            call_ensures(
                UnisonGroup::process::<T, P, M, Q, B>,
                (group, signals, silence, places, plus, minus, quotient, blend),
                (),
            ) && (*final(places))@ == feedback,
    ensures
        exists|total: T|
            {
                &&& #[trigger] adds_up_to(*group, signals@, silence, *plus, total)
                &&& forall|place: int|
                    0 <= place < group.count() ==> {
                        &&& (#[trigger] feedback[place]).coupling == silence
                        &&& is_up(*group, place) ==> hears_the_others(
                            total,
                            signals@[place],
                            ups(*group),
                            group.local_coupling_gain,
                            *minus,
                            *quotient,
                            *blend,
                            feedback[place].mixed,
                        )
                        &&& !is_up(*group, place) ==> feedback[place].mixed == signals@[place]
                    }
            },
{
    let total = choose|sum: T|
        {
            &&& #[trigger] coupling::sums_to(
                *group,
                signals@,
                group.count(),
                silence,
                *plus,
                sum,
            )
            &&& forall|i: int|
                0 <= i < group.count() ==> {
                    &&& (#[trigger] feedback[i]).coupling == silence
                    &&& group.mixes(
                        signals@,
                        i,
                        sum,
                        *minus,
                        *quotient,
                        *blend,
                        feedback[i].mixed,
                    )
                }
        };
    let totals = lemma_totals(*group, signals@, group.count(), silence, *plus, total);
    assert(runs_over(*group, signals@, silence, *plus, totals));
    assert(adds_up_to(*group, signals@, silence, *plus, total));
    assert forall|place: int| 0 <= place < group.count() implies {
        &&& (#[trigger] feedback[place]).coupling == silence
        &&& is_up(*group, place) ==> hears_the_others(
            total,
            signals@[place],
            ups(*group),
            group.local_coupling_gain,
            *minus,
            *quotient,
            *blend,
            feedback[place].mixed,
        )
        &&& !is_up(*group, place) ==> feedback[place].mixed == signals@[place]
    } by {
        lemma_hears(
            *group,
            signals@,
            place,
            total,
            *minus,
            *quotient,
            *blend,
            feedback[place].mixed,
        );
    }
}

/// A total of the same strings has one outcome where adding does.
proof fn lemma_one_total<T, P: Fn(T, T) -> T>(
    group: UnisonGroup,
    signals: Seq<T>,
    silence: T,
    plus: P,
    one: Seq<T>,
    other: Seq<T>,
    length: int,
)
    requires
        outcome::decided_by_two(plus),
        runs_over(group, signals, silence, plus, one),
        runs_over(group, signals, silence, plus, other),
        0 <= length <= group.count(),
    ensures
        one[length] == other[length],
    decreases length,
{
    if length > 0 {
        let place = length - 1;
        lemma_one_total(group, signals, silence, plus, one, other, place);
        assert(one[place + 1] == one[length]);
        assert(other[place + 1] == other[length]);
    }
}

/// Places are of no account: exchange the signals of two strings whose dampers are up,
/// in a sum that does not depend on the order of adding, and what the two write back
/// is exchanged; what every other string writes back stays as it was.
pub proof fn exchanged_signals_exchange_what_is_written<
    T: Copy,
    P: Fn(T, T) -> T,
    M: Fn(T, T) -> T,
    Q: Fn(T, usize) -> T,
    B: Fn(T, T, Binary32) -> T,
>(
    group: &UnisonGroup,
    signals: &[T],
    exchanged: &[T],
    one: int,
    other: int,
    silence: T,
    plus: &P,
    minus: &M,
    quotient: &Q,
    blend: &B,
    feedback: Seq<Feedback<T>>,
    after: Seq<Feedback<T>>,
)
    requires
        group.wf(),
        outcome::decided_by_two(*plus),
        outcome::decided_by_two(*minus),
        outcome::decided_by_two(*quotient),
        outcome::decided_by_three(*blend),
        0 <= one < group.count(),
        0 <= other < group.count(),
        is_up(*group, one),
        is_up(*group, other),
        signals@[one] == exchanged@[other],
        signals@[other] == exchanged@[one],
        forall|place: int|
            0 <= place < group.count() && place != one && place != other ==> signals@[place]
                == #[trigger] exchanged@[place],
        exists|total: T| #[trigger]
            adds_up_to(*group, signals@, silence, *plus, total) && adds_up_to(
                *group,
                exchanged@,
                silence,
                *plus,
                total,
            ),
        exists|places: &mut [Feedback<T>]| #[trigger]
            call_ensures(
                UnisonGroup::process::<T, P, M, Q, B>,
                (group, signals, silence, places, plus, minus, quotient, blend),
                (),
            ) && (*final(places))@ == feedback,
        exists|places: &mut [Feedback<T>]| #[trigger]
            call_ensures(
                UnisonGroup::process::<T, P, M, Q, B>,
                (group, exchanged, silence, places, plus, minus, quotient, blend),
                (),
            ) && (*final(places))@ == after,
    ensures
        after[one] == feedback[other],
        after[other] == feedback[one],
        forall|place: int|
            0 <= place < group.count() && place != one && place != other ==> #[trigger] after[place]
                == feedback[place],
{
    every_string_hears_the_others(
        group,
        signals,
        silence,
        plus,
        minus,
        quotient,
        blend,
        feedback,
    );
    every_string_hears_the_others(
        group,
        exchanged,
        silence,
        plus,
        minus,
        quotient,
        blend,
        after,
    );
    let gain = group.local_coupling_gain;
    let count = ups(*group);
    let total = choose|total: T| #[trigger]
        adds_up_to(*group, signals@, silence, *plus, total) && adds_up_to(
            *group,
            exchanged@,
            silence,
            *plus,
            total,
        );
    assert forall|a: T| adds_up_to(*group, signals@, silence, *plus, a) implies a == total by {
        let left = choose|totals: Seq<T>| #[trigger]
            runs_over(*group, signals@, silence, *plus, totals) && totals.last() == a;
        let right = choose|totals: Seq<T>| #[trigger]
            runs_over(*group, signals@, silence, *plus, totals) && totals.last() == total;
        lemma_one_total(*group, signals@, silence, *plus, left, right, group.count());
    }
    assert forall|a: T| adds_up_to(*group, exchanged@, silence, *plus, a) implies a == total by {
        let left = choose|totals: Seq<T>| #[trigger]
            runs_over(*group, exchanged@, silence, *plus, totals) && totals.last() == a;
        let right = choose|totals: Seq<T>| #[trigger]
            runs_over(*group, exchanged@, silence, *plus, totals) && totals.last() == total;
        lemma_one_total(*group, exchanged@, silence, *plus, left, right, group.count());
    }
    assert forall|from: int, to: int|
        0 <= from < group.count() && 0 <= to < group.count() && (is_up(*group, from) <==> is_up(
            *group,
            to,
        )) && signals@[from] == exchanged@[to] implies #[trigger] feedback[from]
        == #[trigger] after[to] by {
        if is_up(*group, from) {
            assert(hears_the_others(
                total,
                signals@[from],
                count,
                gain,
                *minus,
                *quotient,
                *blend,
                feedback[from].mixed,
            ));
            assert(hears_the_others(
                total,
                signals@[from],
                count,
                gain,
                *minus,
                *quotient,
                *blend,
                after[to].mixed,
            ));
            lemma_hearing_is_decided(
                total,
                signals@[from],
                count,
                gain,
                *minus,
                *quotient,
                *blend,
                feedback[from].mixed,
                after[to].mixed,
            );
        }
        assert(feedback[from].coupling == silence);
        assert(after[to].coupling == silence);
    }
    assert forall|place: int|
        0 <= place < group.count() && place != one && place != other implies #[trigger] after[place]
        == feedback[place] by {
        assert(signals@[place] == exchanged@[place]);
    }
}

proof fn lemma_hearing_is_decided<
    T,
    M: Fn(T, T) -> T,
    Q: Fn(T, usize) -> T,
    B: Fn(T, T, Binary32) -> T,
>(
    total: T,
    own: T,
    count: int,
    gain: Binary32,
    minus: M,
    quotient: Q,
    blend: B,
    mixed: T,
    other: T,
)
    requires
        outcome::decided_by_two(minus),
        outcome::decided_by_two(quotient),
        outcome::decided_by_three(blend),
        hears_the_others(total, own, count, gain, minus, quotient, blend, mixed),
        hears_the_others(total, own, count, gain, minus, quotient, blend, other),
    ensures
        mixed == other,
{
    if count != 1 {
        let (rest, mean) = choose|rest: T, mean: T|
            {
                &&& #[trigger] minus.ensures((total, own), rest)
                &&& #[trigger] quotient.ensures((rest, (count - 1) as usize), mean)
                &&& blend.ensures((own, mean, gain), mixed)
            };
        let (left, means) = choose|rest: T, mean: T|
            {
                &&& #[trigger] minus.ensures((total, own), rest)
                &&& #[trigger] quotient.ensures((rest, (count - 1) as usize), mean)
                &&& blend.ensures((own, mean, gain), other)
            };
        assert(rest == left);
        assert(mean == means);
    }
}

/// With two dampers up, each of the two strings hears the other, whichever their
/// places: where taking away undoes adding, what it writes back is its own signal
/// blended with the other's.
pub proof fn two_strings_hear_each_other<
    T: Copy,
    P: Fn(T, T) -> T,
    M: Fn(T, T) -> T,
    Q: Fn(T, usize) -> T,
    B: Fn(T, T, Binary32) -> T,
>(
    group: &UnisonGroup,
    signals: &[T],
    one: int,
    other: int,
    silence: T,
    plus: &P,
    minus: &M,
    quotient: &Q,
    blend: &B,
    feedback: Seq<Feedback<T>>,
)
    requires
        group.wf(),
        one != other,
        0 <= one < group.count(),
        0 <= other < group.count(),
        is_up(*group, one),
        is_up(*group, other),
        forall|place: int|
            #![trigger is_up(*group, place)]
            place != one && place != other ==> !is_up(*group, place),
        forall|signal: T, sum: T| #[trigger]
            plus.ensures((silence, signal), sum) ==> sum == signal,
        forall|a: T, b: T, sum: T, rest: T| #[trigger]
            plus.ensures((a, b), sum) && #[trigger] minus.ensures((sum, a), rest) ==> rest == b,
        forall|a: T, b: T, sum: T, rest: T| #[trigger]
            plus.ensures((a, b), sum) && #[trigger] minus.ensures((sum, b), rest) ==> rest == a,
        forall|signal: T, mean: T| #[trigger]
            quotient.ensures((signal, 1usize), mean) ==> mean == signal,
        exists|places: &mut [Feedback<T>]| #[trigger]
            call_ensures(
                UnisonGroup::process::<T, P, M, Q, B>,
                (group, signals, silence, places, plus, minus, quotient, blend),
                (),
            ) && (*final(places))@ == feedback,
    ensures
        blend.ensures(
            (signals@[one], signals@[other], group.local_coupling_gain),
            feedback[one].mixed,
        ),
        blend.ensures(
            (signals@[other], signals@[one], group.local_coupling_gain),
            feedback[other].mixed,
        ),
{
    every_string_hears_the_others(
        group,
        signals,
        silence,
        plus,
        minus,
        quotient,
        blend,
        feedback,
    );
    let total = choose|total: T|
        {
            &&& #[trigger] adds_up_to(*group, signals@, silence, *plus, total)
            &&& forall|place: int|
                0 <= place < group.count() ==> {
                    &&& (#[trigger] feedback[place]).coupling == silence
                    &&& is_up(*group, place) ==> hears_the_others(
                        total,
                        signals@[place],
                        ups(*group),
                        group.local_coupling_gain,
                        *minus,
                        *quotient,
                        *blend,
                        feedback[place].mixed,
                    )
                    &&& !is_up(*group, place) ==> feedback[place].mixed == signals@[place]
                }
        };
    let totals = choose|totals: Seq<T>| #[trigger]
        runs_over(*group, signals@, silence, *plus, totals) && totals.last() == total;
    assert(totals[0int + 1] == totals[1]);
    assert(group.count() > 1 ==> totals[1int + 1] == totals[2]);
    assert(group.count() > 2 ==> totals[2int + 1] == totals[3]);
    assert(is_up(*group, 0) || !is_up(*group, 0));
    assert(is_up(*group, 1) || !is_up(*group, 1));
    assert(is_up(*group, 2) || !is_up(*group, 2));
    assert(ups(*group) == 2);
    assert(feedback[one].coupling == silence);
    assert(feedback[other].coupling == silence);
    if one < other {
        assert(plus.ensures((signals@[one], signals@[other]), total));
    } else {
        assert(plus.ensures((signals@[other], signals@[one]), total));
    }
}

/// What a bridge drives into a note, it drives into every string whose damper is up,
/// alike and by the global coupling gain, and into no other string. The drive is the
/// mean of what the block before took up at that place, and silence where it took up
/// nothing. The note gives the bridge the mean of its strings whose dampers are up,
/// and among themselves the strings hear each other as they do without a bridge.
pub proof fn every_string_is_driven_alike<
    T: Copy,
    P: Fn(T, T) -> T,
    M: Fn(T, T) -> T,
    Q: Fn(T, usize) -> T,
    B: Fn(T, T, Binary32) -> T,
    D: Fn(T, Binary32) -> T,
>(
    group: &UnisonGroup,
    signals: &[T],
    silence: T,
    before: BridgeBus<T>,
    index: usize,
    plus: &P,
    minus: &M,
    quotient: &Q,
    blend: &B,
    drive: &D,
    after: BridgeBus<T>,
    feedback: Seq<Feedback<T>>,
)
    requires
        group.wf(),
        before.current().len() == before.previous().len(),
        exists|bridge: &mut BridgeBus<T>, places: &mut [Feedback<T>]|
            {
                &&& #[trigger] call_ensures(
                    UnisonGroup::process_with_bridge::<T, P, M, Q, B, D>,
                    (
                        group,
                        signals,
                        silence,
                        bridge,
                        index,
                        places,
                        plus,
                        minus,
                        quotient,
                        blend,
                        drive,
                    ),
                    (),
                )
                &&& *bridge == before
                &&& *final(bridge) == after
                &&& (*final(places))@ == feedback
            },
    ensures
        after.previous() == before.previous(),
        after.current().len() == before.current().len(),
        forall|place: int|
            0 <= place < before.current().len() && place != index
                ==> #[trigger] after.current()[place] == before.current()[place],
        index < before.current().len() ==> after.current()[index as int].count
            == before.current()[index as int].count + 1,
        exists|total: T, given: T, heard: T|
            {
                &&& #[trigger] adds_up_to(*group, signals@, silence, *plus, total)
                &&& if ups(*group) == 0 {
                    given == silence
                } else {
                    quotient.ensures((total, ups(*group) as usize), given)
                }
                &&& #[trigger] takes_up(before, index, given, *plus, after)
                &&& if index < before.previous().len() && before.previous()[index as int].count
                    > 0 {
                    quotient.ensures(
                        (
                            before.previous()[index as int].sum,
                            before.previous()[index as int].count as usize,
                        ),
                        heard,
                    )
                } else {
                    heard == silence
                }
                &&& #[trigger] drives_alike(*group, heard, silence, *drive, feedback)
                &&& forall|place: int|
                    0 <= place < group.count() ==> if is_up(*group, place) {
                        hears_the_others(
                            total,
                            signals@[place],
                            ups(*group),
                            group.local_coupling_gain,
                            *minus,
                            *quotient,
                            *blend,
                            (#[trigger] feedback[place]).mixed,
                        )
                    } else {
                        feedback[place].mixed == signals@[place]
                    }
            },
{
    let (sum, given, heard) = choose|sum: T, given: T, heard: T|
        {
            &&& #[trigger] coupling::sums_to(
                *group,
                signals@,
                group.count(),
                silence,
                *plus,
                sum,
            )
            &&& #[trigger] coupling::is_mean(
                sum,
                coupling::receptive_among(*group, group.count()) as usize,
                silence,
                *quotient,
                given,
            )
            &&& crate::bridge::added(before, after, index, given, *plus)
            &&& #[trigger] coupling::is_heard(before, index, silence, *quotient, heard)
            &&& forall|i: int|
                0 <= i < group.count() ==> {
                    &&& group.mixes(
                        signals@,
                        i,
                        sum,
                        *minus,
                        *quotient,
                        *blend,
                        (#[trigger] feedback[i]).mixed,
                    )
                    &&& coupling::is_driven(
                        *group,
                        i,
                        heard,
                        silence,
                        *drive,
                        feedback[i].coupling,
                    )
                }
        };
    lemma_places(*group);
    let totals = lemma_totals(*group, signals@, group.count(), silence, *plus, sum);
    assert(runs_over(*group, signals@, silence, *plus, totals));
    assert(adds_up_to(*group, signals@, silence, *plus, sum));
    assert forall|place: int| 0 <= place < group.count() implies if is_up(*group, place) {
        hears_the_others(
            sum,
            signals@[place],
            ups(*group),
            group.local_coupling_gain,
            *minus,
            *quotient,
            *blend,
            (#[trigger] feedback[place]).mixed,
        )
    } else {
        feedback[place].mixed == signals@[place]
    } by {
        lemma_hears(
            *group,
            signals@,
            place,
            sum,
            *minus,
            *quotient,
            *blend,
            feedback[place].mixed,
        );
    }
    assert(drives_alike(*group, heard, silence, *drive, feedback)) by {
        assert forall|place: int| 0 <= place < group.count() implies if is_up(*group, place) {
            drive.ensures(
                (heard, group.global_coupling_gain),
                (#[trigger] feedback[place]).coupling,
            )
        } else {
            feedback[place].coupling == silence
        } by {
            assert(coupling::is_driven(
                *group,
                place,
                heard,
                silence,
                *drive,
                feedback[place].coupling,
            ));
        }
    }
    assert(takes_up(before, index, given, *plus, after));
}

/// The block of `after` holds at `index` the sum of what that of `before` held there
/// and `given`.
pub open spec fn takes_up<T: Copy, P: Fn(T, T) -> T>(
    before: BridgeBus<T>,
    index: usize,
    given: T,
    plus: P,
    after: BridgeBus<T>,
) -> bool {
    index < before.current().len() ==> plus.ensures(
        (before.current()[index as int].sum, given),
        after.current()[index as int].sum,
    )
}

/// A bridge heard as `heard` drives every string of `group` whose damper is up, and no
/// other.
pub open spec fn drives_alike<T, D: Fn(T, Binary32) -> T>(
    group: UnisonGroup,
    heard: T,
    silence: T,
    drive: D,
    feedback: Seq<Feedback<T>>,
) -> bool {
    forall|place: int|
        0 <= place < group.count() ==> if is_up(group, place) {
            drive.ensures(
                (heard, group.global_coupling_gain),
                (#[trigger] feedback[place]).coupling,
            )
        } else {
            feedback[place].coupling == silence
        }
}

} // verus!
