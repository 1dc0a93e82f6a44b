//! What each command does to the instrument, key by key and string by string.
//!
//! Said of what [`Engine::apply`] leaves, over the state before it: what the command
//! reaches, what it makes of it, and that nothing else changes. A setting that is for the
//! whole instrument reaches every string of every key, and one that is for a string
//! reaches that string alone.
use crate::binary32::Binary32;
use crate::bounds_laws::lands;
use crate::commands::Command;
use crate::engine::{Action, Engine, EngineState, Voice};
use crate::hammer::HammerConfig;
use crate::soundboard::SoundboardMode;
use crate::string::PluckedString;
use crate::unison::UnisonGroup;
use vstd::prelude::*;

verus! {

/// The string at `place` of key `key`, where there is one.
pub open spec fn string_at(state: EngineState, key: int, place: int) -> Option<PluckedString> {
    match state.voices[key].strings {
        Some(group) => if place == 0 {
            Some(group.first)
        } else if place == 1 {
            group.second
        } else if place == 2 {
            group.third
        } else {
            None
        },
        None => None,
    }
}

/// Nothing but strings has changed: no key is held or let go, no pedal is moved, no gain
/// and no mode of the board is set, and every key has the strings that it had.
pub open spec fn only_strings_change(before: EngineState, after: EngineState) -> bool {
    &&& after == EngineState { voices: after.voices, ..before }
    &&& after.voices.len() == before.voices.len()
    &&& forall|key: int|
        0 <= key < before.voices.len() ==> {
            &&& (#[trigger] after.voices[key]).held == before.voices[key].held
            &&& after.voices[key].pending_pedal_release
                == before.voices[key].pending_pedal_release
            &&& keeps_its_places(before.voices[key], after.voices[key])
        }
}

/// A key has the strings that it had, under the same pitch and the same gains.
pub open spec fn keeps_its_places(before: Voice, after: Voice) -> bool {
    match (before.strings, after.strings) {
        (Some(one), Some(other)) => {
            &&& other.base == one.base
            &&& other.local_coupling_gain == one.local_coupling_gain
            &&& other.global_coupling_gain == one.global_coupling_gain
            &&& other.second is Some <==> one.second is Some
            &&& other.third is Some <==> one.third is Some
        },
        (None, None) => true,
        _ => false,
    }
}

/// No key but `touched` has changed, and nothing beside the keys has.
pub open spec fn only_key_changes(before: EngineState, touched: int, after: EngineState) -> bool {
    &&& after == EngineState { voices: after.voices, ..before }
    &&& after.voices.len() == before.voices.len()
    &&& forall|key: int|
        0 <= key < before.voices.len() && key != touched ==> #[trigger] after.voices[key]
            == before.voices[key]
}

/// A sustain that is set reaches every string of every key, whatever its place: its
/// sustain becomes the one that was asked for, kept between zero and one, and nothing else
/// of it changes.
pub proof fn a_sustain_reaches_every_string<
    P: Fn(Binary32, Binary32) -> Binary32,
    D: Fn(Binary32, Binary32) -> Binary32,
    R: Fn(PluckedString) -> Binary32,
>(
    before: EngineState,
    sustain: Binary32,
    key: int,
    place: int,
    power: &P,
    detune: &D,
    retuned: &R,
    after: EngineState,
    action: Action,
)
    requires
        before.voices.len() == 88,
        exists|engine: &mut Engine| #[trigger]
            call_ensures(
                Engine::apply::<P, D, R>,
                (engine, Command::SetSustain { sustain }, power, detune, retuned),
                action,
            ) && (*engine)@ == before && (*final(engine))@ == after,
        0 <= key < 88,
    ensures
        only_strings_change(before, after),
        action == Action::Nothing,
        string_at(after, key, place) is Some <==> string_at(before, key, place) is Some,
        string_at(before, key, place) is Some ==> {
            &&& lands(sustain, 0, 0x3f80_0000, string_at(after, key, place)->0.sustain)
            &&& string_at(after, key, place)->0 == PluckedString {
                sustain: string_at(after, key, place)->0.sustain,
                ..string_at(before, key, place)->0
            }
        },
{
}

/// A sustain that is set is the gain of every loop whose damper is up, whichever the
/// key and the place of its string, and what two fifths are taken of where its damper
/// is down.
pub proof fn a_sustain_is_the_gain_of_every_loop<
    P: Fn(Binary32, Binary32) -> Binary32,
    D: Fn(Binary32, Binary32) -> Binary32,
    R: Fn(PluckedString) -> Binary32,
    T: Fn(Binary32, Binary32) -> Binary32,
>(
    before: EngineState,
    sustain: Binary32,
    key: int,
    place: int,
    power: &P,
    detune: &D,
    retuned: &R,
    after: EngineState,
    action: Action,
    string: &PluckedString,
    times: &T,
    gain: Binary32,
)
    requires
        before.voices.len() == 88,
        exists|engine: &mut Engine| #[trigger]
            call_ensures(
                Engine::apply::<P, D, R>,
                (engine, Command::SetSustain { sustain }, power, detune, retuned),
                action,
            ) && (*engine)@ == before && (*final(engine))@ == after,
        0 <= key < 88,
        string_at(after, key, place) == Some(*string),
        call_ensures(PluckedString::loop_gain::<T>, (string, times), gain),
    ensures
        !string.damper_engaged ==> lands(sustain, 0, 0x3f80_0000, gain),
        string.damper_engaged ==> exists|set: Binary32| #[trigger]
            lands(sustain, 0, 0x3f80_0000, set) && times.ensures(
                (set, Binary32 { bits: 0x3ecc_cccd }),
                gain,
            ),
{
    a_sustain_reaches_every_string(
        before,
        sustain,
        key,
        place,
        power,
        detune,
        retuned,
        after,
        action,
    );
}

/// A damping that is set reaches every string of every key, whatever its place: its
/// damping becomes the one that was asked for, kept between zero and one, its loop is
/// retuned for it, and nothing else of it changes.
pub proof fn a_damping_reaches_every_string<
    P: Fn(Binary32, Binary32) -> Binary32,
    D: Fn(Binary32, Binary32) -> Binary32,
    R: Fn(PluckedString) -> Binary32,
>(
    before: EngineState,
    damping: Binary32,
    key: int,
    place: int,
    power: &P,
    detune: &D,
    retuned: &R,
    after: EngineState,
    action: Action,
)
    requires
        before.voices.len() == 88,
        exists|engine: &mut Engine| #[trigger]
            call_ensures(
                Engine::apply::<P, D, R>,
                (engine, Command::SetDamping { damping }, power, detune, retuned),
                action,
            ) && (*engine)@ == before && (*final(engine))@ == after,
        0 <= key < 88,
    ensures
        only_strings_change(before, after),
        action == Action::RetuneAll,
        string_at(after, key, place) is Some <==> string_at(before, key, place) is Some,
        string_at(before, key, place) is Some
            ==> lands(damping, 0, 0x3f80_0000, string_at(after, key, place)->0.damping),
        string_at(before, key, place) is Some ==> exists|set: PluckedString, delay: Binary32|
            {
                &&& set == PluckedString {
                    damping: string_at(after, key, place)->0.damping,
                    ..string_at(before, key, place)->0
                }
                &&& #[trigger] retuned.ensures((set,), delay)
                &&& delay.within(
                    Binary32 { bits: 0x4000_0000 },
                    Binary32::natural(set.max_delay - 1),
                ) ==> string_at(after, key, place)->0.loop_delay == delay
                &&& string_at(after, key, place)->0 == PluckedString {
                    loop_delay: string_at(after, key, place)->0.loop_delay,
                    ..set
                }
            },
{
}

/// A local coupling gain that is set reaches every key that has strings: its gain becomes
/// the one that was asked for, kept between zero and one, and nothing else changes.
pub proof fn a_local_coupling_gain_reaches_every_key<
    P: Fn(Binary32, Binary32) -> Binary32,
    D: Fn(Binary32, Binary32) -> Binary32,
    R: Fn(PluckedString) -> Binary32,
>(
    before: EngineState,
    gain: Binary32,
    key: int,
    power: &P,
    detune: &D,
    retuned: &R,
    after: EngineState,
    action: Action,
)
    requires
        before.voices.len() == 88,
        exists|engine: &mut Engine| #[trigger]
            call_ensures(
                Engine::apply::<P, D, R>,
                (engine, Command::SetLocalCouplingGain { gain }, power, detune, retuned),
                action,
            ) && (*engine)@ == before && (*final(engine))@ == after,
        0 <= key < 88,
    ensures
        after == (EngineState { voices: after.voices, ..before }),
        after.voices.len() == 88,
        action == Action::Nothing,
        before.voices[key].strings is None ==> after.voices[key] == before.voices[key],
        before.voices[key].strings is Some ==> {
            &&& after.voices[key] == Voice {
                strings: after.voices[key].strings,
                ..before.voices[key]
            }
            &&& after.voices[key].strings is Some
            &&& lands(gain, 0, 0x3f80_0000, after.voices[key].strings->0.local_coupling_gain)
            &&& after.voices[key].strings->0 == UnisonGroup {
                local_coupling_gain: after.voices[key].strings->0.local_coupling_gain,
                ..before.voices[key].strings->0
            }
        },
{
}

/// A global coupling gain that is set reaches every key that has strings: its gain becomes
/// the one that was asked for, kept between zero and one, and nothing else changes.
pub proof fn a_global_coupling_gain_reaches_every_key<
    P: Fn(Binary32, Binary32) -> Binary32,
    D: Fn(Binary32, Binary32) -> Binary32,
    R: Fn(PluckedString) -> Binary32,
>(
    before: EngineState,
    gain: Binary32,
    key: int,
    power: &P,
    detune: &D,
    retuned: &R,
    after: EngineState,
    action: Action,
)
    requires
        before.voices.len() == 88,
        exists|engine: &mut Engine| #[trigger]
            call_ensures(
                Engine::apply::<P, D, R>,
                (engine, Command::SetGlobalCouplingGain { gain }, power, detune, retuned),
                action,
            ) && (*engine)@ == before && (*final(engine))@ == after,
        0 <= key < 88,
    ensures
        after == (EngineState { voices: after.voices, ..before }),
        after.voices.len() == 88,
        action == Action::Nothing,
        before.voices[key].strings is None ==> after.voices[key] == before.voices[key],
        before.voices[key].strings is Some ==> {
            &&& after.voices[key] == Voice {
                strings: after.voices[key].strings,
                ..before.voices[key]
            }
            &&& after.voices[key].strings is Some
            &&& lands(gain, 0, 0x3f80_0000, after.voices[key].strings->0.global_coupling_gain)
            &&& after.voices[key].strings->0 == UnisonGroup {
                global_coupling_gain: after.voices[key].strings->0.global_coupling_gain,
                ..before.voices[key].strings->0
            }
        },
{
}

/// A note that is struck has every one of its strings struck, whatever its place: each
/// damper is up and each envelope stands at what the velocity curve makes of the
/// velocity, all alike. The key is held and its release, if one waited, is forgotten. No
/// other key changes, and the renderer is told which key to strike and how hard.
pub proof fn a_strike_reaches_every_string_of_its_key<
    P: Fn(Binary32, Binary32) -> Binary32,
    D: Fn(Binary32, Binary32) -> Binary32,
    R: Fn(PluckedString) -> Binary32,
>(
    before: EngineState,
    midi: u8,
    velocity: Binary32,
    place: int,
    power: &P,
    detune: &D,
    retuned: &R,
    after: EngineState,
    action: Action,
)
    requires
        before.voices.len() == 88,
        exists|engine: &mut Engine| #[trigger]
            call_ensures(
                Engine::apply::<P, D, R>,
                (engine, Command::NoteOn { midi, velocity }, power, detune, retuned),
                action,
            ) && (*engine)@ == before && (*final(engine))@ == after,
        21 <= midi <= 108,
    ensures
        only_key_changes(before, midi - 21, after),
        after.voices[midi - 21].held,
        !after.voices[midi - 21].pending_pedal_release,
        keeps_its_places(before.voices[midi - 21], after.voices[midi - 21]),
        exists|raw: Binary32, curve: Binary32, raised: Binary32, warped: Binary32|
            {
                &&& #[trigger] lands(velocity, 0, 0x3f80_0000, raw)
                &&& #[trigger] lands(
                    before.velocity_exponent,
                    0x3e80_0000,
                    0x40c0_0000,
                    curve,
                )
                &&& #[trigger] power.ensures((raw, curve), raised)
                &&& #[trigger] lands(raised, 0, 0x3f80_0000, warped)
                &&& string_at(before, midi - 21, place) is Some ==> string_at(
                    after,
                    midi - 21,
                    place,
                ) == Some(
                    PluckedString {
                        envelope: warped,
                        damper_engaged: false,
                        ..string_at(before, midi - 21, place)->0
                    },
                )
                &&& before.voices[midi - 21].strings is Some ==> action == Action::Strike {
                    key: (midi - 21) as usize,
                    velocity: warped,
                }
                &&& before.voices[midi - 21].strings is None ==> action == Action::Nothing
            },
{
    let exponent = before.velocity_exponent;
    let heard = choose|heard: Command|
        {
            &&& #[trigger] crate::engine::is_heard_as(
                Command::NoteOn { midi, velocity },
                exponent,
                *power,
                heard,
            )
            &&& before.becomes(heard, *detune, *retuned, after)
            &&& action == before.action(heard)
        };
    let warped = heard->NoteOn_velocity;
    assert(crate::velocity_curve::is_warped(velocity, exponent, *power, warped));
    let raw = crate::string::normalised(velocity);
    let curve = crate::velocity_curve::curved(exponent);
    let raised = choose|raised: Binary32| #[trigger]
        power.ensures((raw, curve), raised) && warped == crate::string::normalised(raised);
    assert(lands(velocity, 0, 0x3f80_0000, raw));
    assert(lands(exponent, 0x3e80_0000, 0x40c0_0000, curve));
    assert(lands(raised, 0, 0x3f80_0000, warped));
}

/// A note that is let go has every one of its dampers down at once, where the pedal is
/// up; where the pedal is down its strings ring on as they were, and the release waits
/// for the pedal. No other key changes.
pub proof fn a_release_reaches_every_string_of_its_key<
    P: Fn(Binary32, Binary32) -> Binary32,
    D: Fn(Binary32, Binary32) -> Binary32,
    R: Fn(PluckedString) -> Binary32,
>(
    before: EngineState,
    midi: u8,
    place: int,
    power: &P,
    detune: &D,
    retuned: &R,
    after: EngineState,
    action: Action,
)
    requires
        before.voices.len() == 88,
        exists|engine: &mut Engine| #[trigger]
            call_ensures(
                Engine::apply::<P, D, R>,
                (engine, Command::NoteOff { midi }, power, detune, retuned),
                action,
            ) && (*engine)@ == before && (*final(engine))@ == after,
        21 <= midi <= 108,
    ensures
        only_key_changes(before, midi - 21, after),
        action == Action::Nothing,
        !after.voices[midi - 21].held,
        before.pedal_down ==> after.voices[midi - 21].pending_pedal_release,
        !before.pedal_down
            ==> after.voices[midi - 21].pending_pedal_release
                == before.voices[midi - 21].pending_pedal_release,
        keeps_its_places(before.voices[midi - 21], after.voices[midi - 21]),
        before.pedal_down
            ==> string_at(after, midi - 21, place) == string_at(before, midi - 21, place),
        !before.pedal_down && string_at(before, midi - 21, place) is Some
            ==> string_at(after, midi - 21, place) == Some(
            PluckedString { damper_engaged: true, ..string_at(before, midi - 21, place)->0 },
        ),
{
}

/// Moving the pedal moves the dampers of every string of every key that is not held, and
/// of no key that is: up as it goes down, and down as it comes up. Waiting releases are
/// over once it is up. A pedal that is already there moves nothing.
pub proof fn a_pedal_moves_every_damper_that_no_finger_holds<
    P: Fn(Binary32, Binary32) -> Binary32,
    D: Fn(Binary32, Binary32) -> Binary32,
    R: Fn(PluckedString) -> Binary32,
>(
    before: EngineState,
    down: bool,
    key: int,
    place: int,
    power: &P,
    detune: &D,
    retuned: &R,
    after: EngineState,
    action: Action,
)
    requires
        before.voices.len() == 88,
        exists|engine: &mut Engine| #[trigger]
            call_ensures(
                Engine::apply::<P, D, R>,
                (engine, Command::SustainPedal { down }, power, detune, retuned),
                action,
            ) && (*engine)@ == before && (*final(engine))@ == after,
        0 <= key < 88,
    ensures
        after == (EngineState { voices: after.voices, pedal_down: down, ..before }),
        after.voices.len() == 88,
        action == Action::Nothing,
        after.voices[key].held == before.voices[key].held,
        before.voices[key].held || before.pedal_down == down
            ==> after.voices[key] == before.voices[key],
        keeps_its_places(before.voices[key], after.voices[key]),
        !before.voices[key].held && before.pedal_down != down
            && string_at(before, key, place) is Some
            ==> string_at(after, key, place) == Some(
            PluckedString { damper_engaged: !down, ..string_at(before, key, place)->0 },
        ),
        !before.voices[key].held && before.pedal_down && !down
            ==> !after.voices[key].pending_pedal_release,
        !before.pedal_down && down
            ==> after.voices[key].pending_pedal_release == before.voices[key].pending_pedal_release,
{
}

/// Silencing reaches every string of every key: each envelope is zero and each damper is
/// down, and no key is held or waits for the pedal, which stays where it is.
pub proof fn silence_reaches_every_string<
    P: Fn(Binary32, Binary32) -> Binary32,
    D: Fn(Binary32, Binary32) -> Binary32,
    R: Fn(PluckedString) -> Binary32,
>(
    before: EngineState,
    key: int,
    place: int,
    power: &P,
    detune: &D,
    retuned: &R,
    after: EngineState,
    action: Action,
)
    requires
        before.voices.len() == 88,
        exists|engine: &mut Engine| #[trigger]
            call_ensures(
                Engine::apply::<P, D, R>,
                (engine, Command::AllNotesOff, power, detune, retuned),
                action,
            ) && (*engine)@ == before && (*final(engine))@ == after,
        0 <= key < 88,
    ensures
        after == (EngineState { voices: after.voices, ..before }),
        after.voices.len() == 88,
        action == Action::Silence,
        !after.voices[key].held,
        !after.voices[key].pending_pedal_release,
        keeps_its_places(before.voices[key], after.voices[key]),
        string_at(before, key, place) is Some ==> string_at(after, key, place) == Some(
            PluckedString {
                envelope: Binary32 { bits: 0 },
                damper_engaged: true,
                ..string_at(before, key, place)->0
            },
        ),
{
}

/// The sustain of one string is set on that string, whatever its place, and on no other.
pub proof fn a_strings_sustain_is_its_own<
    P: Fn(Binary32, Binary32) -> Binary32,
    D: Fn(Binary32, Binary32) -> Binary32,
    R: Fn(PluckedString) -> Binary32,
>(
    before: EngineState,
    midi: u8,
    string_index: u8,
    sustain: Binary32,
    place: int,
    power: &P,
    detune: &D,
    retuned: &R,
    after: EngineState,
    action: Action,
)
    requires
        before.voices.len() == 88,
        exists|engine: &mut Engine| #[trigger]
            call_ensures(
                Engine::apply::<P, D, R>,
                (
                    engine,
                    Command::SetStringSustain { midi, string_index, sustain },
                    power,
                    detune,
                    retuned,
                ),
                action,
            ) && (*engine)@ == before && (*final(engine))@ == after,
        21 <= midi <= 108,
    ensures
        only_key_changes(before, midi - 21, after),
        after.voices[midi - 21].held == before.voices[midi - 21].held,
        after.voices[midi - 21].pending_pedal_release
            == before.voices[midi - 21].pending_pedal_release,
        keeps_its_places(before.voices[midi - 21], after.voices[midi - 21]),
        place != string_index
            ==> string_at(after, midi - 21, place) == string_at(before, midi - 21, place),
        action == Action::Nothing,
        string_at(before, midi - 21, string_index as int) is Some ==> {
            &&& string_at(after, midi - 21, string_index as int) is Some
            &&& lands(
                sustain,
                0,
                0x3f80_0000,
                string_at(after, midi - 21, string_index as int)->0.sustain,
            )
            &&& string_at(after, midi - 21, string_index as int)->0 == PluckedString {
                sustain: string_at(after, midi - 21, string_index as int)->0.sustain,
                ..string_at(before, midi - 21, string_index as int)->0
            }
        },
{
}

/// The seed of one string is set on that string, whatever its place, and on no other.
pub proof fn a_strings_seed_is_its_own<
    P: Fn(Binary32, Binary32) -> Binary32,
    D: Fn(Binary32, Binary32) -> Binary32,
    R: Fn(PluckedString) -> Binary32,
>(
    before: EngineState,
    midi: u8,
    string_index: u8,
    seed: u32,
    place: int,
    power: &P,
    detune: &D,
    retuned: &R,
    after: EngineState,
    action: Action,
)
    requires
        before.voices.len() == 88,
        exists|engine: &mut Engine| #[trigger]
            call_ensures(
                Engine::apply::<P, D, R>,
                (
                    engine,
                    Command::SetStringSeed { midi, string_index, seed },
                    power,
                    detune,
                    retuned,
                ),
                action,
            ) && (*engine)@ == before && (*final(engine))@ == after,
        21 <= midi <= 108,
    ensures
        only_key_changes(before, midi - 21, after),
        after.voices[midi - 21].held == before.voices[midi - 21].held,
        after.voices[midi - 21].pending_pedal_release
            == before.voices[midi - 21].pending_pedal_release,
        keeps_its_places(before.voices[midi - 21], after.voices[midi - 21]),
        place != string_index
            ==> string_at(after, midi - 21, place) == string_at(before, midi - 21, place),
        action == Action::Nothing,
        string_at(before, midi - 21, string_index as int) is Some
            ==> string_at(after, midi - 21, string_index as int) == Some(
                PluckedString { seed, ..string_at(before, midi - 21, string_index as int)->0 },
            ),
{
}

/// The hammer of one string is set on that string, whatever its place, and on no other.
pub proof fn a_strings_hammer_is_its_own<
    P: Fn(Binary32, Binary32) -> Binary32,
    D: Fn(Binary32, Binary32) -> Binary32,
    R: Fn(PluckedString) -> Binary32,
>(
    before: EngineState,
    midi: u8,
    string_index: u8,
    hammer: HammerConfig,
    place: int,
    power: &P,
    detune: &D,
    retuned: &R,
    after: EngineState,
    action: Action,
)
    requires
        before.voices.len() == 88,
        exists|engine: &mut Engine| #[trigger]
            call_ensures(
                Engine::apply::<P, D, R>,
                (
                    engine,
                    Command::SetStringHammer { midi, string_index, hammer },
                    power,
                    detune,
                    retuned,
                ),
                action,
            ) && (*engine)@ == before && (*final(engine))@ == after,
        21 <= midi <= 108,
    ensures
        only_key_changes(before, midi - 21, after),
        after.voices[midi - 21].held == before.voices[midi - 21].held,
        after.voices[midi - 21].pending_pedal_release
            == before.voices[midi - 21].pending_pedal_release,
        keeps_its_places(before.voices[midi - 21], after.voices[midi - 21]),
        place != string_index
            ==> string_at(after, midi - 21, place) == string_at(before, midi - 21, place),
        action == Action::Nothing,
        string_at(before, midi - 21, string_index as int) is Some
            ==> string_at(after, midi - 21, string_index as int) == Some(
                PluckedString { hammer, ..string_at(before, midi - 21, string_index as int)->0 },
            ),
{
}

/// The damping of one string is set on that string, whatever its place, and on no other; its
/// loop is retuned for it.
pub proof fn a_strings_damping_is_its_own<
    P: Fn(Binary32, Binary32) -> Binary32,
    D: Fn(Binary32, Binary32) -> Binary32,
    R: Fn(PluckedString) -> Binary32,
>(
    before: EngineState,
    midi: u8,
    string_index: u8,
    damping: Binary32,
    place: int,
    power: &P,
    detune: &D,
    retuned: &R,
    after: EngineState,
    action: Action,
)
    requires
        before.voices.len() == 88,
        exists|engine: &mut Engine| #[trigger]
            call_ensures(
                Engine::apply::<P, D, R>,
                (
                    engine,
                    Command::SetStringDamping { midi, string_index, damping },
                    power,
                    detune,
                    retuned,
                ),
                action,
            ) && (*engine)@ == before && (*final(engine))@ == after,
        21 <= midi <= 108,
    ensures
        only_key_changes(before, midi - 21, after),
        after.voices[midi - 21].held == before.voices[midi - 21].held,
        after.voices[midi - 21].pending_pedal_release
            == before.voices[midi - 21].pending_pedal_release,
        keeps_its_places(before.voices[midi - 21], after.voices[midi - 21]),
        place != string_index
            ==> string_at(after, midi - 21, place) == string_at(before, midi - 21, place),
        string_at(before, midi - 21, string_index as int) is Some
            ==> action == (
                Action::Retune { key: (midi - 21) as usize, string: string_index as usize }
            ),
        string_at(before, midi - 21, string_index as int) is None ==> action == Action::Nothing,
        string_at(before, midi - 21, string_index as int) is Some
            ==> string_at(after, midi - 21, string_index as int) is Some
                && lands(
                    damping,
                    0,
                    0x3f80_0000,
                    string_at(after, midi - 21, string_index as int)->0.damping,
                ),
        string_at(before, midi - 21, string_index as int) is Some
            ==> exists|set: PluckedString, delay: Binary32|
            {
                &&& set == PluckedString {
                    damping: string_at(after, midi - 21, string_index as int)->0.damping,
                    ..string_at(before, midi - 21, string_index as int)->0
                }
                &&& #[trigger] retuned.ensures((set,), delay)
                &&& delay.within(
                    Binary32 { bits: 0x4000_0000 },
                    Binary32::natural(set.max_delay - 1),
                ) ==> string_at(after, midi - 21, string_index as int)->0.loop_delay == delay
                &&& string_at(after, midi - 21, string_index as int)->0 == PluckedString {
                    loop_delay: string_at(after, midi - 21, string_index as int)->0.loop_delay,
                    ..set
                }
            },
{
}

/// The inharmonicity of one string is set on that string, whatever its place, and on no other; its
/// loop is retuned for it.
pub proof fn a_strings_inharmonicity_is_its_own<
    P: Fn(Binary32, Binary32) -> Binary32,
    D: Fn(Binary32, Binary32) -> Binary32,
    R: Fn(PluckedString) -> Binary32,
>(
    before: EngineState,
    midi: u8,
    string_index: u8,
    inharmonicity: Binary32,
    place: int,
    power: &P,
    detune: &D,
    retuned: &R,
    after: EngineState,
    action: Action,
)
    requires
        before.voices.len() == 88,
        exists|engine: &mut Engine| #[trigger]
            call_ensures(
                Engine::apply::<P, D, R>,
                (
                    engine,
                    Command::SetStringInharmonicity { midi, string_index, inharmonicity },
                    power,
                    detune,
                    retuned,
                ),
                action,
            ) && (*engine)@ == before && (*final(engine))@ == after,
        21 <= midi <= 108,
    ensures
        only_key_changes(before, midi - 21, after),
        after.voices[midi - 21].held == before.voices[midi - 21].held,
        after.voices[midi - 21].pending_pedal_release
            == before.voices[midi - 21].pending_pedal_release,
        keeps_its_places(before.voices[midi - 21], after.voices[midi - 21]),
        place != string_index
            ==> string_at(after, midi - 21, place) == string_at(before, midi - 21, place),
        string_at(before, midi - 21, string_index as int) is Some
            ==> action == (
                Action::Retune { key: (midi - 21) as usize, string: string_index as usize }
            ),
        string_at(before, midi - 21, string_index as int) is None ==> action == Action::Nothing,
        string_at(before, midi - 21, string_index as int) is Some
            ==> string_at(after, midi - 21, string_index as int) is Some
                && lands(
                    inharmonicity,
                    0,
                    0x3d4c_cccd,
                    string_at(after, midi - 21, string_index as int)->0.inharmonicity,
                ),
        string_at(before, midi - 21, string_index as int) is Some
            ==> exists|set: PluckedString, delay: Binary32|
            {
                &&& set == PluckedString {
                    inharmonicity: string_at(after, midi - 21, string_index as int)->0.inharmonicity,
                    ..string_at(before, midi - 21, string_index as int)->0
                }
                &&& #[trigger] retuned.ensures((set,), delay)
                &&& delay.within(
                    Binary32 { bits: 0x4000_0000 },
                    Binary32::natural(set.max_delay - 1),
                ) ==> string_at(after, midi - 21, string_index as int)->0.loop_delay == delay
                &&& string_at(after, midi - 21, string_index as int)->0 == PluckedString {
                    loop_delay: string_at(after, midi - 21, string_index as int)->0.loop_delay,
                    ..set
                }
            },
{
}

/// The detune of one string is set on that string, whatever its place, and on no other: it
/// is tuned to where the cents move the pitch of its key, or to that pitch itself where
/// they move it out of reach, and its loop is retuned for it.
pub proof fn a_strings_detune_is_its_own<
    P: Fn(Binary32, Binary32) -> Binary32,
    D: Fn(Binary32, Binary32) -> Binary32,
    R: Fn(PluckedString) -> Binary32,
>(
    before: EngineState,
    midi: u8,
    string_index: u8,
    cents: Binary32,
    place: int,
    power: &P,
    detune: &D,
    retuned: &R,
    after: EngineState,
    action: Action,
)
    requires
        before.voices.len() == 88,
        exists|engine: &mut Engine| #[trigger]
            call_ensures(
                Engine::apply::<P, D, R>,
                (
                    engine,
                    Command::SetStringDetune { midi, string_index, cents },
                    power,
                    detune,
                    retuned,
                ),
                action,
            ) && (*engine)@ == before && (*final(engine))@ == after,
        21 <= midi <= 108,
    ensures
        only_key_changes(before, midi - 21, after),
        after.voices[midi - 21].held == before.voices[midi - 21].held,
        after.voices[midi - 21].pending_pedal_release
            == before.voices[midi - 21].pending_pedal_release,
        keeps_its_places(before.voices[midi - 21], after.voices[midi - 21]),
        place != string_index
            ==> string_at(after, midi - 21, place) == string_at(before, midi - 21, place),
        action == Action::Nothing,
        string_at(before, midi - 21, string_index as int) is Some
            ==> exists|moved: Binary32, set: PluckedString, delay: Binary32|
            {
                &&& #[trigger] detune.ensures(
                    (before.voices[midi - 21].strings->0.base.value(), cents),
                    moved,
                )
                &&& moved.finite() && moved.rank() > 0
                    ==> string_at(after, midi - 21, string_index as int)->0.frequency.value()
                        == moved
                &&& !(moved.finite() && moved.rank() > 0)
                    ==> string_at(after, midi - 21, string_index as int)->0.frequency
                    == before.voices[midi - 21].strings->0.base
                &&& set == PluckedString {
                    frequency: string_at(after, midi - 21, string_index as int)->0.frequency,
                    ..string_at(before, midi - 21, string_index as int)->0
                }
                &&& #[trigger] retuned.ensures((set,), delay)
                &&& delay.within(
                    Binary32 { bits: 0x4000_0000 },
                    Binary32::natural(
                        string_at(before, midi - 21, string_index as int)->0.max_delay - 1,
                    ),
                ) ==> string_at(after, midi - 21, string_index as int)->0.loop_delay == delay
                &&& string_at(after, midi - 21, string_index as int)->0 == PluckedString {
                    frequency: string_at(after, midi - 21, string_index as int)->0.frequency,
                    loop_delay: string_at(after, midi - 21, string_index as int)->0.loop_delay,
                    ..string_at(before, midi - 21, string_index as int)->0
                }
            },
{
    let heard = Command::SetStringDetune { midi, string_index, cents };
    let voice = before.voices[midi - 21];
    assert(before.becomes(heard, *detune, *retuned, after));
    assert(voice.becomes(
        before.pedal_down,
        heard,
        *detune,
        *retuned,
        after.voices[midi - 21],
    ));
    if voice.strings is Some {
        let settled = choose|settled: Voice|
            {
                &&& #[trigger] voice.settles(before.pedal_down, heard, *detune, settled)
                &&& after.voices[midi - 21] == Voice {
                    strings: after.voices[midi - 21].strings,
                    ..settled
                }
                &&& after.voices[midi - 21].strings matches Some(group)
                    && crate::unison::is_tuned(
                    settled.strings->0,
                    Some(string_index as int),
                    *retuned,
                    group,
                )
            };
        let group = voice.strings->0;
        let moved = choose|moved: Binary32| #[trigger]
            detune.ensures((group.base.value(), cents), moved) && settled == Voice {
                strings: Some(group.moved_to(string_index as int, moved)),
                ..voice
            };
        group.base.kept_value(moved);
    }
}

/// The mix gain of the board becomes the one that was asked for, kept in range, and nothing
/// else changes.
pub proof fn the_soundboard_mix_gain_is_set<
    P: Fn(Binary32, Binary32) -> Binary32,
    D: Fn(Binary32, Binary32) -> Binary32,
    R: Fn(PluckedString) -> Binary32,
>(
    before: EngineState,
    gain: Binary32,
    power: &P,
    detune: &D,
    retuned: &R,
    after: EngineState,
    action: Action,
)
    requires
        before.voices.len() == 88,
        exists|engine: &mut Engine| #[trigger]
            call_ensures(
                Engine::apply::<P, D, R>,
                (engine, Command::SetSoundboardMixGain { gain }, power, detune, retuned),
                action,
            ) && (*engine)@ == before && (*final(engine))@ == after,
    ensures
        action == Action::Nothing,
        lands(gain, 0, 0x4000_0000, after.soundboard_mix_gain),
        after.voices =~= before.voices,
        after == (
            EngineState {
                voices: after.voices,
                soundboard_mix_gain: after.soundboard_mix_gain,
                ..before
            }
        ),
{
}

/// The master gain becomes the one that was asked for, kept in range, and nothing
/// else changes.
pub proof fn the_master_gain_is_set<
    P: Fn(Binary32, Binary32) -> Binary32,
    D: Fn(Binary32, Binary32) -> Binary32,
    R: Fn(PluckedString) -> Binary32,
>(
    before: EngineState,
    gain: Binary32,
    power: &P,
    detune: &D,
    retuned: &R,
    after: EngineState,
    action: Action,
)
    requires
        before.voices.len() == 88,
        exists|engine: &mut Engine| #[trigger]
            call_ensures(
                Engine::apply::<P, D, R>,
                (engine, Command::SetMasterGain { gain }, power, detune, retuned),
                action,
            ) && (*engine)@ == before && (*final(engine))@ == after,
    ensures
        action == Action::Nothing,
        lands(gain, 0, 0x4080_0000, after.master_gain),
        after.voices =~= before.voices,
        after == (EngineState { voices: after.voices, master_gain: after.master_gain, ..before }),
{
}

/// The exponent of the velocity curve becomes the one that was asked for, kept in range, and nothing
/// else changes.
pub proof fn the_velocity_exponent_is_set<
    P: Fn(Binary32, Binary32) -> Binary32,
    D: Fn(Binary32, Binary32) -> Binary32,
    R: Fn(PluckedString) -> Binary32,
>(
    before: EngineState,
    exponent: Binary32,
    power: &P,
    detune: &D,
    retuned: &R,
    after: EngineState,
    action: Action,
)
    requires
        before.voices.len() == 88,
        exists|engine: &mut Engine| #[trigger]
            call_ensures(
                Engine::apply::<P, D, R>,
                (engine, Command::SetVelocityCurve { exponent }, power, detune, retuned),
                action,
            ) && (*engine)@ == before && (*final(engine))@ == after,
    ensures
        action == Action::Nothing,
        lands(exponent, 0x3e80_0000, 0x40c0_0000, after.velocity_exponent),
        after.voices =~= before.voices,
        after == (
            EngineState {
                voices: after.voices,
                velocity_exponent: after.velocity_exponent,
                ..before
            }
        ),
{
}

/// A mode of the board becomes the one that was asked for, each part of it kept in range;
/// no other mode and nothing else changes. A mode that the board does not have changes
/// nothing.
pub proof fn a_boards_mode_is_set<
    P: Fn(Binary32, Binary32) -> Binary32,
    D: Fn(Binary32, Binary32) -> Binary32,
    R: Fn(PluckedString) -> Binary32,
>(
    before: EngineState,
    index: usize,
    mode: SoundboardMode,
    other: int,
    power: &P,
    detune: &D,
    retuned: &R,
    after: EngineState,
    action: Action,
)
    requires
        before.voices.len() == 88,
        exists|engine: &mut Engine| #[trigger]
            call_ensures(
                Engine::apply::<P, D, R>,
                (engine, Command::SetSoundboardMode { index, mode }, power, detune, retuned),
                action,
            ) && (*engine)@ == before && (*final(engine))@ == after,
        before.modes.len() == 8,
    ensures
        after.voices =~= before.voices,
        after == (EngineState { voices: after.voices, modes: after.modes, ..before }),
        after.modes.len() == 8,
        0 <= other < 8 && other != index ==> after.modes[other] == before.modes[other],
        index < 8 ==> {
            &&& lands(
                mode.frequency_hz,
                0x3f80_0000,
                0x469c_4000,
                after.modes[index as int].frequency_hz,
            )
            &&& lands(
                mode.decay_seconds,
                0x3c23_d70a,
                0x7f7f_ffff,
                after.modes[index as int].decay_seconds,
            )
            &&& lands(mode.gain, 0, 0x4080_0000, after.modes[index as int].gain)
            &&& action == Action::RebuildMode { index }
        },
        index >= 8 ==> after.modes == before.modes && action == Action::Nothing,
{
}

/// A command for a note that is not on the keyboard changes nothing and asks for nothing.
pub proof fn notes_off_the_keyboard_change_nothing<
    P: Fn(Binary32, Binary32) -> Binary32,
    D: Fn(Binary32, Binary32) -> Binary32,
    R: Fn(PluckedString) -> Binary32,
>(
    before: EngineState,
    command: Command,
    midi: u8,
    power: &P,
    detune: &D,
    retuned: &R,
    after: EngineState,
    action: Action,
)
    requires
        before.voices.len() == 88,
        exists|engine: &mut Engine| #[trigger]
            call_ensures(
                Engine::apply::<P, D, R>,
                (engine, command, power, detune, retuned),
                action,
            ) && (*engine)@ == before && (*final(engine))@ == after,
        midi < 21 || midi > 108,
        command is NoteOff && command->NoteOff_midi == midi || command is NoteOn
            && command->NoteOn_midi
            == midi || command is SetStringDamping && command->SetStringDamping_midi == midi
            || command is SetStringSustain && command->SetStringSustain_midi == midi || command
            is SetStringInharmonicity && command->SetStringInharmonicity_midi == midi || command
            is SetStringDetune && command->SetStringDetune_midi == midi || command
            is SetStringSeed && command->SetStringSeed_midi == midi || command is SetStringHammer
            && command->SetStringHammer_midi == midi,
    ensures
        after.voices =~= before.voices,
        after == (EngineState { voices: after.voices, ..before }),
        action == Action::Nothing,
{
}

} // verus!
