//! What an engine begins with, what it is asked, and that what it is told reaches the
//! paths of the strings it is told about.
use crate::binary32::Binary32;
use crate::bounds_laws::lands;
use crate::command_laws::{keeps_its_places, only_key_changes, string_at};
use crate::commands::Command;
use crate::engine;
use crate::engine::{Engine, EngineState, Voice};
use crate::hammer::HammerConfig;
use crate::playing;
use crate::playing::{Keyboard, Settings};
use crate::queue;
use crate::sounding::Arithmetic;
use crate::soundboard::{ResonatorBank, SoundboardMode};
use crate::striking::Hammers;
use crate::string;
use crate::string::PluckedString;
use crate::unison::UnisonGroup;
use crate::velocity_curve;
use crate::waveguide;
use crate::waveguide::Waveguide;
use rtrb::Consumer;
use vstd::prelude::*;

verus! {

/// An engine begins with the strings it is given, key by key, with no key held, no
/// pedal down, and its gains and its velocity curve as they are built in.
pub proof fn engines_begin_at_rest(
    groups: Vec<Option<UnisonGroup>>,
    engine: Engine,
    key: int,
)
    requires
        0 <= key < 88,
        groups@.len() == 88,
        call_ensures(Engine::new, (groups,), engine),
    ensures
        engine@.voices.len() == 88,
        engine@.voices[key].strings == groups@[key],
        !engine@.voices[key].held,
        !engine@.voices[key].pending_pedal_release,
        !engine@.pedal_down,
        engine@.soundboard_mix_gain.bits == 0x3f00_0000,
        engine@.master_gain.bits == 0x3f80_0000,
        engine@.velocity_exponent.bits == 0x3fe6_6666,
        engine@.modes.len() == 8,
{
}

/// An engine answers what it holds: the strings of each key, its modes, its pedal and
/// its gains; and a key is skipped exactly where every string it has is below
/// audibility and damped.
pub proof fn engines_answer_what_they_hold(
    engine: &Engine,
    key: usize,
    group: Option<UnisonGroup>,
    asleep: bool,
    index: usize,
    mode: Option<SoundboardMode>,
    down: bool,
    mix: Binary32,
    master: Binary32,
    exponent: Binary32,
)
    requires
        key < 88,
        engine@.voices.len() == 88,
        call_ensures(Engine::group, (engine, key), group),
        call_ensures(Engine::is_inert, (engine, key), asleep),
        call_ensures(Engine::soundboard_mode, (engine, index), mode),
        call_ensures(Engine::is_pedal_down, (engine,), down),
        call_ensures(Engine::soundboard_mix_gain, (engine,), mix),
        call_ensures(Engine::master_gain, (engine,), master),
        call_ensures(Engine::velocity_exponent, (engine,), exponent),
    ensures
        group == engine@.voices[key as int].strings,
        index < 8 ==> mode == Some(engine@.modes[index as int]),
        index >= 8 ==> mode is None,
        down == engine@.pedal_down,
        mix == engine@.soundboard_mix_gain,
        master == engine@.master_gain,
        exponent == engine@.velocity_exponent,
        asleep <==> crate::block_laws::is_asleep(engine@.voices[key as int]),
{
}

/// A note that is let go directly is let go as by command, and the pedal likewise:
/// every damper of the key goes down, or waits for the pedal; every damper that no
/// finger holds follows the pedal.
pub proof fn releases_and_pedals_reach_every_string(
    before: EngineState,
    released: EngineState,
    pedalled: EngineState,
    midi: u8,
    down: bool,
    key: int,
    place: int,
)
    requires
        before.voices.len() == 88,
        21 <= midi <= 108,
        0 <= key < 88,
        exists|engine: &mut Engine| #[trigger]
            call_ensures(Engine::note_off, (engine, midi), ())
                && (*engine)@ == before && (*final(engine))@ == released,
        exists|engine: &mut Engine| #[trigger]
            call_ensures(Engine::set_sustain_pedal, (engine, down), ())
                && (*engine)@ == before && (*final(engine))@ == pedalled,
    ensures
        only_key_changes(before, midi - 21, released),
        !released.voices[midi - 21].held,
        keeps_its_places(before.voices[midi - 21], released.voices[midi - 21]),
        before.pedal_down
            ==> released.voices[midi - 21].pending_pedal_release
                && released.voices[midi - 21].strings == before.voices[midi - 21].strings,
        !before.pedal_down && string_at(before, midi - 21, place) is Some
            ==> string_at(released, midi - 21, place) == Some(
                PluckedString { damper_engaged: true, ..string_at(before, midi - 21, place)->0 },
            ),
        pedalled.pedal_down == down,
        pedalled.voices.len() == 88,
        pedalled.voices[key].held == before.voices[key].held,
        before.voices[key].held || before.pedal_down == down
            ==> pedalled.voices[key] == before.voices[key],
        !before.voices[key].held && before.pedal_down != down
            && string_at(before, key, place) is Some
            ==> string_at(pedalled, key, place) == Some(
                PluckedString { damper_engaged: !down, ..string_at(before, key, place)->0 },
            ),
        !before.voices[key].held && before.pedal_down && !down
            ==> !pedalled.voices[key].pending_pedal_release,
{
}

/// Strings that are put back are put back at their key, and nothing else changes.
pub proof fn groups_are_put_back_at_their_key(
    before: EngineState,
    after: EngineState,
    key: usize,
    group: UnisonGroup,
)
    requires
        key < 88,
        before.voices.len() == 88,
        before.voices[key as int].strings is Some,
        exists|engine: &mut Engine| #[trigger]
            call_ensures(Engine::put_group, (engine, key, group), ())
                && (*engine)@ == before && (*final(engine))@ == after,
    ensures
        only_key_changes(before, key as int, after),
        after.voices[key as int] == (Voice { strings: Some(group), ..before.voices[key as int] }),
{
}

/// A note that is played sounds on every one of its strings, whatever its place: the
/// path of each is struck by its own hammer, at what the velocity curve makes of the
/// velocity. No other key's paths change, nor does the board.
pub proof fn played_notes_sound_on_every_string<
    S: Copy,
    I: Fn(Binary32, Binary32, Binary32, Binary32, Binary32) -> Binary32,
    A: Fn(Binary32, Binary32, Binary32) -> Binary32,
    M: Fn(Binary32, Binary32, Binary32) -> Binary32,
    F: Fn(Binary32, Binary32, Binary32) -> Binary32,
    E: Fn(Binary32, Binary32, Binary32) -> Binary32,
    H: Fn(S, Binary32, Binary32) -> (S, Binary32),
    L: Fn(S) -> bool,
    B: Fn(Binary32, Binary32, Binary32, Binary32) -> Binary32,
    X: Fn(Binary32, Binary32) -> Binary32,
    R: Fn(Binary32, Binary32, Binary32, Binary32) -> Binary32,
    P: Fn(Binary32, Binary32) -> Binary32,
    N: Fn(Binary32, Binary32) -> Binary32,
    Q: Fn(Binary32, usize) -> Binary32,
    D: Fn(Binary32, Binary32, Binary32) -> Binary32,
    W: Copy,
    Y: Fn(Binary32) -> W,
    V: Fn(HammerConfig, Binary32, W, Binary32) -> (W, Binary32),
    O: Fn(HammerConfig, Binary32) -> Binary32,
    U: Fn(Binary32, Binary32) -> Binary32,
    J: Fn(Binary32) -> Binary32,
    K: Fn(PluckedString, Binary32, Binary32, Binary32, usize) -> S,
    Z: Fn(PluckedString) -> Binary32,
    C: Copy,
    Bend: Fn(Binary32) -> Binary32,
    Retune: Fn(PluckedString) -> Binary32,
    Detune: Fn(Binary32, Binary32) -> Binary32,
    Resonate: Fn(SoundboardMode) -> C,
    Power: Fn(Binary32, Binary32) -> Binary32,
>(
    arithmetic: &Arithmetic<S, I, A, M, F, E, H, L, B, X, R, P, N, Q, D>,
    hammers: &Hammers<S, W, Y, V, O, U, J, K, Z>,
    settings: &Settings<C, Bend, Retune, Detune, Resonate, Power>,
    before: Keyboard<S, C>,
    after: Keyboard<S, C>,
    midi: u8,
    velocity: Binary32,
    other: int,
    place: int,
)
    requires
        before.engine.voices.len() == 88,
        before.paths.len() == 88,
        21 <= midi <= 108,
        before.engine.voices[midi - 21].strings is Some,
        before.engine.voices[midi - 21].strings->0.wf(),
        0 <= place < before.paths[midi - 21].len(),
        exists|
            playing: &mut Engine,
            lines: &mut Vec<Vec<Waveguide<S>>>,
            bank: &mut ResonatorBank<C>,
        |
            {
                &&& #[trigger] call_ensures(
                    Engine::obey::<
                        S, I, A, M, F, E, H, L, B, X, R, P, N, Q, D,
                        W, Y, V, O, U, J, K, Z,
                        C, Bend, Retune, Detune, Resonate, Power,
                    >,
                    (
                        playing,
                        Command::NoteOn { midi, velocity },
                        lines,
                        bank,
                        arithmetic,
                        hammers,
                        settings,
                    ),
                    (),
                )
                &&& playing::keyboard(*playing, (*lines)@, *bank) == before
                &&& playing::keyboard(*final(playing), (*final(lines))@, *final(bank)) == after
            },
    ensures
        after.paths.len() == 88,
        after.board == before.board,
        0 <= other < 88 && other != midi - 21 ==> after.paths[other] == before.paths[other],
        exists|raw: Binary32, curve: Binary32, raised: Binary32, warped: Binary32|
            {
                &&& #[trigger] lands(velocity, 0, 0x3f80_0000, raw)
                &&& #[trigger] lands(
                    before.engine.velocity_exponent,
                    0x3e80_0000,
                    0x40c0_0000,
                    curve,
                )
                &&& #[trigger] settings.power.ensures((raw, curve), raised)
                &&& #[trigger] lands(raised, 0, 0x3f80_0000, warped)
                &&& string_at(before.engine, midi - 21, place) is Some ==> {
                    &&& string_at(after.engine, midi - 21, place) == Some(
                        PluckedString {
                            envelope: warped,
                            damper_engaged: false,
                            ..string_at(before.engine, midi - 21, place)->0
                        },
                    )
                    &&& hammers.strikes(
                        string_at(after.engine, midi - 21, place)->0,
                        warped,
                        arithmetic.step,
                        arithmetic.has_left,
                        arithmetic.minus,
                        before.paths[midi - 21][place],
                        after.paths[midi - 21][place],
                    )
                }
            },
{
    let heard = choose|heard: Command|
        {
            &&& #[trigger] engine::is_heard_as(
                Command::NoteOn { midi, velocity },
                before.engine.velocity_exponent,
                settings.power,
                heard,
            )
            &&& before.engine.becomes(heard, settings.detune, settings.retuned, after.engine)
            &&& arithmetic.performs(
                *hammers,
                *settings,
                before.engine.action(heard),
                after.engine,
                before.paths,
                before.board,
                after.paths,
                after.board,
            )
        };
    let exponent = before.engine.velocity_exponent;
    let warped = heard->NoteOn_velocity;
    assert(velocity_curve::is_warped(velocity, exponent, settings.power, warped));
    let raw = string::normalised(velocity);
    let curve = velocity_curve::curved(exponent);
    let raised = choose|raised: Binary32| #[trigger]
        settings.power.ensures((raw, curve), raised) && warped == string::normalised(raised);
    assert(lands(velocity, 0, 0x3f80_0000, raw));
    assert(lands(exponent, 0x3e80_0000, 0x40c0_0000, curve));
    assert(lands(raised, 0, 0x3f80_0000, warped));
    assert(string::normalised(warped) == warped);
    let voice = after.engine.voices[midi - 21];
    assert(voice == before.engine.voices[midi - 21].after(before.engine.pedal_down, heard));
    if string_at(before.engine, midi - 21, place) is Some {
        let group = voice.strings->0;
        assert(group.at(place) == string_at(after.engine, midi - 21, place));
        assert(after.paths[midi - 21][place] == after.paths[midi - 21][place]);
    }
}

/// Silencing the instrument stills every path of every key, whatever its place.
pub proof fn silence_is_heard_on_every_string<
    S: Copy,
    I: Fn(Binary32, Binary32, Binary32, Binary32, Binary32) -> Binary32,
    A: Fn(Binary32, Binary32, Binary32) -> Binary32,
    M: Fn(Binary32, Binary32, Binary32) -> Binary32,
    F: Fn(Binary32, Binary32, Binary32) -> Binary32,
    E: Fn(Binary32, Binary32, Binary32) -> Binary32,
    H: Fn(S, Binary32, Binary32) -> (S, Binary32),
    L: Fn(S) -> bool,
    B: Fn(Binary32, Binary32, Binary32, Binary32) -> Binary32,
    X: Fn(Binary32, Binary32) -> Binary32,
    R: Fn(Binary32, Binary32, Binary32, Binary32) -> Binary32,
    P: Fn(Binary32, Binary32) -> Binary32,
    N: Fn(Binary32, Binary32) -> Binary32,
    Q: Fn(Binary32, usize) -> Binary32,
    D: Fn(Binary32, Binary32, Binary32) -> Binary32,
    W: Copy,
    Y: Fn(Binary32) -> W,
    V: Fn(HammerConfig, Binary32, W, Binary32) -> (W, Binary32),
    O: Fn(HammerConfig, Binary32) -> Binary32,
    U: Fn(Binary32, Binary32) -> Binary32,
    J: Fn(Binary32) -> Binary32,
    K: Fn(PluckedString, Binary32, Binary32, Binary32, usize) -> S,
    Z: Fn(PluckedString) -> Binary32,
    C: Copy,
    Bend: Fn(Binary32) -> Binary32,
    Retune: Fn(PluckedString) -> Binary32,
    Detune: Fn(Binary32, Binary32) -> Binary32,
    Resonate: Fn(SoundboardMode) -> C,
    Power: Fn(Binary32, Binary32) -> Binary32,
>(
    arithmetic: &Arithmetic<S, I, A, M, F, E, H, L, B, X, R, P, N, Q, D>,
    hammers: &Hammers<S, W, Y, V, O, U, J, K, Z>,
    settings: &Settings<C, Bend, Retune, Detune, Resonate, Power>,
    before: Keyboard<S, C>,
    after: Keyboard<S, C>,
    key: int,
    place: int,
    age: int,
)
    requires
        before.engine.voices.len() == 88,
        before.paths.len() == 88,
        0 <= key < 88,
        0 <= place < before.paths[key].len(),
        0 <= age < before.paths[key][place].line.len(),
        exists|
            playing: &mut Engine,
            lines: &mut Vec<Vec<Waveguide<S>>>,
            bank: &mut ResonatorBank<C>,
        |
            {
                &&& #[trigger] call_ensures(
                    Engine::obey::<
                        S, I, A, M, F, E, H, L, B, X, R, P, N, Q, D,
                        W, Y, V, O, U, J, K, Z,
                        C, Bend, Retune, Detune, Resonate, Power,
                    >,
                    (playing, Command::AllNotesOff, lines, bank, arithmetic, hammers, settings),
                    (),
                )
                &&& playing::keyboard(*playing, (*lines)@, *bank) == before
                &&& playing::keyboard(*final(playing), (*final(lines))@, *final(bank)) == after
            },
    ensures
        after.paths.len() == 88,
        after.paths[key].len() == before.paths[key].len(),
        after.paths[key][place].line.len() == before.paths[key][place].line.len(),
        after.paths[key][place].line[age].bits == 0,
        after.paths[key][place].pending is None,
        after.paths[key][place].loop_filter.state.bits == 0,
        string_at(before.engine, key, place) is Some
            ==> string_at(after.engine, key, place)->0.damper_engaged
                && string_at(after.engine, key, place)->0.envelope.bits == 0,
{
    let heard = choose|heard: Command|
        {
            &&& #[trigger] engine::is_heard_as(
                Command::AllNotesOff,
                before.engine.velocity_exponent,
                settings.power,
                heard,
            )
            &&& before.engine.becomes(heard, settings.detune, settings.retuned, after.engine)
            &&& arithmetic.performs(
                *hammers,
                *settings,
                before.engine.action(heard),
                after.engine,
                before.paths,
                before.board,
                after.paths,
                after.board,
            )
        };
    assert(after.engine.voices[key] == before.engine.voices[key].silenced());
}

/// A damping that is set is heard on every string of every key, whatever its place,
/// while it sounds: the pole of its path is the damping that was asked for, and what it
/// was sounding goes on.
pub proof fn damping_is_heard_on_every_string<
    S: Copy,
    I: Fn(Binary32, Binary32, Binary32, Binary32, Binary32) -> Binary32,
    A: Fn(Binary32, Binary32, Binary32) -> Binary32,
    M: Fn(Binary32, Binary32, Binary32) -> Binary32,
    F: Fn(Binary32, Binary32, Binary32) -> Binary32,
    E: Fn(Binary32, Binary32, Binary32) -> Binary32,
    H: Fn(S, Binary32, Binary32) -> (S, Binary32),
    L: Fn(S) -> bool,
    B: Fn(Binary32, Binary32, Binary32, Binary32) -> Binary32,
    X: Fn(Binary32, Binary32) -> Binary32,
    R: Fn(Binary32, Binary32, Binary32, Binary32) -> Binary32,
    P: Fn(Binary32, Binary32) -> Binary32,
    N: Fn(Binary32, Binary32) -> Binary32,
    Q: Fn(Binary32, usize) -> Binary32,
    D: Fn(Binary32, Binary32, Binary32) -> Binary32,
    W: Copy,
    Y: Fn(Binary32) -> W,
    V: Fn(HammerConfig, Binary32, W, Binary32) -> (W, Binary32),
    O: Fn(HammerConfig, Binary32) -> Binary32,
    U: Fn(Binary32, Binary32) -> Binary32,
    J: Fn(Binary32) -> Binary32,
    K: Fn(PluckedString, Binary32, Binary32, Binary32, usize) -> S,
    Z: Fn(PluckedString) -> Binary32,
    C: Copy,
    Bend: Fn(Binary32) -> Binary32,
    Retune: Fn(PluckedString) -> Binary32,
    Detune: Fn(Binary32, Binary32) -> Binary32,
    Resonate: Fn(SoundboardMode) -> C,
    Power: Fn(Binary32, Binary32) -> Binary32,
>(
    arithmetic: &Arithmetic<S, I, A, M, F, E, H, L, B, X, R, P, N, Q, D>,
    hammers: &Hammers<S, W, Y, V, O, U, J, K, Z>,
    settings: &Settings<C, Bend, Retune, Detune, Resonate, Power>,
    before: Keyboard<S, C>,
    after: Keyboard<S, C>,
    damping: Binary32,
    key: int,
    place: int,
)
    requires
        before.engine.voices.len() == 88,
        before.paths.len() == 88,
        0 <= key < 88,
        0 <= place < before.paths[key].len(),
        before.engine.voices[key].wf(),
        string_at(before.engine, key, place) is Some,
        exists|
            playing: &mut Engine,
            lines: &mut Vec<Vec<Waveguide<S>>>,
            bank: &mut ResonatorBank<C>,
        |
            {
                &&& #[trigger] call_ensures(
                    Engine::obey::<
                        S, I, A, M, F, E, H, L, B, X, R, P, N, Q, D,
                        W, Y, V, O, U, J, K, Z,
                        C, Bend, Retune, Detune, Resonate, Power,
                    >,
                    (
                        playing,
                        Command::SetDamping { damping },
                        lines,
                        bank,
                        arithmetic,
                        hammers,
                        settings,
                    ),
                    (),
                )
                &&& playing::keyboard(*playing, (*lines)@, *bank) == before
                &&& playing::keyboard(*final(playing), (*final(lines))@, *final(bank)) == after
            },
    ensures
        after.board == before.board,
        after.paths.len() == 88,
        after.paths[key].len() == before.paths[key].len(),
        after.paths[key][place].line == before.paths[key][place].line,
        after.paths[key][place].pending == before.paths[key][place].pending,
        string_at(after.engine, key, place) is Some,
        lands(damping, 0, 0x3f80_0000, string_at(after.engine, key, place)->0.damping),
        lands(
            string_at(after.engine, key, place)->0.damping,
            0,
            0x3f7f_f972,
            after.paths[key][place].loop_filter.pole,
        ),
{
    let heard = choose|heard: Command|
        {
            &&& #[trigger] engine::is_heard_as(
                Command::SetDamping { damping },
                before.engine.velocity_exponent,
                settings.power,
                heard,
            )
            &&& before.engine.becomes(heard, settings.detune, settings.retuned, after.engine)
            &&& arithmetic.performs(
                *hammers,
                *settings,
                before.engine.action(heard),
                after.engine,
                before.paths,
                before.board,
                after.paths,
                after.board,
            )
        };
    let voice = before.engine.voices[key];
    assert(voice.becomes(
        before.engine.pedal_down,
        heard,
        settings.detune,
        settings.retuned,
        after.engine.voices[key],
    ));
    assert(after.paths[key] == after.paths[key]);
    let group = after.engine.voices[key].strings->0;
    assert(group.at(place) == string_at(after.engine, key, place));
    assert(after.paths[key][place] == after.paths[key][place]);
}

/// The damping of one string is heard on that string alone, whatever its place: its
/// path follows, and no other path of any key changes.
pub proof fn the_damping_of_a_string_is_heard_there<
    S: Copy,
    I: Fn(Binary32, Binary32, Binary32, Binary32, Binary32) -> Binary32,
    A: Fn(Binary32, Binary32, Binary32) -> Binary32,
    M: Fn(Binary32, Binary32, Binary32) -> Binary32,
    F: Fn(Binary32, Binary32, Binary32) -> Binary32,
    E: Fn(Binary32, Binary32, Binary32) -> Binary32,
    H: Fn(S, Binary32, Binary32) -> (S, Binary32),
    L: Fn(S) -> bool,
    B: Fn(Binary32, Binary32, Binary32, Binary32) -> Binary32,
    X: Fn(Binary32, Binary32) -> Binary32,
    R: Fn(Binary32, Binary32, Binary32, Binary32) -> Binary32,
    P: Fn(Binary32, Binary32) -> Binary32,
    N: Fn(Binary32, Binary32) -> Binary32,
    Q: Fn(Binary32, usize) -> Binary32,
    D: Fn(Binary32, Binary32, Binary32) -> Binary32,
    W: Copy,
    Y: Fn(Binary32) -> W,
    V: Fn(HammerConfig, Binary32, W, Binary32) -> (W, Binary32),
    O: Fn(HammerConfig, Binary32) -> Binary32,
    U: Fn(Binary32, Binary32) -> Binary32,
    J: Fn(Binary32) -> Binary32,
    K: Fn(PluckedString, Binary32, Binary32, Binary32, usize) -> S,
    Z: Fn(PluckedString) -> Binary32,
    C: Copy,
    Bend: Fn(Binary32) -> Binary32,
    Retune: Fn(PluckedString) -> Binary32,
    Detune: Fn(Binary32, Binary32) -> Binary32,
    Resonate: Fn(SoundboardMode) -> C,
    Power: Fn(Binary32, Binary32) -> Binary32,
>(
    arithmetic: &Arithmetic<S, I, A, M, F, E, H, L, B, X, R, P, N, Q, D>,
    hammers: &Hammers<S, W, Y, V, O, U, J, K, Z>,
    settings: &Settings<C, Bend, Retune, Detune, Resonate, Power>,
    before: Keyboard<S, C>,
    after: Keyboard<S, C>,
    midi: u8,
    string_index: u8,
    damping: Binary32,
    other: int,
    place: int,
)
    requires
        before.engine.voices.len() == 88,
        before.paths.len() == 88,
        21 <= midi <= 108,
        0 <= place < before.paths[midi - 21].len(),
        before.engine.voices[midi - 21].wf(),
        string_at(before.engine, midi - 21, string_index as int) is Some,
        exists|
            playing: &mut Engine,
            lines: &mut Vec<Vec<Waveguide<S>>>,
            bank: &mut ResonatorBank<C>,
        |
            {
                &&& #[trigger] call_ensures(
                    Engine::obey::<
                        S, I, A, M, F, E, H, L, B, X, R, P, N, Q, D,
                        W, Y, V, O, U, J, K, Z,
                        C, Bend, Retune, Detune, Resonate, Power,
                    >,
                    (
                        playing,
                        Command::SetStringDamping { midi, string_index, damping },
                        lines,
                        bank,
                        arithmetic,
                        hammers,
                        settings,
                    ),
                    (),
                )
                &&& playing::keyboard(*playing, (*lines)@, *bank) == before
                &&& playing::keyboard(*final(playing), (*final(lines))@, *final(bank)) == after
            },
    ensures
        after.board == before.board,
        after.paths.len() == 88,
        0 <= other < 88 && other != midi - 21 ==> after.paths[other] == before.paths[other],
        after.paths[midi - 21].len() == before.paths[midi - 21].len(),
        place != string_index ==> after.paths[midi - 21][place] == before.paths[midi - 21][place],
        place == string_index ==> {
            &&& after.paths[midi - 21][place].line == before.paths[midi - 21][place].line
            &&& string_at(after.engine, midi - 21, place) is Some
            &&& lands(damping, 0, 0x3f80_0000, string_at(after.engine, midi - 21, place)->0.damping)
            &&& lands(
                string_at(after.engine, midi - 21, place)->0.damping,
                0,
                0x3f7f_f972,
                after.paths[midi - 21][place].loop_filter.pole,
            )
            &&& waveguide::are_bent_for(
                string_at(after.engine, midi - 21, place)->0.inharmonicity,
                settings.bend,
                after.paths[midi - 21][place].sections,
            )
        },
{
    let heard = choose|heard: Command|
        {
            &&& #[trigger] engine::is_heard_as(
                Command::SetStringDamping { midi, string_index, damping },
                before.engine.velocity_exponent,
                settings.power,
                heard,
            )
            &&& before.engine.becomes(heard, settings.detune, settings.retuned, after.engine)
            &&& arithmetic.performs(
                *hammers,
                *settings,
                before.engine.action(heard),
                after.engine,
                before.paths,
                before.board,
                after.paths,
                after.board,
            )
        };
    let voice = before.engine.voices[midi - 21];
    assert(voice.becomes(
        before.engine.pedal_down,
        heard,
        settings.detune,
        settings.retuned,
        after.engine.voices[midi - 21],
    ));
    let old_group = voice.strings->0;
    assert(old_group.at(string_index as int) == string_at(
        before.engine,
        midi - 21,
        string_index as int,
    ));
    let group = after.engine.voices[midi - 21].strings->0;
    assert(group.at(place) == string_at(after.engine, midi - 21, place));
    assert(after.paths[midi - 21][place] == after.paths[midi - 21][place]);
}

/// The inharmonicity of one string is heard on that string alone, whatever its place:
/// its path follows, and no other path of any key changes.
pub proof fn the_inharmonicity_of_a_string_is_heard_there<
    S: Copy,
    I: Fn(Binary32, Binary32, Binary32, Binary32, Binary32) -> Binary32,
    A: Fn(Binary32, Binary32, Binary32) -> Binary32,
    M: Fn(Binary32, Binary32, Binary32) -> Binary32,
    F: Fn(Binary32, Binary32, Binary32) -> Binary32,
    E: Fn(Binary32, Binary32, Binary32) -> Binary32,
    H: Fn(S, Binary32, Binary32) -> (S, Binary32),
    L: Fn(S) -> bool,
    B: Fn(Binary32, Binary32, Binary32, Binary32) -> Binary32,
    X: Fn(Binary32, Binary32) -> Binary32,
    R: Fn(Binary32, Binary32, Binary32, Binary32) -> Binary32,
    P: Fn(Binary32, Binary32) -> Binary32,
    N: Fn(Binary32, Binary32) -> Binary32,
    Q: Fn(Binary32, usize) -> Binary32,
    D: Fn(Binary32, Binary32, Binary32) -> Binary32,
    W: Copy,
    Y: Fn(Binary32) -> W,
    V: Fn(HammerConfig, Binary32, W, Binary32) -> (W, Binary32),
    O: Fn(HammerConfig, Binary32) -> Binary32,
    U: Fn(Binary32, Binary32) -> Binary32,
    J: Fn(Binary32) -> Binary32,
    K: Fn(PluckedString, Binary32, Binary32, Binary32, usize) -> S,
    Z: Fn(PluckedString) -> Binary32,
    C: Copy,
    Bend: Fn(Binary32) -> Binary32,
    Retune: Fn(PluckedString) -> Binary32,
    Detune: Fn(Binary32, Binary32) -> Binary32,
    Resonate: Fn(SoundboardMode) -> C,
    Power: Fn(Binary32, Binary32) -> Binary32,
>(
    arithmetic: &Arithmetic<S, I, A, M, F, E, H, L, B, X, R, P, N, Q, D>,
    hammers: &Hammers<S, W, Y, V, O, U, J, K, Z>,
    settings: &Settings<C, Bend, Retune, Detune, Resonate, Power>,
    before: Keyboard<S, C>,
    after: Keyboard<S, C>,
    midi: u8,
    string_index: u8,
    inharmonicity: Binary32,
    other: int,
    place: int,
)
    requires
        before.engine.voices.len() == 88,
        before.paths.len() == 88,
        21 <= midi <= 108,
        0 <= place < before.paths[midi - 21].len(),
        before.engine.voices[midi - 21].wf(),
        string_at(before.engine, midi - 21, string_index as int) is Some,
        exists|
            playing: &mut Engine,
            lines: &mut Vec<Vec<Waveguide<S>>>,
            bank: &mut ResonatorBank<C>,
        |
            {
                &&& #[trigger] call_ensures(
                    Engine::obey::<
                        S, I, A, M, F, E, H, L, B, X, R, P, N, Q, D,
                        W, Y, V, O, U, J, K, Z,
                        C, Bend, Retune, Detune, Resonate, Power,
                    >,
                    (
                        playing,
                        Command::SetStringInharmonicity { midi, string_index, inharmonicity },
                        lines,
                        bank,
                        arithmetic,
                        hammers,
                        settings,
                    ),
                    (),
                )
                &&& playing::keyboard(*playing, (*lines)@, *bank) == before
                &&& playing::keyboard(*final(playing), (*final(lines))@, *final(bank)) == after
            },
    ensures
        after.board == before.board,
        after.paths.len() == 88,
        0 <= other < 88 && other != midi - 21 ==> after.paths[other] == before.paths[other],
        after.paths[midi - 21].len() == before.paths[midi - 21].len(),
        place != string_index ==> after.paths[midi - 21][place] == before.paths[midi - 21][place],
        place == string_index ==> {
            &&& after.paths[midi - 21][place].line == before.paths[midi - 21][place].line
            &&& string_at(after.engine, midi - 21, place) is Some
            &&& lands(
                inharmonicity,
                0,
                0x3d4c_cccd,
                string_at(after.engine, midi - 21, place)->0.inharmonicity,
            )
            &&& lands(
                string_at(after.engine, midi - 21, place)->0.damping,
                0,
                0x3f7f_f972,
                after.paths[midi - 21][place].loop_filter.pole,
            )
            &&& waveguide::are_bent_for(
                string_at(after.engine, midi - 21, place)->0.inharmonicity,
                settings.bend,
                after.paths[midi - 21][place].sections,
            )
        },
{
    let heard = choose|heard: Command|
        {
            &&& #[trigger] engine::is_heard_as(
                Command::SetStringInharmonicity { midi, string_index, inharmonicity },
                before.engine.velocity_exponent,
                settings.power,
                heard,
            )
            &&& before.engine.becomes(heard, settings.detune, settings.retuned, after.engine)
            &&& arithmetic.performs(
                *hammers,
                *settings,
                before.engine.action(heard),
                after.engine,
                before.paths,
                before.board,
                after.paths,
                after.board,
            )
        };
    let voice = before.engine.voices[midi - 21];
    assert(voice.becomes(
        before.engine.pedal_down,
        heard,
        settings.detune,
        settings.retuned,
        after.engine.voices[midi - 21],
    ));
    let old_group = voice.strings->0;
    assert(old_group.at(string_index as int) == string_at(
        before.engine,
        midi - 21,
        string_index as int,
    ));
    let group = after.engine.voices[midi - 21].strings->0;
    assert(group.at(place) == string_at(after.engine, midi - 21, place));
    assert(after.paths[midi - 21][place] == after.paths[midi - 21][place]);
}

/// A release changes no path and not the board: what a string was sounding goes on,
/// only its losses change.
pub proof fn releases_change_no_path<
    S: Copy,
    I: Fn(Binary32, Binary32, Binary32, Binary32, Binary32) -> Binary32,
    A: Fn(Binary32, Binary32, Binary32) -> Binary32,
    M: Fn(Binary32, Binary32, Binary32) -> Binary32,
    F: Fn(Binary32, Binary32, Binary32) -> Binary32,
    E: Fn(Binary32, Binary32, Binary32) -> Binary32,
    H: Fn(S, Binary32, Binary32) -> (S, Binary32),
    L: Fn(S) -> bool,
    B: Fn(Binary32, Binary32, Binary32, Binary32) -> Binary32,
    X: Fn(Binary32, Binary32) -> Binary32,
    R: Fn(Binary32, Binary32, Binary32, Binary32) -> Binary32,
    P: Fn(Binary32, Binary32) -> Binary32,
    N: Fn(Binary32, Binary32) -> Binary32,
    Q: Fn(Binary32, usize) -> Binary32,
    D: Fn(Binary32, Binary32, Binary32) -> Binary32,
    W: Copy,
    Y: Fn(Binary32) -> W,
    V: Fn(HammerConfig, Binary32, W, Binary32) -> (W, Binary32),
    O: Fn(HammerConfig, Binary32) -> Binary32,
    U: Fn(Binary32, Binary32) -> Binary32,
    J: Fn(Binary32) -> Binary32,
    K: Fn(PluckedString, Binary32, Binary32, Binary32, usize) -> S,
    Z: Fn(PluckedString) -> Binary32,
    C: Copy,
    Bend: Fn(Binary32) -> Binary32,
    Retune: Fn(PluckedString) -> Binary32,
    Detune: Fn(Binary32, Binary32) -> Binary32,
    Resonate: Fn(SoundboardMode) -> C,
    Power: Fn(Binary32, Binary32) -> Binary32,
>(
    arithmetic: &Arithmetic<S, I, A, M, F, E, H, L, B, X, R, P, N, Q, D>,
    hammers: &Hammers<S, W, Y, V, O, U, J, K, Z>,
    settings: &Settings<C, Bend, Retune, Detune, Resonate, Power>,
    before: Keyboard<S, C>,
    after: Keyboard<S, C>,
    midi: u8,
)
    requires
        before.engine.voices.len() == 88,
        before.paths.len() == 88,
        exists|
            playing: &mut Engine,
            lines: &mut Vec<Vec<Waveguide<S>>>,
            bank: &mut ResonatorBank<C>,
        |
            {
                &&& #[trigger] call_ensures(
                    Engine::obey::<
                        S, I, A, M, F, E, H, L, B, X, R, P, N, Q, D,
                        W, Y, V, O, U, J, K, Z,
                        C, Bend, Retune, Detune, Resonate, Power,
                    >,
                    (
                        playing,
                        Command::NoteOff { midi },
                        lines,
                        bank,
                        arithmetic,
                        hammers,
                        settings,
                    ),
                    (),
                )
                &&& playing::keyboard(*playing, (*lines)@, *bank) == before
                &&& playing::keyboard(*final(playing), (*final(lines))@, *final(bank)) == after
            },
    ensures
        after.paths == before.paths,
        after.board == before.board,
{
    let heard = choose|heard: Command|
        {
            &&& #[trigger] engine::is_heard_as(
                Command::NoteOff { midi },
                before.engine.velocity_exponent,
                settings.power,
                heard,
            )
            &&& before.engine.becomes(heard, settings.detune, settings.retuned, after.engine)
            &&& arithmetic.performs(
                *hammers,
                *settings,
                before.engine.action(heard),
                after.engine,
                before.paths,
                before.board,
                after.paths,
                after.board,
            )
        };
}

/// A move of the pedal changes no path and not the board: what a string was sounding
/// goes on, only its losses change.
pub proof fn pedals_change_no_path<
    S: Copy,
    I: Fn(Binary32, Binary32, Binary32, Binary32, Binary32) -> Binary32,
    A: Fn(Binary32, Binary32, Binary32) -> Binary32,
    M: Fn(Binary32, Binary32, Binary32) -> Binary32,
    F: Fn(Binary32, Binary32, Binary32) -> Binary32,
    E: Fn(Binary32, Binary32, Binary32) -> Binary32,
    H: Fn(S, Binary32, Binary32) -> (S, Binary32),
    L: Fn(S) -> bool,
    B: Fn(Binary32, Binary32, Binary32, Binary32) -> Binary32,
    X: Fn(Binary32, Binary32) -> Binary32,
    R: Fn(Binary32, Binary32, Binary32, Binary32) -> Binary32,
    P: Fn(Binary32, Binary32) -> Binary32,
    N: Fn(Binary32, Binary32) -> Binary32,
    Q: Fn(Binary32, usize) -> Binary32,
    D: Fn(Binary32, Binary32, Binary32) -> Binary32,
    W: Copy,
    Y: Fn(Binary32) -> W,
    V: Fn(HammerConfig, Binary32, W, Binary32) -> (W, Binary32),
    O: Fn(HammerConfig, Binary32) -> Binary32,
    U: Fn(Binary32, Binary32) -> Binary32,
    J: Fn(Binary32) -> Binary32,
    K: Fn(PluckedString, Binary32, Binary32, Binary32, usize) -> S,
    Z: Fn(PluckedString) -> Binary32,
    C: Copy,
    Bend: Fn(Binary32) -> Binary32,
    Retune: Fn(PluckedString) -> Binary32,
    Detune: Fn(Binary32, Binary32) -> Binary32,
    Resonate: Fn(SoundboardMode) -> C,
    Power: Fn(Binary32, Binary32) -> Binary32,
>(
    arithmetic: &Arithmetic<S, I, A, M, F, E, H, L, B, X, R, P, N, Q, D>,
    hammers: &Hammers<S, W, Y, V, O, U, J, K, Z>,
    settings: &Settings<C, Bend, Retune, Detune, Resonate, Power>,
    before: Keyboard<S, C>,
    after: Keyboard<S, C>,
    down: bool,
)
    requires
        before.engine.voices.len() == 88,
        before.paths.len() == 88,
        exists|
            playing: &mut Engine,
            lines: &mut Vec<Vec<Waveguide<S>>>,
            bank: &mut ResonatorBank<C>,
        |
            {
                &&& #[trigger] call_ensures(
                    Engine::obey::<
                        S, I, A, M, F, E, H, L, B, X, R, P, N, Q, D,
                        W, Y, V, O, U, J, K, Z,
                        C, Bend, Retune, Detune, Resonate, Power,
                    >,
                    (
                        playing,
                        Command::SustainPedal { down },
                        lines,
                        bank,
                        arithmetic,
                        hammers,
                        settings,
                    ),
                    (),
                )
                &&& playing::keyboard(*playing, (*lines)@, *bank) == before
                &&& playing::keyboard(*final(playing), (*final(lines))@, *final(bank)) == after
            },
    ensures
        after.paths == before.paths,
        after.board == before.board,
{
    let heard = choose|heard: Command|
        {
            &&& #[trigger] engine::is_heard_as(
                Command::SustainPedal { down },
                before.engine.velocity_exponent,
                settings.power,
                heard,
            )
            &&& before.engine.becomes(heard, settings.detune, settings.retuned, after.engine)
            &&& arithmetic.performs(
                *hammers,
                *settings,
                before.engine.action(heard),
                after.engine,
                before.paths,
                before.board,
                after.paths,
                after.board,
            )
        };
}

/// A sustain changes no path and not the board: what a string was sounding goes on,
/// only its losses change.
pub proof fn sustains_change_no_path<
    S: Copy,
    I: Fn(Binary32, Binary32, Binary32, Binary32, Binary32) -> Binary32,
    A: Fn(Binary32, Binary32, Binary32) -> Binary32,
    M: Fn(Binary32, Binary32, Binary32) -> Binary32,
    F: Fn(Binary32, Binary32, Binary32) -> Binary32,
    E: Fn(Binary32, Binary32, Binary32) -> Binary32,
    H: Fn(S, Binary32, Binary32) -> (S, Binary32),
    L: Fn(S) -> bool,
    B: Fn(Binary32, Binary32, Binary32, Binary32) -> Binary32,
    X: Fn(Binary32, Binary32) -> Binary32,
    R: Fn(Binary32, Binary32, Binary32, Binary32) -> Binary32,
    P: Fn(Binary32, Binary32) -> Binary32,
    N: Fn(Binary32, Binary32) -> Binary32,
    Q: Fn(Binary32, usize) -> Binary32,
    D: Fn(Binary32, Binary32, Binary32) -> Binary32,
    W: Copy,
    Y: Fn(Binary32) -> W,
    V: Fn(HammerConfig, Binary32, W, Binary32) -> (W, Binary32),
    O: Fn(HammerConfig, Binary32) -> Binary32,
    U: Fn(Binary32, Binary32) -> Binary32,
    J: Fn(Binary32) -> Binary32,
    K: Fn(PluckedString, Binary32, Binary32, Binary32, usize) -> S,
    Z: Fn(PluckedString) -> Binary32,
    C: Copy,
    Bend: Fn(Binary32) -> Binary32,
    Retune: Fn(PluckedString) -> Binary32,
    Detune: Fn(Binary32, Binary32) -> Binary32,
    Resonate: Fn(SoundboardMode) -> C,
    Power: Fn(Binary32, Binary32) -> Binary32,
>(
    arithmetic: &Arithmetic<S, I, A, M, F, E, H, L, B, X, R, P, N, Q, D>,
    hammers: &Hammers<S, W, Y, V, O, U, J, K, Z>,
    settings: &Settings<C, Bend, Retune, Detune, Resonate, Power>,
    before: Keyboard<S, C>,
    after: Keyboard<S, C>,
    sustain: Binary32,
)
    requires
        before.engine.voices.len() == 88,
        before.paths.len() == 88,
        exists|
            playing: &mut Engine,
            lines: &mut Vec<Vec<Waveguide<S>>>,
            bank: &mut ResonatorBank<C>,
        |
            {
                &&& #[trigger] call_ensures(
                    Engine::obey::<
                        S, I, A, M, F, E, H, L, B, X, R, P, N, Q, D,
                        W, Y, V, O, U, J, K, Z,
                        C, Bend, Retune, Detune, Resonate, Power,
                    >,
                    (
                        playing,
                        Command::SetSustain { sustain },
                        lines,
                        bank,
                        arithmetic,
                        hammers,
                        settings,
                    ),
                    (),
                )
                &&& playing::keyboard(*playing, (*lines)@, *bank) == before
                &&& playing::keyboard(*final(playing), (*final(lines))@, *final(bank)) == after
            },
    ensures
        after.paths == before.paths,
        after.board == before.board,
{
    let heard = choose|heard: Command|
        {
            &&& #[trigger] engine::is_heard_as(
                Command::SetSustain { sustain },
                before.engine.velocity_exponent,
                settings.power,
                heard,
            )
            &&& before.engine.becomes(heard, settings.detune, settings.retuned, after.engine)
            &&& arithmetic.performs(
                *hammers,
                *settings,
                before.engine.action(heard),
                after.engine,
                before.paths,
                before.board,
                after.paths,
                after.board,
            )
        };
}

proof fn lemma_in_order<
    S: Copy,
    I: Fn(Binary32, Binary32, Binary32, Binary32, Binary32) -> Binary32,
    A: Fn(Binary32, Binary32, Binary32) -> Binary32,
    M: Fn(Binary32, Binary32, Binary32) -> Binary32,
    F: Fn(Binary32, Binary32, Binary32) -> Binary32,
    E: Fn(Binary32, Binary32, Binary32) -> Binary32,
    H: Fn(S, Binary32, Binary32) -> (S, Binary32),
    L: Fn(S) -> bool,
    B: Fn(Binary32, Binary32, Binary32, Binary32) -> Binary32,
    X: Fn(Binary32, Binary32) -> Binary32,
    R: Fn(Binary32, Binary32, Binary32, Binary32) -> Binary32,
    P: Fn(Binary32, Binary32) -> Binary32,
    N: Fn(Binary32, Binary32) -> Binary32,
    Q: Fn(Binary32, usize) -> Binary32,
    D: Fn(Binary32, Binary32, Binary32) -> Binary32,
    W: Copy,
    Y: Fn(Binary32) -> W,
    V: Fn(HammerConfig, Binary32, W, Binary32) -> (W, Binary32),
    O: Fn(HammerConfig, Binary32) -> Binary32,
    U: Fn(Binary32, Binary32) -> Binary32,
    J: Fn(Binary32) -> Binary32,
    K: Fn(PluckedString, Binary32, Binary32, Binary32, usize) -> S,
    Z: Fn(PluckedString) -> Binary32,
    C: Copy,
    Bend: Fn(Binary32) -> Binary32,
    Retune: Fn(PluckedString) -> Binary32,
    Detune: Fn(Binary32, Binary32) -> Binary32,
    Resonate: Fn(SoundboardMode) -> C,
    Power: Fn(Binary32, Binary32) -> Binary32,
>(
    arithmetic: Arithmetic<S, I, A, M, F, E, H, L, B, X, R, P, N, Q, D>,
    hammers: Hammers<S, W, Y, V, O, U, J, K, Z>,
    settings: Settings<C, Bend, Retune, Detune, Resonate, Power>,
    before: Keyboard<S, C>,
    commands: Seq<Command>,
    after: Keyboard<S, C>,
) -> (reached: Seq<Keyboard<S, C>>)
    requires
        arithmetic.obeys_all(hammers, settings, before, commands, after),
    ensures
        reached.len() == commands.len() + 1,
        reached[0] == before,
        reached[commands.len() as int] == after,
        forall|i: int|
            0 <= i < commands.len() ==> arithmetic.obeys(
                hammers,
                settings,
                reached[i],
                commands[i],
                #[trigger] reached[i + 1],
            ),
    decreases commands.len(),
{
    if commands.len() == 0 {
        seq![before]
    } else {
        let one = choose|reached: Keyboard<S, C>|
            {
                &&& arithmetic.obeys_all(
                    hammers,
                    settings,
                    before,
                    commands.drop_last(),
                    reached,
                )
                &&& #[trigger] arithmetic.obeys(
                    hammers,
                    settings,
                    reached,
                    commands.last(),
                    after,
                )
            };
        let shorter = lemma_in_order(
            arithmetic,
            hammers,
            settings,
            before,
            commands.drop_last(),
            one,
        );
        let reached = shorter.push(after);
        assert forall|i: int| 0 <= i < commands.len() implies arithmetic.obeys(
            hammers,
            settings,
            reached[i],
            commands[i],
            #[trigger] reached[i + 1],
        ) by {
            if i < commands.len() - 1 {
                assert(commands.drop_last()[i] == commands[i]);
                assert(arithmetic.obeys(
                    hammers,
                    settings,
                    shorter[i],
                    commands.drop_last()[i],
                    shorter[i + 1],
                ));
            }
        }
        reached
    }
}

/// Commands are carried out in the order in which they were sent, each once, up to
/// sixty-four at a time; fewer only where no more were seen.
pub proof fn commands_are_carried_out_in_order<
    S: Copy,
    I: Fn(Binary32, Binary32, Binary32, Binary32, Binary32) -> Binary32,
    A: Fn(Binary32, Binary32, Binary32) -> Binary32,
    M: Fn(Binary32, Binary32, Binary32) -> Binary32,
    F: Fn(Binary32, Binary32, Binary32) -> Binary32,
    E: Fn(Binary32, Binary32, Binary32) -> Binary32,
    H: Fn(S, Binary32, Binary32) -> (S, Binary32),
    L: Fn(S) -> bool,
    B: Fn(Binary32, Binary32, Binary32, Binary32) -> Binary32,
    X: Fn(Binary32, Binary32) -> Binary32,
    R: Fn(Binary32, Binary32, Binary32, Binary32) -> Binary32,
    P: Fn(Binary32, Binary32) -> Binary32,
    N: Fn(Binary32, Binary32) -> Binary32,
    Q: Fn(Binary32, usize) -> Binary32,
    D: Fn(Binary32, Binary32, Binary32) -> Binary32,
    W: Copy,
    Y: Fn(Binary32) -> W,
    V: Fn(HammerConfig, Binary32, W, Binary32) -> (W, Binary32),
    O: Fn(HammerConfig, Binary32) -> Binary32,
    U: Fn(Binary32, Binary32) -> Binary32,
    J: Fn(Binary32) -> Binary32,
    K: Fn(PluckedString, Binary32, Binary32, Binary32, usize) -> S,
    Z: Fn(PluckedString) -> Binary32,
    C: Copy,
    Bend: Fn(Binary32) -> Binary32,
    Retune: Fn(PluckedString) -> Binary32,
    Detune: Fn(Binary32, Binary32) -> Binary32,
    Resonate: Fn(SoundboardMode) -> C,
    Power: Fn(Binary32, Binary32) -> Binary32,
>(
    arithmetic: &Arithmetic<S, I, A, M, F, E, H, L, B, X, R, P, N, Q, D>,
    hammers: &Hammers<S, W, Y, V, O, U, J, K, Z>,
    settings: &Settings<C, Bend, Retune, Detune, Resonate, Power>,
    before: Keyboard<S, C>,
    after: Keyboard<S, C>,
    consumer: Consumer<Command>,
    consumer_after: Consumer<Command>,
    count: usize,
)
    requires
        exists|
            playing: &mut Engine,
            ring: &mut Consumer<Command>,
            lines: &mut Vec<Vec<Waveguide<S>>>,
            bank: &mut ResonatorBank<C>,
        |
            {
                &&& #[trigger] call_ensures(
                    Engine::drain_commands::<
                        S, I, A, M, F, E, H, L, B, X, R, P, N, Q, D,
                        W, Y, V, O, U, J, K, Z,
                        C, Bend, Retune, Detune, Resonate, Power,
                    >,
                    (playing, ring, lines, bank, arithmetic, hammers, settings),
                    count,
                )
                &&& playing::keyboard(*playing, (*lines)@, *bank) == before
                &&& playing::keyboard(*final(playing), (*final(lines))@, *final(bank)) == after
                &&& *ring == consumer
                &&& *final(ring) == consumer_after
            },
    ensures
        count <= 64,
        queue::taken(consumer_after) == queue::taken(consumer) + count,
        count < 64 ==> queue::taken(consumer_after) == queue::seen(consumer_after),
        exists|reached: Seq<Keyboard<S, C>>|
            {
                &&& #[trigger] reached.len() == count + 1
                &&& reached[0] == before
                &&& reached[count as int] == after
                &&& forall|i: int|
                    0 <= i < count ==> arithmetic.obeys(
                        *hammers,
                        *settings,
                        reached[i],
                        queue::receiving_stream(consumer)[queue::taken(consumer) + i],
                        #[trigger] reached[i + 1],
                    )
            },
{
    let commands = playing::commands_from(consumer, count as int);
    let reached = lemma_in_order(*arithmetic, *hammers, *settings, before, commands, after);
    assert(reached.len() == count + 1);
    assert forall|i: int| 0 <= i < count implies arithmetic.obeys(
        *hammers,
        *settings,
        reached[i],
        queue::receiving_stream(consumer)[queue::taken(consumer) + i],
        #[trigger] reached[i + 1],
    ) by {
        assert(commands[i] == queue::receiving_stream(consumer)[queue::taken(consumer) + i]);
    }
}

} // verus!
