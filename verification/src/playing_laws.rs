//! What is played is heard.
//!
//! A command that was carried out is in the strings that sound, playing changes no
//! setting, and a strike depends on its velocity and on how its string is set.
use crate::binary32::Binary32;
use crate::bridge::BridgeBus;
use crate::commands::Command;
use crate::coupling;
use crate::coupling::Feedback;
use crate::engine;
use crate::engine::{Engine, EngineState, Voice, BRIDGE_BLOCK_SAMPLES};
use crate::filter;
use crate::hammer::HammerConfig;
use crate::params::KEY_COUNT;
use crate::playing;
use crate::playing::{are_paths_of, Keyboard, Settings};
use crate::rendering;
use crate::rendering::{Instrument, Strings};
use crate::rendering_laws;
use crate::soundboard::SoundboardMode;
use crate::sounding;
use crate::sounding::{are_bendable, has_same_shape, Arithmetic};
use crate::striking::Hammers;
use crate::string;
use crate::string::PluckedString;
use crate::unison;
use crate::unison::UnisonGroup;
use crate::velocity_curve;
use crate::waveguide;
use crate::waveguide::{PathState, Waveguide};
use vstd::prelude::*;

verus! {

impl<
    S: Copy,
    I: Fn(Binary32, Binary32, Binary32, Binary32, Binary32) -> Binary32,
    A: Fn(Binary32, Binary32, Binary32) -> Binary32,
    M: Fn(Binary32, Binary32, Binary32) -> Binary32,
    F: Fn(Binary32, Binary32, Binary32) -> Binary32,
    E: Fn(Binary32, Binary32, Binary32) -> Binary32,
    H: Fn(S, Binary32, Binary32) -> (S, Binary32),
    L: Fn(S) -> bool,
    B: Fn(Binary32, Binary32, Binary32, Binary32) -> Binary32,
    X: Fn(Binary32, Binary32) -> Binary32,
    R: Fn(Binary32, Binary32, Binary32, Binary32) -> Binary32,
    P: Fn(Binary32, Binary32) -> Binary32,
    N: Fn(Binary32, Binary32) -> Binary32,
    Q: Fn(Binary32, usize) -> Binary32,
    D: Fn(Binary32, Binary32, Binary32) -> Binary32,
> Arithmetic<S, I, A, M, F, E, H, L, B, X, R, P, N, Q, D> {
    /// A strike depends on its velocity and on how the string is set, and on nothing
    /// that was played before: a string that is struck, plays, and is struck again at
    /// the same velocity plays the same samples again.
    pub proof fn equal_strikes_play_alike<
        W: Copy,
        Y: Fn(Binary32) -> W,
        V: Fn(HammerConfig, Binary32, W, Binary32) -> (W, Binary32),
        O: Fn(HammerConfig, Binary32) -> Binary32,
        U: Fn(Binary32, Binary32) -> Binary32,
        J: Fn(Binary32) -> Binary32,
        K: Fn(PluckedString, Binary32, Binary32, Binary32, usize) -> S,
        Z: Fn(PluckedString) -> Binary32,
    >(
        &self,
        hammers: Hammers<S, W, Y, V, O, U, J, K, Z>,
        string: PluckedString,
        path: PathState<S>,
        velocity: Binary32,
        struck: PathState<S>,
        outputs: Seq<Binary32>,
        played: PluckedString,
        rung: PathState<S>,
        struck_again: PathState<S>,
        others: Seq<Binary32>,
        string_after: PluckedString,
        after: PathState<S>,
    )
        requires
            self.is_decided(),
            hammers.is_decided(),
            0 <= path.active <= path.sections.len(),
            path.line.len() > 0,
            hammers.strikes(
                string.plucked(velocity),
                string::normalised(velocity),
                self.step,
                self.has_left,
                self.minus,
                path,
                struck,
            ),
            self.plays(string.plucked(velocity), struck, outputs, played, rung),
            hammers.strikes(
                played.plucked(velocity),
                string::normalised(velocity),
                self.step,
                self.has_left,
                self.minus,
                rung,
                struck_again,
            ),
            self.plays(played.plucked(velocity), struck_again, others, string_after, after),
            outputs.len() == others.len(),
        ensures
            outputs == others,
    {
        hammers.strikes_keep_tuning(
            string.plucked(velocity),
            string::normalised(velocity),
            self.step,
            self.has_left,
            self.minus,
            path,
            struck,
        );
        assert(waveguide::cleared(struck) =~= waveguide::cleared(path));
        self.playing_keeps_tuning(string.plucked(velocity), struck, outputs, played, rung);
        assert(played.plucked(velocity) == string.plucked(velocity));
        hammers.strikes_are_decided(
            string.plucked(velocity),
            string::normalised(velocity),
            self.step,
            self.has_left,
            self.minus,
            path,
            struck,
            rung,
            struck_again,
        );
        self.playing_is_decided(
            string.plucked(velocity),
            struck,
            outputs,
            played,
            rung,
            others,
            string_after,
            after,
        );
    }

    /// A damping that was set is heard on every string at once, those already ringing
    /// among them: the filter that sounds has the new damping, the loop is as long as
    /// that damping asks for, and what the string was sounding goes on.
    pub proof fn damping_is_heard<
        W: Copy,
        Y: Fn(Binary32) -> W,
        V: Fn(HammerConfig, Binary32, W, Binary32) -> (W, Binary32),
        O: Fn(HammerConfig, Binary32) -> Binary32,
        U: Fn(Binary32, Binary32) -> Binary32,
        J: Fn(Binary32) -> Binary32,
        K: Fn(PluckedString, Binary32, Binary32, Binary32, usize) -> S,
        Z: Fn(PluckedString) -> Binary32,
        C: Copy,
        Bend: Fn(Binary32) -> Binary32,
        Retune: Fn(PluckedString) -> Binary32,
        Detune: Fn(Binary32, Binary32) -> Binary32,
        Resonate: Fn(SoundboardMode) -> C,
        Power: Fn(Binary32, Binary32) -> Binary32,
    >(
        &self,
        hammers: Hammers<S, W, Y, V, O, U, J, K, Z>,
        settings: Settings<C, Bend, Retune, Detune, Resonate, Power>,
        before: Keyboard<S, C>,
        damping: Binary32,
        after: Keyboard<S, C>,
        key: int,
        index: int,
    )
        requires
            before.engine.wf(),
            playing::all_paths_agree(before.engine, settings.bend, before.paths),
            self.obeys(hammers, settings, before, Command::SetDamping { damping }, after),
            0 <= key < KEY_COUNT,
            before.engine.voices[key].strings matches Some(group) && 0 <= index < group.count(),
        ensures
            after.engine.voices[key].strings matches Some(group) && string::is_retuned(
                before.engine.voices[key].strings->0.at(index)->0.damped_by(damping),
                settings.retuned,
                group.at(index)->0,
            ),
            after.paths[key][index].loop_filter.pole == filter::stable(
                string::normalised(damping),
            ),
            after.paths[key][index].line == before.paths[key][index].line,
            after.paths[key][index].loop_filter.state == before.paths[key][index].loop_filter.state,
            after.paths[key][index].pending == before.paths[key][index].pending,
            after.paths[key][index].last_tap == before.paths[key][index].last_tap,
            after.paths[key][index].dc_blocker == before.paths[key][index].dc_blocker,
    {
        let command = Command::SetDamping { damping };
        let voice = before.engine.voices[key];
        assert(voice.wf());
        assert(are_paths_of(voice.strings, settings.bend, before.paths[key]));
        assert(before.engine.becomes(
            command,
            settings.detune,
            settings.retuned,
            after.engine,
        ));
        assert(voice.becomes(
            before.engine.pedal_down,
            command,
            settings.detune,
            settings.retuned,
            after.engine.voices[key],
        ));
        assert(playing::note_follows(
            after.engine.voices[key].strings,
            None,
            settings.bend,
            before.paths[key],
            after.paths[key],
        ));
        let group = after.engine.voices[key].strings->0;
        let settled = voice.strings->0.each(|s: PluckedString| s.damped_by(damping));
        assert(unison::is_tuned(settled, None, settings.retuned, group));
        assert(string::is_retuned(settled.at(index)->0, settings.retuned, group.at(index)->0));
        assert(waveguide::is_following(
            before.paths[key][index],
            group.at(index)->0,
            settings.bend,
            after.paths[key][index],
        ));
    }

    /// The damping of one string is heard on that string, as [`Arithmetic::damping_is_heard`]
    /// says, and its inharmonicity likewise; every other string is as it was.
    pub proof fn string_settings_are_heard<
        W: Copy,
        Y: Fn(Binary32) -> W,
        V: Fn(HammerConfig, Binary32, W, Binary32) -> (W, Binary32),
        O: Fn(HammerConfig, Binary32) -> Binary32,
        U: Fn(Binary32, Binary32) -> Binary32,
        J: Fn(Binary32) -> Binary32,
        K: Fn(PluckedString, Binary32, Binary32, Binary32, usize) -> S,
        Z: Fn(PluckedString) -> Binary32,
        C: Copy,
        Bend: Fn(Binary32) -> Binary32,
        Retune: Fn(PluckedString) -> Binary32,
        Detune: Fn(Binary32, Binary32) -> Binary32,
        Resonate: Fn(SoundboardMode) -> C,
        Power: Fn(Binary32, Binary32) -> Binary32,
    >(
        &self,
        hammers: Hammers<S, W, Y, V, O, U, J, K, Z>,
        settings: Settings<C, Bend, Retune, Detune, Resonate, Power>,
        before: Keyboard<S, C>,
        command: Command,
        midi: u8,
        string_index: u8,
        after: Keyboard<S, C>,
        key: int,
        index: int,
    )
        requires
            before.engine.wf(),
            playing::all_paths_agree(before.engine, settings.bend, before.paths),
            command matches Command::SetStringDamping { midi: m, string_index: i, .. } && m == midi
                && i == string_index || (command matches Command::SetStringInharmonicity {
                midi: m,
                string_index: i,
                ..
            } && m == midi && i == string_index),
            self.obeys(hammers, settings, before, command, after),
            0 <= key < KEY_COUNT,
            before.engine.voices[key].strings matches Some(group) && 0 <= index < group.count(),
        ensures
            after.engine.voices[key].strings is Some,
            engine::key_of(midi) == Some(key) && index == string_index
                ==> waveguide::is_following(
                before.paths[key][index],
                after.engine.voices[key].strings->0.at(index)->0,
                settings.bend,
                after.paths[key][index],
            ) && string::is_retuned(
                before.engine.voices[key].after(false, command).strings->0.at(index)->0,
                settings.retuned,
                after.engine.voices[key].strings->0.at(index)->0,
            ),
            engine::key_of(midi) != Some(key) || index != string_index ==> after.paths[key][index]
                == before.paths[key][index] && after.engine.voices[key].strings->0.at(index)
                == before.engine.voices[key].strings->0.at(index),
    {
        let voice = before.engine.voices[key];
        assert(voice.wf());
        assert(are_paths_of(voice.strings, settings.bend, before.paths[key]));
        assert(before.engine.becomes(
            command,
            settings.detune,
            settings.retuned,
            after.engine,
        ));
        if engine::key_of(midi) == Some(key) {
            assert(voice.becomes(
                before.engine.pedal_down,
                command,
                settings.detune,
                settings.retuned,
                after.engine.voices[key],
            ));
            let group = after.engine.voices[key].strings->0;
            let settled = voice.after(before.engine.pedal_down, command).strings->0;
            assert(unison::is_tuned(
                settled,
                Some(string_index as int),
                settings.retuned,
                group,
            ));
            if before.engine.has_string(key, string_index as int) {
                assert(playing::note_follows(
                    after.engine.voices[key].strings,
                    Some(string_index as int),
                    settings.bend,
                    before.paths[key],
                    after.paths[key],
                ));
            }
        } else {
            assert(after.engine.voices[key] == voice);
        }
    }

    /// A key that is struck sounds: every one of its strings has the excitation of a
    /// strike at the velocity the curve makes of the one that was played, its dampers
    /// are up, and no other key is touched.
    pub proof fn strikes_are_heard<
        W: Copy,
        Y: Fn(Binary32) -> W,
        V: Fn(HammerConfig, Binary32, W, Binary32) -> (W, Binary32),
        O: Fn(HammerConfig, Binary32) -> Binary32,
        U: Fn(Binary32, Binary32) -> Binary32,
        J: Fn(Binary32) -> Binary32,
        K: Fn(PluckedString, Binary32, Binary32, Binary32, usize) -> S,
        Z: Fn(PluckedString) -> Binary32,
        C: Copy,
        Bend: Fn(Binary32) -> Binary32,
        Retune: Fn(PluckedString) -> Binary32,
        Detune: Fn(Binary32, Binary32) -> Binary32,
        Resonate: Fn(SoundboardMode) -> C,
        Power: Fn(Binary32, Binary32) -> Binary32,
    >(
        &self,
        hammers: Hammers<S, W, Y, V, O, U, J, K, Z>,
        settings: Settings<C, Bend, Retune, Detune, Resonate, Power>,
        before: Keyboard<S, C>,
        midi: u8,
        velocity: Binary32,
        after: Keyboard<S, C>,
        key: int,
    ) -> (warped: Binary32)
        requires
            before.engine.wf(),
            before.paths.len() == KEY_COUNT,
            self.obeys(hammers, settings, before, Command::NoteOn { midi, velocity }, after),
            engine::key_of(midi) == Some(key),
            0 <= key < KEY_COUNT,
            before.engine.voices[key].strings is Some,
        ensures
            velocity_curve::is_warped(
                velocity,
                before.engine.velocity_exponent,
                settings.power,
                warped,
            ),
            after.engine == before.engine.after(Command::NoteOn { midi, velocity: warped }),
            self.note_is_struck(
                hammers,
                after.engine.voices[key].strings->0,
                string::normalised(warped),
                before.paths[key],
                after.paths[key],
            ),
            forall|other: int|
                0 <= other < KEY_COUNT && other != key ==> #[trigger] after.paths[other]
                    == before.paths[other],
            after.board == before.board,
    {
        let command = Command::NoteOn { midi, velocity };
        let heard = choose|heard: Command|
            {
                &&& #[trigger] engine::is_heard_as(
                    command,
                    before.engine.velocity_exponent,
                    settings.power,
                    heard,
                )
                &&& before.engine.becomes(heard, settings.detune, settings.retuned, after.engine)
                &&& self.performs(
                    hammers,
                    settings,
                    before.engine.action(heard),
                    after.engine,
                    before.paths,
                    before.board,
                    after.paths,
                    after.board,
                )
            };
        let warped = choose|warped: Binary32| #[trigger]
            velocity_curve::is_warped(
                velocity,
                before.engine.velocity_exponent,
                settings.power,
                warped,
            ) && heard == (Command::NoteOn { midi, velocity: warped });
        engine::plain_commands_are_exact(
            before.engine,
            heard,
            settings.detune,
            settings.retuned,
            after.engine,
        );
        warped
    }

    /// Silencing the instrument silences every string: nothing is left in any path.
    pub proof fn silence_is_heard<
        W: Copy,
        Y: Fn(Binary32) -> W,
        V: Fn(HammerConfig, Binary32, W, Binary32) -> (W, Binary32),
        O: Fn(HammerConfig, Binary32) -> Binary32,
        U: Fn(Binary32, Binary32) -> Binary32,
        J: Fn(Binary32) -> Binary32,
        K: Fn(PluckedString, Binary32, Binary32, Binary32, usize) -> S,
        Z: Fn(PluckedString) -> Binary32,
        C: Copy,
        Bend: Fn(Binary32) -> Binary32,
        Retune: Fn(PluckedString) -> Binary32,
        Detune: Fn(Binary32, Binary32) -> Binary32,
        Resonate: Fn(SoundboardMode) -> C,
        Power: Fn(Binary32, Binary32) -> Binary32,
    >(
        &self,
        hammers: Hammers<S, W, Y, V, O, U, J, K, Z>,
        settings: Settings<C, Bend, Retune, Detune, Resonate, Power>,
        before: Keyboard<S, C>,
        after: Keyboard<S, C>,
        key: int,
        index: int,
    )
        requires
            before.paths.len() == before.engine.voices.len(),
            self.obeys(hammers, settings, before, Command::AllNotesOff, after),
            0 <= key < before.paths.len(),
            0 <= index < before.paths[key].len(),
        ensures
            after.paths[key][index] == waveguide::cleared(before.paths[key][index]),
            after.engine == before.engine.after(Command::AllNotesOff),
            after.engine.voices[key].inert(),
    {
        engine::plain_commands_are_exact(
            before.engine,
            Command::AllNotesOff,
            settings.detune,
            settings.retuned,
            after.engine,
        );
        assert(after.paths[key] == playing::note_cleared(before.paths[key]));
    }

    /// A detuned string is retuned: its loop is as long as the frequency asks for that
    /// its key's own is moved to, and what it was sounding goes on.
    pub proof fn detuning_is_heard<
        W: Copy,
        Y: Fn(Binary32) -> W,
        V: Fn(HammerConfig, Binary32, W, Binary32) -> (W, Binary32),
        O: Fn(HammerConfig, Binary32) -> Binary32,
        U: Fn(Binary32, Binary32) -> Binary32,
        J: Fn(Binary32) -> Binary32,
        K: Fn(PluckedString, Binary32, Binary32, Binary32, usize) -> S,
        Z: Fn(PluckedString) -> Binary32,
        C: Copy,
        Bend: Fn(Binary32) -> Binary32,
        Retune: Fn(PluckedString) -> Binary32,
        Detune: Fn(Binary32, Binary32) -> Binary32,
        Resonate: Fn(SoundboardMode) -> C,
        Power: Fn(Binary32, Binary32) -> Binary32,
    >(
        &self,
        hammers: Hammers<S, W, Y, V, O, U, J, K, Z>,
        settings: Settings<C, Bend, Retune, Detune, Resonate, Power>,
        before: Keyboard<S, C>,
        midi: u8,
        string_index: u8,
        cents: Binary32,
        after: Keyboard<S, C>,
        key: int,
    ) -> (moved: Binary32)
        requires
            before.engine.wf(),
            self.obeys(
                hammers,
                settings,
                before,
                Command::SetStringDetune { midi, string_index, cents },
                after,
            ),
            engine::key_of(midi) == Some(key),
            0 <= key < KEY_COUNT,
            before.engine.voices[key].strings matches Some(group) && group.at(
                string_index as int,
            ) is Some,
        ensures
            settings.detune.ensures(
                (before.engine.voices[key].strings->0.base.value(), cents),
                moved,
            ),
            after.engine.voices[key].strings matches Some(group) && string::is_retuned(
                (PluckedString {
                    frequency: before.engine.voices[key].strings->0.base.kept(moved),
                    ..before.engine.voices[key].strings->0.at(string_index as int)->0
                }),
                settings.retuned,
                group.at(string_index as int)->0,
            ),
            after.paths == before.paths,
    {
        let command = Command::SetStringDetune { midi, string_index, cents };
        let voice = before.engine.voices[key];
        let group = voice.strings->0;
        assert(voice.becomes(
            before.engine.pedal_down,
            command,
            settings.detune,
            settings.retuned,
            after.engine.voices[key],
        ));
        let settled = choose|settled: Voice|
            {
                &&& #[trigger] voice.settles(
                    before.engine.pedal_down,
                    command,
                    settings.detune,
                    settled,
                )
                &&& after.engine.voices[key] == Voice {
                    strings: after.engine.voices[key].strings,
                    ..settled
                }
                &&& after.engine.voices[key].strings matches Some(tuned) && unison::is_tuned(
                    settled.strings->0,
                    Some(string_index as int),
                    settings.retuned,
                    tuned,
                )
            };
        let moved = choose|moved: Binary32| #[trigger]
            settings.detune.ensures((group.base.value(), cents), moved) && settled == (Voice {
                strings: Some(group.moved_to(string_index as int, moved)),
                ..voice
            });
        moved
    }
}

/// A note has played: its strings are set as before, its paths are tuned as before.
pub open spec fn note_is_kept<S>(
    group: UnisonGroup,
    before: Seq<PathState<S>>,
    group_after: UnisonGroup,
    after: Seq<PathState<S>>,
) -> bool {
    &&& has_same_shape(group, group_after)
    &&& after.len() == before.len()
    &&& forall|i: int|
        0 <= i < group.count() ==> (#[trigger] group_after.at(i))->0 == PluckedString {
            envelope: group_after.at(i)->0.envelope,
            ..group.at(i)->0
        }
    &&& forall|i: int|
        0 <= i < before.len() ==> waveguide::cleared(#[trigger] after[i]) == waveguide::cleared(
            before[i],
        ) && after[i].line.len() == before[i].line.len()
}

/// Every path holds at least one sample.
pub open spec fn have_lines<S>(paths: Seq<PathState<S>>) -> bool {
    forall|i: int| 0 <= i < paths.len() ==> (#[trigger] paths[i]).line.len() > 0
}

/// What was kept twice was kept.
proof fn lemma_kept_twice<S>(
    group: UnisonGroup,
    before: Seq<PathState<S>>,
    group_between: UnisonGroup,
    between: Seq<PathState<S>>,
    group_after: UnisonGroup,
    after: Seq<PathState<S>>,
)
    requires
        note_is_kept(group, before, group_between, between),
        note_is_kept(group_between, between, group_after, after),
    ensures
        note_is_kept(group, before, group_after, after),
{
    assert forall|i: int| 0 <= i < group.count() implies (#[trigger] group_after.at(i))->0
        == (PluckedString { envelope: group_after.at(i)->0.envelope, ..group.at(i)->0 }) by {
        assert(group_between.at(i)->0 == PluckedString {
            envelope: group_between.at(i)->0.envelope,
            ..group.at(i)->0
        });
    }
    assert forall|i: int| 0 <= i < before.len() implies waveguide::cleared(#[trigger] after[i])
        == waveguide::cleared(before[i]) && after[i].line.len() == before[i].line.len() by {
        assert(waveguide::cleared(between[i]) == waveguide::cleared(before[i]));
    }
}

/// What was kept can be played on.
proof fn lemma_kept_plays_on<S>(
    group: UnisonGroup,
    before: Seq<PathState<S>>,
    group_after: UnisonGroup,
    after: Seq<PathState<S>>,
)
    requires
        note_is_kept(group, before, group_after, after),
        are_bendable(before),
        have_lines(before),
    ensures
        are_bendable(after),
        have_lines(after),
{
    assert forall|i: int| 0 <= i < after.len() implies 0 <= (#[trigger] after[i]).active
        <= after[i].sections.len() && after[i].line.len() > 0 by {
        assert(waveguide::cleared(after[i]) == waveguide::cleared(before[i]));
        assert(waveguide::cleared(after[i]).sections.len() == after[i].sections.len());
        assert(waveguide::cleared(before[i]).sections.len() == before[i].sections.len());
        assert(0 <= before[i].active <= before[i].sections.len());
        assert(before[i].line.len() > 0);
    }
}

/// Every key's strings and paths are kept.
pub open spec fn all_are_kept<S>(before: Strings<S>, after: Strings<S>) -> bool {
    &&& after.engine == EngineState { voices: after.engine.voices, ..before.engine }
    &&& after.engine.voices.len() == before.engine.voices.len()
    &&& after.paths.len() == before.paths.len()
    &&& forall|key: int|
        0 <= key < before.engine.voices.len() ==> #[trigger] key_is_kept(before, after, key)
}

/// One key's strings and paths are kept.
pub open spec fn key_is_kept<S>(before: Strings<S>, after: Strings<S>, key: int) -> bool {
    match (before.engine.voices[key].strings, after.engine.voices[key].strings) {
        (Some(group), Some(group_after)) => note_is_kept(
            group,
            before.paths[key],
            group_after,
            after.paths[key],
        ),
        (None, None) => after.paths[key] == before.paths[key],
        _ => false,
    }
}

/// The strings can be played on: every key has a path for every one of its strings,
/// and every path holds at least one sample.
pub open spec fn can_play_on<S>(strings: Strings<S>) -> bool {
    &&& rendering_laws::are_playable(strings)
    &&& forall|key: int| 0 <= key < strings.paths.len() ==> have_lines(#[trigger] strings.paths[key])
}

impl<
    S: Copy,
    I: Fn(Binary32, Binary32, Binary32, Binary32, Binary32) -> Binary32,
    A: Fn(Binary32, Binary32, Binary32) -> Binary32,
    M: Fn(Binary32, Binary32, Binary32) -> Binary32,
    F: Fn(Binary32, Binary32, Binary32) -> Binary32,
    E: Fn(Binary32, Binary32, Binary32) -> Binary32,
    H: Fn(S, Binary32, Binary32) -> (S, Binary32),
    L: Fn(S) -> bool,
    B: Fn(Binary32, Binary32, Binary32, Binary32) -> Binary32,
    X: Fn(Binary32, Binary32) -> Binary32,
    R: Fn(Binary32, Binary32, Binary32, Binary32) -> Binary32,
    P: Fn(Binary32, Binary32) -> Binary32,
    N: Fn(Binary32, Binary32) -> Binary32,
    Q: Fn(Binary32, usize) -> Binary32,
    D: Fn(Binary32, Binary32, Binary32) -> Binary32,
> Arithmetic<S, I, A, M, F, E, H, L, B, X, R, P, N, Q, D> {
    /// One sample of a note changes none of its settings.
    proof fn lemma_sample_keeps(
        &self,
        group: UnisonGroup,
        before: Seq<PathState<S>>,
        bus: BridgeBus<Binary32>,
        index: usize,
        group_after: UnisonGroup,
        after: Seq<PathState<S>>,
        bus_after: BridgeBus<Binary32>,
        output: Binary32,
    )
        requires
            group.count() <= before.len(),
            are_bendable(before),
            have_lines(before),
            self.note_sounds_with_bridge(
                group,
                before,
                bus,
                index,
                group_after,
                after,
                bus_after,
                output,
            ),
        ensures
            note_is_kept(group, before, group_after, after),
    {
        let zero = Binary32::from_bits(0);
        let (heard, taps, signals, feedback, outputs) = choose|
            heard: Seq<PathState<S>>,
            taps: Seq<Binary32>,
            signals: Seq<Binary32>,
            feedback: Seq<Feedback<Binary32>>,
            outputs: Seq<Binary32>,
        |
            {
                &&& #[trigger] self.all_hear(group, group.count(), before, heard, taps, signals)
                &&& coupling::is_coupled_with_bridge(
                    group,
                    signals,
                    zero,
                    bus,
                    index,
                    self.plus,
                    self.minus,
                    self.quotient,
                    self.blend,
                    self.times,
                    bus_after,
                    feedback,
                )
                &&& #[trigger] self.all_answer(
                    group,
                    group.count(),
                    heard,
                    taps,
                    feedback,
                    group_after,
                    after,
                    outputs,
                )
                &&& self.adds_up(outputs, output)
            };
        assert forall|i: int| 0 <= i < before.len() implies waveguide::cleared(#[trigger] after[i])
            == waveguide::cleared(before[i]) && after[i].line.len() == before[i].line.len() && (i
            < group.count() ==> group_after.at(i)->0 == (PluckedString {
            envelope: group_after.at(i)->0.envelope,
            ..group.at(i)->0
        })) by {
            assert(0 <= before[i].active <= before[i].sections.len());
            assert(before[i].line.len() > 0);
            if i < group.count() {
                assert(self.hears(group.at(i)->0, before[i], heard[i], taps[i], signals[i]));
                self.hearing_keeps_tuning(
                    group.at(i)->0,
                    before[i],
                    heard[i],
                    taps[i],
                    signals[i],
                );
                assert(self.answers(
                    group.at(i)->0,
                    heard[i],
                    taps[i],
                    feedback[i],
                    group_after.at(i)->0,
                    after[i],
                    outputs[i],
                ));
                self.answering_keeps_tuning(
                    group.at(i)->0,
                    heard[i],
                    taps[i],
                    feedback[i],
                    group_after.at(i)->0,
                    after[i],
                    outputs[i],
                );
            } else {
                assert(heard[i] == before[i]);
                assert(after[i] == heard[i]);
            }
        }
        assert forall|i: int| 0 <= i < group.count() implies (#[trigger] group_after.at(i))->0
            == (PluckedString { envelope: group_after.at(i)->0.envelope, ..group.at(i)->0 }) by {
            assert(waveguide::cleared(after[i]) == waveguide::cleared(before[i]));
        }
    }

    /// However long a note plays, none of its settings changes.
    proof fn lemma_voice_keeps(
        &self,
        group: UnisonGroup,
        before: Seq<PathState<S>>,
        bus: BridgeBus<Binary32>,
        outputs: Seq<Binary32>,
        group_after: UnisonGroup,
        after: Seq<PathState<S>>,
        bus_after: BridgeBus<Binary32>,
    )
        requires
            group.count() <= before.len(),
            are_bendable(before),
            have_lines(before),
            self.voice_plays(group, before, bus, outputs, group_after, after, bus_after),
        ensures
            note_is_kept(group, before, group_after, after),
        decreases outputs.len(),
    {
        if outputs.len() > 0 {
            let (played, states, reached) = choose|
                played: UnisonGroup,
                states: Seq<PathState<S>>,
                reached: BridgeBus<Binary32>,
            |
                {
                    &&& self.voice_plays(
                        group,
                        before,
                        bus,
                        outputs.drop_last(),
                        played,
                        states,
                        reached,
                    )
                    &&& #[trigger] self.note_sounds_with_bridge(
                        played,
                        states,
                        reached,
                        (outputs.len() - 1) as usize,
                        group_after,
                        after,
                        bus_after,
                        outputs.last(),
                    )
                };
            self.lemma_voice_keeps(
                group,
                before,
                bus,
                outputs.drop_last(),
                played,
                states,
                reached,
            );
            lemma_kept_plays_on(group, before, played, states);
            self.lemma_sample_keeps(
                played,
                states,
                reached,
                (outputs.len() - 1) as usize,
                group_after,
                after,
                bus_after,
                outputs.last(),
            );
            lemma_kept_twice(group, before, played, states, group_after, after);
        }
    }

    /// However many keys play, no setting changes.
    proof fn lemma_keys_keep(
        &self,
        before: Strings<S>,
        sums: Seq<Binary32>,
        keys: int,
        after: Strings<S>,
        sums_after: Seq<Binary32>,
    )
        requires
            0 <= keys <= before.engine.voices.len(),
            can_play_on(before),
            self.keys_sound(before, sums, keys, after, sums_after),
        ensures
            all_are_kept(before, after),
            forall|key: int|
                keys <= key < before.engine.voices.len() ==> #[trigger] after.engine.voices[key]
                    == before.engine.voices[key] && after.paths[key] == before.paths[key],
        decreases keys,
    {
        if keys <= 0 {
            assert forall|key: int| 0 <= key < before.engine.voices.len() implies #[trigger]
                key_is_kept(before, after, key) by {}
        } else {
            let (reached, reached_sums) = choose|
                reached: Strings<S>,
                reached_sums: Seq<Binary32>,
            |
                {
                    &&& self.keys_sound(before, sums, keys - 1, reached, reached_sums)
                    &&& #[trigger] self.key_sounds(
                        reached,
                        reached_sums,
                        keys - 1,
                        after,
                        sums_after,
                    )
                };
            self.lemma_keys_keep(before, sums, keys - 1, reached, reached_sums);
            let key = keys - 1;
            let voice = reached.engine.voices[key];
            assert(voice == before.engine.voices[key]);
            assert(rendering_laws::is_playable(before, key));
            if !voice.inert() {
                let (group, states, outputs) = choose|
                    group: UnisonGroup,
                    states: Seq<PathState<S>>,
                    outputs: Seq<Binary32>,
                |
                    {
                        &&& #[trigger] self.voice_plays(
                            voice.strings->0,
                            reached.paths[key],
                            reached.bridge,
                            outputs,
                            group,
                            states,
                            after.bridge,
                        )
                        &&& self.adds_to(reached_sums, outputs, sums_after)
                        &&& after == Strings {
                            engine: EngineState {
                                voices: reached.engine.voices.update(
                                    key,
                                    Voice { strings: Some(group), ..voice },
                                ),
                                ..reached.engine
                            },
                            paths: reached.paths.update(key, states),
                            bridge: after.bridge,
                        }
                    };
                assert(have_lines(before.paths[key]));
                self.lemma_voice_keeps(
                    voice.strings->0,
                    reached.paths[key],
                    reached.bridge,
                    outputs,
                    group,
                    states,
                    after.bridge,
                );
            }
            assert forall|other: int| 0 <= other < before.engine.voices.len() implies #[trigger]
                key_is_kept(before, after, other) by {
                assert(key_is_kept(before, reached, other));
            }
            assert forall|other: int| keys <= other < before.engine.voices.len() implies
                #[trigger] after.engine.voices[other] == before.engine.voices[other]
                && after.paths[other] == before.paths[other] by {
                assert(reached.engine.voices[other] == before.engine.voices[other]);
            }
        }
    }

    /// Playing changes no setting: however long the instrument is rendered, every
    /// string is set and every path is tuned as before.
    pub proof fn playing_changes_no_setting<
        C: Copy,
        G: Fn(C, Binary32, Binary32, Binary32) -> Binary32,
        K: Fn(Binary32, Binary32) -> Binary32,
    >(
        &self,
        ring: G,
        saturate: K,
        before: Instrument<S, C>,
        heard: Seq<Binary32>,
        after: Instrument<S, C>,
    )
        requires
            before.strings.engine.voices.len() == KEY_COUNT,
            can_play_on(before.strings),
            self.block_sounds(ring, saturate, before, heard, after),
        ensures
            all_are_kept(before.strings, after.strings),
        decreases heard.len(),
    {
        let chunk = BRIDGE_BLOCK_SAMPLES as int;
        if heard.len() == 0 {
            assert forall|key: int| 0 <= key < KEY_COUNT implies #[trigger] key_is_kept(
                before.strings,
                after.strings,
                key,
            ) by {}
        } else if heard.len() <= chunk {
            self.lemma_chunk_keeps(ring, saturate, before, heard, after);
        } else {
            let reached = choose|reached: Instrument<S, C>|
                {
                    &&& #[trigger] self.chunk_sounds(
                        ring,
                        saturate,
                        before,
                        heard.take(chunk),
                        reached,
                    )
                    &&& self.block_sounds(ring, saturate, reached, heard.skip(chunk), after)
                };
            self.lemma_chunk_keeps(ring, saturate, before, heard.take(chunk), reached);
            lemma_all_kept_play_on(before.strings, reached.strings);
            self.playing_changes_no_setting(ring, saturate, reached, heard.skip(chunk), after);
            lemma_all_kept_twice(before.strings, reached.strings, after.strings);
        }
    }

    /// One chunk changes no setting.
    proof fn lemma_chunk_keeps<
        C: Copy,
        G: Fn(C, Binary32, Binary32, Binary32) -> Binary32,
        K: Fn(Binary32, Binary32) -> Binary32,
    >(
        &self,
        ring: G,
        saturate: K,
        before: Instrument<S, C>,
        heard: Seq<Binary32>,
        after: Instrument<S, C>,
    )
        requires
            before.strings.engine.voices.len() == KEY_COUNT,
            can_play_on(before.strings),
            self.chunk_sounds(ring, saturate, before, heard, after),
        ensures
            all_are_kept(before.strings, after.strings),
    {
        let (begun, sums) = choose|begun: BridgeBus<Binary32>, sums: Seq<Binary32>| #[trigger]
            self.keys_sound(
                before.strings.at_bridge(begun),
                rendering::silence(heard.len() as int),
                KEY_COUNT as int,
                after.strings,
                sums,
            );
        let start = before.strings.at_bridge(begun);
        assert forall|key: int| 0 <= key < start.engine.voices.len() implies #[trigger]
            rendering_laws::is_playable(start, key) by {
            assert(rendering_laws::is_playable(before.strings, key));
        }
        self.lemma_keys_keep(
            start,
            rendering::silence(heard.len() as int),
            KEY_COUNT as int,
            after.strings,
            sums,
        );
        assert forall|key: int| 0 <= key < KEY_COUNT implies #[trigger] key_is_kept(
            before.strings,
            after.strings,
            key,
        ) by {
            assert(key_is_kept(start, after.strings, key));
        }
    }

    /// Playing leaves every path that of its string: what was set before is what is
    /// heard, and what is set next finds the strings it was set for.
    pub proof fn playing_keeps_the_paths<
        C: Copy,
        G: Fn(C, Binary32, Binary32, Binary32) -> Binary32,
        K: Fn(Binary32, Binary32) -> Binary32,
        Bend: Fn(Binary32) -> Binary32,
    >(
        &self,
        ring: G,
        saturate: K,
        bend: Bend,
        before: Instrument<S, C>,
        heard: Seq<Binary32>,
        after: Instrument<S, C>,
    )
        requires
            before.strings.engine.voices.len() == KEY_COUNT,
            can_play_on(before.strings),
            playing::all_paths_agree(before.strings.engine, bend, before.strings.paths),
            self.block_sounds(ring, saturate, before, heard, after),
        ensures
            playing::all_paths_agree(after.strings.engine, bend, after.strings.paths),
    {
        self.playing_changes_no_setting(ring, saturate, before, heard, after);
        kept_strings_agree(before.strings, bend, after.strings);
    }
}

/// Strings that were kept have the paths they had: every path is still that of its
/// string.
pub proof fn kept_strings_agree<S, Bend: Fn(Binary32) -> Binary32>(
    before: Strings<S>,
    bend: Bend,
    after: Strings<S>,
)
    requires
        rendering_laws::are_playable(before),
        playing::all_paths_agree(before.engine, bend, before.paths),
        all_are_kept(before, after),
    ensures
        playing::all_paths_agree(after.engine, bend, after.paths),
{
    assert forall|key: int| 0 <= key < after.paths.len() implies are_paths_of(
        after.engine.voices[key].strings,
        bend,
        #[trigger] after.paths[key],
    ) by {
        assert(key_is_kept(before, after, key));
        assert(are_paths_of(
            before.engine.voices[key].strings,
            bend,
            before.paths[key],
        ));
        assert(rendering_laws::is_playable(before, key));
        if after.engine.voices[key].strings is Some {
            let group = before.engine.voices[key].strings->0;
            let group_after = after.engine.voices[key].strings->0;
            assert forall|i: int| 0 <= i < group_after.count() implies waveguide::is_path_of(
                group_after.at(i)->0,
                bend,
                #[trigger] after.paths[key][i],
            ) by {
                let path = before.paths[key][i];
                let path_after = after.paths[key][i];
                assert(waveguide::is_path_of(group.at(i)->0, bend, path));
                assert(group_after.at(i)->0 == PluckedString {
                    envelope: group_after.at(i)->0.envelope,
                    ..group.at(i)->0
                });
                assert(waveguide::cleared(path_after) == waveguide::cleared(path));
                waveguide::clearing_shows_tuning(path, path_after);
                playing::lemma_tuned_agrees(
                    group.at(i)->0,
                    group_after.at(i)->0,
                    bend,
                    path,
                    path_after,
                );
            }
        }
    }
}

/// What a well-formed engine plays on, with the paths that fit it, can be played on.
pub proof fn fitting_strings_can_play_on<S: Copy>(
    engine: Engine,
    paths: Seq<Vec<Waveguide<S>>>,
    bridge: BridgeBus<Binary32>,
)
    requires
        engine.wf(),
        rendering::fits(engine@, paths),
    ensures
        engine@.voices.len() == KEY_COUNT,
        can_play_on(rendering::strings(engine, paths, bridge)),
{
    rendering_laws::fitting_strings_are_playable(engine, paths, bridge);
    let strings = rendering::strings(engine, paths, bridge);
    assert forall|key: int| 0 <= key < strings.paths.len() implies have_lines(
        #[trigger] strings.paths[key],
    ) by {
        assert(sounding::are_wf(paths[key]@));
        assert forall|i: int| 0 <= i < strings.paths[key].len() implies (
        #[trigger] strings.paths[key][i]).line.len() > 0 by {
            assert(paths[key]@[i].wf());
            paths[key]@[i].line.holds_a_sample();
        }
    }
}

/// What was kept twice was kept, for every key.
proof fn lemma_all_kept_twice<S>(before: Strings<S>, between: Strings<S>, after: Strings<S>)
    requires
        all_are_kept(before, between),
        all_are_kept(between, after),
    ensures
        all_are_kept(before, after),
{
    assert forall|key: int| 0 <= key < before.engine.voices.len() implies #[trigger] key_is_kept(
        before,
        after,
        key,
    ) by {
        assert(key_is_kept(before, between, key));
        assert(key_is_kept(between, after, key));
        if before.engine.voices[key].strings is Some {
            lemma_kept_twice(
                before.engine.voices[key].strings->0,
                before.paths[key],
                between.engine.voices[key].strings->0,
                between.paths[key],
                after.engine.voices[key].strings->0,
                after.paths[key],
            );
        }
    }
}

/// What was kept can be played on, for every key.
proof fn lemma_all_kept_play_on<S>(before: Strings<S>, after: Strings<S>)
    requires
        can_play_on(before),
        all_are_kept(before, after),
    ensures
        can_play_on(after),
{
    assert forall|key: int| 0 <= key < after.engine.voices.len() implies #[trigger]
        rendering_laws::is_playable(after, key) && have_lines(after.paths[key]) by {
        assert(rendering_laws::is_playable(before, key));
        assert(have_lines(before.paths[key]));
        assert(key_is_kept(before, after, key));
        if before.engine.voices[key].strings is Some {
            lemma_kept_plays_on(
                before.engine.voices[key].strings->0,
                before.paths[key],
                after.engine.voices[key].strings->0,
                after.paths[key],
            );
        }
    }
    assert forall|key: int| 0 <= key < after.paths.len() implies have_lines(
        #[trigger] after.paths[key],
    ) by {
        assert(rendering_laws::is_playable(after, key));
    }
}

} // verus!
