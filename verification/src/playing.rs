//! What is played reaches the strings.
//!
//! A command changes what the engine keeps of a voice, and with it the strings that
//! sound: a strike is written into them, silence clears them, a damping or an
//! inharmonicity moves their filters and the length of their loops, whatever is
//! ringing, and a mode of the soundboard gets a resonator of its own. So the paths
//! always are those of the strings the engine keeps.
use crate::binary32::Binary32;
use crate::commands::Command;
use crate::engine;
use crate::engine::{Action, Engine, EngineState, Voice, MAX_COMMANDS_PER_CALLBACK};
use crate::hammer::HammerConfig;
use crate::params::KEY_COUNT;
use crate::queue;
use crate::rendering::{all_states, fits};
use crate::soundboard;
use crate::soundboard::{Resonator, ResonatorBank, SoundboardMode};
use crate::sounding;
use crate::sounding::Arithmetic;
use crate::striking::Hammers;
use crate::string;
use crate::string::PluckedString;
use crate::unison;
use crate::unison::UnisonGroup;
use crate::waveguide;
use crate::waveguide::{PathState, Waveguide};
use rtrb::Consumer;
use std::marker::PhantomData;
use vstd::prelude::*;

verus! {

/// The steps of the arithmetic that follow how the instrument is set. `C` is what a
/// mode of the soundboard comes to.
pub struct Settings<C, Bend, Retune, Detune, Resonate, Power> {
    /// How far a dispersion section bends: from the inharmonicity.
    pub bend: Bend,
    /// How long the loop of a string has to be: its period, less the delay of every
    /// filter in the loop.
    pub retuned: Retune,
    /// A frequency moved by some cents.
    pub detune: Detune,
    /// What a mode of the soundboard comes to.
    pub resonate: Resonate,
    /// A number raised to another.
    pub power: Power,
    /// What the modes come to.
    pub board: PhantomData<C>,
}

/// Everything a command can reach.
#[verifier::ext_equal]
pub struct Keyboard<S, C> {
    /// The voices, the pedal, the modes and the gains.
    pub engine: EngineState,
    /// What the strings of every key hold.
    pub paths: Seq<Seq<PathState<S>>>,
    /// The soundboard.
    pub board: Seq<Resonator<C>>,
}

/// The keyboard that an engine, its strings and its board make up.
pub open spec fn keyboard<S: Copy, C: Copy>(
    engine: Engine,
    paths: Seq<Vec<Waveguide<S>>>,
    board: ResonatorBank<C>,
) -> Keyboard<S, C> {
    Keyboard { engine: engine@, paths: all_states(paths), board: board@ }
}

/// The lines of a note's paths are as long as its strings say.
pub open spec fn lines_reach<S>(strings: Option<UnisonGroup>, paths: Seq<PathState<S>>) -> bool {
    strings matches Some(group) ==> {
        &&& group.count() <= paths.len()
        &&& forall|i: int|
            0 <= i < group.count() ==> (#[trigger] paths[i]).line.len() == group.at(i)->0.max_delay
                + 1
    }
}

/// The lines of all paths are as long as the engine's strings say.
pub open spec fn all_lines_reach<S>(engine: EngineState, paths: Seq<Seq<PathState<S>>>) -> bool {
    &&& paths.len() == engine.voices.len()
    &&& forall|key: int|
        0 <= key < paths.len() ==> lines_reach(
            engine.voices[key].strings,
            #[trigger] paths[key],
        )
}

/// The paths of a note are those of its strings.
pub open spec fn are_paths_of<S, Bend: Fn(Binary32) -> Binary32>(
    strings: Option<UnisonGroup>,
    bend: Bend,
    paths: Seq<PathState<S>>,
) -> bool {
    strings matches Some(group) ==> {
        &&& group.count() <= paths.len()
        &&& forall|i: int|
            0 <= i < group.count() ==> waveguide::is_path_of(
                group.at(i)->0,
                bend,
                #[trigger] paths[i],
            )
    }
}

/// Every path is that of a string the engine keeps.
pub open spec fn all_paths_agree<S, Bend: Fn(Binary32) -> Binary32>(
    engine: EngineState,
    bend: Bend,
    paths: Seq<Seq<PathState<S>>>,
) -> bool {
    &&& paths.len() == engine.voices.len()
    &&& forall|key: int|
        0 <= key < paths.len() ==> are_paths_of(
            engine.voices[key].strings,
            bend,
            #[trigger] paths[key],
        )
}

/// `after` is a note's paths with the `chosen` one, or all of them, following their
/// strings.
pub open spec fn note_follows<S, Bend: Fn(Binary32) -> Binary32>(
    strings: Option<UnisonGroup>,
    chosen: Option<int>,
    bend: Bend,
    before: Seq<PathState<S>>,
    after: Seq<PathState<S>>,
) -> bool {
    &&& after.len() == before.len()
    &&& forall|i: int|
        0 <= i < before.len() ==> if strings is Some && i < strings->0.count()
            && unison::is_chosen(chosen, i) {
            waveguide::is_following(before[i], strings->0.at(i)->0, bend, #[trigger] after[i])
        } else {
            after[i] == before[i]
        }
}

/// A note's paths, cleared.
pub open spec fn note_cleared<S>(paths: Seq<PathState<S>>) -> Seq<PathState<S>> {
    Seq::new(paths.len(), |i: int| waveguide::cleared(paths[i]))
}

impl<
    S: Copy,
    I: Fn(Binary32, Binary32, Binary32, Binary32, Binary32) -> Binary32,
    A: Fn(Binary32, Binary32, Binary32) -> Binary32,
    M: Fn(Binary32, Binary32, Binary32) -> Binary32,
    F: Fn(Binary32, Binary32, Binary32) -> Binary32,
    E: Fn(Binary32, Binary32, Binary32) -> Binary32,
    H: Fn(S, Binary32, Binary32) -> (S, Binary32),
    L: Fn(S) -> bool,
    B: Fn(Binary32, Binary32, Binary32, Binary32) -> Binary32,
    X: Fn(Binary32, Binary32) -> Binary32,
    R: Fn(Binary32, Binary32, Binary32, Binary32) -> Binary32,
    P: Fn(Binary32, Binary32) -> Binary32,
    N: Fn(Binary32, Binary32) -> Binary32,
    Q: Fn(Binary32, usize) -> Binary32,
    D: Fn(Binary32, Binary32, Binary32) -> Binary32,
> Arithmetic<S, I, A, M, F, E, H, L, B, X, R, P, N, Q, D> {
    /// `after` is a note's paths struck at `velocity`.
    pub open spec fn note_is_struck<
        W: Copy,
        Y: Fn(Binary32) -> W,
        V: Fn(HammerConfig, Binary32, W, Binary32) -> (W, Binary32),
        O: Fn(HammerConfig, Binary32) -> Binary32,
        U: Fn(Binary32, Binary32) -> Binary32,
        J: Fn(Binary32) -> Binary32,
        K: Fn(PluckedString, Binary32, Binary32, Binary32, usize) -> S,
        Z: Fn(PluckedString) -> Binary32,
    >(
        &self,
        hammers: Hammers<S, W, Y, V, O, U, J, K, Z>,
        group: UnisonGroup,
        velocity: Binary32,
        before: Seq<PathState<S>>,
        after: Seq<PathState<S>>,
    ) -> bool {
        &&& after.len() == before.len()
        &&& forall|i: int|
            0 <= i < before.len() ==> if i < group.count() {
                hammers.strikes(
                    group.at(i)->0,
                    velocity,
                    self.step,
                    self.has_left,
                    self.minus,
                    before[i],
                    #[trigger] after[i],
                )
            } else {
                after[i] == before[i]
            }
    }

    /// Strikes every string of a note at `velocity`.
    pub fn strike_note<
        W: Copy,
        Y: Fn(Binary32) -> W,
        V: Fn(HammerConfig, Binary32, W, Binary32) -> (W, Binary32),
        O: Fn(HammerConfig, Binary32) -> Binary32,
        U: Fn(Binary32, Binary32) -> Binary32,
        J: Fn(Binary32) -> Binary32,
        K: Fn(PluckedString, Binary32, Binary32, Binary32, usize) -> S,
        Z: Fn(PluckedString) -> Binary32,
    >(
        &self,
        group: &UnisonGroup,
        paths: &mut Vec<Waveguide<S>>,
        velocity: Binary32,
        hammers: &Hammers<S, W, Y, V, O, U, J, K, Z>,
    )
        requires
            self.takes_anything(),
            hammers.takes_anything(),
            group.wf(),
            sounding::are_wf(old(paths)@),
            lines_reach(Some(*group), sounding::states(old(paths)@)),
        ensures
            sounding::are_wf(final(paths)@),
            self.note_is_struck(
                *hammers,
                *group,
                velocity,
                sounding::states(old(paths)@),
                sounding::states(final(paths)@),
            ),
    {
        let count = group.len();
        let ghost first = sounding::states(paths@);
        let mut index: usize = 0;
        while index < count
            invariant
                self.takes_anything(),
                hammers.takes_anything(),
                group.wf(),
                count == group.count() <= paths@.len(),
                first == sounding::states(old(paths)@),
                paths@.len() == old(paths)@.len() == first.len(),
                index <= count,
                sounding::are_wf(paths@),
                lines_reach(Some(*group), first),
                forall|i: int|
                    0 <= i < index ==> hammers.strikes(
                        group.at(i)->0,
                        velocity,
                        self.step,
                        self.has_left,
                        self.minus,
                        first[i],
                        (#[trigger] paths@[i])@,
                    ),
                forall|i: int| index <= i < paths@.len() ==> (#[trigger] paths@[i])@ == first[i],
            decreases count - index,
        {
            if let Some(string) = group.string(index) {
                let ghost earlier = paths@;
                assert(paths@[index as int]@ == first[index as int]);
                assert(paths@[index as int].wf());
                hammers.strike(
                    &string,
                    velocity,
                    &mut paths[index],
                    &self.step,
                    &self.has_left,
                    &self.minus,
                );
                assert forall|i: int| 0 <= i < paths@.len() && i != index implies #[trigger]
                    paths@[i] == earlier[i] by {}
            }
            index = index + 1;
        }
    }
}

impl PluckedString {
    /// Strikes the string at `velocity`, which is clamped into `[0, 1]`: the hammer
    /// lifts the damper, the level starts from the strike's, and the excitation is
    /// written into the string's path.
    pub fn pluck<
        S: Copy,
        I: Fn(Binary32, Binary32, Binary32, Binary32, Binary32) -> Binary32,
        A: Fn(Binary32, Binary32, Binary32) -> Binary32,
        M: Fn(Binary32, Binary32, Binary32) -> Binary32,
        F: Fn(Binary32, Binary32, Binary32) -> Binary32,
        E: Fn(Binary32, Binary32, Binary32) -> Binary32,
        H: Fn(S, Binary32, Binary32) -> (S, Binary32),
        L: Fn(S) -> bool,
        B: Fn(Binary32, Binary32, Binary32, Binary32) -> Binary32,
        X: Fn(Binary32, Binary32) -> Binary32,
        R: Fn(Binary32, Binary32, Binary32, Binary32) -> Binary32,
        P: Fn(Binary32, Binary32) -> Binary32,
        N: Fn(Binary32, Binary32) -> Binary32,
        Q: Fn(Binary32, usize) -> Binary32,
        D: Fn(Binary32, Binary32, Binary32) -> Binary32,
        W: Copy,
        Y: Fn(Binary32) -> W,
        V: Fn(HammerConfig, Binary32, W, Binary32) -> (W, Binary32),
        O: Fn(HammerConfig, Binary32) -> Binary32,
        U: Fn(Binary32, Binary32) -> Binary32,
        J: Fn(Binary32) -> Binary32,
        K: Fn(PluckedString, Binary32, Binary32, Binary32, usize) -> S,
        Z: Fn(PluckedString) -> Binary32,
    >(
        &mut self,
        velocity: Binary32,
        path: &mut Waveguide<S>,
        arithmetic: &Arithmetic<S, I, A, M, F, E, H, L, B, X, R, P, N, Q, D>,
        hammers: &Hammers<S, W, Y, V, O, U, J, K, Z>,
    )
        requires
            arithmetic.takes_anything(),
            hammers.takes_anything(),
            old(self).wf(),
            old(path).wf(),
            old(path)@.line.len() == old(self).max_delay + 1,
        ensures
            *final(self) == old(self).plucked(velocity),
            final(self).wf(),
            !final(self).damper_engaged,
            final(path).wf(),
            hammers.strikes(
                old(self).plucked(velocity),
                string::normalised(velocity),
                arithmetic.step,
                arithmetic.has_left,
                arithmetic.minus,
                old(path)@,
                final(path)@,
            ),
    {
        let clamped = self.mark_struck(velocity);
        hammers.strike(
            self,
            clamped,
            path,
            &arithmetic.step,
            &arithmetic.has_left,
            &arithmetic.minus,
        );
    }
}

impl UnisonGroup {
    /// Strikes every string in the group at the same `velocity`.
    pub fn pluck<
        S: Copy,
        I: Fn(Binary32, Binary32, Binary32, Binary32, Binary32) -> Binary32,
        A: Fn(Binary32, Binary32, Binary32) -> Binary32,
        M: Fn(Binary32, Binary32, Binary32) -> Binary32,
        F: Fn(Binary32, Binary32, Binary32) -> Binary32,
        E: Fn(Binary32, Binary32, Binary32) -> Binary32,
        H: Fn(S, Binary32, Binary32) -> (S, Binary32),
        L: Fn(S) -> bool,
        B: Fn(Binary32, Binary32, Binary32, Binary32) -> Binary32,
        X: Fn(Binary32, Binary32) -> Binary32,
        R: Fn(Binary32, Binary32, Binary32, Binary32) -> Binary32,
        P: Fn(Binary32, Binary32) -> Binary32,
        N: Fn(Binary32, Binary32) -> Binary32,
        Q: Fn(Binary32, usize) -> Binary32,
        D: Fn(Binary32, Binary32, Binary32) -> Binary32,
        W: Copy,
        Y: Fn(Binary32) -> W,
        V: Fn(HammerConfig, Binary32, W, Binary32) -> (W, Binary32),
        O: Fn(HammerConfig, Binary32) -> Binary32,
        U: Fn(Binary32, Binary32) -> Binary32,
        J: Fn(Binary32) -> Binary32,
        K: Fn(PluckedString, Binary32, Binary32, Binary32, usize) -> S,
        Z: Fn(PluckedString) -> Binary32,
    >(
        &mut self,
        velocity: Binary32,
        paths: &mut Vec<Waveguide<S>>,
        arithmetic: &Arithmetic<S, I, A, M, F, E, H, L, B, X, R, P, N, Q, D>,
        hammers: &Hammers<S, W, Y, V, O, U, J, K, Z>,
    )
        requires
            arithmetic.takes_anything(),
            hammers.takes_anything(),
            old(self).wf(),
            sounding::are_wf(old(paths)@),
            lines_reach(Some(*old(self)), sounding::states(old(paths)@)),
        ensures
            *final(self) == old(self).each(|s: PluckedString| s.plucked(velocity)),
            final(self).wf(),
            sounding::are_wf(final(paths)@),
            arithmetic.note_is_struck(
                *hammers,
                *final(self),
                string::normalised(velocity),
                sounding::states(old(paths)@),
                sounding::states(final(paths)@),
            ),
    {
        self.mark_struck(velocity);
        assert forall|i: int| 0 <= i < self.count() implies (#[trigger] sounding::states(
            paths@,
        )[i]).line.len() == self.at(i)->0.max_delay + 1 by {
            assert(self.at(i)->0.max_delay == old(self).at(i)->0.max_delay);
        }
        arithmetic.strike_note(self, paths, string::normalise(velocity), hammers);
    }
}

impl<
    S: Copy,
    I: Fn(Binary32, Binary32, Binary32, Binary32, Binary32) -> Binary32,
    A: Fn(Binary32, Binary32, Binary32) -> Binary32,
    M: Fn(Binary32, Binary32, Binary32) -> Binary32,
    F: Fn(Binary32, Binary32, Binary32) -> Binary32,
    E: Fn(Binary32, Binary32, Binary32) -> Binary32,
    H: Fn(S, Binary32, Binary32) -> (S, Binary32),
    L: Fn(S) -> bool,
    B: Fn(Binary32, Binary32, Binary32, Binary32) -> Binary32,
    X: Fn(Binary32, Binary32) -> Binary32,
    R: Fn(Binary32, Binary32, Binary32, Binary32) -> Binary32,
    P: Fn(Binary32, Binary32) -> Binary32,
    N: Fn(Binary32, Binary32) -> Binary32,
    Q: Fn(Binary32, usize) -> Binary32,
    D: Fn(Binary32, Binary32, Binary32) -> Binary32,
> Arithmetic<S, I, A, M, F, E, H, L, B, X, R, P, N, Q, D> {
    /// What an action asks for is done to the paths and the board.
    pub open spec fn performs<
        W: Copy,
        Y: Fn(Binary32) -> W,
        V: Fn(HammerConfig, Binary32, W, Binary32) -> (W, Binary32),
        O: Fn(HammerConfig, Binary32) -> Binary32,
        U: Fn(Binary32, Binary32) -> Binary32,
        J: Fn(Binary32) -> Binary32,
        K: Fn(PluckedString, Binary32, Binary32, Binary32, usize) -> S,
        Z: Fn(PluckedString) -> Binary32,
        C: Copy,
        Bend: Fn(Binary32) -> Binary32,
        Retune: Fn(PluckedString) -> Binary32,
        Detune: Fn(Binary32, Binary32) -> Binary32,
        Resonate: Fn(SoundboardMode) -> C,
        Power: Fn(Binary32, Binary32) -> Binary32,
    >(
        &self,
        hammers: Hammers<S, W, Y, V, O, U, J, K, Z>,
        settings: Settings<C, Bend, Retune, Detune, Resonate, Power>,
        action: Action,
        engine: EngineState,
        paths: Seq<Seq<PathState<S>>>,
        board: Seq<Resonator<C>>,
        paths_after: Seq<Seq<PathState<S>>>,
        board_after: Seq<Resonator<C>>,
    ) -> bool {
        match action {
            Action::Nothing => paths_after == paths && board_after == board,
            Action::Strike { key, velocity } => {
                &&& board_after == board
                &&& paths_after == paths.update(key as int, paths_after[key as int])
                &&& self.note_is_struck(
                    hammers,
                    engine.voices[key as int].strings->0,
                    velocity,
                    paths[key as int],
                    paths_after[key as int],
                )
            },
            Action::Silence => {
                &&& board_after == board
                &&& paths_after == Seq::new(paths.len(), |key: int| note_cleared(paths[key]))
            },
            Action::RetuneAll => {
                &&& board_after == board
                &&& paths_after.len() == paths.len()
                &&& forall|key: int|
                    0 <= key < paths.len() ==> note_follows(
                        engine.voices[key].strings,
                        None,
                        settings.bend,
                        paths[key],
                        #[trigger] paths_after[key],
                    )
            },
            Action::Retune { key, string } => {
                &&& board_after == board
                &&& paths_after == paths.update(key as int, paths_after[key as int])
                &&& note_follows(
                    engine.voices[key as int].strings,
                    Some(string as int),
                    settings.bend,
                    paths[key as int],
                    paths_after[key as int],
                )
            },
            Action::RebuildMode { index } => {
                &&& paths_after == paths
                &&& exists|coefficients: C| #[trigger]
                    settings.resonate.ensures((engine.modes[index as int],), coefficients)
                        && board_after == board.update(
                        index as int,
                        Resonator {
                            coefficients,
                            state1: Binary32::from_bits(0),
                            state2: Binary32::from_bits(0),
                        },
                    )
            },
        }
    }

    /// `after` is the keyboard after `command`: the engine has carried it out as it
    /// hears it, and what that asks for is done to the strings and the board.
    pub open spec fn obeys<
        W: Copy,
        Y: Fn(Binary32) -> W,
        V: Fn(HammerConfig, Binary32, W, Binary32) -> (W, Binary32),
        O: Fn(HammerConfig, Binary32) -> Binary32,
        U: Fn(Binary32, Binary32) -> Binary32,
        J: Fn(Binary32) -> Binary32,
        K: Fn(PluckedString, Binary32, Binary32, Binary32, usize) -> S,
        Z: Fn(PluckedString) -> Binary32,
        C: Copy,
        Bend: Fn(Binary32) -> Binary32,
        Retune: Fn(PluckedString) -> Binary32,
        Detune: Fn(Binary32, Binary32) -> Binary32,
        Resonate: Fn(SoundboardMode) -> C,
        Power: Fn(Binary32, Binary32) -> Binary32,
    >(
        &self,
        hammers: Hammers<S, W, Y, V, O, U, J, K, Z>,
        settings: Settings<C, Bend, Retune, Detune, Resonate, Power>,
        before: Keyboard<S, C>,
        command: Command,
        after: Keyboard<S, C>,
    ) -> bool {
        exists|heard: Command|
            {
                &&& #[trigger] engine::is_heard_as(
                    command,
                    before.engine.velocity_exponent,
                    settings.power,
                    heard,
                )
                &&& before.engine.becomes(heard, settings.detune, settings.retuned, after.engine)
                &&& self.performs(
                    hammers,
                    settings,
                    before.engine.action(heard),
                    after.engine,
                    before.paths,
                    before.board,
                    after.paths,
                    after.board,
                )
            }
    }

    /// `after` is the keyboard after every command of `commands`, in order, each once.
    pub open spec fn obeys_all<
        W: Copy,
        Y: Fn(Binary32) -> W,
        V: Fn(HammerConfig, Binary32, W, Binary32) -> (W, Binary32),
        O: Fn(HammerConfig, Binary32) -> Binary32,
        U: Fn(Binary32, Binary32) -> Binary32,
        J: Fn(Binary32) -> Binary32,
        K: Fn(PluckedString, Binary32, Binary32, Binary32, usize) -> S,
        Z: Fn(PluckedString) -> Binary32,
        C: Copy,
        Bend: Fn(Binary32) -> Binary32,
        Retune: Fn(PluckedString) -> Binary32,
        Detune: Fn(Binary32, Binary32) -> Binary32,
        Resonate: Fn(SoundboardMode) -> C,
        Power: Fn(Binary32, Binary32) -> Binary32,
    >(
        &self,
        hammers: Hammers<S, W, Y, V, O, U, J, K, Z>,
        settings: Settings<C, Bend, Retune, Detune, Resonate, Power>,
        before: Keyboard<S, C>,
        commands: Seq<Command>,
        after: Keyboard<S, C>,
    ) -> bool
        decreases commands.len(),
    {
        if commands.len() == 0 {
            after == before
        } else {
            exists|reached: Keyboard<S, C>|
                {
                    &&& self.obeys_all(hammers, settings, before, commands.drop_last(), reached)
                    &&& #[trigger] self.obeys(hammers, settings, reached, commands.last(), after)
                }
        }
    }
}

impl<
    C: Copy,
    Bend: Fn(Binary32) -> Binary32,
    Retune: Fn(PluckedString) -> Binary32,
    Detune: Fn(Binary32, Binary32) -> Binary32,
    Resonate: Fn(SoundboardMode) -> C,
    Power: Fn(Binary32, Binary32) -> Binary32,
> Settings<C, Bend, Retune, Detune, Resonate, Power> {
    /// Every step can be taken, whatever it is handed.
    pub open spec fn takes_anything(&self) -> bool {
        &&& forall|inharmonicity: Binary32| self.bend.requires((inharmonicity,))
        &&& forall|string: PluckedString| self.retuned.requires((string,))
        &&& forall|hertz: Binary32, cents: Binary32| self.detune.requires((hertz, cents))
        &&& forall|mode: SoundboardMode| self.resonate.requires((mode,))
        &&& forall|base: Binary32, exponent: Binary32| self.power.requires((base, exponent))
    }
}

/// Clears a note's paths.
fn clear_note<S: Copy>(paths: &mut Vec<Waveguide<S>>)
    requires
        sounding::are_wf(old(paths)@),
    ensures
        sounding::are_wf(final(paths)@),
        sounding::states(final(paths)@) == note_cleared(sounding::states(old(paths)@)),
{
    let mut index: usize = 0;
    while index < paths.len()
        invariant
            index <= paths@.len(),
            paths@.len() == old(paths)@.len(),
            sounding::are_wf(paths@),
            forall|i: int|
                0 <= i < index ==> (#[trigger] paths@[i])@ == waveguide::cleared(old(paths)@[i]@),
            forall|i: int| index <= i < paths@.len() ==> #[trigger] paths@[i] == old(paths)@[i],
        decreases paths@.len() - index,
    {
        let ghost earlier = paths@;
        assert(paths@[index as int].wf());
        paths[index].clear();
        assert forall|i: int| 0 <= i < paths@.len() && i != index implies #[trigger] paths@[i]
            == earlier[i] by {}
        index = index + 1;
    }
    assert(sounding::states(paths@) =~= note_cleared(sounding::states(old(paths)@)));
}

/// Has the `chosen` path of a note, or all of them, follow their strings.
fn follow_note<S: Copy, Bend: Fn(Binary32) -> Binary32>(
    strings: &Option<UnisonGroup>,
    chosen: Option<usize>,
    paths: &mut Vec<Waveguide<S>>,
    bend: &Bend,
)
    requires
        sounding::are_wf(old(paths)@),
        strings matches Some(group) ==> group.wf() && group.count() <= old(paths)@.len(),
        forall|inharmonicity: Binary32| bend.requires((inharmonicity,)),
    ensures
        sounding::are_wf(final(paths)@),
        note_follows(
            *strings,
            match chosen {
                Some(index) => Some(index as int),
                None => None,
            },
            *bend,
            sounding::states(old(paths)@),
            sounding::states(final(paths)@),
        ),
{
    let ghost choice = match chosen {
        Some(index) => Some(index as int),
        None => None::<int>,
    };
    let ghost first = sounding::states(paths@);
    if let Some(group) = strings {
        let count = group.len();
        let mut index: usize = 0;
        while index < count
            invariant
                group.wf(),
                count == group.count() <= paths@.len(),
                forall|inharmonicity: Binary32| bend.requires((inharmonicity,)),
                choice == (match chosen {
                    Some(index) => Some(index as int),
                    None => None::<int>,
                }),
                paths@.len() == first.len(),
                index <= count,
                sounding::are_wf(paths@),
                forall|i: int|
                    0 <= i < index ==> if unison::is_chosen(choice, i) {
                        waveguide::is_following(
                            first[i],
                            group.at(i)->0,
                            *bend,
                            (#[trigger] paths@[i])@,
                        )
                    } else {
                        paths@[i]@ == first[i]
                    },
                forall|i: int| index <= i < paths@.len() ==> (#[trigger] paths@[i])@ == first[i],
            decreases count - index,
        {
            let wanted = match chosen {
                Some(only) => only == index,
                None => true,
            };
            if wanted {
                if let Some(string) = group.string(index) {
                    let ghost earlier = paths@;
                    assert(paths@[index as int].wf());
                    assert(paths@[index as int]@ == first[index as int]);
                    paths[index].retune(&string, bend);
                    assert forall|i: int| 0 <= i < paths@.len() && i != index implies #[trigger]
                        paths@[i] == earlier[i] by {}
                }
            }
            index = index + 1;
        }
    }
}

impl Engine {
    /// Does what an action asks for to the strings and the board.
    pub fn perform<
        S: Copy,
        I: Fn(Binary32, Binary32, Binary32, Binary32, Binary32) -> Binary32,
        A: Fn(Binary32, Binary32, Binary32) -> Binary32,
        M: Fn(Binary32, Binary32, Binary32) -> Binary32,
        F: Fn(Binary32, Binary32, Binary32) -> Binary32,
        E: Fn(Binary32, Binary32, Binary32) -> Binary32,
        H: Fn(S, Binary32, Binary32) -> (S, Binary32),
        L: Fn(S) -> bool,
        B: Fn(Binary32, Binary32, Binary32, Binary32) -> Binary32,
        X: Fn(Binary32, Binary32) -> Binary32,
        R: Fn(Binary32, Binary32, Binary32, Binary32) -> Binary32,
        P: Fn(Binary32, Binary32) -> Binary32,
        N: Fn(Binary32, Binary32) -> Binary32,
        Q: Fn(Binary32, usize) -> Binary32,
        D: Fn(Binary32, Binary32, Binary32) -> Binary32,
        W: Copy,
        Y: Fn(Binary32) -> W,
        V: Fn(HammerConfig, Binary32, W, Binary32) -> (W, Binary32),
        O: Fn(HammerConfig, Binary32) -> Binary32,
        U: Fn(Binary32, Binary32) -> Binary32,
        J: Fn(Binary32) -> Binary32,
        K: Fn(PluckedString, Binary32, Binary32, Binary32, usize) -> S,
        Z: Fn(PluckedString) -> Binary32,
        C: Copy,
        Bend: Fn(Binary32) -> Binary32,
        Retune: Fn(PluckedString) -> Binary32,
        Detune: Fn(Binary32, Binary32) -> Binary32,
        Resonate: Fn(SoundboardMode) -> C,
        Power: Fn(Binary32, Binary32) -> Binary32,
    >(
        &self,
        action: Action,
        paths: &mut Vec<Vec<Waveguide<S>>>,
        board: &mut ResonatorBank<C>,
        arithmetic: &Arithmetic<S, I, A, M, F, E, H, L, B, X, R, P, N, Q, D>,
        hammers: &Hammers<S, W, Y, V, O, U, J, K, Z>,
        settings: &Settings<C, Bend, Retune, Detune, Resonate, Power>,
    )
        requires
            arithmetic.takes_anything(),
            hammers.takes_anything(),
            settings.takes_anything(),
            self.wf(),
            fits(self@, old(paths)@),
            all_lines_reach(self@, all_states(old(paths)@)),
            old(board)@.len() == soundboard::MODE_COUNT,
            action matches Action::Strike { key, .. } ==> key < KEY_COUNT
                && self@.voices[key as int].strings is Some,
            action matches Action::Retune { key, .. } ==> key < KEY_COUNT,
            action matches Action::RebuildMode { index } ==> index < soundboard::MODE_COUNT,
        ensures
            fits(self@, final(paths)@),
            final(board)@.len() == soundboard::MODE_COUNT,
            arithmetic.performs(
                *hammers,
                *settings,
                action,
                self@,
                all_states(old(paths)@),
                old(board)@,
                all_states(final(paths)@),
                final(board)@,
            ),
    {
        let ghost first = all_states(paths@);
        proof {
            self.keeps_a_wf_state();
        }
        match action {
            Action::Nothing => {},
            Action::Strike { key, velocity } => {
                if let Some(group) = self.group(key) {
                    let ghost earlier = paths@;
                    assert(sounding::are_wf(paths@[key as int]@));
                    assert(lines_reach(self@.voices[key as int].strings, first[key as int]));
                    arithmetic.strike_note(&group, &mut paths[key], velocity, hammers);
                    proof {
                        lemma_one_key(self@, earlier, paths@, key as int);
                    }
                }
            },
            Action::Silence => {
                self.silence_paths(paths);
            },
            Action::RetuneAll => {
                self.follow_all(paths, &settings.bend);
            },
            Action::Retune { key, string } => {
                let group = self.group(key);
                let ghost earlier = paths@;
                assert(sounding::are_wf(paths@[key as int]@));
                follow_note(&group, Some(string), &mut paths[key], &settings.bend);
                proof {
                    lemma_one_key(self@, earlier, paths@, key as int);
                }
            },
            Action::RebuildMode { index } => {
                if let Some(mode) = self.soundboard_mode(index) {
                    let resonate = &settings.resonate;
                    let coefficients = resonate(mode);
                    assert(settings.resonate.ensures((self@.modes[index as int],), coefficients));
                    board.rebuild(index, coefficients);
                }
            },
        }
    }

    /// Clears the strings of every key.
    fn silence_paths<S: Copy>(&self, paths: &mut Vec<Vec<Waveguide<S>>>)
        requires
            fits(self@, old(paths)@),
        ensures
            fits(self@, final(paths)@),
            all_states(final(paths)@) == Seq::new(
                all_states(old(paths)@).len(),
                |key: int| note_cleared(all_states(old(paths)@)[key]),
            ),
    {
        let ghost first = paths@;
        let mut key: usize = 0;
        while key < paths.len()
            invariant
                key <= paths@.len(),
                paths@.len() == first.len(),
                fits(self@, first),
                forall|k: int|
                    0 <= k < key ==> sounding::are_wf((#[trigger] paths@[k])@) && sounding::states(
                        paths@[k]@,
                    ) == note_cleared(sounding::states(first[k]@)),
                forall|k: int| key <= k < paths@.len() ==> #[trigger] paths@[k] == first[k],
            decreases paths@.len() - key,
        {
            let ghost earlier = paths@;
            assert(sounding::are_wf(first[key as int]@));
            assert(paths@[key as int] == first[key as int]);
            clear_note(&mut paths[key]);
            assert forall|k: int| 0 <= k < paths@.len() && k != key implies #[trigger] paths@[k]
                == earlier[k] by {}
            key = key + 1;
        }
        assert forall|k: int| 0 <= k < KEY_COUNT implies (self@.voices[k].strings matches Some(
            group,
        ) ==> group.count() <= (#[trigger] paths@[k])@.len()) by {
            assert(first[k]@.len() == sounding::states(first[k]@).len());
            assert(paths@[k]@.len() == sounding::states(paths@[k]@).len());
        }
        assert(all_states(paths@) =~= Seq::new(
            all_states(first).len(),
            |key: int| note_cleared(all_states(first)[key]),
        ));
    }

    /// Has the filters of every loop follow their strings.
    fn follow_all<S: Copy, Bend: Fn(Binary32) -> Binary32>(
        &self,
        paths: &mut Vec<Vec<Waveguide<S>>>,
        bend: &Bend,
    )
        requires
            self.wf(),
            fits(self@, old(paths)@),
            forall|inharmonicity: Binary32| bend.requires((inharmonicity,)),
        ensures
            fits(self@, final(paths)@),
            final(paths)@.len() == old(paths)@.len(),
            forall|key: int|
                0 <= key < KEY_COUNT ==> note_follows(
                    self@.voices[key].strings,
                    None,
                    *bend,
                    all_states(old(paths)@)[key],
                    #[trigger] all_states(final(paths)@)[key],
                ),
    {
        let ghost first = paths@;
        let mut key: usize = 0;
        while key < KEY_COUNT
            invariant
                self.wf(),
                forall|inharmonicity: Binary32| bend.requires((inharmonicity,)),
                key <= KEY_COUNT,
                paths@.len() == first.len() == KEY_COUNT,
                fits(self@, first),
                forall|k: int|
                    0 <= k < key ==> sounding::are_wf((#[trigger] paths@[k])@) && note_follows(
                        self@.voices[k].strings,
                        None,
                        *bend,
                        sounding::states(first[k]@),
                        sounding::states(paths@[k]@),
                    ),
                forall|k: int| key <= k < paths@.len() ==> #[trigger] paths@[k] == first[k],
            decreases KEY_COUNT - key,
        {
            let ghost earlier = paths@;
            let group = self.group(key);
            assert(sounding::are_wf(first[key as int]@));
            assert(paths@[key as int] == first[key as int]);
            follow_note(&group, None, &mut paths[key], bend);
            assert forall|k: int| 0 <= k < paths@.len() && k != key implies #[trigger] paths@[k]
                == earlier[k] by {}
            key = key + 1;
        }
        assert forall|k: int| 0 <= k < KEY_COUNT implies (self@.voices[k].strings matches Some(
            group,
        ) ==> group.count() <= (#[trigger] paths@[k])@.len()) by {
            assert(first[k]@.len() == sounding::states(first[k]@).len());
            assert(paths@[k]@.len() == sounding::states(paths@[k]@).len());
        }
        assert forall|k: int| 0 <= k < KEY_COUNT implies note_follows(
            self@.voices[k].strings,
            None,
            *bend,
            all_states(first)[k],
            #[trigger] all_states(paths@)[k],
        ) by {
            assert(sounding::are_wf(paths@[k]@));
        }
    }
}

/// Where nothing but one key's paths changed, and they are as many and well formed, the
/// paths fit as before.
proof fn lemma_one_key<S: Copy>(
    engine: EngineState,
    before: Seq<Vec<Waveguide<S>>>,
    after: Seq<Vec<Waveguide<S>>>,
    key: int,
)
    requires
        fits(engine, before),
        0 <= key < KEY_COUNT,
        after.len() == before.len(),
        forall|k: int| 0 <= k < before.len() && k != key ==> #[trigger] after[k] == before[k],
        sounding::are_wf(after[key]@),
        after[key]@.len() == before[key]@.len(),
    ensures
        fits(engine, after),
        all_states(after) == all_states(before).update(key, all_states(after)[key]),
{
    assert forall|k: int| 0 <= k < KEY_COUNT implies {
        &&& sounding::are_wf((#[trigger] after[k])@)
        &&& engine.voices[k].strings matches Some(group) ==> group.count() <= after[k]@.len()
    } by {
        assert(sounding::are_wf(before[k]@));
        if k != key {
            assert(after[k] == before[k]);
        }
    }
    assert(all_states(after) =~= all_states(before).update(key, all_states(after)[key]));
}

/// Two voices have the same strings, on lines as long.
pub open spec fn has_same_lines(one: Option<UnisonGroup>, other: Option<UnisonGroup>) -> bool {
    match (one, other) {
        (Some(one), Some(other)) => {
            &&& one.second is Some <==> other.second is Some
            &&& one.third is Some <==> other.third is Some
            &&& one.first.max_delay == other.first.max_delay
            &&& one.second matches Some(string) ==> other.second->0.max_delay == string.max_delay
            &&& one.third matches Some(string) ==> other.third->0.max_delay == string.max_delay
        },
        (None, None) => true,
        _ => false,
    }
}

/// No command changes how many strings a voice has, nor how long their lines are.
proof fn lemma_lines_stay<
    Detune: Fn(Binary32, Binary32) -> Binary32,
    Retune: Fn(PluckedString) -> Binary32,
>(
    voice: Voice,
    pedal_down: bool,
    command: Command,
    detune: Detune,
    retuned: Retune,
    after: Voice,
)
    requires
        voice.becomes(pedal_down, command, detune, retuned, after),
    ensures
        has_same_lines(voice.strings, after.strings),
{
    if engine::tunes(command) is Some && voice.strings is Some {
        let chosen = engine::tunes(command)->0;
        let settled = choose|settled: Voice|
            {
                &&& #[trigger] voice.settles(pedal_down, command, detune, settled)
                &&& after == Voice { strings: after.strings, ..settled }
                &&& after.strings matches Some(group) && unison::is_tuned(
                    settled.strings->0,
                    chosen,
                    retuned,
                    group,
                )
            };
        assert(has_same_lines(voice.strings, settled.strings));
        assert(has_same_lines(settled.strings, after.strings));
    }
}

/// No command changes what fits.
proof fn lemma_fitting_stays<
    S: Copy,
    Detune: Fn(Binary32, Binary32) -> Binary32,
    Retune: Fn(PluckedString) -> Binary32,
>(
    engine: EngineState,
    command: Command,
    detune: Detune,
    retuned: Retune,
    after: EngineState,
    paths: Seq<Vec<Waveguide<S>>>,
)
    requires
        engine.voices.len() == KEY_COUNT,
        engine.becomes(command, detune, retuned, after),
        fits(engine, paths),
        all_lines_reach(engine, all_states(paths)),
    ensures
        fits(after, paths),
        all_lines_reach(after, all_states(paths)),
{
    assert forall|key: int| 0 <= key < KEY_COUNT implies has_same_lines(
        engine.voices[key].strings,
        (#[trigger] after.voices[key]).strings,
    ) by {
        if engine::reaches(command, key) {
            lemma_lines_stay(
                engine.voices[key],
                engine.pedal_down,
                command,
                detune,
                retuned,
                after.voices[key],
            );
        }
    }
    assert forall|key: int| 0 <= key < KEY_COUNT implies (after.voices[key].strings matches Some(
        group,
    ) ==> group.count() <= (#[trigger] paths[key])@.len()) by {
        assert(has_same_lines(engine.voices[key].strings, after.voices[key].strings));
    }
    assert forall|key: int| 0 <= key < KEY_COUNT implies lines_reach(
        after.voices[key].strings,
        #[trigger] all_states(paths)[key],
    ) by {
        assert(has_same_lines(engine.voices[key].strings, after.voices[key].strings));
        assert(lines_reach(engine.voices[key].strings, all_states(paths)[key]));
    }
}

impl Engine {
    /// Carries out a command, as far as the strings and the board.
    pub fn obey<
        S: Copy,
        I: Fn(Binary32, Binary32, Binary32, Binary32, Binary32) -> Binary32,
        A: Fn(Binary32, Binary32, Binary32) -> Binary32,
        M: Fn(Binary32, Binary32, Binary32) -> Binary32,
        F: Fn(Binary32, Binary32, Binary32) -> Binary32,
        E: Fn(Binary32, Binary32, Binary32) -> Binary32,
        H: Fn(S, Binary32, Binary32) -> (S, Binary32),
        L: Fn(S) -> bool,
        B: Fn(Binary32, Binary32, Binary32, Binary32) -> Binary32,
        X: Fn(Binary32, Binary32) -> Binary32,
        R: Fn(Binary32, Binary32, Binary32, Binary32) -> Binary32,
        P: Fn(Binary32, Binary32) -> Binary32,
        N: Fn(Binary32, Binary32) -> Binary32,
        Q: Fn(Binary32, usize) -> Binary32,
        D: Fn(Binary32, Binary32, Binary32) -> Binary32,
        W: Copy,
        Y: Fn(Binary32) -> W,
        V: Fn(HammerConfig, Binary32, W, Binary32) -> (W, Binary32),
        O: Fn(HammerConfig, Binary32) -> Binary32,
        U: Fn(Binary32, Binary32) -> Binary32,
        J: Fn(Binary32) -> Binary32,
        K: Fn(PluckedString, Binary32, Binary32, Binary32, usize) -> S,
        Z: Fn(PluckedString) -> Binary32,
        C: Copy,
        Bend: Fn(Binary32) -> Binary32,
        Retune: Fn(PluckedString) -> Binary32,
        Detune: Fn(Binary32, Binary32) -> Binary32,
        Resonate: Fn(SoundboardMode) -> C,
        Power: Fn(Binary32, Binary32) -> Binary32,
    >(
        &mut self,
        command: Command,
        paths: &mut Vec<Vec<Waveguide<S>>>,
        board: &mut ResonatorBank<C>,
        arithmetic: &Arithmetic<S, I, A, M, F, E, H, L, B, X, R, P, N, Q, D>,
        hammers: &Hammers<S, W, Y, V, O, U, J, K, Z>,
        settings: &Settings<C, Bend, Retune, Detune, Resonate, Power>,
    )
        requires
            arithmetic.takes_anything(),
            hammers.takes_anything(),
            settings.takes_anything(),
            old(self).wf(),
            fits(old(self)@, old(paths)@),
            all_paths_agree(old(self)@, settings.bend, all_states(old(paths)@)),
            old(board)@.len() == soundboard::MODE_COUNT,
        ensures
            final(self).wf(),
            fits(final(self)@, final(paths)@),
            all_paths_agree(final(self)@, settings.bend, all_states(final(paths)@)),
            final(board)@.len() == soundboard::MODE_COUNT,
            arithmetic.obeys(
                *hammers,
                *settings,
                keyboard(*old(self), old(paths)@, *old(board)),
                command,
                keyboard(*final(self), final(paths)@, *final(board)),
            ),
    {
        let ghost before = keyboard(*self, paths@, *board);
        proof {
            self.keeps_a_wf_state();
        }
        let action = self.apply(command, &settings.power, &settings.detune, &settings.retuned);
        let ghost heard = choose|heard: Command|
            {
                &&& #[trigger] engine::is_heard_as(
                    command,
                    before.engine.velocity_exponent,
                    settings.power,
                    heard,
                )
                &&& before.engine.becomes(heard, settings.detune, settings.retuned, self@)
                &&& action == before.engine.action(heard)
            };
        proof {
            lemma_agreeing_lines_reach(before.engine, settings.bend, before.paths);
            lemma_fitting_stays(
                before.engine,
                heard,
                settings.detune,
                settings.retuned,
                self@,
                paths@,
            );
            if let Action::Strike { key, .. } = action {
                if engine::reaches(heard, key as int) {
                    lemma_lines_stay(
                        before.engine.voices[key as int],
                        before.engine.pedal_down,
                        heard,
                        settings.detune,
                        settings.retuned,
                        self@.voices[key as int],
                    );
                }
            }
        }
        self.perform(action, paths, board, arithmetic, hammers, settings);
        proof {
            let after = keyboard(*self, paths@, *board);
            assert(arithmetic.performs(
                *hammers,
                *settings,
                before.engine.action(heard),
                after.engine,
                before.paths,
                before.board,
                after.paths,
                after.board,
            ));
            assert(arithmetic.obeys(*hammers, *settings, before, command, after));
            arithmetic.paths_stay_in_step(*hammers, *settings, before, heard, after);
        }
    }

    /// Takes up to [`MAX_COMMANDS_PER_CALLBACK`] waiting commands out of the ring, in
    /// the order in which they were sent, and carries each out once, as far as the
    /// strings and the board. It stops short of that many only where every command
    /// seen to have been sent is taken.
    pub fn drain_commands<
        S: Copy,
        I: Fn(Binary32, Binary32, Binary32, Binary32, Binary32) -> Binary32,
        A: Fn(Binary32, Binary32, Binary32) -> Binary32,
        M: Fn(Binary32, Binary32, Binary32) -> Binary32,
        F: Fn(Binary32, Binary32, Binary32) -> Binary32,
        E: Fn(Binary32, Binary32, Binary32) -> Binary32,
        H: Fn(S, Binary32, Binary32) -> (S, Binary32),
        L: Fn(S) -> bool,
        B: Fn(Binary32, Binary32, Binary32, Binary32) -> Binary32,
        X: Fn(Binary32, Binary32) -> Binary32,
        R: Fn(Binary32, Binary32, Binary32, Binary32) -> Binary32,
        P: Fn(Binary32, Binary32) -> Binary32,
        N: Fn(Binary32, Binary32) -> Binary32,
        Q: Fn(Binary32, usize) -> Binary32,
        D: Fn(Binary32, Binary32, Binary32) -> Binary32,
        W: Copy,
        Y: Fn(Binary32) -> W,
        V: Fn(HammerConfig, Binary32, W, Binary32) -> (W, Binary32),
        O: Fn(HammerConfig, Binary32) -> Binary32,
        U: Fn(Binary32, Binary32) -> Binary32,
        J: Fn(Binary32) -> Binary32,
        K: Fn(PluckedString, Binary32, Binary32, Binary32, usize) -> S,
        Z: Fn(PluckedString) -> Binary32,
        C: Copy,
        Bend: Fn(Binary32) -> Binary32,
        Retune: Fn(PluckedString) -> Binary32,
        Detune: Fn(Binary32, Binary32) -> Binary32,
        Resonate: Fn(SoundboardMode) -> C,
        Power: Fn(Binary32, Binary32) -> Binary32,
    >(
        &mut self,
        consumer: &mut Consumer<Command>,
        paths: &mut Vec<Vec<Waveguide<S>>>,
        board: &mut ResonatorBank<C>,
        arithmetic: &Arithmetic<S, I, A, M, F, E, H, L, B, X, R, P, N, Q, D>,
        hammers: &Hammers<S, W, Y, V, O, U, J, K, Z>,
        settings: &Settings<C, Bend, Retune, Detune, Resonate, Power>,
    ) -> (count: usize)
        requires
            arithmetic.takes_anything(),
            hammers.takes_anything(),
            settings.takes_anything(),
            old(self).wf(),
            fits(old(self)@, old(paths)@),
            all_paths_agree(old(self)@, settings.bend, all_states(old(paths)@)),
            old(board)@.len() == soundboard::MODE_COUNT,
        ensures
            final(self).wf(),
            fits(final(self)@, final(paths)@),
            all_paths_agree(final(self)@, settings.bend, all_states(final(paths)@)),
            final(board)@.len() == soundboard::MODE_COUNT,
            queue::receiving_stream(*final(consumer)) == queue::receiving_stream(*old(consumer)),
            queue::seen(*old(consumer)) <= queue::seen(*final(consumer)),
            count <= MAX_COMMANDS_PER_CALLBACK,
            queue::taken(*final(consumer)) == queue::taken(*old(consumer)) + count,
            count == MAX_COMMANDS_PER_CALLBACK || queue::taken(*final(consumer)) == queue::seen(
                *final(consumer),
            ),
            arithmetic.obeys_all(
                *hammers,
                *settings,
                keyboard(*old(self), old(paths)@, *old(board)),
                commands_from(*old(consumer), count as int),
                keyboard(*final(self), final(paths)@, *final(board)),
            ),
    {
        let ghost before = keyboard(*self, paths@, *board);
        let mut count: usize = 0;
        while count < MAX_COMMANDS_PER_CALLBACK
            invariant
                arithmetic.takes_anything(),
                hammers.takes_anything(),
                settings.takes_anything(),
                self.wf(),
                fits(self@, paths@),
                all_paths_agree(self@, settings.bend, all_states(paths@)),
                board@.len() == soundboard::MODE_COUNT,
                before == keyboard(*old(self), old(paths)@, *old(board)),
                queue::receiving_stream(*consumer) == queue::receiving_stream(*old(consumer)),
                queue::seen(*old(consumer)) <= queue::seen(*consumer),
                count <= MAX_COMMANDS_PER_CALLBACK,
                queue::taken(*consumer) == queue::taken(*old(consumer)) + count,
                arithmetic.obeys_all(
                    *hammers,
                    *settings,
                    before,
                    commands_from(*old(consumer), count as int),
                    keyboard(*self, paths@, *board),
                ),
            decreases MAX_COMMANDS_PER_CALLBACK - count,
        {
            let ghost reached = keyboard(*self, paths@, *board);
            match queue::pop(consumer) {
                Some(command) => {
                    self.obey(command, paths, board, arithmetic, hammers, settings);
                    count = count + 1;
                    proof {
                        let longer = commands_from(*old(consumer), count as int);
                        assert(longer.drop_last() =~= commands_from(*old(consumer), count - 1));
                        assert(longer.last() == command);
                        assert(arithmetic.obeys(
                            *hammers,
                            *settings,
                            reached,
                            longer.last(),
                            keyboard(*self, paths@, *board),
                        ));
                    }
                },
                None => {
                    return count;
                },
            }
        }
        count
    }

    /// Strikes the voice of `midi`, its velocity through the velocity curve.
    pub fn note_on<
        S: Copy,
        I: Fn(Binary32, Binary32, Binary32, Binary32, Binary32) -> Binary32,
        A: Fn(Binary32, Binary32, Binary32) -> Binary32,
        M: Fn(Binary32, Binary32, Binary32) -> Binary32,
        F: Fn(Binary32, Binary32, Binary32) -> Binary32,
        E: Fn(Binary32, Binary32, Binary32) -> Binary32,
        H: Fn(S, Binary32, Binary32) -> (S, Binary32),
        L: Fn(S) -> bool,
        B: Fn(Binary32, Binary32, Binary32, Binary32) -> Binary32,
        X: Fn(Binary32, Binary32) -> Binary32,
        R: Fn(Binary32, Binary32, Binary32, Binary32) -> Binary32,
        P: Fn(Binary32, Binary32) -> Binary32,
        N: Fn(Binary32, Binary32) -> Binary32,
        Q: Fn(Binary32, usize) -> Binary32,
        D: Fn(Binary32, Binary32, Binary32) -> Binary32,
        W: Copy,
        Y: Fn(Binary32) -> W,
        V: Fn(HammerConfig, Binary32, W, Binary32) -> (W, Binary32),
        O: Fn(HammerConfig, Binary32) -> Binary32,
        U: Fn(Binary32, Binary32) -> Binary32,
        J: Fn(Binary32) -> Binary32,
        K: Fn(PluckedString, Binary32, Binary32, Binary32, usize) -> S,
        Z: Fn(PluckedString) -> Binary32,
        C: Copy,
        Bend: Fn(Binary32) -> Binary32,
        Retune: Fn(PluckedString) -> Binary32,
        Detune: Fn(Binary32, Binary32) -> Binary32,
        Resonate: Fn(SoundboardMode) -> C,
        Power: Fn(Binary32, Binary32) -> Binary32,
    >(
        &mut self,
        midi: u8,
        velocity: Binary32,
        paths: &mut Vec<Vec<Waveguide<S>>>,
        board: &mut ResonatorBank<C>,
        arithmetic: &Arithmetic<S, I, A, M, F, E, H, L, B, X, R, P, N, Q, D>,
        hammers: &Hammers<S, W, Y, V, O, U, J, K, Z>,
        settings: &Settings<C, Bend, Retune, Detune, Resonate, Power>,
    )
        requires
            arithmetic.takes_anything(),
            hammers.takes_anything(),
            settings.takes_anything(),
            old(self).wf(),
            fits(old(self)@, old(paths)@),
            all_paths_agree(old(self)@, settings.bend, all_states(old(paths)@)),
            old(board)@.len() == soundboard::MODE_COUNT,
        ensures
            final(self).wf(),
            fits(final(self)@, final(paths)@),
            all_paths_agree(final(self)@, settings.bend, all_states(final(paths)@)),
            final(board)@.len() == soundboard::MODE_COUNT,
            arithmetic.obeys(
                *hammers,
                *settings,
                keyboard(*old(self), old(paths)@, *old(board)),
                Command::NoteOn { midi, velocity },
                keyboard(*final(self), final(paths)@, *final(board)),
            ),
    {
        let command = Command::NoteOn { midi, velocity };
        self.obey(command, paths, board, arithmetic, hammers, settings);
    }
}

/// The next `count` commands of a ring's stream.
pub open spec fn commands_from(consumer: Consumer<Command>, count: int) -> Seq<Command> {
    Seq::new(
        count as nat,
        |i: int| queue::receiving_stream(consumer)[queue::taken(consumer) + i],
    )
}

/// Paths that are those of their strings are as long as the strings say.
proof fn lemma_agreeing_lines_reach<S, Bend: Fn(Binary32) -> Binary32>(
    engine: EngineState,
    bend: Bend,
    paths: Seq<Seq<PathState<S>>>,
)
    requires
        all_paths_agree(engine, bend, paths),
    ensures
        all_lines_reach(engine, paths),
{
    assert forall|key: int| 0 <= key < paths.len() implies lines_reach(
        engine.voices[key].strings,
        #[trigger] paths[key],
    ) by {
        assert(are_paths_of(engine.voices[key].strings, bend, paths[key]));
    }
}

impl<
    S: Copy,
    I: Fn(Binary32, Binary32, Binary32, Binary32, Binary32) -> Binary32,
    A: Fn(Binary32, Binary32, Binary32) -> Binary32,
    M: Fn(Binary32, Binary32, Binary32) -> Binary32,
    F: Fn(Binary32, Binary32, Binary32) -> Binary32,
    E: Fn(Binary32, Binary32, Binary32) -> Binary32,
    H: Fn(S, Binary32, Binary32) -> (S, Binary32),
    L: Fn(S) -> bool,
    B: Fn(Binary32, Binary32, Binary32, Binary32) -> Binary32,
    X: Fn(Binary32, Binary32) -> Binary32,
    R: Fn(Binary32, Binary32, Binary32, Binary32) -> Binary32,
    P: Fn(Binary32, Binary32) -> Binary32,
    N: Fn(Binary32, Binary32) -> Binary32,
    Q: Fn(Binary32, usize) -> Binary32,
    D: Fn(Binary32, Binary32, Binary32) -> Binary32,
> Arithmetic<S, I, A, M, F, E, H, L, B, X, R, P, N, Q, D> {
    /// Whatever command comes, the paths stay those of the strings: a setting that was
    /// changed is in the filters that sound, and the others are as they were.
    pub proof fn paths_stay_in_step<
        W: Copy,
        Y: Fn(Binary32) -> W,
        V: Fn(HammerConfig, Binary32, W, Binary32) -> (W, Binary32),
        O: Fn(HammerConfig, Binary32) -> Binary32,
        U: Fn(Binary32, Binary32) -> Binary32,
        J: Fn(Binary32) -> Binary32,
        K: Fn(PluckedString, Binary32, Binary32, Binary32, usize) -> S,
        Z: Fn(PluckedString) -> Binary32,
        C: Copy,
        Bend: Fn(Binary32) -> Binary32,
        Retune: Fn(PluckedString) -> Binary32,
        Detune: Fn(Binary32, Binary32) -> Binary32,
        Resonate: Fn(SoundboardMode) -> C,
        Power: Fn(Binary32, Binary32) -> Binary32,
    >(
        &self,
        hammers: Hammers<S, W, Y, V, O, U, J, K, Z>,
        settings: Settings<C, Bend, Retune, Detune, Resonate, Power>,
        before: Keyboard<S, C>,
        heard: Command,
        after: Keyboard<S, C>,
    )
        requires
            before.engine.wf(),
            all_paths_agree(before.engine, settings.bend, before.paths),
            before.engine.becomes(heard, settings.detune, settings.retuned, after.engine),
            self.performs(
                hammers,
                settings,
                before.engine.action(heard),
                after.engine,
                before.paths,
                before.board,
                after.paths,
                after.board,
            ),
        ensures
            all_paths_agree(after.engine, settings.bend, after.paths),
    {
        let action = before.engine.action(heard);
        assert forall|key: int| 0 <= key < after.paths.len() implies are_paths_of(
            after.engine.voices[key].strings,
            settings.bend,
            #[trigger] after.paths[key],
        ) by {
            assert(are_paths_of(
                before.engine.voices[key].strings,
                settings.bend,
                before.paths[key],
            ));
            assert(before.engine.voices[key].wf());
            if engine::reaches(heard, key) {
                lemma_voicing_stays(
                    before.engine.voices[key],
                    before.engine.pedal_down,
                    heard,
                    settings.detune,
                    settings.retuned,
                    after.engine.voices[key],
                );
            }
            if after.engine.voices[key].strings is Some {
                let group = after.engine.voices[key].strings->0;
                let old_group = before.engine.voices[key].strings->0;
                assert forall|i: int| 0 <= i < group.count() implies waveguide::is_path_of(
                    group.at(i)->0,
                    settings.bend,
                    #[trigger] after.paths[key][i],
                ) by {
                    let path = before.paths[key][i];
                    let path_after = after.paths[key][i];
                    assert(waveguide::is_path_of(old_group.at(i)->0, settings.bend, path));
                    assert(has_same_frame(old_group.at(i)->0, group.at(i)->0));
                    self.lemma_path_follows(
                        hammers,
                        settings,
                        before,
                        heard,
                        after,
                        key,
                        i,
                    );
                    if engine::reaches(heard, key) && moves_filters(heard, i) {
                        lemma_following_agrees(
                            old_group.at(i)->0,
                            group.at(i)->0,
                            settings.bend,
                            path,
                            path_after,
                        );
                    } else {
                        lemma_tuned_agrees(
                            old_group.at(i)->0,
                            group.at(i)->0,
                            settings.bend,
                            path,
                            path_after,
                        );
                    }
                }
            }
        }
    }

    /// What a command does to one path: its filters follow where the command moves
    /// them, and their tuning stays where it does not.
    proof fn lemma_path_follows<
        W: Copy,
        Y: Fn(Binary32) -> W,
        V: Fn(HammerConfig, Binary32, W, Binary32) -> (W, Binary32),
        O: Fn(HammerConfig, Binary32) -> Binary32,
        U: Fn(Binary32, Binary32) -> Binary32,
        J: Fn(Binary32) -> Binary32,
        K: Fn(PluckedString, Binary32, Binary32, Binary32, usize) -> S,
        Z: Fn(PluckedString) -> Binary32,
        C: Copy,
        Bend: Fn(Binary32) -> Binary32,
        Retune: Fn(PluckedString) -> Binary32,
        Detune: Fn(Binary32, Binary32) -> Binary32,
        Resonate: Fn(SoundboardMode) -> C,
        Power: Fn(Binary32, Binary32) -> Binary32,
    >(
        &self,
        hammers: Hammers<S, W, Y, V, O, U, J, K, Z>,
        settings: Settings<C, Bend, Retune, Detune, Resonate, Power>,
        before: Keyboard<S, C>,
        heard: Command,
        after: Keyboard<S, C>,
        key: int,
        index: int,
    )
        requires
            before.engine.voices.len() == KEY_COUNT,
            before.paths.len() == KEY_COUNT,
            before.engine.becomes(heard, settings.detune, settings.retuned, after.engine),
            self.performs(
                hammers,
                settings,
                before.engine.action(heard),
                after.engine,
                before.paths,
                before.board,
                after.paths,
                after.board,
            ),
            0 <= key < KEY_COUNT,
            before.engine.voices[key].strings is Some,
            after.engine.voices[key].strings is Some,
            after.engine.voices[key].strings->0.count()
                == before.engine.voices[key].strings->0.count(),
            0 <= index < after.engine.voices[key].strings->0.count(),
            before.engine.voices[key].strings->0.at(index) is Some,
            index < before.paths[key].len(),
            before.paths[key][index].line.len() > 0,
        ensures
            if engine::reaches(heard, key) && moves_filters(heard, index) {
                waveguide::is_following(
                    before.paths[key][index],
                    after.engine.voices[key].strings->0.at(index)->0,
                    settings.bend,
                    after.paths[key][index],
                )
            } else {
                waveguide::is_tuned_like(before.paths[key][index], after.paths[key][index])
            },
    {
        let path = before.paths[key][index];
        let path_after = after.paths[key][index];
        match before.engine.action(heard) {
            Action::Nothing => {},
            Action::Strike { key: struck, velocity } => {
                if struck == key {
                    let group = after.engine.voices[key].strings->0;
                    assert(hammers.strikes(
                        group.at(index)->0,
                        velocity,
                        self.step,
                        self.has_left,
                        self.minus,
                        path,
                        path_after,
                    ));
                    hammers.strikes_keep_tuning(
                        group.at(index)->0,
                        velocity,
                        self.step,
                        self.has_left,
                        self.minus,
                        path,
                        path_after,
                    );
                }
            },
            Action::Silence => {
                assert(after.paths[key] == note_cleared(before.paths[key]));
                assert(path_after == waveguide::cleared(path));
            },
            Action::RetuneAll => {
                assert(note_follows(
                    after.engine.voices[key].strings,
                    None,
                    settings.bend,
                    before.paths[key],
                    after.paths[key],
                ));
            },
            Action::Retune { key: retuned, string } => {
                if retuned == key {
                    assert(note_follows(
                        after.engine.voices[key].strings,
                        Some(string as int),
                        settings.bend,
                        before.paths[key],
                        after.paths[key],
                    ));
                }
            },
            Action::RebuildMode { .. } => {},
        }
    }
}

/// A command moves the filters of string `index`, where it reaches the string's key.
pub open spec fn moves_filters(command: Command, index: int) -> bool {
    match command {
        Command::SetDamping { .. } => true,
        Command::SetStringDamping { string_index, .. } => string_index == index,
        Command::SetStringInharmonicity { string_index, .. } => string_index == index,
        _ => false,
    }
}

/// Two strings were built alike.
pub open spec fn has_same_frame(one: PluckedString, other: PluckedString) -> bool {
    &&& one.max_delay == other.max_delay
    &&& one.loop_zero_mix == other.loop_zero_mix
    &&& one.sections == other.sections
}

/// Two strings ask for the same filters.
pub open spec fn has_same_filters(one: PluckedString, other: PluckedString) -> bool {
    &&& has_same_frame(one, other)
    &&& one.damping == other.damping
    &&& one.inharmonicity == other.inharmonicity
}

/// What a command leaves of the strings of a voice it reaches.
proof fn lemma_voicing_stays<
    Detune: Fn(Binary32, Binary32) -> Binary32,
    Retune: Fn(PluckedString) -> Binary32,
>(
    voice: Voice,
    pedal_down: bool,
    command: Command,
    detune: Detune,
    retuned: Retune,
    after: Voice,
)
    requires
        voice.becomes(pedal_down, command, detune, retuned, after),
    ensures
        has_same_lines(voice.strings, after.strings),
        after.strings matches Some(group) ==> forall|i: int|
            0 <= i < group.count() && voice.strings->0.at(i) is Some ==> {
                &&& has_same_frame(voice.strings->0.at(i)->0, (#[trigger] group.at(i))->0)
                &&& !moves_filters(command, i) ==> has_same_filters(
                    voice.strings->0.at(i)->0,
                    group.at(i)->0,
                )
            },
{
    lemma_lines_stay(voice, pedal_down, command, detune, retuned, after);
    if engine::tunes(command) is Some && voice.strings is Some {
        let chosen = engine::tunes(command)->0;
        let settled = choose|settled: Voice|
            {
                &&& #[trigger] voice.settles(pedal_down, command, detune, settled)
                &&& after == Voice { strings: after.strings, ..settled }
                &&& after.strings matches Some(group) && unison::is_tuned(
                    settled.strings->0,
                    chosen,
                    retuned,
                    group,
                )
            };
        let one = voice.strings->0;
        let two = settled.strings->0;
        let three = after.strings->0;
        assert(has_same_frame(one.first, two.first) && has_same_frame(two.first, three.first));
        assert forall|i: int| 0 <= i < three.count() && one.at(i) is Some implies {
            &&& has_same_frame(one.at(i)->0, (#[trigger] three.at(i))->0)
            &&& !moves_filters(command, i) ==> has_same_filters(one.at(i)->0, three.at(i)->0)
        } by {
            assert(has_same_frame(one.at(i)->0, two.at(i)->0));
            assert(has_same_filters(two.at(i)->0, three.at(i)->0));
        }
    }
}

/// A path that follows a string is that of the string.
proof fn lemma_following_agrees<S, Bend: Fn(Binary32) -> Binary32>(
    before: PluckedString,
    after: PluckedString,
    bend: Bend,
    path: PathState<S>,
    path_after: PathState<S>,
)
    requires
        waveguide::is_path_of(before, bend, path),
        has_same_frame(before, after),
        waveguide::is_following(path, after, bend, path_after),
    ensures
        waveguide::is_path_of(after, bend, path_after),
{
}

/// A path tuned like that of a string is that of a string which asks for the same.
pub(crate) proof fn lemma_tuned_agrees<S, Bend: Fn(Binary32) -> Binary32>(
    before: PluckedString,
    after: PluckedString,
    bend: Bend,
    path: PathState<S>,
    path_after: PathState<S>,
)
    requires
        waveguide::is_path_of(before, bend, path),
        has_same_filters(before, after),
        waveguide::is_tuned_like(path, path_after),
    ensures
        waveguide::is_path_of(after, bend, path_after),
{
    let coefficient = choose|coefficient: Binary32|
        {
            &&& #[trigger] crate::dispersion::is_coefficient(
                before.inharmonicity,
                bend,
                coefficient,
            )
            &&& forall|i: int|
                0 <= i < path.sections.len() ==> (#[trigger] path.sections[i]).coefficient
                    == coefficient
        };
    assert(crate::dispersion::is_coefficient(after.inharmonicity, bend, coefficient));
}

} // verus!
