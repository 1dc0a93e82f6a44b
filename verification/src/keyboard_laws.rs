//! What holds of the instrument whatever is played on it.
use crate::binary32::Binary32;
use crate::commands::Command;
use crate::engine;
use crate::engine::{Action, EngineState, Voice};
use crate::params;
use crate::params::KEY_COUNT;
use crate::string::PluckedString;
use crate::unison;
use crate::unison::UnisonGroup;
use vstd::prelude::*;

verus! {

/// Every string of a group has its damper down.
pub open spec fn damped(group: UnisonGroup) -> bool {
    !group.receptive()
}

/// Every string of a group has its damper up.
pub open spec fn open(group: UnisonGroup) -> bool {
    &&& !group.first.damper_engaged
    &&& group.second matches Some(second) ==> !second.damper_engaged
    &&& group.third matches Some(third) ==> !third.damper_engaged
}

/// The dampers of a voice follow its key and the pedal: up under a finger, down
/// when neither finger nor pedal holds them; and only the pedal holds a release
/// back.
pub open spec fn follows_the_keys(voice: Voice, pedal_down: bool) -> bool {
    &&& voice.pending_pedal_release ==> pedal_down && !voice.held
    &&& voice.strings matches Some(strings) ==> {
        &&& voice.held ==> open(strings)
        &&& !voice.held && !pedal_down ==> damped(strings)
    }
}

/// Every voice follows its key and the pedal.
pub open spec fn all_follow_the_keys(state: EngineState) -> bool {
    forall|i: int|
        0 <= i < state.voices.len() ==> follows_the_keys(
            #[trigger] state.voices[i],
            state.pedal_down,
        )
}

/// Retuning the loops of a group moves no damper.
proof fn lemma_tuning_moves_no_damper<R: Fn(PluckedString) -> Binary32>(
    group: UnisonGroup,
    chosen: Option<int>,
    retuned: R,
    after: UnisonGroup,
)
    requires
        unison::is_tuned(group, chosen, retuned, after),
    ensures
        open(group) <==> open(after),
        damped(group) <==> damped(after),
{
    assert(after.first.damper_engaged == group.first.damper_engaged);
}

/// Whatever command comes, the dampers go on following keys and pedal.
pub proof fn dampers_follow_the_keys<
    D: Fn(Binary32, Binary32) -> Binary32,
    R: Fn(PluckedString) -> Binary32,
>(state: EngineState, command: Command, detune: D, retuned: R, after: EngineState)
    requires
        all_follow_the_keys(state),
        state.becomes(command, detune, retuned, after),
    ensures
        all_follow_the_keys(after),
{
    assert forall|i: int| 0 <= i < after.voices.len() implies follows_the_keys(
        #[trigger] after.voices[i],
        after.pedal_down,
    ) by {
        let voice = state.voices[i];
        assert(follows_the_keys(voice, state.pedal_down));
        if engine::reaches(command, i) && engine::tunes(command) is Some && voice.strings is Some {
            let chosen = engine::tunes(command)->0;
            let settled = choose|settled: Voice|
                {
                    &&& #[trigger] voice.settles(state.pedal_down, command, detune, settled)
                    &&& after.voices[i] == Voice { strings: after.voices[i].strings, ..settled }
                    &&& after.voices[i].strings matches Some(group) && unison::is_tuned(
                        settled.strings->0,
                        chosen,
                        retuned,
                        group,
                    )
                };
            assert(follows_the_keys(settled, after.pedal_down));
            lemma_tuning_moves_no_damper(
                settled.strings->0,
                chosen,
                retuned,
                after.voices[i].strings->0,
            );
        }
    }
}

/// Nothing played on a fresh instrument, in any order, makes a damper stop
/// following keys and pedal.
pub proof fn dampers_always_follow_the_keys<
    D: Fn(Binary32, Binary32) -> Binary32,
    R: Fn(PluckedString) -> Binary32,
>(
    groups: Seq<Option<UnisonGroup>>,
    commands: Seq<Command>,
    detune: D,
    retuned: R,
    after: EngineState,
)
    requires
        forall|i: int|
            0 <= i < groups.len() && (#[trigger] groups[i]) is Some ==> damped(groups[i]->0),
        engine::fresh(groups).becomes_all(commands, detune, retuned, after),
    ensures
        all_follow_the_keys(after),
    decreases commands.len(),
{
    let fresh = engine::fresh(groups);
    if commands.len() == 0 {
        assert forall|i: int| 0 <= i < after.voices.len() implies follows_the_keys(
            #[trigger] after.voices[i],
            after.pedal_down,
        ) by {
            assert(after.voices[i].strings == groups[i]);
        }
    } else {
        let reached = choose|reached: EngineState|
            {
                &&& fresh.becomes_all(commands.drop_last(), detune, retuned, reached)
                &&& #[trigger] reached.becomes(commands.last(), detune, retuned, after)
            };
        dampers_always_follow_the_keys(groups, commands.drop_last(), detune, retuned, reached);
        dampers_follow_the_keys(reached, commands.last(), detune, retuned, after);
    }
}

/// A command about a note that is not on the keyboard changes nothing and asks
/// for nothing.
pub proof fn unknown_notes_are_ignored<
    D: Fn(Binary32, Binary32) -> Binary32,
    R: Fn(PluckedString) -> Binary32,
>(state: EngineState, command: Command, midi: u8, detune: D, retuned: R, after: EngineState)
    requires
        engine::subject(command) == Some(midi),
        !params::on_keyboard(midi as int),
        state.becomes(command, detune, retuned, after),
    ensures
        after == state,
        state.action(command) == Action::Nothing,
{
    assert(after.voices =~= state.voices);
    assert(after =~= state);
}

/// A command about one key leaves every other key alone.
pub proof fn keys_are_independent<
    D: Fn(Binary32, Binary32) -> Binary32,
    R: Fn(PluckedString) -> Binary32,
>(
    state: EngineState,
    command: Command,
    midi: u8,
    index: int,
    detune: D,
    retuned: R,
    after: EngineState,
)
    requires
        engine::subject(command) == Some(midi),
        0 <= index < state.voices.len(),
        engine::key_of(midi) != Some(index),
        state.becomes(command, detune, retuned, after),
    ensures
        after.voices[index] == state.voices[index],
        after.pedal_down == state.pedal_down,
        after.modes == state.modes,
{
}

/// A key released while the pedal is down rings on unchanged until the pedal
/// comes up; then its dampers go down.
pub proof fn pedal_holds_released_keys(state: EngineState, midi: u8)
    requires
        state.voices.len() == KEY_COUNT,
        state.pedal_down,
        params::on_keyboard(midi as int),
    ensures
        ({
            let key = engine::key_of(midi)->0;
            let released = state.after(Command::NoteOff { midi });
            let lifted = released.after(Command::SustainPedal { down: false });
            &&& released.voices[key].strings == state.voices[key].strings
            &&& released.voices[key].pending_pedal_release
            &&& !lifted.voices[key].pending_pedal_release
            &&& lifted.voices[key] == Voice { held: false, ..state.voices[key] }.pedalled(
                true,
                false,
            )
            &&& lifted.voices[key].strings matches Some(strings) ==> damped(strings)
        }),
{
}

/// A key released while the pedal is up has its dampers down at once.
pub proof fn released_keys_are_damped(state: EngineState, midi: u8)
    requires
        state.voices.len() == KEY_COUNT,
        !state.pedal_down,
        params::on_keyboard(midi as int),
    ensures
        ({
            let key = engine::key_of(midi)->0;
            let released = state.after(Command::NoteOff { midi });
            &&& !released.voices[key].held
            &&& released.voices[key].strings matches Some(strings) ==> damped(strings)
        }),
{
}

/// Striking a key again while the pedal holds it cancels the release: when the
/// pedal comes up the key rings on, held by the finger.
pub proof fn restrike_cancels_the_release(state: EngineState, midi: u8, velocity: Binary32)
    requires
        state.voices.len() == KEY_COUNT,
        state.pedal_down,
        params::on_keyboard(midi as int),
    ensures
        ({
            let key = engine::key_of(midi)->0;
            let struck = state.after(Command::NoteOff { midi }).after(
                Command::NoteOn { midi, velocity },
            );
            let lifted = struck.after(Command::SustainPedal { down: false });
            &&& lifted.voices[key] == struck.voices[key]
            &&& lifted.voices[key].held
            &&& lifted.voices[key].strings matches Some(strings) ==> open(strings)
        }),
{
}

/// Moving the pedal to where it is changes nothing.
pub proof fn pedal_is_idempotent(state: EngineState)
    ensures
        state.after(Command::SustainPedal { down: state.pedal_down }) == state,
{
    assert(state.after(Command::SustainPedal { down: state.pedal_down }) =~= state);
}

/// On an instrument that follows its keys, pressing and lifting the pedal leaves
/// everything as it was.
pub proof fn pedal_undoes_itself(state: EngineState)
    requires
        all_follow_the_keys(state),
        !state.pedal_down,
    ensures
        state.after(Command::SustainPedal { down: true }).after(
            Command::SustainPedal { down: false },
        ) == state,
{
    let down = state.after(Command::SustainPedal { down: true });
    let up = down.after(Command::SustainPedal { down: false });
    assert forall|i: int| 0 <= i < state.voices.len() implies up.voices[i] == #[trigger]
        state.voices[i] by {
        assert(follows_the_keys(state.voices[i], state.pedal_down));
        let voice = state.voices[i];
        if !voice.held && voice.strings is Some {
            lemma_damped_is_released(voice.strings->0);
            crate::unison::damper_settles(voice.strings->0);
        }
    }
    assert(up =~= state);
}

/// Releasing a damped group changes nothing.
proof fn lemma_damped_is_released(group: UnisonGroup)
    requires
        damped(group),
    ensures
        group.each(|s: PluckedString| s.released()) == group,
{
}

/// Silencing the instrument leaves nothing sounding and nothing that could be
/// woken, whatever the pedal does: the renderer can skip every key.
pub proof fn silence_is_complete(state: EngineState, index: int)
    requires
        0 <= index < state.voices.len(),
    ensures
        state.after(Command::AllNotesOff).voices[index].inert(),
        !state.after(Command::AllNotesOff).voices[index].held,
        !state.after(Command::AllNotesOff).voices[index].pending_pedal_release,
{
}

/// A struck key is not skipped, however softly it was struck.
pub proof fn struck_keys_are_rendered(state: EngineState, midi: u8, velocity: Binary32)
    requires
        state.voices.len() == KEY_COUNT,
        params::on_keyboard(midi as int),
        state.voices[engine::key_of(midi)->0].strings is Some,
    ensures
        !state.after(Command::NoteOn { midi, velocity }).voices[engine::key_of(midi)->0].inert(),
{
}

/// Commands carried out one after the other are carried out in any two parts of
/// their sequence.
pub proof fn commands_carry_out_in_parts<
    D: Fn(Binary32, Binary32) -> Binary32,
    R: Fn(PluckedString) -> Binary32,
>(
    state: EngineState,
    first: Seq<Command>,
    second: Seq<Command>,
    detune: D,
    retuned: R,
    between: EngineState,
    after: EngineState,
)
    requires
        state.becomes_all(first, detune, retuned, between),
        between.becomes_all(second, detune, retuned, after),
    ensures
        state.becomes_all(first + second, detune, retuned, after),
    decreases second.len(),
{
    let all = first + second;
    if second.len() == 0 {
        assert(all =~= first);
    } else {
        let reached = choose|reached: EngineState|
            {
                &&& between.becomes_all(second.drop_last(), detune, retuned, reached)
                &&& #[trigger] reached.becomes(second.last(), detune, retuned, after)
            };
        commands_carry_out_in_parts(
            state,
            first,
            second.drop_last(),
            detune,
            retuned,
            between,
            reached,
        );
        assert(all.drop_last() =~= first + second.drop_last());
        assert(reached.becomes(all.last(), detune, retuned, after));
    }
}

} // verus!
