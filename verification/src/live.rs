//! A script as the steps of a live player: what to sound and how long to
//! wait, one step for each instruction, in the order of the script.

use crate::code::Instruction;
use crate::code::MorseError;
use crate::sequencer::is_text;
use crate::sequencer::lemma_script_has_no_word_space;
use crate::sequencer::letters;
use crate::sequencer::names_first_invalid;
use crate::sequencer::parse_morse_code;
use crate::sequencer::script;
use crate::timing::millis;
use crate::timing::playable;
use crate::timing::script_millis;
use crate::timing::units;
use crate::timing::RenderConfig;
use vstd::prelude::*;

verus! {

/// One step of a live player. It ends before the next one begins.
#[derive(Clone, Copy, Debug, PartialEq, Eq, Structural)]
pub enum Action {
    /// Sound the tone for so many milliseconds, and wait until it has ended.
    Play { millis: u64 },
    /// Stay silent for so many milliseconds.
    Sleep { millis: u64 },
}

/// The step that performs `instruction`: a tone is played and a pause is
/// slept, each for the length of the instruction.
pub open spec fn action_of(instruction: Instruction, config: RenderConfig) -> Action {
    match instruction {
        Instruction::Morse(_) => Action::Play { millis: millis(instruction, config) as u64 },
        _ => Action::Sleep { millis: millis(instruction, config) as u64 },
    }
}

/// How long a step lasts, in milliseconds.
pub open spec fn action_millis(action: Action) -> nat {
    match action {
        Action::Play { millis } => millis as nat,
        Action::Sleep { millis } => millis as nat,
    }
}

/// How long a row of steps lasts, from the first to the end of the last.
pub open spec fn plan_millis(plan: Seq<Action>) -> nat
    decreases plan.len(),
{
    if plan.len() == 0 {
        0
    } else {
        plan_millis(plan.drop_last()) + action_millis(plan.last())
    }
}

/// The steps of a script: one for each instruction, in order.
pub open spec fn plan_of(instructions: Seq<Instruction>, config: RenderConfig) -> Seq<Action> {
    Seq::new(instructions.len(), |i: int| action_of(instructions[i], config))
}

/// A plan lasts as long as its script.
pub proof fn lemma_plan_millis(instructions: Seq<Instruction>, config: RenderConfig)
    requires
        playable(instructions),
    ensures
        plan_millis(plan_of(instructions, config)) == script_millis(instructions, config),
    decreases instructions.len(),
{
    let plan = plan_of(instructions, config);
    let unit = config.unit_millis as nat;
    if instructions.len() == 0 {
        assert(plan.len() == 0);
    } else {
        let shorter = instructions.drop_last();
        let last = instructions.last();
        assert(last != Instruction::WordSpace);
        lemma_plan_millis(shorter, config);
        assert(plan.drop_last() == plan_of(shorter, config));
        assert(plan.last() == action_of(last, config));
        let n = units(last);
        assert(n * unit <= u64::MAX) by (nonlinear_arith)
            requires
                n <= 3,
                unit <= u32::MAX,
        ;
        assert(action_millis(plan.last()) == millis(last, config));
    }
}

/// The step that performs one instruction.
pub fn action_for(instruction: Instruction, config: &RenderConfig) -> (action: Action)
    requires
        instruction != Instruction::WordSpace,
    ensures
        action == action_of(instruction, *config),
{
    let length: u64 = config.millis(instruction);
    match instruction {
        Instruction::Morse(_) => Action::Play { millis: length },
        _ => Action::Sleep { millis: length },
    }
}

/// Lays a script out for a live player.
///
/// The plan holds one step for each instruction, in the order of the
/// script: a tone of one unit for a dot and of three for a dash, a silence
/// of one unit for a symbol space and of three for a letter space.
pub fn live_actions(instructions: &Vec<Instruction>, config: &RenderConfig) -> (plan: Vec<Action>)
    requires
        playable(instructions@),
    ensures
        plan@ == plan_of(instructions@, *config),
{
    let mut plan: Vec<Action> = Vec::new();
    let mut i: usize = 0;
    while i < instructions.len()
        invariant
            i <= instructions.len(),
            playable(instructions@),
            plan@ == plan_of(instructions@.take(i as int), *config),
        decreases instructions.len() - i,
    {
        plan.push(action_for(instructions[i], config));
        i = i + 1;
        assert(plan@ == plan_of(instructions@.take(i as int), *config));
    }
    proof {
        assert(instructions@.take(i as int) == instructions@);
    }
    plan
}

/// Reads a text and lays its script out for a live player. A text that
/// holds an unknown character gives no plan, not even of what stands before
/// that character.
pub fn plan_text(code: &str, config: &RenderConfig) -> (r: Result<Vec<Action>, MorseError>)
    ensures
        r is Ok <==> is_text(code@),
        match r {
            Ok(plan) => plan@ == plan_of(script(letters(code@)), *config),
            Err(e) => names_first_invalid(code@, e),
        },
{
    match parse_morse_code(code) {
        Ok(instructions) => {
            proof {
                lemma_script_has_no_word_space(letters(code@));
            }
            Ok(live_actions(&instructions, config))
        },
        Err(e) => Err(e),
    }
}

} // verus!
