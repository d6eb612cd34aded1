//! Running without the devices: which of them are simulated, and the simulated buzzer.
use vstd::prelude::*;

use crate::buzzer::BuzzerState;

verus! {

/// Which devices are simulated.
#[derive(Clone, Copy, Debug, PartialEq, Eq)]
pub struct DemoOptions {
    pub buzzer: bool,
    pub sensor: bool,
}

/// The command line has this argument.
pub open spec fn has_arg(args: Seq<String>, wanted: Seq<char>) -> bool {
    exists|i: int| 0 <= i < args.len() && (#[trigger] args[i])@ == wanted
}

fn find_arg(args: &Vec<String>, wanted: &str) -> (found: bool)
    ensures
        found == has_arg(args@, wanted@),
{
    let wanted_arg = wanted.to_owned();
    let mut i: usize = 0;
    while i < args.len()
        invariant
            i <= args@.len(),
            wanted_arg@ == wanted@,
            forall|k: int| 0 <= k < i ==> (#[trigger] args@[k])@ != wanted@,
        decreases args@.len() - i,
    {
        if args[i] == wanted_arg {
            assert(args@[i as int]@ == wanted@);
            return true;
        }
        i = i + 1;
    }
    false
}

/// Reads from the command line which devices are simulated: `--demo` stands for both of them,
/// `--demo-buzzer` and `--demo-sensor` for one.
pub fn demo_options(args: &Vec<String>) -> (options: DemoOptions)
    ensures
        options.buzzer == (has_arg(args@, "--demo"@) || has_arg(args@, "--demo-buzzer"@)),
        options.sensor == (has_arg(args@, "--demo"@) || has_arg(args@, "--demo-sensor"@)),
        options.buzzer <==> exists|i: int|
            0 <= i < args@.len() && ((#[trigger] args@[i])@ == "--demo"@ || args@[i]@
                == "--demo-buzzer"@),
        options.sensor <==> exists|i: int|
            0 <= i < args@.len() && ((#[trigger] args@[i])@ == "--demo"@ || args@[i]@
                == "--demo-sensor"@),
{
    let demo_mode = find_arg(args, "--demo");
    let buzzer = demo_mode || find_arg(args, "--demo-buzzer");
    let sensor = demo_mode || find_arg(args, "--demo-sensor");
    DemoOptions { buzzer, sensor }
}

/// The time from one press of the simulated buzzer to the next, and from the start to the first.
pub const DEMO_PERIOD_MS: u64 = 5000;

/// How long the simulated buzzer is held down.
pub const DEMO_HOLD_MS: u64 = 200;

/// How long the simulated buzzer is left alone between a release and the next press.
pub const DEMO_IDLE_MS: u64 = DEMO_PERIOD_MS - DEMO_HOLD_MS;

/// What the simulated buzzer is about to do.
#[derive(Clone, Copy, Debug, PartialEq, Eq, Structural)]
pub enum DemoPhase {
    /// Wait for the first press.
    Start,
    /// Press.
    Press,
    /// Hold down.
    Hold,
    /// Release.
    Release,
    /// Wait for the next press.
    Idle,
}

/// What the simulated buzzer does.
#[derive(Clone, Copy, Debug, PartialEq, Eq, Structural)]
pub enum DemoAction {
    /// Pause for so many milliseconds.
    Sleep(u64),
    /// Report this state.
    Send(BuzzerState),
}

/// The simulated buzzer.
#[derive(Debug, PartialEq, Eq)]
pub struct DemoBuzzer {
    pub phase: DemoPhase,
}

impl DemoPhase {
    /// What is done in a phase.
    pub open spec fn action(self) -> DemoAction {
        match self {
            DemoPhase::Start => DemoAction::Sleep(DEMO_PERIOD_MS),
            DemoPhase::Press => DemoAction::Send(BuzzerState::Pressed),
            DemoPhase::Hold => DemoAction::Sleep(DEMO_HOLD_MS),
            DemoPhase::Release => DemoAction::Send(BuzzerState::Released),
            DemoPhase::Idle => DemoAction::Sleep(DEMO_IDLE_MS),
        }
    }

    /// The phase that follows.
    pub open spec fn following(self) -> DemoPhase {
        match self {
            DemoPhase::Start => DemoPhase::Press,
            DemoPhase::Press => DemoPhase::Hold,
            DemoPhase::Hold => DemoPhase::Release,
            DemoPhase::Release => DemoPhase::Idle,
            DemoPhase::Idle => DemoPhase::Press,
        }
    }
}

impl DemoBuzzer {
    /// The simulation starts with a pause.
    pub fn new() -> (demo: DemoBuzzer)
        ensures
            demo.phase == DemoPhase::Start,
    {
        DemoBuzzer { phase: DemoPhase::Start }
    }

    /// Gives what is to be done now, and moves on to the phase that follows.
    pub fn step(&mut self) -> (action: DemoAction)
        ensures
            action == old(self).phase.action(),
            final(self).phase == old(self).phase.following(),
            match old(self).phase {
                DemoPhase::Start => action == DemoAction::Sleep(5000) && final(self).phase is Press,
                DemoPhase::Press => action == DemoAction::Send(BuzzerState::Pressed)
                    && final(self).phase is Hold,
                DemoPhase::Hold => action == DemoAction::Sleep(200) && final(self).phase is Release,
                DemoPhase::Release => action == DemoAction::Send(BuzzerState::Released)
                    && final(self).phase is Idle,
                DemoPhase::Idle => action == DemoAction::Sleep(4800) && final(self).phase is Press,
            },
    {
        match self.phase {
            DemoPhase::Start => {
                self.phase = DemoPhase::Press;
                DemoAction::Sleep(DEMO_PERIOD_MS)
            },
            DemoPhase::Press => {
                self.phase = DemoPhase::Hold;
                DemoAction::Send(BuzzerState::Pressed)
            },
            DemoPhase::Hold => {
                self.phase = DemoPhase::Release;
                DemoAction::Sleep(DEMO_HOLD_MS)
            },
            DemoPhase::Release => {
                self.phase = DemoPhase::Idle;
                DemoAction::Send(BuzzerState::Released)
            },
            DemoPhase::Idle => {
                self.phase = DemoPhase::Press;
                DemoAction::Sleep(DEMO_IDLE_MS)
            },
        }
    }
}

/// The phase of the simulation after so many steps.
pub open spec fn phase_after(steps: nat) -> DemoPhase
    decreases steps,
{
    if steps == 0 {
        DemoPhase::Start
    } else {
        phase_after((steps - 1) as nat).following()
    }
}

/// The time that has passed in the simulation after so many steps.
pub open spec fn millis_after(steps: nat) -> nat
    decreases steps,
{
    if steps == 0 {
        0
    } else {
        let before = (steps - 1) as nat;
        match phase_after(before).action() {
            DemoAction::Sleep(millis) => millis_after(before) + millis as nat,
            DemoAction::Send(_) => millis_after(before),
        }
    }
}

/// The simulated buzzer is pressed once every five seconds, the first time five seconds after the
/// start, and is released 200 milliseconds after each press. Between a release and the next press
/// there is nothing but a pause.
pub proof fn demo_repeats(round: nat)
    ensures
        phase_after(4 * round + 1).action() == DemoAction::Send(BuzzerState::Pressed),
        phase_after(4 * round + 2).action() == DemoAction::Sleep(200),
        phase_after(4 * round + 3).action() == DemoAction::Send(BuzzerState::Released),
        phase_after(4 * round + 4).action() == DemoAction::Sleep(4800),
        millis_after(4 * round + 1) == 5000 * (round + 1),
        millis_after(4 * round + 3) == 5000 * (round + 1) + 200,
    decreases round,
{
    reveal_with_fuel(phase_after, 6);
    reveal_with_fuel(millis_after, 6);
    if round > 0 {
        demo_repeats((round - 1) as nat);
    }
}

/// More arguments never make a device real again, and their order makes no difference: a device is
/// simulated by a command line just where it is by one of the two parts.
pub proof fn arguments_add_up(first: Seq<String>, second: Seq<String>, wanted: Seq<char>)
    ensures
        has_arg(first + second, wanted) <==> has_arg(first, wanted) || has_arg(second, wanted),
{
    if has_arg(first + second, wanted) {
        let i = choose|i: int|
            0 <= i < (first + second).len() && (#[trigger] (first + second)[i])@ == wanted;
        if i < first.len() {
            assert(first[i]@ == wanted);
        } else {
            assert(second[i - first.len()]@ == wanted);
        }
    }
    if has_arg(first, wanted) {
        let i = choose|i: int| 0 <= i < first.len() && (#[trigger] first[i])@ == wanted;
        assert((first + second)[i]@ == wanted);
    }
    if has_arg(second, wanted) {
        let i = choose|i: int| 0 <= i < second.len() && (#[trigger] second[i])@ == wanted;
        assert((first + second)[first.len() + i]@ == wanted);
    }
}

/// A command line of one argument asks for what it says, and one without arguments for nothing.
pub proof fn argument_is_itself(arg: String, wanted: Seq<char>)
    ensures
        has_arg(seq![arg], wanted) <==> arg@ == wanted,
        !has_arg(Seq::empty(), wanted),
{
    if arg@ == wanted {
        assert(seq![arg][0]@ == wanted);
    }
}

} // verus!
