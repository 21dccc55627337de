//! What the interactive runtime remembers of the shell between two turns of
//! its loop: the last state seen, and whether it changed since the prompt
//! was last considered.
use vstd::prelude::*;
use crate::config::Config;
use crate::shell::proc::ShellState;
use crate::translator::Language;

verus! {

/// One look at the shell's state at the start of a turn, from the last state
/// seen and whether it changed: whether the prompt is printed (the state
/// changed and the shell is idle), the last state seen, and the change
/// flag, which is then cleared.
pub open spec fn prompt_step(last: ShellState, changed: bool, current: ShellState) -> (bool, ShellState, bool) {
    ((changed || current != last) && current == ShellState::Idle, current, false)
}

/// The prompt is printed once for each time the shell becomes idle: looking
/// again at the same state does not print it again.
pub proof fn law_prompt_printed_once(last: ShellState, changed: bool, current: ShellState)
    ensures
        ({
            let (_, last2, changed2) = prompt_step(last, changed, current);
            !prompt_step(last2, changed2, current).0
        }),
{
}

/// The configuration and language of the runtime, the last shell state it
/// has seen, and whether that state has changed since the change was last
/// handled.
pub struct RuntimeProps {
    pub config: Config,
    pub language: Language,
    pub last_state: ShellState,
    pub state_changed: bool,
}

impl RuntimeProps {
    /// Nothing seen yet: the state is unknown and counts as changed, so that
    /// the first idle state prints the prompt.
    pub fn new(config: Config, language: Language) -> (p: RuntimeProps)
        ensures
            p.config == config,
            p.language == language,
            p.last_state == ShellState::Unknown,
            p.state_changed,
    {
        RuntimeProps { config, language, last_state: ShellState::Unknown, state_changed: true }
    }

    /// The last state seen.
    pub fn get_last_state(&self) -> (s: ShellState)
        ensures
            s == self.last_state,
    {
        self.last_state
    }

    /// Whether the state changed since the change was last handled.
    pub fn get_state_changed(&self) -> (b: bool)
        ensures
            b == self.state_changed,
    {
        self.state_changed
    }

    /// A new state has been seen.
    pub fn update_state(&mut self, new_state: ShellState)
        ensures
            final(self).config == old(self).config,
            final(self).language == old(self).language,
            final(self).last_state == new_state,
            final(self).state_changed,
    {
        self.last_state = new_state;
        self.state_changed = true;
    }

    /// The change of state has been handled.
    pub fn report_state_changed_notified(&mut self)
        ensures
            final(self).config == old(self).config,
            final(self).language == old(self).language,
            final(self).last_state == old(self).last_state,
            !final(self).state_changed,
    {
        self.state_changed = false;
    }

    /// Records the current state of the shell, as a change where it differs
    /// from the last one seen.
    pub fn track_state(&mut self, current: ShellState)
        ensures
            final(self).config == old(self).config,
            final(self).language == old(self).language,
            final(self).last_state == current,
            final(self).state_changed == (old(self).state_changed || current != old(self).last_state),
    {
        if current != self.last_state {
            self.update_state(current);
        }
    }

    /// Looks at the current state at the start of a turn: whether the prompt
    /// is printed now, which is when the state changed and the shell is idle.
    /// Either way the change is then handled.
    pub fn prompt_due(&mut self, current: ShellState) -> (print: bool)
        ensures
            (print, final(self).last_state, final(self).state_changed)
                == prompt_step(old(self).last_state, old(self).state_changed, current),
            final(self).config == old(self).config,
            final(self).language == old(self).language,
    {
        self.track_state(current);
        let print = self.state_changed && current == ShellState::Idle;
        self.report_state_changed_notified();
        print
    }
}

/// Whether the prompt is printed at each look, for the states seen at the
/// start of each turn, from the last state seen and the change flag.
pub open spec fn prompt_run(states: Seq<ShellState>, last: ShellState, changed: bool) -> Seq<bool>
    decreases states.len(),
{
    if states.len() == 0 {
        Seq::empty()
    } else {
        let (print, last2, changed2) = prompt_step(last, changed, states[0]);
        seq![print] + prompt_run(states.skip(1), last2, changed2)
    }
}

proof fn lemma_prompt_run(states: Seq<ShellState>, last: ShellState, changed: bool)
    ensures
        prompt_run(states, last, changed).len() == states.len(),
        forall|k: int| 0 <= k < states.len() ==> #[trigger] prompt_run(states, last, changed)[k] == (
            states[k] == ShellState::Idle && if k == 0 {
                changed || states[0] != last
            } else {
                states[k] != states[k - 1]
            }
        ),
    decreases states.len(),
{
    if states.len() > 0 {
        let rest = states.skip(1);
        lemma_prompt_run(rest, states[0], false);
        assert forall|k: int| 0 <= k < states.len() implies #[trigger] prompt_run(states, last, changed)[k] == (
            states[k] == ShellState::Idle && if k == 0 {
                changed || states[0] != last
            } else {
                states[k] != states[k - 1]
            }
        ) by {
            if k > 0 {
                assert(prompt_run(states, last, changed)[k] == prompt_run(rest, states[0], false)[k - 1]);
                assert(rest[k - 1] == states[k]);
                if k > 1 {
                    assert(rest[k - 2] == states[k - 1]);
                }
            }
        }
    }
}

/// Over the turns of the interactive loop, starting as `RuntimeProps::new`
/// does, the prompt is printed at a turn exactly when the shell is idle then
/// and was not idle at the turn before (at the first turn: when it is idle).
pub proof fn law_prompt_printed_when_shell_becomes_idle(states: Seq<ShellState>)
    ensures
        prompt_run(states, ShellState::Unknown, true).len() == states.len(),
        forall|k: int| 0 <= k < states.len() ==> #[trigger] prompt_run(states, ShellState::Unknown, true)[k] == (
            states[k] == ShellState::Idle && (k == 0 || states[k - 1] != ShellState::Idle)
        ),
{
    lemma_prompt_run(states, ShellState::Unknown, true);
}

} // verus!
