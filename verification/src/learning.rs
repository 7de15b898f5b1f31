//! Actions and policies of the learning engine.

use vstd::prelude::*;

verus! {

/// What the agent can do.
#[derive(Debug, Clone, Copy, PartialEq, Eq, Structural)]
pub enum Action {
    Noop,
    Explore,
    Exploit,
    UnlockDoor,
    PickUpKey,
    MoveForward,
}

/// How one thing is taken to cause another.
#[derive(Debug, Clone, Copy, PartialEq, Eq, Structural)]
pub enum CausalEdgeType {
    Direct,
    Indirect,
    Conditional,
    Inhibitory,
}

impl Action {
    /// The name of the action.
    pub open spec fn name(self) -> Seq<char> {
        match self {
            Action::Noop => "noop"@,
            Action::Explore => "explore"@,
            Action::Exploit => "exploit"@,
            Action::UnlockDoor => "unlock_door"@,
            Action::PickUpKey => "pick_up_key"@,
            Action::MoveForward => "move_forward"@,
        }
    }

    /// Every action, in declaration order.
    pub open spec fn all() -> Seq<Action> {
        seq![
            Action::Noop,
            Action::Explore,
            Action::Exploit,
            Action::UnlockDoor,
            Action::PickUpKey,
            Action::MoveForward,
        ]
    }

    /// Convert action to string for Q-value estimation
    pub fn as_str(&self) -> (name: &'static str)
        ensures
            name@ == self.name(),
    {
        match self {
            Action::Noop => "noop",
            Action::Explore => "explore",
            Action::Exploit => "exploit",
            Action::UnlockDoor => "unlock_door",
            Action::PickUpKey => "pick_up_key",
            Action::MoveForward => "move_forward",
        }
    }

    /// Get all available actions
    pub fn all_actions() -> (actions: Vec<Action>)
        ensures
            actions@ == Action::all(),
    {
        let mut actions = Vec::new();
        actions.push(Action::Noop);
        actions.push(Action::Explore);
        actions.push(Action::Exploit);
        actions.push(Action::UnlockDoor);
        actions.push(Action::PickUpKey);
        actions.push(Action::MoveForward);
        assert(actions@ =~= Action::all());
        actions
    }

    /// The action with the given name; `Noop` where no action has it.
    pub open spec fn named(name: Seq<char>) -> Action {
        if name == "explore"@ {
            Action::Explore
        } else if name == "exploit"@ {
            Action::Exploit
        } else if name == "unlock_door"@ {
            Action::UnlockDoor
        } else if name == "pick_up_key"@ {
            Action::PickUpKey
        } else if name == "move_forward"@ {
            Action::MoveForward
        } else {
            Action::Noop
        }
    }
}

/// The policy that explores whenever it is given any exploration budget.
#[derive(Debug, Clone, Copy)]
pub struct EpsilonGreedyPolicy;

impl Default for EpsilonGreedyPolicy {
    fn default() -> Self {
        EpsilonGreedyPolicy
    }
}

impl EpsilonGreedyPolicy {
    /// The action for a state: explore where exploring is wanted at all,
    /// else exploit.
    pub fn select_action(&self, wants_exploring: bool) -> (action: Action)
        ensures
            action == if wants_exploring {
                Action::Explore
            } else {
                Action::Exploit
            },
    {
        if wants_exploring {
            Action::Explore
        } else {
            Action::Exploit
        }
    }
}

/// The estimator that has learnt nothing yet.
#[derive(Debug, Clone, Copy)]
pub struct MeanRewardEstimator;

impl Default for MeanRewardEstimator {
    fn default() -> Self {
        MeanRewardEstimator
    }
}

} // verus!
