//! Decision-state labels of the brains.
use vstd::prelude::*;
use crate::brain::combat::CombatDriver;

verus! {

/// Tunables that select a brain flavor without changing the decision code.
#[derive(Debug, Clone, Copy, PartialEq, Eq, Structural)]
pub struct BrainConfig {
    /// When false, combat is never evaluated: the bot only navigates.
    pub combat_enabled: bool,
}

impl Default for BrainConfig {
    /// The live fleet bot: combat on.
    fn default() -> (r: Self)
        ensures
            r.combat_enabled,
    {
        BrainConfig { combat_enabled: true }
    }
}

/// The personality a brain is built with.
#[derive(Debug, Clone, Copy, PartialEq, Eq, Structural, Default)]
pub struct BotSkill {}

/// A stationary, combat-only brain: it fires at any enemy in sight and never moves.
#[derive(Debug)]
pub struct SentryBrain {
    pub combat: CombatDriver,
    pub skill: BotSkill,
}

impl SentryBrain {
    pub fn new(skill: BotSkill) -> (r: Self)
        ensures
            r.combat.is_fresh(),
            r.skill == skill,
    {
        SentryBrain { combat: CombatDriver::new(), skill }
    }

    /// Status label for periodic logging.
    pub fn status(&self) -> (r: &'static str)
        ensures
            r@ == "sentry"@,
    {
        "sentry"
    }
}

/// The Quake 3 deathmatch decision nodes.
#[derive(Copy, Clone, Debug, PartialEq, Eq, Structural)]
pub enum Q3Node {
    SeekLtg,
    SeekNbg,
    BattleFight,
    BattleChase,
    BattleRetreat,
    BattleNbg,
}

pub open spec fn spec_q3_label(n: Q3Node) -> Seq<char> {
    match n {
        Q3Node::SeekLtg => "seek-ltg"@,
        Q3Node::SeekNbg => "seek-nbg"@,
        Q3Node::BattleFight => "fight"@,
        Q3Node::BattleChase => "chase"@,
        Q3Node::BattleRetreat => "retreat"@,
        Q3Node::BattleNbg => "battle-nbg"@,
    }
}

impl Q3Node {
    /// Short label for status and logging.
    pub fn label(self) -> (r: &'static str)
        ensures
            r@ == spec_q3_label(self),
    {
        match self {
            Q3Node::SeekLtg => "seek-ltg",
            Q3Node::SeekNbg => "seek-nbg",
            Q3Node::BattleFight => "fight",
            Q3Node::BattleChase => "chase",
            Q3Node::BattleRetreat => "retreat",
            Q3Node::BattleNbg => "battle-nbg",
        }
    }
}

/// What the currently committed goal is.
#[derive(Copy, Clone, Debug, PartialEq, Eq, Structural)]
pub enum GoalKey {
    /// Index into the map's item table.
    Item(usize),
    /// Enemy entity number.
    Enemy(i32),
    /// Roam node index.
    Wander(usize),
}

/// The recovery a stuck bot takes.
#[derive(Copy, Clone, Debug, PartialEq, Eq, Structural)]
pub enum StuckAction {
    Jump,
    BackOff,
    Repath,
    /// No recovery needed.
    NoAction,
}

} // verus!
