//! Combat state a bot keeps between frames: its target cache and the weapon it believes it
//! holds.
use vstd::prelude::*;

verus! {

/// The Quake II weapons.
#[derive(Copy, Clone, Debug, PartialEq, Eq, Structural)]
pub enum Weapon {
    Blaster,
    Shotgun,
    SuperShotgun,
    Machinegun,
    Chaingun,
    GrenadeLauncher,
    RocketLauncher,
    Hyperblaster,
    Railgun,
    Bfg10k,
}

/// A requested weapon switch (`use <name>`).
#[derive(Copy, Clone, Debug, PartialEq, Eq, Structural)]
pub struct WeaponRequest(pub Weapon);

/// Frames to hold on a target before considering a switch.
pub const TARGET_LOCK_FRAMES: u32 = 5;

/// Frames to keep firing at a target after line of sight drops.
pub const SIGHT_GRACE_FRAMES: u32 = 2;

/// Combat driver state.
#[derive(Debug)]
pub struct CombatDriver {
    pub current_target: Option<i32>,
    pub lock_frames_remaining: u32,
    pub frames_since_shot: u32,
    /// Frames since the current target was acquired (the reaction delay).
    pub sight_frames: u32,
    /// Frames since a weapon switch was requested (the attack lockout).
    pub frames_since_switch: u32,
    /// The weapon the bot believes it holds: set when a switch is requested, back to the
    /// Blaster on respawn.
    pub held_weapon: Weapon,
    /// Frames of line-of-sight grace left on the current target.
    pub sight_grace_remaining: u32,
}

impl CombatDriver {
    /// The state of a fresh driver: no target, no lock, a shot long ago, no switch pending,
    /// holding the Blaster.
    pub open spec fn is_fresh(&self) -> bool {
        &&& self.current_target is None
        &&& self.lock_frames_remaining == 0
        &&& self.frames_since_shot == 10
        &&& self.sight_frames == 0
        &&& self.frames_since_switch == u32::MAX
        &&& self.held_weapon == Weapon::Blaster
        &&& self.sight_grace_remaining == 0
    }

    pub fn new() -> (r: Self)
        ensures
            r.is_fresh(),
    {
        CombatDriver {
            current_target: None,
            lock_frames_remaining: 0,
            frames_since_shot: 10,
            sight_frames: 0,
            frames_since_switch: u32::MAX,
            held_weapon: Weapon::Blaster,
            sight_grace_remaining: 0,
        }
    }

    /// The weapon the bot believes it holds.
    pub fn held_weapon(&self) -> (r: Weapon)
        ensures
            r == self.held_weapon,
    {
        self.held_weapon
    }

    /// Back to the spawn loadout after a respawn.
    pub fn on_respawn(&mut self)
        ensures
            final(self).held_weapon == Weapon::Blaster,
            final(self).current_target == old(self).current_target,
            final(self).lock_frames_remaining == old(self).lock_frames_remaining,
            final(self).frames_since_shot == old(self).frames_since_shot,
            final(self).sight_frames == old(self).sight_frames,
            final(self).frames_since_switch == old(self).frames_since_switch,
            final(self).sight_grace_remaining == old(self).sight_grace_remaining,
    {
        self.held_weapon = Weapon::Blaster;
    }

    /// The entity currently targeted.
    pub fn target_entity(&self) -> (r: Option<i32>)
        ensures
            r == self.current_target,
    {
        self.current_target
    }

    /// Drops the current target and its lock; the next frame selects afresh.
    pub fn clear_target(&mut self)
        ensures
            final(self).current_target is None,
            final(self).lock_frames_remaining == 0,
            final(self).frames_since_shot == old(self).frames_since_shot,
            final(self).sight_frames == old(self).sight_frames,
            final(self).frames_since_switch == old(self).frames_since_switch,
            final(self).held_weapon == old(self).held_weapon,
            final(self).sight_grace_remaining == old(self).sight_grace_remaining,
    {
        self.current_target = None;
        self.lock_frames_remaining = 0;
    }
}

impl Default for CombatDriver {
    fn default() -> (r: Self)
        ensures
            r.is_fresh(),
    {
        Self::new()
    }
}

/// Stateless projectile-danger evaluator.
#[derive(Debug, Clone, Copy, PartialEq, Eq, Structural)]
pub struct DangerDriver;

impl DangerDriver {
    pub fn new() -> (r: Self)
        ensures
            r == DangerDriver,
    {
        DangerDriver
    }
}

impl Default for DangerDriver {
    fn default() -> (r: Self)
        ensures
            r == DangerDriver,
    {
        DangerDriver
    }
}

/// What kind of thing a visible entity is.
#[derive(Copy, Clone, Debug, PartialEq, Eq, Structural)]
pub enum EntityClass {
    EnemyPlayer,
    ItemHealth,
    ItemArmor,
    ItemWeapon,
    ItemPowerup,
    ProjectileRocket,
    ProjectileGrenade,
    Unknown,
}

pub open spec fn spec_is_pickup(class: EntityClass) -> bool {
    class is ItemHealth || class is ItemArmor || class is ItemWeapon || class is ItemPowerup
}

/// A pickup class the bot would seek (no players, projectiles or unknowns).
pub fn is_pickup(class: EntityClass) -> (r: bool)
    ensures
        r == spec_is_pickup(class),
{
    match class {
        EntityClass::ItemHealth | EntityClass::ItemArmor | EntityClass::ItemWeapon
        | EntityClass::ItemPowerup => true,
        _ => false,
    }
}

/// Deterministic LCG behind aim jitter: repeatable per seed.
#[derive(Debug, Clone, Copy, PartialEq, Eq, Structural)]
pub struct JitterRng {
    pub state: u32,
}

/// `seed * 2654435761 + 1`, wrapping: avoids the degenerate zero state.
pub open spec fn jitter_seed_state(seed: u32) -> u32 {
    ((seed as int * 2654435761 + 1) % 0x1_0000_0000) as u32
}

/// One Numerical Recipes LCG step: `state * 1664525 + 1013904223`, wrapping.
pub open spec fn lcg_next(state: u32) -> u32 {
    ((state as int * 1664525 + 1013904223) % 0x1_0000_0000) as u32
}

impl JitterRng {
    /// Seeds from a frame counter and a per-bot id so different bots diverge.
    pub fn new(seed: u32) -> (r: Self)
        ensures
            r.state == jitter_seed_state(seed),
    {
        let m = seed.wrapping_mul(2654435761);
        let s = m.wrapping_add(1);
        assert(s == jitter_seed_state(seed)) by (nonlinear_arith)
            requires
                m == (seed as int * 2654435761) % 0x1_0000_0000,
                s == (m + 1) % 0x1_0000_0000,
        ;
        JitterRng { state: s }
    }

    /// Advances the generator and returns the 24 high bits of the new state (the caller
    /// scales them into `[-1, 1)`).
    pub fn next_bits(&mut self) -> (r: u32)
        ensures
            final(self).state == lcg_next(old(self).state),
            r == final(self).state / 256,
            r < 0x100_0000,
    {
        let m = self.state.wrapping_mul(1664525);
        let s = m.wrapping_add(1013904223);
        let ghost st = self.state;
        assert(s == lcg_next(st)) by (nonlinear_arith)
            requires
                m == (st as int * 1664525) % 0x1_0000_0000,
                s == (m + 1013904223) % 0x1_0000_0000,
        ;
        self.state = s;
        let r = s >> 8;
        assert(r == s / 256) by (bit_vector)
            requires
                r == s >> 8,
        ;
        r
    }
}

} // verus!

verus! {

/// The seed a generator state was made from: the multiplier 2654435761 is odd, so it has
/// an inverse (244002641) modulo 2^32.
proof fn lemma_jitter_seed_recovered(seed: u32)
    ensures
        (((jitter_seed_state(seed) as int - 1) % 0x1_0000_0000) * 244002641) % 0x1_0000_0000 == seed,
{
    let s = jitter_seed_state(seed);
    assert((((((seed * 2654435761u64 + 1) % 0x1_0000_0000) as u32) as u64 + 0xFFFF_FFFFu64) % 0x1_0000_0000
        * 244002641u64) % 0x1_0000_0000 == seed) by (bit_vector);
    assert(((s as int - 1) % 0x1_0000_0000) == ((s as int + 0xFFFF_FFFF) % 0x1_0000_0000));
}

/// Different seeds give different generators: the seeding is one-to-one.
pub proof fn law_jitter_seeding_is_one_to_one(a: u32, b: u32)
    ensures
        jitter_seed_state(a) == jitter_seed_state(b) ==> a == b,
{
    lemma_jitter_seed_recovered(a);
    lemma_jitter_seed_recovered(b);
}

} // verus!
