//! Melee between creatures.

use vstd::prelude::*;
use crate::colony::geometry::{is_within, within};
use crate::colony::lifecycle::{bury, buried};
use crate::colony::types::{Ant, Battle};
use crate::colony::world::{check_ant, store_ant, World, WorldView};
use crate::error::{CommandError, Entity};
use crate::identity::Context;

verus! {

/// Reach of a melee attack: five world units.
pub const MELEE_RANGE: u32 = 5000;

/// Health left after `damage`, never below zero.
pub open spec fn health_after(health: u32, damage: u32) -> u32 {
    if health <= damage {
        0
    } else {
        (health - damage) as u32
    }
}

/// Why an attack is turned down: the first test that fails, in the
/// order given here. `None` means it goes ahead.
pub open spec fn attack_target_check(
    s: WorldView,
    ctx: Context,
    attacker_id: u32,
    target_id: u32,
) -> Option<CommandError> {
    if !s.ants.contains(attacker_id) || !s.ants.contains(target_id) {
        Some(CommandError::NotFound(Entity::Ant))
    } else if s.colony_check(ctx, s.ants.get(attacker_id).colony_id) is Some {
        s.colony_check(ctx, s.ants.get(attacker_id).colony_id)
    } else if !within(
        s.ants.get(attacker_id).position,
        s.ants.get(target_id).position,
        MELEE_RANGE as int,
    ) {
        Some(CommandError::OutOfRange)
    } else if s.battles.is_full() {
        Some(CommandError::Exhausted)
    } else {
        None
    }
}

/// The battle record of an attack: where the target stood and what the
/// attacker's blow was worth.
pub open spec fn battle_record(
    s: WorldView,
    ctx: Context,
    attacker_id: u32,
    target_id: u32,
) -> Battle {
    Battle {
        id: s.battles.next_id,
        attacker_ant_id: attacker_id,
        defender_ant_id: target_id,
        position: s.ants.get(target_id).position,
        damage_dealt: s.ants.get(attacker_id).attack_damage,
        timestamp: ctx.timestamp,
    }
}

/// The target's health after the attack.
pub open spec fn attack_outcome(s: WorldView, attacker_id: u32, target_id: u32) -> u32 {
    health_after(s.ants.get(target_id).health, s.ants.get(attacker_id).attack_damage)
}

/// The attack is recorded whatever comes of it. A target left without
/// health is deleted and its colony counts one creature less; any other
/// target is stored with the health it has left.
pub open spec fn attack_target_next(
    s: WorldView,
    ctx: Context,
    attacker_id: u32,
    target_id: u32,
) -> WorldView {
    let health = attack_outcome(s, attacker_id, target_id);
    let fought = WorldView {
        battles: s.battles.insert(battle_record(s, ctx, attacker_id, target_id)),
        ..s
    };
    if health == 0 {
        buried(fought, target_id)
    } else {
        WorldView {
            ants: fought.ants.update(Ant { health, ..s.ants.get(target_id) }),
            ..fought
        }
    }
}

/// Has creature `attacker_id` strike creature `target_id` for the
/// attacker's attack damage.
pub fn attack_target(world: &mut World, ctx: Context, attacker_id: u32, target_id: u32) -> (done:
    Result<(), CommandError>)
    requires
        old(world)@.wf(),
    ensures
        final(world)@.wf(),
        match attack_target_check(old(world)@, ctx, attacker_id, target_id) {
            Some(e) => done == Err::<(), CommandError>(e) && final(world)@ == old(world)@,
            None => done == Ok::<(), CommandError>(()) && final(world)@ == attack_target_next(
                old(world)@,
                ctx,
                attacker_id,
                target_id,
            ),
        },
{
    let ai = match world.ants.find(attacker_id) {
        Some(i) => i,
        None => {
            return Err(CommandError::NotFound(Entity::Ant));
        },
    };
    let ti = match world.ants.find(target_id) {
        Some(i) => i,
        None => {
            return Err(CommandError::NotFound(Entity::Ant));
        },
    };
    match check_ant(world, ctx, attacker_id) {
        Ok(_) => {},
        Err(e) => {
            return Err(e);
        },
    }
    let attacker = world.ants.rows[ai];
    let target = world.ants.rows[ti];
    if !is_within(attacker.position, target.position, MELEE_RANGE) {
        return Err(CommandError::OutOfRange);
    }
    if !world.battles.has_room() {
        return Err(CommandError::Exhausted);
    }
    let damage = attacker.attack_damage;
    let health = target.health.saturating_sub(damage);
    let id = world.battles.next_id;
    world.battles.insert(
        Battle {
            id,
            attacker_ant_id: attacker_id,
            defender_ant_id: target_id,
            position: target.position,
            damage_dealt: damage,
            timestamp: ctx.timestamp,
        },
    );
    if health == 0 {
        bury(world, ti);
    } else {
        store_ant(world, ti, Ant { health, ..target });
    }
    Ok(())
}

} // verus!
