//! Resolves melee attacks into damage.
use crate::components::{CombatStats, Name, SufferDamage, WantsToMelee};
use crate::ecs::{Entities, Storage};
use crate::text::{hits, hits_text, unable_to_hurt, unable_to_hurt_text};
use vstd::prelude::*;

verus! {

/// The system that turns the intents to attack into damage.
pub struct MeleeCombatSystem {}

/// The damage an attacker with `attacker` stats deals to a target with
/// `target` stats: its attack less the target's defense, never below zero.
pub open spec fn melee_damage(attacker: CombatStats, target: CombatStats) -> int {
    if attacker.attack - target.defense > 0 {
        attacker.attack - target.defense
    } else {
        0
    }
}

/// The live entity of slot `e` wants to attack and has a name and stats.
pub open spec fn attacker(
    entities: &Entities,
    wants_melee: &Storage<WantsToMelee>,
    names: &Storage<Name>,
    combat_stats: &Storage<CombatStats>,
    e: int,
) -> bool {
    &&& entities.alive_at(e)
    &&& wants_melee@.contains_key(e)
    &&& names@.contains_key(e)
    &&& combat_stats@.contains_key(e)
}

/// The slot of the target of the attacker of slot `e`.
pub open spec fn target_slot(wants_melee: &Storage<WantsToMelee>, e: int) -> int {
    wants_melee@[e].target.id as int
}

/// The attacker of slot `e` and its target are both still standing.
pub open spec fn fight_happens(
    entities: &Entities,
    wants_melee: &Storage<WantsToMelee>,
    names: &Storage<Name>,
    combat_stats: &Storage<CombatStats>,
    e: int,
) -> bool {
    &&& attacker(entities, wants_melee, names, combat_stats, e)
    &&& combat_stats@[e].hp > 0
    &&& combat_stats@[target_slot(wants_melee, e)].hp > 0
}

/// The damage the attacker of slot `e` deals to its target.
pub open spec fn damage_of(
    wants_melee: &Storage<WantsToMelee>,
    combat_stats: &Storage<CombatStats>,
    e: int,
) -> int {
    melee_damage(combat_stats@[e], combat_stats@[target_slot(wants_melee, e)])
}

/// Every attacker's target is alive with a name and stats, and the
/// difference of attack and defense of each fight fits in an `i32`.
pub open spec fn melee_ready(
    entities: &Entities,
    wants_melee: &Storage<WantsToMelee>,
    names: &Storage<Name>,
    combat_stats: &Storage<CombatStats>,
) -> bool {
    forall|e: int|
        #[trigger] attacker(entities, wants_melee, names, combat_stats, e) ==> {
            let t = target_slot(wants_melee, e);
            &&& entities.alive_at(t)
            &&& combat_stats@.contains_key(t)
            &&& names@.contains_key(t)
            &&& (combat_stats@[e].hp > 0 && combat_stats@[t].hp > 0) ==> i32::MIN
                <= combat_stats@[e].attack - combat_stats@[t].defense <= i32::MAX
        }
}

/// The damage components after the attackers among slots `0..k` have struck:
/// each blow that does harm sets its target's damage, a later blow replacing
/// an earlier one.
pub open spec fn damage_after(
    entities: &Entities,
    wants_melee: &Storage<WantsToMelee>,
    names: &Storage<Name>,
    combat_stats: &Storage<CombatStats>,
    suffer_damage: Map<int, SufferDamage>,
    k: int,
) -> Map<int, SufferDamage>
    decreases k,
{
    if k <= 0 {
        suffer_damage
    } else {
        let before = damage_after(entities, wants_melee, names, combat_stats, suffer_damage, k - 1);
        let e = k - 1;
        if fight_happens(entities, wants_melee, names, combat_stats, e) && damage_of(
            wants_melee,
            combat_stats,
            e,
        ) > 0 {
            before.insert(
                target_slot(wants_melee, e),
                SufferDamage { amount: damage_of(wants_melee, combat_stats, e) as i32 },
            )
        } else {
            before
        }
    }
}

/// The console lines written for the attackers among slots `0..k`.
pub open spec fn combat_lines(
    entities: &Entities,
    wants_melee: &Storage<WantsToMelee>,
    names: &Storage<Name>,
    combat_stats: &Storage<CombatStats>,
    k: int,
) -> Seq<Seq<char>>
    decreases k,
{
    if k <= 0 {
        Seq::empty()
    } else {
        let before = combat_lines(entities, wants_melee, names, combat_stats, k - 1);
        let e = k - 1;
        if fight_happens(entities, wants_melee, names, combat_stats, e) {
            let me = names@[e].name@;
            let them = names@[target_slot(wants_melee, e)].name@;
            let d = damage_of(wants_melee, combat_stats, e);
            if d == 0 {
                before.push(unable_to_hurt_text(me, them))
            } else {
                before.push(hits_text(me, them, d))
            }
        } else {
            before
        }
    }
}

impl MeleeCombatSystem {
    /// Whether `run` may be called on these storages.
    pub fn can_run(
        &self,
        entities: &Entities,
        wants_melee: &Storage<WantsToMelee>,
        names: &Storage<Name>,
        combat_stats: &Storage<CombatStats>,
    ) -> (r: bool)
        ensures
            r == melee_ready(entities, wants_melee, names, combat_stats),
    {
        let n = entities.len();
        for k in 0..n
            invariant
                n == entities@.len(),
                forall|e: int|
                    0 <= e < k && #[trigger] attacker(entities, wants_melee, names, combat_stats, e)
                        ==> {
                        let t = target_slot(wants_melee, e);
                        &&& entities.alive_at(t)
                        &&& combat_stats@.contains_key(t)
                        &&& names@.contains_key(t)
                        &&& (combat_stats@[e].hp > 0 && combat_stats@[t].hp > 0) ==> i32::MIN
                            <= combat_stats@[e].attack - combat_stats@[t].defense <= i32::MAX
                    },
        {
            let e = entities.entity(k);
            if entities.is_alive(e) {
                match (wants_melee.get(entities, e), names.get(entities, e), combat_stats.get(entities, e)) {
                    (Some(wants), Some(_name), Some(stats)) => {
                        assert(attacker(entities, wants_melee, names, combat_stats, k as int));
                        let t = wants.target;
                        if names.get(entities, t).is_none() {
                            return false;
                        }
                        match combat_stats.get(entities, t) {
                            None => {
                                return false;
                            },
                            Some(ts) => {
                                if stats.hp > 0 && ts.hp > 0 {
                                    let diff = stats.attack as i64 - ts.defense as i64;
                                    if diff < i32::MIN as i64 || diff > i32::MAX as i64 {
                                        return false;
                                    }
                                }
                            },
                        }
                    },
                    _ => {},
                }
            }
        }
        assert forall|e: int| #[trigger] attacker(entities, wants_melee, names, combat_stats, e) implies {
            let t = target_slot(wants_melee, e);
            &&& entities.alive_at(t)
            &&& combat_stats@.contains_key(t)
            &&& names@.contains_key(t)
            &&& (combat_stats@[e].hp > 0 && combat_stats@[t].hp > 0) ==> i32::MIN
                <= combat_stats@[e].attack - combat_stats@[t].defense <= i32::MAX
        } by {
            assert(0 <= e < n);
        }
        true
    }

    /// Every live entity with an intent to attack, a name and stats strikes
    /// its target, in slot order, if both are still standing: a blow that
    /// deals damage sets the target's pending damage, and each fight writes a
    /// console line. All intents to attack are then removed.
    pub fn run(
        &mut self,
        entities: &Entities,
        wants_melee: &mut Storage<WantsToMelee>,
        names: &Storage<Name>,
        combat_stats: &Storage<CombatStats>,
        suffer_damage: &mut Storage<SufferDamage>,
    ) -> (console: Vec<String>)
        requires
            melee_ready(entities, &*old(wants_melee), names, combat_stats),
        ensures
            final(wants_melee)@ == Map::<int, WantsToMelee>::empty(),
            final(suffer_damage)@ == damage_after(
                entities,
                &*old(wants_melee),
                names,
                combat_stats,
                old(suffer_damage)@,
                entities@.len() as int,
            ),
            console@.map_values(|s: String| s@) == combat_lines(
                entities,
                &*old(wants_melee),
                names,
                combat_stats,
                entities@.len() as int,
            ),
    {
        let mut console: Vec<String> = Vec::new();
        let n = entities.len();
        for k in 0..n
            invariant
                n == entities@.len(),
                wants_melee@ == old(wants_melee)@,
                *wants_melee == *old(wants_melee),
                melee_ready(entities, &*old(wants_melee), names, combat_stats),
                suffer_damage@ == damage_after(
                    entities,
                    &*old(wants_melee),
                    names,
                    combat_stats,
                    old(suffer_damage)@,
                    k as int,
                ),
                console@.map_values(|s: String| s@) == combat_lines(
                    entities,
                    &*old(wants_melee),
                    names,
                    combat_stats,
                    k as int,
                ),
        {
            let e = entities.entity(k);
            let ghost lines_before = console@.map_values(|s: String| s@);
            if entities.is_alive(e) {
                match (wants_melee.get(entities, e), names.get(entities, e), combat_stats.get(entities, e)) {
                    (Some(wants), Some(name), Some(stats)) => {
                        assert(attacker(entities, &*old(wants_melee), names, combat_stats, k as int));
                        let target = wants.target;
                        let target_stats = combat_stats.get(entities, target).unwrap();
                        let target_name = names.get(entities, target).unwrap();
                        if stats.hp > 0 && target_stats.hp > 0 {
                            let diff = stats.attack - target_stats.defense;
                            let dmg = if diff > 0 { diff } else { 0 };
                            if dmg == 0 {
                                console.push(unable_to_hurt(&name.name, &target_name.name));
                            } else {
                                console.push(hits(&name.name, &target_name.name, dmg));
                                let inserted = suffer_damage.insert(
                                    entities,
                                    target,
                                    SufferDamage { amount: dmg },
                                );
                                assert(inserted is Ok);
                            }
                        }
                    },
                    _ => {},
                }
            }
            assert(console@.map_values(|s: String| s@) =~= combat_lines(
                entities,
                &*old(wants_melee),
                names,
                combat_stats,
                k + 1,
            ));
        }
        wants_melee.clear();
        console
    }
}

} // verus!
