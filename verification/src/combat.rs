//! The combat sub-state-machine. Attacking a living enemy yields a combat
//! handle; each subsequent input line is one `combat_step`, a transition
//! from world state and input to the next status and a narration. The
//! caller runs the read loop and stops on any terminal status.

use vstd::prelude::*;
use vstd::string::StrSliceExecFns;
use vstd::string::StringExecFns;

use crate::object::{Object, ObjectV};
use crate::text::{dec_str, seq_contains, split_words, split_ws, str_contains, u64_to_string};
use crate::command::{Command, CommandV};
use crate::world::{
    help_text, msg_invalid_bang, obj_wf, spec_display_locations, spec_do_drop, spec_do_get,
    spec_do_go, spec_do_inventory, spec_look, spec_object_visible, spec_wf, World, LOC_PLAYER,
};

verus! {

/// The states of a combat encounter: it goes on until the player dies, the
/// enemy dies, or the player runs.
#[derive(Clone, Copy, PartialEq, Eq, Structural, Debug)]
pub enum CombatStatus {
    Ongoing,
    PlayerDead,
    EnemyDead,
    Fled,
}

/// Relies on `rand::thread_rng` and `rand::Rng::gen_range`: a value drawn
/// uniformly from `0..bound`. `gen_range` panics only on an empty range,
/// which the precondition rules out; nothing more than the bound can be
/// promised of a random draw.
#[verifier::external_body]
fn random_below(bound: u64) -> (r: u64)
    requires
        bound >= 1,
    ensures
        r < bound,
{
    rand::Rng::gen_range(&mut rand::thread_rng(), 0..bound)
}

/// The hint printed when a combat input fits no sub-command.
pub open spec fn combat_hint() -> Seq<char> {
    "\nHint: Use the following commands when attacking: 'use <weapon name>' or 'inventory' or 'run'\n"@
}

/// The noun of a `use` line: its second word.
pub open spec fn spec_use_noun(msg: Seq<char>) -> Seq<char> {
    let ts = split_ws(msg);
    if ts.len() >= 2 {
        ts[1]
    } else {
        Seq::empty()
    }
}

/// What one `use` line does, as a function of the uniform draw `rnd` the
/// enemy retaliates with: an invisible noun or a non-weapon changes
/// nothing; a weapon subtracts its attack points from the enemy's health,
/// clamped at zero; a kill ends the combat; otherwise the enemy strikes
/// back for `rnd` (zero being a dodge), clamped at zero on the player's
/// health.
pub open spec fn spec_do_use(
    objs: Seq<ObjectV>,
    msg: Seq<char>,
    obj_index: usize,
    rnd: u64,
) -> (CombatStatus, Seq<char>, Seq<ObjectV>) {
    let noun = spec_use_noun(msg);
    let rv = spec_object_visible(objs, noun);
    let ename = objs[obj_index as int].name();
    if rv.1 is None {
        (CombatStatus::Ongoing, rv.0, objs)
    } else if !(objs[rv.1->0 as int] is Weapon) {
        (
            CombatStatus::Ongoing,
            "That is not a weapon!!\nHint: Use the following commands: use <weapon name> or run\n"@,
            objs,
        )
    } else {
        let pts = objs[rv.1->0 as int].attack_points();
        let eh = objs[obj_index as int].health();
        let nh: u64 = if pts > eh {
            0
        } else {
            (eh - pts) as u64
        };
        let objs2 = with_health_update(objs, obj_index, nh);
        let base = "You attacked the "@ + ename + ".\nEnemy health: "@ + dec_str(nh as int);
        if nh == 0 {
            (CombatStatus::EnemyDead, base + "\nYou killed the "@ + ename + ".\n"@, objs2)
        } else {
            let mid = base + "\n\nThe "@ + ename + " attacks"@;
            if rnd == 0 {
                (CombatStatus::Ongoing, mid + "\nYou dodged the attack"@, objs2)
            } else {
                let ph = objs[LOC_PLAYER as int].health();
                let nph: u64 = if rnd > ph {
                    0
                } else {
                    (ph - rnd) as u64
                };
                let objs3 = with_health_update(objs2, LOC_PLAYER, nph);
                (
                    CombatStatus::Ongoing,
                    mid + "\nYou got hit"@ + "\nYour health: "@ + dec_str(nph as int),
                    objs3,
                )
            }
        }
    }
}

/// What one combat input does, as a function of the retaliation draw: the
/// player's death is checked first against the backing store; `run` flees;
/// `inventory` lists it; `use` strikes; anything else repeats the hint.
pub open spec fn spec_combat_step(
    objs: Seq<ObjectV>,
    enemy_index: usize,
    input: Seq<char>,
    rnd: u64,
) -> (CombatStatus, Seq<char>, Seq<ObjectV>) {
    if objs[LOC_PLAYER as int].health() == 0 {
        (CombatStatus::PlayerDead, "\nYou died"@, objs)
    } else if seq_contains(input, "run"@) {
        (
            CombatStatus::Fled,
            "You ran away from the "@ + objs[enemy_index as int].name() + ".\n"@,
            objs,
        )
    } else if seq_contains(input, "inventory"@) {
        (CombatStatus::Ongoing, spec_do_inventory(objs), objs)
    } else if seq_contains(input, "use"@) {
        spec_do_use(objs, input, enemy_index, rnd)
    } else {
        (CombatStatus::Ongoing, combat_hint(), objs)
    }
}

/// What attacking a noun yields: the resolver's message for an invisible
/// noun, a rebuff for a non-enemy or an already dead enemy, and otherwise
/// the opening narration together with the enemy's index as the combat
/// handle.
pub open spec fn spec_do_attack(objs: Seq<ObjectV>, noun: Seq<char>) -> (Seq<char>, Option<
    usize,
>) {
    let rv = spec_object_visible(objs, noun);
    if rv.1 is None {
        (rv.0, None)
    } else if !(objs[rv.1->0 as int] is Enemy) {
        ("You can't attack the "@ + noun + ".\n"@, None)
    } else if objs[rv.1->0 as int].health() == 0 {
        ("The "@ + objs[rv.1->0 as int].name() + " is already dead.\n"@, None)
    } else {
        ("\nYou are attacking the "@ + objs[rv.1->0 as int].name() + ".\n"@, Some(rv.1->0))
    }
}

impl World {
    /// Opens combat against a noun: a living enemy in reach yields its
    /// index; the world itself is not changed.
    pub fn do_attack(&mut self, noun: &String) -> (r: (String, Option<usize>))
        requires
            spec_wf(old(self)@),
        ensures
            final(self)@ == old(self)@,
            r.0@ == spec_do_attack(old(self)@, noun@).0,
            r.1 == spec_do_attack(old(self)@, noun@).1,
            r.1 matches Some(i) ==> (i as int) < old(self)@.len() && old(self)@[i as int]
                is Enemy && old(self)@[i as int].health() > 0,
    {
        let (output, obj_opt) = self.object_visible(noun);
        match obj_opt {
            None => (output, None),
            Some(i) => {
                match &self.objects[i] {
                    Object::Enemy(e) => {
                        if e.health == 0 {
                            let mut r = String::from_str("The ");
                            r.append(self.objects[i].name_ref().as_str());
                            r.append(" is already dead.\n");
                            (r, None)
                        } else {
                            let mut r = String::from_str("\nYou are attacking the ");
                            r.append(self.objects[i].name_ref().as_str());
                            r.append(".\n");
                            (r, Some(i))
                        }
                    },
                    _ => {
                        let mut r = String::from_str("You can't attack the ");
                        r.append(noun.as_str());
                        r.append(".\n");
                        (r, None)
                    },
                }
            },
        }
    }

    /// One strike with a `use` line: resolves the named weapon, hits the
    /// enemy, and lets it retaliate with a uniformly random amount below
    /// its attack power, zero being a dodge. Health never underflows: both
    /// subtractions clamp at zero.
    pub fn do_use(&mut self, msg: &str, obj_index: usize) -> (r: (CombatStatus, String))
        requires
            spec_wf(old(self)@),
            (obj_index as int) < old(self)@.len(),
            old(self)@[obj_index as int] is Enemy,
        ensures
            spec_wf(final(self)@),
            exists|rnd: u64|
                rnd < old(self)@[obj_index as int].attack() && (r.0, r.1@, final(self)@)
                    == spec_do_use(old(self)@, msg@, obj_index, rnd),
    {
        let ghost objs0 = self@;
        proof {
            assert(obj_wf(objs0, objs0[obj_index as int]));
            assert(obj_wf(objs0, objs0[LOC_PLAYER as int]));
        }
        let words = split_words(msg);
        let noun: String = if words.len() >= 2 {
            proof {
                assert(words.deep_view()[1] == words@[1]@);
            }
            words[1].clone()
        } else {
            String::new()
        };
        let (output, obj_opt) = self.object_visible(&noun);
        match obj_opt {
            None => {
                proof {
                    assert(spec_use_noun(msg@) == noun@);
                    assert((CombatStatus::Ongoing, output@, self@) == spec_do_use(
                        old(self)@,
                        msg@,
                        obj_index,
                        0,
                    ));
                }
                (CombatStatus::Ongoing, output)
            },
            Some(windex) => {
                let is_weapon = match &self.objects[windex] {
                    Object::Weapon(_) => true,
                    _ => false,
                };
                if !is_weapon {
                    let res = String::from_str(
                        "That is not a weapon!!\nHint: Use the following commands: use <weapon name> or run\n",
                    );
                    proof {
                        assert(spec_use_noun(msg@) == noun@);
                        assert((CombatStatus::Ongoing, res@, self@) == spec_do_use(
                            old(self)@,
                            msg@,
                            obj_index,
                            0,
                        ));
                    }
                    (CombatStatus::Ongoing, res)
                } else {
                    let pts = match &self.objects[windex] {
                        Object::Weapon(w) => w.attack_points,
                        _ => {
                            proof {
                                assert(false);
                            }
                            0
                        },
                    };
                    let (eh, att) = match &self.objects[obj_index] {
                        Object::Enemy(e) => (e.health, e.attack),
                        _ => {
                            proof {
                                assert(false);
                            }
                            (0, 1)
                        },
                    };
                    let nh: u64 = if pts > eh {
                        0
                    } else {
                        eh - pts
                    };
                    self.objects[obj_index].set_health(nh);
                    proof {
                        assert(self@ =~= with_health_update(objs0, obj_index, nh));
                        lemma_wf_after_health(objs0, obj_index, nh);
                        assert(spec_use_noun(msg@) == noun@);
                    }
                    let mut out = String::from_str("You attacked the ");
                    out.append(self.objects[obj_index].name_ref().as_str());
                    out.append(".\nEnemy health: ");
                    let num = u64_to_string(nh);
                    out.append(num.as_str());
                    if nh == 0 {
                        out.append("\nYou killed the ");
                        out.append(self.objects[obj_index].name_ref().as_str());
                        out.append(".\n");
                        proof {
                            assert((CombatStatus::EnemyDead, out@, self@) == spec_do_use(
                                old(self)@,
                                msg@,
                                obj_index,
                                0,
                            )) by {
                                assert(out@ =~= spec_do_use(old(self)@, msg@, obj_index, 0).1);
                            }
                        }
                        (CombatStatus::EnemyDead, out)
                    } else {
                        out.append("\n\nThe ");
                        out.append(self.objects[obj_index].name_ref().as_str());
                        out.append(" attacks");
                        let ghost objs2 = self@;
                        let rnd = random_below(att);
                        if rnd == 0 {
                            out.append("\nYou dodged the attack");
                            proof {
                                assert((CombatStatus::Ongoing, out@, self@) == spec_do_use(
                                    old(self)@,
                                    msg@,
                                    obj_index,
                                    0,
                                )) by {
                                    assert(out@ =~= spec_do_use(old(self)@, msg@, obj_index, 0).1);
                                }
                            }
                            (CombatStatus::Ongoing, out)
                        } else {
                            out.append("\nYou got hit");
                            let ph = match &self.objects[LOC_PLAYER] {
                                Object::Player(p) => p.health,
                                _ => {
                                    proof {
                                        assert(false);
                                    }
                                    0
                                },
                            };
                            let nph: u64 = if rnd > ph {
                                0
                            } else {
                                ph - rnd
                            };
                            self.objects[LOC_PLAYER].set_health(nph);
                            proof {
                                assert(self@ =~= with_health_update(objs2, LOC_PLAYER, nph));
                                lemma_wf_after_health(objs2, LOC_PLAYER, nph);
                            }
                            out.append("\nYour health: ");
                            let num2 = u64_to_string(nph);
                            out.append(num2.as_str());
                            proof {
                                assert((CombatStatus::Ongoing, out@, self@) == spec_do_use(
                                    old(self)@,
                                    msg@,
                                    obj_index,
                                    rnd,
                                )) by {
                                    assert(out@ =~= spec_do_use(old(self)@, msg@, obj_index, rnd).1);
                                }
                            }
                            (CombatStatus::Ongoing, out)
                        }
                    }
                }
            },
        }
    }

    /// One combat turn: the player's death is checked first against the
    /// backing store; `run` flees, `inventory` lists it, `use` strikes,
    /// anything else repeats the hint.
    pub fn combat_step(&mut self, enemy_index: usize, input: &str) -> (r: (CombatStatus, String))
        requires
            spec_wf(old(self)@),
            (enemy_index as int) < old(self)@.len(),
            old(self)@[enemy_index as int] is Enemy,
        ensures
            spec_wf(final(self)@),
            exists|rnd: u64|
                rnd < old(self)@[enemy_index as int].attack() && (r.0, r.1@, final(self)@)
                    == spec_combat_step(old(self)@, enemy_index, input@, rnd),
    {
        let ghost objs0 = self@;
        proof {
            assert(obj_wf(objs0, objs0[LOC_PLAYER as int]));
            assert(obj_wf(objs0, objs0[enemy_index as int]));
        }
        let ph = match &self.objects[LOC_PLAYER] {
            Object::Player(p) => p.health,
            _ => {
                proof {
                    assert(false);
                }
                0
            },
        };
        if ph == 0 {
            let res = String::from_str("\nYou died");
            proof {
                assert((CombatStatus::PlayerDead, res@, self@) == spec_combat_step(
                    old(self)@,
                    enemy_index,
                    input@,
                    0,
                ));
            }
            (CombatStatus::PlayerDead, res)
        } else if str_contains(input, "run") {
            let mut r = String::from_str("You ran away from the ");
            r.append(self.objects[enemy_index].name_ref().as_str());
            r.append(".\n");
            proof {
                assert((CombatStatus::Fled, r@, self@) == spec_combat_step(
                    old(self)@,
                    enemy_index,
                    input@,
                    0,
                ));
            }
            (CombatStatus::Fled, r)
        } else if str_contains(input, "inventory") {
            let inv = self.do_inventory();
            proof {
                assert((CombatStatus::Ongoing, inv@, self@) == spec_combat_step(
                    old(self)@,
                    enemy_index,
                    input@,
                    0,
                ));
            }
            (CombatStatus::Ongoing, inv)
        } else if str_contains(input, "use") {
            let res = self.do_use(input, enemy_index);
            proof {
                let rnd0 = choose|rnd: u64|
                    rnd < old(self)@[enemy_index as int].attack() && (res.0, res.1@, self@)
                        == spec_do_use(old(self)@, input@, enemy_index, rnd);
                assert(rnd0 < old(self)@[enemy_index as int].attack() && (res.0, res.1@, self@)
                    == spec_do_use(old(self)@, input@, enemy_index, rnd0));
                assert((res.0, res.1@, self@) == spec_combat_step(
                    old(self)@,
                    enemy_index,
                    input@,
                    rnd0,
                ));
            }
            res
        } else {
            let hint = String::from_str(
                "\nHint: Use the following commands when attacking: 'use <weapon name>' or 'inventory' or 'run'\n",
            );
            proof {
                assert((CombatStatus::Ongoing, hint@, self@) == spec_combat_step(
                    old(self)@,
                    enemy_index,
                    input@,
                    0,
                ));
            }
            (CombatStatus::Ongoing, hint)
        }
    }
}

impl World {
    /// One top-level command: the dispatch table of the interpreter. The
    /// second component is the combat handle when an attack opened combat;
    /// every other command leaves it absent.
    pub fn update_state(&mut self, command: &Command) -> (r: (String, Option<usize>))
        requires
            spec_wf(old(self)@),
        ensures
            spec_wf(final(self)@),
            match command@ {
                CommandV::Look(noun) => {
                    &&& final(self)@ == old(self)@
                    &&& noun.len() == 0 ==> r.0@ == spec_look(old(self)@)
                    &&& noun.len() > 0 ==> r.0@ == msg_invalid_bang()
                    &&& r.1 is None
                },
                CommandV::Go(noun) => {
                    &&& r.0@ == spec_do_go(old(self)@, noun).0
                    &&& final(self)@ == spec_do_go(old(self)@, noun).1
                    &&& r.1 is None
                },
                CommandV::Quit => {
                    &&& final(self)@ == old(self)@
                    &&& r.0@ == "Quitting.\nThank you for playing!"@
                    &&& r.1 is None
                },
                CommandV::Attack(noun) => {
                    &&& final(self)@ == old(self)@
                    &&& r.0@ == spec_do_attack(old(self)@, noun).0
                    &&& r.1 == spec_do_attack(old(self)@, noun).1
                    &&& (r.1 matches Some(i) ==> (i as int) < old(self)@.len() && old(
                        self,
                    )@[i as int] is Enemy && old(self)@[i as int].health() > 0)
                },
                CommandV::Drop(noun) => {
                    &&& r.0@ == spec_do_drop(old(self)@, noun).0
                    &&& final(self)@ == spec_do_drop(old(self)@, noun).1
                    &&& r.1 is None
                },
                CommandV::Get(noun) => {
                    &&& r.0@ == spec_do_get(old(self)@, noun).0
                    &&& final(self)@ == spec_do_get(old(self)@, noun).1
                    &&& r.1 is None
                },
                CommandV::Inventory => {
                    &&& final(self)@ == old(self)@
                    &&& r.0@ == spec_do_inventory(old(self)@)
                    &&& r.1 is None
                },
                CommandV::Help => {
                    &&& final(self)@ == old(self)@
                    &&& r.0@ == help_text()
                    &&& r.1 is None
                },
                CommandV::WorldMap => {
                    &&& final(self)@ == old(self)@
                    &&& r.0@ == spec_display_locations(old(self)@)
                    &&& r.1 is None
                },
                CommandV::Unknown(_) => {
                    &&& final(self)@ == old(self)@
                    &&& r.0@ == msg_invalid_bang() + help_text()
                    &&& r.1 is None
                },
            },
    {
        match command {
            Command::Look(noun) => (self.do_look(noun.as_str()), None),
            Command::Go(noun) => (self.do_go(noun), None),
            Command::Quit => (String::from_str("Quitting.\nThank you for playing!"), None),
            Command::Attack(noun) => self.do_attack(noun),
            Command::Drop(noun) => (self.do_drop(noun), None),
            Command::Get(noun) => (self.do_get(noun), None),
            Command::Inventory => (self.do_inventory(), None),
            Command::Help => (self.display_help(), None),
            Command::WorldMap => (self.display_locations(), None),
            Command::Unknown(_) => {
                let mut r = String::from_str("Invalid command!!\n");
                let help = self.display_help();
                r.append(help.as_str());
                (r, None)
            },
        }
    }
}

/// The world with the actor at `idx` set to health `nh`.
pub open spec fn with_health_update(objs: Seq<ObjectV>, idx: usize, nh: u64) -> Seq<ObjectV> {
    objs.update(idx as int, crate::object::with_health(objs[idx as int], nh))
}

proof fn lemma_wf_after_health(objs: Seq<ObjectV>, idx: usize, nh: u64)
    requires
        spec_wf(objs),
        (idx as int) < objs.len(),
        nh <= 100,
    ensures
        spec_wf(with_health_update(objs, idx, nh)),
{
    let oo = idx as int;
    let moved = crate::object::with_health(objs[oo], nh);
    let objs2 = with_health_update(objs, idx, nh);
    assert(moved is Location == objs[oo] is Location);
    assert(moved is Player == objs[oo] is Player);
    assert forall|i: int| 0 <= i < objs2.len() implies (objs2[i] is Player
        ==> i == LOC_PLAYER) by {
        if i != oo {
            assert(objs2[i] == objs[i]);
        }
    }
    assert forall|i: int| 0 <= i < objs2.len() implies #[trigger] obj_wf(objs2, objs2[i]) by {
        assert(obj_wf(objs, objs[i]));
        assert(obj_wf(objs, objs[oo]));
        assert forall|l: int| 0 <= l < objs.len() implies (objs2[l] is Location == objs[l]
            is Location) by {
            if l != oo {
                assert(objs2[l] == objs[l]);
            }
        }
        if i != oo {
            assert(objs2[i] == objs[i]);
        }
    }
}

} // verus!
