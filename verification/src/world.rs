//! The world: one ordered sequence of game objects, identified by position,
//! together with the distance classifier over them.

use vstd::prelude::*;
use vstd::string::StringExecFns;

use crate::command::Command;
use crate::distance::Distance;
use crate::object::{Object, ObjectV};
use crate::text::{eq_ignore_case, lower_seq};

verus! {

/// A noun may resolve to nothing, to a single object, or to several
/// same-named candidates at once.
#[derive(Clone, Copy, PartialEq, Eq, Debug)]
pub enum AmbiguousOption<T> {
    Absent,
    One(T),
    Ambiguous,
}

/// Index of the forest location in the default world.
pub const LOC_FOREST: usize = 0;

/// Index of the dungeons location in the default world.
pub const LOC_DUNGEONS: usize = 1;

/// Index of the cave location in the default world.
pub const LOC_CAVE: usize = 2;

/// Index of the tavern location in the default world.
pub const LOC_TAVERN: usize = 3;

/// Index of the village location in the default world.
pub const LOC_VILLAGE: usize = 4;

/// Index of the stronghold location in the default world.
pub const LOC_STRONGHOLD: usize = 5;

/// Index of the player; every world keeps its player here.
pub const LOC_PLAYER: usize = 6;

/// Index of the bear in the default world.
pub const LOC_BEAR: usize = 7;

/// Index of the troll in the default world.
pub const LOC_TROLL: usize = 8;

/// Index of the bandits in the default world.
pub const LOC_BANDITS: usize = 9;

/// The world: an arena-like sequence of objects. Objects are never removed;
/// being picked up, dropped or consumed only rewrites a `location` field.
#[derive(Debug, PartialEq, Eq)]
pub struct World {
    pub objects: Vec<Object>,
}

impl View for World {
    type V = Seq<ObjectV>;

    open spec fn view(&self) -> Seq<ObjectV> {
        self.objects.deep_view()
    }
}

/// The location field of the object `x` refers to, if any.
pub open spec fn loc_of(objs: Seq<ObjectV>, x: Option<usize>) -> Option<usize> {
    match x {
        Some(a) => objs[a as int].loc(),
        None => None,
    }
}

/// `container` directly holds `object`: the object's location field names
/// the container.
pub open spec fn spec_is_containing(
    objs: Seq<ObjectV>,
    container: Option<usize>,
    object: Option<usize>,
) -> bool {
    object is Some && loc_of(objs, object) == container
}

/// The object at `pos` is a passage from `from` to `to`.
pub open spec fn spec_passage_at(objs: Seq<ObjectV>, from: usize, to: usize, pos: int) -> bool {
    objs[pos].loc() == Some(from) && objs[pos].destination() == Some(to)
}

/// Some passage leads from `from` to `to`.
pub open spec fn spec_passage_exists(
    objs: Seq<ObjectV>,
    from: Option<usize>,
    to: Option<usize>,
) -> bool {
    match (from, to) {
        (Some(f), Some(t)) => exists|p: int|
            0 <= p < objs.len() && #[trigger] spec_passage_at(objs, f, t, p),
        _ => false,
    }
}

/// The distance classification, evaluated in priority order: an absent
/// target is `Unknown`; the actor itself is `Player`; something the actor
/// holds is `Held`; something holding the actor is `Location`; something in
/// the actor's own location is `Here`; something a passage leads to from the
/// actor's location is `OverThere`; everything else is `NotHere`.
pub open spec fn spec_distance(
    objs: Seq<ObjectV>,
    from: Option<usize>,
    to: Option<usize>,
) -> Distance {
    let from_loc = loc_of(objs, from);
    if to is None {
        Distance::Unknown
    } else if to == from {
        Distance::Player
    } else if spec_is_containing(objs, from, to) {
        Distance::Held
    } else if spec_is_containing(objs, to, from) {
        Distance::Location
    } else if from_loc is Some && spec_is_containing(objs, from_loc, to) {
        Distance::Here
    } else if spec_passage_exists(objs, from_loc, to) {
        Distance::OverThere
    } else {
        Distance::NotHere
    }
}

/// One object in a well-formed world: location fields point to locations
/// (or, for items, to the player holding them), passage destinations point
/// to locations, and health stays within `0..=100`.
pub open spec fn obj_wf(objs: Seq<ObjectV>, o: ObjectV) -> bool {
    match o {
        ObjectV::Location { .. } => true,
        ObjectV::Player { location, health, .. } => location < objs.len() && objs[location as int]
            is Location && health <= 100,
        ObjectV::Enemy { location, health, attack, .. } => location < objs.len()
            && objs[location as int] is Location && health <= 100 && attack >= 1,
        ObjectV::Weapon { location, .. } => match location {
            Some(l) => l < objs.len() && (objs[l as int] is Location || l == LOC_PLAYER),
            None => true,
        },
        ObjectV::Consumable { location, .. } => match location {
            Some(l) => l < objs.len() && (objs[l as int] is Location || l == LOC_PLAYER),
            None => true,
        },
        ObjectV::Passage { location, destination, .. } => {
            &&& match location {
                Some(l) => l < objs.len() && objs[l as int] is Location,
                None => true,
            }
            &&& match destination {
                Some(d) => d < objs.len() && objs[d as int] is Location,
                None => true,
            }
        },
    }
}

/// A well-formed world: the player sits at its well-known index and is the
/// only player, and every object satisfies `obj_wf`.
pub open spec fn spec_wf(objs: Seq<ObjectV>) -> bool {
    &&& LOC_PLAYER < objs.len()
    &&& objs[LOC_PLAYER as int] is Player
    &&& forall|i: int| 0 <= i < objs.len() ==> (objs[i] is Player ==> i == LOC_PLAYER)
    &&& forall|i: int| 0 <= i < objs.len() ==> #[trigger] obj_wf(objs, objs[i])
}

/// The health invariant: in a well-formed world every actor's health lies
/// within the closed range from zero to one hundred. Every mutating action
/// of the engine ends in a well-formed world, so after any sequence of
/// attack and use actions health values remain in bounds and no
/// subtraction has wrapped around.
pub proof fn lemma_health_in_bounds(objs: Seq<ObjectV>, i: int)
    requires
        spec_wf(objs),
        0 <= i < objs.len(),
    ensures
        objs[i].health() <= 100,
{
    assert(obj_wf(objs, objs[i]));
}

/// A containment measure that strictly drops along every containment edge
/// of a well-formed world; its existence is what makes containment acyclic.
pub open spec fn containment_measure(o: ObjectV) -> int {
    match o {
        ObjectV::Location { .. } => 0,
        ObjectV::Player { .. } => 1,
        _ => 2,
    }
}

/// One containment edge of a well-formed world: the holder is in bounds and
/// its measure lies strictly below the measure of the held object.
pub proof fn lemma_edge_measure(objs: Seq<ObjectV>, i: int, j: usize)
    requires
        spec_wf(objs),
        0 <= i < objs.len(),
        objs[i].loc() == Some(j),
    ensures
        j < objs.len(),
        containment_measure(objs[j as int]) < containment_measure(objs[i]),
{
    assert(obj_wf(objs, objs[i]));
    if objs[j as int] is Location {
        assert(!(objs[i] is Location));
    } else {
        assert(j == LOC_PLAYER && objs[j as int] is Player);
        assert(!(objs[i] is Location));
        if objs[i] is Player {
            assert(i == LOC_PLAYER);
        }
    }
}

/// In a well-formed world no containment chain can return to its start:
/// whenever an object's location field names another object, the measure of
/// the holder is strictly below the measure of the held, so no object can
/// directly or transitively contain itself.
pub proof fn lemma_containment_acyclic(objs: Seq<ObjectV>)
    requires
        spec_wf(objs),
        objs.len() <= usize::MAX,
    ensures
        forall|i: int, j: usize|
            0 <= i < objs.len() && (#[trigger] objs[i].loc()) == Some(j) ==> containment_measure(
                #[trigger] objs[j as int],
            ) < containment_measure(objs[i]),
        forall|i: int|
            0 <= i < objs.len() ==> (#[trigger] objs[i].loc()) != Some(i as usize),
{
    assert forall|i: int, j: usize|
        0 <= i < objs.len() && (#[trigger] objs[i].loc()) == Some(j) implies containment_measure(
        #[trigger] objs[j as int],
    ) < containment_measure(objs[i]) by {
        lemma_edge_measure(objs, i, j);
    }
    assert forall|i: int|
        0 <= i < objs.len() implies (#[trigger] objs[i].loc()) != Some(i as usize) by {
        if objs[i].loc() == Some(i as usize) {
            lemma_edge_measure(objs, i, i as usize);
        }
    }
}

impl World {
    /// Whether `container` directly holds `object`. An absent object is
    /// held by nothing; an unplaced object is "held" by the absent
    /// container.
    pub fn is_containing(&self, container: Option<usize>, object: Option<usize>) -> (r: bool)
        requires
            object matches Some(a) ==> a < self@.len(),
        ensures
            r == spec_is_containing(self@, container, object),
    {
        match object {
            None => false,
            Some(a) => {
                let l = self.objects[a].loc();
                match (l, container) {
                    (None, None) => true,
                    (Some(x), Some(y)) => x == y,
                    _ => false,
                }
            },
        }
    }

    /// The first passage leading from `from` to `to`, if any.
    pub fn passage_index(&self, from: Option<usize>, to: Option<usize>) -> (r: Option<usize>)
        ensures
            r is Some <==> spec_passage_exists(self@, from, to),
            r matches Some(p) ==> {
                &&& p < self@.len()
                &&& spec_passage_at(self@, from->0, to->0, p as int)
                &&& forall|q: int| 0 <= q < p ==> !spec_passage_at(self@, from->0, to->0, q)
            },
    {
        if from.is_some() && to.is_some() {
            let f = from.unwrap();
            let t = to.unwrap();
            {
                let mut pos: usize = 0;
                while pos < self.objects.len()
                    invariant
                        pos <= self@.len(),
                        self@.len() == self.objects@.len(),
                        from == Some(f),
                        to == Some(t),
                        forall|q: int| 0 <= q < pos ==> !spec_passage_at(self@, f, t, q),
                    decreases self@.len() - pos,
                {
                    let ol = self.objects[pos].loc();
                    let od = self.objects[pos].destination();
                    let loc_match = match ol {
                        Some(l) => l == f,
                        None => false,
                    };
                    let dest_match = match od {
                        Some(d) => d == t,
                        None => false,
                    };
                    if loc_match && dest_match {
                        proof {
                            assert(self@[pos as int] == self.objects@[pos as int]@);
                            assert(self@[pos as int].loc() == Some(f));
                            assert(self@[pos as int].destination() == Some(t));
                            assert(spec_passage_at(self@, f, t, pos as int));
                            assert(spec_passage_exists(self@, from, to)) by {
                                assert((pos as int) < self@.len());
                                assert(spec_passage_at(self@, f, t, pos as int));
                            }
                        }
                        return Some(pos);
                    }
                    pos = pos + 1;
                }
                None
            }
        } else {
            None
        }
    }

    /// Classifies how `to` stands to `from`; see `spec_distance` for the
    /// priority order of the seven answers.
    pub fn get_distance(&self, from: Option<usize>, to: Option<usize>) -> (r: Distance)
        requires
            from matches Some(a) ==> a < self@.len(),
            to matches Some(a) ==> a < self@.len(),
        ensures
            r == spec_distance(self@, from, to),
    {
        let from_loc = match from {
            Some(a) => self.objects[a].loc(),
            None => None,
        };
        let to_is_from = match (to, from) {
            (Some(t), Some(f)) => t == f,
            (None, None) => true,
            _ => false,
        };
        if to.is_none() {
            Distance::Unknown
        } else if to_is_from {
            Distance::Player
        } else if self.is_containing(from, to) {
            Distance::Held
        } else if self.is_containing(to, from) {
            Distance::Location
        } else if from_loc.is_some() && self.is_containing(from_loc, to) {
            Distance::Here
        } else if self.passage_index(from_loc, to).is_some() {
            Distance::OverThere
        } else {
            Distance::NotHere
        }
    }

    /// Whether the object answers the noun, by case-folded name equality.
    pub fn object_with_label(&self, object: &Object, noun: &str) -> (r: bool)
        ensures
            r == (lower_seq(object@.name()) == lower_seq(noun@)),
    {
        eq_ignore_case(object.name_ref().as_str(), noun)
    }

    /// Resolves a noun to the index of an object within `max_distance` of
    /// `from`: absent without a match, the unique match, or `Ambiguous` as
    /// soon as two objects answer — distance breaks no ties.
    pub fn object_index(&self, noun: &str, from: Option<usize>, max_distance: Distance) -> (r:
        AmbiguousOption<usize>)
        requires
            from matches Some(a) ==> a < self@.len(),
        ensures
            r == spec_object_index(self@, noun@, from, max_distance),
    {
        let mut result: AmbiguousOption<usize> = AmbiguousOption::Absent;
        let mut pos: usize = 0;
        while pos < self.objects.len()
            invariant
                pos <= self@.len(),
                self@.len() == self.objects@.len(),
                from matches Some(a) ==> a < self@.len(),
                result == spec_object_index_upto(self@, noun@, from, max_distance, pos as int),
            decreases self@.len() - pos,
        {
            let name_match = self.object_with_label(&self.objects[pos], noun);
            let d = self.get_distance(from, Some(pos));
            if name_match && d.le(max_distance) {
                result = match result {
                    AmbiguousOption::Absent => AmbiguousOption::One(pos),
                    _ => AmbiguousOption::Ambiguous,
                };
            }
            pos = pos + 1;
        }
        result
    }

    /// Resolves a noun from the player's standpoint, at both the reachable
    /// and the out-of-reach thresholds, to a message and possibly an index:
    /// no match at all is an invalid command; a match only out of reach is
    /// reported as not seen here; an ambiguous noun asks for more detail;
    /// a unique reachable match yields its index with no message.
    pub fn object_visible(&self, noun: &String) -> (r: (String, Option<usize>))
        requires
            spec_wf(self@),
        ensures
            r.0@ == spec_object_visible(self@, noun@).0,
            r.1 == spec_object_visible(self@, noun@).1,
            r.1 matches Some(i) ==> (i as int) < self@.len() && spec_is_match(
                self@,
                noun@,
                Some(LOC_PLAYER),
                Distance::OverThere,
                i,
            ),
    {
        proof {
            lemma_object_index_counts(
                self@,
                noun@,
                Some(LOC_PLAYER),
                Distance::OverThere,
                self@.len() as int,
            );
        }
        let obj_over_there = self.object_index(noun.as_str(), Some(LOC_PLAYER), Distance::OverThere);
        let obj_not_here = self.object_index(noun.as_str(), Some(LOC_PLAYER), Distance::NotHere);

        match (obj_over_there, obj_not_here) {
            (AmbiguousOption::Absent, AmbiguousOption::Absent) => {
                (String::from_str("Invalid command!!"), None)
            },
            (AmbiguousOption::Absent, AmbiguousOption::One(_)) => (build_msg_dont_see(noun), None),
            (AmbiguousOption::Ambiguous, _) | (AmbiguousOption::Absent, AmbiguousOption::Ambiguous) => (
                build_msg_be_specific(noun),
                None,
            ),
            (AmbiguousOption::One(index), _) => (String::new(), Some(index)),
        }
    }
}

/// The kinds of object a location listing shows: items and enemies.
pub open spec fn listable(o: ObjectV) -> bool {
    o is Weapon || o is Consumable || o is Enemy
}

/// The descriptions, one per line, of the listable objects among the first
/// `upto` that sit in `location`.
pub open spec fn list_text_upto(objs: Seq<ObjectV>, location: usize, upto: int) -> Seq<char>
    decreases upto,
{
    if upto <= 0 {
        Seq::empty()
    } else {
        let prev = list_text_upto(objs, location, upto - 1);
        if listable(objs[upto - 1]) && spec_is_containing(
            objs,
            Some(location),
            Some((upto - 1) as usize),
        ) {
            prev + objs[upto - 1].description() + seq!['\n']
        } else {
            prev
        }
    }
}

/// How many listable objects among the first `upto` sit in `location`.
pub open spec fn list_count_upto(objs: Seq<ObjectV>, location: usize, upto: int) -> nat
    decreases upto,
{
    if upto <= 0 {
        0
    } else {
        list_count_upto(objs, location, upto - 1) + if listable(objs[upto - 1])
            && spec_is_containing(objs, Some(location), Some((upto - 1) as usize)) {
            1nat
        } else {
            0nat
        }
    }
}

proof fn lemma_list_count_le(objs: Seq<ObjectV>, location: usize, upto: int)
    requires
        upto >= 0,
    ensures
        list_count_upto(objs, location, upto) <= upto,
    decreases upto,
{
    if upto > 0 {
        lemma_list_count_le(objs, location, upto - 1);
    }
}

/// The full listing text shown for a location.
pub open spec fn spec_list_text(objs: Seq<ObjectV>, location: usize) -> Seq<char> {
    "\nYou see:\n"@ + list_text_upto(objs, location, objs.len() as int)
}

/// The number of entries in the full listing for a location.
pub open spec fn spec_list_count(objs: Seq<ObjectV>, location: usize) -> nat {
    list_count_upto(objs, location, objs.len() as int)
}

/// What looking around with an empty noun prints: the player's location
/// described, then the listing of what sits there.
pub open spec fn spec_look(objs: Seq<ObjectV>) -> Seq<char> {
    let ploc = objs[LOC_PLAYER as int].loc()->0;
    " You are in the "@ + objs[ploc as int].name() + "\n "@ + objs[ploc as int].description()
        + ".\n"@ + spec_list_text(objs, ploc)
}

/// Looking with an empty noun reads the world and nothing else: any two
/// results computed over the same world state are the very same text.
pub proof fn lemma_look_idempotent(objs: Seq<ObjectV>, r1: Seq<char>, r2: Seq<char>)
    requires
        r1 == spec_look(objs),
        r2 == spec_look(objs),
    ensures
        r1 == r2,
{
}

/// What the inventory command prints.
pub open spec fn spec_do_inventory(objs: Seq<ObjectV>) -> Seq<char> {
    if spec_list_count(objs, LOC_PLAYER) == 0 {
        "You currently do not have anything in your inventory.\n"@
    } else {
        spec_list_text(objs, LOC_PLAYER)
    }
}

/// The static help text.
pub open spec fn help_text() -> Seq<char> {
    "Available commands are\n\n        look\n\n        attack <enemy name>\n\n        go <location>\n\n        get <item name>\n\n        drop <item name>\n\n        inventory \n\n        map \n\n        quit\n\n        help\n"@
}

/// Some object's passage leads to `index`.
pub open spec fn spec_is_dest(objs: Seq<ObjectV>, index: usize) -> bool {
    exists|p: int| 0 <= p < objs.len() && (#[trigger] objs[p].destination()) == Some(index)
}

/// One line per reachable location, over the first `upto` indices.
pub open spec fn locations_text_upto(objs: Seq<ObjectV>, upto: int) -> Seq<char>
    decreases upto,
{
    if upto <= 0 {
        Seq::empty()
    } else {
        let prev = locations_text_upto(objs, upto - 1);
        if spec_is_dest(objs, (upto - 1) as usize) {
            prev + crate::text::dec_str(upto - 1) + ": "@ + objs[upto - 1].name() + seq!['\n']
        } else {
            prev
        }
    }
}

/// What the map command prints: every index some passage leads to, with the
/// name of the object there.
pub open spec fn spec_display_locations(objs: Seq<ObjectV>) -> Seq<char> {
    "Available locations:\n"@ + locations_text_upto(objs, objs.len() as int)
}

/// The player's health in the backing store is zero.
pub open spec fn spec_player_dead(objs: Seq<ObjectV>) -> bool {
    objs[LOC_PLAYER as int] matches ObjectV::Player { health, .. } && health == 0
}

/// Every well-known enemy slot that still holds an enemy holds a dead one.
pub open spec fn spec_all_enemies_dead(objs: Seq<ObjectV>) -> bool {
    &&& (objs[LOC_BEAR as int] matches ObjectV::Enemy { health, .. } ==> health == 0)
    &&& (objs[LOC_TROLL as int] matches ObjectV::Enemy { health, .. } ==> health == 0)
    &&& (objs[LOC_BANDITS as int] matches ObjectV::Enemy { health, .. } ==> health == 0)
}

/// The rebuff for a noun that resolves to nothing at all.
pub open spec fn msg_invalid_command() -> Seq<char> {
    "Invalid command!!"@
}

/// The rebuff, with a newline, for a command that makes no sense.
pub open spec fn msg_invalid_bang() -> Seq<char> {
    "Invalid command!!\n"@
}

/// What the two-threshold visibility check yields for a noun: a message
/// and, for a unique reachable match, the object's index.
pub open spec fn spec_object_visible(objs: Seq<ObjectV>, noun: Seq<char>) -> (Seq<char>, Option<
    usize,
>) {
    let over = spec_object_index(objs, noun, Some(LOC_PLAYER), Distance::OverThere);
    let not_here = spec_object_index(objs, noun, Some(LOC_PLAYER), Distance::NotHere);
    match (over, not_here) {
        (AmbiguousOption::Absent, AmbiguousOption::Absent) => (msg_invalid_command(), None),
        (AmbiguousOption::Absent, AmbiguousOption::One(_)) => (msg_dont_see(noun), None),
        (AmbiguousOption::Ambiguous, _) => (msg_be_specific(noun), None),
        (AmbiguousOption::Absent, AmbiguousOption::Ambiguous) => (msg_be_specific(noun), None),
        (AmbiguousOption::One(index), _) => (Seq::empty(), Some(index)),
    }
}

/// The destination field of the object `x` refers to, if any.
pub open spec fn dest_of(objs: Seq<ObjectV>, x: Option<usize>) -> Option<usize> {
    match x {
        Some(a) => objs[a as int].destination(),
        None => None,
    }
}

/// What moving an object is narrated as: dropped at the player's location,
/// put into some other place, picked up from the player's own location, or
/// fetched from wherever it was.
pub open spec fn spec_describe_move(
    objs: Seq<ObjectV>,
    obj_opt: Option<usize>,
    to: Option<usize>,
) -> Seq<char> {
    let obj_loc = loc_of(objs, obj_opt);
    let player_loc = objs[LOC_PLAYER as int].loc();
    if obj_opt is Some && to is Some && player_loc is Some && to->0 == player_loc->0 {
        "You have dropped "@ + objs[obj_opt->0 as int].name() + ".\n"@
    } else if obj_opt is Some && to is Some && to->0 != LOC_PLAYER {
        "You put "@ + objs[obj_opt->0 as int].name() + " in "@ + objs[to->0 as int].name() + ".\n"@
    } else if obj_opt is Some && obj_loc is Some && player_loc is Some && obj_loc->0
        == player_loc->0 {
        "You pick up the "@ + objs[obj_opt->0 as int].name() + ".\n"@
    } else if obj_opt is Some && obj_loc is Some {
        "You got "@ + objs[obj_opt->0 as int].name() + " from "@ + objs[obj_loc->0 as int].name()
            + ".\n"@
    } else {
        "Please you have to drop something.\n"@
    }
}

/// What moving an object does: nothing for an absent object, a rebuff for
/// an absent target or an unplaced object, otherwise the narration and the
/// world with the object's location rewritten.
pub open spec fn spec_move_object(
    objs: Seq<ObjectV>,
    obj_opt: Option<usize>,
    to: Option<usize>,
) -> (Seq<char>, Seq<ObjectV>) {
    if obj_opt is None {
        (Seq::empty(), objs)
    } else if to is None {
        ("No one is present here to give.\n"@, objs)
    } else if loc_of(objs, obj_opt) is None {
        ("You cannot get that!!\n"@, objs)
    } else {
        (
            spec_describe_move(objs, obj_opt, to),
            objs.update(obj_opt->0 as int, crate::object::with_loc(objs[obj_opt->0 as int], to->0)),
        )
    }
}

/// What consuming the item at `o` does: at full health nothing is
/// consumed; otherwise the player heals, clamped at full health, and the
/// item's location is cleared for good.
pub open spec fn spec_do_consume(objs: Seq<ObjectV>, o: usize) -> (Seq<char>, Seq<ObjectV>) {
    let heal = objs[o as int].heal_amount();
    let ph = objs[LOC_PLAYER as int].health();
    if ph == 100 {
        ("You are already at full health"@, objs)
    } else {
        let nh: u64 = if ph + heal > 100 {
            100
        } else {
            (ph + heal) as u64
        };
        let objs2 = objs.update(
            LOC_PLAYER as int,
            crate::object::with_health(objs[LOC_PLAYER as int], nh),
        ).update(o as int, crate::object::with_loc_none(objs[o as int]));
        (
            "You have consumed the item. Your health has increased to "@ + crate::text::dec_str(
                nh as int,
            ) + "\n"@,
            objs2,
        )
    }
}

/// What resolving a noun for a possession-taking command yields, given the
/// command's printed name: the original's arm order is kept, including the
/// rebuffs for an absent actor, an unmatched noun, a noun the actor is not
/// holding, the actor itself, and an ambiguous noun.
pub open spec fn spec_get_possession(
    objs: Seq<ObjectV>,
    from: Option<usize>,
    cmd: Seq<char>,
    noun: Seq<char>,
) -> (Seq<char>, Option<usize>) {
    let held = spec_object_index(objs, noun, from, Distance::Held);
    let not_here = spec_object_index(objs, noun, from, Distance::NotHere);
    if from is None {
        ("I don't understand what is needed "@ + cmd + ".\n"@, None)
    } else {
        match held {
            AmbiguousOption::Absent => {
                if not_here is Absent {
                    ("Please use correct command for: "@ + cmd + ".\n"@, None)
                } else if from->0 == LOC_PLAYER {
                    ("You are not holding any "@ + noun + ".\n"@, None)
                } else {
                    ("You don't see any "@ + noun + " here.\n"@, None)
                }
            },
            AmbiguousOption::One(o) => {
                if o == from->0 {
                    ("It is illegal to do this: "@ + objs[o as int].name() + ".\n"@, None)
                } else {
                    (Seq::empty(), Some(o))
                }
            },
            AmbiguousOption::Ambiguous => (
                "Please be more specific about which "@ + noun + " you want to "@ + cmd + ".\n"@,
                None,
            ),
        }
    }
}

/// What dropping a noun does: resolve it among what the player holds, then
/// move it to the player's location.
pub open spec fn spec_do_drop(objs: Seq<ObjectV>, noun: Seq<char>) -> (Seq<char>, Seq<ObjectV>) {
    let r1 = spec_get_possession(objs, Some(LOC_PLAYER), "drop"@, noun);
    let player_loc = objs[LOC_PLAYER as int].loc();
    let r2 = spec_move_object(objs, r1.1, player_loc);
    (r1.0 + r2.0, r2.1)
}

/// What getting a noun does, in the original's arm order: the actor itself
/// is refused; a held item is reported as already owned; an item merely
/// reachable is elsewhere; what is neither item nor consumable cannot be
/// taken; a consumable here is consumed on the spot; everything left is
/// moved into the inventory.
pub open spec fn spec_do_get(objs: Seq<ObjectV>, noun: Seq<char>) -> (Seq<char>, Seq<ObjectV>) {
    let rv = spec_object_visible(objs, noun);
    let output = rv.0;
    let obj_opt = rv.1;
    let item = obj_opt is Some && objs[obj_opt->0 as int].is_item();
    let cons = obj_opt is Some && objs[obj_opt->0 as int] is Consumable;
    let d = spec_distance(objs, Some(LOC_PLAYER), obj_opt);
    if d == Distance::Player {
        (output + "Invalid!! You cannot get that!!"@, objs)
    } else if d == Distance::Held && item {
        (output + "You already have: "@ + objs[obj_opt->0 as int].description() + ".\n"@, objs)
    } else if d == Distance::OverThere && item {
        (output + "The item is not here. Try elsewhere!!\n"@, objs)
    } else if d == Distance::OverThere && !item && !cons {
        (output + "You cannot get that!!\n"@, objs)
    } else if d == Distance::Here && !item && !cons {
        (output + "You cannot get that!!\n"@, objs)
    } else if d == Distance::Unknown && !item && !cons {
        (output, objs)
    } else if d == Distance::Here && item && cons {
        spec_do_consume(objs, obj_opt->0)
    } else {
        spec_move_object(objs, obj_opt, Some(LOC_PLAYER))
    }
}

/// What going somewhere does: a passage-reachable target moves the player
/// there and looks around; an out-of-range noun is not seen; an unresolved
/// noun keeps the resolver's message; anything nearer moves through the
/// object's destination link if it has one, else prints its description.
pub open spec fn spec_do_go(objs: Seq<ObjectV>, noun: Seq<char>) -> (Seq<char>, Seq<ObjectV>) {
    let rv = spec_object_visible(objs, noun);
    let output = rv.0;
    let obj_opt = rv.1;
    let d = spec_distance(objs, Some(LOC_PLAYER), obj_opt);
    if d == Distance::OverThere {
        let objs2 = objs.update(
            LOC_PLAYER as int,
            crate::object::with_loc(objs[LOC_PLAYER as int], obj_opt->0),
        );
        ("OK.\n"@ + spec_look(objs2), objs2)
    } else if d == Distance::NotHere {
        (msg_dont_see(noun), objs)
    } else if d == Distance::Unknown {
        (output, objs)
    } else {
        let dest = dest_of(objs, obj_opt);
        if dest is Some {
            let objs2 = objs.update(
                LOC_PLAYER as int,
                crate::object::with_loc(objs[LOC_PLAYER as int], dest->0),
            );
            ("OK.\n"@ + spec_look(objs2), objs2)
        } else if obj_opt is Some {
            (objs[obj_opt->0 as int].description(), objs)
        } else {
            (msg_invalid_bang(), objs)
        }
    }
}

/// The report for a noun whose object is out of reach.
pub open spec fn msg_dont_see(noun: Seq<char>) -> Seq<char> {
    "You don't see any '"@ + noun + "' here.\n"@
}

/// The request to disambiguate a noun several objects answer to.
pub open spec fn msg_be_specific(noun: Seq<char>) -> Seq<char> {
    "Please be more specific about which "@ + noun
        + " you mean. Try typing out the location.\n"@
}

/// The player's location scan, over the first `upto` objects: the first
/// index whose location field equals the player's.
pub open spec fn sph_upto(objs: Seq<ObjectV>, upto: int) -> Option<usize>
    decreases upto,
{
    if upto <= 0 {
        None
    } else {
        let prev = sph_upto(objs, upto - 1);
        if prev is Some {
            prev
        } else if objs[upto - 1].loc() == objs[LOC_PLAYER as int].loc() {
            Some((upto - 1) as usize)
        } else {
            None
        }
    }
}

/// The first object sharing the player's location field.
pub open spec fn spec_player_here(objs: Seq<ObjectV>) -> Option<usize> {
    sph_upto(objs, objs.len() as int)
}

proof fn lemma_sph_found(objs: Seq<ObjectV>, pos: int, upto: int)
    requires
        0 <= pos < upto,
        sph_upto(objs, pos) is None,
        objs[pos].loc() == objs[LOC_PLAYER as int].loc(),
    ensures
        sph_upto(objs, upto) == Some(pos as usize),
    decreases upto,
{
    if pos + 1 < upto {
        lemma_sph_found(objs, pos, upto - 1);
    }
}

impl World {
    /// Lists what sits in `location`: the description of each item or
    /// enemy there, one per line, together with how many there were.
    pub fn list_objects(&self, location: usize) -> (r: (String, u64))
        ensures
            r.0@ == spec_list_text(self@, location),
            r.1 == spec_list_count(self@, location),
    {
        let mut result = String::from_str("\nYou see:\n");
        let mut count: u64 = 0;
        let mut pos: usize = 0;
        while pos < self.objects.len()
            invariant
                pos <= self@.len(),
                self@.len() == self.objects@.len(),
                result@ == "\nYou see:\n"@ + list_text_upto(self@, location, pos as int),
                count == list_count_upto(self@, location, pos as int),
                count <= pos,
            decreases self@.len() - pos,
        {
            let is_listable = match &self.objects[pos] {
                Object::Weapon(_) => true,
                Object::Consumable(_) => true,
                Object::Enemy(_) => true,
                _ => false,
            };
            assert(is_listable == listable(self@[pos as int]));
            if is_listable && self.is_containing(Some(location), Some(pos)) {
                count = count + 1;
                result.append(self.objects[pos].description_ref().as_str());
                result.append("\n");
                proof {
                    reveal_strlit("\n");
                    assert("\n"@ =~= seq!['\n']);
                    assert(result@ =~= "\nYou see:\n"@ + list_text_upto(
                        self@,
                        location,
                        pos + 1,
                    ));
                }
            }
            pos = pos + 1;
        }
        (result, count)
    }

    /// Looking around: with an empty noun, describes the player's location
    /// and lists what sits there; any other noun is an invalid command.
    pub fn do_look(&self, noun: &str) -> (r: String)
        requires
            spec_wf(self@),
        ensures
            noun@.len() == 0 ==> r@ == spec_look(self@),
            noun@.len() > 0 ==> r@ == msg_invalid_bang(),
    {
        if noun.unicode_len() == 0 {
            proof {
                assert(obj_wf(self@, self@[LOC_PLAYER as int]));
            }
            let ploc = match &self.objects[LOC_PLAYER] {
                Object::Player(p) => p.location,
                _ => {
                    proof {
                        assert(false);
                    }
                    0
                },
            };
            let (list, _count) = self.list_objects(ploc);
            let mut r = String::from_str(" You are in the ");
            r.append(self.objects[ploc].name_ref().as_str());
            r.append("\n ");
            r.append(self.objects[ploc].description_ref().as_str());
            r.append(".\n");
            r.append(list.as_str());
            proof {
                assert(r@ =~= spec_look(self@));
            }
            r
        } else {
            String::from_str("Invalid command!!\n")
        }
    }

    /// The inventory: what the player holds, or a note that it is empty.
    pub fn do_inventory(&self) -> (r: String)
        ensures
            r@ == spec_do_inventory(self@),
    {
        let (list_string, count) = self.list_objects(LOC_PLAYER);
        if count == 0 {
            String::from_str("You currently do not have anything in your inventory.\n")
        } else {
            list_string
        }
    }

    /// The static command list.
    pub fn display_help(&self) -> (r: String)
        ensures
            r@ == help_text(),
    {
        String::from_str(
            "Available commands are\n\n        look\n\n        attack <enemy name>\n\n        go <location>\n\n        get <item name>\n\n        drop <item name>\n\n        inventory \n\n        map \n\n        quit\n\n        help\n",
        )
    }

    fn is_destination(&self, index: usize) -> (r: bool)
        ensures
            r == spec_is_dest(self@, index),
    {
        let mut p: usize = 0;
        while p < self.objects.len()
            invariant
                p <= self@.len(),
                self@.len() == self.objects@.len(),
                forall|q: int| 0 <= q < p ==> (#[trigger] self@[q].destination()) != Some(index),
            decreases self@.len() - p,
        {
            let d = self.objects[p].destination();
            let hit = match d {
                Some(x) => x == index,
                None => false,
            };
            if hit {
                assert(self@[p as int].destination() == Some(index));
                return true;
            }
            p = p + 1;
        }
        false
    }

    /// The map: every index a passage leads to, with the name found there.
    pub fn display_locations(&self) -> (r: String)
        ensures
            r@ == spec_display_locations(self@),
    {
        let mut result = String::from_str("Available locations:\n");
        let mut index: usize = 0;
        while index < self.objects.len()
            invariant
                index <= self@.len(),
                self@.len() == self.objects@.len(),
                result@ == "Available locations:\n"@ + locations_text_upto(self@, index as int),
            decreases self@.len() - index,
        {
            if self.is_destination(index) {
                let num = crate::text::usize_to_string(index);
                result.append(num.as_str());
                result.append(": ");
                result.append(self.objects[index].name_ref().as_str());
                result.append("\n");
                proof {
                    reveal_strlit("\n");
                    assert("\n"@ =~= seq!['\n']);
                    assert(result@ =~= "Available locations:\n"@ + locations_text_upto(
                        self@,
                        index + 1,
                    ));
                }
            }
            index = index + 1;
        }
        result
    }

    /// The first object whose location field equals the player's own.
    pub fn player_here(&self) -> (r: Option<usize>)
        requires
            spec_wf(self@),
        ensures
            r == spec_player_here(self@),
    {
        let player_loc = self.objects[LOC_PLAYER].loc();
        let mut pos: usize = 0;
        while pos < self.objects.len()
            invariant
                pos <= self@.len(),
                self@.len() == self.objects@.len(),
                LOC_PLAYER < self@.len(),
                player_loc == self@[LOC_PLAYER as int].loc(),
                sph_upto(self@, pos as int) is None,
            decreases self@.len() - pos,
        {
            let ol = self.objects[pos].loc();
            let hit = match (ol, player_loc) {
                (Some(x), Some(y)) => x == y,
                (None, None) => true,
                _ => false,
            };
            if hit {
                proof {
                    lemma_sph_found(self@, pos as int, self@.len() as int);
                }
                return Some(pos);
            }
            pos = pos + 1;
        }
        None
    }

    /// Whether the session has ended: the player is dead, or every
    /// well-known enemy is.
    pub fn game_over(&self) -> (r: bool)
        requires
            spec_wf(self@),
            LOC_BANDITS < self@.len(),
        ensures
            r == (spec_player_dead(self@) || spec_all_enemies_dead(self@)),
    {
        let player_dead = match &self.objects[LOC_PLAYER] {
            Object::Player(p) => p.health == 0,
            _ => {
                proof {
                    assert(false);
                }
                false
            },
        };
        player_dead || self.victory()
    }

    /// Whether every well-known enemy slot holds a dead enemy; the win
    /// condition of the session.
    pub fn victory(&self) -> (r: bool)
        requires
            LOC_BANDITS < self@.len(),
        ensures
            r == spec_all_enemies_dead(self@),
    {
        let bear = match &self.objects[LOC_BEAR] {
            Object::Enemy(e) => e.health == 0,
            _ => true,
        };
        let troll = match &self.objects[LOC_TROLL] {
            Object::Enemy(e) => e.health == 0,
            _ => true,
        };
        let bandits = match &self.objects[LOC_BANDITS] {
            Object::Enemy(e) => e.health == 0,
            _ => true,
        };
        bear && troll && bandits
    }
}

impl World {
    /// Narrates a move; see `spec_describe_move` for the four phrasings.
    pub fn describe_move(&self, obj_opt: Option<usize>, to: Option<usize>) -> (r: String)
        requires
            spec_wf(self@),
            obj_opt matches Some(o) ==> (o as int) < self@.len(),
            to matches Some(t) ==> (t as int) < self@.len(),
        ensures
            r@ == spec_describe_move(self@, obj_opt, to),
    {
        proof {
            if obj_opt is Some {
                assert(obj_wf(self@, self@[obj_opt->0 as int]));
            }
            assert(obj_wf(self@, self@[LOC_PLAYER as int]));
        }
        let obj_loc = match obj_opt {
            Some(a) => self.objects[a].loc(),
            None => None,
        };
        let player_loc = self.objects[LOC_PLAYER].loc();
        if obj_opt.is_some() && to.is_some() && player_loc.is_some() && to.unwrap()
            == player_loc.unwrap() {
            let mut r = String::from_str("You have dropped ");
            r.append(self.objects[obj_opt.unwrap()].name_ref().as_str());
            r.append(".\n");
            r
        } else if obj_opt.is_some() && to.is_some() && to.unwrap() != LOC_PLAYER {
            let mut r = String::from_str("You put ");
            r.append(self.objects[obj_opt.unwrap()].name_ref().as_str());
            r.append(" in ");
            r.append(self.objects[to.unwrap()].name_ref().as_str());
            r.append(".\n");
            r
        } else if obj_opt.is_some() && obj_loc.is_some() && player_loc.is_some()
            && obj_loc.unwrap() == player_loc.unwrap() {
            let mut r = String::from_str("You pick up the ");
            r.append(self.objects[obj_opt.unwrap()].name_ref().as_str());
            r.append(".\n");
            r
        } else if obj_opt.is_some() && obj_loc.is_some() {
            let mut r = String::from_str("You got ");
            r.append(self.objects[obj_opt.unwrap()].name_ref().as_str());
            r.append(" from ");
            r.append(self.objects[obj_loc.unwrap()].name_ref().as_str());
            r.append(".\n");
            r
        } else {
            String::from_str("Please you have to drop something.\n")
        }
    }

    /// Moves an object to `to`, narrating the move; an absent object, an
    /// absent target or an unplaced object changes nothing.
    pub fn move_object(&mut self, obj_opt: Option<usize>, to: Option<usize>) -> (r: String)
        requires
            spec_wf(old(self)@),
            obj_opt matches Some(o) ==> (o as int) < old(self)@.len(),
            to matches Some(t) ==> (t as int) < old(self)@.len() && (old(self)@[t as int]
                is Location || t == LOC_PLAYER),
            (obj_opt matches Some(o) && to is Some && (old(self)@[o as int] is Player || old(
                self,
            )@[o as int] is Enemy || old(self)@[o as int] is Passage)) ==> old(
                self,
            )@[to->0 as int] is Location,
        ensures
            r@ == spec_move_object(old(self)@, obj_opt, to).0,
            final(self)@ == spec_move_object(old(self)@, obj_opt, to).1,
            spec_wf(final(self)@),
    {
        let ghost objs0 = self@;
        let obj_loc = match obj_opt {
            Some(a) => self.objects[a].loc(),
            None => None,
        };
        match (obj_opt, obj_loc, to) {
            (None, _, _) => String::new(),
            (Some(_), _, None) => String::from_str("No one is present here to give.\n"),
            (Some(_), None, Some(_)) => String::from_str("You cannot get that!!\n"),
            (Some(_), Some(_), Some(_)) => {
                let obj_idx = obj_opt.unwrap();
                let to_idx = to.unwrap();
                let output = self.describe_move(obj_opt, to);
                self.objects[obj_idx].set_loc(to_idx);
                proof {
                    assert(self@ =~= objs0.update(
                        obj_idx as int,
                        crate::object::with_loc(objs0[obj_idx as int], to_idx),
                    ));
                    assert(spec_wf(self@)) by {
                        lemma_wf_after_move(objs0, obj_idx, to_idx);
                    }
                }
                output
            },
        }
    }

    /// Consumes the item at `object`: heals the player, clamped at full
    /// health, and takes the item out of play; at full health nothing
    /// happens.
    pub fn do_consume(&mut self, object: Option<usize>) -> (r: String)
        requires
            spec_wf(old(self)@),
            object matches Some(o) ==> (o as int) < old(self)@.len() && old(self)@[o as int]
                is Consumable,
            object is Some,
        ensures
            r@ == spec_do_consume(old(self)@, object->0).0,
            final(self)@ == spec_do_consume(old(self)@, object->0).1,
            spec_wf(final(self)@),
    {
        let ghost objs0 = self@;
        let o = object.unwrap();
        let heal = match &self.objects[o] {
            Object::Consumable(c) => c.heal_amount,
            _ => {
                proof {
                    assert(false);
                }
                0
            },
        };
        proof {
            assert(obj_wf(self@, self@[LOC_PLAYER as int]));
        }
        let ph = match &self.objects[LOC_PLAYER] {
            Object::Player(p) => p.health,
            _ => {
                proof {
                    assert(false);
                }
                0
            },
        };
        if ph == 100 {
            String::from_str("You are already at full health")
        } else {
            let nh: u64 = if heal > 100 - ph {
                100
            } else {
                ph + heal
            };
            self.objects[LOC_PLAYER].set_health(nh);
            self.objects[o].clear_loc();
            proof {
                assert(self@ =~= objs0.update(
                    LOC_PLAYER as int,
                    crate::object::with_health(objs0[LOC_PLAYER as int], nh),
                ).update(o as int, crate::object::with_loc_none(objs0[o as int])));
                assert(spec_wf(self@)) by {
                    lemma_wf_after_consume(objs0, o, nh);
                }
            }
            let mut out = String::from_str(
                "You have consumed the item. Your health has increased to ",
            );
            let num = crate::text::u64_to_string(nh);
            out.append(num.as_str());
            out.append("\n");
            out
        }
    }

    /// Resolves a noun for a possession-taking command; the world is not
    /// changed. See `spec_get_possession` for the arm order.
    pub fn get_possession(&mut self, from: Option<usize>, command: Command, noun: &String) -> (r: (
        String,
        Option<usize>,
    ))
        requires
            spec_wf(old(self)@),
            from matches Some(a) ==> (a as int) < old(self)@.len(),
        ensures
            final(self)@ == old(self)@,
            r.0@ == spec_get_possession(
                old(self)@,
                from,
                crate::command::spec_command_name(command@),
                noun@,
            ).0,
            r.1 == spec_get_possession(
                old(self)@,
                from,
                crate::command::spec_command_name(command@),
                noun@,
            ).1,
            r.1 matches Some(o) ==> (o as int) < final(self)@.len(),
    {
        proof {
            lemma_object_index_counts(self@, noun@, from, Distance::Held, self@.len() as int);
        }
        let object_held = self.object_index(noun.as_str(), from, Distance::Held);
        let object_not_here = self.object_index(noun.as_str(), from, Distance::NotHere);
        let cmd_name = command.name();

        if from.is_none() {
            let mut r = String::from_str("I don't understand what is needed ");
            r.append(cmd_name.as_str());
            r.append(".\n");
            (r, None)
        } else {
            match object_held {
                AmbiguousOption::Absent => {
                    if matches!(object_not_here, AmbiguousOption::Absent) {
                        let mut r = String::from_str("Please use correct command for: ");
                        r.append(cmd_name.as_str());
                        r.append(".\n");
                        (r, None)
                    } else if from.unwrap() == LOC_PLAYER {
                        let mut r = String::from_str("You are not holding any ");
                        r.append(noun.as_str());
                        r.append(".\n");
                        (r, None)
                    } else {
                        let mut r = String::from_str("You don't see any ");
                        r.append(noun.as_str());
                        r.append(" here.\n");
                        (r, None)
                    }
                },
                AmbiguousOption::One(o) => {
                    if o == from.unwrap() {
                        let mut r = String::from_str("It is illegal to do this: ");
                        r.append(self.objects[o].name_ref().as_str());
                        r.append(".\n");
                        (r, None)
                    } else {
                        (String::new(), Some(o))
                    }
                },
                AmbiguousOption::Ambiguous => {
                    let mut r = String::from_str("Please be more specific about which ");
                    r.append(noun.as_str());
                    r.append(" you want to ");
                    r.append(cmd_name.as_str());
                    r.append(".\n");
                    (r, None)
                },
            }
        }
    }

    /// Drops a noun the player holds at the player's location.
    pub fn do_drop(&mut self, noun: &String) -> (r: String)
        requires
            spec_wf(old(self)@),
        ensures
            r@ == spec_do_drop(old(self)@, noun@).0,
            final(self)@ == spec_do_drop(old(self)@, noun@).1,
            spec_wf(final(self)@),
    {
        let (mut output, object_index) = self.get_possession(
            Some(LOC_PLAYER),
            Command::Drop(String::from_str("drop")),
            noun,
        );
        proof {
            assert(obj_wf(self@, self@[LOC_PLAYER as int]));
        }
        let player_loc = self.objects[LOC_PLAYER].loc();
        let moved = self.move_object(object_index, player_loc);
        output.append(moved.as_str());
        output
    }
}

impl World {
    /// Gets a noun: see `spec_do_get` for the full case order.
    pub fn do_get(&mut self, noun: &String) -> (r: String)
        requires
            spec_wf(old(self)@),
        ensures
            r@ == spec_do_get(old(self)@, noun@).0,
            final(self)@ == spec_do_get(old(self)@, noun@).1,
            spec_wf(final(self)@),
    {
        let ghost objs0 = self@;
        let (output, obj_opt) = self.object_visible(noun);
        let obj_item = match obj_opt {
            Some(a) => self.objects[a].is_item(),
            None => false,
        };
        let player_to_obj = self.get_distance(Some(LOC_PLAYER), obj_opt);
        let obj_consumable = match obj_opt {
            Some(a) => self.objects[a].is_consumable(),
            None => false,
        };

        if player_to_obj == Distance::Player {
            let mut out = output;
            out.append("Invalid!! You cannot get that!!");
            out
        } else if player_to_obj == Distance::Held && obj_item {
            let mut out = output;
            out.append("You already have: ");
            out.append(self.objects[obj_opt.unwrap()].description_ref().as_str());
            out.append(".\n");
            out
        } else if player_to_obj == Distance::OverThere && obj_item {
            let mut out = output;
            out.append("The item is not here. Try elsewhere!!\n");
            out
        } else if player_to_obj == Distance::OverThere && !obj_item && !obj_consumable {
            let mut out = output;
            out.append("You cannot get that!!\n");
            out
        } else if player_to_obj == Distance::Here && !obj_item && !obj_consumable {
            let mut out = output;
            out.append("You cannot get that!!\n");
            out
        } else if player_to_obj == Distance::Unknown && !obj_item && !obj_consumable {
            output
        } else if player_to_obj == Distance::Here && obj_item && obj_consumable {
            self.do_consume(obj_opt)
        } else {
            proof {
                assert(obj_wf(objs0, objs0[LOC_PLAYER as int]));
                if obj_opt is Some {
                    let oi = obj_opt->0 as int;
                    assert(obj_wf(objs0, objs0[oi]));
                    if objs0[oi] is Player {
                        assert(oi == LOC_PLAYER as int);
                        assert(spec_distance(objs0, Some(LOC_PLAYER), obj_opt)
                            == Distance::Player);
                    }
                }
            }
            self.move_object(obj_opt, Some(LOC_PLAYER))
        }
    }

    /// Goes somewhere: see `spec_do_go` for the full case order.
    pub fn do_go(&mut self, noun: &String) -> (r: String)
        requires
            spec_wf(old(self)@),
        ensures
            r@ == spec_do_go(old(self)@, noun@).0,
            final(self)@ == spec_do_go(old(self)@, noun@).1,
            spec_wf(final(self)@),
    {
        let ghost objs0 = self@;
        let (output, obj_opt) = self.object_visible(noun);
        let d = self.get_distance(Some(LOC_PLAYER), obj_opt);
        if d == Distance::OverThere {
            let i = obj_opt.unwrap();
            proof {
                let f = loc_of(objs0, Some(LOC_PLAYER));
                assert(spec_passage_exists(objs0, f, Some(i)));
                let p = choose|p: int|
                    0 <= p < objs0.len() && #[trigger] spec_passage_at(objs0, f->0, i, p);
                assert(obj_wf(objs0, objs0[p]));
                assert(objs0[i as int] is Location);
            }
            self.objects[LOC_PLAYER].set_loc(i);
            proof {
                assert(self@ =~= objs0.update(
                    LOC_PLAYER as int,
                    crate::object::with_loc(objs0[LOC_PLAYER as int], i),
                ));
                lemma_wf_after_move(objs0, LOC_PLAYER, i);
            }
            let mut out = String::from_str("OK.\n");
            proof {
                reveal_strlit("");
            }
            let look = self.do_look("");
            out.append(look.as_str());
            out
        } else if d == Distance::NotHere {
            build_msg_dont_see(noun)
        } else if d == Distance::Unknown {
            output
        } else {
            let obj_dist = match obj_opt {
                Some(a) => self.objects[a].destination(),
                None => None,
            };
            if obj_dist.is_some() {
                let dd = obj_dist.unwrap();
                proof {
                    assert(obj_wf(objs0, objs0[obj_opt->0 as int]));
                    assert(objs0[dd as int] is Location);
                }
                self.objects[LOC_PLAYER].set_loc(dd);
                proof {
                    assert(self@ =~= objs0.update(
                        LOC_PLAYER as int,
                        crate::object::with_loc(objs0[LOC_PLAYER as int], dd),
                    ));
                    lemma_wf_after_move(objs0, LOC_PLAYER, dd);
                }
                let mut out = String::from_str("OK.\n");
                proof {
                    reveal_strlit("");
                }
                let look = self.do_look("");
                out.append(look.as_str());
                out
            } else if obj_opt.is_some() {
                String::from_str(self.objects[obj_opt.unwrap()].description_ref().as_str())
            } else {
                String::from_str("Invalid command!!\n")
            }
        }
    }
}

proof fn lemma_wf_after_move(objs: Seq<ObjectV>, o: usize, t: usize)
    requires
        spec_wf(objs),
        (o as int) < objs.len(),
        (t as int) < objs.len(),
        objs[t as int] is Location || t == LOC_PLAYER,
        (objs[o as int] is Player || objs[o as int] is Enemy || objs[o as int] is Passage)
            ==> objs[t as int] is Location,
    ensures
        spec_wf(objs.update(o as int, crate::object::with_loc(objs[o as int], t))),
{
    let oo = o as int;
    let moved = crate::object::with_loc(objs[oo], t);
    let objs2 = objs.update(oo, moved);
    assert(moved is Location == objs[oo] is Location);
    assert(moved is Player == objs[oo] is Player);
    assert(moved is Enemy == objs[oo] is Enemy);
    assert(moved is Weapon == objs[oo] is Weapon);
    assert(moved is Consumable == objs[oo] is Consumable);
    assert(moved is Passage == objs[oo] is Passage);
    assert(objs2[LOC_PLAYER as int] is Player) by {
        if o == LOC_PLAYER {
            assert(objs[oo] is Player);
        }
    }
    assert forall|i: int| 0 <= i < objs2.len() implies (objs2[i] is Player
        ==> i == LOC_PLAYER) by {
        if i != oo {
            assert(objs2[i] == objs[i]);
        }
    }
    assert forall|i: int| 0 <= i < objs2.len() implies #[trigger] obj_wf(objs2, objs2[i]) by {
        assert(obj_wf(objs, objs[i]));
        assert(obj_wf(objs, objs[oo]));
        // an index keeps its variant across the update, so every location
        // field that was valid stays valid
        assert forall|l: int| 0 <= l < objs.len() implies (objs2[l] is Location == objs[l]
            is Location) by {
            if l != oo {
                assert(objs2[l] == objs[l]);
            }
        }
        if i == oo {
            if t == LOC_PLAYER {
                assert(!(objs[oo] is Player) && !(objs[oo] is Enemy) && !(objs[oo] is Passage));
            } else {
                assert(objs2[t as int] is Location);
            }
        } else {
            assert(objs2[i] == objs[i]);
        }
    }
}

proof fn lemma_wf_after_consume(objs: Seq<ObjectV>, o: usize, nh: u64)
    requires
        spec_wf(objs),
        (o as int) < objs.len(),
        objs[o as int] is Consumable,
        nh <= 100,
    ensures
        spec_wf(
            objs.update(
                LOC_PLAYER as int,
                crate::object::with_health(objs[LOC_PLAYER as int], nh),
            ).update(o as int, crate::object::with_loc_none(objs[o as int])),
        ),
{
    let objs2 = objs.update(
        LOC_PLAYER as int,
        crate::object::with_health(objs[LOC_PLAYER as int], nh),
    ).update(o as int, crate::object::with_loc_none(objs[o as int]));
    assert forall|i: int| 0 <= i < objs2.len() implies (objs2[i] is Player
        ==> i == LOC_PLAYER) by {
        if i != o as int && i != LOC_PLAYER as int {
            assert(objs2[i] == objs[i]);
        }
    }
    assert forall|i: int| 0 <= i < objs2.len() implies #[trigger] obj_wf(objs2, objs2[i]) by {
        assert(obj_wf(objs, objs[i]));
    }
}

/// The default world's object sequence: six places, the player in the
/// forest, three enemies, four weapons and two consumables, at the
/// well-known indices.
pub open spec fn spec_default_world() -> Seq<ObjectV> {
    seq![
        ObjectV::Location { name: "Forest"@, description: "Look out for tree people."@ },
        ObjectV::Location { name: "Dungeons"@, description: "Be aware of trolls."@ },
        ObjectV::Location {
            name: "Cave"@,
            description: "Watch out for bats and look out for light."@,
        },
        ObjectV::Location {
            name: "Tavern"@,
            description: "The tavern is empty. But the fire is still burning in the fireplace."@,
        },
        ObjectV::Location {
            name: "Village"@,
            description: "An abandoned village. It has been ransacked by a group of bandits."@,
        },
        ObjectV::Location {
            name: "StrongHold"@,
            description: "A stronghold. It is heavily guarded by a group of bandits."@,
        },
        ObjectV::Player { name: "Master of None"@, location: 0, health: 100 },
        ObjectV::Enemy {
            name: "Bear"@,
            description: "A bear"@,
            health: 100,
            attack: 20,
            location: LOC_CAVE,
        },
        ObjectV::Enemy {
            name: "Troll"@,
            description: "A troll"@,
            health: 100,
            attack: 20,
            location: LOC_DUNGEONS,
        },
        ObjectV::Enemy {
            name: "Bandits"@,
            description: "A group of bandits"@,
            health: 100,
            attack: 30,
            location: LOC_STRONGHOLD,
        },
        ObjectV::Weapon {
            name: "Sword"@,
            description: "A rusty sword"@,
            location: Some(LOC_DUNGEONS),
            attack_points: 20,
        },
        ObjectV::Weapon {
            name: "Bow"@,
            description: "A bow"@,
            location: Some(LOC_TAVERN),
            attack_points: 10,
        },
        ObjectV::Weapon {
            name: "Bones"@,
            description: "Bones of an animal"@,
            location: Some(LOC_CAVE),
            attack_points: 5,
        },
        ObjectV::Weapon {
            name: "Spear"@,
            description: "A spear"@,
            location: Some(LOC_VILLAGE),
            attack_points: 25,
        },
        ObjectV::Consumable {
            name: "Apple"@,
            description: "An apple"@,
            heal_amount: 10,
            location: Some(LOC_TAVERN),
        },
        ObjectV::Consumable {
            name: "Potion"@,
            description: "A vial of healing potion (Get it to increase health)  (Hint: Type <get potion> to consume it)"@,
            heal_amount: 20,
            location: Some(LOC_VILLAGE),
        },
    ]
}

impl World {
    /// The built-in default world.
    pub fn new() -> (r: World)
        ensures
            r@ == spec_default_world(),
            spec_wf(r@),
            r@.len() == 16,
    {
        let mut objects: Vec<Object> = Vec::new();
        objects.push(
            Object::Location(
                crate::object::Location {
                    name: String::from_str("Forest"),
                    description: String::from_str("Look out for tree people."),
                },
            ),
        );
        objects.push(
            Object::Location(
                crate::object::Location {
                    name: String::from_str("Dungeons"),
                    description: String::from_str("Be aware of trolls."),
                },
            ),
        );
        objects.push(
            Object::Location(
                crate::object::Location {
                    name: String::from_str("Cave"),
                    description: String::from_str("Watch out for bats and look out for light."),
                },
            ),
        );
        objects.push(
            Object::Location(
                crate::object::Location {
                    name: String::from_str("Tavern"),
                    description: String::from_str(
                        "The tavern is empty. But the fire is still burning in the fireplace.",
                    ),
                },
            ),
        );
        objects.push(
            Object::Location(
                crate::object::Location {
                    name: String::from_str("Village"),
                    description: String::from_str(
                        "An abandoned village. It has been ransacked by a group of bandits.",
                    ),
                },
            ),
        );
        objects.push(
            Object::Location(
                crate::object::Location {
                    name: String::from_str("StrongHold"),
                    description: String::from_str(
                        "A stronghold. It is heavily guarded by a group of bandits.",
                    ),
                },
            ),
        );
        objects.push(
            Object::Player(crate::object::Player::new(String::from_str("Master of None"))),
        );
        objects.push(
            Object::Enemy(
                crate::object::Enemy::new(
                    String::from_str("Bear"),
                    String::from_str("A bear"),
                    20,
                    LOC_CAVE,
                ),
            ),
        );
        objects.push(
            Object::Enemy(
                crate::object::Enemy::new(
                    String::from_str("Troll"),
                    String::from_str("A troll"),
                    20,
                    LOC_DUNGEONS,
                ),
            ),
        );
        objects.push(
            Object::Enemy(
                crate::object::Enemy::new(
                    String::from_str("Bandits"),
                    String::from_str("A group of bandits"),
                    30,
                    LOC_STRONGHOLD,
                ),
            ),
        );
        objects.push(
            Object::Weapon(
                crate::object::Weapon::new(
                    String::from_str("Sword"),
                    String::from_str("A rusty sword"),
                    LOC_DUNGEONS,
                    20,
                ),
            ),
        );
        objects.push(
            Object::Weapon(
                crate::object::Weapon::new(
                    String::from_str("Bow"),
                    String::from_str("A bow"),
                    LOC_TAVERN,
                    10,
                ),
            ),
        );
        objects.push(
            Object::Weapon(
                crate::object::Weapon::new(
                    String::from_str("Bones"),
                    String::from_str("Bones of an animal"),
                    LOC_CAVE,
                    5,
                ),
            ),
        );
        objects.push(
            Object::Weapon(
                crate::object::Weapon::new(
                    String::from_str("Spear"),
                    String::from_str("A spear"),
                    LOC_VILLAGE,
                    25,
                ),
            ),
        );
        objects.push(
            Object::Consumable(
                crate::object::Consumable::new(
                    String::from_str("Apple"),
                    String::from_str("An apple"),
                    10,
                    LOC_TAVERN,
                ),
            ),
        );
        objects.push(
            Object::Consumable(
                crate::object::Consumable::new(
                    String::from_str("Potion"),
                    String::from_str(
                        "A vial of healing potion (Get it to increase health)  (Hint: Type <get potion> to consume it)",
                    ),
                    20,
                    LOC_VILLAGE,
                ),
            ),
        );
        let w = World { objects };
        proof {
            assert(w@ =~= spec_default_world());
            assert(spec_wf(w@)) by {
                lemma_default_world_wf();
            }
        }
        w
    }

    /// Whether this world satisfies the well-formedness invariant; a world
    /// loaded from outside is checked with this before play begins.
    pub fn check_wf(&self) -> (r: bool)
        ensures
            r == spec_wf(self@),
    {
        if self.objects.len() <= LOC_PLAYER {
            return false;
        }
        let player_ok = match &self.objects[LOC_PLAYER] {
            Object::Player(_) => true,
            _ => false,
        };
        if !player_ok {
            return false;
        }
        let mut i: usize = 0;
        while i < self.objects.len()
            invariant
                i <= self@.len(),
                self@.len() == self.objects@.len(),
                LOC_PLAYER < self@.len(),
                self@[LOC_PLAYER as int] is Player,
                forall|j: int| 0 <= j < i ==> (self@[j] is Player ==> j == LOC_PLAYER),
                forall|j: int| 0 <= j < i ==> #[trigger] obj_wf(self@, self@[j]),
            decreases self@.len() - i,
        {
            let ok = self.check_obj_wf(i);
            if !ok {
                return false;
            }
            i = i + 1;
        }
        true
    }

    fn check_obj_wf(&self, i: usize) -> (r: bool)
        requires
            (i as int) < self@.len(),
            LOC_PLAYER < self@.len(),
            self@[LOC_PLAYER as int] is Player,
        ensures
            r == (obj_wf(self@, self@[i as int]) && (self@[i as int] is Player ==> i
                == LOC_PLAYER)),
    {
        let n = self.objects.len();
        match &self.objects[i] {
            Object::Location(_) => true,
            Object::Player(p) => {
                if i != LOC_PLAYER {
                    return false;
                }
                p.location < n && matches!(&self.objects[p.location], Object::Location(_))
                    && p.health <= 100
            },
            Object::Enemy(e) => {
                e.location < n && matches!(&self.objects[e.location], Object::Location(_))
                    && e.health <= 100 && e.attack >= 1
            },
            Object::Weapon(w) => {
                match w.location {
                    Some(l) => l < n && (matches!(&self.objects[l], Object::Location(_)) || l
                        == LOC_PLAYER),
                    None => true,
                }
            },
            Object::Consumable(c) => {
                match c.location {
                    Some(l) => l < n && (matches!(&self.objects[l], Object::Location(_)) || l
                        == LOC_PLAYER),
                    None => true,
                }
            },
            Object::Passage(p) => {
                let loc_ok = match p.location {
                    Some(l) => l < n && matches!(&self.objects[l], Object::Location(_)),
                    None => true,
                };
                let dest_ok = match p.destination {
                    Some(d) => d < n && matches!(&self.objects[d], Object::Location(_)),
                    None => true,
                };
                loc_ok && dest_ok
            },
        }
    }
}

/// The default world is well formed.
pub proof fn lemma_default_world_wf()
    ensures
        spec_wf(spec_default_world()),
{
    let objs = spec_default_world();
    assert forall|i: int| 0 <= i < objs.len() implies (objs[i] is Player ==> i == LOC_PLAYER)
        && #[trigger] obj_wf(objs, objs[i]) by {
        if i < 6 {
            assert(objs[i] is Location);
        } else if i == 6 {
            assert(obj_wf(objs, objs[6]));
        } else {
            assert(obj_wf(objs, objs[i]));
        }
    }
}

impl Default for World {
    /// The default world, as `new` builds it.
    fn default() -> (r: Self)
        ensures
            r@ == spec_default_world(),
    {
        World::new()
    }
}

fn build_msg_dont_see(noun: &String) -> (r: String)
    ensures
        r@ == msg_dont_see(noun@),
{
    let mut r = String::from_str("You don't see any '");
    r.append(noun.as_str());
    r.append("' here.\n");
    r
}

fn build_msg_be_specific(noun: &String) -> (r: String)
    ensures
        r@ == msg_be_specific(noun@),
{
    let mut r = String::from_str("Please be more specific about which ");
    r.append(noun.as_str());
    r.append(" you mean. Try typing out the location.\n");
    r
}

/// The object at `pos` answers `noun` from the standpoint of `from` within
/// `maxd`: its name equals the noun once both are case-folded, and its
/// distance does not exceed the bound.
pub open spec fn spec_is_match(
    objs: Seq<ObjectV>,
    noun: Seq<char>,
    from: Option<usize>,
    maxd: Distance,
    pos: usize,
) -> bool {
    &&& lower_seq(objs[pos as int].name()) == lower_seq(noun)
    &&& spec_distance(objs, from, Some(pos)).rank() <= maxd.rank()
}

/// The noun resolution over the first `upto` objects: absent without a
/// match, the unique match if there is exactly one, ambiguous from the
/// second match on.
pub open spec fn spec_object_index_upto(
    objs: Seq<ObjectV>,
    noun: Seq<char>,
    from: Option<usize>,
    maxd: Distance,
    upto: int,
) -> AmbiguousOption<usize>
    decreases upto,
{
    if upto <= 0 {
        AmbiguousOption::Absent
    } else {
        let prev = spec_object_index_upto(objs, noun, from, maxd, upto - 1);
        if spec_is_match(objs, noun, from, maxd, (upto - 1) as usize) {
            match prev {
                AmbiguousOption::Absent => AmbiguousOption::One((upto - 1) as usize),
                _ => AmbiguousOption::Ambiguous,
            }
        } else {
            prev
        }
    }
}

/// The noun resolution over the whole world.
pub open spec fn spec_object_index(
    objs: Seq<ObjectV>,
    noun: Seq<char>,
    from: Option<usize>,
    maxd: Distance,
) -> AmbiguousOption<usize> {
    spec_object_index_upto(objs, noun, from, maxd, objs.len() as int)
}

/// How many of the first `upto` objects answer the noun within the bound.
pub open spec fn match_count(
    objs: Seq<ObjectV>,
    noun: Seq<char>,
    from: Option<usize>,
    maxd: Distance,
    upto: int,
) -> nat
    decreases upto,
{
    if upto <= 0 {
        0
    } else {
        match_count(objs, noun, from, maxd, upto - 1) + if spec_is_match(
            objs,
            noun,
            from,
            maxd,
            (upto - 1) as usize,
        ) {
            1nat
        } else {
            0nat
        }
    }
}

/// The resolution and the count agree: no match gives `None`, exactly one
/// gives `Some` of a matching index, two or more give `Ambiguous`.
pub proof fn lemma_object_index_counts(
    objs: Seq<ObjectV>,
    noun: Seq<char>,
    from: Option<usize>,
    maxd: Distance,
    upto: int,
)
    ensures
        spec_object_index_upto(objs, noun, from, maxd, upto) is Absent <==> match_count(
            objs,
            noun,
            from,
            maxd,
            upto,
        ) == 0,
        spec_object_index_upto(objs, noun, from, maxd, upto) is One <==> match_count(
            objs,
            noun,
            from,
            maxd,
            upto,
        ) == 1,
        spec_object_index_upto(objs, noun, from, maxd, upto) is Ambiguous <==> match_count(
            objs,
            noun,
            from,
            maxd,
            upto,
        ) >= 2,
        spec_object_index_upto(objs, noun, from, maxd, upto) matches AmbiguousOption::One(i)
            ==> i < upto && spec_is_match(objs, noun, from, maxd, i),
    decreases upto,
{
    if upto > 0 {
        lemma_object_index_counts(objs, noun, from, maxd, upto - 1);
    }
}

/// The count never shrinks as more objects are considered.
pub proof fn lemma_match_count_monotone(
    objs: Seq<ObjectV>,
    noun: Seq<char>,
    from: Option<usize>,
    maxd: Distance,
    a: int,
    b: int,
)
    requires
        a <= b,
    ensures
        match_count(objs, noun, from, maxd, a) <= match_count(objs, noun, from, maxd, b),
    decreases b - a,
{
    if a < b {
        lemma_match_count_monotone(objs, noun, from, maxd, a, b - 1);
    }
}

/// Whenever two distinct objects answer the same noun within the requested
/// distance, the resolution is `Ambiguous` — nearness breaks no ties.
pub proof fn lemma_object_index_ambiguous(
    objs: Seq<ObjectV>,
    noun: Seq<char>,
    from: Option<usize>,
    maxd: Distance,
    i: usize,
    j: usize,
)
    requires
        i < j,
        (j as int) < objs.len(),
        spec_is_match(objs, noun, from, maxd, i),
        spec_is_match(objs, noun, from, maxd, j),
    ensures
        spec_object_index(objs, noun, from, maxd) is Ambiguous,
{
    assert(match_count(objs, noun, from, maxd, i + 1) >= 1);
    lemma_match_count_monotone(objs, noun, from, maxd, i + 1, j as int);
    assert(match_count(objs, noun, from, maxd, j + 1) >= 2);
    lemma_match_count_monotone(objs, noun, from, maxd, j + 1, objs.len() as int);
    lemma_object_index_counts(objs, noun, from, maxd, objs.len() as int);
}

/// When no object answers the noun within the requested distance, the
/// resolution is absent.
pub proof fn lemma_object_index_none(
    objs: Seq<ObjectV>,
    noun: Seq<char>,
    from: Option<usize>,
    maxd: Distance,
)
    requires
        forall|p: usize| (p as int) < objs.len() ==> !spec_is_match(objs, noun, from, maxd, p),
    ensures
        spec_object_index(objs, noun, from, maxd) is Absent,
{
    lemma_match_count_none(objs, noun, from, maxd, objs.len() as int);
    lemma_object_index_counts(objs, noun, from, maxd, objs.len() as int);
}

proof fn lemma_match_count_none(
    objs: Seq<ObjectV>,
    noun: Seq<char>,
    from: Option<usize>,
    maxd: Distance,
    upto: int,
)
    requires
        upto <= objs.len(),
        forall|p: usize| (p as int) < objs.len() ==> !spec_is_match(objs, noun, from, maxd, p),
    ensures
        match_count(objs, noun, from, maxd, upto) == 0,
    decreases upto,
{
    if upto > 0 {
        lemma_match_count_none(objs, noun, from, maxd, upto - 1);
    }
}

/// The classifier is total — being a function into `Distance` it yields
/// exactly one of the seven answers — and it answers `Player` exactly when
/// the target is present and is the actor itself.
pub proof fn lemma_distance_player_iff_self(
    objs: Seq<ObjectV>,
    from: Option<usize>,
    to: Option<usize>,
)
    ensures
        spec_distance(objs, from, to) == Distance::Player <==> (to is Some && to == from),
{
}

} // verus!
