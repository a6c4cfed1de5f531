//! The game objects: places, the player, weapons, consumables, enemies and
//! passages, together with their ghost models. Identity is positional: an
//! object refers to another by its index in the world's object sequence.

use vstd::prelude::*;

verus! {

/// A place the player can be in; referenced by index, it has no location of
/// its own.
#[derive(Debug, PartialEq, Eq)]
pub struct Location {
    pub name: String,
    pub description: String,
}

/// The single actor of the session. Its `location` always names a
/// `Location` object.
#[derive(Debug, PartialEq, Eq)]
pub struct Player {
    pub name: String,
    pub location: usize,
    pub health: u64,
}

/// An item that can be picked up, dropped and used in combat.
#[derive(Debug, PartialEq, Eq)]
pub struct Weapon {
    pub name: String,
    pub description: String,
    pub location: Option<usize>,
    pub attack_points: u64,
}

/// An item that heals when picked up; once consumed its location becomes
/// `None` and it is out of play for good.
#[derive(Debug, PartialEq, Eq)]
pub struct Consumable {
    pub name: String,
    pub description: String,
    pub heal_amount: u64,
    pub location: Option<usize>,
}

/// A hostile actor; dead at health zero, never removed from the store.
#[derive(Debug, PartialEq, Eq)]
pub struct Enemy {
    pub name: String,
    pub description: String,
    pub health: u64,
    pub attack: u64,
    pub location: usize,
}

/// A directional link between two locations; inert in the default world but
/// part of the data model.
#[derive(Debug, PartialEq, Eq)]
pub struct Passage {
    pub name: String,
    pub description: String,
    pub location: Option<usize>,
    pub destination: Option<usize>,
}

/// The closed sum of all object kinds the world can hold.
#[derive(Debug, PartialEq, Eq)]
pub enum Object {
    Location(Location),
    Player(Player),
    Weapon(Weapon),
    Consumable(Consumable),
    Enemy(Enemy),
    Passage(Passage),
}

/// The ghost model of an object: the same shape with names and descriptions
/// as character sequences. All contracts speak of this model.
#[allow(inconsistent_fields)]
pub enum ObjectV {
    Location { name: Seq<char>, description: Seq<char> },
    Player { name: Seq<char>, location: usize, health: u64 },
    Weapon { name: Seq<char>, description: Seq<char>, location: Option<usize>, attack_points: u64 },
    Consumable {
        name: Seq<char>,
        description: Seq<char>,
        heal_amount: u64,
        location: Option<usize>,
    },
    Enemy { name: Seq<char>, description: Seq<char>, health: u64, attack: u64, location: usize },
    Passage {
        name: Seq<char>,
        description: Seq<char>,
        location: Option<usize>,
        destination: Option<usize>,
    },
}

impl View for Object {
    type V = ObjectV;

    open spec fn view(&self) -> ObjectV {
        match self {
            Object::Location(o) => ObjectV::Location { name: o.name@, description: o.description@ },
            Object::Player(o) => ObjectV::Player {
                name: o.name@,
                location: o.location,
                health: o.health,
            },
            Object::Weapon(o) => ObjectV::Weapon {
                name: o.name@,
                description: o.description@,
                location: o.location,
                attack_points: o.attack_points,
            },
            Object::Consumable(o) => ObjectV::Consumable {
                name: o.name@,
                description: o.description@,
                heal_amount: o.heal_amount,
                location: o.location,
            },
            Object::Enemy(o) => ObjectV::Enemy {
                name: o.name@,
                description: o.description@,
                health: o.health,
                attack: o.attack,
                location: o.location,
            },
            Object::Passage(o) => ObjectV::Passage {
                name: o.name@,
                description: o.description@,
                location: o.location,
                destination: o.destination,
            },
        }
    }
}

impl DeepView for Object {
    type V = ObjectV;

    open spec fn deep_view(&self) -> ObjectV {
        self.view()
    }
}

impl ObjectV {
    /// The name an object answers to when a noun is resolved.
    pub open spec fn name(self) -> Seq<char> {
        match self {
            ObjectV::Location { name, .. } => name,
            ObjectV::Player { name, .. } => name,
            ObjectV::Weapon { name, .. } => name,
            ObjectV::Consumable { name, .. } => name,
            ObjectV::Enemy { name, .. } => name,
            ObjectV::Passage { name, .. } => name,
        }
    }

    /// The descriptive text; the player and places are described through
    /// other channels, so for a player it is its name.
    pub open spec fn description(self) -> Seq<char> {
        match self {
            ObjectV::Location { description, .. } => description,
            ObjectV::Player { name, .. } => name,
            ObjectV::Weapon { description, .. } => description,
            ObjectV::Consumable { description, .. } => description,
            ObjectV::Enemy { description, .. } => description,
            ObjectV::Passage { description, .. } => description,
        }
    }

    /// Where the object currently is: `None` for places, for consumed items
    /// and for unplaced items.
    pub open spec fn loc(self) -> Option<usize> {
        match self {
            ObjectV::Location { .. } => None,
            ObjectV::Player { location, .. } => Some(location),
            ObjectV::Weapon { location, .. } => location,
            ObjectV::Consumable { location, .. } => location,
            ObjectV::Enemy { location, .. } => Some(location),
            ObjectV::Passage { location, .. } => location,
        }
    }

    /// Where a passage leads; `None` for everything else.
    pub open spec fn destination(self) -> Option<usize> {
        match self {
            ObjectV::Passage { destination, .. } => destination,
            _ => None,
        }
    }

    /// Whether the object is a portable item.
    pub open spec fn is_item(self) -> bool {
        self is Weapon || self is Consumable
    }

    /// The health of an actor; anything else counts as zero.
    pub open spec fn health(self) -> u64 {
        match self {
            ObjectV::Player { health, .. } => health,
            ObjectV::Enemy { health, .. } => health,
            _ => 0,
        }
    }

    /// The attack power of an enemy; anything else counts as zero.
    pub open spec fn attack(self) -> u64 {
        match self {
            ObjectV::Enemy { attack, .. } => attack,
            _ => 0,
        }
    }

    /// What a consumable heals; anything else counts as zero.
    pub open spec fn heal_amount(self) -> u64 {
        match self {
            ObjectV::Consumable { heal_amount, .. } => heal_amount,
            _ => 0,
        }
    }

    /// The attack points of a weapon; anything else counts as zero.
    pub open spec fn attack_points(self) -> u64 {
        match self {
            ObjectV::Weapon { attack_points, .. } => attack_points,
            _ => 0,
        }
    }
}

/// The same object with its location field cleared: how a consumed item
/// leaves play. Objects without an optional location stay as they are.
pub open spec fn with_loc_none(o: ObjectV) -> ObjectV {
    match o {
        ObjectV::Weapon { name, description, attack_points, .. } => ObjectV::Weapon {
            name,
            description,
            location: None,
            attack_points,
        },
        ObjectV::Consumable { name, description, heal_amount, .. } => ObjectV::Consumable {
            name,
            description,
            heal_amount,
            location: None,
        },
        ObjectV::Passage { name, description, destination, .. } => ObjectV::Passage {
            name,
            description,
            location: None,
            destination,
        },
        _ => o,
    }
}

/// The same object at health `h`; only actors carry health.
pub open spec fn with_health(o: ObjectV, h: u64) -> ObjectV {
    match o {
        ObjectV::Player { name, location, .. } => ObjectV::Player { name, location, health: h },
        ObjectV::Enemy { name, description, attack, location, .. } => ObjectV::Enemy {
            name,
            description,
            health: h,
            attack,
            location,
        },
        _ => o,
    }
}

/// The same object, placed at `to`: the one rewrite the world ever makes
/// besides health bookkeeping. A place has no location and stays as it is.
pub open spec fn with_loc(o: ObjectV, to: usize) -> ObjectV {
    match o {
        ObjectV::Location { name, description } => ObjectV::Location { name, description },
        ObjectV::Player { name, health, .. } => ObjectV::Player { name, location: to, health },
        ObjectV::Weapon { name, description, attack_points, .. } => ObjectV::Weapon {
            name,
            description,
            location: Some(to),
            attack_points,
        },
        ObjectV::Consumable { name, description, heal_amount, .. } => ObjectV::Consumable {
            name,
            description,
            heal_amount,
            location: Some(to),
        },
        ObjectV::Enemy { name, description, health, attack, .. } => ObjectV::Enemy {
            name,
            description,
            health,
            attack,
            location: to,
        },
        ObjectV::Passage { name, description, destination, .. } => ObjectV::Passage {
            name,
            description,
            location: Some(to),
            destination,
        },
    }
}

impl Object {
    /// Rewrites the location field to name `to`; a place, having no
    /// location, stays as it is.
    pub fn set_loc(&mut self, to: usize)
        ensures
            final(self)@ == with_loc(old(self)@, to),
    {
        match self {
            Object::Location(_) => {},
            Object::Player(p) => {
                p.location = to;
            },
            Object::Weapon(w) => {
                w.location = Some(to);
            },
            Object::Consumable(c) => {
                c.location = Some(to);
            },
            Object::Enemy(e) => {
                e.location = to;
            },
            Object::Passage(p) => {
                p.location = Some(to);
            },
        }
    }

    /// Clears the location field: the object leaves play.
    pub fn clear_loc(&mut self)
        ensures
            final(self)@ == with_loc_none(old(self)@),
    {
        match self {
            Object::Location(_) => {},
            Object::Player(_) => {},
            Object::Weapon(w) => {
                w.location = None;
            },
            Object::Consumable(c) => {
                c.location = None;
            },
            Object::Enemy(_) => {},
            Object::Passage(p) => {
                p.location = None;
            },
        }
    }

    /// Rewrites an actor's health.
    pub fn set_health(&mut self, h: u64)
        ensures
            final(self)@ == with_health(old(self)@, h),
    {
        match self {
            Object::Player(p) => {
                p.health = h;
            },
            Object::Enemy(e) => {
                e.health = h;
            },
            _ => {},
        }
    }

    /// The object's name, as the noun matcher sees it.
    pub fn name_ref(&self) -> (r: &String)
        ensures
            r@ == self@.name(),
    {
        match self {
            Object::Location(o) => &o.name,
            Object::Player(o) => &o.name,
            Object::Weapon(o) => &o.name,
            Object::Consumable(o) => &o.name,
            Object::Enemy(o) => &o.name,
            Object::Passage(o) => &o.name,
        }
    }

    /// The object's descriptive text.
    pub fn description_ref(&self) -> (r: &String)
        ensures
            r@ == self@.description(),
    {
        match self {
            Object::Location(o) => &o.description,
            Object::Player(o) => &o.name,
            Object::Weapon(o) => &o.description,
            Object::Consumable(o) => &o.description,
            Object::Enemy(o) => &o.description,
            Object::Passage(o) => &o.description,
        }
    }

    /// The object's current location field.
    pub fn loc(&self) -> (r: Option<usize>)
        ensures
            r == self@.loc(),
    {
        match self {
            Object::Location(_) => None,
            Object::Player(o) => Some(o.location),
            Object::Weapon(o) => o.location,
            Object::Consumable(o) => o.location,
            Object::Enemy(o) => Some(o.location),
            Object::Passage(o) => o.location,
        }
    }

    /// Where a passage leads.
    pub fn destination(&self) -> (r: Option<usize>)
        ensures
            r == self@.destination(),
    {
        match self {
            Object::Passage(o) => o.destination,
            _ => None,
        }
    }

    /// Whether the object is a portable item.
    pub fn is_item(&self) -> (r: bool)
        ensures
            r == self@.is_item(),
    {
        match self {
            Object::Weapon(_) => true,
            Object::Consumable(_) => true,
            _ => false,
        }
    }

    /// Whether the object is a consumable item.
    pub fn is_consumable(&self) -> (r: bool)
        ensures
            r == (self@ is Consumable),
    {
        match self {
            Object::Consumable(_) => true,
            _ => false,
        }
    }
}

impl Consumable {
    /// A consumable item placed at the given location.
    pub fn new(name: String, description: String, heal_amount: u64, location: usize) -> (r: Self)
        ensures
            r@ == (ObjectV::Consumable {
                name: name@,
                description: description@,
                heal_amount,
                location: Some(location),
            }),
    {
        Consumable { name, description, heal_amount, location: Some(location) }
    }
}

impl View for Consumable {
    type V = ObjectV;

    open spec fn view(&self) -> ObjectV {
        ObjectV::Consumable {
            name: self.name@,
            description: self.description@,
            heal_amount: self.heal_amount,
            location: self.location,
        }
    }
}

impl Weapon {
    /// A weapon placed at the given location.
    pub fn new(name: String, description: String, location: usize, attack_points: u64) -> (r: Self)
        ensures
            r@ == (ObjectV::Weapon {
                name: name@,
                description: description@,
                location: Some(location),
                attack_points,
            }),
    {
        Weapon { name, description, location: Some(location), attack_points }
    }
}

impl View for Weapon {
    type V = ObjectV;

    open spec fn view(&self) -> ObjectV {
        ObjectV::Weapon {
            name: self.name@,
            description: self.description@,
            location: self.location,
            attack_points: self.attack_points,
        }
    }
}

impl Enemy {
    /// A hostile actor at the given location, starting at full health.
    pub fn new(name: String, description: String, attack: u64, location: usize) -> (r: Self)
        ensures
            r@ == (ObjectV::Enemy {
                name: name@,
                description: description@,
                health: 100,
                attack,
                location,
            }),
    {
        Enemy { name, description, health: 100, attack, location }
    }
}

impl View for Enemy {
    type V = ObjectV;

    open spec fn view(&self) -> ObjectV {
        ObjectV::Enemy {
            name: self.name@,
            description: self.description@,
            health: self.health,
            attack: self.attack,
            location: self.location,
        }
    }
}

impl Player {
    /// The player, starting in the first location with full health.
    pub fn new(name: String) -> (r: Self)
        ensures
            r@ == (ObjectV::Player { name: name@, location: 0, health: 100 }),
    {
        Player { name, location: 0, health: 100 }
    }
}

impl View for Player {
    type V = ObjectV;

    open spec fn view(&self) -> ObjectV {
        ObjectV::Player { name: self.name@, location: self.location, health: self.health }
    }
}

} // verus!
