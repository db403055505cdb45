//! Game entities: the player, enemies and bullets, with shared position,
//! liveness, shape and color.

use vstd::prelude::*;
use vstd::string::*;
use crate::cell::{Cell, Color};
use crate::screen::{glyph_cell, Screen};

verus! {

#[derive(Clone, Copy, Debug, PartialEq, Eq, Structural)]
pub enum EntityColor {
    /// Drawn in white.
    NoColor,
    Red,
    Green,
    Blue,
    Cyan,
    Yellow,
}

impl EntityColor {
    pub open spec fn color_value(self) -> u32 {
        match self {
            EntityColor::NoColor => 0xFFFFFFFF,
            EntityColor::Red => 0xFFFF0000,
            EntityColor::Green => 0xFF00FF00,
            EntityColor::Blue => 0xFF0000FF,
            EntityColor::Cyan => 0xFF00FFFF,
            EntityColor::Yellow => 0xFFFFFF00,
        }
    }

    pub fn to_color(self) -> (c: Color)
        ensures
            c.0 == self.color_value(),
    {
        match self {
            EntityColor::NoColor => Color::white(),
            EntityColor::Red => Color::red(),
            EntityColor::Green => Color::green(),
            EntityColor::Blue => Color::blue(),
            EntityColor::Cyan => Color::cyan(),
            EntityColor::Yellow => Color::yellow(),
        }
    }
}

impl Default for EntityColor {
    fn default() -> (c: EntityColor)
        ensures
            c == EntityColor::NoColor,
    {
        EntityColor::NoColor
    }
}

/// `v` clamped to the range of `i32`.
pub open spec fn sat_i32(v: int) -> i32 {
    if v > i32::MAX {
        i32::MAX
    } else if v < i32::MIN {
        i32::MIN
    } else {
        v as i32
    }
}

/// `a + b`, saturating at the bounds of `i32`.
pub fn sat_add_i32(a: i32, b: i32) -> (r: i32)
    ensures
        r == sat_i32(a + b),
{
    let v = a as i64 + b as i64;
    if v > i32::MAX as i64 {
        i32::MAX
    } else if v < i32::MIN as i64 {
        i32::MIN
    } else {
        v as i32
    }
}

/// `a - b`, saturating at the bounds of `i32`.
pub fn sat_sub_i32(a: i32, b: i32) -> (r: i32)
    ensures
        r == sat_i32(a - b),
{
    let v = a as i64 - b as i64;
    if v > i32::MAX as i64 {
        i32::MAX
    } else if v < i32::MIN as i64 {
        i32::MIN
    } else {
        v as i32
    }
}

/// Who fired a bullet.
#[derive(Clone, Copy, Debug, PartialEq, Eq, Structural)]
pub enum Owner {
    Player,
    Enemy,
}

#[derive(Clone, Copy, Debug)]
pub struct EntityBase {
    pub x: i32,
    pub y: i32,
    pub alive: bool,
    pub shape: &'static str,
    pub color: EntityColor,
}

impl EntityBase {
    /// A live entity at (x, y) drawn as `shape`, without color.
    pub fn new(x: i32, y: i32, shape: &'static str) -> (b: EntityBase)
        ensures
            b == (EntityBase { x, y, alive: true, shape, color: EntityColor::NoColor }),
    {
        EntityBase { x, y, alive: true, shape, color: EntityColor::NoColor }
    }

    /// The back cells after drawing `self` at (x, y): the shape in the
    /// entity's color if it is alive and (x, y) is on the grid.
    pub open spec fn drawn(&self, screen: Screen, x: int, y: int) -> Seq<Cell> {
        match screen.index_of(x, y) {
            Some(i) => if self.alive {
                screen.back_cells().update(
                    i,
                    Cell {
                        fg: Color(self.color.color_value()),
                        ..glyph_cell(screen.back_cells()[i], self.shape.spec_bytes())
                    },
                )
            } else {
                screen.back_cells()
            },
            None => screen.back_cells(),
        }
    }

    /// Draws the shape at screen cell (x, y) in its color, if alive.
    pub fn draw(&self, screen: &mut Screen, x: usize, y: usize)
        requires
            old(screen).wf(),
        ensures
            final(screen).wf(),
            final(screen).w() == old(screen).w(),
            final(screen).h() == old(screen).h(),
            final(screen).front_cells() == old(screen).front_cells(),
            final(screen).back_cells() == self.drawn(*old(screen), x as int, y as int),
    {
        if !self.alive {
            return;
        }
        let ghost b0 = screen.back_cells();
        screen.put_char(x, y, self.shape);
        let c = self.color.to_color();
        assert(c == Color(self.color.color_value()));
        screen.set_fg_color(x, y, c);
        proof {
            if let Some(i) = old(screen).index_of(x as int, y as int) {
                let (sw, sh) = (old(screen).w() as int, old(screen).h() as int);
                assert(y * sw + x < sw * sh) by (nonlinear_arith)
                    requires
                        0 <= x < sw,
                        0 <= y < sh,
                ;
                assert(screen.back_cells() =~= self.drawn(*old(screen), x as int, y as int));
            }
        }
    }
}

#[derive(Clone, Copy, Debug, PartialEq, Eq, Structural)]
pub struct PlayerData {
    pub health: i32,
    pub damage: i32,
    pub cooldown: i32,
    pub ticks: i32,
    pub damaged: bool,
}

#[derive(Clone, Copy, Debug, PartialEq, Eq, Structural)]
pub struct EnemyData {
    pub health: i32,
    pub score: i32,
    pub fire_freq: i32,
    pub last_fired: i32,
    pub damage: i32,
}

#[derive(Clone, Copy, Debug, PartialEq, Eq, Structural)]
pub struct BulletData {
    pub owner: Owner,
    pub damage: i32,
    pub move_freq: i32,
    pub last_moved: i32,
}

#[derive(Clone, Copy, Debug)]
pub enum Entity {
    Player { base: EntityBase, data: PlayerData },
    Enemy { base: EntityBase, data: EnemyData },
    Bullet { base: EntityBase, data: BulletData },
}

impl Entity {
    pub open spec fn base_of(&self) -> EntityBase {
        match self {
            Entity::Player { base, .. } => *base,
            Entity::Enemy { base, .. } => *base,
            Entity::Bullet { base, .. } => *base,
        }
    }

    /// `self` with its common part replaced by `b`.
    pub open spec fn with_base(&self, b: EntityBase) -> Entity {
        match self {
            Entity::Player { data, .. } => Entity::Player { base: b, data: *data },
            Entity::Enemy { data, .. } => Entity::Enemy { base: b, data: *data },
            Entity::Bullet { data, .. } => Entity::Bullet { base: b, data: *data },
        }
    }

    pub open spec fn player_spec(x: i32, y: i32, health: i32, damage: i32, cooldown: i32) -> Entity {
        Entity::Player {
            base: EntityBase { x, y, alive: true, shape: "A", color: EntityColor::Cyan },
            data: PlayerData { health, damage, cooldown, ticks: cooldown, damaged: false },
        }
    }

    pub open spec fn enemy_spec(
        x: i32,
        y: i32,
        health: i32,
        score: i32,
        fire_freq: i32,
        damage: i32,
    ) -> Entity {
        Entity::Enemy {
            base: EntityBase { x, y, alive: true, shape: "V", color: EntityColor::NoColor },
            data: EnemyData { health, score, fire_freq, last_fired: 0, damage },
        }
    }

    pub open spec fn bullet_spec(x: i32, y: i32, damage: i32, owner: Owner) -> Entity {
        Entity::Bullet {
            base: EntityBase {
                x,
                y,
                alive: true,
                shape: if owner == Owner::Enemy { "|" } else { "0" },
                color: EntityColor::NoColor,
            },
            data: BulletData { owner, damage, move_freq: 1, last_moved: 0 },
        }
    }

    /// A cyan player `A` whose cooldown has already elapsed.
    pub fn new_player(x: i32, y: i32, health: i32, damage: i32, cooldown: i32) -> (e: Entity)
        ensures
            e == Entity::player_spec(x, y, health, damage, cooldown),
    {
        let mut base = EntityBase::new(x, y, "A");
        base.color = EntityColor::Cyan;
        Entity::Player {
            base,
            data: PlayerData { health, damage, cooldown, ticks: cooldown, damaged: false },
        }
    }

    /// An enemy `V` that has not fired yet.
    pub fn new_enemy(x: i32, y: i32, health: i32, score: i32, fire_freq: i32, damage: i32) -> (e:
        Entity)
        ensures
            e == Entity::enemy_spec(x, y, health, score, fire_freq, damage),
    {
        let base = EntityBase::new(x, y, "V");
        Entity::Enemy { base, data: EnemyData { health, score, fire_freq, last_fired: 0, damage } }
    }

    /// A bullet that moves every tick: `|` for an enemy's, `0` for the
    /// player's.
    pub fn new_bullet(x: i32, y: i32, damage: i32, owner: Owner) -> (e: Entity)
        ensures
            e == Entity::bullet_spec(x, y, damage, owner),
    {
        let shape = if owner == Owner::Enemy {
            "|"
        } else {
            "0"
        };
        Entity::Bullet {
            base: EntityBase::new(x, y, shape),
            data: BulletData { owner, damage, move_freq: 1, last_moved: 0 },
        }
    }

    pub fn base(&self) -> (b: &EntityBase)
        ensures
            *b == self.base_of(),
    {
        match self {
            Entity::Player { base, .. } => base,
            Entity::Enemy { base, .. } => base,
            Entity::Bullet { base, .. } => base,
        }
    }

    pub fn base_mut(&mut self) -> (b: &mut EntityBase)
        ensures
            *b == old(self).base_of(),
            *final(self) == old(self).with_base(*final(b)),
    {
        match self {
            Entity::Player { base, .. } => base,
            Entity::Enemy { base, .. } => base,
            Entity::Bullet { base, .. } => base,
        }
    }

    pub fn x(&self) -> (x: i32)
        ensures
            x == self.base_of().x,
    {
        self.base().x
    }

    pub fn y(&self) -> (y: i32)
        ensures
            y == self.base_of().y,
    {
        self.base().y
    }

    pub fn is_alive(&self) -> (b: bool)
        ensures
            b == self.base_of().alive,
    {
        self.base().alive
    }

    pub fn set_x(&mut self, x: i32)
        ensures
            *final(self) == old(self).with_base(EntityBase { x, ..old(self).base_of() }),
    {
        self.base_mut().x = x;
    }

    pub fn set_y(&mut self, y: i32)
        ensures
            *final(self) == old(self).with_base(EntityBase { y, ..old(self).base_of() }),
    {
        self.base_mut().y = y;
    }

    pub fn kill(&mut self)
        ensures
            *final(self) == old(self).with_base(EntityBase { alive: false, ..old(self).base_of() }),
    {
        self.base_mut().alive = false;
    }

    /// Whether the two entities stand on the same position.
    pub fn collides_with(&self, other: &Entity) -> (b: bool)
        ensures
            b == (self.base_of().x == other.base_of().x && self.base_of().y == other.base_of().y),
    {
        self.x() == other.x() && self.y() == other.y()
    }

    pub fn draw(&self, screen: &mut Screen, x: usize, y: usize)
        requires
            old(screen).wf(),
        ensures
            final(screen).wf(),
            final(screen).w() == old(screen).w(),
            final(screen).h() == old(screen).h(),
            final(screen).front_cells() == old(screen).front_cells(),
            final(screen).back_cells() == self.base_of().drawn(*old(screen), x as int, y as int),
    {
        self.base().draw(screen, x, y);
    }

    /// The entity after taking `amount` damage, and the score that gives: a
    /// player or enemy whose health is at most `amount` dies at zero health,
    /// and a dying enemy yields its score; otherwise health drops by
    /// `amount` (saturating); a hit player loses its color for a tick;
    /// bullets are unaffected.
    pub open spec fn damaged(&self, amount: i32) -> (Entity, i32) {
        match self {
            Entity::Player { base, data } => {
                let dies = data.health <= amount;
                (
                    Entity::Player {
                        base: EntityBase {
                            alive: if dies { false } else { base.alive },
                            color: EntityColor::NoColor,
                            ..*base
                        },
                        data: PlayerData {
                            health: if dies { 0 } else { sat_i32(data.health - amount) },
                            damaged: true,
                            ..*data
                        },
                    },
                    0,
                )
            },
            Entity::Enemy { base, data } => {
                let dies = data.health <= amount;
                (
                    Entity::Enemy {
                        base: EntityBase { alive: if dies { false } else { base.alive }, ..*base },
                        data: EnemyData {
                            health: if dies { 0 } else { sat_i32(data.health - amount) },
                            ..*data
                        },
                    },
                    if dies { data.score } else { 0 },
                )
            },
            Entity::Bullet { .. } => (*self, 0),
        }
    }

    /// Applies damage; returns the score gained (an enemy's, when it dies).
    pub fn damage(&mut self, amount: i32) -> (score: i32)
        ensures
            (*final(self), score) == old(self).damaged(amount),
    {
        match self {
            Entity::Player { base, data } => {
                if data.health <= amount {
                    data.health = 0;
                    base.alive = false;
                } else {
                    data.health = sat_sub_i32(data.health, amount);
                }
                data.damaged = true;
                base.color = EntityColor::NoColor;
                0
            },
            Entity::Enemy { base, data } => {
                if data.health <= amount {
                    data.health = 0;
                    base.alive = false;
                    data.score
                } else {
                    data.health = sat_sub_i32(data.health, amount);
                    0
                }
            },
            Entity::Bullet { .. } => 0,
        }
    }

    pub fn as_player(&self) -> (r: Option<&PlayerData>)
        ensures
            r matches Some(d) ==> self matches Entity::Player { data, .. } && *d == data,
            r is None ==> !(self is Player),
    {
        match self {
            Entity::Player { data, .. } => Some(data),
            _ => None,
        }
    }

    pub fn as_player_mut(&mut self) -> (r: Option<&mut PlayerData>)
        ensures
            r matches Some(d) ==> *old(self) matches Entity::Player { base, data } && *d == data
                && *final(self) == (Entity::Player { base, data: *final(d) }),
            r is None ==> !(*old(self) is Player) && *final(self) == *old(self),
    {
        match self {
            Entity::Player { data, .. } => Some(data),
            _ => None,
        }
    }

    pub fn as_enemy(&self) -> (r: Option<&EnemyData>)
        ensures
            r matches Some(d) ==> self matches Entity::Enemy { data, .. } && *d == data,
            r is None ==> !(self is Enemy),
    {
        match self {
            Entity::Enemy { data, .. } => Some(data),
            _ => None,
        }
    }

    pub fn as_enemy_mut(&mut self) -> (r: Option<&mut EnemyData>)
        ensures
            r matches Some(d) ==> *old(self) matches Entity::Enemy { base, data } && *d == data
                && *final(self) == (Entity::Enemy { base, data: *final(d) }),
            r is None ==> !(*old(self) is Enemy) && *final(self) == *old(self),
    {
        match self {
            Entity::Enemy { data, .. } => Some(data),
            _ => None,
        }
    }

    pub fn as_bullet(&self) -> (r: Option<&BulletData>)
        ensures
            r matches Some(d) ==> self matches Entity::Bullet { data, .. } && *d == data,
            r is None ==> !(self is Bullet),
    {
        match self {
            Entity::Bullet { data, .. } => Some(data),
            _ => None,
        }
    }

    pub fn as_bullet_mut(&mut self) -> (r: Option<&mut BulletData>)
        ensures
            r matches Some(d) ==> *old(self) matches Entity::Bullet { base, data } && *d == data
                && *final(self) == (Entity::Bullet { base, data: *final(d) }),
            r is None ==> !(*old(self) is Bullet) && *final(self) == *old(self),
    {
        match self {
            Entity::Bullet { data, .. } => Some(data),
            _ => None,
        }
    }
}

/// What an entity's update asks the game to do.
#[derive(Clone, Copy, Debug, PartialEq, Eq, Structural)]
pub enum EntityCommand {
    SpawnBullet { x: i32, y: i32, damage: i32, owner: Owner },
    DamagePlayer(i32),
    DamageEnemy { index: usize, amount: i32 },
}

} // verus!
