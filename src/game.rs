//! The game state: a player, enemies and bullets on a small board, advanced
//! one tick at a time and steered by key events.

use vstd::prelude::*;
use crate::entity::{
    sat_add_i32, sat_i32, BulletData, EnemyData, Entity, EntityBase, EntityColor, EntityCommand,
    Owner, PlayerData,
};
use crate::input::{char_matches, is_char, is_key, Event, KeyCode, KeyEvent};
use crate::screen::Screen;
use crate::widget::BBox;

verus! {

pub const US_PER_SEC: i64 = 1_000_000;

#[derive(Clone, Copy, Debug, PartialEq, Eq, Structural)]
pub enum GameStatus {
    Running,
    Paused,
    Finished,
    GameOver,
}

/// The board's size in game units.
#[derive(Clone, Copy, Debug, PartialEq, Eq, Structural)]
pub struct Bounds {
    pub w: i32,
    pub h: i32,
}

/// `v` clamped to the range of `i64`.
pub open spec fn sat_i64(v: int) -> i64 {
    if v > i64::MAX {
        i64::MAX
    } else if v < i64::MIN {
        i64::MIN
    } else {
        v as i64
    }
}

fn sat_add_i64(a: i64, b: i64) -> (r: i64)
    ensures
        r == sat_i64(a + b),
{
    if b > 0 && a > i64::MAX - b {
        i64::MAX
    } else if b < 0 && a < i64::MIN - b {
        i64::MIN
    } else {
        a + b
    }
}

/// A player's tick: its cooldown counter advances, and it regains its cyan
/// color unless it was hit since the last tick.
pub open spec fn player_tick(p: Entity) -> Entity {
    match p {
        Entity::Player { base, data } => Entity::Player {
            base: if data.damaged {
                base
            } else {
                EntityBase { color: EntityColor::Cyan, ..base }
            },
            data: PlayerData { ticks: sat_i32(data.ticks + 1), damaged: false, ..data },
        },
        _ => p,
    }
}

/// An enemy's tick: it turns red one tick before firing, and fires a bullet
/// just below itself once `fire_freq` ticks have passed.
pub open spec fn enemy_tick(e: Entity) -> (Entity, Option<EntityCommand>) {
    match e {
        Entity::Enemy { base, data } => {
            let lf = sat_i32(data.last_fired + 1);
            let color = if lf >= data.fire_freq - 1 {
                EntityColor::Red
            } else {
                EntityColor::NoColor
            };
            if lf >= data.fire_freq {
                (
                    Entity::Enemy {
                        base: EntityBase { color, ..base },
                        data: EnemyData { last_fired: 0, ..data },
                    },
                    Some(
                        EntityCommand::SpawnBullet {
                            x: base.x,
                            y: sat_i32(base.y + 1),
                            damage: data.damage,
                            owner: Owner::Enemy,
                        },
                    ),
                )
            } else {
                (
                    Entity::Enemy {
                        base: EntityBase { color, ..base },
                        data: EnemyData { last_fired: lf, ..data },
                    },
                    None,
                )
            }
        },
        _ => (e, None),
    }
}

/// The first index from `i` on whose position is (x, y).
pub open spec fn first_at(ps: Seq<(i32, i32)>, x: i32, y: i32, i: int) -> Option<int>
    decreases ps.len() - i,
{
    if i < 0 || i >= ps.len() {
        None
    } else if ps[i] == (x, y) {
        Some(i)
    } else {
        first_at(ps, x, y, i + 1)
    }
}

/// A bullet's tick: once its move counter comes round, an enemy bullet on
/// the live player's position hits it, a player bullet on an enemy's
/// position hits the first such enemy; otherwise it moves one row (down for
/// enemy bullets, up for the player's) and dies leaving the board.
pub open spec fn bullet_tick(
    b: Entity,
    bounds: Bounds,
    player_pos: Option<(i32, i32)>,
    enemy_pos: Seq<(i32, i32)>,
) -> (Entity, Seq<EntityCommand>) {
    match b {
        Entity::Bullet { base, data } => {
            let lm = sat_i32(data.last_moved + 1);
            if lm < data.move_freq {
                (Entity::Bullet { base, data: BulletData { last_moved: lm, ..data } }, seq![])
            } else {
                let d = BulletData { last_moved: 0, ..data };
                let dead = EntityBase { alive: false, ..base };
                if data.owner == Owner::Enemy {
                    if player_pos == Some((base.x, base.y)) {
                        (
                            Entity::Bullet { base: dead, data: d },
                            seq![EntityCommand::DamagePlayer(data.damage)],
                        )
                    } else if base.y + 1 >= bounds.h {
                        (Entity::Bullet { base: dead, data: d }, seq![])
                    } else {
                        (
                            Entity::Bullet {
                                base: EntityBase { y: (base.y + 1) as i32, ..base },
                                data: d,
                            },
                            seq![],
                        )
                    }
                } else {
                    match first_at(enemy_pos, base.x, base.y, 0) {
                        Some(i) => (
                            Entity::Bullet { base: dead, data: d },
                            seq![EntityCommand::DamageEnemy { index: i as usize, amount: data.damage }],
                        ),
                        None => if base.y - 1 < 0 {
                            (Entity::Bullet { base: dead, data: d }, seq![])
                        } else {
                            (
                                Entity::Bullet {
                                    base: EntityBase { y: (base.y - 1) as i32, ..base },
                                    data: d,
                                },
                                seq![],
                            )
                        },
                    }
                }
            }
        },
        _ => (b, seq![]),
    }
}

pub open spec fn positions(es: Seq<Entity>) -> Seq<(i32, i32)> {
    Seq::new(es.len(), |i: int| (es[i].base_of().x, es[i].base_of().y))
}

pub open spec fn enemies_ticked(es: Seq<Entity>) -> Seq<Entity> {
    Seq::new(es.len(), |i: int| enemy_tick(es[i]).0)
}

/// The commands of the enemies' ticks, in order.
pub open spec fn enemy_commands(es: Seq<Entity>) -> Seq<EntityCommand>
    decreases es.len(),
{
    if es.len() == 0 {
        seq![]
    } else {
        enemy_commands(es.drop_last()) + match enemy_tick(es.last()).1 {
            Some(c) => seq![c],
            None => seq![],
        }
    }
}

pub open spec fn bullets_ticked(
    bs: Seq<Entity>,
    bounds: Bounds,
    player_pos: Option<(i32, i32)>,
    enemy_pos: Seq<(i32, i32)>,
) -> Seq<Entity> {
    Seq::new(bs.len(), |i: int| bullet_tick(bs[i], bounds, player_pos, enemy_pos).0)
}

/// The commands of the bullets' ticks, in order.
pub open spec fn bullet_commands(
    bs: Seq<Entity>,
    bounds: Bounds,
    player_pos: Option<(i32, i32)>,
    enemy_pos: Seq<(i32, i32)>,
) -> Seq<EntityCommand>
    decreases bs.len(),
{
    if bs.len() == 0 {
        seq![]
    } else {
        bullet_commands(bs.drop_last(), bounds, player_pos, enemy_pos) + bullet_tick(
            bs.last(),
            bounds,
            player_pos,
            enemy_pos,
        ).1
    }
}

/// What commands act on: the player, enemies, bullets, score, hits, kills.
pub type Board = (Option<Entity>, Seq<Entity>, Seq<Entity>, i32, i32, i32);

/// One command's effect: a new bullet, damage to the player, or damage to an
/// existing enemy (counted as a hit, and as a kill when it scores).
pub open spec fn apply_command(st: Board, c: EntityCommand) -> Board {
    match c {
        EntityCommand::SpawnBullet { x, y, damage, owner } => (
            st.0,
            st.1,
            st.2.push(Entity::bullet_spec(x, y, damage, owner)),
            st.3,
            st.4,
            st.5,
        ),
        EntityCommand::DamagePlayer(amount) => (
            match st.0 {
                Some(p) => Some(p.damaged(amount).0),
                None => None,
            },
            st.1,
            st.2,
            st.3,
            st.4,
            st.5,
        ),
        EntityCommand::DamageEnemy { index, amount } => if index < st.1.len() {
            let (e, sc) = st.1[index as int].damaged(amount);
            (
                st.0,
                st.1.update(index as int, e),
                st.2,
                sat_i32(st.3 + sc),
                sat_i32(st.4 + 1),
                if sc > 0 {
                    sat_i32(st.5 + 1)
                } else {
                    st.5
                },
            )
        } else {
            st
        },
    }
}

pub open spec fn apply_commands(st: Board, cs: Seq<EntityCommand>) -> Board
    decreases cs.len(),
{
    if cs.len() == 0 {
        st
    } else {
        apply_command(apply_commands(st, cs.drop_last()), cs.last())
    }
}

/// The live player's position, if any.
pub open spec fn live_position(p: Option<Entity>) -> Option<(i32, i32)> {
    match p {
        Some(e) => if e.base_of().alive {
            Some((e.base_of().x, e.base_of().y))
        } else {
            None
        },
        None => None,
    }
}

pub struct Game {
    bounds: Bounds,
    level: i32,
    score: i32,
    status: GameStatus,
    player: Option<Entity>,
    enemies: Vec<Entity>,
    bullets: Vec<Entity>,
    tps: i64,
    shots_fired: i32,
    shots_hit: i32,
    kills: i32,
    elapsed_time: i64,
}

impl Game {
    pub closed spec fn bounds_v(&self) -> Bounds {
        self.bounds
    }

    pub closed spec fn level_v(&self) -> i32 {
        self.level
    }

    pub closed spec fn score_v(&self) -> i32 {
        self.score
    }

    pub closed spec fn status_v(&self) -> GameStatus {
        self.status
    }

    pub closed spec fn player_v(&self) -> Option<Entity> {
        self.player
    }

    pub closed spec fn enemies_v(&self) -> Seq<Entity> {
        self.enemies@
    }

    pub closed spec fn bullets_v(&self) -> Seq<Entity> {
        self.bullets@
    }

    pub closed spec fn tps_v(&self) -> i64 {
        self.tps
    }

    pub closed spec fn shots_fired_v(&self) -> i32 {
        self.shots_fired
    }

    pub closed spec fn shots_hit_v(&self) -> i32 {
        self.shots_hit
    }

    pub closed spec fn kills_v(&self) -> i32 {
        self.kills
    }

    pub closed spec fn elapsed_v(&self) -> i64 {
        self.elapsed_time
    }

    /// The board is at least one unit in each direction.
    pub open spec fn wf(&self) -> bool {
        self.bounds_v().w >= 1 && self.bounds_v().h >= 1
    }

    /// The player's starting position: bottom row, middle column.
    pub open spec fn start_x(b: Bounds) -> i32 {
        ((b.w - 1) / 2) as i32
    }

    /// A running level-1 game on a `w` by `h` board, with a player of five
    /// health at the bottom middle, no enemies and no bullets.
    pub fn new(w: i32, h: i32, tps: i64) -> (g: Game)
        requires
            w >= 1,
            h >= 1,
        ensures
            g.wf(),
            g.bounds_v() == (Bounds { w, h }),
            g.level_v() == 1,
            g.score_v() == 0,
            g.status_v() == GameStatus::Running,
            g.player_v() == Some(
                Entity::player_spec(Game::start_x(Bounds { w, h }), (h - 1) as i32, 5, 1, 2),
            ),
            g.enemies_v() == Seq::<Entity>::empty(),
            g.bullets_v() == Seq::<Entity>::empty(),
            g.tps_v() == tps,
            g.shots_fired_v() == 0,
            g.shots_hit_v() == 0,
            g.kills_v() == 0,
            g.elapsed_v() == 0,
    {
        let mut game = Game {
            bounds: Bounds { w, h },
            level: 1,
            score: 0,
            status: GameStatus::Running,
            player: None,
            enemies: Vec::new(),
            bullets: Vec::new(),
            tps,
            shots_fired: 0,
            shots_hit: 0,
            kills: 0,
            elapsed_time: 0,
        };
        game.spawn_player((w - 1) / 2, h - 1, 5, 1, 2);
        game
    }

    pub fn bounds(&self) -> (b: Bounds)
        ensures
            b == self.bounds_v(),
    {
        self.bounds
    }

    pub fn level(&self) -> (l: i32)
        ensures
            l == self.level_v(),
    {
        self.level
    }

    pub fn score(&self) -> (s: i32)
        ensures
            s == self.score_v(),
    {
        self.score
    }

    pub fn status(&self) -> (s: GameStatus)
        ensures
            s == self.status_v(),
    {
        self.status
    }

    pub fn tps(&self) -> (t: i64)
        ensures
            t == self.tps_v(),
    {
        self.tps
    }

    pub fn shots_fired(&self) -> (n: i32)
        ensures
            n == self.shots_fired_v(),
    {
        self.shots_fired
    }

    pub fn shots_hit(&self) -> (n: i32)
        ensures
            n == self.shots_hit_v(),
    {
        self.shots_hit
    }

    pub fn kills(&self) -> (n: i32)
        ensures
            n == self.kills_v(),
    {
        self.kills
    }

    /// Whole seconds of game time elapsed (rounded toward zero, saturating).
    pub fn time_seconds(&self) -> (s: i32)
        ensures
            s == sat_i32(
                if self.elapsed_v() >= 0 {
                    self.elapsed_v() as int / US_PER_SEC as int
                } else {
                    -((-(self.elapsed_v() as int)) / US_PER_SEC as int)
                },
            ),
    {
        let e = self.elapsed_time;
        let q: i64 = if e >= 0 {
            e / US_PER_SEC
        } else {
            let m: u64 = (-(e + 1)) as u64 + 1;
            let q0: u64 = m / 1_000_000;
            assert(q0 <= m) by (nonlinear_arith)
                requires
                    q0 == m / 1_000_000,
            ;
            assert(q0 * 1_000_000 <= m) by (nonlinear_arith)
                requires
                    q0 == m / 1_000_000,
            ;
            -(q0 as i64)
        };
        if q > i32::MAX as i64 {
            i32::MAX
        } else if q < i32::MIN as i64 {
            i32::MIN
        } else {
            q as i32
        }
    }

    /// Hits per hundred shots, rounded down; zero before the first shot.
    pub fn accuracy_percent(&self) -> (p: i32)
        ensures
            self.shots_fired_v() > 0 && self.shots_hit_v() >= 0 ==> p == sat_i32(
                self.shots_hit_v() * 100,
            ) / self.shots_fired_v(),
            self.shots_fired_v() <= 0 ==> p == 0,
    {
        if self.shots_fired > 0 && self.shots_hit >= 0 {
            let hits = if self.shots_hit > i32::MAX / 100 {
                i32::MAX
            } else {
                self.shots_hit * 100
            };
            hits / self.shots_fired
        } else {
            0
        }
    }

    pub fn bullet_count(&self) -> (n: usize)
        ensures
            n == self.bullets_v().len(),
    {
        self.bullets.len()
    }

    pub fn enemy_count(&self) -> (n: usize)
        ensures
            n == self.enemies_v().len(),
    {
        self.enemies.len()
    }

    pub fn player(&self) -> (p: Option<&Entity>)
        ensures
            p matches Some(e) ==> self.player_v() == Some(*e),
            p is None ==> self.player_v() is None,
    {
        match &self.player {
            Some(e) => Some(e),
            None => None,
        }
    }

    /// The player's health, or zero without a player.
    pub fn player_health(&self) -> (h: i32)
        ensures
            h == match self.player_v() {
                Some(Entity::Player { data, .. }) => data.health,
                _ => 0,
            },
    {
        match &self.player {
            Some(p) => match p.as_player() {
                Some(d) => d.health,
                None => 0,
            },
            None => 0,
        }
    }

    pub fn set_status(&mut self, status: GameStatus)
        ensures
            final(self).status_v() == status,
            final(self).level_v() == old(self).level_v(),
            final(self).same_but_status_level(*old(self)),
    {
        self.status = status;
    }

    /// Advances to the next level (saturating).
    pub fn increment_level(&mut self)
        ensures
            final(self).level_v() == sat_i32(old(self).level_v() + 1),
            final(self).status_v() == old(self).status_v(),
            final(self).same_but_status_level(*old(self)),
    {
        self.level = sat_add_i32(self.level, 1);
    }

    /// Replaces the player by a new one.
    pub fn spawn_player(&mut self, x: i32, y: i32, health: i32, damage: i32, cooldown: i32)
        ensures
            final(self).player_v() == Some(Entity::player_spec(x, y, health, damage, cooldown)),
            final(self).enemies_v() == old(self).enemies_v(),
            final(self).bullets_v() == old(self).bullets_v(),
            final(self).same_except_entities(*old(self)),
    {
        self.player = Some(Entity::new_player(x, y, health, damage, cooldown));
    }

    /// Adds an enemy after the existing ones.
    pub fn spawn_enemy(
        &mut self,
        x: i32,
        y: i32,
        health: i32,
        score: i32,
        fire_freq: i32,
        damage: i32,
    )
        ensures
            final(self).enemies_v() == old(self).enemies_v().push(
                Entity::enemy_spec(x, y, health, score, fire_freq, damage),
            ),
            final(self).same_except_entities(*old(self)),
            final(self).bullets_v() == old(self).bullets_v(),
            final(self).player_v() == old(self).player_v(),
    {
        self.enemies.push(Entity::new_enemy(x, y, health, score, fire_freq, damage));
    }

    /// Adds a bullet after the existing ones.
    pub fn spawn_bullet(&mut self, x: i32, y: i32, damage: i32, owner: Owner)
        ensures
            final(self).bullets_v() == old(self).bullets_v().push(
                Entity::bullet_spec(x, y, damage, owner),
            ),
            final(self).same_except_entities(*old(self)),
            final(self).enemies_v() == old(self).enemies_v(),
            final(self).player_v() == old(self).player_v(),
    {
        self.bullets.push(Entity::new_bullet(x, y, damage, owner));
    }

    /// Every field but the status and the level agrees with `o`.
    pub open spec fn same_but_status_level(&self, o: Game) -> bool {
        &&& self.bounds_v() == o.bounds_v()
        &&& self.score_v() == o.score_v()
        &&& self.player_v() == o.player_v()
        &&& self.enemies_v() == o.enemies_v()
        &&& self.bullets_v() == o.bullets_v()
        &&& self.tps_v() == o.tps_v()
        &&& self.shots_fired_v() == o.shots_fired_v()
        &&& self.shots_hit_v() == o.shots_hit_v()
        &&& self.kills_v() == o.kills_v()
        &&& self.elapsed_v() == o.elapsed_v()
    }

    /// Every field but the entities agrees with `o`.
    pub open spec fn same_except_entities(&self, o: Game) -> bool {
        &&& self.bounds_v() == o.bounds_v()
        &&& self.level_v() == o.level_v()
        &&& self.score_v() == o.score_v()
        &&& self.status_v() == o.status_v()
        &&& self.tps_v() == o.tps_v()
        &&& self.shots_fired_v() == o.shots_fired_v()
        &&& self.shots_hit_v() == o.shots_hit_v()
        &&& self.kills_v() == o.kills_v()
        &&& self.elapsed_v() == o.elapsed_v()
    }

    /// The player after a reset: full health, cooldown elapsed, alive and
    /// cyan at the start position; anything else is left as it was.
    pub open spec fn reset_player(p: Entity, b: Bounds) -> Entity {
        let restored = match p {
            Entity::Player { base, data } => Entity::Player {
                base,
                data: PlayerData { health: 5, ticks: data.cooldown, damaged: false, ..data },
            },
            _ => p,
        };
        restored.with_base(
            EntityBase {
                alive: true,
                x: Game::start_x(b),
                y: (b.h - 1) as i32,
                color: EntityColor::Cyan,
                ..restored.base_of()
            },
        )
    }

    /// Starts over: no enemies or bullets, the player restored, level 1,
    /// running, and every statistic at zero.
    pub fn reset(&mut self)
        requires
            old(self).wf(),
        ensures
            final(self).wf(),
            final(self).enemies_v() == Seq::<Entity>::empty(),
            final(self).bullets_v() == Seq::<Entity>::empty(),
            final(self).player_v() == match old(self).player_v() {
                Some(p) => Some(Game::reset_player(p, old(self).bounds_v())),
                None => None,
            },
            final(self).bounds_v() == old(self).bounds_v(),
            final(self).tps_v() == old(self).tps_v(),
            final(self).level_v() == 1,
            final(self).score_v() == 0,
            final(self).status_v() == GameStatus::Running,
            final(self).shots_fired_v() == 0,
            final(self).shots_hit_v() == 0,
            final(self).kills_v() == 0,
            final(self).elapsed_v() == 0,
    {
        self.enemies.clear();
        self.bullets.clear();
        let b = self.bounds;
        match &mut self.player {
            Some(player) => {
                match player {
                    Entity::Player { data, .. } => {
                        data.health = 5;
                        data.ticks = data.cooldown;
                        data.damaged = false;
                    },
                    _ => {},
                }
                let base = player.base_mut();
                base.alive = true;
                base.x = (b.w - 1) / 2;
                base.y = b.h - 1;
                base.color = EntityColor::Cyan;
            },
            None => {},
        }
        self.level = 1;
        self.score = 0;
        self.status = GameStatus::Running;
        self.shots_fired = 0;
        self.shots_hit = 0;
        self.kills = 0;
        self.elapsed_time = 0;
    }

    fn update_player(player: &mut Entity)
        ensures
            *final(player) == player_tick(*old(player)),
    {
        match player {
            Entity::Player { base, data } => {
                data.ticks = sat_add_i32(data.ticks, 1);
                if data.damaged {
                    data.damaged = false;
                } else {
                    base.color = EntityColor::Cyan;
                }
            },
            _ => {},
        }
    }

    fn update_enemy(enemy: &mut Entity) -> (c: Option<EntityCommand>)
        ensures
            (*final(enemy), c) == enemy_tick(*old(enemy)),
    {
        match enemy {
            Entity::Enemy { base, data } => {
                base.color = EntityColor::NoColor;
                data.last_fired = sat_add_i32(data.last_fired, 1);
                if data.last_fired as i64 >= data.fire_freq as i64 - 1 {
                    base.color = EntityColor::Red;
                }
                if data.last_fired >= data.fire_freq {
                    let cmd = EntityCommand::SpawnBullet {
                        x: base.x,
                        y: sat_add_i32(base.y, 1),
                        damage: data.damage,
                        owner: Owner::Enemy,
                    };
                    data.last_fired = 0;
                    return Some(cmd);
                }
                None
            },
            _ => None,
        }
    }

    fn first_enemy_at(ps: &Vec<(i32, i32)>, x: i32, y: i32) -> (r: Option<usize>)
        ensures
            r matches Some(i) ==> first_at(ps@, x, y, 0) == Some(i as int),
            r is None ==> first_at(ps@, x, y, 0) is None,
    {
        let mut i: usize = 0;
        while i < ps.len()
            invariant
                i <= ps@.len(),
                first_at(ps@, x, y, 0) == first_at(ps@, x, y, i as int),
            decreases ps@.len() - i,
        {
            let (ex, ey) = ps[i];
            if ex == x && ey == y {
                return Some(i);
            }
            i += 1;
        }
        None
    }

    fn update_bullet(
        bullet: &mut Entity,
        bounds: Bounds,
        player_pos: Option<(i32, i32)>,
        enemy_positions: &Vec<(i32, i32)>,
    ) -> (cs: Vec<EntityCommand>)
        ensures
            (*final(bullet), cs@) == bullet_tick(*old(bullet), bounds, player_pos, enemy_positions@),
    {
        let mut commands: Vec<EntityCommand> = Vec::new();
        match bullet {
            Entity::Bullet { base, data } => {
                data.last_moved = sat_add_i32(data.last_moved, 1);
                if data.last_moved < data.move_freq {
                    return commands;
                }
                data.last_moved = 0;
                if data.owner == Owner::Enemy {
                    if let Some((px, py)) = player_pos {
                        if base.x == px && base.y == py {
                            commands.push(EntityCommand::DamagePlayer(data.damage));
                            base.alive = false;
                            return commands;
                        }
                    }
                    if base.y as i64 + 1 >= bounds.h as i64 {
                        base.alive = false;
                    } else {
                        base.y = base.y + 1;
                    }
                } else {
                    match Self::first_enemy_at(enemy_positions, base.x, base.y) {
                        Some(i) => {
                            commands.push(EntityCommand::DamageEnemy { index: i, amount: data.damage });
                            base.alive = false;
                            return commands;
                        },
                        None => {},
                    }
                    if base.y < 1 {
                        base.alive = false;
                    } else {
                        base.y = base.y - 1;
                    }
                }
                proof {
                    assert(commands@ =~= seq![]);
                }
                commands
            },
            _ => {
                proof {
                    assert(commands@ =~= seq![]);
                }
                commands
            },
        }
    }

    fn apply(&mut self, cmd: EntityCommand)
        ensures
            (final(self).player_v(), final(self).enemies_v(), final(self).bullets_v(), final(self).score_v(), final(self).shots_hit_v(), final(self).kills_v()) == apply_command(
                (old(self).player_v(), old(self).enemies_v(), old(self).bullets_v(), old(self).score_v(), old(self).shots_hit_v(), old(self).kills_v()),
                cmd,
            ),
            final(self).bounds_v() == old(self).bounds_v(),
            final(self).level_v() == old(self).level_v(),
            final(self).status_v() == old(self).status_v(),
            final(self).tps_v() == old(self).tps_v(),
            final(self).shots_fired_v() == old(self).shots_fired_v(),
            final(self).elapsed_v() == old(self).elapsed_v(),
    {
        match cmd {
            EntityCommand::SpawnBullet { x, y, damage, owner } => {
                self.spawn_bullet(x, y, damage, owner);
            },
            EntityCommand::DamagePlayer(amount) => {
                match &mut self.player {
                    Some(p) => {
                        p.damage(amount);
                    },
                    None => {},
                }
            },
            EntityCommand::DamageEnemy { index, amount } => {
                if index < self.enemies.len() {
                    let mut e = self.enemies[index];
                    let sc = e.damage(amount);
                    self.enemies.set(index, e);
                    self.score = sat_add_i32(self.score, sc);
                    self.shots_hit = sat_add_i32(self.shots_hit, 1);
                    if sc > 0 {
                        self.kills = sat_add_i32(self.kills, 1);
                    }
                }
            },
        }
    }

    /// Advances the game by one tick of `delta_us` microseconds: the player,
    /// every enemy, then every bullet takes its tick (bullets see the live
    /// player's and the enemies' positions), and then the commands those
    /// ticks gave act in order.
    pub fn update(&mut self, delta_us: i64)
        ensures
            final(self).elapsed_v() == sat_i64(old(self).elapsed_v() + delta_us),
            ({
                let ticked = match old(self).player_v() {
                    Some(p) => Some(player_tick(p)),
                    None => None,
                };
                let es1 = enemies_ticked(old(self).enemies_v());
                let pp = live_position(ticked);
                let eps = positions(es1);
                let bs1 = bullets_ticked(old(self).bullets_v(), old(self).bounds_v(), pp, eps);
                let cmds = enemy_commands(old(self).enemies_v()) + bullet_commands(
                    old(self).bullets_v(),
                    old(self).bounds_v(),
                    pp,
                    eps,
                );
                (final(self).player_v(), final(self).enemies_v(), final(self).bullets_v(), final(self).score_v(), final(self).shots_hit_v(), final(self).kills_v()) == apply_commands(
                    (ticked, es1, bs1, old(self).score_v(), old(self).shots_hit_v(), old(self).kills_v()),
                    cmds,
                )
            }),
            final(self).bounds_v() == old(self).bounds_v(),
            final(self).level_v() == old(self).level_v(),
            final(self).status_v() == old(self).status_v(),
            final(self).tps_v() == old(self).tps_v(),
            final(self).shots_fired_v() == old(self).shots_fired_v(),
    {
        self.elapsed_time = sat_add_i64(self.elapsed_time, delta_us);
        let mut commands: Vec<EntityCommand> = Vec::new();
        match &mut self.player {
            Some(p) => Self::update_player(p),
            None => {},
        }
        let ghost ticked = self.player;
        let ghost es0 = self.enemies@;
        let n = self.enemies.len();
        let mut i: usize = 0;
        while i < n
            invariant
                n == es0.len(),
                i <= n,
                self.enemies@.len() == n,
                forall|k: int| 0 <= k < i ==> #[trigger] self.enemies@[k] == enemy_tick(es0[k]).0,
                forall|k: int| i <= k < n ==> #[trigger] self.enemies@[k] == es0[k],
                commands@ == enemy_commands(es0.take(i as int)),
                self.player == ticked,
                self.bullets == old(self).bullets,
                self.bounds == old(self).bounds,
                self.level == old(self).level,
                self.status == old(self).status,
                self.tps == old(self).tps,
                self.shots_fired == old(self).shots_fired,
                self.shots_hit == old(self).shots_hit,
                self.kills == old(self).kills,
                self.score == old(self).score,
                self.elapsed_time == sat_i64(old(self).elapsed_time + delta_us),
            decreases n - i,
        {
            let mut e = self.enemies[i];
            let c = Self::update_enemy(&mut e);
            self.enemies.set(i, e);
            proof {
                assert(es0.take(i + 1).drop_last() =~= es0.take(i as int));
            }
            match c {
                Some(c) => commands.push(c),
                None => {},
            }
            i += 1;
        }
        proof {
            assert(es0.take(n as int) =~= es0);
            assert(self.enemies@ =~= enemies_ticked(es0));
        }
        let player_pos: Option<(i32, i32)> = match &self.player {
            Some(p) => if p.is_alive() {
                Some((p.x(), p.y()))
            } else {
                None
            },
            None => None,
        };
        let mut enemy_positions: Vec<(i32, i32)> = Vec::new();
        let mut i: usize = 0;
        while i < n
            invariant
                i <= n,
                n == self.enemies@.len(),
                enemy_positions@ =~= positions(self.enemies@).take(i as int),
            decreases n - i,
        {
            enemy_positions.push((self.enemies[i].x(), self.enemies[i].y()));
            i += 1;
        }
        proof {
            assert(enemy_positions@ =~= positions(self.enemies@));
        }
        let ghost es1 = self.enemies@;
        let ghost cmds_e = commands@;
        let ghost bs0 = self.bullets@;
        let bounds = self.bounds;
        let m = self.bullets.len();
        let mut j: usize = 0;
        while j < m
            invariant
                m == bs0.len(),
                j <= m,
                self.bullets@.len() == m,
                forall|k: int|
                    0 <= k < j ==> #[trigger] self.bullets@[k] == bullet_tick(
                        bs0[k],
                        bounds,
                        player_pos,
                        enemy_positions@,
                    ).0,
                forall|k: int| j <= k < m ==> #[trigger] self.bullets@[k] == bs0[k],
                commands@ == cmds_e + bullet_commands(
                    bs0.take(j as int),
                    bounds,
                    player_pos,
                    enemy_positions@,
                ),
                self.player == ticked,
                self.enemies@ == es1,
                bounds == self.bounds,
                self.bounds == old(self).bounds,
                self.level == old(self).level,
                self.status == old(self).status,
                self.tps == old(self).tps,
                self.shots_fired == old(self).shots_fired,
                self.shots_hit == old(self).shots_hit,
                self.kills == old(self).kills,
                self.score == old(self).score,
                self.elapsed_time == sat_i64(old(self).elapsed_time + delta_us),
            decreases m - j,
        {
            let mut b = self.bullets[j];
            let mut cs = Self::update_bullet(&mut b, bounds, player_pos, &enemy_positions);
            self.bullets.set(j, b);
            proof {
                assert(bs0.take(j + 1).drop_last() =~= bs0.take(j as int));
                assert(bs0.take(j + 1).last() == bs0[j as int]);
            }
            commands.append(&mut cs);
            proof {
                assert(commands@ =~= cmds_e + bullet_commands(
                    bs0.take(j + 1),
                    bounds,
                    player_pos,
                    enemy_positions@,
                ));
            }
            j += 1;
        }
        proof {
            assert(bs0.take(m as int) =~= bs0);
            assert(self.bullets@ =~= bullets_ticked(bs0, bounds, player_pos, enemy_positions@));
        }
        let ghost st0: Board = (
            self.player,
            self.enemies@,
            self.bullets@,
            self.score,
            self.shots_hit,
            self.kills,
        );
        let ghost all = commands@;
        let mut k: usize = 0;
        while k < commands.len()
            invariant
                all == commands@,
                k <= all.len(),
                (self.player_v(), self.enemies_v(), self.bullets_v(), self.score_v(),
                self.shots_hit_v(), self.kills_v()) == apply_commands(st0, all.take(k as int)),
                self.bounds == old(self).bounds,
                self.level == old(self).level,
                self.status == old(self).status,
                self.tps == old(self).tps,
                self.shots_fired == old(self).shots_fired,
                self.elapsed_time == sat_i64(old(self).elapsed_time + delta_us),
            decreases all.len() - k,
        {
            proof {
                assert(all.take(k + 1).drop_last() =~= all.take(k as int));
            }
            self.apply(commands[k]);
            k += 1;
        }
        proof {
            assert(all.take(all.len() as int) =~= all);
        }
    }

    /// Drops dead bullets and enemies, keeping the others in order; a dead
    /// player ends the game.
    pub fn remove_dead_entities(&mut self)
        ensures
            final(self).bullets_v() == old(self).bullets_v().filter(|e: Entity| e.base_of().alive),
            final(self).enemies_v() == old(self).enemies_v().filter(|e: Entity| e.base_of().alive),
            final(self).status_v() == match old(self).player_v() {
                Some(p) => if !p.base_of().alive {
                    GameStatus::GameOver
                } else {
                    old(self).status_v()
                },
                None => old(self).status_v(),
            },
            final(self).player_v() == old(self).player_v(),
            final(self).bounds_v() == old(self).bounds_v(),
            final(self).level_v() == old(self).level_v(),
            final(self).score_v() == old(self).score_v(),
            final(self).tps_v() == old(self).tps_v(),
            final(self).shots_fired_v() == old(self).shots_fired_v(),
            final(self).shots_hit_v() == old(self).shots_hit_v(),
            final(self).kills_v() == old(self).kills_v(),
            final(self).elapsed_v() == old(self).elapsed_v(),
    {
        let bullets = keep_alive(&self.bullets);
        self.bullets = bullets;
        let enemies = keep_alive(&self.enemies);
        self.enemies = enemies;
        match &self.player {
            Some(p) => {
                if !p.is_alive() {
                    self.status = GameStatus::GameOver;
                }
            },
            None => {},
        }
    }

    /// The player's effect of key `key`: `a` or Left moves it one column
    /// left, `d` or Right one column right, within the board; space fires a
    /// bullet from just above it once its cooldown has elapsed.
    pub fn process_input(&mut self, event: &Event)
        ensures
            match (*event, old(self).player_v()) {
                (Event::Key(key), Some(p)) => {
                    let px = p.base_of().x;
                    let py = p.base_of().y;
                    if char_matches(key, 'a') || key.code == KeyCode::Left {
                        &&& final(self).player_v() == Some(
                            if px > 0 {
                                p.with_base(EntityBase { x: (px - 1) as i32, ..p.base_of() })
                            } else {
                                p
                            },
                        )
                        &&& final(self).bullets_v() == old(self).bullets_v()
                        &&& final(self).shots_fired_v() == old(self).shots_fired_v()
                    } else if char_matches(key, 'd') || key.code == KeyCode::Right {
                        &&& final(self).player_v() == Some(
                            if px < old(self).bounds_v().w - 1 {
                                p.with_base(EntityBase { x: (px + 1) as i32, ..p.base_of() })
                            } else {
                                p
                            },
                        )
                        &&& final(self).bullets_v() == old(self).bullets_v()
                        &&& final(self).shots_fired_v() == old(self).shots_fired_v()
                    } else if char_matches(key, ' ') {
                        match p {
                            Entity::Player { base, data } => if data.ticks >= data.cooldown {
                                &&& final(self).player_v() == Some(
                                    Entity::Player { base, data: PlayerData { ticks: 0, ..data } },
                                )
                                &&& final(self).shots_fired_v() == sat_i32(
                                    old(self).shots_fired_v() + 1,
                                )
                                &&& final(self).bullets_v() == old(self).bullets_v().push(
                                    Entity::bullet_spec(px, sat_i32(py - 1), data.damage, Owner::Player),
                                )
                            } else {
                                &&& final(self).player_v() == old(self).player_v()
                                &&& final(self).bullets_v() == old(self).bullets_v()
                                &&& final(self).shots_fired_v() == old(self).shots_fired_v()
                            },
                            _ => {
                                &&& final(self).player_v() == old(self).player_v()
                                &&& final(self).bullets_v() == old(self).bullets_v()
                                &&& final(self).shots_fired_v() == old(self).shots_fired_v()
                            },
                        }
                    } else {
                        &&& final(self).player_v() == old(self).player_v()
                        &&& final(self).bullets_v() == old(self).bullets_v()
                        &&& final(self).shots_fired_v() == old(self).shots_fired_v()
                    }
                },
                _ => {
                    &&& final(self).player_v() == old(self).player_v()
                    &&& final(self).bullets_v() == old(self).bullets_v()
                    &&& final(self).shots_fired_v() == old(self).shots_fired_v()
                },
            },
            final(self).enemies_v() == old(self).enemies_v(),
            final(self).bounds_v() == old(self).bounds_v(),
            final(self).level_v() == old(self).level_v(),
            final(self).score_v() == old(self).score_v(),
            final(self).status_v() == old(self).status_v(),
            final(self).tps_v() == old(self).tps_v(),
            final(self).shots_hit_v() == old(self).shots_hit_v(),
            final(self).kills_v() == old(self).kills_v(),
            final(self).elapsed_v() == old(self).elapsed_v(),
    {
        let key: KeyEvent = match event {
            Event::Key(k) => *k,
            _ => {
                return ;
            },
        };
        let bw = self.bounds.w;
        match &mut self.player {
            Some(player) => {
                let px = player.x();
                let py = player.y();
                if is_char(&key, 'a') || is_key(&key, KeyCode::Left) {
                    if px > 0 {
                        player.set_x(px - 1);
                    }
                } else if is_char(&key, 'd') || is_key(&key, KeyCode::Right) {
                    if (px as i64) < bw as i64 - 1 {
                        player.set_x(px + 1);
                    }
                } else if is_char(&key, ' ') {
                    match player {
                        Entity::Player { data, .. } => {
                            if data.ticks >= data.cooldown {
                                let damage = data.damage;
                                data.ticks = 0;
                                self.shots_fired = sat_add_i32(self.shots_fired, 1);
                                self.bullets.push(
                                    Entity::new_bullet(px, sat_add_i32(py, -1), damage, Owner::Player),
                                );
                            }
                        },
                        _ => {},
                    }
                }
            },
            None => {},
        }
    }

    /// Draws the entities scaled from the board into `bbox`: bullets, then
    /// enemies, then the live player.
    pub fn draw(&self, screen: &mut Screen, bbox: BBox)
        requires
            self.wf(),
            old(screen).wf(),
        ensures
            final(screen).wf(),
            final(screen).w() == old(screen).w(),
            final(screen).h() == old(screen).h(),
            final(screen).front_cells() == old(screen).front_cells(),
    {
        let bw = self.bounds.w as i64;
        let bh = self.bounds.h as i64;
        let x_pad = (bbox.w as i64 / bw) / 2;
        let y_pad = (bbox.h as i64 / bh) / 2;
        let mut i: usize = 0;
        while i < self.bullets.len()
            invariant
                screen.wf(),
                screen.w() == old(screen).w(),
                screen.h() == old(screen).h(),
                screen.front_cells() == old(screen).front_cells(),
                self.wf(),
                bw == self.bounds_v().w,
                bh == self.bounds_v().h,
                0 <= x_pad <= u32::MAX,
                0 <= y_pad <= u32::MAX,
            decreases self.bullets@.len() - i,
        {
            draw_scaled(&self.bullets[i], screen, bbox, bw, bh, x_pad, y_pad);
            i += 1;
        }
        let mut i: usize = 0;
        while i < self.enemies.len()
            invariant
                screen.wf(),
                screen.w() == old(screen).w(),
                screen.h() == old(screen).h(),
                screen.front_cells() == old(screen).front_cells(),
                self.wf(),
                bw == self.bounds_v().w,
                bh == self.bounds_v().h,
                0 <= x_pad <= u32::MAX,
                0 <= y_pad <= u32::MAX,
            decreases self.enemies@.len() - i,
        {
            draw_scaled(&self.enemies[i], screen, bbox, bw, bh, x_pad, y_pad);
            i += 1;
        }
        match &self.player {
            Some(p) => {
                if p.is_alive() {
                    draw_scaled(p, screen, bbox, bw, bh, x_pad, y_pad);
                }
            },
            None => {},
        }
    }
}

/// `a / b` rounded toward zero, for positive `b`.
fn div_toward_zero(a: i128, b: i128) -> (q: i128)
    requires
        b > 0,
        -0x1_0000_0000_0000_0000_0000 <= a <= 0x1_0000_0000_0000_0000_0000,
    ensures
        q == if a >= 0 {
            a as int / b as int
        } else {
            -((-(a as int)) / b as int)
        },
        -0x1_0000_0000_0000_0000_0000 <= q <= 0x1_0000_0000_0000_0000_0000,
{
    if a >= 0 {
        let q0 = a / b;
        assert(q0 <= a) by (nonlinear_arith)
            requires
                q0 == a / b,
                a >= 0,
                b > 0,
        ;
        q0
    } else {
        let m = -a;
        let q0 = m / b;
        assert(q0 <= m) by (nonlinear_arith)
            requires
                q0 == m / b,
                m >= 0,
                b > 0,
        ;
        -q0
    }
}

/// Draws entity `e` at its board position scaled into `bbox`.
fn draw_scaled(e: &Entity, screen: &mut Screen, bbox: BBox, bw: i64, bh: i64, x_pad: i64, y_pad: i64)
    requires
        old(screen).wf(),
        bw >= 1,
        bh >= 1,
        bw <= i32::MAX,
        bh <= i32::MAX,
        0 <= x_pad <= u32::MAX,
        0 <= y_pad <= u32::MAX,
    ensures
        final(screen).wf(),
        final(screen).w() == old(screen).w(),
        final(screen).h() == old(screen).h(),
        final(screen).front_cells() == old(screen).front_cells(),
{
    let ex = e.x() as i128;
    let ey = e.y() as i128;
    let bxw = bbox.w as i128;
    let bxh = bbox.h as i128;
    assert(-0x1_0000_0000_0000_0000 <= ex * bxw <= 0x1_0000_0000_0000_0000) by (nonlinear_arith)
        requires
            -0x8000_0000 <= ex <= 0x7FFF_FFFF,
            0 <= bxw <= 0xFFFF_FFFF,
    ;
    assert(-0x1_0000_0000_0000_0000 <= ey * bxh <= 0x1_0000_0000_0000_0000) by (nonlinear_arith)
        requires
            -0x8000_0000 <= ey <= 0x7FFF_FFFF,
            0 <= bxh <= 0xFFFF_FFFF,
    ;
    let pw = ex * bxw;
    let ph = ey * bxh;
    let sx = div_toward_zero(pw, bw as i128);
    let sy = div_toward_zero(ph, bh as i128);
    let xx = sx + bbox.x as i128 + x_pad as i128;
    let yy = sy + bbox.y as i128 + y_pad as i128;
    if xx >= 0 && yy >= 0 && xx <= usize::MAX as i128 && yy <= usize::MAX as i128 {
        e.draw(screen, xx as usize, yy as usize);
    }
}

/// The entities of `es` that are alive, in order.
fn keep_alive(es: &Vec<Entity>) -> (r: Vec<Entity>)
    ensures
        r@ == es@.filter(|e: Entity| e.base_of().alive),
{
    let mut r: Vec<Entity> = Vec::new();
    let mut i: usize = 0;
    while i < es.len()
        invariant
            i <= es@.len(),
            r@ == es@.take(i as int).filter(|e: Entity| e.base_of().alive),
        decreases es@.len() - i,
    {
        proof {
            assert(es@.take(i + 1).drop_last() =~= es@.take(i as int));
            reveal(Seq::filter);
        }
        if es[i].is_alive() {
            r.push(es[i]);
        }
        i += 1;
    }
    proof {
        assert(es@.take(es@.len() as int) =~= es@);
    }
    r
}

} // verus!
