//! Level definitions: where each level's enemies stand and how they behave.

use vstd::prelude::*;
use crate::entity::Entity;
use crate::game::Game;

verus! {

#[derive(Clone, Copy, Debug, PartialEq, Eq, Structural)]
pub struct EnemyDef {
    pub x: i32,
    pub y: i32,
    pub health: i32,
    pub score: i32,
    pub fire_freq: i32,
    pub damage: i32,
}

pub struct LevelDef {
    pub enemies: Vec<EnemyDef>,
}

pub const LEVEL_COUNT: i32 = 3;

pub open spec fn enemy_of(d: EnemyDef) -> Entity {
    Entity::enemy_spec(d.x, d.y, d.health, d.score, d.fire_freq, d.damage)
}

fn def(x: i32, y: i32, health: i32, score: i32, fire_freq: i32, damage: i32) -> (d: EnemyDef)
    ensures
        d == (EnemyDef { x, y, health, score, fire_freq, damage }),
{
    EnemyDef { x, y, health, score, fire_freq, damage }
}

/// The three levels: six slow enemies in two rows; eight faster and tougher
/// ones; ten fast and dangerous ones.
pub fn levels() -> (ls: Vec<LevelDef>)
    ensures
        ls@.len() == LEVEL_COUNT,
        ls@[0].enemies@.len() == 6,
        ls@[1].enemies@.len() == 8,
        ls@[2].enemies@.len() == 10,
{
    let one = vec![
        def(0, 0, 3, 5, 5, 1),
        def(2, 1, 3, 5, 6, 1),
        def(4, 0, 3, 5, 5, 1),
        def(6, 1, 3, 5, 6, 1),
        def(8, 0, 3, 5, 5, 1),
        def(10, 1, 3, 5, 6, 1),
    ];
    let two = vec![
        def(0, 0, 4, 8, 4, 1),
        def(2, 1, 3, 6, 5, 1),
        def(4, 0, 5, 10, 4, 1),
        def(6, 1, 3, 6, 5, 1),
        def(8, 0, 4, 8, 4, 1),
        def(10, 1, 3, 6, 5, 1),
        def(1, 2, 4, 8, 4, 1),
        def(9, 2, 4, 8, 4, 1),
    ];
    let three = vec![
        def(0, 0, 5, 12, 3, 1),
        def(2, 1, 4, 10, 4, 2),
        def(4, 0, 6, 15, 3, 1),
        def(6, 1, 4, 10, 4, 2),
        def(8, 0, 5, 12, 3, 1),
        def(10, 1, 4, 10, 4, 2),
        def(1, 2, 5, 12, 3, 1),
        def(5, 2, 6, 15, 3, 2),
        def(9, 2, 5, 12, 3, 1),
        def(3, 3, 4, 10, 4, 1),
    ];
    vec![LevelDef { enemies: one }, LevelDef { enemies: two }, LevelDef { enemies: three }]
}

/// Adds the level's enemies to the game, after any it already has.
pub fn spawn_level(game: &mut Game, level: &LevelDef)
    ensures
        final(game).enemies_v() == old(game).enemies_v() + level.enemies@.map_values(
            |d: EnemyDef| enemy_of(d),
        ),
        final(game).bullets_v() == old(game).bullets_v(),
        final(game).player_v() == old(game).player_v(),
        final(game).same_except_entities(*old(game)),
{
    let mut i: usize = 0;
    while i < level.enemies.len()
        invariant
            i <= level.enemies@.len(),
            game.enemies_v() == old(game).enemies_v() + level.enemies@.take(i as int).map_values(
                |d: EnemyDef| enemy_of(d),
            ),
            game.bullets_v() == old(game).bullets_v(),
            game.player_v() == old(game).player_v(),
            game.same_except_entities(*old(game)),
        decreases level.enemies@.len() - i,
    {
        let e = level.enemies[i];
        game.spawn_enemy(e.x, e.y, e.health, e.score, e.fire_freq, e.damage);
        i += 1;
        proof {
            assert(level.enemies@.take(i as int).map_values(|d: EnemyDef| enemy_of(d))
                =~= level.enemies@.take(i - 1).map_values(|d: EnemyDef| enemy_of(d)).push(
                enemy_of(e),
            ));
            assert(game.enemies_v() =~= old(game).enemies_v() + level.enemies@.take(
                i as int,
            ).map_values(|d: EnemyDef| enemy_of(d)));
        }
    }
    proof {
        assert(level.enemies@.take(level.enemies@.len() as int) =~= level.enemies@);
    }
}

} // verus!
