use invaders::entity::{Entity, EntityColor, Owner};
use invaders::game::{Bounds, Game, GameStatus};
use invaders::input::{Event, KeyCode, KeyEvent, KeyModifiers};
use invaders::level::{levels, spawn_level, LEVEL_COUNT};
use invaders::screen::Screen;
use invaders::widget::BBox;

fn press(c: KeyCode) -> Event {
    Event::Key(KeyEvent { code: c, modifiers: KeyModifiers::none() })
}

fn player_pos(g: &Game) -> (i32, i32) {
    let p = g.player().unwrap();
    (p.x(), p.y())
}

#[test]
fn new_game() {
    let g = Game::new(11, 11, 4);
    assert_eq!(g.bounds(), Bounds { w: 11, h: 11 });
    assert_eq!(g.level(), 1);
    assert_eq!(g.score(), 0);
    assert_eq!(g.status(), GameStatus::Running);
    assert_eq!(g.tps(), 4);
    assert_eq!(g.player_health(), 5);
    assert_eq!(player_pos(&g), (5, 10));
    assert_eq!(g.enemy_count(), 0);
    assert_eq!(g.bullet_count(), 0);
    assert_eq!(g.accuracy_percent(), 0);
    assert_eq!(g.time_seconds(), 0);
    assert_eq!((g.shots_fired(), g.shots_hit(), g.kills()), (0, 0, 0));
}

#[test]
fn moving_stays_on_the_board() {
    let mut g = Game::new(3, 5, 4);
    assert_eq!(player_pos(&g), (1, 4));
    g.process_input(&press(KeyCode::Left));
    assert_eq!(player_pos(&g), (0, 4));
    g.process_input(&press(KeyCode::Char('a')));
    assert_eq!(player_pos(&g), (0, 4));
    g.process_input(&press(KeyCode::Char('D')));
    g.process_input(&press(KeyCode::Right));
    assert_eq!(player_pos(&g), (2, 4));
    g.process_input(&press(KeyCode::Char('d')));
    assert_eq!(player_pos(&g), (2, 4));
    let ctrl_a = Event::Key(KeyEvent { code: KeyCode::Char('a'), modifiers: KeyModifiers::control() });
    g.process_input(&ctrl_a);
    assert_eq!(player_pos(&g), (2, 4));
}

#[test]
fn shooting_respects_the_cooldown() {
    let mut g = Game::new(11, 11, 4);
    g.process_input(&press(KeyCode::Char(' ')));
    assert_eq!(g.bullet_count(), 1);
    assert_eq!(g.shots_fired(), 1);
    g.process_input(&press(KeyCode::Char(' ')));
    assert_eq!(g.bullet_count(), 1);
    g.update(250_000);
    g.update(250_000);
    g.process_input(&press(KeyCode::Char(' ')));
    assert_eq!(g.bullet_count(), 2);
    assert_eq!(g.shots_fired(), 2);
}

#[test]
fn enemies_fire_when_their_time_comes() {
    let mut g = Game::new(11, 11, 4);
    g.spawn_enemy(3, 0, 1, 5, 2, 1);
    g.update(1);
    assert_eq!(g.bullet_count(), 0);
    g.update(1);
    assert_eq!(g.bullet_count(), 1);
    g.update(1);
    assert_eq!(g.bullet_count(), 1);
}

#[test]
fn player_bullet_kills_enemy() {
    let mut g = Game::new(11, 11, 4);
    g.spawn_enemy(5, 8, 1, 5, 100, 1);
    g.process_input(&press(KeyCode::Char(' ')));
    g.update(1);
    g.remove_dead_entities();
    assert_eq!(g.enemy_count(), 1);
    g.update(1);
    assert_eq!(g.score(), 5);
    assert_eq!(g.kills(), 1);
    assert_eq!(g.shots_hit(), 1);
    assert_eq!(g.accuracy_percent(), 100);
    g.remove_dead_entities();
    assert_eq!(g.enemy_count(), 0);
    assert_eq!(g.bullet_count(), 0);
    assert_eq!(g.status(), GameStatus::Running);
}

#[test]
fn tough_enemy_survives_a_hit() {
    let mut g = Game::new(11, 11, 4);
    g.spawn_enemy(5, 8, 3, 5, 100, 1);
    g.spawn_bullet(5, 8, 1, Owner::Player);
    g.update(1);
    assert_eq!(g.score(), 0);
    assert_eq!(g.kills(), 0);
    assert_eq!(g.shots_hit(), 1);
    g.remove_dead_entities();
    assert_eq!(g.enemy_count(), 1);
}

#[test]
fn enemy_bullet_kills_player_and_ends_game() {
    let mut g = Game::new(11, 11, 4);
    g.spawn_bullet(5, 10, 5, Owner::Enemy);
    g.update(1);
    assert_eq!(g.player_health(), 0);
    assert!(!g.player().unwrap().is_alive());
    g.remove_dead_entities();
    assert_eq!(g.status(), GameStatus::GameOver);
}

#[test]
fn bullets_leave_the_board() {
    let mut g = Game::new(11, 11, 4);
    g.spawn_bullet(0, 0, 1, Owner::Player);
    g.spawn_bullet(0, 10, 1, Owner::Enemy);
    g.update(1);
    g.remove_dead_entities();
    assert_eq!(g.bullet_count(), 0);
}

#[test]
fn reset_restores_a_fresh_game() {
    let mut g = Game::new(11, 11, 4);
    g.process_input(&press(KeyCode::Left));
    g.process_input(&press(KeyCode::Char(' ')));
    g.spawn_enemy(1, 1, 1, 1, 1, 1);
    g.increment_level();
    g.set_status(GameStatus::Paused);
    g.update(3_000_000);
    g.reset();
    assert_eq!(g.level(), 1);
    assert_eq!(g.status(), GameStatus::Running);
    assert_eq!(g.enemy_count(), 0);
    assert_eq!(g.bullet_count(), 0);
    assert_eq!(g.shots_fired(), 0);
    assert_eq!(g.time_seconds(), 0);
    assert_eq!(player_pos(&g), (5, 10));
    assert_eq!(g.player_health(), 5);
}

#[test]
fn time_and_level_counters() {
    let mut g = Game::new(11, 11, 4);
    g.update(1_500_000);
    g.update(1_500_000);
    assert_eq!(g.time_seconds(), 3);
    g.increment_level();
    assert_eq!(g.level(), 2);
    g.set_status(GameStatus::Finished);
    assert_eq!(g.status(), GameStatus::Finished);
}

#[test]
fn levels_spawn_their_enemies() {
    let ls = levels();
    assert_eq!(ls.len() as i32, LEVEL_COUNT);
    let mut g = Game::new(11, 11, 4);
    spawn_level(&mut g, &ls[0]);
    assert_eq!(g.enemy_count(), 6);
    spawn_level(&mut g, &ls[2]);
    assert_eq!(g.enemy_count(), 16);
    assert_eq!(ls[1].enemies.len(), 8);
}

#[test]
fn game_draws_scaled_entities() {
    let mut s = Screen::new(4, 4);
    let g = Game::new(2, 2, 4);
    g.draw(&mut s, BBox { x: 0, y: 0, w: 4, h: 4 });
    assert_eq!(
        String::from_utf8(s.flush()).unwrap(),
        "\x1b[4;2H\x1b[38;2;0;255;255m\x1b[49mA"
    );
}

#[test]
fn entity_damage() {
    let mut p = Entity::new_player(1, 2, 3, 1, 2);
    assert_eq!(p.damage(1), 0);
    assert_eq!(p.as_player().unwrap().health, 2);
    assert!(p.as_player().unwrap().damaged);
    assert_eq!(p.base().color, EntityColor::NoColor);
    assert_eq!(p.damage(5), 0);
    assert!(!p.is_alive());
    let mut e = Entity::new_enemy(0, 0, 2, 7, 3, 1);
    assert_eq!(e.damage(1), 0);
    assert_eq!(e.damage(1), 7);
    assert!(!e.is_alive());
    let mut b = Entity::new_bullet(0, 0, 1, Owner::Enemy);
    assert_eq!(b.damage(10), 0);
    assert!(b.is_alive());
    assert_eq!(b.base().shape, "|");
    assert_eq!(Entity::new_bullet(0, 0, 1, Owner::Player).base().shape, "0");
    assert!(b.as_bullet().is_some() && b.as_enemy().is_none() && b.as_player().is_none());
}

#[test]
fn entity_position_and_collisions() {
    let mut a = Entity::new_enemy(1, 1, 1, 1, 1, 1);
    let b = Entity::new_bullet(2, 1, 1, Owner::Player);
    assert!(!a.collides_with(&b));
    a.set_x(2);
    assert!(a.collides_with(&b));
    a.set_y(5);
    assert_eq!((a.x(), a.y()), (2, 5));
    a.kill();
    assert!(!a.is_alive());
    if let Some(d) = a.as_enemy_mut() {
        d.health = 9;
    }
    assert_eq!(a.as_enemy().unwrap().health, 9);
    assert_eq!(EntityColor::Red.to_color().0, 0xFFFF0000);
    assert_eq!(EntityColor::NoColor.to_color().0, 0xFFFFFFFF);
}
