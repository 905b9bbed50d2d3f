use limspce::contact::Contact;
use limspce::game::{Game, FIRE_OFFSET_HIGH, FIRE_OFFSET_LOW, MAX_BLANKS, START_HEALTH};
use limspce::state::GameState;

fn game() -> Game<u32, u32, u32> {
    Game::starting(7, 2)
}

fn contact(player: bool, blanks: &[bool]) -> Contact {
    Contact { player, blanks: blanks.to_vec() }
}

#[test]
fn starting_game_is_on_the_menu() {
    let g = game();
    assert_eq!(g.frame, 1);
    assert_eq!(g.state, GameState::MainMenu);
    assert!(g.on_plat);
    assert_eq!(g.health, START_HEALTH);
    assert_eq!(g.health, 3);
    assert_eq!(g.blank, MAX_BLANKS);
    assert_eq!(g.blank, 3);
    assert!(g.blanks.is_empty());
    assert_eq!(g.enemies.len(), 1);
    assert_eq!(g.enemies[0].body, 7);
    assert_eq!(g.enemies[0].rdmf, 2);
    assert!(g.enemies[0].proj.is_empty());
}

#[test]
fn new_games_draw_firing_offsets_in_range() {
    let mut seen = [false; 8];
    for _ in 0..400 {
        let g: Game<u32, u32, u32> = Game::new(1);
        let r = g.enemies[0].rdmf;
        assert!(FIRE_OFFSET_LOW <= r && r < FIRE_OFFSET_HIGH);
        seen[r as usize] = true;
        assert_eq!(g.state, GameState::MainMenu);
    }
    // The draw is not stuck on either end of its range.
    assert!(seen[2] || seen[3]);
    assert!(seen[1] && seen[4]);
}

#[test]
fn restart_gives_a_running_fresh_game() {
    let mut g = game();
    g.frame = 4000;
    g.health = -2;
    g.blank = 0;
    g.state = GameState::GameOver;
    g.blanks.push(9);
    g.restart(5);
    assert_eq!(g.state, GameState::Play);
    assert_eq!(g.frame, 1);
    assert_eq!(g.health, 3);
    assert_eq!(g.blank, 3);
    assert!(g.blanks.is_empty());
    assert_eq!(g.enemies.len(), 1);
    assert_eq!(g.enemies[0].body, 5);
    assert!(g.enemies[0].rdmf >= 1 && g.enemies[0].rdmf <= 4);
}

#[test]
fn tick_counts_frames_and_records_footing() {
    let mut g = game();
    g.tick(false);
    assert_eq!(g.frame, 2);
    assert!(!g.on_plat);
    g.tick(true);
    assert_eq!(g.frame, 3);
    assert!(g.on_plat);
}

#[test]
fn fall_damage_only_off_platform_on_its_frames() {
    let mut g = game();
    g.frame = 30;
    g.on_plat = false;
    g.player_step(false, 0);
    assert_eq!(g.health, 2);
    g.frame = 31;
    g.player_step(false, 0);
    assert_eq!(g.health, 2);
    g.frame = 60;
    g.on_plat = true;
    g.player_step(false, 0);
    assert_eq!(g.health, 2);
}

#[test]
fn fall_damage_floors_at_zero_and_lifts_negative_health() {
    let mut g = game();
    g.frame = 90;
    g.on_plat = false;
    g.health = -4;
    g.player_step(false, 0);
    assert_eq!(g.health, 0);
    assert_eq!(g.state, GameState::GameOver);
}

#[test]
fn losing_the_last_point_ends_the_game() {
    let mut g = game();
    g.state = GameState::Play;
    g.health = 1;
    g.frame = 30;
    g.on_plat = false;
    g.player_step(false, 0);
    assert_eq!(g.health, 0);
    assert_eq!(g.state, GameState::GameOver);
    // It stays over in later updates.
    g.frame = 31;
    g.player_step(false, 0);
    assert_eq!(g.state, GameState::GameOver);
}

#[test]
fn blanks_recharge_every_thousand_frames_up_to_three() {
    let mut g = game();
    g.blank = 1;
    g.frame = 1000;
    g.player_step(false, 0);
    assert_eq!(g.blank, 2);
    g.frame = 1001;
    g.player_step(false, 0);
    assert_eq!(g.blank, 2);
    g.frame = 2000;
    g.player_step(false, 0);
    assert_eq!(g.blank, 3);
    g.frame = 3000;
    g.player_step(false, 0);
    assert_eq!(g.blank, 3);
}

#[test]
fn using_a_blank_puts_it_in_play() {
    let mut g = game();
    g.player_step(true, 11);
    assert_eq!(g.blank, 2);
    assert_eq!(g.blanks, vec![11]);
    g.blank = 0;
    g.player_step(true, 12);
    assert_eq!(g.blank, 0);
    assert_eq!(g.blanks, vec![11]);
}

#[test]
fn finished_blanks_are_swap_removed_last_first() {
    let mut g = game();
    g.blanks = vec![10, 20, 30, 40];
    g.expire_blanks(&vec![true, false, true, false]);
    assert_eq!(g.blanks, vec![40, 20]);
}

#[test]
fn no_finished_blank_leaves_the_list() {
    let mut g = game();
    g.blanks = vec![10, 20, 30];
    g.expire_blanks(&vec![false, false, false]);
    assert_eq!(g.blanks, vec![10, 20, 30]);
    g.expire_blanks(&vec![true, true, true]);
    assert!(g.blanks.is_empty());
}

#[test]
fn expired_and_remaining_blanks_make_up_the_list() {
    let mut g = game();
    g.blanks = vec![1, 2, 3, 4, 5, 6];
    g.expire_blanks(&vec![false, true, false, false, true, true]);
    let mut rest = g.blanks.clone();
    rest.sort();
    assert_eq!(rest, vec![1, 3, 4]);
}

#[test]
fn player_hits_cost_health_and_remove_shots() {
    let mut g = game();
    g.enemies[0].proj = vec![100, 101, 102];
    let contacts = vec![vec![
        contact(true, &[false]),
        contact(false, &[false]),
        contact(true, &[true]),
    ]];
    assert!(g.hits_resolvable(&contacts));
    g.resolve_hits(&contacts);
    assert_eq!(g.health, 1);
    assert_eq!(g.enemies[0].proj, vec![101]);
}

#[test]
fn blanks_remove_the_shots_they_cover() {
    let mut g = game();
    g.enemies[0].proj = vec![1, 2, 3, 4];
    g.add_enemy(8, 3);
    g.enemies[1].proj = vec![5, 6];
    let contacts = vec![
        vec![
            contact(false, &[false, true]),
            contact(false, &[false, false]),
            contact(false, &[true, false]),
            contact(false, &[false, false]),
        ],
        vec![contact(false, &[false, false]), contact(false, &[true, false])],
    ];
    assert!(g.hits_resolvable(&contacts));
    g.resolve_hits(&contacts);
    assert_eq!(g.health, 3);
    assert_eq!(g.enemies[0].proj, vec![4, 2]);
    assert_eq!(g.enemies[1].proj, vec![5]);
}

#[test]
fn a_shot_under_two_blanks_is_removed_twice() {
    let mut g = game();
    g.enemies[0].proj = vec![1, 2, 3];
    let contacts = vec![vec![
        contact(false, &[true, true]),
        contact(false, &[false, false]),
        contact(false, &[false, false]),
    ]];
    assert!(g.hits_resolvable(&contacts));
    g.resolve_hits(&contacts);
    assert_eq!(g.enemies[0].proj, vec![2]);
}

#[test]
fn a_double_removal_past_the_end_is_refused() {
    let g = {
        let mut g = game();
        g.enemies[0].proj = vec![1, 2];
        g
    };
    let contacts = vec![vec![contact(false, &[false, false]), contact(false, &[true, true])]];
    assert!(!g.hits_resolvable(&contacts));
    let wrong_count = vec![vec![contact(false, &[])]];
    assert!(!g.hits_resolvable(&wrong_count));
    let wrong_enemies: Vec<Vec<Contact>> = vec![];
    assert!(!g.hits_resolvable(&wrong_enemies));
}

#[test]
fn health_that_cannot_take_the_hits_is_refused() {
    let mut g = game();
    g.health = i32::MIN + 1;
    g.enemies[0].proj = vec![1, 2];
    let contacts = vec![vec![contact(true, &[]), contact(true, &[])]];
    assert!(!g.hits_resolvable(&contacts));
    let one = vec![vec![contact(true, &[]), contact(false, &[])]];
    assert!(g.hits_resolvable(&one));
    g.resolve_hits(&one);
    assert_eq!(g.health, i32::MIN);
    assert_eq!(g.enemies[0].proj, vec![2]);
}

#[test]
fn enemies_arrive_every_eleven_hundred_frames() {
    let mut g = game();
    g.frame = 1100;
    assert!(g.spawn_due());
    g.frame = 1101;
    assert!(!g.spawn_due());
    g.spawn_enemy(42);
    assert_eq!(g.enemies.len(), 2);
    assert_eq!(g.enemies[1].body, 42);
    assert!(g.enemies[1].rdmf >= 1 && g.enemies[1].rdmf <= 4);
    assert!(g.enemies[1].proj.is_empty());
    assert_eq!(g.enemies[0].body, 7);
}

#[test]
fn firing_follows_the_three_periods_and_the_offset() {
    let mut g = game();
    g.enemies[0].rdmf = 1;
    for (frame, fires) in [(101, true), (111, true), (121, true), (102, false), (202, true), (1, false)] {
        g.frame = frame;
        assert_eq!(g.fires(0), fires, "frame {}", frame);
    }
    g.enemies[0].rdmf = 4;
    g.frame = 124;
    assert!(g.fires(0));
    g.frame = 101;
    assert!(!g.fires(0));
}

#[test]
fn firing_appends_a_shot() {
    let mut g = game();
    g.add_enemy(9, 1);
    g.fire(1, 55);
    g.fire(1, 56);
    assert_eq!(g.enemies[1].proj, vec![55, 56]);
    assert!(g.enemies[0].proj.is_empty());
}

#[test]
fn culling_keeps_the_order_of_the_rest() {
    let mut g = game();
    g.enemies[0].proj = vec![1, 2, 3, 4, 5];
    g.cull(0, &vec![true, false, true, false, true]);
    assert_eq!(g.enemies[0].proj, vec![1, 3, 5]);
    g.cull(0, &vec![true, true, true]);
    assert_eq!(g.enemies[0].proj, vec![1, 3, 5]);
    g.cull(0, &vec![false, false, false]);
    assert!(g.enemies[0].proj.is_empty());
}

#[test]
fn platform_rules_follow_the_frame() {
    let mut g = game();
    g.frame = 500;
    assert!(g.retarget_due(true));
    assert!(!g.retarget_due(false));
    assert!(!g.shrink_due());
    g.frame = 1000;
    assert!(g.retarget_due(true));
    assert!(g.shrink_due());
    g.frame = 750;
    assert!(!g.retarget_due(true));
}

#[test]
fn game_over_fall_every_fifty_frames() {
    let mut g = game();
    g.state = GameState::GameOver;
    g.health = 2;
    g.on_plat = false;
    g.frame = 50;
    g.game_over_fall();
    assert_eq!(g.health, 1);
    g.frame = 51;
    g.game_over_fall();
    assert_eq!(g.health, 1);
    g.on_plat = true;
    g.frame = 100;
    g.game_over_fall();
    assert_eq!(g.health, 1);
    g.on_plat = false;
    g.health = -3;
    g.game_over_fall();
    assert_eq!(g.health, 0);
    assert_eq!(g.state, GameState::GameOver);
}
