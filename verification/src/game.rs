//! The game's counters and lists, and the steps of one update.
//!
//! The payload types stay opaque here: `B` is a blank, `E` the moving part of
//! an enemy and `P` a shot, each as the renderer keeps them.
use vstd::prelude::*;
use crate::state::GameState;
use crate::removal::{
    swap_remove_each, swap_removes_fit, picked, marked_positions, kept, marked,
    swap_remove_all, retain_kept, removals_fit, law_swap_remove_each_keeps_the_rest,
};
use crate::contact::{
    Contact, removal_positions, player_hits, single_touches, touched_count, removals_for,
    law_single_touches_give_distinct_removals,
};
use crate::random::gen_range_i32;

verus! {

/// Health at the start of a game.
pub const START_HEALTH: i32 = 3;

/// Blanks at the start of a game, and the most the player can hold.
pub const MAX_BLANKS: i32 = 3;

/// The frame counter of a new game.
pub const START_FRAME: i32 = 1;

/// Off the platform, the player loses a point of health every this many frames.
pub const FALL_DAMAGE_PERIOD: i32 = 30;

/// After the game is lost, a player off the platform loses a point every this many frames.
pub const GAME_OVER_FALL_PERIOD: i32 = 50;

/// A blank comes back every this many frames.
pub const RECHARGE_PERIOD: i32 = 1000;

/// The platform starts to shrink every this many frames.
pub const SHRINK_PERIOD: i32 = 1000;

/// The platform, once arrived, picks a new target on frames that are multiples of this.
pub const RETARGET_PERIOD: i32 = 500;

/// A new enemy arrives every this many frames.
pub const SPAWN_PERIOD: i32 = 1100;

/// The three firing periods of an enemy, before its own offset is added.
pub const FIRE_PERIOD_A: i32 = 100;
pub const FIRE_PERIOD_B: i32 = 110;
pub const FIRE_PERIOD_C: i32 = 120;

/// An enemy's firing offset is drawn from `[FIRE_OFFSET_LOW, FIRE_OFFSET_HIGH)`.
pub const FIRE_OFFSET_LOW: i32 = 1;
pub const FIRE_OFFSET_HIGH: i32 = 5;

/// An enemy: its moving part, its firing offset and its shots in flight.
pub struct Enemy<E, P> {
    pub body: E,
    /// The offset added to each firing period.
    pub rdmf: i32,
    pub proj: Vec<P>,
}

/// The state of a game that is not position or motion.
pub struct Game<B, E, P> {
    /// Frames since the game began, counting from one.
    pub frame: i32,
    pub state: GameState,
    /// Whether the player stood on the platform at the last update.
    pub on_plat: bool,
    pub health: i32,
    /// Blanks left to use.
    pub blank: i32,
    pub enemies: Vec<Enemy<E, P>>,
    /// Blanks in use.
    pub blanks: Vec<B>,
}

/// Whether `frame` is a multiple of `period`.
pub open spec fn every(frame: i32, period: i32) -> bool {
    frame % period == 0
}

/// Whether an enemy with offset `rdmf` fires on `frame`.
pub open spec fn fire_due(frame: i32, rdmf: i32) -> bool {
    every(frame, (FIRE_PERIOD_A + rdmf) as i32) || every(frame, (FIRE_PERIOD_B + rdmf) as i32)
        || every(frame, (FIRE_PERIOD_C + rdmf) as i32)
}

/// Health after a point of fall damage: one less, but never below zero.
pub open spec fn fallen(health: i32) -> i32 {
    if health - 1 > 0 {
        (health - 1) as i32
    } else {
        0
    }
}

/// The total of the shots of every enemy that reached the player.
pub open spec fn total_player_hits(css: Seq<Vec<Contact>>) -> nat
    decreases css.len(),
{
    if css.len() == 0 {
        0
    } else {
        total_player_hits(css.drop_last()) + player_hits(css.last()@)
    }
}

proof fn lemma_hits_prefix(contacts: Seq<Vec<Contact>>, m: int)
    requires
        1 <= m <= contacts.len(),
    ensures
        total_player_hits(contacts.take(m)) <= total_player_hits(contacts),
        total_player_hits(contacts.take(m - 1)) <= total_player_hits(contacts.take(m)),
    decreases contacts.len(),
{
    if m < contacts.len() {
        assert(contacts.drop_last().take(m) =~= contacts.take(m));
        assert(contacts.drop_last().take(m - 1) =~= contacts.take(m - 1));
        lemma_hits_prefix(contacts.drop_last(), m);
    } else {
        assert(contacts.take(m) =~= contacts);
        assert(contacts.drop_last() =~= contacts.take(m - 1));
    }
}


proof fn lemma_small_remainders(x: int, m: int)
    requires
        m >= 2,
        0 <= x <= m + 1,
    ensures
        x < m ==> x % m == x,
        x == m + 1 ==> x % m == 1,
{
    vstd::arithmetic::div_mod::lemma_fundamental_div_mod(x, m);
    let q = x / m;
    let rem = x % m;
    assert(0 <= rem < m);
    assert(x < m ==> q == 0) by (nonlinear_arith)
        requires
            x == m * q + rem,
            0 <= rem < m,
            0 <= x,
    ;
    assert(x == m + 1 ==> q == 1) by (nonlinear_arith)
        requires
            x == m * q + rem,
            0 <= rem < m,
            m >= 2,
    ;
}

/// `every(frame, period)` is divisibility: for a positive period it holds
/// on every whole multiple `k * period` of the period, and on a frame only
/// when that frame is the multiple `(frame / period) * period`.
pub proof fn law_every_is_divisibility(frame: i32, period: i32, k: int)
    requires
        period > 0,
    ensures
        frame == k * period ==> every(frame, period),
        every(frame, period) ==> frame == ((frame as int) / (period as int)) * period,
        every(frame, period) <==> frame == ((frame as int) / (period as int)) * period,
{
    vstd::arithmetic::div_mod::lemma_fundamental_div_mod(frame as int, period as int);
    let q = (frame as int) / (period as int);
    let m = (frame as int) % (period as int);
    assert(frame == q * period + m) by (nonlinear_arith)
        requires
            frame == period * q + m,
    ;
    assert(0 <= m < period);
    if frame == k * period {
        vstd::arithmetic::div_mod::lemma_mod_multiples_basic(k, period as int);
    }
}

/// Each of the game's periodic rules holds on every whole multiple of its
/// period, and on a frame only when the frame is such a multiple.
pub proof fn law_periodic_rules(frame: i32, k: int)
    ensures
        frame == k * 1100 ==> every(frame, SPAWN_PERIOD),
        every(frame, SPAWN_PERIOD) ==> frame == ((frame as int) / 1100) * 1100,
        frame == k * 30 ==> every(frame, FALL_DAMAGE_PERIOD),
        every(frame, FALL_DAMAGE_PERIOD) ==> frame == ((frame as int) / 30) * 30,
        frame == k * 50 ==> every(frame, GAME_OVER_FALL_PERIOD),
        every(frame, GAME_OVER_FALL_PERIOD) ==> frame == ((frame as int) / 50) * 50,
        frame == k * 1000 ==> every(frame, RECHARGE_PERIOD) && every(frame, SHRINK_PERIOD),
        every(frame, RECHARGE_PERIOD) ==> frame == ((frame as int) / 1000) * 1000,
        every(frame, SHRINK_PERIOD) ==> frame == ((frame as int) / 1000) * 1000,
        frame == k * 500 ==> every(frame, RETARGET_PERIOD),
        every(frame, RETARGET_PERIOD) ==> frame == ((frame as int) / 500) * 500,
{
    law_every_is_divisibility(frame, SPAWN_PERIOD, k);
    law_every_is_divisibility(frame, FALL_DAMAGE_PERIOD, k);
    law_every_is_divisibility(frame, GAME_OVER_FALL_PERIOD, k);
    law_every_is_divisibility(frame, RECHARGE_PERIOD, k);
    law_every_is_divisibility(frame, SHRINK_PERIOD, k);
    law_every_is_divisibility(frame, RETARGET_PERIOD, k);
}

/// An enemy with offset `r` fires on every whole multiple of `100 + r`, of
/// `110 + r` and of `120 + r`, and on a frame only when it is one of these;
/// in particular it fires on frames `100 + r`, `110 + r` and `120 + r`, and
/// not on frame `101 + r`.
pub proof fn law_firing_periods(f: i32, r: i32, k: int)
    requires
        1 <= r < 5,
    ensures
        f == k * (100 + r) ==> fire_due(f, r),
        f == k * (110 + r) ==> fire_due(f, r),
        f == k * (120 + r) ==> fire_due(f, r),
        fire_due(f, r) ==> f == ((f as int) / (100 + r)) * (100 + r) || f == ((f as int) / (110
            + r)) * (110 + r) || f == ((f as int) / (120 + r)) * (120 + r),
        fire_due((100 + r) as i32, r),
        fire_due((110 + r) as i32, r),
        fire_due((120 + r) as i32, r),
        f == 101 + r ==> !fire_due(f, r),
{
    law_every_is_divisibility(f, (100 + r) as i32, k);
    law_every_is_divisibility(f, (110 + r) as i32, k);
    law_every_is_divisibility(f, (120 + r) as i32, k);
    law_every_is_divisibility((100 + r) as i32, (100 + r) as i32, 1);
    law_every_is_divisibility((110 + r) as i32, (110 + r) as i32, 1);
    law_every_is_divisibility((120 + r) as i32, (120 + r) as i32, 1);
    if f == 101 + r {
        lemma_small_remainders(f as int, (100 + r) as int);
        lemma_small_remainders(f as int, (110 + r) as int);
        lemma_small_remainders(f as int, (120 + r) as int);
    }
}

/// The hits of several enemies add up: the total over a list of enemies is
/// the total over its first part plus the total over the rest, whatever the
/// split.
pub proof fn law_total_hits_add_up(a: Seq<Vec<Contact>>, b: Seq<Vec<Contact>>)
    ensures
        total_player_hits(a + b) == total_player_hits(a) + total_player_hits(b),
    decreases b.len(),
{
    if b.len() == 0 {
        assert(a + b =~= a);
    } else {
        assert((a + b).drop_last() =~= a + b.drop_last());
        assert((a + b).last() == b.last());
        law_total_hits_add_up(a, b.drop_last());
    }
}

/// One enemy's hits count once per shot whose player flag is set: the count
/// of a concatenation is the sum of the counts, a single shot counts one
/// exactly when it reached the player, and in a list of enemies each one,
/// the first or any other, contributes its own count.
pub proof fn law_player_hits_count_each_shot(
    cs: Seq<Contact>,
    ds: Seq<Contact>,
    c: Contact,
    v: Vec<Contact>,
    others: Seq<Vec<Contact>>,
)
    ensures
        player_hits(cs + ds) == player_hits(cs) + player_hits(ds),
        player_hits(seq![c]) == if c.player {
            1nat
        } else {
            0nat
        },
        total_player_hits(seq![v]) == player_hits(v@),
        total_player_hits(others.push(v)) == total_player_hits(others) + player_hits(v@),
        total_player_hits(seq![v] + others) == player_hits(v@) + total_player_hits(others),
    decreases ds.len(),
{
    if ds.len() == 0 {
        assert(cs + ds =~= cs);
    } else {
        assert((cs + ds).drop_last() =~= cs + ds.drop_last());
        assert((cs + ds).last() == ds.last());
        law_player_hits_count_each_shot(cs, ds.drop_last(), c, v, others);
    }
    assert(seq![c].drop_last() =~= Seq::<Contact>::empty());
    assert(player_hits(Seq::<Contact>::empty()) == 0);
    assert(player_hits(seq![c]) == player_hits(seq![c].drop_last()) + if c.player {
        1nat
    } else {
        0nat
    });
    assert(seq![v].drop_last() =~= Seq::<Vec<Contact>>::empty());
    assert(total_player_hits(Seq::<Vec<Contact>>::empty()) == 0);
    assert(total_player_hits(seq![v]) == total_player_hits(seq![v].drop_last()) + player_hits(
        seq![v].last()@,
    ));
    assert(others.push(v).drop_last() =~= others);
    law_total_hits_add_up(seq![v], others);
}

impl<B, E, P> Game<B, E, P> {
    /// The invariant of a game: the frame counter has started, the blanks
    /// held are between none and the maximum, health never exceeds its
    /// starting value, and each enemy's firing offset is one that can be
    /// drawn.
    pub open spec fn wf(&self) -> bool {
        &&& START_FRAME <= self.frame
        &&& 0 <= self.blank <= MAX_BLANKS
        &&& self.health <= START_HEALTH
        &&& forall|i: int|
            0 <= i < self.enemies@.len() ==> FIRE_OFFSET_LOW <= #[trigger] self.enemies@[i].rdmf
                < FIRE_OFFSET_HIGH
    }

    /// Whether `self` is the game of the start screen with one enemy of
    /// moving part `body` and offset `rdmf`.
    pub open spec fn is_start(&self, body: E, rdmf: i32) -> bool {
        &&& self.frame == START_FRAME
        &&& self.state == GameState::MainMenu
        &&& self.on_plat
        &&& self.health == START_HEALTH
        &&& self.blank == MAX_BLANKS
        &&& self.blanks@.len() == 0
        &&& self.enemies@.len() == 1
        &&& self.enemies@[0].body == body
        &&& self.enemies@[0].rdmf == rdmf
        &&& self.enemies@[0].proj@.len() == 0
    }

    /// The game of the start screen, with a first enemy of moving part `body`
    /// and firing offset `rdmf`.
    pub fn starting(body: E, rdmf: i32) -> (g: Self)
        requires
            FIRE_OFFSET_LOW <= rdmf < FIRE_OFFSET_HIGH,
        ensures
            g.wf(),
            g.is_start(body, rdmf),
    {
        let mut enemies: Vec<Enemy<E, P>> = Vec::new();
        enemies.push(Enemy { body, rdmf, proj: Vec::new() });
        Game {
            frame: START_FRAME,
            state: GameState::MainMenu,
            on_plat: true,
            health: START_HEALTH,
            blank: MAX_BLANKS,
            enemies,
            blanks: Vec::new(),
        }
    }

    /// A new game on the start screen, with a first enemy of moving part
    /// `body` and a firing offset drawn at random.
    pub fn new(body: E) -> (g: Self)
        ensures
            g.wf(),
            g.is_start(body, g.enemies@[0].rdmf),
            FIRE_OFFSET_LOW <= g.enemies@[0].rdmf < FIRE_OFFSET_HIGH,
    {
        let rdmf: i32 = gen_range_i32(FIRE_OFFSET_LOW, FIRE_OFFSET_HIGH);
        Self::starting(body, rdmf)
    }

    /// Starts over: a new game, already running.
    pub fn restart(&mut self, body: E)
        ensures
            final(self).wf(),
            final(self).state == GameState::Play,
            final(self).frame == START_FRAME,
            final(self).on_plat,
            final(self).health == START_HEALTH,
            final(self).blank == MAX_BLANKS,
            final(self).blanks@.len() == 0,
            final(self).enemies@.len() == 1,
            final(self).enemies@[0].body == body,
            FIRE_OFFSET_LOW <= final(self).enemies@[0].rdmf < FIRE_OFFSET_HIGH,
            final(self).enemies@[0].proj@.len() == 0,
    {
        *self = Self::new(body);
        self.state = GameState::Play;
    }

    /// The first step of an update: the frame counter moves on by one and
    /// the player's footing is recorded.
    pub fn tick(&mut self, on_plat: bool)
        requires
            old(self).wf(),
            old(self).frame < i32::MAX,
        ensures
            final(self).wf(),
            final(self).frame == old(self).frame + 1,
            final(self).on_plat == on_plat,
            final(self).state == old(self).state,
            final(self).health == old(self).health,
            final(self).blank == old(self).blank,
            final(self).enemies@ == old(self).enemies@,
            final(self).blanks@ == old(self).blanks@,
    {
        self.frame = self.frame + 1;
        self.on_plat = on_plat;
    }

    /// Whether the platform, having reached its target, picks a new one on
    /// this frame.
    pub fn retarget_due(&self, arrived: bool) -> (r: bool)
        requires
            self.wf(),
        ensures
            r == (arrived && every(self.frame, RETARGET_PERIOD)),
            r == (arrived && (self.frame as int) % 500 == 0),
    {
        arrived && self.frame % RETARGET_PERIOD == 0
    }

    /// Whether the platform starts to shrink on this frame.
    pub fn shrink_due(&self) -> (r: bool)
        requires
            self.wf(),
        ensures
            r == every(self.frame, SHRINK_PERIOD),
            r == ((self.frame as int) % 1000 == 0),
    {
        self.frame % SHRINK_PERIOD == 0
    }

    /// The player's counters in an update: fall damage off the platform,
    /// a blank coming back, a blank used on request (`fresh` is the blank
    /// put in play), and the loss of the game once health is gone.
    pub fn player_step(&mut self, use_blank: bool, fresh: B)
        requires
            old(self).wf(),
            old(self).on_plat || !every(old(self).frame, FALL_DAMAGE_PERIOD) || old(self).health
                > i32::MIN,
        ensures
            final(self).wf(),
            ({
                let h = if !old(self).on_plat && every(old(self).frame, FALL_DAMAGE_PERIOD) {
                    fallen(old(self).health)
                } else {
                    old(self).health
                };
                let b = if every(old(self).frame, RECHARGE_PERIOD) && old(self).blank
                    < MAX_BLANKS {
                    (old(self).blank + 1) as i32
                } else {
                    old(self).blank
                };
                &&& final(self).health == h
                &&& if use_blank && b > 0 {
                    &&& final(self).blank == b - 1
                    &&& final(self).blanks@ == old(self).blanks@.push(fresh)
                } else {
                    &&& final(self).blank == b
                    &&& final(self).blanks@ == old(self).blanks@
                }
                &&& final(self).state == if h <= 0 {
                    GameState::GameOver
                } else {
                    old(self).state
                }
            }),
            final(self).frame == old(self).frame,
            final(self).on_plat == old(self).on_plat,
            final(self).enemies@ == old(self).enemies@,
            old(self).health >= 0 ==> final(self).health <= old(self).health,
            final(self).health <= 0 ==> final(self).state == GameState::GameOver,
            old(self).state == GameState::GameOver ==> final(self).state == GameState::GameOver,
            !old(self).on_plat && (old(self).frame as int) % 30 == 0 && old(self).health > 0
                ==> final(self).health == old(self).health - 1,
            !old(self).on_plat && (old(self).frame as int) % 30 == 0 && old(self).health <= 0
                ==> final(self).health == 0,
            old(self).on_plat || (old(self).frame as int) % 30 != 0 ==> final(self).health == old(
                self,
            ).health,
            (old(self).frame as int) % 1000 == 0 && old(self).blank < 3 && !use_blank
                ==> final(self).blank == old(self).blank + 1,
            (old(self).frame as int) % 1000 != 0 && !use_blank ==> final(self).blank == old(
                self,
            ).blank,
    {
        if !self.on_plat && self.frame % FALL_DAMAGE_PERIOD == 0 {
            let h: i32 = self.health - 1;
            self.health = if h > 0 {
                h
            } else {
                0
            };
        }
        if self.frame % RECHARGE_PERIOD == 0 {
            let b: i32 = self.blank + 1;
            self.blank = if b < MAX_BLANKS {
                b
            } else {
                MAX_BLANKS
            };
        }
        if use_blank && self.blank > 0 {
            self.blank = self.blank - 1;
            self.blanks.push(fresh);
        }
        if self.health <= 0 {
            self.state = GameState::GameOver;
        }
    }

    /// Takes out of play the blanks that have run their course
    /// (`finished[k]` for the blank at `k`), each by a swap-removal, the
    /// last one first.
    pub fn expire_blanks(&mut self, finished: &Vec<bool>)
        requires
            old(self).wf(),
            finished@.len() == old(self).blanks@.len(),
        ensures
            final(self).wf(),
            final(self).blanks@ == swap_remove_each(old(self).blanks@, marked_positions(finished@)),
            final(self).blanks@.to_multiset().add(
                picked(old(self).blanks@, marked_positions(finished@)).to_multiset(),
            ) == old(self).blanks@.to_multiset(),
            final(self).blanks@.len() == old(self).blanks@.len() - marked_positions(
                finished@,
            ).len(),
            final(self).frame == old(self).frame,
            final(self).state == old(self).state,
            final(self).on_plat == old(self).on_plat,
            final(self).health == old(self).health,
            final(self).blank == old(self).blank,
            final(self).enemies@ == old(self).enemies@,
    {
        let js = marked(finished);
        proof {
            law_swap_remove_each_keeps_the_rest(self.blanks@, js@);
        }
        swap_remove_all(&mut self.blanks, &js);
    }

    /// Whether the removals asked by `contacts` all find their shot, and
    /// health can take the hits: the condition under which the hits can be
    /// resolved.
    pub open spec fn hits_fit(&self, contacts: Seq<Vec<Contact>>) -> bool {
        &&& contacts.len() == self.enemies@.len()
        &&& forall|i: int|
            0 <= i < contacts.len() ==> (#[trigger] contacts[i])@.len()
                == self.enemies@[i].proj@.len() && swap_removes_fit(
                self.enemies@[i].proj@.len(),
                removal_positions(contacts[i]@),
            )
        &&& self.health - total_player_hits(contacts) >= i32::MIN
    }

    /// Resolves the contacts of the shots with the player and the blanks
    /// (`contacts[i][j]` for shot `j` of enemy `i`): each hit on the player
    /// costs a point of health, and every shot is swap-removed once per
    /// touch, the last touched first.
    pub fn resolve_hits(&mut self, contacts: &Vec<Vec<Contact>>)
        requires
            old(self).wf(),
            old(self).hits_fit(contacts@),
        ensures
            final(self).wf(),
            final(self).health == old(self).health - total_player_hits(contacts@),
            final(self).enemies@.len() == old(self).enemies@.len(),
            forall|i: int|
                0 <= i < old(self).enemies@.len() ==> {
                    &&& (#[trigger] final(self).enemies@[i]).body == old(self).enemies@[i].body
                    &&& final(self).enemies@[i].rdmf == old(self).enemies@[i].rdmf
                    &&& final(self).enemies@[i].proj@ == swap_remove_each(
                        old(self).enemies@[i].proj@,
                        removal_positions(contacts@[i]@),
                    )
                },
            forall|i: int|
                0 <= i < old(self).enemies@.len() && single_touches(contacts@[i]@) ==> {
                    &&& (#[trigger] final(self).enemies@[i]).proj@.len() == old(
                        self,
                    ).enemies@[i].proj@.len() - touched_count(contacts@[i]@)
                    &&& final(self).enemies@[i].proj@.to_multiset().add(
                        picked(
                            old(self).enemies@[i].proj@,
                            removal_positions(contacts@[i]@),
                        ).to_multiset(),
                    ) == old(self).enemies@[i].proj@.to_multiset()
                },
            final(self).frame == old(self).frame,
            final(self).state == old(self).state,
            final(self).on_plat == old(self).on_plat,
            final(self).blank == old(self).blank,
            final(self).blanks@ == old(self).blanks@,
    {
        let n: usize = contacts.len();
        let mut i: usize = 0;
        while i < n
            invariant
                n == contacts@.len(),
                i <= n,
                old(self).wf(),
                old(self).hits_fit(contacts@),
                self.enemies@.len() == n,
                self.health == old(self).health - total_player_hits(contacts@.take(i as int)),
                forall|k: int|
                    0 <= k < n ==> {
                        &&& (#[trigger] self.enemies@[k]).body == old(self).enemies@[k].body
                        &&& self.enemies@[k].rdmf == old(self).enemies@[k].rdmf
                        &&& self.enemies@[k].proj@ == if k < i {
                            swap_remove_each(
                                old(self).enemies@[k].proj@,
                                removal_positions(contacts@[k]@),
                            )
                        } else {
                            old(self).enemies@[k].proj@
                        }
                    },
                self.frame == old(self).frame,
                self.state == old(self).state,
                self.on_plat == old(self).on_plat,
                self.blank == old(self).blank,
                self.blanks@ == old(self).blanks@,
            decreases n - i,
        {
            assert(contacts@.take(i as int + 1).drop_last() =~= contacts@.take(i as int));
            assert(contacts@.take(i as int + 1).last() == contacts@[i as int]);
            proof {
                lemma_hits_prefix(contacts@, i as int + 1);
            }
            let (js, hits) = removals_for(&contacts[i]);
            swap_remove_all(&mut self.enemies[i].proj, &js);
            self.health = (self.health as i64 - hits as i64) as i32;
            i = i + 1;
        }
        assert(contacts@.take(n as int) =~= contacts@);
        proof {
            assert forall|k: int|
                0 <= k < old(self).enemies@.len() && single_touches(
                    contacts@[k]@,
                ) implies (#[trigger] self.enemies@[k]).proj@.len() == old(
                self,
            ).enemies@[k].proj@.len() - touched_count(contacts@[k]@)
                && self.enemies@[k].proj@.to_multiset().add(
                picked(old(self).enemies@[k].proj@, removal_positions(contacts@[k]@)).to_multiset(),
            ) == old(self).enemies@[k].proj@.to_multiset() by {
                assert(contacts@[k]@.len() == old(self).enemies@[k].proj@.len());
                assert(old(self).enemies@[k].proj.len() == old(self).enemies@[k].proj@.len());
                law_single_touches_give_distinct_removals(contacts@[k]@);
                law_swap_remove_each_keeps_the_rest(
                    old(self).enemies@[k].proj@,
                    removal_positions(contacts@[k]@),
                );
            }
        }
    }


    /// Whether a new enemy arrives on this frame.
    pub fn spawn_due(&self) -> (r: bool)
        requires
            self.wf(),
        ensures
            r == every(self.frame, SPAWN_PERIOD),
            r == ((self.frame as int) % 1100 == 0),
    {
        self.frame % SPAWN_PERIOD == 0
    }

    /// Adds an enemy with moving part `body`, firing offset `rdmf` and no
    /// shots, after the others.
    pub fn add_enemy(&mut self, body: E, rdmf: i32)
        requires
            old(self).wf(),
            FIRE_OFFSET_LOW <= rdmf < FIRE_OFFSET_HIGH,
        ensures
            final(self).wf(),
            final(self).enemies@.len() == old(self).enemies@.len() + 1,
            final(self).enemies@.drop_last() == old(self).enemies@,
            final(self).enemies@.last().body == body,
            final(self).enemies@.last().rdmf == rdmf,
            final(self).enemies@.last().proj@.len() == 0,
            final(self).frame == old(self).frame,
            final(self).state == old(self).state,
            final(self).on_plat == old(self).on_plat,
            final(self).health == old(self).health,
            final(self).blank == old(self).blank,
            final(self).blanks@ == old(self).blanks@,
    {
        self.enemies.push(Enemy { body, rdmf, proj: Vec::new() });
        assert(self.enemies@.drop_last() =~= old(self).enemies@);
    }

    /// Adds an enemy with moving part `body`, no shots, and a firing offset
    /// drawn at random.
    pub fn spawn_enemy(&mut self, body: E)
        requires
            old(self).wf(),
        ensures
            final(self).wf(),
            final(self).enemies@.len() == old(self).enemies@.len() + 1,
            final(self).enemies@.drop_last() == old(self).enemies@,
            final(self).enemies@.last().body == body,
            FIRE_OFFSET_LOW <= final(self).enemies@.last().rdmf < FIRE_OFFSET_HIGH,
            final(self).enemies@.last().proj@.len() == 0,
            final(self).frame == old(self).frame,
            final(self).state == old(self).state,
            final(self).on_plat == old(self).on_plat,
            final(self).health == old(self).health,
            final(self).blank == old(self).blank,
            final(self).blanks@ == old(self).blanks@,
    {
        let rdmf: i32 = gen_range_i32(FIRE_OFFSET_LOW, FIRE_OFFSET_HIGH);
        self.add_enemy(body, rdmf);
    }

    /// Whether enemy `i` fires on this frame.
    pub fn fires(&self, i: usize) -> (r: bool)
        requires
            self.wf(),
            i < self.enemies@.len(),
        ensures
            r == fire_due(self.frame, self.enemies@[i as int].rdmf),
            r == ((self.frame as int) % (100 + self.enemies@[i as int].rdmf) == 0 || (
            self.frame as int) % (110 + self.enemies@[i as int].rdmf) == 0 || (self.frame as int)
                % (120 + self.enemies@[i as int].rdmf) == 0),
    {
        let rdmf: i32 = self.enemies[i].rdmf;
        assert(FIRE_OFFSET_LOW <= self.enemies@[i as int].rdmf < FIRE_OFFSET_HIGH);
        self.frame % (FIRE_PERIOD_A + rdmf) == 0 || self.frame % (FIRE_PERIOD_B + rdmf) == 0
            || self.frame % (FIRE_PERIOD_C + rdmf) == 0
    }

    /// Puts the shot `shot` in flight for enemy `i`, after its others.
    pub fn fire(&mut self, i: usize, shot: P)
        requires
            old(self).wf(),
            i < old(self).enemies@.len(),
        ensures
            final(self).wf(),
            final(self).enemies@.len() == old(self).enemies@.len(),
            final(self).enemies@[i as int].proj@ == old(self).enemies@[i as int].proj@.push(shot),
            final(self).enemies@[i as int].body == old(self).enemies@[i as int].body,
            final(self).enemies@[i as int].rdmf == old(self).enemies@[i as int].rdmf,
            forall|k: int|
                0 <= k < old(self).enemies@.len() && k != i ==> #[trigger] final(self).enemies@[k]
                    == old(self).enemies@[k],
            final(self).frame == old(self).frame,
            final(self).state == old(self).state,
            final(self).on_plat == old(self).on_plat,
            final(self).health == old(self).health,
            final(self).blank == old(self).blank,
            final(self).blanks@ == old(self).blanks@,
    {
        self.enemies[i].proj.push(shot);
    }

    /// Drops the shots of enemy `i` whose keep flag is unset (those that
    /// left the screen); the others stay in their order.
    pub fn cull(&mut self, i: usize, keep: &Vec<bool>)
        requires
            old(self).wf(),
            i < old(self).enemies@.len(),
            keep@.len() == old(self).enemies@[i as int].proj@.len(),
        ensures
            final(self).wf(),
            final(self).enemies@.len() == old(self).enemies@.len(),
            final(self).enemies@[i as int].proj@ == kept(
                old(self).enemies@[i as int].proj@,
                keep@,
            ),
            final(self).enemies@[i as int].body == old(self).enemies@[i as int].body,
            final(self).enemies@[i as int].rdmf == old(self).enemies@[i as int].rdmf,
            forall|k: int|
                0 <= k < old(self).enemies@.len() && k != i ==> #[trigger] final(self).enemies@[k]
                    == old(self).enemies@[k],
            final(self).frame == old(self).frame,
            final(self).state == old(self).state,
            final(self).on_plat == old(self).on_plat,
            final(self).health == old(self).health,
            final(self).blank == old(self).blank,
            final(self).blanks@ == old(self).blanks@,
    {
        retain_kept(&mut self.enemies[i].proj, keep);
    }

    /// After the game is lost, a player off the platform keeps losing a
    /// point of health every so many frames, down to zero.
    pub fn game_over_fall(&mut self)
        requires
            old(self).wf(),
            old(self).on_plat || !every(old(self).frame, GAME_OVER_FALL_PERIOD) || old(
                self,
            ).health > i32::MIN,
        ensures
            final(self).wf(),
            final(self).health == if !old(self).on_plat && every(
                old(self).frame,
                GAME_OVER_FALL_PERIOD,
            ) {
                fallen(old(self).health)
            } else {
                old(self).health
            },
            old(self).health >= 0 ==> final(self).health <= old(self).health,
            !old(self).on_plat && (old(self).frame as int) % 50 == 0 && old(self).health > 0
                ==> final(self).health == old(self).health - 1,
            old(self).on_plat || (old(self).frame as int) % 50 != 0 ==> final(self).health == old(
                self,
            ).health,
            final(self).frame == old(self).frame,
            final(self).state == old(self).state,
            final(self).on_plat == old(self).on_plat,
            final(self).blank == old(self).blank,
            final(self).enemies@ == old(self).enemies@,
            final(self).blanks@ == old(self).blanks@,
    {
        if !self.on_plat && self.frame % GAME_OVER_FALL_PERIOD == 0 {
            let h: i32 = self.health - 1;
            self.health = if h > 0 {
                h
            } else {
                0
            };
        }
    }

    /// Whether `resolve_hits` can take `contacts`: the exact test of
    /// `hits_fit`. Where it fails, resolving those hits would take a shot
    /// that is not there, or bring health below the least `i32`.
    pub fn hits_resolvable(&self, contacts: &Vec<Vec<Contact>>) -> (r: bool)
        requires
            self.wf(),
        ensures
            r == self.hits_fit(contacts@),
    {
        let n: usize = contacts.len();
        if n != self.enemies.len() {
            return false;
        }
        let budget: u64 = (self.health as i64 - i32::MIN as i64) as u64;
        let mut total: u64 = 0;
        let mut i: usize = 0;
        while i < n
            invariant
                n == contacts@.len(),
                n == self.enemies@.len(),
                i <= n,
                budget == self.health - i32::MIN,
                total == total_player_hits(contacts@.take(i as int)),
                total <= budget,
                forall|k: int|
                    0 <= k < i ==> (#[trigger] contacts@[k])@.len() == self.enemies@[k].proj@.len()
                        && swap_removes_fit(
                        self.enemies@[k].proj@.len(),
                        removal_positions(contacts@[k]@),
                    ),
            decreases n - i,
        {
            assert(contacts@.take(i as int + 1).drop_last() =~= contacts@.take(i as int));
            assert(contacts@.take(i as int + 1).last() == contacts@[i as int]);
            proof {
                lemma_hits_prefix(contacts@, i as int + 1);
            }
            let len: usize = self.enemies[i].proj.len();
            if contacts[i].len() != len {
                return false;
            }
            let (js, hits) = removals_for(&contacts[i]);
            if !removals_fit(len, &js) {
                return false;
            }
            if hits as u64 > budget - total {
                return false;
            }
            total = total + hits as u64;
            i = i + 1;
        }
        assert(contacts@.take(n as int) =~= contacts@);
        true
    }
}

} // verus!
