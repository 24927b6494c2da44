//! The competitive simulator: a manually steered player snake and a
//! greedy bot snake share one food and one hazard. Each tick updates the
//! player first and then the bot, so the bot sees the player's already
//! updated body while the player saw the bot's pre-tick body — an
//! ordering asymmetry that is deliberate and preserved.

use vstd::prelude::*;
use crate::grid::{Coord, Dir, GRID_WIDTH, GRID_HEIGHT, in_bounds_spec, in_bounds, no_duplicates,
    all_in_bounds, contains_coord};
use crate::mover::{choose_move_spec, choose_move_for_snake};
use crate::spawn::{spawn_food, spawn_block, covers_grid};
use crate::rules::{FOOD_REWARD, HAZARD_PENALTY, grown, moved, shrunk, shrunk_len, penalized,
    lemma_grown_wf, lemma_moved_contains, lemma_prefix_wf, lemma_concat_contains,
    lemma_hazard_shrink, lemma_score_floor};

verus! {

/// The competitive match: both snakes, their scores, the shared food
/// and hazard, per-snake liveness and the end-of-match flag.
pub struct CompetGame {
    pub player_snake: Vec<Coord>,
    pub player_dir: Dir,
    pub bot_snake: Vec<Coord>,
    pub player_score: u32,
    pub bot_score: u32,
    pub food: Coord,
    pub block: Coord,
    pub player_alive: bool,
    pub bot_alive: bool,
    pub game_over: bool,
}

/// Mathematical snapshot of a competitive match.
#[verifier::ext_equal]
pub ghost struct CompetView {
    pub player: Seq<Coord>,
    pub player_dir: Dir,
    pub bot: Seq<Coord>,
    pub player_score: int,
    pub bot_score: int,
    pub food: Coord,
    pub block: Coord,
    pub player_alive: bool,
    pub bot_alive: bool,
    pub game_over: bool,
}

impl View for CompetGame {
    type V = CompetView;

    open spec fn view(&self) -> CompetView {
        CompetView {
            player: self.player_snake@,
            player_dir: self.player_dir,
            bot: self.bot_snake@,
            player_score: self.player_score as int,
            bot_score: self.bot_score as int,
            food: self.food,
            block: self.block,
            player_alive: self.player_alive,
            bot_alive: self.bot_alive,
            game_over: self.game_over,
        }
    }
}

/// Both bodies are non-empty, on the grid and self-overlap free, and
/// food and hazard are on the grid.
pub open spec fn boards_ok(v: CompetView) -> bool {
    &&& v.player.len() >= 1
    &&& all_in_bounds(v.player)
    &&& no_duplicates(v.player)
    &&& v.bot.len() >= 1
    &&& all_in_bounds(v.bot)
    &&& no_duplicates(v.bot)
    &&& in_bounds_spec(v.food)
    &&& in_bounds_spec(v.block)
}

/// Food and hazard avoid both bodies and each other.
pub open spec fn disjoint_ok(v: CompetView) -> bool {
    &&& !v.player.contains(v.food)
    &&& !v.player.contains(v.block)
    &&& !v.bot.contains(v.food)
    &&& !v.bot.contains(v.block)
    &&& v.food != v.block
}

impl CompetGame {
    /// Well-formedness: sound boards always; while the match is live,
    /// food and hazard are disjoint from everything and both snakes are
    /// alive.
    pub open spec fn wf(self) -> bool {
        &&& boards_ok(self@)
        &&& !self.game_over ==> {
            &&& disjoint_ok(self@)
            &&& self.player_alive
            &&& self.bot_alive
        }
    }
}

/// How a finished competitive match ended: a tie iff both snakes died
/// this tick, otherwise the surviving snake wins.
#[derive(Clone, Copy, PartialEq, Eq, Structural, Debug)]
pub enum Outcome {
    PlayerWins,
    BotWins,
    Tie,
}

impl CompetGame {
    /// The match outcome, or `None` while both snakes are alive.
    pub fn outcome(&self) -> (r: Option<Outcome>)
        ensures
            r == (if !self.player_alive && !self.bot_alive {
                Some(Outcome::Tie)
            } else if !self.player_alive {
                Some(Outcome::BotWins)
            } else if !self.bot_alive {
                Some(Outcome::PlayerWins)
            } else {
                None::<Outcome>
            }),
    {
        if !self.player_alive && !self.bot_alive {
            Some(Outcome::Tie)
        } else if !self.player_alive {
            Some(Outcome::BotWins)
        } else if !self.bot_alive {
            Some(Outcome::PlayerWins)
        } else {
            None
        }
    }

    /// Self-collision invariant: while the match state is sound, no two
    /// segments of either snake occupy the same coordinate.
    pub proof fn lemma_no_self_collision(self)
        requires
            self.wf(),
        ensures
            no_duplicates(self.player_snake@),
            no_duplicates(self.bot_snake@),
    {
    }

    /// Disjointness invariant: while the match is live, food and hazard
    /// avoid both snakes and each other.
    pub proof fn lemma_food_hazard_disjoint(self)
        requires
            self.wf(),
            !self.game_over,
        ensures
            !self.player_snake@.contains(self.food),
            !self.player_snake@.contains(self.block),
            !self.bot_snake@.contains(self.food),
            !self.bot_snake@.contains(self.block),
            self.food != self.block,
    {
    }
}

/// A freshly spawned cell: on the grid and outside the excluded set.
pub open spec fn fresh_cell(c: Coord, excluded: Seq<Coord>) -> bool {
    in_bounds_spec(c) && !excluded.contains(c)
}

/// The player's half of a tick, given the cells `food1` and `block1`
/// that any respawns produced. The player dies on a wall, on itself or
/// on the bot's pre-tick body; otherwise it grows and scores on food
/// (respawning both food and hazard), or shrinks and is penalized on the
/// hazard (respawning the hazard), or just moves. A respawn that finds
/// the grid saturated ends the match at once.
pub open spec fn player_phase(v: CompetView, food1: Coord, block1: Coord) -> CompetView {
    let h = v.player_dir.step_spec(v.player[0]);
    if !in_bounds_spec(h) || v.player.contains(h) || v.bot.contains(h) {
        CompetView { player_alive: false, ..v }
    } else if h == v.food {
        let b = grown(v.player, h);
        let obs = b + v.bot;
        if covers_grid(obs) {
            CompetView { player: b, player_score: v.player_score + FOOD_REWARD, game_over: true, ..v }
        } else if covers_grid(obs.push(food1)) {
            CompetView {
                player: b,
                player_score: v.player_score + FOOD_REWARD,
                food: food1,
                game_over: true,
                ..v
            }
        } else {
            CompetView {
                player: b,
                player_score: v.player_score + FOOD_REWARD,
                food: food1,
                block: block1,
                ..v
            }
        }
    } else if h == v.block {
        let b = shrunk(moved(v.player, h));
        let obs = b + v.bot;
        let s = penalized(v.player_score);
        if covers_grid(obs.push(v.food)) {
            CompetView { player: b, player_score: s, game_over: true, ..v }
        } else {
            CompetView { player: b, player_score: s, block: block1, ..v }
        }
    } else {
        CompetView { player: moved(v.player, h), ..v }
    }
}

/// `food1` and `block1` are credible respawn outcomes for the player's
/// half of the tick: fresh with respect to the exclusion sets actually
/// used, in the branches where they are used at all.
pub open spec fn player_phase_ok(v: CompetView, food1: Coord, block1: Coord) -> bool {
    let h = v.player_dir.step_spec(v.player[0]);
    if !in_bounds_spec(h) || v.player.contains(h) || v.bot.contains(h) {
        true
    } else if h == v.food {
        let b = grown(v.player, h);
        let obs = b + v.bot;
        if covers_grid(obs) {
            true
        } else if covers_grid(obs.push(food1)) {
            fresh_cell(food1, obs)
        } else {
            fresh_cell(food1, obs) && fresh_cell(block1, obs.push(food1))
        }
    } else if h == v.block {
        let b = shrunk(moved(v.player, h));
        let obs = b + v.bot;
        if covers_grid(obs.push(v.food)) {
            true
        } else {
            fresh_cell(block1, obs.push(v.food))
        }
    } else {
        true
    }
}

/// The bot's half of a tick, symmetric to the player's except that its
/// move comes from the greedy mover, whose obstacle set includes the
/// player's already updated body; the bot dies exactly when no safe
/// move exists.
pub open spec fn bot_phase(v: CompetView, food2: Coord, block2: Coord) -> CompetView {
    match choose_move_spec(v.bot[0], v.bot, v.bot + v.player, v.food) {
        None => CompetView { bot_alive: false, ..v },
        Some(h) => {
            if !in_bounds_spec(h) || v.bot.contains(h) || v.player.contains(h) {
                CompetView { bot_alive: false, ..v }
            } else if h == v.food {
                let b = grown(v.bot, h);
                let obs = v.player + b;
                if covers_grid(obs) {
                    CompetView { bot: b, bot_score: v.bot_score + FOOD_REWARD, game_over: true, ..v }
                } else if covers_grid(obs.push(food2)) {
                    CompetView {
                        bot: b,
                        bot_score: v.bot_score + FOOD_REWARD,
                        food: food2,
                        game_over: true,
                        ..v
                    }
                } else {
                    CompetView {
                        bot: b,
                        bot_score: v.bot_score + FOOD_REWARD,
                        food: food2,
                        block: block2,
                        ..v
                    }
                }
            } else if h == v.block {
                let b = shrunk(moved(v.bot, h));
                let obs = v.player + b;
                let s = penalized(v.bot_score);
                if covers_grid(obs.push(v.food)) {
                    CompetView { bot: b, bot_score: s, game_over: true, ..v }
                } else {
                    CompetView { bot: b, bot_score: s, block: block2, ..v }
                }
            } else {
                CompetView { bot: moved(v.bot, h), ..v }
            }
        },
    }
}

/// `food2` and `block2` are credible respawn outcomes for the bot's
/// half of the tick.
pub open spec fn bot_phase_ok(v: CompetView, food2: Coord, block2: Coord) -> bool {
    match choose_move_spec(v.bot[0], v.bot, v.bot + v.player, v.food) {
        None => true,
        Some(h) => {
            if !in_bounds_spec(h) || v.bot.contains(h) || v.player.contains(h) {
                true
            } else if h == v.food {
                let b = grown(v.bot, h);
                let obs = v.player + b;
                if covers_grid(obs) {
                    true
                } else if covers_grid(obs.push(food2)) {
                    fresh_cell(food2, obs)
                } else {
                    fresh_cell(food2, obs) && fresh_cell(block2, obs.push(food2))
                }
            } else if h == v.block {
                let b = shrunk(moved(v.bot, h));
                let obs = v.player + b;
                if covers_grid(obs.push(v.food)) {
                    true
                } else {
                    fresh_cell(block2, obs.push(v.food))
                }
            } else {
                true
            }
        },
    }
}

/// One competitive tick, spelled out with the four respawn outcomes:
/// player phase first; if it did not end the match by grid exhaustion,
/// the bot phase on the intermediate state; finally the match ends iff
/// either snake is no longer alive.
pub open spec fn compet_tick_with(
    pre: CompetView,
    post: CompetView,
    food1: Coord,
    block1: Coord,
    food2: Coord,
    block2: Coord,
) -> bool {
    let mid = player_phase(pre, food1, block1);
    &&& player_phase_ok(pre, food1, block1)
    &&& if mid.game_over {
        post == mid
    } else {
        let fin = bot_phase(mid, food2, block2);
        &&& bot_phase_ok(mid, food2, block2)
        &&& post == (CompetView {
            game_over: fin.game_over || !fin.player_alive || !fin.bot_alive,
            ..fin
        })
    }
}

/// What one competitive tick does, for every outcome of the random
/// respawns.
pub open spec fn compet_tick_rel(pre: CompetView, post: CompetView) -> bool {
    exists|food1: Coord, block1: Coord, food2: Coord, block2: Coord|
        compet_tick_with(pre, post, food1, block1, food2, block2)
}

/// Growth and score laws for the player's half of a tick: while the
/// player survives, food adds one segment and the reward, the hazard
/// truncates to `max(1, len / 2)` and applies the clamped penalty, and
/// any other move keeps length and score; the score never goes
/// negative. A dead or fatal phase changes neither.
pub proof fn lemma_player_phase_laws(v: CompetView, food1: Coord, block1: Coord)
    requires
        boards_ok(v),
        disjoint_ok(v),
        v.player_score >= 0,
        player_phase_ok(v, food1, block1),
    ensures
        ({
            let h = v.player_dir.step_spec(v.player[0]);
            let p = player_phase(v, food1, block1);
            &&& p.player_score >= 0
            &&& (!in_bounds_spec(h) || v.player.contains(h) || v.bot.contains(h)) ==> (p.player
                == v.player && p.player_score == v.player_score)
            &&& (in_bounds_spec(h) && !v.player.contains(h) && !v.bot.contains(h)) ==> {
                &&& h == v.food ==> p.player.len() == v.player.len() + 1 && p.player_score
                    == v.player_score + FOOD_REWARD
                &&& h == v.block ==> p.player.len() == shrunk_len(v.player.len() as int) && 1
                    <= p.player.len() <= v.player.len() && p.player_score == penalized(
                    v.player_score,
                ) && p.player_score <= v.player_score
                &&& (h != v.food && h != v.block) ==> p.player.len() == v.player.len()
                    && p.player_score == v.player_score
            }
        }),
{
    let h = v.player_dir.step_spec(v.player[0]);
    if in_bounds_spec(h) && !v.player.contains(h) && !v.bot.contains(h) && h == v.block {
        lemma_hazard_shrink(moved(v.player, h));
        lemma_score_floor(v.player_score);
    }
}

/// Growth and score laws for the bot's half of a tick, symmetric to the
/// player's, with the bot's move taken from the greedy mover.
pub proof fn lemma_bot_phase_laws(v: CompetView, food2: Coord, block2: Coord)
    requires
        boards_ok(v),
        disjoint_ok(v),
        v.bot_score >= 0,
        bot_phase_ok(v, food2, block2),
    ensures
        ({
            let p = bot_phase(v, food2, block2);
            &&& p.bot_score >= 0
            &&& match choose_move_spec(v.bot[0], v.bot, v.bot + v.player, v.food) {
                None => p.bot == v.bot && p.bot_score == v.bot_score,
                Some(h) => (in_bounds_spec(h) && !v.bot.contains(h) && !v.player.contains(h))
                    ==> {
                    &&& h == v.food ==> p.bot.len() == v.bot.len() + 1 && p.bot_score
                        == v.bot_score + FOOD_REWARD
                    &&& h == v.block ==> p.bot.len() == shrunk_len(v.bot.len() as int) && 1
                        <= p.bot.len() <= v.bot.len() && p.bot_score == penalized(v.bot_score)
                        && p.bot_score <= v.bot_score
                    &&& (h != v.food && h != v.block) ==> p.bot.len() == v.bot.len()
                        && p.bot_score == v.bot_score
                },
            }
        }),
{
    match choose_move_spec(v.bot[0], v.bot, v.bot + v.player, v.food) {
        None => {},
        Some(h) => {
            if in_bounds_spec(h) && !v.bot.contains(h) && !v.player.contains(h) && h == v.block {
                lemma_hazard_shrink(moved(v.bot, h));
                lemma_score_floor(v.bot_score);
            }
        },
    }
}

/// Helper facts about a moved-then-shrunk body: it is well-formed and
/// keeps only cells the head-plus-old body had.
proof fn lemma_shrunk_moved_wf(body: Seq<Coord>, h: Coord)
    requires
        body.len() >= 1,
        no_duplicates(body),
        all_in_bounds(body),
        !body.contains(h),
        in_bounds_spec(h),
    ensures
        shrunk(moved(body, h)).len() >= 1,
        no_duplicates(shrunk(moved(body, h))),
        all_in_bounds(shrunk(moved(body, h))),
        forall|c: Coord| #[trigger]
            shrunk(moved(body, h)).contains(c) ==> (c == h || body.contains(c)),
{
    lemma_grown_wf(body, h);
    let g = grown(body, h);
    let m = moved(body, h);
    assert(m =~= g.take(g.len() - 1));
    lemma_prefix_wf(g, g.len() - 1);
    lemma_prefix_wf(m, crate::rules::shrunk_len(m.len() as int));
    assert forall|c: Coord| #[trigger] shrunk(m).contains(c) implies (c == h || body.contains(
        c,
    )) by {
        assert(m.contains(c));
        lemma_moved_contains(body, h, c);
    }
}

/// The player phase keeps the boards sound, leaves the bot and the
/// direction alone, and keeps food and hazard disjoint from everything
/// unless it ended the match.
proof fn lemma_player_phase_wf(v: CompetView, food1: Coord, block1: Coord)
    requires
        boards_ok(v),
        disjoint_ok(v),
        player_phase_ok(v, food1, block1),
    ensures
        boards_ok(player_phase(v, food1, block1)),
        !player_phase(v, food1, block1).game_over ==> disjoint_ok(player_phase(v, food1, block1)),
{
    let h = v.player_dir.step_spec(v.player[0]);
    if !in_bounds_spec(h) || v.player.contains(h) || v.bot.contains(h) {
    } else {
        lemma_grown_wf(v.player, h);
        let g = grown(v.player, h);
        if h == v.food {
            let obs = g + v.bot;
            if covers_grid(obs) {
            } else if covers_grid(obs.push(food1)) {
            } else {
                lemma_concat_contains(g, v.bot, food1);
                lemma_concat_contains(g, v.bot, block1);
                crate::rules::lemma_push_contains(obs, food1, block1);
            }
        } else if h == v.block {
            lemma_shrunk_moved_wf(v.player, h);
            let b = shrunk(moved(v.player, h));
            let obs = b + v.bot;
            assert(!b.contains(v.food));
            if covers_grid(obs.push(v.food)) {
            } else {
                crate::rules::lemma_push_contains(obs, v.food, block1);
                lemma_concat_contains(b, v.bot, block1);
            }
        } else {
            lemma_grown_wf(v.player, h);
            let m = moved(v.player, h);
            assert(m =~= g.take(g.len() - 1));
            lemma_prefix_wf(g, g.len() - 1);
            assert(!m.contains(v.food)) by {
                lemma_moved_contains(v.player, h, v.food);
            }
            assert(!m.contains(v.block)) by {
                lemma_moved_contains(v.player, h, v.block);
            }
        }
    }
}

/// The bot phase keeps the boards sound, leaves the player and the
/// direction alone, and keeps food and hazard disjoint from everything
/// unless it ended the match.
proof fn lemma_bot_phase_wf(v: CompetView, food2: Coord, block2: Coord)
    requires
        boards_ok(v),
        disjoint_ok(v),
        bot_phase_ok(v, food2, block2),
    ensures
        boards_ok(bot_phase(v, food2, block2)),
        !bot_phase(v, food2, block2).game_over ==> disjoint_ok(bot_phase(v, food2, block2)),
{
    match choose_move_spec(v.bot[0], v.bot, v.bot + v.player, v.food) {
        None => {},
        Some(h) => {
            if !in_bounds_spec(h) || v.bot.contains(h) || v.player.contains(h) {
            } else {
                lemma_grown_wf(v.bot, h);
                let g = grown(v.bot, h);
                if h == v.food {
                    let obs = v.player + g;
                    if covers_grid(obs) {
                    } else if covers_grid(obs.push(food2)) {
                    } else {
                        lemma_concat_contains(v.player, g, food2);
                        lemma_concat_contains(v.player, g, block2);
                        crate::rules::lemma_push_contains(obs, food2, block2);
                    }
                } else if h == v.block {
                    lemma_shrunk_moved_wf(v.bot, h);
                    let b = shrunk(moved(v.bot, h));
                    let obs = v.player + b;
                    assert(!b.contains(v.food));
                    if covers_grid(obs.push(v.food)) {
                    } else {
                        crate::rules::lemma_push_contains(obs, v.food, block2);
                        lemma_concat_contains(v.player, b, block2);
                    }
                } else {
                    let m = moved(v.bot, h);
                    assert(m =~= g.take(g.len() - 1));
                    lemma_prefix_wf(g, g.len() - 1);
                    assert(!m.contains(v.food)) by {
                        lemma_moved_contains(v.bot, h, v.food);
                    }
                    assert(!m.contains(v.block)) by {
                        lemma_moved_contains(v.bot, h, v.block);
                    }
                }
            }
        },
    }
}

/// One vector of cells followed by another, as a fresh vector.
fn concat_bodies(a: &Vec<Coord>, b: &Vec<Coord>) -> (r: Vec<Coord>)
    ensures
        r@ == a@ + b@,
{
    let mut r: Vec<Coord> = Vec::new();
    proof {
        assert(r@ =~= a@.take(0));
    }
    let mut i: usize = 0;
    while i < a.len()
        invariant
            0 <= i <= a@.len(),
            r@ == a@.take(i as int),
        decreases a@.len() - i,
    {
        r.push(a[i]);
        proof {
            assert(r@ =~= a@.take(i + 1));
        }
        i = i + 1;
    }
    proof {
        assert(r@ =~= a@.take(a@.len() as int) + b@.take(0));
    }
    let mut j: usize = 0;
    while j < b.len()
        invariant
            0 <= j <= b@.len(),
            r@ == a@.take(a@.len() as int) + b@.take(j as int),
        decreases b@.len() - j,
    {
        r.push(b[j]);
        proof {
            assert(r@ =~= a@.take(a@.len() as int) + b@.take(j + 1));
        }
        j = j + 1;
    }
    proof {
        assert(r@ =~= a@ + b@);
    }
    r
}

impl CompetGame {
    /// Advance the match by one tick: player first, then the bot.
    #[verifier::rlimit(80)]
    #[verifier::spinoff_prover]
    pub fn tick(&mut self)
        requires
            old(self).wf(),
            !old(self).game_over,
            old(self).player_score + FOOD_REWARD <= u32::MAX,
            old(self).bot_score + FOOD_REWARD <= u32::MAX,
        ensures
            final(self).wf(),
            compet_tick_rel(old(self)@, final(self)@),
    {
        let ghost pre = self@;
        let ghost mut food1 = pre.food;
        let ghost mut block1 = pre.block;
        let ghost mut food2 = pre.food;
        let ghost mut block2 = pre.block;
        proof {
            assert(in_bounds_spec(self.player_snake@[0]));
        }
        let ph = self.player_dir.step(self.player_snake[0]);
        if !in_bounds(ph) || contains_coord(&self.player_snake, ph) || contains_coord(
            &self.bot_snake,
            ph,
        ) {
            self.player_alive = false;
        } else {
            let ghost pbody0 = self.player_snake@;
            self.player_snake.insert(0, ph);
            proof {
                assert(self.player_snake@ =~= grown(pbody0, ph));
            }
            if ph == self.food {
                self.player_score = self.player_score + FOOD_REWARD;
                let obstacles = concat_bodies(&self.player_snake, &self.bot_snake);
                match spawn_food(&obstacles) {
                    Ok(f) => {
                        proof {
                            food1 = f;
                        }
                        match spawn_block(&obstacles, f) {
                            Ok(bl) => {
                                self.food = f;
                                self.block = bl;
                                proof {
                                    block1 = bl;
                                }
                            },
                            Err(_) => {
                                self.food = f;
                                self.game_over = true;
                                proof {
                                    assert(self@ =~= player_phase(pre, food1, block1));
                                    lemma_player_phase_wf(pre, food1, block1);
                                    assert(compet_tick_with(
                                        pre,
                                        self@,
                                        food1,
                                        block1,
                                        food2,
                                        block2,
                                    ));
                                }
                                return ;
                            },
                        }
                    },
                    Err(_) => {
                        self.game_over = true;
                        proof {
                            assert(self@ =~= player_phase(pre, food1, block1));
                            lemma_player_phase_wf(pre, food1, block1);
                            assert(compet_tick_with(pre, self@, food1, block1, food2, block2));
                        }
                        return ;
                    },
                }
            } else {
                self.player_snake.pop();
                proof {
                    assert(self.player_snake@ =~= moved(pbody0, ph));
                }
                if ph == self.block {
                    let half = self.player_snake.len() / 2;
                    let new_len = if half >= 1 {
                        half
                    } else {
                        1
                    };
                    self.player_snake.truncate(new_len);
                    proof {
                        assert(self.player_snake@ =~= shrunk(moved(pbody0, ph)));
                    }
                    self.player_score = if self.player_score >= HAZARD_PENALTY {
                        self.player_score - HAZARD_PENALTY
                    } else {
                        0
                    };
                    let obstacles = concat_bodies(&self.player_snake, &self.bot_snake);
                    match spawn_block(&obstacles, self.food) {
                        Ok(bl) => {
                            self.block = bl;
                            proof {
                                block1 = bl;
                            }
                        },
                        Err(_) => {
                            self.game_over = true;
                            proof {
                                assert(self@ =~= player_phase(pre, food1, block1));
                                lemma_player_phase_wf(pre, food1, block1);
                                assert(compet_tick_with(pre, self@, food1, block1, food2, block2));
                            }
                            return ;
                        },
                    }
                }
            }
        }
        let ghost mid = self@;
        proof {
            assert(mid =~= player_phase(pre, food1, block1));
            assert(player_phase_ok(pre, food1, block1));
            lemma_player_phase_wf(pre, food1, block1);
            assert(!mid.game_over);
            assert(in_bounds_spec(self.bot_snake@[0]));
        }
        let mover_obstacles = concat_bodies(&self.bot_snake, &self.player_snake);
        let mv = choose_move_for_snake(&self.bot_snake, &mover_obstacles, self.food);
        match mv {
            None => {
                self.bot_alive = false;
            },
            Some(bh) => {
                if !in_bounds(bh) || contains_coord(&self.bot_snake, bh) || contains_coord(
                    &self.player_snake,
                    bh,
                ) {
                    self.bot_alive = false;
                } else {
                    let ghost bbody0 = self.bot_snake@;
                    self.bot_snake.insert(0, bh);
                    proof {
                        assert(self.bot_snake@ =~= grown(bbody0, bh));
                    }
                    if bh == self.food {
                        self.bot_score = self.bot_score + FOOD_REWARD;
                        let obstacles = concat_bodies(&self.player_snake, &self.bot_snake);
                        match spawn_food(&obstacles) {
                            Ok(f) => {
                                proof {
                                    food2 = f;
                                }
                                match spawn_block(&obstacles, f) {
                                    Ok(bl) => {
                                        self.food = f;
                                        self.block = bl;
                                        proof {
                                            block2 = bl;
                                        }
                                    },
                                    Err(_) => {
                                        self.food = f;
                                        self.game_over = true;
                                        proof {
                                            assert(self@ =~= bot_phase(mid, food2, block2));
                                            lemma_bot_phase_wf(mid, food2, block2);
                                            assert(compet_tick_with(
                                                pre,
                                                self@,
                                                food1,
                                                block1,
                                                food2,
                                                block2,
                                            ));
                                        }
                                        return ;
                                    },
                                }
                            },
                            Err(_) => {
                                self.game_over = true;
                                proof {
                                    assert(self@ =~= bot_phase(mid, food2, block2));
                                    lemma_bot_phase_wf(mid, food2, block2);
                                    assert(compet_tick_with(
                                        pre,
                                        self@,
                                        food1,
                                        block1,
                                        food2,
                                        block2,
                                    ));
                                }
                                return ;
                            },
                        }
                    } else {
                        self.bot_snake.pop();
                        proof {
                            assert(self.bot_snake@ =~= moved(bbody0, bh));
                        }
                        if bh == self.block {
                            let half = self.bot_snake.len() / 2;
                            let new_len = if half >= 1 {
                                half
                            } else {
                                1
                            };
                            self.bot_snake.truncate(new_len);
                            proof {
                                assert(self.bot_snake@ =~= shrunk(moved(bbody0, bh)));
                            }
                            self.bot_score = if self.bot_score >= HAZARD_PENALTY {
                                self.bot_score - HAZARD_PENALTY
                            } else {
                                0
                            };
                            let obstacles = concat_bodies(&self.player_snake, &self.bot_snake);
                            match spawn_block(&obstacles, self.food) {
                                Ok(bl) => {
                                    self.block = bl;
                                    proof {
                                        block2 = bl;
                                    }
                                },
                                Err(_) => {
                                    self.game_over = true;
                                    proof {
                                        assert(self@ =~= bot_phase(mid, food2, block2));
                                        lemma_bot_phase_wf(mid, food2, block2);
                                        assert(compet_tick_with(
                                            pre,
                                            self@,
                                            food1,
                                            block1,
                                            food2,
                                            block2,
                                        ));
                                    }
                                    return ;
                                },
                            }
                        }
                    }
                }
            },
        }
        let ghost fin = self@;
        proof {
            assert(fin =~= bot_phase(mid, food2, block2));
            assert(bot_phase_ok(mid, food2, block2));
            lemma_bot_phase_wf(mid, food2, block2);
            assert(!fin.game_over);
        }
        if !self.player_alive || !self.bot_alive {
            self.game_over = true;
        }
        proof {
            assert(self@ =~= (CompetView {
                game_over: fin.game_over || !fin.player_alive || !fin.bot_alive,
                ..fin
            }));
            assert(compet_tick_with(pre, self@, food1, block1, food2, block2));
        }
    }

    /// A fresh competitive match: the player a quarter of the way
    /// across, the bot three quarters, both length one and heading
    /// right, scores zero, food and hazard freshly spawned disjoint from
    /// both snakes and from each other.
    pub fn reset() -> (g: CompetGame)
        ensures
            g.wf(),
            !g.game_over,
            g.player_snake@ =~= seq![
                Coord { x: (GRID_WIDTH / 4) as i32, y: (GRID_HEIGHT / 2) as i32 },
            ],
            g.bot_snake@ =~= seq![
                Coord { x: (3 * GRID_WIDTH / 4) as i32, y: (GRID_HEIGHT / 2) as i32 },
            ],
            g.player_dir == Dir::Right,
            g.player_score == 0,
            g.bot_score == 0,
    {
        let player_start = Coord { x: GRID_WIDTH / 4, y: GRID_HEIGHT / 2 };
        let bot_start = Coord { x: 3 * GRID_WIDTH / 4, y: GRID_HEIGHT / 2 };
        let mut player_snake: Vec<Coord> = Vec::new();
        player_snake.push(player_start);
        let mut bot_snake: Vec<Coord> = Vec::new();
        bot_snake.push(bot_start);
        let obstacles = concat_bodies(&player_snake, &bot_snake);
        proof {
            let w = Coord { x: 0, y: 0 };
            assert(in_bounds_spec(w) && !obstacles@.contains(w)) by {
                if obstacles@.contains(w) {
                    let i = choose|i: int| 0 <= i < obstacles@.len() && obstacles@[i] == w;
                }
            }
            assert(!covers_grid(obstacles@));
        }
        let food = match spawn_food(&obstacles) {
            Ok(f) => f,
            Err(_) => {
                proof {
                    assert(false);
                }
                Coord { x: 0, y: 0 }
            },
        };
        proof {
            let w0 = Coord { x: 0, y: 0 };
            let w1 = Coord { x: 0, y: 1 };
            let ghost ex = obstacles@.push(food);
            assert(!covers_grid(ex)) by {
                if covers_grid(ex) {
                    assert(in_bounds_spec(w0) && in_bounds_spec(w1));
                    assert(ex.contains(w0) && ex.contains(w1));
                    let i = choose|i: int| 0 <= i < ex.len() && ex[i] == w0;
                    let j = choose|j: int| 0 <= j < ex.len() && ex[j] == w1;
                    assert(i == 2 && j == 2);
                }
            }
        }
        let block = match spawn_block(&obstacles, food) {
            Ok(b) => b,
            Err(_) => {
                proof {
                    assert(false);
                }
                Coord { x: 0, y: 0 }
            },
        };
        let g = CompetGame {
            player_snake,
            player_dir: Dir::Right,
            bot_snake,
            player_score: 0,
            bot_score: 0,
            food,
            block,
            player_alive: true,
            bot_alive: true,
            game_over: false,
        };
        proof {
            lemma_concat_contains(g.player_snake@, g.bot_snake@, g.food);
            lemma_concat_contains(g.player_snake@, g.bot_snake@, g.block);
        }
        g
    }
}

} // verus!
