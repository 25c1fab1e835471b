//! The game: grid dimensions, food, the snake, the move timer and the
//! game-over/restart state machine.
//!
//! Time is measured in whole milliseconds. The rendering/input collaborator
//! calls `key_pressed` once per input event and `update` once per frame with
//! the frame's delta time; `draw` yields the abstract commands to render.

use vstd::prelude::*;

use crate::draw::{DrawColor, DrawCommand};
use crate::snake::{
    dir_or, grow_snake, initial_snake, move_snake, next_cell, snake_draw_seq, Block, Direction,
    Snake, SnakeView,
};

verus! {

/// How long the snake waits between two timer-driven moves.
pub const MOVING_PERIOD_MS: u64 = 100;

/// How long a finished game is shown before it restarts.
pub const RESTART_TIME_MS: u64 = 1000;

#[verifier::external_type_specification]
#[verifier::external_body]
pub struct ExThreadRng(rand::rngs::ThreadRng);

/// Relies on rand::thread_rng: returns a handle to the thread-local random
/// generator.
#[verifier::external_body]
fn new_rng() -> rand::rngs::ThreadRng {
    rand::thread_rng()
}

/// Relies on rand's Rng::gen_range on the half-open range `lo..hi`: returns a
/// uniformly distributed value in [lo, hi), and panics if the range is empty,
/// which the precondition rules out. Nothing more can be said of a random
/// draw than its range.
#[verifier::external_body]
fn gen_range_i32(rng: &mut rand::rngs::ThreadRng, lo: i32, hi: i32) -> (r: i32)
    requires
        lo < hi,
    ensures
        lo <= r < hi,
{
    rand::Rng::gen_range(rng, lo..hi)
}

/// The mathematical model of a `Game`. Food is a single optional cell.
#[verifier::ext_equal]
pub struct GameView {
    pub width: int,
    pub height: int,
    pub food: Option<Block>,
    pub snake: SnakeView,
    pub waiting_time: int,
    pub game_over: bool,
}

/// A cell the snake may occupy: strictly inside the left, right and top
/// border, and above the bottom row. The vertical lower bound is checked
/// against the border value, matching the border thickness.
pub open spec fn cell_in_play(g: GameView, c: Block) -> bool {
    &&& 1 <= (c.x as int) <= g.width - 2
    &&& 1 <= (c.y as int) <= g.height - 1
}

/// The game's invariant: a board at least 6 cells each way, a nonempty body
/// of pairwise distinct in-play cells, and food (when present) strictly
/// inside the border and never on the body.
pub open spec fn inv_view(g: GameView) -> bool {
    &&& 6 <= g.width <= i32::MAX
    &&& 6 <= g.height <= i32::MAX
    &&& g.snake.body.len() >= 1
    &&& forall|i: int| 0 <= i < g.snake.body.len() ==> cell_in_play(g, #[trigger] g.snake.body[i])
    &&& forall|i: int, j: int|
        0 <= i < j < g.snake.body.len() ==> g.snake.body[i] != g.snake.body[j]
    &&& match g.food {
        Some(f) => {
            &&& 1 <= (f.x as int) <= g.width - 2
            &&& 1 <= (f.y as int) <= g.height - 2
            &&& !g.snake.body.contains(f)
        },
        None => true,
    }
}

/// A legal food cell for game `g`: strictly inside the border on all four
/// sides, and not on the snake's body.
pub open spec fn food_ok(g: GameView, f: Block) -> bool {
    &&& 1 <= (f.x as int) <= g.width - 2
    &&& 1 <= (f.y as int) <= g.height - 2
    &&& !g.snake.body.contains(f)
}

/// Some interior cell is still free of the snake. Food placement needs one;
/// a snake that fills the whole interior is unreachable on any reasonable
/// board.
pub open spec fn has_free_cell(g: GameView) -> bool {
    exists|f: Block| food_ok(g, f)
}

/// `g` with its move accumulator set to `w`.
pub open spec fn with_waiting(g: GameView, w: int) -> GameView {
    GameView {
        width: g.width,
        height: g.height,
        food: g.food,
        snake: g.snake,
        waiting_time: w,
        game_over: g.game_over,
    }
}

/// `g` with food present at `f`.
pub open spec fn with_food(g: GameView, f: Block) -> GameView {
    GameView {
        width: g.width,
        height: g.height,
        food: Some(f),
        snake: g.snake,
        waiting_time: g.waiting_time,
        game_over: g.game_over,
    }
}

/// The freshly created (or restarted) game: a new length-3 snake at the
/// fixed starting position, no food, a cleared timer, running.
pub open spec fn initial_game(width: int, height: int) -> GameView {
    GameView {
        width,
        height,
        food: None,
        snake: initial_snake(2, 2),
        waiting_time: 0,
        game_over: false,
    }
}

/// The accumulator after `delta` more milliseconds, saturating at the
/// machine limit.
pub open spec fn accumulate(w: int, delta: int) -> int {
    if w + delta > u64::MAX {
        u64::MAX as int
    } else {
        w + delta
    }
}

/// Whether a move under `dir` is survivable: the prospective head cell is not
/// already on the body, and lies inside the playable area.
pub open spec fn survivable(g: GameView, dir: Option<Direction>) -> bool {
    let c = next_cell(dir_or(dir, g.snake.direction), g.snake.body[0]);
    &&& !g.snake.body.contains(c)
    &&& 0 < (c.x as int) && (c.x as int) < g.width - 1
    &&& 0 < (c.y as int) && (c.y as int) < g.height
}

/// Whether the head currently sits exactly on the food cell.
pub open spec fn eating_now(g: GameView) -> bool {
    match g.food {
        Some(f) => f == g.snake.body[0],
        None => false,
    }
}

/// The eating rule: if the head sits on the food cell, the food becomes
/// absent and the retained tail is restored, growing the body by one.
pub open spec fn eat_step(g: GameView) -> GameView {
    if eating_now(g) {
        GameView {
            width: g.width,
            height: g.height,
            food: None,
            snake: grow_snake(g.snake),
            waiting_time: g.waiting_time,
            game_over: g.game_over,
        }
    } else {
        g
    }
}

/// One committed move: if the move is not survivable the game ends and the
/// snake does not move; otherwise the snake advances and the eating rule
/// runs. The move accumulator is reset in all cases.
pub open spec fn step(g: GameView, dir: Option<Direction>) -> GameView {
    if survivable(g, dir) {
        let g1 = GameView {
            width: g.width,
            height: g.height,
            food: g.food,
            snake: move_snake(g.snake, dir),
            waiting_time: 0,
            game_over: g.game_over,
        };
        eat_step(g1)
    } else {
        GameView {
            width: g.width,
            height: g.height,
            food: g.food,
            snake: g.snake,
            waiting_time: 0,
            game_over: true,
        }
    }
}

/// One input event: ignored while the game is over; a missing direction
/// re-affirms the current heading; a direction equal to the exact opposite
/// of the heading is ignored; anything else forces an immediate move.
pub open spec fn input_step(g: GameView, dir: Option<Direction>) -> GameView {
    if g.game_over {
        g
    } else {
        let d = dir_or(dir, g.snake.direction);
        if d == g.snake.direction.opposite_spec() {
            g
        } else {
            step(g, Some(d))
        }
    }
}

/// The draw commands for the whole game, in occlusion order: the snake's
/// body, the food cell if present, the four border rectangles, and the
/// game-over overlay on top of everything.
pub open spec fn game_draw_seq(g: GameView) -> Seq<DrawCommand> {
    snake_draw_seq(g.snake) + (match g.food {
        Some(f) => seq![
            (DrawCommand::Block { color: DrawColor::Food, x: f.x, y: f.y }),
        ],
        None => Seq::<DrawCommand>::empty(),
    }) + seq![
        (DrawCommand::Rect { color: DrawColor::Border, x: 0, y: 0, w: g.width as i32, h: 1 }),
        (DrawCommand::Rect {
            color: DrawColor::Border,
            x: 0,
            y: (g.height - 1) as i32,
            w: g.width as i32,
            h: 1,
        }),
        (DrawCommand::Rect { color: DrawColor::Border, x: 0, y: 0, w: 1, h: g.height as i32 }),
        (DrawCommand::Rect {
            color: DrawColor::Border,
            x: (g.width - 1) as i32,
            y: 0,
            w: 1,
            h: g.height as i32,
        }),
    ] + (if g.game_over {
        seq![
            (DrawCommand::Rect {
                color: DrawColor::GameOver,
                x: 0,
                y: 0,
                w: g.width as i32,
                h: g.height as i32,
            }),
        ]
    } else {
        Seq::<DrawCommand>::empty()
    })
}

/// The freshly created game satisfies the invariant.
pub proof fn lemma_initial_inv(width: int, height: int)
    requires
        6 <= width <= i32::MAX,
        6 <= height <= i32::MAX,
    ensures
        inv_view(initial_game(width, height)),
{
    let g = initial_game(width, height);
    assert(g.snake.body[0] == (Block { x: 4i32, y: 2i32 }));
    assert(g.snake.body[1] == (Block { x: 3i32, y: 2i32 }));
    assert(g.snake.body[2] == (Block { x: 2i32, y: 2i32 }));
    assert forall|i: int| 0 <= i < g.snake.body.len() implies cell_in_play(
        g,
        #[trigger] g.snake.body[i],
    ) by {
        assert(i == 0 || i == 1 || i == 2);
    }
}

/// A committed move preserves the game invariant.
pub proof fn lemma_step_preserves_inv(g: GameView, dir: Option<Direction>)
    requires
        inv_view(g),
    ensures
        inv_view(step(g, dir)),
{
    if survivable(g, dir) {
        let d = dir_or(dir, g.snake.direction);
        let nh = next_cell(d, g.snake.body[0]);
        let s1 = move_snake(g.snake, dir);
        let post = step(g, dir);
        let b = g.snake.body;

        assert(s1.body.len() == b.len());
        assert(s1.body[0] == nh);
        assert(forall|i: int| 1 <= i < s1.body.len() ==> s1.body[i] == b[i - 1]);
        assert(forall|k: int| 0 <= k < b.len() ==> b[k] != nh);
        assert(cell_in_play(g, nh));

        if eating_now(
            GameView {
                width: g.width,
                height: g.height,
                food: g.food,
                snake: s1,
                waiting_time: 0,
                game_over: g.game_over,
            },
        ) {
            // the body grows by the retained tail cell, which was the old back
            let t = b.last();
            assert(post.snake.body =~= s1.body.push(t));
            assert(post.snake.body[s1.body.len() as int] == t);
            assert forall|i: int| 0 <= i < post.snake.body.len() implies cell_in_play(
                post,
                #[trigger] post.snake.body[i],
            ) by {
                if i < s1.body.len() {
                    if i == 0 {
                        assert(post.snake.body[i] == nh);
                    } else {
                        assert(post.snake.body[i] == b[i - 1]);
                    }
                } else {
                    assert(post.snake.body[i] == b[b.len() - 1]);
                }
            }
            assert forall|i: int, j: int|
                0 <= i < j < post.snake.body.len() implies post.snake.body[i]
                != post.snake.body[j] by {
                if j < s1.body.len() {
                    if i == 0 {
                        assert(post.snake.body[j] == b[j - 1]);
                    }
                } else {
                    assert(post.snake.body[j] == b[b.len() - 1]);
                    if i == 0 {
                        assert(post.snake.body[i] == nh);
                    } else {
                        assert(post.snake.body[i] == b[i - 1]);
                    }
                }
            }
        } else {
            assert(post.snake == s1);
            assert forall|i: int| 0 <= i < post.snake.body.len() implies cell_in_play(
                post,
                #[trigger] post.snake.body[i],
            ) by {
                if i == 0 {
                    assert(post.snake.body[i] == nh);
                } else {
                    assert(post.snake.body[i] == b[i - 1]);
                }
            }
            assert forall|i: int, j: int|
                0 <= i < j < post.snake.body.len() implies post.snake.body[i]
                != post.snake.body[j] by {
                if i == 0 {
                    assert(post.snake.body[j] == b[j - 1]);
                }
            }
            match g.food {
                Some(f) => {
                    assert(f != nh);
                    assert forall|i: int| 0 <= i < post.snake.body.len() implies post.snake.body[i]
                        != f by {
                        if i == 0 {
                            assert(post.snake.body[i] == nh);
                        } else {
                            assert(post.snake.body[i] == b[i - 1]);
                            assert(b.contains(f) == false);
                        }
                    }
                    assert(!post.snake.body.contains(f));
                },
                None => {},
            }
        }
    }
}

/// A reversing input is a no-op: a directional input equal to the exact
/// opposite of the current heading changes neither the heading, nor the
/// body, nor any other part of the game.
pub proof fn lemma_reverse_input_ignored(g: GameView, d: Direction)
    requires
        d == g.snake.direction.opposite_spec(),
    ensures
        input_step(g, Some(d)) == g,
{
}

/// Eating: when a survivable move lands the head exactly on the food cell,
/// the food becomes absent and the body grows by exactly one on that very
/// step.
pub proof fn lemma_eating_grows(g: GameView, dir: Option<Direction>)
    requires
        g.snake.body.len() >= 1,
        survivable(g, dir),
        g.food == Some(next_cell(dir_or(dir, g.snake.direction), g.snake.body[0])),
    ensures
        step(g, dir).food is None,
        step(g, dir).snake.body.len() == g.snake.body.len() + 1,
{
}

pub struct Game {
    pub width: i32,
    pub height: i32,
    pub food_exists: bool,
    pub food_x: i32,
    pub food_y: i32,
    pub snake: Snake,
    pub waiting_time: u64,
    pub game_over: bool,
}

impl View for Game {
    type V = GameView;

    open spec fn view(&self) -> GameView {
        GameView {
            width: self.width as int,
            height: self.height as int,
            food: if self.food_exists {
                Some(Block { x: self.food_x, y: self.food_y })
            } else {
                None
            },
            snake: self.snake@,
            waiting_time: self.waiting_time as int,
            game_over: self.game_over,
        }
    }
}

impl Game {
    pub open spec fn inv(self) -> bool {
        inv_view(self@)
    }

    pub fn new(width: i32, height: i32) -> (g: Game)
        requires
            6 <= width,
            6 <= height,
        ensures
            g.inv(),
            g@ == initial_game(width as int, height as int),
    {
        let g = Game {
            width,
            height,
            food_exists: false,
            food_x: 0,
            food_y: 0,
            snake: Snake::new(2, 2),
            waiting_time: 0,
            game_over: false,
        };
        proof {
            assert(g@ =~= initial_game(width as int, height as int));
            lemma_initial_inv(width as int, height as int);
        }
        g
    }

    /// Whether the move under `direction` would be survivable: the
    /// prospective head cell must not overlap the body and must stay inside
    /// the playable area.
    pub fn check_if_snake_alive(&self, direction: Option<Direction>) -> (r: bool)
        requires
            self.inv(),
        ensures
            r == survivable(self@, direction),
    {
        proof {
            assert(cell_in_play(self@, self@.snake.body[0]));
        }
        let (next_x, next_y) = self.snake.next_head(direction);
        if self.snake.overlap_tail(next_x, next_y) {
            return false;
        }

        next_y > 0 && next_x > 0 && next_x < self.width - 1 && next_y < self.height
    }

    /// Place food on a random free cell strictly inside the border,
    /// re-rolling any draw that lands on the snake; after too many collisions
    /// it falls back to scanning for the first free cell.
    pub fn add_food(&mut self)
        requires
            old(self).inv(),
            has_free_cell(old(self)@),
        ensures
            final(self).inv(),
            final(self).food_exists,
            food_ok(old(self)@, (Block { x: final(self).food_x, y: final(self).food_y })),
            final(self)@ == with_food(
                old(self)@,
                (Block { x: final(self).food_x, y: final(self).food_y }),
            ),
    {
        let mut rng = new_rng();
        let hi_x = self.width - 1;
        let hi_y = self.height - 1;
        let mut new_x = gen_range_i32(&mut rng, 1, hi_x);
        let mut new_y = gen_range_i32(&mut rng, 1, hi_y);
        let mut tries: u32 = 0;

        while tries < 1000 && self.snake.overlap_tail(new_x, new_y)
            invariant
                *self == *old(self),
                self.inv(),
                hi_x == self.width - 1,
                hi_y == self.height - 1,
                1 <= new_x < hi_x,
                1 <= new_y < hi_y,
                tries <= 1000,
            decreases 1000 - tries,
        {
            new_x = gen_range_i32(&mut rng, 1, hi_x);
            new_y = gen_range_i32(&mut rng, 1, hi_y);
            tries = tries + 1;
        }
        if !self.snake.overlap_tail(new_x, new_y) {
            self.food_x = new_x;
            self.food_y = new_y;
            self.food_exists = true;
            proof {
                assert(self@ =~= with_food(old(self)@, (Block { x: new_x, y: new_y })));
            }
            return;
        }

        // an extremely unlucky run of draws: take the first free interior cell
        let mut cx: i32 = 1;
        while cx < self.width - 1
            invariant
                *self == *old(self),
                self.inv(),
                1 <= cx <= self.width - 1,
                forall|a: i32, b: i32|
                    1 <= a < cx && 1 <= b < self.height - 1 ==> self@.snake.body.contains(
                        (Block { x: a, y: b }),
                    ),
            decreases self.width - 1 - cx,
        {
            let mut cy: i32 = 1;
            while cy < self.height - 1
                invariant
                    *self == *old(self),
                    self.inv(),
                    cx < self.width - 1,
                    1 <= cx,
                    1 <= cy <= self.height - 1,
                    forall|a: i32, b: i32|
                        1 <= a < cx && 1 <= b < self.height - 1 ==> self@.snake.body.contains(
                            (Block { x: a, y: b }),
                        ),
                    forall|b: i32|
                        1 <= b < cy ==> self@.snake.body.contains((Block { x: cx, y: b })),
                decreases self.height - 1 - cy,
            {
                if !self.snake.overlap_tail(cx, cy) {
                    self.food_x = cx;
                    self.food_y = cy;
                    self.food_exists = true;
                    proof {
                        assert(self@ =~= with_food(old(self)@, (Block { x: cx, y: cy })));
                    }
                    return;
                }
                cy = cy + 1;
            }
            cx = cx + 1;
        }
        proof {
            let f = choose|f: Block| food_ok(old(self)@, f);
            assert(self@.snake.body.contains((Block { x: f.x, y: f.y })));
            assert(false);
        }
    }

    /// The eating rule: if food is present and the head sits exactly on it,
    /// clear the food and restore the snake's tail.
    pub fn check_eating(&mut self)
        requires
            old(self)@.snake.body.len() >= 1,
            eating_now(old(self)@) ==> old(self)@.snake.tail is Some,
        ensures
            final(self)@ == eat_step(old(self)@),
    {
        let (head_x, head_y) = self.snake.head_position();
        if self.food_exists && self.food_x == head_x && self.food_y == head_y {
            self.food_exists = false;
            self.snake.restore_tail();
            proof {
                assert(self@ =~= eat_step(old(self)@));
            }
        } else {
            proof {
                assert(!eating_now(old(self)@));
                assert(self@ =~= eat_step(old(self)@));
            }
        }
    }

    /// Commit one move: if it is not survivable, the game ends and the snake
    /// stays where it is; otherwise the snake advances and the eating rule
    /// runs. The move accumulator is reset in all cases.
    pub fn update_snake(&mut self, direction: Option<Direction>)
        requires
            old(self).inv(),
        ensures
            final(self).inv(),
            final(self)@ == step(old(self)@, direction),
    {
        if self.check_if_snake_alive(direction) {
            proof {
                assert(cell_in_play(old(self)@, old(self)@.snake.body[0]));
            }
            self.snake.move_forward(direction);
            self.check_eating();
        } else {
            self.game_over = true;
        }
        self.waiting_time = 0;
        proof {
            assert(self@ =~= step(old(self)@, direction));
            lemma_step_preserves_inv(old(self)@, direction);
        }
    }

    /// Handle one input event: ignored while the game is over; a
    /// non-directional key re-affirms the current heading; a direction equal
    /// to the exact opposite of the heading is silently ignored; anything
    /// else forces an immediate move.
    pub fn key_pressed(&mut self, dir: Option<Direction>)
        requires
            old(self).inv(),
        ensures
            final(self).inv(),
            final(self)@ == input_step(old(self)@, dir),
    {
        if self.game_over {
            return;
        }

        let d = match dir {
            Some(d) => d,
            None => self.snake.head_direction(),
        };

        if d == self.snake.head_direction().opposite() {
            return;
        }

        self.update_snake(Some(d));
    }

    /// Replace everything but the grid dimensions with a fresh running game.
    pub fn restart(&mut self)
        requires
            old(self).inv(),
        ensures
            final(self).inv(),
            final(self)@ == initial_game(old(self)@.width, old(self)@.height),
    {
        self.snake = Snake::new(2, 2);
        self.waiting_time = 0;
        self.food_exists = false;
        self.food_x = 0;
        self.food_y = 0;
        self.game_over = false;
        proof {
            assert(self@ =~= initial_game(old(self)@.width, old(self)@.height));
            lemma_initial_inv(old(self)@.width, old(self)@.height);
        }
    }

    /// Advance time by `delta_ms` milliseconds. While the game is over, a
    /// full restart delay restarts it. While it runs, food is placed
    /// whenever absent, and once a full movement period has accumulated the
    /// snake moves straight ahead.
    pub fn update(&mut self, delta_ms: u64)
        requires
            old(self).inv(),
            !old(self)@.game_over && old(self)@.food is None ==> has_free_cell(old(self)@),
        ensures
            final(self).inv(),
            ({
                let w = accumulate(old(self)@.waiting_time, delta_ms as int);
                &&& (old(self)@.game_over && w > RESTART_TIME_MS ==> final(self)@ == initial_game(
                    old(self)@.width,
                    old(self)@.height,
                ))
                &&& (old(self)@.game_over && w <= RESTART_TIME_MS ==> final(self)@ == with_waiting(
                    old(self)@,
                    w,
                ))
                &&& (!old(self)@.game_over && old(self)@.food is Some ==> final(self)@ == (
                if w > MOVING_PERIOD_MS {
                    step(with_waiting(old(self)@, w), None)
                } else {
                    with_waiting(old(self)@, w)
                }))
                &&& (!old(self)@.game_over && old(self)@.food is None ==> exists|f: Block|
                    #[trigger] food_ok(old(self)@, f) && final(self)@ == (
                    if w > MOVING_PERIOD_MS {
                        step(with_food(with_waiting(old(self)@, w), f), None)
                    } else {
                        with_food(with_waiting(old(self)@, w), f)
                    }))
            }),
    {
        let ghost w = accumulate(old(self)@.waiting_time, delta_ms as int);
        if delta_ms > u64::MAX - self.waiting_time {
            self.waiting_time = u64::MAX;
        } else {
            self.waiting_time = self.waiting_time + delta_ms;
        }
        proof {
            assert(self@ =~= with_waiting(old(self)@, w));
        }

        if self.game_over {
            if self.waiting_time > RESTART_TIME_MS {
                self.restart();
            }
            return;
        }

        let ghost mut placed: Block = Block { x: 0, y: 0 };
        if !self.food_exists {
            proof {
                let f = choose|f: Block| food_ok(old(self)@, f);
                assert(food_ok(self@, f));
            }
            self.add_food();
            proof {
                placed = Block { x: self.food_x, y: self.food_y };
                assert(food_ok(old(self)@, placed));
                assert(self@ =~= with_food(with_waiting(old(self)@, w), placed));
            }
        }

        let ghost mid = self@;
        if self.waiting_time > MOVING_PERIOD_MS {
            self.update_snake(None);
        }
        proof {
            if !old(self)@.game_over && old(self)@.food is None {
                assert(food_ok(old(self)@, placed) && self@ == (if w > MOVING_PERIOD_MS {
                    step(with_food(with_waiting(old(self)@, w), placed), None)
                } else {
                    with_food(with_waiting(old(self)@, w), placed)
                }));
            }
        }
    }

    /// The draw commands for the whole game, in occlusion order: snake body
    /// cells, the food cell if present, the four border rectangles, and the
    /// game-over overlay last.
    pub fn draw(&self) -> (cmds: Vec<DrawCommand>)
        requires
            self.inv(),
        ensures
            cmds@ == game_draw_seq(self@),
    {
        let mut cmds = self.snake.draw();
        if self.food_exists {
            cmds.push(DrawCommand::Block { color: DrawColor::Food, x: self.food_x, y: self.food_y });
        }

        cmds.push(DrawCommand::Rect { color: DrawColor::Border, x: 0, y: 0, w: self.width, h: 1 });
        cmds.push(
            DrawCommand::Rect {
                color: DrawColor::Border,
                x: 0,
                y: self.height - 1,
                w: self.width,
                h: 1,
            },
        );
        cmds.push(DrawCommand::Rect { color: DrawColor::Border, x: 0, y: 0, w: 1, h: self.height });
        cmds.push(
            DrawCommand::Rect {
                color: DrawColor::Border,
                x: self.width - 1,
                y: 0,
                w: 1,
                h: self.height,
            },
        );

        if self.game_over {
            cmds.push(
                DrawCommand::Rect {
                    color: DrawColor::GameOver,
                    x: 0,
                    y: 0,
                    w: self.width,
                    h: self.height,
                },
            );
        }
        proof {
            assert(cmds@ =~= game_draw_seq(self@));
        }
        cmds
    }
}

} // verus!

