//! The snake: an ordered body of grid cells with a heading and a retained tail.
//!
//! The body is a sequence of cells, front (index 0) = head, back = tail.
//! Moving pushes a new head and pops the back cell, which is retained so that
//! an eating event can restore it one step later (deferred growth).

use vstd::prelude::*;

use crate::draw::{DrawColor, DrawCommand};

verus! {

/// A movement direction, used both as the snake's persistent heading and as a
/// transient input.
#[derive(Clone, Copy, PartialEq, Eq, Structural, Debug)]
pub enum Direction {
    Up,
    Down,
    Left,
    Right,
}

impl Direction {
    /// The reverse of a direction: Up <-> Down, Left <-> Right.
    pub open spec fn opposite_spec(self) -> Direction {
        match self {
            Direction::Up => Direction::Down,
            Direction::Down => Direction::Up,
            Direction::Left => Direction::Right,
            Direction::Right => Direction::Left,
        }
    }

    pub fn opposite(&self) -> (d: Direction)
        ensures
            d == self.opposite_spec(),
    {
        match *self {
            Direction::Up => Direction::Down,
            Direction::Down => Direction::Up,
            Direction::Left => Direction::Right,
            Direction::Right => Direction::Left,
        }
    }
}

/// Reversing twice is the identity: `opposite` is an involution.
pub proof fn lemma_opposite_involution(d: Direction)
    ensures
        d.opposite_spec().opposite_spec() == d,
{
}

/// One grid cell, identified by its integer coordinates.
#[derive(Clone, Copy, PartialEq, Eq, Structural, Debug)]
pub struct Block {
    pub x: i32,
    pub y: i32,
}

/// The mathematical model of a `Snake`.
#[verifier::ext_equal]
pub struct SnakeView {
    pub direction: Direction,
    pub body: Seq<Block>,
    pub tail: Option<Block>,
}

/// The direction a move will take: the override if one is given, else the
/// current heading.
pub open spec fn dir_or(dir: Option<Direction>, cur: Direction) -> Direction {
    match dir {
        Some(d) => d,
        None => cur,
    }
}

/// The cell one step from `h` in direction `d` (coordinates truncated at the
/// machine limits; callers rule that out with `can_step`).
pub open spec fn next_cell(d: Direction, h: Block) -> Block {
    match d {
        Direction::Up => Block { x: h.x, y: (h.y - 1) as i32 },
        Direction::Down => Block { x: h.x, y: (h.y + 1) as i32 },
        Direction::Left => Block { x: (h.x - 1) as i32, y: h.y },
        Direction::Right => Block { x: (h.x + 1) as i32, y: h.y },
    }
}

/// One step from `h` in direction `d` stays within the machine's coordinate
/// range.
pub open spec fn can_step(d: Direction, h: Block) -> bool {
    match d {
        Direction::Up => h.y > i32::MIN,
        Direction::Down => h.y < i32::MAX,
        Direction::Left => h.x > i32::MIN,
        Direction::Right => h.x < i32::MAX,
    }
}

/// The snake after one forward move: the heading becomes `dir_or(dir, ..)`,
/// the new head cell is pushed at the front, the back cell is dropped and
/// retained in `tail`. The body length is unchanged.
pub open spec fn move_snake(s: SnakeView, dir: Option<Direction>) -> SnakeView {
    let d = dir_or(dir, s.direction);
    SnakeView {
        direction: d,
        body: seq![next_cell(d, s.body[0])] + s.body.drop_last(),
        tail: Some(s.body.last()),
    }
}

/// The snake after its retained tail cell is pushed back onto the back of the
/// body, growing it by one. Without a retained tail nothing changes.
pub open spec fn grow_snake(s: SnakeView) -> SnakeView {
    match s.tail {
        Some(b) => SnakeView { direction: s.direction, body: s.body.push(b), tail: s.tail },
        None => s,
    }
}

/// The fresh snake placed at (x, y): three cells in a row heading Right, the
/// head at (x + 2, y), no retained tail.
pub open spec fn initial_snake(x: int, y: int) -> SnakeView {
    SnakeView {
        direction: Direction::Right,
        body: seq![
            Block { x: (x + 2) as i32, y: y as i32 },
            Block { x: (x + 1) as i32, y: y as i32 },
            Block { x: x as i32, y: y as i32 },
        ],
        tail: None,
    }
}

/// The draw commands for a snake: one filled block per body cell, in body
/// order (head first).
pub open spec fn snake_draw_seq(s: SnakeView) -> Seq<DrawCommand> {
    Seq::new(s.body.len(), |i: int| DrawCommand::Block {
        color: DrawColor::Snake,
        x: s.body[i].x,
        y: s.body[i].y,
    })
}

/// A move alone keeps the body length; a move followed by restoring the tail
/// grows it by exactly one.
pub proof fn lemma_move_then_restore_grows(s: SnakeView, dir: Option<Direction>)
    requires
        s.body.len() >= 1,
    ensures
        move_snake(s, dir).body.len() == s.body.len(),
        grow_snake(move_snake(s, dir)).body.len() == s.body.len() + 1,
{
}

pub struct Snake {
    pub direction: Direction,
    pub body: Vec<Block>,
    pub tail: Option<Block>,
}

impl View for Snake {
    type V = SnakeView;

    open spec fn view(&self) -> SnakeView {
        SnakeView { direction: self.direction, body: self.body@, tail: self.tail }
    }
}

impl Snake {
    pub fn new(x: i32, y: i32) -> (s: Snake)
        requires
            x + 2 <= i32::MAX,
        ensures
            s@ == initial_snake(x as int, y as int),
            s@.body.len() == 3,
    {
        let mut body: Vec<Block> = Vec::new();
        body.push(Block { x: x + 2, y });
        body.push(Block { x: x + 1, y });
        body.push(Block { x, y });

        let s = Snake { direction: Direction::Right, body, tail: None };
        proof {
            assert(s@.body =~= initial_snake(x as int, y as int).body);
            assert(s@ =~= initial_snake(x as int, y as int));
        }
        s
    }

    /// The draw commands for this snake's body, head first.
    pub fn draw(&self) -> (cmds: Vec<DrawCommand>)
        ensures
            cmds@ == snake_draw_seq(self@),
    {
        let mut cmds: Vec<DrawCommand> = Vec::new();
        let mut i: usize = 0;
        while i < self.body.len()
            invariant
                i <= self.body@.len(),
                cmds@ =~= snake_draw_seq(self@).take(i as int),
            decreases self.body@.len() - i,
        {
            let b = self.body[i];
            cmds.push(DrawCommand::Block { color: DrawColor::Snake, x: b.x, y: b.y });
            i = i + 1;
        }
        proof {
            assert(cmds@ =~= snake_draw_seq(self@));
        }
        cmds
    }

    pub fn head_position(&self) -> (p: (i32, i32))
        requires
            self@.body.len() >= 1,
        ensures
            p.0 == self@.body[0].x,
            p.1 == self@.body[0].y,
    {
        let head_block = &self.body[0];
        (head_block.x, head_block.y)
    }

    pub fn head_direction(&self) -> (d: Direction)
        ensures
            d == self@.direction,
    {
        self.direction
    }

    /// Where the head would move under the override (or the current heading),
    /// without mutating anything. Pure lookahead for collision pre-checks.
    pub fn next_head(&self, dir: Option<Direction>) -> (p: (i32, i32))
        requires
            self@.body.len() >= 1,
            can_step(dir_or(dir, self@.direction), self@.body[0]),
        ensures
            (Block { x: p.0, y: p.1 }) == next_cell(dir_or(dir, self@.direction), self@.body[0]),
    {
        let (head_x, head_y) = self.head_position();
        let mut moving_direction = self.direction;

        match dir {
            None => (),
            Some(d) => moving_direction = d,
        }

        match moving_direction {
            Direction::Up => (head_x, head_y - 1),
            Direction::Down => (head_x, head_y + 1),
            Direction::Left => (head_x - 1, head_y),
            Direction::Right => (head_x + 1, head_y),
        }
    }

    /// True if cell (x, y) is occupied by any cell of the body.
    pub fn overlap_tail(&self, x: i32, y: i32) -> (r: bool)
        ensures
            r == self@.body.contains((Block { x, y })),
    {
        let mut i: usize = 0;
        while i < self.body.len()
            invariant
                i <= self.body@.len(),
                forall|j: int| 0 <= j < i ==> self.body@[j] != (Block { x, y }),
            decreases self.body@.len() - i,
        {
            let b = self.body[i];
            if b.x == x && b.y == y {
                proof {
                    assert(self@.body[i as int] == (Block { x, y }));
                }
                return true;
            }
            i = i + 1;
        }
        proof {
            assert(forall|j: int| 0 <= j < self@.body.len() ==> self@.body[j] != (Block { x, y }));
        }
        false
    }

    /// Commit one forward move: adopt the override as the new heading if one
    /// is given (legality is the caller's responsibility), push the new head
    /// cell at the front, pop the back cell and retain it in `tail`.
    pub fn move_forward(&mut self, direction: Option<Direction>)
        requires
            old(self)@.body.len() >= 1,
            can_step(dir_or(direction, old(self)@.direction), old(self)@.body[0]),
        ensures
            final(self)@ == move_snake(old(self)@, direction),
            final(self)@.body.len() == old(self)@.body.len(),
    {
        match direction {
            None => (),
            Some(d) => self.direction = d,
        }

        let (last_x, last_y) = self.head_position();
        let new_block = match self.direction {
            Direction::Up => Block { x: last_x, y: last_y - 1 },
            Direction::Down => Block { x: last_x, y: last_y + 1 },
            Direction::Left => Block { x: last_x - 1, y: last_y },
            Direction::Right => Block { x: last_x + 1, y: last_y },
        };

        self.body.insert(0, new_block);
        let removed_block = self.body.pop();
        self.tail = removed_block;
        proof {
            assert(self@.body =~= move_snake(old(self)@, direction).body);
            assert(self@ =~= move_snake(old(self)@, direction));
        }
    }

    /// Push the retained tail cell back onto the back of the body, growing it
    /// by one. Used exactly once per eating event, right after the move that
    /// produced the eaten position.
    pub fn restore_tail(&mut self)
        requires
            old(self)@.tail is Some,
        ensures
            final(self)@ == grow_snake(old(self)@),
            final(self)@.body.len() == old(self)@.body.len() + 1,
    {
        let block = self.tail.unwrap();
        self.body.push(block);
        proof {
            assert(self@ =~= grow_snake(old(self)@));
        }
    }
}

} // verus!
