//! The snake: an ordered body of segments that trails its head over a board
//! whose edges wrap around.

use vstd::prelude::*;
use crate::game::Vec2;
use crate::sprite::{Glyph, Sprite};

verus! {

/// Number of segments a new snake has.
pub const INITIAL_LENGTH: usize = 3;

/// The part a segment plays in the body.
#[derive(Clone, Copy, Debug, PartialEq, Eq, Structural)]
pub enum SegmentKind {
    Head,
    Body,
}

/// One cell of the snake's body.
#[derive(Clone, Copy, Debug, PartialEq, Eq, Structural)]
pub struct Segment {
    pub x: u16,
    pub y: u16,
    pub kind: SegmentKind,
}

impl Segment {
    pub fn new(x: u16, y: u16, kind: SegmentKind) -> (r: Self)
        ensures
            r == (Segment { x, y, kind }),
    {
        Self { x, y, kind }
    }

    /// The cell this segment occupies.
    pub open spec fn position(self) -> Vec2 {
        Vec2 { x: self.x, y: self.y }
    }
}

/// The four ways the head can travel. `Up` is towards row 0.
#[derive(Clone, Copy, Debug, PartialEq, Eq, Structural)]
pub enum Direction {
    Right,
    Left,
    Up,
    Down,
}

impl Direction {
    /// The direction that points the other way.
    pub open spec fn opposite(self) -> Direction {
        match self {
            Direction::Right => Direction::Left,
            Direction::Left => Direction::Right,
            Direction::Up => Direction::Down,
            Direction::Down => Direction::Up,
        }
    }

    pub fn reversed(&self) -> (r: Self)
        ensures
            r == self.opposite(),
    {
        match *self {
            Self::Right => Self::Left,
            Self::Left => Self::Right,
            Self::Up => Self::Down,
            Self::Down => Self::Up,
        }
    }
}

/// The coordinate after `v` on an axis of `bound` cells, wrapping from the
/// last cell to cell 0.
pub open spec fn wrap_next(v: u16, bound: u16) -> u16 {
    if v + 1 == bound {
        0
    } else {
        (v + 1) as u16
    }
}

/// The coordinate before `v` on an axis of `bound` cells, wrapping from
/// cell 0 to the last cell.
pub open spec fn wrap_prev(v: u16, bound: u16) -> u16 {
    if v == 0 {
        (bound - 1) as u16
    } else {
        (v - 1) as u16
    }
}

/// The cell one step from `from` in direction `direction` on a wrapping board.
pub open spec fn step(from: Vec2, direction: Direction, board: Vec2) -> Vec2 {
    match direction {
        Direction::Right => Vec2 { x: wrap_next(from.x, board.x), y: from.y },
        Direction::Left => Vec2 { x: wrap_prev(from.x, board.x), y: from.y },
        Direction::Down => Vec2 { x: from.x, y: wrap_next(from.y, board.y) },
        Direction::Up => Vec2 { x: from.x, y: wrap_prev(from.y, board.y) },
    }
}

/// Reversing a direction twice gives it back, and no direction is its own
/// reverse.
pub proof fn lemma_opposite_is_an_involution(direction: Direction)
    ensures
        direction.opposite().opposite() == direction,
        direction.opposite() != direction,
{
}

/// On a board that wraps, a step off an edge comes in at the other edge:
/// right from the last column lands in column 0 and left from column 0 in the
/// last column, down from the last row lands in row 0 and up from row 0 in
/// the last row. The other coordinate never changes.
pub proof fn lemma_step_wraps_at_edges(from: Vec2, board: Vec2)
    requires
        from.inside(board),
    ensures
        from.x == board.x - 1 ==> step(from, Direction::Right, board) == (Vec2 { x: 0, y: from.y }),
        from.x == 0 ==> step(from, Direction::Left, board) == (Vec2 { x: (board.x - 1) as u16, y: from.y }),
        from.y == board.y - 1 ==> step(from, Direction::Down, board) == (Vec2 { x: from.x, y: 0 }),
        from.y == 0 ==> step(from, Direction::Up, board) == (Vec2 { x: from.x, y: (board.y - 1) as u16 }),
{
}

/// A step moves one coordinate by one modulo the board's extent on that axis
/// and leaves the other alone, so it never leaves the board.
pub proof fn lemma_step_is_modular(from: Vec2, direction: Direction, board: Vec2)
    requires
        from.inside(board),
    ensures
        step(from, direction, board).inside(board),
        step(from, Direction::Right, board) == (Vec2 { x: ((from.x + 1) % (board.x as int)) as u16, y: from.y }),
        step(from, Direction::Left, board) == (Vec2 {
            x: ((from.x + board.x - 1) % (board.x as int)) as u16,
            y: from.y,
        }),
        step(from, Direction::Down, board) == (Vec2 { x: from.x, y: ((from.y + 1) % (board.y as int)) as u16 }),
        step(from, Direction::Up, board) == (Vec2 {
            x: from.x,
            y: ((from.y + board.y - 1) % (board.y as int)) as u16,
        }),
{
    lemma_wrap_is_modular(from.x, board.x);
    lemma_wrap_is_modular(from.y, board.y);
}

/// A step and then a step the opposite way lead back to where one was.
pub proof fn lemma_step_back(from: Vec2, direction: Direction, board: Vec2)
    requires
        from.inside(board),
    ensures
        step(step(from, direction, board), direction.opposite(), board) == from,
{
}

/// On an axis of `bound` cells, the next coordinate is the successor modulo
/// `bound` and the previous one the predecessor modulo `bound`.
proof fn lemma_wrap_is_modular(v: u16, bound: u16)
    requires
        v < bound,
    ensures
        wrap_next(v, bound) == (v + 1) % (bound as int),
        wrap_prev(v, bound) == (v + bound - 1) % (bound as int),
{
    let b: int = bound as int;
    if v + 1 == b {
        vstd::arithmetic::div_mod::lemma_mod_self_0(b);
    } else {
        vstd::arithmetic::div_mod::lemma_small_mod((v + 1) as nat, b as nat);
    }
    if v == 0 {
        vstd::arithmetic::div_mod::lemma_small_mod((b - 1) as nat, b as nat);
    } else {
        vstd::arithmetic::div_mod::lemma_fundamental_div_mod_converse(v + b - 1, b, 1, v - 1);
    }
}

/// What a snake is, as a mathematical value.
pub struct SnakeView {
    /// Head first, tail last.
    pub segments: Seq<Segment>,
    pub direction: Direction,
    /// A fruit was eaten and the segment it earns has not been appended yet.
    pub growing: bool,
    pub fruits_eaten: u16,
}

impl SnakeView {
    /// The snake every game starts with: three segments along the top row,
    /// heading right.
    pub open spec fn initial() -> SnakeView {
        SnakeView {
            segments: seq![
                Segment { x: 2, y: 0, kind: SegmentKind::Head },
                Segment { x: 1, y: 0, kind: SegmentKind::Body },
                Segment { x: 0, y: 0, kind: SegmentKind::Body },
            ],
            direction: Direction::Right,
            growing: false,
            fruits_eaten: 0,
        }
    }

    /// There is a head, it comes first, and everything behind it is body.
    pub open spec fn wf(self) -> bool {
        &&& self.segments.len() >= 1
        &&& self.segments[0].kind == SegmentKind::Head
        &&& forall|i: int| 1 <= i < self.segments.len() ==> self.segments[i].kind == SegmentKind::Body
    }

    /// Every segment lies on a board of the given extent.
    pub open spec fn within(self, board: Vec2) -> bool {
        forall|i: int| 0 <= i < self.segments.len() ==> (#[trigger] self.segments[i]).position().inside(board)
    }

    /// One segment per fruit: the length, with the segment still owed counted
    /// in, is the initial length plus the fruits eaten.
    pub open spec fn length_matches_score(self) -> bool {
        self.segments.len() + (if self.growing { 1int } else { 0int }) == INITIAL_LENGTH + self.fruits_eaten
    }

    /// The cell the head is on.
    pub open spec fn head(self) -> Vec2
        recommends
            self.segments.len() >= 1,
    {
        self.segments[0].position()
    }

    /// Some segment, head or body, is on `cell`.
    pub open spec fn occupies(self, cell: Vec2) -> bool {
        exists|i: int| 0 <= i < self.segments.len() && (#[trigger] self.segments[i]).position() == cell
    }

    /// The head is on `cell`.
    pub open spec fn head_at(self, cell: Vec2) -> bool {
        self.segments.len() >= 1 && self.head() == cell
    }

    /// The head shares its cell with a body segment.
    pub open spec fn bites_itself(self) -> bool {
        exists|i: int|
            0 <= i < self.segments.len() && (#[trigger] self.segments[i]).kind == SegmentKind::Body
                && self.segments[i].position() == self.head()
    }

    /// The segments after one move over `board`. The head steps in the current
    /// direction; every other segment takes the cell of the one ahead of it; a
    /// growing snake keeps a new body segment on the cell its tail leaves.
    pub open spec fn moved_segments(self, board: Vec2) -> Seq<Segment>
        recommends
            self.segments.len() >= 1,
    {
        let target = step(self.head(), self.direction, board);
        let len = self.segments.len() + (if self.growing { 1nat } else { 0nat });
        Seq::new(
            len,
            |i: int|
                if i == 0 {
                    Segment { x: target.x, y: target.y, kind: SegmentKind::Head }
                } else {
                    Segment {
                        x: self.segments[i - 1].x,
                        y: self.segments[i - 1].y,
                        kind: SegmentKind::Body,
                    }
                },
        )
    }

    /// The snake as it is painted: one sprite per segment, head first.
    pub open spec fn sprites(self) -> Seq<Sprite> {
        Seq::new(
            self.segments.len(),
            |i: int|
                Sprite {
                    position: self.segments[i].position(),
                    glyph: match self.segments[i].kind {
                        SegmentKind::Head => Glyph::Head,
                        SegmentKind::Body => Glyph::Body,
                    },
                },
        )
    }

    /// The snake after one move over `board`.
    pub open spec fn advance(self, board: Vec2) -> SnakeView {
        SnakeView { segments: self.moved_segments(board), growing: false, ..self }
    }

    /// The snake after eating a fruit: one more on the score, one segment owed.
    pub open spec fn grow(self) -> SnakeView {
        SnakeView { growing: true, fruits_eaten: (self.fruits_eaten + 1) as u16, ..self }
    }

    /// The snake after being told to head in `direction`: it turns, unless that
    /// would reverse it onto its own neck.
    pub open spec fn turn(self, direction: Direction) -> SnakeView {
        if self.direction == direction.opposite() {
            self
        } else {
            SnakeView { direction, ..self }
        }
    }

    /// The snake a new game starts with is sound, has its three segments and
    /// has eaten nothing.
    pub proof fn lemma_initial_is_sound()
        ensures
            SnakeView::initial().wf(),
            SnakeView::initial().length_matches_score(),
            SnakeView::initial().segments.len() == INITIAL_LENGTH,
            !SnakeView::initial().growing,
    {
    }

    /// After a move every segment but the head is where the segment ahead of
    /// it was before the move. A snake that was not growing keeps its length.
    /// A snake that was growing is one segment longer, and that new last
    /// segment is where the tail was before the move.
    pub proof fn lemma_advance_trails(self, board: Vec2)
        requires
            self.wf(),
        ensures
            self.advance(board).segments[0].position() == step(self.head(), self.direction, board),
            forall|i: int|
                1 <= i < self.segments.len() ==> (#[trigger] self.advance(board).segments[i]).position()
                    == self.segments[i - 1].position(),
            !self.growing ==> self.advance(board).segments.len() == self.segments.len(),
            self.growing ==> self.advance(board).segments.len() == self.segments.len() + 1
                && self.advance(board).segments.last().position() == self.segments.last().position(),
    {
    }

    /// A move keeps a sound snake sound and on the board, leaves the
    /// direction and the score alone, and settles the segment that was owed.
    pub proof fn lemma_advance_is_sound(self, board: Vec2)
        requires
            self.wf(),
            self.within(board),
        ensures
            self.advance(board).wf(),
            self.advance(board).within(board),
            self.advance(board).direction == self.direction,
            self.advance(board).fruits_eaten == self.fruits_eaten,
            !self.advance(board).growing,
    {
        lemma_step_is_modular(self.head(), self.direction, board);
        assert forall|i: int| 0 <= i < self.advance(board).segments.len() implies (#[trigger] self.advance(
            board,
        ).segments[i]).position().inside(board) by {
            if i > 0 {
                assert(self.segments[i - 1].position().inside(board));
            }
        }
    }

    /// One segment per fruit. A snake whose length matches its score still
    /// does so after a move, with nothing owed any more: its length is then
    /// the initial length plus the fruits eaten. And it still does so after
    /// eating a fruit, provided it owed no segment when it ate.
    pub proof fn lemma_length_follows_score(self, board: Vec2)
        requires
            self.length_matches_score(),
        ensures
            self.advance(board).length_matches_score(),
            self.advance(board).segments.len() == INITIAL_LENGTH + self.fruits_eaten,
            !self.growing && self.fruits_eaten < u16::MAX ==> self.grow().length_matches_score(),
            !self.growing && self.fruits_eaten < u16::MAX ==> self.grow().advance(board).segments.len()
                == self.segments.len() + 1,
    {
    }

    /// A turn to the exact opposite of the current direction changes nothing.
    /// Any other turn takes effect, and changes nothing but the direction.
    pub proof fn lemma_turn_refuses_only_reversal(self, direction: Direction)
        ensures
            direction == self.direction.opposite() ==> self.turn(direction) == self,
            direction != self.direction.opposite() ==> self.turn(direction) == (SnakeView { direction, ..self }),
    {
        lemma_opposite_is_an_involution(direction);
        lemma_opposite_is_an_involution(self.direction);
    }

    /// A head that steps onto the cell it is on, as it does on a board one
    /// cell wide or high in the direction of travel, lands on its own neck:
    /// after the move the snake has bitten itself.
    pub proof fn lemma_stepping_onto_the_neck_bites(self, board: Vec2)
        requires
            self.wf(),
            self.segments.len() >= 2,
            step(self.head(), self.direction, board) == self.head(),
        ensures
            self.advance(board).segments[1].position() == self.advance(board).head(),
            self.advance(board).bites_itself(),
    {
        let moved = self.advance(board);
        assert(moved.segments[1].kind == SegmentKind::Body && moved.segments[1].position() == moved.head());
    }

    /// Why a reversal is refused: after a move the cell behind the head, in
    /// the direction it came from, is the cell of its neck.
    pub proof fn lemma_reversal_leads_onto_the_neck(self, board: Vec2)
        requires
            self.wf(),
            self.within(board),
            self.segments.len() >= 2,
        ensures
            step(self.advance(board).head(), self.direction.opposite(), board) == self.advance(
                board,
            ).segments[1].position(),
    {
        lemma_step_back(self.head(), self.direction, board);
    }

    /// In a sound snake only the head can be on the head's cell without the
    /// snake biting itself: it bites itself exactly if a segment behind the
    /// head is on the head's cell.
    pub proof fn lemma_bite_is_behind_the_head(self)
        requires
            self.wf(),
        ensures
            self.bites_itself() <==> exists|i: int|
                1 <= i < self.segments.len() && (#[trigger] self.segments[i]).position() == self.head(),
    {
        if self.bites_itself() {
            let i = choose|i: int|
                0 <= i < self.segments.len() && (#[trigger] self.segments[i]).kind == SegmentKind::Body
                    && self.segments[i].position() == self.head();
            assert(1 <= i < self.segments.len() && self.segments[i].position() == self.head());
        }
        if exists|i: int| 1 <= i < self.segments.len() && (#[trigger] self.segments[i]).position() == self.head() {
            let i = choose|i: int|
                1 <= i < self.segments.len() && (#[trigger] self.segments[i]).position() == self.head();
            assert(self.segments[i].kind == SegmentKind::Body);
        }
    }
}

pub struct Snake {
    segments: Vec<Segment>,
    direction: Direction,
    new_segment_added: bool,
    fruits_eaten: u16,
}

impl View for Snake {
    type V = SnakeView;

    closed spec fn view(&self) -> SnakeView {
        SnakeView {
            segments: self.segments@,
            direction: self.direction,
            growing: self.new_segment_added,
            fruits_eaten: self.fruits_eaten,
        }
    }
}

impl Snake {
    /// The invariant every snake handed out by this module satisfies.
    pub open spec fn wf(&self) -> bool {
        self@.wf()
    }

    pub fn new() -> (r: Self)
        ensures
            r.wf(),
            r@ == SnakeView::initial(),
    {
        let mut segments: Vec<Segment> = Vec::new();
        segments.push(Segment::new(2, 0, SegmentKind::Head));
        segments.push(Segment::new(1, 0, SegmentKind::Body));
        segments.push(Segment::new(0, 0, SegmentKind::Body));
        let r = Self { segments, direction: Direction::Right, new_segment_added: false, fruits_eaten: 0 };
        assert(r@.segments =~= SnakeView::initial().segments);
        r
    }

    /// Moves the snake one cell in its current direction over a board whose
    /// edges wrap around.
    pub fn update(&mut self, board_size: &Vec2) -> (r: Result<(), String>)
        requires
            old(self).wf(),
            old(self)@.within(*board_size),
        ensures
            r is Ok,
            final(self)@ == old(self)@.advance(*board_size),
            final(self).wf(),
            final(self)@.within(*board_size),
    {
        let len: usize = self.segments.len();
        let head = self.segments[0];
        assert(head.position().inside(*board_size));
        let target = match self.direction {
            Direction::Right => {
                if head.x + 1 == board_size.x {
                    Vec2::new(0, head.y)
                } else {
                    Vec2::new(head.x + 1, head.y)
                }
            },
            Direction::Left => {
                if head.x == 0 {
                    Vec2::new(board_size.x - 1, head.y)
                } else {
                    Vec2::new(head.x - 1, head.y)
                }
            },
            Direction::Down => {
                if head.y + 1 == board_size.y {
                    Vec2::new(head.x, 0)
                } else {
                    Vec2::new(head.x, head.y + 1)
                }
            },
            Direction::Up => {
                if head.y == 0 {
                    Vec2::new(head.x, board_size.y - 1)
                } else {
                    Vec2::new(head.x, head.y - 1)
                }
            },
        };
        assert(target == step(self@.head(), self@.direction, *board_size));

        let ghost before = self@;
        let mut moved: Vec<Segment> = Vec::new();
        moved.push(Segment::new(target.x, target.y, SegmentKind::Head));
        let mut i: usize = 1;
        while i < len
            invariant
                1 <= i <= len,
                len == self.segments.len(),
                self@ == before,
                moved.len() == i,
                forall|j: int| 0 <= j < i ==> moved[j] == before.moved_segments(*board_size)[j],
            decreases len - i,
        {
            let ahead = self.segments[i - 1];
            moved.push(Segment::new(ahead.x, ahead.y, SegmentKind::Body));
            i += 1;
        }
        if self.new_segment_added {
            let tail = self.segments[len - 1];
            moved.push(Segment::new(tail.x, tail.y, SegmentKind::Body));
            self.new_segment_added = false;
        }
        assert(moved@ =~= before.moved_segments(*board_size));
        self.segments = moved;
        proof {
            before.lemma_advance_is_sound(*board_size);
        }
        Ok(())
    }

    /// One sprite per segment, head first.
    pub fn draw(&self) -> (r: Vec<Sprite>)
        ensures
            r@ == self@.sprites(),
    {
        let mut sprites: Vec<Sprite> = Vec::new();
        let mut i: usize = 0;
        while i < self.segments.len()
            invariant
                i <= self.segments.len(),
                sprites.len() == i,
                forall|j: int| 0 <= j < i ==> sprites[j] == self@.sprites()[j],
            decreases self.segments.len() - i,
        {
            let segment = self.segments[i];
            let glyph = match segment.kind {
                SegmentKind::Head => Glyph::Head,
                SegmentKind::Body => Glyph::Body,
            };
            sprites.push(Sprite::new(Vec2::new(segment.x, segment.y), glyph));
            i += 1;
        }
        assert(sprites@ =~= self@.sprites());
        sprites
    }

    /// Records a fruit: the score goes up by one and the next move leaves a
    /// new segment behind the tail.
    pub fn add_segment(&mut self)
        requires
            old(self)@.fruits_eaten < u16::MAX,
        ensures
            final(self)@ == old(self)@.grow(),
    {
        self.new_segment_added = true;
        self.fruits_eaten += 1;
    }

    pub fn ate_an_fruit(&self, fruit_position: &Vec2) -> (r: bool)
        ensures
            r == self@.head_at(*fruit_position),
    {
        if self.segments.len() > 0 {
            let head = self.segments[0];
            head.x == fruit_position.x && head.y == fruit_position.y
        } else {
            false
        }
    }

    pub fn ate_itself(&self) -> (r: bool)
        ensures
            r == self@.bites_itself(),
    {
        if self.segments.len() == 0 {
            return false;
        }
        let head = self.segments[0];
        let mut i: usize = 0;
        while i < self.segments.len()
            invariant
                i <= self.segments.len(),
                self.segments.len() > 0,
                head == self.segments[0],
                forall|j: int|
                    0 <= j < i ==> !((#[trigger] self@.segments[j]).kind == SegmentKind::Body
                        && self@.segments[j].position() == self@.head()),
            decreases self.segments.len() - i,
        {
            let segment = self.segments[i];
            if head.x == segment.x && head.y == segment.y && segment.kind == SegmentKind::Body {
                return true;
            }
            i += 1;
        }
        false
    }

    pub fn has_segment_at(&self, position: &Vec2) -> (r: bool)
        ensures
            r == self@.occupies(*position),
    {
        let mut i: usize = 0;
        while i < self.segments.len()
            invariant
                i <= self.segments.len(),
                forall|j: int| 0 <= j < i ==> (#[trigger] self@.segments[j]).position() != *position,
            decreases self.segments.len() - i,
        {
            let segment = self.segments[i];
            if segment.x == position.x && segment.y == position.y {
                assert(self@.segments[i as int].position() == *position);
                return true;
            }
            i += 1;
        }
        false
    }

    /// Turns the snake towards `direction`. A turn that would reverse it is
    /// ignored.
    pub fn set_direction(&mut self, direction: Direction)
        ensures
            final(self)@ == old(self)@.turn(direction),
    {
        if self.direction != direction.reversed() {
            self.direction = direction;
        }
    }

    pub fn fruits_eaten(&self) -> (r: u16)
        ensures
            r == self@.fruits_eaten,
    {
        self.fruits_eaten
    }

    pub fn direction(&self) -> (r: Direction)
        ensures
            r == self@.direction,
    {
        self.direction
    }

    /// The number of segments, head included.
    pub fn len(&self) -> (r: usize)
        ensures
            r == self@.segments.len(),
    {
        self.segments.len()
    }

    /// Whether a fruit was eaten whose segment the next move still has to add.
    pub fn is_growing(&self) -> (r: bool)
        ensures
            r == self@.growing,
    {
        self.new_segment_added
    }

    /// Whether every segment lies on a board of the given extent.
    pub fn is_within(&self, board_size: &Vec2) -> (r: bool)
        ensures
            r == self@.within(*board_size),
    {
        let mut i: usize = 0;
        while i < self.segments.len()
            invariant
                i <= self.segments.len(),
                forall|j: int| 0 <= j < i ==> (#[trigger] self@.segments[j]).position().inside(*board_size),
            decreases self.segments.len() - i,
        {
            let segment = self.segments[i];
            if segment.x >= board_size.x || segment.y >= board_size.y {
                assert(!self@.segments[i as int].position().inside(*board_size));
                return false;
            }
            i += 1;
        }
        true
    }
}

} // verus!
