//! The board, the fruit and the rules that tie them to the snake.

use vstd::prelude::*;
use crate::random::gen_range;
use crate::snake::{Direction, Snake, SnakeView, INITIAL_LENGTH};
use crate::sprite::{Glyph, Sprite};
use crate::timer::Timer;

verus! {

/// A pair of grid coordinates: a cell of the board, or the board's extent.
#[derive(Clone, Copy, Debug, PartialEq, Eq, Structural)]
pub struct Vec2 {
    pub x: u16,
    pub y: u16,
}

impl Vec2 {
    pub fn new(x: u16, y: u16) -> (r: Self)
        ensures
            r == (Vec2 { x, y }),
    {
        Self { x, y }
    }

    /// Whether this cell lies on a board of the given extent.
    pub open spec fn inside(self, board: Vec2) -> bool {
        self.x < board.x && self.y < board.y
    }

    /// Whether this cell comes before `other` when the board is read row by
    /// row, each row from column 0.
    pub open spec fn precedes(self, other: Vec2) -> bool {
        self.y < other.y || (self.y == other.y && self.x < other.x)
    }
}

/// How many cells are drawn at random for a new fruit before the board is
/// searched for an empty cell instead.
pub const RESPAWN_DRAWS: u32 = 1024;

/// The time between two ticks of the game, in nanoseconds: a tenth of a
/// second.
pub const TICK_NANOS: u128 = 100_000_000;

/// A key press, as far as the game tells keys apart.
#[derive(Clone, Copy, Debug, PartialEq, Eq, Structural)]
pub enum Key {
    Esc,
    Up,
    Left,
    Down,
    Right,
    /// Any key the game has no use for.
    Other,
}

impl Key {
    /// The direction an arrow key asks for.
    pub open spec fn direction(self) -> Option<Direction> {
        match self {
            Key::Up => Some(Direction::Up),
            Key::Left => Some(Direction::Left),
            Key::Down => Some(Direction::Down),
            Key::Right => Some(Direction::Right),
            _ => None,
        }
    }
}

/// A tick is due once a measure of at least `TICK_NANOS` has been taken.
pub open spec fn tick_is_due(delta: Option<u128>) -> bool {
    delta is Some && delta->Some_0 >= TICK_NANOS
}

/// Whether the time measured since the last tick calls for the next one.
pub fn tick_due(delta: Option<u128>) -> (r: bool)
    ensures
        r == tick_is_due(delta),
{
    match delta {
        Some(nanos) => nanos >= TICK_NANOS,
        None => false,
    }
}

/// What a game is, as a mathematical value.
pub struct GameView {
    pub snake: SnakeView,
    pub board_size: Vec2,
    pub fruit_position: Vec2,
}

impl GameView {
    /// The snake is sound and lies on the board, it has one segment per fruit
    /// eaten on top of its first three, and the fruit lies on the board.
    pub open spec fn wf(self) -> bool {
        &&& self.snake.wf()
        &&& self.snake.within(self.board_size)
        &&& !self.snake.growing
        &&& self.snake.length_matches_score()
        &&& self.fruit_position.inside(self.board_size)
    }

    /// The game as it starts on a board of the given extent: the initial
    /// snake, and the fruit in the middle of the board.
    pub open spec fn initial(board_size: Vec2) -> GameView {
        GameView {
            snake: SnakeView::initial(),
            board_size,
            fruit_position: Vec2 { x: board_size.x / 2, y: board_size.y / 2 },
        }
    }

    /// Some cell of the board has no segment of the snake on it.
    pub open spec fn has_free_cell(self) -> bool {
        exists|cell: Vec2| cell.inside(self.board_size) && !self.snake.occupies(cell)
    }

    /// `cell` is the first cell of the board, read row by row, with no
    /// segment of the snake on it.
    pub open spec fn is_first_free_cell(self, cell: Vec2) -> bool {
        &&& cell.inside(self.board_size)
        &&& !self.snake.occupies(cell)
        &&& forall|other: Vec2|
            other.inside(self.board_size) && #[trigger] other.precedes(cell) ==> self.snake.occupies(other)
    }

    /// Where the fruit may be after a respawn. A fruit that the snake does
    /// not cover stays. One that it covers moves to a cell of the board that
    /// the snake does not cover; only where the snake covers the whole board
    /// does it have to stay.
    pub open spec fn respawns_at(self, fruit: Vec2) -> bool {
        if self.snake.occupies(self.fruit_position) && self.has_free_cell() {
            fruit.inside(self.board_size) && !self.snake.occupies(fruit)
        } else {
            fruit == self.fruit_position
        }
    }

    /// The snake has its head on the fruit and has not run into itself.
    pub open spec fn eats(self) -> bool {
        !self.snake.bites_itself() && self.snake.head_at(self.fruit_position)
    }

    /// The snake after the next tick of a game that goes on.
    pub open spec fn next_snake(self) -> SnakeView {
        if self.snake.head_at(self.fruit_position) {
            self.snake.grow().advance(self.board_size)
        } else {
            self.snake.advance(self.board_size)
        }
    }

    /// One tick takes this game to `next`, and the tick ends the game exactly
    /// if `lost`. A snake that has run into itself loses and nothing moves.
    /// Otherwise a snake with its head on the fruit eats it, the fruit
    /// respawns clear of the snake as it lies, and in either case the snake
    /// moves on.
    pub open spec fn ticks_to(self, next: GameView, lost: bool) -> bool {
        if self.snake.bites_itself() {
            lost && next == self
        } else {
            &&& !lost
            &&& next.board_size == self.board_size
            &&& next.snake == self.next_snake()
            &&& if self.snake.head_at(self.fruit_position) {
                self.respawns_at(next.fruit_position)
            } else {
                next.fruit_position == self.fruit_position
            }
        }
    }

    /// A new game on a board that holds the initial snake is sound.
    pub proof fn lemma_initial_is_sound(board_size: Vec2)
        requires
            board_size.x >= INITIAL_LENGTH,
            board_size.y >= 1,
        ensures
            GameView::initial(board_size).wf(),
    {
        SnakeView::lemma_initial_is_sound();
    }

    /// In a sound game the snake has exactly one segment per fruit eaten on
    /// top of the segments it started with.
    pub proof fn lemma_length_is_initial_plus_fruits(self)
        requires
            self.wf(),
        ensures
            self.snake.segments.len() == INITIAL_LENGTH + self.snake.fruits_eaten,
    {
    }

    /// A tick takes a sound game to a sound game. A tick that ends the game
    /// changes nothing. One on which the snake eats adds one to the score and
    /// one segment to the snake; any other leaves both as they were.
    pub proof fn lemma_tick_keeps_game_sound(self, next: GameView, lost: bool)
        requires
            self.wf(),
            self.eats() ==> self.snake.fruits_eaten < u16::MAX,
            self.ticks_to(next, lost),
        ensures
            next.wf(),
            lost <==> self.snake.bites_itself(),
            lost ==> next == self,
            next.snake.fruits_eaten == self.snake.fruits_eaten + (if self.eats() { 1int } else { 0int }),
            next.snake.segments.len() == self.snake.segments.len() + (if self.eats() { 1int } else { 0int }),
    {
        if !self.snake.bites_itself() {
            if self.snake.head_at(self.fruit_position) {
                self.snake.grow().lemma_advance_is_sound(self.board_size);
            } else {
                self.snake.lemma_advance_is_sound(self.board_size);
            }
        }
    }

    /// A respawn on a board with a cell to spare leaves the fruit on the
    /// board and clear of every segment of the snake.
    pub proof fn lemma_respawn_avoids_snake(self, fruit: Vec2)
        requires
            self.fruit_position.inside(self.board_size),
            self.has_free_cell(),
            self.respawns_at(fruit),
        ensures
            fruit.inside(self.board_size),
            !self.snake.occupies(fruit),
    {
    }

    /// After a tick on which the snake eats, on a board with a cell to spare,
    /// no segment behind the head is on the new fruit: the fruit was placed
    /// clear of the snake, and only the head has moved to a new cell.
    pub proof fn lemma_new_fruit_is_clear_of_body(self, next: GameView)
        requires
            self.wf(),
            self.eats(),
            self.has_free_cell(),
            self.ticks_to(next, false),
        ensures
            forall|i: int|
                1 <= i < next.snake.segments.len() ==> (#[trigger] next.snake.segments[i]).position()
                    != next.fruit_position,
    {
        assert forall|i: int| 1 <= i < next.snake.segments.len() implies (#[trigger] next.snake.segments[i]).position()
            != next.fruit_position by {
            assert(next.snake.segments[i].position() == self.snake.segments[i - 1].position());
        }
    }

    /// The game after a key press: an arrow key turns the snake, subject to
    /// the snake's own rule on reversing; no other key changes anything.
    pub open spec fn after_key(self, key: Key) -> GameView {
        match key.direction() {
            Some(direction) => GameView { snake: self.snake.turn(direction), ..self },
            None => self,
        }
    }

    /// The game after the input of one frame, a key press or none.
    pub open spec fn after_input(self, input: Option<Key>) -> GameView {
        match input {
            Some(key) => self.after_key(key),
            None => self,
        }
    }

    /// The cell with the given number when the board is read row by row.
    pub open spec fn cell(self, index: int) -> Vec2 {
        Vec2 { x: (index % (self.board_size.x as int)) as u16, y: (index / (self.board_size.x as int)) as u16 }
    }

    /// Every cell of the board, row by row.
    pub open spec fn cells(self) -> Seq<Vec2> {
        Seq::new((self.board_size.x * self.board_size.y) as nat, |index: int| self.cell(index))
    }

    /// A cell with neither the fruit nor the snake on it.
    pub open spec fn is_floor(self, cell: Vec2) -> bool {
        cell != self.fruit_position && !self.snake.occupies(cell)
    }

    /// The floor among the first `count` cells of the board: a sprite for
    /// every empty one of them, in the order of the cells.
    pub open spec fn floor_before(self, count: int) -> Seq<Sprite> {
        self.cells().take(count).filter(|cell: Vec2| self.is_floor(cell)).map_values(
            |cell: Vec2| Sprite { position: cell, glyph: Glyph::Floor },
        )
    }

    /// The floor: a sprite for every empty cell of the board, row by row.
    pub open spec fn floor(self) -> Seq<Sprite> {
        self.floor_before(self.cells().len() as int)
    }

    /// The cell in column `x` of row `y` is cell number `y * width + x`.
    pub proof fn lemma_cell_number(self, x: u16, y: u16)
        requires
            (Vec2 { x, y }).inside(self.board_size),
        ensures
            0 <= y * self.board_size.x + x < self.cells().len(),
            (y + 1) * self.board_size.x <= self.cells().len(),
            self.cells()[y * self.board_size.x + x] == (Vec2 { x, y }),
    {
        let w: int = self.board_size.x as int;
        let h: int = self.board_size.y as int;
        assert((y + 1) * w <= h * w) by (nonlinear_arith)
            requires
                0 <= y < h,
                0 < w,
        ;
        assert((y + 1) * w == y * w + w) by (nonlinear_arith);
        assert(h * w == w * h) by (nonlinear_arith);
        assert(0 <= y * w) by (nonlinear_arith)
            requires
                0 <= y,
                0 < w,
        ;
        vstd::arithmetic::div_mod::lemma_fundamental_div_mod_converse(y * w + x, w, y as int, x as int);
    }

    /// Taking one more cell into account adds its sprite to the floor, if the
    /// cell is empty, and nothing otherwise.
    proof fn lemma_floor_grows(self, count: int)
        requires
            0 <= count < self.cells().len(),
        ensures
            self.floor_before(count + 1) == if self.is_floor(self.cells()[count]) {
                self.floor_before(count).push(Sprite { position: self.cells()[count], glyph: Glyph::Floor })
            } else {
                self.floor_before(count)
            },
    {
        let keep = |cell: Vec2| self.is_floor(cell);
        let before = self.cells().take(count);
        let cell = self.cells()[count];
        assert(self.cells().take(count + 1) =~= before.push(cell));
        before.lemma_filter_push(cell, keep);
        if self.is_floor(cell) {
            assert(self.floor_before(count + 1) =~= self.floor_before(count).push(
                Sprite { position: cell, glyph: Glyph::Floor },
            ));
        }
    }

    /// The fruit, on its cell.
    pub open spec fn fruit_sprite(self) -> Sprite {
        Sprite { position: self.fruit_position, glyph: Glyph::Fruit }
    }

    /// The score line stands to the right of the board's top row.
    pub open spec fn score_sprite(self) -> Sprite {
        Sprite {
            position: Vec2 { x: self.board_size.x, y: 0 },
            glyph: Glyph::Score(self.snake.fruits_eaten),
        }
    }

    /// A whole frame, in painting order: what comes later is painted over
    /// what came before.
    pub open spec fn frame(self) -> Seq<Sprite> {
        self.floor() + seq![self.fruit_sprite(), self.score_sprite()] + self.snake.sprites()
    }
}

/// A game in progress: one snake, one board, one fruit.
pub struct Game {
    snake: Snake,
    board_size: Vec2,
    fruit_position: Vec2,
}

impl View for Game {
    type V = GameView;

    closed spec fn view(&self) -> GameView {
        GameView { snake: self.snake@, board_size: self.board_size, fruit_position: self.fruit_position }
    }
}

impl Game {
    /// The invariant every game handed out by this module satisfies.
    pub open spec fn wf(&self) -> bool {
        self@.wf()
    }

    /// A new game on a board of the given extent, which must hold the
    /// initial snake.
    pub fn new(board_size: Vec2) -> (r: Self)
        requires
            board_size.x >= INITIAL_LENGTH,
            board_size.y >= 1,
        ensures
            r.wf(),
            r@ == GameView::initial(board_size),
    {
        Self {
            snake: Snake::new(),
            board_size,
            fruit_position: Vec2::new(board_size.x / 2, board_size.y / 2),
        }
    }

    /// A game put together from its parts, if they make a sound game.
    pub fn from_parts(snake: Snake, board_size: Vec2, fruit_position: Vec2) -> (r: Option<Self>)
        requires
            snake.wf(),
        ensures
            r is Some <==> (GameView { snake: snake@, board_size, fruit_position }).wf(),
            r is Some ==> r->Some_0@ == (GameView { snake: snake@, board_size, fruit_position }),
    {
        let settled = !snake.is_growing() && snake.len() == INITIAL_LENGTH + snake.fruits_eaten() as usize;
        let fruit_on_board = fruit_position.x < board_size.x && fruit_position.y < board_size.y;
        if settled && fruit_on_board && snake.is_within(&board_size) {
            Some(Self { snake, board_size, fruit_position })
        } else {
            None
        }
    }

    pub fn snake(&self) -> (r: &Snake)
        ensures
            r@ == self@.snake,
    {
        &self.snake
    }

    pub fn board_size(&self) -> (r: Vec2)
        ensures
            r == self@.board_size,
    {
        self.board_size
    }

    pub fn fruit_position(&self) -> (r: Vec2)
        ensures
            r == self@.fruit_position,
    {
        self.fruit_position
    }

    /// A sprite for every cell of the board that holds neither the fruit nor
    /// a segment of the snake, row by row.
    pub fn draw_board_floor(&self) -> (r: Vec<Sprite>)
        ensures
            r@ == self@.floor(),
    {
        let mut floor: Vec<Sprite> = Vec::new();
        let width: u16 = self.board_size.x;
        let height: u16 = self.board_size.y;
        let mut y: u16 = 0;
        assert(floor@ =~= self@.floor_before(0));
        while y < height
            invariant
                y <= height,
                width == self@.board_size.x,
                height == self@.board_size.y,
                floor@ == self@.floor_before(y * width),
            decreases height - y,
        {
            let mut x: u16 = 0;
            while x < width
                invariant
                    y < height,
                    x <= width,
                    width == self@.board_size.x,
                    height == self@.board_size.y,
                    floor@ == self@.floor_before(y * width + x),
                decreases width - x,
            {
                let cell = Vec2::new(x, y);
                proof {
                    self@.lemma_cell_number(x, y);
                    self@.lemma_floor_grows(y * width + x);
                }
                if !((x == self.fruit_position.x && y == self.fruit_position.y) || self.snake.has_segment_at(
                    &cell,
                )) {
                    floor.push(Sprite::new(cell, Glyph::Floor));
                }
                x += 1;
            }
            assert((y + 1) * width == y * width + width) by (nonlinear_arith);
            y += 1;
        }
        assert(height * width == self@.cells().len()) by (nonlinear_arith)
            requires
                self@.cells().len() == ((width * height) as nat),
        ;
        floor
    }

    /// The fruit, on its cell.
    pub fn draw_fruit(&self) -> (r: Sprite)
        ensures
            r == self@.fruit_sprite(),
    {
        Sprite::new(self.fruit_position, Glyph::Fruit)
    }

    /// The score, on the cell right of the board's top row.
    pub fn draw_score(&self) -> (r: Sprite)
        ensures
            r == self@.score_sprite(),
    {
        Sprite::new(Vec2::new(self.board_size.x, 0), Glyph::Score(self.snake.fruits_eaten()))
    }

    /// Everything to paint for one frame, in painting order: the floor, the
    /// fruit, the score, then the snake from head to tail.
    pub fn draw(&self) -> (r: Vec<Sprite>)
        ensures
            r@ == self@.frame(),
    {
        let mut frame = self.draw_board_floor();
        frame.push(self.draw_fruit());
        frame.push(self.draw_score());
        let mut snake = self.snake.draw();
        frame.append(&mut snake);
        assert(frame@ =~= self@.frame());
        frame
    }

    /// The first cell of the board, read row by row, that the snake does not
    /// cover, if there is one.
    pub fn first_free_cell(&self) -> (r: Option<Vec2>)
        ensures
            r is Some <==> self@.has_free_cell(),
            r is Some ==> self@.is_first_free_cell(r->Some_0),
    {
        let width: u16 = self.board_size.x;
        let height: u16 = self.board_size.y;
        let mut y: u16 = 0;
        while y < height
            invariant
                y <= height,
                width == self@.board_size.x,
                height == self@.board_size.y,
                forall|other: Vec2| other.inside(self@.board_size) && other.y < y ==> self@.snake.occupies(other),
            decreases height - y,
        {
            let mut x: u16 = 0;
            while x < width
                invariant
                    y < height,
                    x <= width,
                    width == self@.board_size.x,
                    height == self@.board_size.y,
                    forall|other: Vec2|
                        other.inside(self@.board_size) && #[trigger] other.precedes(Vec2 { x, y })
                            ==> self@.snake.occupies(other),
                decreases width - x,
            {
                let cell = Vec2::new(x, y);
                if !self.snake.has_segment_at(&cell) {
                    assert(cell.inside(self@.board_size));
                    return Some(cell);
                }
                assert forall|other: Vec2|
                    other.inside(self@.board_size) && #[trigger] other.precedes(
                        Vec2 { x: (x + 1) as u16, y },
                    ) implies self@.snake.occupies(other) by {
                    if !other.precedes(cell) {
                        assert(other == cell);
                    }
                }
                x += 1;
            }
            assert forall|other: Vec2| other.inside(self@.board_size) && other.y < y + 1 implies self@.snake.occupies(
                other,
            ) by {
                assert(other.precedes(Vec2 { x, y }));
            }
            y += 1;
        }
        None
    }

    /// Puts the fruit on `candidate` if the snake does not cover that cell,
    /// and says whether it did. A covered candidate changes nothing.
    pub fn place_fruit(&mut self, candidate: Vec2) -> (placed: bool)
        requires
            candidate.inside(old(self)@.board_size),
        ensures
            placed == !old(self)@.snake.occupies(candidate),
            placed ==> final(self)@ == (GameView { fruit_position: candidate, ..old(self)@ }),
            !placed ==> final(self)@ == old(self)@,
    {
        if self.snake.has_segment_at(&candidate) {
            false
        } else {
            self.fruit_position = candidate;
            true
        }
    }

    /// Moves a fruit that the snake covers to a cell that it does not cover.
    /// Cells are drawn at random, and the first one drawn that the snake does
    /// not cover is taken; after `RESPAWN_DRAWS` covered ones the first free
    /// cell of the board is taken instead. The snake and the board stay as
    /// they are.
    pub fn respawn_fruit(&mut self)
        requires
            old(self)@.fruit_position.inside(old(self)@.board_size),
        ensures
            final(self)@.fruit_position.inside(final(self)@.board_size),
            final(self)@.snake == old(self)@.snake,
            final(self)@.board_size == old(self)@.board_size,
            old(self)@.respawns_at(final(self)@.fruit_position),
            old(self)@.has_free_cell() ==> !final(self)@.snake.occupies(final(self)@.fruit_position),
    {
        let mut rng = rand::thread_rng();
        let mut placed = !self.snake.has_segment_at(&self.fruit_position);
        let mut draws: u32 = 0;
        while !placed && draws < RESPAWN_DRAWS
            invariant
                draws <= RESPAWN_DRAWS,
                self@.snake == old(self)@.snake,
                self@.board_size == old(self)@.board_size,
                self@.fruit_position.inside(self@.board_size),
                placed == !self@.snake.occupies(self@.fruit_position),
                !placed ==> self@ == old(self)@,
                self@.fruit_position != old(self)@.fruit_position ==> old(self)@.snake.occupies(
                    old(self)@.fruit_position,
                ),
            decreases RESPAWN_DRAWS - draws,
        {
            let x: u16 = gen_range(&mut rng, 0, self.board_size.x);
            let y: u16 = gen_range(&mut rng, 0, self.board_size.y);
            placed = self.place_fruit(Vec2::new(x, y));
            draws += 1;
        }
        if !placed {
            match self.first_free_cell() {
                Some(cell) => {
                    self.fruit_position = cell;
                },
                None => {},
            }
        }
    }

    /// One tick of the game. A snake that has run into itself ends the game,
    /// and nothing moves. Otherwise a snake with its head on the fruit eats
    /// it and the fruit respawns; then the snake advances by one cell.
    pub fn update(&mut self) -> (r: Result<(), String>)
        requires
            old(self).wf(),
            old(self)@.eats() ==> old(self)@.snake.fruits_eaten < u16::MAX,
        ensures
            final(self).wf(),
            old(self)@.ticks_to(final(self)@, r is Err),
            r is Err ==> r->Err_0@ == "Snake ate itself"@,
    {
        if self.snake.ate_itself() {
            return Err("Snake ate itself".to_string());
        } else if self.snake.ate_an_fruit(&self.fruit_position) {
            self.snake.add_segment();
            self.respawn_fruit();
        }
        self.snake.update(&self.board_size)
    }

    /// Acts on a key press. `Esc` asks to leave the game and changes nothing;
    /// an arrow key turns the snake; any other key is ignored.
    pub fn handle_key(&mut self, key: Key) -> (r: Result<(), String>)
        ensures
            old(self).wf() ==> final(self).wf(),
            key == Key::Esc ==> r is Err && r->Err_0@ == "Esc was pressed"@ && final(self)@ == old(self)@,
            key != Key::Esc ==> r is Ok && final(self)@ == old(self)@.after_key(key),
    {
        match key {
            Key::Esc => {
                return Err("Esc was pressed".to_string());
            },
            Key::Up => self.snake.set_direction(Direction::Up),
            Key::Left => self.snake.set_direction(Direction::Left),
            Key::Down => self.snake.set_direction(Direction::Down),
            Key::Right => self.snake.set_direction(Direction::Right),
            Key::Other => {},
        }
        Ok(())
    }

    /// One pass of the game loop, between reading the input and painting the
    /// frame. The input is acted on first, and `Esc` ends the pass at once.
    /// Then, if the timer shows that a tick is due, the timer is reset and the
    /// game ticks, which may end it. A pass that ends the game returns the
    /// reason; any other returns the frame to paint.
    pub fn step(&mut self, timer: &mut Timer, input: Option<Key>) -> (r: Result<Vec<Sprite>, String>)
        requires
            old(self).wf(),
            old(self)@.eats() ==> old(self)@.snake.fruits_eaten < u16::MAX,
        ensures
            final(self).wf(),
            input == Some(Key::Esc) ==> {
                &&& r is Err
                &&& r->Err_0@ == "Esc was pressed"@
                &&& final(self)@ == old(self)@
                &&& *final(timer) == *old(timer)
            },
            input != Some(Key::Esc) && tick_is_due(old(timer).measured()) ==> {
                &&& final(timer).measured() is None
                &&& old(self)@.after_input(input).ticks_to(final(self)@, r is Err)
                &&& r is Err ==> r->Err_0@ == "Snake ate itself"@
                &&& r is Ok ==> r->Ok_0@ == final(self)@.frame()
            },
            input != Some(Key::Esc) && !tick_is_due(old(timer).measured()) ==> {
                &&& *final(timer) == *old(timer)
                &&& final(self)@ == old(self)@.after_input(input)
                &&& r is Ok
                &&& r->Ok_0@ == final(self)@.frame()
            },
    {
        match input {
            Some(key) => {
                match self.handle_key(key) {
                    Err(reason) => {
                        return Err(reason);
                    },
                    Ok(()) => {},
                }
            },
            None => {},
        }
        if tick_due(timer.delta()) {
            timer.reset();
            match self.update() {
                Err(reason) => {
                    return Err(reason);
                },
                Ok(()) => {},
            }
        }
        Ok(self.draw())
    }
}

} // verus!
