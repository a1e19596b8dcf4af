use std::collections::VecDeque;
use rand::seq::SliceRandom;
use vstd::prelude::*;

verus! {

/// Columns taken by one rendered cell: a horizontal step moves the snake by this much.
pub const BLOCK_WIDTH: isize = 2;

/// Width, in columns, of the board that `CanvasState::new` builds.
pub const DEFAULT_WIDTH: isize = 30;

/// Height, in rows, of the board that `CanvasState::new` builds.
pub const DEFAULT_HEIGHT: isize = 15;

/// Largest width or height a board may have.
pub const MAX_SIDE: isize = 32768;

/// A cell of the board: `x` counts columns, `y` rows, both from the top left.
#[derive(Clone, Copy, Debug, PartialEq, Eq, Structural)]
pub struct Coord {
    pub x: isize,
    pub y: isize,
}

/// A heading. `Idle` is the heading before the first turn.
#[derive(Clone, Copy, Debug, PartialEq, Eq, Structural)]
pub enum Direction {
    Up,
    Down,
    Left,
    Right,
    Idle,
}

/// What one step of the game came to.
#[derive(Clone, Copy, Debug, PartialEq, Eq, Structural)]
pub enum TickResult {
    /// The snake moved (or idled) and the game goes on.
    Continuing,
    /// The snake ate the pellet, grew by one, and the pellet moved to a free cell.
    AteFood,
    /// The snake reached the pellet but no free cell is left for a new one.
    BoardFull,
    /// The head is off the board or on the body.
    GameOver,
}

/// The mathematical content of a game state.
pub struct GameView {
    pub width: int,
    pub height: int,
    pub snake: Seq<Coord>,
    pub pellet: Coord,
    pub direction: Direction,
}

pub open spec fn in_grid(c: Coord, width: int, height: int) -> bool {
    0 <= c.x < width && 0 <= c.y < height
}

/// A cell that a pellet may occupy: on the board, in a column where a block starts.
pub open spec fn on_lattice(c: Coord, width: int, height: int) -> bool {
    in_grid(c, width, height) && c.x % BLOCK_WIDTH == 0
}

/// Far enough from the limits of `isize` that one step from `c` can be computed.
pub open spec fn steppable(c: Coord) -> bool {
    isize::MIN + BLOCK_WIDTH <= c.x <= isize::MAX - BLOCK_WIDTH && isize::MIN + BLOCK_WIDTH
        <= c.y <= isize::MAX - BLOCK_WIDTH
}

pub open spec fn reverse(d: Direction) -> Direction {
    match d {
        Direction::Up => Direction::Down,
        Direction::Down => Direction::Up,
        Direction::Left => Direction::Right,
        Direction::Right => Direction::Left,
        Direction::Idle => Direction::Idle,
    }
}

/// `a` is a real heading and points back along `b`.
pub open spec fn opposite(a: Direction, b: Direction) -> bool {
    a != Direction::Idle && a == reverse(b)
}

/// The cell one step from `c` in direction `d`; horizontal steps are a block wide.
pub open spec fn step(c: Coord, d: Direction) -> Coord {
    match d {
        Direction::Up => Coord { x: c.x, y: (c.y - 1) as isize },
        Direction::Down => Coord { x: c.x, y: (c.y + 1) as isize },
        Direction::Left => Coord { x: (c.x - BLOCK_WIDTH) as isize, y: c.y },
        Direction::Right => Coord { x: (c.x + BLOCK_WIDTH) as isize, y: c.y },
        Direction::Idle => c,
    }
}

impl GameView {
    pub open spec fn head(self) -> Coord {
        self.snake[0]
    }

    pub open spec fn wf(self) -> bool {
        &&& 0 < self.width <= MAX_SIDE
        &&& 0 < self.height <= MAX_SIDE
        &&& self.snake.len() >= 1
        &&& on_lattice(self.pellet, self.width, self.height)
        &&& !self.snake.contains(self.pellet)
    }

    pub open spec fn out_of_bounds(self) -> bool {
        !in_grid(self.head(), self.width, self.height)
    }

    pub open spec fn overlapping(self) -> bool {
        exists|i: int| 1 <= i < self.snake.len() && #[trigger] self.snake[i] == self.head()
    }

    pub open spec fn terminal(self) -> bool {
        self.out_of_bounds() || self.overlapping()
    }

    /// A cell where the pellet may go next: on the lattice, off the snake, not the pellet.
    pub open spec fn is_open(self, c: Coord) -> bool {
        on_lattice(c, self.width, self.height) && !self.snake.contains(c) && c != self.pellet
    }

    pub open spec fn board_full(self) -> bool {
        forall|c: Coord| !#[trigger] self.is_open(c)
    }

    pub open spec fn with_direction(self, d: Direction) -> GameView {
        GameView {
            width: self.width,
            height: self.height,
            snake: self.snake,
            pellet: self.pellet,
            direction: d,
        }
    }

    /// The turn to `d` is refused: it would send a snake with a body back into it.
    pub open spec fn turn_locked(self, d: Direction) -> bool {
        self.snake.len() > 1 && opposite(d, self.direction)
    }

    pub open spec fn steered(self, d: Direction) -> GameView {
        if self.turn_locked(d) {
            self
        } else {
            self.with_direction(d)
        }
    }

    pub open spec fn next_head(self) -> Coord {
        step(self.head(), self.direction)
    }

    /// The snake after a step without food: new head in front, tail dropped.
    pub open spec fn advanced(self) -> GameView {
        GameView {
            width: self.width,
            height: self.height,
            snake: seq![self.next_head()] + self.snake.drop_last(),
            pellet: self.pellet,
            direction: self.direction,
        }
    }

    /// `after` is `self` after eating the pellet: the tail stays and the pellet
    /// moved to a cell that was open.
    pub open spec fn ate_into(self, after: GameView) -> bool {
        &&& after.snake == seq![self.next_head()] + self.snake
        &&& self.is_open(after.pellet)
        &&& after.width == self.width
        &&& after.height == self.height
        &&& after.direction == self.direction
    }

    /// One step of the game from `self` gives `after` and reports `r`.
    pub open spec fn ticks_to(self, after: GameView, r: TickResult) -> bool {
        if self.direction == Direction::Idle {
            after == self && r == TickResult::Continuing
        } else if self.next_head() == self.pellet {
            if self.board_full() {
                after == self && r == TickResult::BoardFull
            } else {
                r == TickResult::AteFood && self.ate_into(after)
            }
        } else {
            &&& after == self.advanced()
            &&& r == if after.terminal() {
                TickResult::GameOver
            } else {
                TickResult::Continuing
            }
        }
    }
}

/// Where a fresh game puts the head: (0, 1), or (0, 0) on a board of one row.
pub open spec fn start_head(height: int) -> Coord {
    if height > 1 {
        Coord { x: 0, y: 1 }
    } else {
        Coord { x: 0, y: 0 }
    }
}

/// Where a fresh game puts the pellet: (10, 4) where the board holds it, else
/// (0, 0) beside the head, else (2, 0) on a board of one row.
pub open spec fn start_pellet(width: int, height: int) -> Coord {
    if width > 10 && height > 4 {
        Coord { x: 10, y: 4 }
    } else if height > 1 {
        Coord { x: 0, y: 0 }
    } else {
        Coord { x: 2, y: 0 }
    }
}

/// The game made of the given parts.
pub open spec fn layout(
    width: int,
    height: int,
    snake: Seq<Coord>,
    pellet: Coord,
    direction: Direction,
) -> GameView {
    GameView { width, height, snake, pellet, direction }
}

/// A fresh game on a board of the given size: the head alone at the start, idle.
pub open spec fn fresh(width: int, height: int) -> GameView {
    layout(width, height, seq![start_head(height)], start_pellet(width, height), Direction::Idle)
}

/// `a` points straight back along `b` (`Idle` is the reverse of nothing).
pub fn opposite_direction(a: Direction, b: Direction) -> (r: bool)
    ensures
        r == opposite(a, b),
{
    match (a, b) {
        (Direction::Up, Direction::Down) => true,
        (Direction::Down, Direction::Up) => true,
        (Direction::Right, Direction::Left) => true,
        (Direction::Left, Direction::Right) => true,
        _ => false,
    }
}

/// Relies on rand's `SliceRandom::choose` (with `thread_rng`): `None` on an empty
/// slice, else one of its elements.
#[verifier::external_body]
fn choose_cell(cells: &Vec<Coord>) -> (r: Option<Coord>)
    ensures
        r is None <==> cells@.len() == 0,
        r is Some ==> cells@.contains(r->0),
{
    cells.choose(&mut rand::thread_rng()).copied()
}

/// A game in progress: the snake (head first), the pellet, the heading, and the
/// board's size in columns and rows.
#[derive(Clone, Debug)]
pub struct CanvasState {
    width: isize,
    height: isize,
    pellet_coord: Coord,
    snake_coords: VecDeque<Coord>,
    last_direction: Direction,
}

impl View for CanvasState {
    type V = GameView;

    closed spec fn view(&self) -> GameView {
        GameView {
            width: self.width as int,
            height: self.height as int,
            snake: self.snake_coords@,
            pellet: self.pellet_coord,
            direction: self.last_direction,
        }
    }
}

impl CanvasState {
    fn snake_head(&self) -> (r: Coord)
        requires
            self@.wf(),
        ensures
            r == self@.head(),
    {
        self.snake_coords[0]
    }

    fn occupies(&self, c: Coord) -> (r: bool)
        ensures
            r == self@.snake.contains(c),
    {
        let n = self.snake_coords.len();
        let mut i: usize = 0;
        while i < n
            invariant
                n == self@.snake.len(),
                0 <= i <= n,
                forall|j: int| 0 <= j < i ==> self@.snake[j] != c,
            decreases n - i,
        {
            if self.snake_coords[i] == c {
                return true;
            }
            i += 1;
        }
        false
    }

    /// The head is off the board.
    pub fn is_out_of_bounds(&self) -> (r: bool)
        requires
            self@.wf(),
        ensures
            r == self@.out_of_bounds(),
    {
        let head = self.snake_head();
        head.x < 0 || head.x >= self.width || head.y < 0 || head.y >= self.height
    }

    /// The head lies on another segment of the body.
    pub fn is_overlapping(&self) -> (r: bool)
        requires
            self@.wf(),
        ensures
            r == self@.overlapping(),
    {
        let head = self.snake_head();
        let n = self.snake_coords.len();
        let mut idx: usize = 1;
        while idx < n
            invariant
                n == self@.snake.len(),
                1 <= idx <= n,
                head == self@.head(),
                forall|j: int| 1 <= j < idx ==> self@.snake[j] != head,
            decreases n - idx,
        {
            if self.snake_coords[idx] == head {
                return true;
            }
            idx += 1;
        }
        false
    }

    /// The head is far enough from the limits of `isize` for `tick` to step it.
    pub fn can_step(&self) -> (r: bool)
        requires
            self@.wf(),
        ensures
            r == steppable(self@.head()),
    {
        let head = self.snake_head();
        isize::MIN + BLOCK_WIDTH <= head.x && head.x <= isize::MAX - BLOCK_WIDTH && isize::MIN
            + BLOCK_WIDTH <= head.y && head.y <= isize::MAX - BLOCK_WIDTH
    }

    /// The game is lost: the head is off the board or on the body.
    pub fn is_terminal(&self) -> (r: bool)
        requires
            self@.wf(),
        ensures
            r == self@.terminal(),
    {
        self.is_out_of_bounds() || self.is_overlapping()
    }

    /// Every cell where the pellet may go next: the lattice cells of the board
    /// that neither the snake nor the pellet occupies, each once.
    pub fn open_cells(&self) -> (r: Vec<Coord>)
        requires
            self@.wf(),
        ensures
            forall|c: Coord| #[trigger] r@.contains(c) <==> self@.is_open(c),
            r@.no_duplicates(),
    {
        let mut cells: Vec<Coord> = Vec::new();
        let mut x: isize = 0;
        while x < self.width
            invariant
                self@.wf(),
                0 <= x < self.width + BLOCK_WIDTH,
                x % BLOCK_WIDTH == 0,
                cells@.no_duplicates(),
                forall|c: Coord| #[trigger] cells@.contains(c) <==> (self@.is_open(c) && c.x < x),
            decreases self.width + BLOCK_WIDTH - x,
        {
            let mut y: isize = 0;
            while y < self.height
                invariant
                    self@.wf(),
                    0 <= x < self.width,
                    x % BLOCK_WIDTH == 0,
                    0 <= y <= self.height,
                    cells@.no_duplicates(),
                    forall|c: Coord| #[trigger]
                        cells@.contains(c) <==> (self@.is_open(c) && (c.x < x || (c.x == x
                            && c.y < y))),
                decreases self.height - y,
            {
                let c = Coord { x, y };
                if !self.occupies(c) && c != self.pellet_coord {
                    proof {
                        assert(!cells@.contains(c));
                        assert forall|d: Coord| #[trigger]
                            cells@.push(c).contains(d) <==> (cells@.contains(d) || d == c) by {
                            if d == c {
                                assert(cells@.push(c)[cells@.len() as int] == c);
                            }
                            if cells@.push(c).contains(d) && d != c {
                                let k = choose|k: int|
                                    0 <= k < cells@.push(c).len() && cells@.push(c)[k] == d;
                                assert(cells@[k] == d);
                            }
                            if cells@.contains(d) {
                                let k = choose|k: int| 0 <= k < cells@.len() && cells@[k] == d;
                                assert(cells@.push(c)[k] == d);
                            }
                        }
                    }
                    cells.push(c);
                }
                y += 1;
            }
            x += BLOCK_WIDTH;
        }
        cells
    }
}


impl CanvasState {
    /// A fresh game on the default board: the head at (0, 1), the pellet at (10, 4), idle.
    pub fn new() -> (r: CanvasState)
        ensures
            r@ == fresh(DEFAULT_WIDTH as int, DEFAULT_HEIGHT as int),
            r@.snake == seq![Coord { x: 0, y: 1 }],
            r@.pellet == (Coord { x: 10, y: 4 }),
            r@.wf(),
    {
        CanvasState::with_size(DEFAULT_WIDTH, DEFAULT_HEIGHT).unwrap()
    }

    /// A fresh game on a board of `width` columns and `height` rows, see `fresh`;
    /// `None` where a side is not positive or exceeds `MAX_SIDE`, or where the
    /// board has a single lattice cell and so no room for a pellet beside the head.
    pub fn with_size(width: isize, height: isize) -> (r: Option<CanvasState>)
        ensures
            r is Some <==> (0 < width <= MAX_SIDE && 0 < height <= MAX_SIDE && (height > 1 || width
                > BLOCK_WIDTH)),
            r is Some <==> fresh(width as int, height as int).wf(),
            r is Some ==> r->0@ == fresh(width as int, height as int),
    {
        let head = if height > 1 {
            Coord { x: 0, y: 1 }
        } else {
            Coord { x: 0, y: 0 }
        };
        let pellet = if width > 10 && height > 4 {
            Coord { x: 10, y: 4 }
        } else if height > 1 {
            Coord { x: 0, y: 0 }
        } else {
            Coord { x: 2, y: 0 }
        };
        let snake: Vec<Coord> = vec![head];
        proof {
            assert(snake@ =~= seq![start_head(height as int)]);
            assert(seq![head][0] == head);
            if seq![head].contains(pellet) {
                let k = choose|k: int| 0 <= k < 1 && seq![head][k] == pellet;
                assert(k == 0);
            }
        }
        CanvasState::from_parts(width, height, snake, pellet, Direction::Idle)
    }

    /// The game made of the given parts, where they form a valid state: a board
    /// of positive size up to `MAX_SIDE`, a snake of at least one segment, and a
    /// pellet on a lattice cell that no segment covers.
    pub fn from_parts(
        width: isize,
        height: isize,
        snake: Vec<Coord>,
        pellet: Coord,
        direction: Direction,
    ) -> (r: Option<CanvasState>)
        ensures
            r is Some <==> layout(width as int, height as int, snake@, pellet, direction).wf(),
            r is Some ==> r->0@ == layout(width as int, height as int, snake@, pellet, direction),
    {
        let ghost target = layout(width as int, height as int, snake@, pellet, direction);
        if width <= 0 || width > MAX_SIDE || height <= 0 || height > MAX_SIDE || snake.len() == 0 {
            return None;
        }
        if pellet.x < 0 || pellet.x >= width || pellet.y < 0 || pellet.y >= height || pellet.x
            % BLOCK_WIDTH != 0 {
            return None;
        }
        let mut body: VecDeque<Coord> = VecDeque::new();
        let n = snake.len();
        let mut i: usize = 0;
        while i < n
            invariant
                n == snake@.len(),
                0 <= i <= n,
                0 < width <= MAX_SIDE,
                0 < height <= MAX_SIDE,
                body@ == snake@.subrange(0, i as int),
                forall|j: int| 0 <= j < i ==> #[trigger] snake@[j] != pellet,
            decreases n - i,
        {
            let c = snake[i];
            if c == pellet {
                proof {
                    assert(snake@[i as int] == c);
                    assert(snake@.contains(pellet));
                }
                return None;
            }
            body.push_back(c);
            proof {
                assert(body@ =~= snake@.subrange(0, i + 1));
            }
            i += 1;
        }
        proof {
            assert(body@ =~= snake@);
        }
        Some(
            CanvasState {
                width,
                height,
                pellet_coord: pellet,
                snake_coords: body,
                last_direction: direction,
            },
        )
    }

    /// Turns to `d`, unless the snake has a body and `d` points straight back.
    pub fn set_direction(&mut self, d: Direction)
        requires
            old(self)@.wf(),
        ensures
            final(self)@ == old(self)@.steered(d),
            final(self)@.wf(),
    {
        if self.snake_coords.len() > 1 && opposite_direction(d, self.last_direction) {
            return ;
        }
        self.last_direction = d;
    }

    fn next_head(&self) -> (r: Coord)
        requires
            self@.wf(),
            steppable(self@.head()),
        ensures
            r == self@.next_head(),
    {
        let head = self.snake_head();
        match self.last_direction {
            Direction::Up => Coord { x: head.x, y: head.y - 1 },
            Direction::Down => Coord { x: head.x, y: head.y + 1 },
            Direction::Left => Coord { x: head.x - BLOCK_WIDTH, y: head.y },
            Direction::Right => Coord { x: head.x + BLOCK_WIDTH, y: head.y },
            Direction::Idle => head,
        }
    }

    /// Moves the head onto the pellet, keeping the tail, and puts the pellet on
    /// `pick`; with no cell to pick, the board is full and nothing changes.
    pub fn eat_pellet(&mut self, pick: Option<Coord>) -> (r: TickResult)
        requires
            old(self)@.wf(),
            old(self)@.direction != Direction::Idle,
            steppable(old(self)@.head()),
            old(self)@.next_head() == old(self)@.pellet,
            pick is Some ==> old(self)@.is_open(pick->0),
        ensures
            final(self)@.wf(),
            pick is None ==> final(self)@ == old(self)@ && r == TickResult::BoardFull,
            pick is Some ==> r == TickResult::AteFood && old(self)@.ate_into(final(self)@)
                && final(self)@.pellet == pick->0,
    {
        match pick {
            None => TickResult::BoardFull,
            Some(cell) => {
                let new_head = self.next_head();
                let ghost before = self@;
                self.snake_coords.push_front(new_head);
                self.pellet_coord = cell;
                proof {
                    let s = self@.snake;
                    assert(s =~= seq![new_head] + before.snake);
                    if s.contains(cell) {
                        let k = choose|k: int| 0 <= k < s.len() && s[k] == cell;
                        if k > 0 {
                            assert(before.snake[k - 1] == cell);
                        }
                    }
                }
                TickResult::AteFood
            },
        }
    }

    /// Advances the game by one step in the current heading: see
    /// `GameView::ticks_to`. An idle snake stays put; otherwise the head moves,
    /// and the result tells whether the snake ate, filled the board, or lost.
    pub fn tick(&mut self) -> (r: TickResult)
        requires
            old(self)@.wf(),
            steppable(old(self)@.head()),
        ensures
            final(self)@.wf(),
            old(self)@.ticks_to(final(self)@, r),
    {
        if self.last_direction == Direction::Idle {
            return TickResult::Continuing;
        }
        let new_head = self.next_head();
        if new_head == self.pellet_coord {
            let cells = self.open_cells();
            let pick = choose_cell(&cells);
            proof {
                if pick is None {
                    assert forall|c: Coord| !#[trigger] self@.is_open(c) by {
                        if self@.is_open(c) {
                            assert(cells@.contains(c));
                        }
                    }
                } else {
                    assert(self@.is_open(pick->0));
                }
            }
            self.eat_pellet(pick)
        } else {
            let ghost before = self@;
            self.snake_coords.push_front(new_head);
            self.snake_coords.pop_back();
            proof {
                let s = self@.snake;
                assert(s =~= seq![new_head] + before.snake.drop_last());
                assert(self@ == before.advanced());
                if s.contains(self.pellet_coord) {
                    let k = choose|k: int| 0 <= k < s.len() && s[k] == self.pellet_coord;
                    if k > 0 {
                        assert(before.snake[k - 1] == self.pellet_coord);
                    }
                }
            }
            if self.is_terminal() {
                TickResult::GameOver
            } else {
                TickResult::Continuing
            }
        }
    }
}


impl CanvasState {
    /// Turns to `direction` without the reversal check, then advances one step.
    pub fn update(&mut self, direction: Direction) -> (r: TickResult)
        requires
            old(self)@.wf(),
            steppable(old(self)@.head()),
        ensures
            final(self)@.wf(),
            old(self)@.with_direction(direction).ticks_to(final(self)@, r),
    {
        self.last_direction = direction;
        self.tick()
    }

    /// A key press: turns to `direction` and advances one step, or, where the turn
    /// is refused because it points straight back along a snake with a body, does
    /// nothing and returns `None`.
    pub fn move_snake(&mut self, direction: Direction) -> (r: Option<TickResult>)
        requires
            old(self)@.wf(),
            steppable(old(self)@.head()),
        ensures
            final(self)@.wf(),
            old(self)@.turn_locked(direction) ==> r is None && final(self)@ == old(self)@,
            !old(self)@.turn_locked(direction) ==> r is Some && old(self)@.with_direction(
                direction,
            ).ticks_to(final(self)@, r->0),
    {
        if opposite_direction(direction, self.last_direction) && self.snake_coords.len() > 1 {
            return None;
        }
        Some(self.update(direction))
    }

    /// The snake's segments, head first.
    pub fn snake_coords(&self) -> (r: Vec<Coord>)
        ensures
            r@ == self@.snake,
    {
        let mut cells: Vec<Coord> = Vec::new();
        let n = self.snake_coords.len();
        let mut i: usize = 0;
        while i < n
            invariant
                n == self@.snake.len(),
                0 <= i <= n,
                cells@ == self@.snake.subrange(0, i as int),
            decreases n - i,
        {
            cells.push(self.snake_coords[i]);
            proof {
                assert(cells@ =~= self@.snake.subrange(0, i + 1));
            }
            i += 1;
        }
        proof {
            assert(cells@ =~= self@.snake);
        }
        cells
    }

    /// The cells the snake covers, head first, as a renderer draws them.
    pub fn occupied_cells(&self) -> (r: Vec<Coord>)
        ensures
            r@ == self@.snake,
    {
        self.snake_coords()
    }

    pub fn pellet(&self) -> (r: Coord)
        ensures
            r == self@.pellet,
    {
        self.pellet_coord
    }

    pub fn direction(&self) -> (r: Direction)
        ensures
            r == self@.direction,
    {
        self.last_direction
    }

    pub fn width(&self) -> (r: isize)
        ensures
            r == self@.width,
    {
        self.width
    }

    pub fn height(&self) -> (r: isize)
        ensures
            r == self@.height,
    {
        self.height
    }
}

/// A snake of one segment turns to any direction, whatever it was heading.
pub proof fn lemma_single_segment_turns_freely(v: GameView, d: Direction)
    requires
        v.snake.len() == 1,
    ensures
        v.steered(d).direction == d,
        v.steered(d) == v.with_direction(d),
{
}

/// For a snake with a body, a turn straight back leaves the state as it was.
pub proof fn lemma_reverse_turn_ignored(v: GameView)
    requires
        v.snake.len() > 1,
    ensures
        v.steered(reverse(v.direction)) == v,
{
}

/// A step while idle changes neither the snake nor the pellet, and reports
/// that the game goes on; stepping again changes nothing either.
pub proof fn lemma_idle_tick_is_noop(v: GameView, after: GameView, r: TickResult)
    requires
        v.direction == Direction::Idle,
        v.ticks_to(after, r),
    ensures
        after == v,
        after.snake == v.snake,
        after.pellet == v.pellet,
        r == TickResult::Continuing,
        after.ticks_to(v, TickResult::Continuing),
{
}

/// A step whose new head lands on the pellet, where a free cell remains, grows the snake by exactly one and moves the pellet to a cell
/// that no segment covers.
pub proof fn lemma_growth(v: GameView, after: GameView, r: TickResult)
    requires
        v.wf(),
        v.direction != Direction::Idle,
        v.next_head() == v.pellet,
        !v.board_full(),
        v.ticks_to(after, r),
    ensures
        r == TickResult::AteFood,
        after.snake.len() == v.snake.len() + 1,
        after.pellet != v.pellet,
        on_lattice(after.pellet, after.width, after.height),
        !after.snake.contains(after.pellet),
{
    let s = after.snake;
    if s.contains(after.pellet) {
        let k = choose|k: int| 0 <= k < s.len() && s[k] == after.pellet;
        if k > 0 {
            assert(v.snake[k - 1] == after.pellet);
        } else {
            assert(s[0] == v.pellet);
        }
    }
}

/// A step whose new head misses the pellet pushes the head and drops the tail:
/// the length stays.
pub proof fn lemma_no_growth(v: GameView, after: GameView, r: TickResult)
    requires
        v.wf(),
        v.direction != Direction::Idle,
        v.next_head() != v.pellet,
        v.ticks_to(after, r),
    ensures
        after.snake.len() == v.snake.len(),
        after.snake[0] == v.next_head(),
        after.pellet == v.pellet,
{
}

/// A step with a real heading puts the new head one step along it, keeps the
/// heading, and lets the rest of the snake follow; only a full board, where
/// the head would land on the last free cell, stops it.
pub proof fn lemma_step_moves_head(v: GameView, after: GameView, r: TickResult)
    requires
        v.wf(),
        v.direction != Direction::Idle,
        !(v.next_head() == v.pellet && v.board_full()),
        v.ticks_to(after, r),
    ensures
        after.snake[0] == v.next_head(),
        after.snake.subrange(1, after.snake.len() as int) == if v.next_head() == v.pellet {
            v.snake
        } else {
            v.snake.drop_last()
        },
        after.direction == v.direction,
        r == TickResult::GameOver <==> after.terminal(),
{
    assert(after.snake.subrange(1, after.snake.len() as int) =~= if v.next_head() == v.pellet {
        v.snake
    } else {
        v.snake.drop_last()
    });
    if v.next_head() == v.pellet {
        assert(r == TickResult::AteFood);
        assert(!after.out_of_bounds());
        if after.overlapping() {
            let i = choose|i: int| 1 <= i < after.snake.len() && #[trigger] after.snake[i]
                == after.head();
            assert(v.snake[i - 1] == v.pellet);
            assert(v.snake.contains(v.pellet));
        }
    }
}

/// A fresh game covers exactly one cell, the start cell.
pub proof fn lemma_fresh_occupies_start(width: int, height: int)
    ensures
        fresh(width, height).snake.len() == 1,
        fresh(width, height).snake[0] == start_head(height),
        fresh(width, height).snake =~= seq![start_head(height)],
{
}

} // verus!
