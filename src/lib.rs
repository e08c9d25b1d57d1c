//! Rules and progression engine of a sliding-block puzzle.
//!
//! Pieces stand on a grid and, on a directional command, slide until a wall or
//! another piece stops them. A level is solved when every piece rests on its
//! own goal cell. `level_run` plays one attempt of one level; `level_select`
//! browses the catalogue and keeps the best result reached on each level.
use vstd::prelude::*;
use vstd::string::StringSliceAdditionalSpecFns;

pub mod level_run;
pub mod level_select;

verus! {

/// The longest par of a level: an optimal solution is recorded in full, so
/// it must stay this short.
pub const MAX_OPTIMAL_MOVES: usize = 54;

/// How many distinct pieces exist.
pub const NUM_PIECES: usize = 3;

/// A grid coordinate (`Vector<u8>`) or a unit offset (`Vector<i8>`).
#[derive(Debug, Clone, Copy, PartialEq, Eq, Structural)]
pub struct Vector<T> {
    pub x: T,
    pub y: T,
}

impl<T> Vector<T> {
    pub fn new(x: T, y: T) -> (r: Self)
        ensures
            r.x == x,
            r.y == y,
    {
        Self { x, y }
    }
}

/// A piece; the order of the variants is the fixed order of the pieces.
#[derive(Debug, Clone, Copy, PartialEq, Eq, Structural)]
pub enum Piece {
    Green,
    Orange,
    Blue,
}

/// The piece with the given ordinal.
pub open spec fn piece_at(i: int) -> Piece {
    if i == 0 {
        Piece::Green
    } else if i == 1 {
        Piece::Orange
    } else {
        Piece::Blue
    }
}

/// The piece written as the given character in a level's rows.
pub open spec fn piece_of_char(c: char) -> Option<Piece> {
    if c == 'G' {
        Some(Piece::Green)
    } else if c == 'O' {
        Some(Piece::Orange)
    } else if c == 'B' {
        Some(Piece::Blue)
    } else {
        None
    }
}

impl Piece {
    /// The ordinal of the piece: its index in every per-piece collection.
    pub open spec fn ord(self) -> int {
        match self {
            Piece::Green => 0,
            Piece::Orange => 1,
            Piece::Blue => 2,
        }
    }

    pub fn index(&self) -> (r: usize)
        ensures
            r as int == self.ord(),
            r < NUM_PIECES,
    {
        match self {
            Piece::Green => 0,
            Piece::Orange => 1,
            Piece::Blue => 2,
        }
    }

    pub fn from_index(i: usize) -> (r: Option<Piece>)
        ensures
            i < NUM_PIECES ==> r == Some(piece_at(i as int)),
            i >= NUM_PIECES ==> r.is_none(),
    {
        if i == 0 {
            Some(Piece::Green)
        } else if i == 1 {
            Some(Piece::Orange)
        } else if i == 2 {
            Some(Piece::Blue)
        } else {
            None
        }
    }

    pub fn from_char(c: char) -> (r: Option<Self>)
        ensures
            r == piece_of_char(c),
    {
        match c {
            'G' => Some(Self::Green),
            'O' => Some(Self::Orange),
            'B' => Some(Self::Blue),
            _ => None,
        }
    }

    pub fn as_char(&self) -> (r: char)
        ensures
            piece_of_char(r) == Some(*self),
    {
        match self {
            Piece::Green => 'G',
            Piece::Orange => 'O',
            Piece::Blue => 'B',
        }
    }
}

/// The terrain of one cell.
#[derive(Debug, Clone, Copy, PartialEq, Eq, Structural)]
pub enum Space {
    /// Outside the playable region.
    Void,
    Wall,
    Free,
    /// The winning cell of one piece; otherwise free.
    Goal(Piece),
}

/// The terrain written as the given character in a level's rows.
pub open spec fn space_of_char(c: char) -> Option<Space> {
    if c == '_' {
        Some(Space::Void)
    } else if c == '#' {
        Some(Space::Wall)
    } else if c == ' ' {
        Some(Space::Free)
    } else {
        match piece_of_char(c) {
            Some(p) => Some(Space::Goal(p)),
            None => None,
        }
    }
}

impl Space {
    /// A piece may slide into this terrain.
    pub open spec fn is_passable(self) -> bool {
        self is Free || self is Goal
    }

    pub fn from_char(c: char) -> (r: Option<Self>)
        ensures
            r == space_of_char(c),
    {
        match c {
            '_' => Some(Self::Void),
            '#' => Some(Self::Wall),
            ' ' => Some(Self::Free),
            _ => match Piece::from_char(c) {
                Some(p) => Some(Self::Goal(p)),
                None => None,
            },
        }
    }

    pub fn as_char(&self) -> (r: char)
        ensures
            space_of_char(r) == Some(*self),
    {
        match self {
            Space::Void => '_',
            Space::Wall => '#',
            Space::Free => ' ',
            Space::Goal(piece) => piece.as_char(),
        }
    }
}


/// One value per piece in play, indexed by the piece's ordinal.
#[derive(Debug, Clone)]
pub struct PieceMap<T> {
    items: Vec<T>,
}

impl<T: Copy> PieceMap<T> {
    pub closed spec fn view(&self) -> Seq<T> {
        self.items@
    }

    /// A map of the pieces in order, one per value.
    pub fn from_slice(values: &[T]) -> (r: Self)
        requires
            values@.len() <= NUM_PIECES,
        ensures
            r@ == values@,
    {
        Self { items: copied(values) }
    }

    pub fn duplicate(&self) -> (r: Self)
        ensures
            r@ == self@,
    {
        Self { items: copied(self.items.as_slice()) }
    }

    pub fn num_pieces(&self) -> (r: usize)
        ensures
            r == self@.len(),
    {
        self.items.len()
    }

    /// The pieces that have a value, in order.
    pub fn pieces(&self) -> (r: Vec<Piece>)
        requires
            self@.len() <= NUM_PIECES,
        ensures
            r@.len() == self@.len(),
            forall|i: int| 0 <= i < r@.len() ==> r@[i] == piece_at(i),
    {
        first_pieces(self.items.len())
    }

    pub fn get(&self, piece: Piece) -> (r: T)
        requires
            piece.ord() < self@.len(),
        ensures
            r == self@[piece.ord()],
    {
        self.items[piece.index()]
    }

    pub fn set(&mut self, piece: Piece, value: T)
        requires
            piece.ord() < old(self)@.len(),
        ensures
            final(self)@ == old(self)@.update(piece.ord(), value),
    {
        let i = piece.index();
        self.items.set(i, value);
    }
}

/// A vector holding the values of a slice.
pub fn copied<T: Copy>(values: &[T]) -> (r: Vec<T>)
    ensures
        r@ == values@,
{
    let mut items: Vec<T> = Vec::new();
    let mut i: usize = 0;
    while i < values.len()
        invariant
            i <= values@.len(),
            items@ == values@.subrange(0, i as int),
        decreases values@.len() - i,
    {
        items.push(values[i]);
        i += 1;
        assert(items@ =~= values@.subrange(0, i as int));
    }
    items
}

/// The first `n` pieces, in order.
pub fn first_pieces(n: usize) -> (r: Vec<Piece>)
    requires
        n <= NUM_PIECES,
    ensures
        r@.len() == n,
        forall|i: int| 0 <= i < n ==> r@[i] == piece_at(i),
{
    let mut r: Vec<Piece> = Vec::new();
    let mut i: usize = 0;
    while i < n
        invariant
            i <= n <= NUM_PIECES,
            r@.len() == i,
            forall|j: int| 0 <= j < i ==> r@[j] == piece_at(j),
        decreases n - i,
    {
        let p = Piece::from_index(i);
        match p {
            Some(p) => r.push(p),
            None => {},
        }
        i += 1;
    }
    r
}


/// The terrain written in row `y`, column `x` of a level's rows.
pub open spec fn row_space(rows: Seq<&str>, x: int, y: int) -> Option<Space> {
    space_of_char(rows[y].spec_bytes()[x] as char)
}

/// Rows that describe a grid: at least one, all of one length that fits a
/// coordinate, each character a terrain.
pub open spec fn rows_valid(rows: Seq<&str>) -> bool {
    &&& 1 <= rows.len() <= 255
    &&& 1 <= rows[0].spec_bytes().len() <= 255
    &&& forall|y: int| 0 <= y < rows.len() ==> (#[trigger] rows[y]).spec_bytes().len() == rows[0].spec_bytes().len()
    &&& forall|x: int, y: int|
        0 <= y < rows.len() && 0 <= x < rows[0].spec_bytes().len() ==> (#[trigger] row_space(rows, x, y)) is Some
}

/// An immutable level: its grid, where each piece starts, and its par.
#[derive(Debug, Clone)]
pub struct Level {
    size: Vector<u8>,
    spaces: Vec<Space>,
    starting_positions: Vec<Vector<u8>>,
    optimal_moves: u8,
}

impl Level {
    /// Width and height of the grid.
    pub closed spec fn spec_size(self) -> Vector<u8> {
        self.size
    }

    /// The terrain, row after row.
    pub closed spec fn spaces_view(self) -> Seq<Space> {
        self.spaces@
    }

    /// The starting cell of each piece in play.
    pub closed spec fn starts(self) -> Seq<Vector<u8>> {
        self.starting_positions@
    }

    /// The par: the fewest moves that solve the level.
    pub closed spec fn par(self) -> u8 {
        self.optimal_moves
    }

    pub open spec fn width(self) -> int {
        self.spec_size().x as int
    }

    pub open spec fn height(self) -> int {
        self.spec_size().y as int
    }

    pub fn size(&self) -> (r: Vector<u8>)
        ensures
            r == self.spec_size(),
    {
        self.size
    }

    pub fn starting_positions(&self) -> (r: &[Vector<u8>])
        ensures
            r@ == self.starts(),
    {
        self.starting_positions.as_slice()
    }

    pub fn optimal_moves(&self) -> (r: u8)
        ensures
            r == self.par(),
    {
        self.optimal_moves
    }

    pub open spec fn in_bounds(self, x: int, y: int) -> bool {
        0 <= x < self.width() && 0 <= y < self.height()
    }

    pub open spec fn space_at(self, x: int, y: int) -> Space {
        self.spaces_view()[y * self.width() + x]
    }

    /// A piece may stand on the cell: it lies on the grid and is free or a goal.
    pub open spec fn is_open(self, x: int, y: int) -> bool {
        self.in_bounds(x, y) && self.space_at(x, y).is_passable()
    }

    pub open spec fn wf(self) -> bool {
        &&& self.spaces_view().len() == self.width() * self.height()
        &&& 2 <= self.starts().len() <= NUM_PIECES
        &&& forall|i: int|
            0 <= i < self.starts().len() ==> self.is_open(
                #[trigger] self.starts()[i].x as int,
                self.starts()[i].y as int,
            )
        &&& self.par() <= MAX_OPTIMAL_MOVES
    }

    /// Builds a level from its rows of terrain characters (`_` void, `#`
    /// wall, space free, `G`, `O`, `B` the goal of that piece), the starting
    /// cell of each piece and the par. `None` where the rows do not describe
    /// a grid, there are not two or three pieces, a piece starts outside the
    /// open cells, or the par exceeds `MAX_OPTIMAL_MOVES`.
    pub fn from_rows(rows: &[&str], starting_positions: &[Vector<u8>], optimal_moves: u8) -> (r:
        Option<Level>)
        ensures
            r is Some <==> {
                &&& rows_valid(rows@)
                &&& 2 <= starting_positions@.len() <= NUM_PIECES
                &&& forall|i: int|
                    0 <= i < starting_positions@.len() ==> {
                        let p = #[trigger] starting_positions@[i];
                        &&& p.x < rows@[0].spec_bytes().len()
                        &&& p.y < rows@.len()
                        &&& row_space(rows@, p.x as int, p.y as int).unwrap().is_passable()
                    }
                &&& optimal_moves <= MAX_OPTIMAL_MOVES
            },
            r matches Some(level) ==> {
                &&& level.wf()
                &&& level.width() == rows@[0].spec_bytes().len()
                &&& level.height() == rows@.len()
                &&& level.starts() == starting_positions@
                &&& level.par() == optimal_moves
                &&& forall|x: int, y: int|
                    level.in_bounds(x, y) ==> Some(#[trigger] level.space_at(x, y)) == row_space(
                        rows@,
                        x,
                        y,
                    )
            },
    {
        let height = rows.len();
        if height == 0 || height > 255 {
            return None;
        }
        let width = rows[0].as_bytes().len();
        if width == 0 || width > 255 {
            return None;
        }
        let mut spaces: Vec<Space> = Vec::new();
        let mut y: usize = 0;
        while y < height
            invariant
                1 <= height <= 255,
                1 <= width <= 255,
                height == rows@.len(),
                width == rows@[0].spec_bytes().len(),
                y <= height,
                spaces@.len() == y * width,
                forall|yy: int| 0 <= yy < y ==> (#[trigger] rows@[yy]).spec_bytes().len() == width,
                forall|x: int, yy: int|
                    0 <= yy < y && 0 <= x < width ==> (#[trigger] row_space(rows@, x, yy)) is Some,
                forall|k: int|
                    0 <= k < spaces@.len() ==> Some(#[trigger] spaces@[k]) == row_space(
                        rows@,
                        k % (width as int),
                        k / (width as int),
                    ),
            decreases height - y,
        {
            let row = rows[y].as_bytes();
            if row.len() != width {
                return None;
            }
            let mut x: usize = 0;
            while x < width
                invariant
                    1 <= height <= 255,
                    1 <= width <= 255,
                    height == rows@.len(),
                    width == rows@[0].spec_bytes().len(),
                    y < height,
                    row@ == rows@[y as int].spec_bytes(),
                    row@.len() == width,
                    x <= width,
                    spaces@.len() == y * width + x,
                    forall|x2: int| 0 <= x2 < x ==> (#[trigger] row_space(rows@, x2, y as int)) is Some,
                    forall|k: int|
                        0 <= k < spaces@.len() ==> Some(#[trigger] spaces@[k]) == row_space(
                            rows@,
                            k % (width as int),
                            k / (width as int),
                        ),
                decreases width - x,
            {
                let c = row[x] as char;
                match Space::from_char(c) {
                    Some(space) => {
                        proof {
                            lemma_row_major(width as int, x as int, y as int);
                        }
                        spaces.push(space);
                    },
                    None => {
                        assert(row_space(rows@, x as int, y as int) is None);
                        return None;
                    },
                }
                x += 1;
            }
            proof {
                assert((y + 1) * width == y * width + width) by (nonlinear_arith);
            }
            y += 1;
        }
        assert(rows_valid(rows@));
        let mut i: usize = 0;
        while i < starting_positions.len()
            invariant
                1 <= height <= 255,
                1 <= width <= 255,
                height == rows@.len(),
                width == rows@[0].spec_bytes().len(),
                rows_valid(rows@),
                spaces@.len() == height * width,
                forall|k: int|
                    0 <= k < spaces@.len() ==> Some(#[trigger] spaces@[k]) == row_space(
                        rows@,
                        k % (width as int),
                        k / (width as int),
                    ),
                i <= starting_positions@.len(),
                forall|j: int|
                    0 <= j < i ==> {
                        let p = #[trigger] starting_positions@[j];
                        &&& p.x < width
                        &&& p.y < height
                        &&& row_space(rows@, p.x as int, p.y as int).unwrap().is_passable()
                    },
            decreases starting_positions@.len() - i,
        {
            let p = starting_positions[i];
            if p.x as usize >= width || p.y as usize >= height {
                return None;
            }
            proof {
                assert(p.y as usize * width <= 255 * 255) by (nonlinear_arith)
                    requires
                        p.y < height <= 255,
                        width <= 255,
                ;
            }
            let k = p.y as usize * width + p.x as usize;
            proof {
                lemma_row_major(width as int, p.x as int, p.y as int);
                lemma_cell_index_bound(width as int, height as int, p.x as int, p.y as int);
            }
            match spaces[k] {
                Space::Free | Space::Goal(_) => {},
                _ => {
                    return None;
                },
            }
            i += 1;
        }
        if starting_positions.len() < 2 || starting_positions.len() > NUM_PIECES || optimal_moves
            as usize > MAX_OPTIMAL_MOVES {
            return None;
        }
        let level = Level {
            size: Vector::new(width as u8, height as u8),
            spaces,
            starting_positions: copied(starting_positions),
            optimal_moves,
        };
        proof {
            assert forall|x: int, y: int| level.in_bounds(x, y) implies Some(
                #[trigger] level.space_at(x, y),
            ) == row_space(rows@, x, y) by {
                lemma_row_major(width as int, x, y);
                lemma_cell_index_bound(width as int, height as int, x, y);
            }
            assert forall|i: int| 0 <= i < level.starts().len() implies level.is_open(
                #[trigger] level.starts()[i].x as int,
                level.starts()[i].y as int,
            ) by {
                let p = starting_positions@[i];
                lemma_row_major(width as int, p.x as int, p.y as int);
                lemma_cell_index_bound(width as int, height as int, p.x as int, p.y as int);
            }
            assert(height * width == width * height) by (nonlinear_arith);
            assert(level.wf());
        }
        Some(level)
    }
}

impl Level {
    pub fn num_pieces(&self) -> (r: u8)
        requires
            self.wf(),
        ensures
            r == self.starts().len(),
    {
        self.starting_positions.len() as u8
    }

    /// The pieces in play, in order.
    pub fn all_pieces(&self) -> (r: Vec<Piece>)
        requires
            self.wf(),
        ensures
            r@.len() == self.starts().len(),
            forall|i: int| 0 <= i < r@.len() ==> r@[i] == piece_at(i),
    {
        first_pieces(self.starting_positions.len())
    }

    /// The size of the playable region: the grid without its outer ring.
    pub fn user_size(&self) -> (r: Vector<u8>)
        ensures
            r.x == if self.width() >= 2 { self.width() - 2 } else { 0 },
            r.y == if self.height() >= 2 { self.height() - 2 } else { 0 },
    {
        Vector::new(self.size.x.saturating_sub(2), self.size.y.saturating_sub(2))
    }

    pub fn get_space(&self, position: Vector<u8>) -> (r: Space)
        requires
            self.wf(),
            self.in_bounds(position.x as int, position.y as int),
        ensures
            r == self.space_at(position.x as int, position.y as int),
    {
        proof {
            lemma_cell_index_bound(
                self.width(),
                self.height(),
                position.x as int,
                position.y as int,
            );
            assert(position.y * self.width() <= 255 * 255) by (nonlinear_arith)
                requires
                    position.y <= 255,
                    self.width() <= 255,
            ;
        }
        self.spaces[position.y as usize * self.size.x as usize + position.x as usize]
    }

    /// Every cell of the grid, row after row.
    pub fn all_positions(&self) -> (r: Vec<Vector<u8>>)
        requires
            self.wf(),
        ensures
            r@.len() == self.width() * self.height(),
            forall|k: int|
                0 <= k < r@.len() ==> #[trigger] r@[k] == cell_of_index(self.width(), k),
    {
        let mut r: Vec<Vector<u8>> = Vec::new();
        let mut y: u8 = 0;
        while y < self.size.y
            invariant
                self.wf(),
                y <= self.height(),
                r@.len() == y * self.width(),
                forall|k: int|
                    0 <= k < r@.len() ==> #[trigger] r@[k] == cell_of_index(self.width(), k),
            decreases self.height() - y,
        {
            let mut x: u8 = 0;
            while x < self.size.x
                invariant
                    self.wf(),
                    y < self.height(),
                    x <= self.width(),
                    r@.len() == y * self.width() + x,
                    forall|k: int|
                        0 <= k < r@.len() ==> #[trigger] r@[k] == cell_of_index(self.width(), k),
                decreases self.width() - x,
            {
                proof {
                    lemma_row_major(self.width(), x as int, y as int);
                }
                r.push(Vector::new(x, y));
                x += 1;
            }
            proof {
                assert((y + 1) * self.width() == y * self.width() + self.width()) by (nonlinear_arith);
            }
            y += 1;
        }
        proof {
            assert(self.height() * self.width() == self.width() * self.height()) by (nonlinear_arith);
        }
        r
    }
}

/// The cell at index `k` of a grid `width` wide, counted row after row.
pub open spec fn cell_of_index(width: int, k: int) -> Vector<u8> {
    Vector { x: (k % width) as u8, y: (k / width) as u8 }
}

/// The number of stars a finished level earns for `moves` against a par
/// of `par`.
pub open spec fn rating_for(par: int, moves: int) -> int {
    if moves <= par {
        LevelRating::MAX_STARS as int
    } else if moves <= par + LevelRating::MAX_STARS - 1 {
        LevelRating::MAX_STARS - (moves - par)
    } else {
        1
    }
}

/// A number of stars: 0 for a level not yet completed, otherwise 1 to 5.
#[derive(Debug, Clone, Copy, PartialEq, Eq, Structural, PartialOrd, Ord)]
pub struct LevelRating(u8);

impl LevelRating {
    pub const MAX_STARS: u8 = 5;

    pub closed spec fn stars(self) -> u8 {
        self.0
    }

    /// The rating of a level finished in `num_moves` moves against the par
    /// `goal`.
    pub fn new(goal: u8, num_moves: u8) -> (r: Self)
        ensures
            r.stars() == rating_for(goal as int, num_moves as int),
    {
        let max = Self::maximum_possible().num_stars();
        Self(
            if num_moves <= goal {
                max
            } else if (num_moves - goal) < max {
                max - (num_moves - goal)
            } else {
                1
            },
        )
    }

    /// The rating of the given number of stars, where it is at most the
    /// maximum.
    pub fn from_stars(stars: u8) -> (r: Option<Self>)
        ensures
            r is Some <==> stars <= Self::MAX_STARS,
            r matches Some(rating) ==> rating.stars() == stars,
    {
        if stars <= Self::MAX_STARS {
            Some(Self(stars))
        } else {
            None
        }
    }

    /// The rating of a level not yet completed.
    pub fn incomplete() -> (r: Self)
        ensures
            r.stars() == 0,
    {
        Self(0)
    }

    pub fn is_complete(&self) -> (r: bool)
        ensures
            r == (self.stars() > 0),
    {
        self.0 > 0
    }

    pub fn is_optimal(&self) -> (r: bool)
        ensures
            r == (self.stars() == Self::MAX_STARS),
    {
        self.0 == Self::MAX_STARS
    }

    pub fn num_stars(&self) -> (r: u8)
        ensures
            r == self.stars(),
    {
        self.0
    }

    pub fn maximum_possible() -> (r: Self)
        ensures
            r.stars() == Self::MAX_STARS,
    {
        Self(Self::MAX_STARS)
    }
}

impl Default for LevelRating {
    fn default() -> (r: Self)
        ensures
            r.stars() == 0,
    {
        Self(0)
    }
}

/// For a fixed par the rating never rises as the moves grow, never falls
/// below one star, and is the maximum exactly when the moves do not exceed
/// the par.
pub proof fn lemma_rating_monotonic(par: u8, fewer: u8, more: u8)
    requires
        fewer <= more,
    ensures
        rating_for(par as int, more as int) <= rating_for(par as int, fewer as int),
        1 <= rating_for(par as int, more as int) <= LevelRating::MAX_STARS,
        rating_for(par as int, fewer as int) == LevelRating::MAX_STARS <==> fewer <= par,
{
}

/// The cell `(x, y)` of a grid `width` wide stands at `y * width + x`.
pub proof fn lemma_row_major(width: int, x: int, y: int)
    requires
        0 < width,
        0 <= x < width,
        0 <= y,
    ensures
        (y * width + x) % width == x,
        (y * width + x) / width == y,
{
    vstd::arithmetic::div_mod::lemma_fundamental_div_mod_converse(y * width + x, width, y, x);
}

/// Every cell of a grid has its index below the grid's area.
pub proof fn lemma_cell_index_bound(width: int, height: int, x: int, y: int)
    requires
        0 <= x < width,
        0 <= y < height,
    ensures
        0 <= y * width + x < width * height,
{
    assert(0 <= y * width + x < width * height) by (nonlinear_arith)
        requires
            0 <= x < width,
            0 <= y < height,
    ;
}


/// A renderer that collects drawing and shows it all at once.
pub trait BufferedRenderer {
    fn flush(&mut self);
}

} // verus!
