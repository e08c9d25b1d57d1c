//! One attempt at one level: sliding pieces, the move history, undo and
//! restart, and the report of what changed after each action.
use vstd::prelude::*;
use vstd::string::StringSliceAdditionalSpecFns;

use crate::level_select::{LevelInfo, LevelStatus};
use crate::{first_pieces, piece_at, rating_for, Level, LevelRating, Piece, PieceMap, Space, Vector};

verus! {

/// How many moves the history of one attempt holds.
pub const MAX_MOVES: usize = 100;

#[derive(Debug, Clone, Copy, PartialEq, Eq, Structural)]
pub enum Direction {
    Up,
    Down,
    Left,
    Right,
}

/// The direction written as the given character.
pub open spec fn direction_of_char(c: char) -> Option<Direction> {
    if c == 'U' {
        Some(Direction::Up)
    } else if c == 'D' {
        Some(Direction::Down)
    } else if c == 'L' {
        Some(Direction::Left)
    } else if c == 'R' {
        Some(Direction::Right)
    } else {
        None
    }
}

impl Direction {
    pub open spec fn dx(self) -> int {
        match self {
            Direction::Left => -1,
            Direction::Right => 1,
            _ => 0,
        }
    }

    pub open spec fn dy(self) -> int {
        match self {
            Direction::Up => -1,
            Direction::Down => 1,
            _ => 0,
        }
    }

    /// Right and down run towards growing coordinates.
    pub open spec fn spec_is_forward(self) -> bool {
        self is Right || self is Down
    }

    pub open spec fn spec_is_horizontal(self) -> bool {
        self is Left || self is Right
    }

    pub open spec fn spec_opposite(self) -> Direction {
        match self {
            Direction::Up => Direction::Down,
            Direction::Down => Direction::Up,
            Direction::Left => Direction::Right,
            Direction::Right => Direction::Left,
        }
    }

    pub fn opposite(&self) -> (r: Direction)
        ensures
            r == self.spec_opposite(),
            r.dx() == -self.dx(),
            r.dy() == -self.dy(),
    {
        match self {
            Direction::Up => Direction::Down,
            Direction::Down => Direction::Up,
            Direction::Left => Direction::Right,
            Direction::Right => Direction::Left,
        }
    }

    pub fn from_char(c: char) -> (r: Option<Self>)
        ensures
            r == direction_of_char(c),
    {
        match c {
            'U' => Some(Self::Up),
            'D' => Some(Self::Down),
            'L' => Some(Self::Left),
            'R' => Some(Self::Right),
            _ => None,
        }
    }

    pub fn as_char(&self) -> (r: char)
        ensures
            direction_of_char(r) == Some(*self),
    {
        match self {
            Direction::Up => 'U',
            Direction::Down => 'D',
            Direction::Left => 'L',
            Direction::Right => 'R',
        }
    }

    /// The unit offset of one step in this direction.
    pub fn as_vector(&self) -> (r: Vector<i8>)
        ensures
            r.x == self.dx(),
            r.y == self.dy(),
    {
        match self {
            Self::Up => Vector::new(0, -1),
            Self::Down => Vector::new(0, 1),
            Self::Left => Vector::new(-1, 0),
            Self::Right => Vector::new(1, 0),
        }
    }

    pub fn is_horizontal(&self) -> (r: bool)
        ensures
            r == self.spec_is_horizontal(),
    {
        match self {
            Self::Left | Self::Right => true,
            Self::Up | Self::Down => false,
        }
    }

    pub fn is_forward(&self) -> (r: bool)
        ensures
            r == self.spec_is_forward(),
    {
        match self {
            Self::Down | Self::Right => true,
            Self::Up | Self::Left => false,
        }
    }
}

/// A command to slide one piece in one direction.
#[derive(Debug, Clone, Copy, PartialEq, Eq, Structural)]
pub struct Move {
    pub piece: Piece,
    pub direction: Direction,
}

impl Move {
    pub fn new(piece: Piece, direction: Direction) -> (r: Self)
        ensures
            r.piece == piece,
            r.direction == direction,
    {
        Self { piece, direction }
    }

    /// The two characters that write the move: the piece, then the
    /// direction.
    pub fn as_chars(&self) -> (r: (char, char))
        ensures
            crate::piece_of_char(r.0) == Some(self.piece),
            direction_of_char(r.1) == Some(self.direction),
    {
        (self.piece.as_char(), self.direction.as_char())
    }

    /// The move written as two characters, piece then direction (`"GD"`).
    pub fn parse(text: &str) -> (r: Option<Move>)
        ensures
            r is Some <==> {
                &&& text.spec_bytes().len() == 2
                &&& crate::piece_of_char(text.spec_bytes()[0] as char) is Some
                &&& direction_of_char(text.spec_bytes()[1] as char) is Some
            },
            r matches Some(m) ==> {
                &&& Some(m.piece) == crate::piece_of_char(text.spec_bytes()[0] as char)
                &&& Some(m.direction) == direction_of_char(text.spec_bytes()[1] as char)
            },
    {
        let bytes = text.as_bytes();
        if bytes.len() != 2 {
            return None;
        }
        match (Piece::from_char(bytes[0] as char), Direction::from_char(bytes[1] as char)) {
            (Some(piece), Some(direction)) => Some(Move { piece, direction }),
            _ => None,
        }
    }

    /// The same piece, the opposite direction.
    pub fn inverse(&self) -> (r: Self)
        ensures
            r.piece == self.piece,
            r.direction == self.direction.spec_opposite(),
    {
        Self { piece: self.piece, direction: self.direction.opposite() }
    }
}

/// The column reached from `p` after `k` steps in direction `d`.
pub open spec fn shift_x(p: Vector<u8>, d: Direction, k: int) -> int {
    match d {
        Direction::Left => p.x - k,
        Direction::Right => p.x + k,
        _ => p.x as int,
    }
}

/// The row reached from `p` after `k` steps in direction `d`.
pub open spec fn shift_y(p: Vector<u8>, d: Direction, k: int) -> int {
    match d {
        Direction::Up => p.y - k,
        Direction::Down => p.y + k,
        _ => p.y as int,
    }
}

/// The cell reached from `p` after `k` steps in direction `d`.
pub open spec fn shifted(p: Vector<u8>, d: Direction, k: int) -> Vector<u8> {
    Vector { x: shift_x(p, d, k) as u8, y: shift_y(p, d, k) as u8 }
}

/// No piece stands on the cell.
pub open spec fn unoccupied(positions: Seq<Vector<u8>>, x: int, y: int) -> bool {
    forall|i: int| 0 <= i < positions.len() ==> !(#[trigger] positions[i].x == x && positions[i].y == y)
}

/// A piece can slide onto the cell: it is free or a goal, and empty.
pub open spec fn is_clear(level: Level, positions: Seq<Vector<u8>>, x: int, y: int) -> bool {
    level.is_open(x, y) && unoccupied(positions, x, y)
}

/// How far a piece at `p` slides in direction `d`: the clear cells in a row
/// ahead of it.
pub open spec fn run_length(level: Level, positions: Seq<Vector<u8>>, p: Vector<u8>, d: Direction) -> nat
    decreases
            (match d {
                Direction::Up => p.y as int,
                Direction::Down => 256 - p.y,
                Direction::Left => p.x as int,
                Direction::Right => 256 - p.x,
            }),
{
    if is_clear(level, positions, shift_x(p, d, 1), shift_y(p, d, 1)) {
        1 + run_length(level, positions, shifted(p, d, 1), d)
    } else {
        0
    }
}

/// How far `piece` slides in direction `d`.
pub open spec fn slide_length(level: Level, positions: Seq<Vector<u8>>, piece: Piece, d: Direction) -> nat {
    run_length(level, positions, positions[piece.ord()], d)
}

/// The slide of a piece from `p` covers each cell of its run, and stops
/// before a cell that is not clear: the distance is the largest for which
/// every cell crossed is free or a goal and unoccupied.
pub proof fn lemma_slide_maximal(level: Level, positions: Seq<Vector<u8>>, p: Vector<u8>, d: Direction)
    ensures
        forall|k: int|
            1 <= k <= run_length(level, positions, p, d) ==> is_clear(
                level,
                positions,
                #[trigger] shift_x(p, d, k),
                shift_y(p, d, k),
            ),
        !is_clear(
            level,
            positions,
            shift_x(p, d, run_length(level, positions, p, d) as int + 1),
            shift_y(p, d, run_length(level, positions, p, d) as int + 1),
        ),
    decreases
            (match d {
                Direction::Up => p.y as int,
                Direction::Down => 256 - p.y,
                Direction::Left => p.x as int,
                Direction::Right => 256 - p.x,
            }),
{
    let n = run_length(level, positions, p, d) as int;
    if n > 0 {
        let q = shifted(p, d, 1);
        lemma_slide_maximal(level, positions, q, d);
        assert forall|k: int| 1 <= k <= n implies is_clear(
            level,
            positions,
            #[trigger] shift_x(p, d, k),
            shift_y(p, d, k),
        ) by {
            if k > 1 {
                assert(shift_x(q, d, k - 1) == shift_x(p, d, k));
                assert(shift_y(q, d, k - 1) == shift_y(p, d, k));
            }
        }
        assert(shift_x(q, d, n) == shift_x(p, d, n + 1));
        assert(shift_y(q, d, n) == shift_y(p, d, n + 1));
    }
}


/// The direction in which a slide's strip is stored: right for horizontal
/// slides, down for vertical ones.
pub open spec fn axis(d: Direction) -> Direction {
    if d.spec_is_horizontal() {
        Direction::Right
    } else {
        Direction::Down
    }
}

/// The top-left end of the strip of a slide from `from` over `n` cells.
pub open spec fn strip_origin(from: Vector<u8>, d: Direction, n: int) -> Vector<u8> {
    if d.spec_is_forward() {
        from
    } else {
        shifted(from, d, n)
    }
}

/// Every piece stands on the goal of its own kind.
pub open spec fn is_winning_at(level: Level, positions: Seq<Vector<u8>>) -> bool {
    forall|i: int|
        0 <= i < positions.len() ==> level.space_at(
            #[trigger] positions[i].x as int,
            positions[i].y as int,
        ) == Space::Goal(piece_at(i))
}

/// The result of one successful slide: the move and the terrain of every
/// cell that the piece crossed, from its starting cell to its ending cell,
/// stored from the top-left end.
#[derive(Debug)]
pub struct PieceSlid {
    pub muv: Move,
    pub strip_top_left: Vector<u8>,
    pub strip_spaces: Vec<Space>,
}

impl PieceSlid {
    pub open spec fn distance(self) -> int {
        self.strip_spaces@.len() - 1
    }

    /// The cell the piece slid from.
    pub open spec fn start(self) -> Vector<u8> {
        if self.muv.direction.spec_is_forward() {
            self.strip_top_left
        } else {
            shifted(self.strip_top_left, self.muv.direction.spec_opposite(), self.distance())
        }
    }

    /// The cell the piece slid to.
    pub open spec fn end(self) -> Vector<u8> {
        if self.muv.direction.spec_is_forward() {
            shifted(self.strip_top_left, self.muv.direction, self.distance())
        } else {
            self.strip_top_left
        }
    }

    /// The strip is not empty and lies within the coordinate range.
    pub open spec fn wf(self) -> bool {
        &&& 1 <= self.strip_spaces@.len() <= 256
        &&& shift_x(self.strip_top_left, axis(self.muv.direction), self.distance()) <= 255
        &&& shift_y(self.strip_top_left, axis(self.muv.direction), self.distance()) <= 255
    }

    /// This is the slide of `muv` from `from` over `n` cells on `level`.
    pub open spec fn describes(self, level: Level, muv: Move, from: Vector<u8>, n: nat) -> bool {
        &&& self.muv == muv
        &&& self.strip_spaces@.len() == n + 1
        &&& self.strip_top_left == strip_origin(from, muv.direction, n as int)
        &&& forall|k: int|
            0 <= k <= n ==> #[trigger] self.strip_spaces@[k] == level.space_at(
                shift_x(self.strip_top_left, axis(muv.direction), k),
                shift_y(self.strip_top_left, axis(muv.direction), k),
            )
    }

    /// The cell the piece slid from, recovered from the strip alone.
    pub fn starting_position(&self) -> (r: Vector<u8>)
        requires
            self.wf(),
        ensures
            r == self.start(),
    {
        let distance = self.slide_distance();
        match self.muv.direction {
            Direction::Right | Direction::Down => self.strip_top_left,
            Direction::Left => Vector::new(self.strip_top_left.x + distance, self.strip_top_left.y),
            Direction::Up => Vector::new(self.strip_top_left.x, self.strip_top_left.y + distance),
        }
    }

    pub fn slide_distance(&self) -> (r: u8)
        requires
            self.wf(),
        ensures
            r == self.distance(),
    {
        (self.strip_spaces.len() - 1) as u8
    }

    /// The same slide run backwards: the opposite move over the same strip.
    pub fn invert(self) -> (r: PieceSlid)
        ensures
            r.muv.piece == self.muv.piece,
            r.muv.direction == self.muv.direction.spec_opposite(),
            r.strip_top_left == self.strip_top_left,
            r.strip_spaces@ == self.strip_spaces@,
    {
        PieceSlid {
            muv: self.muv.inverse(),
            strip_top_left: self.strip_top_left,
            strip_spaces: self.strip_spaces,
        }
    }

    /// A copy of this slide.
    pub fn duplicate(&self) -> (r: PieceSlid)
        ensures
            r.muv == self.muv,
            r.strip_top_left == self.strip_top_left,
            r.strip_spaces@ == self.strip_spaces@,
    {
        PieceSlid {
            muv: self.muv,
            strip_top_left: self.strip_top_left,
            strip_spaces: crate::copied(self.strip_spaces.as_slice()),
        }
    }
}

/// The starting cell of a slide, moved `distance` cells in its direction,
/// is its ending cell; and the strip holds one cell more than the distance.
pub proof fn lemma_strip_consistent(s: PieceSlid)
    requires
        s.wf(),
    ensures
        shifted(s.start(), s.muv.direction, s.distance()) == s.end(),
        s.strip_spaces@.len() == s.distance() + 1,
{
}

/// A slide of `n` cells from `from` starts at `from` and ends `n` cells
/// further on.
pub proof fn lemma_described_ends(s: PieceSlid, level: Level, muv: Move, from: Vector<u8>, n: nat)
    requires
        s.describes(level, muv, from, n),
        0 <= shift_x(from, muv.direction, n as int) <= 255,
        0 <= shift_y(from, muv.direction, n as int) <= 255,
    ensures
        s.wf(),
        s.start() == from,
        s.end() == shifted(from, muv.direction, n as int),
{
}

/// The cell one step from `p` in direction `d`, where that cell lies on
/// the level's grid.
fn neighbor(level: &Level, p: Vector<u8>, d: Direction) -> (r: Option<Vector<u8>>)
    requires
        level.wf(),
    ensures
        r is Some <==> level.in_bounds(shift_x(p, d, 1), shift_y(p, d, 1)),
        r matches Some(c) ==> c.x == shift_x(p, d, 1) && c.y == shift_y(p, d, 1),
{
    let v = d.as_vector();
    let size = level.size();
    let x: i16 = p.x as i16 + v.x as i16;
    let y: i16 = p.y as i16 + v.y as i16;
    if 0 <= x && x < size.x as i16 && 0 <= y && y < size.y as i16 {
        Some(Vector::new(x as u8, y as u8))
    } else {
        None
    }
}

/// Where every piece stands during one attempt at one level.
#[derive(Debug)]
pub struct LevelRunState<'a> {
    level: &'a Level,
    positions: PieceMap<Vector<u8>>,
}

impl<'a> LevelRunState<'a> {
    pub closed spec fn spec_level(self) -> Level {
        *self.level
    }

    /// The cell of each piece in play, by ordinal.
    pub closed spec fn positions(self) -> Seq<Vector<u8>> {
        self.positions@
    }

    pub open spec fn wf(self) -> bool {
        &&& self.spec_level().wf()
        &&& self.positions().len() == self.spec_level().starts().len()
        &&& forall|i: int|
            0 <= i < self.positions().len() ==> self.spec_level().is_open(
                #[trigger] self.positions()[i].x as int,
                self.positions()[i].y as int,
            )
    }

    /// Every piece on its starting cell.
    pub fn new(level: &'a Level) -> (r: Self)
        requires
            level.wf(),
        ensures
            r.wf(),
            r.spec_level() == *level,
            r.positions() == level.starts(),
    {
        Self { level, positions: PieceMap::from_slice(level.starting_positions()) }
    }

    pub fn duplicate(&self) -> (r: Self)
        ensures
            r.spec_level() == self.spec_level(),
            r.positions() == self.positions(),
    {
        Self { level: self.level, positions: self.positions.duplicate() }
    }

    pub fn level(&self) -> (r: &'a Level)
        ensures
            *r == self.spec_level(),
    {
        self.level
    }

    pub fn positions_map(&self) -> (r: &PieceMap<Vector<u8>>)
        ensures
            r@ == self.positions(),
    {
        &self.positions
    }

    pub fn is_winning(&self) -> (r: bool)
        requires
            self.wf(),
        ensures
            r == is_winning_at(self.spec_level(), self.positions()),
    {
        let n = self.positions.num_pieces();
        let mut i: usize = 0;
        while i < n
            invariant
                self.wf(),
                n == self.positions().len(),
                i <= n,
                forall|j: int|
                    0 <= j < i ==> self.spec_level().space_at(
                        #[trigger] self.positions()[j].x as int,
                        self.positions()[j].y as int,
                    ) == Space::Goal(piece_at(j)),
            decreases n - i,
        {
            let piece = Piece::from_index(i).unwrap();
            let space = self.level.get_space(self.positions.get(piece));
            if space != Space::Goal(piece) {
                return false;
            }
            i += 1;
        }
        true
    }

    pub fn piece_position(&self, piece: Piece) -> (r: Vector<u8>)
        requires
            piece.ord() < self.positions().len(),
        ensures
            r == self.positions()[piece.ord()],
    {
        self.positions.get(piece)
    }

    /// Puts the piece on the cell, with no check of the path.
    pub fn teleport_piece(&mut self, piece: Piece, new_position: Vector<u8>)
        requires
            piece.ord() < old(self).positions().len(),
        ensures
            final(self).spec_level() == old(self).spec_level(),
            final(self).positions() == old(self).positions().update(piece.ord(), new_position),
    {
        self.positions.set(piece, new_position);
    }

    /// Slides the piece of `muv` as far as it goes. `None`, with nothing
    /// changed, where the very first cell is blocked.
    pub fn attempt_move(&mut self, muv: Move) -> (r: Option<PieceSlid>)
        requires
            old(self).wf(),
            muv.piece.ord() < old(self).positions().len(),
        ensures
            final(self).wf(),
            final(self).spec_level() == old(self).spec_level(),
            ({
                let level = old(self).spec_level();
                let n = slide_length(level, old(self).positions(), muv.piece, muv.direction);
                let from = old(self).positions()[muv.piece.ord()];
                &&& n == 0 ==> r is None && final(self).positions() == old(self).positions()
                &&& n > 0 ==> (r matches Some(s) && {
                    &&& s.describes(level, muv, from, n)
                    &&& s.wf()
                    &&& s.start() == from
                    &&& s.end() == shifted(from, muv.direction, n as int)
                    &&& final(self).positions() == old(self).positions().update(
                        muv.piece.ord(),
                        shifted(from, muv.direction, n as int),
                    )
                })
            }),
    {
        let ghost level = self.spec_level();
        let ghost positions = self.positions();
        let d = muv.direction;
        let start = self.positions.get(muv.piece);
        proof {
            lemma_slide_maximal(level, positions, start, d);
        }
        let mut position = start;
        let mut distance: u8 = 0;
        loop
            invariant
                self.wf(),
                self.spec_level() == level,
                self.positions() == positions,
                level.in_bounds(position.x as int, position.y as int),
                position.x == shift_x(start, d, distance as int),
                position.y == shift_y(start, d, distance as int),
                distance + run_length(level, positions, position, d) == run_length(
                    level,
                    positions,
                    start,
                    d,
                ),
            ensures
                level.in_bounds(position.x as int, position.y as int),
                position.x == shift_x(start, d, distance as int),
                position.y == shift_y(start, d, distance as int),
                distance == run_length(level, positions, start, d),
            decreases run_length(level, positions, position, d),
        {
            let next = match neighbor(self.level, position, d) {
                Some(next) => next,
                None => {
                    break;
                },
            };
            let open = match self.level.get_space(next) {
                Space::Free | Space::Goal(_) => true,
                _ => false,
            };
            if !open || self.is_occupied(next) {
                break;
            }
            assert(shifted(position, d, 1) == next);
            proof {
                assert(level.width() <= 255 && level.height() <= 255);
            }
            distance += 1;
            position = next;
        }
        if distance == 0 {
            return None;
        }
        let ghost n = distance as nat;
        assert(position == shifted(start, d, n as int));
        let top_left = if d.is_forward() {
            start
        } else {
            position
        };
        let horizontal = d.is_horizontal();
        let mut strip: Vec<Space> = Vec::new();
        let mut k: u8 = 0;
        while k <= distance
            invariant
                self.wf(),
                self.spec_level() == level,
                self.positions() == positions,
                n == distance,
                n == run_length(level, positions, start, d),
                distance < 255,
                horizontal == d.spec_is_horizontal(),
                top_left == strip_origin(start, d, n as int),
                forall|j: int|
                    1 <= j <= n ==> is_clear(
                        level,
                        positions,
                        #[trigger] shift_x(start, d, j),
                        shift_y(start, d, j),
                    ),
                level.in_bounds(start.x as int, start.y as int),
                k <= distance + 1,
                strip@.len() == k,
                forall|j: int|
                    0 <= j < k ==> #[trigger] strip@[j] == level.space_at(
                        shift_x(top_left, axis(d), j),
                        shift_y(top_left, axis(d), j),
                    ),
            decreases distance + 1 - k,
        {
            let ghost j = if d.spec_is_forward() {
                k as int
            } else {
                n - k
            };
            assert(shift_x(top_left, axis(d), k as int) == shift_x(start, d, j));
            assert(shift_y(top_left, axis(d), k as int) == shift_y(start, d, j));
            assert(level.in_bounds(shift_x(start, d, j), shift_y(start, d, j)));
            let cell = if horizontal {
                Vector::new(top_left.x + k, top_left.y)
            } else {
                Vector::new(top_left.x, top_left.y + k)
            };
            strip.push(self.level.get_space(cell));
            k += 1;
        }
        self.positions.set(muv.piece, position);
        let slid = PieceSlid { muv, strip_top_left: top_left, strip_spaces: strip };
        proof {
            lemma_described_ends(slid, level, muv, start, n);
            assert forall|i: int| 0 <= i < self.positions().len() implies level.is_open(
                #[trigger] self.positions()[i].x as int,
                self.positions()[i].y as int,
            ) by {
                if i != muv.piece.ord() {
                    assert(self.positions()[i] == positions[i]);
                }
            }
        }
        Some(slid)
    }

    /// Some piece stands on the cell.
    fn is_occupied(&self, cell: Vector<u8>) -> (r: bool)
        requires
            self.wf(),
        ensures
            r == !unoccupied(self.positions(), cell.x as int, cell.y as int),
    {
        let n = self.positions.num_pieces();
        let mut i: usize = 0;
        while i < n
            invariant
                self.wf(),
                n == self.positions().len(),
                i <= n,
                unoccupied(self.positions().subrange(0, i as int), cell.x as int, cell.y as int),
            decreases n - i,
        {
            let piece = Piece::from_index(i).unwrap();
            if self.positions.get(piece) == cell {
                return true;
            }
            proof {
                assert(self.positions().subrange(0, i + 1) =~= self.positions().subrange(
                    0,
                    i as int,
                ).push(self.positions()[i as int]));
            }
            i += 1;
        }
        proof {
            assert(self.positions().subrange(0, n as int) =~= self.positions());
        }
        false
    }
}


/// What the player can do during a run.
#[derive(Debug, Clone, Copy, PartialEq, Eq, Structural)]
pub enum Action {
    Move(Direction),
    ChangeActivePiece,
    UndoMove,
    Restart,
}

/// The piece that was active before a move handed the turn to another one,
/// and the cell where it stayed.
#[derive(Debug, Clone, Copy, PartialEq, Eq, Structural)]
pub struct OldActivePiece {
    pub piece: Piece,
    pub position: Vector<u8>,
}

/// A piece put from one cell onto another without sliding.
#[derive(Debug, Clone, Copy, PartialEq, Eq, Structural)]
pub struct PieceMoved {
    pub piece: Piece,
    pub is_active: bool,
    pub from: Vector<u8>,
    pub from_space: Space,
    pub to: Vector<u8>,
}

/// How the pieces changed, in the shape a renderer redraws.
#[derive(Debug)]
pub enum PiecesChanged {
    Slid { piece_slid: PieceSlid, is_active: bool, old_active_piece: Option<OldActivePiece> },
    Moved(Vec<PieceMoved>),
    ActivePiece { active_piece: Piece, positions: PieceMap<Vector<u8>> },
}

/// What an action changed.
#[derive(Debug)]
pub struct LevelRunChange {
    pub pieces_changed: Option<PiecesChanged>,
    pub num_moves_changed: Option<u8>,
    pub winning_status: Option<LevelStatus>,
    pub at_max_moves: bool,
}

impl LevelRunChange {
    pub open spec fn is_empty(self) -> bool {
        &&& self.pieces_changed is None
        &&& self.num_moves_changed is None
        &&& self.winning_status is None
        &&& !self.at_max_moves
    }

    /// Nothing changed.
    pub fn none() -> (r: Self)
        ensures
            r.is_empty(),
    {
        LevelRunChange {
            pieces_changed: None,
            num_moves_changed: None,
            winning_status: None,
            at_max_moves: false,
        }
    }
}

/// The moves of a history, in order.
pub open spec fn moves_of(history: Seq<PieceSlid>) -> Seq<Move> {
    history.map_values(|s: PieceSlid| s.muv)
}

/// `status` is what a run whose pieces stand at `positions` after the
/// moves of `history` has earned: nothing unless it is winning; the full
/// list of moves when the rating is the maximum; the rating otherwise.
pub open spec fn reports_status(
    level: Level,
    positions: Seq<Vector<u8>>,
    history: Seq<PieceSlid>,
    status: Option<LevelStatus>,
) -> bool {
    let rating = rating_for(level.par() as int, history.len() as int);
    if !is_winning_at(level, positions) {
        status is None
    } else if rating == LevelRating::MAX_STARS {
        status matches Some(LevelStatus::Optimal(moves)) && moves@ == moves_of(history)
    } else {
        status matches Some(LevelStatus::Complete(r)) && r.stars() == rating
    }
}

/// The first piece from ordinal `i` on, other than `active`, that can
/// slide in direction `d`.
pub open spec fn first_other_mover(
    level: Level,
    positions: Seq<Vector<u8>>,
    active: Piece,
    d: Direction,
    i: int,
) -> Option<Piece>
    decreases positions.len() - i,
{
    if i < 0 || i >= positions.len() {
        None
    } else if piece_at(i) != active && slide_length(level, positions, piece_at(i), d) > 0 {
        Some(piece_at(i))
    } else {
        first_other_mover(level, positions, active, d, i + 1)
    }
}

/// The other mover is never the active piece.
proof fn lemma_other_mover_differs(
    level: Level,
    positions: Seq<Vector<u8>>,
    active: Piece,
    d: Direction,
    i: int,
)
    ensures
        first_other_mover(level, positions, active, d, i) matches Some(p) ==> p != active,
    decreases positions.len() - i,
{
    if 0 <= i < positions.len() {
        lemma_other_mover_differs(level, positions, active, d, i + 1);
    }
}

/// The other mover is one of the pieces in play.
proof fn lemma_mover_in_range(
    level: Level,
    positions: Seq<Vector<u8>>,
    active: Piece,
    d: Direction,
    i: int,
)
    requires
        positions.len() <= crate::NUM_PIECES,
    ensures
        first_other_mover(level, positions, active, d, i) matches Some(p) ==> p.ord() < positions.len(),
    decreases positions.len() - i,
{
    if 0 <= i < positions.len() {
        lemma_mover_in_range(level, positions, active, d, i + 1);
    }
}

/// The piece that answers a move in direction `d`: the active piece where
/// it can slide, else the first other piece, in order, that can.
pub open spec fn mover(level: Level, positions: Seq<Vector<u8>>, active: Piece, d: Direction) -> Option<
    Piece,
> {
    if slide_length(level, positions, active, d) > 0 {
        Some(active)
    } else {
        first_other_mover(level, positions, active, d, 0)
    }
}

/// One attempt at one level: where the pieces stand, the moves made so far
/// and the piece that answers the next move.
pub struct LevelRun<'a> {
    level_num: u16,
    state: LevelRunState<'a>,
    move_stack: Vec<PieceSlid>,
    active_piece: Piece,
}

impl<'a> LevelRun<'a> {
    pub closed spec fn spec_level(self) -> Level {
        self.state.spec_level()
    }

    pub closed spec fn level_number(self) -> u16 {
        self.level_num
    }

    /// The cell of each piece, by ordinal.
    pub closed spec fn positions(self) -> Seq<Vector<u8>> {
        self.state.positions()
    }

    /// The slides made so far, oldest first.
    pub closed spec fn history(self) -> Seq<PieceSlid> {
        self.move_stack@
    }

    pub closed spec fn active(self) -> Piece {
        self.active_piece
    }

    pub open spec fn wf(self) -> bool {
        let level = self.spec_level();
        let n = self.positions().len();
        &&& level.wf()
        &&& n == level.starts().len()
        &&& forall|i: int|
            0 <= i < n ==> level.is_open(
                #[trigger] self.positions()[i].x as int,
                self.positions()[i].y as int,
            )
        &&& self.active().ord() < n
        &&& self.history().len() <= MAX_MOVES
        &&& forall|i: int|
            0 <= i < self.history().len() ==> {
                let s = #[trigger] self.history()[i];
                &&& s.wf()
                &&& s.muv.piece.ord() < n
                &&& level.is_open(s.start().x as int, s.start().y as int)
            }
    }

    /// Both are runs of the same level under the same number.
    pub open spec fn same_run(self, other: Self) -> bool {
        self.spec_level() == other.spec_level() && self.level_number() == other.level_number()
    }

    /// Nothing that the player sees differs.
    pub open spec fn unchanged(self, next: Self) -> bool {
        &&& self.same_run(next)
        &&& next.positions() == self.positions()
        &&& next.history() == self.history()
        &&& next.active() == self.active()
    }

    /// `next` is this run after a move in direction `d`.
    pub open spec fn moved(self, d: Direction, next: Self) -> bool {
        let level = self.spec_level();
        let positions = self.positions();
        let history = self.history();
        match mover(level, positions, self.active(), d) {
            None => self.unchanged(next),
            Some(p) => if history.len() >= MAX_MOVES {
                self.unchanged(next)
            } else {
                let n = slide_length(level, positions, p, d);
                let from = positions[p.ord()];
                &&& self.same_run(next)
                &&& next.history().len() == history.len() + 1
                &&& next.history().subrange(0, history.len() as int) == history
                &&& next.history().last().describes(level, (Move { piece: p, direction: d }), from, n)
                &&& next.positions() == positions.update(p.ord(), shifted(from, d, n as int))
                &&& next.active() == p
            },
        }
    }

    /// `change` reports the move from this run to `next` in direction `d`.
    pub open spec fn move_report(self, d: Direction, next: Self, change: LevelRunChange) -> bool {
        let level = self.spec_level();
        let positions = self.positions();
        let full = self.history().len() >= MAX_MOVES;
        match mover(level, positions, self.active(), d) {
            Some(p) if !full => {
                let n = slide_length(level, positions, p, d);
                &&& change.pieces_changed matches Some(
                    PiecesChanged::Slid { piece_slid, is_active, old_active_piece },
                )
                &&& piece_slid.describes(level, (Move { piece: p, direction: d }), positions[p.ord()], n)
                &&& is_active
                &&& old_active_piece == if p == self.active() {
                    None
                } else {
                    Some(OldActivePiece { piece: self.active(), position: positions[self.active().ord()] })
                }
                &&& change.num_moves_changed == Some(next.history().len() as u8)
                &&& reports_status(level, next.positions(), next.history(), change.winning_status)
                &&& change.at_max_moves == (next.history().len() >= MAX_MOVES)
            },
            _ => {
                &&& change.pieces_changed is None
                &&& change.num_moves_changed is None
                &&& change.winning_status is None
                &&& change.at_max_moves == full
            },
        }
    }

    /// `next` is this run with its last move taken back.
    pub open spec fn undone(self, next: Self) -> bool {
        let history = self.history();
        if history.len() == 0 {
            self.unchanged(next)
        } else {
            &&& self.same_run(next)
            &&& next.history() == history.drop_last()
            &&& next.positions() == self.positions().update(
                history.last().muv.piece.ord(),
                history.last().start(),
            )
            &&& next.active() == self.active()
        }
    }

    /// `change` reports taking back the last move of this run.
    pub open spec fn undo_report(self, change: LevelRunChange) -> bool {
        let history = self.history();
        if history.len() == 0 {
            change.is_empty()
        } else {
            let last = history.last();
            &&& change.pieces_changed matches Some(
                PiecesChanged::Slid { piece_slid, is_active, old_active_piece },
            )
            &&& piece_slid.muv == (Move {
                piece: last.muv.piece,
                direction: last.muv.direction.spec_opposite(),
            })
            &&& piece_slid.strip_top_left == last.strip_top_left
            &&& piece_slid.strip_spaces@ == last.strip_spaces@
            &&& is_active == (last.muv.piece == self.active())
            &&& old_active_piece is None
            &&& change.num_moves_changed == Some((history.len() - 1) as u8)
            &&& change.winning_status is None
            &&& !change.at_max_moves
        }
    }

    /// `next` is this run back at its start.
    pub open spec fn restarted(self, next: Self) -> bool {
        if self.history().len() == 0 {
            self.unchanged(next)
        } else {
            &&& self.same_run(next)
            &&& next.positions() == self.spec_level().starts()
            &&& next.history().len() == 0
            &&& next.active() == Piece::Green
        }
    }

    /// `change` reports restarting this run: every piece put back on its
    /// starting cell.
    pub open spec fn restart_report(self, change: LevelRunChange) -> bool {
        let level = self.spec_level();
        let positions = self.positions();
        if self.history().len() == 0 {
            change.is_empty()
        } else {
            &&& change.pieces_changed matches Some(PiecesChanged::Moved(moved))
            &&& moved@.len() == positions.len()
            &&& forall|i: int|
                0 <= i < positions.len() ==> #[trigger] moved@[i] == (PieceMoved {
                    piece: piece_at(i),
                    is_active: piece_at(i) == Piece::Green,
                    from: positions[i],
                    from_space: level.space_at(positions[i].x as int, positions[i].y as int),
                    to: level.starts()[i],
                })
            &&& change.num_moves_changed == Some(0u8)
            &&& change.winning_status is None
            &&& !change.at_max_moves
        }
    }

    /// `next` is this run with the turn passed to the next piece.
    pub open spec fn cycled(self, next: Self) -> bool {
        &&& self.same_run(next)
        &&& next.positions() == self.positions()
        &&& next.history() == self.history()
        &&& next.active() == piece_at((self.active().ord() + 1) % (self.positions().len() as int))
    }

    /// `change` reports passing the turn from this run to `next`.
    pub open spec fn cycle_report(self, next: Self, change: LevelRunChange) -> bool {
        &&& change.pieces_changed matches Some(
            PiecesChanged::ActivePiece { active_piece, positions },
        )
        &&& active_piece == next.active()
        &&& positions@ == self.positions()
        &&& change.num_moves_changed is None
        &&& change.winning_status is None
        &&& !change.at_max_moves
    }

    /// A run of the level of `level_info`, every piece on its starting cell.
    pub fn new(level_info: &LevelInfo<'a>) -> (r: Self)
        requires
            level_info.level.wf(),
            level_info.index < u16::MAX,
        ensures
            r.wf(),
            r.spec_level() == *level_info.level,
            r.level_number() == level_info.index + 1,
            r.positions() == level_info.level.starts(),
            r.history().len() == 0,
            r.active() == Piece::Green,
    {
        Self {
            level_num: level_info.user_num(),
            state: LevelRunState::new(level_info.level),
            move_stack: Vec::new(),
            active_piece: Piece::Green,
        }
    }

    pub fn level(&self) -> (r: &'a Level)
        ensures
            *r == self.spec_level(),
    {
        self.state.level()
    }

    pub fn level_num(&self) -> (r: u16)
        ensures
            r == self.level_number(),
    {
        self.level_num
    }

    pub fn piece_positions(&self) -> (r: &PieceMap<Vector<u8>>)
        ensures
            r@ == self.positions(),
    {
        self.state.positions_map()
    }

    pub fn active_piece(&self) -> (r: Piece)
        ensures
            r == self.active(),
    {
        self.active_piece
    }

    /// How many moves the run has made: the length of its history.
    pub fn num_moves(&self) -> (r: u8)
        requires
            self.wf(),
        ensures
            r == self.history().len(),
    {
        self.move_stack.len() as u8
    }

    /// The history holds as many moves as it can.
    pub fn is_at_max_moves(&self) -> (r: bool)
        ensures
            r == (self.history().len() >= MAX_MOVES),
    {
        self.move_stack.len() >= MAX_MOVES
    }

    pub fn is_winning(&self) -> (r: bool)
        requires
            self.wf(),
        ensures
            r == is_winning_at(self.spec_level(), self.positions()),
    {
        self.state.is_winning()
    }

    /// Carries out one action and reports what changed.
    pub fn execute_action(&mut self, action: Action) -> (r: LevelRunChange)
        requires
            old(self).wf(),
        ensures
            final(self).wf(),
            match action {
                Action::Move(d) => old(self).moved(d, *final(self)) && old(self).move_report(
                    d,
                    *final(self),
                    r,
                ),
                Action::ChangeActivePiece => old(self).cycled(*final(self)) && old(
                    self,
                ).cycle_report(*final(self), r),
                Action::UndoMove => old(self).undone(*final(self)) && old(self).undo_report(r),
                Action::Restart => old(self).restarted(*final(self)) && old(self).restart_report(r),
            },
    {
        match action {
            Action::Move(d) => self.attempt_move(d),
            Action::ChangeActivePiece => LevelRunChange {
                pieces_changed: Some(self.change_active_piece()),
                num_moves_changed: None,
                winning_status: None,
                at_max_moves: false,
            },
            Action::UndoMove => self.undo_move(),
            Action::Restart => self.restart(),
        }
    }

    fn attempt_move(&mut self, direction: Direction) -> (r: LevelRunChange)
        requires
            old(self).wf(),
        ensures
            final(self).wf(),
            old(self).moved(direction, *final(self)),
            old(self).move_report(direction, *final(self), r),
    {
        let ghost level = self.spec_level();
        let ghost positions = self.positions();
        let active = self.active_piece;
        let mut new_state = self.state.duplicate();
        let mut moved = new_state.attempt_move(Move::new(active, direction));
        let mut old_active_piece: Option<OldActivePiece> = None;
        let n = self.state.positions_map().num_pieces();
        if moved.is_none() {
            let mut i: usize = 0;
            while i < n && moved.is_none()
                invariant
                    self.wf(),
                    self.spec_level() == level,
                    self.positions() == positions,
                    self.active() == active,
                    n == positions.len(),
                    new_state.wf(),
                    new_state.spec_level() == level,
                    i <= n,
                    slide_length(level, positions, active, direction) == 0,
                    moved is None ==> {
                        &&& new_state.positions() == positions
                        &&& old_active_piece is None
                        &&& first_other_mover(level, positions, active, direction, 0)
                            == first_other_mover(level, positions, active, direction, i as int)
                    },
                    moved matches Some(s) ==> {
                        let p = s.muv.piece;
                        let k = slide_length(level, positions, p, direction);
                        &&& first_other_mover(level, positions, active, direction, 0) == Some(p)
                        &&& p.ord() < n
                        &&& s.muv == Move { piece: p, direction }
                        &&& s.describes(level, s.muv, positions[p.ord()], k)
                        &&& s.wf()
                        &&& s.start() == positions[p.ord()]
                        &&& new_state.positions() == positions.update(
                            p.ord(),
                            shifted(positions[p.ord()], direction, k as int),
                        )
                        &&& old_active_piece == Some(
                            OldActivePiece { piece: active, position: positions[active.ord()] },
                        )
                    },
                decreases n - i,
            {
                let piece = Piece::from_index(i).unwrap();
                if piece != active {
                    moved = new_state.attempt_move(Move::new(piece, direction));
                    if moved.is_some() {
                        old_active_piece = Some(
                            OldActivePiece {
                                piece: active,
                                position: new_state.piece_position(active),
                            },
                        );
                    }
                }
                i += 1;
            }
        }
        let full = self.move_stack.len() >= MAX_MOVES;
        match moved {
            Some(piece_slid) => {
                if full {
                    return LevelRunChange {
                        pieces_changed: None,
                        num_moves_changed: None,
                        winning_status: None,
                        at_max_moves: true,
                    };
                }
                let ghost history = self.history();
                self.move_stack.push(piece_slid.duplicate());
                self.state = new_state;
                self.active_piece = piece_slid.muv.piece;
                proof {
                    assert(self.history().subrange(0, history.len() as int) =~= history);
                    assert forall|i: int| 0 <= i < self.positions().len() implies level.is_open(
                        #[trigger] self.positions()[i].x as int,
                        self.positions()[i].y as int,
                    ) by {}
                    assert forall|i: int| 0 <= i < self.history().len() implies {
                        let s = #[trigger] self.history()[i];
                        &&& s.wf()
                        &&& s.muv.piece.ord() < n
                        &&& level.is_open(s.start().x as int, s.start().y as int)
                    } by {
                        if i < history.len() {
                            assert(self.history()[i] == history[i]);
                        }
                    }
                }
                proof {
                    lemma_other_mover_differs(level, positions, active, direction, 0);
                }
                let num_moves = self.num_moves();
                let winning_status = self.winning_status();
                LevelRunChange {
                    pieces_changed: Some(
                        PiecesChanged::Slid { piece_slid, is_active: true, old_active_piece },
                    ),
                    num_moves_changed: Some(num_moves),
                    winning_status,
                    at_max_moves: self.move_stack.len() >= MAX_MOVES,
                }
            },
            None => LevelRunChange {
                pieces_changed: None,
                num_moves_changed: None,
                winning_status: None,
                at_max_moves: full,
            },
        }
    }

    fn change_active_piece(&mut self) -> (r: PiecesChanged)
        requires
            old(self).wf(),
        ensures
            final(self).wf(),
            old(self).cycled(*final(self)),
            r matches PiecesChanged::ActivePiece { active_piece, positions } && active_piece
                == final(self).active() && positions@ == old(self).positions(),
    {
        let n = self.state.positions_map().num_pieces();
        let new_piece = Piece::from_index((self.active_piece.index() + 1) % n).unwrap();
        self.active_piece = new_piece;
        PiecesChanged::ActivePiece {
            active_piece: new_piece,
            positions: self.state.positions_map().duplicate(),
        }
    }

    /// Takes back the last move: the piece is put back on the cell its
    /// slide started from. Nothing happens where no move was made.
    pub fn undo_move(&mut self) -> (r: LevelRunChange)
        requires
            old(self).wf(),
        ensures
            final(self).wf(),
            old(self).undone(*final(self)),
            old(self).undo_report(r),
    {
        let ghost history = self.history();
        let ghost positions = self.positions();
        match self.move_stack.pop() {
            Some(undo_slide) => {
                proof {
                    assert(undo_slide == history.last());
                    assert(history.last() == history[history.len() - 1]);
                }
                let start = undo_slide.starting_position();
                self.state.teleport_piece(undo_slide.muv.piece, start);
                let is_active = undo_slide.muv.piece == self.active_piece;
                proof {
                    assert forall|i: int| 0 <= i < self.positions().len() implies self.spec_level().is_open(
                        #[trigger] self.positions()[i].x as int,
                        self.positions()[i].y as int,
                    ) by {
                        if i != undo_slide.muv.piece.ord() {
                            assert(self.positions()[i] == positions[i]);
                        }
                    }
                    assert forall|i: int| 0 <= i < self.history().len() implies {
                        let s = #[trigger] self.history()[i];
                        &&& s.wf()
                        &&& s.muv.piece.ord() < positions.len()
                        &&& self.spec_level().is_open(s.start().x as int, s.start().y as int)
                    } by {
                        assert(self.history()[i] == history[i]);
                    }
                }
                let num_moves = self.num_moves();
                LevelRunChange {
                    pieces_changed: Some(
                        PiecesChanged::Slid {
                            piece_slid: undo_slide.invert(),
                            is_active,
                            old_active_piece: None,
                        },
                    ),
                    num_moves_changed: Some(num_moves),
                    winning_status: None,
                    at_max_moves: false,
                }
            },
            None => LevelRunChange::none(),
        }
    }

    /// Puts every piece back on its starting cell, clears the history and
    /// makes the first piece active. Nothing happens where no move was made.
    pub fn restart(&mut self) -> (r: LevelRunChange)
        requires
            old(self).wf(),
        ensures
            final(self).wf(),
            old(self).restarted(*final(self)),
            old(self).restart_report(r),
    {
        if self.move_stack.len() == 0 {
            return LevelRunChange::none();
        }
        let ghost positions = self.positions();
        let level = self.level();
        let old_state = self.state.duplicate();
        self.state = LevelRunState::new(level);
        self.move_stack = Vec::new();
        self.active_piece = Piece::Green;
        let n = old_state.positions_map().num_pieces();
        let mut moved: Vec<PieceMoved> = Vec::new();
        let mut i: usize = 0;
        while i < n
            invariant
                self.wf(),
                *level == self.spec_level(),
                self.positions() == level.starts(),
                old_state.positions() == positions,
                old_state.spec_level() == *level,
                level.wf(),
                n == positions.len(),
                n == level.starts().len(),
                forall|j: int|
                    0 <= j < n ==> level.is_open(
                        #[trigger] positions[j].x as int,
                        positions[j].y as int,
                    ),
                i <= n,
                moved@.len() == i,
                forall|j: int|
                    0 <= j < i ==> #[trigger] moved@[j] == (PieceMoved {
                        piece: piece_at(j),
                        is_active: piece_at(j) == Piece::Green,
                        from: positions[j],
                        from_space: level.space_at(positions[j].x as int, positions[j].y as int),
                        to: level.starts()[j],
                    }),
            decreases n - i,
        {
            let piece = Piece::from_index(i).unwrap();
            let from = old_state.piece_position(piece);
            moved.push(
                PieceMoved {
                    piece,
                    is_active: piece == Piece::Green,
                    from,
                    from_space: level.get_space(from),
                    to: self.state.piece_position(piece),
                },
            );
            i += 1;
        }
        LevelRunChange {
            pieces_changed: Some(PiecesChanged::Moved(moved)),
            num_moves_changed: Some(0),
            winning_status: None,
            at_max_moves: false,
        }
    }

    /// What the run has earned where it is winning.
    pub fn winning_status(&self) -> (r: Option<LevelStatus>)
        requires
            self.wf(),
        ensures
            reports_status(self.spec_level(), self.positions(), self.history(), r),
            r matches Some(LevelStatus::Optimal(moves)) ==> moves@.len() <= crate::MAX_OPTIMAL_MOVES,
    {
        if !self.state.is_winning() {
            return None;
        }
        let rating = LevelRating::new(self.level().optimal_moves(), self.num_moves());
        if rating.is_optimal() {
            let mut moves: Vec<Move> = Vec::new();
            let mut i: usize = 0;
            while i < self.move_stack.len()
                invariant
                    i <= self.history().len(),
                    moves@ == moves_of(self.history()).subrange(0, i as int),
                decreases self.history().len() - i,
            {
                moves.push(self.move_stack[i].muv);
                i += 1;
                assert(moves@ =~= moves_of(self.history()).subrange(0, i as int));
            }
            assert(moves@ =~= moves_of(self.history()));
            Some(LevelStatus::Optimal(moves))
        } else {
            Some(LevelStatus::Complete(rating))
        }
    }
}


/// Taking back a move that went through puts every piece back on the cell
/// it held before that move, and leaves the history as it was before it.
pub proof fn lemma_undo_inverts_move<'a>(
    before: LevelRun<'a>,
    d: Direction,
    after: LevelRun<'a>,
    undone: LevelRun<'a>,
)
    requires
        before.wf(),
        before.moved(d, after),
        after.history().len() == before.history().len() + 1,
        after.undone(undone),
    ensures
        undone.positions() == before.positions(),
        undone.history() == before.history(),
        undone.same_run(before),
{
    let level = before.spec_level();
    let positions = before.positions();
    let p = mover(level, positions, before.active(), d).unwrap();
    let n = slide_length(level, positions, p, d);
    let from = positions[p.ord()];
    let s = after.history().last();
    lemma_other_mover_differs(level, positions, before.active(), d, 0);
    lemma_mover_in_range(level, positions, before.active(), d, 0);
    lemma_slide_maximal(level, positions, from, d);
    lemma_described_ends(s, level, Move { piece: p, direction: d }, from, n);
    assert(undone.positions() =~= positions);
    assert(after.history().drop_last() =~= after.history().subrange(0, before.history().len() as int));
}


/// Draws a level run.
pub trait LevelRunRenderer {
    fn draw_space(&mut self, position: Vector<u8>, space: Space);

    fn draw_piece(&mut self, position: Vector<u8>, piece: Piece, is_active: bool);

    fn slide_piece(&mut self, piece_slid: &PieceSlid, is_active: bool);

    fn update_num_moves(&mut self, num_moves: u8, at_maximum: bool);

    fn update_constants(&mut self, level_num: u16, goal: u8);

    fn notify_win(&mut self, level_status: LevelStatus);
}

impl<'a> LevelRun<'a> {
    /// Draws the whole run: the terrain, the pieces, the counters and, where
    /// the run is won, what it earned.
    pub fn render<R: LevelRunRenderer>(&self, renderer: &mut R)
        requires
            self.wf(),
    {
        let level = self.level();
        let cells = level.all_positions();
        let mut k: usize = 0;
        while k < cells.len()
            invariant
                self.wf(),
                *level == self.spec_level(),
                cells@.len() == level.width() * level.height(),
                forall|j: int|
                    0 <= j < cells@.len() ==> #[trigger] cells@[j] == crate::cell_of_index(
                        level.width(),
                        j,
                    ),
            decreases cells@.len() - k,
        {
            proof {
                lemma_index_in_grid(level.width(), level.height(), k as int);
            }
            let position = cells[k];
            renderer.draw_space(position, level.get_space(position));
            k += 1;
        }
        let pieces = level.all_pieces();
        let mut i: usize = 0;
        while i < pieces.len()
            invariant
                self.wf(),
                *level == self.spec_level(),
                pieces@.len() == self.positions().len(),
                forall|j: int| 0 <= j < pieces@.len() ==> #[trigger] pieces@[j] == piece_at(j),
            decreases pieces@.len() - i,
        {
            let piece = pieces[i];
            renderer.draw_piece(self.state.piece_position(piece), piece, piece == self.active_piece);
            i += 1;
        }
        renderer.update_num_moves(self.num_moves(), self.is_at_max_moves());
        renderer.update_constants(self.level_num, level.optimal_moves());
        if let Some(status) = self.winning_status() {
            renderer.notify_win(status);
        }
    }
}

/// The index `k` of a grid names a cell on it.
proof fn lemma_index_in_grid(width: int, height: int, k: int)
    requires
        0 < width,
        0 <= k < width * height,
    ensures
        0 <= k % width < width,
        0 <= k / width < height,
{
    vstd::arithmetic::div_mod::lemma_div_pos_is_pos(k, width);
    vstd::arithmetic::div_mod::lemma_mod_pos_bound(k, width);
    vstd::arithmetic::div_mod::lemma_fundamental_div_mod(k, width);
    let q = k / width;
    assert(q < height) by (nonlinear_arith)
        requires
            k == width * q + k % width,
            0 <= k % width,
            k < width * height,
            0 < width,
    ;
}

impl PiecesChanged {
    /// Redraws the pieces that changed.
    pub fn render<R: LevelRunRenderer>(&self, renderer: &mut R)
        requires
            self matches PiecesChanged::ActivePiece { positions, .. } ==> positions@.len()
                <= crate::NUM_PIECES,
    {
        match self {
            PiecesChanged::Slid { piece_slid, is_active, old_active_piece } => {
                if let Some(oap) = old_active_piece {
                    renderer.draw_piece(oap.position, oap.piece, false);
                }
                renderer.slide_piece(piece_slid, *is_active);
            },
            PiecesChanged::Moved(moved) => {
                let mut i: usize = 0;
                while i < moved.len()
                    decreases moved@.len() - i,
                {
                    renderer.draw_space(moved[i].from, moved[i].from_space);
                    i += 1;
                }
                let mut i: usize = 0;
                while i < moved.len()
                    decreases moved@.len() - i,
                {
                    renderer.draw_piece(moved[i].to, moved[i].piece, moved[i].is_active);
                    i += 1;
                }
            },
            PiecesChanged::ActivePiece { active_piece, positions } => {
                let pieces = positions.pieces();
                let mut i: usize = 0;
                while i < pieces.len()
                    invariant
                        pieces@.len() == positions@.len(),
                        forall|j: int| 0 <= j < pieces@.len() ==> #[trigger] pieces@[j] == piece_at(j),
                    decreases pieces@.len() - i,
                {
                    let piece = pieces[i];
                    renderer.draw_piece(positions.get(piece), piece, piece == *active_piece);
                    i += 1;
                }
            },
        }
    }
}

impl LevelRunChange {
    /// Redraws what changed.
    pub fn render<R: LevelRunRenderer>(&self, renderer: &mut R)
        requires
            self.pieces_changed matches Some(PiecesChanged::ActivePiece { positions, .. })
                ==> positions@.len() <= crate::NUM_PIECES,
    {
        if let Some(pc) = &self.pieces_changed {
            pc.render(renderer);
        }
        if let Some(n) = self.num_moves_changed {
            renderer.update_num_moves(n, self.at_max_moves);
        }
        if let Some(status) = &self.winning_status {
            renderer.notify_win(status.duplicate());
        }
    }
}

} // verus!
