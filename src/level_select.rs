//! Browsing the catalogue: the best status reached on each level, filters
//! over it, and a fixed-width scrolling window over the levels that pass.
use vstd::prelude::*;

use crate::level_run::Move;
use crate::{BufferedRenderer, Level, LevelRating};

verus! {

/// The best result reached on one level.
#[derive(Debug, Clone)]
pub enum LevelStatus {
    Incomplete,
    Complete(LevelRating),
    /// Solved in par; holds the moves of that solution.
    Optimal(Vec<Move>),
}

impl LevelStatus {
    /// The place of the status in the order of statuses: incomplete, then
    /// complete by rating, then optimal.
    pub open spec fn rank(self) -> int {
        match self {
            LevelStatus::Incomplete => 0,
            LevelStatus::Complete(r) => 1 + r.stars(),
            LevelStatus::Optimal(_) => 257,
        }
    }

    pub open spec fn spec_rating(self) -> int {
        match self {
            LevelStatus::Incomplete => 0,
            LevelStatus::Complete(r) => r.stars() as int,
            LevelStatus::Optimal(_) => LevelRating::MAX_STARS as int,
        }
    }

    pub open spec fn spec_is_complete(self) -> bool {
        !(self is Incomplete)
    }

    pub fn rating(&self) -> (r: LevelRating)
        ensures
            r.stars() == self.spec_rating(),
    {
        match self {
            LevelStatus::Incomplete => LevelRating::incomplete(),
            LevelStatus::Complete(r) => *r,
            LevelStatus::Optimal(_) => LevelRating::maximum_possible(),
        }
    }

    pub fn is_complete(&self) -> (r: bool)
        ensures
            r == self.spec_is_complete(),
    {
        match self {
            LevelStatus::Incomplete => false,
            LevelStatus::Complete(_) => true,
            LevelStatus::Optimal(_) => true,
        }
    }

    /// A copy of this status.
    pub fn duplicate(&self) -> (r: LevelStatus)
        ensures
            r.rank() == self.rank(),
            r.spec_rating() == self.spec_rating(),
            self matches LevelStatus::Optimal(moves) ==> (r matches LevelStatus::Optimal(copy)
                && copy@ == moves@),
    {
        match self {
            LevelStatus::Incomplete => LevelStatus::Incomplete,
            LevelStatus::Complete(r) => LevelStatus::Complete(*r),
            LevelStatus::Optimal(moves) => LevelStatus::Optimal(crate::copied(moves.as_slice())),
        }
    }

    /// This status ranks strictly above `other`.
    pub fn is_better_than(&self, other: &LevelStatus) -> (r: bool)
        ensures
            r == (self.rank() > other.rank()),
    {
        match (self, other) {
            (LevelStatus::Incomplete, _) => false,
            (LevelStatus::Complete(_), LevelStatus::Incomplete) => true,
            (LevelStatus::Complete(a), LevelStatus::Complete(b)) => a.num_stars() > b.num_stars(),
            (LevelStatus::Complete(_), LevelStatus::Optimal(_)) => false,
            (LevelStatus::Optimal(_), LevelStatus::Optimal(_)) => false,
            (LevelStatus::Optimal(_), _) => true,
        }
    }

    pub fn compare(&self, other: &LevelStatus) -> (r: core::cmp::Ordering)
        ensures
            r == ordering_of(self.rank(), other.rank()),
    {
        if self.is_better_than(other) {
            core::cmp::Ordering::Greater
        } else if other.is_better_than(self) {
            core::cmp::Ordering::Less
        } else {
            core::cmp::Ordering::Equal
        }
    }
}

/// How two ranks compare.
pub open spec fn ordering_of(a: int, b: int) -> core::cmp::Ordering {
    if a < b {
        core::cmp::Ordering::Less
    } else if a > b {
        core::cmp::Ordering::Greater
    } else {
        core::cmp::Ordering::Equal
    }
}

impl PartialEq for LevelStatus {
    fn eq(&self, other: &LevelStatus) -> (r: bool) {
        !self.is_better_than(other) && !other.is_better_than(self)
    }
}

impl vstd::std_specs::cmp::PartialEqSpecImpl for LevelStatus {
    open spec fn obeys_eq_spec() -> bool {
        true
    }

    open spec fn eq_spec(&self, other: &LevelStatus) -> bool {
        self.rank() == other.rank()
    }
}

impl Eq for LevelStatus {

}

impl PartialOrd for LevelStatus {
    fn partial_cmp(&self, other: &LevelStatus) -> (r: Option<core::cmp::Ordering>) {
        Some(self.compare(other))
    }
}

impl vstd::std_specs::cmp::PartialOrdSpecImpl for LevelStatus {
    open spec fn obeys_partial_cmp_spec() -> bool {
        true
    }

    open spec fn partial_cmp_spec(&self, other: &LevelStatus) -> Option<core::cmp::Ordering> {
        Some(ordering_of(self.rank(), other.rank()))
    }
}

/// A predicate over a level's status that narrows the browsable list.
#[derive(Debug, Clone, Copy, PartialEq, Eq, Structural, Hash)]
pub enum Filter {
    All,
    Incomplete,
    PartiallyComplete,
    Optimal,
}

impl Filter {
    /// The filter's place in the cycle of filters.
    pub open spec fn ord(self) -> int {
        match self {
            Filter::All => 0,
            Filter::Incomplete => 1,
            Filter::PartiallyComplete => 2,
            Filter::Optimal => 3,
        }
    }

    pub open spec fn spec_passes(self, status: LevelStatus) -> bool {
        match self {
            Filter::All => true,
            Filter::Incomplete => !status.spec_is_complete(),
            Filter::PartiallyComplete => status.spec_is_complete() && status.spec_rating()
                != LevelRating::MAX_STARS,
            Filter::Optimal => status.spec_rating() == LevelRating::MAX_STARS,
        }
    }

    pub fn index(&self) -> (r: usize)
        ensures
            r == self.ord(),
    {
        match self {
            Filter::All => 0,
            Filter::Incomplete => 1,
            Filter::PartiallyComplete => 2,
            Filter::Optimal => 3,
        }
    }

    pub fn next(&self) -> (r: Self)
        ensures
            r.ord() == (self.ord() + 1) % 4,
    {
        match self {
            Filter::All => Self::Incomplete,
            Filter::Incomplete => Self::PartiallyComplete,
            Filter::PartiallyComplete => Self::Optimal,
            Filter::Optimal => Self::All,
        }
    }

    pub fn previous(&self) -> (r: Self)
        ensures
            r.ord() == (self.ord() + 3) % 4,
    {
        match self {
            Filter::All => Self::Optimal,
            Filter::Incomplete => Self::All,
            Filter::PartiallyComplete => Self::Incomplete,
            Filter::Optimal => Self::PartiallyComplete,
        }
    }

    pub fn passes(&self, level_status: &LevelStatus) -> (r: bool)
        ensures
            r == self.spec_passes(*level_status),
    {
        match self {
            Filter::All => true,
            Filter::Incomplete => !level_status.is_complete(),
            Filter::PartiallyComplete => {
                level_status.is_complete() && !level_status.rating().is_optimal()
            },
            Filter::Optimal => level_status.rating().is_optimal(),
        }
    }
}

/// What the selector tells of one level.
#[derive(Debug, Clone)]
pub struct LevelInfo<'a> {
    pub index: usize,
    pub rating: LevelRating,
    pub level: &'a Level,
}

impl<'a> LevelInfo<'a> {
    /// The level's number as shown to the player, counted from one.
    pub fn user_num(&self) -> (r: u16)
        requires
            self.index < u16::MAX,
        ensures
            r == self.index + 1,
    {
        self.index as u16 + 1
    }
}


/// The most levels a catalogue may hold: level numbers are 16-bit.
pub const MAX_LEVELS: usize = 65535;

/// How many levels are open to a player who has not completed any.
pub const INITIALLY_UNLOCKED: usize = 10;

/// How many of the statuses are complete.
pub open spec fn count_complete(statuses: Seq<LevelStatus>) -> nat
    decreases statuses.len(),
{
    if statuses.len() == 0 {
        0
    } else {
        count_complete(statuses.drop_last()) + if statuses.last().spec_is_complete() {
            1nat
        } else {
            0nat
        }
    }
}

/// The best status reached on each level, by level index.
#[derive(Debug)]
pub struct LevelProgress {
    level_statuses: Vec<LevelStatus>,
}

impl LevelProgress {
    /// The statuses stored so far; levels past the end are incomplete.
    pub closed spec fn statuses(self) -> Seq<LevelStatus> {
        self.level_statuses@
    }

    /// The status of level `i`.
    pub open spec fn status_of(self, i: int) -> LevelStatus {
        if 0 <= i < self.statuses().len() {
            self.statuses()[i]
        } else {
            LevelStatus::Incomplete
        }
    }

    /// How many of the first `num_levels` levels are open to the player:
    /// ten more than the completed ones.
    pub open spec fn unlocked(self, num_levels: int) -> int {
        let n = count_complete(self.statuses()) + INITIALLY_UNLOCKED;
        if num_levels < n {
            num_levels
        } else {
            n
        }
    }

    /// The indices below `k` of the levels whose status passes `filter`.
    pub open spec fn passing_below(self, filter: Filter, k: int) -> Seq<usize>
        decreases k,
    {
        if k <= 0 {
            Seq::empty()
        } else if filter.spec_passes(self.status_of(k - 1)) {
            self.passing_below(filter, k - 1).push((k - 1) as usize)
        } else {
            self.passing_below(filter, k - 1)
        }
    }

    /// The unlocked levels of a catalogue of `num_levels` levels that pass
    /// `filter`, in catalogue order.
    pub open spec fn filtered(self, filter: Filter, num_levels: int) -> Seq<usize> {
        self.passing_below(filter, self.unlocked(num_levels))
    }

    /// `next` and `updated` are the outcome of offering `status` for level
    /// `idx`: it is stored exactly when it ranks above the stored one.
    pub open spec fn updated(self, idx: int, status: LevelStatus, next: Self, updated: bool) -> bool {
        &&& updated == (status.rank() > self.status_of(idx).rank())
        &&& next.status_of(idx) == if updated {
            status
        } else {
            self.status_of(idx)
        }
        &&& forall|j: int| j != idx ==> #[trigger] next.status_of(j) == self.status_of(j)
    }

    /// No level completed.
    pub fn new() -> (r: Self)
        ensures
            r.statuses().len() == 0,
    {
        LevelProgress { level_statuses: Vec::new() }
    }

    /// The progress with these statuses, by level index.
    pub fn from_statuses(level_statuses: Vec<LevelStatus>) -> (r: Self)
        ensures
            r.statuses() == level_statuses@,
    {
        LevelProgress { level_statuses }
    }

    pub fn level_statuses(&self) -> (r: &[LevelStatus])
        ensures
            r@ == self.statuses(),
    {
        self.level_statuses.as_slice()
    }

    /// The index, rating and level of level `level_idx` of `levels`.
    pub fn level_info<'a>(&self, levels: &'a [Level], level_idx: usize) -> (r: LevelInfo<'a>)
        requires
            level_idx < levels@.len(),
        ensures
            r.index == level_idx,
            r.rating.stars() == self.status_of(level_idx as int).spec_rating(),
            *r.level == levels@[level_idx as int],
    {
        let rating = if level_idx < self.level_statuses.len() {
            self.level_statuses[level_idx].rating()
        } else {
            LevelRating::incomplete()
        };
        LevelInfo { index: level_idx, rating, level: &levels[level_idx] }
    }

    fn num_complete(&self) -> (r: usize)
        ensures
            r == count_complete(self.statuses()),
    {
        let mut count: usize = 0;
        let mut i: usize = 0;
        while i < self.level_statuses.len()
            invariant
                i <= self.statuses().len(),
                count == count_complete(self.statuses().subrange(0, i as int)),
                count <= i,
            decreases self.statuses().len() - i,
        {
            proof {
                assert(self.statuses().subrange(0, i + 1).drop_last() =~= self.statuses().subrange(
                    0,
                    i as int,
                ));
            }
            if self.level_statuses[i].is_complete() {
                count += 1;
            }
            i += 1;
        }
        proof {
            assert(self.statuses().subrange(0, i as int) =~= self.statuses());
        }
        count
    }

    /// How many of the `num_levels` levels of the catalogue the player may
    /// choose from.
    pub fn num_unlocked_levels(&self, num_levels: usize) -> (r: usize)
        ensures
            r == self.unlocked(num_levels as int),
    {
        let complete = self.num_complete();
        if complete >= num_levels || num_levels - complete <= INITIALLY_UNLOCKED {
            num_levels
        } else {
            complete + INITIALLY_UNLOCKED
        }
    }

    pub fn num_locked_levels(&self, num_levels: usize) -> (r: usize)
        ensures
            r == num_levels - self.unlocked(num_levels as int),
    {
        num_levels - self.num_unlocked_levels(num_levels)
    }

    /// Stores `new_status` for level `level_idx` where it is better than
    /// the stored one, and says whether it did.
    pub fn attempt_status_update(&mut self, level_idx: usize, new_status: LevelStatus) -> (r: bool)
        requires
            level_idx < MAX_LEVELS,
        ensures
            old(self).updated(level_idx as int, new_status, *final(self), r),
            !r ==> *final(self) == *old(self),
            r ==> final(self).statuses().len() == if level_idx < old(self).statuses().len() {
                old(self).statuses().len() as int
            } else {
                level_idx + 1
            },
    {
        let ghost before = *self;
        let better = if level_idx < self.level_statuses.len() {
            new_status.is_better_than(&self.level_statuses[level_idx])
        } else {
            new_status.is_better_than(&LevelStatus::Incomplete)
        };
        if !better {
            return false;
        }
        if self.level_statuses.len() <= level_idx {
            while self.level_statuses.len() <= level_idx
                invariant
                    level_idx < MAX_LEVELS,
                    before.statuses().len() <= self.statuses().len() <= level_idx + 1,
                    self.statuses().subrange(0, before.statuses().len() as int) == before.statuses(),
                    forall|j: int|
                        before.statuses().len() <= j < self.statuses().len() ==> (
                        #[trigger] self.statuses()[j]) is Incomplete,
                decreases level_idx + 1 - self.statuses().len(),
            {
                let ghost prior = self.statuses();
                self.level_statuses.push(LevelStatus::Incomplete);
                proof {
                    assert(self.statuses().subrange(0, before.statuses().len() as int)
                        =~= prior.subrange(0, before.statuses().len() as int));
                }
            }
        }
        let ghost padded = *self;
        assert forall|j: int| #[trigger] padded.status_of(j) == before.status_of(j) by {
            if 0 <= j < before.statuses().len() {
                assert(padded.statuses()[j] == padded.statuses().subrange(
                    0,
                    before.statuses().len() as int,
                )[j]);
            }
        }
        self.level_statuses.set(level_idx, new_status);
        assert forall|j: int| j != level_idx implies #[trigger] self.status_of(j)
            == padded.status_of(j) by {}
        true
    }

    /// The indices of the unlocked levels that pass `filter`, in order.
    pub fn filtered_indices(&self, filter: Filter, num_levels: usize) -> (r: Vec<usize>)
        ensures
            r@ == self.filtered(filter, num_levels as int),
    {
        let unlocked = self.num_unlocked_levels(num_levels);
        let mut r: Vec<usize> = Vec::new();
        let mut i: usize = 0;
        while i < unlocked
            invariant
                unlocked == self.unlocked(num_levels as int),
                i <= unlocked,
                r@ == self.passing_below(filter, i as int),
            decreases unlocked - i,
        {
            let passes = if i < self.level_statuses.len() {
                filter.passes(&self.level_statuses[i])
            } else {
                filter.passes(&LevelStatus::Incomplete)
            };
            if passes {
                r.push(i);
            }
            i += 1;
        }
        r
    }
}

/// Offering a status changes at most the level it is offered for, and only
/// to a status that ranks higher; offering again a status that ranks no
/// higher changes nothing and reports no update.
pub proof fn lemma_progress_monotonic(
    before: LevelProgress,
    idx: int,
    first: LevelStatus,
    once: LevelProgress,
    first_updated: bool,
    second: LevelStatus,
    twice: LevelProgress,
    second_updated: bool,
)
    requires
        before.updated(idx, first, once, first_updated),
        once.updated(idx, second, twice, second_updated),
        second.rank() <= first.rank(),
    ensures
        forall|j: int|
            #[trigger] once.status_of(j) == before.status_of(j) || (j == idx && once.status_of(j).rank()
                > before.status_of(j).rank()),
        once.status_of(idx).rank() >= first.rank(),
        !second_updated,
        forall|j: int| #[trigger] twice.status_of(j) == once.status_of(j),
{
    assert forall|j: int| #[trigger] twice.status_of(j) == once.status_of(j) by {
        if j != idx {
            assert(twice.status_of(j) == once.status_of(j));
        }
    }
}


/// The visible slice of a list: the index of its first visible entry and
/// the index of the highlighted entry, both counted in the whole list.
#[derive(Debug, Clone, Copy, PartialEq, Eq, Structural)]
pub struct WindowPosition {
    pub top_idx: usize,
    pub cursor_idx: usize,
}

impl WindowPosition {
    pub fn new(top_idx: usize, cursor_idx: usize) -> (r: Self)
        ensures
            r.top_idx == top_idx,
            r.cursor_idx == cursor_idx,
    {
        WindowPosition { top_idx, cursor_idx }
    }

    /// The cursor's slot within the window.
    pub fn cursor_window_idx(&self) -> (r: usize)
        requires
            self.top_idx <= self.cursor_idx,
        ensures
            r == self.cursor_idx - self.top_idx,
    {
        self.cursor_idx - self.top_idx
    }
}

impl Default for WindowPosition {
    fn default() -> (r: Self)
        ensures
            r.top_idx == 0 && r.cursor_idx == 0,
    {
        WindowPosition { top_idx: 0, cursor_idx: 0 }
    }
}

/// What a window operation changed.
#[derive(Debug, Clone, Copy, PartialEq, Eq, Structural)]
pub enum WindowChange {
    Unchanged,
    /// The window shifted: every slot may show another entry.
    Window,
    /// Only the highlight moved.
    CursorOnly,
}

/// How the window changed from `old` to `new`.
pub open spec fn change_between(old: WindowPosition, new: WindowPosition) -> WindowChange {
    if old.top_idx != new.top_idx {
        WindowChange::Window
    } else if old.cursor_idx != new.cursor_idx {
        WindowChange::CursorOnly
    } else {
        WindowChange::Unchanged
    }
}

impl WindowChange {
    pub fn any_change(&self) -> (r: bool)
        ensures
            r == !(self is Unchanged),
    {
        match self {
            WindowChange::Unchanged => false,
            _ => true,
        }
    }

    pub fn compare(old: &WindowPosition, new: &WindowPosition) -> (r: Self)
        ensures
            r == change_between(*old, *new),
    {
        if old.top_idx != new.top_idx {
            Self::Window
        } else if old.cursor_idx != new.cursor_idx {
            Self::CursorOnly
        } else {
            Self::Unchanged
        }
    }
}

impl Default for WindowChange {
    fn default() -> (r: Self)
        ensures
            r is Unchanged,
    {
        WindowChange::Unchanged
    }
}

/// The way a cursor or a page moves through a list.
#[derive(Debug, Clone, Copy, PartialEq, Eq, Structural)]
pub enum Direction {
    Previous,
    Next,
}

/// One visible slot of a window.
#[derive(Debug, Clone, Copy, PartialEq, Eq, Structural)]
pub struct WindowItem<T> {
    pub is_cursor: bool,
    pub item: T,
}

/// `a - b`, or zero where `b` is larger.
pub open spec fn saturating_diff(a: int, b: int) -> int {
    if a >= b {
        a - b
    } else {
        0
    }
}

/// `a + b`, or the largest `usize` where the sum exceeds it.
pub open spec fn saturating_sum(a: int, b: int) -> int {
    if a + b <= usize::MAX {
        a + b
    } else {
        usize::MAX as int
    }
}

/// A list of at most `C` entries seen through a window of `W` slots, with
/// a cursor on one visible entry.
#[derive(Debug)]
pub struct WindowVec<T, const C: usize, const W: usize> {
    vec: Vec<T>,
    position: WindowPosition,
}

impl<T, const C: usize, const W: usize> WindowVec<T, C, W> {
    pub closed spec fn items(self) -> Seq<T> {
        self.vec@
    }

    pub closed spec fn pos(self) -> WindowPosition {
        self.position
    }

    /// A position is valid for a list of `len` entries: the window starts
    /// no later than it must to stay full, and the cursor is on a visible
    /// entry of the list.
    pub open spec fn valid_position(p: WindowPosition, len: int) -> bool {
        &&& p.top_idx <= saturating_diff(len, W as int)
        &&& p.top_idx <= p.cursor_idx <= p.top_idx + W - 1
        &&& p.cursor_idx < len
    }

    pub open spec fn wf(self) -> bool {
        &&& W >= 1
        &&& self.items().len() <= C
        &&& self.items().len() > 0 ==> Self::valid_position(self.pos(), self.items().len() as int)
    }

    /// The position nearest to `p` that is valid for `len` entries; the
    /// window wins where it and the cursor disagree.
    pub open spec fn clipped(p: WindowPosition, len: int) -> WindowPosition {
        let top = if p.top_idx <= saturating_diff(len, W as int) {
            p.top_idx as int
        } else {
            saturating_diff(len, W as int)
        };
        let c1 = if p.cursor_idx >= top {
            p.cursor_idx as int
        } else {
            top
        };
        let c2 = if c1 <= top + W - 1 {
            c1
        } else {
            top + W - 1
        };
        let c3 = if c2 <= len - 1 {
            c2
        } else {
            len - 1
        };
        WindowPosition { top_idx: top as usize, cursor_idx: c3 as usize }
    }

    /// The position after the cursor steps once in `direction`, the window
    /// shifting by one where the cursor would leave it.
    pub open spec fn stepped(p: WindowPosition, len: int, direction: Direction) -> WindowPosition {
        let cursor = match direction {
            Direction::Previous => saturating_diff(p.cursor_idx as int, 1),
            Direction::Next => if p.cursor_idx + 1 <= len - 1 {
                p.cursor_idx + 1
            } else {
                len - 1
            },
        };
        let top = if cursor < p.top_idx {
            cursor
        } else if cursor > p.top_idx + W - 1 {
            saturating_diff(cursor, W - 1)
        } else {
            p.top_idx as int
        };
        Self::clipped(WindowPosition { top_idx: top as usize, cursor_idx: cursor as usize }, len)
    }

    /// The position after the window shifts by a page in `direction`; where
    /// the list's end allows only a shorter shift, the cursor moves by that
    /// shift too.
    pub open spec fn paged(p: WindowPosition, len: int, direction: Direction) -> WindowPosition {
        let target = match direction {
            Direction::Previous => WindowPosition {
                top_idx: saturating_diff(p.top_idx as int, W as int) as usize,
                cursor_idx: saturating_diff(p.cursor_idx as int, W as int) as usize,
            },
            Direction::Next => WindowPosition {
                top_idx: saturating_sum(p.top_idx as int, W as int) as usize,
                cursor_idx: saturating_sum(p.cursor_idx as int, W as int) as usize,
            },
        };
        let clip = Self::clipped(target, len);
        let shift = match direction {
            Direction::Previous => p.top_idx - clip.top_idx,
            Direction::Next => clip.top_idx - p.top_idx,
        };
        if 0 < shift < W {
            WindowPosition {
                top_idx: clip.top_idx,
                cursor_idx: match direction {
                    Direction::Previous => (p.cursor_idx - shift) as usize,
                    Direction::Next => (p.cursor_idx + shift) as usize,
                },
            }
        } else {
            clip
        }
    }

    /// An empty list.
    pub fn new() -> (r: Self)
        ensures
            r.items().len() == 0,
            r.pos() == (WindowPosition { top_idx: 0, cursor_idx: 0 }),
    {
        WindowVec { vec: Vec::new(), position: WindowPosition::new(0, 0) }
    }

    /// The list `items`, seen from its start.
    pub fn from_vec(items: Vec<T>) -> (r: Self)
        requires
            items@.len() <= C,
            W >= 1,
        ensures
            r.wf(),
            r.items() == items@,
            r.pos() == (WindowPosition { top_idx: 0, cursor_idx: 0 }),
    {
        WindowVec { vec: items, position: WindowPosition::new(0, 0) }
    }

    pub fn len(&self) -> (r: usize)
        ensures
            r == self.items().len(),
    {
        self.vec.len()
    }

    /// The position, where the list is not empty.
    pub fn position(&self) -> (r: Option<WindowPosition>)
        ensures
            self.items().len() == 0 ==> r is None,
            self.items().len() > 0 ==> r == Some(self.pos()),
    {
        if self.vec.len() == 0 {
            None
        } else {
            Some(self.position)
        }
    }

    /// Replaces the list by `items` and moves to the valid position nearest
    /// to `position`.
    pub fn refill(&mut self, items: Vec<T>, position: &WindowPosition)
        requires
            old(self).wf(),
            items@.len() <= C,
        ensures
            final(self).wf(),
            final(self).items() == items@,
            items@.len() > 0 ==> final(self).pos() == Self::clipped(*position, items@.len() as int),
    {
        self.vec = items;
        self.set_position(position);
    }

    /// Moves to the valid position nearest to `position`; nothing happens
    /// to an empty list.
    pub fn set_position(&mut self, position: &WindowPosition) -> (r: WindowChange)
        requires
            W >= 1,
            old(self).items().len() <= C,
        ensures
            final(self).wf(),
            final(self).items() == old(self).items(),
            old(self).items().len() == 0 ==> r is Unchanged && final(self).pos() == old(self).pos(),
            old(self).items().len() > 0 ==> final(self).pos() == Self::clipped(
                *position,
                old(self).items().len() as int,
            ) && r == change_between(old(self).pos(), final(self).pos()),
    {
        if self.vec.len() == 0 {
            WindowChange::Unchanged
        } else {
            let new_position = self.clip_position(position);
            let change = WindowChange::compare(&self.position, &new_position);
            self.position = new_position;
            change
        }
    }

    fn clip_position(&self, position: &WindowPosition) -> (r: WindowPosition)
        requires
            W >= 1,
            self.items().len() > 0,
        ensures
            r == Self::clipped(*position, self.items().len() as int),
            Self::valid_position(r, self.items().len() as int),
    {
        let len = self.vec.len();
        let top_idx = if position.top_idx <= len.saturating_sub(W) {
            position.top_idx
        } else {
            len.saturating_sub(W)
        };
        let mut cursor_idx = position.cursor_idx;
        if cursor_idx < top_idx {
            cursor_idx = top_idx;
        }
        if cursor_idx > top_idx + (W - 1) {
            cursor_idx = top_idx + (W - 1);
        }
        if cursor_idx > len - 1 {
            cursor_idx = len - 1;
        }
        WindowPosition::new(top_idx, cursor_idx)
    }

    /// The highlighted entry, where the list is not empty.
    pub fn cursor_item(&self) -> (r: Option<&T>)
        requires
            self.wf(),
        ensures
            self.items().len() == 0 ==> r is None,
            self.items().len() > 0 ==> r == Some(&self.items()[self.pos().cursor_idx as int]),
    {
        if self.vec.len() == 0 {
            None
        } else {
            Some(&self.vec[self.position.cursor_idx])
        }
    }

    /// Steps the cursor once in `direction`, shifting the window by one
    /// where the cursor would leave it. Nothing happens to an empty list.
    pub fn move_cursor(&mut self, direction: Direction) -> (r: WindowChange)
        requires
            old(self).wf(),
        ensures
            final(self).wf(),
            final(self).items() == old(self).items(),
            old(self).items().len() == 0 ==> r is Unchanged && final(self).pos() == old(self).pos(),
            old(self).items().len() > 0 ==> final(self).pos() == Self::stepped(
                old(self).pos(),
                old(self).items().len() as int,
                direction,
            ) && r == change_between(old(self).pos(), final(self).pos()),
    {
        if self.vec.len() == 0 {
            return WindowChange::Unchanged;
        }
        let position = self.position;
        let len = self.vec.len();
        let new_cursor_idx = match direction {
            Direction::Previous => position.cursor_idx.saturating_sub(1),
            Direction::Next => if position.cursor_idx + 1 <= len - 1 {
                position.cursor_idx + 1
            } else {
                len - 1
            },
        };
        let new_top_idx = if new_cursor_idx < position.top_idx {
            new_cursor_idx
        } else if new_cursor_idx > position.top_idx + (W - 1) {
            new_cursor_idx.saturating_sub(W - 1)
        } else {
            position.top_idx
        };
        self.set_position(&WindowPosition::new(new_top_idx, new_cursor_idx))
    }

    /// Shifts the window by a page in `direction`, as far as the list
    /// allows, and the cursor with it. Nothing happens to an empty list.
    pub fn page_window(&mut self, direction: Direction) -> (r: WindowChange)
        requires
            old(self).wf(),
        ensures
            final(self).wf(),
            final(self).items() == old(self).items(),
            old(self).items().len() == 0 ==> r is Unchanged && final(self).pos() == old(self).pos(),
            old(self).items().len() > 0 ==> final(self).pos() == Self::paged(
                old(self).pos(),
                old(self).items().len() as int,
                direction,
            ) && r == change_between(old(self).pos(), final(self).pos()),
    {
        if self.vec.len() == 0 {
            return WindowChange::Unchanged;
        }
        let position = self.position;
        let len = self.vec.len();
        let target = match direction {
            Direction::Previous => WindowPosition::new(
                position.top_idx.saturating_sub(W),
                position.cursor_idx.saturating_sub(W),
            ),
            Direction::Next => WindowPosition::new(
                position.top_idx.saturating_add(W),
                position.cursor_idx.saturating_add(W),
            ),
        };
        let mut new_position = self.clip_position(&target);
        let shift = match direction {
            Direction::Previous => position.top_idx - new_position.top_idx,
            Direction::Next => new_position.top_idx - position.top_idx,
        };
        if shift > 0 && shift < W {
            new_position.cursor_idx =
            match direction {
                Direction::Previous => position.cursor_idx - shift,
                Direction::Next => position.cursor_idx + shift,
            };
        }
        let change = WindowChange::compare(&position, &new_position);
        self.position = new_position;
        change
    }
}

impl<T, const C: usize, const W: usize> Default for WindowVec<T, C, W> {
    fn default() -> (r: Self)
        ensures
            r.items().len() == 0,
            r.pos() == (WindowPosition { top_idx: 0, cursor_idx: 0 }),
    {
        WindowVec::new()
    }
}

impl<T: Copy, const C: usize, const W: usize> WindowVec<T, C, W> {
    /// The `W` slots of the window, from the top: the entry shown in each,
    /// or `None` past the end of the list.
    pub fn iter(&self) -> (r: Vec<Option<WindowItem<T>>>)
        requires
            self.wf(),
        ensures
            r@.len() == W,
            forall|k: int|
                0 <= k < W ==> #[trigger] r@[k] == if self.items().len() > 0 && self.pos().top_idx + k
                    < self.items().len() {
                    Some(
                        WindowItem {
                            is_cursor: self.pos().top_idx + k == self.pos().cursor_idx,
                            item: self.items()[self.pos().top_idx + k],
                        },
                    )
                } else {
                    None
                },
    {
        let mut r: Vec<Option<WindowItem<T>>> = Vec::new();
        let mut k: usize = 0;
        while k < W
            invariant
                self.wf(),
                k <= W,
                r@.len() == k,
                forall|j: int|
                    0 <= j < k ==> #[trigger] r@[j] == if self.items().len() > 0
                        && self.pos().top_idx + j < self.items().len() {
                        Some(
                            WindowItem {
                                is_cursor: self.pos().top_idx + j == self.pos().cursor_idx,
                                item: self.items()[self.pos().top_idx + j],
                            },
                        )
                    } else {
                        None
                    },
            decreases W - k,
        {
            if self.vec.len() > 0 && k < self.vec.len() - self.position.top_idx {
                let idx = self.position.top_idx + k;
                r.push(
                    Some(WindowItem { is_cursor: idx == self.position.cursor_idx, item: self.vec[idx] }),
                );
            } else {
                r.push(None);
            }
            k += 1;
        }
        r
    }
}


/// Whenever the list is not empty, the cursor lies within the window and
/// both lie within the list.
pub proof fn lemma_window_invariant<'a, const W: usize>(selector: LevelSelector<'a, W>)
    requires
        selector.wf(),
    ensures
        selector.current_position() matches Some(p) ==> {
            &&& p.top_idx <= p.cursor_idx <= p.top_idx + W - 1
            &&& p.top_idx < selector.visible().len()
            &&& p.cursor_idx < selector.visible().len()
        },
        selector.current_position() is None <==> selector.visible().len() == 0,
{
}

/// The entries of `passing_below(filter, k)` are increasing level indices
/// below `k`.
pub proof fn lemma_passing_below_bounds(p: LevelProgress, filter: Filter, k: int)
    ensures
        p.passing_below(filter, k).len() <= if k > 0 {
            k
        } else {
            0
        },
        forall|i: int|
            0 <= i < p.passing_below(filter, k).len() ==> #[trigger] p.passing_below(filter, k)[i]
                < k,
    decreases k,
{
    if k > 0 {
        lemma_passing_below_bounds(p, filter, k - 1);
    }
}

/// What the selector shows in one slot of its window.
#[derive(Debug)]
pub enum LevelSlotInfo<'a> {
    /// A slot past the end of the list.
    Empty(u8),
    Level { level_info: LevelInfo<'a>, position: u8, is_active: bool },
}

/// The filter that lost the highlight and the one that gained it.
#[derive(Debug, Clone, Copy, PartialEq, Eq, Structural)]
pub struct FilterChange {
    pub inactive: Filter,
    pub active: Filter,
}

/// What a selector action changed.
#[derive(Debug)]
pub struct LevelSelectorChange<'a> {
    pub slots_change: Vec<LevelSlotInfo<'a>>,
    pub filter_change: Option<FilterChange>,
    pub num_locked_change: Option<u16>,
    pub active_rating: Option<LevelRating>,
}

/// What the player can do while choosing a level.
#[derive(Debug)]
pub enum Action {
    ChangeActiveLevel(Direction),
    ChangePage(Direction),
    ChangeActiveFilter(Direction),
    /// The highlighted level was finished with this status.
    ActiveLevelCompleted(LevelStatus),
}

/// The number of filters.
pub const NUM_FILTERS: usize = 4;

/// Browses a catalogue of levels through a window of `W` slots over the
/// unlocked levels that pass the active filter, remembering a window
/// position for each filter.
pub struct LevelSelector<'a, const W: usize> {
    level_progress: LevelProgress,
    levels: &'a [Level],
    active_filter: Filter,
    level_indices_window: WindowVec<u16, MAX_LEVELS, W>,
    window_positions: Vec<Option<WindowPosition>>,
}

impl<'a, const W: usize> LevelSelector<'a, W> {
    pub closed spec fn progress(self) -> LevelProgress {
        self.level_progress
    }

    pub closed spec fn catalogue(self) -> Seq<Level> {
        self.levels@
    }

    pub closed spec fn filter(self) -> Filter {
        self.active_filter
    }

    /// The list of level indices and the window over it.
    pub closed spec fn window(self) -> WindowVec<u16, MAX_LEVELS, W> {
        self.level_indices_window
    }

    /// The window position kept for each filter, by filter ordinal.
    pub closed spec fn remembered(self) -> Seq<Option<WindowPosition>> {
        self.window_positions@
    }

    /// The unlocked levels that pass the active filter.
    pub open spec fn visible(self) -> Seq<usize> {
        self.progress().filtered(self.filter(), self.catalogue().len() as int)
    }

    /// The window's position, where the list is not empty.
    pub open spec fn current_position(self) -> Option<WindowPosition> {
        if self.window().items().len() > 0 {
            Some(self.window().pos())
        } else {
            None
        }
    }

    /// The index of the highlighted level, where there is one.
    pub open spec fn active_level(self) -> Option<int> {
        if self.window().items().len() > 0 {
            Some(self.window().items()[self.window().pos().cursor_idx as int] as int)
        } else {
            None
        }
    }

    pub open spec fn wf(self) -> bool {
        &&& 1 <= W <= 255
        &&& self.catalogue().len() <= MAX_LEVELS
        &&& forall|i: int| 0 <= i < self.catalogue().len() ==> (#[trigger] self.catalogue()[i]).wf()
        &&& self.window().wf()
        &&& self.window().items().len() == self.visible().len()
        &&& forall|i: int|
            0 <= i < self.visible().len() ==> #[trigger] self.window().items()[i] as int
                == self.visible()[i]
        &&& self.remembered().len() == NUM_FILTERS
        &&& self.remembered()[self.filter().ord()] == self.current_position()
    }

    /// `info` tells of level `idx` as the progress stands.
    pub open spec fn describes_level(self, info: LevelInfo<'a>, idx: int) -> bool {
        &&& info.index == idx
        &&& info.rating.stars() == self.progress().status_of(idx).spec_rating()
        &&& *info.level == self.catalogue()[idx]
    }

    /// `slot` shows slot `k` of the window.
    pub open spec fn shows_slot(self, slot: LevelSlotInfo<'a>, k: int) -> bool {
        let top = self.window().pos().top_idx;
        let len = self.window().items().len();
        if len > 0 && top + k < len {
            slot matches LevelSlotInfo::Level { level_info, position, is_active } && {
                &&& position == k
                &&& is_active == (top + k == self.window().pos().cursor_idx)
                &&& self.describes_level(level_info, self.window().items()[top + k] as int)
            }
        } else {
            slot matches LevelSlotInfo::Empty(position) && position == k
        }
    }

    /// `slot` shows the highlighted level in its slot.
    pub open spec fn shows_cursor(self, slot: LevelSlotInfo<'a>, active: bool) -> bool {
        slot matches LevelSlotInfo::Level { level_info, position, is_active } && {
            &&& position == self.window().pos().cursor_idx - self.window().pos().top_idx
            &&& is_active == active
            &&& self.describes_level(level_info, self.active_level().unwrap())
        }
    }

    /// `slots` shows the whole window.
    pub open spec fn shows_window(self, slots: Seq<LevelSlotInfo<'a>>) -> bool {
        &&& slots.len() == W
        &&& forall|k: int| 0 <= k < W ==> self.shows_slot(#[trigger] slots[k], k)
    }

    /// `rating` is the rating of the highlighted level, where there is one.
    pub open spec fn reports_rating(self, rating: Option<LevelRating>) -> bool {
        match self.active_level() {
            None => rating is None,
            Some(i) => rating matches Some(r) && r.stars() == self.progress().status_of(
                i,
            ).spec_rating(),
        }
    }

    /// `next` is this selector with its window rebuilt for `filter` over
    /// `progress`, at the position remembered for that filter.
    pub open spec fn rebuilt(self, filter: Filter, progress: LevelProgress, next: Self) -> bool {
        let remembered = self.remembered()[filter.ord()];
        let target = match remembered {
            Some(p) => p,
            None => WindowPosition { top_idx: 0, cursor_idx: 0 },
        };
        &&& next.progress() == progress
        &&& next.filter() == filter
        &&& next.catalogue() == self.catalogue()
        &&& next.window().items().len() > 0 ==> next.window().pos()
            == WindowVec::<u16, MAX_LEVELS, W>::clipped(target, next.window().items().len() as int)
        &&& next.remembered() == self.remembered().update(filter.ord(), next.current_position())
    }

    /// `next` is this selector with only its window moved to `pos`.
    pub open spec fn window_moved(self, pos: WindowPosition, next: Self) -> bool {
        &&& next.progress() == self.progress()
        &&& next.filter() == self.filter()
        &&& next.catalogue() == self.catalogue()
        &&& next.window().items() == self.window().items()
        &&& next.window().pos() == pos
        &&& next.remembered() == self.remembered().update(self.filter().ord(), Some(pos))
    }

    /// The parts that do not depend on the progress are in order.
    pub open spec fn frame(self) -> bool {
        &&& 1 <= W <= 255
        &&& self.catalogue().len() <= MAX_LEVELS
        &&& forall|i: int| 0 <= i < self.catalogue().len() ==> (#[trigger] self.catalogue()[i]).wf()
        &&& self.window().wf()
        &&& self.remembered().len() == NUM_FILTERS
    }

    /// Nothing differs between the two selectors.
    pub open spec fn same_as(self, other: Self) -> bool {
        &&& other.progress() == self.progress()
        &&& other.filter() == self.filter()
        &&& other.catalogue() == self.catalogue()
        &&& other.window().items() == self.window().items()
        &&& other.window().pos() == self.window().pos()
        &&& other.remembered() == self.remembered()
    }

    /// `r` reports moving the window of this selector to `next`.
    pub open spec fn window_report(self, next: Self, r: Option<LevelSelectorChange<'a>>) -> bool {
        match change_between(self.window().pos(), next.window().pos()) {
            WindowChange::Unchanged => r is None,
            WindowChange::Window => r matches Some(c) && {
                &&& next.shows_window(c.slots_change@)
                &&& c.filter_change is None
                &&& c.num_locked_change is None
                &&& next.reports_rating(c.active_rating)
            },
            WindowChange::CursorOnly => r matches Some(c) && {
                &&& c.slots_change@.len() == 2
                &&& self.shows_cursor(c.slots_change@[0], false)
                &&& next.shows_cursor(c.slots_change@[1], true)
                &&& c.filter_change is None
                &&& c.num_locked_change is None
                &&& next.reports_rating(c.active_rating)
            },
        }
    }
}


/// The indices of the unlocked levels that pass `filter`, as 16-bit values.
fn visible_indices(progress: &LevelProgress, filter: Filter, num_levels: usize) -> (r: Vec<u16>)
    requires
        num_levels <= MAX_LEVELS,
    ensures
        r@.len() == progress.filtered(filter, num_levels as int).len(),
        r@.len() <= num_levels,
        forall|i: int|
            0 <= i < r@.len() ==> #[trigger] r@[i] as int == progress.filtered(
                filter,
                num_levels as int,
            )[i],
{
    let indices = progress.filtered_indices(filter, num_levels);
    proof {
        lemma_passing_below_bounds(*progress, filter, progress.unlocked(num_levels as int));
    }
    let mut r: Vec<u16> = Vec::new();
    let mut i: usize = 0;
    while i < indices.len()
        invariant
            num_levels <= MAX_LEVELS,
            indices@ == progress.filtered(filter, num_levels as int),
            indices@.len() <= num_levels,
            forall|j: int| 0 <= j < indices@.len() ==> #[trigger] indices@[j] < num_levels,
            i <= indices@.len(),
            r@.len() == i,
            forall|j: int| 0 <= j < i ==> #[trigger] r@[j] as int == indices@[j],
        decreases indices@.len() - i,
    {
        r.push(indices[i] as u16);
        i += 1;
    }
    r
}

impl<'a, const W: usize> LevelSelector<'a, W> {
    /// A selector over `levels` with the progress `level_progress`, showing
    /// every unlocked level from the start of the list.
    pub fn new(level_progress: LevelProgress, levels: &'a [Level]) -> (r: Self)
        requires
            1 <= W <= 255,
            levels@.len() <= MAX_LEVELS,
            forall|i: int| 0 <= i < levels@.len() ==> (#[trigger] levels@[i]).wf(),
        ensures
            r.wf(),
            r.progress() == level_progress,
            r.catalogue() == levels@,
            r.filter() == Filter::All,
            r.window().pos() == (WindowPosition { top_idx: 0, cursor_idx: 0 }),
    {
        let items = visible_indices(&level_progress, Filter::All, levels.len());
        let level_indices_window: WindowVec<u16, MAX_LEVELS, W> = WindowVec::from_vec(items);
        let mut window_positions: Vec<Option<WindowPosition>> = Vec::new();
        window_positions.push(level_indices_window.position());
        window_positions.push(None);
        window_positions.push(None);
        window_positions.push(None);
        LevelSelector {
            level_progress,
            levels,
            active_filter: Filter::All,
            level_indices_window,
            window_positions,
        }
    }

    pub fn level_progress(&self) -> (r: &LevelProgress)
        ensures
            *r == self.progress(),
    {
        &self.level_progress
    }

    /// Ends the browsing and hands the progress back.
    pub fn into_progress(self) -> (r: LevelProgress)
        ensures
            r == self.progress(),
    {
        self.level_progress
    }

    pub fn active_filter(&self) -> (r: Filter)
        ensures
            r == self.filter(),
    {
        self.active_filter
    }

    /// The window position, where the list is not empty.
    pub fn position(&self) -> (r: Option<WindowPosition>)
        ensures
            r == self.current_position(),
    {
        self.level_indices_window.position()
    }

    fn active_level_idx(&self) -> (r: Option<usize>)
        requires
            self.wf(),
        ensures
            r matches Some(i) ==> self.active_level() == Some(i as int) && i < self.catalogue().len(),
            r is None ==> self.active_level() is None,
    {
        proof {
            lemma_passing_below_bounds(
                self.progress(),
                self.filter(),
                self.progress().unlocked(self.catalogue().len() as int),
            );
        }
        match self.level_indices_window.cursor_item() {
            Some(idx) => Some(*idx as usize),
            None => None,
        }
    }

    /// The highlighted level, where there is one.
    pub fn active_level_info(&self) -> (r: Option<LevelInfo<'a>>)
        requires
            self.wf(),
        ensures
            match self.active_level() {
                None => r is None,
                Some(i) => r matches Some(info) && self.describes_level(info, i),
            },
    {
        match self.active_level_idx() {
            Some(level_idx) => Some(self.level_progress.level_info(self.levels, level_idx)),
            None => None,
        }
    }

    /// The rating of the highlighted level, where there is one.
    pub fn active_rating(&self) -> (r: Option<LevelRating>)
        requires
            self.wf(),
        ensures
            self.reports_rating(r),
    {
        match self.active_level_info() {
            Some(info) => Some(info.rating),
            None => None,
        }
    }

    /// The slot of the highlighted level, where there is one.
    pub fn current_slot(&self, is_active: bool) -> (r: Option<LevelSlotInfo<'a>>)
        requires
            self.wf(),
        ensures
            self.active_level() is None ==> r is None,
            self.active_level() is Some ==> (r matches Some(slot) && self.shows_cursor(
                slot,
                is_active,
            )),
    {
        match self.active_level_info() {
            Some(level_info) => {
                let position = self.level_indices_window.position().unwrap().cursor_window_idx();
                Some(LevelSlotInfo::Level { level_info, position: position as u8, is_active })
            },
            None => None,
        }
    }

    /// Every slot of the window, from the top.
    pub fn window_slots(&self) -> (r: Vec<LevelSlotInfo<'a>>)
        requires
            self.wf(),
        ensures
            self.shows_window(r@),
    {
        proof {
            lemma_passing_below_bounds(
                self.progress(),
                self.filter(),
                self.progress().unlocked(self.catalogue().len() as int),
            );
        }
        let items = self.level_indices_window.iter();
        let mut r: Vec<LevelSlotInfo<'a>> = Vec::new();
        let mut k: usize = 0;
        while k < W
            invariant
                self.wf(),
                items@.len() == W,
                forall|j: int|
                    0 <= j < W ==> #[trigger] items@[j] == if self.window().items().len() > 0
                        && self.window().pos().top_idx + j < self.window().items().len() {
                        Some(
                            WindowItem {
                                is_cursor: self.window().pos().top_idx + j
                                    == self.window().pos().cursor_idx,
                                item: self.window().items()[self.window().pos().top_idx + j],
                            },
                        )
                    } else {
                        None
                    },
                forall|j: int|
                    0 <= j < self.visible().len() ==> #[trigger] self.visible()[j]
                        < self.catalogue().len(),
                k <= W,
                r@.len() == k,
                forall|j: int| 0 <= j < k ==> self.shows_slot(#[trigger] r@[j], j),
            decreases W - k,
        {
            let slot = match items[k] {
                Some(item) => {
                    let level_info = self.level_progress.level_info(self.levels, item.item as usize);
                    LevelSlotInfo::Level {
                        level_info,
                        position: k as u8,
                        is_active: item.is_cursor,
                    }
                },
                None => LevelSlotInfo::Empty(k as u8),
            };
            r.push(slot);
            k += 1;
        }
        r
    }

    /// Carries out one action and reports what changed; `None` where
    /// nothing visible did.
    pub fn execute_action(&mut self, action: Action) -> (r: Option<LevelSelectorChange<'a>>)
        requires
            old(self).wf(),
        ensures
            final(self).wf(),
            final(self).catalogue() == old(self).catalogue(),
            match action {
                Action::ChangeActiveLevel(d) => if old(self).window().items().len() == 0 {
                    r is None && final(self).same_as(*old(self))
                } else {
                    let pos = WindowVec::<u16, MAX_LEVELS, W>::stepped(
                        old(self).window().pos(),
                        old(self).window().items().len() as int,
                        d,
                    );
                    old(self).window_moved(pos, *final(self)) && old(self).window_report(
                        *final(self),
                        r,
                    )
                },
                Action::ChangePage(d) => if old(self).window().items().len() == 0 {
                    r is None && final(self).same_as(*old(self))
                } else {
                    let pos = WindowVec::<u16, MAX_LEVELS, W>::paged(
                        old(self).window().pos(),
                        old(self).window().items().len() as int,
                        d,
                    );
                    old(self).window_moved(pos, *final(self)) && old(self).window_report(
                        *final(self),
                        r,
                    )
                },
                Action::ChangeActiveFilter(d) => {
                    let filter = match d {
                        Direction::Previous => (old(self).filter().ord() + 3) % 4,
                        Direction::Next => (old(self).filter().ord() + 1) % 4,
                    };
                    &&& final(self).filter().ord() == filter
                    &&& old(self).rebuilt(final(self).filter(), old(self).progress(), *final(self))
                    &&& r matches Some(c)
                    &&& final(self).shows_window(c.slots_change@)
                    &&& c.filter_change == Some(
                        FilterChange { inactive: old(self).filter(), active: final(self).filter() },
                    )
                    &&& c.num_locked_change is None
                    &&& final(self).reports_rating(c.active_rating)
                },
                Action::ActiveLevelCompleted(status) => match old(self).active_level() {
                    None => r is None && final(self).same_as(*old(self)),
                    Some(i) => if status.rank() > old(self).progress().status_of(i).rank() {
                        let num_levels = old(self).catalogue().len() as int;
                        &&& old(self).progress().updated(i, status, final(self).progress(), true)
                        &&& old(self).rebuilt(old(self).filter(), final(self).progress(), *final(self))
                        &&& r matches Some(c)
                        &&& c.slots_change@.len() == 1
                        &&& c.slots_change@[0] matches LevelSlotInfo::Level {
                            level_info,
                            position,
                            is_active,
                        }
                        &&& position == old(self).window().pos().cursor_idx - old(
                            self,
                        ).window().pos().top_idx
                        &&& is_active
                        &&& level_info.index == i
                        &&& level_info.rating.stars() == status.spec_rating()
                        &&& *level_info.level == old(self).catalogue()[i]
                        &&& c.filter_change is None
                        &&& c.num_locked_change == Some(
                            (num_levels - final(self).progress().unlocked(num_levels)) as u16,
                        )
                        &&& final(self).reports_rating(c.active_rating)
                    } else {
                        r is None && final(self).same_as(*old(self))
                    },
                },
            },
    {
        match action {
            Action::ChangeActiveLevel(dir) => match self.current_slot(false) {
                Some(old_slot) => {
                    let change = self.level_indices_window.move_cursor(dir);
                    self.window_positions.set(
                        self.active_filter.index(),
                        self.level_indices_window.position(),
                    );
                    self.check_window_change(old_slot, change)
                },
                None => None,
            },
            Action::ChangePage(dir) => match self.current_slot(false) {
                Some(old_slot) => {
                    let change = self.level_indices_window.page_window(dir);
                    self.window_positions.set(
                        self.active_filter.index(),
                        self.level_indices_window.position(),
                    );
                    self.check_window_change(old_slot, change)
                },
                None => None,
            },
            Action::ChangeActiveFilter(dir) => {
                let old_filter = self.active_filter;
                self.active_filter =
                match dir {
                    Direction::Previous => self.active_filter.previous(),
                    Direction::Next => self.active_filter.next(),
                };
                self.rebuild_window();
                Some(
                    LevelSelectorChange {
                        slots_change: self.window_slots(),
                        filter_change: Some(
                            FilterChange { inactive: old_filter, active: self.active_filter },
                        ),
                        num_locked_change: None,
                        active_rating: self.active_rating(),
                    },
                )
            },
            Action::ActiveLevelCompleted(new_status) => {
                let level_idx = match self.active_level_idx() {
                    Some(i) => i,
                    None => {
                        return None;
                    },
                };
                let position = self.level_indices_window.position().unwrap().cursor_window_idx();
                if !self.level_progress.attempt_status_update(level_idx, new_status) {
                    return None;
                }
                let level_info = self.level_progress.level_info(self.levels, level_idx);
                let mut slots_change: Vec<LevelSlotInfo<'a>> = Vec::new();
                slots_change.push(
                    LevelSlotInfo::Level { level_info, position: position as u8, is_active: true },
                );
                self.rebuild_window();
                let num_locked = self.level_progress.num_locked_levels(self.levels.len());
                Some(
                    LevelSelectorChange {
                        slots_change,
                        filter_change: None,
                        num_locked_change: Some(num_locked as u16),
                        active_rating: self.active_rating(),
                    },
                )
            },
        }
    }

    /// Refills the window for the active filter at the position remembered
    /// for it, and remembers where it ended up.
    fn rebuild_window(&mut self)
        requires
            old(self).frame(),
        ensures
            final(self).wf(),
            old(self).rebuilt(old(self).filter(), old(self).progress(), *final(self)),
    {
        let idx = self.active_filter.index();
        let target = match self.window_positions[idx] {
            Some(p) => p,
            None => WindowPosition::new(0, 0),
        };
        let items = visible_indices(&self.level_progress, self.active_filter, self.levels.len());
        self.level_indices_window.refill(items, &target);
        let current = self.level_indices_window.position();
        self.window_positions.set(idx, current);
    }

    /// Reports a move of the window, remembering where it went.
    fn check_window_change(
        &mut self,
        old_active_slot: LevelSlotInfo<'a>,
        window_change: WindowChange,
    ) -> (r: Option<LevelSelectorChange<'a>>)
        requires
            old(self).wf(),
            old(self).window().items().len() > 0,
        ensures
            final(self).wf(),
            final(self).same_as(*old(self)),
            window_change is Unchanged ==> r is None,
            window_change is Window ==> (r matches Some(c) && {
                &&& old(self).shows_window(c.slots_change@)
                &&& c.filter_change is None
                &&& c.num_locked_change is None
                &&& old(self).reports_rating(c.active_rating)
            }),
            window_change is CursorOnly ==> (r matches Some(c) && {
                &&& c.slots_change@.len() == 2
                &&& c.slots_change@[0] == old_active_slot
                &&& old(self).shows_cursor(c.slots_change@[1], true)
                &&& c.filter_change is None
                &&& c.num_locked_change is None
                &&& old(self).reports_rating(c.active_rating)
            }),
    {
        match window_change {
            WindowChange::Unchanged => None,
            WindowChange::Window => Some(
                LevelSelectorChange {
                    slots_change: self.window_slots(),
                    filter_change: None,
                    num_locked_change: None,
                    active_rating: self.active_rating(),
                },
            ),
            WindowChange::CursorOnly => {
                let mut slots_change: Vec<LevelSlotInfo<'a>> = Vec::new();
                slots_change.push(old_active_slot);
                slots_change.push(self.current_slot(true).unwrap());
                Some(
                    LevelSelectorChange {
                        slots_change,
                        filter_change: None,
                        num_locked_change: None,
                        active_rating: self.active_rating(),
                    },
                )
            },
        }
    }
}


/// Draws the level selector.
pub trait LevelSelectRenderer: BufferedRenderer {
    fn draw_level_slot(&mut self, level_slot_info: &LevelSlotInfo);

    fn update_filter(&mut self, filter: Filter, is_active: bool);

    fn update_num_locked(&mut self, num_locked: u16);

    fn update_active_rating(&mut self, rating: Option<LevelRating>);
}

impl<'a, const W: usize> LevelSelector<'a, W> {
    /// Draws the whole selector.
    pub fn render<R: LevelSelectRenderer>(&self, renderer: &mut R)
        requires
            self.wf(),
    {
        let filters = [Filter::All, Filter::Incomplete, Filter::PartiallyComplete, Filter::Optimal];
        let mut i: usize = 0;
        while i < NUM_FILTERS
            decreases NUM_FILTERS - i,
        {
            let filter = filters[i];
            renderer.update_filter(filter, filter == self.active_filter);
            i += 1;
        }
        let slots = self.window_slots();
        let mut k: usize = 0;
        while k < slots.len()
            decreases slots@.len() - k,
        {
            renderer.draw_level_slot(&slots[k]);
            k += 1;
        }
        let num_locked = self.level_progress.num_locked_levels(self.levels.len());
        renderer.update_num_locked(num_locked as u16);
        renderer.update_active_rating(self.active_rating());
        renderer.flush();
    }
}

impl<'a> LevelSelectorChange<'a> {
    /// Draws what changed.
    pub fn render<R: LevelSelectRenderer>(&self, renderer: &mut R) {
        let mut k: usize = 0;
        while k < self.slots_change.len()
            decreases self.slots_change@.len() - k,
        {
            renderer.draw_level_slot(&self.slots_change[k]);
            k += 1;
        }
        if let Some(filter_change) = self.filter_change {
            renderer.update_filter(filter_change.inactive, false);
            renderer.update_filter(filter_change.active, true);
        }
        if let Some(n) = self.num_locked_change {
            renderer.update_num_locked(n);
        }
        renderer.update_active_rating(self.active_rating);
        renderer.flush();
    }
}

} // verus!
