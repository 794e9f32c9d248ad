//! Hex-grid patterns: a starting heading and a sequence of relative turns,
//! with the coordinate path they trace and its overlap check.

use vstd::prelude::*;

verus! {

/// Why a pattern is rejected.
#[derive(PartialEq, Eq, Structural, Clone, Copy, Debug)]
pub enum HexError {
    Overlap,
    InvalidString,
}

/// A relative turn between two successive segments of a pattern.
#[derive(PartialEq, Eq, Structural, Clone, Copy, Debug)]
pub enum HexDir {
    A,
    Q,
    W,
    E,
    D,
}

/// An absolute heading on the hex grid.
#[derive(PartialEq, Eq, Structural, Clone, Copy, Debug)]
pub enum HexAbsoluteDir {
    East,
    SouthEast,
    SouthWest,
    West,
    NorthWest,
    NorthEast,
}

/// An axial coordinate on the hex grid.
#[derive(PartialEq, Eq, Structural, Clone, Copy, Debug)]
pub struct HexCoord {
    pub q: i32,
    pub r: i32,
}

/// A drawn pattern: where its first segment heads, and how each later
/// segment turns relative to the one before it.
#[derive(PartialEq, Clone, Debug)]
pub struct HexPattern {
    pub start_dir: HexAbsoluteDir,
    pub pattern_vec: Vec<HexDir>,
}

/// Mathematical image of a coordinate: the same pair over unbounded integers.
pub ghost struct CoordVal {
    pub q: int,
    pub r: int,
}

impl View for HexCoord {
    type V = CoordVal;

    open spec fn view(&self) -> CoordVal {
        CoordVal { q: self.q as int, r: self.r as int }
    }
}

/// Mathematical image of a pattern.
pub ghost struct PatternVal {
    pub start_dir: HexAbsoluteDir,
    pub turns: Seq<HexDir>,
}

impl View for HexPattern {
    type V = PatternVal;

    open spec fn view(&self) -> PatternVal {
        PatternVal { start_dir: self.start_dir, turns: self.pattern_vec@ }
    }
}

/// Headings in clockwise order, as positions 0 through 5.
pub open spec fn dir_index(d: HexAbsoluteDir) -> int {
    match d {
        HexAbsoluteDir::East => 0,
        HexAbsoluteDir::SouthEast => 1,
        HexAbsoluteDir::SouthWest => 2,
        HexAbsoluteDir::West => 3,
        HexAbsoluteDir::NorthWest => 4,
        HexAbsoluteDir::NorthEast => 5,
    }
}

/// The heading at position `i` of the clockwise order; `i` is taken modulo 6.
pub open spec fn index_dir(i: int) -> HexAbsoluteDir {
    let k = i % 6;
    if k == 0 {
        HexAbsoluteDir::East
    } else if k == 1 {
        HexAbsoluteDir::SouthEast
    } else if k == 2 {
        HexAbsoluteDir::SouthWest
    } else if k == 3 {
        HexAbsoluteDir::West
    } else if k == 4 {
        HexAbsoluteDir::NorthWest
    } else {
        HexAbsoluteDir::NorthEast
    }
}

/// How many positions clockwise a relative turn advances the heading.
pub open spec fn turn_amount(d: HexDir) -> int {
    match d {
        HexDir::A => -2,
        HexDir::Q => -1,
        HexDir::W => 0,
        HexDir::E => 1,
        HexDir::D => 2,
    }
}

/// The heading reached from `d` by advancing `amount` positions clockwise.
pub open spec fn turn_spec(d: HexAbsoluteDir, amount: int) -> HexAbsoluteDir {
    index_dir(dir_index(d) + amount)
}

/// The unit offset in `q` of one step along heading `d`.
pub open spec fn offset_q(d: HexAbsoluteDir) -> int {
    match d {
        HexAbsoluteDir::East => 1,
        HexAbsoluteDir::SouthEast => 0,
        HexAbsoluteDir::SouthWest => -1,
        HexAbsoluteDir::West => -1,
        HexAbsoluteDir::NorthWest => 0,
        HexAbsoluteDir::NorthEast => 1,
    }
}

/// The unit offset in `r` of one step along heading `d`.
pub open spec fn offset_r(d: HexAbsoluteDir) -> int {
    match d {
        HexAbsoluteDir::East => 0,
        HexAbsoluteDir::SouthEast => 1,
        HexAbsoluteDir::SouthWest => 1,
        HexAbsoluteDir::West => 0,
        HexAbsoluteDir::NorthWest => -1,
        HexAbsoluteDir::NorthEast => -1,
    }
}

/// Builds a coordinate from its two axial components.
pub fn hex_coord(q: i32, r: i32) -> (c: HexCoord)
    ensures
        c.q == q,
        c.r == r,
{
    HexCoord { q, r }
}

impl HexAbsoluteDir {
    /// The heading reached by advancing `amount` positions clockwise
    /// (negative amounts advance counter-clockwise).
    pub fn turn(&self, amount: i16) -> (d: HexAbsoluteDir)
        ensures
            d == turn_spec(*self, amount as int),
    {
        let idx: i32 = match *self {
            HexAbsoluteDir::East => 0,
            HexAbsoluteDir::SouthEast => 1,
            HexAbsoluteDir::SouthWest => 2,
            HexAbsoluteDir::West => 3,
            HexAbsoluteDir::NorthWest => 4,
            HexAbsoluteDir::NorthEast => 5,
        };
        let t: i32 = ((idx + amount as i32) % 6 + 6) % 6;
        proof {
            let a: int = idx + amount as int;
            assert(t == a % 6) by {
                assert(a % 6 == (a % 6 + 6) % 6);
            };
        }
        match t {
            0 => HexAbsoluteDir::East,
            1 => HexAbsoluteDir::SouthEast,
            2 => HexAbsoluteDir::SouthWest,
            3 => HexAbsoluteDir::West,
            4 => HexAbsoluteDir::NorthWest,
            _ => HexAbsoluteDir::NorthEast,
        }
    }

    /// The unit coordinate offset of one step along this heading.
    pub fn coord_offset(&self) -> (c: HexCoord)
        ensures
            c@.q == offset_q(*self),
            c@.r == offset_r(*self),
    {
        match *self {
            HexAbsoluteDir::East => hex_coord(1, 0),
            HexAbsoluteDir::SouthEast => hex_coord(0, 1),
            HexAbsoluteDir::SouthWest => hex_coord(-1, 1),
            HexAbsoluteDir::West => hex_coord(-1, 0),
            HexAbsoluteDir::NorthWest => hex_coord(0, -1),
            HexAbsoluteDir::NorthEast => hex_coord(1, -1),
        }
    }

    /// The relative turn that takes this heading to `other`, or `None` for
    /// the one heading (the exact opposite) that no turn reaches.
    pub fn difference(&self, other: HexAbsoluteDir) -> (r: Option<HexDir>)
        ensures
            r == difference_spec(*self, other),
    {
        let is: i32 = match *self {
            HexAbsoluteDir::East => 0,
            HexAbsoluteDir::SouthEast => 1,
            HexAbsoluteDir::SouthWest => 2,
            HexAbsoluteDir::West => 3,
            HexAbsoluteDir::NorthWest => 4,
            HexAbsoluteDir::NorthEast => 5,
        };
        let io: i32 = match other {
            HexAbsoluteDir::East => 0,
            HexAbsoluteDir::SouthEast => 1,
            HexAbsoluteDir::SouthWest => 2,
            HexAbsoluteDir::West => 3,
            HexAbsoluteDir::NorthWest => 4,
            HexAbsoluteDir::NorthEast => 5,
        };
        let d: i32 = (io - is + 6) % 6;
        match d {
            0 => Some(HexDir::W),
            1 => Some(HexDir::E),
            2 => Some(HexDir::D),
            3 => None,
            4 => Some(HexDir::A),
            _ => Some(HexDir::Q),
        }
    }
}

/// The relative turn from `d` to `other`: the number of clockwise positions
/// between them read as a turn, with the exact opposite heading unreachable.
pub open spec fn difference_spec(d: HexAbsoluteDir, other: HexAbsoluteDir) -> Option<HexDir> {
    let k = (dir_index(other) - dir_index(d)) % 6;
    if k == 0 {
        Some(HexDir::W)
    } else if k == 1 {
        Some(HexDir::E)
    } else if k == 2 {
        Some(HexDir::D)
    } else if k == 3 {
        None
    } else if k == 4 {
        Some(HexDir::A)
    } else {
        Some(HexDir::Q)
    }
}

/// Turning by any relative turn and asking for the difference gives that
/// turn back: `difference` inverts `turn` on every heading.
pub proof fn lemma_difference_turn(d: HexAbsoluteDir, rel: HexDir)
    ensures
        difference_spec(d, turn_spec(d, turn_amount(rel))) == Some(rel),
{
}

impl HexDir {
    /// One step of the path: turns the previous heading by this relative
    /// turn, then advances one cell; gives the new coordinate and heading.
    pub fn coord_offset(&self, prev_coord: HexCoord, prev_dir: HexAbsoluteDir) -> (r: (
        HexCoord,
        HexAbsoluteDir,
    ))
        requires
            -0x4000_0000 <= prev_coord.q <= 0x4000_0000,
            -0x4000_0000 <= prev_coord.r <= 0x4000_0000,
        ensures
            r.1 == turn_spec(prev_dir, turn_amount(*self)),
            r.0@.q == prev_coord@.q + offset_q(r.1),
            r.0@.r == prev_coord@.r + offset_r(r.1),
    {
        let new_dir = match *self {
            HexDir::A => prev_dir.turn(-2),
            HexDir::Q => prev_dir.turn(-1),
            HexDir::W => prev_dir,
            HexDir::E => prev_dir.turn(1),
            HexDir::D => prev_dir.turn(2),
        };
        proof {
            if self is W {
                assert(dir_index(prev_dir) % 6 == dir_index(prev_dir));
            }
        }
        let off = new_dir.coord_offset();
        (hex_coord(prev_coord.q + off.q, prev_coord.r + off.r), new_dir)
    }
}

/// The heading of segment `j` of a pattern: the start heading turned by the
/// first `j` relative turns.
pub open spec fn dir_at(start: HexAbsoluteDir, turns: Seq<HexDir>, j: int) -> HexAbsoluteDir
    decreases j,
{
    if j <= 0 {
        start
    } else {
        turn_spec(dir_at(start, turns, j - 1), turn_amount(turns[j - 1]))
    }
}

/// The `q` component of the `k`-th coordinate of the path: the origin,
/// advanced one cell per segment.
pub open spec fn coord_q_at(start: HexAbsoluteDir, turns: Seq<HexDir>, k: int) -> int
    decreases k,
{
    if k <= 0 {
        0
    } else {
        coord_q_at(start, turns, k - 1) + offset_q(dir_at(start, turns, k - 1))
    }
}

/// The `r` component of the `k`-th coordinate of the path.
pub open spec fn coord_r_at(start: HexAbsoluteDir, turns: Seq<HexDir>, k: int) -> int
    decreases k,
{
    if k <= 0 {
        0
    } else {
        coord_r_at(start, turns, k - 1) + offset_r(dir_at(start, turns, k - 1))
    }
}

/// The whole coordinate path of a pattern: the origin, the cell the first
/// segment reaches, and one further cell per relative turn.
pub open spec fn coords_spec(start: HexAbsoluteDir, turns: Seq<HexDir>) -> Seq<CoordVal> {
    Seq::new(
        turns.len() + 2,
        |k: int| CoordVal { q: coord_q_at(start, turns, k), r: coord_r_at(start, turns, k) },
    )
}

/// Each step moves at most one cell, so the `k`-th coordinate lies within
/// `k` cells of the origin.
pub proof fn lemma_coord_bound(start: HexAbsoluteDir, turns: Seq<HexDir>, k: int)
    requires
        k >= 0,
    ensures
        -k <= coord_q_at(start, turns, k) <= k,
        -k <= coord_r_at(start, turns, k) <= k,
    decreases k,
{
    if k > 0 {
        lemma_coord_bound(start, turns, k - 1);
    }
}

/// The views of a coordinate sequence.
pub open spec fn coord_vals(s: Seq<HexCoord>) -> Seq<CoordVal> {
    s.map_values(|c: HexCoord| c@)
}

/// Edges `i` and `j` of the path (each from coordinate `x - 1` to `x`)
/// cover the same pair of cells, in either orientation.
pub open spec fn edge_pair_eq(s: Seq<CoordVal>, i: int, j: int) -> bool {
    (s[i - 1] == s[j - 1] && s[i] == s[j]) || (s[i - 1] == s[j] && s[i] == s[j - 1])
}

/// Some edge of the path retraces an earlier edge.
pub open spec fn has_overlap(s: Seq<CoordVal>) -> bool {
    exists|i: int, j: int| 1 <= j < i < s.len() && #[trigger] edge_pair_eq(s, i, j)
}

impl HexPattern {
    /// The coordinate path this pattern traces from the origin.
    pub fn to_coords(&self) -> (coords: Vec<HexCoord>)
        requires
            self.pattern_vec@.len() <= 0x1000_0000,
        ensures
            coords@.len() == self.pattern_vec@.len() + 2,
            forall|k: int|
                0 <= k < coords@.len() ==> (#[trigger] coords@[k])@.q == coord_q_at(
                    self.start_dir,
                    self.pattern_vec@,
                    k,
                ) && coords@[k]@.r == coord_r_at(self.start_dir, self.pattern_vec@, k),
    {
        let ghost start = self.start_dir;
        let ghost turns = self.pattern_vec@;
        let mut coords: Vec<HexCoord> = Vec::new();
        coords.push(hex_coord(0, 0));
        let mut prev_coord = self.start_dir.coord_offset();
        let mut prev_dir = self.start_dir;
        coords.push(prev_coord);
        proof {
            assert(coord_q_at(start, turns, 0) == 0);
            assert(coord_r_at(start, turns, 0) == 0);
            assert(dir_at(start, turns, 0) == start);
        }
        let n = self.pattern_vec.len();
        let mut i: usize = 0;
        while i < n
            invariant
                n == turns.len(),
                n <= 0x1000_0000,
                turns == self.pattern_vec@,
                start == self.start_dir,
                0 <= i <= n,
                coords@.len() == i + 2,
                prev_dir == dir_at(start, turns, i as int),
                prev_coord@.q == coord_q_at(start, turns, i + 1),
                prev_coord@.r == coord_r_at(start, turns, i + 1),
                forall|k: int|
                    0 <= k < coords@.len() ==> (#[trigger] coords@[k])@.q == coord_q_at(
                        start,
                        turns,
                        k,
                    ) && coords@[k]@.r == coord_r_at(start, turns, k),
            decreases n - i,
        {
            proof {
                lemma_coord_bound(start, turns, i + 1);
            }
            let rel = self.pattern_vec[i];
            let step = rel.coord_offset(prev_coord, prev_dir);
            prev_coord = step.0;
            prev_dir = step.1;
            coords.push(prev_coord);
            i = i + 1;
        }
        coords
    }

    /// Whether the path through `coords` retraces one of its own edges.
    pub fn check_for_overlap(coords: &Vec<HexCoord>) -> (r: bool)
        ensures
            r == has_overlap(coord_vals(coords@)),
    {
        let ghost cv = coord_vals(coords@);
        let n = coords.len();
        let mut i: usize = 1;
        while i < n
            invariant
                n == coords@.len(),
                cv == coord_vals(coords@),
                1 <= i,
                forall|i2: int, j2: int|
                    1 <= j2 < i2 < i ==> !(#[trigger] edge_pair_eq(cv, i2, j2)),
            decreases n - i,
        {
            let mut j: usize = 1;
            while j < i
                invariant
                    n == coords@.len(),
                    cv == coord_vals(coords@),
                    1 <= j <= i < n,
                    forall|j2: int| 1 <= j2 < j ==> !(#[trigger] edge_pair_eq(cv, i as int, j2)),
                decreases i - j,
            {
                let same = coords[i - 1] == coords[j - 1] && coords[i] == coords[j];
                let rev = coords[i - 1] == coords[j] && coords[i] == coords[j - 1];
                if same || rev {
                    assert(edge_pair_eq(cv, i as int, j as int));
                    return true;
                }
                j = j + 1;
            }
            i = i + 1;
        }
        false
    }

    /// Validated construction: accepts the pattern unless its path retraces
    /// one of its own edges.
    pub fn hex_pattern(start_dir: HexAbsoluteDir, pattern_vec: Vec<HexDir>) -> (r: Result<
        HexPattern,
        HexError,
    >)
        requires
            pattern_vec@.len() <= 0x1000_0000,
        ensures
            has_overlap(coords_spec(start_dir, pattern_vec@)) ==> r == Err::<
                HexPattern,
                HexError,
            >(HexError::Overlap),
            !has_overlap(coords_spec(start_dir, pattern_vec@)) ==> (r matches Ok(p)
                && p.start_dir == start_dir && p.pattern_vec@ == pattern_vec@),
    {
        let pattern = HexPattern { start_dir, pattern_vec };
        let coords = pattern.to_coords();
        proof {
            assert(coord_vals(coords@) =~= coords_spec(start_dir, pattern.pattern_vec@));
        }
        if HexPattern::check_for_overlap(&coords) {
            return Err(HexError::Overlap);
        }
        Ok(pattern)
    }
}

} // verus!
