use vstd::prelude::*;
use vstd::string::*;

verus! {

/// Where a point lies with respect to one geometry.
#[derive(Clone, Copy, Debug, PartialEq, Eq, Structural)]
pub enum Location {
    Interior,
    Boundary,
    Exterior,
}

/// The dimension of a point set: empty, points, curves or areas.
#[derive(Clone, Copy, Debug, PartialEq, Eq, Structural)]
pub enum Dimensions {
    Empty,
    ZeroDimensional,
    OneDimensional,
    TwoDimensional,
}

/// The numeric code of a dimension: -1 for empty, else 0, 1 or 2.
pub open spec fn rank(d: Dimensions) -> int {
    match d {
        Dimensions::Empty => -1,
        Dimensions::ZeroDimensional => 0,
        Dimensions::OneDimensional => 1,
        Dimensions::TwoDimensional => 2,
    }
}

/// The larger of two dimensions.
pub open spec fn dim_max(a: Dimensions, b: Dimensions) -> Dimensions {
    if rank(a) < rank(b) { b } else { a }
}

/// The location that indexes row or column `i` (0, 1 or 2).
pub open spec fn location_at(i: int) -> Location {
    if i == 0 {
        Location::Interior
    } else if i == 1 {
        Location::Boundary
    } else {
        Location::Exterior
    }
}

/// Whether pattern character `c` accepts dimension `d`.
pub open spec fn code_accepts(c: char, d: Dimensions) -> bool {
    if c == 'T' {
        d != Dimensions::Empty
    } else if c == 'F' {
        d == Dimensions::Empty
    } else if c == '*' {
        true
    } else if c == '0' {
        d == Dimensions::ZeroDimensional
    } else if c == '1' {
        d == Dimensions::OneDimensional
    } else {
        c == '2' && d == Dimensions::TwoDimensional
    }
}

/// The characters a pattern may hold.
pub open spec fn is_code(c: char) -> bool {
    c == 'T' || c == 'F' || c == '*' || c == '0' || c == '1' || c == '2'
}

/// A nine-character pattern is well formed.
pub open spec fn is_pattern(p: Seq<char>) -> bool {
    p.len() == 9 && forall|i: int| 0 <= i < 9 ==> is_code(#[trigger] p[i])
}

/// The pattern character that names dimension `d` exactly.
pub open spec fn code_of(d: Dimensions) -> char {
    match d {
        Dimensions::Empty => 'F',
        Dimensions::ZeroDimensional => '0',
        Dimensions::OneDimensional => '1',
        Dimensions::TwoDimensional => '2',
    }
}

/// The locations of one geometry on an edge or node: on it, and on its left
/// and right sides; `None` where unknown or not applicable.
#[derive(Clone, Copy, Debug, PartialEq, Eq, Structural)]
pub struct TopologyPosition {
    pub on: Option<Location>,
    pub left: Option<Location>,
    pub right: Option<Location>,
}

/// The topology of an edge or node with respect to geometries A and B.
#[derive(Clone, Copy, Debug, PartialEq, Eq, Structural)]
pub struct Label {
    pub a: TopologyPosition,
    pub b: TopologyPosition,
}

impl Label {
    /// Some side location is known: the edge borders an area.
    pub open spec fn is_area(self) -> bool {
        self.a.left is Some || self.a.right is Some || self.b.left is Some || self.b.right is Some
    }
}

/// Relies on String::push: appends one character to the end.
#[verifier::external_body]
fn push_char(s: &mut String, c: char)
    ensures
        final(s)@ == old(s)@.push(c),
{
    s.push(c)
}

fn code_char(d: Dimensions) -> (c: char)
    ensures
        c == code_of(d),
{
    match d {
        Dimensions::Empty => 'F',
        Dimensions::ZeroDimensional => '0',
        Dimensions::OneDimensional => '1',
        Dimensions::TwoDimensional => '2',
    }
}

fn location_of_index(i: usize) -> (l: Location)
    requires
        i < 3,
    ensures
        l == location_at(i as int),
{
    if i == 0 {
        Location::Interior
    } else if i == 1 {
        Location::Boundary
    } else {
        Location::Exterior
    }
}

/// The error for a pattern that is not nine characters from `T F * 0 1 2`.
#[derive(Clone, Copy, Debug, PartialEq, Eq, Structural)]
pub struct InvalidPatternError;

/// The DE-9IM matrix of two geometries A and B: the cell at (a, b) holds the
/// dimension of the intersection of part `a` of A with part `b` of B.
#[derive(Clone, Copy, Debug, PartialEq, Eq, Structural)]
pub struct IntersectionMatrix {
    pub ii: Dimensions,
    pub ib: Dimensions,
    pub ie: Dimensions,
    pub bi: Dimensions,
    pub bb: Dimensions,
    pub be: Dimensions,
    pub ei: Dimensions,
    pub eb: Dimensions,
    pub ee: Dimensions,
}

fn is_set(d: Dimensions) -> (r: bool)
    ensures
        r == (d != Dimensions::Empty),
{
    !matches!(d, Dimensions::Empty)
}

fn rank_of(d: Dimensions) -> (r: i8)
    ensures
        r == rank(d),
{
    match d {
        Dimensions::Empty => -1,
        Dimensions::ZeroDimensional => 0,
        Dimensions::OneDimensional => 1,
        Dimensions::TwoDimensional => 2,
    }
}

fn accepts(c: char, d: Dimensions) -> (r: Option<bool>)
    ensures
        r is Some <==> is_code(c),
        r is Some ==> r->Some_0 == code_accepts(c, d),
{
    if c == 'T' {
        Some(is_set(d))
    } else if c == 'F' {
        Some(!is_set(d))
    } else if c == '*' {
        Some(true)
    } else if c == '0' {
        Some(matches!(d, Dimensions::ZeroDimensional))
    } else if c == '1' {
        Some(matches!(d, Dimensions::OneDimensional))
    } else if c == '2' {
        Some(matches!(d, Dimensions::TwoDimensional))
    } else {
        None
    }
}

impl IntersectionMatrix {
    /// The cell for part `a` of A and part `b` of B.
    pub open spec fn cell(self, a: Location, b: Location) -> Dimensions {
        match (a, b) {
            (Location::Interior, Location::Interior) => self.ii,
            (Location::Interior, Location::Boundary) => self.ib,
            (Location::Interior, Location::Exterior) => self.ie,
            (Location::Boundary, Location::Interior) => self.bi,
            (Location::Boundary, Location::Boundary) => self.bb,
            (Location::Boundary, Location::Exterior) => self.be,
            (Location::Exterior, Location::Interior) => self.ei,
            (Location::Exterior, Location::Boundary) => self.eb,
            (Location::Exterior, Location::Exterior) => self.ee,
        }
    }

    /// The matrix with the cell at (`a`, `b`) replaced by `d`.
    pub open spec fn with_cell(self, a: Location, b: Location, d: Dimensions) -> IntersectionMatrix {
        match (a, b) {
            (Location::Interior, Location::Interior) => IntersectionMatrix { ii: d, ..self },
            (Location::Interior, Location::Boundary) => IntersectionMatrix { ib: d, ..self },
            (Location::Interior, Location::Exterior) => IntersectionMatrix { ie: d, ..self },
            (Location::Boundary, Location::Interior) => IntersectionMatrix { bi: d, ..self },
            (Location::Boundary, Location::Boundary) => IntersectionMatrix { bb: d, ..self },
            (Location::Boundary, Location::Exterior) => IntersectionMatrix { be: d, ..self },
            (Location::Exterior, Location::Interior) => IntersectionMatrix { ei: d, ..self },
            (Location::Exterior, Location::Boundary) => IntersectionMatrix { eb: d, ..self },
            (Location::Exterior, Location::Exterior) => IntersectionMatrix { ee: d, ..self },
        }
    }

    /// The matrix after raising the cell at (`a`, `b`) to at least `d`.
    pub open spec fn raised(self, a: Location, b: Location, d: Dimensions) -> IntersectionMatrix {
        self.with_cell(a, b, dim_max(self.cell(a, b), d))
    }

    /// The matrix raised at (`a`, `b`) to `d` where both locations are known,
    /// else unchanged.
    pub open spec fn raised_if(
        self,
        a: Option<Location>,
        b: Option<Location>,
        d: Dimensions,
    ) -> IntersectionMatrix {
        match (a, b) {
            (Some(la), Some(lb)) => self.raised(la, lb, d),
            _ => self,
        }
    }

    /// The matrix after folding in a label: its ON locations at dimension
    /// `on_dim`, and for an area edge its LEFT and RIGHT locations at
    /// dimension 2.
    pub open spec fn with_label(self, label: Label, on_dim: Dimensions) -> IntersectionMatrix {
        let m = self.raised_if(label.a.on, label.b.on, on_dim);
        if label.is_area() {
            m.raised_if(label.a.left, label.b.left, Dimensions::TwoDimensional).raised_if(
                label.a.right,
                label.b.right,
                Dimensions::TwoDimensional,
            )
        } else {
            m
        }
    }

    /// The nine cells as pattern characters, row by row.
    pub open spec fn pattern_spec(self) -> Seq<char> {
        Seq::new(9, |i: int| code_of(self.cell(location_at(i / 3), location_at(i % 3))))
    }

    /// The matrix with rows and columns exchanged.
    pub open spec fn transposed(self) -> IntersectionMatrix {
        IntersectionMatrix {
            ii: self.ii,
            ib: self.bi,
            ie: self.ei,
            bi: self.ib,
            bb: self.bb,
            be: self.eb,
            ei: self.ie,
            eb: self.be,
            ee: self.ee,
        }
    }

    /// Every cell of the matrix satisfies the matching character of `p`.
    pub open spec fn matches_spec(self, p: Seq<char>) -> bool {
        forall|i: int|
            0 <= i < 9 ==> code_accepts(
                #[trigger] p[i],
                self.cell(location_at(i / 3), location_at(i % 3)),
            )
    }

    /// The dimension of A, as seen through its interior.
    pub open spec fn dim_a(self) -> int {
        rank(dim_max(dim_max(self.ii, self.ib), self.ie))
    }

    /// The dimension of B, as seen through its interior.
    pub open spec fn dim_b(self) -> int {
        rank(dim_max(dim_max(self.ii, self.bi), self.ei))
    }

    pub open spec fn disjoint_spec(self) -> bool {
        self.ii == Dimensions::Empty && self.ib == Dimensions::Empty && self.bi
            == Dimensions::Empty && self.bb == Dimensions::Empty
    }

    pub open spec fn within_spec(self) -> bool {
        self.ii != Dimensions::Empty && self.ie == Dimensions::Empty && self.be
            == Dimensions::Empty
    }

    pub open spec fn contains_spec(self) -> bool {
        self.ii != Dimensions::Empty && self.ei == Dimensions::Empty && self.eb
            == Dimensions::Empty
    }

    pub open spec fn covers_spec(self) -> bool {
        !self.disjoint_spec() && self.ei == Dimensions::Empty && self.eb == Dimensions::Empty
    }

    pub open spec fn coveredby_spec(self) -> bool {
        !self.disjoint_spec() && self.ie == Dimensions::Empty && self.be == Dimensions::Empty
    }

    pub open spec fn touches_spec(self) -> bool {
        !(self.dim_a() == 0 && self.dim_b() == 0) && self.ii == Dimensions::Empty
            && !self.disjoint_spec()
    }

    pub open spec fn crosses_spec(self) -> bool {
        let (da, db) = (self.dim_a(), self.dim_b());
        if da < db {
            self.ii != Dimensions::Empty && self.ie != Dimensions::Empty
        } else if db < da {
            self.ii != Dimensions::Empty && self.ei != Dimensions::Empty
        } else {
            da == 1 && self.ii == Dimensions::ZeroDimensional
        }
    }

    pub open spec fn overlaps_spec(self) -> bool {
        let (da, db) = (self.dim_a(), self.dim_b());
        da == db && self.ie != Dimensions::Empty && self.ei != Dimensions::Empty && if da == 1 {
            self.ii == Dimensions::OneDimensional
        } else {
            self.ii != Dimensions::Empty
        }
    }

    pub open spec fn equals_spec(self) -> bool {
        self.ii != Dimensions::Empty && self.ie == Dimensions::Empty && self.be
            == Dimensions::Empty && self.ei == Dimensions::Empty && self.eb == Dimensions::Empty
    }

    /// The matrix with every cell empty.
    pub fn empty() -> (r: IntersectionMatrix)
        ensures
            forall|a: Location, b: Location| #[trigger] r.cell(a, b) == Dimensions::Empty,
    {
        IntersectionMatrix {
            ii: Dimensions::Empty,
            ib: Dimensions::Empty,
            ie: Dimensions::Empty,
            bi: Dimensions::Empty,
            bb: Dimensions::Empty,
            be: Dimensions::Empty,
            ei: Dimensions::Empty,
            eb: Dimensions::Empty,
            ee: Dimensions::Empty,
        }
    }

    /// The dimension stored for part `a` of A and part `b` of B.
    pub fn get(&self, a: Location, b: Location) -> (r: Dimensions)
        ensures
            r == self.cell(a, b),
    {
        match (a, b) {
            (Location::Interior, Location::Interior) => self.ii,
            (Location::Interior, Location::Boundary) => self.ib,
            (Location::Interior, Location::Exterior) => self.ie,
            (Location::Boundary, Location::Interior) => self.bi,
            (Location::Boundary, Location::Boundary) => self.bb,
            (Location::Boundary, Location::Exterior) => self.be,
            (Location::Exterior, Location::Interior) => self.ei,
            (Location::Exterior, Location::Boundary) => self.eb,
            (Location::Exterior, Location::Exterior) => self.ee,
        }
    }

    /// Writes `d` into the cell at (`a`, `b`), leaving the others alone.
    pub fn set(&mut self, a: Location, b: Location, d: Dimensions)
        ensures
            *final(self) == old(self).with_cell(a, b, d),
            final(self).cell(a, b) == d,
            forall|a2: Location, b2: Location|
                (a2, b2) != (a, b) ==> #[trigger] final(self).cell(a2, b2) == old(self).cell(
                    a2,
                    b2,
                ),
    {
        match (a, b) {
            (Location::Interior, Location::Interior) => self.ii = d,
            (Location::Interior, Location::Boundary) => self.ib = d,
            (Location::Interior, Location::Exterior) => self.ie = d,
            (Location::Boundary, Location::Interior) => self.bi = d,
            (Location::Boundary, Location::Boundary) => self.bb = d,
            (Location::Boundary, Location::Exterior) => self.be = d,
            (Location::Exterior, Location::Interior) => self.ei = d,
            (Location::Exterior, Location::Boundary) => self.eb = d,
            (Location::Exterior, Location::Exterior) => self.ee = d,
        }
    }

    /// Raises the cell at (`a`, `b`) to `d` where `d` is larger, leaving the
    /// others alone.
    pub fn set_at_least(&mut self, a: Location, b: Location, d: Dimensions)
        ensures
            *final(self) == old(self).raised(a, b, d),
            final(self).cell(a, b) == dim_max(old(self).cell(a, b), d),
            forall|a2: Location, b2: Location|
                (a2, b2) != (a, b) ==> #[trigger] final(self).cell(a2, b2) == old(self).cell(
                    a2,
                    b2,
                ),
    {
        let current = self.get(a, b);
        if rank_of(current) < rank_of(d) {
            self.set(a, b, d);
        }
    }

    /// Raises the cell at (`a`, `b`) to at least `d` where both locations are
    /// known; does nothing where either is `None`.
    pub fn set_at_least_if_valid(&mut self, a: Option<Location>, b: Option<Location>, d: Dimensions)
        ensures
            *final(self) == old(self).raised_if(a, b, d),
    {
        match (a, b) {
            (Some(la), Some(lb)) => self.set_at_least(la, lb, d),
            _ => {},
        }
    }

    /// Folds the contribution of one edge or node into the matrix: the pair
    /// of ON locations at `on_dim` (1 for an edge, 0 for a node), and for an
    /// edge that borders an area the pairs of LEFT and of RIGHT locations at 2.
    pub fn set_at_least_from_label(&mut self, label: &Label, on_dim: Dimensions)
        ensures
            *final(self) == old(self).with_label(*label, on_dim),
    {
        self.set_at_least_if_valid(label.a.on, label.b.on, on_dim);
        if label.a.left.is_some() || label.a.right.is_some() || label.b.left.is_some()
            || label.b.right.is_some() {
            self.set_at_least_if_valid(label.a.left, label.b.left, Dimensions::TwoDimensional);
            self.set_at_least_if_valid(label.a.right, label.b.right, Dimensions::TwoDimensional);
        }
    }

    /// The matrix as nine pattern characters read row by row, `F` for an
    /// empty cell and the dimension's digit otherwise.
    pub fn to_pattern(&self) -> (r: String)
        ensures
            r@ == self.pattern_spec(),
    {
        let mut s = String::new();
        let mut i: usize = 0;
        while i < 9
            invariant
                i <= 9,
                s@.len() == i,
                forall|j: int| 0 <= j < i ==> s@[j] == self.pattern_spec()[j],
            decreases 9 - i,
        {
            let d = self.get(location_of_index(i / 3), location_of_index(i % 3));
            push_char(&mut s, code_char(d));
            i += 1;
        }
        assert(s@ =~= self.pattern_spec());
        s
    }

    /// The pattern string of a matrix is a well-formed pattern that the
    /// matrix matches.
    pub proof fn lemma_pattern_round_trip(self)
        ensures
            is_pattern(self.pattern_spec()),
            self.matches_spec(self.pattern_spec()),
    {
    }

    /// Matching a nine-character pattern is matching each cell, row by row.
    pub proof fn lemma_matches_by_cells(self, p: Seq<char>)
        requires
            p.len() == 9,
        ensures
            self.matches_spec(p) == (code_accepts(p[0], self.ii) && code_accepts(p[1], self.ib)
                && code_accepts(p[2], self.ie) && code_accepts(p[3], self.bi) && code_accepts(
                p[4],
                self.bb,
            ) && code_accepts(p[5], self.be) && code_accepts(p[6], self.ei) && code_accepts(
                p[7],
                self.eb,
            ) && code_accepts(p[8], self.ee)),
    {
        if code_accepts(p[0], self.ii) && code_accepts(p[1], self.ib) && code_accepts(p[2], self.ie)
            && code_accepts(p[3], self.bi) && code_accepts(p[4], self.bb) && code_accepts(
            p[5],
            self.be,
        ) && code_accepts(p[6], self.ei) && code_accepts(p[7], self.eb) && code_accepts(
            p[8],
            self.ee,
        ) {
            assert forall|i: int| 0 <= i < 9 implies code_accepts(
                #[trigger] p[i],
                self.cell(location_at(i / 3), location_at(i % 3)),
            ) by {
                if i == 0 {
                } else if i == 1 {
                } else if i == 2 {
                } else if i == 3 {
                } else if i == 4 {
                } else if i == 5 {
                } else if i == 6 {
                } else if i == 7 {
                } else {
                }
            }
        }
        if self.matches_spec(p) {
            assert(code_accepts(p[0], self.cell(location_at(0), location_at(0))));
            assert(code_accepts(p[1], self.cell(location_at(0), location_at(1))));
            assert(code_accepts(p[2], self.cell(location_at(0), location_at(2))));
            assert(code_accepts(p[3], self.cell(location_at(1), location_at(0))));
            assert(code_accepts(p[4], self.cell(location_at(1), location_at(1))));
            assert(code_accepts(p[5], self.cell(location_at(1), location_at(2))));
            assert(code_accepts(p[6], self.cell(location_at(2), location_at(0))));
            assert(code_accepts(p[7], self.cell(location_at(2), location_at(1))));
            assert(code_accepts(p[8], self.cell(location_at(2), location_at(2))));
        }
    }

    /// The named predicates that do not depend on the geometries' dimensions
    /// are the fixed patterns: disjoint `FF*FF****`, within `T*F**F***`,
    /// contains `T*****FF*`, equals `T*F**FFF*`, and covers and covered-by
    /// each one of four patterns.
    pub proof fn lemma_predicate_patterns(self)
        ensures
            self.disjoint_spec() == self.matches_spec(
                seq!['F', 'F', '*', 'F', 'F', '*', '*', '*', '*'],
            ),
            self.within_spec() == self.matches_spec(
                seq!['T', '*', 'F', '*', '*', 'F', '*', '*', '*'],
            ),
            self.contains_spec() == self.matches_spec(
                seq!['T', '*', '*', '*', '*', '*', 'F', 'F', '*'],
            ),
            self.equals_spec() == self.matches_spec(
                seq!['T', '*', 'F', '*', '*', 'F', 'F', 'F', '*'],
            ),
            self.covers_spec() == (self.matches_spec(
                seq!['T', '*', '*', '*', '*', '*', 'F', 'F', '*'],
            ) || self.matches_spec(seq!['*', 'T', '*', '*', '*', '*', 'F', 'F', '*'])
                || self.matches_spec(seq!['*', '*', '*', 'T', '*', '*', 'F', 'F', '*'])
                || self.matches_spec(seq!['*', '*', '*', '*', 'T', '*', 'F', 'F', '*'])),
            self.coveredby_spec() == (self.matches_spec(
                seq!['T', '*', 'F', '*', '*', 'F', '*', '*', '*'],
            ) || self.matches_spec(seq!['*', 'T', 'F', '*', '*', 'F', '*', '*', '*'])
                || self.matches_spec(seq!['*', '*', 'F', 'T', '*', 'F', '*', '*', '*'])
                || self.matches_spec(seq!['*', '*', 'F', '*', 'T', 'F', '*', '*', '*'])),
    {
        self.lemma_matches_by_cells(seq!['F', 'F', '*', 'F', 'F', '*', '*', '*', '*']);
        self.lemma_matches_by_cells(seq!['T', '*', 'F', '*', '*', 'F', '*', '*', '*']);
        self.lemma_matches_by_cells(seq!['T', '*', '*', '*', '*', '*', 'F', 'F', '*']);
        self.lemma_matches_by_cells(seq!['T', '*', 'F', '*', '*', 'F', 'F', 'F', '*']);
        self.lemma_matches_by_cells(seq!['*', 'T', '*', '*', '*', '*', 'F', 'F', '*']);
        self.lemma_matches_by_cells(seq!['*', '*', '*', 'T', '*', '*', 'F', 'F', '*']);
        self.lemma_matches_by_cells(seq!['*', '*', '*', '*', 'T', '*', 'F', 'F', '*']);
        self.lemma_matches_by_cells(seq!['*', 'T', 'F', '*', '*', 'F', '*', '*', '*']);
        self.lemma_matches_by_cells(seq!['*', '*', 'F', 'T', '*', 'F', '*', '*', '*']);
        self.lemma_matches_by_cells(seq!['*', '*', 'F', '*', 'T', 'F', '*', '*', '*']);
    }

    /// Raising a cell twice, the second time to the same or a smaller
    /// dimension, never lowers any cell: the second raise changes nothing and
    /// every cell ends at least where it started.
    pub proof fn lemma_raise_never_lowers(
        self,
        a: Location,
        b: Location,
        d1: Dimensions,
        d2: Dimensions,
    )
        requires
            rank(d2) <= rank(d1),
        ensures
            self.raised(a, b, d1).raised(a, b, d2) == self.raised(a, b, d1),
            rank(d1) <= rank(self.raised(a, b, d1).cell(a, b)),
            forall|a2: Location, b2: Location|
                rank(self.cell(a2, b2)) <= rank(
                    #[trigger] self.raised(a, b, d1).raised(a, b, d2).cell(a2, b2),
                ),
    {
    }

    /// The matrix of B against A.
    pub fn transpose(&self) -> (r: IntersectionMatrix)
        ensures
            r == self.transposed(),
    {
        IntersectionMatrix {
            ii: self.ii,
            ib: self.bi,
            ie: self.ei,
            bi: self.ib,
            bb: self.bb,
            be: self.eb,
            ei: self.ie,
            eb: self.be,
            ee: self.ee,
        }
    }

    /// Tests the matrix against a nine-character pattern read row by row,
    /// whose characters are `T` (non-empty), `F` (empty), `*` (anything) or a
    /// dimension `0`, `1`, `2`.
    pub fn matches(&self, pattern: &str) -> (r: Result<bool, InvalidPatternError>)
        ensures
            r is Ok <==> is_pattern(pattern@),
            r is Ok ==> r->Ok_0 == self.matches_spec(pattern@),
    {
        let n = pattern.unicode_len();
        if n != 9 {
            return Err(InvalidPatternError);
        }
        let mut all = true;
        let mut i: usize = 0;
        while i < 9
            invariant
                n == 9,
                pattern@.len() == 9,
                i <= 9,
                forall|j: int| 0 <= j < i ==> is_code(#[trigger] pattern@[j]),
                all == forall|j: int|
                    0 <= j < i ==> code_accepts(
                        #[trigger] pattern@[j],
                        self.cell(location_at(j / 3), location_at(j % 3)),
                    ),
            decreases 9 - i,
        {
            let c = pattern.get_char(i);
            let a = if i / 3 == 0 {
                Location::Interior
            } else if i / 3 == 1 {
                Location::Boundary
            } else {
                Location::Exterior
            };
            let b = if i % 3 == 0 {
                Location::Interior
            } else if i % 3 == 1 {
                Location::Boundary
            } else {
                Location::Exterior
            };
            match accepts(c, self.get(a, b)) {
                Some(ok) => {
                    all = all && ok;
                },
                None => {
                    return Err(InvalidPatternError);
                },
            }
            i += 1;
        }
        Ok(all)
    }

    /// No point is shared: interiors and boundaries meet nowhere.
    pub fn is_disjoint(&self) -> (r: bool)
        ensures
            r == self.disjoint_spec(),
    {
        !is_set(self.ii) && !is_set(self.ib) && !is_set(self.bi) && !is_set(self.bb)
    }

    /// Some point is shared.
    pub fn is_intersects(&self) -> (r: bool)
        ensures
            r == !self.disjoint_spec(),
    {
        !self.is_disjoint()
    }

    /// A lies in B: the interiors meet and no part of A reaches B's exterior.
    pub fn is_within(&self) -> (r: bool)
        ensures
            r == self.within_spec(),
    {
        is_set(self.ii) && !is_set(self.ie) && !is_set(self.be)
    }

    /// B lies in A.
    pub fn is_contains(&self) -> (r: bool)
        ensures
            r == self.contains_spec(),
    {
        is_set(self.ii) && !is_set(self.ei) && !is_set(self.eb)
    }

    /// Every point of B is a point of A, and they share one.
    pub fn is_covers(&self) -> (r: bool)
        ensures
            r == self.covers_spec(),
    {
        self.is_intersects() && !is_set(self.ei) && !is_set(self.eb)
    }

    /// Every point of A is a point of B, and they share one.
    pub fn is_coveredby(&self) -> (r: bool)
        ensures
            r == self.coveredby_spec(),
    {
        self.is_intersects() && !is_set(self.ie) && !is_set(self.be)
    }

    fn dims(&self) -> (r: (i8, i8))
        ensures
            r.0 == self.dim_a(),
            r.1 == self.dim_b(),
    {
        let mut a = rank_of(self.ii);
        if a < rank_of(self.ib) {
            a = rank_of(self.ib);
        }
        if a < rank_of(self.ie) {
            a = rank_of(self.ie);
        }
        let mut b = rank_of(self.ii);
        if b < rank_of(self.bi) {
            b = rank_of(self.bi);
        }
        if b < rank_of(self.ei) {
            b = rank_of(self.ei);
        }
        (a, b)
    }

    /// The geometries meet, but only on their boundaries; never true of two
    /// points.
    pub fn is_touches(&self) -> (r: bool)
        ensures
            r == self.touches_spec(),
    {
        let (da, db) = self.dims();
        !(da == 0 && db == 0) && !is_set(self.ii) && self.is_intersects()
    }

    /// The interiors meet in a set of lower dimension than the larger
    /// geometry, and the lower-dimensional one leaves the other.
    pub fn is_crosses(&self) -> (r: bool)
        ensures
            r == self.crosses_spec(),
    {
        let (da, db) = self.dims();
        if da < db {
            is_set(self.ii) && is_set(self.ie)
        } else if db < da {
            is_set(self.ii) && is_set(self.ei)
        } else {
            da == 1 && matches!(self.ii, Dimensions::ZeroDimensional)
        }
    }

    /// Geometries of one dimension share interior of that dimension and each
    /// has interior outside the other.
    pub fn is_overlaps(&self) -> (r: bool)
        ensures
            r == self.overlaps_spec(),
    {
        let (da, db) = self.dims();
        da == db && is_set(self.ie) && is_set(self.ei) && if da == 1 {
            matches!(self.ii, Dimensions::OneDimensional)
        } else {
            is_set(self.ii)
        }
    }

    /// The geometries cover the same points.
    pub fn is_equal_topo(&self) -> (r: bool)
        ensures
            r == self.equals_spec(),
    {
        is_set(self.ii) && !is_set(self.ie) && !is_set(self.be) && !is_set(self.ei) && !is_set(
            self.eb,
        )
    }
}

} // verus!
