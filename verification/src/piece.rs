//! Piece geometry: the seven tetromino kinds, their four rotation states,
//! and the movement primitives of a falling piece.

use vstd::prelude::*;

verus! {

/// The seven standard tetromino kinds.
#[derive(Clone, Copy, PartialEq, Eq, Debug)]
pub enum Type {
    I,
    T,
    O,
    L,
    J,
    S,
    Z,
}

/// One of the four quarter-turn rotation states of a piece.
#[derive(Clone, Copy, PartialEq, Eq, Debug)]
pub enum Orientation {
    Top,
    Right,
    Bottom,
    Left,
}

/// One grid position: empty, or occupied by a piece kind (the kind is kept
/// only for its color; gameplay logic reads occupancy alone).
#[derive(Clone, Copy, PartialEq, Eq, Debug)]
pub struct Cell(pub Option<Type>);

/// A square matrix of cells describing which relative positions a piece
/// occupies in one orientation.  Row 0 is the bottom row, matching the
/// board's gravity convention.
pub type Shape = Vec<Vec<Cell>>;

/// The mathematical value of a matrix of cells: a sequence of rows.
pub open spec fn grid_view(g: Seq<Vec<Cell>>) -> Seq<Seq<Cell>> {
    g.map_values(|r: Vec<Cell>| r@)
}

/// The mathematical value of a shape.
pub open spec fn shape_view(s: &Shape) -> Seq<Seq<Cell>> {
    grid_view(s@)
}

/// Every row of `s` is as long as `s` itself.
pub open spec fn is_square(s: Seq<Seq<Cell>>) -> bool {
    forall|i: int| 0 <= i < s.len() ==> (#[trigger] s[i]).len() == s.len()
}

/// Cell `(i, j)` of the matrix `s` is occupied.
pub open spec fn occupied(s: Seq<Seq<Cell>>, i: int, j: int) -> bool {
    s[i][j].0 is Some
}

/// Some cell of the matrix is occupied.
pub open spec fn has_occupied_cell(s: Seq<Seq<Cell>>) -> bool {
    exists|i: int, j: int| 0 <= i < s.len() && 0 <= j < s[i].len() && occupied(s, i, j)
}

/// Some cell of the row is occupied.
pub open spec fn row_has_occupied(row: Seq<Cell>) -> bool {
    exists|j: int| 0 <= j < row.len() && row[j].0 is Some
}

/// `r` is the index of the first row of `s` that holds an occupied cell.
pub open spec fn is_first_occupied_row(s: Seq<Seq<Cell>>, r: int) -> bool {
    &&& 0 <= r < s.len()
    &&& row_has_occupied(s[r])
    &&& forall|i: int| 0 <= i < r ==> !row_has_occupied(#[trigger] s[i])
}

/// One quarter-turn clockwise rotation of a square matrix:
/// the rotated matrix holds the original cell `(row, col)` at
/// `(col, size - 1 - row)`.
pub open spec fn rotate_cw_spec(s: Seq<Seq<Cell>>) -> Seq<Seq<Cell>> {
    Seq::new(s.len(), |r: int| Seq::new(s.len(), |c: int| s[s.len() - 1 - c][r]))
}

pub open spec fn i_top_shape_spec() -> Seq<Seq<Cell>> {
    seq![
        seq![Cell(None), Cell(None), Cell(None), Cell(None)],
        seq![Cell(Some(Type::I)), Cell(Some(Type::I)), Cell(Some(Type::I)), Cell(Some(Type::I))],
        seq![Cell(None), Cell(None), Cell(None), Cell(None)],
        seq![Cell(None), Cell(None), Cell(None), Cell(None)],
    ]
}

pub open spec fn t_top_shape_spec() -> Seq<Seq<Cell>> {
    seq![
        seq![Cell(None), Cell(None), Cell(None)],
        seq![Cell(Some(Type::T)), Cell(Some(Type::T)), Cell(Some(Type::T))],
        seq![Cell(None), Cell(Some(Type::T)), Cell(None)],
    ]
}

pub open spec fn o_top_shape_spec() -> Seq<Seq<Cell>> {
    seq![
        seq![Cell(Some(Type::O)), Cell(Some(Type::O))],
        seq![Cell(Some(Type::O)), Cell(Some(Type::O))],
    ]
}

pub open spec fn l_top_shape_spec() -> Seq<Seq<Cell>> {
    seq![
        seq![Cell(None), Cell(None), Cell(None)],
        seq![Cell(Some(Type::L)), Cell(Some(Type::L)), Cell(Some(Type::L))],
        seq![Cell(None), Cell(None), Cell(Some(Type::L))],
    ]
}

pub open spec fn j_top_shape_spec() -> Seq<Seq<Cell>> {
    seq![
        seq![Cell(None), Cell(None), Cell(None)],
        seq![Cell(Some(Type::J)), Cell(Some(Type::J)), Cell(Some(Type::J))],
        seq![Cell(Some(Type::J)), Cell(None), Cell(None)],
    ]
}

pub open spec fn s_top_shape_spec() -> Seq<Seq<Cell>> {
    seq![
        seq![Cell(None), Cell(None), Cell(None)],
        seq![Cell(Some(Type::S)), Cell(Some(Type::S)), Cell(None)],
        seq![Cell(None), Cell(Some(Type::S)), Cell(Some(Type::S))],
    ]
}

pub open spec fn z_top_shape_spec() -> Seq<Seq<Cell>> {
    seq![
        seq![Cell(None), Cell(None), Cell(None)],
        seq![Cell(None), Cell(Some(Type::Z)), Cell(Some(Type::Z))],
        seq![Cell(Some(Type::Z)), Cell(Some(Type::Z)), Cell(None)],
    ]
}

/// The canonical (Top orientation) shape of each piece kind.
pub open spec fn top_shape_spec(t: Type) -> Seq<Seq<Cell>> {
    match t {
        Type::I => i_top_shape_spec(),
        Type::T => t_top_shape_spec(),
        Type::O => o_top_shape_spec(),
        Type::L => l_top_shape_spec(),
        Type::J => j_top_shape_spec(),
        Type::S => s_top_shape_spec(),
        Type::Z => z_top_shape_spec(),
    }
}

/// The shape of a piece kind in a given orientation: the canonical shape
/// rotated clockwise zero to three times.
pub open spec fn shape_spec(t: Type, o: Orientation) -> Seq<Seq<Cell>> {
    match o {
        Orientation::Top => top_shape_spec(t),
        Orientation::Right => rotate_cw_spec(top_shape_spec(t)),
        Orientation::Bottom => rotate_cw_spec(rotate_cw_spec(top_shape_spec(t))),
        Orientation::Left => rotate_cw_spec(rotate_cw_spec(rotate_cw_spec(top_shape_spec(t)))),
    }
}

/// The side length of a piece kind's (square) shape matrix.
pub open spec fn spec_size_of(t: Type) -> int {
    match t {
        Type::I => 4,
        Type::O => 2,
        _ => 3,
    }
}

/// The offset used to center a spawning piece: `(size + 1) / 2`.
pub open spec fn spec_horizontal_center_offset(t: Type) -> int {
    (spec_size_of(t) + 1) / 2
}

/// The index of the first canonical-shape row that holds an occupied cell.
pub open spec fn spec_empty_row_offset(t: Type) -> int {
    match t {
        Type::O => 0,
        _ => 1,
    }
}

/// The orientation one quarter turn clockwise from `o`.
pub open spec fn spec_clockwise(o: Orientation) -> Orientation {
    match o {
        Orientation::Top => Orientation::Right,
        Orientation::Right => Orientation::Bottom,
        Orientation::Bottom => Orientation::Left,
        Orientation::Left => Orientation::Top,
    }
}

/// The orientation one quarter turn anticlockwise from `o`.
pub open spec fn spec_anticlockwise(o: Orientation) -> Orientation {
    match o {
        Orientation::Top => Orientation::Left,
        Orientation::Right => Orientation::Top,
        Orientation::Bottom => Orientation::Right,
        Orientation::Left => Orientation::Bottom,
    }
}

/// Convert a shape-local index plus the piece's signed offset into a board
/// index.  A negative result or one above `usize::MAX` is `None` ("out of
/// range"), never a panic and never a wraparound.
pub fn index(shape_index: usize, offset: i32) -> (r: Option<usize>)
    ensures
        shape_index + offset < 0 ==> r is None,
        shape_index + offset > usize::MAX ==> r is None,
        0 <= shape_index + offset <= usize::MAX ==> r == Some((shape_index + offset) as usize),
{
    if offset < 0 {
        let magnitude: usize = if offset == i32::MIN {
            (i32::MAX as usize) + 1
        } else {
            (-offset) as usize
        };
        shape_index.checked_sub(magnitude)
    } else {
        shape_index.checked_add(offset as usize)
    }
}

/// One quarter-turn clockwise rotation of a square shape matrix:
/// `rotated[col][size - 1 - row] == original[row][col]`.
pub fn rotate_quarter_cycle_clockwise(shape: &Shape) -> (rotated: Shape)
    requires
        is_square(shape_view(shape)),
    ensures
        shape_view(&rotated) == rotate_cw_spec(shape_view(shape)),
{
    let ghost sv = shape_view(shape);
    let size = shape.len();
    let mut rotated: Shape = Vec::new();
    let mut r: usize = 0;
    while r < size
        invariant
            size == sv.len(),
            is_square(sv),
            sv == shape_view(shape),
            r <= size,
            rotated@.len() == r,
            forall|k: int| 0 <= k < r ==> (#[trigger] rotated@[k])@ == rotate_cw_spec(sv)[k],
        decreases size - r,
    {
        let mut row: Vec<Cell> = Vec::new();
        let mut c: usize = 0;
        while c < size
            invariant
                size == sv.len(),
                is_square(sv),
                sv == shape_view(shape),
                r < size,
                c <= size,
                row@.len() == c,
                forall|k: int| 0 <= k < c ==> row@[k] == sv[size - 1 - k][r as int],
            decreases size - c,
        {
            proof {
                assert(shape@[size - 1 - c as int]@ == sv[size - 1 - c as int]);
                assert(sv[size - 1 - c as int].len() == size);
            }
            let cell = shape[size - 1 - c][r];
            row.push(cell);
            c = c + 1;
        }
        proof {
            assert(row@ =~= rotate_cw_spec(sv)[r as int]);
        }
        rotated.push(row);
        r = r + 1;
    }
    proof {
        assert(shape_view(&rotated) =~~= rotate_cw_spec(sv));
    }
    rotated
}

/// The offset used to center a spawning piece horizontally:
/// `(size + 1) / 2`.
pub fn horizontal_center_offset(shape: &Shape) -> (r: u32)
    requires
        shape@.len() <= 4,
    ensures
        r == (shape_view(shape).len() + 1) / 2,
{
    (shape.len() as u32 + 1) / 2
}

/// Whether some cell of the row is occupied.
fn row_has_any_occupied(row: &Vec<Cell>) -> (r: bool)
    ensures
        r == row_has_occupied(row@),
{
    let mut j: usize = 0;
    while j < row.len()
        invariant
            j <= row@.len(),
            forall|k: int| 0 <= k < j ==> (#[trigger] row@[k]).0 is None,
        decreases row@.len() - j,
    {
        if row[j].0.is_some() {
            return true;
        }
        j = j + 1;
    }
    false
}

/// The index of the first shape row (scanning from row 0 of the matrix)
/// containing any occupied cell.
pub fn empty_row_offset(shape: &Shape) -> (r: u32)
    requires
        has_occupied_cell(shape_view(shape)),
        shape@.len() <= 4,
    ensures
        is_first_occupied_row(shape_view(shape), r as int),
{
    let ghost sv = shape_view(shape);
    let mut i: usize = 0;
    while i < shape.len()
        invariant
            sv == shape_view(shape),
            i <= sv.len(),
            sv.len() <= 4,
            forall|k: int| 0 <= k < i ==> !row_has_occupied(#[trigger] sv[k]),
        decreases sv.len() - i,
    {
        if row_has_any_occupied(&shape[i]) {
            return i as u32;
        }
        i = i + 1;
    }
    proof {
        let (oi, oj) = choose|oi: int, oj: int|
            0 <= oi < sv.len() && 0 <= oj < sv[oi].len() && occupied(sv, oi, oj);
        assert(row_has_occupied(sv[oi]));
        assert(false);
    }
    vstd::pervasive::unreached()
}

impl Orientation {
    /// Advance the orientation one quarter turn clockwise.
    pub fn clockwise(self) -> (r: Orientation)
        ensures
            r == spec_clockwise(self),
    {
        match self {
            Orientation::Top => Orientation::Right,
            Orientation::Right => Orientation::Bottom,
            Orientation::Bottom => Orientation::Left,
            Orientation::Left => Orientation::Top,
        }
    }

    /// Retreat the orientation one quarter turn anticlockwise.
    pub fn anticlockwise(self) -> (r: Orientation)
        ensures
            r == spec_anticlockwise(self),
    {
        match self {
            Orientation::Top => Orientation::Left,
            Orientation::Right => Orientation::Top,
            Orientation::Bottom => Orientation::Right,
            Orientation::Left => Orientation::Bottom,
        }
    }
}

/// The canonical shape of each kind is square, has the side length given by
/// `spec_size_of`, and its first occupied row is `spec_empty_row_offset`.
pub proof fn lemma_top_shape_facts(t: Type)
    ensures
        top_shape_spec(t).len() == spec_size_of(t),
        is_square(top_shape_spec(t)),
        is_first_occupied_row(top_shape_spec(t), spec_empty_row_offset(t)),
        has_occupied_cell(top_shape_spec(t)),
{
    let s = top_shape_spec(t);
    let e = spec_empty_row_offset(t);
    assert(s[e][0].0 is Some || s[e][1].0 is Some) by {
        match t {
            Type::I => assert(i_top_shape_spec()[1][0].0 is Some),
            Type::T => assert(t_top_shape_spec()[1][0].0 is Some),
            Type::O => assert(o_top_shape_spec()[0][0].0 is Some),
            Type::L => assert(l_top_shape_spec()[1][0].0 is Some),
            Type::J => assert(j_top_shape_spec()[1][0].0 is Some),
            Type::S => assert(s_top_shape_spec()[1][0].0 is Some),
            Type::Z => assert(z_top_shape_spec()[1][1].0 is Some),
        }
    }
    assert(row_has_occupied(s[e]));
    assert(forall|i: int| 0 <= i < e ==> !row_has_occupied(#[trigger] s[i])) by {
        assert forall|i: int| 0 <= i < e implies !row_has_occupied(#[trigger] s[i]) by {
            assert(i == 0);
            assert(forall|j: int| 0 <= j < s[0].len() ==> (#[trigger] s[0][j]).0 is None);
        }
    }
    assert(occupied(s, e, 0) || occupied(s, e, 1));
    assert(has_occupied_cell(s));
}

/// A quarter-turn rotation of a square matrix is square, has the same side
/// length, and keeps some cell occupied if one was.
pub proof fn lemma_rotate_cw_facts(s: Seq<Seq<Cell>>)
    requires
        is_square(s),
    ensures
        rotate_cw_spec(s).len() == s.len(),
        is_square(rotate_cw_spec(s)),
        has_occupied_cell(s) ==> has_occupied_cell(rotate_cw_spec(s)),
{
    let n = s.len() as int;
    let r = rotate_cw_spec(s);
    if has_occupied_cell(s) {
        let (i, j) = choose|i: int, j: int| 0 <= i < s.len() && 0 <= j < s[i].len() && occupied(s, i, j);
        assert(s[i].len() == n);
        assert(r[j][n - 1 - i] == s[i][j]);
        assert(occupied(r, j, n - 1 - i));
    }
}

/// Every shape of a piece, in every orientation, is square, has the kind's
/// side length, and holds an occupied cell.
pub proof fn lemma_shape_spec_facts(t: Type, o: Orientation)
    ensures
        shape_spec(t, o).len() == spec_size_of(t),
        is_square(shape_spec(t, o)),
        has_occupied_cell(shape_spec(t, o)),
{
    lemma_top_shape_facts(t);
    let s0 = top_shape_spec(t);
    lemma_rotate_cw_facts(s0);
    let s1 = rotate_cw_spec(s0);
    lemma_rotate_cw_facts(s1);
    let s2 = rotate_cw_spec(s1);
    lemma_rotate_cw_facts(s2);
}

/// Rotating four times clockwise, or four times anticlockwise, returns an
/// orientation to itself, and one anticlockwise turn undoes one clockwise
/// turn.  Since a piece's shape is a function of its kind and orientation
/// alone, the shape also returns to itself (round-trip law).
pub proof fn lemma_rotation_round_trip(t: Type, o: Orientation)
    ensures
        spec_clockwise(spec_clockwise(spec_clockwise(spec_clockwise(o)))) == o,
        spec_anticlockwise(spec_anticlockwise(spec_anticlockwise(spec_anticlockwise(o)))) == o,
        spec_anticlockwise(spec_clockwise(o)) == o,
        spec_clockwise(spec_anticlockwise(o)) == o,
        shape_spec(t, spec_clockwise(spec_clockwise(spec_clockwise(spec_clockwise(o))))) == shape_spec(t, o),
        shape_spec(t, spec_anticlockwise(spec_anticlockwise(spec_anticlockwise(spec_anticlockwise(o))))) == shape_spec(t, o),
{
}

/// The four precomputed rotation states of one piece kind, with the two
/// spawn offsets derived from the canonical shape.  Computed once per piece
/// so that rotating at play time is a lookup, not a recomputation.
pub struct PieceTemplate {
    top_shape: Shape,
    right_shape: Shape,
    bottom_shape: Shape,
    left_shape: Shape,
    horizontal_center_offset: u32,
    empty_row_offset: u32,
}

impl PieceTemplate {
    /// The template holds exactly the four rotation states of kind `t`, and
    /// the spawn offsets of `t`'s canonical shape.
    pub closed spec fn wf_for(&self, t: Type) -> bool {
        &&& shape_view(&self.top_shape) == shape_spec(t, Orientation::Top)
        &&& shape_view(&self.right_shape) == shape_spec(t, Orientation::Right)
        &&& shape_view(&self.bottom_shape) == shape_spec(t, Orientation::Bottom)
        &&& shape_view(&self.left_shape) == shape_spec(t, Orientation::Left)
        &&& self.horizontal_center_offset == spec_horizontal_center_offset(t)
        &&& self.empty_row_offset == spec_empty_row_offset(t)
    }

    pub fn new(piece_type: Type) -> (r: Self)
        ensures
            r.wf_for(piece_type),
    {
        let top_shape = Self::type_top_shape(piece_type);
        proof {
            lemma_top_shape_facts(piece_type);
        }
        let right_shape = rotate_quarter_cycle_clockwise(&top_shape);
        proof {
            lemma_rotate_cw_facts(top_shape_spec(piece_type));
        }
        let bottom_shape = rotate_quarter_cycle_clockwise(&right_shape);
        proof {
            lemma_rotate_cw_facts(rotate_cw_spec(top_shape_spec(piece_type)));
        }
        let left_shape = rotate_quarter_cycle_clockwise(&bottom_shape);
        let horizontal_center_offset = horizontal_center_offset(&top_shape);
        let empty_row_offset = empty_row_offset(&top_shape);
        proof {
            let sv = top_shape_spec(piece_type);
            let e = spec_empty_row_offset(piece_type);
            let r = empty_row_offset as int;
            if r < e {
                assert(row_has_occupied(sv[r]));
                assert(false);
            }
            if e < r {
                assert(row_has_occupied(sv[e]));
                assert(false);
            }
        }
        Self {
            top_shape,
            right_shape,
            bottom_shape,
            left_shape,
            horizontal_center_offset,
            empty_row_offset,
        }
    }

    fn type_top_shape(piece_type: Type) -> (s: Shape)
        ensures
            shape_view(&s) == top_shape_spec(piece_type),
    {
        match piece_type {
            Type::I => Self::i_top_shape(),
            Type::T => Self::t_top_shape(),
            Type::O => Self::o_top_shape(),
            Type::L => Self::l_top_shape(),
            Type::J => Self::j_top_shape(),
            Type::S => Self::s_top_shape(),
            Type::Z => Self::z_top_shape(),
        }
    }

    fn top_shape(&self) -> (s: &Shape)
        ensures
            s == &self.top_shape,
    {
        &self.top_shape
    }

    fn right_shape(&self) -> (s: &Shape)
        ensures
            s == &self.right_shape,
    {
        &self.right_shape
    }

    fn bottom_shape(&self) -> (s: &Shape)
        ensures
            s == &self.bottom_shape,
    {
        &self.bottom_shape
    }

    fn left_shape(&self) -> (s: &Shape)
        ensures
            s == &self.left_shape,
    {
        &self.left_shape
    }

    fn i_top_shape() -> (s: Shape)
        ensures
            shape_view(&s) == i_top_shape_spec(),
    {
        let s: Shape = vec![
            vec![Cell(None), Cell(None), Cell(None), Cell(None)],
            vec![
                Cell(Some(Type::I)),
                Cell(Some(Type::I)),
                Cell(Some(Type::I)),
                Cell(Some(Type::I)),
            ],
            vec![Cell(None), Cell(None), Cell(None), Cell(None)],
            vec![Cell(None), Cell(None), Cell(None), Cell(None)],
        ];
        proof {
            assert(shape_view(&s) =~~= i_top_shape_spec());
        }
        s
    }

    fn t_top_shape() -> (s: Shape)
        ensures
            shape_view(&s) == t_top_shape_spec(),
    {
        let s: Shape = vec![
            vec![Cell(None), Cell(None), Cell(None)],
            vec![Cell(Some(Type::T)), Cell(Some(Type::T)), Cell(Some(Type::T))],
            vec![Cell(None), Cell(Some(Type::T)), Cell(None)],
        ];
        proof {
            assert(shape_view(&s) =~~= t_top_shape_spec());
        }
        s
    }

    fn o_top_shape() -> (s: Shape)
        ensures
            shape_view(&s) == o_top_shape_spec(),
    {
        let s: Shape = vec![
            vec![Cell(Some(Type::O)), Cell(Some(Type::O))],
            vec![Cell(Some(Type::O)), Cell(Some(Type::O))],
        ];
        proof {
            assert(shape_view(&s) =~~= o_top_shape_spec());
        }
        s
    }

    fn l_top_shape() -> (s: Shape)
        ensures
            shape_view(&s) == l_top_shape_spec(),
    {
        let s: Shape = vec![
            vec![Cell(None), Cell(None), Cell(None)],
            vec![Cell(Some(Type::L)), Cell(Some(Type::L)), Cell(Some(Type::L))],
            vec![Cell(None), Cell(None), Cell(Some(Type::L))],
        ];
        proof {
            assert(shape_view(&s) =~~= l_top_shape_spec());
        }
        s
    }

    fn j_top_shape() -> (s: Shape)
        ensures
            shape_view(&s) == j_top_shape_spec(),
    {
        let s: Shape = vec![
            vec![Cell(None), Cell(None), Cell(None)],
            vec![Cell(Some(Type::J)), Cell(Some(Type::J)), Cell(Some(Type::J))],
            vec![Cell(Some(Type::J)), Cell(None), Cell(None)],
        ];
        proof {
            assert(shape_view(&s) =~~= j_top_shape_spec());
        }
        s
    }

    fn s_top_shape() -> (s: Shape)
        ensures
            shape_view(&s) == s_top_shape_spec(),
    {
        let s: Shape = vec![
            vec![Cell(None), Cell(None), Cell(None)],
            vec![Cell(Some(Type::S)), Cell(Some(Type::S)), Cell(None)],
            vec![Cell(None), Cell(Some(Type::S)), Cell(Some(Type::S))],
        ];
        proof {
            assert(shape_view(&s) =~~= s_top_shape_spec());
        }
        s
    }

    fn z_top_shape() -> (s: Shape)
        ensures
            shape_view(&s) == z_top_shape_spec(),
    {
        let s: Shape = vec![
            vec![Cell(None), Cell(None), Cell(None)],
            vec![Cell(None), Cell(Some(Type::Z)), Cell(Some(Type::Z))],
            vec![Cell(Some(Type::Z)), Cell(Some(Type::Z)), Cell(None)],
        ];
        proof {
            assert(shape_view(&s) =~~= z_top_shape_spec());
        }
        s
    }
}

/// An active, movable piece: its per-kind template plus a mutable position
/// (signed offsets of the shape's origin on the board) and orientation.
/// Movement here does no bounds checking; legality is solely the board's
/// responsibility, enabling the "tentative move, ask the board, revert on
/// rejection" pattern at the game layer.
pub struct Piece {
    template: PieceTemplate,
    row_offset: i32,
    column_offset: i32,
    orientation: Orientation,
    piece_type: Type,
}

impl Piece {
    /// The piece's template holds the rotation states of its kind.
    pub closed spec fn wf(&self) -> bool {
        self.template.wf_for(self.piece_type)
    }

    pub closed spec fn spec_piece_type(&self) -> Type {
        self.piece_type
    }

    pub closed spec fn spec_orientation(&self) -> Orientation {
        self.orientation
    }

    pub closed spec fn spec_row_offset(&self) -> int {
        self.row_offset as int
    }

    pub closed spec fn spec_column_offset(&self) -> int {
        self.column_offset as int
    }

    /// The piece's current shape: its kind's shape in its orientation.
    pub open spec fn spec_shape(&self) -> Seq<Seq<Cell>> {
        shape_spec(self.spec_piece_type(), self.spec_orientation())
    }

    pub fn new(row_offset: i32, column_offset: i32, piece_type: Type) -> (r: Self)
        ensures
            r.wf(),
            r.spec_row_offset() == row_offset,
            r.spec_column_offset() == column_offset,
            r.spec_piece_type() == piece_type,
            r.spec_orientation() == Orientation::Top,
    {
        Self {
            template: PieceTemplate::new(piece_type),
            row_offset,
            column_offset,
            orientation: Orientation::Top,
            piece_type,
        }
    }

    pub fn row_offset(&self) -> (r: i32)
        ensures
            r as int == self.spec_row_offset(),
    {
        self.row_offset
    }

    pub fn column_offset(&self) -> (r: i32)
        ensures
            r as int == self.spec_column_offset(),
    {
        self.column_offset
    }

    pub fn piece_type(&self) -> (r: Type)
        ensures
            r == self.spec_piece_type(),
    {
        self.piece_type
    }

    pub fn rotate_clockwise(&mut self)
        ensures
            final(self).spec_orientation() == spec_clockwise(old(self).spec_orientation()),
            final(self).spec_row_offset() == old(self).spec_row_offset(),
            final(self).spec_column_offset() == old(self).spec_column_offset(),
            final(self).spec_piece_type() == old(self).spec_piece_type(),
            final(self).wf() == old(self).wf(),
    {
        self.orientation = self.orientation.clockwise();
    }

    pub fn rotate_anticlockwise(&mut self)
        ensures
            final(self).spec_orientation() == spec_anticlockwise(old(self).spec_orientation()),
            final(self).spec_row_offset() == old(self).spec_row_offset(),
            final(self).spec_column_offset() == old(self).spec_column_offset(),
            final(self).spec_piece_type() == old(self).spec_piece_type(),
            final(self).wf() == old(self).wf(),
    {
        self.orientation = self.orientation.anticlockwise();
    }

    pub fn move_down(&mut self)
        requires
            old(self).spec_row_offset() > i32::MIN,
        ensures
            final(self).spec_row_offset() == old(self).spec_row_offset() - 1,
            final(self).spec_column_offset() == old(self).spec_column_offset(),
            final(self).spec_orientation() == old(self).spec_orientation(),
            final(self).spec_piece_type() == old(self).spec_piece_type(),
            final(self).wf() == old(self).wf(),
    {
        self.row_offset = self.row_offset - 1;
    }

    pub fn move_left(&mut self)
        requires
            old(self).spec_column_offset() > i32::MIN,
        ensures
            final(self).spec_column_offset() == old(self).spec_column_offset() - 1,
            final(self).spec_row_offset() == old(self).spec_row_offset(),
            final(self).spec_orientation() == old(self).spec_orientation(),
            final(self).spec_piece_type() == old(self).spec_piece_type(),
            final(self).wf() == old(self).wf(),
    {
        self.column_offset = self.column_offset - 1;
    }

    pub fn move_right(&mut self)
        requires
            old(self).spec_column_offset() < i32::MAX,
        ensures
            final(self).spec_column_offset() == old(self).spec_column_offset() + 1,
            final(self).spec_row_offset() == old(self).spec_row_offset(),
            final(self).spec_orientation() == old(self).spec_orientation(),
            final(self).spec_piece_type() == old(self).spec_piece_type(),
            final(self).wf() == old(self).wf(),
    {
        self.column_offset = self.column_offset + 1;
    }

    pub fn revert_move_down(&mut self)
        requires
            old(self).spec_row_offset() < i32::MAX,
        ensures
            final(self).spec_row_offset() == old(self).spec_row_offset() + 1,
            final(self).spec_column_offset() == old(self).spec_column_offset(),
            final(self).spec_orientation() == old(self).spec_orientation(),
            final(self).spec_piece_type() == old(self).spec_piece_type(),
            final(self).wf() == old(self).wf(),
    {
        self.row_offset = self.row_offset + 1;
    }

    /// The piece's current shape matrix, a lookup into its template.
    pub fn shape(&self) -> (s: &Shape)
        requires
            self.wf(),
        ensures
            shape_view(s) == self.spec_shape(),
    {
        match self.orientation {
            Orientation::Top => self.template.top_shape(),
            Orientation::Right => self.template.right_shape(),
            Orientation::Bottom => self.template.bottom_shape(),
            Orientation::Left => self.template.left_shape(),
        }
    }

    pub fn horizontal_center_offset(&self) -> (r: u32)
        requires
            self.wf(),
        ensures
            r as int == spec_horizontal_center_offset(self.spec_piece_type()),
    {
        self.template.horizontal_center_offset
    }

    pub fn empty_row_offset(&self) -> (r: u32)
        requires
            self.wf(),
        ensures
            r as int == spec_empty_row_offset(self.spec_piece_type()),
    {
        self.template.empty_row_offset
    }
}

} // verus!
