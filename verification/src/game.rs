//! The game state machine: the aggregate root owning the board, the active
//! piece, the look-ahead queue, the bag generator and the score.  It
//! processes move, rotate and tick commands, performs locking and spawning,
//! and ends the game on a lock above the visible field or on a spawn that
//! already collides.

use vstd::prelude::*;

use std::collections::VecDeque;

use crate::board;
use crate::board::{Board, BoardView, empty_row, frozen_grid, piece_fits, spec_hidden_rows, surviving_rows};
use crate::piece;
use crate::piece::{Orientation, Piece, Type, shape_spec, spec_empty_row_offset, spec_horizontal_center_offset};
use crate::piece_type_bag_generator::PieceTypeGenerator;

verus! {

/// The visible height of the playing field.
pub open spec fn spec_field_height() -> int {
    20
}

/// The width of the playing field.
pub open spec fn spec_field_width() -> int {
    10
}

/// The look-ahead queue's capacity.
pub open spec fn spec_queue_capacity() -> int {
    3
}

/// The observable state of a piece: its kind, orientation and position.
pub open spec fn piece_state(q: Piece, t: Type, o: Orientation, ro: int, co: int) -> bool {
    &&& q.spec_piece_type() == t
    &&& q.spec_orientation() == o
    &&& q.spec_row_offset() == ro
    &&& q.spec_column_offset() == co
}

/// The row at which a freshly spawned piece of kind `t` is placed: its
/// first occupied shape row lands just above the visible field.
pub open spec fn spec_spawn_row(t: Type) -> int {
    spec_field_height() - spec_empty_row_offset(t)
}

/// The column at which a freshly spawned piece of kind `t` is placed:
/// horizontally centered.
pub open spec fn spec_spawn_column(t: Type) -> int {
    spec_field_width() / 2 - spec_horizontal_center_offset(t)
}

/// What spawning a piece of kind `t` onto `grid` does to the active piece
/// and the game-over flag: if the spawn position is legal the piece starts
/// falling there in its canonical orientation; otherwise the stack has
/// reached the spawn zone and the game is over, with no piece active and
/// nothing frozen.
pub open spec fn spawn_outcome(
    grid: Seq<Seq<piece::Cell>>,
    t: Type,
    piece_after: Option<Piece>,
    over_after: bool,
) -> bool {
    let ro = spec_spawn_row(t);
    let co = spec_spawn_column(t);
    if piece_fits(
        grid,
        shape_spec(t, Orientation::Top),
        ro,
        co,
        spec_field_height() + spec_hidden_rows(),
        spec_field_width(),
    ) {
        &&& !over_after
        &&& piece_after matches Some(q) && piece_state(q, t, Orientation::Top, ro, co)
    } else {
        &&& over_after
        &&& piece_after is None
    }
}

/// The aggregate root of one game session.
pub struct Game {
    board: Board,
    piece: Option<Piece>,
    next_pieces_capacity: usize,
    next_pieces: VecDeque<Piece>,
    score: u32,
    generator: PieceTypeGenerator,
    game_over: bool,
}

impl Game {
    /// The board is the standard field with a valid grid; queued pieces are
    /// valid; an active piece always sits at a legal (non-colliding)
    /// position; after game over no piece is active.
    pub closed spec fn wf(&self) -> bool {
        &&& self.board.wf()
        &&& self.board@.height == spec_field_height()
        &&& self.board@.width == spec_field_width()
        &&& self.next_pieces_capacity == spec_queue_capacity()
        &&& self.next_pieces@.len() <= spec_queue_capacity()
        &&& forall|k: int|
            0 <= k < self.next_pieces@.len() ==> (#[trigger] self.next_pieces@[k]).wf()
        &&& self.generator.wf()
        &&& match self.piece {
            Some(p) => {
                &&& p.wf()
                &&& piece_fits(
                    self.board@.grid,
                    p.spec_shape(),
                    p.spec_row_offset(),
                    p.spec_column_offset(),
                    self.board@.height + spec_hidden_rows(),
                    self.board@.width,
                )
            },
            None => true,
        }
        &&& (self.game_over ==> self.piece is None)
    }

    pub closed spec fn spec_board(&self) -> BoardView {
        self.board@
    }

    pub closed spec fn spec_piece(&self) -> Option<Piece> {
        self.piece
    }

    pub closed spec fn spec_queue(&self) -> Seq<Piece> {
        self.next_pieces@
    }

    pub closed spec fn spec_score(&self) -> int {
        self.score as int
    }

    pub closed spec fn spec_game_over(&self) -> bool {
        self.game_over
    }

    /// A fresh game: a standard empty field, no active piece, an empty
    /// look-ahead queue, a fresh generator and a zero score.
    pub fn new() -> (r: Self)
        ensures
            r.wf(),
            !r.spec_game_over(),
            r.spec_piece() is None,
            r.spec_queue().len() == 0,
            r.spec_score() == 0,
            r.spec_board().height == spec_field_height(),
            r.spec_board().width == spec_field_width(),
            r.spec_board().grid == Seq::new(
                (spec_field_height() + spec_hidden_rows()) as nat,
                |i: int| empty_row(spec_field_width()),
            ),
    {
        let next_pieces_capacity: usize = 3;
        Game {
            board: Board::new(20, 10),
            piece: None,
            next_pieces_capacity,
            next_pieces: VecDeque::with_capacity(next_pieces_capacity),
            score: 0,
            generator: PieceTypeGenerator::new(),
            game_over: false,
        }
    }

    /// A fresh piece of the generator's next kind, parked at the origin
    /// until spawn places it.
    fn create_next_piece(&mut self) -> (p: Piece)
        requires
            old(self).generator.wf(),
        ensures
            p.wf(),
            p.spec_orientation() == Orientation::Top,
            final(self).generator.wf(),
            final(self).board == old(self).board,
            final(self).piece == old(self).piece,
            final(self).next_pieces == old(self).next_pieces,
            final(self).next_pieces_capacity == old(self).next_pieces_capacity,
            final(self).score == old(self).score,
            final(self).game_over == old(self).game_over,
    {
        Piece::new(0, 0, self.generator.next_piece_type())
    }

    /// Refill the look-ahead queue to its capacity.
    fn fill_next_pieces(&mut self)
        requires
            old(self).generator.wf(),
            old(self).next_pieces_capacity == spec_queue_capacity(),
            old(self).next_pieces@.len() <= spec_queue_capacity(),
            forall|k: int|
                0 <= k < old(self).next_pieces@.len() ==> (#[trigger] old(self).next_pieces@[k]).wf(),
        ensures
            final(self).generator.wf(),
            final(self).next_pieces@.len() == spec_queue_capacity(),
            final(self).next_pieces@.take(old(self).next_pieces@.len() as int) == old(self).next_pieces@,
            forall|k: int|
                0 <= k < final(self).next_pieces@.len() ==> (#[trigger] final(self).next_pieces@[k]).wf(),
            final(self).board == old(self).board,
            final(self).piece == old(self).piece,
            final(self).next_pieces_capacity == old(self).next_pieces_capacity,
            final(self).score == old(self).score,
            final(self).game_over == old(self).game_over,
    {
        let ghost q0 = self.next_pieces@;
        while self.next_pieces.len() < self.next_pieces_capacity
            invariant
                self.generator.wf(),
                self.next_pieces_capacity == spec_queue_capacity(),
                q0.len() <= self.next_pieces@.len() <= spec_queue_capacity(),
                self.next_pieces@.take(q0.len() as int) == q0,
                forall|k: int|
                    0 <= k < self.next_pieces@.len() ==> (#[trigger] self.next_pieces@[k]).wf(),
                self.board == old(self).board,
                self.piece == old(self).piece,
                self.score == old(self).score,
                self.game_over == old(self).game_over,
            decreases spec_queue_capacity() - self.next_pieces@.len(),
        {
            let ghost qpre = self.next_pieces@;
            let piece = self.create_next_piece();
            self.next_pieces.push_back(piece);
            proof {
                assert(self.next_pieces@.take(q0.len() as int) =~= qpre.take(q0.len() as int));
            }
        }
    }

    /// Pop the front of the look-ahead queue, refilling the queue to its
    /// capacity both before (for a fresh game) and after the pop.
    fn pop_next_piece(&mut self) -> (p: Piece)
        requires
            old(self).generator.wf(),
            old(self).next_pieces_capacity == spec_queue_capacity(),
            old(self).next_pieces@.len() <= spec_queue_capacity(),
            forall|k: int|
                0 <= k < old(self).next_pieces@.len() ==> (#[trigger] old(self).next_pieces@[k]).wf(),
        ensures
            p.wf(),
            final(self).generator.wf(),
            final(self).next_pieces@.len() == spec_queue_capacity(),
            forall|k: int|
                0 <= k < final(self).next_pieces@.len() ==> (#[trigger] final(self).next_pieces@[k]).wf(),
            old(self).next_pieces@.len() == spec_queue_capacity() ==> {
                &&& p == old(self).next_pieces@[0]
                &&& final(self).next_pieces@.take(spec_queue_capacity() - 1) == old(self).next_pieces@.skip(1)
            },
            final(self).board == old(self).board,
            final(self).piece == old(self).piece,
            final(self).next_pieces_capacity == old(self).next_pieces_capacity,
            final(self).score == old(self).score,
            final(self).game_over == old(self).game_over,
    {
        if self.next_pieces.len() < self.next_pieces_capacity {
            self.fill_next_pieces();
        }
        let ghost qfull = self.next_pieces@;
        let piece = match self.next_pieces.pop_front() {
            Some(piece) => piece,
            None => self.create_next_piece(),
        };
        let ghost qpopped = self.next_pieces@;
        self.fill_next_pieces();
        proof {
            if old(self).next_pieces@.len() == spec_queue_capacity() {
                assert(qfull == old(self).next_pieces@);
                assert(qpopped == qfull.skip(1));
                assert(self.next_pieces@.take(qpopped.len() as int) == qpopped);
                assert(self.next_pieces@.take(spec_queue_capacity() - 1) =~= old(self).next_pieces@.skip(1));
            }
        }
        piece
    }

    /// Add the number of lines just cleared to the score.  The score grows
    /// by the cleared-line count on every lock event; at the integer's upper
    /// limit it stays put instead of wrapping.
    fn update_score(&mut self, cleared_lines: u32)
        ensures
            final(self).score == if old(self).score + cleared_lines <= u32::MAX {
                old(self).score + cleared_lines
            } else {
                u32::MAX as int
            },
            final(self).score >= old(self).score,
            final(self).board == old(self).board,
            final(self).piece == old(self).piece,
            final(self).next_pieces == old(self).next_pieces,
            final(self).next_pieces_capacity == old(self).next_pieces_capacity,
            final(self).generator == old(self).generator,
            final(self).game_over == old(self).game_over,
    {
        if self.score <= u32::MAX - cleared_lines {
            self.score = self.score + cleared_lines;
        } else {
            self.score = u32::MAX;
        }
    }

    /// Pop the next piece kind from the look-ahead queue and place a fresh
    /// piece of that kind at the spawn position, in its canonical
    /// orientation.  A spawn position that already collides with the frozen
    /// stack ends the game without freezing anything.
    fn spawn(&mut self)
        requires
            old(self).board.wf(),
            old(self).board@.height == spec_field_height(),
            old(self).board@.width == spec_field_width(),
            old(self).generator.wf(),
            old(self).next_pieces_capacity == spec_queue_capacity(),
            old(self).next_pieces@.len() <= spec_queue_capacity(),
            forall|k: int|
                0 <= k < old(self).next_pieces@.len() ==> (#[trigger] old(self).next_pieces@[k]).wf(),
            !old(self).game_over,
        ensures
            final(self).wf(),
            final(self).board == old(self).board,
            final(self).score == old(self).score,
            final(self).generator.wf(),
            final(self).next_pieces@.len() == spec_queue_capacity(),
            old(self).next_pieces@.len() == spec_queue_capacity() ==> {
                &&& final(self).next_pieces@.take(spec_queue_capacity() - 1) == old(self).next_pieces@.skip(1)
                &&& spawn_outcome(
                    old(self).board@.grid,
                    old(self).next_pieces@[0].spec_piece_type(),
                    final(self).piece,
                    final(self).game_over,
                )
            },
            exists|t: Type|
                #![trigger spec_spawn_row(t)]
                spawn_outcome(
                    old(self).board@.grid,
                    t,
                    final(self).piece,
                    final(self).game_over,
                ),
    {
        let piece = self.pop_next_piece();
        let ghost t = piece.spec_piece_type();
        proof {
            assert(spec_empty_row_offset(t) == 0 || spec_empty_row_offset(t) == 1);
            assert(spec_horizontal_center_offset(t) == 1 || spec_horizontal_center_offset(t)
                == 2);
        }
        let row = self.board.height() as u32 - piece.empty_row_offset();
        let column = self.board.width() as u32 / 2 - piece.horizontal_center_offset();
        let fresh = Piece::new(row as i32, column as i32, piece.piece_type());
        if self.board.is_colliding(&fresh) {
            self.piece = None;
            self.game_over = true;
        } else {
            self.piece = Some(fresh);
        }
        proof {
            assert(spawn_outcome(old(self).board@.grid, t, self.piece, self.game_over));
        }
    }

    /// Move the active piece one column to the left; if the new position
    /// collides, revert it, so the piece visibly stays put.  A no-op without
    /// an active piece.
    pub fn move_left(&mut self)
        requires
            old(self).wf(),
        ensures
            final(self).wf(),
            final(self).spec_board() == old(self).spec_board(),
            final(self).spec_score() == old(self).spec_score(),
            final(self).spec_queue() == old(self).spec_queue(),
            final(self).spec_game_over() == old(self).spec_game_over(),
            match old(self).spec_piece() {
                None => final(self).spec_piece() is None,
                Some(p) => ({
                    let target = if piece_fits(
                        old(self).spec_board().grid,
                        p.spec_shape(),
                        p.spec_row_offset(),
                        p.spec_column_offset() - 1,
                        old(self).spec_board().height + spec_hidden_rows(),
                        old(self).spec_board().width,
                    ) {
                        p.spec_column_offset() - 1
                    } else {
                        p.spec_column_offset()
                    };
                    final(self).spec_piece() matches Some(q) && piece_state(
                        q,
                        p.spec_piece_type(),
                        p.spec_orientation(),
                        p.spec_row_offset(),
                        target,
                    )
                }),
            },
    {
        let mut piece = match self.piece.take() {
            None => {
                return;
            },
            Some(piece) => piece,
        };
        proof {
            piece::lemma_shape_spec_facts(piece.spec_piece_type(), piece.spec_orientation());
            board::lemma_in_bounds_offset_band(
                piece.spec_shape(),
                piece.spec_row_offset(),
                piece.spec_column_offset(),
                spec_field_height() + spec_hidden_rows(),
                spec_field_width(),
            );
        }
        piece.move_left();
        if self.board.is_colliding(&piece) {
            piece.move_right();
        }
        self.piece = Some(piece);
    }

    /// Move the active piece one column to the right; if the new position
    /// collides, revert it.  A no-op without an active piece.
    pub fn move_right(&mut self)
        requires
            old(self).wf(),
        ensures
            final(self).wf(),
            final(self).spec_board() == old(self).spec_board(),
            final(self).spec_score() == old(self).spec_score(),
            final(self).spec_queue() == old(self).spec_queue(),
            final(self).spec_game_over() == old(self).spec_game_over(),
            match old(self).spec_piece() {
                None => final(self).spec_piece() is None,
                Some(p) => ({
                    let target = if piece_fits(
                        old(self).spec_board().grid,
                        p.spec_shape(),
                        p.spec_row_offset(),
                        p.spec_column_offset() + 1,
                        old(self).spec_board().height + spec_hidden_rows(),
                        old(self).spec_board().width,
                    ) {
                        p.spec_column_offset() + 1
                    } else {
                        p.spec_column_offset()
                    };
                    final(self).spec_piece() matches Some(q) && piece_state(
                        q,
                        p.spec_piece_type(),
                        p.spec_orientation(),
                        p.spec_row_offset(),
                        target,
                    )
                }),
            },
    {
        let mut piece = match self.piece.take() {
            None => {
                return;
            },
            Some(piece) => piece,
        };
        proof {
            piece::lemma_shape_spec_facts(piece.spec_piece_type(), piece.spec_orientation());
            board::lemma_in_bounds_offset_band(
                piece.spec_shape(),
                piece.spec_row_offset(),
                piece.spec_column_offset(),
                spec_field_height() + spec_hidden_rows(),
                spec_field_width(),
            );
        }
        piece.move_right();
        if self.board.is_colliding(&piece) {
            piece.move_left();
        }
        self.piece = Some(piece);
    }

    /// Rotate the active piece one quarter turn clockwise; if the rotated
    /// shape collides, rotate it back.  A no-op without an active piece.
    pub fn rotate_clockwise(&mut self)
        requires
            old(self).wf(),
        ensures
            final(self).wf(),
            final(self).spec_board() == old(self).spec_board(),
            final(self).spec_score() == old(self).spec_score(),
            final(self).spec_queue() == old(self).spec_queue(),
            final(self).spec_game_over() == old(self).spec_game_over(),
            match old(self).spec_piece() {
                None => final(self).spec_piece() is None,
                Some(p) => ({
                    let target = if piece_fits(
                        old(self).spec_board().grid,
                        shape_spec(p.spec_piece_type(), piece::spec_clockwise(p.spec_orientation())),
                        p.spec_row_offset(),
                        p.spec_column_offset(),
                        old(self).spec_board().height + spec_hidden_rows(),
                        old(self).spec_board().width,
                    ) {
                        piece::spec_clockwise(p.spec_orientation())
                    } else {
                        p.spec_orientation()
                    };
                    final(self).spec_piece() matches Some(q) && piece_state(
                        q,
                        p.spec_piece_type(),
                        target,
                        p.spec_row_offset(),
                        p.spec_column_offset(),
                    )
                }),
            },
    {
        let mut piece = match self.piece.take() {
            None => {
                return;
            },
            Some(piece) => piece,
        };
        proof {
            piece::lemma_rotation_round_trip(piece.spec_piece_type(), piece.spec_orientation());
        }
        piece.rotate_clockwise();
        if self.board.is_colliding(&piece) {
            piece.rotate_anticlockwise();
        }
        self.piece = Some(piece);
    }

    /// One tick of gravity, also issued as a soft drop.  The piece moves one
    /// row down if the new position is legal.  Otherwise the move reverts
    /// and the piece locks: if it does not lie fully inside the visible
    /// field, the game is over; else it freezes into the board, completed
    /// lines are cleared and counted into the score, and the next piece
    /// spawns from the look-ahead queue (game over if the spawn position
    /// already collides).  A no-op without an active piece.
    pub fn move_down(&mut self)
        requires
            old(self).wf(),
        ensures
            final(self).wf(),
            match old(self).spec_piece() {
                None => {
                    &&& final(self).spec_piece() is None
                    &&& final(self).spec_board() == old(self).spec_board()
                    &&& final(self).spec_score() == old(self).spec_score()
                    &&& final(self).spec_queue() == old(self).spec_queue()
                    &&& final(self).spec_game_over() == old(self).spec_game_over()
                },
                Some(p) => ({
                    let g = old(self).spec_board().grid;
                    let s = p.spec_shape();
                    if piece_fits(
                        g,
                        s,
                        p.spec_row_offset() - 1,
                        p.spec_column_offset(),
                        spec_field_height() + spec_hidden_rows(),
                        spec_field_width(),
                    ) {
                        &&& final(self).spec_board() == old(self).spec_board()
                        &&& final(self).spec_score() == old(self).spec_score()
                        &&& final(self).spec_queue() == old(self).spec_queue()
                        &&& final(self).spec_game_over() == old(self).spec_game_over()
                        &&& final(self).spec_piece() matches Some(q) && piece_state(
                            q,
                            p.spec_piece_type(),
                            p.spec_orientation(),
                            p.spec_row_offset() - 1,
                            p.spec_column_offset(),
                        )
                    } else if !piece_fits(
                        g,
                        s,
                        p.spec_row_offset(),
                        p.spec_column_offset(),
                        spec_field_height(),
                        spec_field_width(),
                    ) {
                        &&& final(self).spec_game_over()
                        &&& final(self).spec_piece() is None
                        &&& final(self).spec_board() == old(self).spec_board()
                        &&& final(self).spec_score() == old(self).spec_score()
                        &&& final(self).spec_queue() == old(self).spec_queue()
                    } else {
                        let fg = frozen_grid(g, s, p.spec_row_offset(), p.spec_column_offset());
                        let survivors = surviving_rows(fg);
                        let cleared = fg.len() - survivors.len();
                        &&& final(self).spec_board().height == old(self).spec_board().height
                        &&& final(self).spec_board().width == old(self).spec_board().width
                        &&& final(self).spec_board().grid == survivors + Seq::new(
                            cleared as nat,
                            |k: int| empty_row(spec_field_width()),
                        )
                        &&& final(self).spec_score() == (if old(self).spec_score() + cleared
                            <= u32::MAX {
                            old(self).spec_score() + cleared
                        } else {
                            u32::MAX as int
                        })
                        &&& final(self).spec_score() >= old(self).spec_score()
                        &&& final(self).spec_queue().len() == spec_queue_capacity()
                        &&& (old(self).spec_queue().len() == spec_queue_capacity() ==> {
                            &&& final(self).spec_queue().take(spec_queue_capacity() - 1) == old(
                                self,
                            ).spec_queue().skip(1)
                            &&& spawn_outcome(
                                final(self).spec_board().grid,
                                old(self).spec_queue()[0].spec_piece_type(),
                                final(self).spec_piece(),
                                final(self).spec_game_over(),
                            )
                        })
                        &&& exists|t: Type|
                            #![trigger spec_spawn_row(t)]
                            spawn_outcome(
                                final(self).spec_board().grid,
                                t,
                                final(self).spec_piece(),
                                final(self).spec_game_over(),
                            )
                    }
                }),
            },
    {
        let mut piece = match self.piece.take() {
            None => {
                return;
            },
            Some(piece) => piece,
        };
        proof {
            piece::lemma_shape_spec_facts(piece.spec_piece_type(), piece.spec_orientation());
            board::lemma_in_bounds_offset_band(
                piece.spec_shape(),
                piece.spec_row_offset(),
                piece.spec_column_offset(),
                spec_field_height() + spec_hidden_rows(),
                spec_field_width(),
            );
        }
        piece.move_down();
        if !self.board.is_colliding(&piece) {
            self.piece = Some(piece);
            return;
        }
        piece.revert_move_down();
        if !self.board.is_fully_in(&piece) {
            self.game_over = true;
            return;
        }
        self.board.freeze(piece);
        let cleared_lines = self.board.clear_lines();
        self.update_score(cleared_lines.len() as u32);
        self.spawn();
    }

    /// Start the game: spawn the first piece.  A no-op after game over.
    pub fn run(&mut self)
        requires
            old(self).wf(),
        ensures
            final(self).wf(),
            old(self).spec_game_over() ==> *final(self) == *old(self),
            !old(self).spec_game_over() ==> {
                &&& final(self).spec_board() == old(self).spec_board()
                &&& final(self).spec_score() == old(self).spec_score()
                &&& final(self).spec_queue().len() == spec_queue_capacity()
                &&& exists|t: Type|
                    #![trigger spec_spawn_row(t)]
                    spawn_outcome(
                        old(self).spec_board().grid,
                        t,
                        final(self).spec_piece(),
                        final(self).spec_game_over(),
                    )
            },
            (!old(self).spec_game_over() && old(self).spec_queue().len() == spec_queue_capacity())
                ==> {
                &&& final(self).spec_queue().take(spec_queue_capacity() - 1) == old(
                    self,
                ).spec_queue().skip(1)
                &&& spawn_outcome(
                    old(self).spec_board().grid,
                    old(self).spec_queue()[0].spec_piece_type(),
                    final(self).spec_piece(),
                    final(self).spec_game_over(),
                )
            },
    {
        if self.game_over {
            return;
        }
        self.spawn();
    }

    /// A no-op hook for the driver's pause key: the core state is untouched.
    pub fn pause(&mut self)
        ensures
            *final(self) == *old(self),
    {
    }

    /// The board, for rendering.
    pub fn board(&self) -> (r: &Board)
        ensures
            r@ == self.spec_board(),
    {
        &self.board
    }

    /// The active piece, if one is falling.
    pub fn piece(&self) -> (r: Option<&Piece>)
        ensures
            match r {
                Some(p) => self.spec_piece() == Some(*p),
                None => self.spec_piece() is None,
            },
    {
        self.piece.as_ref()
    }

    /// The look-ahead queue, front first.
    pub fn next_pieces(&self) -> (r: &VecDeque<Piece>)
        ensures
            r@ == self.spec_queue(),
    {
        &self.next_pieces
    }

    /// The current score: the total number of lines cleared.
    pub fn score(&self) -> (r: u32)
        ensures
            r as int == self.spec_score(),
    {
        self.score
    }

    /// Whether the game has ended.  Game over is a terminal state: every
    /// further command is a no-op.
    pub fn is_game_over(&self) -> (r: bool)
        ensures
            r == self.spec_game_over(),
    {
        self.game_over
    }
}

} // verus!
