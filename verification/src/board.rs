use vstd::prelude::*;

verus! {

/// The six chess piece kinds. Castling, promotion and check detection are
/// out of scope for this core; the kinds only drive movement geometry.
#[derive(Debug, Clone, Copy, PartialEq, Eq, Structural)]
pub enum Type {
    King,
    Queen,
    Rook,
    Bishop,
    Pawn,
    Knight,
}

#[derive(Debug, Clone, Copy, PartialEq, Eq, Structural)]
pub enum Color {
    Black,
    White,
}

/// A (file delta, rank delta) vector used for ray casting and leaper offsets.
#[derive(Debug, Clone, Copy, PartialEq, Eq)]
pub struct Direction(pub i64, pub i64);

/// A board coordinate: file is the column (A..H as 0..7), rank is the row
/// (1..8 as 0..7). A1 is (file 0, rank 0), the bottom-left corner from
/// white's perspective.
#[derive(Debug, Clone, Copy, PartialEq, Eq, Structural)]
pub struct Position {
    pub rank: i64,
    pub file: i64,
}

impl Position {
    /// What it means for a position to lie on the board.
    pub open spec fn valid(self) -> bool {
        0 <= self.file <= 7 && 0 <= self.rank <= 7
    }

    pub fn new(file: i64, rank: i64) -> (r: Self)
        ensures
            r == (Position { file, rank }),
    {
        Self { file, rank }
    }

    pub fn is_valid(&self) -> (r: bool)
        ensures
            r == self.valid(),
    {
        self.file <= 7 && self.file >= 0 && self.rank <= 7 && self.rank >= 0
    }
}

/// The linear square index of a position: rank-major, A1 = 0, H8 = 63.
pub open spec fn sq_index(p: Position) -> int {
    p.rank * 8 + p.file
}

/// A move is a value: an origin, a destination, and an optional promotion
/// kind (always `None` here, since promotion is a stated non-goal).
#[derive(Debug, Clone, PartialEq, Eq)]
pub struct Move {
    pub from: Position,
    pub to: Position,
    pub promotion: Option<Type>,
}

/// The move value with the given endpoints and no promotion.
pub open spec fn mv(from: Position, to: Position) -> Move {
    Move { from, to, promotion: None }
}

impl Move {
    pub fn normal(from: &Position, to: &Position) -> (r: Self)
        ensures
            r == mv(*from, *to),
    {
        Self { from: *from, to: *to, promotion: None }
    }
}

#[derive(Debug, Clone, Copy, PartialEq, Eq, Structural)]
pub struct Piece {
    pub kind: Type,
    pub color: Color,
}

/// The piece denoted by a FEN placement letter: `kqrbnp` for black,
/// `KQRBNP` for white; any other character denotes nothing.
pub open spec fn fen_char_piece(c: char) -> Option<Piece> {
    match c {
        'k' => Some(Piece { kind: Type::King, color: Color::Black }),
        'q' => Some(Piece { kind: Type::Queen, color: Color::Black }),
        'r' => Some(Piece { kind: Type::Rook, color: Color::Black }),
        'b' => Some(Piece { kind: Type::Bishop, color: Color::Black }),
        'n' => Some(Piece { kind: Type::Knight, color: Color::Black }),
        'p' => Some(Piece { kind: Type::Pawn, color: Color::Black }),
        'K' => Some(Piece { kind: Type::King, color: Color::White }),
        'Q' => Some(Piece { kind: Type::Queen, color: Color::White }),
        'R' => Some(Piece { kind: Type::Rook, color: Color::White }),
        'B' => Some(Piece { kind: Type::Bishop, color: Color::White }),
        'N' => Some(Piece { kind: Type::Knight, color: Color::White }),
        'P' => Some(Piece { kind: Type::Pawn, color: Color::White }),
        _ => None,
    }
}

impl Piece {
    pub fn new(kind: Type, color: Color) -> (r: Self)
        ensures
            r == (Piece { kind, color }),
    {
        Self { kind, color }
    }

    /// Decode one FEN placement letter; `None` marks a malformed character.
    pub fn from_fen(fen: char) -> (r: Option<Self>)
        ensures
            r == fen_char_piece(fen),
    {
        match fen {
            'k' => Some(Piece { kind: Type::King, color: Color::Black }),
            'q' => Some(Piece { kind: Type::Queen, color: Color::Black }),
            'r' => Some(Piece { kind: Type::Rook, color: Color::Black }),
            'b' => Some(Piece { kind: Type::Bishop, color: Color::Black }),
            'n' => Some(Piece { kind: Type::Knight, color: Color::Black }),
            'p' => Some(Piece { kind: Type::Pawn, color: Color::Black }),
            'K' => Some(Piece { kind: Type::King, color: Color::White }),
            'Q' => Some(Piece { kind: Type::Queen, color: Color::White }),
            'R' => Some(Piece { kind: Type::Rook, color: Color::White }),
            'B' => Some(Piece { kind: Type::Bishop, color: Color::White }),
            'N' => Some(Piece { kind: Type::Knight, color: Color::White }),
            'P' => Some(Piece { kind: Type::Pawn, color: Color::White }),
            _ => None,
        }
    }
}

/// The mathematical state of a board: 64 optional piece slots in square
/// order, the side to move, and the two en-passant target squares.
#[verifier::ext_equal]
pub struct BoardModel {
    pub squares: Seq<Option<Piece>>,
    pub turn: Color,
    pub en_passant_white: Option<Position>,
    pub en_passant_black: Option<Position>,
}

/// The other side.
pub open spec fn other_color(c: Color) -> Color {
    match c {
        Color::White => Color::Black,
        Color::Black => Color::White,
    }
}

impl BoardModel {
    /// Well-formedness: 64 slots; an en-passant target, when set, is the
    /// square passed over by a double pawn step (rank 2 for white, rank 5
    /// for black); at most one side's target is set at any time.
    pub open spec fn wf(self) -> bool {
        &&& self.squares.len() == 64
        &&& match self.en_passant_white {
            Some(p) => p.rank == 2 && 0 <= p.file <= 7,
            None => true,
        }
        &&& match self.en_passant_black {
            Some(p) => p.rank == 5 && 0 <= p.file <= 7,
            None => true,
        }
        &&& !(self.en_passant_white is Some && self.en_passant_black is Some)
    }

    /// The content of the slot at a position.
    pub open spec fn at(self, p: Position) -> Option<Piece> {
        self.squares[sq_index(p)]
    }
}

/// The run-length value of a FEN digit character (`'1'` to `'8'` skip that
/// many files); `None` for any other character.
pub open spec fn fen_digit(c: char) -> Option<u8> {
    match c {
        '1' => Some(1u8),
        '2' => Some(2u8),
        '3' => Some(3u8),
        '4' => Some(4u8),
        '5' => Some(5u8),
        '6' => Some(6u8),
        '7' => Some(7u8),
        '8' => Some(8u8),
        _ => None,
    }
}

/// Whether the FEN placement text from index `i` on is well formed when the
/// cursor stands at `row` ranks below the top and `col` files from the left:
/// a space ends parsing; `/` moves to the next of the 8 rows; a digit skips
/// files without leaving the row; a piece letter fills one file; anything
/// else is malformed.
pub open spec fn fen_ok_from(s: Seq<char>, i: int, row: int, col: int) -> bool
    decreases s.len() - i,
{
    if i < 0 || i >= s.len() {
        true
    } else {
        let c = s[i];
        if c == ' ' {
            true
        } else if c == '/' {
            row < 7 && fen_ok_from(s, i + 1, row + 1, 0)
        } else if fen_digit(c) is Some {
            col + fen_digit(c)->Some_0 <= 8 && fen_ok_from(s, i + 1, row, col + fen_digit(c)->Some_0)
        } else {
            fen_char_piece(c) is Some && col <= 7 && fen_ok_from(s, i + 1, row, col + 1)
        }
    }
}

/// The character at which parsing first fails, reading from index `i` with
/// the cursor at (row, col): the unrecognized character, the digit that
/// would run past the eighth file, the piece letter with no file left, or
/// the `/` past the eighth row. Meaningful only where `fen_ok_from` is
/// false; a space where parsing succeeds.
pub open spec fn fen_first_error(s: Seq<char>, i: int, row: int, col: int) -> char
    decreases s.len() - i,
{
    if i < 0 || i >= s.len() {
        ' '
    } else {
        let c = s[i];
        if c == ' ' {
            ' '
        } else if c == '/' {
            if row < 7 {
                fen_first_error(s, i + 1, row + 1, 0)
            } else {
                c
            }
        } else if fen_digit(c) is Some {
            if col + fen_digit(c)->Some_0 <= 8 {
                fen_first_error(s, i + 1, row, col + fen_digit(c)->Some_0)
            } else {
                c
            }
        } else if fen_char_piece(c) is Some {
            if col <= 7 {
                fen_first_error(s, i + 1, row, col + 1)
            } else {
                c
            }
        } else {
            c
        }
    }
}

/// The squares produced by parsing the FEN placement text from index `i`
/// on, starting from `sq`: the first input row is the top of the board
/// (rank 7), so a piece at cursor (row, col) lands on square
/// (7 - row) * 8 + col.
pub open spec fn fen_squares_from(
    s: Seq<char>,
    i: int,
    row: int,
    col: int,
    sq: Seq<Option<Piece>>,
) -> Seq<Option<Piece>>
    decreases s.len() - i,
{
    if i < 0 || i >= s.len() {
        sq
    } else {
        let c = s[i];
        if c == ' ' {
            sq
        } else if c == '/' {
            fen_squares_from(s, i + 1, row + 1, 0, sq)
        } else if fen_digit(c) is Some {
            fen_squares_from(s, i + 1, row, col + fen_digit(c)->Some_0, sq)
        } else if fen_char_piece(c) is Some {
            fen_squares_from(s, i + 1, row, col + 1, sq.update((7 - row) * 8 + col, fen_char_piece(c)))
        } else {
            sq
        }
    }
}

/// The board denoted by a FEN placement text, if it is well formed.
pub open spec fn fen_model(s: Seq<char>) -> Option<BoardModel> {
    if fen_ok_from(s, 0, 0, 0) {
        Some(BoardModel {
            squares: fen_squares_from(s, 0, 0, 0, empty_model().squares),
            turn: Color::White,
            en_passant_white: None,
            en_passant_black: None,
        })
    } else {
        None
    }
}

/// The placement text this library uses for the standard starting position.
pub open spec fn starting_fen() -> Seq<char> {
    "rnbqkbnr/pppppppp/8/8/8/8/PPPPPPPP/RNBQKBNR w KQkq - 0 1"@
}

/// The standard starting FEN is a well-formed placement.
pub proof fn lemma_starting_fen_ok()
    ensures
        fen_ok_from(starting_fen(), 0, 0, 0),
{
    reveal_strlit("rnbqkbnr/pppppppp/8/8/8/8/PPPPPPPP/RNBQKBNR w KQkq - 0 1");
    reveal_with_fuel(fen_ok_from, 45);
}

/// The back-rank piece kind on a file: rooks outside, then knights,
/// bishops, queen on file 3, king on file 4.
pub open spec fn back_rank_kind(file: int) -> Type {
    if file == 0 || file == 7 {
        Type::Rook
    } else if file == 1 || file == 6 {
        Type::Knight
    } else if file == 2 || file == 5 {
        Type::Bishop
    } else if file == 3 {
        Type::Queen
    } else {
        Type::King
    }
}

/// The standard starting occupant of linear square index `i`: white's back
/// rank and pawns on ranks 0 and 1, black's mirrored on ranks 7 and 6, the
/// 32 squares between them empty.
pub open spec fn starting_square(i: int) -> Option<Piece> {
    if 0 <= i < 8 {
        Some(Piece { kind: back_rank_kind(i), color: Color::White })
    } else if 8 <= i < 16 {
        Some(Piece { kind: Type::Pawn, color: Color::White })
    } else if 48 <= i < 56 {
        Some(Piece { kind: Type::Pawn, color: Color::Black })
    } else if 56 <= i < 64 {
        Some(Piece { kind: back_rank_kind(i - 56), color: Color::Black })
    } else {
        None
    }
}

/// Parsing the standard starting FEN reproduces the standard 32-piece
/// layout exactly: every piece on its square, the other 32 squares empty.
pub proof fn lemma_starting_layout()
    ensures
        fen_model(starting_fen()) matches Some(m) && m == (BoardModel {
            squares: Seq::new(64, |i: int| starting_square(i)),
            turn: Color::White,
            en_passant_white: None,
            en_passant_black: None,
        }),
{
    lemma_starting_fen_ok();
    reveal_strlit("rnbqkbnr/pppppppp/8/8/8/8/PPPPPPPP/RNBQKBNR w KQkq - 0 1");
    let m = fen_model(starting_fen())->Some_0;
    let s = starting_fen();
    let base = empty_model().squares;
    // Evaluate the parse one input row at a time: black's back rank, black's
    // pawns, the four empty rows, white's pawns, white's back rank, then the
    // terminating space.
    let t1 = base.update(56, Some(Piece { kind: Type::Rook, color: Color::Black })).update(57, Some(Piece { kind: Type::Knight, color: Color::Black })).update(58, Some(Piece { kind: Type::Bishop, color: Color::Black })).update(59, Some(Piece { kind: Type::Queen, color: Color::Black })).update(60, Some(Piece { kind: Type::King, color: Color::Black })).update(61, Some(Piece { kind: Type::Bishop, color: Color::Black })).update(62, Some(Piece { kind: Type::Knight, color: Color::Black })).update(63, Some(Piece { kind: Type::Rook, color: Color::Black }));
    assert(fen_squares_from(s, 0, 0, 0, base) == fen_squares_from(s, 9, 1, 0, t1)) by {
        reveal_with_fuel(fen_squares_from, 12);
    }
    let t2 = t1.update(48, Some(Piece { kind: Type::Pawn, color: Color::Black })).update(49, Some(Piece { kind: Type::Pawn, color: Color::Black })).update(50, Some(Piece { kind: Type::Pawn, color: Color::Black })).update(51, Some(Piece { kind: Type::Pawn, color: Color::Black })).update(52, Some(Piece { kind: Type::Pawn, color: Color::Black })).update(53, Some(Piece { kind: Type::Pawn, color: Color::Black })).update(54, Some(Piece { kind: Type::Pawn, color: Color::Black })).update(55, Some(Piece { kind: Type::Pawn, color: Color::Black }));
    assert(fen_squares_from(s, 9, 1, 0, t1) == fen_squares_from(s, 18, 2, 0, t2)) by {
        reveal_with_fuel(fen_squares_from, 12);
    }
    assert(fen_squares_from(s, 18, 2, 0, t2) == fen_squares_from(s, 26, 6, 0, t2)) by {
        reveal_with_fuel(fen_squares_from, 12);
    }
    let t3 = t2.update(8, Some(Piece { kind: Type::Pawn, color: Color::White })).update(9, Some(Piece { kind: Type::Pawn, color: Color::White })).update(10, Some(Piece { kind: Type::Pawn, color: Color::White })).update(11, Some(Piece { kind: Type::Pawn, color: Color::White })).update(12, Some(Piece { kind: Type::Pawn, color: Color::White })).update(13, Some(Piece { kind: Type::Pawn, color: Color::White })).update(14, Some(Piece { kind: Type::Pawn, color: Color::White })).update(15, Some(Piece { kind: Type::Pawn, color: Color::White }));
    assert(fen_squares_from(s, 26, 6, 0, t2) == fen_squares_from(s, 35, 7, 0, t3)) by {
        reveal_with_fuel(fen_squares_from, 12);
    }
    let t4 = t3.update(0, Some(Piece { kind: Type::Rook, color: Color::White })).update(1, Some(Piece { kind: Type::Knight, color: Color::White })).update(2, Some(Piece { kind: Type::Bishop, color: Color::White })).update(3, Some(Piece { kind: Type::Queen, color: Color::White })).update(4, Some(Piece { kind: Type::King, color: Color::White })).update(5, Some(Piece { kind: Type::Bishop, color: Color::White })).update(6, Some(Piece { kind: Type::Knight, color: Color::White })).update(7, Some(Piece { kind: Type::Rook, color: Color::White }));
    assert(fen_squares_from(s, 35, 7, 0, t3) == fen_squares_from(s, 43, 7, 8, t4)) by {
        reveal_with_fuel(fen_squares_from, 12);
    }
    assert(fen_squares_from(s, 43, 7, 8, t4) == t4) by {
        reveal_with_fuel(fen_squares_from, 2);
    }
    assert(m.squares == t4);
    assert forall|i: int| 0 <= i < 64 implies m.squares[i] == starting_square(i) by {}
    assert(m.squares =~= Seq::new(64, |i: int| starting_square(i)));
}

/// The board with no pieces, white to move, no en-passant targets.
pub open spec fn empty_model() -> BoardModel {
    BoardModel {
        squares: Seq::new(64, |i: int| None),
        turn: Color::White,
        en_passant_white: None,
        en_passant_black: None,
    }
}

/// The state a move leaves behind: the piece at `m.from` is relocated to
/// `m.to` and its origin cleared; if the mover is a pawn landing on the
/// opposing side's pre-move en-passant target, the pawn passed by (one rank
/// behind the destination for white, one ahead for black) is removed; the
/// mover's own en-passant target is set to the square passed over exactly
/// when the move is a double pawn step from the home rank, and cleared
/// otherwise; the opposing target is cleared (the opportunity lasts one
/// ply); the turn flips. Creation and consumption both read the pre-move
/// en-passant fields.
pub open spec fn move_result(b: BoardModel, m: Move) -> BoardModel
    recommends
        b.wf(),
        m.from.valid(),
        m.to.valid(),
        b.at(m.from) is Some,
{
    let piece = b.at(m.from)->Some_0;
    let moved = b.squares.update(sq_index(m.to), Some(piece)).update(sq_index(m.from), None);
    if piece.color == Color::White {
        let consumes = piece.kind == Type::Pawn && b.en_passant_black == Some(m.to);
        let beaten = Position { file: m.to.file, rank: (m.to.rank - 1) as i64 };
        let squares = if consumes { moved.update(sq_index(beaten), None) } else { moved };
        let creates = piece.kind == Type::Pawn && m.from.rank == 1 && m.to.rank == 3;
        BoardModel {
            squares,
            turn: other_color(b.turn),
            en_passant_white: if creates { Some(Position { file: m.from.file, rank: 2 }) } else { None },
            en_passant_black: None,
        }
    } else {
        let consumes = piece.kind == Type::Pawn && b.en_passant_white == Some(m.to);
        let beaten = Position { file: m.to.file, rank: (m.to.rank + 1) as i64 };
        let squares = if consumes { moved.update(sq_index(beaten), None) } else { moved };
        let creates = piece.kind == Type::Pawn && m.from.rank == 6 && m.to.rank == 4;
        BoardModel {
            squares,
            turn: other_color(b.turn),
            en_passant_white: None,
            en_passant_black: if creates { Some(Position { file: m.from.file, rank: 5 }) } else { None },
        }
    }
}

/// The board itself: a 64-slot piece array plus the side to move and the
/// en-passant bookkeeping. A board is a plain value; copying it yields an
/// independent deep copy (the piece array is owned, never aliased).
#[derive(Debug, Clone, Copy)]
pub struct Board {
    pub pieces: [Option<Piece>; 64],
    pub turn: Color,
    pub en_passant_white: Option<Position>,
    pub en_passant_black: Option<Position>,
}

impl View for Board {
    type V = BoardModel;

    open spec fn view(&self) -> BoardModel {
        BoardModel {
            squares: self.pieces@,
            turn: self.turn,
            en_passant_white: self.en_passant_white,
            en_passant_black: self.en_passant_black,
        }
    }
}

impl Board {
    pub fn empty() -> (r: Board)
        ensures
            r@ == empty_model(),
            r@.wf(),
    {
        let b = Board {
            pieces: [None; 64],
            turn: Color::White,
            en_passant_white: None,
            en_passant_black: None,
        };
        proof {
            assert(b@.squares =~= empty_model().squares);
            assert(b@ =~= empty_model());
        }
        b
    }

    /// Build a board from the placement field of a FEN string. Parsing
    /// stops at the first space; the later FEN fields (side to move,
    /// castling rights, ...) are not consumed by this layer. A malformed
    /// placement (unknown character, more than 8 files in a row, more than
    /// 8 rows) is a fatal input error: the result names the offending
    /// character.
    pub fn from_fen(fen: &str) -> (r: Result<Board, char>)
        ensures
            r is Ok <==> fen_ok_from(fen@, 0, 0, 0),
            r matches Ok(b) ==> Some(b@) == fen_model(fen@) && b@.wf(),
            r matches Err(c) ==> c == fen_first_error(fen@, 0, 0, 0),
    {
        let mut board = Board::empty();
        let mut row: usize = 0;
        let mut col: usize = 0;
        let len = fen.unicode_len();
        let mut i: usize = 0;

        while i < len
            invariant
                i <= len,
                len == fen@.len(),
                row <= 7,
                col <= 8,
                board@.turn == Color::White,
                board@.en_passant_white is None,
                board@.en_passant_black is None,
                board@.squares.len() == 64,
                fen_ok_from(fen@, 0, 0, 0) <==> fen_ok_from(fen@, i as int, row as int, col as int),
                fen_first_error(fen@, 0, 0, 0) == fen_first_error(
                    fen@,
                    i as int,
                    row as int,
                    col as int,
                ),
                fen_squares_from(fen@, 0, 0, 0, empty_model().squares) == fen_squares_from(
                    fen@,
                    i as int,
                    row as int,
                    col as int,
                    board@.squares,
                ),
            decreases len - i,
        {
            let c = fen.get_char(i);
            if c == ' ' {
                return Ok(board);
            } else if c == '/' {
                if row >= 7 {
                    return Err(c);
                }
                row = row + 1;
                col = 0;
            } else {
                let digit = match c {
                    '1' => Some(1usize),
                    '2' => Some(2usize),
                    '3' => Some(3usize),
                    '4' => Some(4usize),
                    '5' => Some(5usize),
                    '6' => Some(6usize),
                    '7' => Some(7usize),
                    '8' => Some(8usize),
                    _ => None,
                };
                match digit {
                    Some(d) => {
                        proof {
                            assert(fen_digit(c) matches Some(v) && v as int == d as int);
                        }
                        if col + d > 8 {
                            return Err(c);
                        }
                        col = col + d;
                    },
                    None => {
                        match Piece::from_fen(c) {
                            Some(piece) => {
                                if col > 7 {
                                    return Err(c);
                                }
                                board.set(col, 7 - row, Some(piece));
                                col = col + 1;
                            },
                            None => {
                                return Err(c);
                            },
                        }
                    },
                }
            }
            i = i + 1;
        }
        Ok(board)
    }

    /// The standard chess starting layout, white to move.
    pub fn starting_position() -> (r: Board)
        ensures
            Some(r@) == fen_model(starting_fen()),
            r@ == (BoardModel {
                squares: Seq::new(64, |i: int| starting_square(i)),
                turn: Color::White,
                en_passant_white: None,
                en_passant_black: None,
            }),
            r@.wf(),
    {
        let fen = "rnbqkbnr/pppppppp/8/8/8/8/PPPPPPPP/RNBQKBNR w KQkq - 0 1";
        proof {
            lemma_starting_fen_ok();
            lemma_starting_layout();
            assert(fen@ == starting_fen());
        }
        match Self::from_fen(fen) {
            Ok(b) => b,
            Err(_) => {
                proof {
                    assert(false);
                }
                Board::empty()
            },
        }
    }

    pub fn get(&self, col: usize, row: usize) -> (r: &Option<Piece>)
        requires
            col < 8,
            row < 8,
        ensures
            *r == self@.squares[row as int * 8 + col as int],
    {
        vstd::array::array_index_get(&self.pieces, row * 8 + col)
    }

    pub fn set(&mut self, col: usize, row: usize, piece: Option<Piece>)
        requires
            col < 8,
            row < 8,
        ensures
            final(self)@ == (BoardModel {
                squares: old(self)@.squares.update(row as int * 8 + col as int, piece),
                ..old(self)@
            }),
    {
        self.pieces[row * 8 + col] = piece;
    }

    pub fn get_pos(&self, pos: &Position) -> (r: &Option<Piece>)
        requires
            pos.valid(),
        ensures
            *r == self@.at(*pos),
    {
        self.get(pos.file as usize, pos.rank as usize)
    }

    pub fn set_pos(&mut self, pos: &Position, piece: Option<Piece>)
        requires
            pos.valid(),
        ensures
            final(self)@ == (BoardModel {
                squares: old(self)@.squares.update(sq_index(*pos), piece),
                ..old(self)@
            }),
    {
        self.set(pos.file as usize, pos.rank as usize, piece);
    }

    /// Apply a move in place. The caller must supply an occupied origin
    /// square; the effect is exactly `move_result` on the board's state.
    pub fn make_move(&mut self, m: &Move)
        requires
            old(self)@.wf(),
            m.from.valid(),
            m.to.valid(),
            old(self)@.at(m.from) is Some,
        ensures
            final(self)@ == move_result(old(self)@, *m),
            final(self)@.wf(),
    {
        let slot = *self.get_pos(&m.from);
        match slot {
            Some(piece) => {
                let ep_white_pre = self.en_passant_white;
                let ep_black_pre = self.en_passant_black;
                self.set_pos(&m.to, Some(piece));
                self.set_pos(&m.from, None);

                // Moves that create an en-passant opportunity set the
                // mover's target; any other move clears it. The opposing
                // target always expires with this ply.
                if piece.color == Color::White {
                    if piece.kind == Type::Pawn && m.from.rank == 1 && m.to.rank == 3 {
                        self.en_passant_white = Some(Position::new(m.from.file, 2));
                    } else {
                        self.en_passant_white = None;
                    }
                    self.en_passant_black = None;
                } else {
                    if piece.kind == Type::Pawn && m.from.rank == 6 && m.to.rank == 4 {
                        self.en_passant_black = Some(Position::new(m.from.file, 5));
                    } else {
                        self.en_passant_black = None;
                    }
                    self.en_passant_white = None;
                }

                // Moves that consume the opposing side's pre-move target
                // remove the pawn that was passed by.
                if piece.color == Color::White {
                    let consumes = piece.kind == Type::Pawn && (match ep_black_pre {
                        Some(e) => e.file == m.to.file && e.rank == m.to.rank,
                        None => false,
                    });
                    if consumes {
                        let beaten = Position::new(m.to.file, m.to.rank - 1);
                        self.set_pos(&beaten, None);
                    }
                } else {
                    let consumes = piece.kind == Type::Pawn && (match ep_white_pre {
                        Some(e) => e.file == m.to.file && e.rank == m.to.rank,
                        None => false,
                    });
                    if consumes {
                        let beaten = Position::new(m.to.file, m.to.rank + 1);
                        self.set_pos(&beaten, None);
                    }
                }

                if self.turn == Color::White {
                    self.turn = Color::Black;
                } else {
                    self.turn = Color::White;
                }
                proof {
                    assert(self@.squares =~= move_result(old(self)@, *m).squares);
                    assert(self@ =~= move_result(old(self)@, *m));
                }
            },
            None => {
                proof {
                    assert(false);
                }
            },
        }
    }

    /// Fold the piece array into a 64-bit occupancy mask, one bit per
    /// occupied square, bit `i` for linear square index `i`.
    pub fn occupancy(&self) -> (r: u64)
        ensures
            forall|j: u64| j < 64 ==> (((r >> j) & 1 == 1) <==> self@.squares[j as int] is Some),
    {
        let mut mask = 0u64;
        let mut i: usize = 0;
        proof {
            lemma_zero_bits();
        }
        while i < 64
            invariant
                i <= 64,
                forall|j: u64| j < i ==> (((mask >> j) & 1 == 1) <==> self@.squares[j as int] is Some),
                forall|j: u64| i <= j < 64 ==> (mask >> j) & 1 == 0,
            decreases 64 - i,
        {
            if self.pieces[i].is_some() {
                let newmask = mask | (1u64 << (i as u64));
                proof {
                    assert forall|j: u64| j < 64 implies (newmask >> j) & 1 == (
                        if j == i as u64 { 1u64 } else { (mask >> j) & 1 }
                    ) by {
                        lemma_or_bit(mask, i as u64, j);
                    }
                }
                mask = newmask;
            } else {
                proof {
                    assert((mask >> (i as u64)) & 1 == 0);
                }
            }
            i = i + 1;
        }
        mask
    }
}

/// A white double pawn step sets white's en-passant target to the square
/// passed over; the opposing side's next move, when it does not capture
/// onto that square, clears it again.
pub proof fn lemma_en_passant_white_lifecycle(b: BoardModel, m1: Move, m2: Move)
    requires
        b.wf(),
        m1.from.valid(),
        m1.to.valid(),
        b.at(m1.from) == Some(Piece { kind: Type::Pawn, color: Color::White }),
        m1.from.rank == 1,
        m1.to.rank == 3,
        m2.from.valid(),
        m2.to.valid(),
        ({
            let b1 = move_result(b, m1);
            &&& b1.at(m2.from) matches Some(p) && p.color == Color::Black
            &&& !(b1.at(m2.from)->Some_0.kind == Type::Pawn && b1.en_passant_white == Some(m2.to))
        }),
    ensures
        move_result(b, m1).en_passant_white == Some(Position { file: m1.from.file, rank: 2 }),
        move_result(move_result(b, m1), m2).en_passant_white is None,
{
}

/// A black double pawn step sets black's en-passant target to the square
/// passed over; the opposing side's next move, when it does not capture
/// onto that square, clears it again.
pub proof fn lemma_en_passant_black_lifecycle(b: BoardModel, m1: Move, m2: Move)
    requires
        b.wf(),
        m1.from.valid(),
        m1.to.valid(),
        b.at(m1.from) == Some(Piece { kind: Type::Pawn, color: Color::Black }),
        m1.from.rank == 6,
        m1.to.rank == 4,
        m2.from.valid(),
        m2.to.valid(),
        ({
            let b1 = move_result(b, m1);
            &&& b1.at(m2.from) matches Some(p) && p.color == Color::White
            &&& !(b1.at(m2.from)->Some_0.kind == Type::Pawn && b1.en_passant_black == Some(m2.to))
        }),
    ensures
        move_result(b, m1).en_passant_black == Some(Position { file: m1.from.file, rank: 5 }),
        move_result(move_result(b, m1), m2).en_passant_black is None,
{
}

/// Every bit of zero is clear.
proof fn lemma_zero_bits()
    ensures
        forall|j: u64| #[trigger] ((0u64 >> j) & 1) == 0,
{
    assert forall|j: u64| #[trigger] ((0u64 >> j) & 1) == 0 by {
        assert((0u64 >> j) & 1 == 0) by (bit_vector);
    }
}

/// Setting bit `i` leaves every other bit unchanged and makes bit `i` one.
proof fn lemma_or_bit(m: u64, i: u64, j: u64)
    requires
        i < 64,
        j < 64,
    ensures
        ((m | (1u64 << i)) >> j) & 1 == (if j == i { 1u64 } else { (m >> j) & 1 }),
{
    assert(i < 64 && j < 64 ==> ((m | (1u64 << i)) >> j) & 1 == (if j == i { 1u64 } else { (m >> j) & 1 }))
        by (bit_vector);
}

} // verus!
