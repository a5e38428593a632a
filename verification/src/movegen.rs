use vstd::prelude::*;

use crate::board::{Board, BoardModel, Color, Direction, Move, Piece, Position, Type, move_result, mv, sq_index};

verus! {

/// Whether a piece of `color` may land on `to`: the square is empty or
/// holds an enemy piece (self-capture is illegal).
pub open spec fn can_land(b: BoardModel, to: Position, color: Color) -> bool {
    match b.at(to) {
        None => true,
        Some(q) => q.color != color,
    }
}

/// One step from `p` along `d`.
pub open spec fn ray_step(p: Position, d: Direction) -> Position {
    Position { file: (p.file + d.0) as i64, rank: (p.rank + d.1) as i64 }
}

/// The position `k` steps from `p` along `d`.
pub open spec fn ray_pos(p: Position, d: Direction, k: nat) -> Position
    decreases k,
{
    if k == 0 {
        p
    } else {
        ray_step(ray_pos(p, d, (k - 1) as nat), d)
    }
}

/// A ray direction: both components in -1..=1, not both zero.
pub open spec fn unit_dir(d: Direction) -> bool {
    -1 <= d.0 <= 1 && -1 <= d.1 <= 1 && !(d.0 == 0 && d.1 == 0)
}

/// The moves a ray walk emits after reaching `cur`: walk outward one square
/// at a time; an off-board step ends the ray; an occupied square ends the
/// ray and is included exactly when its occupant is an enemy; empty squares
/// are included and walked past. `fuel` bounds the walk; 8 steps always
/// leave the board.
pub open spec fn ray_moves_rest(
    b: BoardModel,
    origin: Position,
    cur: Position,
    d: Direction,
    color: Color,
    fuel: nat,
) -> Seq<Move>
    decreases fuel,
{
    if fuel == 0 {
        Seq::empty()
    } else {
        let nxt = ray_step(cur, d);
        if !nxt.valid() {
            Seq::empty()
        } else {
            match b.at(nxt) {
                Some(q) => if q.color != color {
                    seq![mv(origin, nxt)]
                } else {
                    Seq::empty()
                },
                None => seq![mv(origin, nxt)] + ray_moves_rest(b, origin, nxt, d, color, (fuel - 1) as nat),
            }
        }
    }
}

/// The full ray from `pos` along `d`.
pub open spec fn ray_moves_spec(b: BoardModel, pos: Position, d: Direction, color: Color) -> Seq<Move> {
    ray_moves_rest(b, pos, pos, d, color, 8)
}

/// Coordinates along a ray move by exactly one component step per square.
proof fn lemma_ray_pos_coords(origin: Position, d: Direction, k: nat)
    requires
        origin.valid(),
        unit_dir(d),
        k <= 8,
    ensures
        d.0 == 1 ==> ray_pos(origin, d, k).file == origin.file + k,
        d.0 == 0 ==> ray_pos(origin, d, k).file == origin.file,
        d.0 == -1 ==> ray_pos(origin, d, k).file == origin.file - k,
        d.1 == 1 ==> ray_pos(origin, d, k).rank == origin.rank + k,
        d.1 == 0 ==> ray_pos(origin, d, k).rank == origin.rank,
        d.1 == -1 ==> ray_pos(origin, d, k).rank == origin.rank - k,
    decreases k,
{
    if k > 0 {
        lemma_ray_pos_coords(origin, d, (k - 1) as nat);
    }
}

/// Eight steps along any ray direction leave the board.
proof fn lemma_ray_off_board(origin: Position, d: Direction)
    requires
        origin.valid(),
        unit_dir(d),
    ensures
        !ray_pos(origin, d, 8).valid(),
{
    lemma_ray_pos_coords(origin, d, 8);
}

/// The square `n + 1` steps out stops the walk without being listed: it is
/// off the board or held by a piece of the walking side's own color.
pub open spec fn ray_stops_after(b: BoardModel, origin: Position, d: Direction, color: Color, n: int) -> bool {
    let nxt = ray_pos(origin, d, (n + 1) as nat);
    !nxt.valid() || (b.at(nxt) matches Some(q) && q.color == color)
}

/// Cast a ray from `pos_` along `dir` and collect the reachable squares as
/// moves. The ray stops exactly at the first occupied square in the
/// direction: that square is included in the result iff its occupant is of
/// the opposing color, and the ray never continues past it.
pub fn shoot_ray(pos_: &Position, dir: Direction, board: &Board, color: Color) -> (r: Vec<Move>)
    requires
        board@.wf(),
        pos_.valid(),
        unit_dir(dir),
    ensures
        r@ == ray_moves_spec(board@, *pos_, dir, color),
        forall|j: int|
            0 <= j < r@.len() ==> #[trigger] r@[j] == mv(*pos_, ray_pos(*pos_, dir, (j + 1) as nat))
                && ray_pos(*pos_, dir, (j + 1) as nat).valid(),
        forall|j: int|
            0 <= j < r@.len() ==> (board@.at(#[trigger] ray_pos(*pos_, dir, (j + 1) as nat))
                matches Some(q) ==> q.color != color),
        forall|j: int| 0 <= j < r@.len() - 1 ==> board@.at(#[trigger] ray_pos(*pos_, dir, (j + 1) as nat)) is None,
        ({
            let n = r@.len() as int;
            (n == 0 || board@.at(ray_pos(*pos_, dir, n as nat)) is None) ==> ray_stops_after(
                board@,
                *pos_,
                dir,
                color,
                n,
            )
        }),
{
    let mut result: Vec<Move> = Vec::new();
    let mut pos = Position::new(pos_.file, pos_.rank);
    let ghost mut k: int = 0;
    loop
        invariant_except_break
            board@.wf(),
            pos_.valid(),
            unit_dir(dir),
            0 <= k <= 7,
            pos == ray_pos(*pos_, dir, k as nat),
            pos.valid(),
            result@.len() == k,
            forall|j: int|
                0 <= j < k ==> result@[j] == mv(*pos_, #[trigger] ray_pos(*pos_, dir, (j + 1) as nat))
                    && ray_pos(*pos_, dir, (j + 1) as nat).valid()
                    && board@.at(ray_pos(*pos_, dir, (j + 1) as nat)) is None,
            ray_moves_spec(board@, *pos_, dir, color) == result@ + ray_moves_rest(
                board@,
                *pos_,
                pos,
                dir,
                color,
                (8 - k) as nat,
            ),
        ensures
            result@ == ray_moves_spec(board@, *pos_, dir, color),
            forall|j: int|
                0 <= j < result@.len() ==> #[trigger] result@[j] == mv(
                    *pos_,
                    ray_pos(*pos_, dir, (j + 1) as nat),
                ) && ray_pos(*pos_, dir, (j + 1) as nat).valid(),
            forall|j: int|
                0 <= j < result@.len() ==> (board@.at(#[trigger] ray_pos(*pos_, dir, (j + 1) as nat))
                    matches Some(q) ==> q.color != color),
            forall|j: int|
                0 <= j < result@.len() - 1 ==> board@.at(#[trigger] ray_pos(*pos_, dir, (j + 1) as nat)) is None,
            ({
                let n = result@.len() as int;
                (n == 0 || board@.at(ray_pos(*pos_, dir, n as nat)) is None) ==> ray_stops_after(
                    board@,
                    *pos_,
                    dir,
                    color,
                    n,
                )
            }),
        decreases 8 - k,
    {
        let nextp = Position::new(pos.file + dir.0, pos.rank + dir.1);
        proof {
            assert(nextp == ray_step(pos, dir));
            assert(nextp == ray_pos(*pos_, dir, (k + 1) as nat));
        }
        if nextp.is_valid() {
            let ghost prev = result@;
            let ghost rest_now = ray_moves_rest(board@, *pos_, pos, dir, color, (8 - k) as nat);
            let occupant = *board.get_pos(&nextp);
            match occupant {
                Some(p) => {
                    if p.color != color {
                        result.push(Move::normal(pos_, &nextp));
                        proof {
                            assert(rest_now == seq![mv(*pos_, nextp)]);
                            assert(result@ =~= prev + rest_now);
                        }
                    } else {
                        proof {
                            assert(rest_now =~= Seq::<Move>::empty());
                            assert(result@ =~= prev + rest_now);
                        }
                    }
                    break;
                },
                None => {
                    result.push(Move::normal(pos_, &nextp));
                    proof {
                        if k == 7 {
                            lemma_ray_off_board(*pos_, dir);
                            assert(false);
                        }
                        assert(rest_now == seq![mv(*pos_, nextp)] + ray_moves_rest(
                            board@,
                            *pos_,
                            nextp,
                            dir,
                            color,
                            (8 - (k + 1)) as nat,
                        ));
                        assert(result@ =~= prev + seq![mv(*pos_, nextp)]);
                        assert(prev + rest_now =~= result@ + ray_moves_rest(
                            board@,
                            *pos_,
                            nextp,
                            dir,
                            color,
                            (8 - (k + 1)) as nat,
                        ));
                        k = k + 1;
                    }
                    pos = nextp;
                },
            }
        } else {
            proof {
                assert(ray_moves_rest(board@, *pos_, pos, dir, color, (8 - k) as nat)
                    =~= Seq::<Move>::empty());
                assert(result@ =~= result@ + Seq::<Move>::empty());
            }
            break;
        }
    }
    result
}

/// Rook rays: the four axis directions, in a fixed order.
pub open spec fn rook_moves_spec(b: BoardModel, pos: Position, color: Color) -> Seq<Move> {
    ray_moves_spec(b, pos, Direction(1i64, 0i64), color) + ray_moves_spec(
        b,
        pos,
        Direction(-1i64, 0i64),
        color,
    ) + ray_moves_spec(b, pos, Direction(0i64, 1i64), color) + ray_moves_spec(
        b,
        pos,
        Direction(0i64, -1i64),
        color,
    )
}

pub fn rook_moves(pos: &Position, board: &Board, color: Color) -> (r: Vec<Move>)
    requires
        board@.wf(),
        pos.valid(),
    ensures
        r@ == rook_moves_spec(board@, *pos, color),
{
    let mut result: Vec<Move> = Vec::new();

    let mut a = shoot_ray(pos, Direction(1, 0), board, color);
    result.append(&mut a);
    let mut a = shoot_ray(pos, Direction(-1, 0), board, color);
    result.append(&mut a);
    let mut a = shoot_ray(pos, Direction(0, 1), board, color);
    result.append(&mut a);
    let mut a = shoot_ray(pos, Direction(0, -1), board, color);
    result.append(&mut a);

    proof {
        assert(result@ =~= rook_moves_spec(board@, *pos, color));
    }
    result
}

/// Bishop rays: the four diagonal directions, in a fixed order.
pub open spec fn bishop_moves_spec(b: BoardModel, pos: Position, color: Color) -> Seq<Move> {
    ray_moves_spec(b, pos, Direction(1i64, 1i64), color) + ray_moves_spec(
        b,
        pos,
        Direction(1i64, -1i64),
        color,
    ) + ray_moves_spec(b, pos, Direction(-1i64, 1i64), color) + ray_moves_spec(
        b,
        pos,
        Direction(-1i64, -1i64),
        color,
    )
}

pub fn bishop_moves(pos: &Position, board: &Board, color: Color) -> (r: Vec<Move>)
    requires
        board@.wf(),
        pos.valid(),
    ensures
        r@ == bishop_moves_spec(board@, *pos, color),
{
    let mut result: Vec<Move> = Vec::new();

    let mut a = shoot_ray(pos, Direction(1, 1), board, color);
    result.append(&mut a);
    let mut a = shoot_ray(pos, Direction(1, -1), board, color);
    result.append(&mut a);
    let mut a = shoot_ray(pos, Direction(-1, 1), board, color);
    result.append(&mut a);
    let mut a = shoot_ray(pos, Direction(-1, -1), board, color);
    result.append(&mut a);

    proof {
        assert(result@ =~= bishop_moves_spec(board@, *pos, color));
    }
    result
}

/// Queen moves: the union of the rook and bishop rays.
pub open spec fn queen_moves_spec(b: BoardModel, pos: Position, color: Color) -> Seq<Move> {
    rook_moves_spec(b, pos, color) + bishop_moves_spec(b, pos, color)
}

pub fn queen_moves(pos: &Position, board: &Board, color: Color) -> (r: Vec<Move>)
    requires
        board@.wf(),
        pos.valid(),
    ensures
        r@ == queen_moves_spec(board@, *pos, color),
{
    let mut result: Vec<Move> = Vec::new();

    let mut a = rook_moves(pos, board, color);
    result.append(&mut a);
    let mut a = bishop_moves(pos, board, color);
    result.append(&mut a);

    proof {
        assert(result@ =~= queen_moves_spec(board@, *pos, color));
    }
    result
}

/// Whether a piece of `color` may land on `to`.
pub fn is_valid_move(to: &Position, board: &Board, color: Color) -> (r: bool)
    requires
        board@.wf(),
        to.valid(),
    ensures
        r == can_land(board@, *to, color),
{
    if let Some(piece) = *board.get_pos(to) {
        piece.color != color
    } else {
        true
    }
}


/// The knight's eight leap offsets, in the order they are enumerated.
pub open spec fn knight_dirs() -> Seq<Direction> {
    seq![
        Direction(2i64, 1i64),
        Direction(2i64, -1i64),
        Direction(-2i64, 1i64),
        Direction(-2i64, -1i64),
        Direction(1i64, 2i64),
        Direction(1i64, -2i64),
        Direction(-1i64, 2i64),
        Direction(-1i64, -2i64),
    ]
}

/// The king's eight step offsets, in the order they are enumerated.
/// Castling is excluded entirely.
pub open spec fn king_dirs() -> Seq<Direction> {
    seq![
        Direction(0i64, -1i64),
        Direction(0i64, 1i64),
        Direction(1i64, 0i64),
        Direction(-1i64, 0i64),
        Direction(-1i64, -1i64),
        Direction(-1i64, 1i64),
        Direction(1i64, -1i64),
        Direction(1i64, 1i64),
    ]
}

/// The moves of a leaper standing on `pos`, from offset `i` of `dirs` on:
/// each on-board target that is empty or enemy-occupied, in offset order.
pub open spec fn leaper_moves_from(
    b: BoardModel,
    pos: Position,
    color: Color,
    dirs: Seq<Direction>,
    i: int,
) -> Seq<Move>
    decreases dirs.len() - i,
{
    if i < 0 || i >= dirs.len() {
        Seq::empty()
    } else {
        let t = ray_step(pos, dirs[i]);
        let rest = leaper_moves_from(b, pos, color, dirs, i + 1);
        if t.valid() && can_land(b, t, color) {
            seq![mv(pos, t)] + rest
        } else {
            rest
        }
    }
}

pub open spec fn knight_moves_spec(b: BoardModel, pos: Position, color: Color) -> Seq<Move> {
    leaper_moves_from(b, pos, color, knight_dirs(), 0)
}

pub open spec fn king_moves_spec(b: BoardModel, pos: Position, color: Color) -> Seq<Move> {
    leaper_moves_from(b, pos, color, king_dirs(), 0)
}

fn knight_directions() -> (r: Vec<Direction>)
    ensures
        r@ == knight_dirs(),
{
    let mut v: Vec<Direction> = Vec::new();
    v.push(Direction(2, 1));
    v.push(Direction(2, -1));
    v.push(Direction(-2, 1));
    v.push(Direction(-2, -1));
    v.push(Direction(1, 2));
    v.push(Direction(1, -2));
    v.push(Direction(-1, 2));
    v.push(Direction(-1, -2));
    proof {
        assert(v@ =~= knight_dirs());
    }
    v
}

fn king_directions() -> (r: Vec<Direction>)
    ensures
        r@ == king_dirs(),
{
    let mut v: Vec<Direction> = Vec::new();
    v.push(Direction(0, -1));
    v.push(Direction(0, 1));
    v.push(Direction(1, 0));
    v.push(Direction(-1, 0));
    v.push(Direction(-1, -1));
    v.push(Direction(-1, 1));
    v.push(Direction(1, -1));
    v.push(Direction(1, 1));
    proof {
        assert(v@ =~= king_dirs());
    }
    v
}

/// Every offset of the two leaper tables is small (needed to step from an
/// on-board square without arithmetic overflow).
proof fn lemma_leaper_dirs_small()
    ensures
        forall|j: int|
            0 <= j < knight_dirs().len() ==> -2 <= (#[trigger] knight_dirs()[j]).0 <= 2 && -2
                <= knight_dirs()[j].1 <= 2,
        forall|j: int|
            0 <= j < king_dirs().len() ==> -2 <= (#[trigger] king_dirs()[j]).0 <= 2 && -2
                <= king_dirs()[j].1 <= 2,
{
    assert forall|j: int|
        0 <= j < knight_dirs().len() implies -2 <= (#[trigger] knight_dirs()[j]).0 <= 2 && -2
        <= knight_dirs()[j].1 <= 2 by {
        if j == 0 {
        } else if j == 1 {
        } else if j == 2 {
        } else if j == 3 {
        } else if j == 4 {
        } else if j == 5 {
        } else if j == 6 {
        } else {
            assert(j == 7);
        }
    }
    assert forall|j: int|
        0 <= j < king_dirs().len() implies -2 <= (#[trigger] king_dirs()[j]).0 <= 2 && -2
        <= king_dirs()[j].1 <= 2 by {
        if j == 0 {
        } else if j == 1 {
        } else if j == 2 {
        } else if j == 3 {
        } else if j == 4 {
        } else if j == 5 {
        } else if j == 6 {
        } else {
            assert(j == 7);
        }
    }
}

/// Walk a leaper offset table and collect the landable targets.
fn leaper_moves(pos: &Position, board: &Board, color: Color, dirs: &Vec<Direction>) -> (r: Vec<Move>)
    requires
        board@.wf(),
        pos.valid(),
        forall|j: int|
            0 <= j < dirs@.len() ==> -2 <= (#[trigger] dirs@[j]).0 <= 2 && -2 <= dirs@[j].1 <= 2,
    ensures
        r@ == leaper_moves_from(board@, *pos, color, dirs@, 0),
{
    let mut result: Vec<Move> = Vec::new();
    let mut i: usize = 0;
    while i < dirs.len()
        invariant
            board@.wf(),
            pos.valid(),
            forall|j: int|
                0 <= j < dirs@.len() ==> -2 <= (#[trigger] dirs@[j]).0 <= 2 && -2 <= dirs@[j].1
                    <= 2,
            i <= dirs@.len(),
            leaper_moves_from(board@, *pos, color, dirs@, 0) == result@ + leaper_moves_from(
                board@,
                *pos,
                color,
                dirs@,
                i as int,
            ),
        decreases dirs@.len() - i,
    {
        let d = dirs[i];
        let t = Position::new(pos.file + d.0, pos.rank + d.1);
        let ghost prev = result@;
        proof {
            assert(t == ray_step(*pos, dirs@[i as int]));
        }
        if t.is_valid() {
            if is_valid_move(&t, board, color) {
                result.push(Move::normal(pos, &t));
            }
        }
        proof {
            let rest_i = leaper_moves_from(board@, *pos, color, dirs@, i as int);
            let rest_next = leaper_moves_from(board@, *pos, color, dirs@, i as int + 1);
            if t.valid() && can_land(board@, t, color) {
                assert(rest_i == seq![mv(*pos, t)] + rest_next);
                assert(result@ =~= prev + seq![mv(*pos, t)]);
                assert(prev + rest_i =~= result@ + rest_next);
            } else {
                assert(rest_i == rest_next);
            }
        }
        i = i + 1;
    }
    proof {
        assert(result@ =~= result@ + leaper_moves_from(board@, *pos, color, dirs@, dirs@.len() as int));
    }
    result
}

pub fn knight_moves(pos: &Position, board: &Board, color: Color) -> (r: Vec<Move>)
    requires
        board@.wf(),
        pos.valid(),
    ensures
        r@ == knight_moves_spec(board@, *pos, color),
{
    let dirs = knight_directions();
    proof {
        lemma_leaper_dirs_small();
    }
    leaper_moves(pos, board, color, &dirs)
}

pub fn king_moves(pos: &Position, board: &Board, color: Color) -> (r: Vec<Move>)
    requires
        board@.wf(),
        pos.valid(),
    ensures
        r@ == king_moves_spec(board@, *pos, color),
{
    let dirs = king_directions();
    proof {
        lemma_leaper_dirs_small();
    }
    leaper_moves(pos, board, color, &dirs)
}


/// Whether a white pawn may capture onto `t`: the square holds a black
/// piece, or it is exactly the opposing side's current en-passant target
/// (in which case the square itself is empty and the captured pawn sits one
/// rank behind it).
pub open spec fn white_capture_ok(b: BoardModel, t: Position) -> bool {
    match b.at(t) {
        Some(q) => q.color == Color::Black,
        None => b.en_passant_black == Some(t),
    }
}

/// Whether a black pawn may capture onto `t`.
pub open spec fn black_capture_ok(b: BoardModel, t: Position) -> bool {
    match b.at(t) {
        Some(q) => q.color == Color::White,
        None => b.en_passant_white == Some(t),
    }
}

/// White pawn moves from `pos`: one step up if empty; from the home rank 1
/// also two steps up if both squares are empty; the two diagonally-forward
/// captures where `white_capture_ok` holds. Promotion is a stated non-goal:
/// a move onto the far rank carries no promotion kind.
pub open spec fn white_pawn_moves_spec(b: BoardModel, pos: Position) -> Seq<Move> {
    let one = Position { file: pos.file, rank: (pos.rank + 1) as i64 };
    let two = Position { file: pos.file, rank: (pos.rank + 2) as i64 };
    let capl = Position { file: (pos.file - 1) as i64, rank: (pos.rank + 1) as i64 };
    let capr = Position { file: (pos.file + 1) as i64, rank: (pos.rank + 1) as i64 };
    let fwd = if pos.rank == 1 {
        (if b.at(one) is None {
            seq![mv(pos, one)]
        } else {
            Seq::empty()
        }) + (if b.at(one) is None && b.at(two) is None {
            seq![mv(pos, two)]
        } else {
            Seq::empty()
        })
    } else {
        if one.valid() && b.at(one) is None {
            seq![mv(pos, one)]
        } else {
            Seq::empty()
        }
    };
    let cl = if capl.valid() && white_capture_ok(b, capl) {
        seq![mv(pos, capl)]
    } else {
        Seq::empty()
    };
    let cr = if capr.valid() && white_capture_ok(b, capr) {
        seq![mv(pos, capr)]
    } else {
        Seq::empty()
    };
    fwd + cl + cr
}

/// Black pawn moves from `pos`: one step down if empty; from the home rank
/// 6 also two steps down if both squares are empty; the two
/// diagonally-forward captures where `black_capture_ok` holds.
pub open spec fn black_pawn_moves_spec(b: BoardModel, pos: Position) -> Seq<Move> {
    let one = Position { file: pos.file, rank: (pos.rank - 1) as i64 };
    let two = Position { file: pos.file, rank: (pos.rank - 2) as i64 };
    let capl = Position { file: (pos.file - 1) as i64, rank: (pos.rank - 1) as i64 };
    let capr = Position { file: (pos.file + 1) as i64, rank: (pos.rank - 1) as i64 };
    let fwd = if pos.rank == 6 {
        (if b.at(one) is None {
            seq![mv(pos, one)]
        } else {
            Seq::empty()
        }) + (if b.at(one) is None && b.at(two) is None {
            seq![mv(pos, two)]
        } else {
            Seq::empty()
        })
    } else {
        if one.valid() && b.at(one) is None {
            seq![mv(pos, one)]
        } else {
            Seq::empty()
        }
    };
    let cl = if capl.valid() && black_capture_ok(b, capl) {
        seq![mv(pos, capl)]
    } else {
        Seq::empty()
    };
    let cr = if capr.valid() && black_capture_ok(b, capr) {
        seq![mv(pos, capr)]
    } else {
        Seq::empty()
    };
    fwd + cl + cr
}

pub open spec fn pawn_moves_spec(b: BoardModel, pos: Position, color: Color) -> Seq<Move> {
    if color == Color::White {
        white_pawn_moves_spec(b, pos)
    } else {
        black_pawn_moves_spec(b, pos)
    }
}

pub fn white_pawn_moves(pos: &Position, board: &Board) -> (r: Vec<Move>)
    requires
        board@.wf(),
        pos.valid(),
    ensures
        r@ == white_pawn_moves_spec(board@, *pos),
{
    let mut result: Vec<Move> = Vec::new();

    let one_step = Position::new(pos.file, pos.rank + 1);
    let two_step = Position::new(pos.file, pos.rank + 2);
    if pos.rank == 1 {
        let one_free = board.get_pos(&one_step).is_none();
        if one_free {
            result.push(Move::normal(pos, &one_step));
        }
        if one_free && board.get_pos(&two_step).is_none() {
            result.push(Move::normal(pos, &two_step));
        }
    } else {
        if one_step.is_valid() && board.get_pos(&one_step).is_none() {
            result.push(Move::normal(pos, &one_step));
        }
    }

    let capture_left = Position::new(pos.file - 1, pos.rank + 1);
    let capture_right = Position::new(pos.file + 1, pos.rank + 1);

    if capture_left.is_valid() {
        if let Some(piece) = *board.get_pos(&capture_left) {
            if piece.color == Color::Black {
                result.push(Move::normal(pos, &capture_left));
            }
        } else {
            let is_ep = match board.en_passant_black {
                Some(e) => e.file == capture_left.file && e.rank == capture_left.rank,
                None => false,
            };
            if is_ep {
                result.push(Move::normal(pos, &capture_left));
            }
        }
    }
    if capture_right.is_valid() {
        if let Some(piece) = *board.get_pos(&capture_right) {
            if piece.color == Color::Black {
                result.push(Move::normal(pos, &capture_right));
            }
        } else {
            let is_ep = match board.en_passant_black {
                Some(e) => e.file == capture_right.file && e.rank == capture_right.rank,
                None => false,
            };
            if is_ep {
                result.push(Move::normal(pos, &capture_right));
            }
        }
    }

    proof {
        assert(result@ =~= white_pawn_moves_spec(board@, *pos));
    }
    result
}

pub fn black_pawn_moves(pos: &Position, board: &Board) -> (r: Vec<Move>)
    requires
        board@.wf(),
        pos.valid(),
    ensures
        r@ == black_pawn_moves_spec(board@, *pos),
{
    let mut result: Vec<Move> = Vec::new();

    let one_step = Position::new(pos.file, pos.rank - 1);
    let two_step = Position::new(pos.file, pos.rank - 2);
    if pos.rank == 6 {
        let one_free = board.get_pos(&one_step).is_none();
        if one_free {
            result.push(Move::normal(pos, &one_step));
        }
        if one_free && board.get_pos(&two_step).is_none() {
            result.push(Move::normal(pos, &two_step));
        }
    } else {
        if one_step.is_valid() && board.get_pos(&one_step).is_none() {
            result.push(Move::normal(pos, &one_step));
        }
    }

    let capture_left = Position::new(pos.file - 1, pos.rank - 1);
    let capture_right = Position::new(pos.file + 1, pos.rank - 1);

    if capture_left.is_valid() {
        if let Some(piece) = *board.get_pos(&capture_left) {
            if piece.color == Color::White {
                result.push(Move::normal(pos, &capture_left));
            }
        } else {
            let is_ep = match board.en_passant_white {
                Some(e) => e.file == capture_left.file && e.rank == capture_left.rank,
                None => false,
            };
            if is_ep {
                result.push(Move::normal(pos, &capture_left));
            }
        }
    }
    if capture_right.is_valid() {
        if let Some(piece) = *board.get_pos(&capture_right) {
            if piece.color == Color::White {
                result.push(Move::normal(pos, &capture_right));
            }
        } else {
            let is_ep = match board.en_passant_white {
                Some(e) => e.file == capture_right.file && e.rank == capture_right.rank,
                None => false,
            };
            if is_ep {
                result.push(Move::normal(pos, &capture_right));
            }
        }
    }

    proof {
        assert(result@ =~= black_pawn_moves_spec(board@, *pos));
    }
    result
}

pub fn pawn_moves(pos: &Position, board: &Board, color: Color) -> (r: Vec<Move>)
    requires
        board@.wf(),
        pos.valid(),
    ensures
        r@ == pawn_moves_spec(board@, *pos, color),
{
    if color == Color::White {
        white_pawn_moves(pos, board)
    } else {
        black_pawn_moves(pos, board)
    }
}

/// The coordinate of linear square index `idx`.
pub open spec fn pos_of_index(idx: int) -> Position {
    Position { file: (idx % 8) as i64, rank: (idx / 8) as i64 }
}

/// The moves contributed by the piece (if any) of `color` on square `idx`,
/// dispatched by its kind.
pub open spec fn square_moves_spec(b: BoardModel, color: Color, idx: int) -> Seq<Move> {
    let pos = pos_of_index(idx);
    match b.squares[idx] {
        None => Seq::empty(),
        Some(p) => if p.color == color {
            match p.kind {
                Type::Rook => rook_moves_spec(b, pos, color),
                Type::Bishop => bishop_moves_spec(b, pos, color),
                Type::Knight => knight_moves_spec(b, pos, color),
                Type::King => king_moves_spec(b, pos, color),
                Type::Queen => queen_moves_spec(b, pos, color),
                Type::Pawn => pawn_moves_spec(b, pos, color),
            }
        } else {
            Seq::empty()
        },
    }
}

/// The moves of all pieces of `color` on squares `idx` and beyond, in
/// board-scan order.
pub open spec fn all_moves_from(b: BoardModel, color: Color, idx: int) -> Seq<Move>
    decreases 64 - idx,
{
    if idx < 0 || idx >= 64 {
        Seq::empty()
    } else {
        square_moves_spec(b, color, idx) + all_moves_from(b, color, idx + 1)
    }
}

/// Every pseudo-legal move of the given side, in board-scan order
/// (rank-major) with generator-internal order within a square.
pub open spec fn all_moves_spec(b: BoardModel, color: Color) -> Seq<Move> {
    all_moves_from(b, color, 0)
}

pub fn all_moves(board: &Board, color: Color) -> (r: Vec<Move>)
    requires
        board@.wf(),
    ensures
        r@ == all_moves_spec(board@, color),
{
    let mut result: Vec<Move> = Vec::new();

    let mut row: usize = 0;
    while row < 8
        invariant
            board@.wf(),
            row <= 8,
            all_moves_spec(board@, color) == result@ + all_moves_from(board@, color, row as int * 8),
        decreases 8 - row,
    {
        let mut col: usize = 0;
        while col < 8
            invariant
                board@.wf(),
                row < 8,
                col <= 8,
                all_moves_spec(board@, color) == result@ + all_moves_from(
                    board@,
                    color,
                    row as int * 8 + col as int,
                ),
            decreases 8 - col,
        {
            let pos = Position::new(col as i64, row as i64);
            let ghost idx: int = row as int * 8 + col as int;
            let ghost prev = result@;
            proof {
                assert(pos == pos_of_index(idx));
                assert(sq_index(pos) == idx);
            }
            if let Some(piece) = *board.get_pos(&pos) {
                if piece.color == color {
                    match piece.kind {
                        Type::Rook => {
                            let mut mvs = rook_moves(&pos, board, color);
                            result.append(&mut mvs);
                        },
                        Type::Bishop => {
                            let mut mvs = bishop_moves(&pos, board, color);
                            result.append(&mut mvs);
                        },
                        Type::Knight => {
                            let mut mvs = knight_moves(&pos, board, color);
                            result.append(&mut mvs);
                        },
                        Type::King => {
                            let mut mvs = king_moves(&pos, board, color);
                            result.append(&mut mvs);
                        },
                        Type::Queen => {
                            let mut mvs = queen_moves(&pos, board, color);
                            result.append(&mut mvs);
                        },
                        Type::Pawn => {
                            let mut mvs = pawn_moves(&pos, board, color);
                            result.append(&mut mvs);
                        },
                    }
                }
            }
            proof {
                assert(result@ =~= prev + square_moves_spec(board@, color, idx));
                assert(all_moves_from(board@, color, idx) == square_moves_spec(board@, color, idx)
                    + all_moves_from(board@, color, idx + 1));
                assert(prev + all_moves_from(board@, color, idx) =~= result@ + all_moves_from(
                    board@,
                    color,
                    idx + 1,
                ));
            }
            col = col + 1;
        }
        row = row + 1;
    }
    proof {
        assert(all_moves_from(board@, color, 64) == Seq::<Move>::empty());
        assert(result@ =~= result@ + Seq::<Move>::empty());
    }
    result
}


/// Every move in `s` starts at `origin` and ends on the board.
pub open spec fn moves_from_ok(origin: Position, s: Seq<Move>) -> bool {
    forall|j: int| 0 <= j < s.len() ==> (#[trigger] s[j]).from == origin && s[j].to.valid()
}

proof fn lemma_from_ok_concat(origin: Position, s1: Seq<Move>, s2: Seq<Move>)
    requires
        moves_from_ok(origin, s1),
        moves_from_ok(origin, s2),
    ensures
        moves_from_ok(origin, s1 + s2),
{
    assert forall|j: int|
        0 <= j < (s1 + s2).len() implies (#[trigger] (s1 + s2)[j]).from == origin && (s1 + s2)[j].to.valid() by {
        if j < s1.len() {
            assert((s1 + s2)[j] == s1[j]);
        } else {
            assert((s1 + s2)[j] == s2[j - s1.len()]);
        }
    }
}

proof fn lemma_ray_rest_from_ok(
    b: BoardModel,
    origin: Position,
    cur: Position,
    d: Direction,
    color: Color,
    fuel: nat,
)
    ensures
        moves_from_ok(origin, ray_moves_rest(b, origin, cur, d, color, fuel)),
    decreases fuel,
{
    if fuel == 0 {
    } else {
        let nxt = ray_step(cur, d);
        if !nxt.valid() {
        } else {
            match b.at(nxt) {
                Some(q) => {},
                None => {
                    let rest = ray_moves_rest(b, origin, nxt, d, color, (fuel - 1) as nat);
                    lemma_ray_rest_from_ok(b, origin, nxt, d, color, (fuel - 1) as nat);
                    assert(moves_from_ok(origin, seq![mv(origin, nxt)]));
                    lemma_from_ok_concat(origin, seq![mv(origin, nxt)], rest);
                },
            }
        }
    }
}

proof fn lemma_sliders_from_ok(b: BoardModel, pos: Position, color: Color)
    ensures
        moves_from_ok(pos, rook_moves_spec(b, pos, color)),
        moves_from_ok(pos, bishop_moves_spec(b, pos, color)),
        moves_from_ok(pos, queen_moves_spec(b, pos, color)),
{
    lemma_ray_rest_from_ok(b, pos, pos, Direction(1i64, 0i64), color, 8);
    lemma_ray_rest_from_ok(b, pos, pos, Direction(-1i64, 0i64), color, 8);
    lemma_ray_rest_from_ok(b, pos, pos, Direction(0i64, 1i64), color, 8);
    lemma_ray_rest_from_ok(b, pos, pos, Direction(0i64, -1i64), color, 8);
    lemma_ray_rest_from_ok(b, pos, pos, Direction(1i64, 1i64), color, 8);
    lemma_ray_rest_from_ok(b, pos, pos, Direction(1i64, -1i64), color, 8);
    lemma_ray_rest_from_ok(b, pos, pos, Direction(-1i64, 1i64), color, 8);
    lemma_ray_rest_from_ok(b, pos, pos, Direction(-1i64, -1i64), color, 8);
    lemma_from_ok_concat(
        pos,
        ray_moves_spec(b, pos, Direction(1i64, 0i64), color),
        ray_moves_spec(b, pos, Direction(-1i64, 0i64), color),
    );
    lemma_from_ok_concat(
        pos,
        ray_moves_spec(b, pos, Direction(1i64, 0i64), color) + ray_moves_spec(
            b,
            pos,
            Direction(-1i64, 0i64),
            color,
        ),
        ray_moves_spec(b, pos, Direction(0i64, 1i64), color),
    );
    lemma_from_ok_concat(
        pos,
        ray_moves_spec(b, pos, Direction(1i64, 0i64), color) + ray_moves_spec(
            b,
            pos,
            Direction(-1i64, 0i64),
            color,
        ) + ray_moves_spec(b, pos, Direction(0i64, 1i64), color),
        ray_moves_spec(b, pos, Direction(0i64, -1i64), color),
    );
    lemma_from_ok_concat(
        pos,
        ray_moves_spec(b, pos, Direction(1i64, 1i64), color),
        ray_moves_spec(b, pos, Direction(1i64, -1i64), color),
    );
    lemma_from_ok_concat(
        pos,
        ray_moves_spec(b, pos, Direction(1i64, 1i64), color) + ray_moves_spec(
            b,
            pos,
            Direction(1i64, -1i64),
            color,
        ),
        ray_moves_spec(b, pos, Direction(-1i64, 1i64), color),
    );
    lemma_from_ok_concat(
        pos,
        ray_moves_spec(b, pos, Direction(1i64, 1i64), color) + ray_moves_spec(
            b,
            pos,
            Direction(1i64, -1i64),
            color,
        ) + ray_moves_spec(b, pos, Direction(-1i64, 1i64), color),
        ray_moves_spec(b, pos, Direction(-1i64, -1i64), color),
    );
    lemma_from_ok_concat(pos, rook_moves_spec(b, pos, color), bishop_moves_spec(b, pos, color));
}

proof fn lemma_leaper_from_ok(b: BoardModel, pos: Position, color: Color, dirs: Seq<Direction>, i: int)
    ensures
        moves_from_ok(pos, leaper_moves_from(b, pos, color, dirs, i)),
    decreases dirs.len() - i,
{
    if i < 0 || i >= dirs.len() {
    } else {
        let t = ray_step(pos, dirs[i]);
        let rest = leaper_moves_from(b, pos, color, dirs, i + 1);
        lemma_leaper_from_ok(b, pos, color, dirs, i + 1);
        if t.valid() && can_land(b, t, color) {
            assert(moves_from_ok(pos, seq![mv(pos, t)]));
            lemma_from_ok_concat(pos, seq![mv(pos, t)], rest);
        }
    }
}

proof fn lemma_pawns_from_ok(b: BoardModel, pos: Position)
    requires
        pos.valid(),
    ensures
        moves_from_ok(pos, white_pawn_moves_spec(b, pos)),
        moves_from_ok(pos, black_pawn_moves_spec(b, pos)),
{
    assert forall|j: int|
        0 <= j < white_pawn_moves_spec(b, pos).len() implies (#[trigger] white_pawn_moves_spec(
        b,
        pos,
    )[j]).from == pos && white_pawn_moves_spec(b, pos)[j].to.valid() by {}
    assert forall|j: int|
        0 <= j < black_pawn_moves_spec(b, pos).len() implies (#[trigger] black_pawn_moves_spec(
        b,
        pos,
    )[j]).from == pos && black_pawn_moves_spec(b, pos)[j].to.valid() by {}
}

/// Every move in `s` has valid endpoints and an occupied origin on `b`.
pub open spec fn moves_playable(b: BoardModel, s: Seq<Move>) -> bool {
    forall|j: int|
        0 <= j < s.len() ==> (#[trigger] s[j]).from.valid() && s[j].to.valid() && b.at(s[j].from) is Some
}

proof fn lemma_playable_concat(b: BoardModel, s1: Seq<Move>, s2: Seq<Move>)
    requires
        moves_playable(b, s1),
        moves_playable(b, s2),
    ensures
        moves_playable(b, s1 + s2),
{
    assert forall|j: int|
        0 <= j < (s1 + s2).len() implies (#[trigger] (s1 + s2)[j]).from.valid() && (s1 + s2)[j].to.valid()
        && b.at((s1 + s2)[j].from) is Some by {
        if j < s1.len() {
            assert((s1 + s2)[j] == s1[j]);
        } else {
            assert((s1 + s2)[j] == s2[j - s1.len()]);
        }
    }
}

proof fn lemma_square_moves_playable(b: BoardModel, color: Color, idx: int)
    requires
        b.wf(),
        0 <= idx < 64,
    ensures
        moves_playable(b, square_moves_spec(b, color, idx)),
{
    let pos = pos_of_index(idx);
    assert(pos.valid());
    assert(sq_index(pos) == idx);
    match b.squares[idx] {
        None => {},
        Some(p) => {
            if p.color == color {
                lemma_sliders_from_ok(b, pos, color);
                lemma_leaper_from_ok(b, pos, color, knight_dirs(), 0);
                lemma_leaper_from_ok(b, pos, color, king_dirs(), 0);
                lemma_pawns_from_ok(b, pos);
            }
        },
    }
}

proof fn lemma_all_moves_from_playable(b: BoardModel, color: Color, idx: int)
    requires
        b.wf(),
    ensures
        moves_playable(b, all_moves_from(b, color, idx)),
    decreases 64 - idx,
{
    if idx < 0 || idx >= 64 {
    } else {
        lemma_square_moves_playable(b, color, idx);
        lemma_all_moves_from_playable(b, color, idx + 1);
        lemma_playable_concat(b, square_moves_spec(b, color, idx), all_moves_from(b, color, idx + 1));
    }
}

/// Every move the aggregator returns can be played: its endpoints are on
/// the board and its origin square is occupied.
pub proof fn lemma_all_moves_playable(b: BoardModel, color: Color)
    requires
        b.wf(),
    ensures
        moves_playable(b, all_moves_spec(b, color)),
{
    lemma_all_moves_from_playable(b, color, 0);
}


/// En-passant capture: with black's double step just recorded as target
/// square `s`, a white pawn diagonally adjacent to `s` can move onto `s`,
/// and playing that move removes the black pawn one rank below `s` -- not
/// whatever stands on `s` itself, which gains the capturing pawn.
pub proof fn lemma_en_passant_capture_white(b: BoardModel, p: Position, s: Position)
    requires
        b.wf(),
        p.valid(),
        b.en_passant_black == Some(s),
        p.rank + 1 == s.rank,
        p.file - 1 == s.file || p.file + 1 == s.file,
        b.at(p) == Some(Piece { kind: Type::Pawn, color: Color::White }),
        b.at(s) is None,
    ensures
        white_pawn_moves_spec(b, p).contains(mv(p, s)),
        move_result(b, mv(p, s)).at(Position { file: s.file, rank: (s.rank - 1) as i64 }) is None,
        move_result(b, mv(p, s)).at(s) == Some(Piece { kind: Type::Pawn, color: Color::White }),
        move_result(b, mv(p, s)).at(p) is None,
{
    let moves = white_pawn_moves_spec(b, p);
    let one = Position { file: p.file, rank: (p.rank + 1) as i64 };
    let two = Position { file: p.file, rank: (p.rank + 2) as i64 };
    let capl = Position { file: (p.file - 1) as i64, rank: (p.rank + 1) as i64 };
    let capr = Position { file: (p.file + 1) as i64, rank: (p.rank + 1) as i64 };
    let fwd = if p.rank == 1 {
        (if b.at(one) is None {
            seq![mv(p, one)]
        } else {
            Seq::<Move>::empty()
        }) + (if b.at(one) is None && b.at(two) is None {
            seq![mv(p, two)]
        } else {
            Seq::<Move>::empty()
        })
    } else {
        if one.valid() && b.at(one) is None {
            seq![mv(p, one)]
        } else {
            Seq::<Move>::empty()
        }
    };
    let cl = if capl.valid() && white_capture_ok(b, capl) {
        seq![mv(p, capl)]
    } else {
        Seq::<Move>::empty()
    };
    if p.file - 1 == s.file {
        assert(capl == s);
        assert(white_capture_ok(b, capl));
        assert(moves[fwd.len() as int] == mv(p, s));
        assert(moves.contains(mv(p, s)));
    } else {
        assert(capr == s);
        assert(white_capture_ok(b, capr));
        assert(moves[fwd.len() as int + cl.len() as int] == mv(p, s));
        assert(moves.contains(mv(p, s)));
    }
    let beaten = Position { file: s.file, rank: (s.rank - 1) as i64 };
    assert(sq_index(beaten) != sq_index(s));
    assert(sq_index(p) != sq_index(s));
    assert(sq_index(p) != sq_index(beaten));
}

} // verus!
