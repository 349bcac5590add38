//! The narrow rules-engine capability the lifecycle depends on: decode a
//! board encoding, decode a move, test legality, apply a move, and report
//! the game status. The engine is cozy_chess; every call goes through a
//! trusted wrapper whose contract names what the call returns. Boards cross
//! this boundary only as FEN text, the engine's single-line positional
//! encoding, so the rest of the crate never holds an engine value.

use vstd::prelude::*;

use cozy_chess::{Board, Color, GameStatus, Move};
use std::str::FromStr;

use crate::game::NextMove;

verus! {

/// What the rules engine reports for a position: the game continues, the
/// side that just moved has won, or the game is drawn.
#[derive(Debug, Clone, Copy, PartialEq, Eq, Structural)]
pub enum EngineStatus {
    Ongoing,
    Won,
    Drawn,
}

/// Whether the engine accepts a string as a board encoding.
pub uninterp spec fn fen_parses(fen: Seq<char>) -> bool;

/// Whether the engine accepts a string as a move encoding.
pub uninterp spec fn move_parses(mv: Seq<char>) -> bool;

/// Whether a move is legal on a board. Meaningful when both encodings parse.
pub uninterp spec fn move_legal(fen: Seq<char>, mv: Seq<char>) -> bool;

/// The board encoding after a legal move is applied to a board.
pub uninterp spec fn fen_after(fen: Seq<char>, mv: Seq<char>) -> Seq<char>;

/// The engine's verdict on a board: ongoing, won or drawn.
pub uninterp spec fn status_of(fen: Seq<char>) -> EngineStatus;

/// Which side moves next on a board.
pub uninterp spec fn side_of(fen: Seq<char>) -> NextMove;

/// The encoding the engine itself renders for the board a string decodes to.
pub uninterp spec fn reencoded(fen: Seq<char>) -> Seq<char>;

/// A board encoding the engine accepts and renders back verbatim: decoding
/// and re-encoding such a string is the identity. Every board this crate
/// stores is canonical, since each came out of the engine's own renderer.
pub open spec fn canonical_fen(fen: Seq<char>) -> bool {
    fen_parses(fen) && reencoded(fen) == fen
}

/// The encoding of the standard start position.
pub open spec fn start_fen() -> Seq<char> {
    "rnbqkbnr/pppppppp/8/8/8/8/PPPPPPPP/RNBQKBNR w KQkq - 0 1"@
}

/// Relies on cozy_chess::Board::default and its FEN renderer: the standard
/// start position, rendered canonically (its documentation shows this exact
/// string, and shows that rendered boards parse back).
#[verifier::external_body]
pub(crate) fn init_board() -> (r: String)
    ensures
        r@ == start_fen(),
        canonical_fen(r@),
{
    Board::default().to_string()
}

/// Relies on cozy_chess::Board::from_str: whether a string is a well-formed
/// FEN position.
#[verifier::external_body]
pub(crate) fn board_parses(fen: &str) -> (r: bool)
    ensures
        r == fen_parses(fen@),
{
    Board::from_str(fen).is_ok()
}

/// Relies on cozy_chess::Move::from_str: whether a string is a well-formed
/// coordinate move.
#[verifier::external_body]
pub(crate) fn move_ok(mv: &str) -> (r: bool)
    ensures
        r == move_parses(mv@),
{
    Move::from_str(mv).is_ok()
}

/// Relies on cozy_chess::Board::is_legal; the arguments are converted from
/// their encodings with the engine's own parsers.
#[verifier::external_body]
pub(crate) fn is_legal(fen: &str, mv: &str) -> (r: bool)
    requires
        fen_parses(fen@),
        move_parses(mv@),
    ensures
        r == move_legal(fen@, mv@),
{
    let board = Board::from_str(fen).unwrap();
    let chess_move = Move::from_str(mv).unwrap();
    board.is_legal(chess_move)
}

/// Relies on cozy_chess::Board::play_unchecked and the FEN renderer: the
/// board after a legal move. Starting from a canonical board — one of the
/// standard encodings the renderer itself emits — the result is canonical
/// again: the crate's documentation shows rendered standard boards parsing
/// back to equal boards. (Unconditional canonicality would be false: the
/// parser also accepts Shredder-style castling letters, which the standard
/// renderer does not reproduce.)
#[verifier::external_body]
pub(crate) fn apply_move(fen: &str, mv: &str) -> (r: String)
    requires
        fen_parses(fen@),
        move_parses(mv@),
        move_legal(fen@, mv@),
    ensures
        r@ == fen_after(fen@, mv@),
        canonical_fen(fen@) ==> canonical_fen(r@),
{
    let mut board = Board::from_str(fen).unwrap();
    board.play_unchecked(Move::from_str(mv).unwrap());
    board.to_string()
}

/// Relies on cozy_chess::Board::status: ongoing while moves remain and the
/// fifty-move clock runs, won when the side to move is checkmated, drawn on
/// stalemate or an exhausted clock.
#[verifier::external_body]
pub(crate) fn board_status(fen: &str) -> (r: EngineStatus)
    requires
        fen_parses(fen@),
    ensures
        r == status_of(fen@),
{
    match Board::from_str(fen).unwrap().status() {
        GameStatus::Ongoing => EngineStatus::Ongoing,
        GameStatus::Won => EngineStatus::Won,
        GameStatus::Drawn => EngineStatus::Drawn,
    }
}

/// Relies on cozy_chess::Board::side_to_move.
#[verifier::external_body]
pub(crate) fn board_side_to_move(fen: &str) -> (r: NextMove)
    requires
        fen_parses(fen@),
    ensures
        r == side_of(fen@),
{
    match Board::from_str(fen).unwrap().side_to_move() {
        Color::White => NextMove::Whites,
        Color::Black => NextMove::Blacks,
    }
}

/// Relies on cozy_chess's FEN renderer: the engine's own rendering of the
/// board a string decodes to.
#[verifier::external_body]
pub(crate) fn reencode_board(fen: &str) -> (r: String)
    requires
        fen_parses(fen@),
    ensures
        r@ == reencoded(fen@),
{
    Board::from_str(fen).unwrap().to_string()
}

} // verus!
