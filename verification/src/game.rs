use vstd::prelude::*;

use crate::coin::{Coin, CoinV};
use crate::engine;
use crate::engine::{
    canonical_fen, fen_after, fen_parses, move_legal, move_parses, reencoded, start_fen,
    status_of, EngineStatus,
};
use crate::error::ContractError;

verus! {

/// The number of bytes of a coordinate move encoding: from-square plus
/// to-square, with no promotion-piece suffix.
pub const MOVE_FEN_LENGTH: usize = 4;

/// Which side moves next.
#[derive(Debug, Clone, Copy, PartialEq, Eq, Structural)]
pub enum NextMove {
    Whites,
    Blacks,
}

/// Where a match stands in its lifecycle. The state only ever advances
/// forward: `AwaitingOpponent` to `OnGoing`, `OnGoing` to `OnGoing`, `Won`
/// or `Drawn`; the terminal states are never left.
#[derive(Debug, Clone, Copy, PartialEq, Eq, Structural)]
pub enum MatchState {
    AwaitingOpponent,
    OnGoing(NextMove),
    Won,
    Drawn,
}

/// The lifecycle state the engine's verdict on a board dictates: ongoing
/// games carry the side to move; a decided game is `Won` or `Drawn`.
pub open spec fn engine_state(fen: Seq<char>) -> MatchState {
    match status_of(fen) {
        EngineStatus::Ongoing => MatchState::OnGoing(engine::side_of(fen)),
        EngineStatus::Won => MatchState::Won,
        EngineStatus::Drawn => MatchState::Drawn,
    }
}

/// A match between a challenger and an opponent, with its board, lifecycle
/// state, creation nonce, block-height markers and the stake each side puts
/// up.
#[derive(Debug, PartialEq)]
pub struct Match {
    pub challenger: String,
    pub opponent: String,
    pub board: String,
    pub state: MatchState,
    pub nonce: u64,
    pub last_move: u64,
    pub start: u64,
    pub bet: Coin,
}

/// The mathematical image of a [`Match`].
#[verifier::ext_equal]
pub struct MatchV {
    pub challenger: Seq<char>,
    pub opponent: Seq<char>,
    pub board: Seq<char>,
    pub state: MatchState,
    pub nonce: u64,
    pub last_move: u64,
    pub start: u64,
    pub bet: CoinV,
}

impl View for Match {
    type V = MatchV;

    open spec fn view(&self) -> MatchV {
        MatchV {
            challenger: self.challenger@,
            opponent: self.opponent@,
            board: self.board@,
            state: self.state,
            nonce: self.nonce,
            last_move: self.last_move,
            start: self.start,
            bet: self.bet@,
        }
    }
}

impl Clone for Match {
    fn clone(&self) -> (r: Self)
        ensures
            r@ == self@,
    {
        Match {
            challenger: self.challenger.clone(),
            opponent: self.opponent.clone(),
            board: self.board.clone(),
            state: self.state,
            nonce: self.nonce,
            last_move: self.last_move,
            start: self.start,
            bet: self.bet.clone(),
        }
    }
}

impl Match {
    /// A fresh match on the start position, awaiting its opponent, with both
    /// block-height markers at zero.
    pub fn new(challenger: String, opponent: String, nonce: u64, bet: Coin) -> (r: Match)
        ensures
            r@ == (MatchV {
                challenger: challenger@,
                opponent: opponent@,
                board: start_fen(),
                state: MatchState::AwaitingOpponent,
                nonce,
                last_move: 0u64,
                start: 0u64,
                bet: bet@,
            }),
            canonical_fen(r@.board),
    {
        Match {
            challenger,
            opponent,
            board: engine::init_board(),
            state: MatchState::AwaitingOpponent,
            nonce,
            last_move: 0u64,
            start: 0u64,
            bet,
        }
    }

    /// A match on the start position in a given lifecycle state, with given
    /// block-height markers.
    pub fn new_ext(
        challenger: String,
        opponent: String,
        state: MatchState,
        nonce: u64,
        last_move: u64,
        start: u64,
        bet: Coin,
    ) -> (r: Match)
        ensures
            r@ == (MatchV {
                challenger: challenger@,
                opponent: opponent@,
                board: start_fen(),
                state,
                nonce,
                last_move,
                start,
                bet: bet@,
            }),
            canonical_fen(r@.board),
    {
        Match {
            challenger,
            opponent,
            board: engine::init_board(),
            state,
            nonce,
            last_move,
            start,
            bet,
        }
    }

    /// The match with its board encoding replaced.
    pub fn set_board_state(self, board: String) -> (r: Self)
        ensures
            r@ == (MatchV { board: board@, ..self@ }),
    {
        Match { board, ..self }
    }

    /// The stored board encoding.
    pub fn board(&self) -> (r: String)
        ensures
            r@ == self@.board,
    {
        self.board.clone()
    }

    /// Starts the game: the opponent has joined at the given block height,
    /// and white moves first.
    pub fn start(&mut self, block_height: u64)
        ensures
            final(self)@ == (MatchV {
                state: MatchState::OnGoing(NextMove::Whites),
                start: block_height,
                ..old(self)@
            }),
    {
        self.state = MatchState::OnGoing(NextMove::Whites);
        self.start = block_height;
    }

    /// Plays one move on the stored board: rejects an encoding the engine
    /// does not parse, then a move the engine rules illegal; otherwise the
    /// board advances, the state is recomputed from the engine's verdict,
    /// and the last-move marker is set. A rejection leaves the match
    /// unchanged. A post-move encoding the engine rejects is reported as
    /// internal corruption; on a canonical board — every stored board is
    /// one — that branch is unreachable, since the engine re-renders its own
    /// output canonically.
    pub fn play_move(&mut self, move_fen: &str, block_height: u64) -> (r: Result<
        (),
        ContractError,
    >)
        requires
            fen_parses(old(self)@.board),
        ensures
            match r {
                Ok(_) => move_parses(move_fen@) && move_legal(old(self)@.board, move_fen@)
                    && fen_parses(fen_after(old(self)@.board, move_fen@)) && final(self)@
                    == (MatchV {
                    board: fen_after(old(self)@.board, move_fen@),
                    state: engine_state(fen_after(old(self)@.board, move_fen@)),
                    last_move: block_height,
                    ..old(self)@
                }) && (canonical_fen(old(self)@.board) ==> canonical_fen(final(self)@.board)),
                Err(e) => final(self)@ == old(self)@ && (
                    (e == ContractError::InvalidMoveEncoding && !move_parses(move_fen@))
                    || (e == ContractError::IllegalMove && move_parses(move_fen@)
                        && !move_legal(old(self)@.board, move_fen@))
                    || (e == ContractError::InvalidBoardEncoding && move_parses(move_fen@)
                        && move_legal(old(self)@.board, move_fen@) && !fen_parses(
                        fen_after(old(self)@.board, move_fen@),
                    ))
                ),
            },
    {
        if !engine::move_ok(move_fen) {
            return Err(ContractError::InvalidMoveEncoding);
        }
        if !engine::is_legal(self.board.as_str(), move_fen) {
            return Err(ContractError::IllegalMove);
        }
        let new_board = engine::apply_move(self.board.as_str(), move_fen);
        if !engine::board_parses(new_board.as_str()) {
            return Err(ContractError::InvalidBoardEncoding);
        }
        let new_state = next_state(new_board.as_str());
        self.board = new_board;
        self.state = new_state;
        self.last_move = block_height;
        Ok(())
    }

    /// Checks a board encoding against the engine and returns the engine's
    /// own rendering of it; a string the engine rejects is reported as
    /// internal corruption, since every board this crate stores came out of
    /// the engine. On a canonical encoding — every stored board is one — the
    /// rendering is the input itself.
    pub fn decode_board(board: &str) -> (r: Result<String, ContractError>)
        ensures
            match r {
                Ok(s) => fen_parses(board@) && s@ == reencoded(board@) && (canonical_fen(board@)
                    ==> s@ == board@),
                Err(e) => e == ContractError::InvalidBoardEncoding && !fen_parses(board@),
            },
    {
        if engine::board_parses(board) {
            Ok(engine::reencode_board(board))
        } else {
            Err(ContractError::InvalidBoardEncoding)
        }
    }

    /// Checks a move encoding against the engine.
    pub fn decode_move(move_fen: &str) -> (r: Result<(), ContractError>)
        ensures
            match r {
                Ok(_) => move_parses(move_fen@),
                Err(e) => e == ContractError::InvalidMoveEncoding && !move_parses(move_fen@),
            },
    {
        if engine::move_ok(move_fen) {
            Ok(())
        } else {
            Err(ContractError::InvalidMoveEncoding)
        }
    }
}

/// The lifecycle state for a board, by the engine's verdict.
fn next_state(fen: &str) -> (s: MatchState)
    requires
        fen_parses(fen@),
    ensures
        s == engine_state(fen@),
{
    match engine::board_status(fen) {
        EngineStatus::Ongoing => MatchState::OnGoing(engine::board_side_to_move(fen)),
        EngineStatus::Won => MatchState::Won,
        EngineStatus::Drawn => MatchState::Drawn,
    }
}

} // verus!
