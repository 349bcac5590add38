//! The persisted state of one deployed instance: the administrator, the
//! minimum-bet policy, the strictly increasing nonce counter, and the match
//! registry with its two secondary indexes. The three registry structures
//! are always mutated together; an operation either fully commits or, on a
//! rejection, touches nothing.

use vstd::prelude::*;

use crate::coin::{Coin, CoinV};
use crate::error::ContractError;
use crate::game::{Match, MatchV};
use crate::store::{
    assoc_map, entries_unique, keys_unique, lemma_assoc_contains, lemma_assoc_get,
    lemma_assoc_push, lemma_assoc_remove, lemma_entries_unique_push, lemma_keys_unique_push,
    lemma_to_set_contains, lemma_to_set_push, lemma_to_set_remove,
};

verus! {

/// A copy of a byte string.
pub fn clone_bytes(v: &Vec<u8>) -> (r: Vec<u8>)
    ensures
        r@ == v@,
{
    vstd::slice::slice_to_vec(v.as_slice())
}

/// Compares two byte strings by value.
pub fn bytes_eq(a: &Vec<u8>, b: &Vec<u8>) -> (r: bool)
    ensures
        r == (a@ == b@),
{
    if a.len() != b.len() {
        return false;
    }
    let n = a.len();
    let mut i: usize = 0;
    while i < n
        invariant
            n == a@.len(),
            n == b@.len(),
            i <= n,
            forall|j: int| 0 <= j < i ==> a@[j] == b@[j],
        decreases n - i,
    {
        if a[i] != b[i] {
            return false;
        }
        i += 1;
    }
    proof {
        assert(a@ =~= b@);
    }
    true
}

/// The whole persisted state of one deployed instance.
#[derive(Debug)]
pub struct ChessState {
    /// The administrator, set once at initialization.
    pub admin: String,
    /// The minimum-bet policy: amount and denomination.
    pub min_bet: Coin,
    /// The next creation nonce; strictly increasing, never reset.
    pub next_nonce: u64,
    /// The matches, keyed by their 32-byte identifier.
    pub matches: Vec<(Vec<u8>, Match)>,
    /// Membership of `(player, identifier)` pairs, one per side of each match.
    pub player_matches: Vec<(String, Vec<u8>)>,
    /// The identifier each creation nonce was assigned.
    pub match_ids: Vec<(u64, Vec<u8>)>,
}

/// The mathematical image of a [`ChessState`].
#[verifier::ext_equal]
pub struct StateV {
    pub admin: Seq<char>,
    pub min_bet: CoinV,
    pub next_nonce: u64,
    pub matches: Map<Seq<u8>, MatchV>,
    pub players: Set<(Seq<char>, Seq<u8>)>,
    pub nonces: Map<u64, Seq<u8>>,
}

impl ChessState {
    /// The match entries as mathematical pairs.
    pub open spec fn matches_seq(self) -> Seq<(Seq<u8>, MatchV)> {
        self.matches@.map_values(|p: (Vec<u8>, Match)| (p.0@, p.1@))
    }

    /// The player-index entries as mathematical pairs.
    pub open spec fn players_seq(self) -> Seq<(Seq<char>, Seq<u8>)> {
        self.player_matches@.map_values(|p: (String, Vec<u8>)| (p.0@, p.1@))
    }

    /// The nonce-index entries as mathematical pairs.
    pub open spec fn nonces_seq(self) -> Seq<(u64, Seq<u8>)> {
        self.match_ids@.map_values(|p: (u64, Vec<u8>)| (p.0, p.1@))
    }
}

impl View for ChessState {
    type V = StateV;

    open spec fn view(&self) -> StateV {
        StateV {
            admin: self.admin@,
            min_bet: self.min_bet@,
            next_nonce: self.next_nonce,
            matches: assoc_map(self.matches_seq()),
            players: self.players_seq().to_set(),
            nonces: assoc_map(self.nonces_seq()),
        }
    }
}

/// What holds of one registered match: a 32-byte identifier, distinct
/// participants, a nonce drawn from the counter, a settleable stake, both
/// player-index entries present, and the nonce index naming this match.
pub open spec fn match_entry_ok(s: StateV, id: Seq<u8>) -> bool {
    let m = s.matches[id];
    &&& id.len() == 32
    &&& m.challenger != m.opponent
    &&& m.nonce < s.next_nonce
    &&& m.bet.amount * 2 <= u128::MAX
    &&& s.players.contains((m.challenger, id))
    &&& s.players.contains((m.opponent, id))
    &&& s.nonces.dom().contains(m.nonce)
    &&& s.nonces[m.nonce] == id
}

/// The cross-structure invariant: every match is well linked, and no two
/// matches share a creation nonce.
pub open spec fn links_ok(s: StateV) -> bool {
    &&& forall|id: Seq<u8>| #[trigger] s.matches.dom().contains(id) ==> match_entry_ok(s, id)
    &&& forall|id1: Seq<u8>, id2: Seq<u8>|
        s.matches.dom().contains(id1) && s.matches.dom().contains(id2) && id1 != id2
            ==> (#[trigger] s.matches[id1]).nonce != (#[trigger] s.matches[id2]).nonce
}

impl ChessState {
    /// The keys of each persisted structure are pairwise distinct.
    pub open spec fn wf_unique(self) -> bool {
        &&& keys_unique(self.matches_seq())
        &&& keys_unique(self.nonces_seq())
        &&& entries_unique(self.players_seq())
    }

    /// The state's invariant: distinct keys and consistent indexes.
    pub open spec fn wf(self) -> bool {
        &&& self.wf_unique()
        &&& links_ok(self@)
    }

    /// The index of the entry holding a match identifier.
    fn find_match_index(&self, match_id: &Vec<u8>) -> (r: Option<usize>)
        ensures
            match r {
                Some(i) => i < self.matches@.len() && self.matches@[i as int].0@ == match_id@,
                None => forall|j: int|
                    0 <= j < self.matches@.len() ==> (#[trigger] self.matches@[j]).0@ != match_id@,
            },
    {
        let n = self.matches.len();
        let mut i: usize = 0;
        while i < n
            invariant
                n == self.matches@.len(),
                i <= n,
                forall|j: int| 0 <= j < i ==> (#[trigger] self.matches@[j]).0@ != match_id@,
            decreases n - i,
        {
            if bytes_eq(&self.matches[i].0, match_id) {
                return Some(i);
            }
            i += 1;
        }
        None
    }

    /// The index of the entry holding a nonce.
    fn find_nonce_index(&self, nonce: u64) -> (r: Option<usize>)
        ensures
            match r {
                Some(i) => i < self.match_ids@.len() && self.match_ids@[i as int].0 == nonce,
                None => forall|j: int|
                    0 <= j < self.match_ids@.len() ==> (#[trigger] self.match_ids@[j]).0 != nonce,
            },
    {
        let n = self.match_ids.len();
        let mut i: usize = 0;
        while i < n
            invariant
                n == self.match_ids@.len(),
                i <= n,
                forall|j: int| 0 <= j < i ==> (#[trigger] self.match_ids@[j]).0 != nonce,
            decreases n - i,
        {
            if self.match_ids[i].0 == nonce {
                return Some(i);
            }
            i += 1;
        }
        None
    }

    /// The index of the entry holding a `(player, identifier)` pair.
    fn find_player_index(&self, player: &String, match_id: &Vec<u8>) -> (r: Option<usize>)
        ensures
            match r {
                Some(i) => i < self.player_matches@.len() && self.player_matches@[i as int].0@
                    == player@ && self.player_matches@[i as int].1@ == match_id@,
                None => forall|j: int|
                    0 <= j < self.player_matches@.len() ==> (
                    #[trigger] self.player_matches@[j]).0@ != player@
                        || self.player_matches@[j].1@ != match_id@,
            },
    {
        let n = self.player_matches.len();
        let mut i: usize = 0;
        while i < n
            invariant
                n == self.player_matches@.len(),
                i <= n,
                forall|j: int|
                    0 <= j < i ==> (#[trigger] self.player_matches@[j]).0@ != player@
                        || self.player_matches@[j].1@ != match_id@,
            decreases n - i,
        {
            if self.player_matches[i].0 == *player && bytes_eq(
                &self.player_matches[i].1,
                match_id,
            ) {
                return Some(i);
            }
            i += 1;
        }
        None
    }

    /// Loads a match by its identifier; an absent identifier is an
    /// `UnknownMatch` rejection.
    pub fn lookup_match(&self, match_id: &Vec<u8>) -> (r: Result<Match, ContractError>)
        requires
            self.wf(),
        ensures
            match r {
                Ok(m) => self@.matches.dom().contains(match_id@) && m@
                    == self@.matches[match_id@],
                Err(e) => e == ContractError::UnknownMatch && !self@.matches.dom().contains(
                    match_id@,
                ),
            },
    {
        match self.find_match_index(match_id) {
            Some(i) => {
                proof {
                    assert(self.matches_seq()[i as int].0 == match_id@);
                    lemma_assoc_get(self.matches_seq(), match_id@, i as int);
                }
                Ok(self.matches[i].1.clone())
            },
            None => {
                proof {
                    lemma_assoc_contains(self.matches_seq(), match_id@);
                    assert forall|j: int| 0 <= j < self.matches_seq().len() implies (
                    #[trigger] self.matches_seq()[j]).0 != match_id@ by {
                        assert(self.matches_seq()[j].0 == self.matches@[j].0@);
                    }
                }
                Err(ContractError::UnknownMatch)
            },
        }
    }

    /// Whether the player index holds a `(player, identifier)` pair.
    pub fn has_player_match(&self, player: &String, match_id: &Vec<u8>) -> (r: bool)
        ensures
            r == self@.players.contains((player@, match_id@)),
    {
        let n = self.player_matches.len();
        let mut i: usize = 0;
        while i < n
            invariant
                n == self.player_matches@.len(),
                i <= n,
                forall|j: int|
                    0 <= j < i ==> (#[trigger] self.player_matches@[j]).0@ != player@ || self.player_matches@[j].1@ != match_id@,
            decreases n - i,
        {
            if self.player_matches[i].0 == *player && bytes_eq(&self.player_matches[i].1, match_id) {
                proof {
                    assert(self.players_seq()[i as int] == (player@, match_id@));
                    lemma_to_set_contains(self.players_seq(), (player@, match_id@));
                }
                return true;
            }
            i += 1;
        }
        proof {
            lemma_to_set_contains(self.players_seq(), (player@, match_id@));
            assert forall|j: int| 0 <= j < self.players_seq().len() implies #[trigger] self
                .players_seq()[j] != (player@, match_id@) by {
                assert(self.players_seq()[j] == (
                    self.player_matches@[j].0@,
                    self.player_matches@[j].1@,
                ));
            }
        }
        false
    }

    /// The identifier a creation nonce was assigned, if any.
    pub fn match_id_by_nonce(&self, nonce: u64) -> (r: Option<Vec<u8>>)
        requires
            self.wf(),
        ensures
            match r {
                Some(v) => self@.nonces.dom().contains(nonce) && v@ == self@.nonces[nonce],
                None => !self@.nonces.dom().contains(nonce),
            },
    {
        let n = self.match_ids.len();
        let mut i: usize = 0;
        while i < n
            invariant
                self.wf(),
                n == self.match_ids@.len(),
                i <= n,
                forall|j: int| 0 <= j < i ==> (#[trigger] self.match_ids@[j]).0 != nonce,
            decreases n - i,
        {
            if self.match_ids[i].0 == nonce {
                proof {
                    assert(keys_unique(self.nonces_seq()));
                    assert(self.nonces_seq()[i as int].0 == nonce);
                    lemma_assoc_get(self.nonces_seq(), nonce, i as int);
                }
                return Some(self.match_ids[i].1.clone());
            }
            i += 1;
        }
        proof {
            lemma_assoc_contains(self.nonces_seq(), nonce);
            assert forall|j: int| 0 <= j < self.nonces_seq().len() implies (
            #[trigger] self.nonces_seq()[j]).0 != nonce by {
                assert(self.nonces_seq()[j].0 == self.match_ids@[j].0);
            }
        }
        None
    }

    /// Writes a match under its identifier, replacing any entry already
    /// there.
    pub(crate) fn save_match_state(&mut self, match_id: &Vec<u8>, chess_match: Match)
        requires
            old(self).wf_unique(),
        ensures
            final(self).wf_unique(),
            final(self)@.matches == old(self)@.matches.insert(match_id@, chess_match@),
            final(self)@.players == old(self)@.players,
            final(self)@.nonces == old(self)@.nonces,
            final(self)@.admin == old(self)@.admin,
            final(self)@.min_bet == old(self)@.min_bet,
            final(self)@.next_nonce == old(self)@.next_nonce,
    {
        let ghost old_seq = self.matches_seq();
        match self.find_match_index(match_id) {
            Some(i) => {
                proof {
                    assert(old_seq[i as int].0 == match_id@);
                    lemma_assoc_remove(old_seq, i as int);
                }
                let _removed = self.matches.remove(i);
                proof {
                    assert(self.matches_seq() =~= old_seq.remove(i as int));
                }
            },
            None => {
                proof {
                    lemma_assoc_contains(old_seq, match_id@);
                    assert forall|j: int| 0 <= j < old_seq.len() implies (
                    #[trigger] old_seq[j]).0 != match_id@ by {
                        assert(old_seq[j].0 == self.matches@[j].0@);
                    }
                    assert(!assoc_map(old_seq).dom().contains(match_id@));
                    assert(assoc_map(old_seq).remove(match_id@) =~= assoc_map(old_seq));
                }
            },
        }
        let ghost mid_seq = self.matches_seq();
        proof {
            assert(assoc_map(mid_seq) == assoc_map(old_seq).remove(match_id@));
            assert(keys_unique(mid_seq));
            assert(!assoc_map(mid_seq).dom().contains(match_id@));
            lemma_assoc_contains(mid_seq, match_id@);
        }
        self.matches.push((clone_bytes(match_id), chess_match));
        proof {
            assert(self.matches_seq() =~= mid_seq.push((match_id@, chess_match@)));
            lemma_assoc_push(mid_seq, match_id@, chess_match@);
            lemma_keys_unique_push(mid_seq, match_id@, chess_match@);
            assert(assoc_map(old_seq).remove(match_id@).insert(match_id@, chess_match@)
                =~= assoc_map(old_seq).insert(match_id@, chess_match@));
        }
    }

    /// Records that a player takes part in a match; recording a pair twice
    /// is the same as recording it once.
    pub(crate) fn save_player_match(&mut self, player: &String, match_id: &Vec<u8>)
        requires
            old(self).wf_unique(),
        ensures
            final(self).wf_unique(),
            final(self)@.players == old(self)@.players.insert((player@, match_id@)),
            final(self)@.matches == old(self)@.matches,
            final(self)@.nonces == old(self)@.nonces,
            final(self)@.admin == old(self)@.admin,
            final(self)@.min_bet == old(self)@.min_bet,
            final(self)@.next_nonce == old(self)@.next_nonce,
    {
        if self.has_player_match(player, match_id) {
            proof {
                assert(old(self)@.players.insert((player@, match_id@)) =~= old(self)@.players);
            }
            return ;
        }
        let ghost old_seq = self.players_seq();
        proof {
            lemma_to_set_contains(old_seq, (player@, match_id@));
            assert(!old_seq.to_set().contains((player@, match_id@)));
        }
        self.player_matches.push((player.clone(), clone_bytes(match_id)));
        proof {
            assert(self.players_seq() =~= old_seq.push((player@, match_id@)));
            lemma_to_set_push(old_seq, (player@, match_id@));
            lemma_entries_unique_push(old_seq, (player@, match_id@));
        }
    }

    /// Records the identifier a creation nonce was assigned, replacing any
    /// entry already there.
    pub(crate) fn save_match_id(&mut self, nonce: u64, match_id: &Vec<u8>)
        requires
            old(self).wf_unique(),
        ensures
            final(self).wf_unique(),
            final(self)@.nonces == old(self)@.nonces.insert(nonce, match_id@),
            final(self)@.matches == old(self)@.matches,
            final(self)@.players == old(self)@.players,
            final(self)@.admin == old(self)@.admin,
            final(self)@.min_bet == old(self)@.min_bet,
            final(self)@.next_nonce == old(self)@.next_nonce,
    {
        let ghost old_seq = self.nonces_seq();
        match self.find_nonce_index(nonce) {
            Some(k) => {
                proof {
                    assert(old_seq[k as int].0 == nonce);
                    lemma_assoc_remove(old_seq, k as int);
                }
                let _removed = self.match_ids.remove(k);
                proof {
                    assert(self.nonces_seq() =~= old_seq.remove(k as int));
                }
            },
            None => {
                proof {
                    lemma_assoc_contains(old_seq, nonce);
                    assert forall|j: int| 0 <= j < old_seq.len() implies (
                    #[trigger] old_seq[j]).0 != nonce by {
                        assert(old_seq[j].0 == self.match_ids@[j].0);
                    }
                    assert(!assoc_map(old_seq).dom().contains(nonce));
                    assert(assoc_map(old_seq).remove(nonce) =~= assoc_map(old_seq));
                }
            },
        }
        let ghost mid_seq = self.nonces_seq();
        proof {
            assert(assoc_map(mid_seq) == assoc_map(old_seq).remove(nonce));
            assert(keys_unique(mid_seq));
            assert(!assoc_map(mid_seq).dom().contains(nonce));
            lemma_assoc_contains(mid_seq, nonce);
        }
        self.match_ids.push((nonce, clone_bytes(match_id)));
        proof {
            assert(self.nonces_seq() =~= mid_seq.push((nonce, match_id@)));
            lemma_assoc_push(mid_seq, nonce, match_id@);
            lemma_keys_unique_push(mid_seq, nonce, match_id@);
            assert(assoc_map(old_seq).remove(nonce).insert(nonce, match_id@) =~= assoc_map(
                old_seq,
            ).insert(nonce, match_id@));
        }
    }

    /// Takes one `(player, identifier)` pair out of the player index.
    fn remove_player_entry(&mut self, player: &String, match_id: &Vec<u8>)
        requires
            old(self).wf_unique(),
        ensures
            final(self).wf_unique(),
            final(self)@.players == old(self)@.players.remove((player@, match_id@)),
            final(self)@.matches == old(self)@.matches,
            final(self)@.nonces == old(self)@.nonces,
            final(self)@.admin == old(self)@.admin,
            final(self)@.min_bet == old(self)@.min_bet,
            final(self)@.next_nonce == old(self)@.next_nonce,
    {
        let ghost old_seq = self.players_seq();
        match self.find_player_index(player, match_id) {
            Some(i) => {
                proof {
                    assert(old_seq[i as int] == (player@, match_id@));
                    lemma_to_set_remove(old_seq, i as int);
                }
                let _removed = self.player_matches.remove(i);
                proof {
                    assert(self.players_seq() =~= old_seq.remove(i as int));
                }
            },
            None => {
                proof {
                    lemma_to_set_contains(old_seq, (player@, match_id@));
                    assert forall|j: int| 0 <= j < old_seq.len() implies #[trigger] old_seq[j]
                        != (player@, match_id@) by {
                        assert(old_seq[j] == (
                            self.player_matches@[j].0@,
                            self.player_matches@[j].1@,
                        ));
                    }
                    assert(!old_seq.to_set().contains((player@, match_id@)));
                    assert(old_seq.to_set().remove((player@, match_id@)) =~= old_seq.to_set());
                }
            },
        }
    }

    /// Takes a nonce entry out of the nonce index.
    fn remove_nonce_entry(&mut self, nonce: u64)
        requires
            old(self).wf_unique(),
        ensures
            final(self).wf_unique(),
            final(self)@.nonces == old(self)@.nonces.remove(nonce),
            final(self)@.matches == old(self)@.matches,
            final(self)@.players == old(self)@.players,
            final(self)@.admin == old(self)@.admin,
            final(self)@.min_bet == old(self)@.min_bet,
            final(self)@.next_nonce == old(self)@.next_nonce,
    {
        let ghost old_seq = self.nonces_seq();
        match self.find_nonce_index(nonce) {
            Some(i) => {
                proof {
                    assert(old_seq[i as int].0 == nonce);
                    lemma_assoc_remove(old_seq, i as int);
                }
                let _removed = self.match_ids.remove(i);
                proof {
                    assert(self.nonces_seq() =~= old_seq.remove(i as int));
                }
            },
            None => {
                proof {
                    lemma_assoc_contains(old_seq, nonce);
                    assert forall|j: int| 0 <= j < old_seq.len() implies (
                    #[trigger] old_seq[j]).0 != nonce by {
                        assert(old_seq[j].0 == self.match_ids@[j].0);
                    }
                    assert(!assoc_map(old_seq).dom().contains(nonce));
                    assert(assoc_map(old_seq).remove(nonce) =~= assoc_map(old_seq));
                }
            },
        }
    }

    /// Takes a match entry out of the registry.
    fn remove_match_entry(&mut self, match_id: &Vec<u8>)
        requires
            old(self).wf_unique(),
        ensures
            final(self).wf_unique(),
            final(self)@.matches == old(self)@.matches.remove(match_id@),
            final(self)@.players == old(self)@.players,
            final(self)@.nonces == old(self)@.nonces,
            final(self)@.admin == old(self)@.admin,
            final(self)@.min_bet == old(self)@.min_bet,
            final(self)@.next_nonce == old(self)@.next_nonce,
    {
        let ghost old_seq = self.matches_seq();
        match self.find_match_index(match_id) {
            Some(i) => {
                proof {
                    assert(old_seq[i as int].0 == match_id@);
                    lemma_assoc_remove(old_seq, i as int);
                }
                let _removed = self.matches.remove(i);
                proof {
                    assert(self.matches_seq() =~= old_seq.remove(i as int));
                }
            },
            None => {
                proof {
                    lemma_assoc_contains(old_seq, match_id@);
                    assert forall|j: int| 0 <= j < old_seq.len() implies (
                    #[trigger] old_seq[j]).0 != match_id@ by {
                        assert(old_seq[j].0 == self.matches@[j].0@);
                    }
                    assert(!assoc_map(old_seq).dom().contains(match_id@));
                    assert(assoc_map(old_seq).remove(match_id@) =~= assoc_map(old_seq));
                }
            },
        }
    }

    /// Removes a match and everything that names it: the match record, the
    /// player-index entries of both participants, and its nonce entry. All
    /// three structures change together.
    pub(crate) fn clean_match_state(&mut self, match_id: &Vec<u8>, chess_match: &Match)
        requires
            old(self).wf_unique(),
        ensures
            final(self).wf_unique(),
            final(self)@.matches == old(self)@.matches.remove(match_id@),
            final(self)@.players == old(self)@.players.remove(
                (chess_match@.challenger, match_id@),
            ).remove((chess_match@.opponent, match_id@)),
            final(self)@.nonces == old(self)@.nonces.remove(chess_match@.nonce),
            final(self)@.admin == old(self)@.admin,
            final(self)@.min_bet == old(self)@.min_bet,
            final(self)@.next_nonce == old(self)@.next_nonce,
    {
        self.remove_match_entry(match_id);
        self.remove_player_entry(&chess_match.challenger, match_id);
        self.remove_player_entry(&chess_match.opponent, match_id);
        self.remove_nonce_entry(chess_match.nonce);
    }

    /// Advances the strictly increasing nonce counter and returns its new
    /// value.
    pub fn increment_nonce(&mut self) -> (r: u64)
        requires
            old(self).next_nonce < u64::MAX,
        ensures
            final(self)@ == (StateV {
                next_nonce: (old(self)@.next_nonce + 1) as u64,
                ..old(self)@
            }),
            final(self).wf_unique() == old(self).wf_unique(),
            r == final(self).next_nonce,
    {
        self.next_nonce = self.next_nonce + 1;
        self.next_nonce
    }
}

} // verus!
