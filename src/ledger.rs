//! The game ledger: creating games, recording guesses, verifying reveals.
use crate::commitment::{commitment_digest, commitment_of, preimage};
use crate::game::{
    created, reveal_check, revealed_with, texts_view, Address, Game, GameError, GameModel,
    REVEAL_DELAY,
};
use soroban_sdk::Env;
use vstd::prelude::*;

verus! {

/// A guess of `guesser` that the lie of game `game_id` is at `index`.
#[derive(Debug)]
pub struct GuessRecord {
    pub game_id: u32,
    pub guesser: Address,
    pub index: u32,
}

/// The pair a guess is kept under.
pub open spec fn guess_key(r: GuessRecord) -> (u32, Seq<u8>) {
    (r.game_id, r.guesser@)
}

/// The guesses recorded in `s`, a later record of a pair replacing an earlier one.
pub open spec fn guess_map(s: Seq<GuessRecord>) -> Map<(u32, Seq<u8>), u32>
    decreases s.len(),
{
    if s.len() == 0 {
        Map::empty()
    } else {
        guess_map(s.drop_last()).insert(guess_key(s.last()), s.last().index)
    }
}

/// No pair has two records in `s`.
pub open spec fn keys_unique(s: Seq<GuessRecord>) -> bool {
    forall|i: int, j: int|
        0 <= i < j < s.len() ==> #[trigger] guess_key(s[i]) != #[trigger] guess_key(s[j])
}

/// The state of a ledger: its games, the game with id `n` at position `n - 1`,
/// and the latest guess of each (game id, guesser) pair.
pub struct LedgerModel {
    pub games: Seq<GameModel>,
    pub guesses: Map<(u32, Seq<u8>), u32>,
}

impl LedgerModel {
    /// The ledger before any call.
    pub open spec fn empty() -> LedgerModel {
        LedgerModel { games: Seq::empty(), guesses: Map::empty() }
    }

    /// How many games have been created; also the id of the latest one.
    pub open spec fn count(self) -> nat {
        self.games.len()
    }

    pub open spec fn has_game(self, id: u32) -> bool {
        1 <= id <= self.games.len()
    }

    pub open spec fn game(self, id: u32) -> GameModel {
        self.games[id - 1]
    }

    /// The latest guess of `guesser` on game `id`, if any.
    pub open spec fn guess_of(self, id: u32, guesser: Seq<u8>) -> Option<u32> {
        if self.guesses.contains_key((id, guesser)) {
            Some(self.guesses[(id, guesser)])
        } else {
            None
        }
    }

    /// The ledger once `owner` has created a game committed to `hash` at time `now`.
    pub open spec fn after_commit(self, owner: Seq<u8>, hash: Seq<u8>, now: u64) -> LedgerModel {
        LedgerModel { games: self.games.push(created(owner, hash, now)), ..self }
    }

    /// The ledger once `guesser` has guessed `index` on game `id`.
    pub open spec fn after_guess(self, guesser: Seq<u8>, id: u32, index: u32) -> LedgerModel {
        LedgerModel { guesses: self.guesses.insert((id, guesser), index), ..self }
    }

    /// The outcome of a reveal of game `id` by `caller` with data whose digest is `digest`.
    pub open spec fn reveal_outcome(self, caller: Seq<u8>, id: u32, digest: Seq<u8>) -> Result<
        (),
        GameError,
    > {
        if !self.has_game(id) {
            Err(GameError::NotFound)
        } else {
            reveal_check(self.game(id), caller, digest)
        }
    }

    /// The ledger once game `id` has been revealed with `statements` and `lie_index`.
    pub open spec fn after_reveal(self, id: u32, statements: Seq<Seq<u8>>, lie_index: u32) -> LedgerModel {
        LedgerModel {
            games: self.games.update(id - 1, revealed_with(self.game(id), statements, lie_index)),
            ..self
        }
    }

    /// Every game is well formed and has an id that fits in 32 bits.
    pub open spec fn wf(self) -> bool {
        &&& self.games.len() <= u32::MAX
        &&& forall|i: int| 0 <= i < self.games.len() ==> (#[trigger] self.games[i]).wf()
    }
}

/// The game ledger.
#[derive(Debug)]
pub struct TruthsGameContract {
    games: Vec<Game>,
    guesses: Vec<GuessRecord>,
}

impl View for TruthsGameContract {
    type V = LedgerModel;

    closed spec fn view(&self) -> LedgerModel {
        LedgerModel {
            games: self.games@.map_values(|g: Game| g@),
            guesses: guess_map(self.guesses@),
        }
    }
}

proof fn lemma_guess_map_push(s: Seq<GuessRecord>, r: GuessRecord)
    ensures
        guess_map(s.push(r)) == guess_map(s).insert(guess_key(r), r.index),
{
    assert(s.push(r).drop_last() =~= s);
}

proof fn lemma_guess_map_dom(s: Seq<GuessRecord>, k: (u32, Seq<u8>))
    ensures
        guess_map(s).contains_key(k) <==> exists|i: int| 0 <= i < s.len() && guess_key(s[i]) == k,
    decreases s.len(),
{
    if s.len() > 0 {
        lemma_guess_map_dom(s.drop_last(), k);
        if guess_map(s.drop_last()).contains_key(k) {
            let i = choose|i: int| 0 <= i < s.len() - 1 && guess_key(s.drop_last()[i]) == k;
            assert(guess_key(s[i]) == k);
        }
        if exists|i: int| 0 <= i < s.len() && guess_key(s[i]) == k {
            let i = choose|i: int| 0 <= i < s.len() && guess_key(s[i]) == k;
            if i < s.len() - 1 {
                assert(guess_key(s.drop_last()[i]) == k);
            }
        }
    }
}

proof fn lemma_guess_map_value(s: Seq<GuessRecord>, i: int)
    requires
        keys_unique(s),
        0 <= i < s.len(),
    ensures
        guess_map(s).contains_key(guess_key(s[i])),
        guess_map(s)[guess_key(s[i])] == s[i].index,
    decreases s.len(),
{
    let t = s.drop_last();
    if i < s.len() - 1 {
        assert(guess_key(s[i]) != guess_key(s[s.len() - 1]));
        assert(t[i] == s[i]);
        assert(keys_unique(t)) by {
            assert forall|a: int, b: int| 0 <= a < b < t.len() implies guess_key(t[a]) != guess_key(t[b]) by {
                assert(t[a] == s[a] && t[b] == s[b]);
            }
        }
        lemma_guess_map_value(t, i);
    }
}

proof fn lemma_guess_map_update(s: Seq<GuessRecord>, i: int, r: GuessRecord)
    requires
        keys_unique(s),
        0 <= i < s.len(),
        guess_key(s[i]) == guess_key(r),
    ensures
        keys_unique(s.update(i, r)),
        guess_map(s.update(i, r)) == guess_map(s).insert(guess_key(r), r.index),
{
    let u = s.update(i, r);
    assert(keys_unique(u)) by {
        assert forall|a: int, b: int| 0 <= a < b < u.len() implies guess_key(u[a]) != guess_key(u[b]) by {
            assert(guess_key(u[a]) == guess_key(s[a]) && guess_key(u[b]) == guess_key(s[b]));
        }
    }
    let m = guess_map(s).insert(guess_key(r), r.index);
    assert forall|k: (u32, Seq<u8>)| guess_map(u).contains_key(k) <==> m.contains_key(k) by {
        lemma_guess_map_dom(s, k);
        lemma_guess_map_dom(u, k);
        if exists|j: int| 0 <= j < s.len() && guess_key(s[j]) == k {
            let j = choose|j: int| 0 <= j < s.len() && guess_key(s[j]) == k;
            assert(guess_key(u[j]) == k);
        }
        if exists|j: int| 0 <= j < u.len() && guess_key(u[j]) == k {
            let j = choose|j: int| 0 <= j < u.len() && guess_key(u[j]) == k;
            assert(guess_key(s[j]) == k);
        }
    }
    assert forall|k: (u32, Seq<u8>)| #[trigger] guess_map(u).contains_key(k) implies guess_map(u)[k] == m[k] by {
        lemma_guess_map_dom(u, k);
        let j = choose|j: int| 0 <= j < u.len() && guess_key(u[j]) == k;
        lemma_guess_map_value(u, j);
        if j != i {
            assert(u[j] == s[j]);
            lemma_guess_map_value(s, j);
        }
    }
    assert(guess_map(u) =~= m);
}

impl TruthsGameContract {
    /// Every game is well formed, ids fit in 32 bits, and each (game id,
    /// guesser) pair has at most one guess record.
    pub closed spec fn wf(&self) -> bool {
        &&& self@.wf()
        &&& keys_unique(self.guesses@)
    }

    /// A ledger with no games and no guesses.
    pub fn new() -> (r: TruthsGameContract)
        ensures
            r.wf(),
            r@ == LedgerModel::empty(),
    {
        let r = TruthsGameContract { games: Vec::new(), guesses: Vec::new() };
        assert(r@.games =~= Seq::<GameModel>::empty());
        r
    }

    /// Creates a game of `owner` committed to `hash`, at ledger time `now`,
    /// and returns its id: one more than the number of games before.
    pub fn commit(&mut self, owner: Address, hash: [u8; 32], now: u64) -> (r: u32)
        requires
            old(self).wf(),
            old(self)@.count() < u32::MAX,
            now + REVEAL_DELAY <= u64::MAX,
        ensures
            final(self).wf(),
            r == old(self)@.count() + 1,
            final(self)@ == old(self)@.after_commit(owner@, hash@, now),
    {
        let ghost before = self@;
        let game = Game::new(owner, hash, now);
        self.games.push(game);
        let id = self.games.len() as u32;
        assert(self@.games =~= before.games.push(game@));
        id
    }

    /// Records `guessed_index` as the guess of `guesser` on game `game_id`,
    /// replacing any earlier guess of theirs on it.
    pub fn guess(&mut self, guesser: Address, game_id: u32, guessed_index: u32) -> (r: Result<(), GameError>)
        requires
            old(self).wf(),
        ensures
            final(self).wf(),
            old(self)@.has_game(game_id) ==> r == Ok::<(), GameError>(())
                && final(self)@ == old(self)@.after_guess(guesser@, game_id, guessed_index),
            !old(self)@.has_game(game_id) ==> r == Err::<(), GameError>(GameError::NotFound)
                && final(self)@ == old(self)@,
    {
        if game_id < 1 || game_id as usize > self.games.len() {
            return Err(GameError::NotFound);
        }
        let ghost before = self.guesses@;
        let mut i: usize = 0;
        while i < self.guesses.len()
            invariant
                i <= self.guesses.len(),
                self.guesses@ == before,
                self.wf(),
                self@ == old(self)@,
                1 <= game_id <= self@.count(),
                forall|j: int| 0 <= j < i ==> (#[trigger] self.guesses@[j]).game_id != game_id
                    || self.guesses@[j].guesser@ != guesser@,
            decreases self.guesses.len() - i,
        {
            if self.guesses[i].game_id == game_id && self.guesses[i].guesser.same_as(&guesser) {
                let record = GuessRecord { game_id, guesser, index: guessed_index };
                proof {
                    lemma_guess_map_update(before, i as int, record);
                }
                self.guesses.set(i, record);
                return Ok(());
            }
            i = i + 1;
        }
        let record = GuessRecord { game_id, guesser, index: guessed_index };
        proof {
            lemma_guess_map_push(before, record);
        }
        self.guesses.push(record);
        assert(keys_unique(self.guesses@)) by {
            assert forall|a: int, b: int| 0 <= a < b < self.guesses@.len() implies
                guess_key(self.guesses@[a]) != guess_key(self.guesses@[b]) by {
                if b == before.len() {
                    assert(self.guesses@[a] == before[a]);
                } else {
                    assert(self.guesses@[a] == before[a] && self.guesses@[b] == before[b]);
                }
            }
        }
        Ok(())
    }

    /// Reveals game `game_id` with `statements` and `lie_index`, given
    /// `digest`, the digest of their layout with the salt (see
    /// `commitment_of`). The caller must be the creator, the game must not be
    /// revealed yet, and `digest` must equal the committed one; otherwise
    /// the first of these that fails is the error and nothing changes.
    pub fn reveal_with_digest(
        &mut self,
        caller: &Address,
        game_id: u32,
        statements: Vec<Vec<u8>>,
        lie_index: u32,
        digest: &[u8; 32],
    ) -> (r: Result<(), GameError>)
        requires
            old(self).wf(),
            statements@.len() == 3,
        ensures
            final(self).wf(),
            r == old(self)@.reveal_outcome(caller@, game_id, digest@),
            r is Ok ==> final(self)@ == old(self)@.after_reveal(
                game_id,
                texts_view(statements@),
                lie_index,
            ),
            r is Err ==> final(self)@ == old(self)@,
    {
        if game_id < 1 || game_id as usize > self.games.len() {
            return Err(GameError::NotFound);
        }
        let idx = (game_id - 1) as usize;
        if let Err(e) = self.games[idx].check_reveal(caller, digest) {
            return Err(e);
        }
        let ghost before = self@;
        let mut game = self.games[idx].clone();
        game.apply_reveal(statements, lie_index);
        self.games.set(idx, game);
        assert(self@.games =~= before.games.update(
            idx as int,
            revealed_with(before.game(game_id), texts_view(statements@), lie_index),
        ));
        Ok(())
    }

    /// Reveals game `game_id` with `statements`, `lie_index` and `salt`: the
    /// host re-derives the digest of their layout, which must equal the one
    /// the game was committed to. The caller must be the creator and the game
    /// not yet revealed; otherwise the first check that fails is the error,
    /// in the order: unknown game, not the creator, already revealed, digest
    /// mismatch, and nothing changes.
    pub fn reveal_game(
        &mut self,
        env: &Env,
        caller: &Address,
        game_id: u32,
        statements: Vec<Vec<u8>>,
        lie_index: u32,
        salt: &Vec<u8>,
    ) -> (r: Result<(), GameError>)
        requires
            old(self).wf(),
            statements@.len() == 3,
            preimage(texts_view(statements@), lie_index, salt@).len() <= isize::MAX,
        ensures
            final(self).wf(),
            r == old(self)@.reveal_outcome(
                caller@,
                game_id,
                commitment_of(texts_view(statements@), lie_index, salt@),
            ),
            r is Ok ==> final(self)@ == old(self)@.after_reveal(
                game_id,
                texts_view(statements@),
                lie_index,
            ),
            r is Err ==> final(self)@ == old(self)@,
    {
        let digest = commitment_digest(env, &statements, lie_index, salt);
        self.reveal_with_digest(caller, game_id, statements, lie_index, &digest)
    }

    /// A copy of game `game_id`.
    pub fn get_game(&self, game_id: u32) -> (r: Result<Game, GameError>)
        requires
            self.wf(),
        ensures
            self@.has_game(game_id) ==> r is Ok && r->Ok_0@ == self@.game(game_id),
            !self@.has_game(game_id) ==> r == Err::<Game, GameError>(GameError::NotFound),
    {
        if game_id < 1 || game_id as usize > self.games.len() {
            return Err(GameError::NotFound);
        }
        Ok(self.games[(game_id - 1) as usize].clone())
    }

    /// The latest guess of `guesser` on game `game_id`; `None` if they made none.
    pub fn get_guess(&self, game_id: u32, guesser: &Address) -> (r: Option<u32>)
        requires
            self.wf(),
        ensures
            r == self@.guess_of(game_id, guesser@),
    {
        let mut i: usize = 0;
        while i < self.guesses.len()
            invariant
                i <= self.guesses.len(),
                self.wf(),
                forall|j: int| 0 <= j < i ==> #[trigger] guess_key(self.guesses@[j]) != (
                    game_id,
                    guesser@,
                ),
            decreases self.guesses.len() - i,
        {
            if self.guesses[i].game_id == game_id && self.guesses[i].guesser.same_as(guesser) {
                proof {
                    lemma_guess_map_value(self.guesses@, i as int);
                }
                return Some(self.guesses[i].index);
            }
            i = i + 1;
        }
        proof {
            lemma_guess_map_dom(self.guesses@, (game_id, guesser@));
        }
        None
    }

    /// The number of games created so far.
    pub fn get_game_count(&self) -> (r: u32)
        requires
            self.wf(),
        ensures
            r == self@.count(),
    {
        self.games.len() as u32
    }
}

} // verus!
