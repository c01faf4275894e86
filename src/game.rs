//! Identities, games and the errors a ledger call can end with.
use vstd::prelude::*;

verus! {

/// An account or contract identity, held as the bytes of its key.
#[derive(Debug)]
pub struct Address {
    pub key: Vec<u8>,
}

impl View for Address {
    type V = Seq<u8>;

    open spec fn view(&self) -> Seq<u8> {
        self.key@
    }
}

/// Whether two byte strings are equal.
pub fn bytes_equal(a: &[u8], b: &[u8]) -> (r: bool)
    ensures
        r == (a@ == b@),
{
    if a.len() != b.len() {
        return false;
    }
    let mut i: usize = 0;
    while i < a.len()
        invariant
            i <= a.len(),
            a@.len() == b@.len(),
            forall|j: int| 0 <= j < i ==> a@[j] == b@[j],
        decreases a.len() - i,
    {
        if a[i] != b[i] {
            return false;
        }
        i = i + 1;
    }
    assert(a@ =~= b@);
    true
}

impl Address {
    pub fn new(key: Vec<u8>) -> (r: Address)
        ensures
            r@ == key@,
    {
        Address { key }
    }

    /// Whether both name the same identity.
    pub fn same_as(&self, other: &Address) -> (r: bool)
        ensures
            r == (self@ == other@),
    {
        bytes_equal(self.key.as_slice(), other.key.as_slice())
    }
}

impl Clone for Address {
    fn clone(&self) -> (r: Self)
        ensures
            r@ == self@,
    {
        let key = self.key.clone();
        assert(key@ =~= self.key@);
        Address { key }
    }
}

/// Why a ledger call was refused. A refused call changes nothing.
#[derive(Debug, Clone, Copy, PartialEq, Eq, Structural)]
pub enum GameError {
    /// No game has the given id.
    NotFound,
    /// The game has been revealed already.
    AlreadyRevealed,
    /// The caller is not the game's creator.
    NotOwner,
    /// The revealed data does not re-derive the committed digest.
    HashMismatch,
}

/// The slots a ledger keeps: the game counter, each game by id, and each
/// guess by game id and guesser.
#[derive(Debug)]
pub enum DataKey {
    GameCounter,
    Games(u32),
    Guesses(u32, Address),
}

/// One game: the creator's commitment and, once revealed, what it hid.
#[derive(Debug)]
pub struct Game {
    pub owner: Address,
    pub commit_hash: [u8; 32],
    pub reveal_time: u64,
    pub statements: Vec<Vec<u8>>,
    pub lie_index: u32,
    pub revealed: bool,
}

/// What a game holds, as mathematical values.
pub struct GameModel {
    pub owner: Seq<u8>,
    pub commit_hash: Seq<u8>,
    pub reveal_time: u64,
    pub statements: Seq<Seq<u8>>,
    pub lie_index: u32,
    pub revealed: bool,
}

/// Seconds from a game's creation to its announced reveal time.
pub const REVEAL_DELAY: u64 = 86400;

/// The views of a list of byte strings.
pub open spec fn texts_view(v: Seq<Vec<u8>>) -> Seq<Seq<u8>> {
    v.map_values(|s: Vec<u8>| s@)
}

/// A copy of a list of byte strings.
pub fn copy_texts(v: &Vec<Vec<u8>>) -> (r: Vec<Vec<u8>>)
    ensures
        texts_view(r@) == texts_view(v@),
{
    let mut r: Vec<Vec<u8>> = Vec::new();
    let mut i: usize = 0;
    while i < v.len()
        invariant
            i <= v.len(),
            texts_view(r@) =~= texts_view(v@).take(i as int),
        decreases v.len() - i,
    {
        let s = v[i].clone();
        assert(s@ =~= v@[i as int]@);
        let ghost before = r@;
        r.push(s);
        assert(r@ =~= before.push(s));
        assert(texts_view(r@) =~= texts_view(before).push(s@));
        assert(texts_view(v@).take(i as int + 1) =~= texts_view(v@).take(i as int).push(v@[i as int]@));
        i = i + 1;
    }
    assert(texts_view(v@).take(i as int) =~= texts_view(v@));
    r
}

/// A game as it stands right after its creation.
pub open spec fn created(owner: Seq<u8>, commit_hash: Seq<u8>, now: u64) -> GameModel {
    GameModel {
        owner,
        commit_hash,
        reveal_time: (now + REVEAL_DELAY) as u64,
        statements: Seq::empty(),
        lie_index: 0,
        revealed: false,
    }
}

/// A game once `statements` and `lie_index` have been revealed.
pub open spec fn revealed_with(g: GameModel, statements: Seq<Seq<u8>>, lie_index: u32) -> GameModel {
    GameModel { statements, lie_index, revealed: true, ..g }
}

impl View for Game {
    type V = GameModel;

    open spec fn view(&self) -> GameModel {
        GameModel {
            owner: self.owner@,
            commit_hash: self.commit_hash@,
            reveal_time: self.reveal_time,
            statements: texts_view(self.statements@),
            lie_index: self.lie_index,
            revealed: self.revealed,
        }
    }
}

impl GameModel {
    /// Before the reveal nothing is disclosed; after it, three statements are.
    pub open spec fn wf(self) -> bool {
        &&& self.commit_hash.len() == 32
        &&& !self.revealed ==> self.statements.len() == 0 && self.lie_index == 0
        &&& self.revealed ==> self.statements.len() == 3
    }
}

impl Game {
    /// A new, unrevealed game committed to `commit_hash`, whose reveal time is
    /// `now` plus a day.
    pub fn new(owner: Address, commit_hash: [u8; 32], now: u64) -> (r: Game)
        requires
            now + REVEAL_DELAY <= u64::MAX,
        ensures
            r@ == created(owner@, commit_hash@, now),
            r@.wf(),
    {
        let r = Game {
            owner,
            commit_hash,
            reveal_time: now + REVEAL_DELAY,
            statements: Vec::new(),
            lie_index: 0,
            revealed: false,
        };
        assert(r@.statements =~= Seq::<Seq<u8>>::empty());
        r
    }

    /// Whether `caller` may reveal this game with data whose digest is
    /// `digest`: the creator alone, once, with the committed digest.
    pub fn check_reveal(&self, caller: &Address, digest: &[u8; 32]) -> (r: Result<(), GameError>)
        ensures
            r == reveal_check(self@, caller@, digest@),
    {
        if !self.owner.same_as(caller) {
            Err(GameError::NotOwner)
        } else if self.revealed {
            Err(GameError::AlreadyRevealed)
        } else if !bytes_equal(self.commit_hash.as_slice(), digest.as_slice()) {
            Err(GameError::HashMismatch)
        } else {
            Ok(())
        }
    }

    /// Discloses `statements` and `lie_index` and marks the game revealed.
    pub fn apply_reveal(&mut self, statements: Vec<Vec<u8>>, lie_index: u32)
        ensures
            final(self)@ == revealed_with(old(self)@, texts_view(statements@), lie_index),
    {
        self.statements = statements;
        self.lie_index = lie_index;
        self.revealed = true;
    }
}

impl Clone for Game {
    fn clone(&self) -> (r: Self)
        ensures
            r@ == self@,
    {
        Game {
            owner: self.owner.clone(),
            commit_hash: self.commit_hash,
            reveal_time: self.reveal_time,
            statements: copy_texts(&self.statements),
            lie_index: self.lie_index,
            revealed: self.revealed,
        }
    }
}

/// The outcome of a reveal by `caller`, with data whose digest is `digest`,
/// of the game `g`.
pub open spec fn reveal_check(g: GameModel, caller: Seq<u8>, digest: Seq<u8>) -> Result<(), GameError> {
    if caller != g.owner {
        Err(GameError::NotOwner)
    } else if g.revealed {
        Err(GameError::AlreadyRevealed)
    } else if digest != g.commit_hash {
        Err(GameError::HashMismatch)
    } else {
        Ok(())
    }
}

} // verus!
