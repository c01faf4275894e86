//! What holds of every run of the ledger, stated over its model.
use crate::game::{created, GameError};
use crate::ledger::LedgerModel;
use vstd::prelude::*;

verus! {

/// The ledger once games have been created by `reqs`, in order, each request
/// an (owner, commitment, ledger time) triple.
pub open spec fn after_commits(m: LedgerModel, reqs: Seq<(Seq<u8>, Seq<u8>, u64)>) -> LedgerModel
    decreases reqs.len(),
{
    if reqs.len() == 0 {
        m
    } else {
        let last = reqs.last();
        after_commits(m, reqs.drop_last()).after_commit(last.0, last.1, last.2)
    }
}

/// Each creation adds one game after those already there, and leaves the
/// guesses alone.
pub proof fn commits_append_games(m: LedgerModel, reqs: Seq<(Seq<u8>, Seq<u8>, u64)>)
    ensures
        after_commits(m, reqs).count() == m.count() + reqs.len(),
        after_commits(m, reqs).guesses == m.guesses,
        forall|i: int| 0 <= i < m.count() ==> after_commits(m, reqs).games[i] == m.games[i],
        forall|i: int|
            0 <= i < reqs.len() ==> after_commits(m, reqs).games[m.count() + i] == created(
                reqs[i].0,
                reqs[i].1,
                reqs[i].2,
            ),
    decreases reqs.len(),
{
    if reqs.len() > 0 {
        let init = reqs.drop_last();
        commits_append_games(m, init);
        assert forall|i: int| 0 <= i < reqs.len() - 1 implies init[i] == reqs[i] by {}
    }
}

/// Game ids are issued as 1, 2, 3, ... from a fresh ledger: the creation at
/// position `i` of a run gets id `i + 1` (one more than the count before it),
/// the game kept under that id is the one it asked for, and the game count
/// afterwards is the number of creations. (A ledger holds at most
/// `u32::MAX` games.)
pub proof fn game_ids_are_consecutive(reqs: Seq<(Seq<u8>, Seq<u8>, u64)>)
    requires
        reqs.len() <= u32::MAX,
    ensures
        after_commits(LedgerModel::empty(), reqs).count() == reqs.len(),
        forall|i: int|
            0 <= i < reqs.len() ==> after_commits(LedgerModel::empty(), #[trigger] reqs.take(i)).count()
                + 1 == i + 1,
        forall|i: int|
            0 <= i < reqs.len() ==> after_commits(LedgerModel::empty(), reqs).game((i + 1) as u32)
                == created(reqs[i].0, reqs[i].1, reqs[i].2),
{
    commits_append_games(LedgerModel::empty(), reqs);
    assert forall|i: int| 0 <= i < reqs.len() implies after_commits(
        LedgerModel::empty(),
        #[trigger] reqs.take(i),
    ).count() + 1 == i + 1 by {
        commits_append_games(LedgerModel::empty(), reqs.take(i));
    }
}

/// A second guess of the same guesser on the same game replaces the first:
/// the ledger is as if only the second had been made.
pub proof fn latest_guess_wins(m: LedgerModel, guesser: Seq<u8>, id: u32, first: u32, second: u32)
    ensures
        m.after_guess(guesser, id, first).after_guess(guesser, id, second) == m.after_guess(
            guesser,
            id,
            second,
        ),
        m.after_guess(guesser, id, first).after_guess(guesser, id, second).guess_of(id, guesser)
            == Some(second),
{
    assert(m.guesses.insert((id, guesser), first).insert((id, guesser), second) =~= m.guesses.insert(
        (id, guesser),
        second,
    ));
}

/// A pair with no guess has none on a fresh ledger, and keeps having none
/// through creations, reveals and guesses on other pairs.
pub proof fn unguessed_pairs_stay_absent(
    m: LedgerModel,
    id: u32,
    guesser: Seq<u8>,
    other_id: u32,
    other_guesser: Seq<u8>,
    index: u32,
    owner: Seq<u8>,
    hash: Seq<u8>,
    now: u64,
    statements: Seq<Seq<u8>>,
    lie_index: u32,
)
    requires
        m.guess_of(id, guesser) is None,
        (other_id, other_guesser) != (id, guesser),
    ensures
        LedgerModel::empty().guess_of(id, guesser) is None,
        m.after_guess(other_guesser, other_id, index).guess_of(id, guesser) is None,
        m.after_commit(owner, hash, now).guess_of(id, guesser) is None,
        m.after_reveal(other_id, statements, lie_index).guess_of(id, guesser) is None,
{
}

/// For a game that its creator may still reveal, a reveal succeeds exactly
/// when the re-derived digest equals the committed one; any other digest is
/// a mismatch.
pub proof fn reveal_binds_to_commitment(m: LedgerModel, caller: Seq<u8>, id: u32, digest: Seq<u8>)
    requires
        m.has_game(id),
        caller == m.game(id).owner,
        !m.game(id).revealed,
    ensures
        m.reveal_outcome(caller, id, digest) is Ok <==> digest == m.game(id).commit_hash,
        digest != m.game(id).commit_hash ==> m.reveal_outcome(caller, id, digest) == Err::<
            (),
            GameError,
        >(GameError::HashMismatch),
{
}

/// Once a game is revealed, every later reveal of it by its creator fails
/// as already revealed, whatever data it brings.
pub proof fn reveal_is_final(
    m: LedgerModel,
    caller: Seq<u8>,
    id: u32,
    digest: Seq<u8>,
    statements: Seq<Seq<u8>>,
    lie_index: u32,
    later_digest: Seq<u8>,
)
    requires
        m.reveal_outcome(caller, id, digest) is Ok,
    ensures
        m.after_reveal(id, statements, lie_index).reveal_outcome(caller, id, later_digest) == Err::<
            (),
            GameError,
        >(GameError::AlreadyRevealed),
{
}

/// A reveal of an existing game by anyone but its creator fails as not the
/// owner, whatever the digest, the committed one included.
pub proof fn only_owner_reveals(m: LedgerModel, caller: Seq<u8>, id: u32, digest: Seq<u8>)
    requires
        m.has_game(id),
        caller != m.game(id).owner,
    ensures
        m.reveal_outcome(caller, id, digest) == Err::<(), GameError>(GameError::NotOwner),
{
}

} // verus!
