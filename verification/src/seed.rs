//! The demonstration data: which of its comments and votes are written, and
//! in what order.
use vstd::prelude::*;
use crate::text::{chars_of, push_chars, string_of, text_eq};
use crate::errors;
use crate::errors::{err, ApiError};

verus! {

broadcast use vstd::string::group_string_axioms;

/// Seeding is refused with 403 where `RUST_ENV` is `production`.
pub fn check_seed_allowed(rust_env: Option<String>) -> (r: Result<(), ApiError>)
    ensures
        match r {
            Ok(_) => !(rust_env matches Some(e) && e@ == "production"@),
            Err(e) => (rust_env matches Some(v) && v@ == "production"@) && errors::is_error(
                e,
                errors::FORBIDDEN,
                "seed is disabled in production"@,
            ),
        },
{
    match rust_env {
        Some(v) => if text_eq(v.as_str(), "production") {
            Err(err(errors::FORBIDDEN, "seed is disabled in production"))
        } else {
            Ok(())
        },
        None => Ok(()),
    }
}

/// The recovery code of a demonstration user: `SEED-` and the nickname.
pub fn seed_recovery_code(nickname: &str) -> (code: String)
    ensures
        code@ == "SEED-"@ + nickname@,
{
    let mut code = string_of("SEED-");
    push_chars(&mut code, &chars_of(nickname));
    code
}

/// How a seeding request starts, given the number of stacks already stored.
pub enum SeedStart {
    /// Stacks exist: nothing is written, and the answer says so with their
    /// number.
    AlreadySeeded { message: String, stacks: i64 },
    /// The store is empty: the demonstration data is written.
    Proceed,
}

/// Seeding goes ahead only on a store without stacks; otherwise the answer
/// is `already seeded` with the number of stacks.
pub fn seed_start(stack_count: i64) -> (r: SeedStart)
    ensures
        match r {
            SeedStart::AlreadySeeded { message, stacks } => stack_count > 0 && message@
                == "already seeded"@ && stacks == stack_count,
            SeedStart::Proceed => stack_count <= 0,
        },
{
    if stack_count > 0 {
        SeedStart::AlreadySeeded { message: string_of("already seeded"), stacks: stack_count }
    } else {
        SeedStart::Proceed
    }
}

/// A demonstration comment: which stack, which user (by position).
pub struct CommentSeed {
    pub stack: usize,
    pub user: usize,
}

/// Demonstration up-votes on one stack, by user position.
pub struct VoteSeed {
    pub stack: usize,
    pub voters: Vec<usize>,
}

/// One write of the demonstration data.
#[derive(PartialEq, Eq, Structural, Clone, Copy, Debug)]
pub enum SeedStep {
    /// Write comment number `0` (its position among the comments).
    Comment(usize),
    /// Write an up-vote by user `voter` on stack `stack`.
    Vote { stack: usize, voter: usize },
    /// Recount the votes of a stack.
    Recount(usize),
}

/// The comments written, in order: those whose stack and user exist.
pub open spec fn comment_steps(cs: Seq<CommentSeed>, stacks: nat, users: nat) -> Seq<SeedStep>
    decreases cs.len(),
{
    if cs.len() == 0 {
        Seq::<SeedStep>::empty()
    } else {
        let prev = comment_steps(cs.drop_last(), stacks, users);
        let c = cs.last();
        if c.stack < stacks && c.user < users {
            prev.push(SeedStep::Comment((cs.len() - 1) as usize))
        } else {
            prev
        }
    }
}

/// The votes written on one stack, in order: those whose voter exists.
pub open spec fn voter_steps(stack: usize, voters: Seq<usize>, users: nat) -> Seq<SeedStep>
    decreases voters.len(),
{
    if voters.len() == 0 {
        Seq::<SeedStep>::empty()
    } else {
        let prev = voter_steps(stack, voters.drop_last(), users);
        if voters.last() < users {
            prev.push(SeedStep::Vote { stack, voter: voters.last() })
        } else {
            prev
        }
    }
}

/// The votes written, in order: for each entry whose stack exists, its
/// votes and then a recount of that stack.
pub open spec fn vote_steps(vs: Seq<VoteSeed>, stacks: nat, users: nat) -> Seq<SeedStep>
    decreases vs.len(),
{
    if vs.len() == 0 {
        Seq::<SeedStep>::empty()
    } else {
        let prev = vote_steps(vs.drop_last(), stacks, users);
        let v = vs.last();
        if v.stack < stacks {
            prev + voter_steps(v.stack, v.voters@, users).push(SeedStep::Recount(v.stack))
        } else {
            prev
        }
    }
}

/// The writes of the demonstration comments and votes, in order, for
/// `stacks` stacks and `users` users.
pub fn plan_seed(comments: &Vec<CommentSeed>, votes: &Vec<VoteSeed>, stacks: usize, users: usize) -> (r:
    Vec<SeedStep>)
    ensures
        r@ == comment_steps(comments@, stacks as nat, users as nat) + vote_steps(
            votes@,
            stacks as nat,
            users as nat,
        ),
{
    let mut r: Vec<SeedStep> = Vec::new();
    let mut i: usize = 0;
    assert(comments@.take(0) =~= Seq::<CommentSeed>::empty());
    while i < comments.len()
        invariant
            i <= comments.len(),
            r@ == comment_steps(comments@.take(i as int), stacks as nat, users as nat),
        decreases comments.len() - i,
    {
        assert(comments@.take(i + 1).drop_last() =~= comments@.take(i as int));
        let c = &comments[i];
        if c.stack < stacks && c.user < users {
            r.push(SeedStep::Comment(i));
        }
        i += 1;
    }
    assert(comments@.take(comments.len() as int) =~= comments@);
    let ghost cs = r@;
    let mut k: usize = 0;
    assert(votes@.take(0) =~= Seq::<VoteSeed>::empty());
    assert(r@ =~= cs + vote_steps(votes@.take(0), stacks as nat, users as nat));
    while k < votes.len()
        invariant
            k <= votes.len(),
            r@ == cs + vote_steps(votes@.take(k as int), stacks as nat, users as nat),
        decreases votes.len() - k,
    {
        assert(votes@.take(k + 1).drop_last() =~= votes@.take(k as int));
        let v = &votes[k];
        if v.stack < stacks {
            let ghost before = r@;
            let mut j: usize = 0;
            assert(v.voters@.take(0) =~= Seq::<usize>::empty());
            assert(r@ =~= before + voter_steps(v.stack, v.voters@.take(0), users as nat));
            while j < v.voters.len()
                invariant
                    j <= v.voters.len(),
                    r@ == before + voter_steps(v.stack, v.voters@.take(j as int), users as nat),
                decreases v.voters.len() - j,
            {
                assert(v.voters@.take(j + 1).drop_last() =~= v.voters@.take(j as int));
                let voter = v.voters[j];
                if voter < users {
                    r.push(SeedStep::Vote { stack: v.stack, voter });
                }
                assert(r@ =~= before + voter_steps(v.stack, v.voters@.take(j + 1), users as nat));
                j += 1;
            }
            assert(v.voters@.take(v.voters.len() as int) =~= v.voters@);
            r.push(SeedStep::Recount(v.stack));
        }
        assert(r@ =~= cs + vote_steps(votes@.take(k + 1), stacks as nat, users as nat));
        k += 1;
    }
    assert(votes@.take(votes.len() as int) =~= votes@);
    r
}

} // verus!
