//! Decisions about stacks: ids in paths, ownership, votes, and the record of
//! what an update changed.
use vstd::prelude::*;
use crate::text;
use crate::text::{chars_of, push_chars, string_of, text_eq};
use crate::ident;
use crate::ident::parse_uuid_text;
use crate::errors;
use crate::errors::{err, ApiError};
use crate::models::{CreateToolInput, UpdateStackRequest};

verus! {

broadcast use vstd::string::group_string_axioms;

// ---------------------------------------------------------------------------
// Ids and ownership
// ---------------------------------------------------------------------------

/// The stack id in a path; an id that does not parse is answered with 404.
pub fn parse_stack_id(s: &str) -> (r: Result<u128, ApiError>)
    ensures
        match r {
            Ok(id) => ident::uuid_parse(s@) == Some(id),
            Err(e) => ident::uuid_parse(s@) is None && errors::is_error(
                e,
                errors::NOT_FOUND,
                "stack not found"@,
            ),
        },
{
    match parse_uuid_text(s) {
        Some(id) => Ok(id),
        None => Err(stack_not_found()),
    }
}

/// The answer for a stack that does not exist.
pub fn stack_not_found() -> (e: ApiError)
    ensures
        errors::is_error(e, errors::NOT_FOUND, "stack not found"@),
{
    err(errors::NOT_FOUND, "stack not found")
}

/// A stack that was looked up: the stack, or 404 when there is none.
pub fn require_stack<T>(found: Option<T>) -> (r: Result<T, ApiError>)
    ensures
        match r {
            Ok(s) => found == Some(s),
            Err(e) => found is None && errors::is_error(e, errors::NOT_FOUND, "stack not found"@),
        },
{
    match found {
        Some(s) => Ok(s),
        None => Err(stack_not_found()),
    }
}

/// Only the creator of a stack may edit it; others get 403.
pub fn check_can_edit(creator_id: u128, user_id: u128) -> (r: Result<(), ApiError>)
    ensures
        match r {
            Ok(_) => creator_id == user_id,
            Err(e) => creator_id != user_id && errors::is_error(
                e,
                errors::FORBIDDEN,
                "you can only edit your own stacks"@,
            ),
        },
{
    if creator_id != user_id {
        return Err(err(errors::FORBIDDEN, "you can only edit your own stacks"));
    }
    Ok(())
}

/// Only the creator of a stack may delete it; others get 403.
pub fn check_can_delete(creator_id: u128, user_id: u128) -> (r: Result<(), ApiError>)
    ensures
        match r {
            Ok(_) => creator_id == user_id,
            Err(e) => creator_id != user_id && errors::is_error(
                e,
                errors::FORBIDDEN,
                "you can only delete your own stacks"@,
            ),
        },
{
    if creator_id != user_id {
        return Err(err(errors::FORBIDDEN, "you can only delete your own stacks"));
    }
    Ok(())
}

// ---------------------------------------------------------------------------
// Votes
// ---------------------------------------------------------------------------

/// The direction of a vote: `up` is 1, `down` is -1; anything else is
/// answered with 400.
pub fn parse_direction(s: &str) -> (r: Result<i16, ApiError>)
    ensures
        match r {
            Ok(d) => (s@ == "up"@ && d == 1) || (s@ == "down"@ && d == -1),
            Err(e) => s@ != "up"@ && s@ != "down"@ && errors::is_error(
                e,
                errors::BAD_REQUEST,
                "direction must be 'up' or 'down'"@,
            ),
        },
{
    if text_eq(s, "up") {
        Ok(1)
    } else if text_eq(s, "down") {
        Ok(-1)
    } else {
        Err(err(errors::BAD_REQUEST, "direction must be 'up' or 'down'"))
    }
}

/// What a vote does to the voter's standing vote on a stack.
#[derive(PartialEq, Eq, Structural, Clone, Copy, Debug)]
pub enum VoteAction {
    /// The same direction again: the vote is withdrawn.
    Removed,
    /// The other direction: the vote is turned around.
    Changed,
    /// No vote yet: the vote is recorded.
    Voted,
}

/// The action for a vote in `direction` when the voter's standing vote is
/// `existing`.
pub open spec fn vote_action(existing: Option<i16>, direction: i16) -> VoteAction {
    match existing {
        Some(d) => if d == direction {
            VoteAction::Removed
        } else {
            VoteAction::Changed
        },
        None => VoteAction::Voted,
    }
}

/// The voter's standing vote after voting in `direction`.
pub open spec fn vote_after(existing: Option<i16>, direction: i16) -> Option<i16> {
    match vote_action(existing, direction) {
        VoteAction::Removed => None,
        VoteAction::Changed => Some(direction),
        VoteAction::Voted => Some(direction),
    }
}

/// The action for a vote in `direction` when the standing vote is `existing`.
pub fn decide_vote(existing: Option<i16>, direction: i16) -> (a: VoteAction)
    ensures
        a == vote_action(existing, direction),
{
    match existing {
        Some(d) => if d == direction {
            VoteAction::Removed
        } else {
            VoteAction::Changed
        },
        None => VoteAction::Voted,
    }
}

/// The word the answer uses for an action.
pub fn action_label(a: VoteAction) -> (s: String)
    ensures
        s@ == match a {
            VoteAction::Removed => "removed"@,
            VoteAction::Changed => "changed"@,
            VoteAction::Voted => "voted"@,
        },
{
    match a {
        VoteAction::Removed => string_of("removed"),
        VoteAction::Changed => string_of("changed"),
        VoteAction::Voted => string_of("voted"),
    }
}

/// The word for a standing vote: `up` for 1, `down` for -1, else `none`.
pub fn vote_direction_label(existing: Option<i16>) -> (s: String)
    ensures
        s@ == match existing {
            Some(d) => if d == 1 {
                "up"@
            } else if d == -1 {
                "down"@
            } else {
                "none"@
            },
            None => "none"@,
        },
{
    match existing {
        Some(d) => if d == 1 {
            string_of("up")
        } else if d == -1 {
            string_of("down")
        } else {
            string_of("none")
        },
        None => string_of("none"),
    }
}

/// Voting twice in the same direction, from no vote or from a vote in that
/// direction, leaves the standing vote as it was.
pub proof fn lemma_vote_twice_undoes(existing: Option<i16>, direction: i16)
    requires
        existing is None || existing == Some(direction),
    ensures
        vote_after(vote_after(existing, direction), direction) == existing,
{
}

/// After a vote, the voter has either no vote or a vote in that direction;
/// the vote is withdrawn exactly when it repeats the standing one.
pub proof fn lemma_vote_after(existing: Option<i16>, direction: i16)
    ensures
        vote_after(existing, direction) is None <==> existing == Some(direction),
        vote_after(existing, direction) is Some ==> vote_after(existing, direction) == Some(
            direction,
        ),
{
}

/// What a vote does, by the voter's standing vote: a first vote is recorded,
/// a vote in the standing direction withdraws it, and a vote in another
/// direction turns the standing vote around (it is never recorded a second
/// time).
pub proof fn lemma_vote_action_by_standing(existing: Option<i16>, direction: i16)
    ensures
        (vote_action(existing, direction) == VoteAction::Voted) <==> existing is None,
        (vote_action(existing, direction) == VoteAction::Removed) <==> existing == Some(direction),
        (vote_action(existing, direction) == VoteAction::Changed) <==> (existing is Some
            && existing != Some(direction)),
{
}

/// The standing vote of `user` among the votes on a stack (voter to
/// direction).
pub open spec fn standing_vote(votes: Map<u128, i16>, user: u128) -> Option<i16> {
    if votes.dom().contains(user) {
        Some(votes[user])
    } else {
        None
    }
}

/// The votes on a stack after `user` votes in `direction`: the vote is
/// withdrawn, turned around or recorded, as `decide_vote` says.
pub open spec fn votes_after(votes: Map<u128, i16>, user: u128, direction: i16) -> Map<u128, i16> {
    match vote_after(standing_vote(votes, user), direction) {
        None => votes.remove(user),
        Some(d) => votes.insert(user, d),
    }
}

/// A stack's up-vote count as it is recounted from its votes: the sum of
/// their directions.
pub open spec fn upvote_total(votes: Map<u128, i16>) -> int {
    votes.dom().fold(0int, |acc: int, u: u128| acc + votes[u])
}

/// Voting twice the same way, from no vote or from a vote that way, leaves
/// the stack's votes as they were, and so its recounted up-vote count.
pub proof fn lemma_vote_twice_keeps_upvotes(votes: Map<u128, i16>, user: u128, direction: i16)
    requires
        standing_vote(votes, user) is None || standing_vote(votes, user) == Some(direction),
    ensures
        votes_after(votes_after(votes, user, direction), user, direction) == votes,
        upvote_total(votes_after(votes_after(votes, user, direction), user, direction))
            == upvote_total(votes),
{
    let once = votes_after(votes, user, direction);
    if votes.dom().contains(user) {
        assert(once == votes.remove(user));
        assert(standing_vote(once, user) is None);
        assert(once.insert(user, direction) =~= votes);
    } else {
        assert(once == votes.insert(user, direction));
        assert(standing_vote(once, user) == Some(direction));
        assert(once.remove(user) =~= votes);
    }
}

// ---------------------------------------------------------------------------
// Updates
// ---------------------------------------------------------------------------

/// The names of the fields an update sets, in the order the history lists
/// them (a new URL is not listed).
pub open spec fn changed_fields(r: UpdateStackRequest) -> Seq<Seq<char>> {
    let a = if r.project_name is Some {
        seq!["project_name"@]
    } else {
        Seq::<Seq<char>>::empty()
    };
    let b = if r.description is Some {
        a.push("description"@)
    } else {
        a
    };
    let c = if r.category is Some {
        b.push("category"@)
    } else {
        b
    };
    let d = if r.scale is Some {
        c.push("scale"@)
    } else {
        c
    };
    let e = if r.lessons is Some {
        d.push("lessons"@)
    } else {
        d
    };
    if r.tools is Some {
        e.push("tools"@)
    } else {
        e
    }
}

/// The history entry's detail for an update: `updated: ` and the changed
/// fields, or nothing when no listed field changed.
pub open spec fn history_detail_text(r: UpdateStackRequest) -> Option<Seq<char>> {
    let f = changed_fields(r);
    if f.len() == 0 {
        None
    } else {
        Some("updated: "@ + text::join_with(f, ", "@))
    }
}

fn push_field(out: &mut String, any: &mut bool, field: &str, ghost_items: Ghost<Seq<Seq<char>>>)
    requires
        *old(any) == (ghost_items@.len() > 0),
        old(out)@ == "updated: "@ + text::join_with(ghost_items@, ", "@),
    ensures
        *final(any),
        final(out)@ == "updated: "@ + text::join_with(ghost_items@.push(field@), ", "@),
{
    let ghost items = ghost_items@;
    let ghost pushed = items.push(field@);
    assert(pushed.drop_last() =~= items);
    if *any {
        push_chars(out, &chars_of(", "));
    }
    push_chars(out, &chars_of(field));
    *any = true;
    proof {
        if items.len() == 0 {
            assert(text::join_with(items, ", "@) == Seq::<char>::empty());
            assert(out@ =~= "updated: "@ + text::join_with(pushed, ", "@));
        } else {
            assert(out@ =~= "updated: "@ + text::join_with(pushed, ", "@));
        }
    }
}

/// The history entry's detail for an update, or `None` when no listed field
/// changed.
pub fn history_detail(r: &UpdateStackRequest) -> (d: Option<String>)
    ensures
        match d {
            Some(s) => history_detail_text(*r) == Some(s@),
            None => history_detail_text(*r) is None,
        },
{
    let mut out = string_of("updated: ");
    let mut any = false;
    let ghost mut items = Seq::<Seq<char>>::empty();
    assert(out@ =~= "updated: "@ + text::join_with(items, ", "@));
    if r.project_name.is_some() {
        push_field(&mut out, &mut any, "project_name", Ghost(items));
        proof {
            items = items.push("project_name"@);
        }
    }
    if r.description.is_some() {
        push_field(&mut out, &mut any, "description", Ghost(items));
        proof {
            items = items.push("description"@);
        }
    }
    if r.category.is_some() {
        push_field(&mut out, &mut any, "category", Ghost(items));
        proof {
            items = items.push("category"@);
        }
    }
    if r.scale.is_some() {
        push_field(&mut out, &mut any, "scale", Ghost(items));
        proof {
            items = items.push("scale"@);
        }
    }
    if r.lessons.is_some() {
        push_field(&mut out, &mut any, "lessons", Ghost(items));
        proof {
            items = items.push("lessons"@);
        }
    }
    if r.tools.is_some() {
        push_field(&mut out, &mut any, "tools", Ghost(items));
        proof {
            items = items.push("tools"@);
        }
    }
    assert(items =~= changed_fields(*r));
    if any {
        Some(out)
    } else {
        None
    }
}

// ---------------------------------------------------------------------------
// Tool names
// ---------------------------------------------------------------------------

/// `str::to_lowercase` of a text.
pub uninterp spec fn lowercase(s: Seq<char>) -> Seq<char>;

/// `str::to_lowercase`: the text in lower case.
#[verifier::external_body]
fn to_lowercase(s: &str) -> (r: String)
    ensures
        r@ == lowercase(s@),
{
    s.to_lowercase()
}

/// The name a tool is stored and looked up under: the name in lower case.
pub fn normalize_tool_name(name: &str) -> (r: String)
    ensures
        r@ == lowercase(name@),
{
    to_lowercase(name)
}

fn copy_text(s: &String) -> (r: String)
    ensures
        r@ == s@,
{
    s.clone()
}

fn copy_optional_text(s: &Option<String>) -> (r: Option<String>)
    ensures
        match s {
            Some(x) => r matches Some(y) && y@ == x@,
            None => r is None,
        },
{
    match s {
        Some(x) => Some(copy_text(x)),
        None => None,
    }
}

/// A tool as it is stored: the same, with its name in lower case.
pub open spec fn stored_tool(t: CreateToolInput, s: CreateToolInput) -> bool {
    &&& s.name@ == lowercase(t.name@)
    &&& s.category@ == t.category@
    &&& s.why@ == t.why@
    &&& s.verdict@ == t.verdict@
    &&& match t.cost {
        Some(c) => s.cost matches Some(d) && d@ == c@,
        None => s.cost is None,
    }
}

/// The tools of a stack as they are stored, in the same order.
pub fn tools_for_storage(tools: &Vec<CreateToolInput>) -> (r: Vec<CreateToolInput>)
    ensures
        r@.len() == tools@.len(),
        forall|i: int| 0 <= i < tools@.len() ==> stored_tool(tools@[i], #[trigger] r@[i]),
{
    let mut r: Vec<CreateToolInput> = Vec::new();
    let mut i: usize = 0;
    while i < tools.len()
        invariant
            i <= tools.len(),
            r@.len() == i,
            forall|j: int| 0 <= j < i ==> stored_tool(tools@[j], #[trigger] r@[j]),
        decreases tools.len() - i,
    {
        let t = &tools[i];
        let s = CreateToolInput {
            name: normalize_tool_name(t.name.as_str()),
            category: copy_text(&t.category),
            why: copy_text(&t.why),
            cost: copy_optional_text(&t.cost),
            verdict: copy_text(&t.verdict),
        };
        r.push(s);
        i += 1;
    }
    r
}

} // verus!
