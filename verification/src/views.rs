//! Stacks, tools, comments and users as rows and as answers. Ids are the
//! 128-bit values of UUIDs; times are carried through unread, so the types
//! take the time type as a parameter.
use vstd::prelude::*;
use crate::responses;
use crate::responses::{unwrap_count, unwrap_text};

verus! {

broadcast use vstd::string::group_string_axioms;

// ---------------------------------------------------------------------------
// Stacks in lists
// ---------------------------------------------------------------------------

/// A stack as a listing query returns it.
pub struct StackSummaryRow<Time> {
    pub id: u128,
    pub project_name: String,
    pub description: String,
    pub category: String,
    pub url: Option<String>,
    pub scale: String,
    pub upvotes: i32,
    pub tool_count: Option<i64>,
    pub comment_count: Option<i64>,
    pub creator_nickname: Option<String>,
    pub created_at: Time,
    pub updated_at: Option<Time>,
}

/// A stack in a list.
pub struct StackSummary<Time> {
    pub id: u128,
    pub project_name: String,
    pub description: String,
    pub category: String,
    pub url: Option<String>,
    pub scale: String,
    pub upvotes: i32,
    pub tool_count: i64,
    pub comment_count: i64,
    pub creator_nickname: String,
    pub created_at: Time,
    pub updated_at: Option<Time>,
}

/// `s` lists the stack of row `r`: the row's fields, with missing counts
/// read as 0 and a missing nickname as empty.
pub open spec fn lists<Time>(s: StackSummary<Time>, r: StackSummaryRow<Time>) -> bool {
    &&& s.id == r.id
    &&& s.project_name == r.project_name
    &&& s.description == r.description
    &&& s.category == r.category
    &&& s.url == r.url
    &&& s.scale == r.scale
    &&& s.upvotes == r.upvotes
    &&& s.tool_count == responses::count_or_zero(r.tool_count)
    &&& s.comment_count == responses::count_or_zero(r.comment_count)
    &&& s.creator_nickname@ == responses::text_or_empty(r.creator_nickname)
    &&& s.created_at == r.created_at
    &&& s.updated_at == r.updated_at
}

impl<Time> StackSummary<Time> {
    /// The listed stack; missing counts are 0 and a missing nickname is empty.
    pub fn from_row(r: StackSummaryRow<Time>) -> (s: StackSummary<Time>)
        ensures
            lists(s, r),
    {
        StackSummary {
            id: r.id,
            project_name: r.project_name,
            description: r.description,
            category: r.category,
            url: r.url,
            scale: r.scale,
            upvotes: r.upvotes,
            tool_count: unwrap_count(r.tool_count),
            comment_count: unwrap_count(r.comment_count),
            creator_nickname: unwrap_text(r.creator_nickname),
            created_at: r.created_at,
            updated_at: r.updated_at,
        }
    }
}

/// The listed stacks, in order.
pub fn summaries<Time>(rows: Vec<StackSummaryRow<Time>>) -> (r: Vec<StackSummary<Time>>)
    ensures
        r@.len() == rows@.len(),
        forall|i: int| 0 <= i < rows@.len() ==> lists(#[trigger] r@[i], rows@[i]),
{
    let ghost all = rows@;
    let mut out: Vec<StackSummary<Time>> = Vec::new();
    for row in it: rows
        invariant
            it.seq() == all,
            out@.len() == it.index(),
            forall|i: int| 0 <= i < out@.len() ==> lists(#[trigger] out@[i], all[i]),
    {
        out.push(StackSummary::from_row(row));
    }
    out
}

// ---------------------------------------------------------------------------
// One stack in full
// ---------------------------------------------------------------------------

/// A stack's own row.
pub struct StackRow<Time> {
    pub id: u128,
    pub creator_id: u128,
    pub project_name: String,
    pub description: String,
    pub category: String,
    pub url: Option<String>,
    pub scale: String,
    pub lessons: Option<String>,
    pub upvotes: i32,
    pub created_at: Time,
    pub updated_at: Option<Time>,
    pub forked_from: Option<u128>,
}

/// A tool of a stack as stored.
pub struct StackToolRow {
    pub id: u128,
    pub stack_id: u128,
    pub name: String,
    pub category: String,
    pub why: String,
    pub cost: Option<String>,
    pub verdict: String,
}

/// A tool of a stack in an answer.
pub struct ToolResponse {
    pub id: u128,
    pub name: String,
    pub category: String,
    pub why: String,
    pub cost: Option<String>,
    pub verdict: String,
}

/// `r` answers with the tool of row `t`.
pub open spec fn answers_tool(r: ToolResponse, t: StackToolRow) -> bool {
    &&& r.id == t.id
    &&& r.name == t.name
    &&& r.category == t.category
    &&& r.why == t.why
    &&& r.cost == t.cost
    &&& r.verdict == t.verdict
}

impl ToolResponse {
    /// The tool of row `t`, without its stack's id.
    pub fn from_row(t: StackToolRow) -> (r: ToolResponse)
        ensures
            answers_tool(r, t),
    {
        ToolResponse {
            id: t.id,
            name: t.name,
            category: t.category,
            why: t.why,
            cost: t.cost,
            verdict: t.verdict,
        }
    }
}

/// A comment with its author's nickname, as a query returns it.
pub struct CommentWithNickname<Time> {
    pub id: u128,
    pub content: String,
    pub creator_nickname: Option<String>,
    pub created_at: Time,
}

/// A comment in an answer.
pub struct CommentResponse<Time> {
    pub id: u128,
    pub content: String,
    pub creator_nickname: String,
    pub created_at: Time,
}

/// `r` answers with the comment `c`; a missing nickname is empty.
pub open spec fn answers_comment<Time>(r: CommentResponse<Time>, c: CommentWithNickname<Time>) -> bool {
    &&& r.id == c.id
    &&& r.content == c.content
    &&& r.creator_nickname@ == responses::text_or_empty(c.creator_nickname)
    &&& r.created_at == c.created_at
}

impl<Time> CommentResponse<Time> {
    /// The comment; a missing nickname is empty.
    pub fn from_row(c: CommentWithNickname<Time>) -> (r: CommentResponse<Time>)
        ensures
            answers_comment(r, c),
    {
        CommentResponse {
            id: c.id,
            content: c.content,
            creator_nickname: unwrap_text(c.creator_nickname),
            created_at: c.created_at,
        }
    }
}

/// An entry of a stack's history, as stored.
pub struct StackHistoryRow<Time> {
    pub id: u128,
    pub change_type: String,
    pub detail: Option<String>,
    pub created_at: Time,
}

/// An entry of a stack's history in an answer.
pub struct StackHistoryEntry<Time> {
    pub id: u128,
    pub change_type: String,
    pub detail: Option<String>,
    pub created_at: Time,
}

/// `e` answers with the history entry `h`.
pub open spec fn answers_history<Time>(e: StackHistoryEntry<Time>, h: StackHistoryRow<Time>) -> bool {
    &&& e.id == h.id
    &&& e.change_type == h.change_type
    &&& e.detail == h.detail
    &&& e.created_at == h.created_at
}

impl<Time> StackHistoryEntry<Time> {
    /// The history entry of row `h`.
    pub fn from_row(h: StackHistoryRow<Time>) -> (e: StackHistoryEntry<Time>)
        ensures
            answers_history(e, h),
    {
        StackHistoryEntry {
            id: h.id,
            change_type: h.change_type,
            detail: h.detail,
            created_at: h.created_at,
        }
    }
}

/// A stack in full.
pub struct StackDetail<Time> {
    pub id: u128,
    pub project_name: String,
    pub description: String,
    pub category: String,
    pub url: Option<String>,
    pub scale: String,
    pub lessons: Option<String>,
    pub upvotes: i32,
    pub creator_id: u128,
    pub creator_nickname: String,
    pub created_at: Time,
    pub updated_at: Option<Time>,
    pub tools: Vec<ToolResponse>,
    pub comments: Vec<CommentResponse<Time>>,
    pub history: Vec<StackHistoryEntry<Time>>,
    pub forked_from: Option<u128>,
}

/// The tools in an answer, in order.
pub fn tool_responses(rows: Vec<StackToolRow>) -> (r: Vec<ToolResponse>)
    ensures
        r@.len() == rows@.len(),
        forall|i: int| 0 <= i < rows@.len() ==> answers_tool(#[trigger] r@[i], rows@[i]),
{
    let ghost all = rows@;
    let mut out: Vec<ToolResponse> = Vec::new();
    for row in it: rows
        invariant
            it.seq() == all,
            out@.len() == it.index(),
            forall|i: int| 0 <= i < out@.len() ==> answers_tool(#[trigger] out@[i], all[i]),
    {
        out.push(ToolResponse::from_row(row));
    }
    out
}

/// The comments in an answer, in order.
pub fn comment_responses<Time>(rows: Vec<CommentWithNickname<Time>>) -> (r: Vec<
    CommentResponse<Time>,
>)
    ensures
        r@.len() == rows@.len(),
        forall|i: int| 0 <= i < rows@.len() ==> answers_comment(#[trigger] r@[i], rows@[i]),
{
    let ghost all = rows@;
    let mut out: Vec<CommentResponse<Time>> = Vec::new();
    for row in it: rows
        invariant
            it.seq() == all,
            out@.len() == it.index(),
            forall|i: int| 0 <= i < out@.len() ==> answers_comment(#[trigger] out@[i], all[i]),
    {
        out.push(CommentResponse::from_row(row));
    }
    out
}

/// The history in an answer, in order.
pub fn history_entries<Time>(rows: Vec<StackHistoryRow<Time>>) -> (r: Vec<StackHistoryEntry<Time>>)
    ensures
        r@.len() == rows@.len(),
        forall|i: int| 0 <= i < rows@.len() ==> answers_history(#[trigger] r@[i], rows@[i]),
{
    let ghost all = rows@;
    let mut out: Vec<StackHistoryEntry<Time>> = Vec::new();
    for row in it: rows
        invariant
            it.seq() == all,
            out@.len() == it.index(),
            forall|i: int| 0 <= i < out@.len() ==> answers_history(#[trigger] out@[i], all[i]),
    {
        out.push(StackHistoryEntry::from_row(row));
    }
    out
}

impl<Time> StackDetail<Time> {
    /// The stack in full: its row, its creator's nickname, and its tools,
    /// comments and history in the order they were read.
    pub fn assemble(
        stack: StackRow<Time>,
        creator_nickname: String,
        tools: Vec<StackToolRow>,
        comments: Vec<CommentWithNickname<Time>>,
        history: Vec<StackHistoryRow<Time>>,
    ) -> (d: StackDetail<Time>)
        ensures
            d.id == stack.id,
            d.project_name == stack.project_name,
            d.description == stack.description,
            d.category == stack.category,
            d.url == stack.url,
            d.scale == stack.scale,
            d.lessons == stack.lessons,
            d.upvotes == stack.upvotes,
            d.creator_id == stack.creator_id,
            d.creator_nickname == creator_nickname,
            d.created_at == stack.created_at,
            d.updated_at == stack.updated_at,
            d.forked_from == stack.forked_from,
            d.tools@.len() == tools@.len(),
            forall|i: int| 0 <= i < tools@.len() ==> answers_tool(#[trigger] d.tools@[i], tools@[i]),
            d.comments@.len() == comments@.len(),
            forall|i: int|
                0 <= i < comments@.len() ==> answers_comment(#[trigger] d.comments@[i], comments@[i]),
            d.history@.len() == history@.len(),
            forall|i: int|
                0 <= i < history@.len() ==> answers_history(#[trigger] d.history@[i], history@[i]),
    {
        StackDetail {
            id: stack.id,
            project_name: stack.project_name,
            description: stack.description,
            category: stack.category,
            url: stack.url,
            scale: stack.scale,
            lessons: stack.lessons,
            upvotes: stack.upvotes,
            creator_id: stack.creator_id,
            creator_nickname,
            created_at: stack.created_at,
            updated_at: stack.updated_at,
            tools: tool_responses(tools),
            comments: comment_responses(comments),
            history: history_entries(history),
            forked_from: stack.forked_from,
        }
    }
}

// ---------------------------------------------------------------------------
// Tools, trending stacks, profiles
// ---------------------------------------------------------------------------

/// A stack that uses a tool, as a query returns it.
pub struct ToolDetailRow {
    pub stack_id: Option<u128>,
    pub project_name: Option<String>,
    pub why: String,
    pub verdict: String,
    pub cost: Option<String>,
}

/// A stack that uses a tool, in an answer.
pub struct ToolDetailEntry {
    pub stack_id: u128,
    pub project_name: String,
    pub why: String,
    pub verdict: String,
    pub cost: Option<String>,
}

impl ToolDetailEntry {
    /// The entry; a missing stack id is the nil id (0) and a missing name is
    /// empty.
    pub fn from_row(r: ToolDetailRow) -> (e: ToolDetailEntry)
        ensures
            e.stack_id == (match r.stack_id {
                Some(id) => id,
                None => 0,
            }),
            e.project_name@ == responses::text_or_empty(r.project_name),
            e.why == r.why,
            e.verdict == r.verdict,
            e.cost == r.cost,
    {
        ToolDetailEntry {
            stack_id: match r.stack_id {
                Some(id) => id,
                None => 0,
            },
            project_name: unwrap_text(r.project_name),
            why: r.why,
            verdict: r.verdict,
            cost: r.cost,
        }
    }
}

/// A stack with its recent up-votes, as a query returns it.
pub struct TrendingStackRow {
    pub id: u128,
    pub project_name: String,
    pub description: String,
    pub category: String,
    pub scale: String,
    pub recent_votes: Option<i64>,
    pub creator_nickname: Option<String>,
}

/// A trending stack in an answer.
pub struct TrendingStack {
    pub id: u128,
    pub project_name: String,
    pub description: String,
    pub category: String,
    pub scale: String,
    pub recent_votes: i64,
    pub creator_nickname: String,
}

impl TrendingStack {
    pub fn from_row(r: TrendingStackRow) -> (t: TrendingStack)
        ensures
            t.id == r.id,
            t.project_name == r.project_name,
            t.description == r.description,
            t.category == r.category,
            t.scale == r.scale,
            t.recent_votes == responses::count_or_zero(r.recent_votes),
            t.creator_nickname@ == responses::text_or_empty(r.creator_nickname),
    {
        TrendingStack {
            id: r.id,
            project_name: r.project_name,
            description: r.description,
            category: r.category,
            scale: r.scale,
            recent_votes: unwrap_count(r.recent_votes),
            creator_nickname: unwrap_text(r.creator_nickname),
        }
    }
}

/// A user's public profile.
pub struct UserProfileResponse<Time> {
    pub nickname: String,
    pub created_at: Time,
    pub stack_count: i64,
    pub sponsor_url: Option<String>,
    pub stacks: Vec<StackSummary<Time>>,
}

impl<Time> UserProfileResponse<Time> {
    /// The profile, listing the user's stacks and counting them.
    pub fn assemble(
        nickname: String,
        created_at: Time,
        sponsor_url: Option<String>,
        stacks: Vec<StackSummaryRow<Time>>,
    ) -> (p: UserProfileResponse<Time>)
        ensures
            p.nickname == nickname,
            p.created_at == created_at,
            p.sponsor_url == sponsor_url,
            p.stack_count == stacks@.len() as i64,
            p.stacks@.len() == stacks@.len(),
            forall|i: int| 0 <= i < stacks@.len() ==> lists(#[trigger] p.stacks@[i], stacks@[i]),
    {
        let stack_count = stacks.len() as i64;
        UserProfileResponse {
            nickname,
            created_at,
            stack_count,
            sponsor_url,
            stacks: summaries(stacks),
        }
    }
}

} // verus!
