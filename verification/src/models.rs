//! Request bodies and their validation.
use vstd::prelude::*;
use crate::text;
use crate::text::{chars_of, push_chars, push_decimal, string_of, text_eq, text_len, text_starts_with};
use crate::errors;
use crate::errors::{ApiError, ErrorResponse};

verus! {

broadcast use vstd::string::group_string_axioms;

// ---------------------------------------------------------------------------
// Request types
// ---------------------------------------------------------------------------

pub struct JoinRequest {
    pub nickname: String,
}

pub struct RecoverRequest {
    pub recovery_code: String,
}

/// One tool of a stack, as submitted.
pub struct CreateToolInput {
    pub name: String,
    pub category: String,
    pub why: String,
    pub cost: Option<String>,
    pub verdict: String,
}

/// A new stack, as submitted.
pub struct CreateStackRequest {
    pub project_name: String,
    pub description: String,
    pub category: String,
    pub url: Option<String>,
    pub scale: String,
    pub tools: Vec<CreateToolInput>,
    pub lessons: Option<String>,
    pub forked_from: Option<u128>,
}

pub struct VoteRequest {
    pub direction: String,
}

pub struct CreateCommentRequest {
    pub content: String,
}

/// Paging, ordering and filters of the stack listing.
pub struct ListStacksQuery {
    pub page: Option<i64>,
    pub limit: Option<i64>,
    pub sort: Option<String>,
    pub category: Option<String>,
    pub tool: Option<String>,
    pub scale: Option<String>,
    pub search: Option<String>,
}

pub struct CompareToolsQuery {
    pub tools: String,
}

/// Changes to a stack; absent fields stay as they are.
pub struct UpdateStackRequest {
    pub project_name: Option<String>,
    pub description: Option<String>,
    pub category: Option<String>,
    pub url: Option<String>,
    pub scale: Option<String>,
    pub lessons: Option<String>,
    pub tools: Option<Vec<CreateToolInput>>,
}

pub struct UpdateProfileRequest {
    pub sponsor_url: Option<String>,
}

// ---------------------------------------------------------------------------
// Allowed values
// ---------------------------------------------------------------------------

/// A stack category.
pub open spec fn is_category(s: Seq<char>) -> bool {
    s == "saas"@ || s == "ecommerce"@ || s == "api"@ || s == "mobile"@ || s == "desktop"@ || s
        == "devtool"@ || s == "other"@
}

/// A stack scale.
pub open spec fn is_scale(s: Seq<char>) -> bool {
    s == "hobby"@ || s == "hundreds"@ || s == "thousands"@ || s == "tens_of_thousands"@ || s
        == "hundreds_of_thousands"@ || s == "millions"@
}

/// A tool category.
pub open spec fn is_tool_category(s: Seq<char>) -> bool {
    s == "frontend"@ || s == "backend"@ || s == "database"@ || s == "hosting"@ || s == "auth"@
        || s == "payments"@ || s == "monitoring"@ || s == "cdn"@ || s == "email"@ || s
        == "storage"@ || s == "other"@
}

/// A verdict on a tool.
pub open spec fn is_verdict(s: Seq<char>) -> bool {
    s == "love"@ || s == "good"@ || s == "meh"@ || s == "regret"@
}

pub fn valid_category(s: &str) -> (b: bool)
    ensures
        b == is_category(s@),
{
    text_eq(s, "saas") || text_eq(s, "ecommerce") || text_eq(s, "api") || text_eq(s, "mobile")
        || text_eq(s, "desktop") || text_eq(s, "devtool") || text_eq(s, "other")
}

pub fn valid_scale(s: &str) -> (b: bool)
    ensures
        b == is_scale(s@),
{
    text_eq(s, "hobby") || text_eq(s, "hundreds") || text_eq(s, "thousands") || text_eq(
        s,
        "tens_of_thousands",
    ) || text_eq(s, "hundreds_of_thousands") || text_eq(s, "millions")
}

pub fn valid_tool_category(s: &str) -> (b: bool)
    ensures
        b == is_tool_category(s@),
{
    text_eq(s, "frontend") || text_eq(s, "backend") || text_eq(s, "database") || text_eq(
        s,
        "hosting",
    ) || text_eq(s, "auth") || text_eq(s, "payments") || text_eq(s, "monitoring") || text_eq(
        s,
        "cdn",
    ) || text_eq(s, "email") || text_eq(s, "storage") || text_eq(s, "other")
}

pub fn valid_verdict(s: &str) -> (b: bool)
    ensures
        b == is_verdict(s@),
{
    text_eq(s, "love") || text_eq(s, "good") || text_eq(s, "meh") || text_eq(s, "regret")
}

// ---------------------------------------------------------------------------
// Rules
// ---------------------------------------------------------------------------

/// Non-empty and at most `max` bytes long.
pub open spec fn length_within(s: Seq<char>, max: int) -> bool {
    s.len() != 0 && text::byte_len(s) <= max
}

/// What is wrong with a stack's URL, if anything: a non-empty URL must start
/// with `http://` or `https://` and be at most 500 bytes.
pub open spec fn url_issue(url: Seq<char>) -> Option<Seq<char>> {
    if url.len() == 0 {
        None
    } else if !("http://"@.is_prefix_of(url) || "https://"@.is_prefix_of(url)) {
        Some("url must start with http:// or https://"@)
    } else if text::byte_len(url) > 500 {
        Some("url must be max 500 chars"@)
    } else {
        None
    }
}

/// The message naming tool `i` and what is wrong with it.
pub open spec fn tool_message(i: int, rest: Seq<char>) -> Seq<char> {
    "tools["@ + text::decimal(i as nat) + rest
}

/// What is wrong with tool `i`, if anything.
pub open spec fn tool_issue(i: int, t: CreateToolInput) -> Option<Seq<char>> {
    if !length_within(t.name@, 100) {
        Some(tool_message(i, "].name must be 1-100 chars"@))
    } else if !is_tool_category(t.category@) {
        Some(
            tool_message(
                i,
                "].category must be one of: frontend, backend, database, hosting, auth, payments, monitoring, cdn, email, storage, other"@,
            ),
        )
    } else if !length_within(t.why@, 300) {
        Some(tool_message(i, "].why must be 1-300 chars"@))
    } else if !is_verdict(t.verdict@) {
        Some(tool_message(i, "].verdict must be one of: love, good, meh, regret"@))
    } else {
        None
    }
}

/// The first issue among tools `i..`.
pub open spec fn tools_issue_from(ts: Seq<CreateToolInput>, i: int) -> Option<Seq<char>>
    decreases ts.len() - i,
{
    if i < 0 || i >= ts.len() {
        None
    } else {
        match tool_issue(i, ts[i]) {
            Some(m) => Some(m),
            None => tools_issue_from(ts, i + 1),
        }
    }
}

/// What is wrong with a list of tools, if anything: at most 30 tools, and the
/// first tool with an issue.
pub open spec fn tools_issue(ts: Seq<CreateToolInput>) -> Option<Seq<char>> {
    if ts.len() > 30 {
        Some("maximum 30 tools allowed"@)
    } else {
        tools_issue_from(ts, 0)
    }
}

/// The lessons text, at most 500 bytes.
pub open spec fn lessons_issue(lessons: Option<String>) -> Option<Seq<char>> {
    match lessons {
        Some(l) => if text::byte_len(l@) > 500 {
            Some("lessons must be max 500 chars"@)
        } else {
            None
        },
        None => None,
    }
}

/// The URL's issue, when there is a URL.
pub open spec fn optional_url_issue(url: Option<String>) -> Option<Seq<char>> {
    match url {
        Some(u) => url_issue(u@),
        None => None,
    }
}

pub open spec fn category_message() -> Seq<char> {
    "category must be one of: saas, ecommerce, api, mobile, desktop, devtool, other"@
}

pub open spec fn scale_message() -> Seq<char> {
    "scale must be one of: hobby, hundreds, thousands, tens_of_thousands, hundreds_of_thousands, millions"@
}

// ---------------------------------------------------------------------------
// The values a refusal offers
// ---------------------------------------------------------------------------

/// The values a refusal message offers: the comma-separated list after its
/// first colon, each trimmed.
pub open spec fn offered_values(msg: Seq<char>) -> Seq<Seq<char>> {
    match text::split_once(msg, ':') {
        Some((_, rest)) => text::split(rest, ',').map_values(|p: Seq<char>| text::trim(p)),
        None => Seq::<Seq<char>>::empty(),
    }
}

/// A value as a list shows it: not empty, without a comma, and without
/// whitespace at either end.
pub open spec fn plain_value(n: Seq<char>) -> bool {
    &&& n.len() > 0
    &&& !text::is_white(n[0])
    &&& !text::is_white(n.last())
    &&& forall|j: int| 0 <= j < n.len() ==> n[j] != ','
}

/// Splitting `a`, a separator, then `b` without it: the pieces of `a`, then `b`.
proof fn lemma_split_before(a: Seq<char>, sep: char, b: Seq<char>)
    requires
        forall|j: int| 0 <= j < b.len() ==> b[j] != sep,
    ensures
        text::split(a + seq![sep] + b, sep) == text::split(a, sep).push(b),
    decreases b.len(),
{
    let s = a + seq![sep] + b;
    if b.len() == 0 {
        assert(s.drop_last() =~= a);
        assert(b =~= Seq::<char>::empty());
    } else {
        lemma_split_before(a, sep, b.drop_last());
        assert(s.drop_last() =~= a + seq![sep] + b.drop_last());
        assert(b.drop_last().push(b.last()) =~= b);
        text::lemma_split_len(a, sep);
    }
}

/// A list of plain values, joined by `", "` after a space, splits at its
/// commas into the values, each with one space before it.
proof fn lemma_split_joined(names: Seq<Seq<char>>, k: int)
    requires
        1 <= k <= names.len(),
        forall|i: int| 0 <= i < names.len() ==> plain_value(#[trigger] names[i]),
    ensures
        text::split(seq![' '] + text::join_with(names.take(k), ", "@), ',') == Seq::new(
            k as nat,
            |i: int| seq![' '] + names[i],
        ),
    decreases k,
{
    reveal_strlit(", ");
    if k == 1 {
        assert(plain_value(names[0]));
        text::lemma_split_no_sep(seq![' '] + names[0], ',');
        assert(text::split(seq![' '] + text::join_with(names.take(k), ", "@), ',') =~= Seq::new(
            k as nat,
            |i: int| seq![' '] + names[i],
        ));
    } else {
        lemma_split_joined(names, k - 1);
        assert(names.take(k).drop_last() =~= names.take(k - 1));
        let a = seq![' '] + text::join_with(names.take(k - 1), ", "@);
        let b = seq![' '] + names[k - 1];
        assert(plain_value(names[k - 1]));
        assert(seq![' '] + text::join_with(names.take(k), ", "@) =~= a + seq![','] + b);
        lemma_split_before(a, ',', b);
        assert(text::split(seq![' '] + text::join_with(names.take(k), ", "@), ',') =~= Seq::new(
            k as nat,
            |i: int| seq![' '] + names[i],
        ));
    }
}

/// A plain value after one space, trimmed, is the value.
proof fn lemma_trim_spaced(n: Seq<char>)
    requires
        plain_value(n),
    ensures
        text::trim(seq![' '] + n) == n,
{
    let s = seq![' '] + n;
    assert(s.drop_first() =~= n);
    assert(text::trim_start(s) == text::trim_start(n));
    assert(text::trim_start(n) == n);
}

/// A message `head: v1, v2, ...` offers exactly the values it lists.
proof fn lemma_offered_values(head: Seq<char>, names: Seq<Seq<char>>)
    requires
        forall|j: int| 0 <= j < head.len() ==> head[j] != ':',
        names.len() >= 1,
        forall|i: int| 0 <= i < names.len() ==> plain_value(#[trigger] names[i]),
    ensures
        offered_values(head + seq![':'] + (seq![' '] + text::join_with(names, ", "@))) == names,
{
    let rest = seq![' '] + text::join_with(names, ", "@);
    text::lemma_split_once_concat(head, ':', rest);
    lemma_split_joined(names, names.len() as int);
    assert(names.take(names.len() as int) =~= names);
    assert forall|i: int| 0 <= i < names.len() implies text::trim(seq![' '] + names[i])
        == names[i] by {
        lemma_trim_spaced(names[i]);
    }
    assert(offered_values(head + seq![':'] + rest) =~= names);
}

/// The stack categories, as the refusal lists them.
pub open spec fn categories() -> Seq<Seq<char>> {
    seq!["saas"@, "ecommerce"@, "api"@, "mobile"@, "desktop"@, "devtool"@, "other"@]
}

/// A category is accepted exactly when it is one of the values its refusal
/// message offers.
pub proof fn lemma_category_offered(s: Seq<char>)
    ensures
        offered_values(category_message()) == categories(),
        is_category(s) <==> categories().contains(s),
{
    reveal_strlit("category must be one of: saas, ecommerce, api, mobile, desktop, devtool, other");
    reveal_strlit("category must be one of");
    reveal_strlit(", ");
    reveal_strlit("saas");
    reveal_strlit("ecommerce");
    reveal_strlit("api");
    reveal_strlit("mobile");
    reveal_strlit("desktop");
    reveal_strlit("devtool");
    reveal_strlit("other");
    let names = categories();
    let head = "category must be one of"@;
    reveal_with_fuel(text::join_with, 8);
    assert(category_message() =~= head + seq![':'] + (seq![' '] + text::join_with(names, ", "@)));
    assert forall|i: int| 0 <= i < names.len() implies plain_value(#[trigger] names[i]) by {
    }
    lemma_offered_values(head, names);
    if is_category(s) {
        if s == "saas"@ { assert(names[0] == s); }
        else if s == "ecommerce"@ { assert(names[1] == s); }
        else if s == "api"@ { assert(names[2] == s); }
        else if s == "mobile"@ { assert(names[3] == s); }
        else if s == "desktop"@ { assert(names[4] == s); }
        else if s == "devtool"@ { assert(names[5] == s); }
        else { assert(names[6] == s); }
    }
}

/// The stack scales, as the refusal lists them.
pub open spec fn scales() -> Seq<Seq<char>> {
    seq![
        "hobby"@,
        "hundreds"@,
        "thousands"@,
        "tens_of_thousands"@,
        "hundreds_of_thousands"@,
        "millions"@,
    ]
}

/// A scale is accepted exactly when it is one of the values its refusal
/// message offers.
pub proof fn lemma_scale_offered(s: Seq<char>)
    ensures
        offered_values(scale_message()) == scales(),
        is_scale(s) <==> scales().contains(s),
{
    reveal_strlit(
        "scale must be one of: hobby, hundreds, thousands, tens_of_thousands, hundreds_of_thousands, millions",
    );
    reveal_strlit("scale must be one of");
    reveal_strlit(", ");
    reveal_strlit("hobby");
    reveal_strlit("hundreds");
    reveal_strlit("thousands");
    reveal_strlit("tens_of_thousands");
    reveal_strlit("hundreds_of_thousands");
    reveal_strlit("millions");
    let names = scales();
    let head = "scale must be one of"@;
    reveal_with_fuel(text::join_with, 7);
    assert(scale_message() =~= head + seq![':'] + (seq![' '] + text::join_with(names, ", "@)));
    assert forall|i: int| 0 <= i < names.len() implies plain_value(#[trigger] names[i]) by {}
    lemma_offered_values(head, names);
    if is_scale(s) {
        if s == "hobby"@ { assert(names[0] == s); }
        else if s == "hundreds"@ { assert(names[1] == s); }
        else if s == "thousands"@ { assert(names[2] == s); }
        else if s == "tens_of_thousands"@ { assert(names[3] == s); }
        else if s == "hundreds_of_thousands"@ { assert(names[4] == s); }
        else { assert(names[5] == s); }
    }
}

/// The tool categories, as the refusal lists them.
pub open spec fn tool_categories() -> Seq<Seq<char>> {
    seq![
        "frontend"@,
        "backend"@,
        "database"@,
        "hosting"@,
        "auth"@,
        "payments"@,
        "monitoring"@,
        "cdn"@,
        "email"@,
        "storage"@,
        "other"@,
    ]
}

/// The start of a message about tool `i`, up to `rest`.
pub open spec fn tool_head(i: int, rest: Seq<char>) -> Seq<char> {
    "tools["@ + text::decimal(i as nat) + rest
}

/// The start of a tool's message holds no colon where `rest` holds none.
proof fn lemma_tool_head(i: int, rest: Seq<char>)
    requires
        forall|j: int| 0 <= j < rest.len() ==> rest[j] != ':',
    ensures
        forall|j: int| 0 <= j < tool_head(i, rest).len() ==> #[trigger] tool_head(i, rest)[j] != ':',
{
    reveal_strlit("tools[");
    text::lemma_decimal(i as nat);
    let d = text::decimal(i as nat);
    let m = "tools["@ + d + rest;
    assert forall|j: int| 0 <= j < m.len() implies m[j] != ':' by {
        if j < 6 {
        } else if j < 6 + d.len() {
            assert(text::is_digit(d[j - 6]));
        } else {
            assert(m[j] == rest[j - 6 - d.len()]);
        }
    }
}

/// A tool's category is accepted exactly when it is one of the values the
/// refusal message offers, whichever tool the message names.
pub proof fn lemma_tool_category_offered(i: int, s: Seq<char>)
    ensures
        offered_values(
            tool_message(
                i,
                "].category must be one of: frontend, backend, database, hosting, auth, payments, monitoring, cdn, email, storage, other"@,
            ),
        ) == tool_categories(),
        is_tool_category(s) <==> tool_categories().contains(s),
{
    reveal_strlit(
        "].category must be one of: frontend, backend, database, hosting, auth, payments, monitoring, cdn, email, storage, other",
    );
    reveal_strlit("].category must be one of");
    reveal_strlit(", ");
    reveal_strlit("frontend");
    reveal_strlit("backend");
    reveal_strlit("database");
    reveal_strlit("hosting");
    reveal_strlit("auth");
    reveal_strlit("payments");
    reveal_strlit("monitoring");
    reveal_strlit("cdn");
    reveal_strlit("email");
    reveal_strlit("storage");
    reveal_strlit("other");
    let names = tool_categories();
    let rest = "].category must be one of"@;
    reveal_with_fuel(text::join_with, 12);
    assert("].category must be one of: frontend, backend, database, hosting, auth, payments, monitoring, cdn, email, storage, other"@
        =~= rest + seq![':'] + (seq![' '] + text::join_with(names, ", "@)));
    lemma_tool_head(i, rest);
    let head = tool_head(i, rest);
    assert(tool_message(
        i,
        "].category must be one of: frontend, backend, database, hosting, auth, payments, monitoring, cdn, email, storage, other"@,
    ) =~= head + seq![':'] + (seq![' '] + text::join_with(names, ", "@)));
    assert forall|k: int| 0 <= k < names.len() implies plain_value(#[trigger] names[k]) by {}
    lemma_offered_values(head, names);
    if is_tool_category(s) {
        if s == "frontend"@ { assert(names[0] == s); }
        else if s == "backend"@ { assert(names[1] == s); }
        else if s == "database"@ { assert(names[2] == s); }
        else if s == "hosting"@ { assert(names[3] == s); }
        else if s == "auth"@ { assert(names[4] == s); }
        else if s == "payments"@ { assert(names[5] == s); }
        else if s == "monitoring"@ { assert(names[6] == s); }
        else if s == "cdn"@ { assert(names[7] == s); }
        else if s == "email"@ { assert(names[8] == s); }
        else if s == "storage"@ { assert(names[9] == s); }
        else { assert(names[10] == s); }
    }
}

/// The verdicts, as the refusal lists them.
pub open spec fn verdicts() -> Seq<Seq<char>> {
    seq!["love"@, "good"@, "meh"@, "regret"@]
}

/// A verdict is accepted exactly when it is one of the values the refusal
/// message offers, whichever tool the message names.
pub proof fn lemma_verdict_offered(i: int, s: Seq<char>)
    ensures
        offered_values(tool_message(i, "].verdict must be one of: love, good, meh, regret"@))
            == verdicts(),
        is_verdict(s) <==> verdicts().contains(s),
{
    reveal_strlit("].verdict must be one of: love, good, meh, regret");
    reveal_strlit("].verdict must be one of");
    reveal_strlit(", ");
    reveal_strlit("love");
    reveal_strlit("good");
    reveal_strlit("meh");
    reveal_strlit("regret");
    let names = verdicts();
    let rest = "].verdict must be one of"@;
    reveal_with_fuel(text::join_with, 5);
    assert("].verdict must be one of: love, good, meh, regret"@ =~= rest + seq![':'] + (seq![' ']
        + text::join_with(names, ", "@)));
    lemma_tool_head(i, rest);
    let head = tool_head(i, rest);
    assert(tool_message(i, "].verdict must be one of: love, good, meh, regret"@) =~= head
        + seq![':'] + (seq![' '] + text::join_with(names, ", "@)));
    assert forall|k: int| 0 <= k < names.len() implies plain_value(#[trigger] names[k]) by {}
    lemma_offered_values(head, names);
    if is_verdict(s) {
        if s == "love"@ { assert(names[0] == s); }
        else if s == "good"@ { assert(names[1] == s); }
        else if s == "meh"@ { assert(names[2] == s); }
        else { assert(names[3] == s); }
    }
}

/// The first rule a new stack breaks, checked in order: name, description,
/// category, scale, at least one tool, URL, tools, lessons.
pub open spec fn create_issue(r: CreateStackRequest) -> Option<Seq<char>> {
    if !length_within(r.project_name@, 100) {
        Some("project_name must be 1-100 chars"@)
    } else if !length_within(r.description@, 200) {
        Some("description must be 1-200 chars"@)
    } else if !is_category(r.category@) {
        Some(category_message())
    } else if !is_scale(r.scale@) {
        Some(scale_message())
    } else if r.tools@.len() == 0 {
        Some("at least one tool is required"@)
    } else if optional_url_issue(r.url) is Some {
        optional_url_issue(r.url)
    } else if tools_issue(r.tools@) is Some {
        tools_issue(r.tools@)
    } else {
        lessons_issue(r.lessons)
    }
}

/// The first rule a change to a stack breaks, checked in order over the
/// fields that are present.
pub open spec fn update_issue(r: UpdateStackRequest) -> Option<Seq<char>> {
    if r.project_name is Some && !length_within(r.project_name->0@, 100) {
        Some("project_name must be 1-100 chars"@)
    } else if r.description is Some && !length_within(r.description->0@, 200) {
        Some("description must be 1-200 chars"@)
    } else if r.category is Some && !is_category(r.category->0@) {
        Some(category_message())
    } else if r.scale is Some && !is_scale(r.scale->0@) {
        Some(scale_message())
    } else if optional_url_issue(r.url) is Some {
        optional_url_issue(r.url)
    } else if lessons_issue(r.lessons) is Some {
        lessons_issue(r.lessons)
    } else {
        match r.tools {
            Some(ts) => if ts@.len() == 0 {
                Some("at least one tool is required"@)
            } else {
                tools_issue(ts@)
            },
            None => None,
        }
    }
}

/// `Ok` exactly when there is no issue, else the issue's message.
pub open spec fn reports(r: Result<(), String>, issue: Option<Seq<char>>) -> bool {
    match r {
        Ok(_) => issue is None,
        Err(m) => issue == Some(m@),
    }
}

fn message(s: &str) -> (r: Result<(), String>)
    ensures
        reports(r, Some(s@)),
{
    Err(string_of(s))
}

fn length_within_exec(s: &String, max: usize) -> (b: bool)
    ensures
        b == length_within(s@, max as int),
{
    !(s.as_str().is_empty() || text_len(s) > max)
}

/// Checks a stack's URL.
pub fn validate_url(url: &str) -> (r: Result<(), String>)
    ensures
        reports(r, url_issue(url@)),
{
    if !url.is_empty() {
        if !text_starts_with(url, "http://") && !text_starts_with(url, "https://") {
            return message("url must start with http:// or https://");
        }
        if url.len() > 500 {
            return message("url must be max 500 chars");
        }
    }
    Ok(())
}

fn tool_error(i: usize, rest: &str) -> (r: Result<(), String>)
    ensures
        reports(r, Some(tool_message(i as int, rest@))),
{
    let mut m = string_of("tools[");
    push_decimal(&mut m, i as u128);
    push_chars(&mut m, &chars_of(rest));
    Err(m)
}

/// Checks a list of tools.
pub fn validate_tools(tools: &[CreateToolInput]) -> (r: Result<(), String>)
    ensures
        reports(r, tools_issue(tools@)),
{
    if tools.len() > 30 {
        return message("maximum 30 tools allowed");
    }
    let mut i: usize = 0;
    while i < tools.len()
        invariant
            i <= tools.len() <= 30,
            tools_issue(tools@) == tools_issue_from(tools@, i as int),
        decreases tools.len() - i,
    {
        let tool = &tools[i];
        if !length_within_exec(&tool.name, 100) {
            return tool_error(i, "].name must be 1-100 chars");
        }
        if !valid_tool_category(tool.category.as_str()) {
            return tool_error(
                i,
                "].category must be one of: frontend, backend, database, hosting, auth, payments, monitoring, cdn, email, storage, other",
            );
        }
        if !length_within_exec(&tool.why, 300) {
            return tool_error(i, "].why must be 1-300 chars");
        }
        if !valid_verdict(tool.verdict.as_str()) {
            return tool_error(i, "].verdict must be one of: love, good, meh, regret");
        }
        assert(tool_issue(i as int, tools@[i as int]) is None);
        i += 1;
    }
    Ok(())
}

fn validate_lessons(lessons: &Option<String>) -> (r: Result<(), String>)
    ensures
        reports(r, lessons_issue(*lessons)),
{
    if let Some(l) = lessons {
        if text_len(l) > 500 {
            return message("lessons must be max 500 chars");
        }
    }
    Ok(())
}

fn validate_optional_url(url: &Option<String>) -> (r: Result<(), String>)
    ensures
        reports(r, optional_url_issue(*url)),
{
    match url {
        Some(u) => validate_url(u.as_str()),
        None => Ok(()),
    }
}

fn category_error() -> (r: Result<(), String>)
    ensures
        reports(r, Some(category_message())),
{
    message("category must be one of: saas, ecommerce, api, mobile, desktop, devtool, other")
}

fn scale_error() -> (r: Result<(), String>)
    ensures
        reports(r, Some(scale_message())),
{
    message(
        "scale must be one of: hobby, hundreds, thousands, tens_of_thousands, hundreds_of_thousands, millions",
    )
}

impl CreateStackRequest {
    /// Checks a new stack: `Ok` exactly when it breaks no rule, else the
    /// message of the first rule it breaks.
    pub fn validate(&self) -> (r: Result<(), String>)
        ensures
            reports(r, create_issue(*self)),
    {
        if !length_within_exec(&self.project_name, 100) {
            return message("project_name must be 1-100 chars");
        }
        if !length_within_exec(&self.description, 200) {
            return message("description must be 1-200 chars");
        }
        if !valid_category(self.category.as_str()) {
            return category_error();
        }
        if !valid_scale(self.scale.as_str()) {
            return scale_error();
        }
        if self.tools.len() == 0 {
            return message("at least one tool is required");
        }
        let u = validate_optional_url(&self.url);
        if u.is_err() {
            return u;
        }
        let t = validate_tools(self.tools.as_slice());
        if t.is_err() {
            return t;
        }
        validate_lessons(&self.lessons)
    }
}

impl CreateStackRequest {
    /// Checks a new stack as a request: `Ok` exactly when it breaks no rule,
    /// else a 400 answer with the message of the first rule it breaks.
    pub fn check(&self) -> (r: Result<(), ApiError>)
        ensures
            match r {
                Ok(_) => create_issue(*self) is None,
                Err(e) => create_issue(*self) matches Some(m) && e.status == errors::BAD_REQUEST
                    && e.body.error@ == m,
            },
    {
        match self.validate() {
            Ok(()) => Ok(()),
            Err(m) => Err(ApiError { status: errors::BAD_REQUEST, body: ErrorResponse { error: m } }),
        }
    }
}

impl UpdateStackRequest {
    /// Checks a change to a stack: `Ok` exactly when no present field breaks
    /// a rule, else the message of the first rule broken.
    pub fn validate(&self) -> (r: Result<(), String>)
        ensures
            reports(r, update_issue(*self)),
    {
        if let Some(name) = &self.project_name {
            if !length_within_exec(name, 100) {
                return message("project_name must be 1-100 chars");
            }
        }
        if let Some(desc) = &self.description {
            if !length_within_exec(desc, 200) {
                return message("description must be 1-200 chars");
            }
        }
        if let Some(cat) = &self.category {
            if !valid_category(cat.as_str()) {
                return category_error();
            }
        }
        if let Some(scale) = &self.scale {
            if !valid_scale(scale.as_str()) {
                return scale_error();
            }
        }
        let u = validate_optional_url(&self.url);
        if u.is_err() {
            return u;
        }
        let l = validate_lessons(&self.lessons);
        if l.is_err() {
            return l;
        }
        if let Some(tools) = &self.tools {
            if tools.len() == 0 {
                return message("at least one tool is required");
            }
            return validate_tools(tools.as_slice());
        }
        Ok(())
    }
}

/// A new stack seen as a change that sets every field.
pub open spec fn as_update(r: CreateStackRequest) -> UpdateStackRequest {
    UpdateStackRequest {
        project_name: Some(r.project_name),
        description: Some(r.description),
        category: Some(r.category),
        url: r.url,
        scale: Some(r.scale),
        lessons: r.lessons,
        tools: Some(r.tools),
    }
}

/// A new stack passes its checks exactly when the change that sets all its
/// fields passes the checks of a change (the two may name different first
/// issues).
pub proof fn lemma_create_and_update_agree(r: CreateStackRequest)
    ensures
        create_issue(r) is None <==> update_issue(as_update(r)) is None,
{
}

} // verus!
