//! Rows read from the database and the answers made of them. Where a column
//! may be missing, the answer holds its default: an empty text, 0 or `false`.
use vstd::prelude::*;
use crate::tools;
use crate::tools::compute_avg_verdict;

verus! {

broadcast use vstd::string::group_string_axioms;

/// The text in `o`, or the empty text.
pub open spec fn text_or_empty(o: Option<String>) -> Seq<char> {
    match o {
        Some(s) => s@,
        None => Seq::<char>::empty(),
    }
}

/// The number in `o`, or 0.
pub open spec fn count_or_zero(o: Option<i64>) -> i64 {
    match o {
        Some(n) => n,
        None => 0,
    }
}

/// The text in `o`, or the empty text.
pub fn unwrap_text(o: Option<String>) -> (s: String)
    ensures
        s@ == text_or_empty(o),
{
    match o {
        Some(s) => s,
        None => String::new(),
    }
}

/// The number in `o`, or 0.
pub fn unwrap_count(o: Option<i64>) -> (n: i64)
    ensures
        n == count_or_zero(o),
{
    match o {
        Some(n) => n,
        None => 0,
    }
}

// ---------------------------------------------------------------------------
// Tool directory
// ---------------------------------------------------------------------------

pub struct ToolDirectoryRow {
    pub name: Option<String>,
    pub category: Option<String>,
    pub stack_count: Option<i64>,
    pub verdicts: Option<String>,
}

pub struct ToolDirectoryEntry {
    pub name: String,
    pub category: String,
    pub stack_count: i64,
    pub avg_verdict: String,
}

impl ToolDirectoryEntry {
    /// The directory entry of a tool, with its average verdict.
    pub fn from_row(row: ToolDirectoryRow) -> (e: ToolDirectoryEntry)
        ensures
            e.name@ == text_or_empty(row.name),
            e.category@ == text_or_empty(row.category),
            e.stack_count == count_or_zero(row.stack_count),
            e.avg_verdict@ == tools::average_verdict(text_or_empty(row.verdicts)),
    {
        let verdicts = unwrap_text(row.verdicts);
        ToolDirectoryEntry {
            name: unwrap_text(row.name),
            category: unwrap_text(row.category),
            stack_count: unwrap_count(row.stack_count),
            avg_verdict: compute_avg_verdict(verdicts.as_str()),
        }
    }
}

// ---------------------------------------------------------------------------
// Statistics
// ---------------------------------------------------------------------------

pub struct StatsRow {
    pub total_stacks: Option<i64>,
    pub total_tools: Option<i64>,
    pub total_users: Option<i64>,
}

pub struct StatsResponse {
    pub total_stacks: i64,
    pub total_tools: i64,
    pub total_users: i64,
}

impl StatsResponse {
    pub fn from_row(row: StatsRow) -> (r: StatsResponse)
        ensures
            r.total_stacks == count_or_zero(row.total_stacks),
            r.total_tools == count_or_zero(row.total_tools),
            r.total_users == count_or_zero(row.total_users),
    {
        StatsResponse {
            total_stacks: unwrap_count(row.total_stacks),
            total_tools: unwrap_count(row.total_tools),
            total_users: unwrap_count(row.total_users),
        }
    }
}

// ---------------------------------------------------------------------------
// Pairings and alternatives
// ---------------------------------------------------------------------------

pub struct ToolPairingRow {
    pub name: Option<String>,
    pub category: Option<String>,
    pub pair_count: Option<i64>,
}

pub struct ToolPairingEntry {
    pub name: String,
    pub category: String,
    pub pair_count: i64,
}

impl ToolPairingEntry {
    pub fn from_row(row: ToolPairingRow) -> (e: ToolPairingEntry)
        ensures
            e.name@ == text_or_empty(row.name),
            e.category@ == text_or_empty(row.category),
            e.pair_count == count_or_zero(row.pair_count),
    {
        ToolPairingEntry {
            name: unwrap_text(row.name),
            category: unwrap_text(row.category),
            pair_count: unwrap_count(row.pair_count),
        }
    }
}

pub struct ToolAlternativeRow {
    pub name: Option<String>,
    pub category: Option<String>,
    pub times_chosen: Option<i64>,
    pub avg_verdict: Option<String>,
}

pub struct ToolAlternative {
    pub name: String,
    pub category: String,
    pub times_chosen: i64,
    pub avg_verdict: String,
}

impl ToolAlternative {
    pub fn from_row(row: ToolAlternativeRow) -> (e: ToolAlternative)
        ensures
            e.name@ == text_or_empty(row.name),
            e.category@ == text_or_empty(row.category),
            e.times_chosen == count_or_zero(row.times_chosen),
            e.avg_verdict@ == text_or_empty(row.avg_verdict),
    {
        ToolAlternative {
            name: unwrap_text(row.name),
            category: unwrap_text(row.category),
            times_chosen: unwrap_count(row.times_chosen),
            avg_verdict: unwrap_text(row.avg_verdict),
        }
    }
}

// ---------------------------------------------------------------------------
// Comparison
// ---------------------------------------------------------------------------

pub struct ToolComparisonRow {
    pub stack_count: Option<i64>,
    pub love: Option<i64>,
    pub good: Option<i64>,
    pub meh: Option<i64>,
    pub regret: Option<i64>,
    pub category: Option<String>,
}

pub struct VerdictDistribution {
    pub love: i64,
    pub good: i64,
    pub meh: i64,
    pub regret: i64,
}

pub struct ToolComparisonEntry {
    pub name: String,
    pub category: String,
    pub stack_count: i64,
    pub verdict_distribution: VerdictDistribution,
    pub sample_whys: Vec<String>,
    pub common_costs: Vec<String>,
}

pub struct CompareResponse {
    pub tools: Vec<ToolComparisonEntry>,
    pub shared_stacks: i64,
}

pub struct SharedStacksRow {
    pub count: Option<i64>,
}

pub struct WhyRow {
    pub why: String,
}

pub struct CostRow {
    pub cost: Option<String>,
}

impl ToolComparisonEntry {
    /// The comparison entry of tool `name`.
    pub fn from_row(
        name: String,
        row: ToolComparisonRow,
        sample_whys: Vec<String>,
        common_costs: Vec<String>,
    ) -> (e: ToolComparisonEntry)
        ensures
            e.name@ == name@,
            e.category@ == text_or_empty(row.category),
            e.stack_count == count_or_zero(row.stack_count),
            e.verdict_distribution.love == count_or_zero(row.love),
            e.verdict_distribution.good == count_or_zero(row.good),
            e.verdict_distribution.meh == count_or_zero(row.meh),
            e.verdict_distribution.regret == count_or_zero(row.regret),
            e.sample_whys == sample_whys,
            e.common_costs == common_costs,
    {
        ToolComparisonEntry {
            name,
            category: unwrap_text(row.category),
            stack_count: unwrap_count(row.stack_count),
            verdict_distribution: VerdictDistribution {
                love: unwrap_count(row.love),
                good: unwrap_count(row.good),
                meh: unwrap_count(row.meh),
                regret: unwrap_count(row.regret),
            },
            sample_whys,
            common_costs,
        }
    }
}

/// The number of shared stacks, 0 when the count is missing.
pub fn shared_count(row: SharedStacksRow) -> (n: i64)
    ensures
        n == count_or_zero(row.count),
{
    unwrap_count(row.count)
}

/// The reasons, in order.
pub fn sample_whys(rows: Vec<WhyRow>) -> (r: Vec<String>)
    ensures
        r@.len() == rows@.len(),
        forall|i: int| 0 <= i < rows@.len() ==> #[trigger] r@[i]@ == rows@[i].why@,
{
    let mut r: Vec<String> = Vec::new();
    let mut i: usize = 0;
    while i < rows.len()
        invariant
            i <= rows.len(),
            r@.len() == i,
            forall|j: int| 0 <= j < i ==> #[trigger] r@[j]@ == rows@[j].why@,
        decreases rows.len() - i,
    {
        r.push(rows[i].why.clone());
        i += 1;
    }
    r
}

/// The costs that are present, in order.
pub open spec fn present_costs(rows: Seq<CostRow>) -> Seq<Seq<char>>
    decreases rows.len(),
{
    if rows.len() == 0 {
        Seq::<Seq<char>>::empty()
    } else {
        let prev = present_costs(rows.drop_last());
        match rows.last().cost {
            Some(c) => prev.push(c@),
            None => prev,
        }
    }
}

/// The costs that are present, in order.
pub fn common_costs(rows: Vec<CostRow>) -> (r: Vec<String>)
    ensures
        r@.len() == present_costs(rows@).len(),
        forall|i: int| 0 <= i < r@.len() ==> #[trigger] r@[i]@ == present_costs(rows@)[i],
{
    let mut r: Vec<String> = Vec::new();
    let mut i: usize = 0;
    while i < rows.len()
        invariant
            i <= rows.len(),
            r@.len() == present_costs(rows@.take(i as int)).len(),
            forall|j: int|
                0 <= j < r@.len() ==> #[trigger] r@[j]@ == present_costs(rows@.take(i as int))[j],
        decreases rows.len() - i,
    {
        assert(rows@.take(i + 1).drop_last() =~= rows@.take(i as int));
        match &rows[i].cost {
            Some(c) => {
                r.push(c.clone());
            },
            None => {},
        }
        i += 1;
    }
    assert(rows@.take(rows@.len() as int) =~= rows@);
    r
}

// ---------------------------------------------------------------------------
// Trending and bookmarks
// ---------------------------------------------------------------------------

pub struct TrendingToolRow {
    pub name: Option<String>,
    pub category: Option<String>,
    pub count: Option<i64>,
}

pub struct TrendingTool {
    pub name: String,
    pub category: String,
    pub count: i64,
}

impl TrendingTool {
    pub fn from_row(row: TrendingToolRow) -> (t: TrendingTool)
        ensures
            t.name@ == text_or_empty(row.name),
            t.category@ == text_or_empty(row.category),
            t.count == count_or_zero(row.count),
    {
        TrendingTool {
            name: unwrap_text(row.name),
            category: unwrap_text(row.category),
            count: unwrap_count(row.count),
        }
    }
}

pub struct BookmarkExistsRow {
    pub exists: Option<bool>,
}

pub struct BookmarkCheckResponse {
    pub bookmarked: bool,
}

impl BookmarkCheckResponse {
    /// Whether the bookmark exists; `false` when the answer is missing.
    pub fn from_row(row: BookmarkExistsRow) -> (r: BookmarkCheckResponse)
        ensures
            r.bookmarked == (row.exists == Some(true)),
    {
        BookmarkCheckResponse {
            bookmarked: match row.exists {
                Some(b) => b,
                None => false,
            },
        }
    }
}

} // verus!
