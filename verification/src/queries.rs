//! The stack listing query: paging, ordering and filters turned into SQL
//! text and the values bound to its parameters.
use vstd::prelude::*;
use crate::text;
use crate::text::{
    chars_of, join_strings, push_char, push_chars, push_decimal, split_chars, string_from,
    string_of, text_eq, trim_chars,
};
use crate::models::ListStacksQuery;

verus! {

broadcast use vstd::string::group_string_axioms;

// ---------------------------------------------------------------------------
// LIKE patterns
// ---------------------------------------------------------------------------

/// `s` with `\`, `%` and `_` escaped by a backslash, so that a `LIKE`
/// pattern matches them literally.
pub open spec fn like_escaped(s: Seq<char>) -> Seq<char>
    decreases s.len(),
{
    if s.len() == 0 {
        Seq::<char>::empty()
    } else {
        let prev = like_escaped(s.drop_last());
        let c = s.last();
        if c == '\\' || c == '%' || c == '_' {
            prev + seq!['\\', c]
        } else {
            prev.push(c)
        }
    }
}

/// Escapes `\`, `%` and `_` for a `LIKE` pattern.
pub fn escape_like(s: &str) -> (r: String)
    ensures
        r@ == like_escaped(s@),
{
    let v = chars_of(s);
    let mut r = String::new();
    let mut i: usize = 0;
    assert(v@.take(0) =~= Seq::<char>::empty());
    while i < v.len()
        invariant
            i <= v.len(),
            v@ == s@,
            r@ == like_escaped(v@.take(i as int)),
        decreases v.len() - i,
    {
        let c = v[i];
        assert(v@.take(i + 1).drop_last() =~= v@.take(i as int));
        assert(v@.take(i + 1).last() == c);
        if c == '\\' || c == '%' || c == '_' {
            push_char(&mut r, '\\');
        }
        push_char(&mut r, c);
        assert(r@ =~= like_escaped(v@.take(i + 1)));
        i += 1;
    }
    assert(v@.take(v.len() as int) =~= v@);
    r
}

/// The pattern a search matches anywhere in a text.
pub open spec fn search_pattern(s: Seq<char>) -> Seq<char> {
    seq!['%'] + like_escaped(s) + seq!['%']
}

fn search_pattern_text(s: &str) -> (r: String)
    ensures
        r@ == search_pattern(s@),
{
    let mut r = String::new();
    push_char(&mut r, '%');
    push_chars(&mut r, &chars_of(escape_like(s).as_str()));
    push_char(&mut r, '%');
    assert(r@ =~= search_pattern(s@));
    r
}

// ---------------------------------------------------------------------------
// Paging and ordering
// ---------------------------------------------------------------------------

/// The page asked for, counting from 1; pages below 1 are page 1.
pub open spec fn page_number(q: ListStacksQuery) -> int {
    let p = match q.page {
        Some(p) => p as int,
        None => 1,
    };
    if p < 1 {
        1
    } else {
        p
    }
}

/// Stacks per page: 20 unless asked, and from 1 to 100.
pub open spec fn page_size(q: ListStacksQuery) -> int {
    let l = match q.limit {
        Some(l) => l as int,
        None => 20,
    };
    if l < 1 {
        1
    } else if l > 100 {
        100
    } else {
        l
    }
}

/// The number of stacks before the page.
pub open spec fn page_offset(q: ListStacksQuery) -> int {
    (page_number(q) - 1) * page_size(q)
}

pub const SORT_TOP: &'static str = "s.upvotes DESC";

pub const SORT_DISCUSSED: &'static str = "comment_count DESC";

pub const SORT_NEWEST: &'static str = "s.created_at DESC";

/// The ordering: `top` by votes, `discussed` by comments, else newest first.
pub open spec fn sort_clause(q: ListStacksQuery) -> Seq<char> {
    match q.sort {
        Some(s) => if s@ == "top"@ {
            SORT_TOP@
        } else if s@ == "discussed"@ {
            SORT_DISCUSSED@
        } else {
            SORT_NEWEST@
        },
        None => SORT_NEWEST@,
    }
}

fn sort_clause_text(q: &ListStacksQuery) -> (r: String)
    ensures
        r@ == sort_clause(*q),
{
    match &q.sort {
        Some(s) => if text_eq(s.as_str(), "top") {
            string_of(SORT_TOP)
        } else if text_eq(s.as_str(), "discussed") {
            string_of(SORT_DISCUSSED)
        } else {
            string_of(SORT_NEWEST)
        },
        None => string_of(SORT_NEWEST),
    }
}

// ---------------------------------------------------------------------------
// Filters
// ---------------------------------------------------------------------------

/// The non-empty trimmed pieces, in order.
pub open spec fn nonempty_trimmed(pieces: Seq<Seq<char>>) -> Seq<Seq<char>>
    decreases pieces.len(),
{
    if pieces.len() == 0 {
        Seq::<Seq<char>>::empty()
    } else {
        let prev = nonempty_trimmed(pieces.drop_last());
        let t = text::trim(pieces.last());
        if t.len() > 0 {
            prev.push(t)
        } else {
            prev
        }
    }
}

/// The tool names a listing filters by: the comma-separated names, trimmed,
/// empty ones left out.
pub open spec fn tool_filter(q: ListStacksQuery) -> Seq<Seq<char>> {
    match q.tool {
        Some(t) => nonempty_trimmed(text::split(t@, ',')),
        None => Seq::<Seq<char>>::empty(),
    }
}

fn tool_names(tool: &Option<String>) -> (r: Vec<String>)
    ensures
        text::strings_view(r@) == match tool {
            Some(t) => nonempty_trimmed(text::split(t@, ',')),
            None => Seq::<Seq<char>>::empty(),
        },
{
    let mut r: Vec<String> = Vec::new();
    match tool {
        Some(t) => {
            let pieces = split_chars(&chars_of(t.as_str()), ',');
            let ghost all = text::split(t@, ',');
            let mut i: usize = 0;
            assert(all.take(0) =~= Seq::<Seq<char>>::empty());
            assert(text::strings_view(r@) =~= Seq::<Seq<char>>::empty());
            while i < pieces.len()
                invariant
                    i <= pieces.len(),
                    text::pieces_view(pieces@) == all,
                    all.len() == pieces@.len(),
                    text::strings_view(r@) == nonempty_trimmed(all.take(i as int)),
                decreases pieces.len() - i,
            {
                assert(all.take(i + 1).drop_last() =~= all.take(i as int));
                assert(all.take(i + 1).last() == pieces@[i as int]@);
                let p = trim_chars(&pieces[i]);
                if p.len() > 0 {
                    let ghost before = r@;
                    r.push(string_from(&p));
                    assert(text::strings_view(r@) =~= text::strings_view(before).push(p@));
                }
                i += 1;
            }
            assert(all.take(pieces.len() as int) =~= all);
        },
        None => {
            assert(text::strings_view(r@) =~= Seq::<Seq<char>>::empty());
        },
    }
    r
}

pub const CATEGORY_CONDITION: &'static str = "s.category = $";

pub const SCALE_CONDITION: &'static str = "s.scale = $";

pub const TOOL_CONDITION: &'static str = "EXISTS (SELECT 1 FROM stack_tools st_f WHERE st_f.stack_id = s.id AND LOWER(st_f.name) = LOWER($";

pub const SEARCH_CONDITION: &'static str = "(s.project_name ILIKE $";

pub const SEARCH_CONDITION_OR: &'static str = " OR s.description ILIKE $";

/// A condition that ends with parameter number `n`.
pub open spec fn numbered(prefix: Seq<char>, n: int) -> Seq<char> {
    prefix + text::decimal(n as nat)
}

/// The condition that a stack uses the tool bound to parameter `n`.
pub open spec fn tool_condition(n: int) -> Seq<char> {
    numbered(TOOL_CONDITION@, n) + seq![')', ')']
}

/// The condition that a stack's name or description matches parameter `n`.
pub open spec fn search_condition(n: int) -> Seq<char> {
    numbered(SEARCH_CONDITION@, n) + numbered(SEARCH_CONDITION_OR@, n) + seq![')']
}

/// The category condition, when the listing filters by category.
pub open spec fn category_conditions(q: ListStacksQuery) -> Seq<Seq<char>> {
    if q.category is Some {
        seq![numbered(CATEGORY_CONDITION@, 1)]
    } else {
        Seq::<Seq<char>>::empty()
    }
}

/// The category and scale conditions.
pub open spec fn scale_conditions(q: ListStacksQuery) -> Seq<Seq<char>> {
    let a = category_conditions(q);
    if q.scale is Some {
        a.push(numbered(SCALE_CONDITION@, a.len() as int + 1))
    } else {
        a
    }
}

/// The category, scale and tool conditions.
pub open spec fn tool_conditions(q: ListStacksQuery) -> Seq<Seq<char>> {
    let b = scale_conditions(q);
    b + Seq::new(tool_filter(q).len(), |k: int| tool_condition(b.len() + 1 + k))
}

/// The conditions of a listing, numbering parameters from 1 in the order
/// category, scale, tools, search.
pub open spec fn list_conditions(q: ListStacksQuery) -> Seq<Seq<char>> {
    let c = tool_conditions(q);
    if q.search is Some {
        c.push(search_condition(c.len() as int + 1))
    } else {
        c
    }
}

/// The category value, when the listing filters by category.
pub open spec fn category_binds(q: ListStacksQuery) -> Seq<Seq<char>> {
    match q.category {
        Some(c) => seq![c@],
        None => Seq::<Seq<char>>::empty(),
    }
}

/// The category and scale values.
pub open spec fn scale_binds(q: ListStacksQuery) -> Seq<Seq<char>> {
    match q.scale {
        Some(s) => category_binds(q).push(s@),
        None => category_binds(q),
    }
}

/// The values bound to the listing's parameters, in order: category, scale,
/// each tool name, the search pattern.
pub open spec fn list_binds(q: ListStacksQuery) -> Seq<Seq<char>> {
    let c = scale_binds(q) + tool_filter(q);
    match q.search {
        Some(s) => c.push(search_pattern(s@)),
        None => c,
    }
}

/// `WHERE` and the conditions joined by `AND`, or nothing without conditions.
pub open spec fn where_clause(q: ListStacksQuery) -> Seq<char> {
    let cs = list_conditions(q);
    if cs.len() == 0 {
        Seq::<char>::empty()
    } else {
        "WHERE "@ + text::join_with(cs, " AND "@)
    }
}

pub const LIST_SQL_HEAD: &'static str = "SELECT s.id, s.project_name, s.description, s.category, s.url, s.scale, s.upvotes,\n                  (SELECT COUNT(*) FROM stack_tools st WHERE st.stack_id = s.id) AS tool_count,\n                  (SELECT COUNT(*) FROM comments c WHERE c.stack_id = s.id) AS comment_count,\n                  u.nickname AS creator_nickname,\n                  s.created_at,\n                  s.updated_at\n           FROM stacks s\n           JOIN users u ON u.id = s.creator_id\n           ";

pub const LIST_SQL_ORDER: &'static str = "\n           ORDER BY ";

pub const LIST_SQL_LIMIT: &'static str = "\n           LIMIT $";

pub const LIST_SQL_OFFSET: &'static str = " OFFSET $";

/// The SQL text of a listing; its last two parameters are the page size and
/// the offset.
pub open spec fn list_sql(q: ListStacksQuery) -> Seq<char> {
    let n = list_conditions(q).len() as int + 1;
    LIST_SQL_HEAD@ + where_clause(q) + LIST_SQL_ORDER@ + sort_clause(q) + numbered(
        LIST_SQL_LIMIT@,
        n,
    ) + numbered(LIST_SQL_OFFSET@, n + 1)
}

/// A listing query ready to run: SQL text, the text values bound to its
/// parameters in order, then the page size and the offset.
pub struct ListPlan {
    pub sql: String,
    pub binds: Vec<String>,
    pub limit: i64,
    pub offset: i64,
}

fn numbered_text(prefix: &str, n: u128) -> (r: String)
    ensures
        r@ == numbered(prefix@, n as int),
{
    let mut r = string_of(prefix);
    push_decimal(&mut r, n);
    r
}

fn copy_text(s: &String) -> (r: String)
    ensures
        r@ == s@,
{
    s.clone()
}

/// The conditions of a listing and the values bound to them.
fn list_filters(q: &ListStacksQuery) -> (r: (Vec<String>, Vec<String>))
    ensures
        text::strings_view(r.0@) == list_conditions(*q),
        text::strings_view(r.1@) == list_binds(*q),
{
    let ghost spec_conds = list_conditions(*q);
    let ghost spec_binds = list_binds(*q);
    let mut conds: Vec<String> = Vec::new();
    let mut binds: Vec<String> = Vec::new();
    // category
    if let Some(c) = &q.category {
        conds.push(numbered_text(CATEGORY_CONDITION, 1));
        binds.push(copy_text(c));
    }
    let ghost a = category_conditions(*q);
    let ghost ba = category_binds(*q);
    assert(text::strings_view(conds@) =~= a);
    assert(text::strings_view(binds@) =~= ba);
    // scale
    if let Some(s) = &q.scale {
        let ghost before_c = conds@;
        let ghost before_b = binds@;
        let n = conds.len() as u128 + 1;
        conds.push(numbered_text(SCALE_CONDITION, n));
        binds.push(copy_text(s));
        assert(text::strings_view(conds@) =~= text::strings_view(before_c).push(
            numbered(SCALE_CONDITION@, a.len() as int + 1),
        ));
        assert(text::strings_view(binds@) =~= text::strings_view(before_b).push(s@));
    }
    let ghost b = scale_conditions(*q);
    let ghost bb = scale_binds(*q);
    assert(text::strings_view(conds@) =~= b);
    assert(text::strings_view(binds@) =~= bb);
    // tools
    let names = tool_names(&q.tool);
    let ghost ns = tool_filter(*q);
    assert(text::strings_view(names@) == ns);
    let base = conds.len();
    let mut k: usize = 0;
    assert(b + Seq::new(0, |j: int| tool_condition(b.len() + 1 + j)) =~= b);
    assert(bb + ns.take(0) =~= bb);
    while k < names.len()
        invariant
            k <= names.len(),
            base == b.len(),
            text::strings_view(names@) == ns,
            ns.len() == names@.len(),
            text::strings_view(conds@) == b + Seq::new(
                k as nat,
                |j: int| tool_condition(b.len() + 1 + j),
            ),
            text::strings_view(binds@) == bb + ns.take(k as int),
        decreases names.len() - k,
    {
        let ghost before_c = conds@;
        let ghost before_b = binds@;
        let n = base as u128 + 1 + k as u128;
        let mut cond = numbered_text(TOOL_CONDITION, n);
        push_char(&mut cond, ')');
        push_char(&mut cond, ')');
        assert(cond@ =~= tool_condition(b.len() + 1 + k));
        let ghost cv = cond@;
        conds.push(cond);
        let name = copy_text(&names[k]);
        let ghost nv = name@;
        binds.push(name);
        assert(ns[k as int] == names@[k as int]@);
        assert(text::strings_view(conds@) =~= text::strings_view(before_c).push(cv));
        assert(text::strings_view(binds@) =~= text::strings_view(before_b).push(nv));
        assert(ns.take(k + 1) =~= ns.take(k as int).push(nv));
        assert(text::strings_view(conds@) =~= b + Seq::new(
            (k + 1) as nat,
            |j: int| tool_condition(b.len() + 1 + j),
        ));
        assert(text::strings_view(binds@) =~= bb + ns.take(k + 1));
        k += 1;
    }
    assert(ns.take(ns.len() as int) =~= ns);
    let ghost c = b + Seq::new(ns.len(), |j: int| tool_condition(b.len() + 1 + j));
    assert(text::strings_view(conds@) == c);
    assert(text::strings_view(binds@) == bb + ns);
    // search
    if let Some(s) = &q.search {
        let ghost before_c = conds@;
        let ghost before_b = binds@;
        let n = conds.len() as u128 + 1;
        let mut cond = numbered_text(SEARCH_CONDITION, n);
        push_chars(&mut cond, &chars_of(numbered_text(SEARCH_CONDITION_OR, n).as_str()));
        push_char(&mut cond, ')');
        assert(cond@ =~= search_condition(c.len() as int + 1));
        conds.push(cond);
        binds.push(search_pattern_text(s.as_str()));
        assert(text::strings_view(conds@) =~= text::strings_view(before_c).push(
            search_condition(c.len() as int + 1),
        ));
        assert(text::strings_view(binds@) =~= text::strings_view(before_b).push(
            search_pattern(s@),
        ));
    }
    assert(text::strings_view(conds@) == spec_conds);
    assert(text::strings_view(binds@) == spec_binds);
    (conds, binds)
}

/// How many parameters come before the tool names: one for the category and
/// one for the scale, where the listing filters by them.
pub open spec fn tool_params_start(q: ListStacksQuery) -> int {
    (if q.category is Some {
        1int
    } else {
        0int
    }) + (if q.scale is Some {
        1int
    } else {
        0int
    })
}

/// Each condition of a listing refers to the value bound at its own
/// position: the parameters are numbered from 1 in the order of the binds,
/// the condition at position `i` uses `$(i + 1)` and is the one for the
/// value bound there, there are as many conditions as text binds, and the
/// page size and offset take the two numbers after them.
pub proof fn lemma_listing_parameters(q: ListStacksQuery)
    ensures
        list_conditions(q).len() == list_binds(q).len(),
        q.category matches Some(c) ==> list_binds(q)[0] == c@ && list_conditions(q)[0]
            == numbered(CATEGORY_CONDITION@, 1),
        q.scale matches Some(s) ==> {
            let k = if q.category is Some {
                1int
            } else {
                0int
            };
            list_binds(q)[k] == s@ && list_conditions(q)[k] == numbered(SCALE_CONDITION@, k + 1)
        },
        forall|i: int|
            0 <= i < tool_filter(q).len() ==> list_binds(q)[tool_params_start(q) + i]
                == #[trigger] tool_filter(q)[i] && list_conditions(q)[tool_params_start(q) + i]
                == tool_condition(tool_params_start(q) + i + 1),
        q.search matches Some(t) ==> {
            let k = list_binds(q).len() - 1;
            list_binds(q)[k] == search_pattern(t@) && list_conditions(q)[k] == search_condition(
                k + 1,
            )
        },
        list_sql(q) == LIST_SQL_HEAD@ + where_clause(q) + LIST_SQL_ORDER@ + sort_clause(q)
            + numbered(LIST_SQL_LIMIT@, list_binds(q).len() as int + 1) + numbered(
            LIST_SQL_OFFSET@,
            list_binds(q).len() as int + 2,
        ),
{
    let a = category_conditions(q);
    let b = scale_conditions(q);
    let c = tool_conditions(q);
    assert(a.len() == category_binds(q).len());
    assert(b.len() == scale_binds(q).len());
    assert(b.len() == tool_params_start(q));
    assert(c.len() == b.len() + tool_filter(q).len());
    assert forall|i: int| 0 <= i < tool_filter(q).len() implies list_binds(q)[tool_params_start(q)
        + i] == #[trigger] tool_filter(q)[i] && list_conditions(q)[tool_params_start(q) + i]
        == tool_condition(tool_params_start(q) + i + 1) by {
        let k = tool_params_start(q) + i;
        assert(c[k] == tool_condition(k + 1));
        assert((scale_binds(q) + tool_filter(q))[k] == tool_filter(q)[i]);
    }
}

/// The query for a listing, or `None` when its offset does not fit in an
/// `i64`.
pub fn plan_list_stacks(q: &ListStacksQuery) -> (r: Option<ListPlan>)
    ensures
        match r {
            Some(p) => {
                &&& page_offset(*q) <= i64::MAX
                &&& p.sql@ == list_sql(*q)
                &&& text::strings_view(p.binds@) == list_binds(*q)
                &&& p.limit == page_size(*q)
                &&& p.offset == page_offset(*q)
            },
            None => page_offset(*q) > i64::MAX,
        },
{
    let page: i64 = match q.page {
        Some(p) => if p < 1 {
            1
        } else {
            p
        },
        None => 1,
    };
    let limit: i64 = match q.limit {
        Some(l) => if l < 1 {
            1
        } else if l > 100 {
            100
        } else {
            l
        },
        None => 20,
    };
    let offset: i64 = match (page - 1).checked_mul(limit) {
        Some(o) => o,
        None => return None,
    };
    let (conds, binds) = list_filters(q);
    // the text
    let mut sql = string_of(LIST_SQL_HEAD);
    if conds.len() > 0 {
        push_chars(&mut sql, &chars_of("WHERE "));
        push_chars(&mut sql, &chars_of(join_strings(&conds, " AND ").as_str()));
    }
    assert(sql@ =~= LIST_SQL_HEAD@ + where_clause(*q));
    push_chars(&mut sql, &chars_of(LIST_SQL_ORDER));
    push_chars(&mut sql, &chars_of(sort_clause_text(q).as_str()));
    let n = conds.len() as u128 + 1;
    push_chars(&mut sql, &chars_of(numbered_text(LIST_SQL_LIMIT, n).as_str()));
    push_chars(&mut sql, &chars_of(numbered_text(LIST_SQL_OFFSET, n + 1).as_str()));
    assert(sql@ =~= list_sql(*q));
    Some(ListPlan { sql, binds, limit, offset })
}

} // verus!
