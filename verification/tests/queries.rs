use stackpedia::models::ListStacksQuery;
use stackpedia::queries::{escape_like, plan_list_stacks};

const HEAD: &str = "SELECT s.id, s.project_name, s.description, s.category, s.url, s.scale, s.upvotes,\n                  (SELECT COUNT(*) FROM stack_tools st WHERE st.stack_id = s.id) AS tool_count,\n                  (SELECT COUNT(*) FROM comments c WHERE c.stack_id = s.id) AS comment_count,\n                  u.nickname AS creator_nickname,\n                  s.created_at,\n                  s.updated_at\n           FROM stacks s\n           JOIN users u ON u.id = s.creator_id\n           ";

fn query() -> ListStacksQuery {
    ListStacksQuery {
        page: None,
        limit: None,
        sort: None,
        category: None,
        tool: None,
        scale: None,
        search: None,
    }
}

#[test]
fn like_escaping() {
    assert_eq!(escape_like("plain"), "plain");
    assert_eq!(escape_like("100%_off\\"), "100\\%\\_off\\\\");
    assert_eq!(escape_like(""), "");
}

#[test]
fn default_listing() {
    let p = plan_list_stacks(&query()).unwrap();
    assert_eq!(p.limit, 20);
    assert_eq!(p.offset, 0);
    assert!(p.binds.is_empty());
    assert_eq!(
        p.sql,
        format!("{}\n           ORDER BY s.created_at DESC\n           LIMIT $1 OFFSET $2", HEAD)
    );
}

#[test]
fn paging_is_clamped() {
    let mut q = query();
    q.page = Some(3);
    q.limit = Some(10);
    let p = plan_list_stacks(&q).unwrap();
    assert_eq!((p.limit, p.offset), (10, 20));
    q.page = Some(-4);
    q.limit = Some(1000);
    let p = plan_list_stacks(&q).unwrap();
    assert_eq!((p.limit, p.offset), (100, 0));
    q.page = Some(2);
    q.limit = Some(0);
    let p = plan_list_stacks(&q).unwrap();
    assert_eq!((p.limit, p.offset), (1, 1));
}

#[test]
fn offset_overflow_is_refused() {
    let mut q = query();
    q.page = Some(i64::MAX);
    q.limit = Some(100);
    assert!(plan_list_stacks(&q).is_none());
    q.limit = Some(1);
    let p = plan_list_stacks(&q).unwrap();
    assert_eq!(p.offset, i64::MAX - 1);
}

#[test]
fn sorting() {
    let mut q = query();
    q.sort = Some("top".to_string());
    assert!(plan_list_stacks(&q).unwrap().sql.contains("ORDER BY s.upvotes DESC"));
    q.sort = Some("discussed".to_string());
    assert!(plan_list_stacks(&q).unwrap().sql.contains("ORDER BY comment_count DESC"));
    q.sort = Some("other".to_string());
    assert!(plan_list_stacks(&q).unwrap().sql.contains("ORDER BY s.created_at DESC"));
}

#[test]
fn all_filters_are_numbered_in_order() {
    let q = ListStacksQuery {
        page: Some(2),
        limit: Some(5),
        sort: Some("top".to_string()),
        category: Some("saas".to_string()),
        tool: Some(" Rust, ,go ,".to_string()),
        scale: Some("hobby".to_string()),
        search: Some("50%".to_string()),
    };
    let p = plan_list_stacks(&q).unwrap();
    let expected_where = "WHERE s.category = $1 AND s.scale = $2 AND EXISTS (SELECT 1 FROM stack_tools st_f WHERE st_f.stack_id = s.id AND LOWER(st_f.name) = LOWER($3)) AND EXISTS (SELECT 1 FROM stack_tools st_f WHERE st_f.stack_id = s.id AND LOWER(st_f.name) = LOWER($4)) AND (s.project_name ILIKE $5 OR s.description ILIKE $5)";
    assert_eq!(
        p.sql,
        format!(
            "{}{}\n           ORDER BY s.upvotes DESC\n           LIMIT $6 OFFSET $7",
            HEAD, expected_where
        )
    );
    assert_eq!(
        p.binds,
        vec![
            "saas".to_string(),
            "hobby".to_string(),
            "Rust".to_string(),
            "go".to_string(),
            "%50\\%%".to_string()
        ]
    );
    assert_eq!((p.limit, p.offset), (5, 5));
}

#[test]
fn search_only() {
    let mut q = query();
    q.search = Some("pos".to_string());
    let p = plan_list_stacks(&q).unwrap();
    assert!(p.sql.contains("WHERE (s.project_name ILIKE $1 OR s.description ILIKE $1)"));
    assert!(p.sql.ends_with("LIMIT $2 OFFSET $3"));
    assert_eq!(p.binds, vec!["%pos%".to_string()]);
}

#[test]
fn empty_tool_filter_adds_nothing() {
    let mut q = query();
    q.tool = Some(" , ".to_string());
    let p = plan_list_stacks(&q).unwrap();
    assert!(!p.sql.contains("EXISTS"));
    assert!(p.sql.ends_with("JOIN users u ON u.id = s.creator_id\n           \n           ORDER BY s.created_at DESC\n           LIMIT $1 OFFSET $2"));
    assert!(p.binds.is_empty());
}
