use stackpedia::tools::compute_avg_verdict;
use stackpedia::responses::{
    common_costs, sample_whys, shared_count, unwrap_count, unwrap_text, BookmarkCheckResponse,
    BookmarkExistsRow, CostRow, SharedStacksRow, StatsResponse, StatsRow, ToolAlternative,
    ToolAlternativeRow, ToolComparisonEntry, ToolComparisonRow, ToolDirectoryEntry,
    ToolDirectoryRow, ToolPairingEntry, ToolPairingRow, TrendingTool, TrendingToolRow, WhyRow,
};

#[test]
fn average_verdicts() {
    assert_eq!(compute_avg_verdict(""), "unknown");
    assert_eq!(compute_avg_verdict("love"), "love");
    assert_eq!(compute_avg_verdict("love,good"), "love"); // 3.5
    assert_eq!(compute_avg_verdict("good,good,love"), "good"); // 3.33
    assert_eq!(compute_avg_verdict("meh,good"), "good"); // 2.5
    assert_eq!(compute_avg_verdict("meh,regret"), "meh"); // 1.5
    assert_eq!(compute_avg_verdict("regret,regret,meh"), "regret"); // 1.33
    assert_eq!(compute_avg_verdict(" love , regret "), "good"); // 2.5
}

#[test]
fn average_verdict_ignores_unknown_words() {
    assert_eq!(compute_avg_verdict("hate,,LOVE"), "unknown");
    assert_eq!(compute_avg_verdict("hate,regret, ,x"), "regret");
}

#[test]
fn directory_entry_from_row() {
    let e = ToolDirectoryEntry::from_row(ToolDirectoryRow {
        name: Some("postgresql".to_string()),
        category: None,
        stack_count: Some(3),
        verdicts: Some("love,love,good".to_string()),
    });
    assert_eq!(e.name, "postgresql");
    assert_eq!(e.category, "");
    assert_eq!(e.stack_count, 3);
    assert_eq!(e.avg_verdict, "love");
    let e = ToolDirectoryEntry::from_row(ToolDirectoryRow {
        name: None,
        category: Some("cdn".to_string()),
        stack_count: None,
        verdicts: None,
    });
    assert_eq!(e.name, "");
    assert_eq!(e.stack_count, 0);
    assert_eq!(e.avg_verdict, "unknown");
}

#[test]
fn rows_with_missing_columns_use_defaults() {
    assert_eq!(unwrap_text(None), "");
    assert_eq!(unwrap_count(None), 0);
    let s = StatsResponse::from_row(StatsRow { total_stacks: Some(55), total_tools: None, total_users: Some(40) });
    assert_eq!((s.total_stacks, s.total_tools, s.total_users), (55, 0, 40));
    let p = ToolPairingEntry::from_row(ToolPairingRow { name: Some("redis".to_string()), category: None, pair_count: Some(2) });
    assert_eq!((p.name.as_str(), p.category.as_str(), p.pair_count), ("redis", "", 2));
    let a = ToolAlternative::from_row(ToolAlternativeRow {
        name: Some("neon".to_string()),
        category: Some("database".to_string()),
        times_chosen: None,
        avg_verdict: Some("good".to_string()),
    });
    assert_eq!((a.name.as_str(), a.times_chosen, a.avg_verdict.as_str()), ("neon", 0, "good"));
    let t = TrendingTool::from_row(TrendingToolRow { name: None, category: None, count: Some(9) });
    assert_eq!((t.name.as_str(), t.count), ("", 9));
    assert!(BookmarkCheckResponse::from_row(BookmarkExistsRow { exists: Some(true) }).bookmarked);
    assert!(!BookmarkCheckResponse::from_row(BookmarkExistsRow { exists: Some(false) }).bookmarked);
    assert!(!BookmarkCheckResponse::from_row(BookmarkExistsRow { exists: None }).bookmarked);
    assert_eq!(shared_count(SharedStacksRow { count: None }), 0);
    assert_eq!(shared_count(SharedStacksRow { count: Some(4) }), 4);
}

#[test]
fn comparison_entry_and_samples() {
    let whys = sample_whys(vec![WhyRow { why: "fast".to_string() }, WhyRow { why: "cheap".to_string() }]);
    assert_eq!(whys, vec!["fast".to_string(), "cheap".to_string()]);
    let costs = common_costs(vec![
        CostRow { cost: Some("$0".to_string()) },
        CostRow { cost: None },
        CostRow { cost: Some("$20/mo".to_string()) },
    ]);
    assert_eq!(costs, vec!["$0".to_string(), "$20/mo".to_string()]);
    let e = ToolComparisonEntry::from_row(
        "vercel".to_string(),
        ToolComparisonRow { stack_count: Some(5), love: Some(2), good: None, meh: Some(1), regret: None, category: Some("hosting".to_string()) },
        whys,
        costs,
    );
    assert_eq!(e.name, "vercel");
    assert_eq!(e.category, "hosting");
    assert_eq!(e.stack_count, 5);
    assert_eq!(
        (e.verdict_distribution.love, e.verdict_distribution.good, e.verdict_distribution.meh, e.verdict_distribution.regret),
        (2, 0, 1, 0)
    );
    assert_eq!(e.sample_whys.len(), 2);
    assert_eq!(e.common_costs.len(), 2);
}

#[test]
fn average_ignores_order_and_unknown_words() {
    let base = compute_avg_verdict("love,good,meh");
    assert_eq!(base, "good");
    assert_eq!(compute_avg_verdict("meh, love ,good"), base);
    assert_eq!(compute_avg_verdict("meh,,bogus,love,  ,good,LOVE"), base);
    for csv in ["", "x", "love", "regret,regret", "good,meh", "bad,worse"] {
        let v = compute_avg_verdict(csv);
        assert!(["love", "good", "meh", "regret", "unknown"].contains(&v.as_str()));
    }
}
