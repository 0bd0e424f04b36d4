use stackpedia::models::{CreateToolInput, UpdateStackRequest};
use stackpedia::stacks::{
    action_label, check_can_delete, check_can_edit, decide_vote, history_detail,
    normalize_tool_name, parse_direction, parse_stack_id, require_stack, stack_not_found,
    tools_for_storage, vote_direction_label, VoteAction,
};

fn update() -> UpdateStackRequest {
    UpdateStackRequest {
        project_name: None,
        description: None,
        category: None,
        url: None,
        scale: None,
        lessons: None,
        tools: None,
    }
}

#[test]
fn stack_ids_parse_or_are_not_found() {
    assert_eq!(
        parse_stack_id("550e8400-e29b-41d4-a716-446655440000").ok(),
        Some(0x550e8400_e29b_41d4_a716_446655440000u128)
    );
    assert_eq!(
        parse_stack_id("550E8400E29B41D4A716446655440000").ok(),
        Some(0x550e8400_e29b_41d4_a716_446655440000u128)
    );
    let e = parse_stack_id("nope").err().unwrap();
    assert_eq!(e.status, 404);
    assert_eq!(e.body.error, "stack not found");
    assert_eq!(stack_not_found().status, 404);
    assert!(require_stack::<u8>(None).is_err());
    assert_eq!(require_stack(Some(3)).ok(), Some(3));
}

#[test]
fn only_the_creator_edits_or_deletes() {
    assert!(check_can_edit(1, 1).is_ok());
    let e = check_can_edit(1, 2).err().unwrap();
    assert_eq!(e.status, 403);
    assert_eq!(e.body.error, "you can only edit your own stacks");
    assert!(check_can_delete(7, 7).is_ok());
    let e = check_can_delete(7, 8).err().unwrap();
    assert_eq!(e.status, 403);
    assert_eq!(e.body.error, "you can only delete your own stacks");
}

#[test]
fn vote_directions() {
    assert_eq!(parse_direction("up").ok(), Some(1));
    assert_eq!(parse_direction("down").ok(), Some(-1));
    let e = parse_direction("UP").err().unwrap();
    assert_eq!(e.status, 400);
    assert_eq!(e.body.error, "direction must be 'up' or 'down'");
}

#[test]
fn vote_actions() {
    assert_eq!(decide_vote(None, 1), VoteAction::Voted);
    assert_eq!(decide_vote(Some(1), 1), VoteAction::Removed);
    assert_eq!(decide_vote(Some(-1), 1), VoteAction::Changed);
    assert_eq!(action_label(VoteAction::Voted), "voted");
    assert_eq!(action_label(VoteAction::Removed), "removed");
    assert_eq!(action_label(VoteAction::Changed), "changed");
}

#[test]
fn voting_twice_the_same_way_withdraws_the_vote() {
    // From no vote: the first vote records it, the second withdraws it.
    assert_eq!(decide_vote(None, -1), VoteAction::Voted);
    assert_eq!(decide_vote(Some(-1), -1), VoteAction::Removed);
}

#[test]
fn standing_vote_labels() {
    assert_eq!(vote_direction_label(Some(1)), "up");
    assert_eq!(vote_direction_label(Some(-1)), "down");
    assert_eq!(vote_direction_label(Some(0)), "none");
    assert_eq!(vote_direction_label(None), "none");
}

#[test]
fn history_lists_changed_fields() {
    assert_eq!(history_detail(&update()), None);
    let mut u = update();
    u.url = Some("https://x".to_string());
    assert_eq!(history_detail(&u), None);
    let mut u = update();
    u.description = Some("d".to_string());
    assert_eq!(history_detail(&u), Some("updated: description".to_string()));
    let mut u = update();
    u.project_name = Some("p".to_string());
    u.scale = Some("hobby".to_string());
    u.tools = Some(vec![]);
    assert_eq!(history_detail(&u), Some("updated: project_name, scale, tools".to_string()));
    let u = UpdateStackRequest {
        project_name: Some("p".to_string()),
        description: Some("d".to_string()),
        category: Some("api".to_string()),
        url: Some("https://x".to_string()),
        scale: Some("hobby".to_string()),
        lessons: Some("l".to_string()),
        tools: Some(vec![]),
    };
    assert_eq!(
        history_detail(&u),
        Some("updated: project_name, description, category, scale, lessons, tools".to_string())
    );
}

#[test]
fn tool_names_are_stored_in_lower_case() {
    assert_eq!(normalize_tool_name("Next.JS"), "next.js");
    assert_eq!(normalize_tool_name("ÉCLAIR"), "éclair");
    let tools = vec![CreateToolInput {
        name: "PostgreSQL".to_string(),
        category: "database".to_string(),
        why: "Solid".to_string(),
        cost: None,
        verdict: "love".to_string(),
    }];
    let stored = tools_for_storage(&tools);
    assert_eq!(stored.len(), 1);
    assert_eq!(stored[0].name, "postgresql");
    assert_eq!(stored[0].category, "database");
    assert_eq!(stored[0].why, "Solid");
    assert_eq!(stored[0].cost, None);
    assert_eq!(stored[0].verdict, "love");
}

#[test]
fn voting_twice_the_same_way_restores_the_tally() {
    // A tally recounted as the database does: the sum of the standing votes.
    let others: i64 = 4;
    for start in [None, Some(1i16)] {
        let mut standing = start;
        for _ in 0..2 {
            standing = match decide_vote(standing, 1) {
                VoteAction::Removed => None,
                VoteAction::Changed | VoteAction::Voted => Some(1),
            };
        }
        assert_eq!(standing, start);
        assert_eq!(others + standing.unwrap_or(0) as i64, others + start.unwrap_or(0) as i64);
    }
}
