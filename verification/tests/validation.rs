use stackpedia::models::{
    validate_tools, validate_url, CreateStackRequest, CreateToolInput, UpdateStackRequest,
};

fn tool(name: &str, category: &str, why: &str, verdict: &str) -> CreateToolInput {
    CreateToolInput {
        name: name.to_string(),
        category: category.to_string(),
        why: why.to_string(),
        cost: Some("$0".to_string()),
        verdict: verdict.to_string(),
    }
}

fn good_tool() -> CreateToolInput {
    tool("postgresql", "database", "Rock solid", "love")
}

fn good_stack() -> CreateStackRequest {
    CreateStackRequest {
        project_name: "Orbita POS".to_string(),
        description: "Point-of-sale system".to_string(),
        category: "saas".to_string(),
        url: Some("https://orbita.example".to_string()),
        scale: "thousands".to_string(),
        tools: vec![good_tool()],
        lessons: Some("Monitor early".to_string()),
        forked_from: None,
    }
}

fn empty_update() -> UpdateStackRequest {
    UpdateStackRequest {
        project_name: None,
        description: None,
        category: None,
        url: None,
        scale: None,
        lessons: None,
        tools: None,
    }
}

#[test]
fn url_rules() {
    assert_eq!(validate_url(""), Ok(()));
    assert_eq!(validate_url("https://example.com"), Ok(()));
    assert_eq!(validate_url("http://example.com"), Ok(()));
    assert_eq!(
        validate_url("ftp://example.com"),
        Err("url must start with http:// or https://".to_string())
    );
    let long = format!("https://{}", "a".repeat(492));
    assert_eq!(long.len(), 500);
    assert_eq!(validate_url(&long), Ok(()));
    let too_long = format!("https://{}", "a".repeat(493));
    assert_eq!(validate_url(&too_long), Err("url must be max 500 chars".to_string()));
}

#[test]
fn tool_rules_name_the_first_bad_tool() {
    assert_eq!(validate_tools(&[good_tool()]), Ok(()));
    assert_eq!(
        validate_tools(&[good_tool(), tool("", "database", "x", "love")]),
        Err("tools[1].name must be 1-100 chars".to_string())
    );
    assert_eq!(
        validate_tools(&[tool("x", "databases", "x", "love")]),
        Err("tools[0].category must be one of: frontend, backend, database, hosting, auth, payments, monitoring, cdn, email, storage, other".to_string())
    );
    assert_eq!(
        validate_tools(&[good_tool(), good_tool(), tool("x", "cdn", &"w".repeat(301), "love")]),
        Err("tools[2].why must be 1-300 chars".to_string())
    );
    assert_eq!(
        validate_tools(&[tool("x", "cdn", "why", "hate")]),
        Err("tools[0].verdict must be one of: love, good, meh, regret".to_string())
    );
    let many: Vec<CreateToolInput> = (0..31).map(|_| good_tool()).collect();
    assert_eq!(validate_tools(&many), Err("maximum 30 tools allowed".to_string()));
    let thirty: Vec<CreateToolInput> = (0..30).map(|_| good_tool()).collect();
    assert_eq!(validate_tools(&thirty), Ok(()));
    let mut twelve: Vec<CreateToolInput> = (0..12).map(|_| good_tool()).collect();
    twelve.push(tool("x", "cdn", "", "love"));
    assert_eq!(validate_tools(&twelve), Err("tools[12].why must be 1-300 chars".to_string()));
}

#[test]
fn create_stack_accepts_a_good_stack() {
    assert_eq!(good_stack().validate(), Ok(()));
}

#[test]
fn create_stack_rules_in_order() {
    let mut s = good_stack();
    s.project_name = String::new();
    s.description = String::new();
    assert_eq!(s.validate(), Err("project_name must be 1-100 chars".to_string()));

    let mut s = good_stack();
    s.description = "d".repeat(201);
    assert_eq!(s.validate(), Err("description must be 1-200 chars".to_string()));

    let mut s = good_stack();
    s.category = "games".to_string();
    assert_eq!(
        s.validate(),
        Err("category must be one of: saas, ecommerce, api, mobile, desktop, devtool, other".to_string())
    );

    let mut s = good_stack();
    s.scale = "huge".to_string();
    assert_eq!(
        s.validate(),
        Err("scale must be one of: hobby, hundreds, thousands, tens_of_thousands, hundreds_of_thousands, millions".to_string())
    );

    let mut s = good_stack();
    s.tools = vec![];
    s.url = Some("ftp://x".to_string());
    assert_eq!(s.validate(), Err("at least one tool is required".to_string()));

    let mut s = good_stack();
    s.url = Some("ftp://x".to_string());
    s.tools = vec![tool("", "cdn", "x", "love")];
    assert_eq!(s.validate(), Err("url must start with http:// or https://".to_string()));

    let mut s = good_stack();
    s.tools = vec![tool("", "cdn", "x", "love")];
    s.lessons = Some("l".repeat(501));
    assert_eq!(s.validate(), Err("tools[0].name must be 1-100 chars".to_string()));

    let mut s = good_stack();
    s.lessons = Some("l".repeat(501));
    assert_eq!(s.validate(), Err("lessons must be max 500 chars".to_string()));

    let mut s = good_stack();
    s.url = None;
    s.lessons = None;
    assert_eq!(s.validate(), Ok(()));
}

#[test]
fn lengths_count_bytes() {
    let mut s = good_stack();
    // 34 three-byte characters are 102 bytes.
    s.project_name = "€".repeat(34);
    assert_eq!(s.validate(), Err("project_name must be 1-100 chars".to_string()));
    s.project_name = "€".repeat(33);
    assert_eq!(s.validate(), Ok(()));
}

#[test]
fn update_stack_checks_only_present_fields() {
    assert_eq!(empty_update().validate(), Ok(()));

    let mut u = empty_update();
    u.project_name = Some(String::new());
    assert_eq!(u.validate(), Err("project_name must be 1-100 chars".to_string()));

    let mut u = empty_update();
    u.description = Some("d".repeat(201));
    assert_eq!(u.validate(), Err("description must be 1-200 chars".to_string()));

    let mut u = empty_update();
    u.category = Some("games".to_string());
    assert!(u.validate().is_err());

    let mut u = empty_update();
    u.scale = Some("hobby".to_string());
    u.url = Some(String::new());
    assert_eq!(u.validate(), Ok(()));

    let mut u = empty_update();
    u.scale = Some("tiny".to_string());
    assert!(u.validate().unwrap_err().starts_with("scale must be one of"));

    let mut u = empty_update();
    u.url = Some("example.com".to_string());
    assert_eq!(u.validate(), Err("url must start with http:// or https://".to_string()));

    let mut u = empty_update();
    u.lessons = Some("l".repeat(501));
    u.tools = Some(vec![]);
    assert_eq!(u.validate(), Err("lessons must be max 500 chars".to_string()));

    let mut u = empty_update();
    u.tools = Some(vec![]);
    assert_eq!(u.validate(), Err("at least one tool is required".to_string()));

    let mut u = empty_update();
    u.tools = Some(vec![good_tool(), tool("x", "cdn", "x", "meh"), tool("x", "x", "x", "meh")]);
    assert!(u.validate().unwrap_err().starts_with("tools[2].category"));
}

fn as_update(s: CreateStackRequest) -> UpdateStackRequest {
    UpdateStackRequest {
        project_name: Some(s.project_name),
        description: Some(s.description),
        category: Some(s.category),
        url: s.url,
        scale: Some(s.scale),
        lessons: s.lessons,
        tools: Some(s.tools),
    }
}

#[test]
fn valid_stack_is_a_valid_change_and_back() {
    assert!(good_stack().validate().is_ok());
    assert!(as_update(good_stack()).validate().is_ok());
    let mut bad = good_stack();
    bad.tools = vec![];
    bad.url = Some("ftp://x".to_string());
    // Both refuse it, each naming its own first issue.
    assert_eq!(bad.validate(), Err("at least one tool is required".to_string()));
    let mut bad = good_stack();
    bad.tools = vec![];
    bad.url = Some("ftp://x".to_string());
    assert_eq!(
        as_update(bad).validate(),
        Err("url must start with http:// or https://".to_string())
    );
}

#[test]
fn stack_check_answers_400_with_the_first_problem() {
    assert!(good_stack().check().is_ok());
    let mut bad = good_stack();
    bad.project_name = "".to_string();
    let e = bad.check().err().unwrap();
    assert_eq!(e.status, 400);
    assert_eq!(e.body.error, "project_name must be 1-100 chars");
    assert_eq!(bad.validate().err().unwrap(), e.body.error);
}
