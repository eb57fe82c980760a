use req::error::ReqError;
use req::json::Json;
use req::project::Project;
use req::project::Root;
use req::template::Template;
use req::template::TemplateRequest;

fn checkout_doc() -> &'static str {
    "{\"url\":\"https://shop.test\",\"method\":\"POST\",\"headers\":{},\"body\":{\"id\":\"{{order_id}}\"}}"
}

#[test]
fn create_then_get_yields_an_empty_project() {
    let mut root = Root::new();
    Project::create(&mut root, "alpha").unwrap();
    let p = Project::get(&root, "alpha").unwrap();
    assert_eq!(p.name, "alpha");
    assert!(p.variables().is_empty());
    assert!(Template::list(p).is_empty());
}

#[test]
fn create_rejects_duplicates_and_bad_names() {
    let mut root = Root::new();
    Project::create(&mut root, "alpha").unwrap();
    assert_eq!(
        Project::create(&mut root, "alpha"),
        Err(ReqError::AlreadyExists)
    );
    assert_eq!(
        Project::create(&mut root, "bad/name"),
        Err(ReqError::InvalidName)
    );
    assert_eq!(Project::create(&mut root, ""), Err(ReqError::InvalidName));
}

#[test]
fn get_unknown_project_is_not_found() {
    let root = Root::new();
    assert!(matches!(
        Project::get(&root, "nowhere"),
        Err(ReqError::NotFound)
    ));
}

#[test]
fn lookups_reject_path_unsafe_names() {
    let mut root = Root::new();
    Project::create(&mut root, "alpha").unwrap();
    assert!(matches!(
        Project::get(&root, "../etc"),
        Err(ReqError::InvalidName)
    ));
    assert_eq!(
        Project::delete(&mut root, "a/b"),
        Err(ReqError::InvalidName)
    );
    let p = &mut root.projects[0];
    assert!(matches!(
        Template::get(p, "x/y"),
        Err(ReqError::InvalidName)
    ));
    assert_eq!(Template::delete(p, ""), Err(ReqError::InvalidName));
    assert_eq!(
        p.create_variable("v\\w").err(),
        Some(ReqError::InvalidName)
    );
}

#[test]
fn rename_moves_the_name_and_keeps_the_variables() {
    let mut root = Root::new();
    Project::create(&mut root, "alpha").unwrap();
    root.projects[0].create_variable("default").unwrap();
    root.projects[0]
        .edit_current_variable("{\"k\":\"v\"}")
        .unwrap();
    Project::rename(&mut root, "alpha", "beta").unwrap();
    assert!(matches!(Project::get(&root, "alpha"), Err(ReqError::NotFound)));
    let p = Project::get(&root, "beta").unwrap();
    assert_eq!(p.variables().len(), 1);
    assert_eq!(p.variables()[0].name, "default");
    assert_eq!(
        p.variables()[0].contents,
        vec![("k".to_string(), Json::Str("v".to_string()))]
    );
}

#[test]
fn rename_rejects_taken_names() {
    let mut root = Root::new();
    Project::create(&mut root, "alpha").unwrap();
    Project::create(&mut root, "beta").unwrap();
    assert_eq!(
        Project::rename(&mut root, "alpha", "beta"),
        Err(ReqError::AlreadyExists)
    );
}

#[test]
fn delete_takes_templates_and_variables_with_it() {
    let mut root = Root::new();
    Project::create(&mut root, "shop").unwrap();
    root.projects[0].create_variable("default").unwrap();
    Template::create(&mut root.projects[0], "checkout").unwrap();
    Project::delete(&mut root, "shop").unwrap();
    assert!(Project::list(&root).is_empty());
    assert!(matches!(Project::get(&root, "shop"), Err(ReqError::NotFound)));
}

#[test]
fn save_registers_placeholders_and_resaving_changes_nothing() {
    let mut root = Root::new();
    Project::create(&mut root, "shop").unwrap();
    let p = &mut root.projects[0];
    p.create_variable("default").unwrap();
    Template::create(p, "checkout").unwrap();
    Template::edit(p, "checkout", checkout_doc()).unwrap();
    Template::save(p, "checkout").unwrap();
    assert_eq!(
        p.variables()[0].contents,
        vec![("order_id".to_string(), Json::Str(String::new()))]
    );
    Template::save(p, "checkout").unwrap();
    assert_eq!(
        p.variables()[0].contents,
        vec![("order_id".to_string(), Json::Str(String::new()))]
    );
}

#[test]
fn save_never_overwrites_an_existing_entry() {
    let mut root = Root::new();
    Project::create(&mut root, "shop").unwrap();
    let p = &mut root.projects[0];
    p.create_variable("default").unwrap();
    p.edit_current_variable("{\"order_id\":\"42\"}").unwrap();
    Template::create(p, "checkout").unwrap();
    Template::edit(p, "checkout", checkout_doc()).unwrap();
    Template::save(p, "checkout").unwrap();
    assert_eq!(
        p.variables()[0].contents,
        vec![("order_id".to_string(), Json::Str("42".to_string()))]
    );
}

#[test]
fn checkout_scenario_resolves_the_order_id() {
    let mut root = Root::new();
    Project::create(&mut root, "shop").unwrap();
    let p = &mut root.projects[0];
    p.create_variable("default").unwrap();
    Template::create(p, "checkout").unwrap();
    Template::edit(p, "checkout", checkout_doc()).unwrap();
    Template::save(p, "checkout").unwrap();
    p.edit_current_variable("{\"order_id\":\"42\"}").unwrap();
    let text = Template::request_with_variables(p, "checkout").unwrap();
    let resolved = TemplateRequest::parse(&text).unwrap();
    assert_eq!(
        resolved.body,
        Some(Json::Obj(vec![(
            "id".to_string(),
            Json::Str("42".to_string())
        )]))
    );
}

#[test]
fn request_with_variables_needs_a_selection_for_input_placeholders() {
    let mut root = Root::new();
    Project::create(&mut root, "shop").unwrap();
    let p = &mut root.projects[0];
    Template::create(p, "checkout").unwrap();
    Template::edit(p, "checkout", checkout_doc()).unwrap();
    assert_eq!(
        Template::request_with_variables(p, "checkout"),
        Err(ReqError::NoSelection)
    );
}

#[test]
fn request_with_variables_allows_generated_only_templates() {
    let mut root = Root::new();
    Project::create(&mut root, "shop").unwrap();
    let p = &mut root.projects[0];
    Template::create(p, "ping").unwrap();
    let doc = "{\"url\":\"https://x\",\"method\":\"POST\",\"headers\":{},\"body\":{\"id\":\"{{gen:uuid}}\"}}";
    Template::edit(p, "ping", doc).unwrap();
    let text = Template::request_with_variables(p, "ping").unwrap();
    assert!(!text.contains("{{gen:uuid}}"));
}

#[test]
fn variable_edit_with_object_value_fails_and_changes_nothing() {
    let mut root = Root::new();
    Project::create(&mut root, "shop").unwrap();
    let p = &mut root.projects[0];
    p.create_variable("default").unwrap();
    p.edit_current_variable("{\"a\":\"1\"}").unwrap();
    let before = vec![("a".to_string(), Json::Str("1".to_string()))];
    assert_eq!(p.variables()[0].contents, before);
    assert_eq!(
        p.edit_current_variable("{\"a\":{\"no\":1}}"),
        Err(ReqError::InvalidVariableValue)
    );
    assert_eq!(p.variables()[0].contents, before);
    assert_eq!(
        p.edit_current_variable("{\"a\":[1]}"),
        Err(ReqError::InvalidVariableValue)
    );
    assert_eq!(p.variables()[0].contents, before);
}

#[test]
fn select_and_current_variable_work_by_name() {
    let mut root = Root::new();
    Project::create(&mut root, "shop").unwrap();
    let p = &mut root.projects[0];
    assert_eq!(
        p.current_variable().err(),
        Some(ReqError::NoSelection)
    );
    p.create_variable("one").unwrap();
    p.create_variable("two").unwrap();
    p.select_variable("one").unwrap();
    assert_eq!(p.current_variable().unwrap().name, "one");
    assert_eq!(
        p.select_variable("three").err(),
        Some(ReqError::NotFound)
    );
}

#[test]
fn template_rename_and_delete_behave() {
    let mut root = Root::new();
    Project::create(&mut root, "shop").unwrap();
    let p = &mut root.projects[0];
    Template::create(p, "a").unwrap();
    Template::create(p, "b").unwrap();
    assert_eq!(Template::rename(p, "a", "b"), Err(ReqError::AlreadyExists));
    Template::rename(p, "a", "c").unwrap();
    assert!(matches!(Template::get(p, "a"), Err(ReqError::NotFound)));
    assert!(Template::get(p, "c").is_ok());
    Template::delete(p, "b").unwrap();
    assert_eq!(Template::list(p), vec!["c".to_string()]);
}

#[test]
fn template_relocate_moves_across_projects() {
    let mut root = Root::new();
    Project::create(&mut root, "one").unwrap();
    Project::create(&mut root, "two").unwrap();
    Template::create(&mut root.projects[0], "t").unwrap();
    Template::relocate(&mut root, "one", "two", "t", "renamed").unwrap();
    assert!(Template::list(&root.projects[0]).is_empty());
    assert_eq!(Template::list(&root.projects[1]), vec!["renamed".to_string()]);
}

#[test]
fn template_relocate_within_a_project_renames() {
    let mut root = Root::new();
    Project::create(&mut root, "one").unwrap();
    Template::create(&mut root.projects[0], "t").unwrap();
    assert_eq!(
        Template::relocate(&mut root, "one", "one", "t", "t"),
        Err(ReqError::AlreadyExists)
    );
    Template::relocate(&mut root, "one", "one", "t", "u").unwrap();
    assert_eq!(Template::list(&root.projects[0]), vec!["u".to_string()]);
}
