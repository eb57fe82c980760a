use req::cmd::get::GetCommandHandler;
use req::cmd::post::PostCommandHandler;
use req::cmd::run::RunCommandHandler;
use req::cmd::shared::BodyConfigArgs;
use req::cmd::shared::HeaderConfigArgs;
use req::cmd::template::CreateAction;
use req::cmd::template::CreateCommandHandler;
use req::cmd::template::DeleteAction;
use req::cmd::template::DeleteCommandHandler;
use req::cmd::template::ListAction;
use req::cmd::template::ListCommandHandler;
use req::cmd::template::RenameAction;
use req::cmd::template::RenameCommandHandler;
use req::cmd::template::RelocateCommandHandler;
use req::error::ReqError;
use req::http::BodyChoice;
use req::http::Method;
use req::http::body_from_value;
use req::http::parse_basic;
use req::http::parse_header;
use req::json::Json;
use req::paths::project_dir;
use req::paths::template_file;
use req::paths::valid_name;
use req::paths::variable_file;
use req::paths::variables_dir;
use req::template::TemplateRequest;

fn header_config(headers: Vec<&str>) -> HeaderConfigArgs {
    HeaderConfigArgs {
        headers: headers.into_iter().map(|s| s.to_string()).collect(),
        timeout: None,
        bearer: None,
        basic: None,
        verbose: false,
    }
}

#[test]
fn paths_are_built_under_the_root() {
    assert_eq!(project_dir("/r", "p"), "/r/p");
    assert_eq!(variables_dir("/r", "p"), "/r/p/variables");
    assert_eq!(template_file("/r", "p", "t"), "/r/p/t.json");
    assert_eq!(variable_file("/r", "p", "v"), "/r/p/variables/v.json");
}

#[test]
fn names_with_separators_are_invalid() {
    assert!(valid_name("fine-name_2"));
    assert!(!valid_name(""));
    assert!(!valid_name("a/b"));
    assert!(!valid_name("a\\b"));
}

#[test]
fn header_options_split_on_the_first_colon() {
    assert_eq!(
        parse_header("Accept: application/json"),
        Some(("Accept".to_string(), "application/json".to_string()))
    );
    assert_eq!(parse_header("NoColonHere"), None);
    assert_eq!(
        parse_header("A:b:c"),
        Some(("A".to_string(), "b".to_string()))
    );
}

#[test]
fn basic_credentials_may_lack_a_password() {
    assert_eq!(
        parse_basic("user:pass"),
        ("user".to_string(), Some("pass".to_string()))
    );
    assert_eq!(parse_basic("user"), ("user".to_string(), None));
    assert_eq!(
        parse_basic(" user : pass "),
        ("user".to_string(), Some("pass".to_string()))
    );
}

#[test]
fn get_plan_carries_the_options() {
    let h = GetCommandHandler {
        url: "https://x".to_string(),
        header_config: HeaderConfigArgs {
            headers: vec!["A: b".to_string()],
            timeout: Some(9),
            bearer: Some("tok".to_string()),
            basic: Some("u:p".to_string()),
            verbose: true,
        },
    };
    let p = h.plan().unwrap();
    assert_eq!(p.method, Method::Get);
    assert_eq!(p.url, "https://x");
    assert_eq!(p.headers, vec![("A".to_string(), "b".to_string())]);
    assert_eq!(p.bearer, Some("tok".to_string()));
    assert_eq!(p.basic, Some(("u".to_string(), Some("p".to_string()))));
    assert_eq!(p.timeout_secs, Some(9));
    assert_eq!(p.body, BodyChoice::NoBody);
}

#[test]
fn get_plan_rejects_bad_headers() {
    let h = GetCommandHandler {
        url: "https://x".to_string(),
        header_config: header_config(vec!["no colon"]),
    };
    assert!(h.plan().is_none());
}

#[test]
fn post_plan_takes_one_body_at_most() {
    let mk = |json: Option<&str>, data: Option<&str>| PostCommandHandler {
        url: "https://x".to_string(),
        header_config: header_config(vec![]),
        body_config: BodyConfigArgs {
            json: json.map(|s| s.to_string()),
            data: data.map(|s| s.to_string()),
        },
    };
    let p = mk(Some("{\"a\":1}"), None).plan().unwrap();
    assert_eq!(p.body, BodyChoice::JsonBody("{\"a\":1}".to_string()));
    let p = mk(None, Some("a=1")).plan().unwrap();
    assert_eq!(p.body, BodyChoice::FormBody("a=1".to_string()));
    assert!(mk(Some("{}"), Some("a=1")).plan().is_none());
    let p = mk(None, None).plan().unwrap();
    assert_eq!(p.body, BodyChoice::NoBody);
}

#[test]
fn body_from_value_distinguishes_the_kinds() {
    assert_eq!(body_from_value(&None), Some(BodyChoice::NoBody));
    assert_eq!(body_from_value(&Some(Json::Null)), Some(BodyChoice::NoBody));
    assert_eq!(
        body_from_value(&Some(Json::Str("a=1".to_string()))),
        Some(BodyChoice::FormBody("a=1".to_string()))
    );
    assert_eq!(
        body_from_value(&Some(Json::Obj(vec![(
            "k".to_string(),
            Json::Num("1".to_string())
        )]))),
        Some(BodyChoice::JsonBody("{\"k\":1}".to_string()))
    );
    assert_eq!(body_from_value(&Some(Json::Num("1".to_string()))), None);
}

#[test]
fn run_plan_merges_template_and_option_headers() {
    let h = RunCommandHandler {
        project: "shop".to_string(),
        variable: "default".to_string(),
        template: "checkout".to_string(),
        header_config: header_config(vec!["B: 2"]),
    };
    let request = TemplateRequest {
        url: "https://x".to_string(),
        method: Method::Put,
        headers: vec![("A".to_string(), "1".to_string())],
        body: Some(Json::Str("a=1".to_string())),
    };
    let p = h.plan_with_request(request).unwrap();
    assert_eq!(p.method, Method::Put);
    assert_eq!(
        p.headers,
        vec![
            ("A".to_string(), "1".to_string()),
            ("B".to_string(), "2".to_string())
        ]
    );
    assert_eq!(p.body, BodyChoice::FormBody("a=1".to_string()));
}

#[test]
fn run_plan_rejects_scalar_bodies() {
    let h = RunCommandHandler {
        project: "shop".to_string(),
        variable: "default".to_string(),
        template: "checkout".to_string(),
        header_config: header_config(vec![]),
    };
    let request = TemplateRequest {
        url: "https://x".to_string(),
        method: Method::Put,
        headers: vec![],
        body: Some(Json::Bool(true)),
    };
    assert!(h.plan_with_request(request).is_none());
}

#[test]
fn create_action_picks_project_variable_then_template() {
    let mk = |p: Option<&str>, t: Option<&str>, v: Option<&str>, np: Option<&str>| {
        CreateCommandHandler {
            project: p.map(|s| s.to_string()),
            template: t.map(|s| s.to_string()),
            variable: v.map(|s| s.to_string()),
            new_project: np.map(|s| s.to_string()),
        }
    };
    assert!(matches!(
        mk(None, None, None, Some("x")).action(),
        CreateAction::Project(p) if p == "x"
    ));
    assert!(matches!(
        mk(None, None, None, None).action(),
        CreateAction::MissingProject
    ));
    assert!(matches!(
        mk(Some("p"), None, Some("v"), None).action(),
        CreateAction::Variable(a, b) if a == "p" && b == "v"
    ));
    assert!(matches!(
        mk(Some("p"), Some("t"), None, None).action(),
        CreateAction::Template(a, b) if a == "p" && b == "t"
    ));
    assert!(matches!(
        mk(Some("p"), None, None, None).action(),
        CreateAction::MissingTemplate
    ));
}

#[test]
fn list_delete_rename_actions_follow_the_flags() {
    let l = ListCommandHandler { project: None, list_variables: false };
    assert!(matches!(l.action(), ListAction::Projects));
    let l = ListCommandHandler { project: Some("p".to_string()), list_variables: true };
    assert!(matches!(l.action(), ListAction::Variables(x) if x == "p"));
    let d = DeleteCommandHandler {
        project: "p".to_string(),
        template: None,
        delete_project: true,
    };
    assert!(matches!(d.action(), DeleteAction::Project(x) if x == "p"));
    let d = DeleteCommandHandler {
        project: "p".to_string(),
        template: None,
        delete_project: false,
    };
    assert!(matches!(d.action(), DeleteAction::MissingTemplate));
    let r = RenameCommandHandler {
        project: "p".to_string(),
        template: "t".to_string(),
        new_template: Some("u".to_string()),
        new_project: None,
    };
    assert!(matches!(r.action(), RenameAction::Template(a, b, c) if a == "p" && b == "t" && c == "u"));
}

#[test]
fn relocate_action_defaults_to_the_old_name() {
    let m = RelocateCommandHandler {
        current_project: "a".to_string(),
        new_project: "b".to_string(),
        template: "t".to_string(),
        new_template: None,
    };
    let act = m.action();
    assert_eq!(act.new_name, "t");
    assert_eq!(act.from, "a");
    assert_eq!(act.to, "b");
}

#[test]
fn error_messages_are_non_empty() {
    let all = [
        ReqError::NotFound,
        ReqError::AlreadyExists,
        ReqError::MalformedDocument,
        ReqError::InvalidName,
        ReqError::UnresolvedPlaceholder,
        ReqError::InvalidVariableValue,
        ReqError::NoSelection,
        ReqError::EditAborted,
    ];
    for e in all {
        assert!(!e.message().is_empty());
    }
}
