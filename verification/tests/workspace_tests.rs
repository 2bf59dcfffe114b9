use parallax::git::{
    branch_ref, git_branch, git_change, git_commit_entry, log_cap, pull_action, push_refspec,
    short_hash, stash_message, token_user, PullAction, StatusFlags,
};
use parallax::schema::{
    choose_framework, django_endpoints, django_model_entity, endpoints_from_routes,
    express_routes, fastapi_model_entity, fastapi_routes, fillable_fields, parse_fastapi_models,
    try_parse_fastapi_models, laravel_entity_from, rails_table_entity,
    table_body,
    find_openapi_spec, frappe_doctype_entity, frappe_endpoints, frappe_result,
    has_frappe_structure, has_laravel_structure, has_rails_structure, laravel_endpoints,
    laravel_model_entity, list_frameworks, parse_django_models, parse_openapi,
    parse_rails_schema, rails_endpoints, to_pascal_case, unknown_result, DoctypeDocument,
    DoctypeField, EntityKind, Framework, OpenApiDocument, OpenApiOperation, OpenApiPath,
    OpenApiProperty, OpenApiSchema, ProjectMarkers,
};
use parallax::workspace::{
    auth_path, branch_from_head, channel_url, collection_file_name, design_file_name, env_dir,
    extract_config, extract_url_path, globals_environment_json, history_file_name, join_path,
    mock_rule_from_traffic, parallax_dir, parallax_home, shell_result, shell_timeout_message,
    workspace_info, workspace_name,
};

fn strings(v: &[&str]) -> Vec<String> {
    v.iter().map(|s| s.to_string()).collect()
}

#[test]
fn paths() {
    assert_eq!(channel_url(), "http://127.0.0.1:50151");
    assert_eq!(parallax_dir("/home/u/proj"), "/home/u/proj/.parallax");
    assert_eq!(parallax_dir("/home/u/proj/"), "/home/u/proj/.parallax");
    assert_eq!(parallax_dir(""), ".parallax");
    assert_eq!(env_dir("w"), "w/.parallax/environments");
    assert_eq!(join_path("/a", "/b"), "/b");
    assert_eq!(parallax_home(None, Some("/u".to_string())).as_deref(), Some("/u/.parallax"));
    assert_eq!(parallax_home(Some("/h".to_string()), Some("/u".to_string())).as_deref(), Some("/h/.parallax"));
    assert_eq!(parallax_home(None, None), None);
    assert_eq!(auth_path(Some("/h/.parallax".to_string())).as_deref(), Some("/h/.parallax/github_auth.json"));
    assert_eq!(auth_path(None), None);
}

#[test]
fn git_head_and_workspace() {
    assert_eq!(branch_from_head("ref: refs/heads/main\n").as_deref(), Some("main"));
    assert_eq!(branch_from_head("  ref: refs/heads/feature/x  ").as_deref(), Some("feature/x"));
    assert_eq!(branch_from_head("3f2a9c0d\n"), None);
    assert_eq!(workspace_name("/home/u/proj"), "proj");
    assert_eq!(workspace_name("/"), "workspace");
    assert_eq!(workspace_name("proj"), "proj");
    assert_eq!(workspace_name(""), "workspace");
    let w = workspace_info("/home/u/proj", true, true, Some("ref: refs/heads/dev".to_string()), 2, 3);
    assert_eq!(w.name, "proj");
    assert_eq!(w.git_branch.as_deref(), Some("dev"));
    assert_eq!((w.collections_count, w.environments_count), (2, 3));
    let w = workspace_info("/p", false, false, Some("ref: refs/heads/dev".to_string()), 0, 0);
    assert_eq!(w.git_branch, None);
    assert_eq!(globals_environment_json(), r#"{"name":"globals","variables":{}}"#);
}

#[test]
fn file_names() {
    assert_eq!(collection_file_name("My API Tests"), "my-api-tests.yaml");
    assert_eq!(design_file_name("Pet Store/v2"), "pet-store-v2.openapi.yaml");
    assert_eq!(history_file_name(1700000000123), "1700000000123.json");
    assert_eq!(history_file_name(0), "0.json");
}

#[test]
fn shell_results() {
    assert_eq!(shell_result(true, b"hello\n\n", b"").unwrap(), "hello");
    assert_eq!(shell_result(true, b"value\r\n", b"").unwrap(), "value");
    assert_eq!(shell_result(true, b"a\r", b"").unwrap(), "a");
    assert_eq!(shell_result(false, b"", b"  not found\n").unwrap_err(), "Shell command failed: not found");
    assert_eq!(shell_timeout_message("sleep 20"), "Shell command timed out after 10s: sleep 20");
}

#[test]
fn mock_rules_from_traffic() {
    assert_eq!(extract_url_path("https://api.test/v1/users?x=1"), "/v1/users?x=1");
    assert_eq!(extract_url_path("http://api.test"), "/");
    assert_eq!(extract_url_path("/already/path"), "/already/path");
    assert_eq!(extract_url_path("ftp://x/y"), "/");
    let r = mock_rule_from_traffic(
        "42",
        "https://h/a/b",
        "GET".to_string(),
        200,
        "{}".to_string(),
        vec![("x".to_string(), "y".to_string())],
        "application/json".to_string(),
    );
    assert_eq!(r.id, "rec-42");
    assert_eq!(r.path, "/a/b");
    assert_eq!(r.status_code, 200);
}

#[test]
fn ai_settings_defaults() {
    let s = extract_config(None, None, None, None, None);
    assert_eq!((s.provider.as_str(), s.model.as_str(), s.api_key.as_str(), s.base_url.as_str(), s.air_gap_mode), ("ollama", "", "", "", false));
    let s = extract_config(Some("openai".to_string()), Some("m".to_string()), None, None, Some(true));
    assert_eq!(s.provider, "openai");
    assert!(s.air_gap_mode);
}

#[test]
fn git_helpers() {
    let flags = |n, m, d| StatusFlags { index_new: n, wt_new: false, index_modified: false, wt_modified: m, index_deleted: false, wt_deleted: d };
    assert_eq!(git_change(Some("a.txt".to_string()), &flags(true, true, false)).status, "added");
    assert_eq!(git_change(Some("a.txt".to_string()), &flags(false, true, true)).status, "modified");
    assert_eq!(git_change(None, &flags(false, false, true)).status, "deleted");
    let c = git_change(None, &flags(false, false, false));
    assert_eq!((c.path.as_str(), c.status.as_str()), ("?", "changed"));
    let b = git_branch(Some("main".to_string()), false, &Some("main".to_string()));
    assert!(b.is_current && !b.is_remote);
    let b = git_branch(None, true, &Some("main".to_string()));
    assert_eq!(b.name, "?");
    assert!(!b.is_current);
    assert_eq!(short_hash("0123456789abcdef0123456789abcdef01234567"), "01234567");
    assert_eq!(log_cap(0), 50);
    assert_eq!(log_cap(7), 7);
    let e = git_commit_entry("0123456789abcdef", None, None, Some("fix".to_string()), 5);
    assert_eq!((e.hash.as_str(), e.author.as_str(), e.email.as_str(), e.message.as_str()), ("01234567", "?", "", "fix"));
    assert_eq!(branch_ref("dev"), "refs/heads/dev");
    assert_eq!(push_refspec("dev"), "refs/heads/dev:refs/heads/dev");
    assert_eq!(stash_message(&None), "parallax stash");
    assert_eq!(stash_message(&Some("wip".to_string())), "wip");
    assert!(matches!(pull_action(true, true), PullAction::FastForward));
    assert!(matches!(pull_action(false, true), PullAction::Conflict(m) if m == "Merge conflicts \u{2014} manual resolution required"));
    assert!(matches!(pull_action(false, false), PullAction::UpToDate));
    assert_eq!(token_user(), "x-access-token");
}

#[test]
fn endpoints_inferred() {
    let f = frappe_endpoints("Sales Invoice");
    assert_eq!(f.len(), 5);
    assert_eq!((f[1].method.as_str(), f[1].path.as_str()), ("GET", "/api/resource/Sales Invoice/{name}"));
    assert_eq!(f[2].description.as_deref(), Some("Create record"));
    let d = django_endpoints("BlogPost");
    assert_eq!((d[2].method.as_str(), d[2].path.as_str(), d[2].description.as_deref()), ("GET", "/api/blogpost/:id/", Some("Retrieve")));
    let l = laravel_endpoints("User");
    assert_eq!((l[0].path.as_str(), l[4].path.as_str()), ("/api/users", "/api/users/{id}"));
    assert!(l[0].description.is_none());
    let r = rails_endpoints("line_items");
    assert_eq!((r[3].method.as_str(), r[3].path.as_str()), ("PATCH", "/api/v1/line_items/:id"));
}

#[test]
fn names_and_fillable() {
    assert_eq!(to_pascal_case("line_items"), "LineItems");
    assert_eq!(to_pascal_case("users"), "Users");
    assert_eq!(to_pascal_case("a__b_"), "AB");
    assert_eq!(to_pascal_case("ßtraße_x"), "SStraßeX");
    assert_eq!(fillable_fields(" 'name', \"email\" ,'',password "), strings(&["name", "email", "password"]));
    assert!(fillable_fields(" , '' ").is_empty());
}

#[test]
fn framework_markers() {
    assert!(has_frappe_structure(&strings(&["hooks.py"])));
    assert!(!has_frappe_structure(&strings(&["artisan"])));
    assert!(has_laravel_structure(&strings(&["app/Models"])));
    assert!(has_rails_structure(&strings(&["db/schema.rb"]), &None));
    assert!(!has_rails_structure(&vec![], &None));
    assert!(has_rails_structure(&strings(&["Gemfile"]), &Some("gem 'rails', '~> 7.1'".to_string())));
    assert!(!has_rails_structure(&strings(&["Gemfile"]), &Some("gem 'sinatra'".to_string())));
    assert_eq!(find_openapi_spec("/p", &strings(&["swagger.json", "openapi.yml"])).as_deref(), Some("/p/openapi.yml"));
    assert_eq!(find_openapi_spec("/p", &strings(&["docs/openapi.yaml"])).as_deref(), Some("/p/docs/openapi.yaml"));
    assert_eq!(find_openapi_spec("/p", &strings(&["readme.md"])), None);
    let m = |spec: Option<&str>, frappe, rails| ProjectMarkers {
        openapi_spec: spec.map(|s| s.to_string()),
        frappe,
        django: false,
        laravel: false,
        rails,
        fastapi: true,
        express: false,
    };
    assert_eq!(choose_framework(&m(Some("x"), true, true)), Framework::OpenApi);
    assert_eq!(choose_framework(&m(None, true, true)), Framework::Frappe);
    assert_eq!(choose_framework(&m(None, false, true)), Framework::Rails);
    assert_eq!(choose_framework(&m(None, false, false)), Framework::FastApi);
    let u = unknown_result("/p");
    assert_eq!((u.framework.as_str(), u.root_path.as_str()), ("unknown", "/p"));
    assert!(u.entities.is_empty() && u.endpoints.is_empty() && u.raw_spec.is_none());
}

#[test]
fn frappe_doctypes() {
    let doc = DoctypeDocument {
        name: Some("Task".to_string()),
        description: None,
        fields: Some(vec![
            DoctypeField { fieldname: Some("subject".to_string()), fieldtype: None, reqd: Some(1), options: None, description: None, default: None },
            DoctypeField { fieldname: None, fieldtype: Some("Select".to_string()), reqd: Some(2), options: Some("Open\nClosed\n".to_string()), description: Some("d".to_string()), default: Some("\"Open\"".to_string()) },
        ]),
    };
    let e = frappe_doctype_entity(&doc, "task.json");
    assert_eq!(e.name, "Task");
    assert_eq!(e.kind, EntityKind::FrappeDoctype);
    assert_eq!((e.fields[0].name.as_str(), e.fields[0].field_type.as_str(), e.fields[0].required), ("subject", "Data", true));
    assert_eq!((e.fields[1].name.as_str(), e.fields[1].required), ("", false));
    assert_eq!(e.fields[1].options, Some(strings(&["Open", "Closed"])));
    assert_eq!(e.fields[1].default.as_deref(), Some("\"Open\""));
    let unnamed = frappe_doctype_entity(&DoctypeDocument { name: None, description: None, fields: None }, "x.json");
    assert_eq!(unnamed.name, "Unknown");
    assert!(unnamed.fields.is_empty());
    let r = frappe_result("/bench", vec![e, unnamed]);
    assert_eq!(r.framework, "frappe");
    assert_eq!(r.entities[0].endpoints.len(), 5);
    assert_eq!(r.endpoints.len(), 10);
    assert_eq!(r.endpoints[5].path, "/api/resource/Unknown");
}

#[test]
fn openapi_documents() {
    let doc = OpenApiDocument {
        component_schemas: Some(Some(vec![OpenApiSchema {
            name: "Pet".to_string(),
            properties: Some(vec![
                OpenApiProperty { name: "id".to_string(), kind_name: Some("integer".to_string()), enum_values: None, description: None, default: None },
                OpenApiProperty { name: "status".to_string(), kind_name: None, enum_values: Some(strings(&["a", "b"])), description: Some("s".to_string()), default: Some("\"a\"".to_string()) },
            ]),
            required: strings(&["id"]),
            description: Some("A pet".to_string()),
        }])),
        definitions: Some(Some(vec![])),
        paths: Some(vec![
            OpenApiPath {
                path: "/pets".to_string(),
                operations: Some(vec![
                    OpenApiOperation { method: "get".to_string(), summary: Some(Some("List".to_string())), description: Some(Some("ignored".to_string())) },
                    OpenApiOperation { method: "parameters".to_string(), summary: None, description: None },
                    OpenApiOperation { method: "post".to_string(), summary: None, description: Some(Some("Create".to_string())) },
                    OpenApiOperation { method: "delete".to_string(), summary: Some(None), description: Some(Some("x".to_string())) },
                ]),
            },
            OpenApiPath { path: "/x".to_string(), operations: None },
        ]),
        json: "{\"openapi\":\"3.0.0\"}".to_string(),
    };
    let r = parse_openapi("/p", "/p/openapi.json", &doc);
    assert_eq!(r.framework, "openapi");
    assert_eq!(r.entities.len(), 1);
    let e = &r.entities[0];
    assert_eq!((e.name.as_str(), e.kind, e.description.as_deref()), ("Pet", EntityKind::OpenApiSchema, Some("A pet")));
    assert_eq!((e.fields[0].field_type.as_str(), e.fields[0].required), ("integer", true));
    assert_eq!((e.fields[1].field_type.as_str(), e.fields[1].required), ("string", false));
    assert_eq!(e.fields[1].options, Some(strings(&["a", "b"])));
    assert_eq!(r.endpoints.len(), 3);
    assert_eq!((r.endpoints[0].method.as_str(), r.endpoints[0].description.as_deref()), ("GET", Some("List")));
    assert_eq!((r.endpoints[1].method.as_str(), r.endpoints[1].description.as_deref()), ("POST", Some("Create")));
    assert_eq!((r.endpoints[2].method.as_str(), r.endpoints[2].description.clone()), ("DELETE", None));
    assert_eq!(r.raw_spec.as_deref(), Some("{\"openapi\":\"3.0.0\"}"));
    let swagger = OpenApiDocument { component_schemas: Some(None), definitions: Some(Some(vec![])), paths: None, json: "{}".to_string() };
    let r = parse_openapi("/p", "s.yaml", &swagger);
    assert!(r.entities.is_empty() && r.endpoints.is_empty());
}

#[test]
fn source_files_read_by_pattern() {
    let schema = "create_table \"line_items\", force: :cascade do |t|\n  t.string \"name\"\n  t.integer \"qty\"\nend\ncreate_table \"users\" do |t|\n  t.string \"email\"\nend\n";
    let e = parse_rails_schema(schema, "db/schema.rb");
    assert_eq!(e.len(), 2);
    assert_eq!(e[0].name, "LineItems");
    assert_eq!(e[0].fields.len(), 2);
    assert_eq!((e[0].fields[1].name.as_str(), e[0].fields[1].field_type.as_str(), e[0].fields[1].required), ("qty", "integer", false));
    assert_eq!(e[0].endpoints[0].path, "/api/v1/line_items");
    assert_eq!(e[1].fields.len(), 1);
    let g = parse_rails_schema("create_table \"users\" do |t|\n  t.string \"name\"\n  t.string \"gender\"\n  t.integer \"age\"\nend\n", "db/schema.rb");
    let cols: Vec<(&str, &str)> = g[0].fields.iter().map(|f| (f.name.as_str(), f.field_type.as_str())).collect();
    assert_eq!(cols, vec![("name", "string"), ("gender", "string"), ("age", "integer")]);

    let models = "class Post(models.Model):\n    title = models.CharField(max_length=10)\n    body = models.TextField()\n\nclass Tag(models.Model):\n    name = models.CharField()\n";
    let d = parse_django_models(models, "app/models.py");
    assert_eq!(d.len(), 2);
    assert_eq!(d[0].name, "Post");
    assert_eq!(d[0].fields.len(), 2);
    assert_eq!((d[0].fields[0].name.as_str(), d[0].fields[0].field_type.as_str()), ("title", "CharField"));
    assert_eq!(d[1].fields.len(), 1);
    assert_eq!(d[1].endpoints[0].path, "/api/tag/");

    let php = "class User extends Model {\n protected $fillable = ['name', \"email\"];\n}";
    let l = laravel_model_entity("User", php, "app/Models/User.php");
    assert_eq!(l.fields.len(), 2);
    assert_eq!((l.fields[1].name.as_str(), l.fields[1].field_type.as_str()), ("email", "string"));
    let plain = laravel_model_entity("User", "protected $guarded = ['id'];", "u.php");
    assert!(plain.fields.is_empty());

    let py = "@app.get(\"/items\")\ndef f(): pass\n@router.delete('/items/{id}')\n";
    let fa = fastapi_routes(py);
    assert_eq!(fa.len(), 2);
    assert_eq!((fa[1].method.as_str(), fa[1].path.as_str()), ("DELETE", "/items/{id}"));
    let js = "router.post(`/users`, h); app.get('/health', h)";
    let ex = express_routes(js);
    assert_eq!((ex[0].method.as_str(), ex[0].path.as_str(), ex[1].path.as_str()), ("POST", "/users", "/health"));
}

fn matched(groups: &[Option<&str>], rest: &str) -> (Vec<Option<String>>, String) {
    (groups.iter().map(|g| g.map(|t| t.to_string())).collect(), rest.to_string())
}

#[test]
fn entities_from_given_matches() {
    assert_eq!(table_body(" do |t|\n t.string \"a\"\nend\nmore end"), " do |t|\n t.string \"a\"\n");
    assert_eq!(table_body("no terminator"), "no terminator\n");
    assert_eq!(table_body(" do |t|\n  t.string \"gender\"\n  end  \nx"), " do |t|\n  t.string \"gender\"\n");
    let cols = vec![
        matched(&[Some("t.string \"title\""), Some("string"), Some("title")], ""),
        matched(&[Some("t.integer \"n\""), Some("integer"), None], ""),
    ];
    let e = rails_table_entity("blog_posts", &cols, "db/schema.rb");
    assert_eq!(e.name, "BlogPosts");
    assert_eq!(e.kind, EntityKind::RailsModel);
    assert_eq!((e.fields[0].name.as_str(), e.fields[0].field_type.as_str(), e.fields[0].required), ("title", "string", false));
    assert_eq!((e.fields[1].name.as_str(), e.fields[1].field_type.as_str()), ("", "integer"));
    assert_eq!(e.endpoints[0].path, "/api/v1/blog_posts");
    assert_eq!(e.source_file, "db/schema.rb");

    let fields = vec![matched(&[Some(" x = models.IntegerField("), Some("x"), Some("IntegerField")], "")];
    let d = django_model_entity("Order", &fields, "m.py");
    assert_eq!(d.kind, EntityKind::DjangoModel);
    assert_eq!((d.fields[0].name.as_str(), d.fields[0].field_type.as_str(), d.fields[0].required), ("x", "IntegerField", true));
    assert_eq!(d.endpoints[0].path, "/api/order/");

    let fill = vec![matched(&[Some("whole"), Some(" 'a', \"b\" ,, ")], ""), matched(&[Some("w"), Some("'c'")], "")];
    let l = laravel_entity_from("Item", &fill, "Item.php");
    assert_eq!(l.fields.len(), 2);
    assert_eq!((l.fields[0].name.as_str(), l.fields[1].name.as_str()), ("a", "b"));
    assert_eq!(l.fields[1].field_type, "string");
    assert!(laravel_entity_from("Item", &vec![], "Item.php").fields.is_empty());

    let routes = vec![matched(&[Some("app.patch('/x')"), Some("patch"), Some("/x")], "")];
    let r = endpoints_from_routes(&routes);
    assert_eq!((r[0].method.as_str(), r[0].path.as_str(), r[0].description.clone()), ("PATCH", "/x", None));
}

#[test]
fn fastapi_models_read_by_pattern() {
    let py = "from pydantic import BaseModel\nclass Item(BaseModel):\n    name: str\n    tags: List[str] \n\nclass User(BaseModel):\n    id: int\n";
    let m = parse_fastapi_models(py, "main.py");
    assert_eq!(m.len(), 2);
    assert_eq!((m[0].name.as_str(), m[0].kind), ("Item", EntityKind::FastApiModel));
    let f: Vec<(&str, &str, bool)> = m[0].fields.iter().map(|f| (f.name.as_str(), f.field_type.as_str(), f.required)).collect();
    assert_eq!(f, vec![("name", "str", true), ("tags", "List[str]", true)]);
    assert_eq!(m[1].fields.len(), 1);
    assert!(m[1].endpoints.is_empty());
    assert_eq!(m[1].source_file, "main.py");
    assert_eq!(try_parse_fastapi_models(py, "main.py").map(|v| v.len()), Some(2));

    let long = format!("class A(BaseModel):\n    x: int\n{}\n    late: str\n", "#".repeat(900));
    let a = parse_fastapi_models(&long, "a.py");
    assert_eq!(a[0].fields.len(), 1);
    let split = format!("class A(BaseModel):{}\u{e9}rest", "x".repeat(798));
    assert!(try_parse_fastapi_models(&split, "s.py").is_none());
    let fits = format!("class A(BaseModel):{}\u{e9}rest", "x".repeat(797));
    assert!(try_parse_fastapi_models(&fits, "s.py").is_some());

    assert_eq!(parallax::text::first_bytes("ab\u{e9}c", 4).as_deref(), Some("ab\u{e9}"));
    assert_eq!(parallax::text::first_bytes("ab\u{e9}c", 3), None);
    assert_eq!(parallax::text::first_bytes("ab", 800).as_deref(), Some("ab"));
    let caps = vec![(vec![Some("    q : Optional[int] ".to_string()), Some("q".to_string()), Some("Optional[int] ".to_string())], String::new())];
    let e = fastapi_model_entity("Q", &caps, "q.py");
    assert_eq!((e.fields[0].name.as_str(), e.fields[0].field_type.as_str()), ("q", "Optional[int]"));
}

#[test]
fn frameworks_listed() {
    let f = list_frameworks();
    assert_eq!(f.len(), 7);
    assert_eq!((f[0].id.as_str(), f[0].name.as_str()), ("frappe", "Frappe / ERPNext"));
    assert_eq!(f[2].detection_hints, strings(&["artisan", "app/Models/"]));
    let ids: Vec<&str> = f.iter().map(|x| x.id.as_str()).collect();
    assert_eq!(ids, vec!["frappe", "django", "laravel", "rails", "openapi", "fastapi", "express"]);
}
