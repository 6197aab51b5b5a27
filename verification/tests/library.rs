use hive::api::{
    autologin_params, encode_unicode_as_html_entities, extract_dispatch_id, extract_success_value,
    retry_step, ApiError, DispatchJob, RetryState, RetryStep, Session,
};
use hive::cache::{Cache, CacheData};
use hive::credentials::Credentials;
use hive::filters::{nation_table, table};
use hive::loaders::categories::{create_category_map, parse_categories, CategoryError};
use hive::loaders::metadata::{collect_template_metadata, TemplateConfig, TemplateMetadata};
use hive::loaders::{extension, file_prefix, parameter_entry, parameter_format, supporting_template_name, ParameterFormat};
use hive::sync::{content_hash, hex_string, format_user_agent, plan_update, record_published, should_regenerate, UpdatePlan};
use hive::text::{decimal_string, parse_u64};

fn pairs(v: &[(String, String)]) -> Vec<(&str, &str)> {
    v.iter().map(|(a, b)| (a.as_str(), b.as_str())).collect()
}

fn strings(v: &[&str]) -> Vec<String> {
    v.iter().map(|s| s.to_string()).collect()
}

#[test]
fn html_entities_leave_ascii_alone() {
    assert_eq!(encode_unicode_as_html_entities("Hello, world! <b>"), "Hello, world! <b>");
    assert_eq!(encode_unicode_as_html_entities(""), "");
}

#[test]
fn html_entities_encode_non_ascii() {
    assert_eq!(encode_unicode_as_html_entities("café"), "caf&#233;");
    assert_eq!(encode_unicode_as_html_entities("€5"), "&#8364;5");
    assert_eq!(encode_unicode_as_html_entities("😀"), "&#128512;");
    assert_eq!(encode_unicode_as_html_entities("\u{7f}\u{80}"), "\u{7f}&#128;");
}

#[test]
fn success_value_is_extracted() {
    let text = "<NATION><SUCCESS>abc123</SUCCESS></NATION>";
    assert_eq!(extract_success_value(text).as_deref(), Some("abc123"));
}

#[test]
fn success_value_takes_longest_on_first_line() {
    let text = "x<SUCCESS>a</SUCCESS>b</SUCCESS>\n<SUCCESS>c</SUCCESS>";
    assert_eq!(extract_success_value(text).as_deref(), Some("a</SUCCESS>b"));
}

#[test]
fn success_value_needs_content_on_one_line() {
    assert_eq!(extract_success_value("<SUCCESS></SUCCESS>"), None);
    assert_eq!(extract_success_value("<SUCCESS>a\nb</SUCCESS>"), None);
    assert_eq!(extract_success_value("<SUCCESS>a\nb</SUCCESS><SUCCESS>z</SUCCESS>").as_deref(), Some("z"));
    assert_eq!(extract_success_value("no tags here"), None);
}

#[test]
fn dispatch_id_is_extracted() {
    let text = "Dispatch posted: https://www.nationstates.net/page=dispatch/id=1234567 thanks";
    assert_eq!(extract_dispatch_id(text), Some(1234567));
}

#[test]
fn dispatch_id_first_match_and_overflow() {
    assert_eq!(extract_dispatch_id("/id=x /id=42 /id=7"), Some(42));
    assert_eq!(extract_dispatch_id("/id=99999999999999999999"), None);
    assert_eq!(extract_dispatch_id("/id=18446744073709551615"), Some(u64::MAX));
    assert_eq!(extract_dispatch_id("no id"), None);
}

#[test]
fn parse_u64_like_std() {
    for s in ["0", "42", "+7", "", "+", "-1", "12a", "18446744073709551615", "18446744073709551616", "007"] {
        assert_eq!(parse_u64(s), s.parse::<u64>().ok(), "input {:?}", s);
    }
}

#[test]
fn decimal_formatting() {
    assert_eq!(decimal_string(0), "0");
    assert_eq!(decimal_string(1500), "1500");
    assert_eq!(decimal_string(u64::MAX), u64::MAX.to_string());
    assert_eq!(parse_u64(&decimal_string(987654321)), Some(987654321));
}

#[test]
fn api_error_messages() {
    assert_eq!(ApiError::RateLimit(30).message(), "Rate limited, resets in 30 seconds");
    assert_eq!(ApiError::RequestError("boom".to_string()).message(), "Request error boom");
    assert_eq!(ApiError::TimedOut.message(), "Request timed out");
    assert_eq!(ApiError::NotFound.message(), "Requested entity does not exist");
    assert_eq!(ApiError::ServerError.message(), "API server error");
}

#[test]
fn response_status_errors() {
    let mut session = Session::new(None);
    match session.handle_response("n", 429, Some("12".to_string()), None) {
        Err(ApiError::RateLimit(12)) => {}
        _ => panic!("expected a rate limit of 12 seconds"),
    }
    match session.handle_response("n", 429, Some("soon".to_string()), None) {
        Err(ApiError::RateLimit(30)) => {}
        _ => panic!("expected the default rate limit"),
    }
    match session.handle_response("n", 429, None, None) {
        Err(ApiError::RateLimit(30)) => {}
        _ => panic!("expected the default rate limit"),
    }
    assert!(matches!(session.handle_response("n", 404, None, None), Err(ApiError::NotFound)));
    assert!(matches!(session.handle_response("n", 500, None, None), Err(ApiError::ServerError)));
    assert!(matches!(session.handle_response("n", 599, None, None), Err(ApiError::ServerError)));
    assert!(matches!(session.handle_response("n", 200, None, None), Ok(())));
    assert!(matches!(session.handle_response("n", 403, None, None), Ok(())));
}

#[test]
fn pins_are_kept_and_sent() {
    let mut creds = Credentials::empty();
    creds.set("testlandia".to_string(), "tok".to_string());
    let mut session = Session::new(Some(creds));
    let headers = session.make_auth_headers("testlandia", Some("pw".to_string()));
    assert_eq!(pairs(&headers), vec![("X-Password", "pw"), ("X-Autologin", "tok")]);
    // an error reply does not keep a pin
    assert!(session.handle_response("testlandia", 404, None, Some("111".to_string())).is_err());
    assert_eq!(pairs(&session.make_auth_headers("testlandia", None)), vec![("X-Autologin", "tok")]);
    assert!(session.handle_response("testlandia", 200, None, Some("222".to_string())).is_ok());
    assert_eq!(
        pairs(&session.make_auth_headers("testlandia", None)),
        vec![("X-Autologin", "tok"), ("X-Pin", "222")]
    );
    assert_eq!(pairs(&session.make_auth_headers("other", None)), Vec::<(&str, &str)>::new());
}

#[test]
fn retry_only_once_and_only_transient() {
    assert!(matches!(retry_step(false, ApiError::RateLimit(5)), RetryStep::WaitThenRetry(5)));
    assert!(matches!(retry_step(false, ApiError::TimedOut), RetryStep::WaitThenRetry(20)));
    assert!(matches!(retry_step(false, ApiError::NotFound), RetryStep::GiveUp(ApiError::NotFound)));
    assert!(matches!(retry_step(false, ApiError::ServerError), RetryStep::GiveUp(ApiError::ServerError)));
    assert!(matches!(retry_step(true, ApiError::RateLimit(5)), RetryStep::GiveUp(ApiError::RateLimit(5))));
    assert!(matches!(retry_step(true, ApiError::TimedOut), RetryStep::GiveUp(ApiError::TimedOut)));
}

#[test]
fn autologin_request() {
    assert_eq!(pairs(&autologin_params("testlandia")), vec![("nation", "testlandia"), ("q", "ping")]);
}

#[test]
fn create_dispatch_requests() {
    let job = DispatchJob::new_create("testlandia", "My title", 1, 103, "Grüße");
    assert_eq!(
        pairs(&job.prepare_params()),
        vec![
            ("nation", "testlandia"),
            ("title", "My title"),
            ("text", "Gr&#252;&#223;e"),
            ("category", "1"),
            ("subcategory", "103"),
            ("c", "dispatch"),
            ("dispatch", "add"),
            ("mode", "prepare"),
        ]
    );
    assert!(job.execute_params("<ERROR>nope</ERROR>").is_none());
    let exec = job.execute_params("<SUCCESS>t0k</SUCCESS>").unwrap();
    assert_eq!(
        pairs(&exec),
        vec![
            ("nation", "testlandia"),
            ("title", "My title"),
            ("text", "Gr&#252;&#223;e"),
            ("category", "1"),
            ("subcategory", "103"),
            ("c", "dispatch"),
            ("dispatch", "add"),
            ("mode", "execute"),
            ("token", "t0k"),
        ]
    );
}

#[test]
fn edit_dispatch_requests() {
    let job = DispatchJob::new_edit("testlandia", "T", 3, 315, 987, "text");
    assert_eq!(
        pairs(&job.prepare_params()),
        vec![
            ("nation", "testlandia"),
            ("title", "T"),
            ("text", "text"),
            ("category", "3"),
            ("subcategory", "315"),
            ("dispatchid", "987"),
            ("c", "dispatch"),
            ("dispatch", "edit"),
            ("mode", "prepare"),
        ]
    );
    let exec = job.execute_params("<SUCCESS>abc</SUCCESS>").unwrap();
    assert_eq!(exec.last().map(|(a, b)| (a.as_str(), b.as_str())), Some(("token", "abc")));
    assert_eq!(exec[8].1, "execute");
}

#[test]
fn cache_set_and_read() {
    let mut cache = Cache::empty();
    assert_eq!(cache.id("a"), None);
    assert_eq!(cache.hash("a"), None);
    assert_eq!(cache.created_at("a"), None);
    cache.set("a".to_string(), CacheData::new(1, "h1".to_string(), 100));
    cache.set("b".to_string(), CacheData::new(2, "h2".to_string(), 200));
    assert_eq!(cache.id("a"), Some(1));
    assert_eq!(cache.hash("a"), Some("h1"));
    assert_eq!(cache.created_at("a"), Some(100));
    cache.set("a".to_string(), CacheData::new(5, "h5".to_string(), 500));
    assert_eq!(cache.id("a"), Some(5));
    assert_eq!(cache.created_at("a"), Some(500));
    assert_eq!(cache.id("b"), Some(2));
    let mut names = cache.dispatches();
    names.sort();
    assert_eq!(names, strings(&["a", "b"]));
}

#[test]
fn cache_update_keeps_creation_time() {
    let mut cache = Cache::empty();
    cache.update("a".to_string(), CacheData::new(1, "h1".to_string(), 100));
    assert_eq!(cache.created_at("a"), Some(100));
    cache.update("a".to_string(), CacheData::new(2, "h2".to_string(), 999));
    assert_eq!(cache.id("a"), Some(2));
    assert_eq!(cache.hash("a"), Some("h2"));
    assert_eq!(cache.created_at("a"), Some(100));
}

#[test]
fn credentials_set_get_remove() {
    let mut creds = Credentials::empty();
    assert!(creds.get("x").is_none());
    creds.set("x".to_string(), "t1".to_string());
    creds.set("y".to_string(), "t2".to_string());
    creds.set("x".to_string(), "t3".to_string());
    assert_eq!(creds.get("x").map(|s| s.as_str()), Some("t3"));
    assert_eq!(creds.get("y").map(|s| s.as_str()), Some("t2"));
    let mut keys = creds.keys();
    keys.sort();
    assert_eq!(keys, strings(&["x", "y"]));
    assert!(creds.remove("x"));
    assert!(!creds.remove("x"));
    assert!(creds.get("x").is_none());
    assert_eq!(creds.keys(), strings(&["y"]));
}

#[test]
fn table_in_rows() {
    let out = table(strings(&["a", "b", "c"]), 2);
    assert_eq!(out, "[table=noheader][tr][td]a[/td][td]b[/td][/tr][tr][td]c[/td][/tr][/table]");
    assert_eq!(table(Vec::new(), 3), "[table=noheader][/table]");
    assert_eq!(table(strings(&["a", "b"]), 5), "[table=noheader][tr][td]a[/td][td]b[/td][/tr][/table]");
}

#[test]
fn nation_table_in_rows() {
    let out = nation_table(strings(&["x", "y"]), 1);
    assert_eq!(
        out,
        "[table=noheader][tr][td][nation]x[/nation][/td][/tr][tr][td][nation]y[/nation][/td][/tr][/table]"
    );
}

#[test]
fn category_map_contents() {
    let m = create_category_map();
    let names: Vec<&str> = m.categories.iter().map(|c| c.name.as_str()).collect();
    assert_eq!(names, vec!["Factbook", "Bulletin", "Account", "Meta"]);
    assert_eq!(m.categories[0].subcategories.len(), 12);
    assert_eq!(m.categories[2].subcategories[7], ("Other".to_string(), 95));
}

#[test]
fn categories_parse() {
    assert!(matches!(parse_categories(&"Factbook/Overview".to_string()), Ok((1, 100))));
    assert!(matches!(parse_categories(&"Factbook/Miscellaneous".to_string()), Ok((1, 111))));
    assert!(matches!(parse_categories(&"Bulletin/Campaign".to_string()), Ok((3, 385))));
    assert!(matches!(parse_categories(&"Account/Culture".to_string()), Ok((5, 565))));
    assert!(matches!(parse_categories(&"Meta/Reference".to_string()), Ok((8, 845))));
}

#[test]
fn categories_errors() {
    match parse_categories(&"Factbook".to_string()) {
        Err(CategoryError::MissingSeparator(s)) => assert_eq!(s, "Factbook"),
        _ => panic!("expected a missing separator"),
    }
    match parse_categories(&"Nope/Overview".to_string()) {
        Err(CategoryError::UnknownCategory(s)) => assert_eq!(s, "Nope"),
        _ => panic!("expected an unknown category"),
    }
    match parse_categories(&"Meta/Overview/x".to_string()) {
        Err(CategoryError::UnknownSubcategory(s)) => assert_eq!(s, "Overview/x"),
        _ => panic!("expected an unknown subcategory"),
    }
}

#[test]
fn subcategory_encodes_category() {
    let m = create_category_map();
    for c in &m.categories {
        for (sub, _) in &c.subcategories {
            let s = format!("{}/{}", c.name, sub);
            match parse_categories(&s) {
                Ok((cat, subcat)) => {
                    assert_eq!(cat, c.id);
                    assert_eq!(subcat / 100, cat);
                }
                Err(_) => panic!("valid category {} refused", s),
            }
        }
    }
}

#[test]
fn path_extension_like_std() {
    for p in ["foo.txt", "a/b/c.json", "dir/.bashrc", "x.tar.gz", "a.", "noext", "/", "", "a/..", "a/b.toml/", "a/b.tmpl/.", ".", "./", "..."] {
        let expected = std::path::Path::new(p).extension().map(|e| e.to_string_lossy().to_string());
        assert_eq!(extension(p), expected, "path {:?}", p);
    }
}

#[test]
fn path_file_prefix() {
    assert_eq!(file_prefix("a/b/page.tmpl").as_deref(), Some("page"));
    assert_eq!(file_prefix("x.tar.gz").as_deref(), Some("x"));
    assert_eq!(file_prefix("dir/.bashrc").as_deref(), Some(".bashrc"));
    assert_eq!(file_prefix(".config.toml").as_deref(), Some(".config"));
    assert_eq!(file_prefix("noext").as_deref(), Some("noext"));
    assert_eq!(file_prefix("a/b/").as_deref(), Some("b"));
    assert_eq!(file_prefix("a/.."), None);
    assert_eq!(file_prefix("/"), None);
    assert_eq!(file_prefix(""), None);
}

#[test]
fn loader_file_kinds() {
    assert!(matches!(parameter_format("p/data.json"), Some(ParameterFormat::Json)));
    assert!(matches!(parameter_format("p/data.toml"), Some(ParameterFormat::Toml)));
    assert!(parameter_format("p/data.yaml").is_none());
    assert!(parameter_format("p/json").is_none());
    assert_eq!(supporting_template_name("layouts", "data/layouts/base.tmpl").as_deref(), Some("layouts/base"));
    assert_eq!(supporting_template_name("macros", "data/macros/a.b.tmpl").as_deref(), Some("macros/a"));
    assert_eq!(supporting_template_name("macros", "data/macros/readme.md"), None);
}

fn config(category: &str, id: Option<u64>) -> TemplateConfig {
    TemplateConfig {
        title: "Title".to_string(),
        category: category.to_string(),
        nation: "testlandia".to_string(),
        id,
        regenerate_after: Some(7),
    }
}

#[test]
fn template_metadata_collected() {
    let entries = vec![
        ("one".to_string(), config("Factbook/History", None)),
        ("two".to_string(), config("Bad", Some(3))),
        ("three".to_string(), config("Meta/Gameplay", Some(9))),
    ];
    let (templates, errors) = collect_template_metadata(entries);
    assert_eq!(templates.len(), 2);
    assert_eq!(templates[0].id, "one");
    assert_eq!((templates[0].category, templates[0].subcategory), (1, 101));
    assert_eq!(templates[0].regen, Some(7));
    assert_eq!(templates[1].id, "three");
    assert_eq!(templates[1].dispatchid, Some(9));
    assert_eq!((templates[1].category, templates[1].subcategory), (8, 835));
    assert_eq!(errors.len(), 1);
    assert!(matches!(&errors[0], CategoryError::MissingSeparator(s) if s == "Bad"));
}

fn template(id: &str, dispatchid: Option<u64>, regen: Option<u64>) -> TemplateMetadata {
    TemplateMetadata {
        id: id.to_string(),
        title: format!("{} title", id),
        category: 1,
        subcategory: 100,
        nation: "testlandia".to_string(),
        dispatchid,
        regen,
    }
}

#[test]
fn template_links() {
    let mut cache = Cache::empty();
    cache.set("cached".to_string(), CacheData::new(55, "h".to_string(), 0));
    let t1 = template("fixed", Some(12), None);
    let t2 = template("cached", None, None);
    let t3 = template("new", None, None);
    assert_eq!(t1.to_obj(&cache).url, "https://www.nationstates.net/page=dispatch/id=12");
    assert_eq!(t2.to_obj(&cache).url, "https://www.nationstates.net/page=dispatch/id=55");
    assert_eq!(t3.to_obj(&cache).url, "https://www.nationstates.net");
    assert_eq!(t3.to_obj(&cache).title, "new title");
    let ctx = TemplateMetadata::make_context(&vec![t1, t3], &cache);
    assert_eq!(ctx.len(), 2);
    assert_eq!(ctx[0].0, "fixed");
    assert_eq!(ctx[1].1.url, "https://www.nationstates.net");
}

#[test]
fn user_agent_format() {
    assert_eq!(format_user_agent("Testlandia".to_string()), "hive/0.1.0 by Merethin, used by Testlandia");
}

#[test]
fn regeneration_schedule() {
    let mut cache = Cache::empty();
    cache.set("t".to_string(), CacheData::new(1, "h".to_string(), 1_000_000));
    let day = 86_400;
    assert!(!should_regenerate(&template("t", None, None), &cache, 1_000_000 + 100 * day));
    assert!(!should_regenerate(&template("u", None, Some(1)), &cache, 1_000_000 + 100 * day));
    assert!(!should_regenerate(&template("t", None, Some(7)), &cache, 1_000_000 + 7 * day - 1));
    assert!(should_regenerate(&template("t", None, Some(7)), &cache, 1_000_000 + 7 * day));
    assert!(should_regenerate(&template("t", None, Some(0)), &cache, 1_000_000));
}

#[test]
fn content_hash_is_sha256_hex() {
    assert_eq!(content_hash("abc"), "ba7816bf8f01cfea414140de5dae2223b00361a396177a9cb410ff61f20015ad");
    assert_eq!(content_hash(""), "e3b0c44298fc1c149afbf4c8996fb92427ae41e4649b934ca495991b7852b855");
}

#[test]
fn hex_of_bytes() {
    assert_eq!(hex_string(&vec![0x00, 0x0f, 0xa5, 0xff]), "000fa5ff");
    assert_eq!(hex_string(&Vec::new()), "");
}

#[test]
fn update_plans() {
    let mut cache = Cache::empty();
    cache.set("t".to_string(), CacheData::new(40, "same".to_string(), 0));
    let plain = template("t", None, Some(3));
    assert!(matches!(plan_update(&plain, &cache, false, "same"), UpdatePlan::Unchanged));
    assert!(matches!(plan_update(&plain, &cache, false, "other"), UpdatePlan::Edit(40)));
    assert!(matches!(plan_update(&plain, &cache, true, "same"), UpdatePlan::Create));
    let fixed = template("t", Some(77), None);
    assert!(matches!(plan_update(&fixed, &cache, true, "same"), UpdatePlan::Edit(77)));
    assert!(matches!(plan_update(&fixed, &cache, false, "other"), UpdatePlan::Edit(77)));
    let fresh = template("fresh", None, None);
    assert!(matches!(plan_update(&fresh, &cache, false, "x"), UpdatePlan::Create));
}

#[test]
fn publishing_is_recorded() {
    let mut cache = Cache::empty();
    record_published(&mut cache, "t".to_string(), &UpdatePlan::Create, 10, "h1".to_string(), 1000);
    assert_eq!((cache.id("t"), cache.hash("t"), cache.created_at("t")), (Some(10), Some("h1"), Some(1000)));
    record_published(&mut cache, "t".to_string(), &UpdatePlan::Edit(10), 11, "h2".to_string(), 2000);
    assert_eq!((cache.id("t"), cache.hash("t"), cache.created_at("t")), (Some(11), Some("h2"), Some(1000)));
    record_published(&mut cache, "t".to_string(), &UpdatePlan::Create, 12, "h3".to_string(), 3000);
    assert_eq!((cache.id("t"), cache.hash("t"), cache.created_at("t")), (Some(12), Some("h3"), Some(3000)));
}

#[test]
fn parameter_files_parse() {
    match parameter_entry("params/nations.json", "{\"a\": [1, 2], \"b\": \"x\"}") {
        Some(Some((Some(key), value))) => {
            assert_eq!(key, "nations");
            assert_eq!(value["a"][1].as_u64(), Some(2));
            assert_eq!(value["b"].as_str(), Some("x"));
        }
        _ => panic!("expected a parsed JSON parameter file"),
    }
    match parameter_entry("params/extra.data.toml", "title = \"T\"\n[sub]\nn = 3\n") {
        Some(Some((Some(key), value))) => {
            assert_eq!(key, "extra");
            assert_eq!(value["title"].as_str(), Some("T"));
            assert_eq!(value["sub"]["n"].as_i64(), Some(3));
        }
        _ => panic!("expected a parsed TOML parameter file"),
    }
    assert!(matches!(parameter_entry("params/bad.json", "{not json"), Some(None)));
    assert!(matches!(parameter_entry("params/bad.toml", "= ="), Some(None)));
    assert!(parameter_entry("params/readme.md", "{}").is_none());
}

#[test]
fn retry_state_allows_one_wait() {
    let mut state = RetryState::new();
    assert!(matches!(state.on_failure(ApiError::TimedOut), RetryStep::WaitThenRetry(20)));
    assert!(matches!(state.on_failure(ApiError::TimedOut), RetryStep::GiveUp(ApiError::TimedOut)));
    assert!(matches!(state.on_failure(ApiError::RateLimit(3)), RetryStep::GiveUp(ApiError::RateLimit(3))));

    let mut other = RetryState::new();
    assert!(matches!(other.on_failure(ApiError::NotFound), RetryStep::GiveUp(ApiError::NotFound)));
    assert!(matches!(other.on_failure(ApiError::RateLimit(4)), RetryStep::WaitThenRetry(4)));
    assert!(matches!(other.on_failure(ApiError::ServerError), RetryStep::GiveUp(ApiError::ServerError)));
}
