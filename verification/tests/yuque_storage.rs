use zhaomu::errors::PlannerError;
use zhaomu::storage::{migration_pending, storage_directories, temp_file_name, FileReplace, Migration};
use zhaomu::yuque::{
    api_base, created_doc_url, docs_create_url, docs_list_url, request_failure_message,
    status_is_success, yuque_config, yuque_docs, yuque_settings, yuque_target, Json, YuqueTarget,
};

fn s(x: &str) -> String {
    x.to_string()
}

fn obj(fields: Vec<(&str, Json)>) -> Json {
    Json::Object(fields.into_iter().map(|(k, v)| (s(k), v)).collect())
}

fn target(host: &str) -> YuqueTarget {
    YuqueTarget { host: s(host), login: s("me"), repo: s("notes"), token: s("SECRET-REDACTED") }
}

fn text_of(v: &Option<Json>) -> Option<String> {
    match v {
        Some(Json::Str(t)) => Some(t.clone()),
        Some(Json::Number(n)) => Some(n.clone()),
        _ => None,
    }
}

#[test]
fn config_defaults() {
    let c = yuque_config(None, None, None, None);
    assert_eq!(c.host, "https://www.yuque.com");
    assert_eq!(c.login, "");
    assert_eq!(c.repo, "");
    assert!(!c.token_configured);
    let c = yuque_config(Some(s("https://x.example")), Some(s("u")), Some(s("r")), Some(s("t")));
    assert_eq!((c.host.as_str(), c.login.as_str(), c.repo.as_str(), c.token_configured), ("https://x.example", "u", "r", true));
}

#[test]
fn settings_are_normalized() {
    let st = yuque_settings("https://x.example///", " me ", " repo\n", "   ");
    assert_eq!(st.host, "https://x.example");
    assert_eq!(st.login, "me");
    assert_eq!(st.repo, "repo");
    assert_eq!(st.token, None);
    let st = yuque_settings(" https://x.example/ ", "me", "repo", " abc ");
    assert_eq!(st.host, " https://x.example/ ");
    assert_eq!(st.token, Some(s("abc")));
}

#[test]
fn target_needs_token_then_account() {
    assert!(matches!(yuque_target(None, None, None, None), Err(PlannerError::YuqueTokenMissing)));
    assert!(matches!(yuque_target(None, Some(s("me")), None, Some(s("t"))), Err(PlannerError::YuqueTargetIncomplete)));
    assert!(matches!(yuque_target(None, Some(s("")), Some(s("r")), Some(s("t"))), Err(PlannerError::YuqueTargetIncomplete)));
    let t = yuque_target(None, Some(s("me")), Some(s("r")), Some(s("t"))).unwrap();
    assert_eq!((t.host.as_str(), t.login.as_str(), t.repo.as_str(), t.token.as_str()), ("https://www.yuque.com", "me", "r", "t"));
}

#[test]
fn api_base_adds_version_once() {
    assert_eq!(api_base("https://www.yuque.com"), "https://www.yuque.com/api/v2");
    assert_eq!(api_base("https://www.yuque.com/api/v2"), "https://www.yuque.com/api/v2");
    let once = api_base("https://h");
    assert_eq!(api_base(&once), once);
}

#[test]
fn request_urls() {
    assert_eq!(docs_list_url(&target("https://www.yuque.com")), "https://www.yuque.com/api/v2/repos/me/notes/docs?limit=100");
    assert_eq!(docs_create_url(&target("https://h/api/v2")), "https://h/api/v2/repos/me/notes/docs");
}

#[test]
fn doc_list_reads_data_array() {
    let reply = obj(vec![
        ("meta", Json::Null),
        (
            "data",
            Json::Array(vec![
                obj(vec![
                    ("id", Json::Number(s("12"))),
                    ("title", Json::Str(s("A"))),
                    ("slug", Json::Str(s("a"))),
                    ("content_updated_at", Json::Str(s("2024-01-02"))),
                    ("updated_at", Json::Str(s("2024-01-01"))),
                ]),
                obj(vec![("updated_at", Json::Str(s("2023"))), ("title", Json::Str(s("B")))]),
                Json::Str(s("odd")),
            ]),
        ),
    ]);
    let docs = yuque_docs(reply);
    assert_eq!(docs.len(), 3);
    assert_eq!(text_of(&docs[0].id), Some(s("12")));
    assert_eq!(text_of(&docs[0].title), Some(s("A")));
    assert_eq!(text_of(&docs[0].slug), Some(s("a")));
    assert_eq!(text_of(&docs[0].updated_at), Some(s("2024-01-02")));
    assert_eq!(text_of(&docs[1].updated_at), Some(s("2023")));
    assert!(docs[1].id.is_none());
    assert!(docs[2].title.is_none() && docs[2].updated_at.is_none());
}

#[test]
fn doc_list_without_array_is_empty() {
    assert!(yuque_docs(obj(vec![("data", Json::Str(s("x")))])).is_empty());
    assert!(yuque_docs(Json::Null).is_empty());
    let reply = obj(vec![("data", Json::Array(vec![obj(vec![("content_updated_at", Json::Null), ("updated_at", Json::Str(s("u")))])]))]);
    let docs = yuque_docs(reply);
    assert!(matches!(docs[0].updated_at, Some(Json::Null)));
}

#[test]
fn created_document_url() {
    let reply = obj(vec![("data", obj(vec![("slug", Json::Str(s("abc")))]))]);
    assert_eq!(created_doc_url(&target("https://www.yuque.com"), reply), "https://www.yuque.com/me/notes/abc");
    let reply = obj(vec![("data", obj(vec![("slug", Json::Number(s("1")))]))]);
    assert_eq!(created_doc_url(&target("https://h/api/v2"), reply), "https://h/api/v2/me/notes/");
}

#[test]
fn status_and_failure_message() {
    assert!(status_is_success(200) && status_is_success(299));
    assert!(!status_is_success(199) && !status_is_success(300) && !status_is_success(404));
    assert_eq!(request_failure_message(true, "404 Not Found"), "语雀连接失败：404 Not Found");
    assert_eq!(request_failure_message(false, "500 Internal Server Error"), "创建语雀文档失败：500 Internal Server Error");
}

#[test]
fn storage_layout_and_migrations() {
    assert_eq!(storage_directories(), vec!["database", "notes", "daily", "assets/images", "assets/attachments", "backups", "config"]);
    assert!(migration_pending(1, Migration::Projects));
    assert!(!migration_pending(2, Migration::Projects));
    assert!(migration_pending(2, Migration::SchedulesAndKnowledge));
    assert!(!migration_pending(3, Migration::SchedulesAndKnowledge));
}

fn run(start: FileReplace, outcomes: &[bool]) -> (Vec<&'static str>, Option<Result<(), String>>) {
    let mut state = start;
    let mut seen = Vec::new();
    let mut i = 0;
    while !state.is_done() {
        seen.push(match state {
            FileReplace::CreateParent => "parent",
            FileReplace::CreateTemp => "create",
            FileReplace::WriteTemp => "write",
            FileReplace::SyncTemp => "sync",
            FileReplace::InstallTemp => "install",
            FileReplace::RemoveTemp { .. } => "remove-temp",
            FileReplace::Finished { .. } => "done",
        });
        state = state.next(outcomes[i], format!("step {i} failed"));
        i += 1;
    }
    (seen, state.into_result())
}

#[test]
fn replacing_a_file_in_one_rename() {
    let (seen, result) = run(FileReplace::start(true), &[true, true, true, true, true]);
    assert_eq!(seen, vec!["parent", "create", "write", "sync", "install"]);
    assert_eq!(result, Some(Ok(())));
}

#[test]
fn writing_without_parent_directory() {
    let (seen, result) = run(FileReplace::start(false), &[true, true, true, true]);
    assert_eq!(seen, vec!["create", "write", "sync", "install"]);
    assert_eq!(result, Some(Ok(())));
}

#[test]
fn failed_install_removes_the_temporary_file() {
    let (seen, result) = run(FileReplace::start(true), &[true, true, true, true, false, false]);
    assert_eq!(seen, vec!["parent", "create", "write", "sync", "install", "remove-temp"]);
    assert_eq!(result, Some(Err(s("step 4 failed"))));
}

#[test]
fn failed_sync_never_installs() {
    let (seen, result) = run(FileReplace::start(false), &[true, true, false, true]);
    assert_eq!(seen, vec!["create", "write", "sync", "remove-temp"]);
    assert_eq!(result, Some(Err(s("step 2 failed"))));
}

#[test]
fn taken_temporary_name_deletes_nothing() {
    let (seen, result) = run(FileReplace::start(false), &[false]);
    assert_eq!(seen, vec!["create"]);
    assert_eq!(result, Some(Err(s("step 0 failed"))));
}

#[test]
fn temporary_file_names() {
    assert_eq!(temp_file_name("note.md", "17-3"), ".note.md.17-3.tmp");
    assert_ne!(temp_file_name("note.md", "17-3"), "note.md");
    assert_ne!(temp_file_name("note.md", "17-3"), temp_file_name("note.md", "17-4"));
}
