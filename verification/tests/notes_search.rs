use zhaomu::documents::{
    accept_notes_root, ascii_lowercase, check_document_path, check_note_image, check_resolved_path, custom_notes_root, daily_note_location,
    open_daily_note,
    daily_note_template, document_plan, note_image_format, note_image_names, notes_root_target,
};
use zhaomu::errors::PlannerError;
use zhaomu::search::{note_body_matches, search_terms, SearchHit, SearchMerge};

fn s(x: &str) -> String {
    x.to_string()
}

#[test]
fn note_under_parent_gets_markdown_file() {
    let plan = document_plan("  Rust 笔记 ", None, Some(s("学习")));
    assert_eq!(plan.kind, "note");
    assert!(!plan.is_folder);
    assert_eq!(plan.title, "Rust 笔记");
    assert_eq!(plan.relative_path, "学习/Rust 笔记.md");
    assert_eq!(plan.initial_content, "# Rust 笔记\n\n");
}

#[test]
fn folder_without_parent_is_its_name() {
    let plan = document_plan("a/b", Some(s("folder")), None);
    assert!(plan.is_folder);
    assert_eq!(plan.relative_path, "a_b");
    let plan = document_plan("..", Some(s("page")), None);
    assert_eq!(plan.kind, "page");
    assert_eq!(plan.relative_path, "未命名.md");
}

#[test]
fn daily_note_path_from_date() {
    let loc = daily_note_location("2024-05-06").unwrap();
    assert_eq!(loc.year, "2024");
    assert_eq!(loc.month, "05");
    assert_eq!(loc.file_name, "2024-05-06.md");
    assert_eq!(loc.relative_path, "2024/05/2024-05-06.md");
}

#[test]
fn daily_note_date_needs_three_parts() {
    assert!(matches!(daily_note_location("2024-05"), Err(PlannerError::DateFormatInvalid)));
    assert!(matches!(daily_note_location("2024-05-06-07"), Err(PlannerError::DateFormatInvalid)));
    assert!(matches!(daily_note_location("20240506"), Err(PlannerError::DateFormatInvalid)));
    let loc = daily_note_location("a--b").unwrap();
    assert_eq!(loc.relative_path, "a//a--b.md");
}

#[test]
fn daily_note_date_stays_inside_notes_root() {
    assert!(matches!(daily_note_location("../x-y-z"), Err(PlannerError::DateFormatInvalid)));
    assert!(matches!(daily_note_location("..-05-06"), Err(PlannerError::DateFormatInvalid)));
    assert!(matches!(daily_note_location("-05-06"), Err(PlannerError::DateFormatInvalid)));
    assert!(matches!(daily_note_location("2024-05-0:6"), Err(PlannerError::DateFormatInvalid)));
    assert!(matches!(daily_note_location("2024-05-06/../../.."), Err(PlannerError::DateFormatInvalid)));
    assert!(matches!(daily_note_location("/2024-05-06"), Err(PlannerError::DateFormatInvalid)));
    assert_eq!(daily_note_location("1-2-3/").unwrap().relative_path, "1/2/1-2-3/.md");
    assert_eq!(daily_note_location("2024-0\\5-06").unwrap().relative_path, "2024/0\\5/2024-0\\5-06.md");
    assert_eq!(daily_note_location("x.-..y-z").unwrap().relative_path, "x./..y/x.-..y-z.md");
    let loc = daily_note_location("2024-05-06").unwrap();
    assert_eq!(loc.relative_path, "2024/05/2024-05-06.md");
}

#[test]
fn daily_note_template_text() {
    assert_eq!(
        daily_note_template("2024-05-06"),
        "# 2024-05-06\n\n## 今日计划\n\n- [ ] \n\n## 今日学习\n\n## 今天学到了什么\n\n## 遇到的问题\n\n## 今日总结\n\n## 明日计划\n"
    );
}

#[test]
fn image_format_rules() {
    assert_eq!(note_image_format(0, Some(s("png"))), Err(PlannerError::ImageSizeInvalid));
    assert_eq!(note_image_format(25 * 1024 * 1024 + 1, Some(s("png"))), Err(PlannerError::ImageSizeInvalid));
    assert_eq!(note_image_format(25 * 1024 * 1024, Some(s("PNG"))), Ok(s("png")));
    assert_eq!(note_image_format(10, None), Ok(s("png")));
    assert_eq!(note_image_format(10, Some(s("JpEg"))), Ok(s("jpeg")));
    assert_eq!(note_image_format(10, Some(s("bmp"))), Err(PlannerError::ImageFormatUnsupported));
    assert_eq!(ascii_lowercase("ÀBc"), "Àbc");
}

#[test]
fn image_extension_is_read_from_the_name() {
    assert_eq!(check_note_image(10, "photo.JPG"), Ok(s("jpg")));
    assert_eq!(check_note_image(10, "archive.tar.gif"), Ok(s("gif")));
    assert_eq!(check_note_image(10, "noext"), Ok(s("png")));
    assert_eq!(check_note_image(10, ".png"), Ok(s("png")));
    assert_eq!(check_note_image(10, "x.svg"), Err(PlannerError::ImageFormatUnsupported));
    assert_eq!(check_note_image(0, "x.svg"), Err(PlannerError::ImageSizeInvalid));
}

#[test]
fn image_names_from_date_and_id() {
    let (name, link) = note_image_names("2024-05-06", "0123456789abcdef0123456789abcdef", "webp");
    assert_eq!(name, "2024-05-06-0123456789abcdef0123456789abcdef.webp");
    assert_eq!(link, "../assets/images/2024-05-06-0123456789abcdef0123456789abcdef.webp");
    let (other, _) = note_image_names("2024-05-06", "fedcba9876543210fedcba9876543210", "webp");
    assert_ne!(name, other);
}

#[test]
fn image_extension_with_trailing_separator() {
    // the file name ignores a trailing separator, so the extension is still read
    assert_eq!(check_note_image(10, "a.png/."), Ok(s("png")));
    assert_eq!(check_note_image(10, "a.bmp/"), Err(PlannerError::ImageFormatUnsupported));
    assert_eq!(check_note_image(10, "a."), Err(PlannerError::ImageFormatUnsupported));
}

#[test]
fn daily_note_template_only_for_missing_file() {
    let (text, write) = open_daily_note(None, "2024-05-06");
    assert!(write);
    assert_eq!(text, daily_note_template("2024-05-06"));
    let (text, write) = open_daily_note(Some(s("我的笔记")), "2024-05-06");
    assert!(!write);
    assert_eq!(text, "我的笔记");
    let (text, write) = open_daily_note(Some(s("")), "2024-05-06");
    assert!(!write);
    assert_eq!(text, "");
}

#[test]
fn notes_root_setting() {
    assert_eq!(custom_notes_root(None), None);
    assert_eq!(custom_notes_root(Some(s("  "))), None);
    assert_eq!(custom_notes_root(Some(s(" /data/notes "))), Some(s(" /data/notes ")));
    assert_eq!(accept_notes_root(s("rel"), false), Err(PlannerError::PathNotAbsolute));
    assert_eq!(accept_notes_root(s("/abs"), true), Ok(s("/abs")));
}

#[test]
fn notes_root_target_needs_absolute_path() {
    let absolute = if std::path::Path::new("/srv/notes").is_absolute() { "  /srv/notes " } else { "  C:\\notes " };
    let expected = absolute.trim().to_string();
    assert_eq!(notes_root_target(absolute), Ok(expected));
    assert_eq!(notes_root_target("notes"), Err(PlannerError::PathNotAbsolute));
    assert_eq!(notes_root_target(" notes/dir "), Err(PlannerError::PathNotAbsolute));
    assert_eq!(notes_root_target("./笔记/a.md"), Err(PlannerError::PathNotAbsolute));
    assert_eq!(notes_root_target("   "), Err(PlannerError::PathNotAbsolute));
}

#[test]
fn search_terms_from_query() {
    let terms = search_terms("  Rust 所有权 ");
    assert_eq!(terms.needle, "rust 所有权");
    assert_eq!(terms.like, "%Rust 所有权%");
}

#[test]
fn note_body_match_ignores_case() {
    assert!(note_body_matches("Hello WORLD", "world"));
    assert!(note_body_matches("ÄRGER", "ärger"));
    assert!(!note_body_matches("Hello", "bye"));
}

fn hit(kind: &str, id: &str) -> SearchHit {
    SearchHit { kind: s(kind), id: s(id), title: s("t"), subtitle: s("d") }
}

#[test]
fn search_merge_skips_found_notes_and_appends_matches() {
    let mut merge = SearchMerge::new(vec![hit("task", "a"), hit("note", "n1")]);
    assert!(!merge.wants("n1"));
    assert!(merge.wants("n2"));
    assert!(merge.offer_note(s("n2"), s("Two"), s("two.md"), true));
    assert!(merge.offer_note(s("n3"), s("Three"), s("three.md"), false));
    let hits = merge.into_hits();
    let ids: Vec<&str> = hits.iter().map(|h| h.id.as_str()).collect();
    assert_eq!(ids, vec!["a", "n1", "n2"]);
    assert_eq!(hits[2].kind, "note");
    assert_eq!(hits[2].subtitle, "two.md");
}

#[test]
fn search_merge_stops_at_limit() {
    let first: Vec<SearchHit> = (0..29).map(|i| hit("task", &i.to_string())).collect();
    let mut merge = SearchMerge::new(first);
    assert!(!merge.offer_note(s("n"), s("N"), s("n.md"), true));
    let mut full = SearchMerge::new((0..30).map(|i| hit("task", &i.to_string())).collect());
    assert!(!full.offer_note(s("m"), s("M"), s("m.md"), true));
    assert_eq!(full.into_hits().len(), 31);
}

#[test]
fn accepted_notes_root_is_used() {
    let entered = if std::path::Path::new("/srv/notes").is_absolute() { " /srv/notes\t" } else { " C:\\notes\t" };
    let stored = notes_root_target(entered).unwrap();
    assert_eq!(custom_notes_root(Some(stored.clone())), Some(stored));
}

#[test]
fn document_paths_outside_notes_are_refused() {
    let outside = Err(PlannerError::DocumentPathOutside);
    assert_eq!(check_document_path(""), outside);
    assert_eq!(check_document_path("/etc/passwd"), outside);
    assert_eq!(check_document_path("\\server\\share.md"), outside);
    assert_eq!(check_document_path("C:\\notes\\a.md"), outside);
    assert_eq!(check_document_path(".."), outside);
    assert_eq!(check_document_path("../a.md"), outside);
    assert_eq!(check_document_path("学习/../../a.md"), outside);
    assert_eq!(check_document_path("学习\\..\\a.md"), outside);
    assert_eq!(check_document_path("学习/.."), outside);
    assert_eq!(check_document_path("学习/Rust 笔记.md"), Ok(()));
    assert_eq!(check_document_path("a..b/..c/d...md"), Ok(()));
    assert_eq!(PlannerError::DocumentPathOutside.message(), "文档路径超出笔记目录");
}

#[test]
fn new_documents_stay_inside_notes() {
    for title in ["..", "../..", "a/../b", "C:\\x", "  .hidden  ", ""] {
        let plan = document_plan(title, None, None);
        assert_eq!(check_document_path(&plan.relative_path), Ok(()));
        let nested = document_plan(title, Some(s("folder")), Some(plan.relative_path.clone()));
        assert_eq!(check_document_path(&nested.relative_path), Ok(()));
    }
}

#[test]
fn image_extension_of_names_with_directories() {
    assert_eq!(check_note_image(10, "photos/cat.png"), Ok(s("png")));
    assert_eq!(check_note_image(10, "photos/2024/cat.WEBP"), Ok(s("webp")));
    assert_eq!(check_note_image(10, "photos.bmp/cat"), Ok(s("png")));
    assert_eq!(check_note_image(10, "a/b.bmp/./"), Err(PlannerError::ImageFormatUnsupported));
    assert_eq!(check_note_image(10, "x.bmp/.."), Ok(s("png")));
    assert_eq!(check_note_image(10, "/abs/dir/.hidden"), Ok(s("png")));
}

fn parts(v: &[&str]) -> Vec<String> {
    v.iter().map(|x| x.to_string()).collect()
}

#[test]
fn resolved_paths_must_stay_under_root() {
    let root = parts(&["/", "home", "me", "notes"]);
    assert_eq!(check_resolved_path(&root, &parts(&["/", "home", "me", "notes", "a.md"])), Ok(()));
    assert_eq!(check_resolved_path(&root, &root), Ok(()));
    assert_eq!(check_resolved_path(&root, &parts(&["/", "etc", "passwd"])), Err(PlannerError::DocumentPathOutside));
    assert_eq!(check_resolved_path(&root, &parts(&["/", "home", "me"])), Err(PlannerError::DocumentPathOutside));
    assert_eq!(
        check_resolved_path(&root, &parts(&["/", "home", "me", "notes2", "a.md"])),
        Err(PlannerError::DocumentPathOutside)
    );
}
