use zhaomu::errors::PlannerError;
use zhaomu::names::{knowledge_file_location, knowledge_root, path_to_string, safe_name, text_path, KNOWLEDGE_ROOT};
use zhaomu::numbers::{decimal_text, parse_unsigned_text, parse_usize};
use zhaomu::text::{contains_chars, split_chars, str_chars, str_eq, trim_str};

#[test]
fn safe_name_replaces_reserved_characters() {
    assert_eq!(safe_name("a<b>c:d\"e/f\\g|h?i*j"), "a_b_c_d_e_f_g_h_i_j");
}

#[test]
fn safe_name_trims_whitespace_then_dots() {
    assert_eq!(safe_name("  ..hidden..  "), "hidden");
    assert_eq!(safe_name("\u{3000}笔记\t"), "笔记");
}

#[test]
fn safe_name_blank_becomes_unnamed() {
    assert_eq!(safe_name(""), "未命名");
    assert_eq!(safe_name("   "), "未命名");
    assert_eq!(safe_name("..."), "未命名");
}

#[test]
fn safe_name_cuts_to_eighty_characters() {
    let long: String = "字".repeat(100);
    let name = safe_name(&long);
    assert_eq!(name.chars().count(), 80);
    assert_eq!(name, "字".repeat(80));
}

#[test]
fn safe_name_keeps_inner_space_after_leading_dot() {
    // dots are stripped after the whitespace, so a space can lead the result
    assert_eq!(safe_name(". a"), " a");
    assert_eq!(safe_name(" a"), "a");
}

#[test]
fn safe_name_result_is_a_safe_component() {
    for title in ["..", ".", "../etc/passwd", "a/b", "C:\\x", "  .  ", "ok name"] {
        let name = safe_name(title);
        assert!(!name.is_empty());
        assert!(name.chars().count() <= 80);
        assert!(!name.starts_with('.'));
        assert!(!name.chars().any(|c| "<>:\"/\\|?*".contains(c)));
    }
}

#[test]
fn knowledge_root_is_the_fixed_directory() {
    assert_eq!(path_to_string(knowledge_root()), KNOWLEDGE_ROOT);
    assert_eq!(KNOWLEDGE_ROOT, "E:\\朝暮数据\\knowledge");
}

#[test]
fn knowledge_file_location_uses_id_prefix_and_safe_names() {
    let loc = knowledge_file_location(" 编程 ", "Rust/入门", "0123456789abcdef0123456789abcdef", "lesson?.pdf");
    assert_eq!(loc.big, "编程");
    assert_eq!(loc.small, "Rust_入门");
    assert_eq!(loc.id_prefix, "01234567");
    assert_eq!(loc.clean_name, "lesson_.pdf");
    assert_eq!(loc.file, "01234567-lesson_.pdf");
}

#[test]
fn trim_uses_unicode_whitespace() {
    assert_eq!(trim_str("\u{2003} a b \u{85}\n"), "a b");
    assert_eq!(trim_str("x"), "x");
}

#[test]
fn text_helpers_compare_and_search() {
    assert!(str_eq("abc", "abc"));
    assert!(!str_eq("abc", "abd"));
    let hay = str_chars("hello world");
    assert!(contains_chars(&hay, &str_chars("o w")));
    assert!(!contains_chars(&hay, &str_chars("ow")));
    assert!(contains_chars(&hay, &str_chars("")));
}

#[test]
fn split_keeps_empty_pieces() {
    let parts = split_chars(&str_chars("a--b"), '-');
    let texts: Vec<String> = parts.iter().map(|p| p.iter().collect()).collect();
    assert_eq!(texts, vec!["a", "", "b"]);
    assert_eq!(split_chars(&str_chars(""), '-').len(), 1);
}

#[test]
fn parse_follows_str_parse() {
    assert_eq!(parse_usize("7"), Some(7));
    assert_eq!(parse_usize("+7"), Some(7));
    assert_eq!(parse_usize("007"), Some(7));
    assert_eq!(parse_usize(""), None);
    assert_eq!(parse_usize("+"), None);
    assert_eq!(parse_usize("-1"), None);
    assert_eq!(parse_usize(" 7"), None);
    assert_eq!(parse_unsigned_text("18446744073709551615", u64::MAX), Some(u64::MAX));
    assert_eq!(parse_unsigned_text("18446744073709551616", u64::MAX), None);
    assert_eq!(parse_unsigned_text("300", 255), None);
    assert_eq!(parse_unsigned_text("255", 255), Some(255));
}

#[test]
fn decimal_text_writes_digits() {
    assert_eq!(decimal_text(0), "0");
    assert_eq!(decimal_text(1700000000123), "1700000000123");
    assert_eq!(decimal_text(u128::MAX), u128::MAX.to_string());
}

#[test]
fn decimal_round_trip_on_values() {
    for n in [0u64, 9, 10, 86400, 1_700_000_000, u64::MAX] {
        assert_eq!(parse_unsigned_text(&decimal_text(n as u128), u64::MAX), Some(n));
    }
}

#[test]
fn error_messages_are_the_user_texts() {
    assert_eq!(PlannerError::TaskTitleEmpty.message(), "任务标题不能为空");
    assert_eq!(PlannerError::FileTooLarge.message(), "单个文档不能超过 100MB");
    assert_eq!(PlannerError::YuqueTokenMissing.message(), "请先配置语雀 Token");
    assert_eq!(PlannerError::YuqueTargetIncomplete.message(), "请填写语雀账号/空间和知识库路径");
    assert_eq!(PlannerError::StudyMinutesNotPositive.message(), "学习时间必须大于 0");
}

#[test]
fn path_made_from_text_reads_back() {
    for text in ["", "/srv/笔记", "C:\\notes\\a.md", "a/./b/../c", " spaced "] {
        assert_eq!(path_to_string(text_path(text)), text);
        assert_eq!(text_path(text), std::path::PathBuf::from(text));
    }
}
