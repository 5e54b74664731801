use pinakey::mactab::{expand_placeholders, expand_with, LocalDateTime, MacroTable, DEFAULT_DATE_FORMAT, DEFAULT_TIME_FORMAT};

fn now() -> LocalDateTime {
    LocalDateTime { year: 2026, month: 7, day: 2, hour: 14, minute: 30, second: 5 }
}

#[test]
fn expands_date_and_time_with_default_formats() {
    assert_eq!(
        expand_placeholders("hôm nay $DATE lúc $TIME", now(), DEFAULT_DATE_FORMAT, DEFAULT_TIME_FORMAT),
        "hôm nay 02/07/2026 lúc 14:30"
    );
}

#[test]
fn expands_with_custom_strftime_formats() {
    assert_eq!(expand_placeholders("$DATE $TIME", now(), "%Y-%m-%d", "%H:%M:%S"), "2026-07-02 14:30:05");
}

#[test]
fn double_dollar_escapes_to_literal() {
    assert_eq!(
        expand_placeholders("$$TIME còn $TIME", now(), DEFAULT_DATE_FORMAT, DEFAULT_TIME_FORMAT),
        "$TIME còn 14:30"
    );
    assert_eq!(expand_placeholders("$$DATE", now(), DEFAULT_DATE_FORMAT, DEFAULT_TIME_FORMAT), "$DATE");
}

#[test]
fn unrelated_dollars_kept_verbatim() {
    assert_eq!(
        expand_placeholders("giá $5, $FOO, cuối câu $", now(), DEFAULT_DATE_FORMAT, DEFAULT_TIME_FORMAT),
        "giá $5, $FOO, cuối câu $"
    );
    assert_eq!(expand_placeholders("$TIME$DATE", now(), DEFAULT_DATE_FORMAT, DEFAULT_TIME_FORMAT), "14:3002/07/2026");
}

#[test]
fn invalid_format_falls_back_to_default() {
    assert_eq!(expand_placeholders("$DATE", now(), "%!", DEFAULT_TIME_FORMAT), "02/07/2026");
    assert_eq!(expand_placeholders("$TIME", now(), DEFAULT_DATE_FORMAT, "%!"), "14:30");
}

#[test]
fn text_without_placeholders_unchanged() {
    assert_eq!(expand_placeholders("xin chào", now(), DEFAULT_DATE_FORMAT, DEFAULT_TIME_FORMAT), "xin chào");
}

#[test]
fn leap_day_and_lowercase_words_stay() {
    let d = LocalDateTime { year: 2024, month: 2, day: 29, hour: 0, minute: 0, second: 0 };
    assert_eq!(expand_placeholders("$DATE $date $DAT", d, DEFAULT_DATE_FORMAT, DEFAULT_TIME_FORMAT), "29/02/2024 $date $DAT");
}

#[test]
fn macro_table_from_text() {
    let mut m = MacroTable::new(true);
    m.load_from_str("; comment\nVN : Việt Nam\nHELLO:xin chào\n");
    assert!(m.has_key("vn"));
    assert!(m.has_key("VN"));
    assert_eq!(m.get_text("hello"), "xin chào");
    assert!(m.has_prefix("he"));
    assert!(!m.has_prefix("zzz"));
}

#[test]
fn substitution_with_given_texts() {
    assert_eq!(expand_with("hôm nay $DATE lúc $TIME", "D", "T"), "hôm nay D lúc T");
    assert_eq!(expand_with("$$DATE $DATE$TIME $", "x", "y"), "$DATE xy $");
    assert_eq!(expand_with("$FOO $DAT", "x", "y"), "$FOO $DAT");
    assert_eq!(expand_with("", "x", "y"), "");
}
