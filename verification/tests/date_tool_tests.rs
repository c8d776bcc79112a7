use mojentic::date_tool::SimpleDateTool;

#[test]
fn test_extract_days_offset() {
    let tool = SimpleDateTool;

    assert_eq!(tool.extract_days_offset("3 days from now", "from now"), Some(3));
    assert_eq!(tool.extract_days_offset("five days from now", "from now"), Some(5));
    assert_eq!(tool.extract_days_offset("2 days ago", "ago"), Some(2));
    assert_eq!(tool.extract_days_offset("tomorrow", "from now"), None);
}

#[test]
fn day_offsets_of_phrases() {
    let tool = SimpleDateTool;
    assert_eq!(tool.relative_day_offset("Today"), 0);
    assert_eq!(tool.relative_day_offset("tomorrow"), 1);
    assert_eq!(tool.relative_day_offset("yesterday"), -1);
    assert_eq!(tool.relative_day_offset("3 days from now"), 3);
    assert_eq!(tool.relative_day_offset("2 days ago"), -2);
    assert_eq!(tool.relative_day_offset("next week"), 7);
    assert_eq!(tool.relative_day_offset("last week"), -7);
    assert_eq!(tool.relative_day_offset("whenever"), 0);
    assert_eq!(tool.relative_day_offset("a day ago"), -1);
    assert_eq!(tool.relative_day_offset("lots of days from now"), 1);
}

#[test]
fn number_parsing_follows_i64() {
    let tool = SimpleDateTool;
    assert_eq!(tool.extract_days_offset("-4 days from now", "from now"), Some(-4));
    assert_eq!(tool.extract_days_offset("+4 days from now", "from now"), Some(4));
    assert_eq!(tool.extract_days_offset("99999999999999999999 days ago", "ago"), Some(1));
    assert_eq!(tool.extract_days_offset("days ago", "ago"), None);
}

#[test]
fn date_summary_text() {
    let tool = SimpleDateTool;
    assert_eq!(tool.summary("tomorrow", "2024-01-02"), "The date 'tomorrow' is 2024-01-02");
}

fn resolve(relative_date: &str) -> String {
    let offset = SimpleDateTool.relative_day_offset(relative_date);
    let days = i64::try_from(offset).unwrap();
    (chrono::Local::now().date_naive() + chrono::Duration::days(days)).format("%Y-%m-%d").to_string()
}

#[test]
fn test_resolve_today() {
    let today = chrono::Local::now().date_naive().format("%Y-%m-%d").to_string();
    assert_eq!(resolve("today"), today);
}

#[test]
fn test_resolve_tomorrow() {
    let tomorrow = (chrono::Local::now().date_naive() + chrono::Duration::days(1)).format("%Y-%m-%d").to_string();
    assert_eq!(resolve("tomorrow"), tomorrow);
}

#[test]
fn test_resolve_days_from_now() {
    let expected = (chrono::Local::now().date_naive() + chrono::Duration::days(3)).format("%Y-%m-%d").to_string();
    assert_eq!(resolve("3 days from now"), expected);
}

#[test]
fn test_resolve_days_ago() {
    let expected = (chrono::Local::now().date_naive() - chrono::Duration::days(2)).format("%Y-%m-%d").to_string();
    assert_eq!(resolve("2 days ago"), expected);
}
