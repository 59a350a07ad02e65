use occult_code::models::{Article, LogEntry};
use occult_code::shell::{AppMode, Msg, Shell};

fn texts(logs: &[LogEntry]) -> Vec<String> {
    logs.iter().map(|e| e.text.clone()).collect()
}

fn terminal() -> Shell {
    let mut s = Shell::new();
    s.submit("help");
    s
}

#[test]
fn starts_at_home_with_the_catalog() {
    let s = Shell::new();
    assert_eq!(s.mode(), AppMode::Home);
    assert!(s.logs().is_empty());
    let ids: Vec<usize> = s.articles().iter().map(|a| a.id).collect();
    assert_eq!(ids, vec![1, 2, 3, 4]);
    assert_eq!(s.input_value(), "");
}

#[test]
fn ls_lists_every_article_in_order() {
    let mut s = Shell::new();
    s.submit("ls");
    assert_eq!(s.mode(), AppMode::Terminal);
    let logs = s.logs();
    assert_eq!(logs.len(), 1 + s.articles().len());
    assert_eq!(logs[0].text, "root@occult-code:~# ls");
    assert_eq!(logs[0].category, "INPUT");
    assert_eq!(logs[0].class, "text-gray-500");
    assert!(!logs[0].is_html);
    assert_eq!(logs[1].text, "ID: 1 | 数秘術概論：数字に宿る力 (2026-01-12)");
    assert_eq!(logs[4].text, "ID: 4 | カバラの生命の樹について (2026-01-15)");
    for e in &logs[1..] {
        assert_eq!(e.category, "RESULT");
        assert!(!e.is_html);
    }
}

#[test]
fn ls_appends_after_earlier_entries() {
    let mut s = terminal();
    let before = s.logs().len();
    s.submit("ls");
    assert_eq!(s.logs().len(), before + 5);
}

#[test]
fn read_missing_article_gives_one_error() {
    let mut s = Shell::new();
    s.submit("read 999");
    let logs = s.logs();
    assert_eq!(logs.len(), 2);
    assert_eq!(logs[0].text, "root@occult-code:~# read 999");
    assert_eq!(logs[1].category, "ERROR");
    assert_eq!(logs[1].text, "Error: Article ID not found.");
    assert_eq!(logs[1].class, "text-red-500");
}

#[test]
fn read_existing_article_gives_markup() {
    let mut s = Shell::new();
    s.submit("read 2");
    let logs = s.logs();
    assert_eq!(logs.len(), 2);
    let e = &logs[1];
    assert!(e.is_html);
    assert_eq!(e.category, "RESULT");
    assert_eq!(e.description, "Article Content");
    assert!(e.text.contains("RustとWebAssemblyの魔術"));
    assert!(e.text.contains("ACCESS DATE: 2026-01-13"));
    assert!(e.text.contains("堅牢なシステムを構築します。"));
}

#[test]
fn read_with_bad_or_missing_id_adds_only_the_echo() {
    let mut s = Shell::new();
    s.submit("read abc");
    assert_eq!(s.logs().len(), 1);
    s.submit("read");
    assert_eq!(s.logs().len(), 2);
    s.submit("read -1");
    assert_eq!(s.logs().len(), 3);
}

#[test]
fn read_zero_is_not_found() {
    let mut s = Shell::new();
    s.submit("read 0");
    assert_eq!(s.logs()[1].text, "Error: Article ID not found.");
}

#[test]
fn clear_empties_the_transcript() {
    let mut s = terminal();
    s.submit("ls");
    s.submit("ls");
    assert!(s.logs().len() > 0);
    s.submit("clear");
    assert_eq!(s.logs().len(), 0);
    assert_eq!(s.mode(), AppMode::Terminal);
}

#[test]
fn home_returns_to_home() {
    let mut s = terminal();
    s.submit("ls");
    s.submit("home");
    assert_eq!(s.mode(), AppMode::Home);
    assert!(s.logs().is_empty());
}

#[test]
fn exit_returns_to_home() {
    let mut s = terminal();
    s.submit("exit now");
    assert_eq!(s.mode(), AppMode::Home);
    assert!(s.logs().is_empty());
}

#[test]
fn blank_line_changes_nothing() {
    let mut s = Shell::new();
    s.submit("   \t  ");
    assert_eq!(s.mode(), AppMode::Home);
    assert!(s.logs().is_empty());
    let mut t = terminal();
    let before = texts(t.logs());
    t.submit("");
    t.submit(" \u{3000} ");
    assert_eq!(texts(t.logs()), before);
    assert_eq!(t.mode(), AppMode::Terminal);
}

#[test]
fn opening_an_article_is_reading_it() {
    let mut a = Shell::new();
    a.open_article(2);
    let mut b = Shell::new();
    b.submit("read 2");
    assert_eq!(a.mode(), AppMode::Terminal);
    assert_eq!(texts(a.logs()), texts(b.logs()));
    assert_eq!(a.logs()[0].text, "root@occult-code:~# read 2");
}

#[test]
fn help_gives_one_usage_entry() {
    let mut s = Shell::new();
    s.submit("help");
    let logs = s.logs();
    assert_eq!(logs.len(), 2);
    assert_eq!(logs[1].category, "SYSTEM");
    assert!(logs[1].text.starts_with("Available commands:"));
    assert!(logs[1].text.contains("divine <YYYYMMDD>"));
}

#[test]
fn unknown_command_is_reported() {
    let mut s = Shell::new();
    s.submit("sudo rm");
    let logs = s.logs();
    assert_eq!(logs.len(), 2);
    assert_eq!(logs[1].text, "Command not found. Type 'help'.");
    assert_eq!(logs[1].category, "ERROR");
}

#[test]
fn verbs_are_case_sensitive() {
    let mut s = Shell::new();
    s.submit("LS");
    assert_eq!(s.logs().len(), 2);
    assert_eq!(s.logs()[1].text, "Command not found. Type 'help'.");
}

#[test]
fn divine_reports_the_number() {
    let mut s = Shell::new();
    s.submit("divine 2000-02-29");
    let logs = s.logs();
    assert_eq!(logs.len(), 2);
    let e = &logs[1];
    assert!(e.is_html);
    assert_eq!(e.category, "RESULT");
    assert_eq!(e.description, "Numerology Result");
    // 2 + 2 + 2 + 9 = 15, then 6
    assert!(e.text.contains("ANALYSIS REPORT: TARGET [2000-02-29]"));
    assert!(e.text.contains(">6</div>"));
    assert!(e.text.contains("分析完了"));
}

#[test]
fn divine_master_number_report() {
    let mut s = Shell::new();
    s.submit("divine 29");
    let e = &s.logs()[1];
    assert!(e.text.contains(">11</div>"));
    assert!(e.text.contains("11: 直感と啓示"));
}

#[test]
fn divine_without_digits_is_a_format_error() {
    let mut s = Shell::new();
    s.submit("divine abc");
    let logs = s.logs();
    assert_eq!(logs.len(), 2);
    assert_eq!(logs[1].text, "Error: Invalid date format. Use YYYYMMDD.");
    assert_eq!(logs[1].category, "ERROR");
}

#[test]
fn divine_without_argument_shows_usage() {
    let mut s = Shell::new();
    s.submit("divine");
    let logs = s.logs();
    assert_eq!(logs.len(), 2);
    assert_eq!(logs[1].text, "Usage: divine <YYYYMMDD>");
    assert_eq!(logs[1].category, "ERROR");
}

#[test]
fn messages_drive_the_shell() {
    let mut s = Shell::new();
    assert!(s.update(Msg::Input("ls".to_string())));
    assert_eq!(s.input_value(), "ls");
    assert!(s.update(Msg::Submit));
    assert_eq!(s.input_value(), "");
    assert_eq!(s.mode(), AppMode::Terminal);
    assert_eq!(s.logs().len(), 5);
    assert!(!s.update(Msg::FocusInput));
    assert!(!s.update(Msg::NoOp));
    assert_eq!(s.logs().len(), 5);
    assert!(s.update(Msg::BackToHome));
    assert_eq!(s.mode(), AppMode::Home);
    assert!(s.logs().is_empty());
    assert!(s.update(Msg::OpenArticle(3)));
    assert_eq!(s.mode(), AppMode::Terminal);
    assert_eq!(s.logs().len(), 2);
    assert!(s.logs()[1].text.contains("Occult Code 開発日誌"));
}

#[test]
fn custom_catalog_is_checked() {
    let ok = vec![Article::new(5, "five", "d5", "c5"), Article::new(9, "nine", "d9", "c9")];
    let mut s = Shell::with_articles(ok).expect("valid catalog");
    s.submit("ls");
    assert_eq!(texts(s.logs())[1..], ["ID: 5 | five (d5)".to_string(), "ID: 9 | nine (d9)".to_string()]);
    let dup = vec![Article::new(5, "a", "", ""), Article::new(5, "b", "", "")];
    assert!(Shell::with_articles(dup).is_none());
    let zero = vec![Article::new(0, "a", "", "")];
    assert!(Shell::with_articles(zero).is_none());
    assert!(Shell::with_articles(Vec::new()).is_some());
}

#[test]
fn empty_catalog_ls_gives_only_the_echo() {
    let mut s = Shell::with_articles(Vec::new()).unwrap();
    s.submit("ls");
    assert_eq!(s.logs().len(), 1);
}
