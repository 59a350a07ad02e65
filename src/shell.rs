//! The command shell: tokenising a line, running its command against the
//! catalog, and the Home/Terminal display state.
use vstd::prelude::*;
use vstd::string::StrSliceExecFns;
use vstd::string::StringExecFns;
use crate::text::{
    is_ws, is_whitespace, dec, push_decimal, str_eq, parse_usize, parse_usize_spec,
    lemma_dec_round_trip,
};
use crate::numerology::{life_path, meaning_of, calculate_life_path, get_meaning};
use crate::models::{
    LogEntry, EntryView, Article, ArticleView, plain_entry, markup_entry, entries_view,
    articles_view, catalog_wf, find_article, find_by_id,
};

verus! {

/// Scanning state after `s`: the finished words, and the word being read.
pub open spec fn tok_state(s: Seq<char>) -> (Seq<Seq<char>>, Seq<char>)
    decreases s.len(),
{
    if s.len() == 0 {
        (seq![], seq![])
    } else {
        let (done, cur) = tok_state(s.drop_last());
        let c = s.last();
        if is_ws(c) {
            if cur.len() > 0 {
                (done.push(cur), seq![])
            } else {
                (done, seq![])
            }
        } else {
            (done, cur.push(c))
        }
    }
}

/// The maximal runs of non-whitespace characters of `s`, in order.
pub open spec fn tokens(s: Seq<char>) -> Seq<Seq<char>> {
    let (done, cur) = tok_state(s);
    if cur.len() > 0 {
        done.push(cur)
    } else {
        done
    }
}

pub open spec fn strings_view(v: Seq<String>) -> Seq<Seq<char>> {
    v.map_values(|t: String| t@)
}

/// Splits `s` into its whitespace-separated words.
pub fn split_whitespace(s: &str) -> (r: Vec<String>)
    ensures
        strings_view(r@) == tokens(s@),
{
    let n = s.unicode_len();
    let mut out: Vec<String> = Vec::new();
    let mut i: usize = 0;
    let mut start: usize = 0;
    let mut in_word = false;
    while i < n
        invariant
            n == s@.len(),
            i <= n,
            start <= i,
            strings_view(out@) == tok_state(s@.subrange(0, i as int)).0,
            tok_state(s@.subrange(0, i as int)).1 == if in_word {
                s@.subrange(start as int, i as int)
            } else {
                Seq::<char>::empty()
            },
            in_word ==> start < i,
        decreases n - i,
    {
        let c = s.get_char(i);
        proof {
            assert(s@.subrange(0, i + 1).drop_last() =~= s@.subrange(0, i as int));
            assert(s@.subrange(0, i + 1).last() == c);
        }
        if is_whitespace(c) {
            if in_word {
                let w = String::from_str(s.substring_char(start, i));
                let ghost old_out = out@;
                out.push(w);
                assert(strings_view(out@) =~= strings_view(old_out).push(w@));
            }
            in_word = false;
        } else {
            if !in_word {
                start = i;
                in_word = true;
            }
            assert(s@.subrange(start as int, i + 1) =~= s@.subrange(start as int, i as int).push(
                c,
            ));
        }
        i = i + 1;
    }
    assert(s@.subrange(0, n as int) =~= s@);
    if in_word {
        let w = String::from_str(s.substring_char(start, n));
        let ghost old_out = out@;
        out.push(w);
        assert(strings_view(out@) =~= strings_view(old_out).push(w@));
    }
    out
}

pub const PROMPT: &'static str = "root@occult-code:~# ";

pub const HELP_TEXT: &'static str = "Available commands:
  home              : Return to Top Page
  divine <YYYYMMDD> : Calculate Life Path Number
  ls                : List articles
  clear             : Clear terminal";

pub const ARTICLE_OPEN: &'static str = "<div style=\"margin-top: 20px; border: 1px solid #33ff00; padding: 20px; background: rgba(0, 20, 0, 0.8);\"><h2 style=\"font-size: 1.8em; border-bottom: 2px solid #33ff00; margin-bottom: 15px;\">";

pub const ARTICLE_DATE: &'static str = "</h2><div style=\"font-size: 0.8em; color: #88aa88; margin-bottom: 20px;\">ACCESS DATE: ";

pub const ARTICLE_BODY: &'static str = "</div><div style=\"line-height: 1.8; color: #ddffdd; white-space: pre-wrap;\">";

pub const ARTICLE_CLOSE: &'static str = "</div><div style=\"margin-top: 30px; border-top: 1px dashed #33ff00; padding-top: 10px; text-align: right;\"><span style=\"cursor: pointer; color: #33ff00; text-decoration: underline;\" onclick=\"window.location.reload()\">[ CLOSE FILE ]</span></div></div>";

pub const REPORT_OPEN: &'static str = "<div class=\"retro-glow\" style=\"border: 2px solid #33ff00; padding: 20px; margin: 10px 0; max-width: 600px; background: rgba(0, 10, 0, 0.9);\"><h3 style=\"font-size: 1.5em; border-bottom: 1px solid #33ff00; margin-bottom: 10px;\">ANALYSIS REPORT: TARGET [";

pub const REPORT_NUMBER: &'static str = "]</h3><div style=\"display: flex; gap: 20px; align-items: center;\"><div style=\"font-size: 4em; font-weight: bold; color: #33ff00;\">";

pub const REPORT_MEANING: &'static str = "</div><div><p style=\"margin: 0; font-size: 1.1em;\">CODE: LIFE_PATH</p><p style=\"margin: 5px 0 0 0; color: #ccffcc;\">";

pub const REPORT_CLOSE: &'static str = "</p></div></div><div style=\"margin-top: 15px; font-size: 0.8em; color: #88aa88;\">TIMESTAMP: 2026-01-13 <br>STATUS: VERIFIED</div></div>";

pub open spec fn echo_entry(input: Seq<char>) -> EntryView {
    plain_entry(PROMPT@ + input, "text-gray-500"@, "INPUT"@, ""@)
}

pub open spec fn help_entry() -> EntryView {
    plain_entry(HELP_TEXT@, "text-yellow-400"@, "SYSTEM"@, ""@)
}

pub open spec fn summary_entry(a: ArticleView) -> EntryView {
    plain_entry(
        "ID: "@ + dec(a.id as nat) + " | "@ + a.title + " ("@ + a.date + ")"@,
        ""@,
        "RESULT"@,
        ""@,
    )
}

pub open spec fn article_markup(a: ArticleView) -> Seq<char> {
    ARTICLE_OPEN@ + a.title + ARTICLE_DATE@ + a.date + ARTICLE_BODY@ + a.content + ARTICLE_CLOSE@
}

pub open spec fn not_found_entry() -> EntryView {
    plain_entry("Error: Article ID not found."@, "text-red-500"@, "ERROR"@, ""@)
}

pub open spec fn report_markup(arg: Seq<char>, number: nat, meaning: Seq<char>) -> Seq<char> {
    REPORT_OPEN@ + arg + REPORT_NUMBER@ + dec(number) + REPORT_MEANING@ + meaning + REPORT_CLOSE@
}

pub open spec fn format_error_entry() -> EntryView {
    plain_entry("Error: Invalid date format. Use YYYYMMDD."@, "text-red-500"@, "ERROR"@, ""@)
}

pub open spec fn usage_entry() -> EntryView {
    plain_entry("Usage: divine <YYYYMMDD>"@, "text-yellow-500"@, "ERROR"@, ""@)
}

pub open spec fn unknown_entry() -> EntryView {
    plain_entry("Command not found. Type 'help'."@, "text-red-500"@, "ERROR"@, ""@)
}

/// What `read` adds after the echo: nothing when the id is missing or not a
/// number, the article's markup when it is in the catalog, else an error.
pub open spec fn read_output(arts: Seq<ArticleView>, words: Seq<Seq<char>>) -> Seq<EntryView> {
    if words.len() < 2 {
        seq![]
    } else {
        match parse_usize_spec(words[1]) {
            None => seq![],
            Some(id) => match find_article(arts, id) {
                Some(a) => seq![markup_entry(article_markup(a), "RESULT"@, "Article Content"@)],
                None => seq![not_found_entry()],
            },
        }
    }
}

/// What `divine` adds after the echo.
pub open spec fn divine_output(words: Seq<Seq<char>>) -> Seq<EntryView> {
    if words.len() < 2 {
        seq![usage_entry()]
    } else {
        match life_path(words[1]) {
            Some(n) => seq![
                markup_entry(
                    report_markup(words[1], n, meaning_of(n as u32)),
                    "RESULT"@,
                    "Numerology Result"@,
                ),
            ],
            None => seq![format_error_entry()],
        }
    }
}

/// The display mode and transcript after running the line `input` in
/// `mode` on transcript `logs`, with the catalog `arts`.
pub open spec fn step(
    mode: AppMode,
    logs: Seq<EntryView>,
    arts: Seq<ArticleView>,
    input: Seq<char>,
) -> (AppMode, Seq<EntryView>) {
    let words = tokens(input);
    if words.len() == 0 {
        (mode, logs)
    } else {
        let verb = words[0];
        let logged = logs.push(echo_entry(input));
        if verb == "help"@ {
            (mode, logged.push(help_entry()))
        } else if verb == "home"@ || verb == "exit"@ {
            (AppMode::Home, seq![])
        } else if verb == "ls"@ {
            (mode, logged + arts.map_values(|a: ArticleView| summary_entry(a)))
        } else if verb == "clear"@ {
            (mode, seq![])
        } else if verb == "read"@ {
            (mode, logged + read_output(arts, words))
        } else if verb == "divine"@ {
            (mode, logged + divine_output(words))
        } else {
            (mode, logged.push(unknown_entry()))
        }
    }
}

/// Which top-level view is shown.
#[derive(Clone, Copy, Debug, PartialEq, Eq, Structural)]
pub enum AppMode {
    Home,
    Terminal,
}

pub struct ShellView {
    pub input: Seq<char>,
    pub logs: Seq<EntryView>,
    pub articles: Seq<ArticleView>,
    pub mode: AppMode,
}

impl ShellView {
    /// The catalog is valid, and the Home view never holds a transcript.
    pub open spec fn wf(self) -> bool {
        &&& catalog_wf(self.articles)
        &&& self.mode == AppMode::Home ==> self.logs.len() == 0
    }
}

/// The shell: the line being edited, the transcript, the catalog and the
/// display mode.
pub struct Shell {
    input_value: String,
    logs: Vec<LogEntry>,
    articles: Vec<Article>,
    mode: AppMode,
}

impl View for Shell {
    type V = ShellView;

    closed spec fn view(&self) -> ShellView {
        ShellView {
            input: self.input_value@,
            logs: entries_view(self.logs@),
            articles: articles_view(self.articles@),
            mode: self.mode,
        }
    }
}

fn summary_text(a: &Article) -> (r: String)
    ensures
        r@ == summary_entry(a@).text,
{
    let mut t = String::from_str("ID: ");
    push_decimal(&mut t, a.id as u128);
    t.append(" | ");
    t.append(a.title.as_str());
    t.append(" (");
    t.append(a.date.as_str());
    t.append(")");
    t
}

fn article_html(a: &Article) -> (r: String)
    ensures
        r@ == article_markup(a@),
{
    let mut t = String::from_str(ARTICLE_OPEN);
    t.append(a.title.as_str());
    t.append(ARTICLE_DATE);
    t.append(a.date.as_str());
    t.append(ARTICLE_BODY);
    t.append(a.content.as_str());
    t.append(ARTICLE_CLOSE);
    t
}

fn report_html(arg: &str, number: u32, meaning: &str) -> (r: String)
    ensures
        r@ == report_markup(arg@, number as nat, meaning@),
{
    let mut t = String::from_str(REPORT_OPEN);
    t.append(arg);
    t.append(REPORT_NUMBER);
    push_decimal(&mut t, number as u128);
    t.append(REPORT_MEANING);
    t.append(meaning);
    t.append(REPORT_CLOSE);
    t
}

impl Shell {
    fn log_text(&mut self, text: &str, class: &str, category: &str, description: &str)
        ensures
            final(self)@ == (ShellView {
                logs: old(self)@.logs.push(plain_entry(text@, class@, category@, description@)),
                ..old(self)@
            }),
            final(self).articles@ == old(self).articles@,
    {
        self.push_entry(LogEntry::plain(String::from_str(text), class, category, description));
    }

    fn log_html(&mut self, html: &str, category: &str, description: &str)
        ensures
            final(self)@ == (ShellView {
                logs: old(self)@.logs.push(markup_entry(html@, category@, description@)),
                ..old(self)@
            }),
            final(self).articles@ == old(self).articles@,
    {
        self.push_entry(LogEntry::markup(String::from_str(html), category, description));
    }

    fn push_entry(&mut self, e: LogEntry)
        ensures
            final(self)@ == (ShellView { logs: old(self)@.logs.push(e@), ..old(self)@ }),
            final(self).articles@ == old(self).articles@,
    {
        let ghost old_logs = self.logs@;
        self.logs.push(e);
        assert(entries_view(self.logs@) =~= entries_view(old_logs).push(e@));
    }

    /// Runs one command line: echoes it, then performs the command named by
    /// its first word. A blank line changes nothing.
    pub fn process_shell(&mut self, input: &str)
        ensures
            final(self)@.mode == step(old(self)@.mode, old(self)@.logs, old(self)@.articles, input@).0,
            final(self)@.logs == step(old(self)@.mode, old(self)@.logs, old(self)@.articles, input@).1,
            final(self)@.articles == old(self)@.articles,
            final(self)@.input == old(self)@.input,
    {
        let parts = split_whitespace(input);
        if parts.len() == 0 {
            return;
        }
        let mut echo = String::from_str(PROMPT);
        echo.append(input);
        self.log_text(echo.as_str(), "text-gray-500", "INPUT", "");
        let command = parts[0].as_str();
        assert(command@ == tokens(input@)[0]);
        if str_eq(command, "help") {
            self.log_text(HELP_TEXT, "text-yellow-400", "SYSTEM", "");
        } else if str_eq(command, "home") || str_eq(command, "exit") {
            self.mode = AppMode::Home;
            self.logs.clear();
            assert(entries_view(self.logs@) =~= seq![]);
        } else if str_eq(command, "ls") {
            let ghost logged = self@.logs;
            let ghost arts = self@.articles;
            let ghost arts_exec = self.articles@;
            let mut i: usize = 0;
            while i < self.articles.len()
                invariant
                    i <= self.articles@.len(),
                    arts == self@.articles,
                    arts_exec == self.articles@,
                    self@.logs == logged + arts.take(i as int).map_values(
                        |a: ArticleView| summary_entry(a),
                    ),
                    self@.mode == old(self)@.mode,
                    self@.input == old(self)@.input,
                    self@.articles == old(self)@.articles,
                decreases self.articles@.len() - i,
            {
                let t = summary_text(&self.articles[i]);
                self.log_text(t.as_str(), "", "RESULT", "");
                assert(arts.take(i + 1).map_values(|a: ArticleView| summary_entry(a))
                    =~= arts.take(i as int).map_values(|a: ArticleView| summary_entry(a)).push(
                    summary_entry(arts[i as int]),
                ));
                i = i + 1;
            }
            assert(arts.take(i as int) =~= arts);
        } else if str_eq(command, "clear") {
            self.logs.clear();
            assert(entries_view(self.logs@) =~= seq![]);
        } else if str_eq(command, "read") {
            let ghost logged = self@.logs;
            if parts.len() >= 2 {
                match parse_usize(parts[1].as_str()) {
                    Some(id) => {
                        match find_by_id(&self.articles, id) {
                            Some(a) => {
                                let html = article_html(a);
                                self.log_html(html.as_str(), "RESULT", "Article Content");
                            },
                            None => {
                                self.log_text(
                                    "Error: Article ID not found.",
                                    "text-red-500",
                                    "ERROR",
                                    "",
                                );
                            },
                        }
                    },
                    None => {},
                }
            }
            assert(self@.logs =~= logged + read_output(self@.articles, tokens(input@)));
        } else if str_eq(command, "divine") {
            let ghost logged = self@.logs;
            if parts.len() >= 2 {
                let date_str = parts[1].as_str();
                match calculate_life_path(date_str) {
                    Some(num) => {
                        let meaning = get_meaning(num);
                        let html = report_html(date_str, num, meaning);
                        self.log_html(html.as_str(), "RESULT", "Numerology Result");
                    },
                    None => {
                        self.log_text(
                            "Error: Invalid date format. Use YYYYMMDD.",
                            "text-red-500",
                            "ERROR",
                            "",
                        );
                    },
                }
            } else {
                self.log_text("Usage: divine <YYYYMMDD>", "text-yellow-500", "ERROR", "");
            }
            assert(self@.logs =~= logged + divine_output(tokens(input@)));
        } else {
            self.log_text("Command not found. Type 'help'.", "text-red-500", "ERROR", "");
        }
    }
}

/// The state after submitting `line`: a blank line changes nothing; any
/// other line switches to the Terminal view and is run there.
pub open spec fn submit_view(v: ShellView, line: Seq<char>) -> ShellView {
    if tokens(line).len() == 0 {
        v
    } else {
        let (mode, logs) = step(AppMode::Terminal, v.logs, v.articles, line);
        ShellView { mode, logs, ..v }
    }
}

/// The state after selecting the article `id` from the Home view: an empty
/// Terminal transcript that then runs `read <id>`.
pub open spec fn open_view(v: ShellView, id: usize) -> ShellView {
    let (mode, logs) = step(AppMode::Terminal, seq![], v.articles, "read "@ + dec(id as nat));
    ShellView { mode, logs, ..v }
}

/// Back to the Home view, with the transcript cleared.
pub open spec fn home_view(v: ShellView) -> ShellView {
    ShellView { mode: AppMode::Home, logs: seq![], ..v }
}

/// What the user interface hands the shell.
pub enum Msg {
    Input(String),
    Submit,
    FocusInput,
    OpenArticle(usize),
    BackToHome,
    NoOp,
}

pub open spec fn seed_catalog() -> Seq<ArticleView> {
    seq![
        ArticleView {
            id: 1,
            title: "数秘術概論：数字に宿る力"@,
            date: "2026-01-12"@,
            content: "数秘術（Numerology）は、西洋占星術やタロットと並ぶ三大占術の一つです。"@,
        },
        ArticleView {
            id: 2,
            title: "RustとWebAssemblyの魔術"@,
            date: "2026-01-13"@,
            content: "メモリ安全性と高速な実行速度は、まるで古代のルーン文字を刻むかのように堅牢なシステムを構築します。"@,
        },
        ArticleView {
            id: 3,
            title: "Occult Code 開発日誌"@,
            date: "2026-01-14"@,
            content: "このサイトはレトロフューチャーな美学に基づいて設計されています。"@,
        },
        ArticleView {
            id: 4,
            title: "カバラの生命の樹について"@,
            date: "2026-01-15"@,
            content: "セフィロトの樹は宇宙の法則を表す図形であり、我々の精神構造の地図でもあります。"@,
        },
    ]
}

/// Whether `line` holds no word at all.
pub fn is_blank(line: &str) -> (r: bool)
    ensures
        r == (tokens(line@).len() == 0),
{
    let parts = split_whitespace(line);
    parts.len() == 0
}

impl Shell {
    /// A shell in the Home view over the built-in catalog.
    pub fn new() -> (r: Shell)
        ensures
            r@ == (ShellView {
                input: Seq::<char>::empty(),
                logs: seq![],
                articles: seed_catalog(),
                mode: AppMode::Home,
            }),
            r@.wf(),
    {
        let mut articles: Vec<Article> = Vec::new();
        articles.push(
            Article::new(
                1,
                "数秘術概論：数字に宿る力",
                "2026-01-12",
                "数秘術（Numerology）は、西洋占星術やタロットと並ぶ三大占術の一つです。",
            ),
        );
        articles.push(
            Article::new(
                2,
                "RustとWebAssemblyの魔術",
                "2026-01-13",
                "メモリ安全性と高速な実行速度は、まるで古代のルーン文字を刻むかのように堅牢なシステムを構築します。",
            ),
        );
        articles.push(
            Article::new(
                3,
                "Occult Code 開発日誌",
                "2026-01-14",
                "このサイトはレトロフューチャーな美学に基づいて設計されています。",
            ),
        );
        articles.push(
            Article::new(
                4,
                "カバラの生命の樹について",
                "2026-01-15",
                "セフィロトの樹は宇宙の法則を表す図形であり、我々の精神構造の地図でもあります。",
            ),
        );
        let r = Shell { input_value: String::new(), logs: Vec::new(), articles, mode: AppMode::Home };
        assert(articles_view(r.articles@) =~= seed_catalog());
        assert(entries_view(r.logs@) =~= seq![]);
        r
    }

    /// A shell in the Home view over `articles`, if they form a valid
    /// catalog (positive, distinct ids).
    pub fn with_articles(articles: Vec<Article>) -> (r: Option<Shell>)
        ensures
            r is Some <==> catalog_wf(articles_view(articles@)),
            r matches Some(s) ==> s@ == (ShellView {
                input: Seq::<char>::empty(),
                logs: seq![],
                articles: articles_view(articles@),
                mode: AppMode::Home,
            }) && s@.wf(),
    {
        if !crate::models::is_valid_catalog(&articles) {
            return None;
        }
        let r = Shell { input_value: String::new(), logs: Vec::new(), articles, mode: AppMode::Home };
        assert(entries_view(r.logs@) =~= seq![]);
        Some(r)
    }

    pub fn mode(&self) -> (r: AppMode)
        ensures
            r == self@.mode,
    {
        self.mode
    }

    pub fn logs(&self) -> (r: &Vec<LogEntry>)
        ensures
            entries_view(r@) == self@.logs,
    {
        &self.logs
    }

    pub fn articles(&self) -> (r: &Vec<Article>)
        ensures
            articles_view(r@) == self@.articles,
    {
        &self.articles
    }

    pub fn input_value(&self) -> (r: &str)
        ensures
            r@ == self@.input,
    {
        self.input_value.as_str()
    }

    /// Submits one line: a blank line changes nothing, any other switches to
    /// the Terminal view and runs there.
    pub fn submit(&mut self, line: &str)
        requires
            old(self)@.wf(),
        ensures
            final(self)@ == submit_view(old(self)@, line@),
            final(self)@.wf(),
    {
        if is_blank(line) {
            return;
        }
        self.mode = AppMode::Terminal;
        self.process_shell(line);
    }

    /// Opens the article `id` in a fresh Terminal transcript, as `read <id>`.
    pub fn open_article(&mut self, id: usize)
        requires
            old(self)@.wf(),
        ensures
            final(self)@ == open_view(old(self)@, id),
            final(self)@.wf(),
    {
        self.mode = AppMode::Terminal;
        self.logs.clear();
        assert(entries_view(self.logs@) =~= seq![]);
        let mut cmd = String::from_str("read ");
        push_decimal(&mut cmd, id as u128);
        self.process_shell(cmd.as_str());
    }

    /// Returns to the Home view and clears the transcript.
    pub fn back_to_home(&mut self)
        requires
            old(self)@.wf(),
        ensures
            final(self)@ == home_view(old(self)@),
            final(self)@.wf(),
    {
        self.mode = AppMode::Home;
        self.logs.clear();
        assert(entries_view(self.logs@) =~= seq![]);
    }

    /// Handles one message from the user interface; the result says whether
    /// the view must be drawn again. Moving the keyboard focus is left to the
    /// caller.
    pub fn update(&mut self, msg: Msg) -> (r: bool)
        requires
            old(self)@.wf(),
        ensures
            final(self)@.wf(),
            match msg {
                Msg::Input(val) => r && final(self)@ == (ShellView { input: val@, ..old(self)@ }),
                Msg::Submit => r && final(self)@ == submit_view(
                    ShellView { input: Seq::<char>::empty(), ..old(self)@ },
                    old(self)@.input,
                ),
                Msg::FocusInput => !r && final(self)@ == old(self)@,
                Msg::OpenArticle(id) => r && final(self)@ == open_view(old(self)@, id),
                Msg::BackToHome => r && final(self)@ == home_view(old(self)@),
                Msg::NoOp => !r && final(self)@ == old(self)@,
            },
    {
        match msg {
            Msg::Input(val) => {
                self.input_value = val;
                true
            },
            Msg::Submit => {
                let input = self.input_value.clone();
                self.input_value = String::new();
                self.submit(input.as_str());
                true
            },
            Msg::FocusInput => false,
            Msg::OpenArticle(id) => {
                self.open_article(id);
                true
            },
            Msg::BackToHome => {
                self.back_to_home();
                true
            },
            Msg::NoOp => false,
        }
    }
}

proof fn lemma_tok_state_blank(s: Seq<char>)
    requires
        forall|i: int| 0 <= i < s.len() ==> is_ws(#[trigger] s[i]),
    ensures
        tok_state(s) == (Seq::<Seq<char>>::empty(), Seq::<char>::empty()),
    decreases s.len(),
{
    if s.len() > 0 {
        lemma_tok_state_blank(s.drop_last());
    }
}

proof fn lemma_tok_state_word(s: Seq<char>)
    requires
        forall|i: int| 0 <= i < s.len() ==> !is_ws(#[trigger] s[i]),
    ensures
        tok_state(s) == (Seq::<Seq<char>>::empty(), s),
    decreases s.len(),
{
    if s.len() > 0 {
        lemma_tok_state_word(s.drop_last());
        assert(s.drop_last().push(s.last()) =~= s);
    }
}

/// A text with no whitespace and at least one character is one word.
proof fn lemma_tokens_word(s: Seq<char>)
    requires
        s.len() > 0,
        forall|i: int| 0 <= i < s.len() ==> !is_ws(#[trigger] s[i]),
    ensures
        tokens(s) == seq![s],
{
    lemma_tok_state_word(s);
    assert(Seq::<Seq<char>>::empty().push(s) =~= seq![s]);
}

proof fn lemma_tok_state_some(s: Seq<char>, k: int)
    requires
        0 <= k < s.len(),
        !is_ws(s[k]),
    ensures
        tok_state(s).0.len() > 0 || tok_state(s).1.len() > 0,
    decreases s.len(),
{
    if k < s.len() - 1 {
        lemma_tok_state_some(s.drop_last(), k);
    }
}

/// A text with a character that is not whitespace has a word.
proof fn lemma_tokens_some(s: Seq<char>, k: int)
    requires
        0 <= k < s.len(),
        !is_ws(s[k]),
    ensures
        tokens(s).len() > 0,
{
    lemma_tok_state_some(s, k);
}

/// A line of whitespace alone (or no character at all) adds no entry and
/// changes no state, whether run directly or submitted.
pub proof fn lemma_blank_line_is_ignored(v: ShellView, line: Seq<char>)
    requires
        forall|i: int| 0 <= i < line.len() ==> is_ws(#[trigger] line[i]),
    ensures
        step(v.mode, v.logs, v.articles, line) == (v.mode, v.logs),
        submit_view(v, line) == v,
{
    lemma_tok_state_blank(line);
}

/// `ls` appends the echo and then one summary per article, in catalog
/// order: the transcript grows by exactly one more than the catalog size.
pub proof fn lemma_ls_lists_catalog(mode: AppMode, logs: Seq<EntryView>, arts: Seq<ArticleView>)
    ensures
        step(mode, logs, arts, "ls"@) == (
            mode,
            logs.push(echo_entry("ls"@)) + arts.map_values(|a: ArticleView| summary_entry(a)),
        ),
        step(mode, logs, arts, "ls"@).1.len() == logs.len() + 1 + arts.len(),
        forall|i: int|
            0 <= i < arts.len() ==> step(mode, logs, arts, "ls"@).1[logs.len() + 1 + i]
                == summary_entry(#[trigger] arts[i]),
{
    reveal_strlit("ls");
    reveal_strlit("help");
    reveal_strlit("home");
    reveal_strlit("exit");
    lemma_tokens_word("ls"@);
}

/// `clear` empties the transcript whatever it held, and keeps the mode.
pub proof fn lemma_clear_empties(mode: AppMode, logs: Seq<EntryView>, arts: Seq<ArticleView>)
    ensures
        step(mode, logs, arts, "clear"@) == (mode, Seq::<EntryView>::empty()),
{
    reveal_strlit("clear");
    reveal_strlit("help");
    reveal_strlit("home");
    reveal_strlit("exit");
    reveal_strlit("ls");
    lemma_tokens_word("clear"@);
}

/// Submitting `home` or `exit` returns to the Home view with an empty
/// transcript.
pub proof fn lemma_home_returns(v: ShellView)
    ensures
        submit_view(v, "home"@) == home_view(v),
        submit_view(v, "exit"@) == home_view(v),
{
    reveal_strlit("help");
    reveal_strlit("home");
    reveal_strlit("exit");
    lemma_tokens_word("home"@);
    lemma_tokens_word("exit"@);
    assert("home"@[2] != "help"@[2]);
    assert("exit"@[0] != "help"@[0]);
}

/// From the Home view, selecting article `id` is the same as submitting
/// the line `read <id>`.
pub proof fn lemma_open_is_read(v: ShellView, id: usize)
    requires
        v.wf(),
        v.mode == AppMode::Home,
    ensures
        open_view(v, id) == submit_view(v, "read "@ + dec(id as nat)),
{
    reveal_strlit("read ");
    let line = "read "@ + dec(id as nat);
    assert(line[0] == 'r');
    lemma_tokens_some(line, 0);
    assert(v.logs =~= Seq::<EntryView>::empty());
}

proof fn lemma_tok_state_append_word(p: Seq<char>, q: Seq<char>)
    requires
        forall|i: int| 0 <= i < q.len() ==> !is_ws(#[trigger] q[i]),
    ensures
        tok_state(p + q) == (tok_state(p).0, tok_state(p).1 + q),
    decreases q.len(),
{
    if q.len() == 0 {
        assert(p + q =~= p);
        assert(tok_state(p).1 + q =~= tok_state(p).1);
    } else {
        lemma_tok_state_append_word(p, q.drop_last());
        assert((p + q).drop_last() =~= p + q.drop_last());
        assert((p + q).last() == q.last());
        assert((tok_state(p).1 + q.drop_last()).push(q.last()) =~= tok_state(p).1 + q);
    }
}

/// `read <id>` appends its echo, then the article's markup when the
/// catalog holds `id`, or else exactly one not-found error.
pub proof fn lemma_read_by_id(
    mode: AppMode,
    logs: Seq<EntryView>,
    arts: Seq<ArticleView>,
    id: usize,
)
    ensures
        step(mode, logs, arts, "read "@ + dec(id as nat)) == (
            mode,
            logs.push(echo_entry("read "@ + dec(id as nat))) + match find_article(arts, id) {
                Some(a) => seq![markup_entry(article_markup(a), "RESULT"@, "Article Content"@)],
                None => seq![not_found_entry()],
            },
        ),
{
    reveal_strlit("read ");
    reveal_strlit("read");
    reveal_strlit("help");
    reveal_strlit("home");
    reveal_strlit("exit");
    reveal_strlit("ls");
    reveal_strlit("clear");
    let d = dec(id as nat);
    lemma_dec_round_trip(id as nat);
    lemma_tok_state_word("read"@);
    assert("read "@.drop_last() =~= "read"@);
    assert(tok_state("read "@) == (seq!["read"@], Seq::<char>::empty()));
    lemma_tok_state_append_word("read "@, d);
    assert(Seq::<char>::empty() + d =~= d);
    let words = tokens("read "@ + d);
    assert(words =~= seq!["read"@, d]);
    assert("read"@[0] != "help"@[0]);
    assert("read"@[0] != "home"@[0]);
    assert("read"@[0] != "exit"@[0]);
}

} // verus!
