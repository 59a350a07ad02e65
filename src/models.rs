//! The records the shell works on: transcript entries and articles.
use vstd::prelude::*;
use vstd::string::StringExecFns;

verus! {

/// One unit of transcript output. `text` is literal text unless `is_html`
/// is set, in which case it is trusted markup to be inserted as it is.
#[derive(Clone, Debug, Default)]
pub struct LogEntry {
    pub text: String,
    pub class: String,
    pub is_html: bool,
    pub category: String,
    pub description: String,
}

pub struct EntryView {
    pub text: Seq<char>,
    pub class: Seq<char>,
    pub is_html: bool,
    pub category: Seq<char>,
    pub description: Seq<char>,
}

impl View for LogEntry {
    type V = EntryView;

    open spec fn view(&self) -> EntryView {
        EntryView {
            text: self.text@,
            class: self.class@,
            is_html: self.is_html,
            category: self.category@,
            description: self.description@,
        }
    }
}

/// A literal-text entry.
pub open spec fn plain_entry(
    text: Seq<char>,
    class: Seq<char>,
    category: Seq<char>,
    description: Seq<char>,
) -> EntryView {
    EntryView { text, class, is_html: false, category, description }
}

/// A markup entry; markup carries no style class.
pub open spec fn markup_entry(text: Seq<char>, category: Seq<char>, description: Seq<char>) -> EntryView {
    EntryView { text, class: seq![], is_html: true, category, description }
}

pub open spec fn entries_view(logs: Seq<LogEntry>) -> Seq<EntryView> {
    logs.map_values(|e: LogEntry| e@)
}

impl LogEntry {
    pub fn plain(text: String, class: &str, category: &str, description: &str) -> (r: LogEntry)
        ensures
            r@ == plain_entry(text@, class@, category@, description@),
    {
        LogEntry {
            text,
            class: String::from_str(class),
            is_html: false,
            category: String::from_str(category),
            description: String::from_str(description),
        }
    }

    pub fn markup(text: String, category: &str, description: &str) -> (r: LogEntry)
        ensures
            r@ == markup_entry(text@, category@, description@),
    {
        LogEntry {
            text,
            class: String::new(),
            is_html: true,
            category: String::from_str(category),
            description: String::from_str(description),
        }
    }
}

/// A catalog record. Its `id` is positive and unique within a catalog.
#[derive(Clone, Debug, Default)]
pub struct Article {
    pub id: usize,
    pub title: String,
    pub date: String,
    pub content: String,
}

pub struct ArticleView {
    pub id: usize,
    pub title: Seq<char>,
    pub date: Seq<char>,
    pub content: Seq<char>,
}

impl View for Article {
    type V = ArticleView;

    open spec fn view(&self) -> ArticleView {
        ArticleView { id: self.id, title: self.title@, date: self.date@, content: self.content@ }
    }
}

pub open spec fn articles_view(arts: Seq<Article>) -> Seq<ArticleView> {
    arts.map_values(|a: Article| a@)
}

/// Every id is positive and no two records share one.
pub open spec fn catalog_wf(arts: Seq<ArticleView>) -> bool {
    &&& forall|i: int| 0 <= i < arts.len() ==> (#[trigger] arts[i]).id != 0
    &&& forall|i: int, j: int|
        0 <= i < arts.len() && 0 <= j < arts.len() && i != j ==> (#[trigger] arts[i]).id
            != (#[trigger] arts[j]).id
}

/// The first record of `arts` with the given id.
pub open spec fn find_article(arts: Seq<ArticleView>, id: usize) -> Option<ArticleView>
    decreases arts.len(),
{
    if arts.len() == 0 {
        None
    } else if arts[0].id == id {
        Some(arts[0])
    } else {
        find_article(arts.drop_first(), id)
    }
}

/// A bulletin-board post.
#[derive(Clone, Debug, Default)]
pub struct BbsPost {
    pub id: usize,
    pub name: String,
    pub content: String,
}

impl Article {
    pub fn new(id: usize, title: &str, date: &str, content: &str) -> (r: Article)
        ensures
            r@ == (ArticleView { id, title: title@, date: date@, content: content@ }),
    {
        Article {
            id,
            title: String::from_str(title),
            date: String::from_str(date),
            content: String::from_str(content),
        }
    }
}

/// The record of `articles` with the given id, if there is one.
pub fn find_by_id(articles: &Vec<Article>, id: usize) -> (r: Option<&Article>)
    ensures
        match r {
            Some(a) => find_article(articles_view(articles@), id) == Some(a@),
            None => find_article(articles_view(articles@), id) is None,
        },
{
    let ghost all = articles_view(articles@);
    let mut i: usize = 0;
    assert(all.subrange(0, all.len() as int) =~= all);
    while i < articles.len()
        invariant
            i <= articles@.len(),
            all == articles_view(articles@),
            find_article(all, id) == find_article(all.subrange(i as int, all.len() as int), id),
        decreases articles@.len() - i,
    {
        let ghost rest = all.subrange(i as int, all.len() as int);
        assert(rest.drop_first() =~= all.subrange(i + 1, all.len() as int));
        if articles[i].id == id {
            return Some(&articles[i]);
        }
        i = i + 1;
    }
    None
}

/// Whether `articles` is a valid catalog: positive, distinct ids.
pub fn is_valid_catalog(articles: &Vec<Article>) -> (r: bool)
    ensures
        r == catalog_wf(articles_view(articles@)),
{
    let ghost all = articles_view(articles@);
    let mut i: usize = 0;
    while i < articles.len()
        invariant
            i <= articles@.len(),
            all == articles_view(articles@),
            forall|k: int| 0 <= k < i ==> (#[trigger] all[k]).id != 0,
            forall|k: int, l: int|
                0 <= k < i && 0 <= l < all.len() && k != l ==> (#[trigger] all[k]).id
                    != (#[trigger] all[l]).id,
        decreases articles@.len() - i,
    {
        if articles[i].id == 0 {
            assert(all[i as int].id == 0);
            return false;
        }
        let mut j: usize = 0;
        while j < articles.len()
            invariant
                i < articles@.len(),
                j <= articles@.len(),
                all == articles_view(articles@),
                forall|l: int| 0 <= l < j && l != i ==> all[i as int].id != (#[trigger] all[l]).id,
            decreases articles@.len() - j,
        {
            if j != i && articles[j].id == articles[i].id {
                assert(all[i as int].id == all[j as int].id);
                return false;
            }
            j = j + 1;
        }
        i = i + 1;
    }
    true
}

} // verus!
