//! Article sources: a metadata block between `---` lines, then the body.
//! The metadata block holds `key: value` lines; `id`, `title` and `date`
//! are read, other keys are ignored.
use vstd::prelude::*;
use vstd::multiset::Multiset;
use vstd::string::StrSliceExecFns;
use vstd::string::StringExecFns;
use crate::text::{trim, trim_str, str_eq, parse_usize, parse_usize_spec};
use crate::models::{Article, ArticleView};

verus! {

broadcast use
    vstd::seq_lib::to_multiset_build,
    vstd::seq_lib::to_multiset_insert,
    vstd::seq_lib::to_multiset_len,
    vstd::multiset::lemma_multiset_empty_len,
;

/// The front-matter layout: `---`, the metadata, `---`, the body.
pub const FRONT_MATTER: &'static str = r"(?s)^---\r?\n(.*?)\r?\n---\r?\n(.*)$";

/// The first two capture groups of the first match of the regular
/// expression `pattern` in `haystack`; none where the pattern does not
/// compile, does not match, or leaves either group unset.
pub uninterp spec fn captures_2(pattern: Seq<char>, haystack: Seq<char>) -> Option<(Seq<char>, Seq<char>)>;

/// Relies on `regex::Regex::new` and `Regex::captures` (regex 1.x): the
/// text of groups 1 and 2 of the leftmost-first match, as the crate
/// defines them.
#[verifier::external_body]
fn first_two_groups(pattern: &str, haystack: &str) -> (r: Option<(String, String)>)
    ensures
        match r {
            Some(p) => captures_2(pattern@, haystack@) == Some((p.0@, p.1@)),
            None => captures_2(pattern@, haystack@) is None,
        },
{
    let re = regex::Regex::new(pattern).ok()?;
    let caps = re.captures(haystack)?;
    Some((caps.get(1)?.as_str().to_string(), caps.get(2)?.as_str().to_string()))
}

/// Why a source yields no article.
#[derive(Clone, Copy, Debug, PartialEq, Eq, Structural)]
pub enum PostError {
    /// The text is not laid out as metadata block and body.
    InvalidFormat,
    /// The metadata gives no positive `id`.
    MissingId,
}

/// The metadata read so far.
#[derive(Debug)]
pub struct PostMeta {
    pub id: usize,
    pub title: String,
    pub date: String,
}

pub struct MetaView {
    pub id: usize,
    pub title: Seq<char>,
    pub date: Seq<char>,
}

impl View for PostMeta {
    type V = MetaView;

    open spec fn view(&self) -> MetaView {
        MetaView { id: self.id, title: self.title@, date: self.date@ }
    }
}

/// A line without its final carriage return, if it has one.
pub open spec fn strip_cr(l: Seq<char>) -> Seq<char> {
    if l.len() > 0 && l.last() == '\r' {
        l.drop_last()
    } else {
        l
    }
}

/// Scanning state after `s`: the finished lines, and the line being read.
pub open spec fn line_state(s: Seq<char>) -> (Seq<Seq<char>>, Seq<char>)
    decreases s.len(),
{
    if s.len() == 0 {
        (seq![], seq![])
    } else {
        let (done, cur) = line_state(s.drop_last());
        if s.last() == '\n' {
            (done.push(strip_cr(cur)), seq![])
        } else {
            (done, cur.push(s.last()))
        }
    }
}

/// The lines of `s`, ended by `\n` or `\r\n`; the last needs no ending.
pub open spec fn lines(s: Seq<char>) -> Seq<Seq<char>> {
    let (done, cur) = line_state(s);
    if cur.len() > 0 {
        done.push(cur)
    } else {
        done
    }
}

/// `k` is the first colon of `l`.
pub open spec fn first_colon(l: Seq<char>, k: int) -> bool {
    &&& 0 <= k < l.len()
    &&& l[k] == ':'
    &&& forall|j: int| 0 <= j < k ==> l[j] != ':'
}

/// The metadata after one more line: a line `key: value` (split at its
/// first colon, both sides trimmed) sets the field named by the key. An
/// `id` that is not a number reads as 0.
pub open spec fn apply_line(m: MetaView, l: Seq<char>) -> MetaView {
    if exists|k: int| first_colon(l, k) {
        let k = choose|k: int| first_colon(l, k);
        let key = trim(l.subrange(0, k));
        let value = trim(l.subrange(k + 1, l.len() as int));
        if key == "id"@ {
            MetaView {
                id: match parse_usize_spec(value) {
                    Some(v) => v,
                    None => 0,
                },
                ..m
            }
        } else if key == "title"@ {
            MetaView { title: value, ..m }
        } else if key == "date"@ {
            MetaView { date: value, ..m }
        } else {
            m
        }
    } else {
        m
    }
}

pub open spec fn meta_of_lines(ls: Seq<Seq<char>>) -> MetaView
    decreases ls.len(),
{
    if ls.len() == 0 {
        MetaView { id: 0, title: seq![], date: seq![] }
    } else {
        apply_line(meta_of_lines(ls.drop_last()), ls.last())
    }
}

/// The metadata that a block states.
pub open spec fn meta_of(block: Seq<char>) -> MetaView {
    meta_of_lines(lines(block))
}

/// The article that a metadata block and a body describe.
pub open spec fn post_of(block: Seq<char>, body: Seq<char>) -> Result<ArticleView, PostError> {
    let m = meta_of(block);
    if m.id == 0 {
        Err(PostError::MissingId)
    } else {
        Ok(ArticleView { id: m.id, title: m.title, date: m.date, content: trim(body) })
    }
}

pub open spec fn post_result_view(r: Result<Article, PostError>) -> Result<ArticleView, PostError> {
    match r {
        Ok(a) => Ok(a@),
        Err(e) => Err(e),
    }
}

/// The article that the source text `raw` describes.
pub open spec fn post_from_source(raw: Seq<char>) -> Result<ArticleView, PostError> {
    match captures_2(FRONT_MATTER@, raw) {
        Some(p) => post_of(p.0, p.1),
        None => Err(PostError::InvalidFormat),
    }
}

fn apply_meta_line(m: &mut PostMeta, line: &str)
    ensures
        final(m)@ == apply_line(old(m)@, line@),
{
    let n = line.unicode_len();
    let mut k: usize = 0;
    while k < n && line.get_char(k) != ':'
        invariant
            n == line@.len(),
            k <= n,
            forall|j: int| 0 <= j < k ==> line@[j] != ':',
        decreases n - k,
    {
        k = k + 1;
    }
    if k == n {
        return;
    }
    assert(first_colon(line@, k as int));
    assert forall|k2: int| first_colon(line@, k2) implies k2 == k by {
        if k2 < k {
            assert(line@[k2] != ':');
        }
        if k2 > k {
            assert(line@[k as int] != ':');
        }
    };
    let key = trim_str(line.substring_char(0, k));
    let value = trim_str(line.substring_char(k + 1, n));
    if str_eq(key, "id") {
        m.id = match parse_usize(value) {
            Some(v) => v,
            None => 0,
        };
    } else if str_eq(key, "title") {
        m.title = String::from_str(value);
    } else if str_eq(key, "date") {
        m.date = String::from_str(value);
    }
}

/// Reads the `id`, `title` and `date` of a metadata block; later lines
/// override earlier ones.
pub fn parse_metadata(block: &str) -> (r: PostMeta)
    ensures
        r@ == meta_of(block@),
{
    let n = block.unicode_len();
    let mut m = PostMeta { id: 0, title: String::new(), date: String::new() };
    let mut start: usize = 0;
    let mut i: usize = 0;
    while i < n
        invariant
            n == block@.len(),
            start <= i <= n,
            m@ == meta_of_lines(line_state(block@.subrange(0, i as int)).0),
            line_state(block@.subrange(0, i as int)).1 == block@.subrange(start as int, i as int),
        decreases n - i,
    {
        let c = block.get_char(i);
        proof {
            assert(block@.subrange(0, i + 1).drop_last() =~= block@.subrange(0, i as int));
            assert(block@.subrange(0, i + 1).last() == c);
        }
        if c == '\n' {
            let ghost cur = block@.subrange(start as int, i as int);
            let ghost done = line_state(block@.subrange(0, i as int)).0;
            let mut end = i;
            if end > start && block.get_char(end - 1) == '\r' {
                end = end - 1;
                assert(block@.subrange(start as int, end as int) =~= cur.drop_last());
            } else {
                assert(block@.subrange(start as int, end as int) =~= cur);
            }
            apply_meta_line(&mut m, block.substring_char(start, end));
            assert(done.push(strip_cr(cur)).drop_last() =~= done);
            start = i + 1;
            assert(block@.subrange(start as int, i + 1) =~= Seq::<char>::empty());
        } else {
            assert(block@.subrange(start as int, i + 1) =~= block@.subrange(start as int, i as int).push(c));
        }
        i = i + 1;
    }
    assert(block@.subrange(0, n as int) =~= block@);
    if start < n {
        let ghost done = line_state(block@).0;
        apply_meta_line(&mut m, block.substring_char(start, n));
        assert(done.push(block@.subrange(start as int, n as int)).drop_last() =~= done);
    }
    m
}

/// Builds the article from a metadata block and a body: the body is
/// trimmed, and a block without a positive `id` is refused.
pub fn post_from_parts(block: &str, body: &str) -> (r: Result<Article, PostError>)
    ensures
        post_result_view(r) == post_of(block@, body@),
{
    let m = parse_metadata(block);
    if m.id == 0 {
        return Err(PostError::MissingId);
    }
    let content = String::from_str(trim_str(body));
    Ok(Article { id: m.id, title: m.title, date: m.date, content })
}

/// Reads one article source: metadata block between `---` lines, then
/// the body.
pub fn parse_post(raw: &str) -> (r: Result<Article, PostError>)
    ensures
        post_result_view(r) == post_from_source(raw@),
{
    match first_two_groups(FRONT_MATTER, raw) {
        Some(p) => post_from_parts(p.0.as_str(), p.1.as_str()),
        None => Err(PostError::InvalidFormat),
    }
}

pub open spec fn sorted_by_id(s: Seq<Article>) -> bool {
    forall|i: int, j: int| 0 <= i < j < s.len() ==> s[i].id <= s[j].id
}

/// The same articles ordered by ascending id; articles with equal ids keep
/// their order.
pub fn sort_by_id(articles: Vec<Article>) -> (r: Vec<Article>)
    ensures
        r@.to_multiset() == articles@.to_multiset(),
        sorted_by_id(r@),
{
    let mut rest = articles;
    let mut out: Vec<Article> = Vec::new();
    assert(out@.to_multiset().len() == 0);
    assert(out@.to_multiset() =~= Multiset::empty());
    assert(out@.to_multiset().add(rest@.to_multiset()) =~= rest@.to_multiset());
    while rest.len() > 0
        invariant
            out@.to_multiset().add(rest@.to_multiset()) == articles@.to_multiset(),
            sorted_by_id(out@),
        decreases rest@.len(),
    {
        let ghost before = rest@;
        let a = rest.pop().unwrap();
        assert(before =~= rest@.push(a));
        let mut k: usize = 0;
        while k < out.len() && out[k].id < a.id
            invariant
                k <= out@.len(),
                forall|j: int| 0 <= j < k ==> out@[j].id < a.id,
            decreases out@.len() - k,
        {
            k = k + 1;
        }
        let ghost prev = out@;
        out.insert(k, a);
        assert(out@.to_multiset() =~= prev.to_multiset().insert(a));
        assert(out@.to_multiset().add(rest@.to_multiset()) =~= prev.to_multiset().add(
            before.to_multiset(),
        ));
        assert forall|i: int, j: int| 0 <= i < j < out@.len() implies out@[i].id <= out@[j].id by {
            if j < k {
                assert(out@[i] == prev[i] && out@[j] == prev[j]);
            } else if j == k {
                assert(out@[i] == prev[i]);
            } else if i < k {
                assert(out@[i] == prev[i] && out@[j] == prev[j - 1]);
                assert(prev[k as int].id >= a.id);
            } else if i == k {
                assert(out@[j] == prev[j - 1]);
                assert(prev[k as int].id >= a.id);
            } else {
                assert(out@[i] == prev[i - 1] && out@[j] == prev[j - 1]);
            }
        };
    }
    assert(rest@.to_multiset().len() == 0);
    assert(rest@.to_multiset() =~= Multiset::empty());
    assert(out@.to_multiset().add(rest@.to_multiset()) =~= out@.to_multiset());
    out
}

} // verus!
