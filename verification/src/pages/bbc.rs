//! BBC News articles kept under their full address.

pub mod crawl;
pub mod document;

use vstd::prelude::*;
use crate::sites::bbc::url::{
    base, check_article_number, check_live_segment, has_live_segment, is_article_number,
    last_word,
};
use crate::text::{
    chars_of, copy_range, has_prefix, lemma_split_nonempty, same_chars, split, split_chars,
    starts_with, texts, views,
};

verus! {

/// What follows the base in `raw` where `raw` begins with the base, and
/// `raw` itself otherwise.
pub open spec fn path_of(raw: Seq<char>) -> Seq<char> {
    if starts_with(raw, base()) {
        raw.skip(base().len() as int)
    } else {
        raw
    }
}

/// `path` is the path of an article: it begins with `/news`, its third
/// segment exists and is `article` unless the path ends with an article
/// number, and no segment is `live`.
pub open spec fn is_article_path(path: Seq<char>) -> bool {
    let segments = split(path, '/');
    &&& starts_with(path, "/news"@)
    &&& segments.len() > 2
    &&& segments[2] == "article"@ || is_article_number(last_word(path))
    &&& !has_live_segment(path)
}

/// The full addresses of the articles among `raws`, in order.
pub open spec fn article_urls(raws: Seq<Seq<char>>) -> Seq<Seq<char>> {
    raws.filter(|raw: Seq<char>| is_article_path(path_of(raw))).map_values(
        |raw: Seq<char>| base() + path_of(raw),
    )
}

/// The texts of a sequence of addresses.
pub open spec fn url_texts(urls: Seq<URL>) -> Seq<Seq<char>> {
    Seq::new(urls.len(), |i: int| urls[i].0@)
}

/// The full address of a BBC News article.
#[derive(Debug, PartialEq, Eq, Hash)]
pub struct URL(pub String);

impl Clone for URL {
    fn clone(&self) -> (r: Self)
        ensures
            r == *self,
    {
        URL(self.0.clone())
    }
}

impl URL {
    /// The address of the article that `url` names, or `None` if `url` does
    /// not name an article.
    pub fn new(url: &str) -> (r: Option<Self>)
        ensures
            r is Some <==> is_article_path(path_of(url@)),
            r matches Some(u) ==> u.0@ == base() + path_of(url@),
    {
        match Self::parse_url(url) {
            Some(full) => Some(URL(full)),
            None => None,
        }
    }

    /// The full address.
    pub fn url(&self) -> (r: String)
        ensures
            r@ == self.0@,
    {
        self.0.clone()
    }

    /// The full address of the article that `url` names, or `None` if `url`
    /// does not name an article.
    pub fn parse_url(url: &str) -> (r: Option<String>)
        ensures
            r is Some <==> is_article_path(path_of(url@)),
            r matches Some(full) ==> full@ == base() + path_of(url@),
    {
        let raw = chars_of(url);
        let base = chars_of("https://www.bbc.co.uk");
        let from = if has_prefix(&raw, &base) {
            base.len()
        } else {
            0
        };
        assert(raw@.skip(from as int) =~= raw@.subrange(from as int, raw@.len() as int));
        assert(raw@.skip(0) =~= raw@);
        let path = copy_range(&raw, from, raw.len());
        if !has_prefix(&path, &chars_of("/news")) {
            return None;
        }
        let segments = split_chars(&path, '/');
        proof {
            lemma_split_nonempty(path@, '/');
        }
        let words = split_chars(&segments[segments.len() - 1], '-');
        proof {
            lemma_split_nonempty(segments[segments.len() - 1]@, '-');
            assert(views(segments@).last() == segments[segments.len() - 1]@);
            assert(views(words@).last() == words[words.len() - 1]@);
        }
        let ends_with_number = check_article_number(&words[words.len() - 1]);
        assert(views(segments@).len() > 2 ==> views(segments@)[2] == segments[2]@);
        let has_article_or_number = segments.len() > 2 && (same_chars(
            &segments[2],
            &chars_of("article"),
        ) || ends_with_number);
        if has_article_or_number && !check_live_segment(&segments) {
            let mut full = String::from_str("https://www.bbc.co.uk");
            full.append(url.substring_char(from, raw.len()));
            Some(full)
        } else {
            None
        }
    }

    /// The addresses of the articles that `urls` name, in order.
    pub fn from_list(urls: Vec<String>) -> (r: Vec<Self>)
        ensures
            url_texts(r@) == article_urls(texts(urls@)),
    {
        let ghost raws = texts(urls@);
        let ghost keep = |raw: Seq<char>| is_article_path(path_of(raw));
        let ghost full = |raw: Seq<char>| base() + path_of(raw);
        let mut out: Vec<URL> = Vec::new();
        let mut i: usize = 0;
        proof {
            reveal(Seq::filter);
            assert(raws.take(0) =~= Seq::<Seq<char>>::empty());
            assert(url_texts(out@) =~= raws.take(0).filter(keep).map_values(full));
        }
        while i < urls.len()
            invariant
                i <= urls.len(),
                raws == texts(urls@),
                keep == |raw: Seq<char>| is_article_path(path_of(raw)),
                full == |raw: Seq<char>| base() + path_of(raw),
                url_texts(out@) == raws.take(i as int).filter(keep).map_values(full),
            decreases urls.len() - i,
        {
            let ghost before = raws.take(i as int);
            let ghost raw = urls[i as int]@;
            let ghost old_out = url_texts(out@);
            proof {
                assert(raws.take(i + 1) =~= before.push(raw));
                Seq::lemma_filter_push(before, raw, keep);
                assert(before.filter(keep).push(raw).map_values(full) =~= before.filter(
                    keep,
                ).map_values(full).push(full(raw)));
            }
            match URL::new(urls[i].as_str()) {
                Some(url) => {
                    out.push(url);
                    assert(url_texts(out@) =~= old_out.push(full(raw)));
                },
                None => {},
            }
            i += 1;
        }
        assert(raws.take(i as int) =~= raws);
        out
    }

    /// An article at this address with nothing in it.
    pub fn to_article(self) -> (r: Article)
        ensures
            r.url == self,
            r.title@ == Seq::<char>::empty(),
            r.content@ == Seq::<char>::empty(),
            r.related_topics@ == Seq::<String>::empty(),
    {
        proof {
            reveal_strlit("");
        }
        Article::new(self, "", "", Vec::new())
    }
}

/// A BBC News article as it is read from its page.
#[derive(Debug, Clone, PartialEq, Eq)]
pub struct BBCNewsArticle {
    pub title: String,
    pub content: Vec<String>,
    pub related_topics: Vec<String>,
    pub timestamp: Vec<String>,
}

/// A BBC News article: its address, headline, text and topics.
#[derive(Debug, Clone, PartialEq, Eq)]
pub struct Article {
    pub url: URL,
    pub title: String,
    pub content: String,
    pub related_topics: Vec<String>,
}

impl Article {
    /// The article at `url` with the given headline, text and topics.
    pub fn new(url: URL, title: &str, content: &str, related_topics: Vec<String>) -> (r: Self)
        ensures
            r.url == url,
            r.title@ == title@,
            r.content@ == content@,
            r.related_topics == related_topics,
    {
        Article {
            url,
            title: String::from_str(title),
            content: String::from_str(content),
            related_topics,
        }
    }
}

/// An article together with the articles it links to.
#[derive(Debug, Clone, PartialEq, Eq)]
pub struct LinkedArticle {
    pub article: Article,
    pub links: Vec<URL>,
}

impl LinkedArticle {
    /// `article` with the addresses of the articles that `links` name.
    pub fn new(article: Article, links: Vec<String>) -> (r: Self)
        ensures
            r.article == article,
            url_texts(r.links@) == article_urls(texts(links@)),
    {
        LinkedArticle { article, links: URL::from_list(links) }
    }
}

} // verus!
