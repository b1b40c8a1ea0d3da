use vstd::prelude::*;

use crate::markdown::article::FrontMatter;

verus! {

/// The page that lists every tag.
pub struct Tags<'a> {
    tags: &'a Vec<&'a String>,
}

impl<'a> Tags<'a> {
    /// The tags that the page lists.
    pub closed spec fn listed(&self) -> &'a Vec<&'a String> {
        self.tags
    }

    /// The page that lists `tags`.
    pub fn new(tags: &'a Vec<&'a String>) -> (t: Tags<'a>)
        ensures
            t.listed() == tags,
    {
        Tags { tags }
    }

    /// The tags that the page lists.
    pub fn tags(&self) -> (t: &'a Vec<&'a String>)
        ensures
            t == self.listed(),
    {
        self.tags
    }
}

/// A link to an article, with the article's front matter.
pub struct ArticleLink<'a> {
    pub frontmatter: &'a FrontMatter,
    pub link: &'a String,
}

/// Does `links` hold one link per article of `articles`, in the same order, each to the
/// front matter and the link of its article?
pub open spec fn links_to(links: Seq<ArticleLink>, articles: Seq<(FrontMatter, String)>) -> bool {
    &&& links.len() == articles.len()
    &&& forall|i: int|
        0 <= i < links.len() ==> *(#[trigger] links[i]).frontmatter == articles[i].0
            && *links[i].link == articles[i].1
}

/// The links to `articles`: one per article, in the same order.
pub fn links_of<'a>(articles: &'a Vec<(FrontMatter, String)>) -> (links: Vec<ArticleLink<'a>>)
    ensures
        links_to(links@, articles@),
{
    let mut links: Vec<ArticleLink<'a>> = Vec::new();
    let mut i: usize = 0;
    while i < articles.len()
        invariant
            i <= articles.len(),
            links_to(links@, articles@.take(i as int)),
        decreases articles.len() - i,
    {
        let entry: &'a (FrontMatter, String) = &articles[i];
        links.push(ArticleLink { frontmatter: &entry.0, link: &entry.1 });
        i += 1;
    }
    assert(articles@.take(articles.len() as int) =~= articles@);
    links
}

/// The page of one tag, with links to the articles that carry it.
pub struct TagArticles<'a> {
    tag: &'a String,
    article_links: Vec<ArticleLink<'a>>,
}

impl<'a> TagArticles<'a> {
    /// The tag of the page.
    pub closed spec fn page_tag(&self) -> &'a String {
        self.tag
    }

    /// The links on the page.
    pub closed spec fn links(&self) -> Seq<ArticleLink<'a>> {
        self.article_links@
    }

    /// The page of `tag`, with a link to each of `article_links`, in order.
    pub fn new(tag: &'a String, article_links: &'a Vec<(FrontMatter, String)>) -> (page:
        TagArticles<'a>)
        ensures
            page.page_tag() == tag,
            links_to(page.links(), article_links@),
    {
        let links = links_of(article_links);
        TagArticles { tag, article_links: links }
    }

    /// The tag of the page.
    pub fn tag(&self) -> (t: &'a String)
        ensures
            t == self.page_tag(),
    {
        self.tag
    }

    /// The links on the page.
    pub fn article_links(&self) -> (l: &Vec<ArticleLink<'a>>)
        ensures
            l@ == self.links(),
    {
        &self.article_links
    }
}

} // verus!
