use vstd::prelude::*;

use super::tags::{links_of, links_to, ArticleLink};
use crate::markdown::article::FrontMatter;

verus! {

/// The page that lists every article.
pub struct Articles<'a> {
    articles: Vec<ArticleLink<'a>>,
}

impl<'a> Articles<'a> {
    /// The links on the page.
    pub closed spec fn links(&self) -> Seq<ArticleLink<'a>> {
        self.articles@
    }

    /// The page with a link to each of `articles`, in order.
    pub fn new(articles: &'a Vec<(FrontMatter, String)>) -> (page: Articles<'a>)
        ensures
            links_to(page.links(), articles@),
    {
        Articles { articles: links_of(articles) }
    }

    /// The links on the page.
    pub fn articles(&self) -> (l: &Vec<ArticleLink<'a>>)
        ensures
            l@ == self.links(),
    {
        &self.articles
    }
}

} // verus!
