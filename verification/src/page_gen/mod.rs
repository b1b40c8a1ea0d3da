use vstd::prelude::*;

use crate::markdown::article::FrontMatter;

pub mod articles;
pub mod home;
pub mod tags;

verus! {

/// A link to an article, with the article's front matter.
pub struct ArticleLink<'a> {
    frontmatter: &'a FrontMatter,
    link: &'a String,
}

} // verus!
