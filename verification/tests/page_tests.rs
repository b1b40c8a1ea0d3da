use blog_gen::markdown::article::FrontMatter;
use blog_gen::page_gen::articles::Articles;
use blog_gen::page_gen::home::Home;
use blog_gen::page_gen::tags::{links_of, TagArticles, Tags};
use chrono::NaiveDate;

fn fm(name: &str) -> FrontMatter {
    FrontMatter {
        name: name.to_string(),
        summary: format!("about {name}"),
        published: NaiveDate::from_ymd_opt(2022, 5, 6).unwrap(),
        updated: NaiveDate::from_ymd_opt(2022, 7, 8).unwrap(),
        tags: vec![],
    }
}

#[test]
fn tags_page_lists_the_given_tags() {
    let a = "rust".to_string();
    let b = "verus".to_string();
    let tags = vec![&a, &b];
    let page = Tags::new(&tags);
    assert_eq!(page.tags(), &tags);
}

#[test]
fn articles_page_links_every_article_in_order() {
    let articles = vec![(fm("one"), "one.html".to_string()), (fm("two"), "two.html".to_string())];
    let page = Articles::new(&articles);
    let links = page.articles();
    assert_eq!(links.len(), 2);
    assert_eq!(links[0].frontmatter.name, "one");
    assert_eq!(links[0].link, "one.html");
    assert_eq!(links[1].frontmatter.name, "two");
    assert_eq!(links[1].link, "two.html");
}

#[test]
fn tag_page_keeps_its_tag_and_links() {
    let tag = "rust".to_string();
    let articles = vec![(fm("x"), "x.html".to_string())];
    let page = TagArticles::new(&tag, &articles);
    assert_eq!(page.tag(), "rust");
    assert_eq!(page.article_links().len(), 1);
    assert_eq!(page.article_links()[0].link, "x.html");
}

#[test]
fn no_articles_no_links() {
    let articles: Vec<(FrontMatter, String)> = vec![];
    assert!(links_of(&articles).is_empty());
    assert!(Articles::new(&articles).articles().is_empty());
}

#[test]
fn home_page_exists() {
    let _home = Home {};
}
