use blog_gen::markdown::article::{front_matter_yaml, Article, FrontMatter};
use blog_gen::markdown::{iter_nodes, CodeHighlighter, DocNode, MDComrakSettings, MarkdownOptions, ThemeError};
use blog_gen::text::{chars_of, string_of};
use chrono::NaiveDate;

const THEME: &str = "<?xml version=\"1.0\" encoding=\"UTF-8\"?>\n<!DOCTYPE plist PUBLIC \"-//Apple//DTD PLIST 1.0//EN\" \"http://www.apple.com/DTDs/PropertyList-1.0.dtd\">\n<plist version=\"1.0\"><dict><key>name</key><string>Test</string><key>settings</key><array><dict><key>settings</key><dict><key>background</key><string>#102030</string><key>foreground</key><string>#FFFFFF</string></dict></dict></array></dict></plist>\n";

fn highlighter() -> CodeHighlighter {
    MDComrakSettings::load_theme("test", THEME.as_bytes()).ok().unwrap()
}

fn node(front_matter: Option<&str>, children: Vec<DocNode>) -> DocNode {
    DocNode { front_matter: front_matter.map(|s| s.to_string()), children }
}

#[test]
fn chars_round_trip() {
    let v = chars_of("aé\n");
    assert_eq!(v, vec!['a', 'é', '\n']);
    assert_eq!(string_of(&v), "aé\n");
    assert_eq!(string_of(&[]), "");
}

#[test]
fn yaml_drops_delimiter_lines() {
    let raw = "---\nname: Hello\nsummary: A post\n---\n";
    assert_eq!(front_matter_yaml(raw), "name: Hello\nsummary: A post\n");
}

#[test]
fn yaml_handles_crlf_line_endings() {
    assert_eq!(front_matter_yaml("---\r\nname: a\r\n---\r\n\r\n"), "name: a\n\n");
}

#[test]
fn yaml_keeps_an_unterminated_last_line() {
    assert_eq!(front_matter_yaml("---\ntags: []\n---"), "tags: []\n");
    assert_eq!(front_matter_yaml("a: 1"), "a: 1\n");
    // a lone carriage return at the end is no line ending
    assert_eq!(front_matter_yaml("a\r"), "a\r\n");
}

#[test]
fn yaml_keeps_lines_that_only_look_like_delimiters() {
    assert_eq!(front_matter_yaml("----\n --- \n---\n"), "----\n --- \n");
}

#[test]
fn yaml_of_empty_text_is_empty() {
    assert_eq!(front_matter_yaml(""), "");
    assert_eq!(front_matter_yaml("---\n---\n"), "");
}

#[test]
fn yaml_lines_law_on_an_example() {
    // the lines of the YAML are the lines of the block without the delimiter lines
    let raw = "---\nx: 1\n---\ny: 2\n";
    let yaml = front_matter_yaml(raw);
    let kept: Vec<&str> = raw.lines().filter(|l| *l != "---").collect();
    assert_eq!(yaml.lines().collect::<Vec<_>>(), kept);
}

#[test]
fn iter_nodes_visits_in_preorder() {
    let tree = node(
        None,
        vec![node(Some("a"), vec![node(Some("b"), vec![])]), node(Some("c"), vec![])],
    );
    let mut visited = Vec::new();
    iter_nodes(&tree, &mut visited);
    let seen: Vec<Option<&str>> = visited.iter().map(|n| n.front_matter.as_deref()).collect();
    assert_eq!(seen, vec![None, Some("a"), Some("b"), Some("c")]);
}

#[test]
fn iter_nodes_appends_to_what_was_visited() {
    let first = node(Some("x"), vec![]);
    let second = node(None, vec![node(Some("y"), vec![])]);
    let mut visited = Vec::new();
    iter_nodes(&first, &mut visited);
    iter_nodes(&second, &mut visited);
    assert_eq!(visited.len(), 3);
    assert_eq!(visited[2].front_matter.as_deref(), Some("y"));
}

#[test]
fn site_options_are_set() {
    let o = MarkdownOptions::site();
    assert!(o.unsafe_html && o.autolink && o.table && o.tasklist && o.superscript && o.footnotes);
    assert_eq!(o.front_matter_delimiter.as_deref(), Some("---"));
    assert_eq!(o.header_ids.as_deref(), Some("header-id-"));
}

#[test]
fn settings_keep_their_options() {
    let adapter = highlighter();
    let settings = MDComrakSettings::default(&adapter);
    assert_eq!(settings.options().header_ids.as_deref(), Some("header-id-"));
}

#[test]
fn frontmatter_yaml_of_a_document() {
    let adapter = highlighter();
    let settings = MDComrakSettings::default(&adapter);
    // comrak counts the blank line after the closing delimiter as part of the block
    let content = "---\nname: First\ntags:\n  - rust\n---\n\n# Heading\n\nText.\n";
    assert_eq!(Article::frontmatter_yaml(content, &settings), "name: First\ntags:\n  - rust\n\n");
    let tight = "---\nname: Second\n---\n# Heading\n";
    assert_eq!(Article::frontmatter_yaml(tight, &settings), "name: Second\n");
}

#[test]
fn frontmatter_yaml_of_a_document_without_front_matter() {
    let adapter = highlighter();
    let settings = MDComrakSettings::default(&adapter);
    assert_eq!(Article::frontmatter_yaml("# Only a heading\n", &settings), "");
}

#[test]
fn frontmatter_needs_the_delimiter_option() {
    let adapter = highlighter();
    let mut options = MarkdownOptions::site();
    options.front_matter_delimiter = None;
    let settings = MDComrakSettings::new(options, Some(&adapter));
    assert_eq!(Article::frontmatter_yaml("---\nname: a\n---\n", &settings), "");
}

fn sample_frontmatter(name: &str) -> FrontMatter {
    FrontMatter {
        name: name.to_string(),
        summary: "s".to_string(),
        published: NaiveDate::from_ymd_opt(2023, 1, 2).unwrap(),
        updated: NaiveDate::from_ymd_opt(2023, 3, 4).unwrap(),
        tags: vec!["rust".to_string()],
    }
}

#[test]
fn render_keeps_front_matter_and_renders_html() {
    let adapter = highlighter();
    let settings = MDComrakSettings::default(&adapter);
    let content = "---\nname: First\n---\n# Title\n\n| a | b |\n|---|---|\n| 1 | 2 |\n";
    let article = Article::render(content, &settings, sample_frontmatter("First"));
    assert_eq!(article.frontmatter.name, "First");
    assert!(article.html_content.contains("id=\"header-id-title\""));
    assert!(article.html_content.contains("<table>"));
    assert!(!article.html_content.contains("name: First"));
}

#[test]
fn render_lets_raw_html_through() {
    let adapter = highlighter();
    let settings = MDComrakSettings::default(&adapter);
    let article = Article::render("<div class=\"x\">hi</div>\n", &settings, sample_frontmatter("a"));
    assert!(article.html_content.contains("<div class=\"x\">hi</div>"));
}

#[test]
fn frontmatter_clone_keeps_dates() {
    let f = sample_frontmatter("n");
    let g = f.clone();
    assert_eq!(g.published, f.published);
    assert_eq!(g.tags, f.tags);
}

#[test]
fn load_theme_accepts_a_theme() {
    assert!(MDComrakSettings::load_theme("t", THEME.as_bytes()).is_ok());
}

#[test]
fn load_theme_refuses_garbage() {
    match MDComrakSettings::load_theme("t", b"not a theme") {
        Err(ThemeError::Loading(_)) => {}
        Ok(_) => panic!("garbage loaded as a theme"),
    }
}

#[test]
fn render_highlights_code_with_the_theme() {
    let adapter = highlighter();
    let settings = MDComrakSettings::default(&adapter);
    let article = Article::render("```rust\nfn main() {}\n```\n", &settings, sample_frontmatter("c"));
    // the theme's background colour is put on the <pre> tag
    assert!(article.html_content.contains("background-color:#102030"));
    assert!(article.html_content.contains("main"));
}

#[test]
fn render_without_highlighter() {
    let settings = MDComrakSettings::new(MarkdownOptions::site(), None);
    let article = Article::render("```rust\nlet x = 1;\n```\n", &settings, sample_frontmatter("d"));
    assert!(article.html_content.contains("<pre><code class=\"language-rust\">let x = 1;\n</code></pre>"));
}
