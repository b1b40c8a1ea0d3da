use vstd::prelude::*;

use comrak::arena_tree::NodeEdge;
use comrak::nodes::NodeValue;
use comrak::plugins::syntect::{SyntectAdapter, SyntectAdapterBuilder};
use syntect::highlighting::{Theme, ThemeSet};
use syntect::LoadingError;

pub mod article;


verus! {

/// comrak's parser and renderer options, carried through as an opaque value.
#[verifier::external_type_specification]
#[verifier::external_body]
pub struct ExComrakOptions(comrak::Options);

/// comrak's syntect code block highlighter, carried through as an opaque value.
#[verifier::external_type_specification]
#[verifier::external_body]
pub struct ExSyntectAdapter(SyntectAdapter);

/// A node of a parsed markdown document: the text of the node when it is a front matter
/// block, and its children in document order. All other node kinds hold `None`.
pub struct DocNode {
    pub front_matter: Option<String>,
    pub children: Vec<DocNode>,
}

/// The nodes of the tree under `node` in pre-order: `node`, then the nodes under each of its
/// children, from the first child to the last.
pub open spec fn preorder(node: DocNode) -> Seq<DocNode>
    decreases node,
{
    seq![node] + preorder_forest(node.children@)
}

/// The nodes of the trees `nodes` in pre-order, one tree after the other.
pub open spec fn preorder_forest(nodes: Seq<DocNode>) -> Seq<DocNode>
    decreases nodes,
{
    if nodes.len() == 0 {
        Seq::<DocNode>::empty()
    } else {
        preorder_forest(nodes.drop_last()) + preorder(nodes.last())
    }
}

/// The number of nodes of the tree under `node`: `node` and the nodes under each child.
pub open spec fn tree_size(node: DocNode) -> nat
    decreases node,
{
    1 + forest_size(node.children@)
}

/// The number of nodes of the trees `nodes`.
pub open spec fn forest_size(nodes: Seq<DocNode>) -> nat
    decreases nodes,
{
    if nodes.len() == 0 {
        0
    } else {
        forest_size(nodes.drop_last()) + tree_size(nodes.last())
    }
}

/// Law: the pre-order of a tree lists as many nodes as the tree has, at every depth, and
/// starts with the tree's root.
pub proof fn law_preorder_size(node: DocNode)
    ensures
        preorder(node).len() == tree_size(node),
        preorder(node)[0] == node,
    decreases node,
{
    lemma_forest_size(node.children@);
}

/// The pre-order of trees lists as many nodes as the trees have.
proof fn lemma_forest_size(nodes: Seq<DocNode>)
    ensures
        preorder_forest(nodes).len() == forest_size(nodes),
    decreases nodes,
{
    if nodes.len() > 0 {
        lemma_forest_size(nodes.drop_last());
        law_preorder_size(nodes.last());
    }
}

/// The nodes that `refs` point to.
pub open spec fn deref_all(refs: Seq<&DocNode>) -> Seq<DocNode> {
    refs.map_values(|n: &DocNode| *n)
}

/// Visits every node of the tree under `node` in pre-order, appending each to `visited`.
pub fn iter_nodes<'a>(node: &'a DocNode, visited: &mut Vec<&'a DocNode>)
    ensures
        deref_all(final(visited)@) == deref_all(old(visited)@) + preorder(*node),
    decreases node,
{
    let ghost before = deref_all(visited@);
    visited.push(node);
    let mut i: usize = 0;
    proof {
        assert(node.children@.take(0) =~= Seq::<DocNode>::empty());
        assert(deref_all(visited@) =~= before + seq![*node] + preorder_forest(
            node.children@.take(0),
        ));
    }
    while i < node.children.len()
        invariant
            i <= node.children.len(),
            deref_all(visited@) == before + seq![*node] + preorder_forest(
                node.children@.take(i as int),
            ),
        decreases node.children.len() - i,
    {
        let ghost mid = deref_all(visited@);
        proof {
            assert(decreases_to!(node => node.children));
            assert(decreases_to!(node.children => node.children@));
            assert(decreases_to!(node.children@ => node.children@[i as int]));
        }
        iter_nodes(&node.children[i], visited);
        proof {
            let t = node.children@.take(i + 1);
            assert(t.drop_last() =~= node.children@.take(i as int));
            assert(t.last() == node.children@[i as int]);
            assert(deref_all(visited@) =~= before + seq![*node] + preorder_forest(t));
        }
        i += 1;
    }
    proof {
        assert(node.children@.take(node.children.len() as int) =~= node.children@);
        assert(deref_all(visited@) =~= before + preorder(*node));
    }
}


/// The options that the site hands to comrak; every other comrak option keeps its default.
pub struct MarkdownOptions {
    /// Let raw HTML and dangerous links through (`render.unsafe_`).
    pub unsafe_html: bool,
    pub front_matter_delimiter: Option<String>,
    pub autolink: bool,
    pub table: bool,
    pub tasklist: bool,
    pub superscript: bool,
    /// The prefix of the ids that headings get, where they get one.
    pub header_ids: Option<String>,
    pub footnotes: bool,
}

/// `MarkdownOptions` with its strings taken as character sequences.
pub struct MarkdownOptionsView {
    pub unsafe_html: bool,
    pub front_matter_delimiter: Option<Seq<char>>,
    pub autolink: bool,
    pub table: bool,
    pub tasklist: bool,
    pub superscript: bool,
    pub header_ids: Option<Seq<char>>,
    pub footnotes: bool,
}

pub open spec fn option_view(o: Option<String>) -> Option<Seq<char>> {
    match o {
        Some(s) => Some(s@),
        None => None,
    }
}

impl View for MarkdownOptions {
    type V = MarkdownOptionsView;

    open spec fn view(&self) -> MarkdownOptionsView {
        MarkdownOptionsView {
            unsafe_html: self.unsafe_html,
            front_matter_delimiter: option_view(self.front_matter_delimiter),
            autolink: self.autolink,
            table: self.table,
            tasklist: self.tasklist,
            superscript: self.superscript,
            header_ids: option_view(self.header_ids),
            footnotes: self.footnotes,
        }
    }
}

/// The options that this site renders its articles with: raw HTML allowed, `---` front
/// matter, autolinks, tables, task lists, superscript, footnotes, and heading ids that start
/// with `header-id-`.
pub open spec fn site_options() -> MarkdownOptionsView {
    MarkdownOptionsView {
        unsafe_html: true,
        front_matter_delimiter: Some(seq!['-', '-', '-']),
        autolink: true,
        table: true,
        tasklist: true,
        superscript: true,
        header_ids: Some(seq!['h', 'e', 'a', 'd', 'e', 'r', '-', 'i', 'd', '-']),
        footnotes: true,
    }
}

impl MarkdownOptions {
    /// The options of `site_options`.
    pub fn site() -> (o: MarkdownOptions)
        ensures
            o@ == site_options(),
    {
        let delimiter = "---".to_string();
        let header_ids = "header-id-".to_string();
        proof {
            reveal_strlit("---");
            reveal_strlit("header-id-");
            assert(delimiter@ =~= seq!['-', '-', '-']);
            assert(header_ids@ =~= seq!['h', 'e', 'a', 'd', 'e', 'r', '-', 'i', 'd', '-']);
        }
        MarkdownOptions {
            unsafe_html: true,
            front_matter_delimiter: Some(delimiter),
            autolink: true,
            table: true,
            tasklist: true,
            superscript: true,
            header_ids: Some(header_ids),
            footnotes: true,
        }
    }
}

/// A syntect theme, carried through as an opaque value.
#[verifier::external_type_specification]
#[verifier::external_body]
pub struct ExTheme(Theme);

/// syntect's error of a theme that does not load, carried through as an opaque value.
#[verifier::external_type_specification]
#[verifier::external_body]
pub struct ExLoadingError(LoadingError);

/// Whether syntect's `ThemeSet::load_from_reader` parses `data` as a theme (a plist
/// `.tmTheme` document).
pub uninterp spec fn theme_parses(data: Seq<u8>) -> bool;

/// syntect's `ThemeSet::load_from_reader`, reading `data` as a `.tmTheme` document. It loads
/// exactly where `theme_parses` holds of the bytes.
#[verifier::external_body]
fn parse_theme(data: &[u8]) -> (r: Result<Theme, LoadingError>)
    ensures
        r is Ok == theme_parses(data@),
{
    ThemeSet::load_from_reader(&mut std::io::Cursor::new(data))
}

/// comrak's `SyntectAdapterBuilder`, built with a theme set that holds `theme` alone, under
/// `name`, and with `name` as the theme it highlights with; syntect's default syntaxes. Nothing
/// is stated of the opaque adapter: it is made, and used, only inside `markdown_to_html`.
#[verifier::external_body]
fn adapter_for_theme(name: &str, theme: Theme) -> SyntectAdapter {
    let mut theme_set = ThemeSet::new();
    theme_set.themes.insert(name.to_string(), theme);
    SyntectAdapterBuilder::new().theme_set(theme_set).theme(name).build()
}

/// The highlighter of fenced code blocks: syntect, with one theme, read from `theme_data` and
/// registered under `theme_name`, which it highlights with. Only `load_theme` builds one, so
/// its theme data always loads; comrak's syntect adapter is made from these two values where
/// markdown is rendered.
pub struct CodeHighlighter {
    theme_name: String,
    theme_data: Vec<u8>,
}

impl CodeHighlighter {
    /// The theme data of a highlighter loads as a theme.
    #[verifier::type_invariant]
    spec fn theme_loads(self) -> bool {
        theme_parses(self.theme_data@)
    }
}

/// What a `CodeHighlighter` is made from: the name and the bytes of its theme.
pub struct CodeHighlighterView {
    pub theme_name: Seq<char>,
    pub theme_data: Seq<u8>,
}

impl View for CodeHighlighter {
    type V = CodeHighlighterView;

    closed spec fn view(&self) -> CodeHighlighterView {
        CodeHighlighterView { theme_name: self.theme_name@, theme_data: self.theme_data@ }
    }
}

/// Why a theme could not be loaded.
#[derive(Debug)]
pub enum ThemeError {
    /// syntect could not read the theme data.
    Loading(LoadingError),
}

/// The markdown settings of the site: the comrak options, and the highlighter of fenced code
/// blocks, when there is one.
pub struct MDComrakSettings<'a> {
    pub options: MarkdownOptions,
    pub highlighter: Option<&'a CodeHighlighter>,
}

/// The settings taken as plain values: the options, and what the highlighter is made from.
pub struct SettingsView {
    pub options: MarkdownOptionsView,
    pub highlighter: Option<CodeHighlighterView>,
}

pub open spec fn highlighter_view(h: Option<&CodeHighlighter>) -> Option<CodeHighlighterView> {
    match h {
        Some(h) => Some(h@),
        None => None,
    }
}

impl<'a> View for MDComrakSettings<'a> {
    type V = SettingsView;

    open spec fn view(&self) -> SettingsView {
        SettingsView { options: self.options@, highlighter: highlighter_view(self.highlighter) }
    }
}

impl<'a> MDComrakSettings<'a> {
    /// Settings that parse with `options` and highlight code blocks with `highlighter`.
    pub fn new(options: MarkdownOptions, highlighter: Option<&'a CodeHighlighter>) -> (s:
        MDComrakSettings<'a>)
        ensures
            s@.options == options@,
            s.highlighter == highlighter,
    {
        MDComrakSettings { options, highlighter }
    }

    /// The settings of the site: `site_options`, and code blocks highlighted by `highlighter`.
    pub fn default(highlighter: &'a CodeHighlighter) -> (s: MDComrakSettings<'a>)
        ensures
            s@.options == site_options(),
            s.highlighter == Some(highlighter),
    {
        Self::new(MarkdownOptions::site(), Some(highlighter))
    }

    /// The options these settings parse and render with.
    pub fn options(&self) -> (o: &MarkdownOptions)
        ensures
            o@ == self@.options,
    {
        &self.options
    }

    /// A code highlighter with the theme in `theme_data` (a `.tmTheme` document), registered
    /// as `theme_name`; an error where syntect cannot read the theme.
    pub fn load_theme(theme_name: &str, theme_data: &[u8]) -> (r: Result<CodeHighlighter, ThemeError>)
        ensures
            r is Ok <==> theme_parses(theme_data@),
            r matches Ok(h) ==> h@.theme_name == theme_name@ && h@.theme_data == theme_data@,
    {
        match parse_theme(theme_data) {
            Ok(_) => Ok(
                CodeHighlighter {
                    theme_name: theme_name.to_string(),
                    theme_data: vstd::slice::slice_to_vec(theme_data),
                },
            ),
            Err(e) => Err(ThemeError::Loading(e)),
        }
    }
}

/// comrak's `Options::default()` with the fields of `o` set on it; a conversion that the
/// comrak wrappers make at each call.
#[verifier::external_body]
fn comrak_options_of(o: &MarkdownOptions) -> comrak::Options {
    let mut c = comrak::Options::default();
    c.render.unsafe_ = o.unsafe_html;
    c.extension.front_matter_delimiter = o.front_matter_delimiter.clone();
    c.extension.autolink = o.autolink;
    c.extension.table = o.table;
    c.extension.tasklist = o.tasklist;
    c.extension.superscript = o.superscript;
    c.extension.header_ids = o.header_ids.clone();
    c.extension.footnotes = o.footnotes;
    c
}

/// What comrak's `parse_document` makes of `content` under `options`: the tree of its nodes.
pub uninterp spec fn comrak_document(content: Seq<char>, options: MarkdownOptionsView) -> DocNode;

/// comrak's `parse_document`, its tree copied into a `DocNode` tree: each node keeps its
/// children in order, and the text of a front matter node. The tree is named, not described:
/// it is the comrak parse of `content` under the options of `settings`; the highlighter
/// takes no part in parsing.
#[verifier::external_body]
fn parse_document(content: &str, settings: &MDComrakSettings) -> (doc: DocNode)
    ensures
        doc == comrak_document(content@, settings@.options),
{
    let arena = comrak::Arena::new();
    let mut open = vec![DocNode { front_matter: None, children: vec![] }];
    for edge in comrak::parse_document(&arena, content, &comrak_options_of(&settings.options)).traverse() {
        match edge {
            NodeEdge::Start(n) => open.push(DocNode { children: vec![], front_matter: match &n.data.borrow().value {
                NodeValue::FrontMatter(f) => Some(f.clone()),
                _ => None,
            } }),
            NodeEdge::End(_) => {
                let done = open.pop().unwrap();
                open.last_mut().unwrap().children.push(done);
            },
        }
    }
    open.pop().unwrap().children.pop().unwrap()
}

/// What comrak's `markdown_to_html_with_plugins` renders of `content` with the options of
/// `settings` and, where it has one, the syntect highlighter made from its theme.
pub uninterp spec fn comrak_html(content: Seq<char>, settings: SettingsView) -> Seq<char>;

/// comrak's `markdown_to_html_with_plugins` with the options of `settings` and, where they
/// have a highlighter, comrak's syntect adapter made from its theme: the theme read from its
/// data and registered, alone, under its name, which the adapter selects. The HTML is named:
/// the rendering of `content` under what the settings are made from. It does not fail where
/// the theme data loads: the adapter then holds the theme it selects, syntect falls back to the
/// plain code where it cannot highlight, and the output goes to memory.
#[verifier::external_body]
fn markdown_to_html(content: &str, settings: &MDComrakSettings) -> (html: String)
    requires
        settings@.highlighter matches Some(h) ==> theme_parses(h.theme_data),
    ensures
        html@ == comrak_html(content@, settings@),
{
    let adapter = settings.highlighter.map(|h| adapter_for_theme(&h.theme_name, parse_theme(&h.theme_data).unwrap()));
    let mut plugins = comrak::Plugins::default();
    plugins.render.codefence_syntax_highlighter = adapter.as_ref().map(|a| a as &dyn comrak::adapters::SyntaxHighlighterAdapter);
    comrak::markdown_to_html_with_plugins(content, &comrak_options_of(&settings.options), &plugins)
}

/// What comrak renders of `content` with `settings`.
fn render_html(content: &str, settings: &MDComrakSettings) -> (html: String)
    ensures
        html@ == comrak_html(content@, settings@),
{
    match settings.highlighter {
        Some(h) => {
            proof {
                use_type_invariant(h);
            }
        },
        None => {},
    }
    markdown_to_html(content, settings)
}

} // verus!
