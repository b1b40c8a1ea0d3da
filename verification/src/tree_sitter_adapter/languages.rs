use vstd::prelude::*;
use vstd::utf8::encode_utf8;

use tree_sitter::Language;
use tree_sitter_highlight::{HighlightConfiguration, Highlighter};
use tree_sitter_loader::{LanguageConfiguration, Loader};

use super::{balanced, spans_tile, HighlightError, HighlightEvent};

verus! {

/// A language that a loader has for a scope: the grammar, its configuration, and the
/// configuration's scope. Only `get_language_config` makes one, from the loader's lookup.
pub struct FoundLanguage<'a> {
    language: Language,
    config: &'a LanguageConfiguration<'a>,
    scope: String,
}

impl<'a> View for FoundLanguage<'a> {
    type V = Seq<char>;

    /// The scope of the language.
    closed spec fn view(&self) -> Seq<char> {
        self.scope@
    }
}

/// The highlight queries of a found language, with the language's scope. Only
/// `highlight_config` makes them, from a `FoundLanguage`.
pub struct FoundQueries<'a> {
    config: &'a HighlightConfiguration,
    scope: String,
}

impl<'a> View for FoundQueries<'a> {
    type V = Seq<char>;

    /// The scope of the language that the queries belong to.
    closed spec fn view(&self) -> Seq<char> {
        self.scope@
    }
}

/// The scope of a highlighting run, and the events that the run produced. Only
/// `run_highlights` makes one, from the highlighter's own events, so its `run_events` are the
/// events of a real run over the code that it records.
pub struct HighlightedScope {
    scope: String,
    events: Ghost<Seq<HighlightEvent>>,
    code: Ghost<Seq<char>>,
}

impl View for HighlightedScope {
    type V = Seq<char>;

    /// The scope of the language that the run used.
    closed spec fn view(&self) -> Seq<char> {
        self.scope@
    }
}

impl HighlightedScope {
    /// The events that the highlighter produced in the run.
    pub closed spec fn run_events(&self) -> Seq<HighlightEvent> {
        self.events@
    }

    /// The code that the run highlighted.
    pub closed spec fn run_code(&self) -> Seq<char> {
        self.code@
    }

    /// The scope of the language that the run used.
    pub fn scope(&self) -> (s: &String)
        ensures
            s@ == self@,
    {
        &self.scope
    }
}

/// The highlighting run of `code` with `queries`: the highlighter's events, unchanged, with
/// the run's scope, which records them; the error of `highlights_found` where the run stops.
pub fn run_highlights(loader: &Loader, queries: &FoundQueries, code: &str) -> (r: Result<
    (Vec<HighlightEvent>, HighlightedScope),
    HighlightError,
>)
    ensures
        r matches Ok((es, w)) ==> w.run_events() == es@ && w.run_code() == code@ && w@
            == queries@ && spans_tile(
            es@,
            0,
            encode_utf8(code@).len() as int,
        ) && balanced(es@),
        r matches Err(e) ==> e is Highlighting,
{
    match highlights_found(highlight_events(loader, queries, code)) {
        Ok((events, scope)) => {
            let ghost run = events@;
            Ok((events, HighlightedScope { scope, events: Ghost(run), code: Ghost(code@) }))
        },
        Err(e) => Err(e),
    }
}

/// tree-sitter-loader's `Loader::language_configuration_for_scope`: the language, and its
/// configuration, that the loader has for `scope`, with the configuration's `scope` field.
/// Which configuration, if any, it finds depends on the parsers that the loader found on disk;
/// the loader returns only a configuration whose scope is `scope`.
#[verifier::external_body]
fn language_configuration_for_scope<'a>(loader: &'a Loader, scope: &str) -> (r: Result<
    Option<(Language, &'a LanguageConfiguration<'a>, Option<String>)>,
    anyhow::Error,
>)
    ensures
        r matches Ok(Some((_, _, found))) ==> found matches Some(s) && s@ == scope@,
{
    loader.language_configuration_for_scope(scope).map(|found| found.map(|(l, c)| (l, c, c.scope.clone())))
}

/// The language configuration that a lookup for `code_lang` found: the language, the
/// configuration and its scope where there is one, `LanguageNotFound` where there is none, and
/// `LanguageLookup` with the loader's error where the lookup failed. A found configuration
/// carries its scope.
pub fn language_config_found<'a>(
    found: Result<Option<(Language, &'a LanguageConfiguration<'a>, Option<String>)>, anyhow::Error>,
    code_lang: &str,
) -> (r: Result<(Language, &'a LanguageConfiguration<'a>, String), HighlightError>)
    requires
        found matches Ok(Some((_, _, s))) ==> s is Some,
    ensures
        match found {
            Ok(Some((l, c, s))) => r matches Ok((l2, c2, s2)) && l2 == l && c2 == c && Some(s2)
                == s,
            Ok(None) => r matches Err(HighlightError::LanguageNotFound { scope }) && scope@
                == code_lang@,
            Err(e) => r matches Err(HighlightError::LanguageLookup { scope, cause }) && scope@
                == code_lang@ && cause == e,
        },
{
    match found {
        Ok(Some((l, c, Some(s)))) => Ok((l, c, s)),
        Ok(Some((_, _, None))) => {
            proof {
                assert(false);
            }
            Err(HighlightError::LanguageNotFound { scope: code_lang.to_string() })
        },
        Ok(None) => Err(HighlightError::LanguageNotFound { scope: code_lang.to_string() }),
        Err(e) => Err(HighlightError::LanguageLookup { scope: code_lang.to_string(), cause: e }),
    }
}

/// The language that `loader` has for the scope `code_lang`, whose scope is `code_lang`; the
/// error of `language_config_found` where there is none or the lookup fails.
pub fn get_language_config<'a>(loader: &'a Loader, code_lang: &str) -> (r: Result<
    FoundLanguage<'a>,
    HighlightError,
>)
    ensures
        r matches Ok(f) ==> f@ == code_lang@,
        r matches Err(e) ==> (e matches HighlightError::LanguageNotFound { scope } && scope@
            == code_lang@) || (e matches HighlightError::LanguageLookup { scope, cause } && scope@
            == code_lang@),
{
    match language_config_found(language_configuration_for_scope(loader, code_lang), code_lang) {
        Ok((language, config, scope)) => Ok(FoundLanguage { language, config, scope }),
        Err(e) => Err(e),
    }
}

/// tree-sitter-loader's `LanguageConfiguration::highlight_config` on the found language: the
/// highlight queries of the language, loaded from the parser's directory on first use, paired
/// with the language's scope. Whether there are queries depends on the files on disk.
#[verifier::external_body]
fn highlight_config<'a>(found: &FoundLanguage<'a>) -> (r: Result<
    Option<FoundQueries<'a>>,
    anyhow::Error,
>)
    ensures
        r matches Ok(Some(q)) ==> q@ == found@,
{
    found.config.highlight_config(found.language).map(|h| h.map(|config| FoundQueries { config, scope: found.scope.clone() }))
}

/// The highlight queries that a lookup for `scope` found: the queries where there are some,
/// `HighlightsNotFound` where there are none, and `HighlightsLoading` with the loader's error,
/// which names no scope, where loading them failed.
pub fn highlight_config_found<'a>(
    found: Result<Option<FoundQueries<'a>>, anyhow::Error>,
    scope: &str,
) -> (r: Result<FoundQueries<'a>, HighlightError>)
    ensures
        match found {
            Ok(Some(q)) => r matches Ok(q2) && q2 == q,
            Ok(None) => r matches Err(HighlightError::HighlightsNotFound { scope: s }) && s@
                == scope@,
            Err(e) => r matches Err(HighlightError::HighlightsLoading(cause)) && cause == e,
        },
{
    match found {
        Ok(Some(q)) => Ok(q),
        Ok(None) => Err(HighlightError::HighlightsNotFound { scope: scope.to_string() }),
        Err(e) => Err(HighlightError::HighlightsLoading(e)),
    }
}

/// The highlight queries of the found language, which belong to its scope; the error of
/// `highlight_config_found`, named by that scope, where there are none or loading them fails.
pub fn get_highlight_configuration<'a>(found: &FoundLanguage<'a>) -> (r: Result<
    FoundQueries<'a>,
    HighlightError,
>)
    ensures
        r matches Ok(q) ==> q@ == found@,
        r matches Err(e) ==> (e matches HighlightError::HighlightsNotFound { scope: s } && s@
            == found@) || e is HighlightsLoading,
{
    highlight_config_found(highlight_config(found), found.scope.as_str())
}

/// tree-sitter-highlight's `Highlighter::highlight` with the queries `queries`, run to its end
/// over the bytes of `code`, each event copied into a `HighlightEvent`, and the scope of the
/// queries; the first error stops it. Which highlights come out depends on the queries loaded
/// from disk. What holds of every run: its source events are emitted from a byte offset that
/// starts at 0 and moves to each event's end, only where the end lies past it, and the run
/// ends where the offset reaches the length of the code, so the source spans tile the code;
/// each start pushes its end onto its layer's stack, which each end pops, and a layer is
/// dropped only once its stack is empty, so the highlights open and close in balance.
#[verifier::external_body]
fn highlight_events(loader: &Loader, queries: &FoundQueries, code: &str) -> (r: Result<
    (Vec<HighlightEvent>, String),
    tree_sitter_highlight::Error,
>)
    ensures
        r matches Ok((es, s)) ==> s@ == queries@ && spans_tile(
            es@,
            0,
            encode_utf8(code@).len() as int,
        ) && balanced(es@),
{
    let mut highlighter = Highlighter::new();
    let events = highlighter.highlight(queries.config, code.as_bytes(), None, |lang| injection_config(loader, lang))?;
    let copied: Result<Vec<HighlightEvent>, _> = events.map(|event| event.map(|e| match e {
        tree_sitter_highlight::HighlightEvent::Source { start, end } => HighlightEvent::Source { start, end },
        tree_sitter_highlight::HighlightEvent::HighlightStart(h) => HighlightEvent::HighlightStart(h.0),
        tree_sitter_highlight::HighlightEvent::HighlightEnd => HighlightEvent::HighlightEnd,
    })).collect();
    copied.map(|es| (es, queries.scope.clone()))
}

/// tree-sitter-loader's `Loader::highlight_config_for_injection_string`: the highlight
/// queries of the language that an injected block names. Nothing is stated of it.
#[verifier::external_body]
fn highlight_config_for_injection_string<'a>(loader: &'a Loader, name: &str) -> Option<
    &'a HighlightConfiguration,
> {
    loader.highlight_config_for_injection_string(name)
}

/// The highlight queries for a language that a highlighted block injects, by its name.
fn injection_config<'a>(loader: &'a Loader, name: &str) -> Option<&'a HighlightConfiguration> {
    highlight_config_for_injection_string(loader, name)
}

/// The highlighting run that the highlighter made: its events and scope where it ran to the
/// end, and `Highlighting` with the highlighter's error where it stopped.
pub fn highlights_found(run: Result<(Vec<HighlightEvent>, String), tree_sitter_highlight::Error>) -> (r:
    Result<(Vec<HighlightEvent>, String), HighlightError>)
    ensures
        match run {
            Ok((events, scope)) => r matches Ok((es, s)) && es@ == events@ && s@ == scope@,
            Err(e) => r matches Err(HighlightError::Highlighting(f)) && f == e,
        },
{
    match run {
        Ok((events, scope)) => Ok((events, scope)),
        Err(e) => Err(HighlightError::Highlighting(e)),
    }
}

} // verus!
