use blog_gen::tree_sitter_adapter::languages::{highlight_config_found, highlights_found, language_config_found};
use blog_gen::tree_sitter_adapter::{
    try_write_highlight_events, ts_class_name, write_highlight_events, HighlightError, HighlightEvent,
    TreesitterSyntaxAdapter,
};
use std::path::PathBuf;

#[test]
fn scope_name_prefixes_source() {
    assert_eq!(TreesitterSyntaxAdapter::determine_ts_scope_name("rust"), "source.rust");
    assert_eq!(TreesitterSyntaxAdapter::determine_ts_scope_name(""), "source.");
}

#[test]
fn highlight_scope_skips_missing_or_empty_language() {
    assert_eq!(TreesitterSyntaxAdapter::highlight_scope(None), None);
    assert_eq!(TreesitterSyntaxAdapter::highlight_scope(Some("")), None);
    assert_eq!(TreesitterSyntaxAdapter::highlight_scope(Some("js")), Some("source.js".to_string()));
}

#[test]
fn pre_and_code_tags() {
    assert_eq!(TreesitterSyntaxAdapter::pre_tag(Some("rust")), "<pre lang=\"rust\">");
    assert_eq!(TreesitterSyntaxAdapter::pre_tag(None), "<pre>");
    assert_eq!(TreesitterSyntaxAdapter::code_tag(Some("language-rust")), "<code class=\"language-rust\">");
    assert_eq!(TreesitterSyntaxAdapter::code_tag(None), "<code>");
}

#[test]
fn class_names_replace_dots() {
    assert_eq!(ts_class_name("keyword.control.return"), b"keyword-control-return".to_vec());
    assert_eq!(ts_class_name("plain"), b"plain".to_vec());
    assert_eq!(ts_class_name(""), Vec::<u8>::new());
}

#[test]
fn events_render_to_spans() {
    let code = "let x = 1;";
    let names = vec!["keyword".to_string(), "constant.numeric".to_string()];
    let events = vec![
        HighlightEvent::HighlightStart(0),
        HighlightEvent::Source { start: 0, end: 3 },
        HighlightEvent::HighlightEnd,
        HighlightEvent::Source { start: 3, end: 8 },
        HighlightEvent::HighlightStart(1),
        HighlightEvent::Source { start: 8, end: 9 },
        HighlightEvent::HighlightEnd,
        HighlightEvent::Source { start: 9, end: 10 },
    ];
    let html = write_highlight_events(&events, code, &names);
    assert_eq!(
        String::from_utf8(html).unwrap(),
        "<span class=\"ts-keyword\">let</span> x = <span class=\"ts-constant-numeric\">1</span>;"
    );
}

#[test]
fn rendering_distributes_over_concatenation() {
    let code = "ab";
    let names = vec!["n.m".to_string()];
    let a = vec![HighlightEvent::Source { start: 0, end: 1 }];
    let b = vec![HighlightEvent::HighlightStart(0), HighlightEvent::Source { start: 1, end: 2 }, HighlightEvent::HighlightEnd];
    let mut ab = a.clone();
    ab.extend(b.iter().copied());
    let mut joined = write_highlight_events(&a, code, &names);
    joined.extend(write_highlight_events(&b, code, &names));
    assert_eq!(write_highlight_events(&ab, code, &names), joined);
}

#[test]
fn unfit_events_are_refused() {
    let names = vec!["k".to_string()];
    assert!(try_write_highlight_events(&vec![HighlightEvent::Source { start: 2, end: 1 }], "abc", &names).is_none());
    assert!(try_write_highlight_events(&vec![HighlightEvent::Source { start: 0, end: 4 }], "abc", &names).is_none());
    assert!(try_write_highlight_events(&vec![HighlightEvent::HighlightStart(1)], "abc", &names).is_none());
    // "é" is two bytes: index 1 is inside it
    assert!(try_write_highlight_events(&vec![HighlightEvent::Source { start: 0, end: 1 }], "é", &names).is_none());
    let ok = try_write_highlight_events(&vec![HighlightEvent::Source { start: 0, end: 2 }], "é", &names);
    assert_eq!(ok, Some("é".as_bytes().to_vec()));
    assert_eq!(try_write_highlight_events(&vec![], "", &vec![]), Some(vec![]));
}

#[test]
fn adapter_keeps_its_directory() {
    let adapter = TreesitterSyntaxAdapter::new(PathBuf::from("/parsers")).ok().unwrap();
    assert_eq!(adapter.parsers_directory(), &PathBuf::from("/parsers"));
}

#[test]
fn language_lookup_results() {
    match language_config_found(Ok(None), "source.x") {
        Err(HighlightError::LanguageNotFound { scope }) => assert_eq!(scope, "source.x"),
        _ => panic!("expected LanguageNotFound"),
    }
    match language_config_found(Err(anyhow::Error::msg("broken")), "source.y") {
        Err(HighlightError::LanguageLookup { scope, cause }) => {
            assert_eq!(scope, "source.y");
            assert_eq!(cause.to_string(), "broken");
        }
        _ => panic!("expected LanguageLookup"),
    }
}

#[test]
fn highlight_config_lookup_results() {
    match highlight_config_found(Ok(None), "source.z") {
        Err(HighlightError::HighlightsNotFound { scope }) => assert_eq!(scope, "source.z"),
        _ => panic!("expected HighlightsNotFound"),
    }
    match highlight_config_found(Err(anyhow::Error::msg("queries")), "source.z") {
        Err(HighlightError::HighlightsLoading(cause)) => assert_eq!(cause.to_string(), "queries"),
        _ => panic!("expected HighlightsLoading"),
    }
}

#[test]
fn empty_loader_knows_no_language() {
    let loader = match tree_sitter_loader::Loader::new() {
        Ok(l) => l,
        Err(_) => return, // no cache directory on this machine
    };
    let adapter = TreesitterSyntaxAdapter::new(PathBuf::from("/nonexistent")).ok().unwrap();
    match adapter.get_highlights(&loader, "fn main() {}", "source.rust") {
        Err(HighlightError::LanguageNotFound { scope }) => assert_eq!(scope, "source.rust"),
        _ => panic!("expected LanguageNotFound"),
    }
}

#[test]
fn highlighting_run_results() {
    let events = vec![HighlightEvent::Source { start: 0, end: 1 }];
    match highlights_found(Ok((events.clone(), "source.r".to_string()))) {
        Ok((es, scope)) => {
            assert_eq!(es, events);
            assert_eq!(scope, "source.r");
        }
        Err(_) => panic!("expected the events"),
    }
    match highlights_found(Err(tree_sitter_highlight::Error::Cancelled)) {
        Err(HighlightError::Highlighting(e)) => assert_eq!(e, tree_sitter_highlight::Error::Cancelled),
        _ => panic!("expected Highlighting"),
    }
}

#[test]
fn error_messages_carry_the_original_texts() {
    let not_found = language_config_found(Ok(None), "source.x").err().unwrap();
    assert_eq!(
        not_found.context_message().unwrap(),
        "Failed to retrieve Treesitter language configuration for language: 'source.x'"
    );
    assert_eq!(not_found.cause_message().unwrap(), "Language configuration not found");
    let lookup = language_config_found(Err(anyhow::Error::msg("e")), "source.y").err().unwrap();
    assert_eq!(
        lookup.context_message().unwrap(),
        "Failed to retrieve Treesitter language configuration for language: 'source.y'"
    );
    assert!(lookup.cause_message().is_none());
    let no_queries = highlight_config_found(Ok(None), "source.z").err().unwrap();
    assert_eq!(no_queries.context_message().unwrap(), "Failed to retrieve Treesitter highlights for language: 'source.z'");
    let loading = highlight_config_found(Err(anyhow::Error::msg("q")), "source.z").err().unwrap();
    assert!(loading.context_message().is_none());
}

#[test]
fn tiling_spans_give_back_the_code() {
    // spans that tile the code, with highlights around some of them, carry the code itself
    let code = "a.b(c)";
    let events = vec![
        HighlightEvent::Source { start: 0, end: 1 },
        HighlightEvent::HighlightStart(0),
        HighlightEvent::Source { start: 1, end: 4 },
        HighlightEvent::HighlightEnd,
        HighlightEvent::Source { start: 4, end: 6 },
    ];
    let names = vec!["x".to_string()];
    let html = String::from_utf8(write_highlight_events(&events, code, &names)).unwrap();
    assert_eq!(html.replace("<span class=\"ts-x\">", "").replace("</span>", ""), code);
}

#[test]
fn balanced_runs_close_every_span() {
    let code = "abc";
    let names = vec!["a.b".to_string(), "c".to_string()];
    let events = vec![
        HighlightEvent::HighlightStart(0),
        HighlightEvent::Source { start: 0, end: 1 },
        HighlightEvent::HighlightStart(1),
        HighlightEvent::Source { start: 1, end: 2 },
        HighlightEvent::HighlightEnd,
        HighlightEvent::HighlightEnd,
        HighlightEvent::Source { start: 2, end: 3 },
    ];
    let html = String::from_utf8(write_highlight_events(&events, code, &names)).unwrap();
    assert_eq!(html.matches("<span ").count(), html.matches("</span>").count());
    assert_eq!(html, "<span class=\"ts-a-b\">a<span class=\"ts-c\">b</span></span>c");
}
