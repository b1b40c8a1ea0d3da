use vstd::prelude::*;
use vstd::string::StringExecFns;
use vstd::utf8::{encode_utf8, is_char_boundary};

use std::path::PathBuf;

use tree_sitter::Language;
use tree_sitter_highlight::HighlightConfiguration;
use tree_sitter_loader::{LanguageConfiguration, Loader};

pub mod languages;

use languages::{get_highlight_configuration, get_language_config, run_highlights, HighlightedScope};

verus! {

/// std's owned file system path, carried through as an opaque value.
#[verifier::external_type_specification]
#[verifier::external_body]
pub struct ExPathBuf(PathBuf);

/// A syntax highlighter of fenced code blocks that runs the Tree-sitter parsers found in a
/// directory.
pub struct TreesitterSyntaxAdapter {
    parsers_directory: PathBuf,
}

/// The step of a highlighting run: a span of the source code, the start of a highlight whose
/// name has the given index, or the end of the innermost open highlight.
#[derive(Clone, Copy, Debug, PartialEq, Eq)]
pub enum HighlightEvent {
    Source { start: usize, end: usize },
    HighlightStart(usize),
    HighlightEnd,
}

/// Do the source spans among `events`, in order, each non-empty, follow each other without a
/// gap or an overlap from byte `from` to byte `to`?
pub open spec fn spans_tile(events: Seq<HighlightEvent>, from: int, to: int) -> bool
    decreases events.len(),
{
    if events.len() == 0 {
        from == to
    } else {
        match events[0] {
            HighlightEvent::Source { start, end } => start == from && start < end && spans_tile(
                events.drop_first(),
                end as int,
                to,
            ),
            _ => spans_tile(events.drop_first(), from, to),
        }
    }
}

/// Do the highlights among `events` open and close in balance, given `depth` highlights open
/// before them: no end closes a highlight that is not open, and none is left open at the end?
pub open spec fn nesting_ok(events: Seq<HighlightEvent>, depth: nat) -> bool
    decreases events.len(),
{
    if events.len() == 0 {
        depth == 0
    } else {
        match events[0] {
            HighlightEvent::HighlightStart(_) => nesting_ok(events.drop_first(), depth + 1),
            HighlightEvent::HighlightEnd => depth > 0 && nesting_ok(
                events.drop_first(),
                (depth - 1) as nat,
            ),
            HighlightEvent::Source { .. } => nesting_ok(events.drop_first(), depth),
        }
    }
}

/// Do the highlights of a run open and close in balance?
pub open spec fn balanced(events: Seq<HighlightEvent>) -> bool {
    nesting_ok(events, 0)
}

/// The number of highlight starts among `events`.
pub open spec fn count_starts(events: Seq<HighlightEvent>) -> nat
    decreases events.len(),
{
    if events.len() == 0 {
        0
    } else {
        (if events[0] is HighlightStart { 1nat } else { 0nat }) + count_starts(events.drop_first())
    }
}

/// The number of highlight ends among `events`.
pub open spec fn count_ends(events: Seq<HighlightEvent>) -> nat
    decreases events.len(),
{
    if events.len() == 0 {
        0
    } else {
        (if events[0] is HighlightEnd { 1nat } else { 0nat }) + count_ends(events.drop_first())
    }
}

/// Law: in balanced events every highlight that opens closes: with `depth` open before them,
/// the events end exactly `depth` more highlights than they start; a balanced run writes as
/// many `</span>` as `<span ...>`.
pub proof fn law_balanced_counts(events: Seq<HighlightEvent>, depth: nat)
    requires
        nesting_ok(events, depth),
    ensures
        count_starts(events) + depth == count_ends(events),
    decreases events.len(),
{
    if events.len() > 0 {
        match events[0] {
            HighlightEvent::HighlightStart(_) => law_balanced_counts(events.drop_first(), depth + 1),
            HighlightEvent::HighlightEnd => law_balanced_counts(events.drop_first(), (depth - 1) as nat),
            HighlightEvent::Source { .. } => law_balanced_counts(events.drop_first(), depth),
        }
    }
}

/// The source bytes of the events: the bytes of each source span of `code`, in order.
pub open spec fn source_text(events: Seq<HighlightEvent>, code: Seq<u8>) -> Seq<u8>
    decreases events.len(),
{
    if events.len() == 0 {
        Seq::<u8>::empty()
    } else {
        (match events[0] {
            HighlightEvent::Source { start, end } => code.subrange(start as int, end as int),
            _ => Seq::<u8>::empty(),
        }) + source_text(events.drop_first(), code)
    }
}

/// Law: where the source spans of a run tile `code` from `from` to `to`, the source bytes of
/// the run are exactly that part of the code; for a whole run, the code itself.
pub proof fn law_tiling_source_text(events: Seq<HighlightEvent>, code: Seq<u8>, from: int, to: int)
    requires
        spans_tile(events, from, to),
        0 <= from,
        to <= code.len(),
    ensures
        source_text(events, code) == code.subrange(from, to),
    decreases events.len(),
{
    if events.len() == 0 {
        assert(code.subrange(from, to) =~= Seq::<u8>::empty());
    } else {
        match events[0] {
            HighlightEvent::Source { start, end } => {
                lemma_tiling_bounds(events.drop_first(), end as int, to);
                law_tiling_source_text(events.drop_first(), code, end as int, to);
                assert(code.subrange(from, end as int) + code.subrange(end as int, to) =~= code.subrange(from, to));
            },
            _ => {
                law_tiling_source_text(events.drop_first(), code, from, to);
                assert(Seq::<u8>::empty() + code.subrange(from, to) =~= code.subrange(from, to));
            },
        }
    }
}

/// The source bytes of events are those of all but the last, then those of the last.
proof fn lemma_source_text_last(events: Seq<HighlightEvent>, code: Seq<u8>)
    requires
        events.len() > 0,
    ensures
        source_text(events, code) == source_text(events.drop_last(), code) + (match events.last() {
            HighlightEvent::Source { start, end } => code.subrange(start as int, end as int),
            _ => Seq::<u8>::empty(),
        }),
    decreases events.len(),
{
    if events.len() == 1 {
        assert(events.drop_last() =~= Seq::<HighlightEvent>::empty());
        assert(events.drop_first() =~= Seq::<HighlightEvent>::empty());
        assert(events.last() == events[0]);
    } else {
        let rest = events.drop_first();
        lemma_source_text_last(rest, code);
        assert(rest.drop_last() =~= events.drop_last().drop_first());
        assert(rest.last() == events.last());
        assert(events.drop_last()[0] == events[0]);
    }
}

/// Where every event is a source span, the HTML of the events is their source bytes.
proof fn lemma_plain_html(events: Seq<HighlightEvent>, code: Seq<u8>, names: Seq<Seq<u8>>)
    requires
        forall|k: int| 0 <= k < events.len() ==> #[trigger] events[k] is Source,
    ensures
        events_html(events, code, names) == source_text(events, code),
    decreases events.len(),
{
    if events.len() > 0 {
        let init = events.drop_last();
        assert forall|k: int| 0 <= k < init.len() implies #[trigger] init[k] is Source by {
            assert(init[k] == events[k]);
        }
        lemma_plain_html(init, code, names);
        lemma_source_text_last(events, code);
        assert(events.last() == events[events.len() - 1]);
    }
}

/// Law: a run without highlights whose source spans tile the code renders as the code itself,
/// byte for byte: source spans are copied unchanged.
pub proof fn law_plain_run_html(events: Seq<HighlightEvent>, code: Seq<u8>, names: Seq<Seq<u8>>)
    requires
        forall|k: int| 0 <= k < events.len() ==> #[trigger] events[k] is Source,
        spans_tile(events, 0, code.len() as int),
    ensures
        events_html(events, code, names) == code,
{
    lemma_plain_html(events, code, names);
    law_tiling_source_text(events, code, 0, code.len() as int);
    assert(code.subrange(0, code.len() as int) =~= code);
}

/// Spans that tile from `from` to `to` never go backwards: `from <= to`.
proof fn lemma_tiling_bounds(events: Seq<HighlightEvent>, from: int, to: int)
    requires
        spans_tile(events, from, to),
    ensures
        from <= to,
    decreases events.len(),
{
    if events.len() > 0 {
        match events[0] {
            HighlightEvent::Source { start, end } => lemma_tiling_bounds(events.drop_first(), end as int, to),
            _ => lemma_tiling_bounds(events.drop_first(), from, to),
        }
    }
}

/// The bytes `<span class="ts-`.
pub open spec fn span_open() -> Seq<u8> {
    seq![60u8, 115u8, 112u8, 97u8, 110u8, 32u8, 99u8, 108u8, 97u8, 115u8, 115u8, 61u8, 34u8, 116u8, 115u8, 45u8]
}

/// The bytes `">`.
pub open spec fn span_open_end() -> Seq<u8> {
    seq![34u8, 62u8]
}

/// The bytes `</span>`.
pub open spec fn span_close() -> Seq<u8> {
    seq![60u8, 47u8, 115u8, 112u8, 97u8, 110u8, 62u8]
}

/// The CSS class suffix of a highlight name: the name with each `.` made a `-`.
pub open spec fn ts_class(name: Seq<u8>) -> Seq<u8> {
    name.map_values(|b: u8| if b == 46u8 { 45u8 } else { b })
}

/// Law: a class suffix is as long as its highlight name, holds no `.`, and keeps every other
/// byte of the name where it stands.
pub proof fn law_ts_class(name: Seq<u8>)
    ensures
        ts_class(name).len() == name.len(),
        forall|i: int| 0 <= i < name.len() ==> #[trigger] ts_class(name)[i] != 46u8,
        forall|i: int| 0 <= i < name.len() && name[i] != 46u8 ==> #[trigger] ts_class(name)[i]
            == name[i],
{
}

/// The UTF-8 bytes of each name.
pub open spec fn names_bytes(names: Seq<String>) -> Seq<Seq<u8>> {
    names.map_values(|n: String| encode_utf8(n@))
}

/// Can `e` be rendered: a source span lies within `code` and starts and ends on character
/// boundaries, and a highlight names one of `n_names` names.
pub open spec fn event_fits(e: HighlightEvent, code: Seq<u8>, n_names: nat) -> bool {
    match e {
        HighlightEvent::Source { start, end } => start <= end <= code.len() && is_char_boundary(
            code,
            start as int,
        ) && is_char_boundary(code, end as int),
        HighlightEvent::HighlightStart(i) => i < n_names,
        HighlightEvent::HighlightEnd => true,
    }
}

pub open spec fn events_fit(events: Seq<HighlightEvent>, code: Seq<u8>, n_names: nat) -> bool {
    forall|k: int| 0 <= k < events.len() ==> #[trigger] event_fits(events[k], code, n_names)
}

/// The HTML of one event: the source bytes of a span, `<span class="ts-NAME">` at the start
/// of a highlight, `</span>` at its end.
pub open spec fn event_html(e: HighlightEvent, code: Seq<u8>, names: Seq<Seq<u8>>) -> Seq<u8> {
    match e {
        HighlightEvent::Source { start, end } => code.subrange(start as int, end as int),
        HighlightEvent::HighlightStart(i) => span_open() + ts_class(names[i as int])
            + span_open_end(),
        HighlightEvent::HighlightEnd => span_close(),
    }
}

/// The HTML of the events, one after the other.
pub open spec fn events_html(events: Seq<HighlightEvent>, code: Seq<u8>, names: Seq<Seq<u8>>) -> Seq<u8>
    decreases events.len(),
{
    if events.len() == 0 {
        Seq::<u8>::empty()
    } else {
        events_html(events.drop_last(), code, names) + event_html(events.last(), code, names)
    }
}

/// Law: rendering is compositional: the HTML of two runs of events one after the other is the
/// HTML of the first run followed by that of the second.
pub proof fn law_events_html_concat(
    a: Seq<HighlightEvent>,
    b: Seq<HighlightEvent>,
    code: Seq<u8>,
    names: Seq<Seq<u8>>,
)
    ensures
        events_html(a + b, code, names) == events_html(a, code, names) + events_html(
            b,
            code,
            names,
        ),
    decreases b.len(),
{
    if b.len() == 0 {
        assert(a + b =~= a);
        assert(events_html(a, code, names) + Seq::<u8>::empty() =~= events_html(a, code, names));
    } else {
        law_events_html_concat(a, b.drop_last(), code, names);
        assert((a + b).drop_last() =~= a + b.drop_last());
        assert((a + b).last() == b.last());
        assert(events_html(a, code, names) + events_html(b.drop_last(), code, names) + event_html(
            b.last(),
            code,
            names,
        ) =~= events_html(a, code, names) + (events_html(b.drop_last(), code, names) + event_html(
            b.last(),
            code,
            names,
        )));
    }
}

/// Appends `bytes` to `out`.
fn push_bytes(out: &mut Vec<u8>, bytes: &[u8])
    ensures
        final(out)@ == old(out)@ + bytes@,
{
    let mut i: usize = 0;
    while i < bytes.len()
        invariant
            i <= bytes.len(),
            out@ == old(out)@ + bytes@.take(i as int),
        decreases bytes.len() - i,
    {
        out.push(bytes[i]);
        assert(bytes@.take(i + 1) =~= bytes@.take(i as int).push(bytes@[i as int]));
        i += 1;
    }
    assert(bytes@.take(bytes.len() as int) =~= bytes@);
}

/// Appends `bytes[start..end]` to `out`.
fn push_range(out: &mut Vec<u8>, bytes: &[u8], start: usize, end: usize)
    requires
        start <= end <= bytes.len(),
    ensures
        final(out)@ == old(out)@ + bytes@.subrange(start as int, end as int),
{
    let mut i: usize = start;
    while i < end
        invariant
            start <= i <= end,
            end <= bytes.len(),
            out@ == old(out)@ + bytes@.subrange(start as int, i as int),
        decreases end - i,
    {
        out.push(bytes[i]);
        assert(bytes@.subrange(start as int, i + 1) =~= bytes@.subrange(start as int, i as int).push(bytes@[i as int]));
        i += 1;
    }
}

/// The CSS class suffix of a highlight name: `name` with each `.` replaced by `-`.
pub fn ts_class_name(name: &str) -> (class: Vec<u8>)
    ensures
        class@ == ts_class(encode_utf8(name@)),
{
    let bytes = name.as_bytes();
    let mut class: Vec<u8> = Vec::new();
    let mut i: usize = 0;
    while i < bytes.len()
        invariant
            i <= bytes.len(),
            bytes@ == encode_utf8(name@),
            class@ == ts_class(bytes@.take(i as int)),
        decreases bytes.len() - i,
    {
        let b = bytes[i];
        class.push(if b == 46u8 { 45u8 } else { b });
        assert(ts_class(bytes@.take(i + 1)) =~= ts_class(bytes@.take(i as int)).push(if b == 46u8 { 45u8 } else { b }));
        i += 1;
    }
    assert(bytes@.take(bytes.len() as int) =~= bytes@);
    class
}

/// The HTML of the highlighting run `events` over `code`: the source spans copied, each
/// highlight wrapped in `<span class="ts-NAME">` ... `</span>`, where NAME is the highlight's
/// name with each `.` replaced by `-`.
pub fn write_highlight_events(events: &Vec<HighlightEvent>, code: &str, highlight_names: &Vec<String>) -> (out: Vec<u8>)
    requires
        events_fit(events@, encode_utf8(code@), highlight_names.len() as nat),
    ensures
        out@ == events_html(events@, encode_utf8(code@), names_bytes(highlight_names@)),
{
    let bytes = code.as_bytes();
    let ghost names = names_bytes(highlight_names@);
    let open: [u8; 16] = [60u8, 115u8, 112u8, 97u8, 110u8, 32u8, 99u8, 108u8, 97u8, 115u8, 115u8, 61u8, 34u8, 116u8, 115u8, 45u8];
    let open_end: [u8; 2] = [34u8, 62u8];
    let close: [u8; 7] = [60u8, 47u8, 115u8, 112u8, 97u8, 110u8, 62u8];
    proof {
        assert(open@ =~= span_open());
        assert(open_end@ =~= span_open_end());
        assert(close@ =~= span_close());
    }
    let mut out: Vec<u8> = Vec::new();
    let mut k: usize = 0;
    proof {
        assert(events@.take(0) =~= Seq::<HighlightEvent>::empty());
    }
    while k < events.len()
        invariant
            k <= events.len(),
            bytes@ == encode_utf8(code@),
            names == names_bytes(highlight_names@),
            events_fit(events@, encode_utf8(code@), highlight_names.len() as nat),
            open@ == span_open(),
            open_end@ == span_open_end(),
            close@ == span_close(),
            out@ == events_html(events@.take(k as int), bytes@, names),
        decreases events.len() - k,
    {
        let ghost before = out@;
        let e = events[k];
        assert(event_fits(events@[k as int], encode_utf8(code@), highlight_names.len() as nat));
        match e {
            HighlightEvent::Source { start, end } => {
                push_range(&mut out, bytes, start, end);
            },
            HighlightEvent::HighlightStart(i) => {
                push_bytes(&mut out, open.as_slice());
                let class = ts_class_name(highlight_names[i].as_str());
                push_bytes(&mut out, class.as_slice());
                push_bytes(&mut out, open_end.as_slice());
                proof {
                    assert(names[i as int] == encode_utf8(highlight_names@[i as int]@));
                    assert(out@ =~= before + (span_open() + ts_class(names[i as int]) + span_open_end()));
                }
            },
            HighlightEvent::HighlightEnd => {
                push_bytes(&mut out, close.as_slice());
            },
        }
        proof {
            let t = events@.take(k + 1);
            assert(t.drop_last() =~= events@.take(k as int));
            assert(t.last() == e);
            assert(out@ =~= before + event_html(e, bytes@, names));
        }
        k += 1;
    }
    proof {
        assert(events@.take(events.len() as int) =~= events@);
    }
    out
}


/// Do all `events` fit `code` and `highlight_names` (see `event_fits`)?
pub fn events_fit_source(events: &Vec<HighlightEvent>, code: &str, highlight_names: &Vec<String>) -> (b: bool)
    ensures
        b == events_fit(events@, encode_utf8(code@), highlight_names.len() as nat),
{
    let n = code.as_bytes().len();
    let mut k: usize = 0;
    while k < events.len()
        invariant
            k <= events.len(),
            n == encode_utf8(code@).len(),
            forall|j: int| 0 <= j < k ==> #[trigger] event_fits(events@[j], encode_utf8(code@), highlight_names.len() as nat),
        decreases events.len() - k,
    {
        let fits = match events[k] {
            HighlightEvent::Source { start, end } => start <= end && end <= n && code.is_char_boundary(start) && code.is_char_boundary(end),
            HighlightEvent::HighlightStart(i) => i < highlight_names.len(),
            HighlightEvent::HighlightEnd => true,
        };
        if !fits {
            assert(!event_fits(events@[k as int], encode_utf8(code@), highlight_names.len() as nat));
            return false;
        }
        k += 1;
    }
    true
}

/// `write_highlight_events` where the events fit the code and the names, `None` where one
/// does not, on which rendering would slice outside the code or name a missing highlight.
pub fn try_write_highlight_events(events: &Vec<HighlightEvent>, code: &str, highlight_names: &Vec<String>) -> (out: Option<Vec<u8>>)
    ensures
        out is Some <==> events_fit(events@, encode_utf8(code@), highlight_names.len() as nat),
        out matches Some(html) ==> html@ == events_html(events@, encode_utf8(code@), names_bytes(highlight_names@)),
{
    if events_fit_source(events, code, highlight_names) {
        Some(write_highlight_events(events, code, highlight_names))
    } else {
        None
    }
}

/// The characters of `source.`.
pub open spec fn scope_prefix() -> Seq<char> {
    seq!['s', 'o', 'u', 'r', 'c', 'e', '.']
}

/// `<pre lang="`
pub open spec fn pre_lang_open() -> Seq<char> {
    seq!['<', 'p', 'r', 'e', ' ', 'l', 'a', 'n', 'g', '=', '"']
}

/// `<pre>`
pub open spec fn pre_plain() -> Seq<char> {
    seq!['<', 'p', 'r', 'e', '>']
}

/// `<code class="`
pub open spec fn code_class_open() -> Seq<char> {
    seq!['<', 'c', 'o', 'd', 'e', ' ', 'c', 'l', 'a', 's', 's', '=', '"']
}

/// `<code>`
pub open spec fn code_plain() -> Seq<char> {
    seq!['<', 'c', 'o', 'd', 'e', '>']
}

/// `">`
pub open spec fn attr_close() -> Seq<char> {
    seq!['"', '>']
}

/// The opening tag `<pre lang="LANG">`, or `<pre>` where no language is given.
pub open spec fn spec_pre_tag(lang: Option<Seq<char>>) -> Seq<char> {
    match lang {
        Some(l) => pre_lang_open() + l + attr_close(),
        None => pre_plain(),
    }
}

/// The opening tag `<code class="CLASS">`, or `<code>` where no class is given.
pub open spec fn spec_code_tag(class: Option<Seq<char>>) -> Seq<char> {
    match class {
        Some(c) => code_class_open() + c + attr_close(),
        None => code_plain(),
    }
}

/// Law: the `<pre>` tag of a language `l` is `<pre lang="`, then the whole of `l`, then `">`;
/// without a language it is `<pre>`. The `<code>` tag of a class `c` is `<code class="`, the
/// whole of `c`, then `">`; without a class, `<code>`.
pub proof fn law_tags(l: Seq<char>)
    ensures
        spec_pre_tag(Some(l)).len() == l.len() + 13,
        spec_pre_tag(Some(l)).take(11) =~= seq!['<', 'p', 'r', 'e', ' ', 'l', 'a', 'n', 'g', '=', '"'],
        spec_pre_tag(Some(l)).subrange(11, 11 + l.len() as int) =~= l,
        spec_pre_tag(Some(l)).skip(11 + l.len() as int) =~= seq!['"', '>'],
        spec_pre_tag(None) =~= seq!['<', 'p', 'r', 'e', '>'],
        spec_code_tag(Some(l)).len() == l.len() + 15,
        spec_code_tag(Some(l)).take(13) =~= seq![
            '<', 'c', 'o', 'd', 'e', ' ', 'c', 'l', 'a', 's', 's', '=', '"'
        ],
        spec_code_tag(Some(l)).subrange(13, 13 + l.len() as int) =~= l,
        spec_code_tag(Some(l)).skip(13 + l.len() as int) =~= seq!['"', '>'],
        spec_code_tag(None) =~= seq!['<', 'c', 'o', 'd', 'e', '>'],
{
}

pub open spec fn str_option_view(o: Option<&str>) -> Option<Seq<char>> {
    match o {
        Some(s) => Some(s@),
        None => None,
    }
}

impl TreesitterSyntaxAdapter {
    /// The directory that the parsers are loaded from.
    pub closed spec fn directory(&self) -> PathBuf {
        self.parsers_directory
    }

    /// An adapter that loads its parsers from `parsers_directory`.
    pub fn new(parsers_directory: PathBuf) -> (r: Result<Self, HighlightError>)
        ensures
            r matches Ok(a) && a.directory() == parsers_directory,
    {
        Ok(TreesitterSyntaxAdapter { parsers_directory })
    }

    /// The directory that the parsers are loaded from.
    pub fn parsers_directory(&self) -> (d: &PathBuf)
        ensures
            *d == self.directory(),
    {
        &self.parsers_directory
    }

    /// The Tree-sitter scope of a code block language: `source.` followed by the language.
    pub fn determine_ts_scope_name(code_lang: &str) -> (scope: String)
        ensures
            scope@ == scope_prefix() + code_lang@,
    {
        let mut scope = "source.".to_string();
        proof {
            reveal_strlit("source.");
            assert(scope@ =~= scope_prefix());
        }
        scope.append(code_lang);
        scope
    }

    /// The scope to highlight a code block with: none where the block names no language or
    /// an empty one, whose code is then left out; else the scope of its language.
    pub fn highlight_scope(lang: Option<&str>) -> (scope: Option<String>)
        ensures
            match lang {
                Some(l) => if l@.len() == 0 {
                    scope is None
                } else {
                    scope matches Some(s) && s@ == scope_prefix() + l@
                },
                None => scope is None,
            },
    {
        match lang {
            Some(l) => {
                if l.is_empty() {
                    None
                } else {
                    Some(Self::determine_ts_scope_name(l))
                }
            },
            None => None,
        }
    }

    /// The opening `<pre>` tag of a code block, with the `lang` attribute where there is one.
    pub fn pre_tag(lang: Option<&str>) -> (tag: String)
        ensures
            tag@ == spec_pre_tag(str_option_view(lang)),
    {
        match lang {
            Some(l) => {
                let mut tag = "<pre lang=\"".to_string();
                proof {
                    reveal_strlit("<pre lang=\"");
                    reveal_strlit("\">");
                    assert(tag@ =~= pre_lang_open());
                }
                tag.append(l);
                tag.append("\">");
                proof {
                    assert(tag@ =~= pre_lang_open() + l@ + attr_close());
                }
                tag
            },
            None => {
                let tag = "<pre>".to_string();
                proof {
                    reveal_strlit("<pre>");
                    assert(tag@ =~= pre_plain());
                }
                tag
            },
        }
    }

    /// The opening `<code>` tag of a code block, with the `class` attribute where there is one.
    pub fn code_tag(class: Option<&str>) -> (tag: String)
        ensures
            tag@ == spec_code_tag(str_option_view(class)),
    {
        match class {
            Some(c) => {
                let mut tag = "<code class=\"".to_string();
                proof {
                    reveal_strlit("<code class=\"");
                    reveal_strlit("\">");
                    assert(tag@ =~= code_class_open());
                }
                tag.append(c);
                tag.append("\">");
                proof {
                    assert(tag@ =~= code_class_open() + c@ + attr_close());
                }
                tag
            },
            None => {
                let tag = "<code>".to_string();
                proof {
                    reveal_strlit("<code>");
                    assert(tag@ =~= code_plain());
                }
                tag
            },
        }
    }
}

/// tree-sitter-loader's registry of the parsers found on disk, carried through as an opaque
/// value.
#[verifier::external_type_specification]
#[verifier::external_body]
pub struct ExLoader(Loader);

/// A Tree-sitter grammar, carried through as an opaque value.
#[verifier::external_type_specification]
#[verifier::external_body]
pub struct ExLanguage(Language);

/// The configuration of one language in a loader, carried through as an opaque value.
#[verifier::external_type_specification]
#[verifier::external_body]
pub struct ExLanguageConfiguration<'a>(LanguageConfiguration<'a>);

/// The highlight queries of a language, carried through as an opaque value.
#[verifier::external_type_specification]
#[verifier::external_body]
pub struct ExHighlightConfiguration(HighlightConfiguration);

/// The error of tree-sitter-loader, carried through as an opaque value.
#[verifier::external_type_specification]
#[verifier::external_body]
pub struct ExAnyhowError(anyhow::Error);

/// The error of tree-sitter-highlight, carried through as an opaque value.
#[verifier::external_type_specification]
#[verifier::external_body]
pub struct ExHighlightFailure(tree_sitter_highlight::Error);

/// Why code could not be highlighted.
#[derive(Debug)]
pub enum HighlightError {
    /// The loader failed while it looked for the language of the scope.
    LanguageLookup { scope: String, cause: anyhow::Error },
    /// No language is configured for the scope.
    LanguageNotFound { scope: String },
    /// The loader failed while it loaded the highlight queries of the language.
    HighlightsLoading(anyhow::Error),
    /// The language has no highlight queries.
    HighlightsNotFound { scope: String },
    /// The highlighter stopped.
    Highlighting(tree_sitter_highlight::Error),
}

/// The context that a failed language lookup for `scope` carries:
/// `Failed to retrieve Treesitter language configuration for language: 'SCOPE'`.
pub open spec fn language_context(scope: Seq<char>) -> Seq<char> {
    "Failed to retrieve Treesitter language configuration for language: '"@ + scope + "'"@
}

/// The context that a missing set of highlight queries for `scope` carries:
/// `Failed to retrieve Treesitter highlights for language: 'SCOPE'`.
pub open spec fn highlights_context(scope: Seq<char>) -> Seq<char> {
    "Failed to retrieve Treesitter highlights for language: '"@ + scope + "'"@
}

/// The cause of a language lookup that found nothing.
pub open spec fn language_not_found_text() -> Seq<char> {
    "Language configuration not found"@
}

/// `prefix`, then `scope`, then `'`.
fn quoted_context(prefix: &str, scope: &String) -> (m: String)
    ensures
        m@ == prefix@ + scope@ + "'"@,
{
    let mut m = prefix.to_string();
    m.append(scope.as_str());
    m.append("'");
    m
}

impl HighlightError {
    /// The context message that the lookup puts on this error, where it puts one: the language
    /// lookups name their scope; a failure to load the queries, and a failed run, carry only
    /// the outside error.
    pub fn context_message(&self) -> (m: Option<String>)
        ensures
            match self {
                HighlightError::LanguageLookup { scope, cause } => m matches Some(t) && t@
                    == language_context(scope@),
                HighlightError::LanguageNotFound { scope } => m matches Some(t) && t@
                    == language_context(scope@),
                HighlightError::HighlightsNotFound { scope } => m matches Some(t) && t@
                    == highlights_context(scope@),
                _ => m is None,
            },
    {
        match self {
            HighlightError::LanguageLookup { scope, cause: _ } => Some(
                quoted_context("Failed to retrieve Treesitter language configuration for language: '", scope),
            ),
            HighlightError::LanguageNotFound { scope } => Some(
                quoted_context("Failed to retrieve Treesitter language configuration for language: '", scope),
            ),
            HighlightError::HighlightsNotFound { scope } => Some(
                quoted_context("Failed to retrieve Treesitter highlights for language: '", scope),
            ),
            _ => None,
        }
    }

    /// The message of the cause under the context, where the library gives the cause: a
    /// language lookup that found nothing. Other causes are the outside errors themselves.
    pub fn cause_message(&self) -> (m: Option<String>)
        ensures
            match self {
                HighlightError::LanguageNotFound { scope } => m matches Some(t) && t@
                    == language_not_found_text(),
                _ => m is None,
            },
    {
        match self {
            HighlightError::LanguageNotFound { scope: _ } => Some("Language configuration not found".to_string()),
            _ => None,
        }
    }
}

impl TreesitterSyntaxAdapter {
    /// The highlighting run of `code` in the language of the scope `code_lang`, with the
    /// parsers of `loader`: the highlighter's events, unchanged, and the scope of the language
    /// that the run used, which is `code_lang` and records the run's events and its code. Its source spans
    /// tile the code, and its highlights open and close in balance. An error where the language, its queries or the run fail, that of the first
    /// step that fails.
    pub fn get_highlights(&self, loader: &Loader, code: &str, code_lang: &str) -> (r: Result<
        (Vec<HighlightEvent>, HighlightedScope),
        HighlightError,
    >)
        ensures
            r matches Ok((es, s)) ==> s@ == code_lang@ && es@ == s.run_events() && s.run_code()
                == code@ && spans_tile(
                es@,
                0,
                encode_utf8(code@).len() as int,
            ) && balanced(es@),
            r matches Err(e) ==> match e {
                HighlightError::LanguageNotFound { scope } => scope@ == code_lang@,
                HighlightError::LanguageLookup { scope, cause } => scope@ == code_lang@,
                HighlightError::HighlightsNotFound { scope } => scope@ == code_lang@,
                _ => true,
            },
    {
        let found = get_language_config(loader, code_lang)?;
        let queries = get_highlight_configuration(&found)?;
        run_highlights(loader, &queries, code)
    }
}

} // verus!
