use vstd::prelude::*;

use chrono::NaiveDate;

use super::{iter_nodes, render_html, parse_document, preorder, deref_all, DocNode, MDComrakSettings, comrak_document, comrak_html};
use crate::text::{chars_of, first_newline, lemma_first_newline, lines, strip_cr, string_of};

verus! {

/// The line that opens and closes a front matter block.
pub open spec fn delimiter_line() -> Seq<char> {
    seq!['-', '-', '-']
}

/// The YAML text of the lines `ls`: each line that is not the delimiter line, followed by
/// `'\n'`, in order.
pub open spec fn yaml_of_lines(ls: Seq<Seq<char>>) -> Seq<char>
    decreases ls.len(),
{
    if ls.len() == 0 {
        seq![]
    } else {
        (if ls[0] == delimiter_line() {
            Seq::<char>::empty()
        } else {
            ls[0].push('\n')
        }) + yaml_of_lines(ls.drop_first())
    }
}

/// The YAML source of a front matter block: its lines without the `---` delimiter lines.
pub open spec fn spec_front_matter_yaml(front_data: Seq<char>) -> Seq<char> {
    yaml_of_lines(lines(front_data))
}

/// One step of `spec_front_matter_yaml`: the first line of `s`, which ends at index `i`.
proof fn lemma_yaml_step(s: Seq<char>, i: int)
    requires
        0 <= i <= s.len(),
        s.len() > 0,
        forall|k: int| 0 <= k < i ==> s[k] != '\n',
        i == s.len() || s[i] == '\n',
    ensures
        i == s.len() ==> spec_front_matter_yaml(s) == (if s == delimiter_line() {
            Seq::<char>::empty()
        } else {
            s.push('\n')
        }),
        i < s.len() ==> spec_front_matter_yaml(s) == (if strip_cr(s.take(i)) == delimiter_line() {
            Seq::<char>::empty()
        } else {
            strip_cr(s.take(i)).push('\n')
        }) + spec_front_matter_yaml(s.skip(i + 1)),
{
    lemma_first_newline(s, i);
    let ls = lines(s);
    if i == s.len() {
        assert(ls == seq![s]);
        assert(ls.drop_first() =~= Seq::<Seq<char>>::empty());
        assert(yaml_of_lines(ls.drop_first()) == Seq::<char>::empty());
        assert((if s == delimiter_line() { Seq::<char>::empty() } else { s.push('\n') })
            + Seq::<char>::empty() =~= (if s == delimiter_line() { Seq::<char>::empty() } else { s.push('\n') }));
    } else {
        let rest = lines(s.skip(i + 1));
        assert(ls == seq![strip_cr(s.take(i))] + rest);
        assert(ls.drop_first() =~= rest);
    }
}

/// Does `v[start..end]` hold exactly the delimiter line?
fn is_delimiter(v: &Vec<char>, start: usize, end: usize) -> (b: bool)
    requires
        start <= end <= v.len(),
    ensures
        b == (v@.subrange(start as int, end as int) == delimiter_line()),
{
    if end - start != 3 {
        proof {
            assert(v@.subrange(start as int, end as int).len() != delimiter_line().len());
        }
        return false;
    }
    let b = v[start] == '-' && v[start + 1] == '-' && v[start + 2] == '-';
    proof {
        if b {
            assert(v@.subrange(start as int, end as int) =~= delimiter_line());
        } else {
            let sub = v@.subrange(start as int, end as int);
            assert(sub[0] == v@[start as int] && sub[1] == v@[start + 1] && sub[2] == v@[start + 2]);
            assert(sub != delimiter_line() || sub[0] == '-');
        }
    }
    b
}

/// The YAML source that a front matter block holds: its lines, without those that are
/// exactly `---`, each followed by `'\n'`. A `"\r\n"` line ending counts as one.
pub fn front_matter_yaml(front_data: &str) -> (yaml: String)
    ensures
        yaml@ == spec_front_matter_yaml(front_data@),
{
    let v = chars_of(front_data);
    let n = v.len();
    let mut out: Vec<char> = Vec::new();
    let mut start: usize = 0;
    proof {
        assert(v@.skip(0) =~= v@);
        assert(out@ + spec_front_matter_yaml(v@) =~= spec_front_matter_yaml(v@));
    }
    while start < n
        invariant
            n == v@.len(),
            v@ == front_data@,
            start <= n,
            spec_front_matter_yaml(v@) == out@ + spec_front_matter_yaml(v@.skip(start as int)),
        decreases n - start,
    {
        let mut i: usize = start;
        while i < n && v[i] != '\n'
            invariant
                start <= i <= n,
                n == v@.len(),
                forall|k: int| start <= k < i ==> v@[k] != '\n',
            decreases n - i,
        {
            i += 1;
        }
        let ghost s = v@.skip(start as int);
        proof {
            assert forall|k: int| 0 <= k < i - start implies s[k] != '\n' by {
                assert(s[k] == v@[start + k]);
            }
            if i < n {
                assert(s[i - start] == v@[i as int]);
            }
            lemma_yaml_step(s, i - start);
        }
        let ghost out_before = out@;
        if i == n {
            // the last line, which no terminator ends
            proof {
                assert(s =~= v@.subrange(start as int, n as int));
            }
            if !is_delimiter(&v, start, n) {
                let mut k = start;
                while k < n
                    invariant
                        start <= k <= n,
                        n == v@.len(),
                        out@ == out_before + v@.subrange(start as int, k as int),
                    decreases n - k,
                {
                    out.push(v[k]);
                    assert(v@.subrange(start as int, k + 1) =~= v@.subrange(start as int, k as int).push(v@[k as int]));
                    k += 1;
                }
                out.push('\n');
            }
            proof {
                assert(v@.skip(n as int) =~= Seq::<char>::empty());
                assert(lines(Seq::<char>::empty()) =~= Seq::<Seq<char>>::empty());
                assert(spec_front_matter_yaml(v@.skip(n as int)) == Seq::<char>::empty());
                assert(out@ + spec_front_matter_yaml(v@.skip(n as int)) =~= out@);
            }
            start = n;
        } else {
            let end = if i > start && v[i - 1] == '\r' { i - 1 } else { i };
            proof {
                assert(s.take(i - start) =~= v@.subrange(start as int, i as int));
                assert(strip_cr(s.take(i - start)) =~= v@.subrange(start as int, end as int));
                assert(s.skip(i - start + 1) =~= v@.skip(i + 1));
            }
            if !is_delimiter(&v, start, end) {
                let mut k = start;
                while k < end
                    invariant
                        start <= k <= end,
                        end <= n,
                        n == v@.len(),
                        out@ == out_before + v@.subrange(start as int, k as int),
                    decreases end - k,
                {
                    out.push(v[k]);
                    assert(v@.subrange(start as int, k + 1) =~= v@.subrange(start as int, k as int).push(v@[k as int]));
                    k += 1;
                }
                out.push('\n');
            }
            start = i + 1;
        }
    }
    proof {
        assert(v@.skip(n as int) =~= Seq::<char>::empty());
        assert(lines(Seq::<char>::empty()) =~= Seq::<Seq<char>>::empty());
        assert(out@ + spec_front_matter_yaml(v@.skip(start as int)) =~= out@);
    }
    string_of(out.as_slice())
}


/// chrono's calendar date, carried through as an opaque value.
#[verifier::external_type_specification]
#[verifier::external_body]
pub struct ExNaiveDate(NaiveDate);

/// chrono's `Clone` for `NaiveDate`, a `Copy` type: the clone is the same date.
pub assume_specification[ <NaiveDate as Clone>::clone ](d: &NaiveDate) -> (c: NaiveDate)
    ensures
        c == *d,
;

/// The metadata block at the head of an article.
#[derive(Clone, Debug)]
pub struct FrontMatter {
    pub name: String,
    pub summary: String,
    pub published: NaiveDate,
    pub updated: NaiveDate,
    pub tags: Vec<String>,
}

/// An article: its rendered HTML and its front matter.
pub struct Article {
    pub html_content: String,
    pub frontmatter: FrontMatter,
}

/// The text of the last front matter node among `nodes`, where there is one.
pub open spec fn last_front_matter(nodes: Seq<DocNode>) -> Option<Seq<char>>
    decreases nodes.len(),
{
    if nodes.len() == 0 {
        None
    } else {
        match nodes.last().front_matter {
            Some(f) => Some(f@),
            None => last_front_matter(nodes.drop_last()),
        }
    }
}

/// The YAML source of the front matter of a parsed document: that of the last front matter
/// node in pre-order, or nothing where the document has none.
pub open spec fn spec_document_yaml(doc: DocNode) -> Seq<char> {
    match last_front_matter(preorder(doc)) {
        Some(f) => spec_front_matter_yaml(f),
        None => Seq::<char>::empty(),
    }
}

/// Law: the front matter YAML of a document is built from the whole of its last front matter
/// block, whatever its length, and from no other text: where that block holds no carriage return, the lines of the YAML are exactly the
/// lines of the block without its `---` lines, however long the block; a document without
/// front matter gives no YAML.
pub proof fn law_document_yaml(doc: DocNode)
    ensures
        last_front_matter(preorder(doc)) is None ==> spec_document_yaml(doc).len() == 0,
        forall|f: Seq<char>|
            last_front_matter(preorder(doc)) == Some(f) ==> #[trigger] spec_document_yaml(doc)
                == spec_front_matter_yaml(f),
        forall|f: Seq<char>|
            last_front_matter(preorder(doc)) == Some(f) && (forall|m: int|
                0 <= m < f.len() ==> f[m] != '\r') ==> #[trigger] lines(spec_document_yaml(doc))
                == lines(f).filter(|l: Seq<char>| l != delimiter_line()),
{
    assert forall|f: Seq<char>|
        last_front_matter(preorder(doc)) == Some(f) && (forall|m: int|
            0 <= m < f.len() ==> f[m] != '\r') implies #[trigger] lines(spec_document_yaml(doc))
            == lines(f).filter(|l: Seq<char>| l != delimiter_line()) by {
        law_yaml_lines(f);
    }
}

impl Article {
    /// The YAML source of the front matter of the markdown `content`, parsed with the options
    /// of `settings`: the lines of its front matter block without the `---` lines, each
    /// followed by `'\n'`; empty where the document has no front matter.
    pub fn frontmatter_yaml(content: &str, settings: &MDComrakSettings) -> (yaml: String)
        ensures
            yaml@ == spec_document_yaml(comrak_document(content@, settings@.options)),
    {
        let root = parse_document(content, settings);
        let mut nodes: Vec<&DocNode> = Vec::new();
        iter_nodes(&root, &mut nodes);
        proof {
            assert(deref_all(nodes@) =~= preorder(root));
        }
        let mut yaml = String::new();
        let mut i: usize = 0;
        proof {
            assert(deref_all(nodes@).take(0) =~= Seq::<DocNode>::empty());
        }
        while i < nodes.len()
            invariant
                i <= nodes.len(),
                deref_all(nodes@) == preorder(root),
                yaml@ == match last_front_matter(deref_all(nodes@).take(i as int)) {
                    Some(f) => spec_front_matter_yaml(f),
                    None => Seq::<char>::empty(),
                },
            decreases nodes.len() - i,
        {
            let node: &DocNode = nodes[i];
            proof {
                let t = deref_all(nodes@).take(i + 1);
                assert(t.drop_last() =~= deref_all(nodes@).take(i as int));
                assert(t.last() == *node);
            }
            match &node.front_matter {
                Some(front_data) => {
                    yaml = front_matter_yaml(front_data.as_str());
                },
                None => {},
            }
            i += 1;
        }
        proof {
            assert(deref_all(nodes@).take(nodes.len() as int) =~= deref_all(nodes@));
        }
        yaml
    }

    /// The article of the markdown `content`, whose front matter is `frontmatter`: its HTML is
    /// what comrak renders of `content` with `settings`.
    pub fn render(content: &str, settings: &MDComrakSettings, frontmatter: FrontMatter) -> (a:
        Article)
        ensures
            a.html_content@ == comrak_html(content@, settings@),
            a.frontmatter == frontmatter,
    {
        let html_content = render_html(content, settings);
        Article { html_content, frontmatter }
    }
}


/// The lines of `s` hold no `'\n'`, and, where `s` holds no `'\r'`, no `'\r'` either.
proof fn lemma_lines_chars(s: Seq<char>)
    ensures
        forall|j: int, k: int|
            0 <= j < lines(s).len() && 0 <= k < lines(s)[j].len() ==> #[trigger] lines(s)[j][k]
                != '\n' && ((forall|m: int| 0 <= m < s.len() ==> s[m] != '\r') ==> lines(s)[j][k]
                != '\r'),
    decreases s.len(),
{
    if s.len() > 0 {
        let i = first_newline(s);
        lemma_first_newline_bounds(s);
        if i < s.len() {
            let rest = s.skip((i + 1) as int);
            lemma_lines_chars(rest);
            assert forall|j: int, k: int|
                0 <= j < lines(s).len() && 0 <= k < lines(s)[j].len() implies #[trigger] lines(s)[j][k]
                    != '\n' && ((forall|m: int| 0 <= m < s.len() ==> s[m] != '\r') ==> lines(s)[j][k]
                    != '\r') by {
                if j == 0 {
                    assert(lines(s)[0] == strip_cr(s.take(i as int)));
                    assert(lines(s)[0][k] == s[k]);
                } else {
                    assert(lines(s)[j] == lines(rest)[j - 1]);
                    if forall|m: int| 0 <= m < s.len() ==> s[m] != '\r' {
                        assert forall|m: int| 0 <= m < rest.len() implies rest[m] != '\r' by {
                            assert(rest[m] == s[m + i + 1]);
                        }
                    }
                }
            }
        } else {
            assert forall|j: int, k: int|
                0 <= j < lines(s).len() && 0 <= k < lines(s)[j].len() implies #[trigger] lines(s)[j][k]
                    != '\n' && ((forall|m: int| 0 <= m < s.len() ==> s[m] != '\r') ==> lines(s)[j][k]
                    != '\r') by {
                assert(lines(s)[j] == s);
            }
        }
    }
}

/// `first_newline(s)` is at most the length of `s`; every index before it holds no `'\n'`,
/// and, short of the end, it holds a `'\n'`.
proof fn lemma_first_newline_bounds(s: Seq<char>)
    ensures
        first_newline(s) <= s.len(),
        forall|k: int| 0 <= k < first_newline(s) ==> s[k] != '\n',
        first_newline(s) < s.len() ==> s[first_newline(s) as int] == '\n',
    decreases s.len(),
{
    if s.len() > 0 && s[0] != '\n' {
        lemma_first_newline_bounds(s.drop_first());
        assert forall|k: int| 0 <= k < first_newline(s) implies s[k] != '\n' by {
            if k > 0 {
                assert(s[k] == s.drop_first()[k - 1]);
            }
        }
    }
}

/// A line with no `'\n'` and no `'\r'`, followed by `'\n'`, is the first line of the text.
proof fn lemma_lines_cons(l: Seq<char>, t: Seq<char>)
    requires
        forall|k: int| 0 <= k < l.len() ==> l[k] != '\n' && l[k] != '\r',
    ensures
        lines(l.push('\n') + t) == seq![l] + lines(t),
{
    let s = l.push('\n') + t;
    assert forall|k: int| 0 <= k < l.len() implies s[k] != '\n' by {
        assert(s[k] == l[k]);
    }
    assert(s[l.len() as int] == '\n');
    lemma_first_newline(s, l.len() as int);
    assert(s.take(l.len() as int) =~= l);
    assert(s.skip((l.len() + 1) as int) =~= t);
    assert(strip_cr(l) == l);
}

/// Where no line of `ls` holds `'\n'` or `'\r'`, the lines of their YAML text are the lines of
/// `ls` that are not the delimiter line.
proof fn lemma_yaml_of_lines_lines(ls: Seq<Seq<char>>)
    requires
        forall|j: int, k: int|
            0 <= j < ls.len() && 0 <= k < ls[j].len() ==> #[trigger] ls[j][k] != '\n' && ls[j][k]
                != '\r',
    ensures
        lines(yaml_of_lines(ls)) == ls.filter(|l: Seq<char>| l != delimiter_line()),
    decreases ls.len(),
{
    let keep = |l: Seq<char>| l != delimiter_line();
    if ls.len() == 0 {
        assert(lines(Seq::<char>::empty()) =~= Seq::<Seq<char>>::empty());
    } else {
        let rest = ls.drop_first();
        assert forall|j: int, k: int|
            0 <= j < rest.len() && 0 <= k < rest[j].len() implies #[trigger] rest[j][k] != '\n'
                && rest[j][k] != '\r' by {
            assert(rest[j] == ls[j + 1]);
        }
        lemma_yaml_of_lines_lines(rest);
        assert(ls =~= seq![ls[0]] + rest);
        Seq::filter_distributes_over_add(seq![ls[0]], rest, keep);
        reveal_with_fuel(Seq::filter, 2);
        assert(seq![ls[0]].drop_last() =~= Seq::<Seq<char>>::empty());
        if ls[0] == delimiter_line() {
            assert(seq![ls[0]].filter(keep) =~= Seq::<Seq<char>>::empty());
            assert(yaml_of_lines(ls) =~= yaml_of_lines(rest));
            assert(ls.filter(keep) =~= rest.filter(keep));
        } else {
            assert(seq![ls[0]].filter(keep) =~= seq![ls[0]]);
            // the first line is line 0 of `ls`: instantiate the requires at j == 0
            assert forall|k: int| 0 <= k < ls[0].len() implies ls[0][k] != '\n' && ls[0][k]
                != '\r' by {
                assert(0 <= 0 < ls.len());
            }
            lemma_lines_cons(ls[0], yaml_of_lines(rest));
        }
    }
}

/// Law: where a front matter block holds no carriage return, the lines of its YAML source are
/// exactly its lines without the `---` delimiter lines, in order: the YAML keeps every other
/// line and holds no delimiter line.
pub proof fn law_yaml_lines(front_data: Seq<char>)
    requires
        forall|m: int| 0 <= m < front_data.len() ==> front_data[m] != '\r',
    ensures
        lines(spec_front_matter_yaml(front_data)) == lines(front_data).filter(
            |l: Seq<char>| l != delimiter_line(),
        ),
{
    lemma_lines_chars(front_data);
    lemma_yaml_of_lines_lines(lines(front_data));
}

} // verus!
