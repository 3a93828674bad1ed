//! Finding a draw.io document in what a language model answered.

use crate::outside::string_of;
use crate::text;
use crate::text::Class;
use vstd::prelude::*;
use vstd::slice::slice_subrange;

verus! {

/// What stands between the line of an opening fence and the last closing one.
pub open spec fn unfenced(s: Seq<char>, fence: Seq<char>) -> Seq<char> {
    match text::first_index(s, "\n"@) {
        None => s,
        Some(start) => {
            let inner = s.skip(start + 1);
            match text::last_index(inner, fence) {
                None => inner,
                Some(end) => inner.take(end),
            }
        },
    }
}

/// A text without whitespace around it, and without a code fence around that.
pub open spec fn bare(input: Seq<char>) -> Seq<char> {
    let s = text::trimmed(input, Class::Space);
    if text::has_prefix(s, "```"@) {
        text::trimmed(unfenced(s, "```"@), Class::Space)
    } else if text::has_prefix(s, "'''"@) {
        text::trimmed(unfenced(s, "'''"@), Class::Space)
    } else {
        s
    }
}

/// Where a document begins: at its declaration, or else at its outermost tag.
pub open spec fn document_start(s: Seq<char>) -> Option<int> {
    match text::first_index(s, "<?xml"@) {
        Some(i) => Some(i),
        None => text::first_index(s, "<mxfile"@),
    }
}

/// From where a document begins to the last closing tag.
pub open spec fn document_span(s: Seq<char>) -> Option<Seq<char>> {
    match document_start(s) {
        None => None,
        Some(start) => match text::last_index(s.skip(start), "</mxfile>"@) {
            None => None,
            Some(end) => Some(s.subrange(start, start + end + "</mxfile>"@.len())),
        },
    }
}

/// A text has the outline of a draw.io document: it begins with a declaration or the outermost
/// tag, ends with the closing tag, has as many opening as closing tags, and holds a diagram.
pub open spec fn looks_valid(xml: Seq<char>) -> bool {
    &&& text::has_prefix(xml, "<?xml"@) || text::has_prefix(xml, "<mxfile"@)
    &&& text::has_suffix(text::trim_back(xml, Class::Space), "</mxfile>"@)
    &&& text::occurrences_from(xml, "<mxfile"@, 0) == text::occurrences_from(
        xml,
        "</mxfile>"@,
        0,
    )
    &&& text::occurrences_from(xml, "<mxfile"@, 0) != 0
    &&& text::stands_in(xml, "<diagram"@) || text::stands_in(xml, "<mxGraphModel"@)
}

/// The document in an answer, if there is one that looks valid.
pub open spec fn extracted(input: Seq<char>) -> Option<Seq<char>> {
    match document_span(bare(input)) {
        None => None,
        Some(out) => {
            let xml = text::trimmed(out, Class::Space);
            if looks_valid(xml) {
                Some(xml)
            } else {
                None
            }
        },
    }
}

fn valid_chars(xml: &[char]) -> (b: bool)
    ensures
        b == looks_valid(xml@),
{
    let declaration = text::chars_of("<?xml");
    let open = text::chars_of("<mxfile");
    let close = text::chars_of("</mxfile>");
    if !text::starts_with(xml, declaration.as_slice()) && !text::starts_with(xml, open.as_slice()) {
        return false;
    }
    if !text::ends_with(text::strip_back(xml, Class::Space), close.as_slice()) {
        return false;
    }
    proof {
        reveal_strlit("<mxfile");
        reveal_strlit("</mxfile>");
    }
    let opened = text::count(xml, open.as_slice());
    let closed = text::count(xml, close.as_slice());
    if opened != closed || opened == 0 {
        return false;
    }
    let diagram = text::chars_of("<diagram");
    let model = text::chars_of("<mxGraphModel");
    text::contains(xml, diagram.as_slice()) || text::contains(xml, model.as_slice())
}

/// Whether a text has the outline of a draw.io document.
pub fn validate_xml_basic(xml: &str) -> (b: bool)
    ensures
        b == looks_valid(xml@),
{
    let v = text::chars_of(xml);
    valid_chars(v.as_slice())
}

fn without_fence<'a>(s: &'a [char], fence: &[char]) -> (r: &'a [char])
    ensures
        r@ == unfenced(s@, fence@),
{
    let newline = text::chars_of("\n");
    match text::find(s, newline.as_slice()) {
        None => s,
        Some(start) => {
            proof {
                reveal_strlit("\n");
            }
            let n: usize = s.len();
            let inner = slice_subrange(s, start + 1, n);
            assert(inner@ =~= s@.skip(start + 1));
            match text::rfind(inner, fence) {
                None => inner,
                Some(end) => {
                    let r = slice_subrange(inner, 0, end);
                    assert(r@ =~= inner@.take(end as int));
                    r
                },
            }
        },
    }
}

fn strip_fence(input: &[char]) -> (r: &[char])
    ensures
        r@ == bare(input@),
{
    let s = text::strip(input, Class::Space);
    let ticks = text::chars_of("```");
    let quotes = text::chars_of("'''");
    if text::starts_with(s, ticks.as_slice()) {
        text::strip(without_fence(s, ticks.as_slice()), Class::Space)
    } else if text::starts_with(s, quotes.as_slice()) {
        text::strip(without_fence(s, quotes.as_slice()), Class::Space)
    } else {
        s
    }
}

fn find_start(s: &[char]) -> (r: Option<usize>)
    ensures
        match r {
            Some(i) => document_start(s@) == Some(i as int) && i <= s@.len(),
            None => document_start(s@) is None,
        },
{
    let declaration = text::chars_of("<?xml");
    match text::find(s, declaration.as_slice()) {
        Some(i) => Some(i),
        None => {
            let open = text::chars_of("<mxfile");
            text::find(s, open.as_slice())
        },
    }
}

/// The draw.io document in an answer: without the code fence and the words around it, and only if
/// it looks valid.
pub fn extract_xml(input: &str) -> (r: Option<String>)
    ensures
        match r {
            Some(xml) => extracted(input@) == Some(xml@),
            None => extracted(input@) is None,
        },
{
    let all = text::chars_of(input);
    let s = strip_fence(all.as_slice());
    match find_start(s) {
        None => None,
        Some(start) => {
            let n: usize = s.len();
            let tail = slice_subrange(s, start, n);
            assert(tail@ =~= s@.skip(start as int));
            let close = text::chars_of("</mxfile>");
            match text::rfind(tail, close.as_slice()) {
                None => None,
                Some(end) => {
                    let out = slice_subrange(tail, 0, end + close.len());
                    assert(out@ =~= s@.subrange(start as int, start + end + close@.len()));
                    let xml = text::strip(out, Class::Space);
                    if valid_chars(xml) {
                        Some(string_of(xml))
                    } else {
                        None
                    }
                },
            }
        },
    }
}

/// What stands in a part of a text stands in the text.
proof fn lemma_occurs_in_part(s: Seq<char>, a: int, b: int, p: Seq<char>, i: int)
    requires
        0 <= a <= b <= s.len(),
        text::occurs_at(s.subrange(a, b), p, i),
    ensures
        text::occurs_at(s, p, a + i),
{
    assert(s.subrange(a, b).subrange(i, i + p.len()) =~= s.subrange(a + i, a + i + p.len()));
}

/// A document that was found in an answer is itself an answer in which it is found: extracting
/// again changes nothing.
pub proof fn extraction_is_stable(input: Seq<char>)
    ensures
        extracted(input) matches Some(xml) ==> extracted(xml) == Some(xml),
{
    if extracted(input) is Some {
        let decl = "<?xml"@;
        let open = "<mxfile"@;
        let close = "</mxfile>"@;
        reveal_strlit("<?xml");
        reveal_strlit("<mxfile");
        reveal_strlit("</mxfile>");
        reveal_strlit("```");
        reveal_strlit("'''");
        let s = bare(input);
        text::lemma_first_index_is(s, decl);
        text::lemma_first_index_is(s, open);
        let start = document_start(s)->0;
        let tail = s.skip(start);
        let i0 = choose|i: int| text::occurs_at(tail, close, i);
        text::lemma_has_last(tail, close, i0);
        let e = choose|k: int| i0 <= k && text::last_occurs_at(tail, close, k);
        text::lemma_last_index(tail, close, e);
        let out = s.subrange(start, start + e + close.len());
        let first = if text::first_index(s, decl) is Some {
            decl
        } else {
            open
        };
        assert(text::occurs_at(s, first, start));
        assert(s[start] == first[0]) by {
            assert(s.subrange(start, start + first.len())[0] == s[start]);
        }
        assert(out.last() == '>') by {
            assert(tail.subrange(e, e + close.len())[8] == tail[e + 8]);
        }
        assert(out[0] == '<');
        text::lemma_trimmed_fixed(out, Class::Space);
        let xml = out;
        assert(extracted(input) == Some(xml));
        // The document is its own bare text.
        assert(bare(xml) == xml) by {
            if text::has_prefix(xml, "```"@) {
                assert(xml.subrange(0, 3)[0] == xml[0]);
            }
            if text::has_prefix(xml, "'''"@) {
                assert(xml.subrange(0, 3)[0] == xml[0]);
            }
        }
        // It begins at its first character.
        if text::has_prefix(xml, decl) {
            text::lemma_first_index(xml, decl, 0);
        } else {
            assert(text::has_prefix(xml, open));
            if text::first_index(s, decl) is Some {
                text::lemma_first_index(s, decl, start);
                if xml.len() >= decl.len() {
                    assert(xml.subrange(0, 5) =~= s.subrange(start, start + 5));
                } else {
                    assert(tail.subrange(e, e + 9).len() == 9);
                }
                assert(false);
            }
            if text::stands_in(xml, decl) {
                let i = choose|i: int| text::occurs_at(xml, decl, i);
                lemma_occurs_in_part(s, start, start + e + close.len(), decl, i);
                assert(text::stands_in(s, decl));
                assert(false);
            }
            text::lemma_first_index(xml, open, 0);
        }
        assert(document_start(xml) == Some(0int));
        // It ends with its last character.
        assert(xml.skip(0) =~= xml);
        assert(xml.subrange(e, e + 9) =~= tail.subrange(e, e + 9));
        assert(text::last_occurs_at(xml, close, e)) by {
            assert forall|j: int| e < j implies !text::occurs_at(xml, close, j) by {
            }
        }
        text::lemma_last_index(xml, close, e);
        assert(xml.subrange(0, 0 + e + close.len()) =~= xml);
    }
}

/// A document that is extracted from itself is bare.
proof fn lemma_document_is_bare(doc: Seq<char>)
    requires
        extracted(doc) == Some(doc),
    ensures
        bare(doc) == doc,
        doc.len() > 0,
        !text::space(doc[0]),
        !text::space(doc.last()),
{
    reveal_strlit("<?xml");
    reveal_strlit("<mxfile");
    reveal_strlit("```");
    reveal_strlit("'''");
    let out = document_span(bare(doc))->0;
    assert(doc[0] == '<') by {
        if text::has_prefix(doc, "<?xml"@) {
            assert(doc.subrange(0, 5)[0] == '<');
        } else {
            assert(doc.subrange(0, 7)[0] == '<');
        }
    }
    assert(doc.len() > 0) by {
        assert(text::has_prefix(doc, "<?xml"@) || text::has_prefix(doc, "<mxfile"@));
    }
    text::lemma_trimmed_ends(out, Class::Space);
    text::lemma_trimmed_fixed(doc, Class::Space);
    if text::has_prefix(doc, "```"@) {
        assert(doc.subrange(0, 3)[0] == '`');
    }
    if text::has_prefix(doc, "'''"@) {
        assert(doc.subrange(0, 3)[0] == '\'');
    }
}

/// The first line of a fenced text is the opening fence.
proof fn lemma_opening(fence: Seq<char>, language: Seq<char>, rest: Seq<char>)
    requires
        !language.contains('\n'),
        !fence.contains('\n'),
    ensures
        ({
            let s = fence + language + seq!['\n'] + rest;
            &&& text::has_prefix(s, fence)
            &&& text::first_index(s, seq!['\n']) == Some((fence.len() + language.len()) as int)
            &&& s.skip((fence.len() + language.len() + 1) as int) == rest
        }),
{
    let newline = seq!['\n'];
    let head = fence + language;
    let s = head + newline + rest;
    let n = head.len() as int;
    assert(s.subrange(0, fence.len() as int) =~= fence);
    assert(s.subrange(n, n + 1) =~= newline);
    assert forall|j: int| 0 <= j < n implies !text::occurs_at(s, newline, j) by {
        if text::occurs_at(s, newline, j) {
            assert(s.subrange(j, j + 1)[0] == '\n');
            assert(s[j] == head[j]);
            if j < fence.len() {
                assert(fence[j] == '\n');
            } else {
                assert(language[j - fence.len()] == '\n');
            }
        }
    }
    assert(text::first_occurs_at(s, newline, n));
    text::lemma_first_index(s, newline, n);
    assert(s.skip(n + 1) =~= rest);
}

/// The last line of a fenced text is the closing fence.
proof fn lemma_closing(doc: Seq<char>, fence: Seq<char>)
    requires
        fence.len() > 0,
    ensures
        ({
            let inner = doc + seq!['\n'] + fence;
            &&& text::last_index(inner, fence) == Some((doc.len() + 1) as int)
            &&& inner.take((doc.len() + 1) as int) == doc.push('\n')
        }),
{
    let inner = doc + seq!['\n'] + fence;
    let m = doc.len() as int;
    assert(inner.subrange(m + 1, m + 1 + fence.len()) =~= fence);
    assert(text::last_occurs_at(inner, fence, m + 1));
    text::lemma_last_index(inner, fence, m + 1);
    assert(inner.take(m + 1) =~= doc.push('\n'));
}

/// A line feed behind a text is trimmed away.
proof fn lemma_line_feed_trimmed(doc: Seq<char>)
    requires
        doc.len() > 0,
        !text::space(doc[0]),
        !text::space(doc.last()),
    ensures
        text::trimmed(doc.push('\n'), Class::Space) == doc,
{
    let held = doc.push('\n');
    text::lemma_prefix_len(held, Class::Space, 0);
    assert(text::trim_front(held, Class::Space) =~= held);
    assert(held[held.len() - 2] == doc.last());
    text::lemma_suffix_len(held, Class::Space, 1);
    assert(text::trim_back(held, Class::Space) =~= doc);
}

/// What a fence is put round is what stands in it.
proof fn lemma_fenced(doc: Seq<char>, language: Seq<char>, fence: Seq<char>)
    requires
        doc.len() > 0,
        !text::space(doc[0]),
        !text::space(doc.last()),
        !language.contains('\n'),
        !fence.contains('\n'),
        fence.len() > 0,
        !text::space(fence[0]),
        !text::space(fence.last()),
    ensures
        ({
            let s = fence + language + seq!['\n'] + doc + seq!['\n'] + fence;
            &&& text::trimmed(s, Class::Space) == s
            &&& text::has_prefix(s, fence)
            &&& text::trimmed(unfenced(s, fence), Class::Space) == doc
        }),
{
    reveal_strlit("\n");
    assert("\n"@ =~= seq!['\n']);
    let inner = doc + seq!['\n'] + fence;
    let s = fence + language + seq!['\n'] + doc + seq!['\n'] + fence;
    assert(s =~= fence + language + seq!['\n'] + inner);
    assert(s[0] == fence[0]);
    assert(s.last() == fence.last());
    text::lemma_trimmed_fixed(s, Class::Space);
    lemma_opening(fence, language, inner);
    lemma_closing(doc, fence);
    lemma_line_feed_trimmed(doc);
}

/// A code fence around a document, with or without a language behind it, changes nothing.
pub proof fn fences_do_not_matter(doc: Seq<char>, language: Seq<char>)
    requires
        extracted(doc) == Some(doc),
        !language.contains('\n'),
    ensures
        extracted("```"@ + language + seq!['\n'] + doc + seq!['\n'] + "```"@) == Some(doc),
        extracted("'''"@ + language + seq!['\n'] + doc + seq!['\n'] + "'''"@) == Some(doc),
{
    reveal_strlit("```");
    reveal_strlit("'''");
    lemma_document_is_bare(doc);
    lemma_fenced(doc, language, "```"@);
    lemma_fenced(doc, language, "'''"@);
    let s = "'''"@ + language + seq!['\n'] + doc + seq!['\n'] + "'''"@;
    if text::has_prefix(s, "```"@) {
        assert(s.subrange(0, 3)[0] == '`');
    }
}

/// Every diagram is taken as it is, however long: a text that begins with a declaration or the
/// outermost tag, ends with the closing tag, has as many opening as closing tags, and holds a diagram.
pub proof fn documents_are_taken(doc: Seq<char>)
    requires
        text::has_prefix(doc, "<?xml"@) || (text::has_prefix(doc, "<mxfile"@) && !text::stands_in(
            doc,
            "<?xml"@,
        )),
        text::has_suffix(doc, "</mxfile>"@),
        text::occurrences_from(doc, "<mxfile"@, 0) == text::occurrences_from(
            doc,
            "</mxfile>"@,
            0,
        ),
        text::occurrences_from(doc, "<mxfile"@, 0) != 0,
        text::stands_in(doc, "<diagram"@) || text::stands_in(doc, "<mxGraphModel"@),
    ensures
        extracted(doc) == Some(doc),
{
    let close = "</mxfile>"@;
    reveal_strlit("<?xml");
    reveal_strlit("<mxfile");
    reveal_strlit("</mxfile>");
    reveal_strlit("```");
    reveal_strlit("'''");
    let n = doc.len() as int;
    let first = if text::has_prefix(doc, "<?xml"@) {
        "<?xml"@
    } else {
        "<mxfile"@
    };
    assert(doc.subrange(0, first.len() as int)[0] == doc[0]);
    assert(doc.subrange(n - 9, n)[8] == doc[n - 1]);
    text::lemma_trimmed_fixed(doc, Class::Space);
    if text::has_prefix(doc, "```"@) {
        assert(doc.subrange(0, 3)[0] == doc[0]);
    }
    if text::has_prefix(doc, "'''"@) {
        assert(doc.subrange(0, 3)[0] == doc[0]);
    }
    assert(bare(doc) == doc);
    assert(text::first_occurs_at(doc, first, 0));
    text::lemma_first_index(doc, first, 0);
    assert(document_start(doc) == Some(0int));
    assert(doc.skip(0) =~= doc);
    assert(text::last_occurs_at(doc, close, n - 9));
    text::lemma_last_index(doc, close, n - 9);
    assert(doc.subrange(0, n) =~= doc);
    text::lemma_suffix_len(doc, Class::Space, 0);
    assert(text::trim_back(doc, Class::Space) =~= doc);
}

/// What is taken from an answer stands in it, from the first tag to the last, and looks like a diagram.
pub proof fn only_diagrams_are_taken(input: Seq<char>)
    ensures
        extracted(input) matches Some(doc) ==> {
            &&& text::has_prefix(doc, "<?xml"@) || text::has_prefix(doc, "<mxfile"@)
            &&& text::has_suffix(doc, "</mxfile>"@)
            &&& text::occurrences_from(doc, "<mxfile"@, 0) == text::occurrences_from(
                doc,
                "</mxfile>"@,
                0,
            )
            &&& text::occurrences_from(doc, "<mxfile"@, 0) != 0
            &&& text::stands_in(doc, "<diagram"@) || text::stands_in(doc, "<mxGraphModel"@)
            &&& text::stands_in(bare(input), doc)
        },
{
    if extracted(input) is Some {
        let doc = extracted(input)->0;
        let s = bare(input);
        extraction_is_stable(input);
        lemma_document_is_bare(doc);
        text::lemma_suffix_len(doc, Class::Space, 0);
        assert(text::trim_back(doc, Class::Space) =~= doc);
        let out = document_span(s)->0;
        lemma_span_stands(s);
        lemma_trimmed_stands(out);
        let i = choose|i: int| text::occurs_at(s, out, i);
        let j = choose|j: int| text::occurs_at(out, doc, j);
        assert(s.subrange(i, i + out.len()) == out);
        assert(s.subrange(i + j, i + j + doc.len()) =~= out.subrange(j, j + doc.len()));
        assert(text::occurs_at(s, doc, i + j));
    }
}

proof fn lemma_span_stands(s: Seq<char>)
    requires
        document_span(s) is Some,
    ensures
        text::stands_in(s, document_span(s)->0),
{
    text::lemma_first_index_is(s, "<?xml"@);
    text::lemma_first_index_is(s, "<mxfile"@);
    reveal_strlit("</mxfile>");
    let close = "</mxfile>"@;
    let start = document_start(s)->0;
    let tail = s.skip(start);
    let i0 = choose|i: int| text::occurs_at(tail, close, i);
    text::lemma_has_last(tail, close, i0);
    let e = choose|k: int| i0 <= k && text::last_occurs_at(tail, close, k);
    text::lemma_last_index(tail, close, e);
    let out = s.subrange(start, start + e + close.len());
    assert(text::occurs_at(s, out, start));
}

proof fn lemma_trimmed_stands(s: Seq<char>)
    ensures
        text::stands_in(s, text::trimmed(s, Class::Space)),
{
    let k = Class::Space;
    text::lemma_prefix_len_is(s, k);
    let t = text::trim_front(s, k);
    text::lemma_suffix_len_is(t, k);
    let n = text::prefix_len(s, k) as int;
    let r = text::trimmed(s, k);
    assert(s.subrange(n, n + r.len()) =~= r);
    assert(text::occurs_at(s, r, n));
}

/// `doc` stands in `s` behind `before`: its first tag is the first in `s`, and its last one the last.
pub open spec fn stands_alone(before: Seq<char>, doc: Seq<char>, behind: Seq<char>) -> bool {
    let s = before + doc + behind;
    let n = before.len() as int;
    &&& text::first_index(s, "<?xml"@) == Some(n) || (text::first_index(s, "<?xml"@) is None
        && text::first_index(s, "<mxfile"@) == Some(n))
    &&& text::last_index(doc + behind, "</mxfile>"@) == Some(doc.len() - "</mxfile>"@.len())
}

proof fn lemma_span_around(before: Seq<char>, doc: Seq<char>, behind: Seq<char>)
    requires
        stands_alone(before, doc, behind),
    ensures
        document_span(before + doc + behind) == Some(doc),
{
    let s = before + doc + behind;
    let n = before.len() as int;
    let m = doc.len() as int;
    assert(document_start(s) == Some(n));
    assert(s.skip(n) =~= doc + behind);
    assert(s.subrange(n, n + m) =~= doc);
}

proof fn lemma_bare_itself(s: Seq<char>)
    requires
        text::trimmed(s, Class::Space) == s,
        !text::has_prefix(s, "```"@),
        !text::has_prefix(s, "'''"@),
    ensures
        bare(s) == s,
{
}

proof fn lemma_spanned_is_taken(s: Seq<char>, doc: Seq<char>)
    requires
        bare(s) == s,
        document_span(s) == Some(doc),
        text::trimmed(doc, Class::Space) == doc,
        looks_valid(doc),
    ensures
        extracted(s) == Some(doc),
{
}

proof fn lemma_taken_is_valid(doc: Seq<char>)
    requires
        extracted(doc) == Some(doc),
    ensures
        looks_valid(doc),
{
}

/// Words around a diagram do not matter, as long as they hold no tag of their own and are not fenced.
pub proof fn words_around_do_not_matter(before: Seq<char>, doc: Seq<char>, behind: Seq<char>)
    requires
        extracted(doc) == Some(doc),
        stands_alone(before, doc, behind),
        text::trimmed(before + doc + behind, Class::Space) == before + doc + behind,
        !text::has_prefix(before + doc + behind, "```"@),
        !text::has_prefix(before + doc + behind, "'''"@),
    ensures
        extracted(before + doc + behind) == Some(doc),
{
    let s = before + doc + behind;
    assert(text::trimmed(doc, Class::Space) == doc) by {
        lemma_document_is_bare(doc);
        text::lemma_trimmed_fixed(doc, Class::Space);
    }
    assert(looks_valid(doc)) by {
        lemma_taken_is_valid(doc);
    }
    assert(document_span(s) == Some(doc)) by {
        lemma_span_around(before, doc, behind);
    }
    assert(bare(s) == s) by {
        lemma_bare_itself(s);
    }
    lemma_spanned_is_taken(s, doc);
}

} // verus!
