//! Text helpers for the documentation browser and the snapshot store:
//! turning file stems into display titles, joining path segments, and
//! sanitizing free-form descriptions into file-name-safe slugs.

use vstd::prelude::*;

verus! {

use crate::strutil::{spec_lower, spec_upper_char, to_lower, append_upper_char};
use crate::schedule::spec_split;
use crate::model::{lex_le, lemma_lex_refl, lemma_lex_trans, lemma_lex_total};
use vstd::multiset::Multiset;

/// A description character made file-name safe: letters, digits, dashes and
/// underscores stay, spaces become dashes, anything else an underscore.
pub open spec fn spec_sanitize_char(c: char) -> char {
    if ('a' <= c <= 'z') || ('A' <= c <= 'Z') || ('0' <= c <= '9') || c == '-' || c == '_' {
        c
    } else if c == ' ' {
        '-'
    } else {
        '_'
    }
}

/// A sanitized description: each character made safe, truncated to fifty
/// characters.
pub open spec fn spec_sanitize_description(s: Seq<char>) -> Seq<char> {
    let mapped = s.map_values(|c: char| spec_sanitize_char(c));
    if mapped.len() <= 50 {
        mapped
    } else {
        mapped.take(50)
    }
}

/// Make a free-form description safe to use inside a file name.
pub fn sanitize_description(description: &str) -> (r: String)
    ensures
        r@ == spec_sanitize_description(description@),
{
    let len = description.unicode_len();
    let limit: usize = if len > 50 {
        50
    } else {
        len
    };
    let mut out = String::new();
    let mut i: usize = 0;
    let ghost mapped = description@.map_values(|c: char| spec_sanitize_char(c));
    proof {
        assert(out@ =~= mapped.take(0));
    }
    while i < limit
        invariant
            i <= limit,
            len == description@.len(),
            limit == if len > 50 { 50int } else { len as int },
            mapped == description@.map_values(|c: char| spec_sanitize_char(c)),
            out@ == mapped.take(i as int),
        decreases limit - i,
    {
        let c = description.get_char(i);
        if ('a' <= c && c <= 'z') || ('A' <= c && c <= 'Z') || ('0' <= c && c <= '9') || c == '-'
            || c == '_' {
            let piece = description.substring_char(i, i + 1);
            proof {
                assert(piece@ =~= seq![description@[i as int]]);
            }
            out.append(piece);
        } else if c == ' ' {
            out.append("-");
            proof {
                reveal_strlit("-");
            }
        } else {
            out.append("_");
            proof {
                reveal_strlit("_");
            }
        }
        proof {
            assert(out@ =~= mapped.take(i + 1));
        }
        i += 1;
    }
    proof {
        if len > 50 {
        } else {
            assert(mapped.take(limit as int) =~= mapped);
        }
    }
    out
}

/// A word with its first Latin letter upper-cased and the rest lower-cased.
pub open spec fn spec_capitalize(w: Seq<char>) -> Seq<char> {
    if w.len() == 0 {
        Seq::empty()
    } else {
        seq![spec_upper_char(w[0])] + spec_lower(w.skip(1))
    }
}

/// Capitalize one word: first letter upper case, the rest lower case.
pub fn capitalize_word(word: &str) -> (r: String)
    ensures
        r@ == spec_capitalize(word@),
{
    let len = word.unicode_len();
    if len == 0 {
        return String::new();
    }
    let mut out = String::new();
    append_upper_char(&mut out, word, 0);
    let rest = word.substring_char(1, len);
    let lowered = to_lower(rest);
    out.append(lowered.as_str());
    proof {
        assert(rest@ =~= word@.skip(1));
        assert(out@ =~= spec_capitalize(word@));
    }
    out
}

/// Whether any piece so far is a word (non-empty).
pub open spec fn spec_has_word(ps: Seq<Seq<char>>) -> bool
    decreases ps.len(),
{
    if ps.len() == 0 {
        false
    } else {
        spec_has_word(ps.drop_last()) || ps.last().len() > 0
    }
}

/// The capitalized words of the pieces, joined by single spaces; empty
/// pieces vanish.
pub open spec fn spec_title_fold(ps: Seq<Seq<char>>) -> Seq<char>
    decreases ps.len(),
{
    if ps.len() == 0 {
        Seq::empty()
    } else {
        let r = spec_title_fold(ps.drop_last());
        if ps.last().len() == 0 {
            r
        } else if spec_has_word(ps.drop_last()) {
            r + " "@ + spec_capitalize(ps.last())
        } else {
            r + spec_capitalize(ps.last())
        }
    }
}

/// A separator character of a title: underscores and dashes read as blanks.
pub open spec fn spec_blankify_char(c: char) -> char {
    if c == '_' || c == '-' {
        ' '
    } else {
        c
    }
}

/// A file stem turned into a display title: underscores and dashes become
/// blanks, the blank-separated words are capitalized and joined by single
/// spaces.
pub open spec fn spec_titleize(s: Seq<char>) -> Seq<char> {
    spec_title_fold(spec_split(s.map_values(|c: char| spec_blankify_char(c)), ' '))
}

/// Turn a file stem into a display title.
pub fn titleize(value: &str) -> (r: String)
    ensures
        r@ == spec_titleize(value@),
{
    let len = value.unicode_len();
    let mut blanked = String::new();
    let mut i: usize = 0;
    let ghost mapped = value@.map_values(|c: char| spec_blankify_char(c));
    proof {
        assert(blanked@ =~= mapped.take(0));
    }
    while i < len
        invariant
            i <= len,
            len == value@.len(),
            mapped == value@.map_values(|c: char| spec_blankify_char(c)),
            blanked@ == mapped.take(i as int),
        decreases len - i,
    {
        let c = value.get_char(i);
        if c == '_' || c == '-' {
            blanked.append(" ");
            proof {
                reveal_strlit(" ");
            }
        } else {
            let piece = value.substring_char(i, i + 1);
            proof {
                assert(piece@ =~= seq![value@[i as int]]);
            }
            blanked.append(piece);
        }
        proof {
            assert(blanked@ =~= mapped.take(i + 1));
        }
        i += 1;
    }
    proof {
        assert(mapped.take(len as int) =~= mapped);
    }
    let pieces = crate::schedule::split_char(blanked.as_str(), ' ');
    let ghost sp = spec_split(mapped, ' ');
    let mut out = String::new();
    let mut any = false;
    let mut j: usize = 0;
    proof {
        assert(sp.take(0) =~= Seq::<Seq<char>>::empty());
        assert(out@ =~= spec_title_fold(sp.take(0)));
    }
    while j < pieces.len()
        invariant
            j <= pieces@.len(),
            pieces@.map_values(|x: String| x@) == sp,
            out@ == spec_title_fold(sp.take(j as int)),
            any == spec_has_word(sp.take(j as int)),
        decreases pieces@.len() - j,
    {
        proof {
            assert(sp.take(j + 1).drop_last() =~= sp.take(j as int));
            assert(sp.take(j + 1).last() == sp[j as int]);
            assert(sp[j as int] == pieces@[j as int]@);
        }
        if pieces[j].as_str().unicode_len() > 0 {
            if any {
                out.append(" ");
            }
            let cap = capitalize_word(pieces[j].as_str());
            out.append(cap.as_str());
            any = true;
        }
        j += 1;
    }
    proof {
        assert(sp.take(pieces@.len() as int) =~= sp);
    }
    out
}

/// Path segments joined by forward slashes.
pub open spec fn spec_join_slash(segments: Seq<Seq<char>>) -> Seq<char>
    decreases segments.len(),
{
    if segments.len() == 0 {
        Seq::empty()
    } else if segments.len() == 1 {
        segments[0]
    } else {
        spec_join_slash(segments.drop_last()) + "/"@ + segments.last()
    }
}

/// Join path segments with forward slashes, the way relative paths are
/// shown.
pub fn relative_to_string(segments: &Vec<String>) -> (r: String)
    ensures
        r@ == spec_join_slash(segments@.map_values(|x: String| x@)),
{
    let ghost sp = segments@.map_values(|x: String| x@);
    let mut out = String::new();
    let mut i: usize = 0;
    proof {
        assert(sp.take(0) =~= Seq::<Seq<char>>::empty());
        assert(out@ =~= spec_join_slash(sp.take(0)));
    }
    while i < segments.len()
        invariant
            i <= segments@.len(),
            sp == segments@.map_values(|x: String| x@),
            out@ == spec_join_slash(sp.take(i as int)),
        decreases segments@.len() - i,
    {
        proof {
            assert(sp.take(i + 1).drop_last() =~= sp.take(i as int));
            assert(sp.take(i + 1).last() == sp[i as int]);
            assert(sp[i as int] == segments@[i as int]@);
        }
        if i > 0 {
            out.append("/");
        }
        out.append(segments[i].as_str());
        i += 1;
    }
    proof {
        assert(sp.take(segments@.len() as int) =~= sp);
    }
    out
}

/// One entry of the documentation listing: a display title, a relative
/// path, and the category it files under.
#[derive(Debug, Clone)]
pub struct DocEntry {
    pub title: String,
    pub path: String,
    pub category: String,
}

/// The listing order of documentation entries: by category, then by title.
/// Categories that compare equal both ways are ordered by their titles.
pub open spec fn doc_le(a: DocEntry, b: DocEntry) -> bool {
    lex_le(a.category@, b.category@) && (lex_le(b.category@, a.category@) ==> lex_le(
        a.title@,
        b.title@,
    ))
}

/// The documentation listing order is transitive.
pub proof fn lemma_doc_le_trans(a: DocEntry, b: DocEntry, c: DocEntry)
    requires
        doc_le(a, b),
        doc_le(b, c),
    ensures
        doc_le(a, c),
{
    lemma_lex_trans(a.category@, b.category@, c.category@);
    if lex_le(c.category@, a.category@) {
        lemma_lex_trans(c.category@, a.category@, b.category@);
        lemma_lex_trans(b.category@, c.category@, a.category@);
        lemma_lex_trans(a.title@, b.title@, c.title@);
    }
}

/// The documentation listing order is total.
pub proof fn lemma_doc_le_total(a: DocEntry, b: DocEntry)
    ensures
        doc_le(a, b) || doc_le(b, a),
{
    lemma_lex_total(a.category@, b.category@);
    lemma_lex_total(a.title@, b.title@);
}

/// Compare two entries in the listing order.
pub fn doc_entry_le(a: &DocEntry, b: &DocEntry) -> (r: bool)
    ensures
        r == doc_le(*a, *b),
{
    let cab = crate::model::str_lex_le(a.category.as_str(), b.category.as_str());
    if !cab {
        return false;
    }
    let cba = crate::model::str_lex_le(b.category.as_str(), a.category.as_str());
    if !cba {
        return true;
    }
    crate::model::str_lex_le(a.title.as_str(), b.title.as_str())
}

fn min_doc_index(v: &Vec<DocEntry>) -> (r: usize)
    requires
        v@.len() > 0,
    ensures
        0 <= r < v@.len(),
        forall|j: int| 0 <= j < v@.len() ==> doc_le(v@[r as int], #[trigger] v@[j]),
{
    let mut best: usize = 0;
    let mut i: usize = 1;
    proof {
        lemma_lex_refl(v@[0].category@);
        lemma_lex_refl(v@[0].title@);
    }
    while i < v.len()
        invariant
            0 <= best < v@.len(),
            1 <= i <= v@.len(),
            forall|j: int| 0 <= j < i ==> doc_le(v@[best as int], #[trigger] v@[j]),
        decreases v@.len() - i,
    {
        if !doc_entry_le(&v[best], &v[i]) {
            proof {
                lemma_doc_le_total(v@[best as int], v@[i as int]);
            }
            let newbest: usize = i;
            proof {
                assert forall|j: int| 0 <= j < i + 1 implies doc_le(
                    v@[newbest as int],
                    #[trigger] v@[j],
                ) by {
                    if j < i {
                        lemma_doc_le_trans(v@[newbest as int], v@[best as int], v@[j]);
                    } else {
                        lemma_lex_refl(v@[newbest as int].category@);
                        lemma_lex_refl(v@[newbest as int].title@);
                    }
                }
            }
            best = newbest;
        }
        i += 1;
    }
    best
}

/// Sort documentation entries by category and then by title: the result is
/// a permutation of the input in the listing order.
pub fn sort_doc_entries(v: Vec<DocEntry>) -> (r: Vec<DocEntry>)
    ensures
        r@.to_multiset() == v@.to_multiset(),
        forall|i: int, j: int| 0 <= i < j < r@.len() ==> doc_le(#[trigger] r@[i], #[trigger] r@[j]),
{
    broadcast use vstd::seq_lib::group_to_multiset_ensures;
    broadcast use vstd::multiset::group_multiset_axioms;

    let mut rest = v;
    let mut out: Vec<DocEntry> = Vec::new();
    let ghost orig = rest@;
    proof {
        assert(out@.to_multiset().len() == 0);
        assert(out@.to_multiset() =~= Multiset::<DocEntry>::empty());
        assert(out@.to_multiset().add(rest@.to_multiset()) =~= orig.to_multiset());
    }
    while rest.len() > 0
        invariant
            out@.to_multiset().add(rest@.to_multiset()) == orig.to_multiset(),
            forall|i: int, j: int|
                0 <= i < j < out@.len() ==> doc_le(#[trigger] out@[i], #[trigger] out@[j]),
            forall|i: int, j: int|
                0 <= i < out@.len() && 0 <= j < rest@.len() ==> doc_le(
                    #[trigger] out@[i],
                    #[trigger] rest@[j],
                ),
        decreases rest@.len(),
    {
        let k = min_doc_index(&rest);
        let ghost rest0 = rest@;
        let ghost out0 = out@;
        let item = rest.remove(k);
        out.push(item);
        proof {
            rest0.to_multiset_ensures();
            rest@.to_multiset_ensures();
            out0.to_multiset_ensures();
            assert(rest@ == rest0.remove(k as int));
            assert(rest@.to_multiset() == rest0.to_multiset().remove(rest0[k as int])) by {
                vstd::seq_lib::to_multiset_remove::<DocEntry>(rest0, k as int);
            }
            assert(rest0.to_multiset().contains(rest0[k as int])) by {
                assert(rest0.contains(rest0[k as int]));
            }
            assert(rest0.to_multiset() =~= rest@.to_multiset().insert(rest0[k as int]));
            assert(out@.to_multiset() =~= out0.to_multiset().insert(rest0[k as int]));
            assert(out@.to_multiset().add(rest@.to_multiset()) =~= out0.to_multiset().add(
                rest0.to_multiset(),
            ));
            assert(out@ == out0.push(rest0[k as int]));
            assert forall|i: int, j: int|
                0 <= i < out@.len() && 0 <= j < rest@.len() implies doc_le(
                #[trigger] out@[i],
                #[trigger] rest@[j],
            ) by {
                let pre = if j < k { j } else { j + 1 };
                assert(rest@[j] == rest0[pre]);
                if i < out@.len() - 1 {
                    assert(out@[i] == out0[i]);
                } else {
                    assert(out@[i] == rest0[k as int]);
                }
            }
            assert forall|i: int, j: int|
                0 <= i < j < out@.len() implies doc_le(#[trigger] out@[i], #[trigger] out@[j]) by {
                if j < out@.len() - 1 {
                    assert(out@[i] == out0[i] && out@[j] == out0[j]);
                } else {
                    assert(out@[i] == out0[i] && out@[j] == rest0[k as int]);
                }
            }
        }
    }
    proof {
        assert(rest@.to_multiset().len() == 0);
        assert(rest@.to_multiset() =~= Multiset::<DocEntry>::empty());
        assert(out@.to_multiset() =~= out@.to_multiset().add(rest@.to_multiset()));
    }
    out
}

/// A document path resolved against a root: an absolute input (one that
/// starts with a slash) stands alone, a relative one is joined under the
/// root.
pub fn resolve_path(input: &str, root: &str) -> (r: String)
    ensures
        input@.len() > 0 && input@[0] == '/' ==> r@ == input@,
        !(input@.len() > 0 && input@[0] == '/') ==> r@ == root@ + "/"@ + input@,
{
    if input.unicode_len() > 0 && input.get_char(0) == '/' {
        input.to_owned()
    } else {
        let mut out = root.to_owned();
        out.append("/");
        out.append(input);
        out
    }
}

} // verus!
