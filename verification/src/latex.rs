use vstd::prelude::*;
use vstd::string::StrSliceExecFns;

use crate::State;
use crate::StateView;
use crate::rels::Rels;
use crate::tag::Link;
use crate::tag::LinkView;

verus! {

// ---------------------------------------------------------------------------
// File stems
//
// An embedded image is emitted by the stem of its target path: the part
// after the last slash, shorn of its extension. The path never leaves the
// library, so the stem is defined here, over characters: a name that is
// empty, `.` or `..` has no stem; a name whose only dot leads it keeps the
// dot; otherwise everything before the last dot is the stem.
// ---------------------------------------------------------------------------

/// The characters after the last occurrence of `c`, or all of `p` when `c`
/// does not occur.
pub open spec fn suffix_after_last(p: Seq<char>, c: char) -> Seq<char>
    decreases p.len(),
{
    if p.len() == 0 {
        Seq::empty()
    } else if p.last() == c {
        Seq::empty()
    } else {
        suffix_after_last(p.drop_last(), c).push(p.last())
    }
}

/// The characters before the last occurrence of `c`, or nothing when `c`
/// does not occur.
pub open spec fn prefix_before_last(p: Seq<char>, c: char) -> Option<Seq<char>>
    decreases p.len(),
{
    if p.len() == 0 {
        None
    } else if p.last() == c {
        Some(p.drop_last())
    } else {
        prefix_before_last(p.drop_last(), c)
    }
}

/// The stem of a file name known not to be empty, `.` or `..`: the name
/// itself when it holds no dot or only a leading dot, else everything
/// before the last dot.
pub open spec fn stem_of_name(name: Seq<char>) -> Seq<char> {
    match prefix_before_last(name, '.') {
        None => name,
        Some(pre) => if pre.len() == 0 {
            name
        } else {
            pre
        },
    }
}

/// The file stem of a path: the file name is the part after the last slash,
/// and a name that is empty, `.` or `..` has no stem.
pub open spec fn file_stem_spec(path: Seq<char>) -> Option<Seq<char>> {
    let name = suffix_after_last(path, '/');
    if name.len() == 0 || name == seq!['.'] || name == seq!['.', '.'] {
        None
    } else {
        Some(stem_of_name(name))
    }
}

/// When `c` occurs at `i` and nowhere later, the suffix after the last `c`
/// is everything past `i`.
proof fn lemma_suffix_found(p: Seq<char>, c: char, i: int)
    requires
        0 <= i < p.len(),
        p[i] == c,
        forall|j: int| i < j < p.len() ==> p[j] != c,
    ensures
        suffix_after_last(p, c) == p.subrange(i + 1, p.len() as int),
    decreases p.len(),
{
    if i == p.len() - 1 {
        assert(suffix_after_last(p, c) =~= p.subrange(i + 1, p.len() as int));
    } else {
        assert(p.last() != c);
        lemma_suffix_found(p.drop_last(), c, i);
        assert(p.drop_last().subrange(i + 1, p.len() - 1) =~= p.subrange(i + 1, p.len() - 1));
        assert(p.subrange(i + 1, p.len() - 1).push(p.last()) =~= p.subrange(
            i + 1,
            p.len() as int,
        ));
    }
}

/// When `c` does not occur at all, the suffix after the last `c` is the
/// whole of `p`.
proof fn lemma_suffix_absent(p: Seq<char>, c: char)
    requires
        forall|j: int| 0 <= j < p.len() ==> p[j] != c,
    ensures
        suffix_after_last(p, c) == p,
    decreases p.len(),
{
    if p.len() == 0 {
        assert(suffix_after_last(p, c) =~= p);
    } else {
        lemma_suffix_absent(p.drop_last(), c);
        assert(suffix_after_last(p, c) =~= p);
    }
}

/// When `c` occurs at `i` and nowhere later, the prefix before the last `c`
/// is everything up to `i`.
proof fn lemma_prefix_found(p: Seq<char>, c: char, i: int)
    requires
        0 <= i < p.len(),
        p[i] == c,
        forall|j: int| i < j < p.len() ==> p[j] != c,
    ensures
        prefix_before_last(p, c) == Some(p.take(i)),
    decreases p.len(),
{
    if i == p.len() - 1 {
        assert(p.drop_last() =~= p.take(i));
    } else {
        assert(p.last() != c);
        lemma_prefix_found(p.drop_last(), c, i);
        assert(p.drop_last().take(i) =~= p.take(i));
    }
}

/// When `c` does not occur at all, there is no prefix before it.
proof fn lemma_prefix_absent(p: Seq<char>, c: char)
    requires
        forall|j: int| 0 <= j < p.len() ==> p[j] != c,
    ensures
        prefix_before_last(p, c) is None,
    decreases p.len(),
{
    if p.len() > 0 {
        lemma_prefix_absent(p.drop_last(), c);
    }
}

/// Extracts the file stem of `path`, or nothing when the path ends in an
/// empty, `.` or `..` name.
pub fn file_stem(path: &str) -> (r: Option<String>)
    ensures
        match r {
            Some(s) => file_stem_spec(path@) == Some(s@),
            None => file_stem_spec(path@) is None,
        },
{
    let n = path.unicode_len();
    // The file name begins right after the last slash.
    let mut start: usize = n;
    while start > 0 && path.get_char(start - 1) != '/'
        invariant
            start <= n,
            n == path@.len(),
            forall|j: int| start <= j < n ==> path@[j] != '/',
        decreases start,
    {
        start = start - 1;
    }
    proof {
        if start == 0 {
            lemma_suffix_absent(path@, '/');
            assert(path@.subrange(0, n as int) =~= path@);
        } else {
            lemma_suffix_found(path@, '/', start - 1);
        }
        assert(suffix_after_last(path@, '/') == path@.subrange(start as int, n as int));
    }
    let ghost name = path@.subrange(start as int, n as int);
    if n - start == 0 {
        return None;
    }
    if n - start == 1 && path.get_char(start) == '.' {
        proof {
            assert(name =~= seq!['.']);
        }
        return None;
    }
    if n - start == 2 && path.get_char(start) == '.' && path.get_char(start + 1) == '.' {
        proof {
            assert(name =~= seq!['.', '.']);
        }
        return None;
    }
    proof {
        assert(name.len() >= 1);
        assert(name != seq!['.'] && name != seq!['.', '.']) by {
            if name == seq!['.'] {
                assert(name[0] == path@[start as int]);
                assert(false);
            }
            if name == seq!['.', '.'] {
                assert(name[0] == path@[start as int]);
                assert(name[1] == path@[start + 1]);
                assert(false);
            }
        }
    }
    // The extension begins right after the last dot of the name.
    let mut k: usize = n;
    while k > start && path.get_char(k - 1) != '.'
        invariant
            start <= k <= n,
            n == path@.len(),
            forall|j: int| k <= j < n ==> path@[j] != '.',
        decreases k,
    {
        k = k - 1;
    }
    if k == start {
        // No dot: the stem is the whole name.
        proof {
            lemma_prefix_absent(name, '.');
        }
        Some(path.substring_char(start, n).to_owned())
    } else {
        proof {
            lemma_prefix_found(name, '.', k - 1 - start);
            assert(name.take(k - 1 - start) =~= path@.subrange(start as int, k - 1));
        }
        if k - 1 == start {
            // Only a leading dot: the stem is the whole name.
            Some(path.substring_char(start, n).to_owned())
        } else {
            Some(path.substring_char(start, k - 1).to_owned())
        }
    }
}

// ---------------------------------------------------------------------------
// LaTeX emission for the two relationship-bearing patterns
// ---------------------------------------------------------------------------

/// The LaTeX text a matched hyperlink emits: an internal anchor becomes a
/// `\hyperlink`, a resolving relationship becomes an `\href`, and a
/// relationship the map does not know degrades to the bare content.
pub open spec fn hyperlink_emit(
    rels: Map<Seq<char>, Seq<char>>,
    link: LinkView,
    content: Seq<char>,
) -> Seq<char> {
    match link {
        LinkView::Anchor { name } => "\\hyperlink{"@ + name + "}{"@ + content + "}"@,
        LinkView::Relationship { rel } => if rels.contains_key(rel) {
            "\\href{"@ + rels[rel] + "}{"@ + content + "}"@
        } else {
            content
        },
    }
}

/// Whether a matched hyperlink leans on a relationship the map lacks.
pub open spec fn hyperlink_missing(rels: Map<Seq<char>, Seq<char>>, link: LinkView) -> bool {
    link matches LinkView::Relationship { rel } && !rels.contains_key(rel)
}

/// The LaTeX text a matched drawing emits: a resolving relationship becomes
/// an `\includegraphics` of the quoted stem of its target, and one the map
/// does not know emits nothing.
pub open spec fn drawing_emit(rels: Map<Seq<char>, Seq<char>>, rel: Seq<char>) -> Seq<char> {
    if rels.contains_key(rel) {
        "\\includegraphics[width=\\textwidth]{\""@ + file_stem_spec(rels[rel]).unwrap() + "\"}"@
    } else {
        Seq::empty()
    }
}

/// A drawing's target must have a stem to be emitted: a target the map
/// resolves but whose name has no stem violates this precondition.
pub open spec fn drawing_ok(rels: Map<Seq<char>, Seq<char>>, rel: Seq<char>) -> bool {
    rels.contains_key(rel) ==> file_stem_spec(rels[rel]) is Some
}

/// Writes the LaTeX text for a matched hyperlink pattern: `\hyperlink` for
/// an anchor, `\href` for a resolving relationship, the bare content for a
/// missing one — the text survives, the link is dropped.
pub fn hyperlink(out: &mut String, rels: &Rels, payload: (&Link, &String)) -> (s: State)
    ensures
        final(out)@ == old(out)@ + hyperlink_emit(rels@, payload.0@, payload.1@),
        s@ == (if hyperlink_missing(rels@, payload.0@) {
            StateView::RelationshipMissing
        } else {
            StateView::Happy
        }),
{
    let (link, content) = payload;
    match link {
        Link::Anchor(anchor) => {
            out.append("\\hyperlink{");
            out.append(anchor.as_str());
            out.append("}{");
            out.append(content.as_str());
            out.append("}");
            proof {
                assert(out@ =~= old(out)@ + hyperlink_emit(rels@, payload.0@, payload.1@));
            }
            State::Happy
        }
        Link::Relationship(rel_id) => {
            match rels.get(rel_id.as_str()) {
                Some(url) => {
                    out.append("\\href{");
                    out.append(url.as_str());
                    out.append("}{");
                    out.append(content.as_str());
                    out.append("}");
                    proof {
                        assert(out@ =~= old(out)@ + hyperlink_emit(
                            rels@,
                            payload.0@,
                            payload.1@,
                        ));
                    }
                    State::Happy
                }
                None => {
                    out.append(content.as_str());
                    State::RelationshipMissing
                }
            }
        }
    }
}

/// Writes the LaTeX text for a matched drawing pattern: an
/// `\includegraphics` of the stem of the resolved target, or nothing at all
/// when the relationship is missing from the map.
pub fn drawing(out: &mut String, rels: &Rels, rel: &String) -> (s: State)
    requires
        drawing_ok(rels@, rel@),
    ensures
        final(out)@ == old(out)@ + drawing_emit(rels@, rel@),
        s@ == (if rels@.contains_key(rel@) {
            StateView::Happy
        } else {
            StateView::RelationshipMissing
        }),
{
    match rels.get(rel.as_str()) {
        Some(path) => {
            match file_stem(path.as_str()) {
                Some(stem) => {
                    out.append("\\includegraphics[width=\\textwidth]{\"");
                    out.append(stem.as_str());
                    out.append("\"}");
                    proof {
                        assert(out@ =~= old(out)@ + drawing_emit(rels@, rel@));
                    }
                    State::Happy
                }
                None => unreached(),
            }
        }
        None => State::RelationshipMissing,
    }
}

} // verus!
