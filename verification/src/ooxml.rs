use vstd::prelude::*;

use crate::peekaboo::Boo;
use crate::tag::Link;
use crate::tag::LinkView;
use crate::tag::Tag;
use crate::tag::TagView;

verus! {

// ---------------------------------------------------------------------------
// Structural pattern matchers
//
// Each matcher resets the stack's read cursor and peeks backward from the
// tail, requiring every frame of a fixed chain to carry the expected tag.
// The stack contents are never modified: only the read cursor moves.
// ---------------------------------------------------------------------------

/// An embedded drawing: an image reference nested, frame by frame, in
/// picture-fill, picture, graphic-data, graphic, an inline or anchor
/// wrapper, and the drawing container. Yields the relationship id.
pub open spec fn drawing_match(s: Seq<TagView>) -> Option<Seq<char>> {
    if s.len() >= 7 && (s[s.len() - 1] matches TagView::ABlip { rel }) && s[s.len()
        - 2] is PicBlipFill && s[s.len() - 3] is PicPic && s[s.len() - 4] is AGraphicData && s[
        s.len() - 5] is AGraphic && (s[s.len() - 6] is WPInline || s[s.len() - 6] is WPAnchor)
        && s[s.len() - 7] is WDrawing {
        Some(s[s.len() - 1]->ABlip_rel)
    } else {
        None
    }
}

/// Hyperlinked text: character data in a word text node in a word run in a
/// hyperlink tag. Yields the link and the character data.
pub open spec fn hyperlink_match(s: Seq<TagView>) -> Option<(LinkView, Seq<char>)> {
    if s.len() >= 4 && (s[s.len() - 1] matches TagView::Content { text }) && s[s.len()
        - 2] is WText && s[s.len() - 3] is WRun && (s[s.len() - 4] matches TagView::WHyperlink {
        link,
    }) {
        Some((s[s.len() - 4]->WHyperlink_link, s[s.len() - 1]->Content_text))
    } else {
        None
    }
}

/// Plain word text: character data in a word text node in a word run.
pub open spec fn word_text_match(s: Seq<TagView>) -> Option<Seq<char>> {
    if s.len() >= 3 && (s[s.len() - 1] matches TagView::Content { text }) && s[s.len()
        - 2] is WText && s[s.len() - 3] is WRun {
        Some(s[s.len() - 1]->Content_text)
    } else {
        None
    }
}

/// Plain math text: character data in a math text node in a math run.
pub open spec fn math_text_match(s: Seq<TagView>) -> Option<Seq<char>> {
    if s.len() >= 3 && (s[s.len() - 1] matches TagView::Content { text }) && s[s.len()
        - 2] is MText && s[s.len() - 3] is MRun {
        Some(s[s.len() - 1]->Content_text)
    } else {
        None
    }
}

/// A stack with fewer frames than a matcher reads cannot match: each of the
/// four shapes asks for its full chain, and a single absent or differing
/// frame yields no match at all.
pub proof fn lemma_matchers_need_depth(s: Seq<TagView>)
    ensures
        s.len() < 7 ==> drawing_match(s) is None,
        s.len() < 4 ==> hyperlink_match(s) is None,
        s.len() < 3 ==> word_text_match(s) is None,
        s.len() < 3 ==> math_text_match(s) is None,
{
}

/// Matches hyperlinked text against the tail of the stack: character data
/// in a word text node in a word run in a hyperlink tag.
pub fn hyperlink(boo: &mut Boo<Tag>) -> (r: Option<(Link, String)>)
    ensures
        final(boo)@ == old(boo)@,
        match r {
            Some(p) => hyperlink_match(old(boo)@) == Some((p.0@, p.1@)),
            None => hyperlink_match(old(boo)@) is None,
        },
{
    boo.reset();
    let content = match boo.peek() {
        Some(t) => match t.content() {
            Some(c) => c.clone(),
            None => {
                return None;
            }
        },
        None => {
            return None;
        }
    };
    match boo.peek() {
        Some(t) => match t {
            Tag::WText => {}
            _ => {
                return None;
            }
        },
        None => {
            return None;
        }
    }
    match boo.peek() {
        Some(t) => match t {
            Tag::WRun => {}
            _ => {
                return None;
            }
        },
        None => {
            return None;
        }
    }
    let link = match boo.peek() {
        Some(t) => match t.w_hyperlink() {
            Some(Link::Anchor(a)) => Link::Anchor(a.clone()),
            Some(Link::Relationship(rel)) => Link::Relationship(rel.clone()),
            None => {
                return None;
            }
        },
        None => {
            return None;
        }
    };
    Some((link, content))
}

/// Matches an embedded drawing against the tail of the stack and yields the
/// relationship id of the image reference at its tip.
pub fn drawing(boo: &mut Boo<Tag>) -> (r: Option<String>)
    ensures
        final(boo)@ == old(boo)@,
        match r {
            Some(rel) => drawing_match(old(boo)@) == Some(rel@),
            None => drawing_match(old(boo)@) is None,
        },
{
    boo.reset();
    let rel = match boo.peek() {
        Some(t) => match t.a_blip() {
            Some(rel) => rel.clone(),
            None => {
                return None;
            }
        },
        None => {
            return None;
        }
    };
    match boo.peek() {
        Some(t) => match t {
            Tag::PicBlipFill => {}
            _ => {
                return None;
            }
        },
        None => {
            return None;
        }
    }
    match boo.peek() {
        Some(t) => match t {
            Tag::PicPic => {}
            _ => {
                return None;
            }
        },
        None => {
            return None;
        }
    }
    match boo.peek() {
        Some(t) => match t {
            Tag::AGraphicData => {}
            _ => {
                return None;
            }
        },
        None => {
            return None;
        }
    }
    match boo.peek() {
        Some(t) => match t {
            Tag::AGraphic => {}
            _ => {
                return None;
            }
        },
        None => {
            return None;
        }
    }
    match boo.peek() {
        Some(t) => match t {
            Tag::WPInline => {}
            Tag::WPAnchor => {}
            _ => {
                return None;
            }
        },
        None => {
            return None;
        }
    }
    match boo.peek() {
        Some(t) => match t {
            Tag::WDrawing => {}
            _ => {
                return None;
            }
        },
        None => {
            return None;
        }
    }
    Some(rel)
}

/// Matches plain word text against the tail of the stack: character data in
/// a word text node in a word run.
pub fn word_text(boo: &mut Boo<Tag>) -> (r: Option<String>)
    ensures
        final(boo)@ == old(boo)@,
        match r {
            Some(content) => word_text_match(old(boo)@) == Some(content@),
            None => word_text_match(old(boo)@) is None,
        },
{
    boo.reset();
    let content = match boo.peek() {
        Some(t) => match t.content() {
            Some(c) => c.clone(),
            None => {
                return None;
            }
        },
        None => {
            return None;
        }
    };
    match boo.peek() {
        Some(t) => match t {
            Tag::WText => {}
            _ => {
                return None;
            }
        },
        None => {
            return None;
        }
    }
    match boo.peek() {
        Some(t) => match t {
            Tag::WRun => {}
            _ => {
                return None;
            }
        },
        None => {
            return None;
        }
    }
    Some(content)
}

/// Matches plain math text against the tail of the stack: character data in
/// a math text node in a math run.
pub fn math_text(boo: &mut Boo<Tag>) -> (r: Option<String>)
    ensures
        final(boo)@ == old(boo)@,
        match r {
            Some(content) => math_text_match(old(boo)@) == Some(content@),
            None => math_text_match(old(boo)@) is None,
        },
{
    boo.reset();
    let content = match boo.peek() {
        Some(t) => match t.content() {
            Some(c) => c.clone(),
            None => {
                return None;
            }
        },
        None => {
            return None;
        }
    };
    match boo.peek() {
        Some(t) => match t {
            Tag::MText => {}
            _ => {
                return None;
            }
        },
        None => {
            return None;
        }
    }
    match boo.peek() {
        Some(t) => match t {
            Tag::MRun => {}
            _ => {
                return None;
            }
        },
        None => {
            return None;
        }
    }
    Some(content)
}

} // verus!
