pub mod latex;
pub mod ooxml;
pub mod peekaboo;
pub mod rels;
pub mod tag;

use vstd::prelude::*;

use crate::latex::drawing_emit;
use crate::latex::drawing_ok;
use crate::latex::hyperlink_emit;
use crate::ooxml::drawing_match;
use crate::ooxml::hyperlink_match;
use crate::ooxml::math_text_match;
use crate::ooxml::word_text_match;
use crate::peekaboo::Boo;
use crate::rels::Rels;
use crate::tag::Attribute;
use crate::tag::AttrView;
use crate::tag::InputError;
use crate::tag::QName;
use crate::tag::QNameView;
use crate::tag::Tag;
use crate::tag::TagView;
use crate::tag::classify_spec;

verus! {

/// What processing one event yielded: a tag was opened and belongs on the
/// stack, a tag was closed and the stack tail must go, character data was
/// found, a classification or relationship failure was tolerated, nothing
/// notable happened, or the document ended.
#[derive(Debug, PartialEq)]
pub enum State {
    OpenedTag(Tag),
    ClosedTag,
    FoundContent(String),
    AttributesMissing,
    RelationshipMissing,
    Happy,
    End,
}

/// Mathematical image of a `State`.
pub ghost enum StateView {
    OpenedTag { tag: TagView },
    ClosedTag,
    FoundContent { text: Seq<char> },
    AttributesMissing,
    RelationshipMissing,
    Happy,
    End,
}

impl View for State {
    type V = StateView;

    open spec fn view(&self) -> StateView {
        match self {
            State::OpenedTag(tag) => StateView::OpenedTag { tag: tag@ },
            State::ClosedTag => StateView::ClosedTag,
            State::FoundContent(text) => StateView::FoundContent { text: text@ },
            State::AttributesMissing => StateView::AttributesMissing,
            State::RelationshipMissing => StateView::RelationshipMissing,
            State::Happy => StateView::Happy,
            State::End => StateView::End,
        }
    }
}

/// Turns a boolean into an `Option<()>`, so that failed checks can be
/// chained with the `?` operator.
pub fn blink(value: bool) -> (r: Option<()>)
    ensures
        r is Some <==> value,
{
    if value {
        Some(())
    } else {
        None
    }
}

// ---------------------------------------------------------------------------
// The character escaper
// ---------------------------------------------------------------------------

/// What one raw character becomes in LaTeX-safe text. A small set of
/// characters is rewritten; `<` and `>` stay as they are inside a math
/// region and are spelled out as words everywhere else; every other
/// character passes through unchanged.
pub open spec fn escape_char(c: char, math_mode: bool) -> Seq<char> {
    if c == '∞' {
        "\\infty "@
    } else if c == 'π' {
        "\\pi "@
    } else if c == '&' {
        "\\& "@
    } else if c == '<' {
        if math_mode {
            seq!['<']
        } else {
            "\\textless "@
        }
    } else if c == '>' {
        if math_mode {
            seq!['>']
        } else {
            "\\textgreater "@
        }
    } else if c == '%' {
        "\\% "@
    } else if c == '$' {
        "\\$ "@
    } else if c == '{' {
        "\\{ "@
    } else if c == '#' {
        "\\# "@
    } else if c == '}' {
        "\\} "@
    } else if c == '~' {
        "\\~{} "@
    } else if c == '_' {
        "\\_ "@
    } else if c == '±' {
        "\\pm "@
    } else if c == '∓' {
        "\\mp "@
    } else {
        seq![c]
    }
}

/// LaTeX-safe text: every character of `s` rewritten by `escape_char`, in
/// order, each independently of its neighbours.
pub open spec fn escape_spec(s: Seq<char>, math_mode: bool) -> Seq<char>
    decreases s.len(),
{
    if s.len() == 0 {
        Seq::empty()
    } else {
        escape_spec(s.drop_last(), math_mode) + escape_char(s.last(), math_mode)
    }
}

/// Whether escaping rewrites `c` at all under the given math-mode flag.
pub open spec fn is_escaped_char(c: char, math_mode: bool) -> bool {
    c == '∞' || c == 'π' || c == '&' || c == '%' || c == '$' || c == '{' || c == '#' || c == '}'
        || c == '~' || c == '_' || c == '±' || c == '∓' || (!math_mode && (c == '<' || c == '>'))
}

/// Escapes raw character data into LaTeX-safe text. A pure function of the
/// text and the math-mode flag; it never looks at the context stack.
pub fn escape(raw: &str, math_mode: &bool) -> (r: String)
    ensures
        r@ == escape_spec(raw@, *math_mode),
{
    let n = raw.unicode_len();
    let mut buf = String::new();
    let mut i: usize = 0;
    proof {
        assert(raw@.take(0) =~= Seq::<char>::empty());
    }
    while i < n
        invariant
            n == raw@.len(),
            i <= n,
            buf@ == escape_spec(raw@.take(i as int), *math_mode),
        decreases n - i,
    {
        let c = raw.get_char(i);
        if c == '∞' {
            buf.append("\\infty ");
        } else if c == 'π' {
            buf.append("\\pi ");
        } else if c == '&' {
            buf.append("\\& ");
        } else if c == '<' {
            if *math_mode {
                buf.append(raw.substring_char(i, i + 1));
            } else {
                buf.append("\\textless ");
            }
        } else if c == '>' {
            if *math_mode {
                buf.append(raw.substring_char(i, i + 1));
            } else {
                buf.append("\\textgreater ");
            }
        } else if c == '%' {
            buf.append("\\% ");
        } else if c == '$' {
            buf.append("\\$ ");
        } else if c == '{' {
            buf.append("\\{ ");
        } else if c == '#' {
            buf.append("\\# ");
        } else if c == '}' {
            buf.append("\\} ");
        } else if c == '~' {
            buf.append("\\~{} ");
        } else if c == '_' {
            buf.append("\\_ ");
        } else if c == '±' {
            buf.append("\\pm ");
        } else if c == '∓' {
            buf.append("\\mp ");
        } else {
            buf.append(raw.substring_char(i, i + 1));
        }
        proof {
            assert(raw@.subrange(i as int, i + 1 as int) =~= seq![c]);
            assert(raw@.take(i + 1 as int).drop_last() =~= raw@.take(i as int));
            assert(raw@.take(i + 1 as int).last() == c);
        }
        i = i + 1;
    }
    proof {
        assert(raw@.take(n as int) =~= raw@);
    }
    buf
}

// ---------------------------------------------------------------------------
// Tag-open handling
// ---------------------------------------------------------------------------

/// The LaTeX macro name of a math big-operator glyph; any glyph outside the
/// fixed table maps to the empty name, so that a bare backslash is emitted.
pub open spec fn chr_macro(value: Seq<char>) -> Seq<char> {
    if value == "⋀"@ {
        "bigwedge"@
    } else if value == "⋁"@ {
        "bigvee"@
    } else if value == "⋂"@ {
        "bigcap"@
    } else if value == "⋃"@ {
        "bigcup"@
    } else if value == "∐"@ {
        "coprod"@
    } else if value == "∏"@ {
        "prod"@
    } else if value == "∑"@ {
        "sum"@
    } else if value == "∮"@ {
        "oint"@
    } else {
        Seq::empty()
    }
}

/// The literal written the moment `tag` opens. Entering the math container
/// while math mode is already set is an error that emits nothing.
pub open spec fn start_emit(tag: TagView, math_mode: bool) -> Seq<char> {
    match tag {
        TagView::MoMathPara => if math_mode {
            Seq::empty()
        } else {
            "$$"@
        },
        TagView::MDelim => "("@,
        TagView::MRad => "\\sqrt"@,
        TagView::MDeg => "["@,
        TagView::MSub => "_{"@,
        TagView::MSup => "^{"@,
        TagView::MChr { value } => "\\"@ + chr_macro(value),
        TagView::MFraction => "\\frac"@,
        TagView::MNum => "{"@,
        TagView::MDen => "{"@,
        _ => Seq::empty(),
    }
}

/// The math-mode flag after `tag` opens: entering the math container sets
/// it; no other tag touches it.
pub open spec fn start_math_mode(tag: TagView, math_mode: bool) -> bool {
    if tag is MoMathPara {
        true
    } else {
        math_mode
    }
}

/// The n-ary tracker after `tag` opens: n-ary properties arm it unless it
/// is already armed (a nested occurrence is an error whose update is
/// suppressed); a character operator advances an armed tracker to
/// operator-seen, and seeing a second operator is an error that changes
/// nothing.
pub open spec fn start_nary(tag: TagView, nary: Option<bool>) -> Option<bool> {
    match tag {
        TagView::MNaryPr => if nary is None {
            Some(false)
        } else {
            nary
        },
        TagView::MChr { value } => if nary == Some(false) {
            Some(true)
        } else {
            nary
        },
        _ => nary,
    }
}

/// The n-ary tracker after a tag fails classification: a math character
/// operator whose required attribute is missing still advances an armed
/// tracker — the attribute is gone but the structural intent is honored.
pub open spec fn failed_nary(id: Seq<char>, nary: Option<bool>) -> Option<bool> {
    if id == "m:chr"@ && nary == Some(false) {
        Some(true)
    } else {
        nary
    }
}

/// Everything one opening tag does, as a function of the classified name,
/// the attribute list, and the two state flags: the text written, the two
/// flags after, and the state handed to the driver.
pub open spec fn start_spec(
    name: QNameView,
    attrs: Seq<AttrView>,
    math_mode: bool,
    nary: Option<bool>,
) -> (Seq<char>, bool, Option<bool>, StateView) {
    match classify_spec(name, attrs) {
        Ok(tag) => (
            start_emit(tag, math_mode),
            start_math_mode(tag, math_mode),
            start_nary(tag, nary),
            StateView::OpenedTag { tag },
        ),
        Err(e) => (Seq::empty(), math_mode, failed_nary(e->id, nary), StateView::AttributesMissing),
    }
}

/// Handles an opening tag: classifies it, writes its tag-open literal,
/// updates the math-mode flag and the n-ary tracker, and hands the
/// classified tag to the driver for pushing. A tag that fails
/// classification is not pushed and writes nothing, though a failed math
/// character operator still advances an armed n-ary tracker.
pub fn start_element(
    out: &mut String,
    name: &QName,
    attributes: &Vec<Attribute>,
    math_mode: &mut bool,
    nary_has_chr: &mut Option<bool>,
) -> (s: State)
    ensures
        ({
            let (emit, mm, nary, sv) = start_spec(
                name@,
                attributes.deep_view(),
                *old(math_mode),
                *old(nary_has_chr),
            );
            final(out)@ == old(out)@ + emit && *final(math_mode) == mm && *final(nary_has_chr)
                == nary && s@ == sv
        }),
{
    let tag = match Tag::classify(name, attributes) {
        Ok(tag) => tag,
        Err(InputError::MissingAttributes { id, missing: _ }) => {
            if id == "m:chr".to_owned() {
                match *nary_has_chr {
                    Some(false) => {
                        *nary_has_chr = Some(true);
                    }
                    _ => {}
                }
            }
            proof {
                assert(out@ =~= out@ + Seq::<char>::empty());
            }
            return State::AttributesMissing;
        }
    };
    match &tag {
        Tag::MoMathPara => {
            if *math_mode {
                // Entering math mode twice: an error, tolerated; nothing is
                // written and the flag keeps its value.
            } else {
                *math_mode = true;
                out.append("$$");
            }
        }
        Tag::MDelim => {
            out.append("(");
        }
        Tag::MRad => {
            out.append("\\sqrt");
        }
        Tag::MDeg => {
            out.append("[");
        }
        Tag::MSub => {
            out.append("_{");
        }
        Tag::MSup => {
            out.append("^{");
        }
        Tag::MNaryPr => {
            match *nary_has_chr {
                None => {
                    *nary_has_chr = Some(false);
                }
                _ => {
                    // A nested n-ary properties tag: an error, and the inner
                    // occurrence's update is suppressed.
                }
            }
        }
        Tag::MChr { value } => {
            match *nary_has_chr {
                Some(false) => {
                    *nary_has_chr = Some(true);
                }
                _ => {
                    // A second operator in one n-ary region is an error that
                    // changes nothing; outside any region there is nothing
                    // to track.
                }
            }
            let name_of_chr = if *value == "⋀".to_owned() {
                "bigwedge"
            } else if *value == "⋁".to_owned() {
                "bigvee"
            } else if *value == "⋂".to_owned() {
                "bigcap"
            } else if *value == "⋃".to_owned() {
                "bigcup"
            } else if *value == "∐".to_owned() {
                "coprod"
            } else if *value == "∏".to_owned() {
                "prod"
            } else if *value == "∑".to_owned() {
                "sum"
            } else if *value == "∮".to_owned() {
                "oint"
            } else {
                ""
            };
            out.append("\\");
            out.append(name_of_chr);
            proof {
                assert(name_of_chr@ == chr_macro(value@)) by {
                    reveal_strlit("");
                    assert(Seq::<char>::empty() =~= ""@);
                }
                assert(out@ =~= old(out)@ + ("\\"@ + chr_macro(value@)));
            }
        }
        Tag::MFraction => {
            out.append("\\frac");
        }
        Tag::MNum => {
            out.append("{");
        }
        Tag::MDen => {
            out.append("{");
        }
        _ => {
            // Structural tags without a tag-open literal, and unknown tags,
            // which are pushed for diagnostics but write nothing.
        }
    }
    proof {
        assert(out@ =~= old(out)@ + start_emit(tag@, *old(math_mode)));
    }
    State::OpenedTag(tag)
}

// ---------------------------------------------------------------------------
// Tag-close handling
// ---------------------------------------------------------------------------

/// The literal written from the single-tag fallback when `tag` closes.
/// The n-ary properties close emits the integral exactly when the tracker
/// is armed but saw no operator.
pub open spec fn close_emit(tag: TagView, nary: Option<bool>) -> Seq<char> {
    match tag {
        TagView::WParagraph => "\n\n"@,
        TagView::WBookmarkStart { anchor } => "\\hypertarget{"@ + anchor + "}{"@,
        TagView::MDelim => ")"@,
        TagView::MoMathPara => "$$\n"@,
        TagView::MDeg => "]{"@,
        TagView::MSub => "}"@,
        TagView::MSup => "}"@,
        TagView::MNum => "}"@,
        TagView::MDen => "}"@,
        TagView::MRad => "}"@,
        TagView::WBookmarkEnd => "}"@,
        TagView::MNaryPr => if nary == Some(false) {
            "\\int"@
        } else {
            Seq::empty()
        },
        _ => Seq::empty(),
    }
}

/// The math-mode flag after `tag` closes: leaving the math container
/// forces it off, even when it was never set — that mismatch is an error,
/// tolerated.
pub open spec fn close_math_mode(tag: TagView, math_mode: bool) -> bool {
    if tag is MoMathPara {
        false
    } else {
        math_mode
    }
}

/// The n-ary tracker after `tag` closes: the n-ary properties close always
/// disarms it.
pub open spec fn close_nary(tag: TagView, nary: Option<bool>) -> Option<bool> {
    if tag is MNaryPr {
        None
    } else {
        nary
    }
}

/// Everything one closing event does, as a function of the stack and the
/// state flags: the four structural matchers are tried in order — drawing,
/// hyperlink, word text, math text — and the first match emits and
/// suppresses the rest; with no match, the single-tag close table applies
/// to the stack tail.
pub open spec fn end_spec(
    stack: Seq<TagView>,
    rels: Map<Seq<char>, Seq<char>>,
    math_mode: bool,
    nary: Option<bool>,
) -> (Seq<char>, bool, Option<bool>) {
    match drawing_match(stack) {
        Some(rel) => (drawing_emit(rels, rel), math_mode, nary),
        None => match hyperlink_match(stack) {
            Some(p) => (hyperlink_emit(rels, p.0, p.1), math_mode, nary),
            None => match word_text_match(stack) {
                Some(content) => (content, math_mode, nary),
                None => match math_text_match(stack) {
                    Some(content) => (content, math_mode, nary),
                    None => if stack.len() > 0 {
                        (
                            close_emit(stack.last(), nary),
                            close_math_mode(stack.last(), math_mode),
                            close_nary(stack.last(), nary),
                        )
                    } else {
                        (Seq::empty(), math_mode, nary)
                    },
                },
            },
        },
    }
}

/// A closing event keeps its precondition when a matched drawing resolves
/// to a target whose name has a stem; every other outcome asks nothing.
pub open spec fn end_ok(stack: Seq<TagView>, rels: Map<Seq<char>, Seq<char>>) -> bool {
    drawing_match(stack) matches Some(rel) ==> drawing_ok(rels, rel)
}

/// Decides whether `end_element` may run on the present stack: the one
/// precondition is that a matched drawing that resolves must have a stem
/// in its target name.
pub fn end_ok_check(stack: &mut Boo<Tag>, rels: &Rels) -> (b: bool)
    ensures
        final(stack)@ == old(stack)@,
        b == end_ok(old(stack)@, rels@),
{
    match ooxml::drawing(stack) {
        Some(rel) => match rels.get(rel.as_str()) {
            Some(target) => latex::file_stem(target.as_str()).is_some(),
            None => true,
        },
        None => true,
    }
}

/// Handles a closing event: runs the four structural matchers in order
/// against the stack — which still holds the closing element on top — and
/// on a match emits by the pattern's rule; with no match, applies the
/// single-tag close rule for the stack tail. The stack contents are left
/// untouched: the driver pops afterward.
pub fn end_element(
    out: &mut String,
    stack: &mut Boo<Tag>,
    rels: &Rels,
    math_mode: &mut bool,
    nary_has_chr: &mut Option<bool>,
) -> (s: State)
    requires
        end_ok(old(stack)@, rels@),
    ensures
        final(stack)@ == old(stack)@,
        ({
            let (emit, mm, nary) = end_spec(
                old(stack)@,
                rels@,
                *old(math_mode),
                *old(nary_has_chr),
            );
            final(out)@ == old(out)@ + emit && *final(math_mode) == mm && *final(nary_has_chr)
                == nary
        }),
        s@ == StateView::ClosedTag,
{
    if let Some(rel) = ooxml::drawing(stack) {
        let _ = latex::drawing(out, rels, &rel);
    } else if let Some(p) = ooxml::hyperlink(stack) {
        let _ = latex::hyperlink(out, rels, (&p.0, &p.1));
    } else if let Some(content) = ooxml::word_text(stack) {
        out.append(content.as_str());
    } else if let Some(content) = ooxml::math_text(stack) {
        out.append(content.as_str());
    } else if let Some(tag) = stack.last() {
        match tag {
            Tag::WParagraph => {
                out.append("\n\n");
            }
            Tag::WBookmarkStart { anchor } => {
                out.append("\\hypertarget{");
                out.append(anchor.as_str());
                out.append("}{");
                proof {
                    assert(out@ =~= old(out)@ + ("\\hypertarget{"@ + anchor@ + "}{"@));
                }
            }
            Tag::MDelim => {
                out.append(")");
            }
            Tag::MoMathPara => {
                out.append("$$\n");
                // Leaving math mode without having entered it is an error,
                // tolerated; the flag is forced off either way.
                *math_mode = false;
            }
            Tag::MDeg => {
                out.append("]{");
            }
            Tag::MSub | Tag::MSup | Tag::MNum | Tag::MDen | Tag::MRad | Tag::WBookmarkEnd => {
                out.append("}");
            }
            Tag::MNaryPr => {
                match *nary_has_chr {
                    Some(false) => {
                        // An n-ary region without an explicit operator is
                        // treated as an integral.
                        out.append("\\int");
                    }
                    _ => {}
                }
                *nary_has_chr = None;
            }
            _ => {}
        }
    }
    proof {
        let (emit, mm, nary) = end_spec(old(stack)@, rels@, *old(math_mode), *old(nary_has_chr));
        assert(out@ =~= old(out)@ + emit);
    }
    State::ClosedTag
}

// ---------------------------------------------------------------------------
// Events and the conversion driver
// ---------------------------------------------------------------------------

/// One event from the XML event source, reduced to what conversion reads:
/// document boundaries, an opening tag with its name and attributes, a
/// closing tag, character data, whitespace-only character data, and a
/// catch-all for events that conversion ignores.
#[derive(Debug, PartialEq)]
pub enum Event {
    StartDocument,
    EndDocument,
    StartElement { name: QName, attributes: Vec<Attribute> },
    EndElement,
    Characters(String),
    Whitespace(String),
    Other,
}

/// Mathematical image of an `Event`.
pub ghost enum EventView {
    StartDocument,
    EndDocument,
    StartElement { name: QNameView, attributes: Seq<AttrView> },
    EndElement,
    Characters { text: Seq<char> },
    Whitespace { text: Seq<char> },
    Other,
}

impl View for Event {
    type V = EventView;

    open spec fn view(&self) -> EventView {
        match self {
            Event::StartDocument => EventView::StartDocument,
            Event::EndDocument => EventView::EndDocument,
            Event::StartElement { name, attributes } => EventView::StartElement {
                name: name@,
                attributes: attributes.deep_view(),
            },
            Event::EndElement => EventView::EndElement,
            Event::Characters(text) => EventView::Characters { text: text@ },
            Event::Whitespace(text) => EventView::Whitespace { text: text@ },
            Event::Other => EventView::Other,
        }
    }
}

impl DeepView for Event {
    type V = EventView;

    open spec fn deep_view(&self) -> EventView {
        self.view()
    }
}

/// Everything one event does, short of the stack motion that the driver
/// performs on the state it is handed back: the text written, the state
/// flags after, and the driver's instruction.
pub open spec fn event_spec(
    event: EventView,
    stack: Seq<TagView>,
    rels: Map<Seq<char>, Seq<char>>,
    math_mode: bool,
    nary: Option<bool>,
) -> (Seq<char>, bool, Option<bool>, StateView) {
    match event {
        EventView::StartElement { name, attributes } => start_spec(
            name,
            attributes,
            math_mode,
            nary,
        ),
        EventView::EndElement => {
            let (emit, mm, n) = end_spec(stack, rels, math_mode, nary);
            (emit, mm, n, StateView::ClosedTag)
        }
        EventView::Characters { text } => (
            Seq::empty(),
            math_mode,
            nary,
            StateView::FoundContent { text: escape_spec(text, math_mode) },
        ),
        EventView::Whitespace { text } => (
            Seq::empty(),
            math_mode,
            nary,
            StateView::FoundContent { text },
        ),
        EventView::StartDocument => (Seq::empty(), math_mode, nary, StateView::Happy),
        EventView::EndDocument => (Seq::empty(), math_mode, nary, StateView::End),
        EventView::Other => (Seq::empty(), math_mode, nary, StateView::Happy),
    }
}

/// An event keeps its precondition exactly when a closing event does.
pub open spec fn event_ok(
    event: EventView,
    stack: Seq<TagView>,
    rels: Map<Seq<char>, Seq<char>>,
) -> bool {
    event is EndElement ==> end_ok(stack, rels)
}

/// Routes one event: an opening tag through classification and emission, a
/// closing tag through the matchers and the close table, character data
/// through the escaper. The driver acts on the returned state: it pushes
/// an opened tag, pops after a close, and wraps found content.
pub fn xml_event(
    out: &mut String,
    stack: &mut Boo<Tag>,
    rels: &Rels,
    event: &Event,
    math_mode: &mut bool,
    nary_has_chr: &mut Option<bool>,
) -> (s: State)
    requires
        event_ok(event@, old(stack)@, rels@),
    ensures
        final(stack)@ == old(stack)@,
        ({
            let (emit, mm, nary, sv) = event_spec(
                event@,
                old(stack)@,
                rels@,
                *old(math_mode),
                *old(nary_has_chr),
            );
            final(out)@ == old(out)@ + emit && *final(math_mode) == mm && *final(nary_has_chr)
                == nary && s@ == sv
        }),
{
    let s = match event {
        Event::StartElement { name, attributes } => start_element(
            out,
            name,
            attributes,
            math_mode,
            nary_has_chr,
        ),
        Event::EndElement => end_element(out, stack, rels, math_mode, nary_has_chr),
        Event::Characters(content) => State::FoundContent(escape(content.as_str(), math_mode)),
        Event::StartDocument => State::Happy,
        Event::EndDocument => State::End,
        Event::Whitespace(content) => State::FoundContent(content.clone()),
        Event::Other => State::Happy,
    };
    proof {
        let (emit, mm, nary, sv) = event_spec(
            event@,
            old(stack)@,
            rels@,
            *old(math_mode),
            *old(nary_has_chr),
        );
        assert(out@ =~= old(out)@ + emit);
    }
    s
}

/// The whole conversion state between two events: the context stack, the
/// math-mode flag, the n-ary tracker, the text written so far, whether
/// every drawing emitted so far had a stem to print, and whether the end
/// of the document has been seen.
pub ghost struct ConvState {
    pub stack: Seq<TagView>,
    pub math_mode: bool,
    pub nary: Option<bool>,
    pub out: Seq<char>,
    pub ok: bool,
    pub done: bool,
}

/// The state a conversion starts from.
pub open spec fn init_state() -> ConvState {
    ConvState {
        stack: Seq::empty(),
        math_mode: false,
        nary: None,
        out: Seq::empty(),
        ok: true,
        done: false,
    }
}

/// Character data, already escaped, is wrapped in a content pseudo-tag,
/// pushed, matched and emitted exactly like a closing element, and popped
/// again: content never has children of its own.
pub open spec fn found_content_step(
    st: ConvState,
    text: Seq<char>,
    rels: Map<Seq<char>, Seq<char>>,
) -> ConvState {
    let pushed = st.stack.push(TagView::Content { text });
    if !end_ok(pushed, rels) {
        ConvState { ok: false, ..st }
    } else {
        let (emit, mm, nary) = end_spec(pushed, rels, st.math_mode, st.nary);
        ConvState { math_mode: mm, nary, out: st.out + emit, ..st }
    }
}

/// One step of the conversion: what one event, handed to `xml_event` and
/// acted on by the driver, does to the whole conversion state. After the
/// end of the document, and after a failed precondition, nothing moves.
pub open spec fn step(st: ConvState, event: EventView, rels: Map<Seq<char>, Seq<char>>) -> ConvState {
    if st.done || !st.ok {
        st
    } else {
        match event {
            EventView::StartElement { name, attributes } => {
                let (emit, mm, nary, sv) = start_spec(name, attributes, st.math_mode, st.nary);
                match sv {
                    StateView::OpenedTag { tag } => ConvState {
                        stack: st.stack.push(tag),
                        math_mode: mm,
                        nary,
                        out: st.out + emit,
                        ..st
                    },
                    _ => ConvState { math_mode: mm, nary, out: st.out + emit, ..st },
                }
            }
            EventView::EndElement => {
                if !end_ok(st.stack, rels) {
                    ConvState { ok: false, ..st }
                } else {
                    let (emit, mm, nary) = end_spec(st.stack, rels, st.math_mode, st.nary);
                    ConvState {
                        stack: if st.stack.len() > 0 {
                            st.stack.drop_last()
                        } else {
                            st.stack
                        },
                        math_mode: mm,
                        nary,
                        out: st.out + emit,
                        ..st
                    }
                }
            }
            EventView::Characters { text } => found_content_step(
                st,
                escape_spec(text, st.math_mode),
                rels,
            ),
            EventView::Whitespace { text } => found_content_step(st, text, rels),
            EventView::StartDocument => st,
            EventView::Other => st,
            EventView::EndDocument => ConvState { done: true, ..st },
        }
    }
}

/// The conversion state after processing `events` from `st` onward.
pub open spec fn run_from(
    events: Seq<EventView>,
    rels: Map<Seq<char>, Seq<char>>,
    st: ConvState,
) -> ConvState
    decreases events.len(),
{
    if events.len() == 0 {
        st
    } else {
        run_from(events.drop_first(), rels, step(st, events[0], rels))
    }
}

/// The conversion state after processing `events` from the start.
pub open spec fn run_spec(events: Seq<EventView>, rels: Map<Seq<char>, Seq<char>>) -> ConvState {
    run_from(events, rels, init_state())
}

/// After the end of the document, and after a failed precondition, the
/// remaining events change nothing.
proof fn lemma_run_frozen(events: Seq<EventView>, rels: Map<Seq<char>, Seq<char>>, st: ConvState)
    requires
        st.done || !st.ok,
    ensures
        run_from(events, rels, st) == st,
    decreases events.len(),
{
    if events.len() > 0 {
        lemma_run_frozen(events.drop_first(), rels, step(st, events[0], rels));
    }
}

/// The live conversion state the driver's loop carries.
pub open spec fn live_state(
    stack: Seq<TagView>,
    math_mode: bool,
    nary: Option<bool>,
    out: Seq<char>,
) -> ConvState {
    ConvState { stack, math_mode, nary, out, ok: true, done: false }
}

/// Converts a document's event stream, pulled in order from the event
/// source, into LaTeX text — or reports, by `None`, that a drawing resolved
/// to a target without a stem, the one condition conversion cannot emit.
/// Processing stops at the end-of-document event; events after it are not
/// read. Classification failures, unresolvable relationships and math-mode
/// inconsistencies are all tolerated and leave their mark on the output
/// alone.
pub fn try_document(events: &Vec<Event>, rels: &Rels) -> (r: Option<String>)
    ensures
        match r {
            Some(out) => run_spec(events.deep_view(), rels@).ok && out@ == run_spec(
                events.deep_view(),
                rels@,
            ).out,
            None => !run_spec(events.deep_view(), rels@).ok,
        },
{
    let ghost evs = events.deep_view();
    let mut stack: Boo<Tag> = Boo::default();
    let mut math_mode = false;
    let mut nary_has_chr: Option<bool> = None;
    let mut out = String::new();
    let mut i: usize = 0;
    proof {
        assert(evs.skip(0) =~= evs);
        assert(live_state(stack@, math_mode, nary_has_chr, out@) == init_state());
    }
    while i < events.len()
        invariant
            i <= events.len(),
            evs == events.deep_view(),
            evs.len() == events.len(),
            run_spec(evs, rels@) == run_from(
                evs.skip(i as int),
                rels@,
                live_state(stack@, math_mode, nary_has_chr, out@),
            ),
        decreases events.len() - i,
    {
        let ghost pre = live_state(stack@, math_mode, nary_has_chr, out@);
        proof {
            assert(evs.skip(i as int).drop_first() =~= evs.skip(i + 1 as int));
            assert(evs.skip(i as int)[0] == evs[i as int]);
        }
        let event = &events[i];
        match event {
            Event::EndElement => {
                if !end_ok_check(&mut stack, rels) {
                    proof {
                        assert(step(pre, evs[i as int], rels@) == (ConvState { ok: false, ..pre }));
                        lemma_run_frozen(
                            evs.skip(i + 1 as int),
                            rels@,
                            step(pre, evs[i as int], rels@),
                        );
                    }
                    return None;
                }
            }
            _ => {}
        }
        match xml_event(&mut out, &mut stack, rels, event, &mut math_mode, &mut nary_has_chr) {
            State::OpenedTag(tag) => {
                stack.push(tag);
            }
            State::ClosedTag => {
                let _ = stack.pop();
            }
            State::FoundContent(content) => {
                stack.push(Tag::Content(content));
                if !end_ok_check(&mut stack, rels) {
                    proof {
                        assert(step(pre, evs[i as int], rels@) == (ConvState { ok: false, ..pre }));
                        lemma_run_frozen(
                            evs.skip(i + 1 as int),
                            rels@,
                            step(pre, evs[i as int], rels@),
                        );
                    }
                    return None;
                }
                let _ = end_element(&mut out, &mut stack, rels, &mut math_mode, &mut nary_has_chr);
                let _ = stack.pop();
            }
            State::AttributesMissing | State::RelationshipMissing | State::Happy => {}
            State::End => {
                proof {
                    assert(step(pre, evs[i as int], rels@) == (ConvState { done: true, ..pre }));
                    lemma_run_frozen(
                        evs.skip(i + 1 as int),
                        rels@,
                        step(pre, evs[i as int], rels@),
                    );
                }
                return Some(out);
            }
        }
        proof {
            let post = step(pre, evs[i as int], rels@);
            assert(out@ =~= post.out);
            assert(stack@ =~= post.stack);
            assert(live_state(stack@, math_mode, nary_has_chr, out@) == post);
        }
        i = i + 1;
    }
    proof {
        assert(evs.skip(evs.len() as int) =~= Seq::<EventView>::empty());
    }
    Some(out)
}

/// Converts a document's event stream into LaTeX text. The caller owes the
/// one precondition of conversion — no drawing may resolve to a target
/// without a stem — which `try_document` decides at run time.
pub fn document(events: &Vec<Event>, rels: &Rels) -> (out: String)
    requires
        run_spec(events.deep_view(), rels@).ok,
    ensures
        out@ == run_spec(events.deep_view(), rels@).out,
{
    match try_document(events, rels) {
        Some(out) => out,
        None => unreached(),
    }
}

// ---------------------------------------------------------------------------
// The relationship-table reader
// ---------------------------------------------------------------------------

/// The relationship map that a stream of events builds: every element
/// whose local name is `Relationship` and which carries both an `Id` and a
/// `Target` attribute binds the one to the other, a later binding
/// replacing an earlier; everything else is passed over, and the
/// end-of-document event stops the reading.
pub open spec fn rels_from(
    events: Seq<EventView>,
    acc: Map<Seq<char>, Seq<char>>,
) -> Map<Seq<char>, Seq<char>>
    decreases events.len(),
{
    if events.len() == 0 {
        acc
    } else {
        match events[0] {
            EventView::StartElement { name, attributes } => if name.local == "Relationship"@ {
                match (
                    crate::tag::find_attr_spec(attributes, "Id"@),
                    crate::tag::find_attr_spec(attributes, "Target"@),
                ) {
                    (Some(id), Some(target)) => rels_from(
                        events.drop_first(),
                        acc.insert(id, target),
                    ),
                    _ => rels_from(events.drop_first(), acc),
                }
            } else {
                rels_from(events.drop_first(), acc)
            },
            EventView::EndDocument => acc,
            _ => rels_from(events.drop_first(), acc),
        }
    }
}

/// The relationship map read from a whole event stream.
pub open spec fn relationships_spec(events: Seq<EventView>) -> Map<Seq<char>, Seq<char>> {
    rels_from(events, Map::empty())
}

/// Reads the relationship table from the event stream of its own small XML
/// document: each `Relationship` element carrying both an `Id` and a
/// `Target` attribute becomes a binding; one missing either attribute is
/// passed over. Elements of any other name are ignored.
pub fn relationships(events: &Vec<Event>) -> (rels: Rels)
    ensures
        rels@ == relationships_spec(events.deep_view()),
{
    let ghost evs = events.deep_view();
    let mut rels = Rels::new();
    let mut i: usize = 0;
    proof {
        assert(evs.skip(0) =~= evs);
    }
    while i < events.len()
        invariant
            i <= events.len(),
            evs == events.deep_view(),
            evs.len() == events.len(),
            relationships_spec(evs) == rels_from(evs.skip(i as int), rels@),
        decreases events.len() - i,
    {
        proof {
            assert(evs.skip(i as int).drop_first() =~= evs.skip(i + 1 as int));
            assert(evs.skip(i as int)[0] == evs[i as int]);
        }
        match &events[i] {
            Event::StartElement { name, attributes } => {
                if name.local == "Relationship".to_owned() {
                    match (
                        crate::tag::find_attr(attributes, "Id"),
                        crate::tag::find_attr(attributes, "Target"),
                    ) {
                        (Some(id), Some(target)) => {
                            rels.insert(id.clone(), target.clone());
                        }
                        _ => {}
                    }
                }
            }
            Event::EndDocument => {
                return rels;
            }
            _ => {}
        }
        i = i + 1;
    }
    proof {
        assert(evs.skip(evs.len() as int) =~= Seq::<EventView>::empty());
    }
    rels
}

// ---------------------------------------------------------------------------
// Laws of math mode and the n-ary tracker
// ---------------------------------------------------------------------------

/// Entering the math container and then leaving it returns the flag to
/// off — and leaving it without a matching entry, an error that is logged
/// and tolerated, still forces the flag off.
pub proof fn lemma_math_mode_round_trip(math_mode: bool)
    ensures
        close_math_mode(TagView::MoMathPara, start_math_mode(TagView::MoMathPara, math_mode))
            == false,
        close_math_mode(TagView::MoMathPara, math_mode) == false,
{
}

/// The n-ary tracker over one region: armed on open and closed with no
/// operator seen, the close writes the integral; with one operator seen it
/// writes nothing; a second operator is an error that changes nothing, so
/// the close still writes nothing; and every close disarms the tracker.
pub proof fn lemma_nary_round_trip(value: Seq<char>)
    ensures
        close_emit(TagView::MNaryPr, start_nary(TagView::MNaryPr, None)) == "\\int"@,
        close_emit(
            TagView::MNaryPr,
            start_nary(TagView::MChr { value }, start_nary(TagView::MNaryPr, None)),
        ) == Seq::<char>::empty(),
        close_emit(
            TagView::MNaryPr,
            start_nary(
                TagView::MChr { value },
                start_nary(TagView::MChr { value }, start_nary(TagView::MNaryPr, None)),
            ),
        ) == Seq::<char>::empty(),
        close_nary(TagView::MNaryPr, start_nary(TagView::MNaryPr, None)) is None,
        close_nary(
            TagView::MNaryPr,
            start_nary(TagView::MChr { value }, start_nary(TagView::MNaryPr, None)),
        ) is None,
{
}

// ---------------------------------------------------------------------------
// Laws of the escaper
// ---------------------------------------------------------------------------

/// Every character becomes at least one character, and a character that
/// escaping rewrites becomes at least two.
proof fn lemma_escape_char_len(c: char, math_mode: bool)
    ensures
        escape_char(c, math_mode).len() >= 1,
        is_escaped_char(c, math_mode) ==> escape_char(c, math_mode).len() >= 2,
{
    reveal_strlit("\\infty ");
    reveal_strlit("\\pi ");
    reveal_strlit("\\& ");
    reveal_strlit("\\textless ");
    reveal_strlit("\\textgreater ");
    reveal_strlit("\\% ");
    reveal_strlit("\\$ ");
    reveal_strlit("\\{ ");
    reveal_strlit("\\# ");
    reveal_strlit("\\} ");
    reveal_strlit("\\~{} ");
    reveal_strlit("\\_ ");
    reveal_strlit("\\pm ");
    reveal_strlit("\\mp ");
}

/// Escaped text is never shorter than the raw text.
pub proof fn lemma_escape_len(s: Seq<char>, math_mode: bool)
    ensures
        escape_spec(s, math_mode).len() >= s.len(),
    decreases s.len(),
{
    if s.len() > 0 {
        lemma_escape_len(s.drop_last(), math_mode);
        lemma_escape_char_len(s.last(), math_mode);
    }
}

/// Text holding at least one character that escaping rewrites grows
/// strictly under escaping.
pub proof fn lemma_escape_strictly_grows(s: Seq<char>, math_mode: bool)
    requires
        exists|i: int| 0 <= i < s.len() && is_escaped_char(s[i], math_mode),
    ensures
        escape_spec(s, math_mode).len() > s.len(),
    decreases s.len(),
{
    let i = choose|i: int| 0 <= i < s.len() && is_escaped_char(s[i], math_mode);
    lemma_escape_char_len(s.last(), math_mode);
    if i == s.len() - 1 {
        lemma_escape_len(s.drop_last(), math_mode);
    } else {
        assert(s.drop_last()[i] == s[i]);
        lemma_escape_strictly_grows(s.drop_last(), math_mode);
    }
}

/// On text without a single character that escaping rewrites, escaping is
/// the identity — and therefore idempotent.
pub proof fn lemma_escape_plain_identity(s: Seq<char>, math_mode: bool)
    requires
        forall|i: int| 0 <= i < s.len() ==> !is_escaped_char(s[i], math_mode),
    ensures
        escape_spec(s, math_mode) == s,
        escape_spec(escape_spec(s, math_mode), math_mode) == escape_spec(s, math_mode),
    decreases s.len(),
{
    if s.len() == 0 {
        assert(escape_spec(s, math_mode) =~= s);
    } else {
        assert(forall|i: int|
            0 <= i < s.drop_last().len() ==> !is_escaped_char(s.drop_last()[i], math_mode));
        lemma_escape_plain_identity(s.drop_last(), math_mode);
        assert(!is_escaped_char(s.last(), math_mode));
        assert(escape_char(s.last(), math_mode) == seq![s.last()]);
        assert(escape_spec(s, math_mode) =~= s);
    }
}

/// The eight punctuation characters whose replacement text contains the
/// character itself, so that escaping never reaches a fixed point on them.
pub open spec fn is_reescaped_char(c: char) -> bool {
    c == '&' || c == '%' || c == '$' || c == '{' || c == '}' || c == '#' || c == '~' || c == '_'
}

/// Each of the eight reappearing characters stands at the second position
/// of its own replacement text.
proof fn lemma_escape_char_reappears(c: char, math_mode: bool)
    requires
        is_reescaped_char(c),
    ensures
        escape_char(c, math_mode)[1] == c,
{
    if c == '&' {
        reveal_strlit("\\& ");
    } else if c == '%' {
        reveal_strlit("\\% ");
    } else if c == '$' {
        reveal_strlit("\\$ ");
    } else if c == '{' {
        reveal_strlit("\\{ ");
    } else if c == '}' {
        reveal_strlit("\\} ");
    } else if c == '#' {
        reveal_strlit("\\# ");
    } else if c == '~' {
        reveal_strlit("\\~{} ");
    } else {
        reveal_strlit("\\_ ");
    }
}

/// Text holding one of the eight reappearing characters still holds one
/// after escaping.
proof fn lemma_escape_keeps_reescaped(s: Seq<char>, math_mode: bool)
    requires
        exists|i: int| 0 <= i < s.len() && is_reescaped_char(s[i]),
    ensures
        exists|j: int|
            0 <= j < escape_spec(s, math_mode).len() && is_reescaped_char(
                escape_spec(s, math_mode)[j],
            ),
    decreases s.len(),
{
    let i = choose|i: int| 0 <= i < s.len() && is_reescaped_char(s[i]);
    if i == s.len() - 1 {
        let c = s.last();
        lemma_escape_char_reappears(c, math_mode);
        lemma_escape_char_len(c, math_mode);
        let j = escape_spec(s.drop_last(), math_mode).len() + 1;
        assert(escape_spec(s, math_mode)[j as int] == c);
    } else {
        assert(s.drop_last()[i] == s[i]);
        lemma_escape_keeps_reescaped(s.drop_last(), math_mode);
        let j = choose|j: int|
            0 <= j < escape_spec(s.drop_last(), math_mode).len() && is_reescaped_char(
                escape_spec(s.drop_last(), math_mode)[j],
            );
        assert(escape_spec(s, math_mode)[j] == escape_spec(s.drop_last(), math_mode)[j]);
    }
}

/// Escaping is one-way: each of the eight rewritten punctuation characters
/// reappears inside its own replacement text, so escaping any text that
/// holds one of them a second time changes it again.
pub proof fn lemma_escape_not_idempotent(s: Seq<char>, math_mode: bool)
    requires
        exists|i: int| 0 <= i < s.len() && is_reescaped_char(s[i]),
    ensures
        escape_spec(escape_spec(s, math_mode), math_mode) != escape_spec(s, math_mode),
{
    lemma_escape_keeps_reescaped(s, math_mode);
    lemma_escape_strictly_grows(escape_spec(s, math_mode), math_mode);
}

} // verus!
