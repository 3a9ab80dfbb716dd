use vstd::prelude::*;

verus! {

// ---------------------------------------------------------------------------
// Qualified names and attributes
//
// The event source hands every element a qualified name (an optional prefix
// plus a local name) and a list of attributes, each again carrying a
// qualified name and a string value.
// ---------------------------------------------------------------------------

/// A qualified XML name: an optional prefix, a local name, and the
/// namespace URI the prefix resolves to, if any.
#[derive(Debug, PartialEq)]
pub struct QName {
    pub prefix: Option<String>,
    pub local: String,
    pub namespace: Option<String>,
}

/// Mathematical image of a `QName`. The namespace is absent on purpose:
/// classification and normalization read the prefix and the local name
/// alone, and two names that differ only in namespace are the same to
/// every contract of this library.
pub ghost struct QNameView {
    pub prefix: Option<Seq<char>>,
    pub local: Seq<char>,
}

impl View for QName {
    type V = QNameView;

    open spec fn view(&self) -> QNameView {
        QNameView { prefix: self.prefix.deep_view(), local: self.local@ }
    }
}

impl DeepView for QName {
    type V = QNameView;

    open spec fn deep_view(&self) -> QNameView {
        self.view()
    }
}

/// An attribute: a qualified name and a value.
#[derive(Debug, PartialEq)]
pub struct Attribute {
    pub name: QName,
    pub value: String,
}

/// Mathematical image of an `Attribute`.
pub ghost struct AttrView {
    pub name: QNameView,
    pub value: Seq<char>,
}

impl View for Attribute {
    type V = AttrView;

    open spec fn view(&self) -> AttrView {
        AttrView { name: self.name@, value: self.value@ }
    }
}

impl DeepView for Attribute {
    type V = AttrView;

    open spec fn deep_view(&self) -> AttrView {
        self.view()
    }
}

/// Builds a qualified name from a prefix and a local part.
pub fn owned_name(prefix: &str, local: &str) -> (r: QName)
    ensures
        r@ == (QNameView { prefix: Some(prefix@), local: local@ }),
{
    QName { prefix: Some(prefix.to_owned()), local: local.to_owned(), namespace: None }
}

/// Builds an attribute from a prefix, a local part and a value.
pub fn owned_attr(prefix: &str, local: &str, value: &str) -> (r: Attribute)
    ensures
        r@ == (AttrView {
            name: QNameView { prefix: Some(prefix@), local: local@ },
            value: value@,
        }),
{
    Attribute { name: owned_name(prefix, local), value: value.to_owned() }
}

/// The `prefix:localName` form of a qualified name; a name without a prefix
/// is just its local part, while an empty prefix yields a leading colon.
/// Namespace resolution plays no role.
pub open spec fn normalize_spec(n: QNameView) -> Seq<char> {
    match n.prefix {
        Some(p) => p + seq![':'] + n.local,
        None => n.local,
    }
}

/// Renders a qualified name as `prefix:localName` (or just `localName`).
pub fn normalize(raw: &QName) -> (r: String)
    ensures
        r@ == normalize_spec(raw@),
{
    match &raw.prefix {
        Some(prefix) => {
            let mut id = prefix.clone();
            id.append(":");
            id.append(raw.local.as_str());
            proof {
                reveal_strlit(":");
                assert(id@ =~= normalize_spec(raw@));
            }
            id
        }
        None => raw.local.clone(),
    }
}

// ---------------------------------------------------------------------------
// Semantic tags
// ---------------------------------------------------------------------------

/// A hyperlink target: either an internal anchor or a relationship id that
/// the relationship map resolves to a URL.
#[derive(Debug, PartialEq)]
pub enum Link {
    Anchor(String),
    Relationship(String),
}

/// Mathematical image of a `Link`.
pub ghost enum LinkView {
    Anchor { name: Seq<char> },
    Relationship { rel: Seq<char> },
}

impl View for Link {
    type V = LinkView;

    open spec fn view(&self) -> LinkView {
        match self {
            Link::Anchor(name) => LinkView::Anchor { name: name@ },
            Link::Relationship(rel) => LinkView::Relationship { rel: rel@ },
        }
    }
}

impl DeepView for Link {
    type V = LinkView;

    open spec fn deep_view(&self) -> LinkView {
        self.view()
    }
}

/// The closed set of semantic tags that classification produces.
#[derive(Debug, PartialEq)]
pub enum Tag {
    AGraphic,
    AGraphicData,
    PicPic,
    PicBlipFill,
    MoMathPara,
    MoMath,
    MDelim,
    MRad,
    MDeg,
    MRun,
    MText,
    MSub,
    MSup,
    MNary,
    MNaryPr,
    MFraction,
    MFunc,
    MFName,
    MNum,
    MDen,
    WPInline,
    WPAnchor,
    WBookmarkEnd,
    WDrawing,
    WParagraph,
    WRun,
    WText,
    ABlip { rel: String },
    MChr { value: String },
    WBookmarkStart { anchor: String },
    WHyperlink(Link),
    Content(String),
    Unknown { id: String },
}

/// Mathematical image of a `Tag`.
pub ghost enum TagView {
    AGraphic,
    AGraphicData,
    PicPic,
    PicBlipFill,
    MoMathPara,
    MoMath,
    MDelim,
    MRad,
    MDeg,
    MRun,
    MText,
    MSub,
    MSup,
    MNary,
    MNaryPr,
    MFraction,
    MFunc,
    MFName,
    MNum,
    MDen,
    WPInline,
    WPAnchor,
    WBookmarkEnd,
    WDrawing,
    WParagraph,
    WRun,
    WText,
    ABlip { rel: Seq<char> },
    MChr { value: Seq<char> },
    WBookmarkStart { anchor: Seq<char> },
    WHyperlink { link: LinkView },
    Content { text: Seq<char> },
    Unknown { id: Seq<char> },
}

impl View for Tag {
    type V = TagView;

    open spec fn view(&self) -> TagView {
        match self {
            Tag::AGraphic => TagView::AGraphic,
            Tag::AGraphicData => TagView::AGraphicData,
            Tag::PicPic => TagView::PicPic,
            Tag::PicBlipFill => TagView::PicBlipFill,
            Tag::MoMathPara => TagView::MoMathPara,
            Tag::MoMath => TagView::MoMath,
            Tag::MDelim => TagView::MDelim,
            Tag::MRad => TagView::MRad,
            Tag::MDeg => TagView::MDeg,
            Tag::MRun => TagView::MRun,
            Tag::MText => TagView::MText,
            Tag::MSub => TagView::MSub,
            Tag::MSup => TagView::MSup,
            Tag::MNary => TagView::MNary,
            Tag::MNaryPr => TagView::MNaryPr,
            Tag::MFraction => TagView::MFraction,
            Tag::MFunc => TagView::MFunc,
            Tag::MFName => TagView::MFName,
            Tag::MNum => TagView::MNum,
            Tag::MDen => TagView::MDen,
            Tag::WPInline => TagView::WPInline,
            Tag::WPAnchor => TagView::WPAnchor,
            Tag::WBookmarkEnd => TagView::WBookmarkEnd,
            Tag::WDrawing => TagView::WDrawing,
            Tag::WParagraph => TagView::WParagraph,
            Tag::WRun => TagView::WRun,
            Tag::WText => TagView::WText,
            Tag::ABlip { rel } => TagView::ABlip { rel: rel@ },
            Tag::MChr { value } => TagView::MChr { value: value@ },
            Tag::WBookmarkStart { anchor } => TagView::WBookmarkStart { anchor: anchor@ },
            Tag::WHyperlink(link) => TagView::WHyperlink { link: link@ },
            Tag::Content(text) => TagView::Content { text: text@ },
            Tag::Unknown { id } => TagView::Unknown { id: id@ },
        }
    }
}

impl DeepView for Tag {
    type V = TagView;

    open spec fn deep_view(&self) -> TagView {
        self.view()
    }
}

impl Tag {
    /// The relationship id of an image reference, if this is one.
    pub fn a_blip(&self) -> (r: Option<&String>)
        ensures
            match r {
                Some(v) => self@ == (TagView::ABlip { rel: v@ }),
                None => !(self@ is ABlip),
            },
    {
        if let Tag::ABlip { rel } = self {
            Some(rel)
        } else {
            None
        }
    }

    /// The operator glyph of a math character operator, if this is one.
    pub fn m_chr(&self) -> (r: Option<&String>)
        ensures
            match r {
                Some(v) => self@ == (TagView::MChr { value: v@ }),
                None => !(self@ is MChr),
            },
    {
        if let Tag::MChr { value } = self {
            Some(value)
        } else {
            None
        }
    }

    /// The anchor of a bookmark start, if this is one.
    pub fn w_bookmark_start(&self) -> (r: Option<&String>)
        ensures
            match r {
                Some(v) => self@ == (TagView::WBookmarkStart { anchor: v@ }),
                None => !(self@ is WBookmarkStart),
            },
    {
        if let Tag::WBookmarkStart { anchor } = self {
            Some(anchor)
        } else {
            None
        }
    }

    /// The link of a hyperlink tag, if this is one.
    pub fn w_hyperlink(&self) -> (r: Option<&Link>)
        ensures
            match r {
                Some(v) => self@ == (TagView::WHyperlink { link: v@ }),
                None => !(self@ is WHyperlink),
            },
    {
        if let Tag::WHyperlink(value) = self {
            Some(value)
        } else {
            None
        }
    }

    /// The character data of a content pseudo-tag, if this is one.
    pub fn content(&self) -> (r: Option<&String>)
        ensures
            match r {
                Some(v) => self@ == (TagView::Content { text: v@ }),
                None => !(self@ is Content),
            },
    {
        if let Tag::Content(value) = self {
            Some(value)
        } else {
            None
        }
    }
}

// ---------------------------------------------------------------------------
// Rendering a tag back into a name and attributes
// ---------------------------------------------------------------------------

/// A qualified-name image with the given prefix and local part.
pub open spec fn qname_v(prefix: Seq<char>, local: Seq<char>) -> QNameView {
    QNameView { prefix: Some(prefix), local }
}

/// An attribute image with the given qualified name and value.
pub open spec fn attr_v(prefix: Seq<char>, local: Seq<char>, value: Seq<char>) -> AttrView {
    AttrView { name: qname_v(prefix, local), value }
}

/// The qualified name and attribute list that render a tag: the inverse
/// image of classification, with the content and unknown pseudo-tags
/// rendered under a private prefix of this library's own name.
pub open spec fn to_owned_spec(t: TagView) -> (QNameView, Seq<AttrView>) {
    match t {
        TagView::AGraphic => (qname_v("a"@, "graphic"@), Seq::empty()),
        TagView::AGraphicData => (qname_v("a"@, "graphicData"@), Seq::empty()),
        TagView::PicPic => (qname_v("pic"@, "pic"@), Seq::empty()),
        TagView::PicBlipFill => (qname_v("pic"@, "blipFill"@), Seq::empty()),
        TagView::MoMathPara => (qname_v("m"@, "oMathPara"@), Seq::empty()),
        TagView::MoMath => (qname_v("m"@, "oMath"@), Seq::empty()),
        TagView::MDelim => (qname_v("m"@, "d"@), Seq::empty()),
        TagView::MRad => (qname_v("m"@, "rad"@), Seq::empty()),
        TagView::MDeg => (qname_v("m"@, "deg"@), Seq::empty()),
        TagView::MRun => (qname_v("m"@, "r"@), Seq::empty()),
        TagView::MText => (qname_v("m"@, "t"@), Seq::empty()),
        TagView::MSub => (qname_v("m"@, "sub"@), Seq::empty()),
        TagView::MSup => (qname_v("m"@, "sup"@), Seq::empty()),
        TagView::MNary => (qname_v("m"@, "nary"@), Seq::empty()),
        TagView::MNaryPr => (qname_v("m"@, "naryPr"@), Seq::empty()),
        TagView::MFraction => (qname_v("m"@, "f"@), Seq::empty()),
        TagView::MFunc => (qname_v("m"@, "func"@), Seq::empty()),
        TagView::MFName => (qname_v("m"@, "fName"@), Seq::empty()),
        TagView::MNum => (qname_v("m"@, "num"@), Seq::empty()),
        TagView::MDen => (qname_v("m"@, "den"@), Seq::empty()),
        TagView::WPInline => (qname_v("wp"@, "inline"@), Seq::empty()),
        TagView::WPAnchor => (qname_v("wp"@, "anchor"@), Seq::empty()),
        TagView::WBookmarkEnd => (qname_v("w"@, "bookmarkEnd"@), Seq::empty()),
        TagView::WDrawing => (qname_v("w"@, "drawing"@), Seq::empty()),
        TagView::WParagraph => (qname_v("w"@, "p"@), Seq::empty()),
        TagView::WRun => (qname_v("w"@, "r"@), Seq::empty()),
        TagView::WText => (qname_v("w"@, "t"@), Seq::empty()),
        TagView::ABlip { rel } => (qname_v("a"@, "blip"@), seq![attr_v("r"@, "id"@, rel)]),
        TagView::MChr { value } => (qname_v("m"@, "chr"@), seq![attr_v("m"@, "val"@, value)]),
        TagView::WBookmarkStart { anchor } => (
            qname_v("w"@, "bookmarkStart"@),
            seq![attr_v("w"@, "anchor"@, anchor)],
        ),
        TagView::WHyperlink { link } => (
            qname_v("w"@, "hyperlink"@),
            seq![
                match link {
                    LinkView::Anchor { name } => attr_v("w"@, "anchor"@, name),
                    LinkView::Relationship { rel } => attr_v("r"@, "id"@, rel),
                }
            ],
        ),
        TagView::Content { text } => (
            qname_v("docx2latex"@, "content"@),
            seq![attr_v("docx2latex"@, "characters"@, text)],
        ),
        TagView::Unknown { id } => (
            qname_v("docx2latex"@, "unknown"@),
            seq![attr_v("docx2latex"@, "id"@, id)],
        ),
    }
}

/// The empty attribute list.
fn no_attrs() -> (v: Vec<Attribute>)
    ensures
        v.deep_view() == Seq::<AttrView>::empty(),
{
    let v: Vec<Attribute> = Vec::new();
    proof {
        assert(v.deep_view() =~= Seq::<AttrView>::empty());
    }
    v
}

/// The one-element attribute list.
fn one_attr(a: Attribute) -> (v: Vec<Attribute>)
    ensures
        v.deep_view() == seq![a@],
{
    let mut v: Vec<Attribute> = Vec::new();
    v.push(a);
    proof {
        assert(v.deep_view() =~= seq![a@]);
    }
    v
}

impl Tag {
    /// Renders the tag back into the qualified name and attribute list
    /// that classify to it.
    pub fn to_owned(&self) -> (r: Option<(QName, Vec<Attribute>)>)
        ensures
            r matches Some(p) && p.0@ == to_owned_spec(self@).0 && p.1.deep_view()
                == to_owned_spec(self@).1,
    {
        let ok = match self {
            Tag::AGraphic => (owned_name("a", "graphic"), no_attrs()),
            Tag::AGraphicData => (owned_name("a", "graphicData"), no_attrs()),
            Tag::PicPic => (owned_name("pic", "pic"), no_attrs()),
            Tag::PicBlipFill => (owned_name("pic", "blipFill"), no_attrs()),
            Tag::MoMathPara => (owned_name("m", "oMathPara"), no_attrs()),
            Tag::MoMath => (owned_name("m", "oMath"), no_attrs()),
            Tag::MDelim => (owned_name("m", "d"), no_attrs()),
            Tag::MRad => (owned_name("m", "rad"), no_attrs()),
            Tag::MDeg => (owned_name("m", "deg"), no_attrs()),
            Tag::MRun => (owned_name("m", "r"), no_attrs()),
            Tag::MText => (owned_name("m", "t"), no_attrs()),
            Tag::MSub => (owned_name("m", "sub"), no_attrs()),
            Tag::MSup => (owned_name("m", "sup"), no_attrs()),
            Tag::MNary => (owned_name("m", "nary"), no_attrs()),
            Tag::MNaryPr => (owned_name("m", "naryPr"), no_attrs()),
            Tag::MFraction => (owned_name("m", "f"), no_attrs()),
            Tag::MFunc => (owned_name("m", "func"), no_attrs()),
            Tag::MFName => (owned_name("m", "fName"), no_attrs()),
            Tag::MNum => (owned_name("m", "num"), no_attrs()),
            Tag::MDen => (owned_name("m", "den"), no_attrs()),
            Tag::WPInline => (owned_name("wp", "inline"), no_attrs()),
            Tag::WPAnchor => (owned_name("wp", "anchor"), no_attrs()),
            Tag::WBookmarkEnd => (owned_name("w", "bookmarkEnd"), no_attrs()),
            Tag::WDrawing => (owned_name("w", "drawing"), no_attrs()),
            Tag::WParagraph => (owned_name("w", "p"), no_attrs()),
            Tag::WRun => (owned_name("w", "r"), no_attrs()),
            Tag::WText => (owned_name("w", "t"), no_attrs()),
            Tag::ABlip { rel } => (
                owned_name("a", "blip"),
                one_attr(owned_attr("r", "id", rel.as_str())),
            ),
            Tag::MChr { value } => (
                owned_name("m", "chr"),
                one_attr(owned_attr("m", "val", value.as_str())),
            ),
            Tag::WBookmarkStart { anchor } => (
                owned_name("w", "bookmarkStart"),
                one_attr(owned_attr("w", "anchor", anchor.as_str())),
            ),
            Tag::WHyperlink(link) => (
                owned_name("w", "hyperlink"),
                one_attr(
                    match link {
                        Link::Anchor(anchor) => owned_attr("w", "anchor", anchor.as_str()),
                        Link::Relationship(rel) => owned_attr("r", "id", rel.as_str()),
                    },
                ),
            ),
            Tag::Content(content) => (
                owned_name("docx2latex", "content"),
                one_attr(owned_attr("docx2latex", "characters", content.as_str())),
            ),
            Tag::Unknown { id } => (
                owned_name("docx2latex", "unknown"),
                one_attr(owned_attr("docx2latex", "id", id.as_str())),
            ),
        };
        Some(ok)
    }
}

// ---------------------------------------------------------------------------
// Classification
// ---------------------------------------------------------------------------

/// A classification failure: the tag `id` requires the attributes named in
/// `missing`, and none of them was present.
#[derive(Debug, PartialEq)]
pub enum InputError {
    MissingAttributes { id: String, missing: Vec<&'static str> },
}

/// Mathematical image of an `InputError`.
pub ghost enum InputErrorView {
    MissingAttributes { id: Seq<char>, missing: Seq<Seq<char>> },
}

impl View for InputError {
    type V = InputErrorView;

    open spec fn view(&self) -> InputErrorView {
        match self {
            InputError::MissingAttributes { id, missing } => InputErrorView::MissingAttributes {
                id: id@,
                missing: missing.deep_view(),
            },
        }
    }
}

/// The value of the first attribute whose normalized name equals `key`.
pub open spec fn find_attr_spec(attrs: Seq<AttrView>, key: Seq<char>) -> Option<Seq<char>>
    decreases attrs.len(),
{
    if attrs.len() == 0 {
        None
    } else if normalize_spec(attrs[0].name) == key {
        Some(attrs[0].value)
    } else {
        find_attr_spec(attrs.drop_first(), key)
    }
}

/// Looks up the first attribute whose normalized name equals `key`.
pub(crate) fn find_attr<'a>(attrs: &'a Vec<Attribute>, key: &str) -> (r: Option<&'a String>)
    ensures
        match r {
            Some(v) => find_attr_spec(attrs.deep_view(), key@) == Some(v@),
            None => find_attr_spec(attrs.deep_view(), key@) is None,
        },
{
    let ghost dv = attrs.deep_view();
    let key_string = key.to_owned();
    let mut i: usize = 0;
    proof {
        assert(dv.skip(0) =~= dv);
    }
    while i < attrs.len()
        invariant
            0 <= i <= attrs.len(),
            dv == attrs.deep_view(),
            dv.len() == attrs.len(),
            key_string@ == key@,
            find_attr_spec(dv, key@) == find_attr_spec(dv.skip(i as int), key@),
        decreases attrs.len() - i,
    {
        let id = normalize(&attrs[i].name);
        if id == key_string {
            return Some(&attrs[i].value);
        }
        proof {
            assert(dv.skip(i as int).drop_first() =~= dv.skip(i + 1 as int));
        }
        i = i + 1;
    }
    proof {
        assert(dv.skip(attrs.len() as int) =~= Seq::<AttrView>::empty());
    }
    None
}

/// What classification returns for a given qualified name and attribute
/// list. The closed set of recognized names is fixed; a name outside it
/// yields the `Unknown` tag, never an error. Only three tags demand an
/// attribute: an image reference needs `r:embed`, a math character operator
/// needs `m:val`, and a hyperlink needs `r:id` or, failing that, `w:anchor`.
/// A bookmark start degrades to an empty anchor when `w:anchor` is absent.
pub open spec fn classify_spec(name: QNameView, attrs: Seq<AttrView>) -> Result<
    TagView,
    InputErrorView,
> {
    let id = normalize_spec(name);
    if id == "a:graphic"@ {
        Ok(TagView::AGraphic)
    } else if id == "a:graphicData"@ {
        Ok(TagView::AGraphicData)
    } else if id == "a:blip"@ {
        match find_attr_spec(attrs, "r:embed"@) {
            Some(v) => Ok(TagView::ABlip { rel: v }),
            None => Err(InputErrorView::MissingAttributes { id, missing: seq!["r:embed"@] }),
        }
    } else if id == "pic:pic"@ {
        Ok(TagView::PicPic)
    } else if id == "pic:blipFill"@ {
        Ok(TagView::PicBlipFill)
    } else if id == "m:oMathPara"@ {
        Ok(TagView::MoMathPara)
    } else if id == "m:oMath"@ {
        Ok(TagView::MoMath)
    } else if id == "m:d"@ {
        Ok(TagView::MDelim)
    } else if id == "m:rad"@ {
        Ok(TagView::MRad)
    } else if id == "m:deg"@ {
        Ok(TagView::MDeg)
    } else if id == "m:r"@ {
        Ok(TagView::MRun)
    } else if id == "m:t"@ {
        Ok(TagView::MText)
    } else if id == "m:sub"@ {
        Ok(TagView::MSub)
    } else if id == "m:sup"@ {
        Ok(TagView::MSup)
    } else if id == "m:nary"@ {
        Ok(TagView::MNary)
    } else if id == "m:naryPr"@ {
        Ok(TagView::MNaryPr)
    } else if id == "m:chr"@ {
        match find_attr_spec(attrs, "m:val"@) {
            Some(v) => Ok(TagView::MChr { value: v }),
            None => Err(InputErrorView::MissingAttributes { id, missing: seq!["m:val"@] }),
        }
    } else if id == "m:f"@ {
        Ok(TagView::MFraction)
    } else if id == "m:func"@ {
        Ok(TagView::MFunc)
    } else if id == "m:fName"@ {
        Ok(TagView::MFName)
    } else if id == "m:num"@ {
        Ok(TagView::MNum)
    } else if id == "m:den"@ {
        Ok(TagView::MDen)
    } else if id == "wp:inline"@ {
        Ok(TagView::WPInline)
    } else if id == "wp:anchor"@ {
        Ok(TagView::WPAnchor)
    } else if id == "w:p"@ {
        Ok(TagView::WParagraph)
    } else if id == "w:r"@ {
        Ok(TagView::WRun)
    } else if id == "w:t"@ {
        Ok(TagView::WText)
    } else if id == "w:hyperlink"@ {
        match find_attr_spec(attrs, "r:id"@) {
            Some(v) => Ok(TagView::WHyperlink { link: LinkView::Relationship { rel: v } }),
            None => match find_attr_spec(attrs, "w:anchor"@) {
                Some(v) => Ok(TagView::WHyperlink { link: LinkView::Anchor { name: v } }),
                None => Err(
                    InputErrorView::MissingAttributes {
                        id,
                        missing: seq!["r:id"@, "w:anchor"@],
                    },
                ),
            },
        }
    } else if id == "w:bookmarkStart"@ {
        match find_attr_spec(attrs, "w:anchor"@) {
            Some(v) => Ok(TagView::WBookmarkStart { anchor: v }),
            None => Ok(TagView::WBookmarkStart { anchor: Seq::empty() }),
        }
    } else if id == "w:bookmarkEnd"@ {
        Ok(TagView::WBookmarkEnd)
    } else if id == "w:drawing"@ {
        Ok(TagView::WDrawing)
    } else {
        Ok(TagView::Unknown { id })
    }
}

/// Builds the one-element list of attribute names for a `MissingAttributes`
/// report.
fn missing_one(a: &'static str) -> (v: Vec<&'static str>)
    ensures
        v.deep_view() == seq![a@],
{
    let mut v: Vec<&'static str> = Vec::new();
    v.push(a);
    proof {
        assert(v.deep_view() =~= seq![a@]);
    }
    v
}

/// Builds the two-element list of attribute names for a `MissingAttributes`
/// report.
fn missing_two(a: &'static str, b: &'static str) -> (v: Vec<&'static str>)
    ensures
        v.deep_view() == seq![a@, b@],
{
    let mut v: Vec<&'static str> = Vec::new();
    v.push(a);
    v.push(b);
    proof {
        assert(v.deep_view() =~= seq![a@, b@]);
    }
    v
}

impl Tag {
    /// Classifies a qualified element name with its attribute list into a
    /// semantic tag; a pure function of its two arguments.
    pub fn classify(name: &QName, attributes: &Vec<Attribute>) -> (r: Result<Tag, InputError>)
        ensures
            match r {
                Ok(tag) => classify_spec(name@, attributes.deep_view()) == Ok::<
                    TagView,
                    InputErrorView,
                >(tag@),
                Err(e) => classify_spec(name@, attributes.deep_view()) == Err::<
                    TagView,
                    InputErrorView,
                >(e@),
            },
    {
        let id = normalize(name);
        if id == "a:graphic".to_owned() {
            Ok(Tag::AGraphic)
        } else if id == "a:graphicData".to_owned() {
            Ok(Tag::AGraphicData)
        } else if id == "a:blip".to_owned() {
            match find_attr(attributes, "r:embed") {
                Some(v) => Ok(Tag::ABlip { rel: v.clone() }),
                None => Err(InputError::MissingAttributes { id, missing: missing_one("r:embed") }),
            }
        } else if id == "pic:pic".to_owned() {
            Ok(Tag::PicPic)
        } else if id == "pic:blipFill".to_owned() {
            Ok(Tag::PicBlipFill)
        } else if id == "m:oMathPara".to_owned() {
            Ok(Tag::MoMathPara)
        } else if id == "m:oMath".to_owned() {
            Ok(Tag::MoMath)
        } else if id == "m:d".to_owned() {
            Ok(Tag::MDelim)
        } else if id == "m:rad".to_owned() {
            Ok(Tag::MRad)
        } else if id == "m:deg".to_owned() {
            Ok(Tag::MDeg)
        } else if id == "m:r".to_owned() {
            Ok(Tag::MRun)
        } else if id == "m:t".to_owned() {
            Ok(Tag::MText)
        } else if id == "m:sub".to_owned() {
            Ok(Tag::MSub)
        } else if id == "m:sup".to_owned() {
            Ok(Tag::MSup)
        } else if id == "m:nary".to_owned() {
            Ok(Tag::MNary)
        } else if id == "m:naryPr".to_owned() {
            Ok(Tag::MNaryPr)
        } else if id == "m:chr".to_owned() {
            match find_attr(attributes, "m:val") {
                Some(v) => Ok(Tag::MChr { value: v.clone() }),
                None => Err(InputError::MissingAttributes { id, missing: missing_one("m:val") }),
            }
        } else if id == "m:f".to_owned() {
            Ok(Tag::MFraction)
        } else if id == "m:func".to_owned() {
            Ok(Tag::MFunc)
        } else if id == "m:fName".to_owned() {
            Ok(Tag::MFName)
        } else if id == "m:num".to_owned() {
            Ok(Tag::MNum)
        } else if id == "m:den".to_owned() {
            Ok(Tag::MDen)
        } else if id == "wp:inline".to_owned() {
            Ok(Tag::WPInline)
        } else if id == "wp:anchor".to_owned() {
            Ok(Tag::WPAnchor)
        } else if id == "w:p".to_owned() {
            Ok(Tag::WParagraph)
        } else if id == "w:r".to_owned() {
            Ok(Tag::WRun)
        } else if id == "w:t".to_owned() {
            Ok(Tag::WText)
        } else if id == "w:hyperlink".to_owned() {
            match find_attr(attributes, "r:id") {
                Some(v) => Ok(Tag::WHyperlink(Link::Relationship(v.clone()))),
                None => match find_attr(attributes, "w:anchor") {
                    Some(v) => Ok(Tag::WHyperlink(Link::Anchor(v.clone()))),
                    None => Err(
                        InputError::MissingAttributes { id, missing: missing_two("r:id", "w:anchor") },
                    ),
                },
            }
        } else if id == "w:bookmarkStart".to_owned() {
            match find_attr(attributes, "w:anchor") {
                Some(v) => Ok(Tag::WBookmarkStart { anchor: v.clone() }),
                None => Ok(Tag::WBookmarkStart { anchor: String::new() }),
            }
        } else if id == "w:bookmarkEnd".to_owned() {
            Ok(Tag::WBookmarkEnd)
        } else if id == "w:drawing".to_owned() {
            Ok(Tag::WDrawing)
        } else {
            Ok(Tag::Unknown { id })
        }
    }
}

} // verus!
