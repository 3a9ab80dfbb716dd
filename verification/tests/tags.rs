use docx2latex::tag::Attribute;
use docx2latex::tag::InputError;
use docx2latex::tag::Link;
use docx2latex::tag::QName;
use docx2latex::tag::Tag;
use docx2latex::tag::normalize;
use docx2latex::tag::owned_attr;
use docx2latex::tag::owned_name;

fn owned(raw: &'static str) -> QName {
    let parts: Vec<_> = raw.split(':').collect();
    QName {
        local: parts[1].to_string(),
        namespace: None,
        prefix: Some(parts[0].to_string()),
    }
}

#[test]
fn owned_name_works() {
    let name = owned_name("prefix", "local");
    assert!(name.prefix.is_some());
    assert_eq!(name.prefix.unwrap(), "prefix");
    assert_eq!(name.local, "local");
}

#[test]
fn owned_attr_works() {
    let attr = owned_attr("prefix", "local", "value");
    assert!(attr.name.prefix.is_some());
    assert_eq!(attr.name.prefix.unwrap(), "prefix");
    assert_eq!(attr.name.local, "local");
    assert_eq!(attr.value, "value");
}

#[test]
fn normalize_works_with_prefix() {
    let raw = QName {
        local: "local_name".to_string(),
        namespace: None,
        prefix: Some("prefix".to_string()),
    };
    assert_eq!(normalize(&raw), "prefix:local_name");
}

#[test]
fn normalize_works_without_prefix() {
    let raw = QName { local: "local_name".to_string(), namespace: None, prefix: None };
    assert_eq!(normalize(&raw), "local_name");
}

#[test]
fn normalize_ignores_namespace() {
    let no_namespace = QName { local: "local_name".to_string(), namespace: None, prefix: None };
    let yes_namespace = QName {
        local: "local_name".to_string(),
        namespace: Some("namespace".to_string()),
        prefix: None,
    };
    assert_eq!(normalize(&no_namespace), normalize(&yes_namespace));
}

#[test]
fn normalize_accepts_empty_prefix() {
    let raw = QName {
        local: "local_name".to_string(),
        namespace: None,
        prefix: Some("".to_string()),
    };
    assert_eq!(normalize(&raw), ":local_name");
}

#[test]
fn ablip_extracts_ablip() {
    let tag = Tag::ABlip { rel: "RelId".to_string() };
    let extracted = tag.a_blip();
    assert!(extracted.is_some());
    assert_eq!(extracted.unwrap(), "RelId");
}

#[test]
fn ablip_rejects_other() {
    let tag = Tag::Unknown { id: "Junk".to_string() };
    let extracted = tag.a_blip();
    assert!(extracted.is_none());
}

#[test]
fn mchr_extracts_mchr() {
    let tag = Tag::MChr { value: "X".to_string() };
    let extracted = tag.m_chr();
    assert!(extracted.is_some());
    assert_eq!(extracted.unwrap(), "X");
}

#[test]
fn mchr_rejects_other() {
    let tag = Tag::Unknown { id: "Junk".to_string() };
    let extracted = tag.m_chr();
    assert!(extracted.is_none());
}

#[test]
fn wbookmarkstart_extracts_wbookmarkstart() {
    let tag = Tag::WBookmarkStart { anchor: "Anchor".to_string() };
    let extracted = tag.w_bookmark_start();
    assert!(extracted.is_some());
    assert_eq!(extracted.unwrap(), "Anchor");
}

#[test]
fn wbookmarkstart_rejects_other() {
    let tag = Tag::Unknown { id: "Junk".to_string() };
    let extracted = tag.w_bookmark_start();
    assert!(extracted.is_none());
}

#[test]
fn whyperlink_extracts_whyperlink_anchor() {
    let anchor = Tag::WHyperlink(Link::Anchor("Anchor".to_string()));
    let extracted = anchor.w_hyperlink();
    assert!(extracted.is_some());
    assert!(matches!(extracted.unwrap(), Link::Anchor(_)));
    if let Some(Link::Anchor(anchor)) = extracted {
        assert_eq!(anchor, "Anchor");
    }
}

#[test]
fn whyperlink_extracts_whyperlink_relationship() {
    let rel = Tag::WHyperlink(Link::Relationship("RelId".to_string()));
    let extracted = rel.w_hyperlink();
    assert!(extracted.is_some());
    assert!(matches!(extracted.unwrap(), Link::Relationship(_)));
    if let Some(Link::Relationship(rel)) = extracted {
        assert_eq!(rel, "RelId");
    }
}

#[test]
fn whyperlink_rejects_other() {
    let tag = Tag::Unknown { id: "Junk".to_string() };
    let extracted = tag.w_hyperlink();
    assert!(extracted.is_none());
}

#[test]
fn content_extracts_content() {
    let tag = Tag::Content("Content".to_string());
    let extracted = tag.content();
    assert!(extracted.is_some());
    assert_eq!(extracted.unwrap(), "Content");
}

#[test]
fn content_rejects_other() {
    let tag = Tag::Unknown { id: "Junk".to_string() };
    let extracted = tag.content();
    assert!(extracted.is_none());
}

#[test]
fn converts_empty_tags() {
    let owned_names = vec![
        owned_name("a", "graphic"),
        owned_name("a", "graphicData"),
        owned_name("pic", "pic"),
        owned_name("pic", "blipFill"),
        owned_name("m", "oMathPara"),
        owned_name("m", "oMath"),
        owned_name("m", "d"),
        owned_name("m", "rad"),
        owned_name("m", "deg"),
        owned_name("m", "r"),
        owned_name("m", "t"),
        owned_name("m", "sub"),
        owned_name("m", "sup"),
        owned_name("m", "nary"),
        owned_name("m", "naryPr"),
        owned_name("m", "f"),
        owned_name("m", "func"),
        owned_name("m", "fName"),
        owned_name("m", "num"),
        owned_name("m", "den"),
        owned_name("wp", "inline"),
        owned_name("wp", "anchor"),
        owned_name("w", "bookmarkEnd"),
        owned_name("w", "drawing"),
        owned_name("w", "p"),
        owned_name("w", "r"),
        owned_name("w", "t"),
    ];
    let expected = vec![
        Tag::AGraphic,
        Tag::AGraphicData,
        Tag::PicPic,
        Tag::PicBlipFill,
        Tag::MoMathPara,
        Tag::MoMath,
        Tag::MDelim,
        Tag::MRad,
        Tag::MDeg,
        Tag::MRun,
        Tag::MText,
        Tag::MSub,
        Tag::MSup,
        Tag::MNary,
        Tag::MNaryPr,
        Tag::MFraction,
        Tag::MFunc,
        Tag::MFName,
        Tag::MNum,
        Tag::MDen,
        Tag::WPInline,
        Tag::WPAnchor,
        Tag::WBookmarkEnd,
        Tag::WDrawing,
        Tag::WParagraph,
        Tag::WRun,
        Tag::WText,
    ];
    assert_eq!(owned_names.len(), expected.len());
    for i in 0..owned_names.len() {
        let name = &owned_names[i];
        let actual = Tag::classify(name, &vec![]).expect("Input was constructed manually");
        assert_eq!(actual, expected[i]);
    }
}

#[test]
fn converts_ablip_with_attribute() {
    let name = owned("a:blip");
    let attribute = Attribute { name: owned("r:embed"), value: "RelId".to_string() };

    let actual = Tag::classify(&name, &vec![attribute]);
    assert!(actual.is_ok());
    let actual = actual.unwrap();

    assert!(matches!(actual, Tag::ABlip { rel: _ }));
    if let Tag::ABlip { rel } = actual {
        assert_eq!(rel, "RelId");
    }
}

#[test]
fn rejects_ablip_without_attribute() {
    let name = owned("a:blip");

    let actual = Tag::classify(&name, &vec![]);

    assert!(actual.is_err());
    let actual = actual.unwrap_err();
    let InputError::MissingAttributes { id, missing } = actual;

    assert_eq!(id, "a:blip");
    assert_eq!(missing, vec!["r:embed"]);
}

#[test]
fn converts_mchr_with_attribute() {
    let name = owned("m:chr");
    let attribute = Attribute { name: owned("m:val"), value: "X".to_string() };

    let actual = Tag::classify(&name, &vec![attribute]);
    assert!(actual.is_ok());
    let actual = actual.unwrap();

    assert!(matches!(actual, Tag::MChr { value: _ }));
    if let Tag::MChr { value } = actual {
        assert_eq!(value, "X");
    }
}

#[test]
fn rejects_mchr_with_no_attribute() {
    let name = owned("m:chr");

    let actual = Tag::classify(&name, &vec![]);
    assert!(actual.is_err());
    let actual = actual.unwrap_err();
    let InputError::MissingAttributes { id, missing } = actual;

    assert_eq!(id, "m:chr");
    assert_eq!(missing, vec!["m:val"]);
}

#[test]
fn converts_wbookmarkstart_with_attribute() {
    let name = owned("w:bookmarkStart");
    let attribute = Attribute { name: owned("w:anchor"), value: "Anchor".to_string() };

    let actual = Tag::classify(&name, &vec![attribute]);
    assert!(actual.is_ok());
    let actual = actual.unwrap();

    assert!(matches!(actual, Tag::WBookmarkStart { anchor: _ }));
    if let Tag::WBookmarkStart { anchor } = actual {
        assert_eq!(anchor, "Anchor");
    }
}

#[test]
fn accepts_wbookmarkstart_with_no_attribute() {
    let name = owned("w:bookmarkStart");

    let actual = Tag::classify(&name, &vec![]);
    assert!(actual.is_ok());
    let actual = actual.unwrap();

    assert!(matches!(actual, Tag::WBookmarkStart { anchor: _ }));
    if let Tag::WBookmarkStart { anchor } = actual {
        assert_eq!(anchor, "");
    }
}

#[test]
fn converts_whyperlink_with_relationship() {
    let name = owned("w:hyperlink");
    let attribute = Attribute { name: owned("r:id"), value: "RelId".to_string() };

    let actual = Tag::classify(&name, &vec![attribute]);
    assert!(actual.is_ok());
    let actual = actual.unwrap();

    assert!(matches!(actual, Tag::WHyperlink(Link::Relationship(_))));
    if let Tag::WHyperlink(Link::Relationship(rel)) = actual {
        assert_eq!(rel, "RelId");
    }
}

#[test]
fn converts_whyperlink_with_anchor() {
    let name = owned("w:hyperlink");
    let attribute = Attribute { name: owned("w:anchor"), value: "Anchor".to_string() };

    let actual = Tag::classify(&name, &vec![attribute]);
    assert!(actual.is_ok());
    let actual = actual.unwrap();

    assert!(matches!(actual, Tag::WHyperlink(Link::Anchor(_))));
    if let Tag::WHyperlink(Link::Anchor(anchor)) = actual {
        assert_eq!(anchor, "Anchor");
    }
}

#[test]
fn rejects_whyperlink_with_no_attributes() {
    let name = owned("w:hyperlink");

    let actual = Tag::classify(&name, &vec![]);
    assert!(actual.is_err());
    let actual = actual.unwrap_err();
    let InputError::MissingAttributes { id, missing } = actual;

    assert_eq!(id, "w:hyperlink");
    assert_eq!(missing, vec!["r:id", "w:anchor"]);
}

#[test]
fn accepts_unknown_tags() {
    let name = owned("alien:tag");
    let attribute = Attribute { name: owned("alien:attribute"), value: "Alien".to_string() };

    let actual = Tag::classify(&name, &vec![attribute]);
    assert!(actual.is_ok());
    let actual = actual.unwrap();

    assert!(matches!(actual, Tag::Unknown { id: _ }));
    if let Tag::Unknown { id } = actual {
        assert_eq!(id, "alien:tag");
    }
}

#[test]
fn to_owned_renders_names_and_attributes() {
    let (name, attrs) = Tag::MoMathPara.to_owned().unwrap();
    assert_eq!(name, owned_name("m", "oMathPara"));
    assert!(attrs.is_empty());

    let (name, attrs) = Tag::MChr { value: "X".to_string() }.to_owned().unwrap();
    assert_eq!(name, owned_name("m", "chr"));
    assert_eq!(attrs.len(), 1);
    assert_eq!(attrs[0], owned_attr("m", "val", "X"));

    let (name, attrs) = Tag::ABlip { rel: "RelId".to_string() }.to_owned().unwrap();
    assert_eq!(name, owned_name("a", "blip"));
    assert_eq!(attrs.len(), 1);
    assert_eq!(attrs[0], owned_attr("r", "id", "RelId"));

    let (name, attrs) = Tag::WHyperlink(Link::Anchor("Anchor".to_string())).to_owned().unwrap();
    assert_eq!(name, owned_name("w", "hyperlink"));
    assert_eq!(attrs.len(), 1);
    assert_eq!(attrs[0], owned_attr("w", "anchor", "Anchor"));
}

#[test]
fn to_owned_round_trips_through_classification() {
    let tags = vec![
        Tag::AGraphic,
        Tag::PicBlipFill,
        Tag::MoMathPara,
        Tag::MDelim,
        Tag::MNaryPr,
        Tag::WParagraph,
        Tag::WRun,
        Tag::WText,
        Tag::MChr { value: "∑".to_string() },
        Tag::WBookmarkStart { anchor: "Anchor".to_string() },
        Tag::WHyperlink(Link::Anchor("Anchor".to_string())),
        Tag::WHyperlink(Link::Relationship("RelId".to_string())),
    ];
    for tag in tags {
        let (name, attrs) = tag.to_owned().unwrap();
        let back = Tag::classify(&name, &attrs).unwrap();
        assert_eq!(back, tag);
    }
}
