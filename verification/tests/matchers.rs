use docx2latex::ooxml::drawing;
use docx2latex::ooxml::hyperlink;
use docx2latex::ooxml::math_text;
use docx2latex::ooxml::word_text;
use docx2latex::peekaboo::Boo;
use docx2latex::tag::Link;
use docx2latex::tag::Tag;

#[test]
fn hyperlink_works() {
    let mut boo = Boo::default();
    assert!(hyperlink(&mut boo).is_none());

    boo.push(Tag::WHyperlink(Link::Anchor("Anchor".to_string())));
    assert!(hyperlink(&mut boo).is_none());

    boo.push(Tag::WRun);
    assert!(hyperlink(&mut boo).is_none());

    boo.push(Tag::Content("Content".to_string()));
    assert!(hyperlink(&mut boo).is_none());

    boo.pop();
    boo.push(Tag::WText);
    assert!(hyperlink(&mut boo).is_none());

    boo.push(Tag::Content("Content".to_string()));
    assert!(hyperlink(&mut boo).is_some());

    boo.reset();
    assert!(hyperlink(&mut boo).is_some());

    let (link, content) = hyperlink(&mut boo).unwrap();
    assert_eq!(link, Link::Anchor("Anchor".to_string()));
    assert_eq!(content, "Content");
}

#[test]
fn drawing_works() {
    let mut boo = Boo::default();
    assert!(drawing(&mut boo).is_none());

    boo.push(Tag::WDrawing);
    assert!(drawing(&mut boo).is_none());

    boo.push(Tag::WDrawing);
    assert!(drawing(&mut boo).is_none());

    boo.push(Tag::WPInline);
    assert!(drawing(&mut boo).is_none());

    boo.push(Tag::AGraphic);
    assert!(drawing(&mut boo).is_none());

    boo.push(Tag::AGraphicData);
    assert!(drawing(&mut boo).is_none());

    boo.push(Tag::PicPic);
    assert!(drawing(&mut boo).is_none());

    boo.push(Tag::PicBlipFill);
    assert!(drawing(&mut boo).is_none());

    boo.push(Tag::ABlip { rel: "RelId".to_string() });
    assert!(drawing(&mut boo).is_some());

    boo.reset();
    assert!(drawing(&mut boo).is_some());

    let rel = drawing(&mut boo).unwrap();
    assert_eq!(rel, "RelId");

    boo.pop();
    assert!(drawing(&mut boo).is_none());
    boo.pop();
    assert!(drawing(&mut boo).is_none());
    boo.pop();
    assert!(drawing(&mut boo).is_none());
    boo.pop();
    assert!(drawing(&mut boo).is_none());
    boo.pop();
    assert!(drawing(&mut boo).is_none());
    boo.pop();
    assert!(drawing(&mut boo).is_none());

    boo.push(Tag::WPAnchor);
    assert!(drawing(&mut boo).is_none());

    boo.push(Tag::AGraphic);
    assert!(drawing(&mut boo).is_none());

    boo.push(Tag::AGraphicData);
    assert!(drawing(&mut boo).is_none());

    boo.push(Tag::PicPic);
    assert!(drawing(&mut boo).is_none());

    boo.push(Tag::ABlip { rel: "RelId".to_string() });
    assert!(drawing(&mut boo).is_none());

    boo.pop();
    boo.push(Tag::PicBlipFill);
    assert!(drawing(&mut boo).is_none());

    boo.push(Tag::ABlip { rel: "RelId".to_string() });
    assert!(drawing(&mut boo).is_some());

    boo.reset();
    assert!(drawing(&mut boo).is_some());

    let rel = drawing(&mut boo).unwrap();
    assert_eq!(rel, "RelId");
}

#[test]
fn word_text_works() {
    let mut boo = Boo::default();
    assert!(word_text(&mut boo).is_none());

    boo.push(Tag::WRun);
    assert!(word_text(&mut boo).is_none());

    boo.push(Tag::Content("Content".to_string()));
    assert!(word_text(&mut boo).is_none());

    boo.pop();
    boo.push(Tag::WText);
    assert!(word_text(&mut boo).is_none());

    boo.push(Tag::Content("Content".to_string()));
    assert!(word_text(&mut boo).is_some());

    boo.reset();
    assert!(word_text(&mut boo).is_some());

    let content = word_text(&mut boo).unwrap();
    assert_eq!(content, "Content");
}

#[test]
fn math_text_works() {
    let mut boo = Boo::default();
    assert!(math_text(&mut boo).is_none());

    boo.push(Tag::MRun);
    assert!(math_text(&mut boo).is_none());

    boo.push(Tag::Content("Content".to_string()));
    assert!(math_text(&mut boo).is_none());

    boo.pop();
    boo.push(Tag::MText);
    assert!(math_text(&mut boo).is_none());

    boo.push(Tag::Content("Content".to_string()));
    assert!(math_text(&mut boo).is_some());

    boo.reset();
    assert!(math_text(&mut boo).is_some());

    let content = math_text(&mut boo).unwrap();
    assert_eq!(content, "Content");
}
