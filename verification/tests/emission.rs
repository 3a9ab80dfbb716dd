use docx2latex::State;
use docx2latex::latex::drawing;
use docx2latex::latex::file_stem;
use docx2latex::latex::hyperlink;
use docx2latex::rels::Rels;
use docx2latex::tag::Link;

#[test]
fn hyperlink_with_anchor_works() {
    let mut out = String::new();
    let rels = Rels::new();
    let link = Link::Anchor("Anchor".to_string());
    let content = "Content".to_string();

    let state = hyperlink(&mut out, &rels, (&link, &content));
    assert_eq!(state, State::Happy);

    assert_eq!(out, "\\hyperlink{Anchor}{Content}");
}

#[test]
fn hyperlink_with_present_relationship_works() {
    let mut out = String::new();
    let mut rels = Rels::new();
    rels.insert("TestKey".to_string(), "TestValue".to_string());
    let link = Link::Relationship("TestKey".to_string());
    let content = "Content".to_string();

    let state = hyperlink(&mut out, &rels, (&link, &content));
    assert_eq!(state, State::Happy);

    assert_eq!(out, "\\href{TestValue}{Content}");
}

#[test]
fn hyperlink_recognizes_missing_relationship() {
    let mut out = String::new();
    let rels = Rels::new();
    let link = Link::Relationship("TestKey".to_string());
    let content = "Content".to_string();

    let state = hyperlink(&mut out, &rels, (&link, &content));
    assert_eq!(state, State::RelationshipMissing);

    assert_eq!(out, "Content");
}

#[test]
fn drawing_with_present_relationship_works() {
    let mut out = String::new();
    let mut rels = Rels::new();
    rels.insert("Key".to_string(), "value.test".to_string());

    let state = drawing(&mut out, &rels, &"Key".to_string());
    assert_eq!(state, State::Happy);

    assert_eq!(out, "\\includegraphics[width=\\textwidth]{\"value\"}");
}

#[test]
fn drawing_recognizes_missing_relationship() {
    let mut out = String::new();
    let rels = Rels::new();

    let state = drawing(&mut out, &rels, &"Key".to_string());
    assert_eq!(state, State::RelationshipMissing);

    assert_eq!(out, "");
}

#[test]
fn file_stem_strips_directory_and_extension() {
    assert_eq!(file_stem("media/image1.png"), Some("image1".to_string()));
    assert_eq!(file_stem("a/b/c/archive.tar.gz"), Some("archive.tar".to_string()));
    assert_eq!(file_stem("plain"), Some("plain".to_string()));
    assert_eq!(file_stem("trailing.dot."), Some("trailing.dot".to_string()));
}

#[test]
fn file_stem_keeps_a_lone_leading_dot() {
    assert_eq!(file_stem(".hidden"), Some(".hidden".to_string()));
    assert_eq!(file_stem("dir/.hidden"), Some(".hidden".to_string()));
    assert_eq!(file_stem(".hidden.txt"), Some(".hidden".to_string()));
}

#[test]
fn file_stem_rejects_nameless_paths() {
    assert_eq!(file_stem(""), None);
    assert_eq!(file_stem("dir/"), None);
    assert_eq!(file_stem("."), None);
    assert_eq!(file_stem(".."), None);
    assert_eq!(file_stem("a/.."), None);
}
