use docx2latex::peekaboo::Boo;

#[test]
fn default_is_empty() {
    let boo: Boo<usize> = Boo::default();
    assert_eq!(boo.len(), 0);
    assert_eq!(boo.peeked(), 0)
}

#[test]
fn deref_works() {
    let mut boo = Boo::default();
    assert!(boo.is_empty());
    boo.push(1);
    boo.push(2);
    boo.push(3);
    assert_eq!(boo.len(), 3);
}

#[test]
fn from_builds_equivalent() {
    let box_1 = Box::new(1);
    let box_2 = Box::new(2);
    let box_3 = Box::new(3);

    let vec = vec![box_1, box_2, box_3];
    let boo = Boo::from(vec.clone());

    for i in 0..2 {
        assert_eq!(&vec[i], boo.get(i).unwrap());
    }
}

#[test]
fn peek_persists() {
    let mut boo = Boo::from(vec![0, 1, 2, 3, 4]);

    assert_eq!(boo.peek(), Some(&4));
    assert_eq!(boo.peeked(), 1);

    assert_eq!(boo.peek(), Some(&3));
    assert_eq!(boo.peeked(), 2);

    assert_eq!(boo.peek(), Some(&2));
    assert_eq!(boo.peeked(), 3);
}

#[test]
fn peek_exhausts_boo() {
    let mut boo = Boo::from(vec![0, 1, 2]);

    assert_eq!(boo.peek(), Some(&2));
    assert_eq!(boo.peeked(), 1);

    assert_eq!(boo.peek(), Some(&1));
    assert_eq!(boo.peeked(), 2);

    assert_eq!(boo.peek(), Some(&0));
    assert_eq!(boo.peeked(), 3);

    assert_eq!(boo.peek(), None);
    assert_eq!(boo.peeked(), 4);

    assert_eq!(boo.peek(), None);
    assert_eq!(boo.peeked(), 5);

    assert_eq!(boo.peek(), None);
    assert_eq!(boo.peeked(), 6);
}

#[test]
fn reset_works() {
    let mut boo = Boo::from(vec![0]);

    assert_eq!(boo.peek(), Some(&0));
    assert_eq!(boo.peeked(), 1);

    boo.reset();

    assert_eq!(boo.peek(), Some(&0));
    assert_eq!(boo.peeked(), 1);
}

#[test]
fn reset_replays_the_same_sequence() {
    let mut boo = Boo::from(vec![10, 20, 30, 40]);

    let mut first_pass = Vec::new();
    for _ in 0..6 {
        first_pass.push(boo.peek().copied());
    }

    boo.reset();

    let mut second_pass = Vec::new();
    for _ in 0..6 {
        second_pass.push(boo.peek().copied());
    }

    assert_eq!(first_pass, second_pass);
    assert_eq!(first_pass, vec![Some(40), Some(30), Some(20), Some(10), None, None]);
}
