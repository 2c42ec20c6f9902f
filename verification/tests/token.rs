use xtools::parse::Parser;
use xtools::parse::Token;
use xtools::script::clear::{clearing, Clear};
use xtools::token::{eq, exact, lt, not, Span, Spanned, Token as TokenTrait};

#[test]
fn spans_move_and_measure() {
    let s = Span(2, 5);
    let t = s.place_after(&Span(0, 10));
    assert_eq!((t.0, t.1), (12, 15));
    assert_eq!(s.len(), 3);
    let u = s.extend_by("abcd");
    assert_eq!((u.0, u.1), (2, 9));
    assert!(s.non_empty().is_some());
    assert!(Span(4, 4).non_empty().is_none());
    assert_eq!(s.fold(|a, b| a * b), 10);
    assert!(s.filter(|x: &Span| x.0 == 2).is_some());
    assert!(s.filter(|x: &Span| x.0 == 3).is_none());
    assert_eq!(s.scope("abcdefg"), "cde");
    assert_eq!(s.descope("abcdefg"), "fg");
    let p = ("ab", "cde");
    let ps = p.span();
    assert_eq!((ps.0, ps.1), (0, 5));
    let v = vec!["ab", "c"];
    let vs = v.span();
    assert_eq!((vs.0, vs.1), (0, 3));
}

#[test]
fn tokens_take_longest_runs() {
    let a = exact::<str, _>("ab");
    assert_eq!(TokenTrait::<str>::try_match(&a, "abx").1, 2);
    assert_eq!(TokenTrait::<str>::try_match(&a, "aab").1, 1);
    let e = Token(eq(&b'a'));
    assert_eq!(e.parse(b"aab".as_ref()), Some(b"aa".as_ref()));
    let n = Token(not(eq(&b'a')));
    assert_eq!(n.parse(b"bba".as_ref()), Some(b"bb".as_ref()));
    let later = Token(lt(&1usize));
    assert_eq!(later.parse(b"abc".as_ref()), None);
    let early = Token(not::<_, u8>(lt(&1usize)));
    assert_eq!(early.parse(b"abc".as_ref()), Some(b"ab".as_ref()));
}

#[test]
fn clearing_empties_containers() {
    assert_eq!(clearing(String::from("abc")), "");
    assert!(clearing(vec![1, 2, 3]).is_empty());
    let mut s = String::from("x");
    Clear::clear(&mut s);
    assert!(s.is_empty());
}
