use xtools::parse::either::either::{A, B};
use xtools::parse::{Any, Either, List, Parser, Token};
use xtools::token::{class, exact, Prop};

/// The first two positions.
struct FirstTwo;

impl Prop<char> for FirstTwo {
    fn prop_wf(&self) -> bool {
        true
    }

    fn holds(&self, i: usize, _t: char) -> bool {
        i < 2
    }

    fn check(&self, i: usize, _t: &char) -> bool {
        i < 2
    }
}

/// Any byte but `x`.
struct NotX;

impl Prop<u8> for NotX {
    fn prop_wf(&self) -> bool {
        true
    }

    fn holds(&self, _i: usize, t: u8) -> bool {
        t != b'x'
    }

    fn check(&self, _i: usize, t: &u8) -> bool {
        t != &b'x'
    }
}

#[test]
fn test_token() {
    let a = &Token(exact::<str, _>(&'a'));

    assert_eq!(a.parse(""), None);
    assert_eq!(a.parse("b"), None);
    assert_eq!(a.parse("ba"), None);
    assert_eq!(a.parse("a"), Some("a"));

    let b = &Token(class::<str, _>(FirstTwo));
    assert_eq!(b.parse(""), None);
    assert_eq!(b.parse("b"), Some("b"));
    assert_eq!(b.parse("ba"), Some("ba"));
    assert_eq!(b.parse("abc"), Some("ab"));

    let c = &Token(class::<[u8], _>(NotX));
    assert_eq!(c.parse("".as_bytes()), None);
    assert_eq!(c.parse("b".as_bytes()), Some(b"b".as_ref()));
    assert_eq!(c.parse("ba".as_bytes()), Some(b"ba".as_ref()));
    assert_eq!(c.parse("abc".as_bytes()), Some(b"abc".as_ref()));
    assert_eq!(c.parse("abcxd".as_bytes()), Some(b"abc".as_ref()));
}

#[test]
fn test_list() {
    let a = &Token(exact::<str, _>(&'a'));
    let b = &Token(exact::<str, _>(&'b'));
    let c = &Token(exact::<str, _>(&'c'));
    let __ = &(a, (b, (c,)));
    let either = &List(__);

    assert!(either.parse("").is_none());
    assert_eq!(either.parse("a"), None);
    assert_eq!(either.parse("ab"), None);
    assert_eq!(either.parse("abc"), Some(("a", ("b", ("c",)))));
    assert_eq!(either.parse("abcd"), Some(("a", ("b", ("c",)))));
}

#[test]
fn test_either() {
    let a = &Token(exact::<str, _>(&'a'));
    let b = &Token(exact::<str, _>(&'b'));
    let c = &Token(exact::<str, _>(&'c'));
    let __ = &(a, (b, (c,)));
    let either = &Either(__);

    assert!(either.parse("").is_none());
    assert_eq!(either.parse("a"), Some(A("a")));
    assert_eq!(either.parse("b"), Some(B(A("b"))));
    assert_eq!(either.parse("c"), Some(B(B("c"))));
}

#[test]
fn test_either_any_list() {
    let a = &Token(exact::<str, _>(&'a'));
    let b = &Token(exact::<str, _>(&'b'));
    let __ = &(a, (b,));
    let __ = &List(__);
    let __ = &Any(__);
    let x = __;

    let __ = &(b, (a,));
    let __ = &List(__);
    let __ = &Any(__);
    let y = __;

    let __ = &(x,);
    let either = &Either(__);

    assert!(either.parse("").is_none());
    assert!(either.parse("a").is_none());
    assert_eq!(either.parse("ab"), Some(vec![("a", ("b",))]));

    let __ = &(x, (y,));
    let either = &Either(__);

    assert!(either.parse("").is_none());
    assert!(either.parse("a").is_none());
    assert_eq!(either.parse("ab"), Some(A(vec![("a", ("b",))])));
    assert_eq!(either.parse("ba"), Some(B(vec![("b", ("a",))])));
    assert_eq!(either.parse("aba"), Some(A(vec![("a", ("b",))])));
    assert_eq!(either.parse("abba"), Some(A(vec![("a", ("b",))])));

    // Switch any and either
    let __ = &(a, (b,));
    let x = &List(__);
    let __ = &(b, (a,));
    let y = &List(__);

    let __ = &(x, (y,));
    let either = &Either(__);
    let any = &Any(either);

    assert!(any.parse("").is_none());
    assert!(any.parse("a").is_none());
    assert!(any.parse("b").is_none());
    assert_eq!(any.parse("ab"), Some(vec![A(("a", ("b",)))]));
    assert_eq!(any.parse("ba"), Some(vec![B(("b", ("a",)))]));
    assert_eq!(
        any.parse("abbaabbaba"),
        Some(vec![
            A(("a", ("b",))),
            B(("b", ("a",))),
            A(("a", ("b",))),
            B(("b", ("a",))),
            B(("b", ("a",))),
        ])
    );
}

#[test]
fn test_any_either() {
    let a = &Token(exact::<str, _>(&'a'));
    let any = &Any(a);

    assert!(any.parse("").is_none());
    assert_eq!(any.parse("a"), Some(vec!["a"]));
    assert_eq!(any.parse("aa"), Some(vec!["a", "a"]));
    assert_eq!(any.parse("aaabaa"), Some(vec!["a", "a", "a"]));
}

#[test]
fn token_cuts_before_a_non_ascii_tail() {
    let a = &Token(exact::<str, char>(&'a'));
    assert_eq!(a.parse("aé"), Some("a"));
    assert_eq!(a.parse("éa"), None);
    let ab = &Token(exact::<str, str>("ab"));
    assert_eq!(ab.parse("abé"), Some("ab"));
}
