use rexml::errors::Error;
use rexml::qname::QName;

#[test]
fn primitives_test_qname() {
    let qname: QName = QName::parse("h:hello").unwrap();

    assert_eq!(qname.to_string(), "h:hello");

    QName::parse("-hello").expect_err("NameStartChar");

    let _: QName = QName::parse("_h:hello").unwrap();

    let qname: QName = QName::parse("hello").unwrap();

    assert_eq!(qname.to_string(), "hello");
}

#[test]
fn qname_test_qname() {
    let qname: QName = "h:hello".try_into().unwrap();

    assert_eq!(qname.to_string(), "h:hello");

    QName::try_from("-hello").expect_err("NameStartChar");

    let _: QName = "_h:hello".try_into().unwrap();

    let qname: QName = "hello".try_into().unwrap();

    assert_eq!(qname.to_string(), "hello");
}

#[test]
fn qname_rejection() {
    assert_eq!(QName::parse("-hello"), Err(Error::QName("-hello")));
    assert_eq!(QName::parse(".hello"), Err(Error::QName(".hello")));
    assert_eq!(QName::parse("9hello"), Err(Error::QName("9hello")));
    let qname = QName::parse("h11111:hello").unwrap();
    assert_eq!(qname.prefix, Some("h11111"));
    assert_eq!(qname.local_part, "hello");
}

#[test]
fn qname_wants_the_whole_text() {
    assert_eq!(QName::parse(""), Err(Error::QName("")));
    assert_eq!(QName::parse(":"), Err(Error::QName(":")));
    assert_eq!(QName::parse("a:"), Err(Error::QName("a:")));
    assert_eq!(QName::parse(":a"), Err(Error::QName(":a")));
    assert_eq!(QName::parse("a:b:c"), Err(Error::QName("a:b:c")));
    assert_eq!(QName::parse("a b"), Err(Error::QName("a b")));
    assert_eq!(QName::parse("a:b "), Err(Error::QName("a:b ")));
    assert_eq!(QName::parse("a:9b"), Err(Error::QName("a:9b")));
    assert_eq!(QName::parse("a::b"), Err(Error::QName("a::b")));
}

#[test]
fn qname_round_trip() {
    for text in ["a", "_", "a-b.c9", "p:l", "_p-1:_l.2", "\u{e9}t\u{e9}:na\u{ef}ve", "x\u{b7}y:z\u{300}"] {
        let qname = QName::parse(text).unwrap();
        assert_eq!(qname.to_string(), text);
    }
    let qname = QName::parse("\u{e9}t\u{e9}:na\u{ef}ve").unwrap();
    assert_eq!(qname.prefix, Some("\u{e9}t\u{e9}"));
    assert_eq!(qname.local_part, "na\u{ef}ve");
    let qname = QName::parse("local").unwrap();
    assert_eq!(qname.prefix, None);
    assert_eq!(qname.local_part, "local");
}
