use rexml::block::{nc_name, parse_pi};
use rexml::parse::{ErrorKind, ParseError};

#[test]
fn block_test_pi() {
    parse_pi(r#"<?xml version="1.0"?>"#).unwrap();
}

#[test]
fn str_test_pi() {
    let (_, (target, data)) = parse_pi(r#"<?xml version="1.0"?>"#).unwrap();

    assert_eq!(target, "xml");
    assert_eq!(data, Some(r#"version="1.0""#));

    let (_, (target, data)) = parse_pi(r#"<?xml-stylesheet ?>"#).unwrap();

    assert_eq!(target, "xml-stylesheet");
    assert_eq!(data, None);
}

#[test]
fn whole_text_pi_edges() {
    assert_eq!(parse_pi("<?a?>rest"), Ok(("rest", ("a", None))));
    assert_eq!(parse_pi("<?a \t b c?>"), Ok(("", ("a", Some("b c")))));
    assert_eq!(
        parse_pi("<?a b>c?>"),
        Err(ParseError::Error { input: ">c?>", kind: ErrorKind::Tag })
    );
    assert_eq!(parse_pi("<?a b"), Err(ParseError::Error { input: "", kind: ErrorKind::Tag }));
    assert_eq!(parse_pi("<?"), Err(ParseError::Error { input: "", kind: ErrorKind::Satisfy }));
    assert_eq!(parse_pi("<"), Err(ParseError::Error { input: "<", kind: ErrorKind::Tag }));
    assert_eq!(
        parse_pi("<?:a?>"),
        Err(ParseError::Error { input: ":a?>", kind: ErrorKind::Satisfy })
    );
    assert_eq!(parse_pi("<?a:b?>"), Ok(("", ("a", Some(":b")))));
}

#[test]
fn whole_text_nc_name() {
    assert_eq!(nc_name("hello"), Ok(("", "hello")));
    assert_eq!(nc_name("h:ello"), Ok((":ello", "h")));
    assert_eq!(nc_name("\u{e9}t\u{e9} x"), Ok((" x", "\u{e9}t\u{e9}")));
    assert_eq!(nc_name(""), Err(ParseError::Error { input: "", kind: ErrorKind::Satisfy }));
    assert_eq!(nc_name("-a"), Err(ParseError::Error { input: "-a", kind: ErrorKind::Satisfy }));
}
