use rexml::arena::Document;
use rexml::errors::{DOMExceptionCode, Error};
use rexml::object::{DOMObject, NodeType};

fn children_of(doc: &Document, parent: Option<&DOMObject>) -> Vec<DOMObject> {
    let mut iter = doc.children(parent);
    let mut found = Vec::new();
    while let Some(child) = iter.next() {
        found.push(*child);
    }
    found
}

#[test]
fn test_gc() {
    let mut doc = Document::default();

    let element = doc.create_element("hello").unwrap();

    doc.append_child(None, element).unwrap();

    doc.gc();

    assert_eq!(doc.allocated(), 1);

    doc.create_element("hello").unwrap();

    assert_eq!(doc.allocated(), 2);

    doc.gc();

    assert_eq!(doc.allocated(), 1);
}

#[test]
fn doc_maximum_of_one() {
    let mut doc = Document::default();

    let element = doc.create_element("hello").unwrap();

    doc.append_child(None, element).unwrap();

    doc.append_child(None, element)
        .expect_err("twice append check");

    let doc_type = doc.create_document_type("hello", "hello", "hello").unwrap();

    doc.append_child(None, doc_type).unwrap();

    doc.append_child(None, doc_type)
        .expect_err("twice append check");
}

#[test]
fn doc_append() {
    let mut doc = Document::default();

    {
        let element = doc.create_element("hello").unwrap();
        doc.append_child(None, element).unwrap();
    }

    {
        let node = doc.create_pi("hello", "world").unwrap();
        doc.append_child(None, node).unwrap();
    }

    {
        let node = doc.create_comment("hello").unwrap();
        doc.append_child(None, node).unwrap();
    }
}

#[test]
fn el_append() {
    let mut doc = Document::default();

    let element = doc.create_element("hello").unwrap();

    // append element
    {
        let attr = doc.create_element("color").unwrap();

        doc.append_child(Some(&element), attr).unwrap();
    }

    // append attribute
    {
        let attr = doc.create_attr("color", "#ff00ff").unwrap();

        doc.append_child(Some(&element), attr).unwrap();
    }

    // append namespace.
    {
        let ns = doc
            .create_ns("xhtml", "http://www.w3.org/1999/xhtml")
            .unwrap();

        doc.append_child(Some(&element), ns).unwrap();
    }

    // append ProcessingInstruction.
    {
        let ns = doc
            .create_pi("xml-stylesheet", r#"type="text/xsl" href="style.xsl""#)
            .unwrap();

        doc.append_child(Some(&element), ns).unwrap();
    }

    // append comment.
    {
        let comment = doc.create_comment("xml-stylesheet").unwrap();

        doc.append_child(Some(&element), comment).unwrap();
    }

    // append text.
    {
        let text = doc.create_text("xml-stylesheet").unwrap();

        doc.append_child(Some(&element), text).unwrap();
    }

    doc.append_child(None, element).unwrap();
}

#[test]
fn attr_append() {
    let mut doc = Document::default();

    {
        let attr = doc.create_attr("color", "#ff00ff").unwrap();

        let text = doc.create_text("hello").unwrap();

        doc.append_child(Some(&attr), text).unwrap();
    }
}

#[test]
fn handles_are_places_within_a_kind() {
    let mut doc = Document::new();
    let e0 = doc.create_element("a").unwrap();
    let t0 = doc.create_text("x").unwrap();
    let e1 = doc.create_element("p:b").unwrap();
    let t1 = doc.create_text("y").unwrap();
    assert_eq!(e0, DOMObject::new(0, NodeType::Element));
    assert_eq!(e1, DOMObject::new(1, NodeType::Element));
    assert_eq!(t0, DOMObject::new(0, NodeType::Text));
    assert_eq!(t1, DOMObject::new(1, NodeType::Text));
    assert_eq!(doc.element(&e1).unwrap().tag().to_string(), "p:b");
    assert_eq!(doc.element(&e1).unwrap().tag().prefix, Some("p"));
    assert_eq!(doc.element(&e1).unwrap().object(), e1);
    assert_eq!(doc.text(&t1).unwrap().data(), "y");
    assert!(doc.element(&DOMObject::new(2, NodeType::Element)).is_none());
}

#[test]
fn create_refuses_a_bad_name_and_changes_nothing() {
    let mut doc = Document::new();
    assert_eq!(doc.create_element("-hello"), Err(Error::QName("-hello")));
    assert_eq!(doc.create_attr("9", "v"), Err(Error::QName("9")));
    assert_eq!(doc.create_element("a:b:c"), Err(Error::QName("a:b:c")));
    assert_eq!(doc.allocated(), 0);
    let e = doc.create_element("ok").unwrap();
    assert_eq!(e.id(), 0);
}

#[test]
fn payloads_are_kept() {
    let mut doc = Document::new();
    let a = doc.create_attr("x:color", "#ff00ff").unwrap();
    let n = doc.create_ns("xhtml", "http://www.w3.org/1999/xhtml").unwrap();
    let p = doc.create_pi("target", "data").unwrap();
    let c = doc.create_comment("a comment").unwrap();
    let cd = doc.create_cdata("<raw>").unwrap();
    let no = doc.create_notation("pub", "sys").unwrap();
    let en = doc.create_entity("pub", "sys", Some("gif")).unwrap();
    let en2 = doc.create_entity("pub2", "sys2", None).unwrap();
    let dt = doc.create_document_type("pub", "sys", "subset").unwrap();
    assert_eq!(doc.attr(&a).unwrap().name().to_string(), "x:color");
    assert_eq!(doc.attr(&a).unwrap().value(), "#ff00ff");
    assert_eq!(doc.ns(&n).unwrap().prefix(), "xhtml");
    assert_eq!(doc.ns(&n).unwrap().href(), "http://www.w3.org/1999/xhtml");
    assert_eq!(doc.pi(&p).unwrap().target(), "target");
    assert_eq!(doc.pi(&p).unwrap().data(), "data");
    assert_eq!(doc.comment(&c).unwrap().data(), "a comment");
    assert_eq!(doc.cdata(&cd).unwrap().data(), "<raw>");
    assert_eq!(doc.notation(&no).unwrap().public_id(), "pub");
    assert_eq!(doc.notation(&no).unwrap().system_id(), "sys");
    assert_eq!(doc.entity(&en).unwrap().notation_name(), Some("gif"));
    assert_eq!(doc.entity(&en2).unwrap().notation_name(), None);
    assert_eq!(doc.entity(&en2).unwrap().public_id(), "pub2");
    assert_eq!(doc.entity(&en2).unwrap().system_id(), "sys2");
    assert_eq!(doc.doc_type(&dt).unwrap().public_id(), "pub");
    assert_eq!(doc.doc_type(&dt).unwrap().system_id(), "sys");
    assert_eq!(doc.doc_type(&dt).unwrap().internal_subset(), "subset");
}

#[test]
fn append_keeps_the_order_of_children() {
    let mut doc = Document::new();
    let root = doc.create_element("root").unwrap();
    let a = doc.create_element("a").unwrap();
    let b = doc.create_text("b").unwrap();
    let c = doc.create_comment("c").unwrap();
    doc.append_child(Some(&root), a).unwrap();
    doc.append_child(Some(&root), b).unwrap();
    doc.append_child(Some(&root), c).unwrap();
    assert_eq!(children_of(&doc, Some(&root)), vec![a, b, c]);
    assert_eq!(children_of(&doc, None), vec![]);
    doc.append_child(None, root).unwrap();
    assert_eq!(children_of(&doc, None), vec![root]);
    // a handle that names nothing has no children
    assert_eq!(children_of(&doc, Some(&DOMObject::new(7, NodeType::Element))), vec![]);
}

#[test]
fn a_second_append_moves_and_does_not_copy() {
    let mut doc = Document::new();
    let p = doc.create_element("p").unwrap();
    let q = doc.create_element("q").unwrap();
    let a = doc.create_text("a").unwrap();
    let b = doc.create_text("b").unwrap();
    doc.append_child(Some(&p), a).unwrap();
    doc.append_child(Some(&p), b).unwrap();
    // again under the same parent: moved to the end, not copied
    doc.append_child(Some(&p), a).unwrap();
    assert_eq!(children_of(&doc, Some(&p)), vec![b, a]);
    // under another parent: taken from the first
    doc.append_child(Some(&q), b).unwrap();
    assert_eq!(children_of(&doc, Some(&p)), vec![a]);
    assert_eq!(children_of(&doc, Some(&q)), vec![b]);
}

#[test]
fn the_document_node_takes_no_node_that_hangs_somewhere() {
    let mut doc = Document::new();
    let c = doc.create_comment("c").unwrap();
    doc.append_child(None, c).unwrap();
    assert_eq!(
        doc.append_child(None, c),
        Err(Error::DOMException(DOMExceptionCode::HIERARCHY_REQUEST_ERR))
    );
    assert_eq!(children_of(&doc, None), vec![c]);
    let p = doc.create_element("p").unwrap();
    let e = doc.create_element("e").unwrap();
    doc.append_child(Some(&p), e).unwrap();
    assert_eq!(
        doc.append_child(None, e),
        Err(Error::DOMException(DOMExceptionCode::HIERARCHY_REQUEST_ERR))
    );
    assert_eq!(children_of(&doc, Some(&p)), vec![e]);
    // a node of the document node may move under an element
    doc.append_child(Some(&p), c).unwrap();
    assert_eq!(children_of(&doc, None), vec![]);
    assert_eq!(children_of(&doc, Some(&p)), vec![e, c]);
}

#[test]
fn one_element_and_one_document_type_at_the_top() {
    let mut doc = Document::new();
    let e1 = doc.create_element("one").unwrap();
    let e2 = doc.create_element("two").unwrap();
    let d1 = doc.create_document_type("a", "b", "c").unwrap();
    let d2 = doc.create_document_type("a", "b", "c").unwrap();
    let p1 = doc.create_pi("t", "d").unwrap();
    let p2 = doc.create_pi("t", "d").unwrap();
    assert_eq!(doc.append_child(None, e1), Ok(()));
    assert_eq!(
        doc.append_child(None, e2),
        Err(Error::DOMException(DOMExceptionCode::HIERARCHY_REQUEST_ERR))
    );
    assert_eq!(doc.append_child(None, d1), Ok(()));
    assert_eq!(
        doc.append_child(None, d2),
        Err(Error::DOMException(DOMExceptionCode::HIERARCHY_REQUEST_ERR))
    );
    assert_eq!(doc.append_child(None, p1), Ok(()));
    assert_eq!(doc.append_child(None, p2), Ok(()));
    assert_eq!(children_of(&doc, None), vec![e1, d1, p1, p2]);
}

#[test]
fn hierarchy_rules() {
    let mut doc = Document::new();
    let e = doc.create_element("e").unwrap();
    let a = doc.create_attr("a", "v").unwrap();
    let t = doc.create_text("t").unwrap();
    let n = doc.create_notation("p", "s").unwrap();
    let en = doc.create_entity("p", "s", None).unwrap();
    let cd = doc.create_cdata("x").unwrap();
    let dt = doc.create_document_type("p", "s", "i").unwrap();
    let hierarchy = Err(Error::DOMException(DOMExceptionCode::HIERARCHY_REQUEST_ERR));
    let not_found = Err(Error::DOMException(DOMExceptionCode::NOT_FOUND_ERR));
    // the document node takes no text, attribute, notation, entity or CDATA
    assert_eq!(doc.append_child(None, t), hierarchy);
    assert_eq!(doc.append_child(None, a), hierarchy);
    assert_eq!(doc.append_child(None, n), hierarchy);
    assert_eq!(doc.append_child(None, en), hierarchy);
    assert_eq!(doc.append_child(None, cd), hierarchy);
    // an element takes no notation and no entity
    assert_eq!(doc.append_child(Some(&e), n), hierarchy);
    assert_eq!(doc.append_child(Some(&e), en), hierarchy);
    assert_eq!(doc.append_child(Some(&e), cd), Ok(()));
    assert_eq!(doc.append_child(Some(&e), dt), Ok(()));
    // an attribute takes text only
    assert_eq!(doc.append_child(Some(&a), e), hierarchy);
    assert_eq!(doc.append_child(Some(&a), cd), hierarchy);
    assert_eq!(doc.append_child(Some(&a), t), Ok(()));
    // a leaf takes nothing
    assert_eq!(doc.append_child(Some(&t), e), hierarchy);
    assert_eq!(doc.append_child(Some(&en), t), hierarchy);
    assert_eq!(doc.append_child(Some(&DOMObject::default()), e), hierarchy);
    // handles that name nothing
    assert_eq!(doc.append_child(None, DOMObject::new(5, NodeType::Element)), not_found);
    assert_eq!(doc.append_child(Some(&DOMObject::new(5, NodeType::Element)), t), not_found);
    assert_eq!(doc.append_child(Some(&e), DOMObject::new(0, NodeType::EntityReference)), not_found);
    assert_eq!(doc.append_child(None, DOMObject::default()), not_found);
}

#[test]
fn gc_keeps_what_the_document_node_reaches() {
    let mut doc = Document::new();
    let lost = doc.create_element("lost").unwrap();
    let lost_text = doc.create_text("lost text").unwrap();
    doc.append_child(Some(&lost), lost_text).unwrap();
    let root = doc.create_element("root").unwrap();
    let kept_text = doc.create_text("kept text").unwrap();
    let attr = doc.create_attr("k", "v").unwrap();
    let attr_text = doc.create_text("attr text").unwrap();
    let dropped = doc.create_attr("d", "w").unwrap();
    let _ = dropped;
    doc.append_child(Some(&root), attr).unwrap();
    doc.append_child(Some(&root), kept_text).unwrap();
    doc.append_child(Some(&attr), attr_text).unwrap();
    doc.append_child(None, root).unwrap();
    assert_eq!(doc.allocated(), 4);

    doc.gc();

    // elements: `lost` left, `root` moved up to place 0
    assert_eq!(doc.allocated(), 2);
    let root = DOMObject::new(0, NodeType::Element);
    let attr = DOMObject::new(0, NodeType::Attribute);
    let kept_text = DOMObject::new(0, NodeType::Text);
    let attr_text = DOMObject::new(1, NodeType::Text);
    assert_eq!(children_of(&doc, None), vec![root]);
    assert_eq!(children_of(&doc, Some(&root)), vec![attr, kept_text]);
    assert_eq!(children_of(&doc, Some(&attr)), vec![attr_text]);
    assert_eq!(doc.element(&root).unwrap().tag().to_string(), "root");
    assert_eq!(doc.element(&root).unwrap().object(), root);
    assert_eq!(doc.attr(&attr).unwrap().name().to_string(), "k");
    assert_eq!(doc.text(&kept_text).unwrap().data(), "kept text");
    assert_eq!(doc.text(&attr_text).unwrap().data(), "attr text");
    assert!(doc.element(&DOMObject::new(1, NodeType::Element)).is_none());
    assert!(doc.text(&DOMObject::new(2, NodeType::Text)).is_none());

    // a second collection changes nothing
    doc.gc();
    assert_eq!(doc.allocated(), 2);
    assert_eq!(children_of(&doc, Some(&root)), vec![attr, kept_text]);

    // the tree can be built on after a collection
    let more = doc.create_element("more").unwrap();
    assert_eq!(more, DOMObject::new(1, NodeType::Element));
    doc.append_child(Some(&root), more).unwrap();
    doc.append_child(Some(&more), kept_text).unwrap();
    assert_eq!(children_of(&doc, Some(&root)), vec![attr, more]);
    doc.gc();
    assert_eq!(doc.allocated(), 3);
    assert_eq!(children_of(&doc, Some(&more)), vec![kept_text]);
}

#[test]
fn gc_frees_a_ring_that_hangs_nowhere() {
    let mut doc = Document::new();
    let a = doc.create_element("a").unwrap();
    let b = doc.create_element("b").unwrap();
    doc.append_child(Some(&a), b).unwrap();
    doc.append_child(Some(&b), a).unwrap();
    let c = doc.create_element("c").unwrap();
    doc.append_child(Some(&c), c).unwrap();
    assert_eq!(doc.allocated(), 3);
    doc.gc();
    assert_eq!(doc.allocated(), 0);
}

#[test]
fn gc_of_an_empty_document() {
    let mut doc = Document::new();
    doc.gc();
    assert_eq!(doc.allocated(), 0);
    assert_eq!(children_of(&doc, None), vec![]);
}
