use drawio_collab_server::xml;

const PLAIN: &str = "<mxfile><diagram/></mxfile>";

#[test]
fn plain_document_is_taken() {
    assert_eq!(xml::extract_xml(PLAIN), Some(PLAIN.to_string()));
    assert!(xml::validate_xml_basic(PLAIN));
}

#[test]
fn fences_are_stripped() {
    for fence in ["```", "'''"] {
        let s = format!("\n {fence}xml\n{PLAIN}\n{fence} \n");
        assert_eq!(xml::extract_xml(&s), Some(PLAIN.to_string()));
    }
}

#[test]
fn words_around_are_dropped() {
    let doc = "<?xml version=\"1.0\"?>\n<mxfile><mxGraphModel/></mxfile>";
    let s = format!("Here it is:\n{doc}\nEnjoy!");
    assert_eq!(xml::extract_xml(&s), Some(doc.to_string()));
}

#[test]
fn what_is_no_diagram_is_refused() {
    for s in [
        "",
        "sorry",
        "<mxfile></mxfile>",
        "<mxfile><diagram/>",
        "</mxfile><mxfile>",
        "<mxfile><mxfile><diagram/></mxfile>",
        "<html><diagram/></html>",
    ] {
        assert_eq!(xml::extract_xml(s), None, "{s:?}");
    }
    assert!(!xml::validate_xml_basic("<diagram/>"));
    assert!(!xml::validate_xml_basic(" <mxfile><diagram/></mxfile>"));
    assert!(xml::validate_xml_basic("<mxfile><diagram/></mxfile>\n "));
}

#[test]
fn extracting_again_changes_nothing() {
    let s = format!("```\n{PLAIN}\n```");
    let once = xml::extract_xml(&s).unwrap();
    assert_eq!(xml::extract_xml(&once), Some(once.clone()));
}
