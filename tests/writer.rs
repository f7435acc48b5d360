use xml_writer::events::{BytesStart, Event};
use xml_writer::writer::Writer;

fn text(s: &str) -> Vec<u8> {
    s.as_bytes().to_vec()
}

fn paired() -> BytesStart {
    BytesStart::new("paired")
        .with_attribute("attr1", "value1")
        .with_attribute("attr2", "value2")
}

fn write_one(event: Event) -> String {
    let mut writer = Writer::new(Vec::new());
    writer.write_event(&event);
    String::from_utf8(writer.into_inner()).unwrap()
}

fn write_pretty(events: &[Event]) -> String {
    let mut writer = Writer::new_with_indent(Vec::new(), b' ', 4);
    for e in events {
        writer.write_event(e);
    }
    String::from_utf8(writer.into_inner()).unwrap()
}

#[test]
fn xml_header() {
    assert_eq!(
        write_one(Event::decl("1.0", Some("UTF-8"), Some("no"))),
        r#"<?xml version="1.0" encoding="UTF-8" standalone="no"?>"#
    );
}

#[test]
fn empty_tag() {
    assert_eq!(write_one(Event::Empty(BytesStart::new("tag").to_bytes())), r#"<tag/>"#);
}

#[test]
fn comment() {
    assert_eq!(
        write_one(Event::Comment(text("this is a comment"))),
        r#"<!--this is a comment-->"#
    );
}

#[test]
fn cdata() {
    assert_eq!(
        write_one(Event::CData(text("this is a cdata"))),
        r#"<![CDATA[this is a cdata]]>"#
    );
}

#[test]
fn pi() {
    assert_eq!(
        write_one(Event::PI(text("this is a processing instruction"))),
        r#"<?this is a processing instruction?>"#
    );
}

#[test]
fn doctype() {
    assert_eq!(
        write_one(Event::DocType(text("this is a doctype"))),
        r#"<!DOCTYPE this is a doctype>"#
    );
}

#[test]
fn full_tag() {
    let mut writer = Writer::new(Vec::new());
    let start = Event::Start(BytesStart::new("tag").to_bytes());
    let inner = Event::Text(text("inner text"));
    let end = Event::End(BytesStart::new("tag").to_end());
    for i in [start, inner, end] {
        writer.write_event(&i);
    }
    assert_eq!(
        std::str::from_utf8(writer.get_ref()).unwrap(),
        r#"<tag>inner text</tag>"#
    );
}

#[test]
fn self_closed() {
    let tag = BytesStart::new("self-closed")
        .with_attribute("attr1", "value1")
        .with_attribute("attr2", "value2");
    assert_eq!(
        write_pretty(&[Event::Empty(tag.to_bytes())]),
        r#"<self-closed attr1="value1" attr2="value2"/>"#
    );
}

#[test]
fn empty_paired() {
    let start = paired();
    let end = start.to_end();
    assert_eq!(
        write_pretty(&[Event::Start(start.to_bytes()), Event::End(end)]),
        r#"<paired attr1="value1" attr2="value2">
</paired>"#
    );
}

#[test]
fn paired_with_inner() {
    let start = paired();
    let end = start.to_end();
    let inner = BytesStart::new("inner");
    assert_eq!(
        write_pretty(&[
            Event::Start(start.to_bytes()),
            Event::Empty(inner.to_bytes()),
            Event::End(end),
        ]),
        r#"<paired attr1="value1" attr2="value2">
    <inner/>
</paired>"#
    );
}

#[test]
fn paired_with_text() {
    let start = paired();
    let end = start.to_end();
    assert_eq!(
        write_pretty(&[
            Event::Start(start.to_bytes()),
            Event::Text(text("text")),
            Event::End(end),
        ]),
        r#"<paired attr1="value1" attr2="value2">text</paired>"#
    );
}

#[test]
fn mixed_content() {
    let start = paired();
    let end = start.to_end();
    let inner = BytesStart::new("inner");
    assert_eq!(
        write_pretty(&[
            Event::Start(start.to_bytes()),
            Event::Text(text("text")),
            Event::Empty(inner.to_bytes()),
            Event::End(end),
        ]),
        r#"<paired attr1="value1" attr2="value2">text<inner/>
</paired>"#
    );
}

#[test]
fn nested() {
    let start = paired();
    let end = start.to_end();
    let inner = BytesStart::new("inner");
    assert_eq!(
        write_pretty(&[
            Event::Start(start.to_bytes()),
            Event::Start(start.to_bytes()),
            Event::Empty(inner.to_bytes()),
            Event::End(end.clone()),
            Event::End(end),
        ]),
        r#"<paired attr1="value1" attr2="value2">
    <paired attr1="value1" attr2="value2">
        <inner/>
    </paired>
</paired>"#
    );
}
