use xml_writer::events::{BytesStart, Event};
use xml_writer::indent::Indentation;
use xml_writer::writer::Writer;

fn bytes(s: &str) -> Vec<u8> {
    s.as_bytes().to_vec()
}

fn sample_events() -> Vec<Event> {
    vec![
        Event::decl("1.0", Some("UTF-8"), None),
        Event::DocType(bytes("html")),
        Event::Start(bytes("a x=\"1\"")),
        Event::Comment(bytes(" note ")),
        Event::Start(bytes("b")),
        Event::Text(bytes("t")),
        Event::Empty(bytes("c")),
        Event::CData(bytes("raw")),
        Event::End(bytes("b")),
        Event::PI(bytes("pi data")),
        Event::End(bytes("a")),
        Event::Eof,
    ]
}

fn in_memory(events: &[Event], indent: Option<(u8, usize)>) -> Vec<u8> {
    let mut writer = match indent {
        Some((fill, width)) => Writer::new_with_indent(Vec::new(), fill, width),
        None => Writer::new(Vec::new()),
    };
    for e in events {
        writer.write_event(e);
    }
    writer.into_inner()
}

#[test]
fn depth_returns_to_zero_after_balanced_stream() {
    let mut writer = Writer::new_with_indent(Vec::new(), b' ', 2);
    assert_eq!(writer.depth(), Some(0));
    writer.write_event(&Event::Start(bytes("a")));
    writer.write_event(&Event::Start(bytes("b")));
    assert_eq!(writer.depth(), Some(2));
    writer.write_event(&Event::Text(bytes("x")));
    writer.write_event(&Event::End(bytes("b")));
    assert_eq!(writer.depth(), Some(1));
    writer.write_event(&Event::End(bytes("a")));
    assert_eq!(writer.depth(), Some(0));
    let tracker = Indentation::new(b' ', 4);
    assert!(tracker.current().is_empty());
}

#[test]
fn compact_writer_has_no_depth() {
    let writer = Writer::new(Vec::<u8>::new());
    assert_eq!(writer.depth(), None);
}

#[test]
fn closing_at_depth_zero_stays_at_zero() {
    let mut writer = Writer::new_with_indent(Vec::new(), b' ', 2);
    writer.write_event(&Event::End(bytes("a")));
    assert_eq!(writer.depth(), Some(0));
    assert_eq!(writer.into_inner(), b"</a>".to_vec());
}

#[test]
fn compact_mode_adds_no_newline() {
    let out = in_memory(&sample_events(), None);
    assert!(!out.contains(&b'\n'));
    assert_eq!(
        String::from_utf8(out).unwrap(),
        "<?xml version=\"1.0\" encoding=\"UTF-8\"?><!DOCTYPE html><a x=\"1\"><!-- note --><b>t<c/><![CDATA[raw]]></b><?pi data?></a>"
    );
}

#[test]
fn pretty_mode_breaks_except_after_text_or_cdata() {
    let out = in_memory(&sample_events(), Some((b' ', 2)));
    assert_eq!(
        String::from_utf8(out).unwrap(),
        "<?xml version=\"1.0\" encoding=\"UTF-8\"?>\n<!DOCTYPE html>\n<a x=\"1\">\n  <!-- note -->\n  <b>t<c/><![CDATA[raw]]></b>\n  <?pi data?>\n</a>"
    );
}

#[test]
fn pretty_mode_first_event_has_no_break() {
    let out = in_memory(&[Event::Comment(bytes("c"))], Some((b'\t', 1)));
    assert_eq!(out, b"<!--c-->".to_vec());
}

#[test]
fn eof_writes_nothing() {
    assert!(in_memory(&[Event::Eof], None).is_empty());
    assert!(in_memory(&[Event::Eof], Some((b' ', 4))).is_empty());
}

#[test]
fn manual_indent() {
    let mut writer = Writer::new_with_indent(Vec::new(), b'-', 3);
    writer.write_event(&Event::Start(bytes("a")));
    writer.write_indent();
    writer.write_event(&Event::Text(bytes("x")));
    assert_eq!(writer.into_inner(), b"<a>\n---x".to_vec());

    let mut compact = Writer::new(Vec::new());
    compact.write_indent();
    assert!(compact.into_inner().is_empty());
}

#[test]
fn declaration_without_optional_parts() {
    let out = in_memory(&[Event::decl("1.1", None, Some("yes"))], None);
    assert_eq!(
        String::from_utf8(out).unwrap(),
        "<?xml version=\"1.1\" standalone=\"yes\"?>"
    );
}

#[test]
fn end_payload_is_the_name_alone() {
    let start = BytesStart::new("item").with_attribute("k", "v");
    assert_eq!(start.to_bytes(), b"item k=\"v\"".to_vec());
    assert_eq!(start.to_end(), b"item".to_vec());
}

#[test]
fn prepared_chunks_match_buffered_output() {
    let mut writer = Writer::new_with_indent((), b' ', 1);
    let mut chunks = Vec::new();
    for e in sample_events() {
        chunks.extend(writer.prepare_event(&e));
    }
    assert_eq!(chunks.concat(), in_memory(&sample_events(), Some((b' ', 1))));
}

#[test]
fn blocking_and_cooperative_sinks_agree() {
    for indent in [None, Some((b' ', 4))] {
        let events = sample_events();

        let mut blocking = match indent {
            Some((fill, width)) => Writer::new_with_indent((), fill, width),
            None => Writer::new(()),
        };
        let mut blocking_out: Vec<u8> = Vec::new();
        for e in &events {
            for chunk in blocking.prepare_event(e) {
                std::io::Write::write_all(&mut blocking_out, &chunk).unwrap();
            }
        }

        let runtime = tokio::runtime::Builder::new_current_thread().build().unwrap();
        let cooperative_out = runtime.block_on(async {
            let mut cooperative = match indent {
                Some((fill, width)) => Writer::new_with_indent((), fill, width),
                None => Writer::new(()),
            };
            let mut out: Vec<u8> = Vec::new();
            for e in &events {
                for chunk in cooperative.prepare_event(e) {
                    tokio::io::AsyncWriteExt::write_all(&mut out, &chunk).await.unwrap();
                }
            }
            out
        });

        assert_eq!(blocking_out, cooperative_out);
        assert_eq!(blocking_out, in_memory(&events, indent));
    }
}
