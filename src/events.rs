//! Markup events as the writer consumes them, and builders for their content.
//!
//! Every payload is already escaped: the writer copies it verbatim between the
//! delimiters of its kind.

use vstd::prelude::*;
use vstd::string::StringSliceAdditionalSpecFns;

verus! {

/// One unit of markup to be written.
pub enum Event {
    /// An opening tag; the payload is the name followed by the attributes.
    Start(Vec<u8>),
    /// A closing tag; the payload is the name.
    End(Vec<u8>),
    /// A self-closing tag; the payload is the name followed by the attributes.
    Empty(Vec<u8>),
    /// Character data, written with no delimiters.
    Text(Vec<u8>),
    Comment(Vec<u8>),
    CData(Vec<u8>),
    /// The declaration; the payload is what stands between `<?` and `?>`.
    Decl(Vec<u8>),
    /// A processing instruction.
    PI(Vec<u8>),
    DocType(Vec<u8>),
    /// The end of the stream: writes nothing.
    Eof,
}

/// Appends `b` to `out`.
pub(crate) fn append_bytes(out: &mut Vec<u8>, b: &[u8])
    ensures
        final(out)@ == old(out)@ + b@,
{
    let mut i: usize = 0;
    while i < b.len()
        invariant
            i <= b@.len(),
            out@ == old(out)@ + b@.subrange(0, i as int),
        decreases b@.len() - i,
    {
        out.push(b[i]);
        proof {
            assert(out@ =~= old(out)@ + b@.subrange(0, i + 1));
        }
        i = i + 1;
    }
    proof {
        assert(b@.subrange(0, b@.len() as int) =~= b@);
    }
}

/// ` key="value"`.
pub open spec fn attr_bytes(key: Seq<u8>, value: Seq<u8>) -> Seq<u8> {
    seq![32u8] + key + seq![61u8, 34u8] + value + seq![34u8]
}

fn push_attr(out: &mut Vec<u8>, key: &[u8], value: &[u8])
    ensures
        final(out)@ == old(out)@ + attr_bytes(key@, value@),
{
    out.push(32u8);
    append_bytes(out, key);
    out.push(61u8);
    out.push(34u8);
    append_bytes(out, value);
    out.push(34u8);
    proof {
        assert(out@ =~= old(out)@ + attr_bytes(key@, value@));
    }
}

/// The content of an opening or self-closing tag: a name, then attributes.
pub struct BytesStart {
    buf: Vec<u8>,
    name_len: usize,
}

impl BytesStart {
    #[verifier::type_invariant]
    spec fn inv(self) -> bool {
        self.name_len <= self.buf@.len()
    }

    /// The name followed by the attributes.
    pub closed spec fn content(&self) -> Seq<u8> {
        self.buf@
    }

    /// The name alone.
    pub closed spec fn name(&self) -> Seq<u8> {
        self.buf@.subrange(0, self.name_len as int)
    }

    /// A tag with the given name and no attributes.
    pub fn new(name: &str) -> (r: BytesStart)
        ensures
            r.name() == name.spec_bytes(),
            r.content() == name.spec_bytes(),
    {
        let mut buf: Vec<u8> = Vec::new();
        append_bytes(&mut buf, name.as_bytes());
        proof {
            assert(buf@.subrange(0, buf@.len() as int) =~= buf@);
        }
        BytesStart { buf, name_len: name.as_bytes().len() }
    }

    /// Adds ` key="value"` after what is there; `value` must already be escaped.
    pub fn with_attribute(self, key: &str, value: &str) -> (r: BytesStart)
        ensures
            r.name() == self.name(),
            r.content() == self.content() + attr_bytes(key.spec_bytes(), value.spec_bytes()),
    {
        proof {
            use_type_invariant(&self);
        }
        let BytesStart { mut buf, name_len } = self;
        push_attr(&mut buf, key.as_bytes(), value.as_bytes());
        proof {
            assert(buf@.subrange(0, name_len as int) =~= self.buf@.subrange(0, name_len as int));
        }
        BytesStart { buf, name_len }
    }

    /// The name followed by the attributes, as an event payload.
    pub fn to_bytes(&self) -> (r: Vec<u8>)
        ensures
            r@ == self.content(),
    {
        let mut out: Vec<u8> = Vec::new();
        append_bytes(&mut out, self.buf.as_slice());
        out
    }

    /// The payload of the closing tag that matches this one: the name alone.
    pub fn to_end(&self) -> (r: Vec<u8>)
        ensures
            r@ == self.name(),
    {
        proof {
            use_type_invariant(self);
        }
        let mut out: Vec<u8> = Vec::new();
        let mut i: usize = 0;
        while i < self.name_len
            invariant
                self.name_len <= self.buf@.len(),
                i <= self.name_len,
                out@ == self.buf@.subrange(0, i as int),
            decreases self.name_len - i,
        {
            out.push(self.buf[i]);
            proof {
                assert(out@ =~= self.buf@.subrange(0, i + 1));
            }
            i = i + 1;
        }
        out
    }
}

/// `xml`
pub open spec fn xml_bytes() -> Seq<u8> {
    seq![120u8, 109u8, 108u8]
}

/// `version`
pub open spec fn version_key() -> Seq<u8> {
    seq![118u8, 101u8, 114u8, 115u8, 105u8, 111u8, 110u8]
}

/// `encoding`
pub open spec fn encoding_key() -> Seq<u8> {
    seq![101u8, 110u8, 99u8, 111u8, 100u8, 105u8, 110u8, 103u8]
}

/// `standalone`
pub open spec fn standalone_key() -> Seq<u8> {
    seq![115u8, 116u8, 97u8, 110u8, 100u8, 97u8, 108u8, 111u8, 110u8, 101u8]
}

pub open spec fn optional_attr(key: Seq<u8>, value: Option<Seq<u8>>) -> Seq<u8> {
    match value {
        Some(v) => attr_bytes(key, v),
        None => Seq::empty(),
    }
}

/// `xml version="…"`, then ` encoding="…"` and ` standalone="…"` where given.
pub open spec fn decl_bytes(
    version: Seq<u8>,
    encoding: Option<Seq<u8>>,
    standalone: Option<Seq<u8>>,
) -> Seq<u8> {
    xml_bytes() + attr_bytes(version_key(), version) + optional_attr(encoding_key(), encoding)
        + optional_attr(standalone_key(), standalone)
}

pub open spec fn opt_bytes(s: Option<&str>) -> Option<Seq<u8>> {
    match s {
        Some(t) => Some(t.spec_bytes()),
        None => None,
    }
}

impl Event {
    /// The declaration event `<?xml version="…" …?>`.
    pub fn decl(version: &str, encoding: Option<&str>, standalone: Option<&str>) -> (r: Event)
        ensures
            r is Decl,
            r->Decl_0@ == decl_bytes(
                version.spec_bytes(),
                opt_bytes(encoding),
                opt_bytes(standalone),
            ),
    {
        let mut buf: Vec<u8> = vec![120u8, 109u8, 108u8];
        let version_k: Vec<u8> = vec![118u8, 101u8, 114u8, 115u8, 105u8, 111u8, 110u8];
        push_attr(&mut buf, version_k.as_slice(), version.as_bytes());
        let ghost after_version = buf@;
        match encoding {
            Some(e) => {
                let encoding_k: Vec<u8> = vec![101u8, 110u8, 99u8, 111u8, 100u8, 105u8, 110u8, 103u8];
                push_attr(&mut buf, encoding_k.as_slice(), e.as_bytes());
            },
            None => {},
        }
        let ghost after_encoding = buf@;
        match standalone {
            Some(s) => {
                let standalone_k: Vec<u8> = vec![
                    115u8,
                    116u8,
                    97u8,
                    110u8,
                    100u8,
                    97u8,
                    108u8,
                    111u8,
                    110u8,
                    101u8,
                ];
                push_attr(&mut buf, standalone_k.as_slice(), s.as_bytes());
            },
            None => {},
        }
        proof {
            assert(after_version =~= xml_bytes() + attr_bytes(version_key(), version.spec_bytes()));
            assert(after_encoding =~= after_version + optional_attr(
                encoding_key(),
                opt_bytes(encoding),
            ));
            assert(buf@ =~= after_encoding + optional_attr(
                standalone_key(),
                opt_bytes(standalone),
            ));
        }
        Event::Decl(buf)
    }
}

} // verus!
