//! The event writer: what bytes each event produces, and how the indentation
//! state moves from one event to the next.
//!
//! The dispatch is written once, as [`Writer::prepare_event`]: it updates the
//! writer's state and hands back the byte chunks of one event, in the order in
//! which they go to the sink. Any sink, blocking or not, that writes those chunks
//! in order produces the same bytes.

use vstd::prelude::*;
use crate::events::{append_bytes, Event};
use crate::indent::{IndentView, Indentation};

verus! {

/// `\n`
pub open spec fn newline() -> Seq<u8> {
    seq![10u8]
}

/// `<`
pub open spec fn open_angle() -> Seq<u8> {
    seq![60u8]
}

/// `>`
pub open spec fn close_angle() -> Seq<u8> {
    seq![62u8]
}

/// `</`
pub open spec fn end_open() -> Seq<u8> {
    seq![60u8, 47u8]
}

/// `/>`
pub open spec fn empty_close() -> Seq<u8> {
    seq![47u8, 62u8]
}

/// `<!--`
pub open spec fn comment_open() -> Seq<u8> {
    seq![60u8, 33u8, 45u8, 45u8]
}

/// `-->`
pub open spec fn comment_close() -> Seq<u8> {
    seq![45u8, 45u8, 62u8]
}

/// `<![CDATA[`
pub open spec fn cdata_open() -> Seq<u8> {
    seq![60u8, 33u8, 91u8, 67u8, 68u8, 65u8, 84u8, 65u8, 91u8]
}

/// `]]>`
pub open spec fn cdata_close() -> Seq<u8> {
    seq![93u8, 93u8, 62u8]
}

/// `<?`
pub open spec fn pi_open() -> Seq<u8> {
    seq![60u8, 63u8]
}

/// `?>`
pub open spec fn pi_close() -> Seq<u8> {
    seq![63u8, 62u8]
}

/// `<!DOCTYPE ` (with the trailing space)
pub open spec fn doctype_open() -> Seq<u8> {
    seq![60u8, 33u8, 68u8, 79u8, 67u8, 84u8, 89u8, 80u8, 69u8, 32u8]
}

/// Events that may be preceded by a line break: all but text, character data
/// and the end of the stream.
pub open spec fn is_markup(e: Event) -> bool {
    !(e is Text || e is CData || e is Eof)
}

/// Whether a line break is due before the next event, once `e` is written.
pub open spec fn breaks_after(e: Event) -> bool {
    !(e is Text || e is CData)
}

/// The bytes of an event with no added whitespace.
pub open spec fn markup(e: Event) -> Seq<u8> {
    match e {
        Event::Start(c) => open_angle() + c@ + close_angle(),
        Event::End(c) => end_open() + c@ + close_angle(),
        Event::Empty(c) => open_angle() + c@ + empty_close(),
        Event::Text(c) => c@,
        Event::Comment(c) => comment_open() + c@ + comment_close(),
        Event::CData(c) => cdata_open() + c@ + cdata_close(),
        Event::Decl(c) => pi_open() + c@ + pi_close(),
        Event::PI(c) => pi_open() + c@ + pi_close(),
        Event::DocType(c) => doctype_open() + c@ + close_angle(),
        Event::Eof => Seq::empty(),
    }
}

/// The indentation state that the bytes of `e` are written under: a closing
/// tag leaves its level before it is written.
pub open spec fn state_during(ind: Option<IndentView>, e: Event) -> Option<IndentView> {
    match ind {
        Some(i) => if e is End {
            Some(i.shrunk())
        } else {
            Some(i)
        },
        None => None,
    }
}

/// Whether a line break and the indentation precede the bytes of `e`.
pub open spec fn line_break_before(ind: Option<IndentView>, e: Event) -> bool {
    is_markup(e) && ind is Some && ind->0.should_line_break
}

/// A line break followed by the indentation of the current depth.
pub open spec fn indent_chunks(ind: Option<IndentView>) -> Seq<Seq<u8>> {
    match ind {
        Some(i) => seq![newline(), i.current()],
        None => Seq::empty(),
    }
}

/// The bytes of a line break followed by the indentation of the current depth.
pub open spec fn indent_line(ind: Option<IndentView>) -> Seq<u8> {
    match ind {
        Some(i) => newline() + i.current(),
        None => Seq::empty(),
    }
}

/// The chunks written for `e`, in order, under the indentation state `ind`.
pub open spec fn event_chunks(ind: Option<IndentView>, e: Event) -> Seq<Seq<u8>> {
    let pre = if line_break_before(ind, e) {
        indent_chunks(state_during(ind, e))
    } else {
        Seq::empty()
    };
    match e {
        Event::Start(c) => pre + seq![open_angle(), c@, close_angle()],
        Event::End(c) => pre + seq![end_open(), c@, close_angle()],
        Event::Empty(c) => pre + seq![open_angle(), c@, empty_close()],
        Event::Text(c) => seq![c@],
        Event::Comment(c) => pre + seq![comment_open(), c@, comment_close()],
        Event::CData(c) => seq![cdata_open(), c@, cdata_close()],
        Event::Decl(c) => pre + seq![pi_open(), c@, pi_close()],
        Event::PI(c) => pre + seq![pi_open(), c@, pi_close()],
        Event::DocType(c) => pre + seq![doctype_open(), c@, close_angle()],
        Event::Eof => Seq::empty(),
    }
}

/// The bytes written for `e` under the indentation state `ind`.
pub open spec fn event_bytes(ind: Option<IndentView>, e: Event) -> Seq<u8> {
    if line_break_before(ind, e) {
        newline() + state_during(ind, e)->0.current() + markup(e)
    } else {
        markup(e)
    }
}

/// The indentation state after `e` is written.
pub open spec fn next_state(ind: Option<IndentView>, e: Event) -> Option<IndentView> {
    match ind {
        Some(i) => {
            let moved = match e {
                Event::Start(_) => i.grown(),
                Event::End(_) => i.shrunk(),
                _ => i,
            };
            Some(moved.with_line_break(breaks_after(e)))
        },
        None => None,
    }
}

/// Whether `e` can be written in state `ind`: a depth counter that is already
/// at its largest value cannot take one more opening tag.
pub open spec fn can_write(ind: Option<IndentView>, e: Event) -> bool {
    (ind is Some && e is Start) ==> ind->0.depth < usize::MAX
}

/// The byte strings of a list of chunks.
pub open spec fn chunks_of(v: Seq<Vec<u8>>) -> Seq<Seq<u8>> {
    v.map_values(|c: Vec<u8>| c@)
}

proof fn lemma_flatten2(a: Seq<u8>, b: Seq<u8>)
    ensures
        seq![a, b].flatten() == a + b,
{
    reveal_with_fuel(Seq::<_>::flatten, 3);
    assert(seq![a, b].drop_first() =~= seq![b]);
    assert(seq![b].drop_first() =~= Seq::<Seq<u8>>::empty());
    assert(a + b =~= a + (b + Seq::empty()));
}

proof fn lemma_flatten3(a: Seq<u8>, b: Seq<u8>, c: Seq<u8>)
    ensures
        seq![a, b, c].flatten() == a + b + c,
{
    reveal_with_fuel(Seq::<_>::flatten, 4);
    assert(seq![a, b, c].drop_first() =~= seq![b, c]);
    assert(seq![b, c].drop_first() =~= seq![c]);
    assert(seq![c].drop_first() =~= Seq::<Seq<u8>>::empty());
    assert(a + b + c =~= a + (b + (c + Seq::empty())));
}

/// The chunks of an event concatenate to its bytes.
pub proof fn lemma_chunks_flatten(ind: Option<IndentView>, e: Event)
    ensures
        event_chunks(ind, e).flatten() == event_bytes(ind, e),
{
    let pre = if line_break_before(ind, e) {
        indent_chunks(state_during(ind, e))
    } else {
        Seq::empty()
    };
    reveal_with_fuel(Seq::<_>::flatten, 2);
    if line_break_before(ind, e) {
        let cur = state_during(ind, e)->0.current();
        lemma_flatten2(newline(), cur);
    } else {
        assert(pre.flatten() =~= Seq::<u8>::empty());
    }
    match e {
        Event::Text(c) => {
            assert(seq![c@].drop_first() =~= Seq::<Seq<u8>>::empty());
            assert(event_chunks(ind, e).flatten() =~= c@);
        },
        Event::CData(c) => {
            lemma_flatten3(cdata_open(), c@, cdata_close());
        },
        Event::Eof => {},
        _ => {
            let (a, b, c) = match e {
                Event::Start(c) => (open_angle(), c@, close_angle()),
                Event::End(c) => (end_open(), c@, close_angle()),
                Event::Empty(c) => (open_angle(), c@, empty_close()),
                Event::Comment(c) => (comment_open(), c@, comment_close()),
                Event::Decl(c) => (pi_open(), c@, pi_close()),
                Event::PI(c) => (pi_open(), c@, pi_close()),
                Event::DocType(c) => (doctype_open(), c@, close_angle()),
                _ => (Seq::empty(), Seq::empty(), Seq::empty()),
            };
            lemma_flatten3(a, b, c);
            vstd::seq_lib::lemma_flatten_concat(pre, seq![a, b, c]);
            assert(event_chunks(ind, e) == pre + seq![a, b, c]);
            assert(event_bytes(ind, e) =~= pre.flatten() + (a + b + c));
        },
    }
}

fn copy_bytes(v: &Vec<u8>) -> (r: Vec<u8>)
    ensures
        r@ == v@,
{
    let mut out: Vec<u8> = Vec::new();
    append_bytes(&mut out, v.as_slice());
    out
}

/// Writes markup events into a sink that it owns, in compact or pretty mode.
pub struct Writer<W> {
    writer: W,
    indent: Option<Indentation>,
}

impl<W> Writer<W> {
    /// The sink.
    pub closed spec fn sink(&self) -> W {
        self.writer
    }

    /// The indentation state; `None` in compact mode.
    pub closed spec fn indent_state(&self) -> Option<IndentView> {
        match self.indent {
            Some(i) => Some(i@),
            None => None,
        }
    }

    /// A writer in compact mode: it adds no whitespace of its own.
    pub fn new(inner: W) -> (r: Writer<W>)
        ensures
            r.sink() == inner,
            r.indent_state() == None::<IndentView>,
    {
        Writer { writer: inner, indent: None }
    }

    /// A writer in pretty mode: each level of nesting is `width` copies of `fill`.
    pub fn new_with_indent(inner: W, fill: u8, width: usize) -> (r: Writer<W>)
        ensures
            r.sink() == inner,
            r.indent_state() == Some(
                IndentView { should_line_break: false, fill, width: width as nat, depth: 0 },
            ),
    {
        Writer { writer: inner, indent: Some(Indentation::new(fill, width)) }
    }

    pub fn get_ref(&self) -> (r: &W)
        ensures
            *r == self.sink(),
    {
        &self.writer
    }

    pub fn get_mut(&mut self) -> (r: &mut W)
        ensures
            *r == old(self).sink(),
            final(self).sink() == *final(r),
            final(self).indent_state() == old(self).indent_state(),
    {
        &mut self.writer
    }

    pub fn into_inner(self) -> (r: W)
        ensures
            r == self.sink(),
    {
        self.writer
    }

    /// The nesting depth; `None` in compact mode.
    pub fn depth(&self) -> (r: Option<usize>)
        ensures
            match self.indent_state() {
                Some(i) => r == Some(i.depth as usize),
                None => r == None::<usize>,
            },
    {
        match &self.indent {
            Some(i) => Some(i.depth()),
            None => None,
        }
    }

    /// `before`, `value` and `after`, preceded by a line break and the current
    /// indentation when `line_break` holds.
    fn wrapped(
        &self,
        line_break: bool,
        before: Vec<u8>,
        value: &Vec<u8>,
        after: Vec<u8>,
    ) -> (r: Vec<Vec<u8>>)
        ensures
            chunks_of(r@) == (if line_break {
                indent_chunks(self.indent_state())
            } else {
                Seq::empty()
            }) + seq![before@, value@, after@],
    {
        let mut out: Vec<Vec<u8>> = if line_break {
            self.prepare_indent()
        } else {
            Vec::new()
        };
        let ghost pre = chunks_of(out@);
        out.push(before);
        out.push(copy_bytes(value));
        out.push(after);
        proof {
            assert(chunks_of(out@) =~= pre + seq![before@, value@, after@]);
        }
        out
    }

    /// Updates the state for `event` and returns the chunks to write for it,
    /// in order.
    pub fn prepare_event(&mut self, event: &Event) -> (chunks: Vec<Vec<u8>>)
        requires
            can_write(old(self).indent_state(), *event),
        ensures
            chunks_of(chunks@) == event_chunks(old(self).indent_state(), *event),
            final(self).indent_state() == next_state(old(self).indent_state(), *event),
            final(self).sink() == old(self).sink(),
    {
        let line_break = match &self.indent {
            Some(i) => i.should_line_break(),
            None => false,
        };
        let ghost ind = old(self).indent_state();
        let chunks = match event {
            Event::Start(c) => {
                let (b, a): (Vec<u8>, Vec<u8>) = (vec![60u8], vec![62u8]);
                assert(b@ =~= open_angle() && a@ =~= close_angle());
                let r = self.wrapped(line_break, b, c, a);
                match &mut self.indent {
                    Some(i) => i.grow(),
                    None => {},
                }
                r
            },
            Event::End(c) => {
                match &mut self.indent {
                    Some(i) => i.shrink(),
                    None => {},
                }
                assert(self.indent_state() == state_during(ind, *event));
                let (b, a): (Vec<u8>, Vec<u8>) = (vec![60u8, 47u8], vec![62u8]);
                assert(b@ =~= end_open() && a@ =~= close_angle());
                self.wrapped(line_break, b, c, a)
            },
            Event::Empty(c) => {
                let (b, a): (Vec<u8>, Vec<u8>) = (vec![60u8], vec![47u8, 62u8]);
                assert(b@ =~= open_angle() && a@ =~= empty_close());
                self.wrapped(line_break, b, c, a)
            },
            Event::Text(c) => {
                let mut r: Vec<Vec<u8>> = Vec::new();
                r.push(copy_bytes(c));
                assert(chunks_of(r@) =~= seq![c@]);
                r
            },
            Event::Comment(c) => {
                let (b, a): (Vec<u8>, Vec<u8>) = (vec![60u8, 33u8, 45u8, 45u8], vec![45u8, 45u8, 62u8]);
                assert(b@ =~= comment_open() && a@ =~= comment_close());
                self.wrapped(line_break, b, c, a)
            },
            Event::CData(c) => {
                let (b, a): (Vec<u8>, Vec<u8>) = (
                    vec![60u8, 33u8, 91u8, 67u8, 68u8, 65u8, 84u8, 65u8, 91u8],
                    vec![93u8, 93u8, 62u8],
                );
                assert(b@ =~= cdata_open() && a@ =~= cdata_close());
                let mut r: Vec<Vec<u8>> = Vec::new();
                r.push(b);
                r.push(copy_bytes(c));
                r.push(a);
                assert(chunks_of(r@) =~= seq![cdata_open(), c@, cdata_close()]);
                r
            },
            Event::Decl(c) | Event::PI(c) => {
                let (b, a): (Vec<u8>, Vec<u8>) = (vec![60u8, 63u8], vec![63u8, 62u8]);
                assert(b@ =~= pi_open() && a@ =~= pi_close());
                self.wrapped(line_break, b, c, a)
            },
            Event::DocType(c) => {
                let (b, a): (Vec<u8>, Vec<u8>) = (
                    vec![60u8, 33u8, 68u8, 79u8, 67u8, 84u8, 89u8, 80u8, 69u8, 32u8],
                    vec![62u8],
                );
                assert(b@ =~= doctype_open() && a@ =~= close_angle());
                self.wrapped(line_break, b, c, a)
            },
            Event::Eof => {
                assert(chunks_of(Seq::<Vec<u8>>::empty()) =~= Seq::<Seq<u8>>::empty());
                Vec::new()
            },
        };
        let next_line_break = match event {
            Event::Text(_) | Event::CData(_) => false,
            _ => true,
        };
        match &mut self.indent {
            Some(i) => i.set_line_break(next_line_break),
            None => {},
        }
        chunks
    }

    /// The chunks of a line break and the current indentation; none in compact mode.
    pub fn prepare_indent(&self) -> (chunks: Vec<Vec<u8>>)
        ensures
            chunks_of(chunks@) == indent_chunks(self.indent_state()),
    {
        let mut out: Vec<Vec<u8>> = Vec::new();
        match &self.indent {
            Some(i) => {
                let nl: Vec<u8> = vec![10u8];
                assert(nl@ =~= newline());
                out.push(nl);
                out.push(i.current());
                assert(chunks_of(out@) =~= seq![newline(), i@.current()]);
            },
            None => {},
        }
        proof {
            assert(chunks_of(out@) =~= indent_chunks(self.indent_state()));
        }
        out
    }
}

impl Writer<Vec<u8>> {
    fn write_chunks(&mut self, chunks: &Vec<Vec<u8>>)
        ensures
            final(self).sink()@ == old(self).sink()@ + chunks_of(chunks@).flatten(),
            final(self).indent_state() == old(self).indent_state(),
    {
        let mut k: usize = 0;
        while k < chunks.len()
            invariant
                k <= chunks@.len(),
                self.sink()@ == old(self).sink()@ + chunks_of(chunks@.subrange(0, k as int)).flatten(),
                self.indent_state() == old(self).indent_state(),
            decreases chunks@.len() - k,
        {
            let ghost done = chunks_of(chunks@.subrange(0, k as int));
            append_bytes(&mut self.writer, chunks[k].as_slice());
            proof {
                assert(chunks_of(chunks@.subrange(0, k + 1)) =~= done.push(chunks@[k as int]@));
                done.lemma_flatten_push(chunks@[k as int]@);
            }
            k = k + 1;
        }
        proof {
            assert(chunks@.subrange(0, chunks@.len() as int) =~= chunks@);
        }
    }

    /// Writes the bytes of `event` to the buffer.
    pub fn write_event(&mut self, event: &Event)
        requires
            can_write(old(self).indent_state(), *event),
        ensures
            final(self).sink()@ == old(self).sink()@ + event_bytes(old(self).indent_state(), *event),
            final(self).indent_state() == next_state(old(self).indent_state(), *event),
    {
        let chunks = self.prepare_event(event);
        self.write_chunks(&chunks);
        proof {
            lemma_chunks_flatten(old(self).indent_state(), *event);
        }
    }

    /// Writes a line break and the current indentation; nothing in compact mode.
    pub fn write_indent(&mut self)
        ensures
            final(self).sink()@ == old(self).sink()@ + indent_line(old(self).indent_state()),
            final(self).indent_state() == old(self).indent_state(),
    {
        let chunks = self.prepare_indent();
        self.write_chunks(&chunks);
        proof {
            match old(self).indent_state() {
                Some(i) => lemma_flatten2(newline(), i.current()),
                None => {},
            }
        }
    }
}

} // verus!
