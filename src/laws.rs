//! Properties of whole event streams: how depth follows nesting, and where
//! line breaks appear in either mode.

use vstd::prelude::*;
use crate::events::Event;
use crate::indent::{indent_bytes, IndentView};
use crate::writer::{
    breaks_after, event_bytes, is_markup, line_break_before, markup, newline, next_state,
    state_during,
};

verus! {

/// The indentation state of a pretty-mode writer that has written nothing yet.
pub open spec fn fresh_indent(fill: u8, width: nat) -> IndentView {
    IndentView { should_line_break: false, fill, width, depth: 0 }
}

/// The state after writing `es` in order, starting from `ind`.
pub open spec fn run_state(ind: Option<IndentView>, es: Seq<Event>) -> Option<IndentView>
    decreases es.len(),
{
    if es.len() == 0 {
        ind
    } else {
        next_state(run_state(ind, es.drop_last()), es.last())
    }
}

/// The bytes written for `es` in order, starting from `ind`.
pub open spec fn run_bytes(ind: Option<IndentView>, es: Seq<Event>) -> Seq<u8>
    decreases es.len(),
{
    if es.len() == 0 {
        Seq::empty()
    } else {
        run_bytes(ind, es.drop_last()) + event_bytes(run_state(ind, es.drop_last()), es.last())
    }
}

/// The number of opening tags in `es` minus the number of closing tags.
pub open spec fn balance(es: Seq<Event>) -> int
    decreases es.len(),
{
    if es.len() == 0 {
        0
    } else {
        balance(es.drop_last()) + if es.last() is Start {
            1int
        } else if es.last() is End {
            -1int
        } else {
            0int
        }
    }
}

/// No prefix of `es` closes more tags than it opened.
pub open spec fn well_nested(es: Seq<Event>) -> bool {
    forall|k: int| 0 <= k <= es.len() ==> balance(#[trigger] es.take(k)) >= 0
}

/// The payload of an event; empty for the end of the stream.
pub open spec fn payload(e: Event) -> Seq<u8> {
    match e {
        Event::Start(c) => c@,
        Event::End(c) => c@,
        Event::Empty(c) => c@,
        Event::Text(c) => c@,
        Event::Comment(c) => c@,
        Event::CData(c) => c@,
        Event::Decl(c) => c@,
        Event::PI(c) => c@,
        Event::DocType(c) => c@,
        Event::Eof => Seq::empty(),
    }
}

pub open spec fn has_no_newline(s: Seq<u8>) -> bool {
    forall|i: int| 0 <= i < s.len() ==> s[i] != 10u8
}

proof fn lemma_pretty_stays_pretty(ind: IndentView, es: Seq<Event>)
    ensures
        run_state(Some(ind), es) is Some,
        run_state(Some(ind), es)->0.fill == ind.fill,
        run_state(Some(ind), es)->0.width == ind.width,
    decreases es.len(),
{
    if es.len() > 0 {
        lemma_pretty_stays_pretty(ind, es.drop_last());
    }
}

/// In pretty mode, after a well-nested stream of events the depth is the number
/// of tags left open: it is back to zero exactly when every opening tag has been
/// closed, and the indentation at that level is empty.
pub proof fn lemma_depth_follows_nesting(fill: u8, width: nat, es: Seq<Event>)
    requires
        well_nested(es),
    ensures
        run_state(Some(fresh_indent(fill, width)), es) is Some,
        run_state(Some(fresh_indent(fill, width)), es)->0.depth == balance(es),
        run_state(Some(fresh_indent(fill, width)), es)->0.depth == 0 <==> balance(es) == 0,
        indent_bytes(fill, width, 0) == Seq::<u8>::empty(),
    decreases es.len(),
{
    lemma_pretty_stays_pretty(fresh_indent(fill, width), es);
    assert(indent_bytes(fill, width, 0) =~= Seq::<u8>::empty());
    if es.len() > 0 {
        let init = es.drop_last();
        assert forall|k: int| 0 <= k <= init.len() implies balance(#[trigger] init.take(k)) >= 0 by {
            assert(init.take(k) =~= es.take(k));
        }
        lemma_depth_follows_nesting(fill, width, init);
        assert(es.take(es.len() as int) =~= es);
        assert(balance(es.take(es.len() as int)) >= 0);
    }
}

/// In compact mode no line break is added: when no payload holds a line
/// break, neither does the output.
pub proof fn lemma_compact_has_no_newline(es: Seq<Event>)
    requires
        forall|k: int| 0 <= k < es.len() ==> has_no_newline(#[trigger] payload(es[k])),
    ensures
        run_state(None, es) is None,
        has_no_newline(run_bytes(None, es)),
    decreases es.len(),
{
    if es.len() > 0 {
        let init = es.drop_last();
        assert forall|k: int| 0 <= k < init.len() implies has_no_newline(
            #[trigger] payload(init[k]),
        ) by {
            assert(init[k] == es[k]);
        }
        lemma_compact_has_no_newline(init);
        let e = es.last();
        assert(has_no_newline(payload(es[es.len() - 1])));
        assert(event_bytes(None, e) == markup(e));
        let m = markup(e);
        assert forall|i: int| 0 <= i < m.len() implies m[i] != 10u8 by {
            match e {
                Event::Start(c) => {},
                Event::End(c) => {},
                Event::Empty(c) => {},
                Event::Text(c) => {},
                Event::Comment(c) => {},
                Event::CData(c) => {},
                Event::Decl(c) => {},
                Event::PI(c) => {},
                Event::DocType(c) => {},
                Event::Eof => {},
            }
        }
        let prev = run_bytes(None, init);
        assert forall|i: int| 0 <= i < prev.len() + m.len() implies (prev + m)[i] != 10u8 by {
            if i < prev.len() {
                assert((prev + m)[i] == prev[i]);
            } else {
                assert((prev + m)[i] == m[i - prev.len()]);
            }
        }
    }
}

/// In pretty mode the bytes of the `k`-th event are preceded by a line break
/// and the indentation exactly when it is markup and follows an event other
/// than text or character data; the first event never gets one.
pub proof fn lemma_pretty_line_breaks(fill: u8, width: nat, es: Seq<Event>, k: int)
    requires
        0 <= k < es.len(),
    ensures
        ({
            let ind = run_state(Some(fresh_indent(fill, width)), es.take(k));
            &&& line_break_before(ind, es[k]) <==> (k > 0 && breaks_after(es[k - 1]) && is_markup(
                es[k],
            ))
            &&& event_bytes(ind, es[k]) == if line_break_before(ind, es[k]) {
                newline() + indent_bytes(fill, width, state_during(ind, es[k])->0.depth) + markup(
                    es[k],
                )
            } else {
                markup(es[k])
            }
        }),
{
    let pre = es.take(k);
    lemma_pretty_stays_pretty(fresh_indent(fill, width), pre);
    if k > 0 {
        assert(pre.drop_last() =~= es.take(k - 1));
        assert(pre.last() == es[k - 1]);
    }
}

} // verus!
