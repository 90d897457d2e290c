use vstd::prelude::*;
use crate::engine::{
    event_ok, fresh, line_item, next, Event, FollowError, FollowView, ItemView, State,
};
use crate::lines::{
    complete_lines, ends_line, lemma_split_chunk, partial_line, utf8_text, well_formed_chunk,
};

verus! {

/// The engine driven by the events `evs` in order: the final engine and the
/// items delivered on the way.
pub open spec fn run(v: FollowView, evs: Seq<Event>) -> (FollowView, Seq<ItemView>)
    decreases evs.len(),
{
    if evs.len() == 0 {
        (v, seq![])
    } else {
        let (w, items) = run(v, evs.drop_last());
        let (u, o) = next(w, evs.last());
        match o {
            Some(x) => (u, items.push(x)),
            None => (u, items),
        }
    }
}

/// The items other than read errors, in order.
pub open spec fn without_read_errors(items: Seq<ItemView>) -> Seq<ItemView>
    decreases items.len(),
{
    if items.len() == 0 {
        seq![]
    } else {
        let rest = without_read_errors(items.drop_last());
        if items.last() == Err::<(nat, Seq<char>), FollowError>(FollowError::ReadError) {
            rest
        } else {
            rest.push(items.last())
        }
    }
}

/// The items for `lines`, numbered from one.
pub open spec fn numbered_lines(lines: Seq<Seq<u8>>) -> Seq<ItemView> {
    Seq::new(lines.len(), |i: int| line_item((i + 1) as nat, lines[i]))
}

/// The file only grows: every length reported is at least the length known
/// at the start and at least every length reported before it; and every
/// chunk is as a line reader hands it over.
pub open spec fn appends_only(v: FollowView, evs: Seq<Event>) -> bool {
    &&& forall|i: int|
        0 <= i < evs.len() && evs[i] is Length ==> v.session.len <= evs[i]->Length_0
    &&& forall|i: int, j: int|
        0 <= i < j < evs.len() && evs[i] is Length && evs[j] is Length ==> evs[i]->Length_0
            <= evs[j]->Length_0
    &&& forall|i: int| 0 <= i < evs.len() ==> event_ok(#[trigger] evs[i])
}

proof fn lemma_run_prefix(v: FollowView, evs: Seq<Event>, k: int)
    requires
        v.state != State::Open,
        v.session.seen == Seq::<u8>::empty(),
        appends_only(v, evs),
        0 <= k <= evs.len(),
    ensures
        run(v, evs.subrange(0, k)).0.state != State::Open,
        run(v, evs.subrange(0, k)).0.session.path == v.session.path,
        without_read_errors(run(v, evs.subrange(0, k)).1) == numbered_lines(
            complete_lines(run(v, evs.subrange(0, k)).0.session.seen),
        ),
        forall|j: int|
            k <= j < evs.len() && evs[j] is Length ==> run(v, evs.subrange(0, k)).0.session.len
                <= evs[j]->Length_0,
    decreases k,
{
    let pre = evs.subrange(0, k);
    if k == 0 {
        assert(pre =~= Seq::<Event>::empty());
        assert(complete_lines(v.session.seen) =~= Seq::<Seq<u8>>::empty());
        assert(numbered_lines(complete_lines(v.session.seen)) =~= Seq::<ItemView>::empty());
    } else {
        lemma_run_prefix(v, evs, k - 1);
        assert(pre.drop_last() =~= evs.subrange(0, k - 1));
        assert(pre.last() == evs[k - 1]);
        let (w, items) = run(v, evs.subrange(0, k - 1));
        let e = evs[k - 1];
        let (u, o) = next(w, e);
        assert(run(v, pre) == (u, match o {
            Some(x) => items.push(x),
            None => items,
        }));
        let lines = complete_lines(w.session.seen);
        match e {
            Event::Chunk(c) => {
                if w.state == State::Read && c@.len() > 0 {
                    lemma_split_chunk(w.session.seen, c@);
                    if ends_line(c@) {
                        let x = partial_line(w.session.seen) + c@.drop_last();
                        let out = line_item((lines.len() + 1) as nat, x);
                        assert(o == Some(out));
                        assert(out != Err::<(nat, Seq<char>), FollowError>(FollowError::ReadError));
                        assert(without_read_errors(items.push(out)) == without_read_errors(
                            items,
                        ).push(out)) by {
                            assert(items.push(out).drop_last() =~= items);
                        }
                        assert(numbered_lines(lines.push(x)) =~= numbered_lines(lines).push(out));
                    }
                }
            },
            Event::ReadFailed => {
                if w.state == State::Read {
                    let out = Err::<(nat, Seq<char>), FollowError>(FollowError::ReadError);
                    assert(without_read_errors(items.push(out)) == without_read_errors(items)) by {
                        assert(items.push(out).drop_last() =~= items);
                    }
                }
            },
            _ => {},
        }
    }
}

/// Following a file that only grows delivers its lines in the order written,
/// each exactly once, numbered by its position in the content read: apart
/// from read errors, the items are those of the complete lines of the bytes
/// read since the file was opened, numbered from one.
pub proof fn lemma_lines_in_order(v: FollowView, evs: Seq<Event>)
    requires
        v.state != State::Open,
        v.session.seen == Seq::<u8>::empty(),
        appends_only(v, evs),
    ensures
        run(v, evs).0.state != State::Open,
        without_read_errors(run(v, evs).1) == numbered_lines(complete_lines(run(v, evs).0.session.seen)),
{
    lemma_run_prefix(v, evs, evs.len() as int);
    assert(evs.subrange(0, evs.len() as int) =~= evs);
}

/// A length below the known one discards the session: the engine reopens
/// the file, starts again at line zero, and the next line read is line one.
pub proof fn lemma_truncation_restarts(v: FollowView, shorter: u64, reopened: u64, line: Vec<u8>)
    requires
        v.state == State::CheckLength,
        shorter < v.session.len,
        well_formed_chunk(line@),
        ends_line(line@),
    ensures
        next(v, Event::Length(shorter)).0.state == State::Open,
        next(v, Event::Length(shorter)).1 is None,
        next(next(v, Event::Length(shorter)).0, Event::Opened(reopened)).0 == (FollowView {
            state: State::Read,
            session: fresh(v.session.path, reopened),
            ..v
        }),
        next(
            next(next(v, Event::Length(shorter)).0, Event::Opened(reopened)).0,
            Event::Chunk(line),
        ).1 == Some(line_item(1, line@.drop_last())),
{
    let w = next(next(v, Event::Length(shorter)).0, Event::Opened(reopened)).0;
    lemma_split_chunk(w.session.seen, line@);
    assert(partial_line(w.session.seen) =~= Seq::<u8>::empty());
    assert(partial_line(w.session.seen) + line@.drop_last() =~= line@.drop_last());
    assert(w.session.seen + line@ =~= line@);
}

/// A line that is not valid UTF-8 gives exactly one decode error, and the
/// valid line after it still gets the next number.
pub proof fn lemma_decode_error_keeps_numbering(v: FollowView, bad: Vec<u8>, good: Vec<u8>)
    requires
        v.state == State::Read,
        well_formed_chunk(bad@),
        ends_line(bad@),
        utf8_text(partial_line(v.session.seen) + bad@.drop_last()) is None,
        well_formed_chunk(good@),
        ends_line(good@),
        utf8_text(good@.drop_last()) is Some,
    ensures
        next(v, Event::Chunk(bad)).1 == Some(Err::<(nat, Seq<char>), FollowError>(FollowError::DecodeError)),
        next(next(v, Event::Chunk(bad)).0, Event::Chunk(good)).1 == Some(
            Ok::<(nat, Seq<char>), FollowError>((
                complete_lines(v.session.seen).len() + 2,
                utf8_text(good@.drop_last()).unwrap(),
            )),
        ),
{
    let s = v.session.seen;
    lemma_split_chunk(s, bad@);
    let s1 = s + bad@;
    lemma_split_chunk(s1, good@);
    assert(partial_line(s1) + good@.drop_last() =~= good@.drop_last());
}

/// A missing or unreadable file never ends the sequence: a failed length
/// query or reopen leads back to waiting, with no item, and the wait leads
/// to another length query.
pub proof fn lemma_missing_file_retries(v: FollowView)
    requires
        v.state == State::Sleep,
    ensures
        next(v, Event::Slept) == (FollowView { state: State::CheckLength, ..v }, None::<ItemView>),
        next(next(v, Event::Slept).0, Event::LengthFailed) == (v, None::<ItemView>),
        next(FollowView { state: State::Open, ..v }, Event::OpenFailed) == (v, None::<ItemView>),
{
}

} // verus!
