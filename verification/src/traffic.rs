//! The traffic as a whole: what holds of every run of events, in both
//! directions, in which each action is carried out.

use crate::books::{Books, Step};
use crate::proxy::{Action, Event};
use crate::receipts::Entry;
use vstd::prelude::*;

verus! {

/// Where a line comes from.
pub enum Side {
    Client,
    Upstream,
}

/// One step of the traffic of a session: an event on one side, the action that
/// answers it, the books before and after, and the time that was noted.
pub struct Turn {
    pub side: Side,
    pub before: Books,
    pub event: Event,
    pub action: Action,
    pub after: Books,
    pub ts: u64,
}

impl Turn {
    /// The action is one that the ledger answers the event with.
    pub open spec fn is_answered(self) -> bool {
        match self.side {
            Side::Client => crate::proxy::client_turn(
                self.before,
                self.event,
                self.action,
                self.after,
                self.ts,
            ),
            Side::Upstream => crate::proxy::upstream_turn(
                self.before,
                self.event,
                self.action,
                self.after,
                self.ts,
            ),
        }
    }

    /// What is recorded of the line that this turn reads.
    pub open spec fn entries(self) -> Seq<Entry> {
        match crate::proxy::line_read(self.event) {
            Some(line) => match self.side {
                Side::Client => self.before.client_entries(
                    crate::books::message_of(line),
                    self.ts,
                ),
                Side::Upstream => self.before.upstream_entries(
                    crate::books::message_of(line),
                    self.ts,
                ),
            },
            None => Seq::empty(),
        }
    }

    /// The steps of the books that the line makes that this turn reads.
    pub open spec fn steps(self) -> Seq<Step> {
        match crate::proxy::line_read(self.event) {
            Some(line) => match self.side {
                Side::Client => crate::books::client_steps(
                    crate::books::message_of(line),
                    self.ts,
                ),
                Side::Upstream => crate::books::upstream_steps(
                    crate::books::message_of(line),
                    self.ts,
                ),
            },
            None => Seq::empty(),
        }
    }
}

/// The event tells how it went to carry out the action: a read brings a line,
/// the end of the input or a failure, records are handed out, a line is written
/// or not. Nothing follows the end.
pub open spec fn comes_of(action: Action, event: Event) -> bool {
    match action {
        Action::ReadLine => event is Read || event is ReadFailed,
        Action::Record { line, .. } => event matches Event::Recorded { line: held } && held@
            == line@,
        Action::Forward { .. } => event is Forwarded || event is WriteFailed
            || event is FlushFailed,
        Action::Close => false,
    }
}

/// The action that is to be carried out on a side after a run: the last one that
/// was answered there, and at first to read a line.
pub open spec fn due(run: Seq<Turn>, side: Side) -> Action
    decreases run.len(),
{
    if run.len() == 0 {
        Action::ReadLine
    } else if run.last().side == side {
        run.last().action
    } else {
        due(run.drop_last(), side)
    }
}

/// The books after a run that starts with `books`.
pub open spec fn books_at(books: Books, run: Seq<Turn>) -> Books {
    if run.len() == 0 {
        books
    } else {
        run.last().after
    }
}

/// A run of a session that starts with `books`: each event comes of the action
/// that is due on its side, and is answered by the ledger. The two sides take
/// their turns in any order.
pub open spec fn is_run(books: Books, run: Seq<Turn>) -> bool
    decreases run.len(),
{
    run.len() > 0 ==> {
        let earlier = run.drop_last();
        &&& is_run(books, earlier)
        &&& run.last().before == books_at(books, earlier)
        &&& comes_of(due(earlier, run.last().side), run.last().event)
        &&& run.last().is_answered()
    }
}

/// What is done on one side of the traffic.
pub enum Deed {
    /// A line has been read.
    Read { line: Seq<u8> },
    /// Records have been handed to the audit trail.
    HandedOut { entries: Seq<Entry> },
    /// A line has been written to the other side and flushed.
    Forwarded { line: Seq<u8> },
}

/// What has been done when `event` comes of `action`.
pub open spec fn deed_of(action: Action, event: Event) -> Option<Deed> {
    match (action, event) {
        (Action::ReadLine, Event::Read { line }) if line@.len() > 0 => Some(
            Deed::Read { line: line@ },
        ),
        (Action::Record { records, .. }, Event::Recorded { .. }) => Some(
            Deed::HandedOut { entries: crate::proxy::entries_of(records@) },
        ),
        (Action::Forward { line }, Event::Forwarded) => Some(Deed::Forwarded { line: line@ }),
        _ => None,
    }
}

/// What is done on a side in a run, in order.
pub open spec fn deeds(run: Seq<Turn>, side: Side) -> Seq<Deed>
    decreases run.len(),
{
    if run.len() == 0 {
        Seq::empty()
    } else {
        let before = deeds(run.drop_last(), side);
        if run.last().side == side {
            match deed_of(due(run.drop_last(), side), run.last().event) {
                Some(deed) => before.push(deed),
                None => before,
            }
        } else {
            before
        }
    }
}

/// A line and what is recorded of it.
pub struct Noted {
    pub line: Seq<u8>,
    pub entries: Seq<Entry>,
}

/// The lines that are read on a side in a run, in order, each with what is
/// recorded of it.
pub open spec fn noted(run: Seq<Turn>, side: Side) -> Seq<Noted>
    decreases run.len(),
{
    if run.len() == 0 {
        Seq::empty()
    } else {
        let before = noted(run.drop_last(), side);
        match crate::proxy::line_read(run.last().event) {
            Some(line) if run.last().side == side => before.push(
                Noted { line, entries: run.last().entries() },
            ),
            _ => before,
        }
    }
}

impl Noted {
    /// What is done about the line before it is forwarded: it is read, and what
    /// is recorded of it, if anything, is handed out.
    pub open spec fn groundwork(self) -> Seq<Deed> {
        if self.entries.len() == 0 {
            seq![Deed::Read { line: self.line }]
        } else {
            seq![Deed::Read { line: self.line }, Deed::HandedOut { entries: self.entries }]
        }
    }

    /// All that is done about the line. It is forwarded last, as it came.
    pub open spec fn treatment(self) -> Seq<Deed> {
        self.groundwork().push(Deed::Forwarded { line: self.line })
    }
}

/// All that is done about lines, one after the other.
pub open spec fn treatments(lines: Seq<Noted>) -> Seq<Deed>
    decreases lines.len(),
{
    if lines.len() == 0 {
        Seq::empty()
    } else {
        treatments(lines.drop_last()) + lines.last().treatment()
    }
}

/// Some line could not be written or flushed on its way from a side.
pub open spec fn has_failed(run: Seq<Turn>, side: Side) -> bool {
    exists|i: int|
        0 <= i < run.len() && (#[trigger] run[i]).side == side && (run[i].event is WriteFailed
            || run[i].event is FlushFailed)
}

/// How far the treatment of the lines of a side has come, by the action that is
/// due there.
spec fn on_track(run: Seq<Turn>, side: Side) -> bool {
    let done = deeds(run, side);
    let lines = noted(run, side);
    match due(run, side) {
        Action::ReadLine => done == treatments(lines),
        Action::Record { records, line } => {
            &&& lines.len() > 0
            &&& lines.last().line == line@
            &&& lines.last().entries == crate::proxy::entries_of(records@)
            &&& lines.last().entries.len() > 0
            &&& done == treatments(lines.drop_last()).push(Deed::Read { line: line@ })
        },
        Action::Forward { line } => {
            &&& lines.len() > 0
            &&& lines.last().line == line@
            &&& done == treatments(lines.drop_last()) + lines.last().groundwork()
        },
        Action::Close => {
            ||| done == treatments(lines)
            ||| {
                &&& has_failed(run, side)
                &&& lines.len() > 0
                &&& done == treatments(lines.drop_last()) + lines.last().groundwork()
            }
        },
    }
}

proof fn lemma_on_track(books: Books, run: Seq<Turn>, side: Side)
    requires
        is_run(books, run),
    ensures
        on_track(run, side),
    decreases run.len(),
{
    if run.len() > 0 {
        let earlier = run.drop_last();
        let turn = run.last();
        lemma_on_track(books, earlier, side);
        if turn.side == side {
            let done = deeds(earlier, side);
            let lines = noted(earlier, side);
            match crate::proxy::line_read(turn.event) {
                Some(line) => {
                    let item = Noted { line, entries: turn.entries() };
                    assert(noted(run, side) == lines.push(item));
                    assert(lines.push(item).drop_last() =~= lines);
                    assert(deeds(run, side) == done.push(Deed::Read { line }));
                    assert(done.push(Deed::Read { line }) =~= done + seq![Deed::Read { line }]);
                },
                None => {
                    assert(noted(run, side) == lines);
                    match due(earlier, side) {
                        Action::Record { records, line } => {
                            let item = lines.last();
                            let head = treatments(lines.drop_last());
                            assert(deeds(run, side) =~= head + item.groundwork());
                        },
                        Action::Forward { line } => {
                            let item = lines.last();
                            let head = treatments(lines.drop_last());
                            if turn.event is Forwarded {
                                assert(deeds(run, side) =~= head + item.treatment());
                            } else {
                                assert(run[run.len() - 1].side == side);
                                assert(has_failed(run, side));
                            }
                        },
                        _ => {},
                    }
                },
            }
        } else {
            if has_failed(earlier, side) {
                let i = choose|i: int|
                    0 <= i < earlier.len() && (#[trigger] earlier[i]).side == side && (
                    earlier[i].event is WriteFailed || earlier[i].event is FlushFailed);
                assert(run[i] == earlier[i]);
                assert(has_failed(run, side));
            }
        }
    }
}

/// The traffic of a side is treated line by line: each line is read, then what
/// is recorded of it is handed out, then it is forwarded as it came, and only
/// then comes the next. At any moment of a run what has been done is the
/// beginning of that; it is all of it when the next line is waited for, and when
/// the side has come to its end without a write that failed.
pub proof fn law_line_by_line(books: Books, run: Seq<Turn>, side: Side)
    requires
        is_run(books, run),
    ensures
        deeds(run, side).is_prefix_of(treatments(noted(run, side))),
        due(run, side) is ReadLine ==> deeds(run, side) == treatments(noted(run, side)),
        due(run, side) is Close && !has_failed(run, side) ==> deeds(run, side) == treatments(
            noted(run, side),
        ),
{
    lemma_on_track(books, run, side);
    let done = deeds(run, side);
    let lines = noted(run, side);
    let all = treatments(lines);
    if done != all {
        let item = lines.last();
        let head = treatments(lines.drop_last());
        assert(all =~= (head + item.groundwork()).push(Deed::Forwarded { line: item.line }));
        assert(item.groundwork()[0] == Deed::Read { line: item.line });
        assert(done =~= all.subrange(0, done.len() as int));
    } else {
        assert(done =~= all.subrange(0, done.len() as int));
    }
}

/// The lines that are read, in order.
pub open spec fn lines_read(done: Seq<Deed>) -> Seq<Seq<u8>>
    decreases done.len(),
{
    if done.len() == 0 {
        Seq::empty()
    } else {
        match done.last() {
            Deed::Read { line } => lines_read(done.drop_last()).push(line),
            _ => lines_read(done.drop_last()),
        }
    }
}

/// The lines that are forwarded, in order.
pub open spec fn lines_forwarded(done: Seq<Deed>) -> Seq<Seq<u8>>
    decreases done.len(),
{
    if done.len() == 0 {
        Seq::empty()
    } else {
        match done.last() {
            Deed::Forwarded { line } => lines_forwarded(done.drop_last()).push(line),
            _ => lines_forwarded(done.drop_last()),
        }
    }
}

proof fn lemma_lines_join(a: Seq<Deed>, b: Seq<Deed>)
    ensures
        lines_read(a + b) == lines_read(a) + lines_read(b),
        lines_forwarded(a + b) == lines_forwarded(a) + lines_forwarded(b),
    decreases b.len(),
{
    if b.len() == 0 {
        assert(a + b =~= a);
        assert(lines_read(a) + Seq::<Seq<u8>>::empty() =~= lines_read(a));
        assert(lines_forwarded(a) + Seq::<Seq<u8>>::empty() =~= lines_forwarded(a));
    } else {
        lemma_lines_join(a, b.drop_last());
        assert((a + b).drop_last() =~= a + b.drop_last());
        match b.last() {
            Deed::Read { line } => {
                let more = lines_read(b.drop_last());
                assert((lines_read(a) + more).push(line) =~= lines_read(a) + more.push(line));
            },
            Deed::Forwarded { line } => {
                let more = lines_forwarded(b.drop_last());
                assert((lines_forwarded(a) + more).push(line) =~= lines_forwarded(a) + more.push(
                    line,
                ));
            },
            _ => {},
        }
    }
}

proof fn lemma_lines_of_groundwork(item: Noted)
    ensures
        lines_read(item.groundwork()) == seq![item.line],
        lines_forwarded(item.groundwork()) == Seq::<Seq<u8>>::empty(),
{
    let read = Deed::Read { line: item.line };
    let none = Seq::<Deed>::empty();
    assert(none.push(read).drop_last() =~= none);
    assert(lines_read(none) =~= Seq::empty());
    assert(lines_forwarded(none) =~= Seq::empty());
    assert(lines_read(none.push(read)) =~= seq![item.line]);
    assert(lines_forwarded(none.push(read)) =~= Seq::empty());
    if item.entries.len() == 0 {
        assert(item.groundwork() =~= none.push(read));
    } else {
        assert(item.groundwork().drop_last() =~= none.push(read));
    }
}

proof fn lemma_lines_of_treatments(lines: Seq<Noted>)
    ensures
        lines_read(treatments(lines)) == lines.map_values(|n: Noted| n.line),
        lines_forwarded(treatments(lines)) == lines.map_values(|n: Noted| n.line),
    decreases lines.len(),
{
    let all = lines.map_values(|n: Noted| n.line);
    if lines.len() == 0 {
        assert(all =~= Seq::empty());
    } else {
        let earlier = lines.drop_last();
        let item = lines.last();
        lemma_lines_of_treatments(earlier);
        lemma_lines_of_groundwork(item);
        assert(item.treatment().drop_last() =~= item.groundwork());
        assert(lines_forwarded(item.treatment()) =~= seq![item.line]);
        lemma_lines_join(treatments(earlier), item.treatment());
        assert(all =~= earlier.map_values(|n: Noted| n.line) + seq![item.line]);
    }
}

/// The lines that are forwarded are the lines that are read, in order and byte
/// for byte. At most the last of them is still to be forwarded; none is when the
/// next line is waited for, and when the side has come to its end without a
/// write that failed.
pub proof fn law_forwarded_lines_are_those_read(books: Books, run: Seq<Turn>, side: Side)
    requires
        is_run(books, run),
    ensures
        ({
            let taken = lines_read(deeds(run, side));
            let given = lines_forwarded(deeds(run, side));
            &&& given == taken || (taken.len() > 0 && given == taken.drop_last())
            &&& due(run, side) is ReadLine ==> given == taken
            &&& due(run, side) is Close && !has_failed(run, side) ==> given == taken
        }),
{
    lemma_on_track(books, run, side);
    let done = deeds(run, side);
    let lines = noted(run, side);
    if done == treatments(lines) {
        lemma_lines_of_treatments(lines);
    } else {
        let item = lines.last();
        let head = treatments(lines.drop_last());
        let part = if due(run, side) is Record {
            seq![Deed::Read { line: item.line }]
        } else {
            item.groundwork()
        };
        assert(done =~= head + part);
        lemma_lines_of_treatments(lines.drop_last());
        lemma_lines_of_groundwork(item);
        lemma_lines_of_groundwork(Noted { line: item.line, entries: Seq::empty() });
        lemma_lines_join(head, part);
        let earlier = lines_forwarded(head);
        assert(lines_forwarded(done) =~= earlier);
        assert(lines_read(done).drop_last() =~= earlier);
    }
}

/// No line is forwarded before what is recorded of it has been handed out: up to
/// a deed that forwards a line, what has been done is the whole treatment of the
/// lines up to that one, its own records included.
pub proof fn law_records_come_first(books: Books, run: Seq<Turn>, side: Side, k: int)
    requires
        is_run(books, run),
        0 <= k < deeds(run, side).len(),
        deeds(run, side)[k] is Forwarded,
    ensures
        exists|i: int|
            0 <= i < noted(run, side).len() && deeds(run, side)[k]->Forwarded_line == (
            #[trigger] noted(run, side)[i]).line && treatments(noted(run, side).take(i + 1))
                == deeds(run, side).take(k + 1),
{
    law_line_by_line(books, run, side);
    let done = deeds(run, side);
    let lines = noted(run, side);
    assert(done[k] == treatments(lines)[k]);
    lemma_forwarded_ends_a_treatment(lines, k);
    let i = choose|i: int|
        0 <= i < lines.len() && treatments(lines)[k]->Forwarded_line == (#[trigger] lines[i]).line
            && treatments(lines.take(i + 1)) == treatments(lines).take(k + 1);
    assert(done.take(k + 1) =~= treatments(lines).take(k + 1));
    assert(noted(run, side)[i] == lines[i]);
}

proof fn lemma_forwarded_ends_a_treatment(lines: Seq<Noted>, k: int)
    requires
        0 <= k < treatments(lines).len(),
        treatments(lines)[k] is Forwarded,
    ensures
        exists|i: int|
            0 <= i < lines.len() && treatments(lines)[k]->Forwarded_line == (
            #[trigger] lines[i]).line && treatments(lines.take(i + 1)) == treatments(lines).take(
                k + 1,
            ),
    decreases lines.len(),
{
    if lines.len() > 0 {
        let earlier = lines.drop_last();
        let head = treatments(earlier);
        let all = treatments(lines);
        if k < head.len() {
            assert(all[k] == head[k]);
            lemma_forwarded_ends_a_treatment(earlier, k);
            let i = choose|i: int|
                0 <= i < earlier.len() && head[k]->Forwarded_line == (
                #[trigger] earlier[i]).line && treatments(earlier.take(i + 1)) == head.take(k + 1);
            assert(lines[i] == earlier[i]);
            assert(lines.take(i + 1) =~= earlier.take(i + 1));
            assert(all.take(k + 1) =~= head.take(k + 1));
        } else {
            let i = lines.len() - 1;
            assert(all[k] == lines.last().treatment()[k - head.len()]);
            assert(k == all.len() - 1);
            assert(all.take(k + 1) =~= all);
            assert(lines.take(i + 1) =~= lines);
            assert(lines[i] == lines.last());
        }
    }
}

/// The steps of the books that the lines of a run make, on both sides.
pub open spec fn steps_in(run: Seq<Turn>) -> Seq<Step>
    decreases run.len(),
{
    if run.len() == 0 {
        Seq::empty()
    } else {
        steps_in(run.drop_last()) + run.last().steps()
    }
}

/// The records that the actions of a run ask to hand out, on both sides, in
/// order.
pub open spec fn asked_to_record(run: Seq<Turn>) -> Seq<Entry>
    decreases run.len(),
{
    if run.len() == 0 {
        Seq::empty()
    } else {
        match run.last().action {
            Action::Record { records, .. } => asked_to_record(run.drop_last())
                + crate::proxy::entries_of(records@),
            _ => asked_to_record(run.drop_last()),
        }
    }
}

/// A run of events leaves the audit trail and the books of the messages that
/// pass in it, so that all that holds of trails holds of it.
pub proof fn law_run_leaves_its_trail(books: Books, run: Seq<Turn>)
    requires
        is_run(books, run),
    ensures
        asked_to_record(run) == crate::books::trail_of(books, steps_in(run)),
        books_at(books, run) == crate::books::books_after(books, steps_in(run)),
    decreases run.len(),
{
    if run.len() > 0 {
        let earlier = run.drop_last();
        let turn = run.last();
        law_run_leaves_its_trail(books, earlier);
        crate::trail::law_runs_join(books, steps_in(earlier), turn.steps());
        let head = asked_to_record(earlier);
        assert(head + Seq::<Entry>::empty() =~= head);
    }
}

} // verus!
