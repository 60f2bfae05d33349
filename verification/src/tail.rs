//! The file-tailing source: a read cursor over a file that grows, and the
//! state machine that turns what is appended to it into records.
//!
//! The source does no I/O. Its owner opens the file, reads, and waits for
//! change notifications; it tells the source what happened and gets back what
//! to do next and which records to forward.

use vstd::prelude::*;
use crate::lines::{
    all_newline_free,
    complete_lines,
    join_lines,
    lemma_line_start_concat,
    lemma_line_start_prefix,
    lemma_line_start_total,
    lemma_split_concat,
    lemma_split_newline_free,
    lemma_split_newline_free_parts,
    lemma_split_of_joined,
    lemma_split_rejoins,
    lemma_split_step,
    line_start,
    newline_free,
    trailing,
    NEWLINE,
};
use crate::record::{Record, RecordView, records_view};

verus! {

/// The mathematical content of a [`Cursor`].
pub struct CursorView {
    /// How many bytes of the file have been read.
    pub offset: int,
    /// The bytes read after the last newline: a line that is not complete yet.
    pub partial: Seq<u8>,
}

impl CursorView {
    /// The open line lies within what was read and holds no newline.
    pub open spec fn well_formed(self) -> bool {
        &&& 0 <= self.partial.len() <= self.offset <= i64::MAX
        &&& newline_free(self.partial)
    }

    /// The position in the file at which the open line begins.
    pub open spec fn line_origin(self) -> int {
        self.offset - self.partial.len()
    }
}

/// Whether a cursor can move `n` bytes on without leaving the positions that
/// a record's offset can hold.
pub open spec fn cursor_fits(c: CursorView, n: nat) -> bool {
    c.offset + n <= i64::MAX
}

/// The cursor after `data` was read and split into lines.
pub open spec fn cursor_after(c: CursorView, data: Seq<u8>) -> CursorView {
    CursorView { offset: c.offset + data.len(), partial: trailing(c.partial + data) }
}

/// The cursor after `n` bytes were read and thrown away.
pub open spec fn cursor_skipped(c: CursorView, n: nat) -> CursorView {
    CursorView { offset: c.offset + n, partial: Seq::empty() }
}

/// The records for `lines`, the first of which begins at position `origin`
/// of the file: no key, partition 0, and as offset the position at which the
/// line begins.
pub open spec fn line_records(lines: Seq<Seq<u8>>, origin: int) -> Seq<RecordView> {
    Seq::new(
        lines.len(),
        |k: int|
            RecordView {
                value: lines[k],
                key: None,
                offset: origin + line_start(lines, k),
                partition: 0,
            },
    )
}

/// The records that reading `data` completes.
pub open spec fn cursor_emits(c: CursorView, data: Seq<u8>) -> Seq<RecordView> {
    line_records(complete_lines(c.partial + data), c.line_origin())
}

/// The read position in the watched file, with the line that is still open.
///
/// It lives in memory only: a new process starts from the end of the file as
/// it then is.
#[derive(Debug)]
pub struct Cursor {
    offset: i64,
    partial: Vec<u8>,
}

impl Cursor {
    #[verifier::type_invariant]
    spec fn inv(self) -> bool {
        &&& self.partial@.len() <= self.offset
        &&& newline_free(self.partial@)
    }

    /// The offset and the open line.
    pub closed spec fn view(&self) -> CursorView {
        CursorView { offset: self.offset as int, partial: self.partial@ }
    }

    /// A cursor at the start of a file.
    pub fn new() -> (c: Cursor)
        ensures
            c@ == (CursorView { offset: 0, partial: Seq::empty() }),
            c@.well_formed(),
    {
        Cursor { offset: 0, partial: Vec::new() }
    }

    /// How many bytes of the file have been read.
    pub fn offset(&self) -> (o: i64)
        ensures
            o == self@.offset,
            self@.well_formed(),
    {
        proof {
            use_type_invariant(self);
        }
        self.offset
    }

    /// The line that is still open.
    pub fn partial(&self) -> (p: &Vec<u8>)
        ensures
            p@ == self@.partial,
            self@.well_formed(),
    {
        proof {
            use_type_invariant(self);
        }
        &self.partial
    }

    /// Whether `n` more bytes can be read without the offset overflowing.
    pub fn fits(&self, n: usize) -> (b: bool)
        ensures
            b == cursor_fits(self@, n as nat),
    {
        proof {
            use_type_invariant(self);
        }
        let room: u64 = (i64::MAX - self.offset) as u64;
        n as u64 <= room
    }

    /// Moves the cursor over `n` bytes whose content is thrown away; the open
    /// line is dropped with them. Returns `false`, and changes nothing, where
    /// the offset would overflow.
    pub fn skip(&mut self, n: usize) -> (moved: bool)
        ensures
            moved == cursor_fits(old(self)@, n as nat),
            moved ==> final(self)@ == cursor_skipped(old(self)@, n as nat),
            !moved ==> final(self)@ == old(self)@,
            final(self)@.well_formed(),
    {
        proof {
            use_type_invariant(&*self);
        }
        if !self.fits(n) {
            return false;
        }
        self.partial = Vec::new();
        self.offset = self.offset + (n as i64);
        true
    }

    /// Reads `data` as the bytes that follow the cursor: every line that
    /// `data` completes becomes a record, in file order, and what follows the
    /// last newline stays open for the next call.
    ///
    /// Returns `None`, and changes nothing, where the offset would overflow.
    pub fn feed(&mut self, data: &[u8]) -> (out: Option<Vec<Record>>)
        ensures
            out is Some == cursor_fits(old(self)@, data@.len()),
            out is Some ==> final(self)@ == cursor_after(old(self)@, data@),
            out matches Some(rs) ==> records_view(rs@) == cursor_emits(old(self)@, data@),
            out is None ==> final(self)@ == old(self)@,
            final(self)@.well_formed(),
    {
        proof {
            use_type_invariant(&*self);
        }
        if !self.fits(data.len()) {
            return None;
        }
        let ghost buf = self.partial@ + data@;
        let ghost len = data@.len() as int;
        let start: i64 = self.offset;
        let origin: i64 = self.offset - (self.partial.len() as i64);
        let mut cur: Vec<u8> = Vec::new();
        std::mem::swap(&mut self.partial, &mut cur);
        let mut cur_start: i64 = origin;
        let mut out: Vec<Record> = Vec::new();
        let ghost mut emitted: Seq<Seq<u8>> = Seq::empty();
        let mut i: usize = 0;
        assert(cur@ + data@.subrange(0, len) =~= buf);
        while i < data.len()
            invariant
                len == data@.len(),
                i <= data.len(),
                newline_free(cur@),
                complete_lines(buf) == emitted + complete_lines(
                    cur@ + data@.subrange(i as int, len),
                ),
                trailing(buf) == trailing(cur@ + data@.subrange(i as int, len)),
                out@.len() == emitted.len(),
                forall|k: int|
                    0 <= k < out@.len() ==> (#[trigger] out@[k])@ == (RecordView {
                        value: emitted[k],
                        key: None,
                        offset: origin + line_start(emitted, k),
                        partition: 0,
                    }),
                cur_start == origin + line_start(emitted, emitted.len() as int),
                cur_start + cur@.len() == start + i,
                0 <= origin <= cur_start,
                start + len <= i64::MAX,
            decreases data.len() - i,
        {
            let b: u8 = data[i];
            let ghost rest = data@.subrange(i as int + 1, len);
            let ghost open_line = cur@;
            if b == NEWLINE {
                proof {
                    assert(cur@ + data@.subrange(i as int, len) =~= cur@ + seq![NEWLINE] + rest);
                    lemma_split_step(cur@, rest);
                    assert(Seq::<u8>::empty() + rest =~= rest);
                    assert(emitted + (seq![cur@] + complete_lines(rest)) =~= emitted.push(cur@)
                        + complete_lines(rest));
                    assert forall|k: int| 0 <= k <= emitted.len() implies line_start(
                        emitted.push(cur@),
                        k,
                    ) == line_start(emitted, k) by {
                        lemma_line_start_prefix(emitted, seq![cur@], k);
                        assert(emitted + seq![cur@] =~= emitted.push(cur@));
                    }
                    assert(emitted.push(cur@)[emitted.len() as int] == cur@);
                }
                let line_len: usize = cur.len();
                let mut line: Vec<u8> = Vec::new();
                std::mem::swap(&mut line, &mut cur);
                out.push(Record::keyless(line, cur_start));
                cur_start = cur_start + (line_len as i64) + 1;
                proof {
                    emitted = emitted.push(open_line);
                }
            } else {
                cur.push(b);
                proof {
                    assert(cur@ + rest =~= open_line + data@.subrange(i as int, len));
                }
            }
            i += 1;
        }
        proof {
            assert(cur@ + data@.subrange(len, len) =~= cur@);
            lemma_split_newline_free(cur@);
            assert(emitted + Seq::<Seq<u8>>::empty() =~= emitted);
            assert(records_view(out@) =~= line_records(emitted, origin as int));
        }
        self.offset = start + (data.len() as i64);
        self.partial = cur;
        Some(out)
    }
}

/// Where a file-tailing source stands.
#[derive(Clone, Copy, Debug, PartialEq, Eq)]
pub enum TailState {
    /// Reading over what the file held before the source started.
    CatchingUp,
    /// At the end of the file, forwarding what is appended.
    Watching,
    /// Finished: nothing is read or forwarded any more.
    Stopped,
}

/// What the watch channel delivered.
#[derive(Clone, Copy, Debug, PartialEq, Eq)]
pub enum WatchEvent {
    /// The content of the watched file changed.
    DataModified,
    /// Any other notification: a rename, a change of metadata, an error of the watcher.
    Other,
    /// The channel is closed: no notification will come any more.
    Closed,
}

/// What the owner of the source does next.
#[derive(Clone, Copy, Debug, PartialEq, Eq)]
pub enum TailAction {
    /// Read the file from the cursor to its end, handing each chunk to
    /// [`FileTailSource::on_data`], then wait for the next notification.
    ReadToEnd,
    /// Nothing to read: note the event and wait for the next notification.
    Ignore,
    /// Leave the loop.
    Finish,
}

/// The mathematical content of a [`FileTailSource`].
pub struct TailView {
    pub state: TailState,
    pub cursor: CursorView,
}

/// The source after `data` was read at the cursor.
///
/// While catching up the bytes are passed over; while watching they are split
/// into lines. A stopped source stays as it is, and a source whose offset
/// would overflow stops.
pub open spec fn tail_on_data(t: TailView, data: Seq<u8>) -> TailView {
    if t.state == TailState::Stopped {
        t
    } else if !cursor_fits(t.cursor, data.len()) {
        TailView { state: TailState::Stopped, cursor: t.cursor }
    } else if t.state == TailState::CatchingUp {
        TailView { state: TailState::CatchingUp, cursor: cursor_skipped(t.cursor, data.len()) }
    } else {
        TailView { state: TailState::Watching, cursor: cursor_after(t.cursor, data) }
    }
}

/// The records that the source hands out when `data` was read at the cursor:
/// the lines that `data` completes while watching, and none otherwise.
pub open spec fn tail_emits(t: TailView, data: Seq<u8>) -> Seq<RecordView> {
    if t.state == TailState::Watching && cursor_fits(t.cursor, data.len()) {
        cursor_emits(t.cursor, data)
    } else {
        Seq::empty()
    }
}

/// The source after the end of the file was reached: catching up is over.
pub open spec fn tail_on_end(t: TailView) -> TailView {
    if t.state == TailState::CatchingUp {
        TailView { state: TailState::Watching, cursor: t.cursor }
    } else {
        t
    }
}

/// The source after a notification, and what its owner does next.
pub open spec fn tail_on_event(t: TailView, event: WatchEvent) -> (TailView, TailAction) {
    if t.state == TailState::Stopped {
        (t, TailAction::Finish)
    } else {
        match event {
            WatchEvent::Closed => (
                TailView { state: TailState::Stopped, cursor: t.cursor },
                TailAction::Finish,
            ),
            WatchEvent::DataModified => (t, TailAction::ReadToEnd),
            WatchEvent::Other => (t, TailAction::Ignore),
        }
    }
}

/// A source that follows a file as it grows.
///
/// It starts by catching up: what the file holds at that time is passed over,
/// so that only what is appended later is forwarded. From then on each line
/// that is completed is handed out once, in file order.
#[derive(Debug)]
pub struct FileTailSource {
    state: TailState,
    cursor: Cursor,
}

impl FileTailSource {
    /// The state and the cursor.
    pub closed spec fn view(&self) -> TailView {
        TailView { state: self.state, cursor: self.cursor@ }
    }

    /// A source at the start of its file, catching up.
    pub fn new() -> (s: FileTailSource)
        ensures
            s@ == (TailView {
                state: TailState::CatchingUp,
                cursor: CursorView { offset: 0, partial: Seq::empty() },
            }),
            s@.cursor.well_formed(),
    {
        FileTailSource { state: TailState::CatchingUp, cursor: Cursor::new() }
    }

    /// Where the source stands.
    pub fn state(&self) -> (st: TailState)
        ensures
            st == self@.state,
    {
        self.state
    }

    /// The read position.
    pub fn cursor(&self) -> (c: &Cursor)
        ensures
            c@ == self@.cursor,
            c@.well_formed(),
    {
        let _ = self.cursor.offset();
        &self.cursor
    }

    /// Takes in `data`, read from the file at the cursor, and returns the
    /// records to forward, in file order.
    pub fn on_data(&mut self, data: &[u8]) -> (out: Vec<Record>)
        ensures
            final(self)@ == tail_on_data(old(self)@, data@),
            records_view(out@) == tail_emits(old(self)@, data@),
            final(self)@.cursor.well_formed(),
    {
        let _ = self.cursor.offset();
        match self.state {
            TailState::Stopped => Vec::new(),
            TailState::CatchingUp => {
                if !self.cursor.skip(data.len()) {
                    self.state = TailState::Stopped;
                }
                let none: Vec<Record> = Vec::new();
                assert(records_view(none@) =~= Seq::<RecordView>::empty());
                none
            },
            TailState::Watching => {
                match self.cursor.feed(data) {
                    Some(records) => records,
                    None => {
                        self.state = TailState::Stopped;
                        let none: Vec<Record> = Vec::new();
                        assert(records_view(none@) =~= Seq::<RecordView>::empty());
                        none
                    },
                }
            },
        }
    }

    /// Records that the end of the file was reached.
    pub fn on_end_of_file(&mut self)
        ensures
            final(self)@ == tail_on_end(old(self)@),
            final(self)@.cursor.well_formed(),
    {
        let _ = self.cursor.offset();
        match self.state {
            TailState::CatchingUp => {
                self.state = TailState::Watching;
            },
            _ => {},
        }
    }

    /// Takes in a notification of the watch channel and says what to do next.
    pub fn on_event(&mut self, event: WatchEvent) -> (action: TailAction)
        ensures
            (final(self)@, action) == tail_on_event(old(self)@, event),
            final(self)@.cursor.well_formed(),
    {
        let _ = self.cursor.offset();
        match self.state {
            TailState::Stopped => TailAction::Finish,
            _ => match event {
                WatchEvent::Closed => {
                    self.state = TailState::Stopped;
                    TailAction::Finish
                },
                WatchEvent::DataModified => TailAction::ReadToEnd,
                WatchEvent::Other => TailAction::Ignore,
            },
        }
    }

    /// Stops the source: the file can no longer be read, or its owner shuts down.
    pub fn stop(&mut self)
        ensures
            final(self)@ == (TailView { state: TailState::Stopped, cursor: old(self)@.cursor }),
            final(self)@.cursor.well_formed(),
    {
        let _ = self.cursor.offset();
        self.state = TailState::Stopped;
    }
}

/// The records of lines that follow other lines continue where those end.
pub proof fn lemma_line_records_concat(first: Seq<Seq<u8>>, second: Seq<Seq<u8>>, origin: int)
    ensures
        line_records(first + second, origin) == line_records(first, origin) + line_records(
            second,
            origin + line_start(first, first.len() as int),
        ),
{
    let whole = line_records(first + second, origin);
    let parts = line_records(first, origin) + line_records(
        second,
        origin + line_start(first, first.len() as int),
    );
    assert(whole.len() == parts.len());
    assert forall|k: int| 0 <= k < whole.len() implies whole[k] == parts[k] by {
        if k < first.len() {
            lemma_line_start_prefix(first, second, k);
        } else {
            lemma_line_start_concat(first, second, k - first.len());
        }
    }
    assert(whole =~= parts);
}

/// While it catches up a source hands out nothing, whatever the file holds.
/// Once the end of the file is reached it watches, with no line open, from
/// the position at which the file then ends.
pub proof fn lemma_catch_up_forwards_nothing(existing: Seq<u8>)
    requires
        existing.len() <= i64::MAX,
    ensures
        ({
            let fresh = TailView {
                state: TailState::CatchingUp,
                cursor: CursorView { offset: 0, partial: Seq::empty() },
            };
            &&& tail_emits(fresh, existing) == Seq::<RecordView>::empty()
            &&& tail_on_end(tail_on_data(fresh, existing)) == (TailView {
                state: TailState::Watching,
                cursor: CursorView { offset: existing.len() as int, partial: Seq::empty() },
            })
        }),
{
}

/// Complete lines that are appended while the source watches with no line
/// open come out as one record each, in file order, with the line as value
/// and no key, and leave no line open.
pub proof fn lemma_appended_lines_are_forwarded(t: TailView, lines: Seq<Seq<u8>>)
    requires
        t.state == TailState::Watching,
        t.cursor.well_formed(),
        t.cursor.partial.len() == 0,
        all_newline_free(lines),
        cursor_fits(t.cursor, join_lines(lines).len()),
    ensures
        tail_emits(t, join_lines(lines)) == line_records(lines, t.cursor.offset),
        tail_emits(t, join_lines(lines)).len() == lines.len(),
        forall|k: int|
            0 <= k < lines.len() ==> {
                &&& (#[trigger] tail_emits(t, join_lines(lines))[k]).value == lines[k]
                &&& tail_emits(t, join_lines(lines))[k].key is None
            },
        tail_on_data(t, join_lines(lines)).state == TailState::Watching,
        tail_on_data(t, join_lines(lines)).cursor.partial == Seq::<u8>::empty(),
{
    let data = join_lines(lines);
    assert(t.cursor.partial + data =~= data + Seq::<u8>::empty());
    lemma_split_of_joined(lines, Seq::empty());
}

/// A line that is written in two parts is held back until its newline comes,
/// and is then handed out whole, with the position at which it began.
pub proof fn lemma_partial_line_waits(t: TailView, head: Seq<u8>, rest: Seq<u8>)
    requires
        t.state == TailState::Watching,
        t.cursor.well_formed(),
        newline_free(head),
        newline_free(rest),
        cursor_fits(t.cursor, head.len() + rest.len() + 1),
    ensures
        tail_emits(t, head) == Seq::<RecordView>::empty(),
        tail_on_data(t, head).state == TailState::Watching,
        tail_on_data(t, head).cursor.partial == t.cursor.partial + head,
        tail_emits(tail_on_data(t, head), rest + seq![NEWLINE]) == seq![
            RecordView {
                value: t.cursor.partial + head + rest,
                key: None,
                offset: t.cursor.line_origin(),
                partition: 0,
            },
        ],
        tail_on_data(tail_on_data(t, head), rest + seq![NEWLINE]).cursor.partial == Seq::<
            u8,
        >::empty(),
{
    let open_line = t.cursor.partial + head;
    lemma_split_newline_free(open_line);
    assert(tail_emits(t, head) =~= Seq::<RecordView>::empty());
    let whole = open_line + rest;
    let t1 = tail_on_data(t, head);
    assert(open_line + (rest + seq![NEWLINE]) =~= whole + seq![NEWLINE] + Seq::<u8>::empty());
    lemma_split_step(whole, Seq::empty());
    lemma_split_newline_free(Seq::<u8>::empty());
    assert(complete_lines(open_line + (rest + seq![NEWLINE])) =~= seq![whole]);
    let out = tail_emits(t1, rest + seq![NEWLINE]);
    assert(out.len() == 1);
    assert(line_start(seq![whole], 0) == 0);
    assert(out =~= seq![
        RecordView { value: whole, key: None, offset: t.cursor.line_origin(), partition: 0 },
    ]);
}

/// What a source hands out does not depend on how the appended bytes were cut
/// into reads: two reads one after the other give the records, and leave the
/// source, as one read of both would.
pub proof fn lemma_reads_compose(t: TailView, a: Seq<u8>, b: Seq<u8>)
    requires
        t.cursor.well_formed(),
        cursor_fits(t.cursor, a.len() + b.len()),
    ensures
        tail_on_data(tail_on_data(t, a), b) == tail_on_data(t, a + b),
        tail_emits(t, a) + tail_emits(tail_on_data(t, a), b) == tail_emits(t, a + b),
{
    let p = t.cursor.partial;
    if t.state == TailState::Watching {
        assert((p + a) + b =~= p + (a + b));
        lemma_split_concat(p + a, b);
        lemma_split_rejoins(p + a);
        lemma_line_start_total(complete_lines(p + a));
        lemma_line_records_concat(
            complete_lines(p + a),
            complete_lines(trailing(p + a) + b),
            t.cursor.line_origin(),
        );
    } else {
        assert(tail_emits(t, a) + tail_emits(tail_on_data(t, a), b) =~= tail_emits(t, a + b));
    }
}

/// Whatever is read, the open line stays within what was read and free of
/// newlines, and the offset never moves back.
pub proof fn lemma_reads_keep_the_cursor_well_formed(t: TailView, data: Seq<u8>)
    requires
        t.cursor.well_formed(),
    ensures
        tail_on_data(t, data).cursor.well_formed(),
        tail_on_data(t, data).cursor.offset >= t.cursor.offset,
{
    let joined = t.cursor.partial + data;
    lemma_split_rejoins(joined);
    lemma_split_newline_free_parts(joined);
    assert((join_lines(complete_lines(joined)) + trailing(joined)).len() == joined.len());
}

/// A stopped source is at its end: whatever is read or notified, it stays
/// stopped where it is, hands out nothing, and asks to leave the loop.
pub proof fn lemma_stopped_is_terminal(t: TailView, data: Seq<u8>, event: WatchEvent)
    requires
        t.state == TailState::Stopped,
    ensures
        tail_on_data(t, data) == t,
        tail_emits(t, data) == Seq::<RecordView>::empty(),
        tail_on_end(t) == t,
        tail_on_event(t, event) == (t, TailAction::Finish),
{
}

/// A notification never moves the cursor, and one that is not about the
/// content of the file changes nothing at all.
pub proof fn lemma_notifications_do_not_move_the_cursor(t: TailView, event: WatchEvent)
    ensures
        tail_on_event(t, event).0.cursor == t.cursor,
        event == WatchEvent::Other ==> tail_on_event(t, event).0 == t,
        event == WatchEvent::Other && t.state != TailState::Stopped ==> tail_on_event(t, event).1
            == TailAction::Ignore,
{
}

/// Of a file that held something when the source started, and to which
/// complete lines were appended in one write after the source had caught up,
/// exactly the appended lines are handed out: one record for each, in file
/// order, with the line as value, no key, and the position at which the line
/// begins; nothing of what the file held before. This holds as long as the
/// file stays within the positions that an offset can hold.
pub proof fn lemma_only_appended_lines_are_forwarded(existing: Seq<u8>, lines: Seq<Seq<u8>>)
    requires
        all_newline_free(lines),
        existing.len() + join_lines(lines).len() <= i64::MAX,
    ensures
        ({
            let fresh = TailView {
                state: TailState::CatchingUp,
                cursor: CursorView { offset: 0, partial: Seq::empty() },
            };
            let caught_up = tail_on_end(tail_on_data(fresh, existing));
            let out = tail_emits(caught_up, join_lines(lines));
            &&& tail_emits(fresh, existing) == Seq::<RecordView>::empty()
            &&& out == line_records(lines, existing.len() as int)
            &&& out.len() == lines.len()
            &&& forall|k: int|
                0 <= k < lines.len() ==> (#[trigger] out[k]).value == lines[k] && out[k].key is None
        }),
{
    let fresh = TailView {
        state: TailState::CatchingUp,
        cursor: CursorView { offset: 0, partial: Seq::empty() },
    };
    lemma_catch_up_forwards_nothing(existing);
    lemma_appended_lines_are_forwarded(tail_on_end(tail_on_data(fresh, existing)), lines);
}

/// A source that is asked to read past the last position that an offset can
/// hold stops where it is and hands out nothing.
pub proof fn lemma_source_stops_at_the_limit(t: TailView, data: Seq<u8>)
    requires
        t.state != TailState::Stopped,
        !cursor_fits(t.cursor, data.len()),
    ensures
        tail_on_data(t, data) == (TailView { state: TailState::Stopped, cursor: t.cursor }),
        tail_emits(t, data) == Seq::<RecordView>::empty(),
{
}

} // verus!
