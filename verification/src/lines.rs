//! Splitting a growing byte stream into newline-terminated lines.
//!
//! A buffer is read as a run of complete lines, each closed by one newline
//! byte, followed by a trailing part that no newline has closed yet.

use vstd::prelude::*;

verus! {

/// The byte that ends a line.
pub const NEWLINE: u8 = 10u8;

/// No byte of `s` ends a line.
pub open spec fn newline_free(s: Seq<u8>) -> bool {
    forall|i: int| 0 <= i < s.len() ==> s[i] != NEWLINE
}

/// Every line of `lines` is free of newlines.
pub open spec fn all_newline_free(lines: Seq<Seq<u8>>) -> bool {
    forall|k: int| 0 <= k < lines.len() ==> newline_free(#[trigger] lines[k])
}

/// The index of the first newline of `buf`, or its length where it has none.
pub open spec fn first_newline(buf: Seq<u8>) -> int
    decreases buf.len(),
{
    if buf.len() == 0 || buf[0] == NEWLINE {
        0
    } else {
        1 + first_newline(buf.drop_first())
    }
}

/// The complete lines of `buf`, in order, each without its newline.
pub open spec fn complete_lines(buf: Seq<u8>) -> Seq<Seq<u8>>
    decreases buf.len(),
{
    let i = first_newline(buf);
    if 0 <= i < buf.len() {
        seq![buf.subrange(0, i)] + complete_lines(buf.subrange(i + 1, buf.len() as int))
    } else {
        Seq::empty()
    }
}

/// What follows the last newline of `buf`: the line that is not complete yet.
pub open spec fn trailing(buf: Seq<u8>) -> Seq<u8>
    decreases buf.len(),
{
    let i = first_newline(buf);
    if 0 <= i < buf.len() {
        trailing(buf.subrange(i + 1, buf.len() as int))
    } else {
        buf
    }
}

/// The lines of `lines`, each followed by a newline, one after the other.
pub open spec fn join_lines(lines: Seq<Seq<u8>>) -> Seq<u8>
    decreases lines.len(),
{
    if lines.len() == 0 {
        Seq::empty()
    } else {
        lines[0] + seq![NEWLINE] + join_lines(lines.drop_first())
    }
}

/// The number of bytes that the first `k` lines of `lines` take, newlines included.
pub open spec fn line_start(lines: Seq<Seq<u8>>, k: int) -> int
    decreases k,
{
    if k <= 0 {
        0
    } else {
        line_start(lines, k - 1) + lines[k - 1].len() + 1
    }
}

/// `first_newline` is within the buffer, nothing before it is a newline, and
/// where it is inside the buffer it is one.
pub proof fn lemma_first_newline(buf: Seq<u8>)
    ensures
        0 <= first_newline(buf) <= buf.len(),
        newline_free(buf.subrange(0, first_newline(buf))),
        first_newline(buf) < buf.len() ==> buf[first_newline(buf)] == NEWLINE,
        newline_free(buf) <==> first_newline(buf) == buf.len(),
    decreases buf.len(),
{
    if buf.len() == 0 || buf[0] == NEWLINE {
    } else {
        let tail = buf.drop_first();
        lemma_first_newline(tail);
        let i = first_newline(buf);
        assert forall|j: int| 0 <= j < i implies buf.subrange(0, i)[j] != NEWLINE by {
            if j > 0 {
                assert(tail.subrange(0, i - 1)[j - 1] == buf[j]);
            }
        }
        if newline_free(buf) {
            assert forall|j: int| 0 <= j < tail.len() implies tail[j] != NEWLINE by {
                assert(tail[j] == buf[j + 1]);
            }
        }
        if first_newline(buf) == buf.len() {
            assert forall|j: int| 0 <= j < buf.len() implies buf[j] != NEWLINE by {
                if j > 0 {
                    assert(tail[j - 1] == buf[j]);
                }
            }
        }
    }
}

/// A newline that follows a newline-free prefix is the first newline.
pub proof fn lemma_first_newline_after(head: Seq<u8>, rest: Seq<u8>)
    requires
        newline_free(head),
    ensures
        first_newline(head + seq![NEWLINE] + rest) == head.len(),
    decreases head.len(),
{
    let buf = head + seq![NEWLINE] + rest;
    if head.len() == 0 {
        assert(buf[0] == NEWLINE);
    } else {
        assert(buf[0] == head[0]);
        assert(newline_free(head.drop_first())) by {
            assert forall|j: int| 0 <= j < head.drop_first().len() implies head.drop_first()[j]
                != NEWLINE by {
                assert(head.drop_first()[j] == head[j + 1]);
            }
        }
        assert(buf.drop_first() =~= head.drop_first() + seq![NEWLINE] + rest);
        lemma_first_newline_after(head.drop_first(), rest);
    }
}

/// A buffer that begins with a newline-free line and its newline has that line
/// as its first complete line; the rest is split on its own.
pub proof fn lemma_split_step(head: Seq<u8>, rest: Seq<u8>)
    requires
        newline_free(head),
    ensures
        complete_lines(head + seq![NEWLINE] + rest) == seq![head] + complete_lines(rest),
        trailing(head + seq![NEWLINE] + rest) == trailing(rest),
{
    let buf = head + seq![NEWLINE] + rest;
    lemma_first_newline_after(head, rest);
    assert(buf.subrange(0, head.len() as int) =~= head);
    assert(buf.subrange(head.len() as int + 1, buf.len() as int) =~= rest);
}

/// A newline-free buffer has no complete line and is its own trailing part.
pub proof fn lemma_split_newline_free(buf: Seq<u8>)
    requires
        newline_free(buf),
    ensures
        complete_lines(buf) == Seq::<Seq<u8>>::empty(),
        trailing(buf) == buf,
{
    lemma_first_newline(buf);
}

/// The complete lines and the trailing part hold no newline.
pub proof fn lemma_split_newline_free_parts(buf: Seq<u8>)
    ensures
        all_newline_free(complete_lines(buf)),
        newline_free(trailing(buf)),
    decreases buf.len(),
{
    lemma_first_newline(buf);
    let i = first_newline(buf);
    if 0 <= i < buf.len() {
        let rest = buf.subrange(i + 1, buf.len() as int);
        lemma_split_newline_free_parts(rest);
        let lines = complete_lines(buf);
        assert forall|k: int| 0 <= k < lines.len() implies newline_free(#[trigger] lines[k]) by {
            if k > 0 {
                assert(lines[k] == complete_lines(rest)[k - 1]);
            }
        }
    }
}

/// Nothing is lost or added: the complete lines, each with its newline, and
/// then the trailing part, give the buffer back.
pub proof fn lemma_split_rejoins(buf: Seq<u8>)
    ensures
        join_lines(complete_lines(buf)) + trailing(buf) == buf,
    decreases buf.len(),
{
    lemma_first_newline(buf);
    let i = first_newline(buf);
    if 0 <= i < buf.len() {
        let rest = buf.subrange(i + 1, buf.len() as int);
        lemma_split_rejoins(rest);
        let lines = complete_lines(buf);
        assert(lines.drop_first() =~= complete_lines(rest));
        assert(lines[0] == buf.subrange(0, i));
        assert(join_lines(lines) == lines[0] + seq![NEWLINE] + join_lines(complete_lines(rest)));
        assert(buf =~= buf.subrange(0, i) + seq![NEWLINE] + rest);
        assert(join_lines(lines) + trailing(buf) =~= lines[0] + seq![NEWLINE] + (join_lines(
            complete_lines(rest),
        ) + trailing(rest)));
    } else {
        assert(join_lines(complete_lines(buf)) + trailing(buf) =~= buf);
    }
}

/// The split is the only one: newline-free lines, each closed by a newline,
/// followed by a newline-free remainder, are found again exactly.
pub proof fn lemma_split_of_joined(lines: Seq<Seq<u8>>, rest: Seq<u8>)
    requires
        all_newline_free(lines),
        newline_free(rest),
    ensures
        complete_lines(join_lines(lines) + rest) == lines,
        trailing(join_lines(lines) + rest) == rest,
    decreases lines.len(),
{
    if lines.len() == 0 {
        assert(join_lines(lines) + rest =~= rest);
        lemma_split_newline_free(rest);
    } else {
        let tail = lines.drop_first();
        assert forall|k: int| 0 <= k < tail.len() implies newline_free(#[trigger] tail[k]) by {
            assert(tail[k] == lines[k + 1]);
        }
        lemma_split_of_joined(tail, rest);
        let after = join_lines(tail) + rest;
        assert(join_lines(lines) + rest =~= lines[0] + seq![NEWLINE] + after);
        lemma_split_step(lines[0], after);
        assert(seq![lines[0]] + tail =~= lines);
    }
}

/// Splitting does not depend on how the stream was cut into chunks: what a
/// first chunk leaves open is completed by the next.
pub proof fn lemma_split_concat(a: Seq<u8>, b: Seq<u8>)
    ensures
        complete_lines(a + b) == complete_lines(a) + complete_lines(trailing(a) + b),
        trailing(a + b) == trailing(trailing(a) + b),
    decreases a.len(),
{
    lemma_first_newline(a);
    let i = first_newline(a);
    if 0 <= i < a.len() {
        let head = a.subrange(0, i);
        let rest = a.subrange(i + 1, a.len() as int);
        assert(a =~= head + seq![NEWLINE] + rest);
        assert(a + b =~= head + seq![NEWLINE] + (rest + b));
        lemma_split_step(head, rest + b);
        lemma_split_concat(rest, b);
        assert(complete_lines(a) == seq![head] + complete_lines(rest));
        assert(seq![head] + (complete_lines(rest) + complete_lines(trailing(rest) + b)) =~= (seq![
            head,
        ] + complete_lines(rest)) + complete_lines(trailing(rest) + b));
    } else {
        assert(complete_lines(a) + complete_lines(trailing(a) + b) =~= complete_lines(a + b));
    }
}

/// The bytes of the first `k` lines do not depend on the lines after them.
pub proof fn lemma_line_start_prefix(lines: Seq<Seq<u8>>, more: Seq<Seq<u8>>, k: int)
    requires
        k <= lines.len(),
    ensures
        line_start(lines + more, k) == line_start(lines, k),
    decreases k,
{
    if k > 0 {
        lemma_line_start_prefix(lines, more, k - 1);
        assert((lines + more)[k - 1] == lines[k - 1]);
    }
}

/// The lines of a buffer, newlines included, take as many bytes as the buffer
/// has before its trailing part.
pub proof fn lemma_line_start_total(lines: Seq<Seq<u8>>)
    ensures
        line_start(lines, lines.len() as int) == join_lines(lines).len(),
    decreases lines.len(),
{
    if lines.len() > 0 {
        let n = lines.len() as int;
        let front = lines.drop_last();
        assert(front + seq![lines[n - 1]] =~= lines);
        assert(front.push(lines[n - 1]) =~= lines);
        lemma_line_start_total(front);
        lemma_line_start_prefix(front, seq![lines[n - 1]], n - 1);
        lemma_join_push(front, lines[n - 1]);
        assert(line_start(lines, n) == line_start(lines, n - 1) + lines[n - 1].len() + 1);
    }
}

/// Joining one more line appends it and its newline.
pub proof fn lemma_join_push(lines: Seq<Seq<u8>>, line: Seq<u8>)
    ensures
        join_lines(lines.push(line)) == join_lines(lines) + line + seq![NEWLINE],
    decreases lines.len(),
{
    if lines.len() == 0 {
        let one = lines.push(line);
        assert(one.drop_first() =~= Seq::<Seq<u8>>::empty());
        assert(join_lines(one.drop_first()) =~= Seq::<u8>::empty());
        assert(one[0] == line);
        assert(join_lines(one) =~= line + seq![NEWLINE]);
        assert(join_lines(lines) + line + seq![NEWLINE] =~= line + seq![NEWLINE]);
    } else {
        assert(lines.push(line).drop_first() =~= lines.drop_first().push(line));
        lemma_join_push(lines.drop_first(), line);
        assert(join_lines(lines.push(line)) =~= join_lines(lines) + line + seq![NEWLINE]);
    }
}

/// The bytes of lines that follow other lines are counted after those.
pub proof fn lemma_line_start_concat(lines: Seq<Seq<u8>>, more: Seq<Seq<u8>>, k: int)
    requires
        0 <= k <= more.len(),
    ensures
        line_start(lines + more, lines.len() + k) == line_start(lines, lines.len() as int)
            + line_start(more, k),
    decreases k,
{
    if k == 0 {
        lemma_line_start_prefix(lines, more, lines.len() as int);
    } else {
        lemma_line_start_concat(lines, more, k - 1);
        assert((lines + more)[lines.len() + k - 1] == more[k - 1]);
    }
}

} // verus!
