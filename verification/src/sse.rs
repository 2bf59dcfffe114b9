//! Server-sent events: cutting a byte stream into messages at blank lines and
//! reading each message's `data:` lines.
use vstd::prelude::*;
use vstd::utf8::*;
use crate::text::{lemma_find_skip, find_chars_from, find_from, push_str, 
    chars_of, chars_seqs, find, find_chars, lemma_find_from, occurs_at, slice_range, split_chars,
    split_on, starts_with, string_of, strip_prefix, utf8_str,
};

verus! {

/// The separator between two messages: an empty line.
pub open spec fn blank_line() -> Seq<char> {
    seq!['\n', '\n']
}

/// The complete messages at the front of `s`, each ended by a blank line, and
/// the incomplete rest after the last one.
pub open spec fn sse_split(s: Seq<char>) -> (Seq<Seq<char>>, Seq<char>)
    decreases s.len(),
{
    match find(s, blank_line()) {
        None => (seq![], s),
        Some(i) => {
            proof {
                lemma_find_from(s, blank_line(), 0);
            }
            let r = sse_split(s.skip(i + 2));
            (seq![s.take(i)] + r.0, r.1)
        },
    }
}

/// A line without its `\r`, when it has one at its end.
pub open spec fn strip_cr(l: Seq<char>) -> Seq<char> {
    if l.len() > 0 && l.last() == '\r' {
        l.drop_last()
    } else {
        l
    }
}

/// The lines of a text (`str::lines`): the pieces between `\n`s, each that a `\n`
/// ends without a `\r` before it, and no empty last line.
pub open spec fn text_lines(s: Seq<char>) -> Seq<Seq<char>> {
    let parts = split_on(s, '\n');
    let n = parts.len() as int;
    let ended = parts.take(n - 1).map_values(|p: Seq<char>| strip_cr(p));
    if parts[n - 1].len() == 0 {
        ended
    } else {
        ended.push(parts[n - 1])
    }
}

/// The value of a `data:` line (after `data: ` or, failing that, `data:`).
pub open spec fn data_field(line: Seq<char>) -> Option<Seq<char>> {
    match strip_prefix(line, "data: "@) {
        Some(d) => Some(d),
        None => strip_prefix(line, "data:"@),
    }
}

/// The values of the `data:` lines among `lines`, in order.
pub open spec fn data_lines(lines: Seq<Seq<char>>) -> Seq<Seq<char>>
    decreases lines.len(),
{
    if lines.len() == 0 {
        seq![]
    } else {
        data_lines(lines.drop_last()) + match data_field(lines.last()) {
            Some(d) => seq![d],
            None => seq![],
        }
    }
}

/// Texts joined with `\n` between them.
pub open spec fn join_lines(ls: Seq<Seq<char>>) -> Seq<char>
    decreases ls.len(),
{
    if ls.len() == 0 {
        seq![]
    } else if ls.len() == 1 {
        ls[0]
    } else {
        join_lines(ls.drop_last()) + seq!['\n'] + ls.last()
    }
}

/// The data of a message: its `data:` values joined by `\n`, or nothing when it
/// has no `data:` line.
pub open spec fn event_data(message: Seq<char>) -> Option<Seq<char>> {
    let d = data_lines(text_lines(message));
    if d.len() == 0 {
        None
    } else {
        Some(join_lines(d))
    }
}

/// The data of the messages that have some, in order.
pub open spec fn events_of(msgs: Seq<Seq<char>>) -> Seq<Seq<char>>
    decreases msgs.len(),
{
    if msgs.len() == 0 {
        seq![]
    } else {
        events_of(msgs.drop_last()) + match event_data(msgs.last()) {
            Some(d) => seq![d],
            None => seq![],
        }
    }
}

pub fn strip_literal(line: &[char], prefix: &str) -> (res: Option<Vec<char>>)
    ensures
        match res {
            Some(v) => strip_prefix(line@, prefix@) == Some(v@),
            None => strip_prefix(line@, prefix@) is None,
        },
{
    let p = chars_of(prefix);
    if starts_with(line, p.as_slice()) {
        let rest = slice_range(line, p.len(), line.len());
        assert(rest@ =~= line@.skip(p@.len() as int));
        Some(rest)
    } else {
        None
    }
}

/// The lines of a text (see `text_lines`).
pub fn text_lines_of(message: &[char]) -> (res: Vec<Vec<char>>)
    ensures
        chars_seqs(res@) == text_lines(message@),
{
    let parts = split_chars(message, '\n');
    let ghost pv = chars_seqs(parts@);
    assert(pv == split_on(message@, '\n'));
    proof {
        lemma_split_on_nonempty(message@, '\n');
        lemma_text_lines(message@);
    }
    let n = parts.len();
    let ghost lines = text_lines(message@);
    let last_kept = parts[n - 1].len() > 0;
    let count = if last_kept {
        n
    } else {
        n - 1
    };
    let mut out: Vec<Vec<char>> = Vec::new();
    let mut i: usize = 0;
    while i < count
        invariant
            i <= count,
            count <= n,
            n == parts.len(),
            pv == chars_seqs(parts@),
            lines == text_lines(message@),
            lines.len() == count,
            forall|k: int| 0 <= k < n - 1 ==> lines[k] == strip_cr(#[trigger] pv[k]),
            count == n ==> lines[n - 1] == pv[n - 1],
            chars_seqs(out@) == lines.take(i as int),
        decreases count - i,
    {
        let piece = &parts[i];
        let line: Vec<char> = if i + 1 < n && piece.len() > 0 && piece[piece.len() - 1] == '\r' {
            let l = slice_range(piece.as_slice(), 0, piece.len() - 1);
            assert(l@ =~= pv[i as int].drop_last());
            l
        } else {
            slice_range(piece.as_slice(), 0, piece.len())
        };
        assert(piece@ == pv[i as int]);
        if i + 1 < n {
            assert(lines[i as int] == strip_cr(pv[i as int]));
        }
        assert(line@ =~= lines[i as int]);
        let ghost before = chars_seqs(out@);
        out.push(line);
        assert(chars_seqs(out@) =~= before.push(line@));
        assert(lines.take(i + 1) =~= lines.take(i as int).push(lines[i as int]));
        i = i + 1;
    }
    assert(lines.take(count as int) =~= lines);
    out
}

/// The data of one message (see `event_data`).
pub fn sse_event_data(message: &[char]) -> (res: Option<String>)
    ensures
        res.deep_view() == event_data(message@),
{
    let lines_v = text_lines_of(message);
    let ghost lines = text_lines(message@);
    let count = lines_v.len();
    let mut data: Vec<Vec<char>> = Vec::new();
    let mut i: usize = 0;
    while i < count
        invariant
            i <= count,
            count == lines_v.len(),
            chars_seqs(lines_v@) == lines,
            lines.len() == count,
            chars_seqs(data@) == data_lines(lines.take(i as int)),
        decreases count - i,
    {
        let line = &lines_v[i];
        assert(line@ == lines[i as int]);
        assert(lines.take(i + 1).drop_last() =~= lines.take(i as int));
        assert(lines.take(i + 1).last() == lines[i as int]);
        let ghost before = chars_seqs(data@);
        assert(data_lines(lines.take(i + 1)) == data_lines(lines.take(i as int)) + match data_field(
            lines[i as int],
        ) {
            Some(d) => seq![d],
            None => seq![],
        });
        match strip_literal(line.as_slice(), "data: ") {
            Some(d) => {
                data.push(d);
                assert(chars_seqs(data@) =~= before + seq![d@]);
            },
            None => match strip_literal(line.as_slice(), "data:") {
                Some(d) => {
                    data.push(d);
                    assert(chars_seqs(data@) =~= before + seq![d@]);
                },
                None => {
                    assert(chars_seqs(data@) =~= before + seq![]);
                },
            },
        }
        i = i + 1;
    }
    assert(lines.take(count as int) =~= lines);
    if data.len() == 0 {
        return None;
    }
    let ghost dv = chars_seqs(data@);
    let mut out: Vec<char> = Vec::new();
    let mut j: usize = 0;
    while j < data.len()
        invariant
            1 <= data.len(),
            j <= data.len(),
            dv == chars_seqs(data@),
            j >= 1 ==> out@ == join_lines(dv.take(j as int)),
            j == 0 ==> out@.len() == 0,
        decreases data.len() - j,
    {
        assert(dv.take(j + 1).drop_last() =~= dv.take(j as int));
        if j > 0 {
            out.push('\n');
        }
        let ghost before = out@;
        let piece = &data[j];
        let mut k: usize = 0;
        while k < piece.len()
            invariant
                k <= piece.len(),
                out@ == before + piece@.take(k as int),
            decreases piece.len() - k,
        {
            out.push(piece[k]);
            assert(piece@.take(k + 1) =~= piece@.take(k as int).push(piece@[k as int]));
            k = k + 1;
        }
        assert(piece@.take(piece.len() as int) =~= piece@);
        if j == 0 {
            assert(out@ =~= dv[0]);
        } else {
            assert(out@ =~= join_lines(dv.take(j as int)) + seq!['\n'] + dv[j as int]);
        }
        j = j + 1;
    }
    assert(dv.take(data.len() as int) =~= dv);
    Some(string_of(out.as_slice()))
}

proof fn lemma_text_lines(s: Seq<char>)
    requires
        split_on(s, '\n').len() >= 1,
    ensures
        ({
            let parts = split_on(s, '\n');
            let n = parts.len() as int;
            &&& text_lines(s).len() == if parts[n - 1].len() == 0 { n - 1 } else { n }
            &&& forall|k: int| 0 <= k < n - 1 ==> text_lines(s)[k] == strip_cr(#[trigger] parts[k])
            &&& parts[n - 1].len() != 0 ==> text_lines(s)[n - 1] == parts[n - 1]
        }),
{
}

proof fn lemma_split_on_nonempty(s: Seq<char>, c: char)
    ensures
        split_on(s, c).len() >= 1,
    decreases s.len(),
{
    if let Some(i) = find(s, seq![c]) {
        lemma_find_from(s, seq![c], 0);
        lemma_split_on_nonempty(s.skip(i + 1), c);
    }
}


/// Feeds one chunk of the stream to the buffer of a connection: a chunk that is
/// not well-formed UTF-8 is dropped; otherwise its text is appended, the
/// complete messages are taken off the front of the buffer, and the data of
/// those that have some is returned in order.
pub fn sse_feed(buffer: &mut String, chunk: &[u8]) -> (res: Vec<String>)
    ensures
        valid_utf8(chunk@) ==> ({
            let sp = sse_split(old(buffer)@ + decode_utf8(chunk@));
            &&& final(buffer)@ == sp.1
            &&& res.deep_view() == events_of(sp.0)
        }),
        !valid_utf8(chunk@) ==> final(buffer)@ == old(buffer)@ && res@.len() == 0,
{
    let text = match utf8_str(chunk) {
        Some(t) => t,
        None => return Vec::new(),
    };
    let mut all = chars_of(buffer.as_str());
    let more = chars_of(text);
    let ghost whole = buffer@ + text@;
    let mut k: usize = 0;
    while k < more.len()
        invariant
            k <= more.len(),
            all@ == buffer@ + more@.take(k as int),
        decreases more.len() - k,
    {
        all.push(more[k]);
        assert(more@.take(k + 1) =~= more@.take(k as int).push(more@[k as int]));
        k = k + 1;
    }
    assert(more@.take(more.len() as int) =~= more@);
    assert(all@ == whole);
    let mut sep: Vec<char> = Vec::new();
    sep.push('\n');
    sep.push('\n');
    assert(sep@ =~= blank_line());
    let mut events: Vec<String> = Vec::new();
    let mut start: usize = 0;
    let ghost mut done: Seq<Seq<char>> = seq![];
    assert(whole.skip(0) =~= whole);
    loop
        invariant_except_break
            start <= all.len(),
            done + sse_split(whole.skip(start as int)).0 == sse_split(whole).0,
            sse_split(whole.skip(start as int)).1 == sse_split(whole).1,
            events.deep_view() == events_of(done),
        invariant
            all@ == whole,
            sep@ == blank_line(),
        ensures
            start <= all.len(),
            sse_split(whole).0 == done,
            sse_split(whole).1 == whole.skip(start as int),
            events.deep_view() == events_of(done),
        decreases all.len() - start,
    {
        let ghost rest = whole.skip(start as int);
        proof {
            lemma_find_skip(whole, blank_line(), start as int);
        }
        match find_chars_from(all.as_slice(), sep.as_slice(), start) {
            None => {
                assert(sse_split(rest) == (Seq::<Seq<char>>::empty(), rest));
                assert(done + seq![] =~= done);
                break;
            },
            Some(i) => {
                proof {
                    lemma_find_from(whole, blank_line(), start as int);
                }
                let message = slice_range(all.as_slice(), start, i);
                assert(message@ =~= rest.take(i - start));
                assert(rest.skip(i - start + 2) =~= whole.skip(i + 2));
                assert(done.push(message@) + sse_split(whole.skip(i + 2)).0 =~= done + sse_split(
                    rest,
                ).0);
                let ghost before = events.deep_view();
                match sse_event_data(message.as_slice()) {
                    Some(d) => {
                        events.push(d);
                        assert(events.deep_view() =~= before.push(d@));
                    },
                    None => {},
                }
                proof {
                    assert(done.push(message@).drop_last() =~= done);
                    done = done.push(message@);
                }
                start = i + 2;
            },
        }
    }
    let rest = slice_range(all.as_slice(), start, all.len());
    assert(rest@ =~= whole.skip(start as int));
    *buffer = string_of(rest.as_slice());
    events
}

proof fn lemma_find_append(s: Seq<char>, t: Seq<char>, p: Seq<char>)
    requires
        find(s, p) is Some,
    ensures
        find(s + t, p) == find(s, p),
{
    lemma_find_from(s, p, 0);
    lemma_find_from(s + t, p, 0);
    let j = find(s, p)->0;
    assert((s + t).subrange(j, j + p.len()) =~= s.subrange(j, j + p.len()));
    assert(occurs_at(s + t, p, j));
    if let Some(k) = find(s + t, p) {
        if k < j {
            assert((s + t).subrange(k, k + p.len()) =~= s.subrange(k, k + p.len()));
            assert(occurs_at(s, p, k));
        }
    }
}

/// The messages of a stream do not depend on how it is cut into chunks: the
/// messages of `s + t` are those of `s`, then those of what `s` left over
/// followed by `t`; and both ways leave the same rest.
pub proof fn law_sse_chunking(s: Seq<char>, t: Seq<char>)
    ensures
        sse_split(s + t).0 == sse_split(s).0 + sse_split(sse_split(s).1 + t).0,
        sse_split(s + t).1 == sse_split(sse_split(s).1 + t).1,
    decreases s.len(),
{
    match find(s, blank_line()) {
        None => {
            assert(sse_split(s).0 + sse_split(sse_split(s).1 + t).0 =~= sse_split(s + t).0);
        },
        Some(i) => {
            lemma_find_from(s, blank_line(), 0);
            lemma_find_append(s, t, blank_line());
            assert((s + t).take(i) =~= s.take(i));
            assert((s + t).skip(i + 2) =~= s.skip(i + 2) + t);
            law_sse_chunking(s.skip(i + 2), t);
            assert(sse_split(s + t).0 =~= seq![s.take(i)] + sse_split(s.skip(i + 2) + t).0);
            assert(sse_split(s).0 =~= seq![s.take(i)] + sse_split(s.skip(i + 2)).0);
        },
    }
}

proof fn lemma_events_append(a: Seq<Seq<char>>, b: Seq<Seq<char>>)
    ensures
        events_of(a + b) == events_of(a) + events_of(b),
    decreases b.len(),
{
    if b.len() == 0 {
        assert(a + b =~= a);
        assert(events_of(a) + events_of(b) =~= events_of(a));
    } else {
        assert((a + b).drop_last() =~= a + b.drop_last());
        assert((a + b).last() == b.last());
        lemma_events_append(a, b.drop_last());
        assert(events_of(a + b) =~= events_of(a) + events_of(b));
    }
}

/// Feeding a stream's text in two chunks yields the same events, in the same
/// order, as feeding both at once, and leaves the same buffer.
pub proof fn law_sse_events_chunking(buffer: Seq<char>, t1: Seq<char>, t2: Seq<char>)
    ensures
        ({
            let first = sse_split(buffer + t1);
            let second = sse_split(first.1 + t2);
            let once = sse_split(buffer + t1 + t2);
            &&& events_of(first.0) + events_of(second.0) == events_of(once.0)
            &&& second.1 == once.1
        }),
{
    law_sse_chunking(buffer + t1, t2);
    let first = sse_split(buffer + t1);
    let second = sse_split(first.1 + t2);
    lemma_events_append(first.0, second.0);
}

/// Text chunks received one after another, joined.
pub open spec fn joined_text(chunks: Seq<Seq<char>>) -> Seq<char>
    decreases chunks.len(),
{
    if chunks.len() == 0 {
        seq![]
    } else {
        joined_text(chunks.drop_last()) + chunks.last()
    }
}

/// Feeding text chunks one by one into a buffer, taking out the complete
/// messages after each: the events of those messages, in order, and what is
/// left in the buffer.
pub open spec fn feed_sse(chunks: Seq<Seq<char>>) -> (Seq<Seq<char>>, Seq<char>)
    decreases chunks.len(),
{
    if chunks.len() == 0 {
        (seq![], seq![])
    } else {
        let prev = feed_sse(chunks.drop_last());
        let step = sse_split(prev.1 + chunks.last());
        (prev.0 + events_of(step.0), step.1)
    }
}

/// However a stream's text is cut into chunks, feeding them one by one yields
/// the same events, in the same order, and leaves the same buffer, as reading
/// the whole text at once.
pub proof fn law_sse_any_chunking(chunks: Seq<Seq<char>>)
    ensures
        feed_sse(chunks).0 == events_of(sse_split(joined_text(chunks)).0),
        feed_sse(chunks).1 == sse_split(joined_text(chunks)).1,
    decreases chunks.len(),
{
    if chunks.len() == 0 {
        assert(find(Seq::<char>::empty(), blank_line()) is None) by {
            lemma_find_from(Seq::<char>::empty(), blank_line(), 0);
        }
        assert(events_of(Seq::<Seq<char>>::empty()) =~= Seq::<Seq<char>>::empty());
    } else {
        let init = chunks.drop_last();
        law_sse_any_chunking(init);
        law_sse_chunking(joined_text(init), chunks.last());
        let whole = sse_split(joined_text(init));
        let step = sse_split(whole.1 + chunks.last());
        lemma_events_append(whole.0, step.0);
        assert(joined_text(chunks) == joined_text(init) + chunks.last());
    }
}

} // verus!
