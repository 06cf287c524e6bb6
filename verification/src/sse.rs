//! Framing of a `text/event-stream` body into event payloads.
//!
//! Events are separated by an empty line (`\n\n` or `\r\n\r\n`). Of every
//! complete event only its `data:` lines are kept; they are joined with `\n`.
use vstd::prelude::*;

verus! {

// ---------------------------------------------------------------------------
// Specification
// ---------------------------------------------------------------------------

/// Length of the event separator that starts at `i`: 2 for `\n\n`,
/// 4 for `\r\n\r\n`, 0 when none starts there. `\n\n` is tried first.
pub open spec fn separator_len_at(s: Seq<u8>, i: int) -> int {
    if 0 <= i && i + 2 <= s.len() && s[i] == 10u8 && s[i + 1] == 10u8 {
        2
    } else if 0 <= i && i + 4 <= s.len() && s[i] == 13u8 && s[i + 1] == 10u8 && s[i + 2] == 13u8
        && s[i + 3] == 10u8 {
        4
    } else {
        0
    }
}

/// The first separator at a position `>= i`, as `(position, length)`.
pub open spec fn separator_from(s: Seq<u8>, i: int) -> Option<(int, int)>
    decreases s.len() - i,
{
    if i < 0 || i + 1 >= s.len() {
        None
    } else if separator_len_at(s, i) > 0 {
        Some((i, separator_len_at(s, i)))
    } else {
        separator_from(s, i + 1)
    }
}

/// The first event separator of `s`, as `(position, length)`.
pub open spec fn first_separator(s: Seq<u8>) -> Option<(int, int)> {
    separator_from(s, 0)
}

/// Splits `s` into the raw text of its complete events (separators removed)
/// and the incomplete remainder that follows the last separator.
pub open spec fn split_events(s: Seq<u8>) -> (Seq<Seq<u8>>, Seq<u8>)
    decreases s.len(),
{
    match first_separator(s) {
        Some((p, l)) => {
            if 0 <= p && 2 <= l && p + l <= s.len() {
                let rest = split_events(s.skip(p + l));
                (seq![s.take(p)] + rest.0, rest.1)
            } else {
                (seq![], s)
            }
        },
        None => (seq![], s),
    }
}

/// Index of the first `\n` at a position `>= i`, or `s.len()` when there is none.
pub open spec fn line_end(s: Seq<u8>, i: int) -> int
    decreases s.len() - i,
{
    if i < 0 || i >= s.len() {
        s.len() as int
    } else if s[i] == 10u8 {
        i
    } else {
        line_end(s, i + 1)
    }
}

/// The pieces of `s` between `\n` bytes (always at least one piece).
pub open spec fn lines(s: Seq<u8>) -> Seq<Seq<u8>>
    decreases s.len(),
{
    let e = line_end(s, 0);
    if 0 <= e < s.len() {
        seq![s.take(e)] + lines(s.skip(e + 1))
    } else {
        seq![s]
    }
}

/// `line` without one trailing `\r`.
pub open spec fn strip_cr(line: Seq<u8>) -> Seq<u8> {
    if line.len() > 0 && line.last() == 13u8 {
        line.drop_last()
    } else {
        line
    }
}

/// The bytes `data:`.
pub open spec fn data_prefix() -> Seq<u8> {
    seq![100u8, 97u8, 116u8, 97u8, 58u8]
}

/// The value of a `data:` line (one space after the colon removed), or
/// `None` for any other line.
pub open spec fn data_field_value(line: Seq<u8>) -> Option<Seq<u8>> {
    let l = strip_cr(line);
    if l.len() >= 5 && l.take(5) == data_prefix() {
        let v = l.skip(5);
        Some(
            if v.len() > 0 && v[0] == 32u8 {
                v.drop_first()
            } else {
                v
            },
        )
    } else {
        None
    }
}

/// Adds the value of `line`, if it is a `data:` line, to the payload
/// gathered so far; a `\n` separates it from a non-empty payload.
pub open spec fn append_data(acc: Seq<u8>, line: Seq<u8>) -> Seq<u8> {
    match data_field_value(line) {
        Some(v) => if acc.len() == 0 {
            v
        } else {
            acc + seq![10u8] + v
        },
        None => acc,
    }
}

/// Folds `append_data` over `ls`, from the first line to the last.
pub open spec fn fold_data(acc: Seq<u8>, ls: Seq<Seq<u8>>) -> Seq<u8>
    decreases ls.len(),
{
    if ls.len() == 0 {
        acc
    } else {
        fold_data(append_data(acc, ls[0]), ls.drop_first())
    }
}

/// The payload of one raw event: its `data:` values.
pub open spec fn sse_data(raw: Seq<u8>) -> Seq<u8> {
    fold_data(seq![], lines(raw))
}

/// The payloads of raw events, those that are empty left out.
pub open spec fn event_payloads(raws: Seq<Seq<u8>>) -> Seq<Seq<u8>>
    decreases raws.len(),
{
    if raws.len() == 0 {
        seq![]
    } else {
        let d = sse_data(raws[0]);
        (if d.len() == 0 {
            seq![]
        } else {
            seq![d]
        }) + event_payloads(raws.drop_first())
    }
}

/// ASCII whitespace as `u8::is_ascii_whitespace` defines it.
pub open spec fn is_ascii_ws(b: u8) -> bool {
    b == 9u8 || b == 10u8 || b == 12u8 || b == 13u8 || b == 32u8
}

/// What a decoder holding `pending` yields when the stream ends: the
/// payloads of the complete events, then the payload of the remainder
/// unless the remainder is only ASCII whitespace.
pub open spec fn final_payloads(pending: Seq<u8>) -> Seq<Seq<u8>> {
    let (raws, rest) = split_events(pending);
    event_payloads(raws) + if forall|i: int| 0 <= i < rest.len() ==> is_ascii_ws(#[trigger] rest[i]) {
        Seq::<Seq<u8>>::empty()
    } else {
        seq![sse_data(rest)]
    }
}

/// What pushing `chunk` into a decoder holding `pending` yields: the
/// payloads of the events completed, and the new pending bytes.
pub open spec fn push_result(pending: Seq<u8>, chunk: Seq<u8>) -> (Seq<Seq<u8>>, Seq<u8>) {
    let (raws, rest) = split_events(pending + chunk);
    (event_payloads(raws), rest)
}

// ---------------------------------------------------------------------------
// Lemmas
// ---------------------------------------------------------------------------

proof fn lemma_separator_from_bounds(s: Seq<u8>, i: int)
    ensures
        separator_from(s, i) matches Some((p, l)) ==> {
            &&& i <= p
            &&& 0 <= p
            &&& l == 2 || l == 4
            &&& p + l <= s.len()
            &&& separator_len_at(s, p) == l
            &&& forall|j: int| i <= j < p ==> separator_len_at(s, j) == 0
        },
        separator_from(s, i) is None ==> forall|j: int|
            0 <= i <= j ==> #[trigger] separator_len_at(s, j) == 0,
    decreases s.len() - i,
{
    if i < 0 || i + 1 >= s.len() {
    } else if separator_len_at(s, i) > 0 {
    } else {
        lemma_separator_from_bounds(s, i + 1);
    }
}

proof fn lemma_separator_from_zero_prefix(s: Seq<u8>, i: int, p: int)
    requires
        0 <= i <= p,
        p + 1 < s.len(),
        forall|j: int| i <= j < p ==> separator_len_at(s, j) == 0,
        separator_len_at(s, p) > 0,
    ensures
        separator_from(s, i) == Some((p, separator_len_at(s, p))),
    decreases p - i,
{
    if i < p {
        lemma_separator_from_zero_prefix(s, i + 1, p);
    }
}

proof fn lemma_separator_none(s: Seq<u8>, i: int)
    requires
        0 <= i,
        forall|j: int| i <= j ==> #[trigger] separator_len_at(s, j) == 0,
    ensures
        separator_from(s, i) is None,
    decreases s.len() - i,
{
    if i + 1 < s.len() {
        lemma_separator_none(s, i + 1);
    }
}

/// A separator found in `a` is still the first separator once more bytes follow.
proof fn lemma_first_separator_stable(a: Seq<u8>, b: Seq<u8>)
    requires
        first_separator(a) is Some,
    ensures
        first_separator(a + b) == first_separator(a),
{
    lemma_separator_from_bounds(a, 0);
    let (p, l) = first_separator(a).unwrap();
    let ab = a + b;
    assert forall|j: int| 0 <= j < p implies separator_len_at(ab, j) == 0 by {
        assert(separator_len_at(a, j) == 0);
        if j + 4 > a.len() {
            // only a `\r\n\r\n` at p - 1 could reach past the end of `a`
            if j + 4 <= ab.len() && ab[j] == 13u8 && ab[j + 1] == 10u8 && ab[j + 2] == 13u8
                && ab[j + 3] == 10u8 {
                assert(j == p - 1);
                assert(ab[p] == a[p]);
                assert(ab[p + 1] == a[p + 1]);
            }
        } else {
            assert(ab[j] == a[j]);
            assert(ab[j + 1] == a[j + 1]);
            assert(ab[j + 2] == a[j + 2]);
            assert(ab[j + 3] == a[j + 3]);
        }
    }
    assert(ab[p] == a[p]);
    assert(ab[p + 1] == a[p + 1]);
    if l == 4 {
        assert(ab[p + 2] == a[p + 2]);
        assert(ab[p + 3] == a[p + 3]);
    }
    assert(separator_len_at(ab, p) == l);
    lemma_separator_from_zero_prefix(ab, 0, p);
}

/// Splitting `a + b` is splitting `a`, then splitting its remainder followed by `b`.
pub proof fn lemma_split_events_append(a: Seq<u8>, b: Seq<u8>)
    ensures
        split_events(a + b) == ({
            let (ra, pa) = split_events(a);
            let (rb, pb) = split_events(pa + b);
            (ra + rb, pb)
        }),
    decreases a.len(),
{
    lemma_separator_from_bounds(a, 0);
    match first_separator(a) {
        Some((p, l)) => {
            lemma_first_separator_stable(a, b);
            let ab = a + b;
            assert(ab.skip(p + l) =~= a.skip(p + l) + b);
            assert(ab.take(p) =~= a.take(p));
            lemma_split_events_append(a.skip(p + l), b);
            let (ra, pa) = split_events(a.skip(p + l));
            let (rb, pb) = split_events(pa + b);
            assert(seq![a.take(p)] + (ra + rb) =~= (seq![a.take(p)] + ra) + rb);
        },
        None => {
            assert(Seq::<Seq<u8>>::empty() + split_events(a + b).0 =~= split_events(a + b).0);
        },
    }
}

/// The remainder left by `split_events` holds no separator.
pub proof fn lemma_split_rest_has_no_separator(s: Seq<u8>)
    ensures
        first_separator(split_events(s).1) is None,
    decreases s.len(),
{
    lemma_separator_from_bounds(s, 0);
    if let Some((p, l)) = first_separator(s) {
        lemma_split_rest_has_no_separator(s.skip(p + l));
    }
}

/// Bytes without a separator are all remainder.
pub proof fn lemma_split_without_separator(s: Seq<u8>)
    requires
        first_separator(s) is None,
    ensures
        split_events(s) == (Seq::<Seq<u8>>::empty(), s),
{
}

pub proof fn lemma_event_payloads_append(a: Seq<Seq<u8>>, b: Seq<Seq<u8>>)
    ensures
        event_payloads(a + b) == event_payloads(a) + event_payloads(b),
    decreases a.len(),
{
    if a.len() == 0 {
        assert(a + b =~= b);
        assert(Seq::<Seq<u8>>::empty() + event_payloads(b) =~= event_payloads(b));
    } else {
        assert((a + b).drop_first() =~= a.drop_first() + b);
        assert((a + b)[0] == a[0]);
        lemma_event_payloads_append(a.drop_first(), b);
        let d = sse_data(a[0]);
        let head: Seq<Seq<u8>> = if d.len() == 0 {
            seq![]
        } else {
            seq![d]
        };
        assert(head + (event_payloads(a.drop_first()) + event_payloads(b)) =~= (head
            + event_payloads(a.drop_first())) + event_payloads(b));
    }
}

proof fn lemma_line_end(s: Seq<u8>, i: int, e: int)
    requires
        0 <= i <= e <= s.len(),
        forall|k: int| i <= k < e ==> s[k] != 10u8,
        e == s.len() || s[e] == 10u8,
    ensures
        line_end(s, i) == e,
    decreases e - i,
{
    if i < e {
        lemma_line_end(s, i + 1, e);
    }
}

// ---------------------------------------------------------------------------
// Executable code
// ---------------------------------------------------------------------------

/// Finds the first event separator in `buffer`: its position and length.
pub fn find_event_boundary(buffer: &[u8]) -> (found: Option<(usize, usize)>)
    ensures
        found is Some <==> first_separator(buffer@) is Some,
        found matches Some((p, l)) ==> first_separator(buffer@) == Some((p as int, l as int)),
{
    let n = buffer.len();
    if n < 2 {
        return None;
    }
    let mut index: usize = 0;
    while index < n - 1
        invariant
            n == buffer@.len(),
            2 <= n,
            index <= n - 1,
            separator_from(buffer@, 0) == separator_from(buffer@, index as int),
        decreases n - index,
    {
        if buffer[index] == 10u8 && buffer[index + 1] == 10u8 {
            return Some((index, 2));
        }
        if n - index > 3 && buffer[index] == 13u8 && buffer[index + 1] == 10u8 && buffer[index + 2]
            == 13u8 && buffer[index + 3] == 10u8 {
            return Some((index, 4));
        }
        index = index + 1;
    }
    None
}

/// Adds the value of the line `raw[start..end]` to `data` when it is a
/// `data:` line.
fn append_data_line(data: &mut Vec<u8>, raw: &[u8], start: usize, end: usize)
    requires
        start <= end <= raw@.len(),
    ensures
        final(data)@ == append_data(old(data)@, raw@.subrange(start as int, end as int)),
{
    let ghost line = raw@.subrange(start as int, end as int);
    let mut stop = end;
    if stop > start && raw[stop - 1] == 13u8 {
        stop = stop - 1;
    }
    assert(strip_cr(line) =~= raw@.subrange(start as int, stop as int));
    if stop - start >= 5 && raw[start] == 100u8 && raw[start + 1] == 97u8 && raw[start + 2] == 116u8
        && raw[start + 3] == 97u8 && raw[start + 4] == 58u8 {
        assert(strip_cr(line).take(5) =~= data_prefix());
        let mut from = start + 5;
        if from < stop && raw[from] == 32u8 {
            from = from + 1;
        }
        assert(data_field_value(line) == Some(raw@.subrange(from as int, stop as int)));
        if data.len() > 0 {
            data.push(10u8);
        }
        let ghost before = data@;
        let mut k = from;
        while k < stop
            invariant
                from <= k <= stop <= raw@.len(),
                data@ == before + raw@.subrange(from as int, k as int),
            decreases stop - k,
        {
            data.push(raw[k]);
            assert(raw@.subrange(from as int, k + 1) =~= raw@.subrange(from as int, k as int).push(
                raw@[k as int],
            ));
            k = k + 1;
        }
        assert(before =~= if old(data)@.len() == 0 {
            old(data)@
        } else {
            old(data)@ + seq![10u8]
        });
        proof {
            if old(data)@.len() == 0 {
                assert(old(data)@ + raw@.subrange(from as int, stop as int) =~= raw@.subrange(
                    from as int,
                    stop as int,
                ));
            }
        }
    } else {
        proof {
            if strip_cr(line).len() >= 5 && strip_cr(line).take(5) == data_prefix() {
                assert(strip_cr(line).take(5)[0] == data_prefix()[0]);
                assert(strip_cr(line).take(5)[1] == data_prefix()[1]);
                assert(strip_cr(line).take(5)[2] == data_prefix()[2]);
                assert(strip_cr(line).take(5)[3] == data_prefix()[3]);
                assert(strip_cr(line).take(5)[4] == data_prefix()[4]);
                assert(false);
            }
        }
    }
}

/// Extracts the payload of one raw event: its `data:` values joined by `\n`.
pub fn extract_sse_data(raw_event: &[u8]) -> (data: Vec<u8>)
    ensures
        data@ == sse_data(raw_event@),
{
    let mut data: Vec<u8> = Vec::new();
    let n = raw_event.len();
    let mut start: usize = 0;
    assert(raw_event@.skip(0) =~= raw_event@);
    loop
        invariant_except_break
            start <= n,
            n == raw_event@.len(),
            fold_data(data@, lines(raw_event@.skip(start as int))) == sse_data(raw_event@),
        ensures
            data@ == sse_data(raw_event@),
        decreases n - start,
    {
        let mut end = start;
        while end < n && raw_event[end] != 10u8
            invariant
                start <= end <= n,
                n == raw_event@.len(),
                forall|k: int| start <= k < end ==> raw_event@[k] != 10u8,
            decreases n - end,
        {
            end = end + 1;
        }
        let ghost rest = raw_event@.skip(start as int);
        let ghost line = raw_event@.subrange(start as int, end as int);
        proof {
            lemma_line_end(rest, 0, end - start);
        }
        let ghost acc = data@;
        append_data_line(&mut data, raw_event, start, end);
        proof {
            assert(lines(rest).len() > 0);
            if end == n {
                assert(rest =~= line);
            } else {
                assert(rest.take(end - start) =~= line);
            }
            assert(lines(rest)[0] == line);
        }
        if end == n {
            assert(rest =~= line);
            assert(lines(rest) == seq![rest]);
            assert(lines(rest).drop_first() =~= Seq::<Seq<u8>>::empty());
            assert(fold_data(acc, lines(rest)) == fold_data(
                append_data(acc, line),
                lines(rest).drop_first(),
            ));
            assert(fold_data(append_data(acc, line), Seq::<Seq<u8>>::empty()) == append_data(
                acc,
                line,
            ));
            break ;
        }
        assert(rest.take(end - start) =~= line);
        assert(rest.skip(end - start + 1) =~= raw_event@.skip(end + 1));
        assert(lines(rest) == seq![line] + lines(raw_event@.skip(end + 1)));
        assert(lines(rest).drop_first() =~= lines(raw_event@.skip(end + 1)));
        start = end + 1;
    }
    data
}

/// Splits every complete event off `buffer`, returning the non-empty
/// payloads and the bytes that follow the last separator.
fn drain_events(buffer: Vec<u8>) -> (res: (Vec<Vec<u8>>, Vec<u8>))
    ensures
        res.0.deep_view() == event_payloads(split_events(buffer@).0),
        res.1@ == split_events(buffer@).1,
{
    let mut events: Vec<Vec<u8>> = Vec::new();
    let mut buf = buffer;
    loop
        invariant_except_break
            events.deep_view() + event_payloads(split_events(buf@).0) == event_payloads(
                split_events(buffer@).0,
            ),
            split_events(buf@).1 == split_events(buffer@).1,
        ensures
            events.deep_view() == event_payloads(split_events(buffer@).0),
            buf@ == split_events(buffer@).1,
        decreases buf@.len(),
    {
        match find_event_boundary(buf.as_slice()) {
            Some((start, length)) => {
                proof {
                    lemma_separator_from_bounds(buf@, 0);
                }
                let total = buf.len();
                let ghost whole = buf@;
                assert(first_separator(whole) == Some((start as int, length as int)));
                assert(start + length <= total);
                let mut head = buf;
                let tail = head.split_off(start + length);
                head.truncate(start);
                assert(head@ =~= whole.take(start as int));
                assert(tail@ =~= whole.skip(start + length));
                let data = extract_sse_data(head.as_slice());
                let ghost before = events.deep_view();
                let ghost rest_raws = split_events(tail@).0;
                assert(split_events(whole).0 == seq![head@] + rest_raws);
                assert((seq![head@] + rest_raws).drop_first() =~= rest_raws);
                assert((seq![head@] + rest_raws)[0] == head@);
                if data.len() > 0 {
                    assert(data.deep_view() =~= data@);
                    events.push(data);
                    assert(events.deep_view() =~= before + seq![data@]);
                    assert(before + (seq![data@] + event_payloads(rest_raws)) =~= (before
                        + seq![data@]) + event_payloads(rest_raws));
                } else {
                    assert(events.deep_view() =~= before);
                    assert(Seq::<Seq<u8>>::empty() + event_payloads(rest_raws) =~= event_payloads(
                        rest_raws,
                    ));
                }
                buf = tail;
            },
            None => {
                assert(split_events(buf@) == (Seq::<Seq<u8>>::empty(), buf@));
                assert(events.deep_view() + Seq::<Seq<u8>>::empty() =~= events.deep_view());
                break ;
            },
        }
    }
    (events, buf)
}

/// Incremental decoder for a `text/event-stream` body.
#[derive(Debug)]
pub struct SseDecoder {
    buffer: Vec<u8>,
}

impl SseDecoder {
    /// The bytes received that do not yet form a complete event.
    pub closed spec fn pending(&self) -> Seq<u8> {
        self.buffer@
    }

    /// A decoder that has received nothing.
    pub fn new() -> (decoder: Self)
        ensures
            decoder.pending() == Seq::<u8>::empty(),
    {
        SseDecoder { buffer: Vec::new() }
    }

    /// Appends `chunk` and returns the payloads of the events it completes.
    pub fn push(&mut self, chunk: &[u8]) -> (events: Vec<Vec<u8>>)
        ensures
            events.deep_view() == push_result(old(self).pending(), chunk@).0,
            final(self).pending() == push_result(old(self).pending(), chunk@).1,
            first_separator(final(self).pending()) is None,
    {
        let ghost before = self.buffer@;
        let mut k: usize = 0;
        while k < chunk.len()
            invariant
                k <= chunk@.len(),
                self.buffer@ == before + chunk@.take(k as int),
            decreases chunk@.len() - k,
        {
            self.buffer.push(chunk[k]);
            assert(chunk@.take(k + 1) =~= chunk@.take(k as int).push(chunk@[k as int]));
            k = k + 1;
        }
        assert(chunk@.take(chunk@.len() as int) =~= chunk@);
        proof {
            lemma_split_rest_has_no_separator(self.buffer@);
        }
        self.drain_complete_events()
    }

    /// Ends the stream: the payloads of the complete events, then that of
    /// the remainder unless it is only ASCII whitespace.
    pub fn finish(self) -> (events: Vec<Vec<u8>>)
        ensures
            events.deep_view() == final_payloads(self.pending()),
    {
        let mut decoder = self;
        let ghost pending = decoder.buffer@;
        let mut events = decoder.drain_complete_events();
        let n = decoder.buffer.len();
        let mut i: usize = 0;
        let mut blank = true;
        while i < n
            invariant
                n == decoder.buffer@.len(),
                i <= n,
                blank <==> forall|k: int| 0 <= k < i ==> is_ascii_ws(#[trigger] decoder.buffer@[k]),
            decreases n - i,
        {
            let b = decoder.buffer[i];
            if !(b == 9u8 || b == 10u8 || b == 12u8 || b == 13u8 || b == 32u8) {
                blank = false;
            }
            i = i + 1;
        }
        let ghost before = events.deep_view();
        if !blank {
            let data = extract_sse_data(decoder.buffer.as_slice());
            assert(data.deep_view() =~= data@);
            events.push(data);
            assert(events.deep_view() =~= before + seq![data@]);
        } else {
            assert(events.deep_view() =~= before + Seq::<Seq<u8>>::empty());
        }
        events
    }

    /// Removes every complete event from the buffer and returns the
    /// non-empty payloads.
    pub fn drain_complete_events(&mut self) -> (events: Vec<Vec<u8>>)
        ensures
            events.deep_view() == event_payloads(split_events(old(self).pending()).0),
            final(self).pending() == split_events(old(self).pending()).1,
    {
        let mut buffer: Vec<u8> = Vec::new();
        std::mem::swap(&mut buffer, &mut self.buffer);
        let (events, rest) = drain_events(buffer);
        self.buffer = rest;
        events
    }
}

impl Default for SseDecoder {
    fn default() -> (decoder: Self)
        ensures
            decoder.pending() == Seq::<u8>::empty(),
    {
        SseDecoder::new()
    }
}

// ---------------------------------------------------------------------------
// Laws
// ---------------------------------------------------------------------------

/// Chunking does not matter: pushing `c1` and then `c2` yields the same
/// payloads, and leaves the same pending bytes, as pushing `c1 + c2` at once.
pub proof fn law_push_is_independent_of_chunking(pending: Seq<u8>, c1: Seq<u8>, c2: Seq<u8>)
    ensures
        ({
            let (e1, p1) = push_result(pending, c1);
            let (e2, p2) = push_result(p1, c2);
            (e1 + e2, p2)
        }) == push_result(pending, c1 + c2),
{
    let a = pending + c1;
    assert(pending + (c1 + c2) =~= a + c2);
    lemma_split_events_append(a, c2);
    let (ra, pa) = split_events(a);
    let (rb, pb) = split_events(pa + c2);
    lemma_event_payloads_append(ra, rb);
}

/// Ending the stream right after a push gives what ending it with the
/// chunk still pending gives: `push(c)` followed by `finish` yields
/// `final_payloads(pending + c)`.
pub proof fn law_finish_after_push(pending: Seq<u8>, chunk: Seq<u8>)
    ensures
        push_result(pending, chunk).0 + final_payloads(push_result(pending, chunk).1)
            == final_payloads(pending + chunk),
{
    let s = pending + chunk;
    let (raws, rest) = split_events(s);
    lemma_split_rest_has_no_separator(s);
    lemma_split_without_separator(rest);
    let tail: Seq<Seq<u8>> = if forall|i: int| 0 <= i < rest.len() ==> is_ascii_ws(#[trigger] rest[i]) {
        Seq::<Seq<u8>>::empty()
    } else {
        seq![sse_data(rest)]
    };
    assert(event_payloads(Seq::<Seq<u8>>::empty()) =~= Seq::<Seq<u8>>::empty());
    assert(final_payloads(rest) =~= tail);
}

/// After every push the decoder holds no complete event.
pub proof fn law_pending_never_holds_a_complete_event(pending: Seq<u8>, chunk: Seq<u8>)
    ensures
        first_separator(push_result(pending, chunk).1) is None,
{
    lemma_split_rest_has_no_separator(pending + chunk);
}

/// The bytes of `chunks`, one chunk after the other.
pub open spec fn concat_chunks(chunks: Seq<Seq<u8>>) -> Seq<u8>
    decreases chunks.len(),
{
    if chunks.len() == 0 {
        seq![]
    } else {
        concat_chunks(chunks.drop_last()) + chunks.last()
    }
}

/// What pushing `chunks` one after the other into a decoder holding
/// `pending` yields: all the payloads, and the final pending bytes.
pub open spec fn push_all(pending: Seq<u8>, chunks: Seq<Seq<u8>>) -> (Seq<Seq<u8>>, Seq<u8>)
    decreases chunks.len(),
{
    if chunks.len() == 0 {
        (seq![], pending)
    } else {
        let (events, rest) = push_all(pending, chunks.drop_last());
        let (more, last_rest) = push_result(rest, chunks.last());
        (events + more, last_rest)
    }
}

/// Pushing any number of chunks one after the other into a decoder yields the
/// same payloads, and leaves the same pending bytes, as pushing their
/// concatenation at once. `pending` is what a decoder may hold: bytes with
/// no complete event in them.
pub proof fn law_pushes_equal_one_push(pending: Seq<u8>, chunks: Seq<Seq<u8>>)
    requires
        first_separator(pending) is None,
    ensures
        push_all(pending, chunks) == push_result(pending, concat_chunks(chunks)),
    decreases chunks.len(),
{
    if chunks.len() == 0 {
        assert(pending + Seq::<u8>::empty() =~= pending);
        lemma_split_without_separator(pending);
        assert(event_payloads(Seq::<Seq<u8>>::empty()) =~= Seq::<Seq<u8>>::empty());
    } else {
        law_pushes_equal_one_push(pending, chunks.drop_last());
        law_push_is_independent_of_chunking(
            pending,
            concat_chunks(chunks.drop_last()),
            chunks.last(),
        );
    }
}

/// A stream decodes to the same payloads however it is cut into chunks:
/// pushing the chunks one by one into a new decoder and then finishing it
/// yields `final_payloads` of the whole stream.
pub proof fn law_stream_decoding_ignores_chunking(chunks: Seq<Seq<u8>>)
    ensures
        ({
            let (events, pending) = push_all(Seq::<u8>::empty(), chunks);
            events + final_payloads(pending)
        }) == final_payloads(concat_chunks(chunks)),
{
    let empty = Seq::<u8>::empty();
    lemma_separator_none(empty, 0);
    law_pushes_equal_one_push(empty, chunks);
    law_finish_after_push(empty, concat_chunks(chunks));
    assert(empty + concat_chunks(chunks) =~= concat_chunks(chunks));
}

} // verus!
