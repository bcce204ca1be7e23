//! Reading log records (newline-terminated lines) with a bound on how much
//! of one record is kept, so that a malformed endless line cannot grow
//! memory. The decisions are step functions over the bytes a buffered
//! reader has available; `ByteReader` runs them over bytes in memory.

use vstd::prelude::*;

verus! {

/// Bytes of one record that are kept.
pub const MAX_LOG_RECORD_BYTES: usize = 65536;

/// The newline byte.
pub const NEWLINE: u8 = 10;

/// What a reading step decided.
#[derive(Clone, Copy, Debug, PartialEq, Eq, Structural)]
pub enum RecordOutcome {
    /// The record is complete: `None` at the end of input with nothing read,
    /// otherwise whether it was truncated.
    Finished(Option<bool>),
    /// The record goes on in the next bytes.
    Continue,
    /// The record was truncated; the rest of its line must be skipped.
    SkipRest,
}

/// How many available bytes to consume, and what was decided.
#[derive(Clone, Copy, Debug, PartialEq, Eq, Structural)]
pub struct RecordStep {
    pub consumed: usize,
    pub outcome: RecordOutcome,
}

/// The position of the first newline in `s`, if any.
pub open spec fn spec_first_newline(s: Seq<u8>) -> Option<int>
    decreases s.len(),
{
    if s.len() == 0 {
        None
    } else if s[0] == NEWLINE {
        Some(0)
    } else {
        match spec_first_newline(s.drop_first()) {
            Some(k) => Some(k + 1),
            None => None,
        }
    }
}

proof fn lemma_first_newline(s: Seq<u8>)
    ensures
        spec_first_newline(s) matches Some(k) ==> 0 <= k < s.len() && s[k] == NEWLINE && forall|j: int| 0 <= j < k ==> s[j] != NEWLINE,
        spec_first_newline(s) is None ==> forall|j: int| 0 <= j < s.len() ==> s[j] != NEWLINE,
    decreases s.len(),
{
    if s.len() > 0 {
        lemma_first_newline(s.drop_first());
        if s[0] != NEWLINE {
            assert forall|j: int| 0 < j < s.len() implies s[j] == s.drop_first()[j - 1] by {}
        }
    }
}

/// Finds the first newline of `s`.
fn first_newline(s: &[u8]) -> (r: Option<usize>)
    ensures
        match r {
            Some(k) => spec_first_newline(s@) == Some(k as int),
            None => spec_first_newline(s@) is None,
        },
        r matches Some(k) ==> k < s@.len() && s@[k as int] == NEWLINE && forall|j: int| 0 <= j < k ==> s@[j] != NEWLINE,
        r is None ==> forall|j: int| 0 <= j < s@.len() ==> s@[j] != NEWLINE,
{
    proof {
        lemma_first_newline(s@);
    }
    let mut i: usize = 0;
    while i < s.len()
        invariant
            i <= s@.len(),
            forall|j: int| 0 <= j < i ==> s@[j] != NEWLINE,
        decreases s@.len() - i,
    {
        if s[i] == NEWLINE {
            proof {
                lemma_first_newline(s@);
                assert(s@[i as int] == NEWLINE);
                match spec_first_newline(s@) {
                    Some(k) => {
                        if k < i {
                            assert(s@[k] != NEWLINE);
                        } else if k > i {
                            assert(s@[i as int] != NEWLINE);
                        }
                    },
                    None => {
                        assert(s@[i as int] != NEWLINE);
                    },
                }
            }
            return Some(i);
        }
        i = i + 1;
    }
    proof {
        lemma_first_newline(s@);
        match spec_first_newline(s@) {
            Some(k) => {
                assert(s@[k] != NEWLINE);
            },
            None => {},
        }
    }
    None
}

/// Appends `bytes` to `out`.
fn extend(out: &mut Vec<u8>, bytes: &[u8])
    ensures
        final(out)@ == old(out)@ + bytes@,
{
    let ghost start = out@;
    let mut i: usize = 0;
    while i < bytes.len()
        invariant
            i <= bytes@.len(),
            out@ == start + bytes@.take(i as int),
        decreases bytes@.len() - i,
    {
        out.push(bytes[i]);
        proof {
            assert(bytes@.take(i + 1) == bytes@.take(i as int).push(bytes@[i as int]));
        }
        i = i + 1;
    }
    proof {
        assert(bytes@.take(bytes@.len() as int) == bytes@);
    }
}

/// The record and step after reading from `available`.
pub open spec fn spec_record_step(record: Seq<u8>, available: Seq<u8>) -> (Seq<u8>, RecordStep) {
    if available.len() == 0 {
        (record, RecordStep {
            consumed: 0,
            outcome: RecordOutcome::Finished(if record.len() == 0 { None } else { Some(false) }),
        })
    } else {
        let newline = spec_first_newline(available);
        let available_record = match newline {
            Some(k) => k + 1,
            None => available.len() as int,
        };
        let remaining = MAX_LOG_RECORD_BYTES - record.len();
        let copied = if available_record <= remaining { available_record } else { remaining };
        let outcome = if available_record > remaining {
            if newline is None { RecordOutcome::SkipRest } else { RecordOutcome::Finished(Some(true)) }
        } else if newline is Some {
            RecordOutcome::Finished(Some(false))
        } else {
            RecordOutcome::Continue
        };
        (record + available.take(copied), RecordStep { consumed: available_record as usize, outcome })
    }
}

/// One step of reading a record: copies what fits of the available part of
/// the current line into `record`.
pub fn record_step(available: &[u8], record: &mut Vec<u8>) -> (step: RecordStep)
    requires
        old(record)@.len() <= MAX_LOG_RECORD_BYTES,
    ensures
        final(record)@ == spec_record_step(old(record)@, available@).0,
        step == spec_record_step(old(record)@, available@).1,
        final(record)@.len() <= MAX_LOG_RECORD_BYTES,
        step.consumed <= available@.len(),
{
    if available.len() == 0 {
        let outcome = RecordOutcome::Finished(if record.len() == 0 { None } else { Some(false) });
        return RecordStep { consumed: 0, outcome };
    }
    let newline = first_newline(available);
    let available_record: usize = match newline {
        Some(k) => k + 1,
        None => available.len(),
    };
    let remaining: usize = MAX_LOG_RECORD_BYTES - record.len();
    let copied: usize = if available_record <= remaining { available_record } else { remaining };
    extend(record, &available[0..copied]);
    proof {
        assert(available@.subrange(0, copied as int) == available@.take(copied as int));
    }
    let outcome = if available_record > remaining {
        if newline.is_none() { RecordOutcome::SkipRest } else { RecordOutcome::Finished(Some(true)) }
    } else if newline.is_some() {
        RecordOutcome::Finished(Some(false))
    } else {
        RecordOutcome::Continue
    };
    RecordStep { consumed: available_record, outcome }
}

/// One step of skipping to the end of a line: how many bytes to consume, and
/// whether the line (or the input) has ended.
pub open spec fn spec_skip_step(available: Seq<u8>) -> (usize, bool) {
    if available.len() == 0 {
        (0, true)
    } else {
        match spec_first_newline(available) {
            Some(k) => ((k + 1) as usize, true),
            None => (available.len() as usize, false),
        }
    }
}

pub fn skip_step(available: &[u8]) -> (r: (usize, bool))
    ensures
        r == spec_skip_step(available@),
        r.0 <= available@.len(),
{
    if available.len() == 0 {
        return (0, true);
    }
    match first_newline(available) {
        Some(k) => (k + 1, true),
        None => (available.len(), false),
    }
}

/// A buffered reader over bytes in memory, handing out at most `capacity`
/// bytes at a time.
pub struct ByteReader {
    pub data: Vec<u8>,
    pub position: usize,
    pub capacity: usize,
}

/// The end of the line that starts at `p`: one past its newline, or the end.
pub open spec fn spec_line_end(d: Seq<u8>, p: int) -> int
    decreases d.len() - p,
{
    if p >= d.len() {
        d.len() as int
    } else if d[p] == NEWLINE {
        p + 1
    } else {
        spec_line_end(d, p + 1)
    }
}

proof fn lemma_line_end(d: Seq<u8>, p: int)
    requires
        0 <= p <= d.len(),
    ensures
        p <= spec_line_end(d, p) <= d.len(),
        forall|j: int| p <= j < spec_line_end(d, p) - 1 ==> d[j] != NEWLINE,
        spec_line_end(d, p) > p ==> (d[spec_line_end(d, p) - 1] == NEWLINE || spec_line_end(d, p) == d.len()),
        spec_line_end(d, p) == d.len() ==> forall|j: int| p <= j < d.len() - 1 ==> d[j] != NEWLINE,
    decreases d.len() - p,
{
    if p >= d.len() {
        assert(spec_line_end(d, p) == d.len());
    } else if d[p] == NEWLINE {
        assert(spec_line_end(d, p) == p + 1);
    } else {
        lemma_line_end(d, p + 1);
        assert(spec_line_end(d, p) == spec_line_end(d, p + 1));
        let e = spec_line_end(d, p);
        if e > p + 1 {
            assert(d[e - 1] == NEWLINE || e == d.len());
        } else {
            assert(e == p + 1);
            if p + 1 < d.len() {
                if d[p + 1] == NEWLINE {
                    assert(spec_line_end(d, p + 1) == p + 2);
                } else {
                    lemma_line_end(d, p + 2);
                    assert(spec_line_end(d, p + 1) == spec_line_end(d, p + 2));
                }
            }
            assert(e == d.len());
        }
    }
}

/// The line end is where a scan without newlines first meets one.
proof fn lemma_line_end_at(d: Seq<u8>, p: int, q: int)
    requires
        0 <= p <= q <= d.len(),
        forall|j: int| p <= j < q ==> d[j] != NEWLINE,
    ensures
        spec_line_end(d, p) == spec_line_end(d, q),
    decreases q - p,
{
    if p < q {
        lemma_line_end_at(d, p + 1, q);
    }
}

impl ByteReader {
    pub open spec fn wf(&self) -> bool {
        self.position <= self.data@.len() && self.capacity > 0
    }

    pub fn new(data: Vec<u8>, capacity: usize) -> (r: ByteReader)
        requires
            capacity > 0,
        ensures
            r.wf(),
            r.data@ == data@,
            r.position == 0,
            r.capacity == capacity,
    {
        ByteReader { data, position: 0, capacity }
    }

    /// The next available bytes (empty at the end).
    pub fn fill_buf(&self) -> (b: &[u8])
        requires
            self.wf(),
        ensures
            b@ == self.data@.subrange(
                self.position as int,
                if self.data@.len() - self.position <= self.capacity { self.data@.len() as int } else { self.position + self.capacity },
            ),
    {
        let end = if self.data.len() - self.position <= self.capacity {
            self.data.len()
        } else {
            self.position + self.capacity
        };
        &self.data.as_slice()[self.position..end]
    }

    /// Marks `n` available bytes as read.
    pub fn consume(&mut self, n: usize)
        requires
            old(self).wf(),
            old(self).position + n <= old(self).data@.len(),
        ensures
            final(self).wf(),
            final(self).position == old(self).position + n,
            final(self).data@ == old(self).data@,
            final(self).capacity == old(self).capacity,
    {
        let len = self.data.len();
        self.position = self.position + n;
    }

    /// Skips past the end of the current line.
    pub fn skip_to_record_end(&mut self)
        requires
            old(self).wf(),
        ensures
            final(self).wf(),
            final(self).data@ == old(self).data@,
            final(self).capacity == old(self).capacity,
            final(self).position == spec_line_end(old(self).data@, old(self).position as int),
    {
        let ghost d = self.data@;
        let ghost p0 = self.position as int;
        proof {
            lemma_line_end_at(d, p0, p0);
        }
        loop
            invariant
                self.wf(),
                self.data@ == d,
                self.capacity == old(self).capacity,
                d == old(self).data@,
                p0 == old(self).position,
                p0 <= self.position,
                spec_line_end(d, p0) == spec_line_end(d, self.position as int),
            decreases d.len() - self.position,
        {
            let available = self.fill_buf();
            let (n, done) = skip_step(available);
            proof {
                let a = available@;
                let pos = self.position as int;
                lemma_first_newline(a);
                if a.len() == 0 {
                    assert(pos == d.len());
                } else {
                    match spec_first_newline(a) {
                        Some(k) => {
                            assert forall|j: int| pos <= j < pos + k implies d[j] != NEWLINE by {
                                assert(a[j - pos] == d[j]);
                            }
                            assert(d[pos + k] == NEWLINE) by {
                                assert(a[k] == d[pos + k]);
                            }
                            lemma_line_end_at(d, pos, pos + k);
                        },
                        None => {
                            assert forall|j: int| pos <= j < pos + a.len() implies d[j] != NEWLINE by {
                                assert(a[j - pos] == d[j]);
                            }
                            lemma_line_end_at(d, pos, pos + a.len());
                        },
                    }
                }
            }
            self.consume(n);
            if done {
                return;
            }
        }
    }
}

/// The line that starts at `p`, with its newline if it has one.
pub open spec fn spec_line(d: Seq<u8>, p: int) -> Seq<u8> {
    d.subrange(p, spec_line_end(d, p))
}

/// Reads the next record into `record`: its first `MAX_LOG_RECORD_BYTES`
/// bytes are kept and the reader moves past its end. Returns `None` at the
/// end of input, else whether the record was truncated.
pub fn read_bounded_record(reader: &mut ByteReader, record: &mut Vec<u8>) -> (r: Option<bool>)
    requires
        old(reader).wf(),
    ensures
        final(reader).wf(),
        final(reader).data@ == old(reader).data@,
        final(reader).capacity == old(reader).capacity,
        ({
            let d = old(reader).data@;
            let p = old(reader).position as int;
            let line = spec_line(d, p);
            &&& final(reader).position == spec_line_end(d, p)
            &&& final(record)@ == (if line.len() <= MAX_LOG_RECORD_BYTES { line } else { line.take(MAX_LOG_RECORD_BYTES as int) })
            &&& r == (if line.len() == 0 { None } else { Some(line.len() > MAX_LOG_RECORD_BYTES) })
        }),
{
    let ghost d = reader.data@;
    let ghost p0 = reader.position as int;
    record.clear();
    proof {
        lemma_line_end(d, p0);
    }
    loop
        invariant
            reader.wf(),
            reader.data@ == d,
            reader.capacity == old(reader).capacity,
            p0 <= reader.position,
            p0 == old(reader).position,
            d == old(reader).data@,
            record@ == d.subrange(p0, reader.position as int),
            record@.len() <= MAX_LOG_RECORD_BYTES,
            forall|j: int| p0 <= j < reader.position ==> d[j] != NEWLINE,
        decreases d.len() - reader.position,
    {
        let available = reader.fill_buf();
        let ghost before = record@;
        let ghost pos = reader.position as int;
        let step = record_step(available, record);
        proof {
            let a = available@;
            lemma_first_newline(a);
            lemma_line_end(d, p0);
            assert forall|j: int| 0 <= j < a.len() implies a[j] == d[pos + j] by {}
        }
        match step.outcome {
            RecordOutcome::Finished(result) => {
                proof {
                    let a = available@;
                    if a.len() == 0 {
                        assert(pos == d.len());
                        lemma_line_end_at(d, p0, pos);
                    } else {
                        let k = spec_first_newline(a)->Some_0;
                        assert forall|j: int| p0 <= j < pos + k implies d[j] != NEWLINE by {
                            if j >= pos {
                                assert(a[j - pos] == d[j]);
                            }
                        }
                        assert(d[pos + k] == NEWLINE);
                        lemma_line_end_at(d, p0, pos + k);
                        assert(spec_line_end(d, p0) == pos + k + 1);
                        if step.consumed as int > MAX_LOG_RECORD_BYTES - before.len() {
                            assert(record@ =~= spec_line(d, p0).take(MAX_LOG_RECORD_BYTES as int));
                        } else {
                            assert(record@ =~= spec_line(d, p0));
                        }
                    }
                }
                reader.consume(step.consumed);
                return result;
            },
            RecordOutcome::Continue => {
                proof {
                    let a = available@;
                    assert forall|j: int| p0 <= j < pos + a.len() implies d[j] != NEWLINE by {
                        if j >= pos {
                            assert(a[j - pos] == d[j]);
                        }
                    }
                    assert(record@ =~= d.subrange(p0, pos + a.len()));
                }
                reader.consume(step.consumed);
            },
            RecordOutcome::SkipRest => {
                let ghost kept = record@;
                proof {
                    let a = available@;
                    assert forall|j: int| p0 <= j < pos + a.len() implies d[j] != NEWLINE by {
                        if j >= pos {
                            assert(a[j - pos] == d[j]);
                        }
                    }
                    lemma_line_end_at(d, p0, pos + a.len());
                    lemma_line_end(d, pos + a.len());
                    assert(kept =~= spec_line(d, p0).take(MAX_LOG_RECORD_BYTES as int));
                }
                reader.consume(step.consumed);
                reader.skip_to_record_end();
                return Some(true);
            },
        }
    }
}

} // verus!
