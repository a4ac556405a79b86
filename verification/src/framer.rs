//! The line framer: cuts a raw byte stream into discrete wire records.
//!
//! Records are newline-delimited. A record is emitted only once a full
//! line is buffered; a partial line at the end of a chunk waits for the
//! next chunk. Each complete line is trimmed of surrounding whitespace;
//! lines that do not start with the `"data: "` marker (keep-alives,
//! comments) are dropped silently, and the payload after the marker is
//! the record.
//!
//! The framer is transparent to chunk boundaries: however the same bytes
//! are split into chunks, the emitted records are those of the whole
//! byte sequence, as [`frame_records`] defines them. The contracts of
//! [`LineFramer::push_chunk`] and [`LineFramer::next_record`] together
//! with [`lemma_drained_framer`] state exactly that.

use vstd::prelude::*;

verus! {

/// The line delimiter.
pub const NL: u8 = 10;

/// Whitespace bytes stripped from both ends of a line.
pub open spec fn is_ws(b: u8) -> bool {
    b == 32 || b == 9 || b == 13 || b == 10
}

/// Index of the first newline in `s`, or `s.len()` when there is none.
pub open spec fn find_nl(s: Seq<u8>) -> int
    decreases s.len(),
{
    if s.len() == 0 {
        0
    } else if s[0] == NL {
        0
    } else {
        1 + find_nl(s.drop_first())
    }
}

pub open spec fn trim_front(s: Seq<u8>) -> Seq<u8>
    decreases s.len(),
{
    if s.len() > 0 && is_ws(s[0]) {
        trim_front(s.drop_first())
    } else {
        s
    }
}

pub open spec fn trim_back(s: Seq<u8>) -> Seq<u8>
    decreases s.len(),
{
    if s.len() > 0 && is_ws(s.last()) {
        trim_back(s.drop_last())
    } else {
        s
    }
}

/// A line with surrounding whitespace removed.
pub open spec fn trim_bytes(s: Seq<u8>) -> Seq<u8> {
    trim_back(trim_front(s))
}

/// The record marker that a data-bearing line starts with: `"data: "`.
pub open spec fn data_prefix() -> Seq<u8> {
    seq![100u8, 97u8, 116u8, 97u8, 58u8, 32u8]
}

/// Does a trimmed line carry a record?
pub open spec fn is_data_line(l: Seq<u8>) -> bool {
    l.len() >= 6 && l.subrange(0, 6) == data_prefix()
}

/// The record carried by a trimmed data line: what follows the marker.
pub open spec fn payload_of(l: Seq<u8>) -> Seq<u8> {
    l.subrange(6, l.len() as int)
}

/// The records one complete line contributes: one for a data line,
/// none for anything else.
pub open spec fn line_records(line: Seq<u8>) -> Seq<Seq<u8>> {
    if is_data_line(trim_bytes(line)) {
        seq![payload_of(trim_bytes(line))]
    } else {
        Seq::empty()
    }
}

/// The records framed out of a byte sequence delivered as one chunk:
/// each newline closes a line; bytes after the last newline are not a
/// record yet.
pub open spec fn frame_records(s: Seq<u8>) -> Seq<Seq<u8>>
    decreases s.len(),
{
    let p = find_nl(s);
    if 0 <= p < s.len() {
        line_records(s.subrange(0, p)) + frame_records(s.subrange(p + 1, s.len() as int))
    } else {
        Seq::empty()
    }
}

/// A byte sequence that ends exactly at a line boundary.
pub open spec fn line_closed(s: Seq<u8>) -> bool {
    s.len() == 0 || s.last() == NL
}

proof fn lemma_find_nl_bounds(s: Seq<u8>)
    ensures
        0 <= find_nl(s) <= s.len(),
        forall|j: int| 0 <= j < find_nl(s) ==> s[j] != NL,
        find_nl(s) < s.len() ==> s[find_nl(s)] == NL,
    decreases s.len(),
{
    if s.len() == 0 || s[0] == NL {
    } else {
        lemma_find_nl_bounds(s.drop_first());
        assert forall|j: int| 0 <= j < find_nl(s) implies s[j] != NL by {
            if j > 0 {
                assert(s.drop_first()[j - 1] != NL);
                assert(s[j] == s.drop_first()[j - 1]);
            }
        }
    }
}

/// A position with no newline before it and a newline (or the end) at it
/// is where `find_nl` points.
proof fn lemma_find_nl_at(s: Seq<u8>, i: int)
    requires
        0 <= i <= s.len(),
        forall|j: int| 0 <= j < i ==> s[j] != NL,
        i < s.len() ==> s[i] == NL,
    ensures
        find_nl(s) == i,
    decreases s.len(),
{
    if s.len() == 0 {
    } else if s[0] == NL {
    } else {
        assert(i > 0);
        assert(forall|j: int| 0 <= j < i - 1 ==> s.drop_first()[j] != NL);
        lemma_find_nl_at(s.drop_first(), i - 1);
    }
}

proof fn lemma_find_nl_append_found(a: Seq<u8>, b: Seq<u8>)
    requires
        find_nl(a) < a.len(),
    ensures
        find_nl(a + b) == find_nl(a),
{
    lemma_find_nl_bounds(a);
    assert(forall|j: int| 0 <= j < find_nl(a) ==> (a + b)[j] != NL);
    assert((a + b)[find_nl(a)] == NL);
    lemma_find_nl_at(a + b, find_nl(a));
}

proof fn lemma_find_nl_append_none(a: Seq<u8>, b: Seq<u8>)
    requires
        find_nl(a) == a.len(),
    ensures
        find_nl(a + b) == a.len() + find_nl(b),
{
    lemma_find_nl_bounds(a);
    lemma_find_nl_bounds(b);
    assert(forall|j: int| 0 <= j < a.len() + find_nl(b) ==> (a + b)[j] != NL);
    if find_nl(b) < b.len() {
        assert((a + b)[a.len() + find_nl(b)] == NL);
    }
    lemma_find_nl_at(a + b, a.len() + find_nl(b));
}

/// Framing distributes over a split at a line boundary.
pub proof fn lemma_frame_records_split(a: Seq<u8>, b: Seq<u8>)
    requires
        line_closed(a),
    ensures
        frame_records(a + b) == frame_records(a) + frame_records(b),
    decreases a.len(),
{
    if a.len() == 0 {
        assert(a + b =~= b);
        assert(frame_records(a) =~= Seq::<Seq<u8>>::empty());
        assert(frame_records(a) + frame_records(b) =~= frame_records(b));
    } else {
        lemma_find_nl_bounds(a);
        let p = find_nl(a);
        assert(p < a.len()) by {
            if p == a.len() {
                assert(a[a.len() - 1] != NL);
            }
        }
        lemma_find_nl_append_found(a, b);
        let a2 = a.subrange(p + 1, a.len() as int);
        assert((a + b).subrange(0, p) =~= a.subrange(0, p));
        assert((a + b).subrange(p + 1, (a + b).len() as int) =~= a2 + b);
        assert(line_closed(a2)) by {
            if a2.len() > 0 {
                assert(a2.last() == a.last());
            }
        }
        lemma_frame_records_split(a2, b);
        assert(frame_records(a + b) == line_records(a.subrange(0, p)) + (frame_records(a2)
            + frame_records(b)));
        assert(frame_records(a) == line_records(a.subrange(0, p)) + frame_records(a2));
        assert(line_records(a.subrange(0, p)) + (frame_records(a2) + frame_records(b))
            =~= (line_records(a.subrange(0, p)) + frame_records(a2)) + frame_records(b));
    }
}

/// One newline-terminated line frames to exactly its own records.
proof fn lemma_frame_records_one_line(l: Seq<u8>)
    requires
        find_nl(l) == l.len(),
    ensures
        frame_records(l + seq![NL]) == line_records(l),
{
    lemma_find_nl_append_none(l, seq![NL]);
    assert(find_nl(seq![NL]) == 0);
    let w = l + seq![NL];
    assert(find_nl(w) == l.len());
    assert(w.subrange(0, l.len() as int) =~= l);
    assert(w.subrange(l.len() as int + 1, w.len() as int) =~= Seq::<u8>::empty());
    assert(frame_records(Seq::<u8>::empty()) =~= Seq::<Seq<u8>>::empty());
    assert(line_records(l) + Seq::<Seq<u8>>::empty() =~= line_records(l));
}

/// The framer. It owns the bytes not yet cut into lines and remembers,
/// in ghost state, everything it was fed and everything it emitted.
pub struct LineFramer {
    buf: Vec<u8>,
    done: Ghost<Seq<u8>>,
    out: Ghost<Seq<Seq<u8>>>,
}

impl LineFramer {
    /// Every byte this framer was ever fed, in order.
    pub closed spec fn fed(self) -> Seq<u8> {
        self.done@ + self.buf@
    }

    /// Every record this framer ever emitted, in order.
    pub closed spec fn emitted(self) -> Seq<Seq<u8>> {
        self.out@
    }

    /// The bytes still buffered: everything after the last consumed line.
    pub closed spec fn pending(self) -> Seq<u8> {
        self.buf@
    }

    pub closed spec fn wf(self) -> bool {
        &&& line_closed(self.done@)
        &&& self.out@ == frame_records(self.done@)
    }

    pub fn new() -> (r: Self)
        ensures
            r.wf(),
            r.fed() == Seq::<u8>::empty(),
            r.emitted() == Seq::<Seq<u8>>::empty(),
    {
        let r = LineFramer { buf: Vec::new(), done: Ghost(Seq::empty()), out: Ghost(Seq::empty()) };
        proof {
            assert(r.fed() =~= Seq::<u8>::empty());
            assert(frame_records(Seq::<u8>::empty()) =~= Seq::<Seq<u8>>::empty());
        }
        r
    }

    /// Append one inbound chunk. No record is emitted here; the chunk
    /// only extends the fed bytes.
    pub fn push_chunk(&mut self, chunk: &[u8])
        requires
            old(self).wf(),
        ensures
            final(self).wf(),
            final(self).fed() == old(self).fed() + chunk@,
            final(self).emitted() == old(self).emitted(),
            final(self).pending() == old(self).pending() + chunk@,
    {
        let n = chunk.len();
        let mut i: usize = 0;
        while i < n
            invariant
                n == chunk@.len(),
                i <= n,
                self.buf@ == old(self).buf@ + chunk@.subrange(0, i as int),
                self.done == old(self).done,
                self.out == old(self).out,
            decreases n - i,
        {
            self.buf.push(chunk[i]);
            proof {
                assert(old(self).buf@ + chunk@.subrange(0, i as int) + seq![chunk@[i as int]]
                    =~= old(self).buf@ + chunk@.subrange(0, i as int + 1));
            }
            i += 1;
        }
        proof {
            assert(chunk@.subrange(0, n as int) =~= chunk@);
            assert(self.fed() =~= old(self).fed() + chunk@);
        }
    }

    /// How many bytes sit buffered awaiting their closing newline.
    pub fn pending_len(&self) -> (n: usize)
        ensures
            n == self.pending().len(),
    {
        self.buf.len()
    }

    /// Emit the next record, if a complete data line is buffered.
    ///
    /// `Some(rec)` extends the emitted records by exactly `rec`;
    /// `None` means no complete line remains (the buffer holds at most a
    /// partial line), so every record of the fed bytes has been emitted.
    pub fn next_record(&mut self) -> (r: Option<Vec<u8>>)
        requires
            old(self).wf(),
        ensures
            final(self).wf(),
            final(self).fed() == old(self).fed(),
            match r {
                Some(rec) => {
                    &&& final(self).emitted() == old(self).emitted().push(rec@)
                    &&& final(self).pending().len() < old(self).pending().len()
                },
                None => {
                    &&& final(self).emitted() == old(self).emitted()
                    &&& find_nl(final(self).pending()) == final(self).pending().len()
                },
            },
    {
        loop
            invariant
                self.wf(),
                self.fed() == old(self).fed(),
                self.emitted() == old(self).emitted(),
                self.pending().len() <= old(self).pending().len(),
            decreases self.buf@.len(),
        {
            let pos = match find_newline(&self.buf) {
                Some(p) => p,
                None => {
                    return None;
                },
            };
            let ghost prev = *self;
            let buf_len = self.buf.len();
            assert(pos < buf_len);
            // Cut the first line (and its newline) off the buffer.
            let mut tail = self.buf.split_off(pos + 1);
            self.buf.truncate(pos);
            core::mem::swap(&mut self.buf, &mut tail);
            let line = tail;
            proof {
                self.done@ = prev.done@ + line@ + seq![NL];
            }
            proof {
                assert(line@ =~= prev.buf@.subrange(0, pos as int));
                assert(line@ + seq![NL] =~= prev.buf@.subrange(0, pos as int + 1));
                assert(self.done@ + self.buf@ =~= prev.done@ + prev.buf@);
                assert(find_nl(line@) == line@.len()) by {
                    lemma_find_nl_at(line@, line@.len() as int);
                }
                lemma_frame_records_split(prev.done@, line@ + seq![NL]);
                lemma_frame_records_one_line(line@);
                assert(prev.done@ + (line@ + seq![NL]) =~= self.done@);
                assert(frame_records(self.done@) == prev.out@ + line_records(line@));
            }
            let trimmed = trim_bytes_exec(line);
            if has_data_prefix(&trimmed) {
                let mut trimmed = trimmed;
                let payload = trimmed.split_off(6);
                proof {
                    self.out@ = self.out@.push(payload@);
                    assert(payload@ =~= payload_of(trim_bytes(line@)));
                    assert(line_records(line@) =~= seq![payload@]);
                    assert(prev.out@ + line_records(line@) =~= prev.out@.push(payload@));
                }
                return Some(payload);
            } else {
                proof {
                    assert(line_records(line@) =~= Seq::<Seq<u8>>::empty());
                    assert(prev.out@ + line_records(line@) =~= prev.out@);
                }
            }
        }
    }
}

/// First newline in the buffer, if any.
fn find_newline(v: &Vec<u8>) -> (r: Option<usize>)
    ensures
        match r {
            Some(p) => {
                &&& p < v@.len()
                &&& find_nl(v@) == p
                &&& v@[p as int] == NL
                &&& forall|j: int| 0 <= j < p ==> v@[j] != NL
            },
            None => find_nl(v@) == v@.len(),
        },
{
    let n = v.len();
    let mut i: usize = 0;
    while i < n
        invariant
            n == v@.len(),
            i <= n,
            forall|j: int| 0 <= j < i ==> v@[j] != NL,
        decreases n - i,
    {
        if v[i] == NL {
            proof {
                lemma_find_nl_at(v@, i as int);
            }
            return Some(i);
        }
        i += 1;
    }
    proof {
        lemma_find_nl_at(v@, n as int);
    }
    None
}

/// Strip whitespace from both ends of a line.
fn trim_bytes_exec(line: Vec<u8>) -> (t: Vec<u8>)
    ensures
        t@ == trim_bytes(line@),
{
    let mut cur = line;
    let ghost orig = cur@;
    while cur.len() > 0 && (cur[0] == 32 || cur[0] == 9 || cur[0] == 13 || cur[0] == 10)
        invariant
            trim_front(cur@) == trim_front(orig),
        decreases cur@.len(),
    {
        let ghost pc = cur@;
        cur.remove(0);
        proof {
            assert(cur@ =~= pc.drop_first());
        }
    }
    proof {
        assert(trim_front(cur@) == cur@);
    }
    let ghost mid = cur@;
    while cur.len() > 0 && (cur[cur.len() - 1] == 32 || cur[cur.len() - 1] == 9 || cur[cur.len()
        - 1] == 13 || cur[cur.len() - 1] == 10)
        invariant
            trim_back(cur@) == trim_back(mid),
        decreases cur@.len(),
    {
        let ghost pc = cur@;
        cur.pop();
        proof {
            assert(cur@ =~= pc.drop_last());
        }
    }
    proof {
        assert(trim_back(cur@) == cur@);
        assert(trim_back(mid) == trim_back(trim_front(orig)));
    }
    cur
}

/// Does the trimmed line start with the `"data: "` marker?
fn has_data_prefix(t: &Vec<u8>) -> (b: bool)
    ensures
        b == is_data_line(t@),
{
    if t.len() < 6 {
        return false;
    }
    let b = t[0] == 100 && t[1] == 97 && t[2] == 116 && t[3] == 97 && t[4] == 58 && t[5] == 32;
    proof {
        if b {
            assert(t@.subrange(0, 6) =~= data_prefix());
        } else {
            assert(t@.subrange(0, 6) != data_prefix()) by {
                if t@.subrange(0, 6) == data_prefix() {
                    assert(t@.subrange(0, 6)[0] == 100u8);
                    assert(t@.subrange(0, 6)[1] == 97u8);
                    assert(t@.subrange(0, 6)[2] == 116u8);
                    assert(t@.subrange(0, 6)[3] == 97u8);
                    assert(t@.subrange(0, 6)[4] == 58u8);
                    assert(t@.subrange(0, 6)[5] == 32u8);
                }
            }
        }
    }
    b
}

/// Chunking transparency: once the framer holds no complete line, the
/// records it has emitted are exactly the records of the whole fed byte
/// sequence delivered as a single chunk — however the bytes were split
/// into chunks on the way in.
pub proof fn lemma_drained_framer(f: LineFramer)
    requires
        f.wf(),
        find_nl(f.pending()) == f.pending().len(),
    ensures
        f.emitted() == frame_records(f.fed()),
{
    lemma_frame_records_split(f.done@, f.buf@);
    assert(frame_records(f.pending()) =~= Seq::<Seq<u8>>::empty());
    assert(f.emitted() =~= frame_records(f.fed()));
}

} // verus!
