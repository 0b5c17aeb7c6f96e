//! Server-sent-events decoding: reassembling `data: …\n\n` frames from the
//! arbitrary byte chunks a network stream delivers.
//!
//! The decoder buffers raw bytes and only ever splits on the ASCII `\n\n`
//! event boundary, so a multi-byte UTF-8 character that straddles two chunks
//! is never torn. A block's `data:` lines are concatenated (joined by `\n`),
//! `:` comments and other fields are ignored, and the terminal `[DONE]` is
//! recognized.

pub mod normalize;

pub use normalize::normalize;

use vstd::prelude::*;
use vstd::utf8::*;

verus! {

/// `String::from_utf8_lossy`: the text `bytes` decode to, each invalid
/// sequence replaced by U+FFFD.
pub uninterp spec fn utf8_lossy(bytes: Seq<u8>) -> Seq<char>;

/// Decode bytes as UTF-8, replacing invalid sequences (`String::from_utf8_lossy`).
/// The contract states the named result, and that valid UTF-8 decodes as is.
#[verifier::external_body]
pub(crate) fn decode_lossy(bytes: &[u8]) -> (s: String)
    ensures
        s@ == utf8_lossy(bytes@),
        valid_utf8(bytes@) ==> s@ == decode_utf8(bytes@),
{
    String::from_utf8_lossy(bytes).into_owned()
}

/// One item pulled off the stream.
#[derive(Debug, Clone, PartialEq)]
pub enum SseItem {
    /// A complete `data:` payload (JSON text, not yet parsed).
    Data(String),
    /// The stream's terminal `data: [DONE]`.
    Done,
}

/// The mathematical value of an [`SseItem`].
pub enum SseEvent {
    Data(Seq<char>),
    Done,
}

impl View for SseItem {
    type V = SseEvent;

    open spec fn view(&self) -> SseEvent {
        match self {
            SseItem::Data(s) => SseEvent::Data(s@),
            SseItem::Done => SseEvent::Done,
        }
    }
}

/// The items of a vector, by value.
pub open spec fn items_view(v: Seq<SseItem>) -> Seq<SseEvent> {
    v.map_values(|i: SseItem| i@)
}

// ---------------------------------------------------------------------------
// Framing: splitting a byte stream at its first `\n\n` boundaries.
// ---------------------------------------------------------------------------

/// Does an event boundary (`\n\n`) start at `i`?
pub open spec fn sep_at(s: Seq<u8>, i: int) -> bool {
    0 <= i && i + 1 < s.len() && s[i] == 10u8 && s[i + 1] == 10u8
}

/// The first boundary at or after `i`.
pub open spec fn first_sep_from(s: Seq<u8>, i: int) -> Option<int>
    decreases s.len() - i,
{
    if i < 0 || i + 1 >= s.len() {
        None
    } else if sep_at(s, i) {
        Some(i)
    } else {
        first_sep_from(s, i + 1)
    }
}

/// The first event boundary in `s`.
pub open spec fn find_sep(s: Seq<u8>) -> Option<int> {
    first_sep_from(s, 0)
}

proof fn lemma_first_sep_from(s: Seq<u8>, i: int)
    requires
        0 <= i,
    ensures
        first_sep_from(s, i) matches Some(p) ==> i <= p && sep_at(s, p) && (forall|q: int|
            i <= q < p ==> !sep_at(s, q)),
        first_sep_from(s, i) is None ==> (forall|q: int| i <= q ==> !sep_at(s, q)),
    decreases s.len() - i,
{
    if i + 1 < s.len() && !sep_at(s, i) {
        lemma_first_sep_from(s, i + 1);
    }
}

/// The first boundary of `s` is the first index at which one starts.
pub proof fn lemma_find_sep(s: Seq<u8>)
    ensures
        find_sep(s) matches Some(p) ==> 0 <= p && p + 2 <= s.len() && sep_at(s, p) && (forall|
            q: int,
        |
            0 <= q < p ==> !sep_at(s, q)),
        find_sep(s) is None ==> (forall|q: int| 0 <= q ==> !sep_at(s, q)),
{
    lemma_first_sep_from(s, 0);
}

/// The first-boundary search characterized by what it finds.
proof fn lemma_first_sep_unique(s: Seq<u8>, i: int, p: Option<int>)
    requires
        0 <= i,
        p matches Some(pp) ==> i <= pp && sep_at(s, pp) && (forall|q: int|
            i <= q < pp ==> !sep_at(s, q)),
        p is None ==> (forall|q: int| i <= q ==> !sep_at(s, q)),
    ensures
        first_sep_from(s, i) == p,
    decreases s.len() - i,
{
    if i + 1 < s.len() && !sep_at(s, i) {
        lemma_first_sep_unique(s, i + 1, p);
    }
}

/// Split `s` into the complete blocks it holds (the text before each
/// boundary) and the trailing remainder that has no boundary yet.
pub open spec fn frames(s: Seq<u8>) -> (Seq<Seq<u8>>, Seq<u8>)
    decreases s.len(),
{
    match find_sep(s) {
        Some(p) => {
            if 0 <= p && p + 2 <= s.len() {
                let rest = frames(s.subrange(p + 2, s.len() as int));
                (seq![s.subrange(0, p)] + rest.0, rest.1)
            } else {
                (seq![], s)
            }
        },
        None => (seq![], s),
    }
}

/// A boundary found in `x` is still the first boundary of `x + y`.
proof fn lemma_find_sep_append(x: Seq<u8>, y: Seq<u8>)
    requires
        find_sep(x) is Some,
    ensures
        find_sep(x + y) == find_sep(x),
{
    lemma_find_sep(x);
    let p = find_sep(x)->0;
    let xy = x + y;
    assert(sep_at(xy, p));
    assert forall|q: int| 0 <= q < p implies !sep_at(xy, q) by {
        assert(!sep_at(x, q));
        assert(xy[q] == x[q] && xy[q + 1] == x[q + 1]);
    }
    lemma_first_sep_unique(xy, 0, Some(p));
}

/// Framing composes over concatenation: the blocks of `x + y` are the blocks of
/// `x`, followed by the blocks of what `x` left over with `y` appended.
pub proof fn lemma_frames_append(x: Seq<u8>, y: Seq<u8>)
    ensures
        frames(x + y) == ((frames(x).0 + frames(frames(x).1 + y).0), frames(frames(x).1 + y).1),
    decreases x.len(),
{
    lemma_find_sep(x);
    match find_sep(x) {
        Some(p) => {
            lemma_find_sep_append(x, y);
            let xr = x.subrange(p + 2, x.len() as int);
            assert((x + y).subrange(p + 2, (x + y).len() as int) =~= xr + y);
            assert((x + y).subrange(0, p) =~= x.subrange(0, p));
            lemma_frames_append(xr, y);
            let b = x.subrange(0, p);
            assert(frames(x).0 == seq![b] + frames(xr).0);
            assert(frames(x).1 == frames(xr).1);
            assert(seq![b] + (frames(xr).0 + frames(frames(xr).1 + y).0) =~= (seq![b]
                + frames(xr).0) + frames(frames(xr).1 + y).0);
        },
        None => {
            assert(frames(x).0 =~= Seq::<Seq<u8>>::empty());
            assert(frames(x).1 == x);
        },
    }
}

/// What framing leaves over holds no boundary.
pub proof fn lemma_frames_rest(s: Seq<u8>)
    ensures
        find_sep(frames(s).1) is None,
    decreases s.len(),
{
    lemma_find_sep(s);
    match find_sep(s) {
        Some(p) => {
            lemma_frames_rest(s.subrange(p + 2, s.len() as int));
        },
        None => {},
    }
}


// ---------------------------------------------------------------------------
// One block: its `data:` lines, joined.
// ---------------------------------------------------------------------------

/// The first index at or after `i` holding byte `x`.
pub open spec fn first_byte_from(s: Seq<u8>, x: u8, i: int) -> Option<int>
    decreases s.len() - i,
{
    if i < 0 || i >= s.len() {
        None
    } else if s[i] == x {
        Some(i)
    } else {
        first_byte_from(s, x, i + 1)
    }
}

proof fn lemma_first_byte_unique(s: Seq<u8>, x: u8, i: int, p: Option<int>)
    requires
        0 <= i,
        p matches Some(pp) ==> i <= pp < s.len() && s[pp] == x && (forall|q: int|
            i <= q < pp ==> s[q] != x),
        p is None ==> (forall|q: int| i <= q < s.len() ==> s[q] != x),
    ensures
        first_byte_from(s, x, i) == p,
    decreases s.len() - i,
{
    if i < s.len() && s[i] != x {
        lemma_first_byte_unique(s, x, i + 1, p);
    }
}

proof fn lemma_first_byte_bounds(s: Seq<u8>, x: u8, i: int)
    requires
        0 <= i,
    ensures
        first_byte_from(s, x, i) matches Some(p) ==> i <= p < s.len(),
    decreases s.len() - i,
{
    if i < s.len() && s[i] != x {
        lemma_first_byte_bounds(s, x, i + 1);
    }
}

/// `s` split at every `\n` (like `str::split('\n')`: one more piece than
/// there are newlines).
pub open spec fn split_lines(s: Seq<u8>) -> Seq<Seq<u8>>
    decreases s.len(),
{
    match first_byte_from(s, 10u8, 0) {
        Some(k) => {
            if 0 <= k < s.len() {
                seq![s.subrange(0, k)] + split_lines(s.subrange(k + 1, s.len() as int))
            } else {
                seq![s]
            }
        },
        None => seq![s],
    }
}

/// The bytes of `data:`.
pub open spec fn data_prefix() -> Seq<u8> {
    seq![100u8, 97u8, 116u8, 97u8, 58u8]
}

/// The bytes of `[DONE]`.
pub open spec fn done_marker() -> Seq<u8> {
    seq![91u8, 68u8, 79u8, 78u8, 69u8, 93u8]
}

/// The value of a `data:` field line (one trailing `\r` and one space after
/// the colon dropped), or `None` for comments and other fields.
pub open spec fn data_field(line: Seq<u8>) -> Option<Seq<u8>> {
    let l = if line.len() > 0 && line.last() == 13u8 {
        line.drop_last()
    } else {
        line
    };
    if l.len() >= 5 && l.subrange(0, 5) == data_prefix() {
        let rest = l.subrange(5, l.len() as int);
        Some(
            if rest.len() > 0 && rest[0] == 32u8 {
                rest.drop_first()
            } else {
                rest
            },
        )
    } else {
        None
    }
}

/// Fold one line into the data gathered so far: a `data:` value is appended,
/// separated by `\n` once something has been gathered.
pub open spec fn data_step(acc: Seq<u8>, line: Seq<u8>) -> Seq<u8> {
    match data_field(line) {
        Some(v) => if acc.len() == 0 {
            v
        } else {
            acc + seq![10u8] + v
        },
        None => acc,
    }
}

pub open spec fn fold_data(acc: Seq<u8>, lines: Seq<Seq<u8>>) -> Seq<u8>
    decreases lines.len(),
{
    if lines.len() == 0 {
        acc
    } else {
        fold_data(data_step(acc, lines[0]), lines.drop_first())
    }
}

/// The joined `data:` payload of one block.
pub open spec fn block_data(block: Seq<u8>) -> Seq<u8> {
    fold_data(seq![], split_lines(block))
}

/// The item one block yields, if any: nothing when it carries no data,
/// `Done` for `[DONE]`, otherwise the payload decoded as text.
pub open spec fn block_event(block: Seq<u8>) -> Option<SseEvent> {
    let d = block_data(block);
    if d.len() == 0 {
        None
    } else if d == done_marker() {
        Some(SseEvent::Done)
    } else {
        Some(SseEvent::Data(utf8_lossy(d)))
    }
}

/// The items a sequence of blocks yields, in order.
pub open spec fn items_of(blocks: Seq<Seq<u8>>) -> Seq<SseEvent>
    decreases blocks.len(),
{
    if blocks.len() == 0 {
        seq![]
    } else {
        let rest = items_of(blocks.drop_first());
        match block_event(blocks[0]) {
            Some(e) => seq![e] + rest,
            None => rest,
        }
    }
}

/// Items distribute over concatenated block sequences.
pub proof fn lemma_items_of_append(a: Seq<Seq<u8>>, b: Seq<Seq<u8>>)
    ensures
        items_of(a + b) == items_of(a) + items_of(b),
    decreases a.len(),
{
    if a.len() == 0 {
        assert(a + b =~= b);
        assert(items_of(a) =~= Seq::<SseEvent>::empty());
        assert(items_of(a) + items_of(b) =~= items_of(b));
    } else {
        assert((a + b).drop_first() =~= a.drop_first() + b);
        assert((a + b)[0] == a[0]);
        lemma_items_of_append(a.drop_first(), b);
        match block_event(a[0]) {
            Some(e) => {
                assert(seq![e] + (items_of(a.drop_first()) + items_of(b)) =~= (seq![e]
                    + items_of(a.drop_first())) + items_of(b));
            },
            None => {},
        }
    }
}

/// Apply one line's `data:` value (if it is a data line) to `acc`.
fn apply_line(acc: &mut Vec<u8>, b: &[u8], lo: usize, hi: usize)
    requires
        lo <= hi <= b@.len(),
    ensures
        final(acc)@ == data_step(old(acc)@, b@.subrange(lo as int, hi as int)),
{
    let ghost line = b@.subrange(lo as int, hi as int);
    let mut end = hi;
    if end > lo && b[end - 1] == 13u8 {
        end = end - 1;
    }
    let ghost l = b@.subrange(lo as int, end as int);
    assert(l == (if line.len() > 0 && line.last() == 13u8 {
        line.drop_last()
    } else {
        line
    }));
    if end - lo >= 5 && b[lo] == 100u8 && b[lo + 1] == 97u8 && b[lo + 2] == 116u8 && b[lo + 3]
        == 97u8 && b[lo + 4] == 58u8 {
        assert(l.subrange(0, 5) =~= data_prefix());
        let mut start = lo + 5;
        if start < end && b[start] == 32u8 {
            start = start + 1;
        }
        let ghost v = b@.subrange(start as int, end as int);
        assert(data_field(line) == Some(v)) by {
            let rest = l.subrange(5, l.len() as int);
            if rest.len() > 0 && rest[0] == 32u8 {
                assert(rest.drop_first() =~= v);
            } else {
                assert(rest =~= v);
            }
        }
        if acc.len() > 0 {
            acc.push(10u8);
        }
        let ghost before = acc@;
        let mut k = start;
        while k < end
            invariant
                start <= k <= end <= b@.len(),
                acc@ == before + b@.subrange(start as int, k as int),
            decreases end - k,
        {
            acc.push(b[k]);
            assert(b@.subrange(start as int, k + 1) =~= b@.subrange(start as int, k as int).push(
                b@[k as int],
            ));
            k = k + 1;
        }
        assert(acc@ =~= data_step(old(acc)@, line));
    } else {
        assert(l.len() < 5 || l.subrange(0, 5) != data_prefix()) by {
            if l.len() >= 5 && l.subrange(0, 5) == data_prefix() {
                assert(l[0] == b@[lo as int]);
                assert(l.subrange(0, 5)[0] == data_prefix()[0]);
                assert(l.subrange(0, 5)[1] == data_prefix()[1]);
                assert(l.subrange(0, 5)[2] == data_prefix()[2]);
                assert(l.subrange(0, 5)[3] == data_prefix()[3]);
                assert(l.subrange(0, 5)[4] == data_prefix()[4]);
            }
        }
    }
}

/// The joined `data:` payload of the block `b[lo..hi]`.
fn block_payload(b: &[u8], lo: usize, hi: usize) -> (d: Vec<u8>)
    requires
        lo <= hi <= b@.len(),
    ensures
        d@ == block_data(b@.subrange(lo as int, hi as int)),
{
    let ghost whole = b@.subrange(lo as int, hi as int);
    let mut acc: Vec<u8> = Vec::new();
    let mut i = lo;
    loop
        invariant
            lo <= i <= hi <= b@.len(),
            whole == b@.subrange(lo as int, hi as int),
            block_data(whole) == fold_data(acc@, split_lines(b@.subrange(i as int, hi as int))),
        decreases hi - i,
    {
        let ghost s = b@.subrange(i as int, hi as int);
        let mut j = i;
        while j < hi && b[j] != 10u8
            invariant
                i <= j <= hi <= b@.len(),
                forall|q: int| i <= q < j ==> b@[q] != 10u8,
            decreases hi - j,
        {
            j = j + 1;
        }
        if j < hi {
            proof {
                lemma_first_byte_unique(s, 10u8, 0, Some(j - i));
                assert(s.subrange(0, j - i) =~= b@.subrange(i as int, j as int));
                assert(s.subrange(j - i + 1, s.len() as int) =~= b@.subrange(j + 1, hi as int));
            }
            let ghost a0 = acc@;
            apply_line(&mut acc, b, i, j);
            proof {
                let line = b@.subrange(i as int, j as int);
                let rest = split_lines(b@.subrange(j + 1, hi as int));
                assert(split_lines(s) == seq![line] + rest);
                assert((seq![line] + rest)[0] == line);
                assert((seq![line] + rest).drop_first() =~= rest);
            }
            i = j + 1;
        } else {
            proof {
                lemma_first_byte_unique(s, 10u8, 0, None);
                assert(split_lines(s) == seq![s]);
                assert(seq![s].drop_first() =~= Seq::<Seq<u8>>::empty());
                assert(s =~= b@.subrange(i as int, j as int));
            }
            let ghost a0 = acc@;
            apply_line(&mut acc, b, i, j);
            proof {
                let e = Seq::<Seq<u8>>::empty();
                assert(seq![s].drop_first() == e);
                assert(fold_data(data_step(a0, s), e) == data_step(a0, s));
                assert(fold_data(a0, seq![s]) == fold_data(data_step(a0, s), seq![s].drop_first()));
                assert(acc@ == data_step(a0, s));
            }
            return acc;
        }
    }
}

/// The item the block `b[lo..hi]` yields, if any.
fn parse_block(b: &[u8], lo: usize, hi: usize) -> (r: Option<SseItem>)
    requires
        lo <= hi <= b@.len(),
    ensures
        r matches Some(item) ==> block_event(b@.subrange(lo as int, hi as int)) == Some(item@),
        r is None ==> block_event(b@.subrange(lo as int, hi as int)) is None,
{
    let d = block_payload(b, lo, hi);
    if d.len() == 0 {
        None
    } else if d.len() == 6 && d[0] == 91u8 && d[1] == 68u8 && d[2] == 79u8 && d[3] == 78u8 && d[4]
        == 69u8 && d[5] == 93u8 {
        assert(d@ =~= done_marker());
        Some(SseItem::Done)
    } else {
        assert(d@ != done_marker()) by {
            if d@ == done_marker() {
                assert(d@[0] == done_marker()[0]);
                assert(d@[1] == done_marker()[1]);
                assert(d@[2] == done_marker()[2]);
                assert(d@[3] == done_marker()[3]);
                assert(d@[4] == done_marker()[4]);
                assert(d@[5] == done_marker()[5]);
            }
        }
        Some(SseItem::Data(decode_lossy(d.as_slice())))
    }
}


// ---------------------------------------------------------------------------
// The incremental decoder.
// ---------------------------------------------------------------------------

/// Incremental SSE frame reassembler. Feed it bytes; get back complete items.
#[derive(Debug, Default)]
pub struct SseDecoder {
    buf: Vec<u8>,
}

impl SseDecoder {
    /// The bytes received that do not yet form a complete block.
    pub closed spec fn buffered(&self) -> Seq<u8> {
        self.buf@
    }

    /// A decoder with nothing buffered.
    pub fn new() -> (d: Self)
        ensures
            d.buffered() == Seq::<u8>::empty(),
    {
        SseDecoder { buf: Vec::new() }
    }

    /// Append a network chunk and return every item that just completed: the
    /// items of the complete blocks in what was buffered plus `bytes`; the
    /// incomplete tail stays buffered.
    pub fn feed(&mut self, bytes: &[u8]) -> (out: Vec<SseItem>)
        ensures
            final(self).buffered() == frames(old(self).buffered() + bytes@).1,
            items_view(out@) == items_of(frames(old(self).buffered() + bytes@).0),
    {
        let mut all: Vec<u8> = Vec::new();
        std::mem::swap(&mut all, &mut self.buf);
        let ghost old_buf = all@;
        let mut k: usize = 0;
        while k < bytes.len()
            invariant
                k <= bytes@.len(),
                all@ == old_buf + bytes@.subrange(0, k as int),
            decreases bytes@.len() - k,
        {
            all.push(bytes[k]);
            assert(bytes@.subrange(0, k + 1) =~= bytes@.subrange(0, k as int).push(bytes@[k as int]));
            k = k + 1;
        }
        assert(bytes@.subrange(0, bytes@.len() as int) =~= bytes@);
        let ghost total = all@;
        assert(total.subrange(0, total.len() as int) =~= total);
        let mut out: Vec<SseItem> = Vec::new();
        let mut start: usize = 0;
        let ghost mut done: Seq<Seq<u8>> = seq![];
        loop
            invariant
                start <= all@.len(),
                all@ == total,
                total == old(self).buffered() + bytes@,
                frames(total) == (done + frames(total.subrange(start as int, total.len() as int)).0,
                    frames(total.subrange(start as int, total.len() as int)).1),
                items_view(out@) == items_of(done),
            decreases all@.len() - start,
        {
            let ghost sub = total.subrange(start as int, total.len() as int);
            let mut p = start;
            let mut found = false;
            while !found && p < all.len() && p + 1 < all.len()
                invariant
                    start <= p,
                    p <= all@.len(),
                    all@ == total,
                    forall|q: int| start <= q < p ==> !sep_at(total, q),
                    found ==> sep_at(total, p as int),
                decreases all@.len() - p, if found { 0int } else { 1int },
            {
                if all[p] == 10u8 && all[p + 1] == 10u8 {
                    found = true;
                } else {
                    p = p + 1;
                }
            }
            if found {
                proof {
                    assert forall|q: int| 0 <= q < p - start implies !sep_at(sub, q) by {
                        assert(sub[q] == total[start + q] && sub[q + 1] == total[start + q + 1]);
                        assert(!sep_at(total, start + q));
                    }
                    assert(sep_at(sub, p - start));
                    lemma_first_sep_unique(sub, 0, Some(p - start));
                    let blk = sub.subrange(0, p - start);
                    let nxt = sub.subrange(p - start + 2, sub.len() as int);
                    assert(nxt =~= total.subrange(p + 2, total.len() as int));
                    assert(blk =~= total.subrange(start as int, p as int));
                    assert(frames(sub) == (seq![blk] + frames(nxt).0, frames(nxt).1));
                    assert(done + (seq![blk] + frames(nxt).0) =~= done.push(blk) + frames(nxt).0);
                    lemma_items_of_append(done, seq![blk]);
                    assert(seq![blk].drop_first() =~= Seq::<Seq<u8>>::empty());
                    assert(items_of(seq![blk]) == (match block_event(blk) {
                        Some(e) => seq![e] + items_of(Seq::<Seq<u8>>::empty()),
                        None => items_of(Seq::<Seq<u8>>::empty()),
                    }));
                }
                let item = parse_block(all.as_slice(), start, p);
                let ghost before = out@;
                let ghost blk = total.subrange(start as int, p as int);
                proof {
                    assert(done.push(blk) =~= done + seq![blk]);
                    assert(items_of(Seq::<Seq<u8>>::empty()) =~= Seq::<SseEvent>::empty());
                }
                match item {
                    Some(it) => {
                        out.push(it);
                        proof {
                            assert(items_view(out@) =~= items_view(before) + seq![it@]);
                            assert(items_of(seq![blk]) =~= seq![it@]);
                        }
                    },
                    None => {
                        proof {
                            assert(items_of(seq![blk]) =~= Seq::<SseEvent>::empty());
                            assert(items_of(done) + Seq::<SseEvent>::empty() =~= items_of(done));
                        }
                    },
                }
                proof {
                    done = done.push(blk);
                }
                let n = all.len();
                assert(p + 2 <= n);
                start = p + 2;
            } else {
                proof {
                    assert forall|q: int| 0 <= q implies !sep_at(sub, q) by {
                        if sep_at(sub, q) {
                            assert(sub[q] == total[start + q] && sub[q + 1] == total[start + q
                                + 1]);
                            assert(sep_at(total, start + q));
                        }
                    }
                    lemma_first_sep_unique(sub, 0, None);
                    assert(frames(sub) == (Seq::<Seq<u8>>::empty(), sub));
                    assert(done + Seq::<Seq<u8>>::empty() =~= done);
                }
                let rest = all.split_off(start);
                self.buf = rest;
                return out;
            }
        }
    }

    /// Flush any trailing block the stream left without a final `\n\n`: the
    /// item of whatever is buffered (nothing when the buffer is empty), which
    /// is then cleared.
    pub fn finish(&mut self) -> (r: Option<SseItem>)
        ensures
            final(self).buffered() == Seq::<u8>::empty(),
            old(self).buffered().len() == 0 ==> r is None,
            old(self).buffered().len() > 0 ==> (match r {
                Some(item) => block_event(old(self).buffered()) == Some(item@),
                None => block_event(old(self).buffered()) is None,
            }),
    {
        if self.buf.len() == 0 {
            return None;
        }
        let mut block: Vec<u8> = Vec::new();
        std::mem::swap(&mut block, &mut self.buf);
        assert(block@.subrange(0, block@.len() as int) =~= block@);
        parse_block(block.as_slice(), 0, block.len())
    }
}

/// Feeding a stream in two chunks yields the same items, and leaves the same
/// bytes buffered, as feeding it in one: the decoder is indifferent to where
/// the network happened to split the stream.
pub proof fn law_chunking_is_invisible(buffered: Seq<u8>, a: Seq<u8>, b: Seq<u8>)
    ensures
        ({
            let first = frames(buffered + a);
            let second = frames(first.1 + b);
            let whole = frames(buffered + (a + b));
            &&& items_of(whole.0) == items_of(first.0) + items_of(second.0)
            &&& whole.1 == second.1
        }),
{
    assert(buffered + (a + b) =~= (buffered + a) + b);
    lemma_frames_append(buffered + a, b);
    let first = frames(buffered + a);
    let second = frames(first.1 + b);
    lemma_items_of_append(first.0, second.0);
}

/// After any feed, nothing complete is left waiting in the buffer.
pub proof fn law_buffer_holds_no_boundary(buffered: Seq<u8>, a: Seq<u8>)
    ensures
        find_sep(frames(buffered + a).1) is None,
{
    lemma_frames_rest(buffered + a);
}

} // verus!
