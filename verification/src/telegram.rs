//! Telegram Bot API notifier: message chunking, request payloads, the
//! recipient fan-out bookkeeping and the retry policy of `Telegram::send`.
//!
//! The HTTP call itself, the process-wide throttle lock and the sleeps are
//! performed by the caller; this module decides what to send, when to wait
//! and what to do with each reply.
use vstd::prelude::*;
use crate::text::{chars_of, push_char, push_str, string_from_chars, string_of, trim, trimmed};

verus! {

broadcast use vstd::string::group_string_axioms;

// ---------------------------------------------------------------------------
// Chunking
// ---------------------------------------------------------------------------

/// Index one past the end of the line that starts at `i`: just after the
/// next `'\n'`, or the end of `s` (the pieces `str::split_inclusive('\n')`
/// yields).
pub open spec fn line_end(s: Seq<char>, i: int) -> int
    decreases s.len() - i,
{
    if i < 0 || i >= s.len() {
        s.len() as int
    } else if s[i] == '\n' {
        i + 1
    } else {
        line_end(s, i + 1)
    }
}

/// The pieces an over-long line `s[from..to]` is cut into when the open
/// piece starts at `start`: a piece is closed as soon as it holds `limit`
/// characters and another character follows.
pub open spec fn line_pieces(s: Seq<char>, start: int, k: int, to: int, limit: int) -> Seq<
    Seq<char>,
>
    decreases to - k,
{
    if k >= to {
        if start < to {
            seq![s.subrange(start, to)]
        } else {
            Seq::empty()
        }
    } else if k - start >= limit {
        seq![s.subrange(start, k)] + line_pieces(s, k, k + 1, to, limit)
    } else {
        line_pieces(s, start, k + 1, to, limit)
    }
}

/// The chunks produced from the lines starting at `i`, while the chunk being
/// filled holds `s[cur..i]`: whole lines are packed greedily; a line longer
/// than `limit` closes the open chunk and is cut into pieces of `limit`
/// characters.
pub open spec fn packed(s: Seq<char>, limit: int, i: int, cur: int) -> Seq<Seq<char>>
    decreases s.len() - i,
{
    if i < 0 || i >= s.len() {
        if 0 <= cur < i {
            seq![s.subrange(cur, i)]
        } else {
            Seq::empty()
        }
    } else {
        let e = line_end(s, i);
        proof {
            lemma_line_end(s, i);
        }
        if e - i > limit {
            let flushed = if cur < i {
                seq![s.subrange(cur, i)]
            } else {
                Seq::<Seq<char>>::empty()
            };
            flushed + line_pieces(s, i, i, e, limit) + packed(s, limit, e, e)
        } else if cur < i && (i - cur) + (e - i) > limit {
            seq![s.subrange(cur, i)] + packed(s, limit, e, i)
        } else {
            packed(s, limit, e, cur)
        }
    }
}

/// The chunks `split_message_into_chunks(msg, limit)` returns: the message
/// itself when it fits, otherwise the greedy line packing.
pub open spec fn message_chunks(s: Seq<char>, limit: int) -> Seq<Seq<char>> {
    if s.len() <= limit {
        seq![s]
    } else {
        packed(s, limit, 0, 0)
    }
}

/// All chunks laid end to end.
pub open spec fn concat_all(chunks: Seq<Seq<char>>) -> Seq<char>
    decreases chunks.len(),
{
    if chunks.len() == 0 {
        Seq::empty()
    } else {
        chunks[0] + concat_all(chunks.drop_first())
    }
}

/// A line ends just after its first newline, or at the end of the text.
pub proof fn lemma_line_end(s: Seq<char>, i: int)
    requires
        0 <= i < s.len(),
    ensures
        i < line_end(s, i) <= s.len(),
        forall|k: int| i <= k < line_end(s, i) - 1 ==> #[trigger] s[k] != '\n',
        line_end(s, i) < s.len() ==> s[line_end(s, i) - 1] == '\n',
    decreases s.len() - i,
{
    if s[i] != '\n' {
        if i + 1 < s.len() {
            lemma_line_end(s, i + 1);
        } else {
            assert(line_end(s, i + 1) == s.len());
        }
        assert(line_end(s, i) == line_end(s, i + 1));
    }
}

proof fn lemma_concat_append(a: Seq<Seq<char>>, b: Seq<Seq<char>>)
    ensures
        concat_all(a + b) == concat_all(a) + concat_all(b),
    decreases a.len(),
{
    if a.len() == 0 {
        assert(a + b == b);
    } else {
        assert((a + b).drop_first() == a.drop_first() + b);
        lemma_concat_append(a.drop_first(), b);
        assert(concat_all(a) + concat_all(b) == a[0] + (concat_all(a.drop_first()) + concat_all(
            b,
        )));
    }
}

proof fn lemma_concat_single(x: Seq<char>)
    ensures
        concat_all(seq![x]) == x,
{
    assert(seq![x].drop_first() == Seq::<Seq<char>>::empty());
    assert(concat_all(Seq::<Seq<char>>::empty()) == Seq::<char>::empty());
    assert(x + Seq::<char>::empty() == x);
}

proof fn lemma_pieces_concat(s: Seq<char>, start: int, k: int, to: int, limit: int)
    requires
        0 <= start <= k <= to <= s.len(),
    ensures
        concat_all(line_pieces(s, start, k, to, limit)) == s.subrange(start, to),
    decreases to - k,
{
    if k >= to {
        if start < to {
            lemma_concat_single(s.subrange(start, to));
        }
    } else if k - start >= limit {
        lemma_pieces_concat(s, k, k + 1, to, limit);
        lemma_concat_append(seq![s.subrange(start, k)], line_pieces(s, k, k + 1, to, limit));
        lemma_concat_single(s.subrange(start, k));
        assert(s.subrange(start, k) + s.subrange(k, to) == s.subrange(start, to));
    } else {
        lemma_pieces_concat(s, start, k + 1, to, limit);
    }
}

proof fn lemma_packed_concat(s: Seq<char>, limit: int, i: int, cur: int)
    requires
        0 <= cur <= i <= s.len(),
    ensures
        concat_all(packed(s, limit, i, cur)) == s.subrange(cur, s.len() as int),
    decreases s.len() - i,
{
    if i >= s.len() {
        if cur < i {
            lemma_concat_single(s.subrange(cur, i));
        }
    } else {
        lemma_line_end(s, i);
        let e = line_end(s, i);
        if e - i > limit {
            let flushed = if cur < i {
                seq![s.subrange(cur, i)]
            } else {
                Seq::<Seq<char>>::empty()
            };
            lemma_packed_concat(s, limit, e, e);
            lemma_pieces_concat(s, i, i, e, limit);
            lemma_concat_append(flushed, line_pieces(s, i, i, e, limit));
            lemma_concat_append(flushed + line_pieces(s, i, i, e, limit), packed(s, limit, e, e));
            if cur < i {
                lemma_concat_single(s.subrange(cur, i));
            }
            assert(concat_all(flushed) == s.subrange(cur, i));
            assert(s.subrange(cur, i) + s.subrange(i, e) + s.subrange(e, s.len() as int)
                == s.subrange(cur, s.len() as int));
        } else if cur < i && (i - cur) + (e - i) > limit {
            lemma_packed_concat(s, limit, e, i);
            lemma_concat_append(seq![s.subrange(cur, i)], packed(s, limit, e, i));
            lemma_concat_single(s.subrange(cur, i));
            assert(s.subrange(cur, i) + s.subrange(i, s.len() as int) == s.subrange(
                cur,
                s.len() as int,
            ));
        } else {
            lemma_packed_concat(s, limit, e, cur);
        }
    }
}

/// Every chunk of `c` is non-empty and holds at most `limit` characters.
pub open spec fn chunks_within(c: Seq<Seq<char>>, limit: int) -> bool {
    forall|k: int| 0 <= k < c.len() ==> 0 < #[trigger] c[k].len() <= limit
}

proof fn lemma_within_append(a: Seq<Seq<char>>, b: Seq<Seq<char>>, limit: int)
    requires
        chunks_within(a, limit),
        chunks_within(b, limit),
    ensures
        chunks_within(a + b, limit),
{
    assert forall|k: int| 0 <= k < (a + b).len() implies 0 < #[trigger] (a + b)[k].len()
        <= limit by {
        if k < a.len() {
            assert((a + b)[k] == a[k]);
        } else {
            assert((a + b)[k] == b[k - a.len()]);
        }
    }
}

proof fn lemma_pieces_within(s: Seq<char>, start: int, k: int, to: int, limit: int)
    requires
        limit >= 1,
        0 <= start <= k <= to <= s.len(),
        k - start <= limit,
    ensures
        chunks_within(line_pieces(s, start, k, to, limit), limit),
    decreases to - k,
{
    if k >= to {
    } else if k - start >= limit {
        lemma_pieces_within(s, k, k + 1, to, limit);
        lemma_within_append(seq![s.subrange(start, k)], line_pieces(s, k, k + 1, to, limit), limit);
    } else {
        lemma_pieces_within(s, start, k + 1, to, limit);
    }
}

proof fn lemma_packed_within(s: Seq<char>, limit: int, i: int, cur: int)
    requires
        limit >= 1,
        0 <= cur <= i <= s.len(),
        i - cur <= limit,
    ensures
        chunks_within(packed(s, limit, i, cur), limit),
    decreases s.len() - i,
{
    if i >= s.len() {
    } else {
        lemma_line_end(s, i);
        let e = line_end(s, i);
        if e - i > limit {
            let flushed = if cur < i {
                seq![s.subrange(cur, i)]
            } else {
                Seq::<Seq<char>>::empty()
            };
            lemma_packed_within(s, limit, e, e);
            lemma_pieces_within(s, i, i, e, limit);
            lemma_within_append(flushed, line_pieces(s, i, i, e, limit), limit);
            lemma_within_append(
                flushed + line_pieces(s, i, i, e, limit),
                packed(s, limit, e, e),
                limit,
            );
        } else if cur < i && (i - cur) + (e - i) > limit {
            lemma_packed_within(s, limit, e, i);
            lemma_within_append(seq![s.subrange(cur, i)], packed(s, limit, e, i), limit);
        } else {
            lemma_packed_within(s, limit, e, cur);
        }
    }
}

/// Chunking loses and reorders nothing: the chunks laid end to end are the
/// message.
pub proof fn lemma_chunks_reassemble(msg: Seq<char>, limit: int)
    requires
        limit >= 0,
    ensures
        concat_all(message_chunks(msg, limit)) == msg,
{
    if msg.len() <= limit {
        lemma_concat_single(msg);
    } else {
        lemma_packed_concat(msg, limit, 0, 0);
        assert(msg.subrange(0, msg.len() as int) == msg);
    }
}

/// With a positive limit, a message longer than the limit becomes chunks
/// that are all non-empty and no longer than the limit.
pub proof fn lemma_chunks_fit(msg: Seq<char>, limit: int)
    requires
        limit >= 1,
        msg.len() > limit,
    ensures
        chunks_within(message_chunks(msg, limit), limit),
{
    lemma_packed_within(msg, limit, 0, 0);
}

/// `i` is where a line starts: the start of the text or just after a
/// newline.
pub open spec fn starts_line(s: Seq<char>, i: int) -> bool {
    i == 0 || (0 < i <= s.len() && s[i - 1] == '\n')
}

/// Where chunk `k` of `c` ends in the message: the length of the first
/// `k + 1` chunks laid end to end.
pub open spec fn chunk_end(c: Seq<Seq<char>>, k: int) -> int {
    concat_all(c.take(k + 1)).len() as int
}

/// A chunk may end at `p`: at the end of the text, where a line starts, or
/// inside a line longer than `limit`.
pub open spec fn cut_ok(s: Seq<char>, limit: int, p: int) -> bool {
    ||| p >= s.len()
    ||| starts_line(s, p)
    ||| exists|i: int|
        #![trigger line_end(s, i)]
        starts_line(s, i) && 0 <= i < p < line_end(s, i) && line_end(s, i) - i > limit
}

/// Every chunk of `c`, laid from position `base` on, ends where a chunk may
/// end.
pub open spec fn ends_ok(s: Seq<char>, limit: int, c: Seq<Seq<char>>, base: int) -> bool
    decreases c.len(),
{
    if c.len() == 0 {
        true
    } else {
        cut_ok(s, limit, base + c[0].len()) && ends_ok(s, limit, c.drop_first(), base + c[0].len())
    }
}

proof fn lemma_ends_append(s: Seq<char>, limit: int, a: Seq<Seq<char>>, b: Seq<Seq<char>>, base: int)
    requires
        ends_ok(s, limit, a, base),
        ends_ok(s, limit, b, base + concat_all(a).len()),
    ensures
        ends_ok(s, limit, a + b, base),
    decreases a.len(),
{
    if a.len() == 0 {
        assert(a + b == b);
    } else {
        assert((a + b).drop_first() == a.drop_first() + b);
        assert((a + b)[0] == a[0]);
        lemma_ends_append(s, limit, a.drop_first(), b, base + a[0].len());
    }
}

proof fn lemma_ends_single(s: Seq<char>, limit: int, x: Seq<char>, base: int)
    requires
        cut_ok(s, limit, base + x.len()),
    ensures
        ends_ok(s, limit, seq![x], base),
{
    let c = seq![x];
    assert(c[0] == x);
    assert(c.drop_first().len() == 0);
    assert(ends_ok(s, limit, c.drop_first(), base + x.len()));
}

proof fn lemma_pieces_ends(s: Seq<char>, limit: int, lo: int, start: int, k: int, to: int)
    requires
        limit >= 1,
        0 <= lo <= start <= k <= to <= s.len(),
        lo < s.len(),
        starts_line(s, lo),
        to == line_end(s, lo),
        to - lo > limit,
    ensures
        ends_ok(s, limit, line_pieces(s, start, k, to, limit), start),
    decreases to - k,
{
    lemma_line_end(s, lo);
    if k >= to {
        if start < to {
            assert(cut_ok(s, limit, start + s.subrange(start, to).len())) by {
                if to < s.len() {
                    assert(starts_line(s, to));
                }
            }
            lemma_ends_single(s, limit, s.subrange(start, to), start);
        }
    } else if k - start >= limit {
        lemma_pieces_ends(s, limit, lo, k, k + 1, to);
        let c = seq![s.subrange(start, k)];
        assert(cut_ok(s, limit, start + s.subrange(start, k).len())) by {
            assert(starts_line(s, lo) && 0 <= lo < k < line_end(s, lo) && line_end(s, lo) - lo > limit);
        }
        lemma_ends_single(s, limit, s.subrange(start, k), start);
        lemma_concat_single(s.subrange(start, k));
        lemma_ends_append(s, limit, c, line_pieces(s, k, k + 1, to, limit), start);
    } else {
        lemma_pieces_ends(s, limit, lo, start, k + 1, to);
    }
}

proof fn lemma_packed_ends(s: Seq<char>, limit: int, i: int, cur: int)
    requires
        limit >= 1,
        0 <= cur <= i <= s.len(),
        i >= s.len() || starts_line(s, i),
    ensures
        ends_ok(s, limit, packed(s, limit, i, cur), cur),
    decreases s.len() - i,
{
    if i >= s.len() {
        if cur < i {
            lemma_ends_single(s, limit, s.subrange(cur, i), cur);
        }
    } else {
        lemma_line_end(s, i);
        let e = line_end(s, i);
        assert(e >= s.len() || starts_line(s, e));
        if e - i > limit {
            let flushed = if cur < i {
                seq![s.subrange(cur, i)]
            } else {
                Seq::<Seq<char>>::empty()
            };
            if cur < i {
                assert(cut_ok(s, limit, cur + s.subrange(cur, i).len()));
                lemma_ends_single(s, limit, s.subrange(cur, i), cur);
                lemma_concat_single(s.subrange(cur, i));
            }
            assert(ends_ok(s, limit, flushed, cur));
            assert(concat_all(flushed).len() == i - cur);
            lemma_pieces_ends(s, limit, i, i, i, e);
            lemma_pieces_concat(s, i, i, e, limit);
            lemma_ends_append(s, limit, flushed, line_pieces(s, i, i, e, limit), cur);
            lemma_concat_append(flushed, line_pieces(s, i, i, e, limit));
            lemma_packed_ends(s, limit, e, e);
            lemma_ends_append(
                s,
                limit,
                flushed + line_pieces(s, i, i, e, limit),
                packed(s, limit, e, e),
                cur,
            );
        } else if cur < i && (i - cur) + (e - i) > limit {
            let c = seq![s.subrange(cur, i)];
            assert(cut_ok(s, limit, cur + s.subrange(cur, i).len()));
            lemma_ends_single(s, limit, s.subrange(cur, i), cur);
            lemma_concat_single(s.subrange(cur, i));
            lemma_packed_ends(s, limit, e, i);
            lemma_ends_append(s, limit, c, packed(s, limit, e, i), cur);
        } else {
            lemma_packed_ends(s, limit, e, cur);
        }
    }
}

proof fn lemma_ends_at(s: Seq<char>, limit: int, c: Seq<Seq<char>>, base: int, k: int)
    requires
        ends_ok(s, limit, c, base),
        0 <= k < c.len(),
    ensures
        cut_ok(s, limit, base + chunk_end(c, k)),
    decreases k,
{
    if k == 0 {
        assert(c.take(1) == seq![c[0]]);
        lemma_concat_single(c[0]);
    } else {
        lemma_ends_at(s, limit, c.drop_first(), base + c[0].len(), k - 1);
        assert(c.take(k + 1) == seq![c[0]] + c.drop_first().take(k));
        lemma_concat_append(seq![c[0]], c.drop_first().take(k));
        lemma_concat_single(c[0]);
    }
}

proof fn lemma_cut_outside_fitting_line(s: Seq<char>, limit: int, p: int, a: int)
    requires
        cut_ok(s, limit, p),
        starts_line(s, a),
        0 <= a < s.len(),
        line_end(s, a) - a <= limit,
    ensures
        !(a < p < line_end(s, a)),
{
    lemma_line_end(s, a);
    let e = line_end(s, a);
    if a < p && p < e {
        if p >= s.len() {
        } else if starts_line(s, p) {
            assert(s[p - 1] == '\n');
        } else {
            let i = choose|i: int|
                #![trigger line_end(s, i)]
                starts_line(s, i) && 0 <= i < p < line_end(s, i) && line_end(s, i) - i > limit;
            lemma_line_end(s, i);
            if a < i {
                assert(s[i - 1] == '\n');
            } else if i < a {
                assert(s[a - 1] == '\n');
            }
        }
    }
}

/// Law: a line that fits within the limit is never cut: no chunk ends
/// strictly inside it, so it lies whole in one chunk. Only lines longer
/// than the limit are cut.
pub proof fn lemma_fitting_lines_stay_whole(msg: Seq<char>, limit: int, a: int, k: int)
    requires
        limit >= 1,
        starts_line(msg, a),
        0 <= a < msg.len(),
        line_end(msg, a) - a <= limit,
        0 <= k < message_chunks(msg, limit).len(),
    ensures
        !(a < chunk_end(message_chunks(msg, limit), k) < line_end(msg, a)),
{
    let c = message_chunks(msg, limit);
    if msg.len() <= limit {
        lemma_line_end(msg, a);
        assert(c.take(1) == c);
        lemma_concat_single(msg);
    } else {
        lemma_packed_ends(msg, limit, 0, 0);
        lemma_ends_at(msg, limit, c, 0, k);
        lemma_cut_outside_fitting_line(msg, limit, chunk_end(c, k), a);
    }
}

/// Where chunk `k` of `c` starts in the message.
pub open spec fn chunk_start(c: Seq<Seq<char>>, k: int) -> int {
    if k == 0 {
        0
    } else {
        chunk_end(c, k - 1)
    }
}

/// A chunk `s[a..p]` that starts a line is closed at the line start `p` only
/// when the line starting at `p`, if it fits within the limit, would not
/// fit behind it.
pub open spec fn full_before(s: Seq<char>, limit: int, a: int, p: int) -> bool {
    starts_line(s, a) && starts_line(s, p) && p < s.len() && line_end(s, p) - p <= limit
        ==> (p - a) + (line_end(s, p) - p) > limit
}

/// Every chunk of `c`, laid from position `base` on, is full in the sense
/// of `full_before`.
pub open spec fn all_full(s: Seq<char>, limit: int, c: Seq<Seq<char>>, base: int) -> bool
    decreases c.len(),
{
    if c.len() == 0 {
        true
    } else {
        full_before(s, limit, base, base + c[0].len()) && all_full(
            s,
            limit,
            c.drop_first(),
            base + c[0].len(),
        )
    }
}

proof fn lemma_full_append(s: Seq<char>, limit: int, a: Seq<Seq<char>>, b: Seq<Seq<char>>, base: int)
    requires
        all_full(s, limit, a, base),
        all_full(s, limit, b, base + concat_all(a).len()),
    ensures
        all_full(s, limit, a + b, base),
    decreases a.len(),
{
    if a.len() == 0 {
        assert(a + b == b);
    } else {
        assert((a + b).drop_first() == a.drop_first() + b);
        assert((a + b)[0] == a[0]);
        lemma_full_append(s, limit, a.drop_first(), b, base + a[0].len());
    }
}

proof fn lemma_full_single(s: Seq<char>, limit: int, x: Seq<char>, base: int)
    requires
        full_before(s, limit, base, base + x.len()),
    ensures
        all_full(s, limit, seq![x], base),
{
    let c = seq![x];
    assert(c[0] == x);
    assert(c.drop_first().len() == 0);
    assert(all_full(s, limit, c.drop_first(), base + x.len()));
}

proof fn lemma_pieces_full(s: Seq<char>, limit: int, lo: int, start: int, k: int, to: int)
    requires
        limit >= 1,
        0 <= lo <= start <= k <= to <= s.len(),
        k - start <= limit,
        lo < s.len(),
        starts_line(s, lo),
        to == line_end(s, lo),
        to - lo > limit,
    ensures
        all_full(s, limit, line_pieces(s, start, k, to, limit), start),
    decreases to - k,
{
    lemma_line_end(s, lo);
    if k >= to {
        if start < to {
            assert(full_before(s, limit, start, start + s.subrange(start, to).len())) by {
                if start > lo {
                    assert(s[start - 1] != '\n');
                }
            }
            lemma_full_single(s, limit, s.subrange(start, to), start);
        }
    } else if k - start >= limit {
        lemma_pieces_full(s, limit, lo, k, k + 1, to);
        let c = seq![s.subrange(start, k)];
        assert(full_before(s, limit, start, start + s.subrange(start, k).len())) by {
            assert(s[k - 1] != '\n');
        }
        lemma_full_single(s, limit, s.subrange(start, k), start);
        lemma_concat_single(s.subrange(start, k));
        lemma_full_append(s, limit, c, line_pieces(s, k, k + 1, to, limit), start);
    } else {
        lemma_pieces_full(s, limit, lo, start, k + 1, to);
    }
}

proof fn lemma_packed_full(s: Seq<char>, limit: int, i: int, cur: int)
    requires
        limit >= 1,
        0 <= cur <= i <= s.len(),
        i >= s.len() || starts_line(s, i),
    ensures
        all_full(s, limit, packed(s, limit, i, cur), cur),
    decreases s.len() - i,
{
    if i >= s.len() {
        if cur < i {
            lemma_full_single(s, limit, s.subrange(cur, i), cur);
        }
    } else {
        lemma_line_end(s, i);
        let e = line_end(s, i);
        assert(e >= s.len() || starts_line(s, e));
        if e - i > limit {
            let flushed = if cur < i {
                seq![s.subrange(cur, i)]
            } else {
                Seq::<Seq<char>>::empty()
            };
            if cur < i {
                lemma_full_single(s, limit, s.subrange(cur, i), cur);
                lemma_concat_single(s.subrange(cur, i));
            }
            assert(all_full(s, limit, flushed, cur));
            assert(concat_all(flushed).len() == i - cur);
            lemma_pieces_full(s, limit, i, i, i, e);
            lemma_pieces_concat(s, i, i, e, limit);
            lemma_full_append(s, limit, flushed, line_pieces(s, i, i, e, limit), cur);
            lemma_concat_append(flushed, line_pieces(s, i, i, e, limit));
            lemma_packed_full(s, limit, e, e);
            lemma_full_append(
                s,
                limit,
                flushed + line_pieces(s, i, i, e, limit),
                packed(s, limit, e, e),
                cur,
            );
        } else if cur < i && (i - cur) + (e - i) > limit {
            let head = seq![s.subrange(cur, i)];
            lemma_full_single(s, limit, s.subrange(cur, i), cur);
            lemma_concat_single(s.subrange(cur, i));
            lemma_packed_full(s, limit, e, i);
            lemma_full_append(s, limit, head, packed(s, limit, e, i), cur);
        } else {
            lemma_packed_full(s, limit, e, cur);
        }
    }
}

proof fn lemma_chunk_end_first(c: Seq<Seq<char>>, k: int)
    requires
        0 <= k < c.len(),
    ensures
        k == 0 ==> chunk_end(c, k) == c[0].len(),
        k > 0 ==> chunk_end(c, k) == c[0].len() + chunk_end(c.drop_first(), k - 1),
{
    if k == 0 {
        assert(c.take(1) == seq![c[0]]);
        lemma_concat_single(c[0]);
    } else {
        assert(c.take(k + 1) == seq![c[0]] + c.drop_first().take(k));
        lemma_concat_append(seq![c[0]], c.drop_first().take(k));
        lemma_concat_single(c[0]);
    }
}

proof fn lemma_full_at(s: Seq<char>, limit: int, c: Seq<Seq<char>>, base: int, k: int)
    requires
        all_full(s, limit, c, base),
        0 <= k < c.len(),
    ensures
        full_before(s, limit, base + chunk_start(c, k), base + chunk_end(c, k)),
    decreases k,
{
    lemma_chunk_end_first(c, k);
    if k > 0 {
        lemma_full_at(s, limit, c.drop_first(), base + c[0].len(), k - 1);
        lemma_chunk_end_first(c, k - 1);
    }
}

proof fn lemma_chunk_end_before_next(c: Seq<Seq<char>>, k: int)
    requires
        0 <= k,
        k + 1 < c.len(),
        c[k + 1].len() > 0,
    ensures
        chunk_end(c, k) < concat_all(c).len(),
{
    let rest = c.skip(k + 1);
    assert(c == c.take(k + 1) + rest);
    lemma_concat_append(c.take(k + 1), rest);
    assert(rest[0] == c[k + 1]);
}

/// Law: chunks are packed greedily. Where a chunk that starts a line is
/// followed by a chunk that starts with a line fitting within the limit,
/// that line would not have fit behind the first chunk: the two lengths
/// together exceed the limit.
pub proof fn lemma_chunks_are_full(msg: Seq<char>, limit: int, k: int)
    requires
        limit >= 1,
        0 <= k,
        k + 1 < message_chunks(msg, limit).len(),
        starts_line(msg, chunk_start(message_chunks(msg, limit), k)),
        starts_line(msg, chunk_end(message_chunks(msg, limit), k)),
        line_end(msg, chunk_end(message_chunks(msg, limit), k)) - chunk_end(
            message_chunks(msg, limit),
            k,
        ) <= limit,
    ensures
        chunk_end(message_chunks(msg, limit), k) - chunk_start(message_chunks(msg, limit), k) + (
        line_end(msg, chunk_end(message_chunks(msg, limit), k)) - chunk_end(
            message_chunks(msg, limit),
            k,
        )) > limit,
{
    let c = message_chunks(msg, limit);
    assert(msg.len() > limit);
    lemma_chunks_fit(msg, limit);
    assert(c[k + 1].len() > 0);
    lemma_chunk_end_before_next(c, k);
    lemma_chunks_reassemble(msg, limit);
    lemma_packed_full(msg, limit, 0, 0);
    lemma_full_at(msg, limit, c, 0, k);
}

fn line_end_exec(v: &Vec<char>, i: usize) -> (e: usize)
    requires
        i < v@.len(),
    ensures
        e == line_end(v@, i as int),
{
    let n = v.len();
    let mut j = i;
    while j < n && v[j] != '\n'
        invariant
            i <= j <= n == v@.len(),
            line_end(v@, i as int) == line_end(v@, j as int),
        decreases n - j,
    {
        j = j + 1;
    }
    if j < n {
        j + 1
    } else {
        j
    }
}

/// The views of a vector of strings.
pub open spec fn views(v: Seq<String>) -> Seq<Seq<char>> {
    v.map_values(|s: String| s@)
}

proof fn lemma_views_push(v: Seq<String>, s: String)
    ensures
        views(v.push(s)) == views(v) + seq![s@],
{
    assert(views(v.push(s)) =~= views(v) + seq![s@]);
}

fn push_pieces(
    chunks: &mut Vec<String>,
    v: &Vec<char>,
    from: usize,
    to: usize,
    limit: usize,
)
    requires
        from < to <= v@.len(),
    ensures
        views(final(chunks)@) == views(old(chunks)@) + line_pieces(
            v@,
            from as int,
            from as int,
            to as int,
            limit as int,
        ),
{
    let ghost s = v@;
    let ghost base = views(chunks@);
    let mut start = from;
    let mut k = from;
    while k < to
        invariant
            from <= start <= k <= to <= s.len(),
            s == v@,
            views(chunks@) + line_pieces(s, start as int, k as int, to as int, limit as int)
                == base + line_pieces(s, from as int, from as int, to as int, limit as int),
        decreases to - k,
    {
        if k - start >= limit {
            let piece = string_from_chars(v, start, k);
            let ghost before = views(chunks@);
            chunks.push(piece);
            proof {
                lemma_views_push(old(chunks)@, piece);
                lemma_views_push(chunks@.drop_last(), piece);
                assert(chunks@.drop_last().push(piece) == chunks@);
                assert(views(chunks@) == before + seq![s.subrange(start as int, k as int)]);
                assert(line_pieces(s, start as int, k as int, to as int, limit as int) == seq![
                    s.subrange(start as int, k as int),
                ] + line_pieces(s, k as int, k + 1, to as int, limit as int));
                assert(before + seq![s.subrange(start as int, k as int)] + line_pieces(
                    s,
                    k as int,
                    k + 1,
                    to as int,
                    limit as int,
                ) == before + (seq![s.subrange(start as int, k as int)] + line_pieces(
                    s,
                    k as int,
                    k + 1,
                    to as int,
                    limit as int,
                )));
            }
            start = k;
        }
        k = k + 1;
    }
    if start < to {
        let piece = string_from_chars(v, start, to);
        let ghost before = views(chunks@);
        chunks.push(piece);
        proof {
            lemma_views_push(chunks@.drop_last(), piece);
            assert(chunks@.drop_last().push(piece) == chunks@);
        }
    } else {
        assert(line_pieces(s, start as int, k as int, to as int, limit as int) == Seq::<
            Seq<char>,
        >::empty());
        assert(views(chunks@) + Seq::<Seq<char>>::empty() == views(chunks@));
    }
}

/// Splits `msg` into chunks of at most `limit` characters, cutting between
/// lines: whole lines are packed greedily, and only a line that alone is
/// longer than `limit` is cut, character by character, into pieces of
/// `limit` characters. A message that fits is returned whole.
pub fn split_message_into_chunks(msg: &str, limit: usize) -> (chunks: Vec<String>)
    ensures
        views(chunks@) == message_chunks(msg@, limit as int),
{
    let v = chars_of(msg);
    let n = v.len();
    if n <= limit {
        let mut one: Vec<String> = Vec::new();
        one.push(string_of(msg));
        proof {
            lemma_views_push(Seq::<String>::empty(), one@[0]);
            assert(one@ == Seq::<String>::empty().push(one@[0]));
        }
        return one;
    }
    let ghost s = v@;
    let mut chunks: Vec<String> = Vec::new();
    let mut cur: usize = 0;
    let mut i: usize = 0;
    assert(views(chunks@) == Seq::<Seq<char>>::empty());
    while i < n
        invariant
            0 <= cur <= i <= n == s.len(),
            s == v@,
            s == msg@,
            n > limit,
            views(chunks@) + packed(s, limit as int, i as int, cur as int) == packed(
                s,
                limit as int,
                0,
                0,
            ),
        decreases n - i,
    {
        proof {
            lemma_line_end(s, i as int);
        }
        let e = line_end_exec(&v, i);
        let ghost before = views(chunks@);
        if e - i > limit {
            if cur < i {
                let c = string_from_chars(&v, cur, i);
                chunks.push(c);
                proof {
                    lemma_views_push(chunks@.drop_last(), c);
                    assert(chunks@.drop_last().push(c) == chunks@);
                }
            }
            let ghost mid = views(chunks@);
            push_pieces(&mut chunks, &v, i, e, limit);
            proof {
                let flushed = if cur < i {
                    seq![s.subrange(cur as int, i as int)]
                } else {
                    Seq::<Seq<char>>::empty()
                };
                assert(mid == before + flushed);
                let pieces = line_pieces(s, i as int, i as int, e as int, limit as int);
                let rest = packed(s, limit as int, e as int, e as int);
                assert(packed(s, limit as int, i as int, cur as int) == flushed + pieces + rest);
                assert(before + (flushed + pieces + rest) == before + flushed + pieces + rest);
            }
            cur = e;
        } else if cur < i && (i - cur) + (e - i) > limit {
            let c = string_from_chars(&v, cur, i);
            chunks.push(c);
            proof {
                lemma_views_push(chunks@.drop_last(), c);
                assert(chunks@.drop_last().push(c) == chunks@);
                let rest = packed(s, limit as int, e as int, i as int);
                assert(packed(s, limit as int, i as int, cur as int) == seq![
                    s.subrange(cur as int, i as int),
                ] + rest);
                assert(before + (seq![s.subrange(cur as int, i as int)] + rest) == before + seq![
                    s.subrange(cur as int, i as int),
                ] + rest);
            }
            cur = i;
        }
        i = e;
    }
    if cur < n {
        let c = string_from_chars(&v, cur, n);
        chunks.push(c);
        proof {
            lemma_views_push(chunks@.drop_last(), c);
            assert(chunks@.drop_last().push(c) == chunks@);
        }
    } else {
        assert(views(chunks@) + Seq::<Seq<char>>::empty() == views(chunks@));
    }
    chunks
}

// ---------------------------------------------------------------------------
// Client and payloads
// ---------------------------------------------------------------------------

/// Telegram's `MarkdownV2` parse mode.
pub const MARKDOWN_V2: &'static str = "MarkdownV2";

/// Plain text: an empty `parse_mode` makes Telegram parse no markup.
pub const PLAIN_TEXT: &'static str = "";

/// Longest text sent in one `sendMessage` call (Telegram allows 4096
/// characters; the rest is a safety margin).
pub const MAX_MESSAGE_LEN: usize = 4000;

/// Least time between two outgoing messages, in milliseconds: one message a
/// second per chat plus a margin, which also keeps the bot under its global
/// limit because every call goes through the same queue.
pub const MIN_SEND_INTERVAL_MILLIS: u64 = 1100;

/// Telegram Bot API client.
pub struct Telegram {
    /// Full URL of the `sendMessage` method.
    pub send_message_url: String,
}

/// The `sendMessage` URL for a bot token.
pub open spec fn send_message_url_for(token: Seq<char>) -> Seq<char> {
    "https://api.telegram.org/bot"@ + token + "/sendMessage"@
}

impl Telegram {
    /// A client for the bot whose token is `token`.
    pub fn new(token: &str) -> (t: Telegram)
        ensures
            t.send_message_url@ == send_message_url_for(token@),
    {
        let mut url = string_of("https://api.telegram.org/bot");
        push_str(&mut url, token);
        push_str(&mut url, "/sendMessage");
        Telegram { send_message_url: url }
    }
}

/// Reply of the `sendMessage` method.
pub struct SendMessageResponse {
    /// Whether Telegram handled the request.
    pub ok: bool,
    /// The message sent, on success.
    pub result: Option<Message>,
    /// Error code, on failure.
    pub error_code: Option<i32>,
    /// Error description, on failure.
    pub description: Option<String>,
    /// Extra parameters of some failures; only `retry_after` is read.
    pub parameters: Option<ResponseParameters>,
}

/// Extra parameters Telegram attaches to some error replies.
pub struct ResponseParameters {
    /// After a 429 reply, how many seconds to wait before sending again.
    pub retry_after: Option<u64>,
}

/// The part of a Telegram message object that is kept.
pub struct Message {
    /// Telegram message id.
    pub message_id: i64,
}

/// Body of a `sendMessage` request.
pub struct SendMessageRequest<'a> {
    /// Target chat.
    pub chat_id: i64,
    /// Message text.
    pub text: &'a str,
    /// Telegram parse mode.
    pub parse_mode: &'a str,
}

impl<'a> SendMessageRequest<'a> {
    /// A request for `text` to `chat_id`, parsed as `MarkdownV2`.
    pub fn new(chat_id: i64, text: &'a str) -> (r: SendMessageRequest<'a>)
        ensures
            r.chat_id == chat_id,
            r.text@ == text@,
            r.parse_mode@ == MARKDOWN_V2@,
    {
        SendMessageRequest { chat_id, text, parse_mode: MARKDOWN_V2 }
    }
}

/// The notifier registered as the process's alert sink.
pub struct TelegramAlertSink;

/// The texts `send` posts for `msg`, in order: nothing for a blank message,
/// otherwise its chunks of at most `MAX_MESSAGE_LEN` characters.
pub open spec fn outgoing_texts(msg: Seq<char>) -> Seq<Seq<char>> {
    if trimmed(msg).len() == 0 {
        Seq::empty()
    } else {
        message_chunks(msg, MAX_MESSAGE_LEN as int)
    }
}

/// The texts to post for `msg`: none when it is blank, else its chunks.
pub fn outgoing_messages(msg: &str) -> (texts: Vec<String>)
    ensures
        views(texts@) == outgoing_texts(msg@),
{
    let t = trim(msg);
    if t.as_str().is_empty() {
        let v: Vec<String> = Vec::new();
        assert(views(v@) == Seq::<Seq<char>>::empty());
        v
    } else {
        split_message_into_chunks(msg, MAX_MESSAGE_LEN)
    }
}

/// How long, in milliseconds, a send must wait so that it starts at least
/// `MIN_SEND_INTERVAL_MILLIS` after the previous one; `elapsed` is the time
/// since the previous send, `None` when nothing was sent yet.
pub fn send_slot_wait_millis(elapsed: Option<u64>) -> (wait: u64)
    ensures
        wait == match elapsed {
            None => 0,
            Some(e) => if e < MIN_SEND_INTERVAL_MILLIS {
                (MIN_SEND_INTERVAL_MILLIS - e) as int
            } else {
                0
            },
        },
        elapsed matches Some(e) ==> e + wait >= MIN_SEND_INTERVAL_MILLIS,
{
    match elapsed {
        None => 0,
        Some(e) => if e < MIN_SEND_INTERVAL_MILLIS {
            MIN_SEND_INTERVAL_MILLIS - e
        } else {
            0
        },
    }
}

/// When a send that asks for its slot at clock reading `now` goes out,
/// given when the previous send went out (`None` before the first): at
/// once, unless less than [`MIN_SEND_INTERVAL_MILLIS`] has passed, then
/// exactly that interval after the previous send.
pub open spec fn send_time(last: Option<u64>, now: u64) -> int {
    match last {
        None => now as int,
        Some(l) => if now - l < MIN_SEND_INTERVAL_MILLIS {
            l + MIN_SEND_INTERVAL_MILLIS
        } else {
            now as int
        },
    }
}

/// The slot of a send asked for at clock reading `now` (milliseconds on a
/// clock that never goes back), with the previous send at `last`: how long
/// to wait, and when the send then goes out, which is the next call's
/// `last`.
pub fn next_send_slot(last: Option<u64>, now: u64) -> (r: (u64, u64))
    requires
        last matches Some(l) ==> l <= now,
        now + MIN_SEND_INTERVAL_MILLIS <= u64::MAX,
    ensures
        r.1 == now + r.0,
        r.1 == send_time(last, now),
{
    let elapsed = match last {
        None => None,
        Some(l) => Some(now - l),
    };
    let wait = send_slot_wait_millis(elapsed);
    (wait, now + wait)
}

/// Law: sends through the slot are spaced. The first goes out at once;
/// each later one goes out at least [`MIN_SEND_INTERVAL_MILLIS`] after the
/// one before, and at once when that much has already passed; no send goes
/// out before it asked.
pub proof fn lemma_sends_are_spaced(last: Option<u64>, now: u64)
    requires
        last matches Some(l) ==> l <= now,
    ensures
        send_time(None, now) == now,
        send_time(last, now) >= now,
        last matches Some(l) ==> send_time(last, now) >= l + MIN_SEND_INTERVAL_MILLIS,
        last matches Some(l) ==> (now >= l + MIN_SEND_INTERVAL_MILLIS ==> send_time(last, now) == now),
{
}

// ---------------------------------------------------------------------------
// Fan-out to the recipients
// ---------------------------------------------------------------------------

/// What one recipient's `sendMessage` call came back with.
pub enum RecipientReply {
    /// Telegram answered (with `ok` true or false).
    Answered(SendMessageResponse),
    /// The call failed before Telegram answered.
    Unreachable,
}

/// The wait a rate-limited reply asks for: its `retry_after`, or one second
/// when it gives none. `None` when the reply is not a 429.
pub open spec fn reply_wait(r: RecipientReply) -> Option<u64> {
    match r {
        RecipientReply::Answered(resp) => if !resp.ok && resp.error_code == Some(429i32) {
            Some(
                match resp.parameters {
                    Some(p) => match p.retry_after {
                        Some(secs) => secs,
                        None => 1u64,
                    },
                    None => 1u64,
                },
            )
        } else {
            None
        },
        RecipientReply::Unreachable => None,
    }
}

/// Whether a reply is a success.
pub open spec fn reply_delivered(r: RecipientReply) -> bool {
    r matches RecipientReply::Answered(resp) && resp.ok
}

/// Index of the first successful reply, if any.
pub open spec fn first_delivered(rs: Seq<RecipientReply>) -> Option<int>
    decreases rs.len(),
{
    if rs.len() == 0 {
        None
    } else {
        match first_delivered(rs.drop_last()) {
            Some(k) => Some(k),
            None => if reply_delivered(rs.last()) {
                Some(rs.len() - 1)
            } else {
                None
            },
        }
    }
}

proof fn lemma_first_delivered(rs: Seq<RecipientReply>)
    ensures
        first_delivered(rs) matches Some(k) ==> 0 <= k < rs.len() && reply_delivered(rs[k]),
        first_delivered(rs) is None ==> forall|k: int|
            0 <= k < rs.len() ==> !reply_delivered(#[trigger] rs[k]),
    decreases rs.len(),
{
    if rs.len() > 0 {
        lemma_first_delivered(rs.drop_last());
        assert forall|k: int| 0 <= k < rs.len() - 1 implies #[trigger] rs[k] == rs.drop_last()[k] by {}
    }
}

/// The longest wait asked for by the rate-limited replies, if any.
pub open spec fn longest_wait(rs: Seq<RecipientReply>) -> Option<u64>
    decreases rs.len(),
{
    if rs.len() == 0 {
        None
    } else {
        let before = longest_wait(rs.drop_last());
        match reply_wait(rs.last()) {
            None => before,
            Some(w) => match before {
                None => Some(w),
                Some(b) => Some(if b >= w {
                    b
                } else {
                    w
                }),
            },
        }
    }
}

/// Bookkeeping of one broadcast: the first successful reply and the longest
/// rate-limit wait seen so far.
pub struct BroadcastTally {
    /// First successful reply.
    pub first_ok: Option<SendMessageResponse>,
    /// Longest wait asked for by a 429 reply.
    pub retry_after: Option<u64>,
    /// The replies recorded so far.
    pub replies: Ghost<Seq<RecipientReply>>,
}

impl BroadcastTally {
    /// The tally's fields agree with the replies recorded.
    pub open spec fn wf(&self) -> bool {
        &&& (self.first_ok is Some <==> first_delivered(self.replies@) is Some)
        &&& (first_delivered(self.replies@) matches Some(k) ==> self.replies@[k]
            == RecipientReply::Answered(self.first_ok->0))
        &&& self.retry_after == longest_wait(self.replies@)
    }

    /// A tally with no reply recorded.
    pub fn new() -> (t: BroadcastTally)
        ensures
            t.wf(),
            t.replies@ == Seq::<RecipientReply>::empty(),
    {
        BroadcastTally { first_ok: None, retry_after: None, replies: Ghost(Seq::empty()) }
    }

    /// Records the next recipient's reply.
    pub fn record(&mut self, reply: RecipientReply)
        requires
            old(self).wf(),
        ensures
            final(self).wf(),
            final(self).replies@ == old(self).replies@.push(reply),
    {
        let ghost rs = self.replies@.push(reply);
        proof {
            assert(rs.drop_last() =~= self.replies@);
            assert(rs.last() == reply);
        }
        match reply {
            RecipientReply::Answered(resp) => {
                if resp.ok {
                    if self.first_ok.is_none() {
                        self.first_ok = Some(resp);
                    }
                } else if match resp.error_code {
                    Some(code) => code == 429,
                    None => false,
                } {
                    let secs = match &resp.parameters {
                        Some(p) => match p.retry_after {
                            Some(s) => s,
                            None => 1,
                        },
                        None => 1,
                    };
                    self.retry_after = match self.retry_after {
                        None => Some(secs),
                        Some(current) => Some(
                            if current >= secs {
                                current
                            } else {
                                secs
                            },
                        ),
                    };
                }
            },
            RecipientReply::Unreachable => {},
        }
        self.replies = Ghost(rs);
        proof {
            lemma_first_delivered(old(self).replies@);
            if first_delivered(old(self).replies@) is Some {
                let k = first_delivered(old(self).replies@)->0;
                assert(rs[k] == old(self).replies@[k]);
            }
        }
    }

    /// The broadcast's result: the first successful reply, or the longest
    /// rate-limit wait seen (`None` when no failure was a 429).
    pub fn finish(self) -> (r: Result<SendMessageResponse, Option<u64>>)
        requires
            self.wf(),
        ensures
            r is Ok <==> first_delivered(self.replies@) is Some,
            r matches Ok(resp) ==> self.replies@[first_delivered(self.replies@)->0]
                == RecipientReply::Answered(resp),
            r matches Err(w) ==> w == longest_wait(self.replies@),
    {
        match self.first_ok {
            Some(resp) => Ok(resp),
            None => Err(self.retry_after),
        }
    }
}

// ---------------------------------------------------------------------------
// Retry policy of `Telegram::send`
// ---------------------------------------------------------------------------

/// `s` without its backslashes: the plain-text fallback drops the
/// `MarkdownV2` escapes so the text reads cleanly.
pub open spec fn without_backslashes(s: Seq<char>) -> Seq<char> {
    s.filter(|c: char| c != '\\')
}

/// `str::replace('\\', "")`.
pub fn remove_backslashes(s: &str) -> (r: String)
    ensures
        r@ == without_backslashes(s@),
{
    let v = chars_of(s);
    let mut r = String::new();
    let mut i: usize = 0;
    while i < v.len()
        invariant
            i <= v@.len(),
            v@ == s@,
            r@ == without_backslashes(v@.take(i as int)),
        decreases v@.len() - i,
    {
        proof {
            assert(v@.take(i + 1).drop_last() == v@.take(i as int));
            reveal_with_fuel(Seq::filter, 1);
        }
        if v[i] != '\\' {
            push_char(&mut r, v[i]);
        }
        i = i + 1;
    }
    assert(v@.take(v@.len() as int) == v@);
    r
}

/// Where `Telegram::send` stands.
pub enum SendStage {
    /// The first `MarkdownV2` broadcast is out.
    Markdown,
    /// The broadcast repeated once after a rate limit is out.
    MarkdownAgain,
    /// The plain-text broadcast is out.
    PlainText,
    /// A result was returned.
    Done,
}

impl SendStage {
    /// How far along the attempt is.
    pub open spec fn rank(self) -> int {
        match self {
            SendStage::Markdown => 1,
            SendStage::MarkdownAgain => 2,
            SendStage::PlainText => 3,
            SendStage::Done => 4,
        }
    }
}

/// Why `Telegram::send` gave up.
pub enum SendError {
    /// No recipient received the message, not even as plain text.
    AllRecipientsFailed,
}

impl SendError {
    /// The error text.
    pub fn message(&self) -> (m: String)
        ensures
            m@ == "Failed to send message to any recipient even after plain-text fallback"@,
    {
        string_of("Failed to send message to any recipient even after plain-text fallback")
    }
}

/// The next step of `Telegram::send`.
pub enum SendAction {
    /// Wait `wait_secs` seconds, broadcast `text` (as `MarkdownV2` unless
    /// `plain`), then report the broadcast's result.
    Broadcast { wait_secs: u64, text: String, plain: bool },
    /// Return this result.
    Finish(Result<SendMessageResponse, SendError>),
}

/// The wait, text and plain-text flag of a broadcast step.
pub open spec fn broadcast_of(a: SendAction) -> Option<(u64, Seq<char>, bool)> {
    match a {
        SendAction::Broadcast { wait_secs, text, plain } => Some((wait_secs, text@, plain)),
        SendAction::Finish(_) => None,
    }
}

/// Where a send stands after a broadcast with `result`: done on a
/// delivery; after the first `MarkdownV2` broadcast, repeating it on a rate
/// limit and falling back to plain text otherwise; after the repeat, the
/// plain text; after the plain text, done.
pub open spec fn stage_after(stage: SendStage, result: Result<SendMessageResponse, Option<u64>>) -> SendStage {
    match result {
        Ok(_) => SendStage::Done,
        Err(wait) => match stage {
            SendStage::Markdown => if wait is Some {
                SendStage::MarkdownAgain
            } else {
                SendStage::PlainText
            },
            SendStage::MarkdownAgain => SendStage::PlainText,
            _ => SendStage::Done,
        },
    }
}

/// Law: whatever Telegram answers, a send is over after at most three
/// broadcasts, so each remedy (the repeat after a rate limit, the
/// plain-text fallback) is tried at most once.
pub proof fn lemma_send_ends_within_three_broadcasts(
    first: Result<SendMessageResponse, Option<u64>>,
    second: Result<SendMessageResponse, Option<u64>>,
    third: Result<SendMessageResponse, Option<u64>>,
)
    ensures
        stage_after(stage_after(stage_after(SendStage::Markdown, first), second), third)
            == SendStage::Done,
{
}

/// The retry policy of `Telegram::send`: one `MarkdownV2` broadcast; after a
/// rate limit, one more after the requested wait plus a second; after any
/// other failure (or a second failure), one plain-text broadcast without
/// the escapes. Each remedy is tried at most once.
pub struct SendAttempt {
    /// The message as given.
    pub message: String,
    /// Where the attempt stands.
    pub stage: SendStage,
}

impl SendAttempt {
    /// Starts sending `message`: the first step is a `MarkdownV2` broadcast
    /// of the message as it is, without waiting.
    pub fn start(message: &str) -> (r: (SendAttempt, SendAction))
        ensures
            r.0.message@ == message@,
            r.0.stage == SendStage::Markdown,
            broadcast_of(r.1) == Some((0u64, message@, false)),
    {
        (
            SendAttempt { message: string_of(message), stage: SendStage::Markdown },
            SendAction::Broadcast { wait_secs: 0, text: string_of(message), plain: false },
        )
    }

    /// The next step, given the result of the broadcast just made (the
    /// first successful reply, or the longest rate-limit wait).
    pub fn on_broadcast(&mut self, result: Result<SendMessageResponse, Option<u64>>) -> (action:
        SendAction)
        requires
            old(self).stage != SendStage::Done,
            old(self).stage == SendStage::Markdown ==> (result matches Err(Some(w)) ==> w < u64::MAX),
        ensures
            final(self).message@ == old(self).message@,
            final(self).stage.rank() > old(self).stage.rank(),
            final(self).stage == stage_after(old(self).stage, result),
            result matches Ok(resp) ==> final(self).stage == SendStage::Done && action
                == SendAction::Finish(Ok(resp)),
            result matches Err(Some(w)) ==> (old(self).stage == SendStage::Markdown ==> (
            final(self).stage == SendStage::MarkdownAgain && broadcast_of(action) == Some(
                ((w + 1) as u64, old(self).message@, false),
            ))),
            ((old(self).stage == SendStage::Markdown && result == Err::<
                SendMessageResponse,
                Option<u64>,
            >(None)) || (old(self).stage == SendStage::MarkdownAgain && result is Err)) ==> (
            final(self).stage == SendStage::PlainText && broadcast_of(action) == Some(
                (0u64, without_backslashes(old(self).message@), true),
            )),
            (old(self).stage == SendStage::PlainText && result is Err) ==> (final(self).stage
                == SendStage::Done && action == SendAction::Finish(
                Err(SendError::AllRecipientsFailed),
            )),
    {
        match result {
            Ok(resp) => {
                self.stage = SendStage::Done;
                SendAction::Finish(Ok(resp))
            },
            Err(wait) => {
                match self.stage {
                    SendStage::Markdown => {
                        match wait {
                            Some(w) => {
                                self.stage = SendStage::MarkdownAgain;
                                SendAction::Broadcast {
                                    wait_secs: w + 1,
                                    text: string_of(self.message.as_str()),
                                    plain: false,
                                }
                            },
                            None => {
                                self.stage = SendStage::PlainText;
                                SendAction::Broadcast {
                                    wait_secs: 0,
                                    text: remove_backslashes(self.message.as_str()),
                                    plain: true,
                                }
                            },
                        }
                    },
                    SendStage::MarkdownAgain => {
                        self.stage = SendStage::PlainText;
                        SendAction::Broadcast {
                            wait_secs: 0,
                            text: remove_backslashes(self.message.as_str()),
                            plain: true,
                        }
                    },
                    _ => {
                        self.stage = SendStage::Done;
                        SendAction::Finish(Err(SendError::AllRecipientsFailed))
                    },
                }
            },
        }
    }
}

// ---------------------------------------------------------------------------
// Alerts
// ---------------------------------------------------------------------------

/// The characters `MarkdownV2` treats as markup, which must be escaped
/// with a backslash to be shown as they are (the backslash itself included).
pub open spec fn is_markdown_special(c: char) -> bool {
    c == '_' || c == '*' || c == '[' || c == ']' || c == '(' || c == ')' || c == '~' || c == '`'
        || c == '>' || c == '#' || c == '+' || c == '-' || c == '=' || c == '|' || c == '{' || c
        == '}' || c == '.' || c == '!' || c == '\\'
}

/// `s` with a backslash before every markup character.
pub open spec fn markdown_escaped(s: Seq<char>) -> Seq<char>
    decreases s.len(),
{
    if s.len() == 0 {
        Seq::empty()
    } else {
        let c = s.last();
        markdown_escaped(s.drop_last()) + if is_markdown_special(c) {
            seq!['\\', c]
        } else {
            seq![c]
        }
    }
}

fn markdown_special(c: char) -> (r: bool)
    ensures
        r == is_markdown_special(c),
{
    c == '_' || c == '*' || c == '[' || c == ']' || c == '(' || c == ')' || c == '~' || c == '`'
        || c == '>' || c == '#' || c == '+' || c == '-' || c == '=' || c == '|' || c == '{' || c
        == '}' || c == '.' || c == '!' || c == '\\'
}

/// Appends `t` escaped for `MarkdownV2` to `s`.
pub fn push_markdown_escaped(s: &mut String, t: &str)
    ensures
        final(s)@ == old(s)@ + markdown_escaped(t@),
{
    let v = chars_of(t);
    let ghost start = s@;
    let mut i: usize = 0;
    while i < v.len()
        invariant
            i <= v@.len(),
            v@ == t@,
            s@ == start + markdown_escaped(v@.take(i as int)),
        decreases v@.len() - i,
    {
        let c = v[i];
        proof {
            assert(v@.take(i + 1).drop_last() == v@.take(i as int));
            assert(v@.take(i + 1).last() == c);
        }
        if markdown_special(c) {
            push_char(s, '\\');
            push_char(s, c);
            assert(start + markdown_escaped(v@.take(i as int)) + seq!['\\', c] == start
                + markdown_escaped(v@.take(i as int)).push('\\').push(c));
        } else {
            push_char(s, c);
            assert(start + markdown_escaped(v@.take(i as int)) + seq![c] == start
                + markdown_escaped(v@.take(i as int)).push(c));
        }
        i = i + 1;
    }
    assert(v@.take(v@.len() as int) == v@);
}

/// `text` escaped for `MarkdownV2`.
pub fn escape_markdown_v2(text: &str) -> (r: String)
    ensures
        r@ == markdown_escaped(text@),
{
    let mut r = String::new();
    push_markdown_escaped(&mut r, text);
    assert(Seq::<char>::empty() + markdown_escaped(text@) == markdown_escaped(text@));
    r
}

/// The text of a critical alert: a bold banner, then the title, the time
/// and the details in a code block, each escaped for `MarkdownV2`.
pub open spec fn alert_text(title: Seq<char>, time: Seq<char>, details: Seq<char>) -> Seq<char> {
    "\u{26a0}\u{fe0f} *\u{3010}\u{7cfb}\u{7d71}\u{95dc}\u{9375}\u{8b66}\u{5831}\u{3011}*\n*\u{6a19}\u{984c}*\u{fe30}"@
        + markdown_escaped(title) + "\n*\u{6642}\u{9593}*\u{fe30}"@ + markdown_escaped(time)
        + "\n*\u{8a73}\u{60c5}*\u{fe30}\n```\n"@ + markdown_escaped(details) + "\n```"@
}

/// Builds the alert text for `title` and `details`, stamped with `time`
/// (local time as `YYYY-MM-DD HH:MM:SS`).
pub fn alert_message(title: &str, time: &str, details: &str) -> (m: String)
    ensures
        m@ == alert_text(title@, time@, details@),
{
    let mut m = string_of(
        "\u{26a0}\u{fe0f} *\u{3010}\u{7cfb}\u{7d71}\u{95dc}\u{9375}\u{8b66}\u{5831}\u{3011}*\n*\u{6a19}\u{984c}*\u{fe30}",
    );
    push_markdown_escaped(&mut m, title);
    push_str(&mut m, "\n*\u{6642}\u{9593}*\u{fe30}");
    push_markdown_escaped(&mut m, time);
    push_str(&mut m, "\n*\u{8a73}\u{60c5}*\u{fe30}\n```\n");
    push_markdown_escaped(&mut m, details);
    push_str(&mut m, "\n```");
    m
}

} // verus!
