use vstd::prelude::*;
use vstd::string::StrSliceExecFns;

use crate::quote::Quote;

verus! {

/// Lexicographic order on character sequences, by Unicode scalar value.
/// On the fixed zero-padded `HH:MM:SS.ff` acceptance-time format this is
/// exactly chronological order within one trading day.
pub open spec fn lex_le(a: Seq<char>, b: Seq<char>) -> bool
    decreases a.len(),
{
    if a.len() == 0 {
        true
    } else if b.len() == 0 {
        false
    } else if a[0] as u32 != b[0] as u32 {
        (a[0] as u32) < (b[0] as u32)
    } else {
        lex_le(a.skip(1), b.skip(1))
    }
}

/// The sort key of a Quote: its acceptance-time text.
pub open spec fn qkey(q: Quote) -> Seq<char> {
    q.accept_time@
}

/// Non-decreasing acceptance time.
pub open spec fn sorted_by_time(s: Seq<Quote>) -> bool {
    forall|i: int, j: int| 0 <= i < j < s.len() ==> lex_le(qkey(#[trigger] s[i]), qkey(#[trigger] s[j]))
}

/// The subsequence of quotes whose acceptance time is exactly `k`, in
/// order. A reordering is stable exactly when it leaves this subsequence
/// unchanged for every key.
pub open spec fn with_key(s: Seq<Quote>, k: Seq<char>) -> Seq<Quote> {
    s.filter(|q: Quote| q.accept_time@ == k)
}

pub proof fn lemma_lex_le_refl(a: Seq<char>, b: Seq<char>)
    requires
        a == b,
    ensures
        lex_le(a, b),
    decreases a.len(),
{
    if a.len() > 0 {
        lemma_lex_le_refl(a.skip(1), b.skip(1));
    }
}

pub proof fn lemma_lex_le_total(a: Seq<char>, b: Seq<char>)
    ensures
        lex_le(a, b) || lex_le(b, a),
    decreases a.len(),
{
    if a.len() > 0 && b.len() > 0 && a[0] as u32 == b[0] as u32 {
        lemma_lex_le_total(a.skip(1), b.skip(1));
    }
}

pub proof fn lemma_lex_le_trans(a: Seq<char>, b: Seq<char>, c: Seq<char>)
    requires
        lex_le(a, b),
        lex_le(b, c),
    ensures
        lex_le(a, c),
    decreases a.len(),
{
    if a.len() > 0 && c.len() > 0 && a[0] as u32 == c[0] as u32 {
        if b.len() > 0 && a[0] as u32 == b[0] as u32 && b[0] as u32 == c[0] as u32 {
            lemma_lex_le_trans(a.skip(1), b.skip(1), c.skip(1));
        }
    }
}

/// Characters left of `i` agree (by scalar value), so the comparison of
/// the whole texts is decided by the tails from `i` on.
proof fn lemma_lex_le_skip(a: Seq<char>, b: Seq<char>, i: int)
    requires
        0 <= i <= a.len(),
        i <= b.len(),
        forall|k: int| 0 <= k < i ==> #[trigger] a[k] as u32 == b[k] as u32,
    ensures
        lex_le(a, b) == lex_le(a.skip(i), b.skip(i)),
    decreases i,
{
    if i > 0 {
        assert(a[0] as u32 == b[0] as u32);
        assert(a.skip(1).skip(i - 1) =~= a.skip(i));
        assert(b.skip(1).skip(i - 1) =~= b.skip(i));
        assert forall|k: int| 0 <= k < i - 1 implies #[trigger] a.skip(1)[k] as u32 == b.skip(
            1,
        )[k] as u32 by {
            assert(a.skip(1)[k] == a[k + 1]);
            assert(b.skip(1)[k] == b[k + 1]);
            assert(a[k + 1] as u32 == b[k + 1] as u32);
        }
        lemma_lex_le_skip(a.skip(1), b.skip(1), i - 1);
    } else {
        assert(a.skip(0) =~= a);
        assert(b.skip(0) =~= b);
    }
}

/// Decide `lex_le(a@, b@)` by walking the two texts together.
pub fn str_lex_le(a: &str, b: &str) -> (r: bool)
    ensures
        r == lex_le(a@, b@),
{
    let a_len = a.unicode_len();
    let b_len = b.unicode_len();
    let mut i: usize = 0;
    loop
        invariant
            i <= a_len == a@.len(),
            i <= b_len == b@.len(),
            forall|k: int| 0 <= k < i ==> #[trigger] a@[k] as u32 == b@[k] as u32,
        decreases a_len - i,
    {
        proof {
            lemma_lex_le_skip(a@, b@, i as int);
        }
        if i == a_len {
            return true;
        }
        if i == b_len {
            return false;
        }
        let ca = a.get_char(i);
        let cb = b.get_char(i);
        if (ca as u32) != (cb as u32) {
            return (ca as u32) < (cb as u32);
        }
        i = i + 1;
    }
}

/// No element of `s` satisfies the predicate, so the filter is empty.
proof fn lemma_filter_all_false(s: Seq<Quote>, pred: spec_fn(Quote) -> bool)
    requires
        forall|i: int| 0 <= i < s.len() ==> !pred(#[trigger] s[i]),
    ensures
        s.filter(pred) == Seq::<Quote>::empty(),
    decreases s.len(),
{
    reveal(Seq::filter);
    if s.len() > 0 {
        lemma_filter_all_false(s.drop_last(), pred);
    }
}

/// A filter that keeps as many elements as the sequence has keeps them all.
proof fn lemma_filter_full(s: Seq<Quote>, pred: spec_fn(Quote) -> bool)
    requires
        s.filter(pred).len() == s.len(),
    ensures
        s.filter(pred) == s,
    decreases s.len(),
{
    reveal(Seq::filter);
    broadcast use Seq::lemma_filter_len;

    if s.len() > 0 {
        let sub = s.drop_last();
        if pred(s.last()) {
            assert(s.filter(pred) == sub.filter(pred).push(s.last()));
            assert(sub.filter(pred).len() == sub.len());
            lemma_filter_full(sub, pred);
            assert(s.filter(pred) =~= s);
        } else {
            assert(s.filter(pred) == sub.filter(pred));
            assert(sub.filter(pred).len() <= sub.len());
            assert(false);
        }
    }
}

/// The arrangement after one element has been moved left, from position
/// `i` to position `j`, over the elements in between.
pub open spec fn moved_left(s: Seq<Quote>, j: int, i: int) -> Seq<Quote>
    recommends
        0 <= j < i < s.len(),
{
    s.subrange(0, j) + seq![s[i]] + s.subrange(j, i) + s.subrange(i + 1, s.len() as int)
}

/// Moving an element left over elements that all carry a different key
/// leaves every key's subsequence unchanged.
proof fn lemma_move_left_keeps_filters(s: Seq<Quote>, j: int, i: int)
    requires
        0 <= j < i < s.len(),
        forall|k: int| j <= k < i ==> qkey(#[trigger] s[k]) != qkey(s[i]),
    ensures
        forall|key: Seq<char>| #[trigger] with_key(moved_left(s, j, i), key) == with_key(s, key),
{
    broadcast use Seq::filter_distributes_over_add;

    let a = s.subrange(0, j);
    let e = seq![s[i]];
    let b = s.subrange(j, i);
    let c = s.subrange(i + 1, s.len() as int);
    assert(s =~= (a + b) + (e + c));
    assert(moved_left(s, j, i) =~= (a + e) + (b + c));
    assert forall|key: Seq<char>| #[trigger] with_key(moved_left(s, j, i), key) == with_key(s, key) by {
        reveal_with_fuel(Seq::<Quote>::filter, 2);
        let pred = |q: Quote| q.accept_time@ == key;
        if key == qkey(s[i]) {
            lemma_filter_all_false(b, pred);
            assert(e.drop_last() =~= Seq::<Quote>::empty());
            assert(e.filter(pred) == Seq::<Quote>::empty().filter(pred).push(s[i]));
        } else {
            lemma_filter_all_false(e, pred);
        }
        assert(with_key(moved_left(s, j, i), key) =~= with_key(s, key));
    }
}

/// Stable reordering by acceptance time: afterwards the quotes are in
/// non-decreasing acceptance-time order, and for every key the
/// subsequence of quotes carrying that key is exactly what it was, in the
/// same order — ties keep their arrival order.
pub fn sort_by_accept_time(v: &mut Vec<Quote>)
    ensures
        final(v)@.len() == old(v)@.len(),
        sorted_by_time(final(v)@),
        forall|k: Seq<char>| #[trigger] with_key(final(v)@, k) == with_key(old(v)@, k),
{
    let ghost orig = v@;
    let n: usize = v.len();
    if n < 2 {
        return;
    }
    let mut i: usize = 1;
    while i < n
        invariant
            1 <= i <= n == v@.len(),
            orig.len() == n,
            sorted_by_time(v@.take(i as int)),
            forall|k: Seq<char>| #[trigger] with_key(v@, k) == with_key(orig, k),
        decreases n - i,
    {
        let ghost pre = v@;
        let ghost ekey = qkey(pre[i as int]);
        proof {
            // spell the sortedness of the prefix out on `pre` itself
            assert forall|p: int, q: int| 0 <= p < q < i implies lex_le(
                qkey(#[trigger] pre[p]),
                qkey(#[trigger] pre[q]),
            ) by {
                let t = pre.take(i as int);
                assert(t[p] == pre[p]);
                assert(t[q] == pre[q]);
                assert(lex_le(qkey(t[p]), qkey(t[q])));
            }
        }
        let mut j: usize = 0;
        while j < i
            invariant
                j <= i < n == v@.len(),
                v@ == pre,
                qkey(pre[i as int]) == ekey,
                forall|k: int| 0 <= k < j ==> lex_le(qkey(#[trigger] pre[k]), ekey),
            ensures
                j <= i,
                v@ == pre,
                forall|k: int| 0 <= k < j ==> lex_le(qkey(#[trigger] pre[k]), ekey),
                j < i ==> !lex_le(qkey(pre[j as int]), ekey),
            decreases i - j,
        {
            if !str_lex_le(v[j].accept_time.as_str(), v[i].accept_time.as_str()) {
                break;
            }
            j = j + 1;
        }
        if j < i {
            proof {
                // everything the element is about to jump over carries a
                // key strictly above its own
                assert forall|k: int| j <= k < i implies qkey(#[trigger] pre[k]) != ekey by {
                    if qkey(pre[k]) == ekey {
                        if k > j {
                            assert(lex_le(qkey(pre[j as int]), qkey(pre[k])));
                        } else {
                            lemma_lex_le_refl(qkey(pre[j as int]), qkey(pre[k]));
                        }
                    }
                }
            }
            let e = v.remove(i);
            v.insert(j, e);
            proof {
                assert(v@ =~= moved_left(pre, j as int, i as int));
                lemma_move_left_keeps_filters(pre, j as int, i as int);
                lemma_lex_le_total(qkey(pre[j as int]), ekey);
                assert forall|p: int, q: int| 0 <= p < q < i + 1 implies lex_le(
                    qkey(#[trigger] v@[p]),
                    qkey(#[trigger] v@[q]),
                ) by {
                    let jj = j as int;
                    if q == jj {
                        // v@[q] is the moved element; everything before j
                        // was scanned and found not above it
                        assert(v@[p] == pre[p]);
                        assert(lex_le(qkey(pre[p]), ekey));
                    } else if p == jj {
                        // lex_le(ekey, pre[j]) by totality, and pre[j]
                        // precedes everything the element jumped over
                        assert(v@[q] == pre[q - 1]);
                        if q > jj + 1 {
                            lemma_lex_le_trans(ekey, qkey(pre[jj]), qkey(pre[q - 1]));
                        }
                    } else if p < jj && q > jj {
                        assert(v@[p] == pre[p] && v@[q] == pre[q - 1]);
                        assert(lex_le(qkey(pre[p]), qkey(pre[q - 1])));
                    } else if p > jj {
                        assert(v@[p] == pre[p - 1] && v@[q] == pre[q - 1]);
                        assert(lex_le(qkey(pre[p - 1]), qkey(pre[q - 1])));
                    } else {
                        assert(v@[p] == pre[p] && v@[q] == pre[q]);
                        assert(lex_le(qkey(pre[p]), qkey(pre[q])));
                    }
                }
                assert forall|p: int, q: int| 0 <= p < q < i + 1 implies lex_le(
                    qkey(#[trigger] v@.take(i + 1)[p]),
                    qkey(#[trigger] v@.take(i + 1)[q]),
                ) by {
                    assert(v@.take(i + 1)[p] == v@[p]);
                    assert(v@.take(i + 1)[q] == v@[q]);
                    assert(lex_le(qkey(v@[p]), qkey(v@[q])));
                }
            }
        } else {
            proof {
                assert(v@.take(i + 1) =~= pre.take(i as int).push(pre[i as int]));
                assert forall|p: int, q: int| 0 <= p < q < i + 1 implies lex_le(
                    qkey(#[trigger] v@.take(i + 1)[p]),
                    qkey(#[trigger] v@.take(i + 1)[q]),
                ) by {
                    if q == i {
                        assert(lex_le(qkey(pre[p]), ekey));
                    } else {
                        assert(lex_le(qkey(pre[p]), qkey(pre[q])));
                    }
                }
            }
        }
        i = i + 1;
    }
    proof {
        assert(v@.take(n as int) =~= v@);
    }
}

/// Ties are kept in arrival order: when two quotes share one acceptance
/// time, any reordering that preserves every key's subsequence hands the
/// pair back exactly as it arrived.
pub proof fn lemma_tied_pair_keeps_order(pre: Seq<Quote>, post: Seq<Quote>)
    requires
        pre.len() == 2,
        post.len() == 2,
        qkey(pre[0]) == qkey(pre[1]),
        forall|k: Seq<char>| #[trigger] with_key(post, k) == with_key(pre, k),
    ensures
        post == pre,
{
    reveal_with_fuel(Seq::<Quote>::filter, 3);
    let key = qkey(pre[0]);
    let pred = |q: Quote| q.accept_time@ == key;
    let one = pre.drop_last();
    assert(pred(pre[0]));
    assert(pred(pre[1]));
    assert(one.drop_last() =~= Seq::<Quote>::empty());
    assert(one.last() == pre[0] && pre.last() == pre[1]);
    assert(one.filter(pred) == one.drop_last().filter(pred).push(pre[0]));
    assert(pre.filter(pred) == one.filter(pred).push(pre[1]));
    assert(pre.filter(pred) =~= pre);
    assert(with_key(post, key) == with_key(pre, key));
    assert(post.filter(pred).len() == post.len());
    lemma_filter_full(post, pred);
    assert(post == pre);
}

/// Collector: accumulates decoded quotes in arrival order, and hands them
/// back either untouched or stably reordered by acceptance time.
pub struct Collector {
    pub quotes: Vec<Quote>,
    pub chronological: bool,
}

impl Collector {
    /// An empty collector; `chronological` asks for the reordering.
    pub fn new(chronological: bool) -> (r: Collector)
        ensures
            r.quotes@ == Seq::<Quote>::empty(),
            r.chronological == chronological,
    {
        Collector { quotes: Vec::new(), chronological }
    }

    /// Append one quote in arrival order.
    pub fn push(&mut self, q: Quote)
        ensures
            final(self).quotes@ == old(self).quotes@.push(q),
            final(self).chronological == old(self).chronological,
    {
        self.quotes.push(q);
    }

    /// Hand the quotes back: in arrival order, or — in chronological mode —
    /// stably reordered by acceptance time.
    pub fn into_quotes(self) -> (r: Vec<Quote>)
        ensures
            r@.len() == self.quotes@.len(),
            !self.chronological ==> r@ == self.quotes@,
            self.chronological ==> sorted_by_time(r@),
            self.chronological ==> forall|k: Seq<char>|
                #[trigger] with_key(r@, k) == with_key(self.quotes@, k),
    {
        let mut v = self.quotes;
        if self.chronological {
            sort_by_accept_time(&mut v);
        }
        v
    }
}

} // verus!
