//! The decoded quote record, and reordering of decoded quotes.
//!
//! Instants are microseconds since the Unix epoch.  Prices carry two
//! implied decimal places, so they are held as integer hundredths;
//! quantities are unscaled integers.

use vstd::prelude::*;

verus! {

/// One decoded market quote: the capture instant of the frame it came
/// from, the exchange-side accept instant, the instrument identifier,
/// and the five bid and five ask levels as transmitted.  Each level is
/// a (price in hundredths, quantity) pair.
#[derive(Debug, PartialEq)]
pub struct Quote {
    pub packet_time: u64,
    pub accept_time: u64,
    pub issue_code: String,
    pub bids: Vec<(u64, u64)>,
    pub asks: Vec<(u64, u64)>,
}

/// The mathematical content of a `Quote`.
#[verifier::ext_equal]
pub ghost struct QuoteModel {
    pub packet_time: u64,
    pub accept_time: u64,
    pub issue_code: Seq<char>,
    pub bids: Seq<(u64, u64)>,
    pub asks: Seq<(u64, u64)>,
}

impl View for Quote {
    type V = QuoteModel;

    open spec fn view(&self) -> QuoteModel {
        QuoteModel {
            packet_time: self.packet_time,
            accept_time: self.accept_time,
            issue_code: self.issue_code@,
            bids: self.bids@,
            asks: self.asks@,
        }
    }
}

/// The quotes appear in order of accept time.
pub open spec fn sorted_by_accept_time(s: Seq<Quote>) -> bool {
    forall|i: int, j: int| 0 <= i < j < s.len() ==> s[i].accept_time <= s[j].accept_time
}

/// The quotes of `s` whose accept time is `k`, in the order they hold
/// in `s`.
pub open spec fn with_accept_time(s: Seq<Quote>, k: u64) -> Seq<Quote> {
    s.filter(|q: Quote| q.accept_time == k)
}

/// A stretch holding no quote with accept time `k` contributes nothing
/// to that group.
proof fn lemma_group_empty(s: Seq<Quote>, k: u64)
    requires
        forall|i: int| 0 <= i < s.len() ==> s[i].accept_time != k,
    ensures
        with_accept_time(s, k) =~= Seq::<Quote>::empty(),
    decreases s.len(),
{
    reveal(Seq::filter);
    if s.len() > 0 {
        lemma_group_empty(s.drop_last(), k);
    }
}

/// Moving one quote leftwards past quotes of strictly later accept
/// time leaves every accept-time group unchanged.
proof fn lemma_move_preserves_groups(s: Seq<Quote>, j: int, i: int)
    requires
        0 <= j <= i < s.len(),
        forall|m: int| j <= m < i ==> s[m].accept_time > s[i].accept_time,
    ensures
        forall|k: u64| #[trigger] with_accept_time(s.remove(i).insert(j, s[i]), k)
            == with_accept_time(s, k),
{
    let x = s[i];
    let a = s.subrange(0, j);
    let b = s.subrange(j, i);
    let c = s.subrange(i + 1, s.len() as int);
    let xs = seq![x];
    assert(s =~= ((a + b) + xs) + c);
    assert(s.remove(i).insert(j, x) =~= ((a + xs) + b) + c);
    assert forall|k: u64| #[trigger] with_accept_time(s.remove(i).insert(j, s[i]), k)
        == with_accept_time(s, k) by {
        broadcast use Seq::filter_distributes_over_add;

        let fa = with_accept_time(a, k);
        let fb = with_accept_time(b, k);
        let fx = with_accept_time(xs, k);
        let fc = with_accept_time(c, k);
        assert(with_accept_time(((a + b) + xs) + c, k) == ((fa + fb) + fx) + fc);
        assert(with_accept_time(((a + xs) + b) + c, k) == ((fa + fx) + fb) + fc);
        if x.accept_time == k {
            assert forall|m: int| 0 <= m < b.len() implies b[m].accept_time != k by {
                assert(b[m] == s[j + m]);
            }
            lemma_group_empty(b, k);
            assert(((fa + fb) + fx) + fc =~= ((fa + fx) + fb) + fc);
        } else {
            lemma_group_empty(xs, k);
            assert(((fa + fb) + fx) + fc =~= ((fa + fx) + fb) + fc);
        }
    }
}

/// Stable reordering of decoded quotes by accept time: afterwards the
/// quotes stand in order of accept time, and quotes sharing one accept
/// time keep the relative order in which they were produced.
pub fn sort_by_accept_time(v: &mut Vec<Quote>)
    ensures
        sorted_by_accept_time(final(v)@),
        final(v)@.len() == old(v)@.len(),
        forall|k: u64| #[trigger] with_accept_time(final(v)@, k) == with_accept_time(old(v)@, k),
{
    let ghost orig = v@;
    let mut i: usize = 1;
    while i < v.len()
        invariant
            1 <= i,
            i <= v@.len() || v@.len() == 0,
            v@.len() == orig.len(),
            sorted_by_accept_time(v@.subrange(0, i as int)) || i > v@.len(),
            forall|k: u64| #[trigger] with_accept_time(v@, k) == with_accept_time(orig, k),
        decreases v@.len() - i,
    {
        let key = v[i].accept_time;
        let mut j: usize = i;
        while j > 0 && v[j - 1].accept_time > key
            invariant
                0 <= j <= i < v@.len(),
                key == v@[i as int].accept_time,
                forall|m: int| j <= m < i ==> v@[m].accept_time > key,
            decreases j,
        {
            j -= 1;
        }
        if j < i {
            let ghost before = v@;
            let x = v.remove(i);
            v.insert(j, x);
            proof {
                assert(v@ == before.remove(i as int).insert(j as int, before[i as int]));
                lemma_move_preserves_groups(before, j as int, i as int);
                assert forall|k: u64| #[trigger] with_accept_time(v@, k)
                    == with_accept_time(orig, k) by {
                    assert(with_accept_time(v@, k) == with_accept_time(before, k));
                }
                let pre = before.subrange(0, i as int);
                let post = v@.subrange(0, i + 1);
                assert forall|p: int, q: int| 0 <= p < q < post.len()
                    implies post[p].accept_time <= post[q].accept_time by {
                    if q < j {
                        assert(post[p] == pre[p] && post[q] == pre[q]);
                    } else if q == j {
                        assert(post[p] == pre[p] && post[q] == before[i as int]);
                        if j > 0 {
                            assert(pre[j - 1].accept_time <= key);
                            assert(pre[p].accept_time <= pre[j - 1].accept_time);
                        }
                    } else {
                        assert(post[q] == pre[q - 1]);
                        if p < j {
                            assert(post[p] == pre[p]);
                            if j > 0 {
                                assert(pre[j - 1].accept_time <= key);
                                assert(pre[p].accept_time <= pre[j - 1].accept_time);
                            }
                            assert(key <= pre[q - 1].accept_time);
                        } else if p == j {
                            assert(post[p] == before[i as int]);
                            assert(key <= pre[q - 1].accept_time);
                        } else {
                            assert(post[p] == pre[p - 1]);
                        }
                    }
                }
                assert(sorted_by_accept_time(v@.subrange(0, i as int + 1)));
            }
        } else {
            proof {
                let post = v@.subrange(0, i as int + 1);
                assert forall|p: int, q: int| 0 <= p < q < post.len()
                    implies post[p].accept_time <= post[q].accept_time by {
                    assert(post[p] == v@[p] && post[q] == v@[q]);
                    if q == i {
                        assert(v@[i as int - 1].accept_time <= key);
                        if p < i - 1 {
                            let pre = v@.subrange(0, i as int);
                            assert(pre[p] == v@[p] && pre[i - 1] == v@[i as int - 1]);
                        }
                    }
                }
                assert(sorted_by_accept_time(v@.subrange(0, i as int + 1)));
            }
        }
        i += 1;
    }
    proof {
        assert(v@.subrange(0, v@.len() as int) =~= v@);
    }
}

} // verus!
