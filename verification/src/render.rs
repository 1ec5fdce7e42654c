use vstd::prelude::*;
use vstd::string::StringExecFns;

use crate::quote::Quote;
use crate::text::push_char;

verus! {

/// The ASCII character of one decimal digit.
pub open spec fn dec_digit(d: int) -> char
    recommends
        0 <= d < 10,
{
    ((48 + d) as u8) as char
}

/// The decimal text of a non-negative integer, without padding.
pub open spec fn dec_of(n: nat) -> Seq<char>
    decreases n,
{
    if n < 10 {
        seq![dec_digit(n as int)]
    } else {
        dec_of(n / 10).push(dec_digit((n % 10) as int))
    }
}

/// One rendered level: ` quantity@price`.
pub open spec fn level_text(l: (u64, u64)) -> Seq<char> {
    seq![' '] + dec_of(l.0 as nat) + seq!['@'] + dec_of(l.1 as nat)
}

/// The rendered levels of a sequence, in the sequence's order.
pub open spec fn levels_text(s: Seq<(u64, u64)>) -> Seq<char>
    decreases s.len(),
{
    if s.len() == 0 {
        Seq::<char>::empty()
    } else {
        levels_text(s.drop_last()) + level_text(s.last())
    }
}

/// One output line for a quote: capture seconds, acceptance time and
/// instrument code, then the bid levels in reverse layout order (level 5
/// first) and the ask levels in forward layout order, each as
/// `quantity@price`, all space-separated.
pub open spec fn quote_line(q: Quote) -> Seq<char> {
    dec_of(q.pkt_secs as nat) + seq![' '] + q.accept_time@ + seq![' '] + q.issue_code@
        + levels_text(q.bids@.reverse()) + levels_text(q.asks@)
}

/// Append the decimal text of `n`.
fn push_u64(s: &mut String, n: u64)
    ensures
        final(s)@ == old(s)@ + dec_of(n as nat),
    decreases n,
{
    if n < 10 {
        push_char(s, (48 + n as u8) as char);
        proof {
            assert(s@ =~= old(s)@ + dec_of(n as nat));
        }
    } else {
        push_u64(s, n / 10);
        push_char(s, (48 + (n % 10) as u8) as char);
        proof {
            assert(s@ =~= old(s)@ + dec_of(n as nat));
        }
    }
}

/// Append ` quantity@price` for one level.
fn push_level(s: &mut String, l: (u64, u64))
    ensures
        final(s)@ == old(s)@ + level_text(l),
{
    push_char(s, ' ');
    push_u64(s, l.0);
    push_char(s, '@');
    push_u64(s, l.1);
    proof {
        assert(s@ =~= old(s)@ + level_text(l));
    }
}

/// Append every level, walking the sequence backwards.
fn push_levels_rev(s: &mut String, levels: &Vec<(u64, u64)>)
    ensures
        final(s)@ == old(s)@ + levels_text(levels@.reverse()),
{
    let n: usize = levels.len();
    let ghost rev = levels@.reverse();
    let mut i: usize = n;
    while i > 0
        invariant
            i <= n == levels@.len(),
            rev == levels@.reverse(),
            s@ == old(s)@ + levels_text(rev.take(n - i)),
        decreases i,
    {
        i = i - 1;
        push_level(s, levels[i]);
        proof {
            let m = n - i;
            assert(rev.take(m).drop_last() =~= rev.take(m - 1));
            assert(rev.take(m).last() == rev[m - 1]);
            assert(rev[m - 1] == levels@[i as int]);
            assert(s@ =~= old(s)@ + levels_text(rev.take(m)));
        }
    }
    proof {
        assert(rev.take(n as int) =~= rev);
    }
}

/// Append every level, walking the sequence forwards.
fn push_levels_fwd(s: &mut String, levels: &Vec<(u64, u64)>)
    ensures
        final(s)@ == old(s)@ + levels_text(levels@),
{
    let n: usize = levels.len();
    let mut i: usize = 0;
    while i < n
        invariant
            i <= n == levels@.len(),
            s@ == old(s)@ + levels_text(levels@.take(i as int)),
        decreases n - i,
    {
        push_level(s, levels[i]);
        i = i + 1;
        proof {
            assert(levels@.take(i as int).drop_last() =~= levels@.take(i - 1));
            assert(levels@.take(i as int).last() == levels@[i - 1]);
            assert(s@ =~= old(s)@ + levels_text(levels@.take(i as int)));
        }
    }
    proof {
        assert(levels@.take(n as int) =~= levels@);
    }
}

/// Formatter: render one quote as its one output line.
pub fn format_quote(q: &Quote) -> (r: String)
    ensures
        r@ == quote_line(*q),
{
    let mut s = String::new();
    push_u64(&mut s, q.pkt_secs);
    push_char(&mut s, ' ');
    s.append(q.accept_time.as_str());
    push_char(&mut s, ' ');
    s.append(q.issue_code.as_str());
    push_levels_rev(&mut s, &q.bids);
    push_levels_fwd(&mut s, &q.asks);
    proof {
        assert(s@ =~= quote_line(*q));
    }
    s
}

} // verus!
