//! The status vocabulary of the transition engine: parsing a client-supplied
//! status string (trimmed, case-insensitively) against the fixed set of legal
//! values, and the queue-token effect derived from each legal value.

use vstd::prelude::*;
use crate::models::OrderStatus;

verus! {

/// The whitespace characters stripped from both ends of a status string:
/// the Unicode White_Space set, the same characters `str::trim` removes.
pub open spec fn is_space_char(c: char) -> bool {
    let u = c as u32;
    ||| u == 0x09
    ||| u == 0x0A
    ||| u == 0x0B
    ||| u == 0x0C
    ||| u == 0x0D
    ||| u == 0x20
    ||| u == 0x85
    ||| u == 0xA0
    ||| u == 0x1680
    ||| (0x2000 <= u && u <= 0x200A)
    ||| u == 0x2028
    ||| u == 0x2029
    ||| u == 0x202F
    ||| u == 0x205F
    ||| u == 0x3000
}

/// `s` with its leading whitespace removed.
pub open spec fn trim_front(s: Seq<char>) -> Seq<char>
    decreases s.len(),
{
    if s.len() > 0 && is_space_char(s[0]) {
        trim_front(s.drop_first())
    } else {
        s
    }
}

/// `s` with its trailing whitespace removed.
pub open spec fn trim_back(s: Seq<char>) -> Seq<char>
    decreases s.len(),
{
    if s.len() > 0 && is_space_char(s.last()) {
        trim_back(s.drop_last())
    } else {
        s
    }
}

/// `c` with an ASCII capital letter folded to its lower-case form.
pub open spec fn lower_char(c: char) -> char {
    if 65 <= c as u32 && c as u32 <= 90 {
        (((c as u32) + 32) as u32) as char
    } else {
        c
    }
}

/// `s` folded character by character to lower case.
pub open spec fn lower_seq(s: Seq<char>) -> Seq<char> {
    Seq::new(s.len(), |i: int| lower_char(s[i]))
}

/// The normal form a status string is validated in: trimmed at both ends,
/// then folded to lower case.
pub open spec fn normalize(s: Seq<char>) -> Seq<char> {
    lower_seq(trim_back(trim_front(s)))
}

/// The status denoted by a client-supplied string, if its normal form is a
/// member of the fixed vocabulary.
pub open spec fn status_of(s: Seq<char>) -> Option<OrderStatus> {
    if normalize(s) == "pending"@ {
        Some(OrderStatus::Pending)
    } else if normalize(s) == "preparing"@ {
        Some(OrderStatus::Preparing)
    } else if normalize(s) == "ready"@ {
        Some(OrderStatus::Ready)
    } else if normalize(s) == "completed"@ {
        Some(OrderStatus::Completed)
    } else {
        None
    }
}

/// The canonical spelling of a status, as stored and reported.
pub open spec fn status_name(st: OrderStatus) -> Seq<char> {
    match st {
        OrderStatus::Pending => "pending"@,
        OrderStatus::Preparing => "preparing"@,
        OrderStatus::Ready => "ready"@,
        OrderStatus::Completed => "completed"@,
    }
}

impl OrderStatus {
    /// The canonical spelling of this status.
    pub fn name(&self) -> (r: &'static str)
        ensures
            r@ == status_name(*self),
    {
        match *self {
            OrderStatus::Pending => "pending",
            OrderStatus::Preparing => "preparing",
            OrderStatus::Ready => "ready",
            OrderStatus::Completed => "completed",
        }
    }
}

/// The queue-token side of a status change, as a value a store driver can
/// act on.
#[derive(Clone, Copy, PartialEq, Eq, Structural, Debug)]
pub enum TokenEffect {
    Keep,
    MarkReady,
    Remove,
}

/// The fixed mapping from a new order status to its queue-token effect:
/// ready marks the order's token ready, completed removes it, the other
/// statuses leave it alone.
pub fn token_effect(st: OrderStatus) -> (e: TokenEffect)
    ensures
        e == match st {
            OrderStatus::Pending => TokenEffect::Keep,
            OrderStatus::Preparing => TokenEffect::Keep,
            OrderStatus::Ready => TokenEffect::MarkReady,
            OrderStatus::Completed => TokenEffect::Remove,
        },
{
    match st {
        OrderStatus::Pending => TokenEffect::Keep,
        OrderStatus::Preparing => TokenEffect::Keep,
        OrderStatus::Ready => TokenEffect::MarkReady,
        OrderStatus::Completed => TokenEffect::Remove,
    }
}

proof fn lemma_trim_front_skip(s: Seq<char>, k: int)
    requires
        0 <= k <= s.len(),
        forall|i: int| 0 <= i < k ==> is_space_char(s[i]),
        k == s.len() || !is_space_char(s[k]),
    ensures
        trim_front(s) == s.subrange(k, s.len() as int),
    decreases k,
{
    if k == 0 {
        assert(s.subrange(0, s.len() as int) =~= s);
    } else {
        let t = s.drop_first();
        assert(t =~= s.subrange(1, s.len() as int));
        lemma_trim_front_skip(t, k - 1);
        assert(t.subrange(k - 1, t.len() as int) =~= s.subrange(k, s.len() as int));
    }
}

proof fn lemma_trim_back_skip(s: Seq<char>, k: int)
    requires
        0 <= k <= s.len(),
        forall|i: int| k <= i < s.len() ==> is_space_char(s[i]),
        k == 0 || !is_space_char(s[k - 1]),
    ensures
        trim_back(s) == s.subrange(0, k),
    decreases s.len() - k,
{
    if k == s.len() {
        assert(s.subrange(0, k) =~= s);
    } else {
        let t = s.drop_last();
        assert(t =~= s.subrange(0, s.len() - 1));
        lemma_trim_back_skip(t, k);
        assert(t.subrange(0, k) =~= s.subrange(0, k));
    }
}

fn is_space_exec(c: char) -> (r: bool)
    ensures
        r == is_space_char(c),
{
    let u: u32 = c as u32;
    u == 0x09 || u == 0x0A || u == 0x0B || u == 0x0C || u == 0x0D || u == 0x20
        || u == 0x85 || u == 0xA0 || u == 0x1680
        || (0x2000 <= u && u <= 0x200A)
        || u == 0x2028 || u == 0x2029 || u == 0x202F || u == 0x205F || u == 0x3000
}

/// True when the lower-cased form of `s[lo..hi]` spells exactly `kw`,
/// compared character by character.
fn eq_folded(s: &str, lo: usize, hi: usize, kw: &str) -> (r: bool)
    requires
        lo <= hi <= s@.len(),
        kw@.len() == hi - lo,
    ensures
        r == (lower_seq(s@.subrange(lo as int, hi as int)) == kw@),
{
    let ghost t = s@.subrange(lo as int, hi as int);
    let n: usize = hi - lo;
    let mut i: usize = 0;
    while i < n
        invariant
            0 <= i <= n,
            n == hi - lo,
            lo <= hi <= s@.len(),
            kw@.len() == n,
            t == s@.subrange(lo as int, hi as int),
            forall|j: int| 0 <= j < i ==> lower_char(t[j]) == kw@[j],
        decreases n - i,
    {
        let c: u32 = s.get_char(lo + i) as u32;
        let folded: u32 = if 65 <= c && c <= 90 { c + 32 } else { c };
        let k: u32 = kw.get_char(i) as u32;
        proof {
            assert(t[i as int] == s@[lo + i]);
            assert(folded == lower_char(t[i as int]) as u32);
        }
        if folded != k {
            proof {
                assert(lower_char(t[i as int]) != kw@[i as int]);
                assert(lower_seq(t)[i as int] != kw@[i as int]);
            }
            return false;
        }
        proof {
            assert(lower_char(t[i as int]) as u32 == kw@[i as int] as u32);
            assert(lower_char(t[i as int]) == kw@[i as int]);
        }
        i = i + 1;
    }
    proof {
        assert(lower_seq(t) =~= kw@);
    }
    true
}

/// Parse a client-supplied status string: trim both ends, fold case, and
/// accept exactly the members of `{pending, preparing, ready, completed}`.
pub fn parse_status(s: &str) -> (r: Option<OrderStatus>)
    ensures
        r == status_of(s@),
{
    let n: usize = s.unicode_len();
    let mut lo: usize = 0;
    while lo < n && is_space_exec(s.get_char(lo))
        invariant
            0 <= lo <= n,
            n == s@.len(),
            forall|i: int| 0 <= i < lo ==> is_space_char(s@[i]),
        decreases n - lo,
    {
        lo = lo + 1;
    }
    let mut hi: usize = n;
    while hi > lo && is_space_exec(s.get_char(hi - 1))
        invariant
            lo <= hi <= n,
            n == s@.len(),
            forall|i: int| 0 <= i < lo ==> is_space_char(s@[i]),
            lo == n || !is_space_char(s@[lo as int]),
            forall|i: int| hi <= i < n ==> is_space_char(s@[i]),
        decreases hi,
    {
        hi = hi - 1;
    }
    proof {
        lemma_trim_front_skip(s@, lo as int);
        let t = s@.subrange(lo as int, n as int);
        lemma_trim_back_skip(t, hi - lo);
        assert(t.subrange(0, hi - lo) =~= s@.subrange(lo as int, hi as int));
        assert(normalize(s@) == lower_seq(s@.subrange(lo as int, hi as int)));
        reveal_strlit("pending");
        reveal_strlit("preparing");
        reveal_strlit("ready");
        reveal_strlit("completed");
    }
    let len: usize = hi - lo;
    if len == 7 && eq_folded(s, lo, hi, "pending") {
        Some(OrderStatus::Pending)
    } else if len == 9 && eq_folded(s, lo, hi, "preparing") {
        Some(OrderStatus::Preparing)
    } else if len == 5 && eq_folded(s, lo, hi, "ready") {
        Some(OrderStatus::Ready)
    } else if len == 9 && eq_folded(s, lo, hi, "completed") {
        Some(OrderStatus::Completed)
    } else {
        proof {
            let norm = normalize(s@);
            assert(norm.len() == len);
        }
        None
    }
}

} // verus!
