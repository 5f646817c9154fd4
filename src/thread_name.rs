use vstd::prelude::*;

use crate::MAX_THREAD_NAME;

verus! {

/// Most digits that fit in a thread tag beside its NUL byte.
pub const MAX_TAG_DIGITS: usize = 15;

/// Room for the decimal digits of any `u64`.
pub const MAX_U64_DIGITS: usize = 20;

/// The ASCII decimal digits of `n`, least significant first.
pub open spec fn digits_rev(n: nat) -> Seq<u8>
    decreases n,
{
    if n < 10 {
        seq![(48 + n) as u8]
    } else {
        seq![(48 + n % 10) as u8] + digits_rev(n / 10)
    }
}

/// The ASCII decimal representation of `n`, most significant digit first.
pub open spec fn decimal(n: nat) -> Seq<u8> {
    let d = digits_rev(n);
    Seq::new(d.len(), |j: int| d[d.len() - 1 - j])
}

/// The last `MAX_TAG_DIGITS` digits of `n`'s decimal representation (all of
/// them when there are no more), most significant first.
pub open spec fn tag_digits(n: nat) -> Seq<u8> {
    let d = decimal(n);
    if d.len() <= MAX_TAG_DIGITS {
        d
    } else {
        d.subrange(d.len() - MAX_TAG_DIGITS, d.len() as int)
    }
}

/// A thread tag that names a thread by its id: its digits, then NUL bytes up
/// to `MAX_THREAD_NAME`.
pub open spec fn thread_tag(n: nat) -> Seq<u8> {
    let t = tag_digits(n);
    t + Seq::new((MAX_THREAD_NAME - t.len()) as nat, |i: int| 0u8)
}

pub open spec fn pow10(k: nat) -> nat
    decreases k,
{
    if k == 0 {
        1
    } else {
        10 * pow10((k - 1) as nat)
    }
}

proof fn lemma_digits_len(n: nat, k: nat)
    requires
        k >= 1,
        n < pow10(k),
    ensures
        1 <= digits_rev(n).len() <= k,
    decreases k,
{
    if n >= 10 {
        assert(k >= 2) by {
            if k == 1 {
                assert(pow10(1) == 10 * pow10(0));
            }
        }
        let k1 = (k - 1) as nat;
        assert(pow10(k) == 10 * pow10(k1));
        assert(n / 10 < pow10(k1)) by (nonlinear_arith)
            requires
                n < 10 * pow10(k1),
        ;
        lemma_digits_len(n / 10, k1);
    }
}

proof fn lemma_u64_digits(n: u64)
    ensures
        1 <= digits_rev(n as nat).len() <= MAX_U64_DIGITS,
{
    reveal_with_fuel(pow10, 21);
    assert(pow10(20) == 100000000000000000000nat);
    lemma_digits_len(n as nat, 20);
}

/// Writes the thread id in decimal into `name`, without formatting machinery
/// and without allocating: its last `MAX_TAG_DIGITS` digits, then NUL bytes.
pub fn write_thread_name_fallback(current_thread: u64, name: &mut [u8; MAX_THREAD_NAME])
    ensures
        final(name)@ == thread_tag(current_thread as nat),
{
    let ghost all = digits_rev(current_thread as nat);
    proof {
        lemma_u64_digits(current_thread);
    }
    let mut rev = [0u8; MAX_U64_DIGITS];
    let mut cnt: usize = 0;
    let mut m: u64 = current_thread;
    loop
        invariant_except_break
            cnt + digits_rev(m as nat).len() == all.len(),
            rev@.take(cnt as int) + digits_rev(m as nat) == all,
        invariant
            rev@.len() == MAX_U64_DIGITS,
            all == digits_rev(current_thread as nat),
            all.len() <= MAX_U64_DIGITS,
        ensures
            cnt == all.len(),
            rev@.take(cnt as int) == all,
        decreases m,
    {
        proof {
            assert(digits_rev(m as nat).len() >= 1);
        }
        let digit: u8 = (48 + m % 10) as u8;
        rev[cnt] = digit;
        proof {
            let r = digits_rev(m as nat);
            assert(r[0] == digit);
            assert(rev@.take(cnt + 1) =~= rev@.take(cnt as int).push(digit));
            if m >= 10 {
                assert(r =~= seq![digit] + digits_rev((m / 10) as nat));
                assert(rev@.take(cnt + 1) + digits_rev((m / 10) as nat) =~= rev@.take(cnt as int) + r);
            } else {
                assert(r =~= seq![digit]);
                assert(rev@.take(cnt + 1) =~= rev@.take(cnt as int) + r);
            }
        }
        cnt += 1;
        if m < 10 {
            proof {
                assert(digits_rev(m as nat) =~= seq![digit]);
                assert(rev@.take(cnt as int) =~= all);
            }
            break;
        }
        m = m / 10;
    }
    let k: usize = if cnt <= MAX_TAG_DIGITS {
        cnt
    } else {
        MAX_TAG_DIGITS
    };
    let mut j: usize = 0;
    while j < MAX_THREAD_NAME
        invariant
            k <= MAX_TAG_DIGITS < MAX_THREAD_NAME,
            k <= cnt <= MAX_U64_DIGITS,
            cnt == all.len(),
            all == digits_rev(current_thread as nat),
            rev@.len() == MAX_U64_DIGITS,
            rev@.take(cnt as int) == all,
            name@.len() == MAX_THREAD_NAME,
            forall|i: int| 0 <= i < j && i < k ==> name@[i] == rev@[k - 1 - i],
            forall|i: int| 0 <= i < j && k <= i ==> name@[i] == 0,
        decreases MAX_THREAD_NAME - j,
    {
        if j < k {
            name[j] = rev[k - 1 - j];
        } else {
            name[j] = 0;
        }
        j += 1;
    }
    proof {
        let n = current_thread as nat;
        let d = decimal(n);
        let t = tag_digits(n);
        assert(d.len() == cnt);
        assert(t.len() == k);
        assert forall|i: int| 0 <= i < k implies t[i] == rev@[k - 1 - i] by {
            assert(rev@[k - 1 - i] == rev@.take(cnt as int)[k - 1 - i]);
            if cnt > MAX_TAG_DIGITS {
                assert(t[i] == d[cnt - MAX_TAG_DIGITS + i]);
            }
        }
        assert(name@ =~= thread_tag(n));
    }
}

/// The length of the name held in `name`: up to its first NUL byte, or the
/// whole buffer when it holds none.
pub fn name_len(name: &[u8; MAX_THREAD_NAME]) -> (r: usize)
    ensures
        r <= MAX_THREAD_NAME,
        forall|i: int| 0 <= i < r ==> name@[i] != 0,
        r < MAX_THREAD_NAME ==> name@[r as int] == 0,
{
    let mut i: usize = 0;
    while i < MAX_THREAD_NAME
        invariant
            i <= MAX_THREAD_NAME,
            name@.len() == MAX_THREAD_NAME,
            forall|k: int| 0 <= k < i ==> name@[k] != 0,
        decreases MAX_THREAD_NAME - i,
    {
        if name[i] == 0 {
            return i;
        }
        i += 1;
    }
    MAX_THREAD_NAME
}

} // verus!
