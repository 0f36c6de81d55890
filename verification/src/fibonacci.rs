use vstd::prelude::*;

verus! {

/// Lengths from this one on are refused: the term at index 47 no longer fits in a `u32`.
pub const FIBONACCI_LEN_LIMIT: usize = 48;

/// The Fibonacci numbers as the sequence starts: 1, 1, 2, 3, 5, ...
pub open spec fn fib(i: nat) -> nat
    decreases i,
{
    if i < 2 {
        1
    } else {
        fib((i - 1) as nat) + fib((i - 2) as nat)
    }
}

/// `s` holds exactly the first `len` Fibonacci numbers.
pub open spec fn is_fibonacci_prefix(s: Seq<u32>, len: nat) -> bool {
    &&& s.len() == len
    &&& forall|i: int| 0 <= i < len ==> s[i] as nat == fib(i as nat)
}

/// Why a sequence was not computed.
#[derive(Debug, Clone, Copy, PartialEq, Eq, Structural)]
pub enum FibonacciError {
    /// The requested length would overflow a `u32` term.
    Overflow,
}

/// The sequence never decreases.
pub proof fn lemma_fib_monotone(i: nat, j: nat)
    requires
        i <= j,
    ensures
        fib(i) <= fib(j),
    decreases j,
{
    if i < j {
        lemma_fib_monotone(i, (j - 1) as nat);
        if j >= 2 {
            assert(fib(j) == fib((j - 1) as nat) + fib((j - 2) as nat));
        }
    }
}

/// The refused lengths are exactly those that overflow: every term of a
/// sequence shorter than `FIBONACCI_LEN_LIMIT` fits in a `u32`, and the next
/// term does not.
pub proof fn lemma_fibonacci_limit()
    ensures
        fib((FIBONACCI_LEN_LIMIT - 2) as nat) <= u32::MAX,
        fib((FIBONACCI_LEN_LIMIT - 1) as nat) > u32::MAX,
        forall|i: nat| i + 1 < FIBONACCI_LEN_LIMIT ==> #[trigger] fib(i) <= u32::MAX,
{
    assert(fib(0) == 1);
    assert(fib(1) == 1);
    assert(fib(2) == 2);
    assert(fib(3) == 3);
    assert(fib(4) == 5);
    assert(fib(5) == 8);
    assert(fib(6) == 13);
    assert(fib(7) == 21);
    assert(fib(8) == 34);
    assert(fib(9) == 55);
    assert(fib(10) == 89);
    assert(fib(11) == 144);
    assert(fib(12) == 233);
    assert(fib(13) == 377);
    assert(fib(14) == 610);
    assert(fib(15) == 987);
    assert(fib(16) == 1597);
    assert(fib(17) == 2584);
    assert(fib(18) == 4181);
    assert(fib(19) == 6765);
    assert(fib(20) == 10946);
    assert(fib(21) == 17711);
    assert(fib(22) == 28657);
    assert(fib(23) == 46368);
    assert(fib(24) == 75025);
    assert(fib(25) == 121393);
    assert(fib(26) == 196418);
    assert(fib(27) == 317811);
    assert(fib(28) == 514229);
    assert(fib(29) == 832040);
    assert(fib(30) == 1346269);
    assert(fib(31) == 2178309);
    assert(fib(32) == 3524578);
    assert(fib(33) == 5702887);
    assert(fib(34) == 9227465);
    assert(fib(35) == 14930352);
    assert(fib(36) == 24157817);
    assert(fib(37) == 39088169);
    assert(fib(38) == 63245986);
    assert(fib(39) == 102334155);
    assert(fib(40) == 165580141);
    assert(fib(41) == 267914296);
    assert(fib(42) == 433494437);
    assert(fib(43) == 701408733);
    assert(fib(44) == 1134903170);
    assert(fib(45) == 1836311903);
    assert(fib(46) == 2971215073);
    assert(fib(47) == 4807526976);
    assert forall|i: nat| i + 1 < FIBONACCI_LEN_LIMIT implies #[trigger] fib(i) <= u32::MAX by {
        lemma_fib_monotone(i, 46);
    }
}

/// The first `len` Fibonacci numbers, or `Overflow` when a term would not fit
/// in a `u32` (that is, when `len >= FIBONACCI_LEN_LIMIT`).
pub fn fibonacci_seq(len: usize) -> (res: Result<Vec<u32>, FibonacciError>)
    ensures
        res is Err <==> len >= FIBONACCI_LEN_LIMIT,
        res matches Err(e) ==> e == FibonacciError::Overflow,
        res matches Ok(v) ==> is_fibonacci_prefix(v@, len as nat),
{
    if len >= FIBONACCI_LEN_LIMIT {
        return Err(FibonacciError::Overflow);
    }
    proof {
        lemma_fibonacci_limit();
    }
    let mut fibonacci_vec: Vec<u32> = Vec::new();
    match len {
        0 => {},
        1 => {
            fibonacci_vec.push(1);
        },
        _ => {
            fibonacci_vec.push(1);
            fibonacci_vec.push(1);
            let mut i: usize = 2;
            while i < len
                invariant
                    2 <= i <= len,
                    len < FIBONACCI_LEN_LIMIT,
                    is_fibonacci_prefix(fibonacci_vec@, i as nat),
                    forall|k: nat| k + 1 < FIBONACCI_LEN_LIMIT ==> #[trigger] fib(k) <= u32::MAX,
                decreases len - i,
            {
                assert(fib(i as nat) == fib((i - 1) as nat) + fib((i - 2) as nat));
                assert(fib(i as nat) <= u32::MAX);
                let next = fibonacci_vec[i - 1] + fibonacci_vec[i - 2];
                fibonacci_vec.push(next);
                i = i + 1;
            }
        },
    }
    Ok(fibonacci_vec)
}

} // verus!
