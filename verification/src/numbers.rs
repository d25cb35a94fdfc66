//! Numbers that stop at a bound, for contracts.

use vstd::prelude::*;

verus! {

/// The larger of two numbers.
pub open spec fn larger(a: nat, b: nat) -> nat {
    if a < b {
        b
    } else {
        a
    }
}

/// The smaller of two numbers.
pub open spec fn smaller(a: nat, b: nat) -> nat {
    if a < b {
        a
    } else {
        b
    }
}

/// A number, at most the largest of 128 bits.
pub open spec fn at_most_u128(number: nat) -> nat {
    smaller(number, u128::MAX as nat)
}

/// A number, at most the largest of 64 bits.
pub open spec fn at_most_u64(number: nat) -> nat {
    smaller(number, u64::MAX as nat)
}

/// A number, at most the largest that counts bytes.
pub open spec fn at_most_usize(number: nat) -> nat {
    smaller(number, usize::MAX as nat)
}

/// The larger of two numbers of 64 bits.
pub open spec fn larger_u64(a: u64, b: u64) -> u64 {
    larger(a as nat, b as nat) as u64
}

/// The smaller of two numbers of 64 bits.
pub open spec fn smaller_u64(a: u64, b: u64) -> u64 {
    smaller(a as nat, b as nat) as u64
}

/// The sum of two numbers of 64 bits, at most the largest of them.
pub open spec fn sum_u64(a: u64, b: u64) -> u64 {
    at_most_u64(a as nat + b as nat) as u64
}

/// The next number of 64 bits; the largest one is followed by itself.
pub open spec fn next_u64(number: u64) -> u64 {
    sum_u64(number, 1)
}

/// The larger of two numbers is one of them and not below the other, the smaller one is the other of them.
pub proof fn larger_and_smaller_are_the_two(a: nat, b: nat)
    ensures
        larger(a, b) >= a && larger(a, b) >= b,
        smaller(a, b) <= a && smaller(a, b) <= b,
        larger(a, b) == a || larger(a, b) == b,
        larger(a, b) + smaller(a, b) == a + b,
{
}

/// Numbers that fit are told as they are, and all others as the largest that fits.
pub proof fn numbers_that_fit_stay(number: nat, a: u64, b: u64)
    ensures
        number <= u64::MAX ==> at_most_u64(number) == number,
        number > u64::MAX ==> at_most_u64(number) == u64::MAX,
        number <= u128::MAX ==> at_most_u128(number) == number,
        number > u128::MAX ==> at_most_u128(number) == u128::MAX,
        number <= usize::MAX ==> at_most_usize(number) == number,
        number > usize::MAX ==> at_most_usize(number) == usize::MAX,
        larger_u64(a, b) >= a && larger_u64(a, b) >= b,
        larger_u64(a, b) == a || larger_u64(a, b) == b,
        smaller_u64(a, b) <= a && smaller_u64(a, b) <= b,
        smaller_u64(a, b) == a || smaller_u64(a, b) == b,
        a + b <= u64::MAX ==> sum_u64(a, b) == a + b,
        a + b > u64::MAX ==> sum_u64(a, b) == u64::MAX,
        a < u64::MAX ==> next_u64(a) == a + 1,
        next_u64(u64::MAX) == u64::MAX,
{
}

} // verus!
