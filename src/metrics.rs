//! The process-wide count of delivered messages.

use vstd::prelude::*;

verus! {

/// The character of a decimal digit.
pub open spec fn digit_char(d: nat) -> char {
    if d == 0 { '0' }
    else if d == 1 { '1' }
    else if d == 2 { '2' }
    else if d == 3 { '3' }
    else if d == 4 { '4' }
    else if d == 5 { '5' }
    else if d == 6 { '6' }
    else if d == 7 { '7' }
    else if d == 8 { '8' }
    else { '9' }
}

/// The decimal notation of `n`, without sign or leading zeros.
pub open spec fn decimal(n: nat) -> Seq<char>
    decreases n,
{
    if n < 10 {
        seq![digit_char(n)]
    } else {
        decimal(n / 10).push(digit_char(n % 10))
    }
}

/// Relies on `u64`'s `Display` through `ToString::to_string`: it writes
/// the number in decimal.
#[verifier::external_body]
fn decimal_string(n: u64) -> (r: String)
    ensures
        r@ == decimal(n as nat),
{
    n.to_string()
}

/// The counter after one more delivery. It stops at `u64::MAX`.
pub open spec fn after_delivery(count: u64) -> u64 {
    if count < u64::MAX { (count + 1) as u64 } else { count }
}

/// The counter after `n` deliveries, starting from `count`.
pub open spec fn after_deliveries(count: u64, n: nat) -> u64
    decreases n,
{
    if n == 0 { count } else { after_delivery(after_deliveries(count, (n - 1) as nat)) }
}

/// Counts individual deliveries: a message that reaches K subscribers
/// counts K times.
pub struct DeliveryCounter {
    count: u64,
}

impl DeliveryCounter {
    /// The number of deliveries counted since creation or the last reset.
    pub closed spec fn value(&self) -> u64 {
        self.count
    }

    /// A counter at zero.
    pub fn new() -> (c: DeliveryCounter)
        ensures
            c.value() == 0,
    {
        DeliveryCounter { count: 0 }
    }

    /// Counts one successful delivery to one subscriber.
    pub fn record_delivery(&mut self)
        ensures
            final(self).value() == after_delivery(old(self).value()),
    {
        if self.count < u64::MAX {
            self.count = self.count + 1;
        }
    }

    /// Sets the counter back to zero.
    pub fn reset(&mut self)
        ensures
            final(self).value() == 0,
    {
        self.count = 0;
    }

    /// The number of deliveries counted.
    pub fn count(&self) -> (r: u64)
        ensures
            r == self.value(),
    {
        self.count
    }

    /// The counter as a decimal string.
    pub fn views(&self) -> (r: String)
        ensures
            r@ == decimal(self.value() as nat),
    {
        decimal_string(self.count)
    }
}

/// Starting from zero, `n` deliveries (no more than `u64::MAX`) leave the
/// counter at exactly `n`.
pub proof fn lemma_counter_counts_deliveries(n: nat)
    requires
        n <= u64::MAX,
    ensures
        after_deliveries(0, n) == n,
    decreases n,
{
    if n > 0 {
        lemma_counter_counts_deliveries((n - 1) as nat);
    }
}

/// The counter at zero reads as `"0"`.
pub proof fn lemma_zero_reads_as_zero()
    ensures
        decimal(0) == seq!['0'],
{
}

} // verus!
