//! Percent-complete arithmetic and the byte counter that decides when a
//! progress value is worth publishing.

use vstd::prelude::*;

verus! {

/// Progress values are published only when they are a multiple of this step.
pub const REPORT_STEP: u8 = 5;

/// The percentage of `total` that `written` amounts to: the quotient
/// `written * 100 / total` rounded down and capped at 100. A transfer of
/// zero bytes has nothing left to move and counts as complete.
pub open spec fn percent(written: nat, total: nat) -> nat {
    if total == 0 || written * 100 / total >= 100 {
        100
    } else {
        written * 100 / total
    }
}

/// Whether a progress value lies on a reporting boundary.
pub open spec fn on_boundary(progress: nat) -> bool {
    progress % (REPORT_STEP as nat) == 0
}

/// What a tracker publishes after reaching `written` of `total` bytes:
/// the percentage when it lies on a boundary, nothing otherwise.
pub open spec fn report_at(written: nat, total: nat) -> Option<u8> {
    if on_boundary(percent(written, total)) {
        Some(percent(written, total) as u8)
    } else {
        None
    }
}

/// The count of bytes after `count` more have been counted: it stops at
/// the largest machine size.
pub open spec fn advanced(written: nat, count: nat) -> nat {
    if written + count <= usize::MAX {
        written + count
    } else {
        usize::MAX as nat
    }
}

/// Progress never exceeds 100.
pub proof fn lemma_percent_bounded(written: nat, total: nat)
    ensures
        percent(written, total) <= 100,
{
}

/// Progress never goes down while the byte count goes up.
pub proof fn lemma_percent_monotone(earlier: nat, later: nat, total: nat)
    requires
        earlier <= later,
    ensures
        percent(earlier, total) <= percent(later, total),
{
    if total > 0 {
        assert(earlier * 100 <= later * 100);
        assert(earlier * 100 / total <= later * 100 / total) by (nonlinear_arith)
            requires
                earlier * 100 <= later * 100,
                total > 0,
        ;
    }
}

/// Progress is 100 exactly when every byte of a non-empty transfer has been
/// counted.
pub proof fn lemma_percent_complete(written: nat, total: nat)
    requires
        total > 0,
    ensures
        percent(written, total) == 100 <==> written >= total,
{
    assert(written * 100 / total >= 100 <==> written >= total) by (nonlinear_arith)
        requires
            total > 0,
    ;
}

/// Nothing written yet is 0 percent of a non-empty transfer, which lies on
/// a boundary.
pub proof fn lemma_percent_start(total: nat)
    requires
        total > 0,
    ensures
        percent(0, total) == 0,
        report_at(0, total) == Some(0u8),
{
    assert(0nat * 100 / total == 0) by (nonlinear_arith)
        requires
            total > 0,
    ;
}

/// A finished transfer always publishes its final value, and that value is
/// 100.
pub proof fn lemma_report_complete(written: nat, total: nat)
    requires
        written >= total,
    ensures
        report_at(written, total) == Some(100u8),
{
    if total > 0 {
        lemma_percent_complete(written, total);
    }
}

/// Every published value is a multiple of the reporting step and at most
/// 100.
pub proof fn lemma_report_shape(written: nat, total: nat)
    ensures
        report_at(written, total) matches Some(p) ==> p <= 100 && p % REPORT_STEP == 0 && p
            == percent(written, total),
{
}

/// Computes [`percent`] without overflow for any pair of machine sizes.
pub fn percent_of(written: usize, total: usize) -> (p: u8)
    ensures
        p == percent(written as nat, total as nat),
{
    if total == 0 {
        return 100;
    }
    let scaled: u128 = (written as u128) * 100;
    let quotient: u128 = scaled / (total as u128);
    if quotient >= 100 {
        100
    } else {
        quotient as u8
    }
}

/// Whether `progress` should be published.
pub fn is_report_boundary(progress: u8) -> (b: bool)
    ensures
        b == on_boundary(progress as nat),
{
    progress % REPORT_STEP == 0
}

/// Counts the bytes that have gone through a writer and turns the count
/// into progress reports.
pub struct ProgressTracker {
    written: usize,
    total_size: usize,
}

impl ProgressTracker {
    /// Bytes counted so far.
    pub closed spec fn written(&self) -> nat {
        self.written as nat
    }

    /// Bytes expected in all.
    pub closed spec fn total_size(&self) -> nat {
        self.total_size as nat
    }

    /// Both counts of a tracker are machine sizes.
    pub proof fn lemma_counts_fit(&self)
        ensures
            self.written() <= usize::MAX,
            self.total_size() <= usize::MAX,
    {
    }

    /// A tracker for a transfer of `total_size` bytes, with nothing counted.
    pub fn new(total_size: usize) -> (t: Self)
        ensures
            t.written() == 0,
            t.total_size() == total_size,
    {
        ProgressTracker { written: 0, total_size }
    }

    /// The percentage reached so far.
    pub fn progress(&self) -> (p: usize)
        ensures
            p == percent(self.written(), self.total_size()),
    {
        percent_of(self.written, self.total_size) as usize
    }

    /// The number of bytes counted so far.
    pub fn bytes_written(&self) -> (n: usize)
        ensures
            n == self.written(),
    {
        self.written
    }

    /// The number of bytes expected in all.
    pub fn bytes_expected(&self) -> (n: usize)
        ensures
            n == self.total_size(),
    {
        self.total_size
    }

    /// Counts `count` more bytes and says what to publish: the new
    /// percentage when it lies on a reporting boundary, nothing otherwise.
    /// The count saturates at the largest machine size.
    pub fn record(&mut self, count: usize) -> (report: Option<u8>)
        ensures
            final(self).total_size() == old(self).total_size(),
            final(self).written() == advanced(old(self).written(), count as nat),
            final(self).written() >= old(self).written(),
            report == report_at(final(self).written(), final(self).total_size()),
    {
        self.written = self.written.saturating_add(count);
        let p = percent_of(self.written, self.total_size);
        if is_report_boundary(p) {
            Some(p)
        } else {
            None
        }
    }
}

/// A tracker's progress never goes down across a call of
/// [`ProgressTracker::record`], whatever the count.
pub proof fn lemma_record_monotone(before: ProgressTracker, after: ProgressTracker)
    requires
        after.total_size() == before.total_size(),
        after.written() >= before.written(),
    ensures
        percent(before.written(), before.total_size()) <= percent(
            after.written(),
            after.total_size(),
        ),
{
    lemma_percent_monotone(before.written(), after.written(), before.total_size());
}

} // verus!
