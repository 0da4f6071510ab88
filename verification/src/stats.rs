//! Counters of what happened to the items of a download run.

use vstd::prelude::*;
use crate::text::{decimal, push_decimal};

verus! {

/// Counts of downloaded, failed, skipped and inherited (copied) items, and
/// the number of bytes downloaded.
#[derive(Clone, Copy, Debug)]
pub struct StatsContainer {
    pub ok: u64,
    pub failed: u64,
    pub skipped: u64,
    pub inherited: u64,
    pub size: u64,
}

/// The summary line of a set of counters.
pub open spec fn describe_spec(ok: nat, failed: nat, skipped: nat, inherited: nat) -> Seq<char> {
    "Ok: "@ + decimal(ok) + " | Err: "@ + decimal(failed) + " | Skp: "@ + decimal(skipped)
        + " | Cpd: "@ + decimal(inherited)
}

impl StatsContainer {
    /// The number of items counted, of every kind.
    pub open spec fn total(&self) -> int {
        self.ok + self.failed + self.skipped + self.inherited
    }

    /// Whether `after` is `self` with one more download counted.
    pub open spec fn one_more_ok(self, after: Self) -> bool {
        self.ok < u64::MAX && after == (StatsContainer { ok: (self.ok + 1) as u64, ..self })
    }

    /// Whether `after` is `self` with one more failure counted.
    pub open spec fn one_more_failed(self, after: Self) -> bool {
        self.failed < u64::MAX && after == (StatsContainer { failed: (self.failed + 1) as u64, ..self })
    }

    /// Whether `after` is `self` with one more skipped item counted.
    pub open spec fn one_more_skipped(self, after: Self) -> bool {
        self.skipped < u64::MAX && after == (StatsContainer { skipped: (self.skipped + 1) as u64, ..self })
    }

    /// Whether `after` is `self` with one more inherited item counted.
    pub open spec fn one_more_inherited(self, after: Self) -> bool {
        self.inherited < u64::MAX && after == (StatsContainer { inherited: (self.inherited + 1) as u64, ..self })
    }

    /// Counters that are all zero.
    pub open spec fn new_spec() -> Self {
        StatsContainer { ok: 0, failed: 0, skipped: 0, inherited: 0, size: 0 }
    }

    /// Counters that are all zero.
    pub fn new() -> (s: Self)
        ensures
            s == Self::new_spec(),
    {
        StatsContainer { ok: 0, failed: 0, skipped: 0, inherited: 0, size: 0 }
    }

    /// A one-line summary: `Ok: <ok> | Err: <failed> | Skp: <skipped> | Cpd: <inherited>`.
    pub fn describe(&self) -> (r: String)
        ensures
            r@ == describe_spec(self.ok as nat, self.failed as nat, self.skipped as nat, self.inherited as nat),
    {
        let mut r = String::new();
        r.append("Ok: ");
        push_decimal(&mut r, self.ok);
        r.append(" | Err: ");
        push_decimal(&mut r, self.failed);
        r.append(" | Skp: ");
        push_decimal(&mut r, self.skipped);
        r.append(" | Cpd: ");
        push_decimal(&mut r, self.inherited);
        assert(r@ =~= describe_spec(self.ok as nat, self.failed as nat, self.skipped as nat, self.inherited as nat));
        r
    }

    /// The number of items counted, of every kind.
    pub fn count(&self) -> (n: u64)
        requires
            self.total() <= u64::MAX,
        ensures
            n == self.total(),
    {
        self.ok + self.failed + self.skipped + self.inherited
    }

    /// Counts one more downloaded item.
    pub fn add_ok(&mut self) -> (r: &'static str)
        requires
            old(self).ok < u64::MAX,
        ensures
            old(self).one_more_ok(*final(self)),
            r@ == "DOWNLOADED"@,
    {
        self.ok = self.ok + 1;
        "DOWNLOADED"
    }

    /// Counts one more failed item.
    pub fn add_failed(&mut self) -> (r: &'static str)
        requires
            old(self).failed < u64::MAX,
        ensures
            old(self).one_more_failed(*final(self)),
            r@ == "FAILED"@,
    {
        self.failed = self.failed + 1;
        "FAILED"
    }

    /// Counts one more skipped item.
    pub fn add_skipped(&mut self) -> (r: &'static str)
        requires
            old(self).skipped < u64::MAX,
        ensures
            old(self).one_more_skipped(*final(self)),
            r@ == "SKIPPED"@,
    {
        self.skipped = self.skipped + 1;
        "SKIPPED"
    }

    /// Counts one more inherited (copied) item.
    pub fn add_inherited(&mut self) -> (r: &'static str)
        requires
            old(self).inherited < u64::MAX,
        ensures
            old(self).one_more_inherited(*final(self)),
            r@ == "INHERITED"@,
    {
        self.inherited = self.inherited + 1;
        "INHERITED"
    }

    /// Adds `bytes` to the number of bytes downloaded.
    pub fn add_size(&mut self, bytes: u64)
        requires
            old(self).size + bytes <= u64::MAX,
        ensures
            *final(self) == (StatsContainer { size: (old(self).size + bytes) as u64, ..*old(self) }),
    {
        self.size = self.size + bytes;
    }
}

/// Counting one item, of whatever kind, adds one to the total.
pub proof fn law_one_more_adds_one(before: StatsContainer, after: StatsContainer)
    requires
        before.one_more_ok(after) || before.one_more_failed(after) || before.one_more_skipped(after)
            || before.one_more_inherited(after),
    ensures
        after.total() == before.total() + 1,
{
}

/// The summary names each count by its label: the downloaded count after
/// `Ok: `, the failed count after `Err: `, the skipped count after `Skp: `,
/// and the inherited count after `Cpd: `, in that order.
pub proof fn law_describe_fields(ok: nat, failed: nat, skipped: nat, inherited: nat)
    ensures
        describe_spec(ok, failed, skipped, inherited) == "Ok: "@ + decimal(ok) + " | Err: "@ + decimal(failed)
            + " | Skp: "@ + decimal(skipped) + " | Cpd: "@ + decimal(inherited),
{
}

} // verus!
