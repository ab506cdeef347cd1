//! Operation counters: how often each operation was attempted, succeeded,
//! failed, failed through the user, and recovered after a failure.

use vstd::prelude::*;

use crate::text::{ascii_lower, ascii_lowercase, contains, has_substring, owned, str_eq};
use crate::time::{now_utc, UtcTime};

verus! {

#[derive(Clone, Copy, Debug, PartialEq, Eq, Structural)]
pub enum MetricOperation {
    Backup,
    Delete,
    Swap,
    Restore,
}

/// The key under which an operation's counters are kept.
pub open spec fn op_key(op: MetricOperation) -> Seq<char> {
    match op {
        MetricOperation::Backup => "backup"@,
        MetricOperation::Delete => "delete"@,
        MetricOperation::Swap => "swap"@,
        MetricOperation::Restore => "restore"@,
    }
}

impl MetricOperation {
    /// The key under which the operation's counters are kept.
    pub fn as_key(self) -> (k: &'static str)
        ensures
            k@ == op_key(self),
    {
        match self {
            MetricOperation::Backup => "backup",
            MetricOperation::Delete => "delete",
            MetricOperation::Swap => "swap",
            MetricOperation::Restore => "restore",
        }
    }
}

#[derive(Clone, Copy, Debug, PartialEq, Eq, Structural)]
pub struct OperationCounters {
    pub attempts: u64,
    pub successes: u64,
    pub failures: u64,
    pub user_errors: u64,
    pub recovered_failures: u64,
}

/// The counters of an operation not yet recorded.
pub open spec fn zero_counters() -> OperationCounters {
    OperationCounters { attempts: 0, successes: 0, failures: 0, user_errors: 0, recovered_failures: 0 }
}

/// The persisted counters, one entry per operation key (no key twice), and
/// when they last changed.
#[derive(Debug)]
pub struct MetricsRegistry {
    operations: Vec<(String, OperationCounters)>,
    updated_at: UtcTime,
}

/// No key occurs twice (the counters form a map).
pub open spec fn keys_distinct(ops: Seq<(String, OperationCounters)>) -> bool {
    forall|i: int, j: int| 0 <= i < j < ops.len() ==> (#[trigger] ops[i]).0@ != (#[trigger] ops[j]).0@
}

impl MetricsRegistry {
    #[verifier::type_invariant]
    spec fn well_formed(self) -> bool {
        keys_distinct(self.operations@)
    }

    /// The entries, one per operation key.
    pub closed spec fn ops(self) -> Seq<(String, OperationCounters)> {
        self.operations@
    }

    /// When the counters last changed.
    pub closed spec fn stamp(self) -> UtcTime {
        self.updated_at
    }

    /// The entries, one per operation key.
    pub fn operations(&self) -> (r: &Vec<(String, OperationCounters)>)
        ensures
            r@ == self.ops(),
    {
        &self.operations
    }

    /// When the counters last changed.
    pub fn updated_at(&self) -> (t: UtcTime)
        ensures
            t == self.stamp(),
    {
        self.updated_at
    }

    /// The registry of stored entries, as a map keeps them: a later entry for
    /// a key replaces an earlier one, in the earlier one's place.
    pub fn from_entries(entries: Vec<(String, OperationCounters)>, updated_at: UtcTime) -> (r: MetricsRegistry)
        ensures
            forall|k: Seq<char>| #[trigger] counters_for(r.ops(), k) == counters_for(entries@, k),
            r.stamp() == updated_at,
    {
        let mut ops: Vec<(String, OperationCounters)> = Vec::new();
        let n = entries.len();
        for i in 0..n
            invariant
                n == entries@.len(),
                keys_distinct(ops@),
                forall|k: Seq<char>| #[trigger] counters_for(ops@, k) == counters_for(entries@.take(i as int), k),
        {
            let ghost t = entries@.take(i + 1);
            assert(t.drop_last() =~= entries@.take(i as int));
            assert(t.last() == entries@[i as int]);
            let key = entries[i].0.clone();
            let c = entries[i].1;
            let ghost before = ops@;
            match find_op(&ops, key.as_str()) {
                Some(j) => {
                    proof {
                        lemma_counters_update(before, j as int, key@, c);
                    }
                    let name = ops[j].0.clone();
                    assert(name == ops@[j as int].0);
                    ops.set(j, (name, c));
                },
                None => {
                    proof {
                        lemma_counters_none(before, key@);
                    }
                    ops.push((key, c));
                    assert(ops@.drop_last() =~= before);
                    assert forall|a: int, b: int| 0 <= a < b < ops@.len() implies (#[trigger] ops@[a]).0@
                        != (#[trigger] ops@[b]).0@ by {
                        assert(ops@[a] == before[a]);
                        if b < before.len() {
                            assert(ops@[b] == before[b]);
                        }
                    }
                },
            }
            assert forall|k: Seq<char>| #[trigger] counters_for(ops@, k) == counters_for(t, k) by {
                assert(t.last().0@ == key@);
                if k != key@ {
                    assert(counters_for(ops@, k) == counters_for(before, k));
                }
            }
        }
        assert(entries@.take(n as int) =~= entries@);
        MetricsRegistry { operations: ops, updated_at }
    }
}

/// The counters kept under `key`, if any.
pub open spec fn counters_for(ops: Seq<(String, OperationCounters)>, key: Seq<char>) -> Option<OperationCounters>
    decreases ops.len(),
{
    if ops.len() == 0 {
        None
    } else if ops.last().0@ == key {
        Some(ops.last().1)
    } else {
        counters_for(ops.drop_last(), key)
    }
}

/// The counters of `key`, zero when it has none.
pub open spec fn counters_or_zero(ops: Seq<(String, OperationCounters)>, key: Seq<char>) -> OperationCounters {
    match counters_for(ops, key) {
        Some(c) => c,
        None => zero_counters(),
    }
}

/// One more recorded operation.
pub open spec fn bumped(c: OperationCounters, success: bool, user_error: bool, recovered: bool) -> OperationCounters {
    OperationCounters {
        attempts: (c.attempts + 1) as u64,
        successes: if success { (c.successes + 1) as u64 } else { c.successes },
        failures: if success { c.failures } else { (c.failures + 1) as u64 },
        user_errors: if user_error { (c.user_errors + 1) as u64 } else { c.user_errors },
        recovered_failures: if recovered { (c.recovered_failures + 1) as u64 } else { c.recovered_failures },
    }
}

/// The counters can take one more operation without passing `u64::MAX`.
pub open spec fn room_for_one(c: OperationCounters) -> bool {
    &&& c.attempts < u64::MAX
    &&& c.successes < u64::MAX
    &&& c.failures < u64::MAX
    &&& c.user_errors < u64::MAX
    &&& c.recovered_failures < u64::MAX
}

/// An empty registry, stamped `now`.
pub fn empty_registry(now: UtcTime) -> (r: MetricsRegistry)
    ensures
        r.ops().len() == 0,
        r.stamp() == now,
{
    MetricsRegistry { operations: Vec::new(), updated_at: now }
}

fn find_op(ops: &Vec<(String, OperationCounters)>, key: &str) -> (r: Option<usize>)
    requires
        keys_distinct(ops@),
    ensures
        r matches Some(i) ==> i < ops@.len() && ops@[i as int].0@ == key@ && counters_for(ops@, key@) == Some(ops@[i as int].1),
        r is None ==> counters_for(ops@, key@) is None,
{
    let n = ops.len();
    let mut i = n;
    assert(ops@.take(n as int) =~= ops@);
    while i > 0
        invariant
            i <= n == ops@.len(),
            keys_distinct(ops@),
            counters_for(ops@, key@) == counters_for(ops@.take(i as int), key@),
        decreases i,
    {
        let ghost t = ops@.take(i as int);
        assert(t.drop_last() =~= ops@.take(i - 1));
        if str_eq(ops[i - 1].0.as_str(), key) {
            return Some(i - 1);
        }
        i = i - 1;
    }
    None
}

proof fn lemma_counters_none(ops: Seq<(String, OperationCounters)>, key: Seq<char>)
    ensures
        counters_for(ops, key) is None ==> forall|a: int| 0 <= a < ops.len() ==> (#[trigger] ops[a]).0@ != key,
    decreases ops.len(),
{
    if ops.len() > 0 {
        let d = ops.drop_last();
        lemma_counters_none(d, key);
        if counters_for(ops, key) is None {
            assert forall|a: int| 0 <= a < ops.len() implies (#[trigger] ops[a]).0@ != key by {
                if a < ops.len() - 1 {
                    assert(ops[a] == d[a]);
                }
            }
        }
    }
}

proof fn lemma_counters_update(ops: Seq<(String, OperationCounters)>, i: int, key: Seq<char>, c: OperationCounters)
    requires
        keys_distinct(ops),
        0 <= i < ops.len(),
        ops[i].0@ == key,
    ensures
        forall|k: Seq<char>| k != key ==> #[trigger] counters_for(ops.update(i, (ops[i].0, c)), k) == counters_for(ops, k),
        counters_for(ops.update(i, (ops[i].0, c)), key) == Some(c),
        keys_distinct(ops.update(i, (ops[i].0, c))),
    decreases ops.len(),
{
    let u = ops.update(i, (ops[i].0, c));
    if i == ops.len() - 1 {
        assert(u.drop_last() =~= ops.drop_last());
        assert forall|k: Seq<char>| k != key implies #[trigger] counters_for(ops.update(i, (ops[i].0, c)), k) == counters_for(ops, k) by {
            assert(u.last().0@ == key);
        }
    } else {
        let d = ops.drop_last();
        assert(keys_distinct(d)) by {
            assert forall|a: int, b: int| 0 <= a < b < d.len() implies (#[trigger] d[a]).0@ != (#[trigger] d[b]).0@ by {
                assert(d[a] == ops[a] && d[b] == ops[b]);
            }
        }
        lemma_counters_update(d, i, key, c);
        assert(u.drop_last() =~= d.update(i, (d[i].0, c)));
        assert(ops.last().0@ != key) by {
            assert(ops[i].0@ != ops[ops.len() - 1].0@);
        }
        assert(u.last() == ops.last());
        assert forall|k: Seq<char>| k != key implies #[trigger] counters_for(ops.update(i, (ops[i].0, c)), k) == counters_for(ops, k) by {
            assert(counters_for(d.update(i, (d[i].0, c)), k) == counters_for(d, k));
        }
    }
    assert forall|a: int, b: int| 0 <= a < b < u.len() implies (#[trigger] u[a]).0@ != (#[trigger] u[b]).0@ by {
        assert(ops[a].0@ != ops[b].0@);
    }
}

/// `record_operation` at the instant `now`: the operation's counters (zero
/// when it had none) count one more attempt, one more success or failure,
/// possibly one more user error and recovered failure; the registry is
/// stamped `now`. The other operations' counters are unchanged.
pub fn record_operation_at(
    registry: &mut MetricsRegistry,
    operation: MetricOperation,
    success: bool,
    user_error: bool,
    recovered_after_failure: bool,
    now: UtcTime,
)
    requires
        room_for_one(counters_or_zero(old(registry).ops(), op_key(operation))),
    ensures
        counters_for(final(registry).ops(), op_key(operation)) == Some(
            bumped(counters_or_zero(old(registry).ops(), op_key(operation)), success, user_error, recovered_after_failure),
        ),
        forall|k: Seq<char>| k != op_key(operation) ==> #[trigger] counters_for(final(registry).ops(), k) == counters_for(old(registry).ops(), k),
        final(registry).stamp() == now,
{
    proof {
        use_type_invariant(&*registry);
    }
    let key = operation.as_key();
    let (index, current) = match find_op(&registry.operations, key) {
        Some(i) => (Some(i), registry.operations[i].1),
        None => (None, OperationCounters { attempts: 0, successes: 0, failures: 0, user_errors: 0, recovered_failures: 0 }),
    };
    let mut c = current;
    c.attempts = c.attempts + 1;
    if success {
        c.successes = c.successes + 1;
    } else {
        c.failures = c.failures + 1;
    }
    if user_error {
        c.user_errors = c.user_errors + 1;
    }
    if recovered_after_failure {
        c.recovered_failures = c.recovered_failures + 1;
    }
    let ghost before = registry.operations@;
    let mut ops: Vec<(String, OperationCounters)> = Vec::new();
    std::mem::swap(&mut ops, &mut registry.operations);
    assert(ops@ == before);
    match index {
        Some(i) => {
            proof {
                lemma_counters_update(before, i as int, key@, c);
            }
            let name = ops[i].0.clone();
            assert(name == ops@[i as int].0);
            ops.set(i, (name, c));
        },
        None => {
            proof {
                lemma_counters_none(before, key@);
            }
            ops.push((owned(key), c));
            assert(ops@.drop_last() =~= before);
            assert forall|a: int, b: int| 0 <= a < b < ops@.len() implies (#[trigger] ops@[a]).0@ != (#[trigger] ops@[b]).0@ by {
                assert(ops@[a] == before[a]);
                if b < before.len() {
                    assert(ops@[b] == before[b]);
                }
            }
        },
    }
    registry.operations = ops;
    registry.updated_at = now;
}

/// Whether one more operation of this kind can be counted.
pub fn can_record(registry: &MetricsRegistry, operation: MetricOperation) -> (r: bool)
    requires
    ensures
        r == room_for_one(counters_or_zero(registry.ops(), op_key(operation))),
{
    proof {
        use_type_invariant(registry);
    }
    match find_op(&registry.operations, operation.as_key()) {
        Some(i) => {
            let c = registry.operations[i].1;
            c.attempts < u64::MAX && c.successes < u64::MAX && c.failures < u64::MAX && c.user_errors < u64::MAX
                && c.recovered_failures < u64::MAX
        },
        None => true,
    }
}

/// `record_operation`, stamped with the current time.
pub fn record_operation(
    registry: &mut MetricsRegistry,
    operation: MetricOperation,
    success: bool,
    user_error: bool,
    recovered_after_failure: bool,
)
    requires
        room_for_one(counters_or_zero(old(registry).ops(), op_key(operation))),
    ensures
        counters_for(final(registry).ops(), op_key(operation)) == Some(
            bumped(counters_or_zero(old(registry).ops(), op_key(operation)), success, user_error, recovered_after_failure),
        ),
        forall|k: Seq<char>| k != op_key(operation) ==> #[trigger] counters_for(final(registry).ops(), k) == counters_for(old(registry).ops(), k),
{
    let now = now_utc();
    record_operation_at(registry, operation, success, user_error, recovered_after_failure, now);
}

/// One of the five counters, by position (attempts, successes, failures,
/// user errors, recovered failures).
pub open spec fn counter(c: OperationCounters, f: int) -> int {
    if f == 0 {
        c.attempts as int
    } else if f == 1 {
        c.successes as int
    } else if f == 2 {
        c.failures as int
    } else if f == 3 {
        c.user_errors as int
    } else {
        c.recovered_failures as int
    }
}

/// The sum of one counter over every operation.
pub open spec fn total(ops: Seq<(String, OperationCounters)>, f: int) -> int
    decreases ops.len(),
{
    if ops.len() == 0 {
        0
    } else {
        total(ops.drop_last(), f) + counter(ops.last().1, f)
    }
}

/// Every total fits in a `u64`.
pub open spec fn totals_in_range(ops: Seq<(String, OperationCounters)>) -> bool {
    forall|f: int| 0 <= f < 5 ==> #[trigger] total(ops, f) <= u64::MAX
}

/// The counts that a metrics snapshot is computed from.
#[derive(Clone, Copy, Debug)]
pub struct MetricTotals {
    pub attempts: u64,
    pub successes: u64,
    pub failures: u64,
    pub user_errors: u64,
    pub recovered_failures: u64,
    pub swap: Option<OperationCounters>,
    pub restore: Option<OperationCounters>,
}

proof fn lemma_total_nonneg(ops: Seq<(String, OperationCounters)>, f: int)
    ensures
        total(ops, f) >= 0,
    decreases ops.len(),
{
    if ops.len() > 0 {
        lemma_total_nonneg(ops.drop_last(), f);
    }
}

proof fn lemma_total_prefix(ops: Seq<(String, OperationCounters)>, i: int, f: int)
    requires
        0 <= i <= ops.len(),
    ensures
        0 <= total(ops.take(i), f) <= total(ops, f),
    decreases ops.len() - i,
{
    lemma_total_nonneg(ops.take(i), f);
    if i < ops.len() {
        lemma_total_prefix(ops, i + 1, f);
        assert(ops.take(i + 1).drop_last() =~= ops.take(i));
        assert(counter(ops.take(i + 1).last().1, f) >= 0);
    } else {
        assert(ops.take(i) =~= ops);
    }
}

fn counter_exec(c: &OperationCounters, f: usize) -> (v: u64)
    requires
        f < 5,
    ensures
        v == counter(*c, f as int),
{
    if f == 0 {
        c.attempts
    } else if f == 1 {
        c.successes
    } else if f == 2 {
        c.failures
    } else if f == 3 {
        c.user_errors
    } else {
        c.recovered_failures
    }
}

/// The total of counter `f`, none when it does not fit in a `u64`.
fn checked_total(ops: &Vec<(String, OperationCounters)>, f: usize) -> (r: Option<u64>)
    requires
        f < 5,
    ensures
        r matches Some(v) ==> v == total(ops@, f as int),
        r is None ==> total(ops@, f as int) > u64::MAX,
{
    let n = ops.len();
    let mut sum: u64 = 0;
    for i in 0..n
        invariant
            n == ops@.len(),
            f < 5,
            sum == total(ops@.take(i as int), f as int),
    {
        assert(ops@.take(i + 1).drop_last() =~= ops@.take(i as int));
        assert(ops@.take(i + 1).last() == ops@[i as int]);
        let v = counter_exec(&ops[i].1, f);
        match sum.checked_add(v) {
            Some(t) => {
                sum = t;
            },
            None => {
                proof {
                    lemma_total_prefix(ops@, i + 1, f as int);
                }
                return None;
            },
        }
    }
    assert(ops@.take(n as int) =~= ops@);
    Some(sum)
}

/// Whether every total fits in a `u64`.
pub fn totals_fit(registry: &MetricsRegistry) -> (r: bool)
    ensures
        r == totals_in_range(registry.ops()),
{
    let ops = &registry.operations;
    let mut f: usize = 0;
    while f < 5
        invariant
            f <= 5,
            ops@ == registry.ops(),
            forall|g: int| 0 <= g < f ==> #[trigger] total(ops@, g) <= u64::MAX,
        decreases 5 - f,
    {
        if checked_total(ops, f).is_none() {
            assert(!totals_in_range(registry.ops())) by {
                if totals_in_range(registry.ops()) {
                    let g = f as int;
                    assert(0 <= g < 5);
                    assert(total(registry.ops(), g) <= u64::MAX);
                }
            }
            return false;
        }
        f = f + 1;
    }
    true
}

fn known_total(ops: &Vec<(String, OperationCounters)>, f: usize) -> (v: u64)
    requires
        f < 5,
        totals_in_range(ops@),
    ensures
        v == total(ops@, f as int),
{
    assert(total(ops@, f as int) <= u64::MAX);
    match checked_total(ops, f) {
        Some(v) => v,
        None => 0,
    }
}

/// `read_snapshot`'s counts: the five totals over every operation, and the
/// swap and restore counters (none when never recorded). The rates are their
/// quotients.
pub fn metric_totals(registry: &MetricsRegistry) -> (t: MetricTotals)
    requires
        totals_in_range(registry.ops()),
    ensures
        t.attempts == total(registry.ops(), 0),
        t.successes == total(registry.ops(), 1),
        t.failures == total(registry.ops(), 2),
        t.user_errors == total(registry.ops(), 3),
        t.recovered_failures == total(registry.ops(), 4),
        t.swap == counters_for(registry.ops(), op_key(MetricOperation::Swap)),
        t.restore == counters_for(registry.ops(), op_key(MetricOperation::Restore)),
{
    proof {
        use_type_invariant(registry);
    }
    let ops = &registry.operations;
    let swap = match find_op(ops, MetricOperation::Swap.as_key()) {
        Some(i) => Some(ops[i].1),
        None => None,
    };
    let restore = match find_op(ops, MetricOperation::Restore.as_key()) {
        Some(i) => Some(ops[i].1),
        None => None,
    };
    MetricTotals {
        attempts: known_total(ops, 0),
        successes: known_total(ops, 1),
        failures: known_total(ops, 2),
        user_errors: known_total(ops, 3),
        recovered_failures: known_total(ops, 4),
        swap,
        restore,
    }
}

/// Every attempt ends as a success or a failure: counters in which successes
/// and failures add up to the attempts still do after one more operation.
pub proof fn law_outcomes_balance(c: OperationCounters, success: bool, user_error: bool, recovered: bool)
    requires
        c.successes + c.failures == c.attempts,
        room_for_one(c),
    ensures
        bumped(c, success, user_error, recovered).successes + bumped(c, success, user_error, recovered).failures
            == bumped(c, success, user_error, recovered).attempts,
        bumped(c, success, user_error, recovered).attempts == c.attempts + 1,
{
}

/// Recording an operation changes only that operation's counters.
pub proof fn law_record_isolated(
    before: Seq<(String, OperationCounters)>,
    after: Seq<(String, OperationCounters)>,
    op: MetricOperation,
    other: MetricOperation,
)
    requires
        op != other,
        forall|k: Seq<char>| k != op_key(op) ==> #[trigger] counters_for(after, k) == counters_for(before, k),
    ensures
        counters_for(after, op_key(other)) == counters_for(before, op_key(other)),
{
    reveal_strlit("backup");
    reveal_strlit("delete");
    reveal_strlit("swap");
    reveal_strlit("restore");
    assert(op_key(op)[0] != op_key(other)[0]);
}

/// A message that reads as a refusal by the safety rules or by the user,
/// rather than a fault.
pub open spec fn user_error_text(message: Seq<char>) -> bool {
    let l = ascii_lower(message);
    ||| contains(l, "confirmation required"@)
    ||| contains(l, "cancelled by user"@)
    ||| contains(l, "swap blocked"@)
    ||| contains(l, "delete blocked"@)
}

/// Whether an error message reads as a user error (a blocked or cancelled
/// action) rather than a fault, compared without ASCII case.
pub fn is_likely_user_error(message: &str) -> (r: bool)
    ensures
        r == user_error_text(message@),
{
    let normalized = ascii_lowercase(message);
    let n = normalized.as_str();
    has_substring(n, "confirmation required") || has_substring(n, "cancelled by user") || has_substring(n, "swap blocked")
        || has_substring(n, "delete blocked")
}

/// The outcome of holding the metrics against the release targets.
#[derive(Clone, Debug)]
pub struct MvpCriteriaEvaluation {
    pub meets_criteria: bool,
    pub failures: Vec<String>,
}

impl MvpCriteriaEvaluation {
    /// The evaluation with these unmet targets: met exactly when there are none.
    pub fn from_failures(failures: Vec<String>) -> (r: MvpCriteriaEvaluation)
        ensures
            r.failures@ == failures@,
            r.meets_criteria == (failures@.len() == 0),
    {
        let meets_criteria = failures.len() == 0;
        MvpCriteriaEvaluation { meets_criteria, failures }
    }
}

} // verus!
