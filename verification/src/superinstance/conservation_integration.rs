//! Budget enforcement for compilation operations under the conservation law
//! gamma + eta = C: crystallized (deterministic, cached) work and live
//! (inference, search) work share one daily budget.
//!
//! Amounts are whole numbers of nano-dollars (10^-9 USD); ratios are percentages.
use vstd::prelude::*;

verus! {

/// One dollar in nano-dollars.
pub const NANOS_PER_DOLLAR: u64 = 1_000_000_000;

/// The largest amount a tracker records as consumed; each operation costs far less.
pub const MAX_CONSUMED: u64 = 0xffff_ffff_0000_0000;

/// The cost of crystallizing a pattern.
pub const CRYSTALLIZE_COST: u64 = 50_000;

/// The most log entries a tracker keeps.
pub const MAX_LOG_ENTRIES: usize = 10000;

#[derive(Clone, Copy, Debug, PartialEq, Eq, Hash, Structural)]
pub enum CompileOperation {
    /// WGSL source parsing and validation
    WgslParse,
    /// SPIR-V bytecode generation from WGSL
    SpirvGenerate,
    /// ISF shader conversion to WGSL
    IsfConvert,
    /// GLSL to WGSL transpilation
    GlslTranspile,
    /// HLSL to WGSL transpilation
    HlslTranspile,
    /// Node graph to WGSL code generation
    NodeGraphGenerate,
    /// Model-assisted shader optimization
    LlmOptimize,
    /// Model-assisted error fix
    ErrorFix,
    /// General compilation operation
    General,
}

/// The crystallized (gamma) cost of an operation.
pub open spec fn gamma_of(op: CompileOperation) -> u64 {
    match op {
        CompileOperation::WgslParse => 100_000,
        CompileOperation::SpirvGenerate => 100_000,
        CompileOperation::IsfConvert => 300_000,
        CompileOperation::GlslTranspile => 500_000,
        CompileOperation::HlslTranspile => 500_000,
        CompileOperation::NodeGraphGenerate => 200_000,
        CompileOperation::LlmOptimize => 100_000,
        CompileOperation::ErrorFix => 100_000,
        CompileOperation::General => 200_000,
    }
}

/// The live (eta) cost of an operation.
pub open spec fn eta_of(op: CompileOperation) -> u64 {
    match op {
        CompileOperation::WgslParse => 0,
        CompileOperation::SpirvGenerate => 0,
        CompileOperation::IsfConvert => 10_000_000,
        CompileOperation::GlslTranspile => 20_000_000,
        CompileOperation::HlslTranspile => 20_000_000,
        CompileOperation::NodeGraphGenerate => 15_000_000,
        CompileOperation::LlmOptimize => 50_000_000,
        CompileOperation::ErrorFix => 50_000_000,
        CompileOperation::General => 10_000_000,
    }
}

/// Parsing and SPIR-V generation can always take the crystallized path.
pub open spec fn crystallizable(op: CompileOperation) -> bool {
    op == CompileOperation::WgslParse || op == CompileOperation::SpirvGenerate
}

/// Operations that cost nothing live: always allowed.
pub open spec fn always_free(op: CompileOperation) -> bool {
    crystallizable(op) && eta_of(op) == 0
}

impl CompileOperation {
    /// The crystallized (gamma) cost in nano-dollars.
    pub fn gamma_cost(&self) -> (c: u64)
        ensures
            c == gamma_of(*self),
    {
        match self {
            CompileOperation::WgslParse => 100_000,
            CompileOperation::SpirvGenerate => 100_000,
            CompileOperation::IsfConvert => 300_000,
            CompileOperation::GlslTranspile => 500_000,
            CompileOperation::HlslTranspile => 500_000,
            CompileOperation::NodeGraphGenerate => 200_000,
            CompileOperation::LlmOptimize => 100_000,
            CompileOperation::ErrorFix => 100_000,
            CompileOperation::General => 200_000,
        }
    }

    /// The live (eta) cost in nano-dollars.
    pub fn eta_cost(&self) -> (c: u64)
        ensures
            c == eta_of(*self),
    {
        match self {
            CompileOperation::WgslParse => 0,
            CompileOperation::SpirvGenerate => 0,
            CompileOperation::IsfConvert => 10_000_000,
            CompileOperation::GlslTranspile => 20_000_000,
            CompileOperation::HlslTranspile => 20_000_000,
            CompileOperation::NodeGraphGenerate => 15_000_000,
            CompileOperation::LlmOptimize => 50_000_000,
            CompileOperation::ErrorFix => 50_000_000,
            CompileOperation::General => 10_000_000,
        }
    }

    /// Whether this operation can use the crystallized (gamma) path.
    pub fn can_crystallize(&self) -> (b: bool)
        ensures
            b == crystallizable(*self),
    {
        matches!(self, CompileOperation::WgslParse | CompileOperation::SpirvGenerate)
    }
}

/// A logged budget decision.
#[derive(Clone, Copy, Debug)]
pub struct BudgetEntry {
    pub operation: CompileOperation,
    pub gamma_used: u64,
    pub eta_used: u64,
    pub total_cost: u64,
    pub allowed: bool,
}

/// The budgets and what has been consumed of them.
pub struct Budget {
    pub daily: int,
    pub crystallized: int,
    pub live: int,
    pub consumed: int,
    pub gamma_consumed: int,
    pub eta_consumed: int,
}

/// Whether an operation fits the budget: always for free operations; else
/// when its gamma cost fits the crystallized budget, or its eta cost fits
/// the live budget, or both together fit the daily budget.
pub open spec fn affordable(b: Budget, op: CompileOperation) -> bool {
    ||| always_free(op)
    ||| b.gamma_consumed + gamma_of(op) <= b.crystallized
    ||| b.eta_consumed + eta_of(op) <= b.live
    ||| b.consumed + gamma_of(op) + eta_of(op) <= b.daily
}

/// Summary of the current budget status.
#[derive(Clone, Copy, Debug)]
pub struct BudgetSummary {
    pub daily_budget: u64,
    pub crystallized_budget: u64,
    pub live_budget: u64,
    pub consumed: u64,
    pub gamma_consumed: u64,
    pub eta_consumed: u64,
    pub remaining: i128,
    pub gamma_remaining: i128,
    pub eta_remaining: i128,
    pub total_operations: usize,
}

/// Tracks consumption against a daily budget split into a crystallized part
/// and a live part.
pub struct BudgetTracker {
    daily_budget: u64,
    crystallized_budget: u64,
    live_budget: u64,
    consumed: u64,
    gamma_consumed: u64,
    eta_consumed: u64,
    operation_log: Vec<BudgetEntry>,
    max_log_entries: usize,
}

impl BudgetTracker {
    /// The budgets and consumption.
    pub closed spec fn budget(&self) -> Budget {
        Budget {
            daily: self.daily_budget as int,
            crystallized: self.crystallized_budget as int,
            live: self.live_budget as int,
            consumed: self.consumed as int,
            gamma_consumed: self.gamma_consumed as int,
            eta_consumed: self.eta_consumed as int,
        }
    }

    /// The operation log, oldest first.
    pub closed spec fn log(&self) -> Seq<BudgetEntry> {
        self.operation_log@
    }

    /// Consumption is the sum of its two parts and stays below `MAX_CONSUMED`.
    pub closed spec fn wf(&self) -> bool {
        &&& self.consumed == self.gamma_consumed + self.eta_consumed
        &&& self.consumed <= MAX_CONSUMED
        &&& self.max_log_entries == MAX_LOG_ENTRIES
    }

    /// A tracker for 0.10 USD a day, 80% of it crystallized.
    pub fn new() -> (t: Self)
        ensures
            t.wf(),
            t.budget() == (Budget {
                daily: 100_000_000,
                crystallized: 80_000_000,
                live: 20_000_000,
                consumed: 0,
                gamma_consumed: 0,
                eta_consumed: 0,
            }),
            t.log().len() == 0,
    {
        Self::with_budget(100_000_000, 80)
    }

    /// A tracker for `daily_budget` nano-dollars a day, `crystallized_percent`
    /// percent of it crystallized (rounded down) and the rest of the
    /// percentage live (rounded down).
    pub fn with_budget(daily_budget: u64, crystallized_percent: u64) -> (t: Self)
        requires
            crystallized_percent <= 100,
        ensures
            t.wf(),
            t.budget() == (Budget {
                daily: daily_budget as int,
                crystallized: daily_budget * crystallized_percent / 100,
                live: daily_budget * (100 - crystallized_percent) / 100,
                consumed: 0,
                gamma_consumed: 0,
                eta_consumed: 0,
            }),
            t.log().len() == 0,
    {
        let d = daily_budget as u128;
        assert(d * (crystallized_percent as u128) <= d * 100) by (nonlinear_arith)
            requires
                crystallized_percent <= 100,
        ;
        assert(d * ((100 - crystallized_percent) as u128) <= d * 100) by (nonlinear_arith)
            requires
                crystallized_percent <= 100,
        ;
        let c = d * (crystallized_percent as u128) / 100;
        let l = d * ((100 - crystallized_percent) as u128) / 100;
        assert(c <= d) by (nonlinear_arith)
            requires
                c == d * crystallized_percent / 100,
                crystallized_percent <= 100,
        ;
        assert(l <= d) by (nonlinear_arith)
            requires
                l == d * (100 - crystallized_percent) / 100,
                crystallized_percent <= 100,
        ;
        BudgetTracker {
            daily_budget,
            crystallized_budget: c as u64,
            live_budget: l as u64,
            consumed: 0,
            gamma_consumed: 0,
            eta_consumed: 0,
            operation_log: Vec::new(),
            max_log_entries: MAX_LOG_ENTRIES,
        }
    }

    /// Whether an operation fits the budget now.
    pub fn can_compile(&self, operation: &CompileOperation) -> (b: bool)
        requires
            self.wf(),
        ensures
            b == affordable(self.budget(), *operation),
    {
        if operation.can_crystallize() && operation.eta_cost() == 0 {
            return true;
        }
        let gamma_cost = operation.gamma_cost() as u128;
        let eta_cost = operation.eta_cost() as u128;
        if (self.gamma_consumed as u128) + gamma_cost <= self.crystallized_budget as u128 {
            return true;
        }
        if (self.eta_consumed as u128) + eta_cost <= self.live_budget as u128 {
            return true;
        }
        (self.consumed as u128) + gamma_cost + eta_cost <= self.daily_budget as u128
    }

    /// Appends to the log, dropping the oldest entry beyond `MAX_LOG_ENTRIES`.
    fn push_log(&mut self, entry: BudgetEntry)
        requires
            old(self).wf(),
        ensures
            final(self).wf(),
            final(self).budget() == old(self).budget(),
            final(self).log() == if old(self).log().len() + 1 > MAX_LOG_ENTRIES {
                old(self).log().push(entry).drop_first()
            } else {
                old(self).log().push(entry)
            },
    {
        self.operation_log.push(entry);
        if self.operation_log.len() > self.max_log_entries {
            self.operation_log.remove(0);
            assert(self.operation_log@ =~= old(self).log().push(entry).drop_first());
        }
    }

    /// Records an operation on the crystallized path (`use_gamma`) or the live
    /// one. When it fits the budget its cost is consumed; it is logged either way.
    pub fn record_compilation(&mut self, operation: CompileOperation, use_gamma: bool) -> (e: BudgetEntry)
        requires
            old(self).wf(),
        ensures
            final(self).wf(),
            e.operation == operation,
            e.gamma_used == if use_gamma { gamma_of(operation) } else { 0 },
            e.eta_used == if use_gamma { 0 } else { eta_of(operation) },
            e.total_cost == e.gamma_used + e.eta_used,
            e.allowed == affordable(old(self).budget(), operation),
            final(self).budget() == (if e.allowed && old(self).budget().consumed + e.total_cost
                <= MAX_CONSUMED {
                Budget {
                    consumed: old(self).budget().consumed + e.total_cost,
                    gamma_consumed: old(self).budget().gamma_consumed + e.gamma_used,
                    eta_consumed: old(self).budget().eta_consumed + e.eta_used,
                    ..old(self).budget()
                }
            } else {
                old(self).budget()
            }),
            final(self).log() == if old(self).log().len() + 1 > MAX_LOG_ENTRIES {
                old(self).log().push(e).drop_first()
            } else {
                old(self).log().push(e)
            },
    {
        let gamma = if use_gamma { operation.gamma_cost() } else { 0 };
        let eta = if use_gamma { 0 } else { operation.eta_cost() };
        let total = gamma + eta;
        let allowed = self.can_compile(&operation);
        if allowed && self.consumed <= MAX_CONSUMED - total {
            self.gamma_consumed = self.gamma_consumed + gamma;
            self.eta_consumed = self.eta_consumed + eta;
            self.consumed = self.consumed + total;
        }
        let entry = BudgetEntry { operation, gamma_used: gamma, eta_used: eta, total_cost: total, allowed };
        self.push_log(entry);
        entry
    }

    /// Crystallizes a pattern: when `CRYSTALLIZE_COST` fits the crystallized
    /// budget it is consumed and logged. Returns the cost either way.
    pub fn crystallize_pattern(&mut self, operation: &CompileOperation) -> (c: u64)
        requires
            old(self).wf(),
        ensures
            final(self).wf(),
            c == CRYSTALLIZE_COST,
            ({
                let b = old(self).budget();
                if b.gamma_consumed + CRYSTALLIZE_COST <= b.crystallized && b.consumed
                    + CRYSTALLIZE_COST <= MAX_CONSUMED {
                    &&& final(self).budget() == Budget {
                        consumed: b.consumed + CRYSTALLIZE_COST,
                        gamma_consumed: b.gamma_consumed + CRYSTALLIZE_COST,
                        ..b
                    }
                    &&& final(self).log() == old(self).log().push(crystallized_entry(*operation))
                } else {
                    &&& final(self).budget() == b
                    &&& final(self).log() == old(self).log()
                }
            }),
    {
        let cost = CRYSTALLIZE_COST;
        if (self.gamma_consumed as u128) + (cost as u128) <= self.crystallized_budget as u128
            && self.consumed <= MAX_CONSUMED - cost {
            self.gamma_consumed = self.gamma_consumed + cost;
            self.consumed = self.consumed + cost;
            self.operation_log.push(
                BudgetEntry {
                    operation: *operation,
                    gamma_used: cost,
                    eta_used: 0,
                    total_cost: cost,
                    allowed: true,
                },
            );
        }
        cost
    }

    /// Starts a new day: nothing consumed.
    pub fn reset_daily_budget(&mut self)
        requires
            old(self).wf(),
        ensures
            final(self).wf(),
            final(self).budget() == (Budget {
                consumed: 0,
                gamma_consumed: 0,
                eta_consumed: 0,
                ..old(self).budget()
            }),
            final(self).log() == old(self).log(),
    {
        self.consumed = 0;
        self.gamma_consumed = 0;
        self.eta_consumed = 0;
    }

    /// The budgets, consumption, what remains of each, and the number of logged operations.
    pub fn budget_summary(&self) -> (s: BudgetSummary)
        requires
            self.wf(),
        ensures
            summary_matches(s, self.budget(), self.log().len()),
    {
        BudgetSummary {
            daily_budget: self.daily_budget,
            crystallized_budget: self.crystallized_budget,
            live_budget: self.live_budget,
            consumed: self.consumed,
            gamma_consumed: self.gamma_consumed,
            eta_consumed: self.eta_consumed,
            remaining: self.daily_budget as i128 - self.consumed as i128,
            gamma_remaining: self.crystallized_budget as i128 - self.gamma_consumed as i128,
            eta_remaining: self.live_budget as i128 - self.eta_consumed as i128,
            total_operations: self.operation_log.len(),
        }
    }

    /// The operation log, oldest first.
    pub fn operation_log(&self) -> (l: &[BudgetEntry])
        ensures
            l@ == self.log(),
    {
        self.operation_log.as_slice()
    }
}

/// The log entry of a crystallization.
pub open spec fn crystallized_entry(op: CompileOperation) -> BudgetEntry {
    BudgetEntry {
        operation: op,
        gamma_used: CRYSTALLIZE_COST,
        eta_used: 0,
        total_cost: CRYSTALLIZE_COST,
        allowed: true,
    }
}

/// A summary reports a budget state and a number of logged operations.
pub open spec fn summary_matches(s: BudgetSummary, b: Budget, ops: nat) -> bool {
    &&& s.daily_budget == b.daily
    &&& s.crystallized_budget == b.crystallized
    &&& s.live_budget == b.live
    &&& s.consumed == b.consumed
    &&& s.gamma_consumed == b.gamma_consumed
    &&& s.eta_consumed == b.eta_consumed
    &&& s.remaining == b.daily - b.consumed
    &&& s.gamma_remaining == b.crystallized - b.gamma_consumed
    &&& s.eta_remaining == b.live - b.eta_consumed
    &&& s.total_operations == ops
}


/// The decision for an operation.
#[derive(Clone, Copy, Debug)]
pub enum OperationDecision {
    /// Use the crystallized (gamma) path.
    Crystallized { operation: CompileOperation, cost: u64, budget_remaining: i128 },
    /// Use the live (eta) path.
    Live { operation: CompileOperation, cost: u64, budget_remaining: i128 },
    /// Denied: the budget does not allow the operation.
    Denied { operation: CompileOperation, budget_remaining: i128 },
}

impl OperationDecision {
    pub fn is_allowed(&self) -> (b: bool)
        ensures
            b == !(*self is Denied),
    {
        !matches!(self, OperationDecision::Denied { .. })
    }

    /// The cost charged: nothing for a denial.
    pub fn cost(&self) -> (c: u64)
        ensures
            c == match *self {
                OperationDecision::Crystallized { cost, .. } => cost,
                OperationDecision::Live { cost, .. } => cost,
                OperationDecision::Denied { .. } => 0,
            },
    {
        match self {
            OperationDecision::Crystallized { cost, .. } => *cost,
            OperationDecision::Live { cost, .. } => *cost,
            OperationDecision::Denied { .. } => 0,
        }
    }
}

/// The decision for an operation and the budget afterwards: denied when it
/// does not fit; else charged on the path `prefers_gamma` picks (the charge is
/// skipped only when consumption would pass `MAX_CONSUMED`), with what remains
/// of the daily budget.
pub open spec fn evaluation(b: Budget, patterns: Seq<CompileOperation>, op: CompileOperation) -> (
    OperationDecision,
    Budget,
) {
    if !affordable(b, op) {
        (OperationDecision::Denied { operation: op, budget_remaining: (b.daily - b.consumed) as i128 }, b)
    } else {
        let gamma = ConservationEnforcer::prefers_gamma(b, patterns, op);
        let cost = if gamma {
            gamma_of(op)
        } else {
            eta_of(op)
        };
        let nb = if b.consumed + cost <= MAX_CONSUMED {
            Budget {
                consumed: b.consumed + cost,
                gamma_consumed: b.gamma_consumed + if gamma {
                    cost
                } else {
                    0
                },
                eta_consumed: b.eta_consumed + if gamma {
                    0
                } else {
                    cost
                },
                ..b
            }
        } else {
            b
        };
        if gamma {
            (
                OperationDecision::Crystallized {
                    operation: op,
                    cost,
                    budget_remaining: (nb.daily - nb.consumed) as i128,
                },
                nb,
            )
        } else {
            (OperationDecision::Live { operation: op, cost, budget_remaining: (nb.daily - nb.consumed) as i128 }, nb)
        }
    }
}

/// Routes operations to the crystallized or the live path and enforces the budget.
pub struct ConservationEnforcer {
    tracker: BudgetTracker,
    crystallized_patterns: Vec<CompileOperation>,
    gamma_threshold: u64,
}

impl ConservationEnforcer {
    pub closed spec fn wf(&self) -> bool {
        self.tracker.wf()
    }

    /// The budget state of the tracker inside.
    pub closed spec fn budget(&self) -> Budget {
        self.tracker.budget()
    }

    pub closed spec fn log(&self) -> Seq<BudgetEntry> {
        self.tracker.log()
    }

    /// The operations marked as crystallized.
    pub closed spec fn patterns(&self) -> Seq<CompileOperation> {
        self.crystallized_patterns@
    }

    /// The routing threshold, as a percentage.
    pub closed spec fn threshold(&self) -> u64 {
        self.gamma_threshold
    }

    /// An enforcer for `daily_budget` nano-dollars a day, 80% crystallized,
    /// no crystallized patterns, threshold 50%.
    pub fn new(daily_budget: u64) -> (e: Self)
        ensures
            e.wf(),
            e.budget() == (Budget {
                daily: daily_budget as int,
                crystallized: daily_budget * 80 / 100,
                live: daily_budget * 20 / 100,
                consumed: 0,
                gamma_consumed: 0,
                eta_consumed: 0,
            }),
            e.log().len() == 0,
            e.patterns().len() == 0,
            e.threshold() == 50,
    {
        ConservationEnforcer {
            tracker: BudgetTracker::with_budget(daily_budget, 80),
            crystallized_patterns: Vec::new(),
            gamma_threshold: 50,
        }
    }

    /// Whether to use the crystallized path: always for free operations and
    /// crystallized patterns, else when the crystallized budget left covers
    /// the gamma cost.
    pub open spec fn prefers_gamma(b: Budget, patterns: Seq<CompileOperation>, op: CompileOperation) -> bool {
        ||| always_free(op)
        ||| patterns.contains(op)
        ||| b.crystallized - b.gamma_consumed >= gamma_of(op)
    }

    fn should_use_gamma(&self, operation: &CompileOperation) -> (b: bool)
        requires
            self.wf(),
        ensures
            b == Self::prefers_gamma(self.budget(), self.patterns(), *operation),
    {
        if operation.can_crystallize() && operation.eta_cost() == 0 {
            return true;
        }
        let mut i: usize = 0;
        while i < self.crystallized_patterns.len()
            invariant
                i <= self.crystallized_patterns@.len(),
                forall|k: int| 0 <= k < i ==> self.crystallized_patterns@[k] != *operation,
            decreases self.crystallized_patterns@.len() - i,
        {
            if self.crystallized_patterns[i] == *operation {
                assert(self.patterns()[i as int] == *operation);
                return true;
            }
            i = i + 1;
        }
        let gamma_cost = operation.gamma_cost();
        let summary = self.tracker.budget_summary();
        summary.gamma_remaining >= gamma_cost as i128
    }

    /// Decides an operation: denied when it does not fit the budget, else
    /// recorded on the path `prefers_gamma` picks.
    pub fn evaluate(&mut self, operation: CompileOperation) -> (d: OperationDecision)
        requires
            old(self).wf(),
        ensures
            final(self).wf(),
            final(self).patterns() == old(self).patterns(),
            final(self).threshold() == old(self).threshold(),
            (d, final(self).budget()) == evaluation(old(self).budget(), old(self).patterns(), operation),
            affordable(old(self).budget(), operation) ==> final(self).log().len() >= 1,
            !affordable(old(self).budget(), operation) ==> final(self).log() == old(self).log(),
    {
        let can_use_gamma = self.should_use_gamma(&operation);
        if !self.tracker.can_compile(&operation) {
            return OperationDecision::Denied {
                operation,
                budget_remaining: self.tracker.budget_summary().remaining,
            };
        }
        let entry = self.tracker.record_compilation(operation, can_use_gamma);
        let remaining = self.tracker.budget_summary().remaining;
        if can_use_gamma {
            OperationDecision::Crystallized { operation, cost: entry.total_cost, budget_remaining: remaining }
        } else {
            OperationDecision::Live { operation, cost: entry.total_cost, budget_remaining: remaining }
        }
    }

    /// Marks an operation as crystallized and pays for the crystallization.
    pub fn mark_crystallized(&mut self, operation: CompileOperation)
        requires
            old(self).wf(),
        ensures
            final(self).wf(),
            final(self).patterns().contains(operation),
            forall|o: CompileOperation| old(self).patterns().contains(o) ==> final(self).patterns().contains(o),
            forall|o: CompileOperation| final(self).patterns().contains(o) ==> o == operation || old(self).patterns().contains(o),
            final(self).threshold() == old(self).threshold(),
            ({
                let b = old(self).budget();
                if b.gamma_consumed + CRYSTALLIZE_COST <= b.crystallized && b.consumed
                    + CRYSTALLIZE_COST <= MAX_CONSUMED {
                    &&& final(self).budget() == Budget {
                        consumed: b.consumed + CRYSTALLIZE_COST,
                        gamma_consumed: b.gamma_consumed + CRYSTALLIZE_COST,
                        ..b
                    }
                    &&& final(self).log() == old(self).log().push(crystallized_entry(operation))
                } else {
                    &&& final(self).budget() == b
                    &&& final(self).log() == old(self).log()
                }
            }),
    {
        let mut found = false;
        let mut i: usize = 0;
        while i < self.crystallized_patterns.len() && !found
            invariant
                i <= self.crystallized_patterns@.len(),
                found ==> self.crystallized_patterns@.contains(operation),
            decreases self.crystallized_patterns@.len() - i,
        {
            if self.crystallized_patterns[i] == operation {
                found = true;
                assert(self.crystallized_patterns@[i as int] == operation);
            }
            i = i + 1;
        }
        if !found {
            self.crystallized_patterns.push(operation);
            assert(self.crystallized_patterns@.last() == operation);
            assert forall|o: CompileOperation| old(self).patterns().contains(o) implies self.crystallized_patterns@.contains(o) by {
                let k = choose|k: int| 0 <= k < old(self).patterns().len() && old(self).patterns()[k] == o;
                assert(self.crystallized_patterns@[k] == o);
            }
        }
        self.tracker.crystallize_pattern(&operation);
    }

    /// The budget summary of the tracker inside.
    pub fn budget_summary(&self) -> (s: BudgetSummary)
        requires
            self.wf(),
        ensures
            summary_matches(s, self.budget(), self.log().len()),
    {
        self.tracker.budget_summary()
    }

    /// Sets the routing threshold, a percentage clamped to 0..=100.
    pub fn set_gamma_threshold(&mut self, threshold: i64)
        ensures
            final(self).threshold() == if threshold < 0 {
                0
            } else if threshold > 100 {
                100
            } else {
                threshold as u64
            },
            final(self).budget() == old(self).budget(),
            final(self).log() == old(self).log(),
            final(self).patterns() == old(self).patterns(),
            old(self).wf() ==> final(self).wf(),
    {
        self.gamma_threshold = if threshold < 0 {
            0
        } else if threshold > 100 {
            100
        } else {
            threshold as u64
        };
    }
}

/// Conservation: what a tracker has consumed is exactly its crystallized
/// consumption plus its live consumption. Every operation of the tracker
/// keeps this.
pub proof fn lemma_tracker_conserves(t: &BudgetTracker)
    requires
        t.wf(),
    ensures
        t.budget().consumed == t.budget().gamma_consumed + t.budget().eta_consumed,
{
}

/// Conservation holds of an enforcer's budget too.
pub proof fn lemma_enforcer_conserves(e: &ConservationEnforcer)
    requires
        e.wf(),
    ensures
        e.budget().consumed == e.budget().gamma_consumed + e.budget().eta_consumed,
{
}

/// Evaluating an operation keeps consumption equal to the sum of its two
/// parts, and never changes the budgets themselves.
pub proof fn lemma_evaluation_conserves(b: Budget, patterns: Seq<CompileOperation>, op: CompileOperation)
    requires
        b.consumed == b.gamma_consumed + b.eta_consumed,
    ensures
        ({
            let nb = evaluation(b, patterns, op).1;
            &&& nb.consumed == nb.gamma_consumed + nb.eta_consumed
            &&& nb.daily == b.daily
            &&& nb.crystallized == b.crystallized
            &&& nb.live == b.live
        }),
{
}

/// Operations that cost nothing live (parsing, SPIR-V generation) are
/// always allowed, and always on the crystallized path.
pub proof fn lemma_free_operations_allowed(b: Budget, patterns: Seq<CompileOperation>, op: CompileOperation)
    requires
        always_free(op),
    ensures
        affordable(b, op),
        evaluation(b, patterns, op).0 is Crystallized,
{
}

/// A denied operation costs nothing and leaves the budget as it was.
pub proof fn lemma_denial_changes_nothing(b: Budget, patterns: Seq<CompileOperation>, op: CompileOperation)
    requires
        !affordable(b, op),
    ensures
        evaluation(b, patterns, op).0 is Denied,
        evaluation(b, patterns, op).1 == b,
{
}

/// Once an operation is marked as crystallized, every allowed evaluation of
/// it takes the crystallized path.
pub proof fn lemma_marked_operations_crystallized(b: Budget, patterns: Seq<CompileOperation>, op: CompileOperation)
    requires
        patterns.contains(op),
        affordable(b, op),
    ensures
        evaluation(b, patterns, op).0 is Crystallized,
{
}

} // verus!
