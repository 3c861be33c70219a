//! What the command line decides: the stack configuration it builds, the
//! scenarios a run selects, and how a run and a campaign are summed up.
use vstd::prelude::*;
use vstd::string::*;
use crate::scenario::{category_name, MetaView, ScenarioMeta};
use crate::scenarios::batch_poster_chaos::{poster_meta, BatchPosterKillAndRecover};
use crate::scenarios::bridge_adversarial::{balance_meta, BalanceConsistencyProbe};
use crate::scenarios::bridge_stress::{bridge_meta, BridgeDepositWithdrawStress};
use crate::scenarios::invariant_probe::{health_meta, FullStackHealthProbe};
use crate::scenarios::retryable_probe::{precompile_meta, PrecompileSurfaceProbe};
use crate::scenarios::sequencer_chaos::{sequencer_meta, SequencerKillAndRecover};
use crate::scenarios::timeboost_adversarial::{auction_meta, TimeboostAuctionProbe};
use crate::scenarios::validator_chaos::{validator_meta, ValidatorKillAndRecover};
use crate::types::{endpoint_is, Layer, ScenarioOutcome, StackConfig};

verus! {

/// Whether `c` is the default configuration with the given RPC URLs and
/// compose project; an empty L3 URL means no L3.
pub open spec fn configured_as(
    c: StackConfig,
    l1_rpc: Seq<char>,
    l2_rpc: Seq<char>,
    l3_rpc: Seq<char>,
    docker_project: Seq<char>,
) -> bool {
    &&& endpoint_is(c.l1, Layer::L1, l1_rpc, "ws://127.0.0.1:8546"@, 1337)
    &&& endpoint_is(c.l2, Layer::L2, l2_rpc, "ws://127.0.0.1:8548"@, 412346)
    &&& if l3_rpc.len() > 0 {
        c.l3 matches Some(l3) && endpoint_is(l3, Layer::L3, l3_rpc, "ws://127.0.0.1:3348"@, 0)
    } else {
        c.l3 is None
    }
    &&& c.docker_compose_project@ == docker_project
    &&& c.docker_compose_dir@ == Seq::<char>::empty()
    &&& c.inbox_addr is None
    &&& c.bridge_addr is None
    &&& c.auction_addr is None
}

/// The default stack configuration with the given RPC URLs and compose
/// project; an empty L3 URL leaves L3 out.
pub fn build_config(l1_rpc: &str, l2_rpc: &str, l3_rpc: &str, docker_project: &str) -> (c:
    StackConfig)
    ensures
        configured_as(c, l1_rpc@, l2_rpc@, l3_rpc@, docker_project@),
{
    let mut config = StackConfig::default();
    config.l1.rpc_url = String::from_str(l1_rpc);
    config.l2.rpc_url = String::from_str(l2_rpc);
    config.docker_compose_project = String::from_str(docker_project);
    if !l3_rpc.is_empty() {
        match &mut config.l3 {
            Some(l3) => {
                l3.rpc_url = String::from_str(l3_rpc);
            },
            None => {},
        }
    } else {
        config.l3 = None;
    }
    config
}

/// The metadata of every scenario, in registry order.
pub open spec fn catalog() -> Seq<MetaView> {
    seq![
        sequencer_meta(),
        poster_meta(),
        validator_meta(),
        balance_meta(),
        health_meta(),
        precompile_meta(),
        bridge_meta(),
        auction_meta(),
    ]
}

/// The views of a list of metadata.
pub open spec fn metas_view(v: Seq<ScenarioMeta>) -> Seq<MetaView> {
    Seq::new(v.len(), |i: int| v[i]@)
}

/// The metadata of every scenario, in registry order: sequencer, batch
/// poster, validator, balance, health, precompiles, bridge, timeboost.
pub fn scenario_catalog() -> (v: Vec<ScenarioMeta>)
    ensures
        metas_view(v@) == catalog(),
{
    let mut v = Vec::new();
    v.push(SequencerKillAndRecover.meta());
    v.push(BatchPosterKillAndRecover.meta());
    v.push(ValidatorKillAndRecover.meta());
    v.push(BalanceConsistencyProbe.meta());
    v.push(FullStackHealthProbe.meta());
    v.push(PrecompileSurfaceProbe.meta());
    v.push(BridgeDepositWithdrawStress.meta());
    v.push(TimeboostAuctionProbe.meta());
    assert(metas_view(v@) =~= catalog());
    v
}

/// The index of the first scenario named `name`, if any.
pub open spec fn first_named(metas: Seq<MetaView>, name: Seq<char>) -> Option<int>
    decreases metas.len(),
{
    if metas.len() == 0 {
        None
    } else {
        match first_named(metas.drop_last(), name) {
            Some(i) => Some(i),
            None => if metas.last().name == name {
                Some(metas.len() - 1)
            } else {
                None
            },
        }
    }
}

/// Whether a scenario passes the filters: the category, when given, and
/// non-destructiveness, when asked for.
pub open spec fn passes_filters(m: MetaView, category: Option<Seq<char>>, non_destructive: bool) -> bool {
    &&& category matches Some(c) ==> category_name(m.category) == c
    &&& non_destructive ==> !m.destructive
}

/// The indices of `idx` whose scenarios pass the filters, in order.
pub open spec fn filtered(
    metas: Seq<MetaView>,
    idx: Seq<int>,
    category: Option<Seq<char>>,
    non_destructive: bool,
) -> Seq<int>
    decreases idx.len(),
{
    if idx.len() == 0 {
        Seq::empty()
    } else {
        let rest = filtered(metas, idx.drop_last(), category, non_destructive);
        if passes_filters(metas[idx.last()], category, non_destructive) {
            rest.push(idx.last())
        } else {
            rest
        }
    }
}

/// The scenarios a run names: all of them for `all`, else the first one of
/// that name, or none at all when no scenario has it.
pub open spec fn named(metas: Seq<MetaView>, name: Seq<char>) -> Option<Seq<int>> {
    if name == "all"@ {
        Some(Seq::new(metas.len(), |i: int| i))
    } else {
        match first_named(metas, name) {
            Some(i) => Some(seq![i]),
            None => None,
        }
    }
}

/// The characters of an optional text.
pub open spec fn text_view(t: Option<&str>) -> Option<Seq<char>> {
    match t {
        Some(s) => Some(s@),
        None => None,
    }
}

/// Why a run selects nothing.
#[derive(Debug)]
pub enum SelectError {
    /// No scenario has the name asked for.
    NotFound(String),
    /// The filters left no scenario.
    NoneMatched,
}

impl SelectError {
    /// The message the command line shows.
    pub fn to_string(&self) -> (s: String)
        ensures
            self matches SelectError::NotFound(n) ==> s@ == "scenario '"@ + n@
                + "' not found. Use 'r30rg list'."@,
            self is NoneMatched ==> s@ == "No scenarios matched the given filters."@,
    {
        match self {
            SelectError::NotFound(n) => {
                let mut s = String::from_str("scenario '");
                s.append(n.as_str());
                s.append("' not found. Use 'r30rg list'.");
                s
            },
            SelectError::NoneMatched => String::from_str("No scenarios matched the given filters."),
        }
    }
}

fn index_of_name(metas: &Vec<ScenarioMeta>, name: &String) -> (r: Option<usize>)
    ensures
        r matches Some(i) ==> first_named(metas_view(metas@), name@) == Some(i as int) && i
            < metas@.len(),
        r is None ==> first_named(metas_view(metas@), name@) is None,
{
    let ghost mv = metas_view(metas@);
    let mut i: usize = 0;
    while i < metas.len()
        invariant
            i <= metas@.len(),
            mv == metas_view(metas@),
            first_named(mv.take(i as int), name@) is None,
        decreases metas@.len() - i,
    {
        assert(mv.take(i + 1).drop_last() =~= mv.take(i as int));
        if metas[i].name == *name {
            proof {
                lemma_first_named_prefix(mv, name@, i as int);
            }
            return Some(i);
        }
        i = i + 1;
    }
    assert(mv.take(i as int) =~= mv);
    None
}

/// When no scenario before `i` has the name and scenario `i` has it, `i` is
/// the first one with it.
proof fn lemma_first_named_prefix(metas: Seq<MetaView>, name: Seq<char>, i: int)
    requires
        0 <= i < metas.len(),
        first_named(metas.take(i), name) is None,
        metas[i].name == name,
    ensures
        first_named(metas, name) == Some(i),
    decreases metas.len(),
{
    if i == metas.len() - 1 {
        assert(metas.drop_last() =~= metas.take(i));
    } else {
        assert(metas.drop_last().take(i) =~= metas.take(i));
        lemma_first_named_prefix(metas.drop_last(), name, i);
    }
}

/// Picks the scenarios of a run, by index into `metas`: all of them for
/// `all`, else the first of that name; then keeps those of `category`, when
/// given, and the non-destructive ones, when asked for.
pub fn select_scenarios(
    metas: &Vec<ScenarioMeta>,
    name: &str,
    category: Option<&str>,
    non_destructive: bool,
) -> (r: Result<Vec<usize>, SelectError>)
    ensures
        r matches Ok(v) ==> named(metas_view(metas@), name@) matches Some(idx) && v@.map_values(
            |i: usize| i as int,
        ) == filtered(metas_view(metas@), idx, text_view(category), non_destructive) && v@.len()
            > 0,
        r matches Err(SelectError::NotFound(n)) ==> named(metas_view(metas@), name@) is None
            && n@ == name@,
        r matches Err(SelectError::NoneMatched) ==> named(metas_view(metas@), name@) matches Some(
            idx,
        ) && filtered(metas_view(metas@), idx, text_view(category), non_destructive).len() == 0,
{
    let ghost mv = metas_view(metas@);
    let ghost cat = text_view(category);
    let wanted = String::from_str(name);
    let all = String::from_str("all");
    let mut candidates: Vec<usize> = Vec::new();
    if wanted == all {
        let mut i: usize = 0;
        while i < metas.len()
            invariant
                i <= metas@.len(),
                candidates@.len() == i,
                forall|k: int| 0 <= k < i ==> #[trigger] candidates@[k] == k,
            decreases metas@.len() - i,
        {
            candidates.push(i);
            i = i + 1;
        }
        assert(candidates@.map_values(|k: usize| k as int) =~= Seq::new(metas@.len(), |k: int| k));
        assert(name@ == "all"@);
    } else {
        match index_of_name(metas, &wanted) {
            Some(i) => {
                candidates.push(i);
                assert(candidates@.map_values(|k: usize| k as int) =~= seq![i as int]);
            },
            None => {
                return Err(SelectError::NotFound(wanted));
            },
        }
    }
    let ghost idx = candidates@.map_values(|k: usize| k as int);
    assert(named(mv, name@) == Some(idx));
    let mut chosen: Vec<usize> = Vec::new();
    let mut j: usize = 0;
    while j < candidates.len()
        invariant
            j <= candidates@.len(),
            idx == candidates@.map_values(|k: usize| k as int),
            mv == metas_view(metas@),
            cat == text_view(category),
            forall|k: int| 0 <= k < candidates@.len() ==> 0 <= #[trigger] candidates@[k] < metas@.len(),
            chosen@.map_values(|k: usize| k as int) == filtered(mv, idx.take(j as int), cat, non_destructive),
        decreases candidates@.len() - j,
    {
        let k = candidates[j];
        assert(idx.take(j + 1).drop_last() =~= idx.take(j as int));
        assert(idx.take(j + 1).last() == k as int);
        let m = &metas[k];
        assert(mv[k as int] == metas@[k as int]@);
        let mut keep = true;
        match category {
            Some(c) => {
                let wanted_category = String::from_str(c);
                if !(m.category.to_string() == wanted_category) {
                    keep = false;
                }
            },
            None => {},
        }
        if non_destructive && m.destructive {
            keep = false;
        }
        assert(keep == passes_filters(mv[k as int], cat, non_destructive));
        if keep {
            chosen.push(k);
            assert(chosen@.map_values(|x: usize| x as int) =~= filtered(mv, idx.take(j as int), cat, non_destructive).push(k as int));
        }
        j = j + 1;
    }
    assert(idx.take(j as int) =~= idx);
    if chosen.len() == 0 {
        return Err(SelectError::NoneMatched);
    }
    Ok(chosen)
}

/// How a scenario run ended.
#[derive(Clone, Copy, Debug, PartialEq, Eq, Structural)]
pub enum RunStatus {
    Passed,
    Failed,
    Error,
}

/// How a scenario's outcome counts: passed, failed or errored.
pub fn outcome_status(o: &ScenarioOutcome) -> (s: RunStatus)
    ensures
        o is Passed ==> s == RunStatus::Passed,
        o is Failed ==> s == RunStatus::Failed,
        o is Error ==> s == RunStatus::Error,
{
    match o {
        ScenarioOutcome::Passed { .. } => RunStatus::Passed,
        ScenarioOutcome::Failed { .. } => RunStatus::Failed,
        ScenarioOutcome::Error { .. } => RunStatus::Error,
    }
}

/// The counts of a run's scenarios by how they ended.
#[derive(Clone, Copy, Debug)]
pub struct RunTally {
    pub passed: u32,
    pub failed: u32,
    pub errors: u32,
}

impl RunTally {
    /// No scenario counted yet.
    pub fn new() -> (t: RunTally)
        ensures
            t.passed == 0 && t.failed == 0 && t.errors == 0,
    {
        RunTally { passed: 0, failed: 0, errors: 0 }
    }

    /// Counts one more scenario that ended with `status`.
    pub fn count(&mut self, status: RunStatus)
        requires
            old(self).passed < u32::MAX,
            old(self).failed < u32::MAX,
            old(self).errors < u32::MAX,
        ensures
            final(self).passed == old(self).passed + if status == RunStatus::Passed { 1int } else { 0 },
            final(self).failed == old(self).failed + if status == RunStatus::Failed { 1int } else { 0 },
            final(self).errors == old(self).errors + if status == RunStatus::Error { 1int } else { 0 },
    {
        match status {
            RunStatus::Passed => {
                self.passed = self.passed + 1;
            },
            RunStatus::Failed => {
                self.failed = self.failed + 1;
            },
            RunStatus::Error => {
                self.errors = self.errors + 1;
            },
        }
    }

    /// Whether the run failed: some scenario failed or errored.
    pub fn run_failed(&self) -> (b: bool)
        ensures
            b == (self.failed > 0 || self.errors > 0),
    {
        self.failed > 0 || self.errors > 0
    }
}

/// Ticks per second of a campaign: the total over the whole seconds
/// elapsed, or the total itself when not one second passed.
pub fn ticks_per_sec(total_ticks: u64, elapsed_secs: u64) -> (r: u64)
    ensures
        elapsed_secs > 0 ==> r == total_ticks / elapsed_secs,
        elapsed_secs == 0 ==> r == total_ticks,
{
    if elapsed_secs > 0 {
        total_ticks / elapsed_secs
    } else {
        total_ticks
    }
}

} // verus!
