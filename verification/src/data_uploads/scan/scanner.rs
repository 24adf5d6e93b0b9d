use vstd::prelude::*;

use crate::models::FileRule;
use crate::text::str_equals;

verus! {

/// Two rules of one deployment share an id.
#[derive(Debug)]
pub struct DuplicateFileRuleID {
    pub file_rule_id: String,
}

/// Failures of the scanner.
#[derive(Debug)]
pub enum ScanErr {
    DuplicateFileRuleID(DuplicateFileRuleID),
}

/// The ids of the rules before index `n` are pairwise distinct.
pub open spec fn ids_distinct_upto(rules: Seq<FileRule>, n: int) -> bool {
    forall|i: int, j: int| 0 <= i < j < n ==> (#[trigger] rules[i]).id@ != (#[trigger] rules[j]).id@
}

/// Ok exactly when no two rules share an id; otherwise the error names the first id
/// that repeats an earlier one.
pub fn check_rule_ids(rules: &[FileRule]) -> (r: Result<(), ScanErr>)
    ensures
        r is Ok <==> ids_distinct_upto(rules@, rules@.len() as int),
        r matches Err(ScanErr::DuplicateFileRuleID(e)) ==> exists|j: int|
            0 <= j < rules@.len() && ids_distinct_upto(rules@, j) && (#[trigger] rules@[j]).id@
                == e.file_rule_id@ && exists|i: int| 0 <= i < j && (#[trigger] rules@[i]).id@ == rules@[j].id@,
{
    let n = rules.len();
    let mut j: usize = 0;
    while j < n
        invariant
            n == rules@.len(),
            j <= n,
            ids_distinct_upto(rules@, j as int),
        decreases n - j,
    {
        let mut i: usize = 0;
        while i < j
            invariant
                n == rules@.len(),
                i <= j < n,
                ids_distinct_upto(rules@, j as int),
                forall|k: int| 0 <= k < i ==> (#[trigger] rules@[k]).id@ != rules@[j as int].id@,
            decreases j - i,
        {
            if str_equals(rules[i].id.as_str(), rules[j].id.as_str()) {
                assert(rules@[i as int].id@ == rules@[j as int].id@);
                return Err(
                    ScanErr::DuplicateFileRuleID(
                        DuplicateFileRuleID { file_rule_id: rules[j].id.clone() },
                    ),
                );
            }
            i = i + 1;
        }
        assert forall|a: int, b: int| 0 <= a < b < j + 1 implies (#[trigger] rules@[a]).id@
            != (#[trigger] rules@[b]).id@ by {
            if b == j {
                assert(rules@[a].id@ != rules@[j as int].id@);
            }
        }
        j = j + 1;
    }
    Ok(())
}

/// A rule scanner is pruned once its rule is no longer deployed and it has no
/// candidates left to evaluate.
pub fn is_inactive(deployed: bool, has_candidates: bool) -> (r: bool)
    ensures
        r == (!deployed && !has_candidates),
{
    !deployed && !has_candidates
}

/// What a scan tick does with one rule's scanner after evaluating its candidates.
#[derive(Debug, Clone, Copy, PartialEq, Eq, Structural)]
pub enum ScanStep {
    /// The rule is deployed: look for new candidate files.
    Discover,
    /// The rule is gone but candidates remain: keep evaluating them.
    Drain,
    /// The rule is gone and nothing is left: drop its scanner.
    Prune,
}

/// The step for a rule scanner: discover while its rule is deployed, else drain its
/// remaining candidates, and prune it once it is inactive.
pub fn scan_step(deployed: bool, has_candidates: bool) -> (r: ScanStep)
    ensures
        deployed ==> r == ScanStep::Discover,
        !deployed && has_candidates ==> r == ScanStep::Drain,
        (r == ScanStep::Prune) == (!deployed && !has_candidates),
{
    if deployed {
        ScanStep::Discover
    } else if is_inactive(deployed, has_candidates) {
        ScanStep::Prune
    } else {
        ScanStep::Drain
    }
}


/// What a scan tick does once its rules are evaluated.
#[derive(Debug, Clone, Copy, PartialEq, Eq, Structural)]
pub enum TickAction {
    /// Write the scanner state to its file.
    Persist,
    /// Hand a stable file (by its place among the tick's stable files) to a sink (by its
    /// place among the attached sinks).
    Deliver { file: usize, sink: usize },
}

/// The deliveries of the first `files` stable files to `sinks` sinks: file by file, each
/// file to every sink in turn.
pub open spec fn deliveries(files: nat, sinks: nat) -> Seq<TickAction>
    decreases files,
{
    if files == 0 {
        Seq::empty()
    } else {
        deliveries((files - 1) as nat, sinks) + Seq::new(
            sinks,
            |j: int| TickAction::Deliver { file: (files - 1) as usize, sink: j as usize },
        )
    }
}

/// The rest of a tick with `files` stable files and `sinks` sinks: the state is
/// persisted, then every stable file is delivered.
pub open spec fn spec_tick_plan(files: nat, sinks: nat) -> Seq<TickAction> {
    seq![TickAction::Persist] + deliveries(files, sinks)
}

/// The actions that end a scan tick that found `files` stable files, with `sinks` sinks
/// attached (none delivers anything when no sink is attached).
pub fn tick_plan(files: usize, sinks: usize) -> (r: Vec<TickAction>)
    ensures
        r@ == spec_tick_plan(files as nat, sinks as nat),
{
    let mut r: Vec<TickAction> = Vec::new();
    r.push(TickAction::Persist);
    let mut i: usize = 0;
    while i < files
        invariant
            i <= files,
            r@ == spec_tick_plan(i as nat, sinks as nat),
        decreases files - i,
    {
        let ghost before = r@;
        let mut j: usize = 0;
        while j < sinks
            invariant
                i < files,
                j <= sinks,
                r@ == before + Seq::new(
                    j as nat,
                    |k: int| TickAction::Deliver { file: i, sink: k as usize },
                ),
            decreases sinks - j,
        {
            r.push(TickAction::Deliver { file: i, sink: j });
            j = j + 1;
        }
        proof {
            assert(deliveries((i + 1) as nat, sinks as nat) == deliveries(i as nat, sinks as nat)
                + Seq::new(sinks as nat, |k: int| TickAction::Deliver { file: i, sink: k as usize }));
            assert(r@ =~= spec_tick_plan((i + 1) as nat, sinks as nat));
        }
        i = i + 1;
    }
    r
}

/// Place `k` of the deliveries holds file `k / sinks` and sink `k % sinks`.
proof fn lemma_deliveries_at(files: nat, sinks: nat)
    requires
        files <= usize::MAX,
        sinks <= usize::MAX,
    ensures
        deliveries(files, sinks).len() == files * sinks,
        forall|k: int|
            0 <= k < files * sinks ==> #[trigger] deliveries(files, sinks)[k] == (TickAction::Deliver {
                file: (k / sinks as int) as usize,
                sink: (k % sinks as int) as usize,
            }),
    decreases files,
{
    if files == 0 {
        assert(files * sinks == 0);
    } else {
        let f = (files - 1) as nat;
        lemma_deliveries_at(f, sinks);
        let tail = Seq::new(
            sinks,
            |j: int| TickAction::Deliver { file: (files - 1) as usize, sink: j as usize },
        );
        assert(deliveries(files, sinks) == deliveries(f, sinks) + tail);
        assert(files * sinks == f * sinks + sinks) by (nonlinear_arith)
            requires
                files == f + 1,
        ;
        assert forall|k: int| 0 <= k < files * sinks implies #[trigger] deliveries(files, sinks)[k]
            == (TickAction::Deliver {
            file: (k / sinks as int) as usize,
            sink: (k % sinks as int) as usize,
        }) by {
            if k >= f * sinks {
                vstd::arithmetic::div_mod::lemma_fundamental_div_mod_converse(
                    k,
                    sinks as int,
                    f as int,
                    k - f * sinks,
                );
                assert(deliveries(files, sinks)[k] == tail[k - f * sinks]);
            } else {
                assert(deliveries(files, sinks)[k] == deliveries(f, sinks)[k]);
            }
        }
    }
}

/// A scan tick persists the scanner state first, then delivers each stable file to
/// every sink exactly once: file `i` reaches sink `j` at place `1 + i * sinks + j`, so
/// files go out in the order they were found and each file visits the sinks in order.
pub proof fn lemma_tick_delivers_each_file_to_every_sink(
    files: usize,
    sinks: usize,
    i: usize,
    j: usize,
)
    requires
        i < files,
        j < sinks,
    ensures
        spec_tick_plan(files as nat, sinks as nat).len() == 1 + files * sinks,
        spec_tick_plan(files as nat, sinks as nat)[0] == TickAction::Persist,
        spec_tick_plan(files as nat, sinks as nat)[1 + i * sinks + j] == (TickAction::Deliver {
            file: i,
            sink: j,
        }),
        forall|k: int|
            1 <= k < 1 + files * sinks ==> #[trigger] spec_tick_plan(files as nat, sinks as nat)[k]
                is Deliver,
{
    lemma_deliveries_at(files as nat, sinks as nat);
    let k = i * sinks + j;
    assert(k < files * sinks) by (nonlinear_arith)
        requires
            k == i * sinks + j,
            i < files,
            j < sinks,
    ;
    vstd::arithmetic::div_mod::lemma_fundamental_div_mod_converse(k, sinks as int, i as int, j as int);
    assert(deliveries(files as nat, sinks as nat)[k] == (TickAction::Deliver { file: i, sink: j }));
    assert forall|m: int| 1 <= m < 1 + files * sinks implies #[trigger] spec_tick_plan(
        files as nat,
        sinks as nat,
    )[m] is Deliver by {
        assert(deliveries(files as nat, sinks as nat)[m - 1] is Deliver);
    }
}

} // verus!
