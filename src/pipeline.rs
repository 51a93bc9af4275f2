//! The acquisition pipeline as a state machine: check for a local install,
//! fetch, extract, normalize, activate, record. The caller performs each
//! stage's work and reports how it went; this module decides what comes next.

use vstd::prelude::*;

verus! {

/// A stage of the pipeline.
#[derive(Copy, Clone, Debug, PartialEq, Eq, Structural)]
pub enum Stage {
    CheckLocal,
    Fetching,
    Extracting,
    Normalizing,
    Activating,
    Recording,
    Done,
    Failed,
}

/// What the work of a stage came to.
#[derive(Copy, Clone, Debug, PartialEq, Eq, Structural)]
pub enum Outcome {
    /// The install directory already exists (reported by `CheckLocal`).
    AlreadyInstalled,
    /// The stage's work succeeded.
    Succeeded,
    /// The stage's work failed.
    Failed,
}

/// The stage after `stage` once its work came to `outcome`.
pub open spec fn next_stage_of(stage: Stage, outcome: Outcome) -> Stage {
    match (stage, outcome) {
        (Stage::Done, _) => Stage::Done,
        (Stage::Failed, _) => Stage::Failed,
        (_, Outcome::Failed) => Stage::Failed,
        (Stage::CheckLocal, Outcome::AlreadyInstalled) => Stage::Activating,
        (Stage::CheckLocal, _) => Stage::Fetching,
        (_, Outcome::AlreadyInstalled) => Stage::Failed,
        (Stage::Fetching, _) => Stage::Extracting,
        (Stage::Extracting, _) => Stage::Normalizing,
        (Stage::Normalizing, _) => Stage::Activating,
        (Stage::Activating, _) => Stage::Recording,
        (Stage::Recording, _) => Stage::Done,
    }
}

/// The stage after `stage` once its work came to `outcome`: a local install
/// skips straight to activation, any failure ends the run, and the terminal
/// stages stay put.
pub fn next_stage(stage: Stage, outcome: Outcome) -> (r: Stage)
    ensures
        r == next_stage_of(stage, outcome),
{
    match (stage, outcome) {
        (Stage::Done, _) => Stage::Done,
        (Stage::Failed, _) => Stage::Failed,
        (_, Outcome::Failed) => Stage::Failed,
        (Stage::CheckLocal, Outcome::AlreadyInstalled) => Stage::Activating,
        (Stage::CheckLocal, _) => Stage::Fetching,
        (_, Outcome::AlreadyInstalled) => Stage::Failed,
        (Stage::Fetching, _) => Stage::Extracting,
        (Stage::Extracting, _) => Stage::Normalizing,
        (Stage::Normalizing, _) => Stage::Activating,
        (Stage::Activating, _) => Stage::Recording,
        (Stage::Recording, _) => Stage::Done,
    }
}

/// Whether the run has ended.
pub fn is_terminal(stage: Stage) -> (r: bool)
    ensures
        r == (stage == Stage::Done || stage == Stage::Failed),
{
    match stage {
        Stage::Done | Stage::Failed => true,
        _ => false,
    }
}

/// The label of each stage in messages.
pub open spec fn stage_label(stage: Stage) -> Seq<char> {
    match stage {
        Stage::CheckLocal => "check"@,
        Stage::Fetching => "fetch"@,
        Stage::Extracting => "extract"@,
        Stage::Normalizing => "normalize"@,
        Stage::Activating => "activate"@,
        Stage::Recording => "record"@,
        Stage::Done => "done"@,
        Stage::Failed => "failed"@,
    }
}

/// A short name of a stage, for messages that say where a run failed.
pub fn stage_name(stage: Stage) -> (r: &'static str)
    ensures
        r@ == stage_label(stage),
{
    match stage {
        Stage::CheckLocal => "check",
        Stage::Fetching => "fetch",
        Stage::Extracting => "extract",
        Stage::Normalizing => "normalize",
        Stage::Activating => "activate",
        Stage::Recording => "record",
        Stage::Done => "done",
        Stage::Failed => "failed",
    }
}

/// Different stages have different labels, so a message names the stage
/// that failed unambiguously.
pub proof fn lemma_stage_labels_distinct(a: Stage, b: Stage)
    requires
        a != b,
    ensures
        stage_label(a) != stage_label(b),
{
    reveal_strlit("check");
    reveal_strlit("fetch");
    reveal_strlit("extract");
    reveal_strlit("normalize");
    reveal_strlit("activate");
    reveal_strlit("record");
    reveal_strlit("done");
    reveal_strlit("failed");
    if stage_label(a) == stage_label(b) {
        assert(stage_label(a).len() == stage_label(b).len());
        assert(stage_label(a)[0] == stage_label(b)[0]);
        assert(stage_label(a)[1] == stage_label(b)[1]);
    }
}

/// The stages visited from `stage` on as `outcomes` come in, `stage` first.
pub open spec fn trace(stage: Stage, outcomes: Seq<Outcome>) -> Seq<Stage>
    decreases outcomes.len(),
{
    if outcomes.len() == 0 {
        seq![stage]
    } else {
        seq![stage] + trace(next_stage_of(stage, outcomes[0]), outcomes.skip(1))
    }
}

/// Every run that ends in `Done` has passed through activation and then
/// recording, whether or not the environment was already installed; and a
/// run whose local check finds the install skips fetching, extracting and
/// normalizing.
pub proof fn lemma_done_runs_activate(outcomes: Seq<Outcome>)
    requires
        trace(Stage::CheckLocal, outcomes).last() == Stage::Done,
    ensures
        trace(Stage::CheckLocal, outcomes).contains(Stage::Activating),
        trace(Stage::CheckLocal, outcomes).contains(Stage::Recording),
        outcomes.len() > 0 && outcomes[0] == Outcome::AlreadyInstalled ==> !trace(
            Stage::CheckLocal,
            outcomes,
        ).contains(Stage::Fetching),
{
    lemma_trace_facts(Stage::CheckLocal, outcomes);
    if outcomes.len() > 0 && outcomes[0] == Outcome::AlreadyInstalled {
        let t = trace(Stage::CheckLocal, outcomes);
        let t2 = trace(Stage::Activating, outcomes.skip(1));
        lemma_trace_facts(Stage::Activating, outcomes.skip(1));
        assert(t =~= seq![Stage::CheckLocal] + t2);
        assert forall|k: int| 0 <= k < t.len() implies t[k] != Stage::Fetching by {
            if k > 0 {
                assert(t[k] == t2[k - 1]);
            }
        }
    }
}

/// The last stage of a trace is `Done` only through `Recording`, which is
/// reached only through `Activating`; `Fetching` is reached only from the
/// local check.
proof fn lemma_trace_facts(stage: Stage, outcomes: Seq<Outcome>)
    ensures
        trace(stage, outcomes).len() == outcomes.len() + 1,
        trace(stage, outcomes)[0] == stage,
        trace(stage, outcomes).last() == Stage::Done && stage != Stage::Done && stage
            != Stage::Recording ==> trace(stage, outcomes).contains(Stage::Recording),
        trace(stage, outcomes).last() == Stage::Done && stage != Stage::Done && stage
            != Stage::Recording && stage != Stage::Activating ==> trace(stage, outcomes).contains(
            Stage::Activating,
        ),
        stage != Stage::CheckLocal && stage != Stage::Fetching ==> !trace(stage, outcomes).contains(
            Stage::Fetching,
        ),
    decreases outcomes.len(),
{
    let t = trace(stage, outcomes);
    if outcomes.len() > 0 {
        let s2 = next_stage_of(stage, outcomes[0]);
        let rest = outcomes.skip(1);
        lemma_trace_facts(s2, rest);
        let t2 = trace(s2, rest);
        assert(t =~= seq![stage] + t2);
        assert(t.last() == t2.last());
        assert forall|x: Stage| t2.contains(x) implies t.contains(x) by {
            let k = choose|k: int| 0 <= k < t2.len() && t2[k] == x;
            assert(t[k + 1] == x);
        }
        if s2 == Stage::Recording {
            assert(t[1] == Stage::Recording);
        }
        if s2 == Stage::Activating {
            assert(t[1] == Stage::Activating);
        }
        if stage == Stage::Recording {
            assert(t[0] == Stage::Recording);
        }
        if stage == Stage::Activating {
            assert(t[0] == Stage::Activating);
        }
        if stage != Stage::CheckLocal && stage != Stage::Fetching {
            assert forall|k: int| 0 <= k < t.len() implies t[k] != Stage::Fetching by {
                if k > 0 {
                    assert(t[k] == t2[k - 1]);
                }
            }
        }
    } else {
        if stage == Stage::Recording {
            assert(t[0] == Stage::Recording);
        }
    }
}

proof fn lemma_failed_stays(outcomes: Seq<Outcome>)
    ensures
        forall|k: int|
            0 <= k < trace(Stage::Failed, outcomes).len() ==> #[trigger] trace(Stage::Failed, outcomes)[k]
                == Stage::Failed,
    decreases outcomes.len(),
{
    if outcomes.len() > 0 {
        lemma_failed_stays(outcomes.skip(1));
        let t = trace(Stage::Failed, outcomes);
        let t2 = trace(Stage::Failed, outcomes.skip(1));
        assert(t =~= seq![Stage::Failed] + t2);
        assert forall|k: int| 0 <= k < t.len() implies #[trigger] t[k] == Stage::Failed by {
            if k > 0 {
                assert(t[k] == t2[k - 1]);
            }
        }
    }
}

/// A run whose fetch fails ends there: it never extracts, activates or
/// records, so the environment and the ledger stay as they were.
pub proof fn lemma_failed_fetch_changes_nothing(outcomes: Seq<Outcome>)
    requires
        outcomes.len() >= 2,
        outcomes[0] == Outcome::Succeeded,
        outcomes[1] == Outcome::Failed,
    ensures
        !trace(Stage::CheckLocal, outcomes).contains(Stage::Extracting),
        !trace(Stage::CheckLocal, outcomes).contains(Stage::Activating),
        !trace(Stage::CheckLocal, outcomes).contains(Stage::Recording),
        trace(Stage::CheckLocal, outcomes).last() == Stage::Failed,
{
    let rest = outcomes.skip(1).skip(1);
    lemma_failed_stays(rest);
    lemma_trace_facts(Stage::Failed, rest);
    let t = trace(Stage::CheckLocal, outcomes);
    let t1 = trace(Stage::Fetching, outcomes.skip(1));
    let t2 = trace(Stage::Failed, rest);
    assert(outcomes.skip(1)[0] == Outcome::Failed);
    assert(t1 =~= seq![Stage::Fetching] + t2);
    assert(t =~= seq![Stage::CheckLocal, Stage::Fetching] + t2);
    assert forall|k: int| 0 <= k < t.len() implies #[trigger] t[k] != Stage::Extracting && t[k]
        != Stage::Activating && t[k] != Stage::Recording by {
        if k >= 2 {
            assert(t[k] == t2[k - 2]);
        }
    }
    assert(t.last() == t2.last());
    assert(t2.last() == t2[t2.len() - 1]);
}

} // verus!
