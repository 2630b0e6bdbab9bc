//! Facts about the builders and the document that hold across calls.
use vstd::prelude::*;
use crate::doc::{holds, is_texts, keys_of, Doc};
use crate::settings::{extended, StrategyBuilder};
use crate::text::texts;
use crate::triggers::PushBuilder;
use crate::workflow::Workflow;
use serde_yml::Value;

verus! {

/// A workflow whose fields other than its name are all empty is written as
/// its name alone.
pub proof fn lemma_empty_workflow_writes_only_name(w: Workflow, d: Doc)
    requires
        w.documented_by(d),
        w.run_name is None,
        w.on.is_empty_spec(),
        w.permissions is None || w.permissions->Some_0.is_empty_spec(),
        w.env.keys().len() == 0,
        w.defaults.is_empty_spec(),
        w.concurrency.is_empty_spec(),
        w.jobs.keys().len() == 0,
    ensures
        keys_of(d) == seq!["name"@],
{
    assert(keys_of(d) =~= seq!["name"@]);
}

/// Two values appended one after the other under a matrix key end that key's
/// list in call order: a new key holds exactly the two, an existing one
/// keeps its earlier values before them.
pub proof fn lemma_matrix_appends_in_order(
    b0: StrategyBuilder,
    b1: StrategyBuilder,
    b2: StrategyBuilder,
    key: Seq<char>,
    first: Value,
    second: Value,
)
    requires
        b1.staged().matrix.view() == b0.staged().matrix.view().insert(key, b1.staged().matrix.view()[key]),
        b1.staged().matrix.view()[key]@ == extended(b0.staged().matrix.view(), key, first),
        b2.staged().matrix.view() == b1.staged().matrix.view().insert(key, b2.staged().matrix.view()[key]),
        b2.staged().matrix.view()[key]@ == extended(b1.staged().matrix.view(), key, second),
    ensures
        !b0.staged().matrix.view().contains_key(key) ==> b2.staged().matrix.view()[key]@ == seq![first, second],
        b0.staged().matrix.view().contains_key(key) ==> b2.staged().matrix.view()[key]@
            == b0.staged().matrix.view()[key]@ + seq![first, second],
{
    assert(b1.staged().matrix.view().contains_key(key));
    if b0.staged().matrix.view().contains_key(key) {
        assert(b2.staged().matrix.view()[key]@ =~= b0.staged().matrix.view()[key]@ + seq![first, second]);
    } else {
        assert(b2.staged().matrix.view()[key]@ =~= seq![first, second]);
    }
}

/// Branches added one after the other keep their call order in the built
/// trigger and in its document.
pub proof fn lemma_branches_keep_call_order(
    b0: PushBuilder,
    b1: PushBuilder,
    b2: PushBuilder,
    first: Seq<char>,
    second: Seq<char>,
    d: Doc,
)
    requires
        texts(b1.staged().branches@) == texts(b0.staged().branches@).push(first),
        texts(b2.staged().branches@) == texts(b1.staged().branches@).push(second),
        b2.staged().documented_by(d),
    ensures
        texts(b2.staged().branches@) == texts(b0.staged().branches@) + seq![first, second],
        holds(d, "branches"@, |c: Doc| is_texts(c, b2.staged().branches@)),
{
    assert(texts(b2.staged().branches@) =~= texts(b0.staged().branches@) + seq![first, second]);
    assert(texts(b2.staged().branches@).len() > 0);
    assert(b2.staged().branches@.len() > 0);
}

} // verus!
