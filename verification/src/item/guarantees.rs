//! What holds of every reading of front matter against a schema.

use crate::config;
use crate::item::taxonomy::{
    defines, failures, field_outcome, given, lemma_names_come_from_schema, outcome, resolution,
    resolved_view, successes, tag_like_values, Outcome, Taxonomy, TaxonomyView,
};
use crate::names::{distinct, NameMap};
use crate::raw::Value;
use crate::report::{ErrorReport, Reason};
use vstd::prelude::*;

verus! {

/// How many taxonomies of `schema` have no acceptable value in `front`.
pub open spec fn failed_count(
    front: Seq<(Value, Value)>,
    schema: Seq<(Seq<char>, config::Taxonomy)>,
) -> nat
    decreases schema.len(),
{
    if schema.len() == 0 {
        0
    } else {
        failed_count(front, schema.drop_last()) + if field_outcome(
            front,
            schema.last().0,
            schema.last().1,
        ) is Failed {
            1nat
        } else {
            0nat
        }
    }
}

/// Where no taxonomy is required, empty front matter resolves to no values
/// and no errors.
pub proof fn lemma_nothing_required_nothing_given(schema: Seq<(Seq<char>, config::Taxonomy)>)
    requires
        forall|i: int| 0 <= i < schema.len() ==> !(#[trigger] schema[i]).1.requires_value(),
    ensures
        resolution(Seq::empty(), schema) == Ok::<
            Seq<(Seq<char>, TaxonomyView)>,
            Seq<(Seq<char>, Reason)>,
        >(Seq::empty()),
        successes(Seq::empty(), schema).len() == 0,
        failures(Seq::empty(), schema).len() == 0,
    decreases schema.len(),
{
    let front = Seq::<(Value, Value)>::empty();
    if schema.len() > 0 {
        let shorter = schema.drop_last();
        assert forall|i: int| 0 <= i < shorter.len() implies !(#[trigger] shorter[i]).1.requires_value() by {
            assert(shorter[i] == schema[i]);
        }
        lemma_nothing_required_nothing_given(shorter);
        assert(!schema[schema.len() - 1].1.requires_value());
        assert(given(front, schema.last().0) == Value::Null);
        assert(field_outcome(front, schema.last().0, schema.last().1) == Outcome::Skipped);
    }
    assert(successes(front, schema) =~= Seq::empty());
}

/// A failure is reported for exactly the taxonomies whose value is turned
/// down, with the reason of each, and for each of them once: the report
/// has as many entries as there are such taxonomies.
pub proof fn lemma_one_entry_per_failure(
    front: Seq<(Value, Value)>,
    schema: Seq<(Seq<char>, config::Taxonomy)>,
)
    requires
        distinct(schema),
    ensures
        distinct(failures(front, schema)),
        failures(front, schema).len() == failed_count(front, schema),
        forall|i: int|
            0 <= i < schema.len() && field_outcome(front, schema[i].0, schema[i].1) is Failed
                ==> exists|k: int|
                0 <= k < failures(front, schema).len() && #[trigger] failures(front, schema)[k] == (
                    (#[trigger] schema[i]).0,
                    field_outcome(front, schema[i].0, schema[i].1)->Failed_0,
                ),
        forall|k: int|
            0 <= k < failures(front, schema).len() ==> exists|i: int|
                0 <= i < schema.len() && (#[trigger] schema[i]).0 == (#[trigger] failures(
                    front,
                    schema,
                )[k]).0 && field_outcome(front, schema[i].0, schema[i].1) == Outcome::Failed(
                    failures(front, schema)[k].1,
                ),
    decreases schema.len(),
{
    if schema.len() > 0 {
        let shorter = schema.drop_last();
        let last = schema.len() - 1;
        let found = failures(front, schema);
        let before = failures(front, shorter);
        assert(distinct(shorter)) by {
            assert forall|i: int, j: int|
                0 <= i < shorter.len() && 0 <= j < shorter.len() && i != j implies (
            #[trigger] shorter[i]).0 != (#[trigger] shorter[j]).0 by {
                assert(shorter[i] == schema[i] && shorter[j] == schema[j]);
            }
        }
        lemma_one_entry_per_failure(front, shorter);
        lemma_names_come_from_schema(front, shorter);
        assert forall|k: int| 0 <= k < before.len() implies (#[trigger] before[k]).0
            != schema[last].0 by {
            assert(defines(shorter, before[k].0));
            let i = choose|i: int| 0 <= i < shorter.len() && (#[trigger] shorter[i]).0 == before[k].0;
            assert(schema[i].0 == before[k].0);
        }
        assert(distinct(found)) by {
            assert forall|i: int, j: int|
                0 <= i < found.len() && 0 <= j < found.len() && i != j implies (#[trigger] found[i]).0
                != (#[trigger] found[j]).0 by {
                if i < before.len() {
                    assert(found[i] == before[i]);
                }
                if j < before.len() {
                    assert(found[j] == before[j]);
                }
            }
        }
        assert forall|i: int|
            0 <= i < schema.len() && field_outcome(front, schema[i].0, schema[i].1) is Failed
            implies exists|k: int|
            0 <= k < found.len() && #[trigger] found[k] == (
                (#[trigger] schema[i]).0,
                field_outcome(front, schema[i].0, schema[i].1)->Failed_0,
            ) by {
            if i < last {
                assert(shorter[i] == schema[i]);
                let k = choose|k: int|
                    0 <= k < before.len() && #[trigger] before[k] == (
                        shorter[i].0,
                        field_outcome(front, shorter[i].0, shorter[i].1)->Failed_0,
                    );
                assert(found[k] == before[k]);
            } else {
                assert(found[found.len() - 1] == (
                    schema[i].0,
                    field_outcome(front, schema[i].0, schema[i].1)->Failed_0,
                ));
            }
        }
        assert forall|k: int| 0 <= k < found.len() implies exists|i: int|
            0 <= i < schema.len() && (#[trigger] schema[i]).0 == (#[trigger] found[k]).0
                && field_outcome(front, schema[i].0, schema[i].1) == Outcome::Failed(found[k].1) by {
            if k < before.len() {
                assert(found[k] == before[k]);
                let i = choose|i: int|
                    0 <= i < shorter.len() && (#[trigger] shorter[i]).0 == before[k].0
                        && field_outcome(front, shorter[i].0, shorter[i].1) == Outcome::Failed(
                        before[k].1,
                    );
                assert(schema[i] == shorter[i]);
            } else {
                assert(schema[last].0 == found[k].0);
            }
        }
    }
}

/// A required flag that the front matter leaves out is reported exactly
/// once, as missing, whatever else the schema defines and the front matter
/// holds.
pub proof fn lemma_required_flag_left_out(
    front: Seq<(Value, Value)>,
    schema: Seq<(Seq<char>, config::Taxonomy)>,
    at: int,
)
    requires
        distinct(schema),
        0 <= at < schema.len(),
        schema[at].1 == (config::Taxonomy::Boolean { required: true }),
        given(front, schema[at].0) is Null,
    ensures
        resolution(front, schema) is Err,
        exists|k: int|
            0 <= k < failures(front, schema).len() && #[trigger] failures(front, schema)[k] == (
                schema[at].0,
                Reason::Missing,
            ) && forall|j: int|
                0 <= j < failures(front, schema).len() && (#[trigger] failures(front, schema)[j]).0
                    == schema[at].0 ==> j == k,
{
    lemma_one_entry_per_failure(front, schema);
    let found = failures(front, schema);
    assert(field_outcome(front, schema[at].0, schema[at].1) == Outcome::Failed(Reason::Missing));
    let k = choose|k: int|
        0 <= k < found.len() && #[trigger] found[k] == (
            schema[at].0,
            field_outcome(front, schema[at].0, schema[at].1)->Failed_0,
        );
    assert(found[k] == (schema[at].0, Reason::Missing));
    assert forall|j: int| 0 <= j < found.len() && (#[trigger] found[j]).0 == schema[at].0 implies j
        == k by {
        if j != k {
            assert(found[j].0 != found[k].0);
        }
    }
}

/// Values beyond the limit of a tag-like taxonomy are turned down, with the
/// limit as the reason, whether they come as one text or as a list.
pub proof fn lemma_limit_exceeded(
    value: Value,
    name: Seq<char>,
    required: bool,
    hierarchical: bool,
    limit: u64,
    commas_as_lists: bool,
)
    requires
        tag_like_values(value, commas_as_lists) is Ok,
        tag_like_values(value, commas_as_lists)->Ok_0.len() > limit,
    ensures
        outcome(
            value,
            name,
            config::Taxonomy::TagLike { required, hierarchical, limit: Some(limit), commas_as_lists },
        ) == Outcome::Failed(Reason::TooMany { limit }),
{
}

/// Reading the same front matter against the same schema twice gives the
/// same values, or the same report.
pub proof fn lemma_resolution_repeats(
    front: Seq<(Value, Value)>,
    schema: Seq<(Seq<char>, config::Taxonomy)>,
    first: Result<NameMap<Taxonomy>, ErrorReport>,
    second: Result<NameMap<Taxonomy>, ErrorReport>,
)
    requires
        resolved_view(first) == resolution(front, schema),
        resolved_view(second) == resolution(front, schema),
    ensures
        resolved_view(first) == resolved_view(second),
        first is Ok <==> second is Ok,
{
}

} // verus!
