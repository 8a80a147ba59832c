//! The registry: commands with their example phrases, in the order in which
//! they were registered.
//!
//! Entries are only ever added, and the one thing that changes in an entry is
//! an example's embedding, from missing to filled. The examples are
//! enumerated entry by entry, and within an entry in the order in which they
//! stand.

use vstd::prelude::*;

use crate::command::Command;
use crate::input::{Embedding, Input};

verus! {

/// An entry of the registry: the examples, and the command they stand for.
pub type Entry<X> = (Vec<Input>, Command<X>);

/// The entries that `batch` adds to a registry: each pair turned round, in order.
pub open spec fn registered<X>(batch: Seq<(Command<X>, Vec<Input>)>) -> Seq<Entry<X>> {
    Seq::new(batch.len(), |k: int| (batch[k].1, batch[k].0))
}

/// The texts of the examples in `examples` that have no embedding, in order.
pub open spec fn missing_in(examples: Seq<Input>) -> Seq<String>
    decreases examples.len(),
{
    if examples.len() == 0 {
        Seq::empty()
    } else if examples.last().embedding is None {
        missing_in(examples.drop_last()).push(examples.last().text)
    } else {
        missing_in(examples.drop_last())
    }
}

/// The texts of all examples without an embedding, in enumeration order:
/// entries as they were registered, examples as they stand in their entry.
pub open spec fn missing<X>(registry: Seq<Entry<X>>) -> Seq<String>
    decreases registry.len(),
{
    if registry.len() == 0 {
        Seq::empty()
    } else {
        missing(registry.drop_last()) + missing_in(registry.last().0@)
    }
}

/// How many examples without an embedding are enumerated before example `j`
/// of entry `i`.
pub open spec fn missing_before<X>(registry: Seq<Entry<X>>, i: int, j: int) -> nat {
    missing(registry.take(i)).len() + missing_in(registry[i].0@.take(j)).len()
}

/// What example `j` of entry `i` holds after a batch fill with `results`, the
/// answers to the requests for `missing(registry)`, one for one. An embedding
/// that was there stays. A missing one is set to the answer to its own
/// request, which leaves it missing where the resolution failed or no answer
/// came.
pub open spec fn refreshed<X>(
    registry: Seq<Entry<X>>,
    results: Seq<Option<Embedding>>,
    i: int,
    j: int,
) -> Option<Embedding> {
    let example = registry[i].0@[j];
    if example.embedding is Some {
        example.embedding
    } else if missing_before(registry, i, j) < results.len() {
        results[missing_before(registry, i, j) as int]
    } else {
        None
    }
}

/// `after` is `before` once the batch fill has applied `results`: the same
/// entries with the same commands and the same example texts, every example
/// holding what `refreshed` says.
pub open spec fn filled<X>(
    before: Seq<Entry<X>>,
    results: Seq<Option<Embedding>>,
    after: Seq<Entry<X>>,
) -> bool {
    &&& after.len() == before.len()
    &&& forall|i: int|
        0 <= i < before.len() ==> {
            &&& (#[trigger] after[i]).1 == before[i].1
            &&& after[i].0@.len() == before[i].0@.len()
        }
    &&& forall|i: int, j: int|
        0 <= i < before.len() && 0 <= j < before[i].0@.len() ==> {
            &&& (#[trigger] after[i].0@[j]).text == before[i].0@[j].text
            &&& after[i].0@[j].embedding == refreshed(before, results, i, j)
        }
}

/// What the batch fill has made of entry `i` when it stands at example
/// `upto`: the examples before that place are refreshed, the others are as
/// they were.
pub(crate) open spec fn filled_up_to<X>(
    registry: Seq<Entry<X>>,
    results: Seq<Option<Embedding>>,
    i: int,
    upto: int,
    entry: Entry<X>,
) -> bool {
    &&& entry.1 == registry[i].1
    &&& entry.0@.len() == registry[i].0@.len()
    &&& forall|j: int|
        0 <= j < registry[i].0@.len() ==> {
            &&& (#[trigger] entry.0@[j]).text == registry[i].0@[j].text
            &&& entry.0@[j].embedding == if j < upto {
                refreshed(registry, results, i, j)
            } else {
                registry[i].0@[j].embedding
            }
        }
}

/// A registry whose entries are all filled to their end is filled.
pub(crate) proof fn lemma_filled<X>(
    before: Seq<Entry<X>>,
    results: Seq<Option<Embedding>>,
    after: Seq<Entry<X>>,
)
    requires
        after.len() == before.len(),
        forall|i: int|
            0 <= i < before.len() ==> filled_up_to(
                before,
                results,
                i,
                before[i].0@.len() as int,
                #[trigger] after[i],
            ),
    ensures
        filled(before, results, after),
{
    assert forall|i: int, j: int| 0 <= i < before.len() && 0 <= j < before[i].0@.len() implies {
        &&& (#[trigger] after[i].0@[j]).text == before[i].0@[j].text
        &&& after[i].0@[j].embedding == refreshed(before, results, i, j)
    } by {
        assert(filled_up_to(before, results, i, before[i].0@.len() as int, after[i]));
    }
}

/// Taking one more example into account adds its text where it has no embedding.
pub(crate) proof fn lemma_missing_in_step(examples: Seq<Input>, j: int)
    requires
        0 <= j < examples.len(),
    ensures
        missing_in(examples.take(j + 1)) == if examples[j].embedding is None {
            missing_in(examples.take(j)).push(examples[j].text)
        } else {
            missing_in(examples.take(j))
        },
{
    assert(examples.take(j + 1).drop_last() =~= examples.take(j));
}

/// Taking one more entry into account adds what its examples miss.
pub(crate) proof fn lemma_missing_step<X>(registry: Seq<Entry<X>>, i: int)
    requires
        0 <= i < registry.len(),
    ensures
        missing(registry.take(i + 1)) == missing(registry.take(i)) + missing_in(registry[i].0@),
{
    assert(registry.take(i + 1).drop_last() =~= registry.take(i));
}

/// Registering a batch and then one more command keeps every entry: those
/// that were there, those of the batch in their order, and the last one, with
/// nothing merged or dropped, whatever the names.
pub proof fn registration_keeps_every_entry<X>(
    registry: Seq<Entry<X>>,
    batch: Seq<(Command<X>, Vec<Input>)>,
    command: Command<X>,
    inputs: Vec<Input>,
)
    ensures
        ({
            let after = (registry + registered(batch)).push((inputs, command));
            &&& after.len() == registry.len() + batch.len() + 1
            &&& forall|k: int| 0 <= k < registry.len() ==> after[k] == registry[k]
            &&& forall|k: int|
                0 <= k < batch.len() ==> after[registry.len() + k] == (batch[k].1, batch[k].0)
            &&& after[(registry.len() + batch.len()) as int] == (inputs, command)
        }),
{
}

/// The batch fill never touches an embedding that is there, nor a text.
pub proof fn fill_keeps_embeddings<X>(
    before: Seq<Entry<X>>,
    results: Seq<Option<Embedding>>,
    after: Seq<Entry<X>>,
    i: int,
    j: int,
)
    requires
        filled(before, results, after),
        0 <= i < before.len(),
        0 <= j < before[i].0@.len(),
    ensures
        after[i].0@[j].text == before[i].0@[j].text,
        before[i].0@[j].embedding is Some ==> after[i].0@[j].embedding == before[i].0@[j].embedding,
{
}

/// What the first `j` examples miss is the start of what all of them miss.
proof fn lemma_missing_in_prefix(examples: Seq<Input>, j: int)
    requires
        0 <= j <= examples.len(),
    ensures
        missing_in(examples.take(j)).len() <= missing_in(examples).len(),
        missing_in(examples.take(j)) == missing_in(examples).take(
            missing_in(examples.take(j)).len() as int,
        ),
    decreases examples.len(),
{
    if j == examples.len() {
        assert(examples.take(j) =~= examples);
        assert(missing_in(examples).take(missing_in(examples).len() as int) =~= missing_in(examples));
    } else {
        lemma_missing_in_prefix(examples.drop_last(), j);
        assert(examples.drop_last().take(j) =~= examples.take(j));
        let short = missing_in(examples.take(j));
        assert(short =~= missing_in(examples).take(short.len() as int));
    }
}

/// What the first `i` entries miss is the start of what all of them miss.
proof fn lemma_missing_prefix<X>(registry: Seq<Entry<X>>, i: int)
    requires
        0 <= i <= registry.len(),
    ensures
        missing(registry.take(i)).len() <= missing(registry).len(),
        missing(registry.take(i)) == missing(registry).take(missing(registry.take(i)).len() as int),
    decreases registry.len(),
{
    if i == registry.len() {
        assert(registry.take(i) =~= registry);
        assert(missing(registry).take(missing(registry).len() as int) =~= missing(registry));
    } else {
        lemma_missing_prefix(registry.drop_last(), i);
        assert(registry.drop_last().take(i) =~= registry.take(i));
        let short = missing(registry.take(i));
        assert(short =~= missing(registry).take(short.len() as int));
    }
}

/// The answers of the batch fill go to the examples they were asked for: an
/// example without an embedding takes the answer at the place where its own
/// text stands among the texts asked for.
pub proof fn fill_answers_own_request<X>(registry: Seq<Entry<X>>, i: int, j: int)
    requires
        0 <= i < registry.len(),
        0 <= j < registry[i].0@.len(),
        registry[i].0@[j].embedding is None,
    ensures
        missing_before(registry, i, j) < missing(registry).len(),
        missing(registry)[missing_before(registry, i, j) as int] == registry[i].0@[j].text,
{
    let examples = registry[i].0@;
    lemma_missing_in_step(examples, j);
    lemma_missing_in_prefix(examples, j + 1);
    lemma_missing_step(registry, i);
    lemma_missing_prefix(registry, i + 1);
    let own = missing_in(examples.take(j + 1));
    let k = missing_in(examples.take(j)).len() as int;
    assert(own[k] == examples[j].text);
    assert(missing_in(examples)[k] == own[k]) by {
        assert(own == missing_in(examples).take(own.len() as int));
    }
    let upto = missing(registry.take(i + 1));
    let base = missing(registry.take(i)).len() as int;
    assert(upto[base + k] == missing_in(examples)[k]);
    assert(missing(registry)[base + k] == upto[base + k]) by {
        assert(upto == missing(registry).take(upto.len() as int));
    }
}

/// Examples that all have an embedding miss nothing.
proof fn lemma_nothing_missing_in(examples: Seq<Input>)
    requires
        forall|j: int| 0 <= j < examples.len() ==> (#[trigger] examples[j]).embedding is Some,
    ensures
        missing_in(examples).len() == 0,
    decreases examples.len(),
{
    if examples.len() > 0 {
        let front = examples.drop_last();
        assert forall|j: int| 0 <= j < front.len() implies (#[trigger] front[j]).embedding is Some by {
            assert(front[j] == examples[j]);
        }
        lemma_nothing_missing_in(front);
        assert(examples.last() == examples[examples.len() - 1]);
    }
}

/// A registry in which every example has an embedding misses nothing.
proof fn lemma_nothing_missing<X>(registry: Seq<Entry<X>>)
    requires
        forall|i: int, j: int|
            0 <= i < registry.len() && 0 <= j < registry[i].0@.len() ==> (
            #[trigger] registry[i].0@[j]).embedding is Some,
    ensures
        missing(registry).len() == 0,
    decreases registry.len(),
{
    if registry.len() > 0 {
        let front = registry.drop_last();
        assert forall|i: int, j: int| 0 <= i < front.len() && 0 <= j < front[i].0@.len() implies (
        #[trigger] front[i].0@[j]).embedding is Some by {
            assert(front[i] == registry[i]);
            assert(registry[i].0@[j].embedding is Some);
        }
        lemma_nothing_missing(front);
        let examples = registry.last().0@;
        assert forall|j: int| 0 <= j < examples.len() implies (#[trigger] examples[j]).embedding is Some by {
            assert(registry[registry.len() - 1].0@[j].embedding is Some);
        }
        lemma_nothing_missing_in(examples);
    }
}

/// Once every resolution of a batch fill has succeeded, no example is without
/// an embedding: the next dispatch has nothing to resolve but its query.
pub proof fn fill_of_all_leaves_nothing_missing<X>(
    before: Seq<Entry<X>>,
    results: Seq<Option<Embedding>>,
    after: Seq<Entry<X>>,
)
    requires
        filled(before, results, after),
        results.len() == missing(before).len(),
        forall|k: int| 0 <= k < results.len() ==> (#[trigger] results[k]) is Some,
    ensures
        missing(after).len() == 0,
{
    assert forall|i: int, j: int| 0 <= i < after.len() && 0 <= j < after[i].0@.len() implies (
    #[trigger] after[i].0@[j]).embedding is Some by {
        assert(after[i].0@.len() == before[i].0@.len());
        assert(after[i].0@[j].embedding == refreshed(before, results, i, j));
        if before[i].0@[j].embedding is None {
            fill_answers_own_request(before, i, j);
        }
    }
    lemma_nothing_missing(after);
}

} // verus!
