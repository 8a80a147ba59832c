//! The dispatch engine: it registers commands, and for each input decides,
//! step by step, what the host has to do until a handler is found or the
//! dispatch fails.

use std::sync::Arc;
use vstd::prelude::*;

use crate::command::Command;
use crate::failure::Failure;
use crate::input::{normal_form, normalize, Embedding, Input};
use crate::registry::{
    fill_keeps_embeddings, filled, filled_up_to, lemma_filled, lemma_missing_in_step,
    lemma_missing_step, missing, missing_before, missing_in, registered, Entry,
};
use crate::resolution::{
    advance, next_step, repeated_resolution_is_served_from_cache, resolved, Resolution,
    ResolutionStep,
};
use crate::text::tidy;
use crate::selection::{
    candidate_means_match, eligible, is_best, later_of_tied_is_selected, lemma_scanned_all,
    match_is_unique, no_candidate_no_match, no_match_below_threshold, only_candidate_is_selected,
    precedes, scanned, selection,
};
use crate::similarity::Similarity;

verus! {

/// Where a dispatch stands: what the host was last told to do, and what came
/// of it.
pub enum Dispatch {
    /// Nothing was done yet for the input.
    Start { input: String },
    /// The embedding of the query was resolved, or could not be.
    QueryResolved { outcome: Result<Embedding, Failure> },
    /// The missing example embeddings were resolved: for each text that was
    /// asked for, in order, the embedding, or `None` where it could not be
    /// resolved.
    ExamplesResolved { query: Embedding, results: Vec<Option<Embedding>> },
    /// The examples were scored against the query: `scores[i][j]` is the
    /// similarity of example `j` of entry `i`, `None` where it has no
    /// embedding.
    Scored { scores: Vec<Vec<Option<Similarity>>> },
}

/// What the host has to do next for a dispatch.
pub enum DispatchStep {
    /// Resolve the embedding of the text.
    ResolveQuery { text: String },
    /// Resolve the embedding of each text, all at once, and keep their order.
    ResolveExamples { query: Embedding, texts: Vec<String> },
    /// Compute the similarity between the query and every example that has an
    /// embedding.
    Score { query: Embedding },
    /// Run the handler of the entry with the shared context and return what
    /// it gives. `example` is the example that matched.
    Invoke { entry: usize, example: usize },
    /// Nothing: the dispatch has failed.
    Fail(Failure),
}

/// Whether `step` is what the engine decides where the resolution of a text
/// stands at `at`. At the start the cache is asked for the normal form of
/// the text, which is the key from then on; after that the resolution goes
/// as `next_step` says.
pub open spec fn resolving(at: Resolution, step: ResolutionStep) -> bool {
    match at {
        Resolution::Start { text } => {
            &&& step matches ResolutionStep::Lookup { text: key }
            &&& key@ == normal_form(text@)
            &&& tidy(key@)
        },
        _ => step == next_step(at),
    }
}

/// Texts with the same normal form are resolved under the same key, so that
/// the second of two resolutions is served from the cache where the first
/// succeeded: the two together ask the provider at most once.
pub proof fn repeated_resolution_of_a_text_is_served_from_cache(
    cache: Map<Seq<char>, Embedding>,
    text: String,
    again: String,
    begun: ResolutionStep,
    begun_again: ResolutionStep,
    first: Result<Embedding, String>,
    second: Result<Embedding, String>,
)
    requires
        normal_form(text@) == normal_form(again@),
        resolving(Resolution::Start { text }, begun),
        resolving(Resolution::Start { text: again }, begun_again),
        resolved(cache, begun->Lookup_text, first).outcome matches Some(Ok(_)),
    ensures
        begun->Lookup_text@ == begun_again->Lookup_text@,
        resolved(
            resolved(cache, begun->Lookup_text, first).cache,
            begun_again->Lookup_text,
            second,
        ).provider_calls == 0,
        resolved(
            resolved(cache, begun->Lookup_text, first).cache,
            begun_again->Lookup_text,
            second,
        ).outcome == resolved(cache, begun->Lookup_text, first).outcome,
        resolved(cache, begun->Lookup_text, first).provider_calls <= 1,
{
    repeated_resolution_is_served_from_cache(
        cache,
        begun->Lookup_text,
        begun_again->Lookup_text,
        first,
        second,
    );
}

/// How a dispatch ends once the examples are scored: in the handler of the
/// match, or in no match.
pub open spec fn verdict<X>(
    registry: Seq<Entry<X>>,
    scores: Seq<Vec<Option<Similarity>>>,
) -> DispatchStep {
    match selection(registry, scores, Similarity::threshold()) {
        Some((i, j)) => DispatchStep::Invoke { entry: i as usize, example: j as usize },
        None => DispatchStep::Fail(Failure::NoMatch),
    }
}

/// Whether `step` and the registry `after` are what the engine decides where
/// a dispatch stands at `at` and the registry is `before`.
///
/// The input is brought into normal form and sent to be resolved. A query
/// that could not be resolved ends the dispatch in its failure. A resolved
/// query has the examples without an embedding resolved, and what comes back
/// is filled in. Then the examples are scored, and the scores give the
/// verdict. Only the fill changes the registry.
pub open spec fn decided<X>(
    before: Seq<Entry<X>>,
    at: Dispatch,
    after: Seq<Entry<X>>,
    step: DispatchStep,
) -> bool {
    match at {
        Dispatch::Start { input } => {
            &&& step is ResolveQuery
            &&& step->ResolveQuery_text@ == normal_form(input@)
            &&& after == before
        },
        Dispatch::QueryResolved { outcome: Err(failure) } => {
            &&& step == DispatchStep::Fail(failure)
            &&& after == before
        },
        Dispatch::QueryResolved { outcome: Ok(query) } => {
            &&& step is ResolveExamples
            &&& step->ResolveExamples_query == query
            &&& step->ResolveExamples_texts@ == missing(before)
            &&& after == before
        },
        Dispatch::ExamplesResolved { query, results } => {
            &&& step == DispatchStep::Score { query }
            &&& filled(before, results@, after)
        },
        Dispatch::Scored { scores } => {
            &&& step == verdict(before, scores@)
            &&& after == before
        },
    }
}

/// No step of a dispatch adds, removes or reorders an entry, changes a
/// command or a text, or touches an embedding that is there.
pub proof fn dispatch_keeps_what_is_registered<X>(
    before: Seq<Entry<X>>,
    at: Dispatch,
    after: Seq<Entry<X>>,
    step: DispatchStep,
)
    requires
        decided(before, at, after, step),
    ensures
        after.len() == before.len(),
        forall|i: int|
            0 <= i < before.len() ==> {
                &&& (#[trigger] after[i]).1 == before[i].1
                &&& after[i].0@.len() == before[i].0@.len()
            },
        forall|i: int, j: int|
            0 <= i < before.len() && 0 <= j < before[i].0@.len() ==> {
                &&& (#[trigger] after[i].0@[j]).text == before[i].0@[j].text
                &&& before[i].0@[j].embedding is Some ==> after[i].0@[j].embedding
                    == before[i].0@[j].embedding
            },
{
    if at is ExamplesResolved {
        assert forall|i: int, j: int|
            0 <= i < before.len() && 0 <= j < before[i].0@.len() implies {
            &&& (#[trigger] after[i].0@[j]).text == before[i].0@[j].text
            &&& before[i].0@[j].embedding is Some ==> after[i].0@[j].embedding
                == before[i].0@[j].embedding
        } by {
            fill_keeps_embeddings(before, at->results@, after, i, j);
        }
    }
}

/// A dispatch invokes nothing but the match: the step that names a handler
/// follows the scores, and names an entry and an example that are there, the
/// example with an embedding and a score that reaches the default threshold.
pub proof fn dispatch_invokes_only_the_match<X>(
    before: Seq<Entry<X>>,
    at: Dispatch,
    after: Seq<Entry<X>>,
    step: DispatchStep,
)
    requires
        before.len() <= usize::MAX,
        decided(before, at, after, step),
        step is Invoke,
    ensures
        at is Scored,
        step->entry < before.len(),
        step->example < before[step->entry as int].0@.len(),
        is_best(
            before,
            at->scores@,
            Similarity::threshold(),
            step->entry as int,
            step->example as int,
        ),
{
    let scores = at->scores@;
    let threshold = Similarity::threshold();
    let p = choose|p: (int, int)| is_best(before, scores, threshold, p.0, p.1);
    assert(is_best(before, scores, threshold, p.0, p.1));
    assert(eligible(before, scores, threshold, p.0, p.1));
    assert(p.1 < before[p.0].0.len());
    assert(step->entry == p.0 as usize);
    assert(step->example == p.1 as usize);
}

/// Whether a whole dispatch may go as told: the query resolves as `query`,
/// the examples that miss an embedding resolve as `results`, the examples
/// are scored as `scores`, and the dispatch leaves the registry `after` and
/// ends in `end`.
///
/// A query that cannot be resolved ends the dispatch in its failure, with
/// the registry untouched. Otherwise the results are filled in and the
/// scores give the verdict.
pub open spec fn dispatched<X>(
    before: Seq<Entry<X>>,
    query: Result<Embedding, Failure>,
    results: Seq<Option<Embedding>>,
    scores: Seq<Vec<Option<Similarity>>>,
    after: Seq<Entry<X>>,
    end: DispatchStep,
) -> bool {
    match query {
        Err(failure) => after == before && end == DispatchStep::Fail(failure),
        Ok(_) => filled(before, results, after) && end == verdict(after, scores),
    }
}

/// The steps that the engine decides make up a dispatch: from the start over
/// the query to its end in a failure, or over the fill and the scores to the
/// verdict.
pub proof fn steps_make_a_dispatch<X>(
    before: Seq<Entry<X>>,
    input: String,
    query: Result<Embedding, Failure>,
    results: Vec<Option<Embedding>>,
    scores: Vec<Vec<Option<Similarity>>>,
    after: Seq<Entry<X>>,
    first: DispatchStep,
    second: DispatchStep,
    third: DispatchStep,
    end: DispatchStep,
)
    requires
        decided(before, Dispatch::Start { input }, before, first),
        decided(before, Dispatch::QueryResolved { outcome: query }, before, second),
        query is Err ==> after == before && end == second,
        query is Ok ==> decided(
            before,
            Dispatch::ExamplesResolved { query: query->Ok_0, results },
            after,
            third,
        ),
        query is Ok ==> decided(after, Dispatch::Scored { scores }, after, end),
    ensures
        dispatched(before, query, results@, scores@, after, end),
        first is ResolveQuery,
        query is Ok ==> second is ResolveExamples && third is Score,
{
}

/// A dispatch fails fast: where the query cannot be resolved, the dispatch
/// ends in that failure and no example is touched.
pub proof fn dispatch_fails_with_its_query<X>(
    before: Seq<Entry<X>>,
    failure: Failure,
    results: Seq<Option<Embedding>>,
    scores: Seq<Vec<Option<Similarity>>>,
    after: Seq<Entry<X>>,
    end: DispatchStep,
)
    requires
        dispatched(before, Err(failure), results, scores, after, end),
    ensures
        end == DispatchStep::Fail(failure),
        after == before,
{
}

/// With no command registered, no dispatch reaches a handler, and every
/// dispatch whose query was resolved ends in no match, whatever the scores.
pub proof fn dispatch_without_commands_finds_no_match<X>(
    before: Seq<Entry<X>>,
    query: Result<Embedding, Failure>,
    results: Seq<Option<Embedding>>,
    scores: Seq<Vec<Option<Similarity>>>,
    after: Seq<Entry<X>>,
    end: DispatchStep,
)
    requires
        before.len() == 0,
        dispatched(before, query, results, scores, after, end),
    ensures
        end is Fail,
        query is Ok ==> end == DispatchStep::Fail(Failure::NoMatch),
{
    if query is Ok {
        no_candidate_no_match(after, scores, Similarity::threshold());
    }
}

/// Where no score reaches the default threshold, as where the query is
/// orthogonal to every example, the dispatch ends in no match.
pub proof fn dispatch_below_threshold_finds_no_match<X>(
    before: Seq<Entry<X>>,
    query: Result<Embedding, Failure>,
    results: Seq<Option<Embedding>>,
    scores: Seq<Vec<Option<Similarity>>>,
    after: Seq<Entry<X>>,
    end: DispatchStep,
)
    requires
        query is Ok,
        dispatched(before, query, results, scores, after, end),
        forall|i: int, j: int|
            0 <= i < scores.len() && 0 <= j < scores[i]@.len() && (#[trigger] scores[i]@[j]) is Some
                ==> !scores[i]@[j]->0.reaches(Similarity::threshold()),
    ensures
        end == DispatchStep::Fail(Failure::NoMatch),
{
    no_match_below_threshold(after, scores, Similarity::threshold());
}

/// Where an example reaches the default threshold, a dispatch whose query
/// was resolved ends in a handler: no match means that there was no
/// candidate.
pub proof fn dispatch_with_a_candidate_invokes<X>(
    before: Seq<Entry<X>>,
    query: Result<Embedding, Failure>,
    results: Seq<Option<Embedding>>,
    scores: Seq<Vec<Option<Similarity>>>,
    after: Seq<Entry<X>>,
    end: DispatchStep,
    i: int,
    j: int,
)
    requires
        query is Ok,
        dispatched(before, query, results, scores, after, end),
        eligible(after, scores, Similarity::threshold(), i, j),
    ensures
        end is Invoke,
{
    candidate_means_match(after, scores, Similarity::threshold(), i, j);
}

/// Where one example alone is a candidate, the dispatch ends in the handler
/// of its entry. So a query is dispatched to the one command whose example
/// it equals, since a vector's similarity with itself reaches the threshold.
pub proof fn dispatch_invokes_the_only_candidate<X>(
    before: Seq<Entry<X>>,
    query: Result<Embedding, Failure>,
    results: Seq<Option<Embedding>>,
    scores: Seq<Vec<Option<Similarity>>>,
    after: Seq<Entry<X>>,
    end: DispatchStep,
    i: int,
    j: int,
)
    requires
        query is Ok,
        dispatched(before, query, results, scores, after, end),
        eligible(after, scores, Similarity::threshold(), i, j),
        forall|m: int, n: int| #[trigger]
            eligible(after, scores, Similarity::threshold(), m, n) ==> m == i && n == j,
    ensures
        end == (DispatchStep::Invoke { entry: i as usize, example: j as usize }),
{
    only_candidate_is_selected(after, scores, Similarity::threshold(), i, j);
}

/// Of two candidates tied at the highest score, a dispatch ends in the
/// handler of the one enumerated later, every time.
pub proof fn dispatch_invokes_the_later_of_tied<X>(
    before: Seq<Entry<X>>,
    query: Result<Embedding, Failure>,
    results: Seq<Option<Embedding>>,
    scores: Seq<Vec<Option<Similarity>>>,
    after: Seq<Entry<X>>,
    end: DispatchStep,
    i: int,
    j: int,
    a: int,
    b: int,
)
    requires
        query is Ok,
        dispatched(before, query, results, scores, after, end),
        eligible(after, scores, Similarity::threshold(), i, j),
        eligible(after, scores, Similarity::threshold(), a, b),
        precedes(i, j, a, b),
        scores[i]@[j]->0.rank() == scores[a]@[b]->0.rank(),
        forall|m: int, n: int| #[trigger]
            eligible(after, scores, Similarity::threshold(), m, n) && !(m == i && n == j) && !(m == a
                && n == b) ==> scores[m]@[n]->0.rank() < scores[a]@[b]->0.rank(),
    ensures
        end == (DispatchStep::Invoke { entry: a as usize, example: b as usize }),
{
    later_of_tied_is_selected(after, scores, Similarity::threshold(), i, j, a, b);
}

/// The dispatch engine.
///
/// It owns the registry and keeps the provider, the cache and the context for
/// the host. The registry only grows, and an example's embedding, once there,
/// stays as it is.
pub struct SemanticCommands<E, Ch, C, X> {
    embedder: Arc<E>,
    cache: Arc<Ch>,
    context: Arc<C>,
    entries: Vec<Entry<X>>,
}

impl<E, Ch, C, X> SemanticCommands<E, Ch, C, X> {
    /// The registered entries, in registration order.
    pub closed spec fn registry(&self) -> Seq<Entry<X>> {
        self.entries@
    }

    /// The embedding provider the engine was made with.
    pub closed spec fn provider(&self) -> E {
        *self.embedder
    }

    /// The cache backend the engine was made with.
    pub closed spec fn store(&self) -> Ch {
        *self.cache
    }

    /// The context the engine was made with.
    pub closed spec fn shared(&self) -> C {
        *self.context
    }

    /// An engine with no commands.
    pub fn new(embedder: E, cache: Ch, context: C) -> (engine: Self)
        ensures
            engine.registry() == Seq::<Entry<X>>::empty(),
            engine.provider() == embedder,
            engine.store() == cache,
            engine.shared() == context,
    {
        SemanticCommands {
            embedder: Arc::new(embedder),
            cache: Arc::new(cache),
            context: Arc::new(context),
            entries: Vec::new(),
        }
    }

    /// Registers one command with its examples, after all earlier entries.
    pub fn add_command(&mut self, command: Command<X>, inputs: Vec<Input>) -> (engine: &mut Self)
        ensures
            engine.registry() == old(self).registry().push((inputs, command)),
            engine.provider() == old(self).provider(),
            engine.store() == old(self).store(),
            engine.shared() == old(self).shared(),
            *final(self) == *final(engine),
    {
        self.entries.push((inputs, command));
        self
    }

    /// Registers a batch of commands, in the order of the batch.
    pub fn add_commands(&mut self, commands: Vec<(Command<X>, Vec<Input>)>) -> (engine: &mut Self)
        ensures
            engine.registry() == old(self).registry() + registered(commands@),
            engine.provider() == old(self).provider(),
            engine.store() == old(self).store(),
            engine.shared() == old(self).shared(),
            *final(self) == *final(engine),
    {
        let ghost batch = commands@;
        for pair in it: commands
            invariant
                it.seq() == batch,
                self.registry() == old(self).registry() + registered(batch.take(it.index())),
                self.provider() == old(self).provider(),
                self.store() == old(self).store(),
                self.shared() == old(self).shared(),
        {
            let (command, inputs) = pair;
            self.entries.push((inputs, command));
            assert(registered(batch.take(it.index() + 1)) =~= registered(
                batch.take(it.index()),
            ).push((inputs, command)));
        }
        assert(batch.take(batch.len() as int) =~= batch);
        self
    }

    /// The provider, shared with the host.
    pub fn embedder(&self) -> (embedder: Arc<E>)
        ensures
            *embedder == self.provider(),
    {
        self.embedder.clone()
    }

    /// The cache backend, shared with the host.
    pub fn cache(&self) -> (cache: Arc<Ch>)
        ensures
            *cache == self.store(),
    {
        self.cache.clone()
    }

    /// The context, shared with the host and handed to every handler.
    pub fn context(&self) -> (context: Arc<C>)
        ensures
            *context == self.shared(),
    {
        self.context.clone()
    }

    /// The texts whose embeddings the batch fill has to resolve: one for each
    /// example without an embedding, in enumeration order.
    pub fn missing_embeddings(&self) -> (texts: Vec<String>)
        ensures
            texts@ == missing(self.registry()),
    {
        let mut texts: Vec<String> = Vec::new();
        let mut i: usize = 0;
        while i < self.entries.len()
            invariant
                i <= self.entries.len(),
                texts@ == missing(self.registry().take(i as int)),
            decreases self.entries.len() - i,
        {
            let examples = &self.entries[i].0;
            let mut j: usize = 0;
            while j < examples.len()
                invariant
                    i < self.entries.len(),
                    examples@ == self.registry()[i as int].0@,
                    j <= examples.len(),
                    texts@ == missing(self.registry().take(i as int)) + missing_in(
                        examples@.take(j as int),
                    ),
                decreases examples.len() - j,
            {
                proof {
                    lemma_missing_in_step(examples@, j as int);
                }
                if examples[j].embedding.is_none() {
                    texts.push(examples[j].text.clone());
                }
                j += 1;
            }
            proof {
                assert(examples@.take(j as int) =~= examples@);
                lemma_missing_step(self.registry(), i as int);
            }
            i += 1;
        }
        assert(self.registry().take(i as int) =~= self.registry());
        texts
    }

    /// Applies the answers of the batch fill: `results` holds, for each text of
    /// `missing_embeddings` in order, the embedding that was resolved, or
    /// `None` where the resolution failed. Each example without an embedding
    /// takes the answer to its own request; an example whose resolution
    /// failed stays without one. Surplus answers are dropped, and examples
    /// for which no answer came stay as they are.
    pub fn fill_embeddings(&mut self, results: Vec<Option<Embedding>>)
        ensures
            filled(old(self).registry(), results@, final(self).registry()),
            final(self).provider() == old(self).provider(),
            final(self).store() == old(self).store(),
            final(self).shared() == old(self).shared(),
    {
        let ghost before = self.registry();
        let ghost answers = results@;
        let mut results = results;
        let mut next: usize = 0;
        let mut i: usize = 0;
        while i < self.entries.len()
            invariant
                self.registry().len() == before.len(),
                i <= before.len(),
                forall|a: int|
                    0 <= a < i ==> filled_up_to(
                        before,
                        answers,
                        a,
                        before[a].0@.len() as int,
                        #[trigger] self.registry()[a],
                    ),
                forall|a: int| i <= a < before.len() ==> #[trigger] self.registry()[a] == before[a],
                results@.len() == answers.len(),
                forall|m: int| next <= m < answers.len() ==> #[trigger] results@[m] == answers[m],
                next == if missing(before.take(i as int)).len() < answers.len() {
                    missing(before.take(i as int)).len()
                } else {
                    answers.len()
                },
                self.provider() == old(self).provider(),
                self.store() == old(self).store(),
                self.shared() == old(self).shared(),
            decreases before.len() - i,
        {
            let mut j: usize = 0;
            assert(before[i as int].0@.take(0) =~= Seq::<Input>::empty());
            while j < self.entries[i].0.len()
                invariant
                    self.registry().len() == before.len(),
                    i < before.len(),
                    j <= before[i as int].0@.len(),
                    forall|a: int|
                        0 <= a < i ==> filled_up_to(
                            before,
                            answers,
                            a,
                            before[a].0@.len() as int,
                            #[trigger] self.registry()[a],
                        ),
                    forall|a: int|
                        i < a < before.len() ==> #[trigger] self.registry()[a] == before[a],
                    filled_up_to(before, answers, i as int, j as int, self.registry()[i as int]),
                    results@.len() == answers.len(),
                    forall|m: int|
                        next <= m < answers.len() ==> #[trigger] results@[m] == answers[m],
                    next == if missing_before(before, i as int, j as int) < answers.len() {
                        missing_before(before, i as int, j as int)
                    } else {
                        answers.len()
                    },
                    self.provider() == old(self).provider(),
                    self.store() == old(self).store(),
                    self.shared() == old(self).shared(),
                decreases before[i as int].0@.len() - j,
            {
                proof {
                    lemma_missing_in_step(before[i as int].0@, j as int);
                }
                if self.entries[i].0[j].embedding.is_none() {
                    if next < results.len() {
                        let answer = results[next].take();
                        self.entries[i].0[j].embedding = answer;
                        next += 1;
                    }
                }
                j += 1;
            }
            proof {
                assert(before[i as int].0@.take(j as int) =~= before[i as int].0@);
                lemma_missing_step(before, i as int);
            }
            i += 1;
        }
        proof {
            assert(before.take(i as int) =~= before);
            lemma_filled(before, answers, self.registry());
        }
    }

    /// Selects the match for a query from the scores of the examples:
    /// `scores[i][j]` is the similarity between the query and example `j` of
    /// entry `i`, or `None` where there is none. Only examples with an
    /// embedding and a score that is a number and reaches `threshold` are
    /// candidates. The candidate with the highest score is selected; of
    /// several tied at the highest score, the one enumerated last.
    pub fn find_similar(&self, scores: &Vec<Vec<Option<Similarity>>>, threshold: Similarity) -> (found:
        Option<(usize, usize)>)
        ensures
            match found {
                Some((i, j)) => is_best(self.registry(), scores@, threshold, i as int, j as int),
                None => forall|i: int, j: int|
                    !#[trigger] eligible(self.registry(), scores@, threshold, i, j),
            },
            selection(self.registry(), scores@, threshold) == match found {
                Some((i, j)) => Some((i as int, j as int)),
                None => None,
            },
    {
        let mut found: Option<(usize, usize)> = None;
        let mut top: i64 = 0;
        let mut i: usize = 0;
        while i < self.entries.len()
            invariant
                i <= self.entries.len(),
                scanned(self.registry(), scores@, threshold, i as int, 0, found, top),
            decreases self.entries.len() - i,
        {
            if i < scores.len() {
                let examples = &self.entries[i].0;
                let row = &scores[i];
                let mut j: usize = 0;
                while j < examples.len() && j < row.len()
                    invariant
                        i < self.entries.len(),
                        i < scores.len(),
                        examples@ == self.registry()[i as int].0@,
                        row@ == scores@[i as int]@,
                        j <= examples.len(),
                        j <= row.len(),
                        scanned(self.registry(), scores@, threshold, i as int, j as int, found, top),
                    decreases examples.len() - j,
                {
                    if examples[j].embedding.is_some() {
                        if let Some(score) = row[j] {
                            if score.at_least(&threshold) {
                                let key = score.order_key();
                                if found.is_none() || key >= top {
                                    found = Some((i, j));
                                    top = key;
                                }
                            }
                        }
                    }
                    j += 1;
                }
            }
            i += 1;
        }
        proof {
            lemma_scanned_all(self.registry(), scores@, threshold, found, top);
            match found {
                Some((i, j)) => {
                    let p = (i as int, j as int);
                    assert(is_best(self.registry(), scores@, threshold, p.0, p.1));
                    let q = choose|q: (int, int)|
                        is_best(self.registry(), scores@, threshold, q.0, q.1);
                    match_is_unique(self.registry(), scores@, threshold, p.0, p.1, q.0, q.1);
                },
                None => {},
            }
        }
        found
    }

    /// Decides the next step of the resolution of a text: the cache first,
    /// the provider on a miss, then the cache again to keep the embedding.
    /// The text is brought into normal form at the start, so that the cache
    /// and the provider only ever see normal forms.
    pub fn get_embedding(&self, at: Resolution) -> (step: ResolutionStep)
        ensures
            resolving(at, step),
    {
        match at {
            Resolution::Start { text } => {
                let key = normalize(text.as_str());
                advance(Resolution::Start { text: key })
            },
            _ => advance(at),
        }
    }

    /// Decides the next step of a dispatch.
    ///
    /// The input is brought into normal form and its embedding resolved; a
    /// failure there ends the dispatch. Then the examples without an
    /// embedding are resolved, and what was resolved is filled in; a failure
    /// there only leaves the example out. Then the examples are scored, and
    /// the dispatch ends in the handler of the match, or in no match.
    pub fn execute(&mut self, at: Dispatch) -> (step: DispatchStep)
        ensures
            final(self).provider() == old(self).provider(),
            final(self).store() == old(self).store(),
            final(self).shared() == old(self).shared(),
            decided(old(self).registry(), at, final(self).registry(), step),
            step matches DispatchStep::Invoke { entry, example } ==> {
                &&& entry < final(self).registry().len()
                &&& example < final(self).registry()[entry as int].0@.len()
            },
    {
        match at {
            Dispatch::Start { input } => DispatchStep::ResolveQuery {
                text: normalize(input.as_str()),
            },
            Dispatch::QueryResolved { outcome } => match outcome {
                Ok(query) => DispatchStep::ResolveExamples {
                    query,
                    texts: self.missing_embeddings(),
                },
                Err(failure) => DispatchStep::Fail(failure),
            },
            Dispatch::ExamplesResolved { query, results } => {
                self.fill_embeddings(results);
                DispatchStep::Score { query }
            },
            Dispatch::Scored { scores } => match self.find_similar(
                &scores,
                Similarity::default_threshold(),
            ) {
                Some((entry, example)) => DispatchStep::Invoke { entry, example },
                None => DispatchStep::Fail(Failure::NoMatch),
            },
        }
    }

    /// Takes the answer of the cache backend to its setup, which the host
    /// runs before the first dispatch where the backend asks for it. A
    /// failure of the setup is a cache failure. The engine itself has
    /// nothing to set up.
    pub fn init(&mut self, answer: Result<(), String>) -> (outcome: Result<(), Failure>)
        ensures
            outcome == match answer {
                Ok(_) => Ok::<(), Failure>(()),
                Err(reason) => Err::<(), Failure>(Failure::Cache(reason)),
            },
            *final(self) == *old(self),
    {
        match answer {
            Ok(_) => Ok(()),
            Err(reason) => Err(Failure::Cache(reason)),
        }
    }

    /// The registered entries.
    pub fn entries(&self) -> (entries: &Vec<Entry<X>>)
        ensures
            entries@ == self.registry(),
    {
        &self.entries
    }
}

} // verus!
