//! Description of identified resources, batch by batch.
//!
//! The describe call takes at most [`BATCH_LIMIT`] identifiers. A
//! [`Describer`] cuts a list of identifiers into consecutive batches, decides
//! which batch to ask for next and merges what comes back; the caller makes
//! the calls and hands each response back.

use crate::records::texts;
use vstd::prelude::*;

verus! {

/// The most identifiers that one describe call accepts.
pub const BATCH_LIMIT: usize = 10;

/// A resource that a describe call named and could not resolve.
#[derive(Debug)]
pub struct Failure {
    /// The identifier of the resource.
    pub arn: Option<String>,
    pub reason: Option<String>,
    pub detail: Option<String>,
}

/// What one describe call returned: the records it resolved and the
/// resources it named as failed.
#[derive(Debug)]
pub struct DescribeResponse<R> {
    pub records: Vec<R>,
    pub failures: Vec<Failure>,
}

/// What a [`DescribeResponse`] holds, as mathematical values.
pub struct ResponseView<R> {
    pub records: Seq<R>,
    pub failures: Seq<Failure>,
}

impl<R> View for DescribeResponse<R> {
    type V = ResponseView<R>;

    open spec fn view(&self) -> ResponseView<R> {
        ResponseView { records: self.records@, failures: self.failures@ }
    }
}

/// The outcome of a description: the records of every batch, in batch order,
/// and beside them the resources that the calls named as failed.
#[derive(Debug)]
pub struct Described<R> {
    pub records: Vec<R>,
    pub failures: Vec<Failure>,
}

impl<R> View for Described<R> {
    type V = ResponseView<R>;

    open spec fn view(&self) -> ResponseView<R> {
        ResponseView { records: self.records@, failures: self.failures@ }
    }
}

/// A description that still has a batch to ask for.
#[derive(Debug)]
pub struct Describer<R> {
    identifiers: Vec<String>,
    asked: usize,
    records: Vec<R>,
    failures: Vec<Failure>,
}

/// What a [`Describer`] holds: all the identifiers, how many of them earlier
/// calls have carried, and what those calls returned.
pub struct DescriberView<R> {
    pub identifiers: Seq<Seq<char>>,
    pub asked: nat,
    pub records: Seq<R>,
    pub failures: Seq<Failure>,
}

impl<R> View for Describer<R> {
    type V = DescriberView<R>;

    closed spec fn view(&self) -> DescriberView<R> {
        DescriberView {
            identifiers: texts(self.identifiers@),
            asked: self.asked as nat,
            records: self.records@,
            failures: self.failures@,
        }
    }
}

/// Where a description stands after a batch.
#[derive(Debug)]
pub enum DescribeStep<R> {
    /// Another batch is to be asked for.
    Continue(Describer<R>),
    /// Every batch has been answered.
    Finished(Described<R>),
}

/// What a [`DescribeStep`] holds, as mathematical values.
pub enum DescribeStepView<R> {
    Continue(DescriberView<R>),
    Finished(ResponseView<R>),
}

impl<R> View for DescribeStep<R> {
    type V = DescribeStepView<R>;

    open spec fn view(&self) -> DescribeStepView<R> {
        match self {
            DescribeStep::Continue(describer) => DescribeStepView::Continue(describer@),
            DescribeStep::Finished(described) => DescribeStepView::Finished(described@),
        }
    }
}

/// The number of calls that `count` identifiers take: `count / 10`, rounded
/// up.
pub open spec fn batch_count(count: nat) -> nat {
    (count + 9) / 10
}

/// The end of the batch that starts at `from`, among `count` identifiers.
pub open spec fn batch_end(from: int, count: int) -> int {
    if from + 10 <= count {
        from + 10
    } else {
        count
    }
}

/// The identifiers that call `k` carries: the `k`-th run of ten, or what is
/// left of the list for the last call.
pub open spec fn batch_of(identifiers: Seq<Seq<char>>, k: int) -> Seq<Seq<char>> {
    identifiers.subrange(10 * k, batch_end(10 * k, identifiers.len() as int))
}

/// The identifiers that the next call carries.
pub open spec fn next_batch<R>(state: DescriberView<R>) -> Seq<Seq<char>> {
    state.identifiers.subrange(
        state.asked as int,
        batch_end(state.asked as int, state.identifiers.len() as int),
    )
}

/// The description of `identifiers` before its first call. Without
/// identifiers there is no call to make.
pub open spec fn begin_with<R>(identifiers: Seq<Seq<char>>) -> DescribeStepView<R> {
    if identifiers.len() == 0 {
        DescribeStepView::Finished(
            ResponseView { records: Seq::empty(), failures: Seq::empty() },
        )
    } else {
        DescribeStepView::Continue(
            DescriberView {
                identifiers,
                asked: 0,
                records: Seq::empty(),
                failures: Seq::empty(),
            },
        )
    }
}

/// The description after `response` has answered the batch that `state`
/// asked for: its records follow those of the batches before, its named
/// failures are set aside, and the description goes on while identifiers are
/// left.
pub open spec fn accept_batch<R>(state: DescriberView<R>, response: ResponseView<R>)
    -> DescribeStepView<R> {
    let asked = batch_end(state.asked as int, state.identifiers.len() as int);
    let records = state.records + response.records;
    let failures = state.failures + response.failures;
    if asked < state.identifiers.len() {
        DescribeStepView::Continue(
            DescriberView {
                identifiers: state.identifiers,
                asked: asked as nat,
                records,
                failures,
            },
        )
    } else {
        DescribeStepView::Finished(ResponseView { records, failures })
    }
}

/// Where the description of `identifiers` stands after the responses to its
/// first calls. Once it has finished or failed, later responses are never
/// asked for and change nothing.
pub open spec fn describing<R, E>(
    identifiers: Seq<Seq<char>>,
    responses: Seq<Result<ResponseView<R>, E>>,
) -> Result<DescribeStepView<R>, E>
    decreases responses.len(),
{
    if responses.len() == 0 {
        Ok(begin_with(identifiers))
    } else {
        match describing(identifiers, responses.drop_last()) {
            Ok(DescribeStepView::Continue(state)) => match responses.last() {
                Ok(response) => Ok(accept_batch(state, response)),
                Err(error) => Err(error),
            },
            ended => ended,
        }
    }
}

impl<R> Describer<R> {
    #[verifier::type_invariant]
    spec fn well_formed(self) -> bool {
        self.asked < self.identifiers@.len()
    }

    /// Starts the description of `identifiers`. With no identifier it is
    /// finished at once, with no record.
    pub fn begin(identifiers: Vec<String>) -> (step: DescribeStep<R>)
        ensures
            step@ == begin_with::<R>(texts(identifiers@)),
    {
        if identifiers.len() == 0 {
            DescribeStep::Finished(Described { records: Vec::new(), failures: Vec::new() })
        } else {
            DescribeStep::Continue(
                Describer { identifiers, asked: 0, records: Vec::new(), failures: Vec::new() },
            )
        }
    }

    /// The identifiers that the next call carries: at least one and at most
    /// ten, in the order of the list.
    pub fn batch(&self) -> (batch: Vec<String>)
        ensures
            texts(batch@) == next_batch(self@),
            1 <= batch@.len() <= BATCH_LIMIT,
    {
        proof {
            use_type_invariant(self);
        }
        let count = self.identifiers.len();
        let end = if count - self.asked > BATCH_LIMIT {
            self.asked + BATCH_LIMIT
        } else {
            count
        };
        let mut batch: Vec<String> = Vec::new();
        let mut i = self.asked;
        while i < end
            invariant
                self.asked <= i <= end <= self.identifiers@.len(),
                batch@ == self.identifiers@.subrange(self.asked as int, i as int),
            decreases end - i,
        {
            batch.push(self.identifiers[i].clone());
            assert(batch@ =~= self.identifiers@.subrange(self.asked as int, i + 1));
            i += 1;
        }
        assert(texts(batch@) =~= next_batch(self@));
        batch
    }

    /// Takes the response to the batch that was last asked for. What a call
    /// resolved is appended to the records of the batches before; what it
    /// named as failed is set aside and fails nothing. A failed call fails
    /// the description with the call's own error, and no record of an earlier
    /// batch is kept.
    pub fn accept<E>(self, response: Result<DescribeResponse<R>, E>) -> (step: Result<
        DescribeStep<R>,
        E,
    >)
        ensures
            match response {
                Ok(answer) => step matches Ok(next) && next@ == accept_batch(self@, answer@),
                Err(error) => step == Err::<DescribeStep<R>, E>(error),
            },
    {
        proof {
            use_type_invariant(&self);
        }
        match response {
            Ok(answer) => {
                let Describer { identifiers, asked, records, failures } = self;
                let DescribeResponse { records: new_records, failures: new_failures } = answer;
                let mut records = records;
                let mut failures = failures;
                let mut new_records = new_records;
                let mut new_failures = new_failures;
                records.append(&mut new_records);
                failures.append(&mut new_failures);
                let count = identifiers.len();
                let asked = if count - asked > BATCH_LIMIT {
                    asked + BATCH_LIMIT
                } else {
                    count
                };
                if asked < count {
                    Ok(DescribeStep::Continue(Describer { identifiers, asked, records, failures }))
                } else {
                    Ok(DescribeStep::Finished(Described { records, failures }))
                }
            },
            Err(error) => Err(error),
        }
    }
}

/// The records of a run of answers, answer after answer.
pub open spec fn records_of<R>(answers: Seq<ResponseView<R>>) -> Seq<R> {
    answers.flat_map(|a: ResponseView<R>| a.records)
}

/// The named failures of a run of answers, answer after answer.
pub open spec fn failures_of<R>(answers: Seq<ResponseView<R>>) -> Seq<Failure> {
    answers.flat_map(|a: ResponseView<R>| a.failures)
}

/// A run of answers as the responses of calls that all succeeded.
pub open spec fn answered<R, E>(answers: Seq<ResponseView<R>>) -> Seq<
    Result<ResponseView<R>, E>,
> {
    answers.map_values(|a: ResponseView<R>| Ok::<ResponseView<R>, E>(a))
}

/// The batches of a list of identifiers, in the order of the calls.
pub open spec fn batches(identifiers: Seq<Seq<char>>) -> Seq<Seq<Seq<char>>> {
    Seq::new(batch_count(identifiers.len()), |k: int| batch_of(identifiers, k))
}

/// The batches cut the list in its own order: each holds at least one and at
/// most ten identifiers, each but the last holds ten, and one after the other
/// they give the list back.
pub proof fn lemma_batches_partition(identifiers: Seq<Seq<char>>)
    ensures
        batches(identifiers).len() == batch_count(identifiers.len()),
        forall|k: int|
            0 <= k < batch_count(identifiers.len()) ==> 1 <= (#[trigger] batches(
                identifiers,
            )[k]).len() <= 10,
        forall|k: int|
            0 <= k < batch_count(identifiers.len()) - 1 ==> (#[trigger] batches(
                identifiers,
            )[k]).len() == 10,
        batches(identifiers).flatten() == identifiers,
{
    let count = batch_count(identifiers.len());
    lemma_batches_prefix(identifiers, count as int);
    assert(batches(identifiers).take(count as int) == batches(identifiers));
    assert(identifiers.subrange(0, identifiers.len() as int) == identifiers);
}

/// The first `n` batches, one after the other, are the identifiers that
/// stand before batch `n`.
proof fn lemma_batches_prefix(identifiers: Seq<Seq<char>>, n: int)
    requires
        0 <= n <= batch_count(identifiers.len()),
    ensures
        batches(identifiers).take(n).flatten() == identifiers.subrange(
            0,
            if 10 * n <= identifiers.len() {
                10 * n
            } else {
                identifiers.len() as int
            },
        ),
    decreases n,
{
    let all = batches(identifiers);
    if n == 0 {
        assert(all.take(0) =~= Seq::<Seq<Seq<char>>>::empty());
        assert(identifiers.subrange(0, 0) =~= Seq::<Seq<char>>::empty());
    } else {
        lemma_batches_prefix(identifiers, n - 1);
        assert(all.take(n) =~= all.take(n - 1).push(all[n - 1]));
        all.take(n - 1).lemma_flatten_push(all[n - 1]);
        let end = if 10 * n <= identifiers.len() {
            10 * n
        } else {
            identifiers.len() as int
        };
        assert(identifiers.subrange(0, 10 * (n - 1)) + batch_of(identifiers, n - 1)
            =~= identifiers.subrange(0, end));
    }
}

/// Over the description of `identifiers`, a call is made for each batch and
/// for no other, `batch_count` calls in all: before answer `k` arrives the
/// description asks for batch `k` and holds the records of the answers
/// before it, in batch order; when the last answer has arrived it finishes
/// with the records of all the answers, in batch order. What the answers
/// named as failed is set aside and fails nothing.
pub proof fn lemma_describing_follows_batches<R, E>(
    identifiers: Seq<Seq<char>>,
    answers: Seq<ResponseView<R>>,
    k: int,
)
    requires
        answers.len() == batch_count(identifiers.len()),
        0 <= k <= answers.len(),
    ensures
        k < answers.len() ==> (describing(identifiers, answered::<R, E>(answers.take(k)))
            matches Ok(DescribeStepView::Continue(state)) && state.identifiers == identifiers
            && state.records == records_of(answers.take(k)) && state.failures == failures_of(
            answers.take(k),
        ) && next_batch(state) == batch_of(identifiers, k)),
        k == answers.len() ==> describing(identifiers, answered::<R, E>(answers)) == Ok::<
            DescribeStepView<R>,
            E,
        >(
            DescribeStepView::Finished(
                ResponseView { records: records_of(answers), failures: failures_of(answers) },
            ),
        ),
    decreases k,
{
    lemma_describing_state::<R, E>(identifiers, answers, k);
    if k == answers.len() {
        assert(answers.take(k) == answers);
    }
}

/// Where the description stands after its first `k` answers.
proof fn lemma_describing_state<R, E>(
    identifiers: Seq<Seq<char>>,
    answers: Seq<ResponseView<R>>,
    k: int,
)
    requires
        answers.len() == batch_count(identifiers.len()),
        0 <= k <= answers.len(),
    ensures
        describing(identifiers, answered::<R, E>(answers.take(k))) == Ok::<DescribeStepView<R>, E>(
            if k < answers.len() {
                DescribeStepView::Continue(
                    DescriberView {
                        identifiers,
                        asked: (10 * k) as nat,
                        records: records_of(answers.take(k)),
                        failures: failures_of(answers.take(k)),
                    },
                )
            } else {
                DescribeStepView::Finished(
                    ResponseView {
                        records: records_of(answers.take(k)),
                        failures: failures_of(answers.take(k)),
                    },
                )
            },
        ),
    decreases k,
{
    let records = |a: ResponseView<R>| a.records;
    let failures = |a: ResponseView<R>| a.failures;
    if k == 0 {
        assert(answered::<R, E>(answers.take(0)) =~= Seq::<Result<ResponseView<R>, E>>::empty());
        assert(records_of(answers.take(0)) =~= Seq::<R>::empty());
        assert(failures_of(answers.take(0)) =~= Seq::<Failure>::empty());
    } else {
        lemma_describing_state::<R, E>(identifiers, answers, k - 1);
        let before = answers.take(k - 1);
        let now = answers.take(k);
        assert(answered::<R, E>(now).drop_last() =~= answered::<R, E>(before));
        assert(answered::<R, E>(now).last() == Ok::<ResponseView<R>, E>(answers[k - 1]));
        answers.lemma_flat_map_take_append(records, k - 1);
        answers.lemma_flat_map_take_append(failures, k - 1);
        assert(records_of(now) == records_of(before) + answers[k - 1].records);
        assert(failures_of(now) == failures_of(before) + answers[k - 1].failures);
    }
}

/// The first call that fails ends the description with that call's error:
/// no record of the batches answered before it is part of the outcome.
pub proof fn lemma_describing_fails_with_first_error<R, E>(
    identifiers: Seq<Seq<char>>,
    responses: Seq<Result<ResponseView<R>, E>>,
    k: int,
    error: E,
)
    requires
        0 <= k < responses.len(),
        k < batch_count(identifiers.len()),
        responses[k] == Err::<ResponseView<R>, E>(error),
        forall|i: int| 0 <= i < k ==> (#[trigger] responses[i]) is Ok,
    ensures
        describing(identifiers, responses) == Err::<DescribeStepView<R>, E>(error),
    decreases responses.len(),
{
    lemma_describing_goes_on(identifiers, responses.take(k), k);
    if responses.len() == k + 1 {
        assert(responses.drop_last() == responses.take(k));
    } else {
        lemma_describing_fails_with_first_error(identifiers, responses.drop_last(), k, error);
    }
}

/// While calls succeed and batches are left, the description goes on.
proof fn lemma_describing_goes_on<R, E>(
    identifiers: Seq<Seq<char>>,
    responses: Seq<Result<ResponseView<R>, E>>,
    k: int,
)
    requires
        k == responses.len(),
        k < batch_count(identifiers.len()),
        forall|i: int| 0 <= i < k ==> (#[trigger] responses[i]) is Ok,
    ensures
        describing(identifiers, responses) matches Ok(DescribeStepView::Continue(state))
            && state.identifiers == identifiers && state.asked == 10 * k,
    decreases k,
{
    if k > 0 {
        lemma_describing_goes_on(identifiers, responses.drop_last(), k - 1);
        assert(responses.last() == responses[k - 1]);
    }
}

} // verus!
