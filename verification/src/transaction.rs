//! Work that is done in a transaction: all of it, or none.
//!
//! A transaction is run by turns. `InTransaction` says what to ask the database next; whoever
//! holds the connection asks it, and hands the reply to `resume`.
use crate::schema::{migrate, migrations};
use crate::sql::{
    operations_view, Operation, OperationView, Param, ParamView, Statement, StatementView,
};
use crate::time::Timestamp;
use vstd::prelude::*;

verus! {

/// What a transaction asks for.
#[derive(Debug)]
pub enum Request {
    Begin,
    ReadClock,
    Execute(Statement),
    Insert(Statement),
    SetSchemaVersion(u64),
    ReadSchemaVersion,
    Commit,
    Rollback,
}

/// What a request holds.
pub enum RequestView {
    Begin,
    ReadClock,
    Execute(StatementView),
    Insert(StatementView),
    SetSchemaVersion(u64),
    ReadSchemaVersion,
    Commit,
    Rollback,
}

impl View for Request {
    type V = RequestView;

    open spec fn view(&self) -> RequestView {
        match self {
            Request::Begin => RequestView::Begin,
            Request::ReadClock => RequestView::ReadClock,
            Request::Execute(s) => RequestView::Execute(s@),
            Request::Insert(s) => RequestView::Insert(s@),
            Request::SetSchemaVersion(v) => RequestView::SetSchemaVersion(*v),
            Request::ReadSchemaVersion => RequestView::ReadSchemaVersion,
            Request::Commit => RequestView::Commit,
            Request::Rollback => RequestView::Rollback,
        }
    }
}

/// What came of a request.
#[derive(Debug)]
pub enum Reply<E> {
    /// It was done.
    Done,
    /// The reading of the clock.
    Time(Timestamp),
    /// The identifier of the row that was inserted.
    Id(i64),
    /// The version of the schema.
    Version(u64),
    /// It failed.
    Failed(E),
}

/// A part of a transaction.
#[derive(Clone, Copy, Debug, PartialEq, Eq, Structural)]
pub enum Part {
    Begin,
    /// The operation at this place.
    Operation(usize),
    Commit,
}

/// What a transaction failed of.
#[derive(Debug)]
pub struct Failure<E> {
    /// The part that failed.
    pub part: Part,
    pub error: E,
}

/// How far a transaction has come.
#[derive(Debug)]
pub enum Stage<E> {
    /// It was asked to begin.
    Beginning,
    /// The next of its operations was asked for.
    Working,
    /// It was asked to commit.
    Committing,
    /// It was asked to roll back, because of a failure.
    RollingBack(Failure<E>),
}

/// A transaction under way.
#[derive(Debug)]
pub struct InTransaction<E> {
    operations: Vec<Operation>,
    next: usize,
    clock: Option<Timestamp>,
    new_id: Option<i64>,
    stage: Stage<E>,
}

/// What a transaction under way holds.
#[verifier::ext_equal]
pub struct InTransactionView<E> {
    pub operations: Seq<OperationView>,
    /// The place of the operation that is done next.
    pub next: int,
    /// The last reading of the clock.
    pub clock: Option<Timestamp>,
    /// The identifier of the row that was last inserted.
    pub new_id: Option<i64>,
    pub stage: Stage<E>,
}

impl<E> View for InTransaction<E> {
    type V = InTransactionView<E>;

    closed spec fn view(&self) -> InTransactionView<E> {
        InTransactionView {
            operations: operations_view(self.operations@),
            next: self.next as int,
            clock: self.clock,
            new_id: self.new_id,
            stage: self.stage,
        }
    }
}

/// Where a transaction stands after a turn.
#[derive(Debug)]
pub enum Progress<E> {
    /// It goes on with a request.
    Continue(InTransaction<E>, Request),
    /// It is over. Where its work was committed, the identifier of the row that it inserted
    /// last, if it inserted any.
    Finished(Result<Option<i64>, Failure<E>>),
}

/// What the end of a turn holds.
pub enum ProgressView<E> {
    Continue(InTransactionView<E>, RequestView),
    Finished(Result<Option<i64>, Failure<E>>),
}

impl<E> View for Progress<E> {
    type V = ProgressView<E>;

    open spec fn view(&self) -> ProgressView<E> {
        match self {
            Progress::Continue(t, r) => ProgressView::Continue(t@, r@),
            Progress::Finished(r) => ProgressView::Finished(*r),
        }
    }
}

/// A bound value, with the reading of the clock and the identifier put in where it calls for
/// them. Before there is one to put in, NULL is.
pub open spec fn resolved_param(
    param: ParamView,
    clock: Option<Timestamp>,
    new_id: Option<i64>,
) -> ParamView {
    match param {
        ParamView::Clock => match clock {
            Some(t) => ParamView::Time(t),
            None => ParamView::Null,
        },
        ParamView::NewId => match new_id {
            Some(i) => ParamView::Integer(i),
            None => ParamView::Null,
        },
        _ => param,
    }
}

/// A statement, with its bound values resolved.
pub open spec fn resolved(
    statement: StatementView,
    clock: Option<Timestamp>,
    new_id: Option<i64>,
) -> StatementView {
    StatementView {
        sql: statement.sql,
        params: statement.params.map_values(|p: ParamView| resolved_param(p, clock, new_id)),
    }
}

/// The request that an operation makes.
pub open spec fn request_for(
    operation: OperationView,
    clock: Option<Timestamp>,
    new_id: Option<i64>,
) -> RequestView {
    match operation {
        OperationView::ReadClock => RequestView::ReadClock,
        OperationView::Execute(s) => RequestView::Execute(resolved(s, clock, new_id)),
        OperationView::Insert(s) => RequestView::Insert(resolved(s, clock, new_id)),
        OperationView::SetSchemaVersion(v) => RequestView::SetSchemaVersion(v),
        OperationView::Migrate => RequestView::ReadSchemaVersion,
    }
}

/// The last reading of the clock, after an operation was replied to.
pub open spec fn clock_after<E>(
    operation: OperationView,
    reply: Reply<E>,
    clock: Option<Timestamp>,
) -> Option<Timestamp> {
    match (operation, reply) {
        (OperationView::ReadClock, Reply::Time(t)) => Some(t),
        _ => clock,
    }
}

/// The identifier of the row inserted last, after an operation was replied to.
pub open spec fn new_id_after<E>(
    operation: OperationView,
    reply: Reply<E>,
    new_id: Option<i64>,
) -> Option<i64> {
    match (operation, reply) {
        (OperationView::Insert(_), Reply::Id(i)) => Some(i),
        _ => new_id,
    }
}

/// The operations that an operation brings with it, once it was replied to: for a migration,
/// those that the version of the schema calls for.
pub open spec fn brought_by<E>(operation: OperationView, reply: Reply<E>) -> Seq<OperationView> {
    match (operation, reply) {
        (OperationView::Migrate, Reply::Version(v)) => migrations(v),
        _ => Seq::empty(),
    }
}

impl<E> InTransactionView<E> {
    /// A transaction over some operations, none of them done yet.
    pub open spec fn new(operations: Seq<OperationView>) -> InTransactionView<E> {
        InTransactionView {
            operations,
            next: 0,
            clock: None,
            new_id: None,
            stage: Stage::Beginning,
        }
    }

    /// While operations are being done, there is a next one.
    pub open spec fn wf(self) -> bool {
        &&& 0 <= self.next <= self.operations.len()
        &&& self.stage is Working ==> self.next < self.operations.len()
    }

    /// The same transaction, with the operation that was asked for done.
    pub open spec fn after(self, reply: Reply<E>) -> InTransactionView<E> {
        let operation = self.operations[self.next];
        InTransactionView {
            operations: self.operations.take(self.next + 1) + brought_by(operation, reply)
                + self.operations.skip(self.next + 1),
            next: self.next + 1,
            clock: clock_after(operation, reply, self.clock),
            new_id: new_id_after(operation, reply, self.new_id),
            stage: self.stage,
        }
    }

    /// The next operation is asked for, or the commit where none is left.
    pub open spec fn proceed(self) -> ProgressView<E> {
        if self.next < self.operations.len() {
            ProgressView::Continue(
                InTransactionView { stage: Stage::Working, ..self },
                request_for(self.operations[self.next], self.clock, self.new_id),
            )
        } else {
            ProgressView::Continue(
                InTransactionView { stage: Stage::Committing, ..self },
                RequestView::Commit,
            )
        }
    }

    /// The failure of a part of this transaction.
    pub open spec fn failure(self, error: E) -> Failure<E> {
        let part = match self.stage {
            Stage::Beginning => Part::Begin,
            Stage::Working => Part::Operation(self.next as usize),
            _ => Part::Commit,
        };
        Failure { part, error }
    }

    /// A rollback is asked for, because of a failure.
    pub open spec fn undo(self, error: E) -> ProgressView<E> {
        ProgressView::Continue(
            InTransactionView { stage: Stage::RollingBack(self.failure(error)), ..self },
            RequestView::Rollback,
        )
    }

    /// The turn that a reply makes.
    pub open spec fn resumed(self, reply: Reply<E>) -> ProgressView<E> {
        match self.stage {
            Stage::Beginning => match reply {
                Reply::Failed(e) => ProgressView::Finished(Err(self.failure(e))),
                _ => self.proceed(),
            },
            Stage::Working => match reply {
                Reply::Failed(e) => self.undo(e),
                _ => self.after(reply).proceed(),
            },
            Stage::Committing => match reply {
                Reply::Failed(e) => self.undo(e),
                _ => ProgressView::Finished(Ok(self.new_id)),
            },
            Stage::RollingBack(failure) => ProgressView::Finished(Err(failure)),
        }
    }
}

fn resolve_param(param: &Param, clock: Option<Timestamp>, new_id: Option<i64>) -> (r: Param)
    ensures
        r@ == resolved_param(param@, clock, new_id),
{
    match param {
        Param::Null => Param::Null,
        Param::Integer(i) => Param::Integer(*i),
        Param::Text(s) => Param::Text(s.clone()),
        Param::Time(t) => Param::Time(*t),
        Param::Clock => match clock {
            Some(t) => Param::Time(t),
            None => Param::Null,
        },
        Param::NewId => match new_id {
            Some(i) => Param::Integer(i),
            None => Param::Null,
        },
    }
}

fn resolve(statement: &Statement, clock: Option<Timestamp>, new_id: Option<i64>) -> (r: Statement)
    ensures
        r@ == resolved(statement@, clock, new_id),
{
    let mut params: Vec<Param> = Vec::new();
    for i in 0..statement.params.len()
        invariant
            params.len() == i,
            forall|j: int|
                0 <= j < i ==> (#[trigger] params[j])@ == resolved_param(
                    statement.params[j]@,
                    clock,
                    new_id,
                ),
    {
        params.push(resolve_param(&statement.params[i], clock, new_id));
    }
    let r = Statement { sql: statement.sql.clone(), params };
    proof {
        assert(r@.params =~= resolved(statement@, clock, new_id).params);
    }
    r
}

/// Begins a transaction over some operations: they are done in order, and committed where all
/// of them succeed, and otherwise rolled back.
pub fn in_transaction<E>(operations: Vec<Operation>) -> (r: (InTransaction<E>, Request))
    ensures
        r.0@ == InTransactionView::<E>::new(operations_view(operations@)),
        r.1@ == RequestView::Begin,
{
    (
        InTransaction { operations, next: 0, clock: None, new_id: None, stage: Stage::Beginning },
        Request::Begin,
    )
}

impl<E> InTransaction<E> {
    #[verifier::type_invariant]
    closed spec fn wf(&self) -> bool {
        &&& self.next <= self.operations.len()
        &&& self.stage is Working ==> self.next < self.operations.len()
    }

    fn proceed(self) -> (r: Progress<E>)
        ensures
            r@ == self@.proceed(),
    {
        proof {
            use_type_invariant(&self);
        }
        let InTransaction { operations, next, clock, new_id, stage } = self;
        if next < operations.len() {
            let request = match &operations[next] {
                Operation::ReadClock => Request::ReadClock,
                Operation::Execute(s) => Request::Execute(resolve(s, clock, new_id)),
                Operation::Insert(s) => Request::Insert(resolve(s, clock, new_id)),
                Operation::SetSchemaVersion(v) => Request::SetSchemaVersion(*v),
                Operation::Migrate => Request::ReadSchemaVersion,
            };
            Progress::Continue(
                InTransaction { operations, next, clock, new_id, stage: Stage::Working },
                request,
            )
        } else {
            Progress::Continue(
                InTransaction { operations, next, clock, new_id, stage: Stage::Committing },
                Request::Commit,
            )
        }
    }

    fn undo(self, part: Part, error: E) -> (r: Progress<E>)
        requires
            part == self@.failure(error).part,
        ensures
            r@ == self@.undo(error),
    {
        proof {
            use_type_invariant(&self);
        }
        let InTransaction { operations, next, clock, new_id, stage } = self;
        let stage = Stage::RollingBack(Failure { part, error });
        Progress::Continue(
            InTransaction { operations, next, clock, new_id, stage },
            Request::Rollback,
        )
    }

    fn after(self, reply: Reply<E>) -> (r: InTransaction<E>)
        requires
            self@.stage is Working,
        ensures
            r@ == (InTransactionView { stage: Stage::Beginning, ..self@.after(reply) }),
    {
        proof {
            use_type_invariant(&self);
        }
        let ghost before = self@;
        let InTransaction { mut operations, next, mut clock, mut new_id, stage } = self;
        let mut tail = operations.split_off(next + 1);
        match reply {
            Reply::Time(t) => {
                if let Operation::ReadClock = &operations[next] {
                    clock = Some(t);
                }
            },
            Reply::Id(i) => {
                if let Operation::Insert(_) = &operations[next] {
                    new_id = Some(i);
                }
            },
            Reply::Version(v) => {
                if let Operation::Migrate = &operations[next] {
                    let mut brought = migrate(v);
                    operations.append(&mut brought);
                }
            },
            _ => {},
        }
        operations.append(&mut tail);
        let r = InTransaction { operations, next: next + 1, clock, new_id, stage: Stage::Beginning };
        proof {
            assert(r@.operations =~= before.after(reply).operations);
        }
        r
    }

    /// Hands the transaction the reply to its request.
    pub fn resume(self, reply: Reply<E>) -> (r: Progress<E>)
        ensures
            r@ == self@.resumed(reply),
    {
        match self.stage {
            Stage::Beginning => match reply {
                Reply::Failed(e) => Progress::Finished(
                    Err(Failure { part: Part::Begin, error: e }),
                ),
                _ => self.proceed(),
            },
            Stage::Working => match reply {
                Reply::Failed(e) => {
                    let part = Part::Operation(self.next);
                    self.undo(part, e)
                },
                _ => self.after(reply).proceed(),
            },
            Stage::Committing => match reply {
                Reply::Failed(e) => self.undo(Part::Commit, e),
                _ => Progress::Finished(Ok(self.new_id)),
            },
            Stage::RollingBack(failure) => Progress::Finished(Err(failure)),
        }
    }
}

/// The requests that a transaction makes from a turn on, as its replies come in.
pub open spec fn asked<E>(progress: ProgressView<E>, replies: Seq<Reply<E>>) -> Seq<RequestView>
    decreases replies.len(),
{
    match progress {
        ProgressView::Finished(_) => Seq::empty(),
        ProgressView::Continue(t, request) => if replies.len() == 0 {
            seq![request]
        } else {
            seq![request] + asked(t.resumed(replies[0]), replies.skip(1))
        },
    }
}

/// What a transaction comes to from a turn on, if the replies are enough for it to end.
pub open spec fn outcome<E>(progress: ProgressView<E>, replies: Seq<Reply<E>>) -> Option<
    Result<Option<i64>, Failure<E>>,
>
    decreases replies.len(),
{
    match progress {
        ProgressView::Finished(r) => Some(r),
        ProgressView::Continue(t, _) => if replies.len() == 0 {
            None
        } else {
            outcome(t.resumed(replies[0]), replies.skip(1))
        },
    }
}

/// A transaction that was just begun.
pub open spec fn begun<E>(operations: Seq<OperationView>) -> ProgressView<E> {
    ProgressView::Continue(InTransactionView::new(operations), RequestView::Begin)
}

/// The requests of some operations, each replied to in turn.
pub open spec fn requests_of<E>(
    operations: Seq<OperationView>,
    replies: Seq<Reply<E>>,
    clock: Option<Timestamp>,
    new_id: Option<i64>,
) -> Seq<RequestView>
    decreases operations.len(),
{
    if operations.len() == 0 {
        Seq::empty()
    } else {
        seq![request_for(operations[0], clock, new_id)] + requests_of(
            operations.skip(1),
            replies.skip(1),
            clock_after(operations[0], replies[0], clock),
            new_id_after(operations[0], replies[0], new_id),
        )
    }
}

/// The identifier of the row inserted last, after some operations were replied to.
pub open spec fn last_id<E>(
    operations: Seq<OperationView>,
    replies: Seq<Reply<E>>,
    new_id: Option<i64>,
) -> Option<i64>
    decreases operations.len(),
{
    if operations.len() == 0 {
        new_id
    } else {
        last_id(
            operations.skip(1),
            replies.skip(1),
            new_id_after(operations[0], replies[0], new_id),
        )
    }
}

/// Whether no reply tells of a failure.
pub open spec fn none_failed<E>(replies: Seq<Reply<E>>) -> bool {
    forall|i: int| 0 <= i < replies.len() ==> !(#[trigger] replies[i] is Failed)
}

proof fn lemma_none_failed_later<E>(replies: Seq<Reply<E>>)
    requires
        replies.len() > 0,
        none_failed(replies),
    ensures
        none_failed(replies.skip(1)),
{
    let later = replies.skip(1);
    assert forall|i: int| 0 <= i < later.len() implies !(#[trigger] later[i] is Failed) by {
        assert(later[i] == replies[i + 1]);
    }
}

/// Whether none of the operations brings others with it.
pub open spec fn is_fixed(operations: Seq<OperationView>) -> bool {
    forall|i: int| 0 <= i < operations.len() ==> !(#[trigger] operations[i] is Migrate)
}

proof fn lemma_fixed_goes_on<E>(t: InTransactionView<E>, reply: Reply<E>)
    requires
        0 <= t.next < t.operations.len(),
        is_fixed(t.operations.skip(t.next)),
    ensures
        ({
            let u = InTransactionView { stage: Stage::Working, ..t }.after(reply);
            &&& u.operations == t.operations
            &&& u.operations.skip(u.next) == t.operations.skip(t.next).skip(1)
            &&& is_fixed(u.operations.skip(u.next))
        }),
{
    let u = InTransactionView { stage: Stage::Working, ..t }.after(reply);
    let rest = t.operations.skip(t.next);
    assert(rest[0] == t.operations[t.next]);
    assert(!(rest[0] is Migrate));
    assert(u.operations =~= t.operations);
    assert(u.operations.skip(u.next) =~= rest.skip(1));
    assert forall|i: int| 0 <= i < rest.skip(1).len() implies !(#[trigger] rest.skip(
        1,
    )[i] is Migrate) by {
        assert(rest.skip(1)[i] == rest[i + 1]);
    }
}

proof fn lemma_work_is_done<E>(t: InTransactionView<E>, replies: Seq<Reply<E>>)
    requires
        0 <= t.next <= t.operations.len(),
        is_fixed(t.operations.skip(t.next)),
        replies.len() == t.operations.len() - t.next + 1,
        none_failed(replies),
    ensures
        asked(t.proceed(), replies) == requests_of(
            t.operations.skip(t.next),
            replies,
            t.clock,
            t.new_id,
        ) + seq![RequestView::Commit],
        outcome(t.proceed(), replies) == Some(
            Ok::<Option<i64>, Failure<E>>(last_id(t.operations.skip(t.next), replies, t.new_id)),
        ),
    decreases t.operations.len() - t.next,
{
    assert(!(replies[0] is Failed));
    let rest = t.operations.skip(t.next);
    if t.next < t.operations.len() {
        let u = InTransactionView { stage: Stage::Working, ..t }.after(replies[0]);
        lemma_fixed_goes_on(t, replies[0]);
        assert(u.operations.skip(u.next) =~= rest.skip(1));
        lemma_none_failed_later(replies);
        lemma_work_is_done(u, replies.skip(1));
        assert(rest[0] == t.operations[t.next]);
        assert(asked(t.proceed(), replies) =~= requests_of(rest, replies, t.clock, t.new_id)
            + seq![RequestView::Commit]);
    } else {
        assert(rest =~= Seq::empty());
        let committing = InTransactionView { stage: Stage::Committing, ..t };
        assert(committing.resumed(replies[0]) == ProgressView::<E>::Finished(Ok(t.new_id)));
        reveal_with_fuel(asked, 2);
        reveal_with_fuel(outcome, 2);
        assert(asked(t.proceed(), replies) =~= seq![RequestView::Commit]);
    }
}

/// All of the work is done: where no request fails, the transaction is begun, each operation is
/// asked for once and in order, and the commit comes last.
pub proof fn law_successful_work_is_committed<E>(
    operations: Seq<OperationView>,
    replies: Seq<Reply<E>>,
)
    requires
        is_fixed(operations),
        replies.len() == operations.len() + 2,
        none_failed(replies),
    ensures
        asked(begun::<E>(operations), replies) == seq![RequestView::Begin] + requests_of(
            operations,
            replies.skip(1),
            None,
            None,
        ) + seq![RequestView::Commit],
        outcome(begun::<E>(operations), replies) == Some(
            Ok::<Option<i64>, Failure<E>>(last_id(operations, replies.skip(1), None)),
        ),
{
    let t = InTransactionView::<E>::new(operations);
    assert(!(replies[0] is Failed));
    lemma_none_failed_later(replies);
    assert(operations.skip(0) =~= operations);
    lemma_work_is_done(t, replies.skip(1));
    assert(asked(begun::<E>(operations), replies) =~= seq![RequestView::Begin] + requests_of(
        operations,
        replies.skip(1),
        None,
        None,
    ) + seq![RequestView::Commit]);
}

proof fn lemma_work_is_undone<E>(t: InTransactionView<E>, replies: Seq<Reply<E>>, k: int)
    requires
        0 <= t.next <= t.next + k <= t.operations.len(),
        is_fixed(t.operations.skip(t.next)),
        replies.len() == k + 2,
        none_failed(replies.take(k)),
        replies[k] is Failed,
    ensures
        asked(t.proceed(), replies) == asked(t.proceed(), replies.take(k)) + seq![
            RequestView::Rollback,
        ],
        outcome(t.proceed(), replies) == Some(
            Err::<Option<i64>, Failure<E>>(
                Failure {
                    part: if t.next + k < t.operations.len() {
                        Part::Operation((t.next + k) as usize)
                    } else {
                        Part::Commit
                    },
                    error: replies[k]->Failed_0,
                },
            ),
        ),
    decreases k,
{
    reveal_with_fuel(asked, 3);
    reveal_with_fuel(outcome, 3);
    if k == 0 {
        assert(replies.skip(1)[0] == replies[1]);
        assert(replies.take(0).len() == 0);
        assert(asked(t.proceed(), replies) =~= asked(t.proceed(), replies.take(0)) + seq![
            RequestView::Rollback,
        ]);
    } else {
        assert(replies.take(k)[0] == replies[0]);
        assert(!(replies[0] is Failed));
        assert(t.next < t.operations.len());
        let u = InTransactionView { stage: Stage::Working, ..t }.after(replies[0]);
        lemma_fixed_goes_on(t, replies[0]);
        let rest = replies.skip(1);
        assert(rest.take(k - 1) =~= replies.take(k).skip(1));
        lemma_none_failed_later(replies.take(k));
        assert(rest[k - 1] == replies[k]);
        lemma_work_is_undone(u, rest, k - 1);
        assert(asked(t.proceed(), replies) =~= asked(t.proceed(), replies.take(k)) + seq![
            RequestView::Rollback,
        ]);
    }
}

/// Where the operations are all known beforehand, the failure tells which of them it came from:
/// the rollback is the next request and the last, whatever the reply to it is.
pub proof fn law_failed_operation_is_told<E>(
    operations: Seq<OperationView>,
    replies: Seq<Reply<E>>,
    k: int,
)
    requires
        is_fixed(operations),
        0 < k <= operations.len() + 1,
        replies.len() == k + 2,
        none_failed(replies.take(k)),
        replies[k] is Failed,
    ensures
        asked(begun::<E>(operations), replies) == asked(begun::<E>(operations), replies.take(k))
            + seq![RequestView::Rollback],
        asked(begun::<E>(operations), replies).len() == k + 2,
        outcome(begun::<E>(operations), replies) == Some(
            Err::<Option<i64>, Failure<E>>(
                Failure {
                    part: if k <= operations.len() {
                        Part::Operation((k - 1) as usize)
                    } else {
                        Part::Commit
                    },
                    error: replies[k]->Failed_0,
                },
            ),
        ),
{
    let t = InTransactionView::<E>::new(operations);
    assert(replies.take(k)[0] == replies[0]);
    assert(!(replies[0] is Failed));
    let rest = replies.skip(1);
    assert(rest.take(k - 1) =~= replies.take(k).skip(1));
    lemma_none_failed_later(replies.take(k));
    assert(rest[k - 1] == replies[k]);
    assert(operations.skip(0) =~= operations);
    lemma_work_is_undone(t, rest, k - 1);
    lemma_one_request_per_reply(t, rest.take(k - 1));
    assert(asked(begun::<E>(operations), replies) =~= asked(
        begun::<E>(operations),
        replies.take(k),
    ) + seq![RequestView::Rollback]);
}

proof fn lemma_one_request_per_reply<E>(t: InTransactionView<E>, replies: Seq<Reply<E>>)
    requires
        0 <= t.next <= t.next + replies.len() <= t.operations.len(),
        is_fixed(t.operations.skip(t.next)),
        none_failed(replies),
    ensures
        asked(t.proceed(), replies).len() == replies.len() + 1,
    decreases replies.len(),
{
    if replies.len() > 0 {
        assert(!(replies[0] is Failed));
        let u = InTransactionView { stage: Stage::Working, ..t }.after(replies[0]);
        lemma_fixed_goes_on(t, replies[0]);
        lemma_none_failed_later(replies);
        lemma_one_request_per_reply(u, replies.skip(1));
    }
}

/// Whether a request is the one that a transaction makes at its stage.
pub open spec fn is_request_of<E>(t: InTransactionView<E>, request: RequestView) -> bool {
    match t.stage {
        Stage::Beginning => request is Begin,
        Stage::Working => !(request is Begin) && !(request is Commit) && !(request is Rollback),
        Stage::Committing => request is Commit,
        Stage::RollingBack(failure) => request is Rollback && failure.part != Part::Begin,
    }
}

/// What the requests and the replies of a whole run tell, where it ended well: the commit was the
/// last request, none was a rollback, and no reply told of a failure.
pub open spec fn ended_well<E>(requests: Seq<RequestView>, replies: Seq<Reply<E>>) -> bool {
    &&& 0 < requests.len() <= replies.len()
    &&& requests.last() is Commit
    &&& forall|i: int| 0 <= i < requests.len() ==> !(#[trigger] requests[i] is Rollback)
    &&& none_failed(replies.take(requests.len() as int))
}

/// What the requests and the replies of a whole run tell, where work was undone because of an
/// error: the rollback was the last request, the request before it failed of that error, and no
/// request before that one failed.
pub open spec fn ended_undone<E>(
    requests: Seq<RequestView>,
    replies: Seq<Reply<E>>,
    error: E,
) -> bool {
    &&& 2 <= requests.len() <= replies.len()
    &&& requests.last() is Rollback
    &&& replies[requests.len() - 2] == Reply::Failed(error)
    &&& none_failed(replies.take(requests.len() - 2))
}

proof fn lemma_whole_run<E>(
    t: InTransactionView<E>,
    request: RequestView,
    replies: Seq<Reply<E>>,
)
    requires
        is_request_of(t, request),
        !(t.stage is RollingBack),
    ensures
        ({
            let p = ProgressView::Continue(t, request);
            let requests = asked(p, replies);
            match outcome(p, replies) {
                None => true,
                Some(Ok(_)) => ended_well(requests, replies),
                Some(Err(failure)) => if failure.part == Part::Begin {
                    t.stage is Beginning && requests == seq![request] && replies.len() > 0
                        && replies[0] == Reply::Failed(failure.error)
                } else {
                    ended_undone(requests, replies, failure.error)
                },
            }
        }),
    decreases replies.len(),
{
    let p = ProgressView::Continue(t, request);
    let requests = asked(p, replies);
    reveal_with_fuel(asked, 3);
    reveal_with_fuel(outcome, 3);
    if replies.len() > 0 {
        let rest = replies.skip(1);
        match t.resumed(replies[0]) {
            ProgressView::Finished(_) => {
                assert(requests =~= seq![request]);
                assert(replies.take(1)[0] == replies[0]);
            },
            ProgressView::Continue(u, next) => {
                let later = asked(ProgressView::Continue(u, next), rest);
                assert(requests =~= seq![request] + later);
                if u.stage is RollingBack {
                    assert(requests.len() == 2);
                } else {
                    lemma_whole_run(u, next, rest);
                    assert(!(replies[0] is Failed));
                    if let Some(r) = outcome(p, replies) {
                        if r is Ok {
                            lemma_none_failed_before(replies, later.len() as int);
                            assert(requests.last() == later.last());
                            assert forall|i: int| 0 <= i < requests.len() implies !(
                            #[trigger] requests[i] is Rollback) by {
                                if i > 0 {
                                    assert(requests[i] == later[i - 1]);
                                }
                            }
                        } else {
                            lemma_none_failed_before(replies, later.len() - 2);
                            assert(requests.last() == later.last());
                            assert(rest[later.len() - 2] == replies[later.len() - 1]);
                        }
                    }
                }
            },
        }
    }
}

proof fn lemma_none_failed_before<E>(replies: Seq<Reply<E>>, k: int)
    requires
        0 <= k < replies.len(),
        !(replies[0] is Failed),
        none_failed(replies.skip(1).take(k)),
    ensures
        none_failed(replies.take(k + 1)),
{
    let first = replies.take(k + 1);
    assert forall|i: int| 0 <= i < first.len() implies !(#[trigger] first[i] is Failed) by {
        if i > 0 {
            assert(first[i] == replies.skip(1).take(k)[i - 1]);
        }
    }
}

/// All of the work or none of it, for whatever operations and replies, those that a migration
/// brings included. Where a transaction succeeds, the commit was its last request, none was a
/// rollback, and no reply told of a failure. Where it fails of its beginning, nothing else was
/// asked for. Where it fails of anything else, the rollback was its last request, and it fails of
/// the error that came first.
pub proof fn law_all_of_the_work_or_none<E>(operations: Seq<OperationView>, replies: Seq<Reply<E>>)
    ensures
        ({
            let requests = asked(begun::<E>(operations), replies);
            match outcome(begun::<E>(operations), replies) {
                None => true,
                Some(Ok(_)) => ended_well(requests, replies),
                Some(Err(failure)) => if failure.part == Part::Begin {
                    requests == seq![RequestView::Begin] && replies.len() > 0 && replies[0]
                        == Reply::Failed(failure.error)
                } else {
                    ended_undone(requests, replies, failure.error)
                },
            }
        }),
{
    lemma_whole_run(InTransactionView::<E>::new(operations), RequestView::Begin, replies);
}

proof fn lemma_failure_ends_run<E>(
    t: InTransactionView<E>,
    request: RequestView,
    replies: Seq<Reply<E>>,
    k: int,
)
    requires
        !(t.stage is RollingBack),
        t.stage is Beginning ==> k > 0,
        0 <= k,
        k + 2 <= replies.len(),
        none_failed(replies.take(k)),
        replies[k] is Failed,
        outcome(ProgressView::Continue(t, request), replies.take(k)) is None,
    ensures
        ({
            let p = ProgressView::Continue(t, request);
            &&& asked(p, replies) == asked(p, replies.take(k)) + seq![RequestView::Rollback]
            &&& asked(p, replies).len() == k + 2
            &&& outcome(p, replies) matches Some(Err(failure)) && failure.error
                == replies[k]->Failed_0 && failure.part != Part::Begin
        }),
    decreases k,
{
    let p = ProgressView::Continue(t, request);
    reveal_with_fuel(asked, 3);
    reveal_with_fuel(outcome, 3);
    let rest = replies.skip(1);
    if k == 0 {
        assert(replies.take(0).len() == 0);
        assert(asked(p, replies) =~= asked(p, replies.take(0)) + seq![RequestView::Rollback]);
    } else {
        assert(replies.take(k)[0] == replies[0]);
        assert(!(replies[0] is Failed));
        assert(rest.take(k - 1) =~= replies.take(k).skip(1));
        lemma_none_failed_later(replies.take(k));
        match t.resumed(replies[0]) {
            ProgressView::Finished(_) => {},
            ProgressView::Continue(u, next) => {
                lemma_failure_ends_run(u, next, rest, k - 1);
                assert(asked(p, replies) =~= asked(p, replies.take(k)) + seq![
                    RequestView::Rollback,
                ]);
            },
        }
    }
}

/// None of the work is kept, whatever the operations are: where a request of a transaction that
/// was begun, and is still under way, fails, the next request is the rollback, there is no request
/// after that, and the failure is what the transaction comes to, whatever the reply to the
/// rollback is.
pub proof fn law_failed_work_is_rolled_back<E>(
    operations: Seq<OperationView>,
    replies: Seq<Reply<E>>,
    k: int,
)
    requires
        0 < k,
        k + 2 <= replies.len(),
        none_failed(replies.take(k)),
        replies[k] is Failed,
        outcome(begun::<E>(operations), replies.take(k)) is None,
    ensures
        asked(begun::<E>(operations), replies) == asked(begun::<E>(operations), replies.take(k))
            + seq![RequestView::Rollback],
        asked(begun::<E>(operations), replies).len() == k + 2,
        outcome(begun::<E>(operations), replies) matches Some(Err(failure)) && failure.error
            == replies[k]->Failed_0 && failure.part != Part::Begin,
{
    lemma_failure_ends_run(
        InTransactionView::<E>::new(operations),
        RequestView::Begin,
        replies,
        k,
    );
}

/// A database is made ready in one transaction: its version is read first, the migrations that
/// this version calls for are run in order, and the commit comes last.
pub proof fn law_database_is_made_ready<E>(version: u64, replies: Seq<Reply<E>>)
    requires
        replies.len() == migrations(version).len() + 3,
        none_failed(replies),
        replies[1] == Reply::<E>::Version(version),
    ensures
        asked(begun::<E>(seq![OperationView::Migrate]), replies) == seq![
            RequestView::Begin,
            RequestView::ReadSchemaVersion,
        ] + requests_of(migrations(version), replies.skip(2), None, None) + seq![
            RequestView::Commit,
        ],
        outcome(begun::<E>(seq![OperationView::Migrate]), replies) is Some,
        outcome(begun::<E>(seq![OperationView::Migrate]), replies)->0 is Ok,
{
    let t = InTransactionView::<E>::new(seq![OperationView::Migrate]);
    let working = InTransactionView { stage: Stage::Working, ..t };
    let u = working.after(replies[1]);
    let rest = replies.skip(2);
    assert(!(replies[0] is Failed));
    assert(replies.skip(1)[0] == replies[1]);
    assert(replies.skip(1).skip(1) =~= rest);
    assert(u.operations.skip(1) =~= migrations(version));
    lemma_none_failed_later(replies);
    lemma_none_failed_later(replies.skip(1));
    lemma_work_is_done(u, rest);
    reveal_with_fuel(asked, 3);
    reveal_with_fuel(outcome, 3);
    assert(t.resumed(replies[0]) == ProgressView::Continue(working, RequestView::ReadSchemaVersion));
    assert(working.resumed(replies[1]) == u.proceed());
    assert(asked(begun::<E>(seq![OperationView::Migrate]), replies) =~= seq![
        RequestView::Begin,
        RequestView::ReadSchemaVersion,
    ] + requests_of(migrations(version), rest, None, None) + seq![RequestView::Commit]);
}

/// A transaction that cannot be begun does nothing.
pub proof fn law_no_work_without_a_beginning<E>(operations: Seq<OperationView>, error: E)
    ensures
        InTransactionView::<E>::new(operations).resumed(Reply::Failed(error))
            == ProgressView::<E>::Finished(Err(Failure { part: Part::Begin, error })),
{
}

/// A commit is asked for only once every operation was done, and success is reported only once
/// the commit was done.
pub proof fn law_commit_comes_last<E>(t: InTransactionView<E>, reply: Reply<E>)
    requires
        t.wf(),
    ensures
        t.resumed(reply) matches ProgressView::Continue(u, RequestView::Commit) ==> u.next
            == u.operations.len() && !(reply is Failed),
        t.resumed(reply) matches ProgressView::Finished(Ok(_)) ==> t.stage is Committing && !(
        reply is Failed),
{
}

/// A failure is always undone, whatever the work: once a part of a transaction that was begun
/// fails, the rollback is the one request left, and the failure is what the transaction comes
/// to.
pub proof fn law_every_failure_is_undone<E>(t: InTransactionView<E>, error: E, reply: Reply<E>)
    requires
        t.stage is Working || t.stage is Committing,
    ensures
        t.resumed(Reply::Failed(error)) matches ProgressView::Continue(u, RequestView::Rollback)
            && u.resumed(reply) == ProgressView::<E>::Finished(Err(t.failure(error))),
{
}

/// A transaction that was begun is well formed, and stays so from turn to turn.
pub proof fn law_transactions_stay_well_formed<E>(
    operations: Seq<OperationView>,
    t: InTransactionView<E>,
    reply: Reply<E>,
)
    requires
        t.wf(),
    ensures
        InTransactionView::<E>::new(operations).wf(),
        t.resumed(reply) matches ProgressView::Continue(u, _) ==> u.wf(),
{
}

} // verus!
