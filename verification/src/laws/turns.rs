//! What a transaction asks for, turn by turn.
use crate::schema::migrations;
use crate::sql::{
    operations_view, Operation, OperationView, Param, ParamView, Statement, StatementView,
};
use crate::time::Timestamp;
use crate::transaction::{
    in_transaction, resolved, resolved_param, Failure, InTransaction, InTransactionView, Part,
    Progress, Reply, Request, Stage,
};
use vstd::prelude::*;

verus! {

/// Whether a bound value is held as it is.
pub open spec fn is_held(view: ParamView, param: Param) -> bool {
    match param {
        Param::Null => view is Null,
        Param::Integer(i) => view == ParamView::Integer(i),
        Param::Text(s) => view == ParamView::Text(s@),
        Param::Time(t) => view == ParamView::Time(t),
        Param::Clock => view is Clock,
        Param::NewId => view is NewId,
    }
}

/// Whether a statement is held as it is: its text and each of its values.
pub open spec fn is_statement(view: StatementView, s: Statement) -> bool {
    &&& view.sql == s.sql@
    &&& view.params.len() == s.params.len()
    &&& forall|i: int| 0 <= i < s.params.len() ==> is_held(view.params[i], #[trigger] s.params[i])
}

/// Whether an operation is held as it is.
pub open spec fn is_operation(view: OperationView, operation: Operation) -> bool {
    match operation {
        Operation::ReadClock => view is ReadClock,
        Operation::Execute(s) => view matches OperationView::Execute(v) && is_statement(v, s),
        Operation::Insert(s) => view matches OperationView::Insert(v) && is_statement(v, s),
        Operation::SetSchemaVersion(version) => view == OperationView::SetSchemaVersion(version),
        Operation::Migrate => view is Migrate,
    }
}

/// A transaction holds all its operations, as they are, in order; none of them is done yet, and it
/// asks to begin.
pub proof fn law_a_transaction_holds_its_operations<E>(
    operations: Vec<Operation>,
    r: (InTransaction<E>, Request),
    i: int,
)
    requires
        call_ensures(in_transaction::<E>, (operations,), r),
    ensures
        r.1 is Begin,
        r.0@.operations.len() == operations.len(),
        0 <= i < operations.len() ==> is_operation(r.0@.operations[i], operations[i]),
        r.0@.next == 0,
        r.0@.clock is None,
        r.0@.new_id is None,
        r.0@.stage is Beginning,
{
    let v = operations_view(operations@);
    assert(v.len() == operations.len());
    if 0 <= i < operations.len() {
        assert(v[i] == operations[i]@);
        match operations[i] {
            Operation::Execute(s) => lemma_statement(s),
            Operation::Insert(s) => lemma_statement(s),
            _ => {},
        }
    }
}

proof fn lemma_statement(s: Statement)
    ensures
        is_statement(s@, s),
{
    assert forall|i: int| 0 <= i < s.params.len() implies is_held(
        s@.params[i],
        #[trigger] s.params[i],
    ) by {
        assert(s@.params[i] == s.params[i]@);
    }
}

/// Whether a value is sent for another: the reading of the clock and the new identifier where they
/// are called for, and NULL where there is none yet; any other value as it is.
pub open spec fn is_sent(
    param: Param,
    held: ParamView,
    clock: Option<Timestamp>,
    new_id: Option<i64>,
) -> bool {
    match held {
        ParamView::Null => param is Null,
        ParamView::Integer(i) => param == Param::Integer(i),
        ParamView::Text(t) => param matches Param::Text(s) && s@ == t,
        ParamView::Time(t) => param == Param::Time(t),
        ParamView::Clock => match clock {
            Some(t) => param == Param::Time(t),
            None => param is Null,
        },
        ParamView::NewId => match new_id {
            Some(i) => param == Param::Integer(i),
            None => param is Null,
        },
    }
}

/// Whether a statement is sent for one that is held: the same text, and each value.
pub open spec fn is_sent_for(
    s: Statement,
    held: StatementView,
    clock: Option<Timestamp>,
    new_id: Option<i64>,
) -> bool {
    &&& s.sql@ == held.sql
    &&& s.params.len() == held.params.len()
    &&& forall|i: int|
        0 <= i < s.params.len() ==> is_sent(#[trigger] s.params[i], held.params[i], clock, new_id)
}

/// Whether a request is the one that an operation makes.
pub open spec fn asks_of(
    request: Request,
    operation: OperationView,
    clock: Option<Timestamp>,
    new_id: Option<i64>,
) -> bool {
    match operation {
        OperationView::ReadClock => request is ReadClock,
        OperationView::Execute(v) => request matches Request::Execute(s) && is_sent_for(
            s,
            v,
            clock,
            new_id,
        ),
        OperationView::Insert(v) => request matches Request::Insert(s) && is_sent_for(
            s,
            v,
            clock,
            new_id,
        ),
        OperationView::SetSchemaVersion(version) => request == Request::SetSchemaVersion(version),
        OperationView::Migrate => request is ReadSchemaVersion,
    }
}

proof fn lemma_sent(
    s: Statement,
    held: StatementView,
    clock: Option<Timestamp>,
    new_id: Option<i64>,
)
    requires
        s@ == resolved(held, clock, new_id),
    ensures
        is_sent_for(s, held, clock, new_id),
{
    let want = resolved(held, clock, new_id);
    assert(s@.params.len() == s.params.len());
    assert(want.params.len() == held.params.len());
    assert forall|i: int| 0 <= i < s.params.len() implies is_sent(
        #[trigger] s.params[i],
        held.params[i],
        clock,
        new_id,
    ) by {
        assert(s@.params[i] == s.params[i]@);
        assert(want.params[i] == resolved_param(held.params[i], clock, new_id));
    }
}

/// Whether a transaction goes on with its next operation, or with the commit where none is left,
/// and holds what it held.
pub open spec fn goes_on<E>(
    operations: Seq<OperationView>,
    next: int,
    clock: Option<Timestamp>,
    new_id: Option<i64>,
    r: Progress<E>,
) -> bool {
    r matches Progress::Continue(u, request) && {
        &&& u@.operations == operations
        &&& u@.next == next
        &&& u@.clock == clock
        &&& u@.new_id == new_id
        &&& if next < operations.len() {
            u@.stage is Working && asks_of(request, operations[next], clock, new_id)
        } else {
            u@.stage is Committing && request is Commit
        }
    }
}

/// Whether a transaction asks to roll back, because of this failure.
pub open spec fn rolls_back<E>(r: Progress<E>, part: Part, error: E) -> bool {
    r matches Progress::Continue(u, request) && request is Rollback && u@.stage
        == Stage::RollingBack(Failure { part, error })
}

proof fn lemma_goes_on<E>(t: InTransactionView<E>, r: Progress<E>)
    requires
        r@ == t.proceed(),
    ensures
        goes_on(t.operations, t.next, t.clock, t.new_id, r),
{
    if t.next < t.operations.len() {
        let request = r->Continue_1;
        match t.operations[t.next] {
            OperationView::Execute(v) => lemma_sent(request->Execute_0, v, t.clock, t.new_id),
            OperationView::Insert(v) => lemma_sent(request->Insert_0, v, t.clock, t.new_id),
            _ => {},
        }
    }
}

/// A transaction that could not begin is over, with that error; one that began goes on with its
/// first operation.
pub proof fn law_a_transaction_begins<E>(t: InTransaction<E>, reply: Reply<E>, r: Progress<E>)
    requires
        call_ensures(InTransaction::<E>::resume, (t, reply), r),
        t@.stage is Beginning,
    ensures
        reply matches Reply::Failed(e) ==> r == Progress::<E>::Finished(
            Err(Failure { part: Part::Begin, error: e }),
        ),
        !(reply is Failed) ==> goes_on(t@.operations, t@.next, t@.clock, t@.new_id, r),
{
    if !(reply is Failed) {
        lemma_goes_on(t@, r);
    }
}

/// An operation that failed is rolled back, and its place is told. After one that was done the
/// transaction goes on with the next: a reading of the clock and the identifier of an inserted row
/// are kept for those that follow, and the version of the schema brings in the migrations that it
/// calls for, before those that follow. Nothing else changes what it holds.
pub proof fn law_operations_are_done_in_turn<E>(
    t: InTransaction<E>,
    reply: Reply<E>,
    r: Progress<E>,
)
    requires
        call_ensures(InTransaction::<E>::resume, (t, reply), r),
        t@.stage is Working,
        0 <= t@.next < t@.operations.len(),
    ensures
        reply matches Reply::Failed(e) ==> rolls_back(r, Part::Operation(t@.next as usize), e),
        !(reply is Failed) ==> goes_on(
            if t@.operations[t@.next] is Migrate && reply is Version {
                t@.operations.take(t@.next + 1) + migrations(reply->Version_0) + t@.operations.skip(
                    t@.next + 1,
                )
            } else {
                t@.operations
            },
            t@.next + 1,
            if t@.operations[t@.next] is ReadClock && reply is Time {
                Some(reply->Time_0)
            } else {
                t@.clock
            },
            if t@.operations[t@.next] is Insert && reply is Id {
                Some(reply->Id_0)
            } else {
                t@.new_id
            },
            r,
        ),
{
    if !(reply is Failed) {
        let u = t@.after(reply);
        let ops = t@.operations;
        lemma_goes_on(u, r);
        if !(ops[t@.next] is Migrate && reply is Version) {
            assert(u.operations =~= ops);
        }
    }
}

/// A commit that failed is rolled back; one that was done ends the transaction, with the
/// identifier of the row that was inserted last. A rollback ends it with what it was asked for.
pub proof fn law_a_transaction_ends<E>(t: InTransaction<E>, reply: Reply<E>, r: Progress<E>)
    requires
        call_ensures(InTransaction::<E>::resume, (t, reply), r),
    ensures
        t@.stage is Committing ==> match reply {
            Reply::Failed(e) => rolls_back(r, Part::Commit, e),
            _ => r == Progress::<E>::Finished(Ok(t@.new_id)),
        },
        t@.stage matches Stage::RollingBack(failure) ==> r == Progress::<E>::Finished(Err(failure)),
{
}

} // verus!
