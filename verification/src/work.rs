//! Carrying out a unit of work: the commands that the store is given, one
//! after the other, and what each answer leads to. The operations run inside
//! one transaction; the first that fails ends it with a rollback.

use vstd::prelude::*;
use crate::outcome::StorageError;
use crate::plan::{Op, OpView};
use crate::statement::{views, Statement, StatementView};
use crate::store::Session;

verus! {

/// What the store is asked to do.
#[derive(Debug, PartialEq, Eq)]
pub enum Command {
    /// Open a transaction.
    Begin,
    /// Run this statement inside the open transaction.
    Execute(Statement),
    /// Commit the open transaction.
    Commit,
    /// Abandon the open transaction.
    Rollback,
    /// Nothing more: the unit of work has ended, with this result.
    Finish(Result<(), StorageError>),
}

#[verifier::ext_equal]
pub enum CommandView {
    Begin,
    Execute(StatementView),
    Commit,
    Rollback,
    Finish(Result<(), StorageError>),
}

impl View for Command {
    type V = CommandView;

    open spec fn view(&self) -> CommandView {
        match self {
            Command::Begin => CommandView::Begin,
            Command::Execute(statement) => CommandView::Execute(statement@),
            Command::Commit => CommandView::Commit,
            Command::Rollback => CommandView::Rollback,
            Command::Finish(result) => CommandView::Finish(*result),
        }
    }
}

/// What the store answered to a command.
#[derive(Debug, Clone, Copy, PartialEq, Eq, Structural)]
pub enum Reply {
    /// The command took effect. The number is the id of the row that the
    /// store inserted last.
    Done(i64),
    /// The command was refused and changed nothing.
    Failed,
}

/// How far a unit of work has come.
#[derive(Debug, Clone, Copy, PartialEq, Eq, Structural)]
pub enum Stage {
    /// The transaction is being opened.
    Beginning,
    /// The operation at this place of the plan is being run.
    Running(usize),
    /// The transaction is being committed.
    Committing,
    /// The transaction is being abandoned.
    RollingBack,
    /// The unit of work has ended; `true` where it took effect.
    Finished(bool),
}

/// A unit of work under way.
pub struct UnitOfWork {
    plan: Vec<Op>,
    stage: Stage,
    inserted: i64,
}

pub struct WorkView {
    pub plan: Seq<OpView>,
    pub stage: Stage,
    /// The id that the store gave to the row that this unit of work
    /// inserted, 0 until then.
    pub inserted: i64,
}

impl WorkView {
    /// A unit of work at its start.
    pub open spec fn begin(plan: Seq<OpView>) -> WorkView {
        WorkView { plan, stage: Stage::Beginning, inserted: 0 }
    }

    /// The stage that running the operation at `at` leads to once it is done.
    pub open spec fn after_operation(self, at: int) -> Stage {
        if at + 1 < self.plan.len() {
            Stage::Running((at + 1) as usize)
        } else {
            Stage::Committing
        }
    }

    /// The unit of work after the store answered to its command.
    pub open spec fn next(self, reply: Reply) -> WorkView {
        match self.stage {
            Stage::Beginning => match reply {
                Reply::Done(_) => WorkView {
                    stage: if self.plan.len() == 0 {
                        Stage::Committing
                    } else {
                        Stage::Running(0)
                    },
                    ..self
                },
                Reply::Failed => WorkView { stage: Stage::Finished(false), ..self },
            },
            Stage::Running(at) => match reply {
                Reply::Done(rowid) => WorkView {
                    stage: self.after_operation(at as int),
                    inserted: if self.plan[at as int].inserts_parent() {
                        rowid
                    } else {
                        self.inserted
                    },
                    ..self
                },
                Reply::Failed => WorkView { stage: Stage::RollingBack, ..self },
            },
            Stage::Committing => match reply {
                Reply::Done(_) => WorkView { stage: Stage::Finished(true), ..self },
                Reply::Failed => WorkView { stage: Stage::RollingBack, ..self },
            },
            Stage::RollingBack => WorkView { stage: Stage::Finished(false), ..self },
            Stage::Finished(_) => self,
        }
    }

    /// The command that the store is given at this stage.
    pub open spec fn command(self) -> CommandView {
        match self.stage {
            Stage::Beginning => CommandView::Begin,
            Stage::Running(at) => CommandView::Execute(
                self.plan[at as int].statement(self.inserted),
            ),
            Stage::Committing => CommandView::Commit,
            Stage::RollingBack => CommandView::Rollback,
            Stage::Finished(done) => CommandView::Finish(
                if done {
                    Ok(())
                } else {
                    Err(StorageError::Statement)
                },
            ),
        }
    }
}

impl WorkView {
    /// What the answer of the store to the command of this stage means for
    /// what it holds. A transaction that is opened sees what is committed; a
    /// statement that is done changes what the transaction sees, with the
    /// reported id as that of the row it inserted; a commit that is done
    /// makes that the committed contents; a rollback drops it. A command that
    /// is refused changes nothing.
    pub open spec fn effect(self, session: Session, reply: Reply) -> Session {
        match (self.stage, reply) {
            (Stage::Beginning, Reply::Done(_)) => Session {
                pending: Some(session.committed),
                ..session
            },
            (Stage::Running(at), Reply::Done(rowid)) => Session {
                pending: Some(session.pending->0.apply(self.plan[at as int], self.next(reply).inserted)),
                ..session
            },
            (Stage::Committing, Reply::Done(_)) => Session {
                committed: session.pending->0,
                pending: None,
            },
            (Stage::RollingBack, _) => Session { pending: None, ..session },
            _ => session,
        }
    }

    /// The unit of work and the store after a run of answers, each given to
    /// the command of the stage that the answers before it led to.
    pub open spec fn drive(self, session: Session, replies: Seq<Reply>) -> (WorkView, Session)
        decreases replies.len(),
    {
        if replies.len() == 0 {
            (self, session)
        } else {
            let (work, then) = self.drive(session, replies.drop_last());
            (work.next(replies.last()), work.effect(then, replies.last()))
        }
    }
}

impl View for UnitOfWork {
    type V = WorkView;

    closed spec fn view(&self) -> WorkView {
        WorkView { plan: views(self.plan@), stage: self.stage, inserted: self.inserted }
    }
}

impl UnitOfWork {
    #[verifier::type_invariant]
    spec fn in_plan(self) -> bool {
        self.stage matches Stage::Running(at) ==> at < self.plan.len()
    }

    /// The unit of work that carries out `plan`, at its start.
    pub fn new(plan: Vec<Op>) -> (work: UnitOfWork)
        ensures
            work@ == WorkView::begin(views(plan@)),
    {
        UnitOfWork { plan, stage: Stage::Beginning, inserted: 0 }
    }

    /// What the store is to be given now: the opening of the transaction,
    /// then the statement of each operation in turn, then the commit; a
    /// rollback after the first refusal; and at the end the result, which is
    /// `Ok` only where the commit took effect.
    pub fn command(&self) -> (command: Command)
        ensures
            command@ == self@.command(),
    {
        proof {
            use_type_invariant(self);
        }
        match self.stage {
            Stage::Beginning => Command::Begin,
            Stage::Running(at) => Command::Execute(self.plan[at].statement(self.inserted)),
            Stage::Committing => Command::Commit,
            Stage::RollingBack => Command::Rollback,
            Stage::Finished(done) => Command::Finish(
                if done {
                    Ok(())
                } else {
                    Err(StorageError::Statement)
                },
            ),
        }
    }

    /// Takes the answer of the store to the command that was given last and
    /// moves on. After the insertion of a parent row the id that the store
    /// reports is kept for the links that follow.
    pub fn advance(&mut self, reply: Reply)
        ensures
            final(self)@ == old(self)@.next(reply),
    {
        proof {
            use_type_invariant(&*self);
        }
        match self.stage {
            Stage::Beginning => match reply {
                Reply::Done(_) => {
                    self.stage = if self.plan.len() == 0 {
                        Stage::Committing
                    } else {
                        Stage::Running(0)
                    };
                },
                Reply::Failed => {
                    self.stage = Stage::Finished(false);
                },
            },
            Stage::Running(at) => match reply {
                Reply::Done(rowid) => {
                    if self.plan[at].inserts_parent() {
                        self.inserted = rowid;
                    }
                    self.stage = if at + 1 < self.plan.len() {
                        Stage::Running(at + 1)
                    } else {
                        Stage::Committing
                    };
                },
                Reply::Failed => {
                    self.stage = Stage::RollingBack;
                },
            },
            Stage::Committing => match reply {
                Reply::Done(_) => {
                    self.stage = Stage::Finished(true);
                },
                Reply::Failed => {
                    self.stage = Stage::RollingBack;
                },
            },
            Stage::RollingBack => {
                self.stage = Stage::Finished(false);
            },
            Stage::Finished(_) => {},
        }
    }
}

} // verus!
