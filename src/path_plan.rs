use vstd::prelude::*;
use crate::descriptor::{Descriptable, Descriptor, STDERR_DESCRIPTOR, STDOUT_DESCRIPTOR};
use crate::status::OsError;

verus! {

/// What becomes of the descriptor that a procedure opened, once it ends.
#[derive(Clone, Copy, Debug, PartialEq, Eq, Structural)]
pub enum Disposal {
    /// Nothing was opened.
    Untouched,
    /// Close it: no redirection uses it.
    Close(Descriptor),
    /// Give up ownership without closing it: the redirected sources now share its
    /// kernel object, which must outlive the procedure.
    Release(Descriptor),
}

/// The next thing the caller must do for a path redirection.
#[derive(Clone, Copy, Debug)]
pub enum Action {
    /// Open the destination path for writing, creating it if absent; append to it when
    /// `append` holds, else truncate it.
    Open { append: bool },
    /// Make descriptor `onto` an alias of the kernel object behind `from` (`dup2(from, onto)`).
    Duplicate { from: Descriptor, onto: Descriptor },
    /// The procedure is over: dispose of the opened descriptor and report `result`.
    Finish { disposal: Disposal, result: Result<(), OsError> },
}

/// Where a path redirection stands.
#[derive(Clone, Copy, Debug, PartialEq, Eq, Structural)]
pub enum Stage {
    /// The destination is being opened.
    Opening,
    /// Source number `index` is being made an alias of the opened descriptor.
    Duplicating { opened: Descriptor, index: usize },
    /// The procedure is over.
    Done,
}

/// The redirection of one or more source descriptors to a destination path: the path is
/// opened once, each source in turn becomes an alias of the opened descriptor, and the
/// opened descriptor is released, not closed, when every source was redirected. A
/// failure ends the procedure at once; sources redirected before it stay redirected.
pub struct PathRedirect {
    sources: Vec<Descriptor>,
    append: bool,
    stage: Stage,
}

/// The stage and action that follow `stage` when the last call replied `reply`.
pub open spec fn transition(sources: Seq<Descriptor>, stage: Stage, reply: Result<Descriptor, OsError>) -> (Stage, Action) {
    match (stage, reply) {
        (Stage::Opening, Err(e)) => (Stage::Done, Action::Finish { disposal: Disposal::Untouched, result: Err(e) }),
        (Stage::Opening, Ok(fd)) => (
            Stage::Duplicating { opened: fd, index: 0 },
            Action::Duplicate { from: fd, onto: sources[0] },
        ),
        (Stage::Duplicating { opened, index }, Err(e)) => (
            Stage::Done,
            Action::Finish { disposal: Disposal::Close(opened), result: Err(e) },
        ),
        (Stage::Duplicating { opened, index }, Ok(_)) => if index + 1 < sources.len() {
            (
                Stage::Duplicating { opened, index: (index + 1) as usize },
                Action::Duplicate { from: opened, onto: sources[index + 1] },
            )
        } else {
            (Stage::Done, Action::Finish { disposal: Disposal::Release(opened), result: Ok(()) })
        },
        (Stage::Done, _) => (Stage::Done, Action::Finish { disposal: Disposal::Untouched, result: Ok(()) }),
    }
}

/// The actions a procedure at `stage` takes when the calls reply `replies`, in order,
/// up to the end of the procedure.
pub open spec fn run(sources: Seq<Descriptor>, stage: Stage, replies: Seq<Result<Descriptor, OsError>>) -> Seq<Action>
    decreases replies.len(),
{
    if replies.len() == 0 || stage == Stage::Done {
        seq![]
    } else {
        let (next, a) = transition(sources, stage, replies[0]);
        seq![a] + run(sources, next, replies.drop_first())
    }
}

/// Duplications of `opened` onto `sources[from]`, ..., `sources[to - 1]`, in order.
pub open spec fn duplications(sources: Seq<Descriptor>, opened: Descriptor, from: int, to: int) -> Seq<Action> {
    Seq::new((to - from) as nat, |j: int| Action::Duplicate { from: opened, onto: sources[from + j] })
}

/// Every reply of `replies` is a success.
pub open spec fn all_succeed(replies: Seq<Result<Descriptor, OsError>>) -> bool {
    forall|j: int| 0 <= j < replies.len() ==> (#[trigger] replies[j]) is Ok
}

/// The rest of a run from the duplication onto `sources[index]`: either every reply
/// succeeds, or the last one fails with `failure`.
proof fn lemma_run_from_duplicating(
    sources: Seq<Descriptor>,
    opened: Descriptor,
    index: usize,
    replies: Seq<Result<Descriptor, OsError>>,
    failure: Option<OsError>,
)
    requires
        index < sources.len() <= usize::MAX,
        replies.len() >= 1,
        replies.len() <= sources.len() - index,
        failure is None ==> replies.len() == sources.len() - index && all_succeed(replies),
        failure is Some ==> {
            &&& replies.last() == Err::<Descriptor, OsError>(failure->0)
            &&& all_succeed(replies.drop_last())
        },
    ensures
        failure is None ==> run(sources, Stage::Duplicating { opened, index }, replies)
            == duplications(sources, opened, index + 1, sources.len() as int)
                + seq![Action::Finish { disposal: Disposal::Release(opened), result: Ok(()) }],
        failure is Some ==> run(sources, Stage::Duplicating { opened, index }, replies)
            == duplications(sources, opened, index + 1, index + replies.len())
                + seq![Action::Finish { disposal: Disposal::Close(opened), result: Err(failure->0) }],
    decreases replies.len(),
{
    let stage = Stage::Duplicating { opened, index };
    let rest = replies.drop_first();
    if replies.len() == 1 {
        if failure is None {
            assert(replies[0] is Ok);
        }
        assert(rest.len() == 0);
        assert(run(sources, transition(sources, stage, replies[0]).0, rest) == Seq::<Action>::empty());
        assert(run(sources, stage, replies) =~= seq![transition(sources, stage, replies[0]).1]);
        if failure is None {
            assert(duplications(sources, opened, index + 1, sources.len() as int) =~= seq![]);
        } else {
            assert(duplications(sources, opened, index + 1, index + 1) =~= seq![]);
        }
    } else {
        assert(replies[0] == replies.drop_last()[0]);
        assert(replies[0] is Ok);
        let next = Stage::Duplicating { opened, index: (index + 1) as usize };
        assert(transition(sources, stage, replies[0]) == (
            next,
            Action::Duplicate { from: opened, onto: sources[index + 1] },
        ));
        if failure is None {
            assert forall|j: int| 0 <= j < rest.len() implies (#[trigger] rest[j]) is Ok by {
                assert(rest[j] == replies[j + 1]);
            }
        } else {
            assert forall|j: int| 0 <= j < rest.drop_last().len() implies (#[trigger] rest.drop_last()[j]) is Ok by {
                assert(rest.drop_last()[j] == replies.drop_last()[j + 1]);
            }
            assert(rest.last() == replies.last());
        }
        lemma_run_from_duplicating(sources, opened, (index + 1) as usize, rest, failure);
        if failure is None {
            assert(duplications(sources, opened, index + 1, sources.len() as int) =~= seq![
                Action::Duplicate { from: opened, onto: sources[index + 1] },
            ] + duplications(sources, opened, index + 2, sources.len() as int));
        } else {
            assert(duplications(sources, opened, index + 1, index + replies.len()) =~= seq![
                Action::Duplicate { from: opened, onto: sources[index + 1] },
            ] + duplications(sources, opened, index + 2, index + replies.len()));
        }
    }
}

/// When the destination opens as `opened` and every duplication succeeds, the procedure
/// makes each source, in order, an alias of `opened`, then releases `opened` and
/// reports success.
pub proof fn lemma_successful_run(
    sources: Seq<Descriptor>,
    opened: Descriptor,
    replies: Seq<Result<Descriptor, OsError>>,
)
    requires
        0 < sources.len() <= usize::MAX,
        replies.len() == sources.len() + 1,
        replies[0] == Ok::<Descriptor, OsError>(opened),
        all_succeed(replies),
    ensures
        run(sources, Stage::Opening, replies)
            == duplications(sources, opened, 0, sources.len() as int)
                + seq![Action::Finish { disposal: Disposal::Release(opened), result: Ok(()) }],
{
    let rest = replies.drop_first();
    assert forall|j: int| 0 <= j < rest.len() implies (#[trigger] rest[j]) is Ok by {
        assert(rest[j] == replies[j + 1]);
    }
    lemma_run_from_duplicating(sources, opened, 0, rest, None);
    assert(duplications(sources, opened, 0, sources.len() as int) =~= seq![
        Action::Duplicate { from: opened, onto: sources[0] },
    ] + duplications(sources, opened, 1, sources.len() as int));
}

/// When the duplication onto `sources[failed]` fails with `e`, after the destination
/// opened as `opened` and the earlier sources were redirected, the procedure stops there:
/// the earlier sources stay redirected, `opened` is closed and `e` is reported as it came.
pub proof fn lemma_failed_duplication(
    sources: Seq<Descriptor>,
    opened: Descriptor,
    failed: int,
    e: OsError,
    replies: Seq<Result<Descriptor, OsError>>,
)
    requires
        sources.len() <= usize::MAX,
        0 <= failed < sources.len(),
        replies.len() == failed + 2,
        replies[0] == Ok::<Descriptor, OsError>(opened),
        all_succeed(replies.drop_last()),
        replies.last() == Err::<Descriptor, OsError>(e),
    ensures
        run(sources, Stage::Opening, replies)
            == duplications(sources, opened, 0, failed + 1)
                + seq![Action::Finish { disposal: Disposal::Close(opened), result: Err(e) }],
{
    let rest = replies.drop_first();
    assert forall|j: int| 0 <= j < rest.drop_last().len() implies (#[trigger] rest.drop_last()[j]) is Ok by {
        assert(rest.drop_last()[j] == replies.drop_last()[j + 1]);
    }
    assert(rest.last() == replies.last());
    lemma_run_from_duplicating(sources, opened, 0, rest, Some(e));
    assert(duplications(sources, opened, 0, failed + 1) =~= seq![
        Action::Duplicate { from: opened, onto: sources[0] },
    ] + duplications(sources, opened, 1, failed + 1));
}

/// When the destination cannot be opened, the procedure ends at once with the system's
/// error as it came: no source is touched and nothing is left open.
pub proof fn lemma_failed_open(sources: Seq<Descriptor>, e: OsError, replies: Seq<Result<Descriptor, OsError>>)
    requires
        replies.len() > 0,
        replies[0] == Err::<Descriptor, OsError>(e),
    ensures
        run(sources, Stage::Opening, replies)
            == seq![Action::Finish { disposal: Disposal::Untouched, result: Err(e) }],
{
    assert(run(sources, Stage::Done, replies.drop_first()) == Seq::<Action>::empty());
    assert(run(sources, Stage::Opening, replies) =~= seq![Action::Finish { disposal: Disposal::Untouched, result: Err(e) }]);
}

impl PathRedirect {
    /// The descriptors to redirect, in order.
    pub closed spec fn sources(&self) -> Seq<Descriptor> {
        self.sources@
    }

    /// Whether the destination is appended to rather than truncated.
    pub closed spec fn append(&self) -> bool {
        self.append
    }

    /// Where the procedure stands.
    pub closed spec fn stage(&self) -> Stage {
        self.stage
    }

    /// The sources are not empty and the stage points at one of them.
    pub open spec fn wf(&self) -> bool {
        &&& self.sources().len() > 0
        &&& match self.stage() {
            Stage::Duplicating { opened, index } => index < self.sources().len(),
            _ => true,
        }
    }

    /// A procedure that redirects each of `sources`, in order, to the path.
    pub fn new(sources: Vec<Descriptor>, append: bool) -> (p: PathRedirect)
        requires
            sources@.len() > 0,
        ensures
            p.wf(),
            p.sources() == sources@,
            p.append() == append,
            p.stage() == Stage::Opening,
    {
        PathRedirect { sources, append, stage: Stage::Opening }
    }

    /// A procedure that redirects one stream to the path.
    pub fn for_source<S: Descriptable>(source: &S, append: bool) -> (p: PathRedirect)
        ensures
            p.wf(),
            p.sources() == seq![source.descriptor()],
            p.append() == append,
            p.stage() == Stage::Opening,
    {
        let fd = source.raw_descriptor();
        let mut sources: Vec<Descriptor> = Vec::new();
        sources.push(fd);
        PathRedirect::new(sources, append)
    }

    /// A procedure that redirects standard output, then standard error, to the path.
    pub fn for_standard_streams(append: bool) -> (p: PathRedirect)
        ensures
            p.wf(),
            p.sources() == seq![STDOUT_DESCRIPTOR, STDERR_DESCRIPTOR],
            p.append() == append,
            p.stage() == Stage::Opening,
    {
        let mut sources: Vec<Descriptor> = Vec::new();
        sources.push(STDOUT_DESCRIPTOR);
        sources.push(STDERR_DESCRIPTOR);
        PathRedirect::new(sources, append)
    }

    /// The action that starts the procedure.
    pub fn first_action(&self) -> (a: Action)
        ensures
            a == (Action::Open { append: self.append() }),
    {
        Action::Open { append: self.append }
    }

    /// Whether the procedure is over.
    pub fn is_finished(&self) -> (r: bool)
        ensures
            r == (self.stage() == Stage::Done),
    {
        match self.stage {
            Stage::Done => true,
            _ => false,
        }
    }

    /// Takes the reply of the call that the last action asked for (the descriptor that
    /// was opened or duplicated onto, or the error) and returns the next action.
    pub fn step(&mut self, reply: Result<Descriptor, OsError>) -> (a: Action)
        requires
            old(self).wf(),
            old(self).stage() != Stage::Done,
        ensures
            final(self).wf(),
            final(self).sources() == old(self).sources(),
            final(self).append() == old(self).append(),
            (final(self).stage(), a) == transition(old(self).sources(), old(self).stage(), reply),
    {
        match (self.stage, reply) {
            (Stage::Opening, Err(e)) => {
                self.stage = Stage::Done;
                Action::Finish { disposal: Disposal::Untouched, result: Err(e) }
            },
            (Stage::Opening, Ok(fd)) => {
                self.stage = Stage::Duplicating { opened: fd, index: 0 };
                Action::Duplicate { from: fd, onto: self.sources[0] }
            },
            (Stage::Duplicating { opened, index }, Err(e)) => {
                self.stage = Stage::Done;
                Action::Finish { disposal: Disposal::Close(opened), result: Err(e) }
            },
            (Stage::Duplicating { opened, index }, Ok(_)) => {
                assert(index < self.sources@.len());
                if index < self.sources.len() - 1 {
                    self.stage = Stage::Duplicating { opened, index: index + 1 };
                    Action::Duplicate { from: opened, onto: self.sources[index + 1] }
                } else {
                    self.stage = Stage::Done;
                    Action::Finish { disposal: Disposal::Release(opened), result: Ok(()) }
                }
            },
            (Stage::Done, _) => Action::Finish { disposal: Disposal::Untouched, result: Ok(()) },
        }
    }
}

} // verus!
