//! Linking and unlinking, one filesystem request at a time.
//!
//! The library never touches the filesystem. An operation is a sequence of
//! steps: each step takes the reply to the request before it, decides, and
//! names the next request, until none is left. The caller begins with
//! `Symlink::resolve_request`, performs each request, and hands its reply to
//! `Symlink::link` or `Symlink::unlink` together with the phase that the step
//! before returned.

use crate::symlink::{
    reply_view, resolved_path, status_after, Reply, ReplyView, StatusView, Symlink, SymlinkStatus,
    SymlinkView,
};
use vstd::prelude::*;

verus! {

/// What the caller is asked to do on the filesystem.
#[derive(Debug, PartialEq, Eq)]
pub enum Request {
    /// Resolve `path` to an absolute path free of symlinks.
    Canonicalize { path: String },
    /// Remove the directory `path` with all it holds.
    RemoveDirAll { path: String },
    /// Remove the file or symlink `path`.
    RemoveFile { path: String },
    /// Create the symlink `link`, pointing to `original`.
    CreateSymlink { original: String, link: String },
    /// Read where the symlink `path` points.
    ReadLink { path: String },
}

/// How far a link operation has come: the request it waits on.
#[derive(Debug, PartialEq, Eq)]
pub enum LinkPhase {
    /// The source is being resolved.
    Resolving,
    /// A directory at the destination is being removed.
    ClearingDir { from: String },
    /// A file at the destination is being removed.
    ClearingFile { from: String },
    /// The symlink is being created.
    Creating,
    /// Nothing is left to do.
    Finished,
}

/// How far an unlink operation has come: the request it waits on.
#[derive(Debug, PartialEq, Eq)]
pub enum UnlinkPhase {
    /// The source is being resolved.
    Resolving,
    /// The destination is being removed, whatever it is.
    Forcing { from: String },
    /// The destination is being read as a link.
    Inspecting { from: String },
    /// The destination is being removed, a link of this tool's making.
    Removing,
    /// Nothing is left to do.
    Finished,
}

/// A request as the contracts speak of it: its paths as text.
pub enum RequestView {
    Canonicalize { path: Seq<char> },
    RemoveDirAll { path: Seq<char> },
    RemoveFile { path: Seq<char> },
    CreateSymlink { original: Seq<char>, link: Seq<char> },
    ReadLink { path: Seq<char> },
}

/// A phase of a link operation as the contracts speak of it.
pub enum LinkPhaseView {
    Resolving,
    ClearingDir { from: Seq<char> },
    ClearingFile { from: Seq<char> },
    Creating,
    Finished,
}

/// A phase of an unlink operation as the contracts speak of it.
pub enum UnlinkPhaseView {
    Resolving,
    Forcing { from: Seq<char> },
    Inspecting { from: Seq<char> },
    Removing,
    Finished,
}

impl View for Request {
    type V = RequestView;

    open spec fn view(&self) -> RequestView {
        match self {
            Request::Canonicalize { path } => RequestView::Canonicalize { path: path@ },
            Request::RemoveDirAll { path } => RequestView::RemoveDirAll { path: path@ },
            Request::RemoveFile { path } => RequestView::RemoveFile { path: path@ },
            Request::CreateSymlink { original, link } => RequestView::CreateSymlink {
                original: original@,
                link: link@,
            },
            Request::ReadLink { path } => RequestView::ReadLink { path: path@ },
        }
    }
}

impl View for LinkPhase {
    type V = LinkPhaseView;

    open spec fn view(&self) -> LinkPhaseView {
        match self {
            LinkPhase::Resolving => LinkPhaseView::Resolving,
            LinkPhase::ClearingDir { from } => LinkPhaseView::ClearingDir { from: from@ },
            LinkPhase::ClearingFile { from } => LinkPhaseView::ClearingFile { from: from@ },
            LinkPhase::Creating => LinkPhaseView::Creating,
            LinkPhase::Finished => LinkPhaseView::Finished,
        }
    }
}

impl View for UnlinkPhase {
    type V = UnlinkPhaseView;

    open spec fn view(&self) -> UnlinkPhaseView {
        match self {
            UnlinkPhase::Resolving => UnlinkPhaseView::Resolving,
            UnlinkPhase::Forcing { from } => UnlinkPhaseView::Forcing { from: from@ },
            UnlinkPhase::Inspecting { from } => UnlinkPhaseView::Inspecting { from: from@ },
            UnlinkPhase::Removing => UnlinkPhaseView::Removing,
            UnlinkPhase::Finished => UnlinkPhaseView::Finished,
        }
    }
}

impl Clone for Request {
    fn clone(&self) -> (r: Self)
        ensures
            r@ == self@,
    {
        match self {
            Request::Canonicalize { path } => Request::Canonicalize { path: path.clone() },
            Request::RemoveDirAll { path } => Request::RemoveDirAll { path: path.clone() },
            Request::RemoveFile { path } => Request::RemoveFile { path: path.clone() },
            Request::CreateSymlink { original, link } => Request::CreateSymlink {
                original: original.clone(),
                link: link.clone(),
            },
            Request::ReadLink { path } => Request::ReadLink { path: path.clone() },
        }
    }
}

impl Clone for LinkPhase {
    fn clone(&self) -> (r: Self)
        ensures
            r@ == self@,
    {
        match self {
            LinkPhase::Resolving => LinkPhase::Resolving,
            LinkPhase::ClearingDir { from } => LinkPhase::ClearingDir { from: from.clone() },
            LinkPhase::ClearingFile { from } => LinkPhase::ClearingFile { from: from.clone() },
            LinkPhase::Creating => LinkPhase::Creating,
            LinkPhase::Finished => LinkPhase::Finished,
        }
    }
}

impl Clone for UnlinkPhase {
    fn clone(&self) -> (r: Self)
        ensures
            r@ == self@,
    {
        match self {
            UnlinkPhase::Resolving => UnlinkPhase::Resolving,
            UnlinkPhase::Forcing { from } => UnlinkPhase::Forcing { from: from.clone() },
            UnlinkPhase::Inspecting { from } => UnlinkPhase::Inspecting { from: from.clone() },
            UnlinkPhase::Removing => UnlinkPhase::Removing,
            UnlinkPhase::Finished => UnlinkPhase::Finished,
        }
    }
}

/// The text of an optional request.
pub open spec fn request_view(request: Option<Request>) -> Option<RequestView> {
    match request {
        Some(r) => Some(r@),
        None => None,
    }
}

/// The reason given when unlinking is refused because the destination is not
/// a link to the resolved source.
pub open spec fn refusal() -> Seq<char> {
    "Symlink wasn't created by home-symlink."@
}

/// One step of a link operation: the symlink after it, the phase that
/// follows, and the request to perform next, if any.
pub struct LinkStep {
    pub symlink: SymlinkView,
    pub phase: LinkPhaseView,
    pub request: Option<RequestView>,
}

/// One step of an unlink operation: the symlink after it, the phase that
/// follows, and the request to perform next, if any.
pub struct UnlinkStep {
    pub symlink: SymlinkView,
    pub phase: UnlinkPhaseView,
    pub request: Option<RequestView>,
}

impl SymlinkView {
    /// The request that begins every operation: resolve the source.
    pub open spec fn resolve_request(self) -> RequestView {
        RequestView::Canonicalize { path: self.source_path() }
    }

    /// The request that creates the link from the resolved source `from`.
    pub open spec fn create_request(self, from: Seq<char>) -> RequestView {
        RequestView::CreateSymlink { original: from, link: self.to_path() }
    }

    /// The step that a link operation takes in `phase` on `reply`.
    ///
    /// Once the source is resolved, a forced operation first clears the
    /// destination: it removes a directory there and, only if that fails, a
    /// file; a failure of both becomes the status, and the operation goes on.
    /// Then the link is created, and the outcome of that alone decides the
    /// final status.
    pub open spec fn link_step(self, force: bool, phase: LinkPhaseView, reply: ReplyView) -> LinkStep {
        let to = self.to_path();
        match phase {
            LinkPhaseView::Resolving => {
                let from = resolved_path(reply);
                if force {
                    LinkStep {
                        symlink: self.resolved(reply),
                        phase: LinkPhaseView::ClearingDir { from },
                        request: Some(RequestView::RemoveDirAll { path: to }),
                    }
                } else {
                    LinkStep {
                        symlink: self.resolved(reply),
                        phase: LinkPhaseView::Creating,
                        request: Some(self.create_request(from)),
                    }
                }
            },
            LinkPhaseView::ClearingDir { from } => match reply {
                Ok(_) => LinkStep {
                    symlink: self,
                    phase: LinkPhaseView::Creating,
                    request: Some(self.create_request(from)),
                },
                Err(_) => LinkStep {
                    symlink: self,
                    phase: LinkPhaseView::ClearingFile { from },
                    request: Some(RequestView::RemoveFile { path: to }),
                },
            },
            LinkPhaseView::ClearingFile { from } => LinkStep {
                symlink: self.with_status(status_after(reply, self.status)),
                phase: LinkPhaseView::Creating,
                request: Some(self.create_request(from)),
            },
            LinkPhaseView::Creating => LinkStep {
                symlink: self.with_status(status_after(reply, StatusView::Linked)),
                phase: LinkPhaseView::Finished,
                request: None,
            },
            LinkPhaseView::Finished => LinkStep {
                symlink: self,
                phase: LinkPhaseView::Finished,
                request: None,
            },
        }
    }

    /// The step that an unlink operation takes in `phase` on `reply`.
    ///
    /// Once the source is resolved, a forced operation removes the
    /// destination unseen and records the outcome. Forced or not, the
    /// destination is then read as a link: only if it points to the resolved
    /// source is it removed, and the outcome recorded; otherwise the
    /// operation ends with the refusal as its status.
    pub open spec fn unlink_step(
        self,
        force: bool,
        phase: UnlinkPhaseView,
        reply: ReplyView,
    ) -> UnlinkStep {
        let to = self.to_path();
        match phase {
            UnlinkPhaseView::Resolving => {
                let from = resolved_path(reply);
                if force {
                    UnlinkStep {
                        symlink: self.resolved(reply),
                        phase: UnlinkPhaseView::Forcing { from },
                        request: Some(RequestView::RemoveFile { path: to }),
                    }
                } else {
                    UnlinkStep {
                        symlink: self.resolved(reply),
                        phase: UnlinkPhaseView::Inspecting { from },
                        request: Some(RequestView::ReadLink { path: to }),
                    }
                }
            },
            UnlinkPhaseView::Forcing { from } => UnlinkStep {
                symlink: self.with_status(status_after(reply, StatusView::Unlinked)),
                phase: UnlinkPhaseView::Inspecting { from },
                request: Some(RequestView::ReadLink { path: to }),
            },
            UnlinkPhaseView::Inspecting { from } => if reply == Ok::<Seq<char>, Seq<char>>(from) {
                UnlinkStep {
                    symlink: self,
                    phase: UnlinkPhaseView::Removing,
                    request: Some(RequestView::RemoveFile { path: to }),
                }
            } else {
                UnlinkStep {
                    symlink: self.with_status(StatusView::Error { reason: refusal() }),
                    phase: UnlinkPhaseView::Finished,
                    request: None,
                }
            },
            UnlinkPhaseView::Removing => UnlinkStep {
                symlink: self.with_status(status_after(reply, StatusView::Unlinked)),
                phase: UnlinkPhaseView::Finished,
                request: None,
            },
            UnlinkPhaseView::Finished => UnlinkStep {
                symlink: self,
                phase: UnlinkPhaseView::Finished,
                request: None,
            },
        }
    }
}

/// What a link operation has come to: the symlink, the phase, and the
/// requests issued so far, in order.
pub struct LinkRun {
    pub symlink: SymlinkView,
    pub phase: LinkPhaseView,
    pub requests: Seq<RequestView>,
}

/// What an unlink operation has come to: the symlink, the phase, and the
/// requests issued so far, in order.
pub struct UnlinkRun {
    pub symlink: SymlinkView,
    pub phase: UnlinkPhaseView,
    pub requests: Seq<RequestView>,
}

/// `requests` with `request` before them, if there is one.
pub open spec fn prepend(request: Option<RequestView>, requests: Seq<RequestView>) -> Seq<
    RequestView,
> {
    match request {
        Some(r) => seq![r] + requests,
        None => requests,
    }
}

/// Whether `request` removes anything from the filesystem.
pub open spec fn removes(request: RequestView) -> bool {
    request is RemoveFile || request is RemoveDirAll
}

impl SymlinkView {
    /// A link operation that stands in `phase` and then takes a step on each
    /// of `replies` in turn.
    pub open spec fn link_from(
        self,
        force: bool,
        phase: LinkPhaseView,
        replies: Seq<ReplyView>,
    ) -> LinkRun
        decreases replies.len(),
    {
        if replies.len() == 0 {
            LinkRun { symlink: self, phase, requests: Seq::empty() }
        } else {
            let step = self.link_step(force, phase, replies.first());
            let rest = step.symlink.link_from(force, step.phase, replies.drop_first());
            LinkRun { requests: prepend(step.request, rest.requests), ..rest }
        }
    }

    /// A link operation from its beginning: the caller performs
    /// `resolve_request()` and each request after it, and `replies` are the
    /// answers in order.
    pub open spec fn link_run(self, force: bool, replies: Seq<ReplyView>) -> LinkRun {
        let run = self.link_from(force, LinkPhaseView::Resolving, replies);
        LinkRun { requests: seq![self.resolve_request()] + run.requests, ..run }
    }

    /// An unlink operation that stands in `phase` and then takes a step on
    /// each of `replies` in turn.
    pub open spec fn unlink_from(
        self,
        force: bool,
        phase: UnlinkPhaseView,
        replies: Seq<ReplyView>,
    ) -> UnlinkRun
        decreases replies.len(),
    {
        if replies.len() == 0 {
            UnlinkRun { symlink: self, phase, requests: Seq::empty() }
        } else {
            let step = self.unlink_step(force, phase, replies.first());
            let rest = step.symlink.unlink_from(force, step.phase, replies.drop_first());
            UnlinkRun { requests: prepend(step.request, rest.requests), ..rest }
        }
    }

    /// An unlink operation from its beginning: the caller performs
    /// `resolve_request()` and each request after it, and `replies` are the
    /// answers in order.
    pub open spec fn unlink_run(self, force: bool, replies: Seq<ReplyView>) -> UnlinkRun {
        let run = self.unlink_from(force, UnlinkPhaseView::Resolving, replies);
        UnlinkRun { requests: seq![self.resolve_request()] + run.requests, ..run }
    }
}

/// A finished link operation stays as it is, whatever replies follow.
pub proof fn lemma_link_finished(symlink: SymlinkView, force: bool, replies: Seq<ReplyView>)
    ensures
        symlink.link_from(force, LinkPhaseView::Finished, replies) == (LinkRun {
            symlink,
            phase: LinkPhaseView::Finished,
            requests: Seq::empty(),
        }),
    decreases replies.len(),
{
    if replies.len() > 0 {
        lemma_link_finished(symlink, force, replies.drop_first());
    }
}

/// A finished unlink operation stays as it is, whatever replies follow.
pub proof fn lemma_unlink_finished(symlink: SymlinkView, force: bool, replies: Seq<ReplyView>)
    ensures
        symlink.unlink_from(force, UnlinkPhaseView::Finished, replies) == (UnlinkRun {
            symlink,
            phase: UnlinkPhaseView::Finished,
            requests: Seq::empty(),
        }),
    decreases replies.len(),
{
    if replies.len() > 0 {
        lemma_unlink_finished(symlink, force, replies.drop_first());
    }
}

/// An unforced link operation resolves the source and creates the link,
/// and nothing else; the outcome of the creation is its final status.
pub proof fn lemma_link_unforced(symlink: SymlinkView, replies: Seq<ReplyView>)
    requires
        replies.len() >= 2,
    ensures
        ({
            let run = symlink.link_run(false, replies);
            &&& run.phase is Finished
            &&& run.requests == seq![
                symlink.resolve_request(),
                symlink.create_request(resolved_path(replies[0])),
            ]
            &&& run.symlink == symlink.with_status(status_after(replies[1], StatusView::Linked))
        }),
{
    reveal_with_fuel(SymlinkView::link_from, 3);
    let first = symlink.link_step(false, LinkPhaseView::Resolving, replies[0]);
    let second = first.symlink.link_step(false, first.phase, replies[1]);
    lemma_link_finished(second.symlink, false, replies.drop_first().drop_first());
    let run = symlink.link_run(false, replies);
    assert(run.requests =~= seq![
        symlink.resolve_request(),
        symlink.create_request(resolved_path(replies[0])),
    ]);
}

/// A forced link operation clears the destination before it creates the
/// link: it asks to remove a directory there and, only where that fails, a
/// file. Whatever the clearing comes to, the link is then created, and the
/// outcome of the creation is the final status.
pub proof fn lemma_link_forced(symlink: SymlinkView, replies: Seq<ReplyView>)
    requires
        replies.len() >= 4,
    ensures
        ({
            let run = symlink.link_run(true, replies);
            let to = symlink.to_path();
            let create = symlink.create_request(resolved_path(replies[0]));
            &&& run.phase is Finished
            &&& replies[1] is Ok ==> {
                &&& run.requests == seq![
                    symlink.resolve_request(),
                    RequestView::RemoveDirAll { path: to },
                    create,
                ]
                &&& run.symlink == symlink.with_status(
                    status_after(replies[2], StatusView::Linked),
                )
            }
            &&& replies[1] is Err ==> {
                &&& run.requests == seq![
                    symlink.resolve_request(),
                    RequestView::RemoveDirAll { path: to },
                    RequestView::RemoveFile { path: to },
                    create,
                ]
                &&& run.symlink == symlink.with_status(
                    status_after(replies[3], StatusView::Linked),
                )
            }
        }),
{
    reveal_with_fuel(SymlinkView::link_from, 5);
    let r1 = replies.drop_first();
    let r2 = r1.drop_first();
    let r3 = r2.drop_first();
    let r4 = r3.drop_first();
    let s1 = symlink.link_step(true, LinkPhaseView::Resolving, replies[0]);
    let s2 = s1.symlink.link_step(true, s1.phase, replies[1]);
    let s3 = s2.symlink.link_step(true, s2.phase, replies[2]);
    let s4 = s3.symlink.link_step(true, s3.phase, replies[3]);
    assert(r1.first() == replies[1] && r2.first() == replies[2] && r3.first() == replies[3]);
    lemma_link_finished(s3.symlink, true, r3);
    lemma_link_finished(s4.symlink, true, r4);
    let run = symlink.link_run(true, replies);
    let to = symlink.to_path();
    let create = symlink.create_request(resolved_path(replies[0]));
    if replies[1] is Ok {
        assert(run.requests =~= seq![
            symlink.resolve_request(),
            RequestView::RemoveDirAll { path: to },
            create,
        ]);
    } else {
        assert(run.requests =~= seq![
            symlink.resolve_request(),
            RequestView::RemoveDirAll { path: to },
            RequestView::RemoveFile { path: to },
            create,
        ]);
    }
}

/// Where a link operation has finished with the status linked, the last
/// thing it asked for was the link at the destination, pointing to the
/// resolved source. A probe that then finds the source resolved as before and
/// the destination linked to it reports the symlink as linked.
pub proof fn lemma_probe_after_link(symlink: SymlinkView, force: bool, replies: Seq<ReplyView>)
    requires
        symlink.link_run(force, replies).phase is Finished,
        symlink.link_run(force, replies).symlink.status is Linked,
    ensures
        replies.len() >= 2,
        ({
            let run = symlink.link_run(force, replies);
            let from = resolved_path(replies[0]);
            &&& run.requests.last() == (RequestView::CreateSymlink {
                original: from,
                link: symlink.to_path(),
            })
            &&& run.symlink.probed(replies[0], Ok(from)).status is Linked
        }),
{
    reveal_with_fuel(SymlinkView::link_from, 5);
    let r1 = replies.drop_first();
    let r2 = r1.drop_first();
    let r3 = r2.drop_first();
    let r4 = r3.drop_first();
    let s1 = symlink.link_step(force, LinkPhaseView::Resolving, replies[0]);
    let s2 = s1.symlink.link_step(force, s1.phase, replies[1]);
    let s3 = s2.symlink.link_step(force, s2.phase, replies[2]);
    let s4 = s3.symlink.link_step(force, s3.phase, replies[3]);
    if replies.len() >= 2 {
        assert(r1.first() == replies[1]);
        lemma_link_finished(s2.symlink, force, r2);
    }
    if replies.len() >= 3 {
        assert(r2.first() == replies[2]);
        lemma_link_finished(s3.symlink, force, r3);
    }
    if replies.len() >= 4 {
        assert(r3.first() == replies[3]);
        lemma_link_finished(s4.symlink, force, r4);
    }
}

/// An unforced unlink operation removes the destination only after it has
/// read it as a link to the resolved source. Where the destination is
/// anything else, the operation asks for no removal at all and ends with the
/// refusal as its status.
pub proof fn lemma_unlink_unforced(symlink: SymlinkView, replies: Seq<ReplyView>)
    requires
        replies.len() >= 3,
    ensures
        ({
            let run = symlink.unlink_run(false, replies);
            let to = symlink.to_path();
            let owned = replies[1] == Ok::<Seq<char>, Seq<char>>(resolved_path(replies[0]));
            &&& run.phase is Finished
            &&& owned ==> {
                &&& run.requests == seq![
                    symlink.resolve_request(),
                    RequestView::ReadLink { path: to },
                    RequestView::RemoveFile { path: to },
                ]
                &&& run.symlink == symlink.with_status(
                    status_after(replies[2], StatusView::Unlinked),
                )
            }
            &&& !owned ==> {
                &&& run.requests == seq![
                    symlink.resolve_request(),
                    RequestView::ReadLink { path: to },
                ]
                &&& run.symlink == symlink.with_status(StatusView::Error { reason: refusal() })
                &&& forall|i: int| 0 <= i < run.requests.len() ==> !removes(#[trigger] run.requests[i])
            }
        }),
{
    reveal_with_fuel(SymlinkView::unlink_from, 4);
    let r1 = replies.drop_first();
    let r2 = r1.drop_first();
    let r3 = r2.drop_first();
    let s1 = symlink.unlink_step(false, UnlinkPhaseView::Resolving, replies[0]);
    let s2 = s1.symlink.unlink_step(false, s1.phase, replies[1]);
    let s3 = s2.symlink.unlink_step(false, s2.phase, replies[2]);
    assert(r1.first() == replies[1] && r2.first() == replies[2]);
    lemma_unlink_finished(s2.symlink, false, r2);
    lemma_unlink_finished(s3.symlink, false, r3);
    let run = symlink.unlink_run(false, replies);
    let to = symlink.to_path();
    if replies[1] == Ok::<Seq<char>, Seq<char>>(resolved_path(replies[0])) {
        assert(run.requests =~= seq![
            symlink.resolve_request(),
            RequestView::ReadLink { path: to },
            RequestView::RemoveFile { path: to },
        ]);
    } else {
        assert(run.requests =~= seq![
            symlink.resolve_request(),
            RequestView::ReadLink { path: to },
        ]);
    }
}

/// A forced unlink operation asks to remove the destination as soon as the
/// source is resolved, before anything is known of the destination. It then
/// inspects the destination all the same: where that is no link to the
/// resolved source, as after a removal that succeeded, the operation ends
/// with the refusal as its status.
pub proof fn lemma_unlink_forced(symlink: SymlinkView, replies: Seq<ReplyView>)
    requires
        replies.len() >= 4,
    ensures
        ({
            let run = symlink.unlink_run(true, replies);
            let to = symlink.to_path();
            let owned = replies[2] == Ok::<Seq<char>, Seq<char>>(resolved_path(replies[0]));
            &&& run.phase is Finished
            &&& run.requests.len() >= 3
            &&& run.requests[0] == symlink.resolve_request()
            &&& run.requests[1] == (RequestView::RemoveFile { path: to })
            &&& run.requests[2] == (RequestView::ReadLink { path: to })
            &&& owned ==> {
                &&& run.requests.len() == 4
                &&& run.requests[3] == (RequestView::RemoveFile { path: to })
                &&& run.symlink == symlink.with_status(
                    status_after(replies[3], StatusView::Unlinked),
                )
            }
            &&& !owned ==> {
                &&& run.requests.len() == 3
                &&& run.symlink == symlink.with_status(StatusView::Error { reason: refusal() })
            }
        }),
{
    reveal_with_fuel(SymlinkView::unlink_from, 5);
    let r1 = replies.drop_first();
    let r2 = r1.drop_first();
    let r3 = r2.drop_first();
    let r4 = r3.drop_first();
    let s1 = symlink.unlink_step(true, UnlinkPhaseView::Resolving, replies[0]);
    let s2 = s1.symlink.unlink_step(true, s1.phase, replies[1]);
    let s3 = s2.symlink.unlink_step(true, s2.phase, replies[2]);
    let s4 = s3.symlink.unlink_step(true, s3.phase, replies[3]);
    assert(r1.first() == replies[1] && r2.first() == replies[2] && r3.first() == replies[3]);
    lemma_unlink_finished(s3.symlink, true, r3);
    lemma_unlink_finished(s4.symlink, true, r4);
}

impl Symlink {
    /// The request that begins a link or an unlink operation.
    pub fn resolve_request(&self) -> (r: Request)
        ensures
            r@ == self@.resolve_request(),
    {
        Request::Canonicalize { path: self.source_path() }
    }

    /// The two requests whose replies a probe takes, in the order in which
    /// `probe` takes them: resolve the source, and read the destination as a
    /// link.
    pub fn probe_requests(&self) -> (r: (Request, Request))
        ensures
            r.0@ == self@.resolve_request(),
            r.1@ == (RequestView::ReadLink { path: self@.to_path() }),
    {
        (self.resolve_request(), Request::ReadLink { path: self.to_path().clone() })
    }

    /// Records the outcome of a request whose failure becomes the status and
    /// whose success makes the status `otherwise`.
    fn record(&mut self, reply: Reply, otherwise: SymlinkStatus)
        ensures
            final(self)@ == old(self)@.with_status(status_after(reply_view(reply), otherwise@)),
    {
        match reply {
            Ok(_) => {
                self.status = otherwise;
            },
            Err(reason) => {
                self.status = SymlinkStatus::Error { reason };
            },
        }
    }

    /// The request that creates the link from the resolved source `from`.
    fn create_request(&self, from: String) -> (r: Request)
        ensures
            r@ == self@.create_request(from@),
    {
        Request::CreateSymlink { original: from, link: self.to_path().clone() }
    }

    /// Takes one step of a link operation: `reply` answers the request that
    /// `phase` waits on. Returns the next phase and the next request; there
    /// is none once the operation has finished. `force` asks to clear the
    /// destination before the link is created.
    pub fn link(&mut self, force: bool, phase: LinkPhase, reply: Reply) -> (r: (
        LinkPhase,
        Option<Request>,
    ))
        ensures
            final(self)@ == old(self)@.link_step(force, phase@, reply_view(reply)).symlink,
            r.0@ == old(self)@.link_step(force, phase@, reply_view(reply)).phase,
            request_view(r.1) == old(self)@.link_step(force, phase@, reply_view(reply)).request,
    {
        match phase {
            LinkPhase::Resolving => {
                let from = self.from_path(reply);
                if force {
                    let path = self.to_path().clone();
                    (LinkPhase::ClearingDir { from }, Some(Request::RemoveDirAll { path }))
                } else {
                    (LinkPhase::Creating, Some(self.create_request(from)))
                }
            },
            LinkPhase::ClearingDir { from } => match reply {
                Ok(_) => (LinkPhase::Creating, Some(self.create_request(from))),
                Err(_) => {
                    let path = self.to_path().clone();
                    (LinkPhase::ClearingFile { from }, Some(Request::RemoveFile { path }))
                },
            },
            LinkPhase::ClearingFile { from } => {
                let unchanged = self.status.clone();
                self.record(reply, unchanged);
                (LinkPhase::Creating, Some(self.create_request(from)))
            },
            LinkPhase::Creating => {
                self.record(reply, SymlinkStatus::Linked);
                (LinkPhase::Finished, None)
            },
            LinkPhase::Finished => (LinkPhase::Finished, None),
        }
    }

    /// Takes one step of an unlink operation: `reply` answers the request
    /// that `phase` waits on. Returns the next phase and the next request;
    /// there is none once the operation has finished. `force` asks to remove
    /// the destination before it is inspected.
    pub fn unlink(&mut self, force: bool, phase: UnlinkPhase, reply: Reply) -> (r: (
        UnlinkPhase,
        Option<Request>,
    ))
        ensures
            final(self)@ == old(self)@.unlink_step(force, phase@, reply_view(reply)).symlink,
            r.0@ == old(self)@.unlink_step(force, phase@, reply_view(reply)).phase,
            request_view(r.1) == old(self)@.unlink_step(force, phase@, reply_view(reply)).request,
    {
        match phase {
            UnlinkPhase::Resolving => {
                let from = self.from_path(reply);
                let path = self.to_path().clone();
                if force {
                    (UnlinkPhase::Forcing { from }, Some(Request::RemoveFile { path }))
                } else {
                    (UnlinkPhase::Inspecting { from }, Some(Request::ReadLink { path }))
                }
            },
            UnlinkPhase::Forcing { from } => {
                self.record(reply, SymlinkStatus::Unlinked);
                let path = self.to_path().clone();
                (UnlinkPhase::Inspecting { from }, Some(Request::ReadLink { path }))
            },
            UnlinkPhase::Inspecting { from } => {
                let owned = match reply {
                    Ok(target) => target == from,
                    Err(_) => false,
                };
                if owned {
                    let path = self.to_path().clone();
                    (UnlinkPhase::Removing, Some(Request::RemoveFile { path }))
                } else {
                    self.status = SymlinkStatus::Error {
                        reason: String::from_str("Symlink wasn't created by home-symlink."),
                    };
                    (UnlinkPhase::Finished, None)
                }
            },
            UnlinkPhase::Removing => {
                self.record(reply, SymlinkStatus::Unlinked);
                (UnlinkPhase::Finished, None)
            },
            UnlinkPhase::Finished => (UnlinkPhase::Finished, None),
        }
    }
}

} // verus!
