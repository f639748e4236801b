//! One declared symlink: what it links, where, and its current status.

use crate::path::{expand_home, expanded, join, joined, opt_text};
use crate::text::{
    blank_between, chars_of, find, is_white_space, lemma_position, lemma_trimmed,
    lemma_trimmed_within, position, trim_range, trimmed,
};
use vstd::prelude::*;

verus! {

/// The state of a declared symlink, as last observed or as an operation
/// left it. Every failure ends here, with its cause as text.
#[derive(Debug)]
pub enum SymlinkStatus {
    Unlinked,
    Linked,
    Error { reason: String },
}

/// What a symlink declares.
#[derive(Debug)]
pub enum SymlinkKind {
    /// The package directory itself is linked at `target`.
    Whole { target: String },
    /// The path `from`, relative to the package directory, is linked at `to`.
    Mapped { from: String, to: String },
}

/// A declared symlink of the package directory `base`.
#[derive(Debug)]
pub struct Symlink {
    pub status: SymlinkStatus,
    pub base: String,
    pub kind: SymlinkKind,
}

/// The answer to a filesystem request: the path that was asked for (empty
/// where the request asks for none), or the cause of the failure.
pub type Reply = Result<String, String>;

/// A status as the contracts speak of it: the reason of an error as text.
pub enum StatusView {
    Unlinked,
    Linked,
    Error { reason: Seq<char> },
}

/// A declaration as the contracts speak of it: its paths as text.
pub enum KindView {
    Whole { target: Seq<char> },
    Mapped { from: Seq<char>, to: Seq<char> },
}

/// A symlink as the contracts speak of it.
pub struct SymlinkView {
    pub status: StatusView,
    pub base: Seq<char>,
    pub kind: KindView,
}

/// A reply as the contracts speak of it.
pub type ReplyView = Result<Seq<char>, Seq<char>>;

impl View for SymlinkStatus {
    type V = StatusView;

    open spec fn view(&self) -> StatusView {
        match self {
            SymlinkStatus::Unlinked => StatusView::Unlinked,
            SymlinkStatus::Linked => StatusView::Linked,
            SymlinkStatus::Error { reason } => StatusView::Error { reason: reason@ },
        }
    }
}

impl View for SymlinkKind {
    type V = KindView;

    open spec fn view(&self) -> KindView {
        match self {
            SymlinkKind::Whole { target } => KindView::Whole { target: target@ },
            SymlinkKind::Mapped { from, to } => KindView::Mapped { from: from@, to: to@ },
        }
    }
}

impl View for Symlink {
    type V = SymlinkView;

    open spec fn view(&self) -> SymlinkView {
        SymlinkView { status: self.status@, base: self.base@, kind: self.kind@ }
    }
}

/// The text of a reply.
pub open spec fn reply_view(reply: Reply) -> ReplyView {
    match reply {
        Ok(path) => Ok(path@),
        Err(reason) => Err(reason@),
    }
}

/// The status that the failure of an operation leaves, or `otherwise` where
/// it succeeded.
pub open spec fn status_after(reply: ReplyView, otherwise: StatusView) -> StatusView {
    match reply {
        Ok(_) => otherwise,
        Err(reason) => StatusView::Error { reason },
    }
}

/// The source path that a resolution yields: the canonical path, or the
/// empty path where the source could not be resolved.
pub open spec fn resolved_path(resolved: ReplyView) -> Seq<char> {
    match resolved {
        Ok(path) => path,
        Err(_) => Seq::empty(),
    }
}

impl SymlinkView {
    /// The declared destination of the link.
    pub open spec fn to_path(self) -> Seq<char> {
        match self.kind {
            KindView::Whole { target } => target,
            KindView::Mapped { to, .. } => to,
        }
    }

    /// The declared source of the link, before it is resolved: the package
    /// directory itself, or the declared path within it.
    pub open spec fn source_path(self) -> Seq<char> {
        match self.kind {
            KindView::Whole { .. } => self.base,
            KindView::Mapped { from, .. } => joined(self.base, from),
        }
    }

    /// This symlink with another status.
    pub open spec fn with_status(self, status: StatusView) -> SymlinkView {
        SymlinkView { status, ..self }
    }

    /// This symlink once its source has been resolved: a failure becomes its
    /// status, a success leaves the status alone.
    pub open spec fn resolved(self, resolved: ReplyView) -> SymlinkView {
        self.with_status(status_after(resolved, self.status))
    }

    /// This symlink once it has been probed. `resolved` is the outcome of
    /// resolving its source, `target` that of reading the destination as a
    /// link. It is linked exactly if the destination is a link to the
    /// resolved source.
    pub open spec fn probed(self, resolved: ReplyView, target: ReplyView) -> SymlinkView {
        if target == Ok::<Seq<char>, Seq<char>>(resolved_path(resolved)) {
            self.with_status(StatusView::Linked)
        } else {
            self.resolved(resolved)
        }
    }
}

/// The symlink that one line of a declaration file declares for the package
/// directory `base`, if any. A blank line declares none. A line without `=`
/// declares the whole directory linked at the path it names. Any other line
/// maps what stands before its first `=` to what stands after it. White space
/// around the line and around each part does not count, and the home
/// shorthand is expanded in each path.
pub open spec fn parsed(base: Seq<char>, line: Seq<char>, home: Option<Seq<char>>) -> Option<
    SymlinkView,
> {
    let text = trimmed(line);
    let at = position(text, '=');
    if text.len() == 0 {
        None
    } else if at == text.len() {
        Some(
            SymlinkView {
                status: StatusView::Unlinked,
                base,
                kind: KindView::Whole { target: expanded(text, home) },
            },
        )
    } else {
        Some(
            SymlinkView {
                status: StatusView::Unlinked,
                base,
                kind: KindView::Mapped {
                    from: expanded(trimmed(text.take(at)), home),
                    to: expanded(trimmed(text.skip(at + 1)), home),
                },
            },
        )
    }
}

/// A line that is not blank and holds no `=` declares the whole package
/// directory linked at the path that the line names: the line, trimmed and
/// expanded.
pub proof fn lemma_parsed_whole(base: Seq<char>, line: Seq<char>, home: Option<Seq<char>>)
    requires
        !line.contains('='),
        !blank_between(line, 0, line.len() as int),
    ensures
        parsed(base, line, home) == Some(
            SymlinkView {
                status: StatusView::Unlinked,
                base,
                kind: KindView::Whole { target: expanded(trimmed(line), home) },
            },
        ),
{
    let (lo, hi) = lemma_trimmed(line);
    let text = trimmed(line);
    lemma_position(text, '=');
    if text.contains('=') {
        let i = choose|i: int| 0 <= i < text.len() && text[i] == '=';
        assert(line[lo + i] == '=');
    }
}

/// A line that holds `=` maps what stands before the first `=` to what stands
/// after it: each side of the line, trimmed and expanded.
pub proof fn lemma_parsed_mapped(base: Seq<char>, line: Seq<char>, home: Option<Seq<char>>)
    requires
        line.contains('='),
    ensures
        parsed(base, line, home) == Some(
            SymlinkView {
                status: StatusView::Unlinked,
                base,
                kind: KindView::Mapped {
                    from: expanded(trimmed(line.take(position(line, '='))), home),
                    to: expanded(trimmed(line.skip(position(line, '=') + 1)), home),
                },
            },
        ),
{
    let (lo, hi) = lemma_trimmed(line);
    let text = trimmed(line);
    let at = position(line, '=');
    lemma_position(line, '=');
    lemma_position(text, '=');
    assert(lo <= at < hi) by {
        if at < lo {
            assert(is_white_space(line[at]));
        }
        if at >= hi {
            assert(is_white_space(line[at]));
        }
    }
    assert(text[at - lo] == '=');
    let found = position(text, '=');
    assert(found == at - lo) by {
        if found < at - lo {
            assert(text[found] == line[lo + found]);
        }
    }
    let before = line.take(at);
    assert forall|i: int| 0 <= i < lo implies is_white_space(#[trigger] before[i]) by {
        assert(before[i] == line[i]);
    }
    lemma_trimmed_within(before, lo, at);
    assert(before.subrange(lo, at) == text.take(found));
    let after = line.skip(at + 1);
    assert forall|i: int| hi - at - 1 <= i < after.len() implies is_white_space(
        #[trigger] after[i],
    ) by {
        assert(after[i] == line[at + 1 + i]);
    }
    lemma_trimmed_within(after, 0, hi - at - 1);
    assert(after.subrange(0, hi - at - 1) == text.skip(found + 1));
}

/// A line declares nothing exactly if it is blank: empty, or white space
/// from end to end.
pub proof fn lemma_parsed_blank(base: Seq<char>, line: Seq<char>, home: Option<Seq<char>>)
    ensures
        parsed(base, line, home) is None <==> blank_between(line, 0, line.len() as int),
{
    let (lo, hi) = lemma_trimmed(line);
    if blank_between(line, 0, line.len() as int) {
        if lo < hi {
            assert(is_white_space(line[lo]));
        }
    }
}

/// Probing is idempotent: a second probe that observes what the first one
/// observed leaves the symlink as the first one left it.
pub proof fn lemma_probe_idempotent(symlink: SymlinkView, resolved: ReplyView, target: ReplyView)
    ensures
        symlink.probed(resolved, target).probed(resolved, target) == symlink.probed(
            resolved,
            target,
        ),
{
}

impl Clone for SymlinkStatus {
    fn clone(&self) -> (r: Self)
        ensures
            r@ == self@,
    {
        match self {
            SymlinkStatus::Unlinked => SymlinkStatus::Unlinked,
            SymlinkStatus::Linked => SymlinkStatus::Linked,
            SymlinkStatus::Error { reason } => SymlinkStatus::Error { reason: reason.clone() },
        }
    }
}

impl Clone for SymlinkKind {
    fn clone(&self) -> (r: Self)
        ensures
            r@ == self@,
    {
        match self {
            SymlinkKind::Whole { target } => SymlinkKind::Whole { target: target.clone() },
            SymlinkKind::Mapped { from, to } => SymlinkKind::Mapped { from: from.clone(), to: to.clone() },
        }
    }
}

impl Clone for Symlink {
    fn clone(&self) -> (r: Self)
        ensures
            r@ == self@,
    {
        Symlink { status: self.status.clone(), base: self.base.clone(), kind: self.kind.clone() }
    }
}

impl PartialEq for SymlinkStatus {
    fn eq(&self, other: &Self) -> (r: bool) {
        match (self, other) {
            (SymlinkStatus::Unlinked, SymlinkStatus::Unlinked) => true,
            (SymlinkStatus::Linked, SymlinkStatus::Linked) => true,
            (SymlinkStatus::Error { reason: a }, SymlinkStatus::Error { reason: b }) => *a == *b,
            _ => false,
        }
    }
}

impl vstd::std_specs::cmp::PartialEqSpecImpl for SymlinkStatus {
    open spec fn obeys_eq_spec() -> bool {
        true
    }

    open spec fn eq_spec(&self, other: &Self) -> bool {
        self@ == other@
    }
}

impl Eq for SymlinkStatus {

}

impl PartialEq for SymlinkKind {
    fn eq(&self, other: &Self) -> (r: bool) {
        match (self, other) {
            (SymlinkKind::Whole { target: a }, SymlinkKind::Whole { target: b }) => *a == *b,
            (SymlinkKind::Mapped { from: a, to: b }, SymlinkKind::Mapped { from: c, to: d }) => *a
                == *c && *b == *d,
            _ => false,
        }
    }
}

impl vstd::std_specs::cmp::PartialEqSpecImpl for SymlinkKind {
    open spec fn obeys_eq_spec() -> bool {
        true
    }

    open spec fn eq_spec(&self, other: &Self) -> bool {
        self@ == other@
    }
}

impl Eq for SymlinkKind {

}

impl PartialEq for Symlink {
    fn eq(&self, other: &Self) -> (r: bool) {
        self.status == other.status && self.base == other.base && self.kind == other.kind
    }
}

impl vstd::std_specs::cmp::PartialEqSpecImpl for Symlink {
    open spec fn obeys_eq_spec() -> bool {
        true
    }

    open spec fn eq_spec(&self, other: &Self) -> bool {
        self@ == other@
    }
}

impl Eq for Symlink {

}

impl Symlink {
    /// A symlink of the package directory `base`, not yet linked.
    pub fn new(base: String, kind: SymlinkKind) -> (r: Self)
        ensures
            r@ == (SymlinkView { status: StatusView::Unlinked, base: base@, kind: kind@ }),
    {
        Self { status: SymlinkStatus::Unlinked, base, kind }
    }

    /// Reads one line of a declaration file. `home` is the home directory, if
    /// it is known.
    pub fn from_str(base: String, s: &str, home: Option<&str>) -> (r: Option<Self>)
        ensures
            match r {
                Some(symlink) => parsed(base@, s@, opt_text(home)) == Some(symlink@),
                None => parsed(base@, s@, opt_text(home)) is None,
            },
    {
        let chars = chars_of(s);
        let (lo, hi) = trim_range(&chars, 0, chars.len());
        assert(chars@.subrange(0, chars.len() as int) == s@);
        let ghost text = trimmed(s@);
        if lo == hi {
            return None;
        }
        let at = find(&chars, '=', lo, hi);
        proof {
            lemma_position(text, '=');
        }
        if at == hi {
            let target = expand_home(s.substring_char(lo, hi), home);
            Some(Symlink::new(base, SymlinkKind::Whole { target }))
        } else {
            let (from_lo, from_hi) = trim_range(&chars, lo, at);
            let (to_lo, to_hi) = trim_range(&chars, at + 1, hi);
            proof {
                let p = position(text, '=');
                assert(chars@.subrange(lo as int, at as int) == text.take(p));
                assert(chars@.subrange(at + 1, hi as int) == text.skip(p + 1));
            }
            let from = expand_home(s.substring_char(from_lo, from_hi), home);
            let to = expand_home(s.substring_char(to_lo, to_hi), home);
            Some(Symlink::new(base, SymlinkKind::Mapped { from, to }))
        }
    }

    /// The declared source of the link, which is still to be resolved.
    pub fn source_path(&self) -> (r: String)
        ensures
            r@ == self@.source_path(),
    {
        match &self.kind {
            SymlinkKind::Whole { .. } => self.base.clone(),
            SymlinkKind::Mapped { from, .. } => join(self.base.as_str(), from.as_str()),
        }
    }

    /// Takes in the outcome of resolving `source_path()` to a canonical path,
    /// and returns the resolved source. Where the resolution failed, its cause
    /// becomes the status and the path returned is empty: look at the status
    /// before trusting the path.
    pub fn from_path(&mut self, resolved: Reply) -> (r: String)
        ensures
            final(self)@ == old(self)@.resolved(reply_view(resolved)),
            r@ == resolved_path(reply_view(resolved)),
    {
        match resolved {
            Ok(path) => path,
            Err(reason) => {
                self.status = SymlinkStatus::Error { reason };
                String::new()
            },
        }
    }

    /// The declared destination of the link, as it was written.
    pub fn to_path(&self) -> (r: &String)
        ensures
            r@ == self@.to_path(),
    {
        match &self.kind {
            SymlinkKind::Whole { target } => target,
            SymlinkKind::Mapped { to, .. } => to,
        }
    }

    /// Sets the status from what the filesystem shows. `resolved` is the
    /// outcome of resolving `source_path()`, `target` that of reading
    /// `to_path()` as a link.
    pub fn probe(&mut self, resolved: Reply, target: Reply)
        ensures
            final(self)@ == old(self)@.probed(reply_view(resolved), reply_view(target)),
    {
        let from = self.from_path(resolved);
        match target {
            Ok(path) => {
                if path == from {
                    self.status = SymlinkStatus::Linked;
                }
            },
            Err(_) => {},
        }
    }
}

} // verus!
