//! A package: a directory with a declaration file, and the symlinks that
//! the file declares.

use crate::path::{join, joined, opt_text};
use crate::symlink::{parsed, StatusView, Symlink, SymlinkStatus, SymlinkView};
use crate::text::{chars_of, find, lemma_position, position};
use vstd::prelude::*;

verus! {

/// A package and its declared symlinks, in the order of their declaration.
#[derive(Debug)]
pub struct Package {
    pub name: String,
    pub symlinks: Vec<Symlink>,
}

/// The status of a package as a whole.
#[derive(Debug)]
pub enum PackageStatus {
    /// The package declares no symlinks.
    Empty,
    /// Every symlink of the package has this status.
    Uniform { status: SymlinkStatus },
    /// The symlinks of the package differ in status.
    Mixed,
}

/// A package as the contracts speak of it.
pub struct PackageView {
    pub name: Seq<char>,
    pub symlinks: Seq<SymlinkView>,
}

/// The status of a package as the contracts speak of it.
pub enum PackageStatusView {
    Empty,
    Uniform { status: StatusView },
    Mixed,
}

/// The symlinks of a sequence, each as what it stands for.
pub open spec fn symlink_views(symlinks: Seq<Symlink>) -> Seq<SymlinkView> {
    Seq::new(symlinks.len(), |i: int| symlinks[i]@)
}

impl View for Package {
    type V = PackageView;

    open spec fn view(&self) -> PackageView {
        PackageView { name: self.name@, symlinks: symlink_views(self.symlinks@) }
    }
}

impl View for PackageStatus {
    type V = PackageStatusView;

    open spec fn view(&self) -> PackageStatusView {
        match self {
            PackageStatus::Empty => PackageStatusView::Empty,
            PackageStatus::Uniform { status } => PackageStatusView::Uniform { status: status@ },
            PackageStatus::Mixed => PackageStatusView::Mixed,
        }
    }
}

/// The symlinks that the text of a declaration file declares for the package
/// directory `base`, in the order of its lines. Lines end at a line feed; a
/// line that declares nothing is passed over.
pub open spec fn declared(base: Seq<char>, content: Seq<char>, home: Option<Seq<char>>) -> Seq<
    SymlinkView,
>
    decreases content.len(),
{
    let end = position(content, '\n');
    let first = match parsed(base, content.take(end), home) {
        Some(symlink) => seq![symlink],
        None => Seq::empty(),
    };
    if 0 <= end < content.len() {
        first + declared(base, content.skip(end + 1), home)
    } else {
        first
    }
}

/// A declaration file is read line by line: its first line declares what
/// it declares alone, or nothing, and the lines after it follow.
pub proof fn lemma_declared_line(
    base: Seq<char>,
    line: Seq<char>,
    rest: Seq<char>,
    home: Option<Seq<char>>,
)
    requires
        !line.contains('\n'),
    ensures
        declared(base, line + seq!['\n'] + rest, home) == match parsed(base, line, home) {
            Some(symlink) => seq![symlink] + declared(base, rest, home),
            None => declared(base, rest, home),
        },
{
    let content = line + seq!['\n'] + rest;
    let end = position(content, '\n');
    lemma_position(content, '\n');
    assert(content[line.len() as int] == '\n');
    assert(end == line.len()) by {
        if end < line.len() {
            assert(line[end] == content[end]);
        }
    }
    assert(content.take(end) == line);
    assert(content.skip(end + 1) == rest);
    assert(Seq::<SymlinkView>::empty() + declared(base, rest, home) == declared(base, rest, home));
}

/// The last line of a declaration file needs no line feed.
pub proof fn lemma_declared_last_line(base: Seq<char>, line: Seq<char>, home: Option<Seq<char>>)
    requires
        !line.contains('\n'),
    ensures
        declared(base, line, home) == match parsed(base, line, home) {
            Some(symlink) => seq![symlink],
            None => Seq::empty(),
        },
{
    lemma_position(line, '\n');
    assert(line.take(line.len() as int) == line);
}

/// The status that stands for all of `symlinks`: none where there are no
/// symlinks, the common status where all are equal, and mixed where two
/// differ.
pub open spec fn overall(symlinks: Seq<SymlinkView>) -> PackageStatusView {
    if symlinks.len() == 0 {
        PackageStatusView::Empty
    } else if forall|i: int|
        0 <= i < symlinks.len() ==> (#[trigger] symlinks[i]).status == symlinks[0].status {
        PackageStatusView::Uniform { status: symlinks[0].status }
    } else {
        PackageStatusView::Mixed
    }
}

impl PackageView {
    /// The status of the package as a whole.
    pub open spec fn status(self) -> PackageStatusView {
        overall(self.symlinks)
    }
}

/// The name of the declaration file within a package directory.
pub open spec fn declaration_file_name() -> Seq<char> {
    ".symlink"@
}

impl Package {
    /// The path of the declaration file of the package directory `base`.
    pub fn declaration_path(base: &str) -> (r: String)
        ensures
            r@ == joined(base@, declaration_file_name()),
    {
        join(base, ".symlink")
    }

    /// The package `name` of the directory `base`, with the symlinks that
    /// `declarations` declares, none of them linked yet. `declarations` is the
    /// text of the declaration file; a file that could not be read declares
    /// nothing. `home` is the home directory, if it is known.
    pub fn new(name: String, base: String, declarations: Option<&str>, home: Option<&str>) -> (r:
        Self)
        ensures
            r@.name == name@,
            r@.symlinks == match declarations {
                Some(content) => declared(base@, content@, opt_text(home)),
                None => Seq::empty(),
            },
    {
        let mut symlinks: Vec<Symlink> = Vec::new();
        if let Some(content) = declarations {
            let chars = chars_of(content);
            let len: usize = chars.len();
            let mut lo: usize = 0;
            proof {
                assert(content@.skip(0) == content@);
                assert(symlink_views(symlinks@) == Seq::<SymlinkView>::empty());
            }
            loop
                invariant_except_break
                    declared(base@, content@, opt_text(home)) == symlink_views(symlinks@)
                        + declared(base@, content@.skip(lo as int), opt_text(home)),
                invariant
                    chars@ == content@,
                    len == chars.len(),
                    lo <= len,
                ensures
                    declared(base@, content@, opt_text(home)) == symlink_views(symlinks@),
                decreases len - lo,
            {
                let end = find(&chars, '\n', lo, len);
                let ghost rest = content@.skip(lo as int);
                let ghost before = symlink_views(symlinks@);
                proof {
                    assert(chars@.subrange(lo as int, len as int) == rest);
                    lemma_position(rest, '\n');
                    assert(content@.subrange(lo as int, end as int) == rest.take(end - lo));
                    if end < len {
                        assert(rest.skip(end - lo + 1) == content@.skip(end + 1));
                    }
                }
                if let Some(symlink) = Symlink::from_str(
                    base.clone(),
                    content.substring_char(lo, end),
                    home,
                ) {
                    symlinks.push(symlink);
                    assert(symlink_views(symlinks@) == before + seq![symlink@]);
                }
                if end == len {
                    break ;
                }
                lo = end + 1;
            }
        }
        assert(symlink_views(Seq::<Symlink>::empty()) == Seq::<SymlinkView>::empty());
        Package { name, symlinks }
    }

    /// The status of the package as a whole.
    pub fn status(&self) -> (r: PackageStatus)
        ensures
            r@ == self@.status(),
    {
        let count: usize = self.symlinks.len();
        if count == 0 {
            return PackageStatus::Empty;
        }
        let mut at: usize = 1;
        while at < count
            invariant
                1 <= at <= count == self.symlinks.len(),
                forall|i: int|
                    0 <= i < at ==> (#[trigger] self@.symlinks[i]).status
                        == self@.symlinks[0].status,
            decreases count - at,
        {
            if self.symlinks[at].status != self.symlinks[0].status {
                assert(self@.symlinks[at as int].status != self@.symlinks[0].status);
                return PackageStatus::Mixed;
            }
            at += 1;
        }
        PackageStatus::Uniform { status: self.symlinks[0].status.clone() }
    }
}

impl Clone for PackageStatus {
    fn clone(&self) -> (r: Self)
        ensures
            r@ == self@,
    {
        match self {
            PackageStatus::Empty => PackageStatus::Empty,
            PackageStatus::Uniform { status } => PackageStatus::Uniform { status: status.clone() },
            PackageStatus::Mixed => PackageStatus::Mixed,
        }
    }
}

impl PartialEq for PackageStatus {
    fn eq(&self, other: &Self) -> (r: bool) {
        match (self, other) {
            (PackageStatus::Empty, PackageStatus::Empty) => true,
            (PackageStatus::Uniform { status: a }, PackageStatus::Uniform { status: b }) => *a
                == *b,
            (PackageStatus::Mixed, PackageStatus::Mixed) => true,
            _ => false,
        }
    }
}

impl vstd::std_specs::cmp::PartialEqSpecImpl for PackageStatus {
    open spec fn obeys_eq_spec() -> bool {
        true
    }

    open spec fn eq_spec(&self, other: &Self) -> bool {
        self@ == other@
    }
}

impl Eq for PackageStatus {

}

impl PartialEq for Package {
    fn eq(&self, other: &Self) -> (r: bool) {
        let count: usize = self.symlinks.len();
        if self.name != other.name || count != other.symlinks.len() {
            assert(self@.symlinks.len() != other@.symlinks.len() || self@.name != other@.name);
            return false;
        }
        let mut at: usize = 0;
        while at < count
            invariant
                at <= count == self.symlinks.len() == other.symlinks.len(),
                self@.name == other@.name,
                forall|i: int| 0 <= i < at ==> #[trigger] self@.symlinks[i] == other@.symlinks[i],
            decreases count - at,
        {
            if self.symlinks[at] != other.symlinks[at] {
                assert(self@.symlinks[at as int] != other@.symlinks[at as int]);
                return false;
            }
            at += 1;
        }
        assert(self@.symlinks =~= other@.symlinks);
        true
    }
}

impl vstd::std_specs::cmp::PartialEqSpecImpl for Package {
    open spec fn obeys_eq_spec() -> bool {
        true
    }

    open spec fn eq_spec(&self, other: &Self) -> bool {
        self@ == other@
    }
}

impl Eq for Package {

}

impl Clone for Package {
    fn clone(&self) -> (r: Self)
        ensures
            r@ == self@,
    {
        let mut symlinks: Vec<Symlink> = Vec::new();
        let count: usize = self.symlinks.len();
        let mut at: usize = 0;
        while at < count
            invariant
                at <= count == self.symlinks.len(),
                symlink_views(symlinks@) == symlink_views(self.symlinks@).take(at as int),
            decreases count - at,
        {
            let ghost before = symlink_views(symlinks@);
            symlinks.push(self.symlinks[at].clone());
            assert(symlink_views(symlinks@) == before + seq![self.symlinks[at as int]@]);
            at += 1;
        }
        assert(symlink_views(self.symlinks@).take(count as int) == symlink_views(self.symlinks@));
        Package { name: self.name.clone(), symlinks }
    }
}

} // verus!
