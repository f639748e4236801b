//! Reports: a package, its symlinks and their statuses as text for a
//! terminal. Colour and weight are applied by the crate colored, which
//! decides by the terminal and the environment whether escape sequences are
//! written at all.

use crate::package::{Package, PackageStatus, PackageStatusView, PackageView};
use crate::symlink::{StatusView, Symlink, SymlinkStatus, SymlinkView};
use colored::Colorize;
use vstd::prelude::*;

verus! {

/// The escape sequence that switches the style `code` on.
pub open spec fn escape(code: Seq<char>) -> Seq<char> {
    seq!['\x1b', '['] + code + seq!['m']
}

/// The escape sequence that switches every style off.
pub open spec fn reset() -> Seq<char> {
    seq!['\x1b', '[', '0', 'm']
}

/// The style code of red text.
pub open spec fn red_code() -> Seq<char> {
    seq!['3', '1']
}

/// The style code of green text.
pub open spec fn green_code() -> Seq<char> {
    seq!['3', '2']
}

/// The style code of yellow text.
pub open spec fn yellow_code() -> Seq<char> {
    seq!['3', '3']
}

/// The style code of bold text.
pub open spec fn bold_code() -> Seq<char> {
    seq!['1']
}

/// `text` with the sequence `style` put in again after each reset sequence
/// that it holds, so that a style that surrounds the text stays on behind
/// them.
pub open spec fn restyled(text: Seq<char>, style: Seq<char>) -> Seq<char>
    decreases text.len(),
{
    if text.len() < 4 {
        text
    } else if text.take(4) == reset() {
        reset() + style + restyled(text.skip(4), style)
    } else {
        seq![text.first()] + restyled(text.drop_first(), style)
    }
}

/// `text` in the style `code`. Where colours are in use it stands between
/// the escape sequence of the style and the reset sequence, and the style is
/// switched on again after each reset sequence within it; where they are not,
/// it stands as it is.
pub open spec fn paint(text: Seq<char>, code: Seq<char>, colors: bool) -> Seq<char> {
    if colors {
        escape(code) + restyled(text, escape(code)) + reset()
    } else {
        text
    }
}

/// Whether `text` is free of escape characters.
pub open spec fn bare(text: Seq<char>) -> bool {
    forall|i: int| 0 <= i < text.len() ==> #[trigger] text[i] != '\x1b'
}

/// Whether `out` is `text` styled with `code`, be it with colours in use or
/// without.
pub open spec fn painted(text: Seq<char>, code: Seq<char>, out: Seq<char>) -> bool {
    out == paint(text, code, false) || out == paint(text, code, true)
}

/// A text free of escape characters holds no reset sequence: nothing is put
/// into it.
pub proof fn lemma_restyled_bare(text: Seq<char>, style: Seq<char>)
    requires
        bare(text),
    ensures
        restyled(text, style) == text,
    decreases text.len(),
{
    if text.len() >= 4 {
        assert(text.take(4) != reset()) by {
            assert(text.take(4)[0] == text[0]);
            assert(reset()[0] == '\x1b');
        }
        let tail = text.drop_first();
        assert forall|i: int| 0 <= i < tail.len() implies #[trigger] tail[i] != '\x1b' by {
            assert(tail[i] == text[i + 1]);
        }
        lemma_restyled_bare(tail, style);
        assert(seq![text.first()] + tail == text);
    }
}

/// Painted with colours in use, a text free of escape characters stands
/// unchanged between the escape sequence of its style and the reset
/// sequence.
pub proof fn lemma_paint_bare(text: Seq<char>, code: Seq<char>)
    requires
        bare(text),
    ensures
        paint(text, code, true) == escape(code) + text + reset(),
{
    lemma_restyled_bare(text, escape(code));
}

/// Formats what `Colorize::red` of colored makes of `text`. That crate writes
/// the text alone where colours are off. Where they are on it writes the
/// sequence for red, then the text, into which it puts that sequence again
/// after each reset sequence, then the reset sequence. Whether colours are on
/// is read from the terminal and the environment, or from the override of
/// `colored::control`; so the contract names both outcomes and says which of
/// them comes of no call. This is trusted, not proved, and supposes that
/// nothing changes that override while the call runs.
#[verifier::external_body]
fn red(text: &str) -> (out: String)
    ensures
        painted(text@, red_code(), out@),
{
    text.red().to_string()
}

/// Formats what `Colorize::green` of colored makes of `text`: as for red,
/// with the sequence for green.
#[verifier::external_body]
fn green(text: &str) -> (out: String)
    ensures
        painted(text@, green_code(), out@),
{
    text.green().to_string()
}

/// Formats what `Colorize::yellow` of colored makes of `text`: as for red,
/// with the sequence for yellow.
#[verifier::external_body]
fn yellow(text: &str) -> (out: String)
    ensures
        painted(text@, yellow_code(), out@),
{
    text.yellow().to_string()
}

/// Formats what `Colorize::bold` of colored makes of `text`: as for red,
/// with the sequence for bold.
#[verifier::external_body]
fn bold(text: &str) -> (out: String)
    ensures
        painted(text@, bold_code(), out@),
{
    text.bold().to_string()
}

impl StatusView {
    /// The status as text, with or without colours.
    pub open spec fn text(self, colors: bool) -> Seq<char> {
        match self {
            StatusView::Unlinked => paint("(X) Unlinked"@, red_code(), colors),
            StatusView::Error { reason } => paint("(X) Error: "@, red_code(), colors) + reason,
            StatusView::Linked => paint("(âœ“) Linked"@, green_code(), colors),
        }
    }
}

impl SymlinkView {
    /// The line of a report that shows this symlink, with `status_text` for
    /// its status: the declared source, the destination and the status, on a
    /// line of their own.
    pub open spec fn line(self, status_text: Seq<char>) -> Seq<char> {
        "\n  "@ + self.source_path() + " -> "@ + self.to_path() + " - "@ + status_text
    }

    /// The symlink as text, with or without colours.
    pub open spec fn text(self, colors: bool) -> Seq<char> {
        self.line(self.status.text(colors))
    }
}

impl PackageStatusView {
    /// The status of a package as text, with or without colours.
    pub open spec fn text(self, colors: bool) -> Seq<char> {
        match self {
            PackageStatusView::Empty => paint("(X) No symlinks defined"@, red_code(), colors),
            PackageStatusView::Uniform { status } => status.text(colors),
            PackageStatusView::Mixed => paint("(-) Mixed"@, yellow_code(), colors),
        }
    }
}

/// With colours in use, the label of a status stands unchanged between the
/// sequence of its colour and the reset sequence; the reason of an error
/// follows the label as it is.
pub proof fn lemma_status_text(status: StatusView)
    ensures
        status.text(true) == match status {
            StatusView::Unlinked => escape(red_code()) + "(X) Unlinked"@ + reset(),
            StatusView::Error { reason } => escape(red_code()) + "(X) Error: "@ + reset()
                + reason,
            StatusView::Linked => escape(green_code()) + "(âœ“) Linked"@ + reset(),
        },
{
    reveal_strlit("(X) Unlinked");
    reveal_strlit("(X) Error: ");
    reveal_strlit("(âœ“) Linked");
    lemma_paint_bare("(X) Unlinked"@, red_code());
    lemma_paint_bare("(X) Error: "@, red_code());
    lemma_paint_bare("(âœ“) Linked"@, green_code());
}

/// With colours in use, the label of a package without symlinks and that of
/// a package of mixed statuses stand unchanged between the sequence of their
/// colour and the reset sequence.
pub proof fn lemma_package_status_text()
    ensures
        PackageStatusView::Empty.text(true) == escape(red_code()) + "(X) No symlinks defined"@
            + reset(),
        PackageStatusView::Mixed.text(true) == escape(yellow_code()) + "(-) Mixed"@ + reset(),
{
    reveal_strlit("(X) No symlinks defined");
    reveal_strlit("(-) Mixed");
    lemma_paint_bare("(X) No symlinks defined"@, red_code());
    lemma_paint_bare("(-) Mixed"@, yellow_code());
}

/// The texts of `lines`, one after the other.
pub open spec fn concat(lines: Seq<Seq<char>>) -> Seq<char>
    decreases lines.len(),
{
    if lines.len() == 0 {
        Seq::empty()
    } else {
        concat(lines.drop_last()) + lines.last()
    }
}

/// The text of each string of a sequence.
pub open spec fn texts(lines: Seq<String>) -> Seq<Seq<char>> {
    Seq::new(lines.len(), |i: int| lines[i]@)
}

/// The report of a package, put together from its parts as they were
/// styled: a heading of name, dash and status with a space between them, the
/// lines of the symlinks, and a line feed.
pub open spec fn layout(
    name_text: Seq<char>,
    dash_text: Seq<char>,
    status_text: Seq<char>,
    lines: Seq<Seq<char>>,
) -> Seq<char> {
    name_text + " "@ + dash_text + " "@ + status_text + concat(lines) + "\n"@
}

impl PackageView {
    /// Whether `out` may be the report of this package. Its heading holds
    /// the name, a dash and the status of the package as a whole, each in
    /// bold; a line for each symlink follows, in the order of declaration.
    /// Every styled part stands with or without its escape sequences, and
    /// nothing else is left open.
    pub open spec fn renders(self, out: Seq<char>) -> bool {
        exists|
            name_text: Seq<char>,
            dash_text: Seq<char>,
            status: Seq<char>,
            status_text: Seq<char>,
            lines: Seq<Seq<char>>,
        |
            #![trigger layout(name_text, dash_text, status_text, lines), painted(status, bold_code(), status_text)]
            {
                &&& painted(self.name, bold_code(), name_text)
                &&& painted("-"@, bold_code(), dash_text)
                &&& status == self.status().text(false) || status == self.status().text(true)
                &&& painted(status, bold_code(), status_text)
                &&& lines.len() == self.symlinks.len()
                &&& forall|i: int|
                    0 <= i < lines.len() ==> #[trigger] lines[i] == self.symlinks[i].text(false)
                        || lines[i] == self.symlinks[i].text(true)
                &&& out == layout(name_text, dash_text, status_text, lines)
            }
    }
}

impl SymlinkStatus {
    /// The status as text for a terminal: a mark and a word, in red or
    /// green, and after them the reason of an error.
    pub fn render(&self) -> (r: String)
        ensures
            r@ == self@.text(false) || r@ == self@.text(true),
    {
        match self {
            SymlinkStatus::Unlinked => red("(X) Unlinked"),
            SymlinkStatus::Error { reason } => {
                let mut out = red("(X) Error: ");
                out.append(reason.as_str());
                out
            },
            SymlinkStatus::Linked => green("(âœ“) Linked"),
        }
    }
}

impl Symlink {
    /// The line of a report that shows this symlink, with `status_text` for
    /// its status.
    pub fn line(&self, status_text: &str) -> (r: String)
        ensures
            r@ == self@.line(status_text@),
    {
        let source = self.source_path();
        let mut out = String::from_str("\n  ");
        out.append(source.as_str());
        out.append(" -> ");
        out.append(self.to_path().as_str());
        out.append(" - ");
        out.append(status_text);
        out
    }

    /// The symlink as text for a terminal.
    pub fn render(&self) -> (r: String)
        ensures
            r@ == self@.text(false) || r@ == self@.text(true),
    {
        let status_text = self.status.render();
        self.line(status_text.as_str())
    }
}

impl PackageStatus {
    /// The status of a package as text for a terminal.
    pub fn render(&self) -> (r: String)
        ensures
            r@ == self@.text(false) || r@ == self@.text(true),
    {
        match self {
            PackageStatus::Empty => red("(X) No symlinks defined"),
            PackageStatus::Uniform { status } => status.render(),
            PackageStatus::Mixed => yellow("(-) Mixed"),
        }
    }
}

impl Package {
    /// Puts the report of a package together from its parts as they were
    /// styled.
    pub fn layout(name_text: &str, dash_text: &str, status_text: &str, lines: &Vec<String>) -> (r:
        String)
        ensures
            r@ == layout(name_text@, dash_text@, status_text@, texts(lines@)),
    {
        let mut out = String::from_str(name_text);
        out.append(" ");
        out.append(dash_text);
        out.append(" ");
        out.append(status_text);
        let ghost head = out@;
        let count: usize = lines.len();
        let mut at: usize = 0;
        assert(texts(lines@).take(0) == Seq::<Seq<char>>::empty());
        while at < count
            invariant
                at <= count == lines.len(),
                out@ == head + concat(texts(lines@).take(at as int)),
            decreases count - at,
        {
            out.append(lines[at].as_str());
            proof {
                let next = texts(lines@).take(at + 1);
                assert(next.drop_last() == texts(lines@).take(at as int));
                assert(next.last() == lines[at as int]@);
            }
            at += 1;
        }
        assert(texts(lines@).take(count as int) == texts(lines@));
        out.append("\n");
        out
    }

    /// The package as text for a terminal.
    pub fn render(&self) -> (r: String)
        ensures
            self@.renders(r@),
    {
        let status = self.status().render();
        let name_text = bold(self.name.as_str());
        let dash_text = bold("-");
        let status_text = bold(status.as_str());
        let mut lines: Vec<String> = Vec::new();
        let count: usize = self.symlinks.len();
        let mut at: usize = 0;
        while at < count
            invariant
                at <= count == self.symlinks.len(),
                lines.len() == at,
                forall|i: int|
                    0 <= i < at ==> (#[trigger] lines[i])@ == self@.symlinks[i].text(false)
                        || lines[i]@ == self@.symlinks[i].text(true),
            decreases count - at,
        {
            lines.push(self.symlinks[at].render());
            at += 1;
        }
        let out = Package::layout(
            name_text.as_str(),
            dash_text.as_str(),
            status_text.as_str(),
            &lines,
        );
        proof {
            let shown = texts(lines@);
            assert forall|i: int| 0 <= i < shown.len() implies #[trigger] shown[i]
                == self@.symlinks[i].text(false) || shown[i] == self@.symlinks[i].text(true) by {
                assert(shown[i] == lines[i]@);
            }
            assert(painted(status@, bold_code(), status_text@));
            assert(out@ == layout(name_text@, dash_text@, status_text@, shown));
        }
        out
    }
}

} // verus!
