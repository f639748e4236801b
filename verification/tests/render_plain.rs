use colored::control::set_override;
use home_symlink::package::{Package, PackageStatus};
use home_symlink::symlink::{Symlink, SymlinkKind, SymlinkStatus};

fn mapped(from: &str, to: &str, status: SymlinkStatus) -> Symlink {
    Symlink {
        status,
        base: String::from("/pkgs/fish"),
        kind: SymlinkKind::Mapped { from: String::from(from), to: String::from(to) },
    }
}

fn error(reason: &str) -> SymlinkStatus {
    SymlinkStatus::Error { reason: String::from(reason) }
}

#[test]
fn plain_statuses() {
    set_override(false);
    assert_eq!(SymlinkStatus::Unlinked.render(), "(X) Unlinked");
    assert_eq!(SymlinkStatus::Linked.render(), "(\u{e2}\u{153}\u{201c}) Linked");
    assert_eq!(error("File exists (os error 17)").render(), "(X) Error: File exists (os error 17)");
    assert_eq!(error("").render(), "(X) Error: ");
}

#[test]
fn plain_package_statuses() {
    set_override(false);
    assert_eq!(PackageStatus::Empty.render(), "(X) No symlinks defined");
    assert_eq!(PackageStatus::Mixed.render(), "(-) Mixed");
    assert_eq!(
        PackageStatus::Uniform { status: SymlinkStatus::Unlinked }.render(),
        "(X) Unlinked"
    );
    assert_eq!(PackageStatus::Uniform { status: error("boom") }.render(), "(X) Error: boom");
}

#[test]
fn plain_symlink_lines() {
    set_override(false);
    assert_eq!(
        mapped("config.fish", "/home/u/.config/fish/config.fish", SymlinkStatus::Unlinked).render(),
        "\n  /pkgs/fish/config.fish -> /home/u/.config/fish/config.fish - (X) Unlinked"
    );
    let whole = Symlink {
        status: error("boom"),
        base: String::from("/pkgs/fish"),
        kind: SymlinkKind::Whole { target: String::from("/home/u/.config/fish") },
    };
    assert_eq!(whole.render(), "\n  /pkgs/fish -> /home/u/.config/fish - (X) Error: boom");
}

#[test]
fn line_takes_the_status_text_as_it_is() {
    let symlink = mapped("a", "/t/a", SymlinkStatus::Linked);
    assert_eq!(symlink.line("whatever"), "\n  /pkgs/fish/a -> /t/a - whatever");
    assert_eq!(symlink.line(""), "\n  /pkgs/fish/a -> /t/a - ");
}

#[test]
fn layout_puts_the_parts_together() {
    let lines = vec![String::from("\n  one"), String::from("\n  two")];
    assert_eq!(Package::layout("name", "-", "status", &lines), "name - status\n  one\n  two\n");
    assert_eq!(Package::layout("name", "-", "status", &Vec::new()), "name - status\n");
    assert_eq!(Package::layout("", "", "", &Vec::new()), "  \n");
}

#[test]
fn plain_package_report() {
    set_override(false);
    let package = Package {
        name: String::from("fish"),
        symlinks: vec![
            mapped("config.fish", "/home/u/.config/fish/config.fish", SymlinkStatus::Linked),
            mapped("functions", "/home/u/.config/fish/functions", SymlinkStatus::Unlinked),
        ],
    };
    assert_eq!(
        package.render(),
        "fish - (-) Mixed\
         \n  /pkgs/fish/config.fish -> /home/u/.config/fish/config.fish - (\u{e2}\u{153}\u{201c}) Linked\
         \n  /pkgs/fish/functions -> /home/u/.config/fish/functions - (X) Unlinked\n"
    );
}

#[test]
fn plain_report_leaves_escape_sequences_in_a_name_alone() {
    set_override(false);
    let package = Package { name: String::from("a\x1b[0mb"), symlinks: Vec::new() };
    assert_eq!(package.render(), "a\x1b[0mb - (X) No symlinks defined\n");
}

#[test]
fn plain_report_of_an_empty_package() {
    set_override(false);
    let package = Package { name: String::from("empty"), symlinks: Vec::new() };
    assert_eq!(package.render(), "empty - (X) No symlinks defined\n");
}

#[test]
fn plain_report_of_a_uniform_package() {
    set_override(false);
    let package = Package {
        name: String::from("fish"),
        symlinks: vec![
            mapped("a", "/t/a", error("boom")),
            mapped("b", "/t/b", error("boom")),
        ],
    };
    assert_eq!(
        package.render(),
        "fish - (X) Error: boom\
         \n  /pkgs/fish/a -> /t/a - (X) Error: boom\
         \n  /pkgs/fish/b -> /t/b - (X) Error: boom\n"
    );
}
