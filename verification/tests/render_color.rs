use colored::control::set_override;
use home_symlink::package::{Package, PackageStatus};
use home_symlink::symlink::{Symlink, SymlinkKind, SymlinkStatus};

fn mapped(from: &str, to: &str, status: SymlinkStatus) -> Symlink {
    Symlink {
        status,
        base: String::from("/pkgs/fish"),
        kind: SymlinkKind::Mapped { from: String::from(from), to: String::from(to) },
    }
}

fn error(reason: &str) -> SymlinkStatus {
    SymlinkStatus::Error { reason: String::from(reason) }
}

#[test]
fn coloured_statuses() {
    set_override(true);
    assert_eq!(SymlinkStatus::Unlinked.render(), "\x1b[31m(X) Unlinked\x1b[0m");
    assert_eq!(SymlinkStatus::Linked.render(), "\x1b[32m(\u{e2}\u{153}\u{201c}) Linked\x1b[0m");
    assert_eq!(error("boom").render(), "\x1b[31m(X) Error: \x1b[0mboom");
}

#[test]
fn coloured_package_statuses() {
    set_override(true);
    assert_eq!(PackageStatus::Empty.render(), "\x1b[31m(X) No symlinks defined\x1b[0m");
    assert_eq!(PackageStatus::Mixed.render(), "\x1b[33m(-) Mixed\x1b[0m");
    assert_eq!(
        PackageStatus::Uniform { status: SymlinkStatus::Linked }.render(),
        "\x1b[32m(\u{e2}\u{153}\u{201c}) Linked\x1b[0m"
    );
}

#[test]
fn coloured_symlink_line() {
    set_override(true);
    assert_eq!(
        mapped("a", "/t/a", SymlinkStatus::Unlinked).render(),
        "\n  /pkgs/fish/a -> /t/a - \x1b[31m(X) Unlinked\x1b[0m"
    );
}

#[test]
fn coloured_report_of_an_empty_package() {
    set_override(true);
    let package = Package { name: String::from("empty"), symlinks: Vec::new() };
    assert_eq!(
        package.render(),
        "\x1b[1mempty\x1b[0m \x1b[1m-\x1b[0m \
         \x1b[1m\x1b[31m(X) No symlinks defined\x1b[0m\x1b[1m\x1b[0m\n"
    );
}

#[test]
fn style_is_switched_on_again_after_a_reset_in_the_text() {
    set_override(true);
    let package = Package { name: String::from("a\x1b[0mb\x1b[0m"), symlinks: Vec::new() };
    assert_eq!(
        package.render(),
        "\x1b[1ma\x1b[0m\x1b[1mb\x1b[0m\x1b[1m\x1b[0m \x1b[1m-\x1b[0m \
         \x1b[1m\x1b[31m(X) No symlinks defined\x1b[0m\x1b[1m\x1b[0m\n"
    );
}

#[test]
fn other_escape_sequences_in_the_text_are_left_alone() {
    set_override(true);
    let package = Package { name: String::from("\x1b[0\x1b[31mx\x1b"), symlinks: Vec::new() };
    assert_eq!(
        package.render(),
        "\x1b[1m\x1b[0\x1b[31mx\x1b\x1b[0m \x1b[1m-\x1b[0m \
         \x1b[1m\x1b[31m(X) No symlinks defined\x1b[0m\x1b[1m\x1b[0m\n"
    );
}

#[test]
fn coloured_heading_of_a_uniform_package_shows_its_status() {
    set_override(true);
    let package = Package {
        name: String::from("fish"),
        symlinks: vec![mapped("a", "/t/a", error("boom"))],
    };
    assert_eq!(
        package.render(),
        "\x1b[1mfish\x1b[0m \x1b[1m-\x1b[0m \
         \x1b[1m\x1b[31m(X) Error: \x1b[0m\x1b[1mboom\x1b[0m\
         \n  /pkgs/fish/a -> /t/a - \x1b[31m(X) Error: \x1b[0mboom\n"
    );
}

#[test]
fn coloured_package_report() {
    set_override(true);
    let package = Package {
        name: String::from("fish"),
        symlinks: vec![
            mapped("a", "/t/a", SymlinkStatus::Linked),
            mapped("b", "/t/b", error("boom")),
        ],
    };
    assert_eq!(
        package.render(),
        "\x1b[1mfish\x1b[0m \x1b[1m-\x1b[0m \x1b[1m\x1b[33m(-) Mixed\x1b[0m\x1b[1m\x1b[0m\
         \n  /pkgs/fish/a -> /t/a - \x1b[32m(\u{e2}\u{153}\u{201c}) Linked\x1b[0m\
         \n  /pkgs/fish/b -> /t/b - \x1b[31m(X) Error: \x1b[0mboom\n"
    );
}
