use home_symlink::package::{Package, PackageStatus};
use home_symlink::symlink::{Symlink, SymlinkKind, SymlinkStatus};
use home_symlink::Command;

fn mapped(base: &str, from: &str, to: &str) -> Symlink {
    Symlink::new(
        String::from(base),
        SymlinkKind::Mapped { from: String::from(from), to: String::from(to) },
    )
}

fn whole(base: &str, target: &str) -> Symlink {
    Symlink::new(String::from(base), SymlinkKind::Whole { target: String::from(target) })
}

fn package_of(statuses: Vec<SymlinkStatus>) -> Package {
    let mut symlinks = Vec::new();
    for (i, status) in statuses.into_iter().enumerate() {
        let mut symlink = mapped("/pkgs/p", &format!("f{}", i), &format!("/t/f{}", i));
        symlink.status = status;
        symlinks.push(symlink);
    }
    Package { name: String::from("p"), symlinks }
}

fn error(reason: &str) -> SymlinkStatus {
    SymlinkStatus::Error { reason: String::from(reason) }
}

#[test]
fn declaration_file_lies_in_the_package_directory() {
    assert_eq!(Package::declaration_path("/pkgs/fish"), "/pkgs/fish/.symlink");
    assert_eq!(Package::declaration_path("/pkgs/fish/"), "/pkgs/fish/.symlink");
}

#[test]
fn package_holds_its_declarations_in_order() {
    let content = "config.fish = ~/.config/fish/config.fish\nfunctions = ~/.config/fish/functions\n";
    let package = Package::new(
        String::from("fish"),
        String::from("/pkgs/fish"),
        Some(content),
        Some("/home/u"),
    );
    assert_eq!(package.name, "fish");
    assert_eq!(
        package.symlinks,
        vec![
            mapped("/pkgs/fish", "config.fish", "/home/u/.config/fish/config.fish"),
            mapped("/pkgs/fish", "functions", "/home/u/.config/fish/functions"),
        ]
    );
}

#[test]
fn blank_lines_do_not_count() {
    let content = "\n  \na = b\n\n\t\n~/.vim\n   \n";
    let package = Package::new(
        String::from("vim"),
        String::from("/pkgs/vim"),
        Some(content),
        Some("/home/u"),
    );
    assert_eq!(package.symlinks.len(), 2);
    assert_eq!(
        package.symlinks,
        vec![mapped("/pkgs/vim", "a", "b"), whole("/pkgs/vim", "/home/u/.vim")]
    );
}

#[test]
fn last_line_needs_no_line_feed() {
    let package = Package::new(String::from("p"), String::from("/p"), Some("a = b\nc = d"), None);
    assert_eq!(package.symlinks, vec![mapped("/p", "a", "b"), mapped("/p", "c", "d")]);
}

#[test]
fn carriage_returns_end_lines_too() {
    let package =
        Package::new(String::from("p"), String::from("/p"), Some("a = b\r\nc = d\r\n"), None);
    assert_eq!(package.symlinks, vec![mapped("/p", "a", "b"), mapped("/p", "c", "d")]);
}

#[test]
fn lines_agree_with_std() {
    let content = "a = b\r\n\r\n  c\n\nd=e\n \n";
    let package = Package::new(String::from("p"), String::from("/p"), Some(content), None);
    let mut expected = Vec::new();
    for line in content.lines() {
        if let Some(symlink) = Symlink::from_str(String::from("/p"), line, None) {
            expected.push(symlink);
        }
    }
    assert_eq!(package.symlinks, expected);
    assert_eq!(package.symlinks.len(), 3);
}

#[test]
fn empty_declaration_file_declares_nothing() {
    let package = Package::new(String::from("p"), String::from("/p"), Some(""), None);
    assert_eq!(package.symlinks, Vec::<Symlink>::new());
    assert_eq!(package.name, "p");
}

#[test]
fn missing_declaration_file_declares_nothing() {
    let package = Package::new(String::from("p"), String::from("/p"), None, Some("/home/u"));
    assert_eq!(package.symlinks, Vec::<Symlink>::new());
    assert_eq!(package.status(), PackageStatus::Empty);
}

#[test]
fn every_new_symlink_is_unlinked() {
    let package = Package::new(String::from("p"), String::from("/p"), Some("a\nb = c\n"), None);
    for symlink in &package.symlinks {
        assert_eq!(symlink.status, SymlinkStatus::Unlinked);
    }
    assert_eq!(package.status(), PackageStatus::Uniform { status: SymlinkStatus::Unlinked });
}

#[test]
fn status_of_a_package_without_symlinks_is_empty() {
    assert_eq!(package_of(vec![]).status(), PackageStatus::Empty);
}

#[test]
fn status_of_two_linked_symlinks_is_linked() {
    assert_eq!(
        package_of(vec![SymlinkStatus::Linked, SymlinkStatus::Linked]).status(),
        PackageStatus::Uniform { status: SymlinkStatus::Linked }
    );
}

#[test]
fn status_of_linked_and_unlinked_is_mixed() {
    assert_eq!(
        package_of(vec![SymlinkStatus::Linked, SymlinkStatus::Unlinked]).status(),
        PackageStatus::Mixed
    );
    assert_eq!(
        package_of(vec![SymlinkStatus::Unlinked, SymlinkStatus::Unlinked, SymlinkStatus::Linked])
            .status(),
        PackageStatus::Mixed
    );
}

#[test]
fn status_of_a_single_symlink_is_its_own() {
    assert_eq!(
        package_of(vec![error("boom")]).status(),
        PackageStatus::Uniform { status: error("boom") }
    );
}

#[test]
fn equal_errors_are_one_status_and_different_reasons_are_mixed() {
    assert_eq!(
        package_of(vec![error("boom"), error("boom")]).status(),
        PackageStatus::Uniform { status: error("boom") }
    );
    assert_eq!(package_of(vec![error("boom"), error("bang")]).status(), PackageStatus::Mixed);
}

#[test]
fn packages_compare_by_name_and_symlinks() {
    let a = package_of(vec![SymlinkStatus::Linked, SymlinkStatus::Unlinked]);
    let b = package_of(vec![SymlinkStatus::Linked, SymlinkStatus::Unlinked]);
    let c = package_of(vec![SymlinkStatus::Linked, SymlinkStatus::Linked]);
    let d = package_of(vec![SymlinkStatus::Linked]);
    let mut e = package_of(vec![SymlinkStatus::Linked, SymlinkStatus::Unlinked]);
    e.name = String::from("q");
    assert_eq!(a, b);
    assert_ne!(a, c);
    assert_ne!(a, d);
    assert_ne!(a, e);
    assert_eq!(a.clone(), a);
    assert_eq!(PackageStatus::Mixed.clone(), PackageStatus::Mixed);
    assert_ne!(PackageStatus::Mixed, PackageStatus::Empty);
}

#[test]
fn link_passes_over_what_is_linked() {
    let link = Command::Link { force: false };
    assert!(!link.applies_to(&SymlinkStatus::Linked));
    assert!(link.applies_to(&SymlinkStatus::Unlinked));
    assert!(link.applies_to(&error("boom")));
    assert!(!Command::Link { force: true }.applies_to(&SymlinkStatus::Linked));
}

#[test]
fn unlink_passes_over_what_is_unlinked() {
    let unlink = Command::Unlink { force: false };
    assert!(!unlink.applies_to(&SymlinkStatus::Unlinked));
    assert!(unlink.applies_to(&SymlinkStatus::Linked));
    assert!(unlink.applies_to(&error("boom")));
}

#[test]
fn status_command_changes_nothing() {
    assert!(!Command::Status.applies_to(&SymlinkStatus::Unlinked));
    assert!(!Command::Status.applies_to(&SymlinkStatus::Linked));
    assert!(!Command::Status.applies_to(&error("boom")));
}
