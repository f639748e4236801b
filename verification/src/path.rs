//! Paths as text: joining a relative path to a base, and expanding the
//! home shorthand `~/`. Paths follow the Unix convention: `/` separates the
//! components, and a path that begins with `/` is absolute.

use vstd::prelude::*;

verus! {

/// `rel` adjoined to `base`. An absolute `rel` replaces `base`; otherwise the
/// two are put together, with a separator between them unless `base` is empty
/// or already ends in one.
pub open spec fn joined(base: Seq<char>, rel: Seq<char>) -> Seq<char> {
    if rel.len() > 0 && rel.first() == '/' {
        rel
    } else if base.len() > 0 && base.last() != '/' {
        base + seq!['/'] + rel
    } else {
        base + rel
    }
}

/// Whether `path` begins with the home shorthand `~/`.
pub open spec fn has_home_prefix(path: Seq<char>) -> bool {
    path.len() >= 2 && path[0] == '~' && path[1] == '/'
}

/// `path` without the separators that it begins with.
pub open spec fn without_leading_separators(path: Seq<char>) -> Seq<char>
    decreases path.len(),
{
    if path.len() > 0 && path.first() == '/' {
        without_leading_separators(path.drop_first())
    } else {
        path
    }
}

/// `path` with a leading `~/` replaced by the home directory, where one is
/// known: what follows the shorthand is adjoined to `home`, without the
/// separators that it may begin with, so that the result lies under `home`.
/// Any other path, and every path while no home directory is known, stays as
/// it is.
pub open spec fn expanded(path: Seq<char>, home: Option<Seq<char>>) -> Seq<char> {
    match home {
        Some(h) if has_home_prefix(path) => joined(h, without_leading_separators(path.skip(2))),
        _ => path,
    }
}

/// What is left of a path without its leading separators does not begin
/// with one, and is the end of that path.
pub proof fn lemma_without_leading_separators(path: Seq<char>)
    ensures
        without_leading_separators(path).len() > 0 ==> without_leading_separators(path).first()
            != '/',
        without_leading_separators(path).is_suffix_of(path),
    decreases path.len(),
{
    let rest = without_leading_separators(path);
    if path.len() > 0 && path.first() == '/' {
        let tail = path.drop_first();
        lemma_without_leading_separators(tail);
        assert(rest == path.skip(path.len() - rest.len())) by {
            assert(rest == tail.skip(tail.len() - rest.len()));
            assert(tail.skip(tail.len() - rest.len()) == path.skip(path.len() - rest.len()));
        }
    } else {
        assert(path.skip(0) == path);
    }
}

/// An expanded home shorthand lies under the home directory: the result
/// begins with `home` and ends with what followed the shorthand and its
/// separators.
pub proof fn lemma_expanded_under_home(path: Seq<char>, home: Seq<char>)
    requires
        has_home_prefix(path),
    ensures
        home.is_prefix_of(expanded(path, Some(home))),
        without_leading_separators(path.skip(2)).is_suffix_of(expanded(path, Some(home))),
{
    let rest = without_leading_separators(path.skip(2));
    let out = expanded(path, Some(home));
    lemma_without_leading_separators(path.skip(2));
    assert(out.subrange(0, home.len() as int) == home);
    assert(out.skip(out.len() - rest.len()) == rest);
}

/// The text of an optional string.
pub open spec fn opt_text(s: Option<&str>) -> Option<Seq<char>> {
    match s {
        Some(t) => Some(t@),
        None => None,
    }
}

/// Adjoins `rel` to `base`.
pub fn join(base: &str, rel: &str) -> (r: String)
    ensures
        r@ == joined(base@, rel@),
{
    let rel_len: usize = rel.unicode_len();
    let base_len: usize = base.unicode_len();
    if rel_len > 0 && rel.get_char(0) == '/' {
        String::from_str(rel)
    } else if base_len > 0 && base.get_char(base_len - 1) != '/' {
        proof {
            reveal_strlit("/");
            assert("/"@ == seq!['/']);
        }
        let mut out = String::from_str(base);
        out.append("/");
        out.append(rel);
        out
    } else {
        let mut out = String::from_str(base);
        out.append(rel);
        out
    }
}

/// Expands a leading `~/` in `path` to the home directory `home`. Without a
/// home directory the path is returned unchanged.
pub fn expand_home(path: &str, home: Option<&str>) -> (r: String)
    ensures
        r@ == expanded(path@, opt_text(home)),
{
    let len: usize = path.unicode_len();
    if len >= 2 && path.get_char(0) == '~' && path.get_char(1) == '/' {
        match home {
            Some(h) => {
                let mut start: usize = 2;
                while start < len && path.get_char(start) == '/'
                    invariant
                        2 <= start <= len == path@.len(),
                        without_leading_separators(path@.skip(2)) == without_leading_separators(
                            path@.skip(start as int),
                        ),
                    decreases len - start,
                {
                    assert(path@.skip(start as int).drop_first() == path@.skip(start + 1));
                    start += 1;
                }
                assert(path@.subrange(start as int, len as int) == path@.skip(start as int));
                join(h, path.substring_char(start, len))
            },
            None => String::from_str(path),
        }
    } else {
        String::from_str(path)
    }
}

} // verus!
