//! The path under which a file is shown.

use vstd::prelude::*;
use crate::text::optional_text;

verus! {

/// What is left of the path `path` once the path `base` is taken off its
/// front, component by component, as std's paths do it; `None` where `base`
/// is no front part of `path`.
pub uninterp spec fn path_without_prefix(path: Seq<char>, base: Seq<char>) -> Option<Seq<char>>;

/// `Path::strip_prefix` of std, on paths given as text: what is left of
/// `path` without `base` depends on the two alone.
#[verifier::external_body]
fn strip_prefix(path: &str, base: &str) -> (rest: Option<String>)
    ensures
        rest is Some <==> path_without_prefix(path@, base@) is Some,
        rest matches Some(text) ==> path_without_prefix(path@, base@) == Some(text@),
{
    std::path::Path::new(path).strip_prefix(base).ok().map(|rest| rest.to_string_lossy().into_owned())
}

/// What is shown for a path relative to a directory: a dot for the
/// directory itself.
pub open spec fn shown_relative(rest: Seq<char>) -> Seq<char> {
    if rest.len() == 0 {
        "."@
    } else {
        rest
    }
}

/// The display path of `path`, given what is left of it below the working
/// directory and below `.`: the first of the two that there is, and else
/// the path as it is.
pub open spec fn chosen_display_path(
    path: Seq<char>,
    under_cwd: Option<Seq<char>>,
    under_dot: Option<Seq<char>>,
) -> Seq<char> {
    match under_cwd {
        Some(rest) => shown_relative(rest),
        None => match under_dot {
            Some(rest) => shown_relative(rest),
            None => path,
        },
    }
}

/// The display path of `path` where the working directory is `cwd`, or is
/// not known.
pub open spec fn display_path(path: Seq<char>, cwd: Option<Seq<char>>) -> Seq<char> {
    chosen_display_path(
        path,
        match cwd {
            Some(dir) => path_without_prefix(path, dir),
            None => None,
        },
        path_without_prefix(path, "."@),
    )
}

/// What is shown for a path relative to a directory.
fn show_relative(rest: String) -> (shown: String)
    ensures
        shown@ == shown_relative(rest@),
{
    if rest.as_str().is_empty() {
        String::from_str(".")
    } else {
        rest
    }
}

/// The display path of `path`, given what is left of it below the working
/// directory, if it lies there, and below `.`, if it lies there.
pub fn choose_display_path(path: &str, under_cwd: Option<String>, under_dot: Option<String>) -> (shown:
    String)
    ensures
        shown@ == chosen_display_path(path@, optional_text(under_cwd), optional_text(under_dot)),
{
    match under_cwd {
        Some(rest) => show_relative(rest),
        None => match under_dot {
            Some(rest) => show_relative(rest),
            None => String::from_str(path),
        },
    }
}

/// The path under which the file at `path` is shown: relative to the
/// working directory `cwd` where it lies below it, else without a leading
/// `.` component where it has one, else as it is.
pub fn normalize_display_path(path: &str, cwd: Option<&str>) -> (shown: String)
    ensures
        shown@ == display_path(
            path@,
            match cwd {
                Some(dir) => Some(dir@),
                None => None,
            },
        ),
{
    let under_cwd: Option<String> = match cwd {
        Some(dir) => strip_prefix(path, dir),
        None => None,
    };
    if under_cwd.is_some() {
        return choose_display_path(path, under_cwd, None);
    }
    choose_display_path(path, None, strip_prefix(path, "."))
}

} // verus!
