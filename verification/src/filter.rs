//! The glob patterns that keep paths out of a run.

use vstd::prelude::*;
use crate::text::texts;

verus! {

/// A parsed glob pattern of the `globset` crate.
#[verifier::external_type_specification]
#[verifier::external_body]
pub struct ExGlob(globset::Glob);

/// The builder of a glob set of the `globset` crate.
#[verifier::external_type_specification]
#[verifier::external_body]
pub struct ExGlobSetBuilder(globset::GlobSetBuilder);

/// A set of globs of the `globset` crate, matched in one pass.
#[verifier::external_type_specification]
#[verifier::external_body]
pub struct ExGlobSet(globset::GlobSet);

/// The error of the `globset` crate.
#[verifier::external_type_specification]
#[verifier::external_body]
pub struct ExGlobError(globset::Error);

/// Whether the text is a glob pattern that parses with the default options.
pub uninterp spec fn glob_parses(pattern: Seq<char>) -> bool;

/// Whether globs with these pattern texts, parsed with the default options,
/// can be built into one set.
pub uninterp spec fn glob_set_builds(patterns: Seq<Seq<char>>) -> bool;

/// Whether a set of globs with these pattern texts, parsed with the default
/// options, matches the path.
pub uninterp spec fn glob_set_matches(patterns: Seq<Seq<char>>, path: Seq<char>) -> bool;

/// The pattern text that a glob was parsed from.
pub uninterp spec fn glob_pattern(glob: globset::Glob) -> Seq<char>;

/// The pattern texts of the globs that a builder holds, in the order in
/// which they were added.
pub uninterp spec fn builder_patterns(builder: globset::GlobSetBuilder) -> Seq<Seq<char>>;

/// The pattern texts of the globs that a set was built from, in order.
pub uninterp spec fn set_patterns(set: globset::GlobSet) -> Seq<Seq<char>>;

/// `globset::Glob::new`: parses the pattern with the default options.
/// Whether it parses depends on the pattern alone, and the glob that comes
/// back keeps the pattern's text.
#[verifier::external_body]
fn glob_new(pattern: &str) -> (parsed: Result<globset::Glob, globset::Error>)
    ensures
        parsed is Ok <==> glob_parses(pattern@),
        parsed matches Ok(glob) ==> glob_pattern(glob) == pattern@,
{
    globset::Glob::new(pattern)
}

/// `globset::GlobSetBuilder::new`: a builder that holds no glob.
#[verifier::external_body]
fn builder_new() -> (builder: globset::GlobSetBuilder)
    ensures
        builder_patterns(builder) == Seq::<Seq<char>>::empty(),
{
    globset::GlobSetBuilder::new()
}

/// `globset::GlobSetBuilder::add`: puts the glob behind those that the
/// builder holds.
#[verifier::external_body]
fn builder_add(builder: &mut globset::GlobSetBuilder, glob: globset::Glob)
    ensures
        builder_patterns(*final(builder)) == builder_patterns(*old(builder)).push(
            glob_pattern(glob),
        ),
{
    builder.add(glob);
}

/// `globset::GlobSetBuilder::build`: builds the set of the globs that the
/// builder holds. Whether that succeeds depends on their patterns alone,
/// for globs parsed with the default options; the set is built from all of
/// them, in order.
#[verifier::external_body]
fn builder_build(builder: &globset::GlobSetBuilder) -> (built: Result<
    globset::GlobSet,
    globset::Error,
>)
    ensures
        built is Ok <==> glob_set_builds(builder_patterns(*builder)),
        built matches Ok(set) ==> set_patterns(set) == builder_patterns(*builder),
{
    builder.build()
}

/// `globset::GlobSet::is_match`: whether any glob of the set matches the
/// path. For a set of globs parsed with the default options this depends on
/// their patterns and the path alone.
#[verifier::external_body]
fn set_is_match(set: &globset::GlobSet, path: &str) -> (matched: bool)
    ensures
        matched == glob_set_matches(set_patterns(*set), path@),
{
    set.is_match(path)
}

/// The text that `globset::Error` shows. Nothing is claimed of it.
#[verifier::external_body]
fn glob_error_text(error: &globset::Error) -> (text: String) {
    error.to_string()
}

/// Why a filter could not be made.
#[derive(Clone, Debug, PartialEq, Eq)]
pub enum FilterError {
    /// A pattern is no glob.
    InvalidGlob { pattern: String, reason: String },
    /// The patterns are globs, but no set could be built of them.
    BuildFailed { reason: String },
}

impl FilterError {
    /// The text shown for this error.
    pub fn message(&self) -> (text: String)
        ensures
            text@ == match *self {
                FilterError::InvalidGlob { pattern, reason } => "invalid glob pattern: "@
                    + pattern@ + ": "@ + reason@,
                FilterError::BuildFailed { reason } => "failed to build glob set: "@ + reason@,
            },
    {
        let mut text = String::new();
        match self {
            FilterError::InvalidGlob { pattern, reason } => {
                text.append("invalid glob pattern: ");
                text.append(pattern.as_str());
                text.append(": ");
                text.append(reason.as_str());
                assert(text@ =~= "invalid glob pattern: "@ + pattern@ + ": "@ + reason@);
            },
            FilterError::BuildFailed { reason } => {
                text.append("failed to build glob set: ");
                text.append(reason.as_str());
                assert(text@ =~= "failed to build glob set: "@ + reason@);
            },
        }
        text
    }
}

/// The patterns that are always excluded: the directories of version
/// control, of build output and of fetched dependencies.
pub open spec fn default_patterns() -> Seq<Seq<char>> {
    seq![
        "**/.git/**"@,
        "**/.git"@,
        "**/target/**"@,
        "**/target"@,
        "**/node_modules/**"@,
        "**/node_modules"@,
    ]
}

/// A matcher for the paths that are kept out of a run.
pub struct PathFilter {
    set: globset::GlobSet,
}

impl PathFilter {
    /// The pattern texts that the filter was made from.
    pub closed spec fn patterns(&self) -> Seq<Seq<char>> {
        set_patterns(self.set)
    }

    /// Whether the filter matches `path`.
    pub open spec fn excludes(&self, path: Seq<char>) -> bool {
        glob_set_matches(self.patterns(), path)
    }

    /// Whether any pattern of the filter matches `path`.
    pub fn matches(&self, path: &str) -> (matched: bool)
        ensures
            matched == self.excludes(path@),
    {
        set_is_match(&self.set, path)
    }
}

/// Whether each of `patterns` is a glob.
pub open spec fn all_parse(patterns: Seq<Seq<char>>) -> bool {
    forall|i: int| 0 <= i < patterns.len() ==> glob_parses(#[trigger] patterns[i])
}

/// Whether `outcome` is what making a filter of `patterns` gives: a filter
/// of just these patterns where each is a glob and a set can be built of
/// them; else the first pattern that is no glob as an error, or the
/// failure to build the set.
pub open spec fn filter_outcome_is(
    outcome: Result<PathFilter, FilterError>,
    patterns: Seq<Seq<char>>,
) -> bool {
    match outcome {
        Ok(filter) => all_parse(patterns) && glob_set_builds(patterns) && filter.patterns()
            == patterns,
        Err(FilterError::InvalidGlob { pattern, reason }) => exists|i: int|
            0 <= i < patterns.len() && all_parse(patterns.take(i)) && !glob_parses(
                #[trigger] patterns[i],
            ) && pattern@ == patterns[i],
        Err(FilterError::BuildFailed { reason }) => all_parse(patterns) && !glob_set_builds(
            patterns,
        ),
    }
}

/// The six default patterns, as they are handed to the glob parser.
fn default_pattern_list() -> (list: Vec<String>)
    ensures
        texts(list@) == default_patterns(),
{
    let mut list: Vec<String> = Vec::new();
    list.push(String::from_str("**/.git/**"));
    list.push(String::from_str("**/.git"));
    list.push(String::from_str("**/target/**"));
    list.push(String::from_str("**/target"));
    list.push(String::from_str("**/node_modules/**"));
    list.push(String::from_str("**/node_modules"));
    assert(texts(list@) =~= default_patterns());
    list
}

/// Makes a filter of exactly the patterns `patterns`.
pub fn build_globset(patterns: &Vec<String>) -> (outcome: Result<PathFilter, FilterError>)
    ensures
        filter_outcome_is(outcome, texts(patterns@)),
{
    let ghost given = texts(patterns@);
    let mut builder = builder_new();
    let mut i: usize = 0;
    assert(given.take(0) =~= Seq::<Seq<char>>::empty());
    while i < patterns.len()
        invariant
            i <= patterns.len(),
            given == texts(patterns@),
            builder_patterns(builder) == given.take(i as int),
            all_parse(given.take(i as int)),
        decreases patterns.len() - i,
    {
        match glob_new(patterns[i].as_str()) {
            Ok(glob) => {
                builder_add(&mut builder, glob);
                proof {
                    let longer = given.take(i as int + 1);
                    assert(longer =~= given.take(i as int).push(patterns[i as int]@));
                    assert forall|k: int| 0 <= k < longer.len() implies glob_parses(
                        #[trigger] longer[k],
                    ) by {
                        if k < i {
                            assert(given.take(i as int)[k] == longer[k]);
                        }
                    }
                }
            },
            Err(error) => {
                assert(!glob_parses(given[i as int]));
                return Err(
                    FilterError::InvalidGlob {
                        pattern: patterns[i].clone(),
                        reason: glob_error_text(&error),
                    },
                );
            },
        }
        i = i + 1;
    }
    assert(given.take(i as int) =~= given);
    match builder_build(&builder) {
        Ok(set) => Ok(PathFilter { set }),
        Err(error) => Err(FilterError::BuildFailed { reason: glob_error_text(&error) }),
    }
}

/// Makes the filter of a run: of the patterns `patterns` and, behind them,
/// of the default patterns.
pub fn build_exclude_globset(patterns: Vec<String>) -> (outcome: Result<PathFilter, FilterError>)
    ensures
        filter_outcome_is(outcome, texts(patterns@) + default_patterns()),
{
    let mut patterns = patterns;
    let ghost given = texts(patterns@);
    let mut defaults = default_pattern_list();
    patterns.append(&mut defaults);
    assert(texts(patterns@) =~= given + default_patterns());
    build_globset(&patterns)
}

} // verus!
