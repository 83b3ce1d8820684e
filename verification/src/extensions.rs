//! The file extensions that are counted.

use vstd::prelude::*;
use crate::text::{optional_text, texts};

verus! {

/// The lower-case form that Unicode gives a text that holds a character
/// outside ASCII.
pub uninterp spec fn unicode_lowercase(text: Seq<char>) -> Seq<char>;

/// The extension that std's paths find in the path `path`, if there is one.
pub uninterp spec fn path_extension(path: Seq<char>) -> Option<Seq<char>>;

/// `str::to_lowercase` of std: the lower-case form of the text, which
/// depends on the text alone. In a text of ASCII characters the letters
/// `A` to `Z` are replaced by `a` to `z` and nothing else changes.
#[verifier::external_body]
fn to_lowercase(text: &str) -> (lower: String)
    ensures
        vstd::utf8::is_ascii_chars(text@) ==> lower@ == ascii_lowercase(text@),
        !vstd::utf8::is_ascii_chars(text@) ==> lower@ == unicode_lowercase(text@),
{
    text.to_lowercase()
}

/// `Path::extension` of std, on a path given as text: what the path's
/// extension is depends on the path alone.
#[verifier::external_body]
fn extension_of(path: &str) -> (extension: Option<String>)
    ensures
        extension is Some <==> path_extension(path@) is Some,
        extension matches Some(text) ==> path_extension(path@) == Some(text@),
{
    std::path::Path::new(path).extension().and_then(|e| e.to_str()).map(|e| e.to_string())
}

/// The ASCII lower-case form of a character.
pub open spec fn ascii_lower(c: char) -> char {
    if 'A' <= c && c <= 'Z' {
        ((c as u32) + 32) as char
    } else {
        c
    }
}

/// The text with each of its characters in ASCII lower case.
pub open spec fn ascii_lowercase(text: Seq<char>) -> Seq<char> {
    text.map_values(|c: char| ascii_lower(c))
}

/// The lower-case form of the text: of a text of ASCII characters the text
/// with `A` to `Z` replaced by `a` to `z`, of any other text what Unicode
/// gives.
pub open spec fn lowercase(text: Seq<char>) -> Seq<char> {
    if vstd::utf8::is_ascii_chars(text) {
        ascii_lowercase(text)
    } else {
        unicode_lowercase(text)
    }
}

/// The text without the dot it may begin with.
pub open spec fn without_leading_dot(text: Seq<char>) -> Seq<char> {
    if text.len() > 0 && text[0] == '.' {
        text.skip(1)
    } else {
        text
    }
}

/// The form in which a configured extension is kept: without a leading
/// dot, in lower case.
pub open spec fn normalized_extension(text: Seq<char>) -> Seq<char> {
    lowercase(without_leading_dot(text))
}

/// The extensions that a configuration names: `elm` where it names none,
/// else each of the given ones in its normalized form.
pub open spec fn configured_extensions(given: Seq<Seq<char>>) -> Set<Seq<char>> {
    if given.len() == 0 {
        set!["elm"@]
    } else {
        Set::new(
            |e: Seq<char>|
                exists|i: int| 0 <= i < given.len() && normalized_extension(#[trigger] given[i]) == e,
        )
    }
}

/// Whether a file whose path has the extension `extension` is counted under
/// the allowed extensions `allowed`: it has one, and its lower-case form is
/// allowed.
pub open spec fn extension_allowed(extension: Option<Seq<char>>, allowed: Set<Seq<char>>) -> bool {
    match extension {
        Some(text) => allowed.contains(lowercase(text)),
        None => false,
    }
}

/// Matching extensions ignores case: two extensions with the same
/// lower-case form are allowed alike, whatever the set.
pub proof fn lemma_extension_case_is_ignored(
    first: Seq<char>,
    second: Seq<char>,
    allowed: Set<Seq<char>>,
)
    requires
        lowercase(first) == lowercase(second),
    ensures
        extension_allowed(Some(first), allowed) == extension_allowed(Some(second), allowed),
{
}

/// An extension is allowed under a configuration that names it in any
/// case, with or without a leading dot: it is enough that its lower-case
/// form is that of one of the extensions given, taken without its dot.
pub proof fn lemma_configured_extension_is_allowed(
    found: Seq<char>,
    given: Seq<Seq<char>>,
    i: int,
)
    requires
        0 <= i < given.len(),
        lowercase(found) == lowercase(without_leading_dot(given[i])),
    ensures
        extension_allowed(Some(found), configured_extensions(given)),
{
    assert(normalized_extension(given[i]) == lowercase(found));
}

/// The extension of the path `path`, if it has one.
pub fn file_extension(path: &str) -> (extension: Option<String>)
    ensures
        optional_text(extension) == path_extension(path@),
{
    extension_of(path)
}

/// Removes the dot that `text` may begin with.
pub fn strip_leading_dot(text: &str) -> (rest: &str)
    ensures
        rest@ == without_leading_dot(text@),
{
    let len: usize = text.unicode_len();
    if len > 0 && text.get_char(0) == '.' {
        let rest = text.substring_char(1, len);
        assert(rest@ =~= text@.skip(1));
        rest
    } else {
        text
    }
}

/// Brings a configured extension into the form in which it is kept.
pub fn normalize_extension(text: &str) -> (normal: String)
    ensures
        normal@ == normalized_extension(text@),
{
    to_lowercase(strip_leading_dot(text))
}

/// A set of file extensions.
#[derive(Debug)]
pub struct ExtensionSet {
    items: Vec<String>,
}

impl View for ExtensionSet {
    type V = Set<Seq<char>>;

    closed spec fn view(&self) -> Set<Seq<char>> {
        Set::new(|e: Seq<char>| exists|i: int| 0 <= i < self.items.len() && (#[trigger] self.items[i])@ == e)
    }
}

impl ExtensionSet {
    #[verifier::type_invariant]
    spec fn no_extension_twice(self) -> bool {
        forall|i: int, j: int|
            0 <= i < j < self.items.len() ==> (#[trigger] self.items[i])@ != (#[trigger] self.items[j])@
    }

    /// The set without extensions.
    pub fn new() -> (set: ExtensionSet)
        ensures
            set@ == Set::<Seq<char>>::empty(),
    {
        let set = ExtensionSet { items: Vec::new() };
        assert(set@ =~= Set::<Seq<char>>::empty());
        set
    }

    /// Whether `extension` is in the set.
    pub fn contains(&self, extension: &str) -> (found: bool)
        ensures
            found == self@.contains(extension@),
    {
        let wanted: String = String::from_str(extension);
        let mut i: usize = 0;
        while i < self.items.len()
            invariant
                i <= self.items.len(),
                wanted@ == extension@,
                forall|k: int| 0 <= k < i ==> (#[trigger] self.items[k])@ != extension@,
            decreases self.items.len() - i,
        {
            if self.items[i] == wanted {
                return true;
            }
            i = i + 1;
        }
        false
    }

    /// The set with `extension` added to it.
    pub fn with(self, extension: String) -> (set: ExtensionSet)
        ensures
            set@ == self@.insert(extension@),
    {
        if self.contains(extension.as_str()) {
            assert(self@ =~= self@.insert(extension@));
            return self;
        }
        proof {
            use_type_invariant(&self);
        }
        let ghost before = self.items@;
        assert forall|i: int| 0 <= i < before.len() implies (#[trigger] before[i])@
            != extension@ by {
            if before[i]@ == extension@ {
                assert(self.items[i]@ == extension@);
                assert(self@.contains(extension@));
            }
        }
        let mut items = self.items;
        items.push(extension);
        assert forall|i: int, j: int| 0 <= i < j < items.len() implies (#[trigger] items[i])@ != (
        #[trigger] items[j])@ by {
            if j < before.len() {
                assert(before[i]@ != before[j]@);
            } else {
                assert(before[i]@ != extension@);
            }
        }
        let set = ExtensionSet { items };
        assert(set@ =~= self@.insert(extension@)) by {
            assert forall|e: Seq<char>| #[trigger]
                self@.insert(extension@).contains(e) implies set@.contains(e) by {
                if e == extension@ {
                    assert(set.items[before.len() as int]@ == e);
                } else {
                    let i = choose|i: int| 0 <= i < before.len() && (#[trigger] before[i])@ == e;
                    assert(set.items[i]@ == e);
                }
            }
            assert forall|e: Seq<char>| #[trigger] set@.contains(e) implies self@.insert(
                extension@,
            ).contains(e) by {
                let i = choose|i: int| 0 <= i < set.items.len() && (#[trigger] set.items[i])@ == e;
                if i < before.len() {
                    assert(before[i]@ == e);
                }
            }
        }
        set
    }

    /// Whether a file with the path `path` has an allowed extension.
    pub fn allows_path(&self, path: &str) -> (allowed: bool)
        ensures
            allowed == extension_allowed(path_extension(path@), self@),
    {
        match file_extension(path) {
            Some(extension) => self.allows(Some(extension.as_str())),
            None => self.allows(None),
        }
    }

    /// Whether a file whose path has the extension `extension` is counted:
    /// one without an extension never is.
    pub fn allows(&self, extension: Option<&str>) -> (allowed: bool)
        ensures
            allowed == extension_allowed(
                match extension {
                    Some(text) => Some(text@),
                    None => None,
                },
                self@,
            ),
    {
        match extension {
            Some(text) => {
                let lower = to_lowercase(text);
                self.contains(lower.as_str())
            },
            None => false,
        }
    }
}

/// The set of extensions that a configuration names: `elm` where it names
/// none, else each given one without its leading dot and in lower case.
pub fn include_extensions(given: &Vec<String>) -> (set: ExtensionSet)
    ensures
        set@ == configured_extensions(texts(given@)),
{
    let mut set = ExtensionSet::new();
    if given.len() == 0 {
        set = set.with(String::from_str("elm"));
        assert(set@ =~= set!["elm"@]);
        return set;
    }
    let ghost names = texts(given@);
    let mut i: usize = 0;
    while i < given.len()
        invariant
            i <= given.len(),
            names == texts(given@),
            set@ == Set::new(
                |e: Seq<char>|
                    exists|k: int| 0 <= k < i && normalized_extension(#[trigger] names[k]) == e,
            ),
        decreases given.len() - i,
    {
        let ghost before = set@;
        let normal = normalize_extension(given[i].as_str());
        set = set.with(normal);
        proof {
            let next = Set::new(
                |e: Seq<char>|
                    exists|k: int| 0 <= k < i + 1 && normalized_extension(#[trigger] names[k]) == e,
            );
            assert forall|e: Seq<char>| set@.contains(e) implies next.contains(e) by {
                if e == normal@ {
                    assert(normalized_extension(names[i as int]) == e);
                } else {
                    assert(before.contains(e));
                    let k = choose|k: int|
                        0 <= k < i && normalized_extension(#[trigger] names[k]) == e;
                    assert(normalized_extension(names[k]) == e);
                }
            }
            assert forall|e: Seq<char>| next.contains(e) implies set@.contains(e) by {
                let k = choose|k: int|
                    0 <= k < i + 1 && normalized_extension(#[trigger] names[k]) == e;
                if k < i {
                    assert(before.contains(e));
                }
            }
            assert(set@ =~= next);
        }
        i = i + 1;
    }
    assert(set@ =~= configured_extensions(names));
    set
}

} // verus!
