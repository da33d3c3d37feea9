//! The names of the files that hold metadata: `mod.`, a module, a kind and what
//! the kind asks for, each after a dot, and `.json` at the end.

use vstd::prelude::*;
use vstd::string::StrSliceExecFns;
use crate::fold::{first_index, lemma_first_index_at, lemma_first_index_none};
use crate::text::str_eq;

verus! {

/// What a file of metadata holds.
#[derive(Debug, Clone, Copy, PartialEq, Eq, Hash, Structural)]
pub enum MetadataFile {
    /// A function of a module.
    Function,
    /// A function of an `impl` block.
    ImplFunction,
    /// A type.
    Type,
}

/// Why a file name is not that of a file of metadata.
#[derive(Debug, Clone, Copy, PartialEq, Eq, Hash, Structural)]
pub enum FileNameError {
    /// The name does not end in `.json`.
    NotJson,
    /// The name does not begin with `mod.`.
    NoModPrefix,
    /// The name of the type is missing after `impl`.
    MissingTypeName,
    /// The name follows no known pattern.
    Unexpected,
}

/// The place of the first dot.
pub open spec fn first_dot(s: Seq<char>) -> Option<int> {
    first_index(s, |c: char| c == '.')
}

/// What stands before the first dot; all of it, where there is no dot.
pub open spec fn head(s: Seq<char>) -> Seq<char> {
    match first_dot(s) {
        Some(i) => s.take(i),
        None => s,
    }
}

/// What stands after the first dot, where there is a dot.
pub open spec fn tail(s: Seq<char>) -> Option<Seq<char>> {
    match first_dot(s) {
        Some(i) => Some(s.skip(i + 1)),
        None => None,
    }
}

/// What stands before `suffix`, where the text ends in it.
pub open spec fn without_suffix(s: Seq<char>, suffix: Seq<char>) -> Option<Seq<char>> {
    if s.len() >= suffix.len() && s.skip(s.len() - suffix.len()) == suffix {
        Some(s.take(s.len() - suffix.len()))
    } else {
        None
    }
}

/// What stands after `prefix`, where the text begins with it.
pub open spec fn without_prefix(s: Seq<char>, prefix: Seq<char>) -> Option<Seq<char>> {
    if s.len() >= prefix.len() && s.take(prefix.len() as int) == prefix {
        Some(s.skip(prefix.len() as int))
    } else {
        None
    }
}

/// What follows the module in a file name: `fn` for a function; `impl`, a
/// type and `fn` for a function of an `impl` block; `type` for a type.
pub open spec fn kind_of(after_module: Seq<char>) -> Result<MetadataFile, FileNameError> {
    let kind = head(after_module);
    if kind == "fn"@ {
        Ok(MetadataFile::Function)
    } else if kind == "impl"@ {
        match tail(after_module) {
            None => Err(FileNameError::MissingTypeName),
            Some(after_impl) => match tail(after_impl) {
                Some(after_type) => if head(after_type) == "fn"@ {
                    Ok(MetadataFile::ImplFunction)
                } else {
                    Err(FileNameError::Unexpected)
                },
                None => Err(FileNameError::Unexpected),
            },
        }
    } else if kind == "type"@ {
        Ok(MetadataFile::Type)
    } else {
        Err(FileNameError::Unexpected)
    }
}

/// What the file named `name` holds, by its name.
pub open spec fn classified(name: Seq<char>) -> Result<MetadataFile, FileNameError> {
    match without_suffix(name, ".json"@) {
        None => Err(FileNameError::NotJson),
        Some(base) => match without_prefix(base, "mod."@) {
            None => Err(FileNameError::NoModPrefix),
            Some(rest) => match tail(rest) {
                None => Err(FileNameError::Unexpected),
                Some(after_module) => kind_of(after_module),
            },
        },
    }
}

/// What an optional text holds.
pub open spec fn optional_view(s: Option<&str>) -> Option<Seq<char>> {
    match s {
        Some(s) => Some(s@),
        None => None,
    }
}

/// Cuts a text at its first dot.
pub fn split_at_dot<'a>(s: &'a str) -> (r: (&'a str, Option<&'a str>))
    ensures
        r.0@ == head(s@),
        optional_view(r.1) == tail(s@),
{
    let ghost is_dot = |c: char| c == '.';
    let n = s.unicode_len();
    let mut i: usize = 0;
    while i < n
        invariant
            n == s@.len(),
            i <= n,
            is_dot == (|c: char| c == '.'),
            forall|j: int| 0 <= j < i ==> !is_dot(#[trigger] s@[j]),
        decreases n - i,
    {
        if s.get_char(i) == '.' {
            proof {
                lemma_first_index_at(s@, is_dot, i as int);
                assert(s@.subrange(0, i as int) =~= s@.take(i as int));
                assert(s@.subrange(i as int + 1, n as int) =~= s@.skip(i as int + 1));
            }
            return (s.substring_char(0, i), Some(s.substring_char(i + 1, n)));
        }
        i += 1;
    }
    proof {
        lemma_first_index_none(s@, is_dot);
    }
    (s, None)
}

/// Takes `suffix` off the end of a text that ends in it.
pub fn strip_suffix<'a>(s: &'a str, suffix: &str) -> (r: Option<&'a str>)
    ensures
        optional_view(r) == without_suffix(s@, suffix@),
{
    let n = s.unicode_len();
    let m = suffix.unicode_len();
    if n < m {
        return None;
    }
    proof {
        assert(s@.subrange(n - m, n as int) =~= s@.skip(n - m));
        assert(s@.subrange(0, n - m) =~= s@.take(n - m));
    }
    if str_eq(s.substring_char(n - m, n), suffix) {
        Some(s.substring_char(0, n - m))
    } else {
        None
    }
}

/// Takes `prefix` off the front of a text that begins with it.
pub fn strip_prefix<'a>(s: &'a str, prefix: &str) -> (r: Option<&'a str>)
    ensures
        optional_view(r) == without_prefix(s@, prefix@),
{
    let n = s.unicode_len();
    let m = prefix.unicode_len();
    if n < m {
        return None;
    }
    proof {
        assert(s@.subrange(0, m as int) =~= s@.take(m as int));
        assert(s@.subrange(m as int, n as int) =~= s@.skip(m as int));
    }
    if str_eq(s.substring_char(0, m), prefix) {
        Some(s.substring_char(m, n))
    } else {
        None
    }
}

/// Tells by its name what a file of metadata holds.
pub fn classify(file_name: &str) -> (r: Result<MetadataFile, FileNameError>)
    ensures
        r == classified(file_name@),
{
    let base = match strip_suffix(file_name, ".json") {
        Some(b) => b,
        None => {
            return Err(FileNameError::NotJson);
        },
    };
    let rest = match strip_prefix(base, "mod.") {
        Some(r) => r,
        None => {
            return Err(FileNameError::NoModPrefix);
        },
    };
    let after_module = match split_at_dot(rest).1 {
        Some(a) => a,
        None => {
            return Err(FileNameError::Unexpected);
        },
    };
    let (kind, after_kind) = split_at_dot(after_module);
    if str_eq(kind, "fn") {
        Ok(MetadataFile::Function)
    } else if str_eq(kind, "impl") {
        match after_kind {
            None => Err(FileNameError::MissingTypeName),
            Some(after_impl) => match split_at_dot(after_impl).1 {
                Some(after_type) => if str_eq(split_at_dot(after_type).0, "fn") {
                    Ok(MetadataFile::ImplFunction)
                } else {
                    Err(FileNameError::Unexpected)
                },
                None => Err(FileNameError::Unexpected),
            },
        }
    } else if str_eq(kind, "type") {
        Ok(MetadataFile::Type)
    } else {
        Err(FileNameError::Unexpected)
    }
}

} // verus!
