//! Rules on the strings that may name a framework, an id or a category.
//!
//! A framework tag doubles as a file-name fragment, so this module is the one
//! gate between what a client sends and what may become part of a path.
use vstd::prelude::*;
use crate::text::{chars_of, contains_char, seq_contains};

verus! {

/// Longest framework tag accepted, in characters.
pub const MAX_FRAMEWORK_LEN: usize = 64;

/// Longest pattern id accepted, in characters.
pub const MAX_ID_LEN: usize = 128;

/// Longest category accepted, in characters.
pub const MAX_CATEGORY_LEN: usize = 64;

/// A character allowed in a framework tag: ASCII letters, digits, `-`, `_`, `.`.
pub open spec fn is_framework_char(c: char) -> bool {
    ('a' <= c && c <= 'z') || ('A' <= c && c <= 'Z') || ('0' <= c && c <= '9') || c == '-'
        || c == '_' || c == '.'
}

/// Why a framework tag is refused.
#[derive(Clone, Copy, Debug, PartialEq, Eq, Structural)]
pub enum FrameworkError {
    Empty,
    ParentReference,
    PathSeparator,
    Colon,
    NullByte,
    InvalidCharacter,
    LeadingDot,
    TooLong,
}

/// The first rule that the tag `s` breaks, checked in a fixed order, if any.
pub open spec fn framework_error(s: Seq<char>) -> Option<FrameworkError> {
    if s.len() == 0 {
        Some(FrameworkError::Empty)
    } else if seq_contains(s, seq!['.', '.']) {
        Some(FrameworkError::ParentReference)
    } else if s.contains('/') || s.contains('\\') {
        Some(FrameworkError::PathSeparator)
    } else if s.contains(':') {
        Some(FrameworkError::Colon)
    } else if s.contains('\0') {
        Some(FrameworkError::NullByte)
    } else if exists|i: int| 0 <= i < s.len() && !is_framework_char(#[trigger] s[i]) {
        Some(FrameworkError::InvalidCharacter)
    } else if s[0] == '.' {
        Some(FrameworkError::LeadingDot)
    } else if s.len() > MAX_FRAMEWORK_LEN {
        Some(FrameworkError::TooLong)
    } else {
        None
    }
}

/// A tag that may be used as a framework name and file-name fragment.
pub open spec fn valid_framework(s: Seq<char>) -> bool {
    framework_error(s) is None
}

/// The sentence that describes each refusal.
pub open spec fn framework_error_text(e: FrameworkError) -> Seq<char> {
    match e {
        FrameworkError::Empty => "Framework name cannot be empty"@,
        FrameworkError::ParentReference => "Framework name cannot contain '..'"@,
        FrameworkError::PathSeparator => "Framework name cannot contain path separators"@,
        FrameworkError::Colon => "Framework name cannot contain ':'"@,
        FrameworkError::NullByte => "Framework name cannot contain null bytes"@,
        FrameworkError::InvalidCharacter => "Framework name contains invalid characters. Allowed: ASCII letters, digits, '-', '_', '.'"@,
        FrameworkError::LeadingDot => "Framework name cannot start with '.'"@,
        FrameworkError::TooLong => "Framework name too long (max 64 characters)"@,
    }
}

impl FrameworkError {
    /// A sentence describing the refusal.
    pub fn message(&self) -> (r: String)
        ensures
            r@ == framework_error_text(*self),
    {
        match self {
            FrameworkError::Empty => String::from_str("Framework name cannot be empty"),
            FrameworkError::ParentReference => String::from_str(
                "Framework name cannot contain '..'",
            ),
            FrameworkError::PathSeparator => String::from_str(
                "Framework name cannot contain path separators",
            ),
            FrameworkError::Colon => String::from_str("Framework name cannot contain ':'"),
            FrameworkError::NullByte => String::from_str(
                "Framework name cannot contain null bytes",
            ),
            FrameworkError::InvalidCharacter => String::from_str(
                "Framework name contains invalid characters. Allowed: ASCII letters, digits, '-', '_', '.'",
            ),
            FrameworkError::LeadingDot => String::from_str("Framework name cannot start with '.'"),
            FrameworkError::TooLong => String::from_str(
                "Framework name too long (max 64 characters)",
            ),
        }
    }
}

fn is_framework_char_exec(c: char) -> (b: bool)
    ensures
        b == is_framework_char(c),
{
    ('a' <= c && c <= 'z') || ('A' <= c && c <= 'Z') || ('0' <= c && c <= '9') || c == '-'
        || c == '_' || c == '.'
}

/// Whether two consecutive dots occur in `v`.
fn has_double_dot(v: &Vec<char>) -> (b: bool)
    ensures
        b == seq_contains(v@, seq!['.', '.']),
{
    let ghost dd = seq!['.', '.'];
    let mut i: usize = 0;
    while i < v.len() && i + 1 < v.len()
        invariant
            i <= v.len(),
            dd == seq!['.', '.'],
            forall|j: int| 0 <= j < i ==> !(#[trigger] v@[j] == '.' && v@[j + 1] == '.'),
        decreases v.len() - i,
    {
        if v[i] == '.' && v[i + 1] == '.' {
            assert(v@.subrange(i as int, i + 2) =~= dd);
            assert(crate::text::occurs_at(v@, dd, i as int));
            return true;
        }
        i += 1;
    }
    assert forall|j: int| !crate::text::occurs_at(v@, dd, j) by {
        if crate::text::occurs_at(v@, dd, j) {
            assert(v@.subrange(j, j + 2)[0] == v@[j]);
            assert(v@.subrange(j, j + 2)[1] == v@[j + 1]);
        }
    }
    false
}

/// Whether some character of `v` is outside the framework alphabet.
fn has_foreign_char(v: &Vec<char>) -> (b: bool)
    ensures
        b == exists|i: int| 0 <= i < v@.len() && !is_framework_char(#[trigger] v@[i]),
{
    let mut i: usize = 0;
    while i < v.len()
        invariant
            i <= v.len(),
            forall|j: int| 0 <= j < i ==> is_framework_char(#[trigger] v@[j]),
        decreases v.len() - i,
    {
        if !is_framework_char_exec(v[i]) {
            return true;
        }
        i += 1;
    }
    false
}

/// Checks a framework tag and hands it back unchanged when every rule holds.
pub fn sanitize_framework_name(framework: &str) -> (r: Result<String, FrameworkError>)
    ensures
        match r {
            Ok(name) => valid_framework(framework@) && name@ == framework@,
            Err(e) => framework_error(framework@) == Some(e),
        },
{
    let v = chars_of(framework);
    if v.len() == 0 {
        return Err(FrameworkError::Empty);
    }
    if has_double_dot(&v) {
        return Err(FrameworkError::ParentReference);
    }
    if contains_char(&v, '/') || contains_char(&v, '\\') {
        return Err(FrameworkError::PathSeparator);
    }
    if contains_char(&v, ':') {
        return Err(FrameworkError::Colon);
    }
    if contains_char(&v, '\0') {
        return Err(FrameworkError::NullByte);
    }
    if has_foreign_char(&v) {
        return Err(FrameworkError::InvalidCharacter);
    }
    if v[0] == '.' {
        return Err(FrameworkError::LeadingDot);
    }
    if v.len() > MAX_FRAMEWORK_LEN {
        return Err(FrameworkError::TooLong);
    }
    Ok(String::from_str(framework))
}

} // verus!
