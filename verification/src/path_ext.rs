//! The extension filter: which paths name a candidate font file.
//!
//! A path is kept exactly when its final component has the extension `ttf`,
//! compared byte for byte (so the match is case-sensitive). This mirrors the
//! usual path semantics: the extension is what follows the last dot of the
//! final component, and a component whose only dot is its first byte (a
//! hidden file such as `.ttf`) has no extension at all.

use vstd::prelude::*;
use vstd::string::StringSliceAdditionalSpecFns;

verus! {

/// Byte value of `.`.
pub const DOT: u8 = 46;

/// Byte value of `/`.
pub const SLASH: u8 = 47;

/// Byte value of `t`.
pub const LETTER_T: u8 = 116;

/// Byte value of `f`.
pub const LETTER_F: u8 = 102;

/// The path bytes end in `.ttf`, and that dot is neither the first byte of
/// the whole path nor the first byte of the final component: exactly the
/// paths whose final component has the extension `ttf`.
pub open spec fn spec_has_ttf_ext(s: Seq<u8>) -> bool {
    &&& s.len() > 4
    &&& s[s.len() - 4] == DOT
    &&& s[s.len() - 3] == LETTER_T
    &&& s[s.len() - 2] == LETTER_T
    &&& s[s.len() - 1] == LETTER_F
    &&& s[s.len() - 5] != SLASH
}

/// Byte value of `T`.
pub const UPPER_T: u8 = 84;

/// Byte value of `F`.
pub const UPPER_F: u8 = 70;

/// The filter is case-sensitive: a path that ends in the uppercase `.TTF` is
/// never kept, whatever stands before it.
pub proof fn lemma_uppercase_ext_excluded(s: Seq<u8>)
    requires
        s.len() > 4,
        s[s.len() - 4] == DOT,
        s[s.len() - 3] == UPPER_T,
        s[s.len() - 2] == UPPER_T,
        s[s.len() - 1] == UPPER_F,
    ensures
        !spec_has_ttf_ext(s),
{
}

/// Decides, over the UTF-8 bytes of `path`, whether the file it names has
/// the exact (case-sensitive) extension `ttf`.
pub fn has_ttf_extension(path: &str) -> (r: bool)
    ensures
        r == spec_has_ttf_ext(path.spec_bytes()),
{
    let bytes = path.as_bytes();
    let n: usize = bytes.len();
    if n <= 4 {
        return false;
    }
    bytes[n - 4] == DOT && bytes[n - 3] == LETTER_T && bytes[n - 2] == LETTER_T && bytes[n - 1]
        == LETTER_F && bytes[n - 5] != SLASH
}

} // verus!
