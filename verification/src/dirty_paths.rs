use vstd::prelude::*;
use vstd::utf8::*;
use crate::error::TmsError;
use crate::text::{chars_of, string_of};

verus! {

/// The path separator.
pub const SEPARATOR: char = '/';

/// `std::str::Utf8Error`, the reason why bytes are not UTF-8. It is only carried.
#[verifier::external_type_specification]
#[verifier::external_body]
pub struct ExUtf8Error(core::str::Utf8Error);

/// `std::str::from_utf8`: succeeds exactly on well-formed UTF-8, and the slice it returns
/// then holds the characters that the bytes encode.
pub assume_specification[ core::str::from_utf8 ](bytes: &[u8]) -> (r: Result<
    &str,
    core::str::Utf8Error,
>)
    ensures
        r is Ok <==> valid_utf8(bytes@),
        r matches Ok(s) ==> s@ == decode_utf8(bytes@),
;

/// `s` with every separator removed that directly follows another separator.
pub open spec fn collapse_separators(s: Seq<char>) -> Seq<char>
    decreases s.len(),
{
    if s.len() == 0 {
        s
    } else if s.len() >= 2 && s[s.len() - 1] == SEPARATOR && s[s.len() - 2] == SEPARATOR {
        collapse_separators(s.drop_last())
    } else {
        collapse_separators(s.drop_last()).push(s.last())
    }
}

/// `s` without its last character where that is a separator and not the whole of `s`.
pub open spec fn strip_trailing_separator(s: Seq<char>) -> Seq<char> {
    if s.len() >= 2 && s.last() == SEPARATOR {
        s.drop_last()
    } else {
        s
    }
}

/// The normal form of a textual path: runs of separators collapsed to one, a leading
/// separator kept, and no trailing separator unless the path is the root.
pub open spec fn normalize_spec(s: Seq<char>) -> Seq<char> {
    strip_trailing_separator(collapse_separators(s))
}

/// No two neighbours in `s` are both separators.
pub open spec fn no_adjacent_separators(s: Seq<char>) -> bool {
    forall|i: int| 0 <= i < s.len() - 1 ==> !(s[i] == SEPARATOR && #[trigger] s[i + 1] == SEPARATOR)
}

/// `s` is in normal form.
pub open spec fn is_normalized(s: Seq<char>) -> bool {
    &&& no_adjacent_separators(s)
    &&& s.len() >= 2 ==> s.last() != SEPARATOR
}

proof fn lemma_collapse_shape(s: Seq<char>)
    ensures
        no_adjacent_separators(collapse_separators(s)),
        collapse_separators(s).len() <= s.len(),
        s.len() > 0 ==> collapse_separators(s).len() > 0 && collapse_separators(s).last()
            == s.last(),
    decreases s.len(),
{
    if s.len() > 0 {
        lemma_collapse_shape(s.drop_last());
    }
}

proof fn lemma_collapse_fixed(s: Seq<char>)
    requires
        no_adjacent_separators(s),
    ensures
        collapse_separators(s) == s,
    decreases s.len(),
{
    if s.len() > 0 {
        let init = s.drop_last();
        assert forall|i: int| 0 <= i < init.len() - 1 implies !(init[i] == SEPARATOR
            && #[trigger] init[i + 1] == SEPARATOR) by {
            assert(init[i + 1] == s[i + 1]);
        }
        lemma_collapse_fixed(init);
        if s.len() >= 2 {
            assert(s[(s.len() - 2) + 1] == s.last());
        }
        assert(init.push(s.last()) =~= s);
    }
}

/// Every path's normal form is in normal form.
pub proof fn lemma_normalize_is_normalized(s: Seq<char>)
    ensures
        is_normalized(normalize_spec(s)),
{
    let c = collapse_separators(s);
    lemma_collapse_shape(s);
    let n = normalize_spec(s);
    if c.len() >= 2 && c.last() == SEPARATOR {
        assert(c[(c.len() - 2) + 1] == c.last());
        assert forall|i: int| 0 <= i < n.len() - 1 implies !(n[i] == SEPARATOR && #[trigger] n[i
            + 1] == SEPARATOR) by {
            assert(n[i + 1] == c[i + 1]);
        }
    }
}

/// A path in normal form is its own normal form.
pub proof fn lemma_normalized_is_fixed(s: Seq<char>)
    requires
        is_normalized(s),
    ensures
        normalize_spec(s) == s,
{
    lemma_collapse_fixed(s);
}

/// Normalizing is idempotent: a second pass changes nothing.
pub proof fn lemma_normalize_idempotent(p: Seq<char>)
    ensures
        normalize_spec(normalize_spec(p)) == normalize_spec(p),
{
    lemma_normalize_is_normalized(p);
    lemma_normalized_is_fixed(normalize_spec(p));
}

/// Brings a textual path into normal form. Only the text is looked at, never the
/// filesystem.
pub fn normalize_path(path: &str) -> (normal: String)
    ensures
        normal@ == normalize_spec(path@),
        is_normalized(normal@),
{
    let chars = chars_of(path);
    let mut result: Vec<char> = Vec::new();
    let mut prev_slash = false;
    let mut i: usize = 0;
    while i < chars.len()
        invariant
            i <= chars.len(),
            result@ == collapse_separators(chars@.take(i as int)),
            prev_slash == (i > 0 && chars@[i - 1] == SEPARATOR),
        decreases chars.len() - i,
    {
        let c = chars[i];
        proof {
            let next = chars@.take(i + 1);
            assert(next.drop_last() =~= chars@.take(i as int));
            assert(next.last() == c);
            if i > 0 {
                assert(next[next.len() - 2] == chars@[i - 1]);
            }
        }
        if c == SEPARATOR {
            if !prev_slash {
                result.push(c);
            }
            prev_slash = true;
        } else {
            result.push(c);
            prev_slash = false;
        }
        i += 1;
    }
    assert(chars@.take(chars.len() as int) =~= chars@);
    if result.len() >= 2 && result[result.len() - 1] == SEPARATOR {
        result.pop();
    }
    proof {
        lemma_normalize_is_normalized(path@);
    }
    string_of(&result)
}

/// A path as the operating system holds it: bytes that need not be text.
#[derive(Debug, Clone, PartialEq, Eq)]
pub struct OsPath {
    pub bytes: Vec<u8>,
}

/// Paths that may not be text and may hold repeated separators.
pub trait DirtyUtf8Path {
    /// What `to_string` returns.
    spec fn to_string_spec(&self) -> Result<Seq<char>, TmsError>;

    /// The path as normalized text; a path that is not UTF-8 is rejected.
    fn to_string(&self) -> (r: Result<String, TmsError>)
        ensures
            r is Ok <==> self.to_string_spec() is Ok,
            r matches Ok(text) ==> self.to_string_spec() == Ok::<Seq<char>, TmsError>(text@),
            r matches Err(e) ==> self.to_string_spec() == Err::<Seq<char>, TmsError>(e),
    ;
}

impl DirtyUtf8Path for OsPath {
    open spec fn to_string_spec(&self) -> Result<Seq<char>, TmsError> {
        if valid_utf8(self.bytes@) {
            Ok(normalize_spec(decode_utf8(self.bytes@)))
        } else {
            Err(TmsError::NonUtf8Path)
        }
    }

    fn to_string(&self) -> (r: Result<String, TmsError>) {
        match core::str::from_utf8(self.bytes.as_slice()) {
            Ok(text) => Ok(normalize_path(text)),
            Err(_) => Err(TmsError::NonUtf8Path),
        }
    }
}

} // verus!
