//! Validation of the options of a run, made before anything is scanned.

use vstd::prelude::*;
use vstd::string::*;

verus! {

/// Why the options of a run are refused.
#[derive(Debug, Clone, Copy, PartialEq, Eq, Structural)]
pub enum ConfigError {
    /// The manifest file name does not end in the manifest extension.
    FileName,
}

/// `text` ends with `suffix`.
pub open spec fn ends_with(text: Seq<char>, suffix: Seq<char>) -> bool {
    &&& suffix.len() <= text.len()
    &&& text.subrange(text.len() - suffix.len(), text.len() as int) == suffix
}

/// The extension that a manifest file name must end in.
pub open spec fn manifest_extension() -> Seq<char> {
    ".toml"@
}

/// Whether `text` ends with `suffix`.
pub fn has_suffix(text: &str, suffix: &str) -> (r: bool)
    ensures
        r == ends_with(text@, suffix@),
{
    let n: usize = text.unicode_len();
    let k: usize = suffix.unicode_len();
    if k > n {
        return false;
    }
    let start: usize = n - k;
    let ghost tail = text@.subrange(start as int, n as int);
    let mut i: usize = 0;
    while i < k
        invariant
            i <= k,
            k <= n,
            start == n - k,
            n == text@.len(),
            k == suffix@.len(),
            tail == text@.subrange(start as int, n as int),
            forall|j: int| 0 <= j < i ==> tail[j] == suffix@[j],
        decreases k - i,
    {
        if text.get_char(start + i) != suffix.get_char(i) {
            proof {
                assert(tail[i as int] != suffix@[i as int]);
            }
            return false;
        }
        i += 1;
    }
    proof {
        assert(tail =~= suffix@);
    }
    true
}

/// Accepts a manifest file name that ends in `.toml` and refuses every other.
pub fn validate_file_name(file_name: &str) -> (r: Result<(), ConfigError>)
    ensures
        r is Ok <==> ends_with(file_name@, manifest_extension()),
        r is Err ==> r == Err::<(), ConfigError>(ConfigError::FileName),
{
    if has_suffix(file_name, ".toml") {
        Ok(())
    } else {
        Err(ConfigError::FileName)
    }
}

impl ConfigError {
    /// The text of the message for this error.
    pub open spec fn message_spec(self) -> Seq<char> {
        "file_name must end with .toml!"@
    }

    /// The message to report for this error.
    pub fn message(&self) -> (text: String)
        ensures
            text@ == self.message_spec(),
    {
        "file_name must end with .toml!".to_owned()
    }
}

} // verus!
