use rand::Rng;
use vstd::prelude::*;

use crate::naming::{ascii_alnum, string_of};

verus! {

/// Number of characters of a generated encryption secret.
pub const SECRET_LEN: usize = 32;

/// Where notes live and how they are written.
pub struct Config {
    /// Directory of the encrypted note files.
    pub notes_dir: String,
    /// File of the note index.
    pub db_path: String,
    /// Extension of note file names, without the dot.
    pub default_extension: String,
    /// Editor command, when one is configured.
    pub editor: Option<String>,
    /// Secret from which the encryption key is derived.
    pub encryption_key: String,
    /// Directory that notes are exported to when no other is given.
    pub export_dir: String,
}

/// Relies on rand's `Alphanumeric` distribution sampled from `thread_rng`:
/// `n` characters, each an ASCII letter or digit.
#[verifier::external_body]
fn random_alphanumeric(n: usize) -> (r: Vec<char>)
    ensures
        r@.len() == n,
        forall|i: int| 0 <= i < r@.len() ==> ascii_alnum(#[trigger] r@[i]),
{
    rand::thread_rng().sample_iter(&rand::distributions::Alphanumeric).take(n).map(char::from).collect()
}

impl Config {
    /// A fresh random secret for a new notes directory: 32 ASCII letters and digits.
    pub fn generate_encryption_key() -> (r: String)
        ensures
            r@.len() == SECRET_LEN,
            forall|i: int| 0 <= i < r@.len() ==> ascii_alnum(#[trigger] r@[i]),
    {
        let cs = random_alphanumeric(SECRET_LEN);
        string_of(&cs)
    }
}

} // verus!
