//! Where tokens are kept: in the system keyring, with a plain file beside it.

use std::path::PathBuf;

use vstd::prelude::*;

use crate::downloads::{sanitize_component, sanitized};
use crate::error::Result;

verus! {

pub const KEYRING_SERVICE: &'static str = "ibroadcast-tui";

/// Where a token was saved.
#[derive(Debug)]
pub enum TokenPersistence {
    Keyring,
    KeyringWithPlainBackup(PathBuf),
    PlainFile(PathBuf),
}

/// Where a stored token is read from.
#[derive(Clone, Copy, Debug, PartialEq, Eq, Structural)]
pub enum TokenSource {
    Keyring,
    PlainFile,
}

/// The rules by which tokens are kept.
#[derive(Debug)]
pub struct TokenStore {
    pub config_dir: PathBuf,
    pub prefer_plain_file: bool,
}

/// The name of the file that holds the token of a client.
pub open spec fn token_file_name(client_id: Seq<char>) -> Seq<char> {
    sanitized(client_id) + ".json"@
}

impl TokenStore {
    /// Where a token is read from.
    pub open spec fn reads_from(self, keyring_answers: bool) -> TokenSource {
        if !self.prefer_plain_file && keyring_answers {
            TokenSource::Keyring
        } else {
            TokenSource::PlainFile
        }
    }

    /// Where a token ended up.
    pub open spec fn kept(
        self,
        keyring_holds: bool,
        plain_file: Result<PathBuf>,
    ) -> Result<TokenPersistence> {
        match plain_file {
            Ok(path) => Ok(
                if !self.prefer_plain_file && keyring_holds {
                    TokenPersistence::KeyringWithPlainBackup(path)
                } else {
                    TokenPersistence::PlainFile(path)
                },
            ),
            Err(error) => if !self.prefer_plain_file && keyring_holds {
                Ok(TokenPersistence::Keyring)
            } else {
                Err(error)
            },
        }
    }

    pub fn new(config_dir: PathBuf, prefer_plain_file: bool) -> (res: TokenStore)
        ensures
            res == (TokenStore { config_dir, prefer_plain_file }),
    {
        TokenStore { config_dir, prefer_plain_file }
    }

    /// Whether the keyring is used at all.
    pub fn uses_keyring(&self) -> (res: bool)
        ensures
            res == !self.prefer_plain_file,
    {
        !self.prefer_plain_file
    }

    /// Where a token is read from. `keyring_answers` tells whether the keyring gave a secret.
    pub fn load_source(&self, keyring_answers: bool) -> (res: TokenSource)
        ensures
            res == self.reads_from(keyring_answers),
    {
        if self.uses_keyring() && keyring_answers {
            TokenSource::Keyring
        } else {
            TokenSource::PlainFile
        }
    }

    /// Where a token ended up. `keyring_holds` tells whether the keyring gives back the secret that
    /// was saved, and `plain_file` how writing the file beside it went. The failure of one of the
    /// two is forgiven as long as the other one holds the token.
    pub fn persistence(&self, keyring_holds: bool, plain_file: Result<PathBuf>) -> (res: Result<
        TokenPersistence,
    >)
        ensures
            res == self.kept(keyring_holds, plain_file),
    {
        if self.uses_keyring() && keyring_holds {
            return match plain_file {
                Ok(path) => Ok(TokenPersistence::KeyringWithPlainBackup(path)),
                Err(_) => Ok(TokenPersistence::Keyring),
            };
        }
        match plain_file {
            Ok(path) => Ok(TokenPersistence::PlainFile(path)),
            Err(error) => Err(error),
        }
    }

    /// The name of the file that holds the token of a client.
    pub fn plain_file_name(&self, client_id: &str) -> (res: String)
        ensures
            res@ == token_file_name(client_id@),
    {
        let mut name = safe_token_file_name(client_id);
        name.append(".json");
        name
    }
}

/// A file name that stands for a client.
pub fn safe_token_file_name(client_id: &str) -> (res: String)
    ensures
        res@ == sanitized(client_id@),
{
    sanitize_component(client_id)
}

/// Whatever the client id, its token is kept in a single file directly in the directory for
/// tokens: the name holds no separator and is neither `.` nor `..`.
pub proof fn law_token_file_is_a_plain_name(client_id: Seq<char>)
    ensures
        token_file_name(client_id).len() > 0,
        token_file_name(client_id)[0] != '.',
        !token_file_name(client_id).contains('/'),
        !token_file_name(client_id).contains('\\'),
{
    crate::downloads::law_sanitized_component_is_safe(client_id);
    reveal_strlit(".json");
    let stem = sanitized(client_id);
    let name = token_file_name(client_id);
    assert forall|i: int| 0 <= i < name.len() implies name[i] != '/' && name[i] != '\\' by {
        if i < stem.len() {
            assert(name[i] == stem[i]);
            assert(!crate::downloads::forbidden(stem[i]));
        } else {
            assert(name[i] == ".json"@[i - stem.len()]);
        }
    }
    assert(name[0] == stem[0]);
}

} // verus!
