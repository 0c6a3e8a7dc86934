//! The user's token: where it is kept, how it is read back, and how it is shown.

use vstd::prelude::*;

use crate::text::{chars_of, concat2, concat3, decimal, decimal_text, text_of, trim_text, trimmed};

verus! {

/// The name under which the keychain keeps the token.
pub const SERVICE: &'static str = "discord-lite";

/// The account under which the keychain keeps the token.
pub const ACCOUNT: &'static str = "user-token";

/// How a token is shown: not at all where it is short, otherwise its first four characters
/// and how many more there are.
pub open spec fn redacted(token: Seq<char>) -> Seq<char> {
    if token.len() <= 8 {
        "***"@
    } else {
        token.take(4) + ("…(+"@ + decimal((token.len() - 4) as nat) + " car. ocultos)"@)
    }
}

/// A token in a form that may be logged.
pub fn redact(token: &str) -> (r: String)
    ensures
        r@ == redacted(token@),
{
    let chars = chars_of(token);
    let n: usize = chars.len();
    if n <= 8 {
        return "***".to_owned();
    }
    assert(chars@.subrange(0, 4) =~= token@.take(4));
    let head = text_of(&chars, 0, 4);
    let hidden = concat3("…(+", decimal_text((n - 4) as u64).as_str(), " car. ocultos)");
    concat2(head.as_str(), hidden.as_str())
}

/// What is shown of a token gives away nothing but its length and its first four
/// characters, and of a short one nothing at all.
pub proof fn lemma_redaction_hides(a: Seq<char>, b: Seq<char>)
    ensures
        a.len() == b.len() && a.len() > 8 && a.take(4) == b.take(4) ==> redacted(a) == redacted(b),
        a.len() <= 8 && b.len() <= 8 ==> redacted(a) == redacted(b),
{
}

/// Where a token is to be kept.
#[derive(Clone, Copy, Debug, PartialEq, Eq, Structural)]
pub enum TokenStore {
    /// In the system's keychain.
    Keychain,
    /// In a file that only the user may read.
    File,
}

/// Where the token ends up: in a file where the keychain did not take it.
pub fn save_token(keychain_took_it: bool) -> (r: TokenStore)
    ensures
        r == (if keychain_took_it {
            TokenStore::Keychain
        } else {
            TokenStore::File
        }),
{
    if keychain_took_it {
        TokenStore::Keychain
    } else {
        TokenStore::File
    }
}

/// The token in a file: its text without the white space around it, if any is left.
pub open spec fn token_in_file(text: Seq<char>) -> Option<Seq<char>> {
    if trimmed(text).len() == 0 {
        None
    } else {
        Some(trimmed(text))
    }
}

/// The token that is found: what the keychain holds, or else what the file holds.
pub open spec fn found_token(keychain: Option<Seq<char>>, file: Option<Seq<char>>) -> Option<
    Seq<char>,
> {
    match keychain {
        Some(token) => Some(token),
        None => match file {
            Some(text) => token_in_file(text),
            None => None,
        },
    }
}

/// The token: what the keychain holds, or else what the file holds.
pub fn load_token(keychain: Option<String>, file: Option<&str>) -> (r: Option<String>)
    ensures
        (match r {
            Some(t) => Some(t@),
            None => None,
        }) == found_token(
            match keychain {
                Some(token) => Some(token@),
                None => None,
            },
            match file {
                Some(text) => Some(text@),
                None => None,
            },
        ),
{
    match keychain {
        Some(token) => Some(token),
        None => match file {
            Some(text) => {
                let token = trim_text(text);
                if token.as_str().is_empty() {
                    None
                } else {
                    Some(token)
                }
            },
            None => None,
        },
    }
}

/// What became of deleting the token in one place.
#[derive(Clone, Copy, Debug, PartialEq, Eq, Structural)]
pub enum Deletion {
    /// It is deleted.
    Deleted,
    /// There was none.
    Absent,
    /// It could not be deleted.
    Failed,
}

/// What a place holds after an attempt to delete it.
pub open spec fn left_over(held: Option<Seq<char>>, deletion: Deletion) -> Option<Seq<char>> {
    match deletion {
        Deletion::Failed => held,
        _ => None,
    }
}

/// Where the token may still be after it was to be deleted in both places: nowhere, or else
/// in the first place that did not let it go.
pub open spec fn kept_in(keychain: Deletion, file: Deletion) -> Option<TokenStore> {
    if keychain == Deletion::Failed {
        Some(TokenStore::Keychain)
    } else if file == Deletion::Failed {
        Some(TokenStore::File)
    } else {
        None
    }
}

/// Tells whether the token is gone after it was to be deleted in both places, and where it
/// still is otherwise. That there was none is no failure.
pub fn delete_token(keychain: Deletion, file: Deletion) -> (r: Result<(), TokenStore>)
    ensures
        r == (match kept_in(keychain, file) {
            None => Ok::<(), TokenStore>(()),
            Some(place) => Err::<(), TokenStore>(place),
        }),
{
    if keychain == Deletion::Failed {
        Err(TokenStore::Keychain)
    } else if file == Deletion::Failed {
        Err(TokenStore::File)
    } else {
        Ok(())
    }
}

/// After a token was deleted none is found any more, in either place.
pub proof fn lemma_deleted_token_is_gone(
    keychain: Option<Seq<char>>,
    file: Option<Seq<char>>,
    from_keychain: Deletion,
    from_file: Deletion,
)
    requires
        kept_in(from_keychain, from_file) is None,
    ensures
        left_over(keychain, from_keychain) is None,
        left_over(file, from_file) is None,
        found_token(left_over(keychain, from_keychain), left_over(file, from_file)) is None,
{
}

} // verus!
