//! Logging in: where the token comes from, and what the user is told.

use vstd::prelude::*;

use crate::rest::{auth_error_text, friendly_auth_error};
use crate::text::{trim_text, trimmed};

verus! {

/// Where the token comes from.
pub enum TokenSource {
    /// It was kept.
    Stored(String),
    /// It is in the environment, and is to be kept.
    Environment(String),
    /// The user has to be asked.
    Ask,
}

/// Where the token comes from, in contracts.
pub enum TokenSourceView {
    Stored(Seq<char>),
    Environment(Seq<char>),
    Ask,
}

impl View for TokenSource {
    type V = TokenSourceView;

    open spec fn view(&self) -> TokenSourceView {
        match *self {
            TokenSource::Stored(t) => TokenSourceView::Stored(t@),
            TokenSource::Environment(t) => TokenSourceView::Environment(t@),
            TokenSource::Ask => TokenSourceView::Ask,
        }
    }
}

/// Where the token comes from: one that was kept comes first, then one in the environment
/// that is not blank.
pub fn token_source(stored: Option<String>, environment: Option<&str>) -> (r: TokenSource)
    ensures
        r@ == (match stored {
            Some(token) => TokenSourceView::Stored(token@),
            None => match environment {
                Some(text) => if trimmed(text@).len() > 0 {
                    TokenSourceView::Environment(trimmed(text@))
                } else {
                    TokenSourceView::Ask
                },
                None => TokenSourceView::Ask,
            },
        }),
{
    match stored {
        Some(token) => TokenSource::Stored(token),
        None => match entered_token(environment) {
            Some(token) => TokenSource::Environment(token),
            None => TokenSource::Ask,
        },
    }
}

/// The token that was entered: the text without the white space around it, unless it is
/// blank.
pub fn entered_token(input: Option<&str>) -> (r: Option<String>)
    ensures
        (match r {
            Some(t) => Some(t@),
            None => None,
        }) == (match input {
            Some(text) => if trimmed(text@).len() > 0 {
                Some(trimmed(text@))
            } else {
                None
            },
            None => None,
        }),
{
    match input {
        Some(text) => {
            let token = trim_text(text);
            if token.as_str().is_empty() {
                None
            } else {
                Some(token)
            }
        },
        None => None,
    }
}

/// What follows once a token was tried.
pub enum LoginStep {
    /// The token is good: it is kept, and the login is done.
    Accept(String),
    /// The token is not good: the user is told why.
    Show(String),
}

/// What follows once a token was tried, in contracts.
pub enum LoginStepView {
    Accept(Seq<char>),
    Show(Seq<char>),
}

impl View for LoginStep {
    type V = LoginStepView;

    open spec fn view(&self) -> LoginStepView {
        match *self {
            LoginStep::Accept(t) => LoginStepView::Accept(t@),
            LoginStep::Show(t) => LoginStepView::Show(t@),
        }
    }
}

/// What follows once a token was tried: it is accepted where the server took it, and
/// otherwise the user is told why it did not.
pub open spec fn login_result(token: Seq<char>, refused: Option<Seq<char>>) -> LoginStepView {
    match refused {
        None => LoginStepView::Accept(token),
        Some(error) => LoginStepView::Show(auth_error_text(error)),
    }
}

/// Tells what follows once a token was tried.
pub fn login_step(token: String, outcome: Result<(), String>) -> (r: LoginStep)
    ensures
        r@ == login_result(
            token@,
            match outcome {
                Ok(()) => None,
                Err(e) => Some(e@),
            },
        ),
{
    match outcome {
        Ok(()) => LoginStep::Accept(token),
        Err(e) => LoginStep::Show(friendly_auth_error(e.as_str())),
    }
}

/// Only a token that the server took is accepted, and it is accepted as it was tried.
pub proof fn lemma_only_good_tokens_are_accepted(
    token: Seq<char>,
    refused: Option<Seq<char>>,
    accepted: Seq<char>,
)
    ensures
        login_result(token, refused) == LoginStepView::Accept(accepted) <==> refused is None
            && accepted == token,
{
}

/// What the user is told when no token could be taken over from the official client, by how
/// many there were.
pub fn import_failure(found: usize) -> (r: &'static str)
    ensures
        r@ == (if found == 0 {
            "No se encontró token local (¿Discord instalado y con sesión?)."@
        } else {
            "Se encontró token pero no validó (¿expiró? abre Discord e inténtalo)."@
        }),
{
    if found == 0 {
        "No se encontró token local (¿Discord instalado y con sesión?)."
    } else {
        "Se encontró token pero no validó (¿expiró? abre Discord e inténtalo)."
    }
}

} // verus!
