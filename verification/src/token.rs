//! Session tokens: request-boundary normalization and the state of the
//! token stores.

use vstd::prelude::*;
use crate::chat::{starts_with, starts_with_chars};
use crate::constants::DEVIN_SESSION_TOKEN_PREFIX;
use crate::error::DevinError;
use crate::text::{chars_of, is_white_space, push_str, string_from_chars, trim, trim_chars, trim_end_by, trim_start_by, white_space_pred};

verus! {

/// The token sent to the server: absent and empty tokens stay empty, raw
/// tokens get the session prefix, and prefixed tokens are left alone.
pub open spec fn normalized_token(token: Option<Seq<char>>) -> Seq<char> {
    match token {
        None => seq![],
        Some(t) => if t.len() == 0 {
            seq![]
        } else if starts_with(t, DEVIN_SESSION_TOKEN_PREFIX@) {
            t
        } else {
            DEVIN_SESSION_TOKEN_PREFIX@ + t
        },
    }
}

/// The characters of an optional string slice.
pub open spec fn opt_str(o: Option<&str>) -> Option<Seq<char>> {
    match o {
        Some(s) => Some(s@),
        None => None,
    }
}

/// Adds the session prefix to a raw token at a request boundary.
pub fn normalize_devin_session_token(token: Option<&str>) -> (r: String)
    ensures
        r@ == normalized_token(opt_str(token)),
{
    match token {
        None => String::new(),
        Some(t) => {
            if t.is_empty() {
                return String::new();
            }
            let chars = chars_of(t);
            let prefix = chars_of(DEVIN_SESSION_TOKEN_PREFIX);
            if starts_with_chars(&chars, &prefix) {
                String::from_str(t)
            } else {
                let mut out = prefix;
                push_str(&mut out, t);
                string_from_chars(&out)
            }
        },
    }
}

/// The token a token file holds: its trimmed contents, absent when blank.
pub open spec fn token_from_contents(contents: Seq<char>) -> Option<Seq<char>> {
    if trim(contents).len() == 0 {
        None
    } else {
        Some(trim(contents))
    }
}

/// Reads the token out of a token file's contents.
pub fn token_from_file_contents(contents: &str) -> (r: Option<String>)
    ensures
        match r {
            Some(t) => token_from_contents(contents@) == Some(t@),
            None => token_from_contents(contents@) is None,
        },
{
    let trimmed = trim_chars(&chars_of(contents));
    if trimmed.len() == 0 {
        None
    } else {
        Some(string_from_chars(&trimmed))
    }
}

/// The error of a failed token-file operation.
pub fn store_error(action: &str, path: &str, error: &str) -> (r: DevinError)
    ensures
        r is Protocol,
        r->Protocol_message@ == "failed to "@ + action@ + " token file "@ + path@ + ": "@ + error@,
{
    let mut m: Vec<char> = Vec::new();
    push_str(&mut m, "failed to ");
    push_str(&mut m, action);
    push_str(&mut m, " token file ");
    push_str(&mut m, path);
    push_str(&mut m, ": ");
    push_str(&mut m, error);
    DevinError::protocol(string_from_chars(&m))
}

/// What a store holds after `set(token)`.
pub open spec fn after_set(held: Option<Seq<char>>, token: Seq<char>) -> Option<Seq<char>> {
    Some(token)
}

/// What a store holds after `clear()`.
pub open spec fn after_clear(held: Option<Seq<char>>) -> Option<Seq<char>> {
    None
}

/// What `get()` returns of a store.
pub open spec fn read(held: Option<Seq<char>>) -> Option<Seq<char>> {
    held
}

/// The contents of an in-memory token store.
pub struct MemoryTokenSlot {
    token: Option<String>,
}

impl MemoryTokenSlot {
    /// The stored token.
    pub closed spec fn stored(self) -> Option<Seq<char>> {
        match self.token {
            Some(t) => Some(t@),
            None => None,
        }
    }

    /// A store that starts with `initial_token`.
    pub fn new(initial_token: Option<String>) -> (r: Self)
        ensures
            r.stored() == (match initial_token {
                Some(t) => Some(t@),
                None => None,
            }),
    {
        MemoryTokenSlot { token: initial_token }
    }

    /// The stored token, if any.
    pub fn get(&self) -> (r: Option<String>)
        ensures
            match r {
                Some(t) => read(self.stored()) == Some(t@),
                None => read(self.stored()) is None,
            },
    {
        match &self.token {
            Some(t) => Some(t.clone()),
            None => None,
        }
    }

    /// Replaces the stored token.
    pub fn set(&mut self, token: String)
        ensures
            final(self).stored() == after_set(old(self).stored(), token@),
    {
        self.token = Some(token);
    }

    /// Removes the stored token.
    pub fn clear(&mut self)
        ensures
            final(self).stored() == after_clear(old(self).stored()),
    {
        self.token = None;
    }
}

/// A read after a write gives back the written token, a read after a clear
/// gives nothing, and a later write replaces an earlier one, whatever the
/// store held before.
pub proof fn store_read_back(held: Option<Seq<char>>, first: Seq<char>, second: Seq<char>)
    ensures
        read(after_set(held, first)) == Some(first),
        read(after_clear(held)) is None,
        read(after_set(after_set(held, first), second)) == Some(second),
        read(after_set(after_clear(held), first)) == Some(first),
{
}

/// A token file read gives back the token a write put there, as long as
/// the token is non-empty and neither starts nor ends with white space
/// (the read trims the file's contents).
pub proof fn file_store_read_back(token: Seq<char>)
    requires
        token.len() > 0,
        !is_white_space(token[0]),
        !is_white_space(token.last()),
    ensures
        token_from_contents(token) == Some(token),
{
    assert(trim_start_by(token, white_space_pred()) == token);
    assert(trim_end_by(token, white_space_pred()) == token);
}

/// Normalizing is idempotent: a normalized token normalizes to itself.
pub proof fn normalization_idempotent(token: Option<Seq<char>>)
    ensures
        normalized_token(Some(normalized_token(token))) == normalized_token(token),
{
    let n = normalized_token(token);
    if let Some(t) = token {
        if t.len() > 0 && !starts_with(t, DEVIN_SESSION_TOKEN_PREFIX@) {
            let p = DEVIN_SESSION_TOKEN_PREFIX@;
            assert((p + t).subrange(0, p.len() as int) =~= p);
        }
    }
}

} // verus!
