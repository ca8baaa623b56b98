//! The token of the remote backend, which settings keep out of their file where they can.

use vstd::prelude::*;
use vstd::string::*;

use crate::images;
use crate::images::base64_url_encode;
use crate::session_state;
use crate::str_map::StrMap;
use crate::text;
use crate::text::{cat, trim, trim_some};

verus! {

// ---------------------------------------------------------------------------
// Accounts
// ---------------------------------------------------------------------------

/// The account under which the token of a settings file is kept, given the base64 notation of the
/// file's path.
pub fn token_account(encoded_path: &str) -> (r: String)
    ensures
        r@ == "settings:"@ + encoded_path@,
{
    cat("settings:", encoded_path)
}

/// The account under which the token of a settings file is kept.
pub open spec fn account_of(path: Seq<char>) -> Seq<char> {
    "settings:"@ + images::base64_url_text(vstd::utf8::encode_utf8(path))
}

/// Whether the path of a settings file can name an account.
pub open spec fn has_account(path: Seq<char>) -> bool {
    images::encodable(text::byte_len_of(path))
}

/// The account under which the token of a settings file is kept. No other file has it.
pub fn remote_backend_token_account(path: &str) -> (r: String)
    requires
        has_account(path@),
    ensures
        r@ == account_of(path@),
        forall|other: Seq<char>| has_account(other) && #[trigger] account_of(other) == r@ ==> other == path@,
{
    let encoded: String = base64_url_encode(path.as_bytes());
    proof {
        assert forall|other: Seq<char>|
            has_account(other) && #[trigger] account_of(other) == account_of(path@) implies other == path@ by {
            let other_text = images::base64_url_text(vstd::utf8::encode_utf8(other));
            let n = "settings:"@.len() as int;
            assert(account_of(other).skip(n) =~= other_text);
            assert(account_of(path@).skip(n) =~= encoded@);
            vstd::utf8::encode_utf8_decode_utf8(other);
            vstd::utf8::encode_utf8_decode_utf8(path@);
        }
    }
    token_account(encoded.as_str())
}

// ---------------------------------------------------------------------------
// Tokens in memory
// ---------------------------------------------------------------------------

/// Tokens by account, kept in memory.
pub struct TokenStore {
    pub tokens: StrMap<String>,
}

impl View for TokenStore {
    type V = Map<Seq<char>, Seq<char>>;

    open spec fn view(&self) -> Map<Seq<char>, Seq<char>> {
        self.tokens@
    }
}

/// A store without tokens.
pub fn test_remote_backend_token_store() -> (r: TokenStore)
    ensures
        r@ == Map::<Seq<char>, Seq<char>>::empty(),
{
    TokenStore { tokens: StrMap::new() }
}

/// The token of a settings file, where one is kept.
pub fn read_remote_backend_token(store: &TokenStore, path: &str) -> (r: Option<String>)
    requires
        has_account(path@),
    ensures
        text::opt_string(r) == session_state::lookup(store@, account_of(path@)),
{
    match store.tokens.get(remote_backend_token_account(path).as_str()) {
        Some(token) => Some(token.clone()),
        None => None,
    }
}

/// The store after the token of an account was set: without the white space around it, and
/// forgotten where nothing is left.
pub open spec fn with_token(
    store: Map<Seq<char>, Seq<char>>,
    account: Seq<char>,
    token: Option<Seq<char>>,
) -> Map<Seq<char>, Seq<char>> {
    match text::trimmed_some(token) {
        Some(t) => store.insert(account, t),
        None => store.remove(account),
    }
}

/// Whether the tokens of all settings files but the one of the given path are what they were.
pub open spec fn others_are_kept(
    before: Map<Seq<char>, Seq<char>>,
    after: Map<Seq<char>, Seq<char>>,
    path: Seq<char>,
) -> bool {
    forall|other: Seq<char>|
        has_account(other) && other != path ==> session_state::lookup(after, #[trigger] account_of(other))
            == session_state::lookup(before, account_of(other))
}

/// Sets the token of a settings file, and of no other one. This store always keeps it.
pub fn write_remote_backend_token(store: &mut TokenStore, path: &str, token: Option<&str>) -> (r: bool)
    requires
        has_account(path@),
    ensures
        r,
        final(store)@ == with_token(old(store)@, account_of(path@), text::opt_text(token)),
        others_are_kept(old(store)@, final(store)@, path@),
{
    let account: String = remote_backend_token_account(path);
    match trim_some(token) {
        Some(t) => store.tokens.insert(account.as_str(), t.to_owned()),
        None => store.tokens.remove(account.as_str()),
    }
    true
}

/// Forgets every token.
pub fn clear_test_remote_backend_tokens(store: &mut TokenStore)
    ensures
        final(store)@ == Map::<Seq<char>, Seq<char>>::empty(),
{
    store.tokens.clear();
}

// ---------------------------------------------------------------------------
// Writing settings
// ---------------------------------------------------------------------------

/// The token that is handed to the store when settings are written.
pub fn token_to_store(token: &Option<String>) -> (r: Option<String>)
    ensures
        text::opt_string(r) == text::trimmed_some(text::opt_string(*token)),
{
    match token {
        Some(t) => {
            let s: &str = trim(t.as_str());
            if s.is_empty() {
                None
            } else {
                Some(s.to_owned())
            }
        },
        None => None,
    }
}

/// The token that stands in the settings file: none where the store has taken it.
pub open spec fn file_token(token: Option<Seq<char>>, stored_securely: bool) -> Option<Seq<char>> {
    if stored_securely {
        None
    } else {
        text::trimmed_some(token)
    }
}

/// Whether the store has taken a token: a store that failed has not.
pub open spec fn was_stored(outcome: Result<bool, Seq<char>>) -> bool {
    outcome == Ok::<bool, Seq<char>>(true)
}

pub open spec fn result_bool(r: Result<bool, String>) -> Result<bool, Seq<char>> {
    match r {
        Ok(b) => Ok(b),
        Err(e) => Err(e@),
    }
}

/// The token that stands in the settings file, after the store was asked to take it.
pub fn token_for_file(token: &Option<String>, outcome: Result<bool, String>) -> (r: Option<String>)
    ensures
        text::opt_string(r) == file_token(text::opt_string(*token), was_stored(result_bool(outcome))),
{
    let stored_securely: bool = match outcome {
        Ok(b) => b,
        Err(_) => false,
    };
    if stored_securely {
        None
    } else {
        token_to_store(token)
    }
}

// ---------------------------------------------------------------------------
// Reading settings
// ---------------------------------------------------------------------------

/// What follows from the token in the settings file and the one in the store.
pub enum SettingsRead {
    /// The settings have this token; the file is written anew where it still held one that the
    /// store has.
    Done { token: Option<String>, rewrite: bool },
    /// The token in the file is to be handed to the store.
    Migrate { found: String },
}

/// What follows from the two tokens, as a mathematical value.
pub enum ReadView {
    Done { token: Option<Seq<char>>, rewrite: bool },
    Migrate { found: Seq<char> },
}

impl View for SettingsRead {
    type V = ReadView;

    open spec fn view(&self) -> ReadView {
        match self {
            SettingsRead::Done { token, rewrite } => ReadView::Done {
                token: text::opt_string(*token),
                rewrite: *rewrite,
            },
            SettingsRead::Migrate { found } => ReadView::Migrate { found: found@ },
        }
    }
}

/// What follows from the token in the settings file and the one in the store: that of the store
/// goes first, that of the file is handed over to a store that has none, and is kept where the
/// store cannot be read.
pub open spec fn settings_read(
    in_file: Option<Seq<char>>,
    in_store: Result<Option<Seq<char>>, Seq<char>>,
) -> ReadView {
    match in_store {
        Ok(Some(token)) => ReadView::Done { token: Some(token), rewrite: in_file is Some },
        Ok(None) => match in_file {
            Some(token) => ReadView::Migrate { found: token },
            None => ReadView::Done { token: None, rewrite: false },
        },
        Err(_) => ReadView::Done { token: in_file, rewrite: false },
    }
}

pub open spec fn result_opt(r: Result<Option<String>, String>) -> Result<Option<Seq<char>>, Seq<char>> {
    match r {
        Ok(o) => Ok(text::opt_string(o)),
        Err(e) => Err(e@),
    }
}

/// Decides what follows from the token in the settings file and the one in the store.
pub fn begin_settings_read(in_file: Option<String>, in_store: Result<Option<String>, String>) -> (r: SettingsRead)
    ensures
        r@ == settings_read(text::opt_string(in_file), result_opt(in_store)),
{
    match in_store {
        Ok(Some(token)) => SettingsRead::Done { token: Some(token), rewrite: in_file.is_some() },
        Ok(None) => match in_file {
            Some(token) => SettingsRead::Migrate { found: token },
            None => SettingsRead::Done { token: None, rewrite: false },
        },
        Err(_) => SettingsRead::Done { token: in_file, rewrite: false },
    }
}

/// What follows once the token of the file was handed to the store: the settings have it either
/// way, and the file is written anew only where the store has taken it.
pub open spec fn handed_over(token: Seq<char>, outcome: Result<bool, Seq<char>>) -> ReadView {
    ReadView::Done { token: Some(token), rewrite: was_stored(outcome) }
}

/// What follows once the token of the file was handed to the store.
pub fn finish_settings_read(token: String, outcome: Result<bool, String>) -> (r: SettingsRead)
    ensures
        r@ == handed_over(token@, result_bool(outcome)),
{
    let rewrite: bool = match outcome {
        Ok(b) => b,
        Err(_) => false,
    };
    SettingsRead::Done { token: Some(token), rewrite }
}

// ---------------------------------------------------------------------------
// Settings with a store in memory
// ---------------------------------------------------------------------------

/// The token that a settings file and a store hold between them.
pub struct Kept {
    pub in_file: Option<Seq<char>>,
    pub in_store: Map<Seq<char>, Seq<char>>,
}

/// What is kept after settings were written with a store that takes the token.
pub open spec fn written(kept: Kept, path: Seq<char>, token: Option<Seq<char>>) -> Kept {
    Kept {
        in_file: file_token(token, true),
        in_store: with_token(kept.in_store, account_of(path), text::trimmed_some(token)),
    }
}

/// What is kept after settings were read with a store that takes tokens, and the token that they
/// have.
pub open spec fn read_back(kept: Kept, path: Seq<char>) -> (Kept, Option<Seq<char>>) {
    match settings_read(kept.in_file, Ok(session_state::lookup(kept.in_store, account_of(path)))) {
        ReadView::Done { token, rewrite } => (
            if rewrite {
                written(kept, path, token)
            } else {
                kept
            },
            token,
        ),
        ReadView::Migrate { found } => (written(kept, path, Some(found)), Some(found)),
    }
}

/// Writes the token of settings: what the file is to hold is returned. The tokens of other files
/// stay.
pub fn write_settings(store: &mut TokenStore, path: &str, token: &Option<String>) -> (r: Option<String>)
    requires
        has_account(path@),
    ensures
        ({
            let after = written(
                Kept { in_file: None, in_store: old(store)@ },
                path@,
                text::opt_string(*token),
            );
            text::opt_string(r) == after.in_file && final(store)@ == after.in_store
        }),
        others_are_kept(old(store)@, final(store)@, path@),
{
    let normalized: Option<String> = token_to_store(token);
    let handed: Option<&str> = match &normalized {
        Some(t) => Some(t.as_str()),
        None => None,
    };
    let taken: bool = write_remote_backend_token(store, path, handed);
    token_for_file(token, Ok(taken))
}

/// Reads the token of settings, given the one in the file: the token, and what the file is to
/// hold. The tokens of other files stay.
pub fn read_settings(store: &mut TokenStore, path: &str, in_file: Option<String>) -> (r: (
    Option<String>,
    Option<String>,
))
    requires
        has_account(path@),
    ensures
        ({
            let kept = Kept { in_file: text::opt_string(in_file), in_store: old(store)@ };
            let (after, token) = read_back(kept, path@);
            text::opt_string(r.0) == token && text::opt_string(r.1) == after.in_file && final(store)@
                == after.in_store
        }),
        others_are_kept(old(store)@, final(store)@, path@),
{
    let before: Option<String> = match &in_file {
        Some(t) => Some(t.clone()),
        None => None,
    };
    let in_store: Option<String> = read_remote_backend_token(store, path);
    match begin_settings_read(in_file, Ok(in_store)) {
        SettingsRead::Done { token, rewrite } => {
            let file: Option<String> = if rewrite {
                write_settings(store, path, &token)
            } else {
                before
            };
            (token, file)
        },
        SettingsRead::Migrate { found } => {
            let token: Option<String> = Some(found);
            let file: Option<String> = write_settings(store, path, &token);
            (token, file)
        },
    }
}

proof fn lemma_trim_some_twice(token: Option<Seq<char>>)
    ensures
        text::trimmed_some(text::trimmed_some(token)) == text::trimmed_some(token),
{
    if token is Some {
        crate::models::lemma_trim_twice(token->0);
    }
}

/// What was written is read back: settings have the token that they were given, without the white
/// space around it, and none where nothing was left of it.
pub proof fn law_written_token_is_read_back(kept: Kept, path: Seq<char>, token: Option<Seq<char>>)
    ensures
        read_back(written(kept, path, token), path).1 == text::trimmed_some(token),
{
    lemma_trim_some_twice(token);
}

/// A token that the store takes never stands in the settings file.
pub proof fn law_stored_token_is_not_in_the_file(kept: Kept, path: Seq<char>, token: Option<Seq<char>>)
    ensures
        written(kept, path, token).in_file is None,
        file_token(token, true) is None,
{
}

/// A token in the settings file moves to the store when settings are read: the settings have a
/// token, that of the file where the store had none, and the file no longer holds one.
pub proof fn law_token_in_the_file_is_migrated(kept: Kept, path: Seq<char>)
    requires
        kept.in_file is Some,
    ensures
        ({
            let (after, token) = read_back(kept, path);
            &&& token is Some
            &&& session_state::lookup(kept.in_store, account_of(path)) is None ==> token == kept.in_file
            &&& after.in_file is None
        }),
{
}

/// Reading settings once more changes nothing, unless a token has white space around it, which the
/// store drops.
pub proof fn law_reading_settings_twice_changes_nothing(kept: Kept, path: Seq<char>)
    requires
        kept.in_file is Some ==> text::trimmed_some(kept.in_file) == kept.in_file,
        session_state::lookup(kept.in_store, account_of(path)) matches Some(t) ==> text::trimmed_some(Some(t)) == Some(
            t,
        ),
    ensures
        ({
            let (after, token) = read_back(kept, path);
            read_back(after, path) == (after, token)
        }),
{
}

/// Settings lose no token when the store fails: it then stands in the file, and is read from there
/// as long as the store gives none.
pub proof fn law_token_survives_a_failing_store(
    token: Option<Seq<char>>,
    in_store: Result<Option<Seq<char>>, Seq<char>>,
)
    requires
        in_store is Err,
    ensures
        settings_read(file_token(token, false), in_store) == (ReadView::Done {
            token: text::trimmed_some(token),
            rewrite: false,
        }),
{
}

} // verus!
