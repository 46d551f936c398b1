//! The pre-shared key: where it is configured and why it may be missing.
use vstd::prelude::*;

use crate::config::{ConfigError, ConfigErrorView};
use crate::crypto::{CryptoError, KEY_SIZE};
use crate::{config, crypto, text};

verus! {

/// Why there is no pre-shared key.
#[derive(Debug, Clone, PartialEq, Eq)]
pub enum PskError {
    /// The configuration holds none.
    Config(ConfigError),
    /// The configured text is no key.
    Crypto(CryptoError),
}

/// A missing key as a mathematical value.
pub enum PskErrorView {
    Config(ConfigErrorView),
    Crypto(CryptoError),
}

impl View for PskError {
    type V = PskErrorView;

    open spec fn view(&self) -> PskErrorView {
        match *self {
            PskError::Config(e) => PskErrorView::Config(e@),
            PskError::Crypto(e) => PskErrorView::Crypto(e),
        }
    }
}

impl PskErrorView {
    /// The text of the error.
    pub open spec fn message_chars(self) -> Seq<char> {
        match self {
            PskErrorView::Config(e) => e.message_chars(),
            PskErrorView::Crypto(e) => e.message_chars(),
        }
    }
}

impl PskError {
    /// Describes the error.
    pub fn message(&self) -> (m: String)
        ensures
            m@ == self@.message_chars(),
    {
        match self {
            PskError::Config(e) => e.message(),
            PskError::Crypto(e) => e.message(),
        }
    }
}

/// The pre-shared key of a configuration file.
pub open spec fn configured_psk(contents: Seq<char>) -> Result<Seq<u8>, PskErrorView> {
    match config::crypto_key_hex(contents) {
        Err(e) => Err(PskErrorView::Config(e)),
        Ok(hex) => match crypto::parsed_key(hex) {
            Err(e) => Err(PskErrorView::Crypto(e)),
            Ok(key) => Ok(key),
        },
    }
}

/// Whether the `[crypto] key` of a file is, but for the case of its letters and the
/// white space around it, `key` in hexadecimal.
pub open spec fn spells_key(contents: Seq<char>, key: Seq<u8>) -> bool {
    config::config_value(contents, "crypto"@, "key"@) matches Some(hex)
        && text::equal_ignoring_case(text::trimmed(hex), text::hex_string_chars(key))
}

/// Whatever key is loaded, the file spells it.
pub proof fn law_loaded_key_is_spelled_by_the_file(contents: Seq<char>)
    ensures
        configured_psk(contents) matches Ok(key) ==> key.len() == KEY_SIZE && spells_key(
            contents,
            key,
        ),
{
    config::law_crypto_key_is_that_of_the_file(contents);
    if configured_psk(contents) is Ok {
        let hex = config::config_value(contents, "crypto"@, "key"@)->Some_0;
        crypto::law_key_is_spelled_by_its_text(hex);
    }
}

/// A key that a file spells is the one that is loaded: every byte of it counts.
pub proof fn law_spelled_key_is_loaded(contents: Seq<char>, key: Seq<u8>)
    requires
        key.len() == KEY_SIZE,
        spells_key(contents, key),
    ensures
        configured_psk(contents) == Ok::<Seq<u8>, PskErrorView>(key),
{
    let hex = config::config_value(contents, "crypto"@, "key"@)->Some_0;
    let digits = text::trimmed(hex);
    config::law_crypto_key_is_that_of_the_file(contents);
    text::law_trimming_cuts_white_space_only(hex);
    let (lead, trail) = choose|lead: Seq<char>, trail: Seq<char>|
        #![trigger lead + digits + trail]
        hex == lead + digits + trail && (forall|i: int|
            0 <= i < lead.len() ==> text::is_space(#[trigger] lead[i])) && (forall|i: int|
            0 <= i < trail.len() ==> text::is_space(#[trigger] trail[i]));
    crypto::law_key_hex_round_trip(lead, digits, trail, key);
}

/// Files that spell different keys load different keys, and a client and a server
/// whose files spell the same key load the same one, however they spell it.
pub proof fn law_keys_agree_exactly_if_the_files_do(
    ours: Seq<char>,
    theirs: Seq<char>,
    our_key: Seq<u8>,
    their_key: Seq<u8>,
)
    requires
        our_key.len() == KEY_SIZE,
        their_key.len() == KEY_SIZE,
        spells_key(ours, our_key),
        spells_key(theirs, their_key),
    ensures
        configured_psk(ours) == configured_psk(theirs) <==> our_key == their_key,
{
    law_spelled_key_is_loaded(ours, our_key);
    law_spelled_key_is_loaded(theirs, their_key);
}

/// The key between the double quotes of `key = "..."` under `[crypto]` is loaded,
/// whatever else the file holds.
#[verifier::rlimit(40)]
pub proof fn law_key_is_read_from_text(
    before: Seq<char>,
    digits: Seq<char>,
    after: Seq<char>,
    key: Seq<u8>,
)
    requires
        key.len() == KEY_SIZE,
        text::equal_ignoring_case(digits, text::hex_string_chars(key)),
        config::never_opened(text::split(before, '\n'), "crypto"@),
    ensures
        configured_psk(
            before.push('\n') + ("[crypto]"@.push('\n') + (("key = \""@ + digits + "\""@).push('\n')
                + after)),
        ) == Ok::<Seq<u8>, PskErrorView>(key),
{
    reveal_strlit("crypto");
    reveal_strlit("key");
    reveal_strlit("[crypto]");
    reveal_strlit(" = \"");
    reveal_strlit("key = \"");
    assert("[crypto]"@ =~= seq!['['] + "crypto"@ + seq![']']);
    assert("key = \""@ =~= "key"@ + " = \""@);
    let hex = text::hex_string_chars(key);
    assert forall|i: int| 0 <= i < digits.len() implies digits[i] != '\n' && !text::is_space(
        #[trigger] digits[i],
    ) by {
        crypto::lemma_key_digit(digits, key, i);
    }
    assert(!"crypto"@.contains('\n') && !"key"@.contains('\n'));
    assert(!digits.contains('\n'));
    config::law_value_is_read_from_text(before, "crypto"@, "key"@, digits, after);
    let contents = before.push('\n') + ("[crypto]"@.push('\n') + (("key = \""@ + digits + "\""@).push(
        '\n',
    ) + after));
    assert(config::config_value(contents, "crypto"@, "key"@) == Some(digits));
    let none = Seq::<char>::empty();
    text::lemma_trimmed_padded(none, digits, none);
    assert(none + digits + none =~= digits);
    law_spelled_key_is_loaded(contents, key);
}

/// Loads the pre-shared key.
pub fn load_psk(contents: &str) -> (r: Result<[u8; KEY_SIZE], PskError>)
    ensures
        match r {
            Ok(key) => configured_psk(contents@) == Ok::<Seq<u8>, PskErrorView>(key@),
            Err(e) => configured_psk(contents@) == Err::<Seq<u8>, PskErrorView>(e@),
        },
        r matches Ok(key) ==> spells_key(contents@, key@),
{
    proof {
        law_loaded_key_is_spelled_by_the_file(contents@);
    }
    match config::load_crypto_key_hex(contents) {
        Err(e) => Err(PskError::Config(e)),
        Ok(hex) => match crypto::parse_key_hex(hex.as_str()) {
            Err(e) => Err(PskError::Crypto(e)),
            Ok(key) => Ok(key),
        },
    }
}

/// A missing key is told in the words of what kept it from being read.
pub proof fn law_errors_keep_their_words(contents: Seq<char>)
    ensures
        ({
            let hex = config::crypto_key_hex(contents);
            &&& hex matches Err(e) ==> configured_psk(contents) == Err::<Seq<u8>, PskErrorView>(
                PskErrorView::Config(e),
            ) && PskErrorView::Config(e).message_chars() == e.message_chars()
            &&& hex matches Ok(digits) ==> (crypto::parsed_key(digits) matches Err(e)
                ==> configured_psk(contents) == Err::<Seq<u8>, PskErrorView>(
                PskErrorView::Crypto(e),
            ) && PskErrorView::Crypto(e).message_chars() == e.message_chars())
        }),
{
}

} // verus!
