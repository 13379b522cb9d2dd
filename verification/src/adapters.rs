//! The calls into other crates. Each function here hands its arguments to one outside function and
//! turns what comes back into plain values; what its contract says of the outside function is
//! believed, not proved. Everything else in the crate is proved from these contracts.

use crate::network::Network;
use crate::outputs::{is_p2tr, is_p2wpkh, outputs_view, Output, TxOutput};
use vstd::prelude::*;

verus! {

/// What a result made of strings says.
pub open spec fn result_text(r: Result<String, String>) -> Result<Seq<char>, Seq<char>> {
    match r {
        Ok(t) => Ok(t@),
        Err(e) => Err(e@),
    }
}

// ---- hex ------------------------------------------------------------------------------------

/// The digit for a value below sixteen, in lower case.
pub open spec fn hex_digit(v: int) -> char {
    if v < 10 {
        ('0' as int + v) as char
    } else {
        ('a' as int + (v - 10)) as char
    }
}

/// The value of a digit, in either case.
pub open spec fn hex_value(c: char) -> Option<int> {
    if '0' <= c <= '9' {
        Some(c as int - '0' as int)
    } else if 'a' <= c <= 'f' {
        Some(c as int - 'a' as int + 10)
    } else if 'A' <= c <= 'F' {
        Some(c as int - 'A' as int + 10)
    } else {
        None
    }
}

/// Bytes in lower-case hex, two digits for each, the high one first.
pub open spec fn hex_text(bytes: Seq<u8>) -> Seq<char> {
    Seq::new(
        2 * bytes.len(),
        |i: int|
            if i % 2 == 0 {
                hex_digit(bytes[i / 2] as int / 16)
            } else {
                hex_digit(bytes[i / 2] as int % 16)
            },
    )
}

/// The bytes that a hex text stands for, if it is one: an even number of digits and nothing else.
pub open spec fn unhex(text: Seq<char>) -> Option<Seq<u8>> {
    if text.len() % 2 == 0 && forall|i: int|
        0 <= i < text.len() ==> hex_value(#[trigger] text[i]) is Some {
        Some(
            Seq::new(
                text.len() / 2,
                |i: int|
                    (16 * hex_value(text[2 * i])->0 + hex_value(text[2 * i + 1])->0) as u8,
            ),
        )
    } else {
        None
    }
}

/// Reading back what was written in hex gives the bytes.
pub proof fn law_hex_reads_back(bytes: Seq<u8>)
    ensures
        unhex(hex_text(bytes)) == Some(bytes),
{
    let text = hex_text(bytes);
    assert forall|i: int| 0 <= i < text.len() implies hex_value(#[trigger] text[i]) is Some by {
        let b = bytes[i / 2] as int;
        assert(0 <= b / 16 < 16 && 0 <= b % 16 < 16);
    }
    let back = unhex(text)->0;
    assert forall|i: int| 0 <= i < bytes.len() implies #[trigger] back[i] == bytes[i] by {
        let b = bytes[i] as int;
        assert((2 * i) / 2 == i && (2 * i + 1) / 2 == i && (2 * i) % 2 == 0 && (2 * i + 1) % 2
            == 1);
        assert(hex_value(text[2 * i]) == Some(b / 16));
        assert(hex_value(text[2 * i + 1]) == Some(b % 16));
    }
    assert(back =~= bytes);
}

/// A hex text has two digits for each byte, in lower case, and the two together are the byte.
pub proof fn law_hex_has_two_digits_a_byte(bytes: Seq<u8>, i: int)
    requires
        0 <= i < bytes.len(),
    ensures
        hex_text(bytes).len() == 2 * bytes.len(),
        ({
            let high = hex_text(bytes)[2 * i];
            let low = hex_text(bytes)[2 * i + 1];
            &&& '0' <= high <= '9' || 'a' <= high <= 'f'
            &&& '0' <= low <= '9' || 'a' <= low <= 'f'
            &&& bytes[i] >= 0xa0 <==> 'a' <= high <= 'f'
            &&& hex_value(high) is Some && hex_value(low) is Some
            &&& bytes[i] == 16 * hex_value(high)->0 + hex_value(low)->0
        }),
{
    let b = bytes[i] as int;
    assert((2 * i) / 2 == i && (2 * i + 1) / 2 == i && (2 * i) % 2 == 0 && (2 * i + 1) % 2 == 1);
    assert(0 <= b / 16 < 16 && 0 <= b % 16 < 16);
}

/// What `hex::decode` says is wrong with a text that is not hex.
pub uninterp spec fn hex_error(text: Seq<char>) -> Seq<char>;

/// `hex::encode` writes bytes in lower-case hex.
#[verifier::external_body]
pub(crate) fn hex_encode(bytes: &Vec<u8>) -> (text: String)
    ensures
        text@ == hex_text(bytes@),
{
    hex::encode(bytes)
}

/// `hex::decode` reads hex digits of either case, two to a byte. It fails exactly on a text with
/// an odd number of bytes or with something that is no digit; its message depends on the text
/// alone.
#[verifier::external_body]
pub(crate) fn hex_decode(text: &str) -> (r: Result<Vec<u8>, String>)
    ensures
        match r {
            Ok(bytes) => unhex(text@) == Some(bytes@),
            Err(e) => unhex(text@) is None && e@ == hex_error(text@),
        },
{
    hex::decode(text).map_err(|e| e.to_string())
}

// ---- bitcoin --------------------------------------------------------------------------------

/// What parsing an outpoint gives: its canonical text, or what is wrong with it.
pub uninterp spec fn outpoint_parsed(text: Seq<char>) -> Result<Seq<char>, Seq<char>>;

/// `OutPoint::from_str` of the bitcoin crate, and `to_string` of what it read.
#[verifier::external_body]
pub(crate) fn parse_outpoint(text: &str) -> (r: Result<String, String>)
    ensures
        result_text(r) == outpoint_parsed(text@),
{
    match text.parse::<bitcoin::OutPoint>() {
        Ok(outpoint) => Ok(outpoint.to_string()),
        Err(e) => Err(e.to_string()),
    }
}

/// What `Txid::from_str` says is wrong with a text that is no transaction id.
pub uninterp spec fn txid_error(text: Seq<char>) -> Seq<char>;

/// What parsing a transaction id gives: 64 hex digits in lower case, or what is wrong with it.
pub open spec fn txid_parsed(text: Seq<char>) -> Result<Seq<char>, Seq<char>> {
    match unhex(text) {
        Some(bytes) if bytes.len() == 32 => Ok(hex_text(bytes)),
        _ => Err(txid_error(text)),
    }
}

/// `Txid::from_str` of the bitcoin crate, and `to_string` of what it read. It succeeds exactly on
/// 64 hex digits of either case, which are written back in lower case; its message depends on the
/// text alone.
#[verifier::external_body]
pub(crate) fn parse_txid(text: &str) -> (r: Result<String, String>)
    ensures
        match r {
            Ok(t) => unhex(text@) matches Some(bytes) && bytes.len() == 32 && t@ == hex_text(bytes),
            Err(e) => !(unhex(text@) matches Some(bytes) && bytes.len() == 32) && e@ == txid_error(
                text@,
            ),
        },
{
    match text.parse::<bitcoin::Txid>() {
        Ok(txid) => Ok(txid.to_string()),
        Err(e) => Err(e.to_string()),
    }
}

/// What `Address::from_str` says is wrong with a text, if anything is.
pub uninterp spec fn address_error(text: Seq<char>) -> Option<Seq<char>>;

/// What `Address::require_network` gives for the address that a text is read as: its canonical
/// text, or what is wrong with its network.
pub uninterp spec fn address_on(text: Seq<char>, network: Network) -> Result<Seq<char>, Seq<char>>;

/// What reading an address gives: what is wrong with its text, or else what is wrong with its
/// network, or else its canonical text.
pub open spec fn address_parsed(text: Seq<char>, network: Network) -> Result<
    Result<Seq<char>, Seq<char>>,
    Seq<char>,
> {
    match address_error(text) {
        Some(e) => Err(e),
        None => Ok(address_on(text, network)),
    }
}

/// What the result of reading an address says.
pub open spec fn nested_text(r: Result<Result<String, String>, String>) -> Result<
    Result<Seq<char>, Seq<char>>,
    Seq<char>,
> {
    match r {
        Ok(inner) => Ok(result_text(inner)),
        Err(e) => Err(e@),
    }
}

/// `Address::from_str` and `Address::require_network` of the bitcoin crate, and `to_string` of
/// the address that passed both. What is wrong with the text does not depend on the network.
#[verifier::external_body]
pub(crate) fn parse_address(text: &str, network: Network) -> (r: Result<
    Result<String, String>,
    String,
>)
    ensures
        match r {
            Ok(on) => address_error(text@) is None && result_text(on) == address_on(text@, network),
            Err(e) => address_error(text@) == Some(e@),
        },
{
    let required = match network {
        Network::Bitcoin => bitcoin::Network::Bitcoin,
        Network::Testnet => bitcoin::Network::Testnet,
        Network::Signet => bitcoin::Network::Signet,
        Network::Regtest => bitcoin::Network::Regtest,
    };
    match text.parse::<bitcoin::Address<bitcoin::address::NetworkUnchecked>>() {
        Ok(a) => Ok(a.require_network(required).map(|a| a.to_string()).map_err(|e| e.to_string())),
        Err(e) => Err(e.to_string()),
    }
}

/// The address that pays to a script on a network, if there is one.
pub uninterp spec fn address_of_script(script: Seq<u8>, network: Network) -> Option<Seq<char>>;

/// `Address::from_script` of the bitcoin crate, and `to_string` of the address.
#[verifier::external_body]
pub(crate) fn script_address(script: &Vec<u8>, network: Network) -> (r: Option<String>)
    ensures
        (match r {
            Some(a) => Some(a@),
            None => None,
        }) == address_of_script(script@, network),
{
    let params = match network {
        Network::Bitcoin => bitcoin::Network::Bitcoin,
        Network::Testnet => bitcoin::Network::Testnet,
        Network::Signet => bitcoin::Network::Signet,
        Network::Regtest => bitcoin::Network::Regtest,
    };
    bitcoin::Address::from_script(bitcoin::Script::from_bytes(script), params)
        .map(|a| a.to_string())
        .ok()
}

/// The SHA-256 digest of some bytes.
pub uninterp spec fn sha256_digest(bytes: Seq<u8>) -> Seq<u8>;

/// `sha256::Hash::hash` of the bitcoin crate's hashes: 32 bytes that depend on the input alone.
#[verifier::external_body]
pub(crate) fn sha256(bytes: &Vec<u8>) -> (digest: Vec<u8>)
    ensures
        digest@ == sha256_digest(bytes@),
        digest@.len() == 32,
{
    let hash = <bitcoin::hashes::sha256::Hash as bitcoin::hashes::Hash>::hash(bytes);
    bitcoin::hashes::Hash::to_byte_array(hash).to_vec()
}

// ---- secp256k1 ------------------------------------------------------------------------------

/// The order of the secp256k1 group.
pub open spec fn secp256k1_order() -> int {
    0xfffffffffffffffffffffffffffffffebaaedce6af48a03bbfd25e8cd0364141int
}

/// The number that bytes stand for, most significant byte first.
pub open spec fn big_endian(bytes: Seq<u8>) -> int
    decreases bytes.len(),
{
    if bytes.len() == 0 {
        0
    } else {
        256 * big_endian(bytes.drop_last()) + bytes.last()
    }
}

/// Whether bytes are a secp256k1 secret key: 32 of them, and a number from one to below the order
/// of the group.
pub open spec fn valid_secret(bytes: Seq<u8>) -> bool {
    bytes.len() == 32 && 0 < big_endian(bytes) < secp256k1_order()
}

/// `SecretKey::from_slice` of the secp256k1 crate succeeds exactly on a secret key, and has one
/// message for everything else.
#[verifier::external_body]
pub(crate) fn check_secret_key(bytes: &Vec<u8>) -> (r: Result<(), String>)
    ensures
        match r {
            Ok(_) => valid_secret(bytes@),
            Err(e) => !valid_secret(bytes@) && e@ == "malformed or out-of-range secret key"@,
        },
{
    match bitcoin::secp256k1::SecretKey::from_slice(bytes) {
        Ok(_) => Ok(()),
        Err(e) => Err(e.to_string()),
    }
}

/// The x coordinate of the public key for a secret key.
pub uninterp spec fn xonly_public_key(secret: Seq<u8>) -> Seq<u8>;

/// `Keypair::x_only_public_key` of the secp256k1 crate, serialized: 32 bytes that depend on the
/// secret key alone.
#[verifier::external_body]
pub(crate) fn xonly_pubkey(secret: &Vec<u8>) -> (key: Vec<u8>)
    requires
        valid_secret(secret@),
    ensures
        key@ == xonly_public_key(secret@),
        key@.len() == 32,
{
    let secp = bitcoin::secp256k1::Secp256k1::new();
    let keypair = bitcoin::secp256k1::Keypair::from_seckey_slice(&secp, secret).unwrap();
    keypair.x_only_public_key().0.serialize().to_vec()
}

/// The BIP340 signature over a digest, made without auxiliary randomness.
pub uninterp spec fn schnorr_signature(digest: Seq<u8>, secret: Seq<u8>) -> Seq<u8>;

/// `Secp256k1::sign_schnorr_no_aux_rand` of the secp256k1 crate, serialized: 64 bytes that depend
/// on the digest and the secret key alone.
#[verifier::external_body]
pub(crate) fn sign_schnorr(digest: &Vec<u8>, secret: &Vec<u8>) -> (signature: Vec<u8>)
    requires
        digest@.len() == 32,
        valid_secret(secret@),
    ensures
        signature@ == schnorr_signature(digest@, secret@),
        signature@.len() == 64,
{
    let secp = bitcoin::secp256k1::Secp256k1::new();
    let keypair = bitcoin::secp256k1::Keypair::from_seckey_slice(&secp, secret).unwrap();
    let message = bitcoin::secp256k1::Message::from_digest_slice(digest).unwrap();
    secp.sign_schnorr_no_aux_rand(&message, &keypair).serialize().to_vec()
}

// ---- wallet seed ----------------------------------------------------------------------------

/// What `Mnemonic::from_str` says is wrong with a phrase, if anything is.
pub uninterp spec fn mnemonic_error(phrase: Seq<char>) -> Option<Seq<char>>;

/// What `Mnemonic::to_seed` makes of the mnemonic that a phrase is read as, with an empty
/// passphrase.
pub uninterp spec fn seed_of_mnemonic(phrase: Seq<char>) -> Seq<u8>;

/// What a mnemonic gives: the 64 bytes of its seed, or what is wrong with it.
pub open spec fn mnemonic_seed(phrase: Seq<char>) -> Result<Seq<u8>, Seq<char>> {
    match mnemonic_error(phrase) {
        Some(e) => Err(e),
        None => Ok(seed_of_mnemonic(phrase)),
    }
}

/// `Mnemonic::from_str` of the bip39 crate, and `to_seed` of the mnemonic with an empty
/// passphrase.
#[verifier::external_body]
pub(crate) fn parse_mnemonic(phrase: &str) -> (r: Result<Vec<u8>, String>)
    ensures
        match r {
            Ok(seed) => mnemonic_error(phrase@) is None && seed@ == seed_of_mnemonic(phrase@)
                && seed@.len() == 64,
            Err(e) => mnemonic_error(phrase@) == Some(e@),
        },
{
    match phrase.parse::<bip39::Mnemonic>() {
        Ok(mnemonic) => Ok(mnemonic.to_seed("").to_vec()),
        Err(e) => Err(e.to_string()),
    }
}

// ---- identifiers ----------------------------------------------------------------------------

/// What parsing a quote id gives: its canonical text, or what is wrong with it.
pub uninterp spec fn quote_id_parsed(text: Seq<char>) -> Result<Seq<char>, Seq<char>>;

/// `QuoteId::from_str` of the cdk-common crate, and `to_string` of what it read.
#[verifier::external_body]
pub(crate) fn parse_quote_id(text: &str) -> (r: Result<String, String>)
    ensures
        result_text(r) == quote_id_parsed(text@),
{
    match text.parse::<cdk_common::QuoteId>() {
        Ok(id) => Ok(id.to_string()),
        Err(e) => Err(e.to_string()),
    }
}

/// `QuoteId::new` of the cdk-common crate, as text: a fresh UUID in its hyphenated form of
/// 36 characters, which is read back as it stands.
#[verifier::external_body]
pub(crate) fn new_quote_id() -> (id: String)
    ensures
        id@.len() == 36,
        quote_id_parsed(id@) == Ok::<Seq<char>, Seq<char>>(id@),
{
    cdk_common::QuoteId::new().to_string()
}

/// `Uuid::new_v4` of the uuid crate, as text: a random UUID in its hyphenated form of 36
/// characters.
#[verifier::external_body]
pub(crate) fn new_attempt_id() -> (id: String)
    ensures
        id@.len() == 36,
{
    uuid::Uuid::new_v4().to_string()
}

/// What parsing a VTXO id gives: the canonical text of the outpoint that it is, or what is wrong
/// with it.
pub open spec fn vtxo_id_parsed(text: Seq<char>) -> Result<Seq<char>, Seq<char>> {
    match outpoint_parsed(text) {
        Ok(outpoint) => Ok(outpoint),
        Err(_) => Err("failed to parse vtxo id, must be 36 bytes"@),
    }
}

/// `VtxoId::from_str` of the ark-lib crate, and `to_string` of what it read. A VTXO id is read and
/// written as an outpoint is, with one message for everything else.
#[verifier::external_body]
pub(crate) fn parse_vtxo_id(text: &str) -> (r: Result<String, String>)
    ensures
        match r {
            Ok(id) => outpoint_parsed(text@) == Ok::<Seq<char>, Seq<char>>(id@),
            Err(e) => outpoint_parsed(text@) is Err && e@
                == "failed to parse vtxo id, must be 36 bytes"@,
        },
{
    match text.parse::<ark::VtxoId>() {
        Ok(id) => Ok(id.to_string()),
        Err(e) => Err(e.to_string()),
    }
}

// ---- payjoin --------------------------------------------------------------------------------

/// What is wrong with bytes that should be an OHTTP key configuration, if anything is.
pub uninterp spec fn ohttp_keys_error(bytes: Seq<u8>) -> Option<Seq<char>>;

/// `OhttpKeys::decode` of the payjoin crate: whether it reads the bytes, and its message if not.
#[verifier::external_body]
pub(crate) fn check_ohttp_keys(bytes: &Vec<u8>) -> (r: Result<(), String>)
    ensures
        (match r {
            Ok(_) => None,
            Err(e) => Some(e@),
        }) == ohttp_keys_error(bytes@),
{
    match payjoin::OhttpKeys::decode(bytes) {
        Ok(_) => Ok(()),
        Err(e) => Err(e.to_string()),
    }
}

/// What `OhttpKeys::try_from` makes of the short form of an OHTTP key configuration, written out
/// in full, or what is wrong with it.
pub uninterp spec fn short_ohttp_keys(bytes: Seq<u8>) -> Result<Seq<u8>, Seq<char>>;

/// `OhttpKeys::try_from` of the payjoin crate, on a key's number and its compressed public key, and
/// `encode` of what it read. What is written out can be read by `OhttpKeys::decode`.
#[verifier::external_body]
pub(crate) fn expand_ohttp_keys(bytes: &Vec<u8>) -> (r: Result<Vec<u8>, String>)
    ensures
        (match r {
            Ok(keys) => Ok(keys@),
            Err(e) => Err(e@),
        }) == short_ohttp_keys(bytes@),
        r is Ok ==> ohttp_keys_error(r->Ok_0@) is None,
{
    match payjoin::OhttpKeys::try_from(bytes.as_slice()) {
        Ok(keys) => keys.encode().map_err(|e| e.to_string()),
        Err(e) => Err(e.to_string()),
    }
}

/// What a bech32 text without a checksum holds, if it is one: the part before the separator, and
/// the bytes behind it.
pub uninterp spec fn bech32_decoded(text: Seq<char>) -> Option<(Seq<char>, Seq<u8>)>;

/// `CheckedHrpstring::new` of the bech32 crate for `NoChecksum`, with the human-readable part and
/// the bytes of what it read.
#[verifier::external_body]
pub(crate) fn bech32_decode(text: &str) -> (r: Option<(String, Vec<u8>)>)
    ensures
        (match r {
            Some((part, bytes)) => Some((part@, bytes@)),
            None => None,
        }) == bech32_decoded(text@),
{
    match bitcoin::bech32::primitives::decode::CheckedHrpstring::new::<
        bitcoin::bech32::NoChecksum,
    >(text) {
        Ok(read) => Some((read.hrp().to_string(), read.byte_iter().collect())),
        Err(_) => None,
    }
}

/// What a stored session event holds: the outputs that it commits to, if it commits to any, or
/// what is wrong with its text.
pub uninterp spec fn session_event_parsed(json: Seq<char>) -> Result<
    Option<Seq<Output>>,
    Seq<char>,
>;

/// What the result of reading a session event says.
pub open spec fn event_view(r: Result<Option<Vec<TxOutput>>, String>) -> Result<
    Option<Seq<Output>>,
    Seq<char>,
> {
    match r {
        Ok(Some(outputs)) => Ok(Some(outputs_view(outputs@))),
        Ok(None) => Ok(None),
        Err(e) => Err(e@),
    }
}

/// `serde_json::from_str` on a receiver session event of the payjoin crate: the outputs of a
/// `CommittedOutputs` event, in order, and none for the other events.
#[verifier::external_body]
pub(crate) fn parse_session_event(json: &str) -> (r: Result<Option<Vec<TxOutput>>, String>)
    ensures
        event_view(r) == session_event_parsed(json@),
{
    match serde_json::from_str::<payjoin::receive::v2::SessionEvent>(json) {
        Ok(payjoin::receive::v2::SessionEvent::CommittedOutputs { outputs, .. }) => {
            let plain = |o: bitcoin::TxOut| TxOutput {
                script: o.script_pubkey.into_bytes(),
                value_sat: o.value.to_sat(),
            };
            Ok(Some(outputs.into_iter().map(plain).collect()))
        },
        Ok(_) => Ok(None),
        Err(e) => Err(e.to_string()),
    }
}

/// An input with what is needed to spend it, as the payjoin crate holds it.
#[verifier::external_type_specification]
#[verifier::external_body]
pub struct ExInputPair(payjoin::receive::InputPair);

/// The input that `InputPair::new_p2tr_keyspend` makes of an output and an outpoint.
pub uninterp spec fn p2tr_pair(
    script: Seq<u8>,
    value_sat: u64,
    outpoint: Seq<char>,
) -> payjoin::receive::InputPair;

/// `InputPair::new_p2tr_keyspend` of the payjoin crate, on the output and the parsed outpoint. It
/// succeeds exactly on a taproot script; the input depends on the output and the outpoint alone.
#[verifier::external_body]
pub(crate) fn p2tr_input_pair(script: &Vec<u8>, value_sat: u64, outpoint: &str) -> (r: Result<
    payjoin::receive::InputPair,
    String,
>)
    ensures
        r is Ok == (is_p2tr(script@) && outpoint_parsed(outpoint@) is Ok),
        r is Ok ==> r->Ok_0 == p2tr_pair(script@, value_sat, outpoint@),
{
    let value = bitcoin::Amount::from_sat(value_sat);
    let txout = bitcoin::TxOut { value, script_pubkey: script.clone().into() };
    match outpoint.parse::<bitcoin::OutPoint>() {
        Ok(op) => payjoin::receive::InputPair::new_p2tr_keyspend(txout, op)
            .map_err(|e| e.to_string()),
        Err(e) => Err(e.to_string()),
    }
}

/// The input that `InputPair::new_p2wpkh` makes of an output and an outpoint.
pub uninterp spec fn p2wpkh_pair(
    script: Seq<u8>,
    value_sat: u64,
    outpoint: Seq<char>,
) -> payjoin::receive::InputPair;

/// `InputPair::new_p2wpkh` of the payjoin crate, on the output and the parsed outpoint. It
/// succeeds exactly on a script that pays to a witness public key hash; the input depends on the
/// output and the outpoint alone.
#[verifier::external_body]
pub(crate) fn p2wpkh_input_pair(script: &Vec<u8>, value_sat: u64, outpoint: &str) -> (r: Result<
    payjoin::receive::InputPair,
    String,
>)
    ensures
        r is Ok == (is_p2wpkh(script@) && outpoint_parsed(outpoint@) is Ok),
        r is Ok ==> r->Ok_0 == p2wpkh_pair(script@, value_sat, outpoint@),
{
    let value = bitcoin::Amount::from_sat(value_sat);
    let txout = bitcoin::TxOut { value, script_pubkey: script.clone().into() };
    match outpoint.parse::<bitcoin::OutPoint>() {
        Ok(op) => payjoin::receive::InputPair::new_p2wpkh(txout, op).map_err(|e| e.to_string()),
        Err(e) => Err(e.to_string()),
    }
}

} // verus!
