//! Proof of reserves: a signed statement of what the mint controls in live VTXOs as of a block. It
//! is a lower bound on assets and says nothing on liabilities.

use crate::adapters::{
    check_secret_key, hex_decode, hex_encode, hex_error, hex_text, law_hex_reads_back,
    schnorr_signature, sha256, sha256_digest, sign_schnorr, unhex, valid_secret, xonly_public_key, xonly_pubkey,
};
use crate::startup::{list_items, listed};
use crate::table::Table;
use crate::text::{
    cat2, cat3, cat4, cat5, opt_text, number_read, read_number, str_eq, texts, trim,
    trim_end_slashes, trimmed, without_end_slashes,
};
use vstd::prelude::*;
use vstd::utf8::encode_utf8;

verus! {

/// The mint that attests.
pub open spec fn mint_id() -> Seq<char> {
    "your-mint.example"@
}

/// The cosign key of the Ark server, which every attested VTXO has to carry.
pub open spec fn pinned_server_pubkey() -> Seq<char> {
    "0375b2e4f6abe5b00736359de211c35d9e72b615e5fd424d8ad1e68a8b300b97b5"@
}

/// The id of the mint that attests.
pub fn attesting_mint() -> (id: String)
    ensures
        id@ == mint_id(),
        id@ == "your-mint.example"@,
{
    "your-mint.example".to_owned()
}

/// The pinned cosign key of the Ark server.
pub fn pinned_second_pubkey() -> (key: String)
    ensures
        key@ == pinned_server_pubkey(),
        key@ == "0375b2e4f6abe5b00736359de211c35d9e72b615e5fd424d8ad1e68a8b300b97b5"@,
{
    "0375b2e4f6abe5b00736359de211c35d9e72b615e5fd424d8ad1e68a8b300b97b5".to_owned()
}

// ---- paths ----------------------------------------------------------------------------------

/// A relative path below a directory.
pub open spec fn path_joined(base: Seq<char>, rest: Seq<char>) -> Seq<char> {
    if base.len() == 0 {
        rest
    } else if base.last() == '/' {
        base + rest
    } else {
        base + "/"@ + rest
    }
}

/// Makes a relative path below a directory.
pub fn path_join(base: &str, rest: &str) -> (path: String)
    ensures
        path@ == path_joined(base@, rest@),
{
    let n: usize = base.unicode_len();
    if n == 0 {
        rest.to_owned()
    } else if base.get_char(n - 1) == '/' {
        cat2(base, rest)
    } else {
        cat3(base, "/", rest)
    }
}

/// A path from the environment, or else one below the home directory or, without one, the current
/// directory.
pub open spec fn path_or_home(
    env: Map<Seq<char>, Seq<char>>,
    name: Seq<char>,
    below_home: Seq<char>,
) -> Seq<char> {
    if env.dom().contains(name) {
        env[name]
    } else if env.dom().contains("HOME"@) {
        path_joined(env["HOME"@], below_home)
    } else {
        path_joined("."@, below_home)
    }
}

fn find_path(env: &Table<String>, name: &str, below_home: &str) -> (path: String)
    ensures
        path@ == path_or_home(env@, name@, below_home@),
{
    match env.get(name) {
        Some(path) => path.clone(),
        None => match env.get("HOME") {
            Some(home) => path_join(home.as_str(), below_home),
            None => path_join(".", below_home),
        },
    }
}

/// Where the bundle is written.
pub fn bundle_path(env: &Table<String>) -> (path: String)
    ensures
        path@ == path_or_home(env@, "POR_BUNDLE_PATH"@, "mint/audit/latest.json"@),
{
    find_path(env, "POR_BUNDLE_PATH", "mint/audit/latest.json")
}

/// Where the ledger of attestations is.
pub fn ledger_path(env: &Table<String>) -> (path: String)
    ensures
        path@ == path_or_home(env@, "POR_LEDGER_PATH"@, "mint/ledger/attestations.jsonl"@),
{
    find_path(env, "POR_LEDGER_PATH", "mint/ledger/attestations.jsonl")
}

/// Where the attestation key is looked for.
pub fn attest_key_file(env: &Table<String>) -> (path: String)
    ensures
        path@ == if env@.dom().contains("HOME"@) {
            path_joined(env@["HOME"@], "secrets/por-attest.seckey"@)
        } else {
            "secrets/por-attest.seckey"@
        },
{
    match env.get("HOME") {
        Some(home) => path_join(home.as_str(), "secrets/por-attest.seckey"),
        None => "secrets/por-attest.seckey".to_owned(),
    }
}

// ---- the attestation key --------------------------------------------------------------------

/// The key that attestations are signed with.
pub struct AttestKey {
    secret: Vec<u8>,
}

impl View for AttestKey {
    type V = Seq<u8>;

    closed spec fn view(&self) -> Seq<u8> {
        self.secret@
    }
}

impl AttestKey {
    #[verifier::type_invariant]
    spec fn is_valid(&self) -> bool {
        valid_secret(self.secret@)
    }

    /// The bytes of the secret key.
    pub fn secret_bytes(&self) -> (bytes: &Vec<u8>)
        ensures
            bytes@ == self@,
            valid_secret(bytes@),
    {
        proof {
            use_type_invariant(self);
        }
        &self.secret
    }
}

/// What is configured as the attestation key: the environment's, or else the file's, trimmed. An
/// empty text is none.
pub open spec fn key_text(env: Map<Seq<char>, Seq<char>>, file: Option<Seq<char>>) -> Option<
    Seq<char>,
> {
    let found = if env.dom().contains("POR_ATTEST_SECKEY"@) {
        Some(trimmed(env["POR_ATTEST_SECKEY"@]))
    } else {
        match file {
            Some(contents) => Some(trimmed(contents)),
            None => None,
        }
    };
    match found {
        Some(text) if text.len() > 0 => Some(text),
        _ => None,
    }
}

/// Loads the attestation key, if one is configured. `file` holds the contents of the key file, if
/// it can be read.
pub fn load_attest_key(env: &Table<String>, file: Option<String>) -> (r: Result<
    Option<AttestKey>,
    String,
>)
    ensures
        match key_text(env@, opt_text(file)) {
            None => r matches Ok(None),
            Some(text) => match unhex(text) {
                None => r matches Err(e) && e@ == "POR attest seckey hex: "@ + hex_error(text),
                Some(bytes) => if valid_secret(bytes) {
                    r matches Ok(Some(key)) && key@ == bytes
                } else {
                    r matches Err(e) && e@
                        == "POR attest seckey must be 32 bytes: malformed or out-of-range secret key"@
                },
            },
        },
{
    let text = match env.get("POR_ATTEST_SECKEY") {
        Some(v) => trim(v.as_str()),
        None => match &file {
            Some(contents) => trim(contents.as_str()),
            None => {
                return Ok(None);
            },
        },
    };
    if text.as_str().unicode_len() == 0 {
        return Ok(None);
    }
    let secret = match hex_decode(text.as_str()) {
        Ok(bytes) => bytes,
        Err(e) => {
            return Err(cat2("POR attest seckey hex: ", e.as_str()));
        },
    };
    match check_secret_key(&secret) {
        Ok(_) => Ok(Some(AttestKey { secret })),
        Err(_) => Err(
            "POR attest seckey must be 32 bytes: malformed or out-of-range secret key".to_owned(),
        ),
    }
}

/// The public key that attestations verify against, in hex: the x coordinate.
pub fn attest_pubkey_xonly_hex(key: &AttestKey) -> (text: String)
    ensures
        text@ == hex_text(xonly_public_key(key@)),
        text@.len() == 64,
{
    proof {
        use_type_invariant(key);
    }
    hex_encode(&xonly_pubkey(&key.secret))
}

// ---- the block that an attestation is as of -------------------------------------------------

/// The block that an attestation is as of.
pub struct AsOfBlock {
    pub height: u32,
    pub hash: String,
}

/// The two URLs that give the tip of the chain: its height and its hash.
pub fn tip_urls(base: &str) -> (urls: (String, String))
    ensures
        urls.0@ == without_end_slashes(base@) + "/blocks/tip/height"@,
        urls.1@ == without_end_slashes(base@) + "/blocks/tip/hash"@,
{
    let base = trim_end_slashes(base);
    (cat2(base.as_str(), "/blocks/tip/height"), cat2(base.as_str(), "/blocks/tip/hash"))
}

/// Reads the height of the tip of the chain from its answer.
pub fn tip_height(height: &str) -> (r: Result<u32, String>)
    ensures
        match number_read(trimmed(height@), u32::MAX as u64) {
            Ok(n) => r matches Ok(h) && h == n,
            Err(fault) => r matches Err(e) && e@ == "parse tip height: "@ + fault.message(),
        },
{
    match read_number(trim(height).as_str(), u32::MAX as u64) {
        Ok(n) => Ok(n as u32),
        Err(fault) => Err(cat2("parse tip height: ", fault.text().as_str())),
    }
}

/// Reads the tip of the chain from the two answers.
pub fn fetch_as_of_block(height: &str, hash: &str) -> (r: Result<AsOfBlock, String>)
    ensures
        match number_read(trimmed(height@), u32::MAX as u64) {
            Ok(n) => r matches Ok(block) && block.height == n && block.hash@ == trimmed(hash@),
            Err(fault) => r matches Err(e) && e@ == "parse tip height: "@ + fault.message(),
        },
{
    match tip_height(height) {
        Ok(height) => Ok(AsOfBlock { height, hash: trim(hash) }),
        Err(e) => Err(e),
    }
}

// ---- the attestation ------------------------------------------------------------------------

/// A VTXO that the reserve was spent to, as the wallet gives it.
pub struct SpentVtxo {
    pub vtxo_id: String,
    pub amount_sat: u64,
    /// The server's key that the VTXO carries.
    pub server_pubkey: String,
    pub anchor_txid: String,
    pub anchor_vout: u32,
    pub vtxo_hex: String,
}

/// What a [`SpentVtxo`] says.
pub struct Spent {
    pub vtxo_id: Seq<char>,
    pub amount_sat: u64,
    pub server_pubkey: Seq<char>,
    pub anchor_txid: Seq<char>,
    pub anchor_vout: u32,
    pub vtxo_hex: Seq<char>,
}

impl View for SpentVtxo {
    type V = Spent;

    open spec fn view(&self) -> Spent {
        Spent {
            vtxo_id: self.vtxo_id@,
            amount_sat: self.amount_sat,
            server_pubkey: self.server_pubkey@,
            anchor_txid: self.anchor_txid@,
            anchor_vout: self.anchor_vout,
            vtxo_hex: self.vtxo_hex@,
        }
    }
}

/// One VTXO of the reserve, as attested.
pub struct ReserveEntry {
    pub vtxo_id: String,
    pub amount_sat: u64,
    pub anchor_txid: String,
    pub anchor_vout: u32,
    /// Always zero: who verifies finds the block of the anchor for themselves.
    pub anchor_block_height: u32,
    pub vtxo_hex: String,
    pub anchor_tx_hex: String,
}

/// What a [`ReserveEntry`] says.
pub struct Entry {
    pub vtxo_id: Seq<char>,
    pub amount_sat: u64,
    pub anchor_txid: Seq<char>,
    pub anchor_vout: u32,
    pub anchor_block_height: u32,
    pub vtxo_hex: Seq<char>,
    pub anchor_tx_hex: Seq<char>,
}

impl View for ReserveEntry {
    type V = Entry;

    open spec fn view(&self) -> Entry {
        Entry {
            vtxo_id: self.vtxo_id@,
            amount_sat: self.amount_sat,
            anchor_txid: self.anchor_txid@,
            anchor_vout: self.anchor_vout,
            anchor_block_height: self.anchor_block_height,
            vtxo_hex: self.vtxo_hex@,
            anchor_tx_hex: self.anchor_tx_hex@,
        }
    }
}

/// What each of several entries says.
pub open spec fn entries_view(v: Seq<ReserveEntry>) -> Seq<Entry> {
    v.map_values(|e: ReserveEntry| e@)
}

/// The sum of the attested amounts.
pub open spec fn reserve_total(entries: Seq<Entry>) -> nat
    decreases entries.len(),
{
    if entries.len() == 0 {
        0
    } else {
        reserve_total(entries.drop_last()) + entries.last().amount_sat as nat
    }
}

/// A VTXO that carries the pinned key of the server.
pub struct PinnedVtxo {
    vtxo: SpentVtxo,
}

impl View for PinnedVtxo {
    type V = Spent;

    closed spec fn view(&self) -> Spent {
        self.vtxo@
    }
}

impl PinnedVtxo {
    #[verifier::type_invariant]
    spec fn is_pinned(&self) -> bool {
        self.vtxo@.server_pubkey == pinned_server_pubkey()
    }

    /// Takes the VTXO that the reserve was spent to, if there is one and it carries the pinned key.
    pub fn check(created: Option<SpentVtxo>) -> (r: Result<PinnedVtxo, String>)
        ensures
            match created {
                None => r matches Err(e) && e@ == "self-spend returned no destination vtxo"@,
                Some(vtxo) => if vtxo@.server_pubkey == pinned_server_pubkey() {
                    r matches Ok(pinned) && pinned@ == vtxo@ && pinned@.vtxo_id == vtxo.vtxo_id@
                        && pinned@.amount_sat == vtxo.amount_sat && pinned@.anchor_txid
                        == vtxo.anchor_txid@ && pinned@.anchor_vout == vtxo.anchor_vout
                        && pinned@.vtxo_hex == vtxo.vtxo_hex@
                } else {
                    r matches Err(e) && e@ == "self-spend output embeds server pubkey "@
                        + vtxo@.server_pubkey + " != pinned Second key "@ + pinned_server_pubkey()
                        + " — refusing"@
                },
            },
    {
        match created {
            None => Err("self-spend returned no destination vtxo".to_owned()),
            Some(vtxo) => {
                let pinned = pinned_second_pubkey();
                if str_eq(vtxo.server_pubkey.as_str(), pinned.as_str()) {
                    Ok(PinnedVtxo { vtxo })
                } else {
                    Err(
                        cat5(
                            "self-spend output embeds server pubkey ",
                            vtxo.server_pubkey.as_str(),
                            " != pinned Second key ",
                            pinned.as_str(),
                            " — refusing",
                        ),
                    )
                }
            },
        }
    }

    /// The transaction that anchors the VTXO.
    pub fn anchor_txid(&self) -> (txid: &String)
        ensures
            txid@ == self@.anchor_txid,
    {
        &self.vtxo.anchor_txid
    }
}

/// An attestation that is being put together.
pub struct AttestationBuilder {
    entries: Vec<ReserveEntry>,
    total_sat: u64,
}

impl View for AttestationBuilder {
    type V = Seq<Entry>;

    closed spec fn view(&self) -> Seq<Entry> {
        entries_view(self.entries@)
    }
}

/// A signed statement of the reserve.
pub struct AttestationBundle {
    pub format: String,
    pub mint_id: String,
    pub mint_identity_pubkey: String,
    pub ark_server_pubkey: String,
    pub as_of_block: AsOfBlock,
    pub reserve: Vec<ReserveEntry>,
    pub total_reserve_sat: u64,
    pub time: u64,
    pub signature: Option<String>,
}

/// The entry for a VTXO with its anchor transaction.
pub open spec fn entry_for(spent: Spent, anchor_tx: Seq<u8>) -> Entry {
    Entry {
        vtxo_id: spent.vtxo_id,
        amount_sat: spent.amount_sat,
        anchor_txid: spent.anchor_txid,
        anchor_vout: spent.anchor_vout,
        anchor_block_height: 0,
        vtxo_hex: spent.vtxo_hex,
        anchor_tx_hex: hex_text(anchor_tx),
    }
}

/// What is said of a VTXO whose anchor cannot be embedded.
pub open spec fn no_anchor(spent: Spent) -> Seq<char> {
    "anchor tx "@ + spent.anchor_txid
        + " not retrievable (unbroadcast); cannot embed a verifiable anchor for vtxo "@
        + spent.vtxo_id
}

impl AttestationBuilder {
    #[verifier::type_invariant]
    spec fn is_summed(&self) -> bool {
        self.total_sat == reserve_total(entries_view(self.entries@))
    }

    /// An attestation without entries.
    pub fn new() -> (builder: AttestationBuilder)
        ensures
            builder@ == Seq::<Entry>::empty(),
    {
        let entries: Vec<ReserveEntry> = Vec::new();
        proof {
            assert(entries_view(entries@) =~= Seq::<Entry>::empty());
        }
        AttestationBuilder { entries, total_sat: 0 }
    }

    /// Adds a VTXO with its anchor transaction, if there is one and the total still fits.
    pub fn add(self, pinned: PinnedVtxo, anchor_tx: Option<Vec<u8>>) -> (r: Result<
        AttestationBuilder,
        String,
    >)
        ensures
            match anchor_tx {
                None => r matches Err(e) && e@ == no_anchor(pinned@),
                Some(tx) => if reserve_total(self@) + pinned@.amount_sat <= u64::MAX {
                    r matches Ok(builder) && builder@ == self@.push(entry_for(pinned@, tx@))
                        && builder@.last().vtxo_id == pinned@.vtxo_id && builder@.last().amount_sat
                        == pinned@.amount_sat && builder@.last().anchor_txid == pinned@.anchor_txid
                        && builder@.last().anchor_vout == pinned@.anchor_vout
                        && builder@.last().vtxo_hex == pinned@.vtxo_hex && unhex(
                        builder@.last().anchor_tx_hex,
                    ) == Some(tx@)
                } else {
                    r matches Err(e) && e@ == "reserve total overflow"@
                },
            },
    {
        proof {
            use_type_invariant(&self);
        }
        let vtxo = pinned.vtxo;
        let anchor_tx = match anchor_tx {
            Some(tx) => tx,
            None => {
                return Err(
                    cat4(
                        "anchor tx ",
                        vtxo.anchor_txid.as_str(),
                        " not retrievable (unbroadcast); cannot embed a verifiable anchor for vtxo ",
                        vtxo.vtxo_id.as_str(),
                    ),
                );
            },
        };
        let ghost before = entries_view(self.entries@);
        let AttestationBuilder { entries, total_sat } = self;
        let total: u64 = match total_sat.checked_add(vtxo.amount_sat) {
            Some(t) => t,
            None => {
                return Err("reserve total overflow".to_owned());
            },
        };
        let mut entries = entries;
        entries.push(
            ReserveEntry {
                vtxo_id: vtxo.vtxo_id,
                amount_sat: vtxo.amount_sat,
                anchor_txid: vtxo.anchor_txid,
                anchor_vout: vtxo.anchor_vout,
                anchor_block_height: 0,
                vtxo_hex: vtxo.vtxo_hex,
                anchor_tx_hex: hex_encode(&anchor_tx),
            },
        );
        proof {
            let entry = entry_for(pinned@, anchor_tx@);
            assert(entries_view(entries@) =~= before.push(entry));
            assert(before.push(entry).drop_last() =~= before);
            law_hex_reads_back(anchor_tx@);
        }
        Ok(AttestationBuilder { entries, total_sat: total })
    }

    /// The bundle, not yet signed.
    pub fn build_attestation(
        self,
        format: String,
        key: &AttestKey,
        as_of_block: AsOfBlock,
        time: u64,
    ) -> (bundle: AttestationBundle)
        ensures
            bundle.format@ == format@,
            bundle.mint_id@ == mint_id(),
            bundle.mint_identity_pubkey@ == hex_text(xonly_public_key(key@)),
            bundle.ark_server_pubkey@ == pinned_server_pubkey(),
            bundle.as_of_block == as_of_block,
            entries_view(bundle.reserve@) == self@,
            bundle.reserve@.len() == self@.len(),
            forall|i: int|
                0 <= i < self@.len() ==> {
                    let said = #[trigger] bundle.reserve@[i];
                    &&& said.vtxo_id@ == self@[i].vtxo_id && said.amount_sat == self@[i].amount_sat
                    &&& said.anchor_txid@ == self@[i].anchor_txid && said.anchor_vout
                        == self@[i].anchor_vout
                    &&& said.anchor_block_height == self@[i].anchor_block_height
                    &&& said.vtxo_hex@ == self@[i].vtxo_hex && said.anchor_tx_hex@
                        == self@[i].anchor_tx_hex
                },
            bundle.total_reserve_sat == reserve_total(self@),
            bundle.time == time,
            bundle.signature is None,
    {
        proof {
            use_type_invariant(&self);
        }
        let AttestationBuilder { entries, total_sat } = self;
        AttestationBundle {
            format,
            mint_id: attesting_mint(),
            mint_identity_pubkey: attest_pubkey_xonly_hex(key),
            ark_server_pubkey: pinned_second_pubkey(),
            as_of_block,
            reserve: entries,
            total_reserve_sat: total_sat,
            time,
            signature: None,
        }
    }
}

/// Signs a bundle over its canonical form: a BIP340 signature of the form's digest, in hex.
pub fn sign_bundle(bundle: AttestationBundle, canonical: &Vec<u8>, key: &AttestKey) -> (signed:
    AttestationBundle)
    ensures
        opt_text(signed.signature) == Some(
            hex_text(schnorr_signature(sha256_digest(canonical@), key@)),
        ),
        signed == (AttestationBundle { signature: signed.signature, ..bundle }),
{
    proof {
        use_type_invariant(key);
    }
    let digest = sha256(canonical);
    let signature = sign_schnorr(&digest, &key.secret);
    AttestationBundle { signature: Some(hex_encode(&signature)), ..bundle }
}

/// An attestation with its serialized form.
pub struct AttestationResult {
    pub bundle: AttestationBundle,
    pub bundle_json: String,
    pub bundle_sha256_hex: String,
}

/// Puts a signed bundle together with its serialized form and the digest of that.
pub fn attestation_result(bundle: AttestationBundle, bundle_json: String) -> (r: AttestationResult)
    ensures
        r.bundle == bundle,
        r.bundle_json@ == bundle_json@,
        r.bundle_sha256_hex@ == hex_text(sha256_digest(encode_utf8(bundle_json@))),
{
    let bytes = bundle_json.as_str().as_bytes_vec();
    let bundle_sha256_hex = hex_encode(&sha256(&bytes));
    AttestationResult { bundle, bundle_json, bundle_sha256_hex }
}

/// A line of the ledger of attestations.
pub struct LedgerLine {
    pub time: u64,
    pub block: u32,
    pub total_reserve_sat: u64,
    pub bundle_sha256: String,
    pub nostr_event_id: Option<String>,
    pub url: Option<String>,
}

/// The line of the ledger for an attestation.
pub fn append_ledger(
    result: &AttestationResult,
    nostr_event_id: Option<String>,
    url: Option<String>,
    now: u64,
) -> (line: LedgerLine)
    ensures
        line.time == now,
        line.block == result.bundle.as_of_block.height,
        line.total_reserve_sat == result.bundle.total_reserve_sat,
        line.bundle_sha256@ == result.bundle_sha256_hex@,
        line.nostr_event_id == nostr_event_id,
        line.url == url,
{
    LedgerLine {
        time: now,
        block: result.bundle.as_of_block.height,
        total_reserve_sat: result.bundle.total_reserve_sat,
        bundle_sha256: result.bundle_sha256_hex.clone(),
        nostr_event_id,
        url,
    }
}

/// An event to publish on Nostr, signed with the attestation key.
pub struct NostrEvent {
    pub kind: u16,
    /// The identifier tag.
    pub identifier: String,
    pub content: String,
}

/// The two events that publish an attestation: the addressable one, of which relays keep the
/// latest, and one for the history. Both carry the mint's id and the whole bundle.
pub fn publish_nostr(result: &AttestationResult) -> (events: (NostrEvent, NostrEvent))
    ensures
        events.0.kind == 30078,
        events.1.kind == 78,
        events.0.identifier@ == result.bundle.mint_id@,
        events.1.identifier@ == result.bundle.mint_id@,
        events.0.content@ == result.bundle_json@,
        events.1.content@ == result.bundle_json@,
{
    (
        NostrEvent {
            kind: 30078,
            identifier: result.bundle.mint_id.clone(),
            content: result.bundle_json.clone(),
        },
        NostrEvent {
            kind: 78,
            identifier: result.bundle.mint_id.clone(),
            content: result.bundle_json.clone(),
        },
    )
}

/// The relays that attestations are published to by default.
pub open spec fn default_relays() -> Seq<Seq<char>> {
    seq!["wss://relay.damus.io"@, "wss://nos.lol"@, "wss://relay.primal.net"@]
}

/// The relays that attestations are published to: those that the environment lists, or else the
/// default ones.
pub fn nostr_relays_from_env(env: &Table<String>) -> (relays: Vec<String>)
    ensures
        texts(relays@) == if env@.dom().contains("POR_NOSTR_RELAYS"@) && trimmed(
            env@["POR_NOSTR_RELAYS"@],
        ).len() > 0 {
            listed(env@["POR_NOSTR_RELAYS"@])
        } else {
            default_relays()
        },
{
    if let Some(v) = env.get("POR_NOSTR_RELAYS") {
        if trim(v.as_str()).as_str().unicode_len() > 0 {
            return list_items(v.as_str());
        }
    }
    let mut relays: Vec<String> = Vec::new();
    relays.push("wss://relay.damus.io".to_owned());
    relays.push("wss://nos.lol".to_owned());
    relays.push("wss://relay.primal.net".to_owned());
    proof {
        assert(texts(relays@) =~= default_relays());
    }
    relays
}

/// Each entry of a bundle names the VTXO that it was made from and that VTXO's anchor: its id, its
/// amount, the transaction and output that anchor it and its bytes are those of the VTXO, and the
/// anchor transaction can be read back from the entry. The block of the anchor is left open.
pub proof fn law_entry_names_its_vtxo(spent: Spent, anchor_tx: Seq<u8>)
    ensures
        entry_for(spent, anchor_tx).vtxo_id == spent.vtxo_id,
        entry_for(spent, anchor_tx).amount_sat == spent.amount_sat,
        entry_for(spent, anchor_tx).anchor_txid == spent.anchor_txid,
        entry_for(spent, anchor_tx).anchor_vout == spent.anchor_vout,
        entry_for(spent, anchor_tx).vtxo_hex == spent.vtxo_hex,
        entry_for(spent, anchor_tx).anchor_block_height == 0,
        unhex(entry_for(spent, anchor_tx).anchor_tx_hex) == Some(anchor_tx),
{
    law_hex_reads_back(anchor_tx);
}

/// What is said of several entries is what each of them says, field by field and in their order.
pub proof fn law_entries_say_what_they_hold(v: Seq<ReserveEntry>, i: int)
    requires
        0 <= i < v.len(),
    ensures
        entries_view(v).len() == v.len(),
        entries_view(v)[i].vtxo_id == v[i].vtxo_id@,
        entries_view(v)[i].amount_sat == v[i].amount_sat,
        entries_view(v)[i].anchor_txid == v[i].anchor_txid@,
        entries_view(v)[i].anchor_vout == v[i].anchor_vout,
        entries_view(v)[i].anchor_block_height == v[i].anchor_block_height,
        entries_view(v)[i].vtxo_hex == v[i].vtxo_hex@,
        entries_view(v)[i].anchor_tx_hex == v[i].anchor_tx_hex@,
{
}

/// A VTXO that the reserve was spent to says what it holds, field by field.
pub proof fn law_spent_vtxo_says_what_it_holds(vtxo: SpentVtxo)
    ensures
        vtxo@.vtxo_id == vtxo.vtxo_id@,
        vtxo@.amount_sat == vtxo.amount_sat,
        vtxo@.server_pubkey == vtxo.server_pubkey@,
        vtxo@.anchor_txid == vtxo.anchor_txid@,
        vtxo@.anchor_vout == vtxo.anchor_vout,
        vtxo@.vtxo_hex == vtxo.vtxo_hex@,
{
}

/// The reserve adds up: nothing attests to nothing, an entry attests to its own amount, and what two
/// lists attest to together is what each of them does.
pub proof fn law_reserve_adds_up(one: Seq<Entry>, two: Seq<Entry>, entry: Entry)
    ensures
        reserve_total(Seq::empty()) == 0,
        reserve_total(seq![entry]) == entry.amount_sat,
        reserve_total(one + two) == reserve_total(one) + reserve_total(two),
        reserve_total(one.push(entry)) == reserve_total(one) + entry.amount_sat,
    decreases two.len(),
{
    assert(one.push(entry).drop_last() =~= one);
    assert(seq![entry].drop_last() =~= Seq::<Entry>::empty());
    reveal_with_fuel(reserve_total, 2);
    if two.len() == 0 {
        assert(one + two =~= one);
    } else {
        law_reserve_adds_up(one, two.drop_last(), entry);
        assert((one + two).drop_last() =~= one + two.drop_last());
        assert((one + two).last() == two.last());
    }
}

/// A relative path below a directory ends in that path, starts with the directory, and has exactly
/// one slash between the two where the directory ends in none. Below no directory it is the path.
pub proof fn law_path_lies_below(base: Seq<char>, rest: Seq<char>)
    ensures
        base.is_prefix_of(path_joined(base, rest)),
        rest.is_suffix_of(path_joined(base, rest)),
        base.len() == 0 ==> path_joined(base, rest) == rest,
        base.len() > 0 && base.last() == '/' ==> path_joined(base, rest).len() == base.len()
            + rest.len(),
        base.len() > 0 && base.last() != '/' ==> path_joined(base, rest).len() == base.len() + 1
            + rest.len() && path_joined(base, rest)[base.len() as int] == '/',
{
    reveal_strlit("/");
    let path = path_joined(base, rest);
    assert(path.subrange(0, base.len() as int) =~= base);
    assert(path.subrange(path.len() - rest.len(), path.len() as int) =~= rest);
}

/// A path that the environment names is taken as it is, wherever the home directory is. Else it
/// lies below the home directory or, without one, the current directory.
pub proof fn law_named_path_is_taken(
    env: Map<Seq<char>, Seq<char>>,
    name: Seq<char>,
    path: Seq<char>,
    home: Seq<char>,
    below: Seq<char>,
)
    requires
        name != "HOME"@,
    ensures
        path_or_home(env.insert(name, path), name, below) == path,
        path_or_home(env.remove(name).insert("HOME"@, home), name, below) == path_joined(home, below),
        path_or_home(env.remove(name).remove("HOME"@), name, below) == path_joined("."@, below),
{
}

/// The attestation key that the environment gives goes before the one in the file, and both are
/// trimmed. A blank one is none, and does not fall back to the file.
pub proof fn law_key_of_the_environment_goes_first(
    env: Map<Seq<char>, Seq<char>>,
    key: Seq<char>,
    file: Option<Seq<char>>,
    contents: Seq<char>,
)
    ensures
        trimmed(key).len() > 0 ==> key_text(env.insert("POR_ATTEST_SECKEY"@, key), file) == Some(
            trimmed(key),
        ),
        trimmed(key).len() == 0 ==> key_text(env.insert("POR_ATTEST_SECKEY"@, key), file) is None,
        trimmed(contents).len() > 0 ==> key_text(
            env.remove("POR_ATTEST_SECKEY"@),
            Some(contents),
        ) == Some(trimmed(contents)),
        trimmed(contents).len() == 0 ==> key_text(
            env.remove("POR_ATTEST_SECKEY"@),
            Some(contents),
        ) is None,
        key_text(env.remove("POR_ATTEST_SECKEY"@), None) is None,
{
}

/// Where an anchor cannot be embedded, both the anchor and the VTXO are named.
pub proof fn law_missing_anchor_is_named(spent: Spent)
    ensures
        no_anchor(spent) == "anchor tx "@ + spent.anchor_txid
            + " not retrievable (unbroadcast); cannot embed a verifiable anchor for vtxo "@
            + spent.vtxo_id,
{
}

} // verus!
