use ark_onramp::por::{
    append_ledger, attest_key_file, attest_pubkey_xonly_hex, attestation_result, bundle_path,
    fetch_as_of_block, ledger_path, load_attest_key, nostr_relays_from_env, publish_nostr,
    sign_bundle, tip_height, tip_urls, AsOfBlock, AttestKey, AttestationBuilder, AttestationBundle,
    PinnedVtxo, SpentVtxo,
};
use ark_onramp::table::Table;

const SERVER: &str = "0375b2e4f6abe5b00736359de211c35d9e72b615e5fd424d8ad1e68a8b300b97b5";

fn env(pairs: &[(&str, &str)]) -> Table<String> {
    let mut table = Table::new();
    for (name, value) in pairs {
        table.insert(name.to_string(), value.to_string());
    }
    table
}

/// The secret key three.
fn key() -> AttestKey {
    let text = format!(" {}3\n", "0".repeat(63));
    load_attest_key(&env(&[("POR_ATTEST_SECKEY", &text)]), None).ok().unwrap().unwrap()
}

fn vtxo(amount_sat: u64, server: &str) -> SpentVtxo {
    SpentVtxo {
        vtxo_id: "v:0".to_string(),
        amount_sat,
        server_pubkey: server.to_string(),
        anchor_txid: "anchor".to_string(),
        anchor_vout: 2,
        vtxo_hex: "00ff".to_string(),
    }
}

fn bundle() -> AttestationBundle {
    let builder = AttestationBuilder::new();
    let builder = builder
        .add(PinnedVtxo::check(Some(vtxo(700, SERVER))).ok().unwrap(), Some(vec![0xab, 0x01]))
        .ok()
        .unwrap();
    let builder = builder
        .add(PinnedVtxo::check(Some(vtxo(300, SERVER))).ok().unwrap(), Some(Vec::new()))
        .ok()
        .unwrap();
    builder.build_attestation(
        "format".to_string(),
        &key(),
        AsOfBlock { height: 900_000, hash: "h".to_string() },
        77,
    )
}

#[test]
fn attest_key_is_loaded() {
    assert_eq!(
        attest_pubkey_xonly_hex(&key()),
        "f9308a019258c31049344f85f89d5229b531c845836f99b08601f113bce036f9"
    );
    assert_eq!(key().secret_bytes()[31], 3);
    assert!(load_attest_key(&env(&[]), None).ok().unwrap().is_none());
    assert!(load_attest_key(&env(&[]), Some(" \n".to_string())).ok().unwrap().is_none());
    // The environment wins even where it is empty.
    let file = Some("0".repeat(63) + "3");
    assert!(load_attest_key(&env(&[("POR_ATTEST_SECKEY", "")]), file.clone())
        .ok()
        .unwrap()
        .is_none());
    assert!(load_attest_key(&env(&[]), file).ok().unwrap().is_some());
}

#[test]
fn attest_key_must_be_a_secret_key() {
    let load = |text: &str| load_attest_key(&env(&[("POR_ATTEST_SECKEY", text)]), None).err();
    let hex_error = hex::decode("xyz").unwrap_err();
    assert_eq!(load("xyz"), Some(format!("POR attest seckey hex: {}", hex_error)));
    let range = Some(
        "POR attest seckey must be 32 bytes: malformed or out-of-range secret key".to_string(),
    );
    assert_eq!(load("0102"), range);
    assert_eq!(load(&"00".repeat(32)), range);
    assert_eq!(load(&"ff".repeat(32)), range);
    let order = "fffffffffffffffffffffffffffffffebaaedce6af48a03bbfd25e8cd0364141";
    assert_eq!(load(order), range);
    let below = "fffffffffffffffffffffffffffffffebaaedce6af48a03bbfd25e8cd0364140";
    assert_eq!(load(below), None);
    let slice = bitcoin::secp256k1::SecretKey::from_slice(&[1]).unwrap_err();
    assert_eq!(range, Some(format!("POR attest seckey must be 32 bytes: {}", slice)));
}

#[test]
fn paths_follow_the_environment() {
    let home = env(&[("HOME", "/home/mint")]);
    assert_eq!(attest_key_file(&home), "/home/mint/secrets/por-attest.seckey");
    assert_eq!(attest_key_file(&env(&[])), "secrets/por-attest.seckey");
    assert_eq!(bundle_path(&home), "/home/mint/mint/audit/latest.json");
    assert_eq!(bundle_path(&env(&[])), "./mint/audit/latest.json");
    assert_eq!(bundle_path(&env(&[("POR_BUNDLE_PATH", "b.json")])), "b.json");
    assert_eq!(ledger_path(&env(&[("HOME", "/h/")])), "/h/mint/ledger/attestations.jsonl");
    assert_eq!(ledger_path(&env(&[("POR_LEDGER_PATH", "l")])), "l");
}

#[test]
fn tip_of_the_chain_is_read() {
    let (height, hash) = tip_urls("https://mempool.space/api//");
    assert_eq!(height, "https://mempool.space/api/blocks/tip/height");
    assert_eq!(hash, "https://mempool.space/api/blocks/tip/hash");
    let block = fetch_as_of_block(" 900001\n", " 00ab \n").ok().unwrap();
    assert_eq!((block.height, block.hash.as_str()), (900_001, "00ab"));
    assert_eq!(
        fetch_as_of_block("4294967296", "x").err(),
        Some("parse tip height: number too large to fit in target type".to_string())
    );
    assert_eq!(
        fetch_as_of_block(" \n", "x").err(),
        Some("parse tip height: cannot parse integer from empty string".to_string())
    );
    assert_eq!(
        tip_height("<html>"),
        Err("parse tip height: invalid digit found in string".to_string())
    );
    for text in [
        "0", "+7", "4294967295", "+4294967295", "00000000000001", "", "+", "-", "-1", "++1", "1 2",
        "4294967296", "99999999999x", "429496729x", "4294967296x", "x99999999999", "1x99999999999",
        "4294967295x", "\u{663}",
    ] {
        match (tip_height(text), text.parse::<u32>()) {
            (Ok(n), Ok(m)) => assert_eq!(n, m),
            (Err(e), Err(f)) => assert_eq!(e, format!("parse tip height: {}", f), "{}", text),
            (read, parsed) => panic!("{}: {:?} {:?}", text, read, parsed),
        }
    }
}

#[test]
fn only_vtxos_of_the_pinned_server_are_attested() {
    assert_eq!(
        PinnedVtxo::check(None).err(),
        Some("self-spend returned no destination vtxo".to_string())
    );
    assert_eq!(
        PinnedVtxo::check(Some(vtxo(1, "02aa"))).err(),
        Some(format!(
            "self-spend output embeds server pubkey 02aa != pinned Second key {} — refusing",
            SERVER
        ))
    );
    let pinned = PinnedVtxo::check(Some(vtxo(1, SERVER))).ok().unwrap();
    assert_eq!(pinned.anchor_txid(), "anchor");
    assert_eq!(
        AttestationBuilder::new().add(pinned, None).err(),
        Some("anchor tx anchor not retrievable (unbroadcast); cannot embed a verifiable anchor for vtxo v:0".to_string())
    );
}

#[test]
fn reserve_is_summed() {
    let bundle = bundle();
    assert_eq!(bundle.total_reserve_sat, 1000);
    assert_eq!(bundle.mint_id, "your-mint.example");
    assert_eq!(bundle.ark_server_pubkey, SERVER);
    assert_eq!(bundle.mint_identity_pubkey, attest_pubkey_xonly_hex(&key()));
    assert_eq!((bundle.format.as_str(), bundle.time), ("format", 77));
    assert_eq!(bundle.as_of_block.height, 900_000);
    assert!(bundle.signature.is_none());
    assert_eq!(bundle.reserve.len(), 2);
    assert_eq!(bundle.reserve[0].anchor_tx_hex, "ab01");
    assert_eq!(bundle.reserve[0].vtxo_hex, "00ff");
    assert_eq!((bundle.reserve[1].anchor_vout, bundle.reserve[1].anchor_block_height), (2, 0));
    let full = AttestationBuilder::new()
        .add(PinnedVtxo::check(Some(vtxo(u64::MAX, SERVER))).ok().unwrap(), Some(Vec::new()))
        .ok()
        .unwrap();
    let over = full.add(PinnedVtxo::check(Some(vtxo(1, SERVER))).ok().unwrap(), Some(Vec::new()));
    assert_eq!(over.err(), Some("reserve total overflow".to_string()));
}

#[test]
fn bundle_is_signed_over_its_canonical_form() {
    let signed = sign_bundle(bundle(), &b"canonical".to_vec(), &key());
    let signature = hex::decode(signed.signature.unwrap()).unwrap();
    let digest = <bitcoin::hashes::sha256::Hash as bitcoin::hashes::Hash>::hash(b"canonical");
    let message = bitcoin::secp256k1::Message::from_digest(
        bitcoin::hashes::Hash::to_byte_array(digest),
    );
    let pubkey = bitcoin::secp256k1::XOnlyPublicKey::from_slice(
        &hex::decode("f9308a019258c31049344f85f89d5229b531c845836f99b08601f113bce036f9").unwrap(),
    )
    .unwrap();
    let secp = bitcoin::secp256k1::Secp256k1::new();
    let parsed = bitcoin::secp256k1::schnorr::Signature::from_slice(&signature).unwrap();
    assert!(secp.verify_schnorr(&parsed, &message, &pubkey).is_ok());
    let other = sign_bundle(bundle(), &b"other".to_vec(), &key());
    assert_ne!(hex::decode(other.signature.unwrap()).unwrap(), signature);
    assert_eq!(signed.total_reserve_sat, 1000);
}

#[test]
fn attestation_is_put_on_the_ledger_and_published() {
    let result = attestation_result(bundle(), "abc".to_string());
    assert_eq!(
        result.bundle_sha256_hex,
        "ba7816bf8f01cfea414140de5dae2223b00361a396177a9cb410ff61f20015ad"
    );
    let line = append_ledger(&result, Some("event".to_string()), None, 88);
    assert_eq!((line.time, line.block, line.total_reserve_sat), (88, 900_000, 1000));
    assert_eq!(line.bundle_sha256, result.bundle_sha256_hex);
    assert_eq!(line.nostr_event_id, Some("event".to_string()));
    assert_eq!(line.url, None);
    let (latest, history) = publish_nostr(&result);
    assert_eq!((latest.kind, history.kind), (30078, 78));
    assert_eq!(latest.identifier, "your-mint.example");
    assert_eq!((latest.content.as_str(), history.content.as_str()), ("abc", "abc"));
}

#[test]
fn relays_are_listed_or_the_default_ones() {
    let defaults = vec!["wss://relay.damus.io", "wss://nos.lol", "wss://relay.primal.net"];
    assert_eq!(nostr_relays_from_env(&env(&[])), defaults);
    assert_eq!(nostr_relays_from_env(&env(&[("POR_NOSTR_RELAYS", "  ")])), defaults);
    assert_eq!(
        nostr_relays_from_env(&env(&[("POR_NOSTR_RELAYS", " wss://a ,, wss://b")])),
        vec!["wss://a", "wss://b"]
    );
    // A list of nothing but separators names no relay.
    assert_eq!(nostr_relays_from_env(&env(&[("POR_NOSTR_RELAYS", ",")])).len(), 0);
}
