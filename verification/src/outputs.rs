//! Transaction outputs, and the kinds of script that matter here.

use crate::text::{
    cat3, decimal, is_number, lemma_decimal_is_number, lemma_decimal_is_one_to_one, u64_text,
};
use vstd::prelude::*;

verus! {

/// An output of a transaction.
#[derive(Debug)]
pub struct TxOutput {
    pub script: Vec<u8>,
    pub value_sat: u64,
}

/// What a [`TxOutput`] says.
pub struct Output {
    pub script: Seq<u8>,
    pub value_sat: u64,
}

impl View for TxOutput {
    type V = Output;

    open spec fn view(&self) -> Output {
        Output { script: self.script@, value_sat: self.value_sat }
    }
}

/// What each of several outputs says.
pub open spec fn outputs_view(v: Seq<TxOutput>) -> Seq<Output> {
    v.map_values(|o: TxOutput| o@)
}

/// The text of an outpoint: a transaction id, a colon and the index of an output.
pub open spec fn outpoint_text(txid: Seq<char>, vout: u32) -> Seq<char> {
    txid + ":"@ + decimal(vout as nat)
}

/// Writes an outpoint.
pub fn write_outpoint(txid: &str, vout: u32) -> (text: String)
    ensures
        text@ == outpoint_text(txid@, vout),
{
    cat3(txid, ":", u64_text(vout as u64).as_str())
}

/// Two outpoints with the same text are the same.
pub proof fn law_outpoints_are_told_apart(txid: Seq<char>, vout: u32, other: Seq<char>, at: u32)
    requires
        outpoint_text(txid, vout) == outpoint_text(other, at),
    ensures
        txid == other,
        vout == at,
{
    reveal_strlit(":");
    let text = outpoint_text(txid, vout);
    let a = decimal(vout as nat);
    let b = decimal(at as nat);
    assert(text =~= txid.push(':') + a);
    assert(text =~= other.push(':') + b);
    let n = txid.len() as int;
    let m = other.len() as int;
    lemma_decimal_is_number(vout as nat);
    lemma_decimal_is_number(at as nat);
    assert(text[n] == ':');
    assert(text[m] == ':');
    // The colon behind the longer id would be a digit of the index behind the shorter one.
    if n < m {
        assert(text[m] == a[m - n - 1]);
    } else if m < n {
        assert(text[n] == b[n - m - 1]);
    }
    assert(txid =~= text.take(n));
    assert(other =~= text.take(n));
    assert(a =~= text.skip(n + 1));
    assert(b =~= text.skip(n + 1));
    lemma_decimal_is_one_to_one(vout as nat, at as nat);
}

/// Whether two byte strings are the same.
pub fn bytes_eq(a: &Vec<u8>, b: &Vec<u8>) -> (same: bool)
    ensures
        same == (a@ == b@),
{
    if a.len() != b.len() {
        return false;
    }
    let mut i: usize = 0;
    while i < a.len()
        invariant
            i <= a@.len() == b@.len(),
            forall|j: int| 0 <= j < i ==> a@[j] == b@[j],
        decreases a@.len() - i,
    {
        if a[i] != b[i] {
            assert(a@[i as int] != b@[i as int]);
            return false;
        }
        i += 1;
    }
    assert(a@ =~= b@);
    true
}

/// Whether a script pays to a taproot key: version one, and a program of 32 bytes.
pub open spec fn is_p2tr(script: Seq<u8>) -> bool {
    script.len() == 34 && script[0] == 0x51 && script[1] == 0x20
}

/// Whether a script pays to a witness public key hash: version zero, and a program of 20 bytes.
pub open spec fn is_p2wpkh(script: Seq<u8>) -> bool {
    script.len() == 22 && script[0] == 0x00 && script[1] == 0x14
}

/// Tests whether a script pays to a taproot key.
pub fn script_is_p2tr(script: &Vec<u8>) -> (r: bool)
    ensures
        r == is_p2tr(script@),
{
    script.len() == 34 && script[0] == 0x51 && script[1] == 0x20
}

/// Tests whether a script pays to a witness public key hash.
pub fn script_is_p2wpkh(script: &Vec<u8>) -> (r: bool)
    ensures
        r == is_p2wpkh(script@),
{
    script.len() == 22 && script[0] == 0x00 && script[1] == 0x14
}

/// A script that pays to a taproot key is a push of a program of 32 bytes behind the version one,
/// whatever the program; one that pays to a witness public key hash is a push of 20 bytes behind the
/// version zero. No script is both.
pub proof fn law_script_kinds(script: Seq<u8>, program: Seq<u8>)
    ensures
        is_p2tr(seq![0x51u8, 0x20u8] + program) <==> program.len() == 32,
        is_p2wpkh(seq![0x00u8, 0x14u8] + program) <==> program.len() == 20,
        is_p2tr(script) ==> script == seq![0x51u8, 0x20u8] + script.skip(2) && script.len() == 34,
        is_p2wpkh(script) ==> script == seq![0x00u8, 0x14u8] + script.skip(2) && script.len() == 22,
        !(is_p2tr(script) && is_p2wpkh(script)),
{
    let a = seq![0x51u8, 0x20u8] + program;
    let b = seq![0x00u8, 0x14u8] + program;
    assert(a[0] == 0x51 && a[1] == 0x20 && b[0] == 0x00 && b[1] == 0x14);
    if is_p2tr(script) {
        assert(script =~= seq![0x51u8, 0x20u8] + script.skip(2));
    }
    if is_p2wpkh(script) {
        assert(script =~= seq![0x00u8, 0x14u8] + script.skip(2));
    }
}

/// What an output says is its script and its value, and several of them say that in their order.
pub proof fn law_outputs_say_what_they_hold(v: Seq<TxOutput>, i: int)
    requires
        0 <= i < v.len(),
    ensures
        outputs_view(v).len() == v.len(),
        outputs_view(v)[i].script == v[i].script@,
        outputs_view(v)[i].value_sat == v[i].value_sat,
{
}

} // verus!
