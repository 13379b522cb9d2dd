//! The records that the payment state database keeps: what was received, what was sent, and how
//! far each of them has come.

use crate::text::{copy_texts, texts};
use vstd::prelude::*;

verus! {

/// An on-chain deposit on its way into a board, keyed by the outpoint that carried it.
#[derive(Debug)]
pub struct OnchainReceiveIntentRecord {
    pub quote_id: String,
    pub deposit_outpoint: String,
    pub gross_sat: u64,
    pub state: OnchainReceiveIntentState,
}

/// How far a deposit has come.
#[derive(Debug)]
pub enum OnchainReceiveIntentState {
    Detected { detected_at: u64 },
    BoardPreparing { attempt: u32, attempt_id: String, started_at: u64 },
    Boarding {
        attempt: u32,
        board_txid: String,
        board_vout: u32,
        board_vtxo_ids: Vec<String>,
        fee_sat: u64,
        amount_sat: u64,
        started_at: u64,
    },
    RetryableFailed { attempt: u32, reason: String, failed_at: u64, retry_after: u64 },
    NeedsReview { reason: String, failed_at: u64 },
    Finalized {
        board_txid: String,
        board_vout: u32,
        board_vtxo_ids: Vec<String>,
        fee_sat: u64,
        amount_sat: u64,
        finalized_at: u64,
    },
}

/// What an [`OnchainReceiveIntentRecord`] says.
pub struct ReceiveIntent {
    pub quote_id: Seq<char>,
    pub deposit_outpoint: Seq<char>,
    pub gross_sat: u64,
    pub state: ReceiveState,
}

/// What an [`OnchainReceiveIntentState`] says.
pub enum ReceiveState {
    Detected { detected_at: u64 },
    BoardPreparing { attempt: u32, attempt_id: Seq<char>, started_at: u64 },
    Boarding {
        attempt: u32,
        board_txid: Seq<char>,
        board_vout: u32,
        board_vtxo_ids: Seq<Seq<char>>,
        fee_sat: u64,
        amount_sat: u64,
        started_at: u64,
    },
    RetryableFailed { attempt: u32, reason: Seq<char>, failed_at: u64, retry_after: u64 },
    NeedsReview { reason: Seq<char>, failed_at: u64 },
    Finalized {
        board_txid: Seq<char>,
        board_vout: u32,
        board_vtxo_ids: Seq<Seq<char>>,
        fee_sat: u64,
        amount_sat: u64,
        finalized_at: u64,
    },
}

impl View for OnchainReceiveIntentState {
    type V = ReceiveState;

    open spec fn view(&self) -> ReceiveState {
        match self {
            OnchainReceiveIntentState::Detected { detected_at } => ReceiveState::Detected {
                detected_at: *detected_at,
            },
            OnchainReceiveIntentState::BoardPreparing { attempt, attempt_id, started_at } =>
                ReceiveState::BoardPreparing {
                    attempt: *attempt,
                    attempt_id: attempt_id@,
                    started_at: *started_at,
                },
            OnchainReceiveIntentState::Boarding {
                attempt,
                board_txid,
                board_vout,
                board_vtxo_ids,
                fee_sat,
                amount_sat,
                started_at,
            } => ReceiveState::Boarding {
                attempt: *attempt,
                board_txid: board_txid@,
                board_vout: *board_vout,
                board_vtxo_ids: texts(board_vtxo_ids@),
                fee_sat: *fee_sat,
                amount_sat: *amount_sat,
                started_at: *started_at,
            },
            OnchainReceiveIntentState::RetryableFailed {
                attempt,
                reason,
                failed_at,
                retry_after,
            } => ReceiveState::RetryableFailed {
                attempt: *attempt,
                reason: reason@,
                failed_at: *failed_at,
                retry_after: *retry_after,
            },
            OnchainReceiveIntentState::NeedsReview { reason, failed_at } =>
                ReceiveState::NeedsReview { reason: reason@, failed_at: *failed_at },
            OnchainReceiveIntentState::Finalized {
                board_txid,
                board_vout,
                board_vtxo_ids,
                fee_sat,
                amount_sat,
                finalized_at,
            } => ReceiveState::Finalized {
                board_txid: board_txid@,
                board_vout: *board_vout,
                board_vtxo_ids: texts(board_vtxo_ids@),
                fee_sat: *fee_sat,
                amount_sat: *amount_sat,
                finalized_at: *finalized_at,
            },
        }
    }
}

impl View for OnchainReceiveIntentRecord {
    type V = ReceiveIntent;

    open spec fn view(&self) -> ReceiveIntent {
        ReceiveIntent {
            quote_id: self.quote_id@,
            deposit_outpoint: self.deposit_outpoint@,
            gross_sat: self.gross_sat,
            state: self.state@,
        }
    }
}

impl Clone for OnchainReceiveIntentState {
    fn clone(&self) -> (out: Self)
        ensures
            out@ == self@,
    {
        match self {
            OnchainReceiveIntentState::Detected { detected_at } =>
                OnchainReceiveIntentState::Detected { detected_at: *detected_at },
            OnchainReceiveIntentState::BoardPreparing { attempt, attempt_id, started_at } =>
                OnchainReceiveIntentState::BoardPreparing {
                    attempt: *attempt,
                    attempt_id: attempt_id.clone(),
                    started_at: *started_at,
                },
            OnchainReceiveIntentState::Boarding {
                attempt,
                board_txid,
                board_vout,
                board_vtxo_ids,
                fee_sat,
                amount_sat,
                started_at,
            } => OnchainReceiveIntentState::Boarding {
                attempt: *attempt,
                board_txid: board_txid.clone(),
                board_vout: *board_vout,
                board_vtxo_ids: copy_texts(board_vtxo_ids),
                fee_sat: *fee_sat,
                amount_sat: *amount_sat,
                started_at: *started_at,
            },
            OnchainReceiveIntentState::RetryableFailed {
                attempt,
                reason,
                failed_at,
                retry_after,
            } => OnchainReceiveIntentState::RetryableFailed {
                attempt: *attempt,
                reason: reason.clone(),
                failed_at: *failed_at,
                retry_after: *retry_after,
            },
            OnchainReceiveIntentState::NeedsReview { reason, failed_at } =>
                OnchainReceiveIntentState::NeedsReview {
                    reason: reason.clone(),
                    failed_at: *failed_at,
                },
            OnchainReceiveIntentState::Finalized {
                board_txid,
                board_vout,
                board_vtxo_ids,
                fee_sat,
                amount_sat,
                finalized_at,
            } => OnchainReceiveIntentState::Finalized {
                board_txid: board_txid.clone(),
                board_vout: *board_vout,
                board_vtxo_ids: copy_texts(board_vtxo_ids),
                fee_sat: *fee_sat,
                amount_sat: *amount_sat,
                finalized_at: *finalized_at,
            },
        }
    }
}

impl Clone for OnchainReceiveIntentRecord {
    fn clone(&self) -> (out: Self)
        ensures
            out@ == self@,
    {
        OnchainReceiveIntentRecord {
            quote_id: self.quote_id.clone(),
            deposit_outpoint: self.deposit_outpoint.clone(),
            gross_sat: self.gross_sat,
            state: self.state.clone(),
        }
    }
}

/// An on-chain payment going out, keyed by the quote it pays.
#[derive(Debug)]
pub struct OnchainSendIntentRecord {
    pub quote_id: String,
    pub address: String,
    pub amount_sat: u64,
    pub state: OnchainSendIntentState,
}

/// How far an on-chain payment has come.
#[derive(Debug)]
pub enum OnchainSendIntentState {
    Attempting { attempt: u32, attempt_id: String, fee_sat: u64, started_at: u64 },
    Broadcast { txid: String, fee_sat: u64, broadcast_at: u64 },
    NeedsReview { reason: String, fee_sat: Option<u64>, failed_at: u64 },
    Confirmed { txid: String, fee_sat: u64, confirmed_at: u64 },
}

/// What an [`OnchainSendIntentRecord`] says.
pub struct SendIntent {
    pub quote_id: Seq<char>,
    pub address: Seq<char>,
    pub amount_sat: u64,
    pub state: SendState,
}

/// What an [`OnchainSendIntentState`] says.
pub enum SendState {
    Attempting { attempt: u32, attempt_id: Seq<char>, fee_sat: u64, started_at: u64 },
    Broadcast { txid: Seq<char>, fee_sat: u64, broadcast_at: u64 },
    NeedsReview { reason: Seq<char>, fee_sat: Option<u64>, failed_at: u64 },
    Confirmed { txid: Seq<char>, fee_sat: u64, confirmed_at: u64 },
}

impl View for OnchainSendIntentState {
    type V = SendState;

    open spec fn view(&self) -> SendState {
        match self {
            OnchainSendIntentState::Attempting { attempt, attempt_id, fee_sat, started_at } =>
                SendState::Attempting {
                    attempt: *attempt,
                    attempt_id: attempt_id@,
                    fee_sat: *fee_sat,
                    started_at: *started_at,
                },
            OnchainSendIntentState::Broadcast { txid, fee_sat, broadcast_at } =>
                SendState::Broadcast {
                    txid: txid@,
                    fee_sat: *fee_sat,
                    broadcast_at: *broadcast_at,
                },
            OnchainSendIntentState::NeedsReview { reason, fee_sat, failed_at } =>
                SendState::NeedsReview {
                    reason: reason@,
                    fee_sat: *fee_sat,
                    failed_at: *failed_at,
                },
            OnchainSendIntentState::Confirmed { txid, fee_sat, confirmed_at } =>
                SendState::Confirmed {
                    txid: txid@,
                    fee_sat: *fee_sat,
                    confirmed_at: *confirmed_at,
                },
        }
    }
}

impl View for OnchainSendIntentRecord {
    type V = SendIntent;

    open spec fn view(&self) -> SendIntent {
        SendIntent {
            quote_id: self.quote_id@,
            address: self.address@,
            amount_sat: self.amount_sat,
            state: self.state@,
        }
    }
}

impl Clone for OnchainSendIntentState {
    fn clone(&self) -> (out: Self)
        ensures
            out@ == self@,
    {
        match self {
            OnchainSendIntentState::Attempting { attempt, attempt_id, fee_sat, started_at } =>
                OnchainSendIntentState::Attempting {
                    attempt: *attempt,
                    attempt_id: attempt_id.clone(),
                    fee_sat: *fee_sat,
                    started_at: *started_at,
                },
            OnchainSendIntentState::Broadcast { txid, fee_sat, broadcast_at } =>
                OnchainSendIntentState::Broadcast {
                    txid: txid.clone(),
                    fee_sat: *fee_sat,
                    broadcast_at: *broadcast_at,
                },
            OnchainSendIntentState::NeedsReview { reason, fee_sat, failed_at } =>
                OnchainSendIntentState::NeedsReview {
                    reason: reason.clone(),
                    fee_sat: *fee_sat,
                    failed_at: *failed_at,
                },
            OnchainSendIntentState::Confirmed { txid, fee_sat, confirmed_at } =>
                OnchainSendIntentState::Confirmed {
                    txid: txid.clone(),
                    fee_sat: *fee_sat,
                    confirmed_at: *confirmed_at,
                },
        }
    }
}

impl Clone for OnchainSendIntentRecord {
    fn clone(&self) -> (out: Self)
        ensures
            out@ == self@,
    {
        OnchainSendIntentRecord {
            quote_id: self.quote_id.clone(),
            address: self.address.clone(),
            amount_sat: self.amount_sat,
            state: self.state.clone(),
        }
    }
}

/// A Lightning payment going out, keyed by its payment hash in hex.
#[derive(Debug)]
pub struct LightningSendIntentRecord {
    pub quote_id: String,
    pub payment_hash: String,
    pub invoice: String,
    pub amount_sat: u64,
    pub estimated_fee_sat: u64,
    pub state: LightningSendIntentState,
}

/// How far a Lightning payment has come.
#[derive(Debug)]
pub enum LightningSendIntentState {
    Attempting { attempt: u32, attempt_id: String, started_at: u64 },
    Pending { fee_sat: u64, started_at: u64 },
    Paid { fee_sat: u64, preimage: String, paid_at: u64 },
    Failed { reason: String, fee_sat: Option<u64>, failed_at: u64 },
    NeedsReview { reason: String, failed_at: u64 },
}

/// What a [`LightningSendIntentRecord`] says.
pub struct LightningSend {
    pub quote_id: Seq<char>,
    pub payment_hash: Seq<char>,
    pub invoice: Seq<char>,
    pub amount_sat: u64,
    pub estimated_fee_sat: u64,
    pub state: LightningState,
}

/// What a [`LightningSendIntentState`] says.
pub enum LightningState {
    Attempting { attempt: u32, attempt_id: Seq<char>, started_at: u64 },
    Pending { fee_sat: u64, started_at: u64 },
    Paid { fee_sat: u64, preimage: Seq<char>, paid_at: u64 },
    Failed { reason: Seq<char>, fee_sat: Option<u64>, failed_at: u64 },
    NeedsReview { reason: Seq<char>, failed_at: u64 },
}

impl View for LightningSendIntentState {
    type V = LightningState;

    open spec fn view(&self) -> LightningState {
        match self {
            LightningSendIntentState::Attempting { attempt, attempt_id, started_at } =>
                LightningState::Attempting {
                    attempt: *attempt,
                    attempt_id: attempt_id@,
                    started_at: *started_at,
                },
            LightningSendIntentState::Pending { fee_sat, started_at } => LightningState::Pending {
                fee_sat: *fee_sat,
                started_at: *started_at,
            },
            LightningSendIntentState::Paid { fee_sat, preimage, paid_at } => LightningState::Paid {
                fee_sat: *fee_sat,
                preimage: preimage@,
                paid_at: *paid_at,
            },
            LightningSendIntentState::Failed { reason, fee_sat, failed_at } =>
                LightningState::Failed {
                    reason: reason@,
                    fee_sat: *fee_sat,
                    failed_at: *failed_at,
                },
            LightningSendIntentState::NeedsReview { reason, failed_at } =>
                LightningState::NeedsReview { reason: reason@, failed_at: *failed_at },
        }
    }
}

impl View for LightningSendIntentRecord {
    type V = LightningSend;

    open spec fn view(&self) -> LightningSend {
        LightningSend {
            quote_id: self.quote_id@,
            payment_hash: self.payment_hash@,
            invoice: self.invoice@,
            amount_sat: self.amount_sat,
            estimated_fee_sat: self.estimated_fee_sat,
            state: self.state@,
        }
    }
}

impl Clone for LightningSendIntentState {
    fn clone(&self) -> (out: Self)
        ensures
            out@ == self@,
    {
        match self {
            LightningSendIntentState::Attempting { attempt, attempt_id, started_at } =>
                LightningSendIntentState::Attempting {
                    attempt: *attempt,
                    attempt_id: attempt_id.clone(),
                    started_at: *started_at,
                },
            LightningSendIntentState::Pending { fee_sat, started_at } =>
                LightningSendIntentState::Pending { fee_sat: *fee_sat, started_at: *started_at },
            LightningSendIntentState::Paid { fee_sat, preimage, paid_at } =>
                LightningSendIntentState::Paid {
                    fee_sat: *fee_sat,
                    preimage: preimage.clone(),
                    paid_at: *paid_at,
                },
            LightningSendIntentState::Failed { reason, fee_sat, failed_at } =>
                LightningSendIntentState::Failed {
                    reason: reason.clone(),
                    fee_sat: *fee_sat,
                    failed_at: *failed_at,
                },
            LightningSendIntentState::NeedsReview { reason, failed_at } =>
                LightningSendIntentState::NeedsReview {
                    reason: reason.clone(),
                    failed_at: *failed_at,
                },
        }
    }
}

impl Clone for LightningSendIntentRecord {
    fn clone(&self) -> (out: Self)
        ensures
            out@ == self@,
    {
        LightningSendIntentRecord {
            quote_id: self.quote_id.clone(),
            payment_hash: self.payment_hash.clone(),
            invoice: self.invoice.clone(),
            amount_sat: self.amount_sat,
            estimated_fee_sat: self.estimated_fee_sat,
            state: self.state.clone(),
        }
    }
}

/// What an [`OnchainReceiveIntentState`] says is of its own kind, with what its fields hold.
pub proof fn law_onchain_receive_intent_state_says_what_it_holds(x: OnchainReceiveIntentState)
    ensures
        x is Detected <==> x@ is Detected,
        x matches OnchainReceiveIntentState::Detected { detected_at } ==> {
            &&& x@ matches ReceiveState::Detected { detected_at: said_detected_at }
            &&& said_detected_at == detected_at
        },
        x is BoardPreparing <==> x@ is BoardPreparing,
        x matches OnchainReceiveIntentState::BoardPreparing {
            attempt,
            attempt_id,
            started_at,
        } ==> {
            &&& x@ matches ReceiveState::BoardPreparing {
                attempt: said_attempt,
                attempt_id: said_attempt_id,
                started_at: said_started_at,
            }
            &&& said_attempt == attempt
            &&& said_attempt_id == attempt_id@
            &&& said_started_at == started_at
        },
        x is Boarding <==> x@ is Boarding,
        x matches OnchainReceiveIntentState::Boarding {
            attempt,
            board_txid,
            board_vout,
            board_vtxo_ids,
            fee_sat,
            amount_sat,
            started_at,
        } ==> {
            &&& x@ matches ReceiveState::Boarding {
                attempt: said_attempt,
                board_txid: said_board_txid,
                board_vout: said_board_vout,
                board_vtxo_ids: said_board_vtxo_ids,
                fee_sat: said_fee_sat,
                amount_sat: said_amount_sat,
                started_at: said_started_at,
            }
            &&& said_attempt == attempt
            &&& said_board_txid == board_txid@
            &&& said_board_vout == board_vout
            &&& said_board_vtxo_ids == texts(board_vtxo_ids@)
            &&& said_fee_sat == fee_sat
            &&& said_amount_sat == amount_sat
            &&& said_started_at == started_at
        },
        x is RetryableFailed <==> x@ is RetryableFailed,
        x matches OnchainReceiveIntentState::RetryableFailed {
            attempt,
            reason,
            failed_at,
            retry_after,
        } ==> {
            &&& x@ matches ReceiveState::RetryableFailed {
                attempt: said_attempt,
                reason: said_reason,
                failed_at: said_failed_at,
                retry_after: said_retry_after,
            }
            &&& said_attempt == attempt
            &&& said_reason == reason@
            &&& said_failed_at == failed_at
            &&& said_retry_after == retry_after
        },
        x is NeedsReview <==> x@ is NeedsReview,
        x matches OnchainReceiveIntentState::NeedsReview { reason, failed_at } ==> {
            &&& x@ matches ReceiveState::NeedsReview {
                reason: said_reason,
                failed_at: said_failed_at,
            }
            &&& said_reason == reason@
            &&& said_failed_at == failed_at
        },
        x is Finalized <==> x@ is Finalized,
        x matches OnchainReceiveIntentState::Finalized {
            board_txid,
            board_vout,
            board_vtxo_ids,
            fee_sat,
            amount_sat,
            finalized_at,
        } ==> {
            &&& x@ matches ReceiveState::Finalized {
                board_txid: said_board_txid,
                board_vout: said_board_vout,
                board_vtxo_ids: said_board_vtxo_ids,
                fee_sat: said_fee_sat,
                amount_sat: said_amount_sat,
                finalized_at: said_finalized_at,
            }
            &&& said_board_txid == board_txid@
            &&& said_board_vout == board_vout
            &&& said_board_vtxo_ids == texts(board_vtxo_ids@)
            &&& said_fee_sat == fee_sat
            &&& said_amount_sat == amount_sat
            &&& said_finalized_at == finalized_at
        },
{
}

/// What an [`OnchainReceiveIntentRecord`] says is what its fields hold, each under its own name.
pub proof fn law_onchain_receive_intent_record_says_what_it_holds(x: OnchainReceiveIntentRecord)
    ensures
        x@.quote_id == x.quote_id@,
        x@.deposit_outpoint == x.deposit_outpoint@,
        x@.gross_sat == x.gross_sat,
        x@.state == x.state@,
{
}

/// What an [`OnchainSendIntentState`] says is of its own kind, with what its fields hold.
pub proof fn law_onchain_send_intent_state_says_what_it_holds(x: OnchainSendIntentState)
    ensures
        x is Attempting <==> x@ is Attempting,
        x matches OnchainSendIntentState::Attempting {
            attempt,
            attempt_id,
            fee_sat,
            started_at,
        } ==> {
            &&& x@ matches SendState::Attempting {
                attempt: said_attempt,
                attempt_id: said_attempt_id,
                fee_sat: said_fee_sat,
                started_at: said_started_at,
            }
            &&& said_attempt == attempt
            &&& said_attempt_id == attempt_id@
            &&& said_fee_sat == fee_sat
            &&& said_started_at == started_at
        },
        x is Broadcast <==> x@ is Broadcast,
        x matches OnchainSendIntentState::Broadcast { txid, fee_sat, broadcast_at } ==> {
            &&& x@ matches SendState::Broadcast {
                txid: said_txid,
                fee_sat: said_fee_sat,
                broadcast_at: said_broadcast_at,
            }
            &&& said_txid == txid@
            &&& said_fee_sat == fee_sat
            &&& said_broadcast_at == broadcast_at
        },
        x is NeedsReview <==> x@ is NeedsReview,
        x matches OnchainSendIntentState::NeedsReview { reason, fee_sat, failed_at } ==> {
            &&& x@ matches SendState::NeedsReview {
                reason: said_reason,
                fee_sat: said_fee_sat,
                failed_at: said_failed_at,
            }
            &&& said_reason == reason@
            &&& said_fee_sat == fee_sat
            &&& said_failed_at == failed_at
        },
        x is Confirmed <==> x@ is Confirmed,
        x matches OnchainSendIntentState::Confirmed { txid, fee_sat, confirmed_at } ==> {
            &&& x@ matches SendState::Confirmed {
                txid: said_txid,
                fee_sat: said_fee_sat,
                confirmed_at: said_confirmed_at,
            }
            &&& said_txid == txid@
            &&& said_fee_sat == fee_sat
            &&& said_confirmed_at == confirmed_at
        },
{
}

/// What an [`OnchainSendIntentRecord`] says is what its fields hold, each under its own name.
pub proof fn law_onchain_send_intent_record_says_what_it_holds(x: OnchainSendIntentRecord)
    ensures
        x@.quote_id == x.quote_id@,
        x@.address == x.address@,
        x@.amount_sat == x.amount_sat,
        x@.state == x.state@,
{
}

/// What a [`LightningSendIntentState`] says is of its own kind, with what its fields hold.
pub proof fn law_lightning_send_intent_state_says_what_it_holds(x: LightningSendIntentState)
    ensures
        x is Attempting <==> x@ is Attempting,
        x matches LightningSendIntentState::Attempting { attempt, attempt_id, started_at } ==> {
            &&& x@ matches LightningState::Attempting {
                attempt: said_attempt,
                attempt_id: said_attempt_id,
                started_at: said_started_at,
            }
            &&& said_attempt == attempt
            &&& said_attempt_id == attempt_id@
            &&& said_started_at == started_at
        },
        x is Pending <==> x@ is Pending,
        x matches LightningSendIntentState::Pending { fee_sat, started_at } ==> {
            &&& x@ matches LightningState::Pending {
                fee_sat: said_fee_sat,
                started_at: said_started_at,
            }
            &&& said_fee_sat == fee_sat
            &&& said_started_at == started_at
        },
        x is Paid <==> x@ is Paid,
        x matches LightningSendIntentState::Paid { fee_sat, preimage, paid_at } ==> {
            &&& x@ matches LightningState::Paid {
                fee_sat: said_fee_sat,
                preimage: said_preimage,
                paid_at: said_paid_at,
            }
            &&& said_fee_sat == fee_sat
            &&& said_preimage == preimage@
            &&& said_paid_at == paid_at
        },
        x is Failed <==> x@ is Failed,
        x matches LightningSendIntentState::Failed { reason, fee_sat, failed_at } ==> {
            &&& x@ matches LightningState::Failed {
                reason: said_reason,
                fee_sat: said_fee_sat,
                failed_at: said_failed_at,
            }
            &&& said_reason == reason@
            &&& said_fee_sat == fee_sat
            &&& said_failed_at == failed_at
        },
        x is NeedsReview <==> x@ is NeedsReview,
        x matches LightningSendIntentState::NeedsReview { reason, failed_at } ==> {
            &&& x@ matches LightningState::NeedsReview {
                reason: said_reason,
                failed_at: said_failed_at,
            }
            &&& said_reason == reason@
            &&& said_failed_at == failed_at
        },
{
}

/// What a [`LightningSendIntentRecord`] says is what its fields hold, each under its own name.
pub proof fn law_lightning_send_intent_record_says_what_it_holds(x: LightningSendIntentRecord)
    ensures
        x@.quote_id == x.quote_id@,
        x@.payment_hash == x.payment_hash@,
        x@.invoice == x.invoice@,
        x@.amount_sat == x.amount_sat,
        x@.estimated_fee_sat == x.estimated_fee_sat,
        x@.state == x.state@,
{
}

} // verus!
