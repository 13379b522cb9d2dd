use ark_onramp::payjoin_receiver::credit_from_deposit;

#[test]
fn credits_d_regardless_of_mint_contribution() {
    // Zero-input board, no mint fee: board output == D. Server fee 100.
    let d = 50_000;
    let (gross, net, server_fee, dep_fee) = credit_from_deposit(d, d, d - 100, 0);
    assert_eq!(gross, d, "gross must equal D in the zero-input path");
    assert_eq!(server_fee, 100);
    assert_eq!(dep_fee, 0);
    assert_eq!(net, d - 100, "net must equal D - server_fee");

    // The mint contributed 30_000 net into the VTXO, so the board output is D + 30_000, and the
    // server fee is charged on the whole VTXO. The user is still credited D gross and D - fee net.
    let board_value = d + 30_000;
    let vtxo_amount = board_value - 120;
    let (gross2, net2, server_fee2, _) = credit_from_deposit(d, board_value, vtxo_amount, 0);
    assert_eq!(gross2, d, "gross must equal D regardless of mint contribution");
    assert_eq!(server_fee2, 120);
    assert_eq!(net2, d - 120, "net must be D - fees, never include the mint input");

    // Even a large mint contribution does not inflate the user's credit.
    let big_board = d + 5_000_000;
    let (gross3, _net3, _sf3, _df3) = credit_from_deposit(d, big_board, big_board - 200, 0);
    assert_eq!(gross3, d);
}

#[test]
fn deposit_fee_is_deducted_and_solvency_preserved() {
    // 0.5% (50 bps) on-chain deposit fee, zero server fee.
    let d = 60_000;
    let (gross, net, server_fee, dep_fee) = credit_from_deposit(d, d, d, 50);
    assert_eq!(gross, d, "gross is always D");
    assert_eq!(server_fee, 0);
    assert_eq!(dep_fee, 300, "0.5% of 60_000 = 300 sat");
    assert_eq!(net, d - 300, "user credited D - deposit_fee");
    // The VTXO backs `d` and only `net` is issued, so the fee stays as mint reserve.
    assert!(net <= d, "must never credit more than the VTXO backs");

    // Contribution and fee together: D=55k, mint added 100k (board 155k), server fee 0.
    let (g, n, sf, df) = credit_from_deposit(55_000, 155_000, 155_000, 50);
    assert_eq!(g, 55_000);
    assert_eq!(sf, 0);
    assert_eq!(df, 275, "0.5% of 55_000 = 275 sat");
    assert_eq!(n, 55_000 - 275, "credit-D-minus-fee holds under Tier 2");
}

#[test]
fn credit_saturates() {
    // Fees above the deposit leave nothing, and a fee that does not fit is capped.
    assert_eq!(credit_from_deposit(100, 1_000, 500, 0), (100, 0, 500, 0));
    assert_eq!(
        credit_from_deposit(u64::MAX, u64::MAX, u64::MAX, u64::MAX),
        (u64::MAX, u64::MAX - u64::MAX / 10_000, 0, u64::MAX / 10_000)
    );
    // The server may leave more than the board output: no fee then.
    assert_eq!(credit_from_deposit(100, 100, 150, 0), (100, 100, 0, 0));
}

#[test]
fn credit_is_backed_by_the_board() {
    for (d, board, vtxo, bps) in [(5u64, 5u64, 3u64, 0u64), (5, 9, 2, 100), (7, 7, 0, 10_000)] {
        let (_, net, _, _) = credit_from_deposit(d, board, vtxo, bps);
        assert!(net <= vtxo);
    }
}
