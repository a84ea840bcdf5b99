use invoicelift::ident::Symbol;
use invoicelift::nft::{
    mint, owner_of, repayment_share, transfer, transfer_history, TokenEvent, TokenLedger,
    TransferRecord,
};

fn sym(text: &str) -> Symbol {
    let mut bytes = [0u8; 32];
    bytes[..text.len()].copy_from_slice(text.as_bytes());
    Symbol {
        head: u128::from_be_bytes(bytes[..16].try_into().unwrap()),
        tail: u128::from_be_bytes(bytes[16..].try_into().unwrap()),
    }
}

#[test]
fn mint_succeeds_and_sets_initial_owner() {
    let mut ledger = TokenLedger::new();
    mint(&mut ledger, sym("INV1"), sym("sme1"));
    assert_eq!(owner_of(&ledger, sym("INV1")), Some(sym("sme1")));
}

#[test]
fn transfer_updates_owner_and_appends_exactly_one_history_record() {
    let mut ledger = TokenLedger::new();
    mint(&mut ledger, sym("INV1"), sym("sme1"));
    transfer(&mut ledger, 12, sym("INV1"), sym("sme1"), sym("pool1"), 250);

    assert_eq!(owner_of(&ledger, sym("INV1")), Some(sym("pool1")));
    let history = transfer_history(&ledger, sym("INV1"));
    assert_eq!(history.len(), 1);
    let record = history[0];
    assert_eq!(record.from, sym("sme1"));
    assert_eq!(record.to, sym("pool1"));
    assert_eq!(record.royalty_bps, 250);
    assert_eq!(record.timestamp, 12);
}

#[test]
fn transfer_history_accumulates_across_multiple_transfers() {
    let mut ledger = TokenLedger::new();
    mint(&mut ledger, sym("INV1"), sym("sme1"));
    transfer(&mut ledger, 0, sym("INV1"), sym("sme1"), sym("pool1"), 100);
    transfer(&mut ledger, 0, sym("INV1"), sym("pool1"), sym("buyer1"), 200);

    let history = transfer_history(&ledger, sym("INV1"));
    assert_eq!(history.len(), 2);
    assert_eq!(history[0].to, sym("pool1"));
    assert_eq!(history[1].to, sym("buyer1"));
    assert_eq!(owner_of(&ledger, sym("INV1")), Some(sym("buyer1")));
}

#[test]
fn repayment_share_returns_current_owner_with_full_amount() {
    let mut ledger = TokenLedger::new();
    mint(&mut ledger, sym("INV1"), sym("sme1"));
    transfer(&mut ledger, 0, sym("INV1"), sym("sme1"), sym("pool1"), 0);

    let (owner, amount) = repayment_share(&ledger, sym("INV1"), 40_000);
    assert_eq!(owner, sym("pool1"));
    assert_eq!(amount, 40_000);
}

#[test]
fn querying_an_unminted_token_returns_none_or_empty() {
    let ledger = TokenLedger::new();
    assert_eq!(owner_of(&ledger, sym("GHOST")), None);
    assert_eq!(transfer_history(&ledger, sym("GHOST")).len(), 0);
}

#[test]
fn tokens_do_not_disturb_each_other() {
    let mut ledger = TokenLedger::new();
    mint(&mut ledger, sym("INV1"), sym("sme1"));
    mint(&mut ledger, sym("INV2"), sym("sme2"));
    mint(&mut ledger, sym("INV3"), sym("sme3"));
    transfer(&mut ledger, 5, sym("INV1"), sym("sme1"), sym("pool1"), 10_000);
    assert_eq!(owner_of(&ledger, sym("INV2")), Some(sym("sme2")));
    assert_eq!(owner_of(&ledger, sym("INV3")), Some(sym("sme3")));
    assert!(transfer_history(&ledger, sym("INV3")).is_empty());
    assert_eq!(
        ledger.take_events(),
        vec![TokenEvent::Transferred {
            token_id: sym("INV1"),
            from: sym("sme1"),
            royalty_bps: 10_000
        }]
    );
    assert!(ledger.take_events().is_empty());
}

#[test]
fn a_history_is_a_chain_of_custody() {
    let mut ledger = TokenLedger::new();
    let owners = ["sme1", "pool1", "buyer1", "sme1", "sme1"];
    mint(&mut ledger, sym("INV1"), sym(owners[0]));
    for i in 1..owners.len() {
        transfer(&mut ledger, i as u64, sym("INV1"), sym(owners[i - 1]), sym(owners[i]), 1);
    }
    let history = transfer_history(&ledger, sym("INV1"));
    for i in 0..history.len() {
        assert_eq!(
            history[i],
            TransferRecord {
                from: sym(owners[i]),
                to: sym(owners[i + 1]),
                timestamp: i as u64 + 1,
                royalty_bps: 1
            }
        );
    }
    assert_eq!(history.len(), 4);
}
