use moma::display::{
    begin_refresh, delete_confirmed, dialog_outcome, finish_refresh, transaction_row,
    DialogOutcome, RefreshStep, WalletSnapshot,
};
use moma::ledger::Transaction;
use moma::timestamp::Timestamp;

#[test]
fn income_row_shows_value_as_typed() {
    let row = transaction_row("salary".to_string(), "1000".to_string(), true);
    assert_eq!(row.name, "salary");
    assert_eq!(row.value_text, "1000");
}

#[test]
fn expense_row_shows_minus_sign() {
    let row = transaction_row("rent".to_string(), "400.50".to_string(), false);
    assert_eq!(row.name, "rent");
    assert_eq!(row.value_text, "-400.50");
    let empty = transaction_row("".to_string(), "".to_string(), false);
    assert_eq!(empty.value_text, "-");
}

#[test]
fn expense_text_is_minus_then_income_text() {
    for v in ["0", "12", "-3", "abc"] {
        let inc = transaction_row("n".to_string(), v.to_string(), true);
        let exp = transaction_row("n".to_string(), v.to_string(), false);
        assert_eq!(exp.value_text, format!("-{}", inc.value_text));
    }
}

#[test]
fn refresh_of_no_wallet_empties_labels() {
    for wid in [0i64, -1, i64::MIN] {
        match begin_refresh(wid) {
            RefreshStep::Show(p) => {
                assert_eq!(p.total_text, "");
                assert_eq!(p.currency_text, "");
                assert!(!p.clear_rows);
                assert!(p.rows.is_empty());
            }
            RefreshStep::LoadWallet(_) => panic!("no wallet should be read"),
        }
    }
}

#[test]
fn refresh_of_a_wallet_reads_it() {
    for wid in [1i64, 5, i64::MAX] {
        match begin_refresh(wid) {
            RefreshStep::LoadWallet(w) => assert_eq!(w, wid),
            RefreshStep::Show(_) => panic!("the wallet should be read"),
        }
    }
}

fn tx(name: &str, value: &str, is_income: bool) -> Transaction {
    Transaction {
        name: name.to_string(),
        description: String::new(),
        value: value.to_string(),
        transtime: Timestamp { sec: 1, nsec: 0 },
        createdtime: Timestamp { sec: 1, nsec: 0 },
        wallet: 1,
        is_income,
    }
}

#[test]
fn refresh_shows_wallet_and_its_transactions() {
    let snapshot = WalletSnapshot {
        value: "1234.5".to_string(),
        currency: "EUR".to_string(),
        transactions: vec![tx("salary", "1000", true), tx("food", "20", false)],
    };
    let p = finish_refresh(&snapshot);
    assert_eq!(p.total_text, "1234.5");
    assert_eq!(p.currency_text, "EUR");
    assert!(p.clear_rows);
    assert_eq!(p.rows.len(), 2);
    assert_eq!(p.rows[0].name, "salary");
    assert_eq!(p.rows[0].value_text, "1000");
    assert_eq!(p.rows[1].name, "food");
    assert_eq!(p.rows[1].value_text, "-20");
}

#[test]
fn refresh_of_wallet_without_transactions() {
    let snapshot = WalletSnapshot { value: "0".to_string(), currency: "USD".to_string(), transactions: vec![] };
    let p = finish_refresh(&snapshot);
    assert_eq!(p.total_text, "0");
    assert!(p.clear_rows);
    assert!(p.rows.is_empty());
}

#[test]
fn dialog_responses() {
    assert!(matches!(dialog_outcome(-5), DialogOutcome::Save));
    assert!(matches!(dialog_outcome(-2), DialogOutcome::Delete));
    assert!(matches!(dialog_outcome(-6), DialogOutcome::Dismiss));
    assert!(matches!(dialog_outcome(-4), DialogOutcome::Dismiss));
    assert!(matches!(dialog_outcome(0), DialogOutcome::Dismiss));
    assert!(delete_confirmed(1));
    assert!(!delete_confirmed(0));
    assert!(!delete_confirmed(-4));
}
