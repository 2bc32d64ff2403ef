//! What the wallet window shows, and how it answers its dialogs.

use vstd::prelude::*;
use vstd::string::*;

use crate::ledger::Transaction;

verus! {

/// One line of the transaction list: the transaction's name and its amount.
pub struct TransactionRow {
    pub name: String,
    pub value_text: String,
}

/// How an amount is shown: an income as typed, an expense with a minus sign
/// in front.
pub open spec fn shown_value(value: Seq<char>, is_income: bool) -> Seq<char> {
    if is_income {
        value
    } else {
        seq!['-'] + value
    }
}

/// An income is shown exactly as typed; an expense is shown as a minus sign
/// followed by exactly the typed amount, so it is one character longer.
pub proof fn lemma_shown_value(value: Seq<char>)
    ensures
        shown_value(value, true) == value,
        shown_value(value, false) == seq!['-'] + value,
        shown_value(value, false).len() == value.len() + 1,
        shown_value(value, false)[0] == '-',
        shown_value(value, false).drop_first() == shown_value(value, true),
{
    assert((seq!['-'] + value).drop_first() =~= value);
}

/// The line that shows a transaction named `name` of amount `value`.
pub fn transaction_row(name: String, value: String, is_income: bool) -> (r: TransactionRow)
    ensures
        r.name@ == name@,
        r.value_text@ == shown_value(value@, is_income),
        is_income ==> r.value_text@ == value@,
        !is_income ==> r.value_text@ == seq!['-'] + value@,
{
    let value_text = if is_income {
        value
    } else {
        proof {
            reveal_strlit("-");
        }
        let mut s = "-".to_owned();
        s.append(value.as_str());
        s
    };
    TransactionRow { name, value_text }
}

/// What was read of the selected wallet: its value, its currency and its
/// transactions in listing order.
pub struct WalletSnapshot {
    pub value: String,
    pub currency: String,
    pub transactions: Vec<Transaction>,
}

/// What the window shows after a refresh. `rows` are put, one after the
/// other, at the top of the list, so that the list ends in reverse order;
/// the rows already there are removed first when `clear_rows` holds.
pub struct RefreshPlan {
    pub total_text: String,
    pub currency_text: String,
    pub clear_rows: bool,
    pub rows: Vec<TransactionRow>,
}

/// The first step of refreshing the window for wallet `wid`.
pub enum RefreshStep {
    /// Read this wallet and its transactions, then call [`finish_refresh`].
    LoadWallet(i64),
    /// No wallet is selected: show this.
    Show(RefreshPlan),
}

/// Refreshing the window starts here: a positive id names a wallet to read;
/// any other id empties both labels and leaves the list as it is.
pub fn begin_refresh(wid: i64) -> (r: RefreshStep)
    ensures
        wid > 0 ==> r == RefreshStep::LoadWallet(wid),
        wid <= 0 ==> (r matches RefreshStep::Show(p) && p.total_text@.len() == 0
            && p.currency_text@.len() == 0 && !p.clear_rows && p.rows.len() == 0),
{
    if wid > 0 {
        RefreshStep::LoadWallet(wid)
    } else {
        RefreshStep::Show(
            RefreshPlan {
                total_text: String::new(),
                currency_text: String::new(),
                clear_rows: false,
                rows: Vec::new(),
            },
        )
    }
}

/// What the window shows once the selected wallet was read: its value and
/// currency in the labels, and one line per transaction in place of the old
/// lines.
pub fn finish_refresh(snapshot: &WalletSnapshot) -> (p: RefreshPlan)
    ensures
        p.total_text@ == snapshot.value@,
        p.currency_text@ == snapshot.currency@,
        p.clear_rows,
        p.rows.len() == snapshot.transactions.len(),
        forall|i: int|
            0 <= i < p.rows.len() ==> {
                let row = #[trigger] p.rows[i];
                let t = snapshot.transactions[i];
                &&& row.name@ == t.name@
                &&& row.value_text@ == shown_value(t.value@, t.is_income)
                &&& t.is_income ==> row.value_text@ == t.value@
                &&& !t.is_income ==> row.value_text@ == seq!['-'] + t.value@
            },
{
    let txs = &snapshot.transactions;
    let mut rows: Vec<TransactionRow> = Vec::new();
    let mut i: usize = 0;
    while i < txs.len()
        invariant
            i <= txs.len(),
            rows.len() == i,
            forall|j: int|
                0 <= j < i ==> {
                    let row = #[trigger] rows[j];
                    let t = txs[j];
                    &&& row.name@ == t.name@
                    &&& row.value_text@ == shown_value(t.value@, t.is_income)
                    &&& t.is_income ==> row.value_text@ == t.value@
                    &&& !t.is_income ==> row.value_text@ == seq!['-'] + t.value@
                },
        decreases txs.len() - i,
    {
        let t = &txs[i];
        rows.push(transaction_row(t.name.clone(), t.value.clone(), t.is_income));
        i = i + 1;
    }
    RefreshPlan {
        total_text: snapshot.value.clone(),
        currency_text: snapshot.currency.clone(),
        clear_rows: true,
        rows,
    }
}

/// How a wallet or transaction dialog was closed.
pub enum DialogOutcome {
    /// Its OK button (response -5): save what it holds.
    Save,
    /// Its delete button (response -2): ask, then delete the wallet.
    Delete,
    /// Any other way: nothing changes.
    Dismiss,
}

/// What a dialog's response code asks for.
pub fn dialog_outcome(response: i32) -> (r: DialogOutcome)
    ensures
        response == -5 ==> r == DialogOutcome::Save,
        response == -2 ==> r == DialogOutcome::Delete,
        response != -5 && response != -2 ==> r == DialogOutcome::Dismiss,
{
    if response == -5 {
        DialogOutcome::Save
    } else if response == -2 {
        DialogOutcome::Delete
    } else {
        DialogOutcome::Dismiss
    }
}

/// Whether the question before deleting a wallet was answered "Yes"
/// (response 1; "No" is 0).
pub fn delete_confirmed(response: i32) -> (r: bool)
    ensures
        r == (response == 1),
{
    response == 1
}

} // verus!
