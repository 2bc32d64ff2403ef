//! Wallet and transaction records, and the logic around reading and making them.

use vstd::prelude::*;
use vstd::string::*;

use crate::decimal::{decimal_text, format_i64, lemma_decimal_round_trip, lemma_decimal_text_injective, parse_i64, parsed_i64};
use crate::timestamp::{now, Timestamp};

verus! {

/// A wallet: an amount of money in one currency. Its value is kept as the text
/// that the user typed or that the last transaction wrote.
pub struct Wallet {
    pub id: i64,
    pub name: String,
    pub value: String,
    pub currency: String,
    pub isdefault: bool,
    pub createdtime: Timestamp,
}

/// A transaction of a wallet: an income or an expense of `value`.
pub struct Transaction {
    pub name: String,
    pub description: String,
    pub value: String,
    pub transtime: Timestamp,
    pub createdtime: Timestamp,
    pub wallet: i64,
    pub is_income: bool,
}

/// The columns of one row of the wallet's transaction listing.
pub struct TransactionColumns {
    pub name: String,
    pub description: String,
    pub value: String,
    pub transtime: Timestamp,
    pub createdtime: Timestamp,
    pub is_income: bool,
}

/// One entry of the wallet selector: the wallet's id as text, and its name.
pub struct WalletChoice {
    pub id_text: String,
    pub name: String,
    pub is_default: bool,
}

/// The start of the query that lists a wallet's transactions, up to the id.
pub const TX_QUERY_HEAD: &'static str = "SELECT name, description, value, transtime, createdtime, is_income \n                FROM transactions WHERE wallet = \"";

/// The end of the query that lists a wallet's transactions, after the id.
pub const TX_QUERY_TAIL: &'static str = "\" ORDER BY transtime LIMIT 10";

/// The text of the query that lists the first ten transactions of the wallet.
pub open spec fn transactions_query_text(wid: int) -> Seq<char> {
    TX_QUERY_HEAD@ + decimal_text(wid) + TX_QUERY_TAIL@
}

/// The query that lists the transactions of wallet `wid`, oldest first and at
/// most ten: the wallet's id is written into it as decimal text.
pub fn transactions_query(wid: i64) -> (q: String)
    ensures
        q@ == transactions_query_text(wid as int),
        q@ == TX_QUERY_HEAD@ + decimal_text(wid as int) + TX_QUERY_TAIL@,
        q@.subrange(0, TX_QUERY_HEAD@.len() as int) == TX_QUERY_HEAD@,
        q@.subrange(q@.len() - TX_QUERY_TAIL@.len(), q@.len() as int) == TX_QUERY_TAIL@,
        q@.subrange(TX_QUERY_HEAD@.len() as int, q@.len() - TX_QUERY_TAIL@.len()) == decimal_text(
            wid as int,
        ),
{
    proof {
        lemma_transactions_query_shape(wid as int);
    }
    let mut q = TX_QUERY_HEAD.to_owned();
    let id = format_i64(wid);
    q.append(id.as_str());
    q.append(TX_QUERY_TAIL);
    q
}

/// Every listing query is the same text around the wallet id: it starts with
/// [`TX_QUERY_HEAD`], ends with [`TX_QUERY_TAIL`], and between them holds
/// exactly the decimal text of the id.
pub proof fn lemma_transactions_query_shape(wid: int)
    ensures
        ({
            let q = transactions_query_text(wid);
            let h = TX_QUERY_HEAD@.len() as int;
            let t = TX_QUERY_TAIL@.len() as int;
            &&& q.len() == h + decimal_text(wid).len() + t
            &&& q.subrange(0, h) == TX_QUERY_HEAD@
            &&& q.subrange(q.len() - t, q.len() as int) == TX_QUERY_TAIL@
            &&& q.subrange(h, q.len() - t) == decimal_text(wid)
        }),
{
    let q = transactions_query_text(wid);
    let h = TX_QUERY_HEAD@.len() as int;
    let t = TX_QUERY_TAIL@.len() as int;
    assert(q.subrange(0, h) =~= TX_QUERY_HEAD@);
    assert(q.subrange(q.len() - t, q.len() as int) =~= TX_QUERY_TAIL@);
    assert(q.subrange(h, q.len() - t) =~= decimal_text(wid));
}

/// The text around the id: it selects the listed columns of the wallet's
/// transactions, orders them by time and keeps at most ten.
pub proof fn lemma_transactions_query_text_around_id()
    ensures
        TX_QUERY_HEAD@ == seq![
            'S', 'E', 'L', 'E', 'C', 'T', ' ', 'n', 'a', 'm', 'e', ',',
            ' ', 'd', 'e', 's', 'c', 'r', 'i', 'p', 't', 'i', 'o', 'n',
            ',', ' ', 'v', 'a', 'l', 'u', 'e', ',', ' ', 't', 'r', 'a',
            'n', 's', 't', 'i', 'm', 'e', ',', ' ', 'c', 'r', 'e', 'a',
            't', 'e', 'd', 't', 'i', 'm', 'e', ',', ' ', 'i', 's', '_',
            'i', 'n', 'c', 'o', 'm', 'e', ' ', '\n', ' ', ' ', ' ', ' ',
            ' ', ' ', ' ', ' ', ' ', ' ', ' ', ' ', ' ', ' ', ' ', ' ',
            'F', 'R', 'O', 'M', ' ', 't', 'r', 'a', 'n', 's', 'a', 'c',
            't', 'i', 'o', 'n', 's', ' ', 'W', 'H', 'E', 'R', 'E', ' ',
            'w', 'a', 'l', 'l', 'e', 't', ' ', '=', ' ', '"',
        ],
        TX_QUERY_TAIL@ == seq![
            '"', ' ', 'O', 'R', 'D', 'E', 'R', ' ', 'B', 'Y', ' ', 't',
            'r', 'a', 'n', 's', 't', 'i', 'm', 'e', ' ', 'L', 'I', 'M',
            'I', 'T', ' ', '1', '0',
        ],
{
    reveal_strlit("SELECT name, description, value, transtime, createdtime, is_income \n                FROM transactions WHERE wallet = \"");
    reveal_strlit("\" ORDER BY transtime LIMIT 10");
    assert(TX_QUERY_HEAD@ =~= seq![
            'S', 'E', 'L', 'E', 'C', 'T', ' ', 'n', 'a', 'm', 'e', ',',
            ' ', 'd', 'e', 's', 'c', 'r', 'i', 'p', 't', 'i', 'o', 'n',
            ',', ' ', 'v', 'a', 'l', 'u', 'e', ',', ' ', 't', 'r', 'a',
            'n', 's', 't', 'i', 'm', 'e', ',', ' ', 'c', 'r', 'e', 'a',
            't', 'e', 'd', 't', 'i', 'm', 'e', ',', ' ', 'i', 's', '_',
            'i', 'n', 'c', 'o', 'm', 'e', ' ', '\n', ' ', ' ', ' ', ' ',
            ' ', ' ', ' ', ' ', ' ', ' ', ' ', ' ', ' ', ' ', ' ', ' ',
            'F', 'R', 'O', 'M', ' ', 't', 'r', 'a', 'n', 's', 'a', 'c',
            't', 'i', 'o', 'n', 's', ' ', 'W', 'H', 'E', 'R', 'E', ' ',
            'w', 'a', 'l', 'l', 'e', 't', ' ', '=', ' ', '"',
        ]);
    assert(TX_QUERY_TAIL@ =~= seq![
            '"', ' ', 'O', 'R', 'D', 'E', 'R', ' ', 'B', 'Y', ' ', 't',
            'r', 'a', 'n', 's', 't', 'i', 'm', 'e', ' ', 'L', 'I', 'M',
            'I', 'T', ' ', '1', '0',
        ]);
}

/// The listing query names exactly one wallet: two wallets never share it.
pub proof fn lemma_transactions_query_names_one_wallet(a: i64, b: i64)
    requires
        transactions_query_text(a as int) == transactions_query_text(b as int),
    ensures
        a == b,
{
    let h = TX_QUERY_HEAD@;
    let t = TX_QUERY_TAIL@;
    let qa = transactions_query_text(a as int);
    let da = decimal_text(a as int);
    let db = decimal_text(b as int);
    assert(qa.subrange(h.len() as int, qa.len() - t.len()) =~= da);
    assert(qa.subrange(h.len() as int, qa.len() - t.len()) =~= db);
    lemma_decimal_text_injective(a, b);
}

/// The transactions of wallet `wid` built from the rows that its listing
/// query gave, in the same order: each belongs to `wid`.
pub fn transactions_for_wallet(wid: i64, rows: &Vec<TransactionColumns>) -> (r: Vec<Transaction>)
    ensures
        r.len() == rows.len(),
        forall|i: int|
            0 <= i < rows.len() ==> {
                let t = #[trigger] r[i];
                let c = rows[i];
                &&& t.wallet == wid
                &&& t.name@ == c.name@
                &&& t.description@ == c.description@
                &&& t.value@ == c.value@
                &&& t.transtime == c.transtime
                &&& t.createdtime == c.createdtime
                &&& t.is_income == c.is_income
            },
{
    let mut r: Vec<Transaction> = Vec::new();
    let mut i: usize = 0;
    while i < rows.len()
        invariant
            i <= rows.len(),
            r.len() == i,
            forall|j: int|
                0 <= j < i ==> {
                    let t = #[trigger] r[j];
                    let c = rows[j];
                    &&& t.wallet == wid
                    &&& t.name@ == c.name@
                    &&& t.description@ == c.description@
                    &&& t.value@ == c.value@
                    &&& t.transtime == c.transtime
                    &&& t.createdtime == c.createdtime
                    &&& t.is_income == c.is_income
                },
        decreases rows.len() - i,
    {
        let c = &rows[i];
        let t = Transaction {
            name: c.name.clone(),
            description: c.description.clone(),
            value: c.value.clone(),
            transtime: c.transtime,
            createdtime: c.createdtime,
            wallet: wid,
            is_income: c.is_income,
        };
        r.push(t);
        i = i + 1;
    }
    r
}

/// The entries of the wallet selector, one per wallet and in the same order.
/// Reading an entry's id text back gives the wallet's id.
pub fn wallet_choices(wallets: &Vec<Wallet>) -> (r: Vec<WalletChoice>)
    ensures
        r.len() == wallets.len(),
        forall|i: int|
            0 <= i < wallets.len() ==> {
                let e = #[trigger] r[i];
                let w = wallets[i];
                &&& e.id_text@ == decimal_text(w.id as int)
                &&& parsed_i64(e.id_text@) == Some(w.id as int)
                &&& e.name@ == w.name@
                &&& e.is_default == w.isdefault
            },
{
    let mut r: Vec<WalletChoice> = Vec::new();
    let mut i: usize = 0;
    while i < wallets.len()
        invariant
            i <= wallets.len(),
            r.len() == i,
            forall|j: int|
                0 <= j < i ==> {
                    let e = #[trigger] r[j];
                    let w = wallets[j];
                    &&& e.id_text@ == decimal_text(w.id as int)
                    &&& parsed_i64(e.id_text@) == Some(w.id as int)
                    &&& e.name@ == w.name@
                    &&& e.is_default == w.isdefault
                },
        decreases wallets.len() - i,
    {
        let w = &wallets[i];
        proof {
            lemma_decimal_round_trip(w.id);
        }
        let e = WalletChoice { id_text: format_i64(w.id), name: w.name.clone(), is_default: w.isdefault };
        r.push(e);
        i = i + 1;
    }
    r
}

/// A wallet record as the wallet dialog fills it in, stamped with the time
/// read now from the clock. A wallet not saved yet has id 0.
pub fn new_wallet(id: i64, name: String, value: String, currency: String, isdefault: bool) -> (w: Wallet)
    ensures
        w.id == id,
        w.name@ == name@,
        w.value@ == value@,
        w.currency@ == currency@,
        w.isdefault == isdefault,
        w.createdtime.wf(),
{
    let createdtime = now();
    Wallet { id, name, value, currency, isdefault, createdtime }
}

/// A new transaction of the wallet whose id text is `wallet_id`, made now:
/// `None` exactly where that text is no `i64`. Its two times are read from the
/// clock one after the other.
pub fn new_transaction(
    name: String,
    description: String,
    value: String,
    wallet_id: &str,
    is_income: bool,
) -> (r: Option<Transaction>)
    ensures
        r is None <==> parsed_i64(wallet_id@) is None,
        r matches Some(t) ==> {
            &&& Some(t.wallet as int) == parsed_i64(wallet_id@)
            &&& t.name@ == name@
            &&& t.description@ == description@
            &&& t.value@ == value@
            &&& t.is_income == is_income
            &&& t.transtime.wf()
            &&& t.createdtime.wf()
        },
{
    let transtime = now();
    let createdtime = now();
    match parse_i64(wallet_id) {
        Some(wallet) => Some(
            Transaction { name, description, value, transtime, createdtime, wallet, is_income },
        ),
        None => None,
    }
}

} // verus!
