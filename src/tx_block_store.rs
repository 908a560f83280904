use vstd::prelude::*;
use vstd::string::{StrSliceExecFns, StringExecFns};

use crate::error::Error;
use crate::model::{Deposit, Transaction, TxId};
use crate::text::{all_digits, decimal, digits_value, is_digit, lemma_decimal, push_decimal};

verus! {

/// The deposit that `t` is, if it is one.
pub open spec fn deposit_of(t: Transaction) -> Option<Deposit> {
    match t {
        Transaction::Deposit(d) => Some(d),
        _ => None,
    }
}

/// The deposits of `s`, in order.
pub open spec fn deposits_of(s: Seq<Transaction>) -> Seq<Deposit>
    decreases s.len(),
{
    if s.len() == 0 {
        Seq::empty()
    } else {
        let init = deposits_of(s.drop_last());
        match deposit_of(s.last()) {
            Some(d) => init.push(d),
            None => init,
        }
    }
}

/// `tx_min` and `tx_max` are the smallest and the largest transaction id
/// among the (non-empty) `deposits`.
pub open spec fn spans(deposits: Seq<Deposit>, tx_min: TxId, tx_max: TxId) -> bool {
    &&& deposits.len() > 0
    &&& forall|i: int|
        0 <= i < deposits.len() ==> tx_min@ <= #[trigger] deposits[i].tx()@ <= tx_max@
    &&& exists|i: int| 0 <= i < deposits.len() && deposits[i].tx() == tx_min
    &&& exists|i: int| 0 <= i < deposits.len() && deposits[i].tx() == tx_max
}

/// The contents of one block file: the deposits of a chunk of transactions
/// and the range of their ids.
#[derive(Debug)]
pub struct BlockPlan {
    pub deposits: Vec<Deposit>,
    pub tx_min: TxId,
    pub tx_max: TxId,
}

/// Picks what a chunk of transactions is stored as: its deposits, which are
/// the only transactions a dispute can refer to, and the range of their ids.
/// `None` when the chunk holds no deposit, so that no block is written.
pub fn plan_block(transactions: &[Transaction]) -> (r: Option<BlockPlan>)
    ensures
        r is None <==> deposits_of(transactions@).len() == 0,
        r matches Some(p) ==> p.deposits@ == deposits_of(transactions@) && spans(
            p.deposits@,
            p.tx_min,
            p.tx_max,
        ),
{
    let mut deposits: Vec<Deposit> = Vec::new();
    let mut tx_min = TxId::new(0);
    let mut tx_max = TxId::new(0);
    let mut i: usize = 0;
    while i < transactions.len()
        invariant
            i <= transactions@.len(),
            deposits@ == deposits_of(transactions@.take(i as int)),
            deposits@.len() > 0 ==> spans(deposits@, tx_min, tx_max),
        decreases transactions@.len() - i,
    {
        let ghost before = deposits@;
        proof {
            assert(transactions@.take(i + 1).drop_last() =~= transactions@.take(i as int));
        }
        match transactions[i] {
            Transaction::Deposit(d) => {
                let tx = d.tx();
                if deposits.len() == 0 {
                    tx_min = tx;
                    tx_max = tx;
                } else {
                    if tx.into_inner() < tx_min.into_inner() {
                        tx_min = tx;
                    }
                    if tx.into_inner() > tx_max.into_inner() {
                        tx_max = tx;
                    }
                }
                deposits.push(d);
                proof {
                    let n = deposits@.len() - 1;
                    assert(deposits@[n] == d);
                    assert forall|j: int| 0 <= j < deposits@.len() implies tx_min@
                        <= #[trigger] deposits@[j].tx()@ <= tx_max@ by {
                        if j < n {
                            assert(deposits@[j] == before[j]);
                        }
                    }
                    if before.len() > 0 {
                        let a = choose|j: int| 0 <= j < before.len() && before[j].tx() == tx_min;
                        let b = choose|j: int| 0 <= j < before.len() && before[j].tx() == tx_max;
                        if tx_min == tx {
                            assert(deposits@[n].tx() == tx_min);
                        } else {
                            assert(deposits@[a] == before[a]);
                        }
                        if tx_max == tx {
                            assert(deposits@[n].tx() == tx_max);
                        } else {
                            assert(deposits@[b] == before[b]);
                        }
                    } else {
                        assert(deposits@[0].tx() == tx_min);
                    }
                }
            },
            _ => {},
        }
        i = i + 1;
    }
    proof {
        assert(transactions@.take(i as int) =~= transactions@);
    }
    if deposits.len() == 0 {
        None
    } else {
        Some(BlockPlan { deposits, tx_min, tx_max })
    }
}

/// The name of the block file whose deposits span `[tx_min, tx_max]`:
/// `{tx_min}_{tx_max}.csv`.
pub open spec fn block_name(tx_min: TxId, tx_max: TxId) -> Seq<char> {
    decimal(tx_min@ as nat) + seq!['_'] + decimal(tx_max@ as nat) + seq!['.', 'c', 's', 'v']
}

/// Returns the name of the block file whose deposits span
/// `[tx_min, tx_max]`.
pub fn block_file_name(tx_min: TxId, tx_max: TxId) -> (r: String)
    ensures
        r@ == block_name(tx_min, tx_max),
{
    proof {
        reveal_strlit("");
        reveal_strlit("_");
        reveal_strlit(".csv");
    }
    let mut name = String::from_str("");
    push_decimal(&mut name, tx_min.into_inner() as u128);
    name.append("_");
    push_decimal(&mut name, tx_max.into_inner() as u128);
    name.append(".csv");
    proof {
        assert(name@ =~= block_name(tx_min, tx_max));
    }
    name
}

/// `s` without its leading `+`, if it has one.
pub open spec fn unsigned_part(s: Seq<char>) -> Seq<char> {
    if s.len() > 0 && s[0] == '+' {
        s.skip(1)
    } else {
        s
    }
}

/// `s` read as a `u32`: an optional `+`, then one or more decimal digits
/// whose value fits in 32 bits.
pub open spec fn parse_u32(s: Seq<char>) -> Option<u32> {
    let body = unsigned_part(s);
    if body.len() > 0 && all_digits(body) && digits_value(body) <= u32::MAX {
        Some(digits_value(body) as u32)
    } else {
        None
    }
}

/// The index of the first `c` in `s`, or the length of `s` when there is none.
pub open spec fn first_index(s: Seq<char>, c: char) -> int {
    if exists|i: int| 0 <= i < s.len() && s[i] == c && forall|j: int| 0 <= j < i ==> s[j] != c {
        choose|i: int| 0 <= i < s.len() && s[i] == c && forall|j: int| 0 <= j < i ==> s[j] != c
    } else {
        s.len() as int
    }
}

/// The id range that a block file's name gives: the name up to its first
/// `.` must be `{min}_{max}`, split at the first `_`.
pub open spec fn parse_block_name(name: Seq<char>) -> Option<(u32, u32)> {
    let stem = name.take(first_index(name, '.'));
    let sep = first_index(stem, '_');
    if sep == stem.len() {
        None
    } else {
        match (parse_u32(stem.take(sep)), parse_u32(stem.skip(sep + 1))) {
            (Some(a), Some(b)) => Some((a, b)),
            _ => None,
        }
    }
}

proof fn lemma_first_index(s: Seq<char>, c: char, r: int)
    requires
        0 <= r <= s.len(),
        forall|j: int| 0 <= j < r ==> s[j] != c,
        r < s.len() ==> s[r] == c,
    ensures
        first_index(s, c) == r,
{
    if r < s.len() {
        assert(0 <= r < s.len() && s[r] == c && forall|j: int| 0 <= j < r ==> s[j] != c);
        let i = choose|i: int|
            0 <= i < s.len() && s[i] == c && forall|j: int| 0 <= j < i ==> s[j] != c;
        if i < r {
            assert(s[i] != c);
        } else if i > r {
            assert(s[r] != c);
        }
    } else {
        if exists|i: int| 0 <= i < s.len() && s[i] == c && forall|j: int| 0 <= j < i ==> s[j] != c {
            let i = choose|i: int|
                0 <= i < s.len() && s[i] == c && forall|j: int| 0 <= j < i ==> s[j] != c;
            assert(s[i] != c);
        }
    }
}

/// The index of the first `c` in `name[from..to]`, or `to`.
fn find_char(name: &str, from: usize, to: usize, c: char) -> (r: usize)
    requires
        from <= to <= name@.len(),
    ensures
        from <= r <= to,
        forall|j: int| from <= j < r ==> name@[j] != c,
        r < to ==> name@[r as int] == c,
{
    let mut i = from;
    while i < to
        invariant
            from <= i <= to <= name@.len(),
            forall|j: int| from <= j < i ==> name@[j] != c,
        decreases to - i,
    {
        if name.get_char(i) == c {
            return i;
        }
        i = i + 1;
    }
    i
}

/// `name[from..to]` read as a `u32`.
fn parse_u32_in(name: &str, from: usize, to: usize) -> (r: Option<u32>)
    requires
        from <= to <= name@.len(),
    ensures
        r == parse_u32(name@.subrange(from as int, to as int)),
{
    let ghost s = name@.subrange(from as int, to as int);
    let mut start = from;
    if from < to && name.get_char(from) == '+' {
        start = from + 1;
    }
    let ghost body = name@.subrange(start as int, to as int);
    proof {
        if from < to {
            assert(s[0] == name@[from as int]);
        }
        if s.len() > 0 && s[0] == '+' {
            assert(s.skip(1) =~= body);
        } else {
            assert(s =~= body);
        }
    }
    if start == to {
        return None;
    }
    let mut acc: u64 = 0;
    let mut i = start;
    while i < to
        invariant
            from <= start <= i <= to <= name@.len(),
            body == name@.subrange(start as int, to as int),
            s == name@.subrange(from as int, to as int),
            body == unsigned_part(s),
            forall|j: int| 0 <= j < i - start ==> is_digit(#[trigger] body[j]),
            acc as int == if digits_value(body.take(i - start)) < 0x1_0000_0000 {
                digits_value(body.take(i - start)) as int
            } else {
                0x1_0000_0000
            },
        decreases to - i,
    {
        let c = name.get_char(i);
        let code = c as u32;
        if code < 48 || code > 57 {
            proof {
                assert(body[i - start] == c);
                assert(!is_digit(body[i - start]));
                assert(!all_digits(body));
            }
            return None;
        }
        let d = (code - 48) as u64;
        proof {
            let k = i - start;
            assert(body.take(k + 1).drop_last() =~= body.take(k));
            assert(body.take(k + 1).last() == c);
        }
        if acc >= 0x1_0000_0000 || acc * 10 + d >= 0x1_0000_0000 {
            proof {
                let k = i - start;
                let v = digits_value(body.take(k));
                assert(v * 10 + d >= 0x1_0000_0000) by (nonlinear_arith)
                    requires
                        (v >= 0x1_0000_0000 || v * 10 + d >= 0x1_0000_0000),
                        d >= 0,
                ;
            }
            acc = 0x1_0000_0000;
        } else {
            acc = acc * 10 + d;
        }
        i = i + 1;
    }
    proof {
        assert(body.take(i - start) =~= body);
    }
    if acc > 0xFFFF_FFFF {
        None
    } else {
        Some(acc as u32)
    }
}

/// Returns the min and max transaction ids that a block file's name gives.
pub fn parse_min_max_tx(file_name: &str) -> (r: Result<(TxId, TxId), Error>)
    ensures
        match parse_block_name(file_name@) {
            Some((a, b)) => (r matches Ok((tx_min, tx_max)) && tx_min@ == a && tx_max@ == b),
            None => (r matches Err(Error::BlockFileNameInvalid { file_name: n }) && n@
                == file_name@),
        },
{
    let len = file_name.unicode_len();
    let dot = find_char(file_name, 0, len, '.');
    let sep = find_char(file_name, 0, dot, '_');
    let ghost name = file_name@;
    let ghost stem = name.take(dot as int);
    proof {
        lemma_first_index(name, '.', dot as int);
        assert forall|j: int| 0 <= j < sep implies stem[j] != '_' by {
            assert(stem[j] == name[j]);
        }
        lemma_first_index(stem, '_', sep as int);
    }
    if sep == dot {
        return Err(Error::BlockFileNameInvalid { file_name: String::from_str(file_name) });
    }
    let tx_min = parse_u32_in(file_name, 0, sep);
    let tx_max = parse_u32_in(file_name, sep + 1, dot);
    proof {
        assert(stem.take(sep as int) =~= name.subrange(0, sep as int));
        assert(stem.skip(sep + 1) =~= name.subrange(sep + 1, dot as int));
    }
    match (tx_min, tx_max) {
        (Some(a), Some(b)) => Ok((TxId::new(a), TxId::new(b))),
        _ => Err(Error::BlockFileNameInvalid { file_name: String::from_str(file_name) }),
    }
}

/// Whether a block whose ids span `[tx_min, tx_max]` may hold `tx`.
pub fn block_may_have(tx_min: TxId, tx_max: TxId, tx: TxId) -> (r: bool)
    ensures
        r == (tx_min@ <= tx@ && tx@ <= tx_max@),
{
    tx_min.into_inner() <= tx.into_inner() && tx.into_inner() <= tx_max.into_inner()
}

/// The range of block `name`, when the name is valid, holds `tx`.
pub open spec fn name_may_have(name: Seq<char>, tx: TxId) -> bool {
    (parse_block_name(name) matches Some((a, b)) && a <= tx@ <= b)
}

/// Chooses, among the block files `names` of a store, those whose id range
/// holds `tx`, by their index in `names`. A name that is not a block name is
/// an error, not skipped.
pub fn select_blocks(names: &Vec<String>, tx: TxId) -> (r: Result<Vec<usize>, Error>)
    ensures
        r is Err <==> exists|i: int|
            0 <= i < names@.len() && #[trigger] parse_block_name(names@[i]@) is None,
        r matches Err(e) ==> exists|i: int|
            0 <= i < names@.len() && #[trigger] parse_block_name(names@[i]@) is None && (
            e matches Error::BlockFileNameInvalid { file_name: n } && n@ == names@[i]@),
        r matches Ok(v) ==> {
            &&& forall|j: int, k: int| 0 <= j < k < v@.len() ==> v@[j] < v@[k]
            &&& forall|j: int|
                0 <= j < v@.len() ==> #[trigger] v@[j] < names@.len() && name_may_have(
                    names@[v@[j] as int]@,
                    tx,
                )
            &&& forall|i: int|
                0 <= i < names@.len() && #[trigger] name_may_have(names@[i]@, tx) ==> v@.contains(
                    i as usize,
                )
        },
{
    let mut selected: Vec<usize> = Vec::new();
    let mut i: usize = 0;
    while i < names.len()
        invariant
            i <= names@.len(),
            forall|j: int| 0 <= j < i ==> #[trigger] parse_block_name(names@[j]@) is Some,
            forall|j: int, k: int| 0 <= j < k < selected@.len() ==> selected@[j] < selected@[k],
            forall|j: int|
                0 <= j < selected@.len() ==> #[trigger] selected@[j] < i && name_may_have(
                    names@[selected@[j] as int]@,
                    tx,
                ),
            forall|j: int|
                0 <= j < i && #[trigger] name_may_have(names@[j]@, tx) ==> selected@.contains(
                    j as usize,
                ),
        decreases names@.len() - i,
    {
        match parse_min_max_tx(names[i].as_str()) {
            Ok((tx_min, tx_max)) => {
                if block_may_have(tx_min, tx_max, tx) {
                    let ghost before = selected@;
                    selected.push(i);
                    proof {
                        assert forall|j: int| 0 <= j < i && #[trigger] name_may_have(names@[j]@, tx)
                            implies selected@.contains(j as usize) by {
                            let k = choose|k: int| 0 <= k < before.len() && before[k] == j as usize;
                            assert(selected@[k] == before[k]);
                        }
                        assert(selected@[before.len() as int] == i);
                    }
                }
            },
            Err(e) => {
                return Err(e);
            },
        }
        i = i + 1;
    }
    Ok(selected)
}

/// The deposit that `t` is, if it is one with id `tx`.
pub open spec fn deposit_with_id_spec(t: Transaction, tx: TxId) -> Option<Deposit> {
    match t {
        Transaction::Deposit(d) => if d.tx() == tx {
            Some(d)
        } else {
            None
        },
        _ => None,
    }
}

/// The first deposit with id `tx` in `records`.
pub open spec fn first_deposit(records: Seq<Transaction>, tx: TxId) -> Option<Deposit>
    decreases records.len(),
{
    if records.len() == 0 {
        None
    } else {
        match deposit_with_id_spec(records[0], tx) {
            Some(d) => Some(d),
            None => first_deposit(records.skip(1), tx),
        }
    }
}

/// Returns `transaction` if it is a deposit with id `tx`. Only deposits
/// match: they are the only transactions that a dispute can refer to.
pub fn deposit_with_id(transaction: &Transaction, tx: TxId) -> (r: Option<Deposit>)
    ensures
        r == deposit_with_id_spec(*transaction, tx),
{
    match transaction {
        Transaction::Deposit(d) => {
            if d.tx().into_inner() == tx.into_inner() {
                proof {
                    crate::model::tx_id::lemma_tx_id_ext(d.tx(), tx);
                }
                Some(*d)
            } else {
                None
            }
        },
        _ => None,
    }
}

/// Returns the first deposit with id `tx` among the records of a block.
pub fn find_in_block(records: &Vec<Transaction>, tx: TxId) -> (r: Option<Deposit>)
    ensures
        r == first_deposit(records@, tx),
{
    let mut i: usize = 0;
    proof {
        assert(records@.skip(0) =~= records@);
    }
    while i < records.len()
        invariant
            i <= records@.len(),
            first_deposit(records@, tx) == first_deposit(records@.skip(i as int), tx),
        decreases records@.len() - i,
    {
        let found = deposit_with_id(&records[i], tx);
        proof {
            assert(records@.skip(i as int)[0] == records@[i as int]);
            assert(records@.skip(i as int).skip(1) =~= records@.skip(i + 1));
        }
        if found.is_some() {
            return found;
        }
        i = i + 1;
    }
    None
}


/// The records that a block holds for `deposits`.
pub open spec fn deposit_records(deposits: Seq<Deposit>) -> Seq<Transaction> {
    deposits.map_values(|d: Deposit| Transaction::Deposit(d))
}

/// No two of `deposits` share a transaction id.
pub open spec fn unique_ids(deposits: Seq<Deposit>) -> bool {
    forall|i: int, j: int|
        0 <= i < deposits.len() && 0 <= j < deposits.len() && i != j ==> #[trigger] deposits[i].tx()
            != #[trigger] deposits[j].tx()
}

proof fn lemma_parse_decimal(n: nat)
    requires
        n <= u32::MAX,
    ensures
        parse_u32(decimal(n)) == Some(n as u32),
{
    lemma_decimal(n);
    let d = decimal(n);
    assert(is_digit(d[0]));
    assert(unsigned_part(d) == d);
}

/// The name of a block parses back to the block's id range.
pub proof fn lemma_block_name_parses(tx_min: TxId, tx_max: TxId)
    ensures
        parse_block_name(block_name(tx_min, tx_max)) == Some((tx_min@, tx_max@)),
{
    let da = decimal(tx_min@ as nat);
    let db = decimal(tx_max@ as nat);
    lemma_decimal(tx_min@ as nat);
    lemma_decimal(tx_max@ as nat);
    let name = block_name(tx_min, tx_max);
    let dot: int = da.len() as int + 1 + db.len() as int;
    assert forall|j: int| 0 <= j < dot implies name[j] != '.' by {
        if j < da.len() {
            assert(name[j] == da[j]);
            assert(is_digit(da[j]));
        } else if j > da.len() {
            assert(name[j] == db[j - da.len() - 1]);
            assert(is_digit(db[j - da.len() - 1]));
        }
    }
    assert(name[dot] == '.');
    lemma_first_index(name, '.', dot);
    let stem = name.take(dot);
    assert(stem =~= da + seq!['_'] + db);
    assert forall|j: int| 0 <= j < da.len() implies stem[j] != '_' by {
        assert(stem[j] == da[j]);
        assert(is_digit(da[j]));
    }
    lemma_first_index(stem, '_', da.len() as int);
    assert(stem.take(da.len() as int) =~= da);
    assert(stem.skip(da.len() as int + 1) =~= db);
    lemma_parse_decimal(tx_min@ as nat);
    lemma_parse_decimal(tx_max@ as nat);
}

proof fn lemma_first_deposit_unique(deposits: Seq<Deposit>, k: int)
    requires
        unique_ids(deposits),
        0 <= k < deposits.len(),
    ensures
        first_deposit(deposit_records(deposits), deposits[k].tx()) == Some(deposits[k]),
    decreases k,
{
    let records = deposit_records(deposits);
    assert(records[0] == Transaction::Deposit(deposits[0]));
    if k > 0 {
        assert(deposits[0].tx() != deposits[k].tx());
        let rest = deposits.skip(1);
        assert(records.skip(1) =~= deposit_records(rest));
        assert(rest[k - 1] == deposits[k]);
        assert forall|i: int, j: int|
            0 <= i < rest.len() && 0 <= j < rest.len() && i != j implies #[trigger] rest[i].tx()
            != #[trigger] rest[j].tx() by {
            assert(rest[i] == deposits[i + 1]);
            assert(rest[j] == deposits[j + 1]);
        }
        lemma_first_deposit_unique(rest, k - 1);
    }
}

/// Round trip of a block: for each deposit of a chunk whose ids are unique,
/// the block's name admits the deposit's id, and searching the block's
/// records for that id returns exactly that deposit, amount and client
/// included.
pub proof fn lemma_block_round_trip(chunk: Seq<Transaction>, tx_min: TxId, tx_max: TxId, k: int)
    requires
        spans(deposits_of(chunk), tx_min, tx_max),
        unique_ids(deposits_of(chunk)),
        0 <= k < deposits_of(chunk).len(),
    ensures
        parse_block_name(block_name(tx_min, tx_max)) == Some((tx_min@, tx_max@)),
        name_may_have(block_name(tx_min, tx_max), deposits_of(chunk)[k].tx()),
        first_deposit(deposit_records(deposits_of(chunk)), deposits_of(chunk)[k].tx()) == Some(
            deposits_of(chunk)[k],
        ),
{
    let ds = deposits_of(chunk);
    assert(tx_min@ <= ds[k].tx()@ <= tx_max@);
    lemma_block_name_parses(tx_min, tx_max);
    lemma_first_deposit_unique(ds, k);
}

} // verus!
