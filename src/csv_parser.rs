//! Reading transactions from comma-separated text: a header row names the
//! columns `type`, `client`, `tx` and `amount`; each further row is one
//! transaction, or a row that cannot be read as one.

use vstd::prelude::*;
use std::str::FromStr;
use rust_decimal::Decimal;
use crate::amount::Amount;
use crate::transaction_handler::inputs_valid;
use crate::types::{
    ClientId, DisputedTransactionRecord, LedgerError, MonetaryTransactionRecord, Transaction,
    TransactionId,
};

verus! {

/// The rows that the csv crate reads from `input`, with every field trimmed:
/// the fields of each row, or `None` for a row it could not read.
pub uninterp spec fn csv_rows(input: Seq<u8>) -> Seq<Option<Seq<Seq<char>>>>;

/// What rust_decimal's `Decimal::from_str` reads from `s`, as mantissa and
/// scale.
pub uninterp spec fn decimal_from_str(s: Seq<char>) -> Option<(int, int)>;

/// What rust_decimal's `Decimal::from_scientific` reads from `s`, as mantissa
/// and scale.
pub uninterp spec fn decimal_from_scientific(s: Seq<char>) -> Option<(int, int)>;

/// Relies on csv's `Reader` (built with `Trim::All`, no header row set apart)
/// and its `records`: each record's fields, or `None` where reading it failed.
#[verifier::external_body]
fn read_csv_rows(input: &[u8]) -> (r: Vec<Option<Vec<Vec<char>>>>)
    ensures
        r.deep_view() == csv_rows(input@),
{
    csv::ReaderBuilder::new().trim(csv::Trim::All).has_headers(false).from_reader(input).records().map(
        |rec| rec.ok().map(|rec| rec.iter().map(|f| f.chars().collect()).collect()),
    ).collect()
}

/// Relies on rust_decimal's `Decimal::from_str`; any decimal it gives has a
/// mantissa and a scale in range.
#[verifier::external_body]
fn decimal_parse(s: &Vec<char>) -> (r: Option<Amount>)
    ensures
        r is Some ==> r->0.wf(),
        r is Some <==> decimal_from_str(s@) is Some,
        r is Some ==> decimal_from_str(s@) == Some((r->0.mantissa as int, r->0.scale as int)),
{
    let text: String = s.iter().collect();
    Decimal::from_str(&text).ok().map(|d| Amount { mantissa: d.mantissa(), scale: d.scale() })
}

/// Relies on rust_decimal's `Decimal::from_scientific`; any decimal it gives
/// has a mantissa and a scale in range.
#[verifier::external_body]
fn decimal_parse_scientific(s: &Vec<char>) -> (r: Option<Amount>)
    ensures
        r is Some ==> r->0.wf(),
        r is Some <==> decimal_from_scientific(s@) is Some,
        r is Some ==> decimal_from_scientific(s@) == Some((r->0.mantissa as int, r->0.scale as int)),
{
    let text: String = s.iter().collect();
    Decimal::from_scientific(&text).ok().map(|d| Amount { mantissa: d.mantissa(), scale: d.scale() })
}

/// The kinds of transaction, as the `type` column names them.
#[derive(Debug, Clone, Copy, PartialEq, Eq, Structural)]
pub enum RawTransactionType {
    Deposit,
    Withdrawal,
    Dispute,
    Resolve,
    Chargeback,
}

/// One row of the input; the amount is absent for some kinds.
#[derive(Debug, Clone, Copy)]
pub struct RawTransaction {
    pub transaction_type: RawTransactionType,
    pub client: ClientId,
    pub transaction: TransactionId,
    pub amount: Option<Amount>,
}

/// The amount read from a text: as a plain decimal, or else in scientific
/// notation.
pub open spec fn amount_of_text(s: Seq<char>) -> Option<Amount> {
    match decimal_from_str(s) {
        Some((m, e)) => Some(Amount { mantissa: m as i128, scale: e as u32 }),
        None => match decimal_from_scientific(s) {
            Some((m, e)) => Some(Amount { mantissa: m as i128, scale: e as u32 }),
            None => None,
        },
    }
}

/// Reads an amount as a plain decimal, or else in scientific notation.
pub fn parse_amount(s: &Vec<char>) -> (r: Option<Amount>)
    ensures
        r == amount_of_text(s@),
        r is Some ==> r->0.wf(),
{
    match decimal_parse(s) {
        Some(a) => Some(a),
        None => decimal_parse_scientific(s),
    }
}

/// The value of a digit in base 10, or in base 16 (either case).
pub open spec fn digit_value(c: char, hex: bool) -> Option<nat> {
    if '0' <= c && c <= '9' {
        Some((c as u32 - '0' as u32) as nat)
    } else if hex && 'a' <= c && c <= 'f' {
        Some((c as u32 - 'a' as u32 + 10) as nat)
    } else if hex && 'A' <= c && c <= 'F' {
        Some((c as u32 - 'A' as u32 + 10) as nat)
    } else {
        None
    }
}

/// The base: 16 or 10.
pub open spec fn radix(hex: bool) -> nat {
    if hex {
        16
    } else {
        10
    }
}

/// Every character is a digit.
pub open spec fn all_digits(s: Seq<char>, hex: bool) -> bool {
    forall|i: int| 0 <= i < s.len() ==> (#[trigger] digit_value(s[i], hex)) is Some
}

/// The number that a string of digits writes.
pub open spec fn digits_value(s: Seq<char>, hex: bool) -> nat
    decreases s.len(),
{
    if s.len() == 0 {
        0
    } else {
        digits_value(s.drop_last(), hex) * radix(hex) + digit_value(s.last(), hex).unwrap_or(0)
    }
}

/// An unsigned integer as std's `from_str_radix` reads it: an optional `+`,
/// then at least one digit, at most `max`.
pub open spec fn unsigned_of(s: Seq<char>, hex: bool, max: nat) -> Option<nat> {
    let d = if s.len() > 0 && s[0] == '+' {
        s.drop_first()
    } else {
        s
    };
    if d.len() == 0 || !all_digits(d, hex) || digits_value(d, hex) > max {
        None
    } else {
        Some(digits_value(d, hex))
    }
}

/// An unsigned integer field: in hexadecimal after `0x`, else in decimal.
pub open spec fn integer_field(s: Seq<char>, max: nat) -> Option<nat> {
    if s.len() >= 2 && s[0] == '0' && s[1] == 'x' {
        unsigned_of(s.subrange(2, s.len() as int), true, max)
    } else {
        unsigned_of(s, false, max)
    }
}

/// The value of a digit character.
fn digit(c: char, hex: bool) -> (r: Option<u64>)
    ensures
        r is Some <==> digit_value(c, hex) is Some,
        r is Some ==> r->0 == digit_value(c, hex)->0 && r->0 < radix(hex),
{
    if '0' <= c && c <= '9' {
        Some((c as u32 - '0' as u32) as u64)
    } else if hex && 'a' <= c && c <= 'f' {
        Some((c as u32 - 'a' as u32 + 10) as u64)
    } else if hex && 'A' <= c && c <= 'F' {
        Some((c as u32 - 'A' as u32 + 10) as u64)
    } else {
        None
    }
}

/// A longer string of digits writes a number at least as large.
proof fn lemma_digits_value_push(s: Seq<char>, c: char, hex: bool)
    ensures
        digits_value(s.push(c), hex) == digits_value(s, hex) * radix(hex) + digit_value(c, hex).unwrap_or(0),
{
    assert(s.push(c).drop_last() =~= s);
}

/// Reads an unsigned integer from `s[start..]` as std's `from_str_radix`
/// does, at most `max`.
fn parse_unsigned(s: &Vec<char>, start: usize, hex: bool, max: u64) -> (r: Option<u64>)
    requires
        start <= s.len(),
        max <= 0xFFFF_FFFF,
    ensures
        r matches Some(v) ==> unsigned_of(s@.subrange(start as int, s.len() as int), hex, max as nat) == Some(v as nat),
        r is None ==> unsigned_of(s@.subrange(start as int, s.len() as int), hex, max as nat) is None,
{
    let ghost t = s@.subrange(start as int, s.len() as int);
    let mut i: usize = start;
    if i < s.len() && s[i] == '+' {
        i = i + 1;
    }
    let ghost d = s@.subrange(i as int, s.len() as int);
    proof {
        if t.len() > 0 && t[0] == '+' {
            assert(d =~= t.drop_first());
        } else {
            assert(d =~= t);
        }
    }
    if i == s.len() {
        return None;
    }
    let first = i;
    let r: u64 = radix_of(hex);
    // `value` is the number written so far, or `max + 1` once that is exceeded.
    let mut value: u64 = 0;
    while i < s.len()
        invariant
            first <= i <= s.len(),
            d == s@.subrange(first as int, s.len() as int),
            t == s@.subrange(start as int, s.len() as int),
            d == if t.len() > 0 && t[0] == '+' { t.drop_first() } else { t },
            r == radix(hex),
            max <= 0xFFFF_FFFF,
            all_digits(s@.subrange(first as int, i as int), hex),
            value == if digits_value(s@.subrange(first as int, i as int), hex) > max as nat {
                max as nat + 1
            } else {
                digits_value(s@.subrange(first as int, i as int), hex)
            },
        decreases s.len() - i,
    {
        let c = s[i];
        let ghost p = s@.subrange(first as int, i as int);
        proof {
            assert(s@.subrange(first as int, i + 1) =~= p.push(c));
            lemma_digits_value_push(p, c, hex);
        }
        match digit(c, hex) {
            Some(v) => {
                proof {
                    assert forall|j: int| 0 <= j < i + 1 - first implies (#[trigger] digit_value(
                        s@.subrange(first as int, i + 1)[j],
                        hex,
                    )) is Some by {
                        if j < i - first {
                            assert(s@.subrange(first as int, i + 1)[j] == p[j]);
                        }
                    }
                }
                if value > max {
                    proof {
                        let dv = digits_value(p, hex);
                        assert(dv * radix(hex) >= dv) by (nonlinear_arith)
                            requires dv >= 0, radix(hex) >= 1;
                    }
                } else {
                    proof {
                        assert(value * r + v <= 0xFFFF_FFFF * 16 + 15) by (nonlinear_arith)
                            requires value <= 0xFFFF_FFFF, r <= 16, v < 16;
                    }
                    let next = value * r + v;
                    value = if next > max { max + 1 } else { next };
                }
            },
            None => {
                proof {
                    assert(d[i - first] == c);
                    assert(digit_value(d[i - first], hex) is None);
                    assert(!all_digits(d, hex));
                    assert(t == s@.subrange(start as int, s.len() as int));
                    assert(d == if t.len() > 0 && t[0] == '+' { t.drop_first() } else { t });
                }
                return None;
            },
        }
        i = i + 1;
    }
    proof {
        assert(s@.subrange(first as int, i as int) =~= d);
    }
    if value > max {
        None
    } else {
        Some(value)
    }
}

/// 16 or 10.
fn radix_of(hex: bool) -> (r: u64)
    ensures
        r == radix(hex),
{
    if hex {
        16
    } else {
        10
    }
}

/// Reads an unsigned integer field, at most `max`: hexadecimal after `0x`,
/// else decimal.
pub fn parse_integer_field(s: &Vec<char>, max: u64) -> (r: Option<u64>)
    requires
        max <= 0xFFFF_FFFF,
    ensures
        r matches Some(v) ==> integer_field(s@, max as nat) == Some(v as nat),
        r is None ==> integer_field(s@, max as nat) is None,
{
    if s.len() >= 2 && s[0] == '0' && s[1] == 'x' {
        parse_unsigned(s, 2, true, max)
    } else {
        let r = parse_unsigned(s, 0, false, max);
        proof {
            assert(s@.subrange(0, s.len() as int) =~= s@);
        }
        r
    }
}

/// The name of a kind of transaction in the `type` column.
pub open spec fn kind_name(t: RawTransactionType) -> Seq<char> {
    match t {
        RawTransactionType::Deposit => seq!['d', 'e', 'p', 'o', 's', 'i', 't'],
        RawTransactionType::Withdrawal => seq!['w', 'i', 't', 'h', 'd', 'r', 'a', 'w', 'a', 'l'],
        RawTransactionType::Dispute => seq!['d', 'i', 's', 'p', 'u', 't', 'e'],
        RawTransactionType::Resolve => seq!['r', 'e', 's', 'o', 'l', 'v', 'e'],
        RawTransactionType::Chargeback => seq!['c', 'h', 'a', 'r', 'g', 'e', 'b', 'a', 'c', 'k'],
    }
}

/// The kind of transaction that a `type` field names, if any.
pub open spec fn type_of_text(s: Seq<char>) -> Option<RawTransactionType> {
    if s == kind_name(RawTransactionType::Deposit) {
        Some(RawTransactionType::Deposit)
    } else if s == kind_name(RawTransactionType::Withdrawal) {
        Some(RawTransactionType::Withdrawal)
    } else if s == kind_name(RawTransactionType::Dispute) {
        Some(RawTransactionType::Dispute)
    } else if s == kind_name(RawTransactionType::Resolve) {
        Some(RawTransactionType::Resolve)
    } else if s == kind_name(RawTransactionType::Chargeback) {
        Some(RawTransactionType::Chargeback)
    } else {
        None
    }
}

/// Column `i` is the first that the header names `name`.
pub open spec fn is_first_column(header: Seq<Seq<char>>, name: Seq<char>, i: int) -> bool {
    &&& 0 <= i < header.len()
    &&& header[i] == name
    &&& forall|j: int| 0 <= j < i ==> header[j] != name
}

/// The field of `row` in the first column that the header names `name`, if
/// there is such a column and the row reaches it.
pub open spec fn column_field(header: Seq<Seq<char>>, row: Seq<Seq<char>>, name: Seq<char>) -> Option<Seq<char>> {
    if exists|i: int| is_first_column(header, name, i) {
        let i = choose|i: int| is_first_column(header, name, i);
        if i < row.len() {
            Some(row[i])
        } else {
            None
        }
    } else {
        None
    }
}

/// The name of the column of the kind of transaction.
pub open spec fn type_column() -> Seq<char> {
    seq!['t', 'y', 'p', 'e']
}

/// The name of the column of the client.
pub open spec fn client_column() -> Seq<char> {
    seq!['c', 'l', 'i', 'e', 'n', 't']
}

/// The name of the column of the transaction identifier.
pub open spec fn tx_column() -> Seq<char> {
    seq!['t', 'x']
}

/// The name of the column of the amount.
pub open spec fn amount_column() -> Seq<char> {
    seq!['a', 'm', 'o', 'u', 'n', 't']
}

/// The optional amount: absent where there is no such field or it is empty;
/// an error where the text is no decimal.
pub open spec fn amount_field(f: Option<Seq<char>>) -> Result<Option<Amount>, ()> {
    match f {
        None => Ok(None),
        Some(s) => if s.len() == 0 {
            Ok(None)
        } else {
            match amount_of_text(s) {
                Some(a) => Ok(Some(a)),
                None => Err(()),
            }
        },
    }
}

/// The row read by the header's column names, if every field reads.
pub open spec fn raw_of_row(header: Seq<Seq<char>>, row: Seq<Seq<char>>) -> Option<RawTransaction> {
    match (
        column_field(header, row, type_column()),
        column_field(header, row, client_column()),
        column_field(header, row, tx_column()),
    ) {
        (Some(t), Some(c), Some(x)) => match (
            type_of_text(t),
            integer_field(c, 0xFFFF),
            integer_field(x, 0xFFFF_FFFF),
            amount_field(column_field(header, row, amount_column())),
        ) {
            (Some(kind), Some(client), Some(tx), Ok(amount)) => Some(
                RawTransaction {
                    transaction_type: kind,
                    client: client as u16,
                    transaction: tx as u32,
                    amount,
                },
            ),
            _ => None,
        },
        _ => None,
    }
}

/// A row as a transaction: deposits and withdrawals need an amount; the
/// other kinds drop one that is given.
pub open spec fn transaction_of_raw(raw: RawTransaction) -> Result<Transaction, LedgerError> {
    let q = DisputedTransactionRecord { client: raw.client, transaction: raw.transaction };
    match raw.transaction_type {
        RawTransactionType::Deposit => match raw.amount {
            Some(a) => Ok(
                Transaction::Deposit(
                    MonetaryTransactionRecord { client: raw.client, transaction: raw.transaction, amount: a },
                ),
            ),
            None => Err(LedgerError::Malformed),
        },
        RawTransactionType::Withdrawal => match raw.amount {
            Some(a) => Ok(
                Transaction::Withdrawal(
                    MonetaryTransactionRecord { client: raw.client, transaction: raw.transaction, amount: a },
                ),
            ),
            None => Err(LedgerError::Malformed),
        },
        RawTransactionType::Dispute => Ok(Transaction::Dispute(q)),
        RawTransactionType::Resolve => Ok(Transaction::Resolve(q)),
        RawTransactionType::Chargeback => Ok(Transaction::Chargeback(q)),
    }
}

/// One row after the header, as a transaction or as `Malformed`.
pub open spec fn decode_row(header: Seq<Seq<char>>, row: Option<Seq<Seq<char>>>) -> Result<Transaction, LedgerError> {
    match row {
        None => Err(LedgerError::Malformed),
        Some(r) => match raw_of_row(header, r) {
            None => Err(LedgerError::Malformed),
            Some(raw) => transaction_of_raw(raw),
        },
    }
}

/// The header: the first row, or no columns where it could not be read.
pub open spec fn header_of(rows: Seq<Option<Seq<Seq<char>>>>) -> Seq<Seq<char>> {
    match rows[0] {
        Some(h) => h,
        None => Seq::empty(),
    }
}

/// Every row after the header, decoded.
pub open spec fn transactions_of(rows: Seq<Option<Seq<Seq<char>>>>) -> Seq<Result<Transaction, LedgerError>> {
    if rows.len() == 0 {
        Seq::empty()
    } else {
        rows.drop_first().map_values(|row: Option<Seq<Seq<char>>>| decode_row(header_of(rows), row))
    }
}

/// A vector of characters views as its characters.
proof fn lemma_chars_deep_view(v: Vec<char>)
    ensures
        v.deep_view() == v@,
{
    assert(v.deep_view() =~= v@);
}

/// Whether `a` holds exactly the characters of `b`.
fn chars_equal(a: &Vec<char>, b: &[char]) -> (r: bool)
    ensures
        r == (a@ == b@),
{
    if a.len() != b.len() {
        return false;
    }
    let mut i: usize = 0;
    while i < a.len()
        invariant
            a.len() == b.len(),
            i <= a.len(),
            forall|j: int| 0 <= j < i ==> a@[j] == b@[j],
        decreases a.len() - i,
    {
        if a[i] != b[i] {
            return false;
        }
        i = i + 1;
    }
    proof {
        assert(a@ =~= b@);
    }
    true
}

/// The first column that the header names `name`.
fn find_column(header: &Vec<Vec<char>>, name: &[char]) -> (r: Option<usize>)
    ensures
        r matches Some(i) ==> is_first_column(header.deep_view(), name@, i as int),
        r is None ==> !exists|i: int| is_first_column(header.deep_view(), name@, i),
{
    let mut i: usize = 0;
    while i < header.len()
        invariant
            i <= header.len(),
            forall|j: int| 0 <= j < i ==> header.deep_view()[j] != name@,
        decreases header.len() - i,
    {
        proof {
            lemma_chars_deep_view(header[i as int]);
        }
        if chars_equal(&header[i], name) {
            return Some(i);
        }
        i = i + 1;
    }
    None
}

/// The field of `row` in column `column`, if there is that column and the row
/// reaches it.
fn field_at<'a>(row: &'a Vec<Vec<char>>, column: Option<usize>) -> (r: Option<&'a Vec<char>>)
    ensures
        r matches Some(f) <==> (column matches Some(i) && i < row.len()),
        r matches Some(f) ==> f@ == row.deep_view()[column->0 as int],
{
    match column {
        Some(i) => if i < row.len() {
            proof {
                lemma_chars_deep_view(row[i as int]);
            }
            Some(&row[i])
        } else {
            None
        },
        None => None,
    }
}

/// The columns of the four fields, by the header.
struct Columns {
    kind: Option<usize>,
    client: Option<usize>,
    tx: Option<usize>,
    amount: Option<usize>,
}

/// `column` is where the header puts `name`, if anywhere.
spec fn locates(header: Seq<Seq<char>>, name: Seq<char>, column: Option<usize>) -> bool {
    &&& column matches Some(i) ==> is_first_column(header, name, i as int)
    &&& column is None ==> !exists|i: int| is_first_column(header, name, i)
}

/// The field that `column` locates is the one that `column_field` names.
proof fn lemma_located_field(header: Seq<Seq<char>>, row: Seq<Seq<char>>, name: Seq<char>, column: Option<usize>)
    requires
        locates(header, name, column),
    ensures
        column_field(header, row, name) == match column {
            Some(i) => if i < row.len() {
                Some(row[i as int])
            } else {
                None
            },
            None => None,
        },
{
    if let Some(i) = column {
        let k = choose|k: int| is_first_column(header, name, k);
        assert(is_first_column(header, name, i as int));
        if k < i {
            assert(header[k] != name);
        } else if k > i {
            assert(header[i as int] != name);
        }
    }
}

/// Reads the type field.
fn parse_type(s: &Vec<char>) -> (r: Option<RawTransactionType>)
    ensures
        r == type_of_text(s@),
{
    if chars_equal(s, &['d', 'e', 'p', 'o', 's', 'i', 't']) {
        Some(RawTransactionType::Deposit)
    } else if chars_equal(s, &['w', 'i', 't', 'h', 'd', 'r', 'a', 'w', 'a', 'l']) {
        Some(RawTransactionType::Withdrawal)
    } else if chars_equal(s, &['d', 'i', 's', 'p', 'u', 't', 'e']) {
        Some(RawTransactionType::Dispute)
    } else if chars_equal(s, &['r', 'e', 's', 'o', 'l', 'v', 'e']) {
        Some(RawTransactionType::Resolve)
    } else if chars_equal(s, &['c', 'h', 'a', 'r', 'g', 'e', 'b', 'a', 'c', 'k']) {
        Some(RawTransactionType::Chargeback)
    } else {
        None
    }
}

/// Finds the four columns by their names in the header.
fn locate_columns(header: &Vec<Vec<char>>) -> (r: Columns)
    ensures
        locates(header.deep_view(), type_column(), r.kind),
        locates(header.deep_view(), client_column(), r.client),
        locates(header.deep_view(), tx_column(), r.tx),
        locates(header.deep_view(), amount_column(), r.amount),
{
    proof {
        assert(type_column() =~= ['t', 'y', 'p', 'e']@);
        assert(client_column() =~= ['c', 'l', 'i', 'e', 'n', 't']@);
        assert(tx_column() =~= ['t', 'x']@);
        assert(amount_column() =~= ['a', 'm', 'o', 'u', 'n', 't']@);
    }
    Columns {
        kind: find_column(header, &['t', 'y', 'p', 'e']),
        client: find_column(header, &['c', 'l', 'i', 'e', 'n', 't']),
        tx: find_column(header, &['t', 'x']),
        amount: find_column(header, &['a', 'm', 'o', 'u', 'n', 't']),
    }
}

/// Reads the optional amount field.
fn parse_amount_field(f: Option<&Vec<char>>) -> (r: Result<Option<Amount>, ()>)
    ensures
        r == amount_field(
            match f {
                Some(s) => Some(s@),
                None => None,
            },
        ),
        r matches Ok(Some(a)) ==> a.wf(),
{
    match f {
        None => Ok(None),
        Some(s) => if s.len() == 0 {
            Ok(None)
        } else {
            match parse_amount(s) {
                Some(a) => Ok(Some(a)),
                None => Err(()),
            }
        },
    }
}

/// Reads one row by the header's columns.
fn parse_row(row: &Vec<Vec<char>>, columns: &Columns, header: Ghost<Seq<Seq<char>>>) -> (r: Result<
    RawTransaction,
    LedgerError,
>)
    requires
        locates(header@, type_column(), columns.kind),
        locates(header@, client_column(), columns.client),
        locates(header@, tx_column(), columns.tx),
        locates(header@, amount_column(), columns.amount),
    ensures
        r == match raw_of_row(header@, row.deep_view()) {
            Some(raw) => Ok::<RawTransaction, LedgerError>(raw),
            None => Err(LedgerError::Malformed),
        },
        r matches Ok(raw) ==> (raw.amount matches Some(a) ==> a.wf()),
{
    let t = field_at(row, columns.kind);
    let c = field_at(row, columns.client);
    let x = field_at(row, columns.tx);
    let a = field_at(row, columns.amount);
    proof {
        lemma_located_field(header@, row.deep_view(), type_column(), columns.kind);
        lemma_located_field(header@, row.deep_view(), client_column(), columns.client);
        lemma_located_field(header@, row.deep_view(), tx_column(), columns.tx);
        lemma_located_field(header@, row.deep_view(), amount_column(), columns.amount);
    }
    match (t, c, x) {
        (Some(t), Some(c), Some(x)) => {
            let kind = parse_type(t);
            let client = parse_integer_field(c, 0xFFFF);
            let tx = parse_integer_field(x, 0xFFFF_FFFF);
            let amount = parse_amount_field(a);
            match (kind, client, tx, amount) {
                (Some(kind), Some(client), Some(tx), Ok(amount)) => Ok(
                    RawTransaction {
                        transaction_type: kind,
                        client: client as u16,
                        transaction: tx as u32,
                        amount,
                    },
                ),
                _ => Err(LedgerError::Malformed),
            }
        },
        _ => Err(LedgerError::Malformed),
    }
}

/// Turns a row into a transaction: deposits and withdrawals need an amount;
/// the other kinds drop one that is given.
pub fn raw_to_transaction(raw: RawTransaction) -> (r: Result<Transaction, LedgerError>)
    ensures
        r == transaction_of_raw(raw),
{
    let RawTransaction { transaction_type, client, transaction, amount } = raw;
    match transaction_type {
        RawTransactionType::Deposit => {
            if let Some(amount) = amount {
                Ok(Transaction::Deposit(MonetaryTransactionRecord { client, transaction, amount }))
            } else {
                Err(LedgerError::Malformed)
            }
        },
        RawTransactionType::Withdrawal => {
            if let Some(amount) = amount {
                Ok(Transaction::Withdrawal(MonetaryTransactionRecord { client, transaction, amount }))
            } else {
                Err(LedgerError::Malformed)
            }
        },
        RawTransactionType::Dispute => Ok(
            Transaction::Dispute(DisputedTransactionRecord { client, transaction }),
        ),
        RawTransactionType::Resolve => Ok(
            Transaction::Resolve(DisputedTransactionRecord { client, transaction }),
        ),
        RawTransactionType::Chargeback => Ok(
            Transaction::Chargeback(DisputedTransactionRecord { client, transaction }),
        ),
    }
}

/// Reads every row after the header as a transaction, or as `Malformed`.
pub fn iter_transactions(input: &[u8]) -> (r: Vec<Result<Transaction, LedgerError>>)
    ensures
        r@ == transactions_of(csv_rows(input@)),
        inputs_valid(r@),
{
    let rows = read_csv_rows(input);
    let mut out: Vec<Result<Transaction, LedgerError>> = Vec::new();
    if rows.len() == 0 {
        proof {
            assert(out@ =~= transactions_of(csv_rows(input@)));
        }
        return out;
    }
    let no_columns: Vec<Vec<char>> = Vec::new();
    let header: &Vec<Vec<char>> = match &rows[0] {
        Some(h) => h,
        None => &no_columns,
    };
    let ghost hv = header_of(rows.deep_view());
    proof {
        assert(header.deep_view() =~= hv);
    }
    let columns = locate_columns(header);
    let mut i: usize = 1;
    while i < rows.len()
        invariant
            1 <= i <= rows.len(),
            rows.deep_view() == csv_rows(input@),
            hv == header_of(rows.deep_view()),
            locates(hv, type_column(), columns.kind),
            locates(hv, client_column(), columns.client),
            locates(hv, tx_column(), columns.tx),
            locates(hv, amount_column(), columns.amount),
            out.len() == i - 1,
            forall|k: int| 0 <= k < out.len() ==> #[trigger] out@[k] == decode_row(hv, rows.deep_view()[k + 1]),
            inputs_valid(out@),
        decreases rows.len() - i,
    {
        let decoded = match &rows[i] {
            Some(row) => match parse_row(row, &columns, Ghost(hv)) {
                Ok(raw) => raw_to_transaction(raw),
                Err(e) => Err(e),
            },
            None => Err(LedgerError::Malformed),
        };
        out.push(decoded);
        i = i + 1;
    }
    proof {
        assert(out@ =~= transactions_of(csv_rows(input@)));
    }
    out
}

} // verus!
