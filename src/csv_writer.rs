//! Writing the accounts as comma-separated text: a header row, then one row
//! per account with its client, available, held and total funds, and whether
//! it is locked. No accounts give no text at all.

use vstd::prelude::*;
use rust_decimal::Decimal;
use crate::amount::{exact_sum, Amount};
use crate::types::Account;

verus! {

/// The bytes that csv's `Writer` writes for one record with these fields.
pub uninterp spec fn csv_line(fields: Seq<Seq<char>>) -> Seq<u8>;

/// The digits of a magnitude, none for zero, with leading zeros up to
/// `scale` digits.
pub open spec fn padded_digits(magnitude: nat, scale: nat) -> Seq<char> {
    let d = if magnitude == 0 {
        Seq::<char>::empty()
    } else {
        digits_text(magnitude)
    };
    if d.len() < scale {
        Seq::new((scale - d.len()) as nat, |i: int| '0') + d
    } else {
        d
    }
}

/// The text of a decimal with this mantissa and scale: a `-` for a negative
/// one, the whole digits (`0` where there are none), and after a `.` exactly
/// `scale` fraction digits.
pub open spec fn decimal_text(mantissa: int, scale: int) -> Seq<char> {
    let magnitude = if mantissa < 0 { -mantissa } else { mantissa };
    let p = padded_digits(magnitude as nat, scale as nat);
    let w = p.len() - scale;
    let body = if scale == 0 {
        if p.len() == 0 {
            seq!['0']
        } else {
            p
        }
    } else {
        (if w == 0 {
            seq!['0']
        } else {
            p.subrange(0, w)
        }) + seq!['.'] + p.subrange(w, p.len() as int)
    };
    if mantissa < 0 {
        seq!['-'] + body
    } else {
        body
    }
}

/// Relies on csv's `Writer::write_record` and `into_inner`: the bytes of one
/// record. Writing a single record into a `Vec` cannot fail: no earlier
/// record can differ in length, and writing into memory has no I/O error.
#[verifier::external_body]
fn write_csv_line(fields: &Vec<Vec<char>>) -> (r: Vec<u8>)
    ensures
        r@ == csv_line(fields.deep_view()),
{
    let record: Vec<String> = fields.iter().map(|f| f.iter().collect()).collect();
    let mut writer = csv::WriterBuilder::new().from_writer(Vec::new());
    writer.write_record(&record).expect("a record written to memory");
    writer.into_inner().expect("a buffer in memory")
}

/// Relies on rust_decimal's `Display for Decimal` (the text its `Serialize`
/// writes too): the digits of the mantissa, padded with zeros to the scale,
/// with the point placed by the scale.
#[verifier::external_body]
fn amount_text(a: &Amount) -> (r: Vec<char>)
    requires
        a.wf(),
    ensures
        r@ == decimal_text(a.mantissa as int, a.scale as int),
{
    Decimal::from_i128_with_scale(a.mantissa, a.scale).to_string().chars().collect()
}

/// The decimal digits of `n`, without leading zeros.
pub open spec fn digits_text(n: nat) -> Seq<char>
    decreases n,
{
    if n < 10 {
        seq![digit_char(n)]
    } else {
        digits_text(n / 10).push(digit_char(n % 10))
    }
}

/// The character of a decimal digit.
pub open spec fn digit_char(d: nat) -> char {
    ('0' as u32 + d) as char
}

/// `true` or `false`.
pub open spec fn bool_text(b: bool) -> Seq<char> {
    if b {
        seq!['t', 'r', 'u', 'e']
    } else {
        seq!['f', 'a', 'l', 's', 'e']
    }
}

/// The names of the columns.
pub open spec fn header_fields() -> Seq<Seq<char>> {
    seq![
        seq!['c', 'l', 'i', 'e', 'n', 't'],
        seq!['a', 'v', 'a', 'i', 'l', 'a', 'b', 'l', 'e'],
        seq!['h', 'e', 'l', 'd'],
        seq!['t', 'o', 't', 'a', 'l'],
        seq!['l', 'o', 'c', 'k', 'e', 'd'],
    ]
}

/// The text of an amount.
pub open spec fn amount_text_of(a: Amount) -> Seq<char> {
    decimal_text(a.mantissa as int, a.scale as int)
}

/// The fields of one account; its total is the exact sum of available and
/// held.
pub open spec fn account_fields(a: Account) -> Seq<Seq<char>> {
    seq![
        digits_text(a.client as nat),
        amount_text_of(a.available),
        amount_text_of(a.held),
        amount_text_of(exact_sum(a.available, a.held)),
        bool_text(a.locked),
    ]
}

/// The records of a table: the header, then each account; none for no
/// accounts.
pub open spec fn table_rows(accounts: Seq<Account>) -> Seq<Seq<Seq<char>>> {
    if accounts.len() == 0 {
        Seq::empty()
    } else {
        seq![header_fields()] + accounts.map_values(|a: Account| account_fields(a))
    }
}

/// The bytes of the records one after another.
pub open spec fn csv_text(rows: Seq<Seq<Seq<char>>>) -> Seq<u8>
    decreases rows.len(),
{
    if rows.len() == 0 {
        Seq::empty()
    } else {
        csv_text(rows.drop_last()) + csv_line(rows.last())
    }
}

/// The decimal digits of `n`.
fn digits(n: u32) -> (r: Vec<char>)
    ensures
        r@ == digits_text(n as nat),
    decreases n,
{
    let d = char_of_digit(n % 10);
    if n < 10 {
        let mut r: Vec<char> = Vec::new();
        r.push(d);
        proof {
            assert(r@ =~= seq![digit_char(n as nat)]);
        }
        r
    } else {
        let mut r = digits(n / 10);
        r.push(d);
        r
    }
}

/// The character of a decimal digit.
fn char_of_digit(d: u32) -> (r: char)
    requires
        d < 10,
    ensures
        r == digit_char(d as nat),
{
    if d == 0 { '0' } else if d == 1 { '1' } else if d == 2 { '2' } else if d == 3 { '3' } else if d == 4 {
        '4'
    } else if d == 5 { '5' } else if d == 6 { '6' } else if d == 7 { '7' } else if d == 8 { '8' } else {
        '9'
    }
}

/// The characters of a word.
fn chars_of(w: &[char]) -> (r: Vec<char>)
    ensures
        r@ == w@,
{
    let mut r: Vec<char> = Vec::new();
    let mut i: usize = 0;
    while i < w.len()
        invariant
            i <= w.len(),
            r@ == w@.subrange(0, i as int),
        decreases w.len() - i,
    {
        r.push(w[i]);
        proof {
            assert(r@ =~= w@.subrange(0, i + 1));
        }
        i = i + 1;
    }
    proof {
        assert(r@ =~= w@);
    }
    r
}

/// The fields of the header row.
fn header_row() -> (r: Vec<Vec<char>>)
    ensures
        r.deep_view() == header_fields(),
{
    let mut r: Vec<Vec<char>> = Vec::new();
    r.push(chars_of(&['c', 'l', 'i', 'e', 'n', 't']));
    r.push(chars_of(&['a', 'v', 'a', 'i', 'l', 'a', 'b', 'l', 'e']));
    r.push(chars_of(&['h', 'e', 'l', 'd']));
    r.push(chars_of(&['t', 'o', 't', 'a', 'l']));
    r.push(chars_of(&['l', 'o', 'c', 'k', 'e', 'd']));
    proof {
        lemma_fields_deep_view(&r);
        assert(r.deep_view() =~= header_fields());
    }
    r
}

/// The fields of one account's row, if its total is an exact decimal.
fn account_row(a: &Account) -> (r: Option<Vec<Vec<char>>>)
    requires
        a.available.wf(),
        a.held.wf(),
    ensures
        r is Some ==> r->0.deep_view() == account_fields(*a),
        crate::amount::sum_fits(a.available, a.held) ==> r is Some,
{
    match a.total() {
        Some(total) => {
            let mut r: Vec<Vec<char>> = Vec::new();
            r.push(digits(a.client as u32));
            r.push(amount_text(&a.available));
            r.push(amount_text(&a.held));
            r.push(amount_text(&total));
            let locked = if a.locked {
                chars_of(&['t', 'r', 'u', 'e'])
            } else {
                chars_of(&['f', 'a', 'l', 's', 'e'])
            };
            r.push(locked);
            proof {
                lemma_fields_deep_view(&r);
                assert(r.deep_view() =~= account_fields(*a));
            }
            Some(r)
        },
        None => None,
    }
}

/// The amounts of every account are in range.
pub open spec fn accounts_valid(accounts: Seq<Account>) -> bool {
    forall|i: int| 0 <= i < accounts.len() ==> (#[trigger] accounts[i]).available.wf() && accounts[i].held.wf()
}

/// Each field of a row views as its characters.
proof fn lemma_fields_deep_view(r: &Vec<Vec<char>>)
    ensures
        r.deep_view().len() == r.len(),
        forall|i: int| 0 <= i < r.len() ==> r.deep_view()[i] == (#[trigger] r[i])@,
{
    assert forall|i: int| 0 <= i < r.len() implies r.deep_view()[i] == (#[trigger] r[i])@ by {
        assert(r[i].deep_view() =~= r[i]@);
    }
}

/// Writes the accounts as comma-separated text: the header row and one row
/// per account, or nothing for no accounts. Fails exactly where the total of
/// an account is no exact decimal.
pub fn write_accounts(accounts: &Vec<Account>) -> (r: Option<Vec<u8>>)
    requires
        accounts_valid(accounts@),
    ensures
        r is Some ==> r->0@ == csv_text(table_rows(accounts@)),
        r is None ==> exists|i: int|
            0 <= i < accounts.len() && !crate::amount::sum_fits(
                #[trigger] accounts@[i].available,
                accounts@[i].held,
            ),
{
    let mut out: Vec<u8> = Vec::new();
    if accounts.len() == 0 {
        proof {
            assert(table_rows(accounts@) =~= Seq::<Seq<Seq<char>>>::empty());
        }
        return Some(out);
    }
    let ghost rows = table_rows(accounts@);
    let header = header_row();
    let mut line = write_csv_line(&header);
    let ghost written = line@;
    out.append(&mut line);
    proof {
        assert(rows.subrange(0, 1).drop_last() =~= Seq::<Seq<Seq<char>>>::empty());
        assert(rows.subrange(0, 1).last() == header_fields());
        assert(out@ =~= Seq::<u8>::empty() + written);
        assert(csv_text(Seq::<Seq<Seq<char>>>::empty()) == Seq::<u8>::empty());
    }
    let mut i: usize = 0;
    while i < accounts.len()
        invariant
            accounts_valid(accounts@),
            rows == table_rows(accounts@),
            rows.len() == accounts.len() + 1,
            i <= accounts.len(),
            csv_text(rows.subrange(0, i + 1)) == out@,
        decreases accounts.len() - i,
    {
        let ghost prefix = rows.subrange(0, i + 2);
        proof {
            assert(prefix.drop_last() =~= rows.subrange(0, i + 1));
            assert(prefix.last() == account_fields(accounts@[i as int]));
        }
        match account_row(&accounts[i]) {
            Some(row) => {
                let ghost before = out@;
                let mut line = write_csv_line(&row);
                let ghost written = line@;
                out.append(&mut line);
                proof {
                    assert(out@ =~= before + written);
                }
            },
            None => {
                return None;
            },
        }
        i = i + 1;
    }
    proof {
        assert(rows.subrange(0, i + 1) =~= rows);
    }
    Some(out)
}

} // verus!
