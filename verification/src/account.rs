//! Account identifiers, and the handle by which the operator names an
//! account: a number, or a user name to look up.

use vstd::prelude::*;
use vstd::string::*;
use crate::decimal::{append_decimal, decimal};

verus! {

broadcast use vstd::string::group_string_axioms;

/// Whether `c` is one of the two quote characters.
pub open spec fn is_quote(c: char) -> bool {
    c == '"' || c == '\''
}

/// The text without its quote characters.
pub open spec fn without_quotes(text: Seq<char>) -> Seq<char> {
    text.filter(|c: char| !is_quote(c))
}

/// The text without its quote characters.
pub fn strip_quotes(text: &str) -> (stripped: String)
    ensures
        stripped@ == without_quotes(text@),
{
    // Counting the characters once shows that their places can be counted.
    let length: usize = text.unicode_len();
    let mut stripped: String = String::new();
    // The characters from place `kept` up to place `at` are free of quotes
    // and not copied yet.
    let mut kept: usize = 0;
    let mut at: usize = 0;
    for c in iter: text.chars()
        invariant
            iter.seq() == text@,
            length == text@.len(),
            at == iter.index(),
            kept <= at,
            stripped@ + text@.subrange(kept as int, at as int) == without_quotes(
                text@.take(at as int),
            ),
    {
        proof {
            assert(text@.take(at + 1) =~= text@.take(at as int).push(c));
            text@.take(at as int).lemma_filter_push(c, |c: char| !is_quote(c));
        }
        if c == '"' || c == '\'' {
            stripped.append(text.substring_char(kept, at));
            kept = at + 1;
            assert(text@.subrange(kept as int, kept as int) =~= Seq::<char>::empty());
        } else {
            assert(text@.subrange(kept as int, at + 1) =~= text@.subrange(
                kept as int,
                at as int,
            ).push(c));
        }
        at = at + 1;
    }
    stripped.append(text.substring_char(kept, at));
    assert(text@.take(at as int) =~= text@);
    stripped
}

/// Whether `c` is one of the ten decimal digits.
pub open spec fn is_decimal_digit(c: char) -> bool {
    '0' as u32 <= c as u32 && c as u32 <= '9' as u32
}

/// The number that the decimal digit `c` stands for.
pub open spec fn digit_value(c: char) -> nat {
    (c as u32 - '0' as u32) as nat
}

/// Whether `text` holds decimal digits only.
pub open spec fn all_digits(text: Seq<char>) -> bool {
    forall|i: int| 0 <= i < text.len() ==> is_decimal_digit(#[trigger] text[i])
}

/// The number that a sequence of decimal digits writes; zero for none.
pub open spec fn digits_value(digits: Seq<char>) -> nat
    decreases digits.len(),
{
    if digits.len() == 0 {
        0
    } else {
        digits_value(digits.drop_last()) * 10 + digit_value(digits.last())
    }
}

/// How many characters the sign in front of `text` takes: one for a
/// leading `+` or `-`, none otherwise.
pub open spec fn sign_len(text: Seq<char>) -> int {
    if text.len() > 0 && (text[0] == '-' || text[0] == '+') {
        1
    } else {
        0
    }
}

/// The 64-bit signed number that `text` writes in decimal, if it writes
/// one: an optional sign, then at least one digit and nothing but digits,
/// and a value that fits.
pub open spec fn parsed_i64(text: Seq<char>) -> Option<i64> {
    let digits = text.skip(sign_len(text));
    let magnitude = digits_value(digits) as int;
    let value = if text.len() > 0 && text[0] == '-' {
        -magnitude
    } else {
        magnitude
    };
    if digits.len() == 0 || !all_digits(digits) {
        None
    } else if i64::MIN <= value <= i64::MAX {
        Some(value as i64)
    } else {
        None
    }
}

/// The digits so far write no more than all the digits do.
proof fn lemma_digits_value_grows(digits: Seq<char>, k: int)
    requires
        0 <= k <= digits.len(),
    ensures
        digits_value(digits.take(k)) <= digits_value(digits),
    decreases digits.len(),
{
    if k == digits.len() {
        assert(digits.take(k) =~= digits);
    } else {
        lemma_digits_value_grows(digits.drop_last(), k);
        assert(digits.drop_last().take(k) =~= digits.take(k));
    }
}

/// The 64-bit signed number that `text` writes in decimal, if it writes one.
pub fn parse_i64(text: &str) -> (parsed: Option<i64>)
    ensures
        parsed == parsed_i64(text@),
{
    let ghost digits = text@.skip(sign_len(text@));
    let mut at_start: bool = true;
    let mut negative: bool = false;
    let mut any_digit: bool = false;
    let mut magnitude: u64 = 0;
    for c in iter: text.chars()
        invariant
            iter.seq() == text@,
            digits == text@.skip(sign_len(text@)),
            at_start <==> iter.index() == 0,
            negative <==> (iter.index() > 0 && text@[0] == '-'),
            iter.index() > 0 ==> iter.index() >= sign_len(text@),
            any_digit <==> iter.index() > sign_len(text@),
            iter.index() > 0 ==> all_digits(digits.take(iter.index() - sign_len(text@))),
            iter.index() > 0 ==> magnitude == digits_value(
                digits.take(iter.index() - sign_len(text@)),
            ),
            iter.index() == 0 ==> magnitude == 0,
            magnitude <= 0x8000_0000_0000_0000,
            !negative ==> magnitude <= 0x7fff_ffff_ffff_ffff,
    {
        let ghost i = iter.index();
        if at_start && (c == '-' || c == '+') {
            negative = c == '-';
        } else {
            let ghost k = i - sign_len(text@);
            assert(digits[k] == c);
            let code: u32 = c as u32;
            if code < '0' as u32 || code > '9' as u32 {
                return None;
            }
            let wide: u128 = magnitude as u128 * 10 + (code - '0' as u32) as u128;
            proof {
                assert(digits.take(k + 1).drop_last() =~= digits.take(k));
                lemma_digits_value_grows(digits, k + 1);
            }
            if negative {
                if wide > 0x8000_0000_0000_0000 {
                    return None;
                }
            } else {
                if wide > 0x7fff_ffff_ffff_ffff {
                    return None;
                }
            }
            magnitude = wide as u64;
            any_digit = true;
        }
        at_start = false;
    }
    assert(digits.take(digits.len() as int) =~= digits);
    if !any_digit {
        None
    } else if negative {
        if magnitude == 0x8000_0000_0000_0000 {
            Some(i64::MIN)
        } else {
            Some(-(magnitude as i64))
        }
    } else {
        Some(magnitude as i64)
    }
}

/// Whether `number` can identify an account: account identifiers are the
/// positive numbers.
pub open spec fn is_account_number(number: i64) -> bool {
    number > 0
}

/// The identifier of an account. It is always a positive number.
#[derive(Clone, Copy, Debug, PartialEq, Eq)]
pub struct AccountId {
    number: i64,
}

impl View for AccountId {
    type V = i64;

    closed spec fn view(&self) -> i64 {
        self.number
    }
}

impl AccountId {
    #[verifier::type_invariant]
    spec fn positive(self) -> bool {
        is_account_number(self.number)
    }

    /// The account identifier `number`. There is none where `number` is not
    /// positive.
    pub fn new(number: i64) -> (id: Option<AccountId>)
        ensures
            id is Some <==> is_account_number(number),
            id matches Some(account) ==> account@ == number,
    {
        if number > 0 {
            Some(AccountId { number })
        } else {
            None
        }
    }

    /// The identifier as a number.
    pub fn number(&self) -> (number: i64)
        ensures
            number == self@,
            is_account_number(number),
    {
        proof {
            use_type_invariant(self);
        }
        self.number
    }
}

/// The handle of an account, as the operator gave it.
#[derive(Clone, Debug, PartialEq, Eq)]
pub enum AccountHandle {
    /// The account's identifier.
    Id(AccountId),
    /// The account's user name, to be looked up.
    Name(String),
    /// A number that identifies no account, because it is not positive.
    NoAccount(i64),
}

/// What an [`AccountHandle`] holds, as plain values.
pub ghost enum AccountHandleView {
    Id(i64),
    Name(Seq<char>),
    NoAccount(i64),
}

impl View for AccountHandle {
    type V = AccountHandleView;

    open spec fn view(&self) -> AccountHandleView {
        match self {
            AccountHandle::Id(id) => AccountHandleView::Id(id@),
            AccountHandle::Name(name) => AccountHandleView::Name(name@),
            AccountHandle::NoAccount(number) => AccountHandleView::NoAccount(*number),
        }
    }
}

/// What the operator's input names. Where the input writes a number, it
/// names the account with that identifier if the number is positive, and
/// no account if it is not. Any other input names a user: the user name is
/// what is left when the quotes are taken out, so that quotes let a user
/// name be given that is all digits.
pub open spec fn handle_of(input: Seq<char>) -> AccountHandleView {
    match parsed_i64(input) {
        Some(number) => if is_account_number(number) {
            AccountHandleView::Id(number)
        } else {
            AccountHandleView::NoAccount(number)
        },
        None => AccountHandleView::Name(without_quotes(input)),
    }
}

/// What the operator's input names.
pub fn classify_handle(input: &str) -> (handle: AccountHandle)
    ensures
        handle@ == handle_of(input@),
{
    match parse_i64(input) {
        Some(number) => match AccountId::new(number) {
            Some(id) => AccountHandle::Id(id),
            None => AccountHandle::NoAccount(number),
        },
        None => AccountHandle::Name(strip_quotes(input)),
    }
}

/// The address that resolves a user name to an account.
pub fn username_lookup_url(name: &str) -> (url: String)
    ensures
        url@ == "https://api.roblox.com/users/get-by-username?username="@ + name@,
{
    let mut url: String = String::from_str(
        "https://api.roblox.com/users/get-by-username?username=",
    );
    url.append(name);
    url
}

/// The address that tells whether an account is restricted.
pub fn account_status_url(account: AccountId) -> (url: String)
    ensures
        url@ == "https://users.roblox.com/v1/users/"@ + decimal(account@ as nat),
{
    let mut url: String = String::from_str("https://users.roblox.com/v1/users/");
    append_decimal(&mut url, account.number() as u128);
    url
}

} // verus!
