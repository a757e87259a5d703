use vstd::prelude::*;

verus! {

/// Width that a one-time code is zero-padded to.
pub const CODE_DIGITS: usize = 6;

/// The decimal digit character of `d`.
pub open spec fn digit_char(d: nat) -> char
    recommends
        d < 10,
{
    ((48 + d) as u8) as char
}

/// Decimal digits of `n`, most significant first, without leading zeros.
pub open spec fn decimal(n: nat) -> Seq<char>
    decreases n,
{
    if n < 10 {
        seq![digit_char(n)]
    } else {
        decimal(n / 10).push(digit_char(n % 10))
    }
}

/// Decimal digits of `n`, left-padded with '0' to at least `width` characters.
pub open spec fn zero_padded(n: nat, width: nat) -> Seq<char> {
    let digits = decimal(n);
    if digits.len() < width {
        Seq::new((width - digits.len()) as nat, |i: int| '0') + digits
    } else {
        digits
    }
}

/// The text of a one-time code: six digits, zero padded.
pub open spec fn code_text(code: u32) -> Seq<char> {
    zero_padded(code as nat, CODE_DIGITS as nat)
}

/// The payment page link that the QR symbol carries for a user and a code.
pub open spec fn payment_url_text(totp: u32, userid: Seq<char>) -> Seq<char> {
    "https://srln.pl/view/dashboard?ploy="@ + userid + "&pay="@ + code_text(totp)
}

/// Appends a character with `String::push`, which its documentation says
/// appends the given char to the end of the string.
#[verifier::external_body]
fn push_char(s: &mut String, c: char)
    ensures
        final(s)@ == old(s)@.push(c),
{
    s.push(c);
}

fn digit(d: u32) -> (c: char)
    requires
        d < 10,
    ensures
        c == digit_char(d as nat),
{
    let v: u8 = 48 + d as u8;
    v as char
}

spec fn pow10(k: nat) -> nat
    decreases k,
{
    if k == 0 {
        1
    } else {
        10 * pow10((k - 1) as nat)
    }
}

proof fn lemma_decimal_len(n: nat, k: nat)
    requires
        1 <= k,
        n < pow10(k),
    ensures
        1 <= decimal(n).len() <= k,
        n < 10 <==> decimal(n).len() == 1,
    decreases n,
{
    if n >= 10 {
        if k == 1 {
            assert(pow10(1) == 10) by {
                reveal_with_fuel(pow10, 2);
            }
        }
        assert(pow10(k) == 10 * pow10((k - 1) as nat));
        lemma_decimal_len(n / 10, (k - 1) as nat);
    }
}

proof fn lemma_pow10_facts()
    ensures
        pow10(6) == 1_000_000,
        pow10(10) == 10_000_000_000,
{
    reveal_with_fuel(pow10, 11);
}

fn decimal_len(n: u32) -> (len: usize)
    ensures
        len == decimal(n as nat).len(),
        len <= 10,
    decreases n,
{
    proof {
        lemma_pow10_facts();
        lemma_decimal_len(n as nat, 10);
    }
    if n < 10 {
        1
    } else {
        let rest = decimal_len(n / 10);
        assert(decimal(n as nat) == decimal((n / 10) as nat).push(digit_char((n % 10) as nat)));
        rest + 1
    }
}

fn push_decimal(s: &mut String, n: u32)
    ensures
        final(s)@ == old(s)@ + decimal(n as nat),
    decreases n,
{
    if n >= 10 {
        push_decimal(s, n / 10);
    }
    push_char(s, digit(n % 10));
    assert(decimal(n as nat) =~= if n < 10 {
        seq![digit_char(n as nat)]
    } else {
        decimal((n / 10) as nat).push(digit_char((n % 10) as nat))
    });
}

/// Writes `code` as the terminal shows it and the link carries it: decimal,
/// left-padded with zeros to six digits (longer numbers keep all digits).
pub fn six_digit_code(code: u32) -> (text: String)
    ensures
        text@ == code_text(code),
{
    let mut text = String::new();
    let len = decimal_len(code);
    let mut pad: usize = 0;
    while pad + len < CODE_DIGITS
        invariant
            len == decimal(code as nat).len(),
            text@ == Seq::new(pad as nat, |i: int| '0'),
            pad + len <= CODE_DIGITS || pad == 0,
        decreases CODE_DIGITS - pad,
    {
        push_char(&mut text, '0');
        pad += 1;
        assert(text@ =~= Seq::new(pad as nat, |i: int| '0'));
    }
    push_decimal(&mut text, code);
    assert(text@ =~= code_text(code));
    text
}

/// The payment page link for `userid` and the one-time code `totp`.
pub fn payment_url(totp: u32, userid: &str) -> (url: String)
    ensures
        url@ == payment_url_text(totp, userid@),
{
    let mut url = String::from_str("https://srln.pl/view/dashboard?ploy=");
    url.append(userid);
    url.append("&pay=");
    let code = six_digit_code(totp);
    url.append(code.as_str());
    url
}

/// A code below one million is written with exactly six digits.
pub proof fn lemma_code_text_has_six_digits(code: u32)
    requires
        code < 1_000_000,
    ensures
        code_text(code).len() == CODE_DIGITS,
{
    lemma_pow10_facts();
    lemma_decimal_len(code as nat, 6);
}

} // verus!
