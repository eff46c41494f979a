//! Text that goes out to the console or into the network: numbers, chat lines, message ids.
use std::collections::hash_map::DefaultHasher;
use std::hash::{Hash, Hasher};
use std::string::FromUtf8Error;
use vstd::prelude::*;
use vstd::string::StringExecFns;

verus! {

use vstd::arithmetic::div_mod::lemma_div_denominator;
use vstd::arithmetic::power::{lemma_pow0, lemma_pow1, lemma_pow_positive, pow};
use vstd::std_specs::hash::DefaultHasherAdditionalSpecFns;
use vstd::utf8::{decode_utf8, valid_utf8};

/// `std::string::FromUtf8Error`: an opaque value, of which nothing is said.
#[verifier::external_type_specification]
#[verifier::external_body]
pub struct ExFromUtf8Error(FromUtf8Error);

/// `String::from_utf8` takes exactly the valid UTF-8 byte vectors, and gives the text that they
/// encode.
pub assume_specification[ String::from_utf8 ](vec: Vec<u8>) -> (r: Result<String, FromUtf8Error>)
    ensures
        r is Ok <==> valid_utf8(vec@),
        r matches Ok(s) ==> s@ == decode_utf8(vec@),
;

/// The text that `String::from_utf8_lossy` makes of bytes.
pub uninterp spec fn lossy_text(bytes: Seq<u8>) -> Seq<char>;

/// `String::from_utf8_lossy`: the text that the bytes encode where they are valid UTF-8, and else
/// a text that depends on the bytes alone (with U+FFFD in the place of what is invalid; which
/// stretches count as one is left unsaid).
#[verifier::external_body]
fn from_utf8_lossy(bytes: &[u8]) -> (text: String)
    ensures
        text@ == lossy_text(bytes@),
        valid_utf8(bytes@) ==> text@ == decode_utf8(bytes@),
{
    String::from_utf8_lossy(bytes).into_owned()
}

/// `fed` is what some machine feeds a hasher for `bytes`. Machines differ in this: the length goes
/// in with the byte order and the width that it has there.
pub uninterp spec fn slice_feeds(bytes: Seq<u8>, fed: Seq<Seq<u8>>) -> bool;

/// `Hash::hash` of a byte slice: feeds the hasher what this machine feeds for the bytes, behind
/// what it was fed before. That a machine feeds the same each time is left unsaid.
#[verifier::external_body]
fn hash_bytes(bytes: &[u8], hasher: &mut DefaultHasher)
    ensures
        old(hasher)@.is_prefix_of(final(hasher)@),
        slice_feeds(bytes@, final(hasher)@.skip(old(hasher)@.len() as int)),
{
    bytes.hash(hasher)
}

/// The decimal digit of `d`.
pub open spec fn digit(d: nat) -> char {
    ('0' as nat + d) as char
}

/// The decimal digits of `n`, without leading zeros.
pub open spec fn decimal_text(n: nat) -> Seq<char>
    decreases n,
{
    if n < 10 {
        seq![digit(n)]
    } else {
        decimal_text(n / 10).push(digit(n % 10))
    }
}

fn digit_text(d: u64) -> (text: &'static str)
    requires
        d < 10,
    ensures
        text@ == seq![digit(d as nat)],
{
    proof {
        reveal_strlit("0");
        reveal_strlit("1");
        reveal_strlit("2");
        reveal_strlit("3");
        reveal_strlit("4");
        reveal_strlit("5");
        reveal_strlit("6");
        reveal_strlit("7");
        reveal_strlit("8");
        reveal_strlit("9");
    }
    match d {
        0 => "0",
        1 => "1",
        2 => "2",
        3 => "3",
        4 => "4",
        5 => "5",
        6 => "6",
        7 => "7",
        8 => "8",
        _ => "9",
    }
}

/// `n` in decimal.
pub fn decimal(n: u64) -> (text: String)
    ensures
        text@ == decimal_text(n as nat),
        text@.len() >= 1,
        n < pow(10, text@.len()),
        text@.len() > 1 ==> n >= pow(10, (text@.len() - 1) as nat),
        forall|i: int|
            0 <= i < text@.len() ==> #[trigger] text@[i] as int == '0' as int + n as int / pow(
                10,
                (text@.len() - 1 - i) as nat,
            ) % 10,
    decreases n,
{
    proof {
        law_decimal_is_positional(n as nat);
    }
    if n < 10 {
        digit_text(n).to_owned()
    } else {
        let mut text = decimal(n / 10);
        text.append(digit_text(n % 10));
        text
    }
}

/// The id of a message whose content has the given hash: the hash in decimal.
pub fn message_id_of(hash: u64) -> (id: String)
    ensures
        id@ == decimal_text(hash as nat),
        id@.len() >= 1,
        hash < pow(10, id@.len()),
        id@.len() > 1 ==> hash >= pow(10, (id@.len() - 1) as nat),
        forall|i: int|
            0 <= i < id@.len() ==> #[trigger] id@[i] as int == '0' as int + hash as int / pow(
                10,
                (id@.len() - 1 - i) as nat,
            ) % 10,
{
    decimal(hash)
}

/// The id of a message: the decimal form of a 64-bit hash of its content. What a hasher is fed for
/// the content differs from machine to machine, so that equal contents have equal ids is not
/// stated.
pub fn message_id(data: &[u8]) -> (id: String)
    ensures
        exists|fed: Seq<Seq<u8>>| #[trigger]
            slice_feeds(data@, fed) && id@ == decimal_text(DefaultHasher::spec_finish(fed) as nat),
{
    let mut hasher = DefaultHasher::new();
    hash_bytes(data, &mut hasher);
    proof {
        assert(hasher@.skip(0) =~= hasher@);
        assert(slice_feeds(data@, hasher@));
    }
    message_id_of(hasher.finish())
}

/// The console line for what a peer said: the peer, a colon and the text.
pub fn chat_line_of(peer: &str, text: &str) -> (line: String)
    ensures
        line@ == peer@ + ": "@ + text@,
{
    let mut line = peer.to_owned();
    line.append(": ");
    line.append(text);
    line
}

/// The console line for a message from a peer. Bytes that are not text are replaced.
pub fn chat_line(peer: &str, data: &[u8]) -> (line: String)
    ensures
        line@ == peer@ + ": "@ + lossy_text(data@),
        valid_utf8(data@) ==> line@ == peer@ + ": "@ + decode_utf8(data@),
{
    let text = from_utf8_lossy(data);
    chat_line_of(peer, text.as_str())
}

/// The decimal form is positional: the digit with `k` digits behind it counts the powers of ten
/// with the exponent `k`. There are as many digits as the number needs, and at least one.
pub proof fn law_decimal_is_positional(n: nat)
    ensures
        decimal_text(n).len() >= 1,
        n < pow(10, decimal_text(n).len()),
        decimal_text(n).len() > 1 ==> n >= pow(10, (decimal_text(n).len() - 1) as nat),
        forall|i: int|
            0 <= i < decimal_text(n).len() ==> #[trigger] decimal_text(n)[i] as int == '0' as int
                + n as int / pow(10, (decimal_text(n).len() - 1 - i) as nat) % 10,
    decreases n,
{
    let text = decimal_text(n);
    let len = text.len();
    reveal(pow);
    if n < 10 {
        lemma_pow0(10);
        lemma_pow1(10);
        assert(n as int / 1 % 10 == n);
    } else {
        let front = decimal_text(n / 10);
        law_decimal_is_positional(n / 10);
        assert(len == front.len() + 1);
        assert(pow(10, len) == 10 * pow(10, front.len()));
        assert(n < pow(10, len));
        if front.len() > 1 {
            assert(pow(10, front.len()) == 10 * pow(10, (front.len() - 1) as nat));
        } else {
            lemma_pow1(10);
        }
        assert forall|i: int| 0 <= i < len implies #[trigger] text[i] as int == '0' as int
            + n as int / pow(10, (len - 1 - i) as nat) % 10 by {
            if i == len - 1 {
                lemma_pow0(10);
                assert(n as int / 1 == n);
            } else {
                let k = (front.len() - 1 - i) as nat;
                assert(text[i] == front[i]);
                lemma_pow_positive(10, k);
                lemma_div_denominator(n as int, 10, pow(10, k));
                assert(pow(10, (len - 1 - i) as nat) == 10 * pow(10, k));
            }
        }
    }
}

/// Different numbers have different decimal forms, so messages with different hashes have
/// different ids.
pub proof fn law_decimal_tells_numbers_apart(a: nat, b: nat)
    requires
        decimal_text(a) == decimal_text(b),
    ensures
        a == b,
    decreases a,
{
    let (s, t) = (decimal_text(a), decimal_text(b));
    lemma_decimal_len(a);
    lemma_decimal_len(b);
    if a >= 10 {
        assert(s.drop_last() =~= decimal_text(a / 10));
        assert(t.drop_last() =~= decimal_text(b / 10));
        assert(s.last() == digit(a % 10));
        assert(t.last() == digit(b % 10));
        law_decimal_tells_numbers_apart(a / 10, b / 10);
    } else {
        assert(s[0] == digit(a));
        assert(t[0] == digit(b));
    }
}

proof fn lemma_decimal_len(n: nat)
    ensures
        n < 10 <==> decimal_text(n).len() == 1,
        decimal_text(n).len() >= 1,
    decreases n,
{
    if n >= 10 {
        lemma_decimal_len(n / 10);
    }
}

} // verus!
