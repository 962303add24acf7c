//! Strings that the rest of the library builds and searches.

use vstd::prelude::*;
use vstd::string::*;
use vstd::utf8::*;

verus! {

/// A text in the quoted form in which messages show it, as the `Debug` of
/// `str` writes it.
pub uninterp spec fn debug_text(text: Seq<char>) -> Seq<char>;

/// Bytes as text, as `String::from_utf8_lossy` gives it.
pub uninterp spec fn lossy_text(bytes: Seq<u8>) -> Seq<char>;

/// Whether a text occurs in another.
pub open spec fn occurs(text: Seq<char>, part: Seq<char>) -> bool {
    exists|at: int|
        0 <= at <= text.len() - part.len() && #[trigger] text.subrange(at, at + part.len()) == part
}

/// Formats a `str` with `Debug`: its quoted form.
#[verifier::external_body]
pub(crate) fn quoted(text: &str) -> (quoted: String)
    ensures
        quoted@ == debug_text(text@),
{
    format!("{text:?}")
}

/// Calls `String::from_utf8_lossy`: bytes that are UTF-8 are decoded as they
/// stand, and each maximal run that is not is replaced by U+FFFD.
#[verifier::external_body]
pub(crate) fn lossy(bytes: &[u8]) -> (text: String)
    ensures
        text@ == lossy_text(bytes@),
        valid_utf8(bytes@) ==> text@ == decode_utf8(bytes@),
{
    String::from_utf8_lossy(bytes).into_owned()
}

/// The characters of a text.
fn characters_of(text: &str) -> (characters: Vec<char>)
    ensures
        characters@ == text@,
{
    let mut characters: Vec<char> = Vec::new();
    for c in it: text.chars()
        invariant
            it.seq() == text@,
            characters@ == text@.take(it.index() as int),
    {
        assert(c == text@[it.index() as int]);
        assert(text@.take(it.index() + 1) =~= text@.take(it.index() as int).push(c));
        characters.push(c);
    }
    assert(text@.take(text@.len() as int) =~= text@);
    characters
}

/// Whether a text occurs in another.
pub fn contains(text: &str, part: &str) -> (found: bool)
    ensures
        found == occurs(text@, part@),
{
    let all = characters_of(text);
    let wanted = characters_of(part);
    if wanted.len() > all.len() {
        return false;
    }
    let mut at: usize = 0;
    while at <= all.len() - wanted.len()
        invariant
            all@ == text@,
            wanted@ == part@,
            wanted@.len() <= all@.len(),
            at <= all@.len() - wanted@.len() + 1,
            forall|k: int| 0 <= k < at ==> #[trigger] text@.subrange(k, k + part@.len()) != part@,
        decreases all@.len() - wanted@.len() + 1 - at,
    {
        let mut same: usize = 0;
        let length: usize = all.len();
        while same < wanted.len() && all[at + same] == wanted[same]
            invariant
                all@ == text@,
                wanted@ == part@,
                same <= wanted@.len(),
                at + wanted@.len() <= length,
                length == all@.len(),
                forall|i: int| 0 <= i < same ==> all@[at + i] == #[trigger] wanted@[i],
            decreases wanted@.len() - same,
        {
            same += 1;
        }
        let ghost window = text@.subrange(at as int, at + part@.len());
        if same == wanted.len() {
            assert(window =~= part@);
            return true;
        }
        assert(window[same as int] != part@[same as int]);
        if at == all.len() - wanted.len() {
            return false;
        }
        at += 1;
    }
    false
}

/// A decimal digit.
pub open spec fn digit(n: nat) -> char
    recommends
        n < 10,
{
    ('0' as int + n) as char
}

/// A number in decimal.
pub open spec fn decimal(n: nat) -> Seq<char>
    decreases n,
{
    if n < 10 {
        seq![digit(n)]
    } else {
        decimal(n / 10).push(digit(n % 10))
    }
}

/// A number in decimal with zeros in front, at least six digits long.
pub open spec fn six_digits(n: nat) -> Seq<char> {
    let digits = decimal(n);
    if digits.len() < 6 {
        Seq::new((6 - digits.len()) as nat, |i: int| '0') + digits
    } else {
        digits
    }
}

fn digit_text(n: u64) -> (text: &'static str)
    requires
        n < 10,
    ensures
        text@ == seq![digit(n as nat)],
{
    proof {
        reveal_strlit("0");
        reveal_strlit("1");
        reveal_strlit("2");
        reveal_strlit("3");
        reveal_strlit("4");
        reveal_strlit("5");
        reveal_strlit("6");
        reveal_strlit("7");
        reveal_strlit("8");
        reveal_strlit("9");
    }
    let text: &'static str = match n {
        0 => "0",
        1 => "1",
        2 => "2",
        3 => "3",
        4 => "4",
        5 => "5",
        6 => "6",
        7 => "7",
        8 => "8",
        _ => "9",
    };
    assert(text@ =~= seq![digit(n as nat)]);
    text
}

/// A number in decimal.
pub fn number(n: u64) -> (text: String)
    ensures
        text@ == decimal(n as nat),
    decreases n,
{
    if n < 10 {
        digit_text(n).to_owned()
    } else {
        let text = number(n / 10).concat(digit_text(n % 10));
        assert(text@ =~= decimal(n as nat / 10).push(digit(n as nat % 10)));
        text
    }
}

/// A number in decimal, padded with zeros to six digits.
pub fn padded_number(n: u64) -> (text: String)
    ensures
        text@ == six_digits(n as nat),
{
    let digits = number(n);
    let mut zeros = String::new();
    let length = digits.as_str().unicode_len();
    let mut i: usize = length;
    while i < 6
        invariant
            length <= i,
            length < 6 ==> i <= 6,
            length >= 6 ==> i == length,
            zeros@ == Seq::new((i - length) as nat, |k: int| '0'),
        decreases 6 - i,
    {
        proof {
            reveal_strlit("0");
        }
        zeros.append("0");
        i += 1;
        assert(zeros@ =~= Seq::new((i - length) as nat, |k: int| '0'));
    }
    let text = zeros.concat(digits.as_str());
    assert(text@ =~= six_digits(n as nat));
    text
}

/// The UTF-8 bytes of a text.
pub fn bytes_of(text: &str) -> (bytes: Vec<u8>)
    ensures
        bytes@ == encode_utf8(text@),
{
    text.as_bytes_vec()
}

/// A copy of some bytes.
pub fn copy_bytes(bytes: &[u8]) -> (copy: Vec<u8>)
    ensures
        copy@ == bytes@,
{
    vstd::slice::slice_to_vec(bytes)
}

/// The texts behind some strings.
pub open spec fn texts(strings: Seq<String>) -> Seq<Seq<char>> {
    strings.map_values(|s: String| s@)
}

/// The bytes behind some byte vectors.
pub open spec fn chunks(vectors: Seq<Vec<u8>>) -> Seq<Seq<u8>> {
    vectors.map_values(|v: Vec<u8>| v@)
}

// -------------------------------------------------------------------- laws

/// The number that some decimal digits stand for.
pub open spec fn value_of(digits: Seq<char>) -> int
    decreases digits.len(),
{
    if digits.len() == 0 {
        0
    } else {
        value_of(digits.drop_last()) * 10 + (digits.last() as int - 0x30)
    }
}

/// Whether a text holds decimal digits only.
pub open spec fn all_digits(text: Seq<char>) -> bool {
    forall|i: int| 0 <= i < text.len() ==> 0x30 <= #[trigger] text[i] as int <= 0x39
}

/// A number in decimal reads back as that number, and has no zero in front.
pub proof fn law_decimal_reads_back(n: nat)
    ensures
        decimal(n).len() > 0,
        all_digits(decimal(n)),
        value_of(decimal(n)) == n,
        decimal(n).len() > 1 ==> decimal(n)[0] != '0',
    decreases n,
{
    reveal_with_fuel(value_of, 2);
    if n < 10 {
        assert(seq![digit(n)].drop_last() =~= Seq::<char>::empty());
    } else {
        law_decimal_reads_back(n / 10);
        assert(decimal(n).drop_last() =~= decimal(n / 10));
        if n / 10 < 10 {
            assert(decimal(n / 10) == seq![digit(n / 10)]);
        }
    }
}

proof fn lemma_zeros_in_front(zeros: Seq<char>, digits: Seq<char>)
    requires
        forall|i: int| 0 <= i < zeros.len() ==> #[trigger] zeros[i] == '0',
    ensures
        value_of(zeros + digits) == value_of(digits),
    decreases zeros.len() + digits.len(),
{
    if digits.len() > 0 {
        assert((zeros + digits).drop_last() =~= zeros + digits.drop_last());
        lemma_zeros_in_front(zeros, digits.drop_last());
    } else if zeros.len() > 0 {
        assert(zeros + digits =~= zeros);
        assert((zeros + digits).drop_last() =~= zeros.drop_last() + digits);
        lemma_zeros_in_front(zeros.drop_last(), digits);
    } else {
        assert(zeros + digits =~= digits);
    }
}

/// A padded number reads back as that number; it is six digits long, or longer
/// where the number is.
pub proof fn law_padded_number_reads_back(n: nat)
    ensures
        six_digits(n).len() >= 6,
        all_digits(six_digits(n)),
        value_of(six_digits(n)) == n,
        six_digits(n).len() > 6 ==> six_digits(n)[0] != '0',
{
    law_decimal_reads_back(n);
    let digits = decimal(n);
    if digits.len() < 6 {
        let zeros = Seq::new((6 - digits.len()) as nat, |i: int| '0');
        lemma_zeros_in_front(zeros, digits);
    }
}

/// Different numbers are written differently.
pub proof fn law_numbers_are_told_apart(a: nat, b: nat)
    requires
        decimal(a) == decimal(b) || six_digits(a) == six_digits(b),
    ensures
        a == b,
{
    law_decimal_reads_back(a);
    law_decimal_reads_back(b);
    law_padded_number_reads_back(a);
    law_padded_number_reads_back(b);
}

/// A text occurs in another exactly where the other is that text with something,
/// or nothing, before and behind it.
pub proof fn law_text_occurs_with_anything_around_it(text: Seq<char>, part: Seq<char>)
    ensures
        occurs(text, part) <==> exists|before: Seq<char>, behind: Seq<char>|
            text == #[trigger] (before + part + behind),
{
    if occurs(text, part) {
        let at = choose|at: int|
            0 <= at <= text.len() - part.len() && #[trigger] text.subrange(at, at + part.len())
                == part;
        let before = text.take(at);
        let behind = text.skip(at + part.len());
        assert(text =~= before + part + behind);
    }
    if exists|before: Seq<char>, behind: Seq<char>| text == #[trigger] (before + part + behind) {
        let (before, behind) = choose|before: Seq<char>, behind: Seq<char>|
            text == #[trigger] (before + part + behind);
        let at = before.len() as int;
        assert(text.subrange(at, at + part.len()) =~= part);
    }
}

/// The values of strings and byte vectors keep every one of them, in its place.
pub proof fn law_text_values_are_complete(strings: Seq<String>, vectors: Seq<Vec<u8>>, i: int)
    ensures
        texts(strings).len() == strings.len(),
        0 <= i < strings.len() ==> texts(strings)[i] == strings[i]@,
        chunks(vectors).len() == vectors.len(),
        0 <= i < vectors.len() ==> chunks(vectors)[i] == vectors[i]@,
{
}

} // verus!
