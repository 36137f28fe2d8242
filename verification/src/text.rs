//! Small string facilities shared by the other modules.

use vstd::prelude::*;
use vstd::utf8::*;
use vstd::string::StringSliceAdditionalSpecFns;

verus! {

broadcast use vstd::utf8::group_utf8_lib;

/// What `String::from_utf8_lossy` gives back for `bytes`: the text, with each
/// ill-formed sequence replaced by U+FFFD.
pub uninterp spec fn utf8_lossy(bytes: Seq<u8>) -> Seq<char>;

/// `String::from_utf8_lossy(bytes).into_owned()`. Its documentation says that
/// valid UTF-8 comes back unchanged; beyond that the result is only named.
#[verifier::external_body]
pub(crate) fn string_from_utf8_lossy(bytes: &[u8]) -> (s: String)
    ensures
        s@ == utf8_lossy(bytes@),
        valid_utf8(bytes@) ==> s@ == decode_utf8(bytes@),
{
    String::from_utf8_lossy(bytes).into_owned()
}

/// The characters that a sequence of ASCII bytes stands for.
pub open spec fn ascii_chars(bytes: Seq<u8>) -> Seq<char> {
    bytes.map_values(|b: u8| b as char)
}

/// Builds a `String` from bytes that are all ASCII.
pub fn ascii_string(bytes: &[u8]) -> (s: String)
    requires
        forall|i: int| 0 <= i < bytes@.len() ==> bytes@[i] < 128,
    ensures
        s@ == ascii_chars(bytes@),
{
    proof {
        let chars = ascii_chars(bytes@);
        assert(is_ascii_chars(chars));
        is_ascii_chars_encode_utf8(chars);
        assert(encode_utf8(chars) =~= bytes@);
    }
    string_from_utf8_lossy(bytes)
}

/// The decimal digit character of `d` (below ten).
pub open spec fn digit_char(d: nat) -> char {
    (48 + d) as char
}

/// The decimal text of a number, without sign or leading zeros.
pub open spec fn decimal_text(n: nat) -> Seq<char>
    decreases n,
{
    if n < 10 {
        seq![digit_char(n)]
    } else {
        decimal_text(n / 10).push(digit_char(n % 10))
    }
}

fn decimal_bytes(n: u64) -> (v: Vec<u8>)
    ensures
        ascii_chars(v@) == decimal_text(n as nat),
        forall|i: int| 0 <= i < v@.len() ==> v@[i] < 128,
    decreases n,
{
    if n < 10 {
        let d: u8 = 48 + (n as u8);
        let v: Vec<u8> = vec![d];
        assert(ascii_chars(v@) =~= seq![digit_char(n as nat)]);
        v
    } else {
        let mut v = decimal_bytes(n / 10);
        let d: u8 = 48 + ((n % 10) as u8);
        let ghost before = v@;
        v.push(d);
        assert(ascii_chars(v@) =~= ascii_chars(before).push(digit_char((n % 10) as nat)));
        v
    }
}

/// The decimal text of a number, as `u64::to_string` writes it.
pub fn decimal_string(n: u64) -> (s: String)
    ensures
        s@ == decimal_text(n as nat),
{
    let v = decimal_bytes(n);
    ascii_string(v.as_slice())
}

/// Equality of two byte strings, element by element.
pub fn bytes_equal(a: &[u8], b: &[u8]) -> (r: bool)
    ensures
        r == (a@ == b@),
{
    if a.len() != b.len() {
        return false;
    }
    let mut i: usize = 0;
    while i < a.len()
        invariant
            a@.len() == b@.len(),
            i <= a@.len(),
            forall|j: int| 0 <= j < i ==> a@[j] == b@[j],
        decreases a@.len() - i,
    {
        if a[i] != b[i] {
            return false;
        }
        i = i + 1;
    }
    assert(a@ =~= b@);
    true
}

/// Equality of two strings.
pub fn str_equal(a: &str, b: &str) -> (r: bool)
    ensures
        r == (a@ == b@),
{
    let r = bytes_equal(a.as_bytes(), b.as_bytes());
    proof {
        if a.spec_bytes() == b.spec_bytes() {
            assert(decode_utf8(encode_utf8(a@)) == a@);
            assert(decode_utf8(encode_utf8(b@)) == b@);
        }
    }
    r
}

/// Lexicographic order of byte strings: the order of `[u8]` and of `str`.
pub open spec fn bytes_lt(a: Seq<u8>, b: Seq<u8>) -> bool
    decreases a.len(),
{
    if a.len() == 0 {
        b.len() > 0
    } else if b.len() == 0 {
        false
    } else if a[0] != b[0] {
        a[0] < b[0]
    } else {
        bytes_lt(a.drop_first(), b.drop_first())
    }
}

/// The order of strings (and so of JSON object keys): the order of their
/// UTF-8 bytes, as `Ord for str` compares them.
pub open spec fn key_lt(a: Seq<char>, b: Seq<char>) -> bool {
    bytes_lt(encode_utf8(a), encode_utf8(b))
}

pub proof fn lemma_bytes_lt_irreflexive(a: Seq<u8>)
    ensures
        !bytes_lt(a, a),
    decreases a.len(),
{
    if a.len() > 0 {
        lemma_bytes_lt_irreflexive(a.drop_first());
    }
}

pub proof fn lemma_bytes_lt_transitive(a: Seq<u8>, b: Seq<u8>, c: Seq<u8>)
    requires
        bytes_lt(a, b),
        bytes_lt(b, c),
    ensures
        bytes_lt(a, c),
    decreases a.len(),
{
    if a.len() > 0 && b.len() > 0 && c.len() > 0 && a[0] == b[0] && b[0] == c[0] {
        lemma_bytes_lt_transitive(a.drop_first(), b.drop_first(), c.drop_first());
    }
}

pub proof fn lemma_bytes_lt_total(a: Seq<u8>, b: Seq<u8>)
    ensures
        a == b || bytes_lt(a, b) || bytes_lt(b, a),
    decreases a.len(),
{
    if a.len() > 0 && b.len() > 0 && a[0] == b[0] {
        lemma_bytes_lt_total(a.drop_first(), b.drop_first());
        if a.drop_first() == b.drop_first() {
            assert(a =~= seq![a[0]] + a.drop_first());
            assert(b =~= seq![b[0]] + b.drop_first());
        }
    } else if a.len() == 0 && b.len() == 0 {
        assert(a =~= b);
    }
}

pub proof fn lemma_bytes_lt_asymmetric(a: Seq<u8>, b: Seq<u8>)
    requires
        bytes_lt(a, b),
    ensures
        !bytes_lt(b, a),
{
    if bytes_lt(b, a) {
        lemma_bytes_lt_transitive(a, b, a);
        lemma_bytes_lt_irreflexive(a);
    }
}

/// `key_lt` is a strict total order.
pub proof fn lemma_key_order()
    ensures
        forall|a: Seq<char>| !#[trigger] key_lt(a, a),
        forall|a: Seq<char>, b: Seq<char>, c: Seq<char>|
            #[trigger] key_lt(a, b) && #[trigger] key_lt(b, c) ==> key_lt(a, c),
        forall|a: Seq<char>, b: Seq<char>| a == b || #[trigger] key_lt(a, b) || #[trigger] key_lt(b, a),
{
    assert forall|a: Seq<char>| !#[trigger] key_lt(a, a) by {
        lemma_bytes_lt_irreflexive(encode_utf8(a));
    }
    assert forall|a: Seq<char>, b: Seq<char>, c: Seq<char>|
        #[trigger] key_lt(a, b) && #[trigger] key_lt(b, c) implies key_lt(a, c) by {
        lemma_bytes_lt_transitive(encode_utf8(a), encode_utf8(b), encode_utf8(c));
    }
    assert forall|a: Seq<char>, b: Seq<char>| a == b || #[trigger] key_lt(a, b) || #[trigger] key_lt(b, a) by {
        lemma_bytes_lt_total(encode_utf8(a), encode_utf8(b));
        if encode_utf8(a) == encode_utf8(b) {
            assert(decode_utf8(encode_utf8(a)) == a);
            assert(decode_utf8(encode_utf8(b)) == b);
        }
    }
}

/// `a <= b <= c` gives `a <= c`, and `a < b <= c` gives `a < c`.
pub proof fn lemma_key_le_chain(a: Seq<char>, b: Seq<char>, c: Seq<char>)
    ensures
        !key_lt(b, a) && !key_lt(c, b) ==> !key_lt(c, a),
        key_lt(a, b) && !key_lt(c, b) ==> key_lt(a, c),
        key_lt(a, b) ==> !key_lt(b, a),
{
    lemma_key_order();
    if key_lt(a, b) {
        lemma_bytes_lt_asymmetric(encode_utf8(a), encode_utf8(b));
    }
    if !key_lt(c, b) {
        // c == b or b < c
        assert(c == b || key_lt(b, c));
    }
    if !key_lt(b, a) {
        assert(b == a || key_lt(a, b));
    }
    if !key_lt(b, a) && !key_lt(c, b) && key_lt(c, a) {
        if c == b {
        } else if b == a {
        } else {
            assert(key_lt(a, c));
            lemma_bytes_lt_asymmetric(encode_utf8(a), encode_utf8(c));
        }
    }
}

/// Whether `a` comes before `b` in the order of byte strings.
pub fn bytes_less(a: &[u8], b: &[u8]) -> (r: bool)
    ensures
        r == bytes_lt(a@, b@),
{
    let mut i: usize = 0;
    assert(a@.skip(0) =~= a@);
    assert(b@.skip(0) =~= b@);
    while i < a.len() && i < b.len()
        invariant
            i <= a@.len(),
            i <= b@.len(),
            bytes_lt(a@, b@) == bytes_lt(a@.skip(i as int), b@.skip(i as int)),
        decreases a@.len() - i,
    {
        if a[i] != b[i] {
            return a[i] < b[i];
        }
        proof {
            assert(a@.skip(i as int).drop_first() =~= a@.skip(i + 1));
            assert(b@.skip(i as int).drop_first() =~= b@.skip(i + 1));
        }
        i = i + 1;
    }
    i < b.len()
}

/// Whether string `a` comes before string `b`.
pub fn str_less(a: &str, b: &str) -> (r: bool)
    ensures
        r == key_lt(a@, b@),
{
    bytes_less(a.as_bytes(), b.as_bytes())
}

} // verus!
