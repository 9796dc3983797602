//! The runs of digits in a text once it is transliterated to ASCII, and the
//! plain order of texts.

use vstd::prelude::*;

verus! {

/// The text that the natural lexical comparison works on: `text` in lower
/// case and transliterated to ASCII, character by character. A character
/// that is neither a letter nor a number stays as it is, and a combining
/// mark is left out.
pub uninterp spec fn transliterated(text: Seq<char>) -> Seq<char>;

/// Calls `lexical_sort::iter::iterate_lexical` and collects its characters.
/// Trusted: the result is the transliterated form of `text`, which depends
/// on `text` alone.
#[verifier::external_body]
fn transliterate(text: &str) -> (r: String)
    ensures
        r@ == transliterated(text@),
{
    lexical_sort::iter::iterate_lexical(text).collect()
}

/// The most digits that a run may hold and still fit 64 bits in every case.
pub open spec fn run_limit() -> int {
    19
}

/// The number of ASCII digits that stand in a row at the end of the first
/// `n` bytes of the UTF-8 text `bytes`. In UTF-8 a byte from 0x30 to 0x39 is
/// always a digit of its own, never a part of another character.
pub open spec fn run_after(bytes: Seq<u8>, n: int) -> int
    decreases n,
{
    if n <= 0 {
        0
    } else if 0x30 <= bytes[n - 1] <= 0x39 {
        run_after(bytes, n - 1) + 1
    } else {
        0
    }
}

/// Whether no run of digits in the UTF-8 text `bytes` passes the limit.
pub open spec fn runs_fit(bytes: Seq<u8>) -> bool {
    forall|n: int| 0 <= n <= bytes.len() ==> #[trigger] run_after(bytes, n) <= run_limit()
}

/// Whether every run of digits in the transliterated form of `text` has at
/// most 19 digits, so that its number fits 64 bits.
pub open spec fn digits_fit(text: Seq<char>) -> bool {
    runs_fit(vstd::utf8::encode_utf8(transliterated(text)))
}

/// Whether no run of digits in the UTF-8 text `bytes` passes the limit.
pub fn runs_fit_in(bytes: &[u8]) -> (r: bool)
    ensures
        r == runs_fit(bytes@),
{
    let mut run: usize = 0;
    let mut n: usize = 0;
    while n < bytes.len()
        invariant
            n <= bytes@.len(),
            run == run_after(bytes@, n as int),
            forall|k: int| 0 <= k <= n ==> #[trigger] run_after(bytes@, k) <= run_limit(),
        decreases bytes@.len() - n,
    {
        let b: u8 = bytes[n];
        if 0x30 <= b && b <= 0x39 {
            run = run + 1;
        } else {
            run = 0;
        }
        n = n + 1;
        if run > 19 {
            assert(run_after(bytes@, n as int) > run_limit());
            return false;
        }
    }
    true
}

/// Whether every run of digits in the transliterated form of `text` has at
/// most 19 digits.
pub fn has_fitting_digits(text: &str) -> (r: bool)
    ensures
        r == digits_fit(text@),
{
    let plain = transliterate(text);
    runs_fit_in(plain.as_str().as_bytes())
}

/// Whether the bytes `a` come strictly before the bytes `b` in dictionary
/// order: at the first place where they differ `a` has the lower byte, or
/// `a` ends there and `b` goes on.
pub open spec fn bytes_before(a: Seq<u8>, b: Seq<u8>) -> bool
    decreases a.len(),
{
    if b.len() == 0 {
        false
    } else if a.len() == 0 {
        true
    } else if a[0] != b[0] {
        a[0] < b[0]
    } else {
        bytes_before(a.drop_first(), b.drop_first())
    }
}

/// Whether `a` comes strictly before `b` when the two are compared
/// character by character, by code point; on UTF-8 text that is the
/// dictionary order of the bytes.
pub open spec fn plainly_before(a: Seq<char>, b: Seq<char>) -> bool {
    bytes_before(vstd::utf8::encode_utf8(a), vstd::utf8::encode_utf8(b))
}

/// Whether `a` comes strictly before `b` when the two are compared
/// character by character.
pub fn comes_plainly_before(a: &str, b: &str) -> (r: bool)
    ensures
        r == plainly_before(a@, b@),
{
    let x = a.as_bytes();
    let y = b.as_bytes();
    let mut i: usize = 0;
    proof {
        assert(x@.skip(0) =~= x@);
        assert(y@.skip(0) =~= y@);
    }
    while i < x.len() && i < y.len()
        invariant
            i <= x@.len(),
            i <= y@.len(),
            x@ == vstd::utf8::encode_utf8(a@),
            y@ == vstd::utf8::encode_utf8(b@),
            bytes_before(x@, y@) == bytes_before(x@.skip(i as int), y@.skip(i as int)),
        decreases x@.len() - i,
    {
        proof {
            assert(x@.skip(i as int).drop_first() =~= x@.skip(i as int + 1));
            assert(y@.skip(i as int).drop_first() =~= y@.skip(i as int + 1));
            assert(x@.skip(i as int)[0] == x@[i as int]);
            assert(y@.skip(i as int)[0] == y@[i as int]);
        }
        if x[i] != y[i] {
            return x[i] < y[i];
        }
        i = i + 1;
    }
    proof {
        assert(x@.skip(i as int).len() == x@.len() - i);
        assert(y@.skip(i as int).len() == y@.len() - i);
    }
    i < y.len()
}

} // verus!
