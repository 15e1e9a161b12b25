//! Verified text helpers: character-exact string equality, decimal
//! rendering of integers, and substring tests.
//!
//! Strings are modelled by their views (`Seq<char>`); every helper's
//! contract is stated against that model.

use vstd::prelude::*;

verus! {

/// Relies on String::push: appends the given character to the end of the
/// string.
#[verifier::external_body]
pub(crate) fn string_push_char(s: &mut String, c: char)
    ensures
        final(s)@ == old(s)@.push(c),
{
    s.push(c);
}

/// Character-wise string equality; two strings are equal exactly when their
/// character sequences are.
pub fn str_eq(a: &str, b: &str) -> (r: bool)
    ensures
        r == (a@ == b@),
{
    let alen = a.unicode_len();
    let blen = b.unicode_len();
    if alen != blen {
        assert(a@ != b@) by {
            assert(a@.len() != b@.len());
        }
        return false;
    }
    let mut i: usize = 0;
    while i < alen
        invariant
            i <= alen,
            alen == a@.len(),
            alen == b@.len(),
            forall|k: int| 0 <= k < i ==> a@[k] == b@[k],
        decreases alen - i,
    {
        if a.get_char(i) != b.get_char(i) {
            return false;
        }
        i += 1;
    }
    proof {
        assert(a@ =~= b@);
    }
    true
}

/// The character for a single decimal digit.
pub open spec fn digit_char(d: nat) -> char
    recommends
        d < 10,
{
    (48 + d) as char
}

/// Decimal digits of `n`, most significant first, with no leading zeros
/// (a single `'0'` for zero).
pub open spec fn spec_dec_digits(n: nat) -> Seq<char>
    decreases n,
{
    if n < 10 {
        seq![digit_char(n)]
    } else {
        spec_dec_digits(n / 10).push(digit_char(n % 10))
    }
}

/// Renders an integer in decimal.
pub fn u128_to_dec(n: u128) -> (r: String)
    ensures
        r@ == spec_dec_digits(n as nat),
    decreases n,
{
    if n < 10 {
        let mut s = String::new();
        let c: char = ((48 + n as u8) as char);
        assert(c == digit_char(n as nat));
        string_push_char(&mut s, c);
        s
    } else {
        let mut s = u128_to_dec(n / 10);
        let d: u8 = (n % 10) as u8;
        let c: char = ((48 + d) as char);
        assert(c == digit_char((n as nat) % 10));
        string_push_char(&mut s, c);
        s
    }
}

/// Renders an integer in decimal.
pub fn u64_to_dec(n: u64) -> (r: String)
    ensures
        r@ == spec_dec_digits(n as nat),
{
    u128_to_dec(n as u128)
}

/// Whether `s` begins with `pat`.
pub open spec fn spec_starts_with(s: Seq<char>, pat: Seq<char>) -> bool {
    s.len() >= pat.len() && s.take(pat.len() as int) == pat
}

/// Whether `s` ends with `suffix`.
pub open spec fn spec_ends_with(s: Seq<char>, suffix: Seq<char>) -> bool {
    s.len() >= suffix.len() && s.skip(s.len() - suffix.len()) == suffix
}

/// Whether `s`, from position `at` on, begins with `pat`.
pub fn starts_with_at(s: &str, pat: &str, at: usize) -> (r: bool)
    requires
        at <= s@.len(),
    ensures
        r == spec_starts_with(s@.skip(at as int), pat@),
{
    let slen = s.unicode_len();
    let plen = pat.unicode_len();
    if slen - at < plen {
        return false;
    }
    let mut i: usize = 0;
    while i < plen
        invariant
            i <= plen,
            at <= slen,
            slen == s@.len(),
            plen == pat@.len(),
            plen <= slen - at,
            forall|k: int| 0 <= k < i ==> s@[at + k] == pat@[k],
        decreases plen - i,
    {
        if s.get_char(at + i) != pat.get_char(i) {
            proof {
                assert(s@.skip(at as int)[i as int] != pat@[i as int]);
                assert(s@.skip(at as int).take(plen as int)[i as int] != pat@[i as int]);
            }
            return false;
        }
        i += 1;
    }
    proof {
        assert(s@.skip(at as int).take(plen as int) =~= pat@);
    }
    true
}

/// Whether the string ends with the given suffix.
pub fn str_ends_with(s: &str, suffix: &str) -> (r: bool)
    ensures
        r == spec_ends_with(s@, suffix@),
{
    let slen = s.unicode_len();
    let tlen = suffix.unicode_len();
    if slen < tlen {
        return false;
    }
    let r = starts_with_at(s, suffix, slen - tlen);
    proof {
        assert(s@.skip(slen - tlen).take(tlen as int) =~= s@.skip(slen - tlen));
    }
    r
}

/// `s` with every occurrence of `pat` replaced by `rep`, scanning left to
/// right without overlap. An empty pattern replaces nothing.
pub open spec fn spec_replace_all(s: Seq<char>, pat: Seq<char>, rep: Seq<char>) -> Seq<char>
    decreases s.len(),
{
    if pat.len() == 0 {
        s
    } else if s.len() < pat.len() {
        s
    } else if s.take(pat.len() as int) == pat {
        rep + spec_replace_all(s.skip(pat.len() as int), pat, rep)
    } else {
        seq![s[0]] + spec_replace_all(s.skip(1), pat, rep)
    }
}

/// Replaces every occurrence of `pat` in `s` by `rep`, left to right,
/// without rescanning replaced text.
pub fn replace_all(s: &str, pat: &str, rep: &str) -> (r: String)
    requires
        pat@.len() > 0,
    ensures
        r@ == spec_replace_all(s@, pat@, rep@),
{
    let slen = s.unicode_len();
    let plen = pat.unicode_len();
    let mut out = String::new();
    let mut i: usize = 0;
    proof {
        assert(s@.skip(0) =~= s@);
        assert(out@ + spec_replace_all(s@.skip(0), pat@, rep@) =~= spec_replace_all(
            s@,
            pat@,
            rep@,
        ));
    }
    while i < slen
        invariant
            i <= slen,
            slen == s@.len(),
            plen == pat@.len(),
            plen > 0,
            out@ + spec_replace_all(s@.skip(i as int), pat@, rep@) == spec_replace_all(
                s@,
                pat@,
                rep@,
            ),
        decreases slen - i,
    {
        let ghost pre = out@;
        let ghost tail = s@.skip(i as int);
        let matched = starts_with_at(s, pat, i);
        if matched {
            out.append(rep);
            proof {
                assert(tail.take(plen as int) == pat@);
                assert(tail.skip(plen as int) =~= s@.skip(i as int + plen as int));
                assert(spec_replace_all(tail, pat@, rep@) == rep@ + spec_replace_all(
                    s@.skip(i as int + plen as int),
                    pat@,
                    rep@,
                ));
                assert(out@ + spec_replace_all(s@.skip(i as int + plen as int), pat@, rep@) =~= pre
                    + spec_replace_all(tail, pat@, rep@));
            }
            i += plen;
        } else {
            let c = s.get_char(i);
            string_push_char(&mut out, c);
            proof {
                assert(tail[0] == c);
                assert(tail.skip(1) =~= s@.skip(i as int + 1));
                if tail.len() >= plen {
                    assert(spec_replace_all(tail, pat@, rep@) == seq![c] + spec_replace_all(
                        s@.skip(i as int + 1),
                        pat@,
                        rep@,
                    ));
                } else {
                    assert(spec_replace_all(tail, pat@, rep@) == tail);
                    assert(spec_replace_all(s@.skip(i as int + 1), pat@, rep@) == tail.skip(1));
                    assert(spec_replace_all(tail, pat@, rep@) =~= seq![c] + spec_replace_all(
                        s@.skip(i as int + 1),
                        pat@,
                        rep@,
                    ));
                }
                assert(out@ + spec_replace_all(s@.skip(i as int + 1), pat@, rep@) =~= pre
                    + spec_replace_all(tail, pat@, rep@));
            }
            i += 1;
        }
    }
    proof {
        assert(s@.skip(slen as int) =~= Seq::<char>::empty());
        assert(out@ + spec_replace_all(s@.skip(slen as int), pat@, rep@) =~= out@);
    }
    out
}

} // verus!
