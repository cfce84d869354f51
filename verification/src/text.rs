use vstd::prelude::*;

verus! {

use vstd::std_specs::iter::IteratorSpec;

// ------------------------------------------------------------------
// Bridges between `String`/`&str` and `Vec<char>`
// ------------------------------------------------------------------

/// The characters of the string, in order.
pub fn str_chars(s: &str) -> (r: Vec<char>)
    ensures
        r@ == s@,
{
    broadcast use vstd::string::group_string_axioms;

    let mut it = s.chars();
    let mut out: Vec<char> = Vec::new();
    proof {
        assert(out@ + it.remaining() =~= s@);
    }
    loop
        invariant
            it.obeys_prophetic_iter_laws(),
            it.decrease() is Some,
            out@ + it.remaining() == s@,
        decreases it.decrease()->0,
    {
        let ghost prev = it.remaining();
        match it.next() {
            Some(c) => {
                proof {
                    assert(prev.len() > 0);
                    assert(out@.push(c) + prev.drop_first() =~= out@ + prev);
                }
                out.push(c);
            },
            None => {
                proof {
                    assert(prev.len() == 0);
                    assert(out@ =~= out@ + prev);
                }
                return out;
            },
        }
    }
}

/// Relies on `Iterator::collect` for `String`: concatenates the given
/// characters in order.
#[verifier::external_body]
pub fn chars_string(v: &Vec<char>) -> (r: String)
    ensures
        r@ == v@,
{
    v.iter().collect()
}

/// What UTF-8 decoding with replacement makes of a byte sequence: a
/// function of the bytes alone.
pub uninterp spec fn utf8_lossy_of(b: Seq<u8>) -> Seq<char>;

/// Relies on `String::from_utf8_lossy`: the decoding depends on the
/// bytes alone.
#[verifier::external_body]
pub fn bytes_text(b: &Vec<u8>) -> (r: String)
    ensures
        r@ == utf8_lossy_of(b@),
{
    String::from_utf8_lossy(b).into_owned()
}

/// Copies a byte vector.
pub fn copy_bytes(v: &Vec<u8>) -> (r: Vec<u8>)
    ensures
        r@ == v@,
{
    let mut out: Vec<u8> = Vec::new();
    let mut i: usize = 0;
    while i < v.len()
        invariant
            i <= v@.len(),
            out@ == v@.take(i as int),
        decreases v.len() - i,
    {
        out.push(v[i]);
        i = i + 1;
        proof {
            assert(out@ =~= v@.take(i as int));
        }
    }
    proof {
        assert(v@.take(v@.len() as int) =~= v@);
    }
    out
}

// ------------------------------------------------------------------
// Character classes
// ------------------------------------------------------------------

pub open spec fn is_digit(c: char) -> bool {
    '0' <= c && c <= '9'
}

pub open spec fn digit_val(c: char) -> nat {
    (c as u32 - '0' as u32) as nat
}

pub open spec fn digit_char(d: nat) -> char {
    ((d + 48) as u8) as char
}

// ------------------------------------------------------------------
// Appending
// ------------------------------------------------------------------

pub fn push_all(out: &mut Vec<char>, src: &Vec<char>)
    ensures
        final(out)@ == old(out)@ + src@,
{
    let mut j: usize = 0;
    while j < src.len()
        invariant
            j <= src.len(),
            out@ == old(out)@ + src@.take(j as int),
        decreases src.len() - j,
    {
        out.push(src[j]);
        j = j + 1;
        proof {
            assert(out@ =~= old(out)@ + src@.take(j as int));
        }
    }
    proof {
        assert(out@ =~= old(out)@ + src@);
    }
}

// ------------------------------------------------------------------
// Substring matching
// ------------------------------------------------------------------

/// The pattern occurs in `s` at position `i`.
pub open spec fn match_at(s: Seq<char>, pat: Seq<char>, i: int) -> bool {
    &&& 0 <= i
    &&& i + pat.len() <= s.len()
    &&& s.subrange(i, i + pat.len() as int) == pat
}

/// Whether `pat` is equal to `s[i .. i + pat.len()]`.
pub fn eq_at(s: &Vec<char>, i: usize, pat: &Vec<char>) -> (b: bool)
    requires
        i + pat@.len() <= s@.len(),
    ensures
        b == match_at(s@, pat@, i as int),
{
    let slen: usize = s.len();
    let mut j: usize = 0;
    while j < pat.len()
        invariant
            j <= pat@.len(),
            i + pat@.len() <= s@.len(),
            s@.len() == slen,
            forall|k: int| 0 <= k < j ==> s@[i + k] == pat@[k],
        decreases pat.len() - j,
    {
        if s[i + j] != pat[j] {
            proof {
                assert(s@.subrange(i as int, i + pat@.len() as int)[j as int] != pat@[j as int]);
            }
            return false;
        }
        j = j + 1;
    }
    proof {
        assert(s@.subrange(i as int, i + pat@.len() as int) =~= pat@);
    }
    true
}

/// The position of the first occurrence of `pat` in `s` at or after `from`.
pub fn find_sub(s: &Vec<char>, pat: &Vec<char>, from: usize) -> (r: Option<usize>)
    requires
        pat@.len() > 0,
    ensures
        match r {
            Some(k) => {
                &&& from <= k
                &&& match_at(s@, pat@, k as int)
                &&& forall|j: int| from <= j < k ==> !match_at(s@, pat@, j)
            },
            None => forall|j: int| from <= j ==> !match_at(s@, pat@, j),
        },
{
    let slen: usize = s.len();
    let plen: usize = pat.len();
    if slen < plen || from > slen - plen {
        return None;
    }
    let count: usize = slen - plen + 1;
    let mut i: usize = from;
    while i < count
        invariant
            pat@.len() == plen,
            s@.len() == slen,
            0 < plen <= slen,
            count == slen - plen + 1,
            from <= i <= count,
            forall|j: int| from <= j < i ==> !match_at(s@, pat@, j),
        decreases count - i,
    {
        if eq_at(s, i, pat) {
            return Some(i);
        }
        i = i + 1;
    }
    None
}

pub proof fn lemma_match_at_single(s: Seq<char>, c: char, k: int)
    ensures
        match_at(s, seq![c], k) <==> (0 <= k < s.len() && s[k] == c),
{
    if 0 <= k < s.len() {
        if s[k] == c {
            assert(s.subrange(k, k + 1) =~= seq![c]);
        } else {
            if s.subrange(k, k + 1) == seq![c] {
                assert(s.subrange(k, k + 1)[0] == c);
                assert(false);
            }
        }
    }
}

// ------------------------------------------------------------------
// Literal replacement
// ------------------------------------------------------------------

/// `s` with every (leftmost, non-overlapping) occurrence of `pat`
/// replaced by `rep`.
pub open spec fn replaced(s: Seq<char>, pat: Seq<char>, rep: Seq<char>) -> Seq<char>
    decreases s.len(),
{
    if pat.len() == 0 || s.len() < pat.len() {
        s
    } else if s.subrange(0, pat.len() as int) == pat {
        rep + replaced(s.skip(pat.len() as int), pat, rep)
    } else {
        seq![s[0]] + replaced(s.skip(1), pat, rep)
    }
}

pub fn replace_all(s: &Vec<char>, pat: &Vec<char>, rep: &Vec<char>) -> (r: Vec<char>)
    requires
        pat@.len() > 0,
    ensures
        r@ == replaced(s@, pat@, rep@),
{
    let mut out: Vec<char> = Vec::new();
    proof {
        assert(s@.skip(0) =~= s@);
    }
    let mut i: usize = 0;
    while i < s.len()
        invariant
            pat@.len() > 0,
            i <= s@.len(),
            out@ + replaced(s@.skip(i as int), pat@, rep@) == replaced(s@, pat@, rep@),
        decreases s.len() - i,
    {
        let ghost rem = s@.skip(i as int);
        if pat.len() <= s.len() - i && eq_at(s, i, pat) {
            proof {
                assert(rem.subrange(0, pat@.len() as int) =~= s@.subrange(
                    i as int,
                    i + pat@.len() as int,
                ));
                assert(rem.skip(pat@.len() as int) =~= s@.skip(i + pat@.len() as int));
            }
            push_all(&mut out, rep);
            i = i + pat.len();
        } else {
            proof {
                if rem.len() >= pat@.len() {
                    assert(rem.subrange(0, pat@.len() as int) != pat@) by {
                        assert(rem.subrange(0, pat@.len() as int) =~= s@.subrange(
                            i as int,
                            i + pat@.len() as int,
                        ));
                    }
                } else {
                    // replaced leaves short tails unchanged, which agrees with
                    // copying the head character over.
                    assert(replaced(rem.skip(1), pat@, rep@) == rem.skip(1));
                }
                assert(replaced(rem, pat@, rep@) == seq![rem[0]] + replaced(rem.skip(1), pat@, rep@));
                assert(rem.skip(1) =~= s@.skip(i + 1));
                assert(out@ + seq![rem[0]] + replaced(s@.skip(i + 1), pat@, rep@) =~= out@ + (seq![
                    rem[0],
                ] + replaced(s@.skip(i + 1), pat@, rep@)));
            }
            out.push(s[i]);
            i = i + 1;
        }
    }
    proof {
        assert(s@.skip(i as int) =~= Seq::<char>::empty());
        assert(replaced(s@.skip(i as int), pat@, rep@) =~= Seq::<char>::empty());
        assert(out@ =~= out@ + Seq::<char>::empty());
    }
    out
}

// ------------------------------------------------------------------
// Decimal numbers
// ------------------------------------------------------------------

/// The value of a string of decimal digits.
pub open spec fn dec_val(s: Seq<char>) -> nat
    decreases s.len(),
{
    if s.len() == 0 {
        0
    } else {
        dec_val(s.drop_last()) * 10 + digit_val(s.last())
    }
}

/// The canonical decimal rendering of `n`, without leading zeros.
pub open spec fn dec_digits(n: nat) -> Seq<char>
    decreases n,
{
    if n < 10 {
        seq![digit_char(n)]
    } else {
        dec_digits(n / 10).push(digit_char(n % 10))
    }
}

pub open spec fn all_digits(s: Seq<char>) -> bool {
    forall|k: int| 0 <= k < s.len() ==> is_digit(s[k])
}

/// Once a digit prefix is already too large, the whole run is too large.
pub proof fn lemma_dec_val_mono(s: Seq<char>, k: int)
    requires
        0 <= k <= s.len(),
    ensures
        dec_val(s.take(k)) <= dec_val(s),
    decreases s.len() - k,
{
    if k < s.len() {
        assert(s.take(k + 1).drop_last() =~= s.take(k));
        assert(dec_val(s.take(k)) <= dec_val(s.take(k + 1)));
        lemma_dec_val_mono(s, k + 1);
    } else {
        assert(s.take(k) =~= s);
    }
}

/// The canonical decimal rendering is non-empty, all digits, and reads
/// back to the number it renders.
pub proof fn lemma_dec_digits_props(n: nat)
    ensures
        dec_digits(n).len() >= 1,
        all_digits(dec_digits(n)),
        dec_val(dec_digits(n)) == n,
    decreases n,
{
    if n < 10 {
        assert(dec_digits(n) == seq![digit_char(n)]);
        assert(is_digit(digit_char(n)));
        assert(dec_digits(n).drop_last() =~= Seq::<char>::empty());
        assert(dec_digits(n).last() == digit_char(n));
        assert(dec_val(Seq::<char>::empty()) == 0);
        assert(dec_val(dec_digits(n)) == dec_val(Seq::<char>::empty()) * 10 + digit_val(
            digit_char(n),
        ));
        assert(digit_val(digit_char(n)) == n);
    } else {
        lemma_dec_digits_props(n / 10);
        let d = dec_digits(n / 10);
        assert(dec_digits(n) == d.push(digit_char(n % 10)));
        assert(d.push(digit_char(n % 10)).drop_last() =~= d);
        assert(d.push(digit_char(n % 10)).last() == digit_char(n % 10));
        assert(dec_val(dec_digits(n)) == dec_val(d) * 10 + digit_val(digit_char(n % 10)));
        assert(digit_val(digit_char(n % 10)) == n % 10);
        assert(forall|k: int|
            0 <= k < dec_digits(n).len() ==> is_digit(#[trigger] dec_digits(n)[k]));
    }
}

/// Renders `n` in decimal.
pub fn u16_chars(n: u16) -> (r: Vec<char>)
    ensures
        r@ == dec_digits(n as nat),
{
    let mut rev: Vec<char> = Vec::new();
    let mut m: u16 = n;
    // Collect the low-order digits of n until one digit is left.
    while m >= 10
        invariant
            dec_digits(n as nat) == dec_digits(m as nat) + rev@.reverse(),
        decreases m,
    {
        let d: u16 = m % 10;
        let ghost prev = rev@;
        rev.push(digit_of(d));
        m = m / 10;
        proof {
            assert(dec_digits((10 * (m as nat) + d as nat) as nat) == dec_digits(m as nat).push(
                digit_char(d as nat),
            ));
            assert(prev.push(digit_char(d as nat)).reverse() =~= seq![digit_char(d as nat)]
                + prev.reverse());
            assert(dec_digits(m as nat) + rev@.reverse() =~= (dec_digits(m as nat).push(
                digit_char(d as nat),
            )) + prev.reverse());
        }
    }
    let mut out: Vec<char> = Vec::new();
    out.push(digit_of(m));
    proof {
        assert(out@ =~= dec_digits(m as nat));
    }
    let mut j: usize = rev.len();
    while j > 0
        invariant
            j <= rev@.len(),
            out@ == dec_digits(m as nat) + rev@.skip(j as int).reverse(),
        decreases j,
    {
        j = j - 1;
        out.push(rev[j]);
        proof {
            assert(rev@.skip(j as int).reverse() =~= rev@.skip(j + 1).reverse().push(rev@[j as int]));
            assert(out@ =~= dec_digits(m as nat) + rev@.skip(j as int).reverse());
        }
    }
    proof {
        assert(rev@.skip(0) =~= rev@);
        assert(out@ =~= dec_digits(n as nat));
    }
    out
}

/// The value of a non-empty, all-digit string that fits in a `u16`.
pub open spec fn parse_u16_spec(s: Seq<char>) -> Option<u16> {
    if s.len() > 0 && all_digits(s) && dec_val(s) <= 0xffff {
        Some(dec_val(s) as u16)
    } else {
        None
    }
}

/// Reads `v[from .. to]` as a decimal `u16`.
pub fn parse_u16_range(v: &Vec<char>, from: usize, to: usize) -> (r: Option<u16>)
    requires
        from <= to <= v@.len(),
    ensures
        r == parse_u16_spec(v@.subrange(from as int, to as int)),
{
    let ghost s = v@.subrange(from as int, to as int);
    if from == to {
        return None;
    }
    let mut acc: u32 = 0;
    let mut k: usize = from;
    while k < to
        invariant
            from <= k <= to <= v@.len(),
            s == v@.subrange(from as int, to as int),
            acc <= 0xffff,
            acc == dec_val(s.take(k - from)),
            all_digits(s.take(k - from)),
        decreases to - k,
    {
        let c = v[k];
        if !('0' <= c && c <= '9') {
            proof {
                assert(s[k - from] == c);
                assert(!all_digits(s));
            }
            return None;
        }
        let d: u32 = (c as u32) - 48;
        let next: u32 = acc * 10 + d;
        proof {
            assert(s.take(k + 1 - from).drop_last() =~= s.take(k - from));
            assert(s.take(k + 1 - from).last() == c);
            assert(dec_val(s.take(k + 1 - from)) == acc * 10 + digit_val(c));
        }
        if next > 0xffff {
            proof {
                lemma_dec_val_mono(s, k + 1 - from);
                assert(s.take(s.len() as int) =~= s);
            }
            return None;
        }
        acc = next;
        k = k + 1;
    }
    proof {
        assert(s.take(s.len() as int) =~= s);
        assert(s.take(k - from) =~= s);
    }
    Some(acc as u16)
}

/// What Unicode lower-casing makes of a character sequence: a function
/// of the characters alone.
pub uninterp spec fn lower_of(s: Seq<char>) -> Seq<char>;

/// Relies on `str::to_lowercase`: the result depends on the characters
/// alone; an empty string stays empty.
#[verifier::external_body]
pub fn lowercase(s: &str) -> (r: String)
    ensures
        r@ == lower_of(s@),
        s@.len() == 0 ==> r@.len() == 0,
{
    s.to_lowercase()
}

fn digit_of(d: u16) -> (c: char)
    requires
        d < 10,
    ensures
        c == digit_char(d as nat),
{
    ((d as u8) + 48) as char
}

} // verus!
