//! Verified building blocks for string inspection and rewriting.
//!
//! All higher-level modules state their contracts over `Seq<char>` views;
//! the functions here supply the exec-level operations those contracts need:
//! substring matching, search, leftmost non-overlapping replacement, ASCII
//! trimming and decimal parsing.

use vstd::prelude::*;
use vstd::string::*;

verus! {

/// True when `pat` occurs in `s` starting at position `i`.
pub open spec fn match_at(s: Seq<char>, pat: Seq<char>, i: int) -> bool {
    &&& 0 <= i
    &&& i + pat.len() <= s.len()
    &&& s.subrange(i, i + pat.len() as int) == pat
}

/// Appends one character.  Relies on `String::push` from std, which vstd
/// leaves unspecified: it appends the given char to the end of the string.
#[verifier::external_body]
pub(crate) fn push_char(s: &mut String, c: char)
    ensures
        final(s)@ == old(s)@.push(c),
{
    s.push(c);
}

/// Character-wise string equality.
pub fn str_eq(a: &str, b: &str) -> (r: bool)
    ensures
        r == (a@ == b@),
{
    let alen = a.unicode_len();
    let blen = b.unicode_len();
    if alen != blen {
        return false;
    }
    let mut i: usize = 0;
    while i < alen
        invariant
            alen == a@.len(),
            alen == b@.len(),
            0 <= i <= alen,
            forall|j: int| 0 <= j < i ==> a@[j] == b@[j],
        decreases alen - i,
    {
        if a.get_char(i) != b.get_char(i) {
            return false;
        }
        i = i + 1;
    }
    proof {
        assert(a@ =~= b@);
    }
    true
}

/// Does `pat` occur in `s` at position `i`?
pub fn eq_at(s: &str, pat: &str, i: usize) -> (r: bool)
    ensures
        r == match_at(s@, pat@, i as int),
{
    let slen = s.unicode_len();
    let plen = pat.unicode_len();
    if plen > slen || i > slen - plen {
        return false;
    }
    let mut k: usize = 0;
    while k < plen
        invariant
            slen == s@.len(),
            plen == pat@.len(),
            i + plen <= slen,
            0 <= k <= plen,
            forall|j: int| 0 <= j < k ==> s@[i + j] == pat@[j],
        decreases plen - k,
    {
        if s.get_char(i + k) != pat.get_char(k) {
            proof {
                assert(s@.subrange(i as int, i + plen as int)[k as int] == s@[i + k]);
            }
            return false;
        }
        k = k + 1;
    }
    proof {
        assert(s@.subrange(i as int, i + plen as int) =~= pat@);
    }
    true
}

/// `s` begins with `pat`.
pub fn starts_with(s: &str, pat: &str) -> (r: bool)
    ensures
        r == match_at(s@, pat@, 0),
{
    eq_at(s, pat, 0)
}

/// `s` ends with `pat`.
pub fn ends_with(s: &str, pat: &str) -> (r: bool)
    ensures
        r == (pat@.len() <= s@.len() && match_at(s@, pat@, s@.len() - pat@.len())),
{
    let slen = s.unicode_len();
    let plen = pat.unicode_len();
    if plen > slen {
        return false;
    }
    eq_at(s, pat, slen - plen)
}

/// Position of the leftmost occurrence of `pat` in `s`, if any.
pub fn find_sub(s: &str, pat: &str) -> (r: Option<usize>)
    ensures
        match r {
            Some(i) => match_at(s@, pat@, i as int) && forall|j: int|
                0 <= j < i ==> !match_at(s@, pat@, j),
            None => forall|j: int| !match_at(s@, pat@, j),
        },
{
    let slen = s.unicode_len();
    let plen = pat.unicode_len();
    if plen == 0 {
        proof {
            assert(s@.subrange(0, 0) =~= pat@);
        }
        return Some(0);
    }
    if plen > slen {
        return None;
    }
    let last = slen - plen;
    let mut i: usize = 0;
    while i <= last
        invariant
            slen == s@.len(),
            plen == pat@.len(),
            1 <= plen <= slen,
            last == slen - plen,
            0 <= i <= last + 1,
            forall|j: int| 0 <= j < i ==> !match_at(s@, pat@, j),
        decreases last + 1 - i,
    {
        if eq_at(s, pat, i) {
            return Some(i);
        }
        i = i + 1;
    }
    None
}

/// Does `pat` occur anywhere in `s`?
pub fn contains_sub(s: &str, pat: &str) -> (r: bool)
    ensures
        r == exists|j: int| match_at(s@, pat@, j),
{
    match find_sub(s, pat) {
        Some(i) => {
            proof {
                assert(match_at(s@, pat@, i as int));
            }
            true
        },
        None => false,
    }
}

/// Result of rewriting every leftmost non-overlapping occurrence of `pat`
/// in `s` to `rep`, scanning left to right.
pub open spec fn replace_all(s: Seq<char>, pat: Seq<char>, rep: Seq<char>) -> Seq<char>
    decreases s.len(),
{
    if pat.len() == 0 || s.len() == 0 {
        s
    } else if match_at(s, pat, 0) {
        rep + replace_all(s.skip(pat.len() as int), pat, rep)
    } else {
        seq![s[0]] + replace_all(s.skip(1), pat, rep)
    }
}

proof fn lemma_match_at_skip(s: Seq<char>, pat: Seq<char>, i: int)
    requires
        0 <= i <= s.len(),
    ensures
        match_at(s, pat, i) == match_at(s.skip(i), pat, 0),
{
    if i + pat.len() <= s.len() {
        assert(s.skip(i).subrange(0, pat.len() as int) =~= s.subrange(i, i + pat.len() as int));
    }
}

/// Rewrites every leftmost non-overlapping occurrence of `pat` to `rep`.
/// An empty pattern rewrites nothing.
pub fn replace(s: &str, pat: &str, rep: &str) -> (r: String)
    ensures
        r@ == replace_all(s@, pat@, rep@),
{
    let slen = s.unicode_len();
    let plen = pat.unicode_len();
    if plen == 0 {
        return s.to_owned();
    }
    let mut out = String::new();
    let mut i: usize = 0;
    proof {
        assert(s@.skip(0) =~= s@);
        assert(Seq::<char>::empty() + replace_all(s@, pat@, rep@) =~= replace_all(s@, pat@, rep@));
    }
    while i < slen
        invariant
            slen == s@.len(),
            plen == pat@.len(),
            plen >= 1,
            0 <= i <= slen,
            replace_all(s@, pat@, rep@) == out@ + replace_all(s@.skip(i as int), pat@, rep@),
        decreases slen - i,
    {
        let ghost prev_out = out@;
        if eq_at(s, pat, i) {
            out.append(rep);
            proof {
                lemma_match_at_skip(s@, pat@, i as int);
                assert(s@.skip(i as int).skip(plen as int) =~= s@.skip(i + plen));
                assert(prev_out + (rep@ + replace_all(s@.skip(i + plen), pat@, rep@)) =~= out@
                    + replace_all(s@.skip(i + plen), pat@, rep@));
            }
            i = i + plen;
        } else {
            let c = s.get_char(i);
            push_char(&mut out, c);
            proof {
                lemma_match_at_skip(s@, pat@, i as int);
                assert(s@.skip(i as int)[0] == s@[i as int]);
                assert(s@.skip(i as int).skip(1) =~= s@.skip(i as int + 1));
                assert(prev_out + (seq![s@[i as int]] + replace_all(
                    s@.skip(i as int + 1),
                    pat@,
                    rep@,
                )) =~= out@ + replace_all(s@.skip(i as int + 1), pat@, rep@));
            }
            i = i + 1;
        }
    }
    proof {
        assert(s@.skip(slen as int) =~= Seq::<char>::empty());
        assert(out@ + replace_all(s@.skip(slen as int), pat@, rep@) =~= out@);
    }
    out
}

/// Hexadecimal digit in lower case.
pub open spec fn hex_digit_of(n: u32) -> char {
    if n < 10 {
        ((48 + n) as u8) as char
    } else {
        ((87 + n) as u8) as char
    }
}

/// Decimal digit.
pub open spec fn is_digit(c: char) -> bool {
    48 <= c as u32 <= 57
}

/// Numeric value of one digit character.
pub open spec fn digit_val(c: char) -> int {
    c as u32 - 48
}

/// Every character of `s` is a decimal digit.
pub open spec fn all_digits(s: Seq<char>) -> bool {
    forall|i: int| 0 <= i < s.len() ==> is_digit(#[trigger] s[i])
}

/// Value of a digit string read in base ten.
pub open spec fn digits_val(s: Seq<char>) -> int
    decreases s.len(),
{
    if s.len() == 0 {
        0
    } else {
        digits_val(s.drop_last()) * 10 + digit_val(s.last())
    }
}

proof fn lemma_digits_val_nonneg(s: Seq<char>)
    requires
        all_digits(s),
    ensures
        digits_val(s) >= 0,
    decreases s.len(),
{
    if s.len() > 0 {
        assert(all_digits(s.drop_last())) by {
            assert(forall|i: int|
                0 <= i < s.len() - 1 ==> s.drop_last()[i] == #[trigger] s[i]);
        }
        lemma_digits_val_nonneg(s.drop_last());
    }
}

proof fn lemma_digits_val_prefix_le(s: Seq<char>, m: int)
    requires
        all_digits(s),
        0 <= m <= s.len(),
    ensures
        digits_val(s.subrange(0, m)) <= digits_val(s),
    decreases s.len() - m,
{
    if m == s.len() {
        assert(s.subrange(0, m) =~= s);
    } else {
        let p = s.subrange(0, m);
        let q = s.subrange(0, m + 1);
        assert(q.drop_last() =~= p);
        assert(all_digits(p)) by {
            assert(forall|i: int| 0 <= i < m ==> p[i] == #[trigger] s[i]);
        }
        lemma_digits_val_nonneg(p);
        assert(digits_val(q) == digits_val(p) * 10 + digit_val(s[m]));
        assert(digits_val(p) * 10 >= digits_val(p)) by (nonlinear_arith)
            requires digits_val(p) >= 0;
        lemma_digits_val_prefix_le(s, m + 1);
    }
}

/// Parses `s[from..to]` as an unsigned decimal number.
/// Returns the value exactly when the range is a non-empty digit run whose
/// value fits in a `u32`.
pub fn parse_u32_range(s: &str, from: usize, to: usize) -> (r: Option<u32>)
    requires
        from <= to <= s@.len(),
    ensures
        ({
            let sub = s@.subrange(from as int, to as int);
            match r {
                Some(v) => from < to && all_digits(sub) && digits_val(sub) <= u32::MAX
                    && v == digits_val(sub),
                None => !(from < to && all_digits(sub) && digits_val(sub) <= u32::MAX),
            }
        }),
{
    let ghost sub = s@.subrange(from as int, to as int);
    if from == to {
        return None;
    }
    let mut val: u64 = 0;
    let mut k: usize = from;
    proof {
        assert(sub.subrange(0, 0) =~= Seq::<char>::empty());
    }
    while k < to
        invariant
            from <= k <= to <= s@.len(),
            sub == s@.subrange(from as int, to as int),
            all_digits(sub.subrange(0, k - from)),
            val == digits_val(sub.subrange(0, k - from)),
            val <= u32::MAX,
        decreases to - k,
    {
        let c = s.get_char(k);
        let code = c as u32;
        proof {
            assert(sub[k - from] == s@[k as int]);
        }
        if code < 48 || code > 57 {
            proof {
                assert(!is_digit(sub[k - from]));
            }
            return None;
        }
        let d: u64 = (code - 48) as u64;
        proof {
            assert(sub.subrange(0, k - from + 1).drop_last() =~= sub.subrange(0, k - from));
            assert(sub.subrange(0, k - from + 1).last() == sub[k - from]);
        }
        val = val * 10 + d;
        k = k + 1;
        if val > u32::MAX as u64 {
            proof {
                if all_digits(sub) {
                    lemma_digits_val_prefix_le(sub, k - from);
                }
            }
            return None;
        }
    }
    proof {
        assert(sub.subrange(0, to - from) =~= sub);
    }
    Some(val as u32)
}

/// Decimal spelling of a non-negative number, most significant digit
/// first, no leading zeroes.
pub open spec fn dec_spec(v: int) -> Seq<char>
    recommends
        v >= 0,
    decreases v,
{
    if v < 10 {
        seq![((48 + v) as u8) as char]
    } else {
        dec_spec(v / 10).push(((48 + (v % 10)) as u8) as char)
    }
}

/// Writes a number in decimal.
pub fn u32_to_decimal(v: u32) -> (r: String)
    ensures
        r@ == dec_spec(v as int),
    decreases v,
{
    if v < 10 {
        let c: char = ((48 + v) as u8) as char;
        let mut out = String::new();
        push_char(&mut out, c);
        proof {
            assert(Seq::<char>::empty().push(c) =~= seq![c]);
        }
        out
    } else {
        let mut out = u32_to_decimal(v / 10);
        let d = v % 10;
        let c: char = ((48 + d) as u8) as char;
        push_char(&mut out, c);
        out
    }
}

/// ASCII whitespace, as stripped from downloaded listing lines.
pub open spec fn is_ascii_ws(c: char) -> bool {
    c == ' ' || c == '\t' || c == '\n' || c == '\r'
}

/// `s` without its leading ASCII whitespace.
pub open spec fn trim_front_spec(s: Seq<char>) -> Seq<char>
    decreases s.len(),
{
    if s.len() > 0 && is_ascii_ws(s[0]) {
        trim_front_spec(s.drop_first())
    } else {
        s
    }
}

/// `s` without its trailing ASCII whitespace.
pub open spec fn trim_back_spec(s: Seq<char>) -> Seq<char>
    decreases s.len(),
{
    if s.len() > 0 && is_ascii_ws(s.last()) {
        trim_back_spec(s.drop_last())
    } else {
        s
    }
}

/// `s` without leading and trailing ASCII whitespace.
pub open spec fn trim_spec(s: Seq<char>) -> Seq<char> {
    trim_back_spec(trim_front_spec(s))
}

/// Is the character at position `i` ASCII whitespace?
fn ws_at(s: &str, i: usize) -> (r: bool)
    requires
        i < s@.len(),
    ensures
        r == is_ascii_ws(s@[i as int]),
{
    let c = s.get_char(i);
    c == ' ' || c == '\t' || c == '\n' || c == '\r'
}

/// Strips ASCII whitespace from both ends.
pub fn trim_ascii(s: &str) -> (r: String)
    ensures
        r@ == trim_spec(s@),
{
    let slen = s.unicode_len();
    let mut a: usize = 0;
    proof {
        assert(s@.skip(0) =~= s@);
    }
    while a < slen && ws_at(s, a)
        invariant
            slen == s@.len(),
            0 <= a <= slen,
            trim_front_spec(s@) == trim_front_spec(s@.skip(a as int)),
        decreases slen - a,
    {
        proof {
            assert(s@.skip(a as int)[0] == s@[a as int]);
            assert(s@.skip(a as int).drop_first() =~= s@.skip(a as int + 1));
        }
        a = a + 1;
    }
    proof {
        if a < slen {
            assert(s@.skip(a as int)[0] == s@[a as int]);
        }
        assert(trim_front_spec(s@) == s@.skip(a as int));
    }
    let ghost t = s@.skip(a as int);
    let mut b: usize = slen;
    proof {
        assert(t.take(b - a) =~= t);
    }
    while b > a && ws_at(s, b - 1)
        invariant
            slen == s@.len(),
            0 <= a <= b <= slen,
            t == s@.skip(a as int),
            trim_back_spec(t) == trim_back_spec(t.take(b - a)),
        decreases b,
    {
        proof {
            assert(t.take(b - a).last() == s@[b - 1]);
            assert(t.take(b - a).drop_last() =~= t.take(b - 1 - a));
        }
        b = b - 1;
    }
    proof {
        if b > a {
            assert(t.take(b - a).last() == s@[b - 1]);
        } else {
            assert(t.take(0) =~= Seq::<char>::empty());
        }
        assert(trim_back_spec(t.take(b - a)) == t.take(b - a));
        assert(t.take(b - a) =~= s@.subrange(a as int, b as int));
    }
    let piece = s.substring_char(a, b);
    piece.to_owned()
}

/// ASCII lower-casing of one character.
pub open spec fn lower_char(c: char) -> char {
    if 65 <= c as u32 <= 90 {
        ((c as u8) + 32) as char
    } else {
        c
    }
}

/// Lower-cases the ASCII letters of `s`, leaving every other character as is.
pub fn ascii_lower(s: &str) -> (r: String)
    ensures
        r@ == s@.map_values(|c: char| lower_char(c)),
{
    let slen = s.unicode_len();
    let mut out = String::new();
    let mut i: usize = 0;
    while i < slen
        invariant
            slen == s@.len(),
            0 <= i <= slen,
            out@ =~= s@.subrange(0, i as int).map_values(|c: char| lower_char(c)),
        decreases slen - i,
    {
        let c = s.get_char(i);
        let code = c as u32;
        let lc: char = if 65 <= code && code <= 90 {
            ((c as u8) + 32) as char
        } else {
            c
        };
        push_char(&mut out, lc);
        proof {
            assert(s@.subrange(0, i + 1).drop_last() =~= s@.subrange(0, i as int));
            assert(s@.subrange(0, i + 1).map_values(|c: char| lower_char(c)).drop_last() =~= s@
                .subrange(0, i as int).map_values(|c: char| lower_char(c)));
            assert(s@.subrange(0, i + 1).map_values(|c: char| lower_char(c)).last()
                == lower_char(s@[i as int]));
        }
        i = i + 1;
    }
    proof {
        assert(s@.subrange(0, slen as int) =~= s@);
    }
    out
}

/// POSIX-style path join: an absolute `rel` replaces `base`; otherwise the
/// two are glued with a single separator.
pub open spec fn join_spec(base: Seq<char>, rel: Seq<char>) -> Seq<char> {
    if base.len() == 0 || (rel.len() > 0 && rel[0] == '/') {
        rel
    } else if base.last() == '/' {
        base + rel
    } else {
        base + seq!['/'] + rel
    }
}

/// Joins two path fragments with a `/` separator.
pub fn path_join(base: &str, rel: &str) -> (r: String)
    ensures
        r@ == join_spec(base@, rel@),
{
    let blen = base.unicode_len();
    let rlen = rel.unicode_len();
    if blen == 0 || (rlen > 0 && rel.get_char(0) == '/') {
        return rel.to_owned();
    }
    let mut out = base.to_owned();
    if base.get_char(blen - 1) != '/' {
        out.append("/");
        proof {
            reveal_strlit("/");
            assert(base@ + "/"@ =~= base@ + seq!['/']);
        }
    }
    out.append(rel);
    proof {
        if base@.last() != '/' {
            assert((base@ + seq!['/']) + rel@ =~= base@ + seq!['/'] + rel@);
        }
    }
    out
}

} // verus!
