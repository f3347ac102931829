//! Version discovery: scanning a downloads listing for the newest version
//! triple, reading the runtime's reported major version, extracting the
//! latest-version element of a metadata document, and reading tag listings.
//!
//! The listing scanner walks the text character by character, collecting
//! `major.minor.patch` triples whose components are digit runs that fit in
//! a `u32`; a malformed or oversized component makes the scanner drop the
//! candidate and carry on.  The newest triple is chosen by numeric,
//! component-wise comparison — never by string order.

use vstd::prelude::*;
use crate::error::BridgeError;
use crate::json::{Json, Jv, spec_obj_get, obj_get};
use crate::strutil::{
    all_digits, digit_val, digits_val, is_digit, match_at, parse_u32_range, trim_ascii, trim_spec,
    replace, replace_all,
};

verus! {

/// Numeric, component-wise order on version triples.
pub open spec fn ver_lt(a: (u32, u32, u32), b: (u32, u32, u32)) -> bool {
    ||| a.0 < b.0
    ||| (a.0 == b.0 && a.1 < b.1)
    ||| (a.0 == b.0 && a.1 == b.1 && a.2 < b.2)
}

/// The newer of a running best and a fresh candidate.
pub open spec fn ver_max(best: Option<(u32, u32, u32)>, v: (u32, u32, u32)) -> Option<
    (u32, u32, u32),
> {
    match best {
        None => Some(v),
        Some(m) => if ver_lt(m, v) {
            Some(v)
        } else {
            Some(m)
        },
    }
}

/// Scanner state: the digit run being read, the two completed components
/// of the candidate triple, and the newest triple seen so far.
pub struct ScanState {
    pub buf: Seq<char>,
    pub s0: Option<u32>,
    pub s1: Option<u32>,
    pub best: Option<(u32, u32, u32)>,
}

/// Scanner start state.
pub open spec fn init_scan() -> ScanState {
    ScanState { buf: Seq::empty(), s0: None, s1: None, best: None }
}

/// The digit run read so far fits in a `u32`.
pub open spec fn buf_fits(buf: Seq<char>) -> bool {
    digits_val(buf) <= u32::MAX
}

/// One scanner step.  A digit extends the current run; a dot completes a
/// component (dropping the candidate when the run is empty, a third dot
/// arrives, or the component does not fit); any other character closes a
/// candidate, recording the triple when both components and a fitting
/// final run are present.
pub open spec fn scan_step(st: ScanState, c: char) -> ScanState {
    if is_digit(c) {
        ScanState { buf: st.buf.push(c), s0: st.s0, s1: st.s1, best: st.best }
    } else if c == '.' {
        if st.s0 is None && st.buf.len() > 0 {
            if buf_fits(st.buf) {
                ScanState {
                    buf: Seq::empty(),
                    s0: Some(digits_val(st.buf) as u32),
                    s1: st.s1,
                    best: st.best,
                }
            } else {
                ScanState { buf: Seq::empty(), s0: None, s1: None, best: st.best }
            }
        } else if st.s1 is None && st.buf.len() > 0 {
            if buf_fits(st.buf) {
                ScanState {
                    buf: Seq::empty(),
                    s0: st.s0,
                    s1: Some(digits_val(st.buf) as u32),
                    best: st.best,
                }
            } else {
                ScanState { buf: Seq::empty(), s0: None, s1: None, best: st.best }
            }
        } else {
            ScanState { buf: Seq::empty(), s0: None, s1: None, best: st.best }
        }
    } else {
        let nb = if st.s0 is Some && st.s1 is Some && st.buf.len() > 0 && buf_fits(st.buf) {
            ver_max(st.best, (st.s0->0, st.s1->0, digits_val(st.buf) as u32))
        } else {
            st.best
        };
        ScanState { buf: Seq::empty(), s0: None, s1: None, best: nb }
    }
}

/// Scanner state after the first `i` characters of `s`.
pub open spec fn scan_upto(s: Seq<char>, i: int) -> ScanState
    decreases i,
{
    if i <= 0 {
        init_scan()
    } else {
        scan_step(scan_upto(s, i - 1), s[i - 1])
    }
}

/// The newest version triple embedded in `s`, if the scanner finds one.
/// A triple at the very end of the text does not count: only a following
/// non-version character closes a candidate.
pub open spec fn scan_versions(s: Seq<char>) -> Option<(u32, u32, u32)> {
    scan_upto(s, s.len() as int).best
}

proof fn lemma_digits_val_push(buf: Seq<char>, c: char)
    ensures
        digits_val(buf.push(c)) == digits_val(buf) * 10 + digit_val(c),
{
    assert(buf.push(c).drop_last() =~= buf);
    assert(buf.push(c).last() == c);
}

proof fn lemma_all_digits_push(buf: Seq<char>, c: char)
    requires
        all_digits(buf),
        is_digit(c),
    ensures
        all_digits(buf.push(c)),
{
    assert forall|k: int| 0 <= k < buf.push(c).len() implies is_digit(#[trigger] buf.push(c)[k]) by {
        if k < buf.len() {
            assert(buf.push(c)[k] == buf[k]);
        } else {
            assert(buf.push(c)[k] == c);
        }
    }
}

/// Scans a downloads listing for embedded version triples and returns the
/// numerically greatest one.
pub fn max_version_in_text(s: &str) -> (r: Option<(u32, u32, u32)>)
    ensures
        r == scan_versions(s@),
{
    let slen = s.unicode_len();
    let mut buf_nonempty: bool = false;
    let mut buf_ok: bool = true;
    let mut buf_val: u32 = 0;
    let mut s0: Option<u32> = None;
    let mut s1: Option<u32> = None;
    let mut best: Option<(u32, u32, u32)> = None;
    let mut i: usize = 0;
    while i < slen
        invariant
            slen == s@.len(),
            0 <= i <= slen,
            all_digits(scan_upto(s@, i as int).buf),
            buf_nonempty == (scan_upto(s@, i as int).buf.len() > 0),
            buf_ok == buf_fits(scan_upto(s@, i as int).buf),
            buf_ok ==> buf_val == digits_val(scan_upto(s@, i as int).buf),
            s0 == scan_upto(s@, i as int).s0,
            s1 == scan_upto(s@, i as int).s1,
            best == scan_upto(s@, i as int).best,
        decreases slen - i,
    {
        let ghost st = scan_upto(s@, i as int);
        let c = s.get_char(i);
        let code = c as u32;
        proof {
            assert(scan_upto(s@, i + 1) == scan_step(st, s@[i as int]));
        }
        if 48 <= code && code <= 57 {
            let d: u32 = code - 48;
            proof {
                lemma_digits_val_push(st.buf, c);
                lemma_all_digits_push(st.buf, c);
            }
            if buf_ok {
                let nv: u64 = (buf_val as u64) * 10 + (d as u64);
                if nv > u32::MAX as u64 {
                    buf_ok = false;
                } else {
                    buf_val = nv as u32;
                }
            } else {
                proof {
                    assert(digits_val(st.buf) * 10 + digit_val(c) > u32::MAX) by (nonlinear_arith)
                        requires
                            digits_val(st.buf) > u32::MAX,
                            digit_val(c) >= 0,
                    ;
                }
            }
            buf_nonempty = true;
        } else if c == '.' {
            if s0.is_none() && buf_nonempty {
                if buf_ok {
                    s0 = Some(buf_val);
                } else {
                    s0 = None;
                    s1 = None;
                }
            } else if s1.is_none() && buf_nonempty {
                if buf_ok {
                    s1 = Some(buf_val);
                } else {
                    s0 = None;
                    s1 = None;
                }
            } else {
                s0 = None;
                s1 = None;
            }
            buf_nonempty = false;
            buf_ok = true;
            buf_val = 0;
        } else {
            if let (Some(a), Some(b)) = (s0, s1) {
                if buf_nonempty && buf_ok {
                    let cand = (a, b, buf_val);
                    best = match best {
                        None => Some(cand),
                        Some(m) => {
                            if m.0 < cand.0 || (m.0 == cand.0 && (m.1 < cand.1 || (m.1 == cand.1
                                && m.2 < cand.2))) {
                                Some(cand)
                            } else {
                                Some(m)
                            }
                        },
                    };
                }
            }
            s0 = None;
            s1 = None;
            buf_nonempty = false;
            buf_ok = true;
            buf_val = 0;
        }
        i = i + 1;
    }
    best
}

/// The dotted spelling of a version triple.
pub fn version_string(major: u32, minor: u32, patch: u32) -> (r: String)
    ensures
        r@ == crate::strutil::dec_spec(major as int) + seq!['.'] + crate::strutil::dec_spec(
            minor as int,
        ) + seq!['.'] + crate::strutil::dec_spec(patch as int),
{
    let mut out = crate::strutil::u32_to_decimal(major);
    crate::strutil::push_char(&mut out, '.');
    let m = crate::strutil::u32_to_decimal(minor);
    out.append(m.as_str());
    crate::strutil::push_char(&mut out, '.');
    let p = crate::strutil::u32_to_decimal(patch);
    out.append(p.as_str());
    proof {
        assert(out@ =~= crate::strutil::dec_spec(major as int) + seq!['.']
            + crate::strutil::dec_spec(minor as int) + seq!['.'] + crate::strutil::dec_spec(
            patch as int,
        ));
    }
    out
}

/// Whitespace as matched between the `version` keyword and the quoted
/// version string in the runtime's output.
pub open spec fn is_major_ws(c: char) -> bool {
    c == ' ' || c == '\t' || c == '\n' || c == '\r' || c as u32 == 11 || c as u32 == 12
}

/// A `version "<digits>` occurrence starts at position `i`.
pub open spec fn major_pat_at(s: Seq<char>, i: int) -> bool {
    &&& match_at(s, "version"@, i)
    &&& i + 9 < s.len()
    &&& is_major_ws(s[i + 7])
    &&& s[i + 8] == '"'
    &&& is_digit(s[i + 9])
}

/// End of the digit run starting at `j`.
pub open spec fn digit_run_end(s: Seq<char>, j: int) -> int
    recommends
        0 <= j <= s.len(),
    decreases s.len() - j,
{
    if j < s.len() && is_digit(s[j]) {
        digit_run_end(s, j + 1)
    } else {
        j
    }
}

/// The numeric value of the version occurrence at `i`.
pub open spec fn major_val_at(s: Seq<char>, i: int) -> int {
    digits_val(s.subrange(i + 9, digit_run_end(s, i + 9)))
}

/// A usable version occurrence: the pattern matches and its value fits.
pub open spec fn major_ok_at(s: Seq<char>, i: int) -> bool {
    major_pat_at(s, i) && major_val_at(s, i) <= u32::MAX
}

proof fn lemma_digit_run_end(s: Seq<char>, j: int, e: int)
    requires
        0 <= j <= e <= s.len(),
        forall|k: int| j <= k < e ==> is_digit(#[trigger] s[k]),
        e == s.len() || !is_digit(s[e]),
    ensures
        digit_run_end(s, j) == e,
    decreases e - j,
{
    if j < e {
        lemma_digit_run_end(s, j + 1, e);
    }
}

/// Reads the major version out of the runtime's `-version` output: the
/// digits that follow the first `version "` occurrence whose value fits in
/// a `u32`.
pub fn parse_major_version(output: &str) -> (r: Option<u32>)
    ensures
        match r {
            Some(v) => exists|i: int|
                #[trigger] major_ok_at(output@, i) && v == major_val_at(output@, i) && forall|
                    j: int,
                |
                    0 <= j < i ==> !major_ok_at(output@, j),
            None => forall|i: int| !(#[trigger] major_ok_at(output@, i)),
        },
{
    proof {
        reveal_strlit("version");
    }
    let slen = output.unicode_len();
    let mut i: usize = 0;
    while i < slen
        invariant
            slen == output@.len(),
            0 <= i <= slen,
            forall|j: int| 0 <= j < i ==> !(#[trigger] major_ok_at(output@, j)),
        decreases slen - i,
    {
        let is_pat: bool = if crate::strutil::eq_at(output, "version", i) && slen - i > 9 {
            let w = output.get_char(i + 7);
            let q = output.get_char(i + 8);
            let d0 = output.get_char(i + 9);
            let wc = w as u32;
            (w == ' ' || w == '\t' || w == '\n' || w == '\r' || wc == 11 || wc == 12) && q == '"'
                && 48 <= d0 as u32 && d0 as u32 <= 57
        } else {
            false
        };
        if is_pat {
            let start = i + 9;
            let mut e: usize = start;
            while e < slen && digit_at(output, e)
                invariant
                    slen == output@.len(),
                    start <= e <= slen,
                    forall|k: int| start <= k < e ==> is_digit(#[trigger] output@[k]),
                decreases slen - e,
            {
                e = e + 1;
            }
            proof {
                lemma_digit_run_end(output@, start as int, e as int);
            }
            match parse_u32_range(output, start, e) {
                Some(v) => {
                    proof {
                        assert(major_ok_at(output@, i as int));
                    }
                    return Some(v);
                },
                None => {
                    proof {
                        assert(is_digit(output@[start as int]));
                        assert(start < e);
                        assert(all_digits(output@.subrange(start as int, e as int))) by {
                            assert(forall|k: int|
                                0 <= k < e - start ==> output@.subrange(start as int, e as int)[k]
                                    == #[trigger] output@[start + k]);
                        }
                        assert(!major_ok_at(output@, i as int));
                    }
                },
            }
        }
        proof {
            if !is_pat {
                assert(!major_pat_at(output@, i as int));
            }
        }
        i = i + 1;
    }
    None
}

/// Is the character at `i` a decimal digit?
fn digit_at(s: &str, i: usize) -> (r: bool)
    requires
        i < s@.len(),
    ensures
        r == is_digit(s@[i as int]),
{
    let c = s.get_char(i);
    48 <= c as u32 && c as u32 <= 57
}

/// `i` is the leftmost occurrence of `pat` in `s`.
pub open spec fn found_at(s: Seq<char>, pat: Seq<char>, i: int) -> bool {
    match_at(s, pat, i) && forall|j: int| 0 <= j < i ==> !match_at(s, pat, j)
}

/// The latest version named by a metadata document: the trimmed text
/// between the first `<latest>` and the first following `</latest>`.
pub open spec fn spec_latest_of_metadata(s: Seq<char>) -> Option<Seq<char>> {
    if exists|i: int| #[trigger] found_at(s, "<latest>"@, i) {
        let i = choose|i: int| #[trigger] found_at(s, "<latest>"@, i);
        let rest = s.skip(i + 8);
        if exists|j: int| #[trigger] found_at(rest, "</latest>"@, j) {
            let j = choose|j: int| #[trigger] found_at(rest, "</latest>"@, j);
            Some(trim_spec(rest.subrange(0, j)))
        } else {
            None
        }
    } else {
        None
    }
}

/// Extracts the latest version from a metadata document.
pub fn extract_latest_version(xml: &str) -> (r: Result<String, BridgeError>)
    ensures
        match r {
            Ok(v) => spec_latest_of_metadata(xml@) == Some(v@),
            Err(e) => e == BridgeError::MalformedMetadata && spec_latest_of_metadata(xml@) is None,
        },
{
    proof {
        reveal_strlit("<latest>");
        reveal_strlit("</latest>");
    }
    let slen = xml.unicode_len();
    match crate::strutil::find_sub(xml, "<latest>") {
        None => {
            proof {
                assert(forall|i: int| !(#[trigger] found_at(xml@, "<latest>"@, i)));
            }
            Err(BridgeError::MalformedMetadata)
        },
        Some(i) => {
            proof {
                assert(found_at(xml@, "<latest>"@, i as int));
            }
            let rest = xml.substring_char(i + 8, slen);
            proof {
                assert(rest@ =~= xml@.skip(i + 8));
            }
            match crate::strutil::find_sub(rest, "</latest>") {
                None => {
                    proof {
                        assert(forall|j: int| !(#[trigger] found_at(xml@.skip(i + 8), "</latest>"@, j)));
                    }
                    Err(BridgeError::MalformedMetadata)
                },
                Some(j) => {
                    proof {
                        assert(found_at(xml@.skip(i + 8), "</latest>"@, j as int));
                    }
                    let content = rest.substring_char(0, j);
                    let trimmed = trim_ascii(content);
                    proof {
                        assert(content@ =~= xml@.skip(i + 8).subrange(0, j as int));
                        let wi = choose|w: int| #[trigger] found_at(xml@, "<latest>"@, w);
                        assert(wi == i as int);
                        let wj = choose|w: int|
                            #[trigger] found_at(xml@.skip(i + 8), "</latest>"@, w);
                        assert(wj == j as int);
                    }
                    Ok(trimmed)
                },
            }
        },
    }
}

/// The install directory named by a `latest.txt` build line: the line with
/// its `tar.gz` suffix removed and surrounding whitespace trimmed.
pub open spec fn spec_build_directory(latest_txt: Seq<char>) -> Seq<char> {
    trim_spec(replace_all(latest_txt, "tar.gz"@, Seq::empty()))
}

/// Derives the install directory name from a `latest.txt` build line.
pub fn build_directory_of(latest_txt: &str) -> (r: String)
    ensures
        r@ == spec_build_directory(latest_txt@),
{
    proof {
        reveal_strlit("tar.gz");
        reveal_strlit("");
        assert(""@ =~= Seq::<char>::empty());
    }
    let stripped = replace(latest_txt, "tar.gz", "");
    trim_ascii(stripped.as_str())
}

/// The tag name at position `i` of a tag-listing document, with its first
/// character (the `v` prefix) dropped: present when the document is an
/// array, position `i` holds an object whose `name` member is a non-empty
/// string.
pub open spec fn spec_tag_at(v: Jv, i: int) -> Option<Seq<char>> {
    match v {
        Jv::Arr(items) => if 0 <= i < items.len() {
            match spec_obj_get(items[i], "name"@) {
                Some(Jv::Str(n)) => if n.len() > 0 {
                    Some(n.drop_first())
                } else {
                    None
                },
                _ => None,
            }
        } else {
            None
        },
        _ => None,
    }
}

/// Reads the tag name at position `i`, without its leading prefix
/// character.
pub fn tag_at(tags: &Json, i: usize) -> (r: Option<String>)
    ensures
        match r {
            Some(n) => spec_tag_at(tags@, i as int) == Some(n@),
            None => spec_tag_at(tags@, i as int) is None,
        },
{
    if let Json::Arr(items) = tags {
        proof {
            crate::json::lemma_jv_of_seq_index(items@);
        }
        if i < items.len() {
            if let Some(Json::Str(n)) = obj_get(&items[i], "name") {
                let nlen = n.as_str().unicode_len();
                if nlen > 0 {
                    let rest = n.as_str().substring_char(1, nlen);
                    proof {
                        assert(rest@ =~= n@.drop_first());
                    }
                    return Some(rest.to_owned());
                }
            }
        }
        return None;
    }
    None
}

/// The latest and second-latest versions a tag listing names.
pub open spec fn spec_latest_tags(v: Jv) -> Result<(Seq<char>, Option<Seq<char>>), BridgeError> {
    match spec_tag_at(v, 0) {
        Some(latest) => Ok(
            (
                latest,
                match spec_tag_at(v, 1) {
                    Some(second) => Some(second),
                    None => None,
                },
            ),
        ),
        None => Err(BridgeError::MalformedTags),
    }
}

/// Reads the latest and, when available, second-latest version from a tag
/// listing.  A listing whose first entry is unusable is malformed.
pub fn get_latest_versions_from_tag(tags: &Json) -> (r: Result<
    (String, Option<String>),
    BridgeError,
>)
    ensures
        match r {
            Ok(p) => spec_latest_tags(tags@) == Ok::<(Seq<char>, Option<Seq<char>>), BridgeError>(
                (
                    p.0@,
                    match p.1 {
                        Some(s) => Some(s@),
                        None => None,
                    },
                ),
            ),
            Err(e) => spec_latest_tags(tags@) == Err::<
                (Seq<char>, Option<Seq<char>>),
                BridgeError,
            >(e),
        },
{
    match tag_at(tags, 0) {
        Some(latest) => {
            let second = tag_at(tags, 1);
            Ok((latest, second))
        },
        None => Err(BridgeError::MalformedTags),
    }
}

} // verus!
