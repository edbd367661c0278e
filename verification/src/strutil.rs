//! Byte-level string utilities: equality, substring search, and substring
//! extraction, each with an exact contract over the underlying bytes.

use vstd::prelude::*;
use vstd::utf8::{
    encode_utf8, decode_utf8, valid_utf8, is_char_boundary, is_continuation_byte,
    encode_utf8_valid_utf8, encode_utf8_decode_utf8, valid_utf8_split, decode_utf8_split,
    is_char_boundary_iff_not_is_continuation_byte, is_char_boundary_start_end_of_seq,
    length_of_first_scalar, pop_first_scalar, valid_first_scalar, is_ascii_chars,
    is_ascii_chars_encode_utf8, is_ascii_chars_nat_bound,
};
use vstd::string::StringSliceAdditionalSpecFns;
use vstd::string::StringExecFns;

verus! {

/// True when `n` occurs in `h` starting at byte position `i`.
pub open spec fn matches_at(h: Seq<u8>, n: Seq<u8>, i: int) -> bool {
    &&& 0 <= i
    &&& i + n.len() <= h.len()
    &&& forall|k: int| 0 <= k < n.len() ==> h[i + k] == n[k]
}

/// Compares two byte slices for equality.
pub fn bytes_eq(a: &[u8], b: &[u8]) -> (r: bool)
    ensures
        r == (a@ == b@),
{
    if a.len() != b.len() {
        return false;
    }
    let n: usize = a.len();
    let mut i: usize = 0;
    while i < n
        invariant
            0 <= i <= n,
            n == a@.len() == b@.len(),
            forall|k: int| 0 <= k < i ==> a@[k] == b@[k],
        decreases n - i,
    {
        if a[i] != b[i] {
            return false;
        }
        i = i + 1;
    }
    proof {
        assert(a@ =~= b@);
    }
    true
}

/// Compares two string slices for equality of their character sequences.
pub fn str_eq(a: &str, b: &str) -> (r: bool)
    ensures
        r == (a@ == b@),
{
    let r = bytes_eq(a.as_bytes(), b.as_bytes());
    proof {
        if a.spec_bytes() == b.spec_bytes() {
            encode_utf8_decode_utf8(a@);
            encode_utf8_decode_utf8(b@);
        }
    }
    r
}

/// Finds the first occurrence of `needle` in `haystack` at or after byte
/// position `from`.
pub fn find_from(haystack: &[u8], needle: &[u8], from: usize) -> (r: Option<usize>)
    ensures
        match r {
            Some(i) => {
                &&& from <= i
                &&& matches_at(haystack@, needle@, i as int)
                &&& forall|j: int| from <= j < i ==> !matches_at(haystack@, needle@, j)
            },
            None => forall|j: int| from <= j ==> !matches_at(haystack@, needle@, j),
        },
{
    let h_len: usize = haystack.len();
    let n_len: usize = needle.len();
    if n_len > h_len || from > h_len - n_len {
        return None;
    }
    let last: usize = h_len - n_len;
    let mut i: usize = from;
    while i <= last
        invariant
            from <= i,
            i <= last + 1,
            last == h_len - n_len,
            h_len == haystack@.len(),
            n_len == needle@.len(),
            n_len <= h_len,
            forall|j: int| from <= j < i ==> !matches_at(haystack@, needle@, j),
        decreases last + 1 - i,
    {
        let mut k: usize = 0;
        let mut hit: bool = true;
        while k < n_len
            invariant
                0 <= k <= n_len,
                i + n_len <= h_len,
                h_len == haystack@.len(),
                n_len == needle@.len(),
                hit ==> forall|t: int| 0 <= t < k ==> haystack@[i + t] == needle@[t],
                !hit ==> !matches_at(haystack@, needle@, i as int),
            decreases n_len - k,
        {
            if haystack[i + k] != needle[k] {
                hit = false;
                proof {
                    assert(haystack@[i + k] != needle@[k as int]);
                    assert(!matches_at(haystack@, needle@, i as int));
                }
                k = n_len;
            } else {
                k = k + 1;
            }
        }
        if hit {
            return Some(i);
        }
        proof {
            assert(!matches_at(haystack@, needle@, i as int));
        }
        i = i + 1;
    }
    proof {
        assert(forall|j: int| from <= j ==> !matches_at(haystack@, needle@, j)) by {
            assert(forall|j: int| j > last ==> !matches_at(haystack@, needle@, j));
        }
    }
    None
}

/// The first position at or after `from` where `n` occurs in `h`, if any.
pub open spec fn first_match_from(h: Seq<u8>, n: Seq<u8>, from: int) -> Option<int>
    decreases h.len() - from,
{
    if from < 0 || from + n.len() > h.len() {
        None
    } else if matches_at(h, n, from) {
        Some(from)
    } else {
        first_match_from(h, n, from + 1)
    }
}

/// A match with no earlier match is the first match.
pub proof fn lemma_first_match_some(h: Seq<u8>, n: Seq<u8>, from: int, i: int)
    requires
        0 <= from <= i,
        matches_at(h, n, i),
        forall|j: int| from <= j < i ==> !matches_at(h, n, j),
    ensures
        first_match_from(h, n, from) == Some(i),
    decreases i - from,
{
    if from < i {
        lemma_first_match_some(h, n, from + 1, i);
    }
}

/// No match anywhere at or after `from` means no first match.
pub proof fn lemma_first_match_none(h: Seq<u8>, n: Seq<u8>, from: int)
    requires
        0 <= from,
        forall|j: int| from <= j ==> !matches_at(h, n, j),
    ensures
        first_match_from(h, n, from) == None::<int>,
    decreases h.len() - from,
{
    if from + n.len() <= h.len() {
        lemma_first_match_none(h, n, from + 1);
    }
}

/// What `str::trim` returns for the given characters.
pub uninterp spec fn trim_of(s: Seq<char>) -> Seq<char>;

/// Relies on `str::trim`: returns the string slice with leading and
/// trailing whitespace removed.  The result depends on the characters
/// alone.
#[verifier::external_body]
pub(crate) fn trim(s: &str) -> (r: &str)
    ensures
        r@ == trim_of(s@),
        r@.len() <= s@.len(),
        s@.len() == 0 ==> r@.len() == 0,
{
    s.trim()
}

/// What `str::to_uppercase` returns for the given characters.
pub uninterp spec fn upper_of(s: Seq<char>) -> Seq<char>;

/// Relies on `str::to_uppercase`: returns the Unicode uppercase equivalent
/// of the string.  The result depends on the characters alone.
#[verifier::external_body]
pub(crate) fn to_upper(s: &str) -> (r: String)
    ensures
        r@ == upper_of(s@),
        s@.len() == 0 ==> r@.len() == 0,
{
    s.to_uppercase()
}

/// A position just after an ASCII byte of a valid UTF-8 sequence is a
/// character boundary.
proof fn lemma_boundary_after_ascii(bytes: Seq<u8>, p: int)
    requires
        valid_utf8(bytes),
        0 <= p < bytes.len(),
        bytes[p] < 0x80,
        is_char_boundary(bytes, p),
    ensures
        is_char_boundary(bytes, p + 1),
{
    if p + 1 == bytes.len() {
        is_char_boundary_start_end_of_seq(bytes);
    } else {
        valid_utf8_split(bytes, p);
        let suffix = bytes.subrange(p, bytes.len() as int);
        assert(suffix.len() > 0);
        assert(valid_first_scalar(suffix));
        assert(length_of_first_scalar(suffix) == 1);
        let rest = pop_first_scalar(suffix);
        assert(valid_utf8(rest));
        assert(rest.len() > 0);
        assert(rest[0] == bytes[p + 1]);
        assert(valid_first_scalar(rest));
        assert(!is_continuation_byte(bytes[p + 1]));
        is_char_boundary_iff_not_is_continuation_byte(bytes, p + 1);
    }
}

/// A run of ASCII bytes starting at a character boundary ends at a
/// character boundary.
pub proof fn lemma_boundary_after_ascii_run(bytes: Seq<u8>, p: int, q: int)
    requires
        valid_utf8(bytes),
        0 <= p <= q <= bytes.len(),
        is_char_boundary(bytes, p),
        forall|t: int| p <= t < q ==> bytes[t] < 0x80,
    ensures
        is_char_boundary(bytes, q),
    decreases q - p,
{
    if p < q {
        lemma_boundary_after_ascii(bytes, p);
        lemma_boundary_after_ascii_run(bytes, p + 1, q);
    }
}

/// A byte below 0x80 at some position of a valid UTF-8 sequence marks a
/// character boundary.
pub proof fn lemma_ascii_byte_is_boundary(bytes: Seq<u8>, p: int)
    requires
        valid_utf8(bytes),
        0 <= p <= bytes.len(),
        p < bytes.len() ==> bytes[p] < 0x80,
    ensures
        is_char_boundary(bytes, p),
{
    if p == bytes.len() {
        is_char_boundary_start_end_of_seq(bytes);
    } else {
        assert(!is_continuation_byte(bytes[p]));
        is_char_boundary_iff_not_is_continuation_byte(bytes, p);
    }
}

/// A character sequence is empty exactly when its encoding is empty.
pub proof fn lemma_encode_empty(s: Seq<char>)
    ensures
        (encode_utf8(s).len() == 0) == (s.len() == 0),
{
    if s.len() > 0 {
        vstd::utf8::encode_utf8_first_scalar(s);
        vstd::utf8::char_is_scalar(s[0]);
    }
}

/// Encoding a concatenation concatenates the encodings.
pub proof fn lemma_encode_concat(a: Seq<char>, b: Seq<char>)
    ensures
        encode_utf8(a + b) == encode_utf8(a) + encode_utf8(b),
    decreases a.len(),
{
    if a.len() == 0 {
        assert(a + b =~= b);
        assert(encode_utf8(a) + encode_utf8(b) =~= encode_utf8(b));
    } else {
        assert((a + b).drop_first() =~= a.drop_first() + b);
        assert((a + b)[0] == a[0]);
        lemma_encode_concat(a.drop_first(), b);
        assert(encode_utf8(a + b) =~= encode_utf8(a) + encode_utf8(b));
    }
}

/// A match inside the suffix starting at `pos` is a match in the whole
/// sequence, shifted.
pub proof fn lemma_match_shift(h: Seq<u8>, n: Seq<u8>, pos: int, j: int)
    requires
        0 <= pos <= h.len(),
        0 <= j,
    ensures
        matches_at(h.subrange(pos, h.len() as int), n, j) == matches_at(h, n, pos + j),
{
    let sub = h.subrange(pos, h.len() as int);
    if matches_at(sub, n, j) {
        assert(forall|k: int| 0 <= k < n.len() ==> h[pos + j + k] == #[trigger] n[k]) by {
            assert(forall|k: int| 0 <= k < n.len() ==> #[trigger] sub[j + k] == h[pos + j + k]);
        }
    }
    if matches_at(h, n, pos + j) {
        assert(forall|k: int| 0 <= k < n.len() ==> sub[j + k] == #[trigger] n[k]) by {
            assert(forall|k: int| 0 <= k < n.len() ==> #[trigger] sub[j + k] == h[pos + j + k]);
        }
    }
}

/// The result of replacing every non-overlapping occurrence of `n` in `h`
/// with `v`, scanning left to right.  An empty pattern replaces nothing.
pub open spec fn replace_all(h: Seq<u8>, n: Seq<u8>, v: Seq<u8>) -> Seq<u8>
    decreases h.len(),
{
    if n.len() == 0 {
        h
    } else {
        match first_match_from(h, n, 0) {
            None => h,
            Some(i) => if 0 <= i && i + n.len() <= h.len() {
                h.subrange(0, i) + v + replace_all(h.subrange(i + n.len(), h.len() as int), n, v)
            } else {
                h
            },
        }
    }
}

/// A first match lies within bounds and matches.
pub proof fn lemma_first_match_props(h: Seq<u8>, n: Seq<u8>, from: int, i: int)
    requires
        0 <= from,
        first_match_from(h, n, from) == Some(i),
    ensures
        from <= i,
        matches_at(h, n, i),
    decreases h.len() - from,
{
    if from + n.len() <= h.len() && !matches_at(h, n, from) {
        lemma_first_match_props(h, n, from + 1, i);
    }
}

/// Extracts the substring covering byte positions `start..end`, both of
/// which must be character boundaries.
pub fn substr(s: &str, start: usize, end: usize) -> (r: String)
    requires
        start <= end <= s.spec_bytes().len(),
        is_char_boundary(s.spec_bytes(), start as int),
        is_char_boundary(s.spec_bytes(), end as int),
    ensures
        r@ == decode_utf8(s.spec_bytes().subrange(start as int, end as int)),
        encode_utf8(r@) == s.spec_bytes().subrange(start as int, end as int),
{
    proof {
        encode_utf8_valid_utf8(s@);
        valid_utf8_split(s.spec_bytes(), end as int);
        decode_utf8_split(s.spec_bytes(), end as int);
    }
    let (head, _) = s.split_at(end);
    proof {
        let hb = s.spec_bytes().subrange(0, end as int);
        assert(head.spec_bytes() == hb);
        encode_utf8_decode_utf8(head@);
        assert(decode_utf8(hb) == head@);
        assert(is_char_boundary(hb, start as int)) by {
            if (start as int) < hb.len() {
                is_char_boundary_iff_not_is_continuation_byte(s.spec_bytes(), start as int);
                is_char_boundary_iff_not_is_continuation_byte(hb, start as int);
            } else {
                is_char_boundary_start_end_of_seq(hb);
            }
        }
        valid_utf8_split(hb, start as int);
        decode_utf8_split(hb, start as int);
    }
    let (_, tail) = head.split_at(start);
    proof {
        let tb = s.spec_bytes().subrange(start as int, end as int);
        assert(tail.spec_bytes() =~= tb);
        encode_utf8_decode_utf8(tail@);
        assert(tail@ == decode_utf8(tb));
        assert(encode_utf8(tail@) == tb);
    }
    tail.to_owned()
}

/// The bytes between the first occurrence of `open` and the first
/// occurrence of `close`, when both occur in that order; the search for
/// `close` starts at `close_from` (0 to search the whole text, or the end
/// of the opening tag to search only past it).
pub open spec fn spec_tag_segment(
    c: Seq<u8>,
    open: Seq<u8>,
    close: Seq<u8>,
    close_after_open: bool,
) -> Option<Seq<u8>> {
    match first_match_from(c, open, 0) {
        None => None,
        Some(s) => {
            let from = if close_after_open {
                s + open.len()
            } else {
                0
            };
            match first_match_from(c, close, from) {
                None => None,
                Some(e) => if s + open.len() <= e {
                    Some(c.subrange(s + open.len(), e))
                } else {
                    None
                },
            }
        },
    }
}

/// Extracts the text between the first occurrence of `open` and the first
/// occurrence of `close`, trimmed.  Both tags must be non-empty ASCII.
/// When `close_after_open` holds, the closing tag is searched only past the
/// opening one; otherwise over the whole text, so a closing tag standing
/// before the opening one makes the extraction fail.
pub(crate) fn tag_segment(c: &str, open: &str, close: &str, close_after_open: bool) -> (r: Option<
    String,
>)
    requires
        open@.len() > 0,
        is_ascii_chars(open@),
        close@.len() > 0,
        is_ascii_chars(close@),
    ensures
        (r is Some) == (spec_tag_segment(
            encode_utf8(c@),
            encode_utf8(open@),
            encode_utf8(close@),
            close_after_open,
        ) is Some),
        r matches Some(s) ==> s@ == trim_of(
            decode_utf8(
                spec_tag_segment(
                    encode_utf8(c@),
                    encode_utf8(open@),
                    encode_utf8(close@),
                    close_after_open,
                ).unwrap(),
            ),
        ),
{
    proof {
        encode_utf8_valid_utf8(c@);
        is_ascii_chars_encode_utf8(open@);
        is_ascii_chars_encode_utf8(close@);
        is_ascii_chars_nat_bound(open@);
        is_ascii_chars_nat_bound(close@);
    }
    let cb = c.as_bytes();
    let ob = open.as_bytes();
    let xb = close.as_bytes();
    let cblen: usize = cb.len();
    let s = match find_from(cb, ob, 0) {
        None => {
            proof {
                lemma_first_match_none(cb@, ob@, 0);
            }
            return None;
        },
        Some(v) => v,
    };
    proof {
        lemma_first_match_some(cb@, ob@, 0, s as int);
        assert(s + ob@.len() <= cblen);
    }
    let olen: usize = ob.len();
    let from: usize = if close_after_open {
        s + olen
    } else {
        0
    };
    let e = match find_from(cb, xb, from) {
        None => {
            proof {
                lemma_first_match_none(cb@, xb@, from as int);
            }
            return None;
        },
        Some(v) => v,
    };
    proof {
        lemma_first_match_some(cb@, xb@, from as int, e as int);
    }
    if s + olen <= e {
        proof {
            let bytes = encode_utf8(c@);
            assert(bytes[s + olen - 1] == encode_utf8(open@).last());
            lemma_ascii_byte_is_boundary(bytes, s + olen - 1);
            lemma_boundary_after_ascii_run(bytes, s + olen - 1, s + olen);
            assert(bytes[e as int] == encode_utf8(close@)[0]);
            lemma_ascii_byte_is_boundary(bytes, e as int);
        }
        let seg = substr(c, s + olen, e);
        Some(trim(seg.as_str()).to_owned())
    } else {
        None
    }
}

/// Replaces every non-overlapping occurrence of `needle` in `h` with
/// `value`, scanning left to right.  The pattern must begin and end with an
/// ASCII byte, which keeps every cut on a character boundary.
pub(crate) fn replace_all_str(h: &str, needle: &str, value: &str) -> (r: String)
    requires
        encode_utf8(needle@).len() > 0 ==> encode_utf8(needle@)[0] < 0x80,
        encode_utf8(needle@).len() > 0 ==> encode_utf8(needle@).last() < 0x80,
    ensures
        encode_utf8(r@) == replace_all(encode_utf8(h@), encode_utf8(needle@), encode_utf8(value@)),
{
    let hb = h.as_bytes();
    let nb = needle.as_bytes();
    let nlen: usize = nb.len();
    if nlen == 0 {
        return h.to_owned();
    }
    proof {
        encode_utf8_valid_utf8(h@);
    }
    let hlen: usize = hb.len();
    let mut out: String = String::new();
    let mut pos: usize = 0;
    let mut done: bool = false;
    let ghost hbs = encode_utf8(h@);
    let ghost nbs = encode_utf8(needle@);
    let ghost vbs = encode_utf8(value@);
    proof {
        assert(encode_utf8(out@) =~= Seq::<u8>::empty());
        assert(hbs.subrange(0, hlen as int) =~= hbs);
        is_char_boundary_start_end_of_seq(hbs);
    }
    #[verifier::loop_isolation(false)]
    while !done
        invariant
            0 <= pos <= hlen,
            is_char_boundary(hbs, pos as int),
            !done ==> encode_utf8(out@) + replace_all(
                hbs.subrange(pos as int, hlen as int),
                nbs,
                vbs,
            ) == replace_all(hbs, nbs, vbs),
            done ==> encode_utf8(out@) == replace_all(hbs, nbs, vbs),
        decreases hlen - pos + (if done { 0int } else { 1int }),
    {
        match find_from(hb, nb, pos) {
            None => {
                proof {
                    is_char_boundary_start_end_of_seq(hbs);
                }
                let tail = substr(h, pos, hlen);
                let ghost out_prev = out@;
                out.append(tail.as_str());
                proof {
                    let sub = hbs.subrange(pos as int, hlen as int);
                    assert forall|j: int| 0 <= j implies !matches_at(sub, nbs, j) by {
                        if j + nbs.len() <= sub.len() {
                            lemma_match_shift(hbs, nbs, pos as int, j);
                        }
                    }
                    lemma_first_match_none(sub, nbs, 0);
                    assert(replace_all(sub, nbs, vbs) == sub);
                    lemma_encode_concat(out_prev, tail@);
                    assert(encode_utf8(tail@) == sub);
                    assert(encode_utf8(out@) == encode_utf8(out_prev) + sub);
                }
                done = true;
            },
            Some(i) => {
                proof {
                    assert(hbs[i as int] == nbs[0]);
                    lemma_ascii_byte_is_boundary(hbs, i as int);
                    assert(hbs[i + nlen - 1] == nbs[nlen - 1]);
                    lemma_ascii_byte_is_boundary(hbs, i + nlen - 1);
                    lemma_boundary_after_ascii_run(hbs, i + nlen - 1, i + nlen);
                }
                let piece = substr(h, pos, i);
                let ghost out_prev = out@;
                out.append(piece.as_str());
                out.append(value);
                proof {
                    let sub = hbs.subrange(pos as int, hlen as int);
                    assert(matches_at(sub, nbs, i - pos)) by {
                        lemma_match_shift(hbs, nbs, pos as int, i - pos);
                    }
                    assert forall|j: int| 0 <= j < i - pos implies !matches_at(sub, nbs, j) by {
                        lemma_match_shift(hbs, nbs, pos as int, j);
                    }
                    lemma_first_match_some(sub, nbs, 0, i - pos);
                    assert(replace_all(sub, nbs, vbs) == sub.subrange(0, i - pos) + vbs
                        + replace_all(sub.subrange(i - pos + nlen, sub.len() as int), nbs, vbs));
                    assert(sub.subrange(0, i - pos) =~= hbs.subrange(pos as int, i as int));
                    assert(sub.subrange(i - pos + nlen, sub.len() as int) =~= hbs.subrange(
                        i + nlen,
                        hlen as int,
                    ));
                    lemma_encode_concat(out_prev, piece@);
                    lemma_encode_concat(out_prev + piece@, value@);
                    assert(out@ == out_prev + piece@ + value@);
                    assert(encode_utf8(piece@) == hbs.subrange(pos as int, i as int));
                    assert(encode_utf8(out@) == encode_utf8(out_prev) + hbs.subrange(
                        pos as int,
                        i as int,
                    ) + vbs);
                    assert(encode_utf8(out@) + replace_all(
                        hbs.subrange(i + nlen, hlen as int),
                        nbs,
                        vbs,
                    ) =~= encode_utf8(out_prev) + replace_all(sub, nbs, vbs));
                }
                pos = i + nlen;
            },
        }
    }
    out
}

} // verus!
