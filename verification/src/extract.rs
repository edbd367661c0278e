//! Small extractors over agent output text: the ticket selection tag and a
//! meeting title drawn from generated notes.

use vstd::prelude::*;
use crate::strutil::{
    find_from, first_match_from, lemma_first_match_some, lemma_first_match_none, spec_tag_segment,
    tag_segment, substr, trim, trim_of, lemma_ascii_byte_is_boundary, lemma_encode_empty,
};
use vstd::utf8::{
    encode_utf8, decode_utf8, is_ascii_chars, is_ascii_chars_encode_utf8, encode_utf8_valid_utf8,
};

verus! {

/// Extracts the ticket identifier an agent selected, written between the
/// selection tags; nothing when the tags are absent or hold only
/// whitespace.
pub fn parse_selected_ticket(text: &str) -> (r: Option<String>)
    ensures
        match spec_tag_segment(
            encode_utf8(text@),
            encode_utf8("<selected_ticket>"@),
            encode_utf8("</selected_ticket>"@),
            false,
        ) {
            None => r is None,
            Some(seg) => if trim_of(decode_utf8(seg)).len() == 0 {
                r is None
            } else {
                r matches Some(s) && s@ == trim_of(decode_utf8(seg))
            },
        },
{
    proof {
        reveal_strlit("<selected_ticket>");
        reveal_strlit("</selected_ticket>");
        assert(is_ascii_chars("<selected_ticket>"@));
        assert(is_ascii_chars("</selected_ticket>"@));
    }
    match tag_segment(text, "<selected_ticket>", "</selected_ticket>", false) {
        None => None,
        Some(s) => {
            if s.as_str().is_empty() {
                None
            } else {
                Some(s)
            }
        },
    }
}

/// The leading bytes that are heading or list marks: asterisks, hashes,
/// dashes and spaces.
pub open spec fn strip_marks(b: Seq<u8>) -> Seq<u8>
    decreases b.len(),
{
    if b.len() > 0 && (b[0] == '*' as u8 || b[0] == '#' as u8 || b[0] == '-' as u8 || b[0]
        == ' ' as u8) {
        strip_marks(b.drop_first())
    } else {
        b
    }
}

/// The first line of the text: the bytes up to the first newline, with a
/// carriage return preceding that newline dropped; the whole text when it
/// has no newline.
pub open spec fn first_line_bytes(b: Seq<u8>) -> Seq<u8> {
    match first_match_from(b, encode_utf8("\n"@), 0) {
        None => b,
        Some(i) => if 0 <= i <= b.len() {
            let line = b.subrange(0, i);
            if line.len() > 0 && line.last() == '\r' as u8 {
                line.drop_last()
            } else {
                line
            }
        } else {
            b
        },
    }
}

/// The fallback title drawn from the first line: trimmed, with leading
/// heading marks removed, kept only when non-blank and shorter than a
/// hundred bytes.
pub open spec fn fallback_title_ok(notes_bytes: Seq<u8>, r: Option<String>) -> bool {
    let fl = first_line_bytes(notes_bytes);
    let cleaned = strip_marks(encode_utf8(trim_of(decode_utf8(fl))));
    if cleaned.len() > 0 && (cleaned.len() as usize) < 100 {
        r matches Some(s) && encode_utf8(s@) == cleaned
    } else {
        r is None
    }
}

/// Derives a meeting title from generated notes: the text of the first
/// issue heading when one is present and non-blank, else the first line
/// with surrounding whitespace and leading heading marks removed, kept only
/// when it is non-blank and shorter than a hundred bytes.
pub fn generate_meeting_title(notes: &str) -> (r: Option<String>)
    ensures
        match spec_tag_segment(
            encode_utf8(notes@),
            encode_utf8("**Issue 1:"@),
            encode_utf8("**"@),
            true,
        ) {
            Some(seg) => if trim_of(decode_utf8(seg)).len() > 0 {
                r matches Some(s) && s@ == trim_of(decode_utf8(seg))
            } else {
                fallback_title_ok(encode_utf8(notes@), r)
            },
            None => fallback_title_ok(encode_utf8(notes@), r),
        },
{
    proof {
        reveal_strlit("**Issue 1:");
        reveal_strlit("**");
        assert(is_ascii_chars("**Issue 1:"@));
        assert(is_ascii_chars("**"@));
    }
    match tag_segment(notes, "**Issue 1:", "**", true) {
        Some(t) => {
            if !t.as_str().is_empty() {
                return Some(t);
            }
        },
        None => (),
    }
    proof {
        reveal_strlit("\n");
        assert(is_ascii_chars("\n"@));
        is_ascii_chars_encode_utf8("\n"@);
        encode_utf8_valid_utf8(notes@);
    }
    let nb = notes.as_bytes();
    let nblen: usize = nb.len();
    let newline = "\n".as_bytes();
    let ghost bts = encode_utf8(notes@);
    let mut end: usize = nblen;
    match find_from(nb, newline, 0) {
        None => {
            proof {
                lemma_first_match_none(nb@, newline@, 0);
                assert(bts.subrange(0, nblen as int) =~= bts);
                assert(first_line_bytes(bts) == bts.subrange(0, end as int));
                vstd::utf8::is_char_boundary_start_end_of_seq(bts);
            }
        },
        Some(i) => {
            proof {
                lemma_first_match_some(nb@, newline@, 0, i as int);
                assert(nb@[i as int] == encode_utf8("\n"@)[0]);
            }
            if i > 0 && nb[i - 1] == 13 {
                end = i - 1;
                proof {
                    lemma_ascii_byte_is_boundary(bts, i - 1);
                    assert(bts.subrange(0, i as int).drop_last() =~= bts.subrange(0, (i - 1) as int));
                    assert(bts.subrange(0, i as int).last() == bts[i - 1]);
                    assert(first_line_bytes(bts) == bts.subrange(0, end as int));
                }
            } else {
                end = i;
                proof {
                    lemma_ascii_byte_is_boundary(bts, i as int);
                    if i > 0 {
                        assert(bts.subrange(0, i as int).last() == bts[i - 1]);
                    }
                    assert(first_line_bytes(bts) == bts.subrange(0, end as int));
                }
            }
        },
    };
    let first_line = substr(notes, 0, end);
    proof {
        assert(encode_utf8(first_line@) == first_line_bytes(bts));
    }
    let trimmed = trim(first_line.as_str()).to_owned();
    let tb = trimmed.as_str().as_bytes();
    let tlen: usize = tb.len();
    proof {
        encode_utf8_valid_utf8(trimmed@);
    }
    let mut k: usize = 0;
    proof {
        assert(tb@.subrange(0, tlen as int) =~= tb@);
    }
    #[verifier::loop_isolation(false)]
    while k < tlen && (tb[k] == 42 || tb[k] == 35 || tb[k] == 45 || tb[k] == 32)
        invariant
            0 <= k <= tlen,
            strip_marks(tb@) == strip_marks(tb@.subrange(k as int, tlen as int)),
            forall|t: int| 0 <= t < k ==> tb@[t] < 0x80,
        decreases tlen - k,
    {
        proof {
            let cur = tb@.subrange(k as int, tlen as int);
            let nxt = tb@.subrange(k + 1, tlen as int);
            assert(cur.drop_first() =~= nxt);
            assert(cur[0] == tb@[k as int]);
        }
        k = k + 1;
    }
    proof {
        let cur = tb@.subrange(k as int, tlen as int);
        if k < tlen {
            assert(cur[0] == tb@[k as int]);
        }
        assert(strip_marks(cur) == cur);
        if k < tlen {
            assert(!(tb@[k as int] == '*' as u8 || tb@[k as int] == '#' as u8 || tb@[k as int]
                == '-' as u8 || tb@[k as int] == ' ' as u8));
            assert(tb@[k as int] < 0x80 || tb@[k as int] >= 0x80);
        }
        if k > 0 {
            assert(tb@[k - 1] < 0x80);
        }
        lemma_ascii_run_boundary_from_zero(encode_utf8(trimmed@), k as int);
        vstd::utf8::is_char_boundary_start_end_of_seq(encode_utf8(trimmed@));
    }
    let cleaned = substr(trimmed.as_str(), k, tlen);
    let clen: usize = cleaned.as_str().len();
    proof {
        lemma_encode_empty(cleaned@);
    }
    if !cleaned.as_str().is_empty() && clen < 100 {
        Some(cleaned)
    } else {
        None
    }
}

/// Bytes skipped from the start of a valid sequence that are all ASCII
/// leave the scan on a character boundary.
proof fn lemma_ascii_run_boundary_from_zero(bytes: Seq<u8>, k: int)
    requires
        vstd::utf8::valid_utf8(bytes),
        0 <= k <= bytes.len(),
        forall|t: int| 0 <= t < k ==> bytes[t] < 0x80,
    ensures
        vstd::utf8::is_char_boundary(bytes, k),
{
    crate::strutil::lemma_boundary_after_ascii_run(bytes, 0, k);
}

} // verus!
