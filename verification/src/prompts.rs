//! Prompt templates: placeholder substitution and conditional blocks for
//! agent system prompts.
//!
//! A template names its variables as `{{NAME}}`; each variable's key is
//! uppercased to form its placeholder, and every occurrence is replaced by
//! the variable's value.  A conditional block names a variable exactly as
//! it is keyed and keeps its content only when that variable is set and
//! non-empty.  Reading a template file from disk happens outside this
//! crate; the rendering itself is pure.

use vstd::prelude::*;
use vstd::utf8::{
    encode_utf8, decode_utf8, is_ascii_chars, is_ascii_chars_encode_utf8,
    encode_utf8_valid_utf8, is_char_boundary, is_char_boundary_start_end_of_seq,
};
use crate::strutil::{
    replace_all, replace_all_str, to_upper, upper_of, lemma_encode_concat, find_from,
    first_match_from, lemma_first_match_some, lemma_first_match_none, lemma_match_shift,
    matches_at, substr, str_eq, lemma_ascii_byte_is_boundary, lemma_boundary_after_ascii_run,
};
use vstd::string::StringExecFns;

verus! {

/// The placeholder a variable key forms in a template.
pub open spec fn placeholder_chars(key: Seq<char>) -> Seq<char> {
    "{{"@ + upper_of(key) + "}}"@
}

/// The template after substituting the variables in order: each variable's
/// placeholder is replaced everywhere by its value before the next variable
/// is applied.
pub open spec fn spec_substituted(t: Seq<u8>, vars: Seq<(String, String)>) -> Seq<u8>
    decreases vars.len(),
{
    if vars.len() == 0 {
        t
    } else {
        spec_substituted(
            replace_all(t, encode_utf8(placeholder_chars(vars[0].0@)), encode_utf8(vars[0].1@)),
            vars.drop_first(),
        )
    }
}

/// Substitutes every variable into the template: each key's uppercased
/// placeholder `{{KEY}}` is replaced by the key's value, variables applied
/// in order.
pub fn substitute_variables(template: &str, vars: &Vec<(String, String)>) -> (r: String)
    ensures
        encode_utf8(r@) == spec_substituted(encode_utf8(template@), vars@),
{
    let n: usize = vars.len();
    let mut cur: String = template.to_owned();
    let mut i: usize = 0;
    proof {
        assert(vars@.subrange(0, n as int) =~= vars@);
    }
    #[verifier::loop_isolation(false)]
    while i < n
        invariant
            0 <= i <= n,
            spec_substituted(encode_utf8(cur@), vars@.subrange(i as int, n as int))
                == spec_substituted(encode_utf8(template@), vars@),
        decreases n - i,
    {
        let key_upper = to_upper(vars[i].0.as_str());
        let ph = "{{".to_owned().concat(key_upper.as_str()).concat("}}");
        proof {
            reveal_strlit("{{");
            reveal_strlit("}}");
            assert(is_ascii_chars("{{"@)) by {
                assert("{{"@.len() == 2);
                assert("{{"@[0] == '{' && "{{"@[1] == '{');
            }
            assert(is_ascii_chars("}}"@)) by {
                assert("}}"@.len() == 2);
                assert("}}"@[0] == '}' && "}}"@[1] == '}');
            }
            is_ascii_chars_encode_utf8("{{"@);
            is_ascii_chars_encode_utf8("}}"@);
            assert(ph@ == placeholder_chars(vars@[i as int].0@));
            let phb = encode_utf8(ph@);
            lemma_encode_concat("{{"@, upper_of(vars@[i as int].0@) + "}}"@);
            lemma_encode_concat(upper_of(vars@[i as int].0@), "}}"@);
            assert(ph@ =~= "{{"@ + (upper_of(vars@[i as int].0@) + "}}"@));
            assert(phb =~= encode_utf8("{{"@) + encode_utf8(upper_of(vars@[i as int].0@))
                + encode_utf8("}}"@));
            assert(encode_utf8("{{"@).len() == 2 && encode_utf8("{{"@)[0] == '{' as u8);
            assert(encode_utf8("}}"@).len() == 2 && encode_utf8("}}"@)[1] == '}' as u8);
            assert(phb.len() > 0);
            assert(phb[0] == '{' as u8);
            assert(phb.last() == '}' as u8);
        }
        let replaced = replace_all_str(cur.as_str(), ph.as_str(), vars[i].1.as_str());
        proof {
            let rest = vars@.subrange(i as int, n as int);
            let rest2 = vars@.subrange(i + 1, n as int);
            assert(rest.drop_first() =~= rest2);
            assert(rest[0] == vars@[i as int]);
        }
        cur = replaced;
        i = i + 1;
    }
    proof {
        assert(vars@.subrange(n as int, n as int) =~= Seq::<(String, String)>::empty());
    }
    cur
}

/// The value of the first variable carrying the given key.
pub open spec fn spec_lookup(vars: Seq<(String, String)>, key: Seq<char>) -> Option<Seq<char>>
    decreases vars.len(),
{
    if vars.len() == 0 {
        None
    } else if vars[0].0@ == key {
        Some(vars[0].1@)
    } else {
        spec_lookup(vars.drop_first(), key)
    }
}

/// Looks up the value of the first variable carrying the given key.
fn lookup_var<'a>(vars: &'a Vec<(String, String)>, key: &str) -> (r: Option<&'a String>)
    ensures
        match r {
            Some(v) => spec_lookup(vars@, key@) == Some(v@),
            None => spec_lookup(vars@, key@) is None,
        },
{
    let n: usize = vars.len();
    let mut i: usize = 0;
    proof {
        assert(vars@.subrange(0, n as int) =~= vars@);
    }
    #[verifier::loop_isolation(false)]
    while i < n
        invariant
            0 <= i <= n,
            spec_lookup(vars@.subrange(i as int, n as int), key@) == spec_lookup(vars@, key@),
        decreases n - i,
    {
        proof {
            let cur = vars@.subrange(i as int, n as int);
            let nxt = vars@.subrange(i + 1, n as int);
            assert(cur.drop_first() =~= nxt);
            assert(cur[0] == vars@[i as int]);
        }
        if str_eq(vars[i].0.as_str(), key) {
            return Some(&vars[i].1);
        }
        i = i + 1;
    }
    None
}

/// True when a conditional block named by the given raw bytes keeps its
/// content: the variable keyed by exactly that name exists and is
/// non-empty.
pub open spec fn cond_keep(vars: Seq<(String, String)>, name: Seq<u8>) -> bool {
    match spec_lookup(vars, decode_utf8(name)) {
        Some(v) => v.len() > 0,
        None => false,
    }
}

/// The template after resolving its conditional blocks, scanning left to
/// right.  A block has the form of an if-opening marker, a name, a double
/// closing brace, content, and the end-if marker; its content is kept when
/// the variable keyed by that name is set and non-empty, and dropped
/// otherwise.  Text from the first unclosed marker on is left as it
/// stands.
pub open spec fn spec_conditionals(t: Seq<u8>, vars: Seq<(String, String)>) -> Seq<u8>
    decreases t.len(),
{
    let open = encode_utf8("{{#if "@);
    let braces = encode_utf8("}}"@);
    let endtag = encode_utf8("{{/if}}"@);
    match first_match_from(t, open, 0) {
        None => t,
        Some(s) => {
            let name_start = s + open.len();
            match first_match_from(t, braces, name_start) {
                None => t,
                Some(ne) => {
                    let content_start = ne + braces.len();
                    match first_match_from(t, endtag, content_start) {
                        None => t,
                        Some(e) => {
                            let after = e + endtag.len();
                            if 0 <= s && name_start <= ne && content_start <= e && 0 < after
                                <= t.len() {
                                t.subrange(0, s) + (if cond_keep(vars, t.subrange(name_start, ne)) {
                                    t.subrange(content_start, e)
                                } else {
                                    Seq::<u8>::empty()
                                }) + spec_conditionals(t.subrange(after, t.len() as int), vars)
                            } else {
                                t
                            }
                        },
                    }
                },
            }
        },
    }
}

/// Locates the next conditional block at or after `pos`: the absolute
/// positions of its if-opening marker, of the double brace closing the
/// name, and of the end-if marker.  The three markers must be non-empty
/// ASCII.
#[verifier::rlimit(100)]
#[verifier::spinoff_prover]
fn find_block(hb: &[u8], ob: &[u8], bb: &[u8], eb: &[u8], pos: usize) -> (r: Option<
    (usize, usize, usize),
>)
    requires
        vstd::utf8::valid_utf8(hb@),
        ob@.len() > 0,
        bb@.len() > 0,
        eb@.len() > 0,
        forall|i: int| 0 <= i < ob@.len() ==> ob@[i] < 0x80,
        forall|i: int| 0 <= i < bb@.len() ==> bb@[i] < 0x80,
        forall|i: int| 0 <= i < eb@.len() ==> eb@[i] < 0x80,
        pos <= hb@.len(),
    ensures
        ({
            let sub = hb@.subrange(pos as int, hb@.len() as int);
            match r {
                None => {
                    ||| first_match_from(sub, ob@, 0) is None
                    ||| (first_match_from(sub, ob@, 0) matches Some(s) && first_match_from(
                        sub,
                        bb@,
                        s + ob@.len(),
                    ) is None)
                    ||| (first_match_from(sub, ob@, 0) matches Some(s) && (first_match_from(
                        sub,
                        bb@,
                        s + ob@.len(),
                    ) matches Some(ne) && first_match_from(sub, eb@, ne + bb@.len()) is None))
                },
                Some((s, ne, e)) => {
                    &&& pos <= s && s + ob@.len() <= ne && ne + bb@.len() <= e && e + eb@.len()
                        <= hb@.len()
                    &&& first_match_from(sub, ob@, 0) == Some(s - pos)
                    &&& first_match_from(sub, bb@, s - pos + ob@.len()) == Some(ne - pos)
                    &&& first_match_from(sub, eb@, ne - pos + bb@.len()) == Some(e - pos)
                    &&& vstd::utf8::is_char_boundary(hb@, s as int)
                    &&& vstd::utf8::is_char_boundary(hb@, s + ob@.len())
                    &&& vstd::utf8::is_char_boundary(hb@, ne as int)
                    &&& vstd::utf8::is_char_boundary(hb@, ne + bb@.len())
                    &&& vstd::utf8::is_char_boundary(hb@, e as int)
                    &&& vstd::utf8::is_char_boundary(hb@, e + eb@.len())
                },
            }
        }),
{
    let ghost sub = hb@.subrange(pos as int, hb@.len() as int);
    let hblen: usize = hb.len();
    let olen: usize = ob.len();
    let blen: usize = bb.len();
    let elen: usize = eb.len();
    let s = match find_from(hb, ob, pos) {
        None => {
            proof {
                assert forall|j: int| 0 <= j implies !matches_at(sub, ob@, j) by {
                    if j + ob@.len() <= sub.len() {
                        lemma_match_shift(hb@, ob@, pos as int, j);
                    }
                }
                lemma_first_match_none(sub, ob@, 0);
            }
            return None;
        },
        Some(v) => v,
    };
    proof {
        assert(matches_at(sub, ob@, s - pos)) by {
            lemma_match_shift(hb@, ob@, pos as int, s - pos);
        }
        assert forall|j: int| 0 <= j < s - pos implies !matches_at(sub, ob@, j) by {
            lemma_match_shift(hb@, ob@, pos as int, j);
        }
        lemma_first_match_some(sub, ob@, 0, s - pos);
        assert(s + olen <= hblen);
    }
    let ne = match find_from(hb, bb, s + olen) {
        None => {
            proof {
                assert forall|j: int| s + olen - pos <= j implies !matches_at(sub, bb@, j) by {
                    if j + bb@.len() <= sub.len() {
                        lemma_match_shift(hb@, bb@, pos as int, j);
                    }
                }
                lemma_first_match_none(sub, bb@, s + olen - pos);
            }
            return None;
        },
        Some(v) => v,
    };
    proof {
        assert(matches_at(sub, bb@, ne - pos)) by {
            lemma_match_shift(hb@, bb@, pos as int, ne - pos);
        }
        assert forall|j: int| s + olen - pos <= j < ne - pos implies !matches_at(sub, bb@, j) by {
            lemma_match_shift(hb@, bb@, pos as int, j);
        }
        lemma_first_match_some(sub, bb@, s + olen - pos, ne - pos);
        assert(ne + blen <= hblen);
    }
    let e = match find_from(hb, eb, ne + blen) {
        None => {
            proof {
                assert forall|j: int| ne + blen - pos <= j implies !matches_at(sub, eb@, j) by {
                    if j + eb@.len() <= sub.len() {
                        lemma_match_shift(hb@, eb@, pos as int, j);
                    }
                }
                lemma_first_match_none(sub, eb@, ne + blen - pos);
            }
            return None;
        },
        Some(v) => v,
    };
    proof {
        assert(matches_at(sub, eb@, e - pos)) by {
            lemma_match_shift(hb@, eb@, pos as int, e - pos);
        }
        assert forall|j: int| ne + blen - pos <= j < e - pos implies !matches_at(sub, eb@, j) by {
            lemma_match_shift(hb@, eb@, pos as int, j);
        }
        lemma_first_match_some(sub, eb@, ne + blen - pos, e - pos);
        assert(hb@[s as int] == ob@[0]);
        lemma_ascii_byte_is_boundary(hb@, s as int);
        assert(hb@[s + olen - 1] == ob@[olen - 1]);
        lemma_ascii_byte_is_boundary(hb@, s + olen - 1);
        lemma_boundary_after_ascii_run(hb@, s + olen - 1, s + olen);
        assert(hb@[ne as int] == bb@[0]);
        lemma_ascii_byte_is_boundary(hb@, ne as int);
        assert(hb@[ne + blen - 1] == bb@[blen - 1]);
        lemma_ascii_byte_is_boundary(hb@, ne + blen - 1);
        lemma_boundary_after_ascii_run(hb@, ne + blen - 1, ne + blen);
        assert(hb@[e as int] == eb@[0]);
        lemma_ascii_byte_is_boundary(hb@, e as int);
        assert(hb@[e + elen - 1] == eb@[elen - 1]);
        lemma_ascii_byte_is_boundary(hb@, e + elen - 1);
        lemma_boundary_after_ascii_run(hb@, e + elen - 1, e + elen);
    }
    Some((s, ne, e))
}

/// One resolution step: with a whole block located in the suffix starting
/// at `pos`, the conditional resolution of that suffix is its text up to
/// the block, the block's content or nothing, and the resolution of what
/// follows the block.
#[verifier::rlimit(100)]
#[verifier::spinoff_prover]
proof fn lemma_conditionals_step(
    t: Seq<u8>,
    vars: Seq<(String, String)>,
    pos: int,
    s: int,
    ne: int,
    e: int,
)
    requires
        0 <= pos <= t.len(),
        ({
            let sub = t.subrange(pos, t.len() as int);
            let open = encode_utf8("{{#if "@);
            let braces = encode_utf8("}}"@);
            let endtag = encode_utf8("{{/if}}"@);
            &&& pos <= s
            &&& s + open.len() <= ne
            &&& ne + braces.len() <= e
            &&& e + endtag.len() <= t.len()
            &&& first_match_from(sub, open, 0) == Some(s - pos)
            &&& first_match_from(sub, braces, s - pos + open.len()) == Some(ne - pos)
            &&& first_match_from(sub, endtag, ne - pos + braces.len()) == Some(e - pos)
        }),
    ensures
        ({
            let sub = t.subrange(pos, t.len() as int);
            let open = encode_utf8("{{#if "@);
            let braces = encode_utf8("}}"@);
            let endtag = encode_utf8("{{/if}}"@);
            spec_conditionals(sub, vars) == t.subrange(pos, s) + (if cond_keep(
                vars,
                t.subrange(s + open.len(), ne),
            ) {
                t.subrange(ne + braces.len(), e)
            } else {
                Seq::<u8>::empty()
            }) + spec_conditionals(t.subrange(e + endtag.len(), t.len() as int), vars)
        }),
{
    let sub = t.subrange(pos, t.len() as int);
    let open = encode_utf8("{{#if "@);
    let braces = encode_utf8("}}"@);
    let endtag = encode_utf8("{{/if}}"@);
    assert(sub.subrange(0, s - pos) =~= t.subrange(pos, s));
    assert(sub.subrange(s - pos + open.len(), ne - pos) =~= t.subrange(s + open.len(), ne));
    assert(sub.subrange(ne - pos + braces.len(), e - pos) =~= t.subrange(ne + braces.len(), e));
    assert(sub.subrange(e - pos + endtag.len(), sub.len() as int) =~= t.subrange(
        e + endtag.len(),
        t.len() as int,
    ));
}

/// Resolves the conditional blocks of a template: the content of each
/// block whose named variable is set and non-empty is kept in place; every
/// other block is removed whole.
#[verifier::rlimit(100)]
#[verifier::spinoff_prover]
pub fn process_conditionals(template: &str, vars: &Vec<(String, String)>) -> (r: String)
    ensures
        encode_utf8(r@) == spec_conditionals(encode_utf8(template@), vars@),
{
    proof {
        reveal_strlit("{{#if ");
        reveal_strlit("}}");
        reveal_strlit("{{/if}}");
        assert(is_ascii_chars("{{#if "@));
        assert(is_ascii_chars("}}"@));
        assert(is_ascii_chars("{{/if}}"@));
        is_ascii_chars_encode_utf8("{{#if "@);
        is_ascii_chars_encode_utf8("}}"@);
        is_ascii_chars_encode_utf8("{{/if}}"@);
        encode_utf8_valid_utf8(template@);
    }
    let hb = template.as_bytes();
    let ob = "{{#if ".as_bytes();
    let bb = "}}".as_bytes();
    let eb = "{{/if}}".as_bytes();
    let hlen: usize = hb.len();
    let olen: usize = ob.len();
    let blen: usize = bb.len();
    let elen: usize = eb.len();
    let ghost hbs = encode_utf8(template@);
    let ghost obs = encode_utf8("{{#if "@);
    let ghost bbs = encode_utf8("}}"@);
    let ghost ebs = encode_utf8("{{/if}}"@);
    let mut out: String = String::new();
    let mut pos: usize = 0;
    let mut done: bool = false;
    proof {
        assert(encode_utf8(out@) =~= Seq::<u8>::empty());
        assert(hbs.subrange(0, hlen as int) =~= hbs);
        is_char_boundary_start_end_of_seq(hbs);
    }
    proof {
        assert forall|i: int| 0 <= i < obs.len() implies obs[i] < 0x80 by {
            vstd::utf8::is_ascii_chars_nat_bound("{{#if "@);
        }
        assert forall|i: int| 0 <= i < bbs.len() implies bbs[i] < 0x80 by {
            vstd::utf8::is_ascii_chars_nat_bound("}}"@);
        }
        assert forall|i: int| 0 <= i < ebs.len() implies ebs[i] < 0x80 by {
            vstd::utf8::is_ascii_chars_nat_bound("{{/if}}"@);
        }
    }
    #[verifier::loop_isolation(false)]
    while !done
        invariant
            0 <= pos <= hlen,
            is_char_boundary(hbs, pos as int),
            !done ==> encode_utf8(out@) + spec_conditionals(
                hbs.subrange(pos as int, hlen as int),
                vars@,
            ) == spec_conditionals(hbs, vars@),
            done ==> encode_utf8(out@) == spec_conditionals(hbs, vars@),
        decreases hlen - pos + (if done { 0int } else { 1int }),
    {
        let ghost sub = hbs.subrange(pos as int, hlen as int);
        match find_block(hb, ob, bb, eb, pos) {
            None => {
                proof {
                    is_char_boundary_start_end_of_seq(hbs);
                }
                let tail = substr(template, pos, hlen);
                let ghost out_prev = out@;
                out.append(tail.as_str());
                proof {
                    assert(spec_conditionals(sub, vars@) == sub);
                    lemma_encode_concat(out_prev, tail@);
                    assert(encode_utf8(tail@) == sub);
                }
                done = true;
            },
            Some((s, ne, e)) => {
                let prefix = substr(template, pos, s);
                let name = substr(template, s + olen, ne);
                let content = substr(template, ne + blen, e);
                let keep = match lookup_var(vars, name.as_str()) {
                    Some(v) => !v.as_str().is_empty(),
                    None => false,
                };
                let ghost out_prev = out@;
                out.append(prefix.as_str());
                if keep {
                    out.append(content.as_str());
                }
                proof {
                    let name_b = hbs.subrange((s + olen) as int, ne as int);
                    let content_b = hbs.subrange((ne + blen) as int, e as int);
                    assert(encode_utf8(name@) == name_b);
                    assert(name@ == decode_utf8(name_b));
                    assert(keep == cond_keep(vars@, name_b));
                    lemma_conditionals_step(hbs, vars@, pos as int, s as int, ne as int, e as int);
                    lemma_encode_concat(out_prev, prefix@);
                    if keep {
                        lemma_encode_concat(out_prev + prefix@, content@);
                    }
                    assert(encode_utf8(prefix@) == hbs.subrange(pos as int, s as int));
                    assert(encode_utf8(content@) == content_b);
                    assert(encode_utf8(out@) + spec_conditionals(
                        hbs.subrange((e + elen) as int, hlen as int),
                        vars@,
                    ) =~= encode_utf8(out_prev) + spec_conditionals(sub, vars@));
                }
                pos = e + elen;
            },
        }
    }
    out
}

/// Renders a prompt template: substitutes every variable, then resolves
/// the conditional blocks against the same variables.
pub fn render_prompt(template: &str, vars: &Vec<(String, String)>) -> (r: String)
    ensures
        encode_utf8(r@) == spec_conditionals(
            spec_substituted(encode_utf8(template@), vars@),
            vars@,
        ),
{
    let substituted = substitute_variables(template, vars);
    process_conditionals(substituted.as_str(), vars)
}

} // verus!
