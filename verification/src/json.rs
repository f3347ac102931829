//! The library's own JSON document model.
//!
//! Debug configurations, initialization options and collaborator responses
//! are structured JSON.  The embedding layer turns raw text into this model
//! and back; everything the library decides about a document is verified
//! against the mathematical view [`Jv`].
//!
//! A number keeps its literal spelling (`Num` holds the digits as written),
//! so a document that is only inspected passes through unchanged, and no
//! floating-point representation is ever needed.

use vstd::prelude::*;
use crate::strutil::{hex_digit_of, push_char};

verus! {

/// Mathematical view of a JSON document.
pub enum Jv {
    Null,
    Bool(bool),
    Num(Seq<char>),
    Str(Seq<char>),
    Arr(Seq<Jv>),
    Obj(Seq<(Seq<char>, Jv)>),
}

/// Executable JSON document.
#[derive(Debug)]
pub enum Json {
    Null,
    Bool(bool),
    Num(String),
    Str(String),
    Arr(Vec<Json>),
    Obj(Vec<(String, Json)>),
}

/// View of a sequence of documents.
pub open spec fn jv_of_seq(items: Seq<Json>) -> Seq<Jv>
    decreases items,
{
    if items.len() == 0 {
        Seq::empty()
    } else {
        seq![jv_of(items[0])] + jv_of_seq(items.drop_first())
    }
}

/// View of a sequence of object members.
pub open spec fn jv_of_kvs(kvs: Seq<(String, Json)>) -> Seq<(Seq<char>, Jv)>
    decreases kvs,
{
    if kvs.len() == 0 {
        Seq::empty()
    } else {
        seq![(kvs[0].0@, jv_of(kvs[0].1))] + jv_of_kvs(kvs.drop_first())
    }
}

/// View of one document.
pub open spec fn jv_of(j: Json) -> Jv
    decreases j,
{
    match j {
        Json::Null => Jv::Null,
        Json::Bool(b) => Jv::Bool(b),
        Json::Num(n) => Jv::Num(n@),
        Json::Str(s) => Jv::Str(s@),
        Json::Arr(items) => Jv::Arr(jv_of_seq(items@)),
        Json::Obj(kvs) => Jv::Obj(jv_of_kvs(kvs@)),
    }
}

impl View for Json {
    type V = Jv;

    open spec fn view(&self) -> Jv {
        jv_of(*self)
    }
}

pub broadcast proof fn lemma_jv_of_seq_index(items: Seq<Json>)
    ensures
        (#[trigger] jv_of_seq(items)).len() == items.len(),
        forall|i: int| 0 <= i < items.len() ==> jv_of_seq(items)[i] == jv_of(#[trigger] items[i]),
    decreases items,
{
    if items.len() > 0 {
        lemma_jv_of_seq_index(items.drop_first());
        assert forall|i: int| 0 <= i < items.len() implies jv_of_seq(items)[i] == jv_of(
            items[i],
        ) by {
            if i == 0 {
                assert(jv_of_seq(items)[0] == jv_of(items[0]));
            } else {
                assert(jv_of_seq(items)[i] == jv_of_seq(items.drop_first())[i - 1]);
                assert(items.drop_first()[i - 1] == items[i]);
            }
        }
    }
}

pub broadcast proof fn lemma_jv_of_kvs_index(kvs: Seq<(String, Json)>)
    ensures
        (#[trigger] jv_of_kvs(kvs)).len() == kvs.len(),
        forall|i: int|
            0 <= i < kvs.len() ==> jv_of_kvs(kvs)[i] == ((#[trigger] kvs[i]).0@, jv_of(kvs[i].1)),
    decreases kvs,
{
    if kvs.len() > 0 {
        lemma_jv_of_kvs_index(kvs.drop_first());
        assert forall|i: int| 0 <= i < kvs.len() implies jv_of_kvs(kvs)[i] == (
            kvs[i].0@,
            jv_of(kvs[i].1),
        ) by {
            if i == 0 {
                assert(jv_of_kvs(kvs)[0] == (kvs[0].0@, jv_of(kvs[0].1)));
            } else {
                assert(jv_of_kvs(kvs)[i] == jv_of_kvs(kvs.drop_first())[i - 1]);
                assert(kvs.drop_first()[i - 1] == kvs[i]);
            }
        }
    }
}

pub proof fn lemma_jv_of_seq_snoc(items: Seq<Json>, i: int)
    requires
        0 <= i < items.len(),
    ensures
        jv_of_seq(items.subrange(0, i + 1)) == jv_of_seq(items.subrange(0, i)).push(
            jv_of(items[i]),
        ),
{
    lemma_jv_of_seq_index(items.subrange(0, i));
    lemma_jv_of_seq_index(items.subrange(0, i + 1));
    assert forall|k: int| 0 <= k < i + 1 implies jv_of_seq(items.subrange(0, i + 1))[k]
        == jv_of_seq(items.subrange(0, i)).push(jv_of(items[i]))[k] by {
        assert(items.subrange(0, i + 1)[k] == items[k]);
        assert(jv_of_seq(items.subrange(0, i + 1))[k] == jv_of(items[k]));
        if k < i {
            assert(items.subrange(0, i)[k] == items[k]);
            assert(jv_of_seq(items.subrange(0, i))[k] == jv_of(items[k]));
        }
    }
    assert(jv_of_seq(items.subrange(0, i + 1)) =~= jv_of_seq(items.subrange(0, i)).push(
        jv_of(items[i]),
    ));
}

pub proof fn lemma_jv_of_kvs_snoc(kvs: Seq<(String, Json)>, i: int)
    requires
        0 <= i < kvs.len(),
    ensures
        jv_of_kvs(kvs.subrange(0, i + 1)) == jv_of_kvs(kvs.subrange(0, i)).push(
            (kvs[i].0@, jv_of(kvs[i].1)),
        ),
{
    lemma_jv_of_kvs_index(kvs.subrange(0, i));
    lemma_jv_of_kvs_index(kvs.subrange(0, i + 1));
    assert forall|k: int| 0 <= k < i + 1 implies jv_of_kvs(kvs.subrange(0, i + 1))[k]
        == jv_of_kvs(kvs.subrange(0, i)).push((kvs[i].0@, jv_of(kvs[i].1)))[k] by {
        assert(kvs.subrange(0, i + 1)[k] == kvs[k]);
        assert(jv_of_kvs(kvs.subrange(0, i + 1))[k] == (kvs[k].0@, jv_of(kvs[k].1)));
        if k < i {
            assert(kvs.subrange(0, i)[k] == kvs[k]);
            assert(jv_of_kvs(kvs.subrange(0, i))[k] == (kvs[k].0@, jv_of(kvs[k].1)));
        }
    }
    assert(jv_of_kvs(kvs.subrange(0, i + 1)) =~= jv_of_kvs(kvs.subrange(0, i)).push(
        (kvs[i].0@, jv_of(kvs[i].1)),
    ));
}

/// Rendering of one character inside a JSON string: the two-character
/// escapes of the JSON grammar, `\u00XX` for other control characters,
/// and the character itself otherwise.
pub open spec fn esc_char(c: char) -> Seq<char> {
    if c == '"' {
        seq!['\\', '"']
    } else if c == '\\' {
        seq!['\\', '\\']
    } else if c as u32 == 8 {
        seq!['\\', 'b']
    } else if c as u32 == 9 {
        seq!['\\', 't']
    } else if c as u32 == 10 {
        seq!['\\', 'n']
    } else if c as u32 == 12 {
        seq!['\\', 'f']
    } else if c as u32 == 13 {
        seq!['\\', 'r']
    } else if (c as u32) < 32 {
        seq!['\\', 'u', '0', '0', hex_digit_of((c as u32) / 16), hex_digit_of((c as u32) % 16)]
    } else {
        seq![c]
    }
}

/// Rendering of string contents.
pub open spec fn esc_seq(s: Seq<char>) -> Seq<char>
    decreases s.len(),
{
    if s.len() == 0 {
        Seq::empty()
    } else {
        esc_char(s[0]) + esc_seq(s.drop_first())
    }
}

/// Rendering of a string value, quotes included.
pub open spec fn str_text(s: Seq<char>) -> Seq<char> {
    seq!['"'] + esc_seq(s) + seq!['"']
}

/// Compact rendering of a document, exactly as the serializer emits it.
pub open spec fn jtext(v: Jv) -> Seq<char>
    decreases v,
{
    match v {
        Jv::Null => seq!['n', 'u', 'l', 'l'],
        Jv::Bool(b) => if b {
            seq!['t', 'r', 'u', 'e']
        } else {
            seq!['f', 'a', 'l', 's', 'e']
        },
        Jv::Num(n) => n,
        Jv::Str(s) => str_text(s),
        Jv::Arr(items) => seq!['['] + jtext_items(items) + seq![']'],
        Jv::Obj(kvs) => seq!['{'] + jtext_kvs(kvs) + seq!['}'],
    }
}

/// Comma-separated rendering of array elements.
pub open spec fn jtext_items(items: Seq<Jv>) -> Seq<char>
    decreases items,
{
    if items.len() == 0 {
        Seq::empty()
    } else if items.len() == 1 {
        jtext(items[0])
    } else {
        jtext(items[0]) + seq![','] + jtext_items(items.drop_first())
    }
}

/// Comma-separated rendering of object members.
pub open spec fn jtext_kvs(kvs: Seq<(Seq<char>, Jv)>) -> Seq<char>
    decreases kvs,
{
    if kvs.len() == 0 {
        Seq::empty()
    } else if kvs.len() == 1 {
        str_text(kvs[0].0) + seq![':'] + jtext(kvs[0].1)
    } else {
        str_text(kvs[0].0) + seq![':'] + jtext(kvs[0].1) + seq![','] + jtext_kvs(kvs.drop_first())
    }
}

proof fn lemma_jtext_items_push(items: Seq<Jv>, x: Jv)
    ensures
        jtext_items(items.push(x)) == if items.len() == 0 {
            jtext(x)
        } else {
            jtext_items(items) + seq![','] + jtext_items(seq![x])
        },
    decreases items,
{
    if items.len() == 0 {
        assert(items.push(x)[0] == x);
        assert(items.push(x).len() == 1);
    } else {
        assert(items.push(x).drop_first() =~= items.drop_first().push(x));
        lemma_jtext_items_push(items.drop_first(), x);
        if items.len() == 1 {
            assert(jtext_items(items) == jtext(items[0]));
            assert(items.push(x)[0] == items[0]);
            assert(jtext_items(items.push(x)) == jtext(items[0]) + seq![','] + jtext_items(
                items.drop_first().push(x),
            ));
            assert(items.drop_first().len() == 0);
            assert(jtext_items(items.drop_first().push(x)) == jtext(x));
            assert(jtext_items(seq![x]) == jtext(x));
        } else {
            assert(items.push(x)[0] == items[0]);
            assert(jtext_items(items) + seq![','] + jtext_items(seq![x]) =~= jtext(items[0])
                + seq![','] + (jtext_items(items.drop_first()) + seq![','] + jtext_items(seq![x])));
        }
    }
}

proof fn lemma_jtext_kvs_push(kvs: Seq<(Seq<char>, Jv)>, k: Seq<char>, x: Jv)
    ensures
        jtext_kvs(kvs.push((k, x))) == if kvs.len() == 0 {
            str_text(k) + seq![':'] + jtext(x)
        } else {
            jtext_kvs(kvs) + seq![','] + jtext_kvs(seq![(k, x)])
        },
    decreases kvs,
{
    if kvs.len() == 0 {
        assert(kvs.push((k, x))[0] == (k, x));
        assert(kvs.push((k, x)).len() == 1);
    } else {
        assert(kvs.push((k, x)).drop_first() =~= kvs.drop_first().push((k, x)));
        lemma_jtext_kvs_push(kvs.drop_first(), k, x);
        let head = str_text(kvs[0].0) + seq![':'] + jtext(kvs[0].1);
        if kvs.len() == 1 {
            assert(jtext_kvs(kvs) == head);
            assert(kvs.push((k, x))[0] == kvs[0]);
            assert(kvs.drop_first().len() == 0);
            assert(jtext_kvs(kvs.drop_first().push((k, x))) == str_text(k) + seq![':'] + jtext(x));
            assert(jtext_kvs(seq![(k, x)]) == str_text(k) + seq![':'] + jtext(x));
        } else {
            assert(kvs.push((k, x))[0] == kvs[0]);
            assert(jtext_kvs(kvs) + seq![','] + jtext_kvs(seq![(k, x)]) =~= head + seq![','] + (
            jtext_kvs(kvs.drop_first()) + seq![','] + jtext_kvs(seq![(k, x)])));
        }
    }
}

proof fn lemma_esc_seq_push(s: Seq<char>, c: char)
    ensures
        esc_seq(s.push(c)) == esc_seq(s) + esc_char(c),
    decreases s,
{
    if s.len() == 0 {
        assert(s.push(c)[0] == c);
        assert(s.push(c).drop_first() =~= Seq::<char>::empty());
        assert(esc_seq(s.push(c)) == esc_char(s.push(c)[0]) + esc_seq(s.push(c).drop_first()));
        assert(esc_char(c) + Seq::<char>::empty() =~= esc_char(c));
        assert(esc_seq(s) + esc_char(c) =~= esc_char(c));
    } else {
        assert(s.push(c)[0] == s[0]);
        assert(s.push(c).drop_first() =~= s.drop_first().push(c));
        lemma_esc_seq_push(s.drop_first(), c);
        assert(esc_char(s[0]) + (esc_seq(s.drop_first()) + esc_char(c)) =~= (esc_char(s[0])
            + esc_seq(s.drop_first())) + esc_char(c));
    }
}

/// Appends the escaped contents of `s` (no surrounding quotes).
fn write_escaped(s: &str, out: &mut String)
    ensures
        final(out)@ == old(out)@ + esc_seq(s@),
{
    let slen = s.unicode_len();
    let mut i: usize = 0;
    proof {
        assert(s@.subrange(0, 0) =~= Seq::<char>::empty());
        assert(old(out)@ + esc_seq(s@.subrange(0, 0)) =~= old(out)@);
    }
    while i < slen
        invariant
            slen == s@.len(),
            0 <= i <= slen,
            out@ == old(out)@ + esc_seq(s@.subrange(0, i as int)),
        decreases slen - i,
    {
        let c = s.get_char(i);
        let code = c as u32;
        if c == '"' {
            push_char(out, '\\');
            push_char(out, '"');
        } else if c == '\\' {
            push_char(out, '\\');
            push_char(out, '\\');
        } else if code == 8 {
            push_char(out, '\\');
            push_char(out, 'b');
        } else if code == 9 {
            push_char(out, '\\');
            push_char(out, 't');
        } else if code == 10 {
            push_char(out, '\\');
            push_char(out, 'n');
        } else if code == 12 {
            push_char(out, '\\');
            push_char(out, 'f');
        } else if code == 13 {
            push_char(out, '\\');
            push_char(out, 'r');
        } else if code < 32u32 {
            push_char(out, '\\');
            push_char(out, 'u');
            push_char(out, '0');
            push_char(out, '0');
            let hi = code / 16;
            let lo = code % 16;
            let hc: char = if hi < 10 {
                ((48 + hi) as u8) as char
            } else {
                ((87 + hi) as u8) as char
            };
            let lc: char = if lo < 10 {
                ((48 + lo) as u8) as char
            } else {
                ((87 + lo) as u8) as char
            };
            push_char(out, hc);
            push_char(out, lc);
        } else {
            push_char(out, c);
        }
        proof {
            assert(s@.subrange(0, i + 1) =~= s@.subrange(0, i as int).push(s@[i as int]));
            lemma_esc_seq_push(s@.subrange(0, i as int), s@[i as int]);
            assert(out@ =~= old(out)@ + esc_seq(s@.subrange(0, i + 1)));
        }
        i = i + 1;
    }
    proof {
        assert(s@.subrange(0, slen as int) =~= s@);
    }
}

/// Appends the compact rendering of `j`.
#[verifier::loop_isolation(false)]
#[verifier::rlimit(80)]
fn write_json(j: &Json, out: &mut String)
    ensures
        final(out)@ == old(out)@ + jtext(j@),
    decreases j,
{
    match j {
        Json::Null => {
            out.append("null");
            proof {
                reveal_strlit("null");
                assert(old(out)@ + "null"@ =~= old(out)@ + jtext(j@));
            }
        },
        Json::Bool(b) => {
            if *b {
                out.append("true");
                proof {
                    reveal_strlit("true");
                    assert(old(out)@ + "true"@ =~= old(out)@ + jtext(j@));
                }
            } else {
                out.append("false");
                proof {
                    reveal_strlit("false");
                    assert(old(out)@ + "false"@ =~= old(out)@ + jtext(j@));
                }
            }
        },
        Json::Num(n) => {
            out.append(n.as_str());
        },
        Json::Str(s) => {
            push_char(out, '"');
            write_escaped(s.as_str(), out);
            push_char(out, '"');
            proof {
                assert(old(out)@.push('"') + esc_seq(s@) =~= old(out)@ + seq!['"'] + esc_seq(s@));
                assert((old(out)@ + seq!['"'] + esc_seq(s@)).push('"') =~= old(out)@ + str_text(
                    s@,
                ));
            }
        },
        Json::Arr(items) => {
            push_char(out, '[');
            let n = items.len();
            let mut i: usize = 0;
            proof {
                assert(jv_of_seq(items@.subrange(0, 0)) =~= Seq::<Jv>::empty());
                assert(old(out)@.push('[') =~= old(out)@ + seq!['['] + jtext_items(
                    jv_of_seq(items@.subrange(0, 0)),
                ));
            }
            while i < n
                invariant
                    n == items@.len(),
                    0 <= i <= n,
                    out@ == old(out)@ + seq!['['] + jtext_items(jv_of_seq(items@.subrange(0, i as int))),
                decreases n - i,
            {
                if i > 0 {
                    push_char(out, ',');
                }
                let ghost pre = out@;
                write_json(&items[i], out);
                proof {
                    lemma_jv_of_seq_snoc(items@, i as int);
                    lemma_jtext_items_push(
                        jv_of_seq(items@.subrange(0, i as int)),
                        jv_of(items@[i as int]),
                    );
                    assert(jtext_items(seq![jv_of(items@[i as int])]) == jtext(
                        jv_of(items@[i as int]),
                    ));
                    assert(out@ =~= old(out)@ + seq!['['] + jtext_items(
                        jv_of_seq(items@.subrange(0, i + 1)),
                    ));
                }
                i = i + 1;
            }
            push_char(out, ']');
            proof {
                assert(items@.subrange(0, n as int) =~= items@);
                assert((old(out)@ + seq!['['] + jtext_items(jv_of_seq(items@))).push(']')
                    =~= old(out)@ + jtext(j@));
            }
        },
        Json::Obj(kvs) => {
            push_char(out, '{');
            let n = kvs.len();
            let mut i: usize = 0;
            proof {
                assert(jv_of_kvs(kvs@.subrange(0, 0)) =~= Seq::<(Seq<char>, Jv)>::empty());
                assert(old(out)@.push('{') =~= old(out)@ + seq!['{'] + jtext_kvs(
                    jv_of_kvs(kvs@.subrange(0, 0)),
                ));
            }
            while i < n
                invariant
                    n == kvs@.len(),
                    0 <= i <= n,
                    out@ == old(out)@ + seq!['{'] + jtext_kvs(jv_of_kvs(kvs@.subrange(0, i as int))),
                decreases n - i,
            {
                if i > 0 {
                    push_char(out, ',');
                }
                let ghost pre = out@;
                push_char(out, '"');
                write_escaped(kvs[i].0.as_str(), out);
                push_char(out, '"');
                push_char(out, ':');
                let ghost mid = out@;
                proof {
                    assert(mid =~= pre + str_text(kvs@[i as int].0@) + seq![':']);
                }
                write_json(&kvs[i].1, out);
                proof {
                    lemma_jv_of_kvs_snoc(kvs@, i as int);
                    lemma_jtext_kvs_push(
                        jv_of_kvs(kvs@.subrange(0, i as int)),
                        kvs@[i as int].0@,
                        jv_of(kvs@[i as int].1),
                    );
                    assert(jtext_kvs(seq![(kvs@[i as int].0@, jv_of(kvs@[i as int].1))])
                        == str_text(kvs@[i as int].0@) + seq![':'] + jtext(jv_of(kvs@[i as int].1)));
                    assert(out@ =~= old(out)@ + seq!['{'] + jtext_kvs(
                        jv_of_kvs(kvs@.subrange(0, i + 1)),
                    ));
                }
                i = i + 1;
            }
            push_char(out, '}');
            proof {
                assert(kvs@.subrange(0, n as int) =~= kvs@);
                assert((old(out)@ + seq!['{'] + jtext_kvs(jv_of_kvs(kvs@))).push('}')
                    =~= old(out)@ + jtext(j@));
            }
        },
    }
}

/// Compact JSON text of `j`.
pub fn to_json_string(j: &Json) -> (r: String)
    ensures
        r@ == jtext(j@),
{
    let mut out = String::new();
    write_json(j, &mut out);
    proof {
        assert(Seq::<char>::empty() + jtext(j@) =~= jtext(j@));
    }
    out
}

/// First value bound to `key` in an object, if the document is an object
/// and the key is present.
pub open spec fn spec_obj_get(v: Jv, key: Seq<char>) -> Option<Jv> {
    match v {
        Jv::Obj(kvs) => spec_kvs_get(kvs, key),
        _ => None,
    }
}

/// First value bound to `key` among object members.
pub open spec fn spec_kvs_get(kvs: Seq<(Seq<char>, Jv)>, key: Seq<char>) -> Option<Jv>
    decreases kvs,
{
    if kvs.len() == 0 {
        None
    } else if kvs[0].0 == key {
        Some(kvs[0].1)
    } else {
        spec_kvs_get(kvs.drop_first(), key)
    }
}

/// Looks `key` up in `j`, returning the first matching member's value.
#[verifier::loop_isolation(false)]
pub fn obj_get<'a>(j: &'a Json, key: &str) -> (r: Option<&'a Json>)
    ensures
        match r {
            Some(v) => spec_obj_get(j@, key@) == Some(v@),
            None => spec_obj_get(j@, key@) is None,
        },
{
    match j {
        Json::Obj(kvs) => {
            let n = kvs.len();
            let mut i: usize = 0;
            proof {
                assert(kvs@.skip(0) =~= kvs@);
            }
            while i < n
                invariant
                    n == kvs@.len(),
                    0 <= i <= n,
                    spec_kvs_get(jv_of_kvs(kvs@), key@) == spec_kvs_get(
                        jv_of_kvs(kvs@.skip(i as int)),
                        key@,
                    ),
                decreases n - i,
    {
                let hit = crate::strutil::str_eq(kvs[i].0.as_str(), key);
                proof {
                    broadcast use lemma_jv_of_kvs_index;

                    assert(jv_of_kvs(kvs@.skip(i as int))[0] == (
                        kvs@[i as int].0@,
                        jv_of(kvs@[i as int].1),
                    )) by {
                        assert(kvs@.skip(i as int)[0] == kvs@[i as int]);
                    }
                }
                if hit {
                    proof {
                        assert(spec_kvs_get(jv_of_kvs(kvs@.skip(i as int)), key@) == Some(
                            jv_of(kvs@[i as int].1),
                        ));
                    }
                    return Some(&kvs[i].1);
                }
                proof {
                    assert(jv_of_kvs(kvs@.skip(i as int)).drop_first() =~= jv_of_kvs(
                        kvs@.skip(i as int + 1),
                    )) by {
                        broadcast use lemma_jv_of_kvs_index;

                        assert(kvs@.skip(i as int).drop_first() =~= kvs@.skip(i as int + 1));
                        lemma_jv_of_kvs_drop(kvs@.skip(i as int));
                    }
                }
                i = i + 1;
            }
            proof {
                assert(kvs@.skip(n as int) =~= Seq::<(String, Json)>::empty());
            }
            None
        },
        _ => None,
    }
}

/// Deep copy with an identical view.
#[verifier::loop_isolation(false)]
pub fn json_clone(j: &Json) -> (r: Json)
    ensures
        r@ == j@,
    decreases j,
{
    match j {
        Json::Null => Json::Null,
        Json::Bool(b) => Json::Bool(*b),
        Json::Num(n) => Json::Num(n.clone()),
        Json::Str(s) => Json::Str(s.clone()),
        Json::Arr(items) => {
            let n = items.len();
            let mut out: Vec<Json> = Vec::new();
            let mut i: usize = 0;
            proof {
                assert(jv_of_seq(items@.subrange(0, 0)) =~= Seq::<Jv>::empty());
                assert(jv_of_seq(out@) =~= Seq::<Jv>::empty());
            }
            while i < n
                invariant
                    n == items@.len(),
                    0 <= i <= n,
                    out@.len() == i,
                    jv_of_seq(out@) == jv_of_seq(items@.subrange(0, i as int)),
                decreases n - i,
            {
                let c = json_clone(&items[i]);
                let ghost prev = out@;
                out.push(c);
                proof {
                    lemma_jv_of_seq_snoc(items@, i as int);
                    lemma_jv_of_seq_snoc_vec(out@);
                    assert(out@.subrange(0, out@.len() - 1) =~= prev);
                    assert(out@[out@.len() - 1] == c);
                }
                i = i + 1;
            }
            proof {
                assert(items@.subrange(0, n as int) =~= items@);
            }
            Json::Arr(out)
        },
        Json::Obj(kvs) => {
            let n = kvs.len();
            let mut out: Vec<(String, Json)> = Vec::new();
            let mut i: usize = 0;
            proof {
                assert(jv_of_kvs(kvs@.subrange(0, 0)) =~= Seq::<(Seq<char>, Jv)>::empty());
                assert(jv_of_kvs(out@) =~= Seq::<(Seq<char>, Jv)>::empty());
            }
            while i < n
                invariant
                    n == kvs@.len(),
                    0 <= i <= n,
                    out@.len() == i,
                    jv_of_kvs(out@) == jv_of_kvs(kvs@.subrange(0, i as int)),
                decreases n - i,
            {
                let c = json_clone(&kvs[i].1);
                let ghost prev = out@;
                out.push((kvs[i].0.clone(), c));
                proof {
                    lemma_jv_of_kvs_snoc(kvs@, i as int);
                    lemma_jv_of_kvs_snoc_vec(out@);
                    assert(out@.subrange(0, out@.len() - 1) =~= prev);
                    assert(out@[out@.len() - 1].1 == c);
                    assert(out@[out@.len() - 1].0@ == kvs@[i as int].0@);
                }
                i = i + 1;
            }
            proof {
                assert(kvs@.subrange(0, n as int) =~= kvs@);
            }
            Json::Obj(out)
        },
    }
}

proof fn lemma_jv_of_seq_snoc_vec(items: Seq<Json>)
    requires
        items.len() > 0,
    ensures
        jv_of_seq(items) == jv_of_seq(items.subrange(0, items.len() - 1)).push(
            jv_of(items[items.len() - 1]),
        ),
{
    lemma_jv_of_seq_snoc(items, items.len() - 1);
    assert(items.subrange(0, items.len() as int) =~= items);
}

proof fn lemma_jv_of_kvs_snoc_vec(kvs: Seq<(String, Json)>)
    requires
        kvs.len() > 0,
    ensures
        jv_of_kvs(kvs) == jv_of_kvs(kvs.subrange(0, kvs.len() - 1)).push(
            (kvs[kvs.len() - 1].0@, jv_of(kvs[kvs.len() - 1].1)),
        ),
{
    lemma_jv_of_kvs_snoc(kvs, kvs.len() - 1);
    assert(kvs.subrange(0, kvs.len() as int) =~= kvs);
}


/// Views of a string list as JSON values.
pub open spec fn jv_strings(ss: Seq<Seq<char>>) -> Seq<Jv> {
    ss.map_values(|s: Seq<char>| Jv::Str(s))
}

/// Appends one member to an object under construction.
pub fn obj_push(kvs: &mut Vec<(String, Json)>, key: &str, v: Json)
    ensures
        jv_of_kvs(final(kvs)@) == jv_of_kvs(old(kvs)@).push((key@, v@)),
{
    let ghost vv = v@;
    kvs.push((key.to_owned(), v));
    proof {
        lemma_jv_of_kvs_snoc(kvs@, kvs@.len() - 1);
        assert(kvs@.subrange(0, kvs@.len() - 1) =~= old(kvs)@);
        assert(kvs@.subrange(0, kvs@.len() as int) =~= kvs@);
        assert(kvs@[kvs@.len() - 1].0@ == key@);
        assert(jv_of(kvs@[kvs@.len() - 1].1) == vv);
    }
}

/// Is `j` exactly the string value `s`?
pub fn is_str_value(j: &Json, s: &str) -> (r: bool)
    ensures
        r == (j@ == Jv::Str(s@)),
{
    match j {
        Json::Str(t) => crate::strutil::str_eq(t.as_str(), s),
        _ => false,
    }
}

proof fn lemma_jv_of_kvs_drop(kvs: Seq<(String, Json)>)
    requires
        kvs.len() > 0,
    ensures
        jv_of_kvs(kvs).drop_first() == jv_of_kvs(kvs.drop_first()),
{
    assert(jv_of_kvs(kvs) == seq![(kvs[0].0@, jv_of(kvs[0].1))] + jv_of_kvs(kvs.drop_first()));
    assert(jv_of_kvs(kvs).drop_first() =~= jv_of_kvs(kvs.drop_first()));
}

} // verus!
