//! A JSON document tree: the library's own value type for the report format.
//! Numbers are unsigned integers, which is all the report format uses.

use vstd::arithmetic::div_mod::{lemma_div_decreases, lemma_small_mod};
use vstd::prelude::*;

use crate::ids::{hex_char, push_hex_digit};

verus! {

broadcast use vstd::seq::axiom_seq_index_decreases, vstd::std_specs::vec::axiom_vec_index_decreases, vstd::std_specs::vec::axiom_vec_decreases_to_view;

/// One JSON value. Object fields keep their order.
pub enum JsonValue {
    Null,
    Bool(bool),
    Num(u128),
    Str(String),
    Arr(Vec<JsonValue>),
    Obj(Vec<(String, JsonValue)>),
}

/// The mathematical shape of a JSON value.
#[verifier::ext_equal]
pub enum JsonSpec {
    Null,
    Bool(bool),
    Num(u128),
    Str(Seq<char>),
    Arr(Seq<JsonSpec>),
    Obj(Seq<(Seq<char>, JsonSpec)>),
}

/// The shape a `JsonValue` denotes.
pub open spec fn json_view(v: JsonValue) -> JsonSpec
    decreases v,
{
    match v {
        JsonValue::Null => JsonSpec::Null,
        JsonValue::Bool(b) => JsonSpec::Bool(b),
        JsonValue::Num(n) => JsonSpec::Num(n),
        JsonValue::Str(s) => JsonSpec::Str(s@),
        JsonValue::Arr(items) => JsonSpec::Arr(
            Seq::new(
                items@.len(),
                |i: int|
                    if 0 <= i < items@.len() {
                        json_view(items@[i])
                    } else {
                        JsonSpec::Null
                    },
            ),
        ),
        JsonValue::Obj(fields) => JsonSpec::Obj(
            Seq::new(
                fields@.len(),
                |i: int|
                    if 0 <= i < fields@.len() {
                        (fields@[i].0@, json_view(fields@[i].1))
                    } else {
                        (Seq::empty(), JsonSpec::Null)
                    },
            ),
        ),
    }
}

impl View for JsonValue {
    type V = JsonSpec;

    open spec fn view(&self) -> JsonSpec {
        json_view(*self)
    }
}

/// Structural equality of two documents: same shape, same strings, same
/// numbers, fields in the same order.
pub fn json_eq(a: &JsonValue, b: &JsonValue) -> (r: bool)
    ensures
        r <==> a@ == b@,
    decreases a@,
{
    match a {
        JsonValue::Null => match b {
            JsonValue::Null => true,
            _ => false,
        },
        JsonValue::Bool(x) => match b {
            JsonValue::Bool(y) => x == y,
            _ => false,
        },
        JsonValue::Num(x) => match b {
            JsonValue::Num(y) => x == y,
            _ => false,
        },
        JsonValue::Str(x) => match b {
            JsonValue::Str(y) => *x == *y,
            _ => false,
        },
        JsonValue::Arr(xs) => match b {
            JsonValue::Arr(ys) => {
                let ghost sa = a@->Arr_0;
                let ghost sb = b@->Arr_0;
                proof {
                    assert(a@ == JsonSpec::Arr(sa) && sa.len() == xs@.len());
                    assert(b@ == JsonSpec::Arr(sb) && sb.len() == ys@.len());
                }
                if xs.len() != ys.len() {
                    return false;
                }
                for i in 0..xs.len()
                    invariant
                        xs@.len() == ys@.len(),
                        sa == a@->Arr_0,
                        sb == b@->Arr_0,
                        a@ == JsonSpec::Arr(sa),
                        b@ == JsonSpec::Arr(sb),
                        sa.len() == xs@.len(),
                        sb.len() == ys@.len(),
                        forall|j: int| 0 <= j < i ==> sa[j] == sb[j],
                        forall|j: int| 0 <= j < sa.len() ==> sa[j] == json_view(xs@[j]),
                        forall|j: int| 0 <= j < sb.len() ==> sb[j] == json_view(ys@[j]),
                {
                    proof {
                        assert(decreases_to!(a@ => a@->Arr_0));
                        assert(decreases_to!(sa => sa[i as int]));
                    }
                    if !json_eq(&xs[i], &ys[i]) {
                        proof {
                            assert(sa[i as int] != sb[i as int]);
                        }
                        return false;
                    }
                }
                proof {
                    assert(sa =~= sb);
                }
                true
            },
            _ => false,
        },
        JsonValue::Obj(xs) => match b {
            JsonValue::Obj(ys) => {
                let ghost sa = a@->Obj_0;
                let ghost sb = b@->Obj_0;
                proof {
                    assert(a@ == JsonSpec::Obj(sa) && sa.len() == xs@.len());
                    assert(b@ == JsonSpec::Obj(sb) && sb.len() == ys@.len());
                }
                if xs.len() != ys.len() {
                    return false;
                }
                for i in 0..xs.len()
                    invariant
                        xs@.len() == ys@.len(),
                        sa == a@->Obj_0,
                        sb == b@->Obj_0,
                        a@ == JsonSpec::Obj(sa),
                        b@ == JsonSpec::Obj(sb),
                        sa.len() == xs@.len(),
                        sb.len() == ys@.len(),
                        forall|j: int| 0 <= j < i ==> sa[j] == sb[j],
                        forall|j: int|
                            0 <= j < sa.len() ==> sa[j] == (xs@[j].0@, json_view(xs@[j].1)),
                        forall|j: int|
                            0 <= j < sb.len() ==> sb[j] == (ys@[j].0@, json_view(ys@[j].1)),
                {
                    let p = &xs[i];
                    let q = &ys[i];
                    proof {
                        assert(decreases_to!(a@ => a@->Obj_0));
                        assert(decreases_to!(sa => sa[i as int]));
                        assert(decreases_to!(sa[i as int] => sa[i as int].1));
                    }
                    let keys_match = p.0 == q.0;
                    if !keys_match || !json_eq(&p.1, &q.1) {
                        proof {
                            assert(sa[i as int] != sb[i as int]);
                        }
                        return false;
                    }
                }
                proof {
                    assert(sa =~= sb);
                }
                true
            },
            _ => false,
        },
    }
}

/// The decimal digits of `v`, most significant first, no leading zeros
/// (a single `0` for zero).
pub open spec fn dec_seq(v: nat) -> Seq<char>
    decreases v,
{
    if v < 10 {
        seq![hex_char(v)]
    } else {
        dec_seq(v / 10).push(hex_char(v % 10))
    }
}

/// How one character appears inside a JSON string literal: quote and
/// backslash escaped, the common control characters by letter, the rest of
/// the control characters as `\u00..`, everything else as itself.
pub open spec fn escape_char(c: char) -> Seq<char> {
    if c == '"' {
        seq!['\\', '"']
    } else if c == '\\' {
        seq!['\\', '\\']
    } else if c == '\n' {
        seq!['\\', 'n']
    } else if c == '\r' {
        seq!['\\', 'r']
    } else if c == '\t' {
        seq!['\\', 't']
    } else if (c as u32) < 0x20 {
        seq!['\\', 'u', '0', '0', hex_char(((c as u32) / 16) as nat), hex_char(
            ((c as u32) % 16) as nat,
        )]
    } else {
        seq![c]
    }
}

pub open spec fn escape_str(s: Seq<char>) -> Seq<char>
    decreases s.len(),
{
    if s.len() == 0 {
        Seq::empty()
    } else {
        escape_char(s[0]) + escape_str(s.subrange(1, s.len() as int))
    }
}

/// A JSON string literal: the escaped text between quotes.
pub open spec fn quoted(s: Seq<char>) -> Seq<char> {
    seq!['"'] + escape_str(s) + seq!['"']
}

/// The compact text rendering of a document: no spaces, fields in order.
pub open spec fn json_text(j: JsonSpec) -> Seq<char>
    decreases j,
{
    match j {
        JsonSpec::Null => "null"@,
        JsonSpec::Bool(b) => if b {
            "true"@
        } else {
            "false"@
        },
        JsonSpec::Num(n) => dec_seq(n as nat),
        JsonSpec::Str(s) => quoted(s),
        JsonSpec::Arr(items) => seq!['['] + json_text_list(items) + seq![']'],
        JsonSpec::Obj(fields) => seq!['{'] + json_text_fields(fields) + seq!['}'],
    }
}

/// The comma-separated renderings of an array's elements.
pub open spec fn json_text_list(items: Seq<JsonSpec>) -> Seq<char>
    decreases items,
{
    if items.len() == 0 {
        Seq::empty()
    } else if items.len() == 1 {
        json_text(items[0])
    } else {
        json_text(items[0]) + seq![','] + json_text_list(items.subrange(1, items.len() as int))
    }
}

/// The comma-separated `"key":value` renderings of an object's fields.
pub open spec fn json_text_fields(fields: Seq<(Seq<char>, JsonSpec)>) -> Seq<char>
    decreases fields,
{
    if fields.len() == 0 {
        Seq::empty()
    } else if fields.len() == 1 {
        quoted(fields[0].0) + seq![':'] + json_text(fields[0].1)
    } else {
        quoted(fields[0].0) + seq![':'] + json_text(fields[0].1) + seq![','] + json_text_fields(
            fields.subrange(1, fields.len() as int),
        )
    }
}

proof fn lemma_escape_push(s: Seq<char>, c: char)
    ensures
        escape_str(s.push(c)) == escape_str(s) + escape_char(c),
    decreases s.len(),
{
    if s.len() == 0 {
        assert(s.push(c).subrange(1, 1) =~= Seq::<char>::empty());
        assert(escape_char(c) + escape_str(Seq::empty()) =~= escape_char(c));
        assert(escape_str(s) + escape_char(c) =~= escape_char(c));
    } else {
        let t = s.subrange(1, s.len() as int);
        lemma_escape_push(t, c);
        let p = s.push(c);
        assert(p.subrange(1, p.len() as int) =~= t.push(c));
        assert(escape_char(s[0]) + (escape_str(t) + escape_char(c)) =~= (escape_char(s[0])
            + escape_str(t)) + escape_char(c));
    }
}

proof fn lemma_text_list_push(p: Seq<JsonSpec>, x: JsonSpec)
    ensures
        p.len() == 0 ==> json_text_list(p.push(x)) == json_text(x),
        p.len() > 0 ==> json_text_list(p.push(x)) == json_text_list(p) + seq![','] + json_text(
            x,
        ),
    decreases p.len(),
{
    let q = p.push(x);
    if p.len() == 0 {
        assert(q.len() == 1 && q[0] == x);
    } else {
        let t = p.subrange(1, p.len() as int);
        lemma_text_list_push(t, x);
        assert(q.subrange(1, q.len() as int) =~= t.push(x));
        assert(q[0] == p[0]);
        if p.len() == 1 {
            assert(t.len() == 0);
            assert(json_text_list(q) == json_text(p[0]) + seq![','] + json_text(x));
        } else {
            assert(json_text(q[0]) + seq![','] + (json_text_list(t) + seq![','] + json_text(x))
                =~= (json_text(p[0]) + seq![','] + json_text_list(t)) + seq![','] + json_text(x));
        }
    }
}

proof fn lemma_text_fields_push(p: Seq<(Seq<char>, JsonSpec)>, x: (Seq<char>, JsonSpec))
    ensures
        p.len() == 0 ==> json_text_fields(p.push(x)) == quoted(x.0) + seq![':'] + json_text(x.1),
        p.len() > 0 ==> json_text_fields(p.push(x)) == json_text_fields(p) + seq![','] + quoted(
            x.0,
        ) + seq![':'] + json_text(x.1),
    decreases p.len(),
{
    let q = p.push(x);
    if p.len() == 0 {
        assert(q.len() == 1 && q[0] == x);
    } else {
        let t = p.subrange(1, p.len() as int);
        lemma_text_fields_push(t, x);
        assert(q.subrange(1, q.len() as int) =~= t.push(x));
        assert(q[0] == p[0]);
        if p.len() == 1 {
            assert(t.len() == 0);
            assert(quoted(q[0].0) + seq![':'] + json_text(q[0].1) + seq![','] + (quoted(x.0)
                + seq![':'] + json_text(x.1)) =~= (quoted(p[0].0) + seq![':'] + json_text(p[0].1))
                + seq![','] + quoted(x.0) + seq![':'] + json_text(x.1));
        } else {
            assert(quoted(q[0].0) + seq![':'] + json_text(q[0].1) + seq![','] + (json_text_fields(
                t,
            ) + seq![','] + quoted(x.0) + seq![':'] + json_text(x.1)) =~= (quoted(p[0].0)
                + seq![':'] + json_text(p[0].1) + seq![','] + json_text_fields(t)) + seq![',']
                + quoted(x.0) + seq![':'] + json_text(x.1));
        }
    }
}

fn push_decimal(s: &mut String, v: u128)
    ensures
        final(s)@ == old(s)@ + dec_seq(v as nat),
    decreases v,
{
    if v >= 10 {
        proof {
            lemma_div_decreases(v as int, 10);
        }
        push_decimal(s, v / 10);
    }
    let d = (v % 10) as u8;
    push_hex_digit(s, d);
    proof {
        lemma_small_mod((v % 10) as nat, 10);
        if v < 10 {
            lemma_small_mod(v as nat, 10);
            assert(old(s)@.push(hex_char(v as nat % 10)) =~= old(s)@ + dec_seq(v as nat));
        } else {
            assert((old(s)@ + dec_seq((v / 10) as nat)).push(hex_char((v as nat) % 10)) =~= old(
                s,
            )@ + dec_seq(v as nat));
        }
    }
}

fn push_escaped(s: &mut String, src: &str)
    ensures
        final(s)@ == old(s)@ + escape_str(src@),
{
    let n = src.unicode_len();
    proof {
        assert(src@.subrange(0, 0) =~= Seq::<char>::empty());
        assert(old(s)@ + escape_str(src@.subrange(0, 0)) =~= old(s)@);
    }
    for i in 0..n
        invariant
            src@.len() == n,
            s@ == old(s)@ + escape_str(src@.subrange(0, i as int)),
    {
        let c = src.get_char(i);
        proof {
            lemma_escape_push(src@.subrange(0, i as int), c);
            assert(src@.subrange(0, i + 1) =~= src@.subrange(0, i as int).push(src@[i as int]));
        }
        if c == '"' {
            s.append("\\\"");
            proof {
                reveal_strlit("\\\"");
                assert(s@ =~= old(s)@ + escape_str(src@.subrange(0, i + 1)));
            }
        } else if c == '\\' {
            s.append("\\\\");
            proof {
                reveal_strlit("\\\\");
                assert(s@ =~= old(s)@ + escape_str(src@.subrange(0, i + 1)));
            }
        } else if c == '\n' {
            s.append("\\n");
            proof {
                reveal_strlit("\\n");
                assert(s@ =~= old(s)@ + escape_str(src@.subrange(0, i + 1)));
            }
        } else if c == '\r' {
            s.append("\\r");
            proof {
                reveal_strlit("\\r");
                assert(s@ =~= old(s)@ + escape_str(src@.subrange(0, i + 1)));
            }
        } else if c == '\t' {
            s.append("\\t");
            proof {
                reveal_strlit("\\t");
                assert(s@ =~= old(s)@ + escape_str(src@.subrange(0, i + 1)));
            }
        } else if (c as u32) < 0x20 {
            s.append("\\u00");
            let u = c as u32;
            push_hex_digit(s, (u / 16) as u8);
            push_hex_digit(s, (u % 16) as u8);
            proof {
                reveal_strlit("\\u00");
                assert(s@ =~= old(s)@ + escape_str(src@.subrange(0, i + 1)));
            }
        } else {
            s.append(src.substring_char(i, i + 1));
            proof {
                assert(src@.subrange(i as int, i + 1) =~= seq![src@[i as int]]);
                assert(s@ =~= old(s)@ + escape_str(src@.subrange(0, i + 1)));
            }
        }
    }
    proof {
        assert(src@.subrange(0, n as int) =~= src@);
    }
}

/// Append the compact text rendering of `v`.
pub fn write_json(s: &mut String, v: &JsonValue)
    ensures
        final(s)@ == old(s)@ + json_text(v@),
    decreases v@,
{
    match v {
        JsonValue::Null => {
            s.append("null");
        },
        JsonValue::Bool(b) => {
            if *b {
                s.append("true");
            } else {
                s.append("false");
            }
        },
        JsonValue::Num(n) => {
            push_decimal(s, *n);
        },
        JsonValue::Str(t) => {
            s.append("\"");
            push_escaped(s, t.as_str());
            s.append("\"");
            proof {
                reveal_strlit("\"");
                assert(s@ =~= old(s)@ + json_text(v@));
            }
        },
        JsonValue::Arr(items) => {
            let ghost sv = v@->Arr_0;
            proof {
                assert(v@ == JsonSpec::Arr(sv) && sv.len() == items@.len());
                reveal_strlit("[");
                reveal_strlit("]");
                reveal_strlit(",");
            }
            s.append("[");
            proof {
                assert(sv.subrange(0, 0) =~= Seq::<JsonSpec>::empty());
                assert(s@ =~= old(s)@ + seq!['['] + json_text_list(sv.subrange(0, 0)));
            }
            let n = items.len();
            for i in 0..n
                invariant
                    n == items@.len(),
                    sv.len() == items@.len(),
                    v@ == JsonSpec::Arr(sv),
                    forall|j: int| 0 <= j < sv.len() ==> sv[j] == json_view(items@[j]),
                    s@ == old(s)@ + seq!['['] + json_text_list(sv.subrange(0, i as int)),
            {
                if i > 0 {
                    s.append(",");
                }
                proof {
                    reveal_strlit(",");
                    assert(decreases_to!(v@ => v@->Arr_0));
                    assert(decreases_to!(sv => sv[i as int]));
                }
                write_json(s, &items[i]);
                proof {
                    lemma_text_list_push(sv.subrange(0, i as int), sv[i as int]);
                    assert(sv.subrange(0, i + 1) =~= sv.subrange(0, i as int).push(sv[i as int]));
                    assert(s@ =~= old(s)@ + seq!['['] + json_text_list(sv.subrange(0, i + 1)));
                }
            }
            s.append("]");
            proof {
                assert(sv.subrange(0, sv.len() as int) =~= sv);
                assert(s@ =~= old(s)@ + json_text(v@));
            }
        },
        JsonValue::Obj(fields) => {
            let ghost sv = v@->Obj_0;
            proof {
                assert(v@ == JsonSpec::Obj(sv) && sv.len() == fields@.len());
                reveal_strlit("{");
                reveal_strlit("}");
                reveal_strlit(",");
                reveal_strlit("\"");
                reveal_strlit("\":");
            }
            s.append("{");
            proof {
                assert(sv.subrange(0, 0) =~= Seq::<(Seq<char>, JsonSpec)>::empty());
                assert(s@ =~= old(s)@ + seq!['{'] + json_text_fields(sv.subrange(0, 0)));
            }
            let n = fields.len();
            for i in 0..n
                invariant
                    n == fields@.len(),
                    sv.len() == fields@.len(),
                    v@ == JsonSpec::Obj(sv),
                    forall|j: int|
                        0 <= j < sv.len() ==> sv[j] == (fields@[j].0@, json_view(fields@[j].1)),
                    s@ == old(s)@ + seq!['{'] + json_text_fields(sv.subrange(0, i as int)),
            {
                if i > 0 {
                    s.append(",");
                    proof {
                        reveal_strlit(",");
                    }
                }
                let p = &fields[i];
                s.append("\"");
                push_escaped(s, p.0.as_str());
                s.append("\":");
                proof {
                    reveal_strlit("\"");
                    reveal_strlit("\":");
                    assert(decreases_to!(v@ => v@->Obj_0));
                    assert(decreases_to!(sv => sv[i as int]));
                    assert(decreases_to!(sv[i as int] => sv[i as int].1));
                }
                write_json(s, &p.1);
                proof {
                    lemma_text_fields_push(sv.subrange(0, i as int), sv[i as int]);
                    assert(sv.subrange(0, i + 1) =~= sv.subrange(0, i as int).push(sv[i as int]));
                    assert(s@ =~= old(s)@ + seq!['{'] + json_text_fields(sv.subrange(0, i + 1)));
                }
            }
            s.append("}");
            proof {
                assert(sv.subrange(0, sv.len() as int) =~= sv);
                assert(s@ =~= old(s)@ + json_text(v@));
            }
        },
    }
}

/// The compact text rendering of a document.
pub fn json_to_string(v: &JsonValue) -> (r: String)
    ensures
        r@ == json_text(v@),
{
    let mut s = String::new();
    write_json(&mut s, v);
    proof {
        assert(Seq::<char>::empty() + json_text(v@) =~= json_text(v@));
    }
    s
}

} // verus!
