//! The library's model of a JSON value, and a serializer for it.
//!
//! Remote results and decoded objects are carried in `JsonValue`; numbers
//! are kept as their numeric lexeme so that primitive values pass through
//! the decoder untouched. Contracts speak of `JsonModel`, the mathematical
//! view of a value. The serializer renders the conventional compact form,
//! or, when asked, the normalized form in which every key/value separator
//! carries one trailing space.
use vstd::prelude::*;
use vstd::string::StrSliceExecFns;
use vstd::string::StringExecFns;

verus! {

/// A JSON value. `Num` carries the numeric lexeme verbatim.
#[derive(Debug, PartialEq)]
pub enum JsonValue {
    Null,
    Bool(bool),
    Num(String),
    Str(String),
    Array(Vec<JsonValue>),
    Object(Vec<(String, JsonValue)>),
}

/// The mathematical view of a JSON value: strings are character sequences,
/// arrays and objects are sequences of views.
pub enum JsonModel {
    Null,
    Bool(bool),
    Num(Seq<char>),
    Str(Seq<char>),
    Array(Seq<JsonModel>),
    Object(Seq<(Seq<char>, JsonModel)>),
}

pub open spec fn json_view(v: JsonValue) -> JsonModel
    decreases v, 0int,
{
    match v {
        JsonValue::Null => JsonModel::Null,
        JsonValue::Bool(b) => JsonModel::Bool(b),
        JsonValue::Num(s) => JsonModel::Num(s@),
        JsonValue::Str(s) => JsonModel::Str(s@),
        JsonValue::Array(es) => JsonModel::Array(json_view_seq(es@)),
        JsonValue::Object(ms) => JsonModel::Object(json_view_members(ms@)),
    }
}

pub open spec fn json_view_seq(es: Seq<JsonValue>) -> Seq<JsonModel>
    decreases es, 1int,
{
    if es.len() == 0 {
        Seq::empty()
    } else {
        json_view_seq(es.drop_last()).push(json_view(es.last()))
    }
}

pub open spec fn json_view_members(ms: Seq<(String, JsonValue)>) -> Seq<(Seq<char>, JsonModel)>
    decreases ms, 1int,
{
    if ms.len() == 0 {
        Seq::empty()
    } else {
        json_view_members(ms.drop_last()).push((ms.last().0@, json_view(ms.last().1)))
    }
}

impl View for JsonValue {
    type V = JsonModel;

    open spec fn view(&self) -> JsonModel {
        json_view(*self)
    }
}

pub broadcast proof fn lemma_json_view_seq(es: Seq<JsonValue>)
    ensures
        #[trigger] json_view_seq(es).len() == es.len(),
        forall|i: int| 0 <= i < es.len() ==> json_view_seq(es)[i] == json_view(es[i]),
    decreases es.len(),
{
    if es.len() > 0 {
        lemma_json_view_seq(es.drop_last());
    }
}

pub broadcast proof fn lemma_json_view_members(ms: Seq<(String, JsonValue)>)
    ensures
        #[trigger] json_view_members(ms).len() == ms.len(),
        forall|i: int|
            0 <= i < ms.len() ==> json_view_members(ms)[i] == (ms[i].0@, json_view(ms[i].1)),
    decreases ms.len(),
{
    if ms.len() > 0 {
        lemma_json_view_members(ms.drop_last());
        assert forall|i: int|
            0 <= i < ms.len() implies json_view_members(ms)[i] == (
            ms[i].0@,
            json_view(ms[i].1),
        ) by {
            if i < ms.len() - 1 {
                assert(ms.drop_last()[i] == ms[i]);
            }
        }
    }
}

impl JsonValue {
    /// A structural copy with the same view as `self`.
    #[verifier::loop_isolation(false)]
    pub fn deep_copy(&self) -> (r: JsonValue)
        ensures
            r@ == self@,
        decreases *self,
    {
        broadcast use lemma_json_view_seq, lemma_json_view_members;

        match self {
            JsonValue::Null => JsonValue::Null,
            JsonValue::Bool(b) => JsonValue::Bool(*b),
            JsonValue::Num(s) => JsonValue::Num(s.clone()),
            JsonValue::Str(s) => JsonValue::Str(s.clone()),
            JsonValue::Array(es) => {
                let mut out: Vec<JsonValue> = Vec::new();
                let mut i: usize = 0;
                while i < es.len()
                    invariant
                        i <= es@.len(),
                        json_view_seq(out@) =~= json_view_seq(es@).take(i as int),
                    decreases es@.len() - i,
                {
                    proof {
                        assert(decreases_to!(*self => self->Array_0));
                        assert(decreases_to!(self->Array_0 => es@));
                        assert(decreases_to!(es@ => es@[i as int]));
                    }
                    let ghost prev = out@;
                    out.push(es[i].deep_copy());
                    proof {
                        assert(out@.drop_last() =~= prev);
                        assert(json_view_seq(out@) =~= json_view_seq(es@).take(i + 1));
                    }
                    i += 1;
                }
                proof {
                    assert(json_view_seq(es@).take(es@.len() as int) =~= json_view_seq(es@));
                }
                JsonValue::Array(out)
            },
            JsonValue::Object(ms) => {
                let mut out: Vec<(String, JsonValue)> = Vec::new();
                let mut i: usize = 0;
                while i < ms.len()
                    invariant
                        i <= ms@.len(),
                        json_view_members(out@) =~= json_view_members(ms@).take(i as int),
                    decreases ms@.len() - i,
                {
                    proof {
                        assert(decreases_to!(*self => self->Object_0));
                        assert(decreases_to!(self->Object_0 => ms@));
                        assert(decreases_to!(ms@ => ms@[i as int]));
                        assert(decreases_to!(ms@[i as int] => ms@[i as int].1));
                    }
                    let ghost prev = out@;
                    let name = ms[i].0.clone();
                    let value = ms[i].1.deep_copy();
                    out.push((name, value));
                    proof {
                        assert(out@.drop_last() =~= prev);
                        assert(json_view_members(out@) =~= json_view_members(ms@).take(i + 1));
                    }
                    i += 1;
                }
                proof {
                    assert(json_view_members(ms@).take(ms@.len() as int) =~= json_view_members(
                        ms@,
                    ));
                }
                JsonValue::Object(out)
            },
        }
    }
}

/// The hexadecimal digit for `n`, for `0 <= n < 16`.
pub open spec fn hex_digit(n: int) -> char {
    if n == 0 {
        '0'
    } else if n == 1 {
        '1'
    } else if n == 2 {
        '2'
    } else if n == 3 {
        '3'
    } else if n == 4 {
        '4'
    } else if n == 5 {
        '5'
    } else if n == 6 {
        '6'
    } else if n == 7 {
        '7'
    } else if n == 8 {
        '8'
    } else if n == 9 {
        '9'
    } else if n == 10 {
        'a'
    } else if n == 11 {
        'b'
    } else if n == 12 {
        'c'
    } else if n == 13 {
        'd'
    } else if n == 14 {
        'e'
    } else {
        'f'
    }
}

/// How one character is rendered inside a JSON string literal: quote and
/// backslash get a backslash escape, control characters a `\u00XX` escape,
/// everything else stands for itself.
pub open spec fn escape_char(c: char) -> Seq<char> {
    if c == '"' {
        seq!['\\', '"']
    } else if c == '\\' {
        seq!['\\', '\\']
    } else if (c as u32) < 32 {
        seq!['\\', 'u', '0', '0', hex_digit(c as u32 as int / 16), hex_digit(c as u32 as int % 16)]
    } else {
        seq![c]
    }
}

pub open spec fn escape_str(s: Seq<char>) -> Seq<char>
    decreases s.len(),
{
    if s.len() == 0 {
        Seq::empty()
    } else {
        escape_str(s.drop_last()) + escape_char(s.last())
    }
}

/// A JSON string literal: the escaped text between double quotes.
pub open spec fn quoted(s: Seq<char>) -> Seq<char> {
    seq!['"'] + escape_str(s) + seq!['"']
}

/// The serialized form of a value. With `spaced`, every key/value separator
/// in an object is rendered with one trailing space (`"key": value`).
pub open spec fn json_of(v: JsonModel, spaced: bool) -> Seq<char>
    decreases v, 0int,
{
    match v {
        JsonModel::Null => seq!['n', 'u', 'l', 'l'],
        JsonModel::Bool(b) => if b {
            seq!['t', 'r', 'u', 'e']
        } else {
            seq!['f', 'a', 'l', 's', 'e']
        },
        JsonModel::Num(s) => s,
        JsonModel::Str(s) => quoted(s),
        JsonModel::Array(es) => seq!['['] + json_of_elems(es, spaced) + seq![']'],
        JsonModel::Object(ms) => seq!['{'] + json_of_members(ms, spaced) + seq!['}'],
    }
}

pub open spec fn json_of_elems(es: Seq<JsonModel>, spaced: bool) -> Seq<char>
    decreases es, 1int,
{
    if es.len() == 0 {
        Seq::empty()
    } else if es.len() == 1 {
        json_of(es[0], spaced)
    } else {
        json_of_elems(es.drop_last(), spaced) + seq![','] + json_of(es.last(), spaced)
    }
}

pub open spec fn member_sep(spaced: bool) -> Seq<char> {
    if spaced {
        seq![':', ' ']
    } else {
        seq![':']
    }
}

pub open spec fn json_of_member(m: (Seq<char>, JsonModel), spaced: bool) -> Seq<char>
    decreases m, 2int,
{
    quoted(m.0) + member_sep(spaced) + json_of(m.1, spaced)
}

pub open spec fn json_of_members(ms: Seq<(Seq<char>, JsonModel)>, spaced: bool) -> Seq<char>
    decreases ms, 3int,
{
    if ms.len() == 0 {
        Seq::empty()
    } else if ms.len() == 1 {
        json_of_member(ms[0], spaced)
    } else {
        json_of_members(ms.drop_last(), spaced) + seq![','] + json_of_member(ms.last(), spaced)
    }
}

fn push_hex_digit(d: u32, out: &mut String)
    requires
        d < 16,
    ensures
        final(out)@ == old(out)@ + seq![hex_digit(d as int)],
{
    if d == 0 {
        out.append("0");
        proof {
            reveal_strlit("0");
        }
    } else if d == 1 {
        out.append("1");
        proof {
            reveal_strlit("1");
        }
    } else if d == 2 {
        out.append("2");
        proof {
            reveal_strlit("2");
        }
    } else if d == 3 {
        out.append("3");
        proof {
            reveal_strlit("3");
        }
    } else if d == 4 {
        out.append("4");
        proof {
            reveal_strlit("4");
        }
    } else if d == 5 {
        out.append("5");
        proof {
            reveal_strlit("5");
        }
    } else if d == 6 {
        out.append("6");
        proof {
            reveal_strlit("6");
        }
    } else if d == 7 {
        out.append("7");
        proof {
            reveal_strlit("7");
        }
    } else if d == 8 {
        out.append("8");
        proof {
            reveal_strlit("8");
        }
    } else if d == 9 {
        out.append("9");
        proof {
            reveal_strlit("9");
        }
    } else if d == 10 {
        out.append("a");
        proof {
            reveal_strlit("a");
        }
    } else if d == 11 {
        out.append("b");
        proof {
            reveal_strlit("b");
        }
    } else if d == 12 {
        out.append("c");
        proof {
            reveal_strlit("c");
        }
    } else if d == 13 {
        out.append("d");
        proof {
            reveal_strlit("d");
        }
    } else if d == 14 {
        out.append("e");
        proof {
            reveal_strlit("e");
        }
    } else {
        out.append("f");
        proof {
            reveal_strlit("f");
        }
    }
}

fn push_escaped(s: &str, out: &mut String)
    ensures
        final(out)@ == old(out)@ + escape_str(s@),
{
    let n = s.unicode_len();
    let mut i: usize = 0;
    proof {
        assert(s@.take(0) =~= Seq::<char>::empty());
        assert(old(out)@ + Seq::<char>::empty() =~= old(out)@);
    }
    while i < n
        invariant
            i <= n,
            n == s@.len(),
            out@ == old(out)@ + escape_str(s@.take(i as int)),
        decreases n - i,
    {
        let c = s.get_char(i);
        proof {
            assert(s@.take(i + 1).drop_last() =~= s@.take(i as int));
            assert(s@.take(i + 1).last() == s@[i as int]);
        }
        if c == '"' {
            out.append("\\\"");
            proof {
                reveal_strlit("\\\"");
                assert("\\\""@ =~= escape_char(c));
                assert(out@ =~= old(out)@ + escape_str(s@.take(i + 1)));
            }
        } else if c == '\\' {
            out.append("\\\\");
            proof {
                reveal_strlit("\\\\");
                assert("\\\\"@ =~= escape_char(c));
                assert(out@ =~= old(out)@ + escape_str(s@.take(i + 1)));
            }
        } else if (c as u32) < 32 {
            out.append("\\u00");
            push_hex_digit((c as u32) / 16, out);
            push_hex_digit((c as u32) % 16, out);
            proof {
                reveal_strlit("\\u00");
                assert("\\u00"@ =~= seq!['\\', 'u', '0', '0']);
                assert(out@ =~= old(out)@ + escape_str(s@.take(i + 1)));
            }
        } else {
            let piece = s.substring_char(i, i + 1);
            out.append(piece);
            proof {
                assert(piece@ =~= seq![c]);
                assert(out@ =~= old(out)@ + escape_str(s@.take(i + 1)));
            }
        }
        i += 1;
    }
    proof {
        assert(s@.take(n as int) =~= s@);
    }
}

/// Appends the serialized form of `v` to `out`.
#[verifier::loop_isolation(false)]
#[verifier::rlimit(100)]
pub fn write_json(v: &JsonValue, spaced: bool, out: &mut String)
    ensures
        final(out)@ == old(out)@ + json_of(v@, spaced),
    decreases *v,
{
    broadcast use lemma_json_view_seq, lemma_json_view_members;

    match v {
        JsonValue::Null => {
            out.append("null");
            proof {
                reveal_strlit("null");
                assert(out@ =~= old(out)@ + json_of(v@, spaced));
            }
        },
        JsonValue::Bool(b) => {
            if *b {
                out.append("true");
                proof {
                    reveal_strlit("true");
                    assert(out@ =~= old(out)@ + json_of(v@, spaced));
                }
            } else {
                out.append("false");
                proof {
                    reveal_strlit("false");
                    assert(out@ =~= old(out)@ + json_of(v@, spaced));
                }
            }
        },
        JsonValue::Num(s) => {
            out.append(s.as_str());
        },
        JsonValue::Str(s) => {
            out.append("\"");
            push_escaped(s.as_str(), out);
            out.append("\"");
            proof {
                reveal_strlit("\"");
                assert("\""@ =~= seq!['"']);
                assert(out@ =~= old(out)@ + json_of(v@, spaced));
            }
        },
        JsonValue::Array(es) => {
            let ghost mes = json_view_seq(es@);
            let ghost base = out@;
            out.append("[");
            proof {
                reveal_strlit("[");
                assert("["@ =~= seq!['[']);
                assert(mes.take(0) =~= Seq::<JsonModel>::empty());
                assert(out@ =~= base + seq!['['] + json_of_elems(mes.take(0), spaced));
            }
            let mut i: usize = 0;
            while i < es.len()
                invariant
                    i <= es@.len(),
                    out@ == base + seq!['['] + json_of_elems(mes.take(i as int), spaced),
                decreases es@.len() - i,
            {
                if i > 0 {
                    out.append(",");
                    proof {
                        reveal_strlit(",");
                    }
                }
                proof {
                    assert(decreases_to!(*v => v->Array_0));
                    assert(decreases_to!(v->Array_0 => es@));
                    assert(decreases_to!(es@ => es@[i as int]));
                }
                write_json(&es[i], spaced, out);
                proof {
                    reveal_strlit(",");
                    assert(","@ =~= seq![',']);
                    assert(mes.take(i + 1).drop_last() =~= mes.take(i as int));
                    assert(mes.take(i + 1).last() == json_view(es@[i as int]));
                    assert(out@ =~= base + seq!['['] + json_of_elems(mes.take(i + 1), spaced));
                }
                i += 1;
            }
            out.append("]");
            proof {
                reveal_strlit("]");
                assert("]"@ =~= seq![']']);
                assert(mes.take(es@.len() as int) =~= mes);
                assert(out@ =~= base + json_of(v@, spaced));
            }
        },
        JsonValue::Object(ms) => {
            let ghost mms = json_view_members(ms@);
            let ghost base = out@;
            out.append("{");
            proof {
                reveal_strlit("{");
                assert("{"@ =~= seq!['{']);
                assert(mms.take(0) =~= Seq::<(Seq<char>, JsonModel)>::empty());
                assert(out@ =~= base + seq!['{'] + json_of_members(mms.take(0), spaced));
            }
            let mut i: usize = 0;
            while i < ms.len()
                invariant
                    i <= ms@.len(),
                    out@ == base + seq!['{'] + json_of_members(mms.take(i as int), spaced),
                decreases ms@.len() - i,
            {
                if i > 0 {
                    out.append(",");
                    proof {
                        reveal_strlit(",");
                    }
                }
                let ghost before_member = out@;
                out.append("\"");
                push_escaped(ms[i].0.as_str(), out);
                out.append("\"");
                if spaced {
                    out.append(": ");
                } else {
                    out.append(":");
                }
                proof {
                    assert(decreases_to!(*v => v->Object_0));
                    assert(decreases_to!(v->Object_0 => ms@));
                    assert(decreases_to!(ms@ => ms@[i as int]));
                    assert(decreases_to!(ms@[i as int] => ms@[i as int].1));
                }
                write_json(&ms[i].1, spaced, out);
                proof {
                    reveal_strlit(",");
                    reveal_strlit("\"");
                    reveal_strlit(":");
                    reveal_strlit(": ");
                    assert(","@ =~= seq![',']);
                    assert("\""@ =~= seq!['"']);
                    assert(":"@ =~= seq![':']);
                    assert(": "@ =~= seq![':', ' ']);
                    assert(out@ =~= before_member + json_of_member(mms[i as int], spaced));
                    assert(mms.take(i + 1).drop_last() =~= mms.take(i as int));
                    assert(mms.take(i + 1).last() == mms[i as int]);
                    assert(out@ =~= base + seq!['{'] + json_of_members(mms.take(i + 1), spaced));
                }
                i += 1;
            }
            out.append("}");
            proof {
                reveal_strlit("}");
                assert("}"@ =~= seq!['}']);
                assert(mms.take(ms@.len() as int) =~= mms);
                assert(out@ =~= base + json_of(v@, spaced));
            }
        },
    }
}

/// The serialized form of `v` as a fresh string.
pub fn to_json_string(v: &JsonValue, spaced: bool) -> (r: String)
    ensures
        r@ == json_of(v@, spaced),
{
    let mut out = String::new();
    write_json(v, spaced, &mut out);
    out
}

} // verus!
