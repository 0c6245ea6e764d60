//! JSON text for the ghost JSON model, and the encoder that produces it.
//!
//! The spec functions here define the wire text exactly; the executable
//! encoder is proved to produce that text character for character.

use crate::object::{
    lemma_view_entry_seq_index, lemma_view_json_seq_index, view_entry_seq, view_json,
    view_json_seq, JVal, JsonValue,
};
use vstd::prelude::*;
use vstd::string::StrSliceExecFns;

verus! {

/// The lowercase hex digit for one value below 16.
pub open spec fn hex_digit(n: u32) -> char {
    if n < 10 {
        ((48 + n) as u8) as char
    } else {
        ((87 + n) as u8) as char
    }
}

/// How one character appears inside a JSON string literal.
pub open spec fn esc_char(c: char) -> Seq<char> {
    if c == '"' {
        seq!['\\', '"']
    } else if c == '\\' {
        seq!['\\', '\\']
    } else if c == '\n' {
        seq!['\\', 'n']
    } else if c == '\r' {
        seq!['\\', 'r']
    } else if c == '\t' {
        seq!['\\', 't']
    } else if (c as u32) < 32 {
        seq!['\\', 'u', '0', '0', hex_digit((c as u32) / 16), hex_digit((c as u32) % 16)]
    } else {
        seq![c]
    }
}

/// A whole string body, escaped.
pub open spec fn esc_str(s: Seq<char>) -> Seq<char>
    decreases s.len(),
{
    if s.len() == 0 {
        Seq::empty()
    } else {
        esc_str(s.drop_last()) + esc_char(s.last())
    }
}

/// A JSON string literal.
pub open spec fn quoted(s: Seq<char>) -> Seq<char> {
    seq!['"'] + esc_str(s) + seq!['"']
}

/// The decimal digits of a natural number.
pub open spec fn dec_chars(n: nat) -> Seq<char>
    decreases n,
{
    if n < 10 {
        seq![((48 + n) as u8) as char]
    } else {
        dec_chars(n / 10) + seq![((48 + (n % 10)) as u8) as char]
    }
}

/// The decimal text of a signed integer.
pub open spec fn int_chars(i: i64) -> Seq<char> {
    if i >= 0 {
        dec_chars(i as nat)
    } else {
        seq!['-'] + dec_chars((-(i as int)) as nat)
    }
}

/// The JSON text of a model value.
pub open spec fn jtext(j: JVal) -> Seq<char>
    decreases j,
{
    match j {
        JVal::Null => "null"@,
        JVal::Bool(b) => if b {
            "true"@
        } else {
            "false"@
        },
        JVal::Int(i) => int_chars(i),
        JVal::Str(s) => quoted(s),
        JVal::Arr(es) => seq!['['] + arr_text(es) + seq![']'],
        JVal::Obj(es) => seq!['{'] + obj_text(es) + seq!['}'],
    }
}

/// The comma-separated texts of array elements.
pub open spec fn arr_text(es: Seq<JVal>) -> Seq<char>
    decreases es,
{
    if es.len() == 0 {
        Seq::empty()
    } else if es.len() == 1 {
        jtext(es[0])
    } else {
        arr_text(es.drop_last()) + seq![','] + jtext(es.last())
    }
}

/// The text of one object member.
pub open spec fn entry_text(e: (Seq<char>, JVal)) -> Seq<char>
    decreases e,
{
    quoted(e.0) + seq![':'] + jtext(e.1)
}

/// The comma-separated texts of object members.
pub open spec fn obj_text(es: Seq<(Seq<char>, JVal)>) -> Seq<char>
    decreases es,
{
    if es.len() == 0 {
        Seq::empty()
    } else if es.len() == 1 {
        entry_text(es[0])
    } else {
        obj_text(es.drop_last()) + seq![','] + entry_text(es.last())
    }
}

fn write_escaped(s: &str, out: &mut Vec<char>)
    ensures
        final(out)@ == old(out)@ + esc_str(s@),
{
    let n = s.unicode_len();
    let mut i: usize = 0;
    proof {
        assert(esc_str(s@.take(0)) =~= Seq::<char>::empty());
        assert(old(out)@ + esc_str(s@.take(0)) =~= old(out)@);
    }
    while i < n
        invariant
            i <= n,
            n == s@.len(),
            out@ == old(out)@ + esc_str(s@.take(i as int)),
        decreases n - i,
    {
        let c = s.get_char(i);
        let u = c as u32;
        proof {
            assert(s@.take(i as int + 1).drop_last() =~= s@.take(i as int));
            assert(s@.take(i as int + 1).last() == s@[i as int]);
        }
        if c == '"' {
            out.push('\\');
            out.push('"');
        } else if c == '\\' {
            out.push('\\');
            out.push('\\');
        } else if c == '\n' {
            out.push('\\');
            out.push('n');
        } else if c == '\r' {
            out.push('\\');
            out.push('r');
        } else if c == '\t' {
            out.push('\\');
            out.push('t');
        } else if u < 32 {
            out.push('\\');
            out.push('u');
            out.push('0');
            out.push('0');
            out.push((((48 + u / 16) as u8)) as char);
            let low = u % 16;
            if low < 10 {
                out.push(((48 + low) as u8) as char);
            } else {
                out.push(((87 + low) as u8) as char);
            }
        } else {
            out.push(c);
        }
        proof {
            assert(out@ =~= old(out)@ + esc_str(s@.take(i as int + 1)));
        }
        i = i + 1;
    }
    proof {
        assert(s@.take(n as int) =~= s@);
    }
}

fn write_quoted(s: &str, out: &mut Vec<char>)
    ensures
        final(out)@ == old(out)@ + quoted(s@),
{
    out.push('"');
    write_escaped(s, out);
    out.push('"');
    proof {
        assert(out@ =~= old(out)@ + quoted(s@));
    }
}

/// Write the decimal digits of a natural number.
fn write_dec(n: u64, out: &mut Vec<char>)
    ensures
        final(out)@ == old(out)@ + dec_chars(n as nat),
    decreases n,
{
    if n < 10 {
        out.push(((48 + n) as u8) as char);
        proof {
            assert(out@ =~= old(out)@ + dec_chars(n as nat));
        }
    } else {
        write_dec(n / 10, out);
        out.push(((48 + (n % 10)) as u8) as char);
        proof {
            assert(out@ =~= old(out)@ + dec_chars(n as nat));
        }
    }
}

fn write_int(i: i64, out: &mut Vec<char>)
    ensures
        final(out)@ == old(out)@ + int_chars(i),
{
    if i >= 0 {
        write_dec(i as u64, out);
    } else {
        out.push('-');
        let m: u64 = (-(i as i128)) as u64;
        proof {
            assert(m == (-(i as int)) as nat);
        }
        write_dec(m, out);
        proof {
            assert(out@ =~= old(out)@ + int_chars(i));
        }
    }
}

/// Append the JSON text of a value.
#[verifier::loop_isolation(false)]
fn write_json(v: &JsonValue, out: &mut Vec<char>)
    ensures
        final(out)@ == old(out)@ + jtext(view_json(*v)),
    decreases *v,
{
    match v {
        JsonValue::Null => {
            out.push('n');
            out.push('u');
            out.push('l');
            out.push('l');
            proof {
                reveal_strlit("null");
                assert(out@ =~= old(out)@ + "null"@);
            }
        },
        JsonValue::Bool(b) => {
            if *b {
                out.push('t');
                out.push('r');
                out.push('u');
                out.push('e');
                proof {
                    reveal_strlit("true");
                    assert(out@ =~= old(out)@ + "true"@);
                }
            } else {
                out.push('f');
                out.push('a');
                out.push('l');
                out.push('s');
                out.push('e');
                proof {
                    reveal_strlit("false");
                    assert(out@ =~= old(out)@ + "false"@);
                }
            }
        },
        JsonValue::Int(i) => {
            write_int(*i, out);
        },
        JsonValue::Str(s) => {
            write_quoted(s.as_str(), out);
        },
        JsonValue::Arr(es) => {
            out.push('[');
            let ghost vs = view_json_seq(es@);
            let mut i: usize = 0;
            proof {
                crate::object::lemma_view_json_seq_len(es@);
                assert(vs.take(0) =~= Seq::<JVal>::empty());
            }
            while i < es.len()
                invariant
                    i <= es@.len(),
                    out@ == old(out)@ + seq!['['] + arr_text(vs.take(i as int)),
                decreases es@.len() - i,
            {
                if i > 0 {
                    out.push(',');
                }
                proof {
                    assert(decreases_to!(*v => v->Arr_0));
                    assert(v->Arr_0 == *es);
                    assert(decreases_to!(*es => es@));
                    assert(decreases_to!(es@ => es@[i as int]));
                    assert(decreases_to!(*v => es@[i as int]));
                }
                write_json(&es[i], out);
                proof {
                    lemma_view_json_seq_index(es@, i as int);
                    assert(vs.take(i as int + 1).drop_last() =~= vs.take(i as int));
                    assert(vs.take(i as int + 1).last() == vs[i as int]);
                    assert(out@ =~= old(out)@ + seq!['['] + arr_text(vs.take(i as int + 1)));
                }
                i = i + 1;
            }
            out.push(']');
            proof {
                assert(vs.take(vs.len() as int) =~= vs);
                assert(out@ =~= old(out)@ + jtext(view_json(*v)));
            }
        },
        JsonValue::Obj(es) => {
            out.push('{');
            let ghost vs = view_entry_seq(es@);
            let mut i: usize = 0;
            proof {
                crate::object::lemma_view_entry_seq_len(es@);
                assert(vs.take(0) =~= Seq::<(Seq<char>, JVal)>::empty());
            }
            while i < es.len()
                invariant
                    i <= es@.len(),
                    out@ == old(out)@ + seq!['{'] + obj_text(vs.take(i as int)),
                decreases es@.len() - i,
            {
                if i > 0 {
                    out.push(',');
                }
                write_quoted(es[i].0.as_str(), out);
                out.push(':');
                proof {
                    assert(decreases_to!(*v => v->Obj_0));
                    assert(v->Obj_0 == *es);
                    assert(decreases_to!(*es => es@));
                    assert(decreases_to!(es@ => es@[i as int]));
                    assert(decreases_to!(es@[i as int] => es@[i as int].1));
                    assert(decreases_to!(*v => es@[i as int].1));
                }
                write_json(&es[i].1, out);
                proof {
                    lemma_view_entry_seq_index(es@, i as int);
                    assert(vs.take(i as int + 1).drop_last() =~= vs.take(i as int));
                    assert(vs.take(i as int + 1).last() == vs[i as int]);
                    assert(vs[i as int].0 == es@[i as int].0@);
                    assert(vs[i as int].1 == view_json(es@[i as int].1));
                    assert(entry_text(vs[i as int]) == quoted(vs[i as int].0) + seq![':'] + jtext(
                        vs[i as int].1,
                    ));
                    if i == 0 {
                        assert(obj_text(vs.take(1)) == entry_text(vs[0]));
                    } else {
                        assert(obj_text(vs.take(i as int + 1)) == obj_text(vs.take(i as int))
                            + seq![','] + entry_text(vs[i as int]));
                    }
                    assert(out@ =~= old(out)@ + seq!['{'] + obj_text(vs.take(i as int + 1)));
                }
                i = i + 1;
            }
            out.push('}');
            proof {
                assert(vs.take(vs.len() as int) =~= vs);
                assert(out@ =~= old(out)@ + jtext(view_json(*v)));
            }
        },
    }
}

/// The JSON text of a value, as a string.
pub fn encode_json(v: &JsonValue) -> (r: String)
    ensures
        r@ == jtext(view_json(*v)),
{
    let mut out: Vec<char> = Vec::new();
    write_json(v, &mut out);
    proof {
        assert(out@ =~= jtext(view_json(*v)));
    }
    crate::api_resource::chars_to_string(&out)
}

} // verus!
