//! The library's own model of JSON wire values, with a verified renderer.

use vstd::prelude::*;
use vstd::string::StrSliceExecFns;

verus! {

broadcast use vstd::std_specs::vec::group_vec_axioms, vstd::seq::group_seq_axioms;

/// A JSON value as carried on the wire. Numbers are modelled as signed
/// integers: the subscription layer never computes with them, it only
/// carries them through.
#[derive(Debug)]
pub enum Json {
    Null,
    Bool(bool),
    Int(i64),
    Str(String),
    Arr(Vec<Json>),
    Obj(Vec<(String, Json)>),
}

/// The mathematical shape of a [`Json`] value.
#[verifier::ext_equal]
pub enum JsonModel {
    Null,
    Bool(bool),
    Int(int),
    Str(Seq<char>),
    Arr(Seq<JsonModel>),
    Obj(Seq<(Seq<char>, JsonModel)>),
}

/// The model of a [`Json`] value: the same tree over `Seq` and `int`.
pub open spec fn json_model(j: Json) -> JsonModel
    decreases j,
    via json_model_decreases
{
    match j {
        Json::Null => JsonModel::Null,
        Json::Bool(b) => JsonModel::Bool(b),
        Json::Int(n) => JsonModel::Int(n as int),
        Json::Str(s) => JsonModel::Str(s@),
        Json::Arr(items) => JsonModel::Arr(
            Seq::new(
                items@.len(),
                |i: int|
                    if 0 <= i < items@.len() {
                        json_model(items@[i])
                    } else {
                        JsonModel::Null
                    },
            ),
        ),
        Json::Obj(entries) => JsonModel::Obj(
            Seq::new(
                entries@.len(),
                |i: int|
                    if 0 <= i < entries@.len() {
                        (entries@[i].0@, json_model(entries@[i].1))
                    } else {
                        (Seq::empty(), JsonModel::Null)
                    },
            ),
        ),
    }
}

#[via_fn]
proof fn json_model_decreases(j: Json) {
    match j {
        Json::Arr(items) => {
            assert(decreases_to!(j => items));
            assert(decreases_to!(items => items@));
            assert forall|i: int| 0 <= i < items@.len() implies decreases_to!(
                items@ => items@[i],
            ) by {}
        },
        Json::Obj(entries) => {
            assert(decreases_to!(j => entries));
            assert(decreases_to!(entries => entries@));
            assert forall|i: int| 0 <= i < entries@.len() implies decreases_to!(
                entries@ => entries@[i].1,
            ) by {
                assert(decreases_to!(entries@ => entries@[i]));
            }
        },
        _ => {},
    }
}

impl View for Json {
    type V = JsonModel;

    open spec fn view(&self) -> JsonModel {
        json_model(*self)
    }
}

impl Json {
    /// A structural copy: the copy has the same model as the original.
    #[verifier::loop_isolation(false)]
    pub fn deep_copy(&self) -> (r: Json)
        ensures
            r@ == self@,
        decreases *self,
    {
        match self {
            Json::Null => Json::Null,
            Json::Bool(b) => Json::Bool(*b),
            Json::Int(n) => Json::Int(*n),
            Json::Str(s) => Json::Str(copy_string(s)),
            Json::Arr(items) => {
                let mut out: Vec<Json> = Vec::new();
                let mut i: usize = 0;
                while i < items.len()
                    invariant
                        i <= items.len(),
                        out@.len() == i as nat,
                        forall|k: int| 0 <= k < i ==> out@[k]@ == items@[k]@,
                    decreases items.len() - i,
                {
                    proof {
                        assert(decreases_to!(*self => self->Arr_0));
                        assert(self->Arr_0 == *items);
                        assert(decreases_to!(*items => items[i as int]));
                    }
                    out.push(items[i].deep_copy());
                    i = i + 1;
                }
                proof {
                    assert(json_model(Json::Arr(out))->Arr_0 =~= json_model(*self)->Arr_0);
                }
                Json::Arr(out)
            },
            Json::Obj(entries) => {
                let mut out: Vec<(String, Json)> = Vec::new();
                let mut i: usize = 0;
                while i < entries.len()
                    invariant
                        i <= entries.len(),
                        out@.len() == i as nat,
                        forall|k: int| 0 <= k < i ==> out@[k].0@ == entries@[k].0@
                            && out@[k].1@ == entries@[k].1@,
                    decreases entries.len() - i,
                {
                    proof {
                        assert(decreases_to!(*self => self->Obj_0));
                        assert(self->Obj_0 == *entries);
                        assert(decreases_to!(*entries => entries[i as int]));
                        assert(decreases_to!(entries[i as int] => entries[i as int].1));
                    }
                    let entry = &entries[i];
                    out.push((copy_string(&entry.0), entry.1.deep_copy()));
                    i = i + 1;
                }
                proof {
                    assert(json_model(Json::Obj(out))->Obj_0 =~= json_model(*self)->Obj_0);
                }
                Json::Obj(out)
            },
        }
    }
}

/// A copy of a string with the same characters.
pub fn copy_string(s: &String) -> (r: String)
    ensures
        r@ == s@,
{
    s.clone()
}

/// The decimal digit character of one digit value.
pub open spec fn digit_char(d: nat) -> char {
    if d == 0 {
        '0'
    } else if d == 1 {
        '1'
    } else if d == 2 {
        '2'
    } else if d == 3 {
        '3'
    } else if d == 4 {
        '4'
    } else if d == 5 {
        '5'
    } else if d == 6 {
        '6'
    } else if d == 7 {
        '7'
    } else if d == 8 {
        '8'
    } else {
        '9'
    }
}

/// The decimal digits of a number, most significant first.
pub open spec fn dec_text(n: nat) -> Seq<char>
    decreases n,
{
    if n < 10 {
        seq![digit_char(n)]
    } else {
        dec_text(n / 10).push(digit_char(n % 10))
    }
}

/// Appends the decimal digits of `n`.
pub(crate) fn push_dec(n: u64, out: &mut Vec<char>)
    ensures
        final(out)@ == old(out)@ + dec_text(n as nat),
    decreases n,
{
    if n < 10 {
        let c: char = match n {
            0 => '0',
            1 => '1',
            2 => '2',
            3 => '3',
            4 => '4',
            5 => '5',
            6 => '6',
            7 => '7',
            8 => '8',
            _ => '9',
        };
        out.push(c);
        proof {
            assert(out@ =~= old(out)@ + dec_text(n as nat));
        }
    } else {
        push_dec(n / 10, out);
        let d = n % 10;
        let c: char = match d {
            0 => '0',
            1 => '1',
            2 => '2',
            3 => '3',
            4 => '4',
            5 => '5',
            6 => '6',
            7 => '7',
            8 => '8',
            _ => '9',
        };
        out.push(c);
        proof {
            assert(out@ =~= old(out)@ + dec_text(n as nat));
        }
    }
}

/// Relies on `String`'s `FromIterator<char>` impl: collecting characters
/// concatenates exactly those characters, in order.
#[verifier::external_body]
pub(crate) fn chars_to_string(v: &Vec<char>) -> (r: String)
    ensures
        r@ == v@,
{
    v.iter().collect()
}

/// The decimal rendering of a number.
pub fn u64_to_string(n: u64) -> (s: String)
    ensures
        s@ == dec_text(n as nat),
{
    let mut v: Vec<char> = Vec::new();
    push_dec(n, &mut v);
    chars_to_string(&v)
}

/// The escape of one character in a JSON string: quote, backslash and the
/// common control characters are escaped; every other character stands for
/// itself.
pub open spec fn esc_char(c: char) -> Seq<char> {
    if c == '"' {
        seq!['\\', '"']
    } else if c == '\\' {
        seq!['\\', '\\']
    } else if c == '\n' {
        seq!['\\', 'n']
    } else if c == '\r' {
        seq!['\\', 'r']
    } else if c == '\t' {
        seq!['\\', 't']
    } else {
        seq![c]
    }
}

/// The escaped text of a string's characters.
pub open spec fn escaped(s: Seq<char>) -> Seq<char>
    decreases s.len(),
{
    if s.len() == 0 {
        Seq::empty()
    } else {
        esc_char(s[0]) + escaped(s.skip(1))
    }
}

/// Escaping one more character appends its escape.
proof fn lemma_escaped_push(t: Seq<char>, x: char)
    ensures
        escaped(t.push(x)) == escaped(t) + esc_char(x),
    decreases t.len(),
{
    if t.len() == 0 {
        assert(t.push(x) =~= seq![x]);
        assert(t.push(x)[0] == x);
        assert(t.push(x).skip(1) =~= Seq::<char>::empty());
        assert(escaped(t.push(x)) == esc_char(x) + escaped(t.push(x).skip(1)));
        assert(escaped(t.push(x).skip(1)) == Seq::<char>::empty());
        assert(escaped(t) == Seq::<char>::empty());
        assert(escaped(t.push(x)) =~= escaped(t) + esc_char(x));
    } else {
        assert(t.push(x).skip(1) =~= t.skip(1).push(x));
        lemma_escaped_push(t.skip(1), x);
        assert(t.push(x)[0] == t[0]);
        assert(escaped(t.push(x)) == esc_char(t[0]) + (escaped(t.skip(1)) + esc_char(x)));
        assert(esc_char(t[0]) + (escaped(t.skip(1)) + esc_char(x)) =~= (esc_char(t[0]) + escaped(
            t.skip(1),
        )) + esc_char(x));
    }
}

/// The decimal text of a signed number.
pub open spec fn int_text(v: int) -> Seq<char> {
    if v < 0 {
        seq!['-'] + dec_text((-v) as nat)
    } else {
        dec_text(v as nat)
    }
}

/// The JSON text of a value.
pub open spec fn json_text(m: JsonModel) -> Seq<char>
    decreases m,
{
    match m {
        JsonModel::Null => seq!['n', 'u', 'l', 'l'],
        JsonModel::Bool(b) => if b {
            seq!['t', 'r', 'u', 'e']
        } else {
            seq!['f', 'a', 'l', 's', 'e']
        },
        JsonModel::Int(v) => int_text(v),
        JsonModel::Str(s) => seq!['"'] + escaped(s) + seq!['"'],
        JsonModel::Arr(items) => seq!['['] + items_text(items) + seq![']'],
        JsonModel::Obj(entries) => seq!['{'] + entries_text(entries) + seq!['}'],
    }
}

/// The comma-separated JSON texts of an array's items.
pub open spec fn items_text(items: Seq<JsonModel>) -> Seq<char>
    decreases items,
{
    if items.len() == 0 {
        Seq::empty()
    } else if items.len() == 1 {
        json_text(items[0])
    } else {
        json_text(items[0]) + seq![','] + items_text(items.skip(1))
    }
}

/// The JSON text of one object entry.
pub open spec fn pair_text(key: Seq<char>, v: Seq<char>) -> Seq<char> {
    seq!['"'] + escaped(key) + seq!['"', ':'] + v
}

/// The comma-separated JSON texts of an object's entries.
pub open spec fn entries_text(entries: Seq<(Seq<char>, JsonModel)>) -> Seq<char>
    decreases entries,
    via entries_text_decreases
{
    if entries.len() == 0 {
        Seq::empty()
    } else if entries.len() == 1 {
        pair_text(entries[0].0, json_text(entries[0].1))
    } else {
        pair_text(entries[0].0, json_text(entries[0].1)) + seq![','] + entries_text(
            entries.skip(1),
        )
    }
}

#[via_fn]
proof fn entries_text_decreases(entries: Seq<(Seq<char>, JsonModel)>) {
    if entries.len() > 0 {
        assert(decreases_to!(entries => entries[0]));
        assert(decreases_to!(entries[0] => entries[0].1));
    }
}

/// Appending an item appends its text after a separating comma.
proof fn lemma_items_text_push(t: Seq<JsonModel>, x: JsonModel)
    ensures
        items_text(t.push(x)) == if t.len() == 0 {
            json_text(x)
        } else {
            items_text(t) + seq![','] + json_text(x)
        },
    decreases t.len(),
{
    if t.len() == 0 {
        assert(t.push(x) =~= seq![x]);
    } else {
        assert(t.push(x).skip(1) =~= t.skip(1).push(x));
        lemma_items_text_push(t.skip(1), x);
        assert(t.push(x)[0] == t[0]);
        if t.len() == 1 {
            assert(items_text(t.push(x)) =~= items_text(t) + seq![','] + json_text(x));
        } else {
            assert(items_text(t.push(x)) == json_text(t[0]) + seq![','] + ((items_text(t.skip(1))
                + seq![',']) + json_text(x)));
            assert(json_text(t[0]) + seq![','] + ((items_text(t.skip(1)) + seq![',']) + json_text(
                x,
            )) =~= ((json_text(t[0]) + seq![','] + items_text(t.skip(1))) + seq![',']) + json_text(
                x,
            ));
        }
    }
}

/// Appending an entry appends its text after a separating comma.
proof fn lemma_entries_text_push(t: Seq<(Seq<char>, JsonModel)>, x: (Seq<char>, JsonModel))
    ensures
        entries_text(t.push(x)) == if t.len() == 0 {
            pair_text(x.0, json_text(x.1))
        } else {
            entries_text(t) + seq![','] + pair_text(x.0, json_text(x.1))
        },
    decreases t.len(),
{
    if t.len() == 0 {
        assert(t.push(x) =~= seq![x]);
    } else {
        assert(t.push(x).skip(1) =~= t.skip(1).push(x));
        lemma_entries_text_push(t.skip(1), x);
        assert(t.push(x)[0] == t[0]);
        let p0 = pair_text(t[0].0, json_text(t[0].1));
        let px = pair_text(x.0, json_text(x.1));
        if t.len() == 1 {
            assert(entries_text(t.push(x)) =~= entries_text(t) + seq![','] + px);
        } else {
            assert(entries_text(t.push(x)) == p0 + seq![','] + ((entries_text(t.skip(1))
                + seq![',']) + px));
            assert(p0 + seq![','] + ((entries_text(t.skip(1)) + seq![',']) + px) =~= ((p0
                + seq![','] + entries_text(t.skip(1))) + seq![',']) + px);
        }
    }
}

/// Appends the escaped characters of a string.
#[verifier::loop_isolation(false)]
fn push_escaped(s: &str, out: &mut Vec<char>)
    ensures
        final(out)@ == old(out)@ + escaped(s@),
{
    let n = s.unicode_len();
    let mut i: usize = 0;
    while i < n
        invariant
            i <= n,
            out@ == old(out)@ + escaped(s@.take(i as int)),
        decreases n - i,
    {
        let c = s.get_char(i);
        if c == '"' {
            out.push('\\');
            out.push('"');
        } else if c == '\\' {
            out.push('\\');
            out.push('\\');
        } else if c == '\n' {
            out.push('\\');
            out.push('n');
        } else if c == '\r' {
            out.push('\\');
            out.push('r');
        } else if c == '\t' {
            out.push('\\');
            out.push('t');
        } else {
            out.push(c);
        }
        proof {
            assert(s@.take(i as int + 1) =~= s@.take(i as int).push(s@[i as int]));
            lemma_escaped_push(s@.take(i as int), s@[i as int]);
            assert(out@ =~= old(out)@ + escaped(s@.take(i as int + 1)));
        }
        i = i + 1;
    }
    proof {
        assert(s@.take(n as int) =~= s@);
    }
}

/// Appends the JSON text of a value.
#[verifier::loop_isolation(false)]
#[verifier::rlimit(60)]
pub fn render_json(j: &Json, out: &mut Vec<char>)
    ensures
        final(out)@ == old(out)@ + json_text(j@),
    decreases *j,
{
    match j {
        Json::Null => {
            out.push('n');
            out.push('u');
            out.push('l');
            out.push('l');
            proof {
                assert(out@ =~= old(out)@ + json_text(j@));
            }
        },
        Json::Bool(b) => {
            if *b {
                out.push('t');
                out.push('r');
                out.push('u');
                out.push('e');
            } else {
                out.push('f');
                out.push('a');
                out.push('l');
                out.push('s');
                out.push('e');
            }
            proof {
                assert(out@ =~= old(out)@ + json_text(j@));
            }
        },
        Json::Int(n) => {
            if *n < 0 {
                out.push('-');
                let m: u64 = if *n == i64::MIN {
                    9223372036854775808u64
                } else {
                    (-(*n)) as u64
                };
                push_dec(m, out);
                proof {
                    assert(out@ =~= old(out)@ + json_text(j@));
                }
            } else {
                push_dec(*n as u64, out);
                proof {
                    assert(out@ =~= old(out)@ + json_text(j@));
                }
            }
        },
        Json::Str(s) => {
            out.push('"');
            push_escaped(s.as_str(), out);
            out.push('"');
            proof {
                assert(out@ =~= old(out)@ + json_text(j@));
            }
        },
        Json::Arr(items) => {
            out.push('[');
            let ghost pre = out@;
            let ghost ms = j@->Arr_0;
            proof {
                assert(ms.len() == items@.len());
                assert(forall|k: int| 0 <= k < items@.len() ==> ms[k] == #[trigger] items@[k]@);
            }
            let mut i: usize = 0;
            while i < items.len()
                invariant
                    i <= items.len(),
                    out@ == pre + items_text(ms.take(i as int)),
                decreases items.len() - i,
            {
                if i > 0 {
                    out.push(',');
                }
                proof {
                    assert(decreases_to!(*j => j->Arr_0));
                    assert(j->Arr_0 == *items);
                    assert(decreases_to!(*items => items[i as int]));
                }
                render_json(&items[i], out);
                proof {
                    assert(ms.take(i as int + 1) =~= ms.take(i as int).push(ms[i as int]));
                    lemma_items_text_push(ms.take(i as int), ms[i as int]);
                    assert(out@ =~= pre + items_text(ms.take(i as int + 1)));
                }
                i = i + 1;
            }
            out.push(']');
            proof {
                assert(ms.take(items@.len() as int) =~= ms);
                assert(out@ =~= old(out)@ + json_text(j@));
            }
        },
        Json::Obj(entries) => {
            out.push('{');
            let ghost pre = out@;
            let ghost ms = j@->Obj_0;
            proof {
                assert(ms.len() == entries@.len());
                assert(forall|k: int|
                    0 <= k < entries@.len() ==> ms[k] == (
                        #[trigger] entries@[k].0@,
                        entries@[k].1@,
                    ));
            }
            let mut i: usize = 0;
            while i < entries.len()
                invariant
                    i <= entries.len(),
                    out@ == pre + entries_text(ms.take(i as int)),
                decreases entries.len() - i,
            {
                if i > 0 {
                    out.push(',');
                }
                let entry = &entries[i];
                out.push('"');
                push_escaped(entry.0.as_str(), out);
                out.push('"');
                out.push(':');
                proof {
                    assert(decreases_to!(*j => j->Obj_0));
                    assert(j->Obj_0 == *entries);
                    assert(decreases_to!(*entries => entries[i as int]));
                    assert(decreases_to!(entries[i as int] => entries[i as int].1));
                }
                render_json(&entry.1, out);
                proof {
                    assert(ms.take(i as int + 1) =~= ms.take(i as int).push(ms[i as int]));
                    lemma_entries_text_push(ms.take(i as int), ms[i as int]);
                    assert(out@ =~= pre + entries_text(ms.take(i as int + 1)));
                }
                i = i + 1;
            }
            out.push('}');
            proof {
                assert(ms.take(entries@.len() as int) =~= ms);
                assert(out@ =~= old(out)@ + json_text(j@));
            }
        },
    }
}

/// The JSON text of a value, as a string.
pub fn json_to_text(j: &Json) -> (s: String)
    ensures
        s@ == json_text(j@),
{
    let mut out: Vec<char> = Vec::new();
    render_json(j, &mut out);
    chars_to_string(&out)
}

} // verus!
