//! A minimal JSON document tree: the wire-level value space that the
//! request decoder reads and the response encoder emits.

use vstd::prelude::*;

verus! {

broadcast use vstd::std_specs::vec::axiom_vec_index_decreases, vstd::seq::axiom_seq_index_decreases;

/// An executable JSON value. Numbers are restricted to unsigned integers:
/// the schema handled here carries only unsigned integer numbers, and any
/// other number on the wire reads as `OtherNum`, a number outside the
/// model, which every field of the schema rejects as mistyped.
pub enum Json {
    Null,
    Bool(bool),
    Num(u64),
    OtherNum,
    Str(String),
    Arr(Vec<Json>),
    Obj(Vec<(String, Json)>),
}

/// The mathematical image of a JSON value.
pub enum JsonV {
    Null,
    Bool(bool),
    Num(nat),
    OtherNum,
    Str(Seq<char>),
    Arr(Seq<JsonV>),
    Obj(Seq<(Seq<char>, JsonV)>),
}

pub open spec fn json_view(j: Json) -> JsonV
    decreases j,
{
    match j {
        Json::Null => JsonV::Null,
        Json::Bool(b) => JsonV::Bool(b),
        Json::Num(n) => JsonV::Num(n as nat),
        Json::OtherNum => JsonV::OtherNum,
        Json::Str(s) => JsonV::Str(s@),
        Json::Arr(xs) => JsonV::Arr(items_view(xs@)),
        Json::Obj(es) => JsonV::Obj(entries_view(es@)),
    }
}

pub open spec fn items_view(s: Seq<Json>) -> Seq<JsonV>
    decreases s,
{
    if s.len() == 0 {
        Seq::empty()
    } else {
        items_view(s.drop_last()).push(json_view(s.last()))
    }
}

pub open spec fn entries_view(s: Seq<(String, Json)>) -> Seq<(Seq<char>, JsonV)>
    decreases s,
{
    if s.len() == 0 {
        Seq::empty()
    } else {
        entries_view(s.drop_last()).push((s.last().0@, json_view(s.last().1)))
    }
}

pub broadcast proof fn lemma_items_view(s: Seq<Json>)
    ensures
        (#[trigger] items_view(s)).len() == s.len(),
        forall|i: int| 0 <= i < s.len() ==> items_view(s)[i] == json_view(s[i]),
    decreases s.len(),
{
    if s.len() > 0 {
        lemma_items_view(s.drop_last());
        assert forall|i: int| 0 <= i < s.len() implies items_view(s)[i] == json_view(s[i]) by {
            if i < s.len() - 1 {
                assert(s.drop_last()[i] == s[i]);
            }
        }
    }
}

pub broadcast proof fn lemma_entries_view(s: Seq<(String, Json)>)
    ensures
        (#[trigger] entries_view(s)).len() == s.len(),
        forall|i: int| 0 <= i < s.len() ==> entries_view(s)[i] == (s[i].0@, json_view(s[i].1)),
    decreases s.len(),
{
    if s.len() > 0 {
        lemma_entries_view(s.drop_last());
        assert forall|i: int| 0 <= i < s.len() implies entries_view(s)[i] == (
        s[i].0@,
        json_view(s[i].1),
        ) by {
            if i < s.len() - 1 {
                assert(s.drop_last()[i] == s[i]);
            }
        }
    }
}

impl View for Json {
    type V = JsonV;

    open spec fn view(&self) -> JsonV {
        json_view(*self)
    }
}

/// First-match lookup among the entries of a JSON object body.
pub open spec fn obj_lookup(es: Seq<(Seq<char>, JsonV)>, key: Seq<char>) -> Option<JsonV>
    decreases es.len(),
{
    if es.len() == 0 {
        None
    } else if es[0].0 == key {
        Some(es[0].1)
    } else {
        obj_lookup(es.drop_first(), key)
    }
}

/// Field lookup: `None` unless `j` is an object with the key present.
pub open spec fn jlookup(j: JsonV, key: Seq<char>) -> Option<JsonV> {
    match j {
        JsonV::Obj(es) => obj_lookup(es, key),
        _ => None,
    }
}

proof fn lemma_obj_lookup_prefix(es: Seq<(Seq<char>, JsonV)>, key: Seq<char>, i: int)
    requires
        0 <= i <= es.len(),
        forall|k: int| 0 <= k < i ==> es[k].0 != key,
    ensures
        obj_lookup(es, key) == obj_lookup(es.skip(i), key),
    decreases i,
{
    if i > 0 {
        assert(es.skip(i - 1).drop_first() =~= es.skip(i));
        lemma_obj_lookup_prefix(es, key, i - 1);
        assert(es.skip(i - 1)[0] == es[i - 1]);
    } else {
        assert(es.skip(0) =~= es);
    }
}

/// The nesting depth of a JSON value: leaves have depth one, and a
/// container is one deeper than its deepest part.
pub open spec fn jdepth(j: JsonV) -> nat
    decreases j,
{
    match j {
        JsonV::Null => 1,
        JsonV::Bool(_) => 1,
        JsonV::Num(_) => 1,
        JsonV::OtherNum => 1,
        JsonV::Str(_) => 1,
        JsonV::Arr(items) => 1 + items_depth(items),
        JsonV::Obj(es) => 1 + entries_depth(es),
    }
}

pub open spec fn items_depth(s: Seq<JsonV>) -> nat
    decreases s,
{
    if s.len() == 0 {
        0
    } else {
        let rest = items_depth(s.drop_last());
        let last = jdepth(s.last());
        if rest >= last {
            rest
        } else {
            last
        }
    }
}

pub open spec fn entries_depth(s: Seq<(Seq<char>, JsonV)>) -> nat
    decreases s,
{
    if s.len() == 0 {
        0
    } else {
        let rest = entries_depth(s.drop_last());
        let last = jdepth(s.last().1);
        if rest >= last {
            rest
        } else {
            last
        }
    }
}

pub proof fn lemma_items_depth_index(s: Seq<JsonV>, i: int)
    requires
        0 <= i < s.len(),
    ensures
        jdepth(s[i]) <= items_depth(s),
    decreases s.len(),
{
    if i < s.len() - 1 {
        assert(s.drop_last()[i] == s[i]);
        lemma_items_depth_index(s.drop_last(), i);
    }
}

pub proof fn lemma_items_depth_bound(s: Seq<JsonV>, d: nat)
    requires
        forall|i: int| 0 <= i < s.len() ==> jdepth(#[trigger] s[i]) <= d,
    ensures
        items_depth(s) <= d,
    decreases s.len(),
{
    if s.len() > 0 {
        assert forall|i: int| 0 <= i < s.drop_last().len() implies jdepth(
            #[trigger] s.drop_last()[i],
        ) <= d by {
            assert(s.drop_last()[i] == s[i]);
        }
        lemma_items_depth_bound(s.drop_last(), d);
        assert(s.last() == s[s.len() - 1]);
    }
}

pub proof fn lemma_entries_depth_index(s: Seq<(Seq<char>, JsonV)>, i: int)
    requires
        0 <= i < s.len(),
    ensures
        jdepth(s[i].1) <= entries_depth(s),
    decreases s.len(),
{
    if i < s.len() - 1 {
        assert(s.drop_last()[i] == s[i]);
        lemma_entries_depth_index(s.drop_last(), i);
    }
}

pub proof fn lemma_entries_depth_bound(s: Seq<(Seq<char>, JsonV)>, d: nat)
    requires
        forall|i: int| 0 <= i < s.len() ==> jdepth((#[trigger] s[i]).1) <= d,
    ensures
        entries_depth(s) <= d,
    decreases s.len(),
{
    if s.len() > 0 {
        assert forall|i: int| 0 <= i < s.drop_last().len() implies jdepth(
            (#[trigger] s.drop_last()[i]).1,
        ) <= d by {
            assert(s.drop_last()[i] == s[i]);
        }
        lemma_entries_depth_bound(s.drop_last(), d);
        assert(s.last() == s[s.len() - 1]);
    }
}

/// One hexadecimal digit, lower case.
pub open spec fn hex_digit(n: nat) -> char {
    if n == 0 {
        '0'
    } else if n == 1 {
        '1'
    } else if n == 2 {
        '2'
    } else if n == 3 {
        '3'
    } else if n == 4 {
        '4'
    } else if n == 5 {
        '5'
    } else if n == 6 {
        '6'
    } else if n == 7 {
        '7'
    } else if n == 8 {
        '8'
    } else if n == 9 {
        '9'
    } else if n == 10 {
        'a'
    } else if n == 11 {
        'b'
    } else if n == 12 {
        'c'
    } else if n == 13 {
        'd'
    } else if n == 14 {
        'e'
    } else {
        'f'
    }
}

/// How one character is written inside a JSON string: quote and backslash
/// are escaped, the common control characters get their short escapes,
/// any other control character a `\u00..` escape, and everything else
/// stands as itself.
pub open spec fn esc_char(c: char) -> Seq<char> {
    if c == '"' {
        seq!['\\', '"']
    } else if c == '\\' {
        seq!['\\', '\\']
    } else if c == '\n' {
        seq!['\\', 'n']
    } else if c == '\r' {
        seq!['\\', 'r']
    } else if c == '\t' {
        seq!['\\', 't']
    } else if (c as nat) < 32 {
        seq!['\\', 'u', '0', '0', hex_digit((c as nat) / 16), hex_digit((c as nat) % 16)]
    } else {
        seq![c]
    }
}

pub open spec fn escaped(s: Seq<char>) -> Seq<char>
    decreases s.len(),
{
    if s.len() == 0 {
        Seq::empty()
    } else {
        escaped(s.drop_last()) + esc_char(s.last())
    }
}

/// A JSON string literal: the escaped characters between quotes.
pub open spec fn quoted(s: Seq<char>) -> Seq<char> {
    seq!['"'] + escaped(s) + seq!['"']
}

pub open spec fn dec_digit(n: nat) -> char {
    if n == 0 {
        '0'
    } else if n == 1 {
        '1'
    } else if n == 2 {
        '2'
    } else if n == 3 {
        '3'
    } else if n == 4 {
        '4'
    } else if n == 5 {
        '5'
    } else if n == 6 {
        '6'
    } else if n == 7 {
        '7'
    } else if n == 8 {
        '8'
    } else {
        '9'
    }
}

/// The decimal writing of a number, without leading zeros.
pub open spec fn dec_str(n: nat) -> Seq<char>
    decreases n,
{
    if n < 10 {
        seq![dec_digit(n)]
    } else {
        dec_str(n / 10).push(dec_digit(n % 10))
    }
}

/// The text of a JSON value: objects and arrays write their parts in
/// order, separated by commas, with nothing for an empty body. A number
/// outside the model writes as `null`; the response encoder never
/// produces one.
pub open spec fn json_text(j: JsonV) -> Seq<char>
    decreases j,
{
    match j {
        JsonV::Null => "null"@,
        JsonV::OtherNum => "null"@,
        JsonV::Bool(b) => if b {
            "true"@
        } else {
            "false"@
        },
        JsonV::Num(n) => dec_str(n),
        JsonV::Str(s) => quoted(s),
        JsonV::Arr(items) => seq!['['] + arr_text(items) + seq![']'],
        JsonV::Obj(es) => seq!['{'] + obj_text(es) + seq!['}'],
    }
}

pub open spec fn arr_text(items: Seq<JsonV>) -> Seq<char>
    decreases items,
{
    if items.len() == 0 {
        Seq::empty()
    } else if items.len() == 1 {
        json_text(items[0])
    } else {
        arr_text(items.drop_last()) + seq![','] + json_text(items.last())
    }
}

pub open spec fn obj_text(es: Seq<(Seq<char>, JsonV)>) -> Seq<char>
    decreases es,
{
    if es.len() == 0 {
        Seq::empty()
    } else if es.len() == 1 {
        quoted(es[0].0) + seq![':'] + json_text(es[0].1)
    } else {
        obj_text(es.drop_last()) + seq![','] + quoted(es.last().0) + seq![':'] + json_text(
            es.last().1,
        )
    }
}

/// A key that no entry carries is not found.
pub proof fn lemma_obj_lookup_absent(es: Seq<(Seq<char>, JsonV)>, key: Seq<char>)
    requires
        forall|i: int| 0 <= i < es.len() ==> (#[trigger] es[i]).0 != key,
    ensures
        obj_lookup(es, key) is None,
{
    lemma_obj_lookup_prefix(es, key, es.len() as int);
    assert(es.skip(es.len() as int) =~= Seq::<(Seq<char>, JsonV)>::empty());
}

/// Relies on String::push: appends one character.
#[verifier::external_body]
fn push_char(out: &mut String, c: char)
    ensures
        final(out)@ == old(out)@ + seq![c],
{
    out.push(c);
}

fn hex_digit_char(n: u32) -> (c: char)
    requires
        n < 16,
    ensures
        c == hex_digit(n as nat),
{
    if n == 0 {
        '0'
    } else if n == 1 {
        '1'
    } else if n == 2 {
        '2'
    } else if n == 3 {
        '3'
    } else if n == 4 {
        '4'
    } else if n == 5 {
        '5'
    } else if n == 6 {
        '6'
    } else if n == 7 {
        '7'
    } else if n == 8 {
        '8'
    } else if n == 9 {
        '9'
    } else if n == 10 {
        'a'
    } else if n == 11 {
        'b'
    } else if n == 12 {
        'c'
    } else if n == 13 {
        'd'
    } else if n == 14 {
        'e'
    } else {
        'f'
    }
}

fn dec_digit_char(n: u64) -> (c: char)
    requires
        n < 10,
    ensures
        c == dec_digit(n as nat),
{
    if n == 0 {
        '0'
    } else if n == 1 {
        '1'
    } else if n == 2 {
        '2'
    } else if n == 3 {
        '3'
    } else if n == 4 {
        '4'
    } else if n == 5 {
        '5'
    } else if n == 6 {
        '6'
    } else if n == 7 {
        '7'
    } else if n == 8 {
        '8'
    } else {
        '9'
    }
}

fn write_dec(n: u64, out: &mut String)
    ensures
        final(out)@ == old(out)@ + dec_str(n as nat),
    decreases n,
{
    if n < 10 {
        let c = dec_digit_char(n);
        push_char(out, c);
    } else {
        write_dec(n / 10, out);
        let c = dec_digit_char(n % 10);
        push_char(out, c);
        proof {
            assert(old(out)@ + dec_str((n / 10) as nat) + seq![dec_digit((n % 10) as nat)] =~= old(
                out,
            )@ + dec_str(n as nat));
        }
    }
}

#[verifier::loop_isolation(false)]
fn write_escaped_char(c: char, out: &mut String)
    ensures
        final(out)@ == old(out)@ + esc_char(c),
{
    if c == '"' {
        push_char(out, '\\');
        push_char(out, '"');
    } else if c == '\\' {
        push_char(out, '\\');
        push_char(out, '\\');
    } else if c == '\n' {
        push_char(out, '\\');
        push_char(out, 'n');
    } else if c == '\r' {
        push_char(out, '\\');
        push_char(out, 'r');
    } else if c == '\t' {
        push_char(out, '\\');
        push_char(out, 't');
    } else if (c as u32) < 32 {
        push_char(out, '\\');
        push_char(out, 'u');
        push_char(out, '0');
        push_char(out, '0');
        let h = hex_digit_char((c as u32) / 16);
        push_char(out, h);
        let l = hex_digit_char((c as u32) % 16);
        push_char(out, l);
    } else {
        push_char(out, c);
    }
    proof {
        assert(out@ =~= old(out)@ + esc_char(c));
    }
}

#[verifier::loop_isolation(false)]
fn write_quoted(s: &str, out: &mut String)
    ensures
        final(out)@ == old(out)@ + quoted(s@),
{
    push_char(out, '"');
    let n = s.unicode_len();
    for i in 0..n
        invariant
            out@ == old(out)@ + seq!['"'] + escaped(s@.take(i as int)),
    {
        let c = s.get_char(i);
        write_escaped_char(c, out);
        proof {
            assert(s@.take(i + 1).drop_last() =~= s@.take(i as int));
            assert(s@.take(i + 1).last() == s@[i as int]);
            assert(out@ =~= old(out)@ + seq!['"'] + escaped(s@.take(i + 1)));
        }
    }
    push_char(out, '"');
    proof {
        assert(s@.take(n as int) =~= s@);
        assert(out@ =~= old(out)@ + quoted(s@));
    }
}

impl Json {
    /// Writes this value's JSON text at the end of `out`.
    #[verifier::loop_isolation(false)]
    #[verifier::rlimit(60)]
    pub fn write_text(&self, out: &mut String)
        ensures
            final(out)@ == old(out)@ + json_text(self@),
        decreases *self,
    {
        match self {
            Json::Null => {
                out.append("null");
            },
            Json::OtherNum => {
                out.append("null");
            },
            Json::Bool(b) => {
                if *b {
                    out.append("true");
                } else {
                    out.append("false");
                }
            },
            Json::Num(n) => {
                write_dec(*n, out);
            },
            Json::Str(s) => {
                write_quoted(s.as_str(), out);
            },
            Json::Arr(xs) => {
                push_char(out, '[');
                let ghost iv = items_view(xs@);
                let n = xs.len();
                for i in 0..n
                    invariant
                        out@ == old(out)@ + seq!['['] + arr_text(iv.take(i as int)),
                {
                    if i > 0 {
                        push_char(out, ',');
                    }
                    xs[i].write_text(out);
                    proof {
                        lemma_items_view(xs@);
                        assert(iv.take(i + 1).drop_last() =~= iv.take(i as int));
                        assert(iv.take(i + 1).last() == iv[i as int]);
                        assert(out@ =~= old(out)@ + seq!['['] + arr_text(iv.take(i + 1)));
                    }
                }
                push_char(out, ']');
                proof {
                    lemma_items_view(xs@);
                    assert(iv.take(n as int) =~= iv);
                    assert(out@ =~= old(out)@ + json_text(self@));
                }
            },
            Json::Obj(es) => {
                push_char(out, '{');
                let ghost ev = entries_view(es@);
                let n = es.len();
                for i in 0..n
                    invariant
                        out@ == old(out)@ + seq!['{'] + obj_text(ev.take(i as int)),
                {
                    if i > 0 {
                        push_char(out, ',');
                    }
                    write_quoted(es[i].0.as_str(), out);
                    push_char(out, ':');
                    es[i].1.write_text(out);
                    proof {
                        lemma_entries_view(es@);
                        assert(ev.take(i + 1).drop_last() =~= ev.take(i as int));
                        assert(ev.take(i + 1).last() == ev[i as int]);
                        assert(out@ =~= old(out)@ + seq!['{'] + obj_text(ev.take(i + 1)));
                    }
                }
                push_char(out, '}');
                proof {
                    lemma_entries_view(es@);
                    assert(ev.take(n as int) =~= ev);
                    assert(out@ =~= old(out)@ + json_text(self@));
                }
            },
        }
    }

    /// This value's JSON text.
    pub fn to_text(&self) -> (s: String)
        ensures
            s@ == json_text(self@),
    {
        let mut out = String::new();
        self.write_text(&mut out);
        proof {
            assert(out@ =~= json_text(self@));
        }
        out
    }

    /// Looks a key up among this value's object entries, returning the first
    /// entry with that key; `None` when the value is not an object or the
    /// key is absent.
    pub fn get<'a>(&'a self, key: &str) -> (r: Option<&'a Json>)
        ensures
            match r {
                Some(v) => jlookup(self@, key@) == Some(v@),
                None => jlookup(self@, key@) is None,
            },
    {
        match self {
            Json::Obj(es) => {
                let ghost entries = entries_view(es@);
                proof {
                    lemma_entries_view(es@);
                }
                let n = es.len();
                for i in 0..n
                    invariant
                        n == es@.len(),
                        entries == entries_view(es@),
                        entries.len() == n,
                        self@ == JsonV::Obj(entries),
                        forall|k: int| 0 <= k < i ==> entries[k].0 != key@,
                {
                    proof {
                        lemma_entries_view(es@);
                    }
                    if crate::str_eq(es[i].0.as_str(), key) {
                        proof {
                            lemma_obj_lookup_prefix(entries, key@, i as int);
                            assert(entries.skip(i as int)[0] == entries[i as int]);
                        }
                        return Some(&es[i].1);
                    }
                }
                proof {
                    lemma_obj_lookup_prefix(entries, key@, n as int);
                    assert(entries.skip(n as int) =~= Seq::empty());
                }
                None
            },
            _ => None,
        }
    }
}

} // verus!
