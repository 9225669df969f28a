//! The notification-body grammar and its parser.
//!
//! A queue notification arrives as text.  Its shape — an object whose
//! fields may hold strings, numbers, booleans, nulls, arrays and nested
//! objects — is part of this library's own contract with the queue, so
//! the grammar is written out here as a family of specification
//! functions over the character sequence, and the executable parser is
//! proved to return exactly what the grammar says, for every input.
//!
//! Numbers are validated and skipped without retaining their value: no
//! field the dispatcher reads is numeric.  String escapes cover the
//! simple escapes and `\u` codes, with a paired high and low surrogate
//! yielding the combined character and a lone surrogate rejected.

use vstd::prelude::*;

verus! {

/// The mathematical form of a parsed body.
#[verifier::ext_equal]
pub enum JsonValue {
    Null,
    Bool(bool),
    Number,
    Text(Seq<char>),
    Arr(Seq<JsonValue>),
    Obj(Seq<(Seq<char>, JsonValue)>),
}

/// The parsed form a caller holds.  Strings are kept as their
/// characters; object entries keep the order in which they appeared.
pub enum JsonNode {
    Null,
    Bool(bool),
    Number,
    Text(Vec<char>),
    Arr(Vec<JsonNode>),
    Obj(Vec<(Vec<char>, JsonNode)>),
}

/// The models of a sequence of parsed nodes, in order.
pub open spec fn models_of(nodes: Seq<JsonNode>) -> Seq<JsonValue>
    decreases nodes,
{
    if nodes.len() == 0 {
        Seq::empty()
    } else {
        seq![nodes[0].model()] + models_of(nodes.subrange(1, nodes.len() as int))
    }
}

/// The models of a sequence of parsed object entries, in order.
pub open spec fn entry_models_of(entries: Seq<(Vec<char>, JsonNode)>) -> Seq<
    (Seq<char>, JsonValue),
>
    decreases entries,
{
    if entries.len() == 0 {
        Seq::empty()
    } else {
        seq![(entries[0].0@, entries[0].1.model())] + entry_models_of(
            entries.subrange(1, entries.len() as int),
        )
    }
}

impl JsonNode {
    pub open spec fn model(self) -> JsonValue
        decreases self,
    {
        match self {
            JsonNode::Null => JsonValue::Null,
            JsonNode::Bool(b) => JsonValue::Bool(b),
            JsonNode::Number => JsonValue::Number,
            JsonNode::Text(t) => JsonValue::Text(t@),
            JsonNode::Arr(v) => JsonValue::Arr(models_of(v@)),
            JsonNode::Obj(es) => JsonValue::Obj(entry_models_of(es@)),
        }
    }
}

/// The model sequence is as long as the node sequence and holds each
/// node's model at the node's place.
pub proof fn lemma_models_of_index(nodes: Seq<JsonNode>)
    ensures
        models_of(nodes).len() == nodes.len(),
        forall|i: int| 0 <= i < nodes.len() ==> models_of(nodes)[i] == nodes[i].model(),
    decreases nodes.len(),
{
    if nodes.len() > 0 {
        let rest = nodes.subrange(1, nodes.len() as int);
        lemma_models_of_index(rest);
        assert forall|i: int| 0 <= i < nodes.len() implies models_of(nodes)[i] == nodes[i].model()
        by {
            if i > 0 {
                assert(rest[i - 1] == nodes[i]);
            }
        }
    }
}

/// The entry-model sequence is as long as the entry sequence and holds
/// each entry's key view and value model at the entry's place.
pub proof fn lemma_entry_models_of_index(entries: Seq<(Vec<char>, JsonNode)>)
    ensures
        entry_models_of(entries).len() == entries.len(),
        forall|i: int| 0 <= i < entries.len() ==> entry_models_of(entries)[i] == (
            entries[i].0@,
            entries[i].1.model(),
        ),
    decreases entries.len(),
{
    if entries.len() > 0 {
        let rest = entries.subrange(1, entries.len() as int);
        lemma_entry_models_of_index(rest);
        assert forall|i: int| 0 <= i < entries.len() implies entry_models_of(entries)[i] == (
            entries[i].0@,
            entries[i].1.model(),
        ) by {
            if i > 0 {
                assert(rest[i - 1] == entries[i]);
            }
        }
    }
}

/// Prepending a node prepends its model.
pub proof fn lemma_models_of_cons(v: JsonNode, rest: Seq<JsonNode>)
    ensures
        models_of(seq![v] + rest) == seq![v.model()] + models_of(rest),
{
    let whole = seq![v] + rest;
    assert(whole.subrange(1, whole.len() as int) =~= rest);
    assert(models_of(whole) == seq![v.model()] + models_of(rest));
}

/// Prepending an object entry prepends its model.
pub proof fn lemma_entry_models_of_cons(e: (Vec<char>, JsonNode), rest: Seq<(Vec<char>, JsonNode)>)
    ensures
        entry_models_of(seq![e] + rest) == seq![(e.0@, e.1.model())] + entry_models_of(rest),
{
    let whole = seq![e] + rest;
    assert(whole.subrange(1, whole.len() as int) =~= rest);
    assert(entry_models_of(whole) == seq![(e.0@, e.1.model())] + entry_models_of(rest));
}

// ---------------------------------------------------------------------
// Character classes.
// ---------------------------------------------------------------------

pub open spec fn is_ws_char(c: char) -> bool {
    c == ' ' || c == '\n' || c == '\r' || c == '\t'
}

pub open spec fn is_digit_char(c: char) -> bool {
    ('0' as int) <= (c as int) && (c as int) <= ('9' as int)
}

pub open spec fn is_hex_char(c: char) -> bool {
    is_digit_char(c) || (('a' as int) <= (c as int) && (c as int) <= ('f' as int)) || (('A' as int)
        <= (c as int) && (c as int) <= ('F' as int))
}

/// The numeric value of a hexadecimal digit.
pub open spec fn hex_val(c: char) -> int {
    if is_digit_char(c) {
        (c as int) - ('0' as int)
    } else if ('a' as int) <= (c as int) && (c as int) <= ('f' as int) {
        (c as int) - ('a' as int) + 10
    } else {
        (c as int) - ('A' as int) + 10
    }
}

/// The character a simple escape stands for, if the letter is one.
pub open spec fn escape_val(e: char) -> Option<char> {
    if e == '"' {
        Some('"')
    } else if e == '\\' {
        Some('\\')
    } else if e == '/' {
        Some('/')
    } else if e == 'b' {
        Some('\u{8}')
    } else if e == 'f' {
        Some('\u{c}')
    } else if e == 'n' {
        Some('\n')
    } else if e == 'r' {
        Some('\r')
    } else if e == 't' {
        Some('\t')
    } else {
        None
    }
}

/// The character with the given Unicode scalar value.
pub open spec fn code_char(v: int) -> char {
    (v as u32) as char
}

/// The scalar value of four hexadecimal digits starting at `i`.
pub open spec fn hex4_val(s: Seq<char>, i: int) -> int {
    hex_val(s[i]) * 4096 + hex_val(s[i + 1]) * 256 + hex_val(s[i + 2]) * 16 + hex_val(s[i + 3])
}

// ---------------------------------------------------------------------
// The grammar, as specification functions.  Each takes the characters
// and a position and gives the parse at that position: what was read
// and the position just after it, or nothing when the text does not
// match.
// ---------------------------------------------------------------------

/// The first position at or after `i` holding no whitespace.
pub open spec fn sp_ws(s: Seq<char>, i: int) -> int
    decreases s.len() - i,
{
    if 0 <= i && i < s.len() && is_ws_char(s[i]) {
        sp_ws(s, i + 1)
    } else {
        i
    }
}

/// The end of the run of digits starting at `i`.
pub open spec fn sp_digits(s: Seq<char>, i: int) -> int
    decreases s.len() - i,
{
    if 0 <= i && i < s.len() && is_digit_char(s[i]) {
        sp_digits(s, i + 1)
    } else {
        i
    }
}

/// The end of an optionally signed integer part with no leading zero.
pub open spec fn sp_int(s: Seq<char>, i: int) -> Option<int> {
    let p = if 0 <= i && i < s.len() && s[i] == '-' {
        i + 1
    } else {
        i
    };
    if 0 <= p && p < s.len() && is_digit_char(s[p]) {
        if s[p] == '0' {
            Some(p + 1)
        } else {
            Some(sp_digits(s, p))
        }
    } else {
        None
    }
}

/// The end of an optional fraction part starting at `i`.
pub open spec fn sp_frac(s: Seq<char>, i: int) -> Option<int> {
    if 0 <= i && i < s.len() && s[i] == '.' {
        if i + 1 < s.len() && is_digit_char(s[i + 1]) {
            Some(sp_digits(s, i + 1))
        } else {
            None
        }
    } else {
        Some(i)
    }
}

/// The end of an optional exponent part starting at `i`.
pub open spec fn sp_exp(s: Seq<char>, i: int) -> Option<int> {
    if 0 <= i && i < s.len() && (s[i] == 'e' || s[i] == 'E') {
        let p = if i + 1 < s.len() && (s[i + 1] == '+' || s[i + 1] == '-') {
            i + 2
        } else {
            i + 1
        };
        if p < s.len() && is_digit_char(s[p]) {
            Some(sp_digits(s, p))
        } else {
            None
        }
    } else {
        Some(i)
    }
}

/// The end of a number token starting at `i`.
pub open spec fn sp_number(s: Seq<char>, i: int) -> Option<int> {
    match sp_int(s, i) {
        None => None,
        Some(a) => match sp_frac(s, a) {
            None => None,
            Some(b) => sp_exp(s, b),
        },
    }
}

/// The rest of a string body: `i` sits just after the opening quote or
/// after the last character read, `acc` holds the characters read so
/// far.  Yields the whole string and the position after the closing
/// quote.
pub open spec fn sp_text(s: Seq<char>, i: int, acc: Seq<char>) -> Option<(Seq<char>, int)>
    decreases s.len() - i,
{
    if i < 0 || i >= s.len() {
        None
    } else {
        let c = s[i];
        if c == '"' {
            Some((acc, i + 1))
        } else if c == '\\' {
            if i + 1 >= s.len() {
                None
            } else {
                let e = s[i + 1];
                if e == 'u' {
                    if i + 6 <= s.len() && is_hex_char(s[i + 2]) && is_hex_char(s[i + 3])
                        && is_hex_char(s[i + 4]) && is_hex_char(s[i + 5]) {
                        let v = hex4_val(s, i + 2);
                        if v < 0xD800 || v >= 0xE000 {
                            sp_text(s, i + 6, acc.push(code_char(v)))
                        } else if v < 0xDC00 {
                            if i + 12 <= s.len() && s[i + 6] == '\\' && s[i + 7] == 'u'
                                && is_hex_char(s[i + 8]) && is_hex_char(s[i + 9]) && is_hex_char(
                                s[i + 10],
                            ) && is_hex_char(s[i + 11]) {
                                let w = hex4_val(s, i + 8);
                                if 0xDC00 <= w && w < 0xE000 {
                                    sp_text(
                                        s,
                                        i + 12,
                                        acc.push(
                                            code_char(
                                                0x10000 + (v - 0xD800) * 0x400 + (w - 0xDC00),
                                            ),
                                        ),
                                    )
                                } else {
                                    None
                                }
                            } else {
                                None
                            }
                        } else {
                            None
                        }
                    } else {
                        None
                    }
                } else {
                    match escape_val(e) {
                        Some(c2) => sp_text(s, i + 2, acc.push(c2)),
                        None => None,
                    }
                }
            }
        } else if (c as u32) < 0x20 {
            None
        } else {
            sp_text(s, i + 1, acc.push(c))
        }
    }
}

/// A value starting exactly at `i`.  The fuel bounds the nesting the
/// grammar admits; the document entry point supplies more than any
/// input of that length can use.
pub open spec fn sp_value(s: Seq<char>, i: int, fuel: nat) -> Option<(JsonValue, int)>
    decreases fuel,
{
    if fuel == 0 {
        None
    } else if i < 0 || i >= s.len() {
        None
    } else {
        let c = s[i];
        if c == 'n' {
            if i + 4 <= s.len() && s[i + 1] == 'u' && s[i + 2] == 'l' && s[i + 3] == 'l' {
                Some((JsonValue::Null, i + 4))
            } else {
                None
            }
        } else if c == 't' {
            if i + 4 <= s.len() && s[i + 1] == 'r' && s[i + 2] == 'u' && s[i + 3] == 'e' {
                Some((JsonValue::Bool(true), i + 4))
            } else {
                None
            }
        } else if c == 'f' {
            if i + 5 <= s.len() && s[i + 1] == 'a' && s[i + 2] == 'l' && s[i + 3] == 's' && s[i + 4]
                == 'e' {
                Some((JsonValue::Bool(false), i + 5))
            } else {
                None
            }
        } else if c == '"' {
            match sp_text(s, i + 1, Seq::empty()) {
                Some((t, j)) => Some((JsonValue::Text(t), j)),
                None => None,
            }
        } else if c == '[' {
            let j = sp_ws(s, i + 1);
            if j < s.len() && s[j] == ']' {
                Some((JsonValue::Arr(Seq::empty()), j + 1))
            } else {
                match sp_items(s, j, (fuel - 1) as nat) {
                    Some((vs, m)) => Some((JsonValue::Arr(vs), m)),
                    None => None,
                }
            }
        } else if c == '{' {
            let j = sp_ws(s, i + 1);
            if j < s.len() && s[j] == '}' {
                Some((JsonValue::Obj(Seq::empty()), j + 1))
            } else {
                match sp_members(s, j, (fuel - 1) as nat) {
                    Some((es, m)) => Some((JsonValue::Obj(es), m)),
                    None => None,
                }
            }
        } else if c == '-' || is_digit_char(c) {
            match sp_number(s, i) {
                Some(j) => Some((JsonValue::Number, j)),
                None => None,
            }
        } else {
            None
        }
    }
}

/// One or more comma-separated array elements starting at `i`, up to
/// and including the closing bracket.
pub open spec fn sp_items(s: Seq<char>, i: int, fuel: nat) -> Option<(Seq<JsonValue>, int)>
    decreases fuel,
{
    if fuel == 0 {
        None
    } else {
        match sp_value(s, i, (fuel - 1) as nat) {
            None => None,
            Some((v, j)) => {
                let k = sp_ws(s, j);
                if k >= s.len() {
                    None
                } else if s[k] == ',' {
                    match sp_items(s, sp_ws(s, k + 1), (fuel - 1) as nat) {
                        None => None,
                        Some((vs, m)) => Some((seq![v] + vs, m)),
                    }
                } else if s[k] == ']' {
                    Some((seq![v], k + 1))
                } else {
                    None
                }
            },
        }
    }
}

/// One or more comma-separated object members starting at `i`, up to
/// and including the closing brace.
pub open spec fn sp_members(s: Seq<char>, i: int, fuel: nat) -> Option<
    (Seq<(Seq<char>, JsonValue)>, int),
>
    decreases fuel,
{
    if fuel == 0 {
        None
    } else if i < 0 || i >= s.len() || s[i] != '"' {
        None
    } else {
        match sp_text(s, i + 1, Seq::empty()) {
            None => None,
            Some((k, j)) => {
                let p = sp_ws(s, j);
                if p >= s.len() || s[p] != ':' {
                    None
                } else {
                    match sp_value(s, sp_ws(s, p + 1), (fuel - 1) as nat) {
                        None => None,
                        Some((v, q)) => {
                            let r = sp_ws(s, q);
                            if r >= s.len() {
                                None
                            } else if s[r] == ',' {
                                match sp_members(s, sp_ws(s, r + 1), (fuel - 1) as nat) {
                                    None => None,
                                    Some((es, m)) => Some((seq![(k, v)] + es, m)),
                                }
                            } else if s[r] == '}' {
                                Some((seq![(k, v)], r + 1))
                            } else {
                                None
                            }
                        },
                    }
                }
            },
        }
    }
}

/// Fuel that no input of this length can exhaust: the parser spends at
/// most two units for each character it consumes before recursing.
pub open spec fn doc_fuel(s: Seq<char>) -> nat {
    (2 * s.len() + 4) as nat
}

/// A whole document: one value, surrounded by whitespace only.
pub open spec fn json_doc(s: Seq<char>) -> Option<JsonValue> {
    match sp_value(s, sp_ws(s, 0), doc_fuel(s)) {
        Some((v, j)) => if sp_ws(s, j) == s.len() {
            Some(v)
        } else {
            None
        },
        None => None,
    }
}

// ---------------------------------------------------------------------
// The executable parser, proved to return exactly what the grammar
// functions above say.
// ---------------------------------------------------------------------

fn is_ws_at(c: char) -> (b: bool)
    ensures
        b == is_ws_char(c),
{
    c == ' ' || c == '\n' || c == '\r' || c == '\t'
}

fn is_digit_at(c: char) -> (b: bool)
    ensures
        b == is_digit_char(c),
{
    let v = c as u32;
    48 <= v && v <= 57
}

fn is_hex_at(c: char) -> (b: bool)
    ensures
        b == is_hex_char(c),
{
    let v = c as u32;
    (48 <= v && v <= 57) || (97 <= v && v <= 102) || (65 <= v && v <= 70)
}

fn hex_val_at(c: char) -> (r: u32)
    requires
        is_hex_char(c),
    ensures
        r == hex_val(c),
        r < 16,
{
    let v = c as u32;
    if 48 <= v && v <= 57 {
        v - 48
    } else if 97 <= v && v <= 102 {
        v - 97 + 10
    } else {
        v - 65 + 10
    }
}

/// Relies on `char::from_u32` of std: for a value below the surrogate
/// range, or from `0xE000` through `0x10FFFF`, it returns the character
/// with that scalar value.
#[verifier::external_body]
fn char_from_code(v: u32) -> (c: char)
    requires
        v < 0xD800 || (0xE000 <= v && v <= 0x10FFFF),
    ensures
        c == code_char(v as int),
{
    match char::from_u32(v) {
        Some(c) => c,
        None => ' ',
    }
}

fn ws_to(s: &Vec<char>, i: usize) -> (r: usize)
    requires
        i <= s@.len(),
    ensures
        r == sp_ws(s@, i as int),
        i <= r <= s@.len(),
{
    let mut k = i;
    while k < s.len() && is_ws_at(s[k])
        invariant
            i <= k <= s@.len(),
            sp_ws(s@, i as int) == sp_ws(s@, k as int),
        decreases s@.len() - k,
    {
        k = k + 1;
    }
    k
}

fn digits_to(s: &Vec<char>, i: usize) -> (r: usize)
    requires
        i <= s@.len(),
    ensures
        r == sp_digits(s@, i as int),
        i <= r <= s@.len(),
{
    let mut k = i;
    while k < s.len() && is_digit_at(s[k])
        invariant
            i <= k <= s@.len(),
            sp_digits(s@, i as int) == sp_digits(s@, k as int),
        decreases s@.len() - k,
    {
        k = k + 1;
    }
    k
}

fn int_to(s: &Vec<char>, i: usize) -> (r: Option<usize>)
    requires
        i <= s@.len(),
    ensures
        match r {
            Some(j) => sp_int(s@, i as int) == Some(j as int) && j <= s@.len(),
            None => sp_int(s@, i as int) is None,
        },
{
    let p = if i < s.len() && s[i] == '-' {
        i + 1
    } else {
        i
    };
    if p < s.len() && is_digit_at(s[p]) {
        if s[p] == '0' {
            Some(p + 1)
        } else {
            Some(digits_to(s, p))
        }
    } else {
        None
    }
}

fn frac_to(s: &Vec<char>, i: usize) -> (r: Option<usize>)
    requires
        i <= s@.len(),
    ensures
        match r {
            Some(j) => sp_frac(s@, i as int) == Some(j as int) && j <= s@.len(),
            None => sp_frac(s@, i as int) is None,
        },
{
    if i < s.len() && s[i] == '.' {
        if i + 1 < s.len() && is_digit_at(s[i + 1]) {
            Some(digits_to(s, i + 1))
        } else {
            None
        }
    } else {
        Some(i)
    }
}

fn exp_to(s: &Vec<char>, i: usize) -> (r: Option<usize>)
    requires
        i <= s@.len(),
    ensures
        match r {
            Some(j) => sp_exp(s@, i as int) == Some(j as int) && j <= s@.len(),
            None => sp_exp(s@, i as int) is None,
        },
{
    if i < s.len() && (s[i] == 'e' || s[i] == 'E') {
        let p = if i + 1 < s.len() && (s[i + 1] == '+' || s[i + 1] == '-') {
            i + 2
        } else {
            i + 1
        };
        if p < s.len() && is_digit_at(s[p]) {
            Some(digits_to(s, p))
        } else {
            None
        }
    } else {
        Some(i)
    }
}

fn number_to(s: &Vec<char>, i: usize) -> (r: Option<usize>)
    requires
        i <= s@.len(),
    ensures
        match r {
            Some(j) => sp_number(s@, i as int) == Some(j as int) && j <= s@.len(),
            None => sp_number(s@, i as int) is None,
        },
{
    match int_to(s, i) {
        None => None,
        Some(a) => match frac_to(s, a) {
            None => None,
            Some(b) => exp_to(s, b),
        },
    }
}

fn escape_at(e: char) -> (r: Option<char>)
    ensures
        r == escape_val(e),
{
    if e == '"' {
        Some('"')
    } else if e == '\\' {
        Some('\\')
    } else if e == '/' {
        Some('/')
    } else if e == 'b' {
        Some('\u{8}')
    } else if e == 'f' {
        Some('\u{c}')
    } else if e == 'n' {
        Some('\n')
    } else if e == 'r' {
        Some('\r')
    } else if e == 't' {
        Some('\t')
    } else {
        None
    }
}

fn scan_text(s: &Vec<char>, i: usize, acc: Vec<char>) -> (r: Option<(Vec<char>, usize)>)
    requires
        i <= s@.len(),
    ensures
        ({
            let sp = sp_text(s@, i as int, acc@);
            match r {
                Some(p) => sp == Some((p.0@, p.1 as int)) && p.1 <= s@.len(),
                None => sp is None,
            }
        }),
    decreases s@.len() - i,
{
    let mut acc = acc;
    let ghost acc0: Seq<char> = acc@;
    if i >= s.len() {
        return None;
    }
    let c = s[i];
    if c == '"' {
        proof {
            assert(sp_text(s@, i as int, acc0) == Some((acc0, i as int + 1)));
        }
        Some((acc, i + 1))
    } else if c == '\\' {
        if i + 1 >= s.len() {
            return None;
        }
        let e = s[i + 1];
        if e == 'u' {
            if s.len() - i >= 6 && is_hex_at(s[i + 2]) && is_hex_at(s[i + 3]) && is_hex_at(
                s[i + 4],
            ) && is_hex_at(s[i + 5]) {
                let v: u32 = hex_val_at(s[i + 2]) * 4096 + hex_val_at(s[i + 3]) * 256 + hex_val_at(
                    s[i + 4],
                ) * 16 + hex_val_at(s[i + 5]);
                proof {
                    assert(v == hex4_val(s@, i + 2));
                }
                if v < 0xD800 || v >= 0xE000 {
                    acc.push(char_from_code(v));
                    proof {
                        assert(acc@ == acc0.push(code_char(hex4_val(s@, i + 2))));
                        assert(sp_text(s@, i as int, acc0) == sp_text(s@, i + 6, acc@));
                    }
                    scan_text(s, i + 6, acc)
                } else if v < 0xDC00 {
                    if s.len() - i >= 12 && s[i + 6] == '\\' && s[i + 7] == 'u' && is_hex_at(
                        s[i + 8],
                    ) && is_hex_at(s[i + 9]) && is_hex_at(s[i + 10]) && is_hex_at(s[i + 11]) {
                        let w: u32 = hex_val_at(s[i + 8]) * 4096 + hex_val_at(s[i + 9]) * 256
                            + hex_val_at(s[i + 10]) * 16 + hex_val_at(s[i + 11]);
                        proof {
                            assert(w == hex4_val(s@, i + 8));
                        }
                        if 0xDC00 <= w && w < 0xE000 {
                            let combined: u32 = 0x10000 + (v - 0xD800) * 0x400 + (w - 0xDC00);
                            acc.push(char_from_code(combined));
                            proof {
                                assert(combined as int == 0x10000 + (hex4_val(s@, i + 2) - 0xD800)
                                    * 0x400 + (hex4_val(s@, i + 8) - 0xDC00));
                                assert(acc@ == acc0.push(
                                    code_char(
                                        0x10000 + (hex4_val(s@, i + 2) - 0xD800) * 0x400 + (
                                        hex4_val(s@, i + 8) - 0xDC00),
                                    ),
                                ));
                                assert(sp_text(s@, i as int, acc0) == sp_text(s@, i + 12, acc@));
                            }
                            scan_text(s, i + 12, acc)
                        } else {
                            None
                        }
                    } else {
                        None
                    }
                } else {
                    None
                }
            } else {
                None
            }
        } else {
            match escape_at(e) {
                Some(c2) => {
                    acc.push(c2);
                    proof {
                        assert(sp_text(s@, i as int, acc0) == sp_text(s@, i + 2, acc@));
                    }
                    scan_text(s, i + 2, acc)
                },
                None => None,
            }
        }
    } else if (c as u32) < 0x20 {
        None
    } else {
        acc.push(c);
        proof {
            assert(sp_text(s@, i as int, acc0) == sp_text(s@, i + 1, acc@));
        }
        scan_text(s, i + 1, acc)
    }
}

fn parse_value_at(s: &Vec<char>, i: usize, fuel: u128) -> (r: Option<(JsonNode, usize)>)
    requires
        i <= s@.len(),
    ensures
        ({
            let sp = sp_value(s@, i as int, fuel as nat);
            match r {
                Some(p) => sp == Some((p.0.model(), p.1 as int)) && p.1 <= s@.len(),
                None => sp is None,
            }
        }),
    decreases fuel,
{
    if fuel == 0 {
        return None;
    }
    if i >= s.len() {
        return None;
    }
    let c = s[i];
    if c == 'n' {
        if s.len() - i >= 4 && s[i + 1] == 'u' && s[i + 2] == 'l' && s[i + 3] == 'l' {
            Some((JsonNode::Null, i + 4))
        } else {
            None
        }
    } else if c == 't' {
        if s.len() - i >= 4 && s[i + 1] == 'r' && s[i + 2] == 'u' && s[i + 3] == 'e' {
            Some((JsonNode::Bool(true), i + 4))
        } else {
            None
        }
    } else if c == 'f' {
        if s.len() - i >= 5 && s[i + 1] == 'a' && s[i + 2] == 'l' && s[i + 3] == 's' && s[i + 4]
            == 'e' {
            Some((JsonNode::Bool(false), i + 5))
        } else {
            None
        }
    } else if c == '"' {
        match scan_text(s, i + 1, Vec::new()) {
            Some(p) => Some((JsonNode::Text(p.0), p.1)),
            None => None,
        }
    } else if c == '[' {
        let j = ws_to(s, i + 1);
        if j < s.len() && s[j] == ']' {
            let empty_arr: Vec<JsonNode> = Vec::new();
            proof {
                assert(models_of(empty_arr@) =~= Seq::<JsonValue>::empty());
            }
            Some((JsonNode::Arr(empty_arr), j + 1))
        } else {
            match parse_items_at(s, j, fuel - 1) {
                Some(p) => Some((JsonNode::Arr(p.0), p.1)),
                None => None,
            }
        }
    } else if c == '{' {
        let j = ws_to(s, i + 1);
        if j < s.len() && s[j] == '}' {
            let empty_obj: Vec<(Vec<char>, JsonNode)> = Vec::new();
            proof {
                assert(entry_models_of(empty_obj@) =~= Seq::<(Seq<char>, JsonValue)>::empty());
            }
            Some((JsonNode::Obj(empty_obj), j + 1))
        } else {
            match parse_members_at(s, j, fuel - 1) {
                Some(p) => Some((JsonNode::Obj(p.0), p.1)),
                None => None,
            }
        }
    } else if c == '-' || is_digit_at(c) {
        match number_to(s, i) {
            Some(j) => Some((JsonNode::Number, j)),
            None => None,
        }
    } else {
        None
    }
}

fn parse_items_at(s: &Vec<char>, i: usize, fuel: u128) -> (r: Option<(Vec<JsonNode>, usize)>)
    requires
        i <= s@.len(),
    ensures
        ({
            let sp = sp_items(s@, i as int, fuel as nat);
            match r {
                Some(p) => sp == Some((models_of(p.0@), p.1 as int)) && p.1 <= s@.len(),
                None => sp is None,
            }
        }),
    decreases fuel,
{
    if fuel == 0 {
        return None;
    }
    match parse_value_at(s, i, fuel - 1) {
        None => None,
        Some(pv) => {
            let (v, j) = pv;
            let k = ws_to(s, j);
            if k >= s.len() {
                None
            } else if s[k] == ',' {
                let after = ws_to(s, k + 1);
                match parse_items_at(s, after, fuel - 1) {
                    None => None,
                    Some(pr) => {
                        let (mut vs, m) = pr;
                        proof {
                            lemma_models_of_cons(v, vs@);
                            assert(vs@.insert(0, v) =~= seq![v] + vs@);
                        }
                        vs.insert(0, v);
                        Some((vs, m))
                    },
                }
            } else if s[k] == ']' {
                let mut single: Vec<JsonNode> = Vec::new();
                proof {
                    lemma_models_of_cons(v, Seq::<JsonNode>::empty());
                    assert(models_of(Seq::<JsonNode>::empty()) == Seq::<JsonValue>::empty());
                }
                single.push(v);
                proof {
                    assert(single@ =~= seq![v] + Seq::<JsonNode>::empty());
                    assert(models_of(single@) =~= seq![v.model()]);
                }
                Some((single, k + 1))
            } else {
                None
            }
        },
    }
}

fn parse_members_at(s: &Vec<char>, i: usize, fuel: u128) -> (r: Option<
    (Vec<(Vec<char>, JsonNode)>, usize),
>)
    requires
        i <= s@.len(),
    ensures
        ({
            let sp = sp_members(s@, i as int, fuel as nat);
            match r {
                Some(p) => sp == Some((entry_models_of(p.0@), p.1 as int)) && p.1 <= s@.len(),
                None => sp is None,
            }
        }),
    decreases fuel,
{
    if fuel == 0 {
        return None;
    }
    if i >= s.len() {
        return None;
    }
    if s[i] != '"' {
        return None;
    }
    match scan_text(s, i + 1, Vec::new()) {
        None => None,
        Some(pk) => {
            let (key, j) = pk;
            let p = ws_to(s, j);
            if p >= s.len() {
                return None;
            }
            if s[p] != ':' {
                return None;
            }
            let vstart = ws_to(s, p + 1);
            match parse_value_at(s, vstart, fuel - 1) {
                None => None,
                Some(pv) => {
                    let (v, q) = pv;
                    let r2 = ws_to(s, q);
                    if r2 >= s.len() {
                        None
                    } else if s[r2] == ',' {
                        let after = ws_to(s, r2 + 1);
                        match parse_members_at(s, after, fuel - 1) {
                            None => None,
                            Some(pr) => {
                                let (mut es, m) = pr;
                                proof {
                                    lemma_entry_models_of_cons((key, v), es@);
                                    assert(es@.insert(0, (key, v)) =~= seq![(key, v)] + es@);
                                }
                                es.insert(0, (key, v));
                                Some((es, m))
                            },
                        }
                    } else if s[r2] == '}' {
                        let mut single: Vec<(Vec<char>, JsonNode)> = Vec::new();
                        proof {
                            lemma_entry_models_of_cons(
                                (key, v),
                                Seq::<(Vec<char>, JsonNode)>::empty(),
                            );
                            assert(entry_models_of(Seq::<(Vec<char>, JsonNode)>::empty())
                                == Seq::<(Seq<char>, JsonValue)>::empty());
                        }
                        single.push((key, v));
                        proof {
                            assert(single@ =~= seq![(key, v)] + Seq::<(Vec<char>, JsonNode)>::empty());
                        }
                        Some((single, r2 + 1))
                    } else {
                        None
                    }
                },
            }
        },
    }
}

/// Parses a whole document: exactly what [`json_doc`] says on the same
/// characters.
pub fn parse_document(s: &Vec<char>) -> (r: Option<JsonNode>)
    ensures
        ({
            let sp = json_doc(s@);
            match r {
                Some(n) => sp == Some(n.model()),
                None => sp is None,
            }
        }),
{
    let fuel: u128 = 2 * (s.len() as u128) + 4;
    proof {
        assert(fuel as nat == doc_fuel(s@));
    }
    let i = ws_to(s, 0);
    match parse_value_at(s, i, fuel) {
        None => None,
        Some(p) => {
            let (node, j) = p;
            let k = ws_to(s, j);
            if k == s.len() {
                Some(node)
            } else {
                None
            }
        },
    }
}

/// The characters of a borrowed string, in order.
pub fn chars_of_str(body: &str) -> (r: Vec<char>)
    ensures
        r@ == body@,
{
    let n = body.unicode_len();
    let mut out: Vec<char> = Vec::new();
    let mut i: usize = 0;
    while i < n
        invariant
            n == body@.len(),
            i <= n,
            out@ =~= body@.subrange(0, i as int),
        decreases n - i,
    {
        let c = body.get_char(i);
        out.push(c);
        proof {
            assert(out@ =~= body@.subrange(0, i as int + 1));
        }
        i = i + 1;
    }
    proof {
        assert(out@ =~= body@);
    }
    out
}

} // verus!
