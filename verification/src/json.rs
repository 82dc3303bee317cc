use vstd::prelude::*;

use crate::api::{hex_digit, hex_digit_char, string_push};

verus! {

/// A JSON value. Numbers are kept as their raw source text, so nothing is
/// rounded and no floating point enters the library; readers that need a
/// numeric value parse the text themselves.
#[derive(Debug)]
pub enum JsonVal {
    Null,
    Bool(bool),
    Num(String),
    Str(String),
    Arr(Vec<JsonVal>),
    Obj(Vec<(String, JsonVal)>),
}

/// Value of the first object field carrying this key, if any.
pub open spec fn spec_obj_get(fields: Seq<(String, JsonVal)>, key: Seq<char>) -> Option<JsonVal>
    decreases fields.len(),
{
    if fields.len() == 0 {
        None
    } else if fields[0].0@ == key {
        Some(fields[0].1)
    } else {
        spec_obj_get(fields.drop_first(), key)
    }
}

impl JsonVal {
    /// Field lookup: `None` on a non-object value or a missing key.
    pub open spec fn spec_get(&self, key: Seq<char>) -> Option<JsonVal> {
        match self {
            JsonVal::Obj(fields) => spec_obj_get(fields@, key),
            _ => None,
        }
    }

    /// Whether the value is an object.
    pub open spec fn spec_is_object(&self) -> bool {
        self is Obj
    }

    /// Field lookup on an object; `None` on other values or missing keys.
    #[verifier::loop_isolation(false)]
    pub fn get_field<'a>(&'a self, key: &String) -> (r: Option<&'a JsonVal>)
        ensures
            match r {
                Some(v) => self.spec_get(key@) == Some(*v),
                None => self.spec_get(key@) is None,
            },
    {
        match self {
            JsonVal::Obj(fields) => {
                let n = fields.len();
                let mut i: usize = 0;
                proof {
                    assert(fields@.subrange(0, n as int) =~= fields@);
                }
                while i < n
                    invariant
                        i <= n,
                        spec_obj_get(fields@, key@) == spec_obj_get(
                            fields@.subrange(i as int, n as int),
                            key@,
                        ),
                    decreases n - i,
                {
                    proof {
                        assert(fields@.subrange(i as int, n as int)[0] == fields@[i as int]);
                        assert(fields@.subrange(i as int, n as int).drop_first()
                            =~= fields@.subrange(i + 1 as int, n as int));
                    }
                    if fields[i].0 == *key {
                        return Some(&fields[i].1);
                    }
                    i = i + 1;
                }
                proof {
                    assert(fields@.subrange(n as int, n as int).len() == 0);
                }
                None
            },
            _ => None,
        }
    }
}

/// ASCII decimal digit.
pub open spec fn is_digit_byte(b: u8) -> bool {
    48 <= b <= 57
}

pub open spec fn all_digit_bytes(s: Seq<u8>) -> bool {
    forall|i: int| 0 <= i < s.len() ==> is_digit_byte(#[trigger] s[i])
}

/// The integer a sequence of decimal digits denotes.
pub open spec fn digits_value(s: Seq<u8>) -> int
    decreases s.len(),
{
    if s.len() == 0 {
        0
    } else {
        digits_value(s.drop_last()) * 10 + (s.last() - 48)
    }
}

/// The unsigned integer a JSON number literal denotes: defined exactly when
/// the text is one or more decimal digits whose value fits in a `u64`.
pub open spec fn spec_parse_u64(s: Seq<u8>) -> Option<u64> {
    if s.len() > 0 && all_digit_bytes(s) && digits_value(s) <= u64::MAX {
        Some(digits_value(s) as u64)
    } else {
        None
    }
}

proof fn lemma_digits_value_nonneg(s: Seq<u8>)
    requires
        all_digit_bytes(s),
    ensures
        digits_value(s) >= 0,
    decreases s.len(),
{
    if s.len() > 0 {
        assert(all_digit_bytes(s.drop_last())) by {
            assert(forall|i: int|
                0 <= i < s.drop_last().len() ==> s.drop_last()[i] == #[trigger] s[i]);
        }
        lemma_digits_value_nonneg(s.drop_last());
    }
}

proof fn lemma_digits_value_prefix_le(s: Seq<u8>, i: int)
    requires
        all_digit_bytes(s),
        0 <= i <= s.len(),
    ensures
        digits_value(s.take(i)) <= digits_value(s),
    decreases s.len(),
{
    if i == s.len() {
        assert(s.take(i) =~= s);
    } else {
        let dl = s.drop_last();
        assert(all_digit_bytes(dl)) by {
            assert(forall|j: int| 0 <= j < dl.len() ==> dl[j] == #[trigger] s[j]);
        }
        assert(s.take(i) =~= dl.take(i));
        lemma_digits_value_prefix_le(dl, i);
        lemma_digits_value_nonneg(dl);
        assert(digits_value(s) == digits_value(dl) * 10 + (s.last() - 48));
        assert(digits_value(dl) * 10 >= digits_value(dl)) by (nonlinear_arith)
            requires
                digits_value(dl) >= 0,
        ;
    }
}

/// Parse the raw text of a JSON number as a `u64`: digits only, no sign, no
/// fraction, no exponent, value within range; anything else is rejected.
#[verifier::loop_isolation(false)]
pub fn parse_json_u64(raw: &String) -> (r: Option<u64>)
    ensures
        r == spec_parse_u64(vstd::utf8::encode_utf8(raw@)),
{
    let bytes = raw.as_str().as_bytes();
    let n = bytes.len();
    if n == 0 {
        return None;
    }
    let mut acc: u64 = 0;
    let mut i: usize = 0;
    while i < n
        invariant
            i <= n,
            all_digit_bytes(bytes@.take(i as int)),
            acc == digits_value(bytes@.take(i as int)),
        decreases n - i,
    {
        let b = bytes[i];
        if b < 48 || b > 57 {
            return None;
        }
        let d = (b - 48) as u64;
        proof {
            assert(bytes@.take(i + 1).drop_last() =~= bytes@.take(i as int));
            assert(bytes@.take(i + 1).last() == bytes@[i as int]);
            assert(all_digit_bytes(bytes@.take(i + 1)));
        }
        let next = match acc.checked_mul(10) {
            Some(m) => m.checked_add(d),
            None => None,
        };
        match next {
            Some(v) => {
                acc = v;
            },
            None => {
                proof {
                    if all_digit_bytes(bytes@) {
                        lemma_digits_value_prefix_le(bytes@, i + 1);
                    }
                }
                return None;
            },
        }
        i = i + 1;
    }
    proof {
        assert(bytes@.take(n as int) =~= bytes@);
    }
    Some(acc)
}

/// The escape a character gets inside a JSON string literal: the short
/// escapes of the common control characters, `\u00..` for the remaining
/// control characters, the character itself otherwise.
pub open spec fn spec_escape_char(c: char) -> Seq<char> {
    if c == '"' {
        seq!['\\', '"']
    } else if c == '\\' {
        seq!['\\', '\\']
    } else if c == '\n' {
        seq!['\\', 'n']
    } else if c == '\r' {
        seq!['\\', 'r']
    } else if c == '\t' {
        seq!['\\', 't']
    } else if c as u32 == 8 {
        seq!['\\', 'b']
    } else if c as u32 == 12 {
        seq!['\\', 'f']
    } else if (c as u32) < 32 {
        seq!['\\', 'u', '0', '0', hex_digit_char(c as u32 as int / 16), hex_digit_char(
            c as u32 as int % 16,
        )]
    } else {
        seq![c]
    }
}

/// The body of a JSON string literal: each character escaped.
pub open spec fn spec_escape_string(s: Seq<char>) -> Seq<char>
    decreases s.len(),
{
    if s.len() == 0 {
        Seq::empty()
    } else {
        spec_escape_string(s.drop_last()) + spec_escape_char(s.last())
    }
}

/// A JSON string literal: the escaped text between quotes.
pub open spec fn spec_json_string(s: Seq<char>) -> Seq<char> {
    seq!['"'] + spec_escape_string(s) + seq!['"']
}

/// The JSON text a value serializes to.
pub open spec fn spec_json_text(v: JsonVal) -> Seq<char>
    decreases v,
{
    match v {
        JsonVal::Null => "null"@,
        JsonVal::Bool(b) => if b {
            "true"@
        } else {
            "false"@
        },
        JsonVal::Num(raw) => raw@,
        JsonVal::Str(s) => spec_json_string(s@),
        JsonVal::Arr(elems) => seq!['['] + spec_json_items(elems@) + seq![']'],
        JsonVal::Obj(fields) => seq!['{'] + spec_json_fields(fields@) + seq!['}'],
    }
}

/// The comma-separated items of a JSON array.
pub open spec fn spec_json_items(elems: Seq<JsonVal>) -> Seq<char>
    decreases elems,
{
    if elems.len() == 0 {
        Seq::empty()
    } else if elems.len() == 1 {
        spec_json_text(elems[0])
    } else {
        spec_json_text(elems[0]) + seq![','] + spec_json_items(elems.drop_first())
    }
}

/// The comma-separated `key:value` fields of a JSON object.
pub open spec fn spec_json_fields(fields: Seq<(String, JsonVal)>) -> Seq<char>
    decreases fields,
{
    if fields.len() == 0 {
        Seq::empty()
    } else if fields.len() == 1 {
        spec_json_string(fields[0].0@) + seq![':'] + spec_json_text(fields[0].1)
    } else {
        spec_json_string(fields[0].0@) + seq![':'] + spec_json_text(fields[0].1) + seq![',']
            + spec_json_fields(fields.drop_first())
    }
}

proof fn lemma_items_push(elems: Seq<JsonVal>, x: JsonVal)
    ensures
        spec_json_items(elems.push(x)) == if elems.len() == 0 {
            spec_json_text(x)
        } else {
            spec_json_items(elems) + seq![','] + spec_json_text(x)
        },
    decreases elems.len(),
{
    if elems.len() == 0 {
        assert(elems.push(x).len() == 1);
        assert(elems.push(x)[0] == x);
    } else {
        assert(elems.push(x)[0] == elems[0]);
        assert(elems.push(x).drop_first() =~= elems.drop_first().push(x));
        lemma_items_push(elems.drop_first(), x);
        if elems.len() == 1 {
            assert(spec_json_items(elems.push(x)) == spec_json_text(elems[0]) + seq![',']
                + spec_json_text(x));
        } else {
            assert((spec_json_text(elems[0]) + seq![','] + (spec_json_items(elems.drop_first())
                + seq![','] + spec_json_text(x))) =~= (spec_json_text(elems[0]) + seq![',']
                + spec_json_items(elems.drop_first())) + seq![','] + spec_json_text(x));
        }
    }
}

proof fn lemma_fields_push(fields: Seq<(String, JsonVal)>, x: (String, JsonVal))
    ensures
        spec_json_fields(fields.push(x)) == if fields.len() == 0 {
            spec_json_string(x.0@) + seq![':'] + spec_json_text(x.1)
        } else {
            spec_json_fields(fields) + seq![','] + spec_json_string(x.0@) + seq![':']
                + spec_json_text(x.1)
        },
    decreases fields.len(),
{
    if fields.len() == 0 {
        assert(fields.push(x).len() == 1);
        assert(fields.push(x)[0] == x);
    } else {
        assert(fields.push(x)[0] == fields[0]);
        assert(fields.push(x).drop_first() =~= fields.drop_first().push(x));
        lemma_fields_push(fields.drop_first(), x);
        let head = spec_json_string(fields[0].0@) + seq![':'] + spec_json_text(fields[0].1);
        if fields.len() == 1 {
            assert(spec_json_fields(fields.push(x)) == head + seq![','] + (spec_json_string(x.0@)
                + seq![':'] + spec_json_text(x.1)));
            assert(head + seq![','] + (spec_json_string(x.0@) + seq![':'] + spec_json_text(x.1))
                =~= head + seq![','] + spec_json_string(x.0@) + seq![':'] + spec_json_text(x.1));
        } else {
            let rest = spec_json_fields(fields.drop_first());
            assert(spec_json_fields(fields.push(x)) == head + seq![','] + (rest + seq![',']
                + spec_json_string(x.0@) + seq![':'] + spec_json_text(x.1)));
            assert(head + seq![','] + (rest + seq![','] + spec_json_string(x.0@) + seq![':']
                + spec_json_text(x.1)) =~= (head + seq![','] + rest) + seq![','] + spec_json_string(
                x.0@,
            ) + seq![':'] + spec_json_text(x.1));
        }
    }
}

/// Append the escape of one character.
fn write_escaped_char(c: char, out: &mut String)
    ensures
        final(out)@ == old(out)@ + spec_escape_char(c),
{
    if c == '"' {
        string_push(out, '\\');
        string_push(out, '"');
    } else if c == '\\' {
        string_push(out, '\\');
        string_push(out, '\\');
    } else if c == '\n' {
        string_push(out, '\\');
        string_push(out, 'n');
    } else if c == '\r' {
        string_push(out, '\\');
        string_push(out, 'r');
    } else if c == '\t' {
        string_push(out, '\\');
        string_push(out, 't');
    } else if c as u32 == 8 {
        string_push(out, '\\');
        string_push(out, 'b');
    } else if c as u32 == 12 {
        string_push(out, '\\');
        string_push(out, 'f');
    } else if (c as u32) < 32 {
        string_push(out, '\\');
        string_push(out, 'u');
        string_push(out, '0');
        string_push(out, '0');
        let n = c as u32;
        string_push(out, hex_digit((n / 16) as u8));
        string_push(out, hex_digit((n % 16) as u8));
    } else {
        string_push(out, c);
    }
}

/// Append a JSON string literal.
#[verifier::loop_isolation(false)]
pub fn write_json_string(s: &String, out: &mut String)
    ensures
        final(out)@ == old(out)@ + spec_json_string(s@),
{
    string_push(out, '"');
    let n = s.as_str().unicode_len();
    let mut i: usize = 0;
    while i < n
        invariant
            i <= n,
            n == s@.len(),
            out@ == old(out)@ + seq!['"'] + spec_escape_string(s@.take(i as int)),
        decreases n - i,
    {
        let c = s.as_str().get_char(i);
        write_escaped_char(c, out);
        proof {
            assert(s@.take(i + 1).drop_last() =~= s@.take(i as int));
            assert(s@.take(i + 1).last() == s@[i as int]);
            assert(out@ == old(out)@ + seq!['"'] + spec_escape_string(s@.take(i + 1)));
        }
        i = i + 1;
    }
    string_push(out, '"');
    proof {
        assert(s@.take(n as int) =~= s@);
        assert(old(out)@ + seq!['"'] + spec_escape_string(s@) + seq!['"'] =~= old(out)@
            + spec_json_string(s@));
    }
}

/// Append the JSON text of a value.
#[verifier::loop_isolation(false)]
pub fn write_json_text(v: &JsonVal, out: &mut String)
    ensures
        final(out)@ == old(out)@ + spec_json_text(*v),
    decreases *v,
{
    match v {
        JsonVal::Null => {
            out.append("null");
        },
        JsonVal::Bool(b) => {
            if *b {
                out.append("true");
            } else {
                out.append("false");
            }
        },
        JsonVal::Num(raw) => {
            out.append(raw.as_str());
        },
        JsonVal::Str(s) => {
            write_json_string(s, out);
        },
        JsonVal::Arr(elems) => {
            string_push(out, '[');
            let n = elems.len();
            let mut i: usize = 0;
            while i < n
                invariant
                    i <= n,
                    n == elems@.len(),
                    out@ == old(out)@ + seq!['['] + spec_json_items(elems@.take(i as int)),
                decreases n - i,
            {
                if i > 0 {
                    string_push(out, ',');
                }
                write_json_text(&elems[i], out);
                proof {
                    lemma_items_push(elems@.take(i as int), elems@[i as int]);
                    assert(elems@.take(i as int).push(elems@[i as int]) =~= elems@.take(i + 1));
                    if i > 0 {
                        assert(out@ == old(out)@ + seq!['['] + spec_json_items(elems@.take(i + 1)));
                    }
                }
                i = i + 1;
            }
            string_push(out, ']');
            proof {
                assert(elems@.take(n as int) =~= elems@);
            }
        },
        JsonVal::Obj(fields) => {
            string_push(out, '{');
            let n = fields.len();
            let mut i: usize = 0;
            while i < n
                invariant
                    i <= n,
                    n == fields@.len(),
                    out@ == old(out)@ + seq!['{'] + spec_json_fields(fields@.take(i as int)),
                decreases n - i,
            {
                if i > 0 {
                    string_push(out, ',');
                }
                write_json_string(&fields[i].0, out);
                string_push(out, ':');
                write_json_text(&fields[i].1, out);
                proof {
                    lemma_fields_push(fields@.take(i as int), fields@[i as int]);
                    assert(fields@.take(i as int).push(fields@[i as int]) =~= fields@.take(i + 1));
                    assert(out@ == old(out)@ + seq!['{'] + spec_json_fields(fields@.take(i + 1)));
                }
                i = i + 1;
            }
            string_push(out, '}');
            proof {
                assert(fields@.take(n as int) =~= fields@);
            }
        },
    }
}

/// The JSON text of a value as a fresh string.
pub fn json_to_string(v: &JsonVal) -> (r: String)
    ensures
        r@ == spec_json_text(*v),
{
    let mut out = String::new();
    write_json_text(v, &mut out);
    out
}

impl JsonVal {
    /// Take the value of the first field carrying this key out of an
    /// object, consuming the whole value; `None` on other values or
    /// missing keys.
    #[verifier::loop_isolation(false)]
    pub fn take_field(self, key: &String) -> (r: Option<JsonVal>)
        ensures
            r == self.spec_get(key@),
    {
        match self {
            JsonVal::Obj(mut fields) => {
                let ghost fs0 = fields@;
                let ghost g = self.spec_get(key@);
                let n = fields.len();
                let mut i: usize = 0;
                proof {
                    assert(g == spec_obj_get(fs0, key@));
                    assert(fs0.subrange(0, n as int) =~= fs0);
                }
                while i < n
                    invariant
                        i <= n,
                        n == fs0.len(),
                        fields@ == fs0,
                        g == spec_obj_get(fs0.subrange(i as int, n as int), key@),
                    decreases n - i,
                {
                    proof {
                        assert(fs0.subrange(i as int, n as int)[0] == fs0[i as int]);
                        assert(fs0.subrange(i as int, n as int).drop_first() =~= fs0.subrange(
                            i + 1 as int,
                            n as int,
                        ));
                    }
                    if fields[i].0 == *key {
                        let field = fields.remove(i);
                        proof {
                            assert(g == Some(fs0[i as int].1));
                        }
                        return Some(field.1);
                    }
                    i = i + 1;
                }
                proof {
                    assert(fs0.subrange(n as int, n as int).len() == 0);
                }
                None
            },
            _ => None,
        }
    }
}

} // verus!
