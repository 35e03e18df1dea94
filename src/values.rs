use vstd::prelude::*;

verus! {

broadcast use vstd::std_specs::vec::axiom_vec_index_decreases;

/// A literal written after a keyword: what `default`, `const` and the members
/// of `enum` hold.
///
/// `Ident` is a bare symbolic reference, kept by its name.
#[derive(Debug)]
pub enum JsonSchemaValues {
    Ident(String),
    Str(String),
    Number(i64),
    Bool(bool),
    Char(char),
    Array(Vec<JsonSchemaValues>),
}

pub open spec fn digit_char(d: nat) -> char {
    seq!['0', '1', '2', '3', '4', '5', '6', '7', '8', '9'][d as int]
}

/// The decimal digits of `n`, most significant first, without leading zeros.
pub open spec fn digits(n: nat) -> Seq<char>
    decreases n,
{
    if n < 10 {
        seq![digit_char(n)]
    } else {
        digits(n / 10).push(digit_char(n % 10))
    }
}

/// The decimal spelling of an integer, with a leading `-` when it is negative.
pub open spec fn decimal_text(n: int) -> Seq<char> {
    if n < 0 {
        seq!['-'] + digits((-n) as nat)
    } else {
        digits(n as nat)
    }
}

/// The text a literal is rendered as in diagnostics.
pub open spec fn value_text(v: JsonSchemaValues) -> Seq<char>
    decreases v, 0int,
{
    match v {
        JsonSchemaValues::Ident(s) => s@,
        JsonSchemaValues::Str(s) => s@,
        JsonSchemaValues::Number(n) => decimal_text(n as int),
        JsonSchemaValues::Bool(b) => if b {
            "true"@
        } else {
            "false"@
        },
        JsonSchemaValues::Char(c) => seq![c],
        JsonSchemaValues::Array(items) => seq!['['] + items_text(items, items.len() as int) + seq![
            ']',
        ],
    }
}

/// The renderings of the first `n` of `items`, joined by `", "`.
pub open spec fn items_text(items: Vec<JsonSchemaValues>, n: int) -> Seq<char>
    decreases items, n,
{
    if n <= 0 || n > items.len() {
        Seq::empty()
    } else if n == 1 {
        value_text(items@[0])
    } else {
        items_text(items, n - 1) + ", "@ + value_text(items@[n - 1])
    }
}

/// Relies on `i64`'s `Display` (through `to_string`): its decimal spelling.
#[verifier::external_body]
fn number_text(n: i64) -> (r: String)
    ensures
        r@ == decimal_text(n as int),
{
    n.to_string()
}

/// Relies on `char`'s `Display` (through `to_string`): the character alone.
#[verifier::external_body]
pub(crate) fn char_text(c: char) -> (r: String)
    ensures
        r@ == seq![c],
{
    c.to_string()
}

impl JsonSchemaValues {
    /// The string held by a `Str` literal.
    pub fn get_str(&self) -> (r: Option<&String>)
        ensures
            r.is_some() == (*self is Str),
            r.is_some() ==> *r.unwrap() == self->Str_0,
    {
        match self {
            JsonSchemaValues::Str(s) => Some(s),
            _ => None,
        }
    }

    /// Renders the literal as text: a reference by its name, a string by its
    /// contents, a number in decimal, `true`/`false`, a character by itself,
    /// and a list as its members' renderings between brackets, joined by `", "`.
    pub fn render(&self) -> (r: String)
        ensures
            r@ == value_text(*self),
        decreases *self,
    {
        match self {
            JsonSchemaValues::Ident(s) => s.clone(),
            JsonSchemaValues::Str(s) => s.clone(),
            JsonSchemaValues::Number(n) => number_text(*n),
            JsonSchemaValues::Bool(b) => {
                proof {
                    reveal_strlit("true");
                    reveal_strlit("false");
                }
                if *b {
                    String::from_str("true")
                } else {
                    String::from_str("false")
                }
            },
            JsonSchemaValues::Char(c) => char_text(*c),
            JsonSchemaValues::Array(items) => {
                proof {
                    reveal_strlit("[");
                    reveal_strlit(", ");
                    reveal_strlit("]");
                }
                let mut out = String::from_str("[");
                let mut i: usize = 0;
                while i < items.len()
                    invariant
                        0 <= i <= items.len(),
                        *self == JsonSchemaValues::Array(*items),
                        out@ == seq!['['] + items_text(*items, i as int),
                    decreases items.len() - i,
                {
                    proof {
                        assert(decreases_to!(*items => items[i as int]));
                        let ghost v = *self;
                        assert(v is Array);
                        assert(decreases_to!(v => v->Array_0));
                        assert(decreases_to!(*self => items[i as int]));
                    }
                    let t = items[i].render();
                    if i > 0 {
                        out.append(", ");
                    }
                    out.append(t.as_str());
                    i = i + 1;
                }
                out.append("]");
                out
            },
        }
    }
}

} // verus!
