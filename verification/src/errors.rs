//! The typed error model of the service and its projection to HTTP.

use vstd::prelude::*;
use crate::ids::{nibble_char, nibble_to_char};

verus! {

/// One request field together with the messages of the validation rules it
/// broke. A validation report is a sequence of these, one per failing field.
#[derive(Debug)]
pub struct FieldError {
    pub field: String,
    pub messages: Vec<String>,
}

impl FieldError {
    /// Mathematical content of a field error: the field name and its
    /// messages, as sequences of characters.
    pub open spec fn model(self) -> (Seq<char>, Seq<Seq<char>>) {
        (self.field@, self.messages.deep_view())
    }
}

/// Mathematical content of a whole validation report.
pub open spec fn errors_model(fes: Seq<FieldError>) -> Seq<(Seq<char>, Seq<Seq<char>>)> {
    fes.map_values(|fe: FieldError| fe.model())
}

/// The closed set of failure kinds of the service.
#[derive(Debug)]
pub enum ApiError {
    /// The addressed order does not exist.
    NotFound,
    /// The request body or a path parameter was syntactically unacceptable;
    /// carries a description of the cause.
    BadRequest(String),
    /// The decoded request failed one or more field-level rules.
    Validation(Vec<FieldError>),
    /// Reserved for unexpected failures; never produced by the core paths.
    Internal,
}

impl ApiError {
    /// The HTTP status code the error projects to.
    pub open spec fn spec_status_code(self) -> u16 {
        match self {
            ApiError::NotFound => 404,
            ApiError::BadRequest(_) => 400,
            ApiError::Validation(_) => 400,
            ApiError::Internal => 500,
        }
    }

    pub fn status_code(&self) -> (c: u16)
        ensures
            c == self.spec_status_code(),
    {
        match self {
            ApiError::NotFound => 404,
            ApiError::BadRequest(_) => 400,
            ApiError::Validation(_) => 400,
            ApiError::Internal => 500,
        }
    }

    /// The `message` field of the JSON error body the error projects to.
    pub open spec fn spec_message(self) -> Seq<char> {
        match self {
            ApiError::NotFound => "Order not found"@,
            ApiError::BadRequest(cause) => "Invalid input: "@ + cause@,
            ApiError::Validation(_) => "Validation failed"@,
            ApiError::Internal => "Internal server error"@,
        }
    }

    pub fn message(&self) -> (m: String)
        ensures
            m@ == self.spec_message(),
    {
        match self {
            ApiError::NotFound => String::from_str("Order not found"),
            ApiError::BadRequest(cause) => String::from_str("Invalid input: ").concat(
                cause.as_str(),
            ),
            ApiError::Validation(_) => String::from_str("Validation failed"),
            ApiError::Internal => String::from_str("Internal server error"),
        }
    }
}

/// The escape of one character inside a JSON string: quote and backslash
/// get a backslash, the named control characters their short escape, any
/// other control character a lowercase `\u00` escape, and everything else
/// stands as itself.
pub open spec fn json_escape_char(c: char) -> Seq<char> {
    if c == '"' {
        seq!['\\', '"']
    } else if c == '\\' {
        seq!['\\', '\\']
    } else if c == '\u{8}' {
        seq!['\\', 'b']
    } else if c == '\t' {
        seq!['\\', 't']
    } else if c == '\n' {
        seq!['\\', 'n']
    } else if c == '\u{c}' {
        seq!['\\', 'f']
    } else if c == '\r' {
        seq!['\\', 'r']
    } else if (c as u32) < 0x20 {
        seq![
            '\\',
            'u',
            '0',
            '0',
            nibble_char(((c as u32) / 16) as u128),
            nibble_char(((c as u32) % 16) as u128),
        ]
    } else {
        seq![c]
    }
}

/// The escape of a whole string.
pub open spec fn json_escape(s: Seq<char>) -> Seq<char>
    decreases s.len(),
{
    if s.len() == 0 {
        Seq::empty()
    } else {
        json_escape(s.drop_last()) + json_escape_char(s.last())
    }
}

/// Appends the JSON escape of `s` to `r`.
fn append_escaped(r: &mut String, s: &str)
    ensures
        final(r)@ == old(r)@ + json_escape(s@),
{
    let n = s.unicode_len();
    let mut i: usize = 0;
    while i < n
        invariant
            n == s@.len(),
            i <= n,
            r@ == old(r)@ + json_escape(s@.take(i as int)),
        decreases n - i,
    {
        let c = s.get_char(i);
        if c == '"' {
            r.push('\\');
            r.push('"');
        } else if c == '\\' {
            r.push('\\');
            r.push('\\');
        } else if c == '\u{8}' {
            r.push('\\');
            r.push('b');
        } else if c == '\t' {
            r.push('\\');
            r.push('t');
        } else if c == '\n' {
            r.push('\\');
            r.push('n');
        } else if c == '\u{c}' {
            r.push('\\');
            r.push('f');
        } else if c == '\r' {
            r.push('\\');
            r.push('r');
        } else if (c as u32) < 0x20 {
            r.push('\\');
            r.push('u');
            r.push('0');
            r.push('0');
            let v = c as u32;
            r.push(nibble_to_char((v / 16) as u128));
            r.push(nibble_to_char((v % 16) as u128));
        } else {
            r.push(c);
        }
        proof {
            assert(s@.take(i + 1).drop_last() =~= s@.take(i as int));
            assert(s@.take(i + 1).last() == s@[i as int]);
            assert(r@ =~= old(r)@ + json_escape(s@.take(i + 1)));
        }
        i += 1;
    }
    proof {
        assert(s@.take(n as int) =~= s@);
    }
}

/// The JSON array contents for a list of messages: each message escaped
/// and quoted, separated by commas.
pub open spec fn spec_messages_json(ms: Seq<String>) -> Seq<char>
    decreases ms.len(),
{
    if ms.len() == 0 {
        Seq::empty()
    } else if ms.len() == 1 {
        "\""@ + json_escape(ms[0]@) + "\""@
    } else {
        spec_messages_json(ms.drop_last()) + ","@ + "\""@ + json_escape(ms.last()@) + "\""@
    }
}

/// The JSON object member for one field error: the quoted escaped field
/// name, a colon, and the array of its messages.
pub open spec fn spec_field_entry_json(fe: FieldError) -> Seq<char> {
    "\""@ + json_escape(fe.field@) + "\":["@ + spec_messages_json(fe.messages@) + "]"@
}

/// The JSON object contents for a validation report: one member per
/// field, separated by commas.
pub open spec fn spec_details_json(fes: Seq<FieldError>) -> Seq<char>
    decreases fes.len(),
{
    if fes.len() == 0 {
        Seq::empty()
    } else if fes.len() == 1 {
        spec_field_entry_json(fes[0])
    } else {
        spec_details_json(fes.drop_last()) + ","@ + spec_field_entry_json(fes.last())
    }
}

fn append_messages(r: &mut String, ms: &Vec<String>)
    ensures
        final(r)@ == old(r)@ + spec_messages_json(ms@),
{
    let n = ms.len();
    let mut j: usize = 0;
    while j < n
        invariant
            n == ms@.len(),
            j <= n,
            r@ == old(r)@ + spec_messages_json(ms@.take(j as int)),
        decreases n - j,
    {
        if j > 0 {
            r.append(",");
        }
        r.append("\"");
        append_escaped(r, ms[j].as_str());
        r.append("\"");
        proof {
            assert(ms@.take(j + 1).drop_last() =~= ms@.take(j as int));
            assert(ms@.take(j + 1).last() == ms@[j as int]);
            assert(r@ =~= old(r)@ + spec_messages_json(ms@.take(j + 1)));
        }
        j += 1;
    }
    proof {
        assert(ms@.take(n as int) =~= ms@);
    }
}

fn append_details(r: &mut String, fes: &Vec<FieldError>)
    ensures
        final(r)@ == old(r)@ + spec_details_json(fes@),
{
    let n = fes.len();
    let mut j: usize = 0;
    while j < n
        invariant
            n == fes@.len(),
            j <= n,
            r@ == old(r)@ + spec_details_json(fes@.take(j as int)),
        decreases n - j,
    {
        if j > 0 {
            r.append(",");
        }
        r.append("\"");
        append_escaped(r, fes[j].field.as_str());
        r.append("\":[");
        append_messages(r, &fes[j].messages);
        r.append("]");
        proof {
            assert(fes@.take(j + 1).drop_last() =~= fes@.take(j as int));
            assert(fes@.take(j + 1).last() == fes@[j as int]);
            assert(r@ =~= old(r)@ + spec_details_json(fes@.take(j + 1)));
        }
        j += 1;
    }
    proof {
        assert(fes@.take(n as int) =~= fes@);
    }
}

impl ApiError {
    /// The exact JSON body the error projects to: a `message` field and a
    /// `details` field that is `null` except for a validation failure,
    /// where it maps each failing field to the array of its messages.
    pub open spec fn spec_body_json(self) -> Seq<char> {
        match self {
            ApiError::NotFound => "{\"message\":\"Order not found\",\"details\":null}"@,
            ApiError::BadRequest(cause) => "{\"message\":\"Invalid input: "@ + json_escape(cause@)
                + "\",\"details\":null}"@,
            ApiError::Validation(fes) => "{\"message\":\"Validation failed\",\"details\":{"@
                + spec_details_json(fes@) + "}}"@,
            ApiError::Internal => "{\"message\":\"Internal server error\",\"details\":null}"@,
        }
    }

    /// Renders the error's JSON body.
    pub fn body_json(&self) -> (r: String)
        ensures
            r@ == self.spec_body_json(),
    {
        match self {
            ApiError::NotFound => String::from_str(
                "{\"message\":\"Order not found\",\"details\":null}",
            ),
            ApiError::BadRequest(cause) => {
                let mut r = String::from_str("{\"message\":\"Invalid input: ");
                append_escaped(&mut r, cause.as_str());
                r.append("\",\"details\":null}");
                proof {
                    assert(r@ =~= self.spec_body_json());
                }
                r
            },
            ApiError::Validation(fes) => {
                let mut r = String::from_str("{\"message\":\"Validation failed\",\"details\":{");
                append_details(&mut r, fes);
                r.append("}}");
                proof {
                    assert(r@ =~= self.spec_body_json());
                }
                r
            },
            ApiError::Internal => String::from_str(
                "{\"message\":\"Internal server error\",\"details\":null}",
            ),
        }
    }
}

} // verus!
