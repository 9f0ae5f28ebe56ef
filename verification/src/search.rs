//! The query sent to the location search index.
//!
//! The index is asked for a fuzzy multi-field match of the user's text
//! against name and country code, filtered to places with a positive
//! population.  The query document is fixed but for the user's text, which
//! is escaped as a JSON string: quote, backslash and control characters
//! must not pass through bare.

use vstd::prelude::*;
use vstd::string::StringExecFns;

verus! {

broadcast use vstd::seq::group_seq_axioms;

/// Relies on std's `String::push`: appends exactly the one character.
#[verifier::external_body]
fn push_char(out: &mut String, c: char)
    ensures
        final(out)@ == old(out)@.push(c),
{
    out.push(c);
}

/// The one-character text of a hexadecimal digit.
pub open spec fn hex_digit_view(d: int) -> Seq<char> {
    if d < 10 {
        crate::datetime::digit_view(d)
    } else if d == 10 {
        "a"@
    } else if d == 11 {
        "b"@
    } else if d == 12 {
        "c"@
    } else if d == 13 {
        "d"@
    } else if d == 14 {
        "e"@
    } else {
        "f"@
    }
}

fn push_hex_digit(out: &mut String, d: u32)
    requires
        d < 16,
    ensures
        final(out)@ == old(out)@ + hex_digit_view(d as int),
{
    if d == 10 {
        out.append("a")
    } else if d == 11 {
        out.append("b")
    } else if d == 12 {
        out.append("c")
    } else if d == 13 {
        out.append("d")
    } else if d == 14 {
        out.append("e")
    } else if d == 15 {
        out.append("f")
    } else if d == 0 {
        out.append("0")
    } else if d == 1 {
        out.append("1")
    } else if d == 2 {
        out.append("2")
    } else if d == 3 {
        out.append("3")
    } else if d == 4 {
        out.append("4")
    } else if d == 5 {
        out.append("5")
    } else if d == 6 {
        out.append("6")
    } else if d == 7 {
        out.append("7")
    } else if d == 8 {
        out.append("8")
    } else {
        out.append("9")
    }
}

/// How one character appears inside a JSON string literal: quote and
/// backslash are escaped, control characters take the `\u00XX` form, and
/// every other character passes through.
pub open spec fn escaped_char_view(c: char) -> Seq<char> {
    if c == '"' {
        "\\\""@
    } else if c == '\\' {
        "\\\\"@
    } else if (c as int) < 32 {
        "\\u00"@ + hex_digit_view(c as int / 16) + hex_digit_view(c as int % 16)
    } else {
        seq![c]
    }
}

/// A text escaped for use inside a JSON string literal.
pub open spec fn json_escaped_view(s: Seq<char>) -> Seq<char>
    decreases s.len(),
{
    if s.len() == 0 {
        Seq::empty()
    } else {
        json_escaped_view(s.drop_last()) + escaped_char_view(s.last())
    }
}

/// Escapes a text for use inside a JSON string literal.
pub fn json_escape(s: &str) -> (r: String)
    ensures
        r@ == json_escaped_view(s@),
{
    let n = s.unicode_len();
    let mut out = String::new();
    let mut i: usize = 0;
    while i < n
        invariant
            n == s@.len(),
            i <= n,
            out@ == json_escaped_view(s@.take(i as int)),
        decreases n - i,
    {
        let c = s.get_char(i);
        if c == '"' {
            out.append("\\\"");
        } else if c == '\\' {
            out.append("\\\\");
        } else if (c as u32) < 32 {
            let u = c as u32;
            out.append("\\u00");
            push_hex_digit(&mut out, u / 16);
            push_hex_digit(&mut out, u % 16);
        } else {
            push_char(&mut out, c);
        }
        proof {
            assert(s@.take(i as int + 1).drop_last() =~= s@.take(i as int));
            assert(s@.take(i as int + 1).last() == s@[i as int]);
            assert(out@ =~= json_escaped_view(s@.take(i as int)) + escaped_char_view(s@[i as int]));
        }
        i = i + 1;
    }
    proof {
        assert(s@.take(s@.len() as int) =~= s@);
    }
    out
}

/// The search request document: a fuzzy multi-field match of the query
/// text against name and country code, filtered to a positive population.
pub open spec fn search_body_view(query: Seq<char>) -> Seq<char> {
    "{\"query\":{\"bool\":{\"must\":{\"multi_match\":{\"fields\":[\"name\",\"country_code\"],\"query\":\""@
        + json_escaped_view(query)
        + "\",\"fuzziness\":\"AUTO\"}},\"filter\":{\"range\":{\"population\":{\"gt\":0}}}}}}"@
}

/// Builds the search request document for a query text.
pub fn search_query_body(query: &str) -> (r: String)
    ensures
        r@ == search_body_view(query@),
{
    let mut out = String::new();
    out.append(
        "{\"query\":{\"bool\":{\"must\":{\"multi_match\":{\"fields\":[\"name\",\"country_code\"],\"query\":\"",
    );
    let escaped = json_escape(query);
    out.append(escaped.as_str());
    out.append(
        "\",\"fuzziness\":\"AUTO\"}},\"filter\":{\"range\":{\"population\":{\"gt\":0}}}}}}",
    );
    proof {
        assert(out@ =~= search_body_view(query@));
    }
    out
}

} // verus!
