use vstd::prelude::*;
use vstd::string::*;

use crate::errors::FeedError;

verus! {

/// A subscription request for new-block notifications.
#[derive(Debug)]
pub struct Request {
    pub subscribe: String,
    pub chain_id: String,
}

impl Request {
    /// Builds a request for the given subscription and chain.
    pub fn new(subscribe: &str, chain_id: &str) -> (r: Self)
        ensures
            r.subscribe@ == subscribe@,
            r.chain_id@ == chain_id@,
    {
        Self { subscribe: String::from_str(subscribe), chain_id: String::from_str(chain_id) }
    }
}

/// The lower-case hexadecimal digit for `n`, meaningful for `n < 16`.
pub open spec fn hex_digit(n: int) -> char {
    if n == 0 {
        '0'
    } else if n == 1 {
        '1'
    } else if n == 2 {
        '2'
    } else if n == 3 {
        '3'
    } else if n == 4 {
        '4'
    } else if n == 5 {
        '5'
    } else if n == 6 {
        '6'
    } else if n == 7 {
        '7'
    } else if n == 8 {
        '8'
    } else if n == 9 {
        '9'
    } else if n == 10 {
        'a'
    } else if n == 11 {
        'b'
    } else if n == 12 {
        'c'
    } else if n == 13 {
        'd'
    } else if n == 14 {
        'e'
    } else {
        'f'
    }
}

/// How one character is written inside a JSON string literal: quote and
/// backslash get a backslash escape, control characters a `\u00..` escape,
/// and everything else stands as itself.
pub open spec fn escape_char(c: char) -> Seq<char> {
    if c == '"' {
        seq!['\\', '"']
    } else if c == '\\' {
        seq!['\\', '\\']
    } else if (c as u32) < 32 {
        seq!['\\', 'u', '0', '0', hex_digit(c as u32 as int / 16), hex_digit(c as u32 as int % 16)]
    } else {
        seq![c]
    }
}

/// A string's characters written inside a JSON string literal.
pub open spec fn json_escaped(s: Seq<char>) -> Seq<char>
    decreases s.len(),
{
    if s.len() == 0 {
        Seq::empty()
    } else {
        json_escaped(s.drop_last()) + escape_char(s.last())
    }
}

/// The message text that encodes a request: one JSON object holding the
/// subscription and the chain identifier.
pub open spec fn spec_encode_request(subscribe: Seq<char>, chain_id: Seq<char>) -> Seq<char> {
    "{\"subscribe\":\""@ + json_escaped(subscribe) + "\",\"chain_id\":\""@ + json_escaped(
        chain_id,
    ) + "\"}"@
}

/// The one-character string for a hexadecimal digit.
fn hex_digit_str(n: u32) -> (r: &'static str)
    requires
        n < 16,
    ensures
        r@ == seq![hex_digit(n as int)],
{
    let r: &'static str = if n == 0 {
        "0"
    } else if n == 1 {
        "1"
    } else if n == 2 {
        "2"
    } else if n == 3 {
        "3"
    } else if n == 4 {
        "4"
    } else if n == 5 {
        "5"
    } else if n == 6 {
        "6"
    } else if n == 7 {
        "7"
    } else if n == 8 {
        "8"
    } else if n == 9 {
        "9"
    } else if n == 10 {
        "a"
    } else if n == 11 {
        "b"
    } else if n == 12 {
        "c"
    } else if n == 13 {
        "d"
    } else if n == 14 {
        "e"
    } else {
        "f"
    };
    proof {
        reveal_strlit("0");
        reveal_strlit("1");
        reveal_strlit("2");
        reveal_strlit("3");
        reveal_strlit("4");
        reveal_strlit("5");
        reveal_strlit("6");
        reveal_strlit("7");
        reveal_strlit("8");
        reveal_strlit("9");
        reveal_strlit("a");
        reveal_strlit("b");
        reveal_strlit("c");
        reveal_strlit("d");
        reveal_strlit("e");
        reveal_strlit("f");
        assert(r@ =~= seq![hex_digit(n as int)]);
    }
    r
}

/// Appends `s` to `out` in JSON string-literal form.
#[verifier::loop_isolation(false)]
fn push_escaped(out: &mut String, s: &str)
    ensures
        final(out)@ == old(out)@ + json_escaped(s@),
{
    let n = s.unicode_len();
    let mut i: usize = 0;
    proof {
        assert(s@.subrange(0, 0) =~= Seq::<char>::empty());
        assert(out@ + json_escaped(s@.subrange(0, 0)) =~= out@);
    }
    while i < n
        invariant
            i <= n,
            out@ == old(out)@ + json_escaped(s@.subrange(0, i as int)),
        decreases n - i,
    {
        let c = s.get_char(i);
        proof {
            assert(s@.subrange(0, i as int + 1).drop_last() =~= s@.subrange(0, i as int));
            assert(s@.subrange(0, i as int + 1).last() == s@[i as int]);
        }
        if c == '"' {
            out.append("\\\"");
            proof {
                reveal_strlit("\\\"");
                assert("\\\""@ =~= escape_char(c));
                assert(out@ =~= old(out)@ + json_escaped(s@.subrange(0, i as int + 1)));
            }
        } else if c == '\\' {
            out.append("\\\\");
            proof {
                reveal_strlit("\\\\");
                assert("\\\\"@ =~= escape_char(c));
                assert(out@ =~= old(out)@ + json_escaped(s@.subrange(0, i as int + 1)));
            }
        } else if (c as u32) < 32 {
            let u = c as u32;
            out.append("\\u00");
            out.append(hex_digit_str(u / 16));
            out.append(hex_digit_str(u % 16));
            proof {
                reveal_strlit("\\u00");
                assert("\\u00"@ + seq![hex_digit(u as int / 16)] + seq![
                    hex_digit(u as int % 16),
                ] =~= escape_char(c));
                assert(out@ =~= old(out)@ + json_escaped(s@.subrange(0, i as int + 1)));
            }
        } else {
            out.append(s.substring_char(i, i + 1));
            proof {
                assert(s@.subrange(i as int, i as int + 1) =~= escape_char(c));
                assert(out@ =~= old(out)@ + json_escaped(s@.subrange(0, i as int + 1)));
            }
        }
        i += 1;
    }
    proof {
        assert(s@.subrange(0, n as int) =~= s@);
    }
}

/// Writes a request as the JSON message text the observer endpoint takes.
/// Encoding never fails; the `Result` keeps the caller's shape uniform with
/// the other fallible operations.
pub fn encode_request(req: Request) -> (r: Result<String, FeedError>)
    ensures
        r matches Ok(s) && s@ == spec_encode_request(req.subscribe@, req.chain_id@),
{
    let mut out = String::from_str("{\"subscribe\":\"");
    push_escaped(&mut out, req.subscribe.as_str());
    out.append("\",\"chain_id\":\"");
    push_escaped(&mut out, req.chain_id.as_str());
    out.append("\"}");
    proof {
        assert(out@ =~= spec_encode_request(req.subscribe@, req.chain_id@));
    }
    Ok(out)
}

} // verus!
