//! The certificates in a bundle.
use vstd::prelude::*;
use vstd::utf8::{decode_utf8, valid_utf8};
use crate::encoding::{base64_bytes, base64_in, utf8_text};
use crate::text::{chars_of, find_from, first_at};

verus! {

/// What opens a certificate.
pub const BEGIN: &'static str = "-----BEGIN CERTIFICATE-----";

/// What closes a certificate.
pub const END: &'static str = "-----END CERTIFICATE-----";

/// A space, a tab, a line feed, a form feed or a carriage return.
pub open spec fn is_ascii_space(c: char) -> bool {
    c == ' ' || c == '\t' || c == '\n' || c == '\x0C' || c == '\r'
}

/// A text without its spaces.
pub open spec fn unspaced(s: Seq<char>) -> Seq<char> {
    s.filter(|c: char| !is_ascii_space(c))
}

/// The bytes of each of some certificates.
pub open spec fn contents(v: Seq<Vec<u8>>) -> Seq<Seq<u8>> {
    v.map_values(|b: Vec<u8>| b@)
}

/// A text is found where it stands: no earlier than it was looked for, and
/// whole.
pub proof fn found_is_within(s: Seq<char>, needle: Seq<char>, from: int)
    ensures
        first_at(s, needle, from) matches Some(i) ==> from <= i && i + needle.len() <= s.len(),
    decreases s.len() + 1 - from,
{
    if from <= s.len() {
        found_is_within(s, needle, from + 1);
    }
}

/// The certificates that a text holds from an index on, or why they cannot be
/// read.
pub open spec fn bundled(s: Seq<char>, from: int) -> Result<Seq<Seq<u8>>, Seq<char>>
    decreases s.len() - from,
{
    match first_at(s, BEGIN@, from) {
        None => Ok(Seq::empty()),
        Some(start) => {
            let body = start + BEGIN@.len();
            match first_at(s, END@, body) {
                None => Err("certificate has no END marker"@),
                Some(end) => {
                    proof {
                        reveal_strlit("-----BEGIN CERTIFICATE-----");
                        found_is_within(s, BEGIN@, from);
                        found_is_within(s, END@, body);
                    }
                    match base64_in(unspaced(s.subrange(body, end))) {
                        None => Err("certificate body is not valid base64"@),
                        Some(der) => match bundled(s, end + END@.len()) {
                            Err(why) => Err(why),
                            Ok(rest) => Ok(seq![der] + rest),
                        },
                    }
                },
            }
        },
    }
}

/// The characters `from..to` without the spaces among them.
fn without_spaces(chars: &Vec<char>, from: usize, to: usize) -> (r: String)
    requires
        from <= to <= chars.len(),
    ensures
        r@ == unspaced(chars@.subrange(from as int, to as int)),
{
    let mut out = String::new();
    let mut i: usize = from;
    proof {
        reveal(Seq::filter);
        assert(chars@.subrange(from as int, from as int) =~= Seq::empty());
        assert(unspaced(Seq::empty()) =~= Seq::empty());
    }
    while i < to
        invariant
            from <= i <= to <= chars.len(),
            out@ == unspaced(chars@.subrange(from as int, i as int)),
        decreases to - i,
    {
        let c = chars[i];
        proof {
            reveal(Seq::filter);
            assert(chars@.subrange(from as int, i + 1).drop_last() =~= chars@.subrange(
                from as int,
                i as int,
            ));
        }
        if !(c == ' ' || c == '\t' || c == '\n' || c == '\x0C' || c == '\r') {
            out.push(c);
        }
        i += 1;
    }
    out
}

/// The certificates in a bundle, as the bytes that each stands for.
pub fn certificates_from_pem(pem: &Vec<u8>) -> (r: Result<Vec<Vec<u8>>, String>)
    ensures
        if valid_utf8(pem@) {
            match bundled(decode_utf8(pem@), 0) {
                Ok(all) => r matches Ok(v) && contents(v@) == all,
                Err(why) => r matches Err(e) && e@ == why,
            }
        } else {
            r matches Err(e) && e@ == "CA bundle is not UTF-8 PEM text"@
        },
{
    let text = match utf8_text(pem) {
        Err(_) => {
            return Err("CA bundle is not UTF-8 PEM text".to_owned());
        },
        Ok(text) => text,
    };
    let s = chars_of(text.as_str());
    let begin = chars_of(BEGIN);
    let end = chars_of(END);
    let mut out: Vec<Vec<u8>> = Vec::new();
    let mut from: usize = 0;
    proof {
        assert(contents(out@) =~= Seq::empty());
        assert(bundled(s@, 0) matches Ok(all) ==> contents(out@) + all =~= all);
    }
    loop
        invariant
            from <= s.len(),
            begin@ == BEGIN@,
            end@ == END@,
            match bundled(s@, from as int) {
                Ok(rest) => bundled(s@, 0) == Ok::<Seq<Seq<u8>>, Seq<char>>(contents(out@) + rest),
                Err(why) => bundled(s@, 0) == Err::<Seq<Seq<u8>>, Seq<char>>(why),
            },
            s@ == decode_utf8(pem@),
            valid_utf8(pem@),
        decreases s.len() - from,
    {
        let start: usize = match find_from(&s, &begin, from) {
            None => {
                proof {
                    assert(contents(out@) + Seq::empty() =~= contents(out@));
                }
                return Ok(out);
            },
            Some(start) => start,
        };
        let body: usize = start + begin.len();
        let close: usize = match find_from(&s, &end, body) {
            None => {
                return Err("certificate has no END marker".to_owned());
            },
            Some(close) => close,
        };
        let der = match base64_bytes(without_spaces(&s, body, close).as_str()) {
            None => {
                return Err("certificate body is not valid base64".to_owned());
            },
            Some(der) => der,
        };
        let ghost before = contents(out@);
        let next: usize = close + end.len();
        out.push(der);
        proof {
            reveal_strlit("-----BEGIN CERTIFICATE-----");
            assert(contents(out@) =~= before.push(der@));
            if let Ok(rest) = bundled(s@, next as int) {
                assert(contents(out@) + rest =~= before + (seq![der@] + rest));
            }
        }
        from = next;
    }
}

} // verus!
