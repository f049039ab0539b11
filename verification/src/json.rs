//! Wire encoding of `ServiceError`: a JSON object with a `status` field
//! (the symbolic name), and `message` / `cause` fields present exactly
//! when the error carries them. The decoder accepts exactly the
//! encoder's canonical form, and decoding an encoded error yields the
//! error back.
use vstd::prelude::*;
use vstd::string::StrSliceExecFns;
use vstd::string::StringExecFns;

use crate::error::view_opt_string;
use crate::error::ErrView;
use crate::error::ServiceError;
use crate::status::Status;

verus! {

/// Relies on String::push: it appends exactly the given character.
pub assume_specification[ String::push ](s: &mut String, c: char)
    ensures
        final(s)@ == old(s)@.push(c),
;

/// The lowercase hexadecimal digit for a value below sixteen.
pub open spec fn hex_digit(n: u32) -> char {
    if n < 10 {
        (((48 + n) as u8) as char)
    } else {
        (((87 + n) as u8) as char)
    }
}

/// A lowercase hexadecimal digit.
pub open spec fn is_hex(c: char) -> bool {
    48 <= c as u32 <= 57 || 97 <= c as u32 <= 102
}

/// The value of a lowercase hexadecimal digit.
pub open spec fn hex_val(c: char) -> u32 {
    if c as u32 <= 57 {
        (c as u32 - 48) as u32
    } else {
        (c as u32 - 87) as u32
    }
}

/// How one character is written inside a JSON string: quote and
/// backslash are escaped, a control character is written as a
/// four-digit escape, everything else passes through.
pub open spec fn esc_char(c: char) -> Seq<char> {
    if c == '"' {
        seq!['\\', '"']
    } else if c == '\\' {
        seq!['\\', '\\']
    } else if (c as u32) < 32 {
        seq!['\\', 'u', '0', '0', hex_digit(c as u32 / 16), hex_digit(c as u32 % 16)]
    } else {
        seq![c]
    }
}

/// A character sequence written inside a JSON string.
pub open spec fn escape(s: Seq<char>) -> Seq<char>
    decreases s.len(),
{
    if s.len() == 0 {
        Seq::empty()
    } else {
        esc_char(s[0]) + escape(s.skip(1))
    }
}

/// Holds of text that the escaping leaves unchanged.
pub open spec fn no_special(s: Seq<char>) -> bool
    decreases s.len(),
{
    s.len() == 0 || (s[0] != '"' && s[0] != '\\' && s[0] as u32 >= 32 && no_special(s.skip(1)))
}

/// Reading an escaped string region up to its closing quote: yields the
/// unescaped text and what follows the quote, or nothing when the region
/// is not closed or holds an escape the encoder never writes.
pub open spec fn unescape(s: Seq<char>) -> Option<(Seq<char>, Seq<char>)>
    decreases s.len(),
{
    if s.len() == 0 {
        None
    } else if s[0] == '"' {
        Some((Seq::empty(), s.skip(1)))
    } else if s[0] == '\\' {
        if s.len() >= 2 && (s[1] == '"' || s[1] == '\\') {
            match unescape(s.skip(2)) {
                Some((d, r)) => Some((seq![s[1]] + d, r)),
                None => None,
            }
        } else if s.len() >= 6 && s[1] == 'u' && s[2] == '0' && s[3] == '0' && is_hex(s[4])
            && is_hex(s[5]) {
            match unescape(s.skip(6)) {
                Some((d, r)) => Some(
                    (seq![(((hex_val(s[4]) * 16 + hex_val(s[5])) as u8) as char)] + d, r),
                ),
                None => None,
            }
        } else {
            None
        }
    } else {
        match unescape(s.skip(1)) {
            Some((d, r)) => Some((seq![s[0]] + d, r)),
            None => None,
        }
    }
}

pub proof fn lemma_escape_identity(s: Seq<char>)
    requires
        no_special(s),
    ensures
        escape(s) == s,
    decreases s.len(),
{
    if s.len() == 0 {
        assert(escape(s) =~= s);
    } else {
        lemma_escape_identity(s.skip(1));
        assert(escape(s) =~= seq![s[0]] + s.skip(1));
        assert(seq![s[0]] + s.skip(1) =~= s);
    }
}

/// Unescaping reads back exactly what escaping wrote, and stops at the
/// closing quote.
pub proof fn lemma_unescape_escaped(m: Seq<char>, rest: Seq<char>)
    ensures
        unescape(escape(m) + seq!['"'] + rest) == Some((m, rest)),
    decreases m.len(),
{
    let s = escape(m) + seq!['"'] + rest;
    if m.len() == 0 {
        assert(escape(m) =~= Seq::<char>::empty());
        assert(s =~= seq!['"'] + rest);
        assert(s[0] == '"');
        assert(s.skip(1) =~= rest);
    } else {
        let c = m[0];
        let m1 = m.skip(1);
        lemma_unescape_escaped(m1, rest);
        let s1 = escape(m1) + seq!['"'] + rest;
        if c == '"' || c == '\\' {
            assert(escape(m) =~= seq!['\\', c] + escape(m1));
            assert(s =~= seq!['\\', c] + s1);
            assert(s[0] == '\\' && s[1] == c);
            assert(s.skip(2) =~= s1);
            assert(seq![c] + m1 =~= m);
        } else if (c as u32) < 32 {
            let hi = c as u32 / 16;
            let lo = c as u32 % 16;
            assert(escape(m) =~= seq!['\\', 'u', '0', '0', hex_digit(hi), hex_digit(lo)] + escape(
                m1,
            ));
            assert(s =~= seq!['\\', 'u', '0', '0', hex_digit(hi), hex_digit(lo)] + s1);
            assert(s[0] == '\\' && s[1] == 'u' && s[2] == '0' && s[3] == '0');
            assert(s[4] == hex_digit(hi) && s[5] == hex_digit(lo));
            assert(is_hex(hex_digit(hi)) && is_hex(hex_digit(lo)));
            assert(hex_val(hex_digit(hi)) == hi && hex_val(hex_digit(lo)) == lo);
            assert(hi * 16 + lo == c as u32);
            let u: u32 = c as u32;
            assert((u as u8) as u32 == u);
            assert(((u as u8) as char) as u32 == u);
            vstd::utf8::char_u32_cast(c, u);
            assert((((hex_val(s[4]) * 16 + hex_val(s[5])) as u8) as char) == c);
            assert(s.skip(6) =~= s1);
            assert(seq![c] + m1 =~= m);
        } else {
            assert(escape(m) =~= seq![c] + escape(m1));
            assert(s =~= seq![c] + s1);
            assert(s[0] == c);
            assert(s.skip(1) =~= s1);
            assert(seq![c] + m1 =~= m);
        }
    }
}

/// The symbolic name a status is written as on the wire.
pub open spec fn status_name(st: Status) -> Seq<char> {
    match st {
        Status::BadRequest => "BadRequest"@,
        Status::Unauthorized => "Unauthorized"@,
        Status::Forbidden => "Forbidden"@,
        Status::NotFound => "NotFound"@,
        Status::MethodNotAllowed => "MethodNotAllowed"@,
        Status::VersionConflict => "VersionConflict"@,
        Status::RequestTooLarge => "RequestTooLarge"@,
        Status::TooManyRequests => "TooManyRequests"@,
        Status::DataCorruption => "DataCorruption"@,
        Status::ServerError => "ServerError"@,
        Status::NotImplemented => "NotImplemented"@,
        Status::ServiceUnavailable => "ServiceUnavailable"@,
        Status::NotSpecified => "NotSpecified"@,
    }
}

/// The status a symbolic name reads back as.
pub open spec fn name_to_status(n: Seq<char>) -> Option<Status> {
    if n == "BadRequest"@ {
        Some(Status::BadRequest)
    } else if n == "Unauthorized"@ {
        Some(Status::Unauthorized)
    } else if n == "Forbidden"@ {
        Some(Status::Forbidden)
    } else if n == "NotFound"@ {
        Some(Status::NotFound)
    } else if n == "MethodNotAllowed"@ {
        Some(Status::MethodNotAllowed)
    } else if n == "VersionConflict"@ {
        Some(Status::VersionConflict)
    } else if n == "RequestTooLarge"@ {
        Some(Status::RequestTooLarge)
    } else if n == "TooManyRequests"@ {
        Some(Status::TooManyRequests)
    } else if n == "DataCorruption"@ {
        Some(Status::DataCorruption)
    } else if n == "ServerError"@ {
        Some(Status::ServerError)
    } else if n == "NotImplemented"@ {
        Some(Status::NotImplemented)
    } else if n == "ServiceUnavailable"@ {
        Some(Status::ServiceUnavailable)
    } else if n == "NotSpecified"@ {
        Some(Status::NotSpecified)
    } else {
        None
    }
}

/// No status name holds a character that escaping would change.
pub proof fn lemma_names_no_special(st: Status)
    ensures
        no_special(status_name(st)),
{
    reveal_strlit("BadRequest");
    reveal_strlit("Unauthorized");
    reveal_strlit("Forbidden");
    reveal_strlit("NotFound");
    reveal_strlit("MethodNotAllowed");
    reveal_strlit("VersionConflict");
    reveal_strlit("RequestTooLarge");
    reveal_strlit("TooManyRequests");
    reveal_strlit("DataCorruption");
    reveal_strlit("ServerError");
    reveal_strlit("NotImplemented");
    reveal_strlit("ServiceUnavailable");
    reveal_strlit("NotSpecified");
    reveal_with_fuel(no_special, 20);
    match st {
        Status::BadRequest => assert(no_special("BadRequest"@)),
        Status::Unauthorized => assert(no_special("Unauthorized"@)),
        Status::Forbidden => assert(no_special("Forbidden"@)),
        Status::NotFound => assert(no_special("NotFound"@)),
        Status::MethodNotAllowed => assert(no_special("MethodNotAllowed"@)),
        Status::VersionConflict => assert(no_special("VersionConflict"@)),
        Status::RequestTooLarge => assert(no_special("RequestTooLarge"@)),
        Status::TooManyRequests => assert(no_special("TooManyRequests"@)),
        Status::DataCorruption => assert(no_special("DataCorruption"@)),
        Status::ServerError => assert(no_special("ServerError"@)),
        Status::NotImplemented => assert(no_special("NotImplemented"@)),
        Status::ServiceUnavailable => assert(no_special("ServiceUnavailable"@)),
        Status::NotSpecified => assert(no_special("NotSpecified"@)),
    }
}

/// Every status reads back from its own name.
pub proof fn lemma_name_round_trip(st: Status)
    ensures
        name_to_status(status_name(st)) == Some(st),
{
    reveal_strlit("BadRequest");
    reveal_strlit("Unauthorized");
    reveal_strlit("Forbidden");
    reveal_strlit("NotFound");
    reveal_strlit("MethodNotAllowed");
    reveal_strlit("VersionConflict");
    reveal_strlit("RequestTooLarge");
    reveal_strlit("TooManyRequests");
    reveal_strlit("DataCorruption");
    reveal_strlit("ServerError");
    reveal_strlit("NotImplemented");
    reveal_strlit("ServiceUnavailable");
    reveal_strlit("NotSpecified");
    // Any two names differ in their first character or in their length.
    assert("BadRequest"@[0] == 'B' && "BadRequest"@.len() == 10);
    assert("Unauthorized"@[0] == 'U' && "Unauthorized"@.len() == 12);
    assert("Forbidden"@[0] == 'F' && "Forbidden"@.len() == 9);
    assert("NotFound"@[0] == 'N' && "NotFound"@.len() == 8);
    assert("MethodNotAllowed"@[0] == 'M' && "MethodNotAllowed"@.len() == 16);
    assert("VersionConflict"@[0] == 'V' && "VersionConflict"@.len() == 15);
    assert("RequestTooLarge"@[0] == 'R' && "RequestTooLarge"@.len() == 15);
    assert("TooManyRequests"@[0] == 'T' && "TooManyRequests"@.len() == 15);
    assert("DataCorruption"@[0] == 'D' && "DataCorruption"@.len() == 14);
    assert("ServerError"@[0] == 'S' && "ServerError"@.len() == 11);
    assert("NotImplemented"@[0] == 'N' && "NotImplemented"@.len() == 14);
    assert("ServiceUnavailable"@[0] == 'S' && "ServiceUnavailable"@.len() == 18);
    assert("NotSpecified"@[0] == 'N' && "NotSpecified"@.len() == 12);
    match st {
        Status::BadRequest => assert(name_to_status("BadRequest"@) == Some(Status::BadRequest)),
        Status::Unauthorized => assert(name_to_status("Unauthorized"@) == Some(
            Status::Unauthorized,
        )),
        Status::Forbidden => assert(name_to_status("Forbidden"@) == Some(Status::Forbidden)),
        Status::NotFound => assert(name_to_status("NotFound"@) == Some(Status::NotFound)),
        Status::MethodNotAllowed => assert(name_to_status("MethodNotAllowed"@) == Some(
            Status::MethodNotAllowed,
        )),
        Status::VersionConflict => assert(name_to_status("VersionConflict"@) == Some(
            Status::VersionConflict,
        )),
        Status::RequestTooLarge => assert(name_to_status("RequestTooLarge"@) == Some(
            Status::RequestTooLarge,
        )),
        Status::TooManyRequests => assert(name_to_status("TooManyRequests"@) == Some(
            Status::TooManyRequests,
        )),
        Status::DataCorruption => assert(name_to_status("DataCorruption"@) == Some(
            Status::DataCorruption,
        )),
        Status::ServerError => assert(name_to_status("ServerError"@) == Some(Status::ServerError)),
        Status::NotImplemented => assert(name_to_status("NotImplemented"@) == Some(
            Status::NotImplemented,
        )),
        Status::ServiceUnavailable => assert(name_to_status("ServiceUnavailable"@) == Some(
            Status::ServiceUnavailable,
        )),
        Status::NotSpecified => assert(name_to_status("NotSpecified"@) == Some(
            Status::NotSpecified,
        )),
    }
}

/// The fixed opening of every encoded error.
pub open spec fn status_prefix() -> Seq<char> {
    "{\"status\":\""@
}

/// What introduces the message field.
pub open spec fn message_prefix() -> Seq<char> {
    ",\"message\":\""@
}

/// What introduces the cause field.
pub open spec fn cause_prefix() -> Seq<char> {
    ",\"cause\":\""@
}

pub open spec fn message_part(m: Option<Seq<char>>) -> Seq<char> {
    match m {
        None => Seq::empty(),
        Some(m) => message_prefix() + escape(m) + seq!['"'],
    }
}

pub open spec fn cause_part(c: Option<Seq<char>>) -> Seq<char> {
    match c {
        None => Seq::empty(),
        Some(c) => cause_prefix() + escape(c) + seq!['"'],
    }
}

/// The canonical wire form of an error.
pub open spec fn encode_spec(v: ErrView) -> Seq<char> {
    status_prefix() + status_name(v.status) + seq!['"'] + message_part(v.message) + cause_part(
        v.cause,
    ) + seq!['}']
}

pub open spec fn starts_with(s: Seq<char>, p: Seq<char>) -> bool {
    p.len() <= s.len() && s.subrange(0, p.len() as int) == p
}

/// What may follow the status and an optional message: a cause field and
/// the closing brace, or the closing brace alone.
pub open spec fn decode_tail(st: Status, m: Option<Seq<char>>, r: Seq<char>) -> Option<ErrView> {
    if r == seq!['}'] {
        Some(ErrView { status: st, message: m, cause: None })
    } else if starts_with(r, cause_prefix()) {
        match unescape(r.skip(cause_prefix().len() as int)) {
            Some((c, r2)) => if r2 == seq!['}'] {
                Some(ErrView { status: st, message: m, cause: Some(c) })
            } else {
                None
            },
            None => None,
        }
    } else {
        None
    }
}

/// What may follow the status: an optional message field, then the tail.
pub open spec fn decode_after_status(st: Status, r: Seq<char>) -> Option<ErrView> {
    if starts_with(r, message_prefix()) {
        match unescape(r.skip(message_prefix().len() as int)) {
            Some((m, r2)) => decode_tail(st, Some(m), r2),
            None => None,
        }
    } else {
        decode_tail(st, None, r)
    }
}

/// The error a character sequence reads back as, when it is exactly an
/// encoded error, and nothing otherwise.
pub open spec fn decode_spec(s: Seq<char>) -> Option<ErrView> {
    if starts_with(s, status_prefix()) {
        match unescape(s.skip(status_prefix().len() as int)) {
            Some((name, r)) => match name_to_status(name) {
                Some(st) => decode_after_status(st, r),
                None => None,
            },
            None => None,
        }
    } else {
        None
    }
}

/// Decoding an encoded error yields exactly that error, whatever text
/// its message and cause hold.
pub proof fn lemma_decode_encode(v: ErrView)
    ensures
        decode_spec(encode_spec(v)) == Some(v),
{
    reveal_strlit("{\"status\":\"");
    reveal_strlit(",\"message\":\"");
    reveal_strlit(",\"cause\":\"");
    let name = status_name(v.status);
    lemma_names_no_special(v.status);
    lemma_escape_identity(name);
    lemma_name_round_trip(v.status);
    let tail = message_part(v.message) + cause_part(v.cause) + seq!['}'];
    let s = encode_spec(v);
    assert(s =~= status_prefix() + (name + seq!['"'] + tail));
    assert(s.subrange(0, status_prefix().len() as int) =~= status_prefix());
    assert(starts_with(s, status_prefix()));
    assert(s.skip(status_prefix().len() as int) =~= escape(name) + seq!['"'] + tail);
    lemma_unescape_escaped(name, tail);
    assert(unescape(s.skip(status_prefix().len() as int)) == Some((name, tail)));
    lemma_decode_after_status(v, tail);
    assert(v == (ErrView { status: v.status, message: v.message, cause: v.cause }));
}

proof fn lemma_decode_after_status(v: ErrView, tail: Seq<char>)
    requires
        tail == message_part(v.message) + cause_part(v.cause) + seq!['}'],
    ensures
        decode_after_status(v.status, tail) == Some(v),
{
    reveal_strlit(",\"message\":\"");
    reveal_strlit(",\"cause\":\"");
    let ct = cause_part(v.cause) + seq!['}'];
    match v.message {
        None => {
            assert(tail =~= ct);
            lemma_not_message_prefixed(v.cause, tail);
            lemma_decode_tail(v.status, None, v.cause, ct);
        },
        Some(m) => {
            assert(tail =~= message_prefix() + (escape(m) + seq!['"'] + ct));
            assert(tail.subrange(0, message_prefix().len() as int) =~= message_prefix());
            assert(starts_with(tail, message_prefix()));
            assert(tail.skip(message_prefix().len() as int) =~= escape(m) + seq!['"'] + ct);
            lemma_unescape_escaped(m, ct);
            lemma_decode_tail(v.status, Some(m), v.cause, ct);
            assert(v == (ErrView { status: v.status, message: v.message, cause: v.cause }));
        },
    }
}

/// A tail that opens the cause field, or closes the object, does not
/// open the message field.
proof fn lemma_not_message_prefixed(c: Option<Seq<char>>, tail: Seq<char>)
    requires
        tail == cause_part(c) + seq!['}'],
    ensures
        !starts_with(tail, message_prefix()),
{
    reveal_strlit(",\"message\":\"");
    reveal_strlit(",\"cause\":\"");
    match c {
        None => {
            assert(tail =~= seq!['}']);
            assert(tail.len() == 1);
        },
        Some(c0) => {
            if starts_with(tail, message_prefix()) {
                assert(tail.subrange(0, message_prefix().len() as int)[2] == tail[2]);
                assert(tail[2] == 'm');
                assert(tail =~= cause_prefix() + (escape(c0) + seq!['"'] + seq!['}']));
                assert(tail[2] == cause_prefix()[2]);
                assert(cause_prefix()[2] == 'c');
                assert(false);
            }
        },
    }
}

proof fn lemma_decode_tail(st: Status, m: Option<Seq<char>>, c: Option<Seq<char>>, r: Seq<char>)
    requires
        r == cause_part(c) + seq!['}'],
    ensures
        decode_tail(st, m, r) == Some(ErrView { status: st, message: m, cause: c }),
{
    reveal_strlit(",\"cause\":\"");
    match c {
        None => {
            assert(r =~= seq!['}']);
        },
        Some(c0) => {
            assert(r =~= cause_prefix() + (escape(c0) + seq!['"'] + seq!['}']));
            assert(r.len() >= cause_prefix().len() + 2);
            assert(r != seq!['}']);
            assert(r.subrange(0, cause_prefix().len() as int) =~= cause_prefix());
            assert(starts_with(r, cause_prefix()));
            assert(r.skip(cause_prefix().len() as int) =~= escape(c0) + seq!['"'] + seq!['}']);
            lemma_unescape_escaped(c0, seq!['}']);
        },
    }
}

/// The characters of a string, one slot each.
pub(crate) fn to_chars(s: &str) -> (r: Vec<char>)
    ensures
        r@ == s@,
{
    let n = s.unicode_len();
    let mut r: Vec<char> = Vec::new();
    let mut i: usize = 0;
    while i < n
        invariant
            i <= n,
            n == s@.len(),
            r@ == s@.take(i as int),
        decreases n - i,
    {
        let c = s.get_char(i);
        proof {
            assert(s@.take(i as int + 1) =~= s@.take(i as int).push(s@[i as int]));
        }
        r.push(c);
        i += 1;
    }
    proof {
        assert(s@.take(n as int) =~= s@);
    }
    r
}

/// Whether the characters from position `i` on start with `p`.
pub(crate) fn match_at(v: &Vec<char>, i: usize, p: &str) -> (r: bool)
    requires
        i <= v@.len(),
    ensures
        r == starts_with(v@.skip(i as int), p@),
{
    let plen = p.unicode_len();
    let vlen = v.len();
    if vlen - i < plen {
        return false;
    }
    let mut j: usize = 0;
    while j < plen
        invariant
            j <= plen,
            plen == p@.len(),
            vlen == v@.len(),
            i + plen <= vlen,
            forall|k: int| 0 <= k < j ==> v@[i + k] == p@[k],
        decreases plen - j,
    {
        if v[i + j] != p.get_char(j) {
            proof {
                if starts_with(v@.skip(i as int), p@) {
                    assert(v@.skip(i as int).subrange(0, p@.len() as int)[j as int] == p@[j as int]);
                    assert(v@.skip(i as int)[j as int] == v@[i + j]);
                    assert(false);
                }
            }
            return false;
        }
        j += 1;
    }
    proof {
        assert(v@.skip(i as int).subrange(0, p@.len() as int) =~= p@);
    }
    true
}

/// The lowercase hexadecimal digit for a value below sixteen.
fn hex_digit_char(n: u32) -> (r: char)
    requires
        n < 16,
    ensures
        r == hex_digit(n),
{
    if n < 10 {
        ((48 + n) as u8) as char
    } else {
        ((87 + n) as u8) as char
    }
}

/// The value of a lowercase hexadecimal digit.
fn hex_val_of(c: char) -> (r: u32)
    requires
        is_hex(c),
    ensures
        r == hex_val(c),
{
    let b = c as u32;
    if b <= 57 {
        b - 48
    } else {
        b - 87
    }
}

/// A lowercase hexadecimal digit.
fn is_hex_char(c: char) -> (r: bool)
    ensures
        r == is_hex(c),
{
    let b = c as u32;
    (48 <= b && b <= 57) || (97 <= b && b <= 102)
}

/// Escape the characters from position `i` on into `out`.
pub(crate) fn push_escaped(out: &mut String, v: &Vec<char>, i: usize)
    requires
        i <= v@.len(),
    ensures
        final(out)@ == old(out)@ + escape(v@.skip(i as int)),
    decreases v@.len() - i,
{
    if i == v.len() {
        proof {
            assert(v@.skip(i as int) =~= Seq::<char>::empty());
            assert(old(out)@ + escape(v@.skip(i as int)) =~= old(out)@);
        }
    } else {
        let c = v[i];
        if c == '"' {
            out.push('\\');
            out.push('"');
        } else if c == '\\' {
            out.push('\\');
            out.push('\\');
        } else if (c as u32) < 32 {
            let b = c as u32;
            out.push('\\');
            out.push('u');
            out.push('0');
            out.push('0');
            out.push(hex_digit_char(b / 16));
            out.push(hex_digit_char(b % 16));
        } else {
            out.push(c);
        }
        proof {
            assert(out@ =~= old(out)@ + esc_char(v@[i as int]));
        }
        let ghost mid = out@;
        push_escaped(out, v, i + 1);
        proof {
            let s = v@.skip(i as int);
            assert(s[0] == v@[i as int]);
            assert(s.skip(1) =~= v@.skip(i as int + 1));
            assert(out@ =~= old(out)@ + (esc_char(s[0]) + escape(s.skip(1))));
        }
    }
}

/// The symbolic name this status is written as on the wire.
pub fn status_name_str(st: Status) -> (r: &'static str)
    ensures
        r@ == status_name(st),
{
    match st {
        Status::BadRequest => "BadRequest",
        Status::Unauthorized => "Unauthorized",
        Status::Forbidden => "Forbidden",
        Status::NotFound => "NotFound",
        Status::MethodNotAllowed => "MethodNotAllowed",
        Status::VersionConflict => "VersionConflict",
        Status::RequestTooLarge => "RequestTooLarge",
        Status::TooManyRequests => "TooManyRequests",
        Status::DataCorruption => "DataCorruption",
        Status::ServerError => "ServerError",
        Status::NotImplemented => "NotImplemented",
        Status::ServiceUnavailable => "ServiceUnavailable",
        Status::NotSpecified => "NotSpecified",
    }
}

/// Write an error in its canonical wire form.
pub fn encode_service_error(e: &ServiceError) -> (r: String)
    ensures
        r@ == encode_spec(e@),
{
    let mut out = String::from_str("{\"status\":\"");
    out.append(status_name_str(e.status));
    out.push('"');
    proof {
        assert(out@ =~= status_prefix() + status_name(e@.status) + seq!['"']);
    }
    let ghost head = out@;
    match &e.message {
        Some(m) => {
            out.append(",\"message\":\"");
            let v = to_chars(m.as_str());
            push_escaped(&mut out, &v, 0);
            out.push('"');
            proof {
                assert(v@.skip(0) =~= v@);
                assert(out@ =~= head + message_part(e@.message));
            }
        },
        None => {
            proof {
                assert(out@ =~= head + message_part(e@.message));
            }
        },
    }
    let ghost head2 = out@;
    match &e.cause {
        Some(c) => {
            out.append(",\"cause\":\"");
            let v = to_chars(c.as_str());
            push_escaped(&mut out, &v, 0);
            out.push('"');
            proof {
                assert(v@.skip(0) =~= v@);
                assert(out@ =~= head2 + cause_part(e@.cause));
            }
        },
        None => {
            proof {
                assert(out@ =~= head2 + cause_part(e@.cause));
            }
        },
    }
    out.push('}');
    proof {
        assert(out@ =~= encode_spec(e@));
    }
    out
}

/// Read an escaped string region from position `i` up to its closing
/// quote; yields the text and the position after the quote.
fn unescape_from(v: &Vec<char>, i: usize) -> (r: Option<(String, usize)>)
    requires
        i <= v@.len(),
    ensures
        match r {
            Some(p) => i <= p.1 <= v@.len() && unescape(v@.skip(i as int)) == Some(
                (p.0@, v@.skip(p.1 as int)),
            ),
            None => unescape(v@.skip(i as int)) is None,
        },
    decreases v@.len() - i,
{
    if i == v.len() {
        proof {
            assert(v@.skip(i as int) =~= Seq::<char>::empty());
        }
        return None;
    }
    let ghost s = v@.skip(i as int);
    proof {
        assert(s[0] == v@[i as int]);
        assert(s.len() == v@.len() - i);
    }
    let c = v[i];
    if c == '"' {
        proof {
            assert(s.skip(1) =~= v@.skip(i as int + 1));
        }
        Some((String::new(), i + 1))
    } else if c == '\\' {
        if v.len() - i >= 2 {
            let c2 = v[i + 1];
            proof {
                assert(s[1] == v@[i as int + 1]);
            }
            if c2 == '"' || c2 == '\\' {
                proof {
                    assert(s.skip(2) =~= v@.skip(i as int + 2));
                }
                match unescape_from(v, i + 2) {
                    Some((m, j)) => {
                        let mut d = String::new();
                        d.push(c2);
                        d.append(m.as_str());
                        proof {
                            assert(d@ =~= seq![s[1]] + m@);
                        }
                        Some((d, j))
                    },
                    None => None,
                }
            } else if c2 == 'u' && v.len() - i >= 6 {
                proof {
                    assert(s[2] == v@[i as int + 2]);
                    assert(s[3] == v@[i as int + 3]);
                    assert(s[4] == v@[i as int + 4]);
                    assert(s[5] == v@[i as int + 5]);
                }
                if v[i + 2] == '0' && v[i + 3] == '0' && is_hex_char(v[i + 4]) && is_hex_char(
                    v[i + 5],
                ) {
                    proof {
                        assert(s.skip(6) =~= v@.skip(i as int + 6));
                    }
                    let value = hex_val_of(v[i + 4]) * 16 + hex_val_of(v[i + 5]);
                    let dc = (value as u8) as char;
                    match unescape_from(v, i + 6) {
                        Some((m, j)) => {
                            let mut d = String::new();
                            d.push(dc);
                            d.append(m.as_str());
                            proof {
                                assert(d@ =~= seq![
                                    (((hex_val(s[4]) * 16 + hex_val(s[5])) as u8) as char),
                                ] + m@);
                            }
                            Some((d, j))
                        },
                        None => None,
                    }
                } else {
                    None
                }
            } else {
                None
            }
        } else {
            None
        }
    } else {
        proof {
            assert(s.skip(1) =~= v@.skip(i as int + 1));
        }
        match unescape_from(v, i + 1) {
            Some((m, j)) => {
                let mut d = String::new();
                d.push(c);
                d.append(m.as_str());
                proof {
                    assert(d@ =~= seq![s[0]] + m@);
                }
                Some((d, j))
            },
            None => None,
        }
    }
}

/// The status a symbolic name reads back as.
fn status_of_name(m: &str) -> (r: Option<Status>)
    ensures
        r == name_to_status(m@),
{
    if str_eq(m, "BadRequest") {
        Some(Status::BadRequest)
    } else if str_eq(m, "Unauthorized") {
        Some(Status::Unauthorized)
    } else if str_eq(m, "Forbidden") {
        Some(Status::Forbidden)
    } else if str_eq(m, "NotFound") {
        Some(Status::NotFound)
    } else if str_eq(m, "MethodNotAllowed") {
        Some(Status::MethodNotAllowed)
    } else if str_eq(m, "VersionConflict") {
        Some(Status::VersionConflict)
    } else if str_eq(m, "RequestTooLarge") {
        Some(Status::RequestTooLarge)
    } else if str_eq(m, "TooManyRequests") {
        Some(Status::TooManyRequests)
    } else if str_eq(m, "DataCorruption") {
        Some(Status::DataCorruption)
    } else if str_eq(m, "ServerError") {
        Some(Status::ServerError)
    } else if str_eq(m, "NotImplemented") {
        Some(Status::NotImplemented)
    } else if str_eq(m, "ServiceUnavailable") {
        Some(Status::ServiceUnavailable)
    } else if str_eq(m, "NotSpecified") {
        Some(Status::NotSpecified)
    } else {
        None
    }
}

/// Character-wise string equality.
pub(crate) fn str_eq(a: &str, b: &str) -> (r: bool)
    ensures
        r == (a@ == b@),
{
    let n = a.unicode_len();
    if n != b.unicode_len() {
        return false;
    }
    let mut i: usize = 0;
    while i < n
        invariant
            i <= n,
            n == a@.len(),
            n == b@.len(),
            forall|k: int| 0 <= k < i ==> a@[k] == b@[k],
        decreases n - i,
    {
        if a.get_char(i) != b.get_char(i) {
            return false;
        }
        i += 1;
    }
    proof {
        assert(a@ =~= b@);
    }
    true
}

/// Whether the characters from position `i` on are exactly the closing
/// brace.
fn closes_here(v: &Vec<char>, i: usize) -> (r: bool)
    requires
        i <= v@.len(),
    ensures
        r == (v@.skip(i as int) == seq!['}']),
{
    if v.len() - i == 1 && v[i] == '}' {
        proof {
            assert(v@.skip(i as int) =~= seq!['}']);
        }
        true
    } else {
        proof {
            if v@.skip(i as int) == seq!['}'] {
                assert(v@.skip(i as int).len() == 1);
                assert(v@.skip(i as int)[0] == '}');
                assert(v@[i as int] == '}');
                assert(false);
            }
        }
        false
    }
}

/// Read the optional cause field and the closing brace.
fn decode_tail_exec(v: &Vec<char>, i: usize, st: Status, m: Option<String>) -> (r: Option<
    ServiceError,
>)
    requires
        i <= v@.len(),
    ensures
        match r {
            Some(e) => decode_tail(st, view_opt_string(m), v@.skip(i as int)) == Some(e@),
            None => decode_tail(st, view_opt_string(m), v@.skip(i as int)) is None,
        },
{
    if closes_here(v, i) {
        return Some(ServiceError { status: st, message: m, cause: None });
    }
    let cause_p = ",\"cause\":\"";
    if match_at(v, i, cause_p) {
        let plen = cause_p.unicode_len();
        let vlen = v.len();
        proof {
            assert(plen <= v@.skip(i as int).len());
            assert(i + plen <= vlen);
            assert(v@.skip(i as int).skip(plen as int) =~= v@.skip(i as int + plen));
        }
        let j0 = i + plen;
        match unescape_from(v, j0) {
            Some((c, j)) => {
                if closes_here(v, j) {
                    Some(ServiceError { status: st, message: m, cause: Some(c) })
                } else {
                    None
                }
            },
            None => None,
        }
    } else {
        None
    }
}

/// Read the optional message field, then the tail.
fn decode_after_status_exec(v: &Vec<char>, i: usize, st: Status) -> (r: Option<ServiceError>)
    requires
        i <= v@.len(),
    ensures
        match r {
            Some(e) => decode_after_status(st, v@.skip(i as int)) == Some(e@),
            None => decode_after_status(st, v@.skip(i as int)) is None,
        },
{
    let msg_p = ",\"message\":\"";
    if match_at(v, i, msg_p) {
        let plen = msg_p.unicode_len();
        let vlen = v.len();
        proof {
            assert(plen <= v@.skip(i as int).len());
            assert(i + plen <= vlen);
            assert(v@.skip(i as int).skip(plen as int) =~= v@.skip(i as int + plen));
        }
        let j0 = i + plen;
        match unescape_from(v, j0) {
            Some((m, j)) => decode_tail_exec(v, j, st, Some(m)),
            None => None,
        }
    } else {
        decode_tail_exec(v, i, st, None)
    }
}

/// Read an error back from its canonical wire form; anything else reads
/// as nothing.
pub fn decode_service_error(s: &str) -> (r: Option<ServiceError>)
    ensures
        match r {
            Some(e) => decode_spec(s@) == Some(e@),
            None => decode_spec(s@) is None,
        },
{
    let v = to_chars(s);
    proof {
        assert(v@.skip(0) =~= s@);
    }
    let status_p = "{\"status\":\"";
    if !match_at(&v, 0, status_p) {
        return None;
    }
    let plen = status_p.unicode_len();
    proof {
        assert(plen <= v@.len());
        assert(v@.skip(0).skip(plen as int) =~= v@.skip(plen as int));
        assert(s@.skip(status_prefix().len() as int) == v@.skip(plen as int));
    }
    match unescape_from(&v, plen) {
        Some((name, j)) => match status_of_name(name.as_str()) {
            Some(st) => decode_after_status_exec(&v, j, st),
            None => None,
        },
        None => None,
    }
}

} // verus!
