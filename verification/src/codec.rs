//! The wire codec for [`Message`].
//!
//! A message travels as one self-describing textual frame: a tagged record
//! whose discriminant names the variant and whose fields are quoted strings,
//! e.g. `{"Hail":{"name":"p1","address":"addr-1"}}`. Inside a quoted string
//! the characters `"` and `\` are escaped with a backslash; every other
//! character stands for itself. Encoding is total and lossless; decoding
//! accepts exactly the frames the encoder produces and rejects everything
//! else.

use vstd::prelude::*;
use vstd::string::*;

use crate::message::{Message, MessageView};

verus! {

// ---------------------------------------------------------------------------
// Specification: escaping
// ---------------------------------------------------------------------------

/// How one character appears inside a quoted field: `"` and `\` gain a
/// leading backslash, everything else stands for itself.
pub open spec fn esc_char(c: char) -> Seq<char> {
    if c == '"' {
        seq!['\\', '"']
    } else if c == '\\' {
        seq!['\\', '\\']
    } else {
        seq![c]
    }
}

/// The escaped form of a whole field.
pub open spec fn spec_escape(s: Seq<char>) -> Seq<char>
    decreases s.len(),
{
    if s.len() == 0 {
        Seq::empty()
    } else {
        esc_char(s[0]) + spec_escape(s.drop_first())
    }
}

/// A quoted field as it appears on the wire, from the first content
/// character up to and including the closing quote. (The opening quote
/// belongs to the literal text before the field.)
pub open spec fn encode_string(content: Seq<char>) -> Seq<char> {
    spec_escape(content) + seq!['"']
}

// ---------------------------------------------------------------------------
// Specification: the encoder
// ---------------------------------------------------------------------------

/// The exact frame a message is encoded to.
pub open spec fn spec_encode(m: MessageView) -> Seq<char> {
    match m {
        MessageView::Hail { name, address } => "{\"Hail\":{\"name\":\""@ + encode_string(name)
            + ",\"address\":\""@ + encode_string(address) + "}}"@,
        MessageView::Pair { originator, destination } => "{\"Pair\":{\"originator\":\""@
            + encode_string(originator) + ",\"destination\":\""@ + encode_string(destination)
            + "}}"@,
        MessageView::Link { origin_name, destination_name, address } => "{\"Link\":{\"origin_name\":\""@
            + encode_string(origin_name) + ",\"destination_name\":\""@
            + encode_string(destination_name) + ",\"address\":\""@ + encode_string(address)
            + "}}"@,
        MessageView::Fail { offender, explanation } => "{\"Fail\":{\"offender\":\""@
            + encode_string(offender) + ",\"explanation\":\""@ + encode_string(explanation)
            + "}}"@,
        MessageView::Data { payload } => "{\"Data\":{\"payload\":\""@ + encode_string(payload)
            + "}}"@,
    }
}

// ---------------------------------------------------------------------------
// Specification: the decoder
// ---------------------------------------------------------------------------

/// Consumes an exact literal from the front of `s`, yielding the remainder.
pub open spec fn take_prefix(s: Seq<char>, lit: Seq<char>) -> Option<Seq<char>> {
    if lit.len() <= s.len() && s.take(lit.len() as int) == lit {
        Some(s.skip(lit.len() as int))
    } else {
        None
    }
}

/// Consumes a quoted field from the front of `s`: unescapes up to and over
/// the closing quote, yielding the content and the remainder. Fails on an
/// unterminated field or a stray escape.
pub open spec fn take_string(s: Seq<char>) -> Option<(Seq<char>, Seq<char>)>
    decreases s.len(),
{
    if s.len() == 0 {
        None
    } else if s[0] == '"' {
        Some((Seq::empty(), s.drop_first()))
    } else if s[0] == '\\' {
        if s.len() >= 2 && (s[1] == '"' || s[1] == '\\') {
            match take_string(s.skip(2)) {
                Some(p) => Some((seq![s[1]] + p.0, p.1)),
                None => None,
            }
        } else {
            None
        }
    } else {
        match take_string(s.drop_first()) {
            Some(p) => Some((seq![s[0]] + p.0, p.1)),
            None => None,
        }
    }
}

/// Decodes a one-field record body: `head`, one quoted field, then the
/// closing braces and nothing further.
pub open spec fn decode_one(s: Seq<char>, head: Seq<char>) -> Option<Seq<char>> {
    match take_prefix(s, head) {
        Some(r1) => match take_string(r1) {
            Some(p1) => match take_prefix(p1.1, "}}"@) {
                Some(r2) => if r2.len() == 0 {
                    Some(p1.0)
                } else {
                    None
                },
                None => None,
            },
            None => None,
        },
        None => None,
    }
}

/// Decodes a two-field record body: `head`, a quoted field, `sep`, a second
/// quoted field, then the closing braces and nothing further.
pub open spec fn decode_two(s: Seq<char>, head: Seq<char>, sep: Seq<char>) -> Option<
    (Seq<char>, Seq<char>),
> {
    match take_prefix(s, head) {
        Some(r1) => match take_string(r1) {
            Some(p1) => match take_prefix(p1.1, sep) {
                Some(r2) => match take_string(r2) {
                    Some(p2) => match take_prefix(p2.1, "}}"@) {
                        Some(r3) => if r3.len() == 0 {
                            Some((p1.0, p2.0))
                        } else {
                            None
                        },
                        None => None,
                    },
                    None => None,
                },
                None => None,
            },
            None => None,
        },
        None => None,
    }
}

/// Decodes a three-field record body.
pub open spec fn decode_three(
    s: Seq<char>,
    head: Seq<char>,
    sep1: Seq<char>,
    sep2: Seq<char>,
) -> Option<(Seq<char>, Seq<char>, Seq<char>)> {
    match take_prefix(s, head) {
        Some(r1) => match take_string(r1) {
            Some(p1) => match take_prefix(p1.1, sep1) {
                Some(r2) => match take_string(r2) {
                    Some(p2) => match take_prefix(p2.1, sep2) {
                        Some(r3) => match take_string(r3) {
                            Some(p3) => match take_prefix(p3.1, "}}"@) {
                                Some(r4) => if r4.len() == 0 {
                                    Some((p1.0, p2.0, p3.0))
                                } else {
                                    None
                                },
                                None => None,
                            },
                            None => None,
                        },
                        None => None,
                    },
                    None => None,
                },
                None => None,
            },
            None => None,
        },
        None => None,
    }
}

/// The message a frame decodes to, if any: each variant's template is tried
/// in turn.
pub open spec fn spec_decode(s: Seq<char>) -> Option<MessageView> {
    match decode_two(s, "{\"Hail\":{\"name\":\""@, ",\"address\":\""@) {
        Some(p) => Some(MessageView::Hail { name: p.0, address: p.1 }),
        None => match decode_two(s, "{\"Pair\":{\"originator\":\""@, ",\"destination\":\""@) {
            Some(p) => Some(MessageView::Pair { originator: p.0, destination: p.1 }),
            None => match decode_three(
                s,
                "{\"Link\":{\"origin_name\":\""@,
                ",\"destination_name\":\""@,
                ",\"address\":\""@,
            ) {
                Some(t) => Some(
                    MessageView::Link {
                        origin_name: t.0,
                        destination_name: t.1,
                        address: t.2,
                    },
                ),
                None => match decode_two(s, "{\"Fail\":{\"offender\":\""@, ",\"explanation\":\""@) {
                    Some(p) => Some(MessageView::Fail { offender: p.0, explanation: p.1 }),
                    None => match decode_one(s, "{\"Data\":{\"payload\":\""@) {
                        Some(c) => Some(MessageView::Data { payload: c }),
                        None => None,
                    },
                },
            },
        },
    }
}

// ---------------------------------------------------------------------------
// Executable encoder
// ---------------------------------------------------------------------------

/// Escaping one more character extends the escaped form at the end.
proof fn lemma_escape_snoc(s: Seq<char>, c: char)
    ensures
        spec_escape(s.push(c)) == spec_escape(s) + esc_char(c),
    decreases s.len(),
{
    if s.len() == 0 {
        assert(s.push(c) =~= seq![c]);
        assert(seq![c].drop_first() =~= Seq::<char>::empty());
        assert(spec_escape(Seq::<char>::empty()) == Seq::<char>::empty());
        assert(seq![c][0] == c);
        assert(spec_escape(seq![c]) == esc_char(c) + Seq::<char>::empty());
        assert(esc_char(c) + Seq::<char>::empty() =~= esc_char(c));
        assert(spec_escape(s) + esc_char(c) =~= esc_char(c));
    } else {
        lemma_escape_snoc(s.drop_first(), c);
        assert(s.push(c).drop_first() =~= s.drop_first().push(c));
        assert(s.push(c)[0] == s[0]);
        assert(esc_char(s[0]) + (spec_escape(s.drop_first()) + esc_char(c)) =~= (esc_char(s[0])
            + spec_escape(s.drop_first())) + esc_char(c));
    }
}

/// Appends the escaped form of `s` to `out`.
fn append_escaped(out: &mut String, s: &str)
    ensures
        final(out)@ == old(out)@ + spec_escape(s@),
{
    let n = s.unicode_len();
    proof {
        assert(s@.take(0) =~= Seq::<char>::empty());
        assert(old(out)@ + spec_escape(s@.take(0)) =~= old(out)@);
    }
    let mut i: usize = 0;
    while i < n
        invariant
            i <= n,
            n == s@.len(),
            out@ == old(out)@ + spec_escape(s@.take(i as int)),
        decreases n - i,
    {
        let c = s.get_char(i);
        proof {
            assert(s@.take(i as int + 1) =~= s@.take(i as int).push(s@[i as int]));
            lemma_escape_snoc(s@.take(i as int), s@[i as int]);
        }
        if c == '"' {
            out.append("\\\"");
            proof {
                reveal_strlit("\\\"");
                assert(out@ =~= old(out)@ + spec_escape(s@.take(i as int + 1)));
            }
        } else if c == '\\' {
            out.append("\\\\");
            proof {
                reveal_strlit("\\\\");
                assert(out@ =~= old(out)@ + spec_escape(s@.take(i as int + 1)));
            }
        } else {
            let piece = s.substring_char(i, i + 1);
            out.append(piece);
            proof {
                assert(piece@ =~= esc_char(s@[i as int]));
                assert(out@ =~= old(out)@ + spec_escape(s@.take(i as int + 1)));
            }
        }
        i = i + 1;
    }
    proof {
        assert(s@.take(n as int) =~= s@);
    }
}

/// Appends a quoted field: the escaped content followed by the closing
/// quote.
fn append_field(out: &mut String, s: &str)
    ensures
        final(out)@ == old(out)@ + encode_string(s@),
{
    append_escaped(out, s);
    out.append("\"");
    proof {
        reveal_strlit("\"");
        assert("\""@ =~= seq!['"']);
        assert(out@ =~= old(out)@ + encode_string(s@));
    }
}

impl Message {
    /// Encodes this message as one wire frame.
    pub fn serialise(&self) -> (r: String)
        ensures
            r@ == spec_encode(self@),
    {
        let mut out = String::new();
        match self {
            Message::Hail { name, address } => {
                out.append("{\"Hail\":{\"name\":\"");
                append_field(&mut out, name.as_str());
                out.append(",\"address\":\"");
                append_field(&mut out, address.as_str());
                out.append("}}");
            },
            Message::Pair { originator, destination } => {
                out.append("{\"Pair\":{\"originator\":\"");
                append_field(&mut out, originator.as_str());
                out.append(",\"destination\":\"");
                append_field(&mut out, destination.as_str());
                out.append("}}");
            },
            Message::Link { origin_name, destination_name, address } => {
                out.append("{\"Link\":{\"origin_name\":\"");
                append_field(&mut out, origin_name.as_str());
                out.append(",\"destination_name\":\"");
                append_field(&mut out, destination_name.as_str());
                out.append(",\"address\":\"");
                append_field(&mut out, address.as_str());
                out.append("}}");
            },
            Message::Fail { offender, explanation } => {
                out.append("{\"Fail\":{\"offender\":\"");
                append_field(&mut out, offender.as_str());
                out.append(",\"explanation\":\"");
                append_field(&mut out, explanation.as_str());
                out.append("}}");
            },
            Message::Data { payload } => {
                out.append("{\"Data\":{\"payload\":\"");
                append_field(&mut out, payload.as_str());
                out.append("}}");
            },
        }
        proof {
            assert(out@ =~= spec_encode(self@)) by {
                assert(Seq::<char>::empty() + "{\"Hail\":{\"name\":\""@ =~= "{\"Hail\":{\"name\":\""@);
                assert(Seq::<char>::empty() + "{\"Pair\":{\"originator\":\""@ =~= "{\"Pair\":{\"originator\":\""@);
                assert(Seq::<char>::empty() + "{\"Link\":{\"origin_name\":\""@ =~= "{\"Link\":{\"origin_name\":\""@);
                assert(Seq::<char>::empty() + "{\"Fail\":{\"offender\":\""@ =~= "{\"Fail\":{\"offender\":\""@);
                assert(Seq::<char>::empty() + "{\"Data\":{\"payload\":\""@ =~= "{\"Data\":{\"payload\":\""@);
            };
        }
        out
    }
}

// ---------------------------------------------------------------------------
// Executable decoder
// ---------------------------------------------------------------------------

/// Matches the literal `lit` at character position `pos` of `s`, returning
/// the position just past it.
fn match_lit(s: &str, pos: usize, lit: &str) -> (r: Option<usize>)
    requires
        pos <= s@.len(),
    ensures
        match r {
            Some(p2) => p2 == pos + lit@.len() && p2 <= s@.len() && take_prefix(
                s@.skip(pos as int),
                lit@,
            ) == Some(s@.skip(p2 as int)),
            None => take_prefix(s@.skip(pos as int), lit@) is None,
        },
{
    let slen = s.unicode_len();
    let llen = lit.unicode_len();
    if llen > slen - pos {
        return None;
    }
    let ghost rest = s@.skip(pos as int);
    let mut i: usize = 0;
    while i < llen
        invariant
            i <= llen,
            llen == lit@.len(),
            slen == s@.len(),
            pos + llen <= slen,
            rest == s@.skip(pos as int),
            forall|j: int| 0 <= j < i ==> rest[j] == lit@[j],
        decreases llen - i,
    {
        let cs = s.get_char(pos + i);
        let cl = lit.get_char(i);
        proof {
            assert(rest[i as int] == s@[pos + i]);
        }
        if cs != cl {
            proof {
                assert(rest.take(llen as int)[i as int] == rest[i as int]);
                assert(rest.take(llen as int) != lit@);
            }
            return None;
        }
        i = i + 1;
    }
    proof {
        assert(rest.take(llen as int) =~= lit@);
        assert(rest.skip(llen as int) =~= s@.skip(pos + llen));
    }
    Some(pos + llen)
}

/// Scans a quoted field starting at character position `pos` of `s`:
/// unescapes up to the closing quote and returns the content together with
/// the position just past the quote.
fn scan_string(s: &str, pos: usize) -> (r: Option<(String, usize)>)
    requires
        pos <= s@.len(),
    ensures
        match r {
            Some(p) => p.1 <= s@.len() && take_string(s@.skip(pos as int)) == Some(
                (p.0@, s@.skip(p.1 as int)),
            ),
            None => take_string(s@.skip(pos as int)) is None,
        },
{
    let slen = s.unicode_len();
    let mut i: usize = pos;
    let mut content = String::new();
    proof {
        assert(content@ =~= Seq::<char>::empty());
    }
    while i < slen
        invariant
            pos <= i <= slen,
            slen == s@.len(),
            match take_string(s@.skip(i as int)) {
                Some(p) => take_string(s@.skip(pos as int)) == Some((content@ + p.0, p.1)),
                None => take_string(s@.skip(pos as int)) is None,
            },
        decreases slen - i,
    {
        let ghost here = s@.skip(i as int);
        proof {
            assert(here.len() == slen - i);
            assert(here[0] == s@[i as int]);
        }
        let c = s.get_char(i);
        if c == '"' {
            proof {
                assert(here.drop_first() =~= s@.skip(i as int + 1));
                assert(take_string(here) == Some((Seq::<char>::empty(), s@.skip(i as int + 1))));
                assert(content@ + Seq::<char>::empty() =~= content@);
            }
            return Some((content, i + 1));
        } else if c == '\\' {
            if i + 1 < slen {
                proof {
                    assert(here[1] == s@[i as int + 1]);
                    assert(here.skip(2) =~= s@.skip(i as int + 2));
                }
                let c2 = s.get_char(i + 1);
                let ghost prev = content@;
                if c2 == '"' {
                    content.append("\"");
                    proof {
                        reveal_strlit("\"");
                        assert(content@ =~= prev + seq![s@[i as int + 1]]);
                    }
                } else if c2 == '\\' {
                    content.append("\\");
                    proof {
                        reveal_strlit("\\");
                        assert(content@ =~= prev + seq![s@[i as int + 1]]);
                    }
                } else {
                    proof {
                        assert(take_string(here) is None);
                    }
                    return None;
                }
                proof {
                    match take_string(s@.skip(i as int + 2)) {
                        Some(p) => {
                            assert(take_string(here) == Some(
                                (seq![s@[i as int + 1]] + p.0, p.1),
                            ));
                            assert(prev + (seq![s@[i as int + 1]] + p.0) =~= content@ + p.0);
                        },
                        None => {},
                    }
                }
                i = i + 2;
            } else {
                proof {
                    assert(here.len() == 1);
                    assert(take_string(here) is None);
                }
                return None;
            }
        } else {
            let piece = s.substring_char(i, i + 1);
            proof {
                assert(piece@ =~= seq![s@[i as int]]);
            }
            let ghost prev = content@;
            content.append(piece);
            proof {
                assert(content@ == prev + seq![s@[i as int]]);
                assert(here.drop_first() =~= s@.skip(i as int + 1));
                match take_string(s@.skip(i as int + 1)) {
                    Some(p) => {
                        assert(take_string(here) == Some((seq![s@[i as int]] + p.0, p.1)));
                        assert(prev + (seq![s@[i as int]] + p.0) =~= content@ + p.0);
                    },
                    None => {},
                }
            }
            i = i + 1;
        }
    }
    proof {
        assert(s@.skip(slen as int) =~= Seq::<char>::empty());
        assert(take_string(s@.skip(i as int)) is None);
    }
    None
}

/// Parses a one-field record: `head`, one quoted field, the closing braces,
/// and nothing further.
fn parse_one(s: &str, head: &str) -> (r: Option<String>)
    ensures
        match r {
            Some(f) => decode_one(s@, head@) == Some(f@),
            None => decode_one(s@, head@) is None,
        },
{
    proof {
        assert(s@.skip(0) =~= s@);
    }
    match match_lit(s, 0, head) {
        None => None,
        Some(p1) => match scan_string(s, p1) {
            None => None,
            Some((f1, p2)) => match match_lit(s, p2, "}}") {
                None => None,
                Some(p3) => if p3 == s.unicode_len() {
                    proof {
                        assert(s@.skip(p3 as int) =~= Seq::<char>::empty());
                    }
                    Some(f1)
                } else {
                    proof {
                        assert(s@.skip(p3 as int).len() > 0);
                    }
                    None
                },
            },
        },
    }
}

/// Parses a two-field record: `head`, a quoted field, `sep`, a second quoted
/// field, the closing braces, and nothing further.
fn parse_two(s: &str, head: &str, sep: &str) -> (r: Option<(String, String)>)
    ensures
        match r {
            Some(p) => decode_two(s@, head@, sep@) == Some((p.0@, p.1@)),
            None => decode_two(s@, head@, sep@) is None,
        },
{
    proof {
        assert(s@.skip(0) =~= s@);
    }
    match match_lit(s, 0, head) {
        None => None,
        Some(p1) => match scan_string(s, p1) {
            None => None,
            Some((f1, p2)) => match match_lit(s, p2, sep) {
                None => None,
                Some(p3) => match scan_string(s, p3) {
                    None => None,
                    Some((f2, p4)) => match match_lit(s, p4, "}}") {
                        None => None,
                        Some(p5) => if p5 == s.unicode_len() {
                            proof {
                                assert(s@.skip(p5 as int) =~= Seq::<char>::empty());
                            }
                            Some((f1, f2))
                        } else {
                            proof {
                                assert(s@.skip(p5 as int).len() > 0);
                            }
                            None
                        },
                    },
                },
            },
        },
    }
}

/// Parses a three-field record.
fn parse_three(s: &str, head: &str, sep1: &str, sep2: &str) -> (r: Option<(String, String, String)>)
    ensures
        match r {
            Some(t) => decode_three(s@, head@, sep1@, sep2@) == Some((t.0@, t.1@, t.2@)),
            None => decode_three(s@, head@, sep1@, sep2@) is None,
        },
{
    proof {
        assert(s@.skip(0) =~= s@);
    }
    match match_lit(s, 0, head) {
        None => None,
        Some(p1) => match scan_string(s, p1) {
            None => None,
            Some((f1, p2)) => match match_lit(s, p2, sep1) {
                None => None,
                Some(p3) => match scan_string(s, p3) {
                    None => None,
                    Some((f2, p4)) => match match_lit(s, p4, sep2) {
                        None => None,
                        Some(p5) => match scan_string(s, p5) {
                            None => None,
                            Some((f3, p6)) => match match_lit(s, p6, "}}") {
                                None => None,
                                Some(p7) => if p7 == s.unicode_len() {
                                    proof {
                                        assert(s@.skip(p7 as int) =~= Seq::<char>::empty());
                                    }
                                    Some((f1, f2, f3))
                                } else {
                                    proof {
                                        assert(s@.skip(p7 as int).len() > 0);
                                    }
                                    None
                                },
                            },
                        },
                    },
                },
            },
        },
    }
}

impl Message {
    /// Decodes one wire frame, if it is well-formed.
    pub fn try_deserialise(s: &str) -> (r: Option<Message>)
        ensures
            crate::message::opt_view(r) == spec_decode(s@),
    {
        if let Some((name, address)) = parse_two(s, "{\"Hail\":{\"name\":\"", ",\"address\":\"") {
            Some(Message::Hail { name, address })
        } else if let Some((originator, destination)) = parse_two(
            s,
            "{\"Pair\":{\"originator\":\"",
            ",\"destination\":\"",
        ) {
            Some(Message::Pair { originator, destination })
        } else if let Some((origin_name, destination_name, address)) = parse_three(
            s,
            "{\"Link\":{\"origin_name\":\"",
            ",\"destination_name\":\"",
            ",\"address\":\"",
        ) {
            Some(Message::Link { origin_name, destination_name, address })
        } else if let Some((offender, explanation)) = parse_two(
            s,
            "{\"Fail\":{\"offender\":\"",
            ",\"explanation\":\"",
        ) {
            Some(Message::Fail { offender, explanation })
        } else if let Some(payload) = parse_one(s, "{\"Data\":{\"payload\":\"") {
            Some(Message::Data { payload })
        } else {
            None
        }
    }

    /// Decodes one wire frame known to be well-formed. A malformed frame is
    /// corruption, which this library's callers treat as fatal; they are
    /// expected to have checked the frame, so decoding here cannot fail.
    pub fn deserialise(encoded: String) -> (r: Message)
        requires
            spec_decode(encoded@) is Some,
        ensures
            Some(r@) == spec_decode(encoded@),
    {
        match Message::try_deserialise(encoded.as_str()) {
            Some(m) => m,
            None => vstd::pervasive::unreached(),
        }
    }
}

/// The outcome of one bounded-time read on a channel: nothing was waiting,
/// a frame arrived and decoded, or a frame arrived and did not decode.
#[derive(Debug)]
pub enum Reception {
    /// The read timed out with nothing waiting: a normal outcome.
    NoMessage,
    /// A frame arrived but is not a well-formed encoding: corruption,
    /// fatal to the process.
    Corrupted,
    /// A well-formed frame arrived.
    Arrived(Message),
}

/// Interprets one raw read from a channel: an empty read means "no
/// message", anything else must decode to a message or is corruption.
pub fn interpret_frame(raw: &str) -> (r: Reception)
    ensures
        (raw@.len() == 0) <==> (r is NoMessage),
        (raw@.len() != 0 && spec_decode(raw@) is None) <==> (r is Corrupted),
        (raw@.len() != 0 && spec_decode(raw@) is Some) <==> (r is Arrived),
        match r {
            Reception::Arrived(m) => spec_decode(raw@) == Some(m@),
            _ => true,
        },
{
    if raw.unicode_len() == 0 {
        Reception::NoMessage
    } else {
        match Message::try_deserialise(raw) {
            Some(m) => Reception::Arrived(m),
            None => Reception::Corrupted,
        }
    }
}

// ---------------------------------------------------------------------------
// The codec round trip
// ---------------------------------------------------------------------------

/// A literal at the front of exactly itself-plus-remainder is consumed.
proof fn lemma_take_prefix_concat(lit: Seq<char>, rest: Seq<char>)
    ensures
        take_prefix(lit + rest, lit) == Some(rest),
{
    assert((lit + rest).take(lit.len() as int) =~= lit);
    assert((lit + rest).skip(lit.len() as int) =~= rest);
}

/// A quoted field is scanned back to exactly its content.
proof fn lemma_take_string_encoded(content: Seq<char>, rest: Seq<char>)
    ensures
        take_string(encode_string(content) + rest) == Some((content, rest)),
    decreases content.len(),
{
    let s = encode_string(content) + rest;
    if content.len() == 0 {
        assert(spec_escape(content) == Seq::<char>::empty());
        assert(s =~= seq!['"'] + rest);
        assert(s[0] == '"');
        assert(s.drop_first() =~= rest);
        assert(take_string(s) == Some((Seq::<char>::empty(), rest)));
    } else {
        let c0 = content[0];
        let tail = content.drop_first();
        lemma_take_string_encoded(tail, rest);
        let s2 = encode_string(tail) + rest;
        assert(spec_escape(content) == esc_char(c0) + spec_escape(tail));
        if c0 == '"' || c0 == '\\' {
            assert(s.len() >= 2);
            assert(s[0] == '\\');
            assert(s[1] == c0);
            assert(s.skip(2) =~= s2);
            assert(seq![c0] + tail =~= content);
            assert(take_string(s) == Some((content, rest)));
        } else {
            assert(s[0] == c0);
            assert(s.drop_first() =~= s2);
            assert(seq![c0] + tail =~= content);
            assert(take_string(s) == Some((content, rest)));
        }
    }
}

/// A frame that differs from a literal inside the literal's span does not
/// begin with it.
proof fn lemma_prefix_differs(s: Seq<char>, lit: Seq<char>, i: int)
    requires
        0 <= i < lit.len(),
        i < s.len(),
        s[i] != lit[i],
    ensures
        take_prefix(s, lit) is None,
{
    if lit.len() <= s.len() {
        assert(s.take(lit.len() as int)[i] == s[i]);
    }
}

/// A two-field frame decodes back to its two fields.
proof fn lemma_decode_encoded_two(
    head: Seq<char>,
    f1: Seq<char>,
    sep: Seq<char>,
    f2: Seq<char>,
)
    ensures
        decode_two(
            head + encode_string(f1) + sep + encode_string(f2) + "}}"@,
            head,
            sep,
        ) == Some((f1, f2)),
{
    let tail = "}}"@;
    let enc = head + encode_string(f1) + sep + encode_string(f2) + tail;
    let r1 = encode_string(f1) + (sep + (encode_string(f2) + tail));
    assert(enc =~= head + r1);
    lemma_take_prefix_concat(head, r1);
    lemma_take_string_encoded(f1, sep + (encode_string(f2) + tail));
    lemma_take_prefix_concat(sep, encode_string(f2) + tail);
    lemma_take_string_encoded(f2, tail);
    lemma_take_prefix_concat(tail, Seq::empty());
    assert(tail + Seq::<char>::empty() =~= tail);
}

/// A one-field frame decodes back to its field.
proof fn lemma_decode_encoded_one(head: Seq<char>, f1: Seq<char>)
    ensures
        decode_one(head + encode_string(f1) + "}}"@, head) == Some(f1),
{
    let tail = "}}"@;
    let enc = head + encode_string(f1) + tail;
    let r1 = encode_string(f1) + tail;
    assert(enc =~= head + r1);
    lemma_take_prefix_concat(head, r1);
    lemma_take_string_encoded(f1, tail);
    lemma_take_prefix_concat(tail, Seq::empty());
    assert(tail + Seq::<char>::empty() =~= tail);
}

/// A three-field frame decodes back to its three fields.
proof fn lemma_decode_encoded_three(
    head: Seq<char>,
    f1: Seq<char>,
    sep1: Seq<char>,
    f2: Seq<char>,
    sep2: Seq<char>,
    f3: Seq<char>,
)
    ensures
        decode_three(
            head + encode_string(f1) + sep1 + encode_string(f2) + sep2 + encode_string(f3)
                + "}}"@,
            head,
            sep1,
            sep2,
        ) == Some((f1, f2, f3)),
{
    let tail = "}}"@;
    let enc = head + encode_string(f1) + sep1 + encode_string(f2) + sep2 + encode_string(f3)
        + tail;
    let r1 = encode_string(f1) + (sep1 + (encode_string(f2) + (sep2 + (encode_string(f3)
        + tail))));
    assert(enc =~= head + r1);
    lemma_take_prefix_concat(head, r1);
    lemma_take_string_encoded(f1, sep1 + (encode_string(f2) + (sep2 + (encode_string(f3) + tail))));
    lemma_take_prefix_concat(sep1, encode_string(f2) + (sep2 + (encode_string(f3) + tail)));
    lemma_take_string_encoded(f2, sep2 + (encode_string(f3) + tail));
    lemma_take_prefix_concat(sep2, encode_string(f3) + tail);
    lemma_take_string_encoded(f3, tail);
    lemma_take_prefix_concat(tail, Seq::empty());
    assert(tail + Seq::<char>::empty() =~= tail);
}

/// The frame of any message carries that variant's tag character just after
/// the opening brace and quote, so no other variant's template matches it.
proof fn lemma_heads_reveal()
    ensures
        "{\"Hail\":{\"name\":\""@[2] == 'H' && "{\"Hail\":{\"name\":\""@.len() == 17,
        "{\"Pair\":{\"originator\":\""@[2] == 'P' && "{\"Pair\":{\"originator\":\""@.len() == 23,
        "{\"Link\":{\"origin_name\":\""@[2] == 'L' && "{\"Link\":{\"origin_name\":\""@.len() == 24,
        "{\"Fail\":{\"offender\":\""@[2] == 'F' && "{\"Fail\":{\"offender\":\""@.len() == 21,
        "{\"Data\":{\"payload\":\""@[2] == 'D' && "{\"Data\":{\"payload\":\""@.len() == 20,
{
    reveal_strlit("{\"Hail\":{\"name\":\"");
    reveal_strlit("{\"Pair\":{\"originator\":\"");
    reveal_strlit("{\"Link\":{\"origin_name\":\"");
    reveal_strlit("{\"Fail\":{\"offender\":\"");
    reveal_strlit("{\"Data\":{\"payload\":\"");
}

/// A consumed literal really stood at the front.
proof fn lemma_take_prefix_sound(s: Seq<char>, lit: Seq<char>, r: Seq<char>)
    requires
        take_prefix(s, lit) == Some(r),
    ensures
        s == lit + r,
{
    assert(s =~= s.take(lit.len() as int) + s.skip(lit.len() as int));
}

/// A scanned field really stood at the front, in its escaped and quoted
/// form: the scanner accepts nothing the encoder would not produce.
proof fn lemma_take_string_sound(s: Seq<char>, content: Seq<char>, rest: Seq<char>)
    requires
        take_string(s) == Some((content, rest)),
    ensures
        s == encode_string(content) + rest,
    decreases s.len(),
{
    if s[0] == '"' {
        assert(content =~= Seq::<char>::empty());
        assert(spec_escape(content) == Seq::<char>::empty());
        assert(s =~= encode_string(content) + rest);
    } else if s[0] == '\\' {
        let (c2, r2) = take_string(s.skip(2)).unwrap();
        lemma_take_string_sound(s.skip(2), c2, r2);
        assert(content == seq![s[1]] + c2);
        assert(content[0] == s[1]);
        assert(content.drop_first() =~= c2);
        assert(spec_escape(content) == esc_char(s[1]) + spec_escape(c2));
        assert(esc_char(s[1]) == seq!['\\', s[1]]);
        assert(encode_string(content) =~= seq!['\\', s[1]] + encode_string(c2));
        assert(s =~= seq!['\\', s[1]] + s.skip(2));
        assert(s =~= (seq!['\\', s[1]] + encode_string(c2)) + rest);
        assert(s =~= encode_string(content) + rest);
    } else {
        let (c2, r2) = take_string(s.drop_first()).unwrap();
        lemma_take_string_sound(s.drop_first(), c2, r2);
        assert(content == seq![s[0]] + c2);
        assert(content[0] == s[0]);
        assert(content.drop_first() =~= c2);
        assert(spec_escape(content) == esc_char(s[0]) + spec_escape(c2));
        assert(esc_char(s[0]) == seq![s[0]]);
        assert(encode_string(content) =~= seq![s[0]] + encode_string(c2));
        assert(s =~= seq![s[0]] + s.drop_first());
        assert(s =~= (seq![s[0]] + encode_string(c2)) + rest);
        assert(s =~= encode_string(content) + rest);
    }
}

/// A decoded two-field frame is the encoding of its fields.
proof fn lemma_decode_two_sound(s: Seq<char>, head: Seq<char>, sep: Seq<char>)
    requires
        decode_two(s, head, sep) is Some,
    ensures
        s == head + encode_string(decode_two(s, head, sep).unwrap().0) + sep + encode_string(
            decode_two(s, head, sep).unwrap().1,
        ) + "}}"@,
{
    let r1 = take_prefix(s, head).unwrap();
    let (f1, m1) = take_string(r1).unwrap();
    let r2 = take_prefix(m1, sep).unwrap();
    let (f2, m2) = take_string(r2).unwrap();
    let r3 = take_prefix(m2, "}}"@).unwrap();
    lemma_take_prefix_sound(s, head, r1);
    lemma_take_string_sound(r1, f1, m1);
    lemma_take_prefix_sound(m1, sep, r2);
    lemma_take_string_sound(r2, f2, m2);
    lemma_take_prefix_sound(m2, "}}"@, r3);
    assert(r3 =~= Seq::<char>::empty());
    assert(m2 =~= "}}"@);
    assert(s =~= head + encode_string(f1) + sep + encode_string(f2) + "}}"@);
}

/// A decoded one-field frame is the encoding of its field.
proof fn lemma_decode_one_sound(s: Seq<char>, head: Seq<char>)
    requires
        decode_one(s, head) is Some,
    ensures
        s == head + encode_string(decode_one(s, head).unwrap()) + "}}"@,
{
    let r1 = take_prefix(s, head).unwrap();
    let (f1, m1) = take_string(r1).unwrap();
    let r2 = take_prefix(m1, "}}"@).unwrap();
    lemma_take_prefix_sound(s, head, r1);
    lemma_take_string_sound(r1, f1, m1);
    lemma_take_prefix_sound(m1, "}}"@, r2);
    assert(r2 =~= Seq::<char>::empty());
    assert(m1 =~= "}}"@);
    assert(s =~= head + encode_string(f1) + "}}"@);
}

/// A decoded three-field frame is the encoding of its fields.
proof fn lemma_decode_three_sound(s: Seq<char>, head: Seq<char>, sep1: Seq<char>, sep2: Seq<char>)
    requires
        decode_three(s, head, sep1, sep2) is Some,
    ensures
        s == head + encode_string(decode_three(s, head, sep1, sep2).unwrap().0) + sep1
            + encode_string(decode_three(s, head, sep1, sep2).unwrap().1) + sep2 + encode_string(
            decode_three(s, head, sep1, sep2).unwrap().2,
        ) + "}}"@,
{
    let r1 = take_prefix(s, head).unwrap();
    let (f1, m1) = take_string(r1).unwrap();
    let r2 = take_prefix(m1, sep1).unwrap();
    let (f2, m2) = take_string(r2).unwrap();
    let r3 = take_prefix(m2, sep2).unwrap();
    let (f3, m3) = take_string(r3).unwrap();
    let r4 = take_prefix(m3, "}}"@).unwrap();
    lemma_take_prefix_sound(s, head, r1);
    lemma_take_string_sound(r1, f1, m1);
    lemma_take_prefix_sound(m1, sep1, r2);
    lemma_take_string_sound(r2, f2, m2);
    lemma_take_prefix_sound(m2, sep2, r3);
    lemma_take_string_sound(r3, f3, m3);
    lemma_take_prefix_sound(m3, "}}"@, r4);
    assert(r4 =~= Seq::<char>::empty());
    assert(m3 =~= "}}"@);
    assert(s =~= head + encode_string(f1) + sep1 + encode_string(f2) + sep2 + encode_string(f3)
        + "}}"@);
}

/// The decoder accepts nothing but the encoder's frames: a frame that
/// decodes to a message is, character for character, that message's own
/// encoding. Together with the round trip this makes encoding a bijection
/// between messages and the frames the decoder accepts.
pub proof fn lemma_decode_exact(s: Seq<char>, m: MessageView)
    requires
        spec_decode(s) == Some(m),
    ensures
        s == spec_encode(m),
{
    if decode_two(s, "{\"Hail\":{\"name\":\""@, ",\"address\":\""@) is Some {
        lemma_decode_two_sound(s, "{\"Hail\":{\"name\":\""@, ",\"address\":\""@);
    } else if decode_two(s, "{\"Pair\":{\"originator\":\""@, ",\"destination\":\""@) is Some {
        lemma_decode_two_sound(s, "{\"Pair\":{\"originator\":\""@, ",\"destination\":\""@);
    } else if decode_three(
        s,
        "{\"Link\":{\"origin_name\":\""@,
        ",\"destination_name\":\""@,
        ",\"address\":\""@,
    ) is Some {
        lemma_decode_three_sound(
            s,
            "{\"Link\":{\"origin_name\":\""@,
            ",\"destination_name\":\""@,
            ",\"address\":\""@,
        );
    } else if decode_two(s, "{\"Fail\":{\"offender\":\""@, ",\"explanation\":\""@) is Some {
        lemma_decode_two_sound(s, "{\"Fail\":{\"offender\":\""@, ",\"explanation\":\""@);
    } else {
        lemma_decode_one_sound(s, "{\"Data\":{\"payload\":\""@);
    }
}

/// Round trip: every message is reproduced, discriminant and every field,
/// by decoding its own encoding.
pub proof fn lemma_round_trip(m: MessageView)
    ensures
        spec_decode(spec_encode(m)) == Some(m),
{
    lemma_heads_reveal();
    let enc = spec_encode(m);
    match m {
        MessageView::Hail { name, address } => {
            lemma_decode_encoded_two("{\"Hail\":{\"name\":\""@, name, ",\"address\":\""@, address);
        },
        MessageView::Pair { originator, destination } => {
            assert(enc[2] == 'P');
            lemma_prefix_differs(enc, "{\"Hail\":{\"name\":\""@, 2);
            lemma_decode_encoded_two(
                "{\"Pair\":{\"originator\":\""@,
                originator,
                ",\"destination\":\""@,
                destination,
            );
        },
        MessageView::Link { origin_name, destination_name, address } => {
            assert(enc[2] == 'L');
            lemma_prefix_differs(enc, "{\"Hail\":{\"name\":\""@, 2);
            lemma_prefix_differs(enc, "{\"Pair\":{\"originator\":\""@, 2);
            lemma_decode_encoded_three(
                "{\"Link\":{\"origin_name\":\""@,
                origin_name,
                ",\"destination_name\":\""@,
                destination_name,
                ",\"address\":\""@,
                address,
            );
        },
        MessageView::Fail { offender, explanation } => {
            assert(enc[2] == 'F');
            lemma_prefix_differs(enc, "{\"Hail\":{\"name\":\""@, 2);
            lemma_prefix_differs(enc, "{\"Pair\":{\"originator\":\""@, 2);
            lemma_prefix_differs(enc, "{\"Link\":{\"origin_name\":\""@, 2);
            lemma_decode_encoded_two(
                "{\"Fail\":{\"offender\":\""@,
                offender,
                ",\"explanation\":\""@,
                explanation,
            );
        },
        MessageView::Data { payload } => {
            assert(enc[2] == 'D');
            lemma_prefix_differs(enc, "{\"Hail\":{\"name\":\""@, 2);
            lemma_prefix_differs(enc, "{\"Pair\":{\"originator\":\""@, 2);
            lemma_prefix_differs(enc, "{\"Link\":{\"origin_name\":\""@, 2);
            lemma_prefix_differs(enc, "{\"Fail\":{\"offender\":\""@, 2);
            lemma_decode_encoded_one("{\"Data\":{\"payload\":\""@, payload);
        },
    }
}

} // verus!
