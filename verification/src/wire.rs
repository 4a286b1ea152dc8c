//! Construction of the JSON request body that opens a completion stream.
//!
//! The body is built as UTF-8 bytes: string values are escaped the way a
//! JSON emitter must (quote, backslash and control characters), the seed
//! is rendered in decimal, and everything else is fixed framing.

use vstd::prelude::*;
use vstd::string::StrSliceExecFns;
use vstd::string::StringSliceAdditionalSpecFns;
use vstd::utf8::encode_utf8;

use crate::history::PromptMessage;
use crate::history::Role;

verus! {

/// The lowercase hexadecimal digit for a value below sixteen.
pub open spec fn hex_digit(d: int) -> u8 {
    if d < 10 {
        (48 + d) as u8
    } else {
        (87 + d) as u8
    }
}

/// How one byte of a string value appears inside a JSON string literal:
/// quote and backslash are escaped, control characters get their short
/// escape or a `\u00..` escape, everything else stands as it is.
pub open spec fn escaped_byte(b: u8) -> Seq<u8> {
    if b == 34 {
        seq![92u8, 34u8]
    } else if b == 92 {
        seq![92u8, 92u8]
    } else if b == 8 {
        seq![92u8, 98u8]
    } else if b == 12 {
        seq![92u8, 102u8]
    } else if b == 10 {
        seq![92u8, 110u8]
    } else if b == 13 {
        seq![92u8, 114u8]
    } else if b == 9 {
        seq![92u8, 116u8]
    } else if b < 32 {
        seq![92u8, 117u8, 48u8, 48u8, hex_digit(b as int / 16), hex_digit(b as int % 16)]
    } else {
        seq![b]
    }
}

/// A whole string value, escaped byte for byte.
pub open spec fn escaped(s: Seq<u8>) -> Seq<u8>
    decreases s.len(),
{
    if s.len() == 0 {
        Seq::empty()
    } else {
        escaped_byte(s[0]) + escaped(s.drop_first())
    }
}

/// A JSON string literal: the escaped bytes between two quotes.
pub open spec fn quoted(s: Seq<u8>) -> Seq<u8> {
    seq![34u8] + escaped(s) + seq![34u8]
}

/// The decimal rendering of a non-negative number.
pub open spec fn dec_bytes(n: int) -> Seq<u8>
    decreases n,
{
    if n < 10 {
        seq![(48 + n) as u8]
    } else {
        dec_bytes(n / 10) + seq![(48 + n % 10) as u8]
    }
}

/// The opening framing of one message object, fixed by the role.
pub open spec fn role_part(r: Role) -> Seq<u8> {
    match r {
        Role::System => ("{\"role\":\"system\",\"content\":").spec_bytes(),
        Role::User => ("{\"role\":\"user\",\"content\":").spec_bytes(),
        Role::Assistant => ("{\"role\":\"assistant\",\"content\":").spec_bytes(),
    }
}

/// One message as a JSON object: role framing, quoted content, brace.
pub open spec fn message_json(m: PromptMessage) -> Seq<u8> {
    role_part(m.role) + quoted(encode_utf8(m.content@)) + ("}").spec_bytes()
}

/// Every message after the first, each preceded by a comma.
pub open spec fn messages_tail_json(msgs: Seq<PromptMessage>) -> Seq<u8>
    decreases msgs.len(),
{
    if msgs.len() == 0 {
        Seq::empty()
    } else {
        seq![44u8] + message_json(msgs[0]) + messages_tail_json(msgs.drop_first())
    }
}

/// The comma-separated message objects of a JSON array.
pub open spec fn messages_json(msgs: Seq<PromptMessage>) -> Seq<u8> {
    if msgs.len() == 0 {
        Seq::empty()
    } else {
        message_json(msgs[0]) + messages_tail_json(msgs.drop_first())
    }
}

/// The whole request body: model, message array, fixed sampling
/// temperature, the caller's seed, and the flags that ask for a stream
/// with prompt caching.
pub open spec fn request_body_spec(model: Seq<char>, msgs: Seq<PromptMessage>, seed: u32) -> Seq<
    u8,
> {
    ("{\"model\":").spec_bytes() + quoted(encode_utf8(model)) + (",\"messages\":[").spec_bytes()
        + messages_json(msgs) + ("],\"temperature\":0.8,\"seed\":").spec_bytes() + dec_bytes(
        seed as int,
    ) + (",\"stream\":true,\"cache_prompt\":true}").spec_bytes()
}

proof fn lemma_escaped_snoc(s: Seq<u8>, b: u8)
    ensures
        escaped(s.push(b)) == escaped(s) + escaped_byte(b),
    decreases s.len(),
{
    if s.len() == 0 {
        assert(s.push(b)[0] == b);
        assert(s.push(b).drop_first() =~= Seq::<u8>::empty());
        assert(escaped(s.push(b).drop_first()) == Seq::<u8>::empty());
        assert(escaped(s.push(b)) == escaped_byte(b) + Seq::<u8>::empty());
        assert(escaped(s.push(b)) =~= escaped(s) + escaped_byte(b));
    } else {
        assert(s.push(b)[0] == s[0]);
        assert(s.push(b).drop_first() =~= s.drop_first().push(b));
        lemma_escaped_snoc(s.drop_first(), b);
        assert(escaped(s.push(b)) == escaped_byte(s[0]) + escaped(s.drop_first().push(b)));
        assert(escaped(s.push(b)) == escaped_byte(s[0]) + (escaped(s.drop_first())
            + escaped_byte(b)));
        assert(escaped_byte(s[0]) + (escaped(s.drop_first()) + escaped_byte(b)) =~= (escaped_byte(
            s[0],
        ) + escaped(s.drop_first())) + escaped_byte(b));
    }
}

/// Appends the bytes of a literal piece of framing.
fn push_lit(out: &mut Vec<u8>, lit: &str)
    ensures
        final(out)@ == old(out)@ + lit.spec_bytes(),
{
    let bs = lit.as_bytes_vec();
    let mut i: usize = 0;
    while i < bs.len()
        invariant
            i <= bs@.len(),
            bs@ == lit.spec_bytes(),
            out@ == old(out)@ + bs@.subrange(0, i as int),
        decreases bs@.len() - i,
    {
        out.push(bs[i]);
        proof {
            assert(out@ =~= old(out)@ + bs@.subrange(0, i as int + 1));
        }
        i = i + 1;
    }
    proof {
        assert(old(out)@ + bs@.subrange(0, bs@.len() as int) =~= old(out)@ + bs@);
    }
}

/// Appends one escaped byte of a string value.
fn push_escaped_byte(out: &mut Vec<u8>, b: u8)
    ensures
        final(out)@ == old(out)@ + escaped_byte(b),
{
    if b == 34 {
        out.push(92);
        out.push(34);
    } else if b == 92 {
        out.push(92);
        out.push(92);
    } else if b == 8 {
        out.push(92);
        out.push(98);
    } else if b == 12 {
        out.push(92);
        out.push(102);
    } else if b == 10 {
        out.push(92);
        out.push(110);
    } else if b == 13 {
        out.push(92);
        out.push(114);
    } else if b == 9 {
        out.push(92);
        out.push(116);
    } else if b < 32 {
        out.push(92);
        out.push(117);
        out.push(48);
        out.push(48);
        let hi = b / 16;
        let lo = b % 16;
        out.push(if hi < 10 { 48 + hi } else { 87 + hi });
        out.push(if lo < 10 { 48 + lo } else { 87 + lo });
    } else {
        out.push(b);
    }
    proof {
        assert(out@ =~= old(out)@ + escaped_byte(b));
    }
}

/// Appends a string value as a JSON string literal.
fn push_quoted(out: &mut Vec<u8>, s: &str)
    ensures
        final(out)@ == old(out)@ + quoted(s.spec_bytes()),
{
    out.push(34);
    let bs = s.as_bytes_vec();
    proof {
        assert(bs@.subrange(0, 0) =~= Seq::<u8>::empty());
        assert(out@ =~= old(out)@ + seq![34u8] + escaped(bs@.subrange(0, 0)));
    }
    let mut i: usize = 0;
    while i < bs.len()
        invariant
            i <= bs@.len(),
            bs@ == s.spec_bytes(),
            out@ == old(out)@ + seq![34u8] + escaped(bs@.subrange(0, i as int)),
        decreases bs@.len() - i,
    {
        push_escaped_byte(out, bs[i]);
        proof {
            assert(bs@.subrange(0, i as int).push(bs@[i as int]) =~= bs@.subrange(
                0,
                i as int + 1,
            ));
            lemma_escaped_snoc(bs@.subrange(0, i as int), bs@[i as int]);
            assert(out@ =~= old(out)@ + seq![34u8] + escaped(bs@.subrange(0, i as int + 1)));
        }
        i = i + 1;
    }
    out.push(34);
    proof {
        assert(bs@.subrange(0, bs@.len() as int) =~= bs@);
        assert(out@ =~= old(out)@ + quoted(s.spec_bytes()));
    }
}

/// Appends the decimal rendering of the seed.
fn push_dec(out: &mut Vec<u8>, n: u32)
    ensures
        final(out)@ == old(out)@ + dec_bytes(n as int),
    decreases n,
{
    if n >= 10 {
        push_dec(out, n / 10);
    }
    out.push(48 + (n % 10) as u8);
    proof {
        assert(out@ =~= old(out)@ + dec_bytes(n as int));
    }
}

/// Appends one message as a JSON object.
fn push_message(out: &mut Vec<u8>, m: &PromptMessage)
    ensures
        final(out)@ == old(out)@ + message_json(*m),
{
    match m.role {
        Role::System => push_lit(out, "{\"role\":\"system\",\"content\":"),
        Role::User => push_lit(out, "{\"role\":\"user\",\"content\":"),
        Role::Assistant => push_lit(out, "{\"role\":\"assistant\",\"content\":"),
    }
    push_quoted(out, m.content.as_str());
    push_lit(out, "}");
    proof {
        assert(out@ =~= old(out)@ + message_json(*m));
    }
}

proof fn lemma_messages_tail_snoc(s: Seq<PromptMessage>, m: PromptMessage)
    ensures
        messages_tail_json(s.push(m)) == messages_tail_json(s) + seq![44u8] + message_json(m),
    decreases s.len(),
{
    if s.len() == 0 {
        assert(s.push(m)[0] == m);
        assert(s.push(m).drop_first() =~= Seq::<PromptMessage>::empty());
        assert(messages_tail_json(Seq::<PromptMessage>::empty()) == Seq::<u8>::empty());
        assert(messages_tail_json(s.push(m)) == seq![44u8] + message_json(m) + Seq::<u8>::empty());
        assert(messages_tail_json(s.push(m)) =~= messages_tail_json(s) + seq![44u8]
            + message_json(m));
    } else {
        assert(s.push(m)[0] == s[0]);
        assert(s.push(m).drop_first() =~= s.drop_first().push(m));
        lemma_messages_tail_snoc(s.drop_first(), m);
        assert(messages_tail_json(s.push(m)) == seq![44u8] + message_json(s[0]) + (
        messages_tail_json(s.drop_first()) + seq![44u8] + message_json(m)));
        assert(messages_tail_json(s.push(m)) =~= messages_tail_json(s) + seq![44u8]
            + message_json(m));
    }
}

proof fn lemma_messages_snoc(s: Seq<PromptMessage>, m: PromptMessage)
    ensures
        s.len() == 0 ==> messages_json(s.push(m)) == message_json(m),
        s.len() != 0 ==> messages_json(s.push(m)) == messages_json(s) + seq![44u8] + message_json(
            m,
        ),
{
    if s.len() == 0 {
        assert(s.push(m)[0] == m);
        assert(s.push(m).drop_first() =~= Seq::<PromptMessage>::empty());
        assert(messages_json(s.push(m)) =~= message_json(m));
    } else {
        assert(s.push(m).drop_first() =~= s.drop_first().push(m));
        lemma_messages_tail_snoc(s.drop_first(), m);
        assert(messages_json(s.push(m)) =~= messages_json(s) + seq![44u8] + message_json(m));
    }
}

/// Builds the whole request body for a model, a message list and a seed.
pub fn build_request_body(model: &str, messages: &Vec<PromptMessage>, seed: u32) -> (body: Vec<
    u8,
>)
    ensures
        body@ == request_body_spec(model@, messages@, seed),
{
    let mut out: Vec<u8> = Vec::new();
    push_lit(&mut out, "{\"model\":");
    push_quoted(&mut out, model);
    push_lit(&mut out, ",\"messages\":[");
    let ghost base = out@;
    proof {
        assert(messages@.subrange(0, 0) =~= Seq::<PromptMessage>::empty());
        assert(out@ =~= base + messages_json(messages@.subrange(0, 0)));
    }
    let mut i: usize = 0;
    while i < messages.len()
        invariant
            i <= messages@.len(),
            out@ == base + messages_json(messages@.subrange(0, i as int)),
        decreases messages@.len() - i,
    {
        if i > 0 {
            out.push(44);
        }
        push_message(&mut out, &messages[i]);
        proof {
            assert(messages@.subrange(0, i as int).push(messages@[i as int]) =~= messages@
                .subrange(0, i as int + 1));
            lemma_messages_snoc(messages@.subrange(0, i as int), messages@[i as int]);
            assert(out@ =~= base + messages_json(messages@.subrange(0, i as int + 1)));
        }
        i = i + 1;
    }
    proof {
        assert(messages@.subrange(0, messages@.len() as int) =~= messages@);
    }
    push_lit(&mut out, "],\"temperature\":0.8,\"seed\":");
    push_dec(&mut out, seed);
    push_lit(&mut out, ",\"stream\":true,\"cache_prompt\":true}");
    proof {
        assert(out@ =~= request_body_spec(model@, messages@, seed));
    }
    out
}

} // verus!
