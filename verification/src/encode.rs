//! Building the engine's JSON request bodies. Each body is UTF-8 JSON
//! bytes: text is copied verbatim inside quotes, with the quote, the
//! backslash and control characters escaped (the latter in the `\u00XX`
//! form). The conversation's messages keep their caller-given order
//! verbatim.
use vstd::prelude::*;
use vstd::utf8::encode_utf8;
use crate::events::ChatMessage;
use crate::events::ChatMessageV;

verus! {

/// The lowercase hexadecimal digit of a value below sixteen.
pub open spec fn hex_digit(n: u8) -> u8 {
    if n < 10 {
        (48 + n) as u8
    } else {
        (87 + n) as u8
    }
}

/// How one byte of a JSON string's text appears on the wire.
pub open spec fn escaped_byte(b: u8) -> Seq<u8> {
    if b == 34 {
        seq![92u8, 34u8]
    } else if b == 92 {
        seq![92u8, 92u8]
    } else if b < 32 {
        seq![92u8, 117u8, 48u8, 48u8, hex_digit(b / 16), hex_digit(b % 16)]
    } else {
        seq![b]
    }
}

/// A JSON string's text on the wire, byte for byte.
pub open spec fn escaped_bytes(s: Seq<u8>) -> Seq<u8>
    decreases s.len(),
{
    if s.len() == 0 {
        Seq::empty()
    } else {
        escaped_bytes(s.drop_last()) + escaped_byte(s.last())
    }
}

/// A whole JSON string: the escaped text in quotes.
pub open spec fn json_string(s: Seq<u8>) -> Seq<u8> {
    seq![34u8] + escaped_bytes(s) + seq![34u8]
}

/// The bytes `{"model":` — the chat body's opening.
pub open spec fn model_key() -> Seq<u8> {
    seq![123u8, 34u8, 109u8, 111u8, 100u8, 101u8, 108u8, 34u8, 58u8]
}

/// The bytes `,"messages":[`.
pub open spec fn messages_key() -> Seq<u8> {
    seq![44u8, 34u8, 109u8, 101u8, 115u8, 115u8, 97u8, 103u8, 101u8, 115u8, 34u8, 58u8, 91u8]
}

/// The bytes `],"stream":true}` — the chat body's closing.
pub open spec fn stream_close() -> Seq<u8> {
    seq![
        93u8,
        44u8,
        34u8,
        115u8,
        116u8,
        114u8,
        101u8,
        97u8,
        109u8,
        34u8,
        58u8,
        116u8,
        114u8,
        117u8,
        101u8,
        125u8,
    ]
}

/// The bytes `{"role":`.
pub open spec fn role_key() -> Seq<u8> {
    seq![123u8, 34u8, 114u8, 111u8, 108u8, 101u8, 34u8, 58u8]
}

/// The bytes `,"content":`.
pub open spec fn content_key() -> Seq<u8> {
    seq![44u8, 34u8, 99u8, 111u8, 110u8, 116u8, 101u8, 110u8, 116u8, 34u8, 58u8]
}

/// The bytes `{"name":` — the pull and delete bodies' opening.
pub open spec fn name_key() -> Seq<u8> {
    seq![123u8, 34u8, 110u8, 97u8, 109u8, 101u8, 34u8, 58u8]
}

/// The bytes `,"stream":true}` without the list close, for the pull body.
pub open spec fn pull_close() -> Seq<u8> {
    seq![
        44u8,
        34u8,
        115u8,
        116u8,
        114u8,
        101u8,
        97u8,
        109u8,
        34u8,
        58u8,
        116u8,
        114u8,
        117u8,
        101u8,
        125u8,
    ]
}

/// One conversation turn on the wire.
pub open spec fn chat_message_json(m: ChatMessageV) -> Seq<u8> {
    role_key() + json_string(encode_utf8(m.role)) + content_key() + json_string(
        encode_utf8(m.content),
    ) + seq![125u8]
}

/// The conversation on the wire: every turn, comma-separated, in the exact
/// order the caller gave — conversation order is significant and kept.
pub open spec fn joined_messages(msgs: Seq<ChatMessageV>) -> Seq<u8>
    decreases msgs.len(),
{
    if msgs.len() == 0 {
        Seq::empty()
    } else if msgs.len() == 1 {
        chat_message_json(msgs[0])
    } else {
        joined_messages(msgs.drop_last()) + seq![44u8] + chat_message_json(msgs.last())
    }
}

/// The whole streaming chat request body.
pub open spec fn chat_body_of(model: Seq<char>, msgs: Seq<ChatMessageV>) -> Seq<u8> {
    model_key() + json_string(encode_utf8(model)) + messages_key() + joined_messages(msgs)
        + stream_close()
}

/// The whole streaming pull request body.
pub open spec fn pull_body_of(name: Seq<char>) -> Seq<u8> {
    name_key() + json_string(encode_utf8(name)) + pull_close()
}

/// The whole delete request body.
pub open spec fn delete_body_of(name: Seq<char>) -> Seq<u8> {
    name_key() + json_string(encode_utf8(name)) + seq![125u8]
}

fn hex_digit_byte(n: u8) -> (r: u8)
    requires
        n < 16,
    ensures
        r == hex_digit(n),
{
    if n < 10 {
        48 + n
    } else {
        87 + n
    }
}

/// Appends a text's escaped bytes.
fn push_escaped(out: &mut Vec<u8>, text: &str)
    ensures
        final(out)@ == old(out)@ + escaped_bytes(encode_utf8(text@)),
{
    let bytes = text.as_bytes();
    proof {
        assert(bytes@.take(0) =~= Seq::<u8>::empty());
        assert(old(out)@ + escaped_bytes(bytes@.take(0)) =~= old(out)@);
    }
    let mut i: usize = 0;
    while i < bytes.len()
        invariant
            i <= bytes@.len(),
            bytes@ == encode_utf8(text@),
            out@ == old(out)@ + escaped_bytes(bytes@.take(i as int)),
        decreases bytes@.len() - i,
    {
        let b = bytes[i];
        proof {
            assert(bytes@.take(i as int + 1).drop_last() =~= bytes@.take(i as int));
            assert(bytes@.take(i as int + 1).last() == bytes@[i as int]);
        }
        let ghost pre = out@;
        if b == 34 {
            out.push(92);
            out.push(34);
        } else if b == 92 {
            out.push(92);
            out.push(92);
        } else if b < 32 {
            out.push(92);
            out.push(117);
            out.push(48);
            out.push(48);
            out.push(hex_digit_byte(b / 16));
            out.push(hex_digit_byte(b % 16));
        } else {
            out.push(b);
        }
        proof {
            assert(out@ =~= pre + escaped_byte(bytes@[i as int]));
            assert(pre + escaped_byte(bytes@[i as int]) =~= old(out)@ + escaped_bytes(
                bytes@.take(i as int + 1),
            ));
        }
        i = i + 1;
    }
    proof {
        assert(bytes@.take(bytes@.len() as int) =~= bytes@);
    }
}

/// Appends a whole JSON string.
fn push_json_string(out: &mut Vec<u8>, text: &str)
    ensures
        final(out)@ == old(out)@ + json_string(encode_utf8(text@)),
{
    out.push(34);
    push_escaped(out, text);
    out.push(34);
    proof {
        assert(out@ =~= old(out)@ + json_string(encode_utf8(text@)));
    }
}

/// Builds the streaming chat request body for a model and a conversation.
#[verifier::rlimit(100)]
pub fn chat_request_body(model: &str, messages: &Vec<ChatMessage>) -> (r: Vec<u8>)
    ensures
        r@ == chat_body_of(model@, messages.deep_view()),
{
    let ghost mv = messages.deep_view();
    let mut out: Vec<u8> = Vec::new();
    out.push(123);
    out.push(34);
    out.push(109);
    out.push(111);
    out.push(100);
    out.push(101);
    out.push(108);
    out.push(34);
    out.push(58);
    proof {
        assert(out@ =~= model_key());
    }
    push_json_string(&mut out, model);
    out.push(44);
    out.push(34);
    out.push(109);
    out.push(101);
    out.push(115);
    out.push(115);
    out.push(97);
    out.push(103);
    out.push(101);
    out.push(115);
    out.push(34);
    out.push(58);
    out.push(91);
    let ghost header = out@;
    proof {
        assert(header =~= model_key() + json_string(encode_utf8(model@)) + messages_key());
        assert(header + joined_messages(mv.take(0)) =~= header);
    }
    let mut i: usize = 0;
    while i < messages.len()
        invariant
            i <= messages@.len(),
            mv == messages.deep_view(),
            mv.len() == messages@.len(),
            header == model_key() + json_string(encode_utf8(model@)) + messages_key(),
            out@ == header + joined_messages(mv.take(i as int)),
        decreases messages@.len() - i,
    {
        let ghost pre = out@;
        if i > 0 {
            out.push(44);
        }
        out.push(123);
        out.push(34);
        out.push(114);
        out.push(111);
        out.push(108);
        out.push(101);
        out.push(34);
        out.push(58);
        push_json_string(&mut out, messages[i].role.as_str());
        out.push(44);
        out.push(34);
        out.push(99);
        out.push(111);
        out.push(110);
        out.push(116);
        out.push(101);
        out.push(110);
        out.push(116);
        out.push(34);
        out.push(58);
        push_json_string(&mut out, messages[i].content.as_str());
        out.push(125);
        proof {
            assert(mv.take(i as int + 1).drop_last() =~= mv.take(i as int));
            assert(mv.take(i as int + 1).last() == mv[i as int]);
            assert(mv[i as int] == messages@[i as int].deep_view());
            if i > 0 {
                assert(out@ =~= pre + seq![44u8] + chat_message_json(mv[i as int]));
                assert(pre + seq![44u8] + chat_message_json(mv[i as int]) =~= header
                    + joined_messages(mv.take(i as int + 1)));
            } else {
                assert(mv.take(1).len() == 1);
                assert(out@ =~= pre + chat_message_json(mv[i as int]));
                assert(pre + chat_message_json(mv[i as int]) =~= header + joined_messages(
                    mv.take(i as int + 1),
                ));
            }
        }
        i = i + 1;
    }
    proof {
        assert(mv.take(mv.len() as int) =~= mv);
    }
    out.push(93);
    out.push(44);
    out.push(34);
    out.push(115);
    out.push(116);
    out.push(114);
    out.push(101);
    out.push(97);
    out.push(109);
    out.push(34);
    out.push(58);
    out.push(116);
    out.push(114);
    out.push(117);
    out.push(101);
    out.push(125);
    proof {
        assert(out@ =~= header + joined_messages(mv) + stream_close());
        assert(header + joined_messages(mv) + stream_close() =~= chat_body_of(model@, mv));
    }
    out
}

/// Appends the shared `{"name":` opening and the name itself.
fn push_name_part(out: &mut Vec<u8>, name: &str)
    requires
        old(out)@ == Seq::<u8>::empty(),
    ensures
        final(out)@ == name_key() + json_string(encode_utf8(name@)),
{
    out.push(123);
    out.push(34);
    out.push(110);
    out.push(97);
    out.push(109);
    out.push(101);
    out.push(34);
    out.push(58);
    proof {
        assert(out@ =~= name_key());
    }
    push_json_string(out, name);
}

/// Builds the streaming pull request body for a model name.
pub fn pull_request_body(name: &str) -> (r: Vec<u8>)
    ensures
        r@ == pull_body_of(name@),
{
    let mut out: Vec<u8> = Vec::new();
    push_name_part(&mut out, name);
    out.push(44);
    out.push(34);
    out.push(115);
    out.push(116);
    out.push(114);
    out.push(101);
    out.push(97);
    out.push(109);
    out.push(34);
    out.push(58);
    out.push(116);
    out.push(114);
    out.push(117);
    out.push(101);
    out.push(125);
    proof {
        assert(out@ =~= pull_body_of(name@));
    }
    out
}

/// Builds the delete request body for a model name.
pub fn delete_request_body(name: &str) -> (r: Vec<u8>)
    ensures
        r@ == delete_body_of(name@),
{
    let mut out: Vec<u8> = Vec::new();
    push_name_part(&mut out, name);
    out.push(125);
    proof {
        assert(out@ =~= delete_body_of(name@));
    }
    out
}

} // verus!
