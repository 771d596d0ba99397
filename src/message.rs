//! The coordination messages and their payload encoding.
//!
//! A payload is one tag byte, followed, for the two variants that carry text,
//! by the UTF-8 bytes of that text. Framing is the transport's concern, so the
//! text runs to the end of the payload. This format belongs to this library:
//! nodes that frame their messages with a general-purpose serializer instead
//! cannot read it, so every node of one exchange must use it.

use vstd::prelude::*;
use vstd::string::*;
use vstd::utf8::*;

verus! {

/// A message of the leader/follower exchange.
#[derive(Debug, PartialEq, Eq)]
pub enum Msg {
    HereIAm,
    RequestEnr,
    SendEnr(String),
    EnrReceived,
    DkgConfigGenerated(String),
    DkgConfigReceived,
    ExchangeEnd,
}

/// The mathematical value of a [`Msg`]: its text as a sequence of characters.
pub enum MsgView {
    HereIAm,
    RequestEnr,
    SendEnr(Seq<char>),
    EnrReceived,
    DkgConfigGenerated(Seq<char>),
    DkgConfigReceived,
    ExchangeEnd,
}

impl View for Msg {
    type V = MsgView;

    open spec fn view(&self) -> MsgView {
        match self {
            Msg::HereIAm => MsgView::HereIAm,
            Msg::RequestEnr => MsgView::RequestEnr,
            Msg::SendEnr(s) => MsgView::SendEnr(s@),
            Msg::EnrReceived => MsgView::EnrReceived,
            Msg::DkgConfigGenerated(s) => MsgView::DkgConfigGenerated(s@),
            Msg::DkgConfigReceived => MsgView::DkgConfigReceived,
            Msg::ExchangeEnd => MsgView::ExchangeEnd,
        }
    }
}

pub const TAG_HERE_I_AM: u8 = 0;
pub const TAG_REQUEST_ENR: u8 = 1;
pub const TAG_SEND_ENR: u8 = 2;
pub const TAG_ENR_RECEIVED: u8 = 3;
pub const TAG_CONFIG_GENERATED: u8 = 4;
pub const TAG_CONFIG_RECEIVED: u8 = 5;
pub const TAG_EXCHANGE_END: u8 = 6;

/// The tag byte that opens a message's payload.
pub open spec fn tag_of(m: MsgView) -> u8 {
    match m {
        MsgView::HereIAm => TAG_HERE_I_AM,
        MsgView::RequestEnr => TAG_REQUEST_ENR,
        MsgView::SendEnr(_) => TAG_SEND_ENR,
        MsgView::EnrReceived => TAG_ENR_RECEIVED,
        MsgView::DkgConfigGenerated(_) => TAG_CONFIG_GENERATED,
        MsgView::DkgConfigReceived => TAG_CONFIG_RECEIVED,
        MsgView::ExchangeEnd => TAG_EXCHANGE_END,
    }
}

/// The payload bytes of a message.
pub open spec fn encoding(m: MsgView) -> Seq<u8> {
    match m {
        MsgView::HereIAm => seq![TAG_HERE_I_AM],
        MsgView::RequestEnr => seq![TAG_REQUEST_ENR],
        MsgView::SendEnr(s) => seq![TAG_SEND_ENR] + encode_utf8(s),
        MsgView::EnrReceived => seq![TAG_ENR_RECEIVED],
        MsgView::DkgConfigGenerated(s) => seq![TAG_CONFIG_GENERATED] + encode_utf8(s),
        MsgView::DkgConfigReceived => seq![TAG_CONFIG_RECEIVED],
        MsgView::ExchangeEnd => seq![TAG_EXCHANGE_END],
    }
}

/// Relies on `String::from_utf8`: it succeeds exactly on valid UTF-8, and then
/// the string holds the characters that the bytes encode.
#[verifier::external_body]
fn text_from_utf8(b: Vec<u8>) -> (r: Option<String>)
    ensures
        r is Some <==> valid_utf8(b@),
        r matches Some(s) ==> s@ == decode_utf8(b@),
{
    String::from_utf8(b).ok()
}

fn tagged_text(tag: u8, s: &String) -> (r: Vec<u8>)
    ensures
        r@ == seq![tag] + encode_utf8(s@),
{
    let mut r: Vec<u8> = Vec::new();
    r.push(tag);
    let mut bytes = s.as_str().as_bytes_vec();
    r.append(&mut bytes);
    r
}

/// Encodes a message as its payload bytes.
pub fn encode(m: &Msg) -> (r: Vec<u8>)
    ensures
        r@ == encoding(m@),
{
    match m {
        Msg::HereIAm => vec![TAG_HERE_I_AM],
        Msg::RequestEnr => vec![TAG_REQUEST_ENR],
        Msg::SendEnr(s) => tagged_text(TAG_SEND_ENR, s),
        Msg::EnrReceived => vec![TAG_ENR_RECEIVED],
        Msg::DkgConfigGenerated(s) => tagged_text(TAG_CONFIG_GENERATED, s),
        Msg::DkgConfigReceived => vec![TAG_CONFIG_RECEIVED],
        Msg::ExchangeEnd => vec![TAG_EXCHANGE_END],
    }
}

/// The message that payload bytes encode, if any.
pub open spec fn decoding(b: Seq<u8>) -> Option<MsgView> {
    if exists|m: MsgView| encoding(m) == b {
        Some(choose|m: MsgView| encoding(m) == b)
    } else {
        None
    }
}

/// Decodes payload bytes: the message they encode, `None` when there is none.
pub fn decode(b: &Vec<u8>) -> (r: Option<Msg>)
    ensures
        r is None <==> decoding(b@) is None,
        r matches Some(m) ==> decoding(b@) == Some(m@),
{
    let r = decode_payload(b);
    proof {
        if let Some(m) = &r {
            lemma_round_trip(m@);
        }
    }
    r
}

fn decode_payload(b: &Vec<u8>) -> (r: Option<Msg>)
    ensures
        r matches Some(m) ==> encoding(m@) == b@,
        r is None ==> forall|v: MsgView| encoding(v) != b@,
{
    broadcast use encode_utf8_valid_utf8;

    if b.len() == 0 {
        return None;
    }
    let tag = b[0];
    if tag == TAG_SEND_ENR || tag == TAG_CONFIG_GENERATED {
        let mut all = b.clone();
        let rest = all.split_off(1);
        assert(b@ =~= seq![tag] + rest@);
        match text_from_utf8(rest) {
            Some(s) => {
                proof {
                    decode_utf8_encode_utf8(rest@);
                }
                if tag == TAG_SEND_ENR {
                    Some(Msg::SendEnr(s))
                } else {
                    Some(Msg::DkgConfigGenerated(s))
                }
            },
            None => {
                assert forall|v: MsgView| encoding(v) != b@ by {
                    if encoding(v) == b@ {
                        match v {
                            MsgView::SendEnr(t) => {
                                assert(encode_utf8(t) =~= rest@);
                            },
                            MsgView::DkgConfigGenerated(t) => {
                                assert(encode_utf8(t) =~= rest@);
                            },
                            _ => {
                                assert(encoding(v)[0] != tag);
                            },
                        }
                    }
                }
                None
            },
        }
    } else if b.len() != 1 {
        assert forall|v: MsgView| encoding(v) != b@ by {
            if encoding(v) == b@ {
                assert(encoding(v)[0] == tag);
            }
        }
        None
    } else if tag == TAG_HERE_I_AM {
        assert(b@ =~= seq![TAG_HERE_I_AM]);
        Some(Msg::HereIAm)
    } else if tag == TAG_REQUEST_ENR {
        assert(b@ =~= seq![TAG_REQUEST_ENR]);
        Some(Msg::RequestEnr)
    } else if tag == TAG_ENR_RECEIVED {
        assert(b@ =~= seq![TAG_ENR_RECEIVED]);
        Some(Msg::EnrReceived)
    } else if tag == TAG_CONFIG_RECEIVED {
        assert(b@ =~= seq![TAG_CONFIG_RECEIVED]);
        Some(Msg::DkgConfigReceived)
    } else if tag == TAG_EXCHANGE_END {
        assert(b@ =~= seq![TAG_EXCHANGE_END]);
        Some(Msg::ExchangeEnd)
    } else {
        assert forall|v: MsgView| encoding(v) != b@ by {
            if encoding(v) == b@ {
                assert(encoding(v)[0] == tag);
            }
        }
        None
    }
}

/// Decoding the encoding of any message gives that message back, text
/// included, whatever characters the text holds.
pub proof fn lemma_round_trip(m: MsgView)
    ensures
        forall|v: MsgView| encoding(v) == encoding(m) ==> v == m,
{
    broadcast use encode_utf8_decode_utf8;

    assert forall|v: MsgView| encoding(v) == encoding(m) implies v == m by {
        assert(encoding(v)[0] == tag_of(v));
        assert(encoding(m)[0] == tag_of(m));
        match (v, m) {
            (MsgView::SendEnr(a), MsgView::SendEnr(b)) => {
                assert(encode_utf8(a) =~= encoding(v).drop_first());
                assert(encode_utf8(b) =~= encoding(m).drop_first());
                assert(a == decode_utf8(encode_utf8(a)));
                assert(b == decode_utf8(encode_utf8(b)));
            },
            (MsgView::DkgConfigGenerated(a), MsgView::DkgConfigGenerated(b)) => {
                assert(encode_utf8(a) =~= encoding(v).drop_first());
                assert(encode_utf8(b) =~= encoding(m).drop_first());
                assert(a == decode_utf8(encode_utf8(a)));
                assert(b == decode_utf8(encode_utf8(b)));
            },
            _ => {},
        }
    }
}

/// Decoding the bytes of a message gives that message.
pub proof fn lemma_decode_encode(m: MsgView)
    ensures
        decoding(encoding(m)) == Some(m),
{
    lemma_round_trip(m);
}

} // verus!
