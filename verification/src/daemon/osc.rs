//! OSC messages fanned out for device events, and the commands that come
//! in on the same socket.
use vstd::prelude::*;
use crate::event::{AnalogKnob, Event, PadPhase};
use crate::text::{dec, push_dec, str_equal};

verus! {

/// An OSC message: address and integer arguments.
#[derive(Debug, Clone, PartialEq, Eq)]
pub struct OscOut {
    pub addr: String,
    pub args: Vec<i32>,
}

/// Name of an analog knob as it appears in addresses.
pub open spec fn knob_name(k: AnalogKnob) -> Seq<char> {
    match k {
        AnalogKnob::MicGain => "MicGain"@,
        AnalogKnob::Headphones => "Headphones"@,
        AnalogKnob::MasterVolume => "MasterVolume"@,
    }
}

/// The address and arguments broadcast for `ev`; raw reports are not
/// broadcast.
pub open spec fn osc_for(ev: Event) -> Option<(Seq<char>, Seq<int>)> {
    match ev {
        Event::Pad { pad, pressure, velocity, phase } => Some(
            (
                "/mk3/pad/"@ + dec(pad as nat) + match phase {
                    PadPhase::Attack => "/down"@,
                    PadPhase::Pressure => "/pressure"@,
                    PadPhase::Release => "/up"@,
                },
                seq![pressure as int] + match velocity {
                    Some(v) => seq![v as int],
                    None => seq![],
                },
            ),
        ),
        Event::Button { bit, pressed } => Some(
            (
                "/mk3/button/"@ + dec(bit as nat) + if pressed {
                    "/down"@
                } else {
                    "/up"@
                },
                seq![],
            ),
        ),
        Event::MacroEncoder { index, delta, absolute } => Some(
            ("/mk3/encoder/macro/"@ + dec(index as nat), seq![delta as int, absolute as int]),
        ),
        Event::MasterEncoder { delta, absolute } => Some(
            ("/mk3/encoder/master"@, seq![delta as int, absolute as int]),
        ),
        Event::TouchStrip { position, pressure } => Some(
            ("/mk3/touchstrip"@, seq![position as int, pressure as int]),
        ),
        Event::TouchStripReleased => Some(("/mk3/touchstrip/release"@, seq![])),
        Event::Analog { which, value } => Some(
            ("/mk3/analog/"@ + knob_name(which), seq![value as int]),
        ),
        Event::Raw(_) => None,
    }
}

fn lit(s: &str) -> (r: String)
    ensures
        r@ == s@,
{
    s.to_string()
}

fn append(out: &mut String, s: &str)
    ensures
        final(out)@ == old(out)@ + s@,
{
    out.append(s);
}

fn numbered(prefix: &str, n: u8) -> (r: String)
    ensures
        r@ == prefix@ + dec(n as nat),
{
    let mut s = lit(prefix);
    push_dec(&mut s, n as u64);
    s
}

/// The message broadcast for a device event; `None` for raw reports.
pub fn event_message(ev: &Event) -> (m: Option<OscOut>)
    ensures
        match osc_for(*ev) {
            Some((addr, args)) => m matches Some(o) && o.addr@ == addr && o.args@.map_values(
                |a: i32| a as int,
            ) == args,
            None => m is None,
        },
{
    proof {
        reveal_strlit("/mk3/pad/");
        reveal_strlit("/down");
        reveal_strlit("/pressure");
        reveal_strlit("/up");
        reveal_strlit("/mk3/button/");
        reveal_strlit("/mk3/encoder/macro/");
        reveal_strlit("/mk3/encoder/master");
        reveal_strlit("/mk3/touchstrip");
        reveal_strlit("/mk3/touchstrip/release");
        reveal_strlit("/mk3/analog/");
        reveal_strlit("MicGain");
        reveal_strlit("Headphones");
        reveal_strlit("MasterVolume");
    }
    match ev {
        Event::Pad { pad, pressure, velocity, phase } => {
            let mut addr = numbered("/mk3/pad/", *pad);
            match phase {
                PadPhase::Attack => append(&mut addr, "/down"),
                PadPhase::Pressure => append(&mut addr, "/pressure"),
                PadPhase::Release => append(&mut addr, "/up"),
            }
            let mut args: Vec<i32> = Vec::new();
            args.push(*pressure as i32);
            match velocity {
                Some(v) => args.push(*v as i32),
                None => {},
            }
            assert(args@.map_values(|a: i32| a as int) =~= osc_for(*ev).unwrap().1);
            Some(OscOut { addr, args })
        },
        Event::Button { bit, pressed } => {
            let mut addr = numbered("/mk3/button/", *bit);
            if *pressed {
                append(&mut addr, "/down");
            } else {
                append(&mut addr, "/up");
            }
            let args: Vec<i32> = Vec::new();
            assert(args@.map_values(|a: i32| a as int) =~= seq![]);
            Some(OscOut { addr, args })
        },
        Event::MacroEncoder { index, delta, absolute } => {
            let addr = numbered("/mk3/encoder/macro/", *index);
            let args: Vec<i32> = vec![*delta as i32, *absolute as i32];
            assert(args@.map_values(|a: i32| a as int) =~= osc_for(*ev).unwrap().1);
            Some(OscOut { addr, args })
        },
        Event::MasterEncoder { delta, absolute } => {
            let args: Vec<i32> = vec![*delta as i32, *absolute as i32];
            assert(args@.map_values(|a: i32| a as int) =~= osc_for(*ev).unwrap().1);
            Some(OscOut { addr: lit("/mk3/encoder/master"), args })
        },
        Event::TouchStrip { position, pressure } => {
            let args: Vec<i32> = vec![*position as i32, *pressure as i32];
            assert(args@.map_values(|a: i32| a as int) =~= osc_for(*ev).unwrap().1);
            Some(OscOut { addr: lit("/mk3/touchstrip"), args })
        },
        Event::TouchStripReleased => {
            let args: Vec<i32> = Vec::new();
            assert(args@.map_values(|a: i32| a as int) =~= seq![]);
            Some(OscOut { addr: lit("/mk3/touchstrip/release"), args })
        },
        Event::Analog { which, value } => {
            let mut addr = lit("/mk3/analog/");
            match which {
                AnalogKnob::MicGain => append(&mut addr, "MicGain"),
                AnalogKnob::Headphones => append(&mut addr, "Headphones"),
                AnalogKnob::MasterVolume => append(&mut addr, "MasterVolume"),
            }
            let args: Vec<i32> = vec![*value as i32];
            assert(args@.map_values(|a: i32| a as int) =~= osc_for(*ev).unwrap().1);
            Some(OscOut { addr, args })
        },
        Event::Raw(_) => None,
    }
}

/// `n` rounded up to a multiple of four.
pub open spec fn pad4(n: int) -> int {
    if n % 4 == 0 {
        n
    } else {
        n + 4 - n % 4
    }
}

/// An OSC string: the bytes, then one to four NUL bytes up to a multiple
/// of four.
pub open spec fn osc_string(b: Seq<u8>) -> Seq<u8> {
    b + Seq::new((pad4(b.len() + 1int) - b.len()) as nat, |i: int| 0u8)
}

/// A 32-bit integer, big-endian.
pub open spec fn be_i32(x: i32) -> Seq<u8> {
    let u = x as u32;
    seq![
        (u / 0x1000000) as u8,
        ((u / 0x10000) % 0x100) as u8,
        ((u / 0x100) % 0x100) as u8,
        (u % 0x100) as u8,
    ]
}

/// The arguments of a message, each big-endian, in order.
pub open spec fn be_i32s(args: Seq<i32>) -> Seq<u8>
    decreases args.len(),
{
    if args.len() == 0 {
        seq![]
    } else {
        be_i32s(args.drop_last()) + be_i32(args.last())
    }
}

/// The OSC 1.0 encoding of a message with address `addr` (its UTF-8 bytes)
/// and integer arguments `args`: the address string, the type-tag string
/// `,i...` with one `i` per argument, then the arguments.
pub open spec fn osc_message_bytes(addr: Seq<u8>, args: Seq<i32>) -> Seq<u8> {
    osc_string(addr) + osc_string(seq![0x2cu8] + Seq::new(args.len(), |i: int| 0x69u8)) + be_i32s(
        args,
    )
}

/// `rosc::encoder::encode` of a message with integer arguments: the OSC
/// 1.0 layout. The encoder writes into a growing vector, which cannot fail.
#[verifier::external_body]
fn encode_message(m: &OscOut) -> (b: Vec<u8>)
    ensures
        b@ == osc_message_bytes(vstd::utf8::encode_utf8(m.addr@), m.args@),
{
    let args = m.args.iter().map(|a| rosc::OscType::Int(*a)).collect();
    let packet = rosc::OscPacket::Message(rosc::OscMessage { addr: m.addr.clone(), args });
    rosc::encoder::encode(&packet).unwrap_or_default()
}

/// The datagram broadcast for a device event; none for raw reports.
pub fn event_packet(ev: &Event) -> (p: Option<Vec<u8>>)
    ensures
        match osc_for(*ev) {
            Some((addr, args)) => p matches Some(b) && b@ == osc_message_bytes(
                vstd::utf8::encode_utf8(addr),
                args.map_values(|a: int| a as i32),
            ),
            None => p is None,
        },
{
    match event_message(ev) {
        Some(m) => {
            let b = encode_message(&m);
            proof {
                let args = osc_for(*ev).unwrap().1;
                assert(m.args@ =~= args.map_values(|a: int| a as i32));
            }
            Some(b)
        },
        None => None,
    }
}

/// The address of the OSC message that a UDP datagram with bytes `b`
/// decodes to; `None` when the bytes do not decode or hold a bundle.
pub uninterp spec fn osc_in_address(b: Seq<u8>) -> Option<Seq<char>>;

/// `rosc::decoder::decode_udp` on a datagram, keeping the address of a
/// decoded message; a bundle or a decoding error gives `None`.
#[verifier::external_body]
pub(crate) fn decode_osc_address(bytes: &[u8]) -> (a: Option<String>)
    ensures
        match a {
            Some(s) => osc_in_address(bytes@) == Some(s@),
            None => osc_in_address(bytes@) is None,
        },
{
    match rosc::decoder::decode_udp(bytes) {
        Ok((_, rosc::OscPacket::Message(m))) => Some(m.addr),
        Ok((_, rosc::OscPacket::Bundle(_))) => None,
        Err(_) => None,
    }
}

/// A command a client can send over OSC. The LED and display-image verbs
/// are reserved: they are recognised and not acted on yet.
#[derive(Debug, Clone, Copy, PartialEq, Eq)]
pub enum OscVerb {
    /// `/mk3/led/pad`.
    PadLed,
    /// `/mk3/led/button`.
    ButtonLed,
    /// `/mk3/display/<n>/image` for display 0 or 1.
    DisplayImage(u8),
    /// Any other address.
    Other,
}

/// The verb of an OSC address.
pub open spec fn osc_verb_spec(a: Seq<char>) -> OscVerb {
    if a == "/mk3/led/pad"@ {
        OscVerb::PadLed
    } else if a == "/mk3/led/button"@ {
        OscVerb::ButtonLed
    } else if a == "/mk3/display/0/image"@ {
        OscVerb::DisplayImage(0)
    } else if a == "/mk3/display/1/image"@ {
        OscVerb::DisplayImage(1)
    } else {
        OscVerb::Other
    }
}

/// The verb of the OSC address `addr`.
pub fn osc_verb(addr: &str) -> (v: OscVerb)
    ensures
        v == osc_verb_spec(addr@),
{
    if str_equal(addr, "/mk3/led/pad") {
        OscVerb::PadLed
    } else if str_equal(addr, "/mk3/led/button") {
        OscVerb::ButtonLed
    } else if str_equal(addr, "/mk3/display/0/image") {
        OscVerb::DisplayImage(0)
    } else if str_equal(addr, "/mk3/display/1/image") {
        OscVerb::DisplayImage(1)
    } else {
        OscVerb::Other
    }
}

/// The command in a datagram received on the OSC socket; `None` when it
/// holds no message (it does not decode, or holds a bundle).
pub fn osc_command(bytes: &[u8]) -> (v: Option<OscVerb>)
    ensures
        v == match osc_in_address(bytes@) {
            Some(a) => Some(osc_verb_spec(a)),
            None => None,
        },
{
    match decode_osc_address(bytes) {
        Some(a) => Some(osc_verb(a.as_str())),
        None => None,
    }
}

} // verus!
