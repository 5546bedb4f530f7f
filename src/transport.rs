//! The messages of a protocol version 2 command request.
use vstd::prelude::*;
use vstd::utf8::encode_utf8;
use crate::bytes::{append_bytes, copy_bytes, EQUALS};

verus! {

/// One message of a request: a line, or the delimiter that separates the
/// capabilities from the command's arguments.
#[derive(PartialEq, Eq, Clone, Debug)]
pub enum Message {
    Line(Vec<u8>),
    Delimiter,
}

pub enum MessageView {
    Line(Seq<u8>),
    Delimiter,
}

impl View for Message {
    type V = MessageView;

    open spec fn view(&self) -> MessageView {
        match self {
            Message::Line(l) => MessageView::Line(l@),
            Message::Delimiter => MessageView::Delimiter,
        }
    }
}

pub open spec fn message_views(m: Seq<Message>) -> Seq<MessageView> {
    m.map_values(|x: Message| x@)
}

/// `command=`
pub open spec fn command_prefix() -> Seq<u8> {
    seq![99u8, 111u8, 109u8, 109u8, 97u8, 110u8, 100u8, 61u8]
}

/// `name=value`, or `name` alone.
pub open spec fn capability_line(name: Seq<char>, value: Option<Seq<char>>) -> Seq<u8> {
    match value {
        Some(v) => encode_utf8(name) + seq![EQUALS] + encode_utf8(v),
        None => encode_utf8(name),
    }
}

pub open spec fn string_pair_view(c: (String, Option<String>)) -> (Seq<char>, Option<Seq<char>>) {
    (
        c.0@,
        match c.1 {
            Some(v) => Some(v@),
            None => None,
        },
    )
}

/// The request for `command`: the command line, a line per capability, then,
/// if there are arguments, the delimiter and a line per argument.
pub open spec fn request(
    command: Seq<char>,
    capabilities: Seq<(Seq<char>, Option<Seq<char>>)>,
    arguments: Option<Seq<Seq<u8>>>,
) -> Seq<MessageView> {
    seq![MessageView::Line(command_prefix() + encode_utf8(command))] + capabilities.map_values(
        |c: (Seq<char>, Option<Seq<char>>)| MessageView::Line(capability_line(c.0, c.1)),
    ) + match arguments {
        None => Seq::empty(),
        Some(a) => seq![MessageView::Delimiter] + a.map_values(|x: Seq<u8>| MessageView::Line(x)),
    }
}

/// The messages that invoke a protocol version 2 `command` with the
/// `capabilities` agreed in the handshake and optional `arguments`.
pub fn invoke_lines(
    command: &str,
    capabilities: &Vec<(String, Option<String>)>,
    arguments: &Option<Vec<Vec<u8>>>,
) -> (r: Vec<Message>)
    ensures
        message_views(r@) == request(
            command@,
            capabilities@.map_values(|c: (String, Option<String>)| string_pair_view(c)),
            match arguments {
                None => None,
                Some(a) => Some(a@.map_values(|x: Vec<u8>| x@)),
            },
        ),
{
    let ghost caps = capabilities@.map_values(|c: (String, Option<String>)| string_pair_view(c));
    let mut out: Vec<Message> = Vec::new();
    let mut first: Vec<u8> = vec![99u8, 111u8, 109u8, 109u8, 97u8, 110u8, 100u8, 61u8];
    assert(first@ =~= command_prefix());
    append_bytes(&mut first, command.as_bytes());
    out.push(Message::Line(first));
    let ghost head = message_views(out@);
    let mut i: usize = 0;
    assert(message_views(out@) =~= head + caps.subrange(0, 0).map_values(
        |c: (Seq<char>, Option<Seq<char>>)| MessageView::Line(capability_line(c.0, c.1)),
    ));
    while i < capabilities.len()
        invariant
            i <= capabilities.len(),
            caps == capabilities@.map_values(|c: (String, Option<String>)| string_pair_view(c)),
            message_views(out@) == head + caps.subrange(0, i as int).map_values(
                |c: (Seq<char>, Option<Seq<char>>)| MessageView::Line(capability_line(c.0, c.1)),
            ),
        decreases capabilities.len() - i,
    {
        let (name, value) = &capabilities[i];
        let mut line = copy_bytes(name.as_str().as_bytes());
        match value {
            Some(v) => {
                line.push(EQUALS);
                append_bytes(&mut line, v.as_str().as_bytes());
            },
            None => {},
        }
        let ghost before = message_views(out@);
        assert(line@ == capability_line(caps[i as int].0, caps[i as int].1));
        out.push(Message::Line(line));
        assert(caps.subrange(0, i as int + 1) =~= caps.subrange(0, i as int).push(caps[i as int]));
        assert(message_views(out@) =~= before.push(MessageView::Line(capability_line(caps[i as int].0, caps[i as int].1))));
        i = i + 1;
    }
    assert(caps.subrange(0, i as int) =~= caps);
    let ghost middle = message_views(out@);
    match arguments {
        None => {
            assert(middle + Seq::<MessageView>::empty() =~= middle);
        },
        Some(args) => {
            let ghost av = args@.map_values(|x: Vec<u8>| x@);
            out.push(Message::Delimiter);
            let mut j: usize = 0;
            while j < args.len()
                invariant
                    j <= args.len(),
                    av == args@.map_values(|x: Vec<u8>| x@),
                    message_views(out@) == middle + (seq![MessageView::Delimiter] + av.subrange(0, j as int).map_values(
                        |x: Seq<u8>| MessageView::Line(x),
                    )),
                decreases args.len() - j,
            {
                let ghost before = message_views(out@);
                out.push(Message::Line(copy_bytes(args[j].as_slice())));
                assert(av.subrange(0, j as int + 1) =~= av.subrange(0, j as int).push(av[j as int]));
                assert(message_views(out@) =~= before.push(MessageView::Line(av[j as int])));
                j = j + 1;
            }
            assert(av.subrange(0, j as int) =~= av);
        },
    }
    out
}

} // verus!
