//! The line protocol between the daemon and `msg` clients: commands,
//! their text form, and the framing of one request or reply.
use vstd::prelude::*;
use crate::noise::Noise;
use crate::noise::noise_name;
use crate::noise::noise_named;
use crate::text::chars_of;
use crate::text::chars_eq;
use crate::text::float_literal;
use crate::text::is_control;
use crate::text::is_control_char;
use crate::text::is_float_literal;
use crate::text::split_words;
use crate::text::str_eq;
use crate::text::substring;
use crate::text::trim;
use crate::text::trim_bounds;
use crate::text::word_end;
use crate::text::word_end_from;
use crate::text::words;
use crate::text::no_white_space;
use crate::text::lemma_float_literal_clean;
use crate::text::lemma_lone_word;
use crate::text::lemma_split_first_word;
use crate::text::lemma_trimmed_ends;
use crate::text::lemma_trim_line_break;
use crate::text::lemma_words_nonempty;
use crate::text::lemma_words_pair;
use crate::text::lemma_words_single;
use crate::noise::lemma_noise_name_roundtrip;
use crate::text::trim_end;
use crate::text::back_ws_from;
use vstd::utf8::valid_utf8;
use vstd::utf8::decode_utf8;

verus! {

/// The largest request or reply, in bytes, that one side accepts.
pub const MAX_MESSAGE_BYTES: usize = 4096;

/// A command sent to the daemon.
///
/// Volumes travel as the text of a decimal number (`0.06`); the text is
/// checked to be a number that parses, and its value is read where it is used.
#[derive(Debug, PartialEq, Eq)]
pub enum Message {
    Status,
    Stop,
    Pause,
    Play,
    Preset { name: String },
    Volume { value: String },
    Noise { kind: Noise, volume: Option<String> },
    Reload,
    Shutdown,
}

/// The mathematical model of a [`Message`]: strings as character sequences.
pub enum MessageView {
    Status,
    Stop,
    Pause,
    Play,
    Preset { name: Seq<char> },
    Volume { value: Seq<char> },
    Noise { kind: Noise, volume: Option<Seq<char>> },
    Reload,
    Shutdown,
}

impl View for Message {
    type V = MessageView;

    open spec fn view(&self) -> MessageView {
        match self {
            Message::Status => MessageView::Status,
            Message::Stop => MessageView::Stop,
            Message::Pause => MessageView::Pause,
            Message::Play => MessageView::Play,
            Message::Preset { name } => MessageView::Preset { name: name@ },
            Message::Volume { value } => MessageView::Volume { value: value@ },
            Message::Noise { kind, volume } => MessageView::Noise {
                kind: *kind,
                volume: match volume {
                    Some(v) => Some(v@),
                    None => None,
                },
            },
            Message::Reload => MessageView::Reload,
            Message::Shutdown => MessageView::Shutdown,
        }
    }
}

/// Why a request or reply was refused.
#[derive(Clone, Copy, Debug, PartialEq, Eq, Structural)]
pub enum IpcError {
    /// Not one of the commands, or the wrong number of arguments.
    Usage,
    /// The argument of `volume` is not a number.
    VolumeNotNumber,
    /// The second argument of `noise` is not a number.
    NoiseVolumeNotNumber,
    /// The first argument of `noise` is not a kind of noise.
    Noise,
    /// A preset name that is empty, has surrounding white space or holds a
    /// control character.
    InvalidPresetName,
    /// A line longer than [`MAX_MESSAGE_BYTES`].
    TooLong,
    /// A line that is not UTF-8.
    InvalidUtf8,
}

/// The text shown to a user for each error.
pub open spec fn spec_ipc_message(e: IpcError) -> Seq<char> {
    match e {
        IpcError::Usage => "commands: status stop pause play preset NAME volume N noise TYPE [VOLUME] reload shutdown"@,
        IpcError::VolumeNotNumber => "volume must be a number"@,
        IpcError::NoiseVolumeNotNumber => "noise volume must be a number"@,
        IpcError::Noise => "noise must be off, white, pink, or brown"@,
        IpcError::InvalidPresetName => "preset name cannot be empty or contain surrounding whitespace or control characters"@,
        IpcError::TooLong => "IPC message exceeds 4096 bytes"@,
        IpcError::InvalidUtf8 => "stream did not contain valid UTF-8"@,
    }
}

impl IpcError {
    /// The text shown to a user for this error.
    pub fn message(&self) -> (r: &'static str)
        ensures
            r@ == spec_ipc_message(*self),
    {
        match self {
            IpcError::Usage => "commands: status stop pause play preset NAME volume N noise TYPE [VOLUME] reload shutdown",
            IpcError::VolumeNotNumber => "volume must be a number",
            IpcError::NoiseVolumeNotNumber => "noise volume must be a number",
            IpcError::Noise => "noise must be off, white, pink, or brown",
            IpcError::InvalidPresetName => "preset name cannot be empty or contain surrounding whitespace or control characters",
            IpcError::TooLong => "IPC message exceeds 4096 bytes",
            IpcError::InvalidUtf8 => "stream did not contain valid UTF-8",
        }
    }
}

/// A preset name that can be written on one line and read back: not empty,
/// no white space at either end, no control character.
pub open spec fn is_valid_preset_name(name: Seq<char>) -> bool {
    &&& name.len() > 0
    &&& trim(name) == name
    &&& forall|k: int| 0 <= k < name.len() ==> !is_control_char(#[trigger] name[k])
}

/// Whether `name` is a valid preset name.
pub fn valid_preset_name(name: &str) -> (r: bool)
    ensures
        r == is_valid_preset_name(name@),
{
    let cs = chars_of(name);
    if cs.len() == 0 {
        return false;
    }
    let (a, b) = trim_bounds(cs.as_slice());
    if a != 0 || b != cs.len() {
        assert(trim(name@).len() != name@.len());
        return false;
    }
    assert(trim(name@) =~= name@);
    let mut i: usize = 0;
    while i < cs.len()
        invariant
            cs@ == name@,
            i <= cs@.len(),
            forall|k: int| 0 <= k < i ==> !is_control_char(#[trigger] name@[k]),
        decreases cs.len() - i,
    {
        if is_control(cs[i]) {
            return false;
        }
        i = i + 1;
    }
    true
}

/// The first word of a request line: its command.
pub open spec fn command_of(line: Seq<char>) -> Seq<char> {
    let t = trim(line);
    t.subrange(0, word_end(t, 0))
}

/// What follows the command on a request line, without surrounding white space.
pub open spec fn arguments_of(line: Seq<char>) -> Seq<char> {
    let t = trim(line);
    trim(t.subrange(word_end(t, 0), t.len() as int))
}

/// The message that a request line stands for, or why it stands for none.
pub open spec fn spec_parse(line: Seq<char>) -> Result<MessageView, IpcError> {
    let cmd = command_of(line);
    let args = arguments_of(line);
    let w = words(args);
    if cmd == "status"@ && w.len() == 0 {
        Ok(MessageView::Status)
    } else if cmd == "stop"@ && w.len() == 0 {
        Ok(MessageView::Stop)
    } else if cmd == "pause"@ && w.len() == 0 {
        Ok(MessageView::Pause)
    } else if cmd == "play"@ && w.len() == 0 {
        Ok(MessageView::Play)
    } else if cmd == "preset"@ && w.len() >= 1 {
        Ok(MessageView::Preset { name: args })
    } else if cmd == "volume"@ && w.len() == 1 {
        if is_float_literal(w[0]) {
            Ok(MessageView::Volume { value: w[0] })
        } else {
            Err(IpcError::VolumeNotNumber)
        }
    } else if cmd == "noise"@ && w.len() == 1 {
        match noise_named(w[0]) {
            Some(kind) => Ok(MessageView::Noise { kind, volume: None }),
            None => Err(IpcError::Noise),
        }
    } else if cmd == "noise"@ && w.len() == 2 {
        match noise_named(w[0]) {
            Some(kind) => if is_float_literal(w[1]) {
                Ok(MessageView::Noise { kind, volume: Some(w[1]) })
            } else {
                Err(IpcError::NoiseVolumeNotNumber)
            },
            None => Err(IpcError::Noise),
        }
    } else if cmd == "reload"@ && w.len() == 0 {
        Ok(MessageView::Reload)
    } else if cmd == "shutdown"@ && w.len() == 0 {
        Ok(MessageView::Shutdown)
    } else {
        Err(IpcError::Usage)
    }
}

/// The model of a parse result.
pub open spec fn parsed_view(r: Result<Message, IpcError>) -> Result<MessageView, IpcError> {
    match r {
        Ok(m) => Ok(m@),
        Err(e) => Err(e),
    }
}

/// The line that a message is written as, or why it cannot be written: a
/// preset name must be valid, and volumes must be number texts.
pub open spec fn spec_format(m: MessageView) -> Result<Seq<char>, IpcError> {
    match m {
        MessageView::Status => Ok("status"@),
        MessageView::Stop => Ok("stop"@),
        MessageView::Pause => Ok("pause"@),
        MessageView::Play => Ok("play"@),
        MessageView::Preset { name } => if is_valid_preset_name(name) {
            Ok("preset "@ + name)
        } else {
            Err(IpcError::InvalidPresetName)
        },
        MessageView::Volume { value } => if is_float_literal(value) {
            Ok("volume "@ + value)
        } else {
            Err(IpcError::VolumeNotNumber)
        },
        MessageView::Noise { kind, volume } => match volume {
            Some(v) => if is_float_literal(v) {
                Ok("noise "@ + noise_name(kind) + " "@ + v)
            } else {
                Err(IpcError::NoiseVolumeNotNumber)
            },
            None => Ok("noise "@ + noise_name(kind)),
        },
        MessageView::Reload => Ok("reload"@),
        MessageView::Shutdown => Ok("shutdown"@),
    }
}

/// The model of a format result.
pub open spec fn formatted_view(r: Result<String, IpcError>) -> Result<Seq<char>, IpcError> {
    match r {
        Ok(s) => Ok(s@),
        Err(e) => Err(e),
    }
}

/// Reads one request line (as received, possibly with its newline) into a
/// message.
pub fn parse(line: &str) -> (r: Result<Message, IpcError>)
    ensures
        parsed_view(r) == spec_parse(line@),
{
    let lc = chars_of(line);
    let (a, b) = trim_bounds(lc.as_slice());
    let t = substring(line, a, b);
    let tc = chars_of(t.as_str());
    let e = word_end_from(tc.as_slice(), 0);
    let cmd = substring(t.as_str(), 0, e);
    let rest = substring(t.as_str(), e, tc.len());
    let rc = chars_of(rest.as_str());
    let (a2, b2) = trim_bounds(rc.as_slice());
    let args = substring(rest.as_str(), a2, b2);
    let w = split_words(args.as_str());
    assert(cmd@ == command_of(line@));
    assert(args@ == arguments_of(line@));
    let n = w.len();
    if str_eq(cmd.as_str(), "status") && n == 0 {
        Ok(Message::Status)
    } else if str_eq(cmd.as_str(), "stop") && n == 0 {
        Ok(Message::Stop)
    } else if str_eq(cmd.as_str(), "pause") && n == 0 {
        Ok(Message::Pause)
    } else if str_eq(cmd.as_str(), "play") && n == 0 {
        Ok(Message::Play)
    } else if str_eq(cmd.as_str(), "preset") && n >= 1 {
        Ok(Message::Preset { name: args })
    } else if str_eq(cmd.as_str(), "volume") && n == 1 {
        let wc = chars_of(w[0].as_str());
        if float_literal(wc.as_slice()) {
            Ok(Message::Volume { value: w[0].clone() })
        } else {
            Err(IpcError::VolumeNotNumber)
        }
    } else if str_eq(cmd.as_str(), "noise") && (n == 1 || n == 2) {
        match Noise::parse(w[0].as_str()) {
            Ok(kind) => {
                if n == 1 {
                    Ok(Message::Noise { kind, volume: None })
                } else {
                    let vc = chars_of(w[1].as_str());
                    if float_literal(vc.as_slice()) {
                        Ok(Message::Noise { kind, volume: Some(w[1].clone()) })
                    } else {
                        Err(IpcError::NoiseVolumeNotNumber)
                    }
                }
            },
            Err(_) => Err(IpcError::Noise),
        }
    } else if str_eq(cmd.as_str(), "reload") && n == 0 {
        Ok(Message::Reload)
    } else if str_eq(cmd.as_str(), "shutdown") && n == 0 {
        Ok(Message::Shutdown)
    } else {
        Err(IpcError::Usage)
    }
}

/// Writes a message as a request line (without the newline).
pub fn format(command: Message) -> (r: Result<String, IpcError>)
    ensures
        formatted_view(r) == spec_format(command@),
{
    match command {
        Message::Status => Ok(String::from_str("status")),
        Message::Stop => Ok(String::from_str("stop")),
        Message::Pause => Ok(String::from_str("pause")),
        Message::Play => Ok(String::from_str("play")),
        Message::Preset { name } => {
            if !valid_preset_name(name.as_str()) {
                return Err(IpcError::InvalidPresetName);
            }
            Ok(String::from_str("preset ").concat(name.as_str()))
        },
        Message::Volume { value } => {
            let vc = chars_of(value.as_str());
            if !float_literal(vc.as_slice()) {
                return Err(IpcError::VolumeNotNumber);
            }
            Ok(String::from_str("volume ").concat(value.as_str()))
        },
        Message::Noise { kind, volume } => match volume {
            Some(v) => {
                let vc = chars_of(v.as_str());
                if !float_literal(vc.as_slice()) {
                    return Err(IpcError::NoiseVolumeNotNumber);
                }
                Ok(String::from_str("noise ").concat(kind.as_str()).concat(" ").concat(v.as_str()))
            },
            None => Ok(String::from_str("noise ").concat(kind.as_str())),
        },
        Message::Reload => Ok(String::from_str("reload")),
        Message::Shutdown => Ok(String::from_str("shutdown")),
    }
}

/// The first position at or after `i` holding a newline byte (or the end).
pub open spec fn newline_at(bytes: Seq<u8>, i: int) -> int
    decreases bytes.len() - i,
{
    if 0 <= i < bytes.len() && bytes[i] != 10 {
        newline_at(bytes, i + 1)
    } else {
        i
    }
}

/// How many bytes of `bytes` one line read takes: up to and including the
/// first newline, and never more than one byte over the limit.
pub open spec fn frame_len(bytes: Seq<u8>) -> int {
    let nl = newline_at(bytes, 0);
    let n = if nl < bytes.len() {
        nl + 1
    } else {
        bytes.len() as int
    };
    if n > MAX_MESSAGE_BYTES + 1 {
        MAX_MESSAGE_BYTES + 1
    } else {
        n
    }
}

/// The line read from `bytes`: nothing at the end of the stream, the
/// decoded line, or why the line is refused.
pub open spec fn spec_read(bytes: Seq<u8>) -> Result<Option<Seq<char>>, IpcError> {
    let n = frame_len(bytes);
    let line = bytes.take(n);
    if n == 0 {
        Ok(None)
    } else if !valid_utf8(line) {
        Err(IpcError::InvalidUtf8)
    } else if n > MAX_MESSAGE_BYTES {
        Err(IpcError::TooLong)
    } else {
        Ok(Some(decode_utf8(line)))
    }
}

/// The model of a read result.
pub open spec fn read_view(r: Result<Option<String>, IpcError>) -> Result<Option<Seq<char>>, IpcError> {
    match r {
        Ok(Some(s)) => Ok(Some(s@)),
        Ok(None) => Ok(None),
        Err(e) => Err(e),
    }
}

/// `std::str::from_utf8`, which succeeds exactly on valid UTF-8 and then
/// gives the characters that the bytes encode.
#[verifier::external_body]
fn utf8_to_string(bytes: &[u8]) -> (r: Option<String>)
    ensures
        r is Some <==> valid_utf8(bytes@),
        r matches Some(s) ==> s@ == decode_utf8(bytes@),
{
    match std::str::from_utf8(bytes) {
        Ok(s) => Some(s.to_owned()),
        Err(_) => None,
    }
}

/// Reads one line from the bytes that arrived on a connection: the bytes up
/// to and including the first newline, of which at most one more than
/// [`MAX_MESSAGE_BYTES`] are looked at.
pub fn read(bytes: &[u8]) -> (r: Result<Option<String>, IpcError>)
    ensures
        read_view(r) == spec_read(bytes@),
{
    let limit: usize = MAX_MESSAGE_BYTES + 1;
    let mut i: usize = 0;
    while i < bytes.len() && bytes[i] != 10
        invariant
            i <= bytes@.len(),
            newline_at(bytes@, 0) == newline_at(bytes@, i as int),
        decreases bytes.len() - i,
    {
        i = i + 1;
    }
    let n0 = if i < bytes.len() {
        i + 1
    } else {
        bytes.len()
    };
    let n = if n0 > limit {
        limit
    } else {
        n0
    };
    if n == 0 {
        return Ok(None);
    }
    let line = vstd::slice::slice_subrange(bytes, 0, n);
    assert(line@ =~= bytes@.take(n as int));
    match utf8_to_string(line) {
        None => Err(IpcError::InvalidUtf8),
        Some(s) => {
            if n > MAX_MESSAGE_BYTES {
                Err(IpcError::TooLong)
            } else {
                Ok(Some(s))
            }
        },
    }
}

/// The line a daemon answers with when a request fails.
pub open spec fn spec_error_reply(message: Seq<char>) -> Seq<char> {
    "error "@ + message
}

/// What a client makes of a reply: a failure with its reason (without
/// trailing white space) when the reply starts with `error `, otherwise the
/// reply itself, to be shown as it is.
pub open spec fn spec_reply_outcome(reply: Seq<char>) -> Result<Seq<char>, Seq<char>> {
    if reply.len() >= 6 && reply.take(6) == "error "@ {
        Err(trim_end(reply.skip(6)))
    } else {
        Ok(reply)
    }
}

/// The reply that reports a failed request.
pub fn error_reply(message: &str) -> (r: String)
    ensures
        r@ == spec_error_reply(message@),
{
    String::from_str("error ").concat(message)
}

/// Interprets a reply from the daemon (see [`spec_reply_outcome`]).
pub fn reply_outcome(reply: &str) -> (r: Result<String, String>)
    ensures
        match (r, spec_reply_outcome(reply@)) {
            (Ok(a), Ok(b)) => a@ == b,
            (Err(a), Err(b)) => a@ == b,
            _ => false,
        },
{
    let cs = chars_of(reply);
    let prefix = chars_of("error ");
    proof {
        reveal_strlit("error ");
    }
    if cs.len() >= 6 {
        let head = vstd::slice::slice_subrange(cs.as_slice(), 0, 6);
        assert(head@ =~= reply@.take(6));
        if chars_eq(head, prefix.as_slice()) {
            let rest = substring(reply, 6, cs.len());
            assert(rest@ =~= reply@.skip(6));
            let rc = chars_of(rest.as_str());
            let e = back_ws_from(rc.as_slice(), rc.len(), 0);
            return Err(substring(rest.as_str(), 0, e));
        }
    }
    Ok(String::from_str(reply))
}

/// A failure reported by the daemon reaches the client as that failure.
pub proof fn lemma_error_reply_outcome(message: Seq<char>)
    ensures
        spec_reply_outcome(spec_error_reply(message)) == Err::<Seq<char>, Seq<char>>(
            trim_end(message),
        ),
{
    reveal_strlit("error ");
    let r = spec_error_reply(message);
    assert(r.take(6) =~= "error "@);
    assert(r.skip(6) =~= message);
}

/// A message whose volumes are number texts, as every parsed message is.
pub open spec fn message_wf(m: MessageView) -> bool {
    match m {
        MessageView::Volume { value } => is_float_literal(value),
        MessageView::Noise { volume: Some(v), .. } => is_float_literal(v),
        _ => true,
    }
}


/// A line with a command and one run of arguments.
proof fn lemma_command_with_arguments(kw: Seq<char>, rest: Seq<char>)
    requires
        kw.len() > 0,
        no_white_space(kw),
        rest.len() > 0,
        !is_white_space_char_at(rest, 0),
        !is_white_space_char_at(rest, rest.len() - 1),
    ensures
        command_of(kw + seq![' '] + rest) == kw,
        arguments_of(kw + seq![' '] + rest) == rest,
{
    lemma_split_first_word(kw, rest);
}

spec fn is_white_space_char_at(s: Seq<char>, k: int) -> bool {
    crate::text::is_white_space(s[k])
}

/// A line holding a command alone.
proof fn lemma_command_alone(kw: Seq<char>)
    requires
        kw.len() > 0,
        no_white_space(kw),
    ensures
        command_of(kw) == kw,
        arguments_of(kw) == Seq::<char>::empty(),
        words(arguments_of(kw)) == Seq::<Seq<char>>::empty(),
{
    lemma_lone_word(kw);
    let e = Seq::<char>::empty();
    assert(crate::text::skip_ws(e, 0) == 0);
    assert(words(e) =~= Seq::<Seq<char>>::empty());
}

/// A line break at the end of a request line that ends in a character
/// other than white space does not change what the line stands for.
proof fn lemma_parse_line_break(line: Seq<char>)
    requires
        line.len() > 0,
        !crate::text::is_white_space(line[line.len() - 1]),
    ensures
        spec_parse(line + "\n"@) == spec_parse(line),
{
    reveal_strlit("\n");
    assert(line + "\n"@ =~= line.push('\n'));
    lemma_trim_line_break(line);
}

/// Reading back a written message gives the message: every message that can
/// be written is parsed from its line into itself, with or without the line
/// break that ends it on the wire.
pub proof fn lemma_format_then_parse(m: MessageView)
    requires
        spec_format(m) is Ok,
    ensures
        spec_parse(spec_format(m)->Ok_0) == Ok::<MessageView, IpcError>(m),
        spec_parse(spec_format(m)->Ok_0 + "\n"@) == Ok::<MessageView, IpcError>(m),
{
    reveal_strlit("status");
    reveal_strlit("stop");
    reveal_strlit("pause");
    reveal_strlit("play");
    reveal_strlit("preset");
    reveal_strlit("volume");
    reveal_strlit("noise");
    reveal_strlit("reload");
    reveal_strlit("shutdown");
    reveal_strlit("preset ");
    reveal_strlit("volume ");
    reveal_strlit("noise ");
    reveal_strlit(" ");
    let line = spec_format(m)->Ok_0;
    match m {
        MessageView::Status => {
            assert("status"@ =~= seq!['s', 't', 'a', 't', 'u', 's']);
            assert(no_white_space("status"@));
            lemma_command_alone("status"@);
        },
        MessageView::Stop => {
            assert("stop"@ =~= seq!['s', 't', 'o', 'p']);
            assert(no_white_space("stop"@));
            lemma_command_alone("stop"@);
        },
        MessageView::Pause => {
            assert("pause"@ =~= seq!['p', 'a', 'u', 's', 'e']);
            assert(no_white_space("pause"@));
            lemma_command_alone("pause"@);
        },
        MessageView::Play => {
            assert("play"@ =~= seq!['p', 'l', 'a', 'y']);
            assert(no_white_space("play"@));
            lemma_command_alone("play"@);
        },
        MessageView::Reload => {
            assert("reload"@ =~= seq!['r', 'e', 'l', 'o', 'a', 'd']);
            assert(no_white_space("reload"@));
            lemma_command_alone("reload"@);
        },
        MessageView::Shutdown => {
            assert("shutdown"@ =~= seq!['s', 'h', 'u', 't', 'd', 'o', 'w', 'n']);
            assert(no_white_space("shutdown"@));
            lemma_command_alone("shutdown"@);
        },
        MessageView::Preset { name } => {
            lemma_trimmed_ends(name);
            assert(line =~= "preset"@ + seq![' '] + name);
            lemma_command_with_arguments("preset"@, name);
            lemma_words_nonempty(name);
        },
        MessageView::Volume { value } => {
            lemma_float_literal_clean(value);
            assert(line =~= "volume"@ + seq![' '] + value);
            lemma_command_with_arguments("volume"@, value);
            lemma_words_single(value);
        },
        MessageView::Noise { kind, volume } => {
            lemma_noise_name_roundtrip(kind);
            let nm = noise_name(kind);
            assert(no_white_space(nm));
            match volume {
                Some(v) => {
                    lemma_float_literal_clean(v);
                    let rest = nm + seq![' '] + v;
                    assert(line =~= "noise"@ + seq![' '] + rest);
                    assert(rest[0] == nm[0]);
                    assert(rest[rest.len() - 1] == v[v.len() - 1]);
                    lemma_command_with_arguments("noise"@, rest);
                    lemma_words_pair(nm, v);
                },
                None => {
                    assert(line =~= "noise"@ + seq![' '] + nm);
                    lemma_command_with_arguments("noise"@, nm);
                    lemma_words_single(nm);
                },
            }
        },
    }
    assert(line.len() > 0 && !crate::text::is_white_space(line[line.len() - 1]));
    lemma_parse_line_break(line);
}

/// A message cannot be written exactly when it names a preset whose name is
/// not valid or holds a volume that is not a number text.
pub proof fn lemma_format_refuses(m: MessageView)
    ensures
        spec_format(m) is Err <==> {
            ||| m matches MessageView::Preset { name } && !is_valid_preset_name(name)
            ||| m matches MessageView::Volume { value } && !is_float_literal(value)
            ||| m matches MessageView::Noise { volume: Some(v), .. } && !is_float_literal(v)
        },
{
}

/// Every parsed message has number texts for its volumes.
pub proof fn lemma_parse_wf(line: Seq<char>)
    ensures
        spec_parse(line) matches Ok(m) ==> message_wf(m),
{
}

/// A preset name is refused exactly when it is empty, starts or ends with
/// white space, or holds a control character; any other character, such as
/// `-` or an inner space, is allowed.
pub proof fn lemma_valid_preset_name_exactly(name: Seq<char>)
    ensures
        is_valid_preset_name(name) <==> {
            &&& name.len() > 0
            &&& !crate::text::is_white_space(name[0])
            &&& !crate::text::is_white_space(name[name.len() - 1])
            &&& forall|k: int| 0 <= k < name.len() ==> !is_control_char(#[trigger] name[k])
        },
{
    if name.len() > 0 {
        if trim(name) == name {
            lemma_trimmed_ends(name);
        }
        if !crate::text::is_white_space(name[0]) && !crate::text::is_white_space(
            name[name.len() - 1],
        ) {
            crate::text::lemma_skip_ws_at(name, 0, 0);
            crate::text::lemma_back_ws_at(name, name.len() as int, 0, name.len() as int);
            assert(name.subrange(0, name.len() as int) =~= name);
        }
    }
}

/// A reply that does not start with `e` is shown to the user as it is.
pub proof fn lemma_plain_reply_shown(reply: Seq<char>)
    requires
        reply.len() == 0 || reply[0] != 'e',
    ensures
        spec_reply_outcome(reply) == Ok::<Seq<char>, Seq<char>>(reply),
{
    reveal_strlit("error ");
    if reply.len() >= 6 {
        assert(reply.take(6)[0] != "error "@[0]);
    }
}

} // verus!
