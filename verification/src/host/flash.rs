//! Images that are written to a device, and partitions that are erased or formatted.

use crate::host::dispatch;
use crate::host::dispatch::{contains_word, text_bytes};
use crate::host::transfer;
use crate::host::transfer::{Reply, ReplyView, TransferError, config_bytes};
use crate::path;
use crate::path::{file_extension, file_name};
use crate::protocol::bytes;
use crate::protocol::bytes::{copy_range, push_bytes, push_zeros};
use crate::protocol::command::HdcCommand;
use crate::protocol::config::{MessageLevel, TaskMessage, TaskMessageView};
use crate::protocol::serializer::TransferConfigView;
use crate::protocol::tlv;
use crate::text;
use crate::text::{concat2, concat3, copy_text, decimal_text, join, lossy_text, same_text, to_ascii_lowercase};
use vstd::prelude::*;
use vstd::utf8::*;

verus! {

/// Why a command for images is not carried out.
#[derive(Debug, PartialEq, Eq)]
pub enum FlashError {
    /// There is no word at all.
    MissingCommand,
    /// There are too many or too few words after the command.
    BadArguments { is_update: bool },
    /// The extension is not that of an image.
    BadType(String),
}

/// Why a command for images is not carried out.
pub enum FlashErrorView {
    MissingCommand,
    BadArguments { is_update: bool },
    BadType(Seq<char>),
}

impl View for FlashError {
    type V = FlashErrorView;

    open spec fn view(&self) -> FlashErrorView {
        match *self {
            FlashError::MissingCommand => FlashErrorView::MissingCommand,
            FlashError::BadArguments { is_update } => FlashErrorView::BadArguments { is_update },
            FlashError::BadType(e) => FlashErrorView::BadType(e@),
        }
    }
}

impl FlashErrorView {
    /// The sentence that reports the error.
    pub open spec fn text(self) -> Seq<char> {
        match self {
            FlashErrorView::MissingCommand => "Missing flashd command"@,
            FlashErrorView::BadArguments { is_update } => if is_update {
                "Invalid flashd update arguments"@
            } else {
                "Invalid flashd flash arguments"@
            },
            FlashErrorView::BadType(e) => "Invalid flashd file type: "@ + e
                + " (expected .img/.bin/.fd/.cpio/.zip)"@,
        }
    }
}

impl FlashError {
    /// The sentence that reports the error.
    pub fn message(&self) -> (r: String)
        ensures
            r@ == self@.text(),
    {
        match self {
            FlashError::MissingCommand => "Missing flashd command".to_owned(),
            FlashError::BadArguments { is_update } => if *is_update {
                "Invalid flashd update arguments".to_owned()
            } else {
                "Invalid flashd flash arguments".to_owned()
            },
            FlashError::BadType(e) => concat3(
                "Invalid flashd file type: ",
                e.as_str(),
                " (expected .img/.bin/.fd/.cpio/.zip)",
            ),
        }
    }
}

/// The image that the words of a command name, and whether it is to be forced. An
/// update names the image; flashing names a partition before it.
pub open spec fn flash_args(params: Seq<Seq<char>>, is_update: bool) -> Result<
    (Seq<char>, bool),
    FlashErrorView,
> {
    if params.len() == 0 {
        Err(FlashErrorView::MissingCommand)
    } else {
        let args = params.skip(1);
        let force = dispatch::has_word(args, "-f"@);
        let at = (if is_update {
            0int
        } else {
            1int
        }) + (if force {
            1int
        } else {
            0int
        });
        if args.len() == at + 1 {
            Ok((args[at], force))
        } else {
            Err(FlashErrorView::BadArguments { is_update })
        }
    }
}

/// The image that the words of a command name, and whether it is to be forced.
pub fn parse_flashd_file_args(params: &[String], is_update: bool) -> (r: Result<
    (String, bool),
    FlashError,
>)
    ensures
        match r {
            Ok((p, f)) => flash_args(text::texts(params@), is_update) == Ok::<_, FlashErrorView>((p@, f)),
            Err(e) => flash_args(text::texts(params@), is_update) == Err::<(Seq<char>, bool), _>(e@),
        },
{
    if params.len() == 0 {
        return Err(FlashError::MissingCommand);
    }
    let args = vstd::slice::slice_subrange(params, 1, params.len());
    assert(text::texts(args@) =~= text::texts(params@).skip(1));
    let force = contains_word(args, "-f");
    let mut at: usize = 0;
    if !is_update {
        at = at + 1;
    }
    if force {
        at = at + 1;
    }
    if args.len() == at + 1 {
        assert(text::texts(args@)[at as int] == args@[at as int]@);
        Ok((copy_text(args[at].as_str()), force))
    } else {
        Err(FlashError::BadArguments { is_update })
    }
}

/// The extension of a path, in small letters; nothing where it has none.
pub open spec fn small_extension(path: Seq<char>, separator: char) -> Seq<char> {
    match path::extension(path, separator) {
        Some(e) => text::lowered(e),
        None => Seq::empty(),
    }
}

/// The extension is that of an image.
pub open spec fn is_image(ext: Seq<char>) -> bool {
    ext == "img"@ || ext == "bin"@ || ext == "fd"@ || ext == "cpio"@ || ext == "zip"@
}

/// Whether the ending of a path is that of an image.
pub open spec fn checked_image(path: Seq<char>, separator: char) -> Result<(), FlashErrorView> {
    if is_image(small_extension(path, separator)) {
        Ok(())
    } else {
        Err(FlashErrorView::BadType(small_extension(path, separator)))
    }
}

/// Accepts the path of an image. `separator` divides paths.
pub fn validate_flashd_file(path: &str, separator: char) -> (r: Result<(), FlashError>)
    ensures
        match r {
            Ok(_) => checked_image(path@, separator) is Ok,
            Err(e) => checked_image(path@, separator) == Err::<(), _>(e@),
        },
{
    let ext: String = match file_extension(path, separator) {
        Some(e) => to_ascii_lowercase(e.as_str()),
        None => String::new(),
    };
    let s = ext.as_str();
    if same_text(s, "img") || same_text(s, "bin") || same_text(s, "fd") || same_text(s, "cpio")
        || same_text(s, "zip") {
        Ok(())
    } else {
        Err(FlashError::BadType(ext))
    }
}

/// The request to take an image. Eight zeros stand before what is said of it.
pub open spec fn flash_request(
    channel_id: u32,
    file_size: u64,
    params: Seq<Seq<char>>,
    path: Seq<char>,
    is_update: bool,
    separator: char,
) -> TaskMessageView {
    TaskMessageView {
        channel_id,
        command: HdcCommand::FlashdCheck,
        payload: bytes::zeros(8) + tlv::slots_bytes(
            transfer::file_config(
                file_size,
                text::joined(params, " "@),
                path,
                match path::last_name(path, separator) {
                    Some(name) => name,
                    None => Seq::empty(),
                },
                if is_update {
                    "flashd_update"@
                } else {
                    "flashd_flash"@
                },
            ).slots(),
        ),
    }
}

/// The request to take an image.
pub fn make_flash_request(
    channel_id: u32,
    file_size: u64,
    params: &[String],
    path: &str,
    is_update: bool,
    separator: char,
) -> (r: TaskMessage)
    ensures
        r@ == flash_request(channel_id, file_size, text::texts(params@), path@, is_update, separator),
{
    let name: String = match file_name(path, separator) {
        Some(name) => name,
        None => String::new(),
    };
    let function = if is_update {
        "flashd_update"
    } else {
        "flashd_flash"
    };
    let options = join(params, " ");
    let config = config_bytes(file_size, options.as_str(), path, name.as_str(), function);
    let mut payload: Vec<u8> = Vec::new();
    push_zeros(&mut payload, 8);
    push_bytes(&mut payload, config.as_slice());
    assert(payload@ =~= bytes::zeros(8) + config@);
    TaskMessage { channel_id, command: HdcCommand::FlashdCheck, payload }
}

/// The message that erases or formats a partition.
pub open spec fn flash_command(
    channel_id: u32,
    command: HdcCommand,
    params: Seq<Seq<char>>,
) -> TaskMessageView {
    TaskMessageView { channel_id, command, payload: encode_utf8(text::joined(params, " "@)) }
}

/// The message that erases or formats a partition.
pub fn make_flash_command(channel_id: u32, command: HdcCommand, params: &[String]) -> (r:
    TaskMessage)
    ensures
        r@ == flash_command(channel_id, command, text::texts(params@)),
{
    TaskMessage { channel_id, command, payload: text_bytes(join(params, " ").as_str()) }
}

/// How far the work has come.
pub open spec fn progress_text(percent: u8) -> Seq<char> {
    "\rProcessing: "@ + text::decimal(percent as nat) + "%"@
}

/// How far the work has come.
pub fn make_progress(percent: u8) -> (r: String)
    ensures
        r@ == progress_text(percent),
{
    concat3("\rProcessing: ", decimal_text(percent as u64).as_str(), "%")
}

/// What the user is told after a piece went out: how far the work has come, if that
/// has changed.
pub fn progress_step(last: u8, percent: u8) -> (r: Option<String>)
    ensures
        r is Some == (percent != last),
        r is Some ==> r->Some_0@ == progress_text(percent),
{
    if percent != last {
        Some(make_progress(percent))
    } else {
        None
    }
}

/// What comes of a reply while the daemon works.
#[derive(Debug, PartialEq, Eq)]
pub enum FlashStep {
    /// The reply does not count.
    Pass,
    /// The user is told something.
    Tell(String),
    /// The work is done, and the user is told so.
    Done(String),
    /// The task failed.
    Fail(String),
}

/// What comes of a reply while the daemon works.
pub enum FlashStepView {
    Pass,
    Tell(Seq<char>),
    Done(Seq<char>),
    Fail(Seq<char>),
}

impl View for FlashStep {
    type V = FlashStepView;

    open spec fn view(&self) -> FlashStepView {
        match *self {
            FlashStep::Pass => FlashStepView::Pass,
            FlashStep::Tell(t) => FlashStepView::Tell(t@),
            FlashStep::Done(t) => FlashStepView::Done(t@),
            FlashStep::Fail(t) => FlashStepView::Fail(t@),
        }
    }
}

/// What comes of the last message of the daemon.
pub open spec fn on_flash_finish(payload: Seq<u8>) -> FlashStepView {
    if payload.len() < 2 {
        FlashStepView::Fail(TransferError::BadFinish(HdcCommand::FlashdFinish).text())
    } else {
        let info = text::utf8_lossy(payload.skip(2));
        if payload[1] == MessageLevel::Success.code() {
            FlashStepView::Done(
                if info.len() == 0 {
                    "\r\n"@
                } else {
                    "\r\n"@ + info + "\r\n"@
                },
            )
        } else {
            FlashStepView::Fail("[Fail]Flashd failed: "@ + info)
        }
    }
}

/// What comes of a reply while the daemon works.
pub open spec fn on_flash_reply(channel_id: u32, reply: ReplyView) -> FlashStepView {
    match reply {
        ReplyView::TimedOut => FlashStepView::Fail(
            TransferError::NoAnswer(HdcCommand::FlashdFinish).text(),
        ),
        ReplyView::Closed => FlashStepView::Fail(TransferError::ResponseClosed.text()),
        ReplyView::Message(m) => if m.channel_id != channel_id {
            FlashStepView::Pass
        } else if m.command == HdcCommand::FlashdFinish {
            on_flash_finish(m.payload)
        } else if m.command == HdcCommand::FlashdProgress {
            if m.payload.len() > 0 {
                FlashStepView::Tell(progress_text(m.payload[0]))
            } else {
                FlashStepView::Pass
            }
        } else if m.command == HdcCommand::KernelEcho || m.command == HdcCommand::KernelEchoRaw {
            FlashStepView::Tell(text::utf8_lossy(m.payload))
        } else if m.command == HdcCommand::KernelChannelClose {
            FlashStepView::Fail(TransferError::ChannelClosed.text())
        } else {
            FlashStepView::Pass
        },
    }
}

/// What comes of a reply while the daemon works.
pub fn flash_step(channel_id: u32, reply: &Reply) -> (r: FlashStep)
    ensures
        r@ == on_flash_reply(channel_id, reply@),
{
    match reply {
        Reply::TimedOut => FlashStep::Fail(
            TransferError::NoAnswer(HdcCommand::FlashdFinish).message(),
        ),
        Reply::Closed => FlashStep::Fail(TransferError::ResponseClosed.message()),
        Reply::Message(m) => {
            if m.channel_id != channel_id {
                return FlashStep::Pass;
            }
            let n: usize = m.payload.len();
            match m.command {
                HdcCommand::FlashdFinish => {
                    if n < 2 {
                        return FlashStep::Fail(
                            TransferError::BadFinish(HdcCommand::FlashdFinish).message(),
                        );
                    }
                    let rest = copy_range(m.payload.as_slice(), 2, n);
                    assert(rest@ =~= m.payload@.skip(2));
                    let info = lossy_text(rest.as_slice());
                    if m.payload[1] == MessageLevel::Success.as_u8() {
                        if info.as_str().is_empty() {
                            FlashStep::Done("\r\n".to_owned())
                        } else {
                            FlashStep::Done(concat3("\r\n", info.as_str(), "\r\n"))
                        }
                    } else {
                        FlashStep::Fail(concat2("[Fail]Flashd failed: ", info.as_str()))
                    }
                },
                HdcCommand::FlashdProgress => {
                    if n > 0 {
                        FlashStep::Tell(make_progress(m.payload[0]))
                    } else {
                        FlashStep::Pass
                    }
                },
                HdcCommand::KernelEcho | HdcCommand::KernelEchoRaw => FlashStep::Tell(
                    lossy_text(m.payload.as_slice()),
                ),
                HdcCommand::KernelChannelClose => FlashStep::Fail(
                    TransferError::ChannelClosed.message(),
                ),
                _ => FlashStep::Pass,
            }
        },
    }
}

/// The image is the last word of a flash command: behind the partition, or alone where the whole
/// system is updated. `-f` forces the command.
pub proof fn image_is_found(
    name: Seq<char>,
    partition: Seq<char>,
    image: Seq<char>,
)
    requires
        partition != "-f"@,
        image != "-f"@,
    ensures
        flash_args(seq![name, image], true) == Ok::<_, FlashErrorView>((image, false)),
        flash_args(seq![name, "-f"@, image], true) == Ok::<_, FlashErrorView>((image, true)),
        flash_args(seq![name, partition, image], false) == Ok::<_, FlashErrorView>((image, false)),
        flash_args(seq![name, "-f"@, partition, image], false) == Ok::<_, FlashErrorView>(
            (image, true),
        ),
        flash_args(seq![name], true) == Err::<(Seq<char>, bool), _>(
            FlashErrorView::BadArguments { is_update: true },
        ),
        flash_args(seq![name, image], false) == Err::<(Seq<char>, bool), _>(
            FlashErrorView::BadArguments { is_update: false },
        ),
        flash_args(Seq::empty(), true) == Err::<(Seq<char>, bool), _>(
            FlashErrorView::MissingCommand,
        ),
{
    let f = "-f"@;
    assert(seq![name, image].skip(1) =~= seq![image]);
    assert(seq![name, f, image].skip(1) =~= seq![f, image]);
    assert(seq![name, partition, image].skip(1) =~= seq![partition, image]);
    assert(seq![name, f, partition, image].skip(1) =~= seq![f, partition, image]);
    assert(seq![name].skip(1) =~= Seq::<Seq<char>>::empty());
    assert(seq![f, image][0] == f);
    assert(seq![f, partition, image][0] == f);
}

/// The kinds of images that can be flashed.
pub proof fn kinds_of_images()
    ensures
        is_image("img"@),
        is_image("bin"@),
        is_image("fd"@),
        is_image("cpio"@),
        is_image("zip"@),
        !is_image("hap"@),
        !is_image(Seq::<char>::empty()),
{
    reveal_strlit("img");
    reveal_strlit("bin");
    reveal_strlit("fd");
    reveal_strlit("cpio");
    reveal_strlit("zip");
    reveal_strlit("hap");
    assert("img"@.len() == 3 && "bin"@.len() == 3 && "fd"@.len() == 2 && "cpio"@.len() == 4
        && "zip"@.len() == 3 && "hap"@.len() == 3);
    assert("hap"@[0] == 'h' && "img"@[0] == 'i' && "bin"@[0] == 'b' && "zip"@[0] == 'z');
}

/// An image is offered to the device behind eight zeros, with its size, its path, its name, the
/// words of the user, and whether it is an update or goes to a partition.
pub proof fn image_is_offered(
    channel_id: u32,
    file_size: u64,
    params: Seq<Seq<char>>,
    path: Seq<char>,
    is_update: bool,
    separator: char,
)
    requires
        encode_utf8(text::joined(params, " "@)).len() < 0x1_0000_0000,
        encode_utf8(path).len() < 0x1_0000_0000,
        path::last_name(path, separator) is Some,
        encode_utf8(path::last_name(path, separator)->Some_0).len() < 0x1_0000_0000,
    ensures
        ({
            let m = flash_request(channel_id, file_size, params, path, is_update, separator);
            let read = TransferConfigView::parsed(m.payload.skip(8));
            &&& m.channel_id == channel_id
            &&& m.command == HdcCommand::FlashdCheck
            &&& m.payload.take(8) == seq![0u8, 0, 0, 0, 0, 0, 0, 0]
            &&& read is Ok
            &&& read->Ok_0.file_size == file_size
            &&& read->Ok_0.path == path
            &&& read->Ok_0.options == text::joined(params, " "@)
            &&& read->Ok_0.optional_name == path::last_name(path, separator)->Some_0
            &&& read->Ok_0.function_name == (if is_update {
                "flashd_update"@
            } else {
                "flashd_flash"@
            })
        }),
{
    let purpose = if is_update {
        "flashd_update"@
    } else {
        "flashd_flash"@
    };
    reveal_strlit("flashd_update");
    reveal_strlit("flashd_flash");
    is_ascii_chars_encode_utf8(purpose);
    let name = path::last_name(path, separator)->Some_0;
    transfer::description_is_understood(
        file_size,
        text::joined(params, " "@),
        path,
        name,
        purpose,
    );
    let m = flash_request(channel_id, file_size, params, path, is_update, separator);
    assert(m.payload.skip(8) =~= tlv::slots_bytes(
        transfer::file_config(
            file_size,
            text::joined(params, " "@),
            path,
            name,
            purpose,
        ).slots(),
    ));
    assert(m.payload.take(8) =~= seq![0u8, 0, 0, 0, 0, 0, 0, 0]);
}

/// A flash command ends well where the device says so with the level of a success, and badly
/// with any other level; its progress and what it prints are told meanwhile. Messages of other
/// channels are passed over.
pub proof fn flashing_is_told(channel_id: u32, other: u32, said: Seq<char>, level: u8, percent: u8)
    requires
        other != channel_id,
    ensures
        said.len() > 0 ==> on_flash_reply(
            channel_id,
            ReplyView::Message(
                TaskMessageView {
                    channel_id,
                    command: HdcCommand::FlashdFinish,
                    payload: seq![0u8, 2u8] + encode_utf8(said),
                },
            ),
        ) == FlashStepView::Done("\r\n"@ + said + "\r\n"@),
        level != 2 ==> on_flash_reply(
            channel_id,
            ReplyView::Message(
                TaskMessageView {
                    channel_id,
                    command: HdcCommand::FlashdFinish,
                    payload: seq![0u8, level] + encode_utf8(said),
                },
            ),
        ) == FlashStepView::Fail("[Fail]Flashd failed: "@ + said),
        on_flash_reply(
            channel_id,
            ReplyView::Message(
                TaskMessageView {
                    channel_id,
                    command: HdcCommand::FlashdProgress,
                    payload: seq![percent],
                },
            ),
        ) == FlashStepView::Tell("\rProcessing: "@ + text::decimal(percent as nat) + "%"@),
        forall|c: HdcCommand|
            c == HdcCommand::KernelEcho || c == HdcCommand::KernelEchoRaw
                ==> #[trigger] on_flash_reply(
                channel_id,
                ReplyView::Message(
                    TaskMessageView { channel_id, command: c, payload: encode_utf8(said) },
                ),
            ) == FlashStepView::Tell(said),
        on_flash_reply(
            channel_id,
            ReplyView::Message(
                TaskMessageView {
                    channel_id,
                    command: HdcCommand::KernelChannelClose,
                    payload: seq![0u8],
                },
            ),
        ) is Fail,
        forall|c: HdcCommand|
            #[trigger] on_flash_reply(
                channel_id,
                ReplyView::Message(
                    TaskMessageView {
                        channel_id: other,
                        command: c,
                        payload: encode_utf8(said),
                    },
                ),
            ) == FlashStepView::Pass,
        on_flash_reply(channel_id, ReplyView::Closed) is Fail,
        on_flash_reply(channel_id, ReplyView::TimedOut) is Fail,
{
    text::text_of_its_bytes(said);
    let b = encode_utf8(said);
    assert((seq![0u8, 2u8] + b).skip(2) =~= b);
    assert((seq![0u8, level] + b).skip(2) =~= b);
}

/// The commands that work on a partition go to the device as they are, the words with a blank
/// between them.
pub proof fn partition_commands(channel_id: u32, c: HdcCommand, params: Seq<Seq<char>>)
    ensures
        flash_command(channel_id, c, params) == (TaskMessageView {
            channel_id,
            command: c,
            payload: encode_utf8(text::joined(params, " "@)),
        }),
{
}

/// A file is taken for an image by its ending, which may be written in capital letters too; any
/// other ending is told.
pub proof fn images_are_told_by_their_ending(dir: Seq<char>, stem: Seq<char>, ending: Seq<char>)
    requires
        stem.len() > 0,
        !ending.contains('.'),
        path::plain_name(stem + seq!['.'] + ending, path::BACKSLASH),
        path::plain_name(ending, path::BACKSLASH),
    ensures
        ({
            let path = dir + seq!['/'] + (stem + seq!['.'] + ending);
            let small = text::lowered(ending);
            let known = small == "img"@ || small == "bin"@ || small == "fd"@ || small == "cpio"@
                || small == "zip"@;
            &&& known ==> checked_image(path, '/') is Ok
            &&& !known ==> checked_image(path, '/') == Err::<(), FlashErrorView>(
                FlashErrorView::BadType(small),
            )
        }),
{
    path::extension_follows_the_last_stop(dir, stem, ending);
}

/// What is said of the progress is the share that is done.
pub proof fn progress_is_told(percent: u8)
    ensures
        progress_text(percent) == "\rProcessing: "@ + text::decimal(percent as nat) + "%"@,
{
}

} // verus!
