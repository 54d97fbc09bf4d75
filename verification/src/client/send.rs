//! Uploading files to a server: what is read locally, and the conversation with the
//! server. The program reads and writes; what it reads and what came of its writes goes
//! in, and what to do next comes out.

use std::collections::VecDeque;
use vstd::prelude::*;
use crate::protocol::ClientKeybindings;
use crate::protocol::ClientLaunchMode;
use crate::protocol::ClientMessage;
use crate::protocol::ClientMessageView;
use crate::protocol::RenderEncoding;
use crate::protocol::ServerMessage;
use crate::protocol::ServerMessageView;
use crate::text::concat;
use crate::text::copy_of;
use crate::text::decimal;
use crate::text::decimal_string;
use crate::text::has_substring;
use crate::text::law_substring_is_surrounded;
use crate::text::same_text;

verus! {

/// The longest wait for one reply of the server, in seconds.
pub const REPLY_TIMEOUT: u64 = 300;

// ---------------------------------------------------------------------------
// Local files
// ---------------------------------------------------------------------------

/// A local file read into memory, ready to send.
#[derive(Debug, PartialEq, Eq)]
pub struct LocalFile {
    pub name: String,
    pub data: Vec<u8>,
}

/// The model of [`LocalFile`].
pub struct FileView {
    pub name: Seq<char>,
    pub data: Seq<u8>,
}

impl LocalFile {
    /// The model of the file.
    pub open spec fn view(&self) -> FileView {
        FileView { name: self.name@, data: self.data@ }
    }
}

/// The models of a list of files.
pub open spec fn files_view(files: Seq<LocalFile>) -> Seq<FileView> {
    files.map_values(|f: LocalFile| f@)
}

/// What is known of a path before it is read.
pub struct FileMeta {
    pub is_file: bool,
    pub len: u64,
}

/// One path to send, and what was found there. Each outcome is a value or the message of
/// the error.
pub struct FileProbe {
    /// The path as it is shown.
    pub display: String,
    /// The last component of the path, where it has one.
    pub file_name: Option<String>,
    pub meta: Result<FileMeta, String>,
    /// What was read, up to one byte past the limit.
    pub content: Result<Vec<u8>, String>,
}

/// Why a path is not read, where there is a reason.
pub open spec fn meta_complaint(
    display: Seq<char>,
    meta: Result<FileMeta, String>,
    limit: u64,
) -> Option<Seq<char>> {
    match meta {
        Err(err) => Some(display + ": "@ + err@),
        Ok(meta) => if !meta.is_file {
            Some(display + ": not a regular file"@)
        } else if meta.len > limit {
            Some(
                display + ": "@ + decimal(meta.len as nat) + " bytes exceeds the "@ + decimal(
                    limit as nat,
                ) + " byte limit"@,
            )
        } else {
            None
        },
    }
}

/// Whether a path is to be read, given what is known of it; how many bytes to ask for, or
/// why not. The file can grow before it is read, so one byte past the limit is asked for.
pub fn check_metadata(
    display: &str,
    meta: &Result<FileMeta, String>,
    limit: u64,
) -> (r: Result<u128, String>)
    ensures
        match r {
            Ok(count) => meta_complaint(display@, *meta, limit) is None && count == limit + 1,
            Err(message) => meta_complaint(display@, *meta, limit) == Some(message@),
        },
{
    let mut message = copy_of(display);
    match meta {
        Err(err) => {
            message.push_str(": ");
            message.push_str(err.as_str());
            Err(message)
        },
        Ok(meta) => {
            if !meta.is_file {
                message.push_str(": not a regular file");
                Err(message)
            } else if meta.len > limit {
                message.push_str(": ");
                message.push_str(decimal_string(meta.len as u128).as_str());
                message.push_str(" bytes exceeds the ");
                message.push_str(decimal_string(limit as u128).as_str());
                message.push_str(" byte limit");
                Err(message)
            } else {
                Ok(limit as u128 + 1)
            }
        },
    }
}

/// The file at a path, or why it cannot be sent.
pub open spec fn local_file(probe: FileProbe, limit: u64) -> Result<FileView, Seq<char>> {
    match meta_complaint(probe.display@, probe.meta, limit) {
        Some(message) => Err(message),
        None => match probe.content {
            Err(err) => Err(probe.display@ + ": "@ + err@),
            Ok(data) => if data@.len() > limit {
                Err(
                    probe.display@ + ": grew past the "@ + decimal(limit as nat)
                        + " byte limit while reading"@,
                )
            } else {
                Ok(
                    FileView {
                        name: match probe.file_name {
                            Some(name) => name@,
                            None => "file"@,
                        },
                        data: data@,
                    },
                )
            },
        },
    }
}

/// The file at a path, or why it cannot be sent.
pub fn read_local_file(probe: FileProbe, limit: u64) -> (r: Result<LocalFile, String>)
    ensures
        match r {
            Ok(file) => local_file(probe, limit) == Ok::<FileView, Seq<char>>(file@),
            Err(message) => local_file(probe, limit) == Err::<FileView, Seq<char>>(message@),
        },
{
    match check_metadata(probe.display.as_str(), &probe.meta, limit) {
        Ok(_) => {},
        Err(message) => {
            return Err(message);
        },
    }
    let mut message = probe.display;
    match probe.content {
        Err(err) => {
            message.push_str(": ");
            message.push_str(err.as_str());
            Err(message)
        },
        Ok(data) => {
            if data.len() as u64 > limit {
                message.push_str(": grew past the ");
                message.push_str(decimal_string(limit as u128).as_str());
                message.push_str(" byte limit while reading");
                return Err(message);
            }
            let name = match probe.file_name {
                Some(name) => name,
                None => copy_of("file"),
            };
            Ok(LocalFile { name, data })
        },
    }
}

/// The files at a list of paths; the first path that cannot be sent decides otherwise.
pub open spec fn local_files(probes: Seq<FileProbe>, limit: u64) -> Result<
    Seq<FileView>,
    Seq<char>,
>
    decreases probes.len(),
{
    if probes.len() == 0 {
        Ok(Seq::empty())
    } else {
        match local_files(probes.drop_last(), limit) {
            Err(message) => Err(message),
            Ok(files) => match local_file(probes.last(), limit) {
                Err(message) => Err(message),
                Ok(file) => Ok(files.push(file)),
            },
        }
    }
}

/// The files at a list of paths, or what is wrong with the first path that cannot be
/// sent.
pub fn read_local_files(probes: Vec<FileProbe>, limit: u64) -> (r: Result<Vec<LocalFile>, String>)
    ensures
        match r {
            Ok(files) => local_files(probes@, limit) == Ok::<Seq<FileView>, Seq<char>>(
                files_view(files@),
            ),
            Err(message) => local_files(probes@, limit) == Err::<Seq<FileView>, Seq<char>>(
                message@,
            ),
        },
{
    let ghost all = probes@;
    let mut files: Vec<LocalFile> = Vec::new();
    assert(files_view(files@) =~= Seq::<FileView>::empty());
    let mut failure: Option<String> = None;
    for probe in it: probes
        invariant
            it.seq() == all,
            match failure {
                None => local_files(all.take(it.index() as int), limit) == Ok::<
                    Seq<FileView>,
                    Seq<char>,
                >(files_view(files@)),
                Some(message) => local_files(all.take(it.index() as int), limit) == Err::<
                    Seq<FileView>,
                    Seq<char>,
                >(message@),
            },
    {
        assert(all.take(it.index() + 1).drop_last() =~= all.take(it.index() as int));
        assert(all.take(it.index() + 1).last() == probe);
        if failure.is_none() {
            match read_local_file(probe, limit) {
                Ok(file) => {
                    let ghost before = files_view(files@);
                    files.push(file);
                    assert(files_view(files@) =~= before.push(file@));
                },
                Err(message) => {
                    failure = Some(message);
                },
            }
        }
    }
    assert(all.take(all.len() as int) =~= all);
    match failure {
        None => Ok(files),
        Some(message) => Err(message),
    }
}

// ---------------------------------------------------------------------------
// The conversation
// ---------------------------------------------------------------------------

/// What the server did with one uploaded file.
#[derive(Debug, PartialEq, Eq)]
pub struct StagedFile {
    pub name: String,
    /// Where the server keeps the file, or why it does not.
    pub result: Result<String, String>,
}

/// The model of [`StagedFile`].
pub struct StagedView {
    pub name: Seq<char>,
    pub result: Result<Seq<char>, Seq<char>>,
}

impl StagedFile {
    /// The model of the outcome.
    pub open spec fn view(&self) -> StagedView {
        StagedView {
            name: self.name@,
            result: match self.result {
                Ok(path) => Ok(path@),
                Err(error) => Err(error@),
            },
        }
    }
}

/// The models of a list of outcomes.
pub open spec fn staged_view(staged: Seq<StagedFile>) -> Seq<StagedView> {
    staged.map_values(|s: StagedFile| s@)
}

/// What came of the last thing to do. An error is given by its message.
#[derive(Debug, PartialEq, Eq)]
pub enum UploadEvent {
    Sent(Result<(), String>),
    Received(Result<ServerMessage, String>),
}

/// The model of [`UploadEvent`].
pub enum UploadEventView {
    Sent(Result<(), Seq<char>>),
    Received(Result<ServerMessageView, Seq<char>>),
}

impl UploadEvent {
    /// The model of the event.
    pub open spec fn view(&self) -> UploadEventView {
        match self {
            UploadEvent::Sent(Ok(())) => UploadEventView::Sent(Ok(())),
            UploadEvent::Sent(Err(err)) => UploadEventView::Sent(Err(err@)),
            UploadEvent::Received(Ok(message)) => UploadEventView::Received(Ok(message@)),
            UploadEvent::Received(Err(err)) => UploadEventView::Received(Err(err@)),
        }
    }
}

/// How large a message of the server may be.
#[derive(Debug, Clone, Copy, PartialEq, Eq, Structural)]
pub enum ReplyLimit {
    /// As large as a frame without graphics.
    Frame,
    /// As large as a frame with graphics.
    GraphicsFrame,
}

/// What to do next.
#[derive(Debug, PartialEq, Eq)]
pub enum UploadAction {
    /// Send this message.
    Send(ClientMessage),
    /// Read the server's next message, of at most this size.
    Receive(ReplyLimit),
    /// The upload is done.
    Finish,
    /// The upload has failed.
    Fail(String),
    /// Nothing: the event does not belong to what was to be done.
    Nothing,
}

/// The model of [`UploadAction`].
pub enum UploadActionView {
    Send(ClientMessageView),
    Receive(ReplyLimit),
    Finish,
    Fail(Seq<char>),
    Nothing,
}

impl UploadAction {
    /// The model of the action.
    pub open spec fn view(&self) -> UploadActionView {
        match self {
            UploadAction::Send(message) => UploadActionView::Send(message@),
            UploadAction::Receive(limit) => UploadActionView::Receive(*limit),
            UploadAction::Finish => UploadActionView::Finish,
            UploadAction::Fail(message) => UploadActionView::Fail(message@),
            UploadAction::Nothing => UploadActionView::Nothing,
        }
    }
}

/// How far the conversation has come.
#[derive(Debug, Clone, Copy, PartialEq, Eq, Structural)]
pub enum UploadPhase {
    /// The greeting is being sent.
    Greeting,
    /// The answer to the greeting is awaited.
    Welcome,
    /// A file is being sent.
    Sending,
    /// The answer to a file is awaited.
    Reply,
    /// The leave is being sent.
    Leaving,
    /// Everything was sent and answered.
    Finished,
    /// Something went wrong.
    Failed,
}

/// What an upload stands for.
#[verifier::ext_equal]
pub struct UploadView {
    /// The files that have not been sent yet.
    pub pending: Seq<FileView>,
    /// The name of the file that was sent last.
    pub current: Seq<char>,
    pub staged: Seq<StagedView>,
    pub phase: UploadPhase,
}

/// The greeting of a client that speaks the given version of the protocol. It asks for a
/// direct attach and never attaches, so that the running session is left alone.
pub open spec fn hello(version: u32) -> ClientMessageView {
    ClientMessageView::Hello {
        version,
        cols: 80,
        rows: 24,
        cell_width_px: 0,
        cell_height_px: 0,
        requested_encoding: RenderEncoding::TerminalAnsi,
        keybindings: ClientKeybindings::Server,
        launch_mode: ClientLaunchMode::TerminalAttach,
    }
}

/// The message that carries a file. It is not pasted anywhere.
pub open spec fn file_message(file: FileView) -> ClientMessageView {
    ClientMessageView::ClipboardFile { name: file.name, data: file.data, paste: false }
}

/// What the server's reply says of a file.
pub open spec fn staged_result(path: Option<Seq<char>>, error: Option<Seq<char>>) -> Result<
    Seq<char>,
    Seq<char>,
> {
    match (path, error) {
        (Some(path), _) => Ok(path),
        (None, Some(error)) => Err(error),
        (None, None) => Err("server reported no path and no error"@),
    }
}

/// What is said when the server ends.
pub open spec fn shutdown_text(reason: Option<Seq<char>>) -> Seq<char> {
    match reason {
        Some(reason) => "server is shutting down"@ + (": "@ + reason),
        None => "server is shutting down"@ + Seq::<char>::empty(),
    }
}

impl UploadView {
    /// An upload of `files` whose greeting is being sent.
    pub open spec fn begun(files: Seq<FileView>) -> Self {
        UploadView {
            pending: files,
            current: Seq::empty(),
            staged: Seq::empty(),
            phase: UploadPhase::Greeting,
        }
    }

    /// The upload after it has failed.
    pub open spec fn fail(self, message: Seq<char>) -> (Self, UploadActionView) {
        (UploadView { phase: UploadPhase::Failed, ..self }, UploadActionView::Fail(message))
    }

    /// The upload after it went on to the next file, or to its leave.
    pub open spec fn go_on(self) -> (Self, UploadActionView) {
        if self.pending.len() == 0 {
            (
                UploadView { phase: UploadPhase::Leaving, ..self },
                UploadActionView::Send(ClientMessageView::Detach),
            )
        } else {
            (
                UploadView {
                    pending: self.pending.drop_first(),
                    current: self.pending[0].name,
                    phase: UploadPhase::Sending,
                    ..self
                },
                UploadActionView::Send(file_message(self.pending[0])),
            )
        }
    }

    /// The upload after an event, and what to do then.
    pub open spec fn step(self, event: UploadEventView) -> (Self, UploadActionView) {
        match (self.phase, event) {
            (UploadPhase::Greeting, UploadEventView::Sent(Ok(()))) => (
                UploadView { phase: UploadPhase::Welcome, ..self },
                UploadActionView::Receive(ReplyLimit::Frame),
            ),
            (UploadPhase::Greeting, UploadEventView::Sent(Err(err))) => self.fail(
                "failed to send hello: "@ + err,
            ),
            (UploadPhase::Welcome, UploadEventView::Received(Err(err))) => self.fail(
                "failed to read welcome: "@ + err,
            ),
            (UploadPhase::Welcome, UploadEventView::Received(Ok(message))) => match message {
                ServerMessageView::Welcome { error: None, .. } => self.go_on(),
                ServerMessageView::Welcome { error: Some(error), .. } => self.fail(
                    "server rejected the connection: "@ + error,
                ),
                _ => self.fail("expected Welcome from the server"@),
            },
            (UploadPhase::Sending, UploadEventView::Sent(Ok(()))) => (
                UploadView { phase: UploadPhase::Reply, ..self },
                UploadActionView::Receive(ReplyLimit::GraphicsFrame),
            ),
            (UploadPhase::Sending, UploadEventView::Sent(Err(err))) => self.fail(
                "failed to send "@ + self.current + ": "@ + err,
            ),
            (UploadPhase::Reply, UploadEventView::Received(Err(err))) => self.fail(
                "lost connection while sending "@ + self.current + ": "@ + err,
            ),
            (UploadPhase::Reply, UploadEventView::Received(Ok(message))) => match message {
                ServerMessageView::FileStaged { name, path, error } => if name == self.current {
                    UploadView {
                        staged: self.staged.push(
                            StagedView { name, result: staged_result(path, error) },
                        ),
                        ..self
                    }.go_on()
                } else {
                    (self, UploadActionView::Receive(ReplyLimit::GraphicsFrame))
                },
                ServerMessageView::ServerShutdown { reason } => self.fail(shutdown_text(reason)),
                _ => (self, UploadActionView::Receive(ReplyLimit::GraphicsFrame)),
            },
            (UploadPhase::Leaving, UploadEventView::Sent(_)) => (
                UploadView { phase: UploadPhase::Finished, ..self },
                UploadActionView::Finish,
            ),
            _ => (self, UploadActionView::Nothing),
        }
    }
}

/// One upload in progress.
pub struct Upload {
    pending: VecDeque<LocalFile>,
    current: String,
    staged: Vec<StagedFile>,
    phase: UploadPhase,
}

impl Upload {
    /// The model of the upload.
    pub closed spec fn view(&self) -> UploadView {
        UploadView {
            pending: files_view(self.pending@),
            current: self.current@,
            staged: staged_view(self.staged@),
            phase: self.phase,
        }
    }

    fn fail(&mut self, message: String) -> (r: UploadAction)
        ensures
            (final(self)@, r@) == old(self)@.fail(message@),
    {
        self.phase = UploadPhase::Failed;
        UploadAction::Fail(message)
    }

    fn go_on(&mut self) -> (r: UploadAction)
        ensures
            (final(self)@, r@) == old(self)@.go_on(),
    {
        let ghost before = self.pending@;
        let next = self.pending.pop_front();
        match next {
            None => {
                self.phase = UploadPhase::Leaving;
                UploadAction::Send(ClientMessage::Detach)
            },
            Some(file) => {
                proof {
                    assert(file == before[0]);
                    assert(files_view(self.pending@) =~= files_view(before).drop_first());
                }
                self.current = file.name.clone();
                self.phase = UploadPhase::Sending;
                UploadAction::Send(
                    ClientMessage::ClipboardFile { name: file.name, data: file.data, paste: false },
                )
            },
        }
    }

    fn handshake(&mut self, answer: Result<ServerMessage, String>) -> (r: UploadAction)
        requires
            old(self)@.phase == UploadPhase::Welcome,
        ensures
            (final(self)@, r@) == old(self)@.step(UploadEvent::Received(answer)@),
    {
        match answer {
            Err(err) => self.fail(concat("failed to read welcome: ", err.as_str())),
            Ok(ServerMessage::Welcome { error, .. }) => match error {
                None => self.go_on(),
                Some(error) => self.fail(
                    concat("server rejected the connection: ", error.as_str()),
                ),
            },
            Ok(_) => self.fail(copy_of("expected Welcome from the server")),
        }
    }

    fn read_reply(&mut self, answer: Result<ServerMessage, String>) -> (r: UploadAction)
        requires
            old(self)@.phase == UploadPhase::Reply,
        ensures
            (final(self)@, r@) == old(self)@.step(UploadEvent::Received(answer)@),
    {
        match answer {
            Err(err) => {
                let mut message = copy_of("lost connection while sending ");
                message.push_str(self.current.as_str());
                message.push_str(": ");
                message.push_str(err.as_str());
                self.fail(message)
            },
            Ok(ServerMessage::FileStaged { name, path, error }) => {
                if !same_text(name.as_str(), self.current.as_str()) {
                    return UploadAction::Receive(ReplyLimit::GraphicsFrame);
                }
                let result = match (path, error) {
                    (Some(path), _) => Ok(path),
                    (None, Some(error)) => Err(error),
                    (None, None) => Err(copy_of("server reported no path and no error")),
                };
                let ghost before = staged_view(self.staged@);
                let outcome = StagedFile { name, result };
                self.staged.push(outcome);
                assert(staged_view(self.staged@) =~= before.push(outcome@));
                self.go_on()
            },
            Ok(ServerMessage::ServerShutdown { reason }) => {
                let mut message = copy_of("server is shutting down");
                match reason {
                    Some(reason) => {
                        message.push_str(": ");
                        message.push_str(reason.as_str());
                        assert(message@ =~= shutdown_text(Some(reason@)));
                    },
                    None => {
                        assert(message@ =~= shutdown_text(None));
                    },
                }
                self.fail(message)
            },
            Ok(_) => UploadAction::Receive(ReplyLimit::GraphicsFrame),
        }
    }

    /// What to do after an event.
    pub fn step(&mut self, event: UploadEvent) -> (r: UploadAction)
        ensures
            (final(self)@, r@) == old(self)@.step(event@),
    {
        match (self.phase, event) {
            (UploadPhase::Greeting, UploadEvent::Sent(Ok(()))) => {
                self.phase = UploadPhase::Welcome;
                UploadAction::Receive(ReplyLimit::Frame)
            },
            (UploadPhase::Greeting, UploadEvent::Sent(Err(err))) => self.fail(
                concat("failed to send hello: ", err.as_str()),
            ),
            (UploadPhase::Welcome, UploadEvent::Received(answer)) => self.handshake(answer),
            (UploadPhase::Sending, UploadEvent::Sent(Ok(()))) => {
                self.phase = UploadPhase::Reply;
                UploadAction::Receive(ReplyLimit::GraphicsFrame)
            },
            (UploadPhase::Sending, UploadEvent::Sent(Err(err))) => {
                let mut message = copy_of("failed to send ");
                message.push_str(self.current.as_str());
                message.push_str(": ");
                message.push_str(err.as_str());
                self.fail(message)
            },
            (UploadPhase::Reply, UploadEvent::Received(answer)) => self.read_reply(answer),
            (UploadPhase::Leaving, UploadEvent::Sent(_)) => {
                self.phase = UploadPhase::Finished;
                UploadAction::Finish
            },
            _ => UploadAction::Nothing,
        }
    }

    /// What the server did with each file that it answered for.
    pub fn into_staged(self) -> (r: Vec<StagedFile>)
        ensures
            staged_view(r@) == self@.staged,
    {
        self.staged
    }
}

/// Begins to upload `files` to a server: the upload, and the first thing to do.
pub fn send_files_over(version: u32, files: Vec<LocalFile>) -> (r: (Upload, UploadAction))
    ensures
        r.0@ == UploadView::begun(files_view(files@)),
        r.1@ == UploadActionView::Send(hello(version)),
{
    let ghost all = files@;
    let mut pending: VecDeque<LocalFile> = VecDeque::new();
    for file in it: files
        invariant
            it.seq() == all,
            pending@ == all.take(it.index() as int),
    {
        pending.push_back(file);
        assert(pending@ =~= all.take(it.index() + 1));
    }
    assert(pending@ =~= all);
    let upload = Upload {
        pending,
        current: String::new(),
        staged: Vec::new(),
        phase: UploadPhase::Greeting,
    };
    assert(upload@ =~= UploadView::begun(files_view(all)));
    (
        upload,
        UploadAction::Send(
            ClientMessage::Hello {
                version,
                cols: 80,
                rows: 24,
                cell_width_px: 0,
                cell_height_px: 0,
                requested_encoding: RenderEncoding::TerminalAnsi,
                keybindings: ClientKeybindings::Server,
                launch_mode: ClientLaunchMode::TerminalAttach,
            },
        ),
    )
}

// ---------------------------------------------------------------------------
// Laws
// ---------------------------------------------------------------------------

/// The upload after the events in `events`, the first one first.
pub open spec fn after_events(files: Seq<FileView>, events: Seq<UploadEventView>) -> UploadView
    decreases events.len(),
{
    if events.len() == 0 {
        UploadView::begun(files)
    } else {
        after_events(files, events.drop_last()).step(events.last()).0
    }
}

/// What was sent by then, the greeting among it.
pub open spec fn sent_messages(
    version: u32,
    files: Seq<FileView>,
    events: Seq<UploadEventView>,
) -> Seq<ClientMessageView>
    decreases events.len(),
{
    if events.len() == 0 {
        seq![hello(version)]
    } else {
        let front = events.drop_last();
        let sent = sent_messages(version, files, front);
        match after_events(files, front).step(events.last()).1 {
            UploadActionView::Send(message) => sent.push(message),
            _ => sent,
        }
    }
}

/// A whole conversation: the greeting, every file in order, and the leave.
pub open spec fn whole_conversation(version: u32, files: Seq<FileView>) -> Seq<ClientMessageView> {
    seq![hello(version)] + files.map_values(|f: FileView| file_message(f)) + seq![
        ClientMessageView::Detach,
    ]
}

spec fn in_order(
    version: u32,
    files: Seq<FileView>,
    upload: UploadView,
    sent: Seq<ClientMessageView>,
) -> bool {
    let whole = whole_conversation(version, files);
    let done = upload.staged.len() as int;
    &&& done <= files.len()
    &&& forall|i: int| 0 <= i < done ==> #[trigger] upload.staged[i].name == files[i].name
    &&& sent.is_prefix_of(whole)
    &&& match upload.phase {
        UploadPhase::Greeting | UploadPhase::Welcome => {
            &&& done == 0
            &&& sent.len() == 1
            &&& upload.pending == files
        },
        UploadPhase::Sending | UploadPhase::Reply => {
            &&& done < files.len()
            &&& upload.current == files[done].name
            &&& upload.pending == files.skip(done + 1)
            &&& sent.len() == done + 2
        },
        UploadPhase::Leaving | UploadPhase::Finished => {
            &&& done == files.len()
            &&& sent == whole
        },
        UploadPhase::Failed => true,
    }
}

proof fn lemma_go_on(
    version: u32,
    files: Seq<FileView>,
    upload: UploadView,
    sent: Seq<ClientMessageView>,
)
    requires
        upload.staged.len() <= files.len(),
        forall|i: int|
            0 <= i < upload.staged.len() ==> #[trigger] upload.staged[i].name == files[i].name,
        sent.is_prefix_of(whole_conversation(version, files)),
        sent.len() == upload.staged.len() + 1,
        upload.pending == files.skip(upload.staged.len() as int),
    ensures
        upload.go_on().1 matches UploadActionView::Send(message) && in_order(
            version,
            files,
            upload.go_on().0,
            sent.push(message),
        ),
{
    let whole = whole_conversation(version, files);
    let done = upload.staged.len() as int;
    assert(whole.len() == files.len() + 2);
    if upload.pending.len() == 0 {
        assert(sent.push(ClientMessageView::Detach) =~= whole);
    } else {
        assert(upload.pending[0] == files[done]);
        assert(whole[done + 1] == file_message(files[done]));
        assert(sent.push(file_message(files[done])) =~= whole.take(done + 2));
        assert(upload.pending.drop_first() =~= files.skip(done + 1));
    }
}

proof fn lemma_in_order(version: u32, files: Seq<FileView>, events: Seq<UploadEventView>)
    ensures
        in_order(version, files, after_events(files, events), sent_messages(version, files, events)),
    decreases events.len(),
{
    let whole = whole_conversation(version, files);
    if events.len() == 0 {
        assert(seq![hello(version)] =~= whole.take(1));
    } else {
        let front = events.drop_last();
        lemma_in_order(version, files, front);
        let before = after_events(files, front);
        let sent = sent_messages(version, files, front);
        match (before.phase, events.last()) {
            (UploadPhase::Welcome, UploadEventView::Received(Ok(message))) => {
                if let ServerMessageView::Welcome { error: None, .. } = message {
                    assert(files.skip(0) =~= files);
                    lemma_go_on(version, files, before, sent);
                }
            },
            (UploadPhase::Reply, UploadEventView::Received(Ok(message))) => {
                if let ServerMessageView::FileStaged { name, path, error } = message {
                    if name == before.current {
                        let next = UploadView {
                            staged: before.staged.push(
                                StagedView { name, result: staged_result(path, error) },
                            ),
                            ..before
                        };
                        lemma_go_on(version, files, next, sent);
                    }
                }
            },
            _ => {},
        }
    }
}

/// The conversation goes in order: whatever the server answers, what was sent is the
/// greeting, then files in the order given, then the leave. When the upload is done, all
/// of it was sent, and there is one outcome for each file, in order and under its name.
pub proof fn law_conversation_goes_in_order(
    version: u32,
    files: Seq<FileView>,
    events: Seq<UploadEventView>,
)
    ensures
        sent_messages(version, files, events).is_prefix_of(whole_conversation(version, files)),
        ({
            let upload = after_events(files, events);
            upload.phase == UploadPhase::Finished ==> {
                &&& sent_messages(version, files, events) == whole_conversation(version, files)
                &&& upload.staged.len() == files.len()
                &&& forall|i: int|
                    0 <= i < files.len() ==> #[trigger] upload.staged[i].name == files[i].name
            }
        }),
{
    lemma_in_order(version, files, events);
}

/// A message that is no answer to the file in flight changes nothing: the answer is
/// awaited further.
pub proof fn law_unrelated_messages_are_skipped(upload: UploadView, message: ServerMessageView)
    requires
        upload.phase == UploadPhase::Reply,
        !(message is ServerShutdown),
        message matches ServerMessageView::FileStaged { name, .. } ==> name != upload.current,
    ensures
        upload.step(UploadEventView::Received(Ok(message))) == (
            upload,
            UploadActionView::Receive(ReplyLimit::GraphicsFrame),
        ),
{
}

/// A file that is sent is the file that was read: it carries exactly the bytes that were
/// read, under the name that the path has. It is sent exactly where the path is a regular
/// file, could be read, and fits the limit both before and after it was read.
pub proof fn law_file_carries_what_was_read(probe: FileProbe, limit: u64)
    ensures
        local_file(probe, limit) matches Ok(file) ==> {
            &&& probe.content matches Ok(data) && file.data == data@
            &&& probe.file_name matches Some(name) ==> file.name == name@
            &&& probe.file_name is None ==> file.name == "file"@
        },
        local_file(probe, limit) is Ok <==> {
            &&& probe.meta matches Ok(meta) && meta.is_file && meta.len <= limit
            &&& probe.content matches Ok(data) && data@.len() <= limit
        },
        local_file(probe, limit) matches Err(message) ==> probe.display@.is_prefix_of(message),
{
    if let Err(message) = local_file(probe, limit) {
        assert(message.take(probe.display@.len() as int) =~= probe.display@);
    }
}

/// Of a list of paths either every file is sent, the i-th with the bytes that were read at
/// the i-th path and under its name, or none, and then the first path that cannot be sent
/// is to blame.
pub proof fn law_files_carry_what_was_read(probes: Seq<FileProbe>, limit: u64)
    ensures
        local_files(probes, limit) matches Ok(files) ==> {
            &&& files.len() == probes.len()
            &&& forall|i: int|
                0 <= i < files.len() ==> {
                    &&& (#[trigger] probes[i].content) matches Ok(data) && files[i].data == data@
                    &&& probes[i].file_name matches Some(name) ==> files[i].name == name@
                }
        },
        local_files(probes, limit) is Ok <==> forall|i: int|
            0 <= i < probes.len() ==> {
                &&& (#[trigger] probes[i].meta) matches Ok(meta) && meta.is_file && meta.len
                    <= limit
                &&& probes[i].content matches Ok(data) && data@.len() <= limit
            },
        local_files(probes, limit) matches Err(message) ==> exists|i: int|
            0 <= i < probes.len() && (#[trigger] local_file(probes[i], limit)) == Err::<
                FileView,
                Seq<char>,
            >(message) && forall|j: int|
                0 <= j < i ==> (#[trigger] local_file(probes[j], limit)) is Ok,
    decreases probes.len(),
{
    if probes.len() > 0 {
        let front = probes.drop_last();
        let last = probes.len() - 1;
        law_files_carry_what_was_read(front, limit);
        law_file_carries_what_was_read(probes.last(), limit);
        assert forall|i: int| 0 <= i < front.len() implies front[i] == probes[i] by {}
        match local_files(front, limit) {
            Ok(files) => {
                assert forall|i: int| 0 <= i < last implies (#[trigger] local_file(
                    probes[i],
                    limit,
                )) is Ok by {
                    assert(front[i] == probes[i]);
                    law_file_carries_what_was_read(front[i], limit);
                    assert(front[i].meta == probes[i].meta);
                    assert(probes[i].content == front[i].content);
                }
                assert forall|i: int| 0 <= i < last implies front[i].content
                    == #[trigger] probes[i].content by {}
                assert(probes[last] == probes.last());
                if let Err(message) = local_files(probes, limit) {
                    assert(local_file(probes[last], limit) == Err::<FileView, Seq<char>>(message));
                }
            },
            Err(message) => {
                let i = choose|i: int|
                    0 <= i < front.len() && (#[trigger] local_file(front[i], limit)) == Err::<
                        FileView,
                        Seq<char>,
                    >(message) && forall|j: int|
                        0 <= j < i ==> (#[trigger] local_file(front[j], limit)) is Ok;
                assert(local_file(probes[i], limit) == Err::<FileView, Seq<char>>(message));
                assert forall|j: int| 0 <= j < i implies (#[trigger] local_file(
                    probes[j],
                    limit,
                )) is Ok by {
                    assert(local_file(front[j], limit) is Ok);
                }
                law_file_carries_what_was_read(probes[i], limit);
            },
        }
    }
}

/// A path is read exactly if it is known to be a regular file that fits the limit; a path
/// that is not read cannot be sent, for the same reason.
pub proof fn law_metadata_decides_first(probe: FileProbe, limit: u64)
    ensures
        meta_complaint(probe.display@, probe.meta, limit) is None <==> (probe.meta matches Ok(meta)
            && meta.is_file && meta.len <= limit),
        meta_complaint(probe.display@, probe.meta, limit) matches Some(message) ==> local_file(
            probe,
            limit,
        ) == Err::<FileView, Seq<char>>(message),
{
}

/// What goes over the wire is what was read: the conversation is a greeting, one message
/// for each file with the whole of its name and its bytes, none of them pasted, and the
/// leave. The greeting names the version that is spoken and does not take the session
/// over.
pub proof fn law_conversation_carries_the_files(version: u32, files: Seq<FileView>)
    ensures
        ({
            let whole = whole_conversation(version, files);
            &&& whole.len() == files.len() + 2
            &&& whole[0] matches ClientMessageView::Hello {
                version: spoken,
                launch_mode,
                requested_encoding,
                ..
            } && spoken == version && launch_mode == ClientLaunchMode::TerminalAttach
                && requested_encoding == RenderEncoding::TerminalAnsi
            &&& whole.last() is Detach
            &&& forall|i: int|
                0 <= i < files.len() ==> (#[trigger] files[i] == files[i] && whole[i + 1]
                    == ClientMessageView::ClipboardFile {
                    name: files[i].name,
                    data: files[i].data,
                    paste: false,
                })
        }),
{
}

/// The next file to go is the first that has not gone yet, whole, and it is the one whose
/// answer is awaited then; where none is left, the client leaves.
pub proof fn law_next_file_goes_whole(upload: UploadView)
    ensures
        ({
            let (after, action) = upload.go_on();
            &&& after.staged == upload.staged
            &&& upload.pending.len() > 0 ==> {
                &&& action == UploadActionView::Send(
                    ClientMessageView::ClipboardFile {
                        name: upload.pending[0].name,
                        data: upload.pending[0].data,
                        paste: false,
                    },
                )
                &&& after.current == upload.pending[0].name
                &&& seq![upload.pending[0]] + after.pending == upload.pending
                &&& after.phase == UploadPhase::Sending
            }
            &&& upload.pending.len() == 0 ==> {
                &&& action == UploadActionView::Send(ClientMessageView::Detach)
                &&& after.pending == upload.pending
                &&& after.phase == UploadPhase::Leaving
            }
        }),
{
    if upload.pending.len() > 0 {
        assert(seq![upload.pending[0]] + upload.pending.drop_first() =~= upload.pending);
    }
}

/// The server's answer for the file in flight is what is reported of it: the path that it
/// gives, or else the error that it gives, behind what was reported before.
pub proof fn law_answer_is_reported(
    upload: UploadView,
    path: Option<Seq<char>>,
    error: Option<Seq<char>>,
)
    requires
        upload.phase == UploadPhase::Reply,
    ensures
        ({
            let answer = ServerMessageView::FileStaged { name: upload.current, path, error };
            let (after, action) = upload.step(UploadEventView::Received(Ok(answer)));
            &&& after.staged.len() == upload.staged.len() + 1
            &&& after.staged.drop_last() == upload.staged
            &&& after.staged.last().name == upload.current
            &&& forall|kept: Seq<char>|
                path == Some(kept) ==> after.staged.last().result == Ok::<Seq<char>, Seq<char>>(
                    kept,
                )
            &&& forall|refused: Seq<char>|
                path is None && error == Some(refused) ==> after.staged.last().result == Err::<
                    Seq<char>,
                    Seq<char>,
                >(refused)
            &&& path is None ==> after.staged.last().result is Err
            &&& action is Send
        }),
{
    let staged = upload.staged.push(
        StagedView { name: upload.current, result: staged_result(path, error) },
    );
    assert(staged.drop_last() =~= upload.staged);
}

/// An upload ends where the connection fails, where the server refuses it or does not
/// greet back, and where the server shuts down; nothing that was reported by then is lost.
pub proof fn law_trouble_ends_the_upload(upload: UploadView, err: Seq<char>)
    ensures
        upload.phase == UploadPhase::Greeting || upload.phase == UploadPhase::Sending ==> ({
            let (after, action) = upload.step(UploadEventView::Sent(Err(err)));
            after.phase == UploadPhase::Failed && action is Fail && after.staged == upload.staged
        }),
        upload.phase == UploadPhase::Welcome || upload.phase == UploadPhase::Reply ==> ({
            let (after, action) = upload.step(UploadEventView::Received(Err(err)));
            after.phase == UploadPhase::Failed && action is Fail && after.staged == upload.staged
        }),
        upload.phase == UploadPhase::Welcome ==> forall|message: ServerMessageView|
            {
                let (after, action) = #[trigger] upload.step(
                    UploadEventView::Received(Ok(message)),
                );
                if message matches ServerMessageView::Welcome { error, .. } && error is None {
                    (after, action) == upload.go_on()
                } else {
                    after.phase == UploadPhase::Failed && action is Fail
                }
            },
        upload.phase == UploadPhase::Reply ==> forall|reason: Option<Seq<char>>|
            {
                let (after, action) = #[trigger] upload.step(
                    UploadEventView::Received(Ok(ServerMessageView::ServerShutdown { reason })),
                );
                after.phase == UploadPhase::Failed && action is Fail && after.staged
                    == upload.staged
            },
{
}

/// Every message is followed by the reply to it: what was sent is waited for, and a leave
/// ends the upload whether or not it could be sent.
pub proof fn law_sent_message_is_followed_up(upload: UploadView, outcome: Result<(), Seq<char>>)
    ensures
        ({
            let (after, action) = upload.step(UploadEventView::Sent(outcome));
            &&& upload.phase == UploadPhase::Leaving ==> after == (UploadView {
                phase: UploadPhase::Finished,
                ..upload
            }) && action is Finish
            &&& outcome is Ok && upload.phase == UploadPhase::Greeting ==> after == (UploadView {
                phase: UploadPhase::Welcome,
                ..upload
            }) && action == UploadActionView::Receive(ReplyLimit::Frame)
            &&& outcome is Ok && upload.phase == UploadPhase::Sending ==> after == (UploadView {
                phase: UploadPhase::Reply,
                ..upload
            }) && action == UploadActionView::Receive(ReplyLimit::GraphicsFrame)
        }),
{
}

/// What went wrong is passed on: the failure of an upload ends with the reason that was
/// given for it, and names the file that was in flight.
pub proof fn law_failed_upload_gives_the_reason(upload: UploadView, err: Seq<char>)
    ensures
        upload.phase == UploadPhase::Greeting || upload.phase == UploadPhase::Sending ==> (
        upload.step(UploadEventView::Sent(Err(err))).1 matches UploadActionView::Fail(message)
            && err.is_suffix_of(message)),
        upload.phase == UploadPhase::Welcome || upload.phase == UploadPhase::Reply ==> (
        upload.step(UploadEventView::Received(Err(err))).1 matches UploadActionView::Fail(message)
            && err.is_suffix_of(message)),
        upload.phase == UploadPhase::Sending ==> (
        upload.step(UploadEventView::Sent(Err(err))).1 matches UploadActionView::Fail(message)
            && has_substring(message, upload.current)),
        upload.phase == UploadPhase::Reply ==> (
        upload.step(UploadEventView::Received(Err(err))).1 matches UploadActionView::Fail(message)
            && has_substring(message, upload.current)),
        shutdown_text(Some(err)) == "server is shutting down"@ + (": "@ + err),
        shutdown_text(None) == "server is shutting down"@,
{
    if let UploadActionView::Fail(message) = upload.step(UploadEventView::Sent(Err(err))).1 {
        assert(message.skip(message.len() - err.len()) =~= err);
    }
    if let UploadActionView::Fail(message) = upload.step(UploadEventView::Received(Err(err))).1 {
        assert(message.skip(message.len() - err.len()) =~= err);
    }
    law_substring_is_surrounded("failed to send "@, upload.current, ": "@ + err);
    assert("failed to send "@ + upload.current + (": "@ + err) =~= "failed to send "@
        + upload.current + ": "@ + err);
    law_substring_is_surrounded("lost connection while sending "@, upload.current, ": "@ + err);
    assert("lost connection while sending "@ + upload.current + (": "@ + err)
        =~= "lost connection while sending "@ + upload.current + ": "@ + err);
    assert("server is shutting down"@ + Seq::<char>::empty() =~= "server is shutting down"@);
}

/// Each outcome is modelled by the name of its file and by the path or the error.
pub proof fn law_outcome_is_modelled_whole(file: LocalFile, staged: StagedFile)
    ensures
        file@.name == file.name@,
        file@.data == file.data@,
        staged@.name == staged.name@,
        staged.result matches Ok(path) ==> staged@.result == Ok::<Seq<char>, Seq<char>>(path@),
        staged.result matches Err(error) ==> staged@.result == Err::<Seq<char>, Seq<char>>(error@),
{
}

/// An event that does not belong to what was to be done changes nothing, and neither does
/// any event once the upload is over.
pub proof fn law_stray_events_change_nothing(upload: UploadView, event: UploadEventView)
    requires
        ({
            ||| event is Received && (upload.phase == UploadPhase::Greeting || upload.phase
                == UploadPhase::Sending || upload.phase == UploadPhase::Leaving)
            ||| event is Sent && (upload.phase == UploadPhase::Welcome || upload.phase
                == UploadPhase::Reply)
            ||| upload.phase == UploadPhase::Finished
            ||| upload.phase == UploadPhase::Failed
        }),
    ensures
        upload.step(event) == (upload, UploadActionView::Nothing),
{
}

/// What happens in an upload, and what is to be done, is modelled with all that it carries.
pub proof fn law_events_and_actions_are_modelled_whole(event: UploadEvent, action: UploadAction)
    ensures
        event matches UploadEvent::Sent(Ok(_)) ==> (event@ matches UploadEventView::Sent(Ok(_))),
        event matches UploadEvent::Sent(Err(err)) ==> event@ == UploadEventView::Sent(Err(err@)),
        event matches UploadEvent::Received(Ok(message)) ==> event@ == UploadEventView::Received(
            Ok(message@),
        ),
        event matches UploadEvent::Received(Err(err)) ==> event@ == UploadEventView::Received(
            Err(err@),
        ),
        action matches UploadAction::Send(message) ==> action@ == UploadActionView::Send(message@),
        action matches UploadAction::Receive(limit) ==> action@ == UploadActionView::Receive(limit),
        action matches UploadAction::Fail(message) ==> action@ == UploadActionView::Fail(message@),
        action is Finish <==> action@ is Finish,
        action is Nothing <==> action@ is Nothing,
{
}

} // verus!
