//! The messages between a server and its clients, as far as the library sends or reads
//! them.

use vstd::prelude::*;
use crate::text::opt_text;
use crate::text::same_text;
use crate::text::texts;

verus! {

/// How a server renders for a client.
#[derive(Debug, Clone, Copy, PartialEq, Eq, Structural)]
pub enum RenderEncoding {
    /// Cells with their attributes.
    SemanticFrame,
    /// Escape sequences for a terminal.
    TerminalAnsi,
}

/// Whose key bindings hold.
#[derive(Debug, Clone, Copy, PartialEq, Eq, Structural)]
pub enum ClientKeybindings {
    /// Those of the server.
    Server,
}

/// What a client connects for.
#[derive(Debug, Clone, Copy, PartialEq, Eq, Structural)]
pub enum ClientLaunchMode {
    /// To show the whole session. Such a client takes the foreground and sets the size.
    App,
    /// To attach to one terminal. Until it does, the running session is left alone.
    TerminalAttach,
}

/// Where the cursor is, and how it looks.
#[derive(Debug, Clone, Copy, PartialEq, Eq, Structural)]
pub struct CursorState {
    pub x: u16,
    pub y: u16,
    pub visible: bool,
    pub shape: u8,
}

/// One cell of a frame.
#[derive(Debug, Clone, PartialEq, Eq)]
pub struct CellData {
    pub symbol: String,
    pub fg: u32,
    pub bg: u32,
    pub modifier: u16,
    pub skip: bool,
    /// The place of the cell's link among those of the frame.
    pub hyperlink: Option<u32>,
}

/// The model of [`CellData`].
pub struct CellView {
    pub symbol: Seq<char>,
    pub fg: u32,
    pub bg: u32,
    pub modifier: u16,
    pub skip: bool,
    pub hyperlink: Option<u32>,
}

impl CellData {
    /// The model of the cell.
    pub open spec fn view(&self) -> CellView {
        CellView {
            symbol: self.symbol@,
            fg: self.fg,
            bg: self.bg,
            modifier: self.modifier,
            skip: self.skip,
            hyperlink: self.hyperlink,
        }
    }

    /// A cell like this one.
    pub fn duplicate(&self) -> (r: CellData)
        ensures
            r@ == self@,
    {
        CellData {
            symbol: self.symbol.clone(),
            fg: self.fg,
            bg: self.bg,
            modifier: self.modifier,
            skip: self.skip,
            hyperlink: self.hyperlink,
        }
    }

    /// Whether the two cells are alike.
    pub fn same(&self, other: &CellData) -> (r: bool)
        ensures
            r == (self@ == other@),
    {
        same_text(self.symbol.as_str(), other.symbol.as_str()) && self.fg == other.fg && self.bg
            == other.bg && self.modifier == other.modifier && self.skip == other.skip
            && same_link(self.hyperlink, other.hyperlink)
    }
}

fn same_link(a: Option<u32>, b: Option<u32>) -> (r: bool)
    ensures
        r == (a == b),
{
    match (a, b) {
        (Some(a), Some(b)) => a == b,
        (None, None) => true,
        _ => false,
    }
}

fn same_cursor(a: Option<CursorState>, b: Option<CursorState>) -> (r: bool)
    ensures
        r == (a == b),
{
    match (a, b) {
        (Some(a), Some(b)) => a == b,
        (None, None) => true,
        _ => false,
    }
}

/// The models of a row of cells.
pub open spec fn cells_view(cells: Seq<CellData>) -> Seq<CellView> {
    cells.map_values(|c: CellData| c@)
}

fn duplicate_cells(cells: &[CellData]) -> (r: Vec<CellData>)
    ensures
        cells_view(r@) == cells_view(cells@),
{
    let mut out: Vec<CellData> = Vec::new();
    let mut i: usize = 0;
    while i < cells.len()
        invariant
            i <= cells@.len(),
            out@.len() == i,
            forall|j: int| 0 <= j < i ==> #[trigger] out@[j]@ == cells@[j]@,
        decreases cells@.len() - i,
    {
        out.push(cells[i].duplicate());
        i += 1;
    }
    assert(cells_view(out@) =~= cells_view(cells@));
    out
}

fn same_cells(a: &[CellData], b: &[CellData]) -> (r: bool)
    ensures
        r == (cells_view(a@) == cells_view(b@)),
{
    if a.len() != b.len() {
        assert(cells_view(a@).len() != cells_view(b@).len());
        return false;
    }
    let mut i: usize = 0;
    while i < a.len()
        invariant
            i <= a@.len(),
            a@.len() == b@.len(),
            forall|j: int| 0 <= j < i ==> #[trigger] a@[j]@ == b@[j]@,
        decreases a@.len() - i,
    {
        if !a[i].same(&b[i]) {
            assert(cells_view(a@)[i as int] != cells_view(b@)[i as int]);
            return false;
        }
        i += 1;
    }
    assert(cells_view(a@) =~= cells_view(b@));
    true
}

fn duplicate_texts(v: &[String]) -> (r: Vec<String>)
    ensures
        texts(r@) == texts(v@),
{
    let mut out: Vec<String> = Vec::new();
    let mut i: usize = 0;
    while i < v.len()
        invariant
            i <= v@.len(),
            out@.len() == i,
            forall|j: int| 0 <= j < i ==> #[trigger] out@[j]@ == v@[j]@,
        decreases v@.len() - i,
    {
        out.push(v[i].clone());
        i += 1;
    }
    assert(texts(out@) =~= texts(v@));
    out
}

fn same_texts(a: &[String], b: &[String]) -> (r: bool)
    ensures
        r == (texts(a@) == texts(b@)),
{
    if a.len() != b.len() {
        assert(texts(a@).len() != texts(b@).len());
        return false;
    }
    let mut i: usize = 0;
    while i < a.len()
        invariant
            i <= a@.len(),
            a@.len() == b@.len(),
            forall|j: int| 0 <= j < i ==> #[trigger] a@[j]@ == b@[j]@,
        decreases a@.len() - i,
    {
        if !same_text(a[i].as_str(), b[i].as_str()) {
            assert(texts(a@)[i as int] != texts(b@)[i as int]);
            return false;
        }
        i += 1;
    }
    assert(texts(a@) =~= texts(b@));
    true
}

/// The bytes of `v` again.
pub fn duplicate_bytes(v: &[u8]) -> (r: Vec<u8>)
    ensures
        r@ == v@,
{
    let mut out: Vec<u8> = Vec::new();
    let mut i: usize = 0;
    while i < v.len()
        invariant
            i <= v@.len(),
            out@ == v@.take(i as int),
        decreases v@.len() - i,
    {
        out.push(v[i]);
        i += 1;
        assert(out@ =~= v@.take(i as int));
    }
    assert(out@ =~= v@);
    out
}

/// Whether the two runs of bytes are the same.
pub fn same_bytes(a: &[u8], b: &[u8]) -> (r: bool)
    ensures
        r == (a@ == b@),
{
    if a.len() != b.len() {
        return false;
    }
    let mut i: usize = 0;
    while i < a.len()
        invariant
            i <= a@.len(),
            a@.len() == b@.len(),
            forall|j: int| 0 <= j < i ==> a@[j] == b@[j],
        decreases a@.len() - i,
    {
        if a[i] != b[i] {
            return false;
        }
        i += 1;
    }
    assert(a@ =~= b@);
    true
}

/// Everything that a client shows.
#[derive(Debug, Clone, PartialEq, Eq)]
pub struct FrameData {
    /// The frame is to be drawn from scratch.
    pub is_full: bool,
    pub cells: Vec<CellData>,
    pub width: u16,
    pub height: u16,
    pub cursor: Option<CursorState>,
    pub hyperlinks: Vec<String>,
    pub graphics: Vec<u8>,
}

/// The model of [`FrameData`].
pub struct FrameView {
    pub is_full: bool,
    pub cells: Seq<CellView>,
    pub width: u16,
    pub height: u16,
    pub cursor: Option<CursorState>,
    pub hyperlinks: Seq<Seq<char>>,
    pub graphics: Seq<u8>,
}

impl FrameView {
    /// The two frames show the same.
    pub open spec fn same_content(self, other: Self) -> bool {
        self == (FrameView { is_full: self.is_full, ..other })
    }

    /// The two frames have the same size.
    pub open spec fn same_size(self, other: Self) -> bool {
        self.width == other.width && self.height == other.height
    }
}

impl FrameData {
    /// The model of the frame.
    pub open spec fn view(&self) -> FrameView {
        FrameView {
            is_full: self.is_full,
            cells: cells_view(self.cells@),
            width: self.width,
            height: self.height,
            cursor: self.cursor,
            hyperlinks: texts(self.hyperlinks@),
            graphics: self.graphics@,
        }
    }

    /// A frame like this one.
    pub fn duplicate(&self) -> (r: FrameData)
        ensures
            r@ == self@,
    {
        FrameData {
            is_full: self.is_full,
            cells: duplicate_cells(&self.cells),
            width: self.width,
            height: self.height,
            cursor: self.cursor,
            hyperlinks: duplicate_texts(&self.hyperlinks),
            graphics: duplicate_bytes(&self.graphics),
        }
    }

    /// Whether the two frames show the same, however they are to be drawn.
    pub fn content_eq(&self, other: &FrameData) -> (r: bool)
        ensures
            r == self@.same_content(other@),
    {
        self.width == other.width && self.height == other.height && same_cursor(
            self.cursor,
            other.cursor,
        ) && same_cells(&self.cells, &other.cells) && same_texts(
            &self.hyperlinks,
            &other.hyperlinks,
        ) && same_bytes(&self.graphics, &other.graphics)
    }
}

/// Cells of one row that have changed.
#[derive(Debug, Clone, PartialEq, Eq)]
pub struct FramePatchSegment {
    pub y: u16,
    pub x: u16,
    pub cells: Vec<CellData>,
}

/// The model of [`FramePatchSegment`].
pub struct SegmentView {
    pub y: u16,
    pub x: u16,
    pub cells: Seq<CellView>,
}

impl FramePatchSegment {
    /// The model of the segment.
    pub open spec fn view(&self) -> SegmentView {
        SegmentView { y: self.y, x: self.x, cells: cells_view(self.cells@) }
    }
}

/// The models of a list of segments.
pub open spec fn segments_view(segments: Seq<FramePatchSegment>) -> Seq<SegmentView> {
    segments.map_values(|s: FramePatchSegment| s@)
}

/// Output for a terminal.
#[derive(Debug, Clone, PartialEq, Eq)]
pub struct TerminalFrame {
    pub seq: u64,
    pub width: u16,
    pub height: u16,
    pub full: bool,
    pub bytes: Vec<u8>,
}

/// What a client sends.
#[derive(Debug, PartialEq, Eq)]
pub enum ClientMessage {
    /// The first message of a connection.
    Hello {
        version: u32,
        cols: u16,
        rows: u16,
        cell_width_px: u32,
        cell_height_px: u32,
        requested_encoding: RenderEncoding,
        keybindings: ClientKeybindings,
        launch_mode: ClientLaunchMode,
    },
    /// A file for the server to keep.
    ClipboardFile { name: String, data: Vec<u8>, paste: bool },
    /// The client leaves.
    Detach,
}

/// The model of [`ClientMessage`].
pub enum ClientMessageView {
    Hello {
        version: u32,
        cols: u16,
        rows: u16,
        cell_width_px: u32,
        cell_height_px: u32,
        requested_encoding: RenderEncoding,
        keybindings: ClientKeybindings,
        launch_mode: ClientLaunchMode,
    },
    ClipboardFile { name: Seq<char>, data: Seq<u8>, paste: bool },
    Detach,
}

impl ClientMessage {
    /// The model of the message.
    pub open spec fn view(&self) -> ClientMessageView {
        match self {
            ClientMessage::Hello {
                version,
                cols,
                rows,
                cell_width_px,
                cell_height_px,
                requested_encoding,
                keybindings,
                launch_mode,
            } => ClientMessageView::Hello {
                version: *version,
                cols: *cols,
                rows: *rows,
                cell_width_px: *cell_width_px,
                cell_height_px: *cell_height_px,
                requested_encoding: *requested_encoding,
                keybindings: *keybindings,
                launch_mode: *launch_mode,
            },
            ClientMessage::ClipboardFile { name, data, paste } => ClientMessageView::ClipboardFile {
                name: name@,
                data: data@,
                paste: *paste,
            },
            ClientMessage::Detach => ClientMessageView::Detach,
        }
    }
}

/// What a server sends.
#[derive(Debug, PartialEq, Eq)]
pub enum ServerMessage {
    /// The answer to the first message of a client.
    Welcome { version: u32, encoding: RenderEncoding, error: Option<String> },
    /// A whole frame.
    Frame(FrameData),
    /// What has changed since the last frame.
    FramePatch {
        segments: Vec<FramePatchSegment>,
        cursor: Option<CursorState>,
        cursor_changed: bool,
    },
    /// Output for a terminal.
    Terminal(TerminalFrame),
    /// What became of a file that the client sent.
    FileStaged { name: String, path: Option<String>, error: Option<String> },
    /// The server ends.
    ServerShutdown { reason: Option<String> },
    /// The client's sound settings are out of date.
    ReloadSoundConfig,
    /// Whether the server wants the mouse.
    MouseCapture { enabled: bool },
}

/// The model of [`ServerMessage`].
pub enum ServerMessageView {
    Welcome { version: u32, encoding: RenderEncoding, error: Option<Seq<char>> },
    Frame(FrameView),
    FramePatch { segments: Seq<SegmentView>, cursor: Option<CursorState>, cursor_changed: bool },
    Terminal { seq: u64, width: u16, height: u16, full: bool, bytes: Seq<u8> },
    FileStaged { name: Seq<char>, path: Option<Seq<char>>, error: Option<Seq<char>> },
    ServerShutdown { reason: Option<Seq<char>> },
    ReloadSoundConfig,
    MouseCapture { enabled: bool },
}

impl ServerMessage {
    /// The model of the message.
    pub open spec fn view(&self) -> ServerMessageView {
        match self {
            ServerMessage::Welcome { version, encoding, error } => ServerMessageView::Welcome {
                version: *version,
                encoding: *encoding,
                error: opt_text(*error),
            },
            ServerMessage::Frame(frame) => ServerMessageView::Frame(frame@),
            ServerMessage::FramePatch { segments, cursor, cursor_changed } =>
                ServerMessageView::FramePatch {
                segments: segments_view(segments@),
                cursor: *cursor,
                cursor_changed: *cursor_changed,
            },
            ServerMessage::Terminal(frame) => ServerMessageView::Terminal {
                seq: frame.seq,
                width: frame.width,
                height: frame.height,
                full: frame.full,
                bytes: frame.bytes@,
            },
            ServerMessage::FileStaged { name, path, error } => ServerMessageView::FileStaged {
                name: name@,
                path: opt_text(*path),
                error: opt_text(*error),
            },
            ServerMessage::ServerShutdown { reason } => ServerMessageView::ServerShutdown {
                reason: opt_text(*reason),
            },
            ServerMessage::ReloadSoundConfig => ServerMessageView::ReloadSoundConfig,
            ServerMessage::MouseCapture { enabled } => ServerMessageView::MouseCapture {
                enabled: *enabled,
            },
        }
    }
}

/// Two frames have the same content exactly if they agree in everything that is shown:
/// their size, their cursor, their links, their graphics and every cell, and a cell in its
/// symbol, its colours, its attributes, its link and whether it is skipped.
pub proof fn law_same_content_means_every_cell(a: FrameData, b: FrameData)
    ensures
        a@.same_content(b@) <==> {
            &&& a.width == b.width
            &&& a.height == b.height
            &&& a.cursor == b.cursor
            &&& a.graphics@ == b.graphics@
            &&& a.hyperlinks@.len() == b.hyperlinks@.len()
            &&& forall|i: int|
                0 <= i < a.hyperlinks@.len() ==> #[trigger] a.hyperlinks@[i]@ == b.hyperlinks@[i]@
            &&& a.cells@.len() == b.cells@.len()
            &&& forall|i: int|
                0 <= i < a.cells@.len() ==> {
                    &&& (#[trigger] a.cells@[i]).symbol@ == b.cells@[i].symbol@
                    &&& a.cells@[i].fg == b.cells@[i].fg
                    &&& a.cells@[i].bg == b.cells@[i].bg
                    &&& a.cells@[i].modifier == b.cells@[i].modifier
                    &&& a.cells@[i].skip == b.cells@[i].skip
                    &&& a.cells@[i].hyperlink == b.cells@[i].hyperlink
                }
        },
{
    let same_links = a.hyperlinks@.len() == b.hyperlinks@.len() && forall|i: int|
        0 <= i < a.hyperlinks@.len() ==> #[trigger] a.hyperlinks@[i]@ == b.hyperlinks@[i]@;
    let same_cells = a.cells@.len() == b.cells@.len() && forall|i: int|
        0 <= i < a.cells@.len() ==> (#[trigger] a.cells@[i])@ == b.cells@[i]@;
    if same_links {
        assert(texts(a.hyperlinks@) =~= texts(b.hyperlinks@));
    }
    if same_cells {
        assert(cells_view(a.cells@) =~= cells_view(b.cells@));
    }
    if a@.same_content(b@) {
        assert(texts(a.hyperlinks@).len() == texts(b.hyperlinks@).len());
        assert(cells_view(a.cells@).len() == cells_view(b.cells@).len());
        assert forall|i: int| 0 <= i < a.hyperlinks@.len() implies #[trigger] a.hyperlinks@[i]@
            == b.hyperlinks@[i]@ by {
            assert(texts(a.hyperlinks@)[i] == texts(b.hyperlinks@)[i]);
        }
        assert forall|i: int| 0 <= i < a.cells@.len() implies (#[trigger] a.cells@[i])@
            == b.cells@[i]@ by {
            assert(cells_view(a.cells@)[i] == cells_view(b.cells@)[i]);
        }
    }
}

/// What frames show is compared part by part: the same content is the same size, the same
/// cursor, the same cells, the same links and the same graphics, however they are drawn.
pub proof fn law_same_content_ignores_only_how_to_draw(a: FrameView, b: FrameView)
    ensures
        a.same_content(b) <==> {
            &&& a.width == b.width
            &&& a.height == b.height
            &&& a.cursor == b.cursor
            &&& a.cells == b.cells
            &&& a.hyperlinks == b.hyperlinks
            &&& a.graphics == b.graphics
        },
        a.same_size(b) <==> a.width == b.width && a.height == b.height,
{
}

/// A segment of a patch keeps its place, and its cells one by one.
pub proof fn law_segments_hold_their_cells(segment: FramePatchSegment)
    ensures
        segment@.x == segment.x,
        segment@.y == segment.y,
        segment@.cells.len() == segment.cells@.len(),
        forall|i: int|
            0 <= i < segment.cells@.len() ==> {
                &&& (#[trigger] segment@.cells[i]).symbol == segment.cells@[i].symbol@
                &&& segment@.cells[i].fg == segment.cells@[i].fg
                &&& segment@.cells[i].bg == segment.cells@[i].bg
                &&& segment@.cells[i].modifier == segment.cells@[i].modifier
                &&& segment@.cells[i].skip == segment.cells@[i].skip
                &&& segment@.cells[i].hyperlink == segment.cells@[i].hyperlink
            },
{
}

/// Two messages of a server that are told apart by anything they hold have different
/// models: terminal output by its number, size, kind and bytes, the answer for a file by
/// its name, path and error, and a frame by everything that it holds.
pub proof fn law_server_messages_are_told_apart(a: ServerMessage, b: ServerMessage)
    requires
        a@ == b@,
    ensures
        a matches ServerMessage::Terminal(x) ==> (b matches ServerMessage::Terminal(y) && {
            &&& x.seq == y.seq
            &&& x.width == y.width
            &&& x.height == y.height
            &&& x.full == y.full
            &&& x.bytes@ == y.bytes@
        }),
        a matches ServerMessage::Frame(x) ==> (b matches ServerMessage::Frame(y) && x.is_full
            == y.is_full && x@.same_content(y@)),
        a matches ServerMessage::FramePatch { segments, cursor, cursor_changed } ==> (
        b matches ServerMessage::FramePatch { segments: s, cursor: c, cursor_changed: d }
            && segments@.len() == s@.len() && cursor == c && cursor_changed == d),
        a matches ServerMessage::FileStaged { name, path, error } ==> (
        b matches ServerMessage::FileStaged { name: n, path: p, error: e } && name@ == n@
            && opt_text(path) == opt_text(p) && opt_text(error) == opt_text(e)),
        a matches ServerMessage::ServerShutdown { reason } ==> (
        b matches ServerMessage::ServerShutdown { reason: r } && opt_text(reason) == opt_text(r)),
        a matches ServerMessage::Welcome { version, encoding, error } ==> (
        b matches ServerMessage::Welcome { version: v, encoding: c, error: e } && version == v
            && encoding == c && opt_text(error) == opt_text(e)),
        a matches ServerMessage::MouseCapture { enabled } ==> (
        b matches ServerMessage::MouseCapture { enabled: e } && enabled == e),
        a is ReloadSoundConfig ==> b is ReloadSoundConfig,
{
    if let ServerMessage::FramePatch { segments, .. } = a {
        if let ServerMessage::FramePatch { segments: other, .. } = b {
            assert(segments_view(segments@).len() == segments_view(other@).len());
        }
    }
}

/// Two messages of a client that are told apart by anything they hold have different
/// models.
pub proof fn law_client_messages_are_told_apart(a: ClientMessage, b: ClientMessage)
    requires
        a@ == b@,
    ensures
        a matches ClientMessage::ClipboardFile { name, data, paste } ==> (
        b matches ClientMessage::ClipboardFile { name: n, data: d, paste: p } && name@ == n@
            && data@ == d@ && paste == p),
        a is Hello ==> b is Hello && a == b,
        a is Detach ==> b is Detach,
{
}

} // verus!
