//! What a renderer makes of a log line: blocks of highlighted or reformatted text.
use vstd::prelude::*;

verus! {

/// Where a block came from and how sure the renderer is of it.
///
/// `char_end` is the byte length of the line's content; the confidence is given in
/// percent.
#[derive(Debug, Clone, Copy, PartialEq, Eq, Structural)]
pub struct BlockMetadata {
    pub line_start: usize,
    pub line_end: usize,
    pub char_start: usize,
    pub char_end: usize,
    pub confidence_percent: u32,
}

/// The text of a block.
#[derive(Debug, Clone)]
pub enum BlockContent {
    /// A JSON value: the text as found and its pretty-printed form.
    Json { original: String, formatted: String },
    /// A message about an error.
    Error { message: String },
    /// A message about a warning.
    Warning { message: String },
}

/// One block that a renderer produced.
#[derive(Debug, Clone)]
pub struct RenderedBlock {
    pub id: String,
    pub content: BlockContent,
    pub metadata: Option<BlockMetadata>,
}

/// The mathematical content of a `BlockContent`.
pub enum ContentView {
    Json(Seq<char>, Seq<char>),
    Error(Seq<char>),
    Warning(Seq<char>),
}

/// The mathematical content of a `RenderedBlock`.
pub struct BlockView {
    pub id: Seq<char>,
    pub content: ContentView,
    pub metadata: Option<BlockMetadata>,
}

impl View for BlockContent {
    type V = ContentView;

    open spec fn view(&self) -> ContentView {
        match self {
            BlockContent::Json { original, formatted } => ContentView::Json(original@, formatted@),
            BlockContent::Error { message } => ContentView::Error(message@),
            BlockContent::Warning { message } => ContentView::Warning(message@),
        }
    }
}

impl View for RenderedBlock {
    type V = BlockView;

    open spec fn view(&self) -> BlockView {
        BlockView { id: self.id@, content: self.content@, metadata: self.metadata }
    }
}

/// The views of a list of blocks.
pub open spec fn blocks_view(v: Seq<RenderedBlock>) -> Seq<BlockView> {
    v.map_values(|b: RenderedBlock| b@)
}

/// The metadata of a block about line `n` whose content has `len` bytes.
pub open spec fn line_block_metadata(n: nat, len: nat, confidence_percent: u32) -> BlockMetadata {
    BlockMetadata {
        line_start: n as usize,
        line_end: n as usize,
        char_start: 0,
        char_end: len as usize,
        confidence_percent,
    }
}

} // verus!
