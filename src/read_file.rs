//! The `read_file` tool: numbered lines of a file, either a plain slice or
//! the block of code around an anchor line, found by indentation. The caller
//! reads the file; everything from the raw lines onwards is here.
pub mod indentation;
pub mod lines;
pub mod slice;

pub use indentation::read_block;
pub use lines::{is_closing_line, is_header_like, measure_indent, trim_line_ending, MAX_LINE_LENGTH, TAB_WIDTH};
pub use slice::read;

use crate::read_file::indentation::{anchor_of, block_text, guard_of};
use crate::read_file::slice::slice_lines;
use vstd::prelude::*;
use vstd::string::StringExecFns;

verus! {

/// The default start line.
pub fn offset() -> (r: usize)
    ensures
        r == 1,
{
    1
}

/// The default line budget.
pub fn limit() -> (r: usize)
    ensures
        r == 2000,
{
    2000
}

/// The default number of enclosing levels to show.
pub fn max_levels() -> (r: usize)
    ensures
        r == 0,
{
    0
}

/// By default, sibling blocks are left out.
pub fn include_siblings() -> (r: bool)
    ensures
        r == false,
{
    false
}

/// By default, header lines above the block are shown.
pub fn include_header() -> (r: bool)
    ensures
        r == true,
{
    true
}

/// How lines are picked.
pub enum ReadMode {
    /// Consecutive lines from the start line on.
    Slice,
    /// The block of code around an anchor line.
    Indentation,
}

impl ReadMode {
    /// `Slice`.
    pub fn default() -> (r: Self)
        ensures
            r is Slice,
    {
        ReadMode::Slice
    }
}

/// Settings of a block read.
pub struct IndentationArgs {
    /// The line the block is built around; the start line when absent.
    pub anchor_line: Option<usize>,
    /// How many enclosing levels to take in.
    pub max_levels: usize,
    /// Whether blocks beside the anchor's, at its level, are shown too.
    pub include_siblings: bool,
    /// Whether header lines just above the block are shown.
    pub include_header: bool,
    /// Cap on the lines shown; the line budget when absent.
    pub max_lines: Option<usize>,
}

impl IndentationArgs {
    /// The settings `default` returns.
    pub open spec fn default_spec() -> IndentationArgs {
        IndentationArgs {
            anchor_line: None,
            max_levels: 0,
            include_siblings: false,
            include_header: true,
            max_lines: None,
        }
    }

    /// No anchor or cap of its own, no extra levels, no siblings, headers shown.
    pub fn default() -> (r: Self)
        ensures
            r == Self::default_spec(),
    {
        IndentationArgs {
            anchor_line: None,
            max_levels: max_levels(),
            include_siblings: include_siblings(),
            include_header: include_header(),
            max_lines: None,
        }
    }
}

/// The arguments of one call of the tool.
pub struct ReadFileArgs {
    /// Absolute path of the file.
    pub file_path: String,
    /// 1-based first line.
    pub offset: usize,
    /// Most lines returned.
    pub limit: usize,
    pub mode: ReadMode,
    /// Settings for `ReadMode::Indentation`.
    pub indentation: Option<IndentationArgs>,
}


/// The lines joined by `\n`.
pub open spec fn join_lines(ls: Seq<Seq<char>>) -> Seq<char>
    decreases ls.len(),
{
    if ls.len() == 0 {
        Seq::empty()
    } else if ls.len() == 1 {
        ls[0]
    } else {
        join_lines(ls.drop_last()) + seq!['\n'] + ls.last()
    }
}

/// The texts of some strings.
pub open spec fn texts(v: Seq<String>) -> Seq<Seq<char>> {
    v.map_values(|s: String| s@)
}

/// The strings joined by `\n`.
pub fn join_with_newlines(v: &Vec<String>) -> (r: String)
    ensures
        r@ == join_lines(texts(v@)),
{
    let mut out = String::new();
    let mut i: usize = 0;
    while i < v.len()
        invariant
            i <= v@.len(),
            out@ == join_lines(texts(v@.subrange(0, i as int))),
        decreases v@.len() - i,
    {
        assert(texts(v@.subrange(0, i + 1)).drop_last() =~= texts(v@.subrange(0, i as int)));
        assert(texts(v@.subrange(0, i + 1)).last() == v@[i as int]@);
        if i > 0 {
            out.append("\n");
            proof {
                reveal_strlit("\n");
            }
        }
        out.append(v[i].as_str());
        assert(out@ =~= join_lines(texts(v@.subrange(0, i + 1))));
        i = i + 1;
    }
    assert(v@.subrange(0, v@.len() as int) =~= v@);
    out
}

/// Relies on `Path::is_absolute`: whether the path is absolute on this
/// platform; an empty path never is.
#[verifier::external_body]
fn path_is_absolute(path: &str) -> (r: bool)
    ensures
        path@.len() == 0 ==> !r,
{
    std::path::Path::new(path).is_absolute()
}

/// What a block read answers: its refusal, or the lines it shows.
pub open spec fn block_outcome(lines: Seq<Vec<u8>>, offset: usize, limit: usize, options: IndentationArgs) -> Result<
    Seq<Seq<char>>,
    ReadFileError,
> {
    if anchor_of(offset, options) == 0 {
        Err(ReadFileError::AnchorLineZero)
    } else if guard_of(limit, options) == 0 {
        Err(ReadFileError::MaxLinesZero)
    } else if anchor_of(offset, options) > lines.len() {
        Err(ReadFileError::AnchorExceedsLength)
    } else {
        Ok(block_text(lines, offset, limit, options))
    }
}

/// The settings of a block read: those given, or the defaults.
pub open spec fn block_options(given: Option<IndentationArgs>) -> IndentationArgs {
    match given {
        Some(o) => o,
        None => IndentationArgs::default_spec(),
    }
}

/// The `read_file` tool.
pub struct ReadFileHandler;

impl ReadFileHandler {
    /// Checks the arguments, given whether the path is absolute.
    pub fn check_args(&self, args: &ReadFileArgs, path_absolute: bool) -> (r: Result<(), ReadFileError>)
        ensures
            args.offset == 0 ==> r matches Err(ReadFileError::OffsetZero),
            args.offset != 0 && args.limit == 0 ==> r matches Err(ReadFileError::LimitZero),
            args.offset != 0 && args.limit != 0 && !path_absolute ==> r matches Err(
                ReadFileError::PathNotAbsolute,
            ),
            args.offset != 0 && args.limit != 0 && path_absolute ==> r is Ok,
    {
        if args.offset == 0 {
            return Err(ReadFileError::OffsetZero);
        }
        if args.limit == 0 {
            return Err(ReadFileError::LimitZero);
        }
        if !path_absolute {
            return Err(ReadFileError::PathNotAbsolute);
        }
        Ok(())
    }

    /// Checks the arguments before the file is read.
    pub fn validate(&self, args: &ReadFileArgs) -> (r: Result<(), ReadFileError>)
        ensures
            args.offset == 0 ==> r matches Err(ReadFileError::OffsetZero),
            args.offset != 0 && args.limit == 0 ==> r matches Err(ReadFileError::LimitZero),
            args.offset != 0 && args.limit != 0 ==> (r is Ok || r matches Err(
                ReadFileError::PathNotAbsolute,
            )),
            args.offset != 0 && args.limit != 0 && args.file_path@.len() == 0 ==> r matches Err(
                ReadFileError::PathNotAbsolute,
            ),
    {
        let absolute = path_is_absolute(args.file_path.as_str());
        self.check_args(args, absolute)
    }

    /// Answers a call of the tool on a file whose lines (as read, line
    /// endings included or not) are `lines`: the chosen lines joined by `\n`.
    pub fn handle(&self, args: ReadFileArgs, lines: &Vec<Vec<u8>>) -> (r: Result<String, ReadFileError>)
        ensures
            args.offset == 0 ==> r matches Err(ReadFileError::OffsetZero),
            args.offset != 0 && args.limit == 0 ==> r matches Err(ReadFileError::LimitZero),
            args.offset != 0 && args.limit != 0 && args.mode is Slice && !(r matches Err(
                ReadFileError::PathNotAbsolute,
            )) && lines@.len() < args.offset ==> r matches Err(ReadFileError::OffsetExceedsLength),
            args.offset != 0 && args.limit != 0 && args.mode is Slice && !(r matches Err(
                ReadFileError::PathNotAbsolute,
            )) && lines@.len() >= args.offset ==> (r matches Ok(s) && s@ == join_lines(
                slice_lines(lines@, args.offset, args.limit),
            )),
            args.offset != 0 && args.limit != 0 && args.mode is Indentation && !(r matches Err(
                ReadFileError::PathNotAbsolute,
            )) ==> match block_outcome(lines@, args.offset, args.limit, block_options(args.indentation)) {
                Ok(t) => r matches Ok(s) && s@ == join_lines(t),
                Err(e) => r == Err::<String, ReadFileError>(e),
            },
    {
        self.validate(&args)?;
        let ReadFileArgs { file_path: _, offset, limit, mode, indentation } = args;
        let collected = match mode {
            ReadMode::Slice => read(lines, offset, limit)?,
            ReadMode::Indentation => {
                let options = match indentation {
                    Some(o) => o,
                    None => IndentationArgs::default(),
                };
                read_block(lines, offset, limit, options)?
            },
        };
        Ok(join_with_newlines(&collected))
    }
}

/// Why a read was refused.
pub enum ReadFileError {
    /// The start line was 0.
    OffsetZero,
    /// The line budget was 0.
    LimitZero,
    /// The path was relative.
    PathNotAbsolute,
    /// The file could not be read; the text says why.
    ReadFailed(String),
    /// The file has fewer lines than the start line.
    OffsetExceedsLength,
    /// The anchor line was 0.
    AnchorLineZero,
    /// The cap on returned lines was 0.
    MaxLinesZero,
    /// The file is empty or shorter than the anchor line.
    AnchorExceedsLength,
}

/// The text the tool answers with when a read is refused.
pub open spec fn message_of(e: ReadFileError) -> Seq<char> {
    match e {
        ReadFileError::OffsetZero => "offset must be a 1-indexed line number"@,
        ReadFileError::LimitZero => "limit must be greater than zero"@,
        ReadFileError::PathNotAbsolute => "file_path must be an absolute path"@,
        ReadFileError::ReadFailed(why) => "failed to read file: "@ + why@,
        ReadFileError::OffsetExceedsLength => "offset exceeds file length"@,
        ReadFileError::AnchorLineZero => "anchor_line must be a 1-indexed line number"@,
        ReadFileError::MaxLinesZero => "max_lines must be greater than zero"@,
        ReadFileError::AnchorExceedsLength => "anchor_line exceeds file length"@,
    }
}

impl ReadFileError {
    /// The text the tool answers with.
    pub fn message(&self) -> (r: String)
        ensures
            r@ == message_of(*self),
    {
        match self {
            ReadFileError::OffsetZero => "offset must be a 1-indexed line number".to_owned(),
            ReadFileError::LimitZero => "limit must be greater than zero".to_owned(),
            ReadFileError::PathNotAbsolute => "file_path must be an absolute path".to_owned(),
            ReadFileError::ReadFailed(why) => {
                let mut m = "failed to read file: ".to_owned();
                m.append(why.as_str());
                m
            },
            ReadFileError::OffsetExceedsLength => "offset exceeds file length".to_owned(),
            ReadFileError::AnchorLineZero => "anchor_line must be a 1-indexed line number".to_owned(),
            ReadFileError::MaxLinesZero => "max_lines must be greater than zero".to_owned(),
            ReadFileError::AnchorExceedsLength => "anchor_line exceeds file length".to_owned(),
        }
    }
}

} // verus!
