//! The block of code around an anchor line, found by indentation: the
//! enclosing levels above it, the rest of its block below it, cut around the
//! anchor to a cap.
use crate::read_file::lines::{
    blank, display_of, line_shapes, numbered, numbered_chars, saturated_indent, shapes, header, is_closing_line,
    collect_file_lines, LineRecord, LineShape,
};
use crate::read_file::{texts, IndentationArgs, ReadFileError};
use crate::text::{decimal, lossy_utf8, push_all, push_decimal, string_from_chars};
use vstd::prelude::*;

verus! {

/// The indentation that line `i` counts with: its own, or for a blank line
/// that of the nearest non-blank line above it (0 if there is none).
pub open spec fn effective_indent(sh: Seq<LineShape>, i: int) -> usize
    decreases i + 1,
{
    if i < 0 {
        0
    } else if sh[i].blank {
        effective_indent(sh, i - 1)
    } else {
        sh[i].indent
    }
}

/// The effective indentation of every line.
pub open spec fn effective_indents(sh: Seq<LineShape>) -> Seq<usize> {
    Seq::new(sh.len(), |i: int| effective_indent(sh, i))
}

/// The effective indentation of every line.
pub fn compute_effective_indents(records: &Vec<LineRecord>) -> (r: Vec<usize>)
    ensures
        r@.len() == records@.len(),
        r@ == effective_indents(shapes(records@)),
{
    let mut effective: Vec<usize> = Vec::new();
    let mut previous_indent: usize = 0;
    let mut i: usize = 0;
    while i < records.len()
        invariant
            i <= records@.len(),
            effective@.len() == i,
            forall|j: int| 0 <= j < i ==> effective@[j] == #[trigger] effective_indent(shapes(records@), j),
            previous_indent == effective_indent(shapes(records@), i - 1),
        decreases records@.len() - i,
    {
        if records[i].is_blank() {
            effective.push(previous_indent);
        } else {
            previous_indent = records[i].indent;
            effective.push(previous_indent);
        }
        i = i + 1;
    }
    assert(effective@ =~= effective_indents(shapes(records@)));
    effective
}

/// The walk that picks the root indentation: from line `index` upwards, each
/// strictly smaller indentation is taken while `remaining` allows.
pub open spec fn root_walk(effective: Seq<usize>, index: int, remaining: int, root: usize) -> usize
    decreases index,
{
    if index <= 0 || remaining <= 0 {
        root
    } else if effective[index - 1] < root {
        root_walk(effective, index - 1, remaining - 1, effective[index - 1])
    } else {
        root_walk(effective, index - 1, remaining, root)
    }
}

/// The indentation of the outermost block to show: walking up from the
/// anchor, each strictly smaller indentation is taken, `max_levels + 1` times
/// at most. It is the indentation of a line at or above the anchor, and
/// the smallest of them all when `max_levels` allows as many steps as there
/// are lines above the anchor.
pub fn determine_root_indent(effective: &Vec<usize>, anchor_index: usize, max_levels: usize) -> (r:
    usize)
    requires
        anchor_index < effective@.len(),
    ensures
        r == root_walk(
            effective@,
            anchor_index as int,
            if max_levels as int + 1 > usize::MAX as int {
                usize::MAX as int
            } else {
                max_levels as int + 1
            },
            effective@[anchor_index as int],
        ),
        r <= effective@[anchor_index as int],
        exists|j: int| 0 <= j <= anchor_index && effective@[j] == r,
        max_levels >= anchor_index ==> forall|j: int|
            0 <= j <= anchor_index ==> r <= #[trigger] effective@[j],
{
    let mut root = effective[anchor_index];
    let mut remaining = max_levels.saturating_add(1);
    let ghost budget: int = if max_levels as int + 1 > usize::MAX as int {
        usize::MAX as int
    } else {
        max_levels as int + 1
    };
    let mut index = anchor_index;
    while index > 0 && remaining > 0
        invariant
            anchor_index < effective@.len(),
            index <= anchor_index,
            remaining as int >= budget - (anchor_index - index),
            budget == if max_levels as int + 1 > usize::MAX as int {
                usize::MAX as int
            } else {
                max_levels as int + 1
            },
            root <= effective@[anchor_index as int],
            root_walk(effective@, index as int, remaining as int, root) == root_walk(
                effective@,
                anchor_index as int,
                budget,
                effective@[anchor_index as int],
            ),
            exists|j: int| index <= j <= anchor_index && effective@[j] == root,
            forall|j: int| index <= j <= anchor_index ==> root <= #[trigger] effective@[j],
        decreases index,
    {
        index = index - 1;
        if effective[index] < root {
            root = effective[index];
            remaining = remaining - 1;
        }
    }
    proof {
        if max_levels >= anchor_index {
            assert(index == 0);
        }
    }
    root
}

/// non-blank line goes by whether it is a header, or else by its indentation.
pub open spec fn fits_above(sh: Seq<LineShape>, eff: Seq<usize>, j: int, root: usize, include_header: bool) -> bool {
    !sh[j].blank ==> if sh[j].header {
        include_header
    } else {
        eff[j] >= root
    }
}

/// The walk that finds the first line of the block, from line `index`
/// upwards; `chain` records that the last line taken was a header, which lets
/// blank lines above it in.
pub open spec fn up_walk(
    sh: Seq<LineShape>,
    eff: Seq<usize>,
    index: int,
    chain: bool,
    root: usize,
    include_header: bool,
) -> int
    decreases index,
{
    if index <= 0 {
        index
    } else {
        let c = index - 1;
        let joins = if sh[c].blank {
            chain || eff[c] >= root
        } else if sh[c].header {
            include_header
        } else {
            eff[c] >= root
        };
        if joins {
            let next_chain = if sh[c].header && include_header {
                true
            } else if !sh[c].blank {
                false
            } else {
                chain
            };
            up_walk(sh, eff, c, next_chain, root, include_header)
        } else {
            index
        }
    }
}

/// The first line of the block: walks up from the anchor while lines are
/// indented at least as deep as the root, or are headers (when those are
/// shown), or are blank lines inside such a stretch.
pub fn expand_upwards(
    records: &Vec<LineRecord>,
    effective: &Vec<usize>,
    anchor_index: usize,
    root_indent: usize,
    options: &IndentationArgs,
) -> (r: usize)
    requires
        anchor_index < records@.len(),
        effective@.len() == records@.len(),
    ensures
        r == up_walk(shapes(records@), effective@, anchor_index as int, false, root_indent, options.include_header),
        r <= anchor_index,
        forall|j: int| r <= j < anchor_index ==> #[trigger] fits_above(shapes(records@), effective@, j, root_indent, options.include_header),
        r > 0 ==> if blank(records@[r - 1]) {
            effective@[r - 1] < root_indent
        } else {
            !fits_above(shapes(records@), effective@, r - 1, root_indent, options.include_header)
        },
{
    let mut index = anchor_index;
    let mut header_chain = false;
    while index > 0
        invariant
            index <= anchor_index < records@.len(),
            effective@.len() == records@.len(),
            forall|j: int| index <= j < anchor_index ==> #[trigger] fits_above(shapes(records@), effective@, j, root_indent, options.include_header),
            up_walk(shapes(records@), effective@, index as int, header_chain, root_indent, options.include_header)
                == up_walk(shapes(records@), effective@, anchor_index as int, false, root_indent, options.include_header),
        ensures
            index as int == up_walk(shapes(records@), effective@, anchor_index as int, false, root_indent, options.include_header),
            index <= anchor_index,
            forall|j: int| index <= j < anchor_index ==> #[trigger] fits_above(shapes(records@), effective@, j, root_indent, options.include_header),
            index > 0 ==> if blank(records@[index - 1]) {
                effective@[index - 1] < root_indent
            } else {
                !fits_above(shapes(records@), effective@, index - 1, root_indent, options.include_header)
            },
        decreases index,
    {
        let candidate = index - 1;
        let record = &records[candidate];
        let indent = effective[candidate];
        let header_like = record.is_header_like();
        let is_blank = record.is_blank();
        let joins = if is_blank {
            header_chain || indent >= root_indent
        } else if header_like {
            options.include_header
        } else {
            indent >= root_indent
        };
        if joins {
            index = index - 1;
            if header_like && options.include_header {
                header_chain = true;
            } else if !is_blank {
                header_chain = false;
            }
            continue;
        }
        break;
    }
    index
}

/// Closes the blocks that a line at `indent` leaves: pops deeper levels off
/// `stack`, noting when the anchor's level is closed; the root level always
/// stays.
pub open spec fn pop_deeper(stack: Seq<usize>, indent: usize, anchor_indent: usize, active: bool, root: usize) -> (
    Seq<usize>,
    bool,
)
    decreases stack.len(),
{
    if stack.len() == 0 || !(indent < stack.last()) {
        (stack, active)
    } else {
        let still_active = if stack.last() == anchor_indent {
            false
        } else {
            active
        };
        if stack.len() == 1 {
            (seq![root], still_active)
        } else {
            pop_deeper(stack.drop_last(), indent, anchor_indent, still_active, root)
        }
    }
}

/// The walk that finds the last line of the block, from line `idx` down;
/// `end` is the last line taken so far, `stack` the open indentation levels
/// and `active` whether the anchor's own block is still open.
pub open spec fn down_walk(
    sh: Seq<LineShape>,
    eff: Seq<usize>,
    idx: int,
    end: int,
    stack: Seq<usize>,
    active: bool,
    root: usize,
    anchor_indent: usize,
    include_header: bool,
    include_siblings: bool,
) -> int
    decreases sh.len() - idx,
{
    if idx < 0 || idx >= sh.len() {
        end
    } else if eff[idx] < root && !(include_header && sh[idx].header) {
        end
    } else {
        let popped = pop_deeper(stack, eff[idx], anchor_indent, active, root);
        let levels = if eff[idx] > popped.0.last() {
            popped.0.push(eff[idx])
        } else {
            popped.0
        };
        let now_active = if eff[idx] == anchor_indent {
            true
        } else {
            popped.1
        };
        if !include_siblings && !now_active && !sh[idx].blank && !sh[idx].closing {
            end
        } else {
            down_walk(
                sh,
                eff,
                idx + 1,
                idx,
                levels,
                now_active,
                root,
                anchor_indent,
                include_header,
                include_siblings,
            )
        }
    }
}

/// The levels open at the anchor: the root's, and the anchor's when deeper.
pub open spec fn initial_levels(root: usize, anchor_indent: usize) -> Seq<usize> {
    if anchor_indent > root {
        seq![root, anchor_indent]
    } else {
        seq![root]
    }
}

/// The last line of the block: walks down from the anchor while lines stay
/// at or inside the root's indentation (or are headers, when those are
/// shown); unless siblings are wanted, it also stops at the first non-blank,
/// non-closing line after the anchor's own block has ended.
pub fn expand_downwards(
    records: &Vec<LineRecord>,
    effective: &Vec<usize>,
    anchor_index: usize,
    root_indent: usize,
    anchor_indent: usize,
    options: &IndentationArgs,
) -> (r: usize)
    requires
        anchor_index < records@.len(),
        effective@.len() == records@.len(),
    ensures
        r == down_walk(
            shapes(records@),
            effective@,
            anchor_index + 1,
            anchor_index as int,
            initial_levels(root_indent, anchor_indent),
            true,
            root_indent,
            anchor_indent,
            options.include_header,
            options.include_siblings,
        ),
        anchor_index <= r < records@.len(),
        forall|j: int|
            anchor_index < j <= r ==> #[trigger] effective@[j] >= root_indent || (options.include_header
                && header(records@[j])),
{
    let mut end = anchor_index;
    let mut stack: Vec<usize> = vec![root_indent];
    if anchor_indent > root_indent {
        stack.push(anchor_indent);
    }
    let mut anchor_active = true;
    let ghost goal = down_walk(
        shapes(records@),
        effective@,
        anchor_index + 1,
        anchor_index as int,
        initial_levels(root_indent, anchor_indent),
        true,
        root_indent,
        anchor_indent,
        options.include_header,
        options.include_siblings,
    );
    assert(stack@ =~= initial_levels(root_indent, anchor_indent));
    let n = records.len();
    let mut idx = anchor_index + 1;
    while idx < n
        invariant_except_break
            down_walk(
                shapes(records@),
                effective@,
                idx as int,
                end as int,
                stack@,
                anchor_active,
                root_indent,
                anchor_indent,
                options.include_header,
                options.include_siblings,
            ) == goal,
        invariant
            anchor_index < idx <= records@.len(),
            n == records@.len(),
            effective@.len() == records@.len(),
            anchor_index <= end < idx,
            end == idx - 1,
            stack@.len() >= 1,
            forall|j: int|
                anchor_index < j <= end ==> #[trigger] effective@[j] >= root_indent || (options.include_header
                    && header(records@[j])),
        ensures
            anchor_index <= end < records@.len(),
            forall|j: int|
                anchor_index < j <= end ==> #[trigger] effective@[j] >= root_indent || (options.include_header
                    && header(records@[j])),
            end as int == goal,
        decreases records@.len() - idx,
    {
        let record = &records[idx];
        let indent = effective[idx];
        if indent < root_indent && !(options.include_header && record.is_header_like()) {
            break;
        }
        let ghost entry_stack = stack@;
        let ghost entry_active = anchor_active;
        while indent < stack[stack.len() - 1]
            invariant_except_break
                pop_deeper(stack@, indent, anchor_indent, anchor_active, root_indent) == pop_deeper(
                    entry_stack,
                    indent,
                    anchor_indent,
                    entry_active,
                    root_indent,
                ),
            invariant
                stack@.len() >= 1,
                anchor_index < idx < records@.len(),
                n == records@.len(),
                effective@.len() == records@.len(),
                anchor_index <= end < idx,
                end == idx - 1,
                indent == effective@[idx as int],
                effective@[idx as int] >= root_indent || (options.include_header && header(records@[idx as int])),
                forall|j: int|
                    anchor_index < j <= end ==> #[trigger] effective@[j] >= root_indent || (options.include_header
                        && header(records@[j])),
            ensures
                stack@.len() >= 1,
                anchor_index < idx < records@.len(),
                n == records@.len(),
                effective@.len() == records@.len(),
                anchor_index <= end < idx,
                end == idx - 1,
                indent == effective@[idx as int],
                effective@[idx as int] >= root_indent || (options.include_header && header(records@[idx as int])),
                forall|j: int|
                    anchor_index < j <= end ==> #[trigger] effective@[j] >= root_indent || (options.include_header
                        && header(records@[j])),
                (stack@, anchor_active) == pop_deeper(
                    entry_stack,
                    indent,
                    anchor_indent,
                    entry_active,
                    root_indent,
                ),
            decreases stack@.len(),
        {
            let popped = match stack.pop() {
                Some(v) => v,
                None => root_indent,
            };
            if popped == anchor_indent {
                anchor_active = false;
            }
            if stack.len() == 0 {
                stack.push(root_indent);
                assert(stack@ =~= seq![root_indent]);
                break;
            }
        }
        if indent > stack[stack.len() - 1] {
            stack.push(indent);
        }
        if indent == anchor_indent {
            anchor_active = true;
        }
        let trimmed = record.trimmed();
        let closing = is_closing_line(trimmed.as_slice());
        if !options.include_siblings && !anchor_active && !record.is_blank() && !closing {
            break;
        }
        end = idx;
        idx = idx + 1;
    }
    end
}

/// The line that a block read is built around.
pub open spec fn anchor_of(offset: usize, options: IndentationArgs) -> usize {
    match options.anchor_line {
        Some(a) => a,
        None => offset,
    }
}

/// The most lines a block read shows.
pub open spec fn guard_of(limit: usize, options: IndentationArgs) -> usize {
    match options.max_lines {
        Some(m) => m,
        None => limit,
    }
}

/// Line `i` (0-based) of a block read, marked when it is the anchor.
pub open spec fn block_line(lines: Seq<Vec<u8>>, i: int, anchor_line: usize) -> Seq<char> {
    numbered((i + 1) as nat, display_of(lines[i]@)) + if i + 1 == anchor_line {
        " <- anchor"@
    } else {
        Seq::empty()
    }
}

/// The note that ends a block read that was cut to `guard` lines.
pub open spec fn truncation_note(guard: usize) -> Seq<char> {
    "... (truncated after "@ + decimal(guard as nat) + " lines)"@
}

/// `out` shows lines `lo..=hi` of `lines` in order, followed by the note of
/// a cut when `truncated`.
pub open spec fn shows_block(
    out: Seq<String>,
    lines: Seq<Vec<u8>>,
    lo: int,
    hi: int,
    anchor_line: usize,
    guard: usize,
    truncated: bool,
) -> bool {
    &&& 0 <= lo < anchor_line <= hi + 1 <= lines.len()
    &&& hi - lo + 1 <= guard
    &&& truncated ==> hi - lo + 1 == guard
    &&& out.len() == hi - lo + 1 + if truncated {
        1int
    } else {
        0
    }
    &&& forall|k: int| 0 <= k <= hi - lo ==> #[trigger] out[k]@ == block_line(lines, lo + k, anchor_line)
    &&& truncated ==> out[hi - lo + 1]@ == truncation_note(guard)
}

/// The window that a cut block keeps: starting from the anchor alone, a
/// line above and then a line below are added in turn while the budget
/// `remaining` lasts and the block has lines left on that side.
pub open spec fn widen(lo: int, hi: int, start: int, end: int, remaining: int) -> (int, int)
    decreases remaining,
{
    if remaining <= 0 || !(lo > start || hi < end) {
        (lo, hi)
    } else {
        let lo2 = if lo > start {
            lo - 1
        } else {
            lo
        };
        let rem2 = if lo > start {
            remaining - 1
        } else {
            remaining
        };
        let hi2 = if rem2 > 0 && hi < end {
            hi + 1
        } else {
            hi
        };
        let rem3 = if rem2 > 0 && hi < end {
            rem2 - 1
        } else {
            rem2
        };
        if lo2 == start && hi2 == end {
            (lo2, hi2)
        } else {
            widen(lo2, hi2, start, end, rem3)
        }
    }
}

/// `max_levels + 1`, saturated: how many times the root may move up.
pub open spec fn level_budget(max_levels: usize) -> int {
    if max_levels as int + 1 > usize::MAX as int {
        usize::MAX as int
    } else {
        max_levels as int + 1
    }
}

/// The lines a block read shows, 0-based and inclusive, and whether the
/// block was cut to fit the cap.
pub open spec fn block_range(lines: Seq<Vec<u8>>, offset: usize, limit: usize, options: IndentationArgs) -> (
    int,
    int,
    bool,
) {
    let sh = line_shapes(lines);
    let eff = effective_indents(sh);
    let a = anchor_of(offset, options) - 1;
    let root = root_walk(eff, a, level_budget(options.max_levels), eff[a]);
    let start = up_walk(sh, eff, a, false, root, options.include_header);
    let end = down_walk(
        sh,
        eff,
        a + 1,
        a,
        initial_levels(root, eff[a]),
        true,
        root,
        eff[a],
        options.include_header,
        options.include_siblings,
    );
    let guard = guard_of(limit, options);
    if end - start + 1 > guard {
        let w = widen(a, a, start, end, guard - 1);
        (w.0, w.1, true)
    } else {
        (start, end, false)
    }
}

/// What a block read shows: the numbered lines of `block_range`, then the
/// note of a cut if there was one.
pub open spec fn block_text(lines: Seq<Vec<u8>>, offset: usize, limit: usize, options: IndentationArgs) -> Seq<
    Seq<char>,
> {
    let (lo, hi, cut) = block_range(lines, offset, limit, options);
    Seq::new((hi - lo + 1) as nat, |k: int| block_line(lines, lo + k, anchor_of(offset, options)))
        + if cut {
        seq![truncation_note(guard_of(limit, options))]
    } else {
        Seq::empty()
    }
}

/// `out` shows some stretch of lines around the anchor, as `shows_block` says.
pub open spec fn shows_some_block(out: Seq<String>, lines: Seq<Vec<u8>>, anchor_line: usize, guard: usize) -> bool {
    exists|lo: int, hi: int, truncated: bool|
        #[trigger] shows_block(out, lines, lo, hi, anchor_line, guard, truncated)
}

fn block_line_string(record: &LineRecord, anchor_line: usize) -> (r: String)
    ensures
        r@ == numbered(record.number as nat, record.display@) + if record.number == anchor_line {
            " <- anchor"@
        } else {
            Seq::empty()
        },
{
    let mut line = numbered_chars(record.number, record.display.as_slice());
    if record.number == anchor_line {
        let mark = crate::text::chars_of(" <- anchor");
        push_all(&mut line, mark.as_slice());
    }
    string_from_chars(line.as_slice())
}

fn truncation_note_string(guard: usize) -> (r: String)
    ensures
        r@ == truncation_note(guard),
{
    let mut note = crate::text::chars_of("... (truncated after ");
    push_decimal(&mut note, guard);
    let tail = crate::text::chars_of(" lines)");
    push_all(&mut note, tail.as_slice());
    string_from_chars(note.as_slice())
}

/// The block of code around the anchor line, as numbered lines: the lines
/// the block search finds, cut around the anchor to at most the cap, with
/// a closing note when cut.
pub fn read_block(lines: &Vec<Vec<u8>>, offset: usize, limit: usize, options: IndentationArgs) -> (r:
    Result<Vec<String>, ReadFileError>)
    ensures
        anchor_of(offset, options) == 0 ==> r matches Err(ReadFileError::AnchorLineZero),
        anchor_of(offset, options) != 0 && guard_of(limit, options) == 0 ==> r matches Err(
            ReadFileError::MaxLinesZero,
        ),
        anchor_of(offset, options) != 0 && guard_of(limit, options) != 0 && anchor_of(offset, options)
            > lines@.len() ==> r matches Err(ReadFileError::AnchorExceedsLength),
        anchor_of(offset, options) != 0 && guard_of(limit, options) != 0 && anchor_of(offset, options)
            <= lines@.len() ==> (r matches Ok(v) && texts(v@) == block_text(lines@, offset, limit, options)
            && shows_some_block(
            v@,
            lines@,
            anchor_of(offset, options),
            guard_of(limit, options),
        )),
{
    let anchor_line = match options.anchor_line {
        Some(a) => a,
        None => offset,
    };
    if anchor_line == 0 {
        return Err(ReadFileError::AnchorLineZero);
    }
    let guard_limit = match options.max_lines {
        Some(m) => m,
        None => limit,
    };
    if guard_limit == 0 {
        return Err(ReadFileError::MaxLinesZero);
    }
    let collected = collect_file_lines(lines);
    if collected.len() == 0 || anchor_line > collected.len() {
        return Err(ReadFileError::AnchorExceedsLength);
    }
    let anchor_index = anchor_line - 1;
    assert forall|i: int| 0 <= i < collected@.len() implies #[trigger] shapes(collected@)[i] == line_shapes(
        lines@,
    )[i] by {
        let r = collected@[i];
        assert(collected@[i].number == i + 1);
        assert(r.raw@ == lossy_utf8(lines@[i]@));
        assert(r.indent == saturated_indent(r.raw@));
    }
    assert(shapes(collected@) =~= line_shapes(lines@));
    let effective_indents = compute_effective_indents(&collected);
    let anchor_indent = effective_indents[anchor_index];
    let root_indent = determine_root_indent(&effective_indents, anchor_index, options.max_levels);
    let start = expand_upwards(&collected, &effective_indents, anchor_index, root_indent, &options);
    let end = expand_downwards(
        &collected,
        &effective_indents,
        anchor_index,
        root_indent,
        anchor_indent,
        &options,
    );
    let total_span = end - start + 1;
    let mut slice_start = start;
    let mut slice_end = end;
    let mut truncated = false;
    if total_span > guard_limit {
        truncated = true;
        let mut remaining = guard_limit - 1;
        slice_start = anchor_index;
        slice_end = anchor_index;
        while remaining > 0 && (slice_start > start || slice_end < end)
            invariant_except_break
                widen(slice_start as int, slice_end as int, start as int, end as int, remaining as int)
                    == widen(anchor_index as int, anchor_index as int, start as int, end as int, guard_limit - 1),
            invariant
                start <= slice_start <= anchor_index <= slice_end <= end,
                remaining + (slice_end - slice_start) == guard_limit - 1,
                end - start + 1 > guard_limit,
            ensures
                start <= slice_start <= anchor_index <= slice_end <= end,
                slice_end - slice_start + 1 == guard_limit,
                (slice_start as int, slice_end as int) == widen(
                    anchor_index as int,
                    anchor_index as int,
                    start as int,
                    end as int,
                    guard_limit - 1,
                ),
            decreases remaining,
        {
            if slice_start > start {
                slice_start = slice_start - 1;
                remaining = remaining - 1;
            }
            if remaining > 0 && slice_end < end {
                slice_end = slice_end + 1;
                remaining = remaining - 1;
            }
            if slice_start == start && slice_end == end {
                break;
            }
        }
    }
    let mut formatted: Vec<String> = Vec::new();
    let mut k = slice_start;
    while k <= slice_end
        invariant
            slice_start <= k <= slice_end + 1,
            slice_end < collected@.len() == lines@.len(),
            formatted@.len() == k - slice_start,
            forall|i: int|
                0 <= i < collected@.len() ==> {
                    &&& #[trigger] collected@[i].number == i + 1
                    &&& collected@[i].display@ == display_of(lines@[i]@)
                },
            forall|i: int|
                0 <= i < k - slice_start ==> #[trigger] formatted@[i]@ == block_line(
                    lines@,
                    slice_start + i,
                    anchor_line,
                ),
        decreases slice_end + 1 - k,
    {
        let line = block_line_string(&collected[k], anchor_line);
        formatted.push(line);
        k = k + 1;
    }
    if truncated {
        formatted.push(truncation_note_string(guard_limit));
    }
    assert(anchor_line == anchor_of(offset, options));
    assert(guard_limit == guard_of(limit, options));
    assert(shows_block(
        formatted@,
        lines@,
        slice_start as int,
        slice_end as int,
        anchor_of(offset, options),
        guard_of(limit, options),
        truncated,
    ));
    assert(shows_some_block(formatted@, lines@, anchor_of(offset, options), guard_of(limit, options)));
    assert(texts(formatted@) =~= block_text(lines@, offset, limit, options));
    Ok(formatted)
}

} // verus!
