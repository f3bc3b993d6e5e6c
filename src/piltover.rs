use vstd::prelude::*;
use crate::errors::Error;

verus! {

/// The program output of a proof: the last `stop_ptr - begin_addr` cells of
/// the public input's main page, where the output segment begins at
/// `begin_addr` and stops at `stop_ptr`.
pub open spec fn output_cells(main_page: Seq<Seq<char>>, begin_addr: u64, stop_ptr: u64) -> Option<
    Seq<Seq<char>>,
> {
    if begin_addr <= stop_ptr && stop_ptr - begin_addr <= main_page.len() {
        Some(main_page.subrange(main_page.len() - (stop_ptr - begin_addr), main_page.len() as int))
    } else {
        None
    }
}

/// The memory segments of a proof's public input, as `(begin_addr, stop_ptr)`
/// pairs, list the output segment third.
pub const OUTPUT_SEGMENT: usize = 2;

/// The program output of a proof, if its segments and main page are
/// consistent.
pub open spec fn program_output(segments: Seq<(u64, u64)>, main_page: Seq<Seq<char>>) -> Option<
    Seq<Seq<char>>,
> {
    if OUTPUT_SEGMENT < segments.len() {
        output_cells(main_page, segments[OUTPUT_SEGMENT as int].0, segments[OUTPUT_SEGMENT as int].1)
    } else {
        None
    }
}

/// Extracts the program output from a parsed proof: its memory segments and
/// its main page, whose cell values are given as decimal text. A proof without
/// an output segment, or whose output segment does not fit in the page, is
/// malformed.
pub fn calculate_output(segments: &Vec<(u64, u64)>, main_page: &Vec<String>) -> (r: Result<
    Vec<String>,
    Error,
>)
    ensures
        program_output(segments@, main_page@.map_values(|c: String| c@)) matches Some(out) ==> (r matches Ok(
            v,
        ) && v@.map_values(|c: String| c@) == out),
        program_output(segments@, main_page@.map_values(|c: String| c@)) is None ==> r == Err::<
            Vec<String>,
            Error,
        >(Error::MalformedProof),
{
    let ghost cells = main_page@.map_values(|c: String| c@);
    if segments.len() <= OUTPUT_SEGMENT {
        return Err(Error::MalformedProof);
    }
    let (begin_addr, stop_ptr) = segments[OUTPUT_SEGMENT];
    if begin_addr > stop_ptr {
        return Err(Error::MalformedProof);
    }
    let output_len = stop_ptr - begin_addr;
    if output_len > main_page.len() as u64 {
        return Err(Error::MalformedProof);
    }
    let end = main_page.len();
    let start = end - output_len as usize;
    let mut out: Vec<String> = Vec::new();
    let mut i: usize = start;
    while i < end
        invariant
            cells == main_page@.map_values(|c: String| c@),
            end == main_page@.len(),
            start <= i <= end,
            out@.map_values(|c: String| c@) =~= cells.subrange(start as int, i as int),
        decreases end - i,
    {
        let ghost prev = out@;
        out.push(main_page[i].clone());
        assert(out@ =~= prev.push(main_page@[i as int]));
        assert(cells.subrange(start as int, i as int + 1) =~= cells.subrange(start as int, i as int).push(
            cells[i as int],
        ));
        i = i + 1;
        assert(out@.map_values(|c: String| c@) =~= cells.subrange(start as int, i as int));
    }
    Ok(out)
}

} // verus!
