//! The kernel's self test: the filter on the boot command line, which cases
//! it lets run, and how a run ends.

use vstd::prelude::*;
use vstd::string::StringSliceAdditionalSpecFns;
use crate::arch::io::PortWrite;
use crate::arch::qemu::{exit, exit_success, EXIT_PORT};
use crate::bytes::{read_u32_le, spec_u32_le};
use crate::mem::paging::round_up;
use crate::mem::phys::{align_up_u64, lemma_page_size_is_power_of_two, lemma_round_up_bounds};
use crate::utf8::{is_valid_utf8, spec_valid_utf8};

verus! {

/// The tag that ends the boot information.
pub const TAG_TYPE_END: u32 = 0;

/// The tag that holds the command line.
pub const TAG_TYPE_CMDLINE: u32 = 1;

/// The first place from `i` on, below `end`, that holds a zero byte; `end`
/// where there is none.
pub open spec fn spec_zero_from(bytes: Seq<u8>, i: int, end: int) -> int
    decreases (if i < end { end - i } else { 0 }),
{
    if i < 0 || i >= end || i >= bytes.len() || bytes[i] == 0 {
        i
    } else {
        spec_zero_from(bytes, i + 1, end)
    }
}

/// The text of the command line tag at `pos`: the bytes behind its header
/// up to the first zero byte or the end of the tag. A tag without text, one
/// that runs past the end of the block, and text that is not UTF-8 give
/// nothing.
pub open spec fn spec_cmdline_tag(info: Seq<u8>, pos: int) -> Option<Seq<u8>> {
    let size = spec_u32_le(info, pos + 4);
    let start = pos + 8;
    let end = pos + size;
    if size <= 8 || end > info.len() {
        None
    } else {
        let stop = spec_zero_from(info, start, end);
        if stop == start {
            None
        } else {
            let text = info.subrange(start, stop);
            if spec_valid_utf8(text) {
                Some(text)
            } else {
                None
            }
        }
    }
}

/// The command line among the tags from `pos` up to `end`: that of the
/// first command line tag. The walk ends at the end tag, at `end`, where the
/// bytes run out, or at a tag shorter than its header.
pub open spec fn spec_find_cmdline(info: Seq<u8>, pos: int, end: int) -> Option<Seq<u8>>
    decreases (if pos < end { end - pos } else { 0 }),
{
    if pos < 0 || pos >= end || pos + 8 > info.len() {
        None
    } else {
        let tag_type = spec_u32_le(info, pos);
        let size = spec_u32_le(info, pos + 4);
        if tag_type == TAG_TYPE_END || size < 8 {
            None
        } else if tag_type == TAG_TYPE_CMDLINE {
            spec_cmdline_tag(info, pos)
        } else {
            proof {
                lemma_round_up_bounds(pos + size, 8);
            }
            spec_find_cmdline(info, round_up(pos + size, 8), end)
        }
    }
}

/// The command line in a block of boot information: its first word is its
/// total size, its tags begin at byte 8.
pub open spec fn spec_parse_cmdline(info: Seq<u8>) -> Option<Seq<u8>> {
    if info.len() < 8 {
        None
    } else {
        spec_find_cmdline(info, 8, spec_u32_le(info, 0))
    }
}

/// `res` holds the bytes `text`, or both hold nothing.
pub open spec fn same_text(res: Option<Vec<u8>>, text: Option<Seq<u8>>) -> bool {
    match text {
        None => res is None,
        Some(t) => res matches Some(v) && v@ == t,
    }
}

fn cmdline_tag(info: &[u8], pos: usize, size: u32) -> (res: Option<Vec<u8>>)
    requires
        pos + 8 <= info@.len(),
        size == spec_u32_le(info@, pos + 4),
    ensures
        same_text(res, spec_cmdline_tag(info@, pos as int)),
{
    if size <= 8 || size as u64 > info.len() as u64 - pos as u64 {
        return None;
    }
    let start = pos + 8;
    let end = pos + size as usize;
    let mut text: Vec<u8> = Vec::new();
    let mut i: usize = start;
    while i < end && info[i] != 0
        invariant
            start <= i <= end <= info@.len(),
            spec_zero_from(info@, i as int, end as int) == spec_zero_from(
                info@,
                start as int,
                end as int,
            ),
            text@ == info@.subrange(start as int, i as int),
        decreases end - i,
    {
        text.push(info[i]);
        assert(text@ =~= info@.subrange(start as int, i + 1));
        i += 1;
    }
    if i == start {
        return None;
    }
    if is_valid_utf8(text.as_slice()) {
        Some(text)
    } else {
        None
    }
}

/// Finds the command line in a block of boot information.
pub fn parse_cmdline(info: &[u8]) -> (res: Option<Vec<u8>>)
    ensures
        same_text(res, spec_parse_cmdline(info@)),
{
    if info.len() < 8 {
        return None;
    }
    let total_size = read_u32_le(info, 0).unwrap() as u64;
    let mut current: u64 = 8;
    while current < total_size && current <= info.len() as u64 && info.len() as u64 - current >= 8
        invariant
            total_size <= u32::MAX,
            8 <= current,
            spec_find_cmdline(info@, current as int, total_size as int) == spec_parse_cmdline(
                info@,
            ),
        decreases (if current < total_size { total_size - current } else { 0 }),
    {
        let pos = current as usize;
        let tag_type = read_u32_le(info, pos).unwrap();
        let size = read_u32_le(info, pos + 4).unwrap();
        if tag_type == TAG_TYPE_END || size < 8 {
            return None;
        }
        if tag_type == TAG_TYPE_CMDLINE {
            return cmdline_tag(info, pos, size);
        }
        proof {
            lemma_page_size_is_power_of_two();
            lemma_round_up_bounds(current + size, 8);
        }
        current = align_up_u64(current + size as u64, 8);
    }
    None
}

/// A blank of the command line: a space, a tab, a line feed, a form feed
/// or a carriage return.
pub open spec fn is_blank(byte: u8) -> bool {
    byte == 0x20 || byte == 0x09 || byte == 0x0A || byte == 0x0C || byte == 0x0D
}

/// The first place from `i` on that holds no blank.
pub open spec fn spec_skip_blanks(text: Seq<u8>, i: int) -> int
    decreases (if i < text.len() { text.len() - i } else { 0 }),
{
    if i < 0 || i >= text.len() || !is_blank(text[i]) {
        i
    } else {
        spec_skip_blanks(text, i + 1)
    }
}

/// The first place from `i` on that holds a blank, or the end.
pub open spec fn spec_word_end(text: Seq<u8>, i: int) -> int
    decreases (if i < text.len() { text.len() - i } else { 0 }),
{
    if i < 0 || i >= text.len() || is_blank(text[i]) {
        i
    } else {
        spec_word_end(text, i + 1)
    }
}

/// Whether `word` is `test=` with something behind it.
pub open spec fn is_filter_word(word: Seq<u8>) -> bool {
    &&& word.len() > 5
    &&& word[0] == 0x74
    &&& word[1] == 0x65
    &&& word[2] == 0x73
    &&& word[3] == 0x74
    &&& word[4] == 0x3D
}

/// The filter in the words of `text` from `pos` on: what stands behind
/// `test=` in the first word that begins so and goes on.
pub open spec fn spec_filter_from(text: Seq<u8>, pos: int) -> Option<Seq<u8>>
    decreases (if pos < text.len() { text.len() - pos } else { 0 }),
{
    let start = spec_skip_blanks(text, pos);
    if pos < 0 || start < pos || start >= text.len() {
        None
    } else {
        let end = spec_word_end(text, start);
        if end <= start || end > text.len() {
            None
        } else {
            let word = text.subrange(start, end);
            if is_filter_word(word) {
                Some(word.subrange(5, word.len() as int))
            } else {
                spec_filter_from(text, end)
            }
        }
    }
}

/// The filter that a command line asks for.
pub open spec fn spec_extract_filter(text: Seq<u8>) -> Option<Seq<u8>> {
    spec_filter_from(text, 0)
}

fn is_blank_byte(byte: u8) -> (blank: bool)
    ensures
        blank == is_blank(byte),
{
    byte == 0x20 || byte == 0x09 || byte == 0x0A || byte == 0x0C || byte == 0x0D
}

fn skip_blanks(text: &[u8], pos: usize) -> (start: usize)
    requires
        pos <= text@.len(),
    ensures
        start == spec_skip_blanks(text@, pos as int),
        pos <= start <= text@.len(),
        start < text@.len() ==> !is_blank(text@[start as int]),
{
    let mut i: usize = pos;
    while i < text.len() && is_blank_byte(text[i])
        invariant
            pos <= i <= text@.len(),
            spec_skip_blanks(text@, i as int) == spec_skip_blanks(text@, pos as int),
        decreases text@.len() - i,
    {
        i += 1;
    }
    i
}

fn word_end(text: &[u8], start: usize) -> (end: usize)
    requires
        start < text@.len(),
        !is_blank(text@[start as int]),
    ensures
        end == spec_word_end(text@, start as int),
        start < end <= text@.len(),
{
    let len = text.len();
    let mut i: usize = start + 1;
    while i < len && !is_blank_byte(text[i])
        invariant
            start < i <= text@.len(),
            len == text@.len(),
            spec_word_end(text@, i as int) == spec_word_end(text@, start as int),
        decreases text@.len() - i,
    {
        i += 1;
    }
    i
}

/// Finds the filter in a command line: the words are what stands between
/// blanks; the first word that begins with `test=` and goes on gives the
/// filter, what stands behind the `=`.
pub fn extract_filter(cmdline: &[u8]) -> (res: Option<Vec<u8>>)
    ensures
        same_text(res, spec_extract_filter(cmdline@)),
{
    let mut pos: usize = 0;
    while pos < cmdline.len()
        invariant
            pos <= cmdline@.len(),
            spec_filter_from(cmdline@, pos as int) == spec_extract_filter(cmdline@),
        decreases cmdline@.len() - pos,
    {
        let start = skip_blanks(cmdline, pos);
        if start >= cmdline.len() {
            return None;
        }
        let end = word_end(cmdline, start);
        let ghost word = cmdline@.subrange(start as int, end as int);
        if end - start > 5 && cmdline[start] == 0x74 && cmdline[start + 1] == 0x65 && cmdline[start
            + 2] == 0x73 && cmdline[start + 3] == 0x74 && cmdline[start + 4] == 0x3D {
            let mut value: Vec<u8> = Vec::new();
            let mut i: usize = start + 5;
            while i < end
                invariant
                    start + 5 <= i <= end <= cmdline@.len(),
                    value@ == cmdline@.subrange(start + 5, i as int),
                decreases end - i,
            {
                value.push(cmdline[i]);
                assert(value@ =~= cmdline@.subrange(start + 5, i + 1));
                i += 1;
            }
            assert(value@ =~= word.subrange(5, word.len() as int));
            return Some(value);
        }
        pos = end;
    }
    None
}

/// Finds the filter that the boot information asks for.
pub fn command_line_filter(info: &[u8]) -> (res: Option<Vec<u8>>)
    ensures
        same_text(
            res,
            match spec_parse_cmdline(info@) {
                None => None,
                Some(text) => spec_extract_filter(text),
            },
        ),
{
    match parse_cmdline(info) {
        None => None,
        Some(text) => extract_filter(text.as_slice()),
    }
}

/// Whether `name` begins with `prefix`.
pub open spec fn spec_starts_with(name: Seq<u8>, prefix: Seq<u8>) -> bool {
    prefix.len() <= name.len() && name.subrange(0, prefix.len() as int) == prefix
}

/// Whether the bytes `name` begin with `prefix`.
pub fn starts_with(name: &[u8], prefix: &[u8]) -> (res: bool)
    ensures
        res == spec_starts_with(name@, prefix@),
{
    if prefix.len() > name.len() {
        return false;
    }
    let mut i: usize = 0;
    while i < prefix.len()
        invariant
            i <= prefix@.len() <= name@.len(),
            name@.subrange(0, i as int) == prefix@.subrange(0, i as int),
        decreases prefix@.len() - i,
    {
        if name[i] != prefix[i] {
            assert(name@.subrange(0, prefix@.len() as int)[i as int] != prefix@[i as int]);
            return false;
        }
        assert(name@.subrange(0, i + 1) =~= name@.subrange(0, i as int).push(name@[i as int]));
        assert(prefix@.subrange(0, i + 1) =~= prefix@.subrange(0, i as int).push(
            prefix@[i as int],
        ));
        i += 1;
    }
    assert(prefix@.subrange(0, prefix@.len() as int) =~= prefix@);
    true
}

/// Whether the case `name` runs under the filter: without a filter every
/// case runs, with one the cases whose names begin with it.
pub fn should_run(name: &str, filter: &Option<Vec<u8>>) -> (run: bool)
    ensures
        run == match filter {
            None => true,
            Some(prefix) => spec_starts_with(name.spec_bytes(), prefix@),
        },
{
    match filter {
        None => true,
        Some(prefix) => starts_with(name.as_bytes(), prefix.as_slice()),
    }
}

/// How many of the cases failed.
pub open spec fn spec_failures(results: Seq<bool>) -> nat
    decreases results.len(),
{
    if results.len() == 0 {
        0
    } else {
        spec_failures(results.drop_last()) + (if results.last() { 0nat } else { 1nat })
    }
}

/// The code that the emulator is left with: 0 where nothing failed, else
/// the low byte of the number of failures, and 1 where that byte is 0.
pub open spec fn spec_exit_code(failures: nat) -> u8 {
    if failures == 0 {
        0
    } else if failures % 256 == 0 {
        1
    } else {
        (failures % 256) as u8
    }
}

/// How a run of the self test ended.
#[derive(Clone, Copy, Debug, PartialEq, Eq, Structural)]
pub struct TestReport {
    /// How many cases ran.
    pub executed: u32,
    /// How many of them failed.
    pub failures: u32,
    /// The port write that leaves the emulator.
    pub exit: PortWrite,
}

/// Ends a run of the self test. `results` holds, for each case that ran,
/// whether it passed.
pub fn run(results: &[bool]) -> (report: TestReport)
    requires
        results@.len() <= u32::MAX,
    ensures
        report.executed == results@.len(),
        report.failures == spec_failures(results@),
        report.exit == (PortWrite { port: EXIT_PORT, value: spec_exit_code(spec_failures(results@)) }),
{
    let mut failures: u32 = 0;
    let mut executed: u32 = 0;
    let mut i: usize = 0;
    while i < results.len()
        invariant
            i <= results@.len() <= u32::MAX,
            executed == i,
            failures <= i,
            failures == spec_failures(results@.subrange(0, i as int)),
        decreases results@.len() - i,
    {
        assert(results@.subrange(0, i + 1).drop_last() =~= results@.subrange(0, i as int));
        executed += 1;
        if !results[i] {
            failures += 1;
        }
        i += 1;
    }
    assert(results@.subrange(0, results@.len() as int) =~= results@);
    let exit_write = if failures == 0 {
        exit_success()
    } else {
        let low: u8 = (failures % 256) as u8;
        exit(if low == 0 { 1 } else { low })
    };
    TestReport { executed, failures, exit: exit_write }
}

} // verus!
