//! Placing generated context between marker comments in an instructions file,
//! leaving everything outside the markers as it was.
use vstd::prelude::*;
use vstd::string::*;
use crate::model::lemma_find_occurs;
use crate::text::{chars_of, concat_chars, find_exec, find_from, slice_chars, string_of};

verus! {

/// Failures of writing the instructions file.
#[derive(Debug, Clone)]
pub enum InjectError {
    Io(String),
}

/// Opening marker of the managed block.
pub const START_MARKER: &'static str = "<!-- wardwell:start -->";

/// Closing marker of the managed block.
pub const END_MARKER: &'static str = "<!-- wardwell:end -->";

/// `content` between the markers.
pub open spec fn marked(content: Seq<char>) -> Seq<char> {
    START_MARKER@ + "\n"@ + content + "\n"@ + END_MARKER@
}

/// `existing` with `content` injected: the text from the first start marker
/// through the end of the first end marker is replaced (through the end of
/// the text when there is no end marker); without a start marker the block is
/// appended after a blank line, or stands alone in an empty text.
pub open spec fn injected(existing: Seq<char>, content: Seq<char>) -> Seq<char> {
    match find_from(existing, START_MARKER@, 0) {
        Some(s) => match find_from(existing, END_MARKER@, 0) {
            Some(e) => existing.take(s) + marked(content) + existing.skip(e + END_MARKER@.len()),
            None => existing.take(s) + marked(content),
        },
        None => if existing.len() == 0 {
            marked(content)
        } else {
            existing + "\n\n"@ + marked(content)
        },
    }
}

/// The text of the instructions file after injecting `content` into `existing`.
pub fn inject_text(existing: &str, content: &str) -> (r: String)
    ensures
        r@ == injected(existing@, content@),
{
    let mut block = String::from_str(START_MARKER);
    block.append("\n");
    block.append(content);
    block.append("\n");
    block.append(END_MARKER);
    let m = chars_of(block.as_str());
    let x = chars_of(existing);
    let start = chars_of(START_MARKER);
    let end = chars_of(END_MARKER);
    match find_exec(&x, &start, 0) {
        Some(s) => {
            proof {
                lemma_find_occurs(x@, start@, 0, s as int);
            }
            let head = slice_chars(&x, 0, s);
            proof {
                assert(head@ =~= x@.take(s as int));
            }
            let with_block = concat_chars(&head, &m);
            match find_exec(&x, &end, 0) {
                Some(e) => {
                    proof {
                        lemma_find_occurs(x@, end@, 0, e as int);
                    }
                    let n = x.len();
                    let tail = slice_chars(&x, e + end.len(), n);
                    proof {
                        assert(tail@ =~= x@.skip(e + end@.len()));
                    }
                    string_of(concat_chars(&with_block, &tail).as_slice())
                },
                None => string_of(with_block.as_slice()),
            }
        },
        None => {
            if x.len() == 0 {
                block
            } else {
                let mut r = existing.to_string();
                r.append("\n\n");
                r.append(block.as_str());
                r
            }
        },
    }
}

} // verus!
