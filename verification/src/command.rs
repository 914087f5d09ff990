//! The protocol decoder: from one request frame to a command's name and
//! its arguments.
//!
//! A frame is text cut into segments by the two-character delimiter
//! carriage return, line feed. The first segment is the header of the
//! frame. After it the segments alternate: the length of an argument, then
//! the argument itself. The decoder keeps the arguments and reads neither
//! the header nor the lengths.
use vstd::prelude::*;
use vstd::std_specs::iter::IteratorSpec;
use vstd::string::{StrSliceExecFns, StringExecFns};
use crate::error::DecodeError;

verus! {

/// True where the delimiter begins at index `i` of `s`.
pub open spec fn delimiter_at(s: Seq<char>, i: int) -> bool {
    0 <= i && i + 1 < s.len() && s[i] == '\r' && s[i + 1] == '\n'
}

/// True where `s` holds the delimiter nowhere.
pub open spec fn delimiter_free(s: Seq<char>) -> bool {
    forall|j: int| !delimiter_at(s, j)
}

/// True where the delimiter begins at index `i` of `s` and nowhere before it.
pub open spec fn is_first_delimiter(s: Seq<char>, i: int) -> bool {
    delimiter_at(s, i) && forall|j: int| 0 <= j < i ==> !delimiter_at(s, j)
}

/// The segments of `s`: what stands before its first delimiter, then the
/// segments of what follows that delimiter. Text without a delimiter is one
/// segment, the empty text too.
pub open spec fn segments(s: Seq<char>) -> Seq<Seq<char>>
    decreases s.len(),
{
    if exists|i: int| is_first_delimiter(s, i) {
        let i = choose|i: int| is_first_delimiter(s, i);
        seq![s.take(i)] + segments(s.skip(i + 2))
    } else {
        seq![s]
    }
}

/// How many arguments `n` segments carry: the header is none, and of the
/// rest every second one is.
pub open spec fn payload_count(n: nat) -> nat {
    if n < 3 {
        0
    } else {
        ((n - 1) / 2) as nat
    }
}

/// The arguments among the segments of a frame: the third segment, the
/// fifth, and so on, in their order.
pub open spec fn payloads(segs: Seq<Seq<char>>) -> Seq<Seq<char>> {
    Seq::new(payload_count(segs.len()), |k: int| segs[2 * k + 2])
}

/// The arguments that a frame decodes to.
pub open spec fn arguments(frame: Seq<char>) -> Seq<Seq<char>> {
    payloads(segments(frame))
}

/// The segments of text whose first delimiter is at `i`.
pub proof fn lemma_segments_split(s: Seq<char>, i: int)
    requires
        is_first_delimiter(s, i),
    ensures
        segments(s) == seq![s.take(i)] + segments(s.skip(i + 2)),
{
    // No two indices are both the first delimiter, so `segments` picks `i`.
    let picked = choose|c: int| is_first_delimiter(s, c);
    assert(picked == i);
}

/// Text without a delimiter is a single segment.
pub proof fn lemma_segments_whole(s: Seq<char>)
    requires
        delimiter_free(s),
    ensures
        segments(s) == seq![s],
{
    assert(forall|i: int| !is_first_delimiter(s, i));
}

/// The delimiter that cuts a frame into segments.
pub open spec fn delimiter() -> Seq<char> {
    seq!['\r', '\n']
}

/// The body of a well-formed frame: for each argument the line that gives
/// its length and the argument itself, each closed by the delimiter.
pub open spec fn bulk_strings(lengths: Seq<Seq<char>>, items: Seq<Seq<char>>) -> Seq<char>
    decreases items.len(),
{
    if items.len() == 0 || lengths.len() == 0 {
        Seq::empty()
    } else {
        lengths[0] + delimiter() + items[0] + delimiter() + bulk_strings(
            lengths.drop_first(),
            items.drop_first(),
        )
    }
}

/// A well-formed frame: the header, the delimiter, and the body.
pub open spec fn frame_of(header: Seq<char>, lengths: Seq<Seq<char>>, items: Seq<Seq<char>>) -> Seq<
    char,
> {
    header + delimiter() + bulk_strings(lengths, items)
}

/// Delimiter-free text that is followed by the delimiter is the first
/// segment, and the segments of what follows come after it.
pub proof fn lemma_segments_after(first: Seq<char>, rest: Seq<char>)
    requires
        delimiter_free(first),
    ensures
        segments(first + delimiter() + rest) == seq![first] + segments(rest),
{
    let s = first + delimiter() + rest;
    let at = first.len() as int;
    assert forall|j: int| 0 <= j < at implies !delimiter_at(s, j) by {
        assert(!delimiter_at(first, j));
    }
    lemma_segments_split(s, at);
    assert(s.take(at) =~= first);
    assert(s.skip(at + 2) =~= rest);
}

/// The segments of a well-formed body: length and argument in turn, and an
/// empty segment at the end.
pub proof fn lemma_bulk_segments(lengths: Seq<Seq<char>>, items: Seq<Seq<char>>)
    requires
        lengths.len() == items.len(),
        forall|i: int| 0 <= i < lengths.len() ==> delimiter_free(#[trigger] lengths[i]),
        forall|i: int| 0 <= i < items.len() ==> delimiter_free(#[trigger] items[i]),
    ensures
        segments(bulk_strings(lengths, items)).len() == 2 * items.len() + 1,
        forall|j: int|
            0 <= j < 2 * items.len() ==> #[trigger] segments(bulk_strings(lengths, items))[j] == (if j
                % 2 == 0 {
                lengths[j / 2]
            } else {
                items[j / 2]
            }),
        segments(bulk_strings(lengths, items)).last() == Seq::<char>::empty(),
    decreases items.len(),
{
    let body = bulk_strings(lengths, items);
    if items.len() == 0 {
        lemma_segments_whole(body);
    } else {
        let later = bulk_strings(lengths.drop_first(), items.drop_first());
        let after_length = items[0] + delimiter() + later;
        lemma_bulk_segments(lengths.drop_first(), items.drop_first());
        assert(body =~= lengths[0] + delimiter() + after_length);
        lemma_segments_after(lengths[0], after_length);
        lemma_segments_after(items[0], later);
        let segs = segments(body);
        assert forall|j: int| 0 <= j < 2 * items.len() implies #[trigger] segs[j] == (if j % 2
            == 0 {
            lengths[j / 2]
        } else {
            items[j / 2]
        }) by {
            if j >= 2 {
                assert(segs[j] == segments(later)[j - 2]);
            }
        }
    }
}

/// A well-formed frame decodes to its arguments: as many as the frame
/// carries, in their order, each as it stands in the frame. The header, the
/// length lines and the arguments must not hold the delimiter; what the
/// length lines say is not read.
pub proof fn law_frame_decodes_to_items(
    header: Seq<char>,
    lengths: Seq<Seq<char>>,
    items: Seq<Seq<char>>,
)
    requires
        lengths.len() == items.len(),
        delimiter_free(header),
        forall|i: int| 0 <= i < lengths.len() ==> delimiter_free(#[trigger] lengths[i]),
        forall|i: int| 0 <= i < items.len() ==> delimiter_free(#[trigger] items[i]),
    ensures
        arguments(frame_of(header, lengths, items)) == items,
{
    let body = bulk_strings(lengths, items);
    lemma_bulk_segments(lengths, items);
    lemma_segments_after(header, body);
    let segs = segments(frame_of(header, lengths, items));
    assert forall|k: int| 0 <= k < items.len() implies payloads(segs)[k] == items[k] by {
        assert(segs[2 * k + 2] == segments(body)[2 * k + 1]);
    }
    assert(payloads(segs) =~= items);
}

/// The empty frame decodes to no argument.
pub proof fn law_empty_frame_has_no_arguments()
    ensures
        arguments(Seq::<char>::empty()) == Seq::<Seq<char>>::empty(),
        command_name(Seq::<char>::empty()) == Err::<Seq<char>, DecodeError>(
            DecodeError::MalformedFrame,
        ),
{
    let nothing = Seq::<char>::empty();
    lemma_segments_whole(nothing);
}

/// A well-formed frame names a command exactly if it carries an argument:
/// the name is then its first argument in lower case.
pub proof fn law_name_of_frame(header: Seq<char>, lengths: Seq<Seq<char>>, items: Seq<Seq<char>>)
    requires
        lengths.len() == items.len(),
        delimiter_free(header),
        forall|i: int| 0 <= i < lengths.len() ==> delimiter_free(#[trigger] lengths[i]),
        forall|i: int| 0 <= i < items.len() ==> delimiter_free(#[trigger] items[i]),
    ensures
        items.len() == 0 ==> command_name(frame_of(header, lengths, items)) == Err::<
            Seq<char>,
            DecodeError,
        >(DecodeError::MalformedFrame),
        items.len() > 0 ==> command_name(frame_of(header, lengths, items)) == Ok::<
            Seq<char>,
            DecodeError,
        >(lowercase(items[0])),
{
    law_frame_decodes_to_items(header, lengths, items);
}

/// The characters of a string slice, in a vector.
fn chars_of(text: &str) -> (chars: Vec<char>)
    ensures
        chars@ == text@,
{
    broadcast use vstd::string::group_string_axioms;

    let mut chars: Vec<char> = Vec::new();
    let mut rest = text.chars();
    loop
        invariant
            rest.obeys_prophetic_iter_laws(),
            rest.decrease() is Some,
            chars@ + rest.remaining() == text@,
        ensures
            chars@ == text@,
        decreases rest.decrease()->0,
    {
        match rest.next() {
            Some(c) => {
                chars.push(c);
            },
            None => {
                break ;
            },
        }
    }
    chars
}

/// The lower-case form of a text: what `str::to_lowercase` of the standard
/// library returns for it.
pub uninterp spec fn lowercase(text: Seq<char>) -> Seq<char>;

/// Calls `str::to_lowercase`. The contract only names the result: the
/// lower-case form follows Unicode's tables and is a function of the text
/// alone.
#[verifier::external_body]
fn to_lowercase(text: &str) -> (lower: String)
    ensures
        lower@ == lowercase(text@),
{
    text.to_lowercase()
}

/// The name of the command that a frame carries: its first argument in
/// lower case. A frame without arguments carries none.
pub open spec fn command_name(frame: Seq<char>) -> Result<Seq<char>, DecodeError> {
    if arguments(frame).len() == 0 {
        Err(DecodeError::MalformedFrame)
    } else {
        Ok(lowercase(arguments(frame)[0]))
    }
}

/// A decoded name as plain text.
pub open spec fn name_text(name: Result<String, DecodeError>) -> Result<Seq<char>, DecodeError> {
    match name {
        Ok(text) => Ok(text@),
        Err(e) => Err(e),
    }
}

/// True where the segment with index `index` is an argument.
fn is_payload(index: usize) -> (kept: bool)
    ensures
        kept == (payload_count((index + 1) as nat) == payload_count(index as nat) + 1),
        !kept ==> payload_count((index + 1) as nat) == payload_count(index as nat),
        kept ==> index == 2 * payload_count(index as nat) + 2,
{
    index >= 2 && index % 2 == 0
}

/// Encapsulate a redis command
#[derive(Debug, Copy, Clone)]
pub struct RedisCommand<'a> {
    cmd: &'a str,
}

impl<'a> View for RedisCommand<'a> {
    type V = Seq<char>;

    closed spec fn view(&self) -> Seq<char> {
        self.cmd@
    }
}

impl<'a> RedisCommand<'a> {
    /// Initialize a new command from a resp string
    pub fn new(cmd: &'a str) -> (command: Self)
        ensures
            command@ == cmd@,
    {
        Self { cmd }
    }

    /// Parses the command and returns its arguments, in the order of the
    /// frame.
    pub fn params(&self) -> (args: Vec<String>)
        ensures
            args.deep_view() == arguments(self@),
    {
        let chars = chars_of(self.cmd);
        let n = chars.len();
        let mut args: Vec<String> = Vec::new();
        let ghost mut done: Seq<Seq<char>> = Seq::empty();
        let mut count: usize = 0;
        let mut start: usize = 0;
        let mut i: usize = 0;
        assert(self@.skip(0) =~= self@);
        while i < n
            invariant
                chars@ == self@,
                n == chars.len(),
                start <= i <= n,
                count == done.len(),
                count <= start,
                segments(self@) == done + segments(self@.skip(start as int)),
                forall|j: int| 0 <= j < i - start ==> !delimiter_at(self@.skip(start as int), j),
                args.len() == payload_count(done.len()),
                forall|k: int| 0 <= k < args.len() ==> (#[trigger] args[k])@ == done[2 * k + 2],
            decreases n - i,
        {
            if i + 1 < n && chars[i] == '\r' && chars[i + 1] == '\n' {
                let ghost tail = self@.skip(start as int);
                let ghost piece = tail.take(i - start);
                proof {
                    lemma_segments_split(tail, i - start);
                    assert(tail.skip(i - start + 2) =~= self@.skip(i + 2));
                    assert(done + (seq![piece] + segments(self@.skip(i + 2))) =~= done.push(piece)
                        + segments(self@.skip(i + 2)));
                }
                if is_payload(count) {
                    args.push(String::from_str(self.cmd.substring_char(start, i)));
                }
                proof {
                    done = done.push(piece);
                }
                count = count + 1;
                start = i + 2;
                i = i + 2;
            } else {
                i = i + 1;
            }
        }
        let ghost tail = self@.skip(start as int);
        proof {
            lemma_segments_whole(tail);
            assert(done + seq![tail] =~= done.push(tail));
        }
        if is_payload(count) {
            args.push(String::from_str(self.cmd.substring_char(start, n)));
        }
        proof {
            done = done.push(tail);
            assert(args.deep_view() =~= payloads(done));
        }
        args
    }

    /// Extracts the name of the command and returns it: the first argument
    /// in lower case. A frame without arguments is malformed.
    pub fn name(&self) -> (name: Result<String, DecodeError>)
        ensures
            name_text(name) == command_name(self@),
    {
        let args = self.params();
        if args.len() == 0 {
            Err(DecodeError::MalformedFrame)
        } else {
            Ok(to_lowercase(args[0].as_str()))
        }
    }
}

} // verus!
