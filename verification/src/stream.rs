//! Decoding of a streamed answer: newline-delimited JSON whose lines may be
//! cut anywhere by the chunks that carry them.

use crate::json::{as_flag, as_text, json_of_text, json_shape, member, parse_text, Json};
use crate::text::{decode_lossy, is_blank, texts, trim, utf8_lossy};
use vstd::prelude::*;
use vstd::string::*;

verus! {

/// One decoded line of a streamed answer.
#[derive(Debug, PartialEq, Eq)]
pub struct Fragment {
    /// The piece of text the line carries, if it carries one.
    pub token: Option<String>,
    /// Whether the line marks the end of the answer.
    pub done: bool,
}

/// A `Fragment` as a mathematical value.
pub struct FragmentModel {
    pub token: Option<Seq<char>>,
    pub done: bool,
}

impl View for Fragment {
    type V = FragmentModel;

    open spec fn view(&self) -> FragmentModel {
        FragmentModel {
            token: match self.token {
                Some(t) => Some(t@),
                None => None,
            },
            done: self.done,
        }
    }
}

/// The fragment that a JSON document stands for: its `response` member
/// where that is a string, and its `done` member where that is `true`.
pub open spec fn fragment_of_json(doc: Json) -> FragmentModel {
    FragmentModel {
        token: doc.member("response"@).as_text(),
        done: doc.member("done"@).as_flag() == Some(true),
    }
}

/// The fragment on one line of the stream; `None` for a blank line and for
/// a line that is no JSON document.
pub open spec fn fragment_of_line(line: Seq<u8>) -> Option<FragmentModel> {
    let text = utf8_lossy(line);
    if is_blank(text) {
        None
    } else {
        match json_of_text(text) {
            Some(doc) => Some(fragment_of_json(doc)),
            None => None,
        }
    }
}

/// Reads a fragment out of a parsed line.
pub fn read_fragment(doc: &serde_json::Value) -> (fragment: Fragment)
    ensures
        fragment@ == fragment_of_json(json_shape(*doc)),
{
    let token = match as_text(member(doc, "response")) {
        Some(t) => Some(String::from_str(t)),
        None => None,
    };
    let done = match as_flag(member(doc, "done")) {
        Some(flag) => flag,
        None => false,
    };
    Fragment { token, done }
}

/// Decodes one line of the stream.
pub fn decode_line(line: &[u8]) -> (fragment: Option<Fragment>)
    ensures
        fragment is Some <==> fragment_of_line(line@) is Some,
        fragment is Some ==> fragment_of_line(line@) == Some(fragment->0@),
{
    let text = decode_lossy(line);
    if trim(text.as_str()).unicode_len() == 0 {
        return None;
    }
    match parse_text(text.as_str()) {
        Ok(doc) => Some(read_fragment(&doc)),
        Err(_) => None,
    }
}

/// The byte that ends a line of the stream.
pub const LINE_END: u8 = 10;

/// What a stream decoder holds between two chunks.
pub struct StreamModel {
    /// The bytes of the line that has not ended yet.
    pub pending: Seq<u8>,
    /// The text gathered so far.
    pub text: Seq<char>,
    /// Whether a line has marked the end of the answer.
    pub done: bool,
}

impl StreamModel {
    /// The decoder before the first byte.
    pub open spec fn start() -> StreamModel {
        StreamModel { pending: Seq::empty(), text: Seq::empty(), done: false }
    }

    /// The decoder after a fragment: its token is appended, its end mark
    /// is taken over.
    pub open spec fn accept(self, fragment: FragmentModel) -> StreamModel {
        StreamModel {
            pending: self.pending,
            text: match fragment.token {
                Some(token) => self.text + token,
                None => self.text,
            },
            done: fragment.done,
        }
    }

    /// The decoder after the pending line has ended.
    pub open spec fn end_line(self) -> StreamModel {
        let cleared = StreamModel { pending: Seq::empty(), text: self.text, done: self.done };
        match fragment_of_line(self.pending) {
            Some(fragment) => cleared.accept(fragment),
            None => cleared,
        }
    }

    /// The tokens that the end of the pending line releases: one or none.
    pub open spec fn end_line_tokens(self) -> Seq<Seq<char>> {
        match fragment_of_line(self.pending) {
            Some(fragment) => match fragment.token {
                Some(token) => seq![token],
                None => Seq::empty(),
            },
            None => Seq::empty(),
        }
    }

    /// The decoder after one more byte. Once the answer has ended, bytes
    /// are ignored.
    pub open spec fn step(self, byte: u8) -> StreamModel {
        if self.done {
            self
        } else if byte == LINE_END {
            self.end_line()
        } else {
            StreamModel { pending: self.pending.push(byte), text: self.text, done: self.done }
        }
    }

    /// The tokens that one more byte releases.
    pub open spec fn step_tokens(self, byte: u8) -> Seq<Seq<char>> {
        if !self.done && byte == LINE_END {
            self.end_line_tokens()
        } else {
            Seq::empty()
        }
    }

    /// The decoder after a run of bytes.
    pub open spec fn feed(self, bytes: Seq<u8>) -> StreamModel
        decreases bytes.len(),
    {
        if bytes.len() == 0 {
            self
        } else {
            self.feed(bytes.drop_last()).step(bytes.last())
        }
    }

    /// The tokens that a run of bytes releases, in the order of the lines
    /// that carry them.
    pub open spec fn tokens(self, bytes: Seq<u8>) -> Seq<Seq<char>>
        decreases bytes.len(),
    {
        if bytes.len() == 0 {
            Seq::empty()
        } else {
            self.tokens(bytes.drop_last()) + self.feed(bytes.drop_last()).step_tokens(bytes.last())
        }
    }

    /// The decoder after the stream has run out: a last line without a
    /// line end counts as ended, and nothing more is read.
    pub open spec fn finish(self) -> StreamModel {
        let last = self.step(LINE_END);
        StreamModel { pending: last.pending, text: last.text, done: true }
    }
}

/// Decodes a streamed answer: newline-delimited JSON that arrives in
/// chunks cut at arbitrary bytes.
pub struct StreamParser {
    pending: Vec<u8>,
    text: String,
    done: bool,
}

impl View for StreamParser {
    type V = StreamModel;

    closed spec fn view(&self) -> StreamModel {
        StreamModel { pending: self.pending@, text: self.text@, done: self.done }
    }
}

impl StreamParser {
    /// A decoder that has seen nothing.
    pub fn new() -> (parser: StreamParser)
        ensures
            parser@ == StreamModel::start(),
    {
        StreamParser { pending: Vec::new(), text: String::new(), done: false }
    }

    /// Whether a line has marked the end of the answer, or the stream has
    /// been finished.
    pub fn is_done(&self) -> (done: bool)
        ensures
            done == self@.done,
    {
        self.done
    }

    /// The text gathered so far.
    pub fn text(&self) -> (text: &String)
        ensures
            text@ == self@.text,
    {
        &self.text
    }

    /// Takes one fragment: appends its token, takes over its end mark, and
    /// hands the token back for delivery.
    pub fn accept(&mut self, fragment: Fragment) -> (token: Option<String>)
        ensures
            final(self)@ == old(self)@.accept(fragment@),
            token == fragment.token,
    {
        if let Some(token) = &fragment.token {
            self.text.append(token.as_str());
        }
        self.done = fragment.done;
        fragment.token
    }

    /// Takes the next chunk of the stream and returns the tokens of the
    /// lines that ended in it, in order.
    pub fn feed(&mut self, chunk: &[u8]) -> (tokens: Vec<String>)
        ensures
            final(self)@ == old(self)@.feed(chunk@),
            texts(tokens@) == old(self)@.tokens(chunk@),
    {
        let mut tokens: Vec<String> = Vec::new();
        let mut i: usize = 0;
        while i < chunk.len()
            invariant
                i <= chunk.len(),
                self@ == old(self)@.feed(chunk@.take(i as int)),
                texts(tokens@) == old(self)@.tokens(chunk@.take(i as int)),
            decreases chunk.len() - i,
        {
            let byte = chunk[i];
            assert(chunk@.take(i + 1).drop_last() =~= chunk@.take(i as int));
            if !self.done {
                if byte == LINE_END {
                    let line = decode_line(self.pending.as_slice());
                    self.pending.clear();
                    if let Some(fragment) = line {
                        if let Some(token) = self.accept(fragment) {
                            tokens.push(token);
                        }
                    }
                } else {
                    self.pending.push(byte);
                }
            }
            i = i + 1;
        }
        assert(chunk@.take(i as int) =~= chunk@);
        tokens
    }

    /// Ends the stream: a last line that lacks its line end is decoded as
    /// if it had one, its token is returned, and the decoder is done.
    pub fn finish(&mut self) -> (tokens: Vec<String>)
        ensures
            final(self)@ == old(self)@.finish(),
            texts(tokens@) == old(self)@.step_tokens(LINE_END),
    {
        let mut tokens: Vec<String> = Vec::new();
        if !self.done {
            let line = decode_line(self.pending.as_slice());
            self.pending.clear();
            if let Some(fragment) = line {
                if let Some(token) = self.accept(fragment) {
                    tokens.push(token);
                }
            }
        }
        self.done = true;
        tokens
    }
}

/// Feeding two chunks in turn leaves the decoder where feeding both as one
/// chunk leaves it, and releases the same tokens in the same order.
pub proof fn lemma_feed_concat(model: StreamModel, first: Seq<u8>, second: Seq<u8>)
    ensures
        model.feed(first + second) == model.feed(first).feed(second),
        model.tokens(first + second) == model.tokens(first) + model.feed(first).tokens(second),
    decreases second.len(),
{
    if second.len() > 0 {
        assert((first + second).drop_last() =~= first + second.drop_last());
        lemma_feed_concat(model, first, second.drop_last());
    }
}

/// The decoder after a run of chunks, each fed in turn.
pub open spec fn feed_chunks(model: StreamModel, chunks: Seq<Seq<u8>>) -> StreamModel
    decreases chunks.len(),
{
    if chunks.len() == 0 {
        model
    } else {
        feed_chunks(model, chunks.drop_last()).feed(chunks.last())
    }
}

/// The tokens that a run of chunks releases, each fed in turn.
pub open spec fn tokens_of_chunks(model: StreamModel, chunks: Seq<Seq<u8>>) -> Seq<Seq<char>>
    decreases chunks.len(),
{
    if chunks.len() == 0 {
        Seq::empty()
    } else {
        tokens_of_chunks(model, chunks.drop_last()) + feed_chunks(
            model,
            chunks.drop_last(),
        ).tokens(chunks.last())
    }
}

/// The bytes of a run of chunks, end to end.
pub open spec fn joined(chunks: Seq<Seq<u8>>) -> Seq<u8>
    decreases chunks.len(),
{
    if chunks.len() == 0 {
        Seq::empty()
    } else {
        joined(chunks.drop_last()) + chunks.last()
    }
}

/// However the bytes of an answer are cut into chunks, the decoder ends in
/// the same state, with the same text, and has released the same tokens in
/// the same order: all three depend on the joined bytes alone.
pub proof fn lemma_chunking_is_immaterial(model: StreamModel, chunks: Seq<Seq<u8>>)
    ensures
        feed_chunks(model, chunks) == model.feed(joined(chunks)),
        tokens_of_chunks(model, chunks) == model.tokens(joined(chunks)),
    decreases chunks.len(),
{
    if chunks.len() > 0 {
        lemma_chunking_is_immaterial(model, chunks.drop_last());
        lemma_feed_concat(model, joined(chunks.drop_last()), chunks.last());
    }
}

/// Two ways of cutting the same bytes give the same text and the same
/// tokens.
pub proof fn lemma_same_bytes_same_answer(
    model: StreamModel,
    one: Seq<Seq<u8>>,
    other: Seq<Seq<u8>>,
)
    requires
        joined(one) == joined(other),
    ensures
        feed_chunks(model, one) == feed_chunks(model, other),
        tokens_of_chunks(model, one) == tokens_of_chunks(model, other),
{
    lemma_chunking_is_immaterial(model, one);
    lemma_chunking_is_immaterial(model, other);
}

/// The characters of a run of tokens, end to end.
pub open spec fn concat(tokens: Seq<Seq<char>>) -> Seq<char>
    decreases tokens.len(),
{
    if tokens.len() == 0 {
        Seq::empty()
    } else {
        concat(tokens.drop_last()) + tokens.last()
    }
}

/// The characters of two runs of tokens, end to end, are those of the
/// first run followed by those of the second.
pub proof fn lemma_concat_add(left: Seq<Seq<char>>, right: Seq<Seq<char>>)
    ensures
        concat(left + right) == concat(left) + concat(right),
    decreases right.len(),
{
    if right.len() > 0 {
        assert((left + right).drop_last() =~= left + right.drop_last());
        lemma_concat_add(left, right.drop_last());
    }
}

/// The text gathered over a run of bytes is the text before it followed by
/// the released tokens, end to end: nothing reaches the text that was not
/// released as a token, and no token is a piece of a line.
pub proof fn lemma_text_is_tokens(model: StreamModel, bytes: Seq<u8>)
    ensures
        model.feed(bytes).text == model.text + concat(model.tokens(bytes)),
    decreases bytes.len(),
{
    if bytes.len() > 0 {
        let before = model.feed(bytes.drop_last());
        lemma_text_is_tokens(model, bytes.drop_last());
        let released = before.step_tokens(bytes.last());
        lemma_concat_add(model.tokens(bytes.drop_last()), released);
        assert(before.step(bytes.last()).text == before.text + concat(released)) by {
            if released.len() > 0 {
                assert(concat(released.drop_last()) =~= Seq::<char>::empty());
            }
        }
    }
}

/// Once a line has marked the end, nothing that follows changes the
/// decoder or releases a token.
pub proof fn lemma_done_ignores(model: StreamModel, bytes: Seq<u8>)
    requires
        model.done,
    ensures
        model.feed(bytes) == model,
        model.tokens(bytes) == Seq::<Seq<char>>::empty(),
    decreases bytes.len(),
{
    if bytes.len() > 0 {
        lemma_done_ignores(model, bytes.drop_last());
    }
}

/// The lines that have ended in `bytes`, and what follows the last line
/// end.
pub open spec fn ended_lines(bytes: Seq<u8>) -> (Seq<Seq<u8>>, Seq<u8>)
    decreases bytes.len(),
{
    if bytes.len() == 0 {
        (Seq::empty(), Seq::empty())
    } else {
        let (lines, rest) = ended_lines(bytes.drop_last());
        if bytes.last() == LINE_END {
            (lines.push(rest), Seq::empty())
        } else {
            (lines, rest.push(bytes.last()))
        }
    }
}

impl StreamModel {
    /// The decoder that holds `line` as its pending line.
    pub open spec fn holding(self, line: Seq<u8>) -> StreamModel {
        StreamModel { pending: line, text: self.text, done: self.done }
    }

    /// The decoder after whole lines, each taken in turn until one marks
    /// the end.
    pub open spec fn take_lines(self, lines: Seq<Seq<u8>>) -> StreamModel
        decreases lines.len(),
    {
        if lines.len() == 0 {
            self
        } else {
            let before = self.take_lines(lines.drop_last());
            if before.done {
                before
            } else {
                before.holding(lines.last()).end_line()
            }
        }
    }

    /// The tokens of whole lines, each taken in turn until one marks the
    /// end.
    pub open spec fn tokens_of_lines(self, lines: Seq<Seq<u8>>) -> Seq<Seq<char>>
        decreases lines.len(),
    {
        if lines.len() == 0 {
            Seq::empty()
        } else {
            let before = self.take_lines(lines.drop_last());
            self.tokens_of_lines(lines.drop_last()) + if before.done {
                Seq::empty()
            } else {
                before.holding(lines.last()).end_line_tokens()
            }
        }
    }
}

/// Feeding bytes is taking the lines that have ended in them, one by one:
/// the text and the tokens are those of the whole lines up to the first
/// that marks the end, and what follows the last line end waits for its
/// own.
pub proof fn lemma_feed_is_line_by_line(model: StreamModel, bytes: Seq<u8>)
    requires
        model.pending.len() == 0,
    ensures
        model.feed(bytes) == ({
            let after = model.take_lines(ended_lines(bytes).0);
            if after.done {
                after
            } else {
                after.holding(ended_lines(bytes).1)
            }
        }),
        model.tokens(bytes) == model.tokens_of_lines(ended_lines(bytes).0),
        model.take_lines(ended_lines(bytes).0).pending.len() == 0,
    decreases bytes.len(),
{
    if bytes.len() == 0 {
        assert(model.holding(Seq::empty()) =~= model) by {
            assert(model.pending =~= Seq::<u8>::empty());
        }
    } else {
        let shorter = bytes.drop_last();
        lemma_feed_is_line_by_line(model, shorter);
        let (lines, rest) = ended_lines(shorter);
        if bytes.last() == LINE_END {
            assert(lines.push(rest).drop_last() =~= lines);
        }
    }
}

} // verus!
