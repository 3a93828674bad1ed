//! Reading what a language model says while it says it.

use crate::outside;
use crate::text;
use crate::text::Class;
use vstd::prelude::*;
use vstd::string::StringExecFns;

verus! {

/// The first text that is there.
pub open spec fn first_of(a: Option<Seq<char>>, b: Option<Seq<char>>) -> Option<Seq<char>> {
    if a is Some {
        a
    } else {
        b
    }
}

/// The first text that is there.
pub fn choose_text(a: Option<String>, b: Option<String>) -> (r: Option<String>)
    ensures
        outside::opt_text(r) == first_of(outside::opt_text(a), outside::opt_text(b)),
{
    match a {
        Some(s) => Some(s),
        None => b,
    }
}

/// Some texts, one behind the other.
pub open spec fn joined(parts: Seq<Seq<char>>) -> Seq<char>
    decreases parts.len(),
{
    if parts.len() == 0 {
        seq![]
    } else {
        joined(parts.drop_last()) + parts.last()
    }
}

/// Two runs of texts, joined, are joined one behind the other.
pub proof fn lemma_joined_add(a: Seq<Seq<char>>, b: Seq<Seq<char>>)
    ensures
        joined(a + b) == joined(a) + joined(b),
    decreases b.len(),
{
    if b.len() == 0 {
        assert(a + b =~= a);
        assert(joined(a) + joined(b) =~= joined(a));
    } else {
        assert((a + b).drop_last() =~= a + b.drop_last());
        lemma_joined_add(a, b.drop_last());
        assert(joined(a + b) =~= joined(a) + joined(b));
    }
}

proof fn lemma_joined_one(d: Seq<char>)
    ensures
        joined(seq![d]) == d,
{
    assert(seq![d].drop_last() =~= seq![]);
    assert(joined(seq![]) =~= Seq::<char>::empty());
    assert(Seq::<char>::empty() + d =~= d);
}

/// What a run over some text finds: the pieces of the answer, in order; whether it came upon the
/// end; and the text that is left for later.
pub struct Found {
    pub pieces: Seq<Seq<char>>,
    pub ended: bool,
    pub rest: Seq<char>,
}

impl Found {
    /// The same behind one more piece.
    pub open spec fn behind(self, piece: Option<Seq<char>>) -> Found {
        match piece {
            Some(p) => Found { pieces: seq![p] + self.pieces, ..self },
            None => self,
        }
    }

    /// The same behind more pieces.
    pub open spec fn after(self, pieces: Seq<Seq<char>>) -> Found {
        Found { pieces: pieces + self.pieces, ..self }
    }
}

/// The texts of some pieces.
pub open spec fn pieces_view(v: Seq<String>) -> Seq<Seq<char>> {
    crate::messages::strings(v)
}

/// A stream in progress.
pub struct StreamView {
    /// What the model has said so far.
    pub answer: Seq<char>,
    /// What has come but is not complete.
    pub waiting: Seq<char>,
    /// Nothing more is wanted.
    pub ended: bool,
}

impl StreamView {
    /// The stream after a run over what was waiting and what came.
    pub open spec fn advanced(self, found: Found) -> StreamView {
        StreamView {
            answer: self.answer + joined(found.pieces),
            waiting: found.rest,
            ended: self.ended || found.ended,
        }
    }

    /// The stream of events after more text has come.
    pub open spec fn with_events(self, more: Seq<char>) -> StreamView {
        self.advanced(events_found(self.waiting + more))
    }

    /// The stream of lines after more text has come. It does not end by itself.
    pub open spec fn with_rows(self, more: Seq<char>) -> StreamView {
        self.advanced(Found { ended: false, ..rows_found(self.waiting + more) })
    }
}

proof fn lemma_first_in_front(a: Seq<char>, b: Seq<char>, p: Seq<char>)
    requires
        text::first_index(a, p) is Some,
    ensures
        text::first_index(a + b, p) == text::first_index(a, p),
{
    text::lemma_first_index_is(a, p);
    let i = text::first_index(a, p)->0;
    let s = a + b;
    assert(s.subrange(i, i + p.len()) =~= a.subrange(i, i + p.len()));
    assert forall|j: int| 0 <= j < i implies !text::occurs_at(s, p, j) by {
        assert(s.subrange(j, j + p.len()) =~= a.subrange(j, j + p.len()));
        assert(!text::occurs_at(a, p, j));
    }
    assert(text::first_occurs_at(s, p, i));
    text::lemma_first_index(s, p, i);
}

// ----- Events divided by blank lines -----

/// What a line of an event carries.
pub enum Payload {
    Nothing,
    /// The mark of the end.
    Done,
    /// This text.
    Data(Vec<char>),
}

pub enum PayloadView {
    Nothing,
    Done,
    Data(Seq<char>),
}

impl View for Payload {
    type V = PayloadView;

    open spec fn view(&self) -> PayloadView {
        match *self {
            Payload::Nothing => PayloadView::Nothing,
            Payload::Done => PayloadView::Done,
            Payload::Data(d) => PayloadView::Data(d@),
        }
    }
}

/// What a line carries: what stands behind `data: `, if that is how it begins but for blanks.
pub open spec fn line_payload(line: Seq<char>) -> PayloadView {
    let l = text::trim_front(line, Class::Space);
    if !text::has_prefix(l, "data: "@) {
        PayloadView::Nothing
    } else if text::trimmed(l.skip(6), Class::Space) == "[DONE]"@ {
        PayloadView::Done
    } else {
        PayloadView::Data(l.skip(6))
    }
}

/// What a line carries.
pub fn payload_of(line: &[char]) -> (r: Payload)
    ensures
        r@ == line_payload(line@),
{
    let l = text::strip_front(line, Class::Space);
    let prefix = text::chars_of("data: ");
    proof {
        reveal_strlit("data: ");
    }
    if !text::starts_with(l, &prefix) {
        return Payload::Nothing;
    }
    let n: usize = l.len();
    let rest = vstd::slice::slice_subrange(l, 6, n);
    assert(rest@ == l@.skip(6));
    let end = text::chars_of("[DONE]");
    if text::same(text::strip(rest, Class::Space), &end) {
        return Payload::Done;
    }
    Payload::Data(text::copy_of(rest))
}

/// The piece of the answer in the data of an event: the newest words, or else the whole message.
pub open spec fn data_piece(data: Seq<char>) -> Option<Seq<char>> {
    if outside::is_json(data) {
        first_of(
            outside::json_string(data, "/choices/0/delta/content"@),
            outside::json_string(data, "/choices/0/message/content"@),
        )
    } else {
        None
    }
}

fn piece_of_data(data: &[char]) -> (r: Option<String>)
    ensures
        outside::opt_text(r) == data_piece(data@),
{
    let json = outside::string_of(data);
    match (
        outside::json_string_at(json.as_str(), "/choices/0/delta/content"),
        outside::json_string_at(json.as_str(), "/choices/0/message/content"),
    ) {
        (Ok(delta), Ok(message)) => choose_text(delta, message),
        _ => None,
    }
}

/// What the lines of an event hold, up to the mark of the end.
pub open spec fn lines_found(lines: Seq<Seq<char>>, rest: Seq<char>) -> Found
    decreases lines.len(),
{
    if lines.len() == 0 {
        Found { pieces: seq![], ended: false, rest }
    } else {
        match line_payload(lines[0]) {
            PayloadView::Nothing => lines_found(lines.drop_first(), rest),
            PayloadView::Done => Found { pieces: seq![], ended: true, rest },
            PayloadView::Data(d) => lines_found(lines.drop_first(), rest).behind(data_piece(d)),
        }
    }
}

/// What the complete events of a text hold, up to the mark of the end.
pub open spec fn events_found(buf: Seq<char>) -> Found
    decreases buf.len(),
{
    proof {
        text::lemma_first_index_is(buf, "\n\n"@);
        reveal_strlit("\n\n");
    }
    match text::first_index(buf, "\n\n"@) {
        Some(i) => {
            let rest = buf.skip(i + 2);
            let first = lines_found(text::lines_of(buf.take(i)), rest);
            if first.ended {
                first
            } else {
                events_found(rest).after(first.pieces)
            }
        },
        None => Found { pieces: seq![], ended: false, rest: buf },
    }
}

/// An answer that comes as server-sent events.
pub struct OpenRouterStream {
    answer: String,
    waiting: Vec<char>,
    ended: bool,
}

impl OpenRouterStream {
    pub closed spec fn view(&self) -> StreamView {
        StreamView { answer: self.answer@, waiting: self.waiting@, ended: self.ended }
    }

    /// A stream from which nothing has come.
    pub fn new() -> (r: Self)
        ensures
            r@ == (StreamView { answer: ""@, waiting: seq![], ended: false }),
    {
        OpenRouterStream { answer: "".to_string(), waiting: Vec::new(), ended: false }
    }

    /// Whether the mark of the end has come.
    pub fn ended(&self) -> (b: bool)
        ensures
            b == self@.ended,
    {
        self.ended
    }

    /// What the model has said.
    pub fn answer(self) -> (r: String)
        ensures
            r@ == self@.answer,
    {
        self.answer
    }

    fn take_lines(&mut self, lines: &Vec<Vec<char>>, pieces: &mut Vec<String>)
        requires
            !old(self)@.ended,
        ensures
            ({
                let found = lines_found(text::texts(lines@), old(self)@.waiting);
                &&& final(self)@ == old(self)@.advanced(found)
                &&& pieces_view(final(pieces)@) == pieces_view(old(pieces)@) + found.pieces
            }),
    {
        let ghost before = self@;
        let ghost had = pieces_view(pieces@);
        let ghost all = text::texts(lines@);
        let ghost whole = lines_found(all, before.waiting);
        let mut i: usize = 0;
        let ghost mut done: Seq<Seq<char>> = seq![];
        proof {
            assert(all.skip(0) =~= all);
            assert(before.answer + joined(done) =~= before.answer);
            assert(had + done =~= had);
            assert(whole.after(done).pieces =~= whole.pieces);
        }
        while i < lines.len()
            invariant_except_break
                i <= lines@.len(),
                all == text::texts(lines@),
                !self@.ended,
                self@.waiting == before.waiting,
                self@.answer == before.answer + joined(done),
                pieces_view(pieces@) == had + done,
                whole == lines_found(all.skip(i as int), before.waiting).after(done),
                !before.ended,
            ensures
                self@ == before.advanced(whole),
                pieces_view(pieces@) == had + whole.pieces,
            decreases lines@.len() - i,
        {
            let ghost now = all.skip(i as int);
            assert(now[0] == lines@[i as int]@);
            assert(now.drop_first() =~= all.skip(i + 1));
            let ghost later = lines_found(all.skip(i + 1), before.waiting);
            match payload_of(&lines[i]) {
                Payload::Nothing => {},
                Payload::Done => {
                    self.ended = true;
                    assert(whole.pieces =~= done);
                    break;
                },
                Payload::Data(data) => {
                    if let Some(piece) = piece_of_data(&data) {
                        let ghost p = piece@;
                        let ghost kept = pieces@;
                        self.answer.append(piece.as_str());
                        pieces.push(piece);
                        proof {
                            lemma_joined_add(done, seq![p]);
                            lemma_joined_one(p);
                            assert(pieces_view(pieces@) =~= pieces_view(kept).push(p));
                            assert(had + done.push(p) =~= (had + done).push(p));
                            assert(done + seq![p] =~= done.push(p));
                            assert(self@.answer =~= before.answer + joined(done.push(p)));
                            assert(later.behind(Some(p)).after(done).pieces =~= later.after(
                                done.push(p),
                            ).pieces);
                            done = done.push(p);
                        }
                    }
                },
            }
            i = i + 1;
        }
    }

    /// Takes more text. The pieces of the answer in it are given back.
    pub fn take_text(&mut self, more: &str) -> (r: Vec<String>)
        requires
            !old(self)@.ended,
        ensures
            final(self)@ == old(self)@.with_events(more@),
            pieces_view(r@) == events_found(old(self)@.waiting + more@).pieces,
    {
        let mut pieces: Vec<String> = Vec::new();
        let ghost before = self@;
        let ghost whole = events_found(before.waiting + more@);
        let new = text::chars_of(more);
        text::append_to(&mut self.waiting, &new);
        let blank = text::chars_of("\n\n");
        let ghost mut done: Seq<Seq<char>> = seq![];
        proof {
            reveal_strlit("\n\n");
            assert(pieces_view(pieces@) =~= done);
            assert(before.answer + joined(done) =~= before.answer);
            assert(whole.after(done).pieces =~= whole.pieces);
        }
        loop
            invariant_except_break
                blank@ == "\n\n"@,
                "\n\n"@.len() == 2,
                !before.ended,
                !self@.ended,
                self@.answer == before.answer + joined(done),
                pieces_view(pieces@) == done,
                whole == events_found(self@.waiting).after(done),
            ensures
                self@ == before.advanced(whole),
                pieces_view(pieces@) == whole.pieces,
            decreases self@.waiting.len(),
        {
            let ghost buf = self@.waiting;
            match text::find(&self.waiting, &blank) {
                None => {
                    assert(whole.pieces =~= done);
                    break;
                },
                Some(i) => {
                    proof {
                        text::lemma_first_index_is(buf, "\n\n"@);
                    }
                    let n: usize = self.waiting.len();
                    let event = text::lines(vstd::slice::slice_subrange(&self.waiting, 0, i));
                    let rest = text::copy_of(vstd::slice::slice_subrange(&self.waiting, i + 2, n));
                    assert(buf.subrange(0, i as int) =~= buf.take(i as int));
                    assert(buf.subrange(i + 2, n as int) =~= buf.skip(i + 2));
                    self.waiting = rest;
                    let ghost said = self@.answer;
                    self.take_lines(&event, &mut pieces);
                    proof {
                        let first = lines_found(text::lines_of(buf.take(i as int)), buf.skip(i + 2));
                        lemma_found_rest(text::lines_of(buf.take(i as int)), buf.skip(i + 2));
                        lemma_joined_add(done, first.pieces);
                        assert(self@.answer =~= before.answer + joined(done + first.pieces));
                        if first.ended {
                            assert(whole == first.after(done));
                        } else {
                            assert(whole.pieces =~= events_found(buf.skip(i + 2)).after(
                                done + first.pieces,
                            ).pieces);
                        }
                        done = done + first.pieces;
                    }
                    if self.ended {
                        break;
                    }
                },
            }
        }
        pieces
    }

    /// Takes more bytes. The pieces of the answer in them are given back.
    pub fn take_bytes(&mut self, chunk: &[u8]) -> (r: Vec<String>)
        requires
            !old(self)@.ended,
        ensures
            final(self)@ == old(self)@.with_events(outside::utf8_lossy(chunk@)),
            pieces_view(r@) == events_found(
                old(self)@.waiting + outside::utf8_lossy(chunk@),
            ).pieces,
            vstd::utf8::valid_utf8(chunk@) ==> {
                let more = vstd::utf8::decode_utf8(chunk@);
                &&& final(self)@ == old(self)@.with_events(more)
                &&& pieces_view(r@) == events_found(old(self)@.waiting + more).pieces
            },
    {
        let more = outside::string_from_utf8_lossy(chunk);
        self.take_text(more.as_str())
    }
}

proof fn lemma_found_rest(lines: Seq<Seq<char>>, rest: Seq<char>)
    ensures
        lines_found(lines, rest).rest == rest,
    decreases lines.len(),
{
    if lines.len() > 0 {
        lemma_found_rest(lines.drop_first(), rest);
    }
}

/// Where text is cut does not matter: the events of `a` and `b` together hold the pieces that are
/// found in `a` first, and in what was left of it with `b` then.
pub proof fn events_join(a: Seq<char>, b: Seq<char>)
    requires
        !events_found(a).ended,
    ensures
        events_found(a + b) == events_found(events_found(a).rest + b).after(
            events_found(a).pieces,
        ),
    decreases a.len(),
{
    reveal_strlit("\n\n");
    text::lemma_first_index_is(a, "\n\n"@);
    match text::first_index(a, "\n\n"@) {
        Some(i) => {
            lemma_first_in_front(a, b, "\n\n"@);
            assert((a + b).take(i) =~= a.take(i));
            assert((a + b).skip(i + 2) =~= a.skip(i + 2) + b);
            let lines = text::lines_of(a.take(i));
            lemma_found_pieces(lines, a.skip(i + 2), a.skip(i + 2) + b);
            let first = lines_found(lines, a.skip(i + 2));
            events_join(a.skip(i + 2), b);
            let later = events_found(events_found(a.skip(i + 2)).rest + b);
            assert(first.pieces + (events_found(a.skip(i + 2)).pieces + later.pieces) =~= (
            first.pieces + events_found(a.skip(i + 2)).pieces) + later.pieces);
        },
        None => {
            let all = events_found(a + b);
            assert(events_found(a).pieces + all.pieces =~= all.pieces);
        },
    }
}

proof fn lemma_found_pieces(lines: Seq<Seq<char>>, r: Seq<char>, t: Seq<char>)
    ensures
        lines_found(lines, r).pieces == lines_found(lines, t).pieces,
        lines_found(lines, r).ended == lines_found(lines, t).ended,
    decreases lines.len(),
{
    if lines.len() > 0 {
        lemma_found_pieces(lines.drop_first(), r, t);
    }
}

/// What stands behind the mark of the end does not matter.
pub proof fn events_end(a: Seq<char>, b: Seq<char>)
    requires
        events_found(a).ended,
    ensures
        events_found(a + b).ended,
        events_found(a + b).pieces == events_found(a).pieces,
    decreases a.len(),
{
    reveal_strlit("\n\n");
    text::lemma_first_index_is(a, "\n\n"@);
    if let Some(i) = text::first_index(a, "\n\n"@) {
        lemma_first_in_front(a, b, "\n\n"@);
        assert((a + b).take(i) =~= a.take(i));
        assert((a + b).skip(i + 2) =~= a.skip(i + 2) + b);
        let lines = text::lines_of(a.take(i));
        lemma_found_pieces(lines, a.skip(i + 2), a.skip(i + 2) + b);
        if !lines_found(lines, a.skip(i + 2)).ended {
            events_end(a.skip(i + 2), b);
        }
    }
}

/// Where the network cuts a stream of events does not matter: after `a` and then `b` the stream
/// stands as after both at once. Where `a` already held the mark of the end, both at once give the
/// answer that `a` gives, and the end.
pub proof fn event_stream_ignores_cuts(stream: StreamView, a: Seq<char>, b: Seq<char>)
    requires
        !stream.ended,
    ensures
        if stream.with_events(a).ended {
            &&& stream.with_events(a + b).answer == stream.with_events(a).answer
            &&& stream.with_events(a + b).ended
        } else {
            stream.with_events(a + b) == stream.with_events(a).with_events(b)
        },
{
    let first = events_found(stream.waiting + a);
    let between = stream.advanced(first);
    let second = events_found(between.waiting + b);
    assert(stream.waiting + (a + b) =~= (stream.waiting + a) + b);
    if first.ended {
        events_end(stream.waiting + a, b);
    } else {
        events_join(stream.waiting + a, b);
        lemma_joined_add(first.pieces, second.pieces);
        assert(stream.answer + joined(first.pieces + second.pieces) =~= between.answer + joined(
            second.pieces,
        ));
    }
}

// ----- Lines -----

/// What a line of a stream of lines says.
pub enum LineSays {
    Nothing,
    /// The model is done.
    Done,
    Piece(String),
}

pub enum LineSaysView {
    Nothing,
    Done,
    Piece(Seq<char>),
}

impl View for LineSays {
    type V = LineSaysView;

    open spec fn view(&self) -> LineSaysView {
        match *self {
            LineSays::Nothing => LineSaysView::Nothing,
            LineSays::Done => LineSaysView::Done,
            LineSays::Piece(p) => LineSaysView::Piece(p@),
        }
    }
}

/// What the values of a line say.
pub open spec fn values_say(
    done: Option<bool>,
    message: Option<Seq<char>>,
    response: Option<Seq<char>>,
) -> LineSaysView {
    if done == Some(true) {
        LineSaysView::Done
    } else {
        match first_of(message, response) {
            Some(p) => LineSaysView::Piece(p),
            None => LineSaysView::Nothing,
        }
    }
}

/// What the values of a line say.
pub fn read_values(done: Option<bool>, message: Option<String>, response: Option<String>) -> (r:
    LineSays)
    ensures
        r@ == values_say(done, outside::opt_text(message), outside::opt_text(response)),
{
    if let Some(true) = done {
        return LineSays::Done;
    }
    match choose_text(message, response) {
        Some(p) => LineSays::Piece(p),
        None => LineSays::Nothing,
    }
}

/// What a line says. A blank line, or one that is no JSON, says nothing.
pub open spec fn line_says(line: Seq<char>) -> LineSaysView {
    if text::trimmed(line, Class::Space).len() == 0 || !outside::is_json(line) {
        LineSaysView::Nothing
    } else {
        values_say(
            outside::json_bool(line, "/done"@),
            outside::json_string(line, "/message/content"@),
            outside::json_string(line, "/response"@),
        )
    }
}

fn read_line(line: &[char]) -> (r: LineSays)
    ensures
        r@ == line_says(line@),
{
    let shown = text::strip(line, Class::Space);
    let n: usize = shown.len();
    if n == 0 {
        return LineSays::Nothing;
    }
    let json = outside::string_of(line);
    match (
        outside::json_bool_at(json.as_str(), "/done"),
        outside::json_string_at(json.as_str(), "/message/content"),
        outside::json_string_at(json.as_str(), "/response"),
    ) {
        (Ok(done), Ok(message), Ok(response)) => read_values(done, message, response),
        _ => LineSays::Nothing,
    }
}

/// What the complete lines of a text hold, up to one that says that the model is done.
pub open spec fn rows_found(buf: Seq<char>) -> Found
    decreases buf.len(),
{
    proof {
        text::lemma_first_index_is(buf, "\n"@);
        reveal_strlit("\n");
    }
    match text::first_index(buf, "\n"@) {
        Some(i) => {
            let rest = buf.skip(i + 1);
            match line_says(buf.take(i)) {
                LineSaysView::Done => Found { pieces: seq![], ended: true, rest },
                LineSaysView::Piece(p) => rows_found(rest).behind(Some(p)),
                LineSaysView::Nothing => rows_found(rest),
            }
        },
        None => Found { pieces: seq![], ended: false, rest: buf },
    }
}

/// An answer that comes as lines of JSON. A line that says that the model is done ends only the run
/// over the text at hand: what stands behind it is read when more text comes.
pub struct OllamaStream {
    answer: String,
    waiting: Vec<char>,
}

impl OllamaStream {
    /// The stream itself never ends.
    pub closed spec fn view(&self) -> StreamView {
        StreamView { answer: self.answer@, waiting: self.waiting@, ended: false }
    }

    /// A stream from which nothing has come.
    pub fn new() -> (r: Self)
        ensures
            r@ == (StreamView { answer: ""@, waiting: seq![], ended: false }),
    {
        OllamaStream { answer: "".to_string(), waiting: Vec::new() }
    }

    /// What the model has said.
    pub fn answer(self) -> (r: String)
        ensures
            r@ == self@.answer,
    {
        self.answer
    }

    /// Takes more text. The pieces of the answer in it are given back.
    pub fn take_text(&mut self, more: &str) -> (r: Vec<String>)
        ensures
            final(self)@ == old(self)@.with_rows(more@),
            pieces_view(r@) == rows_found(old(self)@.waiting + more@).pieces,
    {
        let mut pieces: Vec<String> = Vec::new();
        let ghost before = self@;
        let ghost whole = rows_found(before.waiting + more@);
        let new = text::chars_of(more);
        text::append_to(&mut self.waiting, &new);
        let newline = text::chars_of("\n");
        let ghost mut done: Seq<Seq<char>> = seq![];
        proof {
            reveal_strlit("\n");
            assert(pieces_view(pieces@) =~= done);
            assert(before.answer + joined(done) =~= before.answer);
            assert(whole.after(done).pieces =~= whole.pieces);
        }
        loop
            invariant_except_break
                newline@ == "\n"@,
                "\n"@.len() == 1,
                !before.ended,
                self@.answer == before.answer + joined(done),
                pieces_view(pieces@) == done,
                whole == rows_found(self@.waiting).after(done),
            ensures
                self@ == before.advanced(Found { ended: false, ..whole }),
                pieces_view(pieces@) == whole.pieces,
            decreases self@.waiting.len(),
        {
            let ghost buf = self@.waiting;
            match text::find(&self.waiting, &newline) {
                None => {
                    assert(whole.pieces =~= done);
                    break;
                },
                Some(i) => {
                    proof {
                        text::lemma_first_index_is(buf, "\n"@);
                    }
                    let n: usize = self.waiting.len();
                    let says = read_line(vstd::slice::slice_subrange(&self.waiting, 0, i));
                    let rest = text::copy_of(vstd::slice::slice_subrange(&self.waiting, i + 1, n));
                    assert(buf.subrange(0, i as int) =~= buf.take(i as int));
                    assert(buf.subrange(i + 1, n as int) =~= buf.skip(i + 1));
                    self.waiting = rest;
                    match says {
                        LineSays::Nothing => {},
                        LineSays::Done => {
                            assert(whole.pieces =~= done);
                            break;
                        },
                        LineSays::Piece(piece) => {
                            let ghost p = piece@;
                            let ghost kept = pieces@;
                            self.answer.append(piece.as_str());
                            pieces.push(piece);
                            proof {
                                lemma_joined_add(done, seq![p]);
                                lemma_joined_one(p);
                                assert(done + seq![p] =~= done.push(p));
                                assert(pieces_view(pieces@) =~= pieces_view(kept).push(p));
                                assert(self@.answer =~= before.answer + joined(done.push(p)));
                                assert(rows_found(buf.skip(i + 1)).behind(Some(p)).after(
                                    done,
                                ).pieces =~= rows_found(buf.skip(i + 1)).after(
                                    done.push(p),
                                ).pieces);
                                done = done.push(p);
                            }
                        },
                    }
                },
            }
        }
        pieces
    }

    /// Takes more bytes. The pieces of the answer in them are given back.
    pub fn take_bytes(&mut self, chunk: &[u8]) -> (r: Vec<String>)
        ensures
            final(self)@ == old(self)@.with_rows(outside::utf8_lossy(chunk@)),
            pieces_view(r@) == rows_found(
                old(self)@.waiting + outside::utf8_lossy(chunk@),
            ).pieces,
            vstd::utf8::valid_utf8(chunk@) ==> {
                let more = vstd::utf8::decode_utf8(chunk@);
                &&& final(self)@ == old(self)@.with_rows(more)
                &&& pieces_view(r@) == rows_found(old(self)@.waiting + more).pieces
            },
    {
        let more = outside::string_from_utf8_lossy(chunk);
        self.take_text(more.as_str())
    }
}

/// Where text is cut does not matter: the lines of `a` and `b` together hold the pieces that are
/// found in `a` first, and in what was left of it with `b` then.
pub proof fn rows_join(a: Seq<char>, b: Seq<char>)
    requires
        !rows_found(a).ended,
    ensures
        rows_found(a + b) == rows_found(rows_found(a).rest + b).after(rows_found(a).pieces),
    decreases a.len(),
{
    reveal_strlit("\n");
    text::lemma_first_index_is(a, "\n"@);
    match text::first_index(a, "\n"@) {
        Some(i) => {
            lemma_first_in_front(a, b, "\n"@);
            assert((a + b).take(i) =~= a.take(i));
            assert((a + b).skip(i + 1) =~= a.skip(i + 1) + b);
            rows_join(a.skip(i + 1), b);
            let rest = rows_found(a.skip(i + 1));
            let later = rows_found(rest.rest + b);
            if let LineSaysView::Piece(p) = line_says(a.take(i)) {
                assert(seq![p] + (rest.pieces + later.pieces) =~= (seq![p] + rest.pieces)
                    + later.pieces);
            }
        },
        None => {
            let all = rows_found(a + b);
            assert(rows_found(a).pieces + all.pieces =~= all.pieces);
        },
    }
}

/// Where the network cuts a stream of lines does not matter: after `a` and then `b` the stream
/// stands as after both at once, unless `a` already held a line that says that the model is done.
pub proof fn line_stream_ignores_cuts(stream: StreamView, a: Seq<char>, b: Seq<char>)
    requires
        !stream.ended,
        !rows_found(stream.waiting + a).ended,
    ensures
        stream.with_rows(a + b) == stream.with_rows(a).with_rows(b),
{
    let first = rows_found(stream.waiting + a);
    let between = stream.advanced(first);
    let second = rows_found(between.waiting + b);
    assert(stream.waiting + (a + b) =~= (stream.waiting + a) + b);
    rows_join(stream.waiting + a, b);
    lemma_joined_add(first.pieces, second.pieces);
    assert(stream.answer + joined(first.pieces + second.pieces) =~= between.answer + joined(
        second.pieces,
    ));
}

// ----- Laws -----

/// A line of an event that carries `data`.
pub open spec fn data_line(data: Seq<char>) -> Seq<char> {
    "data: "@ + data
}

/// Some data as lines of one event.
pub open spec fn data_lines(datas: Seq<Seq<char>>) -> Seq<char>
    decreases datas.len(),
{
    if datas.len() == 0 {
        seq![]
    } else if datas.len() == 1 {
        data_line(datas[0])
    } else {
        data_line(datas[0]).push('\n') + data_lines(datas.drop_first())
    }
}

/// Some data, each as an event of its own.
pub open spec fn data_events(datas: Seq<Seq<char>>) -> Seq<char>
    decreases datas.len(),
{
    if datas.len() == 0 {
        seq![]
    } else {
        data_line(datas[0]) + seq!['\n', '\n'] + data_events(datas.drop_first())
    }
}

/// `data` is a line of JSON that says `piece`: the newest words, or else the whole message.
pub open spec fn data_says(data: Seq<char>, piece: Seq<char>) -> bool {
    &&& !data.contains('\n')
    &&& data.len() > 0 ==> data.last() != '\r'
    &&& text::trimmed(data, Class::Space) != "[DONE]"@
    &&& outside::is_json(data)
    &&& outside::json_string(data, "/choices/0/delta/content"@) == Some(piece) || (
    outside::json_string(data, "/choices/0/delta/content"@) is None && outside::json_string(
        data,
        "/choices/0/message/content"@,
    ) == Some(piece))
}

/// `data` is a line that says nothing: it is no JSON, or JSON with neither of the two texts.
pub open spec fn data_is_silent(data: Seq<char>) -> bool {
    &&& !data.contains('\n')
    &&& text::trimmed(data, Class::Space) != "[DONE]"@
    &&& !outside::is_json(data) || (outside::json_string(data, "/choices/0/delta/content"@) is None
        && outside::json_string(data, "/choices/0/message/content"@) is None)
}

proof fn lemma_data_payload(data: Seq<char>)
    requires
        text::trimmed(data, Class::Space) != "[DONE]"@,
    ensures
        line_payload(data_line(data)) == PayloadView::Data(data),
{
    let line = data_line(data);
    reveal_strlit("data: ");
    text::lemma_prefix_len(line, Class::Space, 0);
    assert(text::trim_front(line, Class::Space) =~= line);
    assert(line.subrange(0, 6) =~= "data: "@);
    assert(line.skip(6) =~= data);
}

/// An event ends at its first blank line.
proof fn lemma_event_ends(body: Seq<char>, rest: Seq<char>)
    requires
        body.len() > 0,
        body.last() != '\n',
        forall|j: int|
            0 <= j < body.len() - 1 ==> !((#[trigger] body[j]) == '\n' && body[j + 1] == '\n'),
    ensures
        ({
            let s = body + seq!['\n', '\n'] + rest;
            &&& text::first_index(s, "\n\n"@) == Some(body.len() as int)
            &&& s.take(body.len() as int) == body
            &&& s.skip((body.len() + 2) as int) == rest
        }),
{
    let s = body + seq!['\n', '\n'] + rest;
    let n = body.len() as int;
    let blank = "\n\n"@;
    reveal_strlit("\n\n");
    assert(s.subrange(n, n + 2) =~= blank);
    assert forall|j: int| 0 <= j < n implies !text::occurs_at(s, blank, j) by {
        if text::occurs_at(s, blank, j) {
            let w = s.subrange(j, j + 2);
            assert(w[0] == '\n' && w[1] == '\n');
            assert(s[j] == body[j]);
            if j < n - 1 {
                assert(s[j + 1] == body[j + 1]);
            } else {
                assert(body[j] == body.last());
            }
        }
    }
    assert(text::first_occurs_at(s, blank, n));
    text::lemma_first_index(s, blank, n);
    assert(s.take(n) =~= body);
    assert(s.skip(n + 2) =~= rest);
}

proof fn lemma_data_line_shape(data: Seq<char>)
    requires
        !data.contains('\n'),
    ensures
        data_line(data).len() == data.len() + 6,
        data_line(data)[0] == 'd',
        !data_line(data).contains('\n'),
        data.len() > 0 ==> data_line(data).last() == data.last(),
        data.len() == 0 ==> data_line(data).last() == ' ',
{
    let line = data_line(data);
    reveal_strlit("data: ");
    if line.contains('\n') {
        let j = choose|j: int| 0 <= j < line.len() && line[j] == '\n';
        if j < 6 {
            assert(line[j] == "data: "@[j]);
        } else {
            assert(data[j - 6] == '\n');
        }
    }
}

/// The lines of an event are the lines that were put into it.
proof fn lemma_data_lines(datas: Seq<Seq<char>>)
    requires
        datas.len() > 0,
        forall|i: int|
            0 <= i < datas.len() ==> !(#[trigger] datas[i]).contains('\n') && (datas[i].len() > 0
                ==> datas[i].last() != '\r'),
    ensures
        ({
            let body = data_lines(datas);
            &&& body.len() > 0
            &&& body[0] == 'd'
            &&& body.last() != '\n'
            &&& forall|j: int|
                0 <= j < body.len() - 1 ==> !((#[trigger] body[j]) == '\n' && body[j + 1]
                    == '\n')
            &&& text::lines_of(body) == datas.map_values(|d: Seq<char>| data_line(d))
        }),
    decreases datas.len(),
{
    let body = data_lines(datas);
    let line = data_line(datas[0]);
    lemma_data_line_shape(datas[0]);
    let lines = datas.map_values(|d: Seq<char>| data_line(d));
    if datas.len() == 1 {
        text::lone_line(line);
        assert(lines =~= seq![line]);
        assert forall|j: int| 0 <= j < body.len() - 1 implies !((#[trigger] body[j]) == '\n'
            && body[j + 1] == '\n') by {
            assert(line.contains(line[j]));
        }
        assert(line.contains(line.last()));
    } else {
        let others = datas.drop_first();
        assert forall|i: int| 0 <= i < others.len() implies !(#[trigger] others[i]).contains('\n')
            && (others[i].len() > 0 ==> others[i].last() != '\r') by {
            assert(others[i] == datas[i + 1]);
        }
        lemma_data_lines(others);
        let more = data_lines(others);
        text::lines_follow_each_other(line, more);
        assert(text::without_cr(line) == line);
        assert(lines =~= seq![line] + others.map_values(|d: Seq<char>| data_line(d)));
        let n = line.len() as int;
        assert(body.last() == more.last());
        assert(body[0] == line[0]);
        assert forall|j: int| 0 <= j < body.len() - 1 implies !((#[trigger] body[j]) == '\n'
            && body[j + 1] == '\n') by {
            if j < n {
                assert(body[j] == line[j]);
                assert(line.contains(line[j]));
            } else if j == n {
                assert(body[j + 1] == more[0]);
            } else {
                assert(body[j] == more[j - n - 1]);
                assert(body[j + 1] == more[j - n]);
            }
        }
    }
}

proof fn lemma_lines_say(datas: Seq<Seq<char>>, pieces: Seq<Seq<char>>, rest: Seq<char>)
    requires
        datas.len() == pieces.len(),
        forall|i: int| 0 <= i < datas.len() ==> data_says(#[trigger] datas[i], pieces[i]),
    ensures
        lines_found(datas.map_values(|d: Seq<char>| data_line(d)), rest) == (Found {
            pieces,
            ended: false,
            rest,
        }),
    decreases datas.len(),
{
    let lines = datas.map_values(|d: Seq<char>| data_line(d));
    if datas.len() > 0 {
        lemma_data_payload(datas[0]);
        assert(data_says(datas[0], pieces[0]));
        let others = datas.drop_first();
        assert forall|i: int| 0 <= i < others.len() implies data_says(
            #[trigger] others[i],
            pieces.drop_first()[i],
        ) by {
            assert(data_says(datas[i + 1], pieces[i + 1]));
        }
        lemma_lines_say(others, pieces.drop_first(), rest);
        assert(lines.drop_first() =~= others.map_values(|d: Seq<char>| data_line(d)));
        assert(seq![pieces[0]] + pieces.drop_first() =~= pieces);
    } else {
        assert(pieces =~= Seq::<Seq<char>>::empty());
    }
}

/// An event gives the pieces that its lines say, as they are, every one and in their order, and what
/// follows the event is read as if it stood alone.
pub proof fn events_give_what_their_lines_say(
    datas: Seq<Seq<char>>,
    pieces: Seq<Seq<char>>,
    rest: Seq<char>,
)
    requires
        datas.len() > 0,
        datas.len() == pieces.len(),
        forall|i: int| 0 <= i < datas.len() ==> data_says(#[trigger] datas[i], pieces[i]),
    ensures
        ({
            let found = events_found(data_lines(datas) + seq!['\n', '\n'] + rest);
            &&& found.pieces == pieces + events_found(rest).pieces
            &&& found.ended == events_found(rest).ended
            &&& found.rest == events_found(rest).rest
        }),
{
    assert forall|i: int| 0 <= i < datas.len() implies !(#[trigger] datas[i]).contains('\n') && (
    datas[i].len() > 0 ==> datas[i].last() != '\r') by {
        assert(data_says(datas[i], pieces[i]));
    }
    lemma_data_lines(datas);
    lemma_event_ends(data_lines(datas), rest);
    lemma_lines_say(datas, pieces, rest);
}

/// One event with one line of data adds exactly what the data says to the answer, blanks and all.
pub proof fn answers_grow_by_what_is_said(stream: StreamView, data: Seq<char>, piece: Seq<char>)
    requires
        stream.waiting.len() == 0,
        !stream.ended,
        data_says(data, piece),
    ensures
        ({
            let more = data_line(data) + seq!['\n', '\n'];
            &&& events_found(stream.waiting + more).pieces == seq![piece]
            &&& stream.with_events(more).answer == stream.answer + piece
            &&& stream.with_events(more).waiting.len() == 0
            &&& !stream.with_events(more).ended
        }),
{
    let more = data_line(data) + seq!['\n', '\n'];
    let none = Seq::<char>::empty();
    assert forall|i: int| 0 <= i < seq![data].len() implies data_says(
        #[trigger] seq![data][i],
        seq![piece][i],
    ) by {}
    events_give_what_their_lines_say(seq![data], seq![piece], none);
    assert(data_lines(seq![data]) == data_line(data));
    assert(stream.waiting + more =~= data_line(data) + seq!['\n', '\n'] + none);
    lemma_nothing_found(none);
    assert(seq![piece] + Seq::<Seq<char>>::empty() =~= seq![piece]);
    lemma_joined_one(piece);
}

proof fn lemma_nothing_found(s: Seq<char>)
    requires
        s.len() < 2,
    ensures
        events_found(s) == (Found { pieces: seq![], ended: false, rest: s }),
{
    reveal_strlit("\n\n");
    text::lemma_first_index_is(s, "\n\n"@);
}

/// A whole answer is put together from all that its events say, however many there are, in their
/// order and as it stands.
pub proof fn whole_answers_are_put_together(datas: Seq<Seq<char>>, pieces: Seq<Seq<char>>)
    requires
        datas.len() == pieces.len(),
        forall|i: int| 0 <= i < datas.len() ==> data_says(#[trigger] datas[i], pieces[i]),
    ensures
        events_found(data_events(datas)) == (Found { pieces, ended: false, rest: seq![] }),
    decreases datas.len(),
{
    if datas.len() == 0 {
        lemma_nothing_found(data_events(datas));
        assert(pieces =~= Seq::<Seq<char>>::empty());
    } else {
        let others = datas.drop_first();
        assert forall|i: int| 0 <= i < others.len() implies data_says(
            #[trigger] others[i],
            pieces.drop_first()[i],
        ) by {
            assert(data_says(datas[i + 1], pieces[i + 1]));
        }
        whole_answers_are_put_together(others, pieces.drop_first());
        assert(data_says(datas[0], pieces[0]));
        assert forall|i: int| 0 <= i < seq![datas[0]].len() implies data_says(
            #[trigger] seq![datas[0]][i],
            seq![pieces[0]][i],
        ) by {}
        events_give_what_their_lines_say(seq![datas[0]], seq![pieces[0]], data_events(others));
        assert(data_lines(seq![datas[0]]) == data_line(datas[0]));
        assert(seq![pieces[0]] + pieces.drop_first() =~= pieces);
    }
}

proof fn lemma_one_line_event(line: Seq<char>, rest: Seq<char>)
    requires
        line.len() > 0,
        !line.contains('\n'),
    ensures
        ({
            let s = line + seq!['\n', '\n'] + rest;
            let first = lines_found(seq![line], rest);
            events_found(s) == if first.ended {
                first
            } else {
                events_found(rest).after(first.pieces)
            }
        }),
{
    assert(line.contains(line.last()));
    assert forall|j: int| 0 <= j < line.len() - 1 implies !((#[trigger] line[j]) == '\n' && line[j
        + 1] == '\n') by {
        assert(line.contains(line[j]));
    }
    lemma_event_ends(line, rest);
    text::lone_line(line);
}

/// An event that says nothing, or is none for this purpose, is passed over: what follows it is read
/// as if it stood alone.
pub proof fn silent_events_are_passed_over(data: Seq<char>, line: Seq<char>, rest: Seq<char>)
    requires
        data_is_silent(data),
        line.len() > 0,
        !line.contains('\n'),
        !text::has_prefix(text::trim_front(line, Class::Space), "data: "@),
    ensures
        events_found(data_line(data) + seq!['\n', '\n'] + rest) == events_found(rest),
        events_found(line + seq!['\n', '\n'] + rest) == events_found(rest),
{
    let none = Seq::<Seq<char>>::empty();
    lemma_data_line_shape(data);
    lemma_one_line_event(data_line(data), rest);
    lemma_one_line_event(line, rest);
    lemma_data_payload(data);
    assert(seq![data_line(data)].drop_first() =~= none);
    assert(seq![line].drop_first() =~= none);
    assert(lines_found(none, rest) == (Found { pieces: none, ended: false, rest }));
    assert(none + events_found(rest).pieces =~= events_found(rest).pieces);
}

/// The mark of the end ends the stream, and what was said before it is the answer.
pub proof fn end_mark_ends(rest: Seq<char>)
    ensures
        events_found("data: [DONE]"@ + seq!['\n', '\n'] + rest) == (Found {
            pieces: seq![],
            ended: true,
            rest,
        }),
{
    let line = "data: [DONE]"@;
    reveal_strlit("data: [DONE]");
    reveal_strlit("data: ");
    reveal_strlit("[DONE]");
    lemma_one_line_event(line, rest);
    text::lemma_prefix_len(line, Class::Space, 0);
    assert(text::trim_front(line, Class::Space) =~= line);
    assert(line.subrange(0, 6) =~= "data: "@);
    assert(line.skip(6) =~= "[DONE]"@);
    text::lemma_trimmed_fixed("[DONE]"@, Class::Space);
}

/// An event that is not complete is kept until the rest of it comes.
pub proof fn incomplete_events_wait(s: Seq<char>)
    requires
        !text::stands_in(s, "\n\n"@),
    ensures
        events_found(s) == (Found { pieces: seq![], ended: false, rest: s }),
{
}

/// `line` is a line of JSON of a model that is not done, which says `piece`: a message, or else a
/// plain response.
pub open spec fn row_says(line: Seq<char>, piece: Seq<char>) -> bool {
    &&& !line.contains('\n')
    &&& text::trimmed(line, Class::Space).len() > 0
    &&& outside::is_json(line)
    &&& outside::json_bool(line, "/done"@) != Some(true)
    &&& outside::json_string(line, "/message/content"@) == Some(piece) || (outside::json_string(
        line,
        "/message/content"@,
    ) is None && outside::json_string(line, "/response"@) == Some(piece))
}

/// Some lines, each with a line feed behind it.
pub open spec fn rows(lines: Seq<Seq<char>>) -> Seq<char>
    decreases lines.len(),
{
    if lines.len() == 0 {
        seq![]
    } else {
        lines[0].push('\n') + rows(lines.drop_first())
    }
}

proof fn lemma_row_ends(line: Seq<char>, rest: Seq<char>)
    requires
        !line.contains('\n'),
    ensures
        ({
            let s = line.push('\n') + rest;
            &&& text::first_index(s, "\n"@) == Some(line.len() as int)
            &&& s.take(line.len() as int) == line
            &&& s.skip((line.len() + 1) as int) == rest
        }),
{
    let s = line.push('\n') + rest;
    let n = line.len() as int;
    reveal_strlit("\n");
    assert(s.subrange(n, n + 1) =~= "\n"@);
    assert forall|j: int| 0 <= j < n implies !text::occurs_at(s, "\n"@, j) by {
        if text::occurs_at(s, "\n"@, j) {
            assert(s.subrange(j, j + 1)[0] == '\n');
            assert(line[j] == '\n');
        }
    }
    assert(text::first_occurs_at(s, "\n"@, n));
    text::lemma_first_index(s, "\n"@, n);
    assert(s.take(n) =~= line);
    assert(s.skip(n + 1) =~= rest);
}

/// A line gives what it says, as it is, and what follows is read as if it stood alone.
pub proof fn rows_give_what_they_say(line: Seq<char>, piece: Seq<char>, rest: Seq<char>)
    requires
        row_says(line, piece),
    ensures
        ({
            let found = rows_found(line.push('\n') + rest);
            &&& found.pieces == seq![piece] + rows_found(rest).pieces
            &&& found.ended == rows_found(rest).ended
            &&& found.rest == rows_found(rest).rest
        }),
{
    lemma_row_ends(line, rest);
}

/// One line of the model adds exactly what it says to the answer, blanks and all.
pub proof fn answers_grow_by_what_rows_say(stream: StreamView, line: Seq<char>, piece: Seq<char>)
    requires
        stream.waiting.len() == 0,
        row_says(line, piece),
    ensures
        ({
            let more = line.push('\n');
            &&& rows_found(stream.waiting + more).pieces == seq![piece]
            &&& stream.with_rows(more).answer == stream.answer + piece
            &&& stream.with_rows(more).waiting.len() == 0
        }),
{
    let more = line.push('\n');
    let none = Seq::<char>::empty();
    rows_give_what_they_say(line, piece, none);
    assert(stream.waiting + more =~= more + none);
    lemma_no_rows(none);
    assert(seq![piece] + Seq::<Seq<char>>::empty() =~= seq![piece]);
    lemma_joined_one(piece);
}

proof fn lemma_no_rows(s: Seq<char>)
    requires
        s.len() == 0,
    ensures
        rows_found(s) == (Found { pieces: seq![], ended: false, rest: s }),
{
    reveal_strlit("\n");
    text::lemma_first_index_is(s, "\n"@);
}

/// A whole answer is put together from all that its lines say, however many there are, in their
/// order and as it stands.
pub proof fn whole_rows_are_put_together(lines: Seq<Seq<char>>, pieces: Seq<Seq<char>>)
    requires
        lines.len() == pieces.len(),
        forall|i: int| 0 <= i < lines.len() ==> row_says(#[trigger] lines[i], pieces[i]),
    ensures
        rows_found(rows(lines)) == (Found { pieces, ended: false, rest: seq![] }),
    decreases lines.len(),
{
    if lines.len() == 0 {
        lemma_no_rows(rows(lines));
        assert(pieces =~= Seq::<Seq<char>>::empty());
    } else {
        let others = lines.drop_first();
        assert forall|i: int| 0 <= i < others.len() implies row_says(
            #[trigger] others[i],
            pieces.drop_first()[i],
        ) by {
            assert(row_says(lines[i + 1], pieces[i + 1]));
        }
        whole_rows_are_put_together(others, pieces.drop_first());
        assert(row_says(lines[0], pieces[0]));
        rows_give_what_they_say(lines[0], pieces[0], rows(others));
        assert(seq![pieces[0]] + pieces.drop_first() =~= pieces);
    }
}

/// A line that says nothing is passed over, and one that says that the model is done ends the run and
/// leaves what stands behind it.
pub proof fn other_rows_add_nothing(line: Seq<char>, rest: Seq<char>)
    requires
        !line.contains('\n'),
    ensures
        text::trimmed(line, Class::Space).len() == 0 || !outside::is_json(line) || (
        outside::json_bool(line, "/done"@) != Some(true) && outside::json_string(
            line,
            "/message/content"@,
        ) is None && outside::json_string(line, "/response"@) is None) ==> rows_found(
            line.push('\n') + rest,
        ) == rows_found(rest),
        text::trimmed(line, Class::Space).len() > 0 && outside::is_json(line) && outside::json_bool(
            line,
            "/done"@,
        ) == Some(true) ==> rows_found(line.push('\n') + rest) == (Found {
            pieces: seq![],
            ended: true,
            rest,
        }),
{
    lemma_row_ends(line, rest);
}

/// A line that is not complete is kept until the rest of it comes.
pub proof fn incomplete_rows_wait(s: Seq<char>)
    requires
        !s.contains('\n'),
    ensures
        rows_found(s) == (Found { pieces: seq![], ended: false, rest: s }),
{
    reveal_strlit("\n");
    if text::stands_in(s, "\n"@) {
        let i = choose|i: int| text::occurs_at(s, "\n"@, i);
        assert(s.subrange(i, i + 1)[0] == '\n');
        assert(s[i] == '\n');
    }
}

/// The answer of a stream is all that was said, in order: what it was, and then the pieces that were
/// given back for the room to hear.
pub proof fn answers_are_what_was_heard(stream: StreamView, more: Seq<char>)
    ensures
        stream.with_events(more).answer == stream.answer + joined(
            events_found(stream.waiting + more).pieces,
        ),
        stream.with_rows(more).answer == stream.answer + joined(
            rows_found(stream.waiting + more).pieces,
        ),
        stream.with_rows(more).ended == stream.ended,
        stream.with_events(more).waiting == events_found(stream.waiting + more).rest,
        stream.with_rows(more).waiting == rows_found(stream.waiting + more).rest,
        stream.with_events(more).ended == (stream.ended || events_found(
            stream.waiting + more,
        ).ended),
        joined(Seq::<Seq<char>>::empty()) == Seq::<char>::empty(),
        forall|parts: Seq<Seq<char>>, p: Seq<char>| #[trigger]
            joined(parts.push(p)) == joined(parts) + p,
{
    assert forall|parts: Seq<Seq<char>>, p: Seq<char>| #[trigger]
        joined(parts.push(p)) == joined(parts) + p by {
        assert(parts.push(p).drop_last() =~= parts);
    }
}

/// Blanks before `data: ` do not matter.
pub proof fn blanks_before_data_do_not_matter(blank: Seq<char>, data: Seq<char>)
    requires
        forall|i: int| 0 <= i < blank.len() ==> text::space(#[trigger] blank[i]),
    ensures
        line_payload(blank + data_line(data)) == line_payload(data_line(data)),
{
    let line = data_line(data);
    reveal_strlit("data: ");
    let s = blank + line;
    assert(s[blank.len() as int] == line[0]);
    assert forall|j: int| 0 <= j < blank.len() implies Class::Space.holds(s[j]) by {
        assert(s[j] == blank[j]);
    }
    text::lemma_prefix_len(s, Class::Space, blank.len() as int);
    text::lemma_prefix_len(line, Class::Space, 0);
    assert(text::trim_front(s, Class::Space) =~= line);
    assert(text::trim_front(line, Class::Space) =~= line);
}

/// The mark of the end is one with blanks around it, too.
pub proof fn padded_end_marks_end(data: Seq<char>, rest: Seq<char>)
    requires
        !data.contains('\n'),
        text::trimmed(data, Class::Space) == "[DONE]"@,
    ensures
        events_found(data_line(data) + seq!['\n', '\n'] + rest) == (Found {
            pieces: seq![],
            ended: true,
            rest,
        }),
{
    let line = data_line(data);
    lemma_data_line_shape(data);
    lemma_one_line_event(line, rest);
    reveal_strlit("data: ");
    text::lemma_prefix_len(line, Class::Space, 0);
    assert(text::trim_front(line, Class::Space) =~= line);
    assert(line.subrange(0, 6) =~= "data: "@);
    assert(line.skip(6) =~= data);
}

} // verus!
