//! Incremental decoder for the line-oriented event stream a completion
//! endpoint sends back.
//!
//! Each transport chunk is decoded on its own: its bytes are decoded as
//! text (lossily, so malformed bytes never abort the stream), every line
//! beginning with `data:` is taken as a candidate event record, each
//! candidate that parses as a completion event contributes the content of
//! its first choice, and the contributions are concatenated into one
//! fragment. A candidate that does not parse is skipped silently. A record
//! split across two chunks fails to parse in either chunk and is dropped;
//! there is no carry-over buffer.

use serde_json::Value;
use vstd::prelude::*;
use vstd::string::StringExecFns;

verus! {

/// The optional text a completion event carries for one choice.
pub struct Delta {
    pub content: Option<String>,
}

/// One choice of a completion event.
pub struct Choice {
    pub delta: Delta,
}

/// One parsed completion event: the choices it carries.
pub struct ChatCompletion {
    pub choices: Vec<Choice>,
}

/// The content a choice carries, if any.
pub open spec fn choice_content(c: Choice) -> Option<Seq<char>> {
    match c.delta.content {
        Some(s) => Some(s@),
        None => None,
    }
}

impl View for ChatCompletion {
    type V = Seq<Option<Seq<char>>>;

    open spec fn view(&self) -> Seq<Option<Seq<char>>> {
        self.choices@.map_values(|c: Choice| choice_content(c))
    }
}

/// The text an event contributes to a fragment: the content of its first
/// choice, or nothing when there is no choice or no content.
pub open spec fn first_content(cc: Seq<Option<Seq<char>>>) -> Seq<char> {
    if cc.len() > 0 && cc[0] is Some {
        cc[0]->Some_0
    } else {
        Seq::empty()
    }
}

impl ChatCompletion {
    /// The content of the first choice, or the empty string when the event
    /// carries no choice or a choice without content.
    pub fn get_content(&self) -> (r: String)
        ensures
            r@ == first_content(self@),
    {
        if self.choices.len() > 0 {
            proof {
                assert(self@[0] == choice_content(self.choices@[0]));
            }
            match &self.choices[0].delta.content {
                Some(c) => c.clone(),
                None => String::new(),
            }
        } else {
            String::new()
        }
    }
}

/// What `String::from_utf8_lossy` turns a byte sequence into, as bytes.
pub uninterp spec fn lossy_bytes_of(bytes: Seq<u8>) -> Seq<u8>;

/// Whether a candidate payload parses as a completion event and, when it
/// does, the optional content of each of its choices, in order.
pub uninterp spec fn event_choice_contents(payload: Seq<u8>) -> Option<Seq<Option<Seq<char>>>>;

/// Relies on `String::from_utf8_lossy`: the result is a function of the
/// bytes alone; valid UTF-8 passes through unchanged, malformed sequences
/// get a replacement character, never an error.
#[verifier::external_body]
fn lossy_utf8(bytes: &Vec<u8>) -> (r: Vec<u8>)
    ensures
        r@ == lossy_bytes_of(bytes@),
        vstd::utf8::valid_utf8(bytes@) ==> r@ == bytes@,
{
    String::from_utf8_lossy(bytes).into_owned().into_bytes()
}

/// Relies on `serde_json::from_slice` and the accessors of
/// `serde_json::Value`: whether a payload parses as a completion event,
/// and the choice contents of one that does, are a function of the payload
/// bytes alone. An event must be an object with string `id`, `model` and
/// `object`, an unsigned `created` and an array `choices`; each choice
/// must hold a `delta` object whose `content` is a string, null or absent.
#[verifier::external_body]
fn parse_event(payload: &Vec<u8>) -> (r: Option<ChatCompletion>)
    ensures
        r is Some <==> event_choice_contents(payload@) is Some,
        r matches Some(e) ==> e@ == event_choice_contents(payload@)->Some_0,
{
    let v: Value = serde_json::from_slice(payload).ok()?;
    let ok = v["id"].is_string() && v["model"].is_string() && v["created"].is_u64() && v["object"].is_string();
    let arr = v["choices"].as_array()?;
    if !ok { return None; }
    let mut choices: Vec<Choice> = Vec::new();
    for c in arr {
        let content = match (c["delta"].is_object(), &c["delta"]["content"]) {
            (true, Value::Null) => None,
            (true, Value::String(s)) => Some(s.clone()),
            _ => return None,
        };
        choices.push(Choice { delta: Delta { content } });
    }
    Some(ChatCompletion { choices })
}

/// The bytes of `data:`, the prefix that marks an event record line.
pub open spec fn data_prefix() -> Seq<u8> {
    seq![100u8, 97u8, 116u8, 97u8, 58u8]
}

/// Whether a line carries an event record: it begins with `data:`.
pub open spec fn is_data_line(line: Seq<u8>) -> bool {
    line.len() >= 5 && line.subrange(0, 5) == data_prefix()
}

/// The text one line contributes to the fragment: nothing unless the line
/// is an event record whose payload parses, in which case the content of
/// the event's first choice.
pub open spec fn line_contribution(line: Seq<u8>) -> Seq<char> {
    if is_data_line(line) {
        match event_choice_contents(line.subrange(5, line.len() as int)) {
            Some(cc) => first_content(cc),
            None => Seq::empty(),
        }
    } else {
        Seq::empty()
    }
}

/// The index of the first line feed, or the length when there is none.
pub open spec fn first_newline(t: Seq<u8>) -> int
    decreases t.len(),
{
    if t.len() == 0 {
        0
    } else if t[0] == 10 {
        0
    } else {
        1 + first_newline(t.drop_first())
    }
}

/// The fragment a whole chunk of text decodes to: the concatenated
/// contributions of its lines, in order.
pub open spec fn decoded(t: Seq<u8>) -> Seq<char>
    decreases t.len(),
{
    let i = first_newline(t);
    if 0 <= i < t.len() {
        line_contribution(t.subrange(0, i)) + decoded(t.subrange(i + 1, t.len() as int))
    } else {
        line_contribution(t)
    }
}

/// Whether any line of the chunk begins with `data:`.
pub open spec fn has_data_line(t: Seq<u8>) -> bool
    decreases t.len(),
{
    let i = first_newline(t);
    if 0 <= i < t.len() {
        is_data_line(t.subrange(0, i)) || has_data_line(t.subrange(i + 1, t.len() as int))
    } else {
        is_data_line(t)
    }
}

proof fn lemma_first_newline_at(t: Seq<u8>, j: int)
    requires
        0 <= j <= t.len(),
        forall|k: int| 0 <= k < j ==> t[k] != 10,
        j < t.len() ==> t[j] == 10,
    ensures
        first_newline(t) == j,
    decreases t.len(),
{
    if t.len() == 0 {
    } else if t[0] == 10 {
        assert(j == 0);
    } else {
        assert(j >= 1);
        assert forall|k: int| 0 <= k < j - 1 implies t.drop_first()[k] != 10 by {
            assert(t.drop_first()[k] == t[k + 1]);
        }
        lemma_first_newline_at(t.drop_first(), j - 1);
    }
}

/// One line of the decoding, carved out of the whole chunk: the fragment
/// of the remaining text is the line's contribution followed by the
/// fragment of what comes after the line feed.
proof fn lemma_decoded_step(t: Seq<u8>, pos: int, end: int)
    requires
        0 <= pos <= end <= t.len(),
        forall|k: int| pos <= k < end ==> t[k] != 10,
        end < t.len() ==> t[end] == 10,
    ensures
        end < t.len() ==> decoded(t.subrange(pos, t.len() as int)) == line_contribution(
            t.subrange(pos, end),
        ) + decoded(t.subrange(end + 1, t.len() as int)),
        end == t.len() ==> decoded(t.subrange(pos, t.len() as int)) == line_contribution(
            t.subrange(pos, end),
        ),
{
    let s = t.subrange(pos, t.len() as int);
    assert forall|k: int| 0 <= k < end - pos implies s[k] != 10 by {
        assert(s[k] == t[pos + k]);
    }
    lemma_first_newline_at(s, end - pos);
    if end < t.len() {
        assert(s.subrange(0, end - pos) =~= t.subrange(pos, end));
        assert(s.subrange(end - pos + 1, s.len() as int) =~= t.subrange(end + 1, t.len() as int));
    } else {
        assert(s =~= t.subrange(pos, end));
    }
}

/// Law: a chunk that contains no `data:` line decodes to the empty
/// fragment; it never fails.
pub proof fn lemma_no_data_line_decodes_empty(t: Seq<u8>)
    requires
        !has_data_line(t),
    ensures
        decoded(t) == Seq::<char>::empty(),
    decreases t.len(),
{
    let i = first_newline(t);
    if 0 <= i < t.len() {
        lemma_no_data_line_decodes_empty(t.subrange(i + 1, t.len() as int));
        assert(decoded(t) =~= Seq::<char>::empty());
    }
}

/// Decodes one chunk already turned into text: scans its lines for event
/// records and concatenates what they contribute.
pub fn decode_records(t: &Vec<u8>) -> (frag: String)
    ensures
        frag@ == decoded(t@),
{
    let n = t.len();
    let mut acc = String::new();
    let mut pos: usize = 0;
    proof {
        assert(t@.subrange(0, n as int) =~= t@);
    }
    while pos < n
        invariant
            pos <= n,
            n == t@.len(),
            decoded(t@) == acc@ + decoded(t@.subrange(pos as int, n as int)),
        decreases n - pos,
    {
        let mut end: usize = pos;
        while end < n && t[end] != 10
            invariant
                pos <= end <= n,
                n == t@.len(),
                forall|k: int| pos <= k < end ==> t@[k] != 10,
            decreases n - end,
        {
            end = end + 1;
        }
        let ghost line = t@.subrange(pos as int, end as int);
        let is_data = end - pos >= 5 && t[pos] == 100 && t[pos + 1] == 97 && t[pos + 2] == 116
            && t[pos + 3] == 97 && t[pos + 4] == 58;
        proof {
            if is_data {
                assert(line.subrange(0, 5) =~= data_prefix());
            } else if line.len() >= 5 {
                if is_data_line(line) {
                    assert(line.subrange(0, 5)[0] == data_prefix()[0]);
                    assert(line.subrange(0, 5)[1] == data_prefix()[1]);
                    assert(line.subrange(0, 5)[2] == data_prefix()[2]);
                    assert(line.subrange(0, 5)[3] == data_prefix()[3]);
                    assert(line.subrange(0, 5)[4] == data_prefix()[4]);
                    assert(false);
                }
            }
        }
        if is_data {
            let mut payload: Vec<u8> = Vec::new();
            proof {
                assert(payload@ =~= t@.subrange(pos as int + 5, pos as int + 5));
            }
            let mut k: usize = pos + 5;
            while k < end
                invariant
                    pos + 5 <= k <= end,
                    end <= n,
                    n == t@.len(),
                    payload@ == t@.subrange(pos as int + 5, k as int),
                decreases end - k,
            {
                payload.push(t[k]);
                proof {
                    assert(payload@ =~= t@.subrange(pos as int + 5, k as int + 1));
                }
                k = k + 1;
            }
            proof {
                assert(payload@ =~= line.subrange(5, line.len() as int));
            }
            match parse_event(&payload) {
                Some(ev) => {
                    let piece = ev.get_content();
                    proof {
                        assert(piece@ == line_contribution(line));
                    }
                    acc.append(piece.as_str());
                },
                None => {
                    proof {
                        assert(line_contribution(line) =~= Seq::<char>::empty());
                    }
                },
            }
        } else {
            proof {
                assert(line_contribution(line) =~= Seq::<char>::empty());
            }
        }
        proof {
            lemma_decoded_step(t@, pos as int, end as int);
            assert(acc@ + (line_contribution(line) + decoded(
                t@.subrange(end as int + 1, n as int),
            )) =~= (acc@ + line_contribution(line)) + decoded(
                t@.subrange(end as int + 1, n as int),
            ));
        }
        if end == n {
            proof {
                assert(t@.subrange(n as int, n as int) =~= Seq::<u8>::empty());
                assert(acc@ + line_contribution(line) + decoded(t@.subrange(n as int, n as int))
                    =~= acc@ + line_contribution(line));
            }
            pos = n;
        } else {
            pos = end + 1;
        }
    }
    proof {
        assert(t@.subrange(n as int, n as int) =~= Seq::<u8>::empty());
        assert(acc@ + decoded(t@.subrange(n as int, n as int)) =~= acc@);
    }
    acc
}

/// Decodes one raw transport chunk: lossy text decoding, then the line
/// scan of `decode_records`.
pub fn decode_chunk(bytes: &Vec<u8>) -> (frag: String)
    ensures
        frag@ == decoded(lossy_bytes_of(bytes@)),
{
    let text = lossy_utf8(bytes);
    decode_records(&text)
}

/// One transport event handed to the stream cursor: a chunk of bytes, or
/// the end of the stream (normal exhaustion and a failed read look the
/// same here).
pub enum ChunkEvent {
    Bytes(Vec<u8>),
    End,
}

/// The single-consumer cursor state over an in-flight response: it decodes
/// chunk by chunk and, once the stream has ended, stays terminal.
pub struct StreamDecoder {
    pub exhausted: bool,
}

impl StreamDecoder {
    /// A fresh cursor over a just-opened stream.
    pub fn new() -> (d: Self)
        ensures
            !d.exhausted,
    {
        StreamDecoder { exhausted: false }
    }

    /// Advances the cursor by one transport event. Returns the fragment the
    /// chunk decodes to, or the terminal signal on end of stream; once the
    /// terminal signal has been produced every further call produces it
    /// again, whatever the event.
    pub fn next_fragment(&mut self, event: ChunkEvent) -> (r: Option<String>)
        ensures
            old(self).exhausted ==> final(self).exhausted && r is None,
            !old(self).exhausted && event is End ==> final(self).exhausted && r is None,
            !old(self).exhausted ==> (event matches ChunkEvent::Bytes(b) ==> {
                &&& !final(self).exhausted
                &&& r matches Some(f) && f@ == decoded(lossy_bytes_of(b@))
            }),
    {
        if self.exhausted {
            return None;
        }
        match event {
            ChunkEvent::Bytes(b) => Some(decode_chunk(&b)),
            ChunkEvent::End => {
                self.exhausted = true;
                None
            },
        }
    }
}

} // verus!
