//! The records the engine's wire format carries, one JSON value per line,
//! and the trusted parsers that read them. A line that does not parse as the
//! expected record shape yields no record at all: the reader's tolerance
//! policy drops it silently.
use vstd::prelude::*;
use crate::framing::trimmed;
use crate::framing::trim_bytes;
use crate::events::OllamaModel;
use crate::events::OllamaModelV;

verus! {

/// One line of a streaming chat response: optional message content, the
/// completion flag, and the total duration the engine reports at the end.
#[derive(Debug, Clone)]
pub struct ChatRecord {
    pub content: Option<String>,
    pub done: bool,
    pub total_duration: Option<u64>,
}

/// Mathematical image of a `ChatRecord`.
pub struct ChatRecordV {
    pub content: Option<Seq<char>>,
    pub done: bool,
    pub total_duration: Option<u64>,
}

impl View for ChatRecord {
    type V = ChatRecordV;

    open spec fn view(&self) -> ChatRecordV {
        ChatRecordV {
            content: match &self.content {
                Some(c) => Some(c@),
                None => None,
            },
            done: self.done,
            total_duration: self.total_duration,
        }
    }
}

impl DeepView for ChatRecord {
    type V = ChatRecordV;

    open spec fn deep_view(&self) -> ChatRecordV {
        self.view()
    }
}

/// One line of a streaming pull response: a status text and optional byte
/// counts.
#[derive(Debug, Clone)]
pub struct PullRecord {
    pub status: Option<String>,
    pub completed: Option<u64>,
    pub total: Option<u64>,
}

/// Mathematical image of a `PullRecord`.
pub struct PullRecordV {
    pub status: Option<Seq<char>>,
    pub completed: Option<u64>,
    pub total: Option<u64>,
}

impl View for PullRecord {
    type V = PullRecordV;

    open spec fn view(&self) -> PullRecordV {
        PullRecordV {
            status: match &self.status {
                Some(s) => Some(s@),
                None => None,
            },
            completed: self.completed,
            total: self.total,
        }
    }
}

impl DeepView for PullRecord {
    type V = PullRecordV;

    open spec fn deep_view(&self) -> PullRecordV {
        self.view()
    }
}

/// The text that lossy UTF-8 decoding makes of some bytes; it depends on the
/// bytes alone.
pub uninterp spec fn utf8_lossy_of(bytes: Seq<u8>) -> Seq<char>;

/// Relies on String::from_utf8_lossy: decodes bytes as UTF-8, putting the
/// replacement character where a sequence is invalid; the result depends on
/// the bytes alone.
#[verifier::external_body]
fn lossy_text_of_bytes(bytes: &Vec<u8>) -> (r: String)
    ensures
        r@ == utf8_lossy_of(bytes@),
{
    String::from_utf8_lossy(bytes.as_slice()).into_owned()
}

/// The chat record a line of text carries, if it has the expected shape; it
/// depends on the text alone.
pub uninterp spec fn chat_record_of(text: Seq<char>) -> Option<ChatRecordV>;

/// Relies on serde_json::from_str and the serde_json::Value accessors: the
/// line must be one JSON object holding a boolean `done`; `message`, when
/// present and not null, must be an object with a string `content`;
/// `total_duration`, when present and not null, must be an unsigned integer.
/// Any other shape yields no record. The result depends on the text alone.
#[verifier::external_body]
fn parse_chat_record(text: &str) -> (r: Option<ChatRecord>)
    ensures
        r.deep_view() == chat_record_of(text@),
{
    let v: serde_json::Value = serde_json::from_str(text).ok()?;
    let done = v.get("done")?.as_bool()?;
    let content = match v.get("message") {
        Some(m) if !m.is_null() => Some(m.get("content")?.as_str()?.to_string()),
        _ => None,
    };
    let total_duration = match v.get("total_duration") {
        Some(d) if !d.is_null() => Some(d.as_u64()?),
        _ => None,
    };
    Some(ChatRecord { content, done, total_duration })
}

/// The pull record a line of text carries, if it has the expected shape; it
/// depends on the text alone.
pub uninterp spec fn pull_record_of(text: Seq<char>) -> Option<PullRecordV>;

/// Relies on serde_json::from_str and the serde_json::Value accessors: the
/// line must be one JSON object; `status`, when present and not null, must
/// be a string, and `completed` and `total`, when present and not null, must
/// be unsigned integers. Any other shape yields no record. The result
/// depends on the text alone.
#[verifier::external_body]
fn parse_pull_record(text: &str) -> (r: Option<PullRecord>)
    ensures
        r.deep_view() == pull_record_of(text@),
{
    let v: serde_json::Value = serde_json::from_str(text).ok()?;
    let obj = v.as_object()?;
    let status = match obj.get("status") {
        Some(s) if !s.is_null() => Some(s.as_str()?.to_string()),
        _ => None,
    };
    let completed = match obj.get("completed") {
        Some(c) if !c.is_null() => Some(c.as_u64()?),
        _ => None,
    };
    let total = match obj.get("total") {
        Some(t) if !t.is_null() => Some(t.as_u64()?),
        _ => None,
    };
    Some(PullRecord { status, completed, total })
}

/// The models list a tags response body carries: the outer option is whether
/// the body parses at all, the inner whether it holds a `models` array; it
/// depends on the text alone.
pub uninterp spec fn tags_of(text: Seq<char>) -> Option<Option<Seq<OllamaModelV>>>;

/// Relies on serde_json::from_str and the serde_json::Value accessors: the
/// body must be one JSON object; when its `models` member is present and not
/// null it must be an array of objects each holding a string `name` and an
/// unsigned integer `size`, else the body carries no list. The result
/// depends on the text alone.
#[verifier::external_body]
fn parse_tags_body(text: &str) -> (r: Option<Option<Vec<OllamaModel>>>)
    ensures
        r.deep_view() == tags_of(text@),
{
    let v: serde_json::Value = serde_json::from_str(text).ok()?;
    let obj = v.as_object()?;
    let arr = match obj.get("models") {
        Some(m) if !m.is_null() => m.as_array()?,
        _ => return Some(None),
    };
    let mut out: Vec<OllamaModel> = Vec::new();
    for m in arr {
        out.push(OllamaModel { name: m.get("name")?.as_str()?.to_string(), size: m.get("size")?.as_u64()? });
    }
    Some(Some(out))
}

/// The record a raw line yields once trimmed: a blank line yields none, any
/// other is decoded and parsed.
pub open spec fn chat_record_of_line(line: Seq<u8>) -> Option<ChatRecordV> {
    if trimmed(line).len() == 0 {
        None
    } else {
        chat_record_of(utf8_lossy_of(trimmed(line)))
    }
}

/// As `chat_record_of_line`, for pull records.
pub open spec fn pull_record_of_line(line: Seq<u8>) -> Option<PullRecordV> {
    if trimmed(line).len() == 0 {
        None
    } else {
        pull_record_of(utf8_lossy_of(trimmed(line)))
    }
}

/// Trims one raw line and parses it as a chat record.
pub fn parse_chat_line(line: &Vec<u8>) -> (r: Option<ChatRecord>)
    ensures
        r.deep_view() == chat_record_of_line(line@),
{
    let t = trim_bytes(line);
    if t.len() == 0 {
        None
    } else {
        let s = lossy_text_of_bytes(&t);
        parse_chat_record(s.as_str())
    }
}

/// Trims one raw line and parses it as a pull record.
pub fn parse_pull_line(line: &Vec<u8>) -> (r: Option<PullRecord>)
    ensures
        r.deep_view() == pull_record_of_line(line@),
{
    let t = trim_bytes(line);
    if t.len() == 0 {
        None
    } else {
        let s = lossy_text_of_bytes(&t);
        parse_pull_record(s.as_str())
    }
}

/// The records a sequence of lines yields, in order: exactly the lines that
/// parse, each mapped to its record.
pub open spec fn records_of_lines<R>(
    lines: Seq<Seq<u8>>,
    parse: spec_fn(Seq<u8>) -> Option<R>,
) -> Seq<R> {
    lines.filter_map(parse)
}

/// Malformed lines change nothing: the records of a line sequence are the
/// records of just its well-formed lines, in their original order.
pub proof fn lemma_malformed_lines_skipped<R>(
    lines: Seq<Seq<u8>>,
    parse: spec_fn(Seq<u8>) -> Option<R>,
)
    ensures
        records_of_lines(lines, parse) == records_of_lines(
            lines.filter(|l: Seq<u8>| parse(l) is Some),
            parse,
        ),
    decreases lines.len(),
{
    reveal(Seq::filter);
    let pred = |l: Seq<u8>| parse(l) is Some;
    if lines.len() == 0 {
    } else {
        lemma_malformed_lines_skipped(lines.drop_last(), parse);
        let kept = lines.drop_last().filter(pred);
        if pred(lines.last()) {
            assert(lines.filter(pred) == kept.push(lines.last()));
            assert(kept.push(lines.last()).drop_last() =~= kept);
        } else {
            assert(lines.filter(pred) == kept);
        }
    }
}

/// Chunk boundaries do not matter to the records either: a stream fed
/// chunk by chunk yields the records of the stream delivered whole, the
/// trailing unterminated line never among them.
pub proof fn lemma_chunking_preserves_records<R>(
    chunks: Seq<Seq<u8>>,
    parse: spec_fn(Seq<u8>) -> Option<R>,
)
    ensures
        records_of_lines(crate::framing::scan_all(chunks).0, parse) == records_of_lines(
            crate::framing::lines_of(crate::framing::concat_chunks(chunks)),
            parse,
        ),
{
    crate::framing::lemma_chunk_boundaries_irrelevant(chunks);
}

/// Turns the body of a tags response into the models list: a missing list
/// means no models are installed, an unreadable body is the caller's error.
pub fn parse_models_response(body: &str) -> (r: Result<
    Vec<OllamaModel>,
    crate::events::BridgeError,
>)
    ensures
        match r {
            Ok(models) => {
                &&& tags_of(body@) is Some
                &&& match tags_of(body@).unwrap() {
                    Some(listed) => models.deep_view() == listed,
                    None => models.deep_view() == Seq::<OllamaModelV>::empty(),
                }
            },
            Err(e) => tags_of(body@) is None && e is BadResponse,
        },
{
    match parse_tags_body(body) {
        None => Err(
            crate::events::BridgeError::BadResponse {
                detail: String::from_str("the tags response is not a models object"),
            },
        ),
        Some(None) => {
            let empty: Vec<OllamaModel> = Vec::new();
            proof {
                assert(empty.deep_view() =~= Seq::<OllamaModelV>::empty());
            }
            Ok(empty)
        },
        Some(Some(models)) => Ok(models),
    }
}

} // verus!
