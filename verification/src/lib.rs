//! An error-context library: a failure carries a message, an optional causal
//! chain, and structured annotations, and renders deterministically as text
//! or as a JSON document.
//!
//! A record is an ordinary value: the chainable operations consume it and
//! hand back the extended record, and a clone is an independent copy, never
//! an alias onto shared state.

use vstd::prelude::*;

pub mod json;
pub mod kv;
pub mod message;
pub mod text;
pub mod value;

pub use crate::message::Message;
pub use crate::message::MessageWrapper;
pub use crate::value::BasicType;

use crate::json::{json_quote, json_str_lit};
use crate::kv::{kv_json, kv_json_pretty, kv_text, kvs_map, KeyValue};
use crate::text::quote_text;
use crate::text::quoted;
use crate::value::ValueModel;

verus! {

/// The mathematical content of an error record: its message, its causal
/// predecessor, and its annotation entries in storage order.
pub struct RecordModel {
    pub message: Seq<char>,
    pub cause: Option<CauseModel>,
    pub info: Seq<(Seq<char>, ValueModel)>,
}

/// The mathematical content of a causal link: either a nested record of the
/// same shape, or the rendered text of an externally-typed failure.
pub enum CauseModel {
    Record(Box<RecordModel>),
    External(Seq<char>),
}

/// A causal link: a nested error record, or an externally-typed failure
/// carried as its rendered text.
pub enum Cause {
    Record(Box<ErrorRecord>),
    External(String),
}

/// A failure value: a message, an optional cause, and an annotation map.
/// It is returned, never thrown; the chainable operations each hand back
/// the extended record.
pub struct ErrorRecord {
    message: String,
    cause: Option<Cause>,
    info: KeyValue,
}

impl Cause {
    /// The mathematical content of the causal link.
    pub open spec fn model(self) -> CauseModel
        decreases self,
    {
        match self {
            Cause::Record(b) => CauseModel::Record(Box::new((*b).model())),
            Cause::External(s) => CauseModel::External(s@),
        }
    }

    /// Well-formed: a nested record is well-formed; an external text always
    /// is.
    pub open spec fn wf(self) -> bool
        decreases self,
    {
        match self {
            Cause::Record(b) => (*b).wf(),
            Cause::External(_) => true,
        }
    }
}

impl ErrorRecord {
    /// The mathematical content of the record.
    pub closed spec fn model(self) -> RecordModel
        decreases self,
    {
        RecordModel {
            message: self.message@,
            cause: match self.cause {
                Option::None => None,
                Option::Some(c) => Some(c.model()),
            },
            info: self.info.entries_model(),
        }
    }

    /// Well-formed: the annotation map keeps its keys strictly ascending,
    /// here and in every nested cause.
    pub closed spec fn wf(self) -> bool
        decreases self,
    {
        self.info.wf() && match self.cause {
            Option::Some(c) => c.wf(),
            Option::None => true,
        }
    }

    /// The mapping that the record's annotations hold.
    pub open spec fn info_map(self) -> Map<Seq<char>, ValueModel> {
        kvs_map(self@.info)
    }
}

impl Clone for Cause {
    /// An independent copy of the causal link, nested records included.
    fn clone(&self) -> (r: Cause)
        ensures
            r.model() == self.model(),
            self.wf() ==> r.wf(),
        decreases *self,
    {
        match self {
            Cause::Record(b) => Cause::Record(Box::new((**b).clone())),
            Cause::External(s) => Cause::External(s.clone()),
        }
    }
}

impl Clone for ErrorRecord {
    /// An independent copy, never an alias: the copy holds the same message,
    /// cause chain and annotations, and mutating either record afterwards
    /// leaves the other untouched.
    fn clone(&self) -> (r: ErrorRecord)
        ensures
            r@ == self@,
            self.wf() ==> r.wf(),
        decreases *self,
    {
        ErrorRecord {
            message: self.message.clone(),
            cause: match &self.cause {
                Option::None => Option::None,
                Option::Some(c) => Option::Some(c.clone()),
            },
            info: self.info.clone(),
        }
    }
}

impl View for ErrorRecord {
    type V = RecordModel;

    closed spec fn view(&self) -> RecordModel {
        self.model()
    }
}

/// The canonical text of a record: the message, then the cause rendered
/// recursively in full, then the annotations when any are present, in that
/// fixed field order.
pub open spec fn record_text(m: RecordModel) -> Seq<char>
    decreases m,
{
    "Error { message: "@ + quoted(m.message) + (match m.cause {
        Option::None => Seq::<char>::empty(),
        Option::Some(c) => ", existing_error: "@ + cause_text(c),
    }) + (if m.info.len() > 0 {
        ", info: "@ + kv_text(m.info)
    } else {
        Seq::<char>::empty()
    }) + " }"@
}

/// The canonical text of a causal link: the nested record in full, or the
/// external failure's own text.
pub open spec fn cause_text(c: CauseModel) -> Seq<char>
    decreases c,
{
    match c {
        CauseModel::Record(b) => record_text(*b),
        CauseModel::External(t) => t,
    }
}

/// The JSON document of a record, sharing the text form's one canonical
/// structure: the message, then the cause when one is present, then the
/// annotation object when any annotations are present, in that fixed field
/// order.
pub open spec fn record_json(m: RecordModel) -> Seq<char>
    decreases m,
{
    seq!['{'] + "\"message\":"@ + json_str_lit(m.message) + (match m.cause {
        Option::None => Seq::<char>::empty(),
        Option::Some(c) => seq![','] + "\"existing_error\":"@ + cause_json(c),
    }) + (if m.info.len() > 0 {
        seq![','] + "\"info\":"@ + kv_json(m.info)
    } else {
        Seq::<char>::empty()
    }) + seq!['}']
}

/// The JSON form of a causal link: the nested record's document, or the
/// external failure's text as a JSON string.
pub open spec fn cause_json(c: CauseModel) -> Seq<char>
    decreases c,
{
    match c {
        CauseModel::Record(b) => record_json(*b),
        CauseModel::External(t) => json_str_lit(t),
    }
}

/// The JSON document of a record, pretty form at the given indent: the same
/// fields in the same fixed order, each on its own line, nested parts
/// indented one step further.
pub open spec fn record_json_pretty(m: RecordModel, ind: Seq<char>) -> Seq<char>
    decreases m,
{
    seq!['{', '\n'] + (ind + seq![' ', ' ']) + "\"message\": "@ + json_str_lit(m.message) + (
    match m.cause {
        Option::None => Seq::<char>::empty(),
        Option::Some(c) => seq![',', '\n'] + (ind + seq![' ', ' ']) + "\"existing_error\": "@
            + cause_json_pretty(c, ind + seq![' ', ' ']),
    }) + (if m.info.len() > 0 {
        seq![',', '\n'] + (ind + seq![' ', ' ']) + "\"info\": "@ + kv_json_pretty(
            m.info,
            ind + seq![' ', ' '],
        )
    } else {
        Seq::<char>::empty()
    }) + seq!['\n'] + ind + seq!['}']
}

/// The pretty JSON form of a causal link at the given indent.
pub open spec fn cause_json_pretty(c: CauseModel, ind: Seq<char>) -> Seq<char>
    decreases c,
{
    match c {
        CauseModel::Record(b) => record_json_pretty(*b, ind),
        CauseModel::External(t) => json_str_lit(t),
    }
}

/// Two records with equal message, equal (recursively equal) cause and equal
/// annotation-map content render byte-identically, as text and as JSON —
/// however their annotations were inserted.
pub proof fn lemma_record_render_deterministic(a: ErrorRecord, b: ErrorRecord)
    requires
        a.wf(),
        b.wf(),
        a@.message == b@.message,
        a@.cause == b@.cause,
        a.info_map() == b.info_map(),
    ensures
        record_text(a@) == record_text(b@),
        record_json(a@) == record_json(b@),
        record_json_pretty(a@, Seq::empty()) == record_json_pretty(b@, Seq::empty()),
{
    crate::kv::lemma_sorted_entries_unique(a@.info, b@.info);
}

impl Default for ErrorRecord {
    /// A record with an empty message, no cause and no annotations.
    fn default() -> (r: ErrorRecord)
        ensures
            r.wf(),
            r@.message.len() == 0,
            r@.cause is None,
            r@.info.len() == 0,
    {
        ErrorRecord { message: String::new(), cause: Option::None, info: KeyValue::new() }
    }
}

impl ErrorRecord {
    /// Constructs a record with the given message, no cause and no
    /// annotations.
    pub fn new(message: &str) -> (r: ErrorRecord)
        ensures
            r.wf(),
            r@.message == message@,
            r@.cause is None,
            r@.info.len() == 0,
    {
        ErrorRecord {
            message: String::from_str(message),
            cause: Option::None,
            info: KeyValue::new(),
        }
    }

    /// Wraps a prior failure: the record takes the given message and the
    /// prior failure as its cause, keeping its annotations.
    pub fn err(self, cause: Cause, message: &'static str) -> (r: ErrorRecord)
        requires
            self.wf(),
            cause.wf(),
        ensures
            r.wf(),
            r@.message == message@,
            r@.cause == Some(cause.model()),
            r@.info == self@.info,
    {
        let text = Message::from(MessageWrapper::from(message)).into_string();
        ErrorRecord { message: text, cause: Option::Some(cause), info: self.info }
    }

    /// Whether the record already carries an annotation under the given key.
    pub fn has_note(&self, key: &str) -> (r: bool)
        ensures
            r == self.info_map().contains_key(key@),
    {
        self.info.contains_key(key)
    }

    /// Appends one annotation under a fresh key and hands the record back,
    /// so that calls compose fluently. A repeated key within one record is a
    /// call-site bug, ruled out by the precondition.
    pub fn note<A>(self, key: &'static str, value: A) -> (r: ErrorRecord) where
        BasicType: From<A>,

        requires
            self.wf(),
            !self.info_map().contains_key(key@),
        ensures
            r.wf(),
            r@.message == self@.message,
            r@.cause == self@.cause,
            r@.info.len() == self@.info.len() + 1,
            r.info_map().contains_key(key@),
            r.info_map().remove(key@) == self.info_map(),
            <BasicType as vstd::std_specs::convert::FromSpec<A>>::obeys_from_spec()
                ==> r.info_map() == self.info_map().insert(
                key@,
                <BasicType as vstd::std_specs::convert::FromSpec<A>>::from_spec(value)@,
            ),
    {
        let ErrorRecord { message, cause, mut info } = self;
        info.insert(key, value);
        ErrorRecord { message, cause, info }
    }

    /// Renders the record in its canonical text form; the same text serves
    /// display and debug purposes alike.
    pub fn render_text(&self) -> (r: String)
        ensures
            r@ == record_text(self@),
        decreases *self,
    {
        let mut r = String::from_str("Error { message: ");
        proof {
            reveal_strlit("Error { message: ");
        }
        let q = quote_text(self.message.as_str());
        r.append(q.as_str());
        match &self.cause {
            Option::None => {},
            Option::Some(c) => {
                r.append(", existing_error: ");
                proof {
                    reveal_strlit(", existing_error: ");
                }
                match c {
                    Cause::Record(b) => {
                        let ct = (**b).render_text();
                        r.append(ct.as_str());
                    },
                    Cause::External(t) => {
                        r.append(t.as_str());
                    },
                }
            },
        }
        if self.info.len() > 0 {
            r.append(", info: ");
            proof {
                reveal_strlit(", info: ");
            }
            let it = self.info.render_text();
            r.append(it.as_str());
        }
        r.append(" }");
        proof {
            reveal_strlit(" }");
            assert(r@ =~= record_text(self@));
        }
        r
    }

    /// Serializes the record into its compact JSON representation.
    pub fn to_json(&self) -> (r: String)
        ensures
            r@ == record_json(self@),
        decreases *self,
    {
        let mut r = String::from_str("{\"message\":");
        proof {
            reveal_strlit("{\"message\":");
            reveal_strlit("\"message\":");
            assert("{\"message\":"@ =~= seq!['{'] + "\"message\":"@);
        }
        let q = json_quote(self.message.as_str());
        r.append(q.as_str());
        match &self.cause {
            Option::None => {},
            Option::Some(c) => {
                r.append(",\"existing_error\":");
                proof {
                    reveal_strlit(",\"existing_error\":");
                    reveal_strlit("\"existing_error\":");
                    assert(",\"existing_error\":"@ =~= seq![','] + "\"existing_error\":"@);
                }
                match c {
                    Cause::Record(b) => {
                        let cj = (**b).to_json();
                        r.append(cj.as_str());
                    },
                    Cause::External(t) => {
                        let cj = json_quote(t.as_str());
                        r.append(cj.as_str());
                    },
                }
            },
        }
        if self.info.len() > 0 {
            r.append(",\"info\":");
            proof {
                reveal_strlit(",\"info\":");
                reveal_strlit("\"info\":");
                assert(",\"info\":"@ =~= seq![','] + "\"info\":"@);
            }
            let ij = self.info.render_json();
            r.append(ij.as_str());
        }
        r.append("}");
        proof {
            reveal_strlit("}");
            assert("}"@ =~= seq!['}']);
            assert(r@ =~= record_json(self@));
        }
        r
    }

    /// Serializes the record into a human readable, pretty-printed JSON
    /// representation.
    pub fn to_json_pretty(&self) -> (r: String)
        ensures
            r@ == record_json_pretty(self@, Seq::empty()),
    {
        let r = self.json_pretty_at("");
        proof {
            reveal_strlit("");
            assert(""@ =~= Seq::<char>::empty());
        }
        r
    }

    fn json_pretty_at(&self, ind: &str) -> (r: String)
        ensures
            r@ == record_json_pretty(self@, ind@),
        decreases *self,
    {
        let mut pad = String::from_str(ind);
        pad.append("  ");
        proof {
            reveal_strlit("  ");
            assert(pad@ =~= ind@ + seq![' ', ' ']);
        }
        let mut r = String::from_str("{\n");
        proof {
            reveal_strlit("{\n");
            assert(r@ =~= seq!['{', '\n']);
        }
        r.append(pad.as_str());
        r.append("\"message\": ");
        proof {
            reveal_strlit("\"message\": ");
        }
        let q = json_quote(self.message.as_str());
        r.append(q.as_str());
        match &self.cause {
            Option::None => {},
            Option::Some(c) => {
                r.append(",\n");
                r.append(pad.as_str());
                r.append("\"existing_error\": ");
                proof {
                    reveal_strlit(",\n");
                    reveal_strlit("\"existing_error\": ");
                    assert(",\n"@ =~= seq![',', '\n']);
                }
                match c {
                    Cause::Record(b) => {
                        let cj = (**b).json_pretty_at(pad.as_str());
                        r.append(cj.as_str());
                    },
                    Cause::External(t) => {
                        let cj = json_quote(t.as_str());
                        r.append(cj.as_str());
                    },
                }
            },
        }
        if self.info.len() > 0 {
            r.append(",\n");
            r.append(pad.as_str());
            r.append("\"info\": ");
            proof {
                reveal_strlit(",\n");
                reveal_strlit("\"info\": ");
                assert(",\n"@ =~= seq![',', '\n']);
            }
            let ij = self.info.render_json_pretty(pad.as_str());
            r.append(ij.as_str());
        }
        r.append("\n");
        r.append(ind);
        r.append("}");
        proof {
            reveal_strlit("\n");
            reveal_strlit("}");
            assert("\n"@ =~= seq!['\n']);
            assert("}"@ =~= seq!['}']);
            assert(r@ =~= record_json_pretty(self@, ind@));
        }
        r
    }
}

} // verus!
