//! The decoded record of one commit.
use crate::oid::{hex_text, ObjectId};
use crate::text::trim_ascii_bytes;
use crate::trailers::{pair_texts, trailer_map, Trailers};
use gix::bstr::ByteSlice;
use gix::objs::commit::message::BodyRef;
use gix::objs::commit::MessageRef;
use vstd::prelude::*;

verus! {

/// A person's name and email as a commit records them.
pub struct Signature {
    pub name: String,
    pub email: String,
}

/// One commit, decoded and owned, independent of the walk that found it.
pub struct Commit {
    /// The forty hex digits of the commit id.
    pub id: String,
    /// The first line of the message.
    pub summary: String,
    /// The rest of the message without its trailers, trimmed; `None` where nothing is left.
    pub body: Option<String>,
    /// Commit time in seconds since the Unix epoch.
    pub seconds: i64,
    /// Commit time as a civil date-time in the local time zone.
    pub time: String,
    pub author: Signature,
    pub committer: Signature,
    pub trailers: Trailers,
}

/// The summary line that a commit message yields.
pub uninterp spec fn summary_of(message: Seq<u8>) -> Seq<char>;

/// The body of a commit message (what follows the title), if it has one.
pub uninterp spec fn body_of(message: Seq<u8>) -> Option<Seq<u8>>;

/// The `(token, value)` trailers at the end of a commit message, in order.
pub uninterp spec fn trailers_of(message: Seq<u8>) -> Seq<(Seq<char>, Seq<char>)>;

/// A message body without its trailer block.
pub uninterp spec fn without_trailer_of(body: Seq<u8>) -> Seq<u8>;

/// Bytes read as UTF-8, with invalid sequences replaced.
pub uninterp spec fn lossy_of(b: Seq<u8>) -> Seq<char>;

/// Relies on gix's `MessageRef::summary`: the title of the message with whitespace folded.
#[verifier::external_body]
fn message_summary(message: &[u8]) -> (r: String)
    ensures
        r@ == summary_of(message@),
{
    MessageRef::from_bytes(message).summary().to_string()
}

/// Relies on gix's `MessageRef::from_bytes`: the body that follows the message title.
#[verifier::external_body]
fn message_body(message: &[u8]) -> (r: Option<Vec<u8>>)
    ensures
        r matches Some(b) ==> body_of(message@) == Some(b@),
        r is None ==> body_of(message@) is None,
{
    MessageRef::from_bytes(message).body.map(|b| b.to_vec())
}

/// Relies on gix's `BodyRef::trailers` (as `CommitRef::message_trailers` uses it): the
/// trailers of the message body's last paragraph.
#[verifier::external_body]
fn message_trailers(message: &[u8]) -> (r: Vec<(String, String)>)
    ensures
        pair_texts(r@) == trailers_of(message@),
{
    let Some(body) = MessageRef::from_bytes(message).body() else { return Vec::new() };
    body.trailers().map(|t| (t.token.to_string(), t.value.to_string())).collect()
}

/// Relies on gix's `BodyRef::without_trailer`: the body up to its trailer block.
#[verifier::external_body]
fn strip_trailer(body: &[u8]) -> (r: Vec<u8>)
    ensures
        r@ == without_trailer_of(body@),
{
    BodyRef::from_bytes(body).without_trailer().to_vec()
}

/// Relies on bstr's `Display` for `BStr`: the bytes as UTF-8, invalid sequences replaced.
#[verifier::external_body]
fn lossy_text(b: &[u8]) -> (r: String)
    ensures
        r@ == lossy_of(b@),
{
    b.as_bstr().to_string()
}

/// Relies on `String::from_utf8`: ASCII bytes are valid UTF-8, one character per byte.
#[verifier::external_body]
fn ascii_text(b: Vec<u8>) -> (r: String)
    requires
        forall|i: int| 0 <= i < b@.len() ==> b@[i] < 128,
    ensures
        r@ == b@.map_values(|x: u8| x as char),
{
    String::from_utf8(b).unwrap_or_default()
}

/// The body of a commit: the message body, framed as the body parser expects, without its
/// trailers and surrounding ASCII whitespace; `None` where nothing is left.
pub open spec fn body_text(message: Seq<u8>) -> Option<Seq<char>> {
    match body_of(message) {
        None => None,
        Some(b) => {
            let t = crate::text::trim_ascii(without_trailer_of(seq![10u8, 10u8] + b));
            if t.len() == 0 {
                None
            } else {
                Some(lossy_of(t))
            }
        },
    }
}

/// The body of a commit message without trailers, trimmed; `None` where nothing is left.
pub fn message_body_text(message: &[u8]) -> (r: Option<String>)
    ensures
        r matches Some(s) ==> body_text(message@) == Some(s@),
        r is None ==> body_text(message@) is None,
{
    match message_body(message) {
        None => None,
        Some(b) => {
            let mut framed: Vec<u8> = Vec::new();
            framed.push(10u8);
            framed.push(10u8);
            crate::text::push_bytes(&mut framed, b.as_slice());
            assert(framed@ =~= seq![10u8, 10u8] + b@);
            let stripped = strip_trailer(framed.as_slice());
            let trimmed = trim_ascii_bytes(stripped.as_slice());
            if trimmed.len() == 0 {
                None
            } else {
                Some(lossy_text(trimmed.as_slice()))
            }
        },
    }
}

/// The lowercase hex text of an id.
pub fn id_text(id: &ObjectId) -> (r: String)
    requires
        id.wf(),
    ensures
        r@ == hex_text(id.view()).map_values(|x: u8| x as char),
{
    let hex = id.to_hex();
    proof {
        assert forall|i: int| 0 <= i < hex@.len() implies hex@[i] < 128 by {
            crate::oid::lemma_hex_text_len(id.view());
            crate::oid::lemma_hex_text_index(id.view(), i / 2);
            assert(i == 2 * (i / 2) || i == 2 * (i / 2) + 1);
        }
    }
    ascii_text(hex)
}

impl Commit {
    /// Decodes the record of a commit from its id, time, signatures and raw message.
    pub fn from_message(
        id: &ObjectId,
        seconds: i64,
        time: String,
        author: Signature,
        committer: Signature,
        message: &[u8],
    ) -> (r: Commit)
        requires
            id.wf(),
        ensures
            r.id@ == hex_text(id.view()).map_values(|x: u8| x as char),
            r.summary@ == summary_of(message@),
            r.body matches Some(s) ==> body_text(message@) == Some(s@),
            r.body is None ==> body_text(message@) is None,
            r.seconds == seconds,
            r.time == time,
            r.author == author,
            r.committer == committer,
            r.trailers.wf(),
            r.trailers@ == trailer_map(trailers_of(message@)),
    {
        let pairs = message_trailers(message);
        Commit {
            id: id_text(id),
            summary: message_summary(message),
            body: message_body_text(message),
            seconds,
            time,
            author,
            committer,
            trailers: Trailers::from_pairs(pairs),
        }
    }

    /// The commit time as a civil date-time in the local time zone.
    pub fn time(&self) -> (r: &String)
        ensures
            r == self.time,
    {
        &self.time
    }
}

} // verus!
