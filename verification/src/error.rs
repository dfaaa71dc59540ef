//! The closed error taxonomy and the codec that carries it across the
//! RPC boundary.
//!
//! Every failure that crosses the process boundary travels as a transport
//! status: a generic numeric failure code plus a message string of the form
//! `"[<Kind>] <detail>"`. The leading bracketed tag alone identifies the
//! error kind; the code carries no information. Decoding is total: a message
//! with no recognized tag degenerates to `Internal` with the raw message
//! preserved in the detail.

use vstd::prelude::*;

verus! {

/// The closed set of domain errors. All except `Internal` are considered
/// user-facing. Four kinds carry a free-form descriptive string.
#[derive(Clone, Debug, PartialEq)]
pub enum Error {
    Abort,
    Config(String),
    Internal(String),
    Parse(String),
    ReadOnly,
    Serialization,
    Value(String),
    NotLeader,
}

/// Mathematical model of [`Error`]: the same taxonomy with payload strings
/// abstracted to character sequences.
pub enum ErrorModel {
    Abort,
    Config(Seq<char>),
    Internal(Seq<char>),
    Parse(Seq<char>),
    ReadOnly,
    Serialization,
    Value(Seq<char>),
    NotLeader,
}

impl View for Error {
    type V = ErrorModel;

    open spec fn view(&self) -> ErrorModel {
        match self {
            Error::Abort => ErrorModel::Abort,
            Error::Config(s) => ErrorModel::Config(s@),
            Error::Internal(s) => ErrorModel::Internal(s@),
            Error::Parse(s) => ErrorModel::Parse(s@),
            Error::ReadOnly => ErrorModel::ReadOnly,
            Error::Serialization => ErrorModel::Serialization,
            Error::Value(s) => ErrorModel::Value(s@),
            Error::NotLeader => ErrorModel::NotLeader,
        }
    }
}

/// The generic failure code every encoded status carries. It bears no
/// information: the message's leading tag alone discriminates the kind.
pub const FAILURE_CODE: u32 = 13;

/// The transport-level view of a failure: a generic status code plus a
/// human-readable message. This is all the RPC layer can carry; the codec
/// packs the error kind into the message's leading bracketed tag.
pub struct TransportStatus {
    pub code: u32,
    pub message: String,
}

/// The bracketed tag that identifies an error kind on the wire.
pub open spec fn kind_tag(e: ErrorModel) -> Seq<char> {
    match e {
        ErrorModel::Abort => "[Abort]"@,
        ErrorModel::Config(_) => "[Config]"@,
        ErrorModel::Internal(_) => "[Internal]"@,
        ErrorModel::Parse(_) => "[Parse]"@,
        ErrorModel::ReadOnly => "[ReadOnly]"@,
        ErrorModel::Serialization => "[Serialization]"@,
        ErrorModel::Value(_) => "[Value]"@,
        ErrorModel::NotLeader => "[NotLeader]"@,
    }
}

/// The descriptive text of an error: the carried string for the four
/// string-bearing kinds, a fixed human-readable phrase for the others.
pub open spec fn detail_of(e: ErrorModel) -> Seq<char> {
    match e {
        ErrorModel::Abort => "Operation aborted"@,
        ErrorModel::Config(s) => s,
        ErrorModel::Internal(s) => s,
        ErrorModel::Parse(s) => s,
        ErrorModel::ReadOnly => "Read-only transaction"@,
        ErrorModel::Serialization => "Serialization failure, retry transaction"@,
        ErrorModel::Value(s) => s,
        ErrorModel::NotLeader => "Not leader"@,
    }
}

/// The wire message for an error: its tag, a space, and its detail.
pub open spec fn encode_spec(e: ErrorModel) -> Seq<char> {
    kind_tag(e) + " "@ + detail_of(e)
}

/// Index of the first space in `m`, or `m.len()` if `m` holds none.
pub open spec fn first_space(m: Seq<char>) -> int
    decreases m.len(),
{
    if m.len() == 0 {
        0
    } else if m[0] == ' ' {
        0
    } else {
        1 + first_space(m.drop_first())
    }
}

/// The message's first whitespace-delimited token: everything before the
/// first space.
pub open spec fn tag_of(m: Seq<char>) -> Seq<char> {
    m.subrange(0, first_space(m))
}

/// Everything after the message's first space; empty if there is no space.
pub open spec fn rest_of(m: Seq<char>) -> Seq<char> {
    if first_space(m) < m.len() {
        m.subrange(first_space(m) + 1, m.len() as int)
    } else {
        Seq::<char>::empty()
    }
}

/// Whether the message's first token is one of the eight known tags.
pub open spec fn recognized(m: Seq<char>) -> bool {
    ||| tag_of(m) == "[Config]"@
    ||| tag_of(m) == "[Internal]"@
    ||| tag_of(m) == "[Parse]"@
    ||| tag_of(m) == "[Value]"@
    ||| tag_of(m) == "[Abort]"@
    ||| tag_of(m) == "[ReadOnly]"@
    ||| tag_of(m) == "[Serialization]"@
    ||| tag_of(m) == "[NotLeader]"@
}

/// The detail recorded when no tag is recognized: the raw message,
/// quoted, so that nothing is silently dropped on a protocol mismatch.
pub open spec fn unknown_detail(m: Seq<char>) -> Seq<char> {
    "Unknown error type: \""@ + m + "\""@
}

/// The error reconstructed from a wire message. Total over all messages:
/// an unrecognized tag falls back to `Internal` carrying the raw message.
pub open spec fn decode_spec(m: Seq<char>) -> ErrorModel {
    let tag = tag_of(m);
    let rest = rest_of(m);
    if tag == "[Config]"@ {
        ErrorModel::Config(rest)
    } else if tag == "[Internal]"@ {
        ErrorModel::Internal(rest)
    } else if tag == "[Parse]"@ {
        ErrorModel::Parse(rest)
    } else if tag == "[Value]"@ {
        ErrorModel::Value(rest)
    } else if tag == "[Abort]"@ {
        ErrorModel::Abort
    } else if tag == "[ReadOnly]"@ {
        ErrorModel::ReadOnly
    } else if tag == "[Serialization]"@ {
        ErrorModel::Serialization
    } else if tag == "[NotLeader]"@ {
        ErrorModel::NotLeader
    } else {
        ErrorModel::Internal(unknown_detail(m))
    }
}

/// `first_space` points at a space (or at the end) and nothing before it
/// is a space.
pub proof fn lemma_first_space_props(m: Seq<char>)
    ensures
        0 <= first_space(m) <= m.len(),
        forall|j: int| 0 <= j < first_space(m) ==> m[j] != ' ',
        first_space(m) < m.len() ==> m[first_space(m)] == ' ',
    decreases m.len(),
{
    if m.len() == 0 {
    } else if m[0] == ' ' {
    } else {
        lemma_first_space_props(m.drop_first());
        assert forall|j: int| 0 <= j < first_space(m) implies m[j] != ' ' by {
            if j > 0 {
                assert(m.drop_first()[j - 1] == m[j]);
            }
        }
        if first_space(m) < m.len() {
            assert(m.drop_first()[first_space(m) - 1] == m[first_space(m)]);
        }
    }
}

/// Any index that points at a space (or at the end) with no space before
/// it is exactly `first_space`.
pub proof fn lemma_first_space_unique(m: Seq<char>, i: int)
    requires
        0 <= i <= m.len(),
        forall|j: int| 0 <= j < i ==> m[j] != ' ',
        i < m.len() ==> m[i] == ' ',
    ensures
        first_space(m) == i,
{
    lemma_first_space_props(m);
}

/// None of the eight tags contains a space.
proof fn lemma_tags_space_free()
    ensures
        forall|j: int| 0 <= j < "[Config]"@.len() ==> "[Config]"@[j] != ' ',
        forall|j: int| 0 <= j < "[Internal]"@.len() ==> "[Internal]"@[j] != ' ',
        forall|j: int| 0 <= j < "[Parse]"@.len() ==> "[Parse]"@[j] != ' ',
        forall|j: int| 0 <= j < "[Value]"@.len() ==> "[Value]"@[j] != ' ',
        forall|j: int| 0 <= j < "[Abort]"@.len() ==> "[Abort]"@[j] != ' ',
        forall|j: int| 0 <= j < "[ReadOnly]"@.len() ==> "[ReadOnly]"@[j] != ' ',
        forall|j: int| 0 <= j < "[Serialization]"@.len() ==> "[Serialization]"@[j] != ' ',
        forall|j: int| 0 <= j < "[NotLeader]"@.len() ==> "[NotLeader]"@[j] != ' ',
{
    reveal_strlit("[Config]");
    reveal_strlit("[Internal]");
    reveal_strlit("[Parse]");
    reveal_strlit("[Value]");
    reveal_strlit("[Abort]");
    reveal_strlit("[ReadOnly]");
    reveal_strlit("[Serialization]");
    reveal_strlit("[NotLeader]");
}

/// Splitting a message of the form `tag + " " + detail` at its first space
/// recovers the tag and the detail exactly, provided the tag itself holds
/// no space.
proof fn lemma_split_tagged_message(tag: Seq<char>, detail: Seq<char>)
    requires
        forall|j: int| 0 <= j < tag.len() ==> tag[j] != ' ',
    ensures
        first_space(tag + " "@ + detail) == tag.len(),
        tag_of(tag + " "@ + detail) == tag,
        rest_of(tag + " "@ + detail) == detail,
{
    reveal_strlit(" ");
    let m = tag + " "@ + detail;
    assert(m.len() == tag.len() + 1 + detail.len());
    assert forall|j: int| 0 <= j < tag.len() implies m[j] != ' ' by {
        assert(m[j] == tag[j]);
    }
    assert(m[tag.len() as int] == ' ');
    lemma_first_space_unique(m, tag.len() as int);
    assert(tag_of(m) =~= tag);
    assert(rest_of(m) =~= detail);
}

/// The codec is lossless: decoding an encoded error yields the error back,
/// for every kind and every associated string, spaces and emptiness
/// included. (For the kinds without an associated string the fixed default
/// phrase is discarded on decode, which is exactly what reconstructs the
/// original value.)
pub proof fn lemma_codec_round_trip(e: ErrorModel)
    ensures
        decode_spec(encode_spec(e)) == e,
{
    lemma_tags_space_free();
    lemma_split_tagged_message(kind_tag(e), detail_of(e));
    reveal_strlit("[Config]");
    reveal_strlit("[Internal]");
    reveal_strlit("[Parse]");
    reveal_strlit("[Value]");
    reveal_strlit("[Abort]");
    reveal_strlit("[ReadOnly]");
    reveal_strlit("[Serialization]");
    reveal_strlit("[NotLeader]");
    let m = encode_spec(e);
    match e {
        ErrorModel::Abort => {
            assert(tag_of(m) != "[Parse]"@) by {
                assert("[Abort]"@[1] != "[Parse]"@[1]);
            }
            assert(tag_of(m) != "[Value]"@) by {
                assert("[Abort]"@[1] != "[Value]"@[1]);
            }
        },
        ErrorModel::ReadOnly => {
            assert(tag_of(m) != "[Internal]"@) by {
                assert("[ReadOnly]"@[1] != "[Internal]"@[1]);
            }
        },
        ErrorModel::Value(_) => {
            assert(tag_of(m) != "[Parse]"@) by {
                assert("[Value]"@[1] != "[Parse]"@[1]);
            }
        },
        _ => {},
    }
}

/// Decoding is total and lossy only in a bounded way: a message whose
/// first token is not a recognized tag always decodes to `Internal`, and
/// the recorded detail contains the raw message in full.
pub proof fn lemma_decode_fallback_total(m: Seq<char>)
    requires
        !recognized(m),
    ensures
        decode_spec(m) == ErrorModel::Internal(unknown_detail(m)),
        exists|i: int|
            0 <= i && i + m.len() <= unknown_detail(m).len() && #[trigger] unknown_detail(
                m,
            ).subrange(i, i + m.len()) == m,
{
    reveal_strlit("Unknown error type: \"");
    let p = "Unknown error type: \""@;
    assert(unknown_detail(m).subrange(p.len() as int, p.len() as int + m.len() as int) =~= m);
}

impl Error {
    /// The human-readable text of this error: the carried string for the
    /// string-bearing kinds, a fixed phrase for the others.
    pub fn display_string(&self) -> (r: String)
        ensures
            r@ == detail_of(self@),
    {
        match self {
            Error::Abort => String::from_str("Operation aborted"),
            Error::Config(s) => s.clone(),
            Error::Internal(s) => s.clone(),
            Error::Parse(s) => s.clone(),
            Error::ReadOnly => String::from_str("Read-only transaction"),
            Error::Serialization => String::from_str("Serialization failure, retry transaction"),
            Error::Value(s) => s.clone(),
            Error::NotLeader => String::from_str("Not leader"),
        }
    }
}

/// Character-for-character string comparison.
fn str_eq(a: &str, b: &str) -> (r: bool)
    ensures
        r == (a@ == b@),
{
    let a_len = a.unicode_len();
    let b_len = b.unicode_len();
    if a_len != b_len {
        return false;
    }
    let mut i: usize = 0;
    while i < a_len
        invariant
            i <= a_len,
            a_len == a@.len(),
            b_len == b@.len(),
            a_len == b_len,
            forall|j: int| 0 <= j < i ==> a@[j] == b@[j],
        decreases a_len - i,
    {
        if a.get_char(i) != b.get_char(i) {
            return false;
        }
        i += 1;
    }
    proof {
        assert(a@ =~= b@);
    }
    true
}

/// Index of the first space in `s`, or its length if it holds none.
fn find_first_space(s: &str) -> (i: usize)
    ensures
        i as int == first_space(s@),
        i <= s@.len(),
{
    let len = s.unicode_len();
    let mut i: usize = 0;
    while i < len
        invariant
            i <= len,
            len == s@.len(),
            forall|j: int| 0 <= j < i ==> s@[j] != ' ',
        decreases len - i,
    {
        if s.get_char(i) == ' ' {
            proof {
                lemma_first_space_unique(s@, i as int);
            }
            return i;
        }
        i += 1;
    }
    proof {
        lemma_first_space_unique(s@, len as int);
    }
    len
}

/// Builds the wire message `"[<Kind>] <detail>"` for an error.
fn compose_message(tag: &str, detail: &str) -> (r: String)
    ensures
        r@ == tag@ + " "@ + detail@,
{
    let mut m = String::from_str(tag);
    m.append(" ");
    m.append(detail);
    m
}

/// Encodes an error for the RPC boundary: a status with the generic
/// failure code and the message `"[<Kind>] <detail>"`.
pub fn to_transport_status(err: Error) -> (r: TransportStatus)
    ensures
        r.message@ == encode_spec(err@),
        r.code == FAILURE_CODE,
{
    let message = match &err {
        Error::Abort => compose_message("[Abort]", "Operation aborted"),
        Error::Config(s) => compose_message("[Config]", s.as_str()),
        Error::Internal(s) => compose_message("[Internal]", s.as_str()),
        Error::Parse(s) => compose_message("[Parse]", s.as_str()),
        Error::ReadOnly => compose_message("[ReadOnly]", "Read-only transaction"),
        Error::Serialization => compose_message(
            "[Serialization]",
            "Serialization failure, retry transaction",
        ),
        Error::Value(s) => compose_message("[Value]", s.as_str()),
        Error::NotLeader => compose_message("[NotLeader]", "Not leader"),
    };
    TransportStatus { code: FAILURE_CODE, message }
}

/// Decodes a status received from a remote peer. Total: any message whose
/// first token is not a recognized tag yields `Internal` carrying the raw
/// message, so nothing is silently dropped on a protocol mismatch.
pub fn from_transport_status(status: TransportStatus) -> (r: Error)
    ensures
        r@ == decode_spec(status.message@),
{
    let msg: &str = status.message.as_str();
    let len = msg.unicode_len();
    let cut = find_first_space(msg);
    let tag: &str = msg.substring_char(0, cut);
    let rest: String = if cut < len {
        msg.substring_char(cut + 1, len).to_owned()
    } else {
        proof {
            reveal_strlit("");
            assert(""@ =~= rest_of(msg@));
        }
        String::from_str("")
    };
    if str_eq(tag, "[Config]") {
        Error::Config(rest)
    } else if str_eq(tag, "[Internal]") {
        Error::Internal(rest)
    } else if str_eq(tag, "[Parse]") {
        Error::Parse(rest)
    } else if str_eq(tag, "[Value]") {
        Error::Value(rest)
    } else if str_eq(tag, "[Abort]") {
        Error::Abort
    } else if str_eq(tag, "[ReadOnly]") {
        Error::ReadOnly
    } else if str_eq(tag, "[Serialization]") {
        Error::Serialization
    } else if str_eq(tag, "[NotLeader]") {
        Error::NotLeader
    } else {
        let mut detail = String::from_str("Unknown error type: \"");
        detail.append(msg);
        detail.append("\"");
        Error::Internal(detail)
    }
}

} // verus!
