use vstd::prelude::*;

use crate::record::{Standup, StandupView};

verus! {

/// The comment line that heads every record file.
pub const WARNING: &'static str = "// Do not rename or delete arrays. Only update elements.\n";

/// The field that records written before the history existed lack.
pub const EMPTY_HISTORY: &'static str = "history: [],\n";

/// What the decoder says of a record file that lacks the history field.
pub const MISSING_HISTORY: &'static str = "missing field `history`";

/// Why the decoder refused a text.
#[derive(Clone, Debug)]
pub enum DecodeError {
    /// The text holds nothing but white space and comments.
    EmptyInput,
    /// The text holds something other than a record.
    ExpectedStruct,
    /// A message from the record's own shape, such as a missing field.
    Message(String),
    /// Any other syntax error, with its description.
    Other(String),
}

/// Why a record file could not be loaded.
#[derive(Clone, Debug)]
pub enum LoadError {
    /// The text is not a record and not the one known older shape.
    Corrupt(String),
    /// The older shape was reported, but the text has no field separator.
    NoSeparator,
    /// The text still does not decode once the history field is added.
    Unrecoverable(String),
}

/// What a load does next.
#[derive(Clone, Debug)]
pub enum LoadStep {
    /// Start a new, empty record and write it out.
    Create,
    /// Decode the file's text.
    Decode,
    /// The record is loaded.
    Ready(Standup),
    /// Decode this patched text, once, in place of the file's text.
    Migrate(String),
    /// The load fails.
    Fail(LoadError),
}

/// Position of the last comma of `t`, or -1 when there is none.
pub open spec fn last_comma(t: Seq<char>) -> int
    decreases t.len(),
{
    if t.len() == 0 {
        -1
    } else if t.last() == ',' {
        t.len() - 1
    } else {
        last_comma(t.drop_last())
    }
}

/// `t` with the empty history field put right after its last comma; nothing
/// when `t` holds no comma.
pub open spec fn patched(t: Seq<char>) -> Option<Seq<char>> {
    let p = last_comma(t);
    if p < 0 {
        None
    } else {
        Some(t.take(p + 1) + EMPTY_HISTORY@ + t.skip(p + 1))
    }
}

/// A load starts afresh exactly when the file is empty.
pub open spec fn starts_fresh(content: Seq<char>) -> bool {
    content.len() == 0
}

proof fn lemma_last_comma_at(t: Seq<char>, i: int)
    requires
        0 <= i < t.len(),
        t[i] == ',',
        forall|j: int| i < j < t.len() ==> t[j] != ',',
    ensures
        last_comma(t) == i,
    decreases t.len(),
{
    if i < t.len() - 1 {
        assert(t.last() != ',');
        lemma_last_comma_at(t.drop_last(), i);
    }
}

proof fn lemma_last_comma_none(t: Seq<char>)
    requires
        forall|j: int| 0 <= j < t.len() ==> t[j] != ',',
    ensures
        last_comma(t) == -1,
    decreases t.len(),
{
    if t.len() > 0 {
        assert(t.last() != ',');
        lemma_last_comma_none(t.drop_last());
    }
}

/// The record text as stored: the warning line, then the encoded record.
pub fn frame(body: &str) -> (r: String)
    ensures
        r@ == WARNING@ + body@,
{
    let r = String::from_str(WARNING);
    r.concat(body)
}

/// Adds the empty history field after the last comma of `text`, the final
/// field separator of a record written before the history existed.
pub fn insert_empty_history(text: &str) -> (r: Option<String>)
    ensures
        match r {
            Some(s) => patched(text@) == Some(s@),
            None => patched(text@) is None,
        },
{
    let n = text.unicode_len();
    let mut i: usize = n;
    while i > 0
        invariant
            i <= n,
            n == text@.len(),
            forall|j: int| i <= j < n ==> text@[j] != ',',
        decreases i,
    {
        if text.get_char(i - 1) == ',' {
            proof {
                lemma_last_comma_at(text@, i - 1);
            }
            let head = text.substring_char(0, i);
            let tail = text.substring_char(i, n);
            let r = String::from_str(head).concat(EMPTY_HISTORY).concat(tail);
            proof {
                assert(text@.take(i as int) =~= head@);
                assert(text@.skip(i as int) =~= tail@);
            }
            return Some(r);
        }
        i = i - 1;
    }
    proof {
        lemma_last_comma_none(text@);
    }
    None
}

/// The first step of a load, from the file's whole text: an empty file is
/// started afresh, any other text is decoded.
pub fn first_step(content: &str) -> (r: LoadStep)
    ensures
        r is Create <==> starts_fresh(content@),
        r is Decode <==> !starts_fresh(content@),
{
    if content.unicode_len() == 0 {
        LoadStep::Create
    } else {
        LoadStep::Decode
    }
}

/// The step after the file's text `content` was decoded to `decoded`: a
/// record is ready; text that is no record gives an empty record; the
/// missing history field leads to one decode of the patched text; any other
/// refusal fails the load.
pub fn after_decode(content: &str, decoded: Result<Standup, DecodeError>) -> (r: LoadStep)
    ensures
        match decoded {
            Ok(s) => r is Ready && r->Ready_0@ == s@,
            Err(DecodeError::EmptyInput) => r is Ready && r->Ready_0@ == StandupView::empty(),
            Err(DecodeError::ExpectedStruct) => r is Ready && r->Ready_0@
                == StandupView::empty(),
            Err(DecodeError::Message(m)) => if m@ == MISSING_HISTORY@ {
                match patched(content@) {
                    Some(p) => r is Migrate && r->Migrate_0@ == p,
                    None => r is Fail && r->Fail_0 is NoSeparator,
                }
            } else {
                r is Fail && r->Fail_0 is Corrupt && r->Fail_0->Corrupt_0@ == m@
            },
            Err(DecodeError::Other(m)) => r is Fail && r->Fail_0 is Corrupt
                && r->Fail_0->Corrupt_0@ == m@,
        },
{
    match decoded {
        Ok(s) => LoadStep::Ready(s),
        Err(DecodeError::EmptyInput) => LoadStep::Ready(Standup::new()),
        Err(DecodeError::ExpectedStruct) => LoadStep::Ready(Standup::new()),
        Err(DecodeError::Message(m)) => {
            let missing = String::from_str(MISSING_HISTORY);
            if m == missing {
                match insert_empty_history(content) {
                    Some(p) => LoadStep::Migrate(p),
                    None => LoadStep::Fail(LoadError::NoSeparator),
                }
            } else {
                LoadStep::Fail(LoadError::Corrupt(m))
            }
        },
        Err(DecodeError::Other(m)) => LoadStep::Fail(LoadError::Corrupt(m)),
    }
}

/// The end of a load after the patched text of `Migrate` was decoded: the
/// record, or a failure; no further repair is tried.
pub fn after_migration(decoded: Result<Standup, DecodeError>) -> (r: Result<Standup, LoadError>)
    ensures
        match decoded {
            Ok(s) => r is Ok && r->Ok_0@ == s@,
            Err(DecodeError::EmptyInput) => r is Err && r->Err_0 is Unrecoverable,
            Err(DecodeError::ExpectedStruct) => r is Err && r->Err_0 is Unrecoverable,
            Err(DecodeError::Message(m)) => r is Err && r->Err_0 is Unrecoverable
                && r->Err_0->Unrecoverable_0@ == m@,
            Err(DecodeError::Other(m)) => r is Err && r->Err_0 is Unrecoverable
                && r->Err_0->Unrecoverable_0@ == m@,
        },
{
    match decoded {
        Ok(s) => Ok(s),
        Err(DecodeError::EmptyInput) => Err(
            LoadError::Unrecoverable(String::from_str("no record in the text")),
        ),
        Err(DecodeError::ExpectedStruct) => Err(
            LoadError::Unrecoverable(String::from_str("expected a record")),
        ),
        Err(DecodeError::Message(m)) => Err(LoadError::Unrecoverable(m)),
        Err(DecodeError::Other(m)) => Err(LoadError::Unrecoverable(m)),
    }
}


} // verus!
