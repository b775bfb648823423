//! Facts about the caller and the machine: who is asking, in which groups,
//! on which host, and which file the requested command is.

use vstd::prelude::*;
use vstd::string::{StrSliceExecFns, StringExecFns};
use vstd::utf8::{
    decode_utf8, encode_utf8, encode_utf8_decode_utf8, encode_utf8_valid_utf8,
    is_ascii_chars_encode_utf8, valid_utf8,
};
use crate::error::RudoError;

verus! {

/// The facts gathered for one invocation.
#[derive(Debug, Clone, PartialEq, Eq)]
pub struct ResolvedIdentity {
    /// The name of the user who runs the tool.
    pub username: String,
    /// The names of that user's groups, in the order the system gave them.
    pub groups: Vec<String>,
    /// The name of this machine.
    pub hostname: String,
    /// The file the requested command resolves to.
    pub command_path: String,
    /// The process id of the shell the tool was started from.
    pub parent_pid: u32,
}

/// The character sequences of a list of strings.
pub open spec fn texts(names: Seq<String>) -> Seq<Seq<char>> {
    Seq::new(names.len(), |i: int| names[i]@)
}

/// The error of `String::from_utf8`; nothing of it is visible here.
#[verifier::external_type_specification]
#[verifier::external_body]
pub struct ExFromUtf8Error(std::string::FromUtf8Error);

/// Calls `String::from_utf8`.
///
/// Trusted: the call succeeds exactly on valid UTF-8, and the string then
/// holds the characters that the bytes encode.
#[verifier::external_body]
fn utf8_text(bytes: Vec<u8>) -> (text: Result<String, std::string::FromUtf8Error>)
    ensures
        text is Ok == valid_utf8(bytes@),
        text matches Ok(decoded) ==> decoded@ == decode_utf8(bytes@),
{
    String::from_utf8(bytes)
}

/// The first position at or after `from` that holds no zero character, or
/// the length where there is none.
pub open spec fn skip_nuls(text: Seq<char>, from: int) -> int
    decreases text.len() - from,
{
    if 0 <= from < text.len() && text[from] == '\0' {
        skip_nuls(text, from + 1)
    } else {
        from
    }
}

/// The end of the text between `start` and `to` once the zero characters
/// at its end are dropped.
pub open spec fn drop_nuls(text: Seq<char>, start: int, to: int) -> int
    decreases to,
{
    if 0 <= start < to <= text.len() && text[to - 1] == '\0' {
        drop_nuls(text, start, to - 1)
    } else {
        to
    }
}

/// The text without the zero characters at its start and at its end.
pub open spec fn trim_nul(text: Seq<char>) -> Seq<char> {
    let start = skip_nuls(text, 0);
    text.subrange(start, drop_nuls(text, start, text.len() as int))
}

/// The path of the requested command: the file that the search of the
/// executable path found, or the name as given where it found none.
pub open spec fn command_path_spec(found: Option<Seq<char>>, command: Seq<char>) -> Seq<char> {
    match found {
        Some(path) => path,
        None => command,
    }
}

/// The host name that the system's answer spells out: the text of the
/// buffer without the zero characters around it. `BadHostname` where the
/// query failed or the buffer is not UTF-8.
pub open spec fn hostname_spec(status: int, buffer: Seq<u8>) -> Result<Seq<char>, RudoError> {
    if status != 0 || !valid_utf8(buffer) {
        Err(RudoError::BadHostname)
    } else {
        Ok(trim_nul(decode_utf8(buffer)))
    }
}

/// The user name that the system's answer spells out. `BadUsername` where
/// the system knows no name for the caller or the name is not UTF-8.
pub open spec fn username_spec(found: Option<Seq<u8>>) -> Result<Seq<char>, RudoError> {
    match found {
        Some(bytes) => if valid_utf8(bytes) {
            Ok(decode_utf8(bytes))
        } else {
            Err(RudoError::BadUsername)
        },
        None => Err(RudoError::BadUsername),
    }
}

/// Resolves the requested command to a path.
///
/// `found` is what the search of the executable path gave for `command`.
/// Where it gave nothing, the name itself stands for the path; this never
/// fails.
pub fn get_command_path(found: Option<String>, command: &str) -> (path: Result<String, RudoError>)
    ensures
        path matches Ok(text) && text@ == command_path_spec(
            match found {
                Some(file) => Some(file@),
                None => None,
            },
            command@,
        ),
{
    match found {
        Some(file) => Ok(file),
        None => Ok(String::from_str(command)),
    }
}

/// Reads the caller's name from the system's answer.
pub fn get_username(found: Option<Vec<u8>>) -> (name: Result<String, RudoError>)
    ensures
        match name {
            Ok(text) => username_spec(
                match found {
                    Some(bytes) => Some(bytes@),
                    None => None,
                },
            ) == Ok::<Seq<char>, RudoError>(text@),
            Err(e) => username_spec(
                match found {
                    Some(bytes) => Some(bytes@),
                    None => None,
                },
            ) == Err::<Seq<char>, RudoError>(e),
        },
{
    match found {
        Some(bytes) => match utf8_text(bytes) {
            Ok(text) => Ok(text),
            Err(_) => Err(RudoError::BadUsername),
        },
        None => Err(RudoError::BadUsername),
    }
}

/// The caller's groups: those the system listed, or none where the query
/// failed.
pub fn get_groups(found: Option<Vec<String>>) -> (groups: Vec<String>)
    ensures
        groups@ == match found {
            Some(listed) => listed@,
            None => Seq::<String>::empty(),
        },
{
    match found {
        Some(listed) => listed,
        None => Vec::new(),
    }
}

/// Removes the zero characters at the start and at the end of `text`.
pub fn trim_zero_padding(text: &str) -> (trimmed: String)
    ensures
        trimmed@ == trim_nul(text@),
{
    let len = text.unicode_len();
    let mut start: usize = 0;
    while start < len && text.get_char(start) == '\0'
        invariant
            len == text@.len(),
            start <= len,
            skip_nuls(text@, 0) == skip_nuls(text@, start as int),
        decreases len - start,
    {
        start += 1;
    }
    let mut end: usize = len;
    while end > start && text.get_char(end - 1) == '\0'
        invariant
            len == text@.len(),
            start <= end <= len,
            drop_nuls(text@, start as int, len as int) == drop_nuls(text@, start as int, end as int),
        decreases end,
    {
        end -= 1;
    }
    String::from_str(text.substring_char(start, end))
}

/// Reads the host name from the system's answer: the status of the query
/// and the buffer it filled.
pub fn get_hostname(status: i32, buffer: Vec<u8>) -> (name: Result<String, RudoError>)
    ensures
        match name {
            Ok(text) => hostname_spec(status as int, buffer@) == Ok::<Seq<char>, RudoError>(text@),
            Err(e) => hostname_spec(status as int, buffer@) == Err::<Seq<char>, RudoError>(e),
        },
{
    if status != 0 {
        return Err(RudoError::BadHostname);
    }
    match utf8_text(buffer) {
        Ok(text) => Ok(trim_zero_padding(text.as_str())),
        Err(_) => Err(RudoError::BadHostname),
    }
}

/// `skip_nuls` stops at the one position that all zero characters from
/// `from` on lead up to.
pub proof fn lemma_skip_nuls(text: Seq<char>, from: int, stop: int)
    requires
        0 <= from <= stop <= text.len(),
        forall|j: int| from <= j < stop ==> text[j] == '\0',
        stop < text.len() ==> text[stop] != '\0',
    ensures
        skip_nuls(text, from) == stop,
    decreases stop - from,
{
    if from < stop {
        lemma_skip_nuls(text, from + 1, stop);
    }
}

/// `drop_nuls` stops at the one position that all zero characters up to
/// `to` follow.
pub proof fn lemma_drop_nuls(text: Seq<char>, start: int, to: int, stop: int)
    requires
        0 <= start <= stop <= to <= text.len(),
        forall|j: int| stop <= j < to ==> text[j] == '\0',
        start < stop ==> text[stop - 1] != '\0',
    ensures
        drop_nuls(text, start, to) == stop,
    decreases to - stop,
{
    if stop < to {
        lemma_drop_nuls(text, start, to - 1, stop);
    }
}

/// Where `skip_nuls` stops: after zero characters only, and not before one.
pub proof fn lemma_skip_nuls_stops(text: Seq<char>, from: int)
    requires
        0 <= from <= text.len(),
    ensures
        from <= skip_nuls(text, from) <= text.len(),
        forall|j: int| from <= j < skip_nuls(text, from) ==> text[j] == '\0',
        skip_nuls(text, from) < text.len() ==> text[skip_nuls(text, from)] != '\0',
    decreases text.len() - from,
{
    if from < text.len() && text[from] == '\0' {
        lemma_skip_nuls_stops(text, from + 1);
    }
}

/// Where `drop_nuls` stops: before zero characters only, and not after one.
pub proof fn lemma_drop_nuls_stops(text: Seq<char>, start: int, to: int)
    requires
        0 <= start <= to <= text.len(),
    ensures
        start <= drop_nuls(text, start, to) <= to,
        forall|j: int| drop_nuls(text, start, to) <= j < to ==> text[j] == '\0',
        start < drop_nuls(text, start, to) ==> text[drop_nuls(text, start, to) - 1] != '\0',
    decreases to,
{
    if start < to && text[to - 1] == '\0' {
        lemma_drop_nuls_stops(text, start, to - 1);
    }
}

/// A trimmed text neither starts nor ends with a zero character, and what
/// was cut off on either side are zero characters only.
pub proof fn lemma_trim_nul_is_trimmed(text: Seq<char>)
    ensures
        trim_nul(text).len() > 0 ==> trim_nul(text).first() != '\0' && trim_nul(text).last() != '\0',
        exists|before: Seq<char>, after: Seq<char>|
            text == before + trim_nul(text) + after && (forall|j: int|
                0 <= j < before.len() ==> before[j] == '\0') && (forall|j: int|
                0 <= j < after.len() ==> after[j] == '\0'),
{
    let start = skip_nuls(text, 0);
    lemma_skip_nuls_stops(text, 0);
    let end = drop_nuls(text, start, text.len() as int);
    lemma_drop_nuls_stops(text, start, text.len() as int);
    let before = text.subrange(0, start);
    let after = text.subrange(end, text.len() as int);
    assert(text =~= before + trim_nul(text) + after);
}

/// A text that neither starts nor ends with a zero character comes back
/// whole when zero characters are put around it and trimmed away.
pub proof fn lemma_trim_nul_of_padded(name: Seq<char>, before: Seq<char>, after: Seq<char>)
    requires
        name.len() > 0 ==> name.first() != '\0' && name.last() != '\0',
        forall|j: int| 0 <= j < before.len() ==> before[j] == '\0',
        forall|j: int| 0 <= j < after.len() ==> after[j] == '\0',
    ensures
        trim_nul(before + name + after) == name,
{
    let text = before + name + after;
    let a = before.len() as int;
    let b = a + name.len();
    if name.len() > 0 {
        assert(text[a] == name[0]);
        assert(text[b - 1] == name[name.len() - 1]);
        lemma_skip_nuls(text, 0, a);
        lemma_drop_nuls(text, a, text.len() as int, b);
        assert(text.subrange(a, b) =~= name);
    } else {
        lemma_skip_nuls(text, 0, text.len() as int);
        assert(text.subrange(text.len() as int, text.len() as int) =~= name);
    }
}

/// Encoding a text and then another gives the encoding of the two joined.
pub proof fn lemma_encode_utf8_concat(first: Seq<char>, second: Seq<char>)
    ensures
        encode_utf8(first + second) == encode_utf8(first) + encode_utf8(second),
    decreases first.len(),
{
    if first.len() == 0 {
        assert(first + second =~= second);
        assert(encode_utf8(first) + encode_utf8(second) =~= encode_utf8(second));
    } else {
        assert((first + second).drop_first() =~= first.drop_first() + second);
        lemma_encode_utf8_concat(first.drop_first(), second);
        assert(encode_utf8(first + second) =~= encode_utf8(first) + encode_utf8(second));
    }
}

/// A buffer that holds a name in UTF-8 followed by zero bytes decodes to
/// that name, provided the name itself neither starts nor ends with a zero
/// character.
pub proof fn lemma_padded_hostname(name: Seq<char>, padding: nat)
    requires
        name.len() > 0 ==> name.first() != '\0' && name.last() != '\0',
    ensures
        hostname_spec(0, encode_utf8(name) + Seq::new(padding, |i: int| 0u8)) == Ok::<
            Seq<char>,
            RudoError,
        >(name),
{
    let zeros = Seq::new(padding, |i: int| 0u8);
    let nuls = Seq::new(padding, |i: int| '\0');
    is_ascii_chars_encode_utf8(nuls);
    assert(encode_utf8(nuls) =~= zeros);
    lemma_encode_utf8_concat(name, nuls);
    encode_utf8_valid_utf8(name + nuls);
    encode_utf8_decode_utf8(name + nuls);
    lemma_trim_nul_of_padded(name, Seq::empty(), nuls);
    assert(Seq::<char>::empty() + name + nuls =~= name + nuls);
}

} // verus!
