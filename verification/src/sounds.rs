//! Sound files and the codes that name them.

use rand::Rng;
use vstd::prelude::*;
use vstd::string::StringExecFns;

use crate::error::Error;
use crate::text::chars_of;

verus! {

/// What is recorded about a sound.
#[derive(Debug)]
pub struct SoundMetadata {
    pub code: String,
    pub author: String,
    /// When the sound was added, in seconds since the Unix epoch.
    pub created_at: i64,
    pub source_url: Option<String>,
    pub start_time: String,
    /// Length of the sound, in milliseconds.
    pub length_ms: u64,
}

/// A sound file in the sounds directory.
#[derive(Debug)]
pub struct SoundFile {
    pub code: String,
    pub file_path: String,
    pub metadata: Option<SoundMetadata>,
}

/// Whether `c` is a letter of the ASCII alphabet.
pub open spec fn is_ascii_letter(c: char) -> bool {
    ('a' <= c && c <= 'z') || ('A' <= c && c <= 'Z')
}

/// Whether `code` is a sound code: exactly four ASCII letters.
pub open spec fn is_sound_code(code: Seq<char>) -> bool {
    code.len() == 4 && forall|i: int| 0 <= i < code.len() ==> is_ascii_letter(#[trigger] code[i])
}

/// `name` below the directory `dir`: an absolute name stands alone; else
/// the two are joined by one separator, which a directory that is empty or
/// ends in a separator brings along.
pub open spec fn joined_path(dir: Seq<char>, name: Seq<char>) -> Seq<char> {
    if name.len() > 0 && name[0] == '/' {
        name
    } else if dir.len() == 0 || dir.last() == '/' {
        dir + name
    } else {
        dir + seq!['/'] + name
    }
}

/// The name of the file that holds the sound `code`.
pub open spec fn sound_file_name(code: Seq<char>) -> Seq<char> {
    code + ".mp3"@
}

/// Joins `name` to the directory `dir`.
pub fn join_path(dir: &str, name: &str) -> (path: String)
    ensures
        path@ == joined_path(dir@, name@),
{
    let d = chars_of(dir);
    let n = chars_of(name);
    if n.len() > 0 && n[0] == '/' {
        String::from_str(name)
    } else if d.len() == 0 || d[d.len() - 1] == '/' {
        String::from_str(dir).concat(name)
    } else {
        let mut path = String::from_str(dir);
        path.push('/');
        path.append(name);
        proof {
            assert(path@ =~= dir@ + seq!['/'] + name@);
        }
        path
    }
}

impl SoundFile {
    /// The sound `code` in the directory `sounds_dir`, without metadata.
    pub fn new(code: String, sounds_dir: &str) -> (file: Self)
        ensures
            file.code == code,
            file.file_path@ == joined_path(sounds_dir@, sound_file_name(code@)),
            file.metadata is None,
    {
        let name = code.clone().concat(".mp3");
        let file_path = join_path(sounds_dir, name.as_str());
        SoundFile { code, file_path, metadata: None }
    }

    /// The path of the file as text.
    pub fn path_str(&self) -> (path: Option<&str>)
        ensures
            path matches Some(p) && p@ == self.file_path@,
    {
        Some(self.file_path.as_str())
    }
}

/// Whether `code` is a sound code: exactly four ASCII letters.
pub fn validate_sound_code(code: &str) -> (valid: bool)
    ensures
        valid == is_sound_code(code@),
{
    let chars = chars_of(code);
    if chars.len() != 4 {
        return false;
    }
    let mut i: usize = 0;
    while i < chars.len()
        invariant
            i <= chars@.len(),
            chars@ == code@,
            forall|k: int| 0 <= k < i ==> is_ascii_letter(#[trigger] chars@[k]),
        decreases chars@.len() - i,
    {
        let c = chars[i];
        let letter = (c >= 'a' && c <= 'z') || (c >= 'A' && c <= 'Z');
        if !letter {
            return false;
        }
        i += 1;
    }
    true
}

/// `Rng::gen_range` of the crate `rand`, called on the generator of the
/// thread (`thread_rng`) with the range from zero up to `count`, `count`
/// itself left out: a value of that range. Which one, chance decides. An
/// empty range makes the call panic, so `count` is not zero.
#[verifier::external_body]
fn random_below(count: u64) -> (offset: u64)
    requires
        count > 0,
    ensures
        offset < count,
{
    rand::thread_rng().gen_range(0..count)
}

/// Picks at random the position of one of `count` sounds; none where there
/// is no sound.
pub fn random_sound_offset(count: u64) -> (offset: Option<u64>)
    ensures
        offset is Some <==> count > 0,
        offset matches Some(o) ==> o < count,
{
    if count == 0 {
        None
    } else {
        Some(random_below(count))
    }
}

/// The capital of an ASCII letter; every other character as it is.
pub open spec fn ascii_upper_char(c: char) -> char {
    if 'a' <= c && c <= 'z' {
        ((c as u32) - 32) as char
    } else {
        c
    }
}

/// `text` with its ASCII letters made capitals.
pub open spec fn ascii_upper(text: Seq<char>) -> Seq<char> {
    Seq::new(text.len(), |i: int| ascii_upper_char(text[i]))
}

/// The message that refuses `code`.
pub open spec fn invalid_code(code: Seq<char>) -> Seq<char> {
    "Invalid sound code: "@ + code
}

/// The key under which the sound `code` is kept: the code in capitals. A
/// code that is not four ASCII letters is refused.
pub fn sound_key(code: &str) -> (key: Result<String, Error>)
    ensures
        key is Ok <==> is_sound_code(code@),
        key matches Ok(k) ==> k@ == ascii_upper(code@) && is_sound_code(k@),
        key matches Err(e) ==> e is InvalidInput && e.message() == invalid_code(code@),
{
    if !validate_sound_code(code) {
        let mut message = String::from_str("Invalid sound code: ");
        message.append(code);
        return Err(Error::InvalidInput(message));
    }
    let chars = chars_of(code);
    let mut key = String::new();
    let mut i: usize = 0;
    while i < chars.len()
        invariant
            i <= chars@.len(),
            chars@ == code@,
            key@ == ascii_upper(code@).take(i as int),
        decreases chars@.len() - i,
    {
        let c = chars[i];
        let upper = if c >= 'a' && c <= 'z' {
            ((c as u8) - 32) as char
        } else {
            c
        };
        key.push(upper);
        proof {
            assert(key@ =~= ascii_upper(code@).take(i + 1));
        }
        i += 1;
    }
    proof {
        assert(ascii_upper(code@).take(chars@.len() as int) =~= ascii_upper(code@));
        assert forall|k: int| 0 <= k < key@.len() implies is_ascii_letter(#[trigger] key@[k]) by {
            assert(is_ascii_letter(code@[k]));
        }
    }
    Ok(key)
}


} // verus!
