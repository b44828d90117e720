//! The actor keys: a **human** key that may write directly, and an
//! **automation** key that may only propose.
use super::{error, error_response, Reply};
use crate::text::{join3, join5, number_text, same_text};
use axum::http::{HeaderMap, HeaderValue};
use rand::RngCore;
use vstd::prelude::*;
use vstd::utf8::encode_utf8;

verus! {

/// File name of the persisted keys, inside the module's data directory.
pub const KEY_FILE: &'static str = "actor-keys.json";

/// The variable that supplies the human key.
pub const ENV_HUMAN: &'static str = "SIN90_HUMAN_KEY";

/// The variable that supplies the automation key.
pub const ENV_AUTOMATION: &'static str = "SIN90_AUTOMATION_KEY";

/// The mode a key file is created with: its owner may read and write it.
pub const KEY_FILE_MODE: u32 = 0o600;

/// Generated keys are 48 hex characters; this is the floor for supplied ones.
pub const MIN_KEY_LEN: usize = 32;

/// The header that carries the caller's key.
pub const ACTOR_KEY_HEADER: &'static str = "x-sin90-actor-key";

#[verifier::external_type_specification]
#[verifier::external_body]
#[verifier::reject_recursive_types(T)]
pub struct ExHeaderMap<T>(HeaderMap<T>);

#[verifier::external_type_specification]
#[verifier::external_body]
pub struct ExHeaderValue(HeaderValue);

/// The headers of a request: for each name, in lower case, the bytes of the
/// first value.
pub uninterp spec fn header_contents(headers: HeaderMap<HeaderValue>) -> Map<Seq<char>, Seq<u8>>;

/// The bytes of a header value.
pub uninterp spec fn value_bytes(value: HeaderValue) -> Seq<u8>;

/// Visible ASCII, space and tab.
pub open spec fn header_text_byte(b: u8) -> bool {
    32 <= b < 127 || b == 9
}

/// A lower-case header name.
pub open spec fn header_name(name: Seq<char>) -> bool {
    &&& 0 < name.len() <= 64
    &&& forall|i: int|
        0 <= i < name.len() ==> ('a' <= #[trigger] name[i] <= 'z' || '0' <= name[i] <= '9'
            || name[i] == '-')
}

/// Every byte of a header value is text.
pub open spec fn is_header_text(bytes: Seq<u8>) -> bool {
    forall|i: int| 0 <= i < bytes.len() ==> header_text_byte(#[trigger] bytes[i])
}

/// The first header of that name, if it is text.
pub open spec fn header_text(contents: Map<Seq<char>, Seq<u8>>, name: Seq<char>) -> Option<Seq<u8>> {
    if contents.contains_key(name) && is_header_text(contents[name]) {
        Some(contents[name])
    } else {
        None
    }
}

/// Calls `HeaderMap::get`, which finds the first value of a header by its
/// name.
#[verifier::external_body]
fn first_value<'a>(headers: &'a HeaderMap<HeaderValue>, name: &str) -> (r: Option<&'a HeaderValue>)
    requires
        header_name(name@),
    ensures
        match r {
            Some(value) => header_contents(*headers).contains_key(name@) && value_bytes(*value)
                == header_contents(*headers)[name@],
            None => !header_contents(*headers).contains_key(name@),
        },
{
    headers.get(name)
}

/// Calls `HeaderValue::to_str`, which gives the value as text exactly when all
/// its bytes are visible ASCII, spaces or tabs.
#[verifier::external_body]
fn value_text<'a>(value: &'a HeaderValue) -> (r: Option<&'a str>)
    ensures
        match r {
            Some(s) => is_header_text(value_bytes(*value)) && encode_utf8(s@) == value_bytes(
                *value,
            ),
            None => !is_header_text(value_bytes(*value)),
        },
{
    value.to_str().ok()
}

/// The text of the first header called `name`, if it is text.
pub fn get_header<'a>(headers: &'a HeaderMap<HeaderValue>, name: &str) -> (r: Option<&'a str>)
    requires
        header_name(name@),
    ensures
        match r {
            Some(s) => header_text(header_contents(*headers), name@) == Some(encode_utf8(s@)),
            None => header_text(header_contents(*headers), name@) is None,
        },
{
    match first_value(headers, name) {
        Some(value) => value_text(value),
        None => None,
    }
}

/// Why keys are refused or cannot be had.
#[derive(Debug)]
pub enum KeyError {
    /// The named key is shorter than `MIN_KEY_LEN` bytes.
    TooShort(&'static str),
    /// The named key holds something else than printable ASCII without spaces.
    NotHeaderSafe(&'static str),
    Identical,
    /// Only one of the two variables is set.
    PartialEnv,
    /// Neither variables nor a data directory.
    NoSource,
    /// The key file is open to group or other.
    TooOpen { path: String, mode: u32 },
    /// Working on `path` failed; `source` describes how.
    Io { path: String, source: String },
    /// The key file does not parse; `source` describes how.
    Parse { path: String, source: String },
}

impl KeyError {
    /// The error in words.
    pub open spec fn words(&self) -> Seq<char> {
        match *self {
            KeyError::TooShort(which) => which@ + " key is too short (minimum 32 characters)"@,
            KeyError::NotHeaderSafe(which) => which@
                + " key must be printable ASCII with no spaces (it travels in an HTTP header)"@,
            KeyError::Identical => "human and automation keys must differ"@,
            KeyError::PartialEnv
            => "set both SIN90_HUMAN_KEY and SIN90_AUTOMATION_KEY, or neither"@,
            KeyError::NoSource
            => "no key source: set SIN90_HUMAN_KEY/SIN90_AUTOMATION_KEY, or give a data directory"@,
            KeyError::TooOpen { path, mode } => path@
                + " is readable or writable by group/other (mode "@ + crate::text::digits(
                mode as nat,
                8,
            ) + "); run `chmod 600` on it"@,
            KeyError::Io { path, source } => path@ + ": "@ + source@,
            KeyError::Parse { path, source } => path@ + " is not a valid key file: "@ + source@,
        }
    }

    /// The error in words.
    pub fn message(&self) -> (r: String)
        ensures
            r@ == self.words(),
    {
        match self {
            KeyError::TooShort(which) => {
                let mut m: String = (*which).to_owned();
                m.append(" key is too short (minimum 32 characters)");
                m
            },
            KeyError::NotHeaderSafe(which) => {
                let mut m: String = (*which).to_owned();
                m.append(
                    " key must be printable ASCII with no spaces (it travels in an HTTP header)",
                );
                m
            },
            KeyError::Identical => "human and automation keys must differ".to_owned(),
            KeyError::PartialEnv
            => "set both SIN90_HUMAN_KEY and SIN90_AUTOMATION_KEY, or neither".to_owned(),
            KeyError::NoSource
            => "no key source: set SIN90_HUMAN_KEY/SIN90_AUTOMATION_KEY, or give a data directory".to_owned(),
            KeyError::TooOpen { path, mode } => {
                let octal = number_text(*mode, 8);
                let mut m: String = join3(
                    path.as_str(),
                    " is readable or writable by group/other (mode ",
                    octal.as_str(),
                );
                m.append("); run `chmod 600` on it");
                m
            },
            KeyError::Io { path, source } => join3(path.as_str(), ": ", source.as_str()),
            KeyError::Parse { path, source } => join3(
                path.as_str(),
                " is not a valid key file: ",
                source.as_str(),
            ),
        }
    }
}

/// Who calls.
#[derive(Debug, Clone, Copy, PartialEq, Eq, Structural)]
pub enum Actor {
    Human,
    Automation,
}

/// The two keys.
#[derive(Debug, Clone)]
pub struct ActorKeys {
    pub human: String,
    pub automation: String,
}

/// Every byte can travel in a header: printable ASCII without spaces.
pub open spec fn header_safe(key: Seq<u8>) -> bool {
    forall|i: int| 0 <= i < key.len() ==> 0x21 <= #[trigger] key[i] <= 0x7e
}

/// What is wrong with a key, if anything.
pub open spec fn key_fault(which: &'static str, key: Seq<char>) -> Option<KeyError> {
    if encode_utf8(key).len() < MIN_KEY_LEN {
        Some(KeyError::TooShort(which))
    } else if !header_safe(encode_utf8(key)) {
        Some(KeyError::NotHeaderSafe(which))
    } else {
        None
    }
}

fn validate_key(which: &'static str, key: &str) -> (r: Result<(), KeyError>)
    ensures
        match r {
            Ok(_) => key_fault(which, key@) is None,
            Err(e) => key_fault(which, key@) == Some(e),
        },
{
    let bytes: &[u8] = key.as_bytes();
    if bytes.len() < MIN_KEY_LEN {
        return Err(KeyError::TooShort(which));
    }
    let mut i: usize = 0;
    while i < bytes.len()
        invariant
            bytes@ == encode_utf8(key@),
            bytes@.len() >= MIN_KEY_LEN,
            i <= bytes@.len(),
            forall|j: int| 0 <= j < i ==> 0x21 <= #[trigger] bytes@[j] <= 0x7e,
        decreases bytes@.len() - i,
    {
        if bytes[i] < 0x21 || bytes[i] > 0x7e {
            assert(!(0x21 <= bytes@[i as int] <= 0x7e));
            return Err(KeyError::NotHeaderSafe(which));
        }
        i = i + 1;
    }
    Ok(())
}

/// Whether two byte strings are equal, looking at every byte whatever the
/// earlier ones held.
fn constant_time_eq(a: &[u8], b: &[u8]) -> (r: bool)
    ensures
        r == (a@ == b@),
{
    if a.len() != b.len() {
        return false;
    }
    let mut diff: u8 = 0;
    let mut i: usize = 0;
    while i < a.len()
        invariant
            i <= a@.len(),
            a@.len() == b@.len(),
            (diff == 0) == (forall|j: int| 0 <= j < i ==> a@[j] == b@[j]),
        decreases a@.len() - i,
    {
        let x: u8 = a[i];
        let y: u8 = b[i];
        assert((diff | (x ^ y)) == 0 <==> (diff == 0 && x == y)) by (bit_vector);
        diff = diff | (x ^ y);
        i = i + 1;
    }
    if diff == 0 {
        assert(a@ =~= b@);
    }
    diff == 0
}

/// The key a request carries, if it carries one as text.
pub fn bearer_token<'a>(headers: &'a HeaderMap<HeaderValue>) -> (r: Option<&'a str>)
    ensures
        match r {
            Some(s) => header_text(header_contents(*headers), ACTOR_KEY_HEADER@) == Some(
                encode_utf8(s@),
            ),
            None => header_text(header_contents(*headers), ACTOR_KEY_HEADER@) is None,
        },
{
    proof {
        reveal_strlit("x-sin90-actor-key");
    }
    get_header(headers, ACTOR_KEY_HEADER)
}

/// Where the keys come from.
#[derive(Debug)]
pub enum KeySource {
    /// The environment supplied them.
    Environment(ActorKeys),
    /// The key file in the data directory holds them, or will.
    File,
}

impl ActorKeys {
    /// Both keys are acceptable, and they differ.
    pub open spec fn valid(&self) -> bool {
        &&& key_fault("human", self.human@) is None
        &&& key_fault("automation", self.automation@) is None
        &&& self.human@ != self.automation@
    }

    /// What is wrong with a pair of keys, if anything.
    pub open spec fn fault(human: Seq<char>, automation: Seq<char>) -> Option<KeyError> {
        if key_fault("human", human) is Some {
            key_fault("human", human)
        } else if key_fault("automation", automation) is Some {
            key_fault("automation", automation)
        } else if human == automation {
            Some(KeyError::Identical)
        } else {
            None
        }
    }

    /// The pair of keys, unless something is wrong with it.
    pub fn new(human: String, automation: String) -> (r: Result<Self, KeyError>)
        ensures
            match r {
                Ok(keys) => keys.valid() && keys.human == human && keys.automation == automation,
                Err(e) => Self::fault(human@, automation@) == Some(e),
            },
            r is Ok == Self::fault(human@, automation@) is None,
    {
        if let Err(e) = validate_key("human", human.as_str()) {
            return Err(e);
        }
        if let Err(e) = validate_key("automation", automation.as_str()) {
            return Err(e);
        }
        if same_text(human.as_str(), automation.as_str()) {
            return Err(KeyError::Identical);
        }
        Ok(ActorKeys { human, automation })
    }

    /// Decides where the keys come from: the two variables if both are set,
    /// the key file if neither is.
    pub fn load(human: Option<String>, automation: Option<String>, has_data_dir: bool) -> (r: Result<
        KeySource,
        KeyError,
    >)
        ensures
            match (human, automation) {
                (Some(h), Some(a)) => match r {
                    Ok(source) => Self::fault(h@, a@) is None && source == KeySource::Environment(
                        ActorKeys { human: h, automation: a },
                    ),
                    Err(e) => Self::fault(h@, a@) == Some(e),
                },
                (None, None) => r == if has_data_dir {
                    Ok::<KeySource, KeyError>(KeySource::File)
                } else {
                    Err(KeyError::NoSource)
                },
                _ => r == Err::<KeySource, KeyError>(KeyError::PartialEnv),
            },
    {
        match (human, automation) {
            (Some(h), Some(a)) => match Self::new(h, a) {
                Ok(keys) => Ok(KeySource::Environment(keys)),
                Err(e) => Err(e),
            },
            (None, None) => if has_data_dir {
                Ok(KeySource::File)
            } else {
                Err(KeyError::NoSource)
            },
            _ => Err(KeyError::PartialEnv),
        }
    }

    /// Whose key it is.
    pub open spec fn owner(&self, key: Option<Seq<u8>>) -> Option<Actor> {
        match key {
            Some(k) => if k == encode_utf8(self.human@) {
                Some(Actor::Human)
            } else if k == encode_utf8(self.automation@) {
                Some(Actor::Automation)
            } else {
                None
            },
            None => None,
        }
    }

    /// Who sent a request, by the key it carries.
    pub open spec fn sender(&self, headers: HeaderMap<HeaderValue>) -> Option<Actor> {
        self.owner(header_text(header_contents(headers), ACTOR_KEY_HEADER@))
    }

    /// Who sent a request, by the key it carries.
    pub fn identify(&self, headers: &HeaderMap<HeaderValue>) -> (r: Option<Actor>)
        ensures
            r == self.sender(*headers),
    {
        match bearer_token(headers) {
            Some(key) => {
                let bytes: &[u8] = key.as_bytes();
                if constant_time_eq(bytes, self.human.as_str().as_bytes()) {
                    Some(Actor::Human)
                } else if constant_time_eq(bytes, self.automation.as_str().as_bytes()) {
                    Some(Actor::Automation)
                } else {
                    None
                }
            },
            None => None,
        }
    }
}

/// A lower-case hexadecimal digit.
pub open spec fn hex_digit(n: u8) -> char {
    if n < 10 {
        (('0' as u8) + n) as char
    } else {
        (('a' as u8) + (n - 10)) as char
    }
}

/// Two lower-case hexadecimal digits for each byte, high half first.
pub open spec fn hex_of(bytes: Seq<u8>) -> Seq<char> {
    Seq::new(
        2 * bytes.len(),
        |i: int|
            if i % 2 == 0 {
                hex_digit((bytes[i / 2] / 16) as u8)
            } else {
                hex_digit((bytes[i / 2] % 16) as u8)
            },
    )
}

/// Calls `hex::encode`, which writes each byte as two lower-case hexadecimal
/// digits, high half first.
#[verifier::external_body]
fn hex_encode(bytes: &[u8]) -> (r: String)
    ensures
        r@ == hex_of(bytes@),
{
    hex::encode(bytes)
}

/// Calls `RngCore::fill_bytes` of `rand::rng()`. Nothing is claimed of the
/// bytes: they are random. Without a working source of randomness in the
/// operating system the generator panics.
#[verifier::external_body]
fn random_bytes() -> [u8; 24] {
    let mut bytes = [0u8; 24];
    rand::rng().fill_bytes(&mut bytes);
    bytes
}

/// The key spelled by 24 bytes: 48 hexadecimal digits, which is always an
/// acceptable key.
pub fn key_from_bytes(bytes: &[u8; 24]) -> (r: String)
    ensures
        r@ == hex_of(bytes@),
        r@.len() == 48,
        forall|which: &'static str| key_fault(which, r@) is None,
{
    let r = hex_encode(bytes.as_slice());
    proof {
        assert forall|i: int| 0 <= i < r@.len() implies ('0' <= #[trigger] r@[i] <= '9' || 'a' <= r@[i]
            <= 'f') by {
            let b = bytes@[i / 2];
            assert((b / 16) < 16 && (b % 16) < 16);
        }
        vstd::utf8::is_ascii_chars_encode_utf8(r@);
        assert forall|i: int| 0 <= i < encode_utf8(r@).len() implies 0x21 <= #[trigger] encode_utf8(
            r@,
        )[i] <= 0x7e by {
            assert(r@[i] as u8 == encode_utf8(r@)[i]);
        }
    }
    r
}

/// A fresh random key.
pub fn random_key() -> (r: String)
    ensures
        r@.len() == 48,
        forall|which: &'static str| key_fault(which, r@) is None,
        exists|bytes: Seq<u8>| bytes.len() == 24 && r@ == hex_of(bytes),
{
    let bytes = random_bytes();
    let r = key_from_bytes(&bytes);
    assert(bytes@.len() == 24 && r@ == hex_of(bytes@));
    r
}

/// What a key file holds.
#[derive(Debug)]
pub struct KeyFile {
    pub human: String,
    pub automation: String,
}

/// The name of the file a process with this id writes its keys to before it
/// publishes them.
pub fn temporary_key_file(pid: u32) -> (r: String)
    ensures
        r@ == "."@ + KEY_FILE@ + "."@ + crate::text::digits(pid as nat, 10) + ".tmp"@,
{
    let id = number_text(pid, 10);
    join5(".", KEY_FILE, ".", id.as_str(), ".tmp")
}

/// A file with this mode is open to group or other.
pub open spec fn too_open(mode: u32) -> bool {
    mode & 0o777 & 0o077 != 0
}

/// Whether a file with this mode is open to group or other.
pub fn is_too_open(mode: u32) -> (r: bool)
    ensures
        r == too_open(mode),
{
    mode & 0o777 & 0o077 != 0
}

/// What reading a key file gives: its mode, then its contents, then its keys.
/// A step that failed is described.
#[derive(Debug)]
pub struct KeyFileRead {
    pub mode: Result<u32, String>,
    /// The outer error is a failed read, the inner one a failed parse.
    pub contents: Result<Result<KeyFile, String>, String>,
}

impl KeyFileRead {
    /// Why the file at `path` gives no keys, if so.
    pub open spec fn fault(self, path: Seq<char>) -> Option<KeyErrorV> {
        match self.mode {
            Err(source) => Some(KeyErrorV::Io { path, source: source@ }),
            Ok(mode) => if too_open(mode) {
                Some(KeyErrorV::TooOpen { path, mode: mode & 0o777 })
            } else {
                match self.contents {
                    Err(source) => Some(KeyErrorV::Io { path, source: source@ }),
                    Ok(Err(source)) => Some(KeyErrorV::Parse { path, source: source@ }),
                    Ok(Ok(keys)) => match ActorKeys::fault(keys.human@, keys.automation@) {
                        Some(e) => Some(e.deep_view()),
                        None => None,
                    },
                }
            },
        }
    }
}

#[verifier::ext_equal]
pub enum KeyErrorV {
    TooShort(Seq<char>),
    NotHeaderSafe(Seq<char>),
    Identical,
    PartialEnv,
    NoSource,
    TooOpen { path: Seq<char>, mode: u32 },
    Io { path: Seq<char>, source: Seq<char> },
    Parse { path: Seq<char>, source: Seq<char> },
}

impl DeepView for KeyError {
    type V = KeyErrorV;

    open spec fn deep_view(&self) -> KeyErrorV {
        match *self {
            KeyError::TooShort(which) => KeyErrorV::TooShort(which@),
            KeyError::NotHeaderSafe(which) => KeyErrorV::NotHeaderSafe(which@),
            KeyError::Identical => KeyErrorV::Identical,
            KeyError::PartialEnv => KeyErrorV::PartialEnv,
            KeyError::NoSource => KeyErrorV::NoSource,
            KeyError::TooOpen { path, mode } => KeyErrorV::TooOpen { path: path@, mode },
            KeyError::Io { path, source } => KeyErrorV::Io { path: path@, source: source@ },
            KeyError::Parse { path, source } => KeyErrorV::Parse { path: path@, source: source@ },
        }
    }
}

/// The keys of the key file at `path`: refused when the file is open to group
/// or other, unreadable, malformed, or holds unacceptable keys.
pub fn read_file(path: &str, read: KeyFileRead) -> (r: Result<ActorKeys, KeyError>)
    ensures
        match r {
            Ok(keys) => {
                &&& read.fault(path@) is None
                &&& keys.human@ == read.contents->Ok_0->Ok_0.human@
                &&& keys.automation@ == read.contents->Ok_0->Ok_0.automation@
                &&& keys.valid()
            },
            Err(e) => read.fault(path@) == Some(e.deep_view()),
        },
{
    let mode: u32 = match read.mode {
        Ok(m) => m,
        Err(source) => return Err(KeyError::Io { path: path.to_owned(), source }),
    };
    if is_too_open(mode) {
        return Err(KeyError::TooOpen { path: path.to_owned(), mode: mode & 0o777 });
    }
    match read.contents {
        Ok(Ok(keys)) => ActorKeys::new(keys.human, keys.automation),
        Ok(Err(source)) => Err(KeyError::Parse { path: path.to_owned(), source }),
        Err(source) => Err(KeyError::Io { path: path.to_owned(), source }),
    }
}

/// How publishing freshly generated keys went: the directory is made, the
/// temporary file written, and linked to its final name if that is free.
#[derive(Debug)]
pub enum Publish {
    DirectoryFailed(String),
    WriteFailed(String),
    Linked,
    /// Another process published first.
    AlreadyThere,
    LinkFailed(String),
}

/// The next thing to do to publish generated keys.
#[derive(Debug)]
pub enum PublishStep {
    MakeDirectory,
    /// Create the temporary file, which must not exist yet, with
    /// `KEY_FILE_MODE`, and write the keys to it.
    WriteTemporary,
    /// Link the temporary file to the key file's name, if that is free.
    Link,
    /// Remove the temporary file; publishing then ended like this.
    RemoveTemporary(Publish),
    Ended(Publish),
}

/// How a step went. A failure is described.
#[derive(Debug)]
pub enum StepResult {
    Done,
    /// It failed because the name is taken.
    NameTaken(String),
    Failed(String),
}

/// What follows a step. Whatever happens after the temporary file may have
/// been written, it is removed before publishing ends.
pub open spec fn step_after(step: PublishStep, result: StepResult) -> PublishStep {
    match step {
        PublishStep::MakeDirectory => match result {
            StepResult::Done => PublishStep::WriteTemporary,
            StepResult::NameTaken(e) | StepResult::Failed(e) => PublishStep::Ended(
                Publish::DirectoryFailed(e),
            ),
        },
        PublishStep::WriteTemporary => match result {
            StepResult::Done => PublishStep::Link,
            StepResult::NameTaken(e) | StepResult::Failed(e) => PublishStep::RemoveTemporary(
                Publish::WriteFailed(e),
            ),
        },
        PublishStep::Link => match result {
            StepResult::Done => PublishStep::RemoveTemporary(Publish::Linked),
            StepResult::NameTaken(_) => PublishStep::RemoveTemporary(Publish::AlreadyThere),
            StepResult::Failed(e) => PublishStep::RemoveTemporary(Publish::LinkFailed(e)),
        },
        PublishStep::RemoveTemporary(publish) | PublishStep::Ended(publish) => PublishStep::Ended(
            publish,
        ),
    }
}

impl PublishStep {
    /// How many steps are left at most.
    pub open spec fn steps_left(self) -> nat {
        match self {
            PublishStep::MakeDirectory => 4,
            PublishStep::WriteTemporary => 3,
            PublishStep::Link => 2,
            PublishStep::RemoveTemporary(_) => 1,
            PublishStep::Ended(_) => 0,
        }
    }

    /// The first step.
    pub fn first() -> (r: Self)
        ensures
            r == PublishStep::MakeDirectory,
    {
        PublishStep::MakeDirectory
    }

    /// What follows this step.
    pub fn next(self, result: StepResult) -> (r: Self)
        ensures
            r == step_after(self, result),
            self is Ended || r.steps_left() < self.steps_left(),
    {
        match self {
            PublishStep::MakeDirectory => match result {
                StepResult::Done => PublishStep::WriteTemporary,
                StepResult::NameTaken(e) => PublishStep::Ended(Publish::DirectoryFailed(e)),
                StepResult::Failed(e) => PublishStep::Ended(Publish::DirectoryFailed(e)),
            },
            PublishStep::WriteTemporary => match result {
                StepResult::Done => PublishStep::Link,
                StepResult::NameTaken(e) => PublishStep::RemoveTemporary(Publish::WriteFailed(e)),
                StepResult::Failed(e) => PublishStep::RemoveTemporary(Publish::WriteFailed(e)),
            },
            PublishStep::Link => match result {
                StepResult::Done => PublishStep::RemoveTemporary(Publish::Linked),
                StepResult::NameTaken(_) => PublishStep::RemoveTemporary(Publish::AlreadyThere),
                StepResult::Failed(e) => PublishStep::RemoveTemporary(Publish::LinkFailed(e)),
            },
            PublishStep::RemoveTemporary(publish) => PublishStep::Ended(publish),
            PublishStep::Ended(publish) => PublishStep::Ended(publish),
        }
    }
}

/// The paths a key file is created through.
#[derive(Debug)]
pub struct KeyPaths {
    pub file: String,
    pub directory: String,
    pub temporary: String,
}

/// Whether the key file itself decides: it was there already, or appeared
/// while fresh keys were being published.
pub fn reads_key_file(present: bool, publish: &Publish) -> (r: bool)
    ensures
        r == (present || *publish is AlreadyThere),
{
    present || match publish {
        Publish::AlreadyThere => true,
        _ => false,
    }
}

/// What looking for a key file gives: the keys on file where it was there, or
/// where another process published first, and otherwise the generated ones.
pub open spec fn loaded(
    paths: KeyPaths,
    present: bool,
    generated: KeyFile,
    publish: Publish,
    read: KeyFileRead,
    r: Result<ActorKeys, KeyError>,
) -> bool {
    if present || publish is AlreadyThere {
        match r {
            Ok(keys) => {
                &&& read.fault(paths.file@) is None
                &&& keys.human@ == read.contents->Ok_0->Ok_0.human@
                &&& keys.automation@ == read.contents->Ok_0->Ok_0.automation@
                &&& keys.valid()
            },
            Err(e) => read.fault(paths.file@) == Some(e.deep_view()),
        }
    } else {
        match publish {
            Publish::DirectoryFailed(source) => r matches Err(e) && e.deep_view() == (
            KeyErrorV::Io { path: paths.directory@, source: source@ }),
            Publish::WriteFailed(source) => r matches Err(e) && e.deep_view() == (
            KeyErrorV::Io { path: paths.temporary@, source: source@ }),
            Publish::LinkFailed(source) => r matches Err(e) && e.deep_view() == (
            KeyErrorV::Io { path: paths.file@, source: source@ }),
            _ => match r {
                Ok(keys) => {
                    &&& ActorKeys::fault(generated.human@, generated.automation@) is None
                    &&& keys.human == generated.human
                    &&& keys.automation == generated.automation
                },
                Err(e) => ActorKeys::fault(generated.human@, generated.automation@) == Some(e),
            },
        }
    }
}

/// The keys after a key file was looked for and, where there was none,
/// `generated` was published. Keys that are on file are never replaced.
pub fn load_or_create_file(
    paths: &KeyPaths,
    present: bool,
    generated: KeyFile,
    publish: Publish,
    read: KeyFileRead,
) -> (r: Result<ActorKeys, KeyError>)
    ensures
        loaded(*paths, present, generated, publish, read, r),
{
    if reads_key_file(present, &publish) {
        return read_file(paths.file.as_str(), read);
    }
    match publish {
        Publish::DirectoryFailed(source) => Err(
            KeyError::Io { path: paths.directory.clone(), source },
        ),
        Publish::WriteFailed(source) => Err(
            KeyError::Io { path: paths.temporary.clone(), source },
        ),
        Publish::LinkFailed(source) => Err(KeyError::Io { path: paths.file.clone(), source }),
        _ => ActorKeys::new(generated.human, generated.automation),
    }
}

/// The reply to a caller who may not do this.
pub fn forbidden(why: &str) -> (r: Reply)
    ensures
        r@ == error(403, "forbidden"@, why@),
{
    error_response(403, "forbidden", why)
}

/// With acceptable keys, each key identifies its own actor.
pub proof fn law_each_key_identifies_its_actor(keys: ActorKeys)
    requires
        keys.valid(),
    ensures
        keys.owner(Some(encode_utf8(keys.human@))) == Some(Actor::Human),
        keys.owner(Some(encode_utf8(keys.automation@))) == Some(Actor::Automation),
{
    vstd::utf8::encode_utf8_decode_utf8(keys.human@);
    vstd::utf8::encode_utf8_decode_utf8(keys.automation@);
}

/// A request without the header, or with any other text in it, identifies
/// nobody.
pub proof fn law_an_unknown_key_identifies_nobody(keys: ActorKeys, key: Option<Seq<u8>>)
    requires
        key matches Some(k) ==> k != encode_utf8(keys.human@) && k != encode_utf8(keys.automation@),
    ensures
        keys.owner(key) is None,
{
}

/// A key file with the permissions it was created with is not open to group or
/// other, whatever else its mode says.
pub proof fn law_a_created_key_file_is_not_too_open(mode: u32)
    requires
        mode & 0o777 == KEY_FILE_MODE,
    ensures
        !too_open(mode),
{
    assert(0o600u32 & 0o077 == 0) by (bit_vector);
}

/// A restart keeps the keys: once generated keys were published, a later start
/// that finds them on file, under a mode that is not too open, gives the same
/// two keys, whatever it would have generated itself.
pub proof fn law_a_restart_keeps_the_keys(
    paths: KeyPaths,
    generated: KeyFile,
    first_read: KeyFileRead,
    first: ActorKeys,
    later_paths: KeyPaths,
    later_generated: KeyFile,
    later_publish: Publish,
    later_read: KeyFileRead,
    later: Result<ActorKeys, KeyError>,
)
    requires
        loaded(paths, false, generated, Publish::Linked, first_read, Ok(first)),
        later_read.mode matches Ok(mode) && !too_open(mode),
        later_read.contents matches Ok(Ok(file)) && file.human@ == generated.human@
            && file.automation@ == generated.automation@,
        loaded(later_paths, true, later_generated, later_publish, later_read, later),
    ensures
        later matches Ok(keys) && keys.human@ == first.human@ && keys.automation@
            == first.automation@,
{
}

/// A key file on disk: its permissions and the keys in it.
#[verifier::ext_equal]
pub struct StoredKeysV {
    pub mode: u32,
    pub human: Seq<char>,
    pub automation: Seq<char>,
}

/// The part of the data directory that publishing touches: the key file and
/// the process's temporary file.
#[verifier::ext_equal]
pub struct KeyDirV {
    pub file: Option<StoredKeysV>,
    pub temporary: Option<StoredKeysV>,
}

/// The keys as publishing writes them.
pub open spec fn as_written(keys: KeyFile) -> StoredKeysV {
    StoredKeysV { mode: KEY_FILE_MODE, human: keys.human@, automation: keys.automation@ }
}

/// What a step that went like `result` does to the directory. A failed write
/// may leave anything in the temporary file; the other failures change nothing.
pub open spec fn step_effect(
    step: PublishStep,
    generated: KeyFile,
    result: StepResult,
    before: KeyDirV,
    after: KeyDirV,
) -> bool {
    match step {
        PublishStep::WriteTemporary => {
            &&& after.file == before.file
            &&& result is Done ==> after.temporary == Some(as_written(generated))
        },
        PublishStep::Link => if result is Done {
            &&& before.file is None
            &&& after == (KeyDirV { file: before.temporary, ..before })
        } else {
            after == before
        },
        PublishStep::RemoveTemporary(_) => if result is Done {
            after == (KeyDirV { temporary: None, ..before })
        } else {
            after == before
        },
        PublishStep::MakeDirectory | PublishStep::Ended(_) => after == before,
    }
}

/// Publishing from `step` ends in `publish`, step by step over `results`, and
/// turns the first of `dirs` into the last.
pub open spec fn publishes(
    generated: KeyFile,
    step: PublishStep,
    results: Seq<StepResult>,
    dirs: Seq<KeyDirV>,
    publish: Publish,
) -> bool
    decreases results.len(),
{
    &&& dirs.len() == results.len() + 1
    &&& if results.len() == 0 {
        step == PublishStep::Ended(publish)
    } else {
        &&& !(step is Ended)
        &&& step_effect(step, generated, results[0], dirs[0], dirs[1])
        &&& publishes(
            generated,
            step_after(step, results[0]),
            results.drop_first(),
            dirs.drop_first(),
            publish,
        )
    }
}

/// What a read of the key file shows is what is stored.
pub open spec fn shows(read: KeyFileRead, stored: StoredKeysV) -> bool {
    &&& read.mode matches Ok(mode) && mode & 0o777 == stored.mode
    &&& read.contents matches Ok(Ok(file)) && file.human@ == stored.human && file.automation@
        == stored.automation
}

/// Publishing that ends as linked went through all four steps: afterwards the
/// key file holds the generated keys, readable and writable by its owner
/// alone, and the temporary file is gone if it could be removed.
pub proof fn law_published_keys_are_on_file(
    generated: KeyFile,
    results: Seq<StepResult>,
    dirs: Seq<KeyDirV>,
)
    requires
        publishes(generated, PublishStep::MakeDirectory, results, dirs, Publish::Linked),
    ensures
        results.len() == 4,
        dirs[0].file is None,
        dirs.last().file == Some(as_written(generated)),
        results.last() is Done ==> dirs.last().temporary is None,
{
    reveal_with_fuel(publishes, 6);
    let r1 = results.drop_first();
    let d1 = dirs.drop_first();
    let r2 = r1.drop_first();
    let d2 = d1.drop_first();
    let r3 = r2.drop_first();
    let d3 = d2.drop_first();
    assert(results[0] is Done);
    assert(r1[0] is Done);
    assert(r2[0] is Done);
    assert(r3.drop_first().len() == 0);
    assert(r1[0] == results[1] && r2[0] == results[2] && r3[0] == results[3]);
    assert(d1[0] == dirs[1] && d1[1] == dirs[2]);
    assert(d2[0] == dirs[2] && d2[1] == dirs[3]);
    assert(d3[0] == dirs[3] && d3[1] == dirs[4]);
}

/// However publishing ends, a key file that was there before stays as it was:
/// keys on file are never overwritten.
pub proof fn law_publishing_never_overwrites(
    generated: KeyFile,
    step: PublishStep,
    results: Seq<StepResult>,
    dirs: Seq<KeyDirV>,
    publish: Publish,
)
    requires
        publishes(generated, step, results, dirs, publish),
        dirs[0].file is Some,
    ensures
        dirs.last().file == dirs[0].file,
    decreases results.len(),
{
    if results.len() > 0 {
        let rest = dirs.drop_first();
        assert(rest[0] == dirs[1]);
        assert(dirs[1].file == dirs[0].file);
        law_publishing_never_overwrites(
            generated,
            step_after(step, results[0]),
            results.drop_first(),
            rest,
            publish,
        );
        assert(rest.last() == dirs.last());
    }
}

/// From an empty start to a restart: where there was no key file, the first
/// start published its keys and nothing touched the file since, the keys
/// differ from each other, the file is its owner's alone, and the later start
/// gives the same two keys.
pub proof fn law_published_keys_survive_a_restart(
    paths: KeyPaths,
    generated: KeyFile,
    results: Seq<StepResult>,
    dirs: Seq<KeyDirV>,
    first_read: KeyFileRead,
    first: ActorKeys,
    later_paths: KeyPaths,
    later_generated: KeyFile,
    later_publish: Publish,
    later_read: KeyFileRead,
    later: Result<ActorKeys, KeyError>,
)
    requires
        publishes(generated, PublishStep::MakeDirectory, results, dirs, Publish::Linked),
        loaded(paths, false, generated, Publish::Linked, first_read, Ok(first)),
        dirs.last().file matches Some(stored) && shows(later_read, stored),
        loaded(later_paths, true, later_generated, later_publish, later_read, later),
    ensures
        first.human@ != first.automation@,
        later_read.mode matches Ok(mode) && mode & 0o777 == KEY_FILE_MODE,
        later matches Ok(keys) && keys.human@ == first.human@ && keys.automation@
            == first.automation@,
        results.last() is Done ==> dirs.last().temporary is None,
{
    law_published_keys_are_on_file(generated, results, dirs);
    law_a_created_key_file_is_not_too_open(later_read.mode->Ok_0);
    law_a_restart_keeps_the_keys(
        paths,
        generated,
        first_read,
        first,
        later_paths,
        later_generated,
        later_publish,
        later_read,
        later,
    );
}

/// The names and limits that callers and operators rely on.
pub proof fn law_names_and_limits()
    ensures
        KEY_FILE@ == "actor-keys.json"@,
        ENV_HUMAN@ == "SIN90_HUMAN_KEY"@,
        ENV_AUTOMATION@ == "SIN90_AUTOMATION_KEY"@,
        ACTOR_KEY_HEADER@ == "x-sin90-actor-key"@,
        KEY_FILE_MODE == 0o600,
        MIN_KEY_LEN == 32,
{
}

/// A key is too short exactly when it is under 32 bytes, and is otherwise
/// refused exactly when one of its bytes, whichever it is, is a space, a
/// control character or outside ASCII.
pub proof fn law_which_keys_are_refused(which: &'static str, key: Seq<char>)
    ensures
        key_fault(which, key) == Some(KeyError::TooShort(which)) <==> encode_utf8(key).len() < 32,
        key_fault(which, key) == Some(KeyError::NotHeaderSafe(which)) <==> encode_utf8(key).len()
            >= 32 && exists|i: int|
            0 <= i < encode_utf8(key).len() && (#[trigger] encode_utf8(key)[i] <= 0x20
                || encode_utf8(key)[i] >= 0x7f),
        key_fault(which, key) is None <==> encode_utf8(key).len() >= 32 && forall|i: int|
            0 <= i < encode_utf8(key).len() ==> 0x20 < #[trigger] encode_utf8(key)[i] < 0x7f,
{
}

/// Of a pair of keys the human one is judged first, then the automation one,
/// then whether they differ. A pair is acceptable exactly when nothing is wrong
/// with it.
pub proof fn law_which_pairs_are_refused(human: Seq<char>, automation: Seq<char>, keys: ActorKeys)
    ensures
        ActorKeys::fault(human, automation) is None <==> key_fault("human", human) is None
            && key_fault("automation", automation) is None && human != automation,
        key_fault("human", human) matches Some(e) ==> ActorKeys::fault(human, automation) == Some(e),
        key_fault("human", human) is None ==> (key_fault("automation", automation) matches Some(e)
            ==> ActorKeys::fault(human, automation) == Some(e)),
        key_fault("human", human) is None && key_fault("automation", automation) is None && human
            == automation ==> ActorKeys::fault(human, automation) == Some(KeyError::Identical),
        keys.valid() <==> ActorKeys::fault(keys.human@, keys.automation@) is None,
{
}

/// A request is the human's exactly when its key header holds the human key
/// byte for byte, and the automation's exactly when it holds the automation key
/// and not the human one. A header that is not text counts as missing.
pub proof fn law_a_request_is_its_keys(keys: ActorKeys, headers: HeaderMap<HeaderValue>)
    ensures
        ({
            let contents = header_contents(headers);
            let carried = contents["x-sin90-actor-key"@];
            let present = contents.contains_key("x-sin90-actor-key"@) && forall|i: int|
                0 <= i < carried.len() ==> (32 <= #[trigger] carried[i] <= 126 || carried[i] == 9);
            &&& keys.sender(headers) == Some(Actor::Human) <==> present && carried == encode_utf8(
                keys.human@,
            )
            &&& keys.sender(headers) == Some(Actor::Automation) <==> present && carried
                == encode_utf8(keys.automation@) && carried != encode_utf8(keys.human@)
        }),
{
}

/// Of a header of any name, its bytes are its text exactly when it is there and
/// every byte is visible ASCII, a space or a tab.
pub proof fn law_what_header_text_is(
    contents: Map<Seq<char>, Seq<u8>>,
    name: Seq<char>,
    text: Seq<u8>,
)
    ensures
        header_text(contents, name) == Some(text) <==> contents.contains_key(name)
            && contents[name] == text && forall|i: int|
            0 <= i < text.len() ==> (32 <= #[trigger] text[i] <= 126 || text[i] == 9),
{
}

/// Each byte is spelled by two hexadecimal digits, its high half first, so that
/// the spelling gives the byte back.
pub proof fn law_hexadecimal_gives_the_bytes_back(bytes: Seq<u8>, i: int)
    requires
        0 <= i < bytes.len(),
    ensures
        hex_of(bytes).len() == 2 * bytes.len(),
        ({
            let high = hex_of(bytes)[2 * i];
            let low = hex_of(bytes)[2 * i + 1];
            let a: int = if high <= '9' {
                high as int - '0' as int
            } else {
                high as int - 'a' as int + 10
            };
            let b: int = if low <= '9' {
                low as int - '0' as int
            } else {
                low as int - 'a' as int + 10
            };
            &&& '0' <= high <= '9' || 'a' <= high <= 'f'
            &&& '0' <= low <= '9' || 'a' <= low <= 'f'
            &&& 16 * a + b == bytes[i]
        }),
{
    let byte = bytes[i];
    assert(byte == 16 * (byte / 16) + byte % 16);
    assert((2 * i) / 2 == i && (2 * i + 1) / 2 == i);
}

/// A file is too open exactly when its group or others may read, write or run
/// it: any one of these six permissions is enough, and no other bit matters.
pub proof fn law_when_a_file_is_too_open(mode: u32, other: u32)
    ensures
        too_open(mode) <==> mode & 0o040 != 0 || mode & 0o020 != 0 || mode & 0o010 != 0 || mode
            & 0o004 != 0 || mode & 0o002 != 0 || mode & 0o001 != 0,
        mode & 0o077 == other & 0o077 ==> too_open(mode) == too_open(other),
{
    assert(mode & 0o777 & 0o077 != 0 <==> mode & 0o040 != 0 || mode & 0o020 != 0 || mode & 0o010
        != 0 || mode & 0o004 != 0 || mode & 0o002 != 0 || mode & 0o001 != 0) by (bit_vector);
    assert(mode & 0o777 & 0o077 == mode & 0o077) by (bit_vector);
    assert(other & 0o777 & 0o077 == other & 0o077) by (bit_vector);
}

/// A key file gives its keys exactly when its mode could be read and is not too
/// open, it could be read and parsed, and its keys are acceptable; of several
/// faults the first in that order is told, with the path.
pub proof fn law_what_a_key_file_is_refused_for(read: KeyFileRead, path: Seq<char>)
    ensures
        read.fault(path) is None <==> (read.mode matches Ok(mode) && !too_open(mode)) && (
        read.contents matches Ok(Ok(keys)) && ActorKeys::fault(keys.human@, keys.automation@)
            is None),
        read.mode matches Err(source) ==> read.fault(path) == Some(
            KeyErrorV::Io { path, source: source@ },
        ),
        read.mode matches Ok(mode) ==> too_open(mode) ==> read.fault(path) == Some(
            KeyErrorV::TooOpen { path, mode: mode & 0o777 },
        ),
        (read.mode matches Ok(mode) && !too_open(mode)) ==> (read.contents matches Err(source)
            ==> read.fault(path) == Some(KeyErrorV::Io { path, source: source@ })),
        (read.mode matches Ok(mode) && !too_open(mode)) ==> (read.contents matches Ok(Err(source))
            ==> read.fault(path) == Some(KeyErrorV::Parse { path, source: source@ })),
        (read.mode matches Ok(mode) && !too_open(mode)) ==> (read.contents matches Ok(Ok(keys))
            ==> (ActorKeys::fault(keys.human@, keys.automation@) matches Some(e) ==> read.fault(
            path,
        ) == Some(e.deep_view()))),
{
}

/// An error is seen as the kind it is, with what it tells.
pub proof fn law_an_error_is_seen_as_it_is(e: KeyError)
    ensures
        e matches KeyError::TooShort(which) ==> e.deep_view() == KeyErrorV::TooShort(which@),
        e matches KeyError::NotHeaderSafe(which) ==> e.deep_view() == KeyErrorV::NotHeaderSafe(
            which@,
        ),
        e is Identical <==> e.deep_view() is Identical,
        e is PartialEnv <==> e.deep_view() is PartialEnv,
        e is NoSource <==> e.deep_view() is NoSource,
        e matches KeyError::TooOpen { path, mode } ==> e.deep_view() == (KeyErrorV::TooOpen {
            path: path@,
            mode,
        }),
        e matches KeyError::Io { path, source } ==> e.deep_view() == (KeyErrorV::Io {
            path: path@,
            source: source@,
        }),
        e matches KeyError::Parse { path, source } ==> e.deep_view() == (KeyErrorV::Parse {
            path: path@,
            source: source@,
        }),
{
}

/// What an operator is told of each error.
pub proof fn law_what_each_error_says(e: KeyError)
    ensures
        e matches KeyError::TooShort(which) ==> e.words() == which@
            + " key is too short (minimum 32 characters)"@,
        e matches KeyError::NotHeaderSafe(which) ==> e.words() == which@
            + " key must be printable ASCII with no spaces (it travels in an HTTP header)"@,
        e is Identical ==> e.words() == "human and automation keys must differ"@,
        e is PartialEnv ==> e.words()
            == "set both SIN90_HUMAN_KEY and SIN90_AUTOMATION_KEY, or neither"@,
        e is NoSource ==> e.words()
            == "no key source: set SIN90_HUMAN_KEY/SIN90_AUTOMATION_KEY, or give a data directory"@,
        e matches KeyError::TooOpen { path, mode } ==> e.words() == path@
            + " is readable or writable by group/other (mode "@ + crate::text::digits(
            mode as nat,
            8,
        ) + "); run `chmod 600` on it"@,
        e matches KeyError::Io { path, source } ==> e.words() == path@ + ": "@ + source@,
        e matches KeyError::Parse { path, source } ==> e.words() == path@
            + " is not a valid key file: "@ + source@,
{
}

/// Publishing goes on to the next step exactly when the step before succeeded.
/// A failure is told as the step that failed, with its description, and once
/// the temporary file may be there it is removed first, whatever came of it.
pub proof fn law_how_publishing_goes_on(why: String, result: StepResult, publish: Publish)
    ensures
        step_after(PublishStep::MakeDirectory, StepResult::Done) is WriteTemporary,
        step_after(PublishStep::WriteTemporary, StepResult::Done) is Link,
        step_after(PublishStep::Link, StepResult::Done) == PublishStep::RemoveTemporary(
            Publish::Linked,
        ),
        step_after(PublishStep::MakeDirectory, StepResult::NameTaken(why)) == PublishStep::Ended(
            Publish::DirectoryFailed(why),
        ),
        step_after(PublishStep::MakeDirectory, StepResult::Failed(why)) == PublishStep::Ended(
            Publish::DirectoryFailed(why),
        ),
        step_after(PublishStep::WriteTemporary, StepResult::NameTaken(why))
            == PublishStep::RemoveTemporary(Publish::WriteFailed(why)),
        step_after(PublishStep::WriteTemporary, StepResult::Failed(why))
            == PublishStep::RemoveTemporary(Publish::WriteFailed(why)),
        step_after(PublishStep::Link, StepResult::NameTaken(why)) == PublishStep::RemoveTemporary(
            Publish::AlreadyThere,
        ),
        step_after(PublishStep::Link, StepResult::Failed(why)) == PublishStep::RemoveTemporary(
            Publish::LinkFailed(why),
        ),
        step_after(PublishStep::RemoveTemporary(publish), result) == PublishStep::Ended(publish),
        step_after(PublishStep::Ended(publish), result) == PublishStep::Ended(publish),
{
}

/// A start gives the keys on file where there are any, and the generated ones
/// only where they were linked; a step that failed is told with its path.
pub proof fn law_which_keys_a_start_gives(
    paths: KeyPaths,
    present: bool,
    generated: KeyFile,
    publish: Publish,
    read: KeyFileRead,
    r: Result<ActorKeys, KeyError>,
)
    requires
        loaded(paths, present, generated, publish, read, r),
    ensures
        present || publish is AlreadyThere ==> (r is Ok <==> read.fault(paths.file@) is None),
        present || publish is AlreadyThere ==> (r matches Err(e) ==> read.fault(paths.file@)
            == Some(e.deep_view())),
        present || publish is AlreadyThere ==> (r matches Ok(keys) ==> (
        read.contents matches Ok(Ok(file)) && keys.human@ == file.human@ && keys.automation@
            == file.automation@)),
        !present && publish is Linked ==> (r is Ok <==> ActorKeys::fault(
            generated.human@,
            generated.automation@,
        ) is None),
        !present && publish is Linked ==> (r matches Ok(keys) ==> keys.human@ == generated.human@
            && keys.automation@ == generated.automation@),
        !present ==> (publish matches Publish::DirectoryFailed(why) ==> (r matches Err(e)
            && e.deep_view() == (KeyErrorV::Io { path: paths.directory@, source: why@ }))),
        !present ==> (publish matches Publish::WriteFailed(why) ==> (r matches Err(e)
            && e.deep_view() == (KeyErrorV::Io { path: paths.temporary@, source: why@ }))),
        !present ==> (publish matches Publish::LinkFailed(why) ==> (r matches Err(e)
            && e.deep_view() == (KeyErrorV::Io { path: paths.file@, source: why@ }))),
{
}

} // verus!
