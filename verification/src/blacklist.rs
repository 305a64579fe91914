//! The blacklist: actions that are always refused.
//!
//! Every authority decision records the hash of the blacklist it was made
//! under, so that it can be understood later.

use vstd::prelude::*;
use vstd::string::*;

use crate::io_error::{IoError, IoErrorView};
use crate::text::{blank, decimal, is_blank, same_text, to_chars, write_decimal};

verus! {

/// Newest version of the file format that is understood.
pub const MAX_SCHEMA_VERSION: u32 = 1;

/// Bound on the size of the blacklist file.
pub const MAX_BLACKLIST_BYTES: u64 = 65536;

/// One entry of the blacklist file.
#[derive(Debug, PartialEq, Eq)]
pub struct BlacklistEntry {
    pub pattern: String,
    pub rationale: String,
}

/// What an entry holds.
pub struct BlacklistEntryView {
    pub pattern: Seq<char>,
    pub rationale: Seq<char>,
}

impl View for BlacklistEntry {
    type V = BlacklistEntryView;

    open spec fn view(&self) -> BlacklistEntryView {
        BlacklistEntryView { pattern: self.pattern@, rationale: self.rationale@ }
    }
}

/// What each entry of a blacklist holds.
pub open spec fn blacklist_view(v: Seq<BlacklistEntry>) -> Seq<BlacklistEntryView> {
    v.map_values(|e: BlacklistEntry| e@)
}

/// The blacklist file.
#[derive(Debug, PartialEq, Eq)]
pub struct BlacklistFile {
    pub schema_version: u32,
    pub entry: Vec<BlacklistEntry>,
}

/// What reading the blacklist file came to.
#[derive(Debug, PartialEq, Eq)]
pub enum BlacklistRead {
    /// The file could not be read.
    Unreadable(IoError),
    /// The file could not be parsed; holds the parser's complaint.
    Unparsable(String),
    /// The file was parsed.
    File(BlacklistFile),
}

/// Why a blacklist was not accepted.
#[allow(inconsistent_fields)]
#[derive(Debug, PartialEq, Eq)]
pub enum BlacklistError {
    Io { path: String, source: IoError },
    Parse { path: String, source: String },
    UnsupportedVersion { found: u32, max: u32 },
    EmptyRationale { pattern: String },
}

/// What the failure holds.
#[allow(inconsistent_fields)]
pub enum BlacklistErrorView {
    Io { path: Seq<char>, source: IoErrorView },
    Parse { path: Seq<char>, source: Seq<char> },
    UnsupportedVersion { found: u32, max: u32 },
    EmptyRationale { pattern: Seq<char> },
}

impl View for BlacklistError {
    type V = BlacklistErrorView;

    open spec fn view(&self) -> BlacklistErrorView {
        match *self {
            BlacklistError::Io { path, source } => BlacklistErrorView::Io {
                path: path@,
                source: source@,
            },
            BlacklistError::Parse { path, source } => BlacklistErrorView::Parse {
                path: path@,
                source: source@,
            },
            BlacklistError::UnsupportedVersion { found, max } => BlacklistErrorView::UnsupportedVersion {
                found,
                max,
            },
            BlacklistError::EmptyRationale { pattern } => BlacklistErrorView::EmptyRationale {
                pattern: pattern@,
            },
        }
    }
}

impl BlacklistErrorView {
    /// What a reader is shown.
    pub open spec fn shown(self) -> Seq<char> {
        match self {
            BlacklistErrorView::Io { path, source } => "blacklist I/O at "@ + path + ": "@
                + source.message,
            BlacklistErrorView::Parse { path, source } => "blacklist parse at "@ + path + ": "@
                + source,
            BlacklistErrorView::UnsupportedVersion { found, max } => "blacklist schema_version "@
                + decimal(found as nat) + " is newer than supported ("@ + decimal(max as nat)
                + ")"@,
            BlacklistErrorView::EmptyRationale { pattern } => "blacklist entry '"@ + pattern
                + "' has an empty rationale"@,
        }
    }
}

impl BlacklistError {
    /// What a reader is shown.
    pub fn to_string(&self) -> (text: String)
        ensures
            text@ == self@.shown(),
    {
        match self {
            BlacklistError::Io { path, source } => {
                let mut text: String = "blacklist I/O at ".to_owned();
                text.append(path.as_str());
                text.append(": ");
                text.append(source.message.as_str());
                text
            },
            BlacklistError::Parse { path, source } => {
                let mut text: String = "blacklist parse at ".to_owned();
                text.append(path.as_str());
                text.append(": ");
                text.append(source.as_str());
                text
            },
            BlacklistError::UnsupportedVersion { found, max } => {
                let mut text: String = "blacklist schema_version ".to_owned();
                text.append(write_decimal(*found as u64).as_str());
                text.append(" is newer than supported (");
                text.append(write_decimal(*max as u64).as_str());
                text.append(")");
                text
            },
            BlacklistError::EmptyRationale { pattern } => {
                let mut text: String = "blacklist entry '".to_owned();
                text.append(pattern.as_str());
                text.append("' has an empty rationale");
                text
            },
        }
    }
}

// ── Version hash ─────────────────────────────────────────────────────────────

/// The SHA-256 digest of bytes.
pub uninterp spec fn sha256_digest(bytes: Seq<u8>) -> Seq<u8>;

/// A string as a TOML value, with its quotes.
pub uninterp spec fn toml_string(s: Seq<char>) -> Seq<char>;

/// The longest run of one quote that a TOML string is written for.
pub const MAX_QUOTE_RUN: u64 = 255;

/// How many times `quote` stands right before the `n`-th character.
pub open spec fn quote_run(s: Seq<char>, n: int, quote: char) -> nat
    decreases n,
{
    if n <= 0 || s[n - 1] != quote {
        0
    } else {
        quote_run(s, n - 1, quote) + 1
    }
}

/// No run of `quote` is too long.
pub open spec fn runs_fit(s: Seq<char>, quote: char) -> bool {
    forall|n: int| 0 <= n <= s.len() ==> #[trigger] quote_run(s, n, quote) <= MAX_QUOTE_RUN
}

/// No run of single or double quotes is too long.
pub open spec fn quotes_fit(s: Seq<char>) -> bool {
    runs_fit(s, '\'') && runs_fit(s, '"')
}

/// The string can be told from its line: no other string's line begins like
/// it.
pub open spec fn line_tells(s: Seq<char>) -> bool {
    forall|t: Seq<char>|
        quotes_fit(t) && begin_alike(toml_line(s), #[trigger] toml_line(t)) ==> t == s
}

/// The strings of every entry can be told from their lines.
pub open spec fn lines_tell(entries: Seq<BlacklistEntryView>) -> bool {
    forall|i: int|
        0 <= i < entries.len() ==> line_tells((#[trigger] entries[i]).pattern) && line_tells(
            entries[i].rationale,
        )
}

/// The strings of every entry can be written as TOML.
pub open spec fn entries_fit(entries: Seq<BlacklistEntryView>) -> bool {
    forall|i: int|
        0 <= i < entries.len() ==> quotes_fit((#[trigger] entries[i]).pattern) && quotes_fit(
            entries[i].rationale,
        )
}

fn have_runs_fit(chars: &Vec<char>, quote: char) -> (yes: bool)
    ensures
        yes == runs_fit(chars@, quote),
{
    let mut run: u64 = 0;
    let mut i: usize = 0;
    while i < chars.len()
        invariant
            i <= chars@.len(),
            run == quote_run(chars@, i as int, quote),
            forall|n: int| 0 <= n <= i ==> #[trigger] quote_run(chars@, n, quote) <= MAX_QUOTE_RUN,
        decreases chars.len() - i,
    {
        if chars[i] == quote {
            run = run + 1;
        } else {
            run = 0;
        }
        i = i + 1;
        assert(run == quote_run(chars@, i as int, quote));
        if run > MAX_QUOTE_RUN {
            return false;
        }
    }
    true
}

fn have_quotes_fit(s: &str) -> (yes: bool)
    ensures
        yes == quotes_fit(s@),
{
    let chars: Vec<char> = to_chars(s);
    have_runs_fit(&chars, '\'') && have_runs_fit(&chars, '"')
}

fn have_entries_fit(entries: &Vec<BlacklistEntry>) -> (yes: bool)
    ensures
        yes == entries_fit(blacklist_view(entries@)),
{
    let ghost es: Seq<BlacklistEntryView> = blacklist_view(entries@);
    let mut i: usize = 0;
    while i < entries.len()
        invariant
            es == blacklist_view(entries@),
            i <= entries@.len(),
            forall|k: int|
                0 <= k < i ==> quotes_fit((#[trigger] es[k]).pattern) && quotes_fit(
                    es[k].rationale,
                ),
        decreases entries.len() - i,
    {
        assert(es[i as int] == entries@[i as int]@);
        if !have_quotes_fit(entries[i].pattern.as_str()) || !have_quotes_fit(
            entries[i].rationale.as_str(),
        ) {
            return false;
        }
        i = i + 1;
    }
    true
}

/// Calls `sha2::Sha256::digest`, and claims that its 32 bytes are a function
/// of the bytes hashed.
#[verifier::external_body]
fn sha256(bytes: &[u8]) -> (digest: Vec<u8>)
    ensures
        digest@ == sha256_digest(bytes@),
        digest@.len() == 32,
{
    <sha2::Sha256 as sha2::Digest>::digest(bytes).to_vec()
}

/// A string as a TOML value that ends its line.
pub open spec fn toml_line(s: Seq<char>) -> Seq<char> {
    toml_string(s) + "\n"@
}

/// Of two texts, one begins with the other.
pub open spec fn begin_alike(a: Seq<char>, b: Seq<char>) -> bool {
    a.is_prefix_of(b) || b.is_prefix_of(a)
}

/// Formats a `toml::Value::String`, and claims that the result is a function
/// of the characters, and that the characters can be told from it: a value and
/// the line break after it begin no other value with its line break, since a
/// value ends at the first run of quotes, not escaped, that is long enough to
/// close it. How the value is quoted is for the `toml` crate to say: a string
/// with line breaks becomes a value over several lines. The crate counts runs
/// of quotes in a byte, and panics where that overflows.
#[verifier::external_body]
fn toml_text(s: &str) -> (text: String)
    requires
        quotes_fit(s@),
    ensures
        text@ == toml_string(s@),
        forall|t: Seq<char>|
            quotes_fit(t) && begin_alike(text@ + "\n"@, #[trigger] toml_line(t)) ==> t == s@,
{
    toml::Value::String(s.to_owned()).to_string()
}

/// The character of a hexadecimal digit.
pub open spec fn hex_char(d: int) -> char {
    if d < 10 {
        ('0' as int + d) as char
    } else {
        ('a' as int + (d - 10)) as char
    }
}

/// Bytes in hexadecimal, two lower-case digits each.
pub open spec fn hex(bytes: Seq<u8>) -> Seq<char>
    decreases bytes.len(),
{
    if bytes.len() == 0 {
        Seq::empty()
    } else {
        hex(bytes.drop_last()).push(hex_char(bytes.last() as int / 16)).push(
            hex_char(bytes.last() as int % 16),
        )
    }
}

fn hex_digit(d: u8) -> (text: &'static str)
    requires
        d < 16,
    ensures
        text@ == seq![hex_char(d as int)],
{
    proof {
        reveal_strlit("0");
        reveal_strlit("1");
        reveal_strlit("2");
        reveal_strlit("3");
        reveal_strlit("4");
        reveal_strlit("5");
        reveal_strlit("6");
        reveal_strlit("7");
        reveal_strlit("8");
        reveal_strlit("9");
        reveal_strlit("a");
        reveal_strlit("b");
        reveal_strlit("c");
        reveal_strlit("d");
        reveal_strlit("e");
        reveal_strlit("f");
    }
    match d {
        0 => "0",
        1 => "1",
        2 => "2",
        3 => "3",
        4 => "4",
        5 => "5",
        6 => "6",
        7 => "7",
        8 => "8",
        9 => "9",
        10 => "a",
        11 => "b",
        12 => "c",
        13 => "d",
        14 => "e",
        _ => "f",
    }
}

/// Writes bytes in hexadecimal.
pub fn write_hex(bytes: &Vec<u8>) -> (text: String)
    ensures
        text@ == hex(bytes@),
{
    let mut text: String = String::new();
    let mut i: usize = 0;
    assert(bytes@.take(0) =~= Seq::empty());
    while i < bytes.len()
        invariant
            i <= bytes@.len(),
            text@ == hex(bytes@.take(i as int)),
        decreases bytes.len() - i,
    {
        let b: u8 = bytes[i];
        let ghost before: Seq<char> = text@;
        text.append(hex_digit(b / 16));
        text.append(hex_digit(b % 16));
        proof {
            let upto = bytes@.take(i + 1);
            assert(upto.drop_last() =~= bytes@.take(i as int));
            assert(upto.last() == b);
            assert(text@ =~= before.push(hex_char(b as int / 16)).push(hex_char(b as int % 16)));
        }
        i = i + 1;
    }
    assert(bytes@.take(i as int) =~= bytes@);
    text
}

/// The canonical text of the first `n` entries, which is hashed. It holds the
/// entries alone, not the version of the file format.
pub open spec fn canonical(entries: Seq<BlacklistEntryView>, n: int) -> Seq<char>
    decreases n,
{
    if n <= 0 {
        Seq::empty()
    } else {
        canonical(entries, n - 1) + "[[entry]]\npattern = "@ + toml_string(entries[n - 1].pattern)
            + "\nrationale = "@ + toml_string(entries[n - 1].rationale) + "\n"@
    }
}

/// The bytes that are hashed for a blacklist.
pub open spec fn hashed(entries: Seq<BlacklistEntryView>) -> Seq<u8> {
    vstd::utf8::encode_utf8(canonical(entries, entries.len() as int))
}

/// The version hash of a blacklist.
pub open spec fn version_of(entries: Seq<BlacklistEntryView>) -> Seq<char> {
    hex(sha256_digest(hashed(entries)))
}

fn canonical_text(entries: &Vec<BlacklistEntry>) -> (text: String)
    requires
        entries_fit(blacklist_view(entries@)),
    ensures
        text@ == canonical(blacklist_view(entries@), entries@.len() as int),
        lines_tell(blacklist_view(entries@)),
{
    let ghost es: Seq<BlacklistEntryView> = blacklist_view(entries@);
    let mut text: String = String::new();
    let mut i: usize = 0;
    while i < entries.len()
        invariant
            es == blacklist_view(entries@),
            entries_fit(es),
            i <= entries@.len(),
            text@ == canonical(es, i as int),
            forall|k: int|
                0 <= k < i ==> line_tells((#[trigger] es[k]).pattern) && line_tells(
                    es[k].rationale,
                ),
        decreases entries.len() - i,
    {
        assert(es[i as int] == entries@[i as int]@);
        text.append("[[entry]]\npattern = ");
        let pattern: String = toml_text(entries[i].pattern.as_str());
        text.append(pattern.as_str());
        text.append("\nrationale = ");
        let rationale: String = toml_text(entries[i].rationale.as_str());
        text.append(rationale.as_str());
        text.append("\n");
        assert(line_tells(es[i as int].pattern));
        assert(line_tells(es[i as int].rationale));
        i = i + 1;
    }
    text
}

fn hex_sha256(text: &str) -> (hash: String)
    ensures
        hash@ == hex(sha256_digest(text.spec_bytes())),
{
    write_hex(&sha256(text.as_bytes()))
}

// ── Registry ─────────────────────────────────────────────────────────────────

/// Entries that were accepted.
#[derive(Debug, PartialEq, Eq)]
pub struct AcceptedEntries {
    all: Vec<BlacklistEntry>,
}

impl View for AcceptedEntries {
    type V = Seq<BlacklistEntryView>;

    closed spec fn view(&self) -> Seq<BlacklistEntryView> {
        blacklist_view(self.all@)
    }
}

/// A blacklist and its hash.
#[derive(Debug, PartialEq, Eq)]
pub struct BlacklistRegistry {
    pub entries: AcceptedEntries,
    /// SHA-256 of the canonical text of the entries, in hexadecimal.
    pub version_hash: String,
}

impl View for BlacklistRegistry {
    type V = Seq<BlacklistEntryView>;

    open spec fn view(&self) -> Seq<BlacklistEntryView> {
        self.entries@
    }
}

/// The entry at `i` has no rationale, and no entry before it lacks one.
pub open spec fn first_unexplained(entries: Seq<BlacklistEntryView>, i: int) -> bool {
    &&& 0 <= i < entries.len()
    &&& blank(entries[i].rationale)
    &&& forall|k: int| 0 <= k < i ==> !blank((#[trigger] entries[k]).rationale)
}

/// Every entry has a rationale.
pub open spec fn all_explained(entries: Seq<BlacklistEntryView>) -> bool {
    forall|k: int| 0 <= k < entries.len() ==> !blank((#[trigger] entries[k]).rationale)
}

/// No other entries have the same text to hash.
pub open spec fn text_tells(entries: Seq<BlacklistEntryView>) -> bool {
    forall|other: Seq<BlacklistEntryView>|
        entries_fit(other) && #[trigger] canonical(other, other.len() as int) == canonical(
            entries,
            entries.len() as int,
        ) ==> other == entries
}

/// A file is refused, or every string in it can be written as TOML.
pub open spec fn hashable(file: BlacklistFile) -> bool {
    let entries = blacklist_view(file.entry@);
    file.schema_version <= MAX_SCHEMA_VERSION && all_explained(entries) ==> entries_fit(entries)
}

/// Why a file is refused, if it is.
fn refusal(file: &BlacklistFile) -> (out: Option<BlacklistError>)
    ensures
        match out {
            Some(err) => BlacklistRegistry::accepts(*file, Err(err)),
            None => file.schema_version <= MAX_SCHEMA_VERSION && all_explained(
                blacklist_view(file.entry@),
            ),
        },
{
    let ghost entries: Seq<BlacklistEntryView> = blacklist_view(file.entry@);
    if file.schema_version > MAX_SCHEMA_VERSION {
        return Some(
            BlacklistError::UnsupportedVersion {
                found: file.schema_version,
                max: MAX_SCHEMA_VERSION,
            },
        );
    }
    let mut i: usize = 0;
    while i < file.entry.len()
        invariant
            entries == blacklist_view(file.entry@),
            file.schema_version <= MAX_SCHEMA_VERSION,
            i <= file.entry@.len(),
            forall|k: int| 0 <= k < i ==> !blank((#[trigger] entries[k]).rationale),
        decreases file.entry.len() - i,
    {
        assert(entries[i as int] == file.entry@[i as int]@);
        if is_blank(file.entry[i].rationale.as_str()) {
            assert(first_unexplained(entries, i as int));
            return Some(BlacklistError::EmptyRationale { pattern: file.entry[i].pattern.clone() });
        }
        i = i + 1;
    }
    None
}

/// Whether a version hash can be made for a file that is not refused.
pub fn is_hashable(file: &BlacklistFile) -> (yes: bool)
    ensures
        yes == hashable(*file),
{
    match refusal(file) {
        Some(_) => true,
        None => have_entries_fit(&file.entry),
    }
}

impl BlacklistRegistry {
    /// The version hash.
    pub open spec fn version(&self) -> Seq<char> {
        self.version_hash@
    }

    /// A blacklist without entries; its hash is that of nothing.
    pub fn empty() -> (registry: BlacklistRegistry)
        ensures
            registry@ == Seq::<BlacklistEntryView>::empty(),
            registry.version() == version_of(Seq::empty()),
    {
        let none: Vec<BlacklistEntry> = Vec::new();
        let text: String = canonical_text(&none);
        let registry: BlacklistRegistry = BlacklistRegistry {
            entries: AcceptedEntries { all: none },
            version_hash: hex_sha256(text.as_str()),
        };
        assert(registry@ =~= Seq::empty());
        registry
    }

    /// Takes the blacklist from what reading its file came to.
    pub fn load_from_path(path: &str, read: BlacklistRead) -> (out: Result<
        BlacklistRegistry,
        BlacklistError,
    >)
        requires
            read matches BlacklistRead::File(file) ==> hashable(file),
        ensures
            match read {
                BlacklistRead::Unreadable(source) => out matches Err(err) && err@
                    == (BlacklistErrorView::Io { path: path@, source: source@ }),
                BlacklistRead::Unparsable(source) => out matches Err(err) && err@
                    == (BlacklistErrorView::Parse { path: path@, source: source@ }),
                BlacklistRead::File(file) => BlacklistRegistry::accepts(file, out),
            },
    {
        match read {
            BlacklistRead::Unreadable(source) => Err(
                BlacklistError::Io { path: path.to_owned(), source },
            ),
            BlacklistRead::Unparsable(source) => Err(
                BlacklistError::Parse { path: path.to_owned(), source },
            ),
            BlacklistRead::File(file) => BlacklistRegistry::parse_toml(file),
        }
    }

    /// What a parsed file comes to: a format that is too new is refused, then
    /// the first entry without a rationale; any other file is accepted as it
    /// is.
    pub open spec fn accepts(
        file: BlacklistFile,
        out: Result<BlacklistRegistry, BlacklistError>,
    ) -> bool {
        let entries = blacklist_view(file.entry@);
        match out {
            Ok(registry) => {
                &&& file.schema_version <= MAX_SCHEMA_VERSION
                &&& all_explained(entries)
                &&& registry@ == entries
                &&& registry.version() == version_of(entries)
                &&& entries_fit(entries)
                &&& text_tells(entries)
            },
            Err(err) => if file.schema_version > MAX_SCHEMA_VERSION {
                err@ == (BlacklistErrorView::UnsupportedVersion {
                    found: file.schema_version,
                    max: MAX_SCHEMA_VERSION,
                })
            } else {
                exists|i: int| #[trigger]
                    first_unexplained(entries, i) && err@ == (BlacklistErrorView::EmptyRationale {
                        pattern: entries[i].pattern,
                    })
            },
        }
    }

    /// Takes the blacklist from its parsed file.
    pub fn parse_toml(file: BlacklistFile) -> (out: Result<BlacklistRegistry, BlacklistError>)
        requires
            hashable(file),
        ensures
            BlacklistRegistry::accepts(file, out),
    {
        if let Some(err) = refusal(&file) {
            return Err(err);
        }
        let text: String = canonical_text(&file.entry);
        let version_hash: String = hex_sha256(text.as_str());
        proof {
            lemma_text_tells(blacklist_view(file.entry@));
        }
        Ok(BlacklistRegistry { entries: AcceptedEntries { all: file.entry }, version_hash })
    }

    /// The first entry whose pattern is `action`: its pattern and rationale.
    pub fn check(&self, action: &str) -> (found: Option<(&str, &str)>)
        ensures
            match found {
                Some((pattern, rationale)) => exists|i: int|
                    0 <= i < self@.len() && (#[trigger] self@[i]).pattern == action@ && pattern@
                        == action@ && rationale@ == self@[i].rationale && forall|k: int|
                        0 <= k < i ==> (#[trigger] self@[k]).pattern != action@,
                None => forall|k: int|
                    0 <= k < self@.len() ==> (#[trigger] self@[k]).pattern != action@,
            },
    {
        let mut i: usize = 0;
        while i < self.entries.all.len()
            invariant
                i <= self.entries.all@.len(),
                forall|k: int| 0 <= k < i ==> (#[trigger] self@[k]).pattern != action@,
            decreases self.entries.all.len() - i,
        {
            assert(self@[i as int] == self.entries.all@[i as int]@);
            if same_text(self.entries.all[i].pattern.as_str(), action) {
                return Some(
                    (self.entries.all[i].pattern.as_str(), self.entries.all[i].rationale.as_str()),
                );
            }
            i = i + 1;
        }
        None
    }

    /// How many entries there are.
    #[must_use]
    pub fn len(&self) -> (n: usize)
        ensures
            n == self@.len(),
    {
        self.entries.all.len()
    }

    /// Whether there are no entries.
    #[must_use]
    pub fn is_empty(&self) -> (yes: bool)
        ensures
            yes == (self@.len() == 0),
    {
        self.entries.all.len() == 0
    }
}

/// The blacklist to start with, when loading it at startup came to `loaded`:
/// without a usable file it is the empty one.
pub fn initial_blacklist(loaded: Result<BlacklistRegistry, BlacklistError>) -> (registry:
    BlacklistRegistry)
    ensures
        match loaded {
            Ok(r) => registry == r,
            Err(_) => registry@.len() == 0 && registry.version() == version_of(Seq::empty()),
        },
{
    match loaded {
        Ok(registry) => registry,
        Err(_) => BlacklistRegistry::empty(),
    }
}

/// The blacklist in force after a reload came to `loaded`: the old one stays
/// where the new one is not accepted.
pub fn reloaded_blacklist(
    current: BlacklistRegistry,
    loaded: Result<BlacklistRegistry, BlacklistError>,
) -> (registry: BlacklistRegistry)
    ensures
        match loaded {
            Ok(r) => registry == r,
            Err(_) => registry == current,
        },
{
    match loaded {
        Ok(registry) => registry,
        Err(_) => current,
    }
}

/// The version hash depends on the entries alone: two files with the same
/// entries in the same order have one hash, whatever their format version.
pub proof fn law_hash_depends_on_entries(
    a: BlacklistFile,
    b: BlacklistFile,
    ra: BlacklistRegistry,
    rb: BlacklistRegistry,
)
    requires
        BlacklistRegistry::accepts(a, Ok(ra)),
        BlacklistRegistry::accepts(b, Ok(rb)),
        blacklist_view(a.entry@) == blacklist_view(b.entry@),
    ensures
        ra.version() == rb.version(),
        ra@ == rb@,
{
}

/// The canonical text of one entry.
spec fn entry_text(entry: BlacklistEntryView) -> Seq<char> {
    "[[entry]]\npattern = "@ + toml_string(entry.pattern) + "\nrationale = "@ + toml_string(
        entry.rationale,
    ) + "\n"@
}

/// The first entry comes first in the canonical text.
proof fn lemma_first_entry(entries: Seq<BlacklistEntryView>, n: int)
    requires
        1 <= n <= entries.len(),
    ensures
        canonical(entries, n) == entry_text(entries[0]) + canonical(entries.drop_first(), n - 1),
    decreases n,
{
    let rest = entries.drop_first();
    if n > 1 {
        lemma_first_entry(entries, n - 1);
        assert(rest[n - 2] == entries[n - 1]);
        assert(canonical(entries, n) =~= canonical(entries, n - 1) + entry_text(entries[n - 1]));
        assert(canonical(rest, n - 1) =~= canonical(rest, n - 2) + entry_text(rest[n - 2]));
        assert(canonical(entries, n) =~= entry_text(entries[0]) + canonical(rest, n - 1));
    } else {
        assert(canonical(entries, 0) =~= Seq::empty());
        assert(canonical(rest, 0) =~= Seq::empty());
        assert(canonical(entries, 1) =~= entry_text(entries[0]) + canonical(rest, 0));
    }
}

/// What follows a common beginning is common too.
proof fn lemma_after_common(start: Seq<char>, x: Seq<char>, y: Seq<char>)
    requires
        start + x == start + y,
    ensures
        x == y,
{
    assert((start + x).skip(start.len() as int) =~= x);
    assert((start + y).skip(start.len() as int) =~= y);
}

/// An entry's text, split behind the parts that are the same in every entry.
proof fn lemma_entry_parts(entry: BlacklistEntryView, rest: Seq<char>)
    ensures
        entry_text(entry) + rest == "[[entry]]\npattern = "@ + (toml_line(entry.pattern) + (
        "rationale = "@ + (toml_line(entry.rationale) + rest))),
{
    reveal_strlit("\nrationale = ");
    reveal_strlit("\n");
    reveal_strlit("rationale = ");
    assert("\nrationale = "@ =~= "\n"@ + "rationale = "@);
    assert(entry_text(entry) + rest =~= "[[entry]]\npattern = "@ + (toml_line(entry.pattern) + (
    "rationale = "@ + (toml_line(entry.rationale) + rest))));
}

/// Lines that begin one text begin alike.
proof fn lemma_lines_begin_alike(a: Seq<char>, b: Seq<char>, x: Seq<char>, y: Seq<char>)
    requires
        a + x == b + y,
    ensures
        begin_alike(a, b),
{
    assert forall|i: int| 0 <= i < a.len() && i < b.len() implies a[i] == b[i] by {
        assert((a + x)[i] == a[i]);
        assert((b + y)[i] == b[i]);
    }
    if a.len() <= b.len() {
        assert(b.subrange(0, a.len() as int) =~= a);
    } else {
        assert(a.subrange(0, b.len() as int) =~= b);
    }
}

/// Texts that begin with two entries tell the entries.
proof fn lemma_entry_is_told(
    a: BlacklistEntryView,
    b: BlacklistEntryView,
    x: Seq<char>,
    y: Seq<char>,
)
    requires
        line_tells(a.pattern),
        line_tells(a.rationale),
        quotes_fit(b.pattern),
        quotes_fit(b.rationale),
        entry_text(a) + x == entry_text(b) + y,
    ensures
        a == b,
        x == y,
{
    lemma_entry_parts(a, x);
    lemma_entry_parts(b, y);
    let ax = "rationale = "@ + (toml_line(a.rationale) + x);
    let by = "rationale = "@ + (toml_line(b.rationale) + y);
    lemma_after_common(
        "[[entry]]\npattern = "@,
        toml_line(a.pattern) + ax,
        toml_line(b.pattern) + by,
    );
    lemma_lines_begin_alike(toml_line(a.pattern), toml_line(b.pattern), ax, by);
    assert(a.pattern == b.pattern);
    lemma_after_common(toml_line(a.pattern), ax, by);
    lemma_after_common("rationale = "@, toml_line(a.rationale) + x, toml_line(b.rationale) + y);
    lemma_lines_begin_alike(toml_line(a.rationale), toml_line(b.rationale), x, y);
    assert(a.rationale == b.rationale);
    lemma_after_common(toml_line(a.rationale), x, y);
}

proof fn lemma_text_tells_entries(a: Seq<BlacklistEntryView>, b: Seq<BlacklistEntryView>)
    requires
        lines_tell(a),
        entries_fit(b),
        canonical(a, a.len() as int) == canonical(b, b.len() as int),
    ensures
        a == b,
    decreases a.len(),
{
    reveal_strlit("\n");
    if a.len() > 0 {
        lemma_first_entry(a, a.len() as int);
    }
    if b.len() > 0 {
        lemma_first_entry(b, b.len() as int);
    }
    if a.len() > 0 && b.len() > 0 {
        let (ra, rb) = (a.drop_first(), b.drop_first());
        assert(line_tells(a[0].pattern) && quotes_fit(b[0].pattern));
        lemma_entry_is_told(
            a[0],
            b[0],
            canonical(ra, ra.len() as int),
            canonical(rb, rb.len() as int),
        );
        assert forall|i: int| 0 <= i < ra.len() implies line_tells((#[trigger] ra[i]).pattern)
            && line_tells(ra[i].rationale) by {
            assert(ra[i] == a[i + 1]);
        }
        assert forall|i: int| 0 <= i < rb.len() implies quotes_fit((#[trigger] rb[i]).pattern)
            && quotes_fit(rb[i].rationale) by {
            assert(rb[i] == b[i + 1]);
        }
        lemma_text_tells_entries(ra, rb);
        assert(a =~= seq![a[0]] + ra);
        assert(b =~= seq![b[0]] + rb);
    } else {
        assert(a.len() > 0 ==> canonical(a, a.len() as int).len() > 0);
        assert(b.len() > 0 ==> canonical(b, b.len() as int).len() > 0);
        assert(a =~= b);
    }
}

proof fn lemma_text_tells(entries: Seq<BlacklistEntryView>)
    requires
        lines_tell(entries),
    ensures
        text_tells(entries),
{
    assert forall|other: Seq<BlacklistEntryView>|
        entries_fit(other) && #[trigger] canonical(other, other.len() as int) == canonical(
            entries,
            entries.len() as int,
        ) implies other == entries by {
        lemma_text_tells_entries(entries, other);
    }
}

/// Hexadecimal digits tell their bytes.
proof fn lemma_hex_tells_bytes(a: Seq<u8>, b: Seq<u8>)
    requires
        hex(a) == hex(b),
    ensures
        a == b,
    decreases a.len(),
{
    if a.len() > 0 && b.len() > 0 {
        let (ha, hb) = (hex(a), hex(b));
        let n = ha.len() as int;
        assert(ha[n - 1] == hex_char(a.last() as int % 16));
        assert(hb[n - 1] == hex_char(b.last() as int % 16));
        assert(ha[n - 2] == hex_char(a.last() as int / 16));
        assert(hb[n - 2] == hex_char(b.last() as int / 16));
        assert(a.last() == b.last());
        assert(hex(a.drop_last()) =~= ha.take(n - 2));
        assert(hex(b.drop_last()) =~= hb.take(n - 2));
        lemma_hex_tells_bytes(a.drop_last(), b.drop_last());
        assert(a =~= a.drop_last().push(a.last()));
        assert(b =~= b.drop_last().push(b.last()));
    } else {
        assert(a.len() > 0 ==> hex(a).len() > 0);
        assert(b.len() > 0 ==> hex(b).len() > 0);
        assert(a =~= b);
    }
}

/// Different entries have different version hashes, but for a collision of
/// SHA-256: two accepted files with one hash list the same entries in the same
/// order, or the bytes hashed for them differ and have one digest.
pub proof fn law_hash_tells_entries(
    a: BlacklistFile,
    b: BlacklistFile,
    ra: BlacklistRegistry,
    rb: BlacklistRegistry,
)
    requires
        BlacklistRegistry::accepts(a, Ok(ra)),
        BlacklistRegistry::accepts(b, Ok(rb)),
    ensures
        hashed(ra@) == hashed(rb@) <==> blacklist_view(a.entry@) == blacklist_view(b.entry@),
        ra.version_hash@ == rb.version_hash@ ==> blacklist_view(a.entry@) == blacklist_view(
            b.entry@,
        ) || (hashed(ra@) != hashed(rb@) && sha256_digest(hashed(ra@)) == sha256_digest(
            hashed(rb@),
        )),
{
    vstd::utf8::encode_utf8_decode_utf8(canonical(ra@, ra@.len() as int));
    vstd::utf8::encode_utf8_decode_utf8(canonical(rb@, rb@.len() as int));
    if hashed(ra@) == hashed(rb@) {
        assert(canonical(rb@, rb@.len() as int) == canonical(ra@, ra@.len() as int));
    }
    if ra.version_hash@ == rb.version_hash@ {
        lemma_hex_tells_bytes(sha256_digest(hashed(ra@)), sha256_digest(hashed(rb@)));
    }
}

/// A file that is refused is told why: by the version that was found and the
/// newest that is understood, or by the pattern of the first entry without a
/// rationale; and only such a file is refused.
pub proof fn law_refused_files_are_told_why(file: BlacklistFile, err: BlacklistError)
    requires
        BlacklistRegistry::accepts(file, Err(err)),
    ensures
        match err@ {
            BlacklistErrorView::UnsupportedVersion { found, max } => found == file.schema_version
                && found > max && max == 1,
            BlacklistErrorView::EmptyRationale { pattern } => file.schema_version <= 1 && exists|i: int|
                0 <= i < file.entry@.len() && pattern == (#[trigger] file.entry@[i]).pattern@
                    && blank(file.entry@[i].rationale@),
            _ => false,
        },
{
    let entries = blacklist_view(file.entry@);
    if file.schema_version <= MAX_SCHEMA_VERSION {
        let i = choose|i: int| #[trigger]
            first_unexplained(entries, i) && err@ == (BlacklistErrorView::EmptyRationale {
                pattern: entries[i].pattern,
            });
        assert(entries[i] == file.entry@[i]@);
    }
}

/// A blacklist that is accepted is the file's: entry for entry, each with its
/// rationale.
pub proof fn law_accepted_files_are_kept_whole(file: BlacklistFile, registry: BlacklistRegistry)
    requires
        BlacklistRegistry::accepts(file, Ok(registry)),
    ensures
        file.schema_version <= 1,
        registry@.len() == file.entry@.len(),
        forall|i: int|
            0 <= i < file.entry@.len() ==> (#[trigger] registry@[i]).pattern
                == file.entry@[i].pattern@ && registry@[i].rationale == file.entry@[i].rationale@
                && !blank(file.entry@[i].rationale@),
{
    let entries = blacklist_view(file.entry@);
    assert forall|i: int| 0 <= i < file.entry@.len() implies (#[trigger] registry@[i]).pattern
        == file.entry@[i].pattern@ && registry@[i].rationale == file.entry@[i].rationale@ && !blank(
        file.entry@[i].rationale@,
    ) by {
        assert(entries[i] == file.entry@[i]@);
        assert(!blank(entries[i].rationale));
    }
}

/// What is said of an entry is said of its own parts, each in its place.
pub proof fn law_blacklist_entry_is_taken_as_it_is(value: BlacklistEntry)
    ensures
        value@.pattern == value.pattern@,
        value@.rationale == value.rationale@,
{
}

} // verus!
