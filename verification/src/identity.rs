//! Identities and instants, as the runtime's rules read them.

use vstd::prelude::*;

use crate::text::same_text;

verus! {

/// The characters of an optional string.
pub open spec fn opt_text(s: Option<String>) -> Option<Seq<char>> {
    match s {
        Some(t) => Some(t@),
        None => None,
    }
}

/// The characters of each string of a sequence.
pub open spec fn texts(v: Seq<String>) -> Seq<Seq<char>> {
    v.map_values(|s: String| s@)
}

/// The texts of a sequence of string slices.
pub open spec fn slices(v: Seq<&'static str>) -> Seq<Seq<char>> {
    v.map_values(|s: &'static str| s@)
}

/// The last of the texts is that of the string added last.
pub proof fn lemma_texts_push(v: Seq<String>, s: String)
    ensures
        texts(v.push(s)) == texts(v).push(s@),
{
    assert(texts(v.push(s)) =~= texts(v).push(s@));
}

/// An identity, held in its canonical text form.
///
/// Two identities are the same exactly when their text forms are.
#[derive(Debug, PartialEq, Eq)]
pub struct IdentityId {
    /// Canonical text form.
    pub text: String,
}

impl View for IdentityId {
    type V = Seq<char>;

    open spec fn view(&self) -> Seq<char> {
        self.text@
    }
}

/// The text form of an optional identity.
pub open spec fn opt_id(id: Option<IdentityId>) -> Option<Seq<char>> {
    match id {
        Some(i) => Some(i@),
        None => None,
    }
}

impl IdentityId {
    /// The identity whose canonical text form is `text`.
    pub fn new(text: &str) -> (id: IdentityId)
        ensures
            id@ == text@,
    {
        IdentityId { text: text.to_owned() }
    }

    /// Whether `self` and `other` name one identity.
    pub fn same(&self, other: &IdentityId) -> (yes: bool)
        ensures
            yes == (self@ == other@),
    {
        same_text(self.text.as_str(), other.text.as_str())
    }
}

impl Clone for IdentityId {
    fn clone(&self) -> (id: IdentityId)
        ensures
            id@ == self@,
    {
        IdentityId { text: self.text.clone() }
    }
}

/// An instant in UTC.
#[derive(Debug, Clone, Copy, PartialEq, Eq, Structural)]
pub struct Timestamp {
    /// Nanoseconds since the Unix epoch.
    pub unix_nanos: i128,
}

/// A copy of an optional string.
pub fn copy_opt(s: &Option<String>) -> (copy: Option<String>)
    ensures
        opt_text(copy) == opt_text(*s),
{
    match s {
        Some(t) => Some(t.clone()),
        None => None,
    }
}

/// A copy of each string of a vector, in order.
pub fn copy_texts(v: &Vec<String>) -> (copy: Vec<String>)
    ensures
        texts(copy@) == texts(v@),
{
    let mut copy: Vec<String> = Vec::new();
    let mut i: usize = 0;
    while i < v.len()
        invariant
            i <= v@.len(),
            texts(copy@) == texts(v@).take(i as int),
        decreases v.len() - i,
    {
        proof {
            lemma_texts_push(copy@, v@[i as int]);
            assert(texts(v@).take(i as int).push(v@[i as int]@) =~= texts(v@).take(i + 1));
        }
        copy.push(v[i].clone());
        i = i + 1;
    }
    assert(texts(v@).take(v@.len() as int) =~= texts(v@));
    copy
}

/// Whether `v` holds the text `s`.
pub fn holds_text(v: &Vec<String>, s: &str) -> (yes: bool)
    ensures
        yes == texts(v@).contains(s@),
{
    let mut i: usize = 0;
    while i < v.len()
        invariant
            i <= v@.len(),
            forall|k: int| 0 <= k < i ==> #[trigger] texts(v@)[k] != s@,
        decreases v.len() - i,
    {
        if same_text(v[i].as_str(), s) {
            assert(texts(v@)[i as int] == s@);
            return true;
        }
        assert(texts(v@)[i as int] != s@);
        i = i + 1;
    }
    false
}

// ── Laws ─────────────────────────────────────────────────────────────────────

/// Nothing is lost of what may be missing: it is there exactly where it was
/// given, and holds what was given.
pub proof fn law_what_is_there_is_kept(text: Option<String>, id: Option<IdentityId>)
    ensures
        text matches Some(t) ==> opt_text(text) == Some(t@),
        text is None ==> opt_text(text) is None,
        id matches Some(i) ==> opt_id(id) == Some(i@),
        id is None ==> opt_id(id) is None,
{
}

/// The texts of a list are those that it holds, in order.
pub proof fn law_texts_are_kept_in_order(v: Seq<String>, more: String)
    ensures
        texts(Seq::empty()) == Seq::<Seq<char>>::empty(),
        texts(v.push(more)) == texts(v).push(more@),
{
    assert(texts(Seq::empty()) =~= Seq::<Seq<char>>::empty());
    lemma_texts_push(v, more);
}

} // verus!
