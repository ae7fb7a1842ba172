//! Identifier kinds and identifiers.
//!
//! A kind is a prefix and a segment length. An identifier carries its kind
//! and its text, and its text is always one that the kind accepts.

use vstd::prelude::*;
use vstd::std_specs::cmp::PartialEqSpecImpl;
use smol_str::SmolStr;
use crate::alphabet::{
    is_fresh_text, lemma_segment_bytes, DEFAULT_SEGMENT_LENGTH, MAX_TEXT_LENGTH,
};
use crate::store::{smol_as_str, smol_into_string, smol_new, smol_text};
use crate::text::{byte_len, lead, lemma_encode_concat, lemma_lead_bytes, starts_with_lead};

verus! {

/// Why a text is not an identifier of a kind.
#[derive(Debug, Clone, Copy, PartialEq, Eq, Structural)]
pub enum CreateIdError {
    /// The text has not the length that the kind fixes.
    InvalidSize,
    /// The text has the right length but does not begin with the prefix and the separator.
    InvalidPrefix,
}

/// A kind as a mathematical value.
pub ghost struct Kind {
    pub prefix: Seq<char>,
    pub segment_length: nat,
}

/// The configurations that make a kind: a prefix that is not empty, at least
/// one symbol, and a text short enough to be generated.
pub open spec fn valid_kind(prefix: Seq<char>, segment_length: nat) -> bool {
    &&& prefix.len() > 0
    &&& segment_length > 0
    &&& byte_len(prefix) + 1 + segment_length <= MAX_TEXT_LENGTH
}

/// The length in bytes of every identifier of a kind.
pub open spec fn total_length(kind: Kind) -> nat {
    byte_len(kind.prefix) + 1 + kind.segment_length
}

/// What parsing `text` as an identifier of `kind` gives: the length is
/// tested first, then the prefix with its separator; the symbols after the
/// separator are not looked at.
pub open spec fn parse_spec(kind: Kind, text: Seq<char>) -> Result<Seq<char>, CreateIdError> {
    if byte_len(text) != total_length(kind) {
        Err(CreateIdError::InvalidSize)
    } else if !lead(kind.prefix).is_prefix_of(text) {
        Err(CreateIdError::InvalidPrefix)
    } else {
        Ok(text)
    }
}

/// Whether `text` is an identifier of `kind`.
pub open spec fn accepts(kind: Kind, text: Seq<char>) -> bool {
    parse_spec(kind, text) == Ok::<Seq<char>, CreateIdError>(text)
}

/// A prefix and a segment length: the configuration of one kind of identifier.
#[derive(Debug, Eq, Hash)]
pub struct IdKind {
    prefix: String,
    segment_length: usize,
}

impl View for IdKind {
    type V = Kind;

    closed spec fn view(&self) -> Kind {
        Kind { prefix: self.prefix@, segment_length: self.segment_length as nat }
    }
}

impl PartialEq for IdKind {
    fn eq(&self, other: &Self) -> (same: bool) {
        self.prefix == other.prefix && self.segment_length == other.segment_length
    }
}

/// Two kinds are equal when their prefixes and segment lengths are.
impl PartialEqSpecImpl for IdKind {
    open spec fn obeys_eq_spec() -> bool {
        true
    }

    open spec fn eq_spec(&self, other: &Self) -> bool {
        self@ == other@
    }
}

impl Clone for IdKind {
    fn clone(&self) -> (copy: Self)
        ensures
            copy@ == self@,
    {
        proof {
            use_type_invariant(self);
        }
        IdKind { prefix: self.prefix.clone(), segment_length: self.segment_length }
    }
}

impl IdKind {
    /// Every kind that exists is a valid configuration.
    #[verifier::type_invariant]
    spec fn is_valid(self) -> bool {
        valid_kind(self.prefix@, self.segment_length as nat)
    }

    /// The kind with this prefix and segment length, if they make one.
    pub fn new(prefix: &str, segment_length: usize) -> (kind: Option<IdKind>)
        ensures
            kind.is_some() == valid_kind(prefix@, segment_length as nat),
            kind matches Some(k) ==> k@ == (Kind {
                prefix: prefix@,
                segment_length: segment_length as nat,
            }),
    {
        let prefix_len = prefix.as_bytes().len();
        if prefix.is_empty() || segment_length == 0 || segment_length >= MAX_TEXT_LENGTH
            || prefix_len > MAX_TEXT_LENGTH - 1 - segment_length {
            None
        } else {
            Some(IdKind { prefix: String::from_str(prefix), segment_length })
        }
    }

    /// The kind with this prefix and the default segment length.
    pub fn with_default_length(prefix: &str) -> (kind: Option<IdKind>)
        ensures
            kind.is_some() == valid_kind(prefix@, DEFAULT_SEGMENT_LENGTH as nat),
            kind matches Some(k) ==> k@ == (Kind {
                prefix: prefix@,
                segment_length: DEFAULT_SEGMENT_LENGTH as nat,
            }),
    {
        IdKind::new(prefix, DEFAULT_SEGMENT_LENGTH)
    }

    /// The prefix, which is never empty.
    pub fn prefix(&self) -> (prefix: &str)
        ensures
            prefix@ == self@.prefix,
            valid_kind(self@.prefix, self@.segment_length),
    {
        proof {
            use_type_invariant(self);
        }
        self.prefix.as_str()
    }

    /// The number of symbols after the separator, which is never zero.
    pub fn segment_length(&self) -> (length: usize)
        ensures
            length == self@.segment_length,
            valid_kind(self@.prefix, self@.segment_length),
    {
        proof {
            use_type_invariant(self);
        }
        self.segment_length
    }

    /// The length in bytes of every identifier of this kind.
    pub fn total_length(&self) -> (length: usize)
        ensures
            length == total_length(self@),
            valid_kind(self@.prefix, self@.segment_length),
    {
        proof {
            use_type_invariant(self);
        }
        self.prefix.as_str().as_bytes().len() + 1 + self.segment_length
    }
}

/// An identifier: a text that its kind accepts.
#[derive(Debug, Eq, Hash)]
pub struct PrefixId {
    kind: IdKind,
    text: SmolStr,
}

impl View for PrefixId {
    type V = Seq<char>;

    closed spec fn view(&self) -> Seq<char> {
        smol_text(self.text)
    }
}

impl PartialEq for PrefixId {
    fn eq(&self, other: &Self) -> (same: bool) {
        self.kind == other.kind && self.text == other.text
    }
}

/// Two identifiers are equal when they are of one kind and read the same.
impl PartialEqSpecImpl for PrefixId {
    open spec fn obeys_eq_spec() -> bool {
        true
    }

    open spec fn eq_spec(&self, other: &Self) -> bool {
        self.kind_of() == other.kind_of() && self@ == other@
    }
}

impl Clone for PrefixId {
    fn clone(&self) -> (copy: Self)
        ensures
            copy@ == self@,
            copy.kind_of() == self.kind_of(),
    {
        proof {
            use_type_invariant(self);
        }
        PrefixId { kind: self.kind.clone(), text: self.text.clone() }
    }
}

impl core::ops::Deref for PrefixId {
    type Target = str;

    fn deref(&self) -> (text: &str)
        ensures
            text@ == self@,
    {
        smol_as_str(&self.text)
    }
}

impl PrefixId {
    /// The kind that this identifier belongs to.
    pub closed spec fn kind_of(&self) -> Kind {
        self.kind@
    }

    /// The kind of every identifier that exists accepts its text.
    #[verifier::type_invariant]
    spec fn is_accepted(self) -> bool {
        accepts(self.kind@, smol_text(self.text))
    }

    /// A fresh identifier of `kind`: its prefix, the separator, and random symbols.
    pub fn new(kind: &IdKind) -> (id: PrefixId)
        ensures
            id.kind_of() == kind@,
            is_fresh_text(id@, kind@.prefix, kind@.segment_length),
            byte_len(id@) == total_length(kind@),
            accepts(kind@, id@),
    {
        let text = crate::format(kind.prefix(), kind.segment_length());
        proof {
            lemma_fresh_text_parses(kind@, text@);
        }
        PrefixId { kind: kind.clone(), text: smol_new(text.as_str()) }
    }

    /// Reads `s` as an identifier of `kind`.
    pub fn parse(kind: &IdKind, s: &str) -> (parsed: Result<PrefixId, CreateIdError>)
        ensures
            match parsed {
                Ok(id) => parse_spec(kind@, s@) == Ok::<Seq<char>, CreateIdError>(id@)
                    && id.kind_of() == kind@,
                Err(e) => parse_spec(kind@, s@) == Err::<Seq<char>, CreateIdError>(e),
            },
    {
        if s.as_bytes().len() != kind.total_length() {
            return Err(CreateIdError::InvalidSize);
        }
        if !starts_with_lead(s, kind.prefix()) {
            return Err(CreateIdError::InvalidPrefix);
        }
        Ok(PrefixId { kind: kind.clone(), text: smol_new(s) })
    }

    /// The kind that this identifier belongs to.
    pub fn kind(&self) -> (kind: &IdKind)
        ensures
            kind@ == self.kind_of(),
    {
        &self.kind
    }

    /// The canonical text, which the identifier's kind accepts.
    pub fn as_str(&self) -> (text: &str)
        ensures
            text@ == self@,
            accepts(self.kind_of(), self@),
    {
        proof {
            use_type_invariant(self);
        }
        smol_as_str(&self.text)
    }

    /// A copy of the canonical text.
    pub fn to_string(&self) -> (text: String)
        ensures
            text@ == self@,
            accepts(self.kind_of(), self@),
    {
        self.as_str().to_owned()
    }

    /// The canonical text, owned.
    pub fn into_string(self) -> (text: String)
        ensures
            text@ == self@,
            accepts(self.kind_of(), self@),
    {
        proof {
            use_type_invariant(&self);
        }
        smol_into_string(self.text)
    }
}

/// A fresh text of a kind has the kind's total length in bytes, and parsing
/// it gives the same text back.
pub proof fn lemma_fresh_text_parses(kind: Kind, text: Seq<char>)
    requires
        is_fresh_text(text, kind.prefix, kind.segment_length),
    ensures
        byte_len(text) == total_length(kind),
        parse_spec(kind, text) == Ok::<Seq<char>, CreateIdError>(text),
{
    let head = lead(kind.prefix);
    let segment = text.subrange(kind.prefix.len() as int + 1, text.len() as int);
    assert(text =~= head + segment);
    lemma_encode_concat(head, segment);
    lemma_lead_bytes(kind.prefix);
    lemma_segment_bytes(segment, kind.segment_length);
}

} // verus!
