//! The metadata that a series carries and hands on to each of its tokens.

use vstd::prelude::*;

verus! {

/// The text of an optional string.
pub open spec fn opt_text(s: Option<String>) -> Option<Seq<char>> {
    match s {
        Some(t) => Some(t@),
        None => None,
    }
}

/// The bytes of an optional byte vector.
pub open spec fn opt_bytes(b: Option<Vec<u8>>) -> Option<Seq<u8>> {
    match b {
        Some(v) => Some(v@),
        None => None,
    }
}

/// Copies an optional string.
pub fn copy_text(s: &Option<String>) -> (r: Option<String>)
    ensures
        opt_text(r) == opt_text(*s),
{
    match s {
        Some(t) => Some(t.clone()),
        None => None,
    }
}

/// Copies an optional byte vector.
pub fn copy_bytes(b: &Option<Vec<u8>>) -> (r: Option<Vec<u8>>)
    ensures
        opt_bytes(r) == opt_bytes(*b),
{
    match b {
        Some(v) => {
            let mut out: Vec<u8> = Vec::new();
            let mut i: usize = 0;
            while i < v.len()
                invariant
                    0 <= i <= v@.len(),
                    out@ == v@.take(i as int),
                decreases v@.len() - i,
            {
                out.push(v[i]);
                assert(out@ =~= v@.take(i + 1));
                i += 1;
            }
            assert(out@ =~= v@);
            Some(out)
        },
        None => None,
    }
}

/// Metadata of a token, as the token standard lays it out.
#[derive(Debug)]
pub struct TokenMetadata {
    /// The name of the work.
    pub title: Option<String>,
    /// A free-form description.
    pub description: Option<String>,
    /// Where the media of the work is found.
    pub media: Option<String>,
    /// The hash of the content that `media` refers to.
    pub media_hash: Option<Vec<u8>>,
    /// How many copies of the work there are to be: the supply cap of a series.
    pub copies: Option<u64>,
    /// When the token was issued.
    pub issued_at: Option<String>,
    /// When the token expires.
    pub expires_at: Option<String>,
    /// When the token starts to be valid.
    pub starts_at: Option<String>,
    /// When the token was last updated.
    pub updated_at: Option<String>,
    /// Anything else kept with the token.
    pub extra: Option<String>,
    /// Where more about the token is found.
    pub reference: Option<String>,
    /// The hash of the content that `reference` refers to.
    pub reference_hash: Option<Vec<u8>>,
}

/// What a `TokenMetadata` holds, as mathematical values.
pub struct MetadataView {
    pub title: Option<Seq<char>>,
    pub description: Option<Seq<char>>,
    pub media: Option<Seq<char>>,
    pub media_hash: Option<Seq<u8>>,
    pub copies: Option<u64>,
    pub issued_at: Option<Seq<char>>,
    pub expires_at: Option<Seq<char>>,
    pub starts_at: Option<Seq<char>>,
    pub updated_at: Option<Seq<char>>,
    pub extra: Option<Seq<char>>,
    pub reference: Option<Seq<char>>,
    pub reference_hash: Option<Seq<u8>>,
}

impl View for TokenMetadata {
    type V = MetadataView;

    open spec fn view(&self) -> MetadataView {
        MetadataView {
            title: opt_text(self.title),
            description: opt_text(self.description),
            media: opt_text(self.media),
            media_hash: opt_bytes(self.media_hash),
            copies: self.copies,
            issued_at: opt_text(self.issued_at),
            expires_at: opt_text(self.expires_at),
            starts_at: opt_text(self.starts_at),
            updated_at: opt_text(self.updated_at),
            extra: opt_text(self.extra),
            reference: opt_text(self.reference),
            reference_hash: opt_bytes(self.reference_hash),
        }
    }
}

impl Clone for TokenMetadata {
    fn clone(&self) -> (r: Self)
        ensures
            r@ == self@,
    {
        TokenMetadata {
            title: copy_text(&self.title),
            description: copy_text(&self.description),
            media: copy_text(&self.media),
            media_hash: copy_bytes(&self.media_hash),
            copies: self.copies,
            issued_at: copy_text(&self.issued_at),
            expires_at: copy_text(&self.expires_at),
            starts_at: copy_text(&self.starts_at),
            updated_at: copy_text(&self.updated_at),
            extra: copy_text(&self.extra),
            reference: copy_text(&self.reference),
            reference_hash: copy_bytes(&self.reference_hash),
        }
    }
}

impl MetadataView {
    /// Whether the metadata carries a title that is not empty.
    pub open spec fn has_title(self) -> bool {
        self.title matches Some(title) && title.len() > 0
    }
}

impl TokenMetadata {
    /// Whether the metadata carries a title that is not empty.
    pub fn has_title(&self) -> (r: bool)
        ensures
            r == self@.has_title(),
    {
        match &self.title {
            Some(title) => !title.as_str().is_empty(),
            None => false,
        }
    }
}

} // verus!
