//! The record of one encrypt/decrypt round trip, shared by the text and the
//! JSON output.

use vstd::prelude::*;

use crate::text::{contains_text, lemma_contains_middle};

verus! {

/// A field, its plaintext, the token it became and what the token decrypted
/// back to.
#[derive(Debug)]
pub struct RoundTrip {
    pub field: String,
    pub original: String,
    pub encrypted: String,
    pub decrypted: String,
}

/// The human-readable summary: one labelled line per value, labels padded to
/// one width, lines joined by `\n`.
pub open spec fn summary_text(
    field: Seq<char>,
    original: Seq<char>,
    encrypted: Seq<char>,
    decrypted: Seq<char>,
) -> Seq<char> {
    "Field:      "@ + field + "\n"@ + "Original:   "@ + original + "\n"@ + "Encrypted:  "@
        + encrypted + "\n"@ + "Decrypted:  "@ + decrypted
}

impl RoundTrip {
    /// The human-readable summary of the round trip.
    pub fn summary(&self) -> (s: String)
        ensures
            s@ == summary_text(self.field@, self.original@, self.encrypted@, self.decrypted@),
    {
        let mut s = String::from_str("Field:      ");
        s.append(self.field.as_str());
        s.append("\n");
        s.append("Original:   ");
        s.append(self.original.as_str());
        s.append("\n");
        s.append("Encrypted:  ");
        s.append(self.encrypted.as_str());
        s.append("\n");
        s.append("Decrypted:  ");
        s.append(self.decrypted.as_str());
        s
    }
}

/// The message for a required environment variable that is not set.
pub open spec fn missing_env_text(key: Seq<char>) -> Seq<char> {
    "missing required environment variable `"@ + key
        + "`. Set it in your shell or add it to a .env file. See .env.example for the expected format."@
}

/// The error message given when the environment variable `key` is missing.
pub fn missing_env_message(key: &str) -> (m: String)
    ensures
        m@ == missing_env_text(key@),
{
    let mut m = String::from_str("missing required environment variable `");
    m.append(key);
    m.append(
        "`. Set it in your shell or add it to a .env file. See .env.example for the expected format.",
    );
    m
}

/// Shape of four labelled lines joined by a one-character separator.
proof fn lemma_labelled_lines(
    fl: Seq<char>,
    ol: Seq<char>,
    el: Seq<char>,
    dl: Seq<char>,
    nl: Seq<char>,
    f: Seq<char>,
    o: Seq<char>,
    e: Seq<char>,
    d: Seq<char>,
)
    requires
        fl.len() == 12,
        nl.len() == 1,
    ensures
        (fl + f + nl + ol + o + nl + el + e + nl + dl + d).subrange(0, 13 + f.len() as int) == fl
            + f + nl,
        contains_text(fl + f + nl + ol + o + nl + el + e + nl + dl + d, nl + ol + o + nl),
        contains_text(fl + f + nl + ol + o + nl + el + e + nl + dl + d, nl + el + e + nl),
        (fl + f + nl + ol + o + nl + el + e + nl + dl + d).subrange(
            (fl + f + nl + ol + o + nl + el + e + nl + dl + d).len() - (1 + dl.len() + d.len()),
            (fl + f + nl + ol + o + nl + el + e + nl + dl + d).len() as int,
        ) == nl + dl + d,
{
    let s = fl + f + nl + ol + o + nl + el + e + nl + dl + d;
    assert(s.subrange(0, 13 + f.len() as int) =~= fl + f + nl);
    assert(s.subrange(s.len() - (1 + dl.len() + d.len()), s.len() as int) =~= nl + dl + d);
    assert((fl + f) + (nl + ol + o + nl) + (el + e + nl + dl + d) =~= s);
    lemma_contains_middle(fl + f, nl + ol + o + nl, el + e + nl + dl + d);
    assert((fl + f + nl + ol + o) + (nl + el + e + nl) + (dl + d) =~= s);
    lemma_contains_middle(fl + f + nl + ol + o, nl + el + e + nl, dl + d);
}

/// The summary holds each value whole on its own labelled line: it starts
/// with the field's line, holds the original's and the token's lines between
/// line breaks, ends with the decrypted value's line, and has no other text.
pub proof fn lemma_summary_shows_each_value_whole(
    field: Seq<char>,
    original: Seq<char>,
    encrypted: Seq<char>,
    decrypted: Seq<char>,
)
    ensures
        summary_text(field, original, encrypted, decrypted).len() == 51 + field.len()
            + original.len() + encrypted.len() + decrypted.len(),
        summary_text(field, original, encrypted, decrypted).subrange(0, 13 + field.len() as int)
            == "Field:      "@ + field + "\n"@,
        contains_text(
            summary_text(field, original, encrypted, decrypted),
            "\n"@ + "Original:   "@ + original + "\n"@,
        ),
        contains_text(
            summary_text(field, original, encrypted, decrypted),
            "\n"@ + "Encrypted:  "@ + encrypted + "\n"@,
        ),
        summary_text(field, original, encrypted, decrypted).subrange(
            summary_text(field, original, encrypted, decrypted).len() - 13 - decrypted.len(),
            summary_text(field, original, encrypted, decrypted).len() as int,
        ) == "\n"@ + "Decrypted:  "@ + decrypted,
{
    reveal_strlit("Field:      ");
    reveal_strlit("Original:   ");
    reveal_strlit("Encrypted:  ");
    reveal_strlit("Decrypted:  ");
    reveal_strlit("\n");
    lemma_labelled_lines(
        "Field:      "@,
        "Original:   "@,
        "Encrypted:  "@,
        "Decrypted:  "@,
        "\n"@,
        field,
        original,
        encrypted,
        decrypted,
    );
}

} // verus!
