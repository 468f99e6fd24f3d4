//! Keeping the viewer's clipboard and the local one the same, without sending
//! back what was received.
use crate::model::Protocol;
use crate::text;
use crate::text::{push_decimal, push_str};
use std::hash::{DefaultHasher, Hasher};
use vstd::prelude::*;
use vstd::std_specs::hash::DefaultHasherAdditionalSpecFns;
use vstd::utf8;

verus! {

/// What `str::hash` writes to a hasher for a text.
pub uninterp spec fn hash_writes(text: Seq<char>) -> Seq<Seq<u8>>;

/// `str::hash` into a `DefaultHasher`: what it writes depends on the text alone,
/// and comes after what was written before. Which bytes it writes is not stated.
#[verifier::external_body]
fn hash_into(text: &str, hasher: &mut DefaultHasher)
    ensures
        final(hasher)@ == old(hasher)@ + hash_writes(text@),
{
    std::hash::Hash::hash(text, hasher);
}

/// The hash of a text by a new `DefaultHasher`.
pub open spec fn text_hash(text: Seq<char>) -> u64 {
    DefaultHasher::spec_finish(hash_writes(text))
}

fn hash_text(text: &str) -> (hash: u64)
    ensures
        hash == text_hash(text@),
{
    let mut hasher = DefaultHasher::new();
    hash_into(text, &mut hasher);
    assert(hasher@ =~= hash_writes(text@));
    hasher.finish()
}

/// What is remembered of a text.
#[derive(Debug, Clone, Copy, PartialEq, Eq, Structural)]
pub struct ClipboardFingerprint {
    pub bytes: usize,
    pub hash: u64,
}

pub open spec fn fingerprint(text: Seq<char>) -> ClipboardFingerprint {
    ClipboardFingerprint {
        bytes: utf8::encode_utf8(text).len() as usize,
        hash: text_hash(text),
    }
}

impl ClipboardFingerprint {
    pub fn of(text: &str) -> (found: Self)
        ensures
            found == fingerprint(text@),
    {
        ClipboardFingerprint { bytes: text.as_bytes().len(), hash: hash_text(text) }
    }
}

/// Whether a text may be sent or received.
pub open spec fn fits(text: Seq<char>, protocol: Protocol) -> bool {
    utf8::encode_utf8(text).len() <= protocol.clipboard_text_bytes
}

pub open spec fn too_long(length: nat, limit: nat) -> Seq<char> {
    "clipboard text is "@ + text::decimal(length) + " bytes; the session limit is "@
        + text::decimal(limit) + " bytes"@
}

pub fn validate_text(text: &str, protocol: &Protocol) -> (result: Result<(), String>)
    ensures
        if fits(text@, *protocol) {
            result is Ok
        } else {
            result matches Err(message) && message@ == too_long(
                utf8::encode_utf8(text@).len(),
                protocol.clipboard_text_bytes as nat,
            )
        },
{
    let length: usize = text.as_bytes().len();
    if length <= protocol.clipboard_text_bytes {
        return Ok(());
    }
    let mut message = "clipboard text is ".to_owned();
    push_decimal(&mut message, length as u64);
    push_str(&mut message, " bytes; the session limit is ");
    push_decimal(&mut message, protocol.clipboard_text_bytes as u64);
    push_str(&mut message, " bytes");
    Err(message)
}

/// What is known of the local clipboard.
#[derive(Debug, Clone, Copy, PartialEq, Eq, Structural)]
pub struct ClipboardSync {
    pub last_fingerprint: Option<ClipboardFingerprint>,
    pub initialized: bool,
}

impl ClipboardSync {
    pub fn new() -> (sync: Self)
        ensures
            sync == (ClipboardSync { last_fingerprint: None, initialized: false }),
    {
        ClipboardSync { last_fingerprint: None, initialized: false }
    }

    /// The state after a look at the clipboard, which may hold no text.
    pub open spec fn polled(self, found: Option<ClipboardFingerprint>) -> ClipboardSync {
        ClipboardSync { last_fingerprint: found, initialized: true }
    }

    /// Whether a text is news: the first look only takes note.
    pub open spec fn is_news(self, found: ClipboardFingerprint) -> bool {
        self.initialized && self.last_fingerprint != Some(found)
    }

    /// Takes note of a text with a fingerprint; whether it is news.
    pub fn note(&mut self, found: ClipboardFingerprint) -> (news: bool)
        ensures
            news == old(self).is_news(found),
            *final(self) == old(self).polled(Some(found)),
    {
        let same = match self.last_fingerprint {
            Some(last) => last == found,
            None => false,
        };
        let news = self.initialized && !same;
        self.last_fingerprint = Some(found);
        self.initialized = true;
        news
    }

    /// Looks at the text on the clipboard, if there is one; what to send.
    pub fn poll(&mut self, text: Option<String>, protocol: &Protocol) -> (sent: Result<
        Option<String>,
        String,
    >)
        ensures
            match text {
                None => sent matches Ok(None) && *final(self) == old(self).polled(None),
                Some(found) => {
                    &&& *final(self) == old(self).polled(Some(fingerprint(found@)))
                    &&& if !old(self).is_news(fingerprint(found@)) {
                        sent matches Ok(None)
                    } else if fits(found@, *protocol) {
                        sent matches Ok(Some(news)) && news@ == found@
                    } else {
                        sent matches Err(message) && message@ == too_long(
                            utf8::encode_utf8(found@).len(),
                            protocol.clipboard_text_bytes as nat,
                        )
                    }
                },
            },
    {
        match text {
            None => {
                self.initialized = true;
                self.last_fingerprint = None;
                Ok(None)
            },
            Some(found) => {
                if !self.note(ClipboardFingerprint::of(found.as_str())) {
                    return Ok(None);
                }
                match validate_text(found.as_str(), protocol) {
                    Ok(()) => Ok(Some(found)),
                    Err(message) => Err(message),
                }
            },
        }
    }

    /// Whether a received text has to be written to the clipboard.
    pub fn plan_apply(&self, text: &str, protocol: &Protocol) -> (write: Result<bool, String>)
        ensures
            if fits(text@, *protocol) {
                write == Ok::<bool, String>(self.last_fingerprint != Some(fingerprint(text@)))
            } else {
                write matches Err(message) && message@ == too_long(
                    utf8::encode_utf8(text@).len(),
                    protocol.clipboard_text_bytes as nat,
                )
            },
    {
        if let Err(message) = validate_text(text, protocol) {
            return Err(message);
        }
        let found = ClipboardFingerprint::of(text);
        Ok(
            match self.last_fingerprint {
                Some(last) => last != found,
                None => true,
            },
        )
    }

    /// Takes note of a received text that was written.
    pub fn apply(&mut self, text: &str)
        ensures
            *final(self) == old(self).polled(Some(fingerprint(text@))),
    {
        self.last_fingerprint = Some(ClipboardFingerprint::of(text));
        self.initialized = true;
    }
}

/// A text that was received and written is not sent back: the next look finds
/// it and takes it for known.
pub proof fn received_text_is_not_sent_back(sync: ClipboardSync, text: Seq<char>)
    ensures
        !sync.polled(Some(fingerprint(text))).is_news(fingerprint(text)),
{
}

/// What is on the clipboard when a session starts is not sent.
pub proof fn first_look_sends_nothing(found: ClipboardFingerprint)
    ensures
        !(ClipboardSync { last_fingerprint: None, initialized: false }).is_news(found),
{
}

/// A text is news only if it is not the one that was seen last, and something was
/// looked for before; every look is remembered, one that found no text too.
pub proof fn only_other_texts_are_news(
    sync: ClipboardSync,
    seen: Option<ClipboardFingerprint>,
    found: ClipboardFingerprint,
)
    ensures
        sync.is_news(found) ==> sync.initialized,
        sync.polled(seen).is_news(found) <==> seen != Some(found),
        sync.polled(None).is_news(found),
        sync.polled(seen).initialized,
        sync.polled(seen).last_fingerprint == seen,
{
}

/// A text that is as long as the session allows may be sent, and none that is
/// longer; what is said of such a text names its length and then the limit.
pub proof fn limits_are_in_bytes(text: Seq<char>, protocol: Protocol, length: nat, limit: nat)
    ensures
        fits(text, protocol) <==> utf8::encode_utf8(text).len() <= protocol.clipboard_text_bytes,
        ("clipboard text is "@ + text::decimal(length)).is_prefix_of(too_long(length, limit)),
        (text::decimal(limit) + " bytes"@).is_suffix_of(too_long(length, limit)),
        utf8::encode_utf8(text).len() <= usize::MAX ==> fingerprint(text).bytes
            == utf8::encode_utf8(text).len(),
{
    let said = too_long(length, limit);
    let head = "clipboard text is "@ + text::decimal(length);
    let tail = text::decimal(limit) + " bytes"@;
    assert(said.take(head.len() as int) =~= head);
    assert(said.skip(said.len() - tail.len()) =~= tail);
}

} // verus!
