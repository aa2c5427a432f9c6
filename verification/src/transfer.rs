//! Reading stored objects into memory, up to a limit.
use vstd::prelude::*;
use vstd::string::*;

use crate::render::bundle::MAX_BUNDLE_BYTES;
use crate::screenshots::MAX_UPLOAD_BYTES;
use crate::text::decimal;

verus! {

/// What is read.
#[derive(Debug, Clone, Copy, PartialEq, Eq, Structural)]
pub enum Wanted {
    /// A picture.
    Object,
    /// A bundle.
    Bundle,
}

/// How many bytes may be read.
pub open spec fn limit_of(wanted: Wanted) -> usize {
    match wanted {
        Wanted::Object => MAX_UPLOAD_BYTES,
        Wanted::Bundle => MAX_BUNDLE_BYTES,
    }
}

/// The message for an object that is larger than the limit.
pub open spec fn excess_message(wanted: Wanted, key: Seq<char>) -> Seq<char> {
    (match wanted {
        Wanted::Object => "object "@,
        Wanted::Bundle => "storybook bundle "@,
    }) + key + " exceeds "@ + crate::text::decimal_text(limit_of(wanted) as nat) + " bytes"@
}

/// An object that is being read, chunk by chunk.
#[derive(Debug)]
pub struct Download {
    wanted: Wanted,
    key: String,
    bytes: Vec<u8>,
}

/// An object that is being read, in the terms of the contracts.
pub struct DownloadView {
    pub wanted: Wanted,
    pub key: Seq<char>,
    pub bytes: Seq<u8>,
}

impl View for Download {
    type V = DownloadView;

    closed spec fn view(&self) -> DownloadView {
        DownloadView { wanted: self.wanted, key: self.key@, bytes: self.bytes@ }
    }
}

impl Download {
    /// No more was read than allowed.
    pub open spec fn well_formed(self) -> bool {
        self@.bytes.len() <= limit_of(self@.wanted)
    }

    /// Begins to read the object with the given key.
    pub fn begin(wanted: Wanted, key: &str) -> (download: Download)
        ensures
            download.well_formed(),
            download@ == (DownloadView { wanted, key: key@, bytes: Seq::empty() }),
    {
        let download = Download { wanted, key: key.to_string(), bytes: Vec::new() };
        assert(download.bytes@ =~= Seq::empty());
        download
    }

    /// Takes in a chunk. An object that becomes larger than the limit is
    /// refused.
    pub fn push(&mut self, chunk: Vec<u8>) -> (outcome: Result<(), String>)
        requires
            old(self).well_formed(),
        ensures
            final(self).well_formed(),
            if old(self)@.bytes.len() + chunk@.len() > limit_of(old(self)@.wanted) {
                final(self)@ == old(self)@ && (outcome matches Err(message) && message@
                    == excess_message(old(self)@.wanted, old(self)@.key))
            } else {
                outcome is Ok && final(self)@ == (DownloadView {
                    bytes: old(self)@.bytes + chunk@,
                    ..old(self)@
                })
            },
    {
        let limit: usize = match self.wanted {
            Wanted::Object => MAX_UPLOAD_BYTES,
            Wanted::Bundle => MAX_BUNDLE_BYTES,
        };
        if chunk.len() > limit - self.bytes.len() {
            let mut message = match self.wanted {
                Wanted::Object => "object ".to_string(),
                Wanted::Bundle => "storybook bundle ".to_string(),
            };
            message.append(self.key.as_str());
            message.append(" exceeds ");
            let shown = decimal(limit as u64);
            message.append(shown.as_str());
            message.append(" bytes");
            return Err(message);
        }
        let mut chunk = chunk;
        self.bytes.append(&mut chunk);
        Ok(())
    }

    /// The message for an object that cannot be read.
    pub fn failure(&self, message: &str) -> (text: String)
        ensures
            text@ == "read "@ + self@.key + ": "@ + message@,
    {
        let mut text = "read ".to_string();
        text.append(self.key.as_str());
        text.append(": ");
        text.append(message);
        text
    }

    /// The bytes that were read.
    pub fn into_bytes(self) -> (bytes: Vec<u8>)
        ensures
            bytes@ == self@.bytes,
    {
        self.bytes
    }
}

/// A picture may have 25 MiB and a bundle 200 MiB.
pub proof fn law_limits()
    ensures
        limit_of(Wanted::Object) == 25 * 1024 * 1024,
        limit_of(Wanted::Bundle) == 200 * 1024 * 1024,
{
}

/// The message for an object that is too large says what it is and names its
/// key in full.
pub proof fn law_excess_messages_name_the_key(key: Seq<char>)
    ensures
        ("object "@ + key + " exceeds "@).is_prefix_of(excess_message(Wanted::Object, key)),
        ("storybook bundle "@ + key + " exceeds "@).is_prefix_of(
            excess_message(Wanted::Bundle, key),
        ),
{
    let a = "object "@ + key + " exceeds "@;
    let b = "storybook bundle "@ + key + " exceeds "@;
    assert(excess_message(Wanted::Object, key).subrange(0, a.len() as int) =~= a);
    assert(excess_message(Wanted::Bundle, key).subrange(0, b.len() as int) =~= b);
}

} // verus!
