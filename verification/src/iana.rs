//! The reserved IANA structured-data parameters: the `origin` and
//! `timeQuality` blocks. Each entry renders as exactly one space-prefixed
//! `name="value"` token; boolean-valued entries render `"1"` for true and
//! `"0"` for false. No bounds checking is performed on these values: per the
//! RFC notes that is the caller's responsibility.

use vstd::prelude::*;
use crate::digits::dec_chars;

verus! {

/// The SD-ID `origin` may be used to indicate the origin of a syslog message.
/// All parameters are optional; each entry added to the configuration renders
/// as one parameter of the block.
#[derive(Debug)]
pub enum Origin {
    /// An IP address the originator knows it had at the time of originating
    /// the message, in textual representation.
    Ip(String),
    /// An SMI Network Management Private Enterprise Code maintained by IANA.
    EnterpriseId(String),
    /// The name of the software that generated the message.
    Software(String),
    /// The version of the software that generated the message.
    Version(String),
}

/// The token that one `origin` entry contributes to its block: a leading
/// space, the parameter name, `=`, and the value in double quotes.
pub open spec fn origin_token(o: &Origin) -> Seq<char> {
    match o {
        Origin::Ip(s) => " ip=\""@ + s@ + "\""@,
        Origin::EnterpriseId(s) => " enterpriseId=\""@ + s@ + "\""@,
        Origin::Software(s) => " software=\""@ + s@ + "\""@,
        Origin::Version(s) => " swVersion=\""@ + s@ + "\""@,
    }
}

impl Origin {
    /// Render this entry as its `name="value"` token.
    pub fn render(&self) -> (r: String)
        ensures
            r@ == origin_token(self),
    {
        let mut out = String::new();
        match self {
            Origin::Ip(s) => {
                out.append(" ip=\"");
                out.append(s.as_str());
                out.append("\"");
            },
            Origin::EnterpriseId(s) => {
                out.append(" enterpriseId=\"");
                out.append(s.as_str());
                out.append("\"");
            },
            Origin::Software(s) => {
                out.append(" software=\"");
                out.append(s.as_str());
                out.append("\"");
            },
            Origin::Version(s) => {
                out.append(" swVersion=\"");
                out.append(s.as_str());
                out.append("\"");
            },
        }
        out
    }
}

/// The SD-ID `timeQuality` may be used by the originator to describe its
/// notion of system time. All parameters are optional; each entry added to
/// the configuration renders as one parameter of the block.
#[derive(Debug, Copy, Clone)]
pub enum TimeQuality {
    /// Whether the originator knows its time zone.
    TzKnown(bool),
    /// Whether the originator is synchronized to a reliable external time
    /// source.
    IsSynced(bool),
    /// The maximum number of microseconds the originator's clock may be off
    /// between synchronization intervals.
    SyncAccuracy(u32),
}

/// The token that one `timeQuality` entry contributes to its block.
pub open spec fn time_quality_token(t: &TimeQuality) -> Seq<char> {
    match t {
        TimeQuality::TzKnown(known) => if *known {
            " tzKnown=\"1\""@
        } else {
            " tzKnown=\"0\""@
        },
        TimeQuality::IsSynced(synced) => if *synced {
            " isSynced=\"1\""@
        } else {
            " isSynced=\"0\""@
        },
        TimeQuality::SyncAccuracy(us) => " syncAccuracy=\""@ + dec_chars(*us as nat) + "\""@,
    }
}

impl TimeQuality {
    /// Render this entry as its `name="value"` token.
    pub fn render(&self) -> (r: String)
        ensures
            r@ == time_quality_token(self),
    {
        let mut out = String::new();
        match self {
            TimeQuality::TzKnown(known) => {
                if *known {
                    out.append(" tzKnown=\"1\"");
                } else {
                    out.append(" tzKnown=\"0\"");
                }
            },
            TimeQuality::IsSynced(synced) => {
                if *synced {
                    out.append(" isSynced=\"1\"");
                } else {
                    out.append(" isSynced=\"0\"");
                }
            },
            TimeQuality::SyncAccuracy(us) => {
                out.append(" syncAccuracy=\"");
                crate::digits::push_dec(&mut out, *us as usize);
                out.append("\"");
            },
        }
        out
    }
}

} // verus!
