//! A trait based formatter for syslog RFC 5424.
//!
//! [`Rfc5424`] holds the metadata associated with the running program that is
//! needed to format messages; it is constructed through [`Rfc5424Builder`].
//! [`Rfc5424::format`] formats any type that implements the [`Rfc5424Data`]
//! trait and writes the encoded bytes to an output sink;
//! [`Rfc5424::format_bytes`] is the verified encoder underneath it, whose
//! contract pins the emitted bytes exactly.
//!
//! The formatter follows the RFC strictly: it truncates structured-data names,
//! removes disallowed characters, and escapes parameter values. The output can
//! be the bare RFC 5424 format or, for stream transports that need message
//! boundaries, the RFC 5425 variant that prepends the exact byte count of the
//! message.

use vstd::prelude::*;
use vstd::string::StrSliceExecFns;
use vstd::string::StringExecFns;
use vstd::string::StringSliceAdditionalSpecFns;
use vstd::utf8::encode_utf8;

pub mod digits;
pub mod iana;
pub mod types;

use digits::{dec_chars, push_dec};
use iana::{Origin, TimeQuality, origin_token, time_quality_token};
use types::{
    AppName, BodyView, Facility, HostName, Message, MessageId, ProcessId, Severity, escaped,
    sanitized,
};

verus! {

/// Relies on String::push from std: appends the given character to the end of
/// the string. vstd specifies `+=` for string slices but not `push`.
pub assume_specification[ String::push ](s: &mut String, ch: char)
    ensures
        final(s)@ == old(s)@ + seq![ch],
;

/// Declares std::io::Error so that it can appear in result types; the sink's
/// error is propagated verbatim and never inspected.
#[verifier::external_type_specification]
#[verifier::external_body]
pub struct ExIoError(std::io::Error);

/// Relies on std::io::Write::write_all: attempts to write the entire buffer
/// to the sink and reports the sink's own error on failure.
#[verifier::external_body]
fn write_all_bytes<W: std::io::Write>(writer: &mut W, buf: &[u8]) -> Result<(), std::io::Error> {
    writer.write_all(buf)
}

/// Errors returned when verifying validity of metadata.
#[derive(Debug, Copy, Clone, PartialEq, Eq, Structural)]
pub enum Error {
    FieldEmpty,
    FieldTooLong,
    InvalidCharacters,
}

/// Format of messages written out. RFC 5425 just prepends the byte length of
/// the RFC 5424 message.
#[derive(Debug, PartialEq, Eq, Structural, Copy, Clone)]
pub enum WriteFormat {
    RFC5424,
    RFC5425,
}

impl Default for WriteFormat {
    fn default() -> (r: WriteFormat)
        ensures
            r == WriteFormat::RFC5424,
    {
        WriteFormat::RFC5424
    }
}

/// Value used when a field is optional, and not present.
pub const NILVALUE: char = '-';

/// Format of structured data. The RFC does not forbid duplicate SD-IDs or
/// duplicate PARAM-NAMEs, hence a sequence of pairs rather than a map: entries
/// are emitted in order and preserved verbatim, duplicates included. Be
/// careful when sending duplicates; the receiver might discard some of them.
pub type StructuredData = Vec<(String, Vec<(String, String)>)>;

/// The abstract value of one structured-data element: the raw SD-ID and the
/// raw (name, value) pairs, before sanitizing and escaping.
pub type SdElementView = (Seq<char>, Seq<(Seq<char>, Seq<char>)>);

/// The abstract value of an encoder configuration. Reserved-block entries are
/// modelled by the token each one renders as.
#[verifier::ext_equal]
pub struct ConfigModel {
    pub version: u8,
    pub hostname: Seq<char>,
    pub app_name: Seq<char>,
    pub pid: Seq<char>,
    pub msg_id: Seq<char>,
    pub facility: Facility,
    pub enterprise_id: Seq<char>,
    pub origins: Seq<Seq<char>>,
    pub time_qualities: Seq<Seq<char>>,
    pub write_format: WriteFormat,
}

impl ConfigModel {
    /// The configuration invariant: every header field holds validated
    /// content or the nil sentinel (which is itself a valid value).
    pub open spec fn wf(self) -> bool {
        &&& types::valid_header(self.hostname, 255)
        &&& types::valid_header(self.app_name, 48)
        &&& types::valid_header(self.pid, 128)
        &&& types::valid_header(self.msg_id, 32)
    }
}

/// Holds the metadata needed for formatting an RFC 5424 syslog message.
///
/// Use [`Rfc5424Builder`] to construct one.
#[derive(Debug)]
pub struct Rfc5424 {
    version: u8,
    hostname: HostName,
    app_name: AppName,
    pid: ProcessId,
    msg_id: MessageId,
    facility: Facility,
    enterprise_id: String,
    iana_time_quality: Vec<TimeQuality>,
    iana_origin: Vec<Origin>,
    write_format: WriteFormat,
}

impl View for Rfc5424 {
    type V = ConfigModel;

    closed spec fn view(&self) -> ConfigModel {
        ConfigModel {
            version: self.version,
            hostname: self.hostname@,
            app_name: self.app_name@,
            pid: self.pid@,
            msg_id: self.msg_id@,
            facility: self.facility,
            enterprise_id: self.enterprise_id@,
            origins: self.iana_origin@.map_values(|o: Origin| origin_token(&o)),
            time_qualities: self.iana_time_quality@.map_values(
                |t: TimeQuality| time_quality_token(&t),
            ),
            write_format: self.write_format,
        }
    }
}

/// Builder for [`Rfc5424`]: accumulates validated header fields and optional
/// reserved-block entries, then turns into the immutable formatter.
pub struct Rfc5424Builder {
    data: Rfc5424,
}

impl View for Rfc5424Builder {
    type V = ConfigModel;

    closed spec fn view(&self) -> ConfigModel {
        self.data@
    }
}

impl Rfc5424Builder {
    /// Start a configuration with the given enterprise id and facility; all
    /// header fields default to the nil sentinel, the format to RFC 5424.
    pub fn new(enterprise_id: &str, facility: Facility) -> (r: Rfc5424Builder)
        ensures
            r@ == (ConfigModel {
                version: 1,
                hostname: "-"@,
                app_name: "-"@,
                pid: "-"@,
                msg_id: "-"@,
                facility,
                enterprise_id: enterprise_id@,
                origins: Seq::empty(),
                time_qualities: Seq::empty(),
                write_format: WriteFormat::RFC5424,
            }),
            r@.wf(),
    {
        let r = Rfc5424Builder {
            data: Rfc5424 {
                version: 1,
                hostname: HostName::default(),
                app_name: AppName::default(),
                pid: ProcessId::default(),
                msg_id: MessageId::default(),
                facility,
                enterprise_id: enterprise_id.to_owned(),
                iana_time_quality: Vec::new(),
                iana_origin: Vec::new(),
                write_format: WriteFormat::RFC5424,
            },
        };
        proof {
            assert(r.data.iana_origin@.map_values(|o: Origin| origin_token(&o)) =~= Seq::<
                Seq<char>,
            >::empty());
            assert(r.data.iana_time_quality@.map_values(|t: TimeQuality| time_quality_token(&t))
                =~= Seq::<Seq<char>>::empty());
        }
        r
    }

    /// Transform the builder into a formatter struct.
    pub fn build(self) -> (r: Rfc5424)
        ensures
            r@ == self@,
    {
        self.data
    }

    /// Set the hostname used in the header of the syslog message.
    ///
    /// Fails exactly when `val` is not a valid header field of at most 255
    /// characters, with the error [`types::header_error`] prescribes.
    pub fn hostname(self, val: &str) -> (r: Result<Rfc5424Builder, Error>)
        ensures
            match r {
                Ok(b) => b@ == (ConfigModel { hostname: val@, ..self@ }) && types::valid_header(
                    val@,
                    255,
                ),
                Err(e) => !types::valid_header(val@, 255) && e == types::header_error(val@, 255),
            },
    {
        let mut this = self;
        let h = match HostName::new(val) {
            Ok(h) => h,
            Err(e) => return Err(e),
        };
        this.data.hostname = h;
        proof {
            assert(this@ =~= (ConfigModel { hostname: val@, ..self@ }));
        }
        Ok(this)
    }

    /// Set the app name used in the header of the syslog message.
    ///
    /// Fails exactly when `val` is not a valid header field of at most 48
    /// characters, with the error [`types::header_error`] prescribes.
    pub fn app_name(self, val: &str) -> (r: Result<Rfc5424Builder, Error>)
        ensures
            match r {
                Ok(b) => b@ == (ConfigModel { app_name: val@, ..self@ }) && types::valid_header(
                    val@,
                    48,
                ),
                Err(e) => !types::valid_header(val@, 48) && e == types::header_error(val@, 48),
            },
    {
        let mut this = self;
        let a = match AppName::new(val) {
            Ok(a) => a,
            Err(e) => return Err(e),
        };
        this.data.app_name = a;
        proof {
            assert(this@ =~= (ConfigModel { app_name: val@, ..self@ }));
        }
        Ok(this)
    }

    /// Set the process id (PID) used in the header of the syslog message.
    ///
    /// Fails exactly when `val` is not a valid header field of at most 128
    /// characters, with the error [`types::header_error`] prescribes.
    pub fn pid(self, val: &str) -> (r: Result<Rfc5424Builder, Error>)
        ensures
            match r {
                Ok(b) => b@ == (ConfigModel { pid: val@, ..self@ }) && types::valid_header(
                    val@,
                    128,
                ),
                Err(e) => !types::valid_header(val@, 128) && e == types::header_error(val@, 128),
            },
    {
        let mut this = self;
        let p = match ProcessId::new(val) {
            Ok(p) => p,
            Err(e) => return Err(e),
        };
        this.data.pid = p;
        proof {
            assert(this@ =~= (ConfigModel { pid: val@, ..self@ }));
        }
        Ok(this)
    }

    /// Set the msgId used in the header of the syslog message. The MSGID
    /// should identify the type of message and is intended for filtering
    /// messages on a relay or collector.
    ///
    /// Fails exactly when `val` is not a valid header field of at most 32
    /// characters, with the error [`types::header_error`] prescribes.
    pub fn msg_id(self, val: &str) -> (r: Result<Rfc5424Builder, Error>)
        ensures
            match r {
                Ok(b) => b@ == (ConfigModel { msg_id: val@, ..self@ }) && types::valid_header(
                    val@,
                    32,
                ),
                Err(e) => !types::valid_header(val@, 32) && e == types::header_error(val@, 32),
            },
    {
        let mut this = self;
        let m = match MessageId::new(val) {
            Ok(m) => m,
            Err(e) => return Err(e),
        };
        this.data.msg_id = m;
        proof {
            assert(this@ =~= (ConfigModel { msg_id: val@, ..self@ }));
        }
        Ok(this)
    }

    /// Set the format of the output between RFC 5424 and RFC 5425.
    pub fn write_format(self, f: WriteFormat) -> (r: Rfc5424Builder)
        ensures
            r@ == (ConfigModel { write_format: f, ..self@ }),
    {
        let mut this = self;
        this.data.write_format = f;
        proof {
            assert(this@ =~= (ConfigModel { write_format: f, ..self@ }));
        }
        this
    }

    /// Add an IANA reserved origin key-value pair; entries accumulate in
    /// order, each contributing one token to the `origin` block.
    pub fn origin(self, o: Origin) -> (r: Rfc5424Builder)
        ensures
            r@ == (ConfigModel { origins: self@.origins.push(origin_token(&o)), ..self@ }),
    {
        let mut this = self;
        proof {
            assert(this.data.iana_origin@.push(o).map_values(|x: Origin| origin_token(&x))
                =~= this.data.iana_origin@.map_values(|x: Origin| origin_token(&x)).push(
                origin_token(&o),
            ));
        }
        this.data.iana_origin.push(o);
        proof {
            assert(this@ =~= (ConfigModel {
                origins: self@.origins.push(origin_token(&o)),
                ..self@
            }));
        }
        this
    }

    /// Add an IANA reserved time quality key-value pair; entries accumulate
    /// in order, each contributing one token to the `timeQuality` block.
    pub fn time_quality(self, t: TimeQuality) -> (r: Rfc5424Builder)
        ensures
            r@ == (ConfigModel {
                time_qualities: self@.time_qualities.push(time_quality_token(&t)),
                ..self@
            }),
    {
        let mut this = self;
        proof {
            assert(this.data.iana_time_quality@.push(t).map_values(
                |x: TimeQuality| time_quality_token(&x),
            ) =~= this.data.iana_time_quality@.map_values(
                |x: TimeQuality| time_quality_token(&x),
            ).push(time_quality_token(&t)));
        }
        this.data.iana_time_quality.push(t);
        proof {
            assert(this@ =~= (ConfigModel {
                time_qualities: self@.time_qualities.push(time_quality_token(&t)),
                ..self@
            }));
        }
        this
    }
}

/// Trait that defines what data is needed in order to create an RFC 5424
/// message. Any type that implements this can be formatted with an
/// [`Rfc5424`] struct.
pub trait Rfc5424Data {
    fn severity(&self) -> Severity;

    fn timestamp(&self) -> Option<String>;

    fn structured_data(&self) -> Option<StructuredData>;

    fn message(&self) -> Option<Message>;
}

/// The priority token `<N>`, where N is `facility * 8 + severity`.
pub open spec fn priority_chars(facility: Facility, severity: Severity) -> Seq<char> {
    seq!['<'] + dec_chars((facility.spec_code() * 8 + severity.spec_code()) as nat) + seq!['>']
}

/// Render the priority token for a facility and severity.
pub fn generate_priority(facility: Facility, severity: Severity) -> (r: String)
    ensures
        r@ == priority_chars(facility, severity),
{
    let pri: u8 = facility.code() * 8 + severity.code();
    let mut out = String::new();
    out.push('<');
    push_dec(&mut out, pri as usize);
    out.push('>');
    proof {
        assert(out@ =~= priority_chars(facility, severity));
    }
    out
}

/// The concatenation of a sequence of token strings, in order.
pub open spec fn concat_all(tokens: Seq<Seq<char>>) -> Seq<char>
    decreases tokens.len(),
{
    if tokens.len() == 0 {
        Seq::empty()
    } else {
        tokens[0] + concat_all(tokens.drop_first())
    }
}

/// Concatenating one more token appends it.
pub proof fn lemma_concat_all_push(tokens: Seq<Seq<char>>, t: Seq<char>)
    ensures
        concat_all(tokens.push(t)) == concat_all(tokens) + t,
    decreases tokens.len(),
{
    if tokens.len() == 0 {
        assert(tokens.push(t)[0] == t);
        assert(concat_all(tokens.push(t).drop_first()) =~= Seq::<char>::empty());
        assert(concat_all(tokens.push(t)) =~= concat_all(tokens) + t);
    } else {
        assert(tokens.push(t)[0] == tokens[0]);
        assert(tokens.push(t).drop_first() =~= tokens.drop_first().push(t));
        lemma_concat_all_push(tokens.drop_first(), t);
        assert(concat_all(tokens.push(t)) == tokens[0] + (concat_all(tokens.drop_first()) + t));
        assert(concat_all(tokens.push(t)) =~= concat_all(tokens) + t);
    }
}

/// A reserved block: nothing when it has no entries, else `[` + its name +
/// its entries' tokens + `]`.
pub open spec fn block_chars(name: Seq<char>, tokens: Seq<Seq<char>>) -> Seq<char> {
    if tokens.len() == 0 {
        Seq::empty()
    } else {
        seq!['['] + name + concat_all(tokens) + seq![']']
    }
}

/// One structured-data (name, value) pair: a leading space, the sanitized
/// name, `="`, the escaped value, `"`.
pub open spec fn pair_chars(p: (Seq<char>, Seq<char>)) -> Seq<char> {
    seq![' '] + sanitized(p.0) + seq!['=', '"'] + escaped(p.1) + seq!['"']
}

/// The pairs of one structured-data element, in order.
pub open spec fn pairs_chars(ps: Seq<(Seq<char>, Seq<char>)>) -> Seq<char>
    decreases ps.len(),
{
    if ps.len() == 0 {
        Seq::empty()
    } else {
        pair_chars(ps[0]) + pairs_chars(ps.drop_first())
    }
}

/// Emitting one more pair appends its rendering.
pub proof fn lemma_pairs_chars_push(ps: Seq<(Seq<char>, Seq<char>)>, p: (Seq<char>, Seq<char>))
    ensures
        pairs_chars(ps.push(p)) == pairs_chars(ps) + pair_chars(p),
    decreases ps.len(),
{
    if ps.len() == 0 {
        assert(ps.push(p)[0] == p);
        assert(pairs_chars(ps.push(p).drop_first()) =~= Seq::<char>::empty());
        assert(pairs_chars(ps.push(p)) =~= pairs_chars(ps) + pair_chars(p));
    } else {
        assert(ps.push(p)[0] == ps[0]);
        assert(ps.push(p).drop_first() =~= ps.drop_first().push(p));
        lemma_pairs_chars_push(ps.drop_first(), p);
        assert(pairs_chars(ps.push(p)) == pair_chars(ps[0]) + (pairs_chars(ps.drop_first())
            + pair_chars(p)));
        assert(pairs_chars(ps.push(p)) =~= pairs_chars(ps) + pair_chars(p));
    }
}

/// One structured-data element: `[`, the sanitized SD-ID, `@`, the
/// enterprise id, the pairs, `]`.
pub open spec fn sd_element_chars(e: SdElementView, enterprise_id: Seq<char>) -> Seq<char> {
    seq!['['] + sanitized(e.0) + seq!['@'] + enterprise_id + pairs_chars(e.1) + seq![']']
}

/// All structured-data elements of the event, in order.
pub open spec fn sd_elements_chars(sd: Seq<SdElementView>, enterprise_id: Seq<char>) -> Seq<char>
    decreases sd.len(),
{
    if sd.len() == 0 {
        Seq::empty()
    } else {
        sd_element_chars(sd[0], enterprise_id) + sd_elements_chars(sd.drop_first(), enterprise_id)
    }
}

/// Emitting one more element appends its rendering.
pub proof fn lemma_sd_elements_chars_push(
    sd: Seq<SdElementView>,
    e: SdElementView,
    enterprise_id: Seq<char>,
)
    ensures
        sd_elements_chars(sd.push(e), enterprise_id) == sd_elements_chars(sd, enterprise_id)
            + sd_element_chars(e, enterprise_id),
    decreases sd.len(),
{
    if sd.len() == 0 {
        assert(sd.push(e)[0] == e);
        assert(sd_elements_chars(sd.push(e).drop_first(), enterprise_id) =~= Seq::<char>::empty());
        assert(sd_elements_chars(sd.push(e), enterprise_id) =~= sd_elements_chars(
            sd,
            enterprise_id,
        ) + sd_element_chars(e, enterprise_id));
    } else {
        assert(sd.push(e)[0] == sd[0]);
        assert(sd.push(e).drop_first() =~= sd.drop_first().push(e));
        lemma_sd_elements_chars_push(sd.drop_first(), e, enterprise_id);
        assert(sd_elements_chars(sd.push(e), enterprise_id) == sd_element_chars(
            sd[0],
            enterprise_id,
        ) + (sd_elements_chars(sd.drop_first(), enterprise_id) + sd_element_chars(
            e,
            enterprise_id,
        )));
        assert(sd_elements_chars(sd.push(e), enterprise_id) =~= sd_elements_chars(
            sd,
            enterprise_id,
        ) + sd_element_chars(e, enterprise_id));
    }
}

/// The header of the message, through the trailing space after MSGID:
/// priority, version, timestamp (or nil), hostname, app-name, procid, msgid,
/// each followed by one space.
pub open spec fn header_chars(
    cfg: ConfigModel,
    severity: Severity,
    timestamp: Option<Seq<char>>,
) -> Seq<char> {
    priority_chars(cfg.facility, severity) + dec_chars(cfg.version as nat) + seq![' '] + (
    match timestamp {
        Some(t) => t,
        None => seq![NILVALUE],
    }) + seq![' '] + cfg.hostname + seq![' '] + cfg.app_name + seq![' '] + cfg.pid + seq![' ']
        + cfg.msg_id + seq![' ']
}

/// True when the event's structured data contributes no element: it is
/// absent, or present with an empty sequence of elements.
pub open spec fn sd_contributes_nothing(structured_data: Option<Seq<SdElementView>>) -> bool {
    match structured_data {
        Some(sd) => sd.len() == 0,
        None => true,
    }
}

/// The textual part of the message: the header, the reserved blocks, the
/// event's structured data, and the nil sentinel when no structured-data
/// element was rendered — the section is never left as a true empty string.
pub open spec fn spec_log_chars(
    cfg: ConfigModel,
    severity: Severity,
    timestamp: Option<Seq<char>>,
    structured_data: Option<Seq<SdElementView>>,
) -> Seq<char> {
    header_chars(cfg, severity, timestamp) + block_chars("origin"@, cfg.origins) + block_chars(
        "timeQuality"@,
        cfg.time_qualities,
    ) + (match structured_data {
        Some(sd) => sd_elements_chars(sd, cfg.enterprise_id),
        None => Seq::empty(),
    }) + (if sd_contributes_nothing(structured_data) && cfg.origins.len() == 0
        && cfg.time_qualities.len() == 0 {
        seq![NILVALUE]
    } else {
        Seq::empty()
    })
}

/// The three-byte UTF-8 byte-order mark that prefixes text bodies.
pub open spec fn bom_bytes() -> Seq<u8> {
    seq![0xef, 0xbb, 0xbf]
}

/// The complete RFC 5424 message in bytes: the UTF-8 encoding of the textual
/// part (with one more space when a body follows), then for a text body the
/// order marker and the text's UTF-8 bytes, for a binary body the raw bytes.
pub open spec fn spec_message_bytes(
    cfg: ConfigModel,
    severity: Severity,
    timestamp: Option<Seq<char>>,
    structured_data: Option<Seq<SdElementView>>,
    message: Option<BodyView>,
) -> Seq<u8> {
    encode_utf8(
        spec_log_chars(cfg, severity, timestamp, structured_data) + (if message is Some {
            seq![' ']
        } else {
            Seq::empty()
        }),
    ) + (match message {
        Some(BodyView::Text(t)) => bom_bytes() + encode_utf8(t),
        Some(BodyView::Binary(b)) => b,
        None => Seq::empty(),
    })
}

/// What the formatter writes: the RFC 5424 message, prefixed in RFC 5425 mode
/// by its exact byte count in decimal and a single space.
pub open spec fn spec_output(
    cfg: ConfigModel,
    severity: Severity,
    timestamp: Option<Seq<char>>,
    structured_data: Option<Seq<SdElementView>>,
    message: Option<BodyView>,
) -> Seq<u8> {
    let msg = spec_message_bytes(cfg, severity, timestamp, structured_data, message);
    if cfg.write_format == WriteFormat::RFC5425 {
        encode_utf8(dec_chars(msg.len() as nat).push(' ')) + msg
    } else {
        msg
    }
}

/// The abstract value of an optional timestamp.
pub open spec fn opt_str_view(t: Option<String>) -> Option<Seq<char>> {
    match t {
        Some(s) => Some(s@),
        None => None,
    }
}

/// The abstract value of optional structured data.
pub open spec fn opt_sd_view(sd: Option<StructuredData>) -> Option<Seq<SdElementView>> {
    match sd {
        Some(v) => Some(v.deep_view()),
        None => None,
    }
}

/// The abstract value of an optional message body.
pub open spec fn opt_body_view(m: Option<Message>) -> Option<BodyView> {
    match m {
        Some(b) => Some(b@),
        None => None,
    }
}

/// Append a byte slice to a byte vector.
fn push_bytes(out: &mut Vec<u8>, bytes: &[u8])
    ensures
        final(out)@ == old(out)@ + bytes@,
{
    out.extend_from_slice(bytes);
    proof {
        assert(final(out)@ =~= old(out)@ + bytes@);
    }
}

impl Rfc5424 {
    /// Encode one event against this configuration: the returned bytes are
    /// exactly [`spec_output`] of the configuration's and the event's values.
    #[verifier::rlimit(100)]
    #[verifier::spinoff_prover]
    pub fn format_bytes(
        &self,
        severity: Severity,
        timestamp: Option<String>,
        structured_data: Option<StructuredData>,
        message: Option<Message>,
    ) -> (r: Vec<u8>)
        ensures
            r@ == spec_output(
                self@,
                severity,
                opt_str_view(timestamp),
                opt_sd_view(structured_data),
                opt_body_view(message),
            ),
    {
        let ghost cfg = self@;
        let ghost ts_view = opt_str_view(timestamp);
        let ghost sd_view = opt_sd_view(structured_data);
        let mut log = String::new();

        // - HEADER -
        // PRI
        let pri = generate_priority(self.facility, severity);
        log.append(pri.as_str());

        // VERSION
        push_dec(&mut log, self.version as usize);
        log.push(' ');

        // TIMESTAMP
        match &timestamp {
            Some(time) => log.append(time.as_str()),
            None => log.push(NILVALUE),
        }
        log.push(' ');

        // HOSTNAME
        log.append(self.hostname.0.as_str());
        log.push(' ');

        // APP-NAME
        log.append(self.app_name.0.as_str());
        log.push(' ');

        // PROCESS ID
        log.append(self.pid.0.as_str());
        log.push(' ');

        // MESSAGE ID
        log.append(self.msg_id.0.as_str());
        log.push(' ');

        proof {
            assert(log@ =~= header_chars(cfg, severity, ts_view));
        }
        let ghost after_header = log@;

        // - STRUCTURED-DATA -
        // reserved origin block
        if self.iana_origin.len() > 0 {
            log.push('[');
            log.append("origin");
            let mut i: usize = 0;
            while i < self.iana_origin.len()
                invariant
                    i <= self.iana_origin.len(),
                    cfg == self@,
                    cfg.origins.len() == self.iana_origin.len(),
                    log@ == after_header + seq!['['] + "origin"@ + concat_all(
                        cfg.origins.take(i as int),
                    ),
                decreases self.iana_origin.len() - i,
            {
                let token = self.iana_origin[i].render();
                log.append(token.as_str());
                proof {
                    assert(cfg.origins[i as int] == origin_token(&self.iana_origin@[i as int]));
                    assert(cfg.origins.take(i as int).push(cfg.origins[i as int]) =~= cfg
                        .origins.take(i + 1 as int));
                    lemma_concat_all_push(cfg.origins.take(i as int), cfg.origins[i as int]);
                }
                i = i + 1;
            }
            log.push(']');
            proof {
                assert(cfg.origins.take(cfg.origins.len() as int) =~= cfg.origins);
                assert(log@ =~= after_header + block_chars("origin"@, cfg.origins));
            }
        }
        proof {
            assert(log@ =~= after_header + block_chars("origin"@, cfg.origins));
        }
        let ghost after_origin = log@;

        // reserved timeQuality block
        if self.iana_time_quality.len() > 0 {
            log.push('[');
            log.append("timeQuality");
            let mut i: usize = 0;
            while i < self.iana_time_quality.len()
                invariant
                    i <= self.iana_time_quality.len(),
                    cfg == self@,
                    cfg.time_qualities.len() == self.iana_time_quality.len(),
                    log@ == after_origin + seq!['['] + "timeQuality"@ + concat_all(
                        cfg.time_qualities.take(i as int),
                    ),
                decreases self.iana_time_quality.len() - i,
            {
                let token = self.iana_time_quality[i].render();
                log.append(token.as_str());
                proof {
                    assert(cfg.time_qualities[i as int] == time_quality_token(
                        &self.iana_time_quality@[i as int],
                    ));
                    assert(cfg.time_qualities.take(i as int).push(
                        cfg.time_qualities[i as int],
                    ) =~= cfg.time_qualities.take(i + 1 as int));
                    lemma_concat_all_push(
                        cfg.time_qualities.take(i as int),
                        cfg.time_qualities[i as int],
                    );
                }
                i = i + 1;
            }
            log.push(']');
            proof {
                assert(cfg.time_qualities.take(cfg.time_qualities.len() as int) =~= cfg
                    .time_qualities);
                assert(log@ =~= after_origin + block_chars("timeQuality"@, cfg.time_qualities));
            }
        }
        proof {
            assert(log@ =~= after_origin + block_chars("timeQuality"@, cfg.time_qualities));
        }
        let ghost after_blocks = log@;

        // the event's structured data
        match &structured_data {
            Some(sd) => {
                let mut i: usize = 0;
                while i < sd.len()
                    invariant
                        i <= sd.len(),
                        cfg == self@,
                        sd.deep_view().len() == sd.len(),
                        log@ == after_blocks + sd_elements_chars(
                            sd.deep_view().take(i as int),
                            cfg.enterprise_id,
                        ),
                    decreases sd.len() - i,
                {
                    let ghost elems = sd.deep_view();
                    let ghost before_elem = log@;
                    log.push('[');
                    let id = remove_invalid_str(&sd[i].0);
                    log.append(id.as_str());
                    log.push('@');
                    log.append(self.enterprise_id.as_str());
                    let pairs = &sd[i].1;
                    let mut j: usize = 0;
                    while j < pairs.len()
                        invariant
                            j <= pairs.len(),
                            cfg == self@,
                            pairs.deep_view().len() == pairs.len(),
                            log@ == before_elem + seq!['['] + sanitized(elems[i as int].0) + seq![
                                '@',
                            ] + cfg.enterprise_id + pairs_chars(pairs.deep_view().take(j as int)),
                            elems == sd.deep_view(),
                            i < sd.len(),
                            sd.deep_view().len() == sd.len(),
                            elems[i as int].0 == sd@[i as int].0@,
                            elems[i as int].1 == pairs.deep_view(),
                            before_elem == after_blocks + sd_elements_chars(
                                sd.deep_view().take(i as int),
                                cfg.enterprise_id,
                            ),
                        decreases pairs.len() - j,
                    {
                        log.push(' ');
                        let name = remove_invalid_str(&pairs[j].0);
                        log.append(name.as_str());
                        log.push('=');
                        log.push('"');
                        let value = escape_val_str(&pairs[j].1);
                        log.append(value.as_str());
                        log.push('"');
                        proof {
                            assert(pairs.deep_view()[j as int] == (
                                pairs@[j as int].0@,
                                pairs@[j as int].1@,
                            ));
                            assert(pairs.deep_view().take(j as int).push(
                                pairs.deep_view()[j as int],
                            ) =~= pairs.deep_view().take(j + 1 as int));
                            lemma_pairs_chars_push(
                                pairs.deep_view().take(j as int),
                                pairs.deep_view()[j as int],
                            );
                            assert(log@ =~= before_elem + seq!['['] + sanitized(
                                elems[i as int].0,
                            ) + seq!['@'] + cfg.enterprise_id + pairs_chars(
                                pairs.deep_view().take(j + 1 as int),
                            ));
                        }
                        j = j + 1;
                    }
                    log.push(']');
                    proof {
                        assert(pairs.deep_view().take(pairs.deep_view().len() as int) =~= pairs
                            .deep_view());
                        assert(elems.take(i as int).push(elems[i as int]) =~= elems.take(
                            i + 1 as int,
                        ));
                        lemma_sd_elements_chars_push(
                            elems.take(i as int),
                            elems[i as int],
                            cfg.enterprise_id,
                        );
                        assert(log@ =~= after_blocks + sd_elements_chars(
                            elems.take(i + 1 as int),
                            cfg.enterprise_id,
                        ));
                    }
                    i = i + 1;
                }
                proof {
                    assert(sd.deep_view().take(sd.deep_view().len() as int) =~= sd.deep_view());
                }
            },
            None => {},
        }

        // must use NILVALUE if no structured-data element was rendered: the
        // section is never left as a true empty string
        let no_event_sd = match &structured_data {
            Some(sd) => sd.is_empty(),
            None => true,
        };
        if no_event_sd && self.iana_origin.is_empty() && self.iana_time_quality.is_empty() {
            log.push(NILVALUE);
        }
        proof {
            assert(log@ =~= spec_log_chars(cfg, severity, ts_view, sd_view));
        }

        // MESSAGE: one leading space when a body follows
        match &message {
            Some(_) => log.push(' '),
            None => {},
        }
        proof {
            assert(log@ =~= spec_log_chars(cfg, severity, ts_view, sd_view) + (
            if opt_body_view(message) is Some {
                seq![' ']
            } else {
                Seq::<char>::empty()
            }));
        }

        // assemble the bytes: the textual part, then the body
        let mut msg_bytes: Vec<u8> = log.as_str().as_bytes_vec();
        match &message {
            Some(Message::Text(s)) => {
                msg_bytes.push(0xef);
                msg_bytes.push(0xbb);
                msg_bytes.push(0xbf);
                push_bytes(&mut msg_bytes, s.as_str().as_bytes());
            },
            Some(Message::Binary(data)) => {
                push_bytes(&mut msg_bytes, data.as_slice());
            },
            None => {},
        }
        proof {
            assert(msg_bytes@ =~= spec_message_bytes(
                cfg,
                severity,
                ts_view,
                sd_view,
                opt_body_view(message),
            ));
        }

        // RFC 5425: prepend the exact byte count of the message
        match self.write_format {
            WriteFormat::RFC5425 => {
                let mut prefix = String::new();
                push_dec(&mut prefix, msg_bytes.len());
                prefix.push(' ');
                let mut out: Vec<u8> = Vec::new();
                push_bytes(&mut out, prefix.as_str().as_bytes());
                push_bytes(&mut out, msg_bytes.as_slice());
                proof {
                    assert(prefix@ =~= dec_chars(msg_bytes@.len() as nat).push(' '));
                    assert(out@ =~= spec_output(
                        cfg,
                        severity,
                        ts_view,
                        sd_view,
                        opt_body_view(message),
                    ));
                }
                out
            },
            WriteFormat::RFC5424 => msg_bytes,
        }
    }

    /// Format `Rfc5424Data` into an RFC 5424 message according to the
    /// metadata in `self`, and write it using `writer`. The bytes handed to
    /// the sink are exactly [`Rfc5424::format_bytes`] of the event's values;
    /// the only possible failure is the sink's own write error, propagated
    /// verbatim.
    pub fn format<W: std::io::Write, M: Rfc5424Data>(
        &self,
        writer: &mut W,
        message: &M,
    ) -> Result<(), std::io::Error> {
        let bytes = self.format_bytes(
            message.severity(),
            message.timestamp(),
            message.structured_data(),
            message.message(),
        );
        write_all_bytes(writer, bytes.as_slice())
    }
}

/// Formatting is deterministic: the emitted bytes depend only on the
/// configuration's and the event's abstract values. Together with
/// [`Rfc5424::format_bytes`]' postcondition this means that formatting the
/// same immutable configuration against the same event data twice yields
/// byte-identical output.
pub proof fn lemma_format_deterministic(
    cfg1: ConfigModel,
    cfg2: ConfigModel,
    severity1: Severity,
    severity2: Severity,
    timestamp1: Option<Seq<char>>,
    timestamp2: Option<Seq<char>>,
    structured_data1: Option<Seq<SdElementView>>,
    structured_data2: Option<Seq<SdElementView>>,
    message1: Option<BodyView>,
    message2: Option<BodyView>,
)
    requires
        cfg1 == cfg2,
        severity1 == severity2,
        timestamp1 == timestamp2,
        structured_data1 == structured_data2,
        message1 == message2,
    ensures
        spec_output(cfg1, severity1, timestamp1, structured_data1, message1) == spec_output(
            cfg2,
            severity2,
            timestamp2,
            structured_data2,
            message2,
        ),
{
}

/// In RFC 5425 mode the output is a run of decimal digits, a single space,
/// and the RFC 5424 message; the digits denote exactly the byte length of
/// what follows the space, multi-byte body content and the order marker
/// included.
pub proof fn lemma_frame_count(
    cfg: ConfigModel,
    severity: Severity,
    timestamp: Option<Seq<char>>,
    structured_data: Option<Seq<SdElementView>>,
    message: Option<BodyView>,
)
    requires
        cfg.write_format == WriteFormat::RFC5425,
    ensures
        ({
            let rest = spec_message_bytes(cfg, severity, timestamp, structured_data, message);
            let digits = dec_chars(rest.len() as nat);
            let out = spec_output(cfg, severity, timestamp, structured_data, message);
            &&& out == Seq::new(digits.len(), |i: int| digits[i] as u8) + seq![32u8] + rest
            &&& digits.len() >= 1
            &&& (forall|i: int|
                0 <= i < digits.len() ==> digits::is_dec_digit(#[trigger] digits[i]) && digits[i]
                    != ' ')
            &&& digits::dec_val(digits) == rest.len()
        }),
{
    let rest = spec_message_bytes(cfg, severity, timestamp, structured_data, message);
    let digits = dec_chars(rest.len() as nat);
    let out = spec_output(cfg, severity, timestamp, structured_data, message);
    digits::lemma_dec_chars_val(rest.len() as nat);
    let framed = digits.push(' ');
    assert forall|i: int| 0 <= i < framed.len() implies '\0' <= #[trigger] framed[i] <= '\u{7f}' by {
        if i < digits.len() {
            assert(framed[i] == digits[i]);
            assert(digits::is_dec_digit(digits[i]));
            digits::lemma_digit_char_ascii(framed[i]);
        } else {
            assert(framed[i] == ' ');
        }
    }
    assert(vstd::utf8::is_ascii_chars(framed));
    vstd::utf8::is_ascii_chars_encode_utf8(framed);
    let framed_bytes = encode_utf8(framed);
    let target = Seq::new(digits.len(), |i: int| digits[i] as u8) + seq![32u8];
    assert(framed_bytes =~= target) by {
        assert(framed_bytes.len() == framed.len());
        assert forall|i: int| 0 <= i < framed_bytes.len() implies framed_bytes[i] == target[i] by {
            assert(framed_bytes[i] == framed[i] as u8);
            if i < digits.len() {
                assert(framed[i] == digits[i]);
            } else {
                assert(framed[i] == ' ');
            }
        }
    }
    assert(out =~= Seq::new(digits.len(), |i: int| digits[i] as u8) + seq![32u8] + rest);
}

/// Sanitize an SD-ID or PARAM-NAME taken from a `String`.
fn remove_invalid_str(name: &String) -> (r: String)
    ensures
        r@ == sanitized(name@),
{
    types::remove_invalid(name.as_str())
}

/// Escape a PARAM-VALUE taken from a `String`.
fn escape_val_str(val: &String) -> (r: String)
    ensures
        r@ == escaped(val@),
{
    types::escape_val(val.as_str())
}

} // verus!
