//! Types used to specify values in an RFC 5424 message: the validated header
//! fields, the facility and severity tables, the message body, and the pure
//! sanitizing functions for structured-data names and values.

use vstd::prelude::*;
use vstd::string::StrSliceExecFns;
use crate::Error;

verus! {

/// True when `c` is an ASCII graphic character (codes 0x21 through 0x7E).
pub open spec fn is_graphic_char(c: char) -> bool {
    0x21 <= c as u32 <= 0x7e
}

/// True when every character of `s` is ASCII graphic.
pub open spec fn all_graphic(s: Seq<char>) -> bool {
    forall|i: int| 0 <= i < s.len() ==> is_graphic_char(#[trigger] s[i])
}

/// A valid header-field value: non-empty, ASCII graphic throughout, and at
/// most `max` characters long.
pub open spec fn valid_header(s: Seq<char>, max: int) -> bool {
    1 <= s.len() <= max && all_graphic(s)
}

/// The error that rejecting `s` as a header field of cap `max` must produce:
/// emptiness is reported first, then disallowed characters, then length.
pub open spec fn header_error(s: Seq<char>, max: int) -> Error {
    if s.len() == 0 {
        Error::FieldEmpty
    } else if !all_graphic(s) {
        Error::InvalidCharacters
    } else {
        Error::FieldTooLong
    }
}

/// Exec counterpart of [`is_graphic_char`].
fn char_is_graphic(c: char) -> (r: bool)
    ensures
        r == is_graphic_char(c),
{
    let u = c as u32;
    0x21 <= u && u <= 0x7e
}

/// Convert a string into a header value after verifying it is valid.
///
/// Fails with `FieldEmpty` on zero-length input, `InvalidCharacters` when any
/// character is outside printable ASCII, and `FieldTooLong` when the character
/// count exceeds `max_length`; otherwise the input is returned unchanged.
pub fn new_header_val(value: &str, max_length: usize) -> (r: Result<String, Error>)
    ensures
        match r {
            Ok(s) => s@ == value@ && valid_header(value@, max_length as int),
            Err(e) => !valid_header(value@, max_length as int) && e == header_error(
                value@,
                max_length as int,
            ),
        },
{
    if value.is_empty() {
        return Err(Error::FieldEmpty);
    }
    let n = value.unicode_len();
    let mut i: usize = 0;
    while i < n
        invariant
            i <= n,
            n == value@.len(),
            forall|j: int| 0 <= j < i ==> is_graphic_char(#[trigger] value@[j]),
        decreases n - i,
    {
        let c = value.get_char(i);
        if !char_is_graphic(c) {
            proof {
                assert(!all_graphic(value@));
            }
            return Err(Error::InvalidCharacters);
        }
        i = i + 1;
    }
    if n > max_length {
        return Err(Error::FieldTooLong);
    }
    Ok(value.to_owned())
}

/// Syslog facility: the standard table of 24 numeric codes.
#[derive(Debug, Clone, Copy)]
pub enum Facility {
    Kernel,
    User,
    Mail,
    Daemon,
    Auth,
    Syslog,
    LinePrinter,
    News,
    UUCP,
    Cron,
    AuthPriv,
    FTP,
    NTP,
    Security,
    Console,
    ClockDaemon,
    Local0,
    Local1,
    Local2,
    Local3,
    Local4,
    Local5,
    Local6,
    Local7,
}

impl Facility {
    /// The numeric code of the facility per the standard facility table.
    pub open spec fn spec_code(self) -> u8 {
        match self {
            Facility::Kernel => 0,
            Facility::User => 1,
            Facility::Mail => 2,
            Facility::Daemon => 3,
            Facility::Auth => 4,
            Facility::Syslog => 5,
            Facility::LinePrinter => 6,
            Facility::News => 7,
            Facility::UUCP => 8,
            Facility::Cron => 9,
            Facility::AuthPriv => 10,
            Facility::FTP => 11,
            Facility::NTP => 12,
            Facility::Security => 13,
            Facility::Console => 14,
            Facility::ClockDaemon => 15,
            Facility::Local0 => 16,
            Facility::Local1 => 17,
            Facility::Local2 => 18,
            Facility::Local3 => 19,
            Facility::Local4 => 20,
            Facility::Local5 => 21,
            Facility::Local6 => 22,
            Facility::Local7 => 23,
        }
    }

    /// Exec counterpart of [`Facility::spec_code`].
    pub fn code(self) -> (r: u8)
        ensures
            r == self.spec_code(),
            r <= 23,
    {
        match self {
            Facility::Kernel => 0,
            Facility::User => 1,
            Facility::Mail => 2,
            Facility::Daemon => 3,
            Facility::Auth => 4,
            Facility::Syslog => 5,
            Facility::LinePrinter => 6,
            Facility::News => 7,
            Facility::UUCP => 8,
            Facility::Cron => 9,
            Facility::AuthPriv => 10,
            Facility::FTP => 11,
            Facility::NTP => 12,
            Facility::Security => 13,
            Facility::Console => 14,
            Facility::ClockDaemon => 15,
            Facility::Local0 => 16,
            Facility::Local1 => 17,
            Facility::Local2 => 18,
            Facility::Local3 => 19,
            Facility::Local4 => 20,
            Facility::Local5 => 21,
            Facility::Local6 => 22,
            Facility::Local7 => 23,
        }
    }
}

impl Default for Facility {
    fn default() -> (r: Facility)
        ensures
            r == Facility::User,
    {
        Facility::User
    }
}

/// Syslog severity: the standard table of 8 numeric codes, ascending from
/// most to least severe.
#[derive(Debug, Clone, Copy)]
pub enum Severity {
    Emergency,
    Alert,
    Critical,
    Error,
    Warning,
    Notice,
    Informational,
    Debug,
}

impl Severity {
    /// The numeric code of the severity per the standard severity table.
    pub open spec fn spec_code(self) -> u8 {
        match self {
            Severity::Emergency => 0,
            Severity::Alert => 1,
            Severity::Critical => 2,
            Severity::Error => 3,
            Severity::Warning => 4,
            Severity::Notice => 5,
            Severity::Informational => 6,
            Severity::Debug => 7,
        }
    }

    /// Exec counterpart of [`Severity::spec_code`].
    pub fn code(self) -> (r: u8)
        ensures
            r == self.spec_code(),
            r <= 7,
    {
        match self {
            Severity::Emergency => 0,
            Severity::Alert => 1,
            Severity::Critical => 2,
            Severity::Error => 3,
            Severity::Warning => 4,
            Severity::Notice => 5,
            Severity::Informational => 6,
            Severity::Debug => 7,
        }
    }
}

/// The message portion of a syslog message may be either UTF-8 text or
/// binary data.
#[derive(Debug, Clone)]
pub enum Message {
    Text(String),
    Binary(Vec<u8>),
}

/// The abstract value of a message body: the text's characters, or the raw
/// bytes.
pub enum BodyView {
    Text(Seq<char>),
    Binary(Seq<u8>),
}

impl View for Message {
    type V = BodyView;

    open spec fn view(&self) -> BodyView {
        match self {
            Message::Text(s) => BodyView::Text(s@),
            Message::Binary(v) => BodyView::Binary(v@),
        }
    }
}

/// Wrapper for `String` containing the host name. Limited to 255 ASCII chars.
#[derive(Debug)]
pub struct HostName(pub String);

impl View for HostName {
    type V = Seq<char>;

    open spec fn view(&self) -> Seq<char> {
        self.0@
    }
}

impl HostName {
    pub fn new(hostname: &str) -> (r: Result<HostName, Error>)
        ensures
            match r {
                Ok(h) => h@ == hostname@ && valid_header(hostname@, 255),
                Err(e) => !valid_header(hostname@, 255) && e == header_error(hostname@, 255),
            },
    {
        Ok(HostName(new_header_val(hostname, 255)?))
    }
}

impl Default for HostName {
    /// The default is the nil sentinel, not an empty string.
    fn default() -> (r: HostName)
        ensures
            r@ == "-"@,
            valid_header(r@, 255),
    {
        proof {
            reveal_strlit("-");
        }
        HostName("-".to_owned())
    }
}

/// Wrapper for `String` containing the app name. Limited to 48 ASCII chars.
#[derive(Debug)]
pub struct AppName(pub String);

impl View for AppName {
    type V = Seq<char>;

    open spec fn view(&self) -> Seq<char> {
        self.0@
    }
}

impl AppName {
    pub fn new(name: &str) -> (r: Result<AppName, Error>)
        ensures
            match r {
                Ok(a) => a@ == name@ && valid_header(name@, 48),
                Err(e) => !valid_header(name@, 48) && e == header_error(name@, 48),
            },
    {
        Ok(AppName(new_header_val(name, 48)?))
    }
}

impl Default for AppName {
    /// The default is the nil sentinel, not an empty string.
    fn default() -> (r: AppName)
        ensures
            r@ == "-"@,
            valid_header(r@, 48),
    {
        proof {
            reveal_strlit("-");
        }
        AppName("-".to_owned())
    }
}

/// Wrapper for `String` containing the process id. Limited to 128 ASCII chars.
#[derive(Debug)]
pub struct ProcessId(pub String);

impl View for ProcessId {
    type V = Seq<char>;

    open spec fn view(&self) -> Seq<char> {
        self.0@
    }
}

impl ProcessId {
    pub fn new(id: &str) -> (r: Result<ProcessId, Error>)
        ensures
            match r {
                Ok(p) => p@ == id@ && valid_header(id@, 128),
                Err(e) => !valid_header(id@, 128) && e == header_error(id@, 128),
            },
    {
        Ok(ProcessId(new_header_val(id, 128)?))
    }
}

impl Default for ProcessId {
    /// The default is the nil sentinel, not an empty string.
    fn default() -> (r: ProcessId)
        ensures
            r@ == "-"@,
            valid_header(r@, 128),
    {
        proof {
            reveal_strlit("-");
        }
        ProcessId("-".to_owned())
    }
}

/// Wrapper for `String` containing the message id. Limited to 32 ASCII chars.
#[derive(Debug)]
pub struct MessageId(pub String);

impl View for MessageId {
    type V = Seq<char>;

    open spec fn view(&self) -> Seq<char> {
        self.0@
    }
}

impl MessageId {
    pub fn new(id: &str) -> (r: Result<MessageId, Error>)
        ensures
            match r {
                Ok(m) => m@ == id@ && valid_header(id@, 32),
                Err(e) => !valid_header(id@, 32) && e == header_error(id@, 32),
            },
    {
        Ok(MessageId(new_header_val(id, 32)?))
    }
}

impl Default for MessageId {
    /// The default is the nil sentinel, not an empty string.
    fn default() -> (r: MessageId)
        ensures
            r@ == "-"@,
            valid_header(r@, 32),
    {
        proof {
            reveal_strlit("-");
        }
        MessageId("-".to_owned())
    }
}

/// The escaping of one PARAM-VALUE character: backslash, double-quote and
/// closing bracket each gain a leading backslash; every other character is
/// kept as it is.
pub open spec fn escape_char(c: char) -> Seq<char> {
    if c == '\\' {
        seq!['\\', '\\']
    } else if c == '"' {
        seq!['\\', '"']
    } else if c == ']' {
        seq!['\\', ']']
    } else {
        seq![c]
    }
}

/// The escaping of a whole PARAM-VALUE, character by character.
pub open spec fn escaped(s: Seq<char>) -> Seq<char>
    decreases s.len(),
{
    if s.len() == 0 {
        Seq::empty()
    } else {
        escape_char(s[0]) + escaped(s.drop_first())
    }
}

/// Escaping one more character appends that character's escaping.
pub proof fn lemma_escaped_push(s: Seq<char>, c: char)
    ensures
        escaped(s.push(c)) == escaped(s) + escape_char(c),
    decreases s.len(),
{
    if s.len() == 0 {
        assert(s.push(c)[0] == c);
        assert(escaped(s.push(c).drop_first()) =~= Seq::<char>::empty());
        assert(escaped(s.push(c)) == escape_char(c) + escaped(s.push(c).drop_first()));
        assert(escaped(s.push(c)) =~= escaped(s) + escape_char(c));
    } else {
        assert(s.push(c)[0] == s[0]);
        assert(s.push(c).drop_first() =~= s.drop_first().push(c));
        lemma_escaped_push(s.drop_first(), c);
        assert(escaped(s.push(c)) == escape_char(s[0]) + (escaped(s.drop_first()) + escape_char(
            c,
        )));
        assert(escaped(s.push(c)) =~= escaped(s) + escape_char(c));
    }
}

/// Escape the `val` parameter according to the PARAM-VALUE rule from RFC 5424.
pub fn escape_val(val: &str) -> (r: String)
    ensures
        r@ == escaped(val@),
{
    let n = val.unicode_len();
    let mut out = String::new();
    let mut i: usize = 0;
    while i < n
        invariant
            i <= n,
            n == val@.len(),
            out@ == escaped(val@.take(i as int)),
        decreases n - i,
    {
        let c = val.get_char(i);
        if c == '\\' {
            out.push('\\');
            out.push('\\');
        } else if c == '"' {
            out.push('\\');
            out.push('"');
        } else if c == ']' {
            out.push('\\');
            out.push(']');
        } else {
            out.push(c);
        }
        proof {
            assert(val@.take(i as int).push(c) =~= val@.take(i + 1 as int));
            lemma_escaped_push(val@.take(i as int), c);
            assert(out@ =~= escaped(val@.take(i + 1 as int)));
        }
        i = i + 1;
    }
    proof {
        assert(val@.take(n as int) =~= val@);
    }
    out
}

/// True when `s` parses as a sequence of escape units: every backslash opens
/// one of the three escape pairs, and `"` and `]` occur only as the second
/// character of such a pair.
pub open spec fn properly_escaped(s: Seq<char>) -> bool
    decreases s.len(),
{
    if s.len() == 0 {
        true
    } else if s[0] == '\\' {
        s.len() >= 2 && (s[1] == '\\' || s[1] == '"' || s[1] == ']') && properly_escaped(
            s.skip(2),
        )
    } else {
        s[0] != '"' && s[0] != ']' && properly_escaped(s.drop_first())
    }
}

/// A single escaping pass yields a string with no unescaped `"` or `]` and no
/// lone backslash.
pub proof fn lemma_escaped_properly(s: Seq<char>)
    ensures
        properly_escaped(escaped(s)),
    decreases s.len(),
{
    if s.len() == 0 {
    } else {
        lemma_escaped_properly(s.drop_first());
        let e = escaped(s);
        let c = s[0];
        if c == '\\' || c == '"' || c == ']' {
            assert(e.skip(2) =~= escaped(s.drop_first()));
        } else {
            assert(e.drop_first() =~= escaped(s.drop_first()));
        }
    }
}

/// True when `c` may stay in a sanitized SD-ID or PARAM-NAME: ASCII graphic
/// and none of `=`, space, `]`, `"`.
pub open spec fn keep_name_char(c: char) -> bool {
    is_graphic_char(c) && c != '=' && c != ' ' && c != ']' && c != '"'
}

/// The characters of `s` that a name may keep, in order.
pub open spec fn name_filtered(s: Seq<char>) -> Seq<char>
    decreases s.len(),
{
    if s.len() == 0 {
        Seq::empty()
    } else if keep_name_char(s[0]) {
        seq![s[0]] + name_filtered(s.drop_first())
    } else {
        name_filtered(s.drop_first())
    }
}

/// A sanitized name: the kept characters, truncated to 32.
pub open spec fn sanitized(s: Seq<char>) -> Seq<char> {
    if name_filtered(s).len() <= 32 {
        name_filtered(s)
    } else {
        name_filtered(s).take(32)
    }
}

/// Filtering one more character appends it exactly when it may be kept.
pub proof fn lemma_name_filtered_push(s: Seq<char>, c: char)
    ensures
        name_filtered(s.push(c)) == name_filtered(s) + (if keep_name_char(c) {
            seq![c]
        } else {
            Seq::<char>::empty()
        }),
    decreases s.len(),
{
    if s.len() == 0 {
        assert(s.push(c)[0] == c);
        assert(name_filtered(s.push(c).drop_first()) =~= Seq::<char>::empty());
        assert(name_filtered(s.push(c)) =~= name_filtered(s) + (if keep_name_char(c) {
            seq![c]
        } else {
            Seq::<char>::empty()
        }));
    } else {
        assert(s.push(c)[0] == s[0]);
        assert(s.push(c).drop_first() =~= s.drop_first().push(c));
        lemma_name_filtered_push(s.drop_first(), c);
        let tail_push = name_filtered(s.drop_first()) + (if keep_name_char(c) {
            seq![c]
        } else {
            Seq::<char>::empty()
        });
        if keep_name_char(s[0]) {
            assert(name_filtered(s.push(c)) == seq![s[0]] + tail_push);
        } else {
            assert(name_filtered(s.push(c)) == tail_push);
        }
        assert(name_filtered(s.push(c)) =~= name_filtered(s) + (if keep_name_char(c) {
            seq![c]
        } else {
            Seq::<char>::empty()
        }));
    }
}

/// Every character that filtering keeps satisfies [`keep_name_char`].
pub proof fn lemma_name_filtered_kept(s: Seq<char>)
    ensures
        forall|i: int|
            0 <= i < name_filtered(s).len() ==> keep_name_char(#[trigger] name_filtered(s)[i]),
    decreases s.len(),
{
    if s.len() == 0 {
    } else {
        lemma_name_filtered_kept(s.drop_first());
        if keep_name_char(s[0]) {
            assert(name_filtered(s) == seq![s[0]] + name_filtered(s.drop_first()));
            assert forall|i: int|
                0 <= i < name_filtered(s).len() implies keep_name_char(
                name_filtered(s)[i],
            ) by {
                if i == 0 {
                    assert(name_filtered(s)[0] == s[0]);
                } else {
                    assert(name_filtered(s)[i] == name_filtered(s.drop_first())[i - 1]);
                }
            }
        }
    }
}

/// A sanitized name never exceeds 32 characters, and never contains `=`,
/// space, `]`, `"`, or any character outside printable ASCII.
pub proof fn lemma_sanitized_valid(s: Seq<char>)
    ensures
        sanitized(s).len() <= 32,
        forall|i: int| 0 <= i < sanitized(s).len() ==> keep_name_char(#[trigger] sanitized(s)[i]),
{
    lemma_name_filtered_kept(s);
}

/// Remove invalid characters from `name`. Used for values in PARAM-NAME and
/// SD-ID from RFC 5424. Removes `=`, space, `]`, `"`, and non-printable ASCII
/// characters. The filtered name is then truncated to 32 characters.
pub fn remove_invalid(name: &str) -> (r: String)
    ensures
        r@ == sanitized(name@),
{
    let n = name.unicode_len();
    let mut out = String::new();
    let mut kept: usize = 0;
    let mut i: usize = 0;
    while i < n
        invariant
            i <= n,
            n == name@.len(),
            kept == out@.len(),
            kept <= 32,
            out@ == sanitized(name@.take(i as int)),
            kept == if name_filtered(name@.take(i as int)).len() <= 32 {
                name_filtered(name@.take(i as int)).len()
            } else {
                32 as nat
            },
        decreases n - i,
    {
        let c = name.get_char(i);
        proof {
            assert(name@.take(i as int).push(c) =~= name@.take(i + 1 as int));
            lemma_name_filtered_push(name@.take(i as int), c);
        }
        if char_is_graphic(c) && c != '=' && c != ' ' && c != ']' && c != '"' {
            if kept < 32 {
                out.push(c);
                kept = kept + 1;
            }
        }
        proof {
            assert(out@ =~= sanitized(name@.take(i + 1 as int)));
        }
        i = i + 1;
    }
    proof {
        assert(name@.take(n as int) =~= name@);
    }
    out
}

} // verus!
