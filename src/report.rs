//! One crash occurrence: its identifier, its annotations, where its files go,
//! what they hold and how much process state its snapshot captures.

use vstd::prelude::*;
use crate::config::{ApplicationData, opt_view};
use crate::decimal::{decimal, decimal_text};
use crate::paths::FilePath;

verus! {

/// A lower-case hexadecimal digit of value `d`.
pub open spec fn hex_char(d: nat) -> char {
    if d < 10 {
        crate::decimal::digit_char(d)
    } else if d == 10 {
        'a'
    } else if d == 11 {
        'b'
    } else if d == 12 {
        'c'
    } else if d == 13 {
        'd'
    } else if d == 14 {
        'e'
    } else {
        'f'
    }
}

/// How one character is written inside a JSON string: quote, backslash and
/// the control characters below 0x20 are escaped, the others stand as they
/// are.
pub open spec fn escape_char(c: char) -> Seq<char> {
    if c == '"' {
        seq!['\\', '"']
    } else if c == '\\' {
        seq!['\\', '\\']
    } else if c == '\u{8}' {
        seq!['\\', 'b']
    } else if c == '\t' {
        seq!['\\', 't']
    } else if c == '\n' {
        seq!['\\', 'n']
    } else if c == '\u{c}' {
        seq!['\\', 'f']
    } else if c == '\r' {
        seq!['\\', 'r']
    } else if (c as u32) < 0x20 {
        seq!['\\', 'u', '0', '0', hex_char((c as u32 / 16) as nat), hex_char((c as u32 % 16) as nat)]
    } else {
        seq![c]
    }
}

/// The characters of `s`, each escaped.
pub open spec fn escape_str(s: Seq<char>) -> Seq<char>
    decreases s.len(),
{
    if s.len() == 0 {
        Seq::<char>::empty()
    } else {
        escape_char(s[0]) + escape_str(s.drop_first())
    }
}

/// The JSON string that holds `s`: escaped, between quotes.
pub open spec fn json_string_of(s: Seq<char>) -> Seq<char> {
    seq!['"'] + escape_str(s) + seq!['"']
}

/// Relies on `serde_json::to_string` on a `str`: the compact formatter writes
/// the string between quotes with the escapes of its `ESCAPE` table, and
/// writing into a `Vec` cannot fail.
#[verifier::external_body]
fn json_quote(s: &str) -> (r: String)
    ensures
        r@ == json_string_of(s@),
{
    serde_json::to_string(s).unwrap_or_default()
}

/// Relies on `uuid::Uuid::new_v4`: the 16 bytes of a random identifier. It
/// panics only where the operating system gives no random bytes.
#[verifier::external_body]
fn new_uuid_bytes() -> (r: [u8; 16]) {
    *uuid::Uuid::new_v4().as_bytes()
}

/// Two lower-case hexadecimal digits for each byte, high half first.
pub open spec fn hex_bytes(b: Seq<u8>) -> Seq<char>
    decreases b.len(),
{
    if b.len() == 0 {
        Seq::<char>::empty()
    } else {
        seq![hex_char((b[0] / 16) as nat), hex_char((b[0] % 16) as nat)] + hex_bytes(b.drop_first())
    }
}

/// The hyphenated text of the 16 bytes of an identifier: the hexadecimal
/// digits of bytes 0..4, 4..6, 6..8, 8..10 and 10..16, parted by hyphens.
pub open spec fn hyphenated_text(b: Seq<u8>) -> Seq<char> {
    hex_bytes(b.subrange(0, 4)) + seq!['-'] + hex_bytes(b.subrange(4, 6)) + seq!['-'] + hex_bytes(
        b.subrange(6, 8),
    ) + seq!['-'] + hex_bytes(b.subrange(8, 10)) + seq!['-'] + hex_bytes(b.subrange(10, 16))
}

/// Relies on `uuid::adapter::Hyphenated::encode_lower`: the lower-case
/// hyphenated text of the identifier with these bytes.
#[verifier::external_body]
fn hyphenated_lower(bytes: [u8; 16]) -> (r: String)
    ensures
        r@ == hyphenated_text(bytes@),
{
    uuid::Uuid::from_bytes(bytes).to_hyphenated().encode_lower(&mut uuid::Uuid::encode_buffer()).to_owned()
}

proof fn lemma_hex_bytes_len(b: Seq<u8>)
    ensures
        hex_bytes(b).len() == 2 * b.len(),
    decreases b.len(),
{
    if b.len() > 0 {
        lemma_hex_bytes_len(b.drop_first());
    }
}

proof fn lemma_hyphenated_text_len(b: Seq<u8>)
    requires
        b.len() == 16,
    ensures
        hyphenated_text(b).len() == 36,
{
    lemma_hex_bytes_len(b.subrange(0, 4));
    lemma_hex_bytes_len(b.subrange(4, 6));
    lemma_hex_bytes_len(b.subrange(6, 8));
    lemma_hex_bytes_len(b.subrange(8, 10));
    lemma_hex_bytes_len(b.subrange(10, 16));
}

#[allow(non_upper_case_globals)]
pub const MiniDumpWithUnloadedModules: u32 = 0x20;

#[allow(non_upper_case_globals)]
pub const MiniDumpWithIndirectlyReferencedMemory: u32 = 0x40;

#[allow(non_upper_case_globals)]
pub const MiniDumpWithProcessThreadData: u32 = 0x100;

#[allow(non_upper_case_globals)]
pub const MiniDumpWithFullMemoryInfo: u32 = 0x800;

/// The snapshot flags that every report asks for.
pub open spec fn baseline_breadth() -> u32 {
    MiniDumpWithFullMemoryInfo | MiniDumpWithUnloadedModules
}

/// The snapshot flags for a channel that is or is not enhanced, on a system
/// that does or does not support the advanced capture.
pub open spec fn breadth(enhanced: bool, advanced: bool) -> u32 {
    if !enhanced {
        baseline_breadth()
    } else if !advanced {
        baseline_breadth() | MiniDumpWithProcessThreadData
    } else {
        baseline_breadth() | MiniDumpWithProcessThreadData | MiniDumpWithIndirectlyReferencedMemory
    }
}

/// The channels on which the costlier snapshot detail is captured.
pub open spec fn is_enhanced_channel(channel: Seq<char>) -> bool {
    channel == "nightly"@ || channel == "default"@
}

/// The flat record of annotations written to the side-car files.
#[derive(Debug)]
pub struct Annotations {
    pub crash_time: String,
    pub vendor: Option<String>,
    pub product_name: String,
    pub version: String,
    pub build_id: String,
    pub product_id: String,
    pub server_url: String,
    pub release_channel: String,
    pub install_time: String,
}

/// One member of the annotations object, with the comma that parts it from
/// the previous one unless it comes first.
pub open spec fn member_text(first: bool, key: Seq<char>, value: Seq<char>) -> Seq<char> {
    (if first { Seq::<char>::empty() } else { ","@ }) + json_string_of(key) + ":"@ + json_string_of(value)
}

/// The `Vendor` member, present only where a vendor is.
pub open spec fn vendor_text(vendor: Option<Seq<char>>) -> Seq<char> {
    match vendor {
        Some(v) => member_text(false, "Vendor"@, v),
        None => Seq::<char>::empty(),
    }
}

/// The annotations as a compact JSON object, members in declaration order.
pub open spec fn annotations_json(a: Annotations) -> Seq<char> {
    "{"@ + member_text(true, "CrashTime"@, a.crash_time@) + vendor_text(opt_view(a.vendor))
        + member_text(false, "ProductName"@, a.product_name@) + member_text(
        false,
        "Version"@,
        a.version@,
    ) + member_text(false, "BuildID"@, a.build_id@) + member_text(
        false,
        "ProductID"@,
        a.product_id@,
    ) + member_text(false, "ServerURL"@, a.server_url@) + member_text(
        false,
        "ReleaseChannel"@,
        a.release_channel@,
    ) + member_text(false, "InstallTime"@, a.install_time@) + "}"@
}

fn push_member(out: &mut String, first: bool, key: &str, value: &str)
    ensures
        final(out)@ == old(out)@ + member_text(first, key@, value@),
{
    let ghost start = out@;
    if !first {
        out.append(",");
    }
    let k = json_quote(key);
    out.append(k.as_str());
    out.append(":");
    let v = json_quote(value);
    out.append(v.as_str());
    assert(out@ =~= start + member_text(first, key@, value@));
}

impl Annotations {
    /// The annotations of a crash of the installation `application_data`.
    pub fn from_application_data(
        application_data: &ApplicationData,
        release_channel: &str,
        install_time: &str,
        crash_time: i64,
    ) -> (r: Annotations)
        ensures
            r.crash_time@ == decimal(crash_time as int),
            opt_view(r.vendor) == opt_view(application_data.vendor),
            r.product_name@ == application_data.name@,
            r.version@ == application_data.version@,
            r.build_id@ == application_data.build_id@,
            r.product_id@ == application_data.product_id@,
            r.server_url@ == application_data.server_url@,
            r.release_channel@ == release_channel@,
            r.install_time@ == install_time@,
    {
        let vendor = match &application_data.vendor {
            Some(v) => Some(v.clone()),
            None => None,
        };
        Annotations {
            crash_time: decimal_text(crash_time),
            vendor,
            product_name: application_data.name.clone(),
            version: application_data.version.clone(),
            build_id: application_data.build_id.clone(),
            product_id: application_data.product_id.clone(),
            server_url: application_data.server_url.clone(),
            release_channel: release_channel.to_string(),
            install_time: install_time.to_string(),
        }
    }

    /// The annotations as the JSON object that the side-car files hold.
    pub fn to_json(&self) -> (r: String)
        ensures
            r@ == annotations_json(*self),
    {
        let mut out = String::from_str("{");
        push_member(&mut out, true, "CrashTime", self.crash_time.as_str());
        match &self.vendor {
            Some(v) => push_member(&mut out, false, "Vendor", v.as_str()),
            None => {
                assert(out@ + Seq::<char>::empty() =~= out@);
            },
        }
        push_member(&mut out, false, "ProductName", self.product_name.as_str());
        push_member(&mut out, false, "Version", self.version.as_str());
        push_member(&mut out, false, "BuildID", self.build_id.as_str());
        push_member(&mut out, false, "ProductID", self.product_id.as_str());
        push_member(&mut out, false, "ServerURL", self.server_url.as_str());
        push_member(&mut out, false, "ReleaseChannel", self.release_channel.as_str());
        push_member(&mut out, false, "InstallTime", self.install_time.as_str());
        out.append("}");
        out
    }
}

/// One crash occurrence: the identifier that names each of its files, the
/// crash reports directory, the release channel, the crash time in seconds
/// since the epoch and the annotations.
#[derive(Debug)]
pub struct CrashReport {
    pub uuid: String,
    pub crash_reports_path: FilePath,
    pub release_channel: String,
    pub annotations: Annotations,
    pub crash_time: i64,
}

/// The tag that opens an event file.
pub open spec fn event_tag() -> Seq<char> {
    "crash.main.3"@
}

/// `r` is the report of a crash at `crash_time` of installation `d`, on
/// channel `channel`, with install time `install_time`, whose reports go to
/// `dir`.
pub open spec fn report_matches(
    r: CrashReport,
    dir: Seq<Seq<char>>,
    channel: Seq<char>,
    d: ApplicationData,
    install_time: Seq<char>,
    crash_time: i64,
) -> bool {
    &&& r.crash_reports_path@ == dir
    &&& r.release_channel@ == channel
    &&& r.crash_time == crash_time
    &&& r.annotations.crash_time@ == decimal(crash_time as int)
    &&& opt_view(r.annotations.vendor) == opt_view(d.vendor)
    &&& r.annotations.product_name@ == d.name@
    &&& r.annotations.version@ == d.version@
    &&& r.annotations.build_id@ == d.build_id@
    &&& r.annotations.product_id@ == d.product_id@
    &&& r.annotations.server_url@ == d.server_url@
    &&& r.annotations.release_channel@ == channel
    &&& r.annotations.install_time@ == install_time
}

impl CrashReport {
    /// The annotations agree with the report on the crash time and channel.
    pub open spec fn wf(&self) -> bool {
        &&& self.annotations.crash_time@ == decimal(self.crash_time as int)
        &&& self.annotations.release_channel@ == self.release_channel@
    }

    /// `<dir>/pending`
    pub open spec fn pending_path_spec(&self) -> Seq<Seq<char>> {
        self.crash_reports_path@.push("pending"@)
    }

    /// `<dir>/events`
    pub open spec fn events_path_spec(&self) -> Seq<Seq<char>> {
        self.crash_reports_path@.push("events"@)
    }

    /// `<dir>/pending/<uuid>.dmp`
    pub open spec fn minidump_path_spec(&self) -> Seq<Seq<char>> {
        self.pending_path_spec().push(self.uuid@ + ".dmp"@)
    }

    /// `<dir>/pending/<uuid>.extra`
    pub open spec fn extra_file_path_spec(&self) -> Seq<Seq<char>> {
        self.pending_path_spec().push(self.uuid@ + ".extra"@)
    }

    /// `<dir>/events/<uuid>`
    pub open spec fn event_file_path_spec(&self) -> Seq<Seq<char>> {
        self.events_path_spec().push(self.uuid@)
    }

    /// The event file: the tag, the crash time and the identifier on a line
    /// each, then the annotations object.
    pub open spec fn event_text(&self) -> Seq<char> {
        event_tag() + "\n"@ + decimal(self.crash_time as int) + "\n"@ + self.uuid@ + "\n"@
            + annotations_json(self.annotations)
    }

    /// The report named `uuid` of a crash at `crash_time`.
    pub fn from_parts(
        crash_reports_path: &FilePath,
        release_channel: &str,
        application_data: &ApplicationData,
        install_time: &str,
        uuid: String,
        crash_time: i64,
    ) -> (r: CrashReport)
        ensures
            r.uuid@ == uuid@,
            report_matches(
                r,
                crash_reports_path@,
                release_channel@,
                *application_data,
                install_time@,
                crash_time,
            ),
            r.wf(),
    {
        let annotations = Annotations::from_application_data(
            application_data,
            release_channel,
            install_time,
            crash_time,
        );
        CrashReport {
            uuid,
            crash_reports_path: crash_reports_path.duplicate(),
            release_channel: release_channel.to_string(),
            annotations,
            crash_time,
        }
    }

    /// The report of a crash at `crash_time`, named by a fresh random
    /// identifier in hyphenated form.
    pub fn new(
        crash_reports_path: &FilePath,
        release_channel: &str,
        application_data: &ApplicationData,
        install_time: &str,
        crash_time: i64,
    ) -> (r: CrashReport)
        ensures
            r.uuid@.len() == 36,
            exists|bits: Seq<u8>| bits.len() == 16 && #[trigger] hyphenated_text(bits) == r.uuid@,
            report_matches(
                r,
                crash_reports_path@,
                release_channel@,
                *application_data,
                install_time@,
                crash_time,
            ),
            r.wf(),
    {
        let bits = new_uuid_bytes();
        let uuid = hyphenated_lower(bits);
        proof {
            lemma_hyphenated_text_len(bits@);
        }
        CrashReport::from_parts(
            crash_reports_path,
            release_channel,
            application_data,
            install_time,
            uuid,
            crash_time,
        )
    }

    /// The channel is one of those that capture the costlier detail.
    pub fn is_nightly(&self) -> (r: bool)
        ensures
            r == is_enhanced_channel(self.release_channel@),
    {
        self.release_channel == String::from_str("nightly") || self.release_channel
            == String::from_str("default")
    }

    /// The snapshot flags of this report, where `advanced_supported` tells
    /// whether the system captures indirectly referenced memory correctly.
    pub fn get_minidump_type(&self, advanced_supported: bool) -> (r: u32)
        ensures
            r == breadth(is_enhanced_channel(self.release_channel@), advanced_supported),
    {
        let mut minidump_type = MiniDumpWithFullMemoryInfo | MiniDumpWithUnloadedModules;
        if self.is_nightly() {
            minidump_type = minidump_type | MiniDumpWithProcessThreadData;
            if advanced_supported {
                minidump_type = minidump_type | MiniDumpWithIndirectlyReferencedMemory;
            }
        }
        minidump_type
    }

    pub fn get_pending_path(&self) -> (r: FilePath)
        ensures
            r@ == self.pending_path_spec(),
    {
        self.crash_reports_path.join("pending")
    }

    pub fn get_events_path(&self) -> (r: FilePath)
        ensures
            r@ == self.events_path_spec(),
    {
        self.crash_reports_path.join("events")
    }

    pub fn get_minidump_path(&self) -> (r: FilePath)
        ensures
            r@ == self.minidump_path_spec(),
    {
        let mut name = self.uuid.clone();
        name.append(".dmp");
        self.get_pending_path().join(name.as_str())
    }

    pub fn get_extra_file_path(&self) -> (r: FilePath)
        ensures
            r@ == self.extra_file_path_spec(),
    {
        let mut name = self.uuid.clone();
        name.append(".extra");
        self.get_pending_path().join(name.as_str())
    }

    pub fn get_event_file_path(&self) -> (r: FilePath)
        ensures
            r@ == self.event_file_path_spec(),
    {
        self.get_events_path().join(self.uuid.as_str())
    }

    /// What the `.extra` file holds: the annotations object.
    pub fn extra_file_contents(&self) -> (r: String)
        ensures
            r@ == annotations_json(self.annotations),
    {
        self.annotations.to_json()
    }

    /// What the event file holds.
    pub fn event_file_contents(&self) -> (r: String)
        ensures
            r@ == self.event_text(),
    {
        let mut out = String::from_str("crash.main.3");
        out.append("\n");
        out.append(decimal_text(self.crash_time).as_str());
        out.append("\n");
        out.append(self.uuid.as_str());
        out.append("\n");
        out.append(self.annotations.to_json().as_str());
        out
    }
}

/// The snapshot breadth only grows with the channel and the system: an
/// enhanced channel keeps every baseline flag, the advanced capture keeps
/// every flag of the enhanced channel, and a channel that is not enhanced
/// never has the per-thread or indirect-memory flags, whatever the system.
pub proof fn lemma_breadth_monotone(advanced: bool)
    ensures
        breadth(true, advanced) & baseline_breadth() == baseline_breadth(),
        breadth(true, true) & breadth(true, false) == breadth(true, false),
        breadth(false, advanced) & MiniDumpWithProcessThreadData == 0,
        breadth(false, advanced) & MiniDumpWithIndirectlyReferencedMemory == 0,
        breadth(false, advanced) == baseline_breadth(),
{
    assert(((0x800u32 | 0x20u32) | 0x100u32) & (0x800u32 | 0x20u32) == (0x800u32 | 0x20u32))
        by (bit_vector);
    assert((((0x800u32 | 0x20u32) | 0x100u32) | 0x40u32) & (0x800u32 | 0x20u32) == (0x800u32
        | 0x20u32)) by (bit_vector);
    assert((((0x800u32 | 0x20u32) | 0x100u32) | 0x40u32) & ((0x800u32 | 0x20u32) | 0x100u32) == (
    (0x800u32 | 0x20u32) | 0x100u32)) by (bit_vector);
    assert((0x800u32 | 0x20u32) & 0x100u32 == 0) by (bit_vector);
    assert((0x800u32 | 0x20u32) & 0x40u32 == 0) by (bit_vector);
}

proof fn lemma_suffix_cancel(a: Seq<char>, b: Seq<char>, t: Seq<char>)
    requires
        a + t == b + t,
    ensures
        a == b,
{
    assert((a + t).len() == a.len() + t.len());
    assert((b + t).len() == b.len() + t.len());
    assert(a.len() == b.len());
    assert(a =~= (a + t).take(a.len() as int));
    assert(b =~= (b + t).take(b.len() as int));
}

/// The files of one report share its identifier as their stem and its crash
/// time: the snapshot and the `.extra` file lie side by side under
/// `pending`, the event file under `events`, and the event file carries the
/// crash time and the identifier on its second and third lines, then the very
/// object of the `.extra` file, whose `CrashTime` is that same time.
pub proof fn lemma_report_files_agree(r: CrashReport)
    requires
        r.wf(),
    ensures
        r.minidump_path_spec() == r.crash_reports_path@.push("pending"@).push(r.uuid@ + ".dmp"@),
        r.extra_file_path_spec() == r.crash_reports_path@.push("pending"@).push(
            r.uuid@ + ".extra"@,
        ),
        r.event_file_path_spec() == r.crash_reports_path@.push("events"@).push(r.uuid@),
        r.event_text() == event_tag() + "\n"@ + r.annotations.crash_time@ + "\n"@ + r.uuid@
            + "\n"@ + annotations_json(r.annotations),
{
}

/// Two reports in one directory with different identifiers never share a
/// file name.
pub proof fn lemma_distinct_reports_distinct_files(r1: CrashReport, r2: CrashReport)
    requires
        r1.crash_reports_path@ == r2.crash_reports_path@,
        r1.uuid@ != r2.uuid@,
    ensures
        r1.minidump_path_spec() != r2.minidump_path_spec(),
        r1.extra_file_path_spec() != r2.extra_file_path_spec(),
        r1.event_file_path_spec() != r2.event_file_path_spec(),
        r1.minidump_path_spec() != r2.extra_file_path_spec(),
{
    let n: int = r1.crash_reports_path@.len() as int + 1;
    if r1.minidump_path_spec() == r2.minidump_path_spec() {
        assert(r1.minidump_path_spec()[n] == r2.minidump_path_spec()[n]);
        lemma_suffix_cancel(r1.uuid@, r2.uuid@, ".dmp"@);
    }
    if r1.extra_file_path_spec() == r2.extra_file_path_spec() {
        assert(r1.extra_file_path_spec()[n] == r2.extra_file_path_spec()[n]);
        lemma_suffix_cancel(r1.uuid@, r2.uuid@, ".extra"@);
    }
    if r1.event_file_path_spec() == r2.event_file_path_spec() {
        assert(r1.event_file_path_spec()[n] == r2.event_file_path_spec()[n]);
    }
    if r1.minidump_path_spec() == r2.extra_file_path_spec() {
        let a = r1.uuid@ + ".dmp"@;
        let b = r2.uuid@ + ".extra"@;
        assert(r1.minidump_path_spec()[n] == r2.extra_file_path_spec()[n]);
        reveal_strlit(".dmp");
        reveal_strlit(".extra");
        if r1.uuid@.len() == r2.uuid@.len() + 2 {
            assert(a[a.len() - 1] == 'p');
            assert(b[b.len() - 1] == 'a');
        } else {
            assert(a.len() != b.len());
        }
    }
}

proof fn lemma_hex_bytes_injective(x: Seq<u8>, y: Seq<u8>)
    requires
        x.len() == y.len(),
        hex_bytes(x) == hex_bytes(y),
    ensures
        x == y,
    decreases x.len(),
{
    if x.len() > 0 {
        let p = x[0];
        let q = y[0];
        let hx = hex_bytes(x);
        let hy = hex_bytes(y);
        assert(hx[0] == hex_char((p / 16) as nat) && hx[1] == hex_char((p % 16) as nat));
        assert(hy[0] == hex_char((q / 16) as nat) && hy[1] == hex_char((q % 16) as nat));
        crate::json::lemma_hex_char_injective((p / 16) as nat, (q / 16) as nat);
        crate::json::lemma_hex_char_injective((p % 16) as nat, (q % 16) as nat);
        assert((p / 16 == q / 16 && p % 16 == q % 16) ==> p == q) by (bit_vector);
        assert(hex_bytes(x.drop_first()) =~= hx.skip(2));
        assert(hex_bytes(y.drop_first()) =~= hy.skip(2));
        lemma_hex_bytes_injective(x.drop_first(), y.drop_first());
        assert(x =~= seq![p] + x.drop_first());
        assert(y =~= seq![q] + y.drop_first());
    } else {
        assert(x =~= y);
    }
}

proof fn lemma_split_eq(a1: Seq<char>, a2: Seq<char>, b1: Seq<char>, b2: Seq<char>)
    requires
        a1 + a2 == b1 + b2,
        a2.len() == b2.len(),
    ensures
        a1 == b1,
        a2 == b2,
{
    assert((a1 + a2).len() == a1.len() + a2.len());
    assert((b1 + b2).len() == b1.len() + b2.len());
    assert(a1 =~= (a1 + a2).take(a1.len() as int));
    assert(b1 =~= (b1 + b2).take(b1.len() as int));
    assert(a2 =~= (a1 + a2).skip(a1.len() as int));
    assert(b2 =~= (b1 + b2).skip(b1.len() as int));
}

/// Identifiers with different random bytes have different hyphenated texts,
/// so reports made from them never share a file name.
pub proof fn lemma_distinct_bytes_distinct_ids(b1: Seq<u8>, b2: Seq<u8>)
    requires
        b1.len() == 16,
        b2.len() == 16,
        b1 != b2,
    ensures
        hyphenated_text(b1) != hyphenated_text(b2),
{
    if hyphenated_text(b1) == hyphenated_text(b2) {
        let d = seq!['-'];
        let g = |b: Seq<u8>, i: int, j: int| hex_bytes(b.subrange(i, j));
        lemma_hex_bytes_len(b1.subrange(0, 4));
        lemma_hex_bytes_len(b1.subrange(4, 6));
        lemma_hex_bytes_len(b1.subrange(6, 8));
        lemma_hex_bytes_len(b1.subrange(8, 10));
        lemma_hex_bytes_len(b1.subrange(10, 16));
        lemma_hex_bytes_len(b2.subrange(0, 4));
        lemma_hex_bytes_len(b2.subrange(4, 6));
        lemma_hex_bytes_len(b2.subrange(6, 8));
        lemma_hex_bytes_len(b2.subrange(8, 10));
        lemma_hex_bytes_len(b2.subrange(10, 16));
        let p1a = g(b1, 0, 4) + d + g(b1, 4, 6) + d + g(b1, 6, 8) + d + g(b1, 8, 10) + d;
        let p1b = g(b2, 0, 4) + d + g(b2, 4, 6) + d + g(b2, 6, 8) + d + g(b2, 8, 10) + d;
        lemma_split_eq(p1a, g(b1, 10, 16), p1b, g(b2, 10, 16));
        let p2a = g(b1, 0, 4) + d + g(b1, 4, 6) + d + g(b1, 6, 8) + d + g(b1, 8, 10);
        let p2b = g(b2, 0, 4) + d + g(b2, 4, 6) + d + g(b2, 6, 8) + d + g(b2, 8, 10);
        lemma_split_eq(p2a, d, p2b, d);
        let p3a = g(b1, 0, 4) + d + g(b1, 4, 6) + d + g(b1, 6, 8) + d;
        let p3b = g(b2, 0, 4) + d + g(b2, 4, 6) + d + g(b2, 6, 8) + d;
        lemma_split_eq(p3a, g(b1, 8, 10), p3b, g(b2, 8, 10));
        let p4a = g(b1, 0, 4) + d + g(b1, 4, 6) + d + g(b1, 6, 8);
        let p4b = g(b2, 0, 4) + d + g(b2, 4, 6) + d + g(b2, 6, 8);
        lemma_split_eq(p4a, d, p4b, d);
        let p5a = g(b1, 0, 4) + d + g(b1, 4, 6) + d;
        let p5b = g(b2, 0, 4) + d + g(b2, 4, 6) + d;
        lemma_split_eq(p5a, g(b1, 6, 8), p5b, g(b2, 6, 8));
        let p6a = g(b1, 0, 4) + d + g(b1, 4, 6);
        let p6b = g(b2, 0, 4) + d + g(b2, 4, 6);
        lemma_split_eq(p6a, d, p6b, d);
        let p7a = g(b1, 0, 4) + d;
        let p7b = g(b2, 0, 4) + d;
        lemma_split_eq(p7a, g(b1, 4, 6), p7b, g(b2, 4, 6));
        lemma_split_eq(g(b1, 0, 4), d, g(b2, 0, 4), d);
        lemma_hex_bytes_injective(b1.subrange(0, 4), b2.subrange(0, 4));
        lemma_hex_bytes_injective(b1.subrange(4, 6), b2.subrange(4, 6));
        lemma_hex_bytes_injective(b1.subrange(6, 8), b2.subrange(6, 8));
        lemma_hex_bytes_injective(b1.subrange(8, 10), b2.subrange(8, 10));
        lemma_hex_bytes_injective(b1.subrange(10, 16), b2.subrange(10, 16));
        assert forall|i: int| 0 <= i < 16 implies b1[i] == b2[i] by {
            if i < 4 {
                assert(b1.subrange(0, 4)[i] == b2.subrange(0, 4)[i]);
            } else if i < 6 {
                assert(b1.subrange(4, 6)[i - 4] == b2.subrange(4, 6)[i - 4]);
            } else if i < 8 {
                assert(b1.subrange(6, 8)[i - 6] == b2.subrange(6, 8)[i - 6]);
            } else if i < 10 {
                assert(b1.subrange(8, 10)[i - 8] == b2.subrange(8, 10)[i - 8]);
            } else {
                assert(b1.subrange(10, 16)[i - 10] == b2.subrange(10, 16)[i - 10]);
            }
        }
        assert(b1 =~= b2);
    }
}

} // verus!
