//! The tables of Windows that a passive discovery reads: the registry, the installed
//! packages and the listeners. The calls are made elsewhere; what they answer is
//! taken here.

use vstd::prelude::*;
use vstd::string::*;

use crate::address;
use crate::address::{address_of, loopback_address};
use crate::digest;
use crate::observation::{DiscoveryDiagnosticCode, ObservationSourceKind};
use crate::passive;
use crate::passive::{
    WindowsAppPathRecord, WindowsLoopbackListenerRecord, WindowsPackageRecord,
    WindowsProviderCollection, WindowsRegistryHive, WindowsRegistryView, MAX_REAL_LOOPBACK_RECORDS,
};
use crate::text;
use crate::text::{decimal_text, trimmed};

verus! {

// ---------------------------------------------------------------------------
// The registry.

pub const MAX_REAL_APP_PATH_RECORDS: usize = 512;

/// What the file system or the registry answered.
#[derive(Clone, Copy, Debug, PartialEq, Eq, Structural)]
pub enum AccessStatus {
    Done,
    NotFound,
    Denied,
    Failed,
}

/// How a failure to look at a file is told.
pub fn io_diagnostic_code(status: AccessStatus) -> (r: DiscoveryDiagnosticCode)
    ensures
        r == match status {
            AccessStatus::NotFound => DiscoveryDiagnosticCode::SourceDisappeared,
            AccessStatus::Denied => DiscoveryDiagnosticCode::AccessDenied,
            _ => DiscoveryDiagnosticCode::InvalidSourceRecord,
        },
{
    match status {
        AccessStatus::NotFound => DiscoveryDiagnosticCode::SourceDisappeared,
        AccessStatus::Denied => DiscoveryDiagnosticCode::AccessDenied,
        _ => DiscoveryDiagnosticCode::InvalidSourceRecord,
    }
}

/// A unit of UTF-16 that stands for a character only together with one behind it.
pub open spec fn is_high_surrogate(u: u16) -> bool {
    0xd800 <= u <= 0xdbff
}

pub open spec fn is_low_surrogate(u: u16) -> bool {
    0xdc00 <= u <= 0xdfff
}

/// The character that two units of UTF-16 stand for.
pub open spec fn surrogate_char(high: u16, low: u16) -> char {
    ((0x10000 + (high - 0xd800) * 0x400 + (low - 0xdc00)) as u32) as char
}

/// The text that units of UTF-16 encode; none if a surrogate stands alone.
pub open spec fn utf16_text(units: Seq<u16>) -> Option<Seq<char>>
    decreases units.len(),
{
    if units.len() == 0 {
        Some(seq![])
    } else if is_high_surrogate(units[0]) {
        if units.len() >= 2 && is_low_surrogate(units[1]) {
            match utf16_text(units.skip(2)) {
                Some(rest) => Some(seq![surrogate_char(units[0], units[1])] + rest),
                None => None,
            }
        } else {
            None
        }
    } else if is_low_surrogate(units[0]) {
        None
    } else {
        match utf16_text(units.skip(1)) {
            Some(rest) => Some(seq![(units[0] as u32) as char] + rest),
            None => None,
        }
    }
}

/// Calls `String::from_utf16`, which decodes UTF-16 and fails where it is not
/// valid, that is where a surrogate stands alone.
#[verifier::external_body]
fn string_from_utf16(units: &[u16]) -> (r: Option<String>)
    ensures
        text::opt_text(r) == utf16_text(units@),
{
    String::from_utf16(units).ok()
}

/// The units before the first zero.
pub open spec fn before_zero(units: Seq<u16>) -> Seq<u16>
    decreases units.len(),
{
    if units.len() == 0 || units[0] == 0 {
        seq![]
    } else {
        seq![units[0]] + before_zero(units.drop_first())
    }
}

proof fn lemma_before_zero(units: Seq<u16>, end: int)
    requires
        0 <= end <= units.len(),
        end == units.len() || units[end] == 0,
        forall|k: int| 0 <= k < end ==> units[k] != 0,
    ensures
        before_zero(units) == units.take(end),
    decreases units.len(),
{
    if end == 0 {
        assert(units.take(0) =~= seq![]);
    } else {
        lemma_before_zero(units.drop_first(), end - 1);
        assert(seq![units[0]] + units.drop_first().take(end - 1) =~= units.take(end));
    }
}

/// The units of a text that a zero ends.
pub fn until_zero(units: &[u16]) -> (r: Vec<u16>)
    ensures
        r@ == before_zero(units@),
{
    let mut r: Vec<u16> = Vec::new();
    let mut i: usize = 0;
    assert(units@.take(0) =~= r@);
    while i < units.len() && units[i] != 0
        invariant
            i <= units@.len(),
            r@ == units@.take(i as int),
            forall|k: int| 0 <= k < i ==> units@[k] != 0,
        decreases units@.len() - i,
    {
        assert(units@.take(i + 1) =~= units@.take(i as int).push(units@[i as int]));
        r.push(units[i]);
        i += 1;
    }
    proof {
        lemma_before_zero(units@, i as int);
    }
    r
}

/// A text of the registry, where it is one.
pub fn utf16_z_to_string(units: &[u16]) -> (r: Option<String>)
    ensures
        text::opt_text(r) == utf16_text(before_zero(units@)),
{
    let units = until_zero(units);
    string_from_utf16(units.as_slice())
}

/// What asking for the value of a key came to.
#[derive(Debug)]
pub enum RegistryValue {
    Missing,
    Denied,
    Failed,
    /// It is no text, or is empty.
    NoText,
    Units(Vec<u16>),
}

/// The value of a key, where it has one.
pub open spec fn value_of_key(value: RegistryValue) -> Result<
    Option<Seq<char>>,
    DiscoveryDiagnosticCode,
> {
    match value {
        RegistryValue::Missing => Ok(None),
        RegistryValue::Denied => Err(DiscoveryDiagnosticCode::AccessDenied),
        RegistryValue::Failed | RegistryValue::NoText => Err(
            DiscoveryDiagnosticCode::InvalidSourceRecord,
        ),
        RegistryValue::Units(units) => Ok(filled(utf16_text(before_zero(units@)))),
    }
}

/// A text that is not blank.
pub open spec fn filled(value: Option<Seq<char>>) -> Option<Seq<char>> {
    match value {
        Some(s) => if text::trim(s).len() == 0 {
            None
        } else {
            Some(s)
        },
        None => None,
    }
}

/// A value, where it is not blank.
pub fn filled_value(value: Option<String>) -> (r: Option<String>)
    ensures
        text::opt_text(r) == filled(text::opt_text(value)),
{
    match value {
        Some(s) => if trimmed(s.as_str()).as_str().is_empty() {
            None
        } else {
            Some(s)
        },
        None => None,
    }
}

pub open spec fn value_view(r: Result<Option<String>, DiscoveryDiagnosticCode>) -> Result<
    Option<Seq<char>>,
    DiscoveryDiagnosticCode,
> {
    match r {
        Ok(s) => Ok(text::opt_text(s)),
        Err(code) => Err(code),
    }
}

pub fn default_string(value: &RegistryValue) -> (r: Result<
    Option<String>,
    DiscoveryDiagnosticCode,
>)
    ensures
        value_view(r) == value_of_key(*value),
{
    match value {
        RegistryValue::Missing => Ok(None),
        RegistryValue::Denied => Err(DiscoveryDiagnosticCode::AccessDenied),
        RegistryValue::Failed | RegistryValue::NoText => Err(
            DiscoveryDiagnosticCode::InvalidSourceRecord,
        ),
        RegistryValue::Units(units) => Ok(filled_value(utf16_z_to_string(units.as_slice()))),
    }
}

/// What the next entry of a key is.
#[derive(Debug)]
pub enum RegistryEntry {
    NoMore,
    /// It could not be read, or its name is no text.
    Unreadable,
    /// It is gone, or cannot be opened.
    Closed(AccessStatus),
    /// Its name and its value.
    Named(String, Result<Option<String>, DiscoveryDiagnosticCode>),
}

#[verifier::ext_equal]
pub struct RegistryScanView {
    pub collection: passive::CollectionView,
    pub records: Seq<passive::AppPathView>,
}

pub open spec fn app_path_views(all: Seq<WindowsAppPathRecord>) -> Seq<passive::AppPathView> {
    Seq::new(all.len(), |i: int| all[i]@)
}

impl RegistryScanView {
    pub open spec fn told(self, code: DiscoveryDiagnosticCode) -> RegistryScanView {
        RegistryScanView {
            collection: self.collection.diagnosed(ObservationSourceKind::WindowsAppPath, code),
            ..self
        }
    }

    /// The state after a root was opened, and whether its entries are to be read.
    pub open spec fn root(self, status: AccessStatus) -> (RegistryScanView, bool) {
        match status {
            AccessStatus::Done => (self, true),
            AccessStatus::NotFound => (self, false),
            AccessStatus::Denied => (self.told(DiscoveryDiagnosticCode::AccessDenied), false),
            AccessStatus::Failed => (self.told(DiscoveryDiagnosticCode::ProviderFailed), false),
        }
    }

    /// The state after an entry, and whether there may be another one.
    pub open spec fn entry(
        self,
        e: RegistryEntry,
        hive: WindowsRegistryHive,
        view: WindowsRegistryView,
    ) -> (RegistryScanView, bool) {
        match e {
            RegistryEntry::NoMore => (self, false),
            RegistryEntry::Unreadable => (
                self.told(DiscoveryDiagnosticCode::InvalidSourceRecord),
                true,
            ),
            RegistryEntry::Closed(status) => (
                self.told(
                    match status {
                        AccessStatus::NotFound => DiscoveryDiagnosticCode::SourceDisappeared,
                        AccessStatus::Denied => DiscoveryDiagnosticCode::AccessDenied,
                        _ => DiscoveryDiagnosticCode::InvalidSourceRecord,
                    },
                ),
                true,
            ),
            RegistryEntry::Named(name, value) => (
                match value {
                    Ok(Some(path)) => RegistryScanView {
                        records: self.records.push(
                            passive::AppPathView {
                                key_name: name@,
                                executable_path: path@,
                                hive,
                                view,
                            },
                        ),
                        ..self
                    },
                    Ok(None) => self,
                    Err(code) => self.told(code),
                },
                true,
            ),
        }
    }
}

/// A walk through the entries of the registry.
pub struct RegistryScan {
    collection: WindowsProviderCollection,
    records: Vec<WindowsAppPathRecord>,
}

impl RegistryScan {
    pub closed spec fn view(&self) -> RegistryScanView {
        RegistryScanView {
            collection: self.collection@,
            records: app_path_views(self.records@),
        }
    }

    pub fn new(collection: WindowsProviderCollection) -> (r: Self)
        ensures
            r@ == (RegistryScanView { collection: collection@, records: seq![] }),
    {
        let r = RegistryScan { collection, records: Vec::new() };
        assert(r@.records =~= seq![]);
        r
    }

    /// Whether one more root or entry may be looked at.
    pub fn wants_more(&self) -> (r: bool)
        ensures
            r == (self@.records.len() < MAX_REAL_APP_PATH_RECORDS),
    {
        self.records.len() < MAX_REAL_APP_PATH_RECORDS
    }

    pub fn on_root(&mut self, status: AccessStatus) -> (r: bool)
        ensures
            (final(self)@, r) == old(self)@.root(status),
    {
        match status {
            AccessStatus::Done => true,
            AccessStatus::NotFound => false,
            AccessStatus::Denied => {
                self.collection.push_diagnostic(
                    ObservationSourceKind::WindowsAppPath,
                    DiscoveryDiagnosticCode::AccessDenied,
                );
                false
            },
            AccessStatus::Failed => {
                self.collection.push_diagnostic(
                    ObservationSourceKind::WindowsAppPath,
                    DiscoveryDiagnosticCode::ProviderFailed,
                );
                false
            },
        }
    }

    pub fn on_entry(
        &mut self,
        e: RegistryEntry,
        hive: WindowsRegistryHive,
        view: WindowsRegistryView,
    ) -> (r: bool)
        requires
            old(self)@.records.len() < MAX_REAL_APP_PATH_RECORDS,
        ensures
            (final(self)@, r) == old(self)@.entry(e, hive, view),
            final(self)@.records.len() <= MAX_REAL_APP_PATH_RECORDS,
    {
        match e {
            RegistryEntry::NoMore => false,
            RegistryEntry::Unreadable => {
                self.collection.push_diagnostic(
                    ObservationSourceKind::WindowsAppPath,
                    DiscoveryDiagnosticCode::InvalidSourceRecord,
                );
                true
            },
            RegistryEntry::Closed(status) => {
                self.collection.push_diagnostic(
                    ObservationSourceKind::WindowsAppPath,
                    io_diagnostic_code(status),
                );
                true
            },
            RegistryEntry::Named(name, value) => {
                match value {
                    Ok(Some(path)) => {
                        let record = WindowsAppPathRecord {
                            key_name: name,
                            executable_path: path,
                            hive,
                            view,
                        };
                        let ghost before = self.records@;
                        self.records.push(record);
                        assert(app_path_views(self.records@) =~= app_path_views(before).push(
                            record@,
                        ));
                    },
                    Ok(None) => {},
                    Err(code) => {
                        self.collection.push_diagnostic(
                            ObservationSourceKind::WindowsAppPath,
                            code,
                        );
                    },
                }
                true
            },
        }
    }

    /// The records, and what reading them has told.
    pub fn finish(self) -> (r: (WindowsProviderCollection, Vec<WindowsAppPathRecord>))
        ensures
            r.0@ == self@.collection,
            app_path_views(r.1@) == self@.records,
    {
        (self.collection, self.records)
    }
}

// ---------------------------------------------------------------------------
// Packages.

pub const MAX_REAL_PACKAGE_RECORDS: usize = 512;

/// A version of four numbers.
pub open spec fn version_text(v: Option<(u16, u16, u16, u16)>) -> Seq<char> {
    match v {
        Some(n) => text::decimal(n.0 as nat) + "."@ + text::decimal(n.1 as nat) + "."@
            + text::decimal(n.2 as nat) + "."@ + text::decimal(n.3 as nat),
        None => "0.0.0.0"@,
    }
}

pub fn package_version(v: Option<(u16, u16, u16, u16)>) -> (r: String)
    ensures
        r@ == version_text(v),
{
    match v {
        Some(n) => {
            let mut r = decimal_text(n.0 as u64);
            r.append(".");
            r.append(decimal_text(n.1 as u64).as_str());
            r.append(".");
            r.append(decimal_text(n.2 as u64).as_str());
            r.append(".");
            r.append(decimal_text(n.3 as u64).as_str());
            r
        },
        None => "0.0.0.0".to_owned(),
    }
}

/// What looking at the next package came to.
#[derive(Debug)]
pub enum PackageEntry {
    /// The list could not be had.
    Unlisted,
    /// Whether there is another package could not be told.
    Broken,
    NoMore,
    Gone,
    Unidentified,
    /// Where it is installed could not be told.
    Unlocated,
    /// Its family and its full name, its version, its place, and the executables that
    /// its manifest names.
    Found(PackageFacts, Result<Vec<String>, DiscoveryDiagnosticCode>),
}

#[derive(Debug)]
pub struct PackageFacts {
    pub family_name: Option<String>,
    pub full_name: Option<String>,
    pub version: Option<(u16, u16, u16, u16)>,
    pub installed_location: String,
}

pub open spec fn or_empty(v: Option<String>) -> Seq<char> {
    match v {
        Some(s) => s@,
        None => seq![],
    }
}

fn text_or_empty(v: &Option<String>) -> (r: String)
    ensures
        r@ == or_empty(*v),
{
    match v {
        Some(s) => s.clone(),
        None => {
            let r = String::new();
            assert(r@ =~= seq![]);
            r
        },
    }
}

pub open spec fn package_record(facts: PackageFacts, executable: Seq<char>) ->
    passive::PackageView {
    passive::PackageView {
        package_family_name: or_empty(facts.family_name),
        package_full_name: or_empty(facts.full_name),
        version: version_text(facts.version),
        installed_location: facts.installed_location@,
        executable_relative_path: executable,
    }
}

pub open spec fn package_views(all: Seq<WindowsPackageRecord>) -> Seq<passive::PackageView> {
    Seq::new(all.len(), |i: int| all[i]@)
}

/// How many executables of a package there is room for.
pub open spec fn room_for(records: nat, executables: nat) -> nat {
    if records + executables <= MAX_REAL_PACKAGE_RECORDS {
        executables
    } else if records <= MAX_REAL_PACKAGE_RECORDS {
        (MAX_REAL_PACKAGE_RECORDS - records) as nat
    } else {
        0
    }
}

#[verifier::ext_equal]
pub struct PackageScanView {
    pub collection: passive::CollectionView,
    pub records: Seq<passive::PackageView>,
}

impl PackageScanView {
    pub open spec fn told(self, code: DiscoveryDiagnosticCode) -> PackageScanView {
        PackageScanView {
            collection: self.collection.diagnosed(ObservationSourceKind::WindowsPackage, code),
            ..self
        }
    }

    /// The state after a package, and whether there may be another one.
    pub open spec fn entry(self, e: PackageEntry) -> (PackageScanView, bool) {
        match e {
            PackageEntry::Unlisted => (self.told(DiscoveryDiagnosticCode::ProviderFailed), false),
            PackageEntry::Broken => (self.told(DiscoveryDiagnosticCode::SourceDisappeared), false),
            PackageEntry::NoMore => (self, false),
            PackageEntry::Gone => (self.told(DiscoveryDiagnosticCode::SourceDisappeared), true),
            PackageEntry::Unidentified => (
                self.told(DiscoveryDiagnosticCode::InvalidSourceRecord),
                true,
            ),
            PackageEntry::Unlocated => (self.told(DiscoveryDiagnosticCode::AccessDenied), true),
            PackageEntry::Found(facts, Err(code)) => (self.told(code), true),
            PackageEntry::Found(facts, Ok(executables)) => (
                PackageScanView {
                    records: self.records + Seq::new(
                        room_for(self.records.len(), executables@.len()),
                        |i: int| package_record(facts, executables@[i]@),
                    ),
                    ..self
                },
                true,
            ),
        }
    }
}

/// A walk through the installed packages.
pub struct PackageScan {
    collection: WindowsProviderCollection,
    records: Vec<WindowsPackageRecord>,
}

impl PackageScan {
    pub closed spec fn view(&self) -> PackageScanView {
        PackageScanView { collection: self.collection@, records: package_views(self.records@) }
    }

    pub fn new(collection: WindowsProviderCollection) -> (r: Self)
        ensures
            r@ == (PackageScanView { collection: collection@, records: seq![] }),
    {
        let r = PackageScan { collection, records: Vec::new() };
        assert(r@.records =~= seq![]);
        r
    }

    pub fn wants_more(&self) -> (r: bool)
        ensures
            r == (self@.records.len() < MAX_REAL_PACKAGE_RECORDS),
    {
        self.records.len() < MAX_REAL_PACKAGE_RECORDS
    }

    fn tell(&mut self, code: DiscoveryDiagnosticCode)
        ensures
            final(self)@ == old(self)@.told(code),
    {
        self.collection.push_diagnostic(ObservationSourceKind::WindowsPackage, code);
    }

    fn take_executables(&mut self, facts: &PackageFacts, executables: &Vec<String>)
        ensures
            final(self)@ == (PackageScanView {
                records: old(self)@.records + Seq::new(
                    room_for(old(self)@.records.len(), executables@.len()),
                    |i: int| package_record(*facts, executables@[i]@),
                ),
                ..old(self)@
            }),
    {
        let ghost before = self@.records;
        let mut i: usize = 0;
        assert(self@.records =~= before + Seq::new(
            0,
            |k: int| package_record(*facts, executables@[k]@),
        ));
        while i < executables.len() && self.records.len() < MAX_REAL_PACKAGE_RECORDS
            invariant
                before == old(self)@.records,
                self.collection == old(self).collection,
                i <= executables@.len(),
                i == 0 || before.len() + i <= MAX_REAL_PACKAGE_RECORDS,
                self@.records == before + Seq::new(
                    i as nat,
                    |k: int| package_record(*facts, executables@[k]@),
                ),
            decreases executables@.len() - i,
        {
            let record = WindowsPackageRecord {
                package_family_name: text_or_empty(&facts.family_name),
                package_full_name: text_or_empty(&facts.full_name),
                version: package_version(facts.version),
                installed_location: facts.installed_location.clone(),
                executable_relative_path: executables[i].clone(),
            };
            let ghost held = self.records@;
            self.records.push(record);
            proof {
                assert(record@ =~= package_record(*facts, executables@[i as int]@));
                assert(package_views(self.records@) =~= package_views(held).push(record@));
                assert(self@.records =~= before + Seq::new(
                    (i + 1) as nat,
                    |k: int| package_record(*facts, executables@[k]@),
                ));
            }
            i += 1;
        }
        assert(i == room_for(before.len(), executables@.len()));
    }

    pub fn on_entry(&mut self, e: PackageEntry) -> (r: bool)
        ensures
            (final(self)@, r) == old(self)@.entry(e),
    {
        match e {
            PackageEntry::Unlisted => {
                self.tell(DiscoveryDiagnosticCode::ProviderFailed);
                false
            },
            PackageEntry::Broken => {
                self.tell(DiscoveryDiagnosticCode::SourceDisappeared);
                false
            },
            PackageEntry::NoMore => false,
            PackageEntry::Gone => {
                self.tell(DiscoveryDiagnosticCode::SourceDisappeared);
                true
            },
            PackageEntry::Unidentified => {
                self.tell(DiscoveryDiagnosticCode::InvalidSourceRecord);
                true
            },
            PackageEntry::Unlocated => {
                self.tell(DiscoveryDiagnosticCode::AccessDenied);
                true
            },
            PackageEntry::Found(facts, found) => {
                match found {
                    Ok(executables) => {
                        self.take_executables(&facts, &executables);
                    },
                    Err(code) => {
                        self.tell(code);
                    },
                }
                true
            },
        }
    }

    pub fn finish(self) -> (r: (WindowsProviderCollection, Vec<WindowsPackageRecord>))
        ensures
            r.0@ == self@.collection,
            package_views(r.1@) == self@.records,
    {
        (self.collection, self.records)
    }
}

// ---------------------------------------------------------------------------
// Listeners.

/// What the table of listeners answered when it was asked how long it is.
#[derive(Clone, Copy, Debug, PartialEq, Eq, Structural)]
pub enum TableStatus {
    Done,
    TooSmall,
    Failed,
}

/// What to do with the table of listeners.
#[derive(Clone, Copy, Debug, PartialEq, Eq, Structural)]
pub enum TableStep {
    Read,
    /// It has nothing to read.
    Skip,
    Failed,
}

pub fn table_step(status: TableStatus, size: u32) -> (r: TableStep)
    ensures
        r == if status is TooSmall && size > 0 {
            TableStep::Read
        } else if status is Done {
            TableStep::Skip
        } else {
            TableStep::Failed
        },
{
    if status == TableStatus::TooSmall && size > 0 {
        TableStep::Read
    } else if status == TableStatus::Done {
        TableStep::Skip
    } else {
        TableStep::Failed
    }
}

/// The port that stands in the low half of a field, the more significant byte first
/// in memory.
pub fn port_of_field(raw: u32) -> (r: u16)
    ensures
        r == (raw % 0x1_0000 % 0x100) * 0x100 + raw % 0x1_0000 / 0x100,
{
    let low: u32 = raw % 0x1_0000;
    ((low % 0x100) * 0x100 + low / 0x100) as u16
}

/// Hexadecimal digits in lower case.
pub open spec fn hex_digits(n: nat, width: nat) -> Seq<char>
    decreases width,
{
    if width == 0 {
        seq![]
    } else {
        hex_digits(n / 16, (width - 1) as nat).push(digest::lower_hex(n % 16))
    }
}

proof fn lemma_hex_digits(n: nat, width: nat)
    ensures
        hex_digits(n, width).len() == width,
    decreases width,
{
    if width > 0 {
        lemma_hex_digits(n / 16, (width - 1) as nat);
    }
}

fn append_hex(r: &mut String, n: u32)
    ensures
        final(r)@ == old(r)@ + hex_digits(n as nat, 8),
{
    let mut digits: Vec<char> = Vec::new();
    let mut left: u32 = n;
    let mut i: usize = 0;
    let ghost all = hex_digits(n as nat, 8);
    proof {
        lemma_hex_digits(n as nat, 8);
    }
    while i < 8
        invariant
            i <= 8,
            digits@.len() == i,
            all.len() == 8,
            all == hex_digits(left as nat, (8 - i) as nat) + digits@.reverse(),
        decreases 8 - i,
    {
        let d: u32 = left % 16;
        let c = lower_digit(d);
        proof {
            assert(hex_digits(left as nat, (8 - i) as nat) == hex_digits(
                (left / 16) as nat,
                (8 - i - 1) as nat,
            ).push(c));
            assert(digits@.push(c).reverse() =~= seq![c] + digits@.reverse());
            assert(all =~= hex_digits((left / 16) as nat, (7 - i) as nat) + digits@.push(
                c,
            ).reverse());
        }
        digits.push(c);
        left = left / 16;
        i += 1;
    }
    assert(hex_digits(left as nat, 0) =~= seq![]);
    assert(all =~= digits@.reverse());
    let ghost before = r@;
    let mut j: usize = 8;
    while j > 0
        invariant
            j <= 8,
            digits@.len() == 8,
            all == digits@.reverse(),
            r@ == before + all.take(8 - j),
        decreases j,
    {
        let c = digits[j - 1];
        assert(all[8 - j] == c);
        assert(before + all.take(8 - j + 1) =~= (before + all.take(8 - j)).push(c));
        r.push(c);
        j -= 1;
    }
    assert(all.take(8) =~= all);
}

fn lower_digit(d: u32) -> (r: char)
    requires
        d < 16,
    ensures
        r == digest::lower_hex(d as nat),
{
    if d < 10 {
        (48 + d as u8) as char
    } else {
        (87 + d as u8) as char
    }
}

/// What tells one process from a later one with its number: when it was made, and
/// its number.
pub open spec fn process_identity(high: u32, low: u32, pid: u32) -> Seq<char> {
    hex_digits(high as nat, 8) + ":"@ + hex_digits(low as nat, 8) + ":"@ + hex_digits(
        pid as nat,
        8,
    )
}

/// What looking at a process came to.
#[derive(Debug)]
pub struct ProcessProbe {
    pub opened: bool,
    /// When it was made, as two halves.
    pub created: Option<(u32, u32)>,
    pub image: Option<String>,
    /// When it was made, asked once more at the end.
    pub created_again: Option<(u32, u32)>,
}

/// The identity and the executable of a process. The process must be the same at the
/// end as at the start.
pub open spec fn process_of(probe: ProcessProbe, pid: u32) -> Result<
    (Seq<char>, Seq<char>),
    DiscoveryDiagnosticCode,
> {
    if !probe.opened {
        Err(DiscoveryDiagnosticCode::AccessDenied)
    } else if probe.created is None {
        Err(DiscoveryDiagnosticCode::SourceDisappeared)
    } else if probe.image is None {
        Err(DiscoveryDiagnosticCode::AccessDenied)
    } else if probe.created_again != probe.created {
        Err(DiscoveryDiagnosticCode::SourceDisappeared)
    } else {
        let (high, low) = probe.created->0;
        Ok((process_identity(high, low, pid), probe.image->0@))
    }
}

pub open spec fn process_view(r: Result<(String, String), DiscoveryDiagnosticCode>) -> Result<
    (Seq<char>, Seq<char>),
    DiscoveryDiagnosticCode,
> {
    match r {
        Ok(p) => Ok((p.0@, p.1@)),
        Err(code) => Err(code),
    }
}

pub fn process_identity_for_pid(probe: &ProcessProbe, pid: u32) -> (r: Result<
    (String, String),
    DiscoveryDiagnosticCode,
>)
    ensures
        process_view(r) == process_of(*probe, pid),
{
    if !probe.opened {
        return Err(DiscoveryDiagnosticCode::AccessDenied);
    }
    let (high, low) = match probe.created {
        Some(t) => t,
        None => {
            return Err(DiscoveryDiagnosticCode::SourceDisappeared);
        },
    };
    let image = match &probe.image {
        Some(s) => s.clone(),
        None => {
            return Err(DiscoveryDiagnosticCode::AccessDenied);
        },
    };
    match probe.created_again {
        Some((h, l)) => {
            if h != high || l != low {
                return Err(DiscoveryDiagnosticCode::SourceDisappeared);
            }
        },
        None => {
            return Err(DiscoveryDiagnosticCode::SourceDisappeared);
        },
    }
    let mut identity = String::new();
    append_hex(&mut identity, high);
    identity.append(":");
    append_hex(&mut identity, low);
    identity.append(":");
    append_hex(&mut identity, pid);
    assert(identity@ =~= process_identity(high, low, pid));
    Ok((identity, image))
}

/// What a listener comes to that was looked at twice: its owner was found, and
/// whether it was still there afterwards.
pub open spec fn verified_row(
    address: Seq<u16>,
    port: u16,
    pid: u32,
    owner: Result<(Seq<char>, Seq<char>), DiscoveryDiagnosticCode>,
    still_there: Result<bool, DiscoveryDiagnosticCode>,
) -> Result<Option<passive::ListenerRecordView>, DiscoveryDiagnosticCode> {
    match owner {
        Err(code) => Err(code),
        Ok((identity, executable)) => match still_there {
            Err(code) => Err(code),
            Ok(there) => if !there {
                Ok(None)
            } else {
                Ok(
                    Some(
                        passive::ListenerRecordView {
                            address: address::address_name(address::loopback(address)->0),
                            port,
                            owner_pid: pid,
                            owner_executable: Some(executable),
                            owner_identity: Some(identity),
                        },
                    ),
                )
            },
        },
    }
}

pub open spec fn listener_opt(
    r: Result<Option<WindowsLoopbackListenerRecord>, DiscoveryDiagnosticCode>,
) -> Result<Option<passive::ListenerRecordView>, DiscoveryDiagnosticCode> {
    match r {
        Ok(Some(record)) => Ok(Some(record@)),
        Ok(None) => Ok(None),
        Err(code) => Err(code),
    }
}

/// Takes a listener on this machine that was looked at twice.
pub fn verify_loopback_listener_row(
    address: &Vec<u16>,
    port: u16,
    pid: u32,
    owner: Result<(String, String), DiscoveryDiagnosticCode>,
    still_there: Result<bool, DiscoveryDiagnosticCode>,
) -> (r: Result<Option<WindowsLoopbackListenerRecord>, DiscoveryDiagnosticCode>)
    requires
        address::loopback(address@) is Some,
    ensures
        listener_opt(r) == verified_row(address@, port, pid, process_view(owner), still_there),
{
    let (identity, executable) = match owner {
        Ok(p) => p,
        Err(code) => {
            return Err(code);
        },
    };
    match still_there {
        Ok(there) => {
            if !there {
                return Ok(None);
            }
        },
        Err(code) => {
            return Err(code);
        },
    }
    match loopback_address(address) {
        Some(a) => Ok(
            Some(
                WindowsLoopbackListenerRecord {
                    address: address_of(a),
                    port,
                    owner_pid: pid,
                    owner_executable: Some(executable),
                    owner_identity: Some(identity),
                },
            ),
        ),
        None => Ok(None),
    }
}

/// Whether one more listener may be taken.
pub fn wants_listener(records: &Vec<WindowsLoopbackListenerRecord>) -> (r: bool)
    ensures
        r == (records@.len() < MAX_REAL_LOOPBACK_RECORDS),
{
    records.len() < MAX_REAL_LOOPBACK_RECORDS
}

/// The number of four bytes, the least significant first.
pub open spec fn le_number(bytes: Seq<u8>, at: int) -> nat {
    (bytes[at] + bytes[at + 1] * 0x100 + bytes[at + 2] * 0x1_0000 + bytes[at + 3] * 0x100_0000) as nat
}

fn number_at(bytes: &Vec<u8>, at: usize) -> (r: u32)
    requires
        at + 4 <= bytes@.len(),
    ensures
        r == le_number(bytes@, at as int),
{
    let n: usize = bytes.len();
    assert(at + 4 <= n);
    bytes[at] as u32 + bytes[at + 1] as u32 * 0x100 + bytes[at + 2] as u32 * 0x1_0000 + bytes[at
        + 3] as u32 * 0x100_0000
}

/// The bytes of a row of the table of owners.
pub const OWNER_ROW_BYTES: usize = 24;

/// The rows that a table of owners says it has, as far as they are there.
pub open spec fn owner_rows(table: Seq<u8>) -> nat {
    let there = ((table.len() - 4) / OWNER_ROW_BYTES as int) as nat;
    if le_number(table, 0) <= there {
        le_number(table, 0)
    } else {
        there
    }
}

/// Whether a row of the table of owners says that a process listens there: behind
/// the state come the address and the port, and the process at the end.
pub open spec fn row_is(
    table: Seq<u8>,
    row: int,
    address: address::LoopbackAddress,
    port: u16,
    pid: u64,
) -> bool {
    let at = 4 + row * OWNER_ROW_BYTES;
    &&& le_number(table, at + 20) == pid
    &&& table[at + 8] * 0x100 + table[at + 9] == port
    &&& address matches address::LoopbackAddress::V4(b, c, d) && table[at + 4] == 127 && table[at
        + 5] == b && table[at + 6] == c && table[at + 7] == d
}

/// Whether a process listens there, by the table of the owners of listeners. The
/// table has addresses of the fourth version only: a listener with another address
/// has no owner in it.
pub fn listener_is_owned(
    table: &Vec<u8>,
    address: address::LoopbackAddress,
    port: u16,
    expected_pid: u64,
) -> (r: bool)
    ensures
        r == (table@.len() >= 4 && exists|row: int|
            0 <= row < owner_rows(table@) && #[trigger] row_is(
                table@,
                row,
                address,
                port,
                expected_pid,
            )),
{
    if table.len() < 4 {
        return false;
    }
    let n: usize = table.len();
    let there: usize = (n - 4) / OWNER_ROW_BYTES;
    let said = number_at(table, 0) as u64;
    let mut row: usize = 0;
    while row < there && (row as u64) < said
        invariant
            n == table@.len(),
            n >= 4,
            there == (table@.len() - 4) / OWNER_ROW_BYTES as int,
            said == le_number(table@, 0),
            row <= there,
            row <= said,
            forall|k: int|
                0 <= k < row ==> !#[trigger] row_is(table@, k, address, port, expected_pid),
        decreases there - row,
    {
        proof {
            assert((row + 1) * OWNER_ROW_BYTES <= there * OWNER_ROW_BYTES) by (nonlinear_arith)
                requires
                    row + 1 <= there,
            ;
            assert(there * OWNER_ROW_BYTES <= table@.len() - 4);
        }
        let at: usize = 4 + row * OWNER_ROW_BYTES;
        let placed = match address {
            address::LoopbackAddress::V4(b, c, d) => table[at + 4] == 127 && table[at + 5] as u16
                == b && table[at + 6] as u16 == c && table[at + 7] as u16 == d,
            address::LoopbackAddress::V6 => false,
        };
        let listens = table[at + 8] as u16 * 0x100 + table[at + 9] as u16 == port;
        if placed && listens && number_at(table, at + 20) as u64 == expected_pid {
            assert(row_is(table@, row as int, address, port, expected_pid));
            return true;
        }
        row += 1;
    }
    false
}

/// A process that does not fit the table owns nothing in it.
pub proof fn law_large_process_owns_nothing(
    table: Seq<u8>,
    row: int,
    address: address::LoopbackAddress,
    port: u16,
    pid: u64,
)
    requires
        pid > u32::MAX,
    ensures
        !row_is(table, row, address, port, pid),
{
}

/// A process that was replaced by another one with its number is not taken for it.
pub proof fn law_reused_process_is_refused(probe: ProcessProbe, pid: u32)
    requires
        probe.opened,
        probe.created is Some,
        probe.image is Some,
        probe.created_again is Some,
        probe.created_again != probe.created,
    ensures
        process_of(probe, pid) == Err::<(Seq<char>, Seq<char>), DiscoveryDiagnosticCode>(
            DiscoveryDiagnosticCode::SourceDisappeared,
        ),
{
}

} // verus!
