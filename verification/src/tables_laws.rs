//! What holds of every table that Windows gives of its programs, packages and listeners.

use vstd::prelude::*;

use crate::address;
use crate::digest;
use crate::observation::{DiscoveryDiagnosticCode, ObservationSourceKind};
use crate::passive;
use crate::passive::{WindowsRegistryHive, WindowsRegistryView};
use crate::tables;
use crate::tables::{
    AccessStatus, PackageEntry, PackageFacts, ProcessProbe, RegistryEntry, RegistryValue,
};
use crate::text;

verus! {

/// The units of a character: one, or a pair.
pub open spec fn units_of(c: char) -> Seq<u16> {
    let n = c as u32 as int;
    if n < 0x10000 {
        seq![n as u16]
    } else {
        seq![
            (0xd800 + (n - 0x10000) / 0x400) as u16,
            (0xdc00 + (n - 0x10000) % 0x400) as u16,
        ]
    }
}

/// Each character is read back from its units, and a half of a pair that stands alone is
/// no text.
pub proof fn law_units_read_back(c: char, rest: Seq<u16>, u: u16)
    ensures
        tables::utf16_text(seq![]) == Some(Seq::<char>::empty()),
        tables::utf16_text(units_of(c) + rest) == match tables::utf16_text(rest) {
            Some(t) => Some(seq![c] + t),
            None => None,
        },
        0xdc00 <= u <= 0xdfff ==> tables::utf16_text(seq![u] + rest) is None,
        0xd800 <= u <= 0xdbff && (rest.len() == 0 || !(0xdc00 <= rest[0] <= 0xdfff))
            ==> tables::utf16_text(seq![u] + rest) is None,
{
    let n = c as u32 as int;
    let all = units_of(c) + rest;
    if n < 0x10000 {
        assert(all[0] == n as u16);
        assert(all.skip(1) =~= rest);
        assert((all[0] as u32) as char == c);
    } else {
        let h = (n - 0x10000) / 0x400;
        let l = (n - 0x10000) % 0x400;
        assert(0 <= h < 0x400);
        assert(all[0] == (0xd800 + h) as u16);
        assert(all[1] == (0xdc00 + l) as u16);
        assert(all.skip(2) =~= rest);
        assert(0x10000 + h * 0x400 + l == n);
        assert(tables::surrogate_char(all[0], all[1]) == c);
    }
    let one = seq![u] + rest;
    assert(one[0] == u);
    if rest.len() > 0 {
        assert(one[1] == rest[0]);
    }
}

/// A text of units ends before the first zero.
pub proof fn law_units_end_at_zero(a: Seq<u16>, rest: Seq<u16>)
    requires
        !a.contains(0),
    ensures
        tables::before_zero(a + seq![0u16] + rest) == a,
        tables::before_zero(a) == a,
    decreases a.len(),
{
    let all = a + seq![0u16] + rest;
    if a.len() == 0 {
        assert(all[0] == 0);
        assert(tables::before_zero(all) =~= a);
        assert(tables::before_zero(a) =~= a);
    } else {
        let t = a.drop_first();
        assert(a[0] != 0);
        assert(!t.contains(0)) by {
            if t.contains(0) {
                let i = choose|i: int| 0 <= i < t.len() && t[i] == 0;
                assert(a[i + 1] == 0);
            }
        }
        law_units_end_at_zero(t, rest);
        assert(all.drop_first() =~= t + seq![0u16] + rest);
        assert(all[0] == a[0]);
        assert(tables::before_zero(all) =~= a);
        assert(tables::before_zero(a) =~= a);
    }
}

/// The value of a key is its text, if that is one and is not blank; no value is none, and
/// what could not be read is told why.
pub proof fn law_values_of_keys(v: RegistryValue)
    ensures
        v is Missing ==> tables::value_of_key(v) == Ok::<Option<Seq<char>>, DiscoveryDiagnosticCode>(
            None,
        ),
        v is Denied ==> tables::value_of_key(v) == Err::<Option<Seq<char>>, DiscoveryDiagnosticCode>(
            DiscoveryDiagnosticCode::AccessDenied,
        ),
        v is Failed || v is NoText ==> tables::value_of_key(v) == Err::<
            Option<Seq<char>>,
            DiscoveryDiagnosticCode,
        >(DiscoveryDiagnosticCode::InvalidSourceRecord),
        v matches RegistryValue::Units(units) ==> match tables::utf16_text(
            tables::before_zero(units@),
        ) {
            Some(s) => tables::value_of_key(v) == Ok::<Option<Seq<char>>, DiscoveryDiagnosticCode>(
                if text::trim(s).len() > 0 {
                    Some(s)
                } else {
                    None
                },
            ),
            None => tables::value_of_key(v) == Ok::<Option<Seq<char>>, DiscoveryDiagnosticCode>(
                None,
            ),
        },
{
}

/// The keys below a root are read if the root could be opened. One that is not there is no
/// failure; one that was denied or failed is told.
pub proof fn law_roots_are_read_if_opened(s: tables::RegistryScanView, status: AccessStatus)
    ensures
        ({
            let (after, read) = s.root(status);
            let kind = ObservationSourceKind::WindowsAppPath;
            &&& read <==> status is Done
            &&& after.records == s.records
            &&& status is Done || status is NotFound ==> after == s
            &&& status is Denied ==> after.collection == s.collection.diagnosed(
                kind,
                DiscoveryDiagnosticCode::AccessDenied,
            )
            &&& status is Failed ==> after.collection == s.collection.diagnosed(
                kind,
                DiscoveryDiagnosticCode::ProviderFailed,
            )
        }),
{
}

/// A key with a path is a record, with its name and where it stands; a key without one is
/// none, and one that could not be read is told why. Only the end ends the scan.
pub proof fn law_keys_with_paths_are_records(
    s: tables::RegistryScanView,
    e: RegistryEntry,
    hive: WindowsRegistryHive,
    view: WindowsRegistryView,
)
    ensures
        ({
            let (after, more) = s.entry(e, hive, view);
            let kind = ObservationSourceKind::WindowsAppPath;
            &&& more <==> !(e is NoMore)
            &&& e is NoMore ==> after == s
            &&& e is Unreadable ==> after.records == s.records && after.collection
                == s.collection.diagnosed(kind, DiscoveryDiagnosticCode::InvalidSourceRecord)
            &&& e matches RegistryEntry::Closed(status) ==> after.records == s.records && {
                &&& status is NotFound ==> after.collection == s.collection.diagnosed(
                    kind,
                    DiscoveryDiagnosticCode::SourceDisappeared,
                )
                &&& status is Denied ==> after.collection == s.collection.diagnosed(
                    kind,
                    DiscoveryDiagnosticCode::AccessDenied,
                )
                &&& status is Failed || status is Done ==> after.collection
                    == s.collection.diagnosed(kind, DiscoveryDiagnosticCode::InvalidSourceRecord)
            }
            &&& e matches RegistryEntry::Named(name, value) ==> match value {
                Ok(Some(path)) => {
                    &&& after.collection == s.collection
                    &&& after.records.len() == s.records.len() + 1
                    &&& after.records.drop_last() == s.records
                    &&& after.records.last().key_name == name@
                    &&& after.records.last().executable_path == path@
                    &&& after.records.last().hive == hive
                    &&& after.records.last().view == view
                },
                Ok(None) => after == s,
                Err(code) => after.records == s.records && after.collection
                    == s.collection.diagnosed(kind, code),
            }
        }),
{
    let (after, _) = s.entry(e, hive, view);
    if after.records.len() == s.records.len() + 1 {
        assert(after.records.drop_last() =~= s.records);
    }
}

/// Each executable of a package is a record, up to 512 records in all; what could not be
/// read of a package is told, and the scan goes on unless the list itself is broken or at
/// its end.
pub proof fn law_packages_are_records(s: tables::PackageScanView, e: PackageEntry)
    requires
        s.records.len() <= 512,
    ensures
        ({
            let (after, more) = s.entry(e);
            let kind = ObservationSourceKind::WindowsPackage;
            &&& more <==> !(e is Unlisted || e is Broken || e is NoMore)
            &&& after.records.len() <= 512
            &&& e is NoMore ==> after == s
            &&& e is Unlisted ==> after.collection == s.collection.diagnosed(
                kind,
                DiscoveryDiagnosticCode::ProviderFailed,
            )
            &&& e is Broken || e is Gone ==> after.collection == s.collection.diagnosed(
                kind,
                DiscoveryDiagnosticCode::SourceDisappeared,
            )
            &&& e is Unidentified ==> after.collection == s.collection.diagnosed(
                kind,
                DiscoveryDiagnosticCode::InvalidSourceRecord,
            )
            &&& e is Unlocated ==> after.collection == s.collection.diagnosed(
                kind,
                DiscoveryDiagnosticCode::AccessDenied,
            )
            &&& !(e is Found) ==> after.records == s.records
            &&& e matches PackageEntry::Found(facts, found) ==> match found {
                Err(code) => after.records == s.records && after.collection
                    == s.collection.diagnosed(kind, code),
                Ok(executables) => {
                    &&& after.collection == s.collection
                    &&& s.records.len() + executables@.len() <= 512 ==> after.records.len()
                        == s.records.len() + executables@.len()
                    &&& s.records.len() + executables@.len() > 512 ==> after.records.len() == 512
                    &&& forall|i: int|
                        0 <= i < s.records.len() ==> after.records[i] == #[trigger] s.records[i]
                    &&& forall|i: int|
                        s.records.len() <= i < after.records.len() ==> is_record_of(
                            #[trigger] after.records[i],
                            facts,
                            executables@[i - s.records.len()]@,
                        )
                },
            }
        }),
{
}

/// A record is of a package and one of its executables.
pub open spec fn is_record_of(
    r: passive::PackageView,
    facts: PackageFacts,
    executable: Seq<char>,
) -> bool {
    &&& r.executable_relative_path == executable
    &&& r.installed_location == facts.installed_location@
    &&& match facts.family_name {
        Some(n) => r.package_family_name == n@,
        None => r.package_family_name.len() == 0,
    }
    &&& match facts.full_name {
        Some(n) => r.package_full_name == n@,
        None => r.package_full_name.len() == 0,
    }
    &&& match facts.version {
        Some(v) => r.version == text::decimal(v.0 as nat) + "."@ + text::decimal(v.1 as nat) + "."@
            + text::decimal(v.2 as nat) + "."@ + text::decimal(v.3 as nat),
        None => r.version == "0.0.0.0"@,
    }
}

/// Numbers are written in as many hexadecimal digits as are asked for, the highest first.
pub proof fn law_hexadecimal_width(n: nat, d: nat, width: nat)
    requires
        d < 16,
    ensures
        tables::hex_digits(n, 0).len() == 0,
        tables::hex_digits(16 * n + d, width + 1) == tables::hex_digits(n, width) + seq![
            digest::lower_hex(d),
        ],
        d < 10 ==> digest::lower_hex(d) as u32 == '0' as u32 + d,
        d >= 10 ==> digest::lower_hex(d) as u32 == 'a' as u32 + (d - 10),
{
    assert((16 * n + d) / 16 == n);
    assert((16 * n + d) % 16 == d);
    assert(tables::hex_digits(16 * n + d, width + 1) =~= tables::hex_digits(n, width) + seq![
        digest::lower_hex(d),
    ]);
}

/// A process is known by when it was created and by its number. It is told only if it could
/// be opened, has a program, and was still the same process at the end.
pub proof fn law_processes_are_told_while_they_last(p: ProcessProbe, pid: u32)
    ensures
        match tables::process_of(p, pid) {
            Ok((identity, image)) => {
                &&& p.opened
                &&& p.image matches Some(i) && i@ == image
                &&& p.created is Some
                &&& p.created_again == p.created
                &&& identity == tables::hex_digits((p.created->0).0 as nat, 8) + ":"@
                    + tables::hex_digits((p.created->0).1 as nat, 8) + ":"@ + tables::hex_digits(
                    pid as nat,
                    8,
                )
            },
            Err(code) => {
                &&& !p.opened ==> code == DiscoveryDiagnosticCode::AccessDenied
                &&& p.opened && p.created is None ==> code
                    == DiscoveryDiagnosticCode::SourceDisappeared
                &&& p.opened && p.created is Some && p.image is None ==> code
                    == DiscoveryDiagnosticCode::AccessDenied
                &&& p.opened && p.created is Some && p.image is Some ==> p.created_again != p.created
                    && code == DiscoveryDiagnosticCode::SourceDisappeared
            },
        },
{
}

/// A listener is a record only if its process could be told and it was still there; then it
/// is told with its own address, port, process and program.
pub proof fn law_rows_are_records_while_they_last(
    parts: Seq<u16>,
    port: u16,
    pid: u32,
    owner: Result<(Seq<char>, Seq<char>), DiscoveryDiagnosticCode>,
    there: Result<bool, DiscoveryDiagnosticCode>,
)
    ensures
        match tables::verified_row(parts, port, pid, owner, there) {
            Ok(Some(r)) => {
                &&& there == Ok::<bool, DiscoveryDiagnosticCode>(true)
                &&& owner matches Ok(o) && r.owner_identity == Some(o.0) && r.owner_executable
                    == Some(o.1)
                &&& r.port == port
                &&& r.owner_pid == pid
                &&& r.address == address::address_name(address::loopback(parts)->0)
            },
            Ok(None) => owner is Ok && there == Ok::<bool, DiscoveryDiagnosticCode>(false),
            Err(code) => (owner matches Err(x) && code == x) || (owner is Ok && (
            there matches Err(x) && code == x)),
        },
{
}

/// A number in a table stands with its lowest byte first.
pub proof fn law_numbers_stand_lowest_first(bytes: Seq<u8>, at: int)
    ensures
        tables::le_number(bytes, at) == bytes[at] + 256 * (bytes[at + 1] + 256 * (bytes[at + 2]
            + 256 * bytes[at + 3])),
{
}

/// No more rows are read than a table has room for, and no more than it says.
pub proof fn law_rows_lie_in_their_table(table: Seq<u8>, row: int)
    requires
        table.len() >= 4,
    ensures
        tables::owner_rows(table) <= tables::le_number(table, 0),
        0 <= row < tables::owner_rows(table) ==> 4 + row * 24 + 24 <= table.len(),
        tables::le_number(table, 0) * 24 + 4 <= table.len() ==> tables::owner_rows(table)
            == tables::le_number(table, 0),
{
}

/// A row is the listener of a process exactly if it has its number, and the address and the
/// port that are asked for, both with their highest byte first.
pub proof fn law_rows_are_of_their_process(
    table: Seq<u8>,
    row: int,
    b: u16,
    c: u16,
    d: u16,
    port: u16,
    pid: u64,
)
    ensures
        ({
            let at = 4 + row * 24;
            tables::row_is(table, row, address::LoopbackAddress::V4(b, c, d), port, pid)
                <==> tables::le_number(table, at + 20) == pid && table[at + 8] * 256 + table[at + 9]
                == port && table[at + 4] == 127 && table[at + 5] == b && table[at + 6] == c
                && table[at + 7] == d
        }),
        !tables::row_is(table, row, address::LoopbackAddress::V6, port, pid),
{
}

} // verus!
