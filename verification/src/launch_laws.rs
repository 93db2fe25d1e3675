//! What holds of how Codex is found and started, and of what the manifest of a package
//! names.

use vstd::prelude::*;
use vstd::utf8::*;

use crate::adapters;
use crate::codex_launch;
use crate::manifest;
use crate::manifest::{AttributeView, ItemView};
use crate::observation::DiscoveryDiagnosticCode;
use crate::text;

verus! {

/// The numbers of a version are those of its runs of digits, in their order; what stands
/// between them does not matter.
pub proof fn law_versions_are_read_by_their_numbers(n: u64, c: char, rest: Seq<char>)
    requires
        !('0' <= c <= '9'),
    ensures
        codex_launch::version_key(text::decimal(n as nat) + seq![c] + rest) == seq![n]
            + codex_launch::version_key(rest),
        codex_launch::version_key(seq![c] + rest) == codex_launch::version_key(rest),
        codex_launch::version_key(text::decimal(n as nat)) == seq![n],
        codex_launch::version_key(seq![]) == Seq::<u64>::empty(),
{
    let d = text::decimal(n as nat);
    let s = d + seq![c] + rest;
    let t = seq![c] + rest;
    text::law_decimal_reads_back(n as nat);
    crate::text_laws::law_numbers_are_read_from_digits(n, seq![]);
    lemma_digit_prefix(s, d.len() as int);
    lemma_digit_prefix(t, 0);
    lemma_digit_prefix(d, d.len() as int);
    assert(s.take(d.len() as int) =~= d);
    assert(s.skip(d.len() as int) =~= t);
    assert(t.drop_first() =~= rest);
    assert(codex_launch::digit_prefix(t) == 0);
    lemma_prefix_fits(rest);
    assert(codex_launch::version_key(t) == codex_launch::version_key(rest));
    assert(d.take(d.len() as int) =~= d);
    assert(d.skip(d.len() as int) =~= seq![]);
    assert(codex_launch::version_key(seq![]) =~= seq![]);
    assert(codex_launch::version_key(d) =~= seq![n] + codex_launch::version_key(seq![]));
}

proof fn lemma_prefix_fits(s: Seq<char>)
    ensures
        codex_launch::digit_prefix(s) <= s.len(),
    decreases s.len(),
{
    if s.len() > 0 && text::is_digit(s[0]) {
        lemma_prefix_fits(s.drop_first());
    }
}

proof fn lemma_digit_prefix(s: Seq<char>, n: int)
    requires
        0 <= n <= s.len(),
        forall|i: int| 0 <= i < n ==> text::is_digit(#[trigger] s[i]),
        n < s.len() ==> !text::is_digit(s[n]),
    ensures
        codex_launch::digit_prefix(s) == n,
    decreases s.len(),
{
    if n > 0 {
        let t = s.drop_first();
        assert(text::is_digit(s[0]));
        assert(forall|i: int| 0 <= i < t.len() ==> #[trigger] t[i] == s[i + 1]);
        lemma_digit_prefix(t, n - 1);
    }
}

/// Of two versions the one is older whose first differing number is smaller, or which ends
/// first.
pub proof fn law_numbers_decide_which_version_is_newer(
    common: Seq<u64>,
    a: u64,
    b: u64,
    x: Seq<u64>,
    y: Seq<u64>,
)
    ensures
        codex_launch::key_less(common + seq![a] + x, common + seq![b] + y) <==> a < b || (a == b
            && codex_launch::key_less(x, y)),
        codex_launch::key_less(common, common + seq![b] + y),
        !codex_launch::key_less(common + seq![a] + x, common),
    decreases common.len(),
{
    let p = common + seq![a] + x;
    let r = common + seq![b] + y;
    if common.len() == 0 {
        assert(p[0] == a);
        assert(r[0] == b);
        assert(p.drop_first() =~= x);
        assert(r.drop_first() =~= y);
    } else {
        let t = common.drop_first();
        law_numbers_decide_which_version_is_newer(t, a, b, x, y);
        assert(p.drop_first() =~= t + seq![a] + x);
        assert(r.drop_first() =~= t + seq![b] + y);
        assert(p[0] == common[0]);
        assert(r[0] == common[0]);
    }
}

/// A Codex binary may be named by three variables, in this order.
pub proof fn law_codex_is_named_by_three_variables()
    ensures
        codex_launch::binary_variables().len() == 3,
        codex_launch::binary_variables()[0] == "AGENTTALK_CODEX_BINARY"@,
        codex_launch::binary_variables()[1] == "CODEX_BINARY_PATH"@,
        codex_launch::binary_variables()[2] == "CODEX_BINARY"@,
{
}

/// The variables that a child of this process sees are these, and no other: those that a
/// program needs to run, those of Codex and its provider, and those of the network.
pub proof fn law_children_see_these_variables(name: Seq<char>)
    ensures
        codex_launch::child_variables().contains(name) <==> {
            ||| name == "PATH"@
            ||| name == "PATHEXT"@
            ||| name == "SystemRoot"@
            ||| name == "WINDIR"@
            ||| name == "ComSpec"@
            ||| name == "SYSTEMDRIVE"@
            ||| name == "TEMP"@
            ||| name == "TMP"@
            ||| name == "USERPROFILE"@
            ||| name == "HOME"@
            ||| name == "HOMEDRIVE"@
            ||| name == "HOMEPATH"@
            ||| name == "USERNAME"@
            ||| name == "USERDOMAIN"@
            ||| name == "APPDATA"@
            ||| name == "LOCALAPPDATA"@
            ||| name == "ProgramData"@
            ||| name == "ProgramFiles"@
            ||| name == "ProgramFiles(x86)"@
            ||| name == "OS"@
            ||| name == "PROCESSOR_ARCHITECTURE"@
            ||| name == "PROCESSOR_ARCHITEW6432"@
            ||| name == "NUMBER_OF_PROCESSORS"@
            ||| name == "LANG"@
            ||| name == "LC_ALL"@
            ||| name == "PSModulePath"@
            ||| name == "CODEX_HOME"@
            ||| name == "CODEX_ACCESS_TOKEN"@
            ||| name == "CODEX_API_KEY"@
            ||| name == "OPENAI_API_KEY"@
            ||| name == "OPENAI_BASE_URL"@
            ||| name == "OPENAI_ORG_ID"@
            ||| name == "OPENAI_PROJECT_ID"@
            ||| name == "HTTP_PROXY"@
            ||| name == "HTTPS_PROXY"@
            ||| name == "ALL_PROXY"@
            ||| name == "NO_PROXY"@
            ||| name == "SSL_CERT_FILE"@
            ||| name == "CODEX_CA_CERTIFICATE"@
            ||| name == "NODE_EXTRA_CA_CERTS"@
        },
{
    let all = codex_launch::child_variables();
    assert(all.len() == 40);
    assert(all[0] == "PATH"@);
    assert(all[1] == "PATHEXT"@);
    assert(all[2] == "SystemRoot"@);
    assert(all[3] == "WINDIR"@);
    assert(all[4] == "ComSpec"@);
    assert(all[5] == "SYSTEMDRIVE"@);
    assert(all[6] == "TEMP"@);
    assert(all[7] == "TMP"@);
    assert(all[8] == "USERPROFILE"@);
    assert(all[9] == "HOME"@);
    assert(all[10] == "HOMEDRIVE"@);
    assert(all[11] == "HOMEPATH"@);
    assert(all[12] == "USERNAME"@);
    assert(all[13] == "USERDOMAIN"@);
    assert(all[14] == "APPDATA"@);
    assert(all[15] == "LOCALAPPDATA"@);
    assert(all[16] == "ProgramData"@);
    assert(all[17] == "ProgramFiles"@);
    assert(all[18] == "ProgramFiles(x86)"@);
    assert(all[19] == "OS"@);
    assert(all[20] == "PROCESSOR_ARCHITECTURE"@);
    assert(all[21] == "PROCESSOR_ARCHITEW6432"@);
    assert(all[22] == "NUMBER_OF_PROCESSORS"@);
    assert(all[23] == "LANG"@);
    assert(all[24] == "LC_ALL"@);
    assert(all[25] == "PSModulePath"@);
    assert(all[26] == "CODEX_HOME"@);
    assert(all[27] == "CODEX_ACCESS_TOKEN"@);
    assert(all[28] == "CODEX_API_KEY"@);
    assert(all[29] == "OPENAI_API_KEY"@);
    assert(all[30] == "OPENAI_BASE_URL"@);
    assert(all[31] == "OPENAI_ORG_ID"@);
    assert(all[32] == "OPENAI_PROJECT_ID"@);
    assert(all[33] == "HTTP_PROXY"@);
    assert(all[34] == "HTTPS_PROXY"@);
    assert(all[35] == "ALL_PROXY"@);
    assert(all[36] == "NO_PROXY"@);
    assert(all[37] == "SSL_CERT_FILE"@);
    assert(all[38] == "CODEX_CA_CERTIFICATE"@);
    assert(all[39] == "NODE_EXTRA_CA_CERTS"@);
    if all.contains(name) {
        let i = choose|i: int| 0 <= i < all.len() && all[i] == name;
        assert(0 <= i < 40);
    }
}

/// A variable is handed on exactly if it has a value, with that value.
pub proof fn law_variables_are_handed_on<V>(
    names: Seq<Seq<char>>,
    values: Seq<Option<V>>,
    name: Seq<char>,
    v: V,
)
    requires
        names.len() == values.len(),
    ensures
        codex_launch::present(names, values).contains((name, v)) <==> exists|i: int|
            0 <= i < names.len() && #[trigger] names[i] == name && values[i] == Some(v),
    decreases names.len(),
{
    let all = codex_launch::present(names, values);
    let x = (name, v);
    if names.len() > 0 {
        let n = names.len() - 1;
        let before = codex_launch::present(names.drop_last(), values.drop_last());
        law_variables_are_handed_on(names.drop_last(), values.drop_last(), name, v);
        if before.contains(x) {
            let k = choose|k: int| 0 <= k < before.len() && before[k] == x;
            assert(all[k] == x);
            let i = choose|i: int|
                0 <= i < names.drop_last().len() && #[trigger] names.drop_last()[i] == name
                    && values.drop_last()[i] == Some(v);
            assert(names[i] == name && values[i] == Some(v));
        }
        if names[n] == name && values[n] == Some(v) {
            assert(all[all.len() - 1] == x);
        }
        if all.contains(x) && !before.contains(x) {
            let k = choose|k: int| 0 <= k < all.len() && all[k] == x;
            if k < before.len() {
                assert(before[k] == x);
            }
            assert(names[n] == name && values[n] == Some(v));
        }
        if exists|i: int| 0 <= i < names.len() && #[trigger] names[i] == name && values[i] == Some(v) {
            let i = choose|i: int|
                0 <= i < names.len() && #[trigger] names[i] == name && values[i] == Some(v);
            if i < n {
                assert(names.drop_last()[i] == name && values.drop_last()[i] == Some(v));
            }
        }
    } else {
        assert(!all.contains(x));
    }
}

/// The name of a tag or an attribute is what stands behind its last colon.
pub proof fn law_names_stand_behind_the_colon(prefix: Seq<u8>, name: Seq<u8>)
    requires
        !name.contains(58),
    ensures
        manifest::local_name(prefix + seq![58u8] + name) == name,
        manifest::local_name(name) == name,
    decreases name.len(),
{
    let all = prefix + seq![58u8] + name;
    if name.len() == 0 {
        assert(all.last() == 58);
        assert(manifest::local_name(all) =~= name);
        assert(manifest::local_name(name) =~= name);
    } else {
        let shorter = name.drop_last();
        assert(!shorter.contains(58)) by {
            if shorter.contains(58) {
                let i = choose|i: int| 0 <= i < shorter.len() && shorter[i] == 58;
                assert(name[i] == 58);
            }
        }
        assert(name[name.len() - 1] == name.last());
        assert(name.last() != 58);
        law_names_stand_behind_the_colon(prefix, shorter);
        assert(all.drop_last() =~= prefix + seq![58u8] + shorter);
        assert(all.last() == name.last());
        assert(manifest::local_name(all) =~= name);
        assert(manifest::local_name(name) =~= name);
    }
}

/// An attribute names an executable.
pub open spec fn names_executable(a: AttributeView, s: Seq<char>) -> bool {
    a matches AttributeView::Pair(key, value) && manifest::local_name(key) == encode_utf8(
        "Executable"@,
    ) && value == Some(s) && text::trim(s).len() > 0
}

/// An attribute that cannot be read.
pub open spec fn is_broken(a: AttributeView) -> bool {
    a is Bad || (a matches AttributeView::Pair(key, value) && manifest::local_name(key)
        == encode_utf8("Executable"@) && value is None)
}

/// The executables that attributes name are those that are not blank, in their order; an
/// attribute that cannot be read breaks the manifest.
pub proof fn law_attributes_name_executables(attributes: Seq<AttributeView>, s: Seq<char>)
    ensures
        manifest::named_executables(attributes) is None <==> exists|i: int|
            0 <= i < attributes.len() && is_broken(#[trigger] attributes[i]),
        manifest::named_executables(attributes) matches Some(all) ==> (all.contains(s) <==> exists|
            i: int,
        |
            0 <= i < attributes.len() && names_executable(#[trigger] attributes[i], s)),
    decreases attributes.len(),
{
    if attributes.len() > 0 {
        let shorter = attributes.drop_last();
        let last = attributes.last();
        let n = attributes.len() - 1;
        law_attributes_name_executables(shorter, s);
        assert(attributes[n] == last);
        assert(forall|i: int| 0 <= i < shorter.len() ==> #[trigger] shorter[i] == attributes[i]);
        if manifest::named_executables(shorter) is None {
            let i = choose|i: int| 0 <= i < shorter.len() && is_broken(#[trigger] shorter[i]);
            assert(is_broken(attributes[i]));
        } else {
            let before = manifest::named_executables(shorter)->0;
            if is_broken(last) {
                assert(is_broken(attributes[n]));
            } else {
                let all = manifest::named_executables(attributes)->0;
                if exists|i: int| 0 <= i < attributes.len() && is_broken(#[trigger] attributes[i]) {
                    let i = choose|i: int|
                        0 <= i < attributes.len() && is_broken(#[trigger] attributes[i]);
                    assert(is_broken(shorter[i]));
                }
                if before.contains(s) {
                    let k = choose|k: int| 0 <= k < before.len() && before[k] == s;
                    assert(all[k] == s);
                    let i = choose|i: int|
                        0 <= i < shorter.len() && names_executable(#[trigger] shorter[i], s);
                    assert(names_executable(attributes[i], s));
                }
                if names_executable(last, s) {
                    assert(all[all.len() - 1] == s);
                    assert(names_executable(attributes[n], s));
                }
                if all.contains(s) && !before.contains(s) {
                    let k = choose|k: int| 0 <= k < all.len() && all[k] == s;
                    if k < before.len() {
                        assert(before[k] == s);
                    }
                    assert(names_executable(attributes[n], s));
                }
                if exists|i: int|
                    0 <= i < attributes.len() && names_executable(#[trigger] attributes[i], s) {
                    let i = choose|i: int|
                        0 <= i < attributes.len() && names_executable(#[trigger] attributes[i], s);
                    if i < n {
                        assert(names_executable(shorter[i], s));
                    }
                }
            }
        }
    } else {
        assert(!Seq::<Seq<char>>::empty().contains(s));
    }
}

/// The tag of an application.
pub open spec fn is_application(item: ItemView) -> bool {
    item matches ItemView::Tag(name, _) && manifest::local_name(name) == encode_utf8(
        "Application"@,
    )
}

/// Of a manifest, the applications count, and nothing else does: each one more item adds
/// what it names, and a failure anywhere breaks the whole.
pub proof fn law_applications_name_executables(items: Seq<ItemView>, item: ItemView)
    ensures
        manifest::manifest_executables(seq![]) == Some(Seq::<Seq<char>>::empty()),
        item is Failed ==> manifest::manifest_executables(items.push(item)) is None,
        manifest::manifest_executables(items) is None ==> manifest::manifest_executables(
            items.push(item),
        ) is None,
        manifest::manifest_executables(items) matches Some(before) ==> {
            &&& !(item is Failed) && !is_application(item) ==> manifest::manifest_executables(
                items.push(item),
            ) == Some(before)
            &&& is_application(item) ==> (item matches ItemView::Tag(_, attributes)
                && match manifest::named_executables(attributes) {
                Some(more) => manifest::manifest_executables(items.push(item)) == Some(
                    before + more,
                ),
                None => manifest::manifest_executables(items.push(item)) is None,
            })
        },
        manifest::manifest_executables(items) is None ==> manifest::executables_of_items(items)
            == Err::<Seq<Seq<char>>, DiscoveryDiagnosticCode>(
            DiscoveryDiagnosticCode::InvalidSourceRecord,
        ),
        manifest::manifest_executables(items) matches Some(v) ==> manifest::executables_of_items(
            items,
        ) == Ok::<Seq<Seq<char>>, DiscoveryDiagnosticCode>(v),
{
    assert(items.push(item).drop_last() =~= items);
    assert(items.push(item).last() == item);
}

/// A runtime can be used exactly if it says that it is available, ready or healthy.
pub proof fn law_statuses_that_can_be_used(status: Seq<char>)
    ensures
        adapters::is_available_status(status) <==> status == "available"@ || status == "ready"@
            || status == "healthy"@,
{
}

} // verus!
