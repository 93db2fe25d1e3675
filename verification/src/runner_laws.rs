//! What holds of every package that a runner tool has installed, in terms of its name,
//! its version and what the tool prints.

use vstd::prelude::*;
use vstd::string::*;
use vstd::utf8::*;

use crate::observation::DiscoveryDiagnosticCode;
use crate::order;
use crate::runner;
use crate::runner::{NpmDependency, NpmList, RunnerDirectory, RunnerFile};
use crate::scan;
use crate::text;

verus! {

/// An ASCII letter or digit.
pub open spec fn is_letter_or_digit(c: char) -> bool {
    ('0' <= c <= '9') || ('A' <= c <= 'Z') || ('a' <= c <= 'z')
}

/// One to 128 ASCII letters, digits, dots, underscores and hyphens.
pub open spec fn is_plain_name(s: Seq<char>) -> bool {
    &&& 1 <= s.len() <= 128
    &&& forall|i: int|
        0 <= i < s.len() ==> is_letter_or_digit(#[trigger] s[i]) || s[i] == '.' || s[i] == '_' || s[i] == '-'
}

/// One to 64 ASCII letters, digits, dots, hyphens and plus signs.
pub open spec fn is_plain_version(s: Seq<char>) -> bool {
    &&& 1 <= s.len() <= 64
    &&& forall|i: int|
        0 <= i < s.len() ==> is_letter_or_digit(#[trigger] s[i]) || s[i] == '.' || s[i] == '-' || s[i] == '+'
}

proof fn lemma_marks()
    ensures
        "@"@ == seq!['@'],
        " v"@ == seq![' ', 'v'],
        " "@ == seq![' '],
        "npx"@.len() == 3,
        "uvx"@.len() == 3,
        "npx"@[0] != "uvx"@[0],
{
    reveal_strlit("@");
    reveal_strlit(" v");
    reveal_strlit(" ");
    reveal_strlit("npx");
    reveal_strlit("uvx");
    assert("@"@ =~= seq!['@']);
    assert(" v"@ =~= seq![' ', 'v']);
    assert(" "@ =~= seq![' ']);
}

/// A name part is one to 128 ASCII letters, digits, dots, underscores and hyphens, and
/// nothing else is.
pub proof fn law_name_parts(s: Seq<char>)
    ensures
        runner::is_name_part(s) <==> is_plain_name(s),
{
    if runner::is_name_part(s) {
        assert forall|i: int| 0 <= i < s.len() implies '\0' <= #[trigger] s[i] <= '\u{7f}' by {
            assert(text::is_alphanumeric(s[i]) || s[i] == '.' || s[i] == '_' || s[i] == '-');
        }
        is_ascii_chars_encode_utf8(s);
        assert forall|i: int| 0 <= i < s.len() implies is_letter_or_digit(#[trigger] s[i])
            || s[i] == '.' || s[i] == '_' || s[i] == '-' by {
            assert(text::is_alphanumeric(s[i]) || s[i] == '.' || s[i] == '_' || s[i] == '-');
        }
    }
    if is_plain_name(s) {
        assert forall|i: int| 0 <= i < s.len() implies '\0' <= #[trigger] s[i] <= '\u{7f}' by {
            assert(is_letter_or_digit(s[i]) || s[i] == '.' || s[i] == '_' || s[i] == '-');
        }
        is_ascii_chars_encode_utf8(s);
        assert forall|i: int| 0 <= i < s.len() implies text::is_alphanumeric(#[trigger] s[i])
            || s[i] == '.' || s[i] == '_' || s[i] == '-' by {
            assert(is_letter_or_digit(s[i]) || s[i] == '.' || s[i] == '_' || s[i] == '-');
        }
    }
}

/// A version is one to 64 ASCII letters, digits, dots, hyphens and plus signs, and
/// nothing else is.
pub proof fn law_versions(s: Seq<char>)
    ensures
        runner::is_version(s) <==> is_plain_version(s),
{
    if runner::is_version(s) {
        assert forall|i: int| 0 <= i < s.len() implies '\0' <= #[trigger] s[i] <= '\u{7f}' by {
            assert(text::is_alphanumeric(s[i]) || s[i] == '.' || s[i] == '-' || s[i] == '+');
        }
        is_ascii_chars_encode_utf8(s);
        assert forall|i: int| 0 <= i < s.len() implies is_letter_or_digit(#[trigger] s[i])
            || s[i] == '.' || s[i] == '-' || s[i] == '+' by {
            assert(text::is_alphanumeric(s[i]) || s[i] == '.' || s[i] == '-' || s[i] == '+');
        }
    }
    if is_plain_version(s) {
        assert forall|i: int| 0 <= i < s.len() implies '\0' <= #[trigger] s[i] <= '\u{7f}' by {
            assert(is_letter_or_digit(s[i]) || s[i] == '.' || s[i] == '-' || s[i] == '+');
        }
        is_ascii_chars_encode_utf8(s);
        assert forall|i: int| 0 <= i < s.len() implies text::is_alphanumeric(#[trigger] s[i])
            || s[i] == '.' || s[i] == '-' || s[i] == '+' by {
            assert(is_letter_or_digit(s[i]) || s[i] == '.' || s[i] == '-' || s[i] == '+');
        }
    }
}

/// A name of a scope and a package in it.
pub open spec fn scoped(scope: Seq<char>, name: Seq<char>) -> Seq<char> {
    seq!['@'] + scope + seq!['/'] + name
}

/// A text without a character is one part.
proof fn lemma_one_part(s: Seq<char>, c: char)
    requires
        !s.contains(c),
    ensures
        scan::split_on(s, c) == seq![s],
{
    text::lemma_first_index(s, c);
    let i = text::first_index(s, c);
    if 0 <= i < s.len() {
        assert(s[i] == c);
    }
}

/// Two texts without a character, with it between them, are two parts.
proof fn lemma_two_parts(a: Seq<char>, b: Seq<char>, c: char)
    requires
        !a.contains(c),
        !b.contains(c),
    ensures
        scan::split_on(a + seq![c] + b, c) == seq![a, b],
{
    let s = a + seq![c] + b;
    text::lemma_first_index(s, c);
    let i = text::first_index(s, c);
    assert(s[a.len() as int] == c);
    if i < a.len() {
        assert(s[i] == a[i]);
        assert(a.contains(c));
    }
    assert(i == a.len());
    assert(s.take(i) =~= a);
    assert(s.skip(i + 1) =~= b);
    lemma_one_part(b, c);
    assert(scan::split_on(s, c) =~= seq![a, b]);
}

proof fn lemma_plain_has_no_slash(s: Seq<char>)
    requires
        is_plain_name(s),
    ensures
        !s.contains('/'),
        s[0] != '@',
{
    lemma_marks();
    if s.contains('/') {
        let i = choose|i: int| 0 <= i < s.len() && s[i] == '/';
        assert(is_letter_or_digit(s[i]) || s[i] == '.' || s[i] == '_' || s[i] == '-');
    }
    assert(is_letter_or_digit(s[0]) || s[0] == '.' || s[0] == '_' || s[0] == '-');
}

/// A plain name is the name of a package of either tool. A scope and a name, each of
/// them plain, are the name of an npm package, and of no other tool's.
pub proof fn law_package_names(scope: Seq<char>, name: Seq<char>)
    requires
        is_plain_name(name),
    ensures
        runner::is_npm_name(name),
        runner::is_uvx_name(name),
        is_plain_name(scope) ==> runner::is_npm_name(scoped(scope, name)),
        !runner::is_uvx_name(scoped(scope, name)),
{
    law_name_parts(name);
    law_name_parts(scope);
    lemma_plain_has_no_slash(name);
    lemma_one_part(name, '/');
    let s = scoped(scope, name);
    assert(s[0] == '@');
    assert(s[scope.len() as int + 1] == '/');
    if is_plain_name(scope) {
        lemma_plain_has_no_slash(scope);
        lemma_two_parts(scope, name, '/');
        assert(s.drop_first() =~= scope + seq!['/'] + name);
    }
}

/// A name that is not in order: neither plain, nor a scope and a name that are.
pub proof fn law_other_names_are_refused(s: Seq<char>)
    requires
        !is_plain_name(s),
    ensures
        !runner::is_uvx_name(s),
        runner::is_npm_name(s) ==> exists|scope: Seq<char>, name: Seq<char>|
            is_plain_name(scope) && is_plain_name(name) && s == #[trigger] scoped(scope, name),
{
    law_name_parts(s);
    if runner::is_npm_name(s) {
        if s.len() > 0 && s[0] == '@' {
            let t = s.drop_first();
            let parts = scan::split_on(t, '/');
            text::lemma_first_index(t, '/');
            let i = text::first_index(t, '/');
            let rest = t.skip(i + 1);
            assert(0 <= i < t.len());
            assert(parts =~= seq![t.take(i)] + scan::split_on(rest, '/'));
            text::lemma_first_index(rest, '/');
            let j = text::first_index(rest, '/');
            if 0 <= j < rest.len() {
                let tail = rest.skip(j + 1);
                assert(scan::split_on(tail, '/').len() > 0);
                assert(scan::split_on(rest, '/') =~= seq![rest.take(j)] + scan::split_on(
                    tail,
                    '/',
                ));
                assert(false);
            }
            assert(parts[0] == t.take(i));
            assert(parts[1] == rest);
            law_name_parts(parts[0]);
            law_name_parts(parts[1]);
            assert(s =~= scoped(parts[0], parts[1]));
        } else {
            let parts = scan::split_on(s, '/');
            text::lemma_first_index(s, '/');
            let i = text::first_index(s, '/');
            if 0 <= i < s.len() {
                let rest = s.skip(i + 1);
                assert(scan::split_on(rest, '/').len() > 0);
                assert(parts =~= seq![s.take(i)] + scan::split_on(rest, '/'));
                assert(false);
            }
            assert(parts[0] == s);
        }
    }
}

/// A package with a plain name and a version that is in order has an id: the name in
/// small letters, an at sign and the version. There is none for any other tool.
pub proof fn law_package_has_an_id(runner_kind: Seq<char>, name: Seq<char>, version: Seq<char>)
    requires
        is_plain_name(name),
    ensures
        is_plain_version(version) && (runner_kind == "npx"@ || runner_kind == "uvx"@)
            ==> runner::package_id(runner_kind, name, version) == Some(
            text::lower(name) + seq!['@'] + version,
        ),
        !is_plain_version(version) ==> runner::package_id(runner_kind, name, version) is None,
        runner_kind != "npx"@ && runner_kind != "uvx"@ ==> runner::package_id(
            runner_kind,
            name,
            version,
        ) is None,
{
    lemma_marks();
    law_package_names(name, name);
    law_versions(version);
}

/// A package that npm has installed under a name and a version that are in order.
pub open spec fn is_installed(d: NpmDependency, name: Seq<char>, version: Seq<char>) -> bool {
    &&& d.name@ == name
    &&& d.version matches Some(v) && v@ == version
    &&& is_plain_version(version)
    &&& is_plain_name(name) || exists|scope: Seq<char>, part: Seq<char>|
        is_plain_name(scope) && is_plain_name(part) && name == #[trigger] scoped(scope, part)
}

/// A record says what is installed.
pub open spec fn is_record_of(r: runner::RecordView, d: NpmDependency, root: Seq<char>) -> bool {
    &&& r.package_name == d.name@
    &&& d.version matches Some(v) && r.resolved_version == v@
    &&& r.install_root == root
    &&& r.package_integrity is None || (d.integrity matches Some(s) && r.package_integrity == Some(
        s@,
    ))
}

proof fn lemma_installed(root: Seq<char>, d: NpmDependency, name: Seq<char>, version: Seq<char>)
    ensures
        is_installed(d, name, version) ==> (runner::npm_record(root, d) matches Some(r)
            && is_record_of(r, d, root)),
        runner::npm_record(root, d) is Some ==> is_installed(d, d.name@, d.version->0@)
            && is_record_of(runner::npm_record(root, d)->0, d, root),
{
    lemma_marks();
    law_versions(version);
    if is_installed(d, name, version) {
        if is_plain_name(name) {
            law_package_names(name, name);
        } else {
            let (scope, part) = choose|scope: Seq<char>, part: Seq<char>|
                is_plain_name(scope) && is_plain_name(part) && name == #[trigger] scoped(
                    scope,
                    part,
                );
            law_package_names(scope, part);
        }
    }
    if runner::npm_record(root, d) is Some {
        law_versions(d.version->0@);
        if !is_plain_name(d.name@) {
            law_other_names_are_refused(d.name@);
        }
    }
}

proof fn lemma_npm_records(root: Seq<char>, all: Seq<NpmDependency>)
    ensures
        runner::npm_records(root, all).len() <= all.len(),
        forall|k: int, name: Seq<char>, version: Seq<char>|
            0 <= k < all.len() && #[trigger] is_installed(all[k], name, version) ==> exists|r: int|
                0 <= r < runner::npm_records(root, all).len() && is_record_of(
                    #[trigger] runner::npm_records(root, all)[r],
                    all[k],
                    root,
                ),
        forall|r: int|
            0 <= r < runner::npm_records(root, all).len() ==> exists|k: int|
                0 <= k < all.len() && is_record_of(
                    #[trigger] runner::npm_records(root, all)[r],
                    #[trigger] all[k],
                    root,
                ) && is_installed(all[k], all[k].name@, all[k].version->0@),
    decreases all.len(),
{
    let records = runner::npm_records(root, all);
    if all.len() > 0 {
        let shorter = all.drop_last();
        let last = all.last();
        let before = runner::npm_records(root, shorter);
        lemma_npm_records(root, shorter);
        assert(all[all.len() - 1] == last);
        assert(forall|k: int| 0 <= k < shorter.len() ==> #[trigger] shorter[k] == all[k]);
        assert forall|k: int, name: Seq<char>, version: Seq<char>|
            0 <= k < all.len() && #[trigger] is_installed(all[k], name, version) implies exists|
            r: int,
        |
            0 <= r < records.len() && is_record_of(#[trigger] records[r], all[k], root) by {
            lemma_installed(root, all[k], name, version);
            if k < shorter.len() {
                assert(is_installed(shorter[k], name, version));
                let r = choose|r: int|
                    0 <= r < before.len() && is_record_of(#[trigger] before[r], shorter[k], root);
                assert(records[r] == before[r]);
            } else {
                assert(is_record_of(records[before.len() as int], all[k], root));
            }
        }
        assert forall|r: int| 0 <= r < records.len() implies exists|k: int|
            0 <= k < all.len() && is_record_of(#[trigger] records[r], #[trigger] all[k], root)
                && is_installed(all[k], all[k].name@, all[k].version->0@) by {
            if r < before.len() {
                assert(records[r] == before[r]);
                let k = choose|k: int|
                    0 <= k < shorter.len() && is_record_of(
                        before[r],
                        #[trigger] shorter[k],
                        root,
                    ) && is_installed(shorter[k], shorter[k].name@, shorter[k].version->0@);
                assert(is_record_of(records[r], all[k], root));
            } else {
                lemma_installed(root, last, last.name@, last.version->0@);
                assert(is_record_of(records[r], all[all.len() - 1], root));
            }
        }
    }
}

/// Each package that npm lists with a name and a version that are in order has a record
/// in the inventory, and nothing else has; of more than 128 records the first 128 are
/// kept.
pub proof fn law_installed_packages_have_records(
    list: NpmList,
    root: Seq<char>,
    k: int,
    name: Seq<char>,
    version: Seq<char>,
)
    requires
        list.path matches Some(p) && p@ == root,
        runner::is_safe_text(root, 1_024),
    ensures
        runner::npm_inventory(Ok(list), true) matches Ok(records) && {
            &&& records.len() <= 128
            &&& list.dependencies@.len() <= 128 && 0 <= k < list.dependencies@.len()
                && is_installed(list.dependencies@[k], name, version) ==> exists|r: int|
                0 <= r < records.len() && is_record_of(
                    #[trigger] records[r],
                    list.dependencies@[k],
                    root,
                )
            &&& forall|r: int|
                0 <= r < records.len() ==> exists|j: int|
                    0 <= j < list.dependencies@.len() && is_record_of(
                        #[trigger] records[r],
                        #[trigger] list.dependencies@[j],
                        root,
                    ) && is_installed(
                        list.dependencies@[j],
                        list.dependencies@[j].name@,
                        list.dependencies@[j].version->0@,
                    )
        },
        runner::npm_inventory(Ok(list), false) is Err,
{
    let all = list.dependencies@;
    let records = runner::npm_records(root, all);
    lemma_npm_records(root, all);
    let kept = runner::npm_inventory(Ok(list), true)->Ok_0;
    assert(forall|r: int| 0 <= r < kept.len() ==> #[trigger] kept[r] == records[r]);
    if all.len() <= 128 && 0 <= k < all.len() && is_installed(all[k], name, version) {
        let r = choose|r: int|
            0 <= r < records.len() && is_record_of(#[trigger] records[r], all[k], root);
        assert(kept[r] == records[r]);
    }
}

/// No list, no inventory: what kept npm or uv from being asked is passed on, and a list
/// without a safe root is not taken.
pub proof fn law_failed_listing_has_no_records(code: DiscoveryDiagnosticCode, bytes: Seq<u8>, list: NpmList)
    ensures
        runner::npm_inventory(Err(code), true) == Err::<
            Seq<runner::RecordView>,
            DiscoveryDiagnosticCode,
        >(code),
        runner::uvx_inventory(Err(code), Ok(bytes), true) == Err::<
            Seq<runner::RecordView>,
            DiscoveryDiagnosticCode,
        >(code),
        runner::uvx_inventory(Ok(bytes), Err(code), true) == Err::<
            Seq<runner::RecordView>,
            DiscoveryDiagnosticCode,
        >(code),
        list.path is None ==> runner::npm_inventory(Ok(list), true) == Err::<
            Seq<runner::RecordView>,
            DiscoveryDiagnosticCode,
        >(DiscoveryDiagnosticCode::InvalidSourceRecord),
{
}

/// Characters that are no ASCII white space are one word with what comes before.
proof fn lemma_word(w: Seq<char>, rest: Seq<char>, word: Seq<char>)
    requires
        forall|i: int| 0 <= i < w.len() ==> !runner::is_ascii_space(#[trigger] w[i]),
    ensures
        runner::line_words(w + rest, word) == runner::line_words(rest, word + w),
    decreases w.len(),
{
    if w.len() == 0 {
        assert(w + rest =~= rest);
        assert(word + w =~= word);
    } else {
        let tail = w.drop_first();
        assert((w + rest).drop_first() =~= tail + rest);
        assert((w + rest)[0] == w[0]);
        assert(forall|i: int| 0 <= i < tail.len() ==> #[trigger] tail[i] == w[i + 1]);
        lemma_word(tail, rest, word.push(w[0]));
        assert(word.push(w[0]) + tail =~= word + w);
    }
}

/// Two words with a space between them are two words.
proof fn lemma_two_words(a: Seq<char>, b: Seq<char>)
    requires
        a.len() > 0,
        b.len() > 0,
        forall|i: int| 0 <= i < a.len() ==> !runner::is_ascii_space(#[trigger] a[i]),
        forall|i: int| 0 <= i < b.len() ==> !runner::is_ascii_space(#[trigger] b[i]),
    ensures
        runner::line_words(a + seq![' '] + b, seq![]) == seq![a, b],
{
    let rest = seq![' '] + b;
    assert(a + seq![' '] + b =~= a + rest);
    lemma_word(a, rest, seq![]);
    assert(Seq::<char>::empty() + a =~= a);
    assert(rest.drop_first() =~= b);
    lemma_word(b, seq![], seq![]);
    assert(b + Seq::<char>::empty() =~= b);
    assert(Seq::<char>::empty() + b =~= b);
    assert(runner::line_words(seq![], b) =~= seq![b]);
    assert(runner::line_words(rest, a) =~= seq![a] + seq![b]);
    assert(seq![a] + seq![b] =~= seq![a, b]);
}

/// A line that names a tool and its version: a plain name, a space, and the version
/// that is in order, with or without a "v" before it.
pub open spec fn is_tool_line(line: Seq<char>, name: Seq<char>, version: Seq<char>) -> bool {
    &&& is_plain_name(name)
    &&& is_plain_version(version)
    &&& line == name + seq![' ', 'v'] + version || (line == name + seq![' '] + version
        && version[0] != 'v')
}

/// A line that names a tool and its version gives both, the name in small letters.
pub proof fn law_tool_line_is_read(line: Seq<char>, name: Seq<char>, version: Seq<char>)
    requires
        is_tool_line(line, name, version),
    ensures
        runner::tool_of_line(line) == Some((text::lower(name), version)),
{
    lemma_marks();
    law_package_has_an_id("uvx"@, name, version);
    assert forall|i: int| 0 <= i < name.len() implies !runner::is_ascii_space(
        #[trigger] name[i],
    ) by {
        assert(is_letter_or_digit(name[i]) || name[i] == '.' || name[i] == '_'
            || name[i] == '-');
    }
    assert forall|i: int| 0 <= i < version.len() implies !runner::is_ascii_space(
        #[trigger] version[i],
    ) by {
        assert(is_letter_or_digit(version[i]) || version[i] == '.' || version[i] == '-'
            || version[i] == '+');
    }
    if line == name + seq![' ', 'v'] + version {
        let b = seq!['v'] + version;
        assert(line =~= name + seq![' '] + b);
        assert forall|i: int| 0 <= i < b.len() implies !runner::is_ascii_space(#[trigger] b[i]) by {
            if i > 0 {
                assert(b[i] == version[i - 1]);
            }
        }
        lemma_two_words(name, b);
        assert(b.drop_first() =~= version);
    } else {
        lemma_two_words(name, version);
    }
}

proof fn lemma_pair_placed(all: Seq<(Seq<char>, Seq<char>)>, x: (Seq<char>, Seq<char>))
    ensures
        0 <= runner::pair_place(all, x) <= all.len(),
    decreases all.len(),
{
    if all.len() > 0 {
        lemma_pair_placed(all.drop_last(), x);
    }
}

proof fn lemma_put_pair_holds(
    all: Seq<(Seq<char>, Seq<char>)>,
    x: (Seq<char>, Seq<char>),
    y: (Seq<char>, Seq<char>),
)
    ensures
        runner::put_pair(all, x).contains(y) <==> y == x || all.contains(y),
{
    lemma_pair_placed(all, x);
    let p = runner::pair_place(all, x);
    let after = runner::put_pair(all, x);
    if !(p < all.len() && all[p] == x) {
        assert(after[p] == x);
        if all.contains(y) {
            let k = choose|k: int| 0 <= k < all.len() && all[k] == y;
            if k < p {
                assert(after[k] == y);
            } else {
                assert(after[k + 1] == y);
            }
        }
        if after.contains(y) {
            let k = choose|k: int| 0 <= k < after.len() && after[k] == y;
            if k < p {
                assert(all[k] == y);
            } else if k > p {
                assert(all[k - 1] == y);
            }
        }
    }
}

proof fn lemma_tools_of_lines(lines: Seq<Seq<char>>, t: (Seq<char>, Seq<char>))
    ensures
        runner::tools_of_lines(lines).contains(t) <==> exists|k: int|
            0 <= k < lines.len() && runner::tool_of_line(#[trigger] lines[k]) == Some(t),
        runner::tools_of_lines(lines).len() <= lines.len(),
    decreases lines.len(),
{
    if lines.len() > 0 {
        let shorter = lines.drop_last();
        lemma_tools_of_lines(shorter, t);
        assert(forall|k: int| 0 <= k < shorter.len() ==> #[trigger] shorter[k] == lines[k]);
        assert(lines[lines.len() - 1] == lines.last());
        let before = runner::tools_of_lines(shorter);
        if let Some(x) = runner::tool_of_line(lines.last()) {
            lemma_put_pair_holds(before, x, t);
            lemma_pair_placed(before, x);
        }
        if exists|k: int|
            0 <= k < shorter.len() && runner::tool_of_line(#[trigger] shorter[k]) == Some(t) {
            let k = choose|k: int|
                0 <= k < shorter.len() && runner::tool_of_line(#[trigger] shorter[k]) == Some(t);
            assert(runner::tool_of_line(lines[k]) == Some(t));
        }
        if exists|k: int|
            0 <= k < lines.len() && runner::tool_of_line(#[trigger] lines[k]) == Some(t) {
            let k = choose|k: int|
                0 <= k < lines.len() && runner::tool_of_line(#[trigger] lines[k]) == Some(t);
            if k < shorter.len() {
                assert(runner::tool_of_line(shorter[k]) == Some(t));
            }
        }
    }
}

/// Each tool that uv lists, in up to 128 lines, has a record in the inventory, with its
/// name in small letters, its version and the root that uv gives.
pub proof fn law_listed_tools_have_records(
    list: Seq<u8>,
    printed_root: Seq<u8>,
    root: Seq<char>,
    k: int,
    name: Seq<char>,
    version: Seq<char>,
)
    requires
        valid_utf8(list),
        runner::install_root(printed_root) == Some(root),
        text::lines(decode_utf8(list)).len() <= 128,
        0 <= k < text::lines(decode_utf8(list)).len(),
        is_tool_line(text::lines(decode_utf8(list))[k], name, version),
    ensures
        runner::uvx_inventory(Ok(list), Ok(printed_root), true) matches Ok(records) && {
            &&& exists|r: int|
                0 <= r < records.len() && (#[trigger] records[r]).package_name == text::lower(name)
                    && records[r].resolved_version == version
            &&& forall|r: int|
                0 <= r < records.len() ==> (#[trigger] records[r]).install_root == root
                    && records[r].package_integrity is None
        },
        runner::uvx_inventory(Ok(list), Ok(printed_root), false) is Err,
{
    let lines = text::lines(decode_utf8(list));
    law_tool_line_is_read(lines[k], name, version);
    let t = (text::lower(name), version);
    assert(runner::tool_of_line(lines[k]) == Some(t));
    lemma_tools_of_lines(lines, t);
    let tools = runner::uv_tools(list);
    let r = choose|r: int| 0 <= r < tools.len() && tools[r] == t;
    let records = runner::uvx_inventory(Ok(list), Ok(printed_root), true)->Ok_0;
    assert(records[r].package_name == t.0);
}

/// What is read from the first 256 lines of a list is all that is read, and what is no
/// UTF-8 lists nothing.
pub proof fn law_only_lines_list_tools(list: Seq<u8>, t: (Seq<char>, Seq<char>))
    ensures
        runner::uv_tools(list).contains(t) ==> valid_utf8(list) && exists|k: int|
            0 <= k < text::lines(decode_utf8(list)).len() && k < 256 && runner::tool_of_line(
                #[trigger] text::lines(decode_utf8(list))[k],
            ) == Some(t),
        valid_utf8(list) && (exists|k: int|
            0 <= k < text::lines(decode_utf8(list)).len() && k < 256 && runner::tool_of_line(
                #[trigger] text::lines(decode_utf8(list))[k],
            ) == Some(t)) ==> runner::uv_tools(list).contains(t),
{
    let all = text::lines(decode_utf8(list));
    let lines = if all.len() <= 256 {
        all
    } else {
        all.take(256)
    };
    lemma_tools_of_lines(lines, t);
    assert(forall|k: int| 0 <= k < lines.len() ==> #[trigger] lines[k] == all[k]);
    if valid_utf8(list) {
        if exists|k: int|
            0 <= k < all.len() && k < 256 && runner::tool_of_line(#[trigger] all[k]) == Some(t) {
            let k = choose|k: int|
                0 <= k < all.len() && k < 256 && runner::tool_of_line(#[trigger] all[k]) == Some(t);
            assert(runner::tool_of_line(lines[k]) == Some(t));
        }
        if exists|k: int|
            0 <= k < lines.len() && runner::tool_of_line(#[trigger] lines[k]) == Some(t) {
            let k = choose|k: int|
                0 <= k < lines.len() && runner::tool_of_line(#[trigger] lines[k]) == Some(t);
            assert(runner::tool_of_line(all[k]) == Some(t));
        }
    }
}

/// A package of npm lies below `node_modules`, one of another tool below the root
/// itself; a scope is a directory of its own.
pub proof fn law_packages_lie_where_their_tool_puts_them(scope: Seq<char>, name: Seq<char>)
    requires
        is_plain_name(name),
    ensures
        runner::package_steps("npx"@, name) == Some(seq!["node_modules"@, name]),
        runner::package_steps("uvx"@, name) == Some(seq![name]),
        is_plain_name(scope) ==> runner::package_steps("npx"@, scoped(scope, name)) == Some(
            seq!["node_modules"@, seq!['@'] + scope, name],
        ),
{
    lemma_marks();
    law_package_names(scope, name);
    lemma_plain_has_no_slash(name);
    lemma_one_part(name, '/');
    assert(seq!["node_modules"@] + seq![name] =~= seq!["node_modules"@, name]);
    assert(Seq::<Seq<char>>::empty() + seq![name] =~= seq![name]);
    if is_plain_name(scope) {
        let s = scoped(scope, name);
        let head = seq!['@'] + scope;
        lemma_plain_has_no_slash(scope);
        assert(!head.contains('/')) by {
            if head.contains('/') {
                let i = choose|i: int| 0 <= i < head.len() && head[i] == '/';
                assert(i > 0);
                assert(scope[i - 1] == '/');
            }
        }
        lemma_two_parts(head, name, '/');
        assert(s =~= head + seq!['/'] + name);
        assert(seq!["node_modules"@] + seq![head, name] =~= seq!["node_modules"@, head, name]);
    }
}

/// A file that a runner may be: a regular file that is no link, which leads to a
/// regular file that is none.
pub open spec fn may_run(f: RunnerFile) -> bool {
    f.regular && !f.reparse && f.canonical is Some && f.canonical_regular && !f.canonical_reparse
}

/// A place on the search path at which a runner may be.
pub open spec fn may_run_at(directories: Seq<RunnerDirectory>, d: int, f: int) -> bool {
    &&& 0 <= d < directories.len()
    &&& d < 256
    &&& directories[d].absolute
    &&& !directories[d].reparse
    &&& 0 <= f < directories[d].files@.len()
    &&& may_run(directories[d].files@[f])
}

proof fn lemma_among(files: Seq<RunnerFile>, k: nat)
    ensures
        match runner::runner_among(files, k) {
            Some(p) => exists|f: int|
                k <= f < files.len() && may_run(#[trigger] files[f]) && files[f].canonical->0@ == p
                    && (forall|g: int| k <= g < f ==> !may_run(#[trigger] files[g])),
            None => forall|g: int| k <= g < files.len() ==> !may_run(#[trigger] files[g]),
        },
    decreases files.len() - k,
{
    if k < files.len() {
        lemma_among(files, k + 1);
        if runner::sound_runner(files[k as int]) is Some {
            assert(may_run(files[k as int]));
        }
    }
}

proof fn lemma_on_path(directories: Seq<RunnerDirectory>, k: nat)
    ensures
        match runner::runner_on_path(directories, k) {
            Some(p) => exists|d: int, f: int|
                k <= d && #[trigger] may_run_at(directories, d, f)
                    && directories[d].files@[f].canonical->0@ == p && (forall|e: int, g: int|
                    k <= e && #[trigger] may_run_at(directories, e, g) ==> e > d || (e == d && g
                        >= f)),
            None => forall|e: int, g: int| k <= e ==> !#[trigger] may_run_at(directories, e, g),
        },
    decreases directories.len() - k,
{
    if k < directories.len() && k < 256 {
        lemma_on_path(directories, k + 1);
        let d = directories[k as int];
        lemma_among(d.files@, 0);
        if d.absolute && !d.reparse && runner::runner_among(d.files@, 0) is Some {
            let p = runner::runner_among(d.files@, 0)->0;
            let f = choose|f: int|
                0 <= f < d.files@.len() && may_run(#[trigger] d.files@[f])
                    && d.files@[f].canonical->0@ == p && (forall|g: int|
                    0 <= g < f ==> !may_run(#[trigger] d.files@[g]));
            assert(may_run_at(directories, k as int, f));
            assert forall|e: int, g: int|
                k <= e && #[trigger] may_run_at(directories, e, g) implies e > k || (e == k && g
                >= f) by {
                if e == k && g < f {
                    assert(!may_run(d.files@[g]));
                }
            }
        } else {
            assert forall|g: int| !#[trigger] may_run_at(directories, k as int, g) by {
                if may_run_at(directories, k as int, g) {
                    assert(may_run(d.files@[g]));
                }
            }
            if let Some(p) = runner::runner_on_path(directories, k + 1) {
                let (a, f) = choose|a: int, f: int|
                    k + 1 <= a && #[trigger] may_run_at(directories, a, f)
                        && directories[a].files@[f].canonical->0@ == p && (forall|e: int, g: int|
                        k + 1 <= e && #[trigger] may_run_at(directories, e, g) ==> e > a || (e == a
                            && g >= f));
                assert forall|e: int, g: int|
                    k <= e && #[trigger] may_run_at(directories, e, g) implies e > a || (e == a
                    && g >= f) by {
                    assert(e != k);
                }
            }
        }
    }
}

/// The runner that is found is the first on the first 256 directories of the search
/// path that is a regular file and no link, in an absolute directory that is no link,
/// by the path that it leads to; none is found only if there is none.
pub proof fn law_first_sound_runner_is_found(directories: Seq<RunnerDirectory>)
    ensures
        match runner::runner_on_path(directories, 0) {
            Some(p) => exists|d: int, f: int| #[trigger]
                may_run_at(directories, d, f) && directories[d].files@[f].canonical->0@ == p && (
                forall|e: int, g: int| #[trigger]
                    may_run_at(directories, e, g) ==> e > d || (e == d && g >= f)),
            None => forall|e: int, g: int| !#[trigger] may_run_at(directories, e, g),
        },
{
    lemma_on_path(directories, 0);
    if let Some(p) = runner::runner_on_path(directories, 0) {
        let (d, f) = choose|d: int, f: int|
            0 <= d && #[trigger] may_run_at(directories, d, f)
                && directories[d].files@[f].canonical->0@ == p && (forall|e: int, g: int|
                0 <= e && #[trigger] may_run_at(directories, e, g) ==> e > d || (e == d && g
                    >= f));
        assert forall|e: int, g: int| #[trigger] may_run_at(directories, e, g) implies e > d || (e
            == d && g >= f) by {}
    }
}

/// A runner goes by its own name, and on Windows by that name as a program or a script.
pub proof fn law_runner_goes_by_its_name(name: Seq<char>)
    ensures
        runner::runner_names(name, false) == seq![name],
        runner::runner_names(name, true).len() == 3,
        runner::runner_names(name, true)[0] == name + ".exe"@,
        runner::runner_names(name, true)[1] == name + ".cmd"@,
        runner::runner_names(name, true)[2] == name + ".bat"@,
{
}

/// Tools are ordered by their names, and versions of one tool by the version: no tool comes
/// before itself, and of two different ones exactly one comes first.
pub proof fn law_tools_are_ordered(
    a: (Seq<char>, Seq<char>),
    b: (Seq<char>, Seq<char>),
    c: (Seq<char>, Seq<char>),
)
    ensures
        a.0 != b.0 ==> runner::pair_less(a, b) == order::text_less(a.0, b.0),
        a.0 == b.0 ==> runner::pair_less(a, b) == order::text_less(a.1, b.1),
        !runner::pair_less(a, a),
        a != b ==> runner::pair_less(a, b) != runner::pair_less(b, a),
        runner::pair_less(a, b) && runner::pair_less(b, c) ==> runner::pair_less(a, c),
{
    order::lemma_less_irreflexive(a.0);
    order::lemma_less_irreflexive(a.1);
    order::lemma_less_irreflexive(b.0);
    order::lemma_less_total(a.0, b.0);
    order::lemma_less_total(a.1, b.1);
    if order::text_less(a.0, b.0) && order::text_less(b.0, a.0) {
        order::lemma_less_transitive(a.0, b.0, a.0);
    }
    if order::text_less(a.1, b.1) && order::text_less(b.1, a.1) {
        order::lemma_less_transitive(a.1, b.1, a.1);
    }
    if order::text_less(a.0, b.0) && order::text_less(b.0, c.0) {
        order::lemma_less_transitive(a.0, b.0, c.0);
    }
    if order::text_less(a.1, b.1) && order::text_less(b.1, c.1) {
        order::lemma_less_transitive(a.1, b.1, c.1);
    }
}

} // verus!
