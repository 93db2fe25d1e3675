//! How a Codex app server is found and started.

use vstd::prelude::*;
use vstd::string::*;

use crate::error;
use crate::error::{RuntimeError, CODEX_RUNTIME_UNAVAILABLE};
use crate::order;
use crate::order::text_precedes;
use crate::text;
use crate::text::{chars_of, digit, parse_u64, text_of_range};

verus! {

/// The number of digits that a text begins with.
pub open spec fn digit_prefix(s: Seq<char>) -> nat
    decreases s.len(),
{
    if s.len() == 0 || !text::is_digit(s[0]) {
        0
    } else {
        1 + digit_prefix(s.drop_first())
    }
}

proof fn lemma_digit_prefix(s: Seq<char>)
    ensures
        digit_prefix(s) <= s.len(),
    decreases s.len(),
{
    if s.len() > 0 && text::is_digit(s[0]) {
        lemma_digit_prefix(s.drop_first());
    }
}

/// The numbers in a text, from left to right: its longest runs of digits, without
/// those that are too large for a number.
pub open spec fn version_key(s: Seq<char>) -> Seq<u64>
    decreases s.len(),
    when digit_prefix(s) <= s.len()
{
    if s.len() == 0 {
        seq![]
    } else if digit_prefix(s) == 0 {
        version_key(s.drop_first())
    } else {
        let n = digit_prefix(s) as int;
        match text::unsigned_value(s.take(n)) {
            Some(v) => seq![v] + version_key(s.skip(n)),
            None => version_key(s.skip(n)),
        }
    }
}

pub fn codex_version_key(version: &str) -> (r: Vec<u64>)
    ensures
        r@ == version_key(version@),
{
    let cs = chars_of(version);
    let mut key: Vec<u64> = Vec::new();
    let mut i: usize = 0;
    proof {
        assert(cs@.skip(0) =~= cs@);
        lemma_digit_prefix(cs@);
    }
    while i < cs.len()
        invariant
            i <= cs@.len(),
            cs@ == version@,
            version_key(version@) == key@ + version_key(cs@.skip(i as int)),
        decreases cs@.len() - i,
    {
        let ghost rest = cs@.skip(i as int);
        proof {
            lemma_digit_prefix(rest);
            lemma_digit_prefix(rest.drop_first());
        }
        if !digit(cs[i]) {
            assert(rest[0] == cs@[i as int]);
            assert(rest.drop_first() =~= cs@.skip(i + 1));
            i += 1;
        } else {
            let from = i;
            assert(rest.skip(0) =~= rest);
            while i < cs.len() && digit(cs[i])
                invariant
                    from <= i <= cs@.len(),
                    rest == cs@.skip(from as int),
                    digit_prefix(rest) == (i - from) + digit_prefix(rest.skip(i - from)),
                decreases cs@.len() - i,
            {
                let ghost here = rest.skip(i - from);
                assert(here[0] == cs@[i as int]);
                assert(here.drop_first() =~= rest.skip(i + 1 - from));
                i += 1;
            }
            let ghost n = i - from;
            proof {
                let here = rest.skip(n);
                if i < cs@.len() {
                    assert(here[0] == cs@[i as int]);
                }
                assert(digit_prefix(here) == 0);
                assert(digit_prefix(rest) == n);
                assert(rest[0] == cs@[from as int]);
                assert(rest.take(n) =~= cs@.subrange(from as int, i as int));
                assert(rest.skip(n) =~= cs@.skip(i as int));
                lemma_digit_prefix(here);
            }
            let run = text_of_range(&cs, from, i);
            let ghost before = key@;
            if let Some(v) = parse_u64(run.as_str()) {
                key.push(v);
                proof {
                    let tail = version_key(cs@.skip(i as int));
                    assert(before + (seq![v] + tail) =~= key@ + tail);
                }
            }
        }
    }
    assert(key@ + version_key(cs@.skip(i as int)) =~= key@);
    key
}

/// The order of lists of numbers: by the first numbers that differ, a list before
/// those that it is a proper prefix of.
pub open spec fn key_less(a: Seq<u64>, b: Seq<u64>) -> bool
    decreases a.len(),
{
    if b.len() == 0 {
        false
    } else if a.len() == 0 {
        true
    } else if a[0] != b[0] {
        a[0] < b[0]
    } else {
        key_less(a.drop_first(), b.drop_first())
    }
}

proof fn lemma_key_irreflexive(a: Seq<u64>)
    ensures
        !key_less(a, a),
    decreases a.len(),
{
    if a.len() > 0 {
        lemma_key_irreflexive(a.drop_first());
    }
}

proof fn lemma_key_transitive(a: Seq<u64>, b: Seq<u64>, c: Seq<u64>)
    requires
        key_less(a, b),
        key_less(b, c),
    ensures
        key_less(a, c),
    decreases a.len(),
{
    if a.len() > 0 && b.len() > 0 && c.len() > 0 && a[0] == b[0] && b[0] == c[0] {
        lemma_key_transitive(a.drop_first(), b.drop_first(), c.drop_first());
    }
}

proof fn lemma_key_total(a: Seq<u64>, b: Seq<u64>)
    ensures
        key_less(a, b) || key_less(b, a) || a == b,
    decreases a.len(),
{
    if a.len() == 0 || b.len() == 0 {
        if a.len() == 0 && b.len() == 0 {
            assert(a =~= b);
        }
    } else if a[0] == b[0] {
        lemma_key_total(a.drop_first(), b.drop_first());
        if a.drop_first() == b.drop_first() {
            assert(a =~= seq![a[0]] + a.drop_first());
            assert(b =~= seq![b[0]] + b.drop_first());
        }
    }
}

fn key_precedes(a: &Vec<u64>, b: &Vec<u64>) -> (r: bool)
    ensures
        r == key_less(a@, b@),
{
    let mut i: usize = 0;
    assert(a@.skip(0) =~= a@);
    assert(b@.skip(0) =~= b@);
    while i < a.len() && i < b.len()
        invariant
            i <= a@.len(),
            i <= b@.len(),
            key_less(a@, b@) == key_less(a@.skip(i as int), b@.skip(i as int)),
        decreases a@.len() - i,
    {
        proof {
            assert(a@.skip(i as int)[0] == a@[i as int]);
            assert(b@.skip(i as int)[0] == b@[i as int]);
            assert(a@.skip(i as int).drop_first() =~= a@.skip(i + 1));
            assert(b@.skip(i as int).drop_first() =~= b@.skip(i + 1));
        }
        if a[i] != b[i] {
            return a[i] < b[i];
        }
        i += 1;
    }
    i < b.len()
}

/// The order of the names of versions: by their numbers, then by the names.
pub open spec fn version_less(a: Seq<char>, b: Seq<char>) -> bool {
    ||| key_less(version_key(a), version_key(b))
    ||| version_key(a) == version_key(b) && order::text_less(a, b)
}

/// Of any two versions one comes first, unless they are the same, and what comes
/// before comes before what follows.
pub proof fn law_versions_are_ordered(a: Seq<char>, b: Seq<char>, c: Seq<char>)
    ensures
        !version_less(a, a),
        version_less(a, b) || version_less(b, a) || a == b,
        version_less(a, b) && version_less(b, c) ==> version_less(a, c),
{
    lemma_key_irreflexive(version_key(a));
    order::lemma_less_irreflexive(a);
    lemma_key_total(version_key(a), version_key(b));
    order::lemma_less_total(a, b);
    if version_less(a, b) && version_less(b, c) {
        if key_less(version_key(a), version_key(b)) && key_less(version_key(b), version_key(c)) {
            lemma_key_transitive(version_key(a), version_key(b), version_key(c));
        }
        if order::text_less(a, b) && order::text_less(b, c) {
            order::lemma_less_transitive(a, b, c);
        }
    }
}

fn version_precedes(a: &str, b: &str) -> (r: bool)
    ensures
        r == version_less(a@, b@),
{
    let key_a = codex_version_key(a);
    let key_b = codex_version_key(b);
    if key_precedes(&key_a, &key_b) {
        return true;
    }
    proof {
        lemma_key_total(key_a@, key_b@);
        lemma_key_irreflexive(key_a@);
    }
    if key_precedes(&key_b, &key_a) {
        proof {
            if version_key(a@) == version_key(b@) {
                assert(false);
            }
        }
        return false;
    }
    text_precedes(a, b)
}

/// The newest of some installed versions: none comes behind it. Of equal names the
/// last one is taken.
pub fn newest_version(names: &Vec<String>) -> (r: Option<usize>)
    ensures
        match r {
            Some(i) => {
                &&& i < names@.len()
                &&& forall|j: int|
                    0 <= j < names@.len() ==> !version_less(
                        names@[i as int]@,
                        (#[trigger] names@[j])@,
                    )
                &&& forall|j: int|
                    i < j < names@.len() ==> version_less(
                        (#[trigger] names@[j])@,
                        names@[i as int]@,
                    )
            },
            None => names@.len() == 0,
        },
{
    if names.len() == 0 {
        return None;
    }
    let mut best: usize = 0;
    let mut i: usize = 1;
    proof {
        law_versions_are_ordered(names@[0]@, names@[0]@, names@[0]@);
    }
    while i < names.len()
        invariant
            best < i <= names@.len(),
            forall|j: int|
                0 <= j < i ==> !version_less(names@[best as int]@, (#[trigger] names@[j])@),
            forall|j: int|
                best < j < i ==> version_less((#[trigger] names@[j])@, names@[best as int]@),
        decreases names@.len() - i,
    {
        let smaller = version_precedes(names[i].as_str(), names[best].as_str());
        proof {
            let b = names@[best as int]@;
            let n = names@[i as int]@;
            law_versions_are_ordered(n, b, b);
            law_versions_are_ordered(b, n, b);
            law_versions_are_ordered(n, n, n);
            assert forall|j: int| !smaller && 0 <= j < i implies !version_less(
                n,
                (#[trigger] names@[j])@,
            ) by {
                law_versions_are_ordered(b, n, names@[j]@);
            }
        }
        if !smaller {
            best = i;
        }
        i += 1;
    }
    Some(best)
}

/// The variables that may name the binary, in the order in which they are looked
/// at.
pub open spec fn binary_variables() -> Seq<Seq<char>> {
    seq!["AGENTTALK_CODEX_BINARY"@, "CODEX_BINARY_PATH"@, "CODEX_BINARY"@]
}

pub open spec fn names_of(names: Seq<&'static str>) -> Seq<Seq<char>> {
    Seq::new(names.len(), |i: int| names[i]@)
}

pub fn codex_binary_variables() -> (r: Vec<&'static str>)
    ensures
        names_of(r@) == binary_variables(),
{
    let mut r: Vec<&'static str> = Vec::new();
    r.push("AGENTTALK_CODEX_BINARY");
    r.push("CODEX_BINARY_PATH");
    r.push("CODEX_BINARY");
    assert(names_of(r@) =~= binary_variables());
    r
}

/// The names that the binary has in a directory of the search path.
pub fn codex_executable_names(windows: bool) -> (r: Vec<&'static str>)
    ensures
        names_of(r@) == if windows {
            seq!["codex.exe"@, "codex"@]
        } else {
            seq!["codex"@]
        },
{
    let mut r: Vec<&'static str> = Vec::new();
    if windows {
        r.push("codex.exe");
    }
    r.push("codex");
    assert(names_of(r@) =~= if windows {
        seq!["codex.exe"@, "codex"@]
    } else {
        seq!["codex"@]
    });
    r
}

/// Chooses a binary: the first candidate that is a regular file. The candidates
/// are the configured path, the values of the variables, the files on the search
/// path and the newest desktop installation, in this order.
pub fn choose_binary(is_file: &Vec<bool>) -> (r: Result<usize, RuntimeError>)
    ensures
        match r {
            Ok(i) => i < is_file@.len() && is_file@[i as int] && forall|j: int|
                0 <= j < i ==> !#[trigger] is_file@[j],
            Err(e) => e@ == error::ErrorView::Transport(CODEX_RUNTIME_UNAVAILABLE@) && forall|
                j: int,
            |
                0 <= j < is_file@.len() ==> !#[trigger] is_file@[j],
        },
{
    let mut i: usize = 0;
    while i < is_file.len()
        invariant
            i <= is_file@.len(),
            forall|j: int| 0 <= j < i ==> !#[trigger] is_file@[j],
        decreases is_file@.len() - i,
    {
        if is_file[i] {
            return Ok(i);
        }
        i += 1;
    }
    Err(RuntimeError::transport(CODEX_RUNTIME_UNAVAILABLE))
}

/// The arguments of the app server: those that are configured, then the ones that
/// make it listen to its standard input.
pub fn codex_arguments(configured: &Vec<String>) -> (r: Vec<String>)
    ensures
        text::texts(r@) == text::texts(configured@) + seq!["app-server"@, "--listen"@, "stdio://"@],
{
    let mut r: Vec<String> = Vec::new();
    let mut i: usize = 0;
    while i < configured.len()
        invariant
            i <= configured@.len(),
            text::texts(r@) == text::texts(configured@).take(i as int),
        decreases configured@.len() - i,
    {
        let copy = configured[i].clone();
        proof {
            assert(text::texts(r@.push(copy)) =~= text::texts(r@).push(copy@));
            assert(text::texts(configured@).take(i + 1) =~= text::texts(configured@).take(
                i as int,
            ).push(copy@));
        }
        r.push(copy);
        i += 1;
    }
    let server = "app-server".to_owned();
    let listen = "--listen".to_owned();
    let stdio = "stdio://".to_owned();
    let ghost before = r@;
    r.push(server);
    r.push(listen);
    r.push(stdio);
    proof {
        assert(text::texts(configured@).take(i as int) =~= text::texts(configured@));
        assert(text::texts(r@) =~= text::texts(before) + seq![server@, listen@, stdio@]);
    }
    r
}

/// The variables that an app server may see.
pub open spec fn child_variables() -> Seq<Seq<char>> {
    seq![
        "PATH"@,
        "PATHEXT"@,
        "SystemRoot"@,
        "WINDIR"@,
        "ComSpec"@,
        "SYSTEMDRIVE"@,
        "TEMP"@,
        "TMP"@,
        "USERPROFILE"@,
        "HOME"@,
        "HOMEDRIVE"@,
        "HOMEPATH"@,
        "USERNAME"@,
        "USERDOMAIN"@,
        "APPDATA"@,
        "LOCALAPPDATA"@,
        "ProgramData"@,
        "ProgramFiles"@,
        "ProgramFiles(x86)"@,
        "OS"@,
        "PROCESSOR_ARCHITECTURE"@,
        "PROCESSOR_ARCHITEW6432"@,
        "NUMBER_OF_PROCESSORS"@,
        "LANG"@,
        "LC_ALL"@,
        "PSModulePath"@,
        "CODEX_HOME"@,
        "CODEX_ACCESS_TOKEN"@,
        "CODEX_API_KEY"@,
        "OPENAI_API_KEY"@,
        "OPENAI_BASE_URL"@,
        "OPENAI_ORG_ID"@,
        "OPENAI_PROJECT_ID"@,
        "HTTP_PROXY"@,
        "HTTPS_PROXY"@,
        "ALL_PROXY"@,
        "NO_PROXY"@,
        "SSL_CERT_FILE"@,
        "CODEX_CA_CERTIFICATE"@,
        "NODE_EXTRA_CA_CERTS"@,
    ]
}

fn child_variable_names() -> (r: Vec<&'static str>)
    ensures
        names_of(r@) == child_variables(),
{
    let mut r: Vec<&'static str> = Vec::new();
    r.push("PATH");
    r.push("PATHEXT");
    r.push("SystemRoot");
    r.push("WINDIR");
    r.push("ComSpec");
    r.push("SYSTEMDRIVE");
    r.push("TEMP");
    r.push("TMP");
    r.push("USERPROFILE");
    r.push("HOME");
    r.push("HOMEDRIVE");
    r.push("HOMEPATH");
    r.push("USERNAME");
    r.push("USERDOMAIN");
    r.push("APPDATA");
    r.push("LOCALAPPDATA");
    r.push("ProgramData");
    r.push("ProgramFiles");
    r.push("ProgramFiles(x86)");
    r.push("OS");
    r.push("PROCESSOR_ARCHITECTURE");
    r.push("PROCESSOR_ARCHITEW6432");
    r.push("NUMBER_OF_PROCESSORS");
    r.push("LANG");
    r.push("LC_ALL");
    r.push("PSModulePath");
    r.push("CODEX_HOME");
    r.push("CODEX_ACCESS_TOKEN");
    r.push("CODEX_API_KEY");
    r.push("OPENAI_API_KEY");
    r.push("OPENAI_BASE_URL");
    r.push("OPENAI_ORG_ID");
    r.push("OPENAI_PROJECT_ID");
    r.push("HTTP_PROXY");
    r.push("HTTPS_PROXY");
    r.push("ALL_PROXY");
    r.push("NO_PROXY");
    r.push("SSL_CERT_FILE");
    r.push("CODEX_CA_CERTIFICATE");
    r.push("NODE_EXTRA_CA_CERTS");
    assert(names_of(r@) =~= child_variables());
    r
}

/// The variables that have a value, in their order.
pub open spec fn present<V>(names: Seq<Seq<char>>, values: Seq<Option<V>>) -> Seq<(Seq<char>, V)>
    decreases names.len(),
{
    if names.len() == 0 || names.len() != values.len() {
        seq![]
    } else {
        let before = present(names.drop_last(), values.drop_last());
        match values.last() {
            Some(v) => before.push((names.last(), v)),
            None => before,
        }
    }
}

pub open spec fn pairs_of<V>(pairs: Seq<(&'static str, V)>) -> Seq<(Seq<char>, V)> {
    Seq::new(pairs.len(), |i: int| (pairs[i].0@, pairs[i].1))
}

/// The environment of an app server: those of the variables that it may see which
/// have a value, with the values that a look-up gives. Nothing else is looked up.
pub fn codex_child_environment_values<V, F: Fn(&str) -> Option<V>>(lookup: F) -> (r: Vec<
    (&'static str, V),
>)
    requires
        forall|name: &str| call_requires(lookup, (name,)),
    ensures
        exists|values: Seq<Option<V>>, names: Seq<&'static str>|
            {
                &&& values.len() == child_variables().len()
                &&& names_of(names) == child_variables()
                &&& forall|i: int|
                    0 <= i < values.len() ==> call_ensures(
                        lookup,
                        (names[i],),
                        #[trigger] values[i],
                    )
                &&& pairs_of(r@) == #[trigger] present(names_of(names), values)
            },
{
    let names = child_variable_names();
    let mut r: Vec<(&'static str, V)> = Vec::new();
    let ghost mut values: Seq<Option<V>> = seq![];
    let mut i: usize = 0;
    assert(pairs_of(r@) =~= present(names_of(names@).take(0), values));
    while i < names.len()
        invariant
            i <= names@.len(),
            values.len() == i,
            names_of(names@) == child_variables(),
            forall|name: &str| call_requires(lookup, (name,)),
            forall|k: int|
                0 <= k < i ==> call_ensures(lookup, (names@[k],), #[trigger] values[k]),
            pairs_of(r@) == present(names_of(names@).take(i as int), values),
        decreases names@.len() - i,
    {
        let name = names[i];
        let value = lookup(name);
        let ghost before = values;
        proof {
            values = values.push(value);
            assert(values.drop_last() =~= before);
            assert(names_of(names@).take(i + 1).drop_last() =~= names_of(names@).take(i as int));
            assert(names_of(names@).take(i + 1).last() == name@);
        }
        if let Some(v) = value {
            let ghost old_pairs = r@;
            r.push((name, v));
            assert(pairs_of(r@) =~= pairs_of(old_pairs).push((name@, v)));
        }
        i += 1;
    }
    proof {
        assert(names_of(names@).take(i as int) =~= names_of(names@));
        assert(names_of(names@).len() == names@.len());
        assert(pairs_of(r@) == present(names_of(names@), values));
    }
    r
}

/// A variable that is not on the list never reaches an app server.
pub proof fn law_environment_is_listed<V>(names: Seq<Seq<char>>, values: Seq<Option<V>>, i: int)
    requires
        0 <= i < present(names, values).len(),
    ensures
        names.contains(present(names, values)[i].0),
    decreases names.len(),
{
    let before = present(names.drop_last(), values.drop_last());
    if i < before.len() {
        law_environment_is_listed(names.drop_last(), values.drop_last(), i);
        let name = before[i].0;
        let k = choose|k: int| 0 <= k < names.drop_last().len() && names.drop_last()[k] == name;
        assert(names[k] == name);
    } else {
        assert(names[names.len() - 1] == names.last());
    }
}

} // verus!
