//! Dependency resolution for Move packages: which packages a manifest
//! pulls in (local dependencies only), in which order, under which local
//! paths, and which named addresses they assign.

use vstd::prelude::*;
use vstd::string::{StrSliceExecFns, StringExecFns, StringSliceAdditionalSpecFns};
use vstd::utf8::{decode_utf8, encode_utf8, encode_utf8_decode_utf8, valid_utf8};

verus! {

/// A dependency fetched from a git repository.
#[derive(Debug)]
pub struct GitInfo {
    pub git_url: String,
    pub git_rev: String,
    pub subdir: String,
}

/// A dependency fetched from a node of a chain.
#[derive(Debug)]
pub struct CustomDepInfo {
    pub node_url: String,
    pub package_address: String,
    pub package_name: String,
    pub subdir: String,
}

/// Where a dependency comes from: a local directory, a git repository, or
/// a chain node.
#[derive(Debug)]
pub enum DependencyKind {
    Local(String),
    Git(GitInfo),
    Custom(CustomDepInfo),
}

/// A dependency as the manifest declares it.
#[derive(Debug)]
pub struct Dependency {
    pub kind: DependencyKind,
}

/// A package manifest (`Move.toml`) as far as dependency resolution reads
/// it: the package's name, its named addresses (assigned or not), its
/// development address assignments, and its dependencies and development
/// dependencies by name, in the manifest's order.
#[derive(Debug)]
pub struct SourceManifest {
    pub package_name: String,
    pub addresses: Option<Vec<(String, Option<Vec<u8>>)>>,
    pub dev_address_assignments: Option<Vec<(String, Vec<u8>)>>,
    pub dependencies: Vec<(String, Dependency)>,
    pub dev_dependencies: Vec<(String, Dependency)>,
}

/// A package that resolution reached, with the directory it was read
/// from (as the bytes of the operating system's path).
#[derive(Debug)]
pub struct DependencyInfo {
    pub source_manifest: SourceManifest,
    pub path: Vec<u8>,
}

/// The result of resolution: the Move source files to compile along with
/// the package, and the named addresses with their values.
#[derive(Debug)]
pub struct DependencyAndAccountAddress {
    pub compiler_dependency: Vec<String>,
    pub account_addresses: Vec<(String, Vec<u8>)>,
}

/// Why resolution fails.
#[derive(Copy, Clone, Debug, PartialEq, Eq, Structural)]
pub enum PackageError {
    /// A dependency is not local; only local dependencies are allowed in
    /// the manifest.
    NonLocalDependency,
    /// A path is not valid Unicode.
    NonUnicodePath,
    /// A named address that a manifest lists has no value (in development
    /// mode, neither in the address section nor among the development
    /// assignments).
    UnassignedAddress,
}

/// A named address and its value, as plain values.
pub open spec fn address_view(e: (String, Vec<u8>)) -> (Seq<char>, Seq<u8>) {
    (e.0@, e.1@)
}

/// A sequence of named addresses with their values, as plain values.
pub open spec fn addresses_view(s: Seq<(String, Vec<u8>)>) -> Seq<(Seq<char>, Seq<u8>)> {
    s.map_values(|e: (String, Vec<u8>)| address_view(e))
}

proof fn addresses_view_push(s: Seq<(String, Vec<u8>)>, e: (String, Vec<u8>))
    ensures
        addresses_view(s.push(e)) == addresses_view(s).push(address_view(e)),
{
    assert(addresses_view(s.push(e)) =~= addresses_view(s).push(address_view(e)));
}

/// The assigned named addresses of a manifest's address section, in
/// order (a name declared without a value has none here).
pub open spec fn assigned_addresses(s: Seq<(String, Option<Vec<u8>>)>) -> Seq<(Seq<char>, Seq<u8>)>
    decreases s.len(),
{
    if s.len() == 0 {
        seq![]
    } else {
        assigned_addresses(s.drop_last()) + match s.last().1 {
            Some(v) => seq![(s.last().0@, v@)],
            None => seq![],
        }
    }
}

/// The entries of a manifest's address section, with or without a value.
pub open spec fn listed_addresses(m: SourceManifest) -> Seq<(String, Option<Vec<u8>>)> {
    match m.addresses {
        Some(v) => v@,
        None => seq![],
    }
}

/// A manifest's development address assignments.
pub open spec fn dev_assignments(m: SourceManifest) -> Seq<(String, Vec<u8>)> {
    match m.dev_address_assignments {
        Some(v) => v@,
        None => seq![],
    }
}

/// The named addresses that a manifest contributes: the assigned entries
/// of its address section, then, in development mode, its development
/// assignments.
pub open spec fn manifest_addresses(m: SourceManifest, dev: bool) -> Seq<(Seq<char>, Seq<u8>)> {
    assigned_addresses(listed_addresses(m)) + if dev {
        addresses_view(dev_assignments(m))
    } else {
        seq![]
    }
}

/// The named addresses of all packages, package by package, in order.
pub open spec fn all_addresses(deps: Seq<DependencyInfo>, dev: bool) -> Seq<(Seq<char>, Seq<u8>)>
    decreases deps.len(),
{
    if deps.len() == 0 {
        seq![]
    } else {
        all_addresses(deps.drop_last(), dev) + manifest_addresses(deps.last().source_manifest, dev)
    }
}

/// The names of a sequence of named addresses.
pub open spec fn address_names(s: Seq<(Seq<char>, Seq<u8>)>) -> Seq<Seq<char>> {
    s.map_values(|e: (Seq<char>, Seq<u8>)| e.0)
}

/// Every name that the address section of one of the packages lists has a
/// value among `addrs`.
pub open spec fn listed_names_assigned(deps: Seq<DependencyInfo>, addrs: Seq<(Seq<char>, Seq<u8>)>) -> bool {
    forall|i: int, j: int|
        0 <= i < deps.len() && 0 <= j < listed_addresses(deps[i].source_manifest).len()
            ==> address_names(addrs).contains(
            (#[trigger] listed_addresses(deps[i].source_manifest)[j]).0@,
        )
}

/// The entry of an address section names `name` and carries the value
/// `value`.
pub open spec fn valued_entry(e: (String, Option<Vec<u8>>), name: Seq<char>, value: Seq<u8>) -> bool {
    e.0@ == name && (e.1 matches Some(v) && v@ == value)
}

/// The assigned addresses of an address section are exactly its entries
/// that carry a value, with that value.
pub proof fn assigned_addresses_are_the_valued_entries(
    s: Seq<(String, Option<Vec<u8>>)>,
    name: Seq<char>,
    value: Seq<u8>,
)
    ensures
        assigned_addresses(s).contains((name, value)) <==> exists|j: int|
            0 <= j < s.len() && valued_entry(#[trigger] s[j], name, value),
    decreases s.len(),
{
    if s.len() > 0 {
        let init = s.drop_last();
        assigned_addresses_are_the_valued_entries(init, name, value);
        let tail: Seq<(Seq<char>, Seq<u8>)> = match s.last().1 {
            Some(v) => seq![(s.last().0@, v@)],
            None => seq![],
        };
        assert(assigned_addresses(s) == assigned_addresses(init) + tail);
        if assigned_addresses(s).contains((name, value)) {
            let k = choose|k: int|
                0 <= k < assigned_addresses(s).len() && assigned_addresses(s)[k] == (name, value);
            if k < assigned_addresses(init).len() {
                assert(assigned_addresses(init)[k] == (name, value));
                let j = choose|j: int|
                    0 <= j < init.len() && valued_entry(#[trigger] init[j], name, value);
                assert(s[j] == init[j]);
            } else {
                assert(s[s.len() - 1] == s.last());
            }
        }
        if exists|j: int|
            0 <= j < s.len() && valued_entry(#[trigger] s[j], name, value) {
            let j = choose|j: int|
                0 <= j < s.len() && valued_entry(#[trigger] s[j], name, value);
            if j < init.len() {
                assert(init[j] == s[j]);
                let k = choose|k: int|
                    0 <= k < assigned_addresses(init).len() && assigned_addresses(init)[k] == (
                        name,
                        value,
                    );
                assert(assigned_addresses(s)[k] == (name, value));
            } else {
                assert(assigned_addresses(s)[assigned_addresses(s).len() - 1] == (name, value));
            }
        }
    }
}

/// The named addresses collected from the packages are exactly those
/// that some package contributes (see `manifest_addresses`).
pub proof fn all_addresses_are_the_packages_addresses(
    deps: Seq<DependencyInfo>,
    dev: bool,
    e: (Seq<char>, Seq<u8>),
)
    ensures
        all_addresses(deps, dev).contains(e) <==> exists|i: int|
            0 <= i < deps.len() && manifest_addresses((#[trigger] deps[i]).source_manifest, dev).contains(
                e,
            ),
    decreases deps.len(),
{
    if deps.len() > 0 {
        let init = deps.drop_last();
        all_addresses_are_the_packages_addresses(init, dev, e);
        let a = all_addresses(init, dev);
        let m = manifest_addresses(deps.last().source_manifest, dev);
        assert(all_addresses(deps, dev) == a + m);
        if all_addresses(deps, dev).contains(e) {
            let k = choose|k: int| 0 <= k < (a + m).len() && (a + m)[k] == e;
            if k < a.len() {
                assert(a[k] == e);
                let i = choose|i: int|
                    0 <= i < init.len() && manifest_addresses((#[trigger] init[i]).source_manifest, dev).contains(e);
                assert(deps[i] == init[i]);
            } else {
                assert(m[k - a.len()] == e);
                assert(deps[deps.len() - 1] == deps.last());
            }
        }
        if exists|i: int|
            0 <= i < deps.len() && manifest_addresses((#[trigger] deps[i]).source_manifest, dev).contains(e) {
            let i = choose|i: int|
                0 <= i < deps.len() && manifest_addresses((#[trigger] deps[i]).source_manifest, dev).contains(e);
            if i < init.len() {
                assert(init[i] == deps[i]);
                let k = choose|k: int| 0 <= k < a.len() && a[k] == e;
                assert((a + m)[k] == e);
            } else {
                let k = choose|k: int| 0 <= k < m.len() && m[k] == e;
                assert((a + m)[a.len() + k] == e);
            }
        }
    }
}

/// The text with each `/` replaced by `__` is the same text with its
/// slashes doubled into underscores: it holds no `/`, it leaves a text
/// without `/` as it is, it maps `/` to `__`, and it maps a concatenation
/// to the concatenation of the parts.
pub proof fn escape_slashes_laws(a: Seq<char>, b: Seq<char>)
    ensures
        !escape_slashes(a).contains('/'),
        !a.contains('/') ==> escape_slashes(a) == a,
        escape_slashes(seq!['/']) == seq!['_', '_'],
        escape_slashes(a + b) == escape_slashes(a) + escape_slashes(b),
    decreases b.len(),
{
    escape_no_slash(a);
    assert(seq!['/'].drop_last() =~= Seq::<char>::empty());
    assert(escape_slashes(Seq::<char>::empty()) == Seq::<char>::empty());
    assert(escape_slashes(seq!['/']) =~= seq!['_', '_']);
    if b.len() == 0 {
        assert(a + b =~= a);
        assert(escape_slashes(b) =~= Seq::<char>::empty());
        assert(escape_slashes(a) + escape_slashes(b) =~= escape_slashes(a));
    } else {
        escape_slashes_laws(a, b.drop_last());
        assert((a + b).drop_last() =~= a + b.drop_last());
        assert((a + b).last() == b.last());
    }
}

proof fn escape_no_slash(a: Seq<char>)
    ensures
        !escape_slashes(a).contains('/'),
        !a.contains('/') ==> escape_slashes(a) == a,
    decreases a.len(),
{
    if a.len() > 0 {
        escape_no_slash(a.drop_last());
        let init = escape_slashes(a.drop_last());
        let tail = if a.last() == '/' {
            seq!['_', '_']
        } else {
            seq![a.last()]
        };
        assert(escape_slashes(a) == init + tail);
        assert forall|k: int| 0 <= k < escape_slashes(a).len() implies escape_slashes(a)[k] != '/' by {
            if k < init.len() {
                assert(escape_slashes(a)[k] == init[k]);
            } else {
                assert(escape_slashes(a)[k] == tail[k - init.len()]);
            }
        }
        if !a.contains('/') {
            assert(!a.drop_last().contains('/')) by {
                if a.drop_last().contains('/') {
                    let k = choose|k: int| 0 <= k < a.drop_last().len() && a.drop_last()[k] == '/';
                    assert(a[k] == '/');
                }
            }
            assert(a[a.len() - 1] == a.last());
            assert(a =~= a.drop_last() + seq![a.last()]);
        }
    }
}

/// A URL's file name keeps its length and every character but `/`, `:`,
/// `.` and `@`, each of which becomes `_`; so it holds none of those four.
pub proof fn sanitized_url_laws(url: Seq<char>)
    ensures
        sanitized_url(url).len() == url.len(),
        forall|i: int|
            0 <= i < url.len() ==> (#[trigger] sanitized_url(url)[i] == if url[i] == '/' || url[i]
                == ':' || url[i] == '.' || url[i] == '@' {
                '_'
            } else {
                url[i]
            }),
        !sanitized_url(url).contains('/') && !sanitized_url(url).contains(':')
            && !sanitized_url(url).contains('.') && !sanitized_url(url).contains('@'),
{
}

/// A copy of a byte vector.
fn copy_bytes(v: &Vec<u8>) -> (r: Vec<u8>)
    ensures
        r@ == v@,
{
    let mut r: Vec<u8> = Vec::new();
    let mut i: usize = 0;
    while i < v.len()
        invariant
            0 <= i <= v.len(),
            r@ == v@.take(i as int),
        decreases v.len() - i,
    {
        r.push(v[i]);
        i = i + 1;
        assert(r@ == v@.take(i as int));
    }
    assert(v@.take(v@.len() as int) == v@);
    r
}

/// Appends the assigned entries of an address section.
fn push_assigned_addresses(out: &mut Vec<(String, Vec<u8>)>, v: &Vec<(String, Option<Vec<u8>>)>)
    ensures
        addresses_view(final(out)@) == addresses_view(old(out)@) + assigned_addresses(v@),
{
    let ghost start = addresses_view(out@);
    let mut i: usize = 0;
    while i < v.len()
        invariant
            0 <= i <= v.len(),
            addresses_view(out@) == start + assigned_addresses(v@.take(i as int)),
        decreases v.len() - i,
    {
        assert(v@.take(i + 1).drop_last() == v@.take(i as int));
        let ghost prev = out@;
        match &v[i].1 {
            Some(value) => {
                let name = v[i].0.clone();
                let value = copy_bytes(value);
                out.push((name, value));
                proof {
                    assert(out@ == prev.push((name, value)));
                    addresses_view_push(prev, (name, value));
                }
            },
            None => {},
        }
        i = i + 1;
        assert(addresses_view(out@) =~= start + assigned_addresses(v@.take(i as int)));
    }
    assert(v@.take(v@.len() as int) == v@);
}

/// Appends development address assignments.
fn push_dev_assignments(out: &mut Vec<(String, Vec<u8>)>, v: &Vec<(String, Vec<u8>)>)
    ensures
        addresses_view(final(out)@) == addresses_view(old(out)@) + addresses_view(v@),
{
    let ghost start = addresses_view(out@);
    let mut i: usize = 0;
    while i < v.len()
        invariant
            0 <= i <= v.len(),
            addresses_view(out@) == start + addresses_view(v@.take(i as int)),
        decreases v.len() - i,
    {
        let ghost prev = out@;
        let name = v[i].0.clone();
        let value = copy_bytes(&v[i].1);
        out.push((name, value));
        proof {
            assert(out@ == prev.push((name, value)));
            addresses_view_push(prev, (name, value));
            assert(v@.take(i + 1) == v@.take(i as int).push(v@[i as int]));
            addresses_view_push(v@.take(i as int), v@[i as int]);
        }
        i = i + 1;
        assert(addresses_view(out@) =~= start + addresses_view(v@.take(i as int)));
    }
    assert(v@.take(v@.len() as int) == v@);
}

/// Appends the named addresses that a manifest contributes.
fn push_manifest_addresses(out: &mut Vec<(String, Vec<u8>)>, m: &SourceManifest, dev: bool)
    ensures
        addresses_view(final(out)@) == addresses_view(old(out)@) + manifest_addresses(*m, dev),
{
    let ghost start = addresses_view(out@);
    match &m.addresses {
        Some(v) => push_assigned_addresses(out, v),
        None => {},
    }
    let ghost mid = addresses_view(out@);
    assert(mid == start + assigned_addresses(listed_addresses(*m)));
    if dev {
        match &m.dev_address_assignments {
            Some(v) => push_dev_assignments(out, v),
            None => {},
        }
        assert(addresses_view(out@) == mid + addresses_view(dev_assignments(*m)));
    }
    assert(addresses_view(out@) =~= start + manifest_addresses(*m, dev));
}

/// Whether a named address of that name is among `addrs`.
fn has_address_name(addrs: &Vec<(String, Vec<u8>)>, name: &String) -> (b: bool)
    ensures
        b == address_names(addresses_view(addrs@)).contains(name@),
{
    let ghost names = address_names(addresses_view(addrs@));
    let mut k: usize = 0;
    while k < addrs.len()
        invariant
            0 <= k <= addrs.len(),
            names == address_names(addresses_view(addrs@)),
            names.len() == addrs@.len(),
            forall|l: int| 0 <= l < k ==> names[l] != name@,
        decreases addrs.len() - k,
    {
        if addrs[k].0 == *name {
            assert(names[k as int] == name@);
            return true;
        }
        k = k + 1;
    }
    false
}

/// Whether every name that the address section of one of the packages
/// lists has a value among `addrs`.
fn all_listed_assigned(deps: &Vec<DependencyInfo>, addrs: &Vec<(String, Vec<u8>)>) -> (b: bool)
    ensures
        b == listed_names_assigned(deps@, addresses_view(addrs@)),
{
    let ghost a = addresses_view(addrs@);
    let mut i: usize = 0;
    while i < deps.len()
        invariant
            0 <= i <= deps.len(),
            a == addresses_view(addrs@),
            forall|i2: int, j: int|
                0 <= i2 < i && 0 <= j < listed_addresses(deps@[i2].source_manifest).len()
                    ==> address_names(a).contains(
                    (#[trigger] listed_addresses(deps@[i2].source_manifest)[j]).0@,
                ),
        decreases deps.len() - i,
    {
        match &deps[i].source_manifest.addresses {
            Some(v) => {
                let mut j: usize = 0;
                while j < v.len()
                    invariant
                        0 <= i < deps.len(),
                        0 <= j <= v.len(),
                        a == addresses_view(addrs@),
                        deps@[i as int].source_manifest.addresses == Some(*v),
                        forall|i2: int, j2: int|
                            0 <= i2 < i && 0 <= j2 < listed_addresses(deps@[i2].source_manifest).len()
                                ==> address_names(a).contains(
                                (#[trigger] listed_addresses(deps@[i2].source_manifest)[j2]).0@,
                            ),
                        forall|j2: int|
                            0 <= j2 < j ==> address_names(a).contains(
                                (#[trigger] listed_addresses(deps@[i as int].source_manifest)[j2]).0@,
                            ),
                    decreases v.len() - j,
                {
                    if !has_address_name(addrs, &v[j].0) {
                        assert(listed_addresses(deps@[i as int].source_manifest)[j as int] == v@[j as int]);
                        return false;
                    }
                    j = j + 1;
                }
            },
            None => {},
        }
        i = i + 1;
    }
    true
}

/// The named addresses of the resolved packages, package by package in
/// resolution order: each package's assigned addresses, then, in
/// development mode, its development assignments. Every name that a
/// package's address section lists gets a numerical address:
/// `UnassignedAddress` where one of them has no value among these.
pub fn collect_account_addresses(deps: &Vec<DependencyInfo>, dev: bool) -> (r: Result<
    Vec<(String, Vec<u8>)>,
    PackageError,
>)
    ensures
        r is Ok <==> listed_names_assigned(deps@, all_addresses(deps@, dev)),
        r matches Ok(v) ==> addresses_view(v@) == all_addresses(deps@, dev),
        r is Err ==> r == Err::<Vec<(String, Vec<u8>)>, PackageError>(
            PackageError::UnassignedAddress,
        ),
{
    let mut r: Vec<(String, Vec<u8>)> = Vec::new();
    let mut i: usize = 0;
    while i < deps.len()
        invariant
            0 <= i <= deps.len(),
            addresses_view(r@) == all_addresses(deps@.take(i as int), dev),
        decreases deps.len() - i,
    {
        assert(deps@.take(i + 1).drop_last() == deps@.take(i as int));
        push_manifest_addresses(&mut r, &deps[i].source_manifest, dev);
        i = i + 1;
    }
    assert(deps@.take(deps@.len() as int) == deps@);
    if all_listed_assigned(deps, &r) {
        Ok(r)
    } else {
        Err(PackageError::UnassignedAddress)
    }
}

/// Whether a dependency may be resolved: only local dependencies may.
pub fn check_local_dependency(dep: &Dependency) -> (r: Result<(), PackageError>)
    ensures
        r is Ok <==> dep.kind is Local,
        r is Err ==> r == Err::<(), PackageError>(PackageError::NonLocalDependency),
{
    match &dep.kind {
        DependencyKind::Local(_) => Ok(()),
        _ => Err(PackageError::NonLocalDependency),
    }
}

/// Trusted: `std::str::from_utf8`, which succeeds exactly on valid UTF-8
/// and then yields the string whose encoding is the given bytes.
#[verifier::external_body]
fn str_from_utf8(bytes: &[u8]) -> (r: Option<&str>)
    ensures
        r is Some <==> valid_utf8(bytes@),
        r matches Some(s) ==> s.spec_bytes() == bytes@,
{
    std::str::from_utf8(bytes).ok()
}

/// The path (given as the bytes of the operating system's path) as a
/// string: the text that its bytes encode in UTF-8, or
/// `NonUnicodePath` where they are not valid UTF-8.
pub fn path_to_string(path: &[u8]) -> (r: Result<String, PackageError>)
    ensures
        r is Ok <==> valid_utf8(path@),
        r matches Ok(s) ==> s@ == decode_utf8(path@),
        r is Err ==> r == Err::<String, PackageError>(PackageError::NonUnicodePath),
{
    match str_from_utf8(path) {
        Some(s) => {
            proof {
                encode_utf8_decode_utf8(s@);
            }
            Ok(s.to_owned())
        },
        None => Err(PackageError::NonUnicodePath),
    }
}


/// A sequence of strings as plain values.
pub open spec fn strings_view(s: Seq<String>) -> Seq<Seq<char>> {
    s.map_values(|x: String| x@)
}

/// The name of what `regex::Regex::new(pattern)` followed by
/// `replace_all(haystack, replacement)` yields: `None` where the pattern
/// does not compile, else the haystack with every non-overlapping match of
/// the pattern replaced.
pub uninterp spec fn regex_replace_all_result(
    pattern: Seq<char>,
    haystack: Seq<char>,
    replacement: Seq<char>,
) -> Option<Seq<char>>;

/// The character that a URL's character becomes in a file name: `_` for
/// `/`, `:`, `.` and `@`, itself otherwise.
pub open spec fn file_name_char(c: char) -> char {
    if c == '/' || c == ':' || c == '.' || c == '@' {
        '_'
    } else {
        c
    }
}

/// The file name made from a URL: each character mapped by
/// `file_name_char`.
pub open spec fn sanitized_url(url: Seq<char>) -> Seq<char> {
    url.map_values(|c: char| file_name_char(c))
}

/// Trusted: compiles `pattern` with `regex::Regex::new` and, where it
/// compiles, replaces all its matches in `haystack` with `replacement`
/// (`Regex::replace_all`). The result is a function of the three strings
/// alone, named by `regex_replace_all_result`. For the pattern `/|:|\.|@`
/// (an alternation of four one-character literals, which compiles) and the
/// replacement `_` (which holds no `$` group reference), the regex crate's
/// documented semantics give the result in full: every occurrence of one of
/// the four characters is a match of its own and becomes `_`, and every
/// other character stays (`sanitized_url`). Of other patterns nothing more
/// than the name is claimed.
#[verifier::external_body]
fn regex_replace_all(pattern: &str, haystack: &str, replacement: &str) -> (r: Option<String>)
    ensures
        match r {
            Some(s) => regex_replace_all_result(pattern@, haystack@, replacement@) == Some(s@),
            None => regex_replace_all_result(pattern@, haystack@, replacement@) is None,
        },
        pattern@ == url_separators() && replacement@ == "_"@ ==> r is Some && r.unwrap()@
            == sanitized_url(haystack@),
{
    match regex::Regex::new(pattern) {
        Ok(re) => Some(re.replace_all(haystack, replacement).to_string()),
        Err(_) => None,
    }
}

/// The pattern of the characters that cannot stand in a file name made
/// from a URL: `/`, `:`, `.` and `@`.
pub open spec fn url_separators() -> Seq<char> {
    "/|:|\\.|@"@
}

/// A file name made from a URL, by replacing each `/`, `:`, `.` and `@`
/// with `_` through the regular expression `/|:|\.|@`.
pub fn url_to_file_name(url: &str) -> (r: String)
    ensures
        r@ == sanitized_url(url@),
{
    match regex_replace_all("/|:|\\.|@", url, "_") {
        Some(s) => s,
        None => String::new(),
    }
}

/// The text with every `/` replaced by `__`.
pub open spec fn escape_slashes(s: Seq<char>) -> Seq<char>
    decreases s.len(),
{
    if s.len() == 0 {
        seq![]
    } else {
        escape_slashes(s.drop_last()) + if s.last() == '/' {
            seq!['_', '_']
        } else {
            seq![s.last()]
        }
    }
}

/// The text with every `/` replaced by `__`.
pub fn replace_slashes(s: &str) -> (r: String)
    ensures
        r@ == escape_slashes(s@),
{
    let n = s.unicode_len();
    let mut r = String::new();
    let mut i: usize = 0;
    while i < n
        invariant
            0 <= i <= n,
            n == s@.len(),
            r@ == escape_slashes(s@.take(i as int)),
        decreases n - i,
    {
        assert(s@.take(i + 1).drop_last() == s@.take(i as int));
        let c = s.get_char(i);
        if c == '/' {
            r.append("__");
            proof {
                reveal_strlit("__");
            }
        } else {
            r.append(s.substring_char(i, i + 1));
            assert(s@.subrange(i as int, i + 1) == seq![c]);
        }
        i = i + 1;
    }
    assert(s@.take(n as int) == s@);
    r
}

/// The directory name under which a git dependency is fetched: the
/// sanitized URL, `_`, and the revision with each `/` replaced by `__`.
pub fn git_repository_dir(sanitized_url: &str, git_rev: &str) -> (r: String)
    ensures
        r@ == sanitized_url@ + "_"@ + escape_slashes(git_rev@),
{
    let mut r = String::from_str(sanitized_url);
    r.append("_");
    let rev = replace_slashes(git_rev);
    r.append(rev.as_str());
    r
}

/// The directory name under which a chain dependency is fetched: the
/// sanitized node URL, the package address and the package name, joined
/// by `_`.
pub fn custom_repository_dir(sanitized_url: &str, package_address: &str, package_name: &str) -> (r:
    String)
    ensures
        r@ == sanitized_url@ + "_"@ + package_address@ + "_"@ + package_name@,
{
    let mut r = String::from_str(sanitized_url);
    r.append("_");
    r.append(package_address);
    r.append("_");
    r.append(package_name);
    r
}

/// The path components, to be joined in order, of the local repository
/// that holds a dependency: the dependency's own path where it is local,
/// else the Move home directory and a directory named after the source
/// (see `git_repository_dir` and `custom_repository_dir`), with the URL
/// sanitized by `url_to_file_name`.
pub open spec fn repository_path_of(kind: DependencyKind, move_home: Seq<char>) -> Seq<Seq<char>> {
    match kind {
        DependencyKind::Local(p) => seq![p@],
        DependencyKind::Git(g) => seq![
            move_home,
            sanitized_url(g.git_url@) + "_"@ + escape_slashes(g.git_rev@),
        ],
        DependencyKind::Custom(c) => seq![
            move_home,
            sanitized_url(c.node_url@) + "_"@ + c.package_address@ + "_"@ + c.package_name@,
        ],
    }
}

/// The path components of the local repository that holds a dependency.
pub fn repository_path(kind: &DependencyKind, move_home: &str) -> (r: Vec<String>)
    ensures
        strings_view(r@) == repository_path_of(*kind, move_home@),
{
    match kind {
        DependencyKind::Local(p) => {
            let mut v: Vec<String> = Vec::new();
            v.push(p.clone());
            assert(strings_view(v@) =~= seq![p@]);
            v
        },
        DependencyKind::Git(g) => {
            let u = url_to_file_name(g.git_url.as_str());
            let mut v: Vec<String> = Vec::new();
            v.push(String::from_str(move_home));
            v.push(git_repository_dir(u.as_str(), g.git_rev.as_str()));
            assert(strings_view(v@) =~= seq![
                move_home@,
                u@ + "_"@ + escape_slashes(g.git_rev@),
            ]);
            v
        },
        DependencyKind::Custom(c) => {
            let u = url_to_file_name(c.node_url.as_str());
            let mut v: Vec<String> = Vec::new();
            v.push(String::from_str(move_home));
            v.push(
                custom_repository_dir(
                    u.as_str(),
                    c.package_address.as_str(),
                    c.package_name.as_str(),
                ),
            );
            assert(strings_view(v@) =~= seq![
                move_home@,
                u@ + "_"@ + c.package_address@ + "_"@ + c.package_name@,
            ]);
            v
        },
    }
}

/// The path components of the directory where a dependency is found once
/// fetched: its repository, then its subdirectory for git and chain
/// dependencies.
pub open spec fn local_path_of(kind: DependencyKind, move_home: Seq<char>) -> Seq<Seq<char>> {
    let p = repository_path_of(kind, move_home);
    match kind {
        DependencyKind::Git(g) => p.push(g.subdir@),
        DependencyKind::Custom(c) => p.push(c.subdir@),
        DependencyKind::Local(_) => p,
    }
}

/// The path components of the directory where a dependency is found.
pub fn local_path(kind: &DependencyKind, move_home: &str) -> (r: Vec<String>)
    ensures
        strings_view(r@) == local_path_of(*kind, move_home@),
{
    let mut v = repository_path(kind, move_home);
    let ghost before = v@;
    match kind {
        DependencyKind::Git(g) => v.push(g.subdir.clone()),
        DependencyKind::Custom(c) => v.push(c.subdir.clone()),
        DependencyKind::Local(_) => {},
    }
    assert(match kind {
        DependencyKind::Local(_) => strings_view(v@) == strings_view(before),
        DependencyKind::Git(g) => strings_view(v@) =~= strings_view(before).push(g.subdir@),
        DependencyKind::Custom(c) => strings_view(v@) =~= strings_view(before).push(c.subdir@),
    });
    v
}


/// The path `base` with `comp` pushed onto it, as `PathBuf::push`
/// documents it for Unix paths (bytes, `/` the separator): an absolute
/// `comp` (one that starts with `/`) replaces `base`; otherwise a `/` is
/// added where `base` is not empty and does not end with one, then `comp`
/// is appended.
pub open spec fn path_push(base: Seq<u8>, comp: Seq<u8>) -> Seq<u8> {
    if comp.len() > 0 && comp[0] == 47u8 {
        comp
    } else if base.len() > 0 && base.last() != 47u8 {
        base + seq![47u8] + comp
    } else {
        base + comp
    }
}

/// The path made of the components, pushed one after another onto an
/// empty path (as collecting them into a `PathBuf` does).
pub open spec fn joined_path(components: Seq<Seq<u8>>) -> Seq<u8>
    decreases components.len(),
{
    if components.len() == 0 {
        seq![]
    } else {
        path_push(joined_path(components.drop_last()), components.last())
    }
}

/// The UTF-8 bytes of each text.
pub open spec fn utf8_components(components: Seq<Seq<char>>) -> Seq<Seq<u8>> {
    components.map_values(|c: Seq<char>| encode_utf8(c))
}

/// The directory that a dependency of kind `kind` of the package read
/// from directory `parent` is read from: the dependency's local path
/// (see `local_path_of`) pushed onto the parent's directory.
pub open spec fn dependency_root_of(parent: Seq<u8>, kind: DependencyKind, move_home: Seq<char>) -> Seq<u8> {
    path_push(parent, joined_path(utf8_components(local_path_of(kind, move_home))))
}

/// Pushes `comp` onto the path (see `path_push`).
fn push_path(path: &mut Vec<u8>, comp: &[u8])
    ensures
        final(path)@ == path_push(old(path)@, comp@),
{
    if comp.len() > 0 && comp[0] == 47u8 {
        *path = Vec::new();
    } else if path.len() > 0 && path[path.len() - 1] != 47u8 {
        path.push(47u8);
    }
    let ghost start = path@;
    let mut i: usize = 0;
    while i < comp.len()
        invariant
            0 <= i <= comp@.len(),
            path@ == start + comp@.take(i as int),
        decreases comp.len() - i,
    {
        path.push(comp[i]);
        i = i + 1;
        assert(path@ =~= start + comp@.take(i as int));
    }
    assert(comp@.take(comp@.len() as int) =~= comp@);
}

/// The directory that a dependency of kind `kind` of the package read
/// from directory `parent` is read from (see `dependency_root_of`).
pub fn dependency_root(parent: &[u8], kind: &DependencyKind, move_home: &str) -> (r: Vec<u8>)
    ensures
        r@ == dependency_root_of(parent@, *kind, move_home@),
{
    let components = local_path(kind, move_home);
    let ghost cs = utf8_components(strings_view(components@));
    let mut rel: Vec<u8> = Vec::new();
    let mut i: usize = 0;
    while i < components.len()
        invariant
            0 <= i <= components@.len(),
            cs == utf8_components(strings_view(components@)),
            rel@ == joined_path(cs.take(i as int)),
        decreases components.len() - i,
    {
        let ghost before = rel@;
        push_path(&mut rel, components[i].as_str().as_bytes());
        assert(cs.take(i + 1).drop_last() =~= cs.take(i as int));
        i = i + 1;
    }
    assert(cs.take(components@.len() as int) =~= cs);
    let mut r: Vec<u8> = Vec::new();
    push_path(&mut r, parent);
    assert(r@ =~= parent@);
    push_path(&mut r, rel.as_slice());
    r
}

/// A dependency of a reached package: the package's position in
/// resolution order, whether the dependency is a development dependency,
/// and its position among the package's dependencies of that sort.
#[derive(Copy, Clone, Debug, PartialEq, Eq, Structural)]
pub struct DependencyRef {
    pub package: usize,
    pub dev: bool,
    pub index: usize,
}

/// The dependency of a manifest that a reference names.
pub open spec fn referenced_dependency(m: SourceManifest, d: DependencyRef) -> (String, Dependency) {
    if d.dev {
        m.dev_dependencies@[d.index as int]
    } else {
        m.dependencies@[d.index as int]
    }
}

/// The reference names a dependency that resolution follows of one of the
/// reached packages: a dependency, or in development mode also a
/// development dependency.
pub open spec fn ref_in_range(packages: Seq<DependencyInfo>, dev_mode: bool, d: DependencyRef) -> bool {
    &&& d.package < packages.len()
    &&& if d.dev {
        dev_mode && d.index < packages[d.package as int].source_manifest.dev_dependencies@.len()
    } else {
        d.index < packages[d.package as int].source_manifest.dependencies@.len()
    }
}

/// The names of the reached packages, in order.
pub open spec fn package_names(ps: Seq<DependencyInfo>) -> Seq<Seq<char>> {
    ps.map_values(|p: DependencyInfo| p.source_manifest.package_name@)
}

/// The references to the `k` dependencies of one sort of package `p`,
/// last first.
pub open spec fn refs_last_first(p: usize, dev: bool, k: nat) -> Seq<DependencyRef> {
    Seq::new(k, |j: int| DependencyRef { package: p, dev, index: (k - 1 - j) as usize })
}

/// The references that become pending when package `p` with manifest `m`
/// is reached: stacked so that its dependencies are taken up first to
/// last, then (in development mode) its development dependencies first to
/// last.
pub open spec fn pending_refs(p: usize, m: SourceManifest, dev_mode: bool) -> Seq<DependencyRef> {
    (if dev_mode {
        refs_last_first(p, true, m.dev_dependencies@.len())
    } else {
        seq![]
    }) + refs_last_first(p, false, m.dependencies@.len())
}

/// The reached packages and the pending references after the walker takes
/// up package `info`: unchanged where a package of that name has been
/// reached; otherwise `info` is recorded and its dependencies become
/// pending (see `pending_refs`).
pub open spec fn visit_state(
    packages: Seq<DependencyInfo>,
    pending: Seq<DependencyRef>,
    dev_mode: bool,
    info: DependencyInfo,
) -> (Seq<DependencyInfo>, Seq<DependencyRef>) {
    if package_names(packages).contains(info.source_manifest.package_name@) {
        (packages, pending)
    } else {
        (
            packages.push(info),
            pending + pending_refs(packages.len() as usize, info.source_manifest, dev_mode),
        )
    }
}

/// The references to the dependencies that resolution follows of package
/// `p` with manifest `m`, in the order in which the manifest lists them:
/// its dependencies, then (in development mode) its development
/// dependencies.
pub open spec fn followed_refs(p: usize, m: SourceManifest, dev_mode: bool) -> Seq<DependencyRef> {
    Seq::new(
        m.dependencies@.len(),
        |i: int| DependencyRef { package: p, dev: false, index: i as usize },
    ) + if dev_mode {
        Seq::new(
            m.dev_dependencies@.len(),
            |i: int| DependencyRef { package: p, dev: true, index: i as usize },
        )
    } else {
        seq![]
    }
}

/// The dependencies of a reached package are taken up in the order in
/// which its manifest lists them, then, in development mode, its
/// development dependencies in theirs: the references that `visit` stacks
/// come off the stack in that order.
pub proof fn pending_refs_follow_manifest_order(p: usize, m: SourceManifest, dev_mode: bool)
    ensures
        pending_refs(p, m, dev_mode).reverse() == followed_refs(p, m, dev_mode),
{
    let s = pending_refs(p, m, dev_mode);
    let f = followed_refs(p, m, dev_mode);
    let nd = m.dependencies@.len();
    let ndev: nat = if dev_mode {
        m.dev_dependencies@.len()
    } else {
        0
    };
    assert(s.len() == nd + ndev);
    assert(f.len() == nd + ndev);
    assert forall|i: int| 0 <= i < f.len() implies #[trigger] s.reverse()[i] == f[i] by {
        if i < nd {
            assert(s[s.len() - 1 - i] == refs_last_first(p, false, nd)[nd - 1 - i]);
        } else {
            assert(s[s.len() - 1 - i] == refs_last_first(p, true, ndev)[ndev + nd - 1 - i]);
        }
    }
    assert(s.reverse() =~= f);
}

/// Resolution of the dependencies of a package, depth first: each reached
/// package is recorded once, in the order in which it is first reached,
/// and its dependencies (then, in development mode, its development
/// dependencies) are taken up one after another, each with all that it
/// pulls in before the next. The walker decides; its user reads each
/// requested manifest and hands it back with `visit`.
pub struct DependencyWalker {
    dev_mode: bool,
    packages: Vec<DependencyInfo>,
    pending: Vec<DependencyRef>,
}

impl DependencyWalker {
    /// Whether development dependencies are followed.
    pub closed spec fn in_dev_mode(&self) -> bool {
        self.dev_mode
    }

    /// The reached packages, in the order in which they were first reached.
    pub closed spec fn packages(&self) -> Seq<DependencyInfo> {
        self.packages@
    }

    /// The dependencies still to be taken up; the last is taken up next.
    pub closed spec fn pending(&self) -> Seq<DependencyRef> {
        self.pending@
    }

    /// The reached packages have distinct names and every pending
    /// reference names a followed dependency of a reached package.
    #[verifier::type_invariant]
    closed spec fn well_formed(&self) -> bool {
        &&& package_names(self.packages@).no_duplicates()
        &&& forall|i: int|
            0 <= i < self.pending@.len() ==> ref_in_range(
                self.packages@,
                self.dev_mode,
                #[trigger] self.pending@[i],
            )
    }

    /// A walker that has reached nothing yet.
    pub fn new(dev_mode: bool) -> (r: Self)
        ensures
            r.in_dev_mode() == dev_mode,
            r.packages() == Seq::<DependencyInfo>::empty(),
            r.pending() == Seq::<DependencyRef>::empty(),
            package_names(r.packages()).no_duplicates(),
    {
        let r = DependencyWalker { dev_mode, packages: Vec::new(), pending: Vec::new() };
        assert(package_names(r.packages@) =~= Seq::<Seq<char>>::empty());
        r
    }

    /// Whether a package of this name has been reached.
    fn has_package(&self, name: &String) -> (r: bool)
        ensures
            r == package_names(self.packages()).contains(name@),
    {
        let mut i: usize = 0;
        while i < self.packages.len()
            invariant
                0 <= i <= self.packages@.len(),
                forall|j: int| 0 <= j < i ==> package_names(self.packages@)[j] != name@,
            decreases self.packages@.len() - i,
        {
            if self.packages[i].source_manifest.package_name == *name {
                assert(package_names(self.packages@)[i as int] == name@);
                return true;
            }
            i = i + 1;
        }
        false
    }

    /// Takes up the manifest of a package read from directory `root`: where
    /// a package of that name has been reached already, nothing changes and
    /// `false` is returned; otherwise the package is recorded and the
    /// dependencies that it declares become pending (see `pending_refs`),
    /// to be taken up before anything pending earlier.
    pub fn visit(&mut self, manifest: SourceManifest, root: Vec<u8>) -> (added: bool)
        ensures
            added == !package_names(old(self).packages()).contains(manifest.package_name@),
            final(self).in_dev_mode() == old(self).in_dev_mode(),
            added ==> final(self).packages() == old(self).packages().push(
                DependencyInfo { source_manifest: manifest, path: root },
            ),
            added ==> final(self).pending() == old(self).pending() + pending_refs(
                old(self).packages().len() as usize,
                manifest,
                old(self).in_dev_mode(),
            ),
            !added ==> final(self).packages() == old(self).packages() && final(self).pending()
                == old(self).pending(),
            (final(self).packages(), final(self).pending()) == visit_state(
                old(self).packages(),
                old(self).pending(),
                old(self).in_dev_mode(),
                DependencyInfo { source_manifest: manifest, path: root },
            ),
            package_names(final(self).packages()).no_duplicates(),
    {
        proof {
            use_type_invariant(&*self);
        }
        if self.has_package(&manifest.package_name) {
            return false;
        }
        let n = self.packages.len();
        let nd = manifest.dependencies.len();
        let ndev = if self.dev_mode {
            manifest.dev_dependencies.len()
        } else {
            0
        };
        let dev_mode = self.dev_mode;
        let ghost old_pending = self.pending@;
        let ghost old_packages = self.packages@;
        let ghost info = DependencyInfo { source_manifest: manifest, path: root };
        let ghost refs = pending_refs(n, manifest, dev_mode);
        let ghost dev_refs = refs_last_first(n, true, ndev as nat);
        let ghost dep_refs = refs_last_first(n, false, nd as nat);
        assert(refs == dev_refs + dep_refs);
        let mut pending = Vec::new();
        std::mem::swap(&mut pending, &mut self.pending);
        let mut packages = Vec::new();
        std::mem::swap(&mut packages, &mut self.packages);
        packages.push(DependencyInfo { source_manifest: manifest, path: root });
        proof {
            assert(package_names(packages@) =~= package_names(old_packages).push(
                info.source_manifest.package_name@,
            ));
        }
        let mut j: usize = 0;
        while j < ndev
            invariant
                0 <= j <= ndev,
                dev_refs == refs_last_first(n, true, ndev as nat),
                packages@ == old_packages.push(info),
                pending@ == old_pending + dev_refs.take(j as int),
            decreases ndev - j,
        {
            pending.push(DependencyRef { package: n, dev: true, index: ndev - 1 - j });
            j = j + 1;
            assert(pending@ =~= old_pending + dev_refs.take(j as int));
        }
        assert(dev_refs.take(ndev as int) == dev_refs);
        let mut j: usize = 0;
        while j < nd
            invariant
                0 <= j <= nd,
                dep_refs == refs_last_first(n, false, nd as nat),
                packages@ == old_packages.push(info),
                pending@ == old_pending + dev_refs + dep_refs.take(j as int),
            decreases nd - j,
        {
            pending.push(DependencyRef { package: n, dev: false, index: nd - 1 - j });
            j = j + 1;
            assert(pending@ =~= old_pending + dev_refs + dep_refs.take(j as int));
        }
        assert(dep_refs.take(nd as int) == dep_refs);
        assert(pending@ =~= old_pending + refs);
        proof {
            assert forall|i: int| 0 <= i < pending@.len() implies ref_in_range(
                packages@,
                dev_mode,
                #[trigger] pending@[i],
            ) by {
                if i < old_pending.len() {
                    assert(pending@[i] == old_pending[i]);
                    assert(ref_in_range(old_packages, dev_mode, old_pending[i]));
                    assert(packages@[old_pending[i].package as int] == old_packages[old_pending[i].package as int]);
                } else {
                    assert(packages@[n as int] == info);
                }
            }
        }
        self.packages = packages;
        self.pending = pending;
        true
    }

    /// Takes up the next pending dependency: `None` where nothing is
    /// pending; otherwise the last pending reference is removed and
    /// returned where it names a local dependency, and
    /// `NonLocalDependency` is returned for any other.
    pub fn next_request(&mut self) -> (r: Option<Result<DependencyRef, PackageError>>)
        ensures
            final(self).in_dev_mode() == old(self).in_dev_mode(),
            final(self).packages() == old(self).packages(),
            old(self).pending().len() == 0 ==> r is None && final(self).pending() == old(
                self,
            ).pending(),
            old(self).pending().len() > 0 ==> {
                let d = old(self).pending().last();
                &&& final(self).pending() == old(self).pending().drop_last()
                &&& r == Some(
                    if referenced_dependency(
                        old(self).packages()[d.package as int].source_manifest,
                        d,
                    ).1.kind is Local {
                        Ok::<DependencyRef, PackageError>(d)
                    } else {
                        Err(PackageError::NonLocalDependency)
                    },
                )
            },
            r matches Some(Ok(d)) ==> ref_in_range(final(self).packages(), final(self).in_dev_mode(), d),
            package_names(final(self).packages()).no_duplicates(),
    {
        proof {
            use_type_invariant(&*self);
        }
        if self.pending.len() == 0 {
            return None;
        }
        let d = self.pending[self.pending.len() - 1];
        assert(ref_in_range(self.packages@, self.dev_mode, self.pending@[self.pending@.len() - 1]));
        let dep = self.dependency(d);
        let checked = check_local_dependency(&dep.1);
        let mut pending = Vec::new();
        std::mem::swap(&mut pending, &mut self.pending);
        pending.pop();
        self.pending = pending;
        match checked {
            Ok(()) => Some(Ok(d)),
            Err(e) => Some(Err(e)),
        }
    }

    /// A followed dependency of a reached package, with its name.
    pub fn dependency(&self, d: DependencyRef) -> (r: &(String, Dependency))
        requires
            ref_in_range(self.packages(), self.in_dev_mode(), d),
        ensures
            *r == referenced_dependency(self.packages()[d.package as int].source_manifest, d),
    {
        let m = &self.packages[d.package].source_manifest;
        if d.dev {
            &m.dev_dependencies[d.index]
        } else {
            &m.dependencies[d.index]
        }
    }

    /// The directory that the dependency `d` is read from: its local path
    /// pushed onto the directory of the package that declares it.
    pub fn child_root(&self, d: DependencyRef, move_home: &str) -> (r: Vec<u8>)
        requires
            ref_in_range(self.packages(), self.in_dev_mode(), d),
        ensures
            r@ == dependency_root_of(
                self.packages()[d.package as int].path@,
                referenced_dependency(self.packages()[d.package as int].source_manifest, d).1.kind,
                move_home@,
            ),
    {
        let dep = self.dependency(d);
        dependency_root(self.packages[d.package].path.as_slice(), &dep.1.kind, move_home)
    }

    /// A reached package.
    pub fn package(&self, i: usize) -> (r: &DependencyInfo)
        requires
            i < self.packages().len(),
        ensures
            *r == self.packages()[i as int],
    {
        &self.packages[i]
    }

    /// The reached packages, in the order in which they were first reached.
    pub fn into_packages(self) -> (r: Vec<DependencyInfo>)
        ensures
            r@ == self.packages(),
    {
        self.packages
    }
}

} // verus!
