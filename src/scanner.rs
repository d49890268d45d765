use crate::models::{
    canon_file_name, canon_name, checksum_file_name, AgentFiles, ChecksumEntry, AgentInfo, AgentLimits,
    AgentRoutes, RunState, Verification, CANON_COUNT,
};
use crate::text::{
    ends_with, hyphenate, hyphenate_str, str_ends_with, strip_suffix_all, strip_suffix_str, trim,
    trim_str,
};
use vstd::prelude::*;
use vstd::string::*;

verus! {

/// The ending that marks a directory as an agent bundle.
pub open spec fn bundle_suffix() -> Seq<char> {
    ".3ox"@
}

/// The name of what `str::to_lowercase` returns for `s`.
pub uninterp spec fn lower_of(s: Seq<char>) -> Seq<char>;

/// Relies on `str::to_lowercase`: its result depends on the characters alone.
#[verifier::external_body]
fn lowercase(s: &str) -> (r: String)
    ensures
        r@ == lower_of(s@),
{
    s.to_lowercase()
}

/// The name of the lowercase hex SHA-256 digest of `b`.
pub uninterp spec fn sha256_hex_of(b: Seq<u8>) -> Seq<char>;

/// Relies on `sha2::Sha256`: the digest of the bytes, written as lowercase hex.
#[verifier::external_body]
fn sha256_hex(content: &Vec<u8>) -> (r: String)
    ensures
        r@ == sha256_hex_of(content@),
{
    format!("{:x}", <sha2::Sha256 as sha2::Digest>::digest(content.as_slice()))
}

/// Whether target `i` of a checksum list matches the digest computed for it.
pub open spec fn digest_matches(
    checksums: Seq<ChecksumEntry>,
    actual: Seq<Option<String>>,
    i: int,
) -> bool {
    i < actual.len() && actual[i].is_some() && actual[i].unwrap()@ == checksums[i].digest@
}

/// Whether target `i` of a checksum list was read and hashes to its declared digest.
pub open spec fn content_matches(
    checksums: Seq<ChecksumEntry>,
    contents: Seq<Option<Vec<u8>>>,
    i: int,
) -> bool {
    i < contents.len() && contents[i].is_some() && sha256_hex_of(contents[i].unwrap()@)
        == checksums[i].digest@
}

/// One immediate child of the root directory.
#[derive(Clone, Debug)]
pub struct ChildEntry {
    pub name: String,
    pub is_dir: bool,
}

/// One file met while walking a bundle, in walk order.
#[derive(Clone, Debug)]
pub struct FoundFile {
    pub name: String,
    pub path: String,
}

/// The characters of an optional string.
pub open spec fn opt_view(o: Option<String>) -> Option<Seq<char>> {
    match o {
        Some(s) => Some(s@),
        None => None,
    }
}

/// A child is a bundle when it is a directory whose name ends with the bundle suffix.
pub open spec fn is_bundle(e: ChildEntry) -> bool {
    e.is_dir && ends_with(e.name@, bundle_suffix())
}

/// The indices of the bundles among the first `n` children, in order.
pub open spec fn bundles_upto(entries: Seq<ChildEntry>, n: int) -> Seq<usize>
    decreases n,
{
    if n <= 0 {
        seq![]
    } else if is_bundle(entries[n - 1]) {
        bundles_upto(entries, n - 1).push((n - 1) as usize)
    } else {
        bundles_upto(entries, n - 1)
    }
}

/// The path of the first file named `name` in walk order.
pub open spec fn first_path(found: Seq<FoundFile>, name: Seq<char>) -> Option<Seq<char>>
    decreases found.len(),
{
    if found.len() == 0 {
        None
    } else {
        match first_path(found.drop_last(), name) {
            Some(p) => Some(p),
            None => if found.last().name@ == name {
                Some(found.last().path@)
            } else {
                None
            },
        }
    }
}

/// Some file of the walk is named `name`.
pub open spec fn has_file(found: Seq<FoundFile>, name: Seq<char>) -> bool {
    exists|j: int| 0 <= j < found.len() && (#[trigger] found[j]).name@ == name
}

/// A file name is resolved exactly when the walk met a file of that name.
pub proof fn lemma_first_path_found(found: Seq<FoundFile>, name: Seq<char>)
    ensures
        first_path(found, name).is_some() <==> has_file(found, name),
    decreases found.len(),
{
    if found.len() > 0 {
        let front = found.drop_last();
        lemma_first_path_found(front, name);
        if has_file(front, name) {
            let j = choose|j: int| 0 <= j < front.len() && (#[trigger] front[j]).name@ == name;
            assert(found[j] == front[j]);
        }
        if has_file(found, name) && !has_file(front, name) {
            let j = choose|j: int| 0 <= j < found.len() && (#[trigger] found[j]).name@ == name;
            if j < front.len() {
                assert(front[j] == found[j]);
            }
        }
        if found.last().name@ == name {
            assert(found[found.len() - 1].name@ == name);
        }
    }
}

/// A bundle's canon fileset, resolved from its walk, is complete exactly when each of
/// the seven canon names occurs somewhere in the walk.
pub proof fn lemma_complete_iff_canon_present(found: Seq<FoundFile>, files: AgentFiles)
    requires
        forall|i: int| 0 <= i < CANON_COUNT ==> opt_view(#[trigger] files.slot(i)) == first_path(found, canon_name(i)),
    ensures
        files.complete() <==> forall|i: int| 0 <= i < CANON_COUNT ==> has_file(found, #[trigger] canon_name(i)),
{
    assert forall|i: int| 0 <= i < CANON_COUNT implies (#[trigger] files.slot(i)).is_some() == has_file(found, canon_name(i)) by {
        lemma_first_path_found(found, canon_name(i));
        assert(opt_view(files.slot(i)) == first_path(found, canon_name(i)));
    }
    if files.complete() {
        assert forall|i: int| 0 <= i < CANON_COUNT implies has_file(found, #[trigger] canon_name(i)) by {
            assert(files.slot(i).is_some());
        }
    }
    if forall|i: int| 0 <= i < CANON_COUNT ==> has_file(found, #[trigger] canon_name(i)) {
        assert forall|i: int| 0 <= i < CANON_COUNT implies (#[trigger] files.slot(i)).is_some() by {
            assert(has_file(found, canon_name(i)));
        }
    }
}

/// The bundle's display name: its directory name without the suffix.
pub open spec fn agent_name_of(dir_name: Seq<char>) -> Seq<char> {
    strip_suffix_all(dir_name, bundle_suffix())
}

/// The bundle's id: its display name lowercased, spaces made hyphens.
pub open spec fn agent_id_of(dir_name: Seq<char>) -> Seq<char> {
    hyphenate(lower_of(agent_name_of(dir_name)))
}

/// The index just past the line that starts at `i`: the next newline, or the end.
pub open spec fn line_end(s: Seq<char>, i: nat) -> nat
    decreases s.len() - i,
{
    if i >= s.len() {
        s.len()
    } else if s[i as int] == '\n' {
        i
    } else {
        line_end(s, i + 1)
    }
}

/// The value a single line gives for `field`: after trimming, the line starts with
/// `field:`, and the value is what follows, trimmed of whitespace and then of quotes.
pub open spec fn line_value(line: Seq<char>, field: Seq<char>) -> Option<Seq<char>> {
    let t = trim(line, false);
    if t.len() > field.len() && t.subrange(0, field.len() as int) == field && t[field.len() as int]
        == ':' {
        Some(trim(trim(t.subrange(field.len() + 1int, t.len() as int), false), true))
    } else {
        None
    }
}

/// The value of `field` on the first line of `s` that gives one.
pub open spec fn yaml_field(s: Seq<char>, field: Seq<char>) -> Option<Seq<char>>
    decreases s.len(),
{
    let e = line_end(s, 0);
    match line_value(s.subrange(0, e as int), field) {
        Some(v) => Some(v),
        None => if e >= s.len() {
            None
        } else {
            yaml_field(s.subrange(e + 1int, s.len() as int), field)
        },
    }
}

pub proof fn lemma_line_end_bounds(s: Seq<char>, i: nat)
    requires
        i <= s.len(),
    ensures
        i <= line_end(s, i) <= s.len(),
        line_end(s, i) < s.len() ==> s[line_end(s, i) as int] == '\n',
        forall|k: int| i <= k < line_end(s, i) ==> s[k] != '\n',
    decreases s.len() - i,
{
    if i < s.len() && s[i as int] != '\n' {
        lemma_line_end_bounds(s, i + 1);
    }
}

pub proof fn lemma_line_end_shift(s: Seq<char>, start: int, i: int)
    requires
        0 <= start <= i <= s.len(),
    ensures
        line_end(s.subrange(start, s.len() as int), (i - start) as nat) + start == line_end(
            s,
            i as nat,
        ),
    decreases s.len() - i,
{
    if i < s.len() && s[i] != '\n' {
        lemma_line_end_shift(s, start, i + 1);
    }
}

/// The value of `field` on one line, as `line_value` says.
fn line_value_of(line: &str, field: &str) -> (r: Option<String>)
    ensures
        opt_view(r) == line_value(line@, field@),
{
    let t = trim_str(line, false);
    let tn = t.unicode_len();
    let k = field.unicode_len();
    if tn <= k {
        return None;
    }
    let mut i: usize = 0;
    while i < k
        invariant
            k < tn == t@.len(),
            k == field@.len(),
            t@ == trim(line@, false),
            i <= k,
            forall|j: int| 0 <= j < i ==> t@[j] == field@[j],
        decreases k - i,
    {
        if t.get_char(i) != field.get_char(i) {
            assert(t@.subrange(0, k as int)[i as int] != field@[i as int]);
            assert(t@.subrange(0, k as int) != field@);
            return None;
        }
        i = i + 1;
    }
    assert(t@.subrange(0, k as int) =~= field@);
    if t.get_char(k) != ':' {
        return None;
    }
    let rest = t.substring_char(k + 1, tn);
    let v = trim_str(trim_str(rest, false), true);
    Some(String::from_str(v))
}

/// Copies a list of strings.
pub fn copy_strings(v: &Vec<String>) -> (r: Vec<String>)
    ensures
        r@.map_values(|s: String| s@) == v@.map_values(|s: String| s@),
{
    let mut out: Vec<String> = Vec::new();
    let mut i: usize = 0;
    while i < v.len()
        invariant
            i <= v@.len(),
            out@.map_values(|s: String| s@) == v@.subrange(0, i as int).map_values(
                |s: String| s@,
            ),
        decreases v@.len() - i,
    {
        out.push(v[i].clone());
        assert(v@.subrange(0, i + 1).map_values(|s: String| s@) =~= v@.subrange(
            0,
            i as int,
        ).map_values(|s: String| s@).push(v@[i as int]@));
        assert(out@.map_values(|s: String| s@) =~= v@.subrange(0, i + 1).map_values(
            |s: String| s@,
        ));
        i = i + 1;
    }
    assert(v@.subrange(0, v@.len() as int) =~= v@);
    out
}

/// The path of the first file named `name` in walk order.
pub fn first_path_named(found: &Vec<FoundFile>, name: &str) -> (r: Option<String>)
    ensures
        opt_view(r) == first_path(found@, name@),
{
    let mut res: Option<String> = None;
    let mut i: usize = 0;
    while i < found.len()
        invariant
            i <= found@.len(),
            opt_view(res) == first_path(found@.subrange(0, i as int), name@),
        decreases found@.len() - i,
    {
        assert(found@.subrange(0, i + 1).drop_last() =~= found@.subrange(0, i as int));
        if res.is_none() && str_equal(found[i].name.as_str(), name) {
            res = Some(found[i].path.clone());
        }
        i = i + 1;
    }
    assert(found@.subrange(0, found@.len() as int) =~= found@);
    res
}

/// Whether two strings hold the same characters.
pub fn str_equal(a: &str, b: &str) -> (r: bool)
    ensures
        r == (a@ == b@),
{
    let n = a.unicode_len();
    if n != b.unicode_len() {
        return false;
    }
    let mut i: usize = 0;
    while i < n
        invariant
            n == a@.len() == b@.len(),
            i <= n,
            forall|j: int| 0 <= j < i ==> a@[j] == b@[j],
        decreases n - i,
    {
        if a.get_char(i) != b.get_char(i) {
            return false;
        }
        i = i + 1;
    }
    assert(a@ =~= b@);
    true
}


/// What a bundle's sidecar files declared, as the caller read and parsed them:
/// `None` where a file was absent, unreadable or did not parse.
#[derive(Clone, Debug)]
pub struct Sidecars {
    pub limits: Option<AgentLimits>,
    pub routes: Option<AgentRoutes>,
    pub tools: Option<String>,
}

/// The value a tool-declaration text gives for `field`, if there is one.
pub open spec fn tools_value(tools: Option<String>, field: Seq<char>) -> Option<Seq<char>> {
    match tools {
        Some(t) => yaml_field(t@, field),
        None => None,
    }
}

/// `cur`, replaced by `found` where that is present.
pub open spec fn or_keep(cur: Seq<char>, found: Option<Seq<char>>) -> Seq<char> {
    match found {
        Some(v) => v,
        None => cur,
    }
}

/// The characters of each string of a list.
pub open spec fn strings_view(v: Seq<String>) -> Seq<Seq<char>> {
    v.map_values(|s: String| s@)
}

/// Turns a directory tree into agent records.
#[derive(Clone, Debug)]
pub struct AgentScanner {
    pub sets_path: String,
}

impl AgentScanner {
    pub fn new(sets_path: String) -> (r: Self)
        ensures
            r.sets_path@ == sets_path@,
    {
        AgentScanner { sets_path }
    }

    /// The indices, in order, of the children of the root that are bundles.
    pub fn select_bundles(&self, entries: &Vec<ChildEntry>) -> (r: Vec<usize>)
        ensures
            r@ == bundles_upto(entries@, entries@.len() as int),
            forall|k: int| 0 <= k < r@.len() ==> #[trigger] r@[k] < entries@.len() && is_bundle(entries@[r@[k] as int]),
    {
        let suffix: &str = ".3ox";
        proof {
            reveal_strlit(".3ox");
        }
        let mut out: Vec<usize> = Vec::new();
        let mut i: usize = 0;
        while i < entries.len()
            invariant
                suffix@ == bundle_suffix(),
                i <= entries@.len(),
                out@ == bundles_upto(entries@, i as int),
                forall|k: int| 0 <= k < out@.len() ==> #[trigger] out@[k] < i && is_bundle(entries@[out@[k] as int]),
            decreases entries@.len() - i,
        {
            if entries[i].is_dir && str_ends_with(entries[i].name.as_str(), suffix) {
                out.push(i);
            }
            i = i + 1;
        }
        out
    }

    /// Where each canon file of a bundle lies: the first file of that name in walk order.
    pub fn resolve_fileset(&self, found: &Vec<FoundFile>) -> (r: AgentFiles)
        ensures
            forall|i: int| 0 <= i < CANON_COUNT ==> opt_view(#[trigger] r.slot(i)) == first_path(found@, canon_name(i)),
            r.checksums.is_none(),
    {
        let mut files = AgentFiles::default();
        files.brain_exe = first_path_named(found, canon_file_name(0));
        files.brain_rs = first_path_named(found, canon_file_name(1));
        files.run_rb = first_path_named(found, canon_file_name(2));
        files.tools_yml = first_path_named(found, canon_file_name(3));
        files.limits_json = first_path_named(found, canon_file_name(4));
        files.routes_json = first_path_named(found, canon_file_name(5));
        files.cargo_toml = first_path_named(found, canon_file_name(6));
        files
    }

    /// Where the checksum manifest lies, if the walk met one.
    pub fn checksum_path(&self, found: &Vec<FoundFile>) -> (r: Option<String>)
        ensures
            opt_view(r) == first_path(found@, checksum_file_name()),
    {
        let name: &str = "checksums.json";
        proof {
            reveal_strlit("checksums.json");
        }
        first_path_named(found, name)
    }

    /// The display name and the id of a bundle directory.
    pub fn agent_identity(&self, dir_name: &str) -> (r: (String, String))
        ensures
            r.0@ == agent_name_of(dir_name@),
            r.1@ == agent_id_of(dir_name@),
    {
        let suffix: &str = ".3ox";
        proof {
            reveal_strlit(".3ox");
        }
        let name = strip_suffix_str(dir_name, suffix);
        let lower = lowercase(name);
        let id = hyphenate_str(lower.as_str());
        (String::from_str(name), id)
    }

    /// Pairs each declared file with whether its computed digest, where there is one,
    /// equals the declared digest exactly.
    pub fn check_digests(&self, checksums: &Vec<ChecksumEntry>, actual: &Vec<Option<String>>) -> (r:
        Vec<(String, bool)>)
        ensures
            r@.len() == checksums@.len(),
            forall|i: int|
                0 <= i < r@.len() ==> (#[trigger] r@[i]).0@ == checksums@[i].file@ && r@[i].1
                    == digest_matches(checksums@, actual@, i),
    {
        let mut out: Vec<(String, bool)> = Vec::new();
        let mut i: usize = 0;
        while i < checksums.len()
            invariant
                i <= checksums@.len(),
                out@.len() == i,
                forall|j: int|
                    0 <= j < i ==> (#[trigger] out@[j]).0@ == checksums@[j].file@ && out@[j].1
                        == digest_matches(checksums@, actual@, j),
            decreases checksums@.len() - i,
        {
            let ok = if i < actual.len() {
                match &actual[i] {
                    Some(h) => str_equal(h.as_str(), checksums[i].digest.as_str()),
                    None => false,
                }
            } else {
                false
            };
            out.push((checksums[i].file.clone(), ok));
            i = i + 1;
        }
        out
    }

    /// Hashes the bytes read for each declared file and compares the digests; a file
    /// that could not be read does not match.
    pub fn verify_checksums(
        &self,
        checksums: &Vec<ChecksumEntry>,
        contents: &Vec<Option<Vec<u8>>>,
    ) -> (r: Vec<(String, bool)>)
        ensures
            r@.len() == checksums@.len(),
            forall|i: int|
                0 <= i < r@.len() ==> (#[trigger] r@[i]).0@ == checksums@[i].file@ && r@[i].1
                    == content_matches(checksums@, contents@, i),
    {
        let mut actual: Vec<Option<String>> = Vec::new();
        let mut i: usize = 0;
        while i < contents.len()
            invariant
                i <= contents@.len(),
                actual@.len() == i,
                forall|j: int|
                    0 <= j < i ==> (#[trigger] actual@[j]).is_some() == contents@[j].is_some() && (
                    actual@[j].is_some() ==> actual@[j].unwrap()@ == sha256_hex_of(
                        contents@[j].unwrap()@,
                    )),
            decreases contents@.len() - i,
        {
            let h = match &contents[i] {
                Some(c) => Some(sha256_hex(c)),
                None => None,
            };
            actual.push(h);
            i = i + 1;
        }
        let r = self.check_digests(checksums, &actual);
        assert forall|i: int| 0 <= i < r@.len() implies (#[trigger] r@[i]).1 == content_matches(
            checksums@,
            contents@,
            i,
        ) by {
            assert(digest_matches(checksums@, actual@, i) == content_matches(
                checksums@,
                contents@,
                i,
            ));
        }
        r
    }

    /// Reports, for each canon file name in slot order, whether it is present.
    pub fn check_presence(&self, present: &Vec<bool>) -> (r: Vec<(String, bool)>)
        ensures
            r@.len() == CANON_COUNT,
            forall|i: int|
                0 <= i < CANON_COUNT ==> (#[trigger] r@[i]).0@ == canon_name(i) && r@[i].1 == (i
                    < present@.len() && present@[i]),
    {
        let mut out: Vec<(String, bool)> = Vec::new();
        let mut i: usize = 0;
        while i < CANON_COUNT
            invariant
                i <= CANON_COUNT,
                out@.len() == i,
                forall|j: int|
                    0 <= j < i ==> (#[trigger] out@[j]).0@ == canon_name(j) && out@[j].1 == (j
                        < present@.len() && present@[j]),
            decreases CANON_COUNT - i,
        {
            let p = i < present.len() && present[i];
            out.push((String::from_str(canon_file_name(i)), p));
            i = i + 1;
        }
        out
    }

    /// The files that verification looks at, relative to the bundle: those the
    /// checksum manifest lists, or else the seven canon names.
    pub fn verification_targets(&self, agent: &AgentInfo) -> (r: Vec<String>)
        ensures
            agent.files.checksums.is_some() ==> r@.len() == agent.files.checksums.unwrap()@.len()
                && forall|i: int|
                0 <= i < r@.len() ==> (#[trigger] r@[i])@ == agent.files.checksums.unwrap()@[i].file@,
            agent.files.checksums.is_none() ==> r@.len() == CANON_COUNT && forall|i: int|
                0 <= i < CANON_COUNT ==> (#[trigger] r@[i])@ == canon_name(i),
    {
        let mut out: Vec<String> = Vec::new();
        match &agent.files.checksums {
            Some(c) => {
                let mut i: usize = 0;
                while i < c.len()
                    invariant
                        i <= c@.len(),
                        out@.len() == i,
                        forall|j: int| 0 <= j < i ==> (#[trigger] out@[j])@ == c@[j].file@,
                    decreases c@.len() - i,
                {
                    out.push(c[i].file.clone());
                    i = i + 1;
                }
            },
            None => {
                let mut i: usize = 0;
                while i < CANON_COUNT
                    invariant
                        i <= CANON_COUNT,
                        out@.len() == i,
                        forall|j: int| 0 <= j < i ==> (#[trigger] out@[j])@ == canon_name(j),
                    decreases CANON_COUNT - i,
                {
                    out.push(String::from_str(canon_file_name(i)));
                    i = i + 1;
                }
            },
        }
        out
    }

    /// Verifies a bundle's files, given what was read for each of its
    /// `verification_targets` (`None` where a target could not be read). With a
    /// checksum manifest each listed file is hashed and compared; without one only
    /// presence counts, so the bytes of a present file are not looked at.
    pub fn verify_agent_files(&self, agent: &AgentInfo, contents: &Vec<Option<Vec<u8>>>) -> (r: Vec<
        (String, bool),
    >)
        ensures
            agent.files.checksums.is_some() ==> r@.len() == agent.files.checksums.unwrap()@.len()
                && forall|i: int|
                0 <= i < r@.len() ==> (#[trigger] r@[i]).0@
                    == agent.files.checksums.unwrap()@[i].file@ && r@[i].1 == content_matches(
                    agent.files.checksums.unwrap()@,
                    contents@,
                    i,
                ),
            agent.files.checksums.is_none() ==> r@.len() == CANON_COUNT && forall|i: int|
                0 <= i < CANON_COUNT ==> (#[trigger] r@[i]).0@ == canon_name(i) && r@[i].1 == (i
                    < contents@.len() && contents@[i].is_some()),
    {
        match &agent.files.checksums {
            Some(c) => self.verify_checksums(c, contents),
            None => {
                let mut present: Vec<bool> = Vec::new();
                let mut i: usize = 0;
                while i < contents.len()
                    invariant
                        i <= contents@.len(),
                        present@.len() == i,
                        forall|j: int|
                            0 <= j < i ==> (#[trigger] present@[j]) == contents@[j].is_some(),
                    decreases contents@.len() - i,
                {
                    present.push(contents[i].is_some());
                    i = i + 1;
                }
                self.check_presence(&present)
            },
        }
    }

    /// The value of `field` in a tool-declaration text, read line by line.
    pub fn extract_yaml_field(&self, yaml_content: &str, field: &str) -> (r: Option<String>)
        ensures
            opt_view(r) == yaml_field(yaml_content@, field@),
    {
        let n = yaml_content.unicode_len();
        let mut start: usize = 0;
        assert(yaml_content@.subrange(0, n as int) =~= yaml_content@);
        loop
            invariant
                start <= n == yaml_content@.len(),
                yaml_field(yaml_content@, field@) == yaml_field(
                    yaml_content@.subrange(start as int, n as int),
                    field@,
                ),
            decreases n - start,
        {
            let ghost rest = yaml_content@.subrange(start as int, n as int);
            let mut e: usize = start;
            while e < n && yaml_content.get_char(e) != '\n'
                invariant
                    start <= e <= n == yaml_content@.len(),
                    rest == yaml_content@.subrange(start as int, n as int),
                    line_end(rest, 0) == line_end(rest, (e - start) as nat),
                decreases n - e,
            {
                e = e + 1;
            }
            proof {
                lemma_line_end_shift(yaml_content@, start as int, e as int);
                assert(line_end(rest, (e - start) as nat) == (e - start) as nat);
                assert(rest.subrange(0, (e - start) as int) =~= yaml_content@.subrange(
                    start as int,
                    e as int,
                ));
                if e < n {
                    assert(rest.subrange((e - start) + 1int, rest.len() as int) =~= yaml_content@.subrange(
                        e + 1int,
                        n as int,
                    ));
                }
            }
            let line = yaml_content.substring_char(start, e);
            let v = line_value_of(line, field);
            if v.is_some() {
                return v;
            }
            if e >= n {
                return None;
            }
            start = e + 1;
        }
    }

    /// Fills in what the sidecar files declare. Limits and routes are taken only where
    /// their file was found, the descriptive fields only where the tool declaration was.
    pub fn load_agent_metadata(&self, agent: &mut AgentInfo, sidecars: Sidecars)
        ensures
            final(agent).id == old(agent).id,
            final(agent).name == old(agent).name,
            final(agent).path == old(agent).path,
            final(agent).files == old(agent).files,
            final(agent).status == old(agent).status,
            final(agent).verification == old(agent).verification,
            final(agent).limits == (if old(agent).files.limits_json.is_some()
                && sidecars.limits.is_some() {
                sidecars.limits.unwrap()
            } else {
                old(agent).limits
            }),
            final(agent).routes == (if old(agent).files.routes_json.is_some()
                && sidecars.routes.is_some() {
                sidecars.routes.unwrap()
            } else {
                old(agent).routes
            }),
            strings_view(final(agent).capabilities@) == (if old(agent).files.routes_json.is_some()
                && sidecars.routes.is_some() {
                strings_view(sidecars.routes.unwrap().capabilities@)
            } else {
                strings_view(old(agent).capabilities@)
            }),
            ({
                let t = if old(agent).files.tools_yml.is_some() {
                    sidecars.tools
                } else {
                    None
                };
                &&& final(agent).description@ == or_keep(
                    old(agent).description@,
                    tools_value(t, "description"@),
                )
                &&& final(agent).role@ == or_keep(old(agent).role@, tools_value(t, "role"@))
                &&& final(agent).tier@ == or_keep(old(agent).tier@, tools_value(t, "tier"@))
                &&& final(agent).icon@ == or_keep(old(agent).icon@, tools_value(t, "icon"@))
            }),
    {
        let Sidecars { limits, routes, tools } = sidecars;
        if agent.files.limits_json.is_some() {
            if let Some(l) = limits {
                agent.limits = l;
            }
        }
        if agent.files.routes_json.is_some() {
            if let Some(r) = routes {
                agent.capabilities = copy_strings(&r.capabilities);
                agent.routes = r;
            }
        }
        if agent.files.tools_yml.is_some() {
            if let Some(t) = tools {
                let description: &str = "description";
                let role: &str = "role";
                let tier: &str = "tier";
                let icon: &str = "icon";
                proof {
                    reveal_strlit("description");
                    reveal_strlit("role");
                    reveal_strlit("tier");
                    reveal_strlit("icon");
                }
                if let Some(v) = self.extract_yaml_field(t.as_str(), description) {
                    agent.description = v;
                }
                if let Some(v) = self.extract_yaml_field(t.as_str(), role) {
                    agent.role = v;
                }
                if let Some(v) = self.extract_yaml_field(t.as_str(), tier) {
                    agent.tier = v;
                }
                if let Some(v) = self.extract_yaml_field(t.as_str(), icon) {
                    agent.icon = v;
                }
            }
        }
    }

    /// Builds the record of one bundle from its directory name, its location, where
    /// its files were found and what its sidecars declared.
    pub fn scan_agent_directory(
        &self,
        dir_name: &str,
        path: String,
        files: AgentFiles,
        sidecars: Sidecars,
    ) -> (r: AgentInfo)
        ensures
            r.id@ == agent_id_of(dir_name@),
            r.name@ == agent_name_of(dir_name@),
            r.path@ == path@,
            r.files == files,
            r.verification == (if files.complete() {
                Verification::Valid
            } else {
                Verification::Invalid
            }),
            r.status == (if files.complete() {
                RunState::Stopped
            } else {
                RunState::Unknown
            }),
            r.limits == (if files.limits_json.is_some() && sidecars.limits.is_some() {
                sidecars.limits.unwrap()
            } else {
                AgentLimits::spec_default()
            }),
            if files.routes_json.is_some() && sidecars.routes.is_some() {
                r.routes == sidecars.routes.unwrap()
            } else {
                r.routes.capabilities@.len() == 0 && r.routes.endpoints@.len() == 0
                    && r.routes.message_types@.len() == 0
            },
            strings_view(r.capabilities@) == (if files.routes_json.is_some()
                && sidecars.routes.is_some() {
                strings_view(sidecars.routes.unwrap().capabilities@)
            } else {
                seq![]
            }),
            ({
                let t = if files.tools_yml.is_some() {
                    sidecars.tools
                } else {
                    None
                };
                &&& r.description@ == or_keep(
                    "No description available"@,
                    tools_value(t, "description"@),
                )
                &&& r.role@ == or_keep("Unknown"@, tools_value(t, "role"@))
                &&& r.tier@ == or_keep("Standard"@, tools_value(t, "tier"@))
                &&& r.icon@ == or_keep("🤖"@, tools_value(t, "icon"@))
            }),
    {
        let (name, id) = self.agent_identity(dir_name);
        let mut agent = AgentInfo::new(id, name, path);
        agent.files = files;
        self.load_agent_metadata(&mut agent, sidecars);
        if agent.is_canon_fileset_complete() {
            agent.verification = Verification::Valid;
            agent.status = RunState::Stopped;
        } else {
            agent.verification = Verification::Invalid;
            agent.status = RunState::Unknown;
        }
        agent
    }
}

} // verus!
