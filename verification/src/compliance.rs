//! The compliance side of the command line: the dependency list of a manifest
//! for the software bill of materials, and the lookup of the baked-in
//! compliance documents by name.
use vstd::prelude::*;
use vstd::string::*;
use crate::text::{chars_of, decimal, find_chars, find_first, has_sub, nat_digits, push_digits,
    skip_chars, starts_with, starts_with_str, str_eq, string_of_chars, string_of_prefix,
    contains_str, trim_chars, trimmed};

verus! {

/// The text between the first two double quotes of `s`, if it has two.
pub open spec fn quoted_in(s: Seq<char>) -> Option<Seq<char>> {
    match find_first(s, seq!['"']) {
        Some(q1) => {
            let after = s.skip(q1 + 1);
            match find_first(after, seq!['"']) {
                Some(q2) => Some(after.take(q2)),
                None => None,
            }
        },
        None => None,
    }
}

/// The version a manifest line gives: the first quoted text after the word
/// `version`; failing that, the first quoted text of the line; failing that,
/// "unknown".
pub open spec fn version_in(line: Seq<char>) -> Seq<char> {
    let keyed = match find_first(line, "version"@) {
        Some(start) => quoted_in(line.skip(start)),
        None => None,
    };
    match keyed {
        Some(v) => v,
        None => match quoted_in(line) {
            Some(v) => v,
            None => "unknown"@,
        },
    }
}

/// The view of an optional string.
pub open spec fn opt_string_view(o: Option<String>) -> Option<Seq<char>> {
    match o {
        Some(s) => Some(s@),
        None => None,
    }
}

fn quoted_chars(v: &Vec<char>) -> (r: Option<String>)
    ensures
        opt_string_view(r) == quoted_in(v@),
{
    let quote = vec!['"'];
    let vl = v.len();
    assert(quote@ =~= seq!['"']);
    match find_chars(v, &quote) {
        Some(q1) => {
            assert(crate::text::occurs_at(v@, quote@, q1 as int));
            assert(q1 + 1 <= vl);
            let after = skip_chars(v, q1 + 1);
            match find_chars(&after, &quote) {
                Some(q2) => {
                    proof {
                        assert(crate::text::occurs_at(after@, quote@, q2 as int));
                    }
                    Some(string_of_prefix(&after, q2))
                },
                None => None,
            }
        },
        None => None,
    }
}

fn version_of_chars(v: &Vec<char>) -> (r: String)
    ensures
        r@ == version_in(v@),
{
    let key = chars_of("version");
    match find_chars(v, &key) {
        Some(start) => {
            proof {
                assert(crate::text::occurs_at(v@, key@, start as int));
            }
            let rest = skip_chars(v, start);
            match quoted_chars(&rest) {
                Some(found) => {
                    return found;
                },
                None => {},
            }
        },
        None => {},
    }
    match quoted_chars(v) {
        Some(found) => found,
        None => String::from_str("unknown"),
    }
}

/// The version a manifest line gives: `name = "1.2"` and
/// `name = { version = "1.2", .. }` both give `1.2`; a line with no quoted
/// text gives "unknown".
pub fn extract_version(line: &str) -> (r: String)
    ensures
        r@ == version_in(line@),
{
    let v = chars_of(line);
    version_of_chars(&v)
}

/// `l` without one trailing carriage return.
pub open spec fn strip_cr(l: Seq<char>) -> Seq<char> {
    if l.len() > 0 && l.last() == '\r' {
        l.drop_last()
    } else {
        l
    }
}

/// The lines ended so far in `s`, and the text after the last line end.
pub open spec fn line_scan(s: Seq<char>) -> (Seq<Seq<char>>, Seq<char>)
    decreases s.len(),
{
    if s.len() == 0 {
        (Seq::empty(), Seq::empty())
    } else {
        let scanned = line_scan(s.drop_last());
        if s.last() == '\n' {
            (scanned.0.push(strip_cr(scanned.1)), Seq::empty())
        } else {
            (scanned.0, scanned.1.push(s.last()))
        }
    }
}

/// The lines of `s` as `str::lines` gives them: split at each '\n', a '\r'
/// before it dropped, and no empty line after a final '\n'.
pub open spec fn lines_in(s: Seq<char>) -> Seq<Seq<char>> {
    let scanned = line_scan(s);
    if scanned.1.len() > 0 {
        scanned.0.push(scanned.1)
    } else {
        scanned.0
    }
}

/// The views of a sequence of character vectors.
pub open spec fn char_vec_views(v: Seq<Vec<char>>) -> Seq<Seq<char>> {
    v.map_values(|c: Vec<char>| c@)
}

fn strip_cr_chars(v: Vec<char>) -> (r: Vec<char>)
    ensures
        r@ == strip_cr(v@),
{
    let mut v = v;
    let n = v.len();
    if n > 0 && v[n - 1] == '\r' {
        v.pop();
    }
    v
}

/// The lines of `text`, as `str::lines` splits them.
pub fn lines_of(text: &str) -> (r: Vec<Vec<char>>)
    ensures
        char_vec_views(r@) == lines_in(text@),
{
    let chars = chars_of(text);
    let mut done: Vec<Vec<char>> = Vec::new();
    let mut cur: Vec<char> = Vec::new();
    let mut i: usize = 0;
    while i < chars.len()
        invariant
            0 <= i <= chars@.len(),
            chars@ == text@,
            char_vec_views(done@) == line_scan(chars@.take(i as int)).0,
            cur@ == line_scan(chars@.take(i as int)).1,
        decreases chars@.len() - i,
    {
        assert(chars@.take(i + 1).drop_last() =~= chars@.take(i as int));
        let c = chars[i];
        if c == '\n' {
            let line = strip_cr_chars(cur);
            let ghost prev = done@;
            done.push(line);
            assert(done@ == prev.push(line));
            assert(char_vec_views(done@) =~= char_vec_views(prev).push(line@));
            cur = Vec::new();
        } else {
            cur.push(c);
        }
        i += 1;
    }
    assert(chars@.take(i as int) =~= chars@);
    if cur.len() > 0 {
        let ghost prev = done@;
        let ghost last = cur@;
        done.push(cur);
        assert(char_vec_views(done@) =~= char_vec_views(prev).push(last));
    }
    done
}

/// The name a dependency line gives: the text before the first '=' (the
/// whole line where there is none), without surrounding white space.
pub open spec fn dep_name(line: Seq<char>) -> Seq<char> {
    match find_first(line, seq!['=']) {
        Some(i) => trimmed(line.take(i)),
        None => trimmed(line),
    }
}

/// One dependency of a manifest: name, version, and whether it is optional.
pub open spec fn dep_entry(line: Seq<char>) -> (Seq<char>, Seq<char>, bool) {
    (dep_name(line), version_in(line), has_sub(line, "optional = true"@))
}

/// Reading manifest lines in order: the dependencies found so far and whether
/// the reader is inside the `[dependencies]` table.
pub open spec fn dep_scan(lines: Seq<Seq<char>>) -> (Seq<(Seq<char>, Seq<char>, bool)>, bool)
    decreases lines.len(),
{
    if lines.len() == 0 {
        (Seq::empty(), false)
    } else {
        let scanned = dep_scan(lines.drop_last());
        let line = lines.last();
        if starts_with(line, "[dependencies]"@) {
            (scanned.0, true)
        } else if starts_with(line, seq!['[']) && scanned.1 {
            (scanned.0, false)
        } else if !scanned.1 || trimmed(line).len() == 0 || starts_with(line, seq!['#']) {
            scanned
        } else {
            (scanned.0.push(dep_entry(line)), scanned.1)
        }
    }
}

/// The dependencies a manifest lists under `[dependencies]`, in order.
pub open spec fn manifest_deps(text: Seq<char>) -> Seq<(Seq<char>, Seq<char>, bool)> {
    dep_scan(lines_in(text)).0
}

/// The views of a list of dependencies.
pub open spec fn dep_views(v: Seq<(String, String, bool)>) -> Seq<(Seq<char>, Seq<char>, bool)> {
    v.map_values(|d: (String, String, bool)| (d.0@, d.1@, d.2))
}

fn dep_name_of(line: &Vec<char>) -> (r: String)
    ensures
        r@ == dep_name(line@),
{
    let eq = vec!['='];
    assert(eq@ =~= seq!['=']);
    match find_chars(line, &eq) {
        Some(i) => {
            proof {
                assert(crate::text::occurs_at(line@, eq@, i as int));
            }
            let mut head: Vec<char> = Vec::new();
            let mut k: usize = 0;
            while k < i
                invariant
                    k <= i,
                    i <= line@.len(),
                    head@ == line@.take(k as int),
                decreases i - k,
            {
                head.push(line[k]);
                assert(head@ =~= line@.take(k + 1));
                k += 1;
            }
            let t = trim_chars(&head);
            string_of_chars(&t)
        },
        None => {
            let t = trim_chars(line);
            string_of_chars(&t)
        },
    }
}

/// The dependencies that a manifest's text lists under `[dependencies]`: for
/// each line of that table that is neither blank nor a comment, its name,
/// version and whether it says `optional = true`.
pub fn manifest_dependencies(text: &str) -> (r: Vec<(String, String, bool)>)
    ensures
        dep_views(r@) == manifest_deps(text@),
{
    let lines = lines_of(text);
    let ghost lv = char_vec_views(lines@);
    let mut out: Vec<(String, String, bool)> = Vec::new();
    let mut in_deps = false;
    let mut i: usize = 0;
    while i < lines.len()
        invariant
            0 <= i <= lines@.len(),
            lv == char_vec_views(lines@),
            lv == lines_in(text@),
            dep_views(out@) == dep_scan(lv.take(i as int)).0,
            in_deps == dep_scan(lv.take(i as int)).1,
        decreases lines@.len() - i,
    {
        assert(lv.take(i + 1).drop_last() =~= lv.take(i as int));
        assert(lv.take(i + 1).last() == lines@[i as int]@);
        let line = &lines[i];
        if starts_with_str(line, "[dependencies]") {
            in_deps = true;
        } else if starts_with_str(line, "[") && in_deps {
            assert("["@ =~= seq!['[']) by {
                reveal_strlit("[");
            }
            in_deps = false;
        } else {
            assert("["@ =~= seq!['[']) by {
                reveal_strlit("[");
            }
            assert("#"@ =~= seq!['#']) by {
                reveal_strlit("#");
            }
            let blank = trim_chars(line).len() == 0;
            if in_deps && !blank && !starts_with_str(line, "#") {
                let name = dep_name_of(line);
                let version = version_of_chars(line);
                let optional = contains_str(line, "optional = true");
                let ghost prev = out@;
                out.push((name, version, optional));
                assert(out@ == prev.push((name, version, optional)));
                assert(dep_views(out@) =~= dep_views(prev).push(dep_entry(line@)));
            }
        }
        i += 1;
    }
    assert(lv.take(i as int) =~= lv);
    out
}

/// The names under which the compliance documents are listed, in order.
pub open spec fn govdoc_names() -> Seq<Seq<char>> {
    seq![
        "sbom"@,
        "security"@,
        "privacy"@,
        "ssdf"@,
        "supply-chain"@,
        "accessibility"@,
        "fips"@,
        "fedramp"@,
        "cmmc"@,
        "itar-ear"@,
        "federal-use"@,
    ]
}

/// The number of compliance documents.
pub const GOVDOC_COUNT: usize = 11;

fn govdoc_name(i: usize) -> (r: &'static str)
    requires
        i < 11,
    ensures
        r@ == govdoc_names()[i as int],
{
    if i == 0 {
        "sbom"
    } else if i == 1 {
        "security"
    } else if i == 2 {
        "privacy"
    } else if i == 3 {
        "ssdf"
    } else if i == 4 {
        "supply-chain"
    } else if i == 5 {
        "accessibility"
    } else if i == 6 {
        "fips"
    } else if i == 7 {
        "fedramp"
    } else if i == 8 {
        "cmmc"
    } else if i == 9 {
        "itar-ear"
    } else {
        "federal-use"
    }
}

/// The compliance documents under their names: the `i`-th of `docs` under the
/// `i`-th name (sbom, security, privacy, ssdf, supply-chain, accessibility,
/// fips, fedramp, cmmc, itar-ear, federal-use).
pub fn govdoc_list(docs: &Vec<&'static str>) -> (r: Vec<(&'static str, &'static str)>)
    requires
        docs@.len() == GOVDOC_COUNT,
    ensures
        r@.len() == GOVDOC_COUNT,
        forall|i: int|
            0 <= i < GOVDOC_COUNT ==> (#[trigger] r@[i]).0@ == govdoc_names()[i] && r@[i].1
                == docs@[i],
{
    let mut out: Vec<(&'static str, &'static str)> = Vec::new();
    let mut i: usize = 0;
    while i < GOVDOC_COUNT
        invariant
            0 <= i <= GOVDOC_COUNT,
            docs@.len() == GOVDOC_COUNT,
            out@.len() == i,
            forall|k: int|
                0 <= k < i ==> (#[trigger] out@[k]).0@ == govdoc_names()[k] && out@[k].1
                    == docs@[k],
        decreases GOVDOC_COUNT - i,
    {
        out.push((govdoc_name(i), docs[i]));
        i += 1;
    }
    out
}

/// The first document listed under `name`, if any.
pub fn govdoc_lookup(list: &Vec<(&'static str, &'static str)>, name: &str) -> (r: Option<
    &'static str,
>)
    ensures
        match r {
            Some(doc) => exists|i: int|
                0 <= i < list@.len() && (#[trigger] list@[i]).0@ == name@ && list@[i].1 == doc
                    && forall|j: int| 0 <= j < i ==> (#[trigger] list@[j]).0@ != name@,
            None => forall|i: int| 0 <= i < list@.len() ==> (#[trigger] list@[i]).0@ != name@,
        },
{
    let mut i: usize = 0;
    while i < list.len()
        invariant
            0 <= i <= list@.len(),
            forall|j: int| 0 <= j < i ==> (#[trigger] list@[j]).0@ != name@,
        decreases list@.len() - i,
    {
        let (key, doc) = list[i];
        if str_eq(key, name) {
            return Some(doc);
        }
        i += 1;
    }
    None
}

/// The opening of the SPDX bill of materials for `version`: the document's
/// own lines, a blank line, the package's lines and a blank line.
pub open spec fn spdx_head(version: Seq<char>) -> Seq<char> {
    "SPDXVersion: SPDX-2.3\n"@ + "DataLicense: CC0-1.0\n"@ + "SPDXID: SPDXRef-DOCUMENT\n"@
        + "DocumentName: wowasticker-sbom\n"@
        + "DocumentNamespace: https://github.com/cochranblock/wowasticker/sbom/"@ + version
        + "\n"@ + "Creator: Tool: wowasticker-cli-"@ + version + "\n"@ + "\n"@
        + "PackageName: wowasticker\n"@ + "SPDXID: SPDXRef-Package\n"@ + "PackageVersion: "@
        + version + "\n"@
        + "PackageDownloadLocation: https://github.com/cochranblock/wowasticker\n"@
        + "PackageLicenseDeclared: Unlicense\n"@ + "\n"@
}

/// The SPDX lines of the `n`-th dependency `d` (name, version, optional),
/// then a blank line.
pub open spec fn spdx_dep(n: int, d: (Seq<char>, Seq<char>, bool)) -> Seq<char> {
    "PackageName: "@ + d.0 + "\n"@ + "SPDXID: SPDXRef-Dep-"@ + decimal(n) + "\n"@
        + "PackageVersion: "@ + d.1 + "\n"@ + (if d.2 {
        "PackageComment: optional\n"@
    } else {
        Seq::empty()
    }) + "Relationship: SPDXRef-Package DEPENDS_ON SPDXRef-Dep-"@ + decimal(n) + "\n"@ + "\n"@
}

/// The SPDX lines of `deps`, numbered from 1 in order.
pub open spec fn spdx_deps(deps: Seq<(Seq<char>, Seq<char>, bool)>) -> Seq<char>
    decreases deps.len(),
{
    if deps.len() == 0 {
        Seq::empty()
    } else {
        spdx_deps(deps.drop_last()) + spdx_dep(deps.len() as int, deps.last())
    }
}

/// The SPDX bill of materials of the package at `version` with `deps`.
pub open spec fn spdx_text(version: Seq<char>, deps: Seq<(Seq<char>, Seq<char>, bool)>) -> Seq<char> {
    spdx_head(version) + spdx_deps(deps)
}

fn push_spdx_dep(out: &mut String, n: usize, dep: &(String, String, bool))
    requires
        n >= 1,
    ensures
        final(out)@ == old(out)@ + spdx_dep(n as int, (dep.0@, dep.1@, dep.2)),
{
    let ghost before = out@;
    out.append("PackageName: ");
    out.append(dep.0.as_str());
    out.append("\n");
    out.append("SPDXID: SPDXRef-Dep-");
    push_digits(out, n as u64);
    out.append("\n");
    out.append("PackageVersion: ");
    out.append(dep.1.as_str());
    out.append("\n");
    let ghost mid = out@;
    if dep.2 {
        out.append("PackageComment: optional\n");
    }
    let ghost comment = out@;
    out.append("Relationship: SPDXRef-Package DEPENDS_ON SPDXRef-Dep-");
    push_digits(out, n as u64);
    out.append("\n");
    out.append("\n");
    proof {
        assert(decimal(n as int) == nat_digits(n as nat));
        let c: Seq<char> = if dep.2 {
            "PackageComment: optional\n"@
        } else {
            Seq::empty()
        };
        assert(comment =~= mid + c);
        assert(mid =~= before + "PackageName: "@ + dep.0@ + "\n"@ + "SPDXID: SPDXRef-Dep-"@
            + decimal(n as int) + "\n"@ + "PackageVersion: "@ + dep.1@ + "\n"@);
        assert(out@ =~= before + spdx_dep(n as int, (dep.0@, dep.1@, dep.2)));
    }
}

/// The SPDX bill of materials that `--sbom` prints: the document and package
/// lines for `version`, then for each of `deps` in order, numbered from 1,
/// its name, number, version, "optional" where it is optional, and its
/// DEPENDS_ON relationship; every line ends with a newline.
pub fn spdx_sbom(version: &str, deps: &Vec<(String, String, bool)>) -> (r: String)
    ensures
        r@ == spdx_text(version@, dep_views(deps@)),
{
    let ghost dv = dep_views(deps@);
    let mut out = String::from_str("SPDXVersion: SPDX-2.3\n");
    out.append("DataLicense: CC0-1.0\n");
    out.append("SPDXID: SPDXRef-DOCUMENT\n");
    out.append("DocumentName: wowasticker-sbom\n");
    out.append("DocumentNamespace: https://github.com/cochranblock/wowasticker/sbom/");
    out.append(version);
    out.append("\n");
    out.append("Creator: Tool: wowasticker-cli-");
    out.append(version);
    out.append("\n");
    out.append("\n");
    out.append("PackageName: wowasticker\n");
    out.append("SPDXID: SPDXRef-Package\n");
    out.append("PackageVersion: ");
    out.append(version);
    out.append("\n");
    out.append("PackageDownloadLocation: https://github.com/cochranblock/wowasticker\n");
    out.append("PackageLicenseDeclared: Unlicense\n");
    out.append("\n");
    assert(out@ =~= spdx_head(version@));
    assert(dv.take(0) =~= Seq::<(Seq<char>, Seq<char>, bool)>::empty());
    let mut i: usize = 0;
    while i < deps.len()
        invariant
            0 <= i <= deps@.len(),
            dv == dep_views(deps@),
            out@ == spdx_head(version@) + spdx_deps(dv.take(i as int)),
        decreases deps@.len() - i,
    {
        let ghost taken = dv.take(i + 1);
        assert(taken.drop_last() =~= dv.take(i as int));
        assert(taken.last() == (deps@[i as int].0@, deps@[i as int].1@, deps@[i as int].2));
        push_spdx_dep(&mut out, i + 1, &deps[i]);
        assert(out@ =~= spdx_head(version@) + spdx_deps(taken));
        i += 1;
    }
    assert(dv.take(i as int) =~= dv);
    out
}

} // verus!
