//! Release bookkeeping for self-upgrade: comparing version strings and
//! reading a string field out of a release description.

use vstd::prelude::*;

use crate::text::{
    chars_of, count_leading_ws, decimal, find, find_chars, law_decimal_parses_back,
    lemma_leading_ws_bound, lemma_split_on_nonempty, parse_unsigned, parse_unsigned_chars,
    push_str, spells, split_chars, split_on, string_from_chars, trim_start,
};

verus! {

/// The numbers of a dotted version string: each `.`-separated part that
/// parses as a `u32`, in order; the parts that do not are skipped.
pub open spec fn parsed_parts(parts: Seq<Seq<char>>) -> Seq<u32>
    decreases parts.len(),
{
    if parts.len() == 0 {
        Seq::empty()
    } else {
        let init = parsed_parts(parts.drop_last());
        match parse_unsigned(parts.last(), u32::MAX as nat) {
            Some(n) => init.push(n as u32),
            None => init,
        }
    }
}

/// The element at `i`, or 0 where there is none.
pub open spec fn nth_or_zero(s: Seq<u32>, i: int) -> u32 {
    if 0 <= i < s.len() { s[i] } else { 0 }
}

/// Major, minor and patch of a version string; a missing part counts as 0.
pub open spec fn version_triple(v: Seq<char>) -> (u32, u32, u32) {
    let nums = parsed_parts(split_on(v, '.'));
    (nth_or_zero(nums, 0), nth_or_zero(nums, 1), nth_or_zero(nums, 2))
}

/// Lexicographic order on (major, minor, patch).
pub open spec fn triple_lt(a: (u32, u32, u32), b: (u32, u32, u32)) -> bool {
    ||| a.0 < b.0
    ||| a.0 == b.0 && a.1 < b.1
    ||| a.0 == b.0 && a.1 == b.1 && a.2 < b.2
}

/// Major, minor and patch of a version string.
fn version_of(v: &str) -> (r: (u32, u32, u32))
    ensures
        r == version_triple(v@),
{
    let chars = chars_of(v);
    let parts = split_chars(chars.as_slice(), '.');
    let ghost part_views = parts@.map_values(|p: Vec<char>| p@);
    let mut nums: Vec<u32> = Vec::new();
    let mut i: usize = 0;
    while i < parts.len()
        invariant
            0 <= i <= parts@.len(),
            part_views == parts@.map_values(|p: Vec<char>| p@),
            nums@ == parsed_parts(part_views.take(i as int)),
        decreases parts@.len() - i,
    {
        proof {
            assert(part_views.take(i + 1).drop_last() =~= part_views.take(i as int));
            assert(part_views.take(i + 1).last() == parts@[i as int]@);
        }
        match parse_unsigned_chars(parts[i].as_slice(), u32::MAX) {
            Some(n) => nums.push(n),
            None => {},
        }
        i = i + 1;
    }
    proof {
        assert(part_views.take(parts@.len() as int) =~= part_views);
    }
    let major = if nums.len() > 0 { nums[0] } else { 0 };
    let minor = if nums.len() > 1 { nums[1] } else { 0 };
    let patch = if nums.len() > 2 { nums[2] } else { 0 };
    (major, minor, patch)
}

/// Compare two semver version strings. Returns true if `latest` is newer.
pub fn is_newer(current: &str, latest: &str) -> (r: bool)
    ensures
        r == triple_lt(version_triple(current@), version_triple(latest@)),
{
    let c = version_of(current);
    let l = version_of(latest);
    c.0 < l.0 || (c.0 == l.0 && c.1 < l.1) || (c.0 == l.0 && c.1 == l.1 && c.2 < l.2)
}

/// The string value of `key` in a JSON object, read the simple way: the first
/// occurrence of `"key"`, then the first `:` after it, then optional
/// whitespace, then a string in double quotes without escapes.
pub open spec fn json_string_value(json: Seq<char>, key: Seq<char>) -> Option<Seq<char>> {
    let pat = seq!['"'] + key + seq!['"'];
    match find(json, pat) {
        None => None,
        Some(start) => {
            let after_key = json.skip(start + pat.len());
            match find(after_key, seq![':']) {
                None => None,
                Some(colon) => {
                    let rest = trim_start(after_key.skip(colon + 1));
                    if rest.len() == 0 || rest[0] != '"' {
                        None
                    } else {
                        match find(rest.skip(1), seq!['"']) {
                            None => None,
                            Some(end) => Some(rest.subrange(1, 1 + end)),
                        }
                    }
                }
            }
        }
    }
}

/// Extract a string value for a given key from a JSON object (simple parser).
pub fn extract_json_string(json: &str, key: &str) -> (r: Option<String>)
    ensures
        match json_string_value(json@, key@) {
            Some(v) => r matches Some(s) && s@ == v,
            None => r is None,
        },
{
    let js = chars_of(json);
    let k = chars_of(key);
    let mut pat: Vec<char> = Vec::new();
    pat.push('"');
    let mut i: usize = 0;
    while i < k.len()
        invariant
            0 <= i <= k@.len(),
            pat@ == seq!['"'] + k@.take(i as int),
        decreases k@.len() - i,
    {
        proof {
            assert(k@.take(i + 1) =~= k@.take(i as int).push(k@[i as int]));
            assert(seq!['"'] + k@.take(i + 1) =~= (seq!['"'] + k@.take(i as int)).push(k@[i as int]));
        }
        pat.push(k[i]);
        i = i + 1;
    }
    pat.push('"');
    proof {
        assert(k@.take(k@.len() as int) =~= k@);
        assert(pat@ =~= seq!['"'] + key@ + seq!['"']);
    }
    let start = match find_chars(js.as_slice(), pat.as_slice()) {
        Some(s) => s,
        None => return None,
    };
    let jn = js.len();
    let after_key = &js.as_slice()[start + pat.len()..jn];
    proof {
        assert(after_key@ =~= js@.skip(start + pat@.len()));
    }
    let colon_pat = [':'];
    proof {
        assert(colon_pat@ =~= seq![':']);
    }
    let colon = match find_chars(after_key, colon_pat.as_slice()) {
        Some(c) => c,
        None => return None,
    };
    let after_colon = &after_key[colon + 1..after_key.len()];
    let ws = count_leading_ws(after_colon);
    let rest = &after_colon[ws..after_colon.len()];
    proof {
        lemma_leading_ws_bound(after_colon@);
        assert(rest@ =~= trim_start(after_key@.skip(colon + 1)));
    }
    if rest.len() == 0 || rest[0] != '"' {
        return None;
    }
    let body = &rest[1..rest.len()];
    let quote_pat = ['"'];
    proof {
        assert(quote_pat@ =~= seq!['"']);
    }
    match find_chars(body, quote_pat.as_slice()) {
        Some(end) => {
            let value = &body[0..end];
            proof {
                assert(body@ =~= rest@.skip(1));
                assert(value@ =~= rest@.subrange(1, 1 + end));
            }
            Some(string_from_chars(value))
        },
        None => {
            proof {
                assert(body@ =~= rest@.skip(1));
            }
            None
        },
    }
}


/// No version is newer than itself.
pub proof fn law_version_not_newer_than_itself(v: Seq<char>)
    ensures
        !triple_lt(version_triple(v), version_triple(v)),
{
}

/// Of two versions, at most one is newer than the other.
pub proof fn law_newer_is_asymmetric(a: Seq<char>, b: Seq<char>)
    ensures
        !(triple_lt(version_triple(a), version_triple(b)) && triple_lt(
            version_triple(b),
            version_triple(a),
        )),
{
}

/// A version newer than a newer version is newer still.
pub proof fn law_newer_is_transitive(a: Seq<char>, b: Seq<char>, c: Seq<char>)
    requires
        triple_lt(version_triple(a), version_triple(b)),
        triple_lt(version_triple(b), version_triple(c)),
    ensures
        triple_lt(version_triple(a), version_triple(c)),
{
}

/// The version `a.b.c`, each number written in decimal.
pub open spec fn dotted(a: u32, b: u32, c: u32) -> Seq<char> {
    decimal(a as nat) + seq!['.'] + decimal(b as nat) + seq!['.'] + decimal(c as nat)
}

/// Splitting at a separator placed between two strings splits each of them.
proof fn lemma_split_around(p: Seq<char>, q: Seq<char>, sep: char)
    ensures
        split_on(p + seq![sep] + q, sep) == split_on(p, sep) + split_on(q, sep),
    decreases q.len(),
{
    let head = p + seq![sep];
    if q.len() == 0 {
        assert(head + q =~= head);
        assert(head.drop_last() =~= p);
        assert(split_on(q, sep) == seq![Seq::<char>::empty()]);
        assert(split_on(p, sep).push(Seq::<char>::empty()) =~= split_on(p, sep) + split_on(q, sep));
    } else {
        lemma_split_around(p, q.drop_last(), sep);
        lemma_split_on_nonempty(q.drop_last(), sep);
        lemma_split_on_nonempty(p, sep);
        assert((head + q).drop_last() =~= head + q.drop_last());
        assert((head + q).last() == q.last());
        let left = split_on(p, sep);
        let right = split_on(q.drop_last(), sep);
        if q.last() == sep {
            assert((left + right).push(Seq::<char>::empty()) =~= left + right.push(Seq::<char>::empty()));
        } else {
            let joined = left + right;
            assert(joined.last() == right.last());
            assert(joined.update(joined.len() - 1, joined.last().push(q.last())) =~= left + right.update(
                right.len() - 1,
                right.last().push(q.last()),
            ));
        }
    }
}

/// A string without the separator is a single part.
proof fn lemma_split_without(p: Seq<char>, sep: char)
    requires
        forall|i: int| 0 <= i < p.len() ==> p[i] != sep,
    ensures
        split_on(p, sep) == seq![p],
    decreases p.len(),
{
    if p.len() > 0 {
        lemma_split_without(p.drop_last(), sep);
        assert(p.drop_last().push(p.last()) =~= p);
        assert(seq![p.drop_last()].update(0, p.drop_last().push(p.last())) =~= seq![p]);
    } else {
        assert(p =~= Seq::<char>::empty());
    }
}

/// A decimal numeral holds no `.`, and reads back as its number.
proof fn lemma_numeral(n: u32)
    ensures
        forall|i: int| 0 <= i < decimal(n as nat).len() ==> decimal(n as nat)[i] != '.',
        parse_unsigned(decimal(n as nat), u32::MAX as nat) == Some(n as nat),
{
    law_decimal_parses_back(n as nat, u32::MAX as nat);
    let d = decimal(n as nat);
    assert forall|i: int| 0 <= i < d.len() implies d[i] != '.' by {
        if d.len() > 0 && d[0] == '+' {
            if i > 0 {
                assert(d.drop_first()[i - 1] == d[i]);
            }
        }
    }
}

/// A version written as `a.b.c` reads back as `(a, b, c)`; so of two such
/// versions, `is_newer` says the second is newer exactly when its triple
/// comes after the first's in lexicographic order.
pub proof fn law_dotted_versions_compare(a: u32, b: u32, c: u32, x: u32, y: u32, z: u32)
    ensures
        version_triple(dotted(a, b, c)) == (a, b, c),
        triple_lt(version_triple(dotted(a, b, c)), version_triple(dotted(x, y, z))) == triple_lt(
            (a, b, c),
            (x, y, z),
        ),
{
    lemma_dotted_triple(a, b, c);
    lemma_dotted_triple(x, y, z);
}

proof fn lemma_dotted_triple(a: u32, b: u32, c: u32)
    ensures
        version_triple(dotted(a, b, c)) == (a, b, c),
{
    let (da, db, dc) = (decimal(a as nat), decimal(b as nat), decimal(c as nat));
    lemma_numeral(a);
    lemma_numeral(b);
    lemma_numeral(c);
    lemma_split_without(da, '.');
    lemma_split_without(db, '.');
    lemma_split_without(dc, '.');
    lemma_split_around(da, db, '.');
    let ab = da + seq!['.'] + db;
    lemma_split_around(ab, dc, '.');
    assert(dotted(a, b, c) == ab + seq!['.'] + dc);
    let parts = seq![da, db, dc];
    assert(split_on(dotted(a, b, c), '.') =~= parts);
    assert(parts.drop_last() =~= seq![da, db]);
    assert(seq![da, db].drop_last() =~= seq![da]);
    assert(seq![da].drop_last() =~= Seq::<Seq<char>>::empty());
    let nums = parsed_parts(parts);
    assert(parsed_parts(Seq::<Seq<char>>::empty()) =~= Seq::<u32>::empty());
    assert(seq![da].last() == da);
    assert(parsed_parts(seq![da]) =~= seq![a]);
    assert(parsed_parts(seq![da, db]) =~= seq![a, b]);
    assert(nums =~= seq![a, b, c]);
}

/// The GitHub repository releases come from.
pub open spec fn repo() -> Seq<char> {
    "IISweetHeartII/emux"@
}

/// The address of the latest release's description.
pub open spec fn latest_release_address() -> Seq<char> {
    "https://api.github.com/repos/"@ + repo() + "/releases/latest"@
}

/// The address of the latest release's description.
pub fn latest_release_url() -> (r: String)
    ensures
        r@ == latest_release_address(),
{
    let mut v = chars_of("https://api.github.com/repos/");
    push_str(&mut v, "IISweetHeartII/emux");
    push_str(&mut v, "/releases/latest");
    string_from_chars(v.as_slice())
}

/// A release: its tag, and its version (the tag without leading `v`s).
#[derive(Debug, Clone)]
pub struct ReleaseInfo {
    pub tag: String,
    pub version: String,
}

/// The number of leading `v`s of `s`.
pub open spec fn leading_vs(s: Seq<char>) -> nat
    decreases s.len(),
{
    if s.len() > 0 && s[0] == 'v' {
        1 + leading_vs(s.drop_first())
    } else {
        0
    }
}

/// `s` without its leading `v`s.
pub open spec fn without_leading_vs(s: Seq<char>) -> Seq<char> {
    s.skip(leading_vs(s) as int)
}

proof fn lemma_leading_vs(s: Seq<char>)
    ensures
        leading_vs(s) <= s.len(),
    decreases s.len(),
{
    if s.len() > 0 && s[0] == 'v' {
        lemma_leading_vs(s.drop_first());
    }
}

/// The release a release description names: its `tag_name`, and the tag
/// without leading `v`s as the version; an error where the description has
/// no tag name.
pub fn release_from_description(body: &str) -> (r: Result<ReleaseInfo, String>)
    ensures
        match json_string_value(body@, "tag_name"@) {
            Some(tag) => r matches Ok(info) && info.tag@ == tag && info.version@
                == without_leading_vs(tag),
            None => r matches Err(e) && e@ == "could not find tag_name in release response"@,
        },
{
    let tag = match extract_json_string(body, "tag_name") {
        Some(t) => t,
        None => {
            let msg = chars_of("could not find tag_name in release response");
            return Err(string_from_chars(msg.as_slice()));
        },
    };
    let chars = chars_of(tag.as_str());
    let mut i: usize = 0;
    proof {
        lemma_leading_vs(chars@);
        assert(chars@.skip(0) =~= chars@);
    }
    while i < chars.len() && chars[i] == 'v'
        invariant
            0 <= i <= chars@.len(),
            leading_vs(chars@) == i + leading_vs(chars@.skip(i as int)),
        decreases chars@.len() - i,
    {
        proof {
            assert(chars@.skip(i as int).drop_first() =~= chars@.skip(i + 1));
        }
        i = i + 1;
    }
    proof {
        if i < chars@.len() {
            assert(chars@.skip(i as int)[0] == chars@[i as int]);
        }
    }
    let version = string_from_chars(&chars.as_slice()[i..chars.len()]);
    Ok(ReleaseInfo { tag, version })
}

/// The target triple built for a platform, named by `std::env::consts`'
/// operating system and architecture.
pub open spec fn target_for(os: Seq<char>, arch: Seq<char>) -> Option<Seq<char>> {
    if os == "linux"@ && arch == "x86_64"@ {
        Some("x86_64-unknown-linux-gnu"@)
    } else if os == "linux"@ && arch == "aarch64"@ {
        Some("aarch64-unknown-linux-gnu"@)
    } else if os == "macos"@ && arch == "x86_64"@ {
        Some("x86_64-apple-darwin"@)
    } else if os == "macos"@ && arch == "aarch64"@ {
        Some("aarch64-apple-darwin"@)
    } else if os == "windows"@ && arch == "x86_64"@ {
        Some("x86_64-pc-windows-msvc"@)
    } else if os == "windows"@ && arch == "aarch64"@ {
        Some("aarch64-pc-windows-msvc"@)
    } else {
        None
    }
}

/// The target triple for the platform `os`/`arch`, or an error naming an
/// unsupported one.
pub fn target_triple(os: &str, arch: &str) -> (r: Result<String, String>)
    ensures
        match target_for(os@, arch@) {
            Some(t) => r matches Ok(s) && s@ == t,
            None => r matches Err(e) && e@ == "unsupported platform: "@ + os@ + "/"@ + arch@,
        },
{
    let o = chars_of(os);
    let a = chars_of(arch);
    let triple = if spells(o.as_slice(), "linux") && spells(a.as_slice(), "x86_64") {
        "x86_64-unknown-linux-gnu"
    } else if spells(o.as_slice(), "linux") && spells(a.as_slice(), "aarch64") {
        "aarch64-unknown-linux-gnu"
    } else if spells(o.as_slice(), "macos") && spells(a.as_slice(), "x86_64") {
        "x86_64-apple-darwin"
    } else if spells(o.as_slice(), "macos") && spells(a.as_slice(), "aarch64") {
        "aarch64-apple-darwin"
    } else if spells(o.as_slice(), "windows") && spells(a.as_slice(), "x86_64") {
        "x86_64-pc-windows-msvc"
    } else if spells(o.as_slice(), "windows") && spells(a.as_slice(), "aarch64") {
        "aarch64-pc-windows-msvc"
    } else {
        let mut msg = chars_of("unsupported platform: ");
        push_str(&mut msg, os);
        push_str(&mut msg, "/");
        push_str(&mut msg, arch);
        return Err(string_from_chars(msg.as_slice()));
    };
    Ok(triple.to_owned())
}

/// The archive of a release for a target: `emux-<tag>-<target>.zip` on
/// Windows, `.tar.gz` elsewhere.
pub open spec fn archive_name(tag: Seq<char>, target: Seq<char>, windows: bool) -> Seq<char> {
    "emux-"@ + tag + "-"@ + target + "."@ + (if windows {
        "zip"@
    } else {
        "tar.gz"@
    })
}

/// The download address of a release archive.
pub open spec fn archive_address(tag: Seq<char>, archive: Seq<char>) -> Seq<char> {
    "https://github.com/"@ + repo() + "/releases/download/"@ + tag + "/"@ + archive
}

/// What to download for a release and a target, and what to install from
/// it: the archive's name, its address, and the binary inside.
#[derive(Debug, Clone)]
pub struct DownloadPlan {
    pub archive_name: String,
    pub url: String,
    pub binary_name: String,
}

/// Plan the download of a release for a target.
pub fn download_plan(tag: &str, target: &str, windows: bool) -> (r: DownloadPlan)
    ensures
        r.archive_name@ == archive_name(tag@, target@, windows),
        r.url@ == archive_address(tag@, archive_name(tag@, target@, windows)),
        r.binary_name@ == (if windows {
            "emux.exe"@
        } else {
            "emux"@
        }),
{
    let mut name = chars_of("emux-");
    push_str(&mut name, tag);
    push_str(&mut name, "-");
    push_str(&mut name, target);
    push_str(&mut name, ".");
    push_str(&mut name, if windows { "zip" } else { "tar.gz" });
    let mut url = chars_of("https://github.com/");
    push_str(&mut url, "IISweetHeartII/emux");
    push_str(&mut url, "/releases/download/");
    push_str(&mut url, tag);
    push_str(&mut url, "/");
    let mut tail = vstd::slice::slice_to_vec(name.as_slice());
    url.append(&mut tail);
    proof {
        assert(name@ =~= archive_name(tag@, target@, windows));
        assert(url@ =~= archive_address(tag@, archive_name(tag@, target@, windows)));
    }
    let binary = if windows { "emux.exe" } else { "emux" };
    DownloadPlan {
        archive_name: string_from_chars(name.as_slice()),
        url: string_from_chars(url.as_slice()),
        binary_name: binary.to_owned(),
    }
}

/// How long the last update check stays fresh: one day, in seconds.
pub const UPDATE_CHECK_INTERVAL_SECS: u64 = 86400;

/// Whether to check for an update, given how long ago (in seconds) the
/// last check was made, if one is on record.
pub fn update_check_due(since_last: Option<u64>) -> (r: bool)
    ensures
        r == match since_last {
            Some(s) => s >= UPDATE_CHECK_INTERVAL_SECS,
            None => true,
        },
{
    match since_last {
        Some(s) => s >= UPDATE_CHECK_INTERVAL_SECS,
        None => true,
    }
}

} // verus!
