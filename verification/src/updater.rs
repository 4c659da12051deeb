//! Self-update: deciding whether a release is offered, which of its assets
//! fits this machine, and what Linux package family the machine uses. The
//! network and file work is the caller's.

use vstd::prelude::*;
use crate::commands::{parse_version_triple, version_triple};
use crate::license::{hex_encode, hex_text, sha256, sha256_digest};
use crate::json::{Json, JsonView, get_arr, get_bool, get_str, get_u64, jget, lemma_views, views};
use crate::text::{
    chars_of, contains_exec, contains_seq, ends_with_exec, first_index, has_prefix, has_suffix,
    lemma_first_index_prefix, lemma_first_index_push, lowercase, opt_index, split_chars, split_seq,
    starts_with_exec, str_eq, string_from_range, string_push_str, sub_chars, to_lowercase, trim_end_char,
    trim_start_char,
};

verus! {

/// A release newer than the running one.
pub struct UpdateInfo {
    pub version: String,
    pub asset_url: String,
    /// Expected SHA-256 of the asset as the release lists it, hex only.
    pub digest: Option<String>,
    pub downloaded_path: Option<String>,
}

/// `(a0, a1, a2) <= (b0, b1, b2)` in lexicographic order.
pub open spec fn triple_le(a: (u64, u64, u64), b: (u64, u64, u64)) -> bool {
    a.0 < b.0 || (a.0 == b.0 && (a.1 < b.1 || (a.1 == b.1 && a.2 <= b.2)))
}

/// What a release listing says for a running `current` version: an error
/// when its tag is missing or is not a version, nothing when it is not newer,
/// else its tag.
pub open spec fn release_offer_spec(release: JsonView, current: (u64, u64, u64)) -> Result<Option<Seq<char>>, Seq<char>> {
    match get_str(release, "tag_name"@) {
        None => Err("missing tag_name in release"@),
        Some(tag) => match version_triple(tag) {
            None => Err("invalid release version: "@ + tag),
            Some(latest) => if triple_le(latest, current) { Ok(None) } else { Ok(Some(tag)) },
        },
    }
}

/// An optional tag with its message, by value.
pub open spec fn offer_view(r: Result<Option<String>, String>) -> Result<Option<Seq<char>>, Seq<char>> {
    match r {
        Ok(Some(t)) => Ok(Some(t@)),
        Ok(None) => Ok(None),
        Err(m) => Err(m@),
    }
}

/// Decide whether the latest release is offered to a running `current`.
pub fn release_offer(release: &Json, current: (u64, u64, u64)) -> (r: Result<Option<String>, String>)
    ensures
        offer_view(r) == release_offer_spec(release.view(), current),
{
    let tag = match release.get_str("tag_name") {
        Some(t) => t,
        None => return Err("missing tag_name in release".to_owned()),
    };
    let latest = match parse_version_triple(tag) {
        Some(v) => v,
        None => {
            let mut m = "invalid release version: ".to_owned();
            string_push_str(&mut m, tag);
            return Err(m);
        },
    };
    let le = latest.0 < current.0 || (latest.0 == current.0 && (latest.1 < current.1 || (latest.1 == current.1
        && latest.2 <= current.2)));
    if le {
        Ok(None)
    } else {
        Ok(Some(tag.to_owned()))
    }
}

/// The licence worker's verdict allows updates only when `valid` is `true`.
pub fn license_valid(validation: &Json) -> (b: bool)
    ensures
        b == (get_bool(validation.view(), "valid"@) == Some(true)),
{
    match validation.get_bool("valid") {
        Some(v) => v,
        None => false,
    }
}

/// An asset whose name ends with one of two suffixes.
pub open spec fn named_with(s1: Seq<char>, s2: Seq<char>) -> spec_fn(JsonView) -> bool {
    |a: JsonView| match get_str(a, "name"@) {
        Some(n) => has_suffix(n, s1) || has_suffix(n, s2),
        None => false,
    }
}

/// The installer suffix preferred on a Linux package family.
pub open spec fn preferred_suffix(family: Seq<char>) -> Seq<char> {
    if family == "deb"@ {
        ".deb"@
    } else if family == "rpm"@ {
        ".rpm"@
    } else {
        ".AppImage"@
    }
}

/// The index of the asset to install: a `.msi` or `.exe` on Windows, a
/// `.dmg` or `.app.tar.gz` on macOS, the package family's package on Linux
/// with an AppImage as fallback, and nothing elsewhere.
pub open spec fn asset_choice(assets: Seq<JsonView>, os: Seq<char>, family: Seq<char>) -> Option<int> {
    if os == "windows"@ {
        first_index(assets, named_with(".msi"@, ".exe"@))
    } else if os == "macos"@ {
        first_index(assets, named_with(".dmg"@, ".app.tar.gz"@))
    } else if os == "linux"@ {
        match first_index(assets, named_with(preferred_suffix(family), preferred_suffix(family))) {
            Some(i) => Some(i),
            None => first_index(assets, named_with(".AppImage"@, ".AppImage"@)),
        }
    } else {
        None
    }
}

fn find_asset(assets: &Vec<Json>, s1: &str, s2: &str) -> (r: Option<usize>)
    ensures
        opt_index(r) == first_index(views(assets@), named_with(s1@, s2@)),
        r matches Some(i) ==> i < assets@.len(),
{
    proof {
        lemma_views(assets@);
    }
    let ghost a = views(assets@);
    let ghost f = named_with(s1@, s2@);
    let v1 = chars_of(s1);
    let v2 = chars_of(s2);
    let mut i: usize = 0;
    assert(a.subrange(0, 0) =~= Seq::<JsonView>::empty());
    while i < assets.len()
        invariant
            i <= assets@.len(),
            a == views(assets@),
            a.len() == assets@.len(),
            forall|k: int| 0 <= k < assets@.len() ==> #[trigger] a[k] == assets@[k].view(),
            f == named_with(s1@, s2@),
            v1@ == s1@,
            v2@ == s2@,
            first_index(a.subrange(0, i as int), f) == None::<int>,
        decreases assets.len() - i,
    {
        proof {
            lemma_first_index_push(a, f, i as int);
        }
        let hit = match assets[i].get_str("name") {
            Some(n) => {
                let nv = chars_of(n);
                ends_with_exec(&nv, &v1) || ends_with_exec(&nv, &v2)
            },
            None => false,
        };
        if hit {
            proof {
                lemma_first_index_prefix(a, f, i as int + 1);
            }
            return Some(i);
        }
        i = i + 1;
    }
    assert(a.subrange(0, a.len() as int) =~= a);
    None
}

/// The URL and digest of the asset to install, or why there is none. The
/// digest is the hex after `sha256:`, where the asset lists one so.
pub open spec fn asset_for_spec(release: JsonView, os: Seq<char>, family: Seq<char>) -> Result<(Seq<char>, Option<Seq<char>>), Seq<char>> {
    match jget(release, "assets"@) {
        Some(JsonView::Array(assets)) => match asset_choice(assets, os, family) {
            None => Err("no suitable update asset found"@),
            Some(i) => match get_str(assets[i], "browser_download_url"@) {
                None => Err("missing browser_download_url"@),
                Some(url) => Ok((url, match get_str(assets[i], "digest"@) {
                    Some(d) => if has_prefix(d, "sha256:"@) { Some(d.subrange(7, d.len() as int)) } else { None },
                    None => None,
                })),
            },
        },
        _ => Err("missing assets in release"@),
    }
}

/// An asset choice by value.
pub open spec fn asset_view(r: Result<(String, Option<String>), String>) -> Result<(Seq<char>, Option<Seq<char>>), Seq<char>> {
    match r {
        Ok((url, Some(d))) => Ok((url@, Some(d@))),
        Ok((url, None)) => Ok((url@, None)),
        Err(m) => Err(m@),
    }
}

/// Pick the asset of a release to install on `os` (as `std::env::consts::OS`
/// names it), given the Linux package family.
pub fn asset_for(release: &Json, os: &str, family: &str) -> (r: Result<(String, Option<String>), String>)
    ensures
        asset_view(r) == asset_for_spec(release.view(), os@, family@),
{
    let assets = match release.get("assets") {
        Some(j) => match j.as_array() {
            Some(a) => a,
            None => return Err("missing assets in release".to_owned()),
        },
        None => return Err("missing assets in release".to_owned()),
    };
    proof {
        lemma_views(assets@);
    }
    let choice = if str_eq(os, "windows") {
        find_asset(assets, ".msi", ".exe")
    } else if str_eq(os, "macos") {
        find_asset(assets, ".dmg", ".app.tar.gz")
    } else if str_eq(os, "linux") {
        let preferred = if str_eq(family, "deb") {
            ".deb"
        } else if str_eq(family, "rpm") {
            ".rpm"
        } else {
            ".AppImage"
        };
        match find_asset(assets, preferred, preferred) {
            Some(i) => Some(i),
            None => find_asset(assets, ".AppImage", ".AppImage"),
        }
    } else {
        None
    };
    let i = match choice {
        Some(i) => i,
        None => return Err("no suitable update asset found".to_owned()),
    };
    let asset = &assets[i];
    let url = match asset.get_str("browser_download_url") {
        Some(u) => u.to_owned(),
        None => return Err("missing browser_download_url".to_owned()),
    };
    let digest = match asset.get_str("digest") {
        Some(d) => {
            let dv = chars_of(d);
            let prefix = chars_of("sha256:");
            proof {
                reveal_strlit("sha256:");
            }
            if starts_with_exec(&dv, &prefix) {
                Some(string_from_range(&dv, 7, dv.len()))
            } else {
                None
            }
        },
        None => None,
    };
    Ok((url, digest))
}

// ---------------------------------------------------------------------------
// Linux package family
// ---------------------------------------------------------------------------

/// A line of `/etc/os-release` as `str::lines` gives it: a `\r` before the
/// newline is dropped.
pub open spec fn os_release_line(pieces: Seq<Seq<char>>, k: int) -> Seq<char> {
    let p = pieces[k];
    if k < pieces.len() - 1 && p.len() > 0 && p.last() == '\r' {
        p.drop_last()
    } else {
        p
    }
}

/// The value of the first `KEY=` line, quotes trimmed and lower-cased; empty
/// when there is none.
pub open spec fn os_release_field(content: Seq<char>, key: Seq<char>) -> Seq<char> {
    let pieces = split_seq(content, '\n');
    let lines = Seq::new(pieces.len(), |k: int| os_release_line(pieces, k));
    match first_index(lines, |l: Seq<char>| has_prefix(l, key)) {
        Some(k) => lowercase(trim_end_char(trim_start_char(lines[k].subrange(key.len() as int, lines[k].len() as int), '"'), '"')),
        None => Seq::empty(),
    }
}

/// The package family of a Linux distribution from its `/etc/os-release`:
/// `rpm` for the Fedora, RHEL and SUSE families, `deb` for Debian and Ubuntu,
/// and empty otherwise.
pub open spec fn package_family_spec(content: Seq<char>) -> Seq<char> {
    let id = os_release_field(content, "ID="@);
    let like = os_release_field(content, "ID_LIKE="@);
    if contains_seq(id, "fedora"@) || contains_seq(like, "fedora"@) || contains_seq(id, "rhel"@)
        || contains_seq(like, "rhel"@) || contains_seq(id, "suse"@) || contains_seq(like, "suse"@) {
        "rpm"@
    } else if contains_seq(id, "debian"@) || contains_seq(like, "debian"@) || contains_seq(id, "ubuntu"@)
        || contains_seq(like, "ubuntu"@) {
        "deb"@
    } else {
        Seq::empty()
    }
}

fn trim_quotes(v: &Vec<char>, from: usize) -> (r: String)
    requires
        from <= v@.len(),
    ensures
        r@ == trim_end_char(trim_start_char(v@.subrange(from as int, v@.len() as int), '"'), '"'),
{
    let mut start = from;
    let ghost whole = v@.subrange(from as int, v@.len() as int);
    while start < v.len() && v[start] == '"'
        invariant
            from <= start <= v@.len(),
            trim_start_char(whole, '"') == trim_start_char(v@.subrange(start as int, v@.len() as int), '"'),
        decreases v.len() - start,
    {
        assert(v@.subrange(start as int, v@.len() as int).drop_first() =~= v@.subrange(start + 1, v@.len() as int));
        start = start + 1;
    }
    assert(trim_start_char(v@.subrange(start as int, v@.len() as int), '"') == v@.subrange(start as int, v@.len() as int));
    let mut end = v.len();
    assert(v@.subrange(start as int, end as int) =~= v@.subrange(start as int, v@.len() as int));
    while end > start && v[end - 1] == '"'
        invariant
            start <= end <= v@.len(),
            trim_end_char(v@.subrange(start as int, v@.len() as int), '"') == trim_end_char(v@.subrange(start as int, end as int), '"'),
        decreases end,
    {
        assert(v@.subrange(start as int, end as int).drop_last() =~= v@.subrange(start as int, end - 1));
        end = end - 1;
    }
    assert(trim_end_char(v@.subrange(start as int, end as int), '"') == v@.subrange(start as int, end as int));
    string_from_range(v, start, end)
}

fn os_release_field_exec(content: &str, key: &str) -> (r: String)
    ensures
        r@ == os_release_field(content@, key@),
{
    let v = chars_of(content);
    let k = chars_of(key);
    let pieces = split_chars(&v, '\n');
    let ghost ps = pieces@.map_values(|p: Vec<char>| p@);
    let ghost lines = Seq::new(ps.len(), |j: int| os_release_line(ps, j));
    let ghost f = |l: Seq<char>| has_prefix(l, key@);
    assert(ps == split_seq(content@, '\n'));
    let mut i: usize = 0;
    assert(lines.subrange(0, 0) =~= Seq::<Seq<char>>::empty());
    while i < pieces.len()
        invariant
            i <= pieces@.len(),
            ps == pieces@.map_values(|p: Vec<char>| p@),
            ps == split_seq(content@, '\n'),
            lines == Seq::new(ps.len(), |j: int| os_release_line(ps, j)),
            f == |l: Seq<char>| has_prefix(l, key@),
            k@ == key@,
            first_index(lines.subrange(0, i as int), f) == None::<int>,
        decreases pieces.len() - i,
    {
        proof {
            lemma_first_index_push(lines, f, i as int);
        }
        let p = &pieces[i];
        let line = if i + 1 < pieces.len() && p.len() > 0 && p[p.len() - 1] == '\r' {
            sub_chars(p, 0, p.len() - 1)
        } else {
            sub_chars(p, 0, p.len())
        };
        assert(p@.subrange(0, p@.len() as int) =~= p@);
        assert(line@ == lines[i as int]);
        if starts_with_exec(&line, &k) {
            proof {
                lemma_first_index_prefix(lines, f, i as int + 1);
            }
            let raw = trim_quotes(&line, k.len());
            return to_lowercase(raw.as_str());
        }
        i = i + 1;
    }
    assert(lines.subrange(0, lines.len() as int) =~= lines);
    String::new()
}

/// The package family of this Linux machine, from the text of its
/// `/etc/os-release` (empty when it could not be read).
pub fn linux_package_family(os_release: &str) -> (r: &'static str)
    ensures
        r@ == package_family_spec(os_release@),
{
    let id_s = os_release_field_exec(os_release, "ID=");
    let like_s = os_release_field_exec(os_release, "ID_LIKE=");
    let id = chars_of(id_s.as_str());
    let like = chars_of(like_s.as_str());
    if contains_exec(&id, &chars_of("fedora")) || contains_exec(&like, &chars_of("fedora"))
        || contains_exec(&id, &chars_of("rhel")) || contains_exec(&like, &chars_of("rhel"))
        || contains_exec(&id, &chars_of("suse")) || contains_exec(&like, &chars_of("suse")) {
        "rpm"
    } else if contains_exec(&id, &chars_of("debian")) || contains_exec(&like, &chars_of("debian"))
        || contains_exec(&id, &chars_of("ubuntu")) || contains_exec(&like, &chars_of("ubuntu")) {
        "deb"
    } else {
        proof {
            reveal_strlit("");
        }
        ""
    }
}

/// Whether a downloaded file passes the integrity check: with no digest
/// reported there is nothing to check; otherwise the SHA-256 of its bytes,
/// in lower-case hex, must equal the reported digest lower-cased.
pub fn digest_matches(bytes: &[u8], expected: Option<&str>) -> (ok: bool)
    ensures
        ok == match expected {
            None => true,
            Some(e) => hex_text(sha256_digest(bytes@)) == lowercase(e@),
        },
{
    match expected {
        None => true,
        Some(e) => {
            let digest = sha256(bytes);
            let actual = hex_encode(digest.as_slice());
            let want = to_lowercase(e);
            str_eq(actual.as_str(), want.as_str())
        },
    }
}

// ---------------------------------------------------------------------------
// The command line's download
// ---------------------------------------------------------------------------

/// The asset the command line downloads: `tokenguard-{os}-{arch}`.
pub open spec fn cli_asset_name(os: Seq<char>, arch: Seq<char>) -> Seq<char> {
    "tokenguard-"@ + os + "-"@ + arch
}

/// Whether an asset has this exact name.
pub open spec fn named(name: Seq<char>) -> spec_fn(JsonView) -> bool {
    |a: JsonView| get_str(a, "name"@) == Some(name)
}

/// The download the command line picks from a release: the URL and size (0
/// when not given) of the asset with its exact name, or why there is none.
pub open spec fn cli_asset_spec(release: JsonView, os: Seq<char>, arch: Seq<char>) -> Result<(Seq<char>, u64), Seq<char>> {
    let name = cli_asset_name(os, arch);
    match get_str(release, "tag_name"@) {
        None => Err("release tag_name"@),
        Some(tag) => match get_arr(release, "assets"@) {
            None => Err("assets array"@),
            Some(a) => match first_index(a, named(name)) {
                None => Err("no asset named '"@ + name + "' found in "@ + tag),
                Some(i) => match get_str(a[i], "browser_download_url"@) {
                    None => Err("asset download url"@),
                    Some(u) => Ok((u, match get_u64(a[i], "size"@) {
                        Some(n) => n,
                        None => 0,
                    })),
                },
            },
        },
    }
}

/// Pick the asset `tokenguard update download` fetches for this machine.
pub fn cli_asset(release: &Json, os: &str, arch: &str) -> (r: Result<(String, u64), String>)
    ensures
        match cli_asset_spec(release.view(), os@, arch@) {
            Ok((u, n)) => r matches Ok(p) && p.0@ == u && p.1 == n,
            Err(e) => r matches Err(m) && m@ == e,
        },
{
    let mut name = "tokenguard-".to_owned();
    string_push_str(&mut name, os);
    string_push_str(&mut name, "-");
    string_push_str(&mut name, arch);
    let ghost nm = cli_asset_name(os@, arch@);
    assert(name@ == nm);
    let tag = match release.get_str("tag_name") {
        Some(t) => t,
        None => return Err("release tag_name".to_owned()),
    };
    let assets = match release.get_array("assets") {
        Some(a) => a,
        None => return Err("assets array".to_owned()),
    };
    let ghost av = views(assets@);
    let ghost f = named(nm);
    proof {
        lemma_views(assets@);
    }
    let mut i: usize = 0;
    assert(av.subrange(0, 0) =~= Seq::<JsonView>::empty());
    while i < assets.len()
        invariant
            i <= assets@.len(),
            av == views(assets@),
            av.len() == assets@.len(),
            forall|k: int| 0 <= k < assets@.len() ==> #[trigger] av[k] == assets@[k].view(),
            f == named(nm),
            name@ == nm,
            nm == cli_asset_name(os@, arch@),
            get_str(release.view(), "tag_name"@) == Some(tag@),
            get_arr(release.view(), "assets"@) == Some(av),
            first_index(av.subrange(0, i as int), f) == None::<int>,
        decreases assets.len() - i,
    {
        proof {
            lemma_first_index_push(av, f, i as int);
        }
        let hit = match assets[i].get_str("name") {
            Some(n) => str_eq(n, name.as_str()),
            None => false,
        };
        if hit {
            proof {
                lemma_first_index_prefix(av, f, i as int + 1);
            }
            let url = match assets[i].get_str("browser_download_url") {
                Some(u) => u.to_owned(),
                None => return Err("asset download url".to_owned()),
            };
            let size = match assets[i].get_u64("size") {
                Some(n) => n,
                None => 0,
            };
            return Ok((url, size));
        }
        i = i + 1;
    }
    assert(av.subrange(0, av.len() as int) =~= av);
    let mut m = "no asset named '".to_owned();
    string_push_str(&mut m, name.as_str());
    string_push_str(&mut m, "' found in ");
    string_push_str(&mut m, tag);
    Err(m)
}

} // verus!
