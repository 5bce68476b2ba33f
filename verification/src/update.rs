//! Self-update support: release metadata, version comparison, platform
//! detection from `/etc/os-release` text, and installer selection.

use vstd::prelude::*;
use vstd::string::StrSliceExecFns;
use vstd::string::StringExecFns;
use crate::text::{chars_of, contains_chars, ends_with_chars, seq_ascii_lower, seq_contains, seq_ends_with, str_eq, to_ascii_lower};

verus! {

/// One downloadable file of a release.
#[derive(Debug)]
pub struct GhAsset {
    pub name: String,
    pub browser_download_url: String,
    pub size: u64,
}

/// A published release.
#[derive(Debug)]
pub struct GhRelease {
    pub tag_name: String,
    pub name: String,
    pub body: String,
    pub html_url: String,
    pub assets: Vec<GhAsset>,
}

/// A tag without its optional leading `v`.
pub open spec fn strip_v(s: Seq<char>) -> Seq<char> {
    if s.len() > 0 && s[0] == 'v' {
        s.drop_first()
    } else {
        s
    }
}

/// `s` without one leading `v`, if it has one.
pub fn strip_v_prefix(s: &str) -> (r: &str)
    ensures
        r@ == strip_v(s@),
{
    let n = s.unicode_len();
    if n > 0 && s.get_char(0) == 'v' {
        s.substring_char(1, n)
    } else {
        s
    }
}

impl GhRelease {
    /// The version string of the release (the tag without a leading `v`).
    pub fn version(&self) -> (r: &str)
        ensures
            r@ == strip_v(self.tag_name@),
    {
        strip_v_prefix(self.tag_name.as_str())
    }
}


#[verifier::external_type_specification]
#[verifier::external_body]
pub struct ExVersion(semver::Version);

/// `s` is a version that `semver::Version::parse` accepts.
pub uninterp spec fn semver_parses(s: Seq<char>) -> bool;

/// The version parsed from `a` is strictly greater than the one parsed from `b`
/// in semver's ordering (`Version`'s `Ord`).
pub uninterp spec fn semver_greater(a: Seq<char>, b: Seq<char>) -> bool;

/// A version string together with the version `semver` parsed from it.
/// Values of this type are only made by `parse_version`.
pub struct SemVersion {
    text: String,
    parsed: semver::Version,
}

impl View for SemVersion {
    type V = Seq<char>;

    closed spec fn view(&self) -> Seq<char> {
        self.text@
    }
}

/// `semver::Version::parse`: succeeds exactly on the texts that semver accepts;
/// the result remembers the text it was parsed from.
#[verifier::external_body]
fn parse_version(text: &str) -> (r: Option<SemVersion>)
    ensures
        r is Some <==> semver_parses(text@),
        r matches Some(v) ==> v@ == text@,
{
    match semver::Version::parse(text) {
        Ok(parsed) => Some(SemVersion { text: text.to_string(), parsed }),
        Err(_) => None,
    }
}

/// `>` of `semver::Version` (a strict total order, derived `Ord`) on the versions
/// parsed from the two texts; a version is never greater than itself.
#[verifier::external_body]
fn version_greater(a: &SemVersion, b: &SemVersion) -> (r: bool)
    ensures
        r == semver_greater(a@, b@),
        a@ == b@ ==> !r,
{
    a.parsed > b.parsed
}

/// Whether `latest_tag` names a newer release than `current`, given by the
/// comparison of the parsed versions, or by plain inequality when either fails to parse.
pub open spec fn newer_spec(current: Seq<char>, latest_tag: Seq<char>) -> bool {
    let latest = strip_v(latest_tag);
    if semver_parses(current) && semver_parses(latest) {
        semver_greater(latest, current)
    } else {
        current != latest
    }
}

/// The decision that follows the version comparison: `compared` is the outcome
/// of comparing the parsed versions, `None` when one of them did not parse.
pub fn newer_from_comparison(compared: Option<bool>, current: &str, latest: &str) -> (r: bool)
    ensures
        r == match compared {
            Some(b) => b,
            None => current@ != latest@,
        },
{
    match compared {
        Some(b) => b,
        None => !str_eq(current, latest),
    }
}

/// True when the release tag `latest_tag` (with or without a leading `v`)
/// is newer than the running version `current`.
pub fn is_newer(current: &str, latest_tag: &str) -> (r: bool)
    ensures
        r == newer_spec(current@, latest_tag@),
        strip_v(latest_tag@) == current@ ==> !r,
{
    let latest = strip_v_prefix(latest_tag);
    let compared = match (parse_version(current), parse_version(latest)) {
        (Some(c), Some(l)) => Some(version_greater(&l, &c)),
        _ => None,
    };
    newer_from_comparison(compared, current, latest)
}


/// Operating system the installer is chosen for.
#[derive(Debug, Clone, Copy, PartialEq, Eq, Structural)]
pub enum TargetOs {
    Windows,
    MacOs,
    Linux,
}

/// Architecture label in the form the installers use: `x86_64` / `aarch64`,
/// other values unchanged (`arm64` counts as `aarch64`).
pub open spec fn normalized_arch(raw: Seq<char>) -> Seq<char> {
    if raw == "x86_64"@ {
        "x86_64"@
    } else if raw == "aarch64"@ || raw == "arm64"@ {
        "aarch64"@
    } else {
        raw
    }
}

/// Normalise the architecture name of the running platform.
pub fn current_arch(raw: &str) -> (r: &str)
    ensures
        r@ == normalized_arch(raw@),
{
    if str_eq(raw, "x86_64") {
        "x86_64"
    } else if str_eq(raw, "aarch64") || str_eq(raw, "arm64") {
        "aarch64"
    } else {
        raw
    }
}

/// Whether an asset name (compared case-insensitively) carries the architecture.
pub open spec fn arch_matches(name: Seq<char>, arch: Seq<char>) -> bool {
    let n = seq_ascii_lower(name);
    if arch == "x86_64"@ {
        seq_contains(n, "x86_64"@) || seq_contains(n, "x64"@) || seq_contains(n, "amd64"@)
    } else if arch == "aarch64"@ {
        seq_contains(n, "aarch64"@) || seq_contains(n, "arm64"@)
    } else {
        seq_contains(n, arch)
    }
}

/// Whether an asset name (compared case-insensitively) carries the OS segment;
/// `darwin` also counts for `macos`.
pub open spec fn os_matches(name: Seq<char>, os_key: Seq<char>) -> bool {
    let n = seq_ascii_lower(name);
    seq_contains(n, os_key) || (os_key == "macos"@ && seq_contains(n, "darwin"@))
}

pub fn name_matches_arch(name: &str, arch: &str) -> (r: bool)
    ensures
        r == arch_matches(name@, arch@),
{
    let n = to_ascii_lower(chars_of(name).as_slice());
    if str_eq(arch, "x86_64") {
        contains_chars(n.as_slice(), chars_of("x86_64").as_slice())
            || contains_chars(n.as_slice(), chars_of("x64").as_slice())
            || contains_chars(n.as_slice(), chars_of("amd64").as_slice())
    } else if str_eq(arch, "aarch64") {
        contains_chars(n.as_slice(), chars_of("aarch64").as_slice())
            || contains_chars(n.as_slice(), chars_of("arm64").as_slice())
    } else {
        contains_chars(n.as_slice(), chars_of(arch).as_slice())
    }
}

pub fn name_contains_os(name: &str, os_key: &str) -> (r: bool)
    ensures
        r == os_matches(name@, os_key@),
{
    let n = to_ascii_lower(chars_of(name).as_slice());
    if contains_chars(n.as_slice(), chars_of(os_key).as_slice()) {
        return true;
    }
    str_eq(os_key, "macos") && contains_chars(n.as_slice(), chars_of("darwin").as_slice())
}

/// Architecture label used in Debian package names.
pub open spec fn deb_arch(arch: Seq<char>) -> Seq<char> {
    if arch == "x86_64"@ {
        "amd64"@
    } else if arch == "aarch64"@ {
        "arm64"@
    } else {
        arch
    }
}

/// One acceptance rule for installer names: the extension it must end with,
/// and optionally an OS segment, an architecture and a literal fragment it must carry.
pub struct AssetRule {
    pub ext: &'static str,
    pub os_key: Option<&'static str>,
    pub arch: Option<String>,
    pub fragment: Option<String>,
}

/// Mathematical form of an `AssetRule`.
pub struct RuleSpec {
    pub ext: Seq<char>,
    pub os_key: Option<Seq<char>>,
    pub arch: Option<Seq<char>>,
    pub fragment: Option<Seq<char>>,
}

impl View for AssetRule {
    type V = RuleSpec;

    open spec fn view(&self) -> RuleSpec {
        RuleSpec {
            ext: self.ext@,
            os_key: match self.os_key {
                Some(k) => Some(k@),
                None => None,
            },
            arch: match self.arch {
                Some(a) => Some(a@),
                None => None,
            },
            fragment: match self.fragment {
                Some(f) => Some(f@),
                None => None,
            },
        }
    }
}

pub open spec fn rule(
    ext: Seq<char>,
    os_key: Option<Seq<char>>,
    arch: Option<Seq<char>>,
    fragment: Option<Seq<char>>,
) -> RuleSpec {
    RuleSpec { ext, os_key, arch, fragment }
}

/// Whether the rule accepts an asset name.
pub open spec fn rule_accepts(r: RuleSpec, name: Seq<char>) -> bool {
    &&& seq_ends_with(name, r.ext)
    &&& (r.os_key matches Some(k) ==> os_matches(name, k))
    &&& (r.arch matches Some(a) ==> arch_matches(name, a))
    &&& (r.fragment matches Some(f) ==> seq_contains(name, f))
}

/// The rules tried in order for a platform, most specific first.
pub open spec fn asset_rules(os: TargetOs, arch: Seq<char>, distro: Seq<char>) -> Seq<RuleSpec> {
    match os {
        TargetOs::Windows => seq![
            rule(".msi"@, Some("windows"@), Some(arch), None),
            rule(".msi"@, None, Some(arch), None),
            rule(".msi"@, None, None, None),
        ],
        TargetOs::MacOs => seq![
            rule(".dmg"@, Some("macos"@), None, Some("universal"@)),
            rule(".dmg"@, Some("macos"@), Some(arch), None),
            rule(".dmg"@, None, None, Some("universal"@)),
            rule(".dmg"@, None, Some(arch), None),
            rule(".dmg"@, None, None, None),
        ],
        TargetOs::Linux => {
            let deb = if distro == "debian"@ || distro == "unknown"@ {
                seq![
                    rule(".deb"@, Some("linux"@), None, Some(deb_arch(arch))),
                    rule(".deb"@, None, None, Some(deb_arch(arch))),
                ]
            } else {
                seq![]
            };
            let pkg = if distro == "arch"@ || distro == "unknown"@ {
                seq![
                    rule(".pkg.tar.zst"@, Some("linux"@), Some(arch), None),
                    rule(".pkg.tar.zst"@, None, Some(arch), None),
                ]
            } else {
                seq![]
            };
            deb + pkg
        },
    }
}

/// Index of the first name the rule accepts.
pub open spec fn first_accepted(names: Seq<Seq<char>>, r: RuleSpec) -> Option<nat>
    decreases names.len(),
{
    if names.len() == 0 {
        None
    } else if rule_accepts(r, names[0]) {
        Some(0)
    } else {
        match first_accepted(names.drop_first(), r) {
            Some(i) => Some(i + 1),
            None => None,
        }
    }
}

/// Index of the asset chosen by the first rule that accepts any asset.
pub open spec fn pick_index(names: Seq<Seq<char>>, rules: Seq<RuleSpec>) -> Option<nat>
    decreases rules.len(),
{
    if rules.len() == 0 {
        None
    } else {
        match first_accepted(names, rules[0]) {
            Some(i) => Some(i),
            None => pick_index(names, rules.drop_first()),
        }
    }
}

pub open spec fn asset_names(assets: Seq<GhAsset>) -> Seq<Seq<char>> {
    assets.map_values(|a: GhAsset| a.name@)
}

proof fn lemma_first_accepted_at(names: Seq<Seq<char>>, r: RuleSpec, i: int)
    requires
        0 <= i < names.len(),
        rule_accepts(r, names[i]),
        forall|k: int| 0 <= k < i ==> !rule_accepts(r, #[trigger] names[k]),
    ensures
        first_accepted(names, r) == Some(i as nat),
    decreases names.len(),
{
    if i > 0 {
        assert forall|k: int| 0 <= k < i - 1 implies !rule_accepts(r, #[trigger] names.drop_first()[k]) by {
            assert(names.drop_first()[k] == names[k + 1]);
        }
        lemma_first_accepted_at(names.drop_first(), r, i - 1);
    }
}

proof fn lemma_first_accepted_none(names: Seq<Seq<char>>, r: RuleSpec)
    requires
        forall|k: int| 0 <= k < names.len() ==> !rule_accepts(r, #[trigger] names[k]),
    ensures
        first_accepted(names, r) is None,
    decreases names.len(),
{
    if names.len() > 0 {
        assert forall|k: int| 0 <= k < names.len() - 1 implies !rule_accepts(r, #[trigger] names.drop_first()[k]) by {
            assert(names.drop_first()[k] == names[k + 1]);
        }
        lemma_first_accepted_none(names.drop_first(), r);
    }
}

/// Whether `rule` accepts the asset name `name`.
pub fn accepts(rule: &AssetRule, name: &str) -> (r: bool)
    ensures
        r == rule_accepts(rule@, name@),
{
    let n = chars_of(name);
    if !ends_with_chars(n.as_slice(), chars_of(rule.ext).as_slice()) {
        return false;
    }
    match rule.os_key {
        Some(k) => {
            if !name_contains_os(name, k) {
                return false;
            }
        },
        None => {},
    }
    match &rule.arch {
        Some(a) => {
            if !name_matches_arch(name, a.as_str()) {
                return false;
            }
        },
        None => {},
    }
    match &rule.fragment {
        Some(f) => contains_chars(n.as_slice(), chars_of(f.as_str()).as_slice()),
        None => true,
    }
}

/// Index of the first asset that `rule` accepts.
pub fn find_accepted(assets: &Vec<GhAsset>, rule: &AssetRule) -> (r: Option<usize>)
    ensures
        r is Some ==> r->0 < assets@.len(),
        r is Some ==> first_accepted(asset_names(assets@), rule@) == Some(r->0 as nat),
        r is None ==> first_accepted(asset_names(assets@), rule@) is None,
{
    let ghost names = asset_names(assets@);
    let mut i: usize = 0;
    while i < assets.len()
        invariant
            names == asset_names(assets@),
            names.len() == assets@.len(),
            0 <= i <= assets@.len(),
            forall|k: int| 0 <= k < i ==> !rule_accepts(rule@, #[trigger] names[k]),
        decreases assets.len() - i,
    {
        assert(names[i as int] == assets@[i as int].name@);
        if accepts(rule, assets[i].name.as_str()) {
            proof { lemma_first_accepted_at(names, rule@, i as int); }
            return Some(i);
        }
        i = i + 1;
    }
    proof { lemma_first_accepted_none(names, rule@); }
    None
}

/// The Debian architecture label for `arch`.
pub fn deb_arch_of(arch: &str) -> (r: String)
    ensures
        r@ == deb_arch(arch@),
{
    if str_eq(arch, "x86_64") {
        "amd64".to_string()
    } else if str_eq(arch, "aarch64") {
        "arm64".to_string()
    } else {
        arch.to_string()
    }
}

/// The acceptance rules for a platform, in the order they are tried.
pub fn rules_for(os: TargetOs, arch: &str, distro: &str) -> (r: Vec<AssetRule>)
    ensures
        r@.map_values(|x: AssetRule| x@) == asset_rules(os, arch@, distro@),
{
    let mut v: Vec<AssetRule> = Vec::new();
    match os {
        TargetOs::Windows => {
            v.push(AssetRule { ext: ".msi", os_key: Some("windows"), arch: Some(arch.to_string()), fragment: None });
            v.push(AssetRule { ext: ".msi", os_key: None, arch: Some(arch.to_string()), fragment: None });
            v.push(AssetRule { ext: ".msi", os_key: None, arch: None, fragment: None });
        },
        TargetOs::MacOs => {
            v.push(AssetRule { ext: ".dmg", os_key: Some("macos"), arch: None, fragment: Some("universal".to_string()) });
            v.push(AssetRule { ext: ".dmg", os_key: Some("macos"), arch: Some(arch.to_string()), fragment: None });
            v.push(AssetRule { ext: ".dmg", os_key: None, arch: None, fragment: Some("universal".to_string()) });
            v.push(AssetRule { ext: ".dmg", os_key: None, arch: Some(arch.to_string()), fragment: None });
            v.push(AssetRule { ext: ".dmg", os_key: None, arch: None, fragment: None });
        },
        TargetOs::Linux => {
            if str_eq(distro, "debian") || str_eq(distro, "unknown") {
                v.push(AssetRule { ext: ".deb", os_key: Some("linux"), arch: None, fragment: Some(deb_arch_of(arch)) });
                v.push(AssetRule { ext: ".deb", os_key: None, arch: None, fragment: Some(deb_arch_of(arch)) });
            }
            if str_eq(distro, "arch") || str_eq(distro, "unknown") {
                v.push(AssetRule { ext: ".pkg.tar.zst", os_key: Some("linux"), arch: Some(arch.to_string()), fragment: None });
                v.push(AssetRule { ext: ".pkg.tar.zst", os_key: None, arch: Some(arch.to_string()), fragment: None });
            }
        },
    }
    assert(v@.map_values(|x: AssetRule| x@) =~= asset_rules(os, arch@, distro@));
    v
}

/// Why no installer could be chosen.
#[derive(Debug, PartialEq, Eq)]
pub enum PickError {
    NoWindowsInstaller,
    NoMacInstaller,
    NoLinuxPackage { distro: String, arch: String },
}

impl PickError {
    /// The message shown to the user.
    pub fn message(&self) -> (r: String)
        ensures
            match self {
                PickError::NoWindowsInstaller => r@ == "release 中没有 Windows(.msi) 安装包"@,
                PickError::NoMacInstaller => r@ == "release 中没有 macOS(.dmg) 安装包"@,
                PickError::NoLinuxPackage { distro, arch } => r@ == "release 中没有匹配的 Linux 安装包（发行版="@
                    + distro@ + " 架构="@ + arch@ + "）"@,
            },
    {
        match self {
            PickError::NoWindowsInstaller => "release 中没有 Windows(.msi) 安装包".to_string(),
            PickError::NoMacInstaller => "release 中没有 macOS(.dmg) 安装包".to_string(),
            PickError::NoLinuxPackage { distro, arch } => {
                let mut s = "release 中没有匹配的 Linux 安装包（发行版=".to_string();
                s.append(distro.as_str());
                s.append(" 架构=");
                s.append(arch.as_str());
                s.append("）");
                s
            },
        }
    }
}

/// Choose the installer of `release` for the platform: the first asset accepted by
/// the first rule of `asset_rules` that accepts any asset.
pub fn pick_asset<'a>(release: &'a GhRelease, os: TargetOs, arch: &str, distro: &str) -> (r: Result<&'a GhAsset, PickError>)
    ensures
        match pick_index(asset_names(release.assets@), asset_rules(os, arch@, distro@)) {
            Some(i) => r matches Ok(a) && *a == release.assets@[i as int],
            None => r matches Err(e) && match os {
                TargetOs::Windows => e == PickError::NoWindowsInstaller,
                TargetOs::MacOs => e == PickError::NoMacInstaller,
                TargetOs::Linux => e matches PickError::NoLinuxPackage { distro: d, arch: a }
                    && d@ == distro@ && a@ == arch@,
            },
        },
{
    let rules = rules_for(os, arch, distro);
    let ghost names = asset_names(release.assets@);
    let ghost all = asset_rules(os, arch@, distro@);
    let mut j: usize = 0;
    assert(all.subrange(0, all.len() as int) =~= all);
    while j < rules.len()
        invariant
            names == asset_names(release.assets@),
            all == asset_rules(os, arch@, distro@),
            rules@.map_values(|x: AssetRule| x@) == all,
            0 <= j <= rules@.len(),
            pick_index(names, all) == pick_index(names, all.subrange(j as int, all.len() as int)),
        decreases rules.len() - j,
    {
        assert(all.subrange(j as int, all.len() as int)[0] == rules@[j as int]@);
        assert(all.subrange(j as int, all.len() as int).drop_first() =~= all.subrange(j + 1, all.len() as int));
        match find_accepted(&release.assets, &rules[j]) {
            Some(i) => {
                return Ok(&release.assets[i]);
            },
            None => {},
        }
        j = j + 1;
    }
    assert(all.subrange(j as int, all.len() as int).len() == 0);
    match os {
        TargetOs::Windows => Err(PickError::NoWindowsInstaller),
        TargetOs::MacOs => Err(PickError::NoMacInstaller),
        TargetOs::Linux => Err(PickError::NoLinuxPackage { distro: distro.to_string(), arch: arch.to_string() }),
    }
}

/// What the answer to the latest-release query means, by its HTTP status.
#[derive(Debug, Clone, Copy, PartialEq, Eq, Structural)]
pub enum ReleaseReply {
    /// 404: the repository has no stable release yet; treated as up to date.
    NoRelease,
    /// Any other status outside 2xx: reported with its code.
    HttpError(u16),
    /// 2xx: the body holds the release.
    Body,
}

/// A 2xx HTTP status.
pub open spec fn status_ok(status: u16) -> bool {
    200 <= status <= 299
}

/// Whether an HTTP status is a success (2xx).
pub fn is_success_status(status: u16) -> (r: bool)
    ensures
        r == status_ok(status),
{
    200 <= status && status <= 299
}

/// Classify the status of the latest-release answer.
pub fn classify_release_status(status: u16) -> (r: ReleaseReply)
    ensures
        r == (if status == 404 {
            ReleaseReply::NoRelease
        } else if status_ok(status) {
            ReleaseReply::Body
        } else {
            ReleaseReply::HttpError(status)
        }),
{
    if status == 404 {
        ReleaseReply::NoRelease
    } else if is_success_status(status) {
        ReleaseReply::Body
    } else {
        ReleaseReply::HttpError(status)
    }
}

/// A release tag is read the same with or without its `v` prefix.
pub proof fn lemma_tag_prefix_optional(current: Seq<char>, tag: Seq<char>)
    requires
        tag.len() == 0 || tag[0] != 'v',
    ensures
        newer_spec(current, seq!['v'] + tag) == newer_spec(current, tag),
{
    assert((seq!['v'] + tag).drop_first() =~= tag);
}


/// When some name is accepted by a rule, the first accepted name is one the
/// rule accepts.
proof fn lemma_first_accepted_some(names: Seq<Seq<char>>, r: RuleSpec, i: int)
    requires
        0 <= i < names.len(),
        rule_accepts(r, names[i]),
    ensures
        first_accepted(names, r) matches Some(k) && k < names.len() && rule_accepts(r, names[k as int]),
    decreases names.len(),
{
    if !rule_accepts(r, names[0]) {
        assert(names.drop_first()[i - 1] == names[i]);
        lemma_first_accepted_some(names.drop_first(), r, i - 1);
        let k = first_accepted(names.drop_first(), r)->0;
        assert(names.drop_first()[k as int] == names[k as int + 1]);
    }
}

/// The picked name is accepted by rule `j` when rule `j` is the first rule
/// that accepts any name.
proof fn lemma_pick_by_rule(names: Seq<Seq<char>>, rules: Seq<RuleSpec>, j: int, i: int)
    requires
        0 <= j < rules.len(),
        0 <= i < names.len(),
        rule_accepts(rules[j], names[i]),
        forall|jj: int, ii: int| 0 <= jj < j && 0 <= ii < names.len() ==> !#[trigger] rule_accepts(rules[jj], names[ii]),
    ensures
        pick_index(names, rules) matches Some(k) && k < names.len() && rule_accepts(rules[j], names[k as int]),
    decreases j,
{
    if j == 0 {
        lemma_first_accepted_some(names, rules[0], i);
    } else {
        assert forall|k: int| 0 <= k < names.len() implies !rule_accepts(rules[0], #[trigger] names[k]) by {}
        lemma_first_accepted_none(names, rules[0]);
        let rest = rules.drop_first();
        assert forall|jj: int, ii: int| 0 <= jj < j - 1 && 0 <= ii < names.len() implies !#[trigger] rule_accepts(rest[jj], names[ii]) by {
            assert(rest[jj] == rules[jj + 1]);
        }
        assert(rest[j - 1] == rules[j]);
        lemma_pick_by_rule(names, rest, j - 1, i);
    }
}

/// Nothing is picked when no rule accepts any name.
proof fn lemma_pick_none(names: Seq<Seq<char>>, rules: Seq<RuleSpec>)
    requires
        forall|jj: int, ii: int| 0 <= jj < rules.len() && 0 <= ii < names.len() ==> !#[trigger] rule_accepts(rules[jj], names[ii]),
    ensures
        pick_index(names, rules) is None,
    decreases rules.len(),
{
    if rules.len() > 0 {
        assert forall|k: int| 0 <= k < names.len() implies !rule_accepts(rules[0], #[trigger] names[k]) by {}
        lemma_first_accepted_none(names, rules[0]);
        let rest = rules.drop_first();
        assert forall|jj: int, ii: int| 0 <= jj < rest.len() && 0 <= ii < names.len() implies !#[trigger] rule_accepts(rest[jj], names[ii]) by {
            assert(rest[jj] == rules[jj + 1]);
        }
        lemma_pick_none(names, rest);
    }
}

/// Windows: an `.msi` is chosen exactly when there is one; when some `.msi`
/// carries the running architecture the chosen one does too, and when some
/// also carries the `windows` segment the chosen one carries both.
pub proof fn lemma_windows_pick(names: Seq<Seq<char>>, arch: Seq<char>, distro: Seq<char>)
    ensures
        ({
            let p = pick_index(names, asset_rules(TargetOs::Windows, arch, distro));
            &&& (p matches Some(k) ==> k < names.len() && seq_ends_with(names[k as int], ".msi"@))
            &&& ((exists|i: int| 0 <= i < names.len() && seq_ends_with(names[i], ".msi"@)) <==> p is Some)
            &&& ((exists|i: int| 0 <= i < names.len() && seq_ends_with(names[i], ".msi"@) && arch_matches(names[i], arch))
                ==> (p matches Some(k) && arch_matches(names[k as int], arch)))
            &&& ((exists|i: int| 0 <= i < names.len() && seq_ends_with(names[i], ".msi"@) && arch_matches(names[i], arch)
                    && os_matches(names[i], "windows"@))
                ==> (p matches Some(k) && arch_matches(names[k as int], arch) && os_matches(names[k as int], "windows"@)))
        }),
{
    let rules = asset_rules(TargetOs::Windows, arch, distro);
    if exists|i: int| 0 <= i < names.len() && seq_ends_with(names[i], ".msi"@) && arch_matches(names[i], arch)
        && os_matches(names[i], "windows"@) {
        let i = choose|i: int| 0 <= i < names.len() && seq_ends_with(names[i], ".msi"@) && arch_matches(names[i], arch)
            && os_matches(names[i], "windows"@);
        lemma_pick_by_rule(names, rules, 0, i);
    } else if exists|i: int| 0 <= i < names.len() && seq_ends_with(names[i], ".msi"@) && arch_matches(names[i], arch) {
        let i = choose|i: int| 0 <= i < names.len() && seq_ends_with(names[i], ".msi"@) && arch_matches(names[i], arch);
        assert forall|jj: int, ii: int| 0 <= jj < 1 && 0 <= ii < names.len() implies !#[trigger] rule_accepts(rules[jj], names[ii]) by {}
        lemma_pick_by_rule(names, rules, 1, i);
    } else if exists|i: int| 0 <= i < names.len() && seq_ends_with(names[i], ".msi"@) {
        let i = choose|i: int| 0 <= i < names.len() && seq_ends_with(names[i], ".msi"@);
        assert forall|jj: int, ii: int| 0 <= jj < 2 && 0 <= ii < names.len() implies !#[trigger] rule_accepts(rules[jj], names[ii]) by {}
        lemma_pick_by_rule(names, rules, 2, i);
    } else {
        assert forall|jj: int, ii: int| 0 <= jj < rules.len() && 0 <= ii < names.len() implies !#[trigger] rule_accepts(rules[jj], names[ii]) by {}
        lemma_pick_none(names, rules);
    }
}

/// macOS: a `.dmg` is chosen exactly when there is one, and a universal
/// macOS image is preferred whenever there is one.
pub proof fn lemma_macos_pick(names: Seq<Seq<char>>, arch: Seq<char>, distro: Seq<char>)
    ensures
        ({
            let p = pick_index(names, asset_rules(TargetOs::MacOs, arch, distro));
            &&& (p matches Some(k) ==> k < names.len() && seq_ends_with(names[k as int], ".dmg"@))
            &&& ((exists|i: int| 0 <= i < names.len() && seq_ends_with(names[i], ".dmg"@)) <==> p is Some)
            &&& ((exists|i: int| 0 <= i < names.len() && seq_ends_with(names[i], ".dmg"@) && os_matches(names[i], "macos"@)
                    && seq_contains(names[i], "universal"@))
                ==> (p matches Some(k) && os_matches(names[k as int], "macos"@) && seq_contains(names[k as int], "universal"@)))
        }),
{
    let rules = asset_rules(TargetOs::MacOs, arch, distro);
    if exists|i: int| 0 <= i < names.len() && seq_ends_with(names[i], ".dmg"@) && os_matches(names[i], "macos"@)
        && seq_contains(names[i], "universal"@) {
        let i = choose|i: int| 0 <= i < names.len() && seq_ends_with(names[i], ".dmg"@) && os_matches(names[i], "macos"@)
            && seq_contains(names[i], "universal"@);
        lemma_pick_by_rule(names, rules, 0, i);
    } else if exists|i: int| 0 <= i < names.len() && seq_ends_with(names[i], ".dmg"@) {
        let i = choose|i: int| 0 <= i < names.len() && seq_ends_with(names[i], ".dmg"@);
        assert forall|jj: int, ii: int| 0 <= jj < 1 && 0 <= ii < names.len() implies !#[trigger] rule_accepts(rules[jj], names[ii]) by {}
        if exists|ii: int| 0 <= ii < names.len() && rule_accepts(rules[1], names[ii]) {
            let ii = choose|ii: int| 0 <= ii < names.len() && rule_accepts(rules[1], names[ii]);
            lemma_pick_by_rule(names, rules, 1, ii);
        } else if exists|ii: int| 0 <= ii < names.len() && rule_accepts(rules[2], names[ii]) {
            let ii = choose|ii: int| 0 <= ii < names.len() && rule_accepts(rules[2], names[ii]);
            assert forall|jj: int, k: int| 0 <= jj < 2 && 0 <= k < names.len() implies !#[trigger] rule_accepts(rules[jj], names[k]) by {}
            lemma_pick_by_rule(names, rules, 2, ii);
        } else if exists|ii: int| 0 <= ii < names.len() && rule_accepts(rules[3], names[ii]) {
            let ii = choose|ii: int| 0 <= ii < names.len() && rule_accepts(rules[3], names[ii]);
            assert forall|jj: int, k: int| 0 <= jj < 3 && 0 <= k < names.len() implies !#[trigger] rule_accepts(rules[jj], names[k]) by {}
            lemma_pick_by_rule(names, rules, 3, ii);
        } else {
            assert forall|jj: int, k: int| 0 <= jj < 4 && 0 <= k < names.len() implies !#[trigger] rule_accepts(rules[jj], names[k]) by {}
            lemma_pick_by_rule(names, rules, 4, i);
        }
    } else {
        assert forall|jj: int, ii: int| 0 <= jj < rules.len() && 0 <= ii < names.len() implies !#[trigger] rule_accepts(rules[jj], names[ii]) by {}
        lemma_pick_none(names, rules);
    }
}

/// Linux on a Debian-family system: a `.deb` for the architecture's Debian
/// label is chosen exactly when there is one, preferring one named for Linux.
pub proof fn lemma_debian_pick(names: Seq<Seq<char>>, arch: Seq<char>)
    ensures
        ({
            let p = pick_index(names, asset_rules(TargetOs::Linux, arch, "debian"@));
            &&& (p matches Some(k) ==> k < names.len() && seq_ends_with(names[k as int], ".deb"@)
                && seq_contains(names[k as int], deb_arch(arch)))
            &&& ((exists|i: int| 0 <= i < names.len() && seq_ends_with(names[i], ".deb"@) && seq_contains(names[i], deb_arch(arch)))
                <==> p is Some)
            &&& ((exists|i: int| 0 <= i < names.len() && seq_ends_with(names[i], ".deb"@) && seq_contains(names[i], deb_arch(arch))
                    && os_matches(names[i], "linux"@))
                ==> (p matches Some(k) && os_matches(names[k as int], "linux"@)))
        }),
{
    reveal_strlit("debian");
    reveal_strlit("unknown");
    reveal_strlit("arch");
    assert("debian"@.len() == 6 && "unknown"@.len() == 7 && "arch"@.len() == 4);
    assert("debian"@ != "arch"@ && "debian"@ != "unknown"@);
    let rules = asset_rules(TargetOs::Linux, arch, "debian"@);
    assert(rules =~= seq![
        rule(".deb"@, Some("linux"@), None, Some(deb_arch(arch))),
        rule(".deb"@, None, None, Some(deb_arch(arch))),
    ]);
    if exists|i: int| 0 <= i < names.len() && seq_ends_with(names[i], ".deb"@) && seq_contains(names[i], deb_arch(arch))
        && os_matches(names[i], "linux"@) {
        let i = choose|i: int| 0 <= i < names.len() && seq_ends_with(names[i], ".deb"@) && seq_contains(names[i], deb_arch(arch))
            && os_matches(names[i], "linux"@);
        lemma_pick_by_rule(names, rules, 0, i);
    } else if exists|i: int| 0 <= i < names.len() && seq_ends_with(names[i], ".deb"@) && seq_contains(names[i], deb_arch(arch)) {
        let i = choose|i: int| 0 <= i < names.len() && seq_ends_with(names[i], ".deb"@) && seq_contains(names[i], deb_arch(arch));
        assert forall|jj: int, ii: int| 0 <= jj < 1 && 0 <= ii < names.len() implies !#[trigger] rule_accepts(rules[jj], names[ii]) by {}
        lemma_pick_by_rule(names, rules, 1, i);
    } else {
        assert forall|jj: int, ii: int| 0 <= jj < rules.len() && 0 <= ii < names.len() implies !#[trigger] rule_accepts(rules[jj], names[ii]) by {}
        lemma_pick_none(names, rules);
    }
}

/// Linux on an Arch-family system: a `.pkg.tar.zst` for the running
/// architecture is chosen exactly when there is one, preferring one named for Linux.
pub proof fn lemma_arch_pick(names: Seq<Seq<char>>, arch: Seq<char>)
    ensures
        ({
            let p = pick_index(names, asset_rules(TargetOs::Linux, arch, "arch"@));
            &&& (p matches Some(k) ==> k < names.len() && seq_ends_with(names[k as int], ".pkg.tar.zst"@)
                && arch_matches(names[k as int], arch))
            &&& ((exists|i: int| 0 <= i < names.len() && seq_ends_with(names[i], ".pkg.tar.zst"@) && arch_matches(names[i], arch))
                <==> p is Some)
            &&& ((exists|i: int| 0 <= i < names.len() && seq_ends_with(names[i], ".pkg.tar.zst"@) && arch_matches(names[i], arch)
                    && os_matches(names[i], "linux"@))
                ==> (p matches Some(k) && os_matches(names[k as int], "linux"@)))
        }),
{
    reveal_strlit("debian");
    reveal_strlit("unknown");
    reveal_strlit("arch");
    assert("debian"@.len() == 6 && "unknown"@.len() == 7 && "arch"@.len() == 4);
    assert("arch"@ != "debian"@ && "arch"@ != "unknown"@);
    let rules = asset_rules(TargetOs::Linux, arch, "arch"@);
    assert(rules =~= seq![
        rule(".pkg.tar.zst"@, Some("linux"@), Some(arch), None),
        rule(".pkg.tar.zst"@, None, Some(arch), None),
    ]);
    if exists|i: int| 0 <= i < names.len() && seq_ends_with(names[i], ".pkg.tar.zst"@) && arch_matches(names[i], arch)
        && os_matches(names[i], "linux"@) {
        let i = choose|i: int| 0 <= i < names.len() && seq_ends_with(names[i], ".pkg.tar.zst"@) && arch_matches(names[i], arch)
            && os_matches(names[i], "linux"@);
        lemma_pick_by_rule(names, rules, 0, i);
    } else if exists|i: int| 0 <= i < names.len() && seq_ends_with(names[i], ".pkg.tar.zst"@) && arch_matches(names[i], arch) {
        let i = choose|i: int| 0 <= i < names.len() && seq_ends_with(names[i], ".pkg.tar.zst"@) && arch_matches(names[i], arch);
        assert forall|jj: int, ii: int| 0 <= jj < 1 && 0 <= ii < names.len() implies !#[trigger] rule_accepts(rules[jj], names[ii]) by {}
        lemma_pick_by_rule(names, rules, 1, i);
    } else {
        assert forall|jj: int, ii: int| 0 <= jj < rules.len() && 0 <= ii < names.len() implies !#[trigger] rule_accepts(rules[jj], names[ii]) by {}
        lemma_pick_none(names, rules);
    }
}

} // verus!
