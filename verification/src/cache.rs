//! Layout of the on-disk cache and the format of cached RGBA images.
//!
//! Directory structure under the platform data directory:
//! `credentials.json` and `settings.json` at the root, and under `.cache/`:
//! `user_stats.json`, `avatar/{user_id}.cache`, `bookmark_cover/bm_cover_{id}.cache`
//! and `pdf/{file_id}/...` page renders.

use vstd::prelude::*;
use vstd::string::StringExecFns;
use crate::text::{chars_of, string_from_chars};

verus! {

/// Decimal digits of a natural number, most significant first.
pub open spec fn nat_digits(n: nat) -> Seq<char>
    decreases n,
{
    if n < 10 {
        seq![digit_char(n)]
    } else {
        nat_digits(n / 10).push(digit_char(n % 10))
    }
}

pub open spec fn digit_char(d: nat) -> char {
    ('0' as u32 + d) as char
}

/// Decimal representation of an integer, as `Display` writes it.
pub open spec fn int_decimal(n: int) -> Seq<char> {
    if n < 0 {
        seq!['-'] + nat_digits((-n) as nat)
    } else {
        nat_digits(n as nat)
    }
}

/// Decimal digits of `n`.
pub fn u64_digits(n: u64) -> (r: Vec<char>)
    ensures
        r@ == nat_digits(n as nat),
    decreases n,
{
    if n < 10 {
        let mut v: Vec<char> = Vec::new();
        v.push(((n as u8) + 48) as char);
        v
    } else {
        let mut v = u64_digits(n / 10);
        v.push((((n % 10) as u8) + 48) as char);
        v
    }
}

/// `i64` to decimal text.
pub fn i64_to_decimal(n: i64) -> (r: String)
    ensures
        r@ == int_decimal(n as int),
{
    if n < 0 {
        let m: u64 = if n == i64::MIN { 9223372036854775808u64 } else { (-n) as u64 };
        let mut v: Vec<char> = Vec::new();
        v.push('-');
        let d = u64_digits(m);
        let mut i: usize = 0;
        while i < d.len()
            invariant
                0 <= i <= d@.len(),
                v@ =~= seq!['-'] + d@.take(i as int),
            decreases d.len() - i,
        {
            v.push(d[i]);
            i = i + 1;
        }
        assert(d@.take(d@.len() as int) =~= d@);
        string_from_chars(v.as_slice())
    } else {
        let d = u64_digits(n as u64);
        string_from_chars(d.as_slice())
    }
}

/// A path segment that `Path::join` appends: not empty, without separator or
/// drive colon, and neither `.` nor `..`.
pub open spec fn plain_segment(seg: Seq<char>) -> bool {
    &&& seg.len() > 0
    &&& forall|i: int| 0 <= i < seg.len() ==> seg[i] != '/' && seg[i] != '\\' && seg[i] != ':'
    &&& seg != seq!['.']
    &&& seg != seq!['.', '.']
}

/// A path that starts with a backslash (UNC, device or verbatim prefixes on
/// Windows, which `Path::join` may rewrite).
pub open spec fn backslash_led(s: Seq<char>) -> bool {
    s.len() > 0 && s[0] == '\\'
}

/// `r` is what `Path::join` gives for `base` and a plain segment `seg`: the
/// segment alone after an empty base, directly after a trailing `/`, and after
/// a platform separator (`/` or `\`) when the base ends in anything but a
/// separator or a drive colon; after a trailing `\` or `:` either way.
pub open spec fn joined(base: Seq<char>, seg: Seq<char>, r: Seq<char>) -> bool {
    if base.len() == 0 {
        r == seg
    } else if base.last() == '/' {
        r == base + seg
    } else if base.last() == '\\' || base.last() == ':' {
        r == base + seg || r == base + seq!['/'] + seg || r == base + seq!['\\'] + seg
    } else {
        r == base + seq!['/'] + seg || r == base + seq!['\\'] + seg
    }
}

/// `Path::join` of std on text paths, for a relative plain segment. For a base
/// that does not start with a backslash the result is stated by `joined`:
/// which separator it puts in (`/` on Unix, `\` on Windows) is left open. For
/// a base that starts with a backslash nothing is stated: on Windows a
/// verbatim base (`\\?\...`) is rebuilt from its components.
#[verifier::external_body]
pub(crate) fn path_join(base: &str, seg: &str) -> (r: String)
    requires
        plain_segment(seg@),
    ensures
        !backslash_led(base@) ==> joined(base@, seg@, r@),
{
    std::path::Path::new(base).join(seg).to_string_lossy().into_owned()
}

/// Joining a plain segment to a base that does not start with a backslash
/// gives a path that does not either, and that ends with the segment.
proof fn lemma_join_shape(base: Seq<char>, seg: Seq<char>, r: Seq<char>)
    requires
        plain_segment(seg),
        !backslash_led(base),
        joined(base, seg, r),
    ensures
        !backslash_led(r),
        r.len() >= seg.len() > 0,
        r.last() == seg.last(),
        r.last() != '/' && r.last() != '\\' && r.last() != ':',
{
    assert(seg[seg.len() - 1] != '/');
    if base.len() > 0 {
        assert(r[0] == base[0]);
    } else {
        assert(r[0] == seg[0]);
    }
    assert(r[r.len() - 1] == seg[seg.len() - 1]);
}

/// The separator `Path::join` put between a base and a segment: none or one.
pub open spec fn join_mid(m: Seq<char>) -> bool {
    m == Seq::<char>::empty() || m == seq!['/'] || m == seq!['\\']
}

/// The result of a join is the base, a separator or none, then the segment.
proof fn lemma_join_mid(base: Seq<char>, seg: Seq<char>, r: Seq<char>) -> (m: Seq<char>)
    requires
        joined(base, seg, r),
    ensures
        join_mid(m),
        r == base + m + seg,
{
    if r == base + seg {
        assert(base + Seq::<char>::empty() + seg =~= base + seg);
        Seq::<char>::empty()
    } else if r == base + seq!['/'] + seg {
        seq!['/']
    } else {
        seq!['\\']
    }
}

/// Two joins onto the same base are equal only with the same separator and
/// the same segment (segments not starting with a separator).
proof fn lemma_join_cancel(base: Seq<char>, m1: Seq<char>, s1: Seq<char>, m2: Seq<char>, s2: Seq<char>)
    requires
        join_mid(m1),
        join_mid(m2),
        s1.len() > 0 && s1[0] != '/' && s1[0] != '\\',
        s2.len() > 0 && s2[0] != '/' && s2[0] != '\\',
        base + m1 + s1 == base + m2 + s2,
    ensures
        m1 == m2,
        s1 == s2,
{
    let r = base + m1 + s1;
    let k = base.len() as int;
    assert(r[k] == (if m1.len() == 0 { s1[0] } else { m1[0] }));
    assert(r[k] == (if m2.len() == 0 { s2[0] } else { m2[0] }));
    assert(m1 =~= m2);
    assert(s1 =~= r.subrange(k + m1.len(), r.len() as int));
    assert(s2 =~= r.subrange(k + m2.len(), r.len() as int));
}

/// Credentials remembered between sessions.
pub struct SavedCredentials {
    pub token: String,
    pub username: String,
    pub remember_me: bool,
}

/// Paths of the data directory and of its cache directory.
pub struct CacheManager {
    data_dir: String,
    cache_dir: String,
}

/// A segment without separators or colons that is longer than two
/// characters or does not start with a dot is plain.
proof fn lemma_plain_by_chars(seg: Seq<char>)
    requires
        seg.len() > 0,
        forall|i: int| 0 <= i < seg.len() ==> seg[i] != '/' && seg[i] != '\\' && seg[i] != ':',
        seg.len() > 2 || seg[0] != '.',
    ensures
        plain_segment(seg),
{
    if seg == seq!['.'] || seg == seq!['.', '.'] {
        assert(seg[0] == '.');
    }
}

proof fn lemma_literal_segments()
    ensures
        plain_segment(".cache"@),
        plain_segment("avatar"@),
        plain_segment("bookmark_cover"@),
        plain_segment("pdf"@),
        plain_segment("settings.json"@),
        plain_segment("credentials.json"@),
        plain_segment("user_stats.json"@),
        plain_segment("downloads.db"@),
        plain_segment("Downloads"@),
        plain_segment("PezMax"@),
{
    reveal_strlit(".cache");
    reveal_strlit("avatar");
    reveal_strlit("bookmark_cover");
    reveal_strlit("pdf");
    reveal_strlit("settings.json");
    reveal_strlit("credentials.json");
    reveal_strlit("user_stats.json");
    reveal_strlit("downloads.db");
    reveal_strlit("Downloads");
    reveal_strlit("PezMax");
    lemma_plain_by_chars(".cache"@);
    lemma_plain_by_chars("avatar"@);
    lemma_plain_by_chars("bookmark_cover"@);
    lemma_plain_by_chars("pdf"@);
    lemma_plain_by_chars("settings.json"@);
    lemma_plain_by_chars("credentials.json"@);
    lemma_plain_by_chars("user_stats.json"@);
    lemma_plain_by_chars("downloads.db"@);
    lemma_plain_by_chars("Downloads"@);
    lemma_plain_by_chars("PezMax"@);
}

proof fn lemma_decimal_segment(n: int)
    ensures
        plain_segment(int_decimal(n)),
        int_decimal(n)[0] != '/' && int_decimal(n)[0] != '\\',
{
    lemma_nat_digits_are_digits(if n < 0 { (-n) as nat } else { n as nat });
    let d = int_decimal(n);
    if n < 0 {
        assert forall|i: int| 0 <= i < d.len() implies d[i] != '/' && d[i] != '\\' && d[i] != ':' by {
            if i > 0 {
                assert(d[i] == nat_digits((-n) as nat)[i - 1]);
            }
        }
    }
    lemma_plain_by_chars(d);
}

pub(crate) proof fn lemma_nat_digits_are_digits(n: nat)
    ensures
        nat_digits(n).len() > 0,
        forall|i: int| 0 <= i < nat_digits(n).len() ==> '0' <= #[trigger] nat_digits(n)[i] <= '9',
    decreases n,
{
    if n >= 10 {
        lemma_nat_digits_are_digits(n / 10);
    }
}

/// `n` in decimal, with leading zeros up to at least `w` digits (`{:0w}`).
pub open spec fn zero_padded(n: nat, w: nat) -> Seq<char> {
    let d = nat_digits(n);
    if d.len() < w {
        Seq::new((w - d.len()) as nat, |i: int| '0') + d
    } else {
        d
    }
}

/// `n` in decimal padded with zeros to at least `w` digits.
fn padded_decimal(n: u64, w: usize) -> (r: Vec<char>)
    ensures
        r@ == zero_padded(n as nat, w as nat),
{
    let d = u64_digits(n);
    let mut v: Vec<char> = Vec::new();
    let mut k: usize = d.len();
    while k < w
        invariant
            d.len() <= k <= w || (d.len() >= w && k == d.len()),
            v@ =~= Seq::new((k - d.len()) as nat, |i: int| '0'),
        decreases w - k,
    {
        v.push('0');
        k = k + 1;
    }
    let mut i: usize = 0;
    let ghost zeros = v@;
    while i < d.len()
        invariant
            0 <= i <= d@.len(),
            v@ =~= zeros + d@.take(i as int),
        decreases d.len() - i,
    {
        v.push(d[i]);
        i = i + 1;
    }
    assert(d@.take(i as int) =~= d@);
    assert(v@ =~= zero_padded(n as nat, w as nat));
    v
}

/// File name of a cached page render: `p{page:04}_s{scale:05}.rgba`.
pub open spec fn page_file_name(page_idx: nat, scale: nat) -> Seq<char> {
    "p"@ + zero_padded(page_idx, 4) + "_s"@ + zero_padded(scale, 5) + ".rgba"@
}

proof fn lemma_padded_digits(n: nat, w: nat)
    ensures
        forall|i: int| 0 <= i < zero_padded(n, w).len() ==> '0' <= #[trigger] zero_padded(n, w)[i] <= '9',
{
    lemma_nat_digits_are_digits(n);
    let d = nat_digits(n);
    if d.len() < w {
        let z = Seq::new((w - d.len()) as nat, |i: int| '0');
        assert forall|i: int| 0 <= i < zero_padded(n, w).len() implies '0' <= #[trigger] zero_padded(n, w)[i] <= '9' by {
            if i >= z.len() {
                assert(zero_padded(n, w)[i] == d[i - z.len()]);
            }
        }
    }
}

proof fn lemma_page_file_name_plain(page_idx: nat, scale: nat)
    ensures
        plain_segment(page_file_name(page_idx, scale)),
{
    reveal_strlit("p");
    reveal_strlit("_s");
    reveal_strlit(".rgba");
    lemma_padded_digits(page_idx, 4);
    lemma_padded_digits(scale, 5);
    let a = zero_padded(page_idx, 4);
    let b = zero_padded(scale, 5);
    let name = page_file_name(page_idx, scale);
    assert forall|i: int| 0 <= i < name.len() implies name[i] != '/' && name[i] != '\\' && name[i] != ':' by {
        if 1 <= i < 1 + a.len() {
            assert(name[i] == a[i - 1]);
        } else if 3 + a.len() <= i < 3 + a.len() + b.len() {
            assert(name[i] == b[i - 3 - a.len()]);
        }
    }
    lemma_plain_by_chars(name);
}


/// File name of a cached avatar: `{user_id}.cache`.
pub open spec fn avatar_file_name(user_id: int) -> Seq<char> {
    int_decimal(user_id) + ".cache"@
}

/// `r` is the cached avatar path of `user_id` under the cache directory `cache`.
pub open spec fn avatar_path_of(cache: Seq<char>, user_id: int, r: Seq<char>) -> bool {
    exists|p: Seq<char>| joined(cache, "avatar"@, p) && #[trigger] joined(p, avatar_file_name(user_id), r)
}

proof fn lemma_avatar_name_plain(user_id: int)
    ensures
        plain_segment(avatar_file_name(user_id)),
        avatar_file_name(user_id)[0] != '/' && avatar_file_name(user_id)[0] != '\\',
{
    reveal_strlit(".cache");
    lemma_decimal_segment(user_id);
    let name = avatar_file_name(user_id);
    let d = int_decimal(user_id);
    assert forall|i: int| 0 <= i < name.len() implies name[i] != '/' && name[i] != '\\' && name[i] != ':' by {
        if i < d.len() {
            assert(name[i] == d[i]);
        }
    }
    assert(name[0] == d[0]);
    lemma_plain_by_chars(name);
}

proof fn lemma_nat_digits_len(n: nat)
    ensures
        n < 10 ==> nat_digits(n).len() == 1,
        n >= 10 ==> nat_digits(n).len() >= 2,
    decreases n,
{
    if n >= 10 {
        lemma_nat_digits_len(n / 10);
    }
}

proof fn lemma_digit_char_injective(a: nat, b: nat)
    requires
        a < 10,
        b < 10,
        digit_char(a) == digit_char(b),
    ensures
        a == b,
{
    assert(digit_char(a) as u32 == 48 + a);
    assert(digit_char(b) as u32 == 48 + b);
}

/// Different numbers have different decimal digits.
proof fn lemma_nat_digits_injective(m: nat, n: nat)
    requires
        nat_digits(m) == nat_digits(n),
    ensures
        m == n,
    decreases m,
{
    lemma_nat_digits_len(m);
    lemma_nat_digits_len(n);
    if m < 10 && n < 10 {
        assert(nat_digits(m)[0] == digit_char(m));
        assert(nat_digits(n)[0] == digit_char(n));
        lemma_digit_char_injective(m, n);
    } else if m >= 10 && n >= 10 {
        let dm = nat_digits(m);
        let dn = nat_digits(n);
        assert(dm.last() == digit_char(m % 10));
        assert(dn.last() == digit_char(n % 10));
        lemma_digit_char_injective(m % 10, n % 10);
        assert(dm.drop_last() =~= nat_digits(m / 10));
        assert(dn.drop_last() =~= nat_digits(n / 10));
        lemma_nat_digits_injective(m / 10, n / 10);
    }
}

/// Different integers have different decimal texts.
pub proof fn lemma_int_decimal_injective(a: int, b: int)
    requires
        int_decimal(a) == int_decimal(b),
    ensures
        a == b,
{
    if a < 0 && b < 0 {
        assert(int_decimal(a).drop_first() =~= nat_digits((-a) as nat));
        assert(int_decimal(b).drop_first() =~= nat_digits((-b) as nat));
        lemma_nat_digits_injective((-a) as nat, (-b) as nat);
    } else if a >= 0 && b >= 0 {
        lemma_nat_digits_injective(a as nat, b as nat);
    } else if a < 0 {
        lemma_nat_digits_are_digits(b as nat);
        assert(int_decimal(a)[0] == '-');
        assert(int_decimal(b)[0] == nat_digits(b as nat)[0]);
    } else {
        lemma_nat_digits_are_digits(a as nat);
        assert(int_decimal(b)[0] == '-');
        assert(int_decimal(a)[0] == nat_digits(a as nat)[0]);
    }
}

/// Distinct users have distinct cached avatar paths.
pub proof fn lemma_avatar_paths_distinct(cache: Seq<char>, a: int, b: int, ra: Seq<char>, rb: Seq<char>)
    requires
        avatar_path_of(cache, a, ra),
        avatar_path_of(cache, b, rb),
        a != b,
    ensures
        ra != rb,
{
    if ra == rb {
        reveal_strlit("avatar");
        reveal_strlit(".cache");
        lemma_avatar_name_plain(a);
        lemma_avatar_name_plain(b);
        let fa = avatar_file_name(a);
        let fb = avatar_file_name(b);
        let pa = choose|p: Seq<char>| joined(cache, "avatar"@, p) && #[trigger] joined(p, fa, ra);
        let pb = choose|p: Seq<char>| joined(cache, "avatar"@, p) && #[trigger] joined(p, fb, rb);
        let ma = lemma_join_mid(cache, "avatar"@, pa);
        let mb = lemma_join_mid(cache, "avatar"@, pb);
        let na = lemma_join_mid(pa, fa, ra);
        let nb = lemma_join_mid(pb, fb, rb);
        let ta = "avatar"@ + na + fa;
        let tb = "avatar"@ + nb + fb;
        assert(ra =~= cache + ma + ta);
        assert(rb =~= cache + mb + tb);
        lemma_join_cancel(cache, ma, ta, mb, tb);
        lemma_join_cancel("avatar"@, na, fa, nb, fb);
        let k = int_decimal(a).len() as int;
        assert(k == fa.len() - 6 && k == fb.len() - 6);
        assert(int_decimal(a) =~= fa.subrange(0, k));
        assert(int_decimal(b) =~= fb.subrange(0, k));
        lemma_int_decimal_injective(a, b);
    }
}

impl CacheManager {
    pub closed spec fn spec_data_dir(&self) -> Seq<char> {
        self.data_dir@
    }

    pub closed spec fn spec_cache_dir(&self) -> Seq<char> {
        self.cache_dir@
    }

    /// Cache manager rooted at `data_dir` (the platform data directory joined
    /// with `PezMax`, or `.` when there is none); the cache lives in `.cache`.
    pub fn with_data_dir(data_dir: String) -> (r: CacheManager)
        ensures
            r.spec_data_dir() == data_dir@,
            !backslash_led(data_dir@) ==> joined(data_dir@, ".cache"@, r.spec_cache_dir())
                && !backslash_led(r.spec_cache_dir()),
    {
        proof { lemma_literal_segments(); }
        let cache_dir = path_join(data_dir.as_str(), ".cache");
        proof {
            if !backslash_led(data_dir@) {
                lemma_join_shape(data_dir@, ".cache"@, cache_dir@);
            }
        }
        CacheManager { data_dir, cache_dir }
    }

    pub fn data_dir(&self) -> (r: &str)
        ensures
            r@ == self.spec_data_dir(),
    {
        self.data_dir.as_str()
    }

    pub fn cache_dir(&self) -> (r: &str)
        ensures
            r@ == self.spec_cache_dir(),
    {
        self.cache_dir.as_str()
    }

    pub fn avatar_dir(&self) -> (r: String)
        ensures
            !backslash_led(self.spec_cache_dir()) ==> joined(self.spec_cache_dir(), "avatar"@, r@),
    {
        proof { lemma_literal_segments(); }
        path_join(self.cache_dir.as_str(), "avatar")
    }

    pub fn bookmark_cover_dir(&self) -> (r: String)
        ensures
            !backslash_led(self.spec_cache_dir()) ==> joined(self.spec_cache_dir(), "bookmark_cover"@, r@),
    {
        proof { lemma_literal_segments(); }
        path_join(self.cache_dir.as_str(), "bookmark_cover")
    }

    pub fn pdf_cache_dir(&self) -> (r: String)
        ensures
            !backslash_led(self.spec_cache_dir()) ==> joined(self.spec_cache_dir(), "pdf"@, r@),
    {
        proof { lemma_literal_segments(); }
        path_join(self.cache_dir.as_str(), "pdf")
    }

    /// Directory of the page renders of one file: `.cache/pdf/{file_id}`.
    pub fn pdf_file_dir(&self, file_id: i64) -> (r: String)
        ensures
            !backslash_led(self.spec_cache_dir()) ==> exists|p: Seq<char>|
                joined(self.spec_cache_dir(), "pdf"@, p) && #[trigger] joined(p, int_decimal(file_id as int), r@),
    {
        proof { lemma_decimal_segment(file_id as int); lemma_literal_segments(); }
        let pdf = self.pdf_cache_dir();
        proof {
            if !backslash_led(self.spec_cache_dir()) {
                lemma_join_shape(self.spec_cache_dir(), "pdf"@, pdf@);
            }
        }
        let id = i64_to_decimal(file_id);
        path_join(pdf.as_str(), id.as_str())
    }

    pub fn settings_path(&self) -> (r: String)
        ensures
            !backslash_led(self.spec_data_dir()) ==> joined(self.spec_data_dir(), "settings.json"@, r@),
    {
        proof { lemma_literal_segments(); }
        path_join(self.data_dir.as_str(), "settings.json")
    }

    pub fn credentials_path(&self) -> (r: String)
        ensures
            !backslash_led(self.spec_data_dir()) ==> joined(self.spec_data_dir(), "credentials.json"@, r@),
    {
        proof { lemma_literal_segments(); }
        path_join(self.data_dir.as_str(), "credentials.json")
    }

    pub fn user_stats_path(&self) -> (r: String)
        ensures
            !backslash_led(self.spec_cache_dir()) ==> joined(self.spec_cache_dir(), "user_stats.json"@, r@),
    {
        proof { lemma_literal_segments(); }
        path_join(self.cache_dir.as_str(), "user_stats.json")
    }

    /// Cached render of one page: `.cache/pdf/{file_id}/p{page:04}_s{scale:05}.rgba`,
    /// `scale_encoded` being the render scale times 100.
    pub fn pdf_page_cache_path(&self, file_id: i64, page_idx: usize, scale_encoded: u32) -> (r: String)
        ensures
            !backslash_led(self.spec_cache_dir()) ==> exists|q: Seq<char>, p: Seq<char>|
                joined(self.spec_cache_dir(), "pdf"@, q) && #[trigger] joined(q, int_decimal(file_id as int), p)
                    && #[trigger] joined(p, page_file_name(page_idx as nat, scale_encoded as nat), r@),
    {
        let dir = self.pdf_file_dir(file_id);
        let mut name: Vec<char> = Vec::new();
        name.push('p');
        let a = padded_decimal(page_idx as u64, 4);
        let b = padded_decimal(scale_encoded as u64, 5);
        let mut i: usize = 0;
        while i < a.len()
            invariant
                0 <= i <= a@.len(),
                name@ =~= seq!['p'] + a@.take(i as int),
            decreases a.len() - i,
        {
            name.push(a[i]);
            i = i + 1;
        }
        name.push('_');
        name.push('s');
        let ghost mid = name@;
        let mut j: usize = 0;
        while j < b.len()
            invariant
                0 <= j <= b@.len(),
                name@ =~= mid + b@.take(j as int),
            decreases b.len() - j,
        {
            name.push(b[j]);
            j = j + 1;
        }
        proof {
            assert(a@.take(a@.len() as int) =~= a@);
            assert(b@.take(b@.len() as int) =~= b@);
        }
        let mut file = string_from_chars(name.as_slice());
        file.append(".rgba");
        proof {
            reveal_strlit("p");
            reveal_strlit("_s");
            assert(file@ =~= page_file_name(page_idx as nat, scale_encoded as nat));
            lemma_page_file_name_plain(page_idx as nat, scale_encoded as nat);
        }
        let r = path_join(dir.as_str(), file.as_str());
        proof {
            if !backslash_led(self.spec_cache_dir()) {
                lemma_literal_segments();
                lemma_decimal_segment(file_id as int);
                let q = choose|q: Seq<char>| joined(self.spec_cache_dir(), "pdf"@, q) && #[trigger] joined(q, int_decimal(file_id as int), dir@);
                lemma_join_shape(self.spec_cache_dir(), "pdf"@, q);
                lemma_join_shape(q, int_decimal(file_id as int), dir@);
                assert(joined(dir@, page_file_name(page_idx as nat, scale_encoded as nat), r@));
            }
        }
        r
    }

    /// Cached avatar of a user: `.cache/avatar/{user_id}.cache`.
    pub fn avatar_cache_path(&self, user_id: i64) -> (r: String)
        ensures
            !backslash_led(self.spec_cache_dir()) ==> avatar_path_of(self.spec_cache_dir(), user_id as int, r@),
    {
        proof { lemma_literal_segments(); reveal_strlit(".cache"); lemma_avatar_name_plain(user_id as int); }
        let dir = self.avatar_dir();
        proof {
            if !backslash_led(self.spec_cache_dir()) {
                lemma_join_shape(self.spec_cache_dir(), "avatar"@, dir@);
            }
        }
        let mut name = i64_to_decimal(user_id);
        name.append(".cache");
        path_join(dir.as_str(), name.as_str())
    }

    /// Cached bookmark cover: `.cache/bookmark_cover/bm_cover_{bm_id}.cache`.
    pub fn bookmark_cover_cache_path(&self, bm_id: i64) -> (r: String)
        ensures
            !backslash_led(self.spec_cache_dir()) ==> exists|p: Seq<char>|
                joined(self.spec_cache_dir(), "bookmark_cover"@, p)
                    && #[trigger] joined(p, "bm_cover_"@ + int_decimal(bm_id as int) + ".cache"@, r@),
    {
        proof {
            lemma_literal_segments();
            reveal_strlit(".cache");
            reveal_strlit("bm_cover_");
            lemma_decimal_segment(bm_id as int);
            let name = "bm_cover_"@ + int_decimal(bm_id as int) + ".cache"@;
            assert forall|i: int| 0 <= i < name.len() implies name[i] != '/' && name[i] != '\\' && name[i] != ':' by {
                if 9 <= i < 9 + int_decimal(bm_id as int).len() {
                    assert(name[i] == int_decimal(bm_id as int)[i - 9]);
                }
            }
            lemma_plain_by_chars(name);
        }
        let dir = self.bookmark_cover_dir();
        proof {
            if !backslash_led(self.spec_cache_dir()) {
                lemma_join_shape(self.spec_cache_dir(), "bookmark_cover"@, dir@);
            }
        }
        let mut name = "bm_cover_".to_string();
        name.append(i64_to_decimal(bm_id).as_str());
        name.append(".cache");
        path_join(dir.as_str(), name.as_str())
    }
}

/// `r` is the default download directory for `home`: `Downloads/PezMax`
/// joined to it (stated for a home that does not start with a backslash), or
/// the text `~/Downloads/PezMax` when there is no home directory.
pub open spec fn is_default_download_dir(home: Option<&str>, r: Seq<char>) -> bool {
    match home {
        Some(h) => !backslash_led(h@) ==> exists|p: Seq<char>|
            joined(h@, "Downloads"@, p) && #[trigger] joined(p, "PezMax"@, r),
        None => r == "~/Downloads/PezMax"@,
    }
}

/// Default download directory: `Downloads/PezMax` under the home directory,
/// or the text `~/Downloads/PezMax` when there is no home directory.
pub fn default_download_dir(home: Option<&str>) -> (r: String)
    ensures
        is_default_download_dir(home, r@),
{
    proof { lemma_literal_segments(); }
    match home {
        Some(h) => {
            let d = path_join(h, "Downloads");
            proof {
                if !backslash_led(h@) {
                    lemma_join_shape(h@, "Downloads"@, d@);
                }
            }
            path_join(d.as_str(), "PezMax")
        },
        None => "~/Downloads/PezMax".to_string(),
    }
}

/// Path of the local download database: `{cache_dir}/downloads.db`.
pub fn default_db_path(cache_dir: &str) -> (r: String)
    ensures
        !backslash_led(cache_dir@) ==> joined(cache_dir@, "downloads.db"@, r@),
{
    proof { lemma_literal_segments(); }
    path_join(cache_dir, "downloads.db")
}

/// A download recorded in the local database.
pub struct LocalDownload {
    pub id: i64,
    pub file_id: i64,
    pub file_name: String,
    pub path: String,
    /// Unix time in seconds.
    pub downloaded_at: i64,
    /// Hidden by the user.
    pub hidden: bool,
}


/// Little-endian `u32` of four bytes.
pub open spec fn le_u32(b0: u8, b1: u8, b2: u8, b3: u8) -> nat {
    b0 as nat + 256 * (b1 as nat) + 65536 * (b2 as nat) + 16777216 * (b3 as nat)
}

/// Little-endian bytes of `x` modulo 2^32 (`(x as u32).to_le_bytes()`).
pub open spec fn le_bytes(x: nat) -> Seq<u8> {
    seq![
        (x % 256) as u8,
        ((x / 256) % 256) as u8,
        ((x / 65536) % 256) as u8,
        ((x / 16777216) % 256) as u8,
    ]
}

/// What `parse_rgba_cache` returns for the file contents `data`: the pixels and
/// the dimensions from the 8-byte header (width, height as little-endian
/// `u32`), when exactly `width * height * 4` pixel bytes follow.
pub open spec fn rgba_parsed(data: Seq<u8>) -> Option<(Seq<u8>, nat, nat)> {
    if data.len() < 8 {
        None
    } else {
        let w = le_u32(data[0], data[1], data[2], data[3]);
        let h = le_u32(data[4], data[5], data[6], data[7]);
        if data.len() - 8 == w * h * 4 {
            Some((data.skip(8), w, h))
        } else {
            None
        }
    }
}

/// The file contents `encode_rgba_cache` writes.
pub open spec fn rgba_encoded(rgba: Seq<u8>, w: nat, h: nat) -> Seq<u8> {
    le_bytes(w) + le_bytes(h) + rgba
}

/// Decode a cached RGBA render: `[width: u32 LE][height: u32 LE][w * h * 4 bytes]`.
pub fn parse_rgba_cache(data: &[u8]) -> (r: Option<(Vec<u8>, usize, usize)>)
    ensures
        match rgba_parsed(data@) {
            Some((px, w, h)) => r matches Some((v, rw, rh)) && v@ == px && rw == w && rh == h,
            None => r is None,
        },
{
    if data.len() < 8 {
        return None;
    }
    let w: u64 = data[0] as u64 + 256 * (data[1] as u64) + 65536 * (data[2] as u64) + 16777216 * (data[3] as u64);
    let h: u64 = data[4] as u64 + 256 * (data[5] as u64) + 65536 * (data[6] as u64) + 16777216 * (data[7] as u64);
    assert(w < 0x1_0000_0000u64 && h < 0x1_0000_0000u64);
    assert((w as u128) * (h as u128) <= 0xFFFF_FFFFu128 * 0xFFFF_FFFFu128) by (nonlinear_arith)
        requires w < 0x1_0000_0000u64, h < 0x1_0000_0000u64;
    let wh: u128 = (w as u128) * (h as u128);
    let expected: u128 = wh * 4;
    if ((data.len() - 8) as u128) != expected {
        return None;
    }
    let mut px: Vec<u8> = Vec::new();
    let mut i: usize = 8;
    while i < data.len()
        invariant
            8 <= i <= data@.len(),
            px@ =~= data@.subrange(8, i as int),
        decreases data.len() - i,
    {
        px.push(data[i]);
        i = i + 1;
    }
    assert(px@ =~= data@.skip(8));
    Some((px, w as usize, h as usize))
}

/// Encode an RGBA render for the cache: the header (dimensions truncated to
/// `u32`) followed by the pixel bytes.
pub fn encode_rgba_cache(rgba: &[u8], w: usize, h: usize) -> (r: Vec<u8>)
    ensures
        r@ == rgba_encoded(rgba@, w as nat, h as nat),
{
    let mut out: Vec<u8> = Vec::new();
    push_le_u32(&mut out, w);
    push_le_u32(&mut out, h);
    let ghost header = out@;
    let mut i: usize = 0;
    while i < rgba.len()
        invariant
            0 <= i <= rgba@.len(),
            out@ =~= header + rgba@.take(i as int),
        decreases rgba.len() - i,
    {
        out.push(rgba[i]);
        i = i + 1;
    }
    assert(rgba@.take(rgba@.len() as int) =~= rgba@);
    out
}

fn push_le_u32(out: &mut Vec<u8>, x: usize)
    ensures
        final(out)@ == old(out)@ + le_bytes(x as nat),
{
    out.push((x % 256) as u8);
    out.push(((x / 256) % 256) as u8);
    out.push(((x / 65536) % 256) as u8);
    out.push(((x / 16777216) % 256) as u8);
    assert(final(out)@ =~= old(out)@ + le_bytes(x as nat));
}

proof fn lemma_le_round_trip(x: nat)
    requires
        x < 0x1_0000_0000,
    ensures
        le_u32(le_bytes(x)[0], le_bytes(x)[1], le_bytes(x)[2], le_bytes(x)[3]) == x,
{
    let b = le_bytes(x);
    assert(b[0] as nat + 256 * (b[1] as nat) + 65536 * (b[2] as nat) + 16777216 * (b[3] as nat) == x) by (nonlinear_arith)
        requires
            x < 0x1_0000_0000,
            b[0] as nat == x % 256,
            b[1] as nat == (x / 256) % 256,
            b[2] as nat == (x / 65536) % 256,
            b[3] as nat == (x / 16777216) % 256,
    ;
}

/// Reading back a cached render gives what was written, when the dimensions
/// fit the `u32` header and the pixel buffer holds `w * h * 4` bytes.
pub proof fn lemma_rgba_cache_round_trip(rgba: Seq<u8>, w: nat, h: nat)
    requires
        w <= 0xFFFF_FFFF,
        h <= 0xFFFF_FFFF,
        rgba.len() == w * h * 4,
    ensures
        rgba_parsed(rgba_encoded(rgba, w, h)) == Some((rgba, w, h)),
{
    let d = rgba_encoded(rgba, w, h);
    let bw = le_bytes(w);
    let bh = le_bytes(h);
    lemma_le_round_trip(w);
    lemma_le_round_trip(h);
    assert(d.len() == rgba.len() + 8);
    assert(d[0] == bw[0] && d[1] == bw[1] && d[2] == bw[2] && d[3] == bw[3]);
    assert(d[4] == bh[0] && d[5] == bh[1] && d[6] == bh[2] && d[7] == bh[3]);
    assert(le_u32(d[0], d[1], d[2], d[3]) == w);
    assert(le_u32(d[4], d[5], d[6], d[7]) == h);
    assert(d.skip(8) =~= rgba);
}

} // verus!
