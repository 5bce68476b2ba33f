//! Classification of the Linux distribution from the marker files and the
//! text of `/etc/os-release`.

use vstd::prelude::*;
use crate::text::{chars_of, seq_ascii_lower, to_ascii_lower};

verus! {

/// Family of a Linux distribution, as far as installer packages go.
#[derive(Debug, Clone, Copy, PartialEq, Eq, Structural)]
pub enum DistroFamily {
    Arch,
    Debian,
}

/// Unicode `White_Space`, the set `char::is_whitespace` tests.
pub open spec fn is_white_space(c: char) -> bool {
    let u = c as u32;
    (0x09 <= u && u <= 0x0D) || u == 0x20 || u == 0x85 || u == 0xA0 || u == 0x1680
        || (0x2000 <= u && u <= 0x200A) || u == 0x2028 || u == 0x2029 || u == 0x202F
        || u == 0x205F || u == 0x3000
}

/// `char::is_whitespace`.
pub fn is_whitespace(c: char) -> (r: bool)
    ensures
        r == is_white_space(c),
{
    let u = c as u32;
    (0x09 <= u && u <= 0x0D) || u == 0x20 || u == 0x85 || u == 0xA0 || u == 0x1680
        || (0x2000 <= u && u <= 0x200A) || u == 0x2028 || u == 0x2029 || u == 0x202F
        || u == 0x205F || u == 0x3000
}

/// Which characters separate pieces.
#[derive(Debug, Clone, Copy, PartialEq, Eq, Structural)]
pub enum Separator {
    Newline,
    WhiteSpace,
}

pub open spec fn is_sep(k: Separator, c: char) -> bool {
    match k {
        Separator::Newline => c == '\n',
        Separator::WhiteSpace => is_white_space(c),
    }
}

/// The pieces between separators (empty pieces included), like `str::split`.
pub open spec fn split_pieces(s: Seq<char>, k: Separator) -> Seq<Seq<char>>
    decreases s.len(),
{
    if s.len() == 0 {
        seq![seq![]]
    } else {
        let p = split_pieces(s.drop_last(), k);
        if is_sep(k, s.last()) {
            p.push(seq![])
        } else {
            p.update(p.len() - 1, p.last().push(s.last()))
        }
    }
}

/// A line without its trailing carriage return.
pub open spec fn strip_cr(l: Seq<char>) -> Seq<char> {
    if l.len() > 0 && l.last() == '\r' {
        l.drop_last()
    } else {
        l
    }
}

/// The lines of a text as `str::lines` yields them: split at `\n`, a `\r`
/// before the `\n` removed, and no empty line after a final `\n`.
pub open spec fn text_lines(s: Seq<char>) -> Seq<Seq<char>> {
    let p = split_pieces(s, Separator::Newline);
    let body = p.drop_last().map_values(|l: Seq<char>| strip_cr(l));
    if p.last().len() == 0 {
        body
    } else {
        body.push(p.last())
    }
}

pub open spec fn pieces_view(v: Seq<Vec<char>>) -> Seq<Seq<char>> {
    v.map_values(|x: Vec<char>| x@)
}

proof fn lemma_split_pieces_nonempty(s: Seq<char>, k: Separator)
    ensures
        split_pieces(s, k).len() >= 1,
    decreases s.len(),
{
    if s.len() > 0 {
        lemma_split_pieces_nonempty(s.drop_last(), k);
    }
}

/// Split `s` into the pieces between separators.
pub fn split_into_pieces(s: &[char], k: Separator) -> (r: Vec<Vec<char>>)
    ensures
        pieces_view(r@) == split_pieces(s@, k),
{
    let mut done: Vec<Vec<char>> = Vec::new();
    let mut cur: Vec<char> = Vec::new();
    let mut i: usize = 0;
    assert(s@.take(0) =~= seq![]);
    while i < s.len()
        invariant
            0 <= i <= s@.len(),
            pieces_view(done@).push(cur@) =~= split_pieces(s@.take(i as int), k),
        decreases s.len() - i,
    {
        let c = s[i];
        let sep = match k {
            Separator::Newline => c == '\n',
            Separator::WhiteSpace => is_whitespace(c),
        };
        assert(s@.take(i + 1).drop_last() =~= s@.take(i as int));
        assert(s@.take(i + 1).last() == c);
        if sep {
            let piece = cur;
            done.push(piece);
            cur = Vec::new();
            assert(pieces_view(done@).push(cur@) =~= split_pieces(s@.take(i + 1), k));
        } else {
            let ghost before = pieces_view(done@).push(cur@);
            cur.push(c);
            assert(pieces_view(done@).push(cur@) =~= before.update(before.len() - 1, before.last().push(c)));
        }
        i = i + 1;
    }
    assert(s@.take(s@.len() as int) =~= s@);
    done.push(cur);
    assert(pieces_view(done@) =~= split_pieces(s@, k));
    done
}

/// The lines of `s` (see `text_lines`).
pub fn split_lines(s: &[char]) -> (r: Vec<Vec<char>>)
    ensures
        pieces_view(r@) == text_lines(s@),
{
    let pieces = split_into_pieces(s, Separator::Newline);
    proof { lemma_split_pieces_nonempty(s@, Separator::Newline); }
    let ghost p = split_pieces(s@, Separator::Newline);
    let n = pieces.len();
    let mut out: Vec<Vec<char>> = Vec::new();
    let mut i: usize = 0;
    while i + 1 < n
        invariant
            n == pieces@.len(),
            n >= 1,
            pieces_view(pieces@) == p,
            0 <= i <= n - 1,
            pieces_view(out@) =~= p.take(i as int).map_values(|l: Seq<char>| strip_cr(l)),
        decreases n - i,
    {
        let line = &pieces[i];
        let len = line.len();
        let mut l: Vec<char> = Vec::new();
        let keep = if len > 0 && line[len - 1] == '\r' { len - 1 } else { len };
        let mut j: usize = 0;
        while j < keep
            invariant
                keep <= line@.len(),
                0 <= j <= keep,
                l@ =~= line@.take(j as int),
            decreases keep - j,
        {
            l.push(line[j]);
            j = j + 1;
        }
        assert(p[i as int] == line@);
        assert(l@ =~= strip_cr(line@));
        let ghost before = pieces_view(out@);
        out.push(l);
        assert(pieces_view(out@) =~= before.push(strip_cr(p[i as int])));
        assert(p.take(i + 1) =~= p.take(i as int).push(p[i as int]));
        assert(p.take(i + 1).map_values(|l: Seq<char>| strip_cr(l)) =~= p.take(i as int).map_values(|l: Seq<char>| strip_cr(l)).push(strip_cr(p[i as int])));
        i = i + 1;
    }
    assert(p.take((n - 1) as int) =~= p.drop_last());
    let last = &pieces[n - 1];
    assert(p.last() == last@);
    if last.len() > 0 {
        let mut copy: Vec<char> = Vec::new();
        let mut j: usize = 0;
        while j < last.len()
            invariant
                0 <= j <= last@.len(),
                copy@ =~= last@.take(j as int),
            decreases last.len() - j,
        {
            copy.push(last[j]);
            j = j + 1;
        }
        assert(copy@ =~= last@);
        out.push(copy);
    }
    out
}


/// Index of the first occurrence of `c` in `s`.
pub open spec fn find_char(s: Seq<char>, c: char) -> Option<nat>
    decreases s.len(),
{
    if s.len() == 0 {
        None
    } else if s[0] == c {
        Some(0)
    } else {
        match find_char(s.drop_first(), c) {
            Some(i) => Some(i + 1),
            None => None,
        }
    }
}

proof fn lemma_find_char_at(s: Seq<char>, c: char, i: int)
    requires
        0 <= i < s.len(),
        s[i] == c,
        forall|k: int| 0 <= k < i ==> s[k] != c,
    ensures
        find_char(s, c) == Some(i as nat),
    decreases s.len(),
{
    if i > 0 {
        lemma_find_char_at(s.drop_first(), c, i - 1);
    }
}

proof fn lemma_find_char_none(s: Seq<char>, c: char)
    requires
        forall|k: int| 0 <= k < s.len() ==> s[k] != c,
    ensures
        find_char(s, c) is None,
    decreases s.len(),
{
    if s.len() > 0 {
        lemma_find_char_none(s.drop_first(), c);
    }
}

/// Position of the first `c` in `s`.
pub fn position_of(s: &[char], c: char) -> (r: Option<usize>)
    ensures
        r is Some ==> r->0 < s@.len() && find_char(s@, c) == Some(r->0 as nat),
        r is None ==> find_char(s@, c) is None,
{
    let mut i: usize = 0;
    while i < s.len()
        invariant
            0 <= i <= s@.len(),
            forall|k: int| 0 <= k < i ==> s@[k] != c,
        decreases s.len() - i,
    {
        if s[i] == c {
            proof { lemma_find_char_at(s@, c, i as int); }
            return Some(i);
        }
        i = i + 1;
    }
    proof { lemma_find_char_none(s@, c); }
    None
}

/// Number of leading characters equal to `c`.
pub open spec fn leading_count(s: Seq<char>, c: char) -> nat
    decreases s.len(),
{
    if s.len() > 0 && s[0] == c {
        1 + leading_count(s.drop_first(), c)
    } else {
        0
    }
}

/// Number of trailing characters equal to `c`.
pub open spec fn trailing_count(s: Seq<char>, c: char) -> nat
    decreases s.len(),
{
    if s.len() > 0 && s.last() == c {
        1 + trailing_count(s.drop_last(), c)
    } else {
        0
    }
}

/// `s` with every leading and trailing `c` removed (`str::trim_matches`).
pub open spec fn trim_char(s: Seq<char>, c: char) -> Seq<char> {
    let t = s.skip(leading_count(s, c) as int);
    t.take(t.len() - trailing_count(t, c))
}

proof fn lemma_leading_count(s: Seq<char>, c: char, i: int)
    requires
        0 <= i <= s.len(),
        forall|k: int| 0 <= k < i ==> s[k] == c,
        i == s.len() || s[i] != c,
    ensures
        leading_count(s, c) == i,
    decreases s.len(),
{
    if i > 0 {
        lemma_leading_count(s.drop_first(), c, i - 1);
    }
}

proof fn lemma_trailing_count(s: Seq<char>, c: char, j: int)
    requires
        0 <= j <= s.len(),
        forall|k: int| j <= k < s.len() ==> s[k] == c,
        j == 0 || s[j - 1] != c,
    ensures
        trailing_count(s, c) == s.len() - j,
    decreases s.len(),
{
    if j < s.len() {
        lemma_trailing_count(s.drop_last(), c, j);
    }
}

/// `s` with every leading and trailing `c` removed.
pub fn trim_matching(s: &[char], c: char) -> (r: Vec<char>)
    ensures
        r@ == trim_char(s@, c),
{
    let mut a: usize = 0;
    while a < s.len() && s[a] == c
        invariant
            0 <= a <= s@.len(),
            forall|k: int| 0 <= k < a ==> s@[k] == c,
        decreases s.len() - a,
    {
        a = a + 1;
    }
    proof { lemma_leading_count(s@, c, a as int); }
    let ghost t = s@.skip(a as int);
    let mut b: usize = s.len();
    while b > a && s[b - 1] == c
        invariant
            a <= b <= s@.len(),
            forall|k: int| b <= k < s@.len() ==> s@[k] == c,
        decreases b,
    {
        b = b - 1;
    }
    proof {
        assert forall|k: int| (b - a) <= k < t.len() implies t[k] == c by {
            assert(t[k] == s@[a + k]);
        }
        if b > a {
            assert(t[b - a - 1] == s@[b - 1]);
        }
        lemma_trailing_count(t, c, b - a);
    }
    let mut r: Vec<char> = Vec::new();
    let mut k: usize = a;
    while k < b
        invariant
            a <= k <= b,
            b <= s@.len(),
            r@ =~= s@.subrange(a as int, k as int),
        decreases b - k,
    {
        r.push(s[k]);
        k = k + 1;
    }
    assert(r@ =~= trim_char(s@, c));
    r
}

/// Number of leading white-space characters.
pub open spec fn leading_ws(s: Seq<char>) -> nat
    decreases s.len(),
{
    if s.len() > 0 && is_white_space(s[0]) {
        1 + leading_ws(s.drop_first())
    } else {
        0
    }
}

/// Number of trailing white-space characters.
pub open spec fn trailing_ws(s: Seq<char>) -> nat
    decreases s.len(),
{
    if s.len() > 0 && is_white_space(s.last()) {
        1 + trailing_ws(s.drop_last())
    } else {
        0
    }
}

/// `s` without its leading and trailing white space (`str::trim`).
pub open spec fn trim_ws(s: Seq<char>) -> Seq<char> {
    let t = s.skip(leading_ws(s) as int);
    t.take(t.len() - trailing_ws(t))
}

proof fn lemma_leading_ws(s: Seq<char>, i: int)
    requires
        0 <= i <= s.len(),
        forall|k: int| 0 <= k < i ==> is_white_space(#[trigger] s[k]),
        i == s.len() || !is_white_space(s[i]),
    ensures
        leading_ws(s) == i,
    decreases s.len(),
{
    if i > 0 {
        assert forall|k: int| 0 <= k < i - 1 implies is_white_space(#[trigger] s.drop_first()[k]) by {
            assert(s.drop_first()[k] == s[k + 1]);
        }
        lemma_leading_ws(s.drop_first(), i - 1);
    }
}

proof fn lemma_trailing_ws(s: Seq<char>, j: int)
    requires
        0 <= j <= s.len(),
        forall|k: int| j <= k < s.len() ==> is_white_space(#[trigger] s[k]),
        j == 0 || !is_white_space(s[j - 1]),
    ensures
        trailing_ws(s) == s.len() - j,
    decreases s.len(),
{
    if j < s.len() {
        assert forall|k: int| j <= k < s.drop_last().len() implies is_white_space(#[trigger] s.drop_last()[k]) by {
            assert(s.drop_last()[k] == s[k]);
        }
        lemma_trailing_ws(s.drop_last(), j);
    }
}

/// `s` without its leading and trailing white space.
pub fn trim_whitespace(s: &[char]) -> (r: Vec<char>)
    ensures
        r@ == trim_ws(s@),
{
    let mut a: usize = 0;
    while a < s.len() && is_whitespace(s[a])
        invariant
            0 <= a <= s@.len(),
            forall|k: int| 0 <= k < a ==> is_white_space(#[trigger] s@[k]),
        decreases s.len() - a,
    {
        a = a + 1;
    }
    proof { lemma_leading_ws(s@, a as int); }
    let ghost t = s@.skip(a as int);
    let mut b: usize = s.len();
    while b > a && is_whitespace(s[b - 1])
        invariant
            a <= b <= s@.len(),
            forall|k: int| b <= k < s@.len() ==> is_white_space(#[trigger] s@[k]),
        decreases b,
    {
        b = b - 1;
    }
    proof {
        assert forall|k: int| (b - a) <= k < t.len() implies is_white_space(#[trigger] t[k]) by {
            assert(t[k] == s@[a + k]);
        }
        if b > a {
            assert(t[b - a - 1] == s@[b - 1]);
        }
        lemma_trailing_ws(t, b - a);
    }
    let mut r: Vec<char> = Vec::new();
    let mut k: usize = a;
    while k < b
        invariant
            a <= k <= b,
            b <= s@.len(),
            r@ =~= s@.subrange(a as int, k as int),
        decreases b - k,
    {
        r.push(s[k]);
        k = k + 1;
    }
    assert(r@ =~= trim_ws(s@));
    r
}

/// The family a single `ID` / `ID_LIKE` word stands for.
pub open spec fn word_family(w: Seq<char>) -> Option<DistroFamily> {
    if w == "arch"@ || w == "manjaro"@ || w == "endeavouros"@ || w == "artix"@ {
        Some(DistroFamily::Arch)
    } else if w == "debian"@ || w == "ubuntu"@ || w == "linuxmint"@ || w == "pop"@
        || w == "raspbian"@ || w == "kali"@ {
        Some(DistroFamily::Debian)
    } else {
        None
    }
}

/// The family of the first word that names one. The words are the pieces
/// between white space; empty pieces name no family, so this is the first
/// match among the words `split_whitespace` yields.
pub open spec fn first_family(ws: Seq<Seq<char>>) -> Option<DistroFamily>
    decreases ws.len(),
{
    if ws.len() == 0 {
        None
    } else {
        match word_family(ws[0]) {
            Some(f) => Some(f),
            None => first_family(ws.drop_first()),
        }
    }
}

/// What one `os-release` line says about the family: for `ID=` / `ID_LIKE=`
/// lines, the first known word of the value (quotes trimmed, lower-cased).
pub open spec fn line_family(line: Seq<char>) -> Option<DistroFamily> {
    match find_char(line, '=') {
        None => None,
        Some(i) => {
            let key = line.take(i as int);
            let value = line.skip((i + 1) as int);
            if key == "ID"@ || key == "ID_LIKE"@ {
                first_family(split_pieces(seq_ascii_lower(trim_char(value, '"')), Separator::WhiteSpace))
            } else {
                None
            }
        },
    }
}

/// The family given by the first line that names one.
pub open spec fn lines_family(ls: Seq<Seq<char>>) -> Option<DistroFamily>
    decreases ls.len(),
{
    if ls.len() == 0 {
        None
    } else {
        match line_family(ls[0]) {
            Some(f) => Some(f),
            None => lines_family(ls.drop_first()),
        }
    }
}

/// The distribution label: `arch`, `debian` or `unknown`.
pub open spec fn distro_label(arch_release: bool, debian_version: bool, os_release: Option<Seq<char>>) -> Seq<char> {
    if arch_release {
        "arch"@
    } else if debian_version {
        "debian"@
    } else {
        match os_release {
            Some(text) => match lines_family(text_lines(text)) {
                Some(DistroFamily::Arch) => "arch"@,
                Some(DistroFamily::Debian) => "debian"@,
                None => "unknown"@,
            },
            None => "unknown"@,
        }
    }
}

pub fn family_of_word(w: &[char]) -> (r: Option<DistroFamily>)
    ensures
        r == word_family(w@),
{
    if eq_chars(w, "arch") || eq_chars(w, "manjaro") || eq_chars(w, "endeavouros") || eq_chars(w, "artix") {
        Some(DistroFamily::Arch)
    } else if eq_chars(w, "debian") || eq_chars(w, "ubuntu") || eq_chars(w, "linuxmint")
        || eq_chars(w, "pop") || eq_chars(w, "raspbian") || eq_chars(w, "kali") {
        Some(DistroFamily::Debian)
    } else {
        None
    }
}

/// Whether the characters `w` spell `lit`.
pub fn eq_chars(w: &[char], lit: &str) -> (r: bool)
    ensures
        r == (w@ == lit@),
{
    let l = chars_of(lit);
    if w.len() != l.len() {
        return false;
    }
    let mut i: usize = 0;
    while i < w.len()
        invariant
            w@.len() == l@.len(),
            l@ == lit@,
            0 <= i <= w@.len(),
            forall|k: int| 0 <= k < i ==> w@[k] == l@[k],
        decreases w.len() - i,
    {
        if w[i] != l[i] {
            return false;
        }
        i = i + 1;
    }
    assert(w@ =~= l@);
    true
}

/// The family named by one `os-release` line, if any.
pub fn family_of_line(line: &[char]) -> (r: Option<DistroFamily>)
    ensures
        r == line_family(line@),
{
    let eq = match position_of(line, '=') {
        Some(i) => i,
        None => return None,
    };
    let mut key: Vec<char> = Vec::new();
    let mut k: usize = 0;
    while k < eq
        invariant
            eq < line@.len(),
            0 <= k <= eq,
            key@ =~= line@.take(k as int),
        decreases eq - k,
    {
        key.push(line[k]);
        k = k + 1;
    }
    if !(eq_chars(key.as_slice(), "ID") || eq_chars(key.as_slice(), "ID_LIKE")) {
        return None;
    }
    let n = line.len();
    let mut value: Vec<char> = Vec::new();
    let mut k: usize = eq + 1;
    while k < line.len()
        invariant
            eq < line@.len(),
            eq + 1 <= k <= line@.len(),
            value@ =~= line@.subrange(eq + 1, k as int),
        decreases line.len() - k,
    {
        value.push(line[k]);
        k = k + 1;
    }
    assert(value@ =~= line@.skip(eq + 1));
    let trimmed = trim_matching(value.as_slice(), '"');
    let lowered = to_ascii_lower(trimmed.as_slice());
    let words = split_into_pieces(lowered.as_slice(), Separator::WhiteSpace);
    let ghost ws = pieces_view(words@);
    let mut j: usize = 0;
    assert(ws.skip(0) =~= ws);
    assert(key@ == line@.take(eq as int));
    assert(first_family(ws) == line_family(line@));
    while j < words.len()
        invariant
            ws == pieces_view(words@),
            first_family(ws) == line_family(line@),
            0 <= j <= words@.len(),
            first_family(ws) == first_family(ws.skip(j as int)),
        decreases words.len() - j,
    {
        assert(ws.skip(j as int)[0] == words@[j as int]@);
        assert(ws.skip(j as int).drop_first() =~= ws.skip(j + 1));
        match family_of_word(words[j].as_slice()) {
            Some(f) => return Some(f),
            None => {},
        }
        j = j + 1;
    }
    assert(ws.skip(j as int).len() == 0);
    None
}

/// Classify the Linux distribution: the marker files `/etc/arch-release` and
/// `/etc/debian_version` decide first, then the `ID` / `ID_LIKE` lines of the
/// `os-release` text (`None` when it could not be read).
pub fn detect_linux_distro(arch_release: bool, debian_version: bool, os_release: Option<&str>) -> (r: &'static str)
    ensures
        r@ == distro_label(arch_release, debian_version, match os_release {
            Some(t) => Some(t@),
            None => None,
        }),
{
    if arch_release {
        return "arch";
    }
    if debian_version {
        return "debian";
    }
    let text = match os_release {
        Some(t) => t,
        None => return "unknown",
    };
    let chars = chars_of(text);
    let lines = split_lines(chars.as_slice());
    let ghost ls = pieces_view(lines@);
    let mut j: usize = 0;
    assert(ls.skip(0) =~= ls);
    while j < lines.len()
        invariant
            ls == pieces_view(lines@),
            ls == text_lines(text@),
            !arch_release,
            !debian_version,
            os_release == Some(text),
            0 <= j <= lines@.len(),
            lines_family(ls) == lines_family(ls.skip(j as int)),
        decreases lines.len() - j,
    {
        assert(ls.skip(j as int)[0] == lines@[j as int]@);
        assert(ls.skip(j as int).drop_first() =~= ls.skip(j + 1));
        match family_of_line(lines[j].as_slice()) {
            Some(DistroFamily::Arch) => return "arch",
            Some(DistroFamily::Debian) => return "debian",
            None => {},
        }
        j = j + 1;
    }
    assert(ls.skip(j as int).len() == 0);
    "unknown"
}


/// A text without separators is one piece.
proof fn lemma_split_no_sep(a: Seq<char>, k: Separator)
    requires
        forall|i: int| 0 <= i < a.len() ==> !is_sep(k, #[trigger] a[i]),
    ensures
        split_pieces(a, k) == seq![a],
    decreases a.len(),
{
    if a.len() > 0 {
        lemma_split_no_sep(a.drop_last(), k);
        assert(a.drop_last().push(a.last()) =~= a);
        assert(seq![a.drop_last()].update(0, a.drop_last().push(a.last())) =~= seq![a]);
    } else {
        assert(a =~= Seq::<char>::empty());
    }
}

/// Splitting after a first piece without separators gives that piece, then
/// the pieces of the rest.
proof fn lemma_split_after_first(a: Seq<char>, c: char, b: Seq<char>, k: Separator)
    requires
        forall|i: int| 0 <= i < a.len() ==> !is_sep(k, #[trigger] a[i]),
        is_sep(k, c),
    ensures
        split_pieces(a + seq![c] + b, k) == seq![a] + split_pieces(b, k),
    decreases b.len(),
{
    let s = a + seq![c] + b;
    if b.len() == 0 {
        lemma_split_no_sep(a, k);
        assert(s.drop_last() =~= a);
        assert(s.last() == c);
        assert(split_pieces(b, k) == seq![Seq::<char>::empty()]);
        assert(seq![a].push(Seq::<char>::empty()) =~= seq![a] + seq![Seq::<char>::empty()]);
    } else {
        lemma_split_after_first(a, c, b.drop_last(), k);
        lemma_split_pieces_nonempty(b.drop_last(), k);
        assert(s.drop_last() =~= a + seq![c] + b.drop_last());
        assert(s.last() == b.last());
        let q = split_pieces(b.drop_last(), k);
        let p = seq![a] + q;
        if is_sep(k, b.last()) {
            assert(p.push(seq![]) =~= seq![a] + q.push(seq![]));
        } else {
            assert(p.update(p.len() - 1, p.last().push(b.last())) =~= seq![a] + q.update(q.len() - 1, q.last().push(b.last())));
        }
    }
}

/// The lines of a first line (without line breaks), a line break and more text.
proof fn lemma_lines_after_first(l: Seq<char>, more: Seq<char>)
    requires
        forall|i: int| 0 <= i < l.len() ==> #[trigger] l[i] != '\n',
    ensures
        text_lines(l + seq!['\n'] + more) == seq![strip_cr(l)] + text_lines(more),
{
    assert forall|i: int| 0 <= i < l.len() implies !is_sep(Separator::Newline, #[trigger] l[i]) by {}
    lemma_split_after_first(l, '\n', more, Separator::Newline);
    lemma_split_pieces_nonempty(more, Separator::Newline);
    let q = split_pieces(more, Separator::Newline);
    let p = seq![l] + q;
    assert(p.drop_last() =~= seq![l] + q.drop_last());
    assert(p.last() == q.last());
    assert(p.drop_last().map_values(|x: Seq<char>| strip_cr(x))
        =~= seq![strip_cr(l)] + q.drop_last().map_values(|x: Seq<char>| strip_cr(x)));
    if q.last().len() != 0 {
        assert((seq![strip_cr(l)] + q.drop_last().map_values(|x: Seq<char>| strip_cr(x))).push(q.last())
            =~= seq![strip_cr(l)] + q.drop_last().map_values(|x: Seq<char>| strip_cr(x)).push(q.last()));
    }
}

/// Lines of an `os-release` text are read in order: the first line that
/// names a family decides, otherwise the rest of the text does.
pub proof fn lemma_os_release_first_line(l: Seq<char>, more: Seq<char>)
    requires
        forall|i: int| 0 <= i < l.len() ==> #[trigger] l[i] != '\n',
    ensures
        distro_label(false, false, Some(l + "\n"@ + more)) == match line_family(strip_cr(l)) {
            Some(DistroFamily::Arch) => "arch"@,
            Some(DistroFamily::Debian) => "debian"@,
            None => distro_label(false, false, Some(more)),
        },
{
    reveal_strlit("\n");
    assert("\n"@ =~= seq!['\n']);
    lemma_lines_after_first(l, more);
    let ls = seq![strip_cr(l)] + text_lines(more);
    assert(ls[0] == strip_cr(l));
    assert(ls.drop_first() =~= text_lines(more));
}

/// A plain lower-case word: its own lower case, nothing to trim, one piece.
proof fn lemma_plain_word(w: Seq<char>)
    requires
        w.len() > 0,
        forall|i: int| 0 <= i < w.len() ==> 'a' <= #[trigger] w[i] <= 'z',
    ensures
        seq_ascii_lower(w) == w,
        trim_char(w, '"') == w,
        split_pieces(w, Separator::WhiteSpace) == seq![w],
{
    assert(seq_ascii_lower(w) =~= w);
    assert(leading_count(w, '"') == 0);
    assert(w.skip(0) =~= w);
    assert(trailing_count(w, '"') == 0);
    assert(w.take(w.len() as int) =~= w);
    assert forall|i: int| 0 <= i < w.len() implies !is_sep(Separator::WhiteSpace, #[trigger] w[i]) by {}
    lemma_split_no_sep(w, Separator::WhiteSpace);
}

/// The `ID` / `ID_LIKE` words of the Arch family.
pub open spec fn arch_family_words() -> Seq<Seq<char>> {
    seq!["arch"@, "manjaro"@, "endeavouros"@, "artix"@]
}

/// The `ID` / `ID_LIKE` words of the Debian family.
pub open spec fn debian_family_words() -> Seq<Seq<char>> {
    seq!["debian"@, "ubuntu"@, "linuxmint"@, "pop"@, "raspbian"@, "kali"@]
}

proof fn lemma_family_word_plain(w: Seq<char>)
    requires
        arch_family_words().contains(w) || debian_family_words().contains(w),
    ensures
        w.len() > 0,
        forall|i: int| 0 <= i < w.len() ==> 'a' <= #[trigger] w[i] <= 'z',
        arch_family_words().contains(w) ==> word_family(w) == Some(DistroFamily::Arch),
        !arch_family_words().contains(w) ==> word_family(w) == Some(DistroFamily::Debian),
{
    reveal_strlit("arch");
    reveal_strlit("manjaro");
    reveal_strlit("endeavouros");
    reveal_strlit("artix");
    reveal_strlit("debian");
    reveal_strlit("ubuntu");
    reveal_strlit("linuxmint");
    reveal_strlit("pop");
    reveal_strlit("raspbian");
    reveal_strlit("kali");
    let aw = arch_family_words();
    let dw = debian_family_words();
    if aw.contains(w) {
        let i = choose|i: int| 0 <= i < aw.len() && aw[i] == w;
        if i == 0 {} else if i == 1 {} else if i == 2 {} else {}
    } else {
        let i = choose|i: int| 0 <= i < dw.len() && dw[i] == w;
        assert(!aw.contains(w));
        assert(aw[0] != w && aw[1] != w && aw[2] != w && aw[3] != w);
        if i == 0 {} else if i == 1 {} else if i == 2 {} else if i == 3 {} else if i == 4 {} else {}
    }
}

/// An `os-release` text whose first line is `ID=` or `ID_LIKE=` followed by
/// a known distribution word is classified by that word's family, whatever
/// follows: the Arch words give `arch`, the Debian words give `debian`.
pub proof fn lemma_os_release_id_word(key: Seq<char>, w: Seq<char>, more: Seq<char>)
    requires
        key == "ID"@ || key == "ID_LIKE"@,
        arch_family_words().contains(w) || debian_family_words().contains(w),
    ensures
        distro_label(false, false, Some(key + "="@ + w + "\n"@ + more))
            == (if arch_family_words().contains(w) { "arch"@ } else { "debian"@ }),
        distro_label(false, false, Some(key + "="@ + w))
            == (if arch_family_words().contains(w) { "arch"@ } else { "debian"@ }),
{
    reveal_strlit("ID");
    reveal_strlit("ID_LIKE");
    reveal_strlit("=");
    lemma_family_word_plain(w);
    lemma_plain_word(w);
    let line = key + "="@ + w;
    assert(line.len() == key.len() + 1 + w.len());
    assert(line[key.len() as int] == '=');
    assert forall|k: int| 0 <= k < key.len() implies line[k] != '=' by {
        assert(line[k] == key[k]);
    }
    lemma_find_char_at(line, '=', key.len() as int);
    assert(line.take(key.len() as int) =~= key);
    assert(line.skip(key.len() as int + 1) =~= w);
    assert(first_family(seq![w]) == word_family(w)) by {
        assert(seq![w][0] == w);
    }
    assert forall|i: int| 0 <= i < line.len() implies #[trigger] line[i] != '\n' by {
        if i < key.len() {
            assert(line[i] == key[i]);
        } else if i > key.len() {
            assert(line[i] == w[i - key.len() - 1]);
        }
    }
    if line.len() > 0 {
        assert(line.last() == w.last());
    }
    assert(strip_cr(line) == line);
    lemma_os_release_first_line(line, more);
    // the single-line text
    lemma_split_no_sep(line, Separator::Newline);
    assert(text_lines(line) =~= seq![line]);
    assert(seq![line][0] == line);
}


/// The marker files decide before the `os-release` text: `/etc/arch-release`
/// means Arch, otherwise `/etc/debian_version` means Debian; with neither and
/// no readable text the family is unknown.
pub proof fn lemma_markers_decide(debian_version: bool, text: Option<Seq<char>>)
    ensures
        distro_label(true, debian_version, text) == "arch"@,
        distro_label(false, true, text) == "debian"@,
        distro_label(false, false, None) == "unknown"@,
{
}

} // verus!
