//! Package classification: deriving the packaging type and the target
//! distribution (family and parsed version) from an artifact's filename.

use vstd::prelude::*;

use crate::strutil::{contains_seq, contains_str, matches_at};

verus! {

/// A parsed distribution version: the numeric core recovered from a
/// filename token such as `ubuntu22.04`.
#[derive(Debug, Clone, Copy, PartialEq, Eq, Structural)]
pub struct SemVer {
    pub major: u64,
    pub minor: u64,
    pub patch: u64,
}

impl SemVer {
    pub fn new(major: u64, minor: u64, patch: u64) -> (r: SemVer)
        ensures
            r == (SemVer { major, minor, patch }),
    {
        SemVer { major, minor, patch }
    }
}

/// The packaging format of an artifact, derived from its file extension.
#[derive(Debug, Clone, Copy, PartialEq, Eq, Structural)]
pub enum Type {
    Deb,
    Rpm,
}

/// A target distribution: family plus optional parsed version.
/// `Ubuntu(None)` and `Ubuntu(Some(v))` are distinct values.
#[derive(Debug, Clone)]
pub enum Dist {
    Ubuntu(Option<SemVer>),
    Debian(Option<SemVer>),
    Fedora(Option<SemVer>),
}

fn opt_ver_eq(a: &Option<SemVer>, b: &Option<SemVer>) -> (r: bool)
    ensures
        r == (a == b),
{
    match (a, b) {
        (Option::None, Option::None) => true,
        (Option::Some(x), Option::Some(y)) => x == y,
        _ => false,
    }
}

impl PartialEq for Dist {
    fn eq(&self, other: &Self) -> bool {
        match (self, other) {
            (Dist::Ubuntu(a), Dist::Ubuntu(b)) => opt_ver_eq(a, b),
            (Dist::Debian(a), Dist::Debian(b)) => opt_ver_eq(a, b),
            (Dist::Fedora(a), Dist::Fedora(b)) => opt_ver_eq(a, b),
            _ => false,
        }
    }
}

impl vstd::std_specs::cmp::PartialEqSpecImpl for Dist {
    open spec fn obeys_eq_spec() -> bool {
        true
    }

    open spec fn eq_spec(&self, other: &Dist) -> bool {
        *self == *other
    }
}

/// The hardware architectures a repository layout distinguishes.
#[derive(Debug, Clone, Copy, PartialEq, Eq, Structural)]
pub enum Arch {
    Amd64,
}

impl core::str::FromStr for Arch {
    type Err = ();

    fn from_str(s: &str) -> Result<Self, Self::Err> {
        let n: usize = s.unicode_len();
        proof {
            reveal_strlit("amd64");
        }
        if n == 5 && matches_at(s, "amd64", 0) {
            Ok(Arch::Amd64)
        } else {
            Err(())
        }
    }
}

/// A decimal digit.
pub open spec fn is_digit(c: char) -> bool {
    '0' <= c && c <= '9'
}

/// An ASCII letter.
pub open spec fn is_alpha(c: char) -> bool {
    ('a' <= c && c <= 'z') || ('A' <= c && c <= 'Z')
}

/// Every character of `s` is a decimal digit.
pub open spec fn is_digits(s: Seq<char>) -> bool {
    forall|i: int| 0 <= i < s.len() ==> is_digit(#[trigger] s[i])
}

/// The numeric value of the digit string `s`.
pub open spec fn dec_val(s: Seq<char>) -> nat
    decreases s.len(),
{
    if s.len() == 0 {
        0
    } else {
        (dec_val(s.drop_last()) * 10 + (s.last() as int - '0' as int)) as nat
    }
}

/// The index of the first occurrence of `c` in `s`, or `-1`.
pub open spec fn first_index_of(s: Seq<char>, c: char) -> int
    decreases s.len(),
{
    if s.len() == 0 {
        -1
    } else if s[0] == c {
        0
    } else {
        let r = first_index_of(s.drop_first(), c);
        if r < 0 {
            -1
        } else {
            r + 1
        }
    }
}

/// The version that a plain `major` or `major.minor` digit string denotes,
/// or `None` if `s` is not of that shape.
pub open spec fn simple_version(s: Seq<char>) -> Option<(nat, nat)> {
    let i = first_index_of(s, '.');
    if i < 0 {
        if s.len() >= 1 && is_digits(s) {
            Some((dec_val(s), 0 as nat))
        } else {
            None
        }
    } else {
        let a = s.subrange(0, i);
        let b = s.subrange(i + 1, s.len() as int);
        if a.len() >= 1 && is_digits(a) && b.len() >= 1 && is_digits(b) {
            Some((dec_val(a), dec_val(b)))
        } else {
            None
        }
    }
}

/// What `lenient_semver::parse` makes of `s`: major, minor and patch on
/// success. A function of `s` alone.
pub uninterp spec fn lenient_parse(s: Seq<char>) -> Option<(u64, u64, u64)>;

/// `lenient_parse`'s result as this crate's version type.
pub open spec fn sem_opt(t: Option<(u64, u64, u64)>) -> Option<SemVer> {
    match t {
        Option::None => Option::None,
        Option::Some(v) => Option::Some(SemVer { major: v.0, minor: v.1, patch: v.2 }),
    }
}

/// Relies on `lenient_semver::parse`: the result depends on the input alone,
/// and the crate's grammar (its documented examples include `"1"` parsing as
/// `1.0.0`, `"1.2"` as `1.2.0`, and `"2020.04"` as `2020.4.0`) maps a plain
/// `major` or `major.minor` digit string, leading zeroes allowed, to those
/// numeric components whenever they fit in `u64`.
#[verifier::external_body]
fn lenient_version(s: &str) -> (r: Option<SemVer>)
    ensures
        r == sem_opt(lenient_parse(s@)),
        match simple_version(s@) {
            Option::Some(p) => (p.0 <= u64::MAX && p.1 <= u64::MAX) ==> r == Option::Some(
                SemVer { major: p.0 as u64, minor: p.1 as u64, patch: 0 },
            ),
            Option::None => true,
        },
{
    match lenient_semver::parse(s) {
        Ok(v) => Some(SemVer { major: v.major, minor: v.minor, patch: v.patch }),
        Err(_) => None,
    }
}

/// The suffix of `s` from the first digit that immediately follows a
/// letter, or `None` when no such boundary exists.
pub open spec fn split_at_numeric_spec(s: Seq<char>) -> Option<Seq<char>>
    decreases s.len(),
{
    if s.len() < 2 {
        None
    } else if is_alpha(s[0]) && is_digit(s[1]) {
        Some(s.subrange(1, s.len() as int))
    } else {
        split_at_numeric_spec(s.drop_first())
    }
}

/// Splits the string `s` at the first occurrence of a numeric digit that
/// follows a letter; for `"ubuntu24.10"` it returns `"24.10"`.
pub fn split_at_numeric(s: &str) -> (r: Option<&str>)
    ensures
        r is Some <==> split_at_numeric_spec(s@) is Some,
        r is Some ==> split_at_numeric_spec(s@) == Some(r->0@),
{
    let n: usize = s.unicode_len();
    let mut i: usize = 0;
    proof {
        assert(s@.skip(0) =~= s@);
    }
    while i + 1 < n
        invariant
            0 <= i,
            n == s@.len(),
            i + 1 <= n || i == 0,
            split_at_numeric_spec(s@) == split_at_numeric_spec(s@.skip(i as int)),
        decreases n - i,
    {
        let c1 = s.get_char(i);
        let c2 = s.get_char(i + 1);
        if (('a' <= c1 && c1 <= 'z') || ('A' <= c1 && c1 <= 'Z')) && ('0' <= c2 && c2 <= '9') {
            let rest = s.substring_char(i + 1, n);
            proof {
                assert(s@.skip(i as int)[0] == c1);
                assert(s@.skip(i as int)[1] == c2);
                assert(s@.skip(i as int).subrange(1, s@.skip(i as int).len() as int) =~= rest@);
            }
            return Some(rest);
        }
        proof {
            assert(s@.skip(i as int).drop_first() =~= s@.skip(i + 1));
        }
        i = i + 1;
    }
    proof {
        assert(s@.skip(i as int).len() < 2);
    }
    None
}

/// The version parsed out of a distribution token, or `None`.
pub open spec fn spec_parse_version(t: Seq<char>) -> Option<SemVer> {
    match split_at_numeric_spec(t) {
        Option::None => Option::None,
        Option::Some(v) => sem_opt(lenient_parse(v)),
    }
}

/// Parses the version from the distribution identifier `dist`: for
/// `ubuntu22.10` the version is `22.10`. A `major.minor` digit suffix is
/// parsed to those exact components (`patch` 0).
pub fn parse_version(dist: &str) -> (r: Option<SemVer>)
    ensures
        r == spec_parse_version(dist@),
        match split_at_numeric_spec(dist@) {
            Option::Some(v) => match simple_version(v) {
                Option::Some(p) => (p.0 <= u64::MAX && p.1 <= u64::MAX) ==> r == Option::Some(
                    SemVer { major: p.0 as u64, minor: p.1 as u64, patch: 0 },
                ),
                Option::None => true,
            },
            Option::None => true,
        },
{
    match split_at_numeric(dist) {
        Option::None => Option::None,
        Option::Some(v) => lenient_version(v),
    }
}

/// The index of the last `.` in `s`, or `-1`.
pub open spec fn last_index_of(s: Seq<char>, c: char) -> int
    decreases s.len(),
{
    if s.len() == 0 {
        -1
    } else if s.last() == c {
        s.len() - 1
    } else {
        last_index_of(s.drop_last(), c)
    }
}

/// The packaging type denoted by the extension `ext`, or `None`.
pub open spec fn ext_type(ext: Seq<char>) -> Option<Type> {
    if ext == seq!['d', 'e', 'b'] {
        Some(Type::Deb)
    } else if ext == seq!['r', 'p', 'm'] {
        Some(Type::Rpm)
    } else {
        None
    }
}

/// Splitting `s` at its final `.`: the recognized packaging type and the
/// stem, or `None` when there is no `.` past the first position or the
/// extension is not recognized.
pub open spec fn spec_split_extention(s: Seq<char>) -> Option<(Type, Seq<char>)> {
    let i = last_index_of(s, '.');
    if i <= 0 {
        None
    } else {
        match ext_type(s.subrange(i + 1, s.len() as int)) {
            Option::None => Option::None,
            Option::Some(t) => Option::Some((t, s.subrange(0, i))),
        }
    }
}

/// Splits the final `.`-delimited extension off `s` and recognizes the
/// packaging type it denotes.
pub fn split_extention(s: &str) -> (r: Option<(Type, &str)>)
    ensures
        r is Some <==> spec_split_extention(s@) is Some,
        r is Some ==> ({
            let p = r->0;
            spec_split_extention(s@) == Some((p.0, p.1@))
        }),
{
    let n: usize = s.unicode_len();
    let mut k: usize = n;
    proof {
        assert(s@.take(n as int) =~= s@);
    }
    while k > 0 && s.get_char(k - 1) != '.'
        invariant
            0 <= k <= n,
            n == s@.len(),
            last_index_of(s@, '.') == last_index_of(s@.take(k as int), '.'),
        decreases k,
    {
        proof {
            assert(s@.take(k as int).drop_last() =~= s@.take(k - 1));
        }
        k = k - 1;
    }
    if k <= 1 {
        // No `.` at all, or a `.` only in the leading position.
        proof {
            if k == 1 {
                assert(last_index_of(s@, '.') == 0);
            }
        }
        return None;
    }
    let i: usize = k - 1;
    proof {
        assert(s@.take(k as int).last() == s@[k - 1]);
        assert(last_index_of(s@, '.') == i);
    }
    if n - k == 3 {
        let e0 = s.get_char(k);
        let e1 = s.get_char(k + 1);
        let e2 = s.get_char(k + 2);
        let stem = s.substring_char(0, i);
        proof {
            assert(s@.subrange(i + 1, s@.len() as int) =~= seq![e0, e1, e2]);
            assert(stem@ =~= s@.subrange(0, i as int));
        }
        if e0 == 'd' && e1 == 'e' && e2 == 'b' {
            proof {
                assert(s@.subrange(i + 1, s@.len() as int) == seq!['d', 'e', 'b']);
            }
            return Some((Type::Deb, stem));
        }
        if e0 == 'r' && e1 == 'p' && e2 == 'm' {
            proof {
                assert(s@.subrange(i + 1, s@.len() as int) == seq!['r', 'p', 'm']);
                assert(s@.subrange(i + 1, s@.len() as int) != seq!['d', 'e', 'b']);
            }
            return Some((Type::Rpm, stem));
        }
        proof {
            let ext = s@.subrange(i + 1, s@.len() as int);
            assert(ext[0] == e0 && ext[1] == e1 && ext[2] == e2);
            assert(ext != seq!['d', 'e', 'b'] && ext != seq!['r', 'p', 'm']);
        }
        return None;
    }
    proof {
        let ext = s@.subrange(i + 1, s@.len() as int);
        assert(ext.len() == n - k);
        assert(ext != seq!['d', 'e', 'b'] && ext != seq!['r', 'p', 'm']);
    }
    None
}

/// A token separator in a filename stem.
pub open spec fn is_sep(c: char) -> bool {
    c == '-' || c == '_'
}

/// The index of the first separator in `s`, or `-1`.
pub open spec fn first_sep(s: Seq<char>) -> int
    decreases s.len(),
{
    if s.len() == 0 {
        -1
    } else if is_sep(s[0]) {
        0
    } else {
        let r = first_sep(s.drop_first());
        if r < 0 {
            -1
        } else {
            r + 1
        }
    }
}

proof fn lemma_first_sep_at(s: Seq<char>, i: int)
    requires
        0 <= i < s.len(),
        is_sep(s[i]),
        forall|k: int| 0 <= k < i ==> !is_sep(#[trigger] s[k]),
    ensures
        first_sep(s) == i,
    decreases i,
{
    if i > 0 {
        lemma_first_sep_at(s.drop_first(), i - 1);
    }
}

proof fn lemma_first_sep_none(s: Seq<char>)
    requires
        forall|k: int| 0 <= k < s.len() ==> !is_sep(#[trigger] s[k]),
    ensures
        first_sep(s) == -1,
    decreases s.len(),
{
    if s.len() > 0 {
        lemma_first_sep_none(s.drop_first());
    }
}

proof fn lemma_first_sep_bounds(s: Seq<char>)
    ensures
        -1 <= first_sep(s) < s.len(),
    decreases s.len(),
{
    if s.len() > 0 && !is_sep(s[0]) {
        lemma_first_sep_bounds(s.drop_first());
    }
}

#[via_fn]
proof fn spec_tokens_decreases(s: Seq<char>) {
    lemma_first_sep_bounds(s);
}

/// The stem split into tokens on `-` and `_`, empty tokens kept.
pub open spec fn spec_tokens(s: Seq<char>) -> Seq<Seq<char>>
    decreases s.len(),
        via spec_tokens_decreases
{
    let i = first_sep(s);
    if i < 0 {
        seq![s]
    } else {
        seq![s.subrange(0, i)] + spec_tokens(s.subrange(i + 1, s.len() as int))
    }
}

fn find_first_sep(s: &str) -> (r: Option<usize>)
    ensures
        match r {
            Option::None => first_sep(s@) == -1,
            Option::Some(i) => first_sep(s@) == i as int && i < s@.len(),
        },
{
    let n: usize = s.unicode_len();
    let mut i: usize = 0;
    while i < n
        invariant
            0 <= i <= n,
            n == s@.len(),
            forall|k: int| 0 <= k < i ==> !is_sep(#[trigger] s@[k]),
        decreases n - i,
    {
        let c = s.get_char(i);
        if c == '-' || c == '_' {
            proof {
                lemma_first_sep_at(s@, i as int);
            }
            return Some(i);
        }
        i = i + 1;
    }
    proof {
        lemma_first_sep_none(s@);
    }
    None
}

/// Splits the stem `s` into its `-`/`_`-separated tokens.
pub fn split_tokens(s: &str) -> (r: Vec<String>)
    ensures
        r.deep_view() == spec_tokens(s@),
    decreases s@.len(),
{
    let n: usize = s.unicode_len();
    match find_first_sep(s) {
        Option::None => {
            let mut out: Vec<String> = Vec::new();
            out.push(s.to_owned());
            proof {
                assert(out.deep_view() =~= spec_tokens(s@));
            }
            out
        },
        Option::Some(i) => {
            let head = s.substring_char(0, i);
            let rest = s.substring_char(i + 1, n);
            let mut out = split_tokens(rest);
            out.insert(0, head.to_owned());
            proof {
                assert(head@ =~= s@.subrange(0, i as int));
                assert(rest@ =~= s@.subrange(i + 1, s@.len() as int));
                assert(out.deep_view() =~= spec_tokens(s@));
            }
            out
        },
    }
}

/// The keyword of the Ubuntu family.
pub open spec fn kw_ubuntu() -> Seq<char> {
    seq!['u', 'b', 'u', 'n', 't', 'u']
}

/// The keyword of the Debian family.
pub open spec fn kw_debian() -> Seq<char> {
    seq!['d', 'e', 'b', 'i', 'a', 'n']
}

/// The keyword of the Fedora family.
pub open spec fn kw_fedora() -> Seq<char> {
    seq!['f', 'e', 'd', 'o', 'r', 'a']
}

/// The distribution a single token denotes, or `None`. A token naming
/// several keywords is read in the fixed priority Ubuntu, Debian, Fedora.
pub open spec fn token_dist(t: Seq<char>) -> Option<Dist> {
    if contains_seq(t, kw_ubuntu()) {
        Some(Dist::Ubuntu(spec_parse_version(t)))
    } else if contains_seq(t, kw_debian()) {
        Some(Dist::Debian(spec_parse_version(t)))
    } else if contains_seq(t, kw_fedora()) {
        Some(Dist::Fedora(spec_parse_version(t)))
    } else {
        None
    }
}

/// The distribution of the first token that names one, or `None`.
pub open spec fn first_dist(toks: Seq<Seq<char>>) -> Option<Dist>
    decreases toks.len(),
{
    if toks.len() == 0 {
        None
    } else if token_dist(toks[0]) is Some {
        token_dist(toks[0])
    } else {
        first_dist(toks.drop_first())
    }
}

fn token_dist_exec(t: &str) -> (r: Option<Dist>)
    ensures
        r == token_dist(t@),
{
    proof {
        reveal_strlit("ubuntu");
        reveal_strlit("debian");
        reveal_strlit("fedora");
        assert("ubuntu"@ =~= kw_ubuntu());
        assert("debian"@ =~= kw_debian());
        assert("fedora"@ =~= kw_fedora());
    }
    if contains_str(t, "ubuntu") {
        Some(Dist::Ubuntu(parse_version(t)))
    } else if contains_str(t, "debian") {
        Some(Dist::Debian(parse_version(t)))
    } else if contains_str(t, "fedora") {
        Some(Dist::Fedora(parse_version(t)))
    } else {
        None
    }
}

/// What classification derives from a filename: the packaging type and the
/// detected distribution, or `None` for an unrecognized extension.
pub open spec fn spec_detect(name: Seq<char>) -> Option<(Type, Option<Dist>)> {
    match spec_split_extention(name) {
        Option::None => Option::None,
        Option::Some(p) => Option::Some((p.0, first_dist(spec_tokens(p.1)))),
    }
}

/// One distributable artifact: packaging type and distribution derived from
/// the filename at construction, the caller-declared version, the download
/// URL, the creation timestamp, and the raw-data slot that a download step
/// fills at most once.
#[derive(Debug)]
pub struct Package {
    pub tipe: Type,
    pub dist: Option<Dist>,
    pub url: String,
    pub ver: String,
    pub data: Option<Vec<u8>>,
    pub created: i64,
}

fn bytes_eq(a: &Vec<u8>, b: &Vec<u8>) -> (r: bool)
    ensures
        r == (a@ == b@),
{
    if a.len() != b.len() {
        return false;
    }
    let n: usize = a.len();
    let mut i: usize = 0;
    while i < n
        invariant
            0 <= i <= n,
            n == a@.len() == b@.len(),
            forall|k: int| 0 <= k < i ==> a@[k] == b@[k],
        decreases n - i,
    {
        if a[i] != b[i] {
            return false;
        }
        i = i + 1;
    }
    proof {
        assert(a@ =~= b@);
    }
    true
}

/// The raw-data slots hold the same bytes (or are both empty).
pub open spec fn data_eqv(a: Option<Vec<u8>>, b: Option<Vec<u8>>) -> bool {
    match (a, b) {
        (Option::None, Option::None) => true,
        (Option::Some(x), Option::Some(y)) => x@ == y@,
        _ => false,
    }
}

impl PartialEq for Package {
    fn eq(&self, other: &Self) -> bool {
        let fields = self.tipe == other.tipe && self.dist == other.dist && self.url == other.url
            && self.ver == other.ver && self.created == other.created;
        if !fields {
            return false;
        }
        match (&self.data, &other.data) {
            (Option::None, Option::None) => true,
            (Option::Some(x), Option::Some(y)) => bytes_eq(x, y),
            _ => false,
        }
    }
}

impl vstd::std_specs::cmp::PartialEqSpecImpl for Package {
    open spec fn obeys_eq_spec() -> bool {
        true
    }

    open spec fn eq_spec(&self, other: &Package) -> bool {
        self.tipe == other.tipe && self.dist == other.dist && self.url@ == other.url@
            && self.ver@ == other.ver@ && data_eqv(self.data, other.data) && self.created
            == other.created
    }
}

/// The basename a URL's final path segment denotes.
pub open spec fn spec_file_name(url: Seq<char>) -> Seq<char> {
    let i = last_index_of(url, '/');
    url.subrange(i + 1, url.len() as int)
}

impl Package {
    /// Classifies `name` into a package: the extension decides the packaging
    /// type (or the whole filename is rejected), and the first token naming a
    /// distribution keyword decides the distribution.
    pub fn detect_package(name: &str, ver: String, url: String, created: i64) -> (r: Result<
        Package,
        (),
    >)
        ensures
            r is Ok <==> spec_detect(name@) is Some,
            r is Ok ==> ({
                let d = spec_detect(name@)->0;
                r->Ok_0 == (Package {
                    tipe: d.0,
                    dist: d.1,
                    url: url,
                    ver: ver,
                    data: Option::<Vec<u8>>::None,
                    created: created,
                })
            }),
    {
        let (tipe, stem) = match split_extention(name) {
            Option::None => {
                return Err(());
            },
            Option::Some(p) => p,
        };
        let toks = split_tokens(stem);
        let mut dist: Option<Dist> = None;
        let mut ti: usize = 0;
        proof {
            assert(toks.deep_view().skip(0) =~= toks.deep_view());
        }
        while ti < toks.len()
            invariant
                0 <= ti <= toks@.len(),
                first_dist(spec_tokens(stem@)) == if dist is Some {
                    dist
                } else {
                    first_dist(toks.deep_view().skip(ti as int))
                },
                toks.deep_view() == spec_tokens(stem@),
            decreases toks@.len() - ti,
        {
            if dist.is_none() {
                let td = token_dist_exec(toks[ti].as_str());
                proof {
                    assert(toks.deep_view().skip(ti as int)[0] == toks@[ti as int]@);
                    assert(toks.deep_view().skip(ti as int).drop_first() =~= toks.deep_view().skip(
                        ti + 1,
                    ));
                }
                if td.is_some() {
                    dist = td;
                }
            }
            ti = ti + 1;
        }
        Ok(Package { tipe, dist, url, ver, data: None, created })
    }

    /// The package is a Debian artifact.
    pub fn is_deb(&self) -> (r: bool)
        ensures
            r == (self.tipe is Deb),
    {
        match self.tipe {
            Type::Deb => true,
            Type::Rpm => false,
        }
    }

    /// Check if the package is for Ubuntu.
    pub fn for_ubuntu(&self) -> (r: bool)
        ensures
            r == (self.dist matches Some(Dist::Ubuntu(_))),
    {
        match &self.dist {
            Option::Some(Dist::Ubuntu(_)) => true,
            _ => false,
        }
    }

    /// Return the distribution for which it was packaged.
    pub fn distribution(&self) -> (r: &Dist)
        requires
            self.dist is Some,
        ensures
            *r == self.dist->0,
    {
        match &self.dist {
            Option::Some(d) => d,
            Option::None => unreached(),
        }
    }

    /// Version of the package, as the caller declared it.
    pub fn version(&self) -> (r: &str)
        ensures
            r@ == self.ver@,
    {
        self.ver.as_str()
    }

    /// The URL the artifact is downloaded from.
    pub fn download_url(&self) -> (r: &str)
        ensures
            r@ == self.url@,
    {
        self.url.as_str()
    }

    /// The artifact's basename: the final `/`-separated segment of the URL.
    pub fn file_name(&self) -> (r: &str)
        ensures
            r@ == spec_file_name(self.url@),
    {
        let s = self.url.as_str();
        let n: usize = s.unicode_len();
        let mut k: usize = n;
        proof {
            assert(s@.take(n as int) =~= s@);
        }
        while k > 0 && s.get_char(k - 1) != '/'
            invariant
                0 <= k <= n,
                n == s@.len(),
                last_index_of(s@, '/') == last_index_of(s@.take(k as int), '/'),
            decreases k,
        {
            proof {
                assert(s@.take(k as int).drop_last() =~= s@.take(k - 1));
            }
            k = k - 1;
        }
        proof {
            if k > 0 {
                assert(s@.take(k as int).last() == s@[k - 1]);
            }
            assert(last_index_of(s@, '/') == k - 1);
        }
        let r = s.substring_char(k, n);
        proof {
            assert(r@ =~= spec_file_name(self.url@));
        }
        r
    }

    /// Return the data of the package, or `None` while no download has
    /// populated the slot yet.
    pub fn data(&self) -> (r: Option<Vec<u8>>)
        ensures
            r is Some <==> self.data is Some,
            r is Some ==> r->0@ == self.data->0@,
    {
        match &self.data {
            Option::None => None,
            Option::Some(v) => {
                let c = v.clone();
                proof {
                    broadcast use vstd::std_specs::vec::vec_clone_deep_view_proof;

                    assert(c.deep_view() =~= c@);
                    assert(v.deep_view() =~= v@);
                }
                Some(c)
            },
        }
    }

    /// Set the package data: the single population step of the raw-data
    /// slot.
    pub fn set_data(&mut self, data: Vec<u8>)
        ensures
            *final(self) == (Package { data: Some(data), ..*old(self) }),
    {
        self.data = Some(data);
    }

    /// The creation timestamp, in seconds since the Unix epoch.
    pub fn creation_date(&self) -> (r: i64)
        ensures
            r == self.created,
    {
        self.created
    }
}

proof fn lemma_last_dot_concat(s: Seq<char>, t: Seq<char>, c: char)
    requires
        forall|i: int| 0 <= i < t.len() ==> t[i] != c,
    ensures
        last_index_of(s + t, c) == last_index_of(s, c),
    decreases t.len(),
{
    if t.len() == 0 {
        assert(s + t =~= s);
    } else {
        assert((s + t).drop_last() =~= s + t.drop_last());
        lemma_last_dot_concat(s, t.drop_last(), c);
    }
}

/// Splitting the extension off `{stem}.{ext}` recovers the stem and the
/// packaging type that `ext` denotes, for any dot-free extension.
pub proof fn lemma_classification_extension(stem: Seq<char>, ext: Seq<char>)
    requires
        stem.len() >= 1,
        forall|i: int| 0 <= i < ext.len() ==> ext[i] != '.',
    ensures
        spec_split_extention(stem + seq!['.'] + ext) == (match ext_type(ext) {
            Option::Some(t) => Option::Some((t, stem)),
            Option::None => Option::<(Type, Seq<char>)>::None,
        }),
{
    let f = stem + seq!['.'] + ext;
    lemma_last_dot_concat(stem + seq!['.'], ext, '.');
    assert((stem + seq!['.']).last() == '.');
    assert(last_index_of(stem + seq!['.'], '.') == stem.len());
    assert(last_index_of(f, '.') == stem.len());
    assert(f.subrange(stem.len() as int + 1, f.len() as int) =~= ext);
    assert(f.subrange(0, stem.len() as int) =~= stem);
}

proof fn lemma_first_sep_concat_left(a: Seq<char>, t: Seq<char>)
    requires
        first_sep(a) >= 0,
    ensures
        first_sep(a + t) == first_sep(a),
    decreases a.len(),
{
    assert((a + t).drop_first() =~= a.drop_first() + t);
    if !is_sep(a[0]) {
        lemma_first_sep_concat_left(a.drop_first(), t);
    }
}

proof fn lemma_first_sep_no_sep(a: Seq<char>)
    requires
        first_sep(a) == -1,
    ensures
        forall|i: int| 0 <= i < a.len() ==> !is_sep(#[trigger] a[i]),
    decreases a.len(),
{
    if a.len() > 0 {
        lemma_first_sep_no_sep(a.drop_first());
        assert forall|i: int| 0 <= i < a.len() implies !is_sep(#[trigger] a[i]) by {
            if i > 0 {
                assert(a.drop_first()[i - 1] == a[i]);
            }
        }
    }
}

/// Tokenization is a homomorphism over a separator: the tokens of
/// `{a}{sep}{b}` are the tokens of `a` followed by the tokens of `b`.
pub proof fn lemma_tokens_concat(a: Seq<char>, sep: char, b: Seq<char>)
    requires
        is_sep(sep),
    ensures
        spec_tokens(a + seq![sep] + b) == spec_tokens(a) + spec_tokens(b),
    decreases a.len(),
{
    let f = a + seq![sep] + b;
    let i = first_sep(a);
    lemma_first_sep_bounds(a);
    if i >= 0 {
        lemma_first_sep_concat_left(a, seq![sep] + b);
        assert(f =~= a + (seq![sep] + b));
        assert(first_sep(f) == i);
        assert(f.subrange(0, i) =~= a.subrange(0, i));
        assert(f.subrange(i + 1, f.len() as int) =~= a.subrange(i + 1, a.len() as int)
            + seq![sep] + b);
        lemma_tokens_concat(a.subrange(i + 1, a.len() as int), sep, b);
        assert(spec_tokens(f) =~= spec_tokens(a) + spec_tokens(b));
    } else {
        lemma_first_sep_no_sep(a);
        assert forall|k: int| 0 <= k < a.len() implies !is_sep(#[trigger] f[k]) by {
            assert(f[k] == a[k]);
        }
        assert(is_sep(f[a.len() as int]));
        lemma_first_sep_at(f, a.len() as int);
        assert(f.subrange(0, a.len() as int) =~= a);
        assert(f.subrange(a.len() as int + 1, f.len() as int) =~= b);
        assert(spec_tokens(f) =~= spec_tokens(a) + spec_tokens(b));
    }
}

proof fn lemma_first_dist_none(ts: Seq<Seq<char>>)
    requires
        forall|i: int| 0 <= i < ts.len() ==> token_dist(#[trigger] ts[i]) is None,
    ensures
        first_dist(ts) is None,
    decreases ts.len(),
{
    if ts.len() > 0 {
        assert forall|i: int| 0 <= i < ts.drop_first().len() implies token_dist(
            #[trigger] ts.drop_first()[i],
        ) is None by {
            assert(ts.drop_first()[i] == ts[i + 1]);
        }
        lemma_first_dist_none(ts.drop_first());
    }
}

proof fn lemma_first_dist_append(ts: Seq<Seq<char>>, us: Seq<Seq<char>>)
    requires
        first_dist(ts) is None,
    ensures
        first_dist(ts + us) == first_dist(us),
    decreases ts.len(),
{
    if ts.len() == 0 {
        assert(ts + us =~= us);
    } else {
        assert((ts + us).drop_first() =~= ts.drop_first() + us);
        assert((ts + us)[0] == ts[0]);
        lemma_first_dist_append(ts.drop_first(), us);
    }
}

proof fn lemma_split_boundary(t: Seq<char>, k: int)
    requires
        0 <= k,
        k + 1 < t.len(),
        forall|j: int| 0 <= j < k ==> !(is_alpha(#[trigger] t[j]) && is_digit(t[j + 1])),
        is_alpha(t[k]),
        is_digit(t[k + 1]),
    ensures
        split_at_numeric_spec(t) == Some(t.subrange(k + 1, t.len() as int)),
    decreases k,
{
    if k == 0 {
        assert(split_at_numeric_spec(t) == Some(t.subrange(1, t.len() as int)));
    } else {
        let u = t.drop_first();
        assert forall|j: int| 0 <= j < k - 1 implies !(is_alpha(#[trigger] u[j]) && is_digit(
            u[j + 1],
        )) by {
            assert(u[j] == t[j + 1] && u[j + 1] == t[j + 2]);
        }
        assert(u[k - 1] == t[k] && u[k] == t[k + 1]);
        lemma_split_boundary(u, k - 1);
        assert(u.subrange(k, u.len() as int) =~= t.subrange(k + 1, t.len() as int));
        assert(!(is_alpha(t[0]) && is_digit(t[1])));
    }
}

/// Every character of the three family keywords is a letter and none is a
/// digit, a separator or a dot.
proof fn lemma_kw_chars(kw: Seq<char>)
    requires
        kw == kw_ubuntu() || kw == kw_debian() || kw == kw_fedora(),
    ensures
        kw.len() == 6,
        forall|i: int| 0 <= i < kw.len() ==> is_alpha(#[trigger] kw[i]),
        forall|i: int| 0 <= i < kw.len() ==> !is_digit(#[trigger] kw[i]),
        forall|i: int| 0 <= i < kw.len() ==> !is_sep(#[trigger] kw[i]),
{
}

proof fn lemma_contains_kw(kw: Seq<char>, ver: Seq<char>, kw2: Seq<char>)
    requires
        kw == kw_ubuntu() || kw == kw_debian() || kw == kw_fedora(),
        kw2 == kw_ubuntu() || kw2 == kw_debian() || kw2 == kw_fedora(),
        forall|i: int| 0 <= i < ver.len() ==> !is_alpha(#[trigger] ver[i]),
    ensures
        contains_seq(kw + ver, kw2) <==> kw == kw2,
{
    let t = kw + ver;
    lemma_kw_chars(kw);
    lemma_kw_chars(kw2);
    if contains_seq(t, kw2) {
        let i = choose|i: int|
            0 <= i && i + kw2.len() <= t.len() && #[trigger] t.subrange(i, i + kw2.len() as int)
                == kw2;
        assert forall|j: int| 0 <= j < 6 implies is_alpha(#[trigger] t[i + j]) by {
            assert(t.subrange(i, i + kw2.len() as int)[j] == kw2[j]);
        }
        if i >= 1 {
            assert(is_alpha(t[i + 5]));
            assert(t[i + 5] == ver[i + 5 - 6]);
            assert(false);
        }
        assert(i == 0);
        assert(t.subrange(0, 6) =~= kw);
        assert(kw == kw2);
    }
    if kw == kw2 {
        assert(t.subrange(0, 0 + kw2.len() as int) =~= kw2);
        assert(contains_seq(t, kw2));
    }
}

/// A distribution token `{keyword}{version}` (version starting with a digit
/// and containing only digits and dots) is classified to exactly its family,
/// with the version part — and nothing else — handed to the version parser.
#[verifier::rlimit(100)]
pub proof fn lemma_distro_token(kw: Seq<char>, ver: Seq<char>)
    requires
        kw == kw_ubuntu() || kw == kw_debian() || kw == kw_fedora(),
        ver.len() >= 1,
        is_digit(ver[0]),
        forall|i: int| 0 <= i < ver.len() ==> (is_digit(#[trigger] ver[i]) || ver[i] == '.'),
    ensures
        split_at_numeric_spec(kw + ver) == Some(ver),
        spec_parse_version(kw + ver) == sem_opt(lenient_parse(ver)),
        token_dist(kw + ver) == Some(
            if kw == kw_ubuntu() {
                Dist::Ubuntu(sem_opt(lenient_parse(ver)))
            } else if kw == kw_debian() {
                Dist::Debian(sem_opt(lenient_parse(ver)))
            } else {
                Dist::Fedora(sem_opt(lenient_parse(ver)))
            },
        ),
{
    let t = kw + ver;
    assert forall|i: int| 0 <= i < ver.len() implies !is_alpha(#[trigger] ver[i]) by {}
    assert(split_at_numeric_spec(t) == Some(ver)) by {
        lemma_kw_chars(kw);
        assert forall|j: int| 0 <= j < 5 implies !(is_alpha(#[trigger] t[j]) && is_digit(
            t[j + 1],
        )) by {
            assert(t[j + 1] == kw[j + 1]);
        }
        assert(t[5] == kw[5] && is_alpha(t[5]));
        assert(t[6] == ver[0] && is_digit(t[6]));
        lemma_split_boundary(t, 5);
        assert(t.subrange(6, t.len() as int) =~= ver);
    }
    assert(spec_parse_version(t) == sem_opt(lenient_parse(ver)));
    assert(contains_seq(t, kw_ubuntu()) <==> kw == kw_ubuntu()) by {
        lemma_contains_kw(kw, ver, kw_ubuntu());
    }
    assert(contains_seq(t, kw_debian()) <==> kw == kw_debian()) by {
        lemma_contains_kw(kw, ver, kw_debian());
    }
    assert(contains_seq(t, kw_fedora()) <==> kw == kw_fedora()) by {
        lemma_contains_kw(kw, ver, kw_fedora());
    }
    if kw == kw_ubuntu() {
        assert(token_dist(t) == Some(Dist::Ubuntu(spec_parse_version(t))));
    } else if kw == kw_debian() {
        assert(token_dist(t) == Some(Dist::Debian(spec_parse_version(t))));
    } else {
        assert(token_dist(t) == Some(Dist::Fedora(spec_parse_version(t))));
    }
}

/// The classification law: a filename of the form
/// `{name}-{distro}{version}.{ext}` with a recognized extension, a family
/// keyword, a version of digits and dots, and no distribution keyword in
/// the name part, classifies to exactly the extension's packaging type and
/// the keyword's family, with exactly `{version}` handed to the version
/// parser.
pub proof fn lemma_classification(
    name: Seq<char>,
    kw: Seq<char>,
    ver: Seq<char>,
    ext: Seq<char>,
)
    requires
        kw == kw_ubuntu() || kw == kw_debian() || kw == kw_fedora(),
        ver.len() >= 1,
        is_digit(ver[0]),
        forall|i: int| 0 <= i < ver.len() ==> (is_digit(#[trigger] ver[i]) || ver[i] == '.'),
        forall|i: int|
            0 <= i < spec_tokens(name).len() ==> token_dist(#[trigger] spec_tokens(name)[i])
                is None,
        ext_type(ext) is Some,
    ensures
        spec_detect(name + seq!['-'] + kw + ver + seq!['.'] + ext) == Some(
            (
                ext_type(ext)->0,
                Some(
                    if kw == kw_ubuntu() {
                        Dist::Ubuntu(sem_opt(lenient_parse(ver)))
                    } else if kw == kw_debian() {
                        Dist::Debian(sem_opt(lenient_parse(ver)))
                    } else {
                        Dist::Fedora(sem_opt(lenient_parse(ver)))
                    },
                ),
            ),
        ),
{
    let tok = kw + ver;
    let stem = name + seq!['-'] + tok;
    let f = name + seq!['-'] + kw + ver + seq!['.'] + ext;
    assert(f =~= stem + seq!['.'] + ext);
    lemma_kw_chars(kw);

    // The extension splits off exactly, whatever dots the stem holds.
    assert forall|i: int| 0 <= i < ext.len() implies ext[i] != '.' by {
        if ext == seq!['d', 'e', 'b'] || ext == seq!['r', 'p', 'm'] {
        }
    }
    lemma_classification_extension(stem, ext);
    assert(spec_split_extention(f) == Some((ext_type(ext)->0, stem)));

    // The stem's tokens are the name's tokens followed by the distro token.
    assert forall|i: int| 0 <= i < tok.len() implies !is_sep(#[trigger] tok[i]) by {
        if i >= 6 {
            assert(tok[i] == ver[i - 6]);
        } else {
            assert(tok[i] == kw[i]);
        }
    }
    lemma_first_sep_none(tok);
    assert(spec_tokens(tok) == seq![tok]);
    lemma_tokens_concat(name, '-', tok);
    assert(stem =~= name + seq!['-'] + tok);
    assert(spec_tokens(stem) == spec_tokens(name) + seq![tok]);

    // The first (and only) token naming a keyword is the distro token.
    lemma_first_dist_none(spec_tokens(name));
    lemma_first_dist_append(spec_tokens(name), seq![tok]);
    lemma_distro_token(kw, ver);
    assert(first_dist(seq![tok]) == token_dist(tok));
}

} // verus!
