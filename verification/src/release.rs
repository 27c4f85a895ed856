//! Version records: the immutable semantic-version values that identify one
//! published toolchain build, their precedence ordering, and the trusted
//! bridge to the `semver` parser that every per-source extractor funnels
//! version text through.

use vstd::prelude::*;

verus! {

/// A semantic version: the numeric `major.minor.patch` triple plus the
/// optional pre-release identifiers, kept as their raw dot-separated text
/// (empty when the version has none). Identity and ordering follow
/// semantic-version precedence, which ignores build metadata; build
/// metadata is therefore not recorded.
#[derive(Debug, Eq, Hash)]
pub struct Version {
    pub major: u64,
    pub minor: u64,
    pub patch: u64,
    pub pre: Vec<u8>,
}

/// What identifies a version: its numeric triple and its pre-release text.
/// Two versions with equal keys are the same version.
pub open spec fn version_key(v: Version) -> (u64, u64, u64, Seq<u8>) {
    (v.major, v.minor, v.patch, v.pre@)
}

impl Version {
    /// The identity of this version.
    pub open spec fn key(self) -> (u64, u64, u64, Seq<u8>) {
        version_key(self)
    }

    /// Builds the plain version `major.minor.patch`, with no pre-release.
    pub fn new(major: u64, minor: u64, patch: u64) -> (r: Version)
        ensures
            r.key() == (major, minor, patch, Seq::<u8>::empty()),
    {
        let v = Version { major, minor, patch, pre: Vec::new() };
        proof {
            assert(v.pre@ =~= Seq::<u8>::empty());
        }
        v
    }

    /// Builds a version with the given pre-release identifiers, handed in
    /// as their raw dot-separated text.
    pub fn with_pre(major: u64, minor: u64, patch: u64, pre: Vec<u8>) -> (r: Version)
        ensures
            r.key() == (major, minor, patch, pre@),
    {
        Version { major, minor, patch, pre }
    }

    /// Strict semantic-version precedence: numeric precedence on the
    /// triple, then pre-release precedence.
    pub open spec fn spec_lt(self, other: Version) -> bool {
        ||| self.major < other.major
        ||| (self.major == other.major && self.minor < other.minor)
        ||| (self.major == other.major && self.minor == other.minor && self.patch < other.patch)
        ||| (self.major == other.major && self.minor == other.minor && self.patch == other.patch
            && spec_pre_cmp(self.pre@, other.pre@) < 0)
    }

    /// Decides whether `self` precedes `other` in semantic-version order.
    pub fn lt(&self, other: &Version) -> (r: bool)
        ensures
            r == self.spec_lt(*other),
    {
        if self.major != other.major {
            self.major < other.major
        } else if self.minor != other.minor {
            self.minor < other.minor
        } else if self.patch != other.patch {
            self.patch < other.patch
        } else {
            pre_cmp(&self.pre, &other.pre) < 0
        }
    }
}

impl Clone for Version {
    /// The clone is the same version: it has the same key.
    fn clone(&self) -> (r: Self)
        ensures
            r.key() == self.key(),
    {
        Version {
            major: self.major,
            minor: self.minor,
            patch: self.patch,
            pre: clone_bytes(&self.pre),
        }
    }
}

impl PartialEq for Version {
    fn eq(&self, other: &Version) -> (r: bool) {
        self.major == other.major && self.minor == other.minor && self.patch == other.patch
            && bytes_eq(&self.pre, &other.pre)
    }
}

impl vstd::std_specs::cmp::PartialEqSpecImpl for Version {
    open spec fn obeys_eq_spec() -> bool {
        true
    }

    open spec fn eq_spec(&self, other: &Version) -> bool {
        self.key() == other.key()
    }
}

/// Copies a byte buffer.
fn clone_bytes(v: &Vec<u8>) -> (r: Vec<u8>)
    ensures
        r@ == v@,
{
    let mut out: Vec<u8> = Vec::new();
    let mut i: usize = 0;
    while i < v.len()
        invariant
            i <= v@.len(),
            out@ == v@.take(i as int),
        decreases v@.len() - i,
    {
        out.push(v[i]);
        proof {
            assert(v@.take(i + 1 as int) =~= v@.take(i as int).push(v@[i as int]));
        }
        i += 1;
    }
    proof {
        assert(v@.take(v@.len() as int) =~= v@);
    }
    out
}

/// Decides whether two byte buffers hold the same bytes.
fn bytes_eq(x: &Vec<u8>, y: &Vec<u8>) -> (r: bool)
    ensures
        r == (x@ == y@),
{
    if x.len() != y.len() {
        proof {
            assert(x@ != y@);
        }
        return false;
    }
    let mut i: usize = 0;
    while i < x.len()
        invariant
            i <= x@.len(),
            x@.len() == y@.len(),
            forall|k: int| 0 <= k < i ==> x@[k] == y@[k],
        decreases x@.len() - i,
    {
        if x[i] != y[i] {
            return false;
        }
        i += 1;
    }
    proof {
        assert(x@ =~= y@);
    }
    true
}

/// One published release of the toolchain. Identity and ordering are those
/// of its version.
#[derive(Debug, PartialEq, Eq)]
pub struct Release {
    pub version: Version,
}

impl Release {
    /// Wraps a version into a release record.
    pub fn new(version: Version) -> (r: Release)
        ensures
            r.version == version,
    {
        Release { version }
    }

    /// The version of this release.
    pub fn version(&self) -> (r: &Version)
        ensures
            r == self.version,
    {
        &self.version
    }

    /// A release identical to this one: the copy's version has the same
    /// key.
    pub fn duplicate(&self) -> (r: Release)
        ensures
            r.version.key() == self.version.key(),
    {
        Release { version: self.version.clone() }
    }
}

// --- pre-release precedence -------------------------------------------
//
// The pre-release text is the raw dot-separated identifier list, e.g.
// `beta.1`. Precedence follows the semantic-versioning rules: a version
// without pre-release identifiers is higher than one with them; identifier
// lists compare field by field, a purely numeric identifier below an
// alphanumeric one, numeric identifiers numerically, alphanumeric ones in
// ASCII order, and a list that is a strict prefix of another below it.
// Numeric identifiers carry no leading zeroes, so comparing their digit
// runs by length and then byte order is exactly numeric comparison.

/// The position of the first dot at or after `i`, or the end of the text.
pub open spec fn spec_dot_end(s: Seq<u8>, i: int) -> int
    decreases s.len() - i,
{
    if i < 0 || i >= s.len() || s[i] == 46 {
        i
    } else {
        spec_dot_end(s, i + 1)
    }
}

/// The dot search stays within the text and stops at a dot or at the end.
pub proof fn lemma_dot_end(s: Seq<u8>, i: int)
    requires
        0 <= i <= s.len(),
    ensures
        i <= spec_dot_end(s, i) <= s.len(),
        spec_dot_end(s, i) < s.len() ==> s[spec_dot_end(s, i)] == 46,
        forall|k: int| i <= k < spec_dot_end(s, i) ==> s[k] != 46,
    decreases s.len() - i,
{
    if i < s.len() && s[i] != 46 {
        lemma_dot_end(s, i + 1);
    }
}

/// Finds the first dot at or after `i`.
fn dot_end(s: &Vec<u8>, i: usize) -> (r: usize)
    requires
        i <= s@.len(),
    ensures
        r == spec_dot_end(s@, i as int),
        i <= r <= s@.len(),
    decreases s@.len() - i,
{
    proof {
        lemma_dot_end(s@, i as int);
    }
    if i < s.len() && s[i] != 46 {
        dot_end(s, i + 1)
    } else {
        i
    }
}

/// Whether an identifier consists of digits alone.
pub open spec fn spec_is_numeric(u: Seq<u8>) -> bool {
    forall|k: int| 0 <= k < u.len() ==> 48 <= #[trigger] u[k] <= 57
}

/// Decides whether an identifier consists of digits alone.
fn is_numeric(u: &Vec<u8>) -> (r: bool)
    ensures
        r == spec_is_numeric(u@),
{
    let mut i: usize = 0;
    while i < u.len()
        invariant
            i <= u@.len(),
            forall|k: int| 0 <= k < i ==> 48 <= #[trigger] u@[k] <= 57,
        decreases u@.len() - i,
    {
        if u[i] < 48 || u[i] > 57 {
            return false;
        }
        i += 1;
    }
    true
}

/// Byte-wise lexicographic three-way comparison of `x` and `y` from
/// position `i` on; a strict prefix precedes.
pub open spec fn spec_lex_cmp(x: Seq<u8>, y: Seq<u8>, i: int) -> int
    decreases x.len() - i,
{
    if i < 0 {
        0
    } else if i >= x.len() && i >= y.len() {
        0
    } else if i >= x.len() {
        -1
    } else if i >= y.len() {
        1
    } else if x[i] < y[i] {
        -1
    } else if x[i] > y[i] {
        1
    } else {
        spec_lex_cmp(x, y, i + 1)
    }
}

/// Lexicographic comparison is antisymmetric, and zero exactly on equal
/// suffixes.
pub proof fn lemma_lex_cmp(x: Seq<u8>, y: Seq<u8>, i: int)
    requires
        0 <= i <= x.len(),
        0 <= i <= y.len(),
    ensures
        spec_lex_cmp(x, y, i) == -spec_lex_cmp(y, x, i),
        spec_lex_cmp(x, y, i) == 0 ==> (x.len() == y.len() && (forall|k: int|
            i <= k < x.len() ==> x[k] == y[k])),
    decreases x.len() - i,
{
    if i < x.len() && i < y.len() && x[i] == y[i] {
        lemma_lex_cmp(x, y, i + 1);
    }
}

/// Compares `x` and `y` lexicographically from position `i` on.
fn lex_cmp(x: &Vec<u8>, y: &Vec<u8>, i: usize) -> (r: i32)
    requires
        i <= x@.len(),
        i <= y@.len(),
    ensures
        r == spec_lex_cmp(x@, y@, i as int),
    decreases x@.len() - i,
{
    if i >= x.len() && i >= y.len() {
        0
    } else if i >= x.len() {
        -1
    } else if i >= y.len() {
        1
    } else if x[i] < y[i] {
        -1
    } else if x[i] > y[i] {
        1
    } else {
        lex_cmp(x, y, i + 1)
    }
}

/// Three-way comparison of two single identifiers: numeric below
/// alphanumeric, numeric against numeric by digit-run length then bytes,
/// alphanumeric against alphanumeric in ASCII order.
pub open spec fn spec_id_cmp(u: Seq<u8>, v: Seq<u8>) -> int {
    if spec_is_numeric(u) && spec_is_numeric(v) {
        if u.len() < v.len() {
            -1
        } else if u.len() > v.len() {
            1
        } else {
            spec_lex_cmp(u, v, 0)
        }
    } else if spec_is_numeric(u) {
        -1
    } else if spec_is_numeric(v) {
        1
    } else {
        spec_lex_cmp(u, v, 0)
    }
}

/// Identifier comparison is antisymmetric, and zero exactly on equal
/// identifiers.
pub proof fn lemma_id_cmp(u: Seq<u8>, v: Seq<u8>)
    ensures
        spec_id_cmp(u, v) == -spec_id_cmp(v, u),
        spec_id_cmp(u, v) == 0 ==> u == v,
{
    lemma_lex_cmp(u, v, 0);
    if spec_id_cmp(u, v) == 0 {
        assert(u =~= v);
    }
}

/// Compares two single identifiers.
fn id_cmp(u: &Vec<u8>, v: &Vec<u8>) -> (r: i32)
    ensures
        r == spec_id_cmp(u@, v@),
{
    let un = is_numeric(u);
    let vn = is_numeric(v);
    if un && vn {
        if u.len() < v.len() {
            -1
        } else if u.len() > v.len() {
            1
        } else {
            lex_cmp(u, v, 0)
        }
    } else if un {
        -1
    } else if vn {
        1
    } else {
        lex_cmp(u, v, 0)
    }
}

/// Three-way comparison of two non-empty dot-separated identifier lists,
/// field by field; when one list is a strict prefix of the other, the
/// shorter is lower.
pub open spec fn spec_ids_cmp(x: Seq<u8>, y: Seq<u8>) -> int
    decreases x.len() + y.len() via spec_ids_cmp_decreases
{
    let xe = spec_dot_end(x, 0);
    let ye = spec_dot_end(y, 0);
    let c = spec_id_cmp(x.subrange(0, xe), y.subrange(0, ye));
    if c != 0 {
        c
    } else if xe >= x.len() && ye >= y.len() {
        0
    } else if xe >= x.len() {
        -1
    } else if ye >= y.len() {
        1
    } else {
        spec_ids_cmp(x.subrange(xe + 1, x.len() as int), y.subrange(ye + 1, y.len() as int))
    }
}

#[via_fn]
proof fn spec_ids_cmp_decreases(x: Seq<u8>, y: Seq<u8>) {
    lemma_dot_end(x, 0);
    lemma_dot_end(y, 0);
}

/// Identifier-list comparison is antisymmetric, and zero exactly on equal
/// lists.
pub proof fn lemma_ids_cmp(x: Seq<u8>, y: Seq<u8>)
    ensures
        spec_ids_cmp(x, y) == -spec_ids_cmp(y, x),
        spec_ids_cmp(x, y) == 0 ==> x == y,
    decreases x.len() + y.len(),
{
    lemma_dot_end(x, 0);
    lemma_dot_end(y, 0);
    let xe = spec_dot_end(x, 0);
    let ye = spec_dot_end(y, 0);
    let hx = x.subrange(0, xe);
    let hy = y.subrange(0, ye);
    lemma_id_cmp(hx, hy);
    if spec_id_cmp(hx, hy) == 0 {
        assert(hx == hy);
        assert(xe == ye);
        if xe < x.len() && ye < y.len() {
            lemma_ids_cmp(
                x.subrange(xe + 1, x.len() as int),
                y.subrange(ye + 1, y.len() as int),
            );
            if spec_ids_cmp(x, y) == 0 {
                assert(x.subrange(xe + 1, x.len() as int) == y.subrange(ye + 1, y.len() as int));
                assert(x.len() == y.len());
                assert forall|k: int| 0 <= k < x.len() implies x[k] == y[k] by {
                    if k < xe {
                        assert(x[k] == hx[k]);
                        assert(y[k] == hy[k]);
                    } else if k > xe {
                        assert(x[k] == x.subrange(xe + 1, x.len() as int)[k - xe - 1]);
                        assert(y[k] == y.subrange(ye + 1, y.len() as int)[k - ye - 1]);
                    }
                }
                assert(x =~= y);
            }
        } else if xe >= x.len() && ye >= y.len() {
            assert(x =~= hx);
            assert(y =~= hy);
        }
    }
}

/// Compares two non-empty identifier lists.
fn ids_cmp(x: &Vec<u8>, y: &Vec<u8>) -> (r: i32)
    ensures
        r == spec_ids_cmp(x@, y@),
    decreases x@.len() + y@.len(),
{
    let xe = dot_end(x, 0);
    let ye = dot_end(y, 0);
    let hx = crate::text::copy_range(x, 0, xe);
    let hy = crate::text::copy_range(y, 0, ye);
    let c = id_cmp(&hx, &hy);
    if c != 0 {
        c
    } else if xe >= x.len() && ye >= y.len() {
        0
    } else if xe >= x.len() {
        -1
    } else if ye >= y.len() {
        1
    } else {
        let xr = crate::text::copy_range(x, xe + 1, x.len());
        let yr = crate::text::copy_range(y, ye + 1, y.len());
        ids_cmp(&xr, &yr)
    }
}

/// Three-way pre-release precedence on the raw pre-release texts: a
/// version without pre-release identifiers (empty text) is higher than one
/// with them; otherwise the identifier lists decide.
pub open spec fn spec_pre_cmp(x: Seq<u8>, y: Seq<u8>) -> int {
    if x.len() == 0 && y.len() == 0 {
        0
    } else if x.len() == 0 {
        1
    } else if y.len() == 0 {
        -1
    } else {
        spec_ids_cmp(x, y)
    }
}

/// Pre-release precedence is antisymmetric, and zero exactly on equal
/// pre-release texts.
pub proof fn lemma_pre_cmp(x: Seq<u8>, y: Seq<u8>)
    ensures
        spec_pre_cmp(x, y) == -spec_pre_cmp(y, x),
        spec_pre_cmp(x, y) == 0 ==> x == y,
{
    if x.len() > 0 && y.len() > 0 {
        lemma_ids_cmp(x, y);
    } else if x.len() == 0 && y.len() == 0 {
        assert(x =~= y);
    }
}

/// Compares two raw pre-release texts by precedence.
fn pre_cmp(x: &Vec<u8>, y: &Vec<u8>) -> (r: i32)
    ensures
        r == spec_pre_cmp(x@, y@),
{
    if x.len() == 0 && y.len() == 0 {
        0
    } else if x.len() == 0 {
        1
    } else if y.len() == 0 {
        -1
    } else {
        ids_cmp(x, y)
    }
}

/// Lexicographic comparison is transitive.
proof fn lemma_lex_cmp_trans(x: Seq<u8>, y: Seq<u8>, z: Seq<u8>, i: int)
    requires
        0 <= i <= x.len(),
        0 <= i <= y.len(),
        0 <= i <= z.len(),
    ensures
        spec_lex_cmp(x, y, i) < 0 && spec_lex_cmp(y, z, i) < 0 ==> spec_lex_cmp(x, z, i) < 0,
    decreases x.len() - i,
{
    if i < x.len() && i < y.len() && i < z.len() && x[i] == y[i] && y[i] == z[i] {
        lemma_lex_cmp_trans(x, y, z, i + 1);
    }
}

/// Identifier comparison is transitive.
proof fn lemma_id_cmp_trans(u: Seq<u8>, v: Seq<u8>, w: Seq<u8>)
    ensures
        spec_id_cmp(u, v) < 0 && spec_id_cmp(v, w) < 0 ==> spec_id_cmp(u, w) < 0,
{
    lemma_lex_cmp_trans(u, v, w, 0);
}

/// Identifier-list comparison is transitive.
proof fn lemma_ids_cmp_trans(x: Seq<u8>, y: Seq<u8>, z: Seq<u8>)
    ensures
        spec_ids_cmp(x, y) < 0 && spec_ids_cmp(y, z) < 0 ==> spec_ids_cmp(x, z) < 0,
    decreases x.len() + y.len() + z.len(),
{
    lemma_dot_end(x, 0);
    lemma_dot_end(y, 0);
    lemma_dot_end(z, 0);
    let xe = spec_dot_end(x, 0);
    let ye = spec_dot_end(y, 0);
    let ze = spec_dot_end(z, 0);
    let hx = x.subrange(0, xe);
    let hy = y.subrange(0, ye);
    let hz = z.subrange(0, ze);
    lemma_id_cmp(hx, hy);
    lemma_id_cmp(hy, hz);
    lemma_id_cmp(hx, hz);
    lemma_id_cmp_trans(hx, hy, hz);
    if spec_ids_cmp(x, y) < 0 && spec_ids_cmp(y, z) < 0 {
        if spec_id_cmp(hx, hy) == 0 && spec_id_cmp(hy, hz) == 0 {
            // all three heads are the same identifier
            assert(hx == hy && hy == hz);
            assert(xe == ye && ye == ze);
            if xe >= x.len() {
                // x is exhausted; y continues (else ids_cmp(x, y) == 0),
                // and so does z (else ids_cmp(y, z) > 0 or == 0)
                assert(ye < y.len());
                assert(ze < z.len());
            } else {
                // x continues, hence so do y and z, and the rests decide
                assert(ye < y.len());
                assert(ze < z.len());
                lemma_ids_cmp_trans(
                    x.subrange(xe + 1, x.len() as int),
                    y.subrange(ye + 1, y.len() as int),
                    z.subrange(ze + 1, z.len() as int),
                );
            }
        } else if spec_id_cmp(hx, hy) == 0 {
            assert(hx == hy);
            assert(spec_id_cmp(hy, hz) < 0);
            assert(spec_id_cmp(hx, hz) < 0);
        } else if spec_id_cmp(hy, hz) == 0 {
            assert(hy == hz);
            assert(spec_id_cmp(hx, hy) < 0);
            assert(spec_id_cmp(hx, hz) < 0);
        } else {
            assert(spec_id_cmp(hx, hz) < 0);
        }
    }
}

/// Pre-release precedence is transitive.
proof fn lemma_pre_cmp_trans(x: Seq<u8>, y: Seq<u8>, z: Seq<u8>)
    ensures
        spec_pre_cmp(x, y) < 0 && spec_pre_cmp(y, z) < 0 ==> spec_pre_cmp(x, z) < 0,
{
    if x.len() > 0 && y.len() > 0 && z.len() > 0 {
        lemma_ids_cmp_trans(x, y, z);
    }
}

/// Semantic-version precedence is transitive.
pub proof fn lemma_version_lt_trans(a: Version, b: Version, c: Version)
    requires
        a.spec_lt(b),
        b.spec_lt(c),
    ensures
        a.spec_lt(c),
{
    lemma_pre_cmp_trans(a.pre@, b.pre@, c.pre@);
}

/// A version's key decides its place in the precedence order: two
/// versions with the same key stand in the same order relations.
pub proof fn lemma_key_determines_order(a: Version, b: Version, c: Version)
    requires
        a.key() == b.key(),
    ensures
        a.spec_lt(c) == b.spec_lt(c),
        c.spec_lt(a) == c.spec_lt(b),
{
}

/// Semantic-version precedence is a strict total order on version keys:
/// it is asymmetric, and two versions neither of which precedes the other
/// are the same version.
pub proof fn lemma_version_order(a: Version, b: Version)
    ensures
        a.spec_lt(b) ==> !b.spec_lt(a),
        !a.spec_lt(b) && !b.spec_lt(a) ==> a.key() == b.key(),
{
    lemma_pre_cmp(a.pre@, b.pre@);
}

// --- the trusted bridge to UTF-8 decoding and semver parsing -----------

/// What `std::str::from_utf8` decodes a byte sequence to, if anything: the
/// result depends on the bytes alone.
pub uninterp spec fn decoded_utf8(bytes: Seq<u8>) -> Option<Seq<char>>;

/// Relies on `std::str::from_utf8`: returns the text a byte buffer holds
/// when it is valid UTF-8, and nothing otherwise.
#[verifier::external_body]
pub(crate) fn utf8_to_str(bytes: &[u8]) -> (r: Option<&str>)
    ensures
        r matches Some(s) ==> decoded_utf8(bytes@) == Some(s@),
        r is Some <==> decoded_utf8(bytes@) is Some,
{
    std::str::from_utf8(bytes).ok()
}

/// What `semver::Version::parse` yields on a piece of text, reduced to the
/// parsed version's key: its numeric triple and the raw text of its
/// pre-release identifiers (empty when it has none). The result depends on
/// the text alone.
pub uninterp spec fn parsed_semver(text: Seq<char>) -> Option<(u64, u64, u64, Seq<u8>)>;

/// Relies on `semver::Version::parse`: parses a semantic version from
/// text. The numeric triple and the pre-release text are carried over
/// one-for-one; build metadata does not take part in precedence or
/// identity and is dropped.
#[verifier::external_body]
pub(crate) fn parse_semver(text: &str) -> (r: Option<Version>)
    ensures
        r matches Some(v) ==> parsed_semver(text@) == Some(v.key()),
        r is Some <==> parsed_semver(text@) is Some,
{
    match semver::Version::parse(text) {
        Ok(v) => Some(
            Version {
                major: v.major,
                minor: v.minor,
                patch: v.patch,
                pre: v.pre.as_str().as_bytes().to_vec(),
            },
        ),
        Err(_) => None,
    }
}

/// The key of the version that a byte buffer encodes: the bytes decoded as
/// UTF-8, then parsed as a semantic version.
pub open spec fn version_of_bytes(bytes: Seq<u8>) -> Option<(u64, u64, u64, Seq<u8>)> {
    match decoded_utf8(bytes) {
        Some(text) => parsed_semver(text),
        None => None,
    }
}

/// Parses a semantic version out of a raw byte buffer, or nothing when the
/// bytes are not UTF-8 or not a version.
pub fn parse_version_bytes(bytes: &[u8]) -> (r: Option<Version>)
    ensures
        r matches Some(v) ==> version_of_bytes(bytes@) == Some(v.key()),
        r is Some <==> version_of_bytes(bytes@) is Some,
{
    match utf8_to_str(bytes) {
        Some(text) => parse_semver(text),
        None => None,
    }
}

} // verus!
