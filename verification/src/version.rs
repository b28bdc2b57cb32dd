//! Semantic versions, as release tags carry them.

use vstd::prelude::*;

use crate::decimal;

verus! {

/// What a version says.
#[verifier::ext_equal]
pub struct VersionParts {
    pub major: u64,
    pub minor: u64,
    pub patch: u64,
    pub pre: Seq<char>,
    pub build: Seq<char>,
}

/// What `semver::Version::parse` makes of a text: a version, or the message of
/// its error.
pub uninterp spec fn version_of(text: Seq<char>) -> Result<VersionParts, Seq<char>>;

/// Whether `a <= b` in the order of `semver::Version`.
pub uninterp spec fn version_at_most(a: VersionParts, b: VersionParts) -> bool;

/// Whether some text parses to `p`.
pub open spec fn is_version(p: VersionParts) -> bool {
    exists|t: Seq<char>| #[trigger] version_of(t) == Ok::<VersionParts, Seq<char>>(p)
}

/// Three numerals with dots between them.
pub open spec fn dotted(major: u64, minor: u64, patch: u64) -> Seq<char> {
    decimal::numeral(major as nat) + "."@ + decimal::numeral(minor as nat) + "."@
        + decimal::numeral(patch as nat)
}

/// A release version: no pre-release part, no build metadata.
pub open spec fn release(major: u64, minor: u64, patch: u64) -> VersionParts {
    VersionParts { major, minor, patch, pre: Seq::empty(), build: Seq::empty() }
}

/// A marked part of a version's text: `mark` and `part`, or nothing where
/// `part` is empty.
pub open spec fn marked(mark: Seq<char>, part: Seq<char>) -> Seq<char> {
    if part.len() == 0 {
        Seq::empty()
    } else {
        mark + part
    }
}

/// How a version is written.
pub open spec fn rendered(p: VersionParts) -> Seq<char> {
    dotted(p.major, p.minor, p.patch) + marked("-"@, p.pre) + marked("+"@, p.build)
}

/// Whether the numbers of `a` come before those of `b`.
pub open spec fn triple_before(a: VersionParts, b: VersionParts) -> bool {
    ||| a.major < b.major
    ||| a.major == b.major && a.minor < b.minor
    ||| a.major == b.major && a.minor == b.minor && a.patch < b.patch
}

/// A semantic version. Values come from [`Version::parse`] alone, so each one
/// is the reading of some text.
#[derive(Debug, PartialEq, Eq)]
pub struct Version {
    major: u64,
    minor: u64,
    patch: u64,
    pre: String,
    build: String,
}

impl View for Version {
    type V = VersionParts;

    closed spec fn view(&self) -> VersionParts {
        VersionParts {
            major: self.major,
            minor: self.minor,
            patch: self.patch,
            pre: self.pre@,
            build: self.build@,
        }
    }
}

/// A parse result by its views.
pub open spec fn outcome(r: Result<Version, String>) -> Result<VersionParts, Seq<char>> {
    match r {
        Ok(v) => Ok(v@),
        Err(e) => Err(e@),
    }
}

/// Three dotted numerals are read as the release with those numbers.
pub open spec fn release_is_read(
    text: Seq<char>,
    got: Result<VersionParts, Seq<char>>,
) -> bool {
    forall|major: u64, minor: u64, patch: u64|
        text == #[trigger] dotted(major, minor, patch) ==> got == Ok::<VersionParts, Seq<char>>(
            release(major, minor, patch),
        )
}

/// `semver::Version::parse`, its result taken apart into plain values. The
/// contract names the outcome and adds two facts: what was parsed is written
/// as the text that was read, and three dotted numerals are a release.
#[verifier::external_body]
fn parse_parts(text: &str) -> (r: Result<Version, String>)
    ensures
        outcome(r) == version_of(text@),
        r matches Ok(v) ==> rendered(v@) == text@,
        release_is_read(text@, outcome(r)),
{
    match semver::Version::parse(text) {
        Ok(v) => Ok(Version {
            major: v.major,
            minor: v.minor,
            patch: v.patch,
            pre: v.pre.as_str().to_owned(),
            build: v.build.as_str().to_owned(),
        }),
        Err(e) => Err(e.to_string()),
    }
}

/// `<=` of `semver::Version`. The contract names the answer and states what
/// the order says of the numbers, of equal versions, and of a pre-release
/// beside its release; between two pre-releases, or two builds, of one
/// release the order is only named.
#[verifier::external_body]
fn parts_at_most(a: &Version, b: &Version) -> (r: bool)
    requires
        is_version(a@),
        is_version(b@),
    ensures
        r == version_at_most(a@, b@),
        triple_before(a@, b@) ==> r,
        triple_before(b@, a@) ==> !r,
        a@ == b@ ==> r,
        !triple_before(a@, b@) && !triple_before(b@, a@) && a@.pre.len() > 0 && b@.pre.len() == 0
            ==> r,
        !triple_before(a@, b@) && !triple_before(b@, a@) && a@.pre.len() == 0 && b@.pre.len() > 0
            ==> !r,
{
    let build = |v: &Version| semver::Version {
        major: v.major,
        minor: v.minor,
        patch: v.patch,
        pre: semver::Prerelease::new(&v.pre).unwrap(),
        build: semver::BuildMetadata::new(&v.build).unwrap(),
    };
    build(a) <= build(b)
}

impl Version {
    /// Every version is the reading of some text.
    #[verifier::type_invariant]
    spec fn read_from_text(self) -> bool {
        is_version(self@)
    }

    /// Read `text` as a version; the error says what is wrong with it.
    pub fn parse(text: &str) -> (r: Result<Version, String>)
        ensures
            outcome(r) == version_of(text@),
            r matches Ok(v) ==> rendered(v@) == text@,
            release_is_read(text@, outcome(r)),
    {
        parse_parts(text)
    }

    /// Whether this version comes before `other` or is equal to it.
    pub fn at_most(&self, other: &Version) -> (r: bool)
        ensures
            r == version_at_most(self@, other@),
            triple_before(self@, other@) ==> r,
            triple_before(other@, self@) ==> !r,
            self@ == other@ ==> r,
            !triple_before(self@, other@) && !triple_before(other@, self@) && self@.pre.len() > 0
                && other@.pre.len() == 0 ==> r,
            !triple_before(self@, other@) && !triple_before(other@, self@) && self@.pre.len() == 0
                && other@.pre.len() > 0 ==> !r,
    {
        proof {
            use_type_invariant(self);
            use_type_invariant(other);
        }
        parts_at_most(self, other)
    }

    /// The version written out.
    pub fn to_text(&self) -> (r: String)
        ensures
            r@ == rendered(self@),
    {
        let mut out: String = decimal::numeral_text(self.major);
        out.append(".");
        decimal::push_numeral(&mut out, self.minor);
        out.append(".");
        decimal::push_numeral(&mut out, self.patch);
        if !self.pre.as_str().is_empty() {
            out.append("-");
            out.append(self.pre.as_str());
        }
        if !self.build.as_str().is_empty() {
            out.append("+");
            out.append(self.build.as_str());
        }
        assert(out@ == rendered(self@));
        out
    }
}

impl Clone for Version {
    fn clone(&self) -> (r: Self)
        ensures
            r@ == self@,
    {
        proof {
            use_type_invariant(self);
        }
        Version {
            major: self.major,
            minor: self.minor,
            patch: self.patch,
            pre: self.pre.clone(),
            build: self.build.clone(),
        }
    }
}

// ---------------------------------------------------------------------------
// Laws
// ---------------------------------------------------------------------------

/// The numbers of versions are ordered one after the other, the first that differs
/// deciding: of two versions with different numbers one comes before the other and
/// not the other way round, and the order carries over.
pub proof fn numbers_are_ordered(a: VersionParts, b: VersionParts, c: VersionParts)
    ensures
        triple_before(a, b) || triple_before(b, a) <==> (a.major, a.minor, a.patch) != (
            b.major,
            b.minor,
            b.patch,
        ),
        !(triple_before(a, b) && triple_before(b, a)),
        triple_before(a, b) && triple_before(b, c) ==> triple_before(a, c),
        a.major < b.major ==> triple_before(a, b),
        a.major == b.major && a.minor < b.minor ==> triple_before(a, b),
        a.major == b.major && a.minor == b.minor ==> (triple_before(a, b) <==> a.patch < b.patch),
{
}

/// A version is written as its three numbers with dots between them; behind them the
/// pre-release part after a hyphen, and the build after a plus sign, where there is
/// one.
pub proof fn versions_are_written_out(p: VersionParts)
    ensures
        ({
            let numbers = crate::text::glued(
                seq![
                    decimal::numeral(p.major as nat),
                    decimal::numeral(p.minor as nat),
                    decimal::numeral(p.patch as nat),
                ],
                '.',
            );
            &&& p.pre.len() == 0 && p.build.len() == 0 ==> rendered(p) == numbers
            &&& p.pre.len() > 0 && p.build.len() == 0 ==> rendered(p) == numbers.push('-') + p.pre
            &&& p.pre.len() == 0 && p.build.len() > 0 ==> rendered(p) == numbers.push('+')
                + p.build
            &&& p.pre.len() > 0 && p.build.len() > 0 ==> rendered(p) == (numbers.push('-')
                + p.pre).push('+') + p.build
        }),
{
    reveal_strlit(".");
    reveal_strlit("-");
    reveal_strlit("+");
    let pieces = seq![
        decimal::numeral(p.major as nat),
        decimal::numeral(p.minor as nat),
        decimal::numeral(p.patch as nat),
    ];
    reveal_with_fuel(crate::text::glued, 3);
    assert(pieces.drop_last() =~= seq![
        decimal::numeral(p.major as nat),
        decimal::numeral(p.minor as nat),
    ]);
    assert(pieces.drop_last().drop_last() =~= seq![decimal::numeral(p.major as nat)]);
    let numbers = crate::text::glued(pieces, '.');
    assert(dotted(p.major, p.minor, p.patch) =~= numbers);
    assert(rendered(p) =~= numbers + marked("-"@, p.pre) + marked("+"@, p.build));
}

/// What was read is written as it was.
pub proof fn reading_and_writing(text: &str, r: Result<Version, String>, written: String)
    requires
        call_ensures(Version::parse, (text,), r),
        r matches Ok(v) && call_ensures(Version::to_text, (&v,), written),
    ensures
        written@ == text@,
{
}

/// The order of versions is that of their numbers, a version is at most itself, and a
/// pre-release comes before its release.
pub proof fn versions_are_ordered(a: Version, b: Version, r: bool)
    requires
        call_ensures(Version::at_most, (&a, &b), r),
    ensures
        a@.major < b@.major ==> r,
        a@.major > b@.major ==> !r,
        a@.major == b@.major && a@.minor < b@.minor ==> r,
        a@.major == b@.major && a@.minor > b@.minor ==> !r,
        a@.major == b@.major && a@.minor == b@.minor && a@.patch < b@.patch ==> r,
        a@.major == b@.major && a@.minor == b@.minor && a@.patch > b@.patch ==> !r,
        a@ == b@ ==> r,
        a@.major == b@.major && a@.minor == b@.minor && a@.patch == b@.patch && a@.pre.len() > 0
            && b@.pre.len() == 0 ==> r,
        a@.major == b@.major && a@.minor == b@.minor && a@.patch == b@.patch && a@.pre.len() == 0
            && b@.pre.len() > 0 ==> !r,
{
}

} // verus!
