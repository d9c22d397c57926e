//! Qualified-name resolution: the name a declared test is shown under, whether
//! it is disabled, and the key that tells apart declarations sharing a name.

use vstd::prelude::*;
use vstd::string::*;

verus! {

/// The reserved prefix of a test name that marks the test as disabled.
pub open spec fn disabled_marker() -> Seq<char> {
    seq!['D', 'I', 'S', 'A', 'B', 'L', 'E', 'D', '_']
}

/// A test name marks its test as disabled exactly when it begins with the
/// reserved prefix.
pub open spec fn is_disabled_name(name: Seq<char>) -> bool {
    disabled_marker().is_prefix_of(name)
}

/// A declared pair is valid when neither name is empty and the suite name does
/// not begin with the reserved prefix.
pub open spec fn valid_pair(suite: Seq<char>, test: Seq<char>) -> bool {
    &&& suite.len() > 0
    &&& test.len() > 0
    &&& !is_disabled_name(suite)
}

/// The place of a declaration: its enclosing named scopes from the outermost
/// to the innermost, and where in the source it stands.
pub struct SiteKey {
    pub scopes: Seq<Seq<char>>,
    pub file: Seq<char>,
    pub line: u32,
}

/// What resolution yields for one declaration.
pub struct NameModel {
    pub suite: Seq<char>,
    pub test: Seq<char>,
    pub disabled: bool,
    pub site: SiteKey,
}

/// The resolution of a declared pair at a declaration site. The displayed pair
/// is the declared pair, verbatim; the scopes and the location only go into
/// the site key.
pub open spec fn resolve_spec(
    suite: Seq<char>,
    test: Seq<char>,
    scopes: Seq<Seq<char>>,
    file: Seq<char>,
    line: u32,
) -> NameModel {
    NameModel {
        suite,
        test,
        disabled: is_disabled_name(test),
        site: SiteKey { scopes, file, line },
    }
}

/// The internal key of a declaration. It is never part of the displayed name.
#[derive(Debug, PartialEq, Eq)]
pub struct Disambiguator {
    pub scopes: Vec<String>,
    pub file: String,
    pub line: u32,
}

impl View for Disambiguator {
    type V = SiteKey;

    open spec fn view(&self) -> SiteKey {
        SiteKey { scopes: self.scopes.deep_view(), file: self.file@, line: self.line }
    }
}

impl Disambiguator {
    /// Whether two keys name the same declaration site: the same scopes in
    /// the same order, the same file and the same line.
    pub fn same_as(&self, other: &Disambiguator) -> (r: bool)
        ensures
            r == (self@ == other@),
    {
        if self.line != other.line || self.file != other.file || self.scopes.len()
            != other.scopes.len() {
            assert(self.scopes.deep_view().len() == self.scopes.len());
            assert(other.scopes.deep_view().len() == other.scopes.len());
            return false;
        }
        let mut i: usize = 0;
        while i < self.scopes.len()
            invariant
                i <= self.scopes.len(),
                self.scopes.len() == other.scopes.len(),
                forall|j: int| 0 <= j < i ==> self.scopes[j]@ == other.scopes[j]@,
            decreases self.scopes.len() - i,
        {
            if self.scopes[i] != other.scopes[i] {
                assert(self.scopes.deep_view()[i as int] != other.scopes.deep_view()[i as int]);
                return false;
            }
            i += 1;
        }
        assert(self.scopes.deep_view() =~= other.scopes.deep_view());
        true
    }
}

/// The identity of a declared test.
#[derive(Debug, PartialEq, Eq)]
pub struct ResolvedName {
    pub suite: String,
    pub test: String,
    pub disabled: bool,
    pub disambiguator: Disambiguator,
}

impl View for ResolvedName {
    type V = NameModel;

    open spec fn view(&self) -> NameModel {
        NameModel {
            suite: self.suite@,
            test: self.test@,
            disabled: self.disabled,
            site: self.disambiguator@,
        }
    }
}

/// Whether `name` begins with the reserved prefix.
pub fn has_disabled_marker(name: &str) -> (r: bool)
    ensures
        r == is_disabled_name(name@),
{
    let marker = "DISABLED_";
    proof {
        reveal_strlit("DISABLED_");
    }
    assert(marker@ =~= disabled_marker());
    let n: usize = name.unicode_len();
    if n < 9 {
        return false;
    }
    let mut i: usize = 0;
    while i < 9
        invariant
            i <= 9,
            9 <= name@.len(),
            marker@ == disabled_marker(),
            forall|j: int| 0 <= j < i ==> name@[j] == disabled_marker()[j],
        decreases 9 - i,
    {
        if name.get_char(i) != marker.get_char(i) {
            assert(name@.subrange(0, 9)[i as int] != disabled_marker()[i as int]);
            return false;
        }
        i += 1;
    }
    assert(disabled_marker() =~= name@.subrange(0, 9));
    true
}

/// Whether a declared pair may be registered.
pub fn is_valid_pair(suite: &str, test: &str) -> (r: bool)
    ensures
        r == valid_pair(suite@, test@),
{
    suite.unicode_len() > 0 && test.unicode_len() > 0 && !has_disabled_marker(suite)
}

/// A copy of a scope chain, segment by segment.
pub fn copy_scopes(scopes: &Vec<String>) -> (r: Vec<String>)
    ensures
        r.deep_view() == scopes.deep_view(),
{
    let mut out: Vec<String> = Vec::new();
    let mut i: usize = 0;
    while i < scopes.len()
        invariant
            i <= scopes.len(),
            out.len() == i,
            forall|j: int| 0 <= j < i ==> out[j]@ == scopes[j]@,
        decreases scopes.len() - i,
    {
        out.push(scopes[i].clone());
        i += 1;
    }
    assert(out.deep_view() =~= scopes.deep_view());
    out
}

/// Resolves a declared pair at a declaration site. The displayed suite and
/// test are the declared ones whatever the scope chain holds; the test is
/// disabled exactly when its name begins with the reserved prefix, which is
/// kept in the name; the scope chain and the location make up the key.
pub fn resolve(
    explicit_suite: &str,
    explicit_test: &str,
    lexical_scope_chain: &Vec<String>,
    file: &str,
    line: u32,
) -> (r: ResolvedName)
    requires
        valid_pair(explicit_suite@, explicit_test@),
    ensures
        r@ == resolve_spec(
            explicit_suite@,
            explicit_test@,
            lexical_scope_chain.deep_view(),
            file@,
            line,
        ),
{
    ResolvedName {
        suite: String::from_str(explicit_suite),
        test: String::from_str(explicit_test),
        disabled: has_disabled_marker(explicit_test),
        disambiguator: Disambiguator {
            scopes: copy_scopes(lexical_scope_chain),
            file: String::from_str(file),
            line,
        },
    }
}

/// Scope depth never changes the displayed name: the same declared pair
/// resolves to the same suite, test and disabled flag at any two sites.
pub proof fn lemma_display_ignores_site(
    suite: Seq<char>,
    test: Seq<char>,
    scopes_a: Seq<Seq<char>>,
    file_a: Seq<char>,
    line_a: u32,
    scopes_b: Seq<Seq<char>>,
    file_b: Seq<char>,
    line_b: u32,
)
    ensures
        resolve_spec(suite, test, scopes_a, file_a, line_a).suite == suite,
        resolve_spec(suite, test, scopes_a, file_a, line_a).test == test,
        resolve_spec(suite, test, scopes_a, file_a, line_a).suite == resolve_spec(
            suite,
            test,
            scopes_b,
            file_b,
            line_b,
        ).suite,
        resolve_spec(suite, test, scopes_a, file_a, line_a).test == resolve_spec(
            suite,
            test,
            scopes_b,
            file_b,
            line_b,
        ).test,
        resolve_spec(suite, test, scopes_a, file_a, line_a).disabled == resolve_spec(
            suite,
            test,
            scopes_b,
            file_b,
            line_b,
        ).disabled,
{
}

/// Declarations at different sites never share a key, whatever pairs they
/// declare: two resolutions have the same key only if scope chain, file and
/// line all agree.
pub proof fn lemma_distinct_sites_distinct_keys(
    suite_a: Seq<char>,
    test_a: Seq<char>,
    scopes_a: Seq<Seq<char>>,
    file_a: Seq<char>,
    line_a: u32,
    suite_b: Seq<char>,
    test_b: Seq<char>,
    scopes_b: Seq<Seq<char>>,
    file_b: Seq<char>,
    line_b: u32,
)
    ensures
        resolve_spec(suite_a, test_a, scopes_a, file_a, line_a).site == resolve_spec(
            suite_b,
            test_b,
            scopes_b,
            file_b,
            line_b,
        ).site <==> (scopes_a == scopes_b && file_a == file_b && line_a == line_b),
{
}

} // verus!
