//! The record kept for one declared test.

use vstd::prelude::*;
use crate::name::{
    is_disabled_name, resolve, resolve_spec, valid_pair, Disambiguator, NameModel, ResolvedName,
};

verus! {

/// One declared test: its identity and its body. Nothing of it changes after
/// it has been made.
pub struct TestDescriptor<B> {
    name: ResolvedName,
    body: B,
}

impl<B> View for TestDescriptor<B> {
    type V = NameModel;

    closed spec fn view(&self) -> NameModel {
        self.name@
    }
}

impl<B> TestDescriptor<B> {
    #[verifier::type_invariant]
    spec fn well_formed(self) -> bool {
        &&& valid_pair(self.name@.suite, self.name@.test)
        &&& self.name@.disabled == is_disabled_name(self.name@.test)
    }

    /// The body that running the test calls.
    pub closed spec fn callable(&self) -> B {
        self.body
    }

    /// Makes the descriptor of a test declared as `suite_name`.`test_name`
    /// inside the scopes of `qualified_path`, at `line` of `file`.
    pub fn declare(
        suite_name: &str,
        test_name: &str,
        qualified_path: &Vec<String>,
        file: &str,
        line: u32,
        body: B,
    ) -> (d: Self)
        requires
            valid_pair(suite_name@, test_name@),
        ensures
            d@ == resolve_spec(suite_name@, test_name@, qualified_path.deep_view(), file@, line),
            d.callable() == body,
    {
        TestDescriptor { name: resolve(suite_name, test_name, qualified_path, file, line), body }
    }

    /// The suite name, as declared.
    pub fn suite_name(&self) -> (r: &str)
        ensures
            r@ == self@.suite,
            r@.len() > 0,
            !is_disabled_name(r@),
    {
        proof {
            use_type_invariant(self);
        }
        self.name.suite.as_str()
    }

    /// The test name, as declared: a reserved prefix stays in it.
    pub fn test_name(&self) -> (r: &str)
        ensures
            r@ == self@.test,
            r@.len() > 0,
    {
        proof {
            use_type_invariant(self);
        }
        self.name.test.as_str()
    }

    /// Whether the test is disabled, which its name alone decides.
    pub fn is_disabled(&self) -> (r: bool)
        ensures
            r == self@.disabled,
            r == is_disabled_name(self@.test),
    {
        proof {
            use_type_invariant(self);
        }
        self.name.disabled
    }

    /// The key that tells this declaration apart from every other.
    pub fn disambiguator(&self) -> (r: &Disambiguator)
        ensures
            r@ == self@.site,
    {
        &self.name.disambiguator
    }

    /// The enclosing scopes of the declaration, outermost first.
    pub fn qualified_path(&self) -> (r: &Vec<String>)
        ensures
            r.deep_view() == self@.site.scopes,
    {
        &self.name.disambiguator.scopes
    }

    /// The source file of the declaration.
    pub fn file(&self) -> (r: &str)
        ensures
            r@ == self@.site.file,
    {
        self.name.disambiguator.file.as_str()
    }

    /// The source line of the declaration.
    pub fn line(&self) -> (r: u32)
        ensures
            r == self@.site.line,
    {
        self.name.disambiguator.line
    }

    /// The body of the test.
    pub fn body(&self) -> (r: &B)
        ensures
            *r == self.callable(),
    {
        &self.body
    }
}

} // verus!
