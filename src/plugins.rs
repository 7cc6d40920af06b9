use crate::paths::{join, join_path, parent_dir, parent_of};
use vstd::prelude::*;
use vstd::string::*;

verus! {

/// A plugin's display name.
pub trait Transformer {
    fn get_name(&self) -> String;
}

/// Finds the `src` of every `<script>` element and registers the file it names.
#[derive(Clone, Copy, Debug, PartialEq, Eq, Structural)]
pub struct DefaultHTMLTransformer {}

/// The plugin for script modules, JSX and TypeScript. It resolves each
/// imported specifier through its fallback forms.
#[derive(Clone, Copy, Debug, PartialEq, Eq, Structural)]
pub struct DefaultJSTransformer {
    pub is_jsx: bool,
    pub is_type_script: bool,
}

/// Leaves the asset as it is.
#[derive(Clone, Copy, Debug, PartialEq, Eq, Structural)]
pub struct DefaultNoopTransformer {}

/// The closed set of plugins that a registry can hold.
#[derive(Clone, Copy, Debug, PartialEq, Eq, Structural)]
pub enum Plugin {
    Html(DefaultHTMLTransformer),
    Js(DefaultJSTransformer),
    Noop(DefaultNoopTransformer),
}

/// The suffixes tried, in order, on a specifier that does not resolve as written.
pub open spec fn fallback_suffixes() -> Seq<Seq<char>> {
    seq![
        ".js"@, ".jsx"@, ".ts"@, ".tsx"@,
        "/index.js"@, "/index.jsx"@, "/index.ts"@, "/index.tsx"@,
        "/src/index.js"@, "/src/index.jsx"@, "/src/index.ts"@, "/src/index.tsx"@,
    ]
}

/// Every form of `specifier` that is tried, in order: itself, then itself
/// with each fallback suffix.
pub open spec fn candidates_spec(specifier: Seq<char>) -> Seq<Seq<char>> {
    seq![specifier] + fallback_suffixes().map_values(|x: Seq<char>| specifier + x)
}

/// Index of the first resolved candidate, or -1 when none resolved.
pub open spec fn first_resolved(results: Seq<Option<String>>) -> int
    decreases results.len(),
{
    if results.len() == 0 {
        -1
    } else if results[0] is Some {
        0
    } else if first_resolved(results.drop_first()) < 0 {
        -1
    } else {
        first_resolved(results.drop_first()) + 1
    }
}

proof fn lemma_first_resolved(s: Seq<Option<String>>)
    ensures
        -1 <= first_resolved(s) < s.len(),
        first_resolved(s) == -1 ==> forall|i: int| 0 <= i < s.len() ==> (#[trigger] s[i]) is None,
        first_resolved(s) >= 0 ==> s[first_resolved(s)] is Some,
        forall|i: int| 0 <= i < first_resolved(s) ==> (#[trigger] s[i]) is None,
    decreases s.len(),
{
    if s.len() > 0 {
        let t = s.drop_first();
        lemma_first_resolved(t);
        assert forall|i: int| 1 <= i < s.len() implies s[i] == t[i - 1] by {}
    }
}

/// `specifier` followed by `suffix`.
fn with_suffix(specifier: &str, suffix: &str) -> (r: String)
    ensures
        r@ == specifier@ + suffix@,
{
    let mut r = specifier.to_owned();
    r.append(suffix);
    r
}

impl DefaultHTMLTransformer {
    pub fn new() -> (r: Self)
        ensures
            r == (DefaultHTMLTransformer {}),
    {
        DefaultHTMLTransformer {}
    }

    /// The files named by the `src` attributes `srcs` of an HTML file at
    /// `file_path`, each taken relative to that file's directory, in order.
    pub fn dependencies(&self, file_path: &str, srcs: &Vec<String>) -> (r: Vec<String>)
        ensures
            r@.len() == srcs@.len(),
            forall|i: int| 0 <= i < srcs@.len() ==> (#[trigger] r@[i])@ == join_path(
                parent_dir(file_path@),
                srcs@[i]@,
            ),
    {
        let dir = parent_of(file_path);
        let mut r: Vec<String> = Vec::new();
        let mut k: usize = 0;
        while k < srcs.len()
            invariant
                k <= srcs@.len(),
                dir@ == parent_dir(file_path@),
                r@.len() == k,
                forall|i: int| 0 <= i < k ==> (#[trigger] r@[i])@ == join_path(
                    parent_dir(file_path@),
                    srcs@[i]@,
                ),
            decreases srcs@.len() - k,
        {
            r.push(join(dir.as_str(), srcs[k].as_str()));
            k = k + 1;
        }
        r
    }
}

impl Transformer for DefaultHTMLTransformer {
    fn get_name(&self) -> (r: String)
        ensures
            r@ == "DefaultHTMLTransformer"@,
    {
        String::from_str("DefaultHTMLTransformer")
    }
}

impl DefaultJSTransformer {
    pub fn new(is_jsx: bool, is_type_script: bool) -> (r: Self)
        ensures
            r.is_jsx == is_jsx,
            r.is_type_script == is_type_script,
    {
        DefaultJSTransformer { is_jsx, is_type_script }
    }

    /// Every form of `specifier` to hand to the resolver, in the order they
    /// are tried.
    pub fn candidates(specifier: &str) -> (r: Vec<String>)
        ensures
            r@.len() == candidates_spec(specifier@).len(),
            forall|i: int| 0 <= i < r@.len() ==> (#[trigger] r@[i])@ == candidates_spec(specifier@)[i],
    {
        let mut r: Vec<String> = Vec::new();
        r.push(specifier.to_owned());
        r.push(with_suffix(specifier, ".js"));
        r.push(with_suffix(specifier, ".jsx"));
        r.push(with_suffix(specifier, ".ts"));
        r.push(with_suffix(specifier, ".tsx"));
        r.push(with_suffix(specifier, "/index.js"));
        r.push(with_suffix(specifier, "/index.jsx"));
        r.push(with_suffix(specifier, "/index.ts"));
        r.push(with_suffix(specifier, "/index.tsx"));
        r.push(with_suffix(specifier, "/src/index.js"));
        r.push(with_suffix(specifier, "/src/index.jsx"));
        r.push(with_suffix(specifier, "/src/index.ts"));
        r.push(with_suffix(specifier, "/src/index.tsx"));
        assert(r@.len() == candidates_spec(specifier@).len());
        r
    }

    /// The resolved path of a dependency, given what the resolver returned
    /// for each candidate in order: the first one that resolved, if any.
    pub fn pick_resolved(results: &Vec<Option<String>>) -> (r: Option<String>)
        ensures
            first_resolved(results@) < 0 ==> r is None,
            first_resolved(results@) >= 0 ==> r is Some && r->Some_0@
                == results@[first_resolved(results@)]->Some_0@,
    {
        proof {
            lemma_first_resolved(results@);
        }
        let mut k: usize = 0;
        while k < results.len()
            invariant
                k <= results@.len(),
                forall|i: int| 0 <= i < k ==> (#[trigger] results@[i]) is None,
            decreases results@.len() - k,
        {
            if let Some(p) = &results[k] {
                proof {
                    lemma_first_resolved(results@);
                }
                return Some(p.clone());
            }
            k = k + 1;
        }
        proof {
            lemma_first_resolved(results@);
        }
        None
    }
    /// The dependencies of a module, given, for each of its imported
    /// specifiers in order, what the resolver returned for each candidate
    /// form. `Err(j)`: specifier `j` is the first whose candidates all
    /// failed, which is fatal for the module's transformation.
    pub fn resolve_dependencies(results: &Vec<Vec<Option<String>>>) -> (r: Result<Vec<String>, usize>)
        ensures
            r is Err ==> {
                &&& r->Err_0 < results@.len()
                &&& first_resolved(results@[r->Err_0 as int]@) < 0
                &&& forall|i: int| 0 <= i < r->Err_0 ==> first_resolved(#[trigger] results@[i]@) >= 0
            },
            r is Ok ==> {
                &&& r->Ok_0@.len() == results@.len()
                &&& forall|i: int| 0 <= i < results@.len() ==> first_resolved(#[trigger] results@[i]@) >= 0
                &&& forall|i: int| 0 <= i < results@.len() ==> (#[trigger] r->Ok_0@[i])@
                    == results@[i]@[first_resolved(results@[i]@)]->Some_0@
            },
    {
        let mut deps: Vec<String> = Vec::new();
        let mut k: usize = 0;
        while k < results.len()
            invariant
                k <= results@.len(),
                deps@.len() == k,
                forall|i: int| 0 <= i < k ==> first_resolved(#[trigger] results@[i]@) >= 0,
                forall|i: int| 0 <= i < k ==> (#[trigger] deps@[i])@
                    == results@[i]@[first_resolved(results@[i]@)]->Some_0@,
            decreases results@.len() - k,
        {
            match Self::pick_resolved(&results[k]) {
                None => {
                    return Err(k);
                },
                Some(path) => {
                    deps.push(path);
                },
            }
            k = k + 1;
        }
        Ok(deps)
    }
}

impl Transformer for DefaultJSTransformer {
    fn get_name(&self) -> (r: String)
        ensures
            self.is_type_script ==> r@ == "DefaultJSTransformer typescript"@,
            !self.is_type_script ==> r@ == "DefaultJSTransformer javascript"@,
    {
        let mut name = String::from_str("DefaultJSTransformer");
        proof {
            reveal_strlit("DefaultJSTransformer");
            reveal_strlit(" typescript");
            reveal_strlit(" javascript");
            reveal_strlit("DefaultJSTransformer typescript");
            reveal_strlit("DefaultJSTransformer javascript");
        }
        if self.is_type_script {
            name.append(" typescript");
            assert(name@ =~= "DefaultJSTransformer typescript"@);
        } else {
            name.append(" javascript");
            assert(name@ =~= "DefaultJSTransformer javascript"@);
        }
        name
    }
}

impl DefaultNoopTransformer {
    pub fn new() -> (r: Self)
        ensures
            r == (DefaultNoopTransformer {}),
    {
        DefaultNoopTransformer {}
    }
}

impl Transformer for DefaultNoopTransformer {
    fn get_name(&self) -> (r: String)
        ensures
            r@ == "DefaultNoopTransformer"@,
    {
        String::from_str("DefaultNoopTransformer")
    }
}

} // verus!
