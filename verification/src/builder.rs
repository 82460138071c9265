use vstd::prelude::*;

use crate::config::KConfig;
use crate::errors::NixModuleError;

verus! {

/// Number of occurrences of `c` in `s`.
pub open spec fn count_char(s: Seq<char>, c: char) -> nat
    decreases s.len(),
{
    if s.len() == 0 {
        0
    } else {
        count_char(s.drop_last(), c) + if s.last() == c {
            1nat
        } else {
            0nat
        }
    }
}

/// If `s[f] == c` is the only occurrence of `c`, the halves around it are free
/// of `c` and `count_char(s, c) == 1`.
proof fn lemma_single_sep(s: Seq<char>, c: char, f: int)
    requires
        0 <= f < s.len(),
        s[f] == c,
        forall|j: int| 0 <= j < s.len() && j != f ==> s[j] != c,
    ensures
        count_char(s, c) == 1,
    decreases s.len(),
{
    if f == s.len() - 1 {
        lemma_count_no_sep(s.drop_last(), c);
    } else {
        assert(s.last() != c);
        lemma_single_sep(s.drop_last(), c, f);
    }
}

proof fn lemma_count_no_sep(s: Seq<char>, c: char)
    requires
        forall|j: int| 0 <= j < s.len() ==> s[j] != c,
    ensures
        count_char(s, c) == 0,
    decreases s.len(),
{
    if s.len() > 0 {
        lemma_count_no_sep(s.drop_last(), c);
    }
}

/// With two occurrences in sight, the count is at least two.
proof fn lemma_two_seps(s: Seq<char>, c: char, f: int, g: int)
    requires
        0 <= f < g < s.len(),
        s[f] == c,
        s[g] == c,
    ensures
        count_char(s, c) >= 2,
    decreases s.len(),
{
    if g == s.len() - 1 {
        let p = s.drop_last();
        assert(count_char(p, c) >= 1) by {
            lemma_count_pos(p, c, f);
        }
    } else {
        lemma_two_seps(s.drop_last(), c, f, g);
    }
}

proof fn lemma_count_pos(s: Seq<char>, c: char, f: int)
    requires
        0 <= f < s.len(),
        s[f] == c,
    ensures
        count_char(s, c) >= 1,
    decreases s.len(),
{
    if f < s.len() - 1 {
        lemma_count_pos(s.drop_last(), c, f);
    }
}

/// Splits one `NAME=VALUE` build-variable override.
///
/// The string must contain exactly one `=`; anything else is a configuration
/// error of the build, reported as `BuildError`. On success the two parts
/// reassemble to the input and the name is free of `=`.
pub fn parse_define(s: &str) -> (r: Result<(String, String), NixModuleError>)
    ensures
        r is Ok <==> count_char(s@, '=') == 1,
        r matches Ok(nv) ==> {
            &&& nv.0@ + seq!['='] + nv.1@ == s@
            &&& !crate::strutil::contains_char(nv.0@, '=')
            &&& !crate::strutil::contains_char(nv.1@, '=')
        },
        r matches Err(e) ==> e == NixModuleError::BuildError,
{
    let n = s.unicode_len();
    let mut i: usize = 0;
    let mut first: usize = 0;
    let mut seen: bool = false;
    while i < n
        invariant
            i <= n,
            n == s@.len(),
            seen ==> first < i && s@[first as int] == '=',
            forall|j: int| 0 <= j < i && j != first as int ==> s@[j] != '=',
            !seen ==> forall|j: int| 0 <= j < i ==> s@[j] != '=',
        decreases n - i,
    {
        if s.get_char(i) == '=' {
            if seen {
                proof {
                    lemma_two_seps(s@, '=', first as int, i as int);
                }
                return Err(NixModuleError::BuildError);
            }
            first = i;
            seen = true;
        }
        i = i + 1;
    }
    if !seen {
        proof {
            lemma_count_no_sep(s@, '=');
        }
        return Err(NixModuleError::BuildError);
    }
    proof {
        lemma_single_sep(s@, '=', first as int);
    }
    let name = s.substring_char(0, first);
    let value = s.substring_char(first + 1, n);
    proof {
        assert(name@ + seq!['='] + value@ =~= s@);
    }
    Ok((String::from_str(name), String::from_str(value)))
}

/// Parses every build-variable override, failing on the first malformed one.
pub fn parse_defines(defines: &Vec<String>) -> (r: Result<
    Vec<(String, String)>,
    NixModuleError,
>)
    ensures
        r is Ok <==> (forall|i: int|
            0 <= i < defines@.len() ==> count_char(#[trigger] defines@[i]@, '=') == 1),
        r matches Ok(env) ==> {
            &&& env@.len() == defines@.len()
            &&& forall|i: int|
                0 <= i < env@.len() ==> (#[trigger] env@[i].0@) + seq!['='] + env@[i].1@
                    == defines@[i]@
        },
        r matches Err(e) ==> e == NixModuleError::BuildError,
{
    let mut env: Vec<(String, String)> = Vec::new();
    let mut i: usize = 0;
    while i < defines.len()
        invariant
            i <= defines@.len(),
            env@.len() == i,
            forall|j: int| 0 <= j < i ==> count_char(#[trigger] defines@[j]@, '=') == 1,
            forall|j: int|
                0 <= j < i ==> (#[trigger] env@[j].0@) + seq!['='] + env@[j].1@ == defines@[j]@,
        decreases defines@.len() - i,
    {
        match parse_define(defines[i].as_str()) {
            Ok(nv) => {
                env.push(nv);
            },
            Err(e) => {
                return Err(e);
            },
        }
        i = i + 1;
    }
    Ok(env)
}

/// Everything needed to run the external build tool for one kernel, computed
/// ahead of the invocation itself.
pub struct BuildPlan {
    /// `NAME=VALUE` overrides handed to the tool's environment.
    pub env: Vec<(String, String)>,
    /// First build parameter: the resolved kernel-headers path.
    pub kernel_arg: String,
    /// Second build parameter: the `<module>-<version>` target name.
    pub target_arg: String,
    /// Where the built module artifact will stand if the tool succeeds.
    pub output: String,
}

/// Builds loadable module artifacts by driving an external build tool.
pub struct ModuleBuilder;

impl ModuleBuilder {
    /// Computes the build-tool invocation for `name` against the headers of
    /// `kernel`, rooted at `builddir`.
    ///
    /// Fails with `BuildError` exactly when some override in `defines` does
    /// not contain exactly one `=`.
    pub fn plan(name: &str, defines: &Option<Vec<String>>, kernel: &KConfig, builddir: &str) -> (r:
        Result<BuildPlan, NixModuleError>)
        ensures
            r is Ok <==> (match *defines {
                Some(ref ds) => forall|i: int|
                    0 <= i < ds@.len() ==> count_char(#[trigger] ds@[i]@, '=') == 1,
                None => true,
            }),
            r matches Ok(p) ==> {
                &&& p.kernel_arg@ == "KERNEL="@ + kernel.headers@
                &&& p.target_arg@ == "TARGET="@ + name@ + "-"@ + kernel.version@
                &&& p.output@ == builddir@ + "/"@ + name@ + "-"@ + kernel.version@ + ".ko"@
                &&& (match *defines {
                    Some(ref ds) => p.env@.len() == ds@.len() && forall|i: int|
                        0 <= i < ds@.len() ==> (#[trigger] p.env@[i].0@) + seq!['=']
                            + p.env@[i].1@ == ds@[i]@,
                    None => p.env@.len() == 0,
                })
            },
            r matches Err(e) ==> e == NixModuleError::BuildError,
    {
        let env: Vec<(String, String)> = match defines {
            Some(ds) => match parse_defines(ds) {
                Ok(env) => env,
                Err(e) => {
                    return Err(e);
                },
            },
            None => Vec::new(),
        };
        let kernel_arg = String::from_str("KERNEL=").concat(kernel.headers.as_str());
        let target_arg = String::from_str("TARGET=").concat(name).concat("-").concat(
            kernel.version.as_str(),
        );
        let output = String::from_str(builddir).concat("/").concat(name).concat("-").concat(
            kernel.version.as_str(),
        ).concat(".ko");
        Ok(BuildPlan { env, kernel_arg, target_arg, output })
    }

    /// Classifies the build tool's exit: success yields the deterministic
    /// artifact path of the plan, failure is a `BuildError`.
    pub fn outcome(plan: BuildPlan, success: bool) -> (r: Result<String, NixModuleError>)
        ensures
            success ==> (r matches Ok(p) && p == plan.output),
            !success ==> (r matches Err(e) && e == NixModuleError::BuildError),
    {
        if success {
            Ok(plan.output)
        } else {
            Err(NixModuleError::BuildError)
        }
    }
}

} // verus!
