use vstd::prelude::*;

verus! {

/// `s` with every occurrence of the non-empty pattern `pat`, found from left to right without
/// overlaps, replaced by `rep`.
pub open spec fn replace_all(s: Seq<char>, pat: Seq<char>, rep: Seq<char>) -> Seq<char>
    decreases s.len(),
{
    if pat.len() == 0 || s.len() < pat.len() {
        s
    } else if s.take(pat.len() as int) == pat {
        rep + replace_all(s.skip(pat.len() as int), pat, rep)
    } else {
        seq![s[0]] + replace_all(s.skip(1), pat, rep)
    }
}

/// Whether `pat` occurs in `s` at position `i`.
fn occurs_at(s: &str, pat: &str, i: usize) -> (r: bool)
    requires
        i + pat@.len() <= s@.len(),
    ensures
        r == (s@.skip(i as int).take(pat@.len() as int) == pat@),
{
    let n = pat.unicode_len();
    let total = s.unicode_len();
    let mut j: usize = 0;
    while j < n
        invariant
            n == pat@.len(),
            total == s@.len(),
            i + n <= s@.len(),
            j <= n,
            forall|k: int| 0 <= k < j ==> s@[i + k] == pat@[k],
        decreases n - j,
    {
        if s.get_char(i + j) != pat.get_char(j) {
            assert(s@.skip(i as int).take(n as int)[j as int] != pat@[j as int]);
            return false;
        }
        j = j + 1;
    }
    assert(s@.skip(i as int).take(n as int) =~= pat@);
    true
}

/// `s` with every occurrence of the non-empty pattern `pat`, found from left to right without
/// overlaps, replaced by `rep`.
pub fn replace_str(s: &str, pat: &str, rep: &str) -> (r: String)
    requires
        pat@.len() > 0,
    ensures
        r@ == replace_all(s@, pat@, rep@),
{
    let n = s.unicode_len();
    let plen = pat.unicode_len();
    let mut out = String::new();
    let mut i: usize = 0;
    assert(s@.skip(0) =~= s@);
    while i < n
        invariant
            n == s@.len(),
            plen == pat@.len(),
            plen > 0,
            i <= n,
            out@ + replace_all(s@.skip(i as int), pat@, rep@) == replace_all(s@, pat@, rep@),
        decreases n - i,
    {
        let ghost rest = s@.skip(i as int);
        if plen <= n - i && occurs_at(s, pat, i) {
            assert(rest.skip(plen as int) =~= s@.skip(i + plen));
            let ghost before = out@;
            out.append(rep);
            assert(out@ + replace_all(s@.skip(i + plen), pat@, rep@) =~= before + replace_all(rest, pat@, rep@));
            i = i + plen;
        } else {
            let piece = s.substring_char(i, i + 1);
            assert(rest.skip(1) =~= s@.skip(i + 1));
            assert(piece@ =~= seq![rest[0]]);
            proof {
                if rest.len() < pat@.len() {
                    assert(s@.skip(i + 1).len() < pat@.len());
                    assert(rest =~= seq![rest[0]] + s@.skip(i + 1));
                }
            }
            let ghost before = out@;
            out.append(piece);
            assert(out@ + replace_all(s@.skip(i + 1), pat@, rep@) =~= before + replace_all(rest, pat@, rep@));
            i = i + 1;
        }
    }
    assert(s@.skip(n as int) =~= Seq::<char>::empty());
    assert(out@ + Seq::<char>::empty() =~= out@);
    out
}

/// Replacing every `-` by `_` leaves no `-`.
pub proof fn lemma_replacing_dashes_leaves_none(s: Seq<char>)
    ensures
        forall|i: int| 0 <= i < replace_all(s, "-"@, "_"@).len() ==> #[trigger] replace_all(s, "-"@, "_"@)[i] != '-',
    decreases s.len(),
{
    reveal_strlit("-");
    reveal_strlit("_");
    if s.len() >= 1 {
        let rest = replace_all(s.skip(1), "-"@, "_"@);
        lemma_replacing_dashes_leaves_none(s.skip(1));
        let head = if s.take(1) == "-"@ { "_"@ } else { seq![s[0]] };
        assert(replace_all(s, "-"@, "_"@) == head + rest);
        assert(head[0] != '-') by {
            if s.take(1) != "-"@ && s[0] == '-' {
                assert(s.take(1) =~= "-"@);
            }
        }
        assert forall|i: int| 0 <= i < (head + rest).len() implies #[trigger] (head + rest)[i] != '-' by {
            if i >= 1 {
                assert((head + rest)[i] == rest[i - 1]);
            }
        }
    }
}

/// The settings for creating a new Scrypto package.
pub struct NewPackage {
    /// The package name.
    pub package_name: String,
    /// The package directory, where it is not named after the package.
    pub path: Option<String>,
    /// Whether to depend on a local copy of Scrypto.
    pub local: bool,
}

/// The dependency line for a crate of a local Scrypto checkout at `dir`.
pub open spec fn local_dependency(dir: Seq<char>, krate: Seq<char>) -> Seq<char> {
    "{ path = \""@ + dir + "/"@ + krate + "\" }"@
}

/// The dependency line for a released version of a crate.
pub open spec fn version_dependency(version: Seq<char>) -> Seq<char> {
    "{ version = \""@ + version + "\" }"@
}

impl NewPackage {
    /// The name of the package's wasm file: the package name with each `-` as `_`.
    pub fn wasm_name(&self) -> (r: String)
        ensures
            r@ == replace_all(self.package_name@, "-"@, "_"@),
    {
        proof {
            reveal_strlit("-");
        }
        replace_str(self.package_name.as_str(), "-", "_")
    }

    /// The directory of the new package: the path given, else the package name.
    pub fn package_dir(&self) -> (r: String)
        ensures
            r@ == (match self.path {
                Some(p) => p@,
                None => self.package_name@,
            }),
    {
        match &self.path {
            Some(p) => p.clone(),
            None => self.package_name.clone(),
        }
    }

    /// The dependency lines for `sbor`, `scrypto` and `scrypto-test`: paths into the Scrypto
    /// checkout at `scrypto_dir` (with `\` written as `/`) for a local package, the released
    /// `version` otherwise.
    pub fn dependencies(&self, scrypto_dir: &str, version: &str) -> (r: (String, String, String))
        ensures
            self.local ==> ({
                let dir = replace_all(scrypto_dir@, "\\"@, "/"@);
                &&& r.0@ == local_dependency(dir, "sbor"@)
                &&& r.1@ == local_dependency(dir, "scrypto"@)
                &&& r.2@ == local_dependency(dir, "scrypto-test"@)
            }),
            !self.local ==> r.0@ == version_dependency(version@) && r.1@ == version_dependency(version@)
                && r.2@ == version_dependency(version@),
    {
        proof {
            reveal_strlit("\\");
        }
        if self.local {
            let dir = replace_str(scrypto_dir, "\\", "/");
            let line = |krate: &str| -> (l: String)
                ensures
                    l@ == local_dependency(dir@, krate@),
                {
                    let mut l = String::from_str("{ path = \"");
                    l.append(dir.as_str());
                    l.append("/");
                    l.append(krate);
                    l.append("\" }");
                    l
                };
            (line("sbor"), line("scrypto"), line("scrypto-test"))
        } else {
            let mut s = String::from_str("{ version = \"");
            s.append(version);
            s.append("\" }");
            (s.clone(), s.clone(), s)
        }
    }

    /// The package's `Cargo.toml`: the template with the package name and the three
    /// dependency lines filled in.
    pub fn cargo_toml(&self, template: &str, sbor: &str, scrypto: &str, scrypto_test: &str) -> (r: String)
        ensures
            r@ == replace_all(
                replace_all(
                    replace_all(replace_all(template@, "${package_name}"@, self.package_name@), "${sbor}"@, sbor@),
                    "${scrypto}"@,
                    scrypto@,
                ),
                "${scrypto-test}"@,
                scrypto_test@,
            ),
    {
        proof {
            reveal_strlit("${package_name}");
            reveal_strlit("${sbor}");
            reveal_strlit("${scrypto}");
            reveal_strlit("${scrypto-test}");
        }
        let a = replace_str(template, "${package_name}", self.package_name.as_str());
        let b = replace_str(a.as_str(), "${sbor}", sbor);
        let c = replace_str(b.as_str(), "${scrypto}", scrypto);
        replace_str(c.as_str(), "${scrypto-test}", scrypto_test)
    }

    /// The package's test file: the template with the wasm name filled in.
    pub fn tests_lib(&self, template: &str) -> (r: String)
        ensures
            r@ == replace_all(template@, "${wasm_name}"@, replace_all(self.package_name@, "-"@, "_"@)),
    {
        proof {
            reveal_strlit("${wasm_name}");
        }
        let wasm_name = self.wasm_name();
        replace_str(template, "${wasm_name}", wasm_name.as_str())
    }
}

} // verus!
