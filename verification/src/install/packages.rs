//! The packages that a module installs, and the programs that they bring.

use vstd::prelude::*;
use vstd::string::*;

use crate::install::list::{items_after, list_items};
use crate::paths::{join_path, joined_path};
use crate::text::{
    ascii_alphabetic, ascii_alphanumeric, begins_with, chars_of, is_ascii_letter,
    is_ascii_letter_or_digit, lemma_filter_push, lemma_texts_push, same_text, starts_with, texts,
};

verus! {

// ── Packages ────────────────────────────────────────────────────────────────

/// A package name without the `pkgs.` before it.
pub open spec fn unqualified(t: Seq<char>) -> Seq<char> {
    if starts_with(t, "pkgs."@) {
        t.skip(5)
    } else {
        t
    }
}

/// [`unqualified`] as a function to map.
pub open spec fn unqualify() -> spec_fn(Seq<char>) -> Seq<char> {
    |t: Seq<char>| unqualified(t)
}

/// Whether a character can stand in a plain package name.
pub open spec fn package_char(c: char) -> bool {
    ascii_alphanumeric(c) || c == '_' || c == '-'
}

/// Whether a text is a plain package name: a letter or an underscore, then
/// letters, digits, underscores and hyphens.
pub open spec fn package_name(s: Seq<char>) -> bool {
    &&& s.len() > 0
    &&& ascii_alphabetic(s[0]) || s[0] == '_'
    &&& forall|i: int| 0 <= i < s.len() ==> package_char(#[trigger] s[i])
}

/// [`package_name`] as a predicate to filter by.
pub open spec fn package_like() -> spec_fn(Seq<char>) -> bool {
    |s: Seq<char>| package_name(s)
}

/// What the `environment.systemPackages` list of a module holds of plain package
/// names, in order. A name inside brackets, a string or a comment is no entry of
/// the list.
pub open spec fn packages_in(src: Seq<char>) -> Seq<Seq<char>> {
    items_after(src, "environment.systemPackages"@).map_values(unqualify()).filter(package_like())
}

/// Whether `s` is a plain package name.
pub fn is_package_ident(s: &str) -> (r: bool)
    ensures
        r == package_name(s@),
{
    let v = chars_of(s);
    let n: usize = v.len();
    if n == 0 || !(is_ascii_letter(v[0]) || v[0] == '_') {
        return false;
    }
    for i in 0..n
        invariant
            v@ == s@,
            n == v.len(),
            forall|j: int| 0 <= j < i ==> package_char(#[trigger] s@[j]),
    {
        if !(is_ascii_letter_or_digit(v[i]) || v[i] == '_' || v[i] == '-') {
            assert(!package_char(s@[i as int]));
            return false;
        }
    }
    true
}

/// `t` without the `pkgs.` before it.
fn unqualified_name<'a>(t: &'a str) -> (r: &'a str)
    ensures
        r@ == unqualified(t@),
{
    proof {
        reveal_strlit("pkgs.");
    }
    if begins_with(t, "pkgs.") {
        let n: usize = t.unicode_len();
        assert(t@.skip(5) =~= t@.subrange(5, n as int));
        t.substring_char(5, n)
    } else {
        t
    }
}

/// The plain package names in `environment.systemPackages = with pkgs; [ … ];`,
/// or in a list of `pkgs.name`. An entry that is no plain name is left out whole,
/// with every name in it.
pub fn parse_system_packages(src: &str) -> (r: Vec<String>)
    ensures
        texts(r@) == packages_in(src@),
{
    let mut out: Vec<String> = Vec::new();
    assert(texts(out@) =~= Seq::<Seq<char>>::empty());
    let all = list_items(src, "environment.systemPackages");
    let n: usize = all.len();
    let ghost names = texts(all@).map_values(unqualify());
    proof {
        reveal(Seq::filter);
        assert(names.take(0).filter(package_like()) =~= Seq::<Seq<char>>::empty());
    }
    for i in 0..n
        invariant
            n == all.len(),
            names == texts(all@).map_values(unqualify()),
            texts(out@) == names.take(i as int).filter(package_like()),
    {
        let name = unqualified_name(all[i].as_str());
        proof {
            assert(names.take(i + 1) =~= names.take(i as int).push(name@));
            lemma_filter_push(names.take(i as int), name@, package_like());
        }
        if is_package_ident(name) {
            let owned = name.to_owned();
            proof {
                lemma_texts_push(out@, owned);
            }
            out.push(owned);
        }
    }
    assert(names.take(n as int) =~= names);
    out
}

// ── Programs ────────────────────────────────────────────────────────────────

/// The program that a package is expected to install.
pub open spec fn binary_of(package: Seq<char>) -> Seq<char> {
    if package == "ripgrep"@ {
        "rg"@
    } else {
        package
    }
}

/// The program that `package` is expected to install.
pub fn package_to_binary(package: &str) -> (binary: String)
    ensures
        binary@ == binary_of(package@),
{
    if same_text(package, "ripgrep") {
        "rg".to_owned()
    } else {
        package.to_owned()
    }
}

/// Finds programs on the activated system.
pub trait BinaryProbe {
    /// The path of `binary`, if the activated system has it.
    fn resolve(&self, binary: &str) -> Option<String>;
}

/// Looks for programs in one directory.
#[derive(Debug, Clone)]
pub struct FsBinaryProbe {
    pub bin_dir: String,
}

impl Default for FsBinaryProbe {
    fn default() -> (probe: Self)
        ensures
            probe.bin_dir@ == "/run/current-system/sw/bin"@,
    {
        FsBinaryProbe { bin_dir: "/run/current-system/sw/bin".to_owned() }
    }
}

impl FsBinaryProbe {
    /// Where `binary` would be.
    pub fn candidate(&self, binary: &str) -> (path: String)
        ensures
            path@ == joined_path(self.bin_dir@, binary@),
    {
        join_path(self.bin_dir.as_str(), binary)
    }

    /// The path of `binary`, if there is a file at its [`candidate`] path.
    ///
    /// [`candidate`]: FsBinaryProbe::candidate
    pub fn resolve(&self, binary: &str, exists: bool) -> (path: Option<String>)
        ensures
            match path {
                Some(p) => exists && p@ == joined_path(self.bin_dir@, binary@),
                None => !exists,
            },
    {
        if exists {
            Some(self.candidate(binary))
        } else {
            None
        }
    }
}

/// A package whose program was not found.
#[derive(Debug, Clone, PartialEq, Eq)]
pub struct MissingBinary {
    pub package: String,
    pub binary: String,
}

/// Which of the expected programs are there.
#[derive(Debug, Clone)]
pub struct BinaryReport {
    pub found: Vec<String>,
    pub missing: Vec<MissingBinary>,
}

/// A [`MissingBinary`] with its texts.
#[verifier::ext_equal]
pub struct MissingView {
    pub package: Seq<char>,
    pub binary: Seq<char>,
}

/// A [`BinaryReport`] with its texts.
#[verifier::ext_equal]
pub struct ReportView {
    pub found: Seq<Seq<char>>,
    pub missing: Seq<MissingView>,
}

impl View for MissingBinary {
    type V = MissingView;

    open spec fn view(&self) -> MissingView {
        MissingView { package: self.package@, binary: self.binary@ }
    }
}

impl View for BinaryReport {
    type V = ReportView;

    open spec fn view(&self) -> ReportView {
        ReportView {
            found: texts(self.found@),
            missing: self.missing@.map_values(|m: MissingBinary| m@),
        }
    }
}

impl Default for BinaryReport {
    fn default() -> (report: Self)
        ensures
            report@ == (ReportView { found: Seq::empty(), missing: Seq::empty() }),
    {
        let report = BinaryReport { found: Vec::new(), missing: Vec::new() };
        assert(report@ =~= (ReportView { found: Seq::empty(), missing: Seq::empty() }));
        report
    }
}

/// The report on `packages` where each program was looked for with the answer
/// at the same index: the paths of those found, and the packages of the others,
/// both in order.
pub open spec fn report_of(packages: Seq<Seq<char>>, answers: Seq<Option<String>>) -> ReportView
    decreases packages.len(),
{
    if packages.len() == 0 {
        ReportView { found: Seq::empty(), missing: Seq::empty() }
    } else {
        let rest = report_of(packages.drop_last(), answers.drop_last());
        match answers.last() {
            Some(path) => ReportView { found: rest.found.push(path@), ..rest },
            None => ReportView {
                missing: rest.missing.push(
                    MissingView { package: packages.last(), binary: binary_of(packages.last()) },
                ),
                ..rest
            },
        }
    }
}

impl BinaryReport {
    /// Enters the answer for one package.
    pub fn record(&mut self, package: &str, answer: Option<String>)
        ensures
            final(self)@ == match answer {
                Some(path) => ReportView { found: old(self)@.found.push(path@), ..old(self)@ },
                None => ReportView {
                    missing: old(self)@.missing.push(
                        MissingView { package: package@, binary: binary_of(package@) },
                    ),
                    ..old(self)@
                },
            },
    {
        match answer {
            Some(path) => {
                proof {
                    lemma_texts_push(self.found@, path);
                }
                self.found.push(path);
            },
            None => {
                let m = MissingBinary {
                    package: package.to_owned(),
                    binary: package_to_binary(package),
                };
                self.missing.push(m);
                assert(self@.missing =~= old(self)@.missing.push(m@));
            },
        }
    }
}

/// Whether `probe` may have given these answers for the programs of `packages`.
pub open spec fn answered<P: BinaryProbe>(
    probe: &P,
    packages: Seq<Seq<char>>,
    answers: Seq<Option<String>>,
) -> bool {
    &&& answers.len() == packages.len()
    &&& forall|i: int|
        0 <= i < packages.len() ==> exists|binary: &str|
            binary@ == binary_of(#[trigger] packages[i]) && call_ensures(
                P::resolve,
                (probe, binary),
                answers[i],
            )
}

/// Looks for the program of each package with `probe`.
pub fn verify_binaries<P: BinaryProbe>(probe: &P, packages: &[String]) -> (report: BinaryReport)
    ensures
        exists|answers: Seq<Option<String>>|
            answered(probe, texts(packages@), answers) && report@ == report_of(
                texts(packages@),
                answers,
            ),
{
    let n: usize = packages.len();
    let mut report = BinaryReport { found: Vec::new(), missing: Vec::new() };
    let ghost mut answers: Seq<Option<String>> = Seq::empty();
    let ghost all = texts(packages@);
    assert(report@ =~= report_of(all.take(0), answers));
    for i in 0..n
        invariant
            n == packages.len(),
            all == texts(packages@),
            answered(probe, all.take(i as int), answers),
            report@ == report_of(all.take(i as int), answers),
    {
        let binary = package_to_binary(packages[i].as_str());
        let answer = probe.resolve(binary.as_str());
        proof {
            let longer = answers.push(answer);
            assert(all.take(i + 1).drop_last() =~= all.take(i as int));
            assert(longer.drop_last() =~= answers);
            assert forall|j: int| 0 <= j < all.take(i + 1).len() implies exists|b: &str|
                b@ == binary_of(#[trigger] all.take(i + 1)[j]) && call_ensures(
                    P::resolve,
                    (probe, b),
                    longer[j],
                ) by {
                if j < i {
                    assert(all.take(i as int)[j] == all.take(i + 1)[j]);
                }
            }
            answers = longer;
        }
        report.record(packages[i].as_str(), answer);
    }
    assert(all.take(n as int) =~= all);
    report
}

} // verus!
