//! Laws of the package check.

use vstd::prelude::*;

use crate::install::list::items_after;
use crate::install::packages::{
    answered, binary_of, is_package_ident, package_like, package_name, package_to_binary,
    packages_in, parse_system_packages, report_of, unqualified, unqualify, verify_binaries,
    BinaryProbe, BinaryReport, FsBinaryProbe, MissingView,
};
use crate::laws::text::{law_a_part_is_found, law_what_is_found_is_a_part};
use crate::text::{lemma_filter_push, texts};

verus! {

/// Whether a text is a plain name: an ASCII letter or an underscore, and then ASCII
/// letters, digits, underscores and hyphens.
pub open spec fn plain_name(s: Seq<char>) -> bool {
    &&& s.len() > 0
    &&& s[0] != '-' && !('0' as u32 <= s[0] as u32 <= '9' as u32)
    &&& forall|i: int|
        0 <= i < s.len() ==> {
            let c = #[trigger] s[i];
            ||| 'a' as u32 <= c as u32 <= 'z' as u32
            ||| 'A' as u32 <= c as u32 <= 'Z' as u32
            ||| '0' as u32 <= c as u32 <= '9' as u32
            ||| c == '_' || c == '-'
        }
}

/// How plain names are told.
pub proof fn law_plain_names_are_told(s: &str, r: bool)
    requires
        call_ensures(is_package_ident, (s,), r),
    ensures
        r == plain_name(s@),
{
    lemma_plain_name(s@);
}

/// What a plain name is.
proof fn lemma_plain_name(s: Seq<char>)
    ensures
        package_name(s) == plain_name(s),
{
    if plain_name(s) {
        assert forall|i: int| 0 <= i < s.len() implies crate::install::packages::package_char(
            #[trigger] s[i],
        ) by {}
    }
    if package_name(s) {
        assert(crate::install::packages::package_char(s[0]));
        assert forall|i: int| 0 <= i < s.len() implies {
            let c = #[trigger] s[i];
            ||| 'a' as u32 <= c as u32 <= 'z' as u32
            ||| 'A' as u32 <= c as u32 <= 'Z' as u32
            ||| '0' as u32 <= c as u32 <= '9' as u32
            ||| c == '_' || c == '-'
        } by {
            assert(crate::install::packages::package_char(s[i]));
        }
    }
}

/// The plain names that some items of a list are, bare or behind `pkgs.`, in order.
pub open spec fn names_among(items: Seq<Seq<char>>) -> Seq<Seq<char>>
    decreases items.len(),
{
    if items.len() == 0 {
        Seq::empty()
    } else {
        let names = names_among(items.drop_last());
        let item = items.last();
        if plain_name(item) {
            names.push(item)
        } else if item.len() >= 5 && item.take(5) == "pkgs."@ && plain_name(item.skip(5)) {
            names.push(item.skip(5))
        } else {
            names
        }
    }
}

/// Those names.
proof fn lemma_names_among(items: Seq<Seq<char>>)
    ensures
        items.map_values(unqualify()).filter(package_like()) == names_among(items),
    decreases items.len(),
{
    reveal_strlit("pkgs.");
    if items.len() == 0 {
        reveal(Seq::filter);
        assert(items.map_values(unqualify()).filter(package_like()) =~= Seq::empty());
    } else {
        let front = items.drop_last();
        let item = items.last();
        lemma_names_among(front);
        assert(items.map_values(unqualify()) =~= front.map_values(unqualify()).push(
            unqualified(item),
        ));
        lemma_filter_push(front.map_values(unqualify()), unqualified(item), package_like());
        lemma_plain_name(unqualified(item));
        law_what_is_found_is_a_part(item, "pkgs."@, 0);
        if crate::text::starts_with(item, "pkgs."@) {
            assert(item.take(5) =~= "pkgs."@);
            assert(item[4] == '.');
            assert(!plain_name(item));
        }
        if item.len() >= 5 && item.take(5) == "pkgs."@ {
            assert("pkgs."@ + item.skip(5) =~= item);
            law_a_part_is_found(Seq::empty(), "pkgs."@, item.skip(5));
        }
    }
}

/// The packages of a module are what its `environment.systemPackages` list holds of
/// plain names, bare or behind `pkgs.`, in order and with every repetition.
pub proof fn law_packages_are_the_names_in_the_list(src: &str, found: Vec<String>)
    requires
        call_ensures(parse_system_packages, (src,), found),
    ensures
        texts(found@) == names_among(items_after(src@, "environment.systemPackages"@)),
        texts(found@) == packages_in(src@),
{
    lemma_names_among(items_after(src@, "environment.systemPackages"@));
}

/// A package brings the program of its own name, but for `ripgrep`, which brings
/// `rg`.
pub proof fn law_programs_are_named_like_packages(package: &str, binary: String)
    requires
        call_ensures(package_to_binary, (package,), binary),
    ensures
        package@ == "ripgrep"@ ==> binary@ == "rg"@,
        package@ != "ripgrep"@ ==> binary@ == package@,
{
}

/// The paths that were answered, in order.
pub open spec fn paths_in(answers: Seq<Option<String>>) -> Seq<Seq<char>>
    decreases answers.len(),
{
    if answers.len() == 0 {
        Seq::empty()
    } else {
        match answers.last() {
            Some(path) => paths_in(answers.drop_last()).push(path@),
            None => paths_in(answers.drop_last()),
        }
    }
}

/// The packages for which nothing was answered, in order.
pub open spec fn unanswered(packages: Seq<Seq<char>>, answers: Seq<Option<String>>) -> Seq<
    Seq<char>,
>
    decreases packages.len(),
{
    if packages.len() == 0 {
        Seq::empty()
    } else if answers[packages.len() - 1] is None {
        unanswered(packages.drop_last(), answers.drop_last()).push(packages.last())
    } else {
        unanswered(packages.drop_last(), answers.drop_last())
    }
}

/// What a report holds.
proof fn lemma_report(packages: Seq<Seq<char>>, answers: Seq<Option<String>>)
    requires
        answers.len() == packages.len(),
    ensures
        report_of(packages, answers).found == paths_in(answers),
        report_of(packages, answers).missing.len() == unanswered(packages, answers).len(),
        forall|i: int|
            0 <= i < unanswered(packages, answers).len() ==> {
                let entry = #[trigger] report_of(packages, answers).missing[i];
                entry.package == unanswered(packages, answers)[i] && entry.binary == binary_of(
                    entry.package,
                )
            },
    decreases packages.len(),
{
    if packages.len() > 0 {
        let names = packages.drop_last();
        let given = answers.drop_last();
        lemma_report(names, given);
        let all = report_of(packages, answers).missing;
        let rest = report_of(names, given).missing;
        assert forall|i: int| 0 <= i < unanswered(packages, answers).len() implies {
            let entry = #[trigger] all[i];
            entry.package == unanswered(packages, answers)[i] && entry.binary == binary_of(
                entry.package,
            )
        } by {
            if i < rest.len() {
                assert(all[i] == rest[i]);
            }
        }
    }
}

/// Whether `probe` may have given this answer for the program of a package.
pub open spec fn looked_for<P: BinaryProbe>(
    probe: &P,
    package: Seq<char>,
    answer: Option<String>,
) -> bool {
    exists|binary: &str|
        #![trigger binary@]
        binary@ == (if package == "ripgrep"@ {
            "rg"@
        } else {
            package
        }) && call_ensures(P::resolve, (probe, binary), answer)
}

/// The program of each package is looked for. The paths of those that are there are
/// reported in order, and so are the packages of the others, with their programs.
pub proof fn law_every_program_is_looked_for<P: BinaryProbe>(
    probe: &P,
    packages: &[String],
    report: BinaryReport,
)
    requires
        call_ensures(verify_binaries::<P>, (probe, packages), report),
    ensures
        exists|answers: Seq<Option<String>>|
            {
                let names = texts(packages@);
                &&& answers.len() == names.len()
                &&& forall|i: int|
                    0 <= i < names.len() ==> looked_for(probe, #[trigger] names[i], answers[i])
                &&& texts(report.found@) == #[trigger] paths_in(answers)
                &&& report.missing@.len() == unanswered(names, answers).len()
                &&& forall|i: int|
                    0 <= i < report.missing@.len() ==> {
                        let entry = #[trigger] report.missing@[i];
                        let package = unanswered(names, answers)[i];
                        entry.package@ == package && entry.binary@ == if package == "ripgrep"@ {
                            "rg"@
                        } else {
                            package
                        }
                    }
            },
{
    let names = texts(packages@);
    let answers = choose|answers: Seq<Option<String>>|
        answered(probe, names, answers) && report@ == report_of(names, answers);
    lemma_report(names, answers);
    assert(report@.found == paths_in(answers));
    assert forall|i: int| 0 <= i < names.len() implies looked_for(
        probe,
        #[trigger] names[i],
        answers[i],
    ) by {
        let binary = choose|binary: &str|
            binary@ == binary_of(names[i]) && call_ensures(P::resolve, (probe, binary), answers[i]);
        assert(binary@ == binary_of(names[i]));
    }
    assert(report@.missing.len() == report.missing@.len());
    assert forall|i: int| 0 <= i < report.missing@.len() implies {
        let entry = #[trigger] report.missing@[i];
        let package = unanswered(names, answers)[i];
        entry.package@ == package && entry.binary@ == if package == "ripgrep"@ {
            "rg"@
        } else {
            package
        }
    } by {
        assert(report@.missing[i] == report.missing@[i]@);
    }
}

/// Whatever is read out of a package list is a plain package name, never code.
pub proof fn law_packages_are_plain_names(src: Seq<char>, i: int)
    requires
        0 <= i < packages_in(src).len(),
    ensures
        package_name(packages_in(src)[i]),
{
    let items = items_after(src, "environment.systemPackages"@);
    items.map_values(unqualify()).lemma_filter_pred(package_like(), i);
}

/// Every package is reported once: as found, or as missing.
pub proof fn law_every_package_is_reported(
    packages: Seq<Seq<char>>,
    answers: Seq<Option<String>>,
)
    requires
        answers.len() == packages.len(),
    ensures
        report_of(packages, answers).found.len() + report_of(packages, answers).missing.len()
            == packages.len(),
    decreases packages.len(),
{
    if packages.len() > 0 {
        law_every_package_is_reported(packages.drop_last(), answers.drop_last());
    }
}

/// How a package is reported whose program was not found.
pub open spec fn missing_entry(package: Seq<char>) -> MissingView {
    MissingView { package, binary: binary_of(package) }
}

/// A package is reported as missing exactly if its program was not found.
pub proof fn law_missing_packages_are_those_not_found(
    packages: Seq<Seq<char>>,
    answers: Seq<Option<String>>,
    entry: MissingView,
)
    requires
        answers.len() == packages.len(),
    ensures
        report_of(packages, answers).missing.contains(entry) <==> exists|i: int|
            0 <= i < packages.len() && #[trigger] answers[i] is None && entry == missing_entry(
                packages[i],
            ),
    decreases packages.len(),
{
    let all = report_of(packages, answers).missing;
    if packages.len() == 0 {
        assert(!all.contains(entry));
    } else {
        let names = packages.drop_last();
        let given = answers.drop_last();
        let rest = report_of(names, given).missing;
        let n = packages.len() - 1;
        law_missing_packages_are_those_not_found(names, given, entry);
        if all.contains(entry) {
            if rest.contains(entry) {
                let i = choose|i: int|
                    0 <= i < names.len() && #[trigger] given[i] is None && entry == missing_entry(
                        names[i],
                    );
                assert(answers[i] is None && entry == missing_entry(packages[i]));
            } else {
                let j = all.index_of(entry);
                assert(all[j] == entry);
                if j < rest.len() {
                    assert(rest[j] == entry);
                }
                assert(answers[n] is None && entry == missing_entry(packages[n]));
            }
        }
        if exists|i: int|
            0 <= i < packages.len() && #[trigger] answers[i] is None && entry == missing_entry(
                packages[i],
            ) {
            let i = choose|i: int|
                0 <= i < packages.len() && #[trigger] answers[i] is None && entry
                    == missing_entry(packages[i]);
            if i < n {
                assert(given[i] is None && entry == missing_entry(names[i]));
                let j = rest.index_of(entry);
                assert(rest[j] == entry);
                assert(all[j] == entry);
            } else {
                assert(all[rest.len() as int] == entry);
            }
        }
    }
}

/// The programs of the system are looked for under their names, in the directory of
/// the programs.
pub proof fn law_programs_are_looked_for_in_the_directory(
    new: FsBinaryProbe,
    probe: &FsBinaryProbe,
    binary: &str,
    exists: bool,
    candidate: String,
    path: Option<String>,
)
    requires
        call_ensures(FsBinaryProbe::default, (), new),
        call_ensures(FsBinaryProbe::candidate, (probe, binary), candidate),
        call_ensures(FsBinaryProbe::resolve, (probe, binary, exists), path),
    ensures
        new.bin_dir@ == "/run/current-system/sw/bin"@,
        probe.bin_dir@.len() > 0 && probe.bin_dir@.last() != '/' && (binary@.len() == 0
            || binary@[0] != '/') ==> candidate@ == probe.bin_dir@ + seq!['/'] + binary@,
        exists ==> (path matches Some(p) && p@ == candidate@),
        !exists ==> path is None,
{
    crate::laws::paths::law_paths_are_joined_by_one_separator(probe.bin_dir@, binary@);
}

/// A new report is empty.
pub proof fn law_a_new_report_is_empty(report: BinaryReport)
    requires
        call_ensures(BinaryReport::default, (), report),
    ensures
        report.found@.len() == 0,
        report.missing@.len() == 0,
{
    assert(report@.found.len() == report.found@.len());
    assert(report@.missing.len() == report.missing@.len());
}

/// An answer is recorded behind those before it: a path as found, none as missing.
#[allow(dead_code)]
fn law_answers_are_recorded_in_order(
    report: &mut BinaryReport,
    package: &str,
    answer: Option<String>,
)
    ensures
        answer matches Some(path) ==> final(report)@.found == old(report)@.found.push(path@)
            && final(report)@.missing == old(report)@.missing,
        answer is None ==> {
            &&& final(report)@.found == old(report)@.found
            &&& final(report)@.missing.len() == old(report)@.missing.len() + 1
            &&& final(report)@.missing.drop_last() == old(report)@.missing
            &&& final(report)@.missing.last().package == package@
            &&& final(report)@.missing.last().binary == binary_of(package@)
        },
{
    report.record(package, answer);
}

} // verus!
